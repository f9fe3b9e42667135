//! A mapping from string keys to string values, kept sorted by key.
use vstd::prelude::*;

use crate::order::{chars_less, compare, lemma_less_irreflexive, lemma_less_total, lemma_less_transitive};

verus! {

/// The view of a map: its entries, in increasing key order.
pub type Entries = Seq<(Seq<char>, Seq<char>)>;

/// No key occurs twice.
pub open spec fn keys_distinct(s: Entries) -> bool {
    forall|i: int, j: int| 0 <= i < j < s.len() ==> s[i].0 != s[j].0
}

/// The keys are in strictly increasing order.
pub open spec fn keys_sorted(s: Entries) -> bool {
    forall|i: int, j: int| 0 <= i < j < s.len() ==> chars_less(s[i].0, s[j].0)
}

pub open spec fn has_key(s: Entries, k: Seq<char>) -> bool {
    exists|i: int| 0 <= i < s.len() && s[i].0 == k
}

/// The position of key `k` (meaningful only where `has_key(s, k)`).
pub open spec fn key_index(s: Entries, k: Seq<char>) -> int {
    choose|i: int| 0 <= i < s.len() && s[i].0 == k
}

/// The value stored under `k`, if any.
pub open spec fn lookup(s: Entries, k: Seq<char>) -> Option<Seq<char>> {
    if has_key(s, k) {
        Some(s[key_index(s, k)].1)
    } else {
        None
    }
}

/// `p` is where `k` belongs among the keys: every key before it is
/// smaller, every key from it on is larger.
pub open spec fn is_slot(s: Entries, k: Seq<char>, p: int) -> bool {
    &&& 0 <= p <= s.len()
    &&& forall|i: int| 0 <= i < p ==> chars_less(#[trigger] s[i].0, k)
    &&& forall|i: int| p <= i < s.len() ==> chars_less(k, #[trigger] s[i].0)
}

/// The position at which a new key `k` goes.
pub open spec fn slot_of(s: Entries, k: Seq<char>) -> int {
    choose|p: int| is_slot(s, k, p)
}

/// The entries after storing `v` under `k`: an existing key takes the new
/// value, a new key goes to its place in key order.
pub open spec fn inserted(s: Entries, k: Seq<char>, v: Seq<char>) -> Entries {
    if has_key(s, k) {
        s.update(key_index(s, k), (k, v))
    } else {
        s.insert(slot_of(s, k), (k, v))
    }
}

/// The keys, in order.
pub open spec fn keys_of(s: Entries) -> Seq<Seq<char>> {
    s.map_values(|e: (Seq<char>, Seq<char>)| e.0)
}

pub proof fn lemma_sorted_distinct(s: Entries)
    requires
        keys_sorted(s),
    ensures
        keys_distinct(s),
{
    assert forall|i: int, j: int| 0 <= i < j < s.len() implies s[i].0 != s[j].0 by {
        lemma_less_irreflexive(s[i].0);
    }
}

/// In a map with distinct keys, any position that holds `k` is `key_index`.
pub proof fn lemma_key_index_unique(s: Entries, k: Seq<char>, i: int)
    requires
        keys_distinct(s),
        0 <= i < s.len(),
        s[i].0 == k,
    ensures
        has_key(s, k),
        key_index(s, k) == i,
        lookup(s, k) == Some(s[i].1),
{
    let j = key_index(s, k);
    assert(0 <= j < s.len() && s[j].0 == k);
}

/// A key that is absent has exactly one slot.
proof fn lemma_slot(s: Entries, k: Seq<char>, p: int)
    requires
        keys_sorted(s),
        !has_key(s, k),
    ensures
        is_slot(s, k, slot_of(s, k)),
        is_slot(s, k, p) ==> slot_of(s, k) == p,
    decreases s.len(),
{
    lemma_slot_exists(s, k);
    let q = slot_of(s, k);
    if is_slot(s, k, p) && p != q {
        let m = if p < q { p } else { q };
        lemma_less_total(s[m].0, k);
    }
}

proof fn lemma_slot_exists(s: Entries, k: Seq<char>)
    requires
        keys_sorted(s),
        !has_key(s, k),
    ensures
        exists|p: int| is_slot(s, k, p),
    decreases s.len(),
{
    if s.len() == 0 {
        assert(is_slot(s, k, 0));
    } else {
        let t = s.drop_last();
        assert(!has_key(t, k)) by {
            if has_key(t, k) {
                let i = choose|i: int| 0 <= i < t.len() && t[i].0 == k;
                assert(s[i].0 == k);
            }
        }
        lemma_slot_exists(t, k);
        let p = choose|p: int| is_slot(t, k, p);
        let last = s.last().0;
        lemma_less_total(last, k);
        if chars_less(last, k) {
            assert forall|i: int| 0 <= i < s.len() implies chars_less(#[trigger] s[i].0, k) by {
                if i < s.len() - 1 {
                    lemma_less_transitive(s[i].0, last, k);
                }
            }
            assert(is_slot(s, k, s.len() as int));
        } else {
            assert(s[s.len() - 1].0 != k);
            assert forall|i: int| p <= i < s.len() implies chars_less(k, #[trigger] s[i].0) by {
                if i < s.len() - 1 {
                    assert(t[i] == s[i]);
                }
            }
            assert forall|i: int| 0 <= i < p implies chars_less(#[trigger] s[i].0, k) by {
                assert(t[i] == s[i]);
            }
            assert(is_slot(s, k, p));
        }
    }
}

/// Storing into an empty map gives the one entry.
pub proof fn lemma_inserted_into_empty(k: Seq<char>, v: Seq<char>)
    ensures
        inserted(Seq::empty(), k, v) == seq![(k, v)],
{
    let e = Seq::<(Seq<char>, Seq<char>)>::empty();
    lemma_slot(e, k, 0);
    assert(inserted(e, k, v) =~= seq![(k, v)]);
}

/// Storing a value keeps the keys sorted; afterwards `k` maps to `v` and
/// every other key to what it mapped to before.
pub proof fn lemma_inserted(s: Entries, k: Seq<char>, v: Seq<char>)
    requires
        keys_sorted(s),
    ensures
        keys_sorted(inserted(s, k, v)),
        lookup(inserted(s, k, v), k) == Some(v),
        forall|k2: Seq<char>| k2 != k ==> #[trigger] lookup(inserted(s, k, v), k2) == lookup(s, k2),
        forall|k2: Seq<char>| #[trigger] has_key(inserted(s, k, v), k2) <==> (has_key(s, k2) || k2 == k),
{
    let t = inserted(s, k, v);
    lemma_sorted_distinct(s);
    if has_key(s, k) {
        let j = key_index(s, k);
        assert(keys_sorted(t));
        lemma_sorted_distinct(t);
        lemma_key_index_unique(t, k, j);
        assert forall|k2: Seq<char>| k2 != k implies #[trigger] lookup(t, k2) == lookup(s, k2) by {
            if has_key(s, k2) {
                let i = key_index(s, k2);
                lemma_key_index_unique(t, k2, i);
            }
            if has_key(t, k2) {
                let i = key_index(t, k2);
                assert(s[i].0 == k2);
            }
        }
        assert forall|k2: Seq<char>| #[trigger] has_key(t, k2) <==> (has_key(s, k2) || k2 == k) by {
            if has_key(s, k2) {
                let i = choose|i: int| 0 <= i < s.len() && s[i].0 == k2;
                assert(t[i].0 == k2);
            }
            if has_key(t, k2) {
                let i = choose|i: int| 0 <= i < t.len() && t[i].0 == k2;
                if i != j {
                    assert(s[i].0 == k2);
                }
            }
        }
    } else {
        lemma_slot(s, k, 0);
        let p = slot_of(s, k);
        assert(keys_sorted(t)) by {
            assert forall|i: int, j: int| 0 <= i < j < t.len() implies chars_less(t[i].0, t[j].0) by {
                if i < p && j > p {
                    lemma_less_transitive(t[i].0, k, t[j].0);
                }
            }
        }
        lemma_sorted_distinct(t);
        lemma_key_index_unique(t, k, p);
        assert forall|k2: Seq<char>| k2 != k implies #[trigger] lookup(t, k2) == lookup(s, k2) by {
            if has_key(s, k2) {
                let i = key_index(s, k2);
                let ti = if i < p { i } else { i + 1 };
                assert(t[ti] == s[i]);
                lemma_key_index_unique(t, k2, ti);
            }
            if has_key(t, k2) {
                let i = key_index(t, k2);
                let si = if i < p { i } else { i - 1 };
                assert(s[si] == t[i]);
            }
        }
        assert forall|k2: Seq<char>| #[trigger] has_key(t, k2) <==> (has_key(s, k2) || k2 == k) by {
            if has_key(s, k2) {
                let i = choose|i: int| 0 <= i < s.len() && s[i].0 == k2;
                let ti = if i < p { i } else { i + 1 };
                assert(t[ti] == s[i]);
            }
            if has_key(t, k2) && k2 != k {
                let i = choose|i: int| 0 <= i < t.len() && t[i].0 == k2;
                let si = if i < p { i } else { i - 1 };
                assert(s[si] == t[i]);
            }
        }
    }
}

/// The entries of a map built by inserting `pairs` one after another.
pub open spec fn entries_from_pairs(pairs: Seq<(Seq<char>, Seq<char>)>) -> Entries
    decreases pairs.len(),
{
    if pairs.len() == 0 {
        Seq::empty()
    } else {
        inserted(entries_from_pairs(pairs.drop_last()), pairs.last().0, pairs.last().1)
    }
}

/// Dropping the first entry of sorted entries forgets its key alone.
proof fn lemma_lookup_drop_first(s: Entries, k: Seq<char>)
    requires
        keys_sorted(s),
        s.len() > 0,
    ensures
        keys_sorted(s.drop_first()),
        lookup(s.drop_first(), k) == if k == s[0].0 { None } else { lookup(s, k) },
{
    let t = s.drop_first();
    lemma_sorted_distinct(s);
    assert(keys_sorted(t));
    lemma_sorted_distinct(t);
    if has_key(t, k) {
        let i = key_index(t, k);
        assert(s[i + 1] == t[i]);
        lemma_key_index_unique(s, k, i + 1);
        lemma_key_index_unique(t, k, i);
    }
    if has_key(s, k) && k != s[0].0 {
        let i = key_index(s, k);
        assert(t[i - 1] == s[i]);
        lemma_key_index_unique(t, k, i - 1);
    }
}

/// Sorted entries are fixed by what they map each key to.
pub proof fn lemma_sorted_unique(s1: Entries, s2: Entries)
    requires
        keys_sorted(s1),
        keys_sorted(s2),
        forall|k: Seq<char>| #[trigger] lookup(s1, k) == lookup(s2, k),
    ensures
        s1 == s2,
    decreases s1.len(),
{
    lemma_sorted_distinct(s1);
    lemma_sorted_distinct(s2);
    if s1.len() == 0 || s2.len() == 0 {
        if s1.len() > 0 {
            lemma_key_index_unique(s1, s1[0].0, 0);
            assert(lookup(s2, s1[0].0) is Some);
        }
        if s2.len() > 0 {
            lemma_key_index_unique(s2, s2[0].0, 0);
            assert(lookup(s1, s2[0].0) is Some);
        }
        assert(s1 =~= s2);
    } else {
        let k1 = s1[0].0;
        let k2 = s2[0].0;
        lemma_key_index_unique(s1, k1, 0);
        lemma_key_index_unique(s2, k2, 0);
        assert(lookup(s2, k1) is Some);
        assert(lookup(s1, k2) is Some);
        let j = key_index(s2, k1);
        let i = key_index(s1, k2);
        if j > 0 {
            assert(chars_less(k2, k1));
            lemma_less_irreflexive(k1);
            if i > 0 {
                assert(chars_less(k1, k2));
                lemma_less_total(k1, k2);
            }
        }
        assert(k1 == k2);
        assert(s1[0] == s2[0]);
        let t1 = s1.drop_first();
        let t2 = s2.drop_first();
        assert forall|k: Seq<char>| #[trigger] lookup(t1, k) == lookup(t2, k) by {
            lemma_lookup_drop_first(s1, k);
            lemma_lookup_drop_first(s2, k);
            assert(lookup(s1, k) == lookup(s2, k));
        }
        lemma_lookup_drop_first(s1, k1);
        lemma_lookup_drop_first(s2, k1);
        lemma_sorted_unique(t1, t2);
        assert(s1 =~= seq![s1[0]] + t1);
        assert(s2 =~= seq![s2[0]] + t2);
    }
}

/// A map built from pairs has sorted keys, holds exactly the keys of the
/// pairs, and maps each key to the value of its last pair.
#[verifier::rlimit(40)]
pub proof fn lemma_entries_from_pairs(p: Seq<(Seq<char>, Seq<char>)>)
    ensures
        keys_sorted(entries_from_pairs(p)),
        forall|k: Seq<char>| #[trigger] has_key(entries_from_pairs(p), k) <==> has_key(p, k),
        forall|i: int|
            0 <= i < p.len() && (forall|j: int| i < j < p.len() ==> p[j].0 != p[i].0) ==> lookup(
                entries_from_pairs(p),
                (#[trigger] p[i]).0,
            ) == Some(p[i].1),
    decreases p.len(),
{
    if p.len() > 0 {
        let t = p.drop_last();
        let last = p.last();
        lemma_entries_from_pairs(t);
        let e = entries_from_pairs(t);
        let ep = entries_from_pairs(p);
        assert(ep == inserted(e, last.0, last.1));
        lemma_inserted(e, last.0, last.1);
        assert forall|k: Seq<char>| #[trigger] has_key(ep, k) <==> has_key(p, k) by {
            if has_key(t, k) {
                let i = choose|i: int| 0 <= i < t.len() && t[i].0 == k;
                assert(p[i].0 == k);
            }
            if has_key(p, k) && k != last.0 {
                let i = choose|i: int| 0 <= i < p.len() && p[i].0 == k;
                assert(t[i].0 == k);
            }
            assert(p[p.len() - 1].0 == last.0);
        }
        assert forall|i: int|
            0 <= i < p.len() && (forall|j: int| i < j < p.len() ==> p[j].0 != p[i].0) implies lookup(
                ep,
                (#[trigger] p[i]).0,
            ) == Some(p[i].1) by {
            if i < p.len() - 1 {
                assert(p[p.len() - 1].0 != p[i].0);
                assert(t[i] == p[i]);
                assert(forall|j: int| i < j < t.len() ==> t[j].0 != t[i].0);
            }
        }
    }
}

/// The views of string pairs.
pub open spec fn pair_views(pairs: Seq<(String, String)>) -> Seq<(Seq<char>, Seq<char>)> {
    pairs.map_values(|p: (String, String)| (p.0@, p.1@))
}

/// A string-keyed map with distinct keys, kept in key order.
#[derive(Debug, PartialEq, Eq)]
pub struct StrMap {
    entries: Vec<(String, String)>,
}

impl View for StrMap {
    type V = Entries;

    closed spec fn view(&self) -> Entries {
        self.entries@.map_values(|e: (String, String)| (e.0@, e.1@))
    }
}

impl StrMap {
    #[verifier::type_invariant]
    closed spec fn inv(&self) -> bool {
        keys_sorted(self@)
    }

    pub fn new() -> (r: StrMap)
        ensures
            r@ == Seq::<(Seq<char>, Seq<char>)>::empty(),
    {
        let entries: Vec<(String, String)> = Vec::new();
        assert(entries@.map_values(|e: (String, String)| (e.0@, e.1@)) =~= Seq::<(Seq<char>, Seq<char>)>::empty());
        StrMap { entries }
    }

    pub fn len(&self) -> (r: usize)
        ensures
            r == self@.len(),
    {
        self.entries.len()
    }

    /// The key and value at position `i`.
    pub fn entry(&self, i: usize) -> (r: (&String, &String))
        requires
            i < self@.len(),
        ensures
            r.0@ == self@[i as int].0,
            r.1@ == self@[i as int].1,
    {
        let e = &self.entries[i];
        (&e.0, &e.1)
    }

    /// Where `key` stands: `Ok` with its position, or `Err` with the
    /// position at which it would go.
    fn search(&self, key: &String) -> (r: Result<usize, usize>)
        ensures
            r matches Ok(i) ==> i < self@.len() && self@[i as int].0 == key@,
            r matches Err(p) ==> !has_key(self@, key@) && is_slot(self@, key@, p as int),
    {
        proof {
            use_type_invariant(self);
        }
        let mut i: usize = 0;
        while i < self.entries.len()
            invariant
                keys_sorted(self@),
                i <= self@.len(),
                self@.len() == self.entries@.len(),
                forall|j: int| 0 <= j < i ==> chars_less(#[trigger] self@[j].0, key@),
            decreases self.entries.len() - i,
        {
            let c = compare(&self.entries[i].0, key);
            if c == 0 {
                return Ok(i);
            }
            if c > 0 {
                proof {
                    assert forall|j: int| i <= j < self@.len() implies chars_less(key@, #[trigger] self@[j].0) by {
                        if j > i {
                            lemma_less_transitive(key@, self@[i as int].0, self@[j].0);
                        }
                    }
                    assert forall|j: int| 0 <= j < self@.len() implies #[trigger] self@[j].0 != key@ by {
                        lemma_less_irreflexive(key@);
                    }
                }
                return Err(i);
            }
            i = i + 1;
        }
        proof {
            assert forall|j: int| 0 <= j < self@.len() implies #[trigger] self@[j].0 != key@ by {
                lemma_less_irreflexive(key@);
            }
        }
        Err(i)
    }

    /// The position of `key`, if it is present.
    pub fn find(&self, key: &String) -> (r: Option<usize>)
        ensures
            r is None <==> !has_key(self@, key@),
            r matches Some(i) ==> i < self@.len() && key_index(self@, key@) == i,
    {
        proof {
            use_type_invariant(self);
            lemma_sorted_distinct(self@);
        }
        match self.search(key) {
            Ok(i) => {
                proof {
                    lemma_key_index_unique(self@, key@, i as int);
                }
                Some(i)
            },
            Err(_) => None,
        }
    }

    /// The value stored under `key`, if any.
    pub fn get(&self, key: &String) -> (r: Option<&String>)
        ensures
            r is None <==> lookup(self@, key@) is None,
            r matches Some(v) ==> lookup(self@, key@) == Some(v@),
    {
        match self.find(key) {
            Some(i) => Some(&self.entries[i].1),
            None => None,
        }
    }

    /// Stores `value` under `key`, replacing what was there.
    pub fn insert(&mut self, key: String, value: String)
        ensures
            final(self)@ == inserted(old(self)@, key@, value@),
    {
        proof {
            use_type_invariant(&*self);
            lemma_inserted(self@, key@, value@);
            lemma_sorted_distinct(self@);
        }
        let ghost before = self@;
        let found = self.search(&key);
        let mut entries: Vec<(String, String)> = Vec::new();
        std::mem::swap(&mut entries, &mut self.entries);
        match found {
            Ok(i) => {
                proof {
                    lemma_key_index_unique(before, key@, i as int);
                }
                entries.set(i, (key, value));
            },
            Err(p) => {
                proof {
                    lemma_slot(before, key@, p as int);
                }
                entries.insert(p, (key, value));
            },
        }
        assert(entries@.map_values(|e: (String, String)| (e.0@, e.1@)) =~= inserted(before, key@, value@));
        self.entries = entries;
    }

    /// The keys, in order.
    pub fn keys(&self) -> (r: Vec<String>)
        ensures
            r@.map_values(|s: String| s@) == keys_of(self@),
    {
        let mut r: Vec<String> = Vec::new();
        let mut i: usize = 0;
        while i < self.entries.len()
            invariant
                i <= self@.len(),
                self@.len() == self.entries@.len(),
                r@.len() == i,
                forall|j: int| 0 <= j < i ==> r@[j]@ == self@[j].0,
            decreases self.entries.len() - i,
        {
            r.push(self.entries[i].0.clone());
            i = i + 1;
        }
        assert(r@.map_values(|s: String| s@) =~= keys_of(self@));
        r
    }

    /// A map holding the given pairs; a later pair replaces an earlier one
    /// with the same key.
    pub fn from_pairs(pairs: Vec<(String, String)>) -> (r: StrMap)
        ensures
            r@ == entries_from_pairs(pair_views(pairs@)),
    {
        let ghost pv = pair_views(pairs@);
        let mut r = StrMap::new();
        let mut i: usize = 0;
        while i < pairs.len()
            invariant
                pv == pair_views(pairs@),
                i <= pairs@.len(),
                r@ == entries_from_pairs(pv.take(i as int)),
            decreases pairs.len() - i,
        {
            let k = pairs[i].0.clone();
            let v = pairs[i].1.clone();
            r.insert(k, v);
            assert(pv.take(i as int + 1).drop_last() =~= pv.take(i as int));
            i = i + 1;
        }
        assert(pv.take(pv.len() as int) =~= pv);
        r
    }
}

impl Clone for StrMap {
    fn clone(&self) -> (r: StrMap)
        ensures
            r@ == self@,
    {
        let mut entries: Vec<(String, String)> = Vec::new();
        let mut i: usize = 0;
        while i < self.entries.len()
            invariant
                i <= self.entries@.len(),
                entries@.len() == i,
                forall|j: int| 0 <= j < i ==> entries@[j].0@ == self.entries@[j].0@
                    && entries@[j].1@ == self.entries@[j].1@,
            decreases self.entries.len() - i,
        {
            entries.push((self.entries[i].0.clone(), self.entries[i].1.clone()));
            i = i + 1;
        }
        proof {
            use_type_invariant(self);
        }
        assert(entries@.map_values(|e: (String, String)| (e.0@, e.1@)) =~= self@);
        StrMap { entries }
    }
}

} // verus!
