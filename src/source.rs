//! What the configuration backends compute around their I/O: where each
//! kind's content lives, and how what was read becomes a content map.
use vstd::prelude::*;

use crate::reconcile::{Fetched, FetchedView};
use crate::scope::opt_view;
use crate::strmap::{entries_from_pairs, has_key, keys_sorted, lemma_entries_from_pairs, lemma_inserted_into_empty, lemma_sorted_unique, lookup, pair_views, StrMap};

verus! {

/// `a/b`.
pub open spec fn joined(a: Seq<char>, b: Seq<char>) -> Seq<char> {
    a + "/"@ + b
}

fn join(a: &String, b: &str) -> (r: String)
    ensures
        r@ == joined(a@, b@),
{
    let mut r = a.clone();
    r.append("/");
    r.append(b);
    r
}

/// The file that holds the configuration of sidecar `identifier` in
/// `namespace`, under the folder `root`: `root/namespace/identifier-config.yaml`.
pub fn folder_config_path(root: &String, namespace: &String, identifier: &String) -> (r: String)
    ensures
        r@ == joined(joined(root@, namespace@), identifier@ + "-config.yaml"@),
{
    let dir = join(root, namespace.as_str());
    let mut file = identifier.clone();
    file.append("-config.yaml");
    join(&dir, file.as_str())
}

/// The folder whose files are the certificates of `namespace`: `root/namespace`.
pub fn folder_certs_dir(root: &String, namespace: &String) -> (r: String)
    ensures
        r@ == joined(root@, namespace@),
{
    join(root, namespace.as_str())
}

/// The file that holds the telemetry agent's configuration for `namespace`:
/// `root/namespace/otel-agent-config.yaml`.
pub fn folder_otel_path(root: &String, namespace: &String) -> (r: String)
    ensures
        r@ == joined(joined(root@, namespace@), "otel-agent-config.yaml"@),
{
    let dir = join(root, namespace.as_str());
    join(&dir, "otel-agent-config.yaml")
}

/// The address from which the configuration of sidecar `identifier` in
/// `namespace` is fetched: `base/namespace/identifier`.
pub fn http_config_url(base: &String, namespace: &String, identifier: &String) -> (r: String)
    ensures
        r@ == joined(joined(base@, namespace@), identifier@),
{
    let dir = join(base, namespace.as_str());
    join(&dir, identifier.as_str())
}

/// A map with the single entry `key -> content`: what a single-entry kind
/// yields when read from a file.
pub fn single_entry(key: &String, content: String) -> (r: StrMap)
    ensures
        r@ == seq![(key@, content@)],
{
    let mut r = StrMap::new();
    proof {
        lemma_inserted_into_empty(key@, content@);
    }
    r.insert(key.clone(), content);
    r
}

/// Whether an HTTP status reports success (the 2xx range).
pub open spec fn is_success_status(status: u16) -> bool {
    200 <= status <= 299
}

/// What the HTTP backend yields for the answer to its request at `url`: on
/// a success status, the body under the sidecar's own key; on any other
/// status, the content is unavailable at `url`.
pub fn http_config_fetched(url: String, identifier: &String, status: u16, body: String) -> (r: Fetched)
    ensures
        is_success_status(status) ==> r@ == FetchedView::Found(seq![(identifier@, body@)]),
        !is_success_status(status) ==> r@ == FetchedView::Unavailable(url@),
{
    if 200 <= status && status <= 299 {
        Fetched::Found(single_entry(identifier, body))
    } else {
        Fetched::Unavailable(url)
    }
}

/// The views of a folder listing: each file's name, and its content where
/// it could be read.
pub open spec fn listing_views(files: Seq<(String, Option<String>)>) -> Seq<(Seq<char>, Option<Seq<char>>)> {
    files.map_values(|f: (String, Option<String>)| (f.0@, opt_view(f.1)))
}

/// The files of a listing that could be read, with their content.
pub open spec fn readable(files: Seq<(Seq<char>, Option<Seq<char>>)>) -> Seq<(Seq<char>, Seq<char>)>
    decreases files.len(),
{
    if files.len() == 0 {
        Seq::empty()
    } else {
        let rest = readable(files.drop_last());
        match files.last().1 {
            Some(c) => rest.push((files.last().0, c)),
            None => rest,
        }
    }
}

/// The certificate set from a folder listing: each file that could be read,
/// under its own name, with the names in sorted order; a file that could
/// not be read is left out.
pub fn certs_bundle(files: Vec<(String, Option<String>)>) -> (r: StrMap)
    ensures
        r@ == entries_from_pairs(readable(listing_views(files@))),
        keys_sorted(r@),
        forall|k: Seq<char>| #[trigger] has_key(r@, k) <==> has_key(readable(listing_views(files@)), k),
        forall|i: int| 0 <= i < files@.len() && names_distinct(listing_views(files@)) && (#[trigger] files@[i]).1 is Some
            ==> lookup(r@, files@[i].0@) == Some(files@[i].1->Some_0@),
{
    let ghost lv = listing_views(files@);
    let mut readable_files: Vec<(String, String)> = Vec::new();
    let mut i: usize = 0;
    while i < files.len()
        invariant
            lv == listing_views(files@),
            i <= files@.len(),
            pair_views(readable_files@) == readable(lv.take(i as int)),
        decreases files@.len() - i,
    {
        let name = files[i].0.clone();
        match &files[i].1 {
            Some(content) => {
                readable_files.push((name, content.clone()));
            },
            None => {},
        }
        assert(lv.take(i as int + 1).drop_last() =~= lv.take(i as int));
        assert(pair_views(readable_files@) =~= readable(lv.take(i as int + 1)));
        i = i + 1;
    }
    assert(lv.take(lv.len() as int) =~= lv);
    let r = StrMap::from_pairs(readable_files);
    proof {
        let rd = readable(lv);
        lemma_entries_from_pairs(rd);
        lemma_readable(lv);
        assert forall|i: int|
            0 <= i < files@.len() && names_distinct(lv) && (#[trigger] files@[i]).1 is Some implies lookup(
                r@,
                files@[i].0@,
            ) == Some(files@[i].1->Some_0@) by {
            let n = files@[i].0@;
            let c = files@[i].1->Some_0@;
            assert(lv[i] == (n, Some(c)));
            assert(lv.contains((n, Some(c))));
            assert(rd.contains((n, c)));
            let j = choose|j: int| 0 <= j < rd.len() && rd[j] == (n, c);
            assert(rd[j] == (n, c));
        }
    }
    r
}

/// The certificate set depends on what the folder holds, not on the order
/// in which it is listed: two listings, each naming a file once, that hold
/// the same files with the same readable content give the same map.
pub proof fn lemma_listing_order_irrelevant(
    f1: Seq<(Seq<char>, Option<Seq<char>>)>,
    f2: Seq<(Seq<char>, Option<Seq<char>>)>,
)
    requires
        names_distinct(f1),
        names_distinct(f2),
        forall|f: (Seq<char>, Option<Seq<char>>)| #[trigger] f1.contains(f) <==> f2.contains(f),
    ensures
        entries_from_pairs(readable(f1)) == entries_from_pairs(readable(f2)),
{
    let r1 = readable(f1);
    let r2 = readable(f2);
    lemma_readable(f1);
    lemma_readable(f2);
    lemma_entries_from_pairs(r1);
    lemma_entries_from_pairs(r2);
    let e1 = entries_from_pairs(r1);
    let e2 = entries_from_pairs(r2);
    assert forall|k: Seq<char>| #[trigger] lookup(e1, k) == lookup(e2, k) by {
        if has_key(r1, k) {
            let j = choose|j: int| 0 <= j < r1.len() && r1[j].0 == k;
            let c = r1[j].1;
            assert(r1.contains((k, c)));
            assert(f2.contains((k, Some(c))));
            assert(r2.contains((k, c)));
            let j2 = choose|j2: int| 0 <= j2 < r2.len() && r2[j2] == (k, c);
            assert(r1[j] == (k, c));
            assert(r2[j2] == (k, c));
        } else if has_key(r2, k) {
            let j = choose|j: int| 0 <= j < r2.len() && r2[j].0 == k;
            let c = r2[j].1;
            assert(r2.contains((k, c)));
            assert(f1.contains((k, Some(c))));
            assert(r1.contains((k, c)));
            let j1 = choose|j1: int| 0 <= j1 < r1.len() && r1[j1] == (k, c);
            assert(r1[j1].0 == k);
        }
    }
    lemma_sorted_unique(e1, e2);
}

/// No name occurs twice in a listing.
pub open spec fn names_distinct(files: Seq<(Seq<char>, Option<Seq<char>>)>) -> bool {
    forall|i: int, j: int| 0 <= i < j < files.len() ==> files[i].0 != files[j].0
}

/// The readable part of a listing holds a name with its content exactly
/// where the listing holds that name with that content; names stay distinct.
proof fn lemma_readable(files: Seq<(Seq<char>, Option<Seq<char>>)>)
    ensures
        forall|n: Seq<char>, c: Seq<char>| #[trigger] readable(files).contains((n, c)) <==> files.contains((n, Some(c))),
        names_distinct(files) ==> forall|i: int, j: int| 0 <= i < j < readable(files).len() ==> readable(files)[i].0 != readable(files)[j].0,
    decreases files.len(),
{
    if files.len() > 0 {
        let t = files.drop_last();
        lemma_readable(t);
        let r = readable(files);
        let rt = readable(t);
        match files.last().1 {
            Some(c0) => assert(r == rt.push((files.last().0, c0))),
            None => assert(r == rt),
        }
        assert forall|n: Seq<char>, c: Seq<char>| #[trigger] r.contains((n, c)) <==> files.contains((n, Some(c))) by {
            if files.contains((n, Some(c))) {
                let i = choose|i: int| 0 <= i < files.len() && files[i] == (n, Some(c));
                if i < files.len() - 1 {
                    assert(t[i] == (n, Some(c)));
                    assert(t.contains((n, Some(c))));
                    assert(rt.contains((n, c)));
                    let j = choose|j: int| 0 <= j < rt.len() && rt[j] == (n, c);
                    assert(r[j] == (n, c));
                } else {
                    assert(r[r.len() - 1] == (n, c));
                }
            }
            if r.contains((n, c)) {
                let j = choose|j: int| 0 <= j < r.len() && r[j] == (n, c);
                if j < rt.len() {
                    assert(rt[j] == (n, c));
                    assert(rt.contains((n, c)));
                    assert(t.contains((n, Some(c))));
                    let i = choose|i: int| 0 <= i < t.len() && t[i] == (n, Some(c));
                    assert(files[i] == (n, Some(c)));
                } else {
                    assert(files[files.len() - 1] == (n, Some(c)));
                }
            }
        }
        if names_distinct(files) {
            assert(names_distinct(t));
            assert forall|i: int, j: int| 0 <= i < j < r.len() implies r[i].0 != r[j].0 by {
                if j == rt.len() {
                    let last = files.last();
                    assert(rt.contains((r[i].0, r[i].1)));
                    let k = choose|k: int| 0 <= k < t.len() && t[k] == (r[i].0, Some(r[i].1));
                    assert(files[k].0 != files[files.len() - 1].0);
                }
            }
        }
    }
}

} // verus!
