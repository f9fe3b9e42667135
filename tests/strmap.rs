use swir_operator::strmap::StrMap;

fn s(x: &str) -> String {
    x.to_string()
}

#[test]
fn insert_replaces_and_keeps_place() {
    let mut m = StrMap::new();
    m.insert(s("a"), s("1"));
    m.insert(s("b"), s("2"));
    m.insert(s("a"), s("3"));
    assert_eq!(m.len(), 2);
    assert_eq!(m.keys(), vec![s("a"), s("b")]);
    assert_eq!(m.get(&s("a")), Some(&s("3")));
    assert_eq!(m.get(&s("c")), None);
    assert_eq!(m.find(&s("b")), Some(1));
}

#[test]
fn from_pairs_later_wins() {
    let m = StrMap::from_pairs(vec![(s("k"), s("old")), (s("j"), s("x")), (s("k"), s("new"))]);
    assert_eq!(m.keys(), vec![s("j"), s("k")]);
    assert_eq!(m.get(&s("k")), Some(&s("new")));
    assert_eq!(m.clone(), m);
}

#[test]
fn keys_are_kept_in_code_point_order() {
    let mut m = StrMap::new();
    for k in ["b", "ab", "a", "B", "", "\u{e9}", "z"] {
        m.insert(s(k), s("v"));
    }
    assert_eq!(m.keys(), vec![s(""), s("B"), s("a"), s("ab"), s("b"), s("z"), s("\u{e9}")]);
    assert_eq!(m.find(&s("ab")), Some(3));
    assert_eq!(m.find(&s("c")), None);
}
