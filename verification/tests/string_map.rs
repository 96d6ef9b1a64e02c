use typesafe_jev_sdk::string_map::StringMap;

fn s(text: &str) -> String {
    text.to_string()
}

#[test]
fn insert_then_get() {
    let mut m: StringMap<String> = StringMap::new();
    assert!(m.is_empty());
    m.insert(s("k"), s("v1"));
    m.insert(s("j"), s("w"));
    m.insert(s("k"), s("v2"));
    assert_eq!(m.len(), 2);
    assert_eq!(m.get(&s("k")).unwrap(), "v2");
    assert_eq!(m.get(&s("j")).unwrap(), "w");
    assert!(m.get(&s("x")).is_none());
    assert!(m.contains_key(&s("j")));
    assert!(!m.contains_key(&s("x")));
}

#[test]
fn entries_round_trip() {
    let m = StringMap::from_pairs(vec![(s("a"), s("1")), (s("b"), s("2")), (s("a"), s("3"))]);
    let mut entries = m.pairs().to_vec();
    entries.sort();
    assert_eq!(entries, vec![(s("a"), s("3")), (s("b"), s("2"))]);
    let again = StringMap::from_pairs(entries);
    assert_eq!(again.len(), 2);
    assert_eq!(again.get(&s("a")).unwrap(), "3");
}
