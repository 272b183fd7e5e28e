use moly_kit::str_map::StrMap;

#[test]
fn insert_get_replace_remove() {
    let mut m: StrMap<u32> = StrMap::new();
    assert_eq!(m.get("a"), None);
    m.insert("a".into(), 1);
    m.insert("b".into(), 2);
    assert_eq!(m.get("a"), Some(&1));
    m.insert("a".into(), 3);
    assert_eq!(m.get("a"), Some(&3));
    assert_eq!(m.entries().len(), 2);
    assert_eq!(m.remove("a"), Some(3));
    assert_eq!(m.remove("a"), None);
    assert_eq!(m.get("b"), Some(&2));
    assert_eq!(m.entries().len(), 1);
}
