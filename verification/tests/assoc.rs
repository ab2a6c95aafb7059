use bentham::assoc::{AssocMap, Copied, StrSet};

#[test]
fn map_keeps_one_value_per_key() {
    let mut m: AssocMap<String, String> = AssocMap::new();
    assert_eq!(m.insert("a".into(), "1".into()), None);
    assert_eq!(m.insert("b".into(), "2".into()), None);
    assert_eq!(m.insert("a".into(), "3".into()), Some("1".to_string()));
    assert_eq!(m.len(), 2);
    assert_eq!(m.get(&"a".to_string()), Some(&"3".to_string()));
    assert_eq!(m.get(&"c".to_string()), None);
    assert!(m.contains_key(&"b".to_string()));
    let copy = m.copied();
    assert_eq!(m.remove(&"a".to_string()), Some("3".to_string()));
    assert_eq!(m.remove(&"a".to_string()), None);
    assert_eq!(m.len(), 1);
    assert_eq!((m.key_at(0).as_str(), m.value_at(0).as_str()), ("b", "2"));
    assert_eq!(copy.len(), 2);
}

#[test]
fn set_holds_each_member_once() {
    let mut s = StrSet::new();
    assert!(s.insert("a".into()));
    assert!(!s.insert("a".into()));
    assert!(s.contains(&"a".to_string()));
    assert_eq!(s.len(), 1);
    assert_eq!(s.item_at(0), "a");
    let copy = s.copied();
    assert!(s.remove(&"a".to_string()));
    assert!(!s.remove(&"a".to_string()));
    assert_eq!((s.len(), copy.len()), (0, 1));
}
