use ibmcloud_mcp_server::args::{ArgMap, ArgValue};

#[test]
fn reads_each_kind() {
    let mut m = ArgMap::new();
    m.insert("s".to_string(), ArgValue::Str("v".to_string()));
    m.insert("b".to_string(), ArgValue::Bool(true));
    m.insert("n".to_string(), ArgValue::UInt(42));
    m.insert("o".to_string(), ArgValue::Other);
    assert_eq!(m.str_arg("s"), Some("v"));
    assert_eq!(m.str_arg("b"), None);
    assert_eq!(m.str_arg("missing"), None);
    assert!(m.bool_arg("b"));
    assert!(!m.bool_arg("s"));
    assert!(!m.bool_arg("missing"));
    assert_eq!(m.u64_arg("n"), Some(42));
    assert_eq!(m.u64_arg("o"), None);
    assert_eq!(m.str_arg("o"), None);
}

#[test]
fn later_binding_wins() {
    let mut m = ArgMap::new();
    m.insert("k".to_string(), ArgValue::Str("first".to_string()));
    m.insert("k".to_string(), ArgValue::Bool(true));
    assert_eq!(m.str_arg("k"), None);
    assert!(m.bool_arg("k"));
    m.insert("k".to_string(), ArgValue::Str("third".to_string()));
    assert_eq!(m.str_arg("k"), Some("third"));
    assert!(!m.bool_arg("k"));
}

#[test]
fn read_after_insert_leaves_other_keys() {
    let mut m = ArgMap::new();
    m.insert("a".to_string(), ArgValue::Str("1".to_string()));
    m.insert("b".to_string(), ArgValue::Str("2".to_string()));
    assert_eq!(m.str_arg("a"), Some("1"));
    assert_eq!(m.str_arg("b"), Some("2"));
    let f = ArgValue::Bool(false);
    m.insert("c".to_string(), f);
    assert!(!m.bool_arg("c"));
    assert_eq!(m.str_arg("a"), Some("1"));
}
