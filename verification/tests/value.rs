use cch24::value::{Entry, UnifiedValue};

fn tagged(v: UnifiedValue) -> UnifiedValue {
    UnifiedValue::Tagged(Box::new(v))
}

#[test]
fn lookups_through_tags_or_not() {
    let inner = UnifiedValue::Table(vec![
        Entry { key: None, value: UnifiedValue::Int(0) },
        Entry { key: Some("k".to_string()), value: UnifiedValue::Int(1) },
    ]);
    let t = tagged(inner);
    assert!(matches!(t.get("k"), Some(UnifiedValue::Int(1))));
    assert!(t.step("k").is_none());
    assert!(t.get_path(&["k"]).is_none());
    assert!(t.get_path(&[]).is_some());
    assert!(t.untag().step("k").is_some());
    assert!(t.get("missing").is_none());
}

#[test]
fn scalar_readings() {
    assert_eq!(tagged(UnifiedValue::Str("s".to_string())).as_str(), Some("s"));
    assert_eq!(UnifiedValue::Int(4294967295).as_u32(), Some(4294967295));
    assert_eq!(UnifiedValue::Int(4294967296).as_u32(), None);
    assert_eq!(UnifiedValue::Int(-1).as_u32(), None);
    assert_eq!(tagged(UnifiedValue::Int(3)).as_u32(), Some(3));
    assert!(tagged(UnifiedValue::Array(vec![])).as_array().is_none());
    assert_eq!(UnifiedValue::Array(vec![UnifiedValue::Other]).as_array().map(|a| a.len()), Some(1));
    assert_eq!(UnifiedValue::Other.as_str(), None);
}
