use sulis::text::{i64_to_string, numbered, numbered_with_suffix, u64_to_string, TextArgs};

#[test]
fn decimal_text() {
    assert_eq!(u64_to_string(0), "0");
    assert_eq!(u64_to_string(907), "907");
    assert_eq!(u64_to_string(u64::MAX), u64::MAX.to_string());
    assert_eq!(i64_to_string(-42), "-42");
    assert_eq!(i64_to_string(i64::MIN), i64::MIN.to_string());
    assert_eq!(numbered("armor_", 12), "armor_12");
    assert_eq!(numbered_with_suffix("group_", 3, "_uses"), "group_3_uses");
}

#[test]
fn text_args_later_value_wins() {
    let mut t = TextArgs::new();
    t.add_text_arg("a", "1");
    t.add_text_arg("b", "2");
    t.add_text_arg("a", "3");
    assert_eq!(t.get("a"), Some("3".to_string()));
    assert_eq!(t.get("b"), Some("2".to_string()));
    assert_eq!(t.get("c"), None);
    assert_eq!(t.len(), 3);
}
