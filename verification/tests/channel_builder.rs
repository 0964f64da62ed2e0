use steady_state::channel_builder::short_type_name;

#[test]
fn short_type_names() {
    assert_eq!(short_type_name("core::primitive::u64"), "u64");
    assert_eq!(short_type_name("u64"), "u64");
    assert_eq!(short_type_name("a::b::"), "");
    assert_eq!(short_type_name("a:::b"), ":b");
    assert_eq!(short_type_name(""), "");
    assert_eq!(short_type_name("crate::TestType"), "TestType");
}
