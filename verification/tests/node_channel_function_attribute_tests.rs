use gdtf_parser::name::Name;
use gdtf_parser::node_channel_function_attribute::NodeChannelFunctionAttribute as T;

#[test]
fn node_channel_function_attribute_test_new_from_str() {
    assert_eq!(T::Node(vec![Name::new("test").unwrap()]), T::new_from_str("test").unwrap());
    assert_eq!(
        T::Node(vec![Name::new("test").unwrap(), Name::new("test2").unwrap()]),
        T::new_from_str("test.test2").unwrap()
    );
    assert_eq!(T::NoFeature, T::new_from_str("").unwrap());
    assert!(T::new_from_str("asdf{").is_err());
    assert!(T::new_from_str("Test.asdf{").is_err());
    assert!(T::new_from_str("asdf{.Test").is_err());
}

#[test]
fn node_channel_function_attribute_test_new_from_str_unchecked() {
    assert_eq!(T::Node(vec![Name::new("test").unwrap()]), T::new_from_str_unchecked("test"));
    assert_eq!(
        T::Node(vec![Name::new("test").unwrap(), Name::new("test2").unwrap()]),
        T::new_from_str_unchecked("test.test2")
    );
    assert_eq!(T::NoFeature, T::new_from_str_unchecked(""));
    assert_eq!(T::Node(vec![Name::new_unchecked("asdf{")]), T::new_from_str_unchecked("asdf{"));
    assert_eq!(
        T::Node(vec![Name::new("Test").unwrap(), Name::new_unchecked("asdf{")]),
        T::new_from_str_unchecked("Test.asdf{")
    );
    assert_eq!(
        T::Node(vec![Name::new_unchecked("asdf{"), Name::new("Test").unwrap()]),
        T::new_from_str_unchecked("asdf{.Test")
    );
}

#[test]
fn node_channel_function_attribute_test_new_from_strs_unchecked() {
    assert_eq!(T::Node(vec![Name::new("test").unwrap()]), T::new_from_strs_unchecked(vec!["test"]));
    assert_eq!(
        T::Node(vec![Name::new("test").unwrap(), Name::new("test2").unwrap()]),
        T::new_from_strs_unchecked(vec!["test", "test2"])
    );
    assert_eq!(T::Node(vec![Name::new("").unwrap()]), T::new_from_strs_unchecked(vec![""]));
    assert_eq!(
        T::Node(vec![Name::new_unchecked("asdf{")]),
        T::new_from_strs_unchecked(vec!["asdf{"])
    );
    assert_eq!(
        T::Node(vec![Name::new("Test").unwrap(), Name::new_unchecked("asdf{")]),
        T::new_from_strs_unchecked(vec!["Test", "asdf{"])
    );
    assert_eq!(
        T::Node(vec![Name::new_unchecked("asdf{"), Name::new("Test").unwrap()]),
        T::new_from_strs_unchecked(vec!["asdf{", "Test"])
    );
}

#[test]
fn node_channel_function_attribute_test_try_from_str() {
    assert_eq!(T::NoFeature, "".try_into().unwrap());
    assert_eq!(T::Node(vec![Name::new("One").unwrap()]), "One".try_into().unwrap());
    assert_eq!(
        T::Node(vec![Name::new("One").unwrap(), Name::new("Two").unwrap()]),
        "One.Two".try_into().unwrap()
    );
    assert!(T::try_from("Some{Invalid").is_err());
}

#[test]
fn node_channel_function_attribute_test_from_attr_owned() {
    assert_eq!(T::NoFeature, T::new_from_str_unchecked(""));
    assert_eq!(T::Node(vec![Name::new("One").unwrap()]), T::new_from_str_unchecked("One"));
    assert_eq!(
        T::Node(vec![Name::new("One").unwrap(), Name::new("Two").unwrap()]),
        T::new_from_str_unchecked("One.Two")
    );
    assert_eq!(
        T::Node(vec![Name::new_unchecked("Some{Invalid"), Name::new("Two").unwrap()]),
        T::new_from_str_unchecked("Some{Invalid.Two")
    );
    assert_eq!(
        T::Node(vec![Name::new_unchecked("Some{Invalid"), Name::new_unchecked("T{wo")]),
        T::new_from_str_unchecked("Some{Invalid.T{wo")
    );
}

#[test]
fn node_channel_function_attribute_test_from_attr_borrowed() {
    assert_eq!(T::NoFeature, T::new_from_str_unchecked(""));
    assert_eq!(T::Node(vec![Name::new("One").unwrap()]), T::new_from_str_unchecked("One"));
    assert_eq!(
        T::Node(vec![Name::new("One").unwrap(), Name::new("Two").unwrap()]),
        T::new_from_str_unchecked("One.Two")
    );
    assert_eq!(
        T::Node(vec![Name::new_unchecked("Some{Invalid"), Name::new("Two").unwrap()]),
        T::new_from_str_unchecked("Some{Invalid.Two")
    );
    assert_eq!(
        T::Node(vec![Name::new_unchecked("Some{Invalid"), Name::new_unchecked("T{wo")]),
        T::new_from_str_unchecked("Some{Invalid.T{wo")
    );
}

#[test]
fn test_no_feature() {
    assert_eq!(T::NoFeature, T::no_feature());
}

#[test]
fn node_channel_function_attribute_test_default() {
    assert_eq!(T::NoFeature, Default::default());
}
