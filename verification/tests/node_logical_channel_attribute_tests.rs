use gdtf_parser::attribute_name::AttributeName;
use gdtf_parser::node_logical_channel_attribute::NodeLogicalChannelAttribute as T;

#[test]
fn test_partial_eq_allow_empty() {
    assert!(T::new_from_str("").unwrap().is_eq_allow_empty(&T::new_from_str("").unwrap(), true));
    assert!(T(Some(vec![])).is_eq_allow_empty(&T(Some(vec![])), true));
    assert!(T::new_from_str("test")
        .unwrap()
        .is_eq_allow_empty(&T::new_from_str("test").unwrap(), true));
    assert!(T::new_from_strs(vec!["some", "test"])
        .unwrap()
        .is_eq_allow_empty(&T::new_from_strs(vec!["some", "test"]).unwrap(), true));
    assert!(T::new_from_strs(vec!["", "test"])
        .unwrap()
        .is_eq_allow_empty(&T::new_from_strs(vec!["", "test"]).unwrap(), true));
    assert!(T::new_from_strs(vec!["some", ""])
        .unwrap()
        .is_eq_allow_empty(&T::new_from_strs(vec!["some", ""]).unwrap(), true));

    assert!(!T::new_from_str("")
        .unwrap()
        .is_eq_allow_empty(&T::new_from_str("test").unwrap(), false));
    assert!(!T::new_from_str("some")
        .unwrap()
        .is_eq_allow_empty(&T::new_from_str("test").unwrap(), false));
    assert!(!T::new_from_str("test")
        .unwrap()
        .is_eq_allow_empty(&T::new_from_str("").unwrap(), false));
    assert!(!T(Some(vec![])).is_eq_allow_empty(&T::new_from_str("").unwrap(), false));
    assert!(!T::new_from_str("").unwrap().is_eq_allow_empty(&T(Some(vec![])), false));
}

#[test]
fn test_new_from_strs() {
    assert!(T(Some(vec![AttributeName::new("test").unwrap()]))
        .is_eq_allow_empty(&T::new_from_strs(vec!["test"]).unwrap(), true));
    assert!(T(Some(vec![
        AttributeName::new("test").unwrap(),
        AttributeName::new("other").unwrap()
    ]))
    .is_eq_allow_empty(&T::new_from_strs(vec!["test", "other"]).unwrap(), true));
    assert!(T(Some(vec![AttributeName::new("").unwrap()]))
        .is_eq_allow_empty(&T::new_from_strs(vec![""]).unwrap(), true));
    assert!(T(Some(vec![])).is_eq_allow_empty(&T::new_from_strs(vec![]).unwrap(), true));
    assert!(T::new_from_strs(vec!["asdf{"]).is_err());
    assert!(T::new_from_strs(vec!["test", "asdf{"]).is_err());
}

#[test]
fn node_logical_channel_attribute_test_new_from_str() {
    assert!(T(Some(vec![AttributeName::new("test").unwrap()]))
        .is_eq_allow_empty(&T::new_from_str("test").unwrap(), true));
    assert!(T(None).is_eq_allow_empty(&T::new_from_str("").unwrap(), true));
    assert!(T::new_from_str("asdf{").is_err());
}

#[test]
fn node_logical_channel_attribute_test_new_from_strs_unchecked() {
    assert!(T(Some(vec![AttributeName::new("test").unwrap()]))
        .is_eq_allow_empty(&T::new_from_strs_unchecked(vec!["test"]), true));
    assert!(T(Some(vec![
        AttributeName::new("test").unwrap(),
        AttributeName::new("other").unwrap()
    ]))
    .is_eq_allow_empty(&T::new_from_strs_unchecked(vec!["test", "other"]), true));
    assert!(T(Some(vec![AttributeName::new("").unwrap()]))
        .is_eq_allow_empty(&T::new_from_strs_unchecked(vec![""]), true));
    assert!(T(Some(vec![])).is_eq_allow_empty(&T::new_from_strs_unchecked(vec![]), true));
    assert!(T(Some(vec![AttributeName::new_unchecked("asdf{")]))
        .is_eq_allow_empty(&T::new_from_strs_unchecked(vec!["asdf{"]), true));
    assert!(T(Some(vec![
        AttributeName::new("test").unwrap(),
        AttributeName::new_unchecked("asdf{")
    ]))
    .is_eq_allow_empty(&T::new_from_strs_unchecked(vec!["test", "asdf{"]), true));
}

#[test]
fn node_logical_channel_attribute_test_new_from_str_unchecked() {
    assert!(T(Some(vec![AttributeName::new("test").unwrap()]))
        .is_eq_allow_empty(&T::new_from_str_unchecked("test"), true));
    assert!(T(None).is_eq_allow_empty(&T::new_from_str_unchecked(""), true));
    assert!(T(Some(vec![AttributeName::new_unchecked("asdf{")]))
        .is_eq_allow_empty(&T::new_from_str_unchecked("asdf{"), true));
}

#[test]
fn test_none() {
    assert!(T(None).is_eq_allow_empty(&T::none(), true));
}

#[test]
fn node_logical_channel_attribute_test_from_attr_borrowed() {
    assert!(T(None).is_eq_allow_empty(&T::new_from_str_unchecked(""), true));
    assert!(T(Some(vec![AttributeName::new("One").unwrap()]))
        .is_eq_allow_empty(&T::new_from_str_unchecked("One"), true));
    assert!(T(Some(vec![
        AttributeName::new("One").unwrap(),
        AttributeName::new("Two").unwrap()
    ]))
    .is_eq_allow_empty(&T::new_from_str_unchecked("One.Two"), true));
    assert!(T(Some(vec![
        AttributeName::new_unchecked("Some{Invalid"),
        AttributeName::new("Two").unwrap()
    ]))
    .is_eq_allow_empty(&T::new_from_str_unchecked("Some{Invalid.Two"), true));
    assert!(T(Some(vec![
        AttributeName::new_unchecked("Some{Invalid"),
        AttributeName::new_unchecked("T{wo")
    ]))
    .is_eq_allow_empty(&T::new_from_str_unchecked("Some{Invalid.T{wo"), true));
}

#[test]
fn node_logical_channel_attribute_test_from_attr_owned() {
    assert!(T(None).is_eq_allow_empty(&T::new_from_str_unchecked(""), true));
    assert!(T(Some(vec![AttributeName::new("One").unwrap()]))
        .is_eq_allow_empty(&T::new_from_str_unchecked("One"), true));
    assert!(T(Some(vec![
        AttributeName::new("One").unwrap(),
        AttributeName::new("Two").unwrap()
    ]))
    .is_eq_allow_empty(&T::new_from_str_unchecked("One.Two"), true));
    assert!(T(Some(vec![
        AttributeName::new_unchecked("Some{Invalid"),
        AttributeName::new("Two").unwrap()
    ]))
    .is_eq_allow_empty(&T::new_from_str_unchecked("Some{Invalid.Two"), true));
    assert!(T(Some(vec![
        AttributeName::new_unchecked("Some{Invalid"),
        AttributeName::new_unchecked("T{wo")
    ]))
    .is_eq_allow_empty(&T::new_from_str_unchecked("Some{Invalid.T{wo"), true));
}

#[test]
fn node_logical_channel_attribute_test_try_from_str() {
    let empty: T = "".try_into().unwrap();
    assert!(T(None).is_eq_allow_empty(&empty, true));
    let one: T = "One".try_into().unwrap();
    assert!(T(Some(vec![AttributeName::new("One").unwrap()])).is_eq_allow_empty(&one, true));
    let two: T = "One.Two".try_into().unwrap();
    assert!(T(Some(vec![
        AttributeName::new("One").unwrap(),
        AttributeName::new("Two").unwrap()
    ]))
    .is_eq_allow_empty(&two, true));
    assert!(T::try_from("Some{Invalid").is_err());
}

#[test]
fn node_logical_channel_attribute_test_partial_eq() {
    assert_ne!(T(None), T(None));
    assert_ne!(T(None), T(Some(vec![])));
    assert_ne!(T(Some(vec![])), T(None));
    assert_eq!(T(Some(vec![])), T(Some(vec![])));
    assert_eq!(
        T(Some(vec![AttributeName::new("One").unwrap()])),
        T(Some(vec![AttributeName::new("One").unwrap()]))
    );
    assert_eq!(
        T(Some(vec![AttributeName::new("One").unwrap(), AttributeName::new("Two").unwrap()])),
        T(Some(vec![AttributeName::new("One").unwrap(), AttributeName::new("Two").unwrap()]))
    );
    assert_ne!(
        T(Some(vec![AttributeName::new("One").unwrap(), AttributeName::new("Two").unwrap()])),
        T(Some(vec![AttributeName::new("One").unwrap()]))
    );
    assert_ne!(
        T(Some(vec![AttributeName::new("Two").unwrap(), AttributeName::new("One").unwrap()])),
        T(Some(vec![AttributeName::new("One").unwrap(), AttributeName::new("Two").unwrap()]))
    );
}

#[test]
fn node_logical_channel_attribute_test_default() {
    let d: T = Default::default();
    assert!(T(None).is_eq_allow_empty(&d, true));
}
