use gdtf_parser::name::Name;
use gdtf_parser::node::Node;
use gdtf_parser::node_channel_function_filter::NodeChannelFunctionFilter;

#[test]
fn node_channel_function_filter_test_from_attr_borrowed() {
    assert!(NodeChannelFunctionFilter(None)
        .is_eq_including_none(&NodeChannelFunctionFilter::new_from_str_unchecked("")));
    assert_eq!(
        NodeChannelFunctionFilter(Some(Node(vec![Name::new("One").unwrap()]))),
        NodeChannelFunctionFilter::new_from_str_unchecked("One")
    );
    assert_eq!(
        NodeChannelFunctionFilter(Some(Node(vec![
            Name::new("One").unwrap(),
            Name::new("Two").unwrap()
        ]))),
        NodeChannelFunctionFilter::new_from_str_unchecked("One.Two")
    );
    assert_eq!(
        NodeChannelFunctionFilter(Some(Node(vec![
            Name::new_unchecked("Some{Invalid"),
            Name::new("Two").unwrap()
        ]))),
        NodeChannelFunctionFilter::new_from_str_unchecked("Some{Invalid.Two")
    );
    assert_eq!(
        NodeChannelFunctionFilter(Some(Node(vec![
            Name::new_unchecked("Some{Invalid"),
            Name::new_unchecked("T{wo")
        ]))),
        NodeChannelFunctionFilter::new_from_str_unchecked("Some{Invalid.T{wo")
    );
}

#[test]
fn node_channel_function_filter_test_from_attr_owned() {
    assert!(NodeChannelFunctionFilter(None)
        .is_eq_including_none(&NodeChannelFunctionFilter::new_from_str_unchecked("")));
    assert_eq!(
        NodeChannelFunctionFilter(Some(Node(vec![Name::new("One").unwrap()]))),
        NodeChannelFunctionFilter::new_from_str_unchecked("One")
    );
    assert_eq!(
        NodeChannelFunctionFilter(Some(Node(vec![
            Name::new("One").unwrap(),
            Name::new("Two").unwrap()
        ]))),
        NodeChannelFunctionFilter::new_from_str_unchecked("One.Two")
    );
    assert_eq!(
        NodeChannelFunctionFilter(Some(Node(vec![
            Name::new_unchecked("Some{Invalid"),
            Name::new("Two").unwrap()
        ]))),
        NodeChannelFunctionFilter::new_from_str_unchecked("Some{Invalid.Two")
    );
    assert_eq!(
        NodeChannelFunctionFilter(Some(Node(vec![
            Name::new_unchecked("Some{Invalid"),
            Name::new_unchecked("T{wo")
        ]))),
        NodeChannelFunctionFilter::new_from_str_unchecked("Some{Invalid.T{wo")
    );
}

#[test]
fn node_channel_function_filter_test_try_from_str() {
    let empty: NodeChannelFunctionFilter = "".try_into().unwrap();
    assert!(NodeChannelFunctionFilter(None).is_eq_including_none(&empty));
    assert_eq!(
        NodeChannelFunctionFilter(Some(Node(vec![Name::new("One").unwrap()]))),
        "One".try_into().unwrap()
    );
    assert_eq!(
        NodeChannelFunctionFilter(Some(Node(vec![
            Name::new("One").unwrap(),
            Name::new("Two").unwrap()
        ]))),
        "One.Two".try_into().unwrap()
    );
    assert!(NodeChannelFunctionFilter::try_from("Some{Invalid").is_err());
}

#[test]
fn node_channel_function_filter_test_partial_eq() {
    assert_ne!(NodeChannelFunctionFilter(None), NodeChannelFunctionFilter(None));
    assert_ne!(NodeChannelFunctionFilter(None), NodeChannelFunctionFilter(Some(Node(vec![]))));
    assert_ne!(NodeChannelFunctionFilter(Some(Node(vec![]))), NodeChannelFunctionFilter(None));
    assert_eq!(
        NodeChannelFunctionFilter(Some(Node(vec![]))),
        NodeChannelFunctionFilter(Some(Node(vec![])))
    );
    assert_eq!(
        NodeChannelFunctionFilter(Some(Node(vec![Name::new("One").unwrap()]))),
        NodeChannelFunctionFilter(Some(Node(vec![Name::new("One").unwrap()])))
    );
    assert_eq!(
        NodeChannelFunctionFilter(Some(Node(vec![
            Name::new("One").unwrap(),
            Name::new("Two").unwrap()
        ]))),
        NodeChannelFunctionFilter(Some(Node(vec![
            Name::new("One").unwrap(),
            Name::new("Two").unwrap()
        ])))
    );
    assert_ne!(
        NodeChannelFunctionFilter(Some(Node(vec![
            Name::new("One").unwrap(),
            Name::new("Two").unwrap()
        ]))),
        NodeChannelFunctionFilter(Some(Node(vec![Name::new("One").unwrap()])))
    );
    assert_ne!(
        NodeChannelFunctionFilter(Some(Node(vec![
            Name::new("Two").unwrap(),
            Name::new("One").unwrap()
        ]))),
        NodeChannelFunctionFilter(Some(Node(vec![
            Name::new("One").unwrap(),
            Name::new("Two").unwrap()
        ])))
    );
}

#[test]
fn node_channel_function_filter_test_default() {
    let d: NodeChannelFunctionFilter = Default::default();
    assert!(NodeChannelFunctionFilter(None).is_eq_including_none(&d));
}

#[test]
fn test_display() {
    assert_eq!(
        NodeChannelFunctionFilter(Some(Node(vec![
            Name::new("One2").unwrap(),
            Name::new("Two").unwrap()
        ])))
        .text(),
        "One2.Two"
    );
    assert_eq!(
        NodeChannelFunctionFilter(Some(Node(vec![Name::new("One2").unwrap()]))).text(),
        "One2"
    );
    assert_eq!(NodeChannelFunctionFilter(Some(Node(vec![Name::new("").unwrap()]))).text(), "");
    assert_eq!(NodeChannelFunctionFilter(None).text(), "");
}
