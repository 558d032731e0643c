use gdtf_parser::snap::Snap;

#[test]
fn test_valid() {
    assert_eq!(Snap::Yes, Snap::try_from("Yes").unwrap());
}

#[test]
fn test_valid_2() {
    assert_eq!(Snap::No, Snap::try_from("No").unwrap());
}

#[test]
fn test_invalid_2() {
    assert_eq!(Snap::No, Snap::try_from("something invalid").unwrap());
}

#[test]
fn test_invalid_3() {
    assert_eq!(Snap::No, Snap::try_from("").unwrap());
}
