use gdtf_parser::activation_group::ActivationGroup;
use gdtf_parser::name::Name;

#[test]
fn test_activation_group() {
    let expected = ActivationGroup { name: "PanTilt".try_into().unwrap() };
    assert_eq!(expected, ActivationGroup::from_xml(r#"<ActivationGroup Name="PanTilt"/>"#).unwrap());
}

#[test]
fn test_activation_group_min() {
    let expected = ActivationGroup { name: "".try_into().unwrap() };
    assert_eq!(expected, ActivationGroup::from_xml(r#"<ActivationGroup Name=""/>"#).unwrap());
}

#[test]
fn test_activation_group_empty() {
    let expected = ActivationGroup { name: "".try_into().unwrap() };
    assert_eq!(expected, ActivationGroup::from_xml(r#"<ActivationGroup/>"#).unwrap());
}

#[test]
fn test_activation_group_faulty() {
    match ActivationGroup::from_xml(r#"<ActivationGrou Name="Some Name"#) {
        Ok(_) => {
            panic!("test_activation-group_faulty should return an error");
        }
        Err(_) => {}
    }
}

#[test]
fn mod_test_activation_group() {
    let expected = ActivationGroup { name: Name::new("PanTilt").unwrap() };
    assert_eq!(expected, ActivationGroup::from_xml(r#"<ActivationGroup Name="PanTilt"/>"#).unwrap());
}

#[test]
fn mod_test_activation_group_min() {
    let expected = ActivationGroup { name: Name::new("").unwrap() };
    assert_eq!(expected, ActivationGroup::from_xml(r#"<ActivationGroup Name=""/>"#).unwrap());
}

#[test]
fn mod_test_activation_group_empty() {
    let expected = ActivationGroup { name: Name::new("").unwrap() };
    assert_eq!(expected, ActivationGroup::from_xml(r#"<ActivationGroup/>"#).unwrap());
}

#[test]
fn mod_test_activation_group_faulty() {
    match ActivationGroup::from_xml(r#"<ActivationGrou Name="Some Name"#) {
        Ok(_) => {
            panic!("test_activation-group_faulty should return an error");
        }
        Err(_) => {}
    }
}
