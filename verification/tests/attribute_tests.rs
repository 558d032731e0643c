use gdtf_parser::attribute::Attribute;
use gdtf_parser::attribute_name::AttributeName;
use gdtf_parser::color_cie::ColorCIE;
use gdtf_parser::name::Name;
use gdtf_parser::physical_unit::PhysicalUnit;

#[test]
fn test_attribute_all() {
    let expected = Attribute {
        name: AttributeName::UserDefined(Name::new_unchecked("Sound")),
        pretty: "SoundP".to_string(),
        activation_group: Some("Gobo1".to_string()),
        feature: "Control.Control".to_string(),
        main_attribute: Some("Gobo1M".to_string()),
        physical_unit: PhysicalUnit::Angle,
        color: Some(ColorCIE { x: 312700, y: 329000, luminance: 100000000 }),
    };
    assert_eq!(
        expected,
        Attribute::from_xml(
            r#"<Attribute Color="0.312700,0.329000,100.000000" Feature="Control.Control" Name="Sound" PhysicalUnit="Angle" Pretty="SoundP" ActivationGroup="Gobo1"  MainAttribute="Gobo1M" />"#
        )
        .unwrap()
    );
}

#[test]
fn test_attribute_all_2() {
    let expected = Attribute {
        name: AttributeName::Effects_n_Adjust_m_(2, 4),
        pretty: "SoundP".to_string(),
        activation_group: Some("Gobo1".to_string()),
        feature: "Control.Control".to_string(),
        main_attribute: Some("Gobo1M".to_string()),
        physical_unit: PhysicalUnit::Angle,
        color: Some(ColorCIE { x: 312700, y: 329000, luminance: 100000000 }),
    };
    assert_eq!(
        expected,
        Attribute::from_xml(
            r#"<Attribute Color="0.312700,0.329000,100.000000" Feature="Control.Control" Name="Effects2Adjust4" PhysicalUnit="Angle" Pretty="SoundP" ActivationGroup="Gobo1"  MainAttribute="Gobo1M" />"#
        )
        .unwrap()
    );
}

#[test]
fn test_attribute_min() {
    let expected = Attribute {
        name: AttributeName::UserDefined(Name::new_unchecked("Sound")),
        pretty: "SoundP".to_string(),
        activation_group: None,
        feature: "Control.Control".to_string(),
        main_attribute: None,
        physical_unit: PhysicalUnit::Angle,
        color: None,
    };
    assert_eq!(
        expected,
        Attribute::from_xml(
            r#"<Attribute Feature="Control.Control" Name="Sound" PhysicalUnit="Angle" Pretty="SoundP"/>"#
        )
        .unwrap()
    );
}

#[test]
fn test_attribute_min_2() {
    let expected = Attribute {
        name: AttributeName::UserDefined(Name::new_unchecked("")),
        pretty: "".to_string(),
        activation_group: None,
        feature: "".to_string(),
        main_attribute: None,
        physical_unit: PhysicalUnit::NoUnit,
        color: None,
    };
    assert_eq!(
        expected,
        Attribute::from_xml(
            r#"<Attribute Feature="" Name="" MainAttribute="" ActivationGroup="" PhysicalUnit="" Pretty=""/>"#
        )
        .unwrap()
    );
}

#[test]
fn test_attribute_empty() {
    let expected = Attribute {
        name: AttributeName::UserDefined(Name::new_unchecked("")),
        pretty: "".to_string(),
        activation_group: None,
        feature: "".to_string(),
        main_attribute: None,
        physical_unit: PhysicalUnit::NoUnit,
        color: None,
    };
    assert_eq!(expected, Attribute::from_xml(r#"<Attribute/>"#).unwrap());
}

#[test]
fn test_faulty() {
    match Attribute::from_xml(r#"<ttribute"#) {
        Ok(_) => {
            panic!("test_faulty should return an error");
        }
        Err(_) => {}
    }
}
