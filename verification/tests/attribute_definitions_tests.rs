use gdtf_parser::attribute::Attribute;
use gdtf_parser::attribute_definitions::AttributeDefinitions;
use gdtf_parser::attribute_name::AttributeName;
use gdtf_parser::feature_group::{Feature, FeatureGroup};
use gdtf_parser::keyed_list::KeyedList;
use gdtf_parser::name::Name;
use gdtf_parser::physical_unit::PhysicalUnit;

fn feature_groups_testdata() -> KeyedList<FeatureGroup> {
    let mut m = KeyedList::new();
    m.insert(
        Name::new("Position").unwrap(),
        FeatureGroup {
            name: Name::new("Position").unwrap(),
            pretty: "PositionP".to_string(),
            features: vec![Feature { name: Name::new("PanTilt").unwrap() }],
        },
    );
    m
}

fn feature_groups_xml() -> &'static str {
    r#"<FeatureGroup Name="Position" Pretty="PositionP"><Feature Name="PanTilt"/></FeatureGroup>"#
}

fn attributes_testdata() -> KeyedList<Attribute> {
    let mut m = KeyedList::new();
    m.insert(
        Name::new("Pan").unwrap(),
        Attribute {
            name: AttributeName::UserDefined(Name::new_unchecked("Pan")),
            pretty: "P".to_string(),
            activation_group: Some("PanTilt".to_string()),
            feature: "Position.PanTilt".to_string(),
            main_attribute: None,
            physical_unit: PhysicalUnit::Angle,
            color: None,
        },
    );
    m.insert(
        Name::new("Tilt").unwrap(),
        Attribute {
            name: AttributeName::UserDefined(Name::new_unchecked("Tilt")),
            pretty: "T".to_string(),
            activation_group: Some("PanTilt".to_string()),
            feature: "Position.PanTilt".to_string(),
            main_attribute: None,
            physical_unit: PhysicalUnit::Angle,
            color: None,
        },
    );
    m
}

fn attributes_xml() -> &'static str {
    r#"<Attribute ActivationGroup="PanTilt" Feature="Position.PanTilt" Name="Pan" PhysicalUnit="Angle" Pretty="P"/><Attribute ActivationGroup="PanTilt" Feature="Position.PanTilt" Name="Tilt" PhysicalUnit="Angle" Pretty="T"/>"#
}

fn activation_groups_testdata() -> Vec<Name> {
    vec![Name::new("PanTilt").unwrap(), Name::new("ColorRGB").unwrap()]
}

fn activation_groups_xml() -> &'static str {
    r#"<ActivationGroup Name="PanTilt"/><ActivationGroup Name="ColorRGB"/>"#
}

fn attribute_definitions_testdata(i: u8) -> AttributeDefinitions {
    match i {
        1 => AttributeDefinitions {
            feature_groups: feature_groups_testdata(),
            attributes: attributes_testdata(),
            activation_groups: activation_groups_testdata(),
        },
        2 => AttributeDefinitions {
            feature_groups: KeyedList::new(),
            attributes: attributes_testdata(),
            activation_groups: activation_groups_testdata(),
        },
        3 => AttributeDefinitions {
            feature_groups: feature_groups_testdata(),
            attributes: KeyedList::new(),
            activation_groups: activation_groups_testdata(),
        },
        4 => AttributeDefinitions {
            feature_groups: feature_groups_testdata(),
            attributes: attributes_testdata(),
            activation_groups: vec![],
        },
        _ => AttributeDefinitions {
            feature_groups: KeyedList::new(),
            attributes: KeyedList::new(),
            activation_groups: vec![],
        },
    }
}

fn attribute_definitions_testdata_xml(i: u8) -> String {
    match i {
        1 => format!(
            r#"
            <AttributeDefinitions>
                <FeatureGroups>{}</FeatureGroups>
                <Attributes>{}</Attributes>
                <ActivationGroups>{}</ActivationGroups>
            </AttributeDefinitions>
            "#,
            feature_groups_xml(),
            attributes_xml(),
            activation_groups_xml()
        ),
        2 => format!(
            r#"
            <AttributeDefinitions>
                <FeatureGroups></FeatureGroups>
                <Attributes>{}</Attributes>
                     <ActivationGroups>{}</ActivationGroups>
            </AttributeDefinitions>
            "#,
            attributes_xml(),
            activation_groups_xml()
        ),
        3 => format!(
            r#"
            <AttributeDefinitions>
                <FeatureGroups>{}</FeatureGroups>
                <Attributes></Attributes>
                     <ActivationGroups>{}</ActivationGroups>
            </AttributeDefinitions>
            "#,
            feature_groups_xml(),
            activation_groups_xml()
        ),
        4 => format!(
            r#"
            <AttributeDefinitions>
                <FeatureGroups>{}</FeatureGroups>
                <Attributes>{}</Attributes>
                <ActivationGroups></ActivationGroups>
            </AttributeDefinitions>
            "#,
            feature_groups_xml(),
            attributes_xml()
        ),
        _ => format!(
            r#"
            <AttributeDefinitions>
                <FeatureGroups></FeatureGroups>
                <Attributes></Attributes>
                <ActivationGroups></ActivationGroups>
            </AttributeDefinitions>
            "#
        ),
    }
}

#[test]
fn test_deparse_single() {
    assert_eq!(
        attribute_definitions_testdata(1),
        AttributeDefinitions::from_xml(&attribute_definitions_testdata_xml(1)).unwrap()
    );
    assert_eq!(
        attribute_definitions_testdata(2),
        AttributeDefinitions::from_xml(&attribute_definitions_testdata_xml(2)).unwrap()
    );
    assert_eq!(
        attribute_definitions_testdata(3),
        AttributeDefinitions::from_xml(&attribute_definitions_testdata_xml(3)).unwrap()
    );
    assert_eq!(
        attribute_definitions_testdata(4),
        AttributeDefinitions::from_xml(&attribute_definitions_testdata_xml(4)).unwrap()
    );
    assert_eq!(
        attribute_definitions_testdata(5),
        AttributeDefinitions::from_xml(&attribute_definitions_testdata_xml(5)).unwrap()
    );
}
