//! Scenario and boundary tests for the validators, the walker and the
//! collection builders.

use gdtf_parser::activation_group::ActivationGroup;
use gdtf_parser::attribute::Attribute;
use gdtf_parser::attribute_definitions::AttributeDefinitions;
use gdtf_parser::xml_event::{XmlAttr, XmlEvent};
use gdtf_parser::color_cie::ColorCIE;
use gdtf_parser::error::GdtfError;
use gdtf_parser::fixture_type::FixtureType;
use gdtf_parser::guid::GUID;
use gdtf_parser::name::{Name, MAX_NAME_LENGTH};
use gdtf_parser::node_channel_function_attribute::NodeChannelFunctionAttribute;
use gdtf_parser::testdata;

#[test]
fn valid_names_round_trip_unchanged() {
    for s in ["", "PanTilt", "Mode 1 12 DMX", "ACME AE-610 BEAM", "a_b-c 9"] {
        let n = Name::new(s).unwrap();
        assert_eq!(n.as_str(), s);
        assert_eq!(n, Name::new_unchecked(s));
    }
}

#[test]
fn name_length_bound_is_enforced() {
    let at_bound = "x".repeat(MAX_NAME_LENGTH);
    assert!(Name::new(&at_bound).is_ok());
    let over_bound = "x".repeat(MAX_NAME_LENGTH + 1);
    assert!(matches!(Name::new(&over_bound), Err(GdtfError::InvalidIdentifier(_))));
}

#[test]
fn disallowed_characters_fail_validation_but_not_unchecked() {
    for s in ["asdf{", "a\tb", "tilde~ok`no", "[bracket]"] {
        assert!(matches!(Name::new(s), Err(GdtfError::InvalidIdentifier(_))));
        assert_eq!(Name::new_unchecked(s).as_str(), s);
    }
    assert!(Name::new("~").is_err());
}

#[test]
fn path_segments_follow_the_dot_split() {
    let node = NodeChannelFunctionAttribute::new_from_str("One.Two.Three").unwrap();
    match node {
        NodeChannelFunctionAttribute::Node(names) => {
            let texts: Vec<&str> = names.iter().map(|n| n.as_str()).collect();
            assert_eq!(texts, vec!["One", "Two", "Three"]);
        }
        NodeChannelFunctionAttribute::NoFeature => panic!("expected a present path"),
    }
    assert_eq!(
        NodeChannelFunctionAttribute::NoFeature,
        NodeChannelFunctionAttribute::new_from_str("").unwrap()
    );
    assert_eq!(
        NodeChannelFunctionAttribute::NoFeature,
        NodeChannelFunctionAttribute::new_from_str("NoFeature").unwrap()
    );
}

#[test]
fn parsing_twice_yields_equal_graphs() {
    let xml = r#"
        <FixtureType Description="D" FixtureTypeID="E62F2ECF-2A08-491D-BEEC-F5C491B89784" Name="F">
            <AttributeDefinitions>
                <ActivationGroups><ActivationGroup Name="PanTilt"/></ActivationGroups>
                <FeatureGroups>
                    <FeatureGroup Name="Position" Pretty="PositionP"><Feature Name="PanTilt"/></FeatureGroup>
                </FeatureGroups>
                <Attributes>
                    <Attribute ActivationGroup="PanTilt" Feature="Position.PanTilt" Name="Pan" PhysicalUnit="Angle" Pretty="P"/>
                </Attributes>
            </AttributeDefinitions>
        </FixtureType>"#;
    let first = FixtureType::from_xml(xml).unwrap();
    let second = FixtureType::from_xml(xml).unwrap();
    assert_eq!(first, second);
}

#[test]
fn repeated_primary_keys_keep_the_later_child() {
    let xml = r#"
        <AttributeDefinitions>
            <Attributes>
                <Attribute Name="Dup" Pretty="First"/>
                <Attribute Name="Dup" Pretty="Second"/>
            </Attributes>
        </AttributeDefinitions>"#;
    let ad = AttributeDefinitions::from_xml(xml).unwrap();
    assert_eq!(ad.attributes.len(), 1);
    assert_eq!(ad.attributes.get("Dup").unwrap().pretty, "Second");
    assert!(ad.attributes.get("Missing").is_none());
}

#[test]
fn malformed_markup_deep_in_the_subtree_fails_the_whole_parse() {
    let xml = r#"
        <FixtureType Name="F" FixtureTypeID="E62F2ECF-2A08-491D-BEEC-F5C491B89784">
            <AttributeDefinitions>
                <Attributes>
                    <Attribute Name="x"
                </Attributes>
            </AttributeDefinitions>
        </FixtureType>"#;
    assert!(matches!(FixtureType::from_xml(xml), Err(GdtfError::TokenizerFailure(_))));
}

#[test]
fn missing_required_values_are_reported() {
    // No Name attribute at all.
    let no_name = r#"<FixtureType FixtureTypeID="E62F2ECF-2A08-491D-BEEC-F5C491B89784"><AttributeDefinitions/></FixtureType>"#;
    assert!(matches!(FixtureType::from_xml(no_name), Err(GdtfError::RequiredValueNotFound(_))));
    // No FixtureTypeID attribute.
    let no_id = r#"<FixtureType Name="F"><AttributeDefinitions/></FixtureType>"#;
    assert!(matches!(FixtureType::from_xml(no_id), Err(GdtfError::RequiredValueNotFound(_))));
    // No AttributeDefinitions child.
    let no_ad = r#"<FixtureType Name="F" FixtureTypeID="E62F2ECF-2A08-491D-BEEC-F5C491B89784"></FixtureType>"#;
    assert!(matches!(FixtureType::from_xml(no_ad), Err(GdtfError::RequiredValueNotFound(_))));
}

#[test]
fn malformed_identifiers_are_conversion_failures() {
    assert!(matches!(
        GUID::new_from_str("not-a-guid"),
        Err(GdtfError::ValueConversionFailure(_))
    ));
    assert!(GUID::new_from_str("E62F2ECF-2A08-491D-BEEC-F5C491B89784").is_ok());
    let bad_id = r#"<FixtureType Name="F" FixtureTypeID="xyz"><AttributeDefinitions/></FixtureType>"#;
    assert!(matches!(FixtureType::from_xml(bad_id), Err(GdtfError::ValueConversionFailure(_))));
}

#[test]
fn color_coordinates_parse_exactly() {
    assert_eq!(
        ColorCIE { x: 312700, y: 329000, luminance: 100000000 },
        ColorCIE::new_from_str("0.312700,0.329000,100.000000").unwrap()
    );
    assert_eq!(
        ColorCIE { x: 1500000, y: 20000, luminance: 7000000 },
        ColorCIE::new_from_str("1.5,0.02,7").unwrap()
    );
    // Leading zeros and open-ended decimal points are tolerated.
    assert_eq!(
        ColorCIE { x: 7500000, y: 500000, luminance: 500000 },
        ColorCIE::new_from_str("007.5,0.5,.5").unwrap()
    );
    assert_eq!(
        ColorCIE { x: 5000000, y: 0, luminance: 1000000 },
        ColorCIE::new_from_str("5.,0,1").unwrap()
    );
    assert!(ColorCIE::new_from_str(".,0,0").is_err());
    assert!(ColorCIE::new_from_str("1e2,0,0").is_err());
    assert!(ColorCIE::new_from_str("1.5,0.02").is_err());
    assert!(ColorCIE::new_from_str("a,b,c").is_err());
    assert!(ColorCIE::new_from_str("1.2345678,0,0").is_err());
}

#[test]
fn malformed_color_is_a_conversion_failure() {
    assert!(matches!(
        Attribute::from_xml(r#"<Attribute Name="Sound" Color="zzz"/>"#),
        Err(GdtfError::ValueConversionFailure(_))
    ));
    // The failure is terminal for every enclosing build.
    let xml = r#"
        <FixtureType Name="F" FixtureTypeID="E62F2ECF-2A08-491D-BEEC-F5C491B89784">
            <AttributeDefinitions>
                <Attributes><Attribute Name="S" Color="0.3,bad,1"/></Attributes>
            </AttributeDefinitions>
        </FixtureType>"#;
    assert!(matches!(FixtureType::from_xml(xml), Err(GdtfError::ValueConversionFailure(_))));
}

#[test]
fn validating_activation_group_parse_rejects_bad_names() {
    let events: Vec<XmlEvent> = vec![];
    let attrs = vec![XmlAttr { key: "Name".to_string(), value: "PanTilt".to_string() }];
    let (ag, _) = ActivationGroup::single_from_event_validated(&attrs, true, &events, 0).unwrap();
    assert_eq!(ActivationGroup { name: Name::new("PanTilt").unwrap() }, ag);
    let bad = vec![XmlAttr { key: "Name".to_string(), value: "Some{Bad".to_string() }];
    assert!(matches!(
        ActivationGroup::single_from_event_validated(&bad, true, &events, 0),
        Err(GdtfError::InvalidIdentifier(_))
    ));
}

#[test]
fn unknown_children_are_skipped_silently() {
    let xml = r#"
        <AttributeDefinitions>
            <SomethingNew Version="2"/>
            <Attributes>
                <Attribute Name="Pan" Pretty="P"/>
            </Attributes>
        </AttributeDefinitions>"#;
    let ad = AttributeDefinitions::from_xml(xml).unwrap();
    assert_eq!(ad.attributes.len(), 1);
}

#[test]
fn error_kinds_have_descriptions() {
    assert_eq!(GdtfError::TokenizerFailure(String::new()).describe(), "malformed markup");
    assert_eq!(
        GdtfError::RequiredValueNotFound(String::new()).describe(),
        "required value not found"
    );
    assert_eq!(GdtfError::InvalidIdentifier(String::new()).describe(), "invalid identifier");
    assert_eq!(
        GdtfError::ValueConversionFailure(String::new()).describe(),
        "value conversion failed"
    );
}

#[test]
fn guid_zero_value_is_empty() {
    assert!(GUID::new().is_empty());
    assert!(!GUID::new_from_str("E62F2ECF-2A08-491D-BEEC-F5C491B89784").unwrap().is_empty());
}

#[test]
fn sample_attribute_catalog_has_expected_size() {
    let attributes = testdata::expect();
    assert_eq!(attributes.len(), 28);
    assert_eq!(attributes[0].pretty, "P");
}
