use gdtf_parser::attribute::Attribute;
use gdtf_parser::attribute_definitions::AttributeDefinitions;
use gdtf_parser::attribute_name::AttributeName;
use gdtf_parser::feature_group::{Feature, FeatureGroup};
use gdtf_parser::fixture_type::FixtureType;
use gdtf_parser::keyed_list::KeyedList;
use gdtf_parser::name::Name;
use gdtf_parser::physical_unit::PhysicalUnit;

#[test]
fn test_fixture_type() {
    let mut feature_groups = KeyedList::new();
    feature_groups.insert(
        Name::new("Position").unwrap(),
        FeatureGroup {
            name: "Position".try_into().unwrap(),
            pretty: "PositionP".to_string(),
            features: vec![Feature { name: "PanTilt".try_into().unwrap() }],
        },
    );
    let mut attributes = KeyedList::new();
    attributes.insert(
        Name::new("Pan").unwrap(),
        Attribute {
            activation_group: Some("PanTilt".to_string()),
            feature: "Position.PanTilt".to_string(),
            name: AttributeName::UserDefined(Name::new_unchecked("Pan")),
            physical_unit: PhysicalUnit::Angle,
            pretty: "P".to_string(),
            main_attribute: None,
            color: None,
        },
    );
    let expected = FixtureType {
        description: "ACME AE-610 BEAM".to_string(),
        fixture_type_id: "E62F2ECF-2A08-491D-BEEC-F5C491B89784".try_into().unwrap(),
        long_name: "ACME AE 610 BEAM".to_string(),
        manufacturer: "ACME".to_string(),
        name: "ACME AE-610 BEAM".try_into().unwrap(),
        ref_ft: Some("8F54E11C-4C91-11E9-80BC-F1DFE217E634".try_into().unwrap()),
        short_name: "ACME AE 610 BEAM".to_string(),
        thumbnail: Some("AE-610 BEAM".to_string()),
        attribute_definitions: AttributeDefinitions {
            activation_groups: vec![Name::new("PanTilt").unwrap()],
            feature_groups,
            attributes,
        },
    };
    assert_eq!(
        expected,
        FixtureType::from_xml(
            r#"
        <FixtureType Description="ACME AE-610 BEAM" FixtureTypeID="E62F2ECF-2A08-491D-BEEC-F5C491B89784" LongName="ACME AE 610 BEAM" Manufacturer="ACME" Name="ACME AE-610 BEAM" RefFT="8F54E11C-4C91-11E9-80BC-F1DFE217E634" ShortName="ACME AE 610 BEAM" Thumbnail="AE-610 BEAM">
            <AttributeDefinitions>
                    <ActivationGroups>
                        <ActivationGroup Name="PanTilt"/>
                    </ActivationGroups>
                <FeatureGroups>
                    <FeatureGroup Name="Position" Pretty="PositionP">
                        <Feature Name="PanTilt"/>
                    </FeatureGroup>
                </FeatureGroups>
                <Attributes>
                    <Attribute ActivationGroup="PanTilt" Feature="Position.PanTilt" Name="Pan" PhysicalUnit="Angle" Pretty="P"/>
                </Attributes>
            </AttributeDefinitions>
    "#
        )
        .unwrap()
    );
}
