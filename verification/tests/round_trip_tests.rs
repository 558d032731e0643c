//! Round-trip scenarios: serializing an entity and re-parsing the
//! result yields a structurally equal entity.

use gdtf_parser::activation_group::ActivationGroup;
use gdtf_parser::attribute::Attribute;
use gdtf_parser::attribute_definitions::AttributeDefinitions;
use gdtf_parser::attribute_name::AttributeName;
use gdtf_parser::color_cie::ColorCIE;
use gdtf_parser::dmx_channel::{DmxBreak, DmxChannel, LogicalChannel, NodeDmxChannelInitialFunction, Offset};
use gdtf_parser::dmx_mode::DmxMode;
use gdtf_parser::feature_group::{Feature, FeatureGroup};
use gdtf_parser::fixture_type::FixtureType;
use gdtf_parser::keyed_list::KeyedList;
use gdtf_parser::name::Name;
use gdtf_parser::node::Node;
use gdtf_parser::node_logical_channel_attribute::NodeLogicalChannelAttribute;
use gdtf_parser::physical_unit::PhysicalUnit;
use gdtf_parser::snap::Snap;

#[test]
fn activation_group_round_trip() {
    let e = ActivationGroup { name: Name::new("PanTilt").unwrap() };
    assert_eq!(e, ActivationGroup::from_xml(&e.to_xml()).unwrap());
}

#[test]
fn attribute_round_trip() {
    let e = Attribute {
        name: AttributeName::Effects_n_Adjust_m_(12, 4),
        pretty: "Adjust 12".to_string(),
        activation_group: Some("Gobo1".to_string()),
        feature: "Control.Control".to_string(),
        main_attribute: None,
        physical_unit: PhysicalUnit::AngularSpeed,
        color: Some(ColorCIE { x: 312700, y: 329000, luminance: 100000000 }),
    };
    assert_eq!(e, Attribute::from_xml(&e.to_xml()).unwrap());
}

#[test]
fn attribute_definitions_round_trip() {
    let mut feature_groups = KeyedList::new();
    feature_groups.insert(
        Name::new("Position").unwrap(),
        FeatureGroup {
            name: Name::new("Position").unwrap(),
            pretty: "PositionP".to_string(),
            features: vec![
                Feature { name: Name::new("PanTilt").unwrap() },
                Feature { name: Name::new("XYZ").unwrap() },
            ],
        },
    );
    let mut attributes = KeyedList::new();
    attributes.insert(
        Name::new("Pan").unwrap(),
        Attribute {
            name: AttributeName::UserDefined(Name::new_unchecked("Pan")),
            pretty: "P".to_string(),
            activation_group: Some("PanTilt".to_string()),
            feature: "Position.PanTilt".to_string(),
            main_attribute: None,
            physical_unit: PhysicalUnit::Angle,
            color: None,
        },
    );
    let e = AttributeDefinitions {
        feature_groups,
        attributes,
        activation_groups: vec![Name::new("PanTilt").unwrap()],
    };
    assert_eq!(e, AttributeDefinitions::from_xml(&e.to_xml()).unwrap());
}

#[test]
fn dmx_mode_round_trip() {
    let e = DmxMode {
        geometry: Name::new("Base").unwrap(),
        dmx_channels: vec![DmxChannel {
            dmx_break: DmxBreak::Value(2),
            offset: Some(Offset(vec![1, 2])),
            initial_function: NodeDmxChannelInitialFunction(Some(Node(vec![
                Name::new("Base").unwrap(),
                Name::new("Dimmer").unwrap(),
            ]))),
            highlight: Some("255/1".to_string()),
            geometry: Name::new("Yoke").unwrap(),
            logical_channels: vec![LogicalChannel {
                attribute: NodeLogicalChannelAttribute(Some(vec![AttributeName::UserDefined(
                    Name::new_unchecked("Dimmer"),
                )])),
                snap: Snap::Yes,
            }],
        }],
    };
    let key = Name::new("Mode 1").unwrap();
    let (parsed, parsed_key) = DmxMode::from_xml(&e.to_xml(&key)).unwrap();
    assert_eq!(key, parsed_key);
    assert_eq!(e, parsed);
}

#[test]
fn fixture_type_round_trip() {
    let mut attributes = KeyedList::new();
    attributes.insert(
        Name::new("Tilt").unwrap(),
        Attribute {
            name: AttributeName::UserDefined(Name::new_unchecked("Tilt")),
            pretty: "T".to_string(),
            activation_group: None,
            feature: "Position.PanTilt".to_string(),
            main_attribute: Some("Pan".to_string()),
            physical_unit: PhysicalUnit::Angle,
            color: None,
        },
    );
    let e = FixtureType {
        name: Name::new("Beam").unwrap(),
        short_name: "B".to_string(),
        long_name: "Beam Long".to_string(),
        manufacturer: "ACME".to_string(),
        description: "A beam".to_string(),
        fixture_type_id: "E62F2ECF-2A08-491D-BEEC-F5C491B89784".try_into().unwrap(),
        thumbnail: None,
        ref_ft: Some("8F54E11C-4C91-11E9-80BC-F1DFE217E634".try_into().unwrap()),
        attribute_definitions: AttributeDefinitions {
            feature_groups: KeyedList::new(),
            attributes,
            activation_groups: vec![],
        },
    };
    assert_eq!(e, FixtureType::from_xml(&e.to_xml()).unwrap());
}
