//! Reference data for the attribute catalog of a sample beam fixture,
//! used by the test suite.

use vstd::prelude::*;

use crate::attribute::Attribute;
use crate::attribute_name::{attr_name_of, AttributeName, AttributeNameV};
use crate::color_cie::ColorCIE;
use crate::physical_unit::PhysicalUnit;

verus! {

/// The names of the sample fixture's attributes, in document order.
pub open spec fn sample_catalog_names() -> Seq<Seq<char>> {
    seq![
        "Pan"@,
        "Tilt"@,
        "Gobo1"@,
        "Prism1"@,
        "Prism1Pos"@,
        "Shutter1"@,
        "Dimmer"@,
        "LampControl"@,
        "Function"@,
        "Gobo1SelectShake"@,
        "Prism1PosRotate"@,
        "Shutter1Strobe"@,
        "Shutter1StrobeRandom"@,
        "Color1"@,
        "Color1WheelSpin"@,
        "PositionReset"@,
        "NoFeature"@,
        "Gobo1WheelSpin"@,
        "PT Speed"@,
        "ShutterReset"@,
        "Lamp On"@,
        "Lamp Off"@,
        "Shutter1StrobePulseClose"@,
        "Shutter1StrobePulseOpen"@,
        "ColorMixReset"@,
        "GoboWheelReset"@,
        "FixtureGlobalReset"@,
        "Sound"@,
    ]
}

/// None of the catalog's names spells the predefined numeric pattern:
/// none of them even starts with its first letter.
proof fn lemma_catalog_name_plain(s: Seq<char>)
    requires
        s.len() >= 1,
        s[0] != 'E',
    ensures
        attr_name_of(s) == AttributeNameV::UserDefined(s),
{
    reveal_strlit("Effects");
    if s.len() >= 7 {
        assert(s.subrange(0, 7)[0] == s[0]);
        assert("Effects"@[0] == 'E');
    }
}

/// The attributes of the sample fixture, in document order: a fixed
/// catalog of 28 attributes carrying, verbatim, the names below.
#[verifier::rlimit(60)]
pub fn expect() -> (r: Vec<Attribute>)
    ensures
        r@.len() == 28,
        forall|i: int|
            0 <= i < 28 ==> (#[trigger] r@[i])@.name == AttributeNameV::UserDefined(
                sample_catalog_names()[i],
            ),
{
    proof {
        reveal_strlit("Pan");
        reveal_strlit("Tilt");
        reveal_strlit("Gobo1");
        reveal_strlit("Prism1");
        reveal_strlit("Prism1Pos");
        reveal_strlit("Shutter1");
        reveal_strlit("Dimmer");
        reveal_strlit("LampControl");
        reveal_strlit("Function");
        reveal_strlit("Gobo1SelectShake");
        reveal_strlit("Prism1PosRotate");
        reveal_strlit("Shutter1Strobe");
        reveal_strlit("Shutter1StrobeRandom");
        reveal_strlit("Color1");
        reveal_strlit("Color1WheelSpin");
        reveal_strlit("PositionReset");
        reveal_strlit("NoFeature");
        reveal_strlit("Gobo1WheelSpin");
        reveal_strlit("PT Speed");
        reveal_strlit("ShutterReset");
        reveal_strlit("Lamp On");
        reveal_strlit("Lamp Off");
        reveal_strlit("Shutter1StrobePulseClose");
        reveal_strlit("Shutter1StrobePulseOpen");
        reveal_strlit("ColorMixReset");
        reveal_strlit("GoboWheelReset");
        reveal_strlit("FixtureGlobalReset");
        reveal_strlit("Sound");
        assert forall|i: int| 0 <= i < 28 implies attr_name_of(#[trigger] sample_catalog_names()[i])
            == AttributeNameV::UserDefined(sample_catalog_names()[i]) by {
            lemma_catalog_name_plain(sample_catalog_names()[i]);
        }
    }
    let mut v: Vec<Attribute> = Vec::new();
    v.push(
        Attribute {
                name: AttributeName::new_unchecked("Pan"),
                pretty: "P".to_owned(),
                activation_group: Some("PanTilt".to_owned()),
                feature: "Position.PanTilt".to_owned(),
                main_attribute: None,
                physical_unit: PhysicalUnit::Angle,
                color: None,
            },
    );
    v.push(
        Attribute {
                name: AttributeName::new_unchecked("Tilt"),
                pretty: "T".to_owned(),
                activation_group: Some("PanTilt".to_owned()),
                feature: "Position.PanTilt".to_owned(),
                main_attribute: None,
                physical_unit: PhysicalUnit::Angle,
                color: None,
            },
    );
    v.push(
        Attribute {
                name: AttributeName::new_unchecked("Gobo1"),
                pretty: "G1".to_owned(),
                activation_group: Some("Gobo1".to_owned()),
                feature: "Gobo.Gobo".to_owned(),
                main_attribute: None,
                physical_unit: PhysicalUnit::NoUnit,
                color: None,
            },
    );
    v.push(
        Attribute {
                name: AttributeName::new_unchecked("Prism1"),
                pretty: "Prism1".to_owned(),
                activation_group: Some("Prism".to_owned()),
                feature: "Beam.Beam".to_owned(),
                main_attribute: None,
                physical_unit: PhysicalUnit::NoUnit,
                color: None,
            },
    );
    v.push(
        Attribute {
                name: AttributeName::new_unchecked("Prism1Pos"),
                pretty: "Prism1 Pos".to_owned(),
                activation_group: None,
                feature: "Beam.Beam".to_owned(),
                main_attribute: None,
                physical_unit: PhysicalUnit::Angle,
                color: None,
            },
    );
    v.push(
        Attribute {
                name: AttributeName::new_unchecked("Shutter1"),
                pretty: "Sh1".to_owned(),
                activation_group: None,
                feature: "Beam.Beam".to_owned(),
                main_attribute: None,
                physical_unit: PhysicalUnit::NoUnit,
                color: None,
            },
    );
    v.push(
        Attribute {
                name: AttributeName::new_unchecked("Dimmer"),
                pretty: "Dim".to_owned(),
                activation_group: None,
                feature: "Dimmer.Dimmer".to_owned(),
                main_attribute: None,
                physical_unit: PhysicalUnit::LuminousIntensity,
                color: None,
            },
    );
    v.push(
        Attribute {
                name: AttributeName::new_unchecked("LampControl"),
                pretty: "Lamp Ctrl".to_owned(),
                activation_group: None,
                feature: "Control.Control".to_owned(),
                main_attribute: None,
                physical_unit: PhysicalUnit::NoUnit,
                color: None,
            },
    );
    v.push(
        Attribute {
                name: AttributeName::new_unchecked("Function"),
                pretty: "Function".to_owned(),
                activation_group: None,
                feature: "Control.Control".to_owned(),
                main_attribute: None,
                physical_unit: PhysicalUnit::NoUnit,
                color: None,
            },
    );
    v.push(
        Attribute {
                name: AttributeName::new_unchecked("Gobo1SelectShake"),
                pretty: "Select Shake".to_owned(),
                activation_group: Some("Gobo1".to_owned()),
                feature: "Gobo.Gobo".to_owned(),
                main_attribute: Some("Gobo1".to_owned()),
                physical_unit: PhysicalUnit::Frequency,
                color: None,
            },
    );
    v.push(
        Attribute {
                name: AttributeName::new_unchecked("Prism1PosRotate"),
                pretty: "Rotate1".to_owned(),
                activation_group: Some("Prism".to_owned()),
                feature: "Beam.Beam".to_owned(),
                main_attribute: Some("Prism1Pos".to_owned()),
                physical_unit: PhysicalUnit::AngularSpeed,
                color: None,
            },
    );
    v.push(
        Attribute {
                name: AttributeName::new_unchecked("Shutter1Strobe"),
                pretty: "Strobe1".to_owned(),
                activation_group: None,
                feature: "Beam.Beam".to_owned(),
                main_attribute: Some("Shutter1".to_owned()),
                physical_unit: PhysicalUnit::Frequency,
                color: None,
            },
    );
    v.push(
        Attribute {
                name: AttributeName::new_unchecked("Shutter1StrobeRandom"),
                pretty: "Random1".to_owned(),
                activation_group: None,
                feature: "Beam.Beam".to_owned(),
                main_attribute: Some("Shutter1".to_owned()),
                physical_unit: PhysicalUnit::Frequency,
                color: None,
            },
    );
    v.push(
        Attribute {
                name: AttributeName::new_unchecked("Color1"),
                pretty: "C1".to_owned(),
                activation_group: Some("ColorRGB".to_owned()),
                feature: "Color.Color".to_owned(),
                main_attribute: None,
                physical_unit: PhysicalUnit::NoUnit,
                color: None,
            },
    );
    v.push(
        Attribute {
                name: AttributeName::new_unchecked("Color1WheelSpin"),
                pretty: "Wheel Spin".to_owned(),
                activation_group: Some("ColorRGB".to_owned()),
                feature: "Color.Color".to_owned(),
                main_attribute: Some("Color1".to_owned()),
                physical_unit: PhysicalUnit::AngularSpeed,
                color: None,
            },
    );
    v.push(
        Attribute {
                name: AttributeName::new_unchecked("PositionReset"),
                pretty: "Pos Reset".to_owned(),
                activation_group: None,
                feature: "Control.Control".to_owned(),
                main_attribute: None,
                physical_unit: PhysicalUnit::NoUnit,
                color: None,
            },
    );
    v.push(
        Attribute {
                name: AttributeName::new_unchecked("NoFeature"),
                pretty: "NoFeature".to_owned(),
                activation_group: None,
                feature: "Control.Control".to_owned(),
                main_attribute: None,
                physical_unit: PhysicalUnit::NoUnit,
                color: None,
            },
    );
    v.push(
        Attribute {
                name: AttributeName::new_unchecked("Gobo1WheelSpin"),
                pretty: "Wheel Spin".to_owned(),
                activation_group: Some("Gobo1".to_owned()),
                feature: "Gobo.Gobo".to_owned(),
                main_attribute: Some("Gobo1".to_owned()),
                physical_unit: PhysicalUnit::AngularSpeed,
                color: None,
            },
    );
    v.push(
        Attribute {
                name: AttributeName::new_unchecked("PT Speed"),
                pretty: "PT Speed".to_owned(),
                activation_group: None,
                feature: "Control.Control".to_owned(),
                main_attribute: None,
                physical_unit: PhysicalUnit::NoUnit,
                color: Some(ColorCIE { x: 312700, y: 329000, luminance: 100000000 }),
            },
    );
    v.push(
        Attribute {
                name: AttributeName::new_unchecked("ShutterReset"),
                pretty: "Shutter Reset".to_owned(),
                activation_group: None,
                feature: "Control.Control".to_owned(),
                main_attribute: None,
                physical_unit: PhysicalUnit::NoUnit,
                color: None,
            },
    );
    v.push(
        Attribute {
                name: AttributeName::new_unchecked("Lamp On"),
                pretty: "Lamp On".to_owned(),
                activation_group: None,
                feature: "Control.Control".to_owned(),
                main_attribute: None,
                physical_unit: PhysicalUnit::NoUnit,
                color: Some(ColorCIE { x: 312700, y: 329000, luminance: 100000000 }),
            },
    );
    v.push(
        Attribute {
                name: AttributeName::new_unchecked("Lamp Off"),
                pretty: "Lamp Off".to_owned(),
                activation_group: None,
                feature: "Control.Control".to_owned(),
                main_attribute: None,
                physical_unit: PhysicalUnit::NoUnit,
                color: Some(ColorCIE { x: 312700, y: 329000, luminance: 100000000 }),
            },
    );
    v.push(
        Attribute {
                name: AttributeName::new_unchecked("Shutter1StrobePulseClose"),
                pretty: "Pulse Close1".to_owned(),
                activation_group: None,
                feature: "Beam.Beam".to_owned(),
                main_attribute: Some("Shutter1".to_owned()),
                physical_unit: PhysicalUnit::Frequency,
                color: None,
            },
    );
    v.push(
        Attribute {
                name: AttributeName::new_unchecked("Shutter1StrobePulseOpen"),
                pretty: "Pulse Open1".to_owned(),
                activation_group: None,
                feature: "Beam.Beam".to_owned(),
                main_attribute: Some("Shutter1".to_owned()),
                physical_unit: PhysicalUnit::Frequency,
                color: None,
            },
    );
    v.push(
        Attribute {
                name: AttributeName::new_unchecked("ColorMixReset"),
                pretty: "Color Mix Reset".to_owned(),
                activation_group: None,
                feature: "Control.Control".to_owned(),
                main_attribute: None,
                physical_unit: PhysicalUnit::NoUnit,
                color: None,
            },
    );
    v.push(
        Attribute {
                name: AttributeName::new_unchecked("GoboWheelReset"),
                pretty: "G Reset".to_owned(),
                activation_group: None,
                feature: "Control.Control".to_owned(),
                main_attribute: None,
                physical_unit: PhysicalUnit::NoUnit,
                color: None,
            },
    );
    v.push(
        Attribute {
                name: AttributeName::new_unchecked("FixtureGlobalReset"),
                pretty: "Fixture Global Reset".to_owned(),
                activation_group: None,
                feature: "Control.Control".to_owned(),
                main_attribute: None,
                physical_unit: PhysicalUnit::NoUnit,
                color: None,
            },
    );
    v.push(
        Attribute {
                name: AttributeName::new_unchecked("Sound"),
                pretty: "Sound".to_owned(),
                activation_group: None,
                feature: "Control.Control".to_owned(),
                main_attribute: None,
                physical_unit: PhysicalUnit::NoUnit,
                color: Some(ColorCIE { x: 312700, y: 329000, luminance: 100000000 }),
            },
    );
    v
}

} // verus!
