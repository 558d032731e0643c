//! The physical unit of an attribute's values.

use vstd::prelude::*;

use crate::text::str_eq;

verus! {

/// Physical unit of an attribute's values; `NoUnit` when the attribute
/// is unitless or the document gives no unit.
#[derive(Debug, Clone, Copy, PartialEq, Eq, Structural)]
pub enum PhysicalUnit {
    NoUnit,
    Percent,
    Length,
    Mass,
    Time,
    Temperature,
    LuminousIntensity,
    Angle,
    Force,
    Frequency,
    Current,
    Voltage,
    Power,
    Energy,
    Area,
    Volume,
    Speed,
    Acceleration,
    AngularSpeed,
    AngularAccc,
    WaveLength,
    ColorComponent,
}

/// What constructing a physical unit from `s` yields: unknown spellings
/// fall back to `NoUnit`.
pub open spec fn physical_unit_of(s: Seq<char>) -> PhysicalUnit {
    if s == "Percent"@ {
        PhysicalUnit::Percent
    } else if s == "Length"@ {
        PhysicalUnit::Length
    } else if s == "Mass"@ {
        PhysicalUnit::Mass
    } else if s == "Time"@ {
        PhysicalUnit::Time
    } else if s == "Temperature"@ {
        PhysicalUnit::Temperature
    } else if s == "LuminousIntensity"@ {
        PhysicalUnit::LuminousIntensity
    } else if s == "Angle"@ {
        PhysicalUnit::Angle
    } else if s == "Force"@ {
        PhysicalUnit::Force
    } else if s == "Frequency"@ {
        PhysicalUnit::Frequency
    } else if s == "Current"@ {
        PhysicalUnit::Current
    } else if s == "Voltage"@ {
        PhysicalUnit::Voltage
    } else if s == "Power"@ {
        PhysicalUnit::Power
    } else if s == "Energy"@ {
        PhysicalUnit::Energy
    } else if s == "Area"@ {
        PhysicalUnit::Area
    } else if s == "Volume"@ {
        PhysicalUnit::Volume
    } else if s == "Speed"@ {
        PhysicalUnit::Speed
    } else if s == "Acceleration"@ {
        PhysicalUnit::Acceleration
    } else if s == "AngularSpeed"@ {
        PhysicalUnit::AngularSpeed
    } else if s == "AngularAccc"@ {
        PhysicalUnit::AngularAccc
    } else if s == "WaveLength"@ {
        PhysicalUnit::WaveLength
    } else if s == "ColorComponent"@ {
        PhysicalUnit::ColorComponent
    } else {
        PhysicalUnit::NoUnit
    }
}

impl Default for PhysicalUnit {
    /// The default unit is `NoUnit`.
    fn default() -> (r: Self)
        ensures
            r == PhysicalUnit::NoUnit,
    {
        PhysicalUnit::NoUnit
    }
}

impl From<&str> for PhysicalUnit {
    /// Reads the document spelling, falling back to `NoUnit` for anything
    /// unknown.
    fn from(s: &str) -> (r: Self) {
        if str_eq(s, "Percent") {
            PhysicalUnit::Percent
        } else if str_eq(s, "Length") {
            PhysicalUnit::Length
        } else if str_eq(s, "Mass") {
            PhysicalUnit::Mass
        } else if str_eq(s, "Time") {
            PhysicalUnit::Time
        } else if str_eq(s, "Temperature") {
            PhysicalUnit::Temperature
        } else if str_eq(s, "LuminousIntensity") {
            PhysicalUnit::LuminousIntensity
        } else if str_eq(s, "Angle") {
            PhysicalUnit::Angle
        } else if str_eq(s, "Force") {
            PhysicalUnit::Force
        } else if str_eq(s, "Frequency") {
            PhysicalUnit::Frequency
        } else if str_eq(s, "Current") {
            PhysicalUnit::Current
        } else if str_eq(s, "Voltage") {
            PhysicalUnit::Voltage
        } else if str_eq(s, "Power") {
            PhysicalUnit::Power
        } else if str_eq(s, "Energy") {
            PhysicalUnit::Energy
        } else if str_eq(s, "Area") {
            PhysicalUnit::Area
        } else if str_eq(s, "Volume") {
            PhysicalUnit::Volume
        } else if str_eq(s, "Speed") {
            PhysicalUnit::Speed
        } else if str_eq(s, "Acceleration") {
            PhysicalUnit::Acceleration
        } else if str_eq(s, "AngularSpeed") {
            PhysicalUnit::AngularSpeed
        } else if str_eq(s, "AngularAccc") {
            PhysicalUnit::AngularAccc
        } else if str_eq(s, "WaveLength") {
            PhysicalUnit::WaveLength
        } else if str_eq(s, "ColorComponent") {
            PhysicalUnit::ColorComponent
        } else {
            PhysicalUnit::NoUnit
        }
    }
}

/// The document spelling of a physical unit.
pub open spec fn unit_text(u: PhysicalUnit) -> Seq<char> {
    match u {
        PhysicalUnit::NoUnit => "None"@,
        PhysicalUnit::Percent => "Percent"@,
        PhysicalUnit::Length => "Length"@,
        PhysicalUnit::Mass => "Mass"@,
        PhysicalUnit::Time => "Time"@,
        PhysicalUnit::Temperature => "Temperature"@,
        PhysicalUnit::LuminousIntensity => "LuminousIntensity"@,
        PhysicalUnit::Angle => "Angle"@,
        PhysicalUnit::Force => "Force"@,
        PhysicalUnit::Frequency => "Frequency"@,
        PhysicalUnit::Current => "Current"@,
        PhysicalUnit::Voltage => "Voltage"@,
        PhysicalUnit::Power => "Power"@,
        PhysicalUnit::Energy => "Energy"@,
        PhysicalUnit::Area => "Area"@,
        PhysicalUnit::Volume => "Volume"@,
        PhysicalUnit::Speed => "Speed"@,
        PhysicalUnit::Acceleration => "Acceleration"@,
        PhysicalUnit::AngularSpeed => "AngularSpeed"@,
        PhysicalUnit::AngularAccc => "AngularAccc"@,
        PhysicalUnit::WaveLength => "WaveLength"@,
        PhysicalUnit::ColorComponent => "ColorComponent"@,
    }
}

impl PhysicalUnit {
    /// The document spelling of this unit.
    pub fn text(&self) -> (r: &'static str)
        ensures
            r@ == unit_text(*self),
    {
        match self {
            PhysicalUnit::NoUnit => "None",
            PhysicalUnit::Percent => "Percent",
            PhysicalUnit::Length => "Length",
            PhysicalUnit::Mass => "Mass",
            PhysicalUnit::Time => "Time",
            PhysicalUnit::Temperature => "Temperature",
            PhysicalUnit::LuminousIntensity => "LuminousIntensity",
            PhysicalUnit::Angle => "Angle",
            PhysicalUnit::Force => "Force",
            PhysicalUnit::Frequency => "Frequency",
            PhysicalUnit::Current => "Current",
            PhysicalUnit::Voltage => "Voltage",
            PhysicalUnit::Power => "Power",
            PhysicalUnit::Energy => "Energy",
            PhysicalUnit::Area => "Area",
            PhysicalUnit::Volume => "Volume",
            PhysicalUnit::Speed => "Speed",
            PhysicalUnit::Acceleration => "Acceleration",
            PhysicalUnit::AngularSpeed => "AngularSpeed",
            PhysicalUnit::AngularAccc => "AngularAccc",
            PhysicalUnit::WaveLength => "WaveLength",
            PhysicalUnit::ColorComponent => "ColorComponent",
        }
    }
}

/// Writing a physical unit and reading it back yields the same unit.
pub proof fn lemma_unit_text_round_trip(u: PhysicalUnit)
    ensures
        physical_unit_of(unit_text(u)) == u,
{
    reveal_strlit("None");
    reveal_strlit("Percent");
    reveal_strlit("Length");
    reveal_strlit("Mass");
    reveal_strlit("Time");
    reveal_strlit("Temperature");
    reveal_strlit("LuminousIntensity");
    reveal_strlit("Angle");
    reveal_strlit("Force");
    reveal_strlit("Frequency");
    reveal_strlit("Current");
    reveal_strlit("Voltage");
    reveal_strlit("Power");
    reveal_strlit("Energy");
    reveal_strlit("Area");
    reveal_strlit("Volume");
    reveal_strlit("Speed");
    reveal_strlit("Acceleration");
    reveal_strlit("AngularSpeed");
    reveal_strlit("AngularAccc");
    reveal_strlit("WaveLength");
    reveal_strlit("ColorComponent");
    assert("None"@.len() == 4);
    assert("None"@[0] == 'N');
    assert("None"@[1] == 'o');
    assert("Percent"@.len() == 7);
    assert("Percent"@[0] == 'P');
    assert("Percent"@[1] == 'e');
    assert("Length"@.len() == 6);
    assert("Length"@[0] == 'L');
    assert("Length"@[1] == 'e');
    assert("Mass"@.len() == 4);
    assert("Mass"@[0] == 'M');
    assert("Mass"@[1] == 'a');
    assert("Time"@.len() == 4);
    assert("Time"@[0] == 'T');
    assert("Time"@[1] == 'i');
    assert("Temperature"@.len() == 11);
    assert("Temperature"@[0] == 'T');
    assert("Temperature"@[1] == 'e');
    assert("LuminousIntensity"@.len() == 17);
    assert("LuminousIntensity"@[0] == 'L');
    assert("LuminousIntensity"@[1] == 'u');
    assert("Angle"@.len() == 5);
    assert("Angle"@[0] == 'A');
    assert("Angle"@[1] == 'n');
    assert("Force"@.len() == 5);
    assert("Force"@[0] == 'F');
    assert("Force"@[1] == 'o');
    assert("Frequency"@.len() == 9);
    assert("Frequency"@[0] == 'F');
    assert("Frequency"@[1] == 'r');
    assert("Current"@.len() == 7);
    assert("Current"@[0] == 'C');
    assert("Current"@[1] == 'u');
    assert("Voltage"@.len() == 7);
    assert("Voltage"@[0] == 'V');
    assert("Voltage"@[1] == 'o');
    assert("Power"@.len() == 5);
    assert("Power"@[0] == 'P');
    assert("Power"@[1] == 'o');
    assert("Energy"@.len() == 6);
    assert("Energy"@[0] == 'E');
    assert("Energy"@[1] == 'n');
    assert("Area"@.len() == 4);
    assert("Area"@[0] == 'A');
    assert("Area"@[1] == 'r');
    assert("Volume"@.len() == 6);
    assert("Volume"@[0] == 'V');
    assert("Volume"@[1] == 'o');
    assert("Speed"@.len() == 5);
    assert("Speed"@[0] == 'S');
    assert("Speed"@[1] == 'p');
    assert("Acceleration"@.len() == 12);
    assert("Acceleration"@[0] == 'A');
    assert("Acceleration"@[1] == 'c');
    assert("AngularSpeed"@.len() == 12);
    assert("AngularSpeed"@[0] == 'A');
    assert("AngularSpeed"@[1] == 'n');
    assert("AngularAccc"@.len() == 11);
    assert("AngularAccc"@[0] == 'A');
    assert("AngularAccc"@[1] == 'n');
    assert("WaveLength"@.len() == 10);
    assert("WaveLength"@[0] == 'W');
    assert("WaveLength"@[1] == 'a');
    assert("ColorComponent"@.len() == 14);
    assert("ColorComponent"@[0] == 'C');
    assert("ColorComponent"@[1] == 'o');
}

impl vstd::std_specs::convert::FromSpecImpl<&str> for PhysicalUnit {
    open spec fn obeys_from_spec() -> bool {
        true
    }

    open spec fn from_spec(v: &str) -> PhysicalUnit {
        physical_unit_of(v@)
    }
}

} // verus!
