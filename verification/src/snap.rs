//! The snap setting of a logical channel: whether value changes jump or
//! fade.

use vstd::prelude::*;

use crate::text::str_eq;

verus! {

/// Snap setting of a logical channel.
#[derive(Debug, Clone, Copy, PartialEq, Eq, Structural)]
pub enum Snap {
    No,
    Yes,
    On,
    Off,
}

/// What constructing a snap setting from `s` yields: unknown spellings
/// fall back to `No`.
pub open spec fn snap_of(s: Seq<char>) -> Snap {
    if s == "Yes"@ {
        Snap::Yes
    } else if s == "On"@ {
        Snap::On
    } else if s == "Off"@ {
        Snap::Off
    } else {
        Snap::No
    }
}

impl Default for Snap {
    /// The default setting is `No`.
    fn default() -> (r: Self)
        ensures
            r == Snap::No,
    {
        Snap::No
    }
}

impl From<&str> for Snap {
    /// Reads the document spelling, falling back to `No` for anything
    /// unknown.
    fn from(s: &str) -> (r: Self) {
        if str_eq(s, "Yes") {
            Snap::Yes
        } else if str_eq(s, "On") {
            Snap::On
        } else if str_eq(s, "Off") {
            Snap::Off
        } else {
            Snap::No
        }
    }
}

/// The document spelling of a snap setting.
pub open spec fn snap_text(s: Snap) -> Seq<char> {
    match s {
        Snap::No => "No"@,
        Snap::Yes => "Yes"@,
        Snap::On => "On"@,
        Snap::Off => "Off"@,
    }
}

impl Snap {
    /// The document spelling of this setting.
    pub fn text(&self) -> (r: &'static str)
        ensures
            r@ == snap_text(*self),
    {
        match self {
            Snap::No => "No",
            Snap::Yes => "Yes",
            Snap::On => "On",
            Snap::Off => "Off",
        }
    }
}

/// Writing a snap setting and reading it back yields the same setting.
pub proof fn lemma_snap_text_round_trip(s: Snap)
    ensures
        snap_of(snap_text(s)) == s,
{
    reveal_strlit("No");
    reveal_strlit("Yes");
    reveal_strlit("On");
    reveal_strlit("Off");
    assert("No"@.len() == 2);
    assert("No"@[0] == 'N');
    assert("Yes"@.len() == 3);
    assert("Yes"@[0] == 'Y');
    assert("On"@.len() == 2);
    assert("On"@[0] == 'O');
    assert("Off"@.len() == 3);
    assert("Off"@[0] == 'O');
}

impl vstd::std_specs::convert::FromSpecImpl<&str> for Snap {
    open spec fn obeys_from_spec() -> bool {
        true
    }

    open spec fn from_spec(v: &str) -> Snap {
        snap_of(v@)
    }
}

} // verus!
