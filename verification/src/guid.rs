//! Globally unique identifiers of fixture types, in the hyphenated
//! hexadecimal form `XXXXXXXX-XXXX-XXXX-XXXX-XXXXXXXXXXXX`.

use vstd::prelude::*;
use vstd::string::StrSliceExecFns;

use crate::error::{ErrorKind, GdtfError};

verus! {

/// Is `c` a hexadecimal digit?
pub open spec fn is_hex_char(c: char) -> bool {
    ||| 48 <= c as u32 <= 57
    ||| 65 <= c as u32 <= 70
    ||| 97 <= c as u32 <= 102
}

/// What character the hyphenated form demands at position `i`.
pub open spec fn guid_char_ok(s: Seq<char>, i: int) -> bool {
    if i == 8 || i == 13 || i == 18 || i == 23 {
        s[i] as u32 == 45
    } else {
        is_hex_char(s[i])
    }
}

/// Is `s` a well-formed hyphenated identifier?
pub open spec fn valid_guid(s: Seq<char>) -> bool {
    s.len() == 36 && forall|i: int| 0 <= i < 36 ==> #[trigger] guid_char_ok(s, i)
}

/// A unique number of a fixture type; the empty value means that none
/// was given.
#[derive(Debug)]
pub struct GUID {
    raw: String,
}

impl View for GUID {
    type V = Seq<char>;

    closed spec fn view(&self) -> Seq<char> {
        self.raw@
    }
}

impl Clone for GUID {
    fn clone(&self) -> (r: Self)
        ensures
            r@ == self@,
    {
        GUID { raw: self.raw.clone() }
    }
}

impl PartialEq for GUID {
    fn eq(&self, other: &Self) -> (r: bool) {
        self.raw == other.raw
    }
}

impl vstd::std_specs::cmp::PartialEqSpecImpl for GUID {
    open spec fn obeys_eq_spec() -> bool {
        true
    }

    open spec fn eq_spec(&self, other: &Self) -> bool {
        self@ == other@
    }
}

impl GUID {
    /// The empty value: no identifier given.
    pub fn new() -> (r: Self)
        ensures
            r@ == Seq::<char>::empty(),
    {
        GUID { raw: String::new() }
    }

    /// Is this the empty value?
    pub fn is_empty(&self) -> (r: bool)
        ensures
            r == (self@.len() == 0),
    {
        self.raw.as_str().is_empty()
    }

    /// The identifier as a string slice.
    pub fn as_str(&self) -> (r: &str)
        ensures
            r@ == self@,
    {
        self.raw.as_str()
    }

    /// Validating constructor: accepts exactly the hyphenated
    /// hexadecimal form.
    pub fn new_from_str(value: &str) -> (r: Result<GUID, GdtfError>)
        ensures
            valid_guid(value@) <==> (r matches Ok(g) && g@ == value@),
            !valid_guid(value@) <==> (r matches Err(e) && e.kind() == ErrorKind::ValueConversion),
    {
        let n = value.unicode_len();
        if n != 36 {
            return Err(GdtfError::ValueConversionFailure(value.to_owned()));
        }
        for i in 0..n
            invariant
                n == value@.len() == 36,
                forall|j: int| 0 <= j < i ==> #[trigger] guid_char_ok(value@, j),
            decreases n - i,
        {
            let u = value.get_char(i) as u32;
            let ok = if i == 8 || i == 13 || i == 18 || i == 23 {
                u == 45
            } else {
                (48 <= u && u <= 57) || (65 <= u && u <= 70) || (97 <= u && u <= 102)
            };
            if !ok {
                proof {
                    assert(!guid_char_ok(value@, i as int));
                }
                return Err(GdtfError::ValueConversionFailure(value.to_owned()));
            }
        }
        Ok(GUID { raw: value.to_owned() })
    }
}

impl TryFrom<&str> for GUID {
    type Error = GdtfError;

    /// As [`GUID::new_from_str`], which carries the contract.
    fn try_from(value: &str) -> Result<Self, Self::Error> {
        Self::new_from_str(value)
    }
}

impl vstd::std_specs::convert::TryFromSpecImpl<&str> for GUID {
    open spec fn obeys_try_from_spec() -> bool {
        false
    }

    open spec fn try_from_spec(v: &str) -> Result<Self, GdtfError> {
        vstd::pervasive::arbitrary()
    }
}

} // verus!
