//! Short identifier strings used as entity names and reference segments.
//!
//! A name is either *validated* (every character from the permitted set,
//! length within the fixed bound, checked at construction) or *unchecked*
//! (any string accepted verbatim, for permissive parsing of documents that
//! must still round-trip).

use vstd::prelude::*;
use vstd::string::StrSliceExecFns;

use crate::error::{ErrorKind, GdtfError};

verus! {

/// Greatest number of characters a validated name may hold.
pub const MAX_NAME_LENGTH: usize = 64;

/// Is `c` in the permitted character set for validated names?
///
/// Permitted are the printable ASCII characters from space up to `z`,
/// except the five punctuation marks between `Z` and `a` other than the
/// underscore.
pub open spec fn name_char_ok(c: char) -> bool {
    &&& 32 <= c as u32 <= 122
    &&& !(91 <= c as u32 <= 94)
    &&& c as u32 != 96
}

/// Do all characters of `s` belong to the permitted set?
pub open spec fn name_chars_ok(s: Seq<char>) -> bool {
    forall|i: int| 0 <= i < s.len() ==> #[trigger] name_char_ok(s[i])
}

/// Would `s` be accepted by the validating constructor?
pub open spec fn valid_name(s: Seq<char>) -> bool {
    s.len() <= MAX_NAME_LENGTH && name_chars_ok(s)
}

/// The `.`-separated segments of `s`, in order.
///
/// The empty string has one empty segment; a trailing or leading `.`
/// contributes an empty segment on its side.
pub open spec fn dot_split(s: Seq<char>) -> Seq<Seq<char>> {
    crate::text::char_split(s, '.')
}

/// A split always yields at least one segment.
pub proof fn lemma_dot_split_nonempty(s: Seq<char>)
    ensures
        dot_split(s).len() >= 1,
{
    crate::text::lemma_char_split_nonempty(s, '.');
}

/// A short name token used as a key or reference target.
#[derive(Debug)]
pub struct Name {
    raw: String,
}

impl View for Name {
    type V = Seq<char>;

    closed spec fn view(&self) -> Seq<char> {
        self.raw@
    }
}

impl Clone for Name {
    fn clone(&self) -> (r: Self)
        ensures
            r@ == self@,
    {
        Name { raw: self.raw.clone() }
    }
}

impl PartialEq for Name {
    fn eq(&self, other: &Self) -> (r: bool) {
        self.raw == other.raw
    }
}

impl vstd::std_specs::cmp::PartialEqSpecImpl for Name {
    open spec fn obeys_eq_spec() -> bool {
        true
    }

    open spec fn eq_spec(&self, other: &Self) -> bool {
        self@ == other@
    }
}

impl Default for Name {
    /// The zero value of a name: the empty identifier.
    fn default() -> (r: Self)
        ensures
            r@ == Seq::<char>::empty(),
    {
        Name { raw: String::new() }
    }
}

impl Name {
    /// Validating constructor: accepts `value` only if every character is
    /// permitted and the length is within the bound.
    pub fn new(value: &str) -> (r: Result<Name, GdtfError>)
        ensures
            valid_name(value@) <==> (r matches Ok(n) && n@ == value@),
            !valid_name(value@) <==> (r matches Err(e) && e.kind()
                == ErrorKind::InvalidIdentifier),
    {
        let n = value.unicode_len();
        if n > MAX_NAME_LENGTH {
            return Err(GdtfError::InvalidIdentifier(value.to_owned()));
        }
        for i in 0..n
            invariant
                n == value@.len(),
                forall|j: int| 0 <= j < i ==> #[trigger] name_char_ok(value@[j]),
            decreases n - i,
        {
            let c = value.get_char(i);
            let u = c as u32;
            if u < 32 || u > 122 || (91 <= u && u <= 94) || u == 96 {
                proof {
                    assert(!name_char_ok(value@[i as int]));
                }
                return Err(GdtfError::InvalidIdentifier(value.to_owned()));
            }
        }
        Ok(Name { raw: value.to_owned() })
    }

    /// Permissive constructor: accepts any string verbatim, without
    /// enforcing the character set or the length bound.
    pub fn new_unchecked(value: &str) -> (r: Name)
        ensures
            r@ == value@,
    {
        Name { raw: value.to_owned() }
    }

    /// Is this the empty identifier?
    pub fn is_empty(&self) -> (r: bool)
        ensures
            r == (self@.len() == 0),
    {
        self.raw.as_str().is_empty()
    }

    /// The name as a string slice.
    pub fn as_str(&self) -> (r: &str)
        ensures
            r@ == self@,
    {
        self.raw.as_str()
    }

    /// Splits `value` on `.` and takes every segment verbatim as an
    /// unchecked name.
    pub fn str_to_names_vec_unchecked(value: &str) -> (r: Vec<Name>)
        ensures
            r@.len() == dot_split(value@).len(),
            forall|i: int| 0 <= i < r@.len() ==> (#[trigger] r@[i])@ == dot_split(value@)[i],
    {
        let segments = crate::text::split_char(value, '.');
        let mut done: Vec<Name> = Vec::new();
        for i in 0..segments.len()
            invariant
                segments@.len() == dot_split(value@).len(),
                forall|j: int| 0 <= j < segments@.len() ==> (#[trigger] segments@[j])@ == dot_split(
                    value@,
                )[j],
                done@.len() == i,
                forall|j: int| 0 <= j < i ==> (#[trigger] done@[j])@ == dot_split(value@)[j],
            decreases segments@.len() - i,
        {
            done.push(Name::new_unchecked(segments[i].as_str()));
        }
        done
    }

    /// Splits `value` on `.` and validates every segment, failing on the
    /// first segment that the validating constructor rejects.
    pub fn str_to_names_vec(value: &str) -> (r: Result<Vec<Name>, GdtfError>)
        ensures
            (forall|i: int|
                0 <= i < dot_split(value@).len() ==> valid_name(
                    #[trigger] dot_split(value@)[i],
                )) ==> (r matches Ok(v) && v@.len() == dot_split(value@).len() && forall|i: int|
                0 <= i < v@.len() ==> (#[trigger] v@[i])@ == dot_split(value@)[i]),
            !(forall|i: int|
                0 <= i < dot_split(value@).len() ==> valid_name(#[trigger] dot_split(value@)[i]))
                ==> (r matches Err(e) && e.kind() == ErrorKind::InvalidIdentifier),
    {
        let parts = Self::str_to_names_vec_unchecked(value);
        for i in 0..parts.len()
            invariant
                parts@.len() == dot_split(value@).len(),
                forall|j: int| 0 <= j < parts@.len() ==> (#[trigger] parts@[j])@ == dot_split(
                    value@,
                )[j],
                forall|j: int| 0 <= j < i ==> valid_name(#[trigger] dot_split(value@)[j]),
            decreases parts@.len() - i,
        {
            if !parts[i].is_valid() {
                proof {
                    assert(!valid_name(dot_split(value@)[i as int]));
                }
                return Err(GdtfError::InvalidIdentifier(parts[i].as_str().to_owned()));
            }
        }
        Ok(parts)
    }

    /// Takes every string of `values` verbatim as an unchecked name.
    pub fn strs_to_names_vec_unchecked(values: Vec<&str>) -> (r: Vec<Name>)
        ensures
            r@.len() == values@.len(),
            forall|i: int| 0 <= i < r@.len() ==> (#[trigger] r@[i])@ == values@[i]@,
    {
        let mut done: Vec<Name> = Vec::new();
        for i in 0..values.len()
            invariant
                done@.len() == i,
                forall|j: int| 0 <= j < i ==> (#[trigger] done@[j])@ == values@[j]@,
            decreases values@.len() - i,
        {
            done.push(Name::new_unchecked(values[i]));
        }
        done
    }

    /// Does this name satisfy the validating constructor's rules?
    pub fn is_valid(&self) -> (r: bool)
        ensures
            r == valid_name(self@),
    {
        let n = self.raw.as_str().unicode_len();
        if n > MAX_NAME_LENGTH {
            return false;
        }
        for i in 0..n
            invariant
                n == self@.len(),
                forall|j: int| 0 <= j < i ==> #[trigger] name_char_ok(self@[j]),
            decreases n - i,
        {
            let c = self.raw.as_str().get_char(i);
            let u = c as u32;
            if u < 32 || u > 122 || (91 <= u && u <= 94) || u == 96 {
                proof {
                    assert(!name_char_ok(self@[i as int]));
                }
                return false;
            }
        }
        true
    }
}

impl TryFrom<&str> for Name {
    type Error = GdtfError;

    /// As [`Name::new`], which carries the contract.
    fn try_from(value: &str) -> Result<Self, Self::Error> {
        Self::new(value)
    }
}

impl vstd::std_specs::convert::TryFromSpecImpl<&str> for Name {
    open spec fn obeys_try_from_spec() -> bool {
        false
    }

    open spec fn try_from_spec(v: &str) -> Result<Self, GdtfError> {
        vstd::pervasive::arbitrary()
    }
}

} // verus!
