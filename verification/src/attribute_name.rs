//! Names of fixture attributes: either the predefined numeric pattern
//! `Effects(n)Adjust(m)` or a user-defined name kept verbatim.

use vstd::prelude::*;
use vstd::string::StrSliceExecFns;

use crate::error::{ErrorKind, GdtfError};
use crate::name::{valid_name, Name};
use crate::text::{
    canonical_digits, digit_run_end, digit_run_end_exec, digits_val, lemma_digit_run_end_props,
    lemma_digits_val_lower, lemma_pow10_monotone, parse_digits_u32, pow10, str_eq,
};

verus! {

/// Abstract value of an [`AttributeName`].
#[allow(non_camel_case_types)]
pub enum AttributeNameV {
    UserDefined(Seq<char>),
    Effects_n_Adjust_m_(u8, u8),
}

/// The name of a fixture attribute.
///
/// The predefined pattern `Effects(n)Adjust(m)` is recognized during
/// construction; every other string is kept as a user-defined name.
#[allow(non_camel_case_types)]
#[derive(Debug)]
pub enum AttributeName {
    /// A name outside the predefined pattern, kept verbatim.
    UserDefined(Name),
    /// The predefined pattern `Effects(n)Adjust(m)`.
    Effects_n_Adjust_m_(u8, u8),
}

impl View for AttributeName {
    type V = AttributeNameV;

    open spec fn view(&self) -> AttributeNameV {
        match self {
            AttributeName::UserDefined(n) => AttributeNameV::UserDefined(n@),
            AttributeName::Effects_n_Adjust_m_(n, m) => AttributeNameV::Effects_n_Adjust_m_(
                *n,
                *m,
            ),
        }
    }
}

impl Clone for AttributeName {
    fn clone(&self) -> (r: Self)
        ensures
            r@ == self@,
    {
        match self {
            AttributeName::UserDefined(n) => AttributeName::UserDefined(n.clone()),
            AttributeName::Effects_n_Adjust_m_(n, m) => AttributeName::Effects_n_Adjust_m_(*n, *m),
        }
    }
}

impl PartialEq for AttributeName {
    fn eq(&self, other: &Self) -> (r: bool) {
        match (self, other) {
            (AttributeName::UserDefined(a), AttributeName::UserDefined(b)) => a == b,
            (
                AttributeName::Effects_n_Adjust_m_(a, b),
                AttributeName::Effects_n_Adjust_m_(c, d),
            ) => a == c && b == d,
            _ => false,
        }
    }
}

impl vstd::std_specs::cmp::PartialEqSpecImpl for AttributeName {
    open spec fn obeys_eq_spec() -> bool {
        true
    }

    open spec fn eq_spec(&self, other: &Self) -> bool {
        self@ == other@
    }
}

/// The parameters of the `Effects(n)Adjust(m)` pattern, when `s` matches
/// it exactly: the pattern word `Effects`, a canonical decimal that fits
/// in a byte, the pattern word `Adjust`, and a second such decimal.
pub open spec fn effects_params(s: Seq<char>) -> Option<(u8, u8)> {
    if s.len() < 7 || s.subrange(0, 7) != "Effects"@ {
        None
    } else {
        let i = digit_run_end(s, 7);
        let num1 = s.subrange(7, i);
        if !(canonical_digits(num1) && digits_val(num1) <= 255) {
            None
        } else if i + 6 > s.len() || s.subrange(i, i + 6) != "Adjust"@ {
            None
        } else {
            let j = digit_run_end(s, i + 6);
            let num2 = s.subrange(i + 6, j);
            if j == s.len() && canonical_digits(num2) && digits_val(num2) <= 255 {
                Some((digits_val(num1) as u8, digits_val(num2) as u8))
            } else {
                None
            }
        }
    }
}

/// What constructing an attribute name from `s` yields.
pub open spec fn attr_name_of(s: Seq<char>) -> AttributeNameV {
    match effects_params(s) {
        Some(p) => AttributeNameV::Effects_n_Adjust_m_(p.0, p.1),
        None => AttributeNameV::UserDefined(s),
    }
}

/// A canonical decimal of more than nine digits is far larger than a byte.
proof fn lemma_long_digits_exceed_byte(num: Seq<char>)
    requires
        canonical_digits(num),
        num.len() > 9,
    ensures
        digits_val(num) > 255,
{
    lemma_digits_val_lower(num);
    lemma_pow10_monotone(3, (num.len() - 1) as nat);
    assert(pow10(3) == 1000) by {
        reveal_with_fuel(pow10, 4);
    }
}

impl AttributeName {
    /// Recognizes the `Effects(n)Adjust(m)` pattern.
    fn match_effects(value: &str) -> (r: Option<(u8, u8)>)
        ensures
            r == effects_params(value@),
    {
        let n = value.unicode_len();
        if n < 7 {
            return None;
        }
        if !str_eq(value.substring_char(0, 7), "Effects") {
            return None;
        }
        let i = digit_run_end_exec(value, 7);
        proof {
            lemma_digit_run_end_props(value@, 7);
        }
        let a = match parse_digits_u32(value, 7, i) {
            Some(v) => v,
            None => {
                proof {
                    let num1 = value@.subrange(7, i as int);
                    if canonical_digits(num1) && num1.len() > 9 {
                        lemma_long_digits_exceed_byte(num1);
                    }
                }
                return None;
            },
        };
        proof {
            let num1 = value@.subrange(7, i as int);
            crate::text::lemma_digits_val_upper(num1);
            lemma_pow10_monotone(num1.len(), 9);
            assert(pow10(9) == 1000000000) by {
                reveal_with_fuel(pow10, 10);
            }
        }
        if a > 255 {
            return None;
        }
        if n - i < 6 {
            return None;
        }
        if !str_eq(value.substring_char(i, i + 6), "Adjust") {
            return None;
        }
        let j = digit_run_end_exec(value, i + 6);
        if j != n {
            return None;
        }
        let b = match parse_digits_u32(value, i + 6, j) {
            Some(v) => v,
            None => {
                proof {
                    let num2 = value@.subrange(i + 6, j as int);
                    if canonical_digits(num2) && num2.len() > 9 {
                        lemma_long_digits_exceed_byte(num2);
                    }
                }
                return None;
            },
        };
        proof {
            let num2 = value@.subrange(i + 6, j as int);
            crate::text::lemma_digits_val_upper(num2);
            lemma_pow10_monotone(num2.len(), 9);
            assert(pow10(9) == 1000000000) by {
                reveal_with_fuel(pow10, 10);
            }
        }
        if b > 255 {
            return None;
        }
        Some((a as u8, b as u8))
    }

    /// Validating constructor: recognizes the predefined pattern, and
    /// otherwise accepts only strings that pass the name validator.
    pub fn new(value: &str) -> (r: Result<AttributeName, GdtfError>)
        ensures
            (effects_params(value@) is Some || valid_name(value@)) <==> (r matches Ok(a) && a@
                == attr_name_of(value@)),
            (effects_params(value@) is None && !valid_name(value@)) <==> (r matches Err(e)
                && e.kind() == ErrorKind::InvalidIdentifier),
    {
        match Self::match_effects(value) {
            Some((a, b)) => Ok(AttributeName::Effects_n_Adjust_m_(a, b)),
            None => match Name::new(value) {
                Ok(n) => Ok(AttributeName::UserDefined(n)),
                Err(e) => Err(e),
            },
        }
    }

    /// Permissive constructor: recognizes the predefined pattern, and
    /// otherwise keeps the string verbatim as a user-defined name.
    pub fn new_unchecked(value: &str) -> (r: AttributeName)
        ensures
            r@ == attr_name_of(value@),
    {
        match Self::match_effects(value) {
            Some((a, b)) => AttributeName::Effects_n_Adjust_m_(a, b),
            None => AttributeName::UserDefined(Name::new_unchecked(value)),
        }
    }
}

/// The document spelling of an attribute name.
pub open spec fn attr_name_text(v: AttributeNameV) -> Seq<char> {
    match v {
        AttributeNameV::UserDefined(s) => s,
        AttributeNameV::Effects_n_Adjust_m_(n, m) => "Effects"@ + crate::text::dec_digits(n as nat)
            + "Adjust"@ + crate::text::dec_digits(m as nat),
    }
}

impl AttributeName {
    /// The document spelling of this attribute name.
    pub fn text(&self) -> (r: String)
        ensures
            r@ == attr_name_text(self@),
    {
        match self {
            AttributeName::UserDefined(n) => n.as_str().to_owned(),
            AttributeName::Effects_n_Adjust_m_(n, m) => {
                let mut s = String::from_str("Effects");
                s.append(crate::text::u64_to_dec_string(*n as u64).as_str());
                s.append("Adjust");
                s.append(crate::text::u64_to_dec_string(*m as u64).as_str());
                s
            },
        }
    }
}

/// Writing an attribute name and reading it back yields the same name,
/// as long as a user-defined name does not itself spell the predefined
/// pattern.
pub proof fn lemma_attr_name_text_round_trip(v: AttributeNameV)
    requires
        v matches AttributeNameV::UserDefined(s) ==> effects_params(s) is None,
    ensures
        attr_name_of(attr_name_text(v)) == v,
{
    match v {
        AttributeNameV::UserDefined(s) => {},
        AttributeNameV::Effects_n_Adjust_m_(n, m) => {
            lemma_effects_form_parses(n, m);
        },
    }
}

/// A written attribute name contains no separator, as long as a
/// user-defined name contains none itself.
pub proof fn lemma_attr_name_text_no_dot(v: AttributeNameV)
    requires
        v matches AttributeNameV::UserDefined(s) ==> forall|j: int|
            0 <= j < s.len() ==> #[trigger] s[j] != '.',
    ensures
        forall|i: int|
            0 <= i < attr_name_text(v).len() ==> #[trigger] attr_name_text(v)[i] != '.',
{
    match v {
        AttributeNameV::UserDefined(s) => {},
        AttributeNameV::Effects_n_Adjust_m_(n, m) => {
            reveal_strlit("Effects");
            reveal_strlit("Adjust");
            assert("Effects"@.len() == 7);
            assert("Adjust"@.len() == 6);
            crate::text::lemma_dec_digits_inverse(n as nat);
            crate::text::lemma_dec_digits_inverse(m as nat);
            let dn = crate::text::dec_digits(n as nat);
            let dm = crate::text::dec_digits(m as nat);
            let t = attr_name_text(v);
            assert forall|i: int| 0 <= i < t.len() implies #[trigger] t[i] != '.' by {
                if i < 7 {
                    assert(t[i] == "Effects"@[i]);
                } else if i < 7 + dn.len() {
                    assert(t[i] == dn[i - 7]);
                    assert(crate::text::is_digit_char(dn[i - 7]));
                } else if i < 7 + dn.len() + 6 {
                    assert(t[i] == "Adjust"@[i - 7 - dn.len()]);
                } else {
                    assert(t[i] == dm[i - 13 - dn.len()]);
                    assert(crate::text::is_digit_char(dm[i - 13 - dn.len()]));
                }
            }
        },
    }
}

/// The spelled-out predefined pattern parses back to its parameters.
proof fn lemma_effects_form_parses(n: u8, m: u8)
    ensures
        effects_params(
            "Effects"@ + crate::text::dec_digits(n as nat) + "Adjust"@ + crate::text::dec_digits(
                m as nat,
            ),
        ) == Some((n, m)),
{
    reveal_strlit("Effects");
    reveal_strlit("Adjust");
    assert("Effects"@.len() == 7);
    assert("Adjust"@.len() == 6);
    assert("Adjust"@[0] == 'A');
    assert(!crate::text::is_digit_char('A'));
    crate::text::lemma_dec_digits_inverse(n as nat);
    crate::text::lemma_dec_digits_inverse(m as nat);
    let dn = crate::text::dec_digits(n as nat);
    let dm = crate::text::dec_digits(m as nat);
    let s = "Effects"@ + dn + "Adjust"@ + dm;
    assert(s.subrange(0, 7) =~= "Effects"@);
    let i = 7 + dn.len() as int;
    assert(forall|k: int| 7 <= k < i ==> crate::text::is_digit_char(#[trigger] s[k]));
    assert(s[i] == 'A');
    crate::text::lemma_digit_run_end_exact(s, 7, i);
    assert(s.subrange(7, i) =~= dn);
    crate::text::lemma_digits_val_upper(dn);
    assert(crate::text::digits_val(dn) <= 255);
    assert(s.subrange(i, i + 6) =~= "Adjust"@);
    let j = i + 6 + dm.len() as int;
    assert(j == s.len());
    assert(forall|k: int| i + 6 <= k < j ==> crate::text::is_digit_char(#[trigger] s[k]));
    crate::text::lemma_digit_run_end_exact(s, i + 6, j);
    assert(s.subrange(i + 6, j) =~= dm);
    crate::text::lemma_digits_val_upper(dm);
}

} // verus!
