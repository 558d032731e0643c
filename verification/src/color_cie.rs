//! CIE 1931 color coordinates of an attribute, written in documents as
//! three decimal numbers separated by commas.
//!
//! Each coordinate is stored exactly, in millionths: the document's
//! decimals carry at most six fractional digits.

use vstd::prelude::*;
use vstd::string::StrSliceExecFns;

use crate::error::{ErrorKind, GdtfError};
use crate::text::{
    all_digit_chars, char_split, digits_val, lemma_digits_val_upper, lemma_pow10_monotone,
    parse_digits_loose, pow10, pow10_u64, split_char,
};

verus! {

/// CIE 1931 color coordinates `x`, `y` and luminance `Y`, each stored in
/// millionths of the document's decimal value.
#[derive(Debug, Clone, Copy, PartialEq, Eq, Structural)]
pub struct ColorCIE {
    /// The `x` coordinate, in millionths.
    pub x: u64,
    /// The `y` coordinate, in millionths.
    pub y: u64,
    /// The luminance `Y`, in millionths.
    pub luminance: u64,
}

/// The value of one decimal coordinate, in millionths: an integer part
/// of digits (leading zeros permitted), optionally followed by `.` and
/// a fractional part of digits, at least one of the two nonempty.
///
/// The grammar is bounded deliberately: at most nine integer digits and
/// six fractional digits, and no exponent forms — enough for every
/// coordinate the serializer writes, and for the documents' plain
/// decimals; anything beyond is a conversion failure.
pub open spec fn decimal_micros(s: Seq<char>) -> Option<int> {
    let parts = char_split(s, '.');
    if parts.len() == 1 && all_digit_chars(parts[0]) && 1 <= parts[0].len() <= 9 {
        Some(digits_val(parts[0]) * 1000000)
    } else if parts.len() == 2 && all_digit_chars(parts[0]) && parts[0].len() <= 9
        && all_digit_chars(parts[1]) && parts[1].len() <= 6 && parts[0].len() + parts[1].len()
        >= 1 {
        Some(
            digits_val(parts[0]) * 1000000 + digits_val(parts[1]) * pow10(
                (6 - parts[1].len()) as nat,
            ),
        )
    } else {
        None
    }
}

/// What constructing color coordinates from `s` yields: exactly three
/// comma-separated decimal coordinates, or nothing.
pub open spec fn color_of(s: Seq<char>) -> Option<ColorCIE> {
    let parts = char_split(s, ',');
    if parts.len() == 3 {
        match (decimal_micros(parts[0]), decimal_micros(parts[1]), decimal_micros(parts[2])) {
            (Some(x), Some(y), Some(l)) => Some(
                ColorCIE { x: x as u64, y: y as u64, luminance: l as u64 },
            ),
            _ => None,
        }
    } else {
        None
    }
}

/// Parses one decimal coordinate into millionths.
fn parse_decimal_micros(seg: &str) -> (r: Option<u64>)
    ensures
        match decimal_micros(seg@) {
            Some(v) => r matches Some(u) && u == v,
            None => r is None,
        },
{
    proof {
        assert(pow10(9) == 1000000000 && pow10(6) == 1000000) by {
            reveal_with_fuel(pow10, 10);
        }
    }
    let parts = split_char(seg, '.');
    if parts.len() == 1 {
        let p0 = &parts[0];
        let n0 = p0.as_str().unicode_len();
        proof {
            assert(p0@.subrange(0, n0 as int) =~= p0@);
        }
        match parse_digits_loose(p0.as_str(), 0, n0) {
            Some(v) => {
                proof {
                    lemma_digits_val_upper(p0@);
                    lemma_pow10_monotone(p0@.len(), 9);
                }
                Some((v as u64) * 1000000)
            },
            None => None,
        }
    } else if parts.len() == 2 {
        let n0 = parts[0].as_str().unicode_len();
        proof {
            assert(parts@[0]@.subrange(0, n0 as int) =~= parts@[0]@);
        }
        if n0 > 9 {
            return None;
        }
        let whole: u32 = if n0 == 0 {
            0
        } else {
            match parse_digits_loose(parts[0].as_str(), 0, n0) {
                Some(v) => v,
                None => {
                    return None;
                },
            }
        };
        let n1 = parts[1].as_str().unicode_len();
        proof {
            assert(parts@[1]@.subrange(0, n1 as int) =~= parts@[1]@);
        }
        if n1 > 6 {
            return None;
        }
        let frac: u32 = if n1 == 0 {
            0
        } else {
            match parse_digits_loose(parts[1].as_str(), 0, n1) {
                Some(v) => v,
                None => {
                    return None;
                },
            }
        };
        if n0 == 0 && n1 == 0 {
            return None;
        }
        proof {
            lemma_digits_val_upper(parts@[0]@);
            lemma_pow10_monotone(parts@[0]@.len(), 9);
            lemma_digits_val_upper(parts@[1]@);
            lemma_pow10_monotone(parts@[1]@.len(), 6);
            lemma_pow10_monotone((6 - n1 as int) as nat, 6);
        }
        let mult = pow10_u64(6 - n1);
        proof {
            vstd::arithmetic::mul::lemma_mul_upper_bound(frac as int, 999999, mult as int, 1000000);
        }
        Some((whole as u64) * 1000000 + (frac as u64) * mult)
    } else {
        None
    }
}

impl ColorCIE {
    /// Validating constructor from the document spelling.
    pub fn new_from_str(value: &str) -> (r: Result<ColorCIE, GdtfError>)
        ensures
            color_of(value@) matches Some(c) ==> (r matches Ok(v) && v == c),
            color_of(value@) is None ==> (r matches Err(e) && e.kind()
                == ErrorKind::ValueConversion),
    {
        let parts = split_char(value, ',');
        if parts.len() != 3 {
            return Err(GdtfError::ValueConversionFailure(value.to_owned()));
        }
        let x = match parse_decimal_micros(parts[0].as_str()) {
            Some(v) => v,
            None => {
                return Err(GdtfError::ValueConversionFailure(value.to_owned()));
            },
        };
        let y = match parse_decimal_micros(parts[1].as_str()) {
            Some(v) => v,
            None => {
                return Err(GdtfError::ValueConversionFailure(value.to_owned()));
            },
        };
        let luminance = match parse_decimal_micros(parts[2].as_str()) {
            Some(v) => v,
            None => {
                return Err(GdtfError::ValueConversionFailure(value.to_owned()));
            },
        };
        Ok(ColorCIE { x, y, luminance })
    }
}

impl TryFrom<&str> for ColorCIE {
    type Error = GdtfError;

    /// As [`ColorCIE::new_from_str`], which carries the contract.
    fn try_from(value: &str) -> Result<Self, Self::Error> {
        Self::new_from_str(value)
    }
}

impl vstd::std_specs::convert::TryFromSpecImpl<&str> for ColorCIE {
    open spec fn obeys_try_from_spec() -> bool {
        false
    }

    open spec fn try_from_spec(v: &str) -> Result<Self, GdtfError> {
        vstd::pervasive::arbitrary()
    }
}

/// A value below ten to the `k` has at most `k` digits.
pub proof fn lemma_dec_digits_len_le(v: nat, k: nat)
    requires
        k >= 1,
        v < pow10(k),
    ensures
        crate::text::dec_digits(v).len() <= k,
    decreases k,
{
    if v >= 10 {
        assert(pow10(k) == 10 * pow10((k - 1) as nat));
        lemma_dec_digits_len_le(v / 10, (k - 1) as nat);
    }
}

/// The six fractional digits of a value in millionths, zero padded on
/// the left.
pub open spec fn frac6_text(v: nat) -> Seq<char>
    recommends
        v < 1000000,
{
    Seq::new((6 - crate::text::dec_digits(v).len()) as nat, |i: int| '0') + crate::text::dec_digits(
        v,
    )
}

/// The document spelling of a coordinate stored in millionths.
pub open spec fn decimal_text(v: nat) -> Seq<char> {
    crate::text::dec_digits(v / 1000000) + seq!['.'] + frac6_text(v % 1000000)
}

/// The document spelling of color coordinates.
pub open spec fn color_text(c: ColorCIE) -> Seq<char> {
    decimal_text(c.x as nat) + seq![','] + decimal_text(c.y as nat) + seq![','] + decimal_text(
        c.luminance as nat,
    )
}

/// Writes the six fractional digits of `v`, zero padded.
fn frac6_string(v: u64) -> (r: String)
    requires
        v < 1000000,
    ensures
        r@ == frac6_text(v as nat),
{
    proof {
        assert(pow10(6) == 1000000) by {
            reveal_with_fuel(pow10, 7);
        }
        lemma_dec_digits_len_le(v as nat, 6);
        reveal_strlit("0");
    }
    let ds = crate::text::u64_to_dec_string(v);
    let n = ds.as_str().unicode_len();
    let mut s = String::new();
    let mut k = n;
    while k < 6
        invariant
            n == crate::text::dec_digits(v as nat).len(),
            n <= k <= 6,
            ds@ == crate::text::dec_digits(v as nat),
            s@ =~= Seq::new((k - n) as nat, |i: int| '0'),
            "0"@ =~= seq!['0'],
        decreases 6 - k,
    {
        s.append("0");
        proof {
            assert(s@ =~= Seq::new((k + 1 - n) as nat, |i: int| '0'));
        }
        k += 1;
    }
    s.append(ds.as_str());
    s
}

/// Writes a coordinate stored in millionths in its document spelling.
fn decimal_micros_string(v: u64) -> (r: String)
    ensures
        r@ == decimal_text(v as nat),
{
    let mut s = crate::text::u64_to_dec_string(v / 1000000);
    s.append(".");
    proof {
        reveal_strlit(".");
        assert("."@ =~= seq!['.']);
    }
    s.append(frac6_string(v % 1000000).as_str());
    s
}

/// Every character of a written coordinate is a digit or the decimal
/// point.
proof fn lemma_decimal_text_chars(v: nat)
    ensures
        forall|i: int|
            0 <= i < decimal_text(v).len() ==> (crate::text::is_digit_char(
                #[trigger] decimal_text(v)[i],
            ) || decimal_text(v)[i] == '.'),
{
    crate::text::lemma_dec_digits_inverse(v / 1000000);
    crate::text::lemma_dec_digits_inverse(v % 1000000);
    assert(crate::text::pow10(6) == 1000000) by {
        reveal_with_fuel(crate::text::pow10, 7);
    }
    lemma_dec_digits_len_le((v % 1000000) as nat, 6);
    let d = crate::text::dec_digits(v / 1000000);
    let f = frac6_text(v % 1000000);
    let s = decimal_text(v);
    assert forall|i: int| 0 <= i < s.len() implies (crate::text::is_digit_char(#[trigger] s[i])
        || s[i] == '.') by {
        if i < d.len() {
            assert(s[i] == d[i]);
        } else if i == d.len() {
            assert(s[i] == '.');
        } else {
            assert(s[i] == f[i - d.len() - 1]);
            let k = i - d.len() - 1;
            if k < 6 - crate::text::dec_digits(v % 1000000).len() {
                assert(f[k] == '0');
            } else {
                assert(f[k] == crate::text::dec_digits(v % 1000000)[k - (6 - crate::text::dec_digits(
                    v % 1000000,
                ).len())]);
            }
        }
    }
}

/// A written coordinate reads back as its value, for coordinates small
/// enough to write within nine integer digits.
proof fn lemma_decimal_micros_inverse(v: nat)
    requires
        v < 1000000000000000,
    ensures
        decimal_micros(decimal_text(v)) == Some(v as int),
{
    crate::text::lemma_dec_digits_inverse(v / 1000000);
    crate::text::lemma_dec_digits_inverse(v % 1000000);
    let d = crate::text::dec_digits(v / 1000000);
    let f = frac6_text(v % 1000000);
    let fd = crate::text::dec_digits(v % 1000000);
    assert(crate::text::pow10(6) == 1000000 && crate::text::pow10(9) == 1000000000
        && crate::text::pow10(0) == 1) by {
        reveal_with_fuel(crate::text::pow10, 10);
    }
    lemma_dec_digits_len_le((v / 1000000) as nat, 9);
    lemma_dec_digits_len_le((v % 1000000) as nat, 6);
    // The split on the decimal point has exactly the two written parts.
    assert(forall|i: int| 0 <= i < d.len() ==> #[trigger] d[i] != '.');
    let pad = Seq::new((6 - fd.len()) as nat, |i: int| '0');
    assert(forall|i: int| 0 <= i < f.len() ==> #[trigger] f[i] != '.') by {
        assert forall|i: int| 0 <= i < f.len() implies #[trigger] f[i] != '.' by {
            if i < pad.len() {
                assert(f[i] == '0');
            } else {
                assert(f[i] == fd[i - pad.len()]);
            }
        }
    }
    crate::text::lemma_char_split_no_sep(d, '.');
    crate::text::lemma_char_split_append(d, f, '.');
    assert(decimal_text(v) =~= d + seq!['.'] + f);
    let parts = crate::text::char_split(decimal_text(v), '.');
    assert(parts =~~= seq![d, f]);
    // The fractional part is six digits whose value is the remainder.
    assert(forall|i: int| 0 <= i < pad.len() ==> crate::text::digit_char_val(#[trigger] pad[i]) == 0);
    crate::text::lemma_digits_val_zero_prefix(pad, fd);
    assert(f.len() == 6);
    assert(crate::text::all_digit_chars(f)) by {
        assert forall|i: int| 0 <= i < f.len() implies crate::text::is_digit_char(
            #[trigger] f[i],
        ) by {
            if i < pad.len() {
                assert(f[i] == '0');
            } else {
                assert(f[i] == fd[i - pad.len()]);
            }
        }
    }
    assert(crate::text::digits_val(f) == v % 1000000);
    assert(crate::text::digits_val(d) * 1000000 + crate::text::digits_val(f) * crate::text::pow10(
        (6 - f.len()) as nat,
    ) == v);
}

/// Writing color coordinates and reading them back yields the same
/// coordinates, for coordinates small enough to write exactly.
pub proof fn lemma_color_text_round_trip(c: ColorCIE)
    requires
        c.x < 1000000000000000,
        c.y < 1000000000000000,
        c.luminance < 1000000000000000,
    ensures
        color_of(color_text(c)) == Some(c),
{
    lemma_decimal_text_chars(c.x as nat);
    lemma_decimal_text_chars(c.y as nat);
    lemma_decimal_text_chars(c.luminance as nat);
    let dx = decimal_text(c.x as nat);
    let dy = decimal_text(c.y as nat);
    let dl = decimal_text(c.luminance as nat);
    assert(forall|i: int| 0 <= i < dx.len() ==> #[trigger] dx[i] != ',');
    assert(forall|i: int| 0 <= i < dy.len() ==> #[trigger] dy[i] != ',');
    assert(forall|i: int| 0 <= i < dl.len() ==> #[trigger] dl[i] != ',');
    crate::text::lemma_char_split_no_sep(dx, ',');
    crate::text::lemma_char_split_append(dx, dy, ',');
    crate::text::lemma_char_split_append(dx + seq![','] + dy, dl, ',');
    assert(color_text(c) =~= (dx + seq![','] + dy) + seq![','] + dl);
    let parts = crate::text::char_split(color_text(c), ',');
    assert(parts =~~= seq![dx, dy, dl]);
    lemma_decimal_micros_inverse(c.x as nat);
    lemma_decimal_micros_inverse(c.y as nat);
    lemma_decimal_micros_inverse(c.luminance as nat);
}

impl ColorCIE {
    /// The document spelling of these coordinates: each value with six
    /// fractional digits, separated by commas.
    pub fn text(&self) -> (r: String)
        ensures
            r@ == color_text(*self),
    {
        proof {
            reveal_strlit(",");
            assert(","@ =~= seq![',']);
        }
        let mut s = decimal_micros_string(self.x);
        s.append(",");
        s.append(decimal_micros_string(self.y).as_str());
        s.append(",");
        s.append(decimal_micros_string(self.luminance).as_str());
        s
    }
}

} // verus!
