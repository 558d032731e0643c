//! Character-level helpers shared by the validators and value parsers:
//! string comparison, digit runs, and canonical decimal numbers.

use vstd::prelude::*;
use vstd::string::StrSliceExecFns;

verus! {

/// Are the two string slices equal character for character?
pub fn str_eq(a: &str, b: &str) -> (r: bool)
    ensures
        r == (a@ == b@),
{
    let n = a.unicode_len();
    if n != b.unicode_len() {
        return false;
    }
    for i in 0..n
        invariant
            a@.len() == n,
            b@.len() == n,
            forall|j: int| 0 <= j < i ==> a@[j] == b@[j],
        decreases n - i,
    {
        if a.get_char(i) != b.get_char(i) {
            return false;
        }
    }
    proof {
        assert(a@ =~= b@);
    }
    true
}

/// The segments of `s` between occurrences of the separator, in order.
///
/// The empty string has one empty segment; a leading or trailing
/// separator contributes an empty segment on its side.
pub open spec fn char_split(s: Seq<char>, sep: char) -> Seq<Seq<char>>
    decreases s.len(),
{
    if s.len() == 0 {
        seq![Seq::<char>::empty()]
    } else {
        let rest = char_split(s.drop_last(), sep);
        if s.last() == sep {
            rest.push(Seq::empty())
        } else {
            rest.update(rest.len() - 1, rest.last().push(s.last()))
        }
    }
}

/// A split always yields at least one segment.
pub proof fn lemma_char_split_nonempty(s: Seq<char>, sep: char)
    ensures
        char_split(s, sep).len() >= 1,
    decreases s.len(),
{
    if s.len() != 0 {
        lemma_char_split_nonempty(s.drop_last(), sep);
    }
}

/// Splits `value` into the segments between occurrences of `sep`.
pub fn split_char(value: &str, sep: char) -> (r: Vec<String>)
    ensures
        r@.len() == char_split(value@, sep).len(),
        forall|i: int| 0 <= i < r@.len() ==> (#[trigger] r@[i])@ == char_split(value@, sep)[i],
{
    let n = value.unicode_len();
    let mut done: Vec<String> = Vec::new();
    let mut seg_start: usize = 0;
    for i in 0..n
        invariant
            n == value@.len(),
            seg_start <= i <= n,
            done@.len() + 1 == char_split(value@.take(i as int), sep).len(),
            forall|j: int| 0 <= j < done@.len() ==> (#[trigger] done@[j])@ == char_split(
                value@.take(i as int),
                sep,
            )[j],
            char_split(value@.take(i as int), sep).last() == value@.subrange(
                seg_start as int,
                i as int,
            ),
        decreases n - i,
    {
        proof {
            let s = value@;
            assert(s.take(i + 1).drop_last() =~= s.take(i as int));
            assert(s.take(i + 1).last() == s[i as int]);
            lemma_char_split_nonempty(s.take(i as int), sep);
            if s[i as int] != sep {
                assert(s.subrange(seg_start as int, i + 1) =~= s.subrange(
                    seg_start as int,
                    i as int,
                ).push(s[i as int]));
            }
        }
        let c = value.get_char(i);
        if c == sep {
            let seg = value.substring_char(seg_start, i);
            done.push(seg.to_owned());
            seg_start = i + 1;
        }
    }
    proof {
        assert(value@.take(n as int) =~= value@);
        lemma_char_split_nonempty(value@, sep);
    }
    let seg = value.substring_char(seg_start, n);
    done.push(seg.to_owned());
    done
}

/// Is `c` a decimal digit?
pub open spec fn is_digit_char(c: char) -> bool {
    48 <= c as u32 <= 57
}

/// The numeric value of a digit character.
pub open spec fn digit_char_val(c: char) -> int {
    c as u32 - 48
}

/// Is every character of `s` a decimal digit?
pub open spec fn all_digit_chars(s: Seq<char>) -> bool {
    forall|i: int| 0 <= i < s.len() ==> is_digit_char(#[trigger] s[i])
}

/// The numeric value of a digit string, read most significant first.
pub open spec fn digits_val(s: Seq<char>) -> int
    decreases s.len(),
{
    if s.len() == 0 {
        0
    } else {
        digits_val(s.drop_last()) * 10 + digit_char_val(s.last())
    }
}

/// Is `s` the canonical decimal spelling of some number: nonempty, all
/// digits, and without a superfluous leading zero?
pub open spec fn canonical_digits(s: Seq<char>) -> bool {
    &&& s.len() > 0
    &&& all_digit_chars(s)
    &&& (s.len() == 1 || digit_char_val(s[0]) != 0)
}

/// Ten to the `n`th power.
pub open spec fn pow10(n: nat) -> int
    decreases n,
{
    if n == 0 {
        1
    } else {
        10 * pow10((n - 1) as nat)
    }
}

/// A digit string's value is bounded by the power of ten of its length.
pub proof fn lemma_digits_val_upper(s: Seq<char>)
    requires
        all_digit_chars(s),
    ensures
        0 <= digits_val(s) < pow10(s.len()),
    decreases s.len(),
{
    if s.len() > 0 {
        lemma_digits_val_upper(s.drop_last());
    }
}

/// A digit string without a leading zero reaches the power of ten of its
/// length less one.
pub proof fn lemma_digits_val_lower(s: Seq<char>)
    requires
        all_digit_chars(s),
        s.len() >= 1,
        digit_char_val(s[0]) != 0,
    ensures
        digits_val(s) >= pow10((s.len() - 1) as nat),
    decreases s.len(),
{
    if s.len() > 1 {
        assert(s.drop_last()[0] == s[0]);
        lemma_digits_val_lower(s.drop_last());
        assert(pow10((s.len() - 1) as nat) == 10 * pow10((s.len() - 2) as nat));
        assert(digit_char_val(s.last()) >= 0);
    } else {
        assert(digits_val(s) == digits_val(s.drop_last()) * 10 + digit_char_val(s.last()));
        assert(digit_char_val(s[0]) >= 1);
    }
}

/// Every power of ten is positive.
pub proof fn lemma_pow10_pos(n: nat)
    ensures
        pow10(n) >= 1,
    decreases n,
{
    if n > 0 {
        lemma_pow10_pos((n - 1) as nat);
    }
}

/// The first position at or after `from` whose character is not a digit
/// (or the end of `s`).
pub open spec fn digit_run_end(s: Seq<char>, from: int) -> int
    decreases s.len() - from,
{
    if from < 0 || from >= s.len() || !is_digit_char(s[from]) {
        from
    } else {
        digit_run_end(s, from + 1)
    }
}

/// The digit run starting at `from` stays within `s` and consists of
/// digits only.
pub proof fn lemma_digit_run_end_props(s: Seq<char>, from: int)
    requires
        0 <= from <= s.len(),
    ensures
        from <= digit_run_end(s, from) <= s.len(),
        forall|i: int| from <= i < digit_run_end(s, from) ==> is_digit_char(#[trigger] s[i]),
    decreases s.len() - from,
{
    if from < s.len() && is_digit_char(s[from]) {
        lemma_digit_run_end_props(s, from + 1);
    }
}

/// Finds the end of the digit run of `s` that starts at `from`.
pub fn digit_run_end_exec(s: &str, from: usize) -> (r: usize)
    requires
        from <= s@.len(),
    ensures
        r == digit_run_end(s@, from as int),
        from <= r <= s@.len(),
{
    let n = s.unicode_len();
    let mut i = from;
    loop
        invariant
            from <= i <= n,
            n == s@.len(),
            digit_run_end(s@, from as int) == digit_run_end(s@, i as int),
        ensures
            from <= i <= n,
            i as int == digit_run_end(s@, from as int),
        decreases n - i,
    {
        if i == n {
            proof {
                assert(digit_run_end(s@, i as int) == i);
            }
            break;
        }
        let c = s.get_char(i);
        let u = c as u32;
        if u < 48 || u > 57 {
            proof {
                assert(!is_digit_char(s@[i as int]));
                assert(digit_run_end(s@, i as int) == i);
            }
            break;
        }
        i += 1;
    }
    i
}

/// Parses `s[from..to]` as a canonical decimal number of at most nine
/// digits; yields nothing when the span is not canonical or too long.
pub fn parse_digits_u32(s: &str, from: usize, to: usize) -> (r: Option<u32>)
    requires
        from <= to <= s@.len(),
    ensures
        ({
            let span = s@.subrange(from as int, to as int);
            &&& (canonical_digits(span) && span.len() <= 9) ==> r == Some(digits_val(span) as u32)
            &&& !(canonical_digits(span) && span.len() <= 9) ==> r is None
        }),
{
    let ghost span = s@.subrange(from as int, to as int);
    let len = to - from;
    if len == 0 || len > 9 {
        return None;
    }
    let mut val: u32 = 0;
    let mut i = from;
    while i < to
        invariant
            from <= i <= to <= s@.len(),
            to - from <= 9,
            span == s@.subrange(from as int, to as int),
            all_digit_chars(s@.subrange(from as int, i as int)),
            val == digits_val(s@.subrange(from as int, i as int)),
            val < pow10((i - from) as nat),
        decreases to - i,
    {
        let c = s.get_char(i);
        let u = c as u32;
        if u < 48 || u > 57 {
            proof {
                assert(span[i - from] == s@[i as int]);
                assert(!is_digit_char(span[i - from]));
            }
            return None;
        }
        proof {
            let pre = s@.subrange(from as int, i as int);
            let ext = s@.subrange(from as int, i + 1);
            assert(ext.drop_last() =~= pre);
            assert(ext.last() == s@[i as int]);
            lemma_digits_val_upper(ext);
            lemma_pow10_monotone((i - from as int) as nat, 8);
            assert(pow10(8) == 100000000) by {
                reveal_with_fuel(pow10, 9);
            }
        }
        val = val * 10 + (u - 48);
        i += 1;
    }
    proof {
        assert(span =~= s@.subrange(from as int, to as int));
        assert(s@.subrange(from as int, to as int) == span);
    }
    if len >= 2 && (s.get_char(from) as u32) == 48 {
        proof {
            assert(span[0] == s@[from as int]);
        }
        return None;
    }
    proof {
        assert(span[0] == s@[from as int]);
    }
    Some(val)
}

/// Parses `s[from..to]` as a plain digit string of at most nine digits,
/// leading zeros permitted; yields nothing otherwise.
pub fn parse_digits_loose(s: &str, from: usize, to: usize) -> (r: Option<u32>)
    requires
        from <= to <= s@.len(),
    ensures
        ({
            let span = s@.subrange(from as int, to as int);
            &&& (all_digit_chars(span) && 1 <= span.len() <= 9) ==> r == Some(
                digits_val(span) as u32,
            )
            &&& !(all_digit_chars(span) && 1 <= span.len() <= 9) ==> r is None
        }),
{
    let ghost span = s@.subrange(from as int, to as int);
    let len = to - from;
    if len == 0 || len > 9 {
        return None;
    }
    let mut val: u32 = 0;
    let mut i = from;
    while i < to
        invariant
            from <= i <= to <= s@.len(),
            to - from <= 9,
            span == s@.subrange(from as int, to as int),
            all_digit_chars(s@.subrange(from as int, i as int)),
            val == digits_val(s@.subrange(from as int, i as int)),
            val < pow10((i - from) as nat),
        decreases to - i,
    {
        let c = s.get_char(i);
        let u = c as u32;
        if u < 48 || u > 57 {
            proof {
                assert(span[i - from] == s@[i as int]);
                assert(!is_digit_char(span[i - from]));
            }
            return None;
        }
        proof {
            let pre = s@.subrange(from as int, i as int);
            let ext = s@.subrange(from as int, i + 1);
            assert(ext.drop_last() =~= pre);
            assert(ext.last() == s@[i as int]);
            lemma_digits_val_upper(ext);
            lemma_pow10_monotone((i - from as int) as nat, 8);
            assert(pow10(8) == 100000000) by {
                reveal_with_fuel(pow10, 9);
            }
        }
        val = val * 10 + (u - 48);
        i += 1;
    }
    proof {
        assert(span =~= s@.subrange(from as int, to as int));
    }
    Some(val)
}

/// Ten to the `k`th power as a machine number, for small `k`.
pub fn pow10_u64(k: usize) -> (r: u64)
    requires
        k <= 6,
    ensures
        r == pow10(k as nat),
{
    proof {
        reveal_with_fuel(pow10, 7);
    }
    if k == 0 {
        1
    } else if k == 1 {
        10
    } else if k == 2 {
        100
    } else if k == 3 {
        1000
    } else if k == 4 {
        10000
    } else if k == 5 {
        100000
    } else {
        1000000
    }
}

/// The digit character of a value below ten.
pub open spec fn digit_of(v: nat) -> char
    recommends
        v < 10,
{
    ((v + 48) as u32) as char
}

/// The canonical decimal spelling of `v`: most significant digit first,
/// no superfluous leading zero.
pub open spec fn dec_digits(v: nat) -> Seq<char>
    decreases v,
{
    if v < 10 {
        seq![digit_of(v)]
    } else {
        dec_digits(v / 10).push(digit_of(v % 10))
    }
}

/// One digit as a string slice.
fn digit_str(d: u64) -> (r: &'static str)
    requires
        d <= 9,
    ensures
        r@ =~= seq![digit_of(d as nat)],
{
    proof {
        reveal_strlit("0");
        reveal_strlit("1");
        reveal_strlit("2");
        reveal_strlit("3");
        reveal_strlit("4");
        reveal_strlit("5");
        reveal_strlit("6");
        reveal_strlit("7");
        reveal_strlit("8");
        reveal_strlit("9");
    }
    if d == 0 {
        "0"
    } else if d == 1 {
        "1"
    } else if d == 2 {
        "2"
    } else if d == 3 {
        "3"
    } else if d == 4 {
        "4"
    } else if d == 5 {
        "5"
    } else if d == 6 {
        "6"
    } else if d == 7 {
        "7"
    } else if d == 8 {
        "8"
    } else {
        "9"
    }
}

/// Writes `v` in its canonical decimal spelling.
pub fn u64_to_dec_string(v: u64) -> (r: String)
    ensures
        r@ == dec_digits(v as nat),
    decreases v,
{
    if v < 10 {
        digit_str(v).to_owned()
    } else {
        let mut s = u64_to_dec_string(v / 10);
        s.append(digit_str(v % 10));
        s
    }
}

/// The canonical spelling of a number reads back as that number.
pub proof fn lemma_dec_digits_inverse(v: nat)
    ensures
        canonical_digits(dec_digits(v)),
        digits_val(dec_digits(v)) == v,
    decreases v,
{
    if v < 10 {
        assert(digit_of(v) as u32 == v + 48);
        assert(dec_digits(v)[0] == digit_of(v));
        assert(is_digit_char(dec_digits(v)[0]));
        assert(digits_val(dec_digits(v)) == digits_val(dec_digits(v).drop_last()) * 10
            + digit_char_val(dec_digits(v).last()));
        assert(dec_digits(v).drop_last() =~= Seq::<char>::empty());
    } else {
        assert(digit_of(v % 10) as u32 == v % 10 + 48);
        lemma_dec_digits_inverse(v / 10);
        let d = dec_digits(v);
        assert(d == dec_digits(v / 10).push(digit_of(v % 10)));
        assert(d.drop_last() =~= dec_digits(v / 10));
        assert(d[0] == dec_digits(v / 10)[0]);
        assert(forall|i: int|
            0 <= i < d.len() - 1 ==> #[trigger] d[i] == dec_digits(v / 10)[i]);
        assert(is_digit_char(d.last()));
        let sub = dec_digits(v / 10);
        if sub.len() == 1 {
            assert(digits_val(sub) == digits_val(sub.drop_last()) * 10 + digit_char_val(
                sub.last(),
            ));
            assert(sub.drop_last() =~= Seq::<char>::empty());
            assert(digit_char_val(sub[0]) == v / 10);
            assert(v / 10 >= 1);
        }
    }
}

/// Where a digit run provably ends: at the first non-digit, or at the
/// end of the string.
pub proof fn lemma_digit_run_end_exact(s: Seq<char>, from: int, to: int)
    requires
        0 <= from <= to <= s.len(),
        forall|i: int| from <= i < to ==> is_digit_char(#[trigger] s[i]),
        to == s.len() || !is_digit_char(s[to]),
    ensures
        digit_run_end(s, from) == to,
    decreases to - from,
{
    if from < to {
        lemma_digit_run_end_exact(s, from + 1, to);
    }
}

/// A string without the separator splits into itself alone.
pub proof fn lemma_char_split_no_sep(s: Seq<char>, sep: char)
    requires
        forall|i: int| 0 <= i < s.len() ==> #[trigger] s[i] != sep,
    ensures
        char_split(s, sep) =~~= seq![s],
    decreases s.len(),
{
    if s.len() == 0 {
        assert(s =~= Seq::<char>::empty());
    } else {
        lemma_char_split_no_sep(s.drop_last(), sep);
        assert(char_split(s, sep) == char_split(s.drop_last(), sep).update(
            0,
            s.drop_last().push(s.last()),
        ));
        assert(s.drop_last().push(s.last()) =~= s);
    }
}

/// Appending a separator and a separator-free segment appends one
/// segment to the split.
pub proof fn lemma_char_split_append(p: Seq<char>, seg: Seq<char>, sep: char)
    requires
        forall|i: int| 0 <= i < seg.len() ==> #[trigger] seg[i] != sep,
    ensures
        char_split(p + seq![sep] + seg, sep) =~~= char_split(p, sep).push(seg),
    decreases seg.len(),
{
    lemma_char_split_nonempty(p, sep);
    if seg.len() == 0 {
        let s = p + seq![sep] + seg;
        assert(s =~= p + seq![sep]);
        assert(seg =~= Seq::<char>::empty());
        assert((p + seq![sep]).drop_last() =~= p);
        assert((p + seq![sep]).last() == sep);
    } else {
        lemma_char_split_append(p, seg.drop_last(), sep);
        let s = p + seq![sep] + seg;
        assert(s.drop_last() =~= p + seq![sep] + seg.drop_last());
        assert(s.last() == seg.last());
        let prev = char_split(p + seq![sep] + seg.drop_last(), sep);
        assert(prev =~= char_split(p, sep).push(seg.drop_last()));
        assert(char_split(s, sep) == prev.update(prev.len() - 1, prev.last().push(seg.last())));
        assert(prev.last() == seg.drop_last());
        assert(seg.drop_last().push(seg.last()) =~= seg);
    }
}

/// Leading zeros do not change a digit string's value.
pub proof fn lemma_digits_val_zero_prefix(pad: Seq<char>, t: Seq<char>)
    requires
        forall|i: int| 0 <= i < pad.len() ==> digit_char_val(#[trigger] pad[i]) == 0,
    ensures
        digits_val(pad + t) == digits_val(t),
    decreases t.len(),
{
    if t.len() == 0 {
        assert(pad + t =~= pad);
        lemma_digits_val_all_zeros(pad);
    } else {
        lemma_digits_val_zero_prefix(pad, t.drop_last());
        assert((pad + t).drop_last() =~= pad + t.drop_last());
        assert((pad + t).last() == t.last());
    }
}

/// A string of zeros has value zero.
pub proof fn lemma_digits_val_all_zeros(pad: Seq<char>)
    requires
        forall|i: int| 0 <= i < pad.len() ==> digit_char_val(#[trigger] pad[i]) == 0,
    ensures
        digits_val(pad) == 0,
    decreases pad.len(),
{
    if pad.len() > 0 {
        lemma_digits_val_all_zeros(pad.drop_last());
    }
}

/// `pow10` grows with its exponent.
pub proof fn lemma_pow10_monotone(a: nat, b: nat)
    requires
        a <= b,
    ensures
        pow10(a) <= pow10(b),
    decreases b,
{
    if a < b {
        lemma_pow10_monotone(a, (b - 1) as nat);
        lemma_pow10_pos((b - 1) as nat);
    }
}

} // verus!

