//! Helpers for writing entities back to markup: attribute pairs in the
//! exact shape the parser reads.

use vstd::prelude::*;

verus! {

/// One attribute as written inside a tag: a leading space, the key, and
/// the raw value between double quotes.
pub open spec fn attr_pair_text(key: Seq<char>, value: Seq<char>) -> Seq<char> {
    " "@ + key + "=\""@ + value + "\""@
}

/// An optional attribute: nothing when the value is absent.
pub open spec fn opt_attr_text(key: Seq<char>, value: Option<Seq<char>>) -> Seq<char> {
    match value {
        Some(v) => attr_pair_text(key, v),
        None => Seq::empty(),
    }
}

/// Appends one attribute pair to the output.
pub fn append_attr(out: &mut String, key: &str, value: &str)
    ensures
        final(out)@ == old(out)@ + attr_pair_text(key@, value@),
{
    out.append(" ");
    out.append(key);
    out.append("=\"");
    out.append(value);
    out.append("\"");
}

/// Appends one attribute pair when the value is present.
pub fn append_opt_attr(out: &mut String, key: &str, value: &Option<String>)
    ensures
        final(out)@ == old(out)@ + opt_attr_text(
            key@,
            match value {
                Some(v) => Some(v@),
                None => None,
            },
        ),
{
    match value {
        Some(v) => append_attr(out, key, v.as_str()),
        None => {
            proof {
                assert(old(out)@ + Seq::<char>::empty() =~= old(out)@);
            }
        },
    }
}

} // verus!
