//! The plain event model the tree walker runs on: element boundaries
//! with their raw attribute pairs, already decoded to owned strings.

use vstd::prelude::*;

use crate::text::str_eq;

verus! {

/// One raw attribute of an element: its key and its value, both verbatim.
#[derive(Debug)]
pub struct XmlAttr {
    pub key: String,
    pub value: String,
}

/// One event of the document, in document order.
///
/// Anything that is not an element boundary (text, comments,
/// declarations, processing instructions) is `Other`; the walker skips
/// it. The end of input is not an event: it is the end of the event
/// sequence.
#[derive(Debug)]
pub enum XmlEvent {
    /// A start tag with children to follow.
    Open { name: String, attrs: Vec<XmlAttr> },
    /// A self-closing tag.
    Empty { name: String, attrs: Vec<XmlAttr> },
    /// An end tag.
    Close,
    /// Anything that is not an element boundary.
    Other,
}

/// The attributes carried by a start or empty tag; other events carry
/// none.
pub open spec fn tag_attrs(ev: XmlEvent) -> Seq<XmlAttr> {
    match ev {
        XmlEvent::Open { attrs, .. } => attrs@,
        XmlEvent::Empty { attrs, .. } => attrs@,
        _ => Seq::empty(),
    }
}

/// Is this event a self-closing tag?
pub open spec fn tag_is_empty(ev: XmlEvent) -> bool {
    ev is Empty
}

/// The value of the attribute named `key`, if present; with repeated
/// keys the last occurrence wins.
pub open spec fn attr_value(attrs: Seq<XmlAttr>, key: Seq<char>) -> Option<Seq<char>>
    decreases attrs.len(),
{
    if attrs.len() == 0 {
        None
    } else if attrs.last().key@ == key {
        Some(attrs.last().value@)
    } else {
        attr_value(attrs.drop_last(), key)
    }
}

/// The attribute's value read as a plain string, with absence falling
/// back to the empty string.
pub open spec fn attr_string(attrs: Seq<XmlAttr>, key: Seq<char>) -> Seq<char> {
    match attr_value(attrs, key) {
        Some(v) => v,
        None => Seq::empty(),
    }
}

/// The attribute's value read as an optional string, with absence and
/// the empty value both mapping to none.
pub open spec fn attr_string_option(attrs: Seq<XmlAttr>, key: Seq<char>) -> Option<Seq<char>> {
    match attr_value(attrs, key) {
        Some(v) => if v.len() > 0 {
            Some(v)
        } else {
            None
        },
        None => None,
    }
}

/// Finds the value of the attribute named `key`.
pub fn find_attr<'a>(attrs: &'a Vec<XmlAttr>, key: &str) -> (r: Option<&'a String>)
    ensures
        match attr_value(attrs@, key@) {
            Some(v) => r matches Some(s) && s@ == v,
            None => r is None,
        },
{
    let mut i = attrs.len();
    proof {
        assert(attrs@.take(attrs@.len() as int) =~= attrs@);
    }
    while i > 0
        invariant
            i <= attrs@.len(),
            attr_value(attrs@, key@) == attr_value(attrs@.take(i as int), key@),
        decreases i,
    {
        proof {
            assert(attrs@.take(i as int).drop_last() =~= attrs@.take(i - 1));
            assert(attrs@.take(i as int).last() == attrs@[i - 1]);
        }
        i -= 1;
        if str_eq(attrs[i].key.as_str(), key) {
            return Some(&attrs[i].value);
        }
    }
    None
}

/// Reads the attribute named `key` as a plain string, with absence
/// falling back to the empty string.
pub fn read_attr_string(attrs: &Vec<XmlAttr>, key: &str) -> (r: String)
    ensures
        r@ == attr_string(attrs@, key@),
{
    match find_attr(attrs, key) {
        Some(v) => v.clone(),
        None => String::new(),
    }
}

/// Reads the attribute named `key` as an optional string, with absence
/// and the empty value both mapping to none.
pub fn read_attr_string_option(attrs: &Vec<XmlAttr>, key: &str) -> (r: Option<String>)
    ensures
        match attr_string_option(attrs@, key@) {
            Some(v) => r matches Some(s) && s@ == v,
            None => r is None,
        },
{
    match find_attr(attrs, key) {
        Some(v) => {
            if v.as_str().is_empty() {
                None
            } else {
                Some(v.clone())
            }
        },
        None => None,
    }
}

} // verus!
