//! The attribute link of a channel function: a reference path, or the
//! sentinel `NoFeature` meaning no reference.

use vstd::prelude::*;

use crate::error::{ErrorKind, GdtfError};
use crate::name::{dot_split, valid_name, Name};
use crate::node::names_views;
use crate::text::str_eq;

verus! {

/// Abstract value of a [`NodeChannelFunctionAttribute`].
pub enum NodeChannelFunctionAttributeV {
    Node(Seq<Seq<char>>),
    NoFeature,
}

/// Is `s` one of the spellings of the absent reference: the empty string
/// or the sentinel keyword?
pub open spec fn is_no_feature_text(s: Seq<char>) -> bool {
    s.len() == 0 || s == "NoFeature"@
}

/// Link to an attribute; the sentinel `NoFeature` stands for no link.
#[derive(Debug, PartialEq)]
pub enum NodeChannelFunctionAttribute {
    /// A reference path through the attribute hierarchy.
    Node(Vec<Name>),
    /// The explicit absent reference.
    NoFeature,
}

impl View for NodeChannelFunctionAttribute {
    type V = NodeChannelFunctionAttributeV;

    open spec fn view(&self) -> NodeChannelFunctionAttributeV {
        match self {
            NodeChannelFunctionAttribute::Node(v) => NodeChannelFunctionAttributeV::Node(
                names_views(v@),
            ),
            NodeChannelFunctionAttribute::NoFeature => NodeChannelFunctionAttributeV::NoFeature,
        }
    }
}

impl Default for NodeChannelFunctionAttribute {
    /// The default link is the absent reference.
    fn default() -> (r: Self)
        ensures
            r@ is NoFeature,
    {
        NodeChannelFunctionAttribute::NoFeature
    }
}

impl NodeChannelFunctionAttribute {
    /// Validating constructor from the document spelling: the sentinel
    /// spellings yield the absent reference; any other string is split on
    /// `.` and every segment must pass the name validator.
    pub fn new_from_str(value: &str) -> (r: Result<Self, GdtfError>)
        ensures
            is_no_feature_text(value@) ==> (r matches Ok(n) && n@ is NoFeature),
            !is_no_feature_text(value@) && (forall|i: int|
                0 <= i < dot_split(value@).len() ==> valid_name(#[trigger] dot_split(value@)[i]))
                ==> (r matches Ok(n) && n@ matches NodeChannelFunctionAttributeV::Node(segs)
                && segs == dot_split(value@)),
            !is_no_feature_text(value@) && !(forall|i: int|
                0 <= i < dot_split(value@).len() ==> valid_name(#[trigger] dot_split(value@)[i]))
                ==> (r matches Err(e) && e.kind() == ErrorKind::InvalidIdentifier),
    {
        if value.is_empty() || str_eq(value, "NoFeature") {
            return Ok(Self::NoFeature);
        }
        match Name::str_to_names_vec(value) {
            Ok(names) => {
                let r = Self::Node(names);
                proof {
                    assert(r@ matches NodeChannelFunctionAttributeV::Node(segs) && segs =~= dot_split(
                        value@,
                    ));
                }
                Ok(r)
            },
            Err(e) => Err(e),
        }
    }

    /// Permissive constructor from the document spelling: as
    /// [`Self::new_from_str`], but the segments are taken verbatim.
    pub fn new_from_str_unchecked(value: &str) -> (r: Self)
        ensures
            is_no_feature_text(value@) ==> r@ is NoFeature,
            !is_no_feature_text(value@) ==> (r@ matches NodeChannelFunctionAttributeV::Node(segs)
                && segs == dot_split(value@)),
    {
        if value.is_empty() || str_eq(value, "NoFeature") {
            return Self::NoFeature;
        }
        let names = Name::str_to_names_vec_unchecked(value);
        let r = Self::Node(names);
        proof {
            assert(r@ matches NodeChannelFunctionAttributeV::Node(segs) && segs =~= dot_split(
                value@,
            ));
        }
        r
    }

    /// Builds a reference path from the given segments, taken verbatim.
    pub fn new_from_strs_unchecked(value: Vec<&str>) -> (r: Self)
        ensures
            r@ matches NodeChannelFunctionAttributeV::Node(segs) && segs.len() == value@.len()
                && forall|i: int| 0 <= i < segs.len() ==> #[trigger] segs[i] == value@[i]@,
    {
        let names = Name::strs_to_names_vec_unchecked(value);
        Self::Node(names)
    }

    /// The explicit absent reference.
    pub fn no_feature() -> (r: Self)
        ensures
            r@ is NoFeature,
    {
        Self::NoFeature
    }
}

impl TryFrom<&str> for NodeChannelFunctionAttribute {
    type Error = GdtfError;

    /// As [`NodeChannelFunctionAttribute::new_from_str`], which carries
    /// the contract.
    fn try_from(value: &str) -> Result<Self, Self::Error> {
        Self::new_from_str(value)
    }
}

impl vstd::std_specs::convert::TryFromSpecImpl<&str> for NodeChannelFunctionAttribute {
    open spec fn obeys_try_from_spec() -> bool {
        false
    }

    open spec fn try_from_spec(v: &str) -> Result<Self, GdtfError> {
        vstd::pervasive::arbitrary()
    }
}

} // verus!
