//! The optional filter link of a channel function: a reference path into
//! the physical description, absent when the document gives none.

use vstd::prelude::*;

use crate::error::{ErrorKind, GdtfError};
use crate::name::{dot_split, valid_name, Name};
use crate::node::{dot_join, Node};

verus! {

/// Optional link to a filter; absent when the document gives no
/// reference.
#[derive(Debug)]
pub struct NodeChannelFunctionFilter(pub Option<Node>);

impl View for NodeChannelFunctionFilter {
    type V = Option<Seq<Seq<char>>>;

    open spec fn view(&self) -> Option<Seq<Seq<char>>> {
        match &self.0 {
            Some(n) => Some(n@),
            None => None,
        }
    }
}

impl PartialEq for NodeChannelFunctionFilter {
    /// The strict comparison: an absent reference equals nothing, not
    /// even another absent reference.
    fn eq(&self, other: &Self) -> (r: bool) {
        match (&self.0, &other.0) {
            (Some(a), Some(b)) => a == b,
            _ => false,
        }
    }
}

impl vstd::std_specs::cmp::PartialEqSpecImpl for NodeChannelFunctionFilter {
    open spec fn obeys_eq_spec() -> bool {
        true
    }

    open spec fn eq_spec(&self, other: &Self) -> bool {
        match (self@, other@) {
            (Some(a), Some(b)) => a == b,
            _ => false,
        }
    }
}

impl Default for NodeChannelFunctionFilter {
    /// The default link is the absent reference.
    fn default() -> (r: Self)
        ensures
            r@ is None,
    {
        NodeChannelFunctionFilter(None)
    }
}

impl NodeChannelFunctionFilter {
    /// Validating constructor from the document spelling: the empty
    /// string is the absent reference; any other string is split on `.`
    /// and every segment must pass the name validator.
    pub fn new_from_str(value: &str) -> (r: Result<Self, GdtfError>)
        ensures
            value@.len() == 0 ==> (r matches Ok(n) && n@ is None),
            value@.len() != 0 && (forall|i: int|
                0 <= i < dot_split(value@).len() ==> valid_name(#[trigger] dot_split(value@)[i]))
                ==> (r matches Ok(n) && n@ matches Some(segs) && segs == dot_split(value@)),
            value@.len() != 0 && !(forall|i: int|
                0 <= i < dot_split(value@).len() ==> valid_name(#[trigger] dot_split(value@)[i]))
                ==> (r matches Err(e) && e.kind() == ErrorKind::InvalidIdentifier),
    {
        if value.is_empty() {
            return Ok(Self(None));
        }
        match Name::str_to_names_vec(value) {
            Ok(names) => {
                let r = Self(Some(Node(names)));
                proof {
                    assert(r@ matches Some(segs) && segs =~= dot_split(value@));
                }
                Ok(r)
            },
            Err(e) => Err(e),
        }
    }

    /// Permissive constructor from the document spelling: as
    /// [`Self::new_from_str`], but the segments are taken verbatim.
    pub fn new_from_str_unchecked(value: &str) -> (r: Self)
        ensures
            value@.len() == 0 ==> r@ is None,
            value@.len() != 0 ==> (r@ matches Some(segs) && segs == dot_split(value@)),
    {
        if value.is_empty() {
            return Self(None);
        }
        let names = Name::str_to_names_vec_unchecked(value);
        let r = Self(Some(Node(names)));
        proof {
            assert(r@ matches Some(segs) && segs =~= dot_split(value@));
        }
        r
    }

    /// The tolerant comparison used by test harnesses: two absent
    /// references count as equal; otherwise the strict rules of `==`
    /// apply.
    pub fn is_eq_including_none(&self, other: &Self) -> (r: bool)
        ensures
            r == match (self@, other@) {
                (Option::None, Option::None) => true,
                (Some(a), Some(b)) => a == b,
                _ => false,
            },
    {
        match (&self.0, &other.0) {
            (Option::None, Option::None) => true,
            (Some(a), Some(b)) => a == b,
            _ => false,
        }
    }

    /// The textual form of the link: its names joined with `.`, or the
    /// empty string for the absent reference.
    pub fn text(&self) -> (r: String)
        ensures
            self@ matches Some(segs) ==> r@ == dot_join(segs),
            self@ is None ==> r@.len() == 0,
    {
        match &self.0 {
            Some(n) => n.text(),
            None => String::new(),
        }
    }
}

impl TryFrom<&str> for NodeChannelFunctionFilter {
    type Error = GdtfError;

    /// As [`NodeChannelFunctionFilter::new_from_str`], which carries the
    /// contract.
    fn try_from(value: &str) -> Result<Self, Self::Error> {
        Self::new_from_str(value)
    }
}

impl vstd::std_specs::convert::TryFromSpecImpl<&str> for NodeChannelFunctionFilter {
    open spec fn obeys_try_from_spec() -> bool {
        false
    }

    open spec fn try_from_spec(v: &str) -> Result<Self, GdtfError> {
        vstd::pervasive::arbitrary()
    }
}

} // verus!
