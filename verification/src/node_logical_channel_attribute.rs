//! The attribute link of a logical channel: an optional reference path
//! whose segments are attribute names.

use vstd::prelude::*;

use crate::attribute_name::{attr_name_of, effects_params, AttributeName, AttributeNameV};
use crate::error::{ErrorKind, GdtfError};
use crate::name::{dot_split, valid_name, Name};

verus! {

/// The views of a sequence of attribute names.
pub open spec fn attr_names_views(v: Seq<AttributeName>) -> Seq<AttributeNameV> {
    Seq::new(v.len(), |i: int| v[i]@)
}

/// Is `s` accepted by the validating attribute-name constructor?
pub open spec fn attr_name_text_ok(s: Seq<char>) -> bool {
    effects_params(s) is Some || valid_name(s)
}

/// What the permissive constructor yields for the document spelling
/// `s`: the empty string is the absent reference, anything else is split
/// on `.` with every segment read as an attribute name.
pub open spec fn logical_attr_of(s: Seq<char>) -> Option<Seq<AttributeNameV>> {
    if s.len() == 0 {
        None
    } else {
        Some(Seq::new(dot_split(s).len(), |i: int| attr_name_of(dot_split(s)[i])))
    }
}

/// Link to the attribute controlled by a logical channel; absent when the
/// document gives no reference.
#[derive(Debug)]
pub struct NodeLogicalChannelAttribute(pub Option<Vec<AttributeName>>);

impl View for NodeLogicalChannelAttribute {
    type V = Option<Seq<AttributeNameV>>;

    open spec fn view(&self) -> Option<Seq<AttributeNameV>> {
        match &self.0 {
            Some(v) => Some(attr_names_views(v@)),
            None => None,
        }
    }
}

/// Compares two attribute-name chains segment for segment.
fn attr_names_eq(a: &Vec<AttributeName>, b: &Vec<AttributeName>) -> (r: bool)
    ensures
        r == (attr_names_views(a@) == attr_names_views(b@)),
{
    if a.len() != b.len() {
        proof {
            assert(attr_names_views(a@).len() != attr_names_views(b@).len());
        }
        return false;
    }
    for i in 0..a.len()
        invariant
            a@.len() == b@.len(),
            forall|j: int| 0 <= j < i ==> (#[trigger] a@[j])@ == b@[j]@,
        decreases a@.len() - i,
    {
        if !(a[i] == b[i]) {
            proof {
                assert(attr_names_views(a@)[i as int] != attr_names_views(b@)[i as int]);
            }
            return false;
        }
    }
    proof {
        assert(attr_names_views(a@) =~= attr_names_views(b@));
    }
    true
}

impl PartialEq for NodeLogicalChannelAttribute {
    /// The strict comparison: an absent reference equals nothing, not
    /// even another absent reference.
    fn eq(&self, other: &Self) -> (r: bool) {
        match (&self.0, &other.0) {
            (Some(a), Some(b)) => attr_names_eq(a, b),
            _ => false,
        }
    }
}

impl vstd::std_specs::cmp::PartialEqSpecImpl for NodeLogicalChannelAttribute {
    open spec fn obeys_eq_spec() -> bool {
        true
    }

    open spec fn eq_spec(&self, other: &Self) -> bool {
        match (self@, other@) {
            (Some(a), Some(b)) => a == b,
            _ => false,
        }
    }
}

impl Default for NodeLogicalChannelAttribute {
    /// The default link is the absent reference.
    fn default() -> (r: Self)
        ensures
            r@ is None,
    {
        NodeLogicalChannelAttribute(None)
    }
}

impl NodeLogicalChannelAttribute {
    /// Validating constructor from the document spelling: the empty
    /// string is the absent reference; any other string is split on `.`
    /// and every segment must be a well-formed attribute name.
    pub fn new_from_str(value: &str) -> (r: Result<Self, GdtfError>)
        ensures
            value@.len() == 0 ==> (r matches Ok(n) && n@ is None),
            value@.len() != 0 && (forall|i: int|
                0 <= i < dot_split(value@).len() ==> attr_name_text_ok(
                    #[trigger] dot_split(value@)[i],
                )) ==> (r matches Ok(n) && n@ matches Some(segs) && segs.len() == dot_split(
                value@,
            ).len() && forall|i: int|
                0 <= i < segs.len() ==> #[trigger] segs[i] == attr_name_of(dot_split(value@)[i])),
            value@.len() != 0 && !(forall|i: int|
                0 <= i < dot_split(value@).len() ==> attr_name_text_ok(
                    #[trigger] dot_split(value@)[i],
                )) ==> (r matches Err(e) && e.kind() == ErrorKind::InvalidIdentifier),
    {
        if value.is_empty() {
            return Ok(Self(None));
        }
        let segments = Name::str_to_names_vec_unchecked(value);
        let mut tree: Vec<AttributeName> = Vec::new();
        for i in 0..segments.len()
            invariant
                segments@.len() == dot_split(value@).len(),
                forall|j: int| 0 <= j < segments@.len() ==> (#[trigger] segments@[j])@ == dot_split(
                    value@,
                )[j],
                tree@.len() == i,
                forall|j: int| 0 <= j < i ==> (#[trigger] tree@[j])@ == attr_name_of(
                    dot_split(value@)[j],
                ),
                forall|j: int| 0 <= j < i ==> attr_name_text_ok(#[trigger] dot_split(value@)[j]),
            decreases segments@.len() - i,
        {
            match AttributeName::new(segments[i].as_str()) {
                Ok(a) => {
                    tree.push(a);
                },
                Err(e) => {
                    proof {
                        assert(!attr_name_text_ok(dot_split(value@)[i as int]));
                    }
                    return Err(e);
                },
            }
        }
        Ok(Self(Some(tree)))
    }

    /// Permissive constructor from the document spelling: as
    /// [`Self::new_from_str`], but segments outside the predefined
    /// pattern are kept verbatim.
    pub fn new_from_str_unchecked(value: &str) -> (r: Self)
        ensures
            r@ == logical_attr_of(value@),
    {
        if value.is_empty() {
            return Self(None);
        }
        let segments = Name::str_to_names_vec_unchecked(value);
        let mut tree: Vec<AttributeName> = Vec::new();
        for i in 0..segments.len()
            invariant
                segments@.len() == dot_split(value@).len(),
                forall|j: int| 0 <= j < segments@.len() ==> (#[trigger] segments@[j])@ == dot_split(
                    value@,
                )[j],
                tree@.len() == i,
                forall|j: int| 0 <= j < i ==> (#[trigger] tree@[j])@ == attr_name_of(
                    dot_split(value@)[j],
                ),
            decreases segments@.len() - i,
        {
            tree.push(AttributeName::new_unchecked(segments[i].as_str()));
        }
        proof {
            assert(attr_names_views(tree@) =~= Seq::new(
                dot_split(value@).len(),
                |i: int| attr_name_of(dot_split(value@)[i]),
            ));
        }
        Self(Some(tree))
    }

    /// Builds a present reference from already constructed names.
    pub fn new_from_attribute_names(names: Vec<AttributeName>) -> (r: Result<Self, GdtfError>)
        ensures
            r matches Ok(n) && n@ == Some(attr_names_views(names@)),
    {
        Ok(Self(Some(names)))
    }

    /// The absent reference.
    pub fn none() -> (r: Self)
        ensures
            r@ is None,
    {
        Self(None)
    }

    /// Builds a present reference by validating every given segment.
    pub fn new_from_strs(names: Vec<&str>) -> (r: Result<Self, GdtfError>)
        ensures
            (forall|i: int| 0 <= i < names@.len() ==> attr_name_text_ok(#[trigger] names@[i]@)) ==> (
            r matches Ok(n) && n@ matches Some(segs) && segs.len() == names@.len() && forall|i: int|
                0 <= i < segs.len() ==> #[trigger] segs[i] == attr_name_of(names@[i]@)),
            !(forall|i: int| 0 <= i < names@.len() ==> attr_name_text_ok(#[trigger] names@[i]@))
                ==> (r matches Err(e) && e.kind() == ErrorKind::InvalidIdentifier),
    {
        let mut vec: Vec<AttributeName> = Vec::new();
        for i in 0..names.len()
            invariant
                vec@.len() == i,
                forall|j: int| 0 <= j < i ==> (#[trigger] vec@[j])@ == attr_name_of(names@[j]@),
                forall|j: int| 0 <= j < i ==> attr_name_text_ok(#[trigger] names@[j]@),
            decreases names@.len() - i,
        {
            match AttributeName::new(names[i]) {
                Ok(a) => {
                    vec.push(a);
                },
                Err(e) => {
                    proof {
                        assert(!attr_name_text_ok(names@[i as int]@));
                    }
                    return Err(e);
                },
            }
        }
        Ok(Self(Some(vec)))
    }

    /// Builds a present reference taking every given segment verbatim.
    pub fn new_from_strs_unchecked(names: Vec<&str>) -> (r: Self)
        ensures
            r@ matches Some(segs) && segs.len() == names@.len() && forall|i: int|
                0 <= i < segs.len() ==> #[trigger] segs[i] == attr_name_of(names@[i]@),
    {
        let mut vec: Vec<AttributeName> = Vec::new();
        for i in 0..names.len()
            invariant
                vec@.len() == i,
                forall|j: int| 0 <= j < i ==> (#[trigger] vec@[j])@ == attr_name_of(names@[j]@),
            decreases names@.len() - i,
        {
            vec.push(AttributeName::new_unchecked(names[i]));
        }
        Self(Some(vec))
    }

    /// The tolerant comparison used by test harnesses: with `allow_empty`
    /// set, two absent references count as equal; otherwise the strict
    /// rules of `==` apply.
    pub fn is_eq_allow_empty(&self, other: &Self, allow_empty: bool) -> (r: bool)
        ensures
            r == match (self@, other@) {
                (Option::None, Option::None) => allow_empty,
                (Some(a), Some(b)) => a == b,
                _ => false,
            },
    {
        match (&self.0, &other.0) {
            (Option::None, Option::None) => allow_empty,
            (Some(a), Some(b)) => attr_names_eq(a, b),
            _ => false,
        }
    }
}

/// The document spellings of the segments of an attribute path.
pub open spec fn attr_path_texts(segs: Seq<AttributeNameV>) -> Seq<Seq<char>> {
    Seq::new(segs.len(), |i: int| crate::attribute_name::attr_name_text(segs[i]))
}

/// The document spelling of an attribute path: its segments joined with
/// `.`.
pub open spec fn attr_path_text(segs: Seq<AttributeNameV>) -> Seq<char> {
    crate::node::dot_join(attr_path_texts(segs))
}

/// A well-formed attribute path: at least one segment, a nonempty
/// written form, and every user-defined segment free of the separator
/// and of the predefined pattern's spelling.
pub open spec fn wf_attr_path(segs: Seq<crate::attribute_name::AttributeNameV>) -> bool {
    &&& segs.len() >= 1
    &&& attr_path_text(segs).len() > 0
    &&& forall|i: int|
        0 <= i < segs.len() ==> (#[trigger] segs[i] matches
        crate::attribute_name::AttributeNameV::UserDefined(s) ==> (
        crate::attribute_name::effects_params(s) is None && forall|j: int|
            0 <= j < s.len() ==> #[trigger] s[j] != '.'))
}

/// Writing an attribute path and reading it back yields the same
/// segments, for well-formed paths; the framework only builds paths of
/// this shape.
pub proof fn lemma_attr_path_text_round_trip(segs: Seq<crate::attribute_name::AttributeNameV>)
    requires
        wf_attr_path(segs),
    ensures
        logical_attr_of(attr_path_text(segs)) matches Some(read) && read =~= segs,
{
    let texts = attr_path_texts(segs);
    assert forall|i: int, j: int|
        0 <= i < texts.len() && 0 <= j < texts[i].len() implies #[trigger] texts[i][j] != '.' by {
        crate::attribute_name::lemma_attr_name_text_no_dot(segs[i]);
    }
    crate::node::lemma_dot_join_split_round_trip(texts);
    assert forall|i: int| 0 <= i < texts.len() implies attr_name_of(#[trigger] dot_split(
        attr_path_text(segs),
    )[i]) == segs[i] by {
        assert(dot_split(attr_path_text(segs))[i] == texts[i]);
        crate::attribute_name::lemma_attr_name_text_round_trip(segs[i]);
    }
}

impl NodeLogicalChannelAttribute {
    /// The document spelling of the link, when present.
    pub fn text(&self) -> (r: Option<String>)
        ensures
            self@ matches Some(segs) ==> (r matches Some(s) && s@ == attr_path_text(segs)),
            self@ is None ==> r is None,
    {
        match &self.0 {
            Some(names) => {
                let ghost texts = attr_path_texts(attr_names_views(names@));
                let mut out = String::new();
                for i in 0..names.len()
                    invariant
                        texts == attr_path_texts(attr_names_views(names@)),
                        texts.len() == names@.len(),
                        out@ == crate::node::dot_join(texts.take(i as int)),
                    decreases names@.len() - i,
                {
                    proof {
                        assert(texts.take(i + 1).drop_last() =~= texts.take(i as int));
                        assert(texts.take(i + 1).last() == texts[i as int]);
                        reveal_strlit(".");
                        assert("."@ =~= seq!['.']);
                    }
                    if i > 0 {
                        out.append(".");
                    }
                    out.append(names[i].text().as_str());
                }
                proof {
                    assert(texts.take(names@.len() as int) =~= texts);
                }
                Some(out)
            },
            None => None,
        }
    }
}

impl TryFrom<&str> for NodeLogicalChannelAttribute {
    type Error = GdtfError;

    /// As [`NodeLogicalChannelAttribute::new_from_str`], which carries
    /// the contract.
    fn try_from(value: &str) -> Result<Self, Self::Error> {
        Self::new_from_str(value)
    }
}

impl vstd::std_specs::convert::TryFromSpecImpl<&str> for NodeLogicalChannelAttribute {
    open spec fn obeys_try_from_spec() -> bool {
        false
    }

    open spec fn try_from_spec(v: &str) -> Result<Self, GdtfError> {
        vstd::pervasive::arbitrary()
    }
}

} // verus!
