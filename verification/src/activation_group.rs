//! Activation groups: attributes which need to be activated together to
//! gain control over one logical function, such as pan and tilt.

use vstd::prelude::*;

use crate::error::{ErrorKind, GdtfError};
use crate::name::{valid_name, Name};
use crate::walker::{consume_subtree, find_tag, scan_for_tag, subtree_end};
use crate::xml_event::{attr_string, read_attr_string, tag_attrs, XmlAttr, XmlEvent};

verus! {

/// Abstract value of an [`ActivationGroup`].
pub struct ActivationGroupV {
    pub name: Seq<char>,
}

/// Defines which attributes are to be activated together.
#[derive(Debug, PartialEq)]
pub struct ActivationGroup {
    /// The name of the group, which is also its primary key.
    pub name: Name,
}

impl View for ActivationGroup {
    type V = ActivationGroupV;

    open spec fn view(&self) -> ActivationGroupV {
        ActivationGroupV { name: self.name@ }
    }
}

/// What building an activation group from a tag's attributes yields: the
/// `Name` attribute taken verbatim, with absence falling back to the
/// empty name.
pub open spec fn activation_group_from_attrs(attrs: Seq<XmlAttr>) -> ActivationGroupV {
    ActivationGroupV { name: attr_string(attrs, "Name"@) }
}

/// The markup of one activation group.
pub open spec fn activation_group_xml(v: ActivationGroupV) -> Seq<char> {
    "<ActivationGroup"@ + crate::xml_write::attr_pair_text("Name"@, v.name) + "/>"@
}

/// Round trip at the attribute level: rebuilding an activation group
/// from the one attribute its serialization writes yields the original
/// value.
pub proof fn lemma_activation_group_attrs_round_trip(attrs: Seq<XmlAttr>, v: ActivationGroupV)
    requires
        attrs.len() == 1,
        attrs[0].key@ == "Name"@,
        attrs[0].value@ == v.name,
    ensures
        activation_group_from_attrs(attrs) == v,
{
    assert(attrs.last() == attrs[0]);
}

impl ActivationGroup {
    /// Writes the entity as a markup fragment that parses back to an
    /// equal entity.
    pub fn to_xml(&self) -> (r: String)
        ensures
            r@ == activation_group_xml(self@),
    {
        let mut out = String::from_str("<ActivationGroup");
        crate::xml_write::append_attr(&mut out, "Name", self.name.as_str());
        out.append("/>");
        out
    }

    /// The tag name of one entity of this type.
    pub fn single_event_name() -> (r: String)
        ensures
            r@ == "ActivationGroup"@,
    {
        "ActivationGroup".to_owned()
    }

    /// The tag name of the wrapping collection element.
    pub fn group_event_name() -> (r: String)
        ensures
            r@ == "ActivationGroups"@,
    {
        "ActivationGroups".to_owned()
    }

    /// Does `event_name` name one entity of this type?
    pub fn is_single_event_name(event_name: &str) -> (r: bool)
        ensures
            r == (event_name@ == "ActivationGroup"@),
    {
        crate::text::str_eq(event_name, "ActivationGroup")
    }

    /// Does `event_name` name the wrapping collection element?
    pub fn is_group_event_name(event_name: &str) -> (r: bool)
        ensures
            r == (event_name@ == "ActivationGroups"@),
    {
        crate::text::str_eq(event_name, "ActivationGroups")
    }

    /// Builds the entity from its tag's attributes and consumes its
    /// subtree, leaving the cursor just past it.
    pub fn single_from_event(
        attrs: &Vec<XmlAttr>,
        empty: bool,
        events: &Vec<XmlEvent>,
        pos: usize,
    ) -> (r: (ActivationGroup, usize))
        requires
            pos <= events@.len(),
        ensures
            r.0@ == activation_group_from_attrs(attrs@),
            r.1 == subtree_end(events@, pos as int, empty),
            pos <= r.1 <= events@.len(),
    {
        let name = Name::new_unchecked(read_attr_string(attrs, "Name").as_str());
        let end = if empty {
            pos
        } else {
            consume_subtree(events, pos)
        };
        (ActivationGroup { name }, end)
    }

    /// Builds the entity from its tag's attributes like
    /// [`Self::single_from_event`], but through the validating name
    /// constructor: a name outside the permitted character set or the
    /// length bound is an invalid-identifier failure instead of being
    /// kept verbatim.
    pub fn single_from_event_validated(
        attrs: &Vec<XmlAttr>,
        empty: bool,
        events: &Vec<XmlEvent>,
        pos: usize,
    ) -> (r: Result<(ActivationGroup, usize), GdtfError>)
        requires
            pos <= events@.len(),
        ensures
            valid_name(attr_string(attrs@, "Name"@)) ==> (r matches Ok(p) && p.0@
                == activation_group_from_attrs(attrs@) && p.1 == subtree_end(
                events@,
                pos as int,
                empty,
            ) && pos <= p.1 <= events@.len()),
            !valid_name(attr_string(attrs@, "Name"@)) ==> (r matches Err(e) && e.kind()
                == ErrorKind::InvalidIdentifier),
    {
        let raw = read_attr_string(attrs, "Name");
        let name = match Name::new(raw.as_str()) {
            Ok(n) => n,
            Err(e) => {
                return Err(e);
            },
        };
        let end = if empty {
            pos
        } else {
            consume_subtree(events, pos)
        };
        Ok((ActivationGroup { name }, end))
    }

    /// Parses the first entity of this type found in the event sequence.
    pub fn from_events(events: &Vec<XmlEvent>) -> (r: Result<ActivationGroup, GdtfError>)
        ensures
            find_tag(events@, 0, "ActivationGroup"@) matches Some(i) ==> (r matches Ok(ag) && ag@
                == activation_group_from_attrs(tag_attrs(events@[i]))),
            find_tag(events@, 0, "ActivationGroup"@) is None ==> (r matches Err(e) && e.kind()
                == ErrorKind::RequiredValueNotFound),
    {
        proof {
            crate::walker::lemma_find_tag_props(events@, 0, "ActivationGroup"@);
        }
        let n = events.len();
        match scan_for_tag(events, "ActivationGroup") {
            Some(i) => match &events[i] {
                XmlEvent::Open { attrs, .. } => {
                    let (ag, _) = Self::single_from_event(attrs, false, events, i + 1);
                    Ok(ag)
                },
                XmlEvent::Empty { attrs, .. } => {
                    let (ag, _) = Self::single_from_event(attrs, true, events, i + 1);
                    Ok(ag)
                },
                _ => {
                    proof {
                        assert(false);
                    }
                    Err(GdtfError::RequiredValueNotFound("ActivationGroup".to_owned()))
                },
            },
            None => Err(GdtfError::RequiredValueNotFound("ActivationGroup".to_owned())),
        }
    }

    /// Parses the first entity of this type found in `xml`.
    ///
    /// The reader is trusted, so the exact relation between the document
    /// text and the result is stated at the event level, on
    /// [`Self::from_events`].
    pub fn from_xml(xml: &str) -> (r: Result<ActivationGroup, GdtfError>)
        ensures
            r matches Err(e) ==> (e.kind() == ErrorKind::Tokenizer || e.kind()
                == ErrorKind::RequiredValueNotFound),
    {
        let events = crate::tokenizer::collect_events(xml)?;
        Self::from_events(&events)
    }
}

} // verus!
