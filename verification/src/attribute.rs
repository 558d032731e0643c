//! Fixture attributes: singular mutually exclusive control functions,
//! described by a name, a pretty name, grouping references, a physical
//! unit and an optional color.

use vstd::prelude::*;

use crate::attribute_name::{attr_name_of, AttributeName, AttributeNameV};
use crate::color_cie::{color_of, ColorCIE};
use crate::error::{ErrorKind, GdtfError};
use crate::physical_unit::{physical_unit_of, PhysicalUnit};
use crate::walker::{consume_subtree, find_tag, scan_for_tag, subtree_end};
use crate::xml_event::{
    attr_string, attr_string_option, attr_value, find_attr, read_attr_string,
    read_attr_string_option, tag_attrs, XmlAttr, XmlEvent,
};

verus! {

/// Abstract value of an [`Attribute`].
pub struct AttributeV {
    pub name: AttributeNameV,
    pub pretty: Seq<char>,
    pub activation_group: Option<Seq<char>>,
    pub feature: Seq<char>,
    pub main_attribute: Option<Seq<char>>,
    pub physical_unit: PhysicalUnit,
    pub color: Option<ColorCIE>,
}

/// Describes a singular mutually exclusive control function.
#[derive(Debug, PartialEq)]
pub struct Attribute {
    /// The name of the attribute, which is also its primary key.
    pub name: AttributeName,
    /// The name displayed to users.
    pub pretty: String,
    /// The activation group the attribute belongs to, if any.
    pub activation_group: Option<String>,
    /// The feature the attribute belongs to.
    pub feature: String,
    /// The main attribute this one depends on, if any.
    pub main_attribute: Option<String>,
    /// The unit of the attribute's physical values.
    pub physical_unit: PhysicalUnit,
    /// The color the attribute controls, if any.
    pub color: Option<ColorCIE>,
}

impl View for Attribute {
    type V = AttributeV;

    open spec fn view(&self) -> AttributeV {
        AttributeV {
            name: self.name@,
            pretty: self.pretty@,
            activation_group: match &self.activation_group {
                Some(s) => Some(s@),
                None => None,
            },
            feature: self.feature@,
            main_attribute: match &self.main_attribute {
                Some(s) => Some(s@),
                None => None,
            },
            physical_unit: self.physical_unit,
            color: self.color,
        }
    }
}

/// Does the tag's `Color` attribute, if present, hold a well-formed
/// decimal triple? A present malformed triple is terminal for the
/// enclosing build: a conversion failure.
pub open spec fn attribute_color_ok(attrs: Seq<XmlAttr>) -> bool {
    attr_value(attrs, "Color"@) matches Some(v) ==> color_of(v) is Some
}

/// What building an attribute from a tag's attributes yields, when the
/// build succeeds: absent attributes fall back to their defaults.
pub open spec fn attribute_from_attrs(attrs: Seq<XmlAttr>) -> AttributeV {
    AttributeV {
        name: attr_name_of(attr_string(attrs, "Name"@)),
        pretty: attr_string(attrs, "Pretty"@),
        activation_group: attr_string_option(attrs, "ActivationGroup"@),
        feature: attr_string(attrs, "Feature"@),
        main_attribute: attr_string_option(attrs, "MainAttribute"@),
        physical_unit: physical_unit_of(attr_string(attrs, "PhysicalUnit"@)),
        color: match attr_value(attrs, "Color"@) {
            Some(v) => color_of(v),
            None => None,
        },
    }
}

/// The primary key of an attribute built from `attrs`: the raw `Name`
/// value.
pub open spec fn attribute_key_from_attrs(attrs: Seq<XmlAttr>) -> Seq<char> {
    attr_string(attrs, "Name"@)
}

/// The markup of one attribute.
pub open spec fn attribute_xml(v: AttributeV) -> Seq<char> {
    "<Attribute"@ + crate::xml_write::attr_pair_text(
        "Name"@,
        crate::attribute_name::attr_name_text(v.name),
    ) + crate::xml_write::attr_pair_text("Pretty"@, v.pretty) + crate::xml_write::opt_attr_text(
        "ActivationGroup"@,
        v.activation_group,
    ) + crate::xml_write::attr_pair_text("Feature"@, v.feature) + crate::xml_write::opt_attr_text(
        "MainAttribute"@,
        v.main_attribute,
    ) + crate::xml_write::attr_pair_text(
        "PhysicalUnit"@,
        crate::physical_unit::unit_text(v.physical_unit),
    ) + crate::xml_write::opt_attr_text(
        "Color"@,
        match v.color {
            Some(c) => Some(crate::color_cie::color_text(c)),
            None => None,
        },
    ) + "/>"@
}

/// Round trip at the attribute level: rebuilding an attribute from a
/// tag whose attributes carry exactly the spellings its serialization
/// writes yields the original value.
///
/// A user-defined name must not itself spell the predefined numeric
/// pattern, present optional strings must be nonempty, and color
/// coordinates must be small enough to write exactly; the framework only
/// builds values of this shape.
pub proof fn lemma_attribute_attrs_round_trip(attrs: Seq<XmlAttr>, v: AttributeV)
    requires
        attr_value(attrs, "Name"@) == Some(crate::attribute_name::attr_name_text(v.name)),
        attr_value(attrs, "Pretty"@) == Some(v.pretty),
        attr_value(attrs, "ActivationGroup"@) == v.activation_group,
        attr_value(attrs, "Feature"@) == Some(v.feature),
        attr_value(attrs, "MainAttribute"@) == v.main_attribute,
        attr_value(attrs, "PhysicalUnit"@) == Some(
            crate::physical_unit::unit_text(v.physical_unit),
        ),
        attr_value(attrs, "Color"@) == match v.color {
            Some(c) => Some(crate::color_cie::color_text(c)),
            None => None,
        },
        v.name matches crate::attribute_name::AttributeNameV::UserDefined(s)
            ==> crate::attribute_name::effects_params(s) is None,
        v.activation_group matches Some(s) ==> s.len() > 0,
        v.main_attribute matches Some(s) ==> s.len() > 0,
        v.color matches Some(c) ==> c.x < 1000000000000000 && c.y < 1000000000000000
            && c.luminance < 1000000000000000,
    ensures
        attribute_from_attrs(attrs) == v,
        attribute_color_ok(attrs),
{
    crate::attribute_name::lemma_attr_name_text_round_trip(v.name);
    crate::physical_unit::lemma_unit_text_round_trip(v.physical_unit);
    match v.color {
        Some(c) => {
            crate::color_cie::lemma_color_text_round_trip(c);
        },
        None => {},
    }
}

impl Attribute {
    /// Writes the entity as a markup fragment that parses back to an
    /// equal entity.
    pub fn to_xml(&self) -> (r: String)
        ensures
            r@ == attribute_xml(self@),
    {
        let mut out = String::from_str("<Attribute");
        crate::xml_write::append_attr(&mut out, "Name", self.name.text().as_str());
        crate::xml_write::append_attr(&mut out, "Pretty", self.pretty.as_str());
        crate::xml_write::append_opt_attr(&mut out, "ActivationGroup", &self.activation_group);
        crate::xml_write::append_attr(&mut out, "Feature", self.feature.as_str());
        crate::xml_write::append_opt_attr(&mut out, "MainAttribute", &self.main_attribute);
        crate::xml_write::append_attr(&mut out, "PhysicalUnit", self.physical_unit.text());
        let color_text = match &self.color {
            Some(c) => Some(c.text()),
            None => None,
        };
        crate::xml_write::append_opt_attr(&mut out, "Color", &color_text);
        out.append("/>");
        out
    }

    /// The tag name of one entity of this type.
    pub fn single_event_name() -> (r: String)
        ensures
            r@ == "Attribute"@,
    {
        "Attribute".to_owned()
    }

    /// The tag name of the wrapping collection element.
    pub fn group_event_name() -> (r: String)
        ensures
            r@ == "Attributes"@,
    {
        "Attributes".to_owned()
    }

    /// Does `event_name` name one entity of this type?
    pub fn is_single_event_name(event_name: &str) -> (r: bool)
        ensures
            r == (event_name@ == "Attribute"@),
    {
        crate::text::str_eq(event_name, "Attribute")
    }

    /// Does `event_name` name the wrapping collection element?
    pub fn is_group_event_name(event_name: &str) -> (r: bool)
        ensures
            r == (event_name@ == "Attributes"@),
    {
        crate::text::str_eq(event_name, "Attributes")
    }

    /// Builds the entity from its tag's attributes and consumes its
    /// subtree, leaving the cursor just past it; a present but malformed
    /// `Color` attribute is a conversion failure.
    pub fn single_from_event(
        attrs: &Vec<XmlAttr>,
        empty: bool,
        events: &Vec<XmlEvent>,
        pos: usize,
    ) -> (r: Result<(Attribute, usize), GdtfError>)
        requires
            pos <= events@.len(),
        ensures
            attribute_color_ok(attrs@) ==> (r matches Ok(p) && p.0@ == attribute_from_attrs(attrs@)
                && p.1 == subtree_end(events@, pos as int, empty) && pos <= p.1 <= events@.len()),
            !attribute_color_ok(attrs@) ==> (r matches Err(e) && e.kind()
                == ErrorKind::ValueConversion),
    {
        let name = AttributeName::new_unchecked(read_attr_string(attrs, "Name").as_str());
        let pretty = read_attr_string(attrs, "Pretty");
        let activation_group = read_attr_string_option(attrs, "ActivationGroup");
        let feature = read_attr_string(attrs, "Feature");
        let main_attribute = read_attr_string_option(attrs, "MainAttribute");
        let physical_unit = PhysicalUnit::from(read_attr_string(attrs, "PhysicalUnit").as_str());
        let color = match find_attr(attrs, "Color") {
            Some(v) => match ColorCIE::new_from_str(v.as_str()) {
                Ok(c) => Some(c),
                Err(e) => {
                    return Err(e);
                },
            },
            None => None,
        };
        let end = if empty {
            pos
        } else {
            consume_subtree(events, pos)
        };
        Ok(
            (
                Attribute {
                    name,
                    pretty,
                    activation_group,
                    feature,
                    main_attribute,
                    physical_unit,
                    color,
                },
                end,
            ),
        )
    }

    /// Parses the first entity of this type found in the event sequence.
    pub fn from_events(events: &Vec<XmlEvent>) -> (r: Result<Attribute, GdtfError>)
        ensures
            find_tag(events@, 0, "Attribute"@) matches Some(i) ==> (attribute_color_ok(
                tag_attrs(events@[i]),
            ) ==> (r matches Ok(a) && a@ == attribute_from_attrs(tag_attrs(events@[i])))),
            find_tag(events@, 0, "Attribute"@) matches Some(i) ==> (!attribute_color_ok(
                tag_attrs(events@[i]),
            ) ==> (r matches Err(e) && e.kind() == ErrorKind::ValueConversion)),
            find_tag(events@, 0, "Attribute"@) is None ==> (r matches Err(e) && e.kind()
                == ErrorKind::RequiredValueNotFound),
    {
        proof {
            crate::walker::lemma_find_tag_props(events@, 0, "Attribute"@);
        }
        let n = events.len();
        match scan_for_tag(events, "Attribute") {
            Some(i) => match &events[i] {
                XmlEvent::Open { attrs, .. } => {
                    let (a, _) = Self::single_from_event(attrs, false, events, i + 1)?;
                    Ok(a)
                },
                XmlEvent::Empty { attrs, .. } => {
                    let (a, _) = Self::single_from_event(attrs, true, events, i + 1)?;
                    Ok(a)
                },
                _ => {
                    proof {
                        assert(false);
                    }
                    Err(GdtfError::RequiredValueNotFound("Attribute".to_owned()))
                },
            },
            None => Err(GdtfError::RequiredValueNotFound("Attribute".to_owned())),
        }
    }

    /// Parses the first entity of this type found in `xml`.
    ///
    /// The reader is trusted, so the exact relation between the document
    /// text and the result is stated at the event level, on
    /// [`Self::from_events`].
    pub fn from_xml(xml: &str) -> (r: Result<Attribute, GdtfError>)
        ensures
            r matches Err(e) ==> (e.kind() == ErrorKind::Tokenizer || e.kind()
                == ErrorKind::RequiredValueNotFound || e.kind() == ErrorKind::ValueConversion),
    {
        let events = crate::tokenizer::collect_events(xml)?;
        Self::from_events(&events)
    }
}

} // verus!
