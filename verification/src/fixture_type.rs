//! The fixture type: the starting point of the description of a device,
//! carrying its identity and its attribute definitions.

use vstd::prelude::*;

use crate::attribute_definitions::{
    ad_from_event, lemma_ad_walk_bounds, AttributeDefinitions, AttributeDefinitionsV,
};
use crate::error::{ErrorKind, GdtfError};
use crate::guid::{valid_guid, GUID};
use crate::name::Name;
use crate::text::str_eq;
use crate::walker::{find_tag, scan_for_tag};
use crate::xml_event::{
    attr_string, attr_string_option, attr_value, find_attr, read_attr_string,
    read_attr_string_option, tag_attrs, tag_is_empty, XmlAttr, XmlEvent,
};

verus! {

/// Abstract value of a [`FixtureType`].
pub struct FixtureTypeV {
    pub name: Seq<char>,
    pub short_name: Seq<char>,
    pub long_name: Seq<char>,
    pub manufacturer: Seq<char>,
    pub description: Seq<char>,
    pub fixture_type_id: Seq<char>,
    pub thumbnail: Option<Seq<char>>,
    pub ref_ft: Option<Seq<char>>,
    pub attribute_definitions: AttributeDefinitionsV,
}

/// The starting point of the description of the fixture type.
#[derive(Debug, PartialEq)]
pub struct FixtureType {
    /// Name of the fixture type; required.
    pub name: Name,
    /// Shortened name of the fixture type.
    pub short_name: String,
    /// Detailed name of the fixture type.
    pub long_name: String,
    /// Manufacturer of the fixture type.
    pub manufacturer: String,
    /// Description of the fixture type.
    pub description: String,
    /// Unique number of the fixture type; required.
    pub fixture_type_id: GUID,
    /// File name of the thumbnail resource, if any.
    pub thumbnail: Option<String>,
    /// The referenced fixture type, if any.
    pub ref_ft: Option<GUID>,
    /// All attributes that are used in the fixture type; required.
    pub attribute_definitions: AttributeDefinitions,
}

impl View for FixtureType {
    type V = FixtureTypeV;

    open spec fn view(&self) -> FixtureTypeV {
        FixtureTypeV {
            name: self.name@,
            short_name: self.short_name@,
            long_name: self.long_name@,
            manufacturer: self.manufacturer@,
            description: self.description@,
            fixture_type_id: self.fixture_type_id@,
            thumbnail: match &self.thumbnail {
                Some(s) => Some(s@),
                None => None,
            },
            ref_ft: match &self.ref_ft {
                Some(g) => Some(g@),
                None => None,
            },
            attribute_definitions: self.attribute_definitions@,
        }
    }
}

/// The walk of the fixture type's own subtree: each
/// `AttributeDefinitions` child replaces the previously seen one,
/// anything else is skipped by depth counting, and a failure inside a
/// child is terminal.
pub open spec fn ft_walk(
    events: Seq<XmlEvent>,
    pos: int,
    depth: int,
    acc: Option<AttributeDefinitionsV>,
) -> Result<(Option<AttributeDefinitionsV>, int), ErrorKind>
    decreases events.len() - pos,
        via ft_walk_decreases
{
    if pos < 0 || pos >= events.len() {
        Ok((acc, events.len() as int))
    } else {
        match events[pos] {
            XmlEvent::Open { name, attrs } => if name@ == "AttributeDefinitions"@ {
                match ad_from_event(false, events, pos + 1) {
                    Ok(built) => ft_walk(events, built.1, depth, Some(built.0)),
                    Err(k) => Err(k),
                }
            } else {
                ft_walk(events, pos + 1, depth + 1, acc)
            },
            XmlEvent::Empty { name, attrs } => if name@ == "AttributeDefinitions"@ {
                ft_walk(events, pos + 1, depth, Some(crate::attribute_definitions::ad_empty()))
            } else {
                ft_walk(events, pos + 1, depth + 1, acc)
            },
            XmlEvent::Close => if depth == 0 {
                Ok((acc, pos + 1))
            } else {
                ft_walk(events, pos + 1, depth - 1, acc)
            },
            XmlEvent::Other => ft_walk(events, pos + 1, depth, acc),
        }
    }
}

#[via_fn]
proof fn ft_walk_decreases(
    events: Seq<XmlEvent>,
    pos: int,
    depth: int,
    acc: Option<AttributeDefinitionsV>,
) {
    if 0 <= pos < events.len() {
        lemma_ad_walk_bounds(events, pos + 1, 0, crate::attribute_definitions::ad_empty());
    }
}

/// A successful fixture-type walk neither moves backwards nor leaves
/// the events.
pub proof fn lemma_ft_walk_bounds(
    events: Seq<XmlEvent>,
    pos: int,
    depth: int,
    acc: Option<AttributeDefinitionsV>,
)
    requires
        0 <= pos <= events.len(),
    ensures
        ft_walk(events, pos, depth, acc) matches Ok(p) ==> pos <= p.1 <= events.len(),
    decreases events.len() - pos,
{
    if pos < events.len() {
        if 0 <= pos + 1 <= events.len() {
            lemma_ad_walk_bounds(events, pos + 1, 0, crate::attribute_definitions::ad_empty());
        }
        match events[pos] {
            XmlEvent::Open { name, attrs } => {
                if name@ == "AttributeDefinitions"@ {
                    match ad_from_event(false, events, pos + 1) {
                        Ok(built) => {
                            lemma_ft_walk_bounds(events, built.1, depth, Some(built.0));
                        },
                        Err(k) => {},
                    }
                } else {
                    lemma_ft_walk_bounds(events, pos + 1, depth + 1, acc);
                }
            },
            XmlEvent::Empty { name, attrs } => {
                if name@ == "AttributeDefinitions"@ {
                    lemma_ft_walk_bounds(
                        events,
                        pos + 1,
                        depth,
                        Some(crate::attribute_definitions::ad_empty()),
                    );
                } else {
                    lemma_ft_walk_bounds(events, pos + 1, depth + 1, acc);
                }
            },
            XmlEvent::Close => {
                if depth != 0 {
                    lemma_ft_walk_bounds(events, pos + 1, depth - 1, acc);
                }
            },
            XmlEvent::Other => {
                lemma_ft_walk_bounds(events, pos + 1, depth, acc);
            },
        }
    }
}

/// The only failure a fixture-type walk reports is a conversion
/// failure.
pub proof fn lemma_ft_walk_err_kind(
    events: Seq<XmlEvent>,
    pos: int,
    depth: int,
    acc: Option<AttributeDefinitionsV>,
)
    requires
        0 <= pos,
    ensures
        ft_walk(events, pos, depth, acc) matches Err(k) ==> k == ErrorKind::ValueConversion,
    decreases events.len() - pos,
{
    if 0 <= pos < events.len() {
        lemma_ad_walk_bounds(events, pos + 1, 0, crate::attribute_definitions::ad_empty());
        crate::attribute_definitions::lemma_ad_walk_err_kind(
            events,
            pos + 1,
            0,
            crate::attribute_definitions::ad_empty(),
        );
        match events[pos] {
            XmlEvent::Open { name, attrs } => {
                if name@ == "AttributeDefinitions"@ {
                    match ad_from_event(false, events, pos + 1) {
                        Ok(built) => {
                            lemma_ft_walk_err_kind(events, built.1, depth, Some(built.0));
                        },
                        Err(k) => {},
                    }
                } else {
                    lemma_ft_walk_err_kind(events, pos + 1, depth + 1, acc);
                }
            },
            XmlEvent::Empty { name, attrs } => {
                if name@ == "AttributeDefinitions"@ {
                    lemma_ft_walk_err_kind(
                        events,
                        pos + 1,
                        depth,
                        Some(crate::attribute_definitions::ad_empty()),
                    );
                } else {
                    lemma_ft_walk_err_kind(events, pos + 1, depth + 1, acc);
                }
            },
            XmlEvent::Close => {
                if depth != 0 {
                    lemma_ft_walk_err_kind(events, pos + 1, depth - 1, acc);
                }
            },
            XmlEvent::Other => {
                lemma_ft_walk_err_kind(events, pos + 1, depth, acc);
            },
        }
    }
}

/// What building a fixture type from its tag yields, or the kind of the
/// failure: a malformed identifier is a conversion failure; a missing
/// name, missing identifier or missing attribute definitions is a
/// missing required value.
pub open spec fn fixture_type_from_event(
    attrs: Seq<XmlAttr>,
    empty: bool,
    events: Seq<XmlEvent>,
    pos: int,
) -> Result<(FixtureTypeV, int), ErrorKind> {
    let name = attr_string(attrs, "Name"@);
    if attr_value(attrs, "FixtureTypeID"@) matches Some(idv) && !valid_guid(idv) {
        Err(ErrorKind::ValueConversion)
    } else if attr_string_option(attrs, "RefFT"@) matches Some(rv) && !valid_guid(rv) {
        Err(ErrorKind::ValueConversion)
    } else if name.len() == 0 {
        Err(ErrorKind::RequiredValueNotFound)
    } else if attr_value(attrs, "FixtureTypeID"@) is None {
        Err(ErrorKind::RequiredValueNotFound)
    } else {
        let walked = if empty {
            Ok((Option::<AttributeDefinitionsV>::None, pos))
        } else {
            ft_walk(events, pos, 0, None)
        };
        match walked {
            Err(k) => Err(k),
            Ok(w) => match w.0 {
                None => Err(ErrorKind::RequiredValueNotFound),
                Some(adv) => Ok(
                    (
                        FixtureTypeV {
                            name,
                            short_name: attr_string(attrs, "ShortName"@),
                            long_name: attr_string(attrs, "LongName"@),
                            manufacturer: attr_string(attrs, "Manufacturer"@),
                            description: attr_string(attrs, "Description"@),
                            fixture_type_id: attr_value(attrs, "FixtureTypeID"@).unwrap(),
                            thumbnail: attr_string_option(attrs, "Thumbnail"@),
                            ref_ft: attr_string_option(attrs, "RefFT"@),
                            attribute_definitions: adv,
                        },
                        w.1,
                    ),
                ),
            },
        }
    }
}

/// The markup of one fixture type with its attribute definitions.
pub open spec fn fixture_type_xml(v: FixtureTypeV) -> Seq<char> {
    "<FixtureType"@ + crate::xml_write::attr_pair_text("Name"@, v.name)
        + crate::xml_write::attr_pair_text("ShortName"@, v.short_name)
        + crate::xml_write::attr_pair_text("LongName"@, v.long_name)
        + crate::xml_write::attr_pair_text("Manufacturer"@, v.manufacturer)
        + crate::xml_write::attr_pair_text("Description"@, v.description)
        + crate::xml_write::attr_pair_text("FixtureTypeID"@, v.fixture_type_id)
        + crate::xml_write::opt_attr_text("Thumbnail"@, v.thumbnail)
        + crate::xml_write::opt_attr_text("RefFT"@, v.ref_ft) + ">"@
        + crate::attribute_definitions::ad_xml(v.attribute_definitions) + "</FixtureType>"@
}

impl FixtureType {
    /// Writes the entity as a markup fragment that parses back to an
    /// equal entity.
    pub fn to_xml(&self) -> (r: String)
        ensures
            r@ == fixture_type_xml(self@),
    {
        let mut out = String::from_str("<FixtureType");
        crate::xml_write::append_attr(&mut out, "Name", self.name.as_str());
        crate::xml_write::append_attr(&mut out, "ShortName", self.short_name.as_str());
        crate::xml_write::append_attr(&mut out, "LongName", self.long_name.as_str());
        crate::xml_write::append_attr(&mut out, "Manufacturer", self.manufacturer.as_str());
        crate::xml_write::append_attr(&mut out, "Description", self.description.as_str());
        crate::xml_write::append_attr(&mut out, "FixtureTypeID", self.fixture_type_id.as_str());
        crate::xml_write::append_opt_attr(&mut out, "Thumbnail", &self.thumbnail);
        let ref_ft_str = match &self.ref_ft {
            Some(g) => Some(g.as_str().to_owned()),
            None => None,
        };
        crate::xml_write::append_opt_attr(&mut out, "RefFT", &ref_ft_str);
        out.append(">");
        out.append(self.attribute_definitions.to_xml().as_str());
        out.append("</FixtureType>");
        out
    }

    /// The tag name of one entity of this type.
    pub fn single_event_name() -> (r: String)
        ensures
            r@ == "FixtureType"@,
    {
        "FixtureType".to_owned()
    }

    /// Does `event_name` name one entity of this type?
    pub fn is_single_event_name(event_name: &str) -> (r: bool)
        ensures
            r == (event_name@ == "FixtureType"@),
    {
        str_eq(event_name, "FixtureType")
    }

    /// Builds the entity from its tag, validating its identifiers,
    /// walking its subtree for the attribute definitions, and leaving
    /// the cursor just past it.
    pub fn single_from_event(
        attrs: &Vec<XmlAttr>,
        empty: bool,
        events: &Vec<XmlEvent>,
        pos: usize,
    ) -> (r: Result<(FixtureType, usize), GdtfError>)
        requires
            pos <= events@.len(),
        ensures
            fixture_type_from_event(attrs@, empty, events@, pos as int) matches Ok(p) ==> (
            r matches Ok(q) && q.0@ == p.0 && q.1 == p.1 && pos <= q.1 <= events@.len()),
            fixture_type_from_event(attrs@, empty, events@, pos as int) matches Err(k) ==> (
            r matches Err(e) && e.kind() == k),
    {
        let name = Name::new_unchecked(read_attr_string(attrs, "Name").as_str());
        let fixture_type_id = match find_attr(attrs, "FixtureTypeID") {
            Some(v) => match GUID::new_from_str(v.as_str()) {
                Ok(g) => Some(g),
                Err(e) => {
                    return Err(e);
                },
            },
            None => None,
        };
        let ref_ft = match read_attr_string_option(attrs, "RefFT") {
            Some(v) => match GUID::new_from_str(v.as_str()) {
                Ok(g) => Some(g),
                Err(e) => {
                    return Err(e);
                },
            },
            None => None,
        };
        if name.is_empty() {
            return Err(
                GdtfError::RequiredValueNotFound("Name not found in FixtureType".to_owned()),
            );
        }
        let fixture_type_id = match fixture_type_id {
            Some(g) => g,
            None => {
                return Err(
                    GdtfError::RequiredValueNotFound(
                        "FixtureTypeId not found in FixtureType".to_owned(),
                    ),
                );
            },
        };
        let short_name = read_attr_string(attrs, "ShortName");
        let long_name = read_attr_string(attrs, "LongName");
        let manufacturer = read_attr_string(attrs, "Manufacturer");
        let description = read_attr_string(attrs, "Description");
        let thumbnail = read_attr_string_option(attrs, "Thumbnail");
        let mut attribute_definitions: Option<AttributeDefinitions> = None;
        let mut i = pos;
        if !empty {
            let mut depth: usize = 0;
            loop
                invariant_except_break
                    ft_walk(events@, pos as int, 0, Option::None) == ft_walk(
                        events@,
                        i as int,
                        depth as int,
                        opt_ad_view(&attribute_definitions),
                    ),
                invariant
                    !empty,
                    !(attr_value(attrs@, "FixtureTypeID"@) matches Some(idv) && !valid_guid(idv)),
                    !(attr_string_option(attrs@, "RefFT"@) matches Some(rv) && !valid_guid(rv)),
                    attr_string(attrs@, "Name"@).len() != 0,
                    attr_value(attrs@, "FixtureTypeID"@) is Some,
                    pos <= i <= events@.len(),
                    depth <= i,
                ensures
                    ft_walk(events@, pos as int, 0, Option::None) matches Ok(p) && p.0
                        == opt_ad_view(&attribute_definitions) && p.1 == i as int,
                    pos <= i <= events@.len(),
                decreases events@.len() - i,
            {
                if i == events.len() {
                    break;
                }
                match &events[i] {
                    XmlEvent::Open { name: n, attrs: a } => {
                        if AttributeDefinitions::is_single_event_name(n.as_str()) {
                            match AttributeDefinitions::read_single_from_event(
                                a,
                                false,
                                events,
                                i + 1,
                            ) {
                                Ok((ad, end)) => {
                                    attribute_definitions = Some(ad);
                                    i = end;
                                },
                                Err(e) => {
                                    return Err(e);
                                },
                            }
                        } else {
                            depth += 1;
                            i += 1;
                        }
                    },
                    XmlEvent::Empty { name: n, attrs: a } => {
                        if AttributeDefinitions::is_single_event_name(n.as_str()) {
                            match AttributeDefinitions::read_single_from_event(
                                a,
                                true,
                                events,
                                i + 1,
                            ) {
                                Ok((ad, _)) => {
                                    attribute_definitions = Some(ad);
                                    i = i + 1;
                                },
                                Err(e) => {
                                    return Err(e);
                                },
                            }
                        } else {
                            depth += 1;
                            i += 1;
                        }
                    },
                    XmlEvent::Close => {
                        if depth == 0 {
                            i += 1;
                            break;
                        }
                        depth -= 1;
                        i += 1;
                    },
                    XmlEvent::Other => {
                        i += 1;
                    },
                }
            }
        }
        match attribute_definitions {
            Some(attribute_definitions) => Ok(
                (
                    FixtureType {
                        name,
                        short_name,
                        long_name,
                        manufacturer,
                        description,
                        fixture_type_id,
                        thumbnail,
                        ref_ft,
                        attribute_definitions,
                    },
                    i,
                ),
            ),
            None => Err(
                GdtfError::RequiredValueNotFound(
                    "AttributeDefinitions not found in FixtureType".to_owned(),
                ),
            ),
        }
    }

    /// Parses the first entity of this type found in the event sequence.
    pub fn from_events(events: &Vec<XmlEvent>) -> (r: Result<FixtureType, GdtfError>)
        ensures
            find_tag(events@, 0, "FixtureType"@) matches Some(i) ==> (match fixture_type_from_event(
                tag_attrs(events@[i]),
                tag_is_empty(events@[i]),
                events@,
                i + 1,
            ) {
                Ok(p) => r matches Ok(ft) && ft@ == p.0,
                Err(k) => r matches Err(e) && e.kind() == k,
            }),
            find_tag(events@, 0, "FixtureType"@) is None ==> (r matches Err(e) && e.kind()
                == ErrorKind::RequiredValueNotFound),
            r matches Err(e) ==> (e.kind() == ErrorKind::RequiredValueNotFound || e.kind()
                == ErrorKind::ValueConversion),
    {
        proof {
            crate::walker::lemma_find_tag_props(events@, 0, "FixtureType"@);
            match find_tag(events@, 0, "FixtureType"@) {
                Some(i) => {
                    lemma_ft_walk_err_kind(events@, i + 1, 0, Option::None);
                },
                None => {},
            }
        }
        let n = events.len();
        match scan_for_tag(events, "FixtureType") {
            Some(i) => match &events[i] {
                XmlEvent::Open { attrs, .. } => {
                    match Self::single_from_event(attrs, false, events, i + 1) {
                        Ok((ft, _)) => Ok(ft),
                        Err(e) => Err(e),
                    }
                },
                XmlEvent::Empty { attrs, .. } => {
                    match Self::single_from_event(attrs, true, events, i + 1) {
                        Ok((ft, _)) => Ok(ft),
                        Err(e) => Err(e),
                    }
                },
                _ => {
                    proof {
                        assert(false);
                    }
                    Err(GdtfError::RequiredValueNotFound("FixtureType".to_owned()))
                },
            },
            None => Err(GdtfError::RequiredValueNotFound("FixtureType".to_owned())),
        }
    }

    /// Parses the first entity of this type found in `xml`.
    ///
    /// The reader is trusted, so the exact relation between the document
    /// text and the result is stated at the event level, on
    /// [`Self::from_events`].
    pub fn from_xml(xml: &str) -> (r: Result<FixtureType, GdtfError>)
        ensures
            r matches Err(e) ==> (e.kind() == ErrorKind::Tokenizer || e.kind()
                == ErrorKind::RequiredValueNotFound || e.kind() == ErrorKind::ValueConversion),
    {
        let events = crate::tokenizer::collect_events(xml)?;
        Self::from_events(&events)
    }
}

/// Idempotence of parsing: the parsed graph is a function of the event
/// sequence alone, so two parses of the same document's events yield
/// structurally equal entity graphs.
pub proof fn lemma_parse_idempotent(events: Seq<XmlEvent>, r1: FixtureTypeV, r2: FixtureTypeV)
    requires
        find_tag(events, 0, "FixtureType"@) matches Some(i) && fixture_type_from_event(
            tag_attrs(events[i]),
            tag_is_empty(events[i]),
            events,
            i + 1,
        ) matches Ok(p) && r1 == p.0,
        find_tag(events, 0, "FixtureType"@) matches Some(i) && fixture_type_from_event(
            tag_attrs(events[i]),
            tag_is_empty(events[i]),
            events,
            i + 1,
        ) matches Ok(p) && r2 == p.0,
    ensures
        r1 == r2,
{
}

/// The view of a possibly still absent attribute-definitions entity.
pub open spec fn opt_ad_view(o: &Option<AttributeDefinitions>) -> Option<AttributeDefinitionsV> {
    match o {
        Some(ad) => Some(ad@),
        None => None,
    }
}

} // verus!
