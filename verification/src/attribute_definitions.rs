//! The attribute definitions of a fixture type: feature groups and
//! attributes as unique-key maps, activation groups as an ordered list
//! of primary keys.

use vstd::prelude::*;

use crate::activation_group::{activation_group_from_attrs, ActivationGroup};
use crate::attribute::{attribute_from_attrs, attribute_key_from_attrs, Attribute, AttributeV};
use crate::error::{ErrorKind, GdtfError};
use crate::feature_group::{
    feature_group_from_event, feature_group_key_from_attrs, lemma_feature_walk_bounds,
    FeatureGroup, FeatureGroupV,
};
use crate::keyed_list::{keyed_insert, KeyedList};
use crate::name::Name;
use crate::node::names_views;
use crate::text::str_eq;
use crate::walker::{find_tag, lemma_skip_end_bounds, scan_for_tag, skip_end};
use crate::xml_event::{read_attr_string, XmlAttr, XmlEvent};

verus! {

/// Abstract value of an [`AttributeDefinitions`].
pub struct AttributeDefinitionsV {
    pub feature_groups: Seq<(Seq<char>, FeatureGroupV)>,
    pub attributes: Seq<(Seq<char>, AttributeV)>,
    pub activation_groups: Seq<Seq<char>>,
}

/// The attribute definitions with nothing read yet.
pub open spec fn ad_empty() -> AttributeDefinitionsV {
    AttributeDefinitionsV {
        feature_groups: Seq::empty(),
        attributes: Seq::empty(),
        activation_groups: Seq::empty(),
    }
}

/// Defines all attributes that are used in the fixture type.
#[derive(Debug, PartialEq)]
pub struct AttributeDefinitions {
    /// The logical grouping of attributes, keyed by name.
    pub feature_groups: KeyedList<FeatureGroup>,
    /// The fixture type attributes that are used, keyed by name.
    pub attributes: KeyedList<Attribute>,
    /// The names of the activation groups, in document order.
    pub activation_groups: Vec<Name>,
}

impl View for AttributeDefinitions {
    type V = AttributeDefinitionsV;

    open spec fn view(&self) -> AttributeDefinitionsV {
        AttributeDefinitionsV {
            feature_groups: self.feature_groups@,
            attributes: self.attributes@,
            activation_groups: names_views(self.activation_groups@),
        }
    }
}

/// The walk of a `FeatureGroups` wrapper: every `FeatureGroup` child is
/// built and inserted under its key, a repeated key keeping its position
/// and taking the later value.
pub open spec fn fg_map_walk(
    events: Seq<XmlEvent>,
    pos: int,
    depth: int,
    acc: Seq<(Seq<char>, FeatureGroupV)>,
) -> (Seq<(Seq<char>, FeatureGroupV)>, int)
    decreases events.len() - pos,
        via fg_map_walk_decreases
{
    if pos < 0 || pos >= events.len() {
        (acc, events.len() as int)
    } else {
        match events[pos] {
            XmlEvent::Open { name, attrs } => if name@ == "FeatureGroup"@ {
                let built = feature_group_from_event(attrs@, false, events, pos + 1);
                fg_map_walk(
                    events,
                    built.1,
                    depth,
                    keyed_insert(acc, feature_group_key_from_attrs(attrs@), built.0),
                )
            } else {
                fg_map_walk(events, pos + 1, depth + 1, acc)
            },
            XmlEvent::Empty { name, attrs } => if name@ == "FeatureGroup"@ {
                let built = feature_group_from_event(attrs@, true, events, pos + 1);
                fg_map_walk(
                    events,
                    pos + 1,
                    depth,
                    keyed_insert(acc, feature_group_key_from_attrs(attrs@), built.0),
                )
            } else {
                fg_map_walk(events, pos + 1, depth + 1, acc)
            },
            XmlEvent::Close => if depth == 0 {
                (acc, pos + 1)
            } else {
                fg_map_walk(events, pos + 1, depth - 1, acc)
            },
            XmlEvent::Other => fg_map_walk(events, pos + 1, depth, acc),
        }
    }
}

#[via_fn]
proof fn fg_map_walk_decreases(
    events: Seq<XmlEvent>,
    pos: int,
    depth: int,
    acc: Seq<(Seq<char>, FeatureGroupV)>,
) {
    if 0 <= pos < events.len() {
        lemma_feature_walk_bounds(events, pos + 1, 0, Seq::empty());
    }
}

/// A feature-group map walk neither moves backwards nor leaves the
/// events.
pub proof fn lemma_fg_map_walk_bounds(
    events: Seq<XmlEvent>,
    pos: int,
    depth: int,
    acc: Seq<(Seq<char>, FeatureGroupV)>,
)
    requires
        0 <= pos <= events.len(),
    ensures
        pos <= fg_map_walk(events, pos, depth, acc).1 <= events.len(),
    decreases events.len() - pos,
{
    if pos < events.len() {
        match events[pos] {
            XmlEvent::Open { name, attrs } => {
                if name@ == "FeatureGroup"@ {
                    let built = feature_group_from_event(attrs@, false, events, pos + 1);
                    lemma_feature_walk_bounds(events, pos + 1, 0, Seq::empty());
                    lemma_fg_map_walk_bounds(
                        events,
                        built.1,
                        depth,
                        keyed_insert(acc, feature_group_key_from_attrs(attrs@), built.0),
                    );
                } else {
                    lemma_fg_map_walk_bounds(events, pos + 1, depth + 1, acc);
                }
            },
            XmlEvent::Empty { name, attrs } => {
                if name@ == "FeatureGroup"@ {
                    let built = feature_group_from_event(attrs@, true, events, pos + 1);
                    lemma_fg_map_walk_bounds(
                        events,
                        pos + 1,
                        depth,
                        keyed_insert(acc, feature_group_key_from_attrs(attrs@), built.0),
                    );
                } else {
                    lemma_fg_map_walk_bounds(events, pos + 1, depth + 1, acc);
                }
            },
            XmlEvent::Close => {
                if depth != 0 {
                    lemma_fg_map_walk_bounds(events, pos + 1, depth - 1, acc);
                }
            },
            XmlEvent::Other => {
                lemma_fg_map_walk_bounds(events, pos + 1, depth, acc);
            },
        }
    }
}

/// The walk of an `Attributes` wrapper: every `Attribute` child is built
/// and inserted under its key, a repeated key keeping its position and
/// taking the later value; a child with a malformed color is terminal
/// for the whole walk.
pub open spec fn attr_map_walk(
    events: Seq<XmlEvent>,
    pos: int,
    depth: int,
    acc: Seq<(Seq<char>, AttributeV)>,
) -> Result<(Seq<(Seq<char>, AttributeV)>, int), ErrorKind>
    decreases events.len() - pos,
        via attr_map_walk_decreases
{
    if pos < 0 || pos >= events.len() {
        Ok((acc, events.len() as int))
    } else {
        match events[pos] {
            XmlEvent::Open { name, attrs } => if name@ == "Attribute"@ {
                if crate::attribute::attribute_color_ok(attrs@) {
                    attr_map_walk(
                        events,
                        skip_end(events, pos + 1, 0),
                        depth,
                        keyed_insert(
                            acc,
                            attribute_key_from_attrs(attrs@),
                            attribute_from_attrs(attrs@),
                        ),
                    )
                } else {
                    Err(ErrorKind::ValueConversion)
                }
            } else {
                attr_map_walk(events, pos + 1, depth + 1, acc)
            },
            XmlEvent::Empty { name, attrs } => if name@ == "Attribute"@ {
                if crate::attribute::attribute_color_ok(attrs@) {
                    attr_map_walk(
                        events,
                        pos + 1,
                        depth,
                        keyed_insert(
                            acc,
                            attribute_key_from_attrs(attrs@),
                            attribute_from_attrs(attrs@),
                        ),
                    )
                } else {
                    Err(ErrorKind::ValueConversion)
                }
            } else {
                attr_map_walk(events, pos + 1, depth + 1, acc)
            },
            XmlEvent::Close => if depth == 0 {
                Ok((acc, pos + 1))
            } else {
                attr_map_walk(events, pos + 1, depth - 1, acc)
            },
            XmlEvent::Other => attr_map_walk(events, pos + 1, depth, acc),
        }
    }
}

#[via_fn]
proof fn attr_map_walk_decreases(
    events: Seq<XmlEvent>,
    pos: int,
    depth: int,
    acc: Seq<(Seq<char>, AttributeV)>,
) {
    if 0 <= pos < events.len() {
        lemma_skip_end_bounds(events, pos + 1, 0);
    }
}

/// A successful attribute map walk neither moves backwards nor leaves
/// the events.
pub proof fn lemma_attr_map_walk_bounds(
    events: Seq<XmlEvent>,
    pos: int,
    depth: int,
    acc: Seq<(Seq<char>, AttributeV)>,
)
    requires
        0 <= pos <= events.len(),
    ensures
        attr_map_walk(events, pos, depth, acc) matches Ok(p) ==> pos <= p.1 <= events.len(),
    decreases events.len() - pos,
{
    if pos < events.len() {
        if 0 <= pos + 1 <= events.len() {
            lemma_skip_end_bounds(events, pos + 1, 0);
        }
        match events[pos] {
            XmlEvent::Open { name, attrs } => {
                if name@ == "Attribute"@ {
                    if crate::attribute::attribute_color_ok(attrs@) {
                        lemma_attr_map_walk_bounds(
                            events,
                            skip_end(events, pos + 1, 0),
                            depth,
                            keyed_insert(
                                acc,
                                attribute_key_from_attrs(attrs@),
                                attribute_from_attrs(attrs@),
                            ),
                        );
                    }
                } else {
                    lemma_attr_map_walk_bounds(events, pos + 1, depth + 1, acc);
                }
            },
            XmlEvent::Empty { name, attrs } => {
                if name@ == "Attribute"@ {
                    if crate::attribute::attribute_color_ok(attrs@) {
                        lemma_attr_map_walk_bounds(
                            events,
                            pos + 1,
                            depth,
                            keyed_insert(
                                acc,
                                attribute_key_from_attrs(attrs@),
                                attribute_from_attrs(attrs@),
                            ),
                        );
                    }
                } else {
                    lemma_attr_map_walk_bounds(events, pos + 1, depth + 1, acc);
                }
            },
            XmlEvent::Close => {
                if depth != 0 {
                    lemma_attr_map_walk_bounds(events, pos + 1, depth - 1, acc);
                }
            },
            XmlEvent::Other => {
                lemma_attr_map_walk_bounds(events, pos + 1, depth, acc);
            },
        }
    }
}

/// The walk of an `ActivationGroups` wrapper: the primary key of every
/// `ActivationGroup` child joins `acc` in document order.
pub open spec fn ag_key_walk(
    events: Seq<XmlEvent>,
    pos: int,
    depth: int,
    acc: Seq<Seq<char>>,
) -> (Seq<Seq<char>>, int)
    decreases events.len() - pos,
        via ag_key_walk_decreases
{
    if pos < 0 || pos >= events.len() {
        (acc, events.len() as int)
    } else {
        match events[pos] {
            XmlEvent::Open { name, attrs } => if name@ == "ActivationGroup"@ {
                ag_key_walk(
                    events,
                    skip_end(events, pos + 1, 0),
                    depth,
                    acc.push(activation_group_from_attrs(attrs@).name),
                )
            } else {
                ag_key_walk(events, pos + 1, depth + 1, acc)
            },
            XmlEvent::Empty { name, attrs } => if name@ == "ActivationGroup"@ {
                ag_key_walk(events, pos + 1, depth, acc.push(activation_group_from_attrs(attrs@).name))
            } else {
                ag_key_walk(events, pos + 1, depth + 1, acc)
            },
            XmlEvent::Close => if depth == 0 {
                (acc, pos + 1)
            } else {
                ag_key_walk(events, pos + 1, depth - 1, acc)
            },
            XmlEvent::Other => ag_key_walk(events, pos + 1, depth, acc),
        }
    }
}

#[via_fn]
proof fn ag_key_walk_decreases(events: Seq<XmlEvent>, pos: int, depth: int, acc: Seq<Seq<char>>) {
    if 0 <= pos < events.len() {
        lemma_skip_end_bounds(events, pos + 1, 0);
    }
}

/// An activation-group key walk neither moves backwards nor leaves the
/// events.
pub proof fn lemma_ag_key_walk_bounds(
    events: Seq<XmlEvent>,
    pos: int,
    depth: int,
    acc: Seq<Seq<char>>,
)
    requires
        0 <= pos <= events.len(),
    ensures
        pos <= ag_key_walk(events, pos, depth, acc).1 <= events.len(),
    decreases events.len() - pos,
{
    if pos < events.len() {
        if 0 <= pos + 1 <= events.len() {
            lemma_skip_end_bounds(events, pos + 1, 0);
        }
        match events[pos] {
            XmlEvent::Open { name, attrs } => {
                if name@ == "ActivationGroup"@ {
                    lemma_ag_key_walk_bounds(
                        events,
                        skip_end(events, pos + 1, 0),
                        depth,
                        acc.push(activation_group_from_attrs(attrs@).name),
                    );
                } else {
                    lemma_ag_key_walk_bounds(events, pos + 1, depth + 1, acc);
                }
            },
            XmlEvent::Empty { name, attrs } => {
                if name@ == "ActivationGroup"@ {
                    lemma_ag_key_walk_bounds(
                        events,
                        pos + 1,
                        depth,
                        acc.push(activation_group_from_attrs(attrs@).name),
                    );
                } else {
                    lemma_ag_key_walk_bounds(events, pos + 1, depth + 1, acc);
                }
            },
            XmlEvent::Close => {
                if depth != 0 {
                    lemma_ag_key_walk_bounds(events, pos + 1, depth - 1, acc);
                }
            },
            XmlEvent::Other => {
                lemma_ag_key_walk_bounds(events, pos + 1, depth, acc);
            },
        }
    }
}

/// The walk of the attribute definitions' own subtree: each recognized
/// wrapper element replaces the corresponding collection with its
/// contents (an empty wrapper with the empty collection), anything else
/// is skipped by depth counting, and a failure inside the attribute
/// wrapper is terminal.
pub open spec fn ad_walk(
    events: Seq<XmlEvent>,
    pos: int,
    depth: int,
    acc: AttributeDefinitionsV,
) -> Result<(AttributeDefinitionsV, int), ErrorKind>
    decreases events.len() - pos,
        via ad_walk_decreases
{
    if pos < 0 || pos >= events.len() {
        Ok((acc, events.len() as int))
    } else {
        match events[pos] {
            XmlEvent::Open { name, attrs } => if name@ == "FeatureGroups"@ {
                let inner = fg_map_walk(events, pos + 1, 0, Seq::empty());
                ad_walk(
                    events,
                    inner.1,
                    depth,
                    AttributeDefinitionsV { feature_groups: inner.0, ..acc },
                )
            } else if name@ == "Attributes"@ {
                match attr_map_walk(events, pos + 1, 0, Seq::empty()) {
                    Ok(inner) => ad_walk(
                        events,
                        inner.1,
                        depth,
                        AttributeDefinitionsV { attributes: inner.0, ..acc },
                    ),
                    Err(k) => Err(k),
                }
            } else if name@ == "ActivationGroups"@ {
                let inner = ag_key_walk(events, pos + 1, 0, Seq::empty());
                ad_walk(
                    events,
                    inner.1,
                    depth,
                    AttributeDefinitionsV { activation_groups: inner.0, ..acc },
                )
            } else {
                ad_walk(events, pos + 1, depth + 1, acc)
            },
            XmlEvent::Empty { name, attrs } => if name@ == "FeatureGroups"@ {
                ad_walk(
                    events,
                    pos + 1,
                    depth,
                    AttributeDefinitionsV { feature_groups: Seq::empty(), ..acc },
                )
            } else if name@ == "Attributes"@ {
                ad_walk(
                    events,
                    pos + 1,
                    depth,
                    AttributeDefinitionsV { attributes: Seq::empty(), ..acc },
                )
            } else if name@ == "ActivationGroups"@ {
                ad_walk(
                    events,
                    pos + 1,
                    depth,
                    AttributeDefinitionsV { activation_groups: Seq::empty(), ..acc },
                )
            } else {
                ad_walk(events, pos + 1, depth + 1, acc)
            },
            XmlEvent::Close => if depth == 0 {
                Ok((acc, pos + 1))
            } else {
                ad_walk(events, pos + 1, depth - 1, acc)
            },
            XmlEvent::Other => ad_walk(events, pos + 1, depth, acc),
        }
    }
}

#[via_fn]
proof fn ad_walk_decreases(
    events: Seq<XmlEvent>,
    pos: int,
    depth: int,
    acc: AttributeDefinitionsV,
) {
    if 0 <= pos < events.len() {
        lemma_fg_map_walk_bounds(events, pos + 1, 0, Seq::empty());
        lemma_attr_map_walk_bounds(events, pos + 1, 0, Seq::empty());
        lemma_ag_key_walk_bounds(events, pos + 1, 0, Seq::empty());
    }
}

/// A successful attribute-definitions walk neither moves backwards nor
/// leaves the events.
pub proof fn lemma_ad_walk_bounds(
    events: Seq<XmlEvent>,
    pos: int,
    depth: int,
    acc: AttributeDefinitionsV,
)
    requires
        0 <= pos <= events.len(),
    ensures
        ad_walk(events, pos, depth, acc) matches Ok(p) ==> pos <= p.1 <= events.len(),
    decreases events.len() - pos,
{
    if pos < events.len() {
        if 0 <= pos + 1 <= events.len() {
            lemma_fg_map_walk_bounds(events, pos + 1, 0, Seq::empty());
            lemma_attr_map_walk_bounds(events, pos + 1, 0, Seq::empty());
            lemma_ag_key_walk_bounds(events, pos + 1, 0, Seq::empty());
        }
        match events[pos] {
            XmlEvent::Open { name, attrs } => {
                if name@ == "FeatureGroups"@ {
                    let inner = fg_map_walk(events, pos + 1, 0, Seq::empty());
                    lemma_ad_walk_bounds(
                        events,
                        inner.1,
                        depth,
                        AttributeDefinitionsV { feature_groups: inner.0, ..acc },
                    );
                } else if name@ == "Attributes"@ {
                    match attr_map_walk(events, pos + 1, 0, Seq::empty()) {
                        Ok(inner) => {
                            lemma_ad_walk_bounds(
                                events,
                                inner.1,
                                depth,
                                AttributeDefinitionsV { attributes: inner.0, ..acc },
                            );
                        },
                        Err(k) => {},
                    }
                } else if name@ == "ActivationGroups"@ {
                    let inner = ag_key_walk(events, pos + 1, 0, Seq::empty());
                    lemma_ad_walk_bounds(
                        events,
                        inner.1,
                        depth,
                        AttributeDefinitionsV { activation_groups: inner.0, ..acc },
                    );
                } else {
                    lemma_ad_walk_bounds(events, pos + 1, depth + 1, acc);
                }
            },
            XmlEvent::Empty { name, attrs } => {
                if name@ == "FeatureGroups"@ {
                    lemma_ad_walk_bounds(
                        events,
                        pos + 1,
                        depth,
                        AttributeDefinitionsV { feature_groups: Seq::empty(), ..acc },
                    );
                } else if name@ == "Attributes"@ {
                    lemma_ad_walk_bounds(
                        events,
                        pos + 1,
                        depth,
                        AttributeDefinitionsV { attributes: Seq::empty(), ..acc },
                    );
                } else if name@ == "ActivationGroups"@ {
                    lemma_ad_walk_bounds(
                        events,
                        pos + 1,
                        depth,
                        AttributeDefinitionsV { activation_groups: Seq::empty(), ..acc },
                    );
                } else {
                    lemma_ad_walk_bounds(events, pos + 1, depth + 1, acc);
                }
            },
            XmlEvent::Close => {
                if depth != 0 {
                    lemma_ad_walk_bounds(events, pos + 1, depth - 1, acc);
                }
            },
            XmlEvent::Other => {
                lemma_ad_walk_bounds(events, pos + 1, depth, acc);
            },
        }
    }
}

/// The only failure an attribute map walk reports is a conversion
/// failure.
pub proof fn lemma_attr_map_walk_err_kind(
    events: Seq<XmlEvent>,
    pos: int,
    depth: int,
    acc: Seq<(Seq<char>, AttributeV)>,
)
    ensures
        attr_map_walk(events, pos, depth, acc) matches Err(k) ==> k == ErrorKind::ValueConversion,
    decreases events.len() - pos,
{
    if 0 <= pos < events.len() {
        lemma_skip_end_bounds(events, pos + 1, 0);
        match events[pos] {
            XmlEvent::Open { name, attrs } => {
                if name@ == "Attribute"@ {
                    if crate::attribute::attribute_color_ok(attrs@) {
                        lemma_attr_map_walk_err_kind(
                            events,
                            skip_end(events, pos + 1, 0),
                            depth,
                            keyed_insert(
                                acc,
                                attribute_key_from_attrs(attrs@),
                                attribute_from_attrs(attrs@),
                            ),
                        );
                    }
                } else {
                    lemma_attr_map_walk_err_kind(events, pos + 1, depth + 1, acc);
                }
            },
            XmlEvent::Empty { name, attrs } => {
                if name@ == "Attribute"@ {
                    if crate::attribute::attribute_color_ok(attrs@) {
                        lemma_attr_map_walk_err_kind(
                            events,
                            pos + 1,
                            depth,
                            keyed_insert(
                                acc,
                                attribute_key_from_attrs(attrs@),
                                attribute_from_attrs(attrs@),
                            ),
                        );
                    }
                } else {
                    lemma_attr_map_walk_err_kind(events, pos + 1, depth + 1, acc);
                }
            },
            XmlEvent::Close => {
                if depth != 0 {
                    lemma_attr_map_walk_err_kind(events, pos + 1, depth - 1, acc);
                }
            },
            XmlEvent::Other => {
                lemma_attr_map_walk_err_kind(events, pos + 1, depth, acc);
            },
        }
    }
}

/// The only failure an attribute-definitions walk reports is a
/// conversion failure.
pub proof fn lemma_ad_walk_err_kind(
    events: Seq<XmlEvent>,
    pos: int,
    depth: int,
    acc: AttributeDefinitionsV,
)
    requires
        0 <= pos,
    ensures
        ad_walk(events, pos, depth, acc) matches Err(k) ==> k == ErrorKind::ValueConversion,
    decreases events.len() - pos,
{
    if 0 <= pos < events.len() {
        lemma_fg_map_walk_bounds(events, pos + 1, 0, Seq::empty());
        lemma_attr_map_walk_bounds(events, pos + 1, 0, Seq::empty());
        lemma_ag_key_walk_bounds(events, pos + 1, 0, Seq::empty());
        lemma_attr_map_walk_err_kind(events, pos + 1, 0, Seq::empty());
        match events[pos] {
            XmlEvent::Open { name, attrs } => {
                if name@ == "FeatureGroups"@ {
                    let inner = fg_map_walk(events, pos + 1, 0, Seq::empty());
                    lemma_ad_walk_err_kind(
                        events,
                        inner.1,
                        depth,
                        AttributeDefinitionsV { feature_groups: inner.0, ..acc },
                    );
                } else if name@ == "Attributes"@ {
                    match attr_map_walk(events, pos + 1, 0, Seq::empty()) {
                        Ok(inner) => {
                            lemma_ad_walk_err_kind(
                                events,
                                inner.1,
                                depth,
                                AttributeDefinitionsV { attributes: inner.0, ..acc },
                            );
                        },
                        Err(k) => {},
                    }
                } else if name@ == "ActivationGroups"@ {
                    let inner = ag_key_walk(events, pos + 1, 0, Seq::empty());
                    lemma_ad_walk_err_kind(
                        events,
                        inner.1,
                        depth,
                        AttributeDefinitionsV { activation_groups: inner.0, ..acc },
                    );
                } else {
                    lemma_ad_walk_err_kind(events, pos + 1, depth + 1, acc);
                }
            },
            XmlEvent::Empty { name, attrs } => {
                if name@ == "FeatureGroups"@ {
                    lemma_ad_walk_err_kind(
                        events,
                        pos + 1,
                        depth,
                        AttributeDefinitionsV { feature_groups: Seq::empty(), ..acc },
                    );
                } else if name@ == "Attributes"@ {
                    lemma_ad_walk_err_kind(
                        events,
                        pos + 1,
                        depth,
                        AttributeDefinitionsV { attributes: Seq::empty(), ..acc },
                    );
                } else if name@ == "ActivationGroups"@ {
                    lemma_ad_walk_err_kind(
                        events,
                        pos + 1,
                        depth,
                        AttributeDefinitionsV { activation_groups: Seq::empty(), ..acc },
                    );
                } else {
                    lemma_ad_walk_err_kind(events, pos + 1, depth + 1, acc);
                }
            },
            XmlEvent::Close => {
                if depth != 0 {
                    lemma_ad_walk_err_kind(events, pos + 1, depth - 1, acc);
                }
            },
            XmlEvent::Other => {
                lemma_ad_walk_err_kind(events, pos + 1, depth, acc);
            },
        }
    }
}

/// What building the attribute definitions from its tag yields: a
/// self-closing tag has every collection empty; otherwise its subtree is
/// walked, and a failure inside it is terminal.
pub open spec fn ad_from_event(empty: bool, events: Seq<XmlEvent>, pos: int) -> Result<
    (AttributeDefinitionsV, int),
    ErrorKind,
> {
    if empty {
        Ok((ad_empty(), pos))
    } else {
        ad_walk(events, pos, 0, ad_empty())
    }
}

/// The markup of the feature groups of the definitions, in order.
pub open spec fn fgs_xml(entries: Seq<(Seq<char>, FeatureGroupV)>) -> Seq<char>
    decreases entries.len(),
{
    if entries.len() == 0 {
        Seq::empty()
    } else {
        fgs_xml(entries.drop_last()) + crate::feature_group::feature_group_xml(entries.last().1)
    }
}

/// The markup of the attributes of the definitions, in order.
pub open spec fn attrs_xml(entries: Seq<(Seq<char>, AttributeV)>) -> Seq<char>
    decreases entries.len(),
{
    if entries.len() == 0 {
        Seq::empty()
    } else {
        attrs_xml(entries.drop_last()) + crate::attribute::attribute_xml(entries.last().1)
    }
}

/// The markup of the activation groups of the definitions, in order.
pub open spec fn ags_xml(keys: Seq<Seq<char>>) -> Seq<char>
    decreases keys.len(),
{
    if keys.len() == 0 {
        Seq::empty()
    } else {
        ags_xml(keys.drop_last()) + crate::activation_group::activation_group_xml(
            crate::activation_group::ActivationGroupV { name: keys.last() },
        )
    }
}

/// The markup of the attribute definitions with their three wrappers.
pub open spec fn ad_xml(v: AttributeDefinitionsV) -> Seq<char> {
    "<AttributeDefinitions>"@ + "<FeatureGroups>"@ + fgs_xml(v.feature_groups)
        + "</FeatureGroups>"@ + "<Attributes>"@ + attrs_xml(v.attributes) + "</Attributes>"@
        + "<ActivationGroups>"@ + ags_xml(v.activation_groups) + "</ActivationGroups>"@
        + "</AttributeDefinitions>"@
}

impl AttributeDefinitions {
    /// Writes the entity as a markup fragment that parses back to an
    /// equal entity.
    pub fn to_xml(&self) -> (r: String)
        ensures
            r@ == ad_xml(self@),
    {
        let mut out = String::from_str("<AttributeDefinitions>");
        out.append("<FeatureGroups>");
        let fg_entries = self.feature_groups.entries();
        for i in 0..fg_entries.len()
            invariant
                fg_entries@.len() == self.feature_groups@.len(),
                forall|j: int|
                    0 <= j < fg_entries@.len() ==> (#[trigger] fg_entries@[j]).1@
                        == self.feature_groups@[j].1,
                out@ == "<AttributeDefinitions>"@ + "<FeatureGroups>"@ + fgs_xml(
                    self.feature_groups@.take(i as int),
                ),
            decreases fg_entries@.len() - i,
        {
            proof {
                let es = self.feature_groups@;
                assert(es.take(i + 1).drop_last() =~= es.take(i as int));
                assert(es.take(i + 1).last() == es[i as int]);
            }
            out.append(fg_entries[i].1.to_xml().as_str());
        }
        proof {
            assert(self.feature_groups@.take(self.feature_groups@.len() as int)
                =~= self.feature_groups@);
        }
        out.append("</FeatureGroups>");
        out.append("<Attributes>");
        let attr_entries = self.attributes.entries();
        for i in 0..attr_entries.len()
            invariant
                attr_entries@.len() == self.attributes@.len(),
                forall|j: int|
                    0 <= j < attr_entries@.len() ==> (#[trigger] attr_entries@[j]).1@
                        == self.attributes@[j].1,
                out@ == "<AttributeDefinitions>"@ + "<FeatureGroups>"@ + fgs_xml(
                    self.feature_groups@,
                ) + "</FeatureGroups>"@ + "<Attributes>"@ + attrs_xml(
                    self.attributes@.take(i as int),
                ),
            decreases attr_entries@.len() - i,
        {
            proof {
                let es = self.attributes@;
                assert(es.take(i + 1).drop_last() =~= es.take(i as int));
                assert(es.take(i + 1).last() == es[i as int]);
            }
            out.append(attr_entries[i].1.to_xml().as_str());
        }
        proof {
            assert(self.attributes@.take(self.attributes@.len() as int) =~= self.attributes@);
        }
        out.append("</Attributes>");
        out.append("<ActivationGroups>");
        for i in 0..self.activation_groups.len()
            invariant
                out@ == "<AttributeDefinitions>"@ + "<FeatureGroups>"@ + fgs_xml(
                    self.feature_groups@,
                ) + "</FeatureGroups>"@ + "<Attributes>"@ + attrs_xml(self.attributes@)
                    + "</Attributes>"@ + "<ActivationGroups>"@ + ags_xml(
                    names_views(self.activation_groups@).take(i as int),
                ),
            decreases self.activation_groups@.len() - i,
        {
            proof {
                let ks = names_views(self.activation_groups@);
                assert(ks.take(i + 1).drop_last() =~= ks.take(i as int));
                assert(ks.take(i + 1).last() == ks[i as int]);
            }
            out.append("<ActivationGroup");
            crate::xml_write::append_attr(&mut out, "Name", self.activation_groups[i].as_str());
            out.append("/>");
        }
        proof {
            assert(names_views(self.activation_groups@).take(self.activation_groups@.len() as int)
                =~= names_views(self.activation_groups@));
        }
        out.append("</ActivationGroups>");
        out.append("</AttributeDefinitions>");
        out
    }

    /// The tag name of one entity of this type.
    pub fn single_event_name() -> (r: String)
        ensures
            r@ == "AttributeDefinitions"@,
    {
        "AttributeDefinitions".to_owned()
    }

    /// Does `event_name` name one entity of this type?
    pub fn is_single_event_name(event_name: &str) -> (r: bool)
        ensures
            r == (event_name@ == "AttributeDefinitions"@),
    {
        str_eq(event_name, "AttributeDefinitions")
    }

    /// Reads a `FeatureGroups` wrapper's contents.
    fn read_feature_groups(events: &Vec<XmlEvent>, pos: usize) -> (r: (
        KeyedList<FeatureGroup>,
        usize,
    ))
        requires
            pos <= events@.len(),
        ensures
            r.0@ == fg_map_walk(events@, pos as int, 0, Seq::empty()).0,
            r.1 == fg_map_walk(events@, pos as int, 0, Seq::empty()).1,
            pos <= r.1 <= events@.len(),
    {
        let mut list: KeyedList<FeatureGroup> = KeyedList::new();
        let mut i = pos;
        let mut depth: usize = 0;
        loop
            invariant_except_break
                fg_map_walk(events@, pos as int, 0, Seq::empty()) == fg_map_walk(
                    events@,
                    i as int,
                    depth as int,
                    list@,
                ),
            invariant
                pos <= i <= events@.len(),
                depth <= i,
            ensures
                fg_map_walk(events@, pos as int, 0, Seq::empty()) == (list@, i as int),
                pos <= i <= events@.len(),
            decreases events@.len() - i,
        {
            if i == events.len() {
                break;
            }
            match &events[i] {
                XmlEvent::Open { name: n, attrs: a } => {
                    if FeatureGroup::is_single_event_name(n.as_str()) {
                        let key = Name::new_unchecked(read_attr_string(a, "Name").as_str());
                        let (fg, end) = FeatureGroup::single_from_event(a, false, events, i + 1);
                        list.insert(key, fg);
                        i = end;
                    } else {
                        depth += 1;
                        i += 1;
                    }
                },
                XmlEvent::Empty { name: n, attrs: a } => {
                    if FeatureGroup::is_single_event_name(n.as_str()) {
                        let key = Name::new_unchecked(read_attr_string(a, "Name").as_str());
                        let (fg, _) = FeatureGroup::single_from_event(a, true, events, i + 1);
                        list.insert(key, fg);
                        i = i + 1;
                    } else {
                        depth += 1;
                        i += 1;
                    }
                },
                XmlEvent::Close => {
                    if depth == 0 {
                        i += 1;
                        break;
                    }
                    depth -= 1;
                    i += 1;
                },
                XmlEvent::Other => {
                    i += 1;
                },
            }
        }
        (list, i)
    }

    /// Reads an `Attributes` wrapper's contents; a child with a
    /// malformed color fails the whole read.
    fn read_attributes(events: &Vec<XmlEvent>, pos: usize) -> (r: Result<
        (KeyedList<Attribute>, usize),
        GdtfError,
    >)
        requires
            pos <= events@.len(),
        ensures
            attr_map_walk(events@, pos as int, 0, Seq::empty()) matches Ok(p) ==> (r matches Ok(q)
                && q.0@ == p.0 && q.1 == p.1 && pos <= q.1 <= events@.len()),
            attr_map_walk(events@, pos as int, 0, Seq::empty()) matches Err(k) ==> (r matches Err(e)
                && e.kind() == k),
    {
        let mut list: KeyedList<Attribute> = KeyedList::new();
        let mut i = pos;
        let mut depth: usize = 0;
        loop
            invariant_except_break
                attr_map_walk(events@, pos as int, 0, Seq::empty()) == attr_map_walk(
                    events@,
                    i as int,
                    depth as int,
                    list@,
                ),
            invariant
                pos <= i <= events@.len(),
                depth <= i,
            ensures
                attr_map_walk(events@, pos as int, 0, Seq::empty()) matches Ok(p) && p.0 == list@
                    && p.1 == i as int,
                pos <= i <= events@.len(),
            decreases events@.len() - i,
        {
            if i == events.len() {
                break;
            }
            match &events[i] {
                XmlEvent::Open { name: n, attrs: a } => {
                    if Attribute::is_single_event_name(n.as_str()) {
                        let key = Name::new_unchecked(read_attr_string(a, "Name").as_str());
                        match Attribute::single_from_event(a, false, events, i + 1) {
                            Ok((attr, end)) => {
                                list.insert(key, attr);
                                i = end;
                            },
                            Err(e) => {
                                return Err(e);
                            },
                        }
                    } else {
                        depth += 1;
                        i += 1;
                    }
                },
                XmlEvent::Empty { name: n, attrs: a } => {
                    if Attribute::is_single_event_name(n.as_str()) {
                        let key = Name::new_unchecked(read_attr_string(a, "Name").as_str());
                        match Attribute::single_from_event(a, true, events, i + 1) {
                            Ok((attr, _)) => {
                                list.insert(key, attr);
                                i = i + 1;
                            },
                            Err(e) => {
                                return Err(e);
                            },
                        }
                    } else {
                        depth += 1;
                        i += 1;
                    }
                },
                XmlEvent::Close => {
                    if depth == 0 {
                        i += 1;
                        break;
                    }
                    depth -= 1;
                    i += 1;
                },
                XmlEvent::Other => {
                    i += 1;
                },
            }
        }
        Ok((list, i))
    }

    /// Reads an `ActivationGroups` wrapper's contents: the primary keys
    /// of its children, in document order.
    fn read_activation_groups(events: &Vec<XmlEvent>, pos: usize) -> (r: (Vec<Name>, usize))
        requires
            pos <= events@.len(),
        ensures
            names_views(r.0@) == ag_key_walk(events@, pos as int, 0, Seq::empty()).0,
            r.1 == ag_key_walk(events@, pos as int, 0, Seq::empty()).1,
            pos <= r.1 <= events@.len(),
    {
        let mut keys: Vec<Name> = Vec::new();
        let mut i = pos;
        let mut depth: usize = 0;
        proof {
            assert(names_views(keys@) =~= Seq::<Seq<char>>::empty());
        }
        loop
            invariant_except_break
                ag_key_walk(events@, pos as int, 0, Seq::empty()) == ag_key_walk(
                    events@,
                    i as int,
                    depth as int,
                    names_views(keys@),
                ),
            invariant
                pos <= i <= events@.len(),
                depth <= i,
            ensures
                ag_key_walk(events@, pos as int, 0, Seq::empty()) == (names_views(keys@), i as int),
                pos <= i <= events@.len(),
            decreases events@.len() - i,
        {
            if i == events.len() {
                break;
            }
            match &events[i] {
                XmlEvent::Open { name: n, attrs: a } => {
                    if ActivationGroup::is_single_event_name(n.as_str()) {
                        let (ag, end) = ActivationGroup::single_from_event(a, false, events, i + 1);
                        proof {
                            assert(names_views(keys@.push(ag.name)) =~= names_views(keys@).push(
                                ag.name@,
                            ));
                        }
                        keys.push(ag.name);
                        i = end;
                    } else {
                        depth += 1;
                        i += 1;
                    }
                },
                XmlEvent::Empty { name: n, attrs: a } => {
                    if ActivationGroup::is_single_event_name(n.as_str()) {
                        let (ag, _) = ActivationGroup::single_from_event(a, true, events, i + 1);
                        proof {
                            assert(names_views(keys@.push(ag.name)) =~= names_views(keys@).push(
                                ag.name@,
                            ));
                        }
                        keys.push(ag.name);
                        i = i + 1;
                    } else {
                        depth += 1;
                        i += 1;
                    }
                },
                XmlEvent::Close => {
                    if depth == 0 {
                        i += 1;
                        break;
                    }
                    depth -= 1;
                    i += 1;
                },
                XmlEvent::Other => {
                    i += 1;
                },
            }
        }
        (keys, i)
    }

    /// Builds the entity from its tag, walking its subtree for the three
    /// wrapper elements and leaving the cursor just past it; a failure
    /// inside the attribute wrapper is terminal.
    pub fn read_single_from_event(
        attrs: &Vec<XmlAttr>,
        empty: bool,
        events: &Vec<XmlEvent>,
        pos: usize,
    ) -> (r: Result<(AttributeDefinitions, usize), GdtfError>)
        requires
            pos <= events@.len(),
        ensures
            ad_from_event(empty, events@, pos as int) matches Ok(p) ==> (r matches Ok(q) && q.0@
                == p.0 && q.1 == p.1 && pos <= q.1 <= events@.len()),
            ad_from_event(empty, events@, pos as int) matches Err(k) ==> (r matches Err(e)
                && e.kind() == k),
    {
        let mut result = AttributeDefinitions {
            feature_groups: KeyedList::new(),
            attributes: KeyedList::new(),
            activation_groups: Vec::new(),
        };
        proof {
            assert(names_views(result.activation_groups@) =~= Seq::<Seq<char>>::empty());
            assert(result@ == ad_empty());
        }
        if empty {
            return Ok((result, pos));
        }
        let mut i = pos;
        let mut depth: usize = 0;
        loop
            invariant_except_break
                ad_walk(events@, pos as int, 0, ad_empty()) == ad_walk(
                    events@,
                    i as int,
                    depth as int,
                    result@,
                ),
            invariant
                !empty,
                pos <= i <= events@.len(),
                depth <= i,
            ensures
                ad_walk(events@, pos as int, 0, ad_empty()) matches Ok(p) && p.0 == result@ && p.1
                    == i as int,
                pos <= i <= events@.len(),
            decreases events@.len() - i,
        {
            if i == events.len() {
                break;
            }
            match &events[i] {
                XmlEvent::Open { name: n, .. } => {
                    if FeatureGroup::is_group_event_name(n.as_str()) {
                        let (fgs, end) = Self::read_feature_groups(events, i + 1);
                        result.feature_groups = fgs;
                        i = end;
                    } else if Attribute::is_group_event_name(n.as_str()) {
                        match Self::read_attributes(events, i + 1) {
                            Ok((attrs_map, end)) => {
                                result.attributes = attrs_map;
                                i = end;
                            },
                            Err(e) => {
                                return Err(e);
                            },
                        }
                    } else if ActivationGroup::is_group_event_name(n.as_str()) {
                        let (ags, end) = Self::read_activation_groups(events, i + 1);
                        result.activation_groups = ags;
                        i = end;
                    } else {
                        depth += 1;
                        i += 1;
                    }
                },
                XmlEvent::Empty { name: n, .. } => {
                    if FeatureGroup::is_group_event_name(n.as_str()) {
                        result.feature_groups = KeyedList::new();
                        i += 1;
                    } else if Attribute::is_group_event_name(n.as_str()) {
                        result.attributes = KeyedList::new();
                        i += 1;
                    } else if ActivationGroup::is_group_event_name(n.as_str()) {
                        result.activation_groups = Vec::new();
                        proof {
                            assert(names_views(result.activation_groups@) =~= Seq::<
                                Seq<char>,
                            >::empty());
                        }
                        i += 1;
                    } else {
                        depth += 1;
                        i += 1;
                    }
                },
                XmlEvent::Close => {
                    if depth == 0 {
                        i += 1;
                        break;
                    }
                    depth -= 1;
                    i += 1;
                },
                XmlEvent::Other => {
                    i += 1;
                },
            }
        }
        Ok((result, i))
    }

    /// Parses the first entity of this type found in the event sequence.
    pub fn from_events(events: &Vec<XmlEvent>) -> (r: Result<AttributeDefinitions, GdtfError>)
        ensures
            find_tag(events@, 0, "AttributeDefinitions"@) matches Some(i) ==> (match ad_from_event(
                crate::xml_event::tag_is_empty(events@[i]),
                events@,
                i + 1,
            ) {
                Ok(p) => r matches Ok(ad) && ad@ == p.0,
                Err(k) => r matches Err(e) && e.kind() == k,
            }),
            find_tag(events@, 0, "AttributeDefinitions"@) is None ==> (r matches Err(e) && e.kind()
                == ErrorKind::RequiredValueNotFound),
            r matches Err(e) ==> (e.kind() == ErrorKind::RequiredValueNotFound || e.kind()
                == ErrorKind::ValueConversion),
    {
        proof {
            crate::walker::lemma_find_tag_props(events@, 0, "AttributeDefinitions"@);
            match find_tag(events@, 0, "AttributeDefinitions"@) {
                Some(i) => {
                    lemma_ad_walk_err_kind(events@, i + 1, 0, ad_empty());
                },
                None => {},
            }
        }
        let n = events.len();
        match scan_for_tag(events, "AttributeDefinitions") {
            Some(i) => match &events[i] {
                XmlEvent::Open { attrs, .. } => {
                    let (ad, _) = Self::read_single_from_event(attrs, false, events, i + 1)?;
                    Ok(ad)
                },
                XmlEvent::Empty { attrs, .. } => {
                    let (ad, _) = Self::read_single_from_event(attrs, true, events, i + 1)?;
                    Ok(ad)
                },
                _ => {
                    proof {
                        assert(false);
                    }
                    Err(GdtfError::RequiredValueNotFound("AttributeDefinitions".to_owned()))
                },
            },
            None => Err(GdtfError::RequiredValueNotFound("AttributeDefinitions".to_owned())),
        }
    }

    /// Parses the first entity of this type found in `xml`.
    ///
    /// The reader is trusted, so the exact relation between the document
    /// text and the result is stated at the event level, on
    /// [`Self::from_events`].
    pub fn from_xml(xml: &str) -> (r: Result<AttributeDefinitions, GdtfError>)
        ensures
            r matches Err(e) ==> (e.kind() == ErrorKind::Tokenizer || e.kind()
                == ErrorKind::RequiredValueNotFound || e.kind() == ErrorKind::ValueConversion),
    {
        let events = crate::tokenizer::collect_events(xml)?;
        Self::from_events(&events)
    }
}

} // verus!
