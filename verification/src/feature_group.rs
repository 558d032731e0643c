//! Feature groups: the logical grouping of attributes, each holding its
//! features as children in document order.

use vstd::prelude::*;

use crate::name::Name;
use crate::text::str_eq;
use crate::walker::{consume_subtree, lemma_skip_end_bounds, skip_end, subtree_end};
use crate::xml_event::{attr_string, read_attr_string, XmlAttr, XmlEvent};

verus! {

/// Abstract value of a [`Feature`].
pub struct FeatureV {
    pub name: Seq<char>,
}

/// One feature within a feature group.
#[derive(Debug, PartialEq)]
pub struct Feature {
    /// The name of the feature.
    pub name: Name,
}

impl View for Feature {
    type V = FeatureV;

    open spec fn view(&self) -> FeatureV {
        FeatureV { name: self.name@ }
    }
}

/// What building a feature from a tag's attributes yields.
pub open spec fn feature_from_attrs(attrs: Seq<XmlAttr>) -> FeatureV {
    FeatureV { name: attr_string(attrs, "Name"@) }
}

/// The views of a sequence of features.
pub open spec fn features_views(v: Seq<Feature>) -> Seq<FeatureV> {
    Seq::new(v.len(), |i: int| v[i]@)
}

/// The markup of one feature.
pub open spec fn feature_xml(v: FeatureV) -> Seq<char> {
    "<Feature"@ + crate::xml_write::attr_pair_text("Name"@, v.name) + "/>"@
}

/// The markup of a list of features, in order.
pub open spec fn features_xml(fs: Seq<FeatureV>) -> Seq<char>
    decreases fs.len(),
{
    if fs.len() == 0 {
        Seq::empty()
    } else {
        features_xml(fs.drop_last()) + feature_xml(fs.last())
    }
}

impl Feature {
    /// Writes the entity as a markup fragment that parses back to an
    /// equal entity.
    pub fn to_xml(&self) -> (r: String)
        ensures
            r@ == feature_xml(self@),
    {
        let mut out = String::from_str("<Feature");
        crate::xml_write::append_attr(&mut out, "Name", self.name.as_str());
        out.append("/>");
        out
    }

    /// The tag name of one entity of this type.
    pub fn single_event_name() -> (r: String)
        ensures
            r@ == "Feature"@,
    {
        "Feature".to_owned()
    }

    /// Does `event_name` name one entity of this type?
    pub fn is_single_event_name(event_name: &str) -> (r: bool)
        ensures
            r == (event_name@ == "Feature"@),
    {
        str_eq(event_name, "Feature")
    }

    /// Builds the entity from its tag's attributes and consumes its
    /// subtree, leaving the cursor just past it.
    pub fn single_from_event(
        attrs: &Vec<XmlAttr>,
        empty: bool,
        events: &Vec<XmlEvent>,
        pos: usize,
    ) -> (r: (Feature, usize))
        requires
            pos <= events@.len(),
        ensures
            r.0@ == feature_from_attrs(attrs@),
            r.1 == subtree_end(events@, pos as int, empty),
            pos <= r.1 <= events@.len(),
    {
        let name = Name::new_unchecked(read_attr_string(attrs, "Name").as_str());
        let end = if empty {
            pos
        } else {
            consume_subtree(events, pos)
        };
        (Feature { name }, end)
    }
}

/// Abstract value of a [`FeatureGroup`].
pub struct FeatureGroupV {
    pub name: Seq<char>,
    pub pretty: Seq<char>,
    pub features: Seq<FeatureV>,
}

/// The logical grouping of attributes, such as the feature group
/// `Position` holding the feature `PanTilt`.
#[derive(Debug, PartialEq)]
pub struct FeatureGroup {
    /// The name of the group, which is also its primary key.
    pub name: Name,
    /// The name displayed to users.
    pub pretty: String,
    /// The features of the group, in document order.
    pub features: Vec<Feature>,
}

impl View for FeatureGroup {
    type V = FeatureGroupV;

    open spec fn view(&self) -> FeatureGroupV {
        FeatureGroupV { name: self.name@, pretty: self.pretty@, features: features_views(
            self.features@,
        ) }
    }
}

/// The walk of a feature group's subtree starting at `pos` with `depth`
/// unrecognized levels open: every `Feature` child joins `acc` in
/// document order, anything else is skipped by depth counting, and the
/// end tag at depth zero (or the end of input) closes the walk.
pub open spec fn feature_walk(
    events: Seq<XmlEvent>,
    pos: int,
    depth: int,
    acc: Seq<FeatureV>,
) -> (Seq<FeatureV>, int)
    decreases events.len() - pos,
        via feature_walk_decreases
{
    if pos < 0 || pos >= events.len() {
        (acc, events.len() as int)
    } else {
        match events[pos] {
            XmlEvent::Open { name, attrs } => if name@ == "Feature"@ {
                feature_walk(
                    events,
                    skip_end(events, pos + 1, 0),
                    depth,
                    acc.push(feature_from_attrs(attrs@)),
                )
            } else {
                feature_walk(events, pos + 1, depth + 1, acc)
            },
            XmlEvent::Empty { name, attrs } => if name@ == "Feature"@ {
                feature_walk(events, pos + 1, depth, acc.push(feature_from_attrs(attrs@)))
            } else {
                feature_walk(events, pos + 1, depth + 1, acc)
            },
            XmlEvent::Close => if depth == 0 {
                (acc, pos + 1)
            } else {
                feature_walk(events, pos + 1, depth - 1, acc)
            },
            XmlEvent::Other => feature_walk(events, pos + 1, depth, acc),
        }
    }
}

#[via_fn]
proof fn feature_walk_decreases(events: Seq<XmlEvent>, pos: int, depth: int, acc: Seq<FeatureV>) {
    if 0 <= pos < events.len() {
        lemma_skip_end_bounds(events, pos + 1, 0);
    }
}

/// A feature walk neither moves backwards nor leaves the events.
pub proof fn lemma_feature_walk_bounds(
    events: Seq<XmlEvent>,
    pos: int,
    depth: int,
    acc: Seq<FeatureV>,
)
    requires
        0 <= pos <= events.len(),
    ensures
        pos <= feature_walk(events, pos, depth, acc).1 <= events.len(),
    decreases events.len() - pos,
{
    if pos < events.len() {
        match events[pos] {
            XmlEvent::Open { name, attrs } => {
                if name@ == "Feature"@ {
                    lemma_skip_end_bounds(events, pos + 1, 0);
                    lemma_feature_walk_bounds(
                        events,
                        skip_end(events, pos + 1, 0),
                        depth,
                        acc.push(feature_from_attrs(attrs@)),
                    );
                } else {
                    lemma_feature_walk_bounds(events, pos + 1, depth + 1, acc);
                }
            },
            XmlEvent::Empty { name, attrs } => {
                if name@ == "Feature"@ {
                    lemma_feature_walk_bounds(
                        events,
                        pos + 1,
                        depth,
                        acc.push(feature_from_attrs(attrs@)),
                    );
                } else {
                    lemma_feature_walk_bounds(events, pos + 1, depth + 1, acc);
                }
            },
            XmlEvent::Close => {
                if depth != 0 {
                    lemma_feature_walk_bounds(events, pos + 1, depth - 1, acc);
                }
            },
            XmlEvent::Other => {
                lemma_feature_walk_bounds(events, pos + 1, depth, acc);
            },
        }
    }
}

/// What building a feature group from its tag yields: the two attributes
/// and the walked features, together with the position just past the
/// entity's subtree.
pub open spec fn feature_group_from_event(
    attrs: Seq<XmlAttr>,
    empty: bool,
    events: Seq<XmlEvent>,
    pos: int,
) -> (FeatureGroupV, int) {
    let walked = if empty {
        (Seq::<FeatureV>::empty(), pos)
    } else {
        feature_walk(events, pos, 0, Seq::empty())
    };
    (
        FeatureGroupV {
            name: attr_string(attrs, "Name"@),
            pretty: attr_string(attrs, "Pretty"@),
            features: walked.0,
        },
        walked.1,
    )
}

/// The primary key of a feature group built from `attrs`: the raw
/// `Name` value.
pub open spec fn feature_group_key_from_attrs(attrs: Seq<XmlAttr>) -> Seq<char> {
    attr_string(attrs, "Name"@)
}

/// The markup of a feature group's opening tag.
pub open spec fn feature_group_xml_prefix(v: FeatureGroupV) -> Seq<char> {
    "<FeatureGroup"@ + crate::xml_write::attr_pair_text("Name"@, v.name)
        + crate::xml_write::attr_pair_text("Pretty"@, v.pretty) + ">"@
}

/// The markup of one feature group with its features.
pub open spec fn feature_group_xml(v: FeatureGroupV) -> Seq<char> {
    feature_group_xml_prefix(v) + features_xml(v.features) + "</FeatureGroup>"@
}

impl FeatureGroup {
    /// Writes the entity as a markup fragment that parses back to an
    /// equal entity.
    pub fn to_xml(&self) -> (r: String)
        ensures
            r@ == feature_group_xml(self@),
    {
        let mut out = String::from_str("<FeatureGroup");
        crate::xml_write::append_attr(&mut out, "Name", self.name.as_str());
        crate::xml_write::append_attr(&mut out, "Pretty", self.pretty.as_str());
        out.append(">");
        for i in 0..self.features.len()
            invariant
                out@ == feature_group_xml_prefix(self@) + features_xml(
                    features_views(self.features@).take(i as int),
                ),
            decreases self.features@.len() - i,
        {
            proof {
                let fs = features_views(self.features@);
                assert(fs.take(i + 1).drop_last() =~= fs.take(i as int));
                assert(fs.take(i + 1).last() == fs[i as int]);
            }
            out.append(self.features[i].to_xml().as_str());
        }
        proof {
            assert(features_views(self.features@).take(self.features@.len() as int)
                =~= features_views(self.features@));
        }
        out.append("</FeatureGroup>");
        out
    }

    /// The tag name of one entity of this type.
    pub fn single_event_name() -> (r: String)
        ensures
            r@ == "FeatureGroup"@,
    {
        "FeatureGroup".to_owned()
    }

    /// The tag name of the wrapping collection element.
    pub fn group_event_name() -> (r: String)
        ensures
            r@ == "FeatureGroups"@,
    {
        "FeatureGroups".to_owned()
    }

    /// Does `event_name` name one entity of this type?
    pub fn is_single_event_name(event_name: &str) -> (r: bool)
        ensures
            r == (event_name@ == "FeatureGroup"@),
    {
        str_eq(event_name, "FeatureGroup")
    }

    /// Does `event_name` name the wrapping collection element?
    pub fn is_group_event_name(event_name: &str) -> (r: bool)
        ensures
            r == (event_name@ == "FeatureGroups"@),
    {
        str_eq(event_name, "FeatureGroups")
    }

    /// Builds the entity from its tag's attributes, walking its subtree
    /// for features and leaving the cursor just past it.
    pub fn single_from_event(
        attrs: &Vec<XmlAttr>,
        empty: bool,
        events: &Vec<XmlEvent>,
        pos: usize,
    ) -> (r: (FeatureGroup, usize))
        requires
            pos <= events@.len(),
        ensures
            r.0@ == feature_group_from_event(attrs@, empty, events@, pos as int).0,
            r.1 == feature_group_from_event(attrs@, empty, events@, pos as int).1,
            pos <= r.1 <= events@.len(),
    {
        let name = Name::new_unchecked(read_attr_string(attrs, "Name").as_str());
        let pretty = read_attr_string(attrs, "Pretty");
        let mut features: Vec<Feature> = Vec::new();
        if empty {
            proof {
                assert(features_views(features@) =~= Seq::<FeatureV>::empty());
            }
            return (FeatureGroup { name, pretty, features }, pos);
        }
        let mut i = pos;
        let mut depth: usize = 0;
        proof {
            assert(features_views(features@) =~= Seq::<FeatureV>::empty());
        }
        loop
            invariant_except_break
                feature_walk(events@, pos as int, 0, Seq::empty()) == feature_walk(
                    events@,
                    i as int,
                    depth as int,
                    features_views(features@),
                ),
            invariant
                pos <= i <= events@.len(),
                depth <= i,
            ensures
                feature_walk(events@, pos as int, 0, Seq::empty()) == (
                    features_views(features@),
                    i as int,
                ),
                pos <= i <= events@.len(),
            decreases events@.len() - i,
        {
            if i == events.len() {
                break;
            }
            match &events[i] {
                XmlEvent::Open { name: n, attrs: a } => {
                    if Feature::is_single_event_name(n.as_str()) {
                        let (f, end) = Feature::single_from_event(a, false, events, i + 1);
                        proof {
                            assert(features_views(features@.push(f)) =~= features_views(
                                features@,
                            ).push(f@));
                        }
                        features.push(f);
                        i = end;
                    } else {
                        depth += 1;
                        i += 1;
                    }
                },
                XmlEvent::Empty { name: n, attrs: a } => {
                    if Feature::is_single_event_name(n.as_str()) {
                        let (f, _) = Feature::single_from_event(a, true, events, i + 1);
                        proof {
                            assert(features_views(features@.push(f)) =~= features_views(
                                features@,
                            ).push(f@));
                        }
                        features.push(f);
                        i = i + 1;
                    } else {
                        depth += 1;
                        i += 1;
                    }
                },
                XmlEvent::Close => {
                    if depth == 0 {
                        i += 1;
                        break;
                    }
                    depth -= 1;
                    i += 1;
                },
                XmlEvent::Other => {
                    i += 1;
                },
            }
        }
        (FeatureGroup { name, pretty, features }, i)
    }
}

} // verus!
