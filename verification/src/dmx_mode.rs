//! DMX modes: the logical control of a part of the device in a specific
//! mode, holding its DMX channels.

use vstd::prelude::*;

use crate::dmx_channel::{
    dmx_channel_from_event, lemma_lc_walk_bounds, DmxChannel, DmxChannelV,
};
use crate::error::{ErrorKind, GdtfError};
use crate::name::Name;
use crate::text::str_eq;
use crate::walker::{find_tag, scan_for_tag};
use crate::xml_event::{attr_string, read_attr_string, tag_is_empty, XmlAttr, XmlEvent};

verus! {

/// Abstract value of a [`DmxMode`].
pub struct DmxModeV {
    pub geometry: Seq<char>,
    pub dmx_channels: Seq<DmxChannelV>,
}

/// Each DMX mode describes logical control of a part of the device in a
/// specific mode.
#[derive(Debug, PartialEq)]
pub struct DmxMode {
    /// Name of the first geometry in the device.
    pub geometry: Name,
    /// Description of all DMX channels used in the mode.
    pub dmx_channels: Vec<DmxChannel>,
}

impl View for DmxMode {
    type V = DmxModeV;

    open spec fn view(&self) -> DmxModeV {
        DmxModeV { geometry: self.geometry@, dmx_channels: dmx_channels_views(self.dmx_channels@) }
    }
}

/// The views of a sequence of DMX channels.
pub open spec fn dmx_channels_views(v: Seq<DmxChannel>) -> Seq<DmxChannelV> {
    Seq::new(v.len(), |i: int| v[i]@)
}

/// The primary key of a DMX mode built from `attrs`: the raw `Name`
/// value.
pub open spec fn dmx_mode_key_from_attrs(attrs: Seq<XmlAttr>) -> Seq<char> {
    attr_string(attrs, "Name"@)
}

/// The walk of a `DMXChannels` wrapper: every `DMXChannel` child is
/// built, with its own subtree, and joins `acc` in document order.
pub open spec fn dc_list_walk(
    events: Seq<XmlEvent>,
    pos: int,
    depth: int,
    acc: Seq<DmxChannelV>,
) -> (Seq<DmxChannelV>, int)
    decreases events.len() - pos,
        via dc_list_walk_decreases
{
    if pos < 0 || pos >= events.len() {
        (acc, events.len() as int)
    } else {
        match events[pos] {
            XmlEvent::Open { name, attrs } => if name@ == "DMXChannel"@ {
                let built = dmx_channel_from_event(attrs@, false, events, pos + 1);
                dc_list_walk(events, built.1, depth, acc.push(built.0))
            } else {
                dc_list_walk(events, pos + 1, depth + 1, acc)
            },
            XmlEvent::Empty { name, attrs } => if name@ == "DMXChannel"@ {
                let built = dmx_channel_from_event(attrs@, true, events, pos + 1);
                dc_list_walk(events, pos + 1, depth, acc.push(built.0))
            } else {
                dc_list_walk(events, pos + 1, depth + 1, acc)
            },
            XmlEvent::Close => if depth == 0 {
                (acc, pos + 1)
            } else {
                dc_list_walk(events, pos + 1, depth - 1, acc)
            },
            XmlEvent::Other => dc_list_walk(events, pos + 1, depth, acc),
        }
    }
}

#[via_fn]
proof fn dc_list_walk_decreases(
    events: Seq<XmlEvent>,
    pos: int,
    depth: int,
    acc: Seq<DmxChannelV>,
) {
    if 0 <= pos < events.len() {
        lemma_lc_walk_bounds(events, pos + 1, 0, Seq::empty());
    }
}

/// A channel list walk neither moves backwards nor leaves the events.
pub proof fn lemma_dc_list_walk_bounds(
    events: Seq<XmlEvent>,
    pos: int,
    depth: int,
    acc: Seq<DmxChannelV>,
)
    requires
        0 <= pos <= events.len(),
    ensures
        pos <= dc_list_walk(events, pos, depth, acc).1 <= events.len(),
    decreases events.len() - pos,
{
    if pos < events.len() {
        if 0 <= pos + 1 <= events.len() {
            lemma_lc_walk_bounds(events, pos + 1, 0, Seq::empty());
        }
        match events[pos] {
            XmlEvent::Open { name, attrs } => {
                if name@ == "DMXChannel"@ {
                    let built = dmx_channel_from_event(attrs@, false, events, pos + 1);
                    lemma_dc_list_walk_bounds(events, built.1, depth, acc.push(built.0));
                } else {
                    lemma_dc_list_walk_bounds(events, pos + 1, depth + 1, acc);
                }
            },
            XmlEvent::Empty { name, attrs } => {
                if name@ == "DMXChannel"@ {
                    let built = dmx_channel_from_event(attrs@, true, events, pos + 1);
                    lemma_dc_list_walk_bounds(events, pos + 1, depth, acc.push(built.0));
                } else {
                    lemma_dc_list_walk_bounds(events, pos + 1, depth + 1, acc);
                }
            },
            XmlEvent::Close => {
                if depth != 0 {
                    lemma_dc_list_walk_bounds(events, pos + 1, depth - 1, acc);
                }
            },
            XmlEvent::Other => {
                lemma_dc_list_walk_bounds(events, pos + 1, depth, acc);
            },
        }
    }
}

/// The walk of a DMX mode's own subtree: each `DMXChannels` wrapper
/// replaces the channel list with its contents (an empty wrapper with
/// the empty list), and anything else is skipped by depth counting.
pub open spec fn dm_walk(
    events: Seq<XmlEvent>,
    pos: int,
    depth: int,
    acc: Seq<DmxChannelV>,
) -> (Seq<DmxChannelV>, int)
    decreases events.len() - pos,
        via dm_walk_decreases
{
    if pos < 0 || pos >= events.len() {
        (acc, events.len() as int)
    } else {
        match events[pos] {
            XmlEvent::Open { name, attrs } => if name@ == "DMXChannels"@ {
                let inner = dc_list_walk(events, pos + 1, 0, Seq::empty());
                dm_walk(events, inner.1, depth, inner.0)
            } else {
                dm_walk(events, pos + 1, depth + 1, acc)
            },
            XmlEvent::Empty { name, attrs } => if name@ == "DMXChannels"@ {
                dm_walk(events, pos + 1, depth, Seq::empty())
            } else {
                dm_walk(events, pos + 1, depth + 1, acc)
            },
            XmlEvent::Close => if depth == 0 {
                (acc, pos + 1)
            } else {
                dm_walk(events, pos + 1, depth - 1, acc)
            },
            XmlEvent::Other => dm_walk(events, pos + 1, depth, acc),
        }
    }
}

#[via_fn]
proof fn dm_walk_decreases(events: Seq<XmlEvent>, pos: int, depth: int, acc: Seq<DmxChannelV>) {
    if 0 <= pos < events.len() {
        lemma_dc_list_walk_bounds(events, pos + 1, 0, Seq::empty());
    }
}

/// A mode walk neither moves backwards nor leaves the events.
pub proof fn lemma_dm_walk_bounds(
    events: Seq<XmlEvent>,
    pos: int,
    depth: int,
    acc: Seq<DmxChannelV>,
)
    requires
        0 <= pos <= events.len(),
    ensures
        pos <= dm_walk(events, pos, depth, acc).1 <= events.len(),
    decreases events.len() - pos,
{
    if pos < events.len() {
        if 0 <= pos + 1 <= events.len() {
            lemma_dc_list_walk_bounds(events, pos + 1, 0, Seq::empty());
        }
        match events[pos] {
            XmlEvent::Open { name, attrs } => {
                if name@ == "DMXChannels"@ {
                    let inner = dc_list_walk(events, pos + 1, 0, Seq::empty());
                    lemma_dm_walk_bounds(events, inner.1, depth, inner.0);
                } else {
                    lemma_dm_walk_bounds(events, pos + 1, depth + 1, acc);
                }
            },
            XmlEvent::Empty { name, attrs } => {
                if name@ == "DMXChannels"@ {
                    lemma_dm_walk_bounds(events, pos + 1, depth, Seq::empty());
                } else {
                    lemma_dm_walk_bounds(events, pos + 1, depth + 1, acc);
                }
            },
            XmlEvent::Close => {
                if depth != 0 {
                    lemma_dm_walk_bounds(events, pos + 1, depth - 1, acc);
                }
            },
            XmlEvent::Other => {
                lemma_dm_walk_bounds(events, pos + 1, depth, acc);
            },
        }
    }
}

/// What building a DMX mode from its tag yields: its geometry attribute
/// and walked channels, together with the position just past the
/// entity's subtree.
pub open spec fn dmx_mode_from_event(
    attrs: Seq<XmlAttr>,
    empty: bool,
    events: Seq<XmlEvent>,
    pos: int,
) -> (DmxModeV, int) {
    let walked = if empty {
        (Seq::<DmxChannelV>::empty(), pos)
    } else {
        dm_walk(events, pos, 0, Seq::empty())
    };
    (DmxModeV { geometry: attr_string(attrs, "Geometry"@), dmx_channels: walked.0 }, walked.1)
}

/// The markup of a list of DMX channels, in order.
pub open spec fn dcs_xml(vs: Seq<DmxChannelV>) -> Seq<char>
    decreases vs.len(),
{
    if vs.len() == 0 {
        Seq::empty()
    } else {
        dcs_xml(vs.drop_last()) + crate::dmx_channel::dmx_channel_xml(vs.last())
    }
}

/// The markup of a DMX mode's opening tag, with its primary key.
pub open spec fn dmx_mode_xml_prefix(name: Seq<char>, v: DmxModeV) -> Seq<char> {
    "<DMXMode"@ + crate::xml_write::attr_pair_text("Name"@, name)
        + crate::xml_write::attr_pair_text("Geometry"@, v.geometry) + ">"@ + "<DMXChannels>"@
}

/// The markup of one DMX mode under its primary key.
pub open spec fn dmx_mode_xml(name: Seq<char>, v: DmxModeV) -> Seq<char> {
    dmx_mode_xml_prefix(name, v) + dcs_xml(v.dmx_channels) + "</DMXChannels>"@ + "</DMXMode>"@
}

impl DmxMode {
    /// Writes the entity, under its primary key `name`, as a markup
    /// fragment that parses back to an equal entity.
    pub fn to_xml(&self, name: &Name) -> (r: String)
        ensures
            r@ == dmx_mode_xml(name@, self@),
    {
        let mut out = String::from_str("<DMXMode");
        crate::xml_write::append_attr(&mut out, "Name", name.as_str());
        crate::xml_write::append_attr(&mut out, "Geometry", self.geometry.as_str());
        out.append(">");
        out.append("<DMXChannels>");
        for i in 0..self.dmx_channels.len()
            invariant
                out@ == dmx_mode_xml_prefix(name@, self@) + dcs_xml(
                    dmx_channels_views(self.dmx_channels@).take(i as int),
                ),
            decreases self.dmx_channels@.len() - i,
        {
            proof {
                let vs = dmx_channels_views(self.dmx_channels@);
                assert(vs.take(i + 1).drop_last() =~= vs.take(i as int));
                assert(vs.take(i + 1).last() == vs[i as int]);
            }
            out.append(self.dmx_channels[i].to_xml().as_str());
        }
        proof {
            assert(dmx_channels_views(self.dmx_channels@).take(self.dmx_channels@.len() as int)
                =~= dmx_channels_views(self.dmx_channels@));
        }
        out.append("</DMXChannels>");
        out.append("</DMXMode>");
        out
    }

    /// The tag name of one entity of this type.
    pub fn single_event_name() -> (r: String)
        ensures
            r@ == "DMXMode"@,
    {
        "DMXMode".to_owned()
    }

    /// The tag name of the wrapping collection element.
    pub fn group_event_name() -> (r: String)
        ensures
            r@ == "DMXModes"@,
    {
        "DMXModes".to_owned()
    }

    /// Does `event_name` name one entity of this type?
    pub fn is_single_event_name(event_name: &str) -> (r: bool)
        ensures
            r == (event_name@ == "DMXMode"@),
    {
        str_eq(event_name, "DMXMode")
    }

    /// Does `event_name` name the wrapping collection element?
    pub fn is_group_event_name(event_name: &str) -> (r: bool)
        ensures
            r == (event_name@ == "DMXModes"@),
    {
        str_eq(event_name, "DMXModes")
    }

    /// Reads a `DMXChannels` wrapper's contents.
    fn read_channels(events: &Vec<XmlEvent>, pos: usize) -> (r: (Vec<DmxChannel>, usize))
        requires
            pos <= events@.len(),
        ensures
            dmx_channels_views(r.0@) == dc_list_walk(events@, pos as int, 0, Seq::empty()).0,
            r.1 == dc_list_walk(events@, pos as int, 0, Seq::empty()).1,
            pos <= r.1 <= events@.len(),
    {
        let mut channels: Vec<DmxChannel> = Vec::new();
        let mut i = pos;
        let mut depth: usize = 0;
        proof {
            assert(dmx_channels_views(channels@) =~= Seq::<DmxChannelV>::empty());
        }
        loop
            invariant_except_break
                dc_list_walk(events@, pos as int, 0, Seq::empty()) == dc_list_walk(
                    events@,
                    i as int,
                    depth as int,
                    dmx_channels_views(channels@),
                ),
            invariant
                pos <= i <= events@.len(),
                depth <= i,
            ensures
                dc_list_walk(events@, pos as int, 0, Seq::empty()) == (
                    dmx_channels_views(channels@),
                    i as int,
                ),
                pos <= i <= events@.len(),
            decreases events@.len() - i,
        {
            if i == events.len() {
                break;
            }
            match &events[i] {
                XmlEvent::Open { name: n, attrs: a } => {
                    if DmxChannel::is_single_event_name(n.as_str()) {
                        let (dc, end) = DmxChannel::single_from_event(a, false, events, i + 1);
                        proof {
                            assert(dmx_channels_views(channels@.push(dc)) =~= dmx_channels_views(
                                channels@,
                            ).push(dc@));
                        }
                        channels.push(dc);
                        i = end;
                    } else {
                        depth += 1;
                        i += 1;
                    }
                },
                XmlEvent::Empty { name: n, attrs: a } => {
                    if DmxChannel::is_single_event_name(n.as_str()) {
                        let (dc, _) = DmxChannel::single_from_event(a, true, events, i + 1);
                        proof {
                            assert(dmx_channels_views(channels@.push(dc)) =~= dmx_channels_views(
                                channels@,
                            ).push(dc@));
                        }
                        channels.push(dc);
                        i = i + 1;
                    } else {
                        depth += 1;
                        i += 1;
                    }
                },
                XmlEvent::Close => {
                    if depth == 0 {
                        i += 1;
                        break;
                    }
                    depth -= 1;
                    i += 1;
                },
                XmlEvent::Other => {
                    i += 1;
                },
            }
        }
        (channels, i)
    }

    /// Builds the entity and its primary key from its tag, walking its
    /// subtree for the channel wrapper and leaving the cursor just past
    /// it.
    pub fn single_from_event(
        attrs: &Vec<XmlAttr>,
        empty: bool,
        events: &Vec<XmlEvent>,
        pos: usize,
    ) -> (r: (DmxMode, Name, usize))
        requires
            pos <= events@.len(),
        ensures
            r.0@ == dmx_mode_from_event(attrs@, empty, events@, pos as int).0,
            r.1@ == dmx_mode_key_from_attrs(attrs@),
            r.2 == dmx_mode_from_event(attrs@, empty, events@, pos as int).1,
            pos <= r.2 <= events@.len(),
    {
        let name = Name::new_unchecked(read_attr_string(attrs, "Name").as_str());
        let geometry = Name::new_unchecked(read_attr_string(attrs, "Geometry").as_str());
        let mut dmx_channels: Vec<DmxChannel> = Vec::new();
        proof {
            assert(dmx_channels_views(dmx_channels@) =~= Seq::<DmxChannelV>::empty());
        }
        if empty {
            return (DmxMode { geometry, dmx_channels }, name, pos);
        }
        let mut i = pos;
        let mut depth: usize = 0;
        loop
            invariant_except_break
                dm_walk(events@, pos as int, 0, Seq::empty()) == dm_walk(
                    events@,
                    i as int,
                    depth as int,
                    dmx_channels_views(dmx_channels@),
                ),
            invariant
                pos <= i <= events@.len(),
                depth <= i,
            ensures
                dm_walk(events@, pos as int, 0, Seq::empty()) == (
                    dmx_channels_views(dmx_channels@),
                    i as int,
                ),
                pos <= i <= events@.len(),
            decreases events@.len() - i,
        {
            if i == events.len() {
                break;
            }
            match &events[i] {
                XmlEvent::Open { name: n, .. } => {
                    if DmxChannel::is_group_event_name(n.as_str()) {
                        let (channels, end) = Self::read_channels(events, i + 1);
                        dmx_channels = channels;
                        i = end;
                    } else {
                        depth += 1;
                        i += 1;
                    }
                },
                XmlEvent::Empty { name: n, .. } => {
                    if DmxChannel::is_group_event_name(n.as_str()) {
                        dmx_channels = Vec::new();
                        proof {
                            assert(dmx_channels_views(dmx_channels@) =~= Seq::<
                                DmxChannelV,
                            >::empty());
                        }
                        i += 1;
                    } else {
                        depth += 1;
                        i += 1;
                    }
                },
                XmlEvent::Close => {
                    if depth == 0 {
                        i += 1;
                        break;
                    }
                    depth -= 1;
                    i += 1;
                },
                XmlEvent::Other => {
                    i += 1;
                },
            }
        }
        (DmxMode { geometry, dmx_channels }, name, i)
    }

    /// Parses the first entity of this type found in the event sequence,
    /// together with its primary key.
    pub fn from_events(events: &Vec<XmlEvent>) -> (r: Result<(DmxMode, Name), GdtfError>)
        ensures
            find_tag(events@, 0, "DMXMode"@) matches Some(i) ==> (r matches Ok(p) && p.0@
                == dmx_mode_from_event(
                crate::xml_event::tag_attrs(events@[i]),
                tag_is_empty(events@[i]),
                events@,
                i + 1,
            ).0 && p.1@ == dmx_mode_key_from_attrs(crate::xml_event::tag_attrs(events@[i]))),
            find_tag(events@, 0, "DMXMode"@) is None ==> (r matches Err(e) && e.kind()
                == ErrorKind::RequiredValueNotFound),
    {
        proof {
            crate::walker::lemma_find_tag_props(events@, 0, "DMXMode"@);
        }
        let n = events.len();
        match scan_for_tag(events, "DMXMode") {
            Some(i) => match &events[i] {
                XmlEvent::Open { attrs, .. } => {
                    let (mode, key, _) = Self::single_from_event(attrs, false, events, i + 1);
                    Ok((mode, key))
                },
                XmlEvent::Empty { attrs, .. } => {
                    let (mode, key, _) = Self::single_from_event(attrs, true, events, i + 1);
                    Ok((mode, key))
                },
                _ => {
                    proof {
                        assert(false);
                    }
                    Err(GdtfError::RequiredValueNotFound("DMXMode".to_owned()))
                },
            },
            None => Err(GdtfError::RequiredValueNotFound("DMXMode".to_owned())),
        }
    }

    /// Parses the first entity of this type found in `xml`, together
    /// with its primary key.
    ///
    /// The reader is trusted, so the exact relation between the document
    /// text and the result is stated at the event level, on
    /// [`Self::from_events`].
    pub fn from_xml(xml: &str) -> (r: Result<(DmxMode, Name), GdtfError>)
        ensures
            r matches Err(e) ==> (e.kind() == ErrorKind::Tokenizer || e.kind()
                == ErrorKind::RequiredValueNotFound),
    {
        let events = crate::tokenizer::collect_events(xml)?;
        Self::from_events(&events)
    }
}

} // verus!
