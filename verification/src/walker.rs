//! The tree-walking engine: depth tracking for unrecognized subtrees and
//! the scan that finds an entity's start tag.
//!
//! A walk of a subtree reads events until the end tag that closes it. An
//! unrecognized child start or empty tag counts one level down; an end
//! tag at depth zero closes the subtree; running out of events is an
//! implicit close, so truncated documents still parse.

use vstd::prelude::*;

use crate::xml_event::XmlEvent;

verus! {

/// Where the walk of a subtree with no recognized children ends, having
/// started at `pos` with `depth` unrecognized levels open.
pub open spec fn skip_end(events: Seq<XmlEvent>, pos: int, depth: int) -> int
    decreases events.len() - pos,
{
    if pos < 0 || pos >= events.len() {
        events.len() as int
    } else {
        match events[pos] {
            XmlEvent::Open { .. } => skip_end(events, pos + 1, depth + 1),
            XmlEvent::Empty { .. } => skip_end(events, pos + 1, depth + 1),
            XmlEvent::Close => if depth == 0 {
                pos + 1
            } else {
                skip_end(events, pos + 1, depth - 1)
            },
            XmlEvent::Other => skip_end(events, pos + 1, depth),
        }
    }
}

/// A skip neither moves backwards nor leaves the event sequence, and it
/// consumes at least one event while any remain.
pub proof fn lemma_skip_end_bounds(events: Seq<XmlEvent>, pos: int, depth: int)
    requires
        0 <= pos <= events.len(),
    ensures
        pos <= skip_end(events, pos, depth) <= events.len(),
        pos < events.len() ==> pos < skip_end(events, pos, depth),
    decreases events.len() - pos,
{
    if pos < events.len() {
        lemma_skip_end_bounds(events, pos + 1, depth + 1);
        lemma_skip_end_bounds(events, pos + 1, depth - 1);
        lemma_skip_end_bounds(events, pos + 1, depth);
    }
}

/// Walks past the subtree that starts at `pos`, recognizing no children.
pub fn consume_subtree(events: &Vec<XmlEvent>, pos: usize) -> (r: usize)
    requires
        pos <= events@.len(),
    ensures
        r == skip_end(events@, pos as int, 0),
        pos <= r <= events@.len(),
{
    let mut i = pos;
    let mut depth: usize = 0;
    loop
        invariant_except_break
            skip_end(events@, pos as int, 0) == skip_end(events@, i as int, depth as int),
        invariant
            pos <= i <= events@.len(),
            depth <= i,
        ensures
            i == skip_end(events@, pos as int, 0),
            pos <= i <= events@.len(),
        decreases events@.len() - i,
    {
        if i == events.len() {
            break;
        }
        match &events[i] {
            XmlEvent::Open { .. } => {
                depth += 1;
                i += 1;
            },
            XmlEvent::Empty { .. } => {
                depth += 1;
                i += 1;
            },
            XmlEvent::Close => {
                if depth == 0 {
                    i += 1;
                    break;
                }
                depth -= 1;
                i += 1;
            },
            XmlEvent::Other => {
                i += 1;
            },
        }
    }
    i
}

/// Where an entity's subtree ends: a self-closing tag owns no events
/// beyond its own, an open tag owns everything up to the end tag that
/// closes it.
pub open spec fn subtree_end(events: Seq<XmlEvent>, pos: int, empty: bool) -> int {
    if empty {
        pos
    } else {
        skip_end(events, pos, 0)
    }
}

/// The position of the first start or empty tag named `name` at or after
/// `pos`, if any.
pub open spec fn find_tag(events: Seq<XmlEvent>, pos: int, name: Seq<char>) -> Option<int>
    decreases events.len() - pos,
{
    if pos < 0 || pos >= events.len() {
        None
    } else {
        match events[pos] {
            XmlEvent::Open { name: n, .. } => if n@ == name {
                Some(pos)
            } else {
                find_tag(events, pos + 1, name)
            },
            XmlEvent::Empty { name: n, .. } => if n@ == name {
                Some(pos)
            } else {
                find_tag(events, pos + 1, name)
            },
            _ => find_tag(events, pos + 1, name),
        }
    }
}

/// A found tag is a start or empty tag bearing the sought name.
pub proof fn lemma_find_tag_props(events: Seq<XmlEvent>, pos: int, name: Seq<char>)
    requires
        0 <= pos,
    ensures
        find_tag(events, pos, name) matches Some(i) ==> pos <= i < events.len() && match events[i] {
            XmlEvent::Open { name: n, .. } => n@ == name,
            XmlEvent::Empty { name: n, .. } => n@ == name,
            _ => false,
        },
    decreases events.len() - pos,
{
    if 0 <= pos < events.len() {
        lemma_find_tag_props(events, pos + 1, name);
    }
}

/// Scans for the first start or empty tag named `name`.
pub fn scan_for_tag(events: &Vec<XmlEvent>, name: &str) -> (r: Option<usize>)
    ensures
        match find_tag(events@, 0, name@) {
            Some(i) => r matches Some(j) && j == i && j < events@.len(),
            None => r is None,
        },
{
    let mut i: usize = 0;
    loop
        invariant
            i <= events@.len(),
            find_tag(events@, 0, name@) == find_tag(events@, i as int, name@),
        ensures
            match find_tag(events@, 0, name@) {
                Some(k) => i < events@.len() && k == i,
                None => i == events@.len(),
            },
        decreases events@.len() - i,
    {
        if i == events.len() {
            break;
        }
        match &events[i] {
            XmlEvent::Open { name: n, .. } => {
                if crate::text::str_eq(n.as_str(), name) {
                    break;
                }
            },
            XmlEvent::Empty { name: n, .. } => {
                if crate::text::str_eq(n.as_str(), name) {
                    break;
                }
            },
            _ => {},
        }
        i += 1;
    }
    if i == events.len() {
        None
    } else {
        Some(i)
    }
}

} // verus!
