//! DMX channels of a mode: break, offsets, highlight, geometry link and
//! logical channels.

use vstd::prelude::*;
use vstd::string::StrSliceExecFns;

use crate::name::{dot_split, Name};
use crate::node::Node;
use crate::node_logical_channel_attribute::{logical_attr_of, NodeLogicalChannelAttribute};
use crate::snap::{snap_of, Snap};
use crate::text::{
    canonical_digits, char_split, digits_val, lemma_digits_val_upper, lemma_pow10_monotone,
    parse_digits_u32, pow10, split_char, str_eq,
};
use crate::walker::{consume_subtree, lemma_skip_end_bounds, skip_end, subtree_end};
use crate::xml_event::{attr_string, attr_value, find_attr, read_attr_string, XmlAttr, XmlEvent};

verus! {

/// The DMX break a channel transmits on: a numbered break, or the
/// overwrite marker.
#[derive(Debug, Clone, Copy, PartialEq, Eq, Structural)]
pub enum DmxBreak {
    /// The channel transmits on the numbered break.
    Value(u32),
    /// The channel uses the break of its geometry reference.
    Overwrite,
}

/// What reading a DMX break from `s` yields: unknown or absent spellings
/// fall back to break one.
pub open spec fn dmx_break_of(s: Seq<char>) -> DmxBreak {
    if s == "Overwrite"@ {
        DmxBreak::Overwrite
    } else if canonical_digits(s) && s.len() <= 9 {
        DmxBreak::Value(digits_val(s) as u32)
    } else {
        DmxBreak::Value(1)
    }
}

/// Reads a DMX break from the document spelling.
pub fn parse_dmx_break(value: &str) -> (r: DmxBreak)
    ensures
        r == dmx_break_of(value@),
{
    if str_eq(value, "Overwrite") {
        return DmxBreak::Overwrite;
    }
    let n = value.unicode_len();
    proof {
        assert(value@.subrange(0, n as int) =~= value@);
    }
    match parse_digits_u32(value, 0, n) {
        Some(v) => DmxBreak::Value(v),
        None => DmxBreak::Value(1),
    }
}

/// The document spelling of a DMX break.
pub open spec fn dmx_break_text(b: DmxBreak) -> Seq<char> {
    match b {
        DmxBreak::Overwrite => "Overwrite"@,
        DmxBreak::Value(n) => crate::text::dec_digits(n as nat),
    }
}

impl DmxBreak {
    /// The document spelling of this break.
    pub fn text(&self) -> (r: String)
        ensures
            r@ == dmx_break_text(*self),
    {
        match self {
            DmxBreak::Overwrite => "Overwrite".to_owned(),
            DmxBreak::Value(n) => crate::text::u64_to_dec_string(*n as u64),
        }
    }
}

/// Writing a DMX break and reading it back yields the same break, for
/// break numbers small enough to parse exactly.
pub proof fn lemma_dmx_break_text_round_trip(b: DmxBreak)
    requires
        b matches DmxBreak::Value(n) ==> n < 1000000000,
    ensures
        dmx_break_of(dmx_break_text(b)) == b,
{
    reveal_strlit("Overwrite");
    assert("Overwrite"@.len() == 9);
    assert("Overwrite"@[0] == 'O');
    match b {
        DmxBreak::Overwrite => {},
        DmxBreak::Value(n) => {
            crate::text::lemma_dec_digits_inverse(n as nat);
            let d = crate::text::dec_digits(n as nat);
            assert(!crate::text::is_digit_char('O'));
            assert(d != "Overwrite"@) by {
                if d == "Overwrite"@ {
                    assert(crate::text::is_digit_char(d[0]));
                }
            }
            assert(crate::text::pow10(9) == 1000000000) by {
                reveal_with_fuel(crate::text::pow10, 10);
            }
            crate::color_cie::lemma_dec_digits_len_le(n as nat, 9);
        },
    }
}

/// The DMX address offsets of a channel.
#[derive(Debug, PartialEq)]
pub struct Offset(pub Vec<i32>);

impl View for Offset {
    type V = Seq<i32>;

    open spec fn view(&self) -> Seq<i32> {
        self.0@
    }
}

/// Is `s` a decimal integer with an optional leading minus sign, small
/// enough to parse exactly?
pub open spec fn signed_ok(s: Seq<char>) -> bool {
    if s.len() >= 1 && s[0] as u32 == 45 {
        canonical_digits(s.skip(1)) && s.skip(1).len() <= 9
    } else {
        canonical_digits(s) && s.len() <= 9
    }
}

/// The value of such an integer.
pub open spec fn signed_val(s: Seq<char>) -> int
    recommends
        signed_ok(s),
{
    if s.len() >= 1 && s[0] as u32 == 45 {
        -digits_val(s.skip(1))
    } else {
        digits_val(s)
    }
}

/// What reading an offset list from `s` yields: the spellings of the
/// absent value give none, as does any segment that is not an integer.
pub open spec fn offset_of(s: Seq<char>) -> Option<Seq<i32>> {
    if s.len() == 0 || s == "None"@ {
        None
    } else {
        let parts = char_split(s, ',');
        if forall|i: int| 0 <= i < parts.len() ==> signed_ok(#[trigger] parts[i]) {
            Some(Seq::new(parts.len(), |i: int| signed_val(parts[i]) as i32))
        } else {
            None
        }
    }
}

/// Reads one signed integer segment.
fn parse_offset_item(seg: &str) -> (r: Option<i32>)
    ensures
        signed_ok(seg@) ==> r == Some(signed_val(seg@) as i32),
        !signed_ok(seg@) ==> r is None,
{
    let n = seg.unicode_len();
    let negative = n >= 1 && (seg.get_char(0) as u32) == 45;
    let start: usize = if negative {
        1
    } else {
        0
    };
    proof {
        if negative {
            assert(seg@.subrange(1, n as int) =~= seg@.skip(1));
        } else {
            assert(seg@.subrange(0, n as int) =~= seg@);
        }
    }
    match parse_digits_u32(seg, start, n) {
        Some(v) => {
            proof {
                let digits = if negative {
                    seg@.skip(1)
                } else {
                    seg@
                };
                lemma_digits_val_upper(digits);
                lemma_pow10_monotone(digits.len(), 9);
                assert(pow10(9) == 1000000000) by {
                    reveal_with_fuel(pow10, 10);
                }
            }
            if negative {
                Some(0 - (v as i32))
            } else {
                Some(v as i32)
            }
        },
        None => None,
    }
}

/// Reads an offset list from the document spelling.
pub fn parse_offset(value: &str) -> (r: Option<Offset>)
    ensures
        match offset_of(value@) {
            Some(vals) => r matches Some(o) && o@ == vals,
            None => r is None,
        },
{
    if value.is_empty() || str_eq(value, "None") {
        return None;
    }
    let parts = split_char(value, ',');
    let mut vals: Vec<i32> = Vec::new();
    for i in 0..parts.len()
        invariant
            parts@.len() == char_split(value@, ',').len(),
            forall|j: int| 0 <= j < parts@.len() ==> (#[trigger] parts@[j])@ == char_split(
                value@,
                ',',
            )[j],
            vals@.len() == i,
            forall|j: int| 0 <= j < i ==> signed_ok(#[trigger] char_split(value@, ',')[j]),
            forall|j: int| 0 <= j < i ==> vals@[j] == signed_val(char_split(value@, ',')[j]) as i32,
        decreases parts@.len() - i,
    {
        match parse_offset_item(parts[i].as_str()) {
            Some(v) => {
                vals.push(v);
            },
            None => {
                proof {
                    assert(!signed_ok(char_split(value@, ',')[i as int]));
                }
                return None;
            },
        }
    }
    let r = Offset(vals);
    proof {
        assert(r@ =~= Seq::new(
            char_split(value@, ',').len(),
            |i: int| signed_val(char_split(value@, ',')[i]) as i32,
        ));
    }
    Some(r)
}

/// The document spelling of one signed offset value.
pub open spec fn signed_text(v: int) -> Seq<char> {
    if v < 0 {
        seq!['-'] + crate::text::dec_digits((-v) as nat)
    } else {
        crate::text::dec_digits(v as nat)
    }
}

/// The document spelling of an offset list: its values separated by
/// commas.
pub open spec fn offset_text(vals: Seq<i32>) -> Seq<char>
    decreases vals.len(),
{
    if vals.len() == 0 {
        Seq::empty()
    } else if vals.len() == 1 {
        signed_text(vals[0] as int)
    } else {
        offset_text(vals.drop_last()) + seq![','] + signed_text(vals.last() as int)
    }
}

/// Writes one signed offset value.
fn signed_string(v: i32) -> (r: String)
    ensures
        r@ == signed_text(v as int),
{
    if v < 0 {
        let mag = (-(v as i64)) as u64;
        let mut s = String::from_str("-");
        proof {
            reveal_strlit("-");
            assert("-"@ =~= seq!['-']);
        }
        s.append(crate::text::u64_to_dec_string(mag).as_str());
        s
    } else {
        crate::text::u64_to_dec_string(v as u64)
    }
}

impl Offset {
    /// The document spelling of these offsets.
    pub fn text(&self) -> (r: String)
        ensures
            r@ == offset_text(self@),
    {
        let mut out = String::new();
        for i in 0..self.0.len()
            invariant
                out@ == offset_text(self@.take(i as int)),
            decreases self.0@.len() - i,
        {
            proof {
                let t1 = self@.take(i + 1);
                assert(t1.drop_last() =~= self@.take(i as int));
                assert(t1.last() == self@[i as int]);
                reveal_strlit(",");
                assert(","@ =~= seq![',']);
            }
            if i > 0 {
                out.append(",");
            }
            out.append(signed_string(self.0[i]).as_str());
        }
        proof {
            assert(self@.take(self.0@.len() as int) =~= self@);
        }
        out
    }
}

/// No character of a written signed value is a comma, and the value
/// reads back as itself.
proof fn lemma_signed_text_props(v: int)
    requires
        -1000000000 < v < 1000000000,
    ensures
        forall|i: int| 0 <= i < signed_text(v).len() ==> #[trigger] signed_text(v)[i] != ',',
        signed_text(v).len() >= 1,
        signed_ok(signed_text(v)),
        signed_val(signed_text(v)) == v,
{
    let mag: nat = if v < 0 {
        (-v) as nat
    } else {
        v as nat
    };
    crate::text::lemma_dec_digits_inverse(mag);
    assert(crate::text::pow10(9) == 1000000000) by {
        reveal_with_fuel(crate::text::pow10, 10);
    }
    crate::color_cie::lemma_dec_digits_len_le(mag, 9);
    let d = crate::text::dec_digits(mag);
    let s = signed_text(v);
    if v < 0 {
        assert(s =~= seq!['-'] + d);
        assert(s[0] == '-');
        assert(s.skip(1) =~= d);
        assert forall|i: int| 0 <= i < s.len() implies #[trigger] s[i] != ',' by {
            if i >= 1 {
                assert(s[i] == d[i - 1]);
            }
        }
    } else {
        assert forall|i: int| 0 <= i < s.len() implies #[trigger] s[i] != ',' by {
            assert(crate::text::is_digit_char(s[i]));
        }
        assert(s[0] as u32 != 45) by {
            assert(crate::text::is_digit_char(s[0]));
        }
    }
}

/// Writing an offset list and reading it back yields the same offsets,
/// for a nonempty list of values small enough to write within nine
/// digits.
pub proof fn lemma_offset_text_round_trip(vals: Seq<i32>)
    requires
        vals.len() >= 1,
        forall|i: int| 0 <= i < vals.len() ==> -1000000000 < #[trigger] vals[i] < 1000000000,
    ensures
        offset_of(offset_text(vals)) matches Some(read) && read =~= vals,
{
    lemma_offset_split(vals);
    let texts = Seq::new(vals.len(), |i: int| signed_text(vals[i] as int));
    reveal_strlit("None");
    assert("None"@.len() == 4);
    assert("None"@[0] == 'N');
    lemma_signed_text_props(vals[0] as int);
    assert(offset_text(vals).len() >= 1) by {
        lemma_offset_text_len(vals);
    }
    assert(offset_text(vals) != "None"@) by {
        if offset_text(vals) == "None"@ {
            lemma_offset_text_len(vals);
            assert(offset_text(vals)[0] == signed_text(vals[0] as int)[0]);
            assert(signed_text(vals[0] as int)[0] != 'N') by {
                if vals[0] < 0 {
                } else {
                    assert(crate::text::is_digit_char(signed_text(vals[0] as int)[0]));
                }
            }
        }
    }
    assert forall|i: int| 0 <= i < texts.len() implies signed_ok(
        #[trigger] crate::text::char_split(offset_text(vals), ',')[i],
    ) by {
        lemma_signed_text_props(vals[i] as int);
    }
    assert forall|i: int|
        0 <= i < vals.len() implies #[trigger] signed_val(
        crate::text::char_split(offset_text(vals), ',')[i],
    ) as i32 == vals[i] by {
        lemma_signed_text_props(vals[i] as int);
    }
}

/// A written offset list splits back into the written values.
proof fn lemma_offset_split(vals: Seq<i32>)
    requires
        vals.len() >= 1,
        forall|i: int| 0 <= i < vals.len() ==> -1000000000 < #[trigger] vals[i] < 1000000000,
    ensures
        crate::text::char_split(offset_text(vals), ',') =~~= Seq::new(
            vals.len(),
            |i: int| signed_text(vals[i] as int),
        ),
    decreases vals.len(),
{
    if vals.len() == 1 {
        lemma_signed_text_props(vals[0] as int);
        crate::text::lemma_char_split_no_sep(signed_text(vals[0] as int), ',');
    } else {
        lemma_offset_split(vals.drop_last());
        lemma_signed_text_props(vals.last() as int);
        crate::text::lemma_char_split_append(
            offset_text(vals.drop_last()),
            signed_text(vals.last() as int),
            ',',
        );
    }
}

/// A written offset list is never empty.
proof fn lemma_offset_text_len(vals: Seq<i32>)
    requires
        vals.len() >= 1,
        forall|i: int| 0 <= i < vals.len() ==> -1000000000 < #[trigger] vals[i] < 1000000000,
    ensures
        offset_text(vals).len() >= 1,
        offset_text(vals)[0] == signed_text(vals[0] as int)[0],
    decreases vals.len(),
{
    lemma_signed_text_props(vals[0] as int);
    if vals.len() > 1 {
        assert(vals.drop_last()[0] == vals[0]);
        lemma_offset_text_len(vals.drop_last());
    }
}

/// The channel function activated by default for a DMX channel; absent
/// when the document gives no reference.
#[derive(Debug, PartialEq)]
pub struct NodeDmxChannelInitialFunction(pub Option<Node>);

impl View for NodeDmxChannelInitialFunction {
    type V = Option<Seq<Seq<char>>>;

    open spec fn view(&self) -> Option<Seq<Seq<char>>> {
        match &self.0 {
            Some(n) => Some(n@),
            None => None,
        }
    }
}

impl Default for NodeDmxChannelInitialFunction {
    /// The default link is the absent reference.
    fn default() -> (r: Self)
        ensures
            r@ is None,
    {
        NodeDmxChannelInitialFunction(None)
    }
}

impl NodeDmxChannelInitialFunction {
    /// Permissive constructor from the document spelling: the empty
    /// string is the absent reference; the segments are taken verbatim.
    pub fn new_from_str_unchecked(value: &str) -> (r: Self)
        ensures
            value@.len() == 0 ==> r@ is None,
            value@.len() != 0 ==> (r@ matches Some(segs) && segs == dot_split(value@)),
    {
        if value.is_empty() {
            return Self(None);
        }
        let names = Name::str_to_names_vec_unchecked(value);
        let r = Self(Some(Node(names)));
        proof {
            assert(r@ matches Some(segs) && segs =~= dot_split(value@));
        }
        r
    }
}

/// Abstract value of a [`LogicalChannel`].
pub struct LogicalChannelV {
    pub attribute: Option<Seq<crate::attribute_name::AttributeNameV>>,
    pub snap: Snap,
}

/// A logical channel of a DMX channel: the attribute it controls and its
/// snap setting.
#[derive(Debug, PartialEq)]
pub struct LogicalChannel {
    /// Link to the attribute the channel controls.
    pub attribute: NodeLogicalChannelAttribute,
    /// Whether value changes snap or fade.
    pub snap: Snap,
}

impl View for LogicalChannel {
    type V = LogicalChannelV;

    open spec fn view(&self) -> LogicalChannelV {
        LogicalChannelV { attribute: self.attribute@, snap: self.snap }
    }
}

/// What building a logical channel from a tag's attributes yields.
pub open spec fn logical_channel_from_attrs(attrs: Seq<XmlAttr>) -> LogicalChannelV {
    LogicalChannelV {
        attribute: logical_attr_of(attr_string(attrs, "Attribute"@)),
        snap: snap_of(attr_string(attrs, "Snap"@)),
    }
}

/// The views of a sequence of logical channels.
pub open spec fn logical_channels_views(v: Seq<LogicalChannel>) -> Seq<LogicalChannelV> {
    Seq::new(v.len(), |i: int| v[i]@)
}

/// The markup of one logical channel.
pub open spec fn logical_channel_xml(v: LogicalChannelV) -> Seq<char> {
    "<LogicalChannel"@ + crate::xml_write::opt_attr_text(
        "Attribute"@,
        match v.attribute {
            Some(segs) => Some(crate::node_logical_channel_attribute::attr_path_text(segs)),
            None => None,
        },
    ) + crate::xml_write::attr_pair_text("Snap"@, crate::snap::snap_text(v.snap)) + "/>"@
}

/// The markup of a list of logical channels, in order.
pub open spec fn lcs_xml(vs: Seq<LogicalChannelV>) -> Seq<char>
    decreases vs.len(),
{
    if vs.len() == 0 {
        Seq::empty()
    } else {
        lcs_xml(vs.drop_last()) + logical_channel_xml(vs.last())
    }
}

impl LogicalChannel {
    /// Writes the entity as a markup fragment that parses back to an
    /// equal entity.
    pub fn to_xml(&self) -> (r: String)
        ensures
            r@ == logical_channel_xml(self@),
    {
        let mut out = String::from_str("<LogicalChannel");
        let attr_text = self.attribute.text();
        crate::xml_write::append_opt_attr(&mut out, "Attribute", &attr_text);
        crate::xml_write::append_attr(&mut out, "Snap", self.snap.text());
        out.append("/>");
        out
    }

    /// The tag name of one entity of this type.
    pub fn single_event_name() -> (r: String)
        ensures
            r@ == "LogicalChannel"@,
    {
        "LogicalChannel".to_owned()
    }

    /// Does `event_name` name one entity of this type?
    pub fn is_single_event_name(event_name: &str) -> (r: bool)
        ensures
            r == (event_name@ == "LogicalChannel"@),
    {
        str_eq(event_name, "LogicalChannel")
    }

    /// Builds the entity from its tag's attributes and consumes its
    /// subtree, leaving the cursor just past it.
    pub fn single_from_event(
        attrs: &Vec<XmlAttr>,
        empty: bool,
        events: &Vec<XmlEvent>,
        pos: usize,
    ) -> (r: (LogicalChannel, usize))
        requires
            pos <= events@.len(),
        ensures
            r.0@ == logical_channel_from_attrs(attrs@),
            r.1 == subtree_end(events@, pos as int, empty),
            pos <= r.1 <= events@.len(),
    {
        let attribute = NodeLogicalChannelAttribute::new_from_str_unchecked(
            read_attr_string(attrs, "Attribute").as_str(),
        );
        let snap = Snap::from(read_attr_string(attrs, "Snap").as_str());
        let end = if empty {
            pos
        } else {
            consume_subtree(events, pos)
        };
        (LogicalChannel { attribute, snap }, end)
    }
}

/// Round trip at the attribute level: rebuilding a logical channel from
/// a tag whose attributes carry exactly the spellings its serialization
/// writes yields the original value.
pub proof fn lemma_logical_channel_attrs_round_trip(attrs: Seq<XmlAttr>, v: LogicalChannelV)
    requires
        attr_value(attrs, "Attribute"@) == match v.attribute {
            Some(segs) => Some(crate::node_logical_channel_attribute::attr_path_text(segs)),
            None => None,
        },
        attr_value(attrs, "Snap"@) == Some(crate::snap::snap_text(v.snap)),
        v.attribute matches Some(segs)
            ==> crate::node_logical_channel_attribute::wf_attr_path(segs),
    ensures
        logical_channel_from_attrs(attrs) == v,
{
    crate::snap::lemma_snap_text_round_trip(v.snap);
    match v.attribute {
        Some(segs) => {
            crate::node_logical_channel_attribute::lemma_attr_path_text_round_trip(segs);
        },
        None => {},
    }
}

/// Abstract value of a [`DmxChannel`].
pub struct DmxChannelV {
    pub dmx_break: DmxBreak,
    pub offset: Option<Seq<i32>>,
    pub initial_function: Option<Seq<Seq<char>>>,
    pub highlight: Option<Seq<char>>,
    pub geometry: Seq<char>,
    pub logical_channels: Seq<LogicalChannelV>,
}

/// Description of one DMX channel used in a mode.
#[derive(Debug, PartialEq)]
pub struct DmxChannel {
    /// The DMX break the channel transmits on.
    pub dmx_break: DmxBreak,
    /// The channel's address offsets; absent for a virtual channel.
    pub offset: Option<Offset>,
    /// Link to the channel function activated by default.
    pub initial_function: NodeDmxChannelInitialFunction,
    /// The highlight value, verbatim; absent when the document gives
    /// none.
    pub highlight: Option<String>,
    /// The geometry the channel controls.
    pub geometry: Name,
    /// The logical channels of the channel, in document order.
    pub logical_channels: Vec<LogicalChannel>,
}

impl View for DmxChannel {
    type V = DmxChannelV;

    open spec fn view(&self) -> DmxChannelV {
        DmxChannelV {
            dmx_break: self.dmx_break,
            offset: match &self.offset {
                Some(o) => Some(o@),
                None => None,
            },
            initial_function: self.initial_function@,
            highlight: match &self.highlight {
                Some(h) => Some(h@),
                None => None,
            },
            geometry: self.geometry@,
            logical_channels: logical_channels_views(self.logical_channels@),
        }
    }
}

/// What reading a highlight value from the document yields: the
/// spellings of the absent value give none, anything else is kept
/// verbatim.
pub open spec fn highlight_of(s: Seq<char>) -> Option<Seq<char>> {
    if s.len() == 0 || s == "None"@ {
        None
    } else {
        Some(s)
    }
}

/// What building a DMX channel from a tag's attributes yields, before
/// its logical channels are walked.
pub open spec fn dmx_channel_from_attrs(attrs: Seq<XmlAttr>) -> DmxChannelV {
    DmxChannelV {
        dmx_break: dmx_break_of(attr_string(attrs, "DMXBreak"@)),
        offset: match attr_value(attrs, "Offset"@) {
            Some(v) => offset_of(v),
            None => None,
        },
        initial_function: logical_node_of(attr_string(attrs, "InitialFunction"@)),
        highlight: highlight_of(attr_string(attrs, "Highlight"@)),
        geometry: attr_string(attrs, "Geometry"@),
        logical_channels: Seq::empty(),
    }
}

/// What the permissive node constructor yields for the document
/// spelling `s`.
pub open spec fn logical_node_of(s: Seq<char>) -> Option<Seq<Seq<char>>> {
    if s.len() == 0 {
        None
    } else {
        Some(dot_split(s))
    }
}

/// Round trip at the attribute level: rebuilding a DMX channel from a
/// tag whose attributes carry exactly the spellings its serialization
/// writes yields the original value, before its logical channels are
/// walked.
///
/// Break and offset numbers must be small enough to write within nine
/// digits, an offset list must be nonempty, an initial-function path
/// must have separator-free segments and a nonempty written form, and a
/// present highlight must be neither empty nor the absent spelling; the
/// framework only builds values of this shape.
pub proof fn lemma_dmx_channel_attrs_round_trip(attrs: Seq<XmlAttr>, v: DmxChannelV)
    requires
        attr_value(attrs, "DMXBreak"@) == Some(dmx_break_text(v.dmx_break)),
        attr_value(attrs, "Offset"@) == (match v.offset {
            Some(vals) => Some(offset_text(vals)),
            None => None,
        }),
        attr_value(attrs, "InitialFunction"@) == (match v.initial_function {
            Some(segs) => Some(crate::node::dot_join(segs)),
            None => None,
        }),
        attr_value(attrs, "Highlight"@) == v.highlight,
        attr_value(attrs, "Geometry"@) == Some(v.geometry),
        v.dmx_break matches DmxBreak::Value(n) ==> n < 1000000000,
        v.offset matches Some(vals) ==> (vals.len() >= 1 && forall|i: int|
            0 <= i < vals.len() ==> -1000000000 < #[trigger] vals[i] < 1000000000),
        v.initial_function matches Some(segs) ==> (segs.len() >= 1 && crate::node::dot_join(
            segs,
        ).len() > 0 && forall|i: int, j: int|
            0 <= i < segs.len() && 0 <= j < segs[i].len() ==> #[trigger] segs[i][j] != '.'),
        v.highlight matches Some(h) ==> (h.len() > 0 && h != "None"@),
    ensures
        dmx_channel_from_attrs(attrs) == (DmxChannelV { logical_channels: Seq::empty(), ..v }),
{
    lemma_dmx_break_text_round_trip(v.dmx_break);
    match v.offset {
        Some(vals) => {
            lemma_offset_text_round_trip(vals);
            assert(dmx_channel_from_attrs(attrs).offset matches Some(read) && read =~= vals);
        },
        None => {},
    }
    match v.initial_function {
        Some(segs) => {
            crate::node::lemma_dot_join_split_round_trip(segs);
        },
        None => {},
    }
}

/// The walk of a DMX channel's subtree: every `LogicalChannel` child
/// joins `acc` in document order.
pub open spec fn lc_walk(
    events: Seq<XmlEvent>,
    pos: int,
    depth: int,
    acc: Seq<LogicalChannelV>,
) -> (Seq<LogicalChannelV>, int)
    decreases events.len() - pos,
        via lc_walk_decreases
{
    if pos < 0 || pos >= events.len() {
        (acc, events.len() as int)
    } else {
        match events[pos] {
            XmlEvent::Open { name, attrs } => if name@ == "LogicalChannel"@ {
                lc_walk(
                    events,
                    skip_end(events, pos + 1, 0),
                    depth,
                    acc.push(logical_channel_from_attrs(attrs@)),
                )
            } else {
                lc_walk(events, pos + 1, depth + 1, acc)
            },
            XmlEvent::Empty { name, attrs } => if name@ == "LogicalChannel"@ {
                lc_walk(events, pos + 1, depth, acc.push(logical_channel_from_attrs(attrs@)))
            } else {
                lc_walk(events, pos + 1, depth + 1, acc)
            },
            XmlEvent::Close => if depth == 0 {
                (acc, pos + 1)
            } else {
                lc_walk(events, pos + 1, depth - 1, acc)
            },
            XmlEvent::Other => lc_walk(events, pos + 1, depth, acc),
        }
    }
}

#[via_fn]
proof fn lc_walk_decreases(events: Seq<XmlEvent>, pos: int, depth: int, acc: Seq<LogicalChannelV>) {
    if 0 <= pos < events.len() {
        lemma_skip_end_bounds(events, pos + 1, 0);
    }
}

/// A logical-channel walk neither moves backwards nor leaves the events.
pub proof fn lemma_lc_walk_bounds(
    events: Seq<XmlEvent>,
    pos: int,
    depth: int,
    acc: Seq<LogicalChannelV>,
)
    requires
        0 <= pos <= events.len(),
    ensures
        pos <= lc_walk(events, pos, depth, acc).1 <= events.len(),
    decreases events.len() - pos,
{
    if pos < events.len() {
        if 0 <= pos + 1 <= events.len() {
            lemma_skip_end_bounds(events, pos + 1, 0);
        }
        match events[pos] {
            XmlEvent::Open { name, attrs } => {
                if name@ == "LogicalChannel"@ {
                    lemma_lc_walk_bounds(
                        events,
                        skip_end(events, pos + 1, 0),
                        depth,
                        acc.push(logical_channel_from_attrs(attrs@)),
                    );
                } else {
                    lemma_lc_walk_bounds(events, pos + 1, depth + 1, acc);
                }
            },
            XmlEvent::Empty { name, attrs } => {
                if name@ == "LogicalChannel"@ {
                    lemma_lc_walk_bounds(
                        events,
                        pos + 1,
                        depth,
                        acc.push(logical_channel_from_attrs(attrs@)),
                    );
                } else {
                    lemma_lc_walk_bounds(events, pos + 1, depth + 1, acc);
                }
            },
            XmlEvent::Close => {
                if depth != 0 {
                    lemma_lc_walk_bounds(events, pos + 1, depth - 1, acc);
                }
            },
            XmlEvent::Other => {
                lemma_lc_walk_bounds(events, pos + 1, depth, acc);
            },
        }
    }
}

/// What building a DMX channel from its tag yields: its attributes, and
/// its walked logical channels, together with the position just past the
/// entity's subtree.
pub open spec fn dmx_channel_from_event(
    attrs: Seq<XmlAttr>,
    empty: bool,
    events: Seq<XmlEvent>,
    pos: int,
) -> (DmxChannelV, int) {
    let walked = if empty {
        (Seq::<LogicalChannelV>::empty(), pos)
    } else {
        lc_walk(events, pos, 0, Seq::empty())
    };
    (DmxChannelV { logical_channels: walked.0, ..dmx_channel_from_attrs(attrs) }, walked.1)
}

/// The markup of a DMX channel's opening tag.
pub open spec fn dmx_channel_xml_prefix(v: DmxChannelV) -> Seq<char> {
    "<DMXChannel"@ + crate::xml_write::attr_pair_text("DMXBreak"@, dmx_break_text(v.dmx_break))
        + crate::xml_write::opt_attr_text(
        "Offset"@,
        match v.offset {
            Some(vals) => Some(offset_text(vals)),
            None => None,
        },
    ) + crate::xml_write::opt_attr_text(
        "InitialFunction"@,
        match v.initial_function {
            Some(segs) => Some(crate::node::dot_join(segs)),
            None => None,
        },
    ) + crate::xml_write::opt_attr_text("Highlight"@, v.highlight)
        + crate::xml_write::attr_pair_text("Geometry"@, v.geometry) + ">"@
}

/// The markup of one DMX channel with its logical channels.
pub open spec fn dmx_channel_xml(v: DmxChannelV) -> Seq<char> {
    dmx_channel_xml_prefix(v) + lcs_xml(v.logical_channels) + "</DMXChannel>"@
}

impl DmxChannel {
    /// Writes the entity as a markup fragment that parses back to an
    /// equal entity.
    pub fn to_xml(&self) -> (r: String)
        ensures
            r@ == dmx_channel_xml(self@),
    {
        let mut out = String::from_str("<DMXChannel");
        crate::xml_write::append_attr(&mut out, "DMXBreak", self.dmx_break.text().as_str());
        let offset_str = match &self.offset {
            Some(o) => Some(o.text()),
            None => None,
        };
        crate::xml_write::append_opt_attr(&mut out, "Offset", &offset_str);
        let initial_str = match &self.initial_function.0 {
            Some(node) => Some(node.text()),
            None => None,
        };
        crate::xml_write::append_opt_attr(&mut out, "InitialFunction", &initial_str);
        crate::xml_write::append_opt_attr(&mut out, "Highlight", &self.highlight);
        crate::xml_write::append_attr(&mut out, "Geometry", self.geometry.as_str());
        out.append(">");
        for i in 0..self.logical_channels.len()
            invariant
                out@ == dmx_channel_xml_prefix(self@) + lcs_xml(
                    logical_channels_views(self.logical_channels@).take(i as int),
                ),
            decreases self.logical_channels@.len() - i,
        {
            proof {
                let vs = logical_channels_views(self.logical_channels@);
                assert(vs.take(i + 1).drop_last() =~= vs.take(i as int));
                assert(vs.take(i + 1).last() == vs[i as int]);
            }
            out.append(self.logical_channels[i].to_xml().as_str());
        }
        proof {
            assert(logical_channels_views(self.logical_channels@).take(
                self.logical_channels@.len() as int,
            ) =~= logical_channels_views(self.logical_channels@));
        }
        out.append("</DMXChannel>");
        out
    }

    /// The tag name of one entity of this type.
    pub fn single_event_name() -> (r: String)
        ensures
            r@ == "DMXChannel"@,
    {
        "DMXChannel".to_owned()
    }

    /// The tag name of the wrapping collection element.
    pub fn group_event_name() -> (r: String)
        ensures
            r@ == "DMXChannels"@,
    {
        "DMXChannels".to_owned()
    }

    /// Does `event_name` name one entity of this type?
    pub fn is_single_event_name(event_name: &str) -> (r: bool)
        ensures
            r == (event_name@ == "DMXChannel"@),
    {
        str_eq(event_name, "DMXChannel")
    }

    /// Does `event_name` name the wrapping collection element?
    pub fn is_group_event_name(event_name: &str) -> (r: bool)
        ensures
            r == (event_name@ == "DMXChannels"@),
    {
        str_eq(event_name, "DMXChannels")
    }

    /// Builds the entity from its tag's attributes, walking its subtree
    /// for logical channels and leaving the cursor just past it.
    pub fn single_from_event(
        attrs: &Vec<XmlAttr>,
        empty: bool,
        events: &Vec<XmlEvent>,
        pos: usize,
    ) -> (r: (DmxChannel, usize))
        requires
            pos <= events@.len(),
        ensures
            r.0@ == dmx_channel_from_event(attrs@, empty, events@, pos as int).0,
            r.1 == dmx_channel_from_event(attrs@, empty, events@, pos as int).1,
            pos <= r.1 <= events@.len(),
    {
        let dmx_break = parse_dmx_break(read_attr_string(attrs, "DMXBreak").as_str());
        let offset = match find_attr(attrs, "Offset") {
            Some(v) => parse_offset(v.as_str()),
            None => None,
        };
        let initial_function = NodeDmxChannelInitialFunction::new_from_str_unchecked(
            read_attr_string(attrs, "InitialFunction").as_str(),
        );
        let highlight_raw = read_attr_string(attrs, "Highlight");
        let highlight = if highlight_raw.as_str().is_empty() || str_eq(
            highlight_raw.as_str(),
            "None",
        ) {
            None
        } else {
            Some(highlight_raw)
        };
        let geometry = Name::new_unchecked(read_attr_string(attrs, "Geometry").as_str());
        let mut logical_channels: Vec<LogicalChannel> = Vec::new();
        proof {
            assert(logical_channels_views(logical_channels@) =~= Seq::<LogicalChannelV>::empty());
        }
        if empty {
            return (
                DmxChannel {
                    dmx_break,
                    offset,
                    initial_function,
                    highlight,
                    geometry,
                    logical_channels,
                },
                pos,
            );
        }
        let mut i = pos;
        let mut depth: usize = 0;
        loop
            invariant_except_break
                lc_walk(events@, pos as int, 0, Seq::empty()) == lc_walk(
                    events@,
                    i as int,
                    depth as int,
                    logical_channels_views(logical_channels@),
                ),
            invariant
                pos <= i <= events@.len(),
                depth <= i,
            ensures
                lc_walk(events@, pos as int, 0, Seq::empty()) == (
                    logical_channels_views(logical_channels@),
                    i as int,
                ),
                pos <= i <= events@.len(),
            decreases events@.len() - i,
        {
            if i == events.len() {
                break;
            }
            match &events[i] {
                XmlEvent::Open { name: n, attrs: a } => {
                    if LogicalChannel::is_single_event_name(n.as_str()) {
                        let (lc, end) = LogicalChannel::single_from_event(a, false, events, i + 1);
                        proof {
                            assert(logical_channels_views(logical_channels@.push(lc))
                                =~= logical_channels_views(logical_channels@).push(lc@));
                        }
                        logical_channels.push(lc);
                        i = end;
                    } else {
                        depth += 1;
                        i += 1;
                    }
                },
                XmlEvent::Empty { name: n, attrs: a } => {
                    if LogicalChannel::is_single_event_name(n.as_str()) {
                        let (lc, _) = LogicalChannel::single_from_event(a, true, events, i + 1);
                        proof {
                            assert(logical_channels_views(logical_channels@.push(lc))
                                =~= logical_channels_views(logical_channels@).push(lc@));
                        }
                        logical_channels.push(lc);
                        i = i + 1;
                    } else {
                        depth += 1;
                        i += 1;
                    }
                },
                XmlEvent::Close => {
                    if depth == 0 {
                        i += 1;
                        break;
                    }
                    depth -= 1;
                    i += 1;
                },
                XmlEvent::Other => {
                    i += 1;
                },
            }
        }
        (
            DmxChannel { dmx_break, offset, initial_function, highlight, geometry, logical_channels },
            i,
        )
    }
}

} // verus!
