//! The trusted boundary around the pull-based XML reader.
//!
//! Everything the library knows about a document it learns through
//! [`collect_events`], which drives the outside reader one event at a
//! time and hands back the library's own plain event values. The reader's
//! state is opaque; the contracts here therefore only say what holds of
//! every outcome, and the tree walker is verified for every event
//! sequence the reader could produce.

use vstd::prelude::*;

use crate::error::{ErrorKind, GdtfError};
use crate::xml_event::{XmlAttr, XmlEvent};

verus! {

#[verifier::external_type_specification]
#[verifier::external_body]
#[verifier::reject_recursive_types(B)]
pub struct ExReader<B>(quick_xml::Reader<B>);

#[verifier::external_type_specification]
#[verifier::external_body]
pub struct ExBytesStart<'a>(quick_xml::events::BytesStart<'a>);

/// Relies on quick_xml::Reader::from_str: builds a pull reader over
/// `xml`.
#[verifier::external_body]
fn new_reader<'a>(xml: &'a str) -> quick_xml::Reader<&'a [u8]> {
    quick_xml::Reader::from_str(xml)
}

/// Relies on BytesStart::name and BytesStart::attributes: copies the tag
/// name and its raw attribute pairs out as plain strings. An attribute
/// error (malformed or repeated attribute) is a tokenizer failure.
#[verifier::external_body]
fn convert_tag(e: &quick_xml::events::BytesStart<'_>, empty: bool) -> (r: Result<
    XmlEvent,
    GdtfError,
>)
    ensures
        r matches Err(err) ==> err.kind() == ErrorKind::Tokenizer,
{
    let mut attrs: Vec<XmlAttr> = Vec::new();
    for a in e.attributes() {
        match a {
            Ok(a) => attrs.push(XmlAttr { key: a.key.0.to_owned(), value: a.value.into_owned() }),
            Err(err) => return Err(GdtfError::TokenizerFailure(err.to_string())),
        }
    }
    let name = e.name().0.to_owned();
    Ok(if empty {
        XmlEvent::Empty { name, attrs }
    } else {
        XmlEvent::Open { name, attrs }
    })
}

/// Relies on quick_xml::Reader::read_event: pulls the next event and
/// converts it to the library's plain event type. The end of input is
/// `Ok(None)`; a reader error is a tokenizer failure.
#[verifier::external_body]
fn read_xml_event(reader: &mut quick_xml::Reader<&[u8]>) -> (r: Result<Option<XmlEvent>, GdtfError>)
    ensures
        r matches Err(e) ==> e.kind() == ErrorKind::Tokenizer,
{
    match reader.read_event() {
        Ok(quick_xml::events::Event::Start(e)) => convert_tag(&e, false).map(Some),
        Ok(quick_xml::events::Event::Empty(e)) => convert_tag(&e, true).map(Some),
        Ok(quick_xml::events::Event::End(_)) => Ok(Some(XmlEvent::Close)),
        Ok(quick_xml::events::Event::Eof) => Ok(None),
        Ok(_) => Ok(Some(XmlEvent::Other)),
        Err(e) => Err(GdtfError::TokenizerFailure(e.to_string())),
    }
}

/// Reads the whole document into the library's event sequence, in
/// document order, stopping at the end of input.
///
/// Malformed markup anywhere in the document surfaces here as a
/// tokenizer failure, and nothing of the document is returned: a parse
/// either sees the whole event sequence or fails.
pub fn collect_events(xml: &str) -> (r: Result<Vec<XmlEvent>, GdtfError>)
    ensures
        r matches Err(e) ==> e.kind() == ErrorKind::Tokenizer,
{
    let mut reader = new_reader(xml);
    let mut events: Vec<XmlEvent> = Vec::new();
    let mut budget: usize = xml.len();
    loop
        decreases budget,
    {
        match read_xml_event(&mut reader) {
            Ok(Some(ev)) => {
                if budget == 0 {
                    // Every event of a slice reader consumes input, so a
                    // well-behaved reader ends before the budget does.
                    return Err(
                        GdtfError::TokenizerFailure("input did not reach its end".to_owned()),
                    );
                }
                budget = budget - 1;
                events.push(ev);
            },
            Ok(None) => {
                return Ok(events);
            },
            Err(e) => {
                return Err(e);
            },
        }
    }
}

} // verus!
