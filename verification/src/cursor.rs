//! The forward-only XML cursor.
//!
//! The cursor is `quick_xml`'s reader over a byte slice. The parsers never
//! look inside it: they see the tokens it has yet to yield, as plain values.

use crate::error::{Element, ParseError, ParseErrorView};
use crate::text::bytes_eq;
use crate::token::{
    entered, local_part, named, skip_subtree, SkipError, Skipped, StartTag, StartTagView,
    XmlAttribute, XmlEvent, XmlToken,
};
use quick_xml::errors::{Error, IllFormedError};
use quick_xml::events::Event;
use quick_xml::name::QName;
use vstd::prelude::*;

verus! {

/// `quick_xml::Reader`, declared so that a cursor can hold one. Nothing is
/// known of what is inside it.
#[verifier::external_type_specification]
#[verifier::external_body]
#[verifier::reject_recursive_types(R)]
pub struct ExReader<R>(quick_xml::Reader<R>);

/// The tokens a reader has yet to yield, up to and including the first `Eof`
/// or `Fault`.
pub uninterp spec fn upcoming(reader: quick_xml::Reader<&[u8]>) -> Seq<XmlToken>;

/// The tokens that a reader over the document `xml` yields, up to and
/// including the first `Eof` or `Fault`.
pub uninterp spec fn xml_tokens(xml: Seq<u8>) -> Seq<XmlToken>;

/// Makes a reader over `xml` that yields a self-closing tag as a start tag
/// and an end tag.
///
/// Calls `Reader::from_reader` and sets `expand_empty_elements`. The tokens
/// of the new reader are those of the document, by name.
#[verifier::external_body]
fn open_reader<'a>(xml: &'a [u8]) -> (reader: quick_xml::Reader<&'a [u8]>)
    ensures
        upcoming(reader) == xml_tokens(xml@),
{
    let mut reader = quick_xml::Reader::from_reader(xml);
    reader.config_mut().expand_empty_elements = true;
    reader
}

/// Reads the next event and hands it out as plain values.
///
/// Calls `Reader::read_event`, and `BytesStart::attributes` on a start tag.
/// The event is the first of the reader's tokens; unless it is the last one,
/// the reader then holds the tokens after it. A reader at the end of its
/// input stays there.
#[verifier::external_body]
fn read_event<'a>(reader: &mut quick_xml::Reader<&'a [u8]>) -> (event: XmlEvent)
    ensures
        upcoming(*old(reader)).len() > 0,
        event@ == upcoming(*old(reader))[0],
        !event@.is_last() ==> upcoming(*final(reader)) == upcoming(*old(reader)).skip(1),
        event@ is Eof ==> upcoming(*final(reader)) == upcoming(*old(reader)),
{
    match reader.read_event() {
        Ok(Event::Start(e)) => XmlEvent::Start(StartTag {
            name: e.name().0.to_vec(),
            attributes: e.attributes().map(|a| match a {
                Ok(a) => XmlAttribute::Pair { key: a.key.0.to_vec(), value: a.value.into_owned() },
                Err(e) => XmlAttribute::Malformed { message: e.to_string() },
            }).collect(),
        }),
        Ok(Event::End(e)) => XmlEvent::End(e.name().0.to_vec()),
        Ok(Event::Text(e)) => XmlEvent::Text(e.to_vec()),
        Ok(Event::Eof) => XmlEvent::Eof,
        Ok(_) => XmlEvent::Other,
        Err(e) => XmlEvent::Fault(e.to_string()),
    }
}

/// Skips to the end tag `name` of the subtree the reader is in.
///
/// Calls `Reader::read_to_end`: it reads on, counting nested start tags of
/// the same qualified name, until the end tag that closes the subtree. It
/// fails with the first fault that it meets. At the end of the input it
/// fails with an error of its own, which no read gives: that the end tag is
/// missing, or, where `name` is no UTF-8, that it cannot be decoded.
#[verifier::external_body]
fn read_to_end<'a>(reader: &mut quick_xml::Reader<&'a [u8]>, name: &[u8]) -> (outcome: Result<
    (),
    SkipError,
>)
    ensures
        match skip_subtree(upcoming(*old(reader)), name@, 0) {
            Skipped::Closed { rest } => outcome is Ok && upcoming(*final(reader)) == rest,
            Skipped::Fault { message } => outcome matches Err(SkipError::Fault(m)) && m@
                == message,
            Skipped::Eof => outcome == Err::<(), SkipError>(SkipError::Eof),
        },
{
    match reader.read_to_end(QName(name)) {
        Ok(_) => Ok(()),
        Err(Error::IllFormed(IllFormedError::MissingEndTag(_))) => Err(SkipError::Eof),
        Err(Error::Encoding(_)) => Err(SkipError::Eof),
        Err(e) => Err(SkipError::Fault(e.to_string())),
    }
}

/// The local part of a qualified name.
///
/// Calls `QName::local_name`: it drops everything up to and including the
/// first colon.
#[verifier::external_body]
pub(crate) fn local_name<'a>(name: &'a [u8]) -> (local: &'a [u8])
    ensures
        local@ == local_part(name@),
{
    QName(name).local_name().into_inner()
}

/// Whether `name` is the name of `element`, whatever its prefix.
pub fn is_named(name: &[u8], element: Element) -> (same: bool)
    ensures
        same == named(name@, element),
{
    bytes_eq(local_name(name), element.tag().as_bytes())
}

/// The mathematical value of what looking for a start tag returns.
pub open spec fn found_view(found: Result<Option<StartTag>, ParseError>) -> Result<
    Option<StartTagView>,
    ParseErrorView,
> {
    match found {
        Ok(Some(tag)) => Ok(Some(tag@)),
        Ok(None) => Ok(None),
        Err(error) => Err(error@),
    }
}

/// A forward-only cursor over the XML of one worksheet part.
pub struct XmlReader<'a> {
    inner: quick_xml::Reader<&'a [u8]>,
}

impl<'a> XmlReader<'a> {
    /// The tokens the cursor has yet to yield, up to and including the first
    /// `Eof` or `Fault`.
    pub closed spec fn view(&self) -> Seq<XmlToken> {
        upcoming(self.inner)
    }

    /// A cursor at the start of the document `xml`.
    pub fn new(xml: &'a [u8]) -> (reader: Self)
        ensures
            reader@ == xml_tokens(xml@),
    {
        XmlReader { inner: open_reader(xml) }
    }

    /// Reads the next event. Unless it is `Eof` or `Fault`, the cursor moves
    /// past it; at `Eof` it stays where it is.
    pub fn next_event(&mut self) -> (event: XmlEvent)
        ensures
            old(self)@.len() > 0,
            event@ == old(self)@[0],
            !event@.is_last() ==> final(self)@ == old(self)@.skip(1),
            event@ is Eof ==> final(self)@ == old(self)@,
    {
        read_event(&mut self.inner)
    }

    /// Reads on to the first start tag of `element` and hands it out, the
    /// cursor left right after it; hands out nothing where the input ends
    /// before such a tag, the cursor left at its end. A fault on the way
    /// fails.
    pub fn enter(&mut self, element: Element) -> (found: Result<Option<StartTag>, ParseError>)
        ensures
            found_view(found) == entered(old(self)@, element).outcome,
            found is Ok ==> final(self)@ == entered(old(self)@, element).rest,
    {
        loop
            invariant
                entered(self@, element) == entered(old(self)@, element),
            decreases self@.len(),
        {
            let event = self.next_event();
            match event {
                XmlEvent::Start(tag) => {
                    if is_named(tag.name.as_slice(), element) {
                        return Ok(Some(tag));
                    }
                },
                XmlEvent::Eof => {
                    return Ok(None);
                },
                XmlEvent::Fault(message) => {
                    return Err(ParseError::Malformed { message });
                },
                _ => {},
            }
        }
    }

    /// Discards the rest of the subtree whose start tag `name` was just read,
    /// end tag included. Fails at a fault on the way, and where the input
    /// ends before the end tag.
    pub fn skip_to_end(&mut self, name: &[u8]) -> (outcome: Result<(), SkipError>)
        ensures
            match skip_subtree(old(self)@, name@, 0) {
                Skipped::Closed { rest } => outcome is Ok && final(self)@ == rest,
                Skipped::Fault { message } => outcome matches Err(SkipError::Fault(m)) && m@
                    == message,
                Skipped::Eof => outcome == Err::<(), SkipError>(SkipError::Eof),
            },
    {
        read_to_end(&mut self.inner, name)
    }
}

} // verus!
