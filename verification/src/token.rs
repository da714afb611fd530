//! The tokens of an XML event stream, as plain values, and what the parsers
//! do with a stream of them before any element is told apart.

use crate::error::{Element, ParseErrorView};
use vstd::prelude::*;

verus! {

/// One entry of a start tag's attribute list.
#[derive(Debug, PartialEq, Eq)]
pub enum XmlAttribute {
    /// A well-formed attribute: its qualified name and its raw value.
    Pair { key: Vec<u8>, value: Vec<u8> },
    /// A malformed or repeated attribute, with the cursor's report of it.
    Malformed { message: String },
}

/// The mathematical value of an [`XmlAttribute`].
pub enum AttributeView {
    Pair { key: Seq<u8>, value: Seq<u8> },
    Malformed { message: Seq<char> },
}

impl View for XmlAttribute {
    type V = AttributeView;

    open spec fn view(&self) -> AttributeView {
        match self {
            XmlAttribute::Pair { key, value } => AttributeView::Pair { key: key@, value: value@ },
            XmlAttribute::Malformed { message } => AttributeView::Malformed { message: message@ },
        }
    }
}

/// A start tag: its qualified name and its attribute list in document order.
#[derive(Debug, PartialEq, Eq)]
pub struct StartTag {
    pub name: Vec<u8>,
    pub attributes: Vec<XmlAttribute>,
}

/// The mathematical value of a [`StartTag`].
pub struct StartTagView {
    pub name: Seq<u8>,
    pub attributes: Seq<AttributeView>,
}

impl View for StartTag {
    type V = StartTagView;

    open spec fn view(&self) -> StartTagView {
        StartTagView {
            name: self.name@,
            attributes: self.attributes@.map_values(|a: XmlAttribute| a@),
        }
    }
}

/// What one read of the cursor yields.
#[derive(Debug, PartialEq, Eq)]
pub enum XmlEvent {
    /// A start tag. A self-closing tag yields this and then its `End`.
    Start(StartTag),
    /// An end tag, with its qualified name.
    End(Vec<u8>),
    /// Character data between tags, still escaped.
    Text(Vec<u8>),
    /// Markup the parsers pass over: comments, CDATA, declarations, instructions.
    Other,
    /// The end of the input.
    Eof,
    /// Malformed markup, with the cursor's report of it.
    Fault(String),
}

/// The mathematical value of an [`XmlEvent`]: one token of the stream.
pub enum XmlToken {
    Start(StartTagView),
    End { name: Seq<u8> },
    Text { content: Seq<u8> },
    Other,
    Eof,
    Fault { message: Seq<char> },
}

impl View for XmlEvent {
    type V = XmlToken;

    open spec fn view(&self) -> XmlToken {
        match self {
            XmlEvent::Start(tag) => XmlToken::Start(tag@),
            XmlEvent::End(name) => XmlToken::End { name: name@ },
            XmlEvent::Text(content) => XmlToken::Text { content: content@ },
            XmlEvent::Other => XmlToken::Other,
            XmlEvent::Eof => XmlToken::Eof,
            XmlEvent::Fault(message) => XmlToken::Fault { message: message@ },
        }
    }
}

impl XmlToken {
    /// True for the two tokens after which a stream yields nothing more that
    /// the parsers use: the end of the input and a fault.
    pub open spec fn is_last(self) -> bool {
        self is Eof || self is Fault
    }
}

/// What parsing one element off the front of a token stream gives: the value
/// or the failure, and on success the tokens that follow what was read.
pub struct Parsed<T> {
    pub outcome: Result<T, ParseErrorView>,
    pub rest: Seq<XmlToken>,
}

/// A parse that failed with `error`.
pub open spec fn failed<T>(error: ParseErrorView) -> Parsed<T> {
    Parsed { outcome: Err(error), rest: Seq::empty() }
}

/// The local part of a qualified name: what follows its first colon, or all
/// of it where it has none.
pub open spec fn local_part(name: Seq<u8>) -> Seq<u8>
    decreases name.len(),
{
    if name.len() == 0 || !name.contains(0x3au8) {
        name
    } else if name[0] == 0x3au8 {
        name.skip(1)
    } else {
        local_part(name.skip(1))
    }
}

/// Whether `name` is the name of `element`, whatever its prefix.
pub open spec fn named(name: Seq<u8>, element: Element) -> bool {
    local_part(name) == element.tag_bytes()
}

/// Reading on to the first start tag of `element`: that tag and what follows
/// it, or nothing where the input ends before one comes.
pub open spec fn entered(tokens: Seq<XmlToken>, element: Element) -> Parsed<Option<StartTagView>>
    decreases tokens.len(),
{
    if tokens.len() == 0 {
        Parsed { outcome: Ok(None), rest: tokens }
    } else {
        let rest = tokens.skip(1);
        match tokens[0] {
            XmlToken::Start(tag) if named(tag.name, element) => Parsed {
                outcome: Ok(Some(tag)),
                rest,
            },
            XmlToken::Eof => Parsed { outcome: Ok(None), rest: tokens },
            XmlToken::Fault { message } => failed(ParseErrorView::Malformed { message }),
            _ => entered(rest, element),
        }
    }
}

/// Why skipping to an end tag failed.
#[derive(Debug, PartialEq, Eq)]
pub enum SkipError {
    /// The input ended before the end tag came.
    Eof,
    /// Malformed markup came first, with the cursor's report of it.
    Fault(String),
}

/// How skipping to an end tag ends.
pub enum Skipped {
    /// The end tag was met; `rest` is what follows it.
    Closed { rest: Seq<XmlToken> },
    /// A fault came first.
    Fault { message: Seq<char> },
    /// The input ended first.
    Eof,
}

/// Skips tokens up to the end tag `name` that closes the subtree the stream
/// is in: `depth` counts the start tags of that name met and not yet closed.
pub open spec fn skip_subtree(tokens: Seq<XmlToken>, name: Seq<u8>, depth: nat) -> Skipped
    decreases tokens.len(),
{
    if tokens.len() == 0 {
        Skipped::Eof
    } else {
        let rest = tokens.skip(1);
        match tokens[0] {
            XmlToken::Fault { message } => Skipped::Fault { message },
            XmlToken::Eof => Skipped::Eof,
            XmlToken::Start(tag) if tag.name == name => skip_subtree(rest, name, depth + 1),
            XmlToken::End { name: end } if end == name && depth == 0 => Skipped::Closed { rest },
            XmlToken::End { name: end } if end == name => skip_subtree(
                rest,
                name,
                (depth - 1) as nat,
            ),
            _ => skip_subtree(rest, name, depth),
        }
    }
}

} // verus!
