//! The elements this crate knows and the ways a parse can fail.

use vstd::prelude::*;
use vstd::string::StringExecFns;
use vstd::string::StringSliceAdditionalSpecFns;

verus! {

/// A schema element with a parser of its own.
#[derive(Clone, Copy, Debug, PartialEq, Eq, Structural)]
pub enum Element {
    DataValidations,
    DataValidation,
    Formula1,
    Formula2,
    SheetViews,
    SheetView,
    Pane,
}

impl Element {
    /// The local tag name of the element, as written in a worksheet part.
    pub open spec fn spec_tag(self) -> &'static str {
        match self {
            Element::DataValidations => "dataValidations",
            Element::DataValidation => "dataValidation",
            Element::Formula1 => "formula1",
            Element::Formula2 => "formula2",
            Element::SheetViews => "sheetViews",
            Element::SheetView => "sheetView",
            Element::Pane => "pane",
        }
    }

    /// The bytes of the local tag name.
    pub open spec fn tag_bytes(self) -> Seq<u8> {
        self.spec_tag().spec_bytes()
    }

    /// The local tag name of the element.
    #[verifier::when_used_as_spec(spec_tag)]
    pub fn tag(self) -> (name: &'static str)
        ensures
            name == self.spec_tag(),
    {
        match self {
            Element::DataValidations => "dataValidations",
            Element::DataValidation => "dataValidation",
            Element::Formula1 => "formula1",
            Element::Formula2 => "formula2",
            Element::SheetViews => "sheetViews",
            Element::SheetView => "sheetView",
            Element::Pane => "pane",
        }
    }
}

/// A fatal parse failure. Each one aborts the parse of the whole part.
#[derive(Debug, PartialEq, Eq)]
pub enum ParseError {
    /// Text that had to be UTF-8 was not: the text of `element` where
    /// `attribute` is `None`, else the value of that attribute of it.
    InvalidUtf8 { element: Element, attribute: Option<Vec<u8>> },
    /// The input ended while the end tag of `element` was still pending.
    UnexpectedEof { element: Element },
    /// The cursor reported malformed markup; `message` is its own report.
    Malformed { message: String },
}

/// The mathematical value of a [`ParseError`].
pub enum ParseErrorView {
    InvalidUtf8 { element: Element, attribute: Option<Seq<u8>> },
    UnexpectedEof { element: Element },
    Malformed { message: Seq<char> },
}

impl View for ParseError {
    type V = ParseErrorView;

    open spec fn view(&self) -> ParseErrorView {
        match self {
            ParseError::InvalidUtf8 { element, attribute } => ParseErrorView::InvalidUtf8 {
                element: *element,
                attribute: match attribute {
                    Some(key) => Some(key@),
                    None => None,
                },
            },
            ParseError::UnexpectedEof { element } => ParseErrorView::UnexpectedEof {
                element: *element,
            },
            ParseError::Malformed { message } => ParseErrorView::Malformed { message: message@ },
        }
    }
}

/// The mathematical value of what a parser returns: the view of the value it
/// read, or the view of its failure.
pub open spec fn outcome_view<T: View>(outcome: Result<T, ParseError>) -> Result<
    T::V,
    ParseErrorView,
> {
    match outcome {
        Ok(value) => Ok(value@),
        Err(error) => Err(error@),
    }
}

impl ParseErrorView {
    /// The text that reports the failure to a person.
    pub open spec fn message(self) -> Seq<char> {
        match self {
            ParseErrorView::InvalidUtf8 { element, .. } => "invalid UTF-8 text at `"@
                + element.spec_tag()@ + "`"@,
            ParseErrorView::UnexpectedEof { element } => "unexpected end of file at `"@
                + element.spec_tag()@ + "`"@,
            ParseErrorView::Malformed { message } => message,
        }
    }
}

impl ParseError {
    /// The element that was being parsed when the failure arose, where the
    /// failure is the library's own finding and not the cursor's.
    pub fn element(&self) -> (element: Option<Element>)
        ensures
            element == match self@ {
                ParseErrorView::InvalidUtf8 { element, .. } => Some(element),
                ParseErrorView::UnexpectedEof { element } => Some(element),
                ParseErrorView::Malformed { .. } => None,
            },
    {
        match self {
            ParseError::InvalidUtf8 { element, .. } => Some(*element),
            ParseError::UnexpectedEof { element } => Some(*element),
            ParseError::Malformed { .. } => None,
        }
    }

    /// The failure as text: the element's name for the library's own
    /// findings, the cursor's report word for word otherwise.
    pub fn message(&self) -> (text: String)
        ensures
            text@ == self@.message(),
    {
        match self {
            ParseError::InvalidUtf8 { element, .. } => {
                let text = String::from_str("invalid UTF-8 text at `");
                text.concat(element.tag()).concat("`")
            },
            ParseError::UnexpectedEof { element } => {
                let text = String::from_str("unexpected end of file at `");
                text.concat(element.tag()).concat("`")
            },
            ParseError::Malformed { message } => message.clone(),
        }
    }
}

} // verus!
