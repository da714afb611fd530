//! The views of a worksheet and their panes, as the XML holds them.

use crate::attributes::{
    decode_attribute, decoded_attributes, lemma_first_error_stands, TextAttributeView,
};
use crate::cursor::{is_named, XmlReader};
use crate::error::{outcome_view, Element, ParseError, ParseErrorView};
use crate::literal::{is_float_literal, is_float_text};
use crate::text::{
    bool_of_text, bytes_eq, string_to_bool, string_to_unsignedint, text_view, unsigned_of_text,
};
use crate::token::{
    failed, named, skip_subtree, Parsed, SkipError, Skipped, StartTag, StartTagView, XmlEvent,
    XmlToken,
};
use vstd::prelude::*;
use vstd::string::StringSliceAdditionalSpecFns;

verus! {

/// A view pane: the frozen or split region of a worksheet view.
///
/// ```xml
/// <pane xSplit="2310" ySplit="2070" topLeftCell="C1" activePane="bottomRight"/>
/// ```
#[derive(Debug, Clone, PartialEq)]
pub struct XlsxPane {
    /// activePane (Active Pane): topLeft, topRight, bottomLeft or bottomRight
    pub active_pane: Option<String>,
    /// state (Pane State): split, frozen or frozenSplit
    pub state: Option<String>,
    /// topLeftCell (Top Left Visible Cell)
    pub top_left_cell: Option<String>,
    /// xSplit (Horizontal Split Position), in 1/20th of a point: the text
    /// of a floating-point number, as written
    pub x_split: Option<String>,
    /// ySplit (Vertical Split Position), in 1/20th of a point: the text of
    /// a floating-point number, as written
    pub y_split: Option<String>,
    /// splitHorizontal (Horizontal Split Position), in pixels
    pub split_horizontal: Option<u64>,
    /// splitVertical (Vertical Split Position), in pixels
    pub split_vertical: Option<u64>,
    /// thinHorizontal (Thin Horizontal Split Bar)
    pub thin_horizontal: Option<bool>,
    /// thinVertical (Thin Vertical Split Bar)
    pub thin_vertical: Option<bool>,
}

/// The mathematical value of an [`XlsxPane`].
pub struct XlsxPaneView {
    pub active_pane: Option<Seq<char>>,
    pub state: Option<Seq<char>>,
    pub top_left_cell: Option<Seq<char>>,
    pub x_split: Option<Seq<char>>,
    pub y_split: Option<Seq<char>>,
    pub split_horizontal: Option<u64>,
    pub split_vertical: Option<u64>,
    pub thin_horizontal: Option<bool>,
    pub thin_vertical: Option<bool>,
}

impl View for XlsxPane {
    type V = XlsxPaneView;

    open spec fn view(&self) -> XlsxPaneView {
        XlsxPaneView {
            active_pane: text_view(self.active_pane),
            state: text_view(self.state),
            top_left_cell: text_view(self.top_left_cell),
            x_split: text_view(self.x_split),
            y_split: text_view(self.y_split),
            split_horizontal: self.split_horizontal,
            split_vertical: self.split_vertical,
            thin_horizontal: self.thin_horizontal,
            thin_vertical: self.thin_vertical,
        }
    }
}

/// An attribute that a pane reads.
#[derive(Clone, Copy, Debug, PartialEq, Eq, Structural)]
pub enum PaneAttribute {
    ActivePane,
    State,
    TopLeftCell,
    XSplit,
    YSplit,
    SplitHorizontal,
    SplitVertical,
    ThinHorizontal,
    ThinVertical,
}

/// The attribute of a pane that a local attribute name stands for, if any.
pub open spec fn pane_attribute(key: Seq<u8>) -> Option<PaneAttribute> {
    if key == "activePane".spec_bytes() {
        Some(PaneAttribute::ActivePane)
    } else if key == "state".spec_bytes() {
        Some(PaneAttribute::State)
    } else if key == "topLeftCell".spec_bytes() {
        Some(PaneAttribute::TopLeftCell)
    } else if key == "xSplit".spec_bytes() {
        Some(PaneAttribute::XSplit)
    } else if key == "ySplit".spec_bytes() {
        Some(PaneAttribute::YSplit)
    } else if key == "splitHorizontal".spec_bytes() {
        Some(PaneAttribute::SplitHorizontal)
    } else if key == "splitVertical".spec_bytes() {
        Some(PaneAttribute::SplitVertical)
    } else if key == "thinHorizontal".spec_bytes() {
        Some(PaneAttribute::ThinHorizontal)
    } else if key == "thinVertical".spec_bytes() {
        Some(PaneAttribute::ThinVertical)
    } else {
        None
    }
}

/// Whether `text` is a value that the pane attribute `field` takes: any
/// text for the three names, the text of a number or of a boolean for the
/// others. Text that it does not take leaves the field as it was.
pub open spec fn pane_takes(field: PaneAttribute, text: Seq<char>) -> bool {
    match field {
        PaneAttribute::ActivePane | PaneAttribute::State | PaneAttribute::TopLeftCell => true,
        PaneAttribute::XSplit | PaneAttribute::YSplit => is_float_literal(text),
        PaneAttribute::SplitHorizontal | PaneAttribute::SplitVertical => unsigned_of_text(
            text,
        ) is Some,
        PaneAttribute::ThinHorizontal | PaneAttribute::ThinVertical => bool_of_text(text) is Some,
    }
}

/// The text of the last attribute in `attributes` that stands for `field`
/// and holds a value that `field` takes.
pub open spec fn pane_text(attributes: Seq<TextAttributeView>, field: PaneAttribute) -> Option<
    Seq<char>,
>
    decreases attributes.len(),
{
    if attributes.len() == 0 {
        None
    } else if pane_attribute(attributes.last().key) == Some(field) && pane_takes(
        field,
        attributes.last().text,
    ) {
        Some(attributes.last().text)
    } else {
        pane_text(attributes.drop_last(), field)
    }
}

/// The pixel count that `attributes` give for `field`.
pub open spec fn pane_pixels(attributes: Seq<TextAttributeView>, field: PaneAttribute) -> Option<
    u64,
> {
    match pane_text(attributes, field) {
        Some(text) => unsigned_of_text(text),
        None => None,
    }
}

/// The flag that `attributes` give for `field`.
pub open spec fn pane_flag(attributes: Seq<TextAttributeView>, field: PaneAttribute) -> Option<
    bool,
> {
    match pane_text(attributes, field) {
        Some(text) => bool_of_text(text),
        None => None,
    }
}

/// The pane that a decoded attribute list describes.
pub open spec fn pane_from_attributes(attributes: Seq<TextAttributeView>) -> XlsxPaneView {
    XlsxPaneView {
        active_pane: pane_text(attributes, PaneAttribute::ActivePane),
        state: pane_text(attributes, PaneAttribute::State),
        top_left_cell: pane_text(attributes, PaneAttribute::TopLeftCell),
        x_split: pane_text(attributes, PaneAttribute::XSplit),
        y_split: pane_text(attributes, PaneAttribute::YSplit),
        split_horizontal: pane_pixels(attributes, PaneAttribute::SplitHorizontal),
        split_vertical: pane_pixels(attributes, PaneAttribute::SplitVertical),
        thin_horizontal: pane_flag(attributes, PaneAttribute::ThinHorizontal),
        thin_vertical: pane_flag(attributes, PaneAttribute::ThinVertical),
    }
}

/// The pane that a start tag describes.
pub open spec fn pane_from_tag(tag: StartTagView) -> Result<XlsxPaneView, ParseErrorView> {
    match decoded_attributes(Element::Pane, tag.attributes) {
        Ok(attributes) => Ok(pane_from_attributes(attributes)),
        Err(error) => Err(error),
    }
}

impl PaneAttribute {
    /// The attribute of a pane that the local attribute name `key` stands for.
    pub fn of_key(key: &[u8]) -> (field: Option<PaneAttribute>)
        ensures
            field == pane_attribute(key@),
    {
        if bytes_eq(key, "activePane".as_bytes()) {
            Some(PaneAttribute::ActivePane)
        } else if bytes_eq(key, "state".as_bytes()) {
            Some(PaneAttribute::State)
        } else if bytes_eq(key, "topLeftCell".as_bytes()) {
            Some(PaneAttribute::TopLeftCell)
        } else if bytes_eq(key, "xSplit".as_bytes()) {
            Some(PaneAttribute::XSplit)
        } else if bytes_eq(key, "ySplit".as_bytes()) {
            Some(PaneAttribute::YSplit)
        } else if bytes_eq(key, "splitHorizontal".as_bytes()) {
            Some(PaneAttribute::SplitHorizontal)
        } else if bytes_eq(key, "splitVertical".as_bytes()) {
            Some(PaneAttribute::SplitVertical)
        } else if bytes_eq(key, "thinHorizontal".as_bytes()) {
            Some(PaneAttribute::ThinHorizontal)
        } else if bytes_eq(key, "thinVertical".as_bytes()) {
            Some(PaneAttribute::ThinVertical)
        } else {
            None
        }
    }
}

impl XlsxPane {
    /// A pane with no attribute.
    pub fn empty() -> (pane: Self)
        ensures
            pane@ == pane_from_attributes(Seq::empty()),
    {
        XlsxPane {
            active_pane: None,
            state: None,
            top_left_cell: None,
            x_split: None,
            y_split: None,
            split_horizontal: None,
            split_vertical: None,
            thin_horizontal: None,
            thin_vertical: None,
        }
    }

    /// Reads the attributes of a pane's start tag. Names it does not know
    /// are passed over, and so is a number or a boolean that is none. Fails
    /// at the first attribute that is malformed or whose value is no UTF-8.
    pub fn load(tag: &StartTag) -> (parsed: Result<Self, ParseError>)
        ensures
            outcome_view(parsed) == pane_from_tag(tag@),
    {
        let ghost entries = tag@.attributes;
        let ghost mut seen: Seq<TextAttributeView> = Seq::empty();
        let mut pane = Self::empty();
        let mut i: usize = 0;
        while i < tag.attributes.len()
            invariant
                0 <= i <= tag.attributes@.len(),
                entries == tag@.attributes,
                entries.len() == tag.attributes@.len(),
                decoded_attributes(Element::Pane, entries.take(i as int)) == Ok::<
                    Seq<TextAttributeView>,
                    ParseErrorView,
                >(seen),
                pane@ == pane_from_attributes(seen),
            decreases tag.attributes@.len() - i,
        {
            let ghost upto = entries.take(i + 1);
            assert(upto.drop_last() =~= entries.take(i as int));
            match decode_attribute(Element::Pane, &tag.attributes[i]) {
                Err(error) => {
                    proof {
                        lemma_first_error_stands(Element::Pane, entries, i + 1);
                    }
                    return Err(error);
                },
                Ok(attribute) => {
                    proof {
                        let ghost longer = seen.push(attribute@);
                        assert(longer.drop_last() =~= seen);
                        seen = longer;
                    }
                    match PaneAttribute::of_key(attribute.key) {
                        Some(PaneAttribute::ActivePane) => {
                            pane.active_pane = Some(attribute.text);
                        },
                        Some(PaneAttribute::State) => {
                            pane.state = Some(attribute.text);
                        },
                        Some(PaneAttribute::TopLeftCell) => {
                            pane.top_left_cell = Some(attribute.text);
                        },
                        Some(PaneAttribute::XSplit) => {
                            if is_float_text(attribute.text.as_str()) {
                                pane.x_split = Some(attribute.text);
                            }
                        },
                        Some(PaneAttribute::YSplit) => {
                            if is_float_text(attribute.text.as_str()) {
                                pane.y_split = Some(attribute.text);
                            }
                        },
                        Some(PaneAttribute::SplitHorizontal) => {
                            if let Some(pixels) = string_to_unsignedint(attribute.text.as_str()) {
                                pane.split_horizontal = Some(pixels);
                            }
                        },
                        Some(PaneAttribute::SplitVertical) => {
                            if let Some(pixels) = string_to_unsignedint(attribute.text.as_str()) {
                                pane.split_vertical = Some(pixels);
                            }
                        },
                        Some(PaneAttribute::ThinHorizontal) => {
                            if let Some(thin) = string_to_bool(attribute.text.as_str()) {
                                pane.thin_horizontal = Some(thin);
                            }
                        },
                        Some(PaneAttribute::ThinVertical) => {
                            if let Some(thin) = string_to_bool(attribute.text.as_str()) {
                                pane.thin_vertical = Some(thin);
                            }
                        },
                        None => {},
                    }
                },
            }
            i = i + 1;
        }
        assert(entries.take(i as int) =~= entries);
        Ok(pane)
    }
}

/// One view of a worksheet. Where the XML holds several, each stands for a
/// window on the same sheet.
///
/// ```xml
/// <sheetView tabSelected="1" workbookViewId="0">
///     <pane xSplit="2310" ySplit="2070" topLeftCell="C1" activePane="bottomRight"/>
///     <selection pane="bottomRight" activeCell="E13" sqref="E13"/>
/// </sheetView>
/// ```
#[derive(Debug, Clone, PartialEq)]
pub struct XlsxSheetView {
    /// pane (View Pane), a child element
    pub pane: Option<XlsxPane>,
}

/// The mathematical value of an [`XlsxSheetView`].
pub struct XlsxSheetViewView {
    pub pane: Option<XlsxPaneView>,
}

impl View for XlsxSheetView {
    type V = XlsxSheetViewView;

    open spec fn view(&self) -> XlsxSheetViewView {
        XlsxSheetViewView {
            pane: match self.pane {
                Some(pane) => Some(pane@),
                None => None,
            },
        }
    }
}

/// The views of a list of sheet views, in order.
pub open spec fn sheet_view_views(views: Seq<XlsxSheetView>) -> Seq<XlsxSheetViewView> {
    views.map_values(|view: XlsxSheetView| view@)
}

/// A subtree that is skipped to its end hands back fewer tokens than it was
/// given.
pub proof fn lemma_skip_subtree_consumes(tokens: Seq<XmlToken>, name: Seq<u8>, depth: nat)
    ensures
        skip_subtree(tokens, name, depth) matches Skipped::Closed { rest } ==> rest.len()
            < tokens.len(),
    decreases tokens.len(),
{
    if tokens.len() > 0 {
        let rest = tokens.skip(1);
        match tokens[0] {
            XmlToken::Start(tag) => {
                lemma_skip_subtree_consumes(
                    rest,
                    name,
                    if tag.name == name {
                        depth + 1
                    } else {
                        depth
                    },
                );
            },
            XmlToken::End { name: end } => {
                if end != name {
                    lemma_skip_subtree_consumes(rest, name, depth);
                } else if depth > 0 {
                    lemma_skip_subtree_consumes(rest, name, (depth - 1) as nat);
                }
            },
            XmlToken::Fault { .. } => {},
            XmlToken::Eof => {},
            _ => {
                lemma_skip_subtree_consumes(rest, name, depth);
            },
        }
    }
}

/// A pane element whose start tag `tag` was just read: the pane of its
/// attributes, with the rest of its subtree skipped.
pub open spec fn pane_element(tag: StartTagView, tokens: Seq<XmlToken>) -> Parsed<XlsxPaneView> {
    match pane_from_tag(tag) {
        Err(error) => failed(error),
        Ok(pane) => match skip_subtree(tokens, tag.name, 0) {
            Skipped::Closed { rest } => Parsed { outcome: Ok(pane), rest },
            Skipped::Fault { message } => failed(ParseErrorView::Malformed { message }),
            Skipped::Eof => failed(ParseErrorView::UnexpectedEof { element: Element::Pane }),
        },
    }
}

/// The child phase of a sheet view: `view` with the pane of the last pane
/// element that the tokens up to the view's end tag hold.
pub open spec fn sheet_view_children(tokens: Seq<XmlToken>, view: XlsxSheetViewView) -> Parsed<
    XlsxSheetViewView,
>
    decreases tokens.len(),
{
    if tokens.len() == 0 {
        failed(ParseErrorView::UnexpectedEof { element: Element::SheetView })
    } else {
        let rest = tokens.skip(1);
        match tokens[0] {
            XmlToken::Start(tag) if named(tag.name, Element::Pane) => {
                proof {
                    lemma_skip_subtree_consumes(rest, tag.name, 0);
                }
                match pane_element(tag, rest).outcome {
                    Ok(pane) => sheet_view_children(
                        pane_element(tag, rest).rest,
                        XlsxSheetViewView { pane: Some(pane) },
                    ),
                    Err(error) => failed(error),
                }
            },
            XmlToken::End { name } if named(name, Element::SheetView) => Parsed {
                outcome: Ok(view),
                rest,
            },
            XmlToken::Eof => failed(ParseErrorView::UnexpectedEof { element: Element::SheetView }),
            XmlToken::Fault { message } => failed(ParseErrorView::Malformed { message }),
            _ => sheet_view_children(rest, view),
        }
    }
}

/// A sheet view element whose start tag was just read.
pub open spec fn sheet_view_element(tokens: Seq<XmlToken>) -> Parsed<XlsxSheetViewView> {
    sheet_view_children(tokens, XlsxSheetViewView { pane: None })
}

/// A sheet view never hands back more tokens than it was given.
pub proof fn lemma_sheet_view_consumes(tokens: Seq<XmlToken>, view: XlsxSheetViewView)
    ensures
        sheet_view_children(tokens, view).rest.len() <= tokens.len(),
        sheet_view_children(tokens, view).outcome is Ok ==> sheet_view_children(
            tokens,
            view,
        ).rest.len() < tokens.len(),
    decreases tokens.len(),
{
    if tokens.len() > 0 {
        let rest = tokens.skip(1);
        match tokens[0] {
            XmlToken::Start(tag) => {
                if named(tag.name, Element::Pane) {
                    let pane = pane_element(tag, rest);
                    lemma_skip_subtree_consumes(rest, tag.name, 0);
                    if pane.outcome is Ok {
                        lemma_sheet_view_consumes(
                            pane.rest,
                            XlsxSheetViewView { pane: Some(pane.outcome->Ok_0) },
                        );
                    }
                } else {
                    lemma_sheet_view_consumes(rest, view);
                }
            },
            XmlToken::End { name } => {
                if !named(name, Element::SheetView) {
                    lemma_sheet_view_consumes(rest, view);
                }
            },
            XmlToken::Eof => {},
            XmlToken::Fault { .. } => {},
            _ => {
                lemma_sheet_view_consumes(rest, view);
            },
        }
    }
}

/// The child phase of the list of sheet views: `views` followed by the view
/// of every sheet view element that the tokens up to the list's end tag
/// hold, in document order.
pub open spec fn sheet_views_children(
    tokens: Seq<XmlToken>,
    views: Seq<XlsxSheetViewView>,
) -> Parsed<Seq<XlsxSheetViewView>>
    decreases tokens.len(),
{
    if tokens.len() == 0 {
        failed(ParseErrorView::UnexpectedEof { element: Element::SheetViews })
    } else {
        let rest = tokens.skip(1);
        match tokens[0] {
            XmlToken::Start(tag) if named(tag.name, Element::SheetView) => {
                proof {
                    lemma_sheet_view_consumes(rest, XlsxSheetViewView { pane: None });
                }
                match sheet_view_element(rest).outcome {
                    Ok(view) => sheet_views_children(
                        sheet_view_element(rest).rest,
                        views.push(view),
                    ),
                    Err(error) => failed(error),
                }
            },
            XmlToken::End { name } if named(name, Element::SheetViews) => Parsed {
                outcome: Ok(views),
                rest,
            },
            XmlToken::Eof => failed(ParseErrorView::UnexpectedEof { element: Element::SheetViews }),
            XmlToken::Fault { message } => failed(ParseErrorView::Malformed { message }),
            _ => sheet_views_children(rest, views),
        }
    }
}

/// The list of sheet views whose start tag was just read: its views in
/// document order.
pub open spec fn sheet_views_element(tokens: Seq<XmlToken>) -> Parsed<Seq<XlsxSheetViewView>> {
    sheet_views_children(tokens, Seq::empty())
}

/// The mathematical value of what reading a list of sheet views returns.
pub open spec fn views_outcome(parsed: Result<Vec<XlsxSheetView>, ParseError>) -> Result<
    Seq<XlsxSheetViewView>,
    ParseErrorView,
> {
    match parsed {
        Ok(views) => Ok(sheet_view_views(views@)),
        Err(error) => Err(error@),
    }
}

impl XlsxSheetView {
    /// Reads one sheet view element whose start tag was just read, up to and
    /// including its end tag. The start tag is taken and not read: a view
    /// has no attribute of its own here. Of several pane elements the last
    /// one stays.
    pub fn load(reader: &mut XmlReader, _tag: &StartTag) -> (parsed: Result<Self, ParseError>)
        ensures
            outcome_view(parsed) == sheet_view_element(old(reader)@).outcome,
            parsed is Ok ==> final(reader)@ == sheet_view_element(old(reader)@).rest,
    {
        let mut view = XlsxSheetView { pane: None };
        loop
            invariant
                sheet_view_children(reader@, view@) == sheet_view_element(old(reader)@),
            decreases reader@.len(),
        {
            let event = reader.next_event();
            match event {
                XmlEvent::Start(child) => {
                    if is_named(child.name.as_slice(), Element::Pane) {
                        proof {
                            lemma_skip_subtree_consumes(reader@, child@.name, 0);
                        }
                        let pane = match XlsxPane::load(&child) {
                            Ok(pane) => pane,
                            Err(error) => {
                                return Err(error);
                            },
                        };
                        match reader.skip_to_end(child.name.as_slice()) {
                            Ok(()) => {},
                            Err(SkipError::Fault(message)) => {
                                return Err(ParseError::Malformed { message });
                            },
                            Err(SkipError::Eof) => {
                                return Err(ParseError::UnexpectedEof { element: Element::Pane });
                            },
                        }
                        view.pane = Some(pane);
                    }
                },
                XmlEvent::End(name) => {
                    if is_named(name.as_slice(), Element::SheetView) {
                        return Ok(view);
                    }
                },
                XmlEvent::Eof => {
                    return Err(ParseError::UnexpectedEof { element: Element::SheetView });
                },
                XmlEvent::Fault(message) => {
                    return Err(ParseError::Malformed { message });
                },
                _ => {},
            }
        }
    }
}

/// Reads the list of sheet views whose start tag was just read, up to and
/// including its end tag. Either every view in it is read, or the whole
/// read fails.
pub fn load_sheet_views(reader: &mut XmlReader) -> (parsed: Result<Vec<XlsxSheetView>, ParseError>)
    ensures
        views_outcome(parsed) == sheet_views_element(old(reader)@).outcome,
        parsed is Ok ==> final(reader)@ == sheet_views_element(old(reader)@).rest,
{
    let mut views: Vec<XlsxSheetView> = Vec::new();
    assert(sheet_view_views(views@) =~= Seq::empty());
    loop
        invariant
            sheet_views_children(reader@, sheet_view_views(views@)) == sheet_views_element(
                old(reader)@,
            ),
        decreases reader@.len(),
    {
        let event = reader.next_event();
        match event {
            XmlEvent::Start(tag) => {
                if is_named(tag.name.as_slice(), Element::SheetView) {
                    proof {
                        lemma_sheet_view_consumes(reader@, XlsxSheetViewView { pane: None });
                    }
                    match XlsxSheetView::load(reader, &tag) {
                        Ok(view) => {
                            let ghost before = views@;
                            views.push(view);
                            assert(sheet_view_views(views@) =~= sheet_view_views(before).push(
                                view@,
                            ));
                        },
                        Err(error) => {
                            return Err(error);
                        },
                    }
                }
            },
            XmlEvent::End(name) => {
                if is_named(name.as_slice(), Element::SheetViews) {
                    return Ok(views);
                }
            },
            XmlEvent::Eof => {
                return Err(ParseError::UnexpectedEof { element: Element::SheetViews });
            },
            XmlEvent::Fault(message) => {
                return Err(ParseError::Malformed { message });
            },
            _ => {},
        }
    }
}

} // verus!
