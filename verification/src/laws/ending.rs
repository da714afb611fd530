//! How elements end: one that is closed at once is empty and no error, and
//! one whose end tag never comes is never read with success.

use crate::error::{Element, ParseErrorView};
use crate::laws::order::law_container_appends;
use crate::laws::remains::{
    lemma_absence_after_first, lemma_formula_body_keeps_absence, lemma_rule_children_keep_absence,
    lemma_sheet_view_keeps_absence, lemma_skip_subtree_keeps_absence, no_end_of,
};
use crate::raw::data_validation::{
    container_children, container_element, count_from_tag, formula_body,
    lemma_formula_body_consumes, lemma_rule_element_consumes, rule_children, rule_element,
    rule_from_tag, XlsxDataValidationView, XlsxDataValidationsView,
};
use crate::raw::sheet_view::{
    lemma_sheet_view_consumes, lemma_skip_subtree_consumes, pane_element, pane_from_tag,
    sheet_view_children, sheet_view_element, sheet_views_children, XlsxPaneView, XlsxSheetViewView,
};
use crate::token::{named, Parsed, StartTagView, XmlToken};
use vstd::prelude::*;

verus! {

/// A formula element that is closed at once holds the empty text: it is a
/// value, and no error.
pub proof fn law_empty_formula(tokens: Seq<XmlToken>, element: Element)
    requires
        tokens.len() > 0,
        tokens[0] is End,
        named(tokens[0]->End_name, element),
    ensures
        formula_body(tokens, element) == (Parsed::<Seq<char>> {
            outcome: Ok(Seq::empty()),
            rest: tokens.skip(1),
        }),
{
}

/// A rule whose first formula is closed at once holds the empty text for it,
/// and goes on with what follows.
pub proof fn law_empty_formula_in_rule(
    tokens: Seq<XmlToken>,
    rule: XlsxDataValidationView,
)
    requires
        tokens.len() >= 2,
        tokens[0] is Start,
        named(tokens[0]->Start_0.name, Element::Formula1),
        tokens[1] is End,
        named(tokens[1]->End_name, Element::Formula1),
    ensures
        rule_children(tokens, rule) == rule_children(
            tokens.skip(2),
            XlsxDataValidationView { formula1: Some(Seq::empty()), ..rule },
        ),
{
    let rest = tokens.skip(1);
    assert(rest.skip(1) =~= tokens.skip(2));
}

/// A formula whose input ends at once fails as unterminated, and the error
/// names it.
pub proof fn law_unterminated_formula(tokens: Seq<XmlToken>, element: Element)
    requires
        tokens.len() > 0,
        tokens[0] is Eof,
    ensures
        formula_body(tokens, element).outcome == Err::<Seq<char>, ParseErrorView>(
            ParseErrorView::UnexpectedEof { element },
        ),
{
}

/// A rule whose input ends right after its start tag fails as unterminated,
/// and the error names it.
pub proof fn law_unterminated_rule(tag: StartTagView, tokens: Seq<XmlToken>)
    requires
        rule_from_tag(tag) is Ok,
        tokens.len() > 0,
        tokens[0] is Eof,
    ensures
        rule_element(tag, tokens).outcome == Err::<XlsxDataValidationView, ParseErrorView>(
            ParseErrorView::UnexpectedEof { element: Element::DataValidation },
        ),
{
}

/// A container whose input ends right after its start tag fails as
/// unterminated, and the error names it.
pub proof fn law_unterminated_container(tag: StartTagView, tokens: Seq<XmlToken>)
    requires
        count_from_tag(tag) is Ok,
        tokens.len() > 0,
        tokens[0] is Eof,
    ensures
        container_element(tag, tokens).outcome == Err::<XlsxDataValidationsView, ParseErrorView>(
            ParseErrorView::UnexpectedEof { element: Element::DataValidations },
        ),
{
}

/// An unterminated rule fails: a rule is read with success only where its
/// end tag comes.
pub proof fn law_rule_needs_its_end_tag(tokens: Seq<XmlToken>, rule: XlsxDataValidationView)
    requires
        no_end_of(tokens, Element::DataValidation),
    ensures
        rule_children(tokens, rule).outcome is Err,
    decreases tokens.len(),
{
    if tokens.len() > 0 {
        let rest = tokens.skip(1);
        lemma_absence_after_first(tokens, Element::DataValidation);
        match tokens[0] {
            XmlToken::Start(tag) => {
                if named(tag.name, Element::Formula1) {
                    let body = formula_body(rest, Element::Formula1);
                    lemma_formula_body_consumes(rest, Element::Formula1);
                    lemma_formula_body_keeps_absence(
                        rest,
                        Element::Formula1,
                        Element::DataValidation,
                    );
                    if body.outcome is Ok {
                        law_rule_needs_its_end_tag(
                            body.rest,
                            XlsxDataValidationView { formula1: Some(body.outcome->Ok_0), ..rule },
                        );
                    }
                } else if named(tag.name, Element::Formula2) {
                    let body = formula_body(rest, Element::Formula2);
                    lemma_formula_body_consumes(rest, Element::Formula2);
                    lemma_formula_body_keeps_absence(
                        rest,
                        Element::Formula2,
                        Element::DataValidation,
                    );
                    if body.outcome is Ok {
                        law_rule_needs_its_end_tag(
                            body.rest,
                            XlsxDataValidationView { formula2: Some(body.outcome->Ok_0), ..rule },
                        );
                    }
                } else {
                    law_rule_needs_its_end_tag(rest, rule);
                }
            },
            XmlToken::End { name } => {
                law_rule_needs_its_end_tag(rest, rule);
            },
            XmlToken::Eof => {},
            XmlToken::Fault { .. } => {},
            _ => {
                law_rule_needs_its_end_tag(rest, rule);
            },
        }
    }
}

/// An unterminated container fails: a container is read with success only
/// where its end tag comes.
pub proof fn law_container_needs_its_end_tag(
    start: StartTagView,
    tokens: Seq<XmlToken>,
    rules: Seq<XlsxDataValidationView>,
)
    requires
        no_end_of(tokens, Element::DataValidations),
    ensures
        container_children(tokens, rules).outcome is Err,
        container_element(start, tokens).outcome is Err,
    decreases tokens.len(),
{
    if tokens.len() > 0 {
        let rest = tokens.skip(1);
        lemma_absence_after_first(tokens, Element::DataValidations);
        match tokens[0] {
            XmlToken::Start(tag) => {
                if named(tag.name, Element::DataValidation) {
                    let rule = rule_element(tag, rest);
                    lemma_rule_element_consumes(tag, rest);
                    if rule.outcome is Ok {
                        lemma_rule_children_keep_absence(
                            rest,
                            rule_from_tag(tag)->Ok_0,
                            Element::DataValidations,
                        );
                        law_container_needs_its_end_tag(
                            start,
                            rule.rest,
                            rules.push(rule.outcome->Ok_0),
                        );
                    }
                } else {
                    law_container_needs_its_end_tag(start, rest, rules);
                }
            },
            XmlToken::End { name } => {
                law_container_needs_its_end_tag(start, rest, rules);
            },
            XmlToken::Eof => {},
            XmlToken::Fault { .. } => {},
            _ => {
                law_container_needs_its_end_tag(start, rest, rules);
            },
        }
    }
    if rules != Seq::<XlsxDataValidationView>::empty() {
        law_container_appends(tokens, rules);
    }
}

/// A sheet view whose input ends right after its start tag fails as
/// unterminated, and the error names it.
pub proof fn law_unterminated_sheet_view(tokens: Seq<XmlToken>)
    requires
        tokens.len() > 0,
        tokens[0] is Eof,
    ensures
        sheet_view_element(tokens).outcome == Err::<XlsxSheetViewView, ParseErrorView>(
            ParseErrorView::UnexpectedEof { element: Element::SheetView },
        ),
{
}

/// A list of sheet views whose input ends right after its start tag fails as
/// unterminated, and the error names it.
pub proof fn law_unterminated_sheet_views(tokens: Seq<XmlToken>)
    requires
        tokens.len() > 0,
        tokens[0] is Eof,
    ensures
        sheet_views_children(tokens, Seq::empty()).outcome == Err::<
            Seq<XlsxSheetViewView>,
            ParseErrorView,
        >(ParseErrorView::UnexpectedEof { element: Element::SheetViews }),
{
}

/// A pane whose input ends right after its start tag fails as unterminated,
/// and the error names it.
pub proof fn law_unterminated_pane(tag: StartTagView, tokens: Seq<XmlToken>)
    requires
        pane_from_tag(tag) is Ok,
        tokens.len() > 0,
        tokens[0] is Eof,
    ensures
        pane_element(tag, tokens).outcome == Err::<XlsxPaneView, ParseErrorView>(
            ParseErrorView::UnexpectedEof { element: Element::Pane },
        ),
{
}

/// An unterminated sheet view fails: a sheet view is read with success only
/// where its end tag comes.
pub proof fn law_sheet_view_needs_its_end_tag(tokens: Seq<XmlToken>, view: XlsxSheetViewView)
    requires
        no_end_of(tokens, Element::SheetView),
    ensures
        sheet_view_children(tokens, view).outcome is Err,
    decreases tokens.len(),
{
    if tokens.len() > 0 {
        let rest = tokens.skip(1);
        lemma_absence_after_first(tokens, Element::SheetView);
        match tokens[0] {
            XmlToken::Start(tag) => {
                if named(tag.name, Element::Pane) {
                    let pane = pane_element(tag, rest);
                    lemma_skip_subtree_consumes(rest, tag.name, 0);
                    lemma_skip_subtree_keeps_absence(rest, tag.name, 0, Element::SheetView);
                    if pane.outcome is Ok {
                        law_sheet_view_needs_its_end_tag(
                            pane.rest,
                            XlsxSheetViewView { pane: Some(pane.outcome->Ok_0) },
                        );
                    }
                } else {
                    law_sheet_view_needs_its_end_tag(rest, view);
                }
            },
            XmlToken::End { name } => {
                law_sheet_view_needs_its_end_tag(rest, view);
            },
            XmlToken::Eof => {},
            XmlToken::Fault { .. } => {},
            _ => {
                law_sheet_view_needs_its_end_tag(rest, view);
            },
        }
    }
}

/// An unterminated list of sheet views fails: the list is read with success
/// only where its end tag comes.
pub proof fn law_sheet_views_need_their_end_tag(
    tokens: Seq<XmlToken>,
    views: Seq<XlsxSheetViewView>,
)
    requires
        no_end_of(tokens, Element::SheetViews),
    ensures
        sheet_views_children(tokens, views).outcome is Err,
    decreases tokens.len(),
{
    if tokens.len() > 0 {
        let rest = tokens.skip(1);
        lemma_absence_after_first(tokens, Element::SheetViews);
        match tokens[0] {
            XmlToken::Start(tag) => {
                if named(tag.name, Element::SheetView) {
                    let view = sheet_view_element(rest);
                    lemma_sheet_view_consumes(rest, XlsxSheetViewView { pane: None });
                    lemma_sheet_view_keeps_absence(
                        rest,
                        XlsxSheetViewView { pane: None },
                        Element::SheetViews,
                    );
                    if view.outcome is Ok {
                        law_sheet_views_need_their_end_tag(
                            view.rest,
                            views.push(view.outcome->Ok_0),
                        );
                    }
                } else {
                    law_sheet_views_need_their_end_tag(rest, views);
                }
            },
            XmlToken::End { name } => {
                law_sheet_views_need_their_end_tag(rest, views);
            },
            XmlToken::Eof => {},
            XmlToken::Fault { .. } => {},
            _ => {
                law_sheet_views_need_their_end_tag(rest, views);
            },
        }
    }
}

} // verus!
