//! What is absent from a token stream stays absent from whatever a parser
//! leaves of it.

use crate::error::Element;
use crate::raw::data_validation::{
    formula_body, lemma_formula_body_consumes, rule_children, XlsxDataValidationView,
};
use crate::raw::sheet_view::{
    lemma_skip_subtree_consumes, pane_element, sheet_view_children, XlsxSheetViewView,
};
use crate::token::{named, skip_subtree, Skipped, XmlToken};
use vstd::prelude::*;

verus! {

/// Whether no token of `tokens` is a start tag of `element`.
pub open spec fn no_start_of(tokens: Seq<XmlToken>, element: Element) -> bool {
    forall|i: int|
        0 <= i < tokens.len() ==> !((#[trigger] tokens[i]) is Start && named(
            tokens[i]->Start_0.name,
            element,
        ))
}

/// Whether no token of `tokens` is an end tag of `element`.
pub open spec fn no_end_of(tokens: Seq<XmlToken>, element: Element) -> bool {
    forall|i: int|
        0 <= i < tokens.len() ==> !((#[trigger] tokens[i]) is End && named(
            tokens[i]->End_name,
            element,
        ))
}

/// What is absent from a token stream is absent from what is left of it
/// after its first token.
pub proof fn lemma_absence_after_first(tokens: Seq<XmlToken>, element: Element)
    requires
        tokens.len() > 0,
    ensures
        no_start_of(tokens, element) ==> no_start_of(tokens.skip(1), element),
        no_end_of(tokens, element) ==> no_end_of(tokens.skip(1), element),
{
    let rest = tokens.skip(1);
    if no_start_of(tokens, element) {
        assert forall|i: int| 0 <= i < rest.len() implies !((#[trigger] rest[i]) is Start
            && named(rest[i]->Start_0.name, element)) by {
            assert(rest[i] == tokens[i + 1]);
        }
    }
    if no_end_of(tokens, element) {
        assert forall|i: int| 0 <= i < rest.len() implies !((#[trigger] rest[i]) is End
            && named(rest[i]->End_name, element)) by {
            assert(rest[i] == tokens[i + 1]);
        }
    }
}

/// What is absent from the tokens given to a formula body is absent from
/// what it hands back.
pub proof fn lemma_formula_body_keeps_absence(
    tokens: Seq<XmlToken>,
    element: Element,
    absent: Element,
)
    ensures
        no_start_of(tokens, absent) ==> no_start_of(formula_body(tokens, element).rest, absent),
        no_end_of(tokens, absent) ==> no_end_of(formula_body(tokens, element).rest, absent),
    decreases tokens.len(),
{
    if tokens.len() > 0 {
        lemma_absence_after_first(tokens, absent);
        lemma_formula_body_keeps_absence(tokens.skip(1), element, absent);
    }
}

/// What is absent from the tokens given to the child phase of a rule is
/// absent from what it hands back.
pub proof fn lemma_rule_children_keep_absence(
    tokens: Seq<XmlToken>,
    rule: XlsxDataValidationView,
    absent: Element,
)
    ensures
        no_start_of(tokens, absent) ==> no_start_of(rule_children(tokens, rule).rest, absent),
        no_end_of(tokens, absent) ==> no_end_of(rule_children(tokens, rule).rest, absent),
    decreases tokens.len(),
{
    if tokens.len() > 0 {
        let rest = tokens.skip(1);
        lemma_absence_after_first(tokens, absent);
        match tokens[0] {
            XmlToken::Start(tag) => {
                if named(tag.name, Element::Formula1) {
                    let body = formula_body(rest, Element::Formula1);
                    lemma_formula_body_consumes(rest, Element::Formula1);
                    lemma_formula_body_keeps_absence(rest, Element::Formula1, absent);
                    if body.outcome is Ok {
                        lemma_rule_children_keep_absence(
                            body.rest,
                            XlsxDataValidationView { formula1: Some(body.outcome->Ok_0), ..rule },
                            absent,
                        );
                    }
                } else if named(tag.name, Element::Formula2) {
                    let body = formula_body(rest, Element::Formula2);
                    lemma_formula_body_consumes(rest, Element::Formula2);
                    lemma_formula_body_keeps_absence(rest, Element::Formula2, absent);
                    if body.outcome is Ok {
                        lemma_rule_children_keep_absence(
                            body.rest,
                            XlsxDataValidationView { formula2: Some(body.outcome->Ok_0), ..rule },
                            absent,
                        );
                    }
                } else {
                    lemma_rule_children_keep_absence(rest, rule, absent);
                }
            },
            XmlToken::End { name } => {
                if !named(name, Element::DataValidation) {
                    lemma_rule_children_keep_absence(rest, rule, absent);
                }
            },
            XmlToken::Eof => {},
            XmlToken::Fault { .. } => {},
            _ => {
                lemma_rule_children_keep_absence(rest, rule, absent);
            },
        }
    }
}

/// What is absent from the tokens of a subtree is absent from what is left
/// after the subtree is skipped.
pub proof fn lemma_skip_subtree_keeps_absence(
    tokens: Seq<XmlToken>,
    name: Seq<u8>,
    depth: nat,
    absent: Element,
)
    ensures
        skip_subtree(tokens, name, depth) matches Skipped::Closed { rest } ==> {
            &&& no_start_of(tokens, absent) ==> no_start_of(rest, absent)
            &&& no_end_of(tokens, absent) ==> no_end_of(rest, absent)
        },
    decreases tokens.len(),
{
    if tokens.len() > 0 {
        let rest = tokens.skip(1);
        lemma_absence_after_first(tokens, absent);
        match tokens[0] {
            XmlToken::Start(tag) => {
                lemma_skip_subtree_keeps_absence(
                    rest,
                    name,
                    if tag.name == name {
                        depth + 1
                    } else {
                        depth
                    },
                    absent,
                );
            },
            XmlToken::End { name: end } => {
                if end != name {
                    lemma_skip_subtree_keeps_absence(rest, name, depth, absent);
                } else if depth > 0 {
                    lemma_skip_subtree_keeps_absence(rest, name, (depth - 1) as nat, absent);
                }
            },
            XmlToken::Fault { .. } => {},
            XmlToken::Eof => {},
            _ => {
                lemma_skip_subtree_keeps_absence(rest, name, depth, absent);
            },
        }
    }
}

/// What is absent from the tokens given to a sheet view is absent from what
/// it hands back.
pub proof fn lemma_sheet_view_keeps_absence(
    tokens: Seq<XmlToken>,
    view: XlsxSheetViewView,
    absent: Element,
)
    ensures
        no_end_of(tokens, absent) ==> no_end_of(sheet_view_children(tokens, view).rest, absent),
    decreases tokens.len(),
{
    if tokens.len() > 0 {
        let rest = tokens.skip(1);
        lemma_absence_after_first(tokens, absent);
        match tokens[0] {
            XmlToken::Start(tag) => {
                if named(tag.name, Element::Pane) {
                    let pane = pane_element(tag, rest);
                    lemma_skip_subtree_consumes(rest, tag.name, 0);
                    lemma_skip_subtree_keeps_absence(rest, tag.name, 0, absent);
                    if pane.outcome is Ok {
                        lemma_sheet_view_keeps_absence(
                            pane.rest,
                            XlsxSheetViewView { pane: Some(pane.outcome->Ok_0) },
                            absent,
                        );
                    }
                } else {
                    lemma_sheet_view_keeps_absence(rest, view, absent);
                }
            },
            XmlToken::End { name } => {
                if !named(name, Element::SheetView) {
                    lemma_sheet_view_keeps_absence(rest, view, absent);
                }
            },
            XmlToken::Eof => {},
            XmlToken::Fault { .. } => {},
            _ => {
                lemma_sheet_view_keeps_absence(rest, view, absent);
            },
        }
    }
}

} // verus!
