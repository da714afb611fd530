//! When success is owed: a start tag whose attributes are well formed and
//! hold UTF-8 is read, and so is a rule whose children are well formed up
//! to its end tag.

use crate::attributes::{decoded_attributes, entry_error, lemma_decoded_keeps_order};
use crate::error::Element;
use crate::laws::optionality::{law_absent_attribute_is_no_value, tag_gives};
use crate::processed::data_validation::processed;
use crate::raw::data_validation::{
    count_from_tag, formula_body, rule_children, rule_element, rule_from_tag, RuleAttribute,
    XlsxDataValidationView,
};
use crate::raw::sheet_view::pane_from_tag;
use crate::token::{named, AttributeView, StartTagView, XmlToken};
use vstd::prelude::*;
use vstd::utf8::valid_utf8;

verus! {

/// Whether every entry of an attribute list is well formed and holds UTF-8.
pub open spec fn all_decodable(entries: Seq<AttributeView>) -> bool {
    forall|i: int|
        0 <= i < entries.len() ==> (#[trigger] entries[i]) is Pair && valid_utf8(
            entries[i]->value,
        )
}

/// The attribute phase succeeds exactly on the attribute lists whose every
/// entry is well formed and holds UTF-8, whatever the element.
pub proof fn law_attribute_phase_succeeds(element: Element, entries: Seq<AttributeView>)
    ensures
        decoded_attributes(element, entries) is Ok <==> all_decodable(entries),
    decreases entries.len(),
{
    if entries.len() > 0 {
        let earlier = entries.drop_last();
        law_attribute_phase_succeeds(element, earlier);
        if all_decodable(entries) {
            assert forall|i: int| 0 <= i < earlier.len() implies (#[trigger] earlier[i]) is Pair
                && valid_utf8(earlier[i]->value) by {
                assert(earlier[i] == entries[i]);
            }
            assert(entry_error(element, entries.last()) is None);
        }
        if decoded_attributes(element, entries) is Ok {
            lemma_decoded_keeps_order(element, entries);
            assert forall|i: int| 0 <= i < entries.len() implies (#[trigger] entries[i]) is Pair
                && valid_utf8(entries[i]->value) by {
                assert(entry_error(element, entries[i]) is None);
            }
        }
    }
}

/// The start tag of a rule, of a pane and of a container is read exactly
/// where its every attribute is well formed and holds UTF-8.
pub proof fn law_start_tag_is_read(tag: StartTagView)
    ensures
        rule_from_tag(tag) is Ok <==> all_decodable(tag.attributes),
        pane_from_tag(tag) is Ok <==> all_decodable(tag.attributes),
        count_from_tag(tag) is Ok <==> all_decodable(tag.attributes),
{
    law_attribute_phase_succeeds(Element::DataValidation, tag.attributes);
    law_attribute_phase_succeeds(Element::Pane, tag.attributes);
    law_attribute_phase_succeeds(Element::DataValidations, tag.attributes);
}

/// Whether `token` is a start tag of `element`.
pub open spec fn starts(token: XmlToken, element: Element) -> bool {
    token is Start && named(token->Start_0.name, element)
}

/// Whether `token` ends the capture of the text of `element` with success:
/// it is text that holds UTF-8, or the end tag of `element`.
pub open spec fn closes_formula(token: XmlToken, element: Element) -> bool {
    ||| token is Text && valid_utf8(token->Text_content)
    ||| token is End && named(token->End_name, element)
}

/// Whether the child phase of a rule gets past the token at index `i` on its
/// way to the end tag at index `end`: the token is no end of input, no
/// fault and no end tag of a rule, and where it starts a formula, the next
/// token, still before `end`, is the formula's text or its end tag.
pub open spec fn passes(tokens: Seq<XmlToken>, i: int, end: int) -> bool {
    let token = tokens[i];
    &&& !(token is Eof)
    &&& !(token is Fault)
    &&& !(token is End && named(token->End_name, Element::DataValidation))
    &&& starts(token, Element::Formula1) ==> i + 1 < end && closes_formula(
        tokens[i + 1],
        Element::Formula1,
    )
    &&& !starts(token, Element::Formula1) && starts(token, Element::Formula2) ==> i + 1 < end
        && closes_formula(tokens[i + 1], Element::Formula2)
}

/// Whether the children of a rule are well formed up to the rule's end tag
/// at index `end` of `tokens`.
pub open spec fn rule_ends_at(tokens: Seq<XmlToken>, end: int) -> bool {
    &&& 0 <= end < tokens.len()
    &&& tokens[end] is End
    &&& named(tokens[end]->End_name, Element::DataValidation)
    &&& forall|i: int| 0 <= i < end ==> #[trigger] passes(tokens, i, end)
}

/// Whether no token of `tokens` before index `end` is a start tag of `element`.
pub open spec fn no_start_before(tokens: Seq<XmlToken>, end: int, element: Element) -> bool {
    forall|i: int| 0 <= i < end ==> !starts(#[trigger] tokens[i], element)
}

/// What holds of a rule's children from index 0 holds of what is left of
/// them after their first `k` tokens.
pub proof fn lemma_rule_ends_later(tokens: Seq<XmlToken>, end: int, k: int)
    requires
        rule_ends_at(tokens, end),
        0 <= k <= end,
    ensures
        rule_ends_at(tokens.skip(k), end - k),
        forall|element: Element|
            no_start_before(tokens, end, element) ==> #[trigger] no_start_before(
                tokens.skip(k),
                end - k,
                element,
            ),
{
    let later = tokens.skip(k);
    assert forall|i: int| 0 <= i < end - k implies #[trigger] passes(later, i, end - k) by {
        assert(passes(tokens, i + k, end));
        assert(later[i] == tokens[i + k]);
        assert(later[i + 1] == tokens[i + k + 1]);
    }
    assert forall|element: Element| no_start_before(tokens, end, element) implies #[trigger]
        no_start_before(later, end - k, element) by {
        assert forall|i: int| 0 <= i < end - k implies !starts(#[trigger] later[i], element) by {
            assert(later[i] == tokens[i + k]);
        }
    }
}

/// Success is owed to the child phase: where the children of a rule are
/// well formed up to its end tag, the rule is read, the cursor is left
/// right after the end tag, what the attributes gave is as it was, and a
/// formula that no child before the end tag starts is as it was.
pub proof fn law_children_are_read(tokens: Seq<XmlToken>, end: int, rule: XlsxDataValidationView)
    requires
        rule_ends_at(tokens, end),
    ensures
        rule_children(tokens, rule).outcome is Ok,
        rule_children(tokens, rule).rest == tokens.skip(end + 1),
        ({
            let read = rule_children(tokens, rule).outcome->Ok_0;
            &&& read == XlsxDataValidationView {
                formula1: read.formula1,
                formula2: read.formula2,
                ..rule
            }
            &&& no_start_before(tokens, end, Element::Formula1) ==> read.formula1 == rule.formula1
            &&& no_start_before(tokens, end, Element::Formula2) ==> read.formula2 == rule.formula2
        }),
    decreases end,
{
    if end > 0 {
        let first = tokens[0];
        assert(passes(tokens, 0, end));
        if starts(first, Element::Formula1) || starts(first, Element::Formula2) {
            let element = if starts(first, Element::Formula1) {
                Element::Formula1
            } else {
                Element::Formula2
            };
            let body = formula_body(tokens.skip(1), element);
            assert(tokens.skip(1)[0] == tokens[1]);
            assert(tokens.skip(1).skip(1) =~= tokens.skip(2));
            assert(body.outcome is Ok && body.rest == tokens.skip(2));
            let text = body.outcome->Ok_0;
            let next = if element == Element::Formula1 {
                XlsxDataValidationView { formula1: Some(text), ..rule }
            } else {
                XlsxDataValidationView { formula2: Some(text), ..rule }
            };
            lemma_rule_ends_later(tokens, end, 2);
            law_children_are_read(tokens.skip(2), end - 2, next);
            assert(tokens.skip(2).skip(end - 2 + 1) =~= tokens.skip(end + 1));
            assert(rule_children(tokens, rule) == rule_children(tokens.skip(2), next));
        } else {
            lemma_rule_ends_later(tokens, end, 1);
            law_children_are_read(tokens.skip(1), end - 1, rule);
            assert(tokens.skip(1).skip(end - 1 + 1) =~= tokens.skip(end + 1));
            assert(rule_children(tokens, rule) == rule_children(tokens.skip(1), rule));
        }
    }
}

/// Success is owed to a rule element, and absence is kept through it: where
/// every attribute of its start tag is well formed and holds UTF-8, and its
/// children are well formed up to its end tag, the rule is read and the
/// cursor is left right after the end tag. An attribute that the start tag
/// does not give is no value in the rule and the documented default in the
/// processed rule, and a formula that no child before the end tag starts is
/// no value.
pub proof fn law_rule_element_is_read(tag: StartTagView, tokens: Seq<XmlToken>, end: int)
    requires
        all_decodable(tag.attributes),
        rule_ends_at(tokens, end),
    ensures
        rule_element(tag, tokens).outcome is Ok,
        rule_element(tag, tokens).rest == tokens.skip(end + 1),
        ({
            let read = rule_element(tag, tokens).outcome->Ok_0;
            &&& forall|field: RuleAttribute|
                !tag_gives(tag, field) ==> #[trigger] read.lacks(field) && processed(
                    read,
                ).is_default(field)
            &&& no_start_before(tokens, end, Element::Formula1) ==> read.formula1 is None
            &&& no_start_before(tokens, end, Element::Formula2) ==> read.formula2 is None
        }),
{
    law_start_tag_is_read(tag);
    let rule = rule_from_tag(tag)->Ok_0;
    law_children_are_read(tokens, end, rule);
    let read = rule_element(tag, tokens).outcome->Ok_0;
    assert forall|field: RuleAttribute| !tag_gives(tag, field) implies #[trigger] read.lacks(
        field,
    ) && processed(read).is_default(field) by {
        law_absent_attribute_is_no_value(tag, field);
    }
}

} // verus!
