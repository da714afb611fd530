//! Absence and presence are kept: what the XML does not give is no value in
//! the raw layer and the documented default in the processed layer, and
//! what it gives is what is read.

use crate::attributes::{
    decoded_attributes, decoded_entry, lemma_decoded_keeps_order, TextAttributeView,
};
use crate::error::Element;
use crate::laws::remains::{
    lemma_absence_after_first, lemma_formula_body_keeps_absence, no_start_of,
};
use crate::processed::data_validation::{processed, DataValidationView};
use crate::raw::data_validation::{
    container_element, count_from_tag, count_text, formula_body, lemma_formula_body_consumes,
    rule_attribute, rule_children, rule_element, rule_from_tag, rule_text, RuleAttribute,
    XlsxDataValidationView,
};
use crate::raw::sheet_view::{
    pane_attribute, pane_from_tag, pane_takes, pane_text, sheet_view_children, sheet_view_element,
    PaneAttribute, XlsxPaneView, XlsxSheetViewView,
};
use crate::text::{bool_of_text, unsigned_of_text};
use crate::token::{local_part, named, StartTagView, XmlToken};
use vstd::prelude::*;
use vstd::string::StringSliceAdditionalSpecFns;
use vstd::utf8::decode_utf8;

verus! {

impl XlsxDataValidationView {
    /// Whether the rule holds no value for the attribute `field`.
    pub open spec fn lacks(self, field: RuleAttribute) -> bool {
        match field {
            RuleAttribute::AllowBlank => self.allow_blank is None,
            RuleAttribute::Error => self.error_message is None,
            RuleAttribute::ErrorTitle => self.error_title is None,
            RuleAttribute::Operator => self.operator is None,
            RuleAttribute::Prompt => self.prompt is None,
            RuleAttribute::PromptTitle => self.prompt_title is None,
            RuleAttribute::ShowDropDown => self.show_drop_down is None,
            RuleAttribute::ShowErrorMessage => self.show_error_message is None,
            RuleAttribute::ShowInputMessage => self.show_input_message is None,
            RuleAttribute::Sqref => self.sqref is None,
            RuleAttribute::Type => self.kind is None,
        }
    }
}

/// Whether the attribute list of a tag holds an entry that stands for `field`.
pub open spec fn tag_gives(tag: StartTagView, field: RuleAttribute) -> bool {
    exists|i: int|
        0 <= i < tag.attributes.len() && (#[trigger] tag.attributes[i]) is Pair && rule_attribute(
            local_part(tag.attributes[i]->key),
        ) == Some(field)
}

/// An attribute that no entry of a decoded list stands for has no text.
pub proof fn lemma_rule_text_absent(attributes: Seq<TextAttributeView>, field: RuleAttribute)
    requires
        forall|i: int|
            0 <= i < attributes.len() ==> rule_attribute((#[trigger] attributes[i]).key) != Some(
                field,
            ),
    ensures
        rule_text(attributes, field) is None,
    decreases attributes.len(),
{
    if attributes.len() > 0 {
        let earlier = attributes.drop_last();
        assert forall|i: int| 0 <= i < earlier.len() implies rule_attribute(
            (#[trigger] earlier[i]).key,
        ) != Some(field) by {
            assert(earlier[i] == attributes[i]);
        }
        lemma_rule_text_absent(earlier, field);
    }
}

/// Absence is kept: an attribute that the start tag of a rule does not give
/// is no value in the rule.
pub proof fn law_absent_attribute_is_no_value(tag: StartTagView, field: RuleAttribute)
    requires
        rule_from_tag(tag) is Ok,
        !tag_gives(tag, field),
    ensures
        rule_from_tag(tag)->Ok_0.lacks(field),
{
    let entries = tag.attributes;
    let attributes = decoded_attributes(Element::DataValidation, entries)->Ok_0;
    lemma_decoded_keeps_order(Element::DataValidation, entries);
    assert forall|i: int| 0 <= i < attributes.len() implies rule_attribute(
        (#[trigger] attributes[i]).key,
    ) != Some(field) by {
        assert(attributes[i] == decoded_entry(entries[i]));
    }
    lemma_rule_text_absent(attributes, field);
}

/// The text of the last entry of a decoded list that stands for `field` is
/// the text that the list gives for `field`.
pub proof fn lemma_rule_text_present(
    attributes: Seq<TextAttributeView>,
    field: RuleAttribute,
    i: int,
)
    requires
        0 <= i < attributes.len(),
        rule_attribute(attributes[i].key) == Some(field),
        forall|j: int|
            i < j < attributes.len() ==> rule_attribute((#[trigger] attributes[j]).key) != Some(
                field,
            ),
    ensures
        rule_text(attributes, field) == Some(attributes[i].text),
    decreases attributes.len(),
{
    if i < attributes.len() - 1 {
        let earlier = attributes.drop_last();
        assert forall|j: int| i < j < earlier.len() implies rule_attribute(
            (#[trigger] earlier[j]).key,
        ) != Some(field) by {
            assert(earlier[j] == attributes[j]);
        }
        lemma_rule_text_present(earlier, field, i);
    }
}

/// Presence is kept: the rule is read from the last entry of its start tag
/// that stands for `field`, the value of that entry decoded. So the rule has
/// a value for `field`, unless `field` is a flag and the text is a boolean in
/// no accepted spelling.
pub proof fn law_present_attribute_is_read(tag: StartTagView, field: RuleAttribute, i: int)
    requires
        rule_from_tag(tag) is Ok,
        0 <= i < tag.attributes.len(),
        tag.attributes[i] is Pair,
        rule_attribute(local_part(tag.attributes[i]->key)) == Some(field),
        forall|j: int|
            i < j < tag.attributes.len() ==> !((#[trigger] tag.attributes[j]) is Pair
                && rule_attribute(local_part(tag.attributes[j]->key)) == Some(field)),
    ensures
        rule_text(decoded_attributes(Element::DataValidation, tag.attributes)->Ok_0, field)
            == Some(decode_utf8(tag.attributes[i]->value)),
        rule_from_tag(tag)->Ok_0.lacks(field) ==> bool_of_text(
            decode_utf8(tag.attributes[i]->value),
        ) is None,
{
    let entries = tag.attributes;
    let attributes = decoded_attributes(Element::DataValidation, entries)->Ok_0;
    lemma_decoded_keeps_order(Element::DataValidation, entries);
    assert forall|j: int| i < j < attributes.len() implies rule_attribute(
        (#[trigger] attributes[j]).key,
    ) != Some(field) by {
        assert(attributes[j] == decoded_entry(entries[j]));
    }
    lemma_rule_text_present(attributes, field, i);
}

/// The child phase leaves what the attributes gave as it is, and absence is
/// kept: a formula element that the tokens do not hold is no value in the
/// rule.
pub proof fn law_children_fill_formulas_only(tokens: Seq<XmlToken>, rule: XlsxDataValidationView)
    ensures
        rule_children(tokens, rule).outcome matches Ok(read) ==> {
            &&& read == XlsxDataValidationView {
                formula1: read.formula1,
                formula2: read.formula2,
                ..rule
            }
            &&& no_start_of(tokens, Element::Formula1) ==> read.formula1 == rule.formula1
            &&& no_start_of(tokens, Element::Formula2) ==> read.formula2 == rule.formula2
        },
    decreases tokens.len(),
{
    if tokens.len() > 0 {
        let rest = tokens.skip(1);
        lemma_absence_after_first(tokens, Element::Formula1);
        lemma_absence_after_first(tokens, Element::Formula2);
        match tokens[0] {
            XmlToken::Start(tag) => {
                if named(tag.name, Element::Formula1) {
                    let body = formula_body(rest, Element::Formula1);
                    lemma_formula_body_consumes(rest, Element::Formula1);
                    lemma_formula_body_keeps_absence(rest, Element::Formula1, Element::Formula2);
                    if body.outcome is Ok {
                        law_children_fill_formulas_only(
                            body.rest,
                            XlsxDataValidationView { formula1: Some(body.outcome->Ok_0), ..rule },
                        );
                    }
                } else if named(tag.name, Element::Formula2) {
                    let body = formula_body(rest, Element::Formula2);
                    lemma_formula_body_consumes(rest, Element::Formula2);
                    lemma_formula_body_keeps_absence(rest, Element::Formula2, Element::Formula1);
                    if body.outcome is Ok {
                        law_children_fill_formulas_only(
                            body.rest,
                            XlsxDataValidationView { formula2: Some(body.outcome->Ok_0), ..rule },
                        );
                    }
                } else {
                    law_children_fill_formulas_only(rest, rule);
                }
            },
            XmlToken::End { name } => {
                if !named(name, Element::DataValidation) {
                    law_children_fill_formulas_only(rest, rule);
                }
            },
            XmlToken::Eof => {},
            XmlToken::Fault { .. } => {},
            _ => {
                law_children_fill_formulas_only(rest, rule);
            },
        }
    }
}

/// Absence is kept for children: a rule element that holds no formula
/// element has no value for that formula.
pub proof fn law_absent_formula_is_no_value(tag: StartTagView, tokens: Seq<XmlToken>)
    ensures
        rule_element(tag, tokens).outcome matches Ok(read) ==> {
            &&& no_start_of(tokens, Element::Formula1) ==> read.formula1 is None
            &&& no_start_of(tokens, Element::Formula2) ==> read.formula2 is None
        },
{
    if rule_from_tag(tag) is Ok {
        law_children_fill_formulas_only(tokens, rule_from_tag(tag)->Ok_0);
    }
}

impl XlsxPaneView {
    /// Whether the pane holds no value for the attribute `field`.
    pub open spec fn lacks(self, field: PaneAttribute) -> bool {
        match field {
            PaneAttribute::ActivePane => self.active_pane is None,
            PaneAttribute::State => self.state is None,
            PaneAttribute::TopLeftCell => self.top_left_cell is None,
            PaneAttribute::XSplit => self.x_split is None,
            PaneAttribute::YSplit => self.y_split is None,
            PaneAttribute::SplitHorizontal => self.split_horizontal is None,
            PaneAttribute::SplitVertical => self.split_vertical is None,
            PaneAttribute::ThinHorizontal => self.thin_horizontal is None,
            PaneAttribute::ThinVertical => self.thin_vertical is None,
        }
    }
}

/// Whether the attribute list of a tag holds an entry that stands for `field`.
pub open spec fn pane_tag_gives(tag: StartTagView, field: PaneAttribute) -> bool {
    exists|i: int|
        0 <= i < tag.attributes.len() && (#[trigger] tag.attributes[i]) is Pair && pane_attribute(
            local_part(tag.attributes[i]->key),
        ) == Some(field)
}

/// An attribute that no entry of a decoded list stands for has no text.
pub proof fn lemma_pane_text_absent(attributes: Seq<TextAttributeView>, field: PaneAttribute)
    requires
        forall|i: int|
            0 <= i < attributes.len() ==> pane_attribute((#[trigger] attributes[i]).key) != Some(
                field,
            ),
    ensures
        pane_text(attributes, field) is None,
    decreases attributes.len(),
{
    if attributes.len() > 0 {
        let earlier = attributes.drop_last();
        assert forall|i: int| 0 <= i < earlier.len() implies pane_attribute(
            (#[trigger] earlier[i]).key,
        ) != Some(field) by {
            assert(earlier[i] == attributes[i]);
        }
        lemma_pane_text_absent(earlier, field);
    }
}

/// Absence is kept: an attribute that the start tag of a pane does not give
/// is no value in the pane.
pub proof fn law_absent_pane_attribute_is_no_value(tag: StartTagView, field: PaneAttribute)
    requires
        pane_from_tag(tag) is Ok,
        !pane_tag_gives(tag, field),
    ensures
        pane_from_tag(tag)->Ok_0.lacks(field),
{
    let entries = tag.attributes;
    let attributes = decoded_attributes(Element::Pane, entries)->Ok_0;
    lemma_decoded_keeps_order(Element::Pane, entries);
    assert forall|i: int| 0 <= i < attributes.len() implies pane_attribute(
        (#[trigger] attributes[i]).key,
    ) != Some(field) by {
        assert(attributes[i] == decoded_entry(entries[i]));
    }
    lemma_pane_text_absent(attributes, field);
}

/// A number or a flag of a pane is never text that does not write one: what
/// the pane holds for a split position writes a floating-point number.
pub proof fn law_pane_numbers_are_numbers(attributes: Seq<TextAttributeView>, field: PaneAttribute)
    ensures
        pane_text(attributes, field) matches Some(text) ==> pane_takes(field, text),
    decreases attributes.len(),
{
    if attributes.len() > 0 {
        law_pane_numbers_are_numbers(attributes.drop_last(), field);
    }
}

/// A sheet view that holds no pane element keeps the pane it had.
pub proof fn lemma_children_without_pane(tokens: Seq<XmlToken>, view: XlsxSheetViewView)
    requires
        no_start_of(tokens, Element::Pane),
    ensures
        sheet_view_children(tokens, view).outcome matches Ok(read) ==> read == view,
    decreases tokens.len(),
{
    if tokens.len() > 0 {
        lemma_absence_after_first(tokens, Element::Pane);
        lemma_children_without_pane(tokens.skip(1), view);
    }
}

/// Absence is kept for children: a sheet view element that holds no pane
/// element has no value for its pane.
pub proof fn law_absent_pane_is_no_value(tokens: Seq<XmlToken>)
    requires
        no_start_of(tokens, Element::Pane),
    ensures
        sheet_view_element(tokens).outcome matches Ok(read) ==> read.pane is None,
{
    lemma_children_without_pane(tokens, XlsxSheetViewView { pane: None });
}

impl DataValidationView {
    /// Whether the rule holds, for the attribute `field`, what stands for an
    /// attribute that the XML did not give: `false` for a flag, the empty
    /// text for the cell range, no value for the others.
    pub open spec fn is_default(self, field: RuleAttribute) -> bool {
        match field {
            RuleAttribute::AllowBlank => !self.allow_blank,
            RuleAttribute::Error => self.error_message is None,
            RuleAttribute::ErrorTitle => self.error_title is None,
            RuleAttribute::Operator => self.operator is None,
            RuleAttribute::Prompt => self.prompt is None,
            RuleAttribute::PromptTitle => self.prompt_title is None,
            RuleAttribute::ShowDropDown => !self.show_drop_down,
            RuleAttribute::ShowErrorMessage => !self.show_error_message,
            RuleAttribute::ShowInputMessage => !self.show_input_message,
            RuleAttribute::Sqref => self.sqref == Seq::<char>::empty(),
            RuleAttribute::Type => self.kind is None,
        }
    }
}

/// Defaults are applied: what the raw rule has no value for is, in the
/// processed rule, the documented default.
pub proof fn law_no_value_is_default(raw: XlsxDataValidationView, field: RuleAttribute)
    requires
        raw.lacks(field),
    ensures
        processed(raw).is_default(field),
{
}

/// Values are kept: what the raw rule has a value for is that value in the
/// processed rule, and the formulas are carried over as they are.
pub proof fn law_value_is_kept(raw: XlsxDataValidationView)
    ensures
        raw.allow_blank matches Some(b) ==> processed(raw).allow_blank == b,
        raw.show_drop_down matches Some(b) ==> processed(raw).show_drop_down == b,
        raw.show_error_message matches Some(b) ==> processed(raw).show_error_message == b,
        raw.show_input_message matches Some(b) ==> processed(raw).show_input_message == b,
        raw.sqref matches Some(t) ==> processed(raw).sqref == t,
        processed(raw).kind == raw.kind,
        processed(raw).error_message == raw.error_message,
        processed(raw).error_title == raw.error_title,
        processed(raw).operator == raw.operator,
        processed(raw).prompt == raw.prompt,
        processed(raw).prompt_title == raw.prompt_title,
        processed(raw).formula1 == raw.formula1,
        processed(raw).formula2 == raw.formula2,
{
}

/// From the XML through both layers: an attribute that the start tag of a
/// rule element does not give is no value in the rule that is read from the
/// element, whatever its children, and the documented default in the
/// processed rule.
pub proof fn law_absent_attribute_is_default(
    tag: StartTagView,
    tokens: Seq<XmlToken>,
    field: RuleAttribute,
)
    requires
        !tag_gives(tag, field),
    ensures
        rule_element(tag, tokens).outcome matches Ok(read) ==> read.lacks(field) && processed(
            read,
        ).is_default(field),
{
    if rule_from_tag(tag) is Ok {
        law_absent_attribute_is_no_value(tag, field);
        law_children_fill_formulas_only(tokens, rule_from_tag(tag)->Ok_0);
    }
}

/// Whether the attribute list of a tag holds an entry named `count`.
pub open spec fn tag_gives_count(tag: StartTagView) -> bool {
    exists|i: int|
        0 <= i < tag.attributes.len() && (#[trigger] tag.attributes[i]) is Pair && local_part(
            tag.attributes[i]->key,
        ) == "count".spec_bytes()
}

/// A decoded list that holds no entry named `count` gives no count.
pub proof fn lemma_count_text_absent(attributes: Seq<TextAttributeView>)
    requires
        forall|i: int|
            0 <= i < attributes.len() ==> (#[trigger] attributes[i]).key != "count".spec_bytes(),
    ensures
        count_text(attributes) is None,
    decreases attributes.len(),
{
    if attributes.len() > 0 {
        let earlier = attributes.drop_last();
        assert forall|i: int| 0 <= i < earlier.len() implies (#[trigger] earlier[i]).key
            != "count".spec_bytes() by {
            assert(earlier[i] == attributes[i]);
        }
        lemma_count_text_absent(earlier);
    }
}

/// The text of the last entry of a decoded list that is named `count` is
/// the text that the list gives for the count.
pub proof fn lemma_count_text_present(attributes: Seq<TextAttributeView>, i: int)
    requires
        0 <= i < attributes.len(),
        attributes[i].key == "count".spec_bytes(),
        forall|j: int|
            i < j < attributes.len() ==> (#[trigger] attributes[j]).key != "count".spec_bytes(),
    ensures
        count_text(attributes) == Some(attributes[i].text),
    decreases attributes.len(),
{
    if i < attributes.len() - 1 {
        let earlier = attributes.drop_last();
        assert forall|j: int| i < j < earlier.len() implies (#[trigger] earlier[j]).key
            != "count".spec_bytes() by {
            assert(earlier[j] == attributes[j]);
        }
        assert(earlier[i] == attributes[i]);
        lemma_count_text_present(earlier, i);
    }
}

/// Absence is kept: a container whose start tag gives no count has no value
/// for it, whatever its children.
pub proof fn law_absent_count_is_no_value(tag: StartTagView, tokens: Seq<XmlToken>)
    requires
        !tag_gives_count(tag),
    ensures
        count_from_tag(tag) matches Ok(count) ==> count is None,
        container_element(tag, tokens).outcome matches Ok(read) ==> read.count is None,
{
    if count_from_tag(tag) is Ok {
        let entries = tag.attributes;
        let attributes = decoded_attributes(Element::DataValidations, entries)->Ok_0;
        lemma_decoded_keeps_order(Element::DataValidations, entries);
        assert forall|i: int| 0 <= i < attributes.len() implies (#[trigger] attributes[i]).key
            != "count".spec_bytes() by {
            assert(attributes[i] == decoded_entry(entries[i]));
        }
        lemma_count_text_absent(attributes);
    }
}

/// Presence is kept: the count of a container is the number that the last
/// entry of its start tag named `count` writes, and no value where the text
/// of that entry writes no unsigned integer.
pub proof fn law_present_count_is_read(tag: StartTagView, tokens: Seq<XmlToken>, i: int)
    requires
        0 <= i < tag.attributes.len(),
        tag.attributes[i] is Pair,
        local_part(tag.attributes[i]->key) == "count".spec_bytes(),
        forall|j: int|
            i < j < tag.attributes.len() ==> !((#[trigger] tag.attributes[j]) is Pair
                && local_part(tag.attributes[j]->key) == "count".spec_bytes()),
    ensures
        count_from_tag(tag) matches Ok(count) ==> count == unsigned_of_text(
            decode_utf8(tag.attributes[i]->value),
        ),
        container_element(tag, tokens).outcome matches Ok(read) ==> read.count
            == unsigned_of_text(decode_utf8(tag.attributes[i]->value)),
{
    if count_from_tag(tag) is Ok {
        let entries = tag.attributes;
        let attributes = decoded_attributes(Element::DataValidations, entries)->Ok_0;
        lemma_decoded_keeps_order(Element::DataValidations, entries);
        assert(attributes[i] == decoded_entry(entries[i]));
        assert forall|j: int| i < j < attributes.len() implies (#[trigger] attributes[j]).key
            != "count".spec_bytes() by {
            assert(attributes[j] == decoded_entry(entries[j]));
        }
        lemma_count_text_present(attributes, i);
    }
}

} // verus!
