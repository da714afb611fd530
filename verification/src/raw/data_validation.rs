//! The data validation rules of a worksheet, as the XML holds them.

use crate::attributes::{
    decode_attribute, decoded_attributes, lemma_first_error_stands, TextAttributeView,
};
use crate::cursor::{is_named, XmlReader};
use crate::error::{outcome_view, Element, ParseError, ParseErrorView};
use crate::text::{
    bool_of_text, bytes_eq, decode_text, string_to_bool, string_to_unsignedint, text_view,
    unsigned_of_text,
};
use crate::token::{failed, named, Parsed, StartTag, StartTagView, XmlEvent, XmlToken};
use vstd::prelude::*;
use vstd::string::StringSliceAdditionalSpecFns;
use vstd::utf8::{decode_utf8, valid_utf8};

verus! {

/// One data validation rule, applied to a range of cells.
///
/// ```xml
/// <dataValidation type="list" allowBlank="1" showErrorMessage="1" sqref="A1:A10">
///     <formula1>"Option1,Option2,Option3"</formula1>
/// </dataValidation>
/// ```
#[derive(Debug, Clone, PartialEq)]
pub struct XlsxDataValidation {
    /// formula1 (Formula 1), a child element
    pub formula1: Option<String>,
    /// formula2 (Formula 2), a child element
    pub formula2: Option<String>,
    /// allowBlank (Allow Blank)
    pub allow_blank: Option<bool>,
    /// error (Error Message)
    pub error_message: Option<String>,
    /// errorTitle (Error Title)
    pub error_title: Option<String>,
    /// operator (Operator)
    pub operator: Option<String>,
    /// prompt (Input Message)
    pub prompt: Option<String>,
    /// promptTitle (Input Message Title)
    pub prompt_title: Option<String>,
    /// showDropDown (Show Drop Down List)
    pub show_drop_down: Option<bool>,
    /// showErrorMessage (Show Error Message)
    pub show_error_message: Option<bool>,
    /// showInputMessage (Show Input Message)
    pub show_input_message: Option<bool>,
    /// sqref (Sequence of References), kept as written
    pub sqref: Option<String>,
    /// type (Data Validation Type)
    pub kind: Option<String>,
}

/// The mathematical value of an [`XlsxDataValidation`].
pub struct XlsxDataValidationView {
    pub formula1: Option<Seq<char>>,
    pub formula2: Option<Seq<char>>,
    pub allow_blank: Option<bool>,
    pub error_message: Option<Seq<char>>,
    pub error_title: Option<Seq<char>>,
    pub operator: Option<Seq<char>>,
    pub prompt: Option<Seq<char>>,
    pub prompt_title: Option<Seq<char>>,
    pub show_drop_down: Option<bool>,
    pub show_error_message: Option<bool>,
    pub show_input_message: Option<bool>,
    pub sqref: Option<Seq<char>>,
    pub kind: Option<Seq<char>>,
}

impl View for XlsxDataValidation {
    type V = XlsxDataValidationView;

    open spec fn view(&self) -> XlsxDataValidationView {
        XlsxDataValidationView {
            formula1: text_view(self.formula1),
            formula2: text_view(self.formula2),
            allow_blank: self.allow_blank,
            error_message: text_view(self.error_message),
            error_title: text_view(self.error_title),
            operator: text_view(self.operator),
            prompt: text_view(self.prompt),
            prompt_title: text_view(self.prompt_title),
            show_drop_down: self.show_drop_down,
            show_error_message: self.show_error_message,
            show_input_message: self.show_input_message,
            sqref: text_view(self.sqref),
            kind: text_view(self.kind),
        }
    }
}

/// An attribute that a data validation rule reads.
#[derive(Clone, Copy, Debug, PartialEq, Eq, Structural)]
pub enum RuleAttribute {
    AllowBlank,
    Error,
    ErrorTitle,
    Operator,
    Prompt,
    PromptTitle,
    ShowDropDown,
    ShowErrorMessage,
    ShowInputMessage,
    Sqref,
    Type,
}

/// The attribute of a rule that a local attribute name stands for, if any.
pub open spec fn rule_attribute(key: Seq<u8>) -> Option<RuleAttribute> {
    if key == "allowBlank".spec_bytes() {
        Some(RuleAttribute::AllowBlank)
    } else if key == "error".spec_bytes() {
        Some(RuleAttribute::Error)
    } else if key == "errorTitle".spec_bytes() {
        Some(RuleAttribute::ErrorTitle)
    } else if key == "operator".spec_bytes() {
        Some(RuleAttribute::Operator)
    } else if key == "prompt".spec_bytes() {
        Some(RuleAttribute::Prompt)
    } else if key == "promptTitle".spec_bytes() {
        Some(RuleAttribute::PromptTitle)
    } else if key == "showDropDown".spec_bytes() {
        Some(RuleAttribute::ShowDropDown)
    } else if key == "showErrorMessage".spec_bytes() {
        Some(RuleAttribute::ShowErrorMessage)
    } else if key == "showInputMessage".spec_bytes() {
        Some(RuleAttribute::ShowInputMessage)
    } else if key == "sqref".spec_bytes() {
        Some(RuleAttribute::Sqref)
    } else if key == "type".spec_bytes() {
        Some(RuleAttribute::Type)
    } else {
        None
    }
}

/// The text of the last attribute in `attributes` that stands for `field`.
pub open spec fn rule_text(attributes: Seq<TextAttributeView>, field: RuleAttribute) -> Option<
    Seq<char>,
>
    decreases attributes.len(),
{
    if attributes.len() == 0 {
        None
    } else if rule_attribute(attributes.last().key) == Some(field) {
        Some(attributes.last().text)
    } else {
        rule_text(attributes.drop_last(), field)
    }
}

/// The boolean of the last attribute in `attributes` that stands for `field`.
pub open spec fn rule_flag(attributes: Seq<TextAttributeView>, field: RuleAttribute) -> Option<
    bool,
> {
    match rule_text(attributes, field) {
        Some(text) => bool_of_text(text),
        None => None,
    }
}

/// The rule that a decoded attribute list describes, before any child is read.
pub open spec fn rule_from_attributes(
    attributes: Seq<TextAttributeView>,
) -> XlsxDataValidationView {
    XlsxDataValidationView {
        formula1: None,
        formula2: None,
        allow_blank: rule_flag(attributes, RuleAttribute::AllowBlank),
        error_message: rule_text(attributes, RuleAttribute::Error),
        error_title: rule_text(attributes, RuleAttribute::ErrorTitle),
        operator: rule_text(attributes, RuleAttribute::Operator),
        prompt: rule_text(attributes, RuleAttribute::Prompt),
        prompt_title: rule_text(attributes, RuleAttribute::PromptTitle),
        show_drop_down: rule_flag(attributes, RuleAttribute::ShowDropDown),
        show_error_message: rule_flag(attributes, RuleAttribute::ShowErrorMessage),
        show_input_message: rule_flag(attributes, RuleAttribute::ShowInputMessage),
        sqref: rule_text(attributes, RuleAttribute::Sqref),
        kind: rule_text(attributes, RuleAttribute::Type),
    }
}

/// The rule that a start tag describes: its attribute phase.
pub open spec fn rule_from_tag(tag: StartTagView) -> Result<
    XlsxDataValidationView,
    ParseErrorView,
> {
    match decoded_attributes(Element::DataValidation, tag.attributes) {
        Ok(attributes) => Ok(rule_from_attributes(attributes)),
        Err(error) => Err(error),
    }
}

/// The text of a formula element whose start tag was just read: the first
/// text token, decoded, or the empty text where the element's end tag
/// comes first. All else is passed over.
pub open spec fn formula_body(tokens: Seq<XmlToken>, element: Element) -> Parsed<Seq<char>>
    decreases tokens.len(),
{
    if tokens.len() == 0 {
        failed(ParseErrorView::UnexpectedEof { element })
    } else {
        let rest = tokens.skip(1);
        match tokens[0] {
            XmlToken::Text { content } if valid_utf8(content) => Parsed {
                outcome: Ok(decode_utf8(content)),
                rest,
            },
            XmlToken::Text { .. } => failed(
                ParseErrorView::InvalidUtf8 { element, attribute: None },
            ),
            XmlToken::End { name } if named(name, element) => Parsed {
                outcome: Ok(Seq::empty()),
                rest,
            },
            XmlToken::Eof => failed(ParseErrorView::UnexpectedEof { element }),
            XmlToken::Fault { message } => failed(ParseErrorView::Malformed { message }),
            _ => formula_body(rest, element),
        }
    }
}

/// A formula body never hands back more tokens than it was given.
pub proof fn lemma_formula_body_consumes(tokens: Seq<XmlToken>, element: Element)
    ensures
        formula_body(tokens, element).rest.len() <= tokens.len(),
        formula_body(tokens, element).outcome is Ok ==> formula_body(tokens, element).rest.len()
            < tokens.len(),
    decreases tokens.len(),
{
    if tokens.len() > 0 {
        lemma_formula_body_consumes(tokens.skip(1), element);
    }
}

/// The child phase of a rule: `rule` with the formulas that the tokens up to
/// the rule's end tag hold.
pub open spec fn rule_children(tokens: Seq<XmlToken>, rule: XlsxDataValidationView) -> Parsed<
    XlsxDataValidationView,
>
    decreases tokens.len(),
{
    if tokens.len() == 0 {
        failed(ParseErrorView::UnexpectedEof { element: Element::DataValidation })
    } else {
        let rest = tokens.skip(1);
        match tokens[0] {
            XmlToken::Start(tag) if named(tag.name, Element::Formula1) => {
                proof {
                    lemma_formula_body_consumes(rest, Element::Formula1);
                }
                match formula_body(rest, Element::Formula1).outcome {
                    Ok(text) => rule_children(
                        formula_body(rest, Element::Formula1).rest,
                        XlsxDataValidationView { formula1: Some(text), ..rule },
                    ),
                    Err(error) => failed(error),
                }
            },
            XmlToken::Start(tag) if named(tag.name, Element::Formula2) => {
                proof {
                    lemma_formula_body_consumes(rest, Element::Formula2);
                }
                match formula_body(rest, Element::Formula2).outcome {
                    Ok(text) => rule_children(
                        formula_body(rest, Element::Formula2).rest,
                        XlsxDataValidationView { formula2: Some(text), ..rule },
                    ),
                    Err(error) => failed(error),
                }
            },
            XmlToken::End { name } if named(name, Element::DataValidation) => Parsed {
                outcome: Ok(rule),
                rest,
            },
            XmlToken::Eof => failed(
                ParseErrorView::UnexpectedEof { element: Element::DataValidation },
            ),
            XmlToken::Fault { message } => failed(ParseErrorView::Malformed { message }),
            _ => rule_children(rest, rule),
        }
    }
}

/// A rule element whose start tag `tag` was just read: its attribute phase,
/// then its child phase on `tokens`.
pub open spec fn rule_element(tag: StartTagView, tokens: Seq<XmlToken>) -> Parsed<
    XlsxDataValidationView,
> {
    match rule_from_tag(tag) {
        Ok(rule) => rule_children(tokens, rule),
        Err(error) => failed(error),
    }
}

impl RuleAttribute {
    /// The attribute of a rule that the local attribute name `key` stands for.
    pub fn of_key(key: &[u8]) -> (field: Option<RuleAttribute>)
        ensures
            field == rule_attribute(key@),
    {
        if bytes_eq(key, "allowBlank".as_bytes()) {
            Some(RuleAttribute::AllowBlank)
        } else if bytes_eq(key, "error".as_bytes()) {
            Some(RuleAttribute::Error)
        } else if bytes_eq(key, "errorTitle".as_bytes()) {
            Some(RuleAttribute::ErrorTitle)
        } else if bytes_eq(key, "operator".as_bytes()) {
            Some(RuleAttribute::Operator)
        } else if bytes_eq(key, "prompt".as_bytes()) {
            Some(RuleAttribute::Prompt)
        } else if bytes_eq(key, "promptTitle".as_bytes()) {
            Some(RuleAttribute::PromptTitle)
        } else if bytes_eq(key, "showDropDown".as_bytes()) {
            Some(RuleAttribute::ShowDropDown)
        } else if bytes_eq(key, "showErrorMessage".as_bytes()) {
            Some(RuleAttribute::ShowErrorMessage)
        } else if bytes_eq(key, "showInputMessage".as_bytes()) {
            Some(RuleAttribute::ShowInputMessage)
        } else if bytes_eq(key, "sqref".as_bytes()) {
            Some(RuleAttribute::Sqref)
        } else if bytes_eq(key, "type".as_bytes()) {
            Some(RuleAttribute::Type)
        } else {
            None
        }
    }
}

impl XlsxDataValidation {
    /// A rule with no attribute and no child.
    pub fn empty() -> (rule: Self)
        ensures
            rule@ == rule_from_attributes(Seq::empty()),
    {
        XlsxDataValidation {
            formula1: None,
            formula2: None,
            allow_blank: None,
            error_message: None,
            error_title: None,
            operator: None,
            prompt: None,
            prompt_title: None,
            show_drop_down: None,
            show_error_message: None,
            show_input_message: None,
            sqref: None,
            kind: None,
        }
    }

    /// The attribute phase: reads the attributes of the rule's start tag.
    /// Names it does not know are passed over; a boolean that is in no
    /// accepted spelling is no value. Fails at the first attribute that is
    /// malformed or whose value is no UTF-8.
    pub fn from_tag(tag: &StartTag) -> (parsed: Result<Self, ParseError>)
        ensures
            outcome_view(parsed) == rule_from_tag(tag@),
    {
        let ghost entries = tag@.attributes;
        let ghost mut seen: Seq<TextAttributeView> = Seq::empty();
        let mut rule = Self::empty();
        let mut i: usize = 0;
        while i < tag.attributes.len()
            invariant
                0 <= i <= tag.attributes@.len(),
                entries == tag@.attributes,
                entries.len() == tag.attributes@.len(),
                decoded_attributes(Element::DataValidation, entries.take(i as int)) == Ok::<
                    Seq<TextAttributeView>,
                    ParseErrorView,
                >(seen),
                rule@ == rule_from_attributes(seen),
            decreases tag.attributes@.len() - i,
        {
            let ghost upto = entries.take(i + 1);
            assert(upto.drop_last() =~= entries.take(i as int));
            match decode_attribute(Element::DataValidation, &tag.attributes[i]) {
                Err(error) => {
                    proof {
                        lemma_first_error_stands(Element::DataValidation, entries, i + 1);
                    }
                    return Err(error);
                },
                Ok(attribute) => {
                    proof {
                        let ghost longer = seen.push(attribute@);
                        assert(longer.drop_last() =~= seen);
                        seen = longer;
                    }
                    match RuleAttribute::of_key(attribute.key) {
                        Some(RuleAttribute::AllowBlank) => {
                            rule.allow_blank = string_to_bool(attribute.text.as_str());
                        },
                        Some(RuleAttribute::Error) => {
                            rule.error_message = Some(attribute.text);
                        },
                        Some(RuleAttribute::ErrorTitle) => {
                            rule.error_title = Some(attribute.text);
                        },
                        Some(RuleAttribute::Operator) => {
                            rule.operator = Some(attribute.text);
                        },
                        Some(RuleAttribute::Prompt) => {
                            rule.prompt = Some(attribute.text);
                        },
                        Some(RuleAttribute::PromptTitle) => {
                            rule.prompt_title = Some(attribute.text);
                        },
                        Some(RuleAttribute::ShowDropDown) => {
                            rule.show_drop_down = string_to_bool(attribute.text.as_str());
                        },
                        Some(RuleAttribute::ShowErrorMessage) => {
                            rule.show_error_message = string_to_bool(attribute.text.as_str());
                        },
                        Some(RuleAttribute::ShowInputMessage) => {
                            rule.show_input_message = string_to_bool(attribute.text.as_str());
                        },
                        Some(RuleAttribute::Sqref) => {
                            rule.sqref = Some(attribute.text);
                        },
                        Some(RuleAttribute::Type) => {
                            rule.kind = Some(attribute.text);
                        },
                        None => {},
                    }
                },
            }
            i = i + 1;
        }
        assert(entries.take(i as int) =~= entries);
        Ok(rule)
    }

    /// Reads the text of a formula element whose start tag was just read:
    /// the first text event, or the empty string where the element's end tag
    /// comes first. The cursor is left after what was read.
    pub fn load_formula(reader: &mut XmlReader, element: Element) -> (parsed: Result<
        String,
        ParseError,
    >)
        ensures
            outcome_view(parsed) == formula_body(old(reader)@, element).outcome,
            parsed is Ok ==> final(reader)@ == formula_body(old(reader)@, element).rest,
    {
        loop
            invariant
                formula_body(reader@, element) == formula_body(old(reader)@, element),
            decreases reader@.len(),
        {
            let event = reader.next_event();
            match event {
                XmlEvent::Text(content) => {
                    return match decode_text(content.as_slice()) {
                        Some(text) => Ok(text),
                        None => Err(ParseError::InvalidUtf8 { element, attribute: None }),
                    };
                },
                XmlEvent::End(name) => {
                    if is_named(name.as_slice(), element) {
                        return Ok(String::new());
                    }
                },
                XmlEvent::Eof => {
                    return Err(ParseError::UnexpectedEof { element });
                },
                XmlEvent::Fault(message) => {
                    return Err(ParseError::Malformed { message });
                },
                _ => {},
            }
        }
    }

    /// Reads one rule element whose start tag `tag` was just read, up to and
    /// including its end tag.
    pub fn load(reader: &mut XmlReader, tag: &StartTag) -> (parsed: Result<Self, ParseError>)
        ensures
            outcome_view(parsed) == rule_element(tag@, old(reader)@).outcome,
            parsed is Ok ==> final(reader)@ == rule_element(tag@, old(reader)@).rest,
    {
        let mut rule = match Self::from_tag(tag) {
            Ok(rule) => rule,
            Err(error) => {
                return Err(error);
            },
        };
        loop
            invariant
                rule_from_tag(tag@) is Ok,
                rule_children(reader@, rule@) == rule_element(tag@, old(reader)@),
            decreases reader@.len(),
        {
            let event = reader.next_event();
            match event {
                XmlEvent::Start(child) => {
                    if is_named(child.name.as_slice(), Element::Formula1) {
                        proof {
                            lemma_formula_body_consumes(reader@, Element::Formula1);
                        }
                        match Self::load_formula(reader, Element::Formula1) {
                            Ok(text) => {
                                rule.formula1 = Some(text);
                            },
                            Err(error) => {
                                return Err(error);
                            },
                        }
                    } else if is_named(child.name.as_slice(), Element::Formula2) {
                        proof {
                            lemma_formula_body_consumes(reader@, Element::Formula2);
                        }
                        match Self::load_formula(reader, Element::Formula2) {
                            Ok(text) => {
                                rule.formula2 = Some(text);
                            },
                            Err(error) => {
                                return Err(error);
                            },
                        }
                    }
                },
                XmlEvent::End(name) => {
                    if is_named(name.as_slice(), Element::DataValidation) {
                        return Ok(rule);
                    }
                },
                XmlEvent::Eof => {
                    return Err(ParseError::UnexpectedEof { element: Element::DataValidation });
                },
                XmlEvent::Fault(message) => {
                    return Err(ParseError::Malformed { message });
                },
                _ => {},
            }
        }
    }
}

/// The data validation rules of a worksheet, in document order.
///
/// ```xml
/// <dataValidations count="1">
///     <dataValidation type="list" allowBlank="1" sqref="A1:A10">
///         <formula1>"Option1,Option2,Option3"</formula1>
///     </dataValidation>
/// </dataValidations>
/// ```
#[derive(Debug, Clone, PartialEq)]
pub struct XlsxDataValidations {
    /// dataValidation (Data Validation), the child elements in document order
    pub data_validations: Vec<XlsxDataValidation>,
    /// count (Count)
    pub count: Option<u64>,
}

/// The mathematical value of an [`XlsxDataValidations`].
pub struct XlsxDataValidationsView {
    pub data_validations: Seq<XlsxDataValidationView>,
    pub count: Option<u64>,
}

/// The views of a list of rules, in order.
pub open spec fn rule_views(rules: Seq<XlsxDataValidation>) -> Seq<XlsxDataValidationView> {
    rules.map_values(|rule: XlsxDataValidation| rule@)
}

impl View for XlsxDataValidations {
    type V = XlsxDataValidationsView;

    open spec fn view(&self) -> XlsxDataValidationsView {
        XlsxDataValidationsView {
            data_validations: rule_views(self.data_validations@),
            count: self.count,
        }
    }
}

/// The child phase of a rule never hands back more tokens than it was given.
pub proof fn lemma_rule_children_consumes(tokens: Seq<XmlToken>, rule: XlsxDataValidationView)
    ensures
        rule_children(tokens, rule).rest.len() <= tokens.len(),
        rule_children(tokens, rule).outcome is Ok ==> rule_children(tokens, rule).rest.len()
            < tokens.len(),
    decreases tokens.len(),
{
    if tokens.len() > 0 {
        let rest = tokens.skip(1);
        match tokens[0] {
            XmlToken::Start(tag) => {
                if named(tag.name, Element::Formula1) {
                    let body = formula_body(rest, Element::Formula1);
                    lemma_formula_body_consumes(rest, Element::Formula1);
                    if body.outcome is Ok {
                        lemma_rule_children_consumes(
                            body.rest,
                            XlsxDataValidationView { formula1: Some(body.outcome->Ok_0), ..rule },
                        );
                    }
                } else if named(tag.name, Element::Formula2) {
                    let body = formula_body(rest, Element::Formula2);
                    lemma_formula_body_consumes(rest, Element::Formula2);
                    if body.outcome is Ok {
                        lemma_rule_children_consumes(
                            body.rest,
                            XlsxDataValidationView { formula2: Some(body.outcome->Ok_0), ..rule },
                        );
                    }
                } else {
                    lemma_rule_children_consumes(rest, rule);
                }
            },
            XmlToken::End { name } => {
                if !named(name, Element::DataValidation) {
                    lemma_rule_children_consumes(rest, rule);
                }
            },
            XmlToken::Eof => {},
            XmlToken::Fault { .. } => {},
            _ => {
                lemma_rule_children_consumes(rest, rule);
            },
        }
    }
}

/// A rule element never hands back more tokens than it was given.
pub proof fn lemma_rule_element_consumes(tag: StartTagView, tokens: Seq<XmlToken>)
    ensures
        rule_element(tag, tokens).rest.len() <= tokens.len(),
        rule_element(tag, tokens).outcome is Ok ==> rule_element(tag, tokens).rest.len()
            < tokens.len(),
{
    if rule_from_tag(tag) is Ok {
        lemma_rule_children_consumes(tokens, rule_from_tag(tag)->Ok_0);
    }
}

/// The child phase of the container: `rules` followed by the rule of every
/// rule element that the tokens up to the container's end tag hold, in
/// document order.
pub open spec fn container_children(
    tokens: Seq<XmlToken>,
    rules: Seq<XlsxDataValidationView>,
) -> Parsed<Seq<XlsxDataValidationView>>
    decreases tokens.len(),
{
    if tokens.len() == 0 {
        failed(ParseErrorView::UnexpectedEof { element: Element::DataValidations })
    } else {
        let rest = tokens.skip(1);
        match tokens[0] {
            XmlToken::Start(tag) if named(tag.name, Element::DataValidation) => {
                proof {
                    lemma_rule_element_consumes(tag, rest);
                }
                match rule_element(tag, rest).outcome {
                    Ok(rule) => container_children(rule_element(tag, rest).rest, rules.push(rule)),
                    Err(error) => failed(error),
                }
            },
            XmlToken::End { name } if named(name, Element::DataValidations) => Parsed {
                outcome: Ok(rules),
                rest,
            },
            XmlToken::Eof => failed(
                ParseErrorView::UnexpectedEof { element: Element::DataValidations },
            ),
            XmlToken::Fault { message } => failed(ParseErrorView::Malformed { message }),
            _ => container_children(rest, rules),
        }
    }
}

/// The text of the last attribute in `attributes` that is named `count`.
pub open spec fn count_text(attributes: Seq<TextAttributeView>) -> Option<Seq<char>>
    decreases attributes.len(),
{
    if attributes.len() == 0 {
        None
    } else if attributes.last().key == "count".spec_bytes() {
        Some(attributes.last().text)
    } else {
        count_text(attributes.drop_last())
    }
}

/// The count that a decoded attribute list gives: the number that its last
/// `count` attribute writes, and no value where that text writes none.
pub open spec fn count_from_attributes(attributes: Seq<TextAttributeView>) -> Option<u64> {
    match count_text(attributes) {
        Some(text) => unsigned_of_text(text),
        None => None,
    }
}

/// The count that the start tag of a container gives: its attribute phase.
pub open spec fn count_from_tag(tag: StartTagView) -> Result<Option<u64>, ParseErrorView> {
    match decoded_attributes(Element::DataValidations, tag.attributes) {
        Ok(attributes) => Ok(count_from_attributes(attributes)),
        Err(error) => Err(error),
    }
}

/// The container element whose start tag `tag` was just read: the count of
/// its attribute phase, then the rules of its child phase on `tokens`, in
/// document order.
pub open spec fn container_element(tag: StartTagView, tokens: Seq<XmlToken>) -> Parsed<
    XlsxDataValidationsView,
> {
    match count_from_tag(tag) {
        Err(error) => failed(error),
        Ok(count) => match container_children(tokens, Seq::empty()).outcome {
            Ok(rules) => Parsed {
                outcome: Ok(XlsxDataValidationsView { data_validations: rules, count }),
                rest: container_children(tokens, Seq::empty()).rest,
            },
            Err(error) => failed(error),
        },
    }
}

/// The mathematical value of what reading a count returns.
pub open spec fn count_outcome(parsed: Result<Option<u64>, ParseError>) -> Result<
    Option<u64>,
    ParseErrorView,
> {
    match parsed {
        Ok(count) => Ok(count),
        Err(error) => Err(error@),
    }
}

impl XlsxDataValidations {
    /// The attribute phase: reads the count from the container's start tag.
    /// Names other than `count` are passed over, and text that writes no
    /// unsigned integer is no value. Fails at the first attribute that is
    /// malformed or whose value is no UTF-8.
    pub fn count_of(tag: &StartTag) -> (parsed: Result<Option<u64>, ParseError>)
        ensures
            count_outcome(parsed) == count_from_tag(tag@),
    {
        let ghost entries = tag@.attributes;
        let ghost mut seen: Seq<TextAttributeView> = Seq::empty();
        let mut count: Option<u64> = None;
        let mut i: usize = 0;
        assert(entries.take(0) =~= Seq::empty());
        while i < tag.attributes.len()
            invariant
                0 <= i <= tag.attributes@.len(),
                entries == tag@.attributes,
                entries.len() == tag.attributes@.len(),
                decoded_attributes(Element::DataValidations, entries.take(i as int)) == Ok::<
                    Seq<TextAttributeView>,
                    ParseErrorView,
                >(seen),
                count == count_from_attributes(seen),
            decreases tag.attributes@.len() - i,
        {
            let ghost upto = entries.take(i + 1);
            assert(upto.drop_last() =~= entries.take(i as int));
            match decode_attribute(Element::DataValidations, &tag.attributes[i]) {
                Err(error) => {
                    proof {
                        lemma_first_error_stands(Element::DataValidations, entries, i + 1);
                    }
                    return Err(error);
                },
                Ok(attribute) => {
                    proof {
                        let ghost longer = seen.push(attribute@);
                        assert(longer.drop_last() =~= seen);
                        seen = longer;
                    }
                    if bytes_eq(attribute.key, "count".as_bytes()) {
                        count = string_to_unsignedint(attribute.text.as_str());
                    }
                },
            }
            i = i + 1;
        }
        assert(entries.take(i as int) =~= entries);
        Ok(count)
    }

    /// Reads the container element whose start tag `tag` was just read, up
    /// to and including its end tag. Either the count and every rule in it
    /// are read, or the whole read fails.
    pub fn load(reader: &mut XmlReader, tag: &StartTag) -> (parsed: Result<Self, ParseError>)
        ensures
            outcome_view(parsed) == container_element(tag@, old(reader)@).outcome,
            parsed is Ok ==> final(reader)@ == container_element(tag@, old(reader)@).rest,
    {
        let count = match Self::count_of(tag) {
            Ok(count) => count,
            Err(error) => {
                return Err(error);
            },
        };
        let mut rules: Vec<XlsxDataValidation> = Vec::new();
        assert(rule_views(rules@) =~= Seq::empty());
        loop
            invariant
                count_from_tag(tag@) == Ok::<Option<u64>, ParseErrorView>(count),
                container_children(reader@, rule_views(rules@)) == container_children(
                    old(reader)@,
                    Seq::empty(),
                ),
            decreases reader@.len(),
        {
            let event = reader.next_event();
            match event {
                XmlEvent::Start(tag) => {
                    if is_named(tag.name.as_slice(), Element::DataValidation) {
                        proof {
                            lemma_rule_element_consumes(tag@, reader@);
                        }
                        match XlsxDataValidation::load(reader, &tag) {
                            Ok(rule) => {
                                let ghost before = rules@;
                                rules.push(rule);
                                assert(rule_views(rules@) =~= rule_views(before).push(rule@));
                            },
                            Err(error) => {
                                return Err(error);
                            },
                        }
                    }
                },
                XmlEvent::End(name) => {
                    if is_named(name.as_slice(), Element::DataValidations) {
                        return Ok(XlsxDataValidations { data_validations: rules, count });
                    }
                },
                XmlEvent::Eof => {
                    return Err(ParseError::UnexpectedEof { element: Element::DataValidations });
                },
                XmlEvent::Fault(message) => {
                    return Err(ParseError::Malformed { message });
                },
                _ => {},
            }
        }
    }
}

} // verus!
