//! Data validation rules with their defaults applied.

use crate::raw::data_validation::{
    XlsxDataValidation, XlsxDataValidationView, XlsxDataValidations,
};
use crate::text::text_view;
use vstd::prelude::*;

verus! {

/// One data validation rule, as a worksheet hands it to its users.
///
/// A flag that the XML did not give is `false`, a cell range that it did
/// not give is the empty string. What has no default stays optional: the
/// type, the operator, the formulas and the texts shown to the user.
#[derive(Clone, PartialEq, Debug)]
pub struct DataValidation {
    /// Allow blank cells
    pub allow_blank: bool,
    /// Error message
    pub error_message: Option<String>,
    /// Error title
    pub error_title: Option<String>,
    /// Formula 1
    pub formula1: Option<String>,
    /// Formula 2
    pub formula2: Option<String>,
    /// Operator
    pub operator: Option<String>,
    /// Input message
    pub prompt: Option<String>,
    /// Input message title
    pub prompt_title: Option<String>,
    /// Show drop down list
    pub show_drop_down: bool,
    /// Show error message
    pub show_error_message: bool,
    /// Show input message
    pub show_input_message: bool,
    /// Sequence of references (cell ranges), as written
    pub sqref: String,
    /// Data validation type
    pub kind: Option<String>,
}

/// The mathematical value of a [`DataValidation`].
pub struct DataValidationView {
    pub allow_blank: bool,
    pub error_message: Option<Seq<char>>,
    pub error_title: Option<Seq<char>>,
    pub formula1: Option<Seq<char>>,
    pub formula2: Option<Seq<char>>,
    pub operator: Option<Seq<char>>,
    pub prompt: Option<Seq<char>>,
    pub prompt_title: Option<Seq<char>>,
    pub show_drop_down: bool,
    pub show_error_message: bool,
    pub show_input_message: bool,
    pub sqref: Seq<char>,
    pub kind: Option<Seq<char>>,
}

impl View for DataValidation {
    type V = DataValidationView;

    open spec fn view(&self) -> DataValidationView {
        DataValidationView {
            allow_blank: self.allow_blank,
            error_message: text_view(self.error_message),
            error_title: text_view(self.error_title),
            formula1: text_view(self.formula1),
            formula2: text_view(self.formula2),
            operator: text_view(self.operator),
            prompt: text_view(self.prompt),
            prompt_title: text_view(self.prompt_title),
            show_drop_down: self.show_drop_down,
            show_error_message: self.show_error_message,
            show_input_message: self.show_input_message,
            sqref: self.sqref@,
            kind: text_view(self.kind),
        }
    }
}

/// A flag, or `false` where there is none.
pub open spec fn flag_or_false(flag: Option<bool>) -> bool {
    match flag {
        Some(b) => b,
        None => false,
    }
}

/// A text, or the empty text where there is none.
pub open spec fn text_or_empty(text: Option<Seq<char>>) -> Seq<char> {
    match text {
        Some(t) => t,
        None => Seq::empty(),
    }
}

/// The processed rule of a raw rule: its fields one for one, each absent
/// flag `false`, an absent cell range empty.
pub open spec fn processed(raw: XlsxDataValidationView) -> DataValidationView {
    DataValidationView {
        allow_blank: flag_or_false(raw.allow_blank),
        error_message: raw.error_message,
        error_title: raw.error_title,
        formula1: raw.formula1,
        formula2: raw.formula2,
        operator: raw.operator,
        prompt: raw.prompt,
        prompt_title: raw.prompt_title,
        show_drop_down: flag_or_false(raw.show_drop_down),
        show_error_message: flag_or_false(raw.show_error_message),
        show_input_message: flag_or_false(raw.show_input_message),
        sqref: text_or_empty(raw.sqref),
        kind: raw.kind,
    }
}

/// The processed rules of a list of raw rules, one for one and in order.
pub open spec fn processed_list(raw: Seq<XlsxDataValidationView>) -> Seq<DataValidationView> {
    raw.map_values(|rule: XlsxDataValidationView| processed(rule))
}

/// The views of a list of processed rules, in order.
pub open spec fn validation_views(rules: Seq<DataValidation>) -> Seq<DataValidationView> {
    rules.map_values(|rule: DataValidation| rule@)
}

/// A text, or the empty string where there is none.
fn string_or_empty(text: Option<String>) -> (s: String)
    ensures
        s@ == text_or_empty(text_view(text)),
{
    match text {
        Some(t) => t,
        None => String::new(),
    }
}

impl DataValidation {
    /// Turns a raw rule into a processed one. This never fails.
    pub fn from_raw(raw: XlsxDataValidation) -> (rule: Self)
        ensures
            rule@ == processed(raw@),
    {
        DataValidation {
            allow_blank: raw.allow_blank.unwrap_or(false),
            error_message: raw.error_message,
            error_title: raw.error_title,
            formula1: raw.formula1,
            formula2: raw.formula2,
            operator: raw.operator,
            prompt: raw.prompt,
            prompt_title: raw.prompt_title,
            show_drop_down: raw.show_drop_down.unwrap_or(false),
            show_error_message: raw.show_error_message.unwrap_or(false),
            show_input_message: raw.show_input_message.unwrap_or(false),
            sqref: string_or_empty(raw.sqref),
            kind: raw.kind,
        }
    }

    /// Turns the rules of a raw container into processed ones: as many as
    /// the container holds, in the same order.
    pub fn from_raw_list(raw: XlsxDataValidations) -> (rules: Vec<Self>)
        ensures
            rules@.len() == raw@.data_validations.len(),
            forall|i: int|
                0 <= i < rules@.len() ==> (#[trigger] rules@[i])@ == processed(
                    raw@.data_validations[i],
                ),
            validation_views(rules@) == processed_list(raw@.data_validations),
    {
        let ghost source = raw.data_validations@;
        let mut rules: Vec<DataValidation> = Vec::new();
        for rule in it: raw.data_validations
            invariant
                it.seq() == source,
                rules@.len() == it.index(),
                forall|j: int|
                    0 <= j < rules@.len() ==> (#[trigger] rules@[j])@ == processed(source[j]@),
        {
            rules.push(DataValidation::from_raw(rule));
        }
        rules
    }
}

} // verus!
