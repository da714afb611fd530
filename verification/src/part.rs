//! Whole worksheet parts: the first rule container and the first list of
//! sheet views that the XML of a part holds.

use crate::cursor::{xml_tokens, XmlReader};
use crate::error::{Element, ParseError, ParseErrorView};
use crate::processed::data_validation::{
    processed_list, validation_views, DataValidation, DataValidationView,
};
use crate::raw::data_validation::{container_element, XlsxDataValidations};
use crate::raw::sheet_view::{
    load_sheet_views, sheet_view_views, sheet_views_element, views_outcome, XlsxSheetView,
    XlsxSheetViewView,
};
use crate::token::{entered, XmlToken};
use vstd::prelude::*;

verus! {

/// The processed rules of a part, in document order: those of its first
/// rule container, or none where it has no container.
pub open spec fn part_rules(tokens: Seq<XmlToken>) -> Result<
    Option<Seq<DataValidationView>>,
    ParseErrorView,
> {
    let found = entered(tokens, Element::DataValidations);
    match found.outcome {
        Err(error) => Err(error),
        Ok(None) => Ok(None),
        Ok(Some(tag)) => match container_element(tag, found.rest).outcome {
            Ok(list) => Ok(Some(processed_list(list.data_validations))),
            Err(error) => Err(error),
        },
    }
}

/// The sheet views of a part, in document order: those of its first list of
/// views, or the empty list where it has none.
pub open spec fn part_sheet_views(tokens: Seq<XmlToken>) -> Result<
    Seq<XlsxSheetViewView>,
    ParseErrorView,
> {
    let found = entered(tokens, Element::SheetViews);
    match found.outcome {
        Err(error) => Err(error),
        Ok(None) => Ok(Seq::empty()),
        Ok(Some(_)) => sheet_views_element(found.rest).outcome,
    }
}

/// The mathematical value of what reading the rules of a part returns.
pub open spec fn rules_outcome(rules: Result<Option<Vec<DataValidation>>, ParseError>) -> Result<
    Option<Seq<DataValidationView>>,
    ParseErrorView,
> {
    match rules {
        Ok(Some(list)) => Ok(Some(validation_views(list@))),
        Ok(None) => Ok(None),
        Err(error) => Err(error@),
    }
}

/// Reads the data validation rules of the worksheet part `xml`: those of
/// its first rule container, processed and in document order, or nothing
/// where the part has no container. Fails where the container's start tag
/// or one of its rules cannot be read.
pub fn read_data_validations(xml: &[u8]) -> (rules: Result<Option<Vec<DataValidation>>, ParseError>)
    ensures
        rules_outcome(rules) == part_rules(xml_tokens(xml@)),
{
    let mut reader = XmlReader::new(xml);
    match reader.enter(Element::DataValidations) {
        Err(error) => Err(error),
        Ok(None) => Ok(None),
        Ok(Some(tag)) => match XlsxDataValidations::load(&mut reader, &tag) {
            Ok(raw) => Ok(Some(DataValidation::from_raw_list(raw))),
            Err(error) => Err(error),
        },
    }
}

/// Reads the sheet views of the worksheet part `xml`: those of its first
/// list of views, in document order, or none where the part has no list.
pub fn read_sheet_views(xml: &[u8]) -> (views: Result<Vec<XlsxSheetView>, ParseError>)
    ensures
        views_outcome(views) == part_sheet_views(xml_tokens(xml@)),
{
    let mut reader = XmlReader::new(xml);
    match reader.enter(Element::SheetViews) {
        Err(error) => Err(error),
        Ok(None) => {
            let views: Vec<XlsxSheetView> = Vec::new();
            assert(sheet_view_views(views@) =~= Seq::empty());
            Ok(views)
        },
        Ok(Some(_)) => load_sheet_views(&mut reader),
    }
}

} // verus!
