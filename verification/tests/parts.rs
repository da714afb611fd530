//! Whole worksheet parts, and finding an element in one.

use excel_reader::cursor::XmlReader;
use excel_reader::token::XmlEvent;
use excel_reader::error::{Element, ParseError};
use excel_reader::part::{read_data_validations, read_sheet_views};
use excel_reader::raw::sheet_view::XlsxSheetView;

const SHEET: &[u8] = br#"<?xml version="1.0" encoding="UTF-8" standalone="yes"?>
<worksheet xmlns="http://schemas.openxmlformats.org/spreadsheetml/2006/main">
  <sheetViews>
    <sheetView tabSelected="1" workbookViewId="0">
      <pane ySplit="1" topLeftCell="A2" activePane="bottomLeft" state="frozen"/>
      <selection pane="bottomLeft" activeCell="B3" sqref="B3"/>
    </sheetView>
  </sheetViews>
  <sheetData>
    <row r="1"><c r="A1" t="s"><v>0</v></c></row>
  </sheetData>
  <dataValidations count="2">
    <dataValidation type="list" allowBlank="1" showInputMessage="1" showErrorMessage="1" sqref="A1:A10">
      <formula1>"Option1,Option2,Option3"</formula1>
    </dataValidation>
    <dataValidation type="whole" operator="between" showDropDown="true" sqref="B1">
      <formula1>1</formula1>
      <formula2>5</formula2>
    </dataValidation>
  </dataValidations>
</worksheet>"#;

#[test]
fn rules_of_a_part() {
    let rules = read_data_validations(SHEET).unwrap().unwrap();
    assert_eq!(rules.len(), 2);
    assert_eq!(rules[0].kind.as_deref(), Some("list"));
    assert_eq!(rules[0].sqref, "A1:A10");
    assert!(rules[0].allow_blank);
    assert!(!rules[0].show_drop_down);
    assert_eq!(rules[0].formula1.as_deref(), Some("\"Option1,Option2,Option3\""));
    assert_eq!(rules[0].formula2, None);
    assert_eq!(rules[1].kind.as_deref(), Some("whole"));
    assert_eq!(rules[1].operator.as_deref(), Some("between"));
    assert!(rules[1].show_drop_down);
    assert!(!rules[1].allow_blank);
    assert_eq!(rules[1].formula1.as_deref(), Some("1"));
    assert_eq!(rules[1].formula2.as_deref(), Some("5"));
}

#[test]
fn sheet_views_of_a_part() {
    let views = read_sheet_views(SHEET).unwrap();
    assert_eq!(views.len(), 1);
    let pane = views[0].pane.clone().unwrap();
    assert_eq!(pane.state.as_deref(), Some("frozen"));
    assert_eq!(pane.y_split.as_deref(), Some("1"));
    assert_eq!(pane.x_split, None);
    assert_eq!(pane.top_left_cell.as_deref(), Some("A2"));
    assert_eq!(pane.active_pane.as_deref(), Some("bottomLeft"));
}

#[test]
fn a_part_without_the_element() {
    let xml = b"<worksheet><sheetData/></worksheet>";
    assert_eq!(read_data_validations(xml), Ok(None));
    assert_eq!(read_sheet_views(xml), Ok(Vec::<XlsxSheetView>::new()));
    assert_eq!(read_data_validations(b""), Ok(None));
}

#[test]
fn a_part_with_an_empty_container() {
    assert_eq!(read_data_validations(b"<worksheet><dataValidations/></worksheet>"), Ok(Some(vec![])));
    assert_eq!(read_sheet_views(b"<sheetViews></sheetViews>"), Ok(vec![]));
}

#[test]
fn a_part_whose_count_is_no_utf8_fails() {
    assert_eq!(
        read_data_validations(b"<worksheet><dataValidations count=\"\xc0\"/></worksheet>"),
        Err(ParseError::InvalidUtf8 {
            element: Element::DataValidations,
            attribute: Some(b"count".to_vec())
        })
    );
}

#[test]
fn a_part_that_fails() {
    assert_eq!(
        read_data_validations(b"<worksheet><dataValidations><dataValidation/>"),
        Err(ParseError::UnexpectedEof { element: Element::DataValidations })
    );
    assert_eq!(
        read_sheet_views(b"<worksheet><sheetViews><sheetView>"),
        Err(ParseError::UnexpectedEof { element: Element::SheetView })
    );
    assert!(matches!(
        read_data_validations(b"<worksheet></sheet><dataValidations/>"),
        Err(ParseError::Malformed { .. })
    ));
}

#[test]
fn entering_an_element() {
    let mut reader = XmlReader::new(b"<a><x:pane state=\"split\"><pane/></x:pane></a>");
    let tag = reader.enter(Element::Pane).unwrap().unwrap();
    assert_eq!(tag.name, b"x:pane".to_vec());
    assert_eq!(tag.attributes.len(), 1);
    let inner = reader.enter(Element::Pane).unwrap().unwrap();
    assert_eq!(inner.name, b"pane".to_vec());
    assert_eq!(reader.next_event(), XmlEvent::End(b"pane".to_vec()));
    assert_eq!(reader.enter(Element::Pane), Ok(None));
}

#[test]
fn entering_an_element_that_is_not_there() {
    let mut reader = XmlReader::new(b"<a><b/></a>");
    assert_eq!(reader.enter(Element::SheetViews), Ok(None));
    let mut reader = XmlReader::new(b"<a><b></a>");
    assert_eq!(
        reader.enter(Element::SheetViews),
        Err(ParseError::Malformed {
            message: String::from("ill-formed document: expected `</b>`, but `</a>` was found")
        })
    );
}
