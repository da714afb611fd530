//! Every way a parse fails.

use excel_reader::cursor::XmlReader;
use excel_reader::token::{SkipError, StartTag, XmlAttribute, XmlEvent};
use excel_reader::error::{Element, ParseError};
use excel_reader::raw::data_validation::{XlsxDataValidation, XlsxDataValidations};
use excel_reader::raw::sheet_view::{load_sheet_views, XlsxPane, XlsxSheetView};

/// Reads on to the first start tag whose local name is `local`.
fn enter(reader: &mut XmlReader, local: &[u8]) -> StartTag {
    loop {
        match reader.next_event() {
            XmlEvent::Start(tag) => {
                let from = tag.name.iter().position(|b| *b == b':').map_or(0, |i| i + 1);
                if &tag.name[from..] == local {
                    return tag;
                }
            }
            XmlEvent::Eof => panic!("no such start tag"),
            XmlEvent::Fault(message) => panic!("{}", message),
            _ => {}
        }
    }
}

/// The report that the XML reader itself gives of the first fault in `xml`.
fn first_fault(xml: &[u8]) -> String {
    let mut reader = quick_xml::Reader::from_reader(xml);
    reader.config_mut().expand_empty_elements = true;
    loop {
        match reader.read_event() {
            Err(error) => return error.to_string(),
            Ok(quick_xml::events::Event::Eof) => panic!("no fault in the input"),
            Ok(_) => {}
        }
    }
}

#[test]
fn unterminated_container_names_the_container() {
    let mut reader = XmlReader::new(b"<dataValidations count=\"1\">");
    let container = enter(&mut reader, b"dataValidations");
    let failed = XlsxDataValidations::load(&mut reader, &container).unwrap_err();
    assert_eq!(failed, ParseError::UnexpectedEof { element: Element::DataValidations });
    assert_eq!(failed.element(), Some(Element::DataValidations));
    assert_eq!(failed.message(), "unexpected end of file at `dataValidations`");
}

#[test]
fn unterminated_rule_names_the_rule() {
    let mut reader = XmlReader::new(b"<dataValidations><dataValidation type=\"list\">");
    let container = enter(&mut reader, b"dataValidations");
    let failed = XlsxDataValidations::load(&mut reader, &container).unwrap_err();
    assert_eq!(failed, ParseError::UnexpectedEof { element: Element::DataValidation });
    assert_eq!(failed.message(), "unexpected end of file at `dataValidation`");

    let mut reader = XmlReader::new(b"<dataValidation type=\"list\">  ");
    let tag = enter(&mut reader, b"dataValidation");
    assert_eq!(
        XlsxDataValidation::load(&mut reader, &tag),
        Err(ParseError::UnexpectedEof { element: Element::DataValidation })
    );
}

#[test]
fn unterminated_formula_names_the_formula() {
    let mut reader = XmlReader::new(b"<dataValidation><formula1>");
    let tag = enter(&mut reader, b"dataValidation");
    let failed = XlsxDataValidation::load(&mut reader, &tag).unwrap_err();
    assert_eq!(failed, ParseError::UnexpectedEof { element: Element::Formula1 });
    assert_eq!(failed.message(), "unexpected end of file at `formula1`");

    let mut reader = XmlReader::new(b"<dataValidation><formula2><!-- c -->");
    let tag = enter(&mut reader, b"dataValidation");
    assert_eq!(
        XlsxDataValidation::load(&mut reader, &tag),
        Err(ParseError::UnexpectedEof { element: Element::Formula2 })
    );

    let mut reader = XmlReader::new(b"<formula2>");
    enter(&mut reader, b"formula2");
    assert_eq!(
        XlsxDataValidation::load_formula(&mut reader, Element::Formula2),
        Err(ParseError::UnexpectedEof { element: Element::Formula2 })
    );
}

#[test]
fn unterminated_sheet_views_name_themselves() {
    let mut reader = XmlReader::new(b"<sheetViews>");
    enter(&mut reader, b"sheetViews");
    let failed = load_sheet_views(&mut reader).unwrap_err();
    assert_eq!(failed, ParseError::UnexpectedEof { element: Element::SheetViews });
    assert_eq!(failed.message(), "unexpected end of file at `sheetViews`");

    let mut reader = XmlReader::new(b"<sheetViews><sheetView workbookViewId=\"0\">");
    enter(&mut reader, b"sheetViews");
    let failed = load_sheet_views(&mut reader).unwrap_err();
    assert_eq!(failed, ParseError::UnexpectedEof { element: Element::SheetView });
    assert_eq!(failed.message(), "unexpected end of file at `sheetView`");

    let mut reader = XmlReader::new(b"<sheetView>");
    let tag = enter(&mut reader, b"sheetView");
    assert_eq!(
        XlsxSheetView::load(&mut reader, &tag),
        Err(ParseError::UnexpectedEof { element: Element::SheetView })
    );
}

#[test]
fn unterminated_pane_names_the_pane() {
    let mut reader = XmlReader::new(b"<sheetView><pane state=\"frozen\">");
    let tag = enter(&mut reader, b"sheetView");
    let failed = XlsxSheetView::load(&mut reader, &tag).unwrap_err();
    assert_eq!(failed, ParseError::UnexpectedEof { element: Element::Pane });
    assert_eq!(failed.message(), "unexpected end of file at `pane`");

    let mut reader = XmlReader::new(b"<sheetView><\xff:pane><a><b/>text");
    let tag = enter(&mut reader, b"sheetView");
    assert_eq!(
        XlsxSheetView::load(&mut reader, &tag),
        Err(ParseError::UnexpectedEof { element: Element::Pane })
    );
}

#[test]
fn a_fault_in_the_subtree_of_a_pane_is_reported_by_the_cursor() {
    let xml = b"<sheetView><pane><a></b></pane></sheetView>";
    let mut reader = XmlReader::new(xml);
    let tag = enter(&mut reader, b"sheetView");
    let failed = XlsxSheetView::load(&mut reader, &tag).unwrap_err();
    assert_eq!(failed, ParseError::Malformed { message: first_fault(xml) });
    assert_eq!(failed.element(), None);
}

#[test]
fn attribute_value_that_is_no_utf8() {
    let mut reader = XmlReader::new(b"<dataValidation type=\"list\" sqref=\"A\xff\"/>");
    let tag = enter(&mut reader, b"dataValidation");
    let failed = XlsxDataValidation::load(&mut reader, &tag).unwrap_err();
    assert_eq!(
        failed,
        ParseError::InvalidUtf8 {
            element: Element::DataValidation,
            attribute: Some(b"sqref".to_vec())
        }
    );
    assert_eq!(failed.element(), Some(Element::DataValidation));
    assert_eq!(failed.message(), "invalid UTF-8 text at `dataValidation`");
}

#[test]
fn a_name_that_is_not_read_must_still_hold_utf8() {
    let mut reader = XmlReader::new(b"<pane x:other=\"\xc3\x28\" state=\"split\"/>");
    let tag = enter(&mut reader, b"pane");
    assert_eq!(
        XlsxPane::load(&tag),
        Err(ParseError::InvalidUtf8 { element: Element::Pane, attribute: Some(b"other".to_vec()) })
    );
}

#[test]
fn formula_text_that_is_no_utf8() {
    let mut reader = XmlReader::new(b"<dataValidation><formula1>\xe2\x82</formula1></dataValidation>");
    let tag = enter(&mut reader, b"dataValidation");
    let failed = XlsxDataValidation::load(&mut reader, &tag).unwrap_err();
    assert_eq!(failed, ParseError::InvalidUtf8 { element: Element::Formula1, attribute: None });
    assert_eq!(failed.message(), "invalid UTF-8 text at `formula1`");
}

#[test]
fn malformed_attribute_is_reported_in_the_cursors_words() {
    let mut reader = XmlReader::new(b"<pane state=frozen/>");
    let tag = enter(&mut reader, b"pane");
    assert_eq!(
        XlsxPane::load(&tag),
        Err(ParseError::Malformed {
            message: String::from(
                "position 11: attribute value must be enclosed in `\"` or `'`"
            )
        })
    );
}

#[test]
fn repeated_attribute_is_malformed() {
    let mut reader = XmlReader::new(b"<dataValidation sqref=\"A1\" sqref=\"B2\"/>");
    let tag = enter(&mut reader, b"dataValidation");
    assert_eq!(tag.attributes.len(), 2);
    assert!(matches!(tag.attributes[0], XmlAttribute::Pair { .. }));
    assert!(matches!(tag.attributes[1], XmlAttribute::Malformed { .. }));
    let failed = XlsxDataValidation::from_tag(&tag).unwrap_err();
    assert_eq!(
        failed,
        ParseError::Malformed {
            message: String::from(
                "position 26: duplicated attribute, previous declaration at position 15"
            )
        }
    );
}

#[test]
fn the_first_failing_attribute_decides() {
    let mut reader = XmlReader::new(b"<pane a=\"\xff\" b=c/>");
    let tag = enter(&mut reader, b"pane");
    assert_eq!(
        XlsxPane::load(&tag),
        Err(ParseError::InvalidUtf8 { element: Element::Pane, attribute: Some(b"a".to_vec()) })
    );
    let mut reader = XmlReader::new(b"<pane b=c a=\"\xff\"/>");
    let tag = enter(&mut reader, b"pane");
    assert!(matches!(XlsxPane::load(&tag), Err(ParseError::Malformed { .. })));
}

#[test]
fn mismatched_end_tag_is_the_cursors_fault() {
    let xml = b"<dataValidations><dataValidation></wrong></dataValidations>";
    let mut reader = XmlReader::new(xml);
    let container = enter(&mut reader, b"dataValidations");
    let failed = XlsxDataValidations::load(&mut reader, &container).unwrap_err();
    assert_eq!(failed, ParseError::Malformed { message: first_fault(xml) });
    assert_eq!(
        failed.message(),
        "ill-formed document: expected `</dataValidation>`, but `</wrong>` was found"
    );
}

#[test]
fn input_cut_inside_a_tag_is_the_cursors_fault() {
    let xml = b"<dataValidations><dataValidation type=\"li";
    let mut reader = XmlReader::new(xml);
    let container = enter(&mut reader, b"dataValidations");
    let failed = XlsxDataValidations::load(&mut reader, &container).unwrap_err();
    assert_eq!(failed, ParseError::Malformed { message: first_fault(xml) });
}

#[test]
fn one_bad_rule_fails_the_whole_container() {
    let xml = b"<dataValidations><dataValidation sqref=\"A1\"/><dataValidation sqref=\"\xff\"/></dataValidations>";
    let mut reader = XmlReader::new(xml);
    let container = enter(&mut reader, b"dataValidations");
    assert_eq!(
        XlsxDataValidations::load(&mut reader, &container),
        Err(ParseError::InvalidUtf8 {
            element: Element::DataValidation,
            attribute: Some(b"sqref".to_vec())
        })
    );
}

#[test]
fn skipping_to_an_end_tag() {
    let mut reader = XmlReader::new(b"<a><b><a>x</a></b></a><c/>");
    enter(&mut reader, b"a");
    assert_eq!(reader.skip_to_end(b"a"), Ok(()));
    assert_eq!(enter(&mut reader, b"c").name, b"c".to_vec());

    let mut reader = XmlReader::new(b"<a><b>");
    enter(&mut reader, b"a");
    assert_eq!(reader.skip_to_end(b"a"), Err(SkipError::Eof));

    let xml = b"<a><b></c></a>";
    let mut reader = XmlReader::new(xml);
    enter(&mut reader, b"a");
    assert_eq!(reader.skip_to_end(b"a"), Err(SkipError::Fault(first_fault(xml))));
}

#[test]
fn the_cursor_yields_plain_events() {
    let mut reader = XmlReader::new(b"<?xml version=\"1.0\"?><r a=\"1\" p:b='2'>t<!--c--><e/></r>");
    assert_eq!(reader.next_event(), XmlEvent::Other);
    assert_eq!(
        reader.next_event(),
        XmlEvent::Start(StartTag {
            name: b"r".to_vec(),
            attributes: vec![
                XmlAttribute::Pair { key: b"a".to_vec(), value: b"1".to_vec() },
                XmlAttribute::Pair { key: b"p:b".to_vec(), value: b"2".to_vec() },
            ],
        })
    );
    assert_eq!(reader.next_event(), XmlEvent::Text(b"t".to_vec()));
    assert_eq!(reader.next_event(), XmlEvent::Other);
    assert_eq!(reader.next_event(), XmlEvent::Start(StartTag { name: b"e".to_vec(), attributes: vec![] }));
    assert_eq!(reader.next_event(), XmlEvent::End(b"e".to_vec()));
    assert_eq!(reader.next_event(), XmlEvent::End(b"r".to_vec()));
    assert_eq!(reader.next_event(), XmlEvent::Eof);
    assert_eq!(reader.next_event(), XmlEvent::Eof);
}

#[test]
fn element_names() {
    assert_eq!(Element::DataValidations.tag(), "dataValidations");
    assert_eq!(Element::DataValidation.tag(), "dataValidation");
    assert_eq!(Element::Formula1.tag(), "formula1");
    assert_eq!(Element::Formula2.tag(), "formula2");
    assert_eq!(Element::SheetViews.tag(), "sheetViews");
    assert_eq!(Element::SheetView.tag(), "sheetView");
    assert_eq!(Element::Pane.tag(), "pane");
    let cursor = ParseError::Malformed { message: String::from("syntax error: x") };
    assert_eq!(cursor.message(), "syntax error: x");
    assert_eq!(cursor.element(), None);
}

#[test]
fn a_count_that_is_no_utf8_fails() {
    let mut reader = XmlReader::new(b"<dataValidations count=\"\xff\"><dataValidation/></dataValidations>");
    let container = enter(&mut reader, b"dataValidations");
    let failed = XlsxDataValidations::load(&mut reader, &container).unwrap_err();
    assert_eq!(
        failed,
        ParseError::InvalidUtf8 {
            element: Element::DataValidations,
            attribute: Some(b"count".to_vec())
        }
    );
    assert_eq!(failed.message(), "invalid UTF-8 text at `dataValidations`");
}

#[test]
fn a_malformed_attribute_of_the_container_fails() {
    let mut reader = XmlReader::new(b"<dataValidations count=1></dataValidations>");
    let container = enter(&mut reader, b"dataValidations");
    assert_eq!(
        XlsxDataValidations::load(&mut reader, &container),
        Err(ParseError::Malformed {
            message: String::from(
                "position 22: attribute value must be enclosed in `\"` or `'`"
            )
        })
    );
}
