//! Whole elements, read from XML text.

use excel_reader::cursor::XmlReader;
use excel_reader::token::{StartTag, XmlEvent};
use excel_reader::processed::data_validation::DataValidation;
use excel_reader::raw::data_validation::{XlsxDataValidation, XlsxDataValidations};
use excel_reader::raw::sheet_view::{load_sheet_views, XlsxPane, XlsxSheetView};

/// Reads on to the first start tag whose local name is `local`.
fn start_of(reader: &mut XmlReader, local: &[u8]) -> StartTag {
    loop {
        match reader.next_event() {
            XmlEvent::Start(tag) => {
                let from = tag.name.iter().position(|b| *b == b':').map_or(0, |i| i + 1);
                if &tag.name[from..] == local {
                    return tag;
                }
            }
            XmlEvent::Eof => panic!("no such start tag"),
            XmlEvent::Fault(message) => panic!("{}", message),
            _ => {}
        }
    }
}

fn text(s: &str) -> Option<String> {
    Some(String::from(s))
}

#[test]
fn list_rule_with_one_formula() {
    let xml = br#"<dataValidation type="list" allowBlank="1" showInputMessage="1" showErrorMessage="1" sqref="A1:A10"><formula1>"Option1,Option2,Option3"</formula1></dataValidation>"#;
    let mut reader = XmlReader::new(xml);
    let tag = start_of(&mut reader, b"dataValidation");
    let raw = XlsxDataValidation::load(&mut reader, &tag).unwrap();
    assert_eq!(raw.kind, text("list"));
    assert_eq!(raw.allow_blank, Some(true));
    assert_eq!(raw.show_input_message, Some(true));
    assert_eq!(raw.show_error_message, Some(true));
    assert_eq!(raw.show_drop_down, None);
    assert_eq!(raw.sqref, text("A1:A10"));
    assert_eq!(raw.formula1, text("\"Option1,Option2,Option3\""));
    assert_eq!(raw.formula2, None);

    let rule = DataValidation::from_raw(raw);
    assert_eq!(rule.kind, text("list"));
    assert!(rule.allow_blank);
    assert!(rule.show_input_message);
    assert!(rule.show_error_message);
    assert!(!rule.show_drop_down);
    assert_eq!(rule.sqref, "A1:A10");
    assert_eq!(rule.formula1, text("\"Option1,Option2,Option3\""));
    assert_eq!(rule.formula2, None);
    assert_eq!(rule.operator, None);
    assert_eq!(rule.prompt, None);
    assert_eq!(rule.prompt_title, None);
    assert_eq!(rule.error_message, None);
    assert_eq!(rule.error_title, None);
    assert!(matches!(reader.next_event(), XmlEvent::Eof));
}

#[test]
fn pane_with_split_positions() {
    let xml = br#"<pane xSplit="2310" ySplit="2070" topLeftCell="C1" activePane="bottomRight"/>"#;
    let mut reader = XmlReader::new(xml);
    let tag = start_of(&mut reader, b"pane");
    let pane = XlsxPane::load(&tag).unwrap();
    assert_eq!(pane.x_split.as_deref().map(|t| t.parse::<f64>()), Some(Ok(2310.0)));
    assert_eq!(pane.y_split.as_deref().map(|t| t.parse::<f64>()), Some(Ok(2070.0)));
    assert_eq!(pane.x_split, text("2310"));
    assert_eq!(pane.y_split, text("2070"));
    assert_eq!(pane.top_left_cell, text("C1"));
    assert_eq!(pane.active_pane, text("bottomRight"));
    assert_eq!(pane.state, None);
    assert_eq!(pane.split_horizontal, None);
    assert_eq!(pane.split_vertical, None);
    assert_eq!(pane.thin_horizontal, None);
    assert_eq!(pane.thin_vertical, None);
}

#[test]
fn container_without_rules_is_empty() {
    let xml = b"<dataValidations count=\"0\"></dataValidations>";
    let mut reader = XmlReader::new(xml);
    let container = start_of(&mut reader, b"dataValidations");
    let list = XlsxDataValidations::load(&mut reader, &container).unwrap();
    assert!(list.data_validations.is_empty());
    assert_eq!(list.count, Some(0));
    assert!(DataValidation::from_raw_list(list).is_empty());
}

#[test]
fn self_closing_container_is_empty() {
    let mut reader = XmlReader::new(b"<dataValidations/>");
    let container = start_of(&mut reader, b"dataValidations");
    let list = XlsxDataValidations::load(&mut reader, &container).unwrap();
    assert_eq!(list, XlsxDataValidations { data_validations: vec![], count: None });
}

#[test]
fn rules_come_out_in_document_order() {
    let xml = br#"<worksheet>
  <dataValidations count="3">
    <!-- three rules -->
    <dataValidation type="list" sqref="A1"><formula1>one</formula1></dataValidation>
    <dataValidation type="whole" operator="between" sqref="B2:B9">
      <formula1>1</formula1>
      <formula2>10</formula2>
    </dataValidation>
    <dataValidation type="date" sqref="C3"/>
  </dataValidations>
  <after/>
</worksheet>"#;
    let mut reader = XmlReader::new(xml);
    let container = start_of(&mut reader, b"dataValidations");
    let list = XlsxDataValidations::load(&mut reader, &container).unwrap();
    assert_eq!(list.data_validations.len(), 3);
    assert_eq!(list.count, Some(3));
    let rules = DataValidation::from_raw_list(list);
    assert_eq!(rules.len(), 3);
    assert_eq!(rules[0].kind, text("list"));
    assert_eq!(rules[0].sqref, "A1");
    assert_eq!(rules[0].formula1, text("one"));
    assert_eq!(rules[1].kind, text("whole"));
    assert_eq!(rules[1].sqref, "B2:B9");
    assert_eq!(rules[1].operator, text("between"));
    assert_eq!(rules[1].formula1, text("1"));
    assert_eq!(rules[1].formula2, text("10"));
    assert_eq!(rules[2].kind, text("date"));
    assert_eq!(rules[2].sqref, "C3");
    assert_eq!(rules[2].formula1, None);
    // the cursor stands right after the container
    let next = start_of(&mut reader, b"after");
    assert_eq!(next.name, b"after".to_vec());
}

#[test]
fn absent_attributes_are_no_value_and_then_defaults() {
    let mut reader = XmlReader::new(b"<dataValidation unknown=\"x\"></dataValidation>");
    let tag = start_of(&mut reader, b"dataValidation");
    let raw = XlsxDataValidation::load(&mut reader, &tag).unwrap();
    assert_eq!(raw, XlsxDataValidation::empty());
    assert_eq!(raw.allow_blank, None);
    assert_eq!(raw.sqref, None);
    assert_eq!(raw.kind, None);
    let rule = DataValidation::from_raw(raw);
    assert!(!rule.allow_blank);
    assert!(!rule.show_drop_down);
    assert!(!rule.show_error_message);
    assert!(!rule.show_input_message);
    assert_eq!(rule.sqref, "");
    assert_eq!(rule.kind, None);
    assert_eq!(rule.prompt, None);
    assert_eq!(rule.formula1, None);
}

#[test]
fn every_rule_attribute_is_read() {
    let xml = br#"<dataValidation allowBlank="true" error="bad value" errorTitle="Stop" operator="greaterThan" prompt="pick one" promptTitle="Hint" showDropDown="0" showErrorMessage="false" showInputMessage="1" sqref="A1 B2:C3" type="decimal"><formula2>=2</formula2></dataValidation>"#;
    let mut reader = XmlReader::new(xml);
    let tag = start_of(&mut reader, b"dataValidation");
    let raw = XlsxDataValidation::load(&mut reader, &tag).unwrap();
    assert_eq!(
        raw,
        XlsxDataValidation {
            formula1: None,
            formula2: text("=2"),
            allow_blank: Some(true),
            error_message: text("bad value"),
            error_title: text("Stop"),
            operator: text("greaterThan"),
            prompt: text("pick one"),
            prompt_title: text("Hint"),
            show_drop_down: Some(false),
            show_error_message: Some(false),
            show_input_message: Some(true),
            sqref: text("A1 B2:C3"),
            kind: text("decimal"),
        }
    );
}

#[test]
fn a_flag_in_no_accepted_spelling_is_no_value() {
    let xml = br#"<dataValidation allowBlank="yes" showDropDown="TRUE" showInputMessage="" sqref="A1"/>"#;
    let mut reader = XmlReader::new(xml);
    let tag = start_of(&mut reader, b"dataValidation");
    let raw = XlsxDataValidation::load(&mut reader, &tag).unwrap();
    assert_eq!(raw.allow_blank, None);
    assert_eq!(raw.show_drop_down, None);
    assert_eq!(raw.show_input_message, None);
    assert_eq!(raw.sqref, text("A1"));
}

#[test]
fn self_closing_formula_is_the_empty_string() {
    let xml = b"<dataValidation type=\"list\"><formula1/><formula2></formula2></dataValidation>";
    let mut reader = XmlReader::new(xml);
    let tag = start_of(&mut reader, b"dataValidation");
    let raw = XlsxDataValidation::load(&mut reader, &tag).unwrap();
    assert_eq!(raw.formula1, text(""));
    assert_eq!(raw.formula2, text(""));
    let rule = DataValidation::from_raw(raw);
    assert_eq!(rule.formula1, text(""));
    assert_eq!(rule.formula2, text(""));
}

#[test]
fn formula_text_is_kept_as_written() {
    let xml = b"<dataValidation><formula1>A1&amp;\"x\" &lt; 3</formula1></dataValidation>";
    let mut reader = XmlReader::new(xml);
    let tag = start_of(&mut reader, b"dataValidation");
    let raw = XlsxDataValidation::load(&mut reader, &tag).unwrap();
    assert_eq!(raw.formula1, text("A1&amp;\"x\" &lt; 3"));
}

#[test]
fn load_formula_reads_the_first_text() {
    let mut reader = XmlReader::new(b"<formula1><!-- note -->SUM(A1:A3)</formula1><next/>");
    start_of(&mut reader, b"formula1");
    let formula =
        XlsxDataValidation::load_formula(&mut reader, excel_reader::error::Element::Formula1);
    assert_eq!(formula, Ok(String::from("SUM(A1:A3)")));
}

#[test]
fn names_with_a_prefix_are_read_by_their_local_part() {
    let xml = br#"<x:dataValidations xmlns:x="urn:x"><x:dataValidation x:type="list" x:sqref="D4"><x:formula1>a,b</x:formula1></x:dataValidation></x:dataValidations>"#;
    let mut reader = XmlReader::new(xml);
    let container = start_of(&mut reader, b"dataValidations");
    let list = XlsxDataValidations::load(&mut reader, &container).unwrap();
    assert_eq!(list.data_validations.len(), 1);
    assert_eq!(list.data_validations[0].kind, text("list"));
    assert_eq!(list.data_validations[0].sqref, text("D4"));
    assert_eq!(list.data_validations[0].formula1, text("a,b"));
}

#[test]
fn text_beyond_ascii_is_decoded() {
    let xml = "<dataValidation prompt=\"Größe wählen\" error=\"日本語\"/>".as_bytes();
    let mut reader = XmlReader::new(xml);
    let tag = start_of(&mut reader, b"dataValidation");
    let raw = XlsxDataValidation::from_tag(&tag).unwrap();
    assert_eq!(raw.prompt, text("Größe wählen"));
    assert_eq!(raw.error_message, text("日本語"));
}

#[test]
fn sheet_views_with_and_without_pane() {
    let xml = br#"<sheetViews>
  <sheetView tabSelected="1" workbookViewId="0">
    <pane xSplit="2310" ySplit="2070" topLeftCell="C1" activePane="bottomRight"/>
    <selection/>
    <selection pane="bottomLeft" activeCell="A6" sqref="A6"/>
  </sheetView>
  <sheetView workbookViewId="1"/>
</sheetViews>"#;
    let mut reader = XmlReader::new(xml);
    start_of(&mut reader, b"sheetViews");
    let views = load_sheet_views(&mut reader).unwrap();
    assert_eq!(views.len(), 2);
    let pane = views[0].pane.clone().unwrap();
    assert_eq!(pane.x_split, text("2310"));
    assert_eq!(pane.active_pane, text("bottomRight"));
    assert_eq!(views[1], XlsxSheetView { pane: None });
    assert!(matches!(reader.next_event(), XmlEvent::Eof));
}

#[test]
fn the_subtree_of_a_pane_is_skipped() {
    let xml = br#"<sheetView><pane state="frozen"><pane state="split"><x/></pane><y>text</y></pane><selection/></sheetView>"#;
    let mut reader = XmlReader::new(xml);
    let tag = start_of(&mut reader, b"sheetView");
    let view = XlsxSheetView::load(&mut reader, &tag).unwrap();
    assert_eq!(view.pane.unwrap().state, text("frozen"));
    assert!(matches!(reader.next_event(), XmlEvent::Eof));
}

#[test]
fn of_two_panes_the_last_one_stays() {
    let xml = br#"<sheetView><pane state="frozen"/><pane state="split" xSplit="1"/></sheetView>"#;
    let mut reader = XmlReader::new(xml);
    let tag = start_of(&mut reader, b"sheetView");
    let view = XlsxSheetView::load(&mut reader, &tag).unwrap();
    let pane = view.pane.unwrap();
    assert_eq!(pane.state, text("split"));
    assert_eq!(pane.x_split, text("1"));
}

#[test]
fn pane_numbers_and_flags() {
    let xml = br#"<pane xSplit="1.5e3" ySplit="abc" splitHorizontal="12" splitVertical="-3" thinHorizontal="true" thinVertical="maybe" state="frozenSplit"/>"#;
    let mut reader = XmlReader::new(xml);
    let tag = start_of(&mut reader, b"pane");
    let pane = XlsxPane::load(&tag).unwrap();
    assert_eq!(pane.x_split.as_deref().map(|t| t.parse::<f64>()), Some(Ok(1500.0)));
    assert_eq!(pane.y_split, None);
    assert_eq!(pane.split_horizontal, Some(12));
    assert_eq!(pane.split_vertical, None);
    assert_eq!(pane.thin_horizontal, Some(true));
    assert_eq!(pane.thin_vertical, None);
    assert_eq!(pane.state, text("frozenSplit"));
}

#[test]
fn pane_flags_take_the_four_spellings() {
    let mut reader = XmlReader::new(b"<pane thinHorizontal=\"1\" thinVertical=\"0\"/>");
    let tag = start_of(&mut reader, b"pane");
    let pane = XlsxPane::load(&tag).unwrap();
    assert_eq!(pane.thin_horizontal, Some(true));
    assert_eq!(pane.thin_vertical, Some(false));
}

#[test]
fn a_pane_value_that_is_none_leaves_the_earlier_one() {
    let xml = br#"<pane a:splitHorizontal="7" b:splitHorizontal="x" a:state="s1" b:state="s2"/>"#;
    let mut reader = XmlReader::new(xml);
    let tag = start_of(&mut reader, b"pane");
    let pane = XlsxPane::load(&tag).unwrap();
    assert_eq!(pane.split_horizontal, Some(7));
    assert_eq!(pane.state, text("s2"));
}

#[test]
fn a_rule_flag_that_is_none_replaces_the_earlier_one() {
    let xml = br#"<dataValidation a:allowBlank="1" b:allowBlank="x" a:sqref="A1" b:sqref="B2"/>"#;
    let mut reader = XmlReader::new(xml);
    let tag = start_of(&mut reader, b"dataValidation");
    let raw = XlsxDataValidation::from_tag(&tag).unwrap();
    assert_eq!(raw.allow_blank, None);
    assert_eq!(raw.sqref, text("B2"));
}

#[test]
fn empty_pane_has_no_value_at_all() {
    let mut reader = XmlReader::new(b"<pane/>");
    let tag = start_of(&mut reader, b"pane");
    assert_eq!(XlsxPane::load(&tag), Ok(XlsxPane::empty()));
    assert_eq!(XlsxPane::empty().x_split, None);
    assert_eq!(XlsxPane::empty().thin_vertical, None);
}

#[test]
fn what_a_rule_does_not_know_is_passed_over() {
    let xml = br#"<dataValidation type="list" sqref="A1">
  <!-- a comment -->
  <?pi target?>
  <extLst><ext uri="x"><formula>not read</formula>text</ext></extLst>
  stray text
  <formula1>kept</formula1>
  <![CDATA[<formula2>not markup</formula2>]]>
</dataValidation>"#;
    let mut reader = XmlReader::new(xml);
    let tag = start_of(&mut reader, b"dataValidation");
    let raw = XlsxDataValidation::load(&mut reader, &tag).unwrap();
    assert_eq!(raw.formula1, text("kept"));
    assert_eq!(raw.formula2, None);
    assert_eq!(raw.kind, text("list"));
    assert_eq!(raw.sqref, text("A1"));
}

#[test]
fn what_a_container_does_not_know_is_passed_over() {
    let xml = br#"<dataValidations disablePrompts="1">
  text
  <other><formula1>x</formula1></other>
  <dataValidation sqref="A1"/>
  <!-- between -->
  <dataValidation sqref="B2"/>
</dataValidations>"#;
    let mut reader = XmlReader::new(xml);
    let container = start_of(&mut reader, b"dataValidations");
    let list = XlsxDataValidations::load(&mut reader, &container).unwrap();
    assert_eq!(list.data_validations.len(), 2);
    assert_eq!(list.data_validations[0].sqref, text("A1"));
    assert_eq!(list.data_validations[1].sqref, text("B2"));
}

#[test]
fn of_two_formulas_of_one_name_the_last_one_stays() {
    let xml = b"<dataValidation><formula1>first</formula1><formula1>second</formula1></dataValidation>";
    let mut reader = XmlReader::new(xml);
    let tag = start_of(&mut reader, b"dataValidation");
    let raw = XlsxDataValidation::load(&mut reader, &tag).unwrap();
    assert_eq!(raw.formula1, text("second"));
}

#[test]
fn a_formula_is_the_first_text_in_it() {
    let xml = b"<dataValidation><formula1><r>deep</r> later</formula1><formula2> A1 </formula2></dataValidation>";
    let mut reader = XmlReader::new(xml);
    let tag = start_of(&mut reader, b"dataValidation");
    let raw = XlsxDataValidation::load(&mut reader, &tag).unwrap();
    assert_eq!(raw.formula1, text("deep"));
    assert_eq!(raw.formula2, text(" A1 "));
}

#[test]
fn a_formula_of_character_data_alone_is_empty() {
    let xml = b"<dataValidation><formula1><![CDATA[A1]]></formula1></dataValidation>";
    let mut reader = XmlReader::new(xml);
    let tag = start_of(&mut reader, b"dataValidation");
    let raw = XlsxDataValidation::load(&mut reader, &tag).unwrap();
    assert_eq!(raw.formula1, text(""));
}

#[test]
fn a_formula_ends_at_its_own_end_tag_only() {
    let mut reader = XmlReader::new(b"<formula1><formula2></formula2>text</formula1>");
    start_of(&mut reader, b"formula1");
    let formula =
        XlsxDataValidation::load_formula(&mut reader, excel_reader::error::Element::Formula1);
    assert_eq!(formula, Ok(String::from("text")));
}

#[test]
fn the_processed_list_keeps_number_and_order() {
    let rule = |sqref: &str| XlsxDataValidation { sqref: text(sqref), ..XlsxDataValidation::empty() };
    let raw = XlsxDataValidations {
        data_validations: vec![rule("C3"), rule("A1"), rule("B2"), rule("A1")],
        count: None,
    };
    let rules = DataValidation::from_raw_list(raw);
    let order: Vec<&str> = rules.iter().map(|r| r.sqref.as_str()).collect();
    assert_eq!(order, vec!["C3", "A1", "B2", "A1"]);
}

#[test]
fn processed_values_are_the_raw_ones() {
    let raw = XlsxDataValidation {
        formula1: text("f1"),
        formula2: text(""),
        allow_blank: Some(false),
        error_message: text("e"),
        error_title: None,
        operator: text("equal"),
        prompt: None,
        prompt_title: text("pt"),
        show_drop_down: Some(true),
        show_error_message: None,
        show_input_message: Some(true),
        sqref: text(""),
        kind: text("custom"),
    };
    assert_eq!(
        DataValidation::from_raw(raw),
        DataValidation {
            allow_blank: false,
            error_message: text("e"),
            error_title: None,
            formula1: text("f1"),
            formula2: text(""),
            operator: text("equal"),
            prompt: None,
            prompt_title: text("pt"),
            show_drop_down: true,
            show_error_message: false,
            show_input_message: true,
            sqref: String::new(),
            kind: text("custom"),
        }
    );
}

#[test]
fn the_count_of_a_container_is_read() {
    let xml = br#"<dataValidations count="1"><dataValidation sqref="A1"></dataValidation></dataValidations>"#;
    let mut reader = XmlReader::new(xml);
    let container = start_of(&mut reader, b"dataValidations");
    assert_eq!(XlsxDataValidations::count_of(&container), Ok(Some(1)));
    let list = XlsxDataValidations::load(&mut reader, &container).unwrap();
    assert_eq!(list.count, Some(1));
    assert_eq!(list.data_validations.len(), 1);
    assert_eq!(list.data_validations[0].sqref, text("A1"));
}

#[test]
fn a_container_without_count_has_none() {
    let xml = br#"<dataValidations disablePrompts="1" xWindow="7"><dataValidation sqref="A1"/></dataValidations>"#;
    let mut reader = XmlReader::new(xml);
    let container = start_of(&mut reader, b"dataValidations");
    let list = XlsxDataValidations::load(&mut reader, &container).unwrap();
    assert_eq!(list.count, None);
    assert_eq!(list.data_validations.len(), 1);
}

#[test]
fn the_count_is_what_is_written_not_what_is_held() {
    let xml = br#"<dataValidations count="18446744073709551615"><dataValidation/></dataValidations>"#;
    let mut reader = XmlReader::new(xml);
    let container = start_of(&mut reader, b"dataValidations");
    let list = XlsxDataValidations::load(&mut reader, &container).unwrap();
    assert_eq!(list.count, Some(u64::MAX));
    assert_eq!(list.data_validations.len(), 1);
}

#[test]
fn a_count_that_is_no_number_is_no_value() {
    for written in ["", "two", "-1", "1.0", " 1", "18446744073709551616"] {
        let xml = format!("<dataValidations count=\"{}\"/>", written);
        let mut reader = XmlReader::new(xml.as_bytes());
        let container = start_of(&mut reader, b"dataValidations");
        let list = XlsxDataValidations::load(&mut reader, &container).unwrap();
        assert_eq!(list.count, None, "{:?}", written);
    }
    let mut reader = XmlReader::new(b"<dataValidations count=\"+12\"/>");
    let container = start_of(&mut reader, b"dataValidations");
    assert_eq!(XlsxDataValidations::load(&mut reader, &container).unwrap().count, Some(12));
}

#[test]
fn of_two_counts_the_last_one_decides() {
    let mut reader = XmlReader::new(b"<x:dataValidations a:count=\"4\" b:count=\"x\"/>");
    let container = start_of(&mut reader, b"dataValidations");
    assert_eq!(XlsxDataValidations::count_of(&container), Ok(None));
    let mut reader = XmlReader::new(b"<x:dataValidations a:count=\"x\" b:count=\"5\"/>");
    let container = start_of(&mut reader, b"dataValidations");
    assert_eq!(XlsxDataValidations::count_of(&container), Ok(Some(5)));
}

#[test]
fn an_absent_type_is_told_from_an_empty_one() {
    let mut reader = XmlReader::new(b"<dataValidation sqref=\"A1\"/>");
    let tag = start_of(&mut reader, b"dataValidation");
    let absent = DataValidation::from_raw(XlsxDataValidation::load(&mut reader, &tag).unwrap());
    assert_eq!(absent.kind, None);

    let mut reader = XmlReader::new(b"<dataValidation type=\"\" sqref=\"A1\"/>");
    let tag = start_of(&mut reader, b"dataValidation");
    let empty = DataValidation::from_raw(XlsxDataValidation::load(&mut reader, &tag).unwrap());
    assert_eq!(empty.kind, text(""));
    assert_ne!(absent, empty);
}
