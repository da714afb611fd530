//! Attribute text to booleans and numbers.

use excel_reader::literal::is_float_text;
use excel_reader::text::{bytes_eq, string_to_bool, string_to_unsignedint, text_is};

#[test]
fn booleans_in_the_four_spellings() {
    assert_eq!(string_to_bool("1"), Some(true));
    assert_eq!(string_to_bool("true"), Some(true));
    assert_eq!(string_to_bool("0"), Some(false));
    assert_eq!(string_to_bool("false"), Some(false));
}

#[test]
fn other_text_is_no_boolean() {
    for text in ["", " ", "True", "TRUE", "False", "yes", "no", "2", "01", "1 ", " 0", "t", "f", "truee", "on"] {
        assert_eq!(string_to_bool(text), None, "{:?}", text);
    }
}

#[test]
fn unsigned_integers() {
    assert_eq!(string_to_unsignedint("0"), Some(0));
    assert_eq!(string_to_unsignedint("7"), Some(7));
    assert_eq!(string_to_unsignedint("2310"), Some(2310));
    assert_eq!(string_to_unsignedint("+42"), Some(42));
    assert_eq!(string_to_unsignedint("000123"), Some(123));
    assert_eq!(string_to_unsignedint("18446744073709551615"), Some(u64::MAX));
    assert_eq!(string_to_unsignedint("+18446744073709551615"), Some(u64::MAX));
    assert_eq!(string_to_unsignedint("0000000000000000000000000000000000000001"), Some(1));
}

#[test]
fn text_that_is_no_unsigned_integer() {
    assert_eq!(string_to_unsignedint(""), None);
    assert_eq!(string_to_unsignedint("+"), None);
    assert_eq!(string_to_unsignedint("-"), None);
    assert_eq!(string_to_unsignedint("-1"), None);
    assert_eq!(string_to_unsignedint("-0"), None);
    assert_eq!(string_to_unsignedint("++1"), None);
    assert_eq!(string_to_unsignedint("1+"), None);
    assert_eq!(string_to_unsignedint("1.0"), None);
    assert_eq!(string_to_unsignedint("1e3"), None);
    assert_eq!(string_to_unsignedint(" 1"), None);
    assert_eq!(string_to_unsignedint("1 "), None);
    assert_eq!(string_to_unsignedint("1_000"), None);
    assert_eq!(string_to_unsignedint("0x10"), None);
    assert_eq!(string_to_unsignedint("12a"), None);
    assert_eq!(string_to_unsignedint("\u{0661}"), None);
    assert_eq!(string_to_unsignedint("1\u{00e9}"), None);
}

#[test]
fn unsigned_integers_too_large_are_no_value() {
    assert_eq!(string_to_unsignedint("18446744073709551616"), None);
    assert_eq!(string_to_unsignedint("18446744073709551620"), None);
    assert_eq!(string_to_unsignedint("99999999999999999999"), None);
    assert_eq!(string_to_unsignedint("184467440737095516150"), None);
    assert_eq!(string_to_unsignedint("100000000000000000000000000000"), None);
}

#[test]
fn unsigned_integers_as_the_standard_library_reads_them() {
    let samples = [
        "", "0", "1", "+1", "-1", "+", "-", "+0", "-0", "00", "12345678901234567890",
        "18446744073709551615", "18446744073709551616", "28446744073709551615", " 5", "5 ", "5\n",
        "+-5", "5+5", "1.", ".1", "1e1", "\u{ff11}", "१२", "9223372036854775808",
    ];
    for text in samples {
        assert_eq!(string_to_unsignedint(text), text.parse::<u64>().ok(), "{:?}", text);
    }
}

#[test]
fn text_that_writes_a_floating_point_number() {
    for text in [
        "0", "2310", "2070", "-1", "+1", "1.", ".5", "-.5", "+.5", "1.5", "001.500", "1e5", "1E5",
        "1e+5", "1e-5", "1.e5", ".5e5", "1.5E-10", "inf", "Inf", "INF", "+inf", "-inf", "infinity",
        "Infinity", "INFINITY", "-iNfInItY", "nan", "NaN", "NAN", "+nan", "-nan", "1e0000000005",
        "123456789012345678901234567890", "0.000000000000000000000000000001", "1e999",
    ] {
        assert!(is_float_text(text), "{:?}", text);
    }
}

#[test]
fn text_that_writes_no_floating_point_number() {
    for text in [
        "", "+", "-", ".", "+.", "-.", "e", "e5", ".e5", "1e", "1e+", "1e-", "1e+-5", "1e5.5",
        "1.5.2", "++1", "--1", "+-1", " 1", "1 ", "1\n", "1_0", "0x10", "1f", "1f64", "abc",
        "in", "infi", "infinit", "infinityy", "inff", "na", "nann", "n", "i", "1inf", "inf1",
        "1,5", "\u{0661}", "1\u{00e9}", "\u{ff11}", "+ 1", "1 e5", "1e 5", "..1", "1..",
    ] {
        assert!(!is_float_text(text), "{:?}", text);
    }
}

#[test]
fn floating_point_text_as_the_standard_library_reads_it() {
    let samples = [
        "", "0", "-0", "+0", "1.", ".1", ".", "+.", "1e1", "1E1", "1e", "e1", "1e+1", "1e-1", "1e+",
        "1.e1", ".e1", ".1e1", "1.1e1.1", "inf", "+inf", "-inf", "infinity", "+infinity", "INFINITY",
        "Infinit", "nan", "NaN", "-NaN", "+NAN", "nane", " 1", "1 ", "1_0", "0x1", "1d", "--1",
        "+-1", "2310", "2070.25", "1e400", "1e-400", "\u{ff11}", "1\u{00e9}", "i", "n", "in", "na",
        "infinityinf", "12e", "12e5e", "12.5e+05", "+", "-", "e", "E", "+e5", "-.e",
    ];
    for text in samples {
        assert_eq!(is_float_text(text), text.parse::<f64>().is_ok(), "{:?}", text);
    }
}

#[test]
fn byte_strings_and_texts_compare_by_content() {
    assert!(bytes_eq(b"", b""));
    assert!(bytes_eq(b"sqref", b"sqref"));
    assert!(!bytes_eq(b"sqref", b"sqreF"));
    assert!(!bytes_eq(b"sqref", b"sqre"));
    assert!(!bytes_eq(b"", b"a"));
    assert!(text_is("true", "true"));
    assert!(!text_is("true", "True"));
    assert!(text_is("", ""));
    assert!(!text_is("gr\u{00f6}\u{00df}e", "grosse"));
    assert!(text_is("gr\u{00f6}\u{00df}e", "gr\u{00f6}\u{00df}e"));
}
