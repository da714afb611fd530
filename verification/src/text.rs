//! Scalar coercion of attribute text.
//!
//! Attribute text that does not match the expected encoding is no value,
//! never an error: one odd optional attribute must not abort a worksheet.

use vstd::prelude::*;
use vstd::utf8::{decode_utf8, encode_utf8, valid_utf8};

verus! {

/// The view of an optional string.
pub open spec fn text_view(text: Option<String>) -> Option<Seq<char>> {
    match text {
        Some(t) => Some(t@),
        None => None,
    }
}

/// The boolean that attribute text stands for: `1` and `true` are true, `0`
/// and `false` are false, in exactly that spelling.
pub open spec fn bool_of_text(text: Seq<char>) -> Option<bool> {
    if text == "1"@ || text == "true"@ {
        Some(true)
    } else if text == "0"@ || text == "false"@ {
        Some(false)
    } else {
        None
    }
}

/// True for the ten decimal digits.
pub open spec fn is_digit(c: char) -> bool {
    '0' <= c <= '9'
}

/// The number that a run of decimal digits writes, most significant first.
pub open spec fn decimal_value(digits: Seq<char>) -> nat
    decreases digits.len(),
{
    if digits.len() == 0 {
        0
    } else {
        10 * decimal_value(digits.drop_last()) + (digits.last() as nat - '0' as nat) as nat
    }
}

/// The digits of unsigned-integer text: the text without one leading `+`.
pub open spec fn unsigned_digits(text: Seq<char>) -> Seq<char> {
    if text.len() > 0 && text[0] == '+' {
        text.skip(1)
    } else {
        text
    }
}

/// The unsigned integer that attribute text stands for: an optional `+`, then
/// one or more decimal digits whose value fits in 64 bits.
pub open spec fn unsigned_of_text(text: Seq<char>) -> Option<u64> {
    let digits = unsigned_digits(text);
    if digits.len() > 0 && (forall|i: int| 0 <= i < digits.len() ==> is_digit(#[trigger] digits[i]))
        && decimal_value(digits) <= u64::MAX {
        Some(decimal_value(digits) as u64)
    } else {
        None
    }
}

/// Two character sequences with the same UTF-8 encoding are the same.
pub proof fn lemma_encoding_is_injective(a: Seq<char>, b: Seq<char>)
    requires
        encode_utf8(a) == encode_utf8(b),
    ensures
        a == b,
{
    vstd::utf8::encode_utf8_decode_utf8(a);
    vstd::utf8::encode_utf8_decode_utf8(b);
}

/// A longer run of digits never writes a smaller number than its prefix.
pub proof fn lemma_decimal_value_grows(digits: Seq<char>, k: int)
    requires
        0 <= k <= digits.len(),
        forall|i: int| 0 <= i < digits.len() ==> is_digit(#[trigger] digits[i]),
    ensures
        decimal_value(digits.take(k)) <= decimal_value(digits),
    decreases digits.len() - k,
{
    if k < digits.len() {
        let longer = digits.take(k + 1);
        assert(longer.drop_last() =~= digits.take(k));
        lemma_decimal_value_grows(digits, k + 1);
    } else {
        assert(digits.take(k) =~= digits);
    }
}

/// Whether two byte strings hold the same bytes.
pub fn bytes_eq(a: &[u8], b: &[u8]) -> (same: bool)
    ensures
        same == (a@ == b@),
{
    if a.len() != b.len() {
        return false;
    }
    let mut i: usize = 0;
    while i < a.len()
        invariant
            a@.len() == b@.len(),
            0 <= i <= a@.len(),
            forall|j: int| 0 <= j < i ==> a@[j] == b@[j],
        decreases a@.len() - i,
    {
        if a[i] != b[i] {
            return false;
        }
        i = i + 1;
    }
    assert(a@ =~= b@);
    true
}

/// Whether `text` is exactly `word`.
pub fn text_is(text: &str, word: &str) -> (same: bool)
    ensures
        same == (text@ == word@),
{
    let same = bytes_eq(text.as_bytes(), word.as_bytes());
    proof {
        if same {
            lemma_encoding_is_injective(text@, word@);
        }
    }
    same
}

/// Coerces attribute text to a boolean; text in no accepted spelling is no value.
pub fn string_to_bool(text: &str) -> (value: Option<bool>)
    ensures
        value == bool_of_text(text@),
        text@ == "1"@ || text@ == "true"@ ==> value == Some(true),
        text@ == "0"@ || text@ == "false"@ ==> value == Some(false),
        text@ != "1"@ && text@ != "true"@ && text@ != "0"@ && text@ != "false"@ ==> value is None,
{
    proof {
        reveal_strlit("1");
        reveal_strlit("true");
        reveal_strlit("0");
        reveal_strlit("false");
        assert("1"@[0] != "0"@[0]);
        assert("true"@[0] != "false"@[0]);
    }
    if text_is(text, "1") || text_is(text, "true") {
        Some(true)
    } else if text_is(text, "0") || text_is(text, "false") {
        Some(false)
    } else {
        None
    }
}

/// Coerces attribute text to an unsigned integer; text that is no such number,
/// or one too large for 64 bits, is no value.
pub fn string_to_unsignedint(text: &str) -> (value: Option<u64>)
    ensures
        value == unsigned_of_text(text@),
{
    if !text.is_ascii() {
        proof {
            // a character beyond ASCII is neither the sign nor a digit
            let i = choose|i: int|
                0 <= i < text@.len() && !('\0' <= #[trigger] text@[i] <= '\u{7f}');
            let digits = unsigned_digits(text@);
            let at = if text@[0] == '+' {
                i - 1
            } else {
                i
            };
            assert(!is_digit(digits[at]));
        }
        return None;
    }
    let bytes = text.as_bytes();
    proof {
        vstd::string::is_ascii_spec_bytes(text);
    }
    let start: usize = if bytes.len() > 0 && bytes[0] == 43u8 { 1 } else { 0 };
    let ghost digits = unsigned_digits(text@);
    if start == bytes.len() {
        return None;
    }
    let mut i: usize = start;
    let mut value: u64 = 0;
    while i < bytes.len()
        invariant
            start <= i <= bytes@.len(),
            bytes@.len() == text@.len(),
            digits == unsigned_digits(text@),
            digits == text@.skip(start as int),
            forall|j: int| 0 <= j < bytes@.len() ==> bytes@[j] == (#[trigger] text@[j]) as u8,
            forall|j: int| 0 <= j < text@.len() ==> '\0' <= #[trigger] text@[j] <= '\u{7f}',
            forall|j: int| 0 <= j < i - start ==> is_digit(#[trigger] digits[j]),
            value == decimal_value(digits.take(i - start)),
        decreases bytes@.len() - i,
    {
        let b: u8 = bytes[i];
        if b < 48u8 || b > 57u8 {
            assert(!is_digit(digits[i - start]));
            return None;
        }
        let d: u64 = (b - 48u8) as u64;
        let ghost longer = digits.take(i - start + 1);
        assert(longer.drop_last() =~= digits.take(i - start));
        let next = match value.checked_mul(10) {
            Some(tens) => tens.checked_add(d),
            None => None,
        };
        match next {
            Some(n) => {
                value = n;
            },
            None => {
                proof {
                    if forall|j: int| 0 <= j < digits.len() ==> is_digit(#[trigger] digits[j]) {
                        lemma_decimal_value_grows(digits, i - start + 1);
                    }
                }
                return None;
            },
        }
        i = i + 1;
    }
    assert(digits.take(i - start) =~= digits);
    Some(value)
}

/// Decodes bytes as UTF-8 text; bytes that are no UTF-8 are no value.
///
/// Calls `String::from_utf8`: it accepts exactly the well-formed UTF-8 byte
/// strings, and the string it gives holds the characters they encode.
#[verifier::external_body]
pub(crate) fn decode_text(bytes: &[u8]) -> (text: Option<String>)
    ensures
        text is Some <==> valid_utf8(bytes@),
        text matches Some(t) ==> t@ == decode_utf8(bytes@),
{
    String::from_utf8(bytes.to_vec()).ok()
}

} // verus!
