//! The textual grammar of a floating-point attribute.
//!
//! The library holds such an attribute as the text that writes it, once the
//! text is known to follow the grammar; to turn it into a machine number is
//! left to the caller.

use crate::text::is_digit;
use vstd::prelude::*;
use vstd::utf8::is_ascii_chars;

verus! {

/// True for the two signs.
pub open spec fn is_sign(c: char) -> bool {
    c == '+' || c == '-'
}

/// An ASCII capital as its small letter; any other character as it is.
pub open spec fn lower(c: char) -> char {
    if 'A' <= c <= 'Z' {
        ((c as u8 + 32) as u8) as char
    } else {
        c
    }
}

/// The number of decimal digits that `text` holds from index `from` on, up
/// to the first character that is no digit.
pub open spec fn digit_run(text: Seq<char>, from: int) -> nat
    decreases text.len() - from,
{
    if 0 <= from < text.len() && is_digit(text[from]) {
        1 + digit_run(text, from + 1)
    } else {
        0
    }
}

/// Whether `text` from index `from` on is `word`, capitals and small letters
/// taken as the same. `word` is written in small letters.
pub open spec fn is_word(text: Seq<char>, from: int, word: Seq<char>) -> bool {
    &&& text.len() - from == word.len()
    &&& forall|i: int| 0 <= i < word.len() ==> lower(text[from + i]) == #[trigger] word[i]
}

/// Whether `text` ends at index `from` or goes on with an exponent and no
/// more: `e` or `E`, an optional sign, one or more digits.
pub open spec fn exponent_or_end(text: Seq<char>, from: int) -> bool {
    from == text.len() || {
        let digits = if from + 1 < text.len() && is_sign(text[from + 1]) {
            from + 2
        } else {
            from + 1
        };
        &&& 0 <= from < text.len()
        &&& text[from] == 'e' || text[from] == 'E'
        &&& digit_run(text, digits) > 0
        &&& digits + digit_run(text, digits) == text.len()
    }
}

/// Whether `text` from index `from` on is a decimal number: digits with an
/// optional point among, before or after them, at least one digit in all,
/// then an optional exponent.
pub open spec fn is_number(text: Seq<char>, from: int) -> bool {
    let whole = digit_run(text, from);
    let point = from + whole;
    if point < text.len() && text[point] == '.' {
        let fraction = digit_run(text, point + 1);
        whole + fraction > 0 && exponent_or_end(text, point + 1 + fraction)
    } else {
        whole > 0 && exponent_or_end(text, point)
    }
}

/// The index of the first character of `text` after an optional sign.
pub open spec fn after_sign(text: Seq<char>) -> int {
    if text.len() > 0 && is_sign(text[0]) {
        1
    } else {
        0
    }
}

/// Whether `text` writes a floating-point number: an optional sign, then
/// `inf`, `infinity` or `nan` in any mix of capitals, or a decimal number.
pub open spec fn is_float_literal(text: Seq<char>) -> bool {
    let from = after_sign(text);
    ||| is_word(text, from, "inf"@)
    ||| is_word(text, from, "infinity"@)
    ||| is_word(text, from, "nan"@)
    ||| is_number(text, from)
}

/// `bytes` holds the characters of the ASCII text `chars`, one byte each.
pub open spec fn spells(bytes: Seq<u8>, chars: Seq<char>) -> bool {
    &&& bytes.len() == chars.len()
    &&& forall|i: int| 0 <= i < chars.len() ==> '\0' <= #[trigger] chars[i] <= '\u{7f}'
    &&& forall|i: int| 0 <= i < chars.len() ==> #[trigger] bytes[i] == chars[i] as u8
}

/// A run of digits holds digits only, and ends within the text.
pub proof fn lemma_digit_run(text: Seq<char>, from: int)
    requires
        0 <= from,
    ensures
        from + digit_run(text, from) <= text.len() || digit_run(text, from) == 0,
        forall|j: int| from <= j < from + digit_run(text, from) ==> is_digit(#[trigger] text[j]),
        from + digit_run(text, from) < text.len() ==> !is_digit(
            text[from + digit_run(text, from)],
        ),
    decreases text.len() - from,
{
    if from < text.len() && is_digit(text[from]) {
        lemma_digit_run(text, from + 1);
    }
}

/// Text that writes a floating-point number is ASCII.
pub proof fn lemma_float_literal_is_ascii(text: Seq<char>)
    requires
        is_float_literal(text),
    ensures
        is_ascii_chars(text),
{
    reveal_strlit("inf");
    reveal_strlit("infinity");
    reveal_strlit("nan");
    let from = after_sign(text);
    assert forall|i: int| 0 <= i < text.len() implies '\0' <= #[trigger] text[i] <= '\u{7f}' by {
        if i < from {
            // the sign
        } else if is_word(text, from, "inf"@) {
            assert(lower(text[from + (i - from)]) == "inf"@[i - from]);
        } else if is_word(text, from, "infinity"@) {
            assert(lower(text[from + (i - from)]) == "infinity"@[i - from]);
        } else if is_word(text, from, "nan"@) {
            assert(lower(text[from + (i - from)]) == "nan"@[i - from]);
        } else {
            // a number: digits, a point, digits, and an exponent
            let whole = digit_run(text, from);
            let point = from + whole;
            lemma_digit_run(text, from);
            let exponent = if point < text.len() && text[point] == '.' {
                lemma_digit_run(text, point + 1);
                point + 1 + digit_run(text, point + 1)
            } else {
                point
            };
            if i > exponent {
                let digits = if exponent + 1 < text.len() && is_sign(text[exponent + 1]) {
                    exponent + 2
                } else {
                    exponent + 1
                };
                lemma_digit_run(text, digits);
            }
        }
    }
}

/// Counts the digits of `bytes` from index `from` on.
fn count_digits(bytes: &[u8], from: usize, Ghost(chars): Ghost<Seq<char>>) -> (run: usize)
    requires
        spells(bytes@, chars),
        from <= bytes@.len(),
    ensures
        run == digit_run(chars, from as int),
        from + run <= bytes@.len(),
{
    let mut at: usize = from;
    while at < bytes.len() && 48u8 <= bytes[at] && bytes[at] <= 57u8
        invariant
            spells(bytes@, chars),
            from <= at <= bytes@.len(),
            digit_run(chars, from as int) == (at - from) + digit_run(chars, at as int),
        decreases bytes@.len() - at,
    {
        at = at + 1;
    }
    at - from
}

/// Whether `bytes` from index `from` on is `word`, capitals and small
/// letters taken as the same.
fn word_at(bytes: &[u8], from: usize, word: &str, Ghost(chars): Ghost<Seq<char>>) -> (same: bool)
    requires
        spells(bytes@, chars),
        from <= bytes@.len(),
        is_ascii_chars(word@),
    ensures
        same == is_word(chars, from as int, word@),
{
    let letters = word.as_bytes();
    proof {
        vstd::string::is_ascii_spec_bytes(word);
    }
    if bytes.len() - from != letters.len() {
        return false;
    }
    let mut i: usize = 0;
    while i < letters.len()
        invariant
            spells(bytes@, chars),
            spells(letters@, word@),
            from + letters@.len() == bytes@.len(),
            bytes@.len() <= usize::MAX,
            0 <= i <= letters@.len(),
            forall|j: int| 0 <= j < i ==> lower(chars[from + j]) == #[trigger] word@[j],
        decreases letters@.len() - i,
    {
        let b: u8 = bytes[from + i];
        let small: u8 = if 65u8 <= b && b <= 90u8 {
            b + 32u8
        } else {
            b
        };
        if small != letters[i] {
            return false;
        }
        i = i + 1;
    }
    true
}

/// Whether `bytes` ends at index `from` or goes on with an exponent and no more.
fn exponent_or_end_at(bytes: &[u8], from: usize, Ghost(chars): Ghost<Seq<char>>) -> (ok: bool)
    requires
        spells(bytes@, chars),
        from <= bytes@.len(),
    ensures
        ok == exponent_or_end(chars, from as int),
{
    if from == bytes.len() {
        return true;
    }
    if bytes[from] != 101u8 && bytes[from] != 69u8 {
        return false;
    }
    let digits: usize = if from + 1 < bytes.len() && (bytes[from + 1] == 43u8 || bytes[from + 1]
        == 45u8) {
        from + 2
    } else {
        from + 1
    };
    let run = count_digits(bytes, digits, Ghost(chars));
    run > 0 && digits + run == bytes.len()
}

/// Whether `text` writes a floating-point number.
pub fn is_float_text(text: &str) -> (ok: bool)
    ensures
        ok == is_float_literal(text@),
{
    if !text.is_ascii() {
        proof {
            if is_float_literal(text@) {
                lemma_float_literal_is_ascii(text@);
            }
        }
        return false;
    }
    let bytes = text.as_bytes();
    let ghost chars = text@;
    proof {
        vstd::string::is_ascii_spec_bytes(text);
        reveal_strlit("inf");
        reveal_strlit("infinity");
        reveal_strlit("nan");
    }
    let from: usize = if bytes.len() > 0 && (bytes[0] == 43u8 || bytes[0] == 45u8) {
        1
    } else {
        0
    };
    if word_at(bytes, from, "inf", Ghost(chars)) || word_at(bytes, from, "infinity", Ghost(chars))
        || word_at(bytes, from, "nan", Ghost(chars)) {
        return true;
    }
    let whole = count_digits(bytes, from, Ghost(chars));
    let point = from + whole;
    if point < bytes.len() && bytes[point] == 46u8 {
        let fraction = count_digits(bytes, point + 1, Ghost(chars));
        whole + fraction > 0 && exponent_or_end_at(bytes, point + 1 + fraction, Ghost(chars))
    } else {
        whole > 0 && exponent_or_end_at(bytes, point, Ghost(chars))
    }
}

} // verus!
