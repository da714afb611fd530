//! The attribute phase that every element parser shares: the attribute list
//! of a start tag, decoded to text in document order.

use crate::cursor::local_name;
use crate::error::{outcome_view, Element, ParseError, ParseErrorView};
use crate::text::decode_text;
use crate::token::{local_part, AttributeView, XmlAttribute};
use vstd::prelude::*;
use vstd::utf8::{decode_utf8, valid_utf8};

verus! {

/// A decoded attribute: the local part of its name and its value as text.
#[derive(Debug, PartialEq, Eq)]
pub struct TextAttribute<'a> {
    pub key: &'a [u8],
    pub text: String,
}

/// The mathematical value of a [`TextAttribute`].
pub struct TextAttributeView {
    pub key: Seq<u8>,
    pub text: Seq<char>,
}

impl<'a> View for TextAttribute<'a> {
    type V = TextAttributeView;

    open spec fn view(&self) -> TextAttributeView {
        TextAttributeView { key: self.key@, text: self.text@ }
    }
}

/// Why an entry of an attribute list cannot be decoded, if it cannot: it is
/// malformed, or its value is no UTF-8.
pub open spec fn entry_error(element: Element, entry: AttributeView) -> Option<ParseErrorView> {
    match entry {
        AttributeView::Malformed { message } => Some(ParseErrorView::Malformed { message }),
        AttributeView::Pair { key, value } => if valid_utf8(value) {
            None
        } else {
            Some(ParseErrorView::InvalidUtf8 { element, attribute: Some(local_part(key)) })
        },
    }
}

/// An entry decoded: the local part of its name, and its value as text.
pub open spec fn decoded_entry(entry: AttributeView) -> TextAttributeView
    recommends
        entry is Pair,
{
    TextAttributeView { key: local_part(entry->key), text: decode_utf8(entry->value) }
}

/// The attribute list of an element decoded in document order: every entry
/// as text, or the error of the first entry that cannot be decoded.
pub open spec fn decoded_attributes(element: Element, entries: Seq<AttributeView>) -> Result<
    Seq<TextAttributeView>,
    ParseErrorView,
>
    decreases entries.len(),
{
    if entries.len() == 0 {
        Ok(Seq::empty())
    } else {
        match decoded_attributes(element, entries.drop_last()) {
            Err(error) => Err(error),
            Ok(earlier) => match entry_error(element, entries.last()) {
                Some(error) => Err(error),
                None => Ok(earlier.push(decoded_entry(entries.last()))),
            },
        }
    }
}

/// An error met in a prefix of an attribute list is the error of the whole list.
pub proof fn lemma_first_error_stands(element: Element, entries: Seq<AttributeView>, k: int)
    requires
        0 <= k <= entries.len(),
        decoded_attributes(element, entries.take(k)) is Err,
    ensures
        decoded_attributes(element, entries) == decoded_attributes(element, entries.take(k)),
    decreases entries.len() - k,
{
    if k < entries.len() {
        assert(entries.take(k + 1).drop_last() =~= entries.take(k));
        lemma_first_error_stands(element, entries, k + 1);
    } else {
        assert(entries.take(k) =~= entries);
    }
}

/// A decoded attribute list has one entry for each entry of the tag, in the
/// same order.
pub proof fn lemma_decoded_keeps_order(element: Element, entries: Seq<AttributeView>)
    ensures
        decoded_attributes(element, entries) matches Ok(list) ==> {
            &&& list.len() == entries.len()
            &&& forall|i: int|
                0 <= i < entries.len() ==> entry_error(element, #[trigger] entries[i]) is None
                    && list[i] == decoded_entry(entries[i])
        },
    decreases entries.len(),
{
    if entries.len() > 0 {
        let earlier = entries.drop_last();
        lemma_decoded_keeps_order(element, earlier);
        if decoded_attributes(element, entries) is Ok {
            let list = decoded_attributes(element, entries)->Ok_0;
            assert forall|i: int| 0 <= i < entries.len() implies entry_error(
                element,
                #[trigger] entries[i],
            ) is None && list[i] == decoded_entry(entries[i]) by {
                if i < earlier.len() {
                    assert(entries[i] == earlier[i]);
                }
            }
        }
    }
}

/// Decodes one entry of the attribute list of an element of kind `element`.
/// Fails where the entry is malformed or its value is no UTF-8.
pub fn decode_attribute<'a>(element: Element, entry: &'a XmlAttribute) -> (decoded: Result<
    TextAttribute<'a>,
    ParseError,
>)
    ensures
        outcome_view(decoded) == match entry_error(element, entry@) {
            Some(error) => Err(error),
            None => Ok(decoded_entry(entry@)),
        },
{
    match entry {
        XmlAttribute::Malformed { message } => Err(
            ParseError::Malformed { message: message.clone() },
        ),
        XmlAttribute::Pair { key, value } => {
            let local = local_name(key.as_slice());
            match decode_text(value.as_slice()) {
                None => Err(
                    ParseError::InvalidUtf8 {
                        element,
                        attribute: Some(vstd::slice::slice_to_vec(local)),
                    },
                ),
                Some(text) => Ok(TextAttribute { key: local, text }),
            }
        },
    }
}

} // verus!
