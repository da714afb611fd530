//! Order is kept: the rules of a container come out as many as the
//! document holds and in document order, through both layers.

use crate::error::Element;
use crate::processed::data_validation::{processed, processed_list};
use crate::raw::data_validation::{
    container_children, container_element, count_from_tag, lemma_rule_element_consumes,
    rule_element, rule_from_tag,
    XlsxDataValidationView, XlsxDataValidationsView,
};
use crate::token::{failed, named, Parsed, StartTagView, XmlToken};
use vstd::prelude::*;

verus! {

/// The rules that were read stay first and in their order: reading on from
/// `rules` gives `rules` followed by what reading on from nothing gives, and
/// fails where that fails.
pub proof fn law_container_appends(tokens: Seq<XmlToken>, rules: Seq<XlsxDataValidationView>)
    ensures
        match container_children(tokens, Seq::empty()).outcome {
            Ok(more) => container_children(tokens, rules) == (Parsed::<
                Seq<XlsxDataValidationView>,
            > { outcome: Ok(rules + more), rest: container_children(tokens, Seq::empty()).rest }),
            Err(error) => container_children(tokens, rules) == failed::<
                Seq<XlsxDataValidationView>,
            >(error),
        },
    decreases tokens.len(),
{
    let none = Seq::<XlsxDataValidationView>::empty();
    if tokens.len() > 0 {
        let rest = tokens.skip(1);
        match tokens[0] {
            XmlToken::Start(tag) => {
                if named(tag.name, Element::DataValidation) {
                    let rule = rule_element(tag, rest);
                    lemma_rule_element_consumes(tag, rest);
                    if rule.outcome is Ok {
                        let r = rule.outcome->Ok_0;
                        law_container_appends(rule.rest, rules.push(r));
                        law_container_appends(rule.rest, none.push(r));
                        if container_children(rule.rest, none).outcome is Ok {
                            let more = container_children(rule.rest, none).outcome->Ok_0;
                            assert(rules.push(r) + more =~= rules + (none.push(r) + more));
                        }
                    }
                } else {
                    law_container_appends(rest, rules);
                }
            },
            XmlToken::End { name } => {
                if !named(name, Element::DataValidations) {
                    law_container_appends(rest, rules);
                } else {
                    assert(rules + none =~= rules);
                }
            },
            XmlToken::Eof => {},
            XmlToken::Fault { .. } => {},
            _ => {
                law_container_appends(rest, rules);
            },
        }
    }
}

/// A container that is closed at once holds no rule: it is the empty list
/// with the count of its start tag, and no error.
pub proof fn law_empty_container(tag: StartTagView, tokens: Seq<XmlToken>)
    requires
        count_from_tag(tag) is Ok,
        tokens.len() > 0,
        tokens[0] is End,
        named(tokens[0]->End_name, Element::DataValidations),
    ensures
        container_element(tag, tokens) == (Parsed::<XlsxDataValidationsView> {
            outcome: Ok(
                XlsxDataValidationsView {
                    data_validations: Seq::empty(),
                    count: count_from_tag(tag)->Ok_0,
                },
            ),
            rest: tokens.skip(1),
        }),
{
}

/// A rule element that is closed right after its start tag reads as the
/// rule of its attributes, and what follows it is left unread.
pub proof fn law_rule_without_children(tag: StartTagView, end_name: Seq<u8>, rest: Seq<XmlToken>)
    requires
        rule_from_tag(tag) is Ok,
        named(end_name, Element::DataValidation),
    ensures
        rule_element(tag, seq![XmlToken::End { name: end_name }] + rest) == (Parsed::<
            XlsxDataValidationView,
        > { outcome: Ok(rule_from_tag(tag)->Ok_0), rest }),
{
    let tokens = seq![XmlToken::End { name: end_name }] + rest;
    assert(tokens[0] == XmlToken::End { name: end_name });
    assert(tokens.skip(1) =~= rest);
}

/// A token that the container passes over wherever it stands: character
/// data, a comment, a declaration.
pub open spec fn is_filler(token: XmlToken) -> bool {
    token is Text || token is Other
}

/// Whether every token of `tokens` is one that the container passes over.
pub open spec fn all_filler(tokens: Seq<XmlToken>) -> bool {
    forall|i: int| 0 <= i < tokens.len() ==> is_filler(#[trigger] tokens[i])
}

/// The place of one rule element in a document: what stands before it, its
/// start tag, and the tokens after the start tag up to and including its
/// end tag.
pub struct RuleSpan {
    pub before: Seq<XmlToken>,
    pub tag: StartTagView,
    pub body: Seq<XmlToken>,
}

impl RuleSpan {
    /// The tokens of the span, in document order.
    pub open spec fn tokens(self) -> Seq<XmlToken> {
        self.before + seq![XmlToken::Start(self.tag)] + self.body
    }

    /// Whether the span, with `rest` after it, holds one whole rule element
    /// that reads as `rule`, after tokens that the container passes over.
    pub open spec fn reads_as(self, rule: XlsxDataValidationView, rest: Seq<XmlToken>) -> bool {
        &&& all_filler(self.before)
        &&& named(self.tag.name, Element::DataValidation)
        &&& rule_element(self.tag, self.body + rest) == (Parsed::<XlsxDataValidationView> {
            outcome: Ok(rule),
            rest,
        })
    }
}

/// The tokens of `spans` one after the other.
pub open spec fn span_tokens(spans: Seq<RuleSpan>) -> Seq<XmlToken>
    decreases spans.len(),
{
    if spans.len() == 0 {
        Seq::empty()
    } else {
        spans[0].tokens() + span_tokens(spans.skip(1))
    }
}

/// The tokens of a container after its start tag: the rule elements
/// `spans`, then `before_end`, the end tag `end_name`, and `tail` after it.
#[verifier::opaque]
pub open spec fn container_stream(
    spans: Seq<RuleSpan>,
    before_end: Seq<XmlToken>,
    end_name: Seq<u8>,
    tail: Seq<XmlToken>,
) -> Seq<XmlToken> {
    span_tokens(spans) + before_end + seq![XmlToken::End { name: end_name }] + tail
}

/// The container passes over character data and comments between its elements.
pub proof fn lemma_container_passes_filler(
    filler: Seq<XmlToken>,
    tokens: Seq<XmlToken>,
    rules: Seq<XlsxDataValidationView>,
)
    requires
        all_filler(filler),
    ensures
        container_children(filler + tokens, rules) == container_children(tokens, rules),
    decreases filler.len(),
{
    if filler.len() == 0 {
        assert(filler + tokens =~= tokens);
    } else {
        let all = filler + tokens;
        assert(all[0] == filler[0]);
        assert(all.skip(1) =~= filler.skip(1) + tokens);
        assert forall|i: int| 0 <= i < filler.skip(1).len() implies is_filler(
            #[trigger] filler.skip(1)[i],
        ) by {
            assert(filler.skip(1)[i] == filler[i + 1]);
        }
        lemma_container_passes_filler(filler.skip(1), tokens, rules);
    }
}

/// A container stream starts with its first rule element, or with its end
/// where it holds none.
pub proof fn lemma_container_stream_unfolds(
    spans: Seq<RuleSpan>,
    before_end: Seq<XmlToken>,
    end_name: Seq<u8>,
    tail: Seq<XmlToken>,
)
    ensures
        spans.len() == 0 ==> container_stream(spans, before_end, end_name, tail) == before_end + (
        seq![XmlToken::End { name: end_name }] + tail),
        spans.len() > 0 ==> container_stream(spans, before_end, end_name, tail) == spans[0].before
            + (seq![XmlToken::Start(spans[0].tag)] + (spans[0].body + container_stream(
            spans.skip(1),
            before_end,
            end_name,
            tail,
        ))),
{
    reveal(container_stream);
    let stream = container_stream(spans, before_end, end_name, tail);
    if spans.len() == 0 {
        assert(stream =~= before_end + (seq![XmlToken::End { name: end_name }] + tail));
    } else {
        let later = container_stream(spans.skip(1), before_end, end_name, tail);
        assert(stream =~= spans[0].before + (seq![XmlToken::Start(spans[0].tag)] + (spans[0].body
            + later)));
    }
}

/// Order is kept, from any rules already read: see [`law_document_order`].
pub proof fn lemma_document_order_from(
    spans: Seq<RuleSpan>,
    rules: Seq<XlsxDataValidationView>,
    before_end: Seq<XmlToken>,
    end_name: Seq<u8>,
    tail: Seq<XmlToken>,
    read: Seq<XlsxDataValidationView>,
)
    requires
        spans.len() == rules.len(),
        forall|i: int|
            0 <= i < spans.len() ==> (#[trigger] spans[i]).reads_as(
                rules[i],
                container_stream(spans.skip(i + 1), before_end, end_name, tail),
            ),
        all_filler(before_end),
        named(end_name, Element::DataValidations),
    ensures
        container_children(container_stream(spans, before_end, end_name, tail), read) == (Parsed::<
            Seq<XlsxDataValidationView>,
        > { outcome: Ok(read + rules), rest: tail }),
    decreases spans.len(),
{
    lemma_container_stream_unfolds(spans, before_end, end_name, tail);
    if spans.len() == 0 {
        let closing = seq![XmlToken::End { name: end_name }] + tail;
        lemma_container_passes_filler(before_end, closing, read);
        assert(closing[0] == XmlToken::End { name: end_name });
        assert(closing.skip(1) =~= tail);
        assert(read + rules =~= read);
    } else {
        let first = spans[0];
        let later = container_stream(spans.skip(1), before_end, end_name, tail);
        let after_tag = first.body + later;
        let from_tag = seq![XmlToken::Start(first.tag)] + after_tag;
        lemma_container_passes_filler(first.before, from_tag, read);
        assert(from_tag[0] == XmlToken::Start(first.tag));
        assert(from_tag.skip(1) =~= after_tag);
        assert(container_children(from_tag, read) == container_children(
            later,
            read.push(rules[0]),
        ));
        assert forall|i: int| 0 <= i < spans.skip(1).len() implies (#[trigger] spans.skip(
            1,
        )[i]).reads_as(
            rules.skip(1)[i],
            container_stream(spans.skip(1).skip(i + 1), before_end, end_name, tail),
        ) by {
            assert(spans.skip(1)[i] == spans[i + 1]);
            assert(rules.skip(1)[i] == rules[i + 1]);
            assert(spans.skip(1).skip(i + 1) =~= spans.skip(i + 1 + 1));
        }
        lemma_document_order_from(
            spans.skip(1),
            rules.skip(1),
            before_end,
            end_name,
            tail,
            read.push(rules[0]),
        );
        assert(read.push(rules[0]) + rules.skip(1) =~= read + rules);
    }
}

/// Order is kept: a container that holds the rule elements `spans` in
/// document order, each reading as the rule at its place in `rules`, reads
/// as exactly `rules`, and the processed rules are the processed rule of
/// each: as many as the elements, and in the same order.
pub proof fn law_document_order(
    tag: StartTagView,
    spans: Seq<RuleSpan>,
    rules: Seq<XlsxDataValidationView>,
    before_end: Seq<XmlToken>,
    end_name: Seq<u8>,
    tail: Seq<XmlToken>,
)
    requires
        spans.len() == rules.len(),
        forall|i: int|
            0 <= i < spans.len() ==> (#[trigger] spans[i]).reads_as(
                rules[i],
                container_stream(spans.skip(i + 1), before_end, end_name, tail),
            ),
        all_filler(before_end),
        named(end_name, Element::DataValidations),
        count_from_tag(tag) is Ok,
    ensures
        container_element(tag, container_stream(spans, before_end, end_name, tail)) == (Parsed::<
            XlsxDataValidationsView,
        > {
            outcome: Ok(
                XlsxDataValidationsView {
                    data_validations: rules,
                    count: count_from_tag(tag)->Ok_0,
                },
            ),
            rest: tail,
        }),
        processed_list(rules).len() == spans.len(),
        forall|i: int|
            0 <= i < spans.len() ==> processed_list(rules)[i] == processed(#[trigger] rules[i]),
{
    lemma_document_order_from(spans, rules, before_end, end_name, tail, Seq::empty());
    assert(Seq::<XlsxDataValidationView>::empty() + rules =~= rules);
}

/// Order is kept: the processed rules are as many as the raw ones, each the
/// processed rule of the raw rule at its place.
pub proof fn law_processed_order(raw: Seq<XlsxDataValidationView>)
    ensures
        processed_list(raw).len() == raw.len(),
        forall|i: int|
            0 <= i < raw.len() ==> processed_list(raw)[i] == processed(#[trigger] raw[i]),
{
}

} // verus!
