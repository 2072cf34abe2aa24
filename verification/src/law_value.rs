//! Laws of values: what texts cost, how continuations, arguments and hashes are written, and how
//! stored columns are read.

use vstd::prelude::*;
use vstd::utf8::encode_utf8;

use crate::column::{claim_of_columns, event_of_columns, ClaimColumns, EventColumns};
use crate::digest::{json_hash, request_hash, sha256_text};
use crate::error::ErrorModel;
use crate::event::event_tokens;
use crate::json::{
    is_object_text, json_escaped, json_or_string, json_parsed, json_quoted, json_string,
    omitted_content, optional_quoted, quoted_all, same_json, searchable,
};
use crate::kind::{
    ClaimAuthority, ClaimCardinality, ClaimKind, ClaimModality, ClaimStatus, EventKind, Labelled,
    Sensitivity,
};
use crate::model::{
    caught_up_outcome, ready_outcome, ContinuationDraftModel, ObservationPlanModel,
    ObservationPlanOutcomeModel,
};
use crate::observer::continuation_text;
use crate::score::Real;
use crate::store::schema_decision;
use crate::text::{
    decimal, digit_text, is_space, joined, literal_phrase, natural_text, position, quotes_doubled,
    text_less, token_estimate, Text,
};

verus! {

/// A text costs a quarter of its characters, rounded up, and never less than one.
pub proof fn texts_cost_a_quarter(text: Text)
    ensures
        token_estimate(text) >= 1,
        4 * token_estimate(text) >= text.len(),
        text.len() > 0 ==> 4 * (token_estimate(text) - 1) < text.len(),
        text.len() == 0 ==> token_estimate(text) == 1,
{
}

/// White space is what Unicode takes for it.
pub proof fn white_space(c: char)
    ensures
        is_space(c) <==> {
            ||| c == '\u{9}' || c == '\u{a}' || c == '\u{b}' || c == '\u{c}' || c == '\u{d}'
            ||| c == '\u{20}' || c == '\u{85}' || c == '\u{a0}' || c == '\u{1680}'
            ||| '\u{2000}' <= c && c <= '\u{200a}'
            ||| c == '\u{2028}' || c == '\u{2029}' || c == '\u{202f}' || c == '\u{205f}'
            ||| c == '\u{3000}'
        },
{
}

/// A list as indented JSON, one level deep.
pub open spec fn written_list(items: Seq<Text>) -> Text {
    if items.len() == 0 {
        "[]"@
    } else {
        "[\n    "@ + joined(items.map_values(quoted_all()), ",\n    "@) + "\n  ]"@
    }
}

/// A continuation is written with all its parts: the task, and what is done, what stands in the
/// way, what is next and what is open, each item of them.
pub proof fn continuations_are_written_in_full(draft: ContinuationDraftModel)
    ensures
        continuation_text(draft) == "{\n  \"currentTask\": "@ + optional_quoted(draft.current_task)
            + ",\n  \"completed\": "@ + written_list(draft.completed) + ",\n  \"blockers\": "@
            + written_list(draft.blockers) + ",\n  \"nextActions\": "@ + written_list(
            draft.next_actions,
        ) + ",\n  \"unresolvedQuestions\": "@ + written_list(draft.unresolved_questions) + "\n}"@,
{
}

/// An argument stands for the JSON value that it writes, and else for itself as a string; what is
/// searched of a value is the text of a string, and the JSON text of anything else; and a value is
/// the same as itself.
pub proof fn arguments_stand_for_values(raw: Text, json: Text)
    ensures
        json_parsed(raw) matches Some(text) ==> json_or_string(raw) == text,
        json_parsed(raw) is None ==> json_or_string(raw) == json_quoted(raw),
        json_string(json) matches Some(text) ==> searchable(json) == text,
        json_string(json) is None ==> searchable(json) == json,
        same_json(json, json),
        is_object_text(json) ==> json.len() > 0 && json[0] == '{',
{
}

/// The hash of a value is that of its text in UTF-8, and the hash of a request that of the
/// operation's name, a zero byte and the request's text.
pub proof fn hashes_are_of_the_texts(operation: Text, text: Text)
    ensures
        json_hash(text) == sha256_text(encode_utf8(text)),
        request_hash(operation, text) == sha256_text(
            encode_utf8(operation) + seq![0u8] + encode_utf8(text),
        ),
{
    assert(encode_utf8(operation).push(0) =~= encode_utf8(operation) + seq![0u8]);
}

/// An event that is read from its columns has what they say: every text as it is, the values of its
/// JSON columns, and the words of its kind and sensitivity; and the hash of its content is the one
/// that was stored.
pub proof fn event_columns_are_read(columns: EventColumns)
    ensures
        event_of_columns(columns) matches Ok(event) ==> {
            &&& event.id == columns.id@
            &&& event.stream_id == columns.stream_id@
            &&& event.sequence == columns.sequence
            &&& event.scope_id == columns.scope_id@
            &&& event.kind.label() == columns.kind@
            &&& event.actor_id == columns.actor_id.deep_view()
            &&& event.occurred_at == columns.occurred_at@
            &&& event.recorded_at == columns.recorded_at@
            &&& json_parsed(columns.content_json@) == Some(event.content)
            &&& json_hash(event.content) == columns.content_hash@
            &&& event.content_hash == columns.content_hash@
            &&& event.token_count == columns.token_count
            &&& event.sensitivity.label() == columns.sensitivity@
            &&& json_parsed(columns.metadata_json@) == Some(event.metadata)
        },
        (json_parsed(columns.content_json@) matches Some(content) && json_hash(content)
            == columns.content_hash@) && json_parsed(columns.metadata_json@) is Some && (exists|
            kind: EventKind,
        | #[trigger] kind.label() == columns.kind@) && (exists|word: Sensitivity|
            #[trigger] word.label() == columns.sensitivity@) ==> event_of_columns(columns) is Ok,
{
}

/// A claim that is read from its columns has what they say: every text as it is, its value, and the
/// words of its kind, cardinality, modality, status and authority.
pub proof fn claim_columns_are_read(columns: ClaimColumns)
    ensures
        claim_of_columns(columns) matches Ok(claim) ==> {
            &&& claim.id == columns.id@
            &&& claim.origin_run_id == columns.origin_run_id.deep_view()
            &&& claim.scope_id == columns.scope_id@
            &&& claim.kind.label() == columns.kind@
            &&& claim.subject == columns.subject@
            &&& claim.predicate == columns.predicate@
            &&& claim.cardinality.label() == columns.cardinality@
            &&& json_parsed(columns.value_json@) == Some(claim.value)
            &&& claim.value_hash == columns.value_hash@
            &&& claim.modality.label() == columns.modality@
            &&& claim.status.label() == columns.status@
            &&& claim.authority.label() == columns.authority@
            &&& claim.confidence == columns.confidence
            &&& claim.supersedes_id == columns.supersedes_id.deep_view()
            &&& claim.created_at == columns.created_at@
            &&& claim.updated_at == columns.updated_at@
        },
        json_parsed(columns.value_json@) is Some && (exists|word: ClaimKind| #[trigger]
            word.label() == columns.kind@) && (exists|word: ClaimCardinality| #[trigger]
            word.label() == columns.cardinality@) && (exists|word: ClaimModality|
            #[trigger] word.label() == columns.modality@) && (exists|
            word: ClaimStatus,
        | #[trigger] word.label() == columns.status@) && (exists|
            word: ClaimAuthority,
        | #[trigger] word.label() == columns.authority@) ==> claim_of_columns(columns) is Ok,
{
}

/// A database is set up exactly where it is new and empty, used as it is exactly where it has the
/// current version, and refused else.
pub proof fn only_own_databases_are_used(version: i64, has_objects: bool)
    ensures
        schema_decision(version, has_objects) == Ok::<bool, ErrorModel>(true)
            <==> version == 0 && !has_objects,
        schema_decision(version, has_objects) == Ok::<bool, ErrorModel>(false)
            <==> version == 5,
        schema_decision(version, has_objects) is Err <==> version != 5 && (version != 0
            || has_objects),
{
}

/// What a plan says is to be done next: to commit a result for its run, or to wait for new events.
pub proof fn plans_say_what_is_next(
    plan: ObservationPlanModel,
    scope_id: Text,
    stream_id: Text,
    cursor: i64,
)
    ensures
        ready_outcome(plan) == (ObservationPlanOutcomeModel::Ready {
            plan,
            next_action: "produce a strict ObserverResult for run "@ + plan.run_id
                + " and commit it"@,
        }),
        caught_up_outcome(scope_id, stream_id, cursor) == (ObservationPlanOutcomeModel::CaughtUp {
            scope_id,
            stream_id,
            observed_through_sequence: cursor,
            next_action:
                "append new evidence or wait for new events; use a new idempotency key for the next plan"@,
        }),
{
}

/// The number that a row of decimal digits stands for.
pub open spec fn number_of(digits: Text) -> int
    decreases digits.len(),
{
    if digits.len() == 0 {
        0
    } else {
        10 * number_of(digits.drop_last()) + (digits.last() as int - '0' as int)
    }
}

/// Whether a text is a row of decimal digits.
pub open spec fn is_digits(text: Text) -> bool {
    &&& text.len() > 0
    &&& forall|i: int| 0 <= i < text.len() ==> '0' <= #[trigger] text[i] && text[i] <= '9'
}

proof fn digits_are_read(digit: nat)
    requires
        digit < 10,
    ensures
        digit_text(digit).len() == 1,
        digit_text(digit)[0] as int == '0' as int + digit,
{
    reveal_strlit("0");
    reveal_strlit("1");
    reveal_strlit("2");
    reveal_strlit("3");
    reveal_strlit("4");
    reveal_strlit("5");
    reveal_strlit("6");
    reveal_strlit("7");
    reveal_strlit("8");
    reveal_strlit("9");
}

proof fn naturals_are_read(n: nat)
    ensures
        is_digits(natural_text(n)),
        number_of(natural_text(n)) == n,
        n > 0 ==> natural_text(n)[0] != '0',
        n < 10 ==> natural_text(n).len() == 1,
    decreases n,
{
    let text = natural_text(n);
    digits_are_read(n % 10);
    if n < 10 {
        assert(text.drop_last() =~= Seq::empty());
        assert(number_of(text.drop_last()) == 0);
        assert(text.last() == text[0]);
    } else {
        naturals_are_read(n / 10);
        let front = natural_text(n / 10);
        assert(text.drop_last() =~= front);
        assert(text.last() == digit_text(n % 10)[0]);
        assert forall|i: int| 0 <= i < text.len() implies '0' <= #[trigger] text[i] && text[i]
            <= '9' by {
            if i < front.len() {
                assert(text[i] == front[i]);
            }
        }
        assert(text[0] == front[0]);
    }
}

/// An integer is written with decimal digits that stand for it, none of them a leading zero, and
/// with a minus sign before them where it is negative.
pub proof fn integers_are_written_in_decimal(n: int)
    ensures
        n >= 0 ==> is_digits(decimal(n)) && number_of(decimal(n)) == n,
        n > 0 ==> decimal(n)[0] != '0',
        n == 0 ==> decimal(n).len() == 1,
        n < 0 ==> decimal(n) == seq!['-'] + decimal(-n),
{
    if n >= 0 {
        naturals_are_read(n as nat);
    } else {
        reveal_strlit("-");
        assert("-"@ =~= seq!['-']);
    }
}

/// How a character stands in a JSON string.
pub open spec fn escape(c: char) -> Text {
    if c == '"' {
        seq!['\\', '"']
    } else if c == '\\' {
        seq!['\\', '\\']
    } else if c == '\n' {
        seq!['\\', 'n']
    } else if c == '\r' {
        seq!['\\', 'r']
    } else if c == '\t' {
        seq!['\\', 't']
    } else if c == '\u{8}' {
        seq!['\\', 'b']
    } else if c == '\u{c}' {
        seq!['\\', 'f']
    } else if (c as u32) < 32 {
        seq![
            '\\',
            'u',
            '0',
            '0',
            if (c as u32) < 16 {
                '0'
            } else {
                '1'
            },
            "0123456789abcdef"@[c as int % 16],
        ]
    } else {
        seq![c]
    }
}

/// A string is written in JSON between quotes, character by character: a longer text is written as
/// a shorter one with one more character before the closing quote.
pub proof fn strings_are_quoted(text: Text, c: char)
    ensures
        json_quoted(Seq::empty()) == seq!['"', '"'],
        json_quoted(text.push(c)) == json_quoted(text).drop_last() + escape(c) + seq!['"'],
{
    reveal_strlit("\"");
    reveal_strlit("0123456789abcdef");
    let none = Seq::<char>::empty();
    assert(none.map_values(json_escaped()) =~= Seq::empty());
    assert(none.flat_map(json_escaped()) =~= Seq::empty());
    assert(json_quoted(none) =~= seq!['"', '"']);
    text.lemma_flat_map_push(json_escaped(), c);
    if (c as u32) < 32 {
        let code = c as int;
        assert(code / 16 == if code < 16 {
            0int
        } else {
            1int
        });
    }
    assert((json_escaped())(c) =~= escape(c));
    assert(json_quoted(text).drop_last() =~= "\""@ + text.flat_map(json_escaped()));
    assert(json_quoted(text.push(c)) =~= json_quoted(text).drop_last() + escape(c) + seq!['"']);
}

/// A literal phrase stands between quotes, with every quote in it doubled and everything else as it
/// is.
pub proof fn phrases_are_quoted(query: Text, c: char)
    ensures
        literal_phrase(Seq::empty()) == seq!['"', '"'],
        c != '"' ==> literal_phrase(query.push(c)) == literal_phrase(query).drop_last() + seq![
            c,
            '"',
        ],
        literal_phrase(query.push('"')) == literal_phrase(query).drop_last() + seq!['"', '"', '"'],
{
    reveal_strlit("\"");
    reveal_strlit("\"\"");
    assert(literal_phrase(Seq::empty()) =~= seq!['"', '"']);
    assert(query.push(c).drop_last() =~= query);
    assert(query.push('"').drop_last() =~= query);
    assert(literal_phrase(query).drop_last() =~= "\""@ + quotes_doubled(query));
    assert(c != '"' ==> literal_phrase(query.push(c)) =~= literal_phrase(query).drop_last() + seq![
        c,
        '"',
    ]);
    assert(literal_phrase(query.push('"')) =~= literal_phrase(query).drop_last() + seq![
        '"',
        '"',
        '"',
    ]);
}

/// Whether two texts are the same up to a position.
pub open spec fn agree(left: Text, right: Text, to: int) -> bool {
    &&& to <= left.len()
    &&& to <= right.len()
    &&& forall|i: int| 0 <= i < to ==> #[trigger] left[i] == right[i]
}

/// One text comes before another exactly where, behind a common beginning, it ends first or goes on
/// with a smaller character.
pub proof fn texts_are_ordered(left: Text, right: Text)
    ensures
        text_less(left, right) <==> exists|to: int|
            0 <= to < right.len() && #[trigger] agree(left, right, to) && (to == left.len()
                || left[to] < right[to]),
    decreases left.len(),
{
    if left.len() > 0 && right.len() > 0 && left[0] == right[0] {
        let a = left.drop_first();
        let b = right.drop_first();
        texts_are_ordered(a, b);
        if text_less(a, b) {
            let to = choose|to: int|
                0 <= to < b.len() && #[trigger] agree(a, b, to) && (to == a.len() || a[to]
                    < b[to]);
            assert forall|i: int| 0 <= i < to + 1 implies #[trigger] left[i] == right[i] by {
                if i > 0 {
                    assert(a[i - 1] == b[i - 1]);
                }
            }
            assert(agree(left, right, to + 1));
        }
        if exists|to: int|
            0 <= to < right.len() && #[trigger] agree(left, right, to) && (to == left.len()
                || left[to] < right[to]) {
            let to = choose|to: int|
                0 <= to < right.len() && #[trigger] agree(left, right, to) && (to == left.len()
                    || left[to] < right[to]);
            assert(to > 0);
            assert forall|i: int| 0 <= i < to - 1 implies #[trigger] a[i] == b[i] by {
                assert(left[i + 1] == right[i + 1]);
            }
            assert(agree(a, b, to - 1));
        }
    } else {
        if text_less(left, right) {
            assert(agree(left, right, 0));
        }
        if exists|to: int|
            0 <= to < right.len() && #[trigger] agree(left, right, to) && (to == left.len()
                || left[to] < right[to]) {
            let to = choose|to: int|
                0 <= to < right.len() && #[trigger] agree(left, right, to) && (to == left.len()
                    || left[to] < right[to]);
            if to > 0 {
                assert(left[0] == right[0]);
            }
        }
    }
}

/// The place of a text in a list is that of its first occurrence.
pub proof fn places_are_the_first(texts: Seq<Text>, text: Text)
    ensures
        0 <= position(texts, text) <= texts.len(),
        position(texts, text) < texts.len() ==> texts[position(texts, text)] == text,
        forall|i: int| 0 <= i < position(texts, text) ==> #[trigger] texts[i] != text,
    decreases texts.len(),
{
    if texts.len() > 0 && texts[0] != text {
        places_are_the_first(texts.drop_first(), text);
        assert forall|i: int| 0 <= i < position(texts, text) implies #[trigger] texts[i] != text by {
            if i > 0 {
                assert(texts.drop_first()[i - 1] == texts[i]);
            }
        }
    }
}

/// Which numbers are scores, and how they are ordered. The bits of a number without a sign grow
/// with it, up to those of one; zero with a sign is zero. A higher number comes first.
pub proof fn scores_are_bits(left: Real, right: Real)
    ensures
        left.in_unit_interval() <==> left.bits <= 0x3ff0_0000_0000_0000 || left.bits
            == 0x8000_0000_0000_0000,
        left.in_unit_interval() && right.in_unit_interval() && left.bits
            < 0x8000_0000_0000_0000 && right.bits < 0x8000_0000_0000_0000 ==> (left.descending()
            < right.descending() <==> left.bits > right.bits),
{
}

/// What an event costs is what its content and its metadata cost, with a space between them; what
/// stands for withheld content says that it was omitted and why.
pub proof fn events_cost_their_text(content: Text, metadata: Text)
    ensures
        event_tokens(content, metadata) == token_estimate(content + " "@ + metadata),
        omitted_content() == "{\"omitted\":true,\"reason\":\"do-not-store\"}"@,
{
}

} // verus!
