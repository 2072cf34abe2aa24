//! Laws of request texts: a request that differs from another one in any field has another text, so
//! that a key that was used for the one is refused for the other.

use vstd::prelude::*;

use crate::claim::{
    close_request, confirm_request, correct_request, direct_request, rescope_request,
};
use crate::event::event_request;
use crate::json::{
    array_text, field_text, json_quoted, object_text, optional_decimal, optional_quoted,
    quoted_all, quoted_texts_end, string_array_text,
};
use crate::kind::{
    ClaimAuthority, ClaimCardinality, ClaimKind, ClaimModality, ClaimStatus, EventKind, Labelled,
    ObservationKind, ScopeKind, Sensitivity, ViewKind,
};
use crate::model::{
    AmbiguityDraftModel, ClaimDraftModel, ContinuationDraftModel, CreateViewModel, NewEventModel,
    ObservationDraftModel, ObserverResultModel,
};
use crate::observation::{commit_request, fail_request, plan_request};
use crate::observer::{ambiguity_json, claim_json, continuation_json, observation_json, result_json};
use crate::row::ClaimRequestModel;
use crate::scope::scope_request;
use crate::text::{decimal, digit_text, joined, natural_text, Text};
use crate::view::view_request;

verus! {

proof fn same_ends(head: Text, left: Text, right: Text, tail_left: Text, tail_right: Text)
    requires
        head + left + tail_left == head + right + tail_right,
        tail_left == tail_right,
    ensures
        left == right,
{
    let a = head + left + tail_left;
    let b = head + right + tail_right;
    assert(a.len() == head.len() + left.len() + tail_left.len());
    assert(b.len() == head.len() + right.len() + tail_right.len());
    assert(left.len() == right.len());
    assert(left =~= a.subrange(head.len() as int, (head.len() + left.len()) as int));
    assert(right =~= a.subrange(head.len() as int, (head.len() + left.len()) as int));
}

proof fn joined_parts_differ(parts: Seq<Text>, other: Seq<Text>, k: int, separator: Text)
    requires
        0 <= k < parts.len(),
        other == parts.update(k, other[k]),
        joined(parts, separator) == joined(other, separator),
    ensures
        parts[k] == other[k],
    decreases parts.len(),
{
    if parts.len() > 1 {
        let front = parts.drop_last();
        let rest = other.drop_last();
        let none = Seq::<char>::empty();
        if k < parts.len() - 1 {
            assert(rest =~= front.update(k, rest[k]));
            assert(parts.last() == other.last());
            let tail = separator + parts.last();
            assert(joined(parts, separator) =~= none + joined(front, separator) + tail);
            assert(joined(other, separator) =~= none + joined(rest, separator) + tail);
            same_ends(none, joined(front, separator), joined(rest, separator), tail, tail);
            joined_parts_differ(front, rest, k, separator);
        } else {
            assert(rest =~= front);
            let head = joined(front, separator) + separator;
            assert(joined(parts, separator) =~= head + parts.last() + none);
            assert(joined(other, separator) =~= head + other.last() + none);
            same_ends(head, parts.last(), other.last(), none, none);
        }
    }
}

/// A field of an object can be told from its text.
proof fn fields_differ(fields: Seq<(Text, Text)>, other: Seq<(Text, Text)>, k: int)
    requires
        0 <= k < fields.len(),
        other == fields.update(k, other[k]),
        other[k].0 == fields[k].0,
        object_text(fields) == object_text(other),
    ensures
        fields[k].1 == other[k].1,
{
    let parts = fields.map_values(field_text());
    let rest = other.map_values(field_text());
    assert(rest =~= parts.update(k, rest[k]));
    same_ends("{"@, joined(parts, ","@), joined(rest, ","@), "}"@, "}"@);
    joined_parts_differ(parts, rest, k, ","@);
    let none = Seq::<char>::empty();
    let head = json_quoted(fields[k].0) + ":"@;
    assert(parts[k] =~= head + fields[k].1 + none);
    assert(rest[k] =~= head + other[k].1 + none);
    same_ends(head, fields[k].1, other[k].1, none, none);
}

proof fn items_differ(items: Seq<Text>, other: Seq<Text>, k: int)
    requires
        0 <= k < items.len(),
        other == items.update(k, other[k]),
        array_text(items) == array_text(other),
    ensures
        items[k] == other[k],
{
    same_ends("["@, joined(items, ","@), joined(other, ","@), "]"@, "]"@);
    joined_parts_differ(items, other, k, ","@);
}

proof fn quoted_differ(left: Text, right: Text)
    requires
        json_quoted(left) == json_quoted(right),
    ensures
        left == right,
{
    let none = Seq::<char>::empty();
    assert(json_quoted(left) + none =~= json_quoted(right) + none);
    quoted_texts_end(left, right, none, none);
}

proof fn optional_quoted_differ(left: Option<Text>, right: Option<Text>)
    requires
        optional_quoted(left) == optional_quoted(right),
    ensures
        left == right,
{
    reveal_strlit("null");
    reveal_strlit("\"");
    if let Some(a) = left {
        assert(json_quoted(a)[0] == '"');
        if let Some(b) = right {
            quoted_differ(a, b);
        }
    }
    if let Some(b) = right {
        assert(json_quoted(b)[0] == '"');
    }
}

proof fn digits_differ(a: nat, b: nat)
    requires
        a < 10,
        b < 10,
    ensures
        digit_text(a).len() == 1,
        digit_text(a)[0] == digit_text(b)[0] ==> a == b,
        digit_text(a)[0] != '-',
        digit_text(a)[0] != 'n',
{
    reveal_strlit("0");
    reveal_strlit("1");
    reveal_strlit("2");
    reveal_strlit("3");
    reveal_strlit("4");
    reveal_strlit("5");
    reveal_strlit("6");
    reveal_strlit("7");
    reveal_strlit("8");
    reveal_strlit("9");
}

proof fn naturals_start_with_digits(n: nat)
    ensures
        natural_text(n).len() > 0,
        natural_text(n)[0] != '-',
        natural_text(n)[0] != 'n',
    decreases n,
{
    digits_differ(n % 10, n % 10);
    if n >= 10 {
        naturals_start_with_digits(n / 10);
    } else {
        digits_differ(n, n);
    }
}

proof fn naturals_differ(a: nat, b: nat)
    requires
        natural_text(a) == natural_text(b),
    ensures
        a == b,
    decreases a,
{
    digits_differ(a % 10, b % 10);
    digits_differ(b % 10, a % 10);
    let left = natural_text(a);
    let right = natural_text(b);
    naturals_start_with_digits(a / 10);
    naturals_start_with_digits(b / 10);
    assert(left.last() == digit_text(a % 10)[0]);
    assert(right.last() == digit_text(b % 10)[0]);
    if a >= 10 && b >= 10 {
        assert(left.drop_last() =~= natural_text(a / 10));
        assert(right.drop_last() =~= natural_text(b / 10));
        naturals_differ(a / 10, b / 10);
    } else if a >= 10 {
        assert(left.len() > 1);
    } else if b >= 10 {
        assert(right.len() > 1);
    }
}

/// Different numbers have different texts.
pub proof fn decimals_differ(a: int, b: int)
    requires
        decimal(a) == decimal(b),
    ensures
        a == b,
{
    reveal_strlit("-");
    if a < 0 {
        assert(decimal(a)[0] == '-');
        assert(decimal(a).skip(1) =~= natural_text((-a) as nat));
    } else {
        naturals_start_with_digits(a as nat);
    }
    if b < 0 {
        assert(decimal(b)[0] == '-');
        assert(decimal(b).skip(1) =~= natural_text((-b) as nat));
    } else {
        naturals_start_with_digits(b as nat);
    }
    if a < 0 && b < 0 {
        naturals_differ((-a) as nat, (-b) as nat);
    } else if a >= 0 && b >= 0 {
        naturals_differ(a as nat, b as nat);
    }
}

proof fn optional_decimals_differ(left: Option<i64>, right: Option<i64>)
    requires
        optional_decimal(left) == optional_decimal(right),
    ensures
        left == right,
{
    reveal_strlit("null");
    reveal_strlit("-");
    if let Some(a) = left {
        if a < 0 {
            assert(decimal(a as int)[0] == '-');
        } else {
            naturals_start_with_digits(a as nat);
        }
        if let Some(b) = right {
            decimals_differ(a as int, b as int);
        }
    }
    if let Some(b) = right {
        if b < 0 {
            assert(decimal(b as int)[0] == '-');
        } else {
            naturals_start_with_digits(b as nat);
        }
    }
}

proof fn joined_from_front(parts: Seq<Text>, separator: Text)
    requires
        parts.len() > 1,
    ensures
        joined(parts, separator) == parts[0] + separator + joined(parts.drop_first(), separator),
    decreases parts.len(),
{
    if parts.len() > 2 {
        joined_from_front(parts.drop_last(), separator);
        assert(parts.drop_last().drop_first() =~= parts.drop_first().drop_last());
        assert(joined(parts, separator) =~= parts[0] + separator + joined(
            parts.drop_first(),
            separator,
        ));
    } else {
        assert(parts.drop_last() =~= seq![parts[0]]);
        assert(parts.drop_first() =~= seq![parts[1]]);
        assert(joined(parts.drop_last(), separator) == parts[0]);
        assert(joined(parts.drop_first(), separator) == parts[1]);
        assert(parts.last() == parts[1]);
    }
}

proof fn quoted_lists_differ(left: Seq<Text>, right: Seq<Text>)
    requires
        joined(left.map_values(quoted_all()), ","@) == joined(
            right.map_values(quoted_all()),
            ","@,
        ),
    ensures
        left == right,
    decreases left.len(),
{
    reveal_strlit("\"");
    let a = left.map_values(quoted_all());
    let b = right.map_values(quoted_all());
    let none = Seq::<char>::empty();
    if left.len() > 1 {
        joined_from_front(a, ","@);
        assert(a.drop_first() =~= left.drop_first().map_values(quoted_all()));
        assert(joined(a, ","@) =~= json_quoted(left[0]) + (","@ + joined(a.drop_first(), ","@)));
    } else if left.len() == 1 {
        assert(joined(a, ","@) =~= json_quoted(left[0]) + none);
    }
    if right.len() > 1 {
        joined_from_front(b, ","@);
        assert(b.drop_first() =~= right.drop_first().map_values(quoted_all()));
        assert(joined(b, ","@) =~= json_quoted(right[0]) + (","@ + joined(b.drop_first(), ","@)));
    } else if right.len() == 1 {
        assert(joined(b, ","@) =~= json_quoted(right[0]) + none);
    }
    if left.len() == 0 || right.len() == 0 {
        if left.len() > 0 {
            assert(joined(a, ","@).len() >= json_quoted(left[0]).len());
            assert(json_quoted(left[0]).len() > 0);
        }
        if right.len() > 0 {
            assert(joined(b, ","@).len() >= json_quoted(right[0]).len());
            assert(json_quoted(right[0]).len() > 0);
        }
        assert(left =~= right);
    } else {
        let after_left = if left.len() > 1 {
            ","@ + joined(a.drop_first(), ","@)
        } else {
            none
        };
        let after_right = if right.len() > 1 {
            ","@ + joined(b.drop_first(), ","@)
        } else {
            none
        };
        reveal_strlit(",");
        quoted_texts_end(left[0], right[0], after_left, after_right);
        if left.len() > 1 && right.len() > 1 {
            same_ends(
                ","@,
                joined(a.drop_first(), ","@),
                joined(b.drop_first(), ","@),
                none,
                none,
            );
            quoted_lists_differ(left.drop_first(), right.drop_first());
            assert(left =~= seq![left[0]] + left.drop_first());
            assert(right =~= seq![right[0]] + right.drop_first());
        } else {
            assert(left.len() == 1 && right.len() == 1) by {
                if left.len() > 1 {
                    assert(after_left.len() > 0);
                }
                if right.len() > 1 {
                    assert(after_right.len() > 0);
                }
            }
            assert(left =~= right);
        }
    }
}

proof fn string_arrays_differ(left: Seq<Text>, right: Seq<Text>)
    requires
        string_array_text(left) == string_array_text(right),
    ensures
        left == right,
{
    same_ends(
        "["@,
        joined(left.map_values(quoted_all()), ","@),
        joined(right.map_values(quoted_all()), ","@),
        "]"@,
        "]"@,
    );
    quoted_lists_differ(left, right);
}

/// Two appends that differ in one field have different request texts.
pub proof fn event_requests_differ(left: NewEventModel, right: NewEventModel)
    requires
        event_request(left) == event_request(right),
        ({
            ||| left == (NewEventModel { scope_id: left.scope_id, ..right })
            ||| left == (NewEventModel { stream_id: left.stream_id, ..right })
            ||| left == (NewEventModel { kind: left.kind, ..right })
            ||| left == (NewEventModel { actor_id: left.actor_id, ..right })
            ||| left == (NewEventModel { occurred_at: left.occurred_at, ..right })
            ||| left == (NewEventModel { content: left.content, ..right })
            ||| left == (NewEventModel { token_count: left.token_count, ..right })
            ||| left == (NewEventModel { sensitivity: left.sensitivity, ..right })
            ||| left == (NewEventModel { metadata: left.metadata, ..right })
            ||| left == (NewEventModel { idempotency_key: left.idempotency_key, ..right })
        }),
    ensures
        left.scope_id == right.scope_id,
        left.stream_id == right.stream_id,
        left.kind == right.kind,
        left.actor_id == right.actor_id,
        left.occurred_at == right.occurred_at,
        left.content == right.content,
        left.token_count == right.token_count,
        left.sensitivity == right.sensitivity,
        left.metadata == right.metadata,
        left.idempotency_key == right.idempotency_key,
{
    let fields = seq![
        ("scopeId"@, json_quoted(left.scope_id)),
        ("streamId"@, json_quoted(left.stream_id)),
        ("kind"@, json_quoted(left.kind.label())),
        ("actorId"@, optional_quoted(left.actor_id)),
        ("occurredAt"@, optional_quoted(left.occurred_at)),
        ("content"@, left.content),
        ("tokenCount"@, optional_decimal(left.token_count)),
        ("sensitivity"@, json_quoted(left.sensitivity.label())),
        ("metadata"@, left.metadata),
        ("idempotencyKey"@, json_quoted(left.idempotency_key)),
    ];
    let other = seq![
        ("scopeId"@, json_quoted(right.scope_id)),
        ("streamId"@, json_quoted(right.stream_id)),
        ("kind"@, json_quoted(right.kind.label())),
        ("actorId"@, optional_quoted(right.actor_id)),
        ("occurredAt"@, optional_quoted(right.occurred_at)),
        ("content"@, right.content),
        ("tokenCount"@, optional_decimal(right.token_count)),
        ("sensitivity"@, json_quoted(right.sensitivity.label())),
        ("metadata"@, right.metadata),
        ("idempotencyKey"@, json_quoted(right.idempotency_key)),
    ];
    if left == (NewEventModel { scope_id: left.scope_id, ..right }) {
        assert(other =~= fields.update(0, other[0]));
        fields_differ(fields, other, 0);
        quoted_differ(left.scope_id, right.scope_id);
    } else if left == (NewEventModel { stream_id: left.stream_id, ..right }) {
        assert(other =~= fields.update(1, other[1]));
        fields_differ(fields, other, 1);
        quoted_differ(left.stream_id, right.stream_id);
    } else if left == (NewEventModel { kind: left.kind, ..right }) {
        assert(other =~= fields.update(2, other[2]));
        fields_differ(fields, other, 2);
        quoted_differ(left.kind.label(), right.kind.label());
        <EventKind as Labelled>::labels_differ(left.kind, right.kind);
    } else if left == (NewEventModel { actor_id: left.actor_id, ..right }) {
        assert(other =~= fields.update(3, other[3]));
        fields_differ(fields, other, 3);
        optional_quoted_differ(left.actor_id, right.actor_id);
    } else if left == (NewEventModel { occurred_at: left.occurred_at, ..right }) {
        assert(other =~= fields.update(4, other[4]));
        fields_differ(fields, other, 4);
        optional_quoted_differ(left.occurred_at, right.occurred_at);
    } else if left == (NewEventModel { content: left.content, ..right }) {
        assert(other =~= fields.update(5, other[5]));
        fields_differ(fields, other, 5);
    } else if left == (NewEventModel { token_count: left.token_count, ..right }) {
        assert(other =~= fields.update(6, other[6]));
        fields_differ(fields, other, 6);
        optional_decimals_differ(left.token_count, right.token_count);
    } else if left == (NewEventModel { sensitivity: left.sensitivity, ..right }) {
        assert(other =~= fields.update(7, other[7]));
        fields_differ(fields, other, 7);
        quoted_differ(left.sensitivity.label(), right.sensitivity.label());
        <Sensitivity as Labelled>::labels_differ(left.sensitivity, right.sensitivity);
    } else if left == (NewEventModel { metadata: left.metadata, ..right }) {
        assert(other =~= fields.update(8, other[8]));
        fields_differ(fields, other, 8);
    } else if left == (NewEventModel { idempotency_key: left.idempotency_key, ..right }) {
        assert(other =~= fields.update(9, other[9]));
        fields_differ(fields, other, 9);
        quoted_differ(left.idempotency_key, right.idempotency_key);
    }
}

/// Two views to be created that differ in one field have different request texts.
pub proof fn view_requests_differ(left: CreateViewModel, right: CreateViewModel)
    requires
        view_request(left) == view_request(right),
        ({
            ||| left == (CreateViewModel { scope_id: left.scope_id, ..right })
            ||| left == (CreateViewModel { stream_id: left.stream_id, ..right })
            ||| left == (CreateViewModel { kind: left.kind, ..right })
            ||| left == (CreateViewModel { content: left.content, ..right })
            ||| left == (CreateViewModel { source_from_sequence: left.source_from_sequence, ..right })
            ||| left == (CreateViewModel { source_through_sequence: left.source_through_sequence, ..right })
            ||| left == (CreateViewModel { source_observation_ids: left.source_observation_ids, ..right })
            ||| left == (CreateViewModel { model: left.model, ..right })
            ||| left == (CreateViewModel { prompt_version: left.prompt_version, ..right })
            ||| left == (CreateViewModel { token_count: left.token_count, ..right })
            ||| left == (CreateViewModel { expected_previous_view_id: left.expected_previous_view_id, ..right })
            ||| left == (CreateViewModel { idempotency_key: left.idempotency_key, ..right })
        }),
    ensures
        left.scope_id == right.scope_id,
        left.stream_id == right.stream_id,
        left.kind == right.kind,
        left.content == right.content,
        left.source_from_sequence == right.source_from_sequence,
        left.source_through_sequence == right.source_through_sequence,
        left.source_observation_ids == right.source_observation_ids,
        left.model == right.model,
        left.prompt_version == right.prompt_version,
        left.token_count == right.token_count,
        left.expected_previous_view_id == right.expected_previous_view_id,
        left.idempotency_key == right.idempotency_key,
{
    let fields = seq![
        ("scopeId"@, json_quoted(left.scope_id)),
        ("streamId"@, json_quoted(left.stream_id)),
        ("kind"@, json_quoted(left.kind.label())),
        ("content"@, json_quoted(left.content)),
        ("sourceFromSequence"@, decimal(left.source_from_sequence as int)),
        ("sourceThroughSequence"@, decimal(left.source_through_sequence as int)),
        ("sourceObservationIds"@, string_array_text(left.source_observation_ids)),
        ("model"@, optional_quoted(left.model)),
        ("promptVersion"@, optional_quoted(left.prompt_version)),
        ("tokenCount"@, optional_decimal(left.token_count)),
        ("expectedPreviousViewId"@, optional_quoted(left.expected_previous_view_id)),
        ("idempotencyKey"@, json_quoted(left.idempotency_key)),
    ];
    let other = seq![
        ("scopeId"@, json_quoted(right.scope_id)),
        ("streamId"@, json_quoted(right.stream_id)),
        ("kind"@, json_quoted(right.kind.label())),
        ("content"@, json_quoted(right.content)),
        ("sourceFromSequence"@, decimal(right.source_from_sequence as int)),
        ("sourceThroughSequence"@, decimal(right.source_through_sequence as int)),
        ("sourceObservationIds"@, string_array_text(right.source_observation_ids)),
        ("model"@, optional_quoted(right.model)),
        ("promptVersion"@, optional_quoted(right.prompt_version)),
        ("tokenCount"@, optional_decimal(right.token_count)),
        ("expectedPreviousViewId"@, optional_quoted(right.expected_previous_view_id)),
        ("idempotencyKey"@, json_quoted(right.idempotency_key)),
    ];
    if left == (CreateViewModel { scope_id: left.scope_id, ..right }) {
        assert(other =~= fields.update(0, other[0]));
        fields_differ(fields, other, 0);
        quoted_differ(left.scope_id, right.scope_id);
    } else if left == (CreateViewModel { stream_id: left.stream_id, ..right }) {
        assert(other =~= fields.update(1, other[1]));
        fields_differ(fields, other, 1);
        quoted_differ(left.stream_id, right.stream_id);
    } else if left == (CreateViewModel { kind: left.kind, ..right }) {
        assert(other =~= fields.update(2, other[2]));
        fields_differ(fields, other, 2);
        quoted_differ(left.kind.label(), right.kind.label());
        <ViewKind as Labelled>::labels_differ(left.kind, right.kind);
    } else if left == (CreateViewModel { content: left.content, ..right }) {
        assert(other =~= fields.update(3, other[3]));
        fields_differ(fields, other, 3);
        quoted_differ(left.content, right.content);
    } else if left == (CreateViewModel { source_from_sequence: left.source_from_sequence, ..right }) {
        assert(other =~= fields.update(4, other[4]));
        fields_differ(fields, other, 4);
        decimals_differ(left.source_from_sequence as int, right.source_from_sequence as int);
    } else if left == (CreateViewModel { source_through_sequence: left.source_through_sequence, ..right }) {
        assert(other =~= fields.update(5, other[5]));
        fields_differ(fields, other, 5);
        decimals_differ(left.source_through_sequence as int, right.source_through_sequence as int);
    } else if left == (CreateViewModel { source_observation_ids: left.source_observation_ids, ..right }) {
        assert(other =~= fields.update(6, other[6]));
        fields_differ(fields, other, 6);
        string_arrays_differ(left.source_observation_ids, right.source_observation_ids);
    } else if left == (CreateViewModel { model: left.model, ..right }) {
        assert(other =~= fields.update(7, other[7]));
        fields_differ(fields, other, 7);
        optional_quoted_differ(left.model, right.model);
    } else if left == (CreateViewModel { prompt_version: left.prompt_version, ..right }) {
        assert(other =~= fields.update(8, other[8]));
        fields_differ(fields, other, 8);
        optional_quoted_differ(left.prompt_version, right.prompt_version);
    } else if left == (CreateViewModel { token_count: left.token_count, ..right }) {
        assert(other =~= fields.update(9, other[9]));
        fields_differ(fields, other, 9);
        optional_decimals_differ(left.token_count, right.token_count);
    } else if left == (CreateViewModel { expected_previous_view_id: left.expected_previous_view_id, ..right }) {
        assert(other =~= fields.update(10, other[10]));
        fields_differ(fields, other, 10);
        optional_quoted_differ(left.expected_previous_view_id, right.expected_previous_view_id);
    } else if left == (CreateViewModel { idempotency_key: left.idempotency_key, ..right }) {
        assert(other =~= fields.update(11, other[11]));
        fields_differ(fields, other, 11);
        quoted_differ(left.idempotency_key, right.idempotency_key);
    }
}

/// Two statements of claims that differ in one field have different request texts.
pub proof fn claim_requests_differ(left: ClaimRequestModel, right: ClaimRequestModel)
    requires
        direct_request(left) == direct_request(right),
        ({
            ||| left == (ClaimRequestModel { authority: left.authority, ..right })
            ||| left == (ClaimRequestModel { cardinality: left.cardinality, ..right })
            ||| left == (ClaimRequestModel { kind: left.kind, ..right })
            ||| left == (ClaimRequestModel { modality: left.modality, ..right })
            ||| left == (ClaimRequestModel { predicate: left.predicate, ..right })
            ||| left == (ClaimRequestModel { status: left.status, ..right })
            ||| left == (ClaimRequestModel { scope_id: left.scope_id, ..right })
            ||| left == (ClaimRequestModel { source_event_ids: left.source_event_ids, ..right })
            ||| left == (ClaimRequestModel { subject: left.subject, ..right })
            ||| left == (ClaimRequestModel { value: left.value, ..right })
        }),
    ensures
        left.authority == right.authority,
        left.cardinality == right.cardinality,
        left.kind == right.kind,
        left.modality == right.modality,
        left.predicate == right.predicate,
        left.status == right.status,
        left.scope_id == right.scope_id,
        left.source_event_ids == right.source_event_ids,
        left.subject == right.subject,
        left.value == right.value,
{
    let fields = seq![
        ("authority"@, json_quoted(left.authority.label())),
        ("cardinality"@, json_quoted(left.cardinality.label())),
        ("kind"@, json_quoted(left.kind.label())),
        ("modality"@, json_quoted(left.modality.label())),
        ("predicate"@, json_quoted(left.predicate)),
        ("requestedStatus"@, json_quoted(left.status.label())),
        ("scopeId"@, json_quoted(left.scope_id)),
        ("sourceEventIds"@, string_array_text(left.source_event_ids)),
        ("subject"@, json_quoted(left.subject)),
        ("value"@, left.value),
    ];
    let other = seq![
        ("authority"@, json_quoted(right.authority.label())),
        ("cardinality"@, json_quoted(right.cardinality.label())),
        ("kind"@, json_quoted(right.kind.label())),
        ("modality"@, json_quoted(right.modality.label())),
        ("predicate"@, json_quoted(right.predicate)),
        ("requestedStatus"@, json_quoted(right.status.label())),
        ("scopeId"@, json_quoted(right.scope_id)),
        ("sourceEventIds"@, string_array_text(right.source_event_ids)),
        ("subject"@, json_quoted(right.subject)),
        ("value"@, right.value),
    ];
    if left == (ClaimRequestModel { authority: left.authority, ..right }) {
        assert(other =~= fields.update(0, other[0]));
        fields_differ(fields, other, 0);
        quoted_differ(left.authority.label(), right.authority.label());
        <ClaimAuthority as Labelled>::labels_differ(left.authority, right.authority);
    } else if left == (ClaimRequestModel { cardinality: left.cardinality, ..right }) {
        assert(other =~= fields.update(1, other[1]));
        fields_differ(fields, other, 1);
        quoted_differ(left.cardinality.label(), right.cardinality.label());
        <ClaimCardinality as Labelled>::labels_differ(left.cardinality, right.cardinality);
    } else if left == (ClaimRequestModel { kind: left.kind, ..right }) {
        assert(other =~= fields.update(2, other[2]));
        fields_differ(fields, other, 2);
        quoted_differ(left.kind.label(), right.kind.label());
        <ClaimKind as Labelled>::labels_differ(left.kind, right.kind);
    } else if left == (ClaimRequestModel { modality: left.modality, ..right }) {
        assert(other =~= fields.update(3, other[3]));
        fields_differ(fields, other, 3);
        quoted_differ(left.modality.label(), right.modality.label());
        <ClaimModality as Labelled>::labels_differ(left.modality, right.modality);
    } else if left == (ClaimRequestModel { predicate: left.predicate, ..right }) {
        assert(other =~= fields.update(4, other[4]));
        fields_differ(fields, other, 4);
        quoted_differ(left.predicate, right.predicate);
    } else if left == (ClaimRequestModel { status: left.status, ..right }) {
        assert(other =~= fields.update(5, other[5]));
        fields_differ(fields, other, 5);
        quoted_differ(left.status.label(), right.status.label());
        <ClaimStatus as Labelled>::labels_differ(left.status, right.status);
    } else if left == (ClaimRequestModel { scope_id: left.scope_id, ..right }) {
        assert(other =~= fields.update(6, other[6]));
        fields_differ(fields, other, 6);
        quoted_differ(left.scope_id, right.scope_id);
    } else if left == (ClaimRequestModel { source_event_ids: left.source_event_ids, ..right }) {
        assert(other =~= fields.update(7, other[7]));
        fields_differ(fields, other, 7);
        string_arrays_differ(left.source_event_ids, right.source_event_ids);
    } else if left == (ClaimRequestModel { subject: left.subject, ..right }) {
        assert(other =~= fields.update(8, other[8]));
        fields_differ(fields, other, 8);
        quoted_differ(left.subject, right.subject);
    } else if left == (ClaimRequestModel { value: left.value, ..right }) {
        assert(other =~= fields.update(9, other[9]));
        fields_differ(fields, other, 9);
    }
}

/// Two drafts of observations that differ in one field are written differently; scores count by how
/// they are written.
pub proof fn observation_drafts_differ(left: ObservationDraftModel, right: ObservationDraftModel)
    requires
        (observation_json())(left) == (observation_json())(right),
        ({
            ||| left == (ObservationDraftModel { kind: left.kind, ..right })
            ||| left == (ObservationDraftModel { content: left.content, ..right })
            ||| left == (ObservationDraftModel { importance: left.importance, ..right })
            ||| left == (ObservationDraftModel { confidence: left.confidence, ..right })
            ||| left == (ObservationDraftModel { source_event_ids: left.source_event_ids, ..right })
            ||| left == (ObservationDraftModel { event_time_from: left.event_time_from, ..right })
            ||| left == (ObservationDraftModel { event_time_to: left.event_time_to, ..right })
        }),
    ensures
        left.kind == right.kind,
        left.content == right.content,
        left.importance.json == right.importance.json,
        left.confidence.json == right.confidence.json,
        left.source_event_ids == right.source_event_ids,
        left.event_time_from == right.event_time_from,
        left.event_time_to == right.event_time_to,
{
    let fields = seq![
        ("kind"@, json_quoted(left.kind.label())),
        ("content"@, json_quoted(left.content)),
        ("importance"@, left.importance.json),
        ("confidence"@, left.confidence.json),
        ("sourceEventIds"@, string_array_text(left.source_event_ids)),
        ("eventTimeFrom"@, optional_quoted(left.event_time_from)),
        ("eventTimeTo"@, optional_quoted(left.event_time_to)),
    ];
    let other = seq![
        ("kind"@, json_quoted(right.kind.label())),
        ("content"@, json_quoted(right.content)),
        ("importance"@, right.importance.json),
        ("confidence"@, right.confidence.json),
        ("sourceEventIds"@, string_array_text(right.source_event_ids)),
        ("eventTimeFrom"@, optional_quoted(right.event_time_from)),
        ("eventTimeTo"@, optional_quoted(right.event_time_to)),
    ];
    if left == (ObservationDraftModel { kind: left.kind, ..right }) {
        assert(other =~= fields.update(0, other[0]));
        fields_differ(fields, other, 0);
        quoted_differ(left.kind.label(), right.kind.label());
        <ObservationKind as Labelled>::labels_differ(left.kind, right.kind);
    } else if left == (ObservationDraftModel { content: left.content, ..right }) {
        assert(other =~= fields.update(1, other[1]));
        fields_differ(fields, other, 1);
        quoted_differ(left.content, right.content);
    } else if left == (ObservationDraftModel { importance: left.importance, ..right }) {
        assert(other =~= fields.update(2, other[2]));
        fields_differ(fields, other, 2);
    } else if left == (ObservationDraftModel { confidence: left.confidence, ..right }) {
        assert(other =~= fields.update(3, other[3]));
        fields_differ(fields, other, 3);
    } else if left == (ObservationDraftModel { source_event_ids: left.source_event_ids, ..right }) {
        assert(other =~= fields.update(4, other[4]));
        fields_differ(fields, other, 4);
        string_arrays_differ(left.source_event_ids, right.source_event_ids);
    } else if left == (ObservationDraftModel { event_time_from: left.event_time_from, ..right }) {
        assert(other =~= fields.update(5, other[5]));
        fields_differ(fields, other, 5);
        optional_quoted_differ(left.event_time_from, right.event_time_from);
    } else if left == (ObservationDraftModel { event_time_to: left.event_time_to, ..right }) {
        assert(other =~= fields.update(6, other[6]));
        fields_differ(fields, other, 6);
        optional_quoted_differ(left.event_time_to, right.event_time_to);
    }
}

/// Two drafts of claims that differ in one field are written differently; scores count by how they
/// are written.
pub proof fn claim_drafts_differ(left: ClaimDraftModel, right: ClaimDraftModel)
    requires
        (claim_json())(left) == (claim_json())(right),
        ({
            ||| left == (ClaimDraftModel { kind: left.kind, ..right })
            ||| left == (ClaimDraftModel { subject: left.subject, ..right })
            ||| left == (ClaimDraftModel { predicate: left.predicate, ..right })
            ||| left == (ClaimDraftModel { cardinality: left.cardinality, ..right })
            ||| left == (ClaimDraftModel { value: left.value, ..right })
            ||| left == (ClaimDraftModel { modality: left.modality, ..right })
            ||| left == (ClaimDraftModel { confidence: left.confidence, ..right })
            ||| left == (ClaimDraftModel { source_event_ids: left.source_event_ids, ..right })
        }),
    ensures
        left.kind == right.kind,
        left.subject == right.subject,
        left.predicate == right.predicate,
        left.cardinality == right.cardinality,
        left.value == right.value,
        left.modality == right.modality,
        left.confidence.json == right.confidence.json,
        left.source_event_ids == right.source_event_ids,
{
    let fields = seq![
        ("kind"@, json_quoted(left.kind.label())),
        ("subject"@, json_quoted(left.subject)),
        ("predicate"@, json_quoted(left.predicate)),
        ("cardinality"@, json_quoted(left.cardinality.label())),
        ("value"@, left.value),
        ("modality"@, json_quoted(left.modality.label())),
        ("confidence"@, left.confidence.json),
        ("sourceEventIds"@, string_array_text(left.source_event_ids)),
    ];
    let other = seq![
        ("kind"@, json_quoted(right.kind.label())),
        ("subject"@, json_quoted(right.subject)),
        ("predicate"@, json_quoted(right.predicate)),
        ("cardinality"@, json_quoted(right.cardinality.label())),
        ("value"@, right.value),
        ("modality"@, json_quoted(right.modality.label())),
        ("confidence"@, right.confidence.json),
        ("sourceEventIds"@, string_array_text(right.source_event_ids)),
    ];
    if left == (ClaimDraftModel { kind: left.kind, ..right }) {
        assert(other =~= fields.update(0, other[0]));
        fields_differ(fields, other, 0);
        quoted_differ(left.kind.label(), right.kind.label());
        <ClaimKind as Labelled>::labels_differ(left.kind, right.kind);
    } else if left == (ClaimDraftModel { subject: left.subject, ..right }) {
        assert(other =~= fields.update(1, other[1]));
        fields_differ(fields, other, 1);
        quoted_differ(left.subject, right.subject);
    } else if left == (ClaimDraftModel { predicate: left.predicate, ..right }) {
        assert(other =~= fields.update(2, other[2]));
        fields_differ(fields, other, 2);
        quoted_differ(left.predicate, right.predicate);
    } else if left == (ClaimDraftModel { cardinality: left.cardinality, ..right }) {
        assert(other =~= fields.update(3, other[3]));
        fields_differ(fields, other, 3);
        quoted_differ(left.cardinality.label(), right.cardinality.label());
        <ClaimCardinality as Labelled>::labels_differ(left.cardinality, right.cardinality);
    } else if left == (ClaimDraftModel { value: left.value, ..right }) {
        assert(other =~= fields.update(4, other[4]));
        fields_differ(fields, other, 4);
    } else if left == (ClaimDraftModel { modality: left.modality, ..right }) {
        assert(other =~= fields.update(5, other[5]));
        fields_differ(fields, other, 5);
        quoted_differ(left.modality.label(), right.modality.label());
        <ClaimModality as Labelled>::labels_differ(left.modality, right.modality);
    } else if left == (ClaimDraftModel { confidence: left.confidence, ..right }) {
        assert(other =~= fields.update(6, other[6]));
        fields_differ(fields, other, 6);
    } else if left == (ClaimDraftModel { source_event_ids: left.source_event_ids, ..right }) {
        assert(other =~= fields.update(7, other[7]));
        fields_differ(fields, other, 7);
        string_arrays_differ(left.source_event_ids, right.source_event_ids);
    }
}

/// Two ambiguities that differ in one field are written differently.
pub proof fn ambiguity_drafts_differ(left: AmbiguityDraftModel, right: AmbiguityDraftModel)
    requires
        (ambiguity_json())(left) == (ambiguity_json())(right),
        ({
            ||| left == (AmbiguityDraftModel { description: left.description, ..right })
            ||| left == (AmbiguityDraftModel { source_event_ids: left.source_event_ids, ..right })
        }),
    ensures
        left.description == right.description,
        left.source_event_ids == right.source_event_ids,
{
    let fields = seq![
        ("description"@, json_quoted(left.description)),
        ("sourceEventIds"@, string_array_text(left.source_event_ids)),
    ];
    let other = seq![
        ("description"@, json_quoted(right.description)),
        ("sourceEventIds"@, string_array_text(right.source_event_ids)),
    ];
    if left == (AmbiguityDraftModel { description: left.description, ..right }) {
        assert(other =~= fields.update(0, other[0]));
        fields_differ(fields, other, 0);
        quoted_differ(left.description, right.description);
    } else if left == (AmbiguityDraftModel { source_event_ids: left.source_event_ids, ..right }) {
        assert(other =~= fields.update(1, other[1]));
        fields_differ(fields, other, 1);
        string_arrays_differ(left.source_event_ids, right.source_event_ids);
    }
}

/// Two continuations that differ in one field are written differently.
pub proof fn continuations_differ(left: ContinuationDraftModel, right: ContinuationDraftModel)
    requires
        continuation_json(left) == continuation_json(right),
        ({
            ||| left == (ContinuationDraftModel { current_task: left.current_task, ..right })
            ||| left == (ContinuationDraftModel { completed: left.completed, ..right })
            ||| left == (ContinuationDraftModel { blockers: left.blockers, ..right })
            ||| left == (ContinuationDraftModel { next_actions: left.next_actions, ..right })
            ||| left == (ContinuationDraftModel { unresolved_questions: left.unresolved_questions, ..right })
        }),
    ensures
        left.current_task == right.current_task,
        left.completed == right.completed,
        left.blockers == right.blockers,
        left.next_actions == right.next_actions,
        left.unresolved_questions == right.unresolved_questions,
{
    let fields = seq![
        ("currentTask"@, optional_quoted(left.current_task)),
        ("completed"@, string_array_text(left.completed)),
        ("blockers"@, string_array_text(left.blockers)),
        ("nextActions"@, string_array_text(left.next_actions)),
        ("unresolvedQuestions"@, string_array_text(left.unresolved_questions)),
    ];
    let other = seq![
        ("currentTask"@, optional_quoted(right.current_task)),
        ("completed"@, string_array_text(right.completed)),
        ("blockers"@, string_array_text(right.blockers)),
        ("nextActions"@, string_array_text(right.next_actions)),
        ("unresolvedQuestions"@, string_array_text(right.unresolved_questions)),
    ];
    if left == (ContinuationDraftModel { current_task: left.current_task, ..right }) {
        assert(other =~= fields.update(0, other[0]));
        fields_differ(fields, other, 0);
        optional_quoted_differ(left.current_task, right.current_task);
    } else if left == (ContinuationDraftModel { completed: left.completed, ..right }) {
        assert(other =~= fields.update(1, other[1]));
        fields_differ(fields, other, 1);
        string_arrays_differ(left.completed, right.completed);
    } else if left == (ContinuationDraftModel { blockers: left.blockers, ..right }) {
        assert(other =~= fields.update(2, other[2]));
        fields_differ(fields, other, 2);
        string_arrays_differ(left.blockers, right.blockers);
    } else if left == (ContinuationDraftModel { next_actions: left.next_actions, ..right }) {
        assert(other =~= fields.update(3, other[3]));
        fields_differ(fields, other, 3);
        string_arrays_differ(left.next_actions, right.next_actions);
    } else if left == (ContinuationDraftModel { unresolved_questions: left.unresolved_questions, ..right }) {
        assert(other =~= fields.update(4, other[4]));
        fields_differ(fields, other, 4);
        string_arrays_differ(left.unresolved_questions, right.unresolved_questions);
    }
}

/// Two results that differ in one item, in the continuation or in the reason for finding nothing
/// are committed by different request texts, where these are written differently; and so are
/// results for different runs.
#[verifier::rlimit(40)]
pub proof fn commit_requests_differ(
    run_id: Text,
    left: ObserverResultModel,
    right: ObserverResultModel,
    i: int,
)
    requires
        commit_request(run_id, left) == commit_request(run_id, right),
    ensures
        0 <= i < left.observations.len() && right == (ObserverResultModel {
            observations: left.observations.update(i, right.observations[i]),
            ..left
        }) ==> (observation_json())(left.observations[i]) == (observation_json())(
            right.observations[i],
        ),
        0 <= i < left.claims.len() && right == (ObserverResultModel {
            claims: left.claims.update(i, right.claims[i]),
            ..left
        }) ==> (claim_json())(left.claims[i]) == (claim_json())(right.claims[i]),
        0 <= i < left.ambiguities.len() && right == (ObserverResultModel {
            ambiguities: left.ambiguities.update(i, right.ambiguities[i]),
            ..left
        }) ==> (ambiguity_json())(left.ambiguities[i]) == (ambiguity_json())(
            right.ambiguities[i],
        ),
        right == (ObserverResultModel { continuation: right.continuation, ..left })
            ==> continuation_json(left.continuation) == continuation_json(right.continuation),
        right == (ObserverResultModel { empty_reason: right.empty_reason, ..left })
            ==> left.empty_reason == right.empty_reason,
{
    let a = seq![json_quoted(run_id), result_json(left)];
    let b = seq![json_quoted(run_id), result_json(right)];
    assert(b =~= a.update(1, b[1]));
    items_differ(a, b, 1);
    if 0 <= i < left.observations.len() && right == (ObserverResultModel {
        observations: left.observations.update(i, right.observations[i]),
        ..left
    }) {
        results_differ_in_observations(left, right, i);
    }
    if 0 <= i < left.claims.len() && right == (ObserverResultModel {
        claims: left.claims.update(i, right.claims[i]),
        ..left
    }) {
        results_differ_in_claims(left, right, i);
    }
    if 0 <= i < left.ambiguities.len() && right == (ObserverResultModel {
        ambiguities: left.ambiguities.update(i, right.ambiguities[i]),
        ..left
    }) {
        results_differ_in_ambiguities(left, right, i);
    }
    if right == (ObserverResultModel { continuation: right.continuation, ..left }) {
        result_fields_differ(left, right, 2);
    }
    if right == (ObserverResultModel { empty_reason: right.empty_reason, ..left }) {
        result_fields_differ(left, right, 4);
        optional_quoted_differ(left.empty_reason, right.empty_reason);
    }
}

proof fn results_differ_in_observations(
    left: ObserverResultModel,
    right: ObserverResultModel,
    i: int,
)
    requires
        result_json(left) == result_json(right),
        0 <= i < left.observations.len(),
        right == (ObserverResultModel {
            observations: left.observations.update(i, right.observations[i]),
            ..left
        }),
    ensures
        (observation_json())(left.observations[i]) == (observation_json())(right.observations[i]),
{
    result_fields_differ(left, right, 0);
    let x = left.observations.map_values(observation_json());
    let y = right.observations.map_values(observation_json());
    assert(y =~= x.update(i, y[i]));
    items_differ(x, y, i);
}

proof fn results_differ_in_claims(
    left: ObserverResultModel,
    right: ObserverResultModel,
    i: int,
)
    requires
        result_json(left) == result_json(right),
        0 <= i < left.claims.len(),
        right == (ObserverResultModel {
            claims: left.claims.update(i, right.claims[i]),
            ..left
        }),
    ensures
        (claim_json())(left.claims[i]) == (claim_json())(right.claims[i]),
{
    result_fields_differ(left, right, 1);
    let x = left.claims.map_values(claim_json());
    let y = right.claims.map_values(claim_json());
    assert(y =~= x.update(i, y[i]));
    items_differ(x, y, i);
}

proof fn results_differ_in_ambiguities(
    left: ObserverResultModel,
    right: ObserverResultModel,
    i: int,
)
    requires
        result_json(left) == result_json(right),
        0 <= i < left.ambiguities.len(),
        right == (ObserverResultModel {
            ambiguities: left.ambiguities.update(i, right.ambiguities[i]),
            ..left
        }),
    ensures
        (ambiguity_json())(left.ambiguities[i]) == (ambiguity_json())(right.ambiguities[i]),
{
    result_fields_differ(left, right, 3);
    let x = left.ambiguities.map_values(ambiguity_json());
    let y = right.ambiguities.map_values(ambiguity_json());
    assert(y =~= x.update(i, y[i]));
    items_differ(x, y, i);
}

spec fn result_fields(result: ObserverResultModel) -> Seq<(Text, Text)> {
    seq![
        ("observations"@, array_text(result.observations.map_values(observation_json()))),
        ("claims"@, array_text(result.claims.map_values(claim_json()))),
        ("continuation"@, continuation_json(result.continuation)),
        ("ambiguities"@, array_text(result.ambiguities.map_values(ambiguity_json()))),
        ("emptyReason"@, optional_quoted(result.empty_reason)),
    ]
}

proof fn result_fields_differ(left: ObserverResultModel, right: ObserverResultModel, k: int)
    requires
        result_json(left) == result_json(right),
        0 <= k < 5,
        forall|n: int|
            0 <= n < 5 && n != k ==> #[trigger] result_fields(left)[n] == result_fields(right)[n],
    ensures
        result_fields(left)[k].1 == result_fields(right)[k].1,
{
    let fields = result_fields(left);
    let other = result_fields(right);
    assert(other =~= fields.update(k, other[k]));
    fields_differ(fields, other, k);
}

/// Results for different runs, and failures of different runs or for different reasons, have
/// different request texts.
pub proof fn run_requests_differ(
    run_id: Text,
    other_id: Text,
    result: ObserverResultModel,
    reason: Text,
    other_reason: Text,
)
    ensures
        commit_request(run_id, result) == commit_request(other_id, result) ==> run_id == other_id,
        fail_request(run_id, reason) == fail_request(other_id, reason) ==> run_id == other_id,
        fail_request(run_id, reason) == fail_request(run_id, other_reason) ==> reason
            == other_reason,
{
    let a = seq![json_quoted(run_id), result_json(result)];
    let b = seq![json_quoted(other_id), result_json(result)];
    assert(b =~= a.update(0, b[0]));
    if commit_request(run_id, result) == commit_request(other_id, result) {
        items_differ(a, b, 0);
        quoted_differ(run_id, other_id);
    }
    let c = seq![json_quoted(run_id), json_quoted(reason)];
    let d = seq![json_quoted(other_id), json_quoted(reason)];
    let e = seq![json_quoted(run_id), json_quoted(other_reason)];
    assert(d =~= c.update(0, d[0]));
    assert(e =~= c.update(1, e[1]));
    if fail_request(run_id, reason) == fail_request(other_id, reason) {
        items_differ(c, d, 0);
        quoted_differ(run_id, other_id);
    }
    if fail_request(run_id, reason) == fail_request(run_id, other_reason) {
        items_differ(c, e, 1);
        quoted_differ(reason, other_reason);
    }
}

/// Two scopes to be created that differ in one respect have different request texts.
pub proof fn scope_requests_differ(
    id: Text,
    kind: ScopeKind,
    parent_id: Option<Text>,
    name: Option<Text>,
    other_id: Text,
    other_kind: ScopeKind,
    other_parent_id: Option<Text>,
    other_name: Option<Text>,
)
    ensures
        scope_request(id, kind, parent_id, name) == scope_request(other_id, kind, parent_id, name)
            ==> id == other_id,
        scope_request(id, kind, parent_id, name) == scope_request(id, other_kind, parent_id, name)
            ==> kind == other_kind,
        scope_request(id, kind, parent_id, name) == scope_request(id, kind, other_parent_id, name)
            ==> parent_id == other_parent_id,
        scope_request(id, kind, parent_id, name) == scope_request(id, kind, parent_id, other_name)
            ==> name == other_name,
{
    if scope_request(id, kind, parent_id, name) == scope_request(other_id, kind, parent_id, name) {
        let fields = seq![
            ("id"@, json_quoted(id)),
            ("kind"@, json_quoted(kind.label())),
            ("name"@, optional_quoted(name)),
            ("parentId"@, optional_quoted(parent_id)),
        ];
        let other = seq![
            ("id"@, json_quoted(other_id)),
            ("kind"@, json_quoted(kind.label())),
            ("name"@, optional_quoted(name)),
            ("parentId"@, optional_quoted(parent_id)),
        ];
        assert(other =~= fields.update(0, other[0]));
        fields_differ(fields, other, 0);
        quoted_differ(id, other_id);
    }
    if scope_request(id, kind, parent_id, name) == scope_request(id, other_kind, parent_id, name) {
        let fields = seq![
            ("id"@, json_quoted(id)),
            ("kind"@, json_quoted(kind.label())),
            ("name"@, optional_quoted(name)),
            ("parentId"@, optional_quoted(parent_id)),
        ];
        let other = seq![
            ("id"@, json_quoted(id)),
            ("kind"@, json_quoted(other_kind.label())),
            ("name"@, optional_quoted(name)),
            ("parentId"@, optional_quoted(parent_id)),
        ];
        assert(other =~= fields.update(1, other[1]));
        fields_differ(fields, other, 1);
        quoted_differ(kind.label(), other_kind.label());
        <ScopeKind as Labelled>::labels_differ(kind, other_kind);
    }
    if scope_request(id, kind, parent_id, name) == scope_request(id, kind, parent_id, other_name) {
        let fields = seq![
            ("id"@, json_quoted(id)),
            ("kind"@, json_quoted(kind.label())),
            ("name"@, optional_quoted(name)),
            ("parentId"@, optional_quoted(parent_id)),
        ];
        let other = seq![
            ("id"@, json_quoted(id)),
            ("kind"@, json_quoted(kind.label())),
            ("name"@, optional_quoted(other_name)),
            ("parentId"@, optional_quoted(parent_id)),
        ];
        assert(other =~= fields.update(2, other[2]));
        fields_differ(fields, other, 2);
        optional_quoted_differ(name, other_name);
    }
    if scope_request(id, kind, parent_id, name) == scope_request(id, kind, other_parent_id, name) {
        let fields = seq![
            ("id"@, json_quoted(id)),
            ("kind"@, json_quoted(kind.label())),
            ("name"@, optional_quoted(name)),
            ("parentId"@, optional_quoted(parent_id)),
        ];
        let other = seq![
            ("id"@, json_quoted(id)),
            ("kind"@, json_quoted(kind.label())),
            ("name"@, optional_quoted(name)),
            ("parentId"@, optional_quoted(other_parent_id)),
        ];
        assert(other =~= fields.update(3, other[3]));
        fields_differ(fields, other, 3);
        optional_quoted_differ(parent_id, other_parent_id);
    }
}

/// Two plans to be made that differ in one respect have different request texts.
pub proof fn plan_requests_differ(
    scope_id: Text,
    stream_id: Text,
    max_tokens: i64,
    model: Text,
    version: Text,
    text: Text,
    number: i64,
)
    ensures
        ({
            let asked = plan_request(scope_id, stream_id, max_tokens, model, version);
            &&& asked == plan_request(text, stream_id, max_tokens, model, version) ==> scope_id
                == text
            &&& asked == plan_request(scope_id, text, max_tokens, model, version) ==> stream_id
                == text
            &&& asked == plan_request(scope_id, stream_id, number, model, version) ==> max_tokens
                == number
            &&& asked == plan_request(scope_id, stream_id, max_tokens, text, version) ==> model
                == text
            &&& asked == plan_request(scope_id, stream_id, max_tokens, model, text) ==> version
                == text
        }),
{
    let asked = plan_request(scope_id, stream_id, max_tokens, model, version);
    if asked == plan_request(scope_id, stream_id, number, model, version) {
        let fields = seq![
            ("maxTokens"@, decimal(max_tokens as int)),
            ("observerModel"@, json_quoted(model)),
            ("promptVersion"@, json_quoted(version)),
            ("scopeId"@, json_quoted(scope_id)),
            ("streamId"@, json_quoted(stream_id)),
        ];
        let other = seq![
            ("maxTokens"@, decimal(number as int)),
            ("observerModel"@, json_quoted(model)),
            ("promptVersion"@, json_quoted(version)),
            ("scopeId"@, json_quoted(scope_id)),
            ("streamId"@, json_quoted(stream_id)),
        ];
        assert(other =~= fields.update(0, other[0]));
        fields_differ(fields, other, 0);
        decimals_differ(max_tokens as int, number as int);
    }
    if asked == plan_request(scope_id, stream_id, max_tokens, text, version) {
        let fields = seq![
            ("maxTokens"@, decimal(max_tokens as int)),
            ("observerModel"@, json_quoted(model)),
            ("promptVersion"@, json_quoted(version)),
            ("scopeId"@, json_quoted(scope_id)),
            ("streamId"@, json_quoted(stream_id)),
        ];
        let other = seq![
            ("maxTokens"@, decimal(max_tokens as int)),
            ("observerModel"@, json_quoted(text)),
            ("promptVersion"@, json_quoted(version)),
            ("scopeId"@, json_quoted(scope_id)),
            ("streamId"@, json_quoted(stream_id)),
        ];
        assert(other =~= fields.update(1, other[1]));
        fields_differ(fields, other, 1);
        quoted_differ(model, text);
    }
    if asked == plan_request(scope_id, stream_id, max_tokens, model, text) {
        let fields = seq![
            ("maxTokens"@, decimal(max_tokens as int)),
            ("observerModel"@, json_quoted(model)),
            ("promptVersion"@, json_quoted(version)),
            ("scopeId"@, json_quoted(scope_id)),
            ("streamId"@, json_quoted(stream_id)),
        ];
        let other = seq![
            ("maxTokens"@, decimal(max_tokens as int)),
            ("observerModel"@, json_quoted(model)),
            ("promptVersion"@, json_quoted(text)),
            ("scopeId"@, json_quoted(scope_id)),
            ("streamId"@, json_quoted(stream_id)),
        ];
        assert(other =~= fields.update(2, other[2]));
        fields_differ(fields, other, 2);
        quoted_differ(version, text);
    }
    if asked == plan_request(text, stream_id, max_tokens, model, version) {
        let fields = seq![
            ("maxTokens"@, decimal(max_tokens as int)),
            ("observerModel"@, json_quoted(model)),
            ("promptVersion"@, json_quoted(version)),
            ("scopeId"@, json_quoted(scope_id)),
            ("streamId"@, json_quoted(stream_id)),
        ];
        let other = seq![
            ("maxTokens"@, decimal(max_tokens as int)),
            ("observerModel"@, json_quoted(model)),
            ("promptVersion"@, json_quoted(version)),
            ("scopeId"@, json_quoted(text)),
            ("streamId"@, json_quoted(stream_id)),
        ];
        assert(other =~= fields.update(3, other[3]));
        fields_differ(fields, other, 3);
        quoted_differ(scope_id, text);
    }
    if asked == plan_request(scope_id, text, max_tokens, model, version) {
        let fields = seq![
            ("maxTokens"@, decimal(max_tokens as int)),
            ("observerModel"@, json_quoted(model)),
            ("promptVersion"@, json_quoted(version)),
            ("scopeId"@, json_quoted(scope_id)),
            ("streamId"@, json_quoted(stream_id)),
        ];
        let other = seq![
            ("maxTokens"@, decimal(max_tokens as int)),
            ("observerModel"@, json_quoted(model)),
            ("promptVersion"@, json_quoted(version)),
            ("scopeId"@, json_quoted(scope_id)),
            ("streamId"@, json_quoted(text)),
        ];
        assert(other =~= fields.update(4, other[4]));
        fields_differ(fields, other, 4);
        quoted_differ(stream_id, text);
    }
}

/// Two commands on claims that differ in one respect have different request texts.
pub proof fn claim_commands_differ(
    claim_id: Text,
    other_id: Text,
    value: Text,
    other_value: Text,
    event_ids: Seq<Text>,
    other_event_ids: Seq<Text>,
    scope_id: Text,
    other_scope_id: Text,
    status: ClaimStatus,
    other_status: ClaimStatus,
)
    ensures
        confirm_request(claim_id) == confirm_request(other_id) ==> claim_id == other_id,
        correct_request(claim_id, value, event_ids) == correct_request(other_id, value, event_ids)
            ==> claim_id == other_id,
        correct_request(claim_id, value, event_ids) == correct_request(
            claim_id,
            other_value,
            event_ids,
        ) ==> value == other_value,
        correct_request(claim_id, value, event_ids) == correct_request(
            claim_id,
            value,
            other_event_ids,
        ) ==> event_ids == other_event_ids,
        rescope_request(claim_id, scope_id) == rescope_request(other_id, scope_id) ==> claim_id
            == other_id,
        rescope_request(claim_id, scope_id) == rescope_request(claim_id, other_scope_id)
            ==> scope_id == other_scope_id,
        close_request(claim_id, status) == close_request(other_id, status) ==> claim_id
            == other_id,
        close_request(claim_id, status) == close_request(claim_id, other_status) ==> status
            == other_status,
{
    if confirm_request(claim_id) == confirm_request(other_id) {
        let fields = seq![
            ("claimId"@, json_quoted(claim_id)),
        ];
        let other = seq![
            ("claimId"@, json_quoted(other_id)),
        ];
        assert(other =~= fields.update(0, other[0]));
        fields_differ(fields, other, 0);
        quoted_differ(claim_id, other_id);
    }
    if correct_request(claim_id, value, event_ids) == correct_request(other_id, value, event_ids) {
        let fields = seq![
            ("claimId"@, json_quoted(claim_id)),
            ("sourceEventIds"@, string_array_text(event_ids)),
            ("value"@, value),
        ];
        let other = seq![
            ("claimId"@, json_quoted(other_id)),
            ("sourceEventIds"@, string_array_text(event_ids)),
            ("value"@, value),
        ];
        assert(other =~= fields.update(0, other[0]));
        fields_differ(fields, other, 0);
        quoted_differ(claim_id, other_id);
    }
    if correct_request(claim_id, value, event_ids) == correct_request(claim_id, value, other_event_ids) {
        let fields = seq![
            ("claimId"@, json_quoted(claim_id)),
            ("sourceEventIds"@, string_array_text(event_ids)),
            ("value"@, value),
        ];
        let other = seq![
            ("claimId"@, json_quoted(claim_id)),
            ("sourceEventIds"@, string_array_text(other_event_ids)),
            ("value"@, value),
        ];
        assert(other =~= fields.update(1, other[1]));
        fields_differ(fields, other, 1);
        string_arrays_differ(event_ids, other_event_ids);
    }
    if correct_request(claim_id, value, event_ids) == correct_request(claim_id, other_value, event_ids) {
        let fields = seq![
            ("claimId"@, json_quoted(claim_id)),
            ("sourceEventIds"@, string_array_text(event_ids)),
            ("value"@, value),
        ];
        let other = seq![
            ("claimId"@, json_quoted(claim_id)),
            ("sourceEventIds"@, string_array_text(event_ids)),
            ("value"@, other_value),
        ];
        assert(other =~= fields.update(2, other[2]));
        fields_differ(fields, other, 2);
    }
    if rescope_request(claim_id, scope_id) == rescope_request(other_id, scope_id) {
        let fields = seq![
            ("claimId"@, json_quoted(claim_id)),
            ("newScopeId"@, json_quoted(scope_id)),
        ];
        let other = seq![
            ("claimId"@, json_quoted(other_id)),
            ("newScopeId"@, json_quoted(scope_id)),
        ];
        assert(other =~= fields.update(0, other[0]));
        fields_differ(fields, other, 0);
        quoted_differ(claim_id, other_id);
    }
    if rescope_request(claim_id, scope_id) == rescope_request(claim_id, other_scope_id) {
        let fields = seq![
            ("claimId"@, json_quoted(claim_id)),
            ("newScopeId"@, json_quoted(scope_id)),
        ];
        let other = seq![
            ("claimId"@, json_quoted(claim_id)),
            ("newScopeId"@, json_quoted(other_scope_id)),
        ];
        assert(other =~= fields.update(1, other[1]));
        fields_differ(fields, other, 1);
        quoted_differ(scope_id, other_scope_id);
    }
    if close_request(claim_id, status) == close_request(other_id, status) {
        let fields = seq![
            ("claimId"@, json_quoted(claim_id)),
            ("status"@, json_quoted(status.label())),
        ];
        let other = seq![
            ("claimId"@, json_quoted(other_id)),
            ("status"@, json_quoted(status.label())),
        ];
        assert(other =~= fields.update(0, other[0]));
        fields_differ(fields, other, 0);
        quoted_differ(claim_id, other_id);
    }
    if close_request(claim_id, status) == close_request(claim_id, other_status) {
        let fields = seq![
            ("claimId"@, json_quoted(claim_id)),
            ("status"@, json_quoted(status.label())),
        ];
        let other = seq![
            ("claimId"@, json_quoted(claim_id)),
            ("status"@, json_quoted(other_status.label())),
        ];
        assert(other =~= fields.update(1, other[1]));
        fields_differ(fields, other, 1);
        quoted_differ(status.label(), other_status.label());
        <ClaimStatus as Labelled>::labels_differ(status, other_status);
    }
}

} // verus!
