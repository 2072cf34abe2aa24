//! Laws of how commands on claims are recorded as events: under which stream, by whom, and with
//! which content.

use vstd::prelude::*;

use crate::claim::{
    close_operation, close_request, close_step, closed_status, confirm_step, correct_request,
    correct_step, direct_request, direct_step, normalized, rescope_request, rescope_step,
};
use crate::claim_table::{claim_at, command_content};
use crate::digest::json_hash;
use crate::event::stream_at;
use crate::json::{
    command_metadata, field_text, json_quoted, object_text, searchable, string_array_text,
};
use crate::kind::{EventKind, Labelled, Sensitivity};
use crate::law_report::claim_status_words;
use crate::model::{ClaimModel, MemoryEventModel};
use crate::row::{ClaimRequestModel, IndexRowModel, MemoryStoreModel, StreamRowModel};
use crate::stamp::StampModel;
use crate::text::{joined, token_estimate, Text};

verus! {

/// A field as it stands in the text of an object.
pub open spec fn named(name: Text, value: Text) -> Text {
    json_quoted(name) + ":"@ + value
}

/// Whether the streams of a memory take in one more event of a stream, which is made where it is
/// not there: it counts on by one, and the others stay as they are.
pub open spec fn counts_on(
    store: MemoryStoreModel,
    after: MemoryStoreModel,
    stream_id: Text,
    scope_id: Text,
    at: Text,
) -> bool {
    let made = stream_at(store, stream_id) is None;
    &&& after.streams.len() == store.streams.len() + if made {
        1int
    } else {
        0int
    }
    &&& made ==> after.streams.last() == (StreamRowModel {
        id: stream_id,
        scope_id,
        observed_through_sequence: 0,
        next_sequence: 2,
        created_at: at,
    })
    &&& forall|i: int|
        0 <= i < store.streams.len() ==> {
            let stream = store.streams[i];
            let later = #[trigger] after.streams[i];
            &&& later == (StreamRowModel { next_sequence: later.next_sequence, ..stream })
            &&& stream.id != stream_id ==> later == stream
            &&& stream.id == stream_id && stream.next_sequence < i64::MAX ==> later.next_sequence
                == stream.next_sequence + 1
        }
}

/// Whether a memory records a command of a scope as its last event: in the stream of the scope's
/// commands, under the next number of that stream, by the user, with the operation and its request
/// as the content, generated for the claim that it is about, and searchable.
pub open spec fn records(
    store: MemoryStoreModel,
    after: MemoryStoreModel,
    scope_id: Text,
    operation: Text,
    request: Text,
    claim: ClaimModel,
    stamp: StampModel,
) -> bool {
    let content = "{"@ + named("operation"@, json_quoted(operation)) + ","@ + named(
        "request"@,
        request,
    ) + "}"@;
    let event = MemoryEventModel {
        id: stamp.ids[0],
        stream_id: "memory-commands:"@ + scope_id,
        sequence: match stream_at(store, "memory-commands:"@ + scope_id) {
            Some(stream) => stream.next_sequence,
            None => 1,
        },
        scope_id,
        kind: EventKind::MemoryCommand,
        actor_id: Some("explicit-user"@),
        occurred_at: stamp.at,
        recorded_at: stamp.at,
        content,
        content_hash: json_hash(content),
        token_count: token_estimate(content) as i64,
        sensitivity: Sensitivity::Normal,
        metadata: "{"@ + named("generatedBy"@, json_quoted("omk"@)) + ","@ + named(
            "ownerClaimId"@,
            json_quoted(claim.id),
        ) + "}"@,
    };
    &&& after.events == store.events.push(event)
    &&& counts_on(store, after, event.stream_id, scope_id, stamp.at)
    &&& after.index.contains(
        IndexRowModel {
            record_type: "event"@,
            record_id: event.id,
            scope_id,
            text: searchable(content),
        },
    )
}

proof fn one_field(a: (Text, Text))
    ensures
        object_text(seq![a]) == "{"@ + named(a.0, a.1) + "}"@,
{
    let fields = seq![a].map_values(field_text());
    assert(fields =~= seq![named(a.0, a.1)]);
}

proof fn two_fields(a: (Text, Text), b: (Text, Text))
    ensures
        object_text(seq![a, b]) == "{"@ + named(a.0, a.1) + ","@ + named(b.0, b.1) + "}"@,
{
    let fields = seq![a, b].map_values(field_text());
    assert(fields =~= seq![named(a.0, a.1), named(b.0, b.1)]);
    assert(fields.drop_last() =~= seq![named(a.0, a.1)]);
    assert(joined(fields.drop_last(), ","@) == named(a.0, a.1));
    assert(object_text(seq![a, b]) =~= "{"@ + named(a.0, a.1) + ","@ + named(b.0, b.1) + "}"@);
}

proof fn three_fields(a: (Text, Text), b: (Text, Text), c: (Text, Text))
    ensures
        object_text(seq![a, b, c]) == "{"@ + named(a.0, a.1) + ","@ + named(b.0, b.1) + ","@
            + named(c.0, c.1) + "}"@,
{
    let fields = seq![a, b, c].map_values(field_text());
    assert(fields =~= seq![named(a.0, a.1), named(b.0, b.1), named(c.0, c.1)]);
    let front = fields.drop_last();
    assert(front =~= seq![named(a.0, a.1), named(b.0, b.1)]);
    assert(front.drop_last() =~= seq![named(a.0, a.1)]);
    assert(joined(front.drop_last(), ","@) == named(a.0, a.1));
    assert(joined(front, ","@) == named(a.0, a.1) + ","@ + named(b.0, b.1));
    assert(joined(fields, ","@) == joined(front, ","@) + ","@ + named(c.0, c.1));
    assert(object_text(seq![a, b, c]) =~= "{"@ + named(a.0, a.1) + ","@ + named(b.0, b.1) + ","@
        + named(c.0, c.1) + "}"@);
}

proof fn content_is_written(operation: Text, request: Text, owner: Text)
    ensures
        command_content(operation, request) == "{"@ + named("operation"@, json_quoted(operation))
            + ","@ + named("request"@, request) + "}"@,
        command_metadata(owner) == "{"@ + named("generatedBy"@, json_quoted("omk"@))
            + ","@ + named("ownerClaimId"@, json_quoted(owner)) + "}"@,
{
    two_fields(("operation"@, json_quoted(operation)), ("request"@, request));
    two_fields(("generatedBy"@, json_quoted("omk"@)), ("ownerClaimId"@, json_quoted(owner)));
}

/// A statement or a proposal that is carried out is recorded in its scope, under the name of its
/// operation and with its request, subject and predicate trimmed.
pub proof fn statements_are_recorded(
    store: MemoryStoreModel,
    request: ClaimRequestModel,
    key: Text,
    stamp: StampModel,
)
    requires
        stamp.ids.len() == 2,
        direct_step(store, request, key, stamp).1 matches Ok(done) && !done.replayed,
    ensures
        ({
            let (after, answer) = direct_step(store, request, key, stamp);
            records(
                store,
                after,
                request.scope_id,
                request.operation,
                direct_request(normalized(request)),
                answer->Ok_0.data,
                stamp,
            )
        }),
{
    let (after, answer) = direct_step(store, request, key, stamp);
    content_is_written(
        request.operation,
        direct_request(normalized(request)),
        answer->Ok_0.data.id,
    );
    let at = store.index.len() as int;
    assert(after.index[at].record_type == "event"@);
}

/// A confirmation that is carried out is recorded in the scope of its claim, with its claim.
pub proof fn confirmations_are_recorded(
    store: MemoryStoreModel,
    claim_id: Text,
    key: Text,
    stamp: StampModel,
)
    requires
        stamp.ids.len() == 1,
        confirm_step(store, claim_id, key, stamp).1 matches Ok(done) && !done.replayed,
    ensures
        ({
            let (after, answer) = confirm_step(store, claim_id, key, stamp);
            records(
                store,
                after,
                claim_at(store, claim_id).unwrap().scope_id,
                "claim.confirm"@,
                "{"@ + named("claimId"@, json_quoted(claim_id)) + "}"@,
                answer->Ok_0.data,
                stamp,
            )
        }),
{
    let (after, answer) = confirm_step(store, claim_id, key, stamp);
    one_field(("claimId"@, json_quoted(claim_id)));
    content_is_written(
        "claim.confirm"@,
        "{"@ + named("claimId"@, json_quoted(claim_id)) + "}"@,
        answer->Ok_0.data.id,
    );
    let at = store.index.len() as int;
    assert(after.index[at].record_type == "event"@);
}

/// A correction that is carried out is recorded in the scope of its claim, with its claim, the
/// evidence that it names and the new value.
pub proof fn corrections_are_recorded(
    store: MemoryStoreModel,
    claim_id: Text,
    value: Text,
    event_ids: Seq<Text>,
    key: Text,
    stamp: StampModel,
)
    requires
        stamp.ids.len() == 2,
        correct_step(store, claim_id, value, event_ids, key, stamp).1 matches Ok(done)
            && !done.replayed,
    ensures
        ({
            let (after, answer) = correct_step(store, claim_id, value, event_ids, key, stamp);
            records(
                store,
                after,
                claim_at(store, claim_id).unwrap().scope_id,
                "claim.correct"@,
                "{"@ + named("claimId"@, json_quoted(claim_id)) + ","@ + named(
                    "sourceEventIds"@,
                    string_array_text(event_ids),
                ) + ","@ + named("value"@, value) + "}"@,
                answer->Ok_0.data,
                stamp,
            )
        }),
{
    let (after, answer) = correct_step(store, claim_id, value, event_ids, key, stamp);
    three_fields(
        ("claimId"@, json_quoted(claim_id)),
        ("sourceEventIds"@, string_array_text(event_ids)),
        ("value"@, value),
    );
    content_is_written(
        "claim.correct"@,
        correct_request(claim_id, value, event_ids),
        answer->Ok_0.data.id,
    );
    let at = store.index.len() as int;
    assert(after.index[at].record_type == "event"@);
}

/// A move that is carried out is recorded in the scope to which the claim moves, with the claim
/// that moves and that scope.
pub proof fn moves_are_recorded(
    store: MemoryStoreModel,
    claim_id: Text,
    new_scope_id: Text,
    key: Text,
    stamp: StampModel,
)
    requires
        stamp.ids.len() == 2,
        rescope_step(store, claim_id, new_scope_id, key, stamp).1 matches Ok(done)
            && !done.replayed,
    ensures
        ({
            let (after, answer) = rescope_step(store, claim_id, new_scope_id, key, stamp);
            records(
                store,
                after,
                new_scope_id,
                "claim.rescope"@,
                "{"@ + named("claimId"@, json_quoted(claim_id)) + ","@ + named(
                    "newScopeId"@,
                    json_quoted(new_scope_id),
                ) + "}"@,
                answer->Ok_0.data,
                stamp,
            )
        }),
{
    let (after, answer) = rescope_step(store, claim_id, new_scope_id, key, stamp);
    two_fields(
        ("claimId"@, json_quoted(claim_id)),
        ("newScopeId"@, json_quoted(new_scope_id)),
    );
    content_is_written(
        "claim.rescope"@,
        rescope_request(claim_id, new_scope_id),
        answer->Ok_0.data.id,
    );
    let at = store.index.len() as int;
    assert(after.index[at].record_type == "event"@);
}

/// A rejection or forgetting that is carried out is recorded in the scope of its claim, with its
/// claim and what became of it.
pub proof fn closings_are_recorded(
    store: MemoryStoreModel,
    claim_id: Text,
    forget: bool,
    key: Text,
    stamp: StampModel,
)
    requires
        stamp.ids.len() == 1,
        close_step(store, claim_id, forget, key, stamp).1 matches Ok(done) && !done.replayed,
    ensures
        ({
            let (after, answer) = close_step(store, claim_id, forget, key, stamp);
            records(
                store,
                after,
                claim_at(store, claim_id).unwrap().scope_id,
                if forget {
                    "claim.forget"@
                } else {
                    "claim.reject"@
                },
                "{"@ + named("claimId"@, json_quoted(claim_id)) + ","@ + named(
                    "status"@,
                    json_quoted(
                        if forget {
                            "expired"@
                        } else {
                            "rejected"@
                        },
                    ),
                ) + "}"@,
                answer->Ok_0.data,
                stamp,
            )
        }),
{
    let (after, answer) = close_step(store, claim_id, forget, key, stamp);
    let status = closed_status(forget);
    claim_status_words(status);
    two_fields(
        ("claimId"@, json_quoted(claim_id)),
        ("status"@, json_quoted(status.label())),
    );
    content_is_written(
        close_operation(forget),
        close_request(claim_id, status),
        answer->Ok_0.data.id,
    );
    let at = store.index.len() as int;
    assert(after.index[at].record_type == "event"@);
}

} // verus!
