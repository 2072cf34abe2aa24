//! Laws of what is recorded: a scope, an event, a view or a failure says what was asked for, and
//! nothing else changes.

use vstd::prelude::*;

use crate::claim_table::linked_all;
use crate::digest::{json_hash, request_hash};
use crate::event::{
    append_event_step, date_fault, event_named, event_request, redacted, stream_at, stream_named,
    streams_after,
};
use crate::json::{is_object_text, searchable};
use crate::kind::{RunStatus, ScopeKind, ViewKind};
use crate::law_claim::ordered_contains;
use crate::law_event::{filtered_position, kept_position};
use crate::model::{CreateViewModel, MemoryEventModel, NewEventModel};
use crate::observation::{fail_request, fail_step};
use crate::operation::{operation_keyed, prior};
use crate::order::{key_less, ordered, ordered_rows};
use crate::row::{IndexRowModel, LinkModel, MemoryStoreModel, RunRowModel};
use crate::scope::{create_scope_step, scope_named, scope_request};
use crate::stamp::StampModel;
use crate::table::{first_where_at, first_where_found, first_where_none, some_row};
use crate::text::{blank, Text};
use crate::view::{
    create_view_step, latest_view, run_named, view_generation, view_of,
};

verus! {

/// Whether no request has used a key yet.
pub open spec fn key_unused(store: MemoryStoreModel, key: Text) -> bool {
    forall|i: int| 0 <= i < store.operations.len() ==> (#[trigger] store.operations[i]).key != key
}

/// A key that no request has used is free for every operation.
pub proof fn unused_key_is_free(store: MemoryStoreModel, key: Text, operation: Text, hash: Text)
    requires
        key_unused(store, key),
    ensures
        prior(store, key, operation, hash) is Fresh,
{
    first_where_none(store.operations, operation_keyed(key));
}

/// Whether a memory has a scope.
pub open spec fn holds_scope(store: MemoryStoreModel, id: Text) -> bool {
    exists|i: int| 0 <= i < store.scopes.len() && (#[trigger] store.scopes[i]).id == id
}

/// Whether a memory has an event.
pub open spec fn holds_event(store: MemoryStoreModel, id: Text) -> bool {
    exists|i: int| 0 <= i < store.events.len() && (#[trigger] store.events[i]).id == id
}

/// Whether a memory has a stream.
pub open spec fn holds_stream(store: MemoryStoreModel, id: Text) -> bool {
    exists|i: int| 0 <= i < store.streams.len() && (#[trigger] store.streams[i]).id == id
}

pub proof fn scope_is_held(store: MemoryStoreModel, id: Text)
    ensures
        holds_scope(store, id) <==> some_row(store.scopes, scope_named(id)),
{
    let accepts = scope_named(id);
    if holds_scope(store, id) {
        let i = choose|i: int| 0 <= i < store.scopes.len() && (#[trigger] store.scopes[i]).id == id;
        assert(accepts(store.scopes[i]));
    }
    if some_row(store.scopes, accepts) {
        let i = choose|i: int| 0 <= i < store.scopes.len() && accepts(#[trigger] store.scopes[i]);
        assert(store.scopes[i].id == id);
    }
}

pub proof fn event_is_held(store: MemoryStoreModel, id: Text)
    ensures
        holds_event(store, id) <==> some_row(store.events, event_named(id)),
{
    let accepts = event_named(id);
    if holds_event(store, id) {
        let i = choose|i: int| 0 <= i < store.events.len() && (#[trigger] store.events[i]).id == id;
        assert(accepts(store.events[i]));
    }
    if some_row(store.events, accepts) {
        let i = choose|i: int| 0 <= i < store.events.len() && accepts(#[trigger] store.events[i]);
        assert(store.events[i].id == id);
    }
}

pub proof fn stream_is_held(store: MemoryStoreModel, id: Text)
    ensures
        holds_stream(store, id) <==> stream_at(store, id) is Some,
        stream_at(store, id) matches Some(stream) ==> stream.id == id && store.streams.contains(
            stream,
        ),
{
    let accepts = stream_named(id);
    first_where_found(store.streams, accepts);
    if holds_stream(store, id) {
        let i = choose|i: int|
            0 <= i < store.streams.len() && (#[trigger] store.streams[i]).id == id;
        assert(accepts(store.streams[i]));
    }
    if some_row(store.streams, accepts) {
        let i = choose|i: int| 0 <= i < store.streams.len() && accepts(#[trigger] store.streams[i]);
        assert(store.streams[i].id == id);
    }
}

/// A scope that is created is recorded as it was asked for, behind the others, and answered; the
/// rest of the memory stays as it is.
pub proof fn created_scope_is_recorded(
    store: MemoryStoreModel,
    id: Text,
    kind: ScopeKind,
    parent_id: Option<Text>,
    name: Option<Text>,
    key: Text,
    stamp: StampModel,
)
    requires
        create_scope_step(store, id, kind, parent_id, name, key, stamp).1 matches Ok(done)
            && !done.replayed,
    ensures
        ({
            let (after, answer) = create_scope_step(store, id, kind, parent_id, name, key, stamp);
            let scope = after.scopes.last();
            &&& after.scopes == store.scopes.push(scope)
            &&& answer->Ok_0.data == scope
            &&& scope.id == id
            &&& scope.kind == kind
            &&& scope.parent_id == parent_id
            &&& scope.name == name
            &&& scope.created_at == stamp.at
            &&& after == (MemoryStoreModel {
                scopes: after.scopes,
                operations: after.operations,
                ..store
            })
        }),
{
}

/// A scope is created wherever its identifier and its key are new and not blank, and its parent,
/// if it has one, is another scope that is there; and nowhere else.
pub proof fn scopes_can_be_created(
    store: MemoryStoreModel,
    id: Text,
    kind: ScopeKind,
    parent_id: Option<Text>,
    name: Option<Text>,
    key: Text,
    stamp: StampModel,
)
    requires
        key_unused(store, key),
    ensures
        create_scope_step(store, id, kind, parent_id, name, key, stamp).1 is Ok <==> {
            &&& !blank(id)
            &&& !blank(key)
            &&& !holds_scope(store, id)
            &&& parent_id matches Some(parent) ==> parent != id && holds_scope(store, parent)
        },
{
    unused_key_is_free(
        store,
        key,
        "scope.create"@,
        request_hash("scope.create"@, scope_request(id, kind, parent_id, name)),
    );
    scope_is_held(store, id);
    if let Some(parent) = parent_id {
        scope_is_held(store, parent);
    }
}

/// An event that is appended is recorded behind the others. Unless it must not be stored, it has
/// exactly the content and the metadata of the request; in any case it has its kind, its actor, its
/// scope, its stream, its sensitivity and the time that was given. It is numbered as its stream
/// has it due, starting at one.
pub proof fn appended_event_is_recorded(
    store: MemoryStoreModel,
    event: NewEventModel,
    stamp: StampModel,
)
    requires
        stamp.ids.len() == 1,
        append_event_step(store, event, stamp).1 matches Ok(done) && !done.replayed,
    ensures
        ({
            let after = append_event_step(store, event, stamp).0;
            let stored = after.events.last();
            &&& after.events == store.events.push(stored)
            &&& stored.id == stamp.ids[0]
            &&& stored.stream_id == event.stream_id
            &&& stored.scope_id == event.scope_id
            &&& stored.kind == event.kind
            &&& stored.actor_id == event.actor_id
            &&& stored.sensitivity == event.sensitivity
            &&& stored.recorded_at == stamp.at
            &&& stored.occurred_at == match event.occurred_at {
                Some(at) => at,
                None => stamp.at,
            }
            &&& !(event.sensitivity is DoNotStore) ==> stored.content == event.content
                && stored.metadata == event.metadata
            &&& event.sensitivity is DoNotStore ==> stored.content
                == "{\"omitted\":true,\"reason\":\"do-not-store\"}"@ && stored.metadata == "{}"@
            &&& stored.content_hash == json_hash(stored.content)
            &&& match event.token_count {
                Some(count) => !(event.sensitivity is DoNotStore) && event.content.len()
                    + event.metadata.len() < i64::MAX ==> stored.token_count >= count,
                None => true,
            }
            &&& !holds_stream(store, event.stream_id) ==> stored.sequence == 1
            &&& forall|i: int|
                0 <= i < store.streams.len() && (#[trigger] store.streams[i]).id
                    == event.stream_id && (forall|k: int|
                    0 <= k < i ==> (#[trigger] store.streams[k]).id != event.stream_id)
                    ==> stored.sequence == store.streams[i].next_sequence
        }),
{
    stream_is_held(store, event.stream_id);
    reveal_strlit(" ");
    let accepts = stream_named(event.stream_id);
    assert forall|i: int|
        0 <= i < store.streams.len() && (#[trigger] store.streams[i]).id == event.stream_id && (
        forall|k: int|
            0 <= k < i ==> (#[trigger] store.streams[k]).id != event.stream_id) implies
        append_event_step(store, event, stamp).0.events.last().sequence
            == store.streams[i].next_sequence by {
        assert forall|k: int| 0 <= k < i implies !accepts(#[trigger] store.streams[k]) by {
            assert(store.streams[k].id != event.stream_id);
        }
        first_where_at(store.streams, accepts, i);
    }
}

/// An append touches nothing but the events, its stream and the index: other streams stay as they
/// are, and the index gets the searchable text of an event that is neither private nor withheld.
pub proof fn appending_leaves_the_rest(
    store: MemoryStoreModel,
    event: NewEventModel,
    stamp: StampModel,
)
    requires
        stamp.ids.len() == 1,
        append_event_step(store, event, stamp).1 matches Ok(done) && !done.replayed,
    ensures
        ({
            let after = append_event_step(store, event, stamp).0;
            &&& after == (MemoryStoreModel {
                events: after.events,
                streams: after.streams,
                index: after.index,
                operations: after.operations,
                ..store
            })
            &&& after.index == if event.sensitivity is Normal {
                store.index.push(
                    IndexRowModel {
                        record_type: "event"@,
                        record_id: stamp.ids[0],
                        scope_id: event.scope_id,
                        text: searchable(event.content),
                    },
                )
            } else {
                store.index
            }
            &&& after.streams.len() == store.streams.len() + if holds_stream(
                store,
                event.stream_id,
            ) {
                0int
            } else {
                1int
            }
            &&& forall|i: int|
                0 <= i < store.streams.len() ==> {
                    let stream = #[trigger] after.streams[i];
                    &&& stream.id == store.streams[i].id
                    &&& stream.scope_id == store.streams[i].scope_id
                    &&& stream.observed_through_sequence
                        == store.streams[i].observed_through_sequence
                    &&& stream.created_at == store.streams[i].created_at
                    &&& stream.next_sequence == store.streams[i].next_sequence + if stream.id
                        == event.stream_id {
                        1int
                    } else {
                        0int
                    }
                }
            &&& !holds_stream(store, event.stream_id) ==> {
                let stream = after.streams.last();
                &&& stream.id == event.stream_id
                &&& stream.scope_id == event.scope_id
                &&& stream.observed_through_sequence == 0
                &&& stream.next_sequence == 2
                &&& stream.created_at == stamp.at
            }
        }),
{
    stream_is_held(store, event.stream_id);
    let after = append_event_step(store, event, stamp).0;
    assert(after.streams == streams_after(store, event.stream_id, event.scope_id, stamp.at));
    assert forall|i: int| 0 <= i < store.streams.len() implies ({
        let stream = #[trigger] after.streams[i];
        &&& stream.id == store.streams[i].id
        &&& stream.scope_id == store.streams[i].scope_id
        &&& stream.observed_through_sequence == store.streams[i].observed_through_sequence
        &&& stream.created_at == store.streams[i].created_at
        &&& stream.next_sequence == store.streams[i].next_sequence + if stream.id
            == event.stream_id {
            1int
        } else {
            0int
        }
    }) by {
        if store.streams[i].id == event.stream_id {
            assert(store.streams[i].next_sequence != i64::MAX);
        }
    }
}

/// What is shown of an event: one that is no secret as it is, and of a secret everything but its
/// content, its metadata, its hash and its cost.
pub proof fn redaction_keeps_the_rest(event: MemoryEventModel)
    ensures
        !(event.sensitivity is Secret) ==> redacted(event) == event,
        event.sensitivity is Secret ==> redacted(event) == (MemoryEventModel {
            content: "{\"reason\":\"secret\",\"redacted\":true}"@,
            metadata: "{}"@,
            content_hash: json_hash("{\"reason\":\"secret\",\"redacted\":true}"@),
            token_count: redacted(event).token_count,
            ..event
        }),
{
}

/// An append is answered with the event that it recorded, redacted where it is secret.
pub proof fn appended_event_is_answered(
    store: MemoryStoreModel,
    event: NewEventModel,
    stamp: StampModel,
)
    requires
        stamp.ids.len() == 1,
        append_event_step(store, event, stamp).1 matches Ok(done) && !done.replayed,
    ensures
        ({
            let (after, answer) = append_event_step(store, event, stamp);
            let stored = after.events.last();
            let shown = answer->Ok_0.data;
            &&& !(event.sensitivity is Secret) ==> shown == stored
            &&& event.sensitivity is Secret ==> shown == (MemoryEventModel {
                content: shown.content,
                metadata: "{}"@,
                content_hash: shown.content_hash,
                token_count: shown.token_count,
                ..stored
            }) && shown.content == "{\"reason\":\"secret\",\"redacted\":true}"@
        }),
{
}

/// An event is appended wherever its key is new, its scope is there, its stream, if there is one,
/// is of that scope and has a number left, and the request is well formed; and nowhere else.
pub proof fn events_can_be_appended(
    store: MemoryStoreModel,
    event: NewEventModel,
    stamp: StampModel,
)
    requires
        key_unused(store, event.idempotency_key),
        stamp.ids.len() == 1,
        !holds_event(store, stamp.ids[0]),
        forall|i: int, j: int|
            0 <= i < j < store.streams.len() ==> (#[trigger] store.streams[i]).id != (
            #[trigger] store.streams[j]).id,
        forall|i: int|
            0 <= i < store.streams.len() ==> (#[trigger] store.streams[i]).next_sequence
                < i64::MAX,
    ensures
        append_event_step(store, event, stamp).1 is Ok <==> {
            &&& !blank(event.scope_id)
            &&& !blank(event.stream_id)
            &&& !blank(event.idempotency_key)
            &&& event.token_count matches Some(count) ==> count >= 0
            &&& is_object_text(event.metadata)
            &&& date_fault(event) is None
            &&& holds_scope(store, event.scope_id)
            &&& forall|i: int|
                0 <= i < store.streams.len() && (#[trigger] store.streams[i]).id
                    == event.stream_id ==> store.streams[i].scope_id == event.scope_id
        },
{
    unused_key_is_free(
        store,
        event.idempotency_key,
        "event.append"@,
        request_hash("event.append"@, event_request(event)),
    );
    scope_is_held(store, event.scope_id);
    event_is_held(store, stamp.ids[0]);
    stream_is_held(store, event.stream_id);
    if let Some(stream) = stream_at(store, event.stream_id) {
        let k = choose|k: int| 0 <= k < store.streams.len() && store.streams[k] == stream;
        assert forall|i: int|
            0 <= i < store.streams.len() && (#[trigger] store.streams[i]).id
                == event.stream_id implies i == k by {
            if i < k {
                assert(store.streams[i].id != store.streams[k].id);
            } else if k < i {
                assert(store.streams[k].id != store.streams[i].id);
            }
        }
        assert(store.streams[k].id == event.stream_id);
    }
}

/// Giving a run up marks that run, and no other, as failed for the given reason; the run keeps
/// what it covers, and the answer names it.
pub proof fn failed_run_is_recorded(
    store: MemoryStoreModel,
    run_id: Text,
    reason: Text,
    key: Text,
    stamp: StampModel,
    i: int,
)
    requires
        fail_step(store, run_id, reason, key, stamp).1 matches Ok(done) && !done.replayed,
        0 <= i < store.runs.len(),
    ensures
        ({
            let (after, answer) = fail_step(store, run_id, reason, key, stamp);
            let done = answer->Ok_0.data;
            &&& done.run_id == run_id
            &&& done.status == "failed"@
            &&& done.reason == reason
            &&& after.runs.len() == store.runs.len()
            &&& store.runs[i].id != run_id ==> after.runs[i] == store.runs[i]
            &&& store.runs[i].id == run_id ==> after.runs[i] == (RunRowModel {
                status: RunStatus::Failed,
                error: Some(reason),
                updated_at: stamp.at,
                ..store.runs[i]
            })
        }),
{
}

/// A run can be given up wherever it is pending, with a reason of at most 200 characters.
pub proof fn pending_runs_can_fail(
    store: MemoryStoreModel,
    run_id: Text,
    reason: Text,
    key: Text,
    stamp: StampModel,
    i: int,
)
    requires
        key_unused(store, key),
        !blank(run_id),
        !blank(key),
        0 <= i < store.runs.len(),
        store.runs[i].id == run_id,
        forall|k: int| 0 <= k < i ==> (#[trigger] store.runs[k]).id != run_id,
    ensures
        fail_step(store, run_id, reason, key, stamp).1 is Ok <==> store.runs[i].status is Pending
            && !blank(reason) && reason.len() <= 200,
{
    unused_key_is_free(
        store,
        key,
        "observation.fail"@,
        request_hash("observation.fail"@, fail_request(run_id, reason)),
    );
    let accepts = run_named(run_id);
    assert forall|k: int| 0 <= k < i implies !accepts(#[trigger] store.runs[k]) by {
        assert(store.runs[k].id != run_id);
    }
    first_where_at(store.runs, accepts, i);
}

/// The latest view of a stream is one of its views of that kind, and none has a higher generation;
/// there is none only where the stream has no view of that kind.
pub proof fn latest_view_is_the_highest(
    store: MemoryStoreModel,
    stream_id: Text,
    kind: ViewKind,
)
    ensures
        match latest_view(store, stream_id, kind) {
            Some(row) => {
                &&& store.views.contains(row)
                &&& row.view.stream_id == stream_id
                &&& row.view.kind == kind
                &&& forall|i: int|
                    0 <= i < store.views.len() && (#[trigger] store.views[i]).view.stream_id
                        == stream_id && store.views[i].view.kind == kind
                        ==> store.views[i].view.generation <= row.view.generation
            },
            None => forall|i: int|
                0 <= i < store.views.len() ==> !((#[trigger] store.views[i]).view.stream_id
                    == stream_id && store.views[i].view.kind == kind),
        },
{
    let accepts = view_of(stream_id, kind);
    let rows = store.views.filter(accepts);
    let sorted = ordered(rows, view_generation());
    ordered_rows(rows, view_generation());
    assert forall|i: int|
        0 <= i < store.views.len() && (#[trigger] store.views[i]).view.stream_id == stream_id
            && store.views[i].view.kind == kind implies sorted.contains(store.views[i]) by {
        assert(accepts(store.views[i]));
        let k = kept_position(store.views, accepts, i);
        assert(rows[k] == store.views[i]);
        ordered_contains(rows, view_generation(), store.views[i]);
    }
    if sorted.len() > 0 {
        let row = sorted.last();
        assert(sorted[sorted.len() - 1] == row);
        ordered_contains(rows, view_generation(), row);
        let k = choose|k: int| 0 <= k < rows.len() && rows[k] == row;
        let at = filtered_position(store.views, accepts, k);
        assert(store.views[at] == row);
        assert forall|i: int|
            0 <= i < store.views.len() && (#[trigger] store.views[i]).view.stream_id == stream_id
                && store.views[i].view.kind == kind implies store.views[i].view.generation
            <= row.view.generation by {
            assert(sorted.contains(store.views[i]));
            let m = choose|m: int| 0 <= m < sorted.len() && sorted[m] == store.views[i];
            if m < sorted.len() - 1 {
                assert(!key_less(
                    (view_generation())(sorted[sorted.len() - 1]),
                    (view_generation())(sorted[m]),
                ));
            }
        }
    }
}

/// A link is among those of a record once they are added exactly where it was there before or is
/// one of those that are added.
pub proof fn linking_adds_the_sources(
    links: Seq<LinkModel>,
    holder_id: Text,
    sources: Seq<Text>,
    link: LinkModel,
)
    ensures
        linked_all(links, holder_id, sources).contains(link) <==> (
        links.contains(link) || (link.holder_id == holder_id && sources.contains(link.source_id))),
    decreases sources.len(),
{
    if sources.len() > 0 {
        let front = sources.drop_last();
        linking_adds_the_sources(links, holder_id, front, link);
        let before = linked_all(links, holder_id, front);
        let after = linked_all(links, holder_id, sources);
        let new = LinkModel { holder_id, source_id: sources.last() };
        assert(sources.contains(link.source_id) <==> front.contains(link.source_id)
            || link.source_id == sources.last()) by {
            if sources.contains(link.source_id) {
                let k = choose|k: int| 0 <= k < sources.len() && sources[k] == link.source_id;
                if k < front.len() {
                    assert(front[k] == link.source_id);
                }
            }
            if front.contains(link.source_id) {
                let k = choose|k: int| 0 <= k < front.len() && front[k] == link.source_id;
                assert(sources[k] == link.source_id);
            }
            assert(sources[sources.len() - 1] == sources.last());
        }
        if !before.contains(new) {
            assert(after == before.push(new));
            if after.contains(link) {
                let k = choose|k: int| 0 <= k < after.len() && after[k] == link;
                if k < before.len() {
                    assert(before[k] == link);
                }
            }
            if before.contains(link) {
                let k = choose|k: int| 0 <= k < before.len() && before[k] == link;
                assert(after[k] == link);
            }
            assert(after[before.len() as int] == new);
        }
    }
}

/// A view that is created says what it was asked to say, follows the latest view of its stream,
/// and is linked to the observations that it represents; nothing else changes.
pub proof fn created_view_is_recorded(
    store: MemoryStoreModel,
    input: CreateViewModel,
    stamp: StampModel,
)
    requires
        stamp.ids.len() == 1,
        create_view_step(store, input, stamp).1 matches Ok(done) && !done.replayed,
    ensures
        ({
            let (after, answer) = create_view_step(store, input, stamp);
            let view = after.views.last().view;
            let latest = latest_view(store, input.stream_id, ViewKind::Continuity);
            &&& after.views == store.views.push(after.views.last())
            &&& answer->Ok_0.data == view
            &&& view.id == stamp.ids[0]
            &&& view.scope_id == input.scope_id
            &&& view.stream_id == input.stream_id
            &&& view.kind is Continuity
            &&& view.content == input.content
            &&& view.source_from_sequence == input.source_from_sequence
            &&& view.source_through_sequence == input.source_through_sequence
            &&& view.model == input.model
            &&& view.prompt_version == input.prompt_version
            &&& view.created_at == stamp.at
            &&& view.previous_view_id == input.expected_previous_view_id
            &&& input.content.len() < i64::MAX ==> {
                &&& input.token_count matches Some(count) ==> view.token_count >= count
                &&& 4 * view.token_count >= input.content.len()
            }
            &&& match latest {
                Some(row) => view.generation == row.view.generation + 1
                    && input.expected_previous_view_id == Some(row.view.id),
                None => view.generation == 1 && input.expected_previous_view_id is None,
            }
            &&& forall|link: LinkModel|
                #[trigger] after.view_sources.contains(link) <==> store.view_sources.contains(link)
                    || (link.holder_id == view.id && input.source_observation_ids.contains(
                    link.source_id,
                ))
            &&& after == (MemoryStoreModel {
                views: after.views,
                view_sources: after.view_sources,
                operations: after.operations,
                ..store
            })
        }),
{
    let after = create_view_step(store, input, stamp).0;
    assert forall|link: LinkModel|
        #[trigger] after.view_sources.contains(link) <==> store.view_sources.contains(link) || (
        link.holder_id == stamp.ids[0] && input.source_observation_ids.contains(
            link.source_id,
        )) by {
        linking_adds_the_sources(
            store.view_sources,
            stamp.ids[0],
            input.source_observation_ids,
            link,
        );
    }
}

} // verus!
