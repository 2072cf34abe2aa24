//! Laws of the event log: what is recorded stays, in order, and secrets stay hidden.

use vstd::prelude::*;

use crate::claim::reconcile_all;
use crate::digest::json_hash;
use crate::event::{
    advanced, append_event_step, event_at, event_named, event_tokens,
    new_stream, recorded, redacted, stream_at, stream_full, stream_named, stream_or_new,
    streams_after, with_event,
};
use crate::json::{empty_object, omitted_content, redacted_content};
use crate::kind::ClaimStatus;
use crate::law_replay::{first_at, pushed_row_is_behind};
use crate::model::{
    ClaimDraftModel, ClaimModel, MemoryEventModel, NewEventModel, ObservationDraftModel,
    ObservationModel, ObserverResultModel,
};
use crate::observation::{observed_through, with_drafted, with_observations};
use crate::privacy::event_kept;
use crate::row::{MemoryStoreModel, StreamRowModel};
use crate::stamp::StampModel;
use crate::store::empty_store;
use crate::table::{first_where_at, first_where_found, some_row};
use crate::text::Text;
use crate::transition::{is_purge, stamped, step, Request};

verus! {

/// Whether a list goes on from another one.
pub open spec fn extends<V>(before: Seq<V>, after: Seq<V>) -> bool {
    before.len() <= after.len() && after.take(before.len() as int) == before
}

proof fn reconciling_keeps_events(store: MemoryStoreModel, pending: Seq<ClaimModel>, at: Text)
    ensures
        reconcile_all(store, pending, at) matches Ok((done, _)) ==> done.events == store.events
            && done.streams == store.streams,
    decreases pending.len(),
{
    if pending.len() > 0 {
        reconciling_keeps_events(store, pending.drop_last(), at);
    }
}

proof fn observing_keeps_events(
    store: MemoryStoreModel,
    made: Seq<ObservationModel>,
    drafts: Seq<ObservationDraftModel>,
)
    ensures
        with_observations(store, made, drafts).events == store.events,
        with_observations(store, made, drafts).streams == store.streams,
    decreases made.len(),
{
    if made.len() > 0 && drafts.len() > 0 {
        observing_keeps_events(store, made.drop_last(), drafts.drop_last());
    }
}

proof fn drafting_keeps_events(
    store: MemoryStoreModel,
    made: Seq<ClaimModel>,
    drafts: Seq<ClaimDraftModel>,
)
    ensures
        with_drafted(store, made, drafts).events == store.events,
        with_drafted(store, made, drafts).streams == store.streams,
    decreases made.len(),
{
    if made.len() > 0 && drafts.len() > 0 {
        drafting_keeps_events(store, made.drop_last(), drafts.drop_last());
    }
}

/// What a commit does to events and streams: its stream is observed to the end of the run.
pub proof fn committing_keeps_events(
    store: MemoryStoreModel,
    run: crate::row::RunRowModel,
    result: ObserverResultModel,
    stamp: StampModel,
)
    ensures
        ({
            let after = crate::observation::committed(store, run, result, stamp).0;
            &&& after.events == store.events
            &&& after.streams == store.streams.map_values(
                observed_through(run.stream_id, run.to_sequence),
            )
        }),
{
    let sources = crate::event::events_between(
        store,
        run.stream_id,
        run.from_sequence as int,
        run.to_sequence as int,
    );
    let made = crate::observation::all_observed(
        run,
        sources,
        result.observations,
        stamp.ids,
        stamp.at,
    );
    let claims = crate::observation::all_drafted(
        run,
        result.claims,
        stamp.ids.skip(result.observations.len() as int),
        stamp.at,
    );
    observing_keeps_events(store, made, result.observations);
    drafting_keeps_events(
        with_observations(store, made, result.observations),
        claims,
        result.claims,
    );
}

/// Whether one event was appended to its stream, under the number that was due.
pub open spec fn one_appended(
    store: MemoryStoreModel,
    after: MemoryStoreModel,
    stamp: StampModel,
) -> bool {
    let event = after.events.last();
    &&& after.events == store.events.push(event)
    &&& after.streams == streams_after(store, event.stream_id, event.scope_id, stamp.at)
    &&& event.sequence == stream_or_new(
        store,
        event.stream_id,
        event.scope_id,
        stamp.at,
    ).next_sequence
    &&& !stream_full(store, event.stream_id)
    &&& stamp.ids.len() > 0 && event.id == stamp.ids[0]
    &&& !some_row(store.events, event_named(event.id))
    &&& well_recorded(event)
}

/// Whether an event is recorded as it should: its hash is that of its content, and of content that
/// must not be stored only the marker is there.
pub open spec fn well_recorded(event: MemoryEventModel) -> bool {
    &&& event.content_hash == json_hash(event.content)
    &&& event.sensitivity is DoNotStore ==> event.content == omitted_content() && event.metadata
        == empty_object()
}

/// Whether a stream was observed further by a committed run.
pub open spec fn one_observed(
    store: MemoryStoreModel,
    request: Request,
    after: MemoryStoreModel,
) -> bool {
    &&& request is CommitObservation
    &&& after.events == store.events
    &&& match crate::view::run_at(store, request->CommitObservation_run_id) {
        None => false,
        Some(run) => {
            &&& run.status is Pending
            &&& stream_at(store, run.stream_id) is Some
            &&& stream_at(store, run.stream_id).unwrap().observed_through_sequence
                == run.cursor_at_plan
            &&& after.streams == store.streams.map_values(
                observed_through(run.stream_id, run.to_sequence),
            )
        },
    }
}

/// What the law `event_log_changes` says of a request.
spec fn log_holds(store: MemoryStoreModel, request: Request, stamp: StampModel) -> bool {
    &&& ({
        let after = step(store, request, stamp).0;
        ||| after.events == store.events && after.streams == store.streams
        ||| !is_purge(request) && one_appended(store, after, stamp)
        ||| one_observed(store, request, after)
        ||| {
            &&& is_purge(request)
            &&& after.streams == store.streams
            &&& exists|ids: Seq<Text>|
                after.events == store.events.filter(#[trigger] event_kept(ids))
        }
    })
}

proof fn log_create_scope(store: MemoryStoreModel, request: Request, stamp: StampModel)
    requires
        request is CreateScope,
        stamped(request, stamp),
    ensures
        log_holds(store, request, stamp),
{
    reveal(crate::transition::on_create_scope);
}

proof fn log_append_event(store: MemoryStoreModel, request: Request, stamp: StampModel)
    requires
        request is AppendEvent,
        stamped(request, stamp),
    ensures
        log_holds(store, request, stamp),
{
    reveal(crate::transition::on_append_event);
}

proof fn log_plan_observation(store: MemoryStoreModel, request: Request, stamp: StampModel)
    requires
        request is PlanObservation,
        stamped(request, stamp),
    ensures
        log_holds(store, request, stamp),
{
    reveal(crate::transition::on_plan_observation);
}

proof fn log_commit_observation(store: MemoryStoreModel, request: Request, stamp: StampModel)
    requires
        request is CommitObservation,
        stamped(request, stamp),
    ensures
        log_holds(store, request, stamp),
{
    reveal(crate::transition::on_commit_observation);
    if let Some(run) = crate::view::run_at(store, request->CommitObservation_run_id) {
        committing_keeps_events(store, run, request->CommitObservation_result, stamp);
    }
}

proof fn log_fail_observation(store: MemoryStoreModel, request: Request, stamp: StampModel)
    requires
        request is FailObservation,
        stamped(request, stamp),
    ensures
        log_holds(store, request, stamp),
{
    reveal(crate::transition::on_fail_observation);
}

proof fn log_state_claim(store: MemoryStoreModel, request: Request, stamp: StampModel)
    requires
        request is StateClaim,
        stamped(request, stamp),
    ensures
        log_holds(store, request, stamp),
{
    reveal(crate::transition::on_state_claim);
}

proof fn log_confirm_claim(store: MemoryStoreModel, request: Request, stamp: StampModel)
    requires
        request is ConfirmClaim,
        stamped(request, stamp),
    ensures
        log_holds(store, request, stamp),
{
    reveal(crate::transition::on_confirm_claim);
}

proof fn log_correct_claim(store: MemoryStoreModel, request: Request, stamp: StampModel)
    requires
        request is CorrectClaim,
        stamped(request, stamp),
    ensures
        log_holds(store, request, stamp),
{
    reveal(crate::transition::on_correct_claim);
}

proof fn log_rescope_claim(store: MemoryStoreModel, request: Request, stamp: StampModel)
    requires
        request is RescopeClaim,
        stamped(request, stamp),
    ensures
        log_holds(store, request, stamp),
{
    reveal(crate::transition::on_rescope_claim);
}

proof fn log_close_claim(store: MemoryStoreModel, request: Request, stamp: StampModel)
    requires
        request is CloseClaim,
        stamped(request, stamp),
    ensures
        log_holds(store, request, stamp),
{
    reveal(crate::transition::on_close_claim);
}

proof fn log_reconcile(store: MemoryStoreModel, request: Request, stamp: StampModel)
    requires
        request is Reconcile,
        stamped(request, stamp),
    ensures
        log_holds(store, request, stamp),
{
    reveal(crate::transition::on_reconcile);
    let pending = crate::claim_table::claims_in(
        store,
        seq![request->Reconcile_scope_id],
        Some(ClaimStatus::Pending),
    );
    reconciling_keeps_events(store, pending, stamp.at);
}

proof fn log_create_view(store: MemoryStoreModel, request: Request, stamp: StampModel)
    requires
        request is CreateView,
        stamped(request, stamp),
    ensures
        log_holds(store, request, stamp),
{
    reveal(crate::transition::on_create_view);
}

proof fn log_purge_claim(store: MemoryStoreModel, request: Request, stamp: StampModel)
    requires
        request is PurgeClaim,
        stamped(request, stamp),
    ensures
        log_holds(store, request, stamp),
{
    reveal(crate::transition::on_purge_claim);
}

proof fn log_purge_event(store: MemoryStoreModel, request: Request, stamp: StampModel)
    requires
        request is PurgeEvent,
        stamped(request, stamp),
    ensures
        log_holds(store, request, stamp),
{
    reveal(crate::transition::on_purge_event);
}

/// What a request does to events and streams: nothing, or it appends one event, or, as a commit,
/// moves the cursor of a stream, or, as a purge, removes events.
pub proof fn event_log_changes(store: MemoryStoreModel, request: Request, stamp: StampModel)
    requires
        stamped(request, stamp),
    ensures
        ({
            let after = step(store, request, stamp).0;
            ||| after.events == store.events && after.streams == store.streams
            ||| !is_purge(request) && one_appended(store, after, stamp)
            ||| one_observed(store, request, after)
            ||| {
                &&& is_purge(request)
                &&& after.streams == store.streams
                &&& exists|ids: Seq<Text>|
                    after.events == store.events.filter(#[trigger] event_kept(ids))
            }
        }),
{
    match request {
        Request::CreateScope { .. } => log_create_scope(store, request, stamp),
        Request::AppendEvent { .. } => log_append_event(store, request, stamp),
        Request::PlanObservation { .. } => log_plan_observation(store, request, stamp),
        Request::CommitObservation { .. } => log_commit_observation(store, request, stamp),
        Request::FailObservation { .. } => log_fail_observation(store, request, stamp),
        Request::StateClaim { .. } => log_state_claim(store, request, stamp),
        Request::ConfirmClaim { .. } => log_confirm_claim(store, request, stamp),
        Request::CorrectClaim { .. } => log_correct_claim(store, request, stamp),
        Request::RescopeClaim { .. } => log_rescope_claim(store, request, stamp),
        Request::CloseClaim { .. } => log_close_claim(store, request, stamp),
        Request::Reconcile { .. } => log_reconcile(store, request, stamp),
        Request::CreateView { .. } => log_create_view(store, request, stamp),
        Request::PurgeClaim { .. } => log_purge_claim(store, request, stamp),
        Request::PurgeEvent { .. } => log_purge_event(store, request, stamp),
    }
}

/// Recorded events stay as they are, in order: no request but a purge changes or removes one.
pub proof fn events_are_immutable(store: MemoryStoreModel, request: Request, stamp: StampModel)
    requires
        stamped(request, stamp),
        !is_purge(request),
    ensures
        extends(store.events, step(store, request, stamp).0.events),
{
    event_log_changes(store, request, stamp);
    let after = step(store, request, stamp).0;
    assert(store.events.push(after.events.last()).take(store.events.len() as int) =~= store.events);
    assert(store.events.take(store.events.len() as int) =~= store.events);
}

/// Whether stream rows are unique, every event has a stream that has passed its number, and no
/// two events of a stream have one number.
pub open spec fn sequences_sound(store: MemoryStoreModel) -> bool {
    &&& forall|i: int, j: int|
        0 <= i < j < store.streams.len() ==> (#[trigger] store.streams[i]).id != (
        #[trigger] store.streams[j]).id
    &&& forall|i: int| 0 <= i < store.streams.len() ==> (#[trigger] store.streams[i]).next_sequence >= 1
    &&& forall|i: int|
        0 <= i < store.events.len() ==> numbered(store.streams, #[trigger] store.events[i])
    &&& forall|i: int, j: int|
        0 <= i < j < store.events.len() && (#[trigger] store.events[i]).stream_id == (
        #[trigger] store.events[j]).stream_id ==> store.events[i].sequence
            < store.events[j].sequence
}

/// Whether an event has a stream that has passed its number.
pub open spec fn numbered(streams: Seq<StreamRowModel>, event: MemoryEventModel) -> bool {
    1 <= event.sequence && exists|k: int|
        0 <= k < streams.len() && (#[trigger] streams[k]).id == event.stream_id && event.sequence
            < streams[k].next_sequence
}

/// Sequence numbers start in order: an empty memory is sound.
pub proof fn sequences_start_sound()
    ensures
        sequences_sound(empty_store()),
{
}

proof fn found_stream(store: MemoryStoreModel, id: Text, k: int)
    requires
        sequences_sound(store),
        0 <= k < store.streams.len(),
        store.streams[k].id == id,
    ensures
        stream_at(store, id) == Some(store.streams[k]),
{
    assert forall|j: int| 0 <= j < k implies !(stream_named(id))(#[trigger] store.streams[j]) by {
        assert(store.streams[j].id != store.streams[k].id);
    }
    first_where_at(store.streams, stream_named(id), k);
}

proof fn appending_keeps_sequences(
    store: MemoryStoreModel,
    after: MemoryStoreModel,
    stamp: StampModel,
)
    requires
        sequences_sound(store),
        one_appended(store, after, stamp),
    ensures
        sequences_sound(after),
{
    let event = after.events.last();
    let id = event.stream_id;
    let base = match stream_at(store, id) {
        Some(_) => store.streams,
        None => store.streams.push(new_stream(id, event.scope_id, stamp.at)),
    };
    first_where_found(store.streams, stream_named(id));
    assert(after.streams == base.map_values(advanced(id)));
    assert forall|k: int| 0 <= k < base.len() implies (#[trigger] base[k]).next_sequence >= 1
        && base[k].next_sequence < i64::MAX || base[k].id != id by {
        if k < store.streams.len() {
            assert(base[k] == store.streams[k]);
        }
    }
    let at = if stream_at(store, id) is Some {
        let k = first_at(store.streams, stream_named(id));
        found_stream(store, id, k);
        k
    } else {
        store.streams.len() as int
    };
    assert(base[at].id == id && base[at].next_sequence == event.sequence);
    assert(after.streams[at] == (advanced(id))(base[at]));
    assert(numbered(after.streams, event));
    assert forall|i: int, j: int| 0 <= i < j < after.streams.len() implies (
    #[trigger] after.streams[i]).id != (#[trigger] after.streams[j]).id by {
        assert(after.streams[i].id == base[i].id);
        assert(after.streams[j].id == base[j].id);
        if j == store.streams.len() {
            assert(store.streams[i] == base[i]);
            assert(!(stream_named(id))(store.streams[i]));
        } else {
            assert(store.streams[i].id != store.streams[j].id);
        }
    }
    assert forall|i: int| 0 <= i < after.streams.len() implies (
    #[trigger] after.streams[i]).next_sequence >= 1 by {
        assert(after.streams[i] == (advanced(id))(base[i]));
        if i < store.streams.len() {
            assert(store.streams[i].next_sequence >= 1);
        }
    }
    assert forall|i: int| 0 <= i < after.events.len() implies numbered(
        after.streams,
        #[trigger] after.events[i],
    ) by {
        if i < store.events.len() {
            assert(after.events[i] == store.events[i]);
            assert(numbered(store.streams, store.events[i]));
            let k = choose|k: int|
                0 <= k < store.streams.len() && (#[trigger] store.streams[k]).id
                    == store.events[i].stream_id && store.events[i].sequence
                    < store.streams[k].next_sequence;
            assert(base[k] == store.streams[k]);
            assert(after.streams[k] == (advanced(id))(base[k]));
        }
    }
    assert forall|i: int, j: int|
        0 <= i < j < after.events.len() && (#[trigger] after.events[i]).stream_id == (
        #[trigger] after.events[j]).stream_id implies after.events[i].sequence
        < after.events[j].sequence by {
        assert(after.events[i] == store.events[i]);
        if j < store.events.len() {
            assert(after.events[j] == store.events[j]);
        } else {
            assert(after.events[j] == event);
            assert(numbered(store.streams, store.events[i]));
            let k = choose|k: int|
                0 <= k < store.streams.len() && (#[trigger] store.streams[k]).id
                    == store.events[i].stream_id && store.events[i].sequence
                    < store.streams[k].next_sequence;
            found_stream(store, id, k);
        }
    }
}

proof fn observing_keeps_sequences(store: MemoryStoreModel, after: MemoryStoreModel, id: Text, to: i64)
    requires
        sequences_sound(store),
        after.events == store.events,
        after.streams == store.streams.map_values(observed_through(id, to)),
    ensures
        sequences_sound(after),
{
    assert forall|i: int, j: int| 0 <= i < j < after.streams.len() implies (
    #[trigger] after.streams[i]).id != (#[trigger] after.streams[j]).id by {
        assert(store.streams[i].id != store.streams[j].id);
    }
    assert forall|i: int| 0 <= i < after.streams.len() implies (
    #[trigger] after.streams[i]).next_sequence >= 1 by {
        assert(store.streams[i].next_sequence >= 1);
    }
    assert forall|i: int| 0 <= i < after.events.len() implies numbered(
        after.streams,
        #[trigger] after.events[i],
    ) by {
        assert(numbered(store.streams, store.events[i]));
        let k = choose|k: int|
            0 <= k < store.streams.len() && (#[trigger] store.streams[k]).id
                == store.events[i].stream_id && store.events[i].sequence
                < store.streams[k].next_sequence;
        assert(after.streams[k].id == store.streams[k].id);
    }
}

/// Where a row that a filter keeps stood before.
pub proof fn filtered_positions<V>(rows: Seq<V>, accepts: spec_fn(V) -> bool, i: int, j: int) -> (at: (
    int,
    int,
))
    requires
        0 <= i < j < rows.filter(accepts).len(),
    ensures
        0 <= at.0 < at.1 < rows.len(),
        rows[at.0] == rows.filter(accepts)[i],
        rows[at.1] == rows.filter(accepts)[j],
    decreases rows.len(),
{
    reveal(Seq::filter);
    let front = rows.drop_last();
    let kept = front.filter(accepts);
    if j < kept.len() {
        let at = filtered_positions(front, accepts, i, j);
        assert(front[at.0] == rows[at.0] && front[at.1] == rows[at.1]);
        at
    } else {
        let a = filtered_position(front, accepts, i);
        assert(front[a] == rows[a]);
        (a, rows.len() - 1)
    }
}

/// Where a row that a filter keeps stood before; it meets the condition.
pub proof fn filtered_position<V>(rows: Seq<V>, accepts: spec_fn(V) -> bool, i: int) -> (at: int)
    requires
        0 <= i < rows.filter(accepts).len(),
    ensures
        0 <= at < rows.len(),
        rows[at] == rows.filter(accepts)[i],
        accepts(rows[at]),
    decreases rows.len(),
{
    reveal(Seq::filter);
    let front = rows.drop_last();
    if i < front.filter(accepts).len() {
        let at = filtered_position(front, accepts, i);
        assert(front[at] == rows[at]);
        at
    } else {
        rows.len() - 1
    }
}

/// A row that meets the condition is kept by a filter.
pub proof fn kept_position<V>(rows: Seq<V>, accepts: spec_fn(V) -> bool, at: int) -> (i: int)
    requires
        0 <= at < rows.len(),
        accepts(rows[at]),
    ensures
        0 <= i < rows.filter(accepts).len(),
        rows.filter(accepts)[i] == rows[at],
    decreases rows.len(),
{
    reveal(Seq::filter);
    let front = rows.drop_last();
    if at < front.len() {
        assert(front[at] == rows[at]);
        kept_position(front, accepts, at)
    } else {
        front.filter(accepts).len() as int
    }
}

proof fn purging_keeps_sequences(store: MemoryStoreModel, after: MemoryStoreModel, ids: Seq<Text>)
    requires
        sequences_sound(store),
        after.streams == store.streams,
        after.events == store.events.filter(event_kept(ids)),
    ensures
        sequences_sound(after),
{
    let keep = event_kept(ids);
    assert forall|i: int| 0 <= i < after.events.len() implies numbered(
        after.streams,
        #[trigger] after.events[i],
    ) by {
        let at = filtered_position(store.events, keep, i);
        assert(numbered(store.streams, store.events[at]));
    }
    assert forall|i: int, j: int|
        0 <= i < j < after.events.len() && (#[trigger] after.events[i]).stream_id == (
        #[trigger] after.events[j]).stream_id implies after.events[i].sequence
        < after.events[j].sequence by {
        let at = filtered_positions(store.events, keep, i, j);
        assert(store.events[at.0].sequence < store.events[at.1].sequence);
    }
}

/// Every request keeps sequence numbers sound: within a stream they grow in the order of
/// recording, and a number is never given twice, through purges too.
pub proof fn sequences_stay_sound(store: MemoryStoreModel, request: Request, stamp: StampModel)
    requires
        stamped(request, stamp),
        sequences_sound(store),
    ensures
        sequences_sound(step(store, request, stamp).0),
{
    event_log_changes(store, request, stamp);
    let after = step(store, request, stamp).0;
    if after.events == store.events && after.streams == store.streams {
    } else if !is_purge(request) && one_appended(store, after, stamp) {
        appending_keeps_sequences(store, after, stamp);
    } else if one_observed(store, request, after) {
        let run = crate::view::run_at(store, request->CommitObservation_run_id).unwrap();
        observing_keeps_sequences(store, after, run.stream_id, run.to_sequence);
    } else {
        let ids = choose|ids: Seq<Text>|
            after.events == store.events.filter(#[trigger] event_kept(ids));
        purging_keeps_sequences(store, after, ids);
    }
}

/// Whether events are sound: identifiers are unique, and each is recorded as it should.
pub open spec fn events_sound(store: MemoryStoreModel) -> bool {
    &&& forall|i: int, j: int|
        0 <= i < j < store.events.len() ==> (#[trigger] store.events[i]).id != (
        #[trigger] store.events[j]).id
    &&& forall|i: int| 0 <= i < store.events.len() ==> well_recorded(#[trigger] store.events[i])
}

/// Every request keeps events sound: stored content always matches its hash, and content that must
/// not be stored is never there.
pub proof fn events_stay_sound(store: MemoryStoreModel, request: Request, stamp: StampModel)
    requires
        stamped(request, stamp),
        events_sound(store),
    ensures
        events_sound(step(store, request, stamp).0),
{
    event_log_changes(store, request, stamp);
    let after = step(store, request, stamp).0;
    if after.events == store.events {
    } else if !is_purge(request) && one_appended(store, after, stamp) {
        let n = store.events.len() as int;
        assert forall|i: int, j: int| 0 <= i < j < after.events.len() implies (
        #[trigger] after.events[i]).id != (#[trigger] after.events[j]).id by {
            assert(after.events[i] == store.events[i]);
            if j < n {
                assert(after.events[j] == store.events[j]);
            } else {
                assert(!(event_named(after.events[j].id))(store.events[i]));
            }
        }
        assert forall|i: int| 0 <= i < after.events.len() implies well_recorded(
            #[trigger] after.events[i],
        ) by {
            if i < n {
                assert(after.events[i] == store.events[i]);
            }
        }
    } else {
        let ids = choose|ids: Seq<Text>|
            after.events == store.events.filter(#[trigger] event_kept(ids));
        assert forall|i: int, j: int| 0 <= i < j < after.events.len() implies (
        #[trigger] after.events[i]).id != (#[trigger] after.events[j]).id by {
            let at = filtered_positions(store.events, event_kept(ids), i, j);
            assert(store.events[at.0].id != store.events[at.1].id);
        }
        assert forall|i: int| 0 <= i < after.events.len() implies well_recorded(
            #[trigger] after.events[i],
        ) by {
            let at = filtered_position(store.events, event_kept(ids), i);
            assert(well_recorded(store.events[at]));
        }
    }
}

/// A recorded event can be recalled as it was, whatever is done since, but for a purge.
pub proof fn events_stay_recallable(
    store: MemoryStoreModel,
    request: Request,
    stamp: StampModel,
    id: Text,
)
    requires
        stamped(request, stamp),
        !is_purge(request),
        event_at(store, id) is Some,
    ensures
        event_at(step(store, request, stamp).0, id) == event_at(store, id),
{
    event_log_changes(store, request, stamp);
    let after = step(store, request, stamp).0;
    if after.events != store.events {
        pushed_row_is_behind(store.events, after.events.last(), event_named(id));
    }
}

/// The number that a stream gives next never goes down, so that a purged number is never given
/// again.
pub proof fn next_sequence_never_falls(
    store: MemoryStoreModel,
    request: Request,
    stamp: StampModel,
    k: int,
)
    requires
        stamped(request, stamp),
        0 <= k < store.streams.len(),
    ensures
        ({
            let after = step(store, request, stamp).0;
            &&& k < after.streams.len()
            &&& after.streams[k].id == store.streams[k].id
            &&& after.streams[k].scope_id == store.streams[k].scope_id
            &&& after.streams[k].next_sequence >= store.streams[k].next_sequence
        }),
{
    event_log_changes(store, request, stamp);
    let after = step(store, request, stamp).0;
    if !is_purge(request) && one_appended(store, after, stamp) {
        let event = after.events.last();
        let base = match stream_at(store, event.stream_id) {
            Some(_) => store.streams,
            None => store.streams.push(new_stream(event.stream_id, event.scope_id, stamp.at)),
        };
        assert(base[k] == store.streams[k]);
        assert(after.streams[k] == (advanced(event.stream_id))(base[k]));
    }
}

/// Only a commit moves the cursor of a stream, and it moves it to the end of its run.
pub proof fn only_commits_move_cursors(
    store: MemoryStoreModel,
    request: Request,
    stamp: StampModel,
    k: int,
)
    requires
        stamped(request, stamp),
        0 <= k < store.streams.len(),
    ensures
        ({
            let after = step(store, request, stamp).0;
            &&& k < after.streams.len()
            &&& after.streams[k].observed_through_sequence != store.streams[k].observed_through_sequence ==> {
                &&& request is CommitObservation
                &&& one_observed(store, request, after)
                &&& after.streams[k].observed_through_sequence == crate::view::run_at(
                    store,
                    request->CommitObservation_run_id,
                ).unwrap().to_sequence
            }
        }),
{
    event_log_changes(store, request, stamp);
    let after = step(store, request, stamp).0;
    if !is_purge(request) && one_appended(store, after, stamp) {
        let event = after.events.last();
        let base = match stream_at(store, event.stream_id) {
            Some(_) => store.streams,
            None => store.streams.push(new_stream(event.stream_id, event.scope_id, stamp.at)),
        };
        assert(base[k] == store.streams[k]);
        assert(after.streams[k] == (advanced(event.stream_id))(base[k]));
    }
}

/// The stored token count of an event is never below the kernel's own estimate of what is stored.
pub proof fn token_count_covers_estimate(
    event: NewEventModel,
    id: Text,
    sequence: i64,
    at: Text,
)
    requires
        event.content.len() + event.metadata.len() < 0x4000_0000_0000_0000,
    ensures
        ({
            let stored = recorded(event, id, sequence, at);
            stored.token_count >= event_tokens(stored.content, stored.metadata)
        }),
{
    reveal_strlit("{}");
    reveal_strlit(" ");
    reveal_strlit("{\"omitted\":true,\"reason\":\"do-not-store\"}");
}

/// What an agent is shown of a secret does not depend on the secret: two secrets that differ only
/// in their content, metadata, hash and cost look the same.
pub proof fn redaction_hides_secrets(left: MemoryEventModel, right: MemoryEventModel)
    requires
        left.sensitivity is Secret,
        left == (MemoryEventModel {
            content: left.content,
            metadata: left.metadata,
            content_hash: left.content_hash,
            token_count: left.token_count,
            ..right
        }),
    ensures
        redacted(left) == redacted(right),
        redacted(left).content == redacted_content(),
        redacted(left).metadata == empty_object(),
{
}

/// Of an event that must not be stored nothing but its envelope is kept: two of them that differ
/// only in content, metadata and token count leave the same memory behind, but for the hashes of
/// the requests.
pub proof fn withheld_content_leaves_no_trace(
    store: MemoryStoreModel,
    left: NewEventModel,
    right: NewEventModel,
    stamp: StampModel,
)
    requires
        left.sensitivity is DoNotStore,
        left == (NewEventModel {
            content: left.content,
            metadata: left.metadata,
            token_count: left.token_count,
            ..right
        }),
        crate::event::event_refusal(left) is None,
        crate::event::event_refusal(right) is None,
        crate::law_replay::known_before(store, Request::AppendEvent { event: left }) is Fresh,
        crate::law_replay::known_before(store, Request::AppendEvent { event: right }) is Fresh,
    ensures
        ({
            let a = append_event_step(store, left, stamp);
            let b = append_event_step(store, right, stamp);
            &&& a.1 == b.1
            &&& a.0 == (MemoryStoreModel { operations: a.0.operations, ..b.0 })
            &&& a.0.operations.len() == b.0.operations.len()
            &&& forall|i: int|
                0 <= i < a.0.operations.len() ==> (#[trigger] a.0.operations[i])
                    == (crate::row::OperationRowModel {
                    request_hash: a.0.operations[i].request_hash,
                    ..b.0.operations[i]
                })
        }),
{
    assert forall|id: Text, sequence: i64, at: Text|
        #[trigger] recorded(left, id, sequence, at) == recorded(right, id, sequence, at) by {}
}

/// A secret or withheld event is never put into the full-text index.
pub proof fn withheld_events_are_not_indexed(
    store: MemoryStoreModel,
    event: MemoryEventModel,
    at: Text,
)
    requires
        !(event.sensitivity is Normal),
    ensures
        with_event(store, event, at).index == store.index,
{
}

} // verus!
