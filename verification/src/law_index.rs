//! Laws of the full-text index: it holds open records only, and literal queries stay literal.

use vstd::prelude::*;

use crate::claim::reconcile_all;
use crate::claim_table::{claim_index_row, with_claim};
use crate::event::with_event;
use crate::json::searchable;
use crate::law_event::{extends, filtered_position, kept_position};
use crate::law_source::{has_claim, has_observation};
use crate::model::{
    ClaimDraftModel, ClaimModel, MemoryEventModel, ObservationDraftModel, ObservationModel,
    ObserverResultModel,
};
use crate::observation::{committed, with_drafted, with_observation, with_observations};
use crate::privacy::{
    claim_kept, claim_unlinked, event_id, event_kept, index_kept, observation_kept, purged_store,
    PrivacyClosureModel,
};
use crate::row::{IndexRowModel, MemoryStoreModel, RunRowModel};
use crate::stamp::StampModel;
use crate::store::empty_store;
use crate::text::{literal_phrase, quotes_doubled, Text};
use crate::transition::{stamped, step, Request};

verus! {

/// Whether an event is recorded that the index may hold under this row: its content is not
/// withheld, and the row holds its text.
pub open spec fn indexed_event(events: Seq<MemoryEventModel>, row: IndexRowModel) -> bool {
    exists|i: int|
        0 <= i < events.len() && (#[trigger] events[i]).id == row.record_id
            && events[i].sensitivity is Normal && searchable(events[i].content) == row.text
}

/// Whether a row of the index stands for an open event, an observation or a claim that is stored.
pub open spec fn row_sound(store: MemoryStoreModel, row: IndexRowModel) -> bool {
    ||| row.record_type == "event"@ && indexed_event(store.events, row)
    ||| row.record_type == "observation"@ && has_observation(store, row.record_id)
    ||| row.record_type == "claim"@ && has_claim(store, row.record_id)
}

/// Whether the index holds nothing but open events, observations and claims that are stored: no
/// secret, nothing purged, and no view.
pub open spec fn index_sound(store: MemoryStoreModel) -> bool {
    forall|i: int| 0 <= i < store.index.len() ==> row_sound(store, #[trigger] store.index[i])
}

/// An empty index is sound.
pub proof fn index_starts_sound()
    ensures
        index_sound(empty_store()),
{
}

/// Whether records are kept: events as they are, observations and claims by their identifiers.
pub open spec fn records_kept(before: MemoryStoreModel, after: MemoryStoreModel) -> bool {
    &&& extends(before.events, after.events)
    &&& forall|id: Text| has_observation(before, id) ==> #[trigger] has_observation(after, id)
    &&& forall|id: Text| has_claim(before, id) ==> #[trigger] has_claim(after, id)
}

proof fn kept_records_keep_rows(before: MemoryStoreModel, after: MemoryStoreModel, row: IndexRowModel)
    requires
        records_kept(before, after),
        row_sound(before, row),
    ensures
        row_sound(after, row),
{
    if row.record_type == "event"@ && indexed_event(before.events, row) {
        let k = choose|k: int|
            0 <= k < before.events.len() && (#[trigger] before.events[k]).id == row.record_id
                && before.events[k].sensitivity is Normal && searchable(before.events[k].content)
                == row.text;
        assert(after.events.take(before.events.len() as int)[k] == before.events[k]);
        assert(after.events[k] == before.events[k]);
    }
}

/// Adding at most one sound row keeps the index sound.
proof fn extending_keeps_sound(before: MemoryStoreModel, after: MemoryStoreModel)
    requires
        index_sound(before),
        records_kept(before, after),
        after.index == before.index || (after.index == before.index.push(after.index.last())
            && row_sound(after, after.index.last())),
    ensures
        index_sound(after),
{
    assert forall|i: int| 0 <= i < after.index.len() implies row_sound(
        after,
        #[trigger] after.index[i],
    ) by {
        if i < before.index.len() {
            assert(after.index[i] == before.index[i]);
            kept_records_keep_rows(before, after, before.index[i]);
        } else {
            assert(after.index[i] == after.index.last());
        }
    }
}

/// Which records are kept where only the standing of claims changes.
proof fn restating_keeps_records(before: MemoryStoreModel, after: MemoryStoreModel)
    requires
        after.events == before.events,
        after.observations == before.observations,
        after.claims.len() >= before.claims.len(),
        forall|i: int|
            0 <= i < before.claims.len() ==> (#[trigger] after.claims[i]).id == before.claims[i].id,
    ensures
        records_kept(before, after),
{
    assert(before.events.take(before.events.len() as int) =~= before.events);
    assert forall|id: Text| has_claim(before, id) implies #[trigger] has_claim(after, id) by {
        let k = choose|k: int| 0 <= k < before.claims.len() && (#[trigger] before.claims[k]).id == id;
        assert(after.claims[k].id == id);
    }
    assert forall|id: Text| has_observation(before, id) implies #[trigger] has_observation(
        after,
        id,
    ) by {
        let k = choose|k: int|
            0 <= k < before.observations.len() && (#[trigger] before.observations[k]).id == id;
        assert(after.observations[k].id == id);
    }
}

proof fn event_keeps_index_sound(store: MemoryStoreModel, event: MemoryEventModel, at: Text)
    requires
        index_sound(store),
    ensures
        index_sound(with_event(store, event, at)),
{
    let after = with_event(store, event, at);
    assert(after.events.take(store.events.len() as int) =~= store.events);
    assert(after.events[store.events.len() as int] == event);
    assert forall|id: Text| has_claim(store, id) implies #[trigger] has_claim(after, id) by {
        let k = choose|k: int| 0 <= k < store.claims.len() && (#[trigger] store.claims[k]).id == id;
        assert(after.claims[k].id == id);
    }
    assert forall|id: Text| has_observation(store, id) implies #[trigger] has_observation(
        after,
        id,
    ) by {
        let k = choose|k: int|
            0 <= k < store.observations.len() && (#[trigger] store.observations[k]).id == id;
        assert(after.observations[k].id == id);
    }
    if event.sensitivity is Normal {
        assert(indexed_event(after.events, after.index.last()));
    }
    extending_keeps_sound(store, after);
}

proof fn claim_keeps_index_sound(store: MemoryStoreModel, claim: ClaimModel)
    requires
        index_sound(store),
    ensures
        index_sound(with_claim(store, claim)),
{
    let after = with_claim(store, claim);
    assert(after.claims[store.claims.len() as int] == claim);
    restating_keeps_records(store, after);
    assert(after.index.last() == claim_index_row(claim));
    extending_keeps_sound(store, after);
}

proof fn observation_keeps_index_sound(
    store: MemoryStoreModel,
    observation: ObservationModel,
    ids: Seq<Text>,
)
    requires
        index_sound(store),
    ensures
        index_sound(with_observation(store, observation, ids)),
{
    let after = with_observation(store, observation, ids);
    assert(store.events.take(store.events.len() as int) =~= store.events);
    assert(after.observations[store.observations.len() as int] == observation);
    assert forall|id: Text| has_claim(store, id) implies #[trigger] has_claim(after, id) by {
        let k = choose|k: int| 0 <= k < store.claims.len() && (#[trigger] store.claims[k]).id == id;
        assert(after.claims[k].id == id);
    }
    assert forall|id: Text| has_observation(store, id) implies #[trigger] has_observation(
        after,
        id,
    ) by {
        let k = choose|k: int|
            0 <= k < store.observations.len() && (#[trigger] store.observations[k]).id == id;
        assert(after.observations[k] == store.observations[k]);
    }
    extending_keeps_sound(store, after);
}

/// The index depends on events, observations and on which claims there are.
proof fn same_records_keep_index_sound(before: MemoryStoreModel, after: MemoryStoreModel)
    requires
        index_sound(before),
        after.index == before.index,
        after.events == before.events,
        after.observations == before.observations,
        after.claims.len() >= before.claims.len(),
        forall|i: int|
            0 <= i < before.claims.len() ==> (#[trigger] after.claims[i]).id == before.claims[i].id,
    ensures
        index_sound(after),
{
    restating_keeps_records(before, after);
    extending_keeps_sound(before, after);
}

proof fn observing_keeps_index_sound(
    store: MemoryStoreModel,
    made: Seq<ObservationModel>,
    drafts: Seq<ObservationDraftModel>,
)
    requires
        index_sound(store),
    ensures
        index_sound(with_observations(store, made, drafts)),
    decreases made.len(),
{
    if made.len() > 0 && drafts.len() > 0 {
        observing_keeps_index_sound(store, made.drop_last(), drafts.drop_last());
        observation_keeps_index_sound(
            with_observations(store, made.drop_last(), drafts.drop_last()),
            made.last(),
            drafts.last().source_event_ids,
        );
    }
}

proof fn drafting_keeps_index_sound(
    store: MemoryStoreModel,
    made: Seq<ClaimModel>,
    drafts: Seq<ClaimDraftModel>,
)
    requires
        index_sound(store),
    ensures
        index_sound(with_drafted(store, made, drafts)),
    decreases made.len(),
{
    if made.len() > 0 && drafts.len() > 0 {
        let before = with_drafted(store, made.drop_last(), drafts.drop_last());
        drafting_keeps_index_sound(store, made.drop_last(), drafts.drop_last());
        claim_keeps_index_sound(before, made.last());
        same_records_keep_index_sound(
            with_claim(before, made.last()),
            with_drafted(store, made, drafts),
        );
    }
}

proof fn committing_keeps_index_sound(
    store: MemoryStoreModel,
    run: RunRowModel,
    result: ObserverResultModel,
    stamp: StampModel,
)
    requires
        index_sound(store),
    ensures
        index_sound(committed(store, run, result, stamp).0),
{
    let sources = crate::event::events_between(
        store,
        run.stream_id,
        run.from_sequence as int,
        run.to_sequence as int,
    );
    let made = crate::observation::all_observed(
        run,
        sources,
        result.observations,
        stamp.ids,
        stamp.at,
    );
    let claims = crate::observation::all_drafted(
        run,
        result.claims,
        stamp.ids.skip(result.observations.len() as int),
        stamp.at,
    );
    let observed = with_observations(store, made, result.observations);
    observing_keeps_index_sound(store, made, result.observations);
    drafting_keeps_index_sound(observed, claims, result.claims);
    same_records_keep_index_sound(
        with_drafted(observed, claims, result.claims),
        committed(store, run, result, stamp).0,
    );
}

proof fn purging_keeps_index_sound(
    store: MemoryStoreModel,
    closure: PrivacyClosureModel,
    at: Text,
)
    requires
        index_sound(store),
    ensures
        index_sound(purged_store(store, closure, at)),
{
    let after = purged_store(store, closure, at);
    let gone = closure.events.map_values(event_id());
    assert forall|i: int| 0 <= i < after.index.len() implies row_sound(
        after,
        #[trigger] after.index[i],
    ) by {
        let k = filtered_position(store.index, index_kept(closure), i);
        let row = store.index[k];
        assert(row_sound(store, row));
        if row.record_type == "event"@ && indexed_event(store.events, row) {
            let e = choose|e: int|
                0 <= e < store.events.len() && (#[trigger] store.events[e]).id == row.record_id
                    && store.events[e].sensitivity is Normal && searchable(store.events[e].content)
                    == row.text;
            assert((event_kept(gone))(store.events[e]));
            let m = kept_position(store.events, event_kept(gone), e);
            assert(after.events[m] == store.events[e]);
        } else if row.record_type == "observation"@ && has_observation(store, row.record_id) {
            let keep = observation_kept(closure.observation_ids);
            let o = choose|o: int|
                0 <= o < store.observations.len() && (#[trigger] store.observations[o]).id
                    == row.record_id;
            assert(keep(store.observations[o]));
            let m = kept_position(store.observations, keep, o);
            assert(after.observations[m].id == row.record_id);
        } else {
            let keep = claim_kept(closure.claim_ids);
            let c = choose|c: int|
                0 <= c < store.claims.len() && (#[trigger] store.claims[c]).id == row.record_id;
            assert(keep(store.claims[c]));
            let m = kept_position(store.claims, keep, c);
            assert(after.claims[m] == (claim_unlinked(closure.claim_ids))(
                store.claims.filter(keep)[m],
            ));
            assert(after.claims[m].id == row.record_id);
        }
    }
}

proof fn reconciling_keeps_index_sound(store: MemoryStoreModel, pending: Seq<ClaimModel>, at: Text)
    requires
        index_sound(store),
    ensures
        reconcile_all(store, pending, at) matches Ok((done, _)) ==> index_sound(done),
    decreases pending.len(),
{
    if pending.len() > 0 {
        reconciling_keeps_index_sound(store, pending.drop_last(), at);
        if let Ok((done, summary)) = reconcile_all(store, pending.drop_last(), at) {
            if let Ok((next, _)) = crate::claim::reconcile_one(done, summary, pending.last(), at) {
                same_records_keep_index_sound(done, next);
            }
        }
    }
}

/// What an operation on claims does to the index and what it stands for: it may add a command
/// event and a claim, in this order, each with its row, and change the standing of claims.
pub open spec fn claim_operation(
    before: MemoryStoreModel,
    after: MemoryStoreModel,
    event: MemoryEventModel,
    at: Text,
) -> bool {
    let commanded = with_event(before, event, at);
    &&& after.events == commanded.events
    &&& after.observations == before.observations
    &&& after.claims.len() >= before.claims.len()
    &&& forall|i: int|
        0 <= i < before.claims.len() ==> (#[trigger] after.claims[i]).id == before.claims[i].id
    &&& after.index == commanded.index || (after.index == commanded.index.push(
        claim_index_row(after.claims.last()),
    ) && after.claims.len() > before.claims.len())
}

proof fn claim_operation_keeps_index_sound(
    before: MemoryStoreModel,
    after: MemoryStoreModel,
    event: MemoryEventModel,
    at: Text,
)
    requires
        index_sound(before),
        claim_operation(before, after, event, at),
    ensures
        index_sound(after),
{
    let commanded = with_event(before, event, at);
    event_keeps_index_sound(before, event, at);
    restating_keeps_records(commanded, after);
    if after.index != commanded.index {
        assert(after.claims[after.claims.len() - 1] == after.claims.last());
    }
    extending_keeps_sound(commanded, after);
}

/// What the law `index_stays_sound` says of a request.
spec fn index_holds(store: MemoryStoreModel, request: Request, stamp: StampModel) -> bool {
    &&& index_sound(step(store, request, stamp).0)
}

proof fn index_create_scope(store: MemoryStoreModel, request: Request, stamp: StampModel)
    requires
        request is CreateScope,
        stamped(request, stamp),
        index_sound(store),
    ensures
        index_holds(store, request, stamp),
{
    reveal(crate::transition::on_create_scope);
    same_records_keep_index_sound(store, step(store, request, stamp).0);
}

proof fn index_append_event(store: MemoryStoreModel, request: Request, stamp: StampModel)
    requires
        request is AppendEvent,
        stamped(request, stamp),
        index_sound(store),
    ensures
        index_holds(store, request, stamp),
{
    reveal(crate::transition::on_append_event);
    let after = step(store, request, stamp).0;
    if after.events != store.events {
        let event = after.events.last();
        event_keeps_index_sound(store, event, stamp.at);
        same_records_keep_index_sound(with_event(store, event, stamp.at), after);
    }
}

proof fn index_plan_observation(store: MemoryStoreModel, request: Request, stamp: StampModel)
    requires
        request is PlanObservation,
        stamped(request, stamp),
        index_sound(store),
    ensures
        index_holds(store, request, stamp),
{
    reveal(crate::transition::on_plan_observation);
    same_records_keep_index_sound(store, step(store, request, stamp).0);
}

proof fn index_commit_observation(store: MemoryStoreModel, request: Request, stamp: StampModel)
    requires
        request is CommitObservation,
        stamped(request, stamp),
        index_sound(store),
    ensures
        index_holds(store, request, stamp),
{
    reveal(crate::transition::on_commit_observation);
    let after = step(store, request, stamp).0;
    if after.index == store.index && after.events == store.events && after.observations
        == store.observations && after.claims == store.claims {
        same_records_keep_index_sound(store, after);
    } else {
        let run = crate::view::run_at(store, request->CommitObservation_run_id).unwrap();
        let result = request->CommitObservation_result;
        committing_keeps_index_sound(store, run, result, stamp);
        same_records_keep_index_sound(committed(store, run, result, stamp).0, after);
    }
}

proof fn index_fail_observation(store: MemoryStoreModel, request: Request, stamp: StampModel)
    requires
        request is FailObservation,
        stamped(request, stamp),
        index_sound(store),
    ensures
        index_holds(store, request, stamp),
{
    reveal(crate::transition::on_fail_observation);
    same_records_keep_index_sound(store, step(store, request, stamp).0);
}

proof fn index_state_claim(store: MemoryStoreModel, request: Request, stamp: StampModel)
    requires
        request is StateClaim,
        stamped(request, stamp),
        index_sound(store),
    ensures
        index_holds(store, request, stamp),
{
    reveal(crate::transition::on_state_claim);
    let after = step(store, request, stamp).0;
    if after.events == store.events {
        same_records_keep_index_sound(store, after);
    } else {
        claim_operation_keeps_index_sound(store, after, after.events.last(), stamp.at);
    }
}

proof fn index_confirm_claim(store: MemoryStoreModel, request: Request, stamp: StampModel)
    requires
        request is ConfirmClaim,
        stamped(request, stamp),
        index_sound(store),
    ensures
        index_holds(store, request, stamp),
{
    reveal(crate::transition::on_confirm_claim);
    let after = step(store, request, stamp).0;
    if after.events == store.events {
        same_records_keep_index_sound(store, after);
    } else {
        claim_operation_keeps_index_sound(store, after, after.events.last(), stamp.at);
    }
}

proof fn index_correct_claim(store: MemoryStoreModel, request: Request, stamp: StampModel)
    requires
        request is CorrectClaim,
        stamped(request, stamp),
        index_sound(store),
    ensures
        index_holds(store, request, stamp),
{
    reveal(crate::transition::on_correct_claim);
    let after = step(store, request, stamp).0;
    if after.events == store.events {
        same_records_keep_index_sound(store, after);
    } else {
        claim_operation_keeps_index_sound(store, after, after.events.last(), stamp.at);
    }
}

proof fn index_rescope_claim(store: MemoryStoreModel, request: Request, stamp: StampModel)
    requires
        request is RescopeClaim,
        stamped(request, stamp),
        index_sound(store),
    ensures
        index_holds(store, request, stamp),
{
    reveal(crate::transition::on_rescope_claim);
    let after = step(store, request, stamp).0;
    if after.events == store.events {
        same_records_keep_index_sound(store, after);
    } else {
        claim_operation_keeps_index_sound(store, after, after.events.last(), stamp.at);
    }
}

proof fn index_close_claim(store: MemoryStoreModel, request: Request, stamp: StampModel)
    requires
        request is CloseClaim,
        stamped(request, stamp),
        index_sound(store),
    ensures
        index_holds(store, request, stamp),
{
    reveal(crate::transition::on_close_claim);
    let after = step(store, request, stamp).0;
    if after.events == store.events {
        same_records_keep_index_sound(store, after);
    } else {
        claim_operation_keeps_index_sound(store, after, after.events.last(), stamp.at);
    }
}

proof fn index_reconcile(store: MemoryStoreModel, request: Request, stamp: StampModel)
    requires
        request is Reconcile,
        stamped(request, stamp),
        index_sound(store),
    ensures
        index_holds(store, request, stamp),
{
    reveal(crate::transition::on_reconcile);
    let pending = crate::claim_table::claims_in(
        store,
        seq![request->Reconcile_scope_id],
        Some(crate::kind::ClaimStatus::Pending),
    );
    reconciling_keeps_index_sound(store, pending, stamp.at);
    let after = step(store, request, stamp).0;
    if after != store {
        let done = reconcile_all(store, pending, stamp.at)->Ok_0.0;
        same_records_keep_index_sound(done, after);
    }
}

proof fn index_create_view(store: MemoryStoreModel, request: Request, stamp: StampModel)
    requires
        request is CreateView,
        stamped(request, stamp),
        index_sound(store),
    ensures
        index_holds(store, request, stamp),
{
    reveal(crate::transition::on_create_view);
    same_records_keep_index_sound(store, step(store, request, stamp).0);
}

proof fn index_purge_claim(store: MemoryStoreModel, request: Request, stamp: StampModel)
    requires
        request is PurgeClaim,
        stamped(request, stamp),
        index_sound(store),
    ensures
        index_holds(store, request, stamp),
{
    reveal(crate::transition::on_purge_claim);
    let after = step(store, request, stamp).0;
    let closure = crate::privacy::privacy_closure(
        store,
        seq![crate::privacy::claim_node(request->PurgeClaim_claim_id)],
    );
    if after != store {
        purging_keeps_index_sound(store, closure, stamp.at);
        same_records_keep_index_sound(purged_store(store, closure, stamp.at), after);
    }
}

proof fn index_purge_event(store: MemoryStoreModel, request: Request, stamp: StampModel)
    requires
        request is PurgeEvent,
        stamped(request, stamp),
        index_sound(store),
    ensures
        index_holds(store, request, stamp),
{
    reveal(crate::transition::on_purge_event);
    let after = step(store, request, stamp).0;
    let closure = crate::privacy::privacy_closure(
        store,
        seq![crate::privacy::event_node(request->PurgeEvent_event_id)],
    );
    if after != store {
        purging_keeps_index_sound(store, closure, stamp.at);
        same_records_keep_index_sound(purged_store(store, closure, stamp.at), after);
    }
}

/// Every request keeps the index sound: secrets, purged records and views are never in it.
pub proof fn index_stays_sound(store: MemoryStoreModel, request: Request, stamp: StampModel)
    requires
        stamped(request, stamp),
        index_sound(store),
    ensures
        index_sound(step(store, request, stamp).0),
{
    match request {
        Request::CreateScope { .. } => index_create_scope(store, request, stamp),
        Request::AppendEvent { .. } => index_append_event(store, request, stamp),
        Request::PlanObservation { .. } => index_plan_observation(store, request, stamp),
        Request::CommitObservation { .. } => index_commit_observation(store, request, stamp),
        Request::FailObservation { .. } => index_fail_observation(store, request, stamp),
        Request::StateClaim { .. } => index_state_claim(store, request, stamp),
        Request::ConfirmClaim { .. } => index_confirm_claim(store, request, stamp),
        Request::CorrectClaim { .. } => index_correct_claim(store, request, stamp),
        Request::RescopeClaim { .. } => index_rescope_claim(store, request, stamp),
        Request::CloseClaim { .. } => index_close_claim(store, request, stamp),
        Request::Reconcile { .. } => index_reconcile(store, request, stamp),
        Request::CreateView { .. } => index_create_view(store, request, stamp),
        Request::PurgeClaim { .. } => index_purge_claim(store, request, stamp),
        Request::PurgeEvent { .. } => index_purge_event(store, request, stamp),
    }
}

/// A literal phrase keeps its text: different queries make different phrases.
pub proof fn literal_phrases_are_faithful(left: Text, right: Text)
    requires
        literal_phrase(left) == literal_phrase(right),
    ensures
        left == right,
{
    reveal_strlit("\"");
    let a = literal_phrase(left);
    let b = literal_phrase(right);
    assert(quotes_doubled(left) =~= a.subrange(1, a.len() - 1));
    assert(quotes_doubled(right) =~= b.subrange(1, b.len() - 1));
    doubling_is_faithful(left, right);
}

proof fn doubling_is_faithful(left: Text, right: Text)
    requires
        quotes_doubled(left) == quotes_doubled(right),
    ensures
        left == right,
    decreases left.len(),
{
    reveal_strlit("\"\"");
    let a = quotes_doubled(left);
    let b = quotes_doubled(right);
    if left.len() == 0 || right.len() == 0 {
        if right.len() > 0 {
            assert(b == quotes_doubled(right.drop_last()) + "\"\""@ || b == quotes_doubled(
                right.drop_last(),
            ).push(right.last()));
        }
        if left.len() > 0 {
            assert(a == quotes_doubled(left.drop_last()) + "\"\""@ || a == quotes_doubled(
                left.drop_last(),
            ).push(left.last()));
        }
        assert(left =~= right);
    } else {
        let l = quotes_doubled(left.drop_last());
        let r = quotes_doubled(right.drop_last());
        if left.last() == '"' {
            assert(a[a.len() - 1] == '"');
            assert(right.last() == '"');
            assert(l =~= a.take(a.len() - 2));
            assert(r =~= b.take(b.len() - 2));
        } else {
            assert(a[a.len() - 1] == left.last());
            assert(right.last() == left.last());
            assert(l =~= a.drop_last());
            assert(r =~= b.drop_last());
        }
        doubling_is_faithful(left.drop_last(), right.drop_last());
        assert(left =~= left.drop_last().push(left.last()));
        assert(right =~= right.drop_last().push(right.last()));
    }
}

} // verus!
