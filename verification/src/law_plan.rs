//! Laws of observation plans: the next events of the stream, all active claims, and the run that
//! is opened for them.

use vstd::prelude::*;

use crate::claim_table::{claim_age, claim_in, claims_in};
use crate::digest::request_hash;
use crate::event::{event_order, redacted, stream_at};
use crate::kind::{ClaimStatus, ViewKind};
use crate::law_claim::ordered_contains;
use crate::law_event::{filtered_position, kept_position};
use crate::law_observation::{planned_is_within, total_cost};
use crate::law_record::{holds_scope, key_unused, scope_is_held, stream_is_held, unused_key_is_free};
use crate::model::{ClaimModel, MemoryEventModel, ObservationPlanOutcomeModel};
use crate::observation::{
    claims_by_scope, cost, event_after, events_after, plan_request, plan_step, planned,
    redacted_event, scope_position, PlanResult,
};
use crate::order::{key_less, ordered_rows};
use crate::row::MemoryStoreModel;
use crate::scope::{scope_named, visible_scopes};
use crate::stamp::StampModel;
use crate::table::{first_where_found, some_row};
use crate::text::{blank, listed, position, text_less, text_order_irreflexive, Text};
use crate::view::{latest_view, run_named};

verus! {

/// Whether a plan was made now, and is ready.
pub open spec fn ready_now(outcome: PlanResult) -> bool {
    outcome matches Ok(done) && !done.replayed && done.data is Ready
}

/// Whether an event waits to be observed: it is of the stream, and behind its cursor.
pub open spec fn unobserved(event: MemoryEventModel, stream_id: Text, cursor: i64) -> bool {
    event.stream_id == stream_id && event.sequence > cursor
}

/// The claims of some scopes that are listed are those of the memory that have the status that is
/// asked for, and no others.
pub proof fn listed_claims_are_all(
    store: MemoryStoreModel,
    scope_ids: Seq<Text>,
    status: Option<ClaimStatus>,
    claim: ClaimModel,
)
    ensures
        claims_in(store, scope_ids, status).contains(claim) <==> {
            &&& store.claims.contains(claim)
            &&& scope_ids.contains(claim.scope_id)
            &&& status matches Some(wanted) ==> claim.status == wanted
        },
{
    let accepts = claim_in(scope_ids, status);
    let rows = store.claims.filter(accepts);
    ordered_contains(rows, claim_age(), claim);
    if rows.contains(claim) {
        let k = choose|k: int| 0 <= k < rows.len() && rows[k] == claim;
        let at = filtered_position(store.claims, accepts, k);
        assert(store.claims[at] == claim);
        let n = choose|n: int| 0 <= n < scope_ids.len() && #[trigger] scope_ids[n] == claim.scope_id;
        assert(scope_ids.contains(claim.scope_id));
    }
    if store.claims.contains(claim) && scope_ids.contains(claim.scope_id) && (status matches Some(
        wanted,
    ) ==> claim.status == wanted) {
        let at = choose|at: int| 0 <= at < store.claims.len() && store.claims[at] == claim;
        let n = choose|n: int| 0 <= n < scope_ids.len() && scope_ids[n] == claim.scope_id;
        assert(listed(scope_ids, claim.scope_id));
        assert(accepts(claim));
        let k = kept_position(store.claims, accepts, at);
        assert(rows[k] == claim);
    }
}

/// Listed claims come by age, and those of one time by identifier.
pub proof fn listed_claims_are_by_age(
    store: MemoryStoreModel,
    scope_ids: Seq<Text>,
    status: Option<ClaimStatus>,
    i: int,
    j: int,
)
    requires
        0 <= i < j < claims_in(store, scope_ids, status).len(),
    ensures
        ({
            let claims = claims_in(store, scope_ids, status);
            &&& !text_less(claims[j].created_at, claims[i].created_at)
            &&& claims[i].created_at == claims[j].created_at ==> !text_less(
                claims[j].id,
                claims[i].id,
            )
        }),
{
    let rows = store.claims.filter(claim_in(scope_ids, status));
    let claims = claims_in(store, scope_ids, status);
    ordered_rows(rows, claim_age());
    assert(!key_less((claim_age())(claims[j]), (claim_age())(claims[i])));
    text_order_irreflexive(claims[i].created_at);
    text_order_irreflexive(claims[i].id);
}

/// The claims of the visible scopes by status are those of the memory, those of outer scopes first.
pub proof fn scoped_claims_are_all(
    store: MemoryStoreModel,
    visible: Seq<Text>,
    status: ClaimStatus,
)
    ensures
        forall|claim: ClaimModel|
            #[trigger] claims_by_scope(store, visible, status).contains(claim) <==> {
                &&& store.claims.contains(claim)
                &&& visible.contains(claim.scope_id)
                &&& claim.status == status
            },
        forall|i: int, j: int|
            0 <= i < j < claims_by_scope(store, visible, status).len() ==> position(
                visible,
                (#[trigger] claims_by_scope(store, visible, status)[i]).scope_id,
            ) <= position(
                visible,
                (#[trigger] claims_by_scope(store, visible, status)[j]).scope_id,
            ),
{
    let rows = claims_in(store, visible, Some(status));
    let sorted = claims_by_scope(store, visible, status);
    assert forall|claim: ClaimModel| #[trigger] sorted.contains(claim) <==> {
        &&& store.claims.contains(claim)
        &&& visible.contains(claim.scope_id)
        &&& claim.status == status
    } by {
        ordered_contains(rows, scope_position(visible), claim);
        listed_claims_are_all(store, visible, Some(status), claim);
    }
    ordered_rows(rows, scope_position(visible));
    assert forall|i: int, j: int| 0 <= i < j < sorted.len() implies position(
        visible,
        (#[trigger] sorted[i]).scope_id,
    ) <= position(visible, (#[trigger] sorted[j]).scope_id) by {
        assert(!key_less((scope_position(visible))(sorted[j]), (scope_position(visible))(sorted[i])));
    }
}

/// A ready plan hands out every active claim of its scope and of the scopes above it, and no other
/// claim.
pub proof fn plan_holds_the_active_claims(
    store: MemoryStoreModel,
    scope_id: Text,
    stream_id: Text,
    max_tokens: i64,
    observer_model: Text,
    prompt_version: Text,
    key: Text,
    stamp: StampModel,
    claim: ClaimModel,
)
    requires
        ready_now(
            plan_step(
                store,
                scope_id,
                stream_id,
                max_tokens,
                observer_model,
                prompt_version,
                key,
                stamp,
            ).1,
        ),
    ensures
        plan_step(
            store,
            scope_id,
            stream_id,
            max_tokens,
            observer_model,
            prompt_version,
            key,
            stamp,
        ).1->Ok_0.data->Ready_plan.active_claims.contains(claim) <==> {
            &&& store.claims.contains(claim)
            &&& claim.status is Active
            &&& visible_scopes(store, scope_id)->Ok_0.contains(claim.scope_id)
        },
{
    let visible = visible_scopes(store, scope_id)->Ok_0;
    scoped_claims_are_all(store, visible, ClaimStatus::Active);
    assert(claims_by_scope(store, visible, ClaimStatus::Active).contains(claim) <==> {
        &&& store.claims.contains(claim)
        &&& visible.contains(claim.scope_id)
        &&& claim.status == ClaimStatus::Active
    });
}

/// The events of a stream behind a cursor: all of them, in the order of their numbers.
pub proof fn later_events_are_all(store: MemoryStoreModel, stream_id: Text, cursor: i64)
    ensures
        ({
            let events = events_after(store, stream_id, cursor as int);
            &&& forall|event: MemoryEventModel|
                #[trigger] events.contains(event) <==> store.events.contains(event) && unobserved(
                    event,
                    stream_id,
                    cursor,
                )
            &&& forall|i: int, j: int|
                0 <= i < j < events.len() ==> (#[trigger] events[i]).sequence <= (
                #[trigger] events[j]).sequence
        }),
{
    let accepts = event_after(stream_id, cursor as int);
    let rows = store.events.filter(accepts);
    let events = events_after(store, stream_id, cursor as int);
    assert forall|event: MemoryEventModel|
        #[trigger] events.contains(event) <==> store.events.contains(event) && unobserved(
            event,
            stream_id,
            cursor,
        ) by {
        ordered_contains(rows, event_order(), event);
        if rows.contains(event) {
            let k = choose|k: int| 0 <= k < rows.len() && rows[k] == event;
            let at = filtered_position(store.events, accepts, k);
            assert(store.events[at] == event);
        }
        if store.events.contains(event) && unobserved(event, stream_id, cursor) {
            let at = choose|at: int| 0 <= at < store.events.len() && store.events[at] == event;
            assert(accepts(store.events[at]));
            let k = kept_position(store.events, accepts, at);
            assert(rows[k] == event);
        }
    }
    ordered_rows(rows, event_order());
    assert forall|i: int, j: int| 0 <= i < j < events.len() implies (
    #[trigger] events[i]).sequence <= (#[trigger] events[j]).sequence by {
        assert(events.contains(events[i]));
        assert(events.contains(events[j]));
        assert(!key_less((event_order())(events[j]), (event_order())(events[i])));
    }
}

/// Where a plan stops before the end, the next event would not fit, or the budget is used up.
proof fn planned_is_maximal(events: Seq<MemoryEventModel>, taken: int, spent: int, budget: int)
    requires
        0 <= taken <= events.len(),
        spent == total_cost(events.take(taken)),
        0 <= spent < budget,
    ensures
        ({
            let n = planned(events, taken, spent, budget);
            n < events.len() ==> total_cost(events.take(n)) + cost(events[n].token_count) > budget
                || total_cost(events.take(n)) >= budget
        }),
    decreases events.len() - taken,
{
    if taken < events.len() {
        let next = spent + cost(events[taken].token_count);
        assert(events.take(taken + 1).drop_last() =~= events.take(taken));
        assert(events.take(taken + 1).last() == events[taken]);
        if taken > 0 && next > budget {
        } else if next >= budget {
        } else {
            planned_is_maximal(events, taken + 1, next, budget);
        }
    }
}

/// A ready plan hands out the next events of the stream, and nothing else: events behind the
/// cursor, as an agent is shown them, in the order of their numbers, without leaving one out, and
/// as many as the budget allows.
pub proof fn plan_takes_the_next_events(
    store: MemoryStoreModel,
    scope_id: Text,
    stream_id: Text,
    max_tokens: i64,
    observer_model: Text,
    prompt_version: Text,
    key: Text,
    stamp: StampModel,
)
    requires
        ready_now(
            plan_step(
                store,
                scope_id,
                stream_id,
                max_tokens,
                observer_model,
                prompt_version,
                key,
                stamp,
            ).1,
        ),
    ensures
        ({
            let plan = plan_step(
                store,
                scope_id,
                stream_id,
                max_tokens,
                observer_model,
                prompt_version,
                key,
                stamp,
            ).1->Ok_0.data->Ready_plan;
            let cursor = stream_at(store, stream_id).unwrap().observed_through_sequence;
            &&& plan.events.len() > 0
            &&& plan.from_sequence == plan.events[0].sequence
            &&& plan.to_sequence == plan.events.last().sequence
            &&& forall|i: int, j: int|
                0 <= i < j < plan.events.len() ==> (#[trigger] plan.events[i]).sequence <= (
                #[trigger] plan.events[j]).sequence
            &&& forall|i: int|
                0 <= i < plan.events.len() ==> exists|k: int|
                    0 <= k < store.events.len() && unobserved(
                        #[trigger] store.events[k],
                        stream_id,
                        cursor,
                    ) && #[trigger] plan.events[i] == redacted(store.events[k])
            &&& forall|k: int|
                0 <= k < store.events.len() && unobserved(
                    #[trigger] store.events[k],
                    stream_id,
                    cursor,
                ) && store.events[k].sequence < plan.to_sequence ==> plan.events.contains(
                    redacted(store.events[k]),
                )
            &&& (exists|k: int|
                0 <= k < store.events.len() && unobserved(
                    #[trigger] store.events[k],
                    stream_id,
                    cursor,
                ) && store.events[k].sequence > plan.to_sequence) ==> exists|k: int|
                0 <= k < store.events.len() && unobserved(
                    #[trigger] store.events[k],
                    stream_id,
                    cursor,
                ) && store.events[k].sequence >= plan.to_sequence && (total_cost(plan.events)
                    + cost(redacted(store.events[k]).token_count) > max_tokens || total_cost(
                    plan.events,
                ) >= max_tokens)
        }),
{
    let plan = plan_step(
        store,
        scope_id,
        stream_id,
        max_tokens,
        observer_model,
        prompt_version,
        key,
        stamp,
    ).1->Ok_0.data->Ready_plan;
    let cursor = stream_at(store, stream_id).unwrap().observed_through_sequence;
    let raw = events_after(store, stream_id, cursor as int);
    let events = raw.map_values(redacted_event());
    let budget = max_tokens as int;
    let n = planned(events, 0, 0, budget);
    later_events_are_all(store, stream_id, cursor);
    planned_is_within(events, 0, 0, budget);
    assert(events.take(0).len() == 0);
    planned_is_maximal(events, 0, 0, budget);
    assert(plan.events == events.take(n));
    assert forall|i: int, j: int| 0 <= i < j < plan.events.len() implies (
    #[trigger] plan.events[i]).sequence <= (#[trigger] plan.events[j]).sequence by {
        assert(plan.events[i] == redacted(raw[i]));
        assert(plan.events[j] == redacted(raw[j]));
    }
    assert forall|i: int| 0 <= i < plan.events.len() implies exists|k: int|
        0 <= k < store.events.len() && unobserved(
            #[trigger] store.events[k],
            stream_id,
            cursor,
        ) && #[trigger] plan.events[i] == redacted(store.events[k]) by {
        assert(raw.contains(raw[i]));
        let k = choose|k: int| 0 <= k < store.events.len() && store.events[k] == raw[i];
        assert(plan.events[i] == redacted(store.events[k]));
    }
    assert(plan.events.last() == redacted(raw[n - 1]));
    assert forall|k: int|
        0 <= k < store.events.len() && unobserved(
            #[trigger] store.events[k],
            stream_id,
            cursor,
        ) && store.events[k].sequence < plan.to_sequence implies plan.events.contains(
        redacted(store.events[k]),
    ) by {
        assert(store.events.contains(store.events[k]));
        assert(raw.contains(store.events[k]));
        let m = choose|m: int| 0 <= m < raw.len() && raw[m] == store.events[k];
        if m >= n - 1 && m > n - 1 {
            assert(raw[n - 1].sequence <= raw[m].sequence);
        }
        assert(m < n);
        assert(plan.events[m] == redacted(store.events[k]));
    }
    if exists|k: int|
        0 <= k < store.events.len() && unobserved(
            #[trigger] store.events[k],
            stream_id,
            cursor,
        ) && store.events[k].sequence > plan.to_sequence {
        let k = choose|k: int|
            0 <= k < store.events.len() && unobserved(
                #[trigger] store.events[k],
                stream_id,
                cursor,
            ) && store.events[k].sequence > plan.to_sequence;
        assert(store.events.contains(store.events[k]));
        assert(raw.contains(store.events[k]));
        let m = choose|m: int| 0 <= m < raw.len() && raw[m] == store.events[k];
        if m < n - 1 {
            assert(raw[m].sequence <= raw[n - 1].sequence);
        }
        assert(n < raw.len());
        assert(raw.contains(raw[n]));
        let next = choose|next: int| 0 <= next < store.events.len() && store.events[next] == raw[n];
        assert(events[n] == redacted(raw[n]));
        assert(raw[n - 1].sequence <= raw[n].sequence);
        assert(unobserved(store.events[next], stream_id, cursor));
    }
}

/// A ready plan opens one pending run for what it hands out, of the scope and the stream that were
/// asked for, and hands out the latest continuation of the stream.
pub proof fn plan_opens_its_run(
    store: MemoryStoreModel,
    scope_id: Text,
    stream_id: Text,
    max_tokens: i64,
    observer_model: Text,
    prompt_version: Text,
    key: Text,
    stamp: StampModel,
)
    requires
        ready_now(
            plan_step(
                store,
                scope_id,
                stream_id,
                max_tokens,
                observer_model,
                prompt_version,
                key,
                stamp,
            ).1,
        ),
    ensures
        ({
            let (after, answer) = plan_step(
                store,
                scope_id,
                stream_id,
                max_tokens,
                observer_model,
                prompt_version,
                key,
                stamp,
            );
            let plan = answer->Ok_0.data->Ready_plan;
            let run = after.runs.last();
            &&& after.runs == store.runs.push(run)
            &&& after == (MemoryStoreModel {
                runs: after.runs,
                operations: after.operations,
                ..store
            })
            &&& run.id == plan.run_id
            &&& run.id == stamp.ids[0]
            &&& run.scope_id == scope_id
            &&& run.stream_id == stream_id
            &&& run.cursor_at_plan == stream_at(store, stream_id).unwrap().observed_through_sequence
            &&& run.from_sequence == plan.from_sequence
            &&& run.to_sequence == plan.to_sequence
            &&& run.status is Pending
            &&& run.source_integrity is Intact
            &&& run.observer_model == observer_model
            &&& run.prompt_version == prompt_version
            &&& run.ambiguities.len() == 0
            &&& run.error is None
            &&& plan.stream_id == stream_id
            &&& plan.scope.id == scope_id
            &&& store.scopes.contains(plan.scope)
            &&& match plan.previous_continuation {
                Some(view) => latest_view(store, stream_id, ViewKind::Continuation) matches Some(row)
                    && row.view == view,
                None => latest_view(store, stream_id, ViewKind::Continuation) is None,
            }
        }),
{
    first_where_found(store.scopes, scope_named(scope_id));
    stream_is_held(store, stream_id);
}

/// Whether a stream is caught up: no event waits behind its cursor.
pub open spec fn caught_up(store: MemoryStoreModel, stream_id: Text, cursor: i64) -> bool {
    forall|k: int|
        0 <= k < store.events.len() ==> !unobserved(#[trigger] store.events[k], stream_id, cursor)
}

/// Planning succeeds wherever the request is well formed, its key is new, its stream is of its
/// scope, and every waiting event fits the budget by itself: with a plan where an event waits, and
/// else with the word that everything has been observed, which changes nothing.
pub proof fn plans_are_made_where_events_wait(
    store: MemoryStoreModel,
    scope_id: Text,
    stream_id: Text,
    max_tokens: i64,
    observer_model: Text,
    prompt_version: Text,
    key: Text,
    stamp: StampModel,
)
    requires
        key_unused(store, key),
        !blank(key),
        !blank(observer_model),
        !blank(prompt_version),
        max_tokens > 0,
        holds_scope(store, scope_id),
        stream_at(store, stream_id) matches Some(stream) && stream.scope_id == scope_id,
        visible_scopes(store, scope_id) is Ok,
        forall|k: int|
            0 <= k < store.runs.len() ==> (#[trigger] store.runs[k]).id != stamp.ids[0],
        forall|k: int|
            0 <= k < store.events.len() ==> redacted(#[trigger] store.events[k]).token_count
                <= max_tokens,
    ensures
        ({
            let (after, answer) = plan_step(
                store,
                scope_id,
                stream_id,
                max_tokens,
                observer_model,
                prompt_version,
                key,
                stamp,
            );
            let cursor = stream_at(store, stream_id).unwrap().observed_through_sequence;
            &&& answer is Ok
            &&& !answer->Ok_0.replayed
            &&& match answer->Ok_0.data {
                ObservationPlanOutcomeModel::Ready { .. } => !caught_up(store, stream_id, cursor),
                ObservationPlanOutcomeModel::CaughtUp {
                    scope_id: scope,
                    stream_id: stream,
                    observed_through_sequence,
                    ..
                } => caught_up(store, stream_id, cursor) && scope == scope_id && stream
                    == stream_id && observed_through_sequence == cursor && after
                    == (MemoryStoreModel { operations: after.operations, ..store }),
            }
        }),
{
    unused_key_is_free(
        store,
        key,
        "observation.plan"@,
        request_hash(
            "observation.plan"@,
            plan_request(scope_id, stream_id, max_tokens, observer_model, prompt_version),
        ),
    );
    scope_is_held(store, scope_id);
    first_where_found(store.scopes, scope_named(scope_id));
    let cursor = stream_at(store, stream_id).unwrap().observed_through_sequence;
    let raw = events_after(store, stream_id, cursor as int);
    let events = raw.map_values(redacted_event());
    later_events_are_all(store, stream_id, cursor);
    if some_row(store.runs, run_named(stamp.ids[0])) {
        let k = choose|k: int|
            0 <= k < store.runs.len() && (run_named(stamp.ids[0]))(#[trigger] store.runs[k]);
        assert(store.runs[k].id != stamp.ids[0]);
    }
    if raw.len() > 0 {
        assert(raw.contains(raw[0]));
        let k = choose|k: int| 0 <= k < store.events.len() && store.events[k] == raw[0];
        assert(unobserved(store.events[k], stream_id, cursor));
        assert(redacted(store.events[k]).token_count <= max_tokens);
        assert(events[0] == redacted(raw[0]));
    } else {
        assert forall|k: int| 0 <= k < store.events.len() implies !unobserved(
            #[trigger] store.events[k],
            stream_id,
            cursor,
        ) by {
            assert(store.events.contains(store.events[k]));
            if unobserved(store.events[k], stream_id, cursor) {
                assert(raw.contains(store.events[k]));
            }
        }
    }
}

} // verus!
