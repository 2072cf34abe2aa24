//! Laws of observation runs and views: cursors move forward once, views are only added.

use vstd::prelude::*;

use crate::claim::reconcile_all;
use crate::claim_table::linked_all;
use crate::event::{event_order, redacted, stream_at, stream_named};
use crate::json::{empty_object, redacted_content};
use crate::kind::{RunStatus, ViewKind};
use crate::law_claim::ordered_contains;
use crate::law_event::{extends, filtered_position, only_commits_move_cursors, sequences_sound};
use crate::law_replay::{first_at, known_before, well_formed};
use crate::model::{
    ClaimDraftModel, ClaimModel, MemoryEventModel, ObservationDraftModel, ObservationModel,
    ObserverResultModel,
};
use crate::observation::{
    committed, continuation_content, cost, event_after, events_after, fail_step, keeps_continuation,
    observed_through, plan_step, planned, redacted_event, run_patched, with_drafted,
    with_observations, with_run_patch,
};
use crate::order::{ordered, ordered_rows, place};
use crate::row::{
    LinkModel, MemoryStoreModel, RunPatchModel, RunRowModel, StoredResultModel, StreamRowModel,
    ViewRowModel,
};
use crate::stamp::StampModel;
use crate::store::empty_store;
use crate::table::{first_where, first_where_at, first_where_found, some_row};
use crate::text::Text;
use crate::transition::{carried_out, is_purge, stamped, step, Request};
use crate::view::{
    generation_refusal, latest_view, latest_view_id, next_view, run_at, run_named, view_generation,
    view_of, with_view, ViewContentModel,
};

verus! {

/// Whether runs are sound: identifiers are unique, and each covers events behind its cursor.
pub open spec fn runs_sound(store: MemoryStoreModel) -> bool {
    &&& forall|i: int, j: int|
        0 <= i < j < store.runs.len() ==> (#[trigger] store.runs[i]).id != (
        #[trigger] store.runs[j]).id
    &&& forall|i: int|
        0 <= i < store.runs.len() ==> (#[trigger] store.runs[i]).cursor_at_plan
            < store.runs[i].from_sequence <= store.runs[i].to_sequence
}

/// An empty memory has sound runs.
pub proof fn runs_start_sound()
    ensures
        runs_sound(empty_store()),
{
}

/// A run whose standing may have changed, but not what it covers.
pub open spec fn same_run(before: RunRowModel, after: RunRowModel) -> bool {
    after == RunRowModel {
        status: after.status,
        source_integrity: after.source_integrity,
        ambiguities: after.ambiguities,
        error: after.error,
        updated_at: after.updated_at,
        ..before
    }
}

proof fn reconciling_keeps_runs(store: MemoryStoreModel, pending: Seq<ClaimModel>, at: Text)
    ensures
        reconcile_all(store, pending, at) matches Ok((done, _)) ==> done.runs == store.runs
            && done.views == store.views && done.observations == store.observations
            && done.observation_sources == store.observation_sources,
    decreases pending.len(),
{
    if pending.len() > 0 {
        reconciling_keeps_runs(store, pending.drop_last(), at);
    }
}

proof fn linking_extends(links: Seq<LinkModel>, holder_id: Text, sources: Seq<Text>)
    ensures
        extends(links, linked_all(links, holder_id, sources)),
    decreases sources.len(),
{
    let n = links.len() as int;
    let after = linked_all(links, holder_id, sources);
    if sources.len() > 0 {
        linking_extends(links, holder_id, sources.drop_last());
        let before = linked_all(links, holder_id, sources.drop_last());
        assert(after.take(n) =~= before.take(n));
    } else {
        assert(after.take(n) =~= links);
    }
}

proof fn observing_keeps_runs(
    store: MemoryStoreModel,
    made: Seq<ObservationModel>,
    drafts: Seq<ObservationDraftModel>,
)
    ensures
        with_observations(store, made, drafts).runs == store.runs,
        with_observations(store, made, drafts).views == store.views,
        extends(store.observations, with_observations(store, made, drafts).observations),
        extends(
            store.observation_sources,
            with_observations(store, made, drafts).observation_sources,
        ),
    decreases made.len(),
{
    let n = store.observations.len() as int;
    let m = store.observation_sources.len() as int;
    let after = with_observations(store, made, drafts);
    if made.len() > 0 && drafts.len() > 0 {
        observing_keeps_runs(store, made.drop_last(), drafts.drop_last());
        let before = with_observations(store, made.drop_last(), drafts.drop_last());
        assert(after.observations.take(n) =~= before.observations.take(n));
        linking_extends(
            before.observation_sources,
            made.last().id,
            drafts.last().source_event_ids,
        );
        let all = before.observation_sources.len() as int;
        assert(after.observation_sources.take(m) =~= after.observation_sources.take(all).take(m));
    } else {
        assert(after.observations.take(n) =~= store.observations);
        assert(after.observation_sources.take(m) =~= store.observation_sources);
    }
}

proof fn drafting_keeps_runs(
    store: MemoryStoreModel,
    made: Seq<ClaimModel>,
    drafts: Seq<ClaimDraftModel>,
)
    ensures
        with_drafted(store, made, drafts).runs == store.runs,
        with_drafted(store, made, drafts).views == store.views,
        with_drafted(store, made, drafts).observations == store.observations,
        with_drafted(store, made, drafts).observation_sources == store.observation_sources,
    decreases made.len(),
{
    if made.len() > 0 && drafts.len() > 0 {
        drafting_keeps_runs(store, made.drop_last(), drafts.drop_last());
    }
}

/// The memory just before a commit adds its continuation view.
pub open spec fn derived(
    store: MemoryStoreModel,
    run: RunRowModel,
    result: ObserverResultModel,
    stamp: StampModel,
) -> MemoryStoreModel {
    let sources = crate::event::events_between(
        store,
        run.stream_id,
        run.from_sequence as int,
        run.to_sequence as int,
    );
    with_drafted(
        with_observations(
            store,
            crate::observation::all_observed(
                run,
                sources,
                result.observations,
                stamp.ids,
                stamp.at,
            ),
            result.observations,
        ),
        crate::observation::all_drafted(
            run,
            result.claims,
            stamp.ids.skip(result.observations.len() as int),
            stamp.at,
        ),
        result.claims,
    )
}

/// What a commit does to runs, views and observations: its run is marked as committed, a
/// continuation view is added unless the old one is kept, and observations are only added.
pub proof fn committing_changes_runs(
    store: MemoryStoreModel,
    run: RunRowModel,
    result: ObserverResultModel,
    stamp: StampModel,
)
    ensures
        ({
            let (after, commit) = committed(store, run, result, stamp);
            let patch = RunPatchModel {
                status: RunStatus::Committed,
                error: None,
                ambiguities: Some(result.ambiguities),
                at: stamp.at,
            };
            let row = next_view(
                store,
                continuation_content(run, result),
                stamp.ids.last(),
                stamp.at,
            );
            &&& after.runs == store.runs.map_values(run_patched(run.id, patch))
            &&& after.views == if keeps_continuation(store, run, result) {
                store.views
            } else {
                store.views.push(row)
            }
            &&& commit.continuation_view == if keeps_continuation(store, run, result) {
                latest_view(store, run.stream_id, ViewKind::Continuation).unwrap().view
            } else {
                row.view
            }
            &&& extends(store.observations, after.observations)
            &&& extends(store.observation_sources, after.observation_sources)
        }),
{
    let sources = crate::event::events_between(
        store,
        run.stream_id,
        run.from_sequence as int,
        run.to_sequence as int,
    );
    let made = crate::observation::all_observed(
        run,
        sources,
        result.observations,
        stamp.ids,
        stamp.at,
    );
    let claims = crate::observation::all_drafted(
        run,
        result.claims,
        stamp.ids.skip(result.observations.len() as int),
        stamp.at,
    );
    observing_keeps_runs(store, made, result.observations);
    drafting_keeps_runs(
        with_observations(store, made, result.observations),
        claims,
        result.claims,
    );
    let before = derived(store, run, result, stamp);
    assert(before.views == store.views);
    assert(next_view(before, continuation_content(run, result), stamp.ids.last(), stamp.at)
        == next_view(store, continuation_content(run, result), stamp.ids.last(), stamp.at));
}

/// A plan takes at least one event and no more than there are.
pub proof fn planned_is_within(events: Seq<MemoryEventModel>, taken: int, spent: int, budget: int)
    requires
        0 <= taken <= events.len(),
        events.len() > 0,
        0 <= spent < budget,
    ensures
        taken <= planned(events, taken, spent, budget) <= events.len(),
        planned(events, taken, spent, budget) > 0,
    decreases events.len() - taken,
{
    if taken < events.len() {
        let next = spent + cost(events[taken].token_count);
        if taken > 0 && next > budget {
        } else if next >= budget {
        } else {
            planned_is_within(events, taken + 1, next, budget);
        }
    }
}

/// What some events cost together.
pub open spec fn total_cost(events: Seq<MemoryEventModel>) -> int
    decreases events.len(),
{
    if events.len() == 0 {
        0
    } else {
        total_cost(events.drop_last()) + cost(events.last().token_count)
    }
}

proof fn planned_cost(events: Seq<MemoryEventModel>, taken: int, spent: int, budget: int)
    requires
        0 <= taken <= events.len(),
        events.len() > 0,
        events[0].token_count <= budget,
        0 <= spent < budget,
        spent == total_cost(events.take(taken)),
    ensures
        total_cost(events.take(planned(events, taken, spent, budget))) <= budget,
    decreases events.len() - taken,
{
    if taken < events.len() {
        let next = spent + cost(events[taken].token_count);
        assert(events.take(taken + 1).drop_last() =~= events.take(taken));
        assert(events.take(taken + 1).last() == events[taken]);
        if taken > 0 && next > budget {
        } else if next >= budget {
            if taken == 0 {
                assert(events.take(0).len() == 0);
            }
        } else {
            planned_cost(events, taken + 1, next, budget);
        }
    }
}

/// A plan that is handed out keeps to its budget.
pub proof fn plans_fit_their_budget(
    store: MemoryStoreModel,
    scope_id: Text,
    stream_id: Text,
    max_tokens: i64,
    observer_model: Text,
    prompt_version: Text,
    key: Text,
    stamp: StampModel,
)
    requires
        plan_step(
            store,
            scope_id,
            stream_id,
            max_tokens,
            observer_model,
            prompt_version,
            key,
            stamp,
        ).1 matches Ok(done) && !done.replayed && done.data is Ready,
    ensures
        plan_step(
            store,
            scope_id,
            stream_id,
            max_tokens,
            observer_model,
            prompt_version,
            key,
            stamp,
        ).1 matches Ok(done) && total_cost(done.data->Ready_plan.events) <= max_tokens,
{
    let stream = stream_at(store, stream_id).unwrap();
    let events = events_after(
        store,
        stream_id,
        stream.observed_through_sequence as int,
    ).map_values(redacted_event());
    assert(events.take(0).len() == 0);
    planned_cost(events, 0, 0, max_tokens as int);
}

/// A plan never shows a secret: the content and metadata of secret events are replaced.
pub proof fn plans_hide_secrets(
    store: MemoryStoreModel,
    scope_id: Text,
    stream_id: Text,
    max_tokens: i64,
    observer_model: Text,
    prompt_version: Text,
    key: Text,
    stamp: StampModel,
    i: int,
)
    requires
        plan_step(
            store,
            scope_id,
            stream_id,
            max_tokens,
            observer_model,
            prompt_version,
            key,
            stamp,
        ).1 matches Ok(done) && !done.replayed && done.data is Ready && 0 <= i
            < done.data->Ready_plan.events.len() && done.data->Ready_plan.events[i].sensitivity is Secret,
    ensures
        plan_step(
            store,
            scope_id,
            stream_id,
            max_tokens,
            observer_model,
            prompt_version,
            key,
            stamp,
        ).1 matches Ok(done) && done.data->Ready_plan.events[i].content == redacted_content()
            && done.data->Ready_plan.events[i].metadata == empty_object(),
{
    let stream = stream_at(store, stream_id).unwrap();
    let raw = events_after(store, stream_id, stream.observed_through_sequence as int);
    let events = raw.map_values(redacted_event());
    let taken = planned(events, 0, 0, max_tokens as int);
    planned_is_within(events, 0, 0, max_tokens as int);
    assert(events.take(taken)[i] == redacted(raw[i]));
}

proof fn plan_covers_new_events(store: MemoryStoreModel, stream_id: Text, cursor: i64, taken: int)
    requires
        ({
            let events = events_after(store, stream_id, cursor as int).map_values(
                redacted_event(),
            );
            0 < taken <= events.len()
        }),
    ensures
        ({
            let events = events_after(store, stream_id, cursor as int).map_values(
                redacted_event(),
            ).take(taken);
            &&& cursor < events[0].sequence
            &&& events[0].sequence <= events.last().sequence
        }),
{
    let accepts = event_after(stream_id, cursor as int);
    let rows = store.events.filter(accepts);
    let sorted = ordered(rows, event_order());
    let events = sorted.map_values(redacted_event());
    ordered_rows(rows, event_order());
    assert(sorted.contains(sorted[0]));
    ordered_contains(rows, event_order(), sorted[0]);
    let k = choose|k: int| 0 <= k < rows.len() && rows[k] == sorted[0];
    let at = filtered_position(store.events, accepts, k);
    let last = taken - 1;
    assert(sorted.contains(sorted[last]));
    ordered_contains(rows, event_order(), sorted[last]);
    let m = choose|m: int| 0 <= m < rows.len() && rows[m] == sorted[last];
    let bt = filtered_position(store.events, accepts, m);
    assert(events.take(taken)[0] == redacted(sorted[0]));
    assert(events.take(taken).last() == redacted(sorted[last]));
    if last > 0 {
        assert(!crate::order::key_less(
            (event_order())(sorted[last]),
            (event_order())(sorted[0]),
        ));
    }
}

proof fn patched_runs_stay_sound(
    store: MemoryStoreModel,
    after: MemoryStoreModel,
)
    requires
        runs_sound(store),
        after.runs.len() == store.runs.len(),
        forall|i: int|
            0 <= i < store.runs.len() ==> same_run(store.runs[i], #[trigger] after.runs[i]),
    ensures
        runs_sound(after),
{
    assert forall|i: int, j: int| 0 <= i < j < after.runs.len() implies (#[trigger] after.runs[i]).id
        != (#[trigger] after.runs[j]).id by {
        assert(store.runs[i].id != store.runs[j].id);
    }
    assert forall|i: int| 0 <= i < after.runs.len() implies (#[trigger] after.runs[i]).cursor_at_plan
        < after.runs[i].from_sequence <= after.runs[i].to_sequence by {
        assert(same_run(store.runs[i], after.runs[i]));
        assert(store.runs[i].cursor_at_plan < store.runs[i].from_sequence);
    }
}

/// What the law `run_table_changes` says of a request.
spec fn runs_holds(store: MemoryStoreModel, request: Request, stamp: StampModel) -> bool {
    &&& ({
        let after = step(store, request, stamp).0;
        &&& store.runs.len() <= after.runs.len()
        &&& forall|i: int|
            0 <= i < store.runs.len() ==> same_run(store.runs[i], #[trigger] after.runs[i])
        &&& after.runs.len() > store.runs.len() ==> {
            &&& request is PlanObservation
            &&& after.runs == store.runs.push(after.runs.last())
            &&& after.runs.last().cursor_at_plan < after.runs.last().from_sequence
                <= after.runs.last().to_sequence
            &&& after.runs.last().id == stamp.ids[0]
            &&& !some_row(store.runs, run_named(stamp.ids[0]))
        }
        &&& runs_sound(store) ==> forall|i: int|
            0 <= i < store.runs.len() && !(store.runs[i].status is Pending) ==> (
            #[trigger] after.runs[i]).status == store.runs[i].status
    })
}

/// A run that is found by its identifier is the only one with it.
proof fn found_run_is_unique(store: MemoryStoreModel, id: Text, i: int)
    requires
        runs_sound(store),
        0 <= i < store.runs.len(),
        store.runs[i].id == id,
    ensures
        run_at(store, id) == Some(store.runs[i]),
{
    assert forall|k: int| 0 <= k < i implies !(run_named(id))(#[trigger] store.runs[k]) by {
        assert(store.runs[k].id != store.runs[i].id);
    }
    first_where_at(store.runs, run_named(id), i);
}

/// Only the run that is asked for changes its standing, and only where it is pending.
proof fn settled_runs_are_not_patched(store: MemoryStoreModel, after: MemoryStoreModel, id: Text)
    requires
        run_at(store, id) matches Some(run) && run.status is Pending,
        exists|patch: RunPatchModel|
            after.runs == store.runs.map_values(#[trigger] run_patched(id, patch)),
    ensures
        runs_sound(store) ==> forall|i: int|
            0 <= i < store.runs.len() && !(store.runs[i].status is Pending) ==> (
            #[trigger] after.runs[i]).status == store.runs[i].status,
{
    if runs_sound(store) {
        assert forall|i: int|
            0 <= i < store.runs.len() && !(store.runs[i].status is Pending) implies (
        #[trigger] after.runs[i]).status == store.runs[i].status by {
            if store.runs[i].id == id {
                found_run_is_unique(store, id, i);
            }
        }
    }
}

proof fn runs_create_scope(store: MemoryStoreModel, request: Request, stamp: StampModel)
    requires
        request is CreateScope,
        stamped(request, stamp),
    ensures
        runs_holds(store, request, stamp),
{
    reveal(crate::transition::on_create_scope);
}

proof fn runs_append_event(store: MemoryStoreModel, request: Request, stamp: StampModel)
    requires
        request is AppendEvent,
        stamped(request, stamp),
    ensures
        runs_holds(store, request, stamp),
{
    reveal(crate::transition::on_append_event);
}

proof fn runs_plan_observation(store: MemoryStoreModel, request: Request, stamp: StampModel)
    requires
        request is PlanObservation,
        stamped(request, stamp),
    ensures
        runs_holds(store, request, stamp),
{
    reveal(crate::transition::on_plan_observation);
    let after = step(store, request, stamp).0;
    if after.runs != store.runs {
        let stream_id = request->PlanObservation_stream_id;
        let stream = stream_at(store, stream_id).unwrap();
        let cursor = stream.observed_through_sequence;
        let budget = request->PlanObservation_max_tokens as int;
        let events = events_after(store, stream_id, cursor as int).map_values(redacted_event());
        planned_is_within(events, 0, 0, budget);
        plan_covers_new_events(store, stream_id, cursor, planned(events, 0, 0, budget));
        assert(after.runs == store.runs.push(after.runs.last()));
    }
}

proof fn runs_commit_observation(store: MemoryStoreModel, request: Request, stamp: StampModel)
    requires
        request is CommitObservation,
        stamped(request, stamp),
    ensures
        runs_holds(store, request, stamp),
{
    reveal(crate::transition::on_commit_observation);
    let after = step(store, request, stamp).0;
    let run_id = request->CommitObservation_run_id;
    if let Some(run) = run_at(store, run_id) {
        first_where_found(store.runs, run_named(run_id));
        committing_changes_runs(store, run, request->CommitObservation_result, stamp);
        if after.runs != store.runs {
            settled_runs_are_not_patched(store, after, run_id);
        }
    }
}

proof fn runs_fail_observation(store: MemoryStoreModel, request: Request, stamp: StampModel)
    requires
        request is FailObservation,
        stamped(request, stamp),
    ensures
        runs_holds(store, request, stamp),
{
    reveal(crate::transition::on_fail_observation);
    let after = step(store, request, stamp).0;
    if after.runs != store.runs {
        settled_runs_are_not_patched(store, after, request->FailObservation_run_id);
    }
}

proof fn runs_state_claim(store: MemoryStoreModel, request: Request, stamp: StampModel)
    requires
        request is StateClaim,
        stamped(request, stamp),
    ensures
        runs_holds(store, request, stamp),
{
    reveal(crate::transition::on_state_claim);
}

proof fn runs_confirm_claim(store: MemoryStoreModel, request: Request, stamp: StampModel)
    requires
        request is ConfirmClaim,
        stamped(request, stamp),
    ensures
        runs_holds(store, request, stamp),
{
    reveal(crate::transition::on_confirm_claim);
}

proof fn runs_correct_claim(store: MemoryStoreModel, request: Request, stamp: StampModel)
    requires
        request is CorrectClaim,
        stamped(request, stamp),
    ensures
        runs_holds(store, request, stamp),
{
    reveal(crate::transition::on_correct_claim);
}

proof fn runs_rescope_claim(store: MemoryStoreModel, request: Request, stamp: StampModel)
    requires
        request is RescopeClaim,
        stamped(request, stamp),
    ensures
        runs_holds(store, request, stamp),
{
    reveal(crate::transition::on_rescope_claim);
}

proof fn runs_close_claim(store: MemoryStoreModel, request: Request, stamp: StampModel)
    requires
        request is CloseClaim,
        stamped(request, stamp),
    ensures
        runs_holds(store, request, stamp),
{
    reveal(crate::transition::on_close_claim);
}

proof fn runs_reconcile(store: MemoryStoreModel, request: Request, stamp: StampModel)
    requires
        request is Reconcile,
        stamped(request, stamp),
    ensures
        runs_holds(store, request, stamp),
{
    reveal(crate::transition::on_reconcile);
    let pending = crate::claim_table::claims_in(
        store,
        seq![request->Reconcile_scope_id],
        Some(crate::kind::ClaimStatus::Pending),
    );
    reconciling_keeps_runs(store, pending, stamp.at);
}

proof fn runs_create_view(store: MemoryStoreModel, request: Request, stamp: StampModel)
    requires
        request is CreateView,
        stamped(request, stamp),
    ensures
        runs_holds(store, request, stamp),
{
    reveal(crate::transition::on_create_view);
}

proof fn runs_purge_claim(store: MemoryStoreModel, request: Request, stamp: StampModel)
    requires
        request is PurgeClaim,
        stamped(request, stamp),
    ensures
        runs_holds(store, request, stamp),
{
    reveal(crate::transition::on_purge_claim);
}

proof fn runs_purge_event(store: MemoryStoreModel, request: Request, stamp: StampModel)
    requires
        request is PurgeEvent,
        stamped(request, stamp),
    ensures
        runs_holds(store, request, stamp),
{
    reveal(crate::transition::on_purge_event);
}

/// What a request does to runs: it may change the standing of pending runs, and a plan may add
/// one, which covers events behind the cursor of its stream.
pub proof fn run_table_changes(store: MemoryStoreModel, request: Request, stamp: StampModel)
    requires
        stamped(request, stamp),
    ensures
        ({
            let after = step(store, request, stamp).0;
            &&& store.runs.len() <= after.runs.len()
            &&& forall|i: int|
                0 <= i < store.runs.len() ==> same_run(store.runs[i], #[trigger] after.runs[i])
            &&& after.runs.len() > store.runs.len() ==> {
                &&& request is PlanObservation
                &&& after.runs == store.runs.push(after.runs.last())
                &&& after.runs.last().cursor_at_plan < after.runs.last().from_sequence
                    <= after.runs.last().to_sequence
                &&& after.runs.last().id == stamp.ids[0]
                &&& !some_row(store.runs, run_named(stamp.ids[0]))
            }
            &&& runs_sound(store) ==> forall|i: int|
                0 <= i < store.runs.len() && !(store.runs[i].status is Pending) ==> (
                #[trigger] after.runs[i]).status == store.runs[i].status
        }),
{
    match request {
        Request::CreateScope { .. } => runs_create_scope(store, request, stamp),
        Request::AppendEvent { .. } => runs_append_event(store, request, stamp),
        Request::PlanObservation { .. } => runs_plan_observation(store, request, stamp),
        Request::CommitObservation { .. } => runs_commit_observation(store, request, stamp),
        Request::FailObservation { .. } => runs_fail_observation(store, request, stamp),
        Request::StateClaim { .. } => runs_state_claim(store, request, stamp),
        Request::ConfirmClaim { .. } => runs_confirm_claim(store, request, stamp),
        Request::CorrectClaim { .. } => runs_correct_claim(store, request, stamp),
        Request::RescopeClaim { .. } => runs_rescope_claim(store, request, stamp),
        Request::CloseClaim { .. } => runs_close_claim(store, request, stamp),
        Request::Reconcile { .. } => runs_reconcile(store, request, stamp),
        Request::CreateView { .. } => runs_create_view(store, request, stamp),
        Request::PurgeClaim { .. } => runs_purge_claim(store, request, stamp),
        Request::PurgeEvent { .. } => runs_purge_event(store, request, stamp),
    }
}

/// Every request keeps runs sound.
pub proof fn runs_stay_sound(store: MemoryStoreModel, request: Request, stamp: StampModel)
    requires
        stamped(request, stamp),
        runs_sound(store),
    ensures
        runs_sound(step(store, request, stamp).0),
{
    run_table_changes(store, request, stamp);
    let after = step(store, request, stamp).0;
    if after.runs.len() == store.runs.len() {
        patched_runs_stay_sound(store, after);
    } else {
        let n = store.runs.len() as int;
        assert forall|i: int, j: int| 0 <= i < j < after.runs.len() implies (
        #[trigger] after.runs[i]).id != (#[trigger] after.runs[j]).id by {
            assert(after.runs[i] == store.runs[i]);
            if j < n {
                assert(after.runs[j] == store.runs[j]);
            } else {
                assert(!(run_named(stamp.ids[0]))(store.runs[i]));
            }
        }
        assert forall|i: int| 0 <= i < after.runs.len() implies (
        #[trigger] after.runs[i]).cursor_at_plan < after.runs[i].from_sequence
            <= after.runs[i].to_sequence by {
            if i < n {
                assert(after.runs[i] == store.runs[i]);
            }
        }
    }
}

/// A run that is committed, failed or stale stays so, and can be neither committed nor given up
/// again: what it brought is never brought twice.
pub proof fn settled_runs_stay_settled(
    store: MemoryStoreModel,
    request: Request,
    stamp: StampModel,
    i: int,
)
    requires
        stamped(request, stamp),
        runs_sound(store),
        0 <= i < store.runs.len(),
        !(store.runs[i].status is Pending),
    ensures
        step(store, request, stamp).0.runs[i].status == store.runs[i].status,
        request is CommitObservation && request->CommitObservation_run_id == store.runs[i].id
            ==> !carried_out(store, request, stamp),
        request is FailObservation && request->FailObservation_run_id == store.runs[i].id
            ==> !carried_out(store, request, stamp),
{
    run_table_changes(store, request, stamp);
    found_run_is_unique(store, store.runs[i].id, i);
    reveal(crate::transition::on_commit_observation);
    reveal(crate::transition::on_fail_observation);
}

/// The cursor of a stream never goes back, and a commit moves it forward.
pub proof fn cursors_never_fall(
    store: MemoryStoreModel,
    request: Request,
    stamp: StampModel,
    k: int,
)
    requires
        stamped(request, stamp),
        runs_sound(store),
        sequences_sound(store),
        0 <= k < store.streams.len(),
    ensures
        ({
            let after = step(store, request, stamp).0;
            &&& k < after.streams.len()
            &&& after.streams[k].observed_through_sequence
                >= store.streams[k].observed_through_sequence
        }),
{
    only_commits_move_cursors(store, request, stamp, k);
    let after = step(store, request, stamp).0;
    if after.streams[k].observed_through_sequence != store.streams[k].observed_through_sequence {
        let run_id = request->CommitObservation_run_id;
        let run = run_at(store, run_id).unwrap();
        first_where_found(store.runs, run_named(run_id));
        let r = choose|r: int| 0 <= r < store.runs.len() && store.runs[r] == run;
        assert(store.runs[r].cursor_at_plan < store.runs[r].from_sequence);
        assert(after.streams[k] == (observed_through(run.stream_id, run.to_sequence))(
            store.streams[k],
        ));
        assert(store.streams[k].id == run.stream_id);
        assert forall|j: int| 0 <= j < k implies !(stream_named(run.stream_id))(
            #[trigger] store.streams[j],
        ) by {
            assert(store.streams[j].id != store.streams[k].id);
        }
        first_where_at(store.streams, stream_named(run.stream_id), k);
    }
}

proof fn stream_after_commit(
    streams: Seq<StreamRowModel>,
    id: Text,
    to: i64,
)
    requires
        first_where(streams, stream_named(id)) is Some,
    ensures
        first_where(streams.map_values(observed_through(id, to)), stream_named(id)) matches Some(
            stream,
        ) && stream.observed_through_sequence == to,
{
    let accepts = stream_named(id);
    let after = streams.map_values(observed_through(id, to));
    first_where_found(streams, accepts);
    let i = first_at(streams, accepts);
    assert forall|k: int| 0 <= k < i implies !accepts(#[trigger] after[k]) by {
        assert(!accepts(streams[k]));
    }
    first_where_at(after, accepts, i);
}

proof fn other_run_after_commit(runs: Seq<RunRowModel>, committed_id: Text, other: Text, patch: RunPatchModel)
    requires
        committed_id != other,
    ensures
        first_where(runs.map_values(run_patched(committed_id, patch)), run_named(other)) == first_where(
            runs,
            run_named(other),
        ),
{
    let accepts = run_named(other);
    let after = runs.map_values(run_patched(committed_id, patch));
    first_where_found(runs, accepts);
    first_where_found(after, accepts);
    if some_row(runs, accepts) {
        let i = first_at(runs, accepts);
        first_where_at(runs, accepts, i);
        assert forall|k: int| 0 <= k < i implies !accepts(#[trigger] after[k]) by {
            assert(!accepts(runs[k]));
        }
        assert(after[i] == runs[i]);
        first_where_at(after, accepts, i);
    } else {
        if some_row(after, accepts) {
            let i = choose|i: int| 0 <= i < after.len() && accepts(#[trigger] after[i]);
            assert(accepts(runs[i]));
        }
    }
}

/// Of runs that were planned at one cursor only one can commit: after the first has committed,
/// the next is answered that it is stale, is marked so, and moves nothing.
pub proof fn only_one_competing_run_commits(
    store: MemoryStoreModel,
    first: Request,
    stamp: StampModel,
    second: Request,
    later: StampModel,
)
    requires
        first is CommitObservation,
        second is CommitObservation,
        stamped(first, stamp),
        carried_out(store, first, stamp),
        runs_sound(store),
        first->CommitObservation_run_id != second->CommitObservation_run_id,
        run_at(store, second->CommitObservation_run_id) matches Some(other) && other.status is Pending
            && (run_at(store, first->CommitObservation_run_id) matches Some(run) && run.stream_id
            == other.stream_id && run.cursor_at_plan == other.cursor_at_plan),
        well_formed(second),
        known_before(step(store, first, stamp).0, second) is Fresh,
    ensures
        ({
            let after = step(store, first, stamp).0;
            let (last, answer) = step(after, second, later);
            &&& answer matches Err(error) && error.kind is StaleObservationRun
            &&& last.streams == after.streams
            &&& last == (MemoryStoreModel { runs: last.runs, ..after })
            &&& run_at(last, second->CommitObservation_run_id) matches Some(run) && run.status is Stale
        }),
{
    reveal(crate::transition::on_commit_observation);
    let run_id = first->CommitObservation_run_id;
    let other_id = second->CommitObservation_run_id;
    let run = run_at(store, run_id).unwrap();
    let result = first->CommitObservation_result;
    let after = step(store, first, stamp).0;
    committing_changes_runs(store, run, result, stamp);
    crate::law_event::event_log_changes(store, first, stamp);
    let patch = RunPatchModel {
        status: RunStatus::Committed,
        error: None,
        ambiguities: Some(result.ambiguities),
        at: stamp.at,
    };
    first_where_found(store.runs, run_named(run_id));
    let r = choose|r: int| 0 <= r < store.runs.len() && store.runs[r] == run;
    assert(store.runs[r].cursor_at_plan < store.runs[r].from_sequence);
    assert(run.id == run_id);
    other_run_after_commit(store.runs, run_id, other_id, patch);
    stream_after_commit(store.streams, run.stream_id, run.to_sequence);
    assert(after.streams == store.streams.map_values(
        observed_through(run.stream_id, run.to_sequence),
    )) by {
        commit_moves_streams(store, run, result, stamp);
    }
    let other = run_at(after, other_id).unwrap();
    assert(other == run_at(store, other_id).unwrap());
    let stale = RunPatchModel {
        status: RunStatus::Stale,
        error: Some("stream cursor advanced"@),
        ambiguities: None,
        at: later.at,
    };
    let last = step(after, second, later).0;
    assert(last == with_run_patch(after, other_id, stale));
    first_where_found(after.runs, run_named(other_id));
    let i = first_at(after.runs, run_named(other_id));
    assert forall|k: int| 0 <= k < i implies !(run_named(other_id))(#[trigger] last.runs[k]) by {
        assert(!(run_named(other_id))(after.runs[k]));
    }
    first_where_at(last.runs, run_named(other_id), i);
}

proof fn commit_moves_streams(
    store: MemoryStoreModel,
    run: RunRowModel,
    result: ObserverResultModel,
    stamp: StampModel,
)
    ensures
        committed(store, run, result, stamp).0.streams == store.streams.map_values(
            observed_through(run.stream_id, run.to_sequence),
        ),
{
    crate::law_event::committing_keeps_events(store, run, result, stamp);
}

/// Giving a run up changes nothing but the run and the record of the request: the same evidence
/// can be planned again.
pub proof fn failing_leaves_evidence(
    store: MemoryStoreModel,
    run_id: Text,
    reason: Text,
    key: Text,
    stamp: StampModel,
    stream_id: Text,
    cursor: int,
)
    ensures
        ({
            let after = fail_step(store, run_id, reason, key, stamp).0;
            &&& after == (MemoryStoreModel {
                runs: after.runs,
                operations: after.operations,
                ..store
            })
            &&& stream_at(after, stream_id) == stream_at(store, stream_id)
            &&& events_after(after, stream_id, cursor) == events_after(store, stream_id, cursor)
        }),
{
}

/// What the laws `views_are_append_only` and `observations_are_append_only` say of a request.
spec fn views_holds(store: MemoryStoreModel, request: Request, stamp: StampModel) -> bool {
    let after = step(store, request, stamp).0;
    &&& extends(store.views, after.views)
    &&& extends(store.observations, after.observations)
    &&& extends(store.observation_sources, after.observation_sources)
}

proof fn tables_extend_themselves(store: MemoryStoreModel)
    ensures
        extends(store.views, store.views),
        extends(store.observations, store.observations),
        extends(store.observation_sources, store.observation_sources),
{
    assert(store.views.take(store.views.len() as int) =~= store.views);
    assert(store.observations.take(store.observations.len() as int) =~= store.observations);
    assert(store.observation_sources.take(store.observation_sources.len() as int)
        =~= store.observation_sources);
}

proof fn views_create_scope(store: MemoryStoreModel, request: Request, stamp: StampModel)
    requires
        request is CreateScope,
        stamped(request, stamp),
        !is_purge(request),
    ensures
        views_holds(store, request, stamp),
{
    reveal(crate::transition::on_create_scope);
    tables_extend_themselves(store);
}

proof fn views_append_event(store: MemoryStoreModel, request: Request, stamp: StampModel)
    requires
        request is AppendEvent,
        stamped(request, stamp),
        !is_purge(request),
    ensures
        views_holds(store, request, stamp),
{
    reveal(crate::transition::on_append_event);
    tables_extend_themselves(store);
}

proof fn views_plan_observation(store: MemoryStoreModel, request: Request, stamp: StampModel)
    requires
        request is PlanObservation,
        stamped(request, stamp),
        !is_purge(request),
    ensures
        views_holds(store, request, stamp),
{
    reveal(crate::transition::on_plan_observation);
    tables_extend_themselves(store);
}

proof fn views_commit_observation(store: MemoryStoreModel, request: Request, stamp: StampModel)
    requires
        request is CommitObservation,
        stamped(request, stamp),
        !is_purge(request),
    ensures
        views_holds(store, request, stamp),
{
    reveal(crate::transition::on_commit_observation);
    tables_extend_themselves(store);
    let after = step(store, request, stamp).0;
    if let Some(run) = run_at(store, request->CommitObservation_run_id) {
        let result = request->CommitObservation_result;
        committing_changes_runs(store, run, result, stamp);
        let row = next_view(store, continuation_content(run, result), stamp.ids.last(), stamp.at);
        assert(store.views.push(row).take(store.views.len() as int) =~= store.views);
    }
}

proof fn views_fail_observation(store: MemoryStoreModel, request: Request, stamp: StampModel)
    requires
        request is FailObservation,
        stamped(request, stamp),
        !is_purge(request),
    ensures
        views_holds(store, request, stamp),
{
    reveal(crate::transition::on_fail_observation);
    tables_extend_themselves(store);
}

proof fn views_state_claim(store: MemoryStoreModel, request: Request, stamp: StampModel)
    requires
        request is StateClaim,
        stamped(request, stamp),
        !is_purge(request),
    ensures
        views_holds(store, request, stamp),
{
    reveal(crate::transition::on_state_claim);
    tables_extend_themselves(store);
}

proof fn views_confirm_claim(store: MemoryStoreModel, request: Request, stamp: StampModel)
    requires
        request is ConfirmClaim,
        stamped(request, stamp),
        !is_purge(request),
    ensures
        views_holds(store, request, stamp),
{
    reveal(crate::transition::on_confirm_claim);
    tables_extend_themselves(store);
}

proof fn views_correct_claim(store: MemoryStoreModel, request: Request, stamp: StampModel)
    requires
        request is CorrectClaim,
        stamped(request, stamp),
        !is_purge(request),
    ensures
        views_holds(store, request, stamp),
{
    reveal(crate::transition::on_correct_claim);
    tables_extend_themselves(store);
}

proof fn views_rescope_claim(store: MemoryStoreModel, request: Request, stamp: StampModel)
    requires
        request is RescopeClaim,
        stamped(request, stamp),
        !is_purge(request),
    ensures
        views_holds(store, request, stamp),
{
    reveal(crate::transition::on_rescope_claim);
    tables_extend_themselves(store);
}

proof fn views_close_claim(store: MemoryStoreModel, request: Request, stamp: StampModel)
    requires
        request is CloseClaim,
        stamped(request, stamp),
        !is_purge(request),
    ensures
        views_holds(store, request, stamp),
{
    reveal(crate::transition::on_close_claim);
    tables_extend_themselves(store);
}

proof fn views_reconcile(store: MemoryStoreModel, request: Request, stamp: StampModel)
    requires
        request is Reconcile,
        stamped(request, stamp),
        !is_purge(request),
    ensures
        views_holds(store, request, stamp),
{
    reveal(crate::transition::on_reconcile);
    let pending = crate::claim_table::claims_in(
        store,
        seq![request->Reconcile_scope_id],
        Some(crate::kind::ClaimStatus::Pending),
    );
    reconciling_keeps_runs(store, pending, stamp.at);
    tables_extend_themselves(store);
}

proof fn views_create_view(store: MemoryStoreModel, request: Request, stamp: StampModel)
    requires
        request is CreateView,
        stamped(request, stamp),
        !is_purge(request),
    ensures
        views_holds(store, request, stamp),
{
    reveal(crate::transition::on_create_view);
    tables_extend_themselves(store);
    let row = next_view(
        store,
        crate::view::created_content(request->CreateView_input),
        stamp.ids[0],
        stamp.at,
    );
    assert(store.views.push(row).take(store.views.len() as int) =~= store.views);
}

proof fn views_purge_claim(store: MemoryStoreModel, request: Request, stamp: StampModel)
    requires
        request is PurgeClaim,
        stamped(request, stamp),
        !is_purge(request),
    ensures
        views_holds(store, request, stamp),
{
    reveal(crate::transition::on_purge_claim);
    tables_extend_themselves(store);
}

proof fn views_purge_event(store: MemoryStoreModel, request: Request, stamp: StampModel)
    requires
        request is PurgeEvent,
        stamped(request, stamp),
        !is_purge(request),
    ensures
        views_holds(store, request, stamp),
{
    reveal(crate::transition::on_purge_event);
    tables_extend_themselves(store);
}

/// Views are only added: no request but a purge changes or removes one.
pub proof fn views_are_append_only(store: MemoryStoreModel, request: Request, stamp: StampModel)
    requires
        stamped(request, stamp),
        !is_purge(request),
    ensures
        extends(store.views, step(store, request, stamp).0.views),
{
    derived_tables_extend(store, request, stamp);
}

/// Observations and their evidence are only added: no request but a purge changes or removes one,
/// so that no view ever takes the place of what it was made of.
pub proof fn observations_are_append_only(
    store: MemoryStoreModel,
    request: Request,
    stamp: StampModel,
)
    requires
        stamped(request, stamp),
        !is_purge(request),
    ensures
        extends(store.observations, step(store, request, stamp).0.observations),
        extends(store.observation_sources, step(store, request, stamp).0.observation_sources),
{
    derived_tables_extend(store, request, stamp);
}

proof fn derived_tables_extend(store: MemoryStoreModel, request: Request, stamp: StampModel)
    requires
        stamped(request, stamp),
        !is_purge(request),
    ensures
        views_holds(store, request, stamp),
{
    match request {
        Request::CreateScope { .. } => views_create_scope(store, request, stamp),
        Request::AppendEvent { .. } => views_append_event(store, request, stamp),
        Request::PlanObservation { .. } => views_plan_observation(store, request, stamp),
        Request::CommitObservation { .. } => views_commit_observation(store, request, stamp),
        Request::FailObservation { .. } => views_fail_observation(store, request, stamp),
        Request::StateClaim { .. } => views_state_claim(store, request, stamp),
        Request::ConfirmClaim { .. } => views_confirm_claim(store, request, stamp),
        Request::CorrectClaim { .. } => views_correct_claim(store, request, stamp),
        Request::RescopeClaim { .. } => views_rescope_claim(store, request, stamp),
        Request::CloseClaim { .. } => views_close_claim(store, request, stamp),
        Request::Reconcile { .. } => views_reconcile(store, request, stamp),
        Request::CreateView { .. } => views_create_view(store, request, stamp),
        Request::PurgeClaim { .. } => views_purge_claim(store, request, stamp),
        Request::PurgeEvent { .. } => views_purge_event(store, request, stamp),
    }
}

/// The next generation of a view is numbered one higher than the latest and links to it, and
/// once it is added it is the latest.
pub proof fn next_view_becomes_latest(
    store: MemoryStoreModel,
    content: ViewContentModel,
    ids: Seq<Text>,
    id: Text,
    at: Text,
)
    requires
        generation_refusal(store, content.stream_id, content.kind) is None,
    ensures
        ({
            let row = next_view(store, content, id, at);
            let after = with_view(store, row, ids);
            &&& latest_view(after, content.stream_id, content.kind) == Some(row)
            &&& row.view.previous_view_id == latest_view_id(
                store,
                content.stream_id,
                content.kind,
            )
            &&& match latest_view(store, content.stream_id, content.kind) {
                Some(latest) => row.view.generation == latest.view.generation + 1,
                None => row.view.generation == 1,
            }
        }),
{
    let row = next_view(store, content, id, at);
    let after = with_view(store, row, ids);
    pushed_view_is_latest(store.views, row, content.stream_id, content.kind);
}

proof fn pushed_view_is_latest(
    views: Seq<ViewRowModel>,
    row: ViewRowModel,
    stream_id: Text,
    kind: ViewKind,
)
    requires
        row.view.stream_id == stream_id,
        row.view.kind == kind,
        ({
            let sorted = ordered(views.filter(view_of(stream_id, kind)), view_generation());
            sorted.len() > 0 ==> sorted.last().view.generation < row.view.generation
        }),
    ensures
        ({
            let sorted = ordered(
                views.push(row).filter(view_of(stream_id, kind)),
                view_generation(),
            );
            sorted.len() > 0 && sorted.last() == row
        }),
{
    let accepts = view_of(stream_id, kind);
    let longer = views.push(row);
    let kept = views.filter(accepts);
    reveal(Seq::filter);
    assert(longer.drop_last() =~= views);
    assert(longer.filter(accepts) == kept.push(row));
    let sorted = ordered(kept, view_generation());
    assert(kept.push(row).drop_last() =~= kept);
    let key = (view_generation())(row);
    if sorted.len() > 0 {
        let last = (view_generation())(sorted.last());
        assert(!crate::order::key_less(key, last));
    }
    assert(place(sorted, view_generation(), key) == sorted.len());
    assert(sorted.insert(sorted.len() as int, row).last() == row);
}

/// What a commit says of how to go on is what is read back: it is the latest continuation of the
/// stream, word for word.
pub proof fn committed_continuation_is_latest(
    store: MemoryStoreModel,
    request: Request,
    stamp: StampModel,
)
    requires
        request is CommitObservation,
        stamped(request, stamp),
        carried_out(store, request, stamp),
    ensures
        ({
            let after = step(store, request, stamp).0;
            let run = run_at(store, request->CommitObservation_run_id).unwrap();
            let result = request->CommitObservation_result;
            let latest = latest_view(after, run.stream_id, ViewKind::Continuation);
            if keeps_continuation(store, run, result) {
                latest == latest_view(store, run.stream_id, ViewKind::Continuation)
            } else {
                latest matches Some(row) && row.continuation == Some(result.continuation)
                    && row.view.content == crate::observer::continuation_text(result.continuation)
            }
        }),
{
    reveal(crate::transition::on_commit_observation);
    let run = run_at(store, request->CommitObservation_run_id).unwrap();
    let result = request->CommitObservation_result;
    committing_changes_runs(store, run, result, stamp);
    let content = continuation_content(run, result);
    if !keeps_continuation(store, run, result) {
        next_view_becomes_latest(store, content, Seq::empty(), stamp.ids.last(), stamp.at);
    }
}

/// Finding nothing leaves the continuation of the stream alone.
pub proof fn empty_result_keeps_continuation(
    store: MemoryStoreModel,
    request: Request,
    stamp: StampModel,
)
    requires
        request is CommitObservation,
        stamped(request, stamp),
        carried_out(store, request, stamp),
        crate::observer::nothing_found(request->CommitObservation_result),
        run_at(store, request->CommitObservation_run_id) matches Some(run) && latest_view(
            store,
            run.stream_id,
            ViewKind::Continuation,
        ) is Some,
    ensures
        step(store, request, stamp).0.views == store.views,
        ({
            let run = run_at(store, request->CommitObservation_run_id).unwrap();
            step(store, request, stamp).1 matches Ok((StoredResultModel::Commit(commit), _))
                && commit.continuation_action is Preserved && Some(commit.continuation_view)
                == crate::observation::plan_view(store, run.stream_id)
        }),
{
    reveal(crate::transition::on_commit_observation);
    let run = run_at(store, request->CommitObservation_run_id).unwrap();
    committing_changes_runs(store, run, request->CommitObservation_result, stamp);
}

} // verus!
