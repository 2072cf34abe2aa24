//! Laws of idempotency: replays, conflicts, refusals.

use vstd::prelude::*;

use crate::claim::{
    close_operation, close_request, closed_status, confirm_request, correct_request, direct_request,
    normalized, reconcile_all, rescope_request,
};
use crate::digest::request_hash;
use crate::error::ErrorModel;
use crate::event::{event_request, redacted};
use crate::json::json_quoted;
use crate::model::ClaimModel;
use crate::observation::{commit_request, fail_request, plan_request};
use crate::operation::{operation_keyed, prior, PriorModel};
use crate::privacy::{operation_scrubbed, purged_ids};
use crate::row::{MemoryStoreModel, OperationRowModel, StoredResultModel};
use crate::scope::scope_request;
use crate::stamp::StampModel;
use crate::table::{first_where, first_where_at, first_where_found, first_where_none, some_row};
use crate::text::Text;
use crate::transition::{carried_out, is_purge, request_key, step, Request};
use crate::view::view_request;

verus! {

/// The name of the operation that a request is recorded under.
pub open spec fn request_operation(request: Request) -> Text {
    match request {
        Request::CreateScope { .. } => "scope.create"@,
        Request::AppendEvent { .. } => "event.append"@,
        Request::PlanObservation { .. } => "observation.plan"@,
        Request::CommitObservation { .. } => "observation.commit"@,
        Request::FailObservation { .. } => "observation.fail"@,
        Request::StateClaim { request, .. } => request.operation,
        Request::ConfirmClaim { .. } => "claim.confirm"@,
        Request::CorrectClaim { .. } => "claim.correct"@,
        Request::RescopeClaim { .. } => "claim.rescope"@,
        Request::CloseClaim { forget, .. } => close_operation(forget),
        Request::Reconcile { .. } => "claim.reconcile"@,
        Request::CreateView { .. } => "view.create"@,
        Request::PurgeClaim { .. } => "claim.purge"@,
        Request::PurgeEvent { .. } => "event.purge"@,
    }
}

/// The JSON text of a request, over which its hash is taken.
pub open spec fn request_text(request: Request) -> Text {
    match request {
        Request::CreateScope { id, kind, parent_id, name, .. } => scope_request(
            id,
            kind,
            parent_id,
            name,
        ),
        Request::AppendEvent { event } => event_request(event),
        Request::PlanObservation {
            scope_id,
            stream_id,
            max_tokens,
            observer_model,
            prompt_version,
            ..
        } => plan_request(scope_id, stream_id, max_tokens, observer_model, prompt_version),
        Request::CommitObservation { run_id, result, .. } => commit_request(run_id, result),
        Request::FailObservation { run_id, reason, .. } => fail_request(run_id, reason),
        Request::StateClaim { request, .. } => direct_request(normalized(request)),
        Request::ConfirmClaim { claim_id, .. } => confirm_request(claim_id),
        Request::CorrectClaim { claim_id, value, event_ids, .. } => correct_request(
            claim_id,
            value,
            event_ids,
        ),
        Request::RescopeClaim { claim_id, new_scope_id, .. } => rescope_request(
            claim_id,
            new_scope_id,
        ),
        Request::CloseClaim { claim_id, forget, .. } => close_request(
            claim_id,
            closed_status(forget),
        ),
        Request::Reconcile { scope_id, .. } => json_quoted(scope_id),
        Request::CreateView { input } => view_request(input),
        Request::PurgeClaim { claim_id, .. } => json_quoted(claim_id),
        Request::PurgeEvent { event_id, .. } => json_quoted(event_id),
    }
}

pub open spec fn hash_of(request: Request) -> Text {
    request_hash(request_operation(request), request_text(request))
}

/// What a request finds under its key.
pub open spec fn known_before(store: MemoryStoreModel, request: Request) -> PriorModel {
    prior(store, request_key(request), request_operation(request), hash_of(request))
}

/// A stored result as it is answered: events are redacted for agents.
pub open spec fn as_answered(result: StoredResultModel) -> StoredResultModel {
    match result {
        StoredResultModel::Event(event) => StoredResultModel::Event(redacted(event)),
        other => other,
    }
}

/// The row under which a carried-out request is recorded.
pub open spec fn record_of(request: Request, result: StoredResultModel) -> OperationRowModel {
    OperationRowModel {
        key: request_key(request),
        operation: request_operation(request),
        request_hash: Some(hash_of(request)),
        result: Some(result),
    }
}

proof fn reconciling_keeps_operations(
    store: MemoryStoreModel,
    pending: Seq<ClaimModel>,
    at: Text,
)
    ensures
        reconcile_all(store, pending, at) matches Ok((done, _)) ==> done.operations
            == store.operations,
    decreases pending.len(),
{
    if pending.len() > 0 {
        reconciling_keeps_operations(store, pending.drop_last(), at);
    }
}

proof fn observing_keeps_operations(
    store: MemoryStoreModel,
    made: Seq<crate::model::ObservationModel>,
    drafts: Seq<crate::model::ObservationDraftModel>,
)
    ensures
        crate::observation::with_observations(store, made, drafts).operations == store.operations,
    decreases made.len(),
{
    if made.len() > 0 && drafts.len() > 0 {
        observing_keeps_operations(store, made.drop_last(), drafts.drop_last());
    }
}

proof fn drafting_keeps_operations(
    store: MemoryStoreModel,
    made: Seq<ClaimModel>,
    drafts: Seq<crate::model::ClaimDraftModel>,
)
    ensures
        crate::observation::with_drafted(store, made, drafts).operations == store.operations,
    decreases made.len(),
{
    if made.len() > 0 && drafts.len() > 0 {
        drafting_keeps_operations(store, made.drop_last(), drafts.drop_last());
    }
}

/// The result of a carried-out request, as it is stored.
pub open spec fn recorded_result(
    store: MemoryStoreModel,
    request: Request,
    stamp: StampModel,
) -> StoredResultModel {
    step(store, request, stamp).0.operations.last().result.unwrap()
}

/// What the law `carried_out_is_recorded` says of a request.
spec fn recorded_holds(store: MemoryStoreModel, request: Request, stamp: StampModel) -> bool {
    &&& known_before(store, request) is Fresh
    &&& !is_purge(request) ==> step(store, request, stamp).0.operations == store.operations.push(
        record_of(request, recorded_result(store, request, stamp)),
    )
    &&& is_purge(request) ==> exists|ids: Seq<Text>|
        #[trigger] step(store, request, stamp).0.operations == store.operations.map_values(
            operation_scrubbed(ids),
        ).push(record_of(request, recorded_result(store, request, stamp)))
    &&& step(store, request, stamp).1 == Ok::<(StoredResultModel, bool), ErrorModel>(
        (as_answered(recorded_result(store, request, stamp)), false),
    )
}

proof fn recorded_create_scope(store: MemoryStoreModel, request: Request, stamp: StampModel)
    requires
        request is CreateScope,
        carried_out(store, request, stamp),
    ensures
        recorded_holds(store, request, stamp),
{
    reveal(crate::transition::on_create_scope);
}

proof fn recorded_append_event(store: MemoryStoreModel, request: Request, stamp: StampModel)
    requires
        request is AppendEvent,
        carried_out(store, request, stamp),
    ensures
        recorded_holds(store, request, stamp),
{
    reveal(crate::transition::on_append_event);
}

proof fn recorded_plan_observation(store: MemoryStoreModel, request: Request, stamp: StampModel)
    requires
        request is PlanObservation,
        carried_out(store, request, stamp),
    ensures
        recorded_holds(store, request, stamp),
{
    reveal(crate::transition::on_plan_observation);
}

proof fn recorded_commit_observation(store: MemoryStoreModel, request: Request, stamp: StampModel)
    requires
        request is CommitObservation,
        carried_out(store, request, stamp),
    ensures
        recorded_holds(store, request, stamp),
{
    reveal(crate::transition::on_commit_observation);
    commit_is_recorded(
        store,
        request->CommitObservation_run_id,
        request->CommitObservation_result,
        request->CommitObservation_key,
        stamp,
    );
}

proof fn recorded_fail_observation(store: MemoryStoreModel, request: Request, stamp: StampModel)
    requires
        request is FailObservation,
        carried_out(store, request, stamp),
    ensures
        recorded_holds(store, request, stamp),
{
    reveal(crate::transition::on_fail_observation);
}

proof fn recorded_state_claim(store: MemoryStoreModel, request: Request, stamp: StampModel)
    requires
        request is StateClaim,
        carried_out(store, request, stamp),
    ensures
        recorded_holds(store, request, stamp),
{
    reveal(crate::transition::on_state_claim);
}

proof fn recorded_confirm_claim(store: MemoryStoreModel, request: Request, stamp: StampModel)
    requires
        request is ConfirmClaim,
        carried_out(store, request, stamp),
    ensures
        recorded_holds(store, request, stamp),
{
    reveal(crate::transition::on_confirm_claim);
}

proof fn recorded_correct_claim(store: MemoryStoreModel, request: Request, stamp: StampModel)
    requires
        request is CorrectClaim,
        carried_out(store, request, stamp),
    ensures
        recorded_holds(store, request, stamp),
{
    reveal(crate::transition::on_correct_claim);
}

proof fn recorded_rescope_claim(store: MemoryStoreModel, request: Request, stamp: StampModel)
    requires
        request is RescopeClaim,
        carried_out(store, request, stamp),
    ensures
        recorded_holds(store, request, stamp),
{
    reveal(crate::transition::on_rescope_claim);
}

proof fn recorded_close_claim(store: MemoryStoreModel, request: Request, stamp: StampModel)
    requires
        request is CloseClaim,
        carried_out(store, request, stamp),
    ensures
        recorded_holds(store, request, stamp),
{
    reveal(crate::transition::on_close_claim);
}

proof fn recorded_reconcile(store: MemoryStoreModel, request: Request, stamp: StampModel)
    requires
        request is Reconcile,
        carried_out(store, request, stamp),
    ensures
        recorded_holds(store, request, stamp),
{
    reveal(crate::transition::on_reconcile);
    let scope_id = request->Reconcile_scope_id;
    let pending = crate::claim_table::claims_in(
        store,
        seq![scope_id],
        Some(crate::kind::ClaimStatus::Pending),
    );
    reconciling_keeps_operations(store, pending, stamp.at);
}

proof fn recorded_create_view(store: MemoryStoreModel, request: Request, stamp: StampModel)
    requires
        request is CreateView,
        carried_out(store, request, stamp),
    ensures
        recorded_holds(store, request, stamp),
{
    reveal(crate::transition::on_create_view);
}

proof fn recorded_purge_claim(store: MemoryStoreModel, request: Request, stamp: StampModel)
    requires
        request is PurgeClaim,
        carried_out(store, request, stamp),
    ensures
        recorded_holds(store, request, stamp),
{
    reveal(crate::transition::on_purge_claim);
    let closure = crate::privacy::privacy_closure(
        store,
        seq![crate::privacy::claim_node(request->PurgeClaim_claim_id)],
    );
    let scrubbed = store.operations.map_values(operation_scrubbed(purged_ids(closure)));
    let after = step(store, request, stamp).0.operations;
    assert(after == scrubbed.push(after.last()));
}

proof fn recorded_purge_event(store: MemoryStoreModel, request: Request, stamp: StampModel)
    requires
        request is PurgeEvent,
        carried_out(store, request, stamp),
    ensures
        recorded_holds(store, request, stamp),
{
    reveal(crate::transition::on_purge_event);
    let closure = crate::privacy::privacy_closure(
        store,
        seq![crate::privacy::event_node(request->PurgeEvent_event_id)],
    );
    let scrubbed = store.operations.map_values(operation_scrubbed(purged_ids(closure)));
    let after = step(store, request, stamp).0.operations;
    assert(after == scrubbed.push(after.last()));
}

/// A carried-out request is recorded under its key, with its hash and its result, behind the
/// records of earlier requests. These stay as they are; only a purge drops the results that
/// mention what it removes.
pub proof fn carried_out_is_recorded(store: MemoryStoreModel, request: Request, stamp: StampModel)
    requires
        carried_out(store, request, stamp),
    ensures
        known_before(store, request) is Fresh,
        !is_purge(request) ==> step(store, request, stamp).0.operations == store.operations.push(
            record_of(request, recorded_result(store, request, stamp)),
        ),
        is_purge(request) ==> exists|ids: Seq<Text>|
            #[trigger] step(store, request, stamp).0.operations == store.operations.map_values(
                operation_scrubbed(ids),
            ).push(record_of(request, recorded_result(store, request, stamp))),
        step(store, request, stamp).1 == Ok::<(StoredResultModel, bool), ErrorModel>(
            (as_answered(recorded_result(store, request, stamp)), false),
        ),
{
    match request {
        Request::CreateScope { .. } => recorded_create_scope(store, request, stamp),
        Request::AppendEvent { .. } => recorded_append_event(store, request, stamp),
        Request::PlanObservation { .. } => recorded_plan_observation(store, request, stamp),
        Request::CommitObservation { .. } => recorded_commit_observation(store, request, stamp),
        Request::FailObservation { .. } => recorded_fail_observation(store, request, stamp),
        Request::StateClaim { .. } => recorded_state_claim(store, request, stamp),
        Request::ConfirmClaim { .. } => recorded_confirm_claim(store, request, stamp),
        Request::CorrectClaim { .. } => recorded_correct_claim(store, request, stamp),
        Request::RescopeClaim { .. } => recorded_rescope_claim(store, request, stamp),
        Request::CloseClaim { .. } => recorded_close_claim(store, request, stamp),
        Request::Reconcile { .. } => recorded_reconcile(store, request, stamp),
        Request::CreateView { .. } => recorded_create_view(store, request, stamp),
        Request::PurgeClaim { .. } => recorded_purge_claim(store, request, stamp),
        Request::PurgeEvent { .. } => recorded_purge_event(store, request, stamp),
    }
}

proof fn commit_is_recorded(
    store: MemoryStoreModel,
    run_id: Text,
    result: crate::model::ObserverResultModel,
    key: Text,
    stamp: StampModel,
)
    ensures
        ({
            let hash = request_hash("observation.commit"@, commit_request(run_id, result));
            let (after, answer) = crate::observation::commit_step(store, run_id, result, key, stamp);
            answer matches Ok(done) ==> !done.replayed ==> {
                &&& prior(store, key, "observation.commit"@, hash) is Fresh
                &&& after.operations == store.operations.push(
                    OperationRowModel {
                        key,
                        operation: "observation.commit"@,
                        request_hash: Some(hash),
                        result: Some(StoredResultModel::Commit(done.data)),
                    },
                )
            }
        }),
{
    if let Some(run) = crate::view::run_at(store, run_id) {
        let sources = crate::event::events_between(
            store,
            run.stream_id,
            run.from_sequence as int,
            run.to_sequence as int,
        );
        let made = crate::observation::all_observed(
            run,
            sources,
            result.observations,
            stamp.ids,
            stamp.at,
        );
        let claims = crate::observation::all_drafted(
            run,
            result.claims,
            stamp.ids.skip(result.observations.len() as int),
            stamp.at,
        );
        observing_keeps_operations(store, made, result.observations);
        drafting_keeps_operations(
            crate::observation::with_observations(store, made, result.observations),
            claims,
            result.claims,
        );
    }
}

/// The first record under a key decides what the key answers; later records do not matter.
pub proof fn first_record_decides(
    store: MemoryStoreModel,
    after: MemoryStoreModel,
    row: OperationRowModel,
    key: Text,
    operation: Text,
    hash: Text,
)
    requires
        after.operations == store.operations.push(row),
    ensures
        prior(after, key, operation, hash) == if prior(store, key, operation, hash) is Fresh
            && row.key == key {
            prior(
                MemoryStoreModel { operations: seq![row], ..store },
                key,
                operation,
                hash,
            )
        } else {
            prior(store, key, operation, hash)
        },
{
    let before = store.operations;
    let rows = after.operations;
    let keyed = operation_keyed(key);
    first_where_found(before, keyed);
    if some_row(before, keyed) {
        let i = first_at(before, keyed);
        first_where_at(before, keyed, i);
        assert forall|k: int| 0 <= k < i implies !keyed(#[trigger] rows[k]) by {
            assert(rows[k] == before[k]);
        }
        assert(rows[i] == before[i]);
        first_where_at(rows, keyed, i);
    } else {
        assert forall|k: int| 0 <= k < before.len() implies !keyed(#[trigger] rows[k]) by {
            assert(rows[k] == before[k]);
        }
        assert(rows[before.len() as int] == row);
        if row.key == key {
            first_where_at(rows, keyed, before.len() as int);
            first_where_at(seq![row], keyed, 0);
        } else {
            assert forall|k: int| 0 <= k < rows.len() implies !keyed(#[trigger] rows[k]) by {
                if k < before.len() {
                    assert(rows[k] == before[k]);
                }
            }
            first_where_none(rows, keyed);
        }
    }
}

/// The position of the first row that meets the condition.
pub proof fn first_at<V>(rows: Seq<V>, accepts: spec_fn(V) -> bool) -> (at: int)
    requires
        some_row(rows, accepts),
    ensures
        0 <= at < rows.len(),
        accepts(rows[at]),
        forall|k: int| 0 <= k < at ==> !accepts(#[trigger] rows[k]),
    decreases rows.len(),
{
    if accepts(rows[0]) {
        0
    } else {
        let rest = rows.drop_first();
        let k = choose|k: int| 0 <= k < rows.len() && accepts(#[trigger] rows[k]);
        assert(rest[k - 1] == rows[k]);
        let at = first_at(rest, accepts);
        assert forall|k: int| 0 <= k < at + 1 implies !accepts(#[trigger] rows[k]) by {
            if k > 0 {
                assert(rest[k - 1] == rows[k]);
            }
        }
        at + 1
    }
}

/// A scrubbed record still answers its key: with the result, or with a refusal where that was
/// dropped.
pub proof fn scrubbing_keeps_keys(rows: Seq<OperationRowModel>, ids: Seq<Text>, key: Text)
    ensures
        first_where(rows.map_values(operation_scrubbed(ids)), operation_keyed(key)) == match first_where(
            rows,
            operation_keyed(key),
        ) {
            Some(row) => Some((operation_scrubbed(ids))(row)),
            None => None,
        },
{
    let keyed = operation_keyed(key);
    let scrub = operation_scrubbed(ids);
    let scrubbed = rows.map_values(scrub);
    first_where_found(rows, keyed);
    if some_row(rows, keyed) {
        let i = first_at(rows, keyed);
        first_where_at(rows, keyed, i);
        assert forall|k: int| 0 <= k < i implies !keyed(#[trigger] scrubbed[k]) by {
            assert(scrubbed[k] == scrub(rows[k]));
        }
        assert(scrubbed[i] == scrub(rows[i]));
        first_where_at(scrubbed, keyed, i);
    } else {
        assert forall|k: int| 0 <= k < scrubbed.len() implies !keyed(#[trigger] scrubbed[k]) by {
            assert(scrubbed[k] == scrub(rows[k]));
        }
        first_where_none(scrubbed, keyed);
    }
}

/// A key that a request was carried out under is bound to that request: it answers the same
/// operation with the same request hash with the stored result, and every other use of it is a
/// conflict.
pub proof fn key_is_bound(
    store: MemoryStoreModel,
    request: Request,
    stamp: StampModel,
    operation: Text,
    hash: Text,
)
    requires
        carried_out(store, request, stamp),
    ensures
        ({
            let answer = prior(
                step(store, request, stamp).0,
                request_key(request),
                operation,
                hash,
            );
            if operation == request_operation(request) && hash == hash_of(request) {
                answer == PriorModel::Known(recorded_result(store, request, stamp))
            } else {
                answer matches PriorModel::Refused(error) && error.kind is IdempotencyConflict
            }
        }),
{
    carried_out_is_recorded(store, request, stamp);
    let after = step(store, request, stamp).0;
    let row = record_of(request, recorded_result(store, request, stamp));
    let key = request_key(request);
    let base = if is_purge(request) {
        let ids = choose|ids: Seq<Text>|
            #[trigger] after.operations == store.operations.map_values(
                operation_scrubbed(ids),
            ).push(row);
        scrubbing_keeps_keys(store.operations, ids, key);
        MemoryStoreModel {
            operations: store.operations.map_values(operation_scrubbed(ids)),
            ..store
        }
    } else {
        store
    };
    assert(prior(base, key, operation, hash) is Fresh);
    first_record_decides(base, after, row, key, operation, hash);
    first_where_at(seq![row], operation_keyed(key), 0);
}

/// Repeating a request that was carried out answers the same data again, marked as replayed, and
/// changes nothing.
pub proof fn replay_answers_the_same(
    store: MemoryStoreModel,
    request: Request,
    stamp: StampModel,
    later: StampModel,
)
    requires
        carried_out(store, request, stamp),
    ensures
        ({
            let (after, answer) = step(store, request, stamp);
            &&& answer matches Ok((data, _)) && step(after, request, later) == (
                after,
                Ok::<(StoredResultModel, bool), ErrorModel>((data, true)),
            )
        }),
{
    carried_out_is_recorded(store, request, stamp);
    key_is_bound(store, request, stamp, request_operation(request), hash_of(request));
    let after = step(store, request, stamp).0;
    carried_out_result_fits(store, request, stamp);
    carried_out_is_valid(store, request, stamp);
    known_request_is_replayed(after, request, later, recorded_result(store, request, stamp));
}

/// Whether a request is well formed by itself, whatever the memory holds.
pub open spec fn well_formed(request: Request) -> bool {
    match request {
        Request::CreateScope { id, parent_id, key, .. } => {
            &&& crate::operation::required("scope id"@, id) is None
            &&& crate::operation::required("idempotency key"@, key) is None
            &&& parent_id != Some(id)
        },
        Request::AppendEvent { event } => crate::event::event_refusal(event) is None,
        Request::PlanObservation { max_tokens, observer_model, prompt_version, key, .. } => {
            &&& max_tokens > 0
            &&& crate::operation::required("observer model"@, observer_model) is None
            &&& crate::operation::required("prompt version"@, prompt_version) is None
            &&& crate::operation::required("idempotency key"@, key) is None
        },
        Request::CommitObservation { run_id, result, key } => {
            &&& crate::operation::required("run id"@, run_id) is None
            &&& crate::operation::required("idempotency key"@, key) is None
            &&& crate::observer::result_refusal(result) is None
        },
        Request::FailObservation { run_id, reason, key } => {
            &&& crate::operation::required("run id"@, run_id) is None
            &&& crate::operation::required("failure reason"@, reason) is None
            &&& crate::operation::required("idempotency key"@, key) is None
            &&& reason.len() <= 200
        },
        Request::StateClaim { request, key } => {
            &&& crate::operation::required("subject"@, normalized(request).subject) is None
            &&& crate::operation::required("predicate"@, normalized(request).predicate) is None
            &&& crate::operation::required("idempotency key"@, key) is None
        },
        Request::CreateView { input } => crate::view::view_refusal(input) is None,
        _ => crate::operation::required("idempotency key"@, request_key(request)) is None,
    }
}

/// Whether a stored result is of the kind that a request is answered with.
pub open spec fn fits(request: Request, result: StoredResultModel) -> bool {
    match request {
        Request::CreateScope { .. } => result is Scope,
        Request::AppendEvent { .. } => result is Event,
        Request::PlanObservation { .. } => result is Plan,
        Request::CommitObservation { .. } => result is Commit,
        Request::FailObservation { .. } => result is Failure,
        Request::Reconcile { .. } => result is Reconciliation,
        Request::CreateView { .. } => result is View,
        Request::PurgeClaim { .. } => result is ClaimPurge,
        Request::PurgeEvent { .. } => result is EventPurge,
        _ => result is Claim,
    }
}

/// What the law `carried_out_is_valid` says of a request.
spec fn valid_holds(store: MemoryStoreModel, request: Request, stamp: StampModel) -> bool {
    &&& well_formed(request)
}

proof fn valid_create_scope(store: MemoryStoreModel, request: Request, stamp: StampModel)
    requires
        request is CreateScope,
        carried_out(store, request, stamp),
    ensures
        valid_holds(store, request, stamp),
{
    reveal(crate::transition::on_create_scope);
}

proof fn valid_append_event(store: MemoryStoreModel, request: Request, stamp: StampModel)
    requires
        request is AppendEvent,
        carried_out(store, request, stamp),
    ensures
        valid_holds(store, request, stamp),
{
    reveal(crate::transition::on_append_event);
}

proof fn valid_plan_observation(store: MemoryStoreModel, request: Request, stamp: StampModel)
    requires
        request is PlanObservation,
        carried_out(store, request, stamp),
    ensures
        valid_holds(store, request, stamp),
{
    reveal(crate::transition::on_plan_observation);
}

proof fn valid_commit_observation(store: MemoryStoreModel, request: Request, stamp: StampModel)
    requires
        request is CommitObservation,
        carried_out(store, request, stamp),
    ensures
        valid_holds(store, request, stamp),
{
    reveal(crate::transition::on_commit_observation);
}

proof fn valid_fail_observation(store: MemoryStoreModel, request: Request, stamp: StampModel)
    requires
        request is FailObservation,
        carried_out(store, request, stamp),
    ensures
        valid_holds(store, request, stamp),
{
    reveal(crate::transition::on_fail_observation);
}

proof fn valid_state_claim(store: MemoryStoreModel, request: Request, stamp: StampModel)
    requires
        request is StateClaim,
        carried_out(store, request, stamp),
    ensures
        valid_holds(store, request, stamp),
{
    reveal(crate::transition::on_state_claim);
}

proof fn valid_confirm_claim(store: MemoryStoreModel, request: Request, stamp: StampModel)
    requires
        request is ConfirmClaim,
        carried_out(store, request, stamp),
    ensures
        valid_holds(store, request, stamp),
{
    reveal(crate::transition::on_confirm_claim);
}

proof fn valid_correct_claim(store: MemoryStoreModel, request: Request, stamp: StampModel)
    requires
        request is CorrectClaim,
        carried_out(store, request, stamp),
    ensures
        valid_holds(store, request, stamp),
{
    reveal(crate::transition::on_correct_claim);
}

proof fn valid_rescope_claim(store: MemoryStoreModel, request: Request, stamp: StampModel)
    requires
        request is RescopeClaim,
        carried_out(store, request, stamp),
    ensures
        valid_holds(store, request, stamp),
{
    reveal(crate::transition::on_rescope_claim);
}

proof fn valid_close_claim(store: MemoryStoreModel, request: Request, stamp: StampModel)
    requires
        request is CloseClaim,
        carried_out(store, request, stamp),
    ensures
        valid_holds(store, request, stamp),
{
    reveal(crate::transition::on_close_claim);
}

proof fn valid_reconcile(store: MemoryStoreModel, request: Request, stamp: StampModel)
    requires
        request is Reconcile,
        carried_out(store, request, stamp),
    ensures
        valid_holds(store, request, stamp),
{
    reveal(crate::transition::on_reconcile);
}

proof fn valid_create_view(store: MemoryStoreModel, request: Request, stamp: StampModel)
    requires
        request is CreateView,
        carried_out(store, request, stamp),
    ensures
        valid_holds(store, request, stamp),
{
    reveal(crate::transition::on_create_view);
}

proof fn valid_purge_claim(store: MemoryStoreModel, request: Request, stamp: StampModel)
    requires
        request is PurgeClaim,
        carried_out(store, request, stamp),
    ensures
        valid_holds(store, request, stamp),
{
    reveal(crate::transition::on_purge_claim);
}

proof fn valid_purge_event(store: MemoryStoreModel, request: Request, stamp: StampModel)
    requires
        request is PurgeEvent,
        carried_out(store, request, stamp),
    ensures
        valid_holds(store, request, stamp),
{
    reveal(crate::transition::on_purge_event);
}

/// A carried-out request was well formed.
pub proof fn carried_out_is_valid(store: MemoryStoreModel, request: Request, stamp: StampModel)
    requires
        carried_out(store, request, stamp),
    ensures
        well_formed(request),
{
    match request {
        Request::CreateScope { .. } => valid_create_scope(store, request, stamp),
        Request::AppendEvent { .. } => valid_append_event(store, request, stamp),
        Request::PlanObservation { .. } => valid_plan_observation(store, request, stamp),
        Request::CommitObservation { .. } => valid_commit_observation(store, request, stamp),
        Request::FailObservation { .. } => valid_fail_observation(store, request, stamp),
        Request::StateClaim { .. } => valid_state_claim(store, request, stamp),
        Request::ConfirmClaim { .. } => valid_confirm_claim(store, request, stamp),
        Request::CorrectClaim { .. } => valid_correct_claim(store, request, stamp),
        Request::RescopeClaim { .. } => valid_rescope_claim(store, request, stamp),
        Request::CloseClaim { .. } => valid_close_claim(store, request, stamp),
        Request::Reconcile { .. } => valid_reconcile(store, request, stamp),
        Request::CreateView { .. } => valid_create_view(store, request, stamp),
        Request::PurgeClaim { .. } => valid_purge_claim(store, request, stamp),
        Request::PurgeEvent { .. } => valid_purge_event(store, request, stamp),
    }
}

/// A carried-out request is recorded with a result of its kind.
pub proof fn carried_out_result_fits(store: MemoryStoreModel, request: Request, stamp: StampModel)
    requires
        carried_out(store, request, stamp),
    ensures
        fits(request, recorded_result(store, request, stamp)),
{
    carried_out_is_recorded(store, request, stamp);
    match request {
        Request::CreateScope { .. } => {
            reveal(crate::transition::on_create_scope);
        },
        Request::AppendEvent { .. } => {
            reveal(crate::transition::on_append_event);
        },
        Request::PlanObservation { .. } => {
            reveal(crate::transition::on_plan_observation);
        },
        Request::CommitObservation { .. } => {
            reveal(crate::transition::on_commit_observation);
        },
        Request::FailObservation { .. } => {
            reveal(crate::transition::on_fail_observation);
        },
        Request::StateClaim { .. } => {
            reveal(crate::transition::on_state_claim);
        },
        Request::ConfirmClaim { .. } => {
            reveal(crate::transition::on_confirm_claim);
        },
        Request::CorrectClaim { .. } => {
            reveal(crate::transition::on_correct_claim);
        },
        Request::RescopeClaim { .. } => {
            reveal(crate::transition::on_rescope_claim);
        },
        Request::CloseClaim { .. } => {
            reveal(crate::transition::on_close_claim);
        },
        Request::Reconcile { .. } => {
            reveal(crate::transition::on_reconcile);
        },
        Request::CreateView { .. } => {
            reveal(crate::transition::on_create_view);
        },
        Request::PurgeClaim { .. } => {
            reveal(crate::transition::on_purge_claim);
        },
        Request::PurgeEvent { .. } => {
            reveal(crate::transition::on_purge_event);
        },
    }
}

/// What the law `known_request_is_replayed` says of a request.
spec fn replayed_holds(
    store: MemoryStoreModel,
    request: Request,
    stamp: StampModel,
    result: StoredResultModel,
) -> bool {
    &&& step(store, request, stamp) == (
        store,
        Ok::<(StoredResultModel, bool), ErrorModel>((as_answered(result), true)),
    )
}

proof fn replayed_create_scope(
    store: MemoryStoreModel,
    request: Request,
    stamp: StampModel,
    result: StoredResultModel,
)
    requires
        request is CreateScope,
        well_formed(request),
        fits(request, result),
        known_before(store, request) == PriorModel::Known(result),
    ensures
        replayed_holds(store, request, stamp, result),
{
    reveal(crate::transition::on_create_scope);
}

proof fn replayed_append_event(
    store: MemoryStoreModel,
    request: Request,
    stamp: StampModel,
    result: StoredResultModel,
)
    requires
        request is AppendEvent,
        well_formed(request),
        fits(request, result),
        known_before(store, request) == PriorModel::Known(result),
    ensures
        replayed_holds(store, request, stamp, result),
{
    reveal(crate::transition::on_append_event);
}

proof fn replayed_plan_observation(
    store: MemoryStoreModel,
    request: Request,
    stamp: StampModel,
    result: StoredResultModel,
)
    requires
        request is PlanObservation,
        well_formed(request),
        fits(request, result),
        known_before(store, request) == PriorModel::Known(result),
    ensures
        replayed_holds(store, request, stamp, result),
{
    reveal(crate::transition::on_plan_observation);
}

proof fn replayed_commit_observation(
    store: MemoryStoreModel,
    request: Request,
    stamp: StampModel,
    result: StoredResultModel,
)
    requires
        request is CommitObservation,
        well_formed(request),
        fits(request, result),
        known_before(store, request) == PriorModel::Known(result),
    ensures
        replayed_holds(store, request, stamp, result),
{
    reveal(crate::transition::on_commit_observation);
}

proof fn replayed_fail_observation(
    store: MemoryStoreModel,
    request: Request,
    stamp: StampModel,
    result: StoredResultModel,
)
    requires
        request is FailObservation,
        well_formed(request),
        fits(request, result),
        known_before(store, request) == PriorModel::Known(result),
    ensures
        replayed_holds(store, request, stamp, result),
{
    reveal(crate::transition::on_fail_observation);
}

proof fn replayed_state_claim(
    store: MemoryStoreModel,
    request: Request,
    stamp: StampModel,
    result: StoredResultModel,
)
    requires
        request is StateClaim,
        well_formed(request),
        fits(request, result),
        known_before(store, request) == PriorModel::Known(result),
    ensures
        replayed_holds(store, request, stamp, result),
{
    reveal(crate::transition::on_state_claim);
}

proof fn replayed_confirm_claim(
    store: MemoryStoreModel,
    request: Request,
    stamp: StampModel,
    result: StoredResultModel,
)
    requires
        request is ConfirmClaim,
        well_formed(request),
        fits(request, result),
        known_before(store, request) == PriorModel::Known(result),
    ensures
        replayed_holds(store, request, stamp, result),
{
    reveal(crate::transition::on_confirm_claim);
}

proof fn replayed_correct_claim(
    store: MemoryStoreModel,
    request: Request,
    stamp: StampModel,
    result: StoredResultModel,
)
    requires
        request is CorrectClaim,
        well_formed(request),
        fits(request, result),
        known_before(store, request) == PriorModel::Known(result),
    ensures
        replayed_holds(store, request, stamp, result),
{
    reveal(crate::transition::on_correct_claim);
}

proof fn replayed_rescope_claim(
    store: MemoryStoreModel,
    request: Request,
    stamp: StampModel,
    result: StoredResultModel,
)
    requires
        request is RescopeClaim,
        well_formed(request),
        fits(request, result),
        known_before(store, request) == PriorModel::Known(result),
    ensures
        replayed_holds(store, request, stamp, result),
{
    reveal(crate::transition::on_rescope_claim);
}

proof fn replayed_close_claim(
    store: MemoryStoreModel,
    request: Request,
    stamp: StampModel,
    result: StoredResultModel,
)
    requires
        request is CloseClaim,
        well_formed(request),
        fits(request, result),
        known_before(store, request) == PriorModel::Known(result),
    ensures
        replayed_holds(store, request, stamp, result),
{
    reveal(crate::transition::on_close_claim);
}

proof fn replayed_reconcile(
    store: MemoryStoreModel,
    request: Request,
    stamp: StampModel,
    result: StoredResultModel,
)
    requires
        request is Reconcile,
        well_formed(request),
        fits(request, result),
        known_before(store, request) == PriorModel::Known(result),
    ensures
        replayed_holds(store, request, stamp, result),
{
    reveal(crate::transition::on_reconcile);
}

proof fn replayed_create_view(
    store: MemoryStoreModel,
    request: Request,
    stamp: StampModel,
    result: StoredResultModel,
)
    requires
        request is CreateView,
        well_formed(request),
        fits(request, result),
        known_before(store, request) == PriorModel::Known(result),
    ensures
        replayed_holds(store, request, stamp, result),
{
    reveal(crate::transition::on_create_view);
}

proof fn replayed_purge_claim(
    store: MemoryStoreModel,
    request: Request,
    stamp: StampModel,
    result: StoredResultModel,
)
    requires
        request is PurgeClaim,
        well_formed(request),
        fits(request, result),
        known_before(store, request) == PriorModel::Known(result),
    ensures
        replayed_holds(store, request, stamp, result),
{
    reveal(crate::transition::on_purge_claim);
}

proof fn replayed_purge_event(
    store: MemoryStoreModel,
    request: Request,
    stamp: StampModel,
    result: StoredResultModel,
)
    requires
        request is PurgeEvent,
        well_formed(request),
        fits(request, result),
        known_before(store, request) == PriorModel::Known(result),
    ensures
        replayed_holds(store, request, stamp, result),
{
    reveal(crate::transition::on_purge_event);
}

/// A well-formed request whose key is known for it is answered from the record, whatever else has
/// happened since, and changes nothing.
pub proof fn known_request_is_replayed(
    store: MemoryStoreModel,
    request: Request,
    stamp: StampModel,
    result: StoredResultModel,
)
    requires
        well_formed(request),
        fits(request, result),
        known_before(store, request) == PriorModel::Known(result),
    ensures
        step(store, request, stamp) == (
            store,
            Ok::<(StoredResultModel, bool), ErrorModel>((as_answered(result), true)),
        ),
{
    match request {
        Request::CreateScope { .. } => replayed_create_scope(store, request, stamp, result),
        Request::AppendEvent { .. } => replayed_append_event(store, request, stamp, result),
        Request::PlanObservation { .. } => replayed_plan_observation(store, request, stamp, result),
        Request::CommitObservation { .. } => replayed_commit_observation(store, request, stamp, result),
        Request::FailObservation { .. } => replayed_fail_observation(store, request, stamp, result),
        Request::StateClaim { .. } => replayed_state_claim(store, request, stamp, result),
        Request::ConfirmClaim { .. } => replayed_confirm_claim(store, request, stamp, result),
        Request::CorrectClaim { .. } => replayed_correct_claim(store, request, stamp, result),
        Request::RescopeClaim { .. } => replayed_rescope_claim(store, request, stamp, result),
        Request::CloseClaim { .. } => replayed_close_claim(store, request, stamp, result),
        Request::Reconcile { .. } => replayed_reconcile(store, request, stamp, result),
        Request::CreateView { .. } => replayed_create_view(store, request, stamp, result),
        Request::PurgeClaim { .. } => replayed_purge_claim(store, request, stamp, result),
        Request::PurgeEvent { .. } => replayed_purge_event(store, request, stamp, result),
    }
}

/// What the law `refused_key_changes_nothing` says of a request.
spec fn refused_holds(
    store: MemoryStoreModel,
    request: Request,
    stamp: StampModel,
    error: ErrorModel,
) -> bool {
    &&& step(store, request, stamp) == (store, Err::<(StoredResultModel, bool), ErrorModel>(error))
}

proof fn refused_create_scope(
    store: MemoryStoreModel,
    request: Request,
    stamp: StampModel,
    error: ErrorModel,
)
    requires
        request is CreateScope,
        well_formed(request),
        known_before(store, request) == PriorModel::Refused(error),
    ensures
        refused_holds(store, request, stamp, error),
{
    reveal(crate::transition::on_create_scope);
}

proof fn refused_append_event(
    store: MemoryStoreModel,
    request: Request,
    stamp: StampModel,
    error: ErrorModel,
)
    requires
        request is AppendEvent,
        well_formed(request),
        known_before(store, request) == PriorModel::Refused(error),
    ensures
        refused_holds(store, request, stamp, error),
{
    reveal(crate::transition::on_append_event);
}

proof fn refused_plan_observation(
    store: MemoryStoreModel,
    request: Request,
    stamp: StampModel,
    error: ErrorModel,
)
    requires
        request is PlanObservation,
        well_formed(request),
        known_before(store, request) == PriorModel::Refused(error),
    ensures
        refused_holds(store, request, stamp, error),
{
    reveal(crate::transition::on_plan_observation);
}

proof fn refused_commit_observation(
    store: MemoryStoreModel,
    request: Request,
    stamp: StampModel,
    error: ErrorModel,
)
    requires
        request is CommitObservation,
        well_formed(request),
        known_before(store, request) == PriorModel::Refused(error),
    ensures
        refused_holds(store, request, stamp, error),
{
    reveal(crate::transition::on_commit_observation);
}

proof fn refused_fail_observation(
    store: MemoryStoreModel,
    request: Request,
    stamp: StampModel,
    error: ErrorModel,
)
    requires
        request is FailObservation,
        well_formed(request),
        known_before(store, request) == PriorModel::Refused(error),
    ensures
        refused_holds(store, request, stamp, error),
{
    reveal(crate::transition::on_fail_observation);
}

proof fn refused_state_claim(
    store: MemoryStoreModel,
    request: Request,
    stamp: StampModel,
    error: ErrorModel,
)
    requires
        request is StateClaim,
        well_formed(request),
        known_before(store, request) == PriorModel::Refused(error),
    ensures
        refused_holds(store, request, stamp, error),
{
    reveal(crate::transition::on_state_claim);
}

proof fn refused_confirm_claim(
    store: MemoryStoreModel,
    request: Request,
    stamp: StampModel,
    error: ErrorModel,
)
    requires
        request is ConfirmClaim,
        well_formed(request),
        known_before(store, request) == PriorModel::Refused(error),
    ensures
        refused_holds(store, request, stamp, error),
{
    reveal(crate::transition::on_confirm_claim);
}

proof fn refused_correct_claim(
    store: MemoryStoreModel,
    request: Request,
    stamp: StampModel,
    error: ErrorModel,
)
    requires
        request is CorrectClaim,
        well_formed(request),
        known_before(store, request) == PriorModel::Refused(error),
    ensures
        refused_holds(store, request, stamp, error),
{
    reveal(crate::transition::on_correct_claim);
}

proof fn refused_rescope_claim(
    store: MemoryStoreModel,
    request: Request,
    stamp: StampModel,
    error: ErrorModel,
)
    requires
        request is RescopeClaim,
        well_formed(request),
        known_before(store, request) == PriorModel::Refused(error),
    ensures
        refused_holds(store, request, stamp, error),
{
    reveal(crate::transition::on_rescope_claim);
}

proof fn refused_close_claim(
    store: MemoryStoreModel,
    request: Request,
    stamp: StampModel,
    error: ErrorModel,
)
    requires
        request is CloseClaim,
        well_formed(request),
        known_before(store, request) == PriorModel::Refused(error),
    ensures
        refused_holds(store, request, stamp, error),
{
    reveal(crate::transition::on_close_claim);
}

proof fn refused_reconcile(
    store: MemoryStoreModel,
    request: Request,
    stamp: StampModel,
    error: ErrorModel,
)
    requires
        request is Reconcile,
        well_formed(request),
        known_before(store, request) == PriorModel::Refused(error),
    ensures
        refused_holds(store, request, stamp, error),
{
    reveal(crate::transition::on_reconcile);
}

proof fn refused_create_view(
    store: MemoryStoreModel,
    request: Request,
    stamp: StampModel,
    error: ErrorModel,
)
    requires
        request is CreateView,
        well_formed(request),
        known_before(store, request) == PriorModel::Refused(error),
    ensures
        refused_holds(store, request, stamp, error),
{
    reveal(crate::transition::on_create_view);
}

proof fn refused_purge_claim(
    store: MemoryStoreModel,
    request: Request,
    stamp: StampModel,
    error: ErrorModel,
)
    requires
        request is PurgeClaim,
        well_formed(request),
        known_before(store, request) == PriorModel::Refused(error),
    ensures
        refused_holds(store, request, stamp, error),
{
    reveal(crate::transition::on_purge_claim);
}

proof fn refused_purge_event(
    store: MemoryStoreModel,
    request: Request,
    stamp: StampModel,
    error: ErrorModel,
)
    requires
        request is PurgeEvent,
        well_formed(request),
        known_before(store, request) == PriorModel::Refused(error),
    ensures
        refused_holds(store, request, stamp, error),
{
    reveal(crate::transition::on_purge_event);
}

/// A well-formed request whose key is bound to something else, or whose result was purged, is
/// refused with that reason and changes nothing.
pub proof fn refused_key_changes_nothing(
    store: MemoryStoreModel,
    request: Request,
    stamp: StampModel,
    error: ErrorModel,
)
    requires
        well_formed(request),
        known_before(store, request) == PriorModel::Refused(error),
    ensures
        step(store, request, stamp) == (store, Err::<(StoredResultModel, bool), ErrorModel>(error)),
{
    match request {
        Request::CreateScope { .. } => refused_create_scope(store, request, stamp, error),
        Request::AppendEvent { .. } => refused_append_event(store, request, stamp, error),
        Request::PlanObservation { .. } => refused_plan_observation(store, request, stamp, error),
        Request::CommitObservation { .. } => refused_commit_observation(store, request, stamp, error),
        Request::FailObservation { .. } => refused_fail_observation(store, request, stamp, error),
        Request::StateClaim { .. } => refused_state_claim(store, request, stamp, error),
        Request::ConfirmClaim { .. } => refused_confirm_claim(store, request, stamp, error),
        Request::CorrectClaim { .. } => refused_correct_claim(store, request, stamp, error),
        Request::RescopeClaim { .. } => refused_rescope_claim(store, request, stamp, error),
        Request::CloseClaim { .. } => refused_close_claim(store, request, stamp, error),
        Request::Reconcile { .. } => refused_reconcile(store, request, stamp, error),
        Request::CreateView { .. } => refused_create_view(store, request, stamp, error),
        Request::PurgeClaim { .. } => refused_purge_claim(store, request, stamp, error),
        Request::PurgeEvent { .. } => refused_purge_event(store, request, stamp, error),
    }
}

/// What the law `failure_changes_nothing` says of a request.
spec fn failed_holds(store: MemoryStoreModel, request: Request, stamp: StampModel) -> bool {
    &&& ({
        let after = step(store, request, stamp).0;
        ||| after == store
        ||| {
            &&& request matches Request::CommitObservation { run_id, .. }
            &&& after == (MemoryStoreModel { runs: after.runs, ..store })
            &&& after.runs == store.runs.map_values(
                crate::observation::run_patched(
                    request->CommitObservation_run_id,
                    crate::row::RunPatchModel {
                        status: crate::kind::RunStatus::Stale,
                        error: Some("stream cursor advanced"@),
                        ambiguities: None,
                        at: stamp.at,
                    },
                ),
            )
            &&& step(store, request, stamp).1 matches Err(error) && error.kind is StaleObservationRun
        }
    })
}

proof fn failed_create_scope(store: MemoryStoreModel, request: Request, stamp: StampModel)
    requires
        request is CreateScope,
        step(store, request, stamp).1 is Err,
    ensures
        failed_holds(store, request, stamp),
{
    reveal(crate::transition::on_create_scope);
}

proof fn failed_append_event(store: MemoryStoreModel, request: Request, stamp: StampModel)
    requires
        request is AppendEvent,
        step(store, request, stamp).1 is Err,
    ensures
        failed_holds(store, request, stamp),
{
    reveal(crate::transition::on_append_event);
}

proof fn failed_plan_observation(store: MemoryStoreModel, request: Request, stamp: StampModel)
    requires
        request is PlanObservation,
        step(store, request, stamp).1 is Err,
    ensures
        failed_holds(store, request, stamp),
{
    reveal(crate::transition::on_plan_observation);
}

proof fn failed_commit_observation(store: MemoryStoreModel, request: Request, stamp: StampModel)
    requires
        request is CommitObservation,
        step(store, request, stamp).1 is Err,
    ensures
        failed_holds(store, request, stamp),
{
    reveal(crate::transition::on_commit_observation);
}

proof fn failed_fail_observation(store: MemoryStoreModel, request: Request, stamp: StampModel)
    requires
        request is FailObservation,
        step(store, request, stamp).1 is Err,
    ensures
        failed_holds(store, request, stamp),
{
    reveal(crate::transition::on_fail_observation);
}

proof fn failed_state_claim(store: MemoryStoreModel, request: Request, stamp: StampModel)
    requires
        request is StateClaim,
        step(store, request, stamp).1 is Err,
    ensures
        failed_holds(store, request, stamp),
{
    reveal(crate::transition::on_state_claim);
}

proof fn failed_confirm_claim(store: MemoryStoreModel, request: Request, stamp: StampModel)
    requires
        request is ConfirmClaim,
        step(store, request, stamp).1 is Err,
    ensures
        failed_holds(store, request, stamp),
{
    reveal(crate::transition::on_confirm_claim);
}

proof fn failed_correct_claim(store: MemoryStoreModel, request: Request, stamp: StampModel)
    requires
        request is CorrectClaim,
        step(store, request, stamp).1 is Err,
    ensures
        failed_holds(store, request, stamp),
{
    reveal(crate::transition::on_correct_claim);
}

proof fn failed_rescope_claim(store: MemoryStoreModel, request: Request, stamp: StampModel)
    requires
        request is RescopeClaim,
        step(store, request, stamp).1 is Err,
    ensures
        failed_holds(store, request, stamp),
{
    reveal(crate::transition::on_rescope_claim);
}

proof fn failed_close_claim(store: MemoryStoreModel, request: Request, stamp: StampModel)
    requires
        request is CloseClaim,
        step(store, request, stamp).1 is Err,
    ensures
        failed_holds(store, request, stamp),
{
    reveal(crate::transition::on_close_claim);
}

proof fn failed_reconcile(store: MemoryStoreModel, request: Request, stamp: StampModel)
    requires
        request is Reconcile,
        step(store, request, stamp).1 is Err,
    ensures
        failed_holds(store, request, stamp),
{
    reveal(crate::transition::on_reconcile);
}

proof fn failed_create_view(store: MemoryStoreModel, request: Request, stamp: StampModel)
    requires
        request is CreateView,
        step(store, request, stamp).1 is Err,
    ensures
        failed_holds(store, request, stamp),
{
    reveal(crate::transition::on_create_view);
}

proof fn failed_purge_claim(store: MemoryStoreModel, request: Request, stamp: StampModel)
    requires
        request is PurgeClaim,
        step(store, request, stamp).1 is Err,
    ensures
        failed_holds(store, request, stamp),
{
    reveal(crate::transition::on_purge_claim);
}

proof fn failed_purge_event(store: MemoryStoreModel, request: Request, stamp: StampModel)
    requires
        request is PurgeEvent,
        step(store, request, stamp).1 is Err,
    ensures
        failed_holds(store, request, stamp),
{
    reveal(crate::transition::on_purge_event);
}

/// A request that fails changes nothing, but for a commit that finds its run overtaken: that one
/// marks the run as stale, and nothing else.
pub proof fn failure_changes_nothing(store: MemoryStoreModel, request: Request, stamp: StampModel)
    requires
        step(store, request, stamp).1 is Err,
    ensures
        ({
            let after = step(store, request, stamp).0;
            ||| after == store
            ||| {
                &&& request matches Request::CommitObservation { run_id, .. }
                &&& after == (MemoryStoreModel { runs: after.runs, ..store })
                &&& after.runs == store.runs.map_values(
                    crate::observation::run_patched(
                        request->CommitObservation_run_id,
                        crate::row::RunPatchModel {
                            status: crate::kind::RunStatus::Stale,
                            error: Some("stream cursor advanced"@),
                            ambiguities: None,
                            at: stamp.at,
                        },
                    ),
                )
                &&& step(store, request, stamp).1 matches Err(error) && error.kind is StaleObservationRun
            }
        }),
{
    match request {
        Request::CreateScope { .. } => failed_create_scope(store, request, stamp),
        Request::AppendEvent { .. } => failed_append_event(store, request, stamp),
        Request::PlanObservation { .. } => failed_plan_observation(store, request, stamp),
        Request::CommitObservation { .. } => failed_commit_observation(store, request, stamp),
        Request::FailObservation { .. } => failed_fail_observation(store, request, stamp),
        Request::StateClaim { .. } => failed_state_claim(store, request, stamp),
        Request::ConfirmClaim { .. } => failed_confirm_claim(store, request, stamp),
        Request::CorrectClaim { .. } => failed_correct_claim(store, request, stamp),
        Request::RescopeClaim { .. } => failed_rescope_claim(store, request, stamp),
        Request::CloseClaim { .. } => failed_close_claim(store, request, stamp),
        Request::Reconcile { .. } => failed_reconcile(store, request, stamp),
        Request::CreateView { .. } => failed_create_view(store, request, stamp),
        Request::PurgeClaim { .. } => failed_purge_claim(store, request, stamp),
        Request::PurgeEvent { .. } => failed_purge_event(store, request, stamp),
    }
}

/// What the law `replay_changes_nothing` says of a request.
spec fn unchanged_holds(store: MemoryStoreModel, request: Request, stamp: StampModel) -> bool {
    &&& step(store, request, stamp).0 == store
}

proof fn unchanged_create_scope(store: MemoryStoreModel, request: Request, stamp: StampModel)
    requires
        request is CreateScope,
        step(store, request, stamp).1 matches Ok((_, replayed)) && replayed,
    ensures
        unchanged_holds(store, request, stamp),
{
    reveal(crate::transition::on_create_scope);
}

proof fn unchanged_append_event(store: MemoryStoreModel, request: Request, stamp: StampModel)
    requires
        request is AppendEvent,
        step(store, request, stamp).1 matches Ok((_, replayed)) && replayed,
    ensures
        unchanged_holds(store, request, stamp),
{
    reveal(crate::transition::on_append_event);
}

proof fn unchanged_plan_observation(store: MemoryStoreModel, request: Request, stamp: StampModel)
    requires
        request is PlanObservation,
        step(store, request, stamp).1 matches Ok((_, replayed)) && replayed,
    ensures
        unchanged_holds(store, request, stamp),
{
    reveal(crate::transition::on_plan_observation);
}

proof fn unchanged_commit_observation(store: MemoryStoreModel, request: Request, stamp: StampModel)
    requires
        request is CommitObservation,
        step(store, request, stamp).1 matches Ok((_, replayed)) && replayed,
    ensures
        unchanged_holds(store, request, stamp),
{
    reveal(crate::transition::on_commit_observation);
}

proof fn unchanged_fail_observation(store: MemoryStoreModel, request: Request, stamp: StampModel)
    requires
        request is FailObservation,
        step(store, request, stamp).1 matches Ok((_, replayed)) && replayed,
    ensures
        unchanged_holds(store, request, stamp),
{
    reveal(crate::transition::on_fail_observation);
}

proof fn unchanged_state_claim(store: MemoryStoreModel, request: Request, stamp: StampModel)
    requires
        request is StateClaim,
        step(store, request, stamp).1 matches Ok((_, replayed)) && replayed,
    ensures
        unchanged_holds(store, request, stamp),
{
    reveal(crate::transition::on_state_claim);
}

proof fn unchanged_confirm_claim(store: MemoryStoreModel, request: Request, stamp: StampModel)
    requires
        request is ConfirmClaim,
        step(store, request, stamp).1 matches Ok((_, replayed)) && replayed,
    ensures
        unchanged_holds(store, request, stamp),
{
    reveal(crate::transition::on_confirm_claim);
}

proof fn unchanged_correct_claim(store: MemoryStoreModel, request: Request, stamp: StampModel)
    requires
        request is CorrectClaim,
        step(store, request, stamp).1 matches Ok((_, replayed)) && replayed,
    ensures
        unchanged_holds(store, request, stamp),
{
    reveal(crate::transition::on_correct_claim);
}

proof fn unchanged_rescope_claim(store: MemoryStoreModel, request: Request, stamp: StampModel)
    requires
        request is RescopeClaim,
        step(store, request, stamp).1 matches Ok((_, replayed)) && replayed,
    ensures
        unchanged_holds(store, request, stamp),
{
    reveal(crate::transition::on_rescope_claim);
}

proof fn unchanged_close_claim(store: MemoryStoreModel, request: Request, stamp: StampModel)
    requires
        request is CloseClaim,
        step(store, request, stamp).1 matches Ok((_, replayed)) && replayed,
    ensures
        unchanged_holds(store, request, stamp),
{
    reveal(crate::transition::on_close_claim);
}

proof fn unchanged_reconcile(store: MemoryStoreModel, request: Request, stamp: StampModel)
    requires
        request is Reconcile,
        step(store, request, stamp).1 matches Ok((_, replayed)) && replayed,
    ensures
        unchanged_holds(store, request, stamp),
{
    reveal(crate::transition::on_reconcile);
}

proof fn unchanged_create_view(store: MemoryStoreModel, request: Request, stamp: StampModel)
    requires
        request is CreateView,
        step(store, request, stamp).1 matches Ok((_, replayed)) && replayed,
    ensures
        unchanged_holds(store, request, stamp),
{
    reveal(crate::transition::on_create_view);
}

proof fn unchanged_purge_claim(store: MemoryStoreModel, request: Request, stamp: StampModel)
    requires
        request is PurgeClaim,
        step(store, request, stamp).1 matches Ok((_, replayed)) && replayed,
    ensures
        unchanged_holds(store, request, stamp),
{
    reveal(crate::transition::on_purge_claim);
}

proof fn unchanged_purge_event(store: MemoryStoreModel, request: Request, stamp: StampModel)
    requires
        request is PurgeEvent,
        step(store, request, stamp).1 matches Ok((_, replayed)) && replayed,
    ensures
        unchanged_holds(store, request, stamp),
{
    reveal(crate::transition::on_purge_event);
}

/// A replayed request changes nothing.
pub proof fn replay_changes_nothing(store: MemoryStoreModel, request: Request, stamp: StampModel)
    requires
        step(store, request, stamp).1 matches Ok((_, replayed)) && replayed,
    ensures
        step(store, request, stamp).0 == store,
{
    match request {
        Request::CreateScope { .. } => unchanged_create_scope(store, request, stamp),
        Request::AppendEvent { .. } => unchanged_append_event(store, request, stamp),
        Request::PlanObservation { .. } => unchanged_plan_observation(store, request, stamp),
        Request::CommitObservation { .. } => unchanged_commit_observation(store, request, stamp),
        Request::FailObservation { .. } => unchanged_fail_observation(store, request, stamp),
        Request::StateClaim { .. } => unchanged_state_claim(store, request, stamp),
        Request::ConfirmClaim { .. } => unchanged_confirm_claim(store, request, stamp),
        Request::CorrectClaim { .. } => unchanged_correct_claim(store, request, stamp),
        Request::RescopeClaim { .. } => unchanged_rescope_claim(store, request, stamp),
        Request::CloseClaim { .. } => unchanged_close_claim(store, request, stamp),
        Request::Reconcile { .. } => unchanged_reconcile(store, request, stamp),
        Request::CreateView { .. } => unchanged_create_view(store, request, stamp),
        Request::PurgeClaim { .. } => unchanged_purge_claim(store, request, stamp),
        Request::PurgeEvent { .. } => unchanged_purge_event(store, request, stamp),
    }
}

/// What a used key answers is not changed by any later request but a purge.
pub proof fn used_key_stays_bound(
    store: MemoryStoreModel,
    request: Request,
    stamp: StampModel,
    key: Text,
    operation: Text,
    hash: Text,
)
    requires
        !is_purge(request),
        !(prior(store, key, operation, hash) is Fresh),
    ensures
        prior(step(store, request, stamp).0, key, operation, hash) == prior(
            store,
            key,
            operation,
            hash,
        ),
{
    let (after, answer) = step(store, request, stamp);
    if carried_out(store, request, stamp) {
        carried_out_is_recorded(store, request, stamp);
        let row = record_of(request, recorded_result(store, request, stamp));
        first_record_decides(store, after, row, key, operation, hash);
    } else if answer is Err {
        failure_changes_nothing(store, request, stamp);
    } else {
        replay_changes_nothing(store, request, stamp);
    }
}

/// A key never becomes free again: a used key answers, conflicts or is purged for ever.
pub proof fn used_key_is_never_free(
    store: MemoryStoreModel,
    request: Request,
    stamp: StampModel,
    key: Text,
    operation: Text,
    hash: Text,
)
    requires
        !(prior(store, key, operation, hash) is Fresh),
    ensures
        !(prior(step(store, request, stamp).0, key, operation, hash) is Fresh),
{
    let (after, answer) = step(store, request, stamp);
    if carried_out(store, request, stamp) {
        carried_out_is_recorded(store, request, stamp);
        let row = record_of(request, recorded_result(store, request, stamp));
        if is_purge(request) {
            let ids = choose|ids: Seq<Text>|
                #[trigger] after.operations == store.operations.map_values(
                    operation_scrubbed(ids),
                ).push(row);
            scrubbing_keeps_keys(store.operations, ids, key);
            let base = MemoryStoreModel {
                operations: store.operations.map_values(operation_scrubbed(ids)),
                ..store
            };
            first_record_decides(base, after, row, key, operation, hash);
        } else {
            first_record_decides(store, after, row, key, operation, hash);
        }
    } else if answer is Err {
        failure_changes_nothing(store, request, stamp);
    } else {
        replay_changes_nothing(store, request, stamp);
    }
}

/// A purged key stays purged: it is refused as purged, or as a conflict where it belongs to
/// another operation, after every further request, and its data cannot come back.
pub proof fn purged_key_stays_purged(
    store: MemoryStoreModel,
    request: Request,
    stamp: StampModel,
    key: Text,
    operation: Text,
    hash: Text,
)
    requires
        first_where(store.operations, operation_keyed(key)) matches Some(row) && row.result is None,
    ensures
        first_where(step(store, request, stamp).0.operations, operation_keyed(key)) matches Some(row)
            && row.result is None,
        prior(step(store, request, stamp).0, key, operation, hash) matches PriorModel::Refused(_),
{
    let (after, answer) = step(store, request, stamp);
    let before = first_where(store.operations, operation_keyed(key)).unwrap();
    if carried_out(store, request, stamp) {
        carried_out_is_recorded(store, request, stamp);
        let row = record_of(request, recorded_result(store, request, stamp));
        let rows = if is_purge(request) {
            let ids = choose|ids: Seq<Text>|
                #[trigger] after.operations == store.operations.map_values(
                    operation_scrubbed(ids),
                ).push(row);
            scrubbing_keeps_keys(store.operations, ids, key);
            store.operations.map_values(operation_scrubbed(ids))
        } else {
            store.operations
        };
        pushed_row_is_behind(rows, row, operation_keyed(key));
    } else if answer is Err {
        failure_changes_nothing(store, request, stamp);
    } else {
        replay_changes_nothing(store, request, stamp);
    }
}

/// A row that is found is still found after another one was appended.
pub proof fn pushed_row_is_behind<V>(rows: Seq<V>, row: V, accepts: spec_fn(V) -> bool)
    requires
        first_where(rows, accepts) is Some,
    ensures
        first_where(rows.push(row), accepts) == first_where(rows, accepts),
{
    first_where_found(rows, accepts);
    let i = first_at(rows, accepts);
    first_where_at(rows, accepts, i);
    let longer = rows.push(row);
    assert forall|k: int| 0 <= k < i implies !accepts(#[trigger] longer[k]) by {
        assert(longer[k] == rows[k]);
    }
    assert(longer[i] == rows[i]);
    first_where_at(longer, accepts, i);
}

} // verus!
