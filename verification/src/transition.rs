//! All requests that change the memory, as one transition function.

use vstd::prelude::*;

use crate::claim::{close_step, confirm_step, correct_step, direct_step, reconcile_step, rescope_step};
use crate::error::ErrorModel;
use crate::event::append_event_step;
use crate::kind::ScopeKind;
use crate::model::{CreateViewModel, NewEventModel, ObserverResultModel};
use crate::observation::{commit_ids, commit_step, fail_step, plan_step};
use crate::privacy::{purge_claim_step, purge_event_step};
use crate::row::{ClaimRequestModel, MemoryStoreModel, StoredResultModel};
use crate::scope::create_scope_step;
use crate::stamp::StampModel;
use crate::text::Text;
use crate::view::create_view_step;

verus! {

/// A request that may change the memory.
pub enum Request {
    CreateScope {
        id: Text,
        kind: ScopeKind,
        parent_id: Option<Text>,
        name: Option<Text>,
        key: Text,
    },
    AppendEvent { event: NewEventModel },
    PlanObservation {
        scope_id: Text,
        stream_id: Text,
        max_tokens: i64,
        observer_model: Text,
        prompt_version: Text,
        key: Text,
    },
    CommitObservation { run_id: Text, result: ObserverResultModel, key: Text },
    FailObservation { run_id: Text, reason: Text, key: Text },
    StateClaim { request: ClaimRequestModel, key: Text },
    ConfirmClaim { claim_id: Text, key: Text },
    CorrectClaim { claim_id: Text, value: Text, event_ids: Seq<Text>, key: Text },
    RescopeClaim { claim_id: Text, new_scope_id: Text, key: Text },
    CloseClaim { claim_id: Text, forget: bool, key: Text },
    Reconcile { scope_id: Text, key: Text },
    CreateView { input: CreateViewModel },
    PurgeClaim { claim_id: Text, key: Text },
    PurgeEvent { event_id: Text, key: Text },
}

/// What a request is answered: a result and whether it was replayed, or an error.
pub type Answer = Result<(StoredResultModel, bool), ErrorModel>;

pub open spec fn is_purge(request: Request) -> bool {
    request is PurgeClaim || request is PurgeEvent
}

/// How many identifiers a request takes.
pub open spec fn ids_needed(request: Request) -> nat {
    match request {
        Request::AppendEvent { .. } => 1,
        Request::PlanObservation { .. } => 1,
        Request::CommitObservation { result, .. } => commit_ids(result),
        Request::StateClaim { .. } => 2,
        Request::ConfirmClaim { .. } => 1,
        Request::CorrectClaim { .. } => 2,
        Request::RescopeClaim { .. } => 2,
        Request::CloseClaim { .. } => 1,
        Request::CreateView { .. } => 1,
        _ => 0,
    }
}

pub open spec fn stamped(request: Request, stamp: StampModel) -> bool {
    stamp.ids.len() == ids_needed(request)
}

pub open spec fn request_key(request: Request) -> Text {
    match request {
        Request::CreateScope { key, .. } => key,
        Request::AppendEvent { event } => event.idempotency_key,
        Request::PlanObservation { key, .. } => key,
        Request::CommitObservation { key, .. } => key,
        Request::FailObservation { key, .. } => key,
        Request::StateClaim { key, .. } => key,
        Request::ConfirmClaim { key, .. } => key,
        Request::CorrectClaim { key, .. } => key,
        Request::RescopeClaim { key, .. } => key,
        Request::CloseClaim { key, .. } => key,
        Request::Reconcile { key, .. } => key,
        Request::CreateView { input } => input.idempotency_key,
        Request::PurgeClaim { key, .. } => key,
        Request::PurgeEvent { key, .. } => key,
    }
}

#[verifier::opaque]
pub open spec fn on_create_scope(store: MemoryStoreModel, request: Request, stamp: StampModel) -> (
    MemoryStoreModel,
    Answer,
) {
    let (after, answer) = create_scope_step(
        store,
        request->CreateScope_id,
        request->CreateScope_kind,
        request->CreateScope_parent_id,
        request->CreateScope_name,
        request->CreateScope_key,
        stamp,
    );
    (
        after,
        match answer {
            Ok(done) => Ok((StoredResultModel::Scope(done.data), done.replayed)),
            Err(error) => Err(error),
        },
    )
}

#[verifier::opaque]
pub open spec fn on_append_event(store: MemoryStoreModel, request: Request, stamp: StampModel) -> (
    MemoryStoreModel,
    Answer,
) {
    let (after, answer) = append_event_step(
        store,
        request->AppendEvent_event,
        stamp,
    );
    (
        after,
        match answer {
            Ok(done) => Ok((StoredResultModel::Event(done.data), done.replayed)),
            Err(error) => Err(error),
        },
    )
}

#[verifier::opaque]
pub open spec fn on_plan_observation(store: MemoryStoreModel, request: Request, stamp: StampModel) -> (
    MemoryStoreModel,
    Answer,
) {
    let (after, answer) = plan_step(
        store,
        request->PlanObservation_scope_id,
        request->PlanObservation_stream_id,
        request->PlanObservation_max_tokens,
        request->PlanObservation_observer_model,
        request->PlanObservation_prompt_version,
        request->PlanObservation_key,
        stamp,
    );
    (
        after,
        match answer {
            Ok(done) => Ok((StoredResultModel::Plan(done.data), done.replayed)),
            Err(error) => Err(error),
        },
    )
}

#[verifier::opaque]
pub open spec fn on_commit_observation(store: MemoryStoreModel, request: Request, stamp: StampModel) -> (
    MemoryStoreModel,
    Answer,
) {
    let (after, answer) = commit_step(
        store,
        request->CommitObservation_run_id,
        request->CommitObservation_result,
        request->CommitObservation_key,
        stamp,
    );
    (
        after,
        match answer {
            Ok(done) => Ok((StoredResultModel::Commit(done.data), done.replayed)),
            Err(error) => Err(error),
        },
    )
}

#[verifier::opaque]
pub open spec fn on_fail_observation(store: MemoryStoreModel, request: Request, stamp: StampModel) -> (
    MemoryStoreModel,
    Answer,
) {
    let (after, answer) = fail_step(
        store,
        request->FailObservation_run_id,
        request->FailObservation_reason,
        request->FailObservation_key,
        stamp,
    );
    (
        after,
        match answer {
            Ok(done) => Ok((StoredResultModel::Failure(done.data), done.replayed)),
            Err(error) => Err(error),
        },
    )
}

#[verifier::opaque]
pub open spec fn on_state_claim(store: MemoryStoreModel, request: Request, stamp: StampModel) -> (
    MemoryStoreModel,
    Answer,
) {
    let (after, answer) = direct_step(
        store,
        request->StateClaim_request,
        request->StateClaim_key,
        stamp,
    );
    (
        after,
        match answer {
            Ok(done) => Ok((StoredResultModel::Claim(done.data), done.replayed)),
            Err(error) => Err(error),
        },
    )
}

#[verifier::opaque]
pub open spec fn on_confirm_claim(store: MemoryStoreModel, request: Request, stamp: StampModel) -> (
    MemoryStoreModel,
    Answer,
) {
    let (after, answer) = confirm_step(
        store,
        request->ConfirmClaim_claim_id,
        request->ConfirmClaim_key,
        stamp,
    );
    (
        after,
        match answer {
            Ok(done) => Ok((StoredResultModel::Claim(done.data), done.replayed)),
            Err(error) => Err(error),
        },
    )
}

#[verifier::opaque]
pub open spec fn on_correct_claim(store: MemoryStoreModel, request: Request, stamp: StampModel) -> (
    MemoryStoreModel,
    Answer,
) {
    let (after, answer) = correct_step(
        store,
        request->CorrectClaim_claim_id,
        request->CorrectClaim_value,
        request->CorrectClaim_event_ids,
        request->CorrectClaim_key,
        stamp,
    );
    (
        after,
        match answer {
            Ok(done) => Ok((StoredResultModel::Claim(done.data), done.replayed)),
            Err(error) => Err(error),
        },
    )
}

#[verifier::opaque]
pub open spec fn on_rescope_claim(store: MemoryStoreModel, request: Request, stamp: StampModel) -> (
    MemoryStoreModel,
    Answer,
) {
    let (after, answer) = rescope_step(
        store,
        request->RescopeClaim_claim_id,
        request->RescopeClaim_new_scope_id,
        request->RescopeClaim_key,
        stamp,
    );
    (
        after,
        match answer {
            Ok(done) => Ok((StoredResultModel::Claim(done.data), done.replayed)),
            Err(error) => Err(error),
        },
    )
}

#[verifier::opaque]
pub open spec fn on_close_claim(store: MemoryStoreModel, request: Request, stamp: StampModel) -> (
    MemoryStoreModel,
    Answer,
) {
    let (after, answer) = close_step(
        store,
        request->CloseClaim_claim_id,
        request->CloseClaim_forget,
        request->CloseClaim_key,
        stamp,
    );
    (
        after,
        match answer {
            Ok(done) => Ok((StoredResultModel::Claim(done.data), done.replayed)),
            Err(error) => Err(error),
        },
    )
}

#[verifier::opaque]
pub open spec fn on_reconcile(store: MemoryStoreModel, request: Request, stamp: StampModel) -> (
    MemoryStoreModel,
    Answer,
) {
    let (after, answer) = reconcile_step(
        store,
        request->Reconcile_scope_id,
        request->Reconcile_key,
        stamp,
    );
    (
        after,
        match answer {
            Ok(done) => Ok((StoredResultModel::Reconciliation(done.data), done.replayed)),
            Err(error) => Err(error),
        },
    )
}

#[verifier::opaque]
pub open spec fn on_create_view(store: MemoryStoreModel, request: Request, stamp: StampModel) -> (
    MemoryStoreModel,
    Answer,
) {
    let (after, answer) = create_view_step(
        store,
        request->CreateView_input,
        stamp,
    );
    (
        after,
        match answer {
            Ok(done) => Ok((StoredResultModel::View(done.data), done.replayed)),
            Err(error) => Err(error),
        },
    )
}

#[verifier::opaque]
pub open spec fn on_purge_claim(store: MemoryStoreModel, request: Request, stamp: StampModel) -> (
    MemoryStoreModel,
    Answer,
) {
    let (after, answer) = purge_claim_step(
        store,
        request->PurgeClaim_claim_id,
        request->PurgeClaim_key,
        stamp,
    );
    (
        after,
        match answer {
            Ok(done) => Ok((StoredResultModel::ClaimPurge(done.data), done.replayed)),
            Err(error) => Err(error),
        },
    )
}

#[verifier::opaque]
pub open spec fn on_purge_event(store: MemoryStoreModel, request: Request, stamp: StampModel) -> (
    MemoryStoreModel,
    Answer,
) {
    let (after, answer) = purge_event_step(
        store,
        request->PurgeEvent_event_id,
        request->PurgeEvent_key,
        stamp,
    );
    (
        after,
        match answer {
            Ok(done) => Ok((StoredResultModel::EventPurge(done.data), done.replayed)),
            Err(error) => Err(error),
        },
    )
}

/// What a request does and is answered.
pub open spec fn step(store: MemoryStoreModel, request: Request, stamp: StampModel) -> (
    MemoryStoreModel,
    Answer,
) {
    match request {
        Request::CreateScope { .. } => on_create_scope(store, request, stamp),
        Request::AppendEvent { .. } => on_append_event(store, request, stamp),
        Request::PlanObservation { .. } => on_plan_observation(store, request, stamp),
        Request::CommitObservation { .. } => on_commit_observation(store, request, stamp),
        Request::FailObservation { .. } => on_fail_observation(store, request, stamp),
        Request::StateClaim { .. } => on_state_claim(store, request, stamp),
        Request::ConfirmClaim { .. } => on_confirm_claim(store, request, stamp),
        Request::CorrectClaim { .. } => on_correct_claim(store, request, stamp),
        Request::RescopeClaim { .. } => on_rescope_claim(store, request, stamp),
        Request::CloseClaim { .. } => on_close_claim(store, request, stamp),
        Request::Reconcile { .. } => on_reconcile(store, request, stamp),
        Request::CreateView { .. } => on_create_view(store, request, stamp),
        Request::PurgeClaim { .. } => on_purge_claim(store, request, stamp),
        Request::PurgeEvent { .. } => on_purge_event(store, request, stamp),
    }
}

/// Whether a request was carried out now, as opposed to refused or replayed.
pub open spec fn carried_out(store: MemoryStoreModel, request: Request, stamp: StampModel) -> bool {
    step(store, request, stamp).1 matches Ok((_, replayed)) && !replayed
}

} // verus!
