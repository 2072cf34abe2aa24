//! Laws of refusals: of which kind they are, and what they say.

use vstd::prelude::*;

use crate::claim::{close_step, confirm_step, correct_step, direct_step, rescope_step};
use crate::claim_table::claim_named;
use crate::context::{claims_cost, compose};
use crate::digest::request_hash;
use crate::error::{ErrorModel, KernelErrorKind};
use crate::event::{
    append_event_step, event_named, event_refusal, event_request, redacted, stream_at,
};
use crate::json::json_quoted;
use crate::kind::{ClaimStatus, Labelled, RunStatus, ScopeKind, ViewKind};
use crate::law_accept::claim_is_new;
use crate::law_record::{holds_event, holds_scope, key_unused, scope_is_held, unused_key_is_free};
use crate::model::{
    CreateViewModel, NewEventModel, ObserverResultModel, ReadAccessModel, SearchHitModel,
};
use crate::observation::{
    claims_by_scope, commit_request, commit_step, events_after, fail_request, fail_step,
    plan_request, plan_step,
};
use crate::observer::result_refusal;
use crate::operation::{operation_keyed, prior, PriorModel};
use crate::privacy::{purge_claim_step, purge_event_step};
use crate::recall::{explained, recalled, search_refusal};
use crate::row::{ClaimRequestModel, MemoryStoreModel, RunRowModel};
use crate::scope::{
    create_scope_step, read_refusal, readable_from, scope_named, scope_request, visible_scopes,
};
use crate::stamp::StampModel;
use crate::table::{first_where_at, first_where_found, first_where_none};
use crate::text::{blank, debug_optional, decimal, trimmed, Text};
use crate::view::{
    create_view_step, latest_view_id, observation_named, run_at, view_refusal, view_request,
};

verus! {

/// Whether an answer is a refusal of a kind, with a message.
pub open spec fn refuses<V>(
    answer: Result<V, ErrorModel>,
    kind: KernelErrorKind,
    message: Text,
) -> bool {
    answer matches Err(error) && error.kind == kind && error.message == message
}

/// Whether there is an error, of a kind and with a message.
pub open spec fn says(error: Option<ErrorModel>, kind: KernelErrorKind, message: Text) -> bool {
    error matches Some(error) && error.kind == kind && error.message == message
}

/// Whether a used key declines a request, for a reason of a kind and with a message.
pub open spec fn declines(answer: PriorModel, kind: KernelErrorKind, message: Text) -> bool {
    answer matches PriorModel::Refused(error) && error.kind == kind && error.message == message
}

/// What a used key answers. For another operation, and for another request of its own operation,
/// it is a conflict; where its result was purged, that is said; and for its own request it is the
/// result.
pub proof fn used_keys_answer(
    store: MemoryStoreModel,
    key: Text,
    operation: Text,
    hash: Text,
    i: int,
)
    requires
        0 <= i < store.operations.len(),
        store.operations[i].key == key,
        forall|k: int| 0 <= k < i ==> (#[trigger] store.operations[k]).key != key,
    ensures
        ({
            let row = store.operations[i];
            let answer = prior(store, key, operation, hash);
            &&& row.operation != operation ==> declines(
                answer,
                KernelErrorKind::IdempotencyConflict,
                "idempotency key was already used for "@ + row.operation + ", not "@ + operation,
            )
            &&& row.operation == operation && row.result is None ==> declines(
                answer,
                KernelErrorKind::PrivacyPurged,
                "the prior result for this idempotency key was privacy-purged"@,
            )
            &&& row.operation == operation && row.result is Some && row.request_hash
                == Some(hash) ==> answer == PriorModel::Known(row.result.unwrap())
            &&& row.operation == operation && row.result is Some && row.request_hash is Some
                && row.request_hash != Some(hash) ==> declines(
                answer,
                KernelErrorKind::IdempotencyConflict,
                "idempotency conflict: this key was already used with different request input"@,
            )
        }),
{
    assert forall|k: int| 0 <= k < i implies !(operation_keyed(key))(
        #[trigger] store.operations[k],
    ) by {
        assert(store.operations[k].key != key);
    }
    first_where_at(store.operations, operation_keyed(key), i);
}

/// A blank text where one is needed is refused as invalid, and the refusal names it.
pub proof fn blank_texts_are_refused(
    store: MemoryStoreModel,
    event: NewEventModel,
    request: ClaimRequestModel,
    input: CreateViewModel,
    id: Text,
    query: Text,
    limit: int,
    stamp: StampModel,
)
    ensures
        blank(event.scope_id) ==> refuses(
            append_event_step(store, event, stamp).1,
            KernelErrorKind::InvalidInput,
            "scope id"@ + " cannot be empty"@,
        ),
        !blank(event.scope_id) && blank(event.stream_id) ==> refuses(
            append_event_step(store, event, stamp).1,
            KernelErrorKind::InvalidInput,
            "stream id"@ + " cannot be empty"@,
        ),
        blank(trimmed(request.subject)) ==> refuses(
            direct_step(store, request, id, stamp).1,
            KernelErrorKind::InvalidInput,
            "subject"@ + " cannot be empty"@,
        ),
        blank(input.content) ==> refuses(
            create_view_step(store, input, stamp).1,
            KernelErrorKind::InvalidInput,
            "view content"@ + " cannot be empty"@,
        ),
        blank(query) ==> says(
            search_refusal(store, id, query, limit),
            KernelErrorKind::InvalidInput,
            "search query"@ + " cannot be empty"@,
        ),
        blank(id) ==> refuses(
            purge_event_step(store, query, id, stamp).1,
            KernelErrorKind::InvalidInput,
            "idempotency key"@ + " cannot be empty"@,
        ) && refuses(
            purge_claim_step(store, query, id, stamp).1,
            KernelErrorKind::InvalidInput,
            "idempotency key"@ + " cannot be empty"@,
        ) && refuses(
            confirm_step(store, query, id, stamp).1,
            KernelErrorKind::InvalidInput,
            "idempotency key"@ + " cannot be empty"@,
        ),
{
}

/// An event for a scope that is not there is refused as not found, and one for a stream of another
/// scope as a violation of scopes.
pub proof fn misplaced_events_are_refused(
    store: MemoryStoreModel,
    event: NewEventModel,
    stamp: StampModel,
)
    requires
        event_refusal(event) is None,
        key_unused(store, event.idempotency_key),
    ensures
        !holds_scope(store, event.scope_id) ==> refuses(
            append_event_step(store, event, stamp).1,
            KernelErrorKind::NotFound,
            "scope "@ + event.scope_id + " does not exist"@,
        ),
        holds_scope(store, event.scope_id) && (stream_at(store, event.stream_id) matches Some(stream)
            && stream.scope_id != event.scope_id) ==> refuses(
            append_event_step(store, event, stamp).1,
            KernelErrorKind::ScopeViolation,
            "stream "@ + event.stream_id + " belongs to scope "@ + stream_at(
                store,
                event.stream_id,
            ).unwrap().scope_id + ", not "@ + event.scope_id,
        ),
{
    unused_key_is_free(
        store,
        event.idempotency_key,
        "event.append"@,
        request_hash("event.append"@, event_request(event)),
    );
    scope_is_held(store, event.scope_id);
}

/// A scope below one that is not there is refused as not found, and a scope that is its own parent
/// or is there already as invalid.
pub proof fn misplaced_scopes_are_refused(
    store: MemoryStoreModel,
    id: Text,
    kind: ScopeKind,
    parent_id: Option<Text>,
    name: Option<Text>,
    key: Text,
    stamp: StampModel,
)
    requires
        !blank(id),
        !blank(key),
        key_unused(store, key),
    ensures
        ({
            let answer = create_scope_step(store, id, kind, parent_id, name, key, stamp).1;
            &&& parent_id == Some(id) ==> refuses(
                answer,
                KernelErrorKind::InvalidInput,
                "a scope cannot be its own parent"@,
            )
            &&& parent_id matches Some(parent) ==> {
                parent != id && !holds_scope(store, parent) ==> refuses(
                    answer,
                    KernelErrorKind::NotFound,
                    "scope "@ + parent + " does not exist"@,
                )
            }
            &&& parent_id is None && holds_scope(store, id) ==> refuses(
                answer,
                KernelErrorKind::InvalidInput,
                "creating scope "@ + id,
            )
        }),
{
    unused_key_is_free(
        store,
        key,
        "scope.create"@,
        request_hash("scope.create"@, scope_request(id, kind, parent_id, name)),
    );
    scope_is_held(store, id);
    if let Some(parent) = parent_id {
        scope_is_held(store, parent);
    }
}

/// A command on a claim that is not there is refused as not found.
pub proof fn unknown_claims_are_refused(
    store: MemoryStoreModel,
    claim_id: Text,
    value: Text,
    event_ids: Seq<Text>,
    new_scope_id: Text,
    forget: bool,
    key: Text,
    stamp: StampModel,
    access: ReadAccessModel,
)
    requires
        claim_is_new(store, claim_id),
        key_unused(store, key),
        !blank(key),
        holds_scope(store, new_scope_id),
    ensures
        ({
            let message = "claim "@ + claim_id + " does not exist"@;
            let kind = KernelErrorKind::NotFound;
            &&& refuses(confirm_step(store, claim_id, key, stamp).1, kind, message)
            &&& refuses(
                correct_step(store, claim_id, value, event_ids, key, stamp).1,
                kind,
                message,
            )
            &&& refuses(
                rescope_step(store, claim_id, new_scope_id, key, stamp).1,
                kind,
                message,
            )
            &&& refuses(close_step(store, claim_id, forget, key, stamp).1, kind, message)
            &&& refuses(purge_claim_step(store, claim_id, key, stamp).1, kind, message)
            &&& refuses(explained(store, access, claim_id), kind, message)
        }),
{
    assert forall|k: int| 0 <= k < store.claims.len() implies !(claim_named(
        claim_id,
    ))(#[trigger] store.claims[k]) by {
        assert(store.claims[k].id != claim_id);
    }
    first_where_none(store.claims, claim_named(claim_id));
    assert forall|k: int| 0 <= k < store.operations.len() implies !(operation_keyed(key))(
        #[trigger] store.operations[k],
    ) by {
        assert(store.operations[k].key != key);
    }
    first_where_none(store.operations, operation_keyed(key));
    scope_is_held(store, new_scope_id);
}

/// A purge of an event that is not there, and a recall of the evidence of an observation that is
/// not there, are refused as not found.
pub proof fn unknown_events_are_refused(
    store: MemoryStoreModel,
    event_id: Text,
    observation_id: Text,
    key: Text,
    stamp: StampModel,
    access: ReadAccessModel,
)
    requires
        !holds_event(store, event_id),
        key_unused(store, key),
        !blank(key),
        forall|k: int|
            0 <= k < store.observations.len() ==> (#[trigger] store.observations[k]).id
                != observation_id,
    ensures
        refuses(
            purge_event_step(store, event_id, key, stamp).1,
            KernelErrorKind::NotFound,
            "event "@ + event_id + " does not exist"@,
        ),
        refuses(
            recalled(store, access, observation_id),
            KernelErrorKind::NotFound,
            "observation "@ + observation_id + " does not exist"@,
        ),
{
    unused_key_is_free(
        store,
        key,
        "event.purge"@,
        request_hash("event.purge"@, json_quoted(event_id)),
    );
    assert forall|k: int| 0 <= k < store.events.len() implies !(event_named(
        event_id,
    ))(#[trigger] store.events[k]) by {
        assert(store.events[k].id != event_id);
    }
    first_where_none(store.events, event_named(event_id));
    assert forall|k: int|
        0 <= k < store.observations.len() implies !(observation_named(observation_id))(
        #[trigger] store.observations[k],
    ) by {
        assert(store.observations[k].id != observation_id);
    }
    first_where_none(store.observations, observation_named(observation_id));
}

/// A record of a scope that cannot be read from the anchor is refused as a violation of scopes.
pub proof fn foreign_records_are_refused(
    store: MemoryStoreModel,
    access: ReadAccessModel,
    scope_id: Text,
)
    requires
        visible_scopes(store, access.anchor_scope_id) is Ok,
    ensures
        !readable_from(store, access.anchor_scope_id, scope_id) <==> read_refusal(
            store,
            access,
            scope_id,
        ) is Some,
        read_refusal(store, access, scope_id) matches Some(error) ==> error.kind is ScopeViolation
            && error.message == "record is not visible from scope "@ + access.anchor_scope_id,
{
}

/// A decision that the standing of its claim does not allow is refused as invalid, and the refusal
/// says what is allowed.
pub proof fn decided_claims_are_refused(
    store: MemoryStoreModel,
    forget: bool,
    key: Text,
    stamp: StampModel,
    i: int,
)
    requires
        key_unused(store, key),
        !blank(key),
        0 <= i < store.claims.len(),
        forall|k: int| 0 <= k < i ==> (#[trigger] store.claims[k]).id != store.claims[i].id,
    ensures
        ({
            let claim = store.claims[i];
            let waits = claim.status is Pending || claim.status is Disputed;
            &&& !waits ==> refuses(
                confirm_step(store, claim.id, key, stamp).1,
                KernelErrorKind::InvalidInput,
                "claim must be pending or disputed to confirm"@,
            )
            &&& !waits ==> refuses(
                close_step(store, claim.id, false, key, stamp).1,
                KernelErrorKind::InvalidInput,
                "claim must be pending or disputed to reject"@,
            )
            &&& !waits && !(claim.status is Active) ==> refuses(
                close_step(store, claim.id, true, key, stamp).1,
                KernelErrorKind::InvalidInput,
                "claim must be pending, active, or disputed to forget"@,
            )
        }),
{
    let named = claim_named(store.claims[i].id);
    assert forall|k: int| 0 <= k < i implies !named(#[trigger] store.claims[k]) by {
        assert(store.claims[k].id != store.claims[i].id);
    }
    first_where_at(store.claims, named, i);
    assert forall|k: int| 0 <= k < store.operations.len() implies !(operation_keyed(key))(
        #[trigger] store.operations[k],
    ) by {
        assert(store.operations[k].key != key);
    }
    first_where_none(store.operations, operation_keyed(key));
}

/// What committing or giving up a run that is not pending answers: that the run is stale where it
/// is, and else that the request is invalid. A run that is not there is not found.
pub proof fn settled_runs_are_refused(
    store: MemoryStoreModel,
    run_id: Text,
    result: ObserverResultModel,
    reason: Text,
    key: Text,
    stamp: StampModel,
)
    requires
        !blank(run_id),
        !blank(key),
        !blank(reason),
        reason.len() <= 200,
        key_unused(store, key),
        result_refusal(result) is None,
    ensures
        ({
            let commit = commit_step(store, run_id, result, key, stamp).1;
            let failure = fail_step(store, run_id, reason, key, stamp).1;
            match run_at(store, run_id) {
                None => {
                    let message = "observation run "@ + run_id + " does not exist"@;
                    &&& refuses(commit, KernelErrorKind::NotFound, message)
                    &&& refuses(failure, KernelErrorKind::NotFound, message)
                },
                Some(run) => !(run.status is Pending) ==> {
                    let kind = if run.status is Stale {
                        KernelErrorKind::StaleObservationRun
                    } else {
                        KernelErrorKind::InvalidInput
                    };
                    let message = "observation run "@ + run_id + " is "@ + run.status.label()
                        + ", not pending"@;
                    &&& refuses(commit, kind, message)
                    &&& refuses(failure, kind, message)
                },
            }
        }),
{
    unused_key_is_free(
        store,
        key,
        "observation.commit"@,
        request_hash("observation.commit"@, commit_request(run_id, result)),
    );
    unused_key_is_free(
        store,
        key,
        "observation.fail"@,
        request_hash("observation.fail"@, fail_request(run_id, reason)),
    );
}

/// A run whose stream was observed further since it was planned cannot be committed: it is refused
/// as stale, with both cursors, and becomes stale; nothing else changes.
pub proof fn overtaken_runs_become_stale(
    store: MemoryStoreModel,
    run_id: Text,
    result: ObserverResultModel,
    key: Text,
    stamp: StampModel,
)
    requires
        !blank(run_id),
        !blank(key),
        key_unused(store, key),
        result_refusal(result) is None,
        run_at(store, run_id) matches Some(run) && run.status is Pending,
        stream_at(store, run_at(store, run_id).unwrap().stream_id) matches Some(stream)
            && stream.observed_through_sequence != run_at(store, run_id).unwrap().cursor_at_plan,
    ensures
        ({
            let (after, answer) = commit_step(store, run_id, result, key, stamp);
            let run = run_at(store, run_id).unwrap();
            let found = stream_at(store, run.stream_id).unwrap().observed_through_sequence;
            &&& refuses(
                answer,
                KernelErrorKind::StaleObservationRun,
                "observation run "@ + run_id + " is stale: expected cursor "@ + decimal(
                    run.cursor_at_plan as int,
                ) + ", found "@ + decimal(found as int),
            )
            &&& after == (MemoryStoreModel { runs: after.runs, ..store })
            &&& after.runs.len() == store.runs.len()
            &&& forall|i: int|
                0 <= i < store.runs.len() ==> #[trigger] after.runs[i] == if store.runs[i].id
                    == run_id {
                    RunRowModel {
                        status: RunStatus::Stale,
                        error: Some("stream cursor advanced"@),
                        updated_at: stamp.at,
                        ..store.runs[i]
                    }
                } else {
                    store.runs[i]
                }
        }),
{
    unused_key_is_free(
        store,
        key,
        "observation.commit"@,
        request_hash("observation.commit"@, commit_request(run_id, result)),
    );
}

/// Planning is refused for a scope or a stream that is not there, for a stream of another scope,
/// and for a budget that the first waiting event does not fit, which the refusal names with what it
/// needs.
pub proof fn impossible_plans_are_refused(
    store: MemoryStoreModel,
    scope_id: Text,
    stream_id: Text,
    max_tokens: i64,
    observer_model: Text,
    prompt_version: Text,
    key: Text,
    stamp: StampModel,
)
    requires
        !blank(key),
        !blank(observer_model),
        !blank(prompt_version),
        key_unused(store, key),
    ensures
        ({
            let answer = plan_step(
                store,
                scope_id,
                stream_id,
                max_tokens,
                observer_model,
                prompt_version,
                key,
                stamp,
            ).1;
            &&& max_tokens <= 0 ==> refuses(
                answer,
                KernelErrorKind::InvalidInput,
                "max tokens must be positive"@,
            )
            &&& max_tokens > 0 && !holds_scope(store, scope_id) ==> refuses(
                answer,
                KernelErrorKind::NotFound,
                "scope "@ + scope_id + " does not exist"@,
            )
            &&& max_tokens > 0 && holds_scope(store, scope_id) ==> match stream_at(
                store,
                stream_id,
            ) {
                None => refuses(
                    answer,
                    KernelErrorKind::NotFound,
                    "stream "@ + stream_id + " does not exist"@,
                ),
                Some(stream) => {
                    let waiting = events_after(
                        store,
                        stream_id,
                        stream.observed_through_sequence as int,
                    );
                    let first = redacted(waiting[0]);
                    &&& stream.scope_id != scope_id ==> refuses(
                        answer,
                        KernelErrorKind::ScopeViolation,
                        "stream "@ + stream_id + " does not belong to scope "@ + scope_id,
                    )
                    &&& stream.scope_id == scope_id && waiting.len() > 0 && first.token_count
                        > max_tokens ==> refuses(
                        answer,
                        KernelErrorKind::BudgetExceeded,
                        "observation budget too small: minimumRequiredTokens="@ + decimal(
                            first.token_count as int,
                        ) + " for event "@ + waiting[0].id,
                    )
                },
            }
        }),
{
    unused_key_is_free(
        store,
        key,
        "observation.plan"@,
        request_hash(
            "observation.plan"@,
            plan_request(scope_id, stream_id, max_tokens, observer_model, prompt_version),
        ),
    );
    scope_is_held(store, scope_id);
    first_where_found(store.scopes, scope_named(scope_id));
}

/// A context is refused for budgets that make no sense, for a stream that is not there, for one
/// that lies neither above nor below the anchor, and for a budget that the active claims alone
/// exceed, which the refusal names with what they need.
pub proof fn impossible_contexts_are_refused(
    store: MemoryStoreModel,
    scope_id: Text,
    stream_id: Text,
    max_tokens: int,
    recent_raw_tokens: int,
    ranked: Seq<SearchHitModel>,
)
    ensures
        ({
            let answer = compose(
                store,
                scope_id,
                stream_id,
                max_tokens,
                recent_raw_tokens,
                ranked,
            );
            &&& max_tokens <= 0 ==> refuses(
                answer,
                KernelErrorKind::InvalidInput,
                "max tokens must be positive"@,
            )
            &&& max_tokens > 0 && recent_raw_tokens < 0 ==> refuses(
                answer,
                KernelErrorKind::InvalidInput,
                "recent raw tokens cannot be negative"@,
            )
            &&& max_tokens > 0 && recent_raw_tokens >= 0 ==> (visible_scopes(store, scope_id) matches Ok(
                visible,
            ) ==> match stream_at(store, stream_id) {
                None => refuses(
                    answer,
                    KernelErrorKind::NotFound,
                    "stream "@ + stream_id + " does not exist"@,
                ),
                Some(stream) => {
                    let below = visible_scopes(store, stream.scope_id) matches Ok(above)
                        && above.contains(scope_id);
                    let needed = claims_cost(claims_by_scope(store, visible, ClaimStatus::Active));
                    &&& visible_scopes(store, stream.scope_id) is Ok && !visible.contains(
                        stream.scope_id,
                    ) && !below ==> refuses(
                        answer,
                        KernelErrorKind::ScopeViolation,
                        "stream "@ + stream_id + " is not visible from scope "@ + scope_id,
                    )
                    &&& (visible.contains(stream.scope_id) || below) && needed > max_tokens
                        ==> refuses(
                        answer,
                        KernelErrorKind::BudgetExceeded,
                        "context budget too small: minimumRequiredTokens="@ + decimal(needed)
                            + " for active claims"@,
                    )
                },
            })
        }),
{
}

/// A view that does not follow the latest one of its stream is refused as stale, and the refusal
/// names both.
pub proof fn overtaken_views_are_refused(
    store: MemoryStoreModel,
    input: CreateViewModel,
    stamp: StampModel,
)
    requires
        key_unused(store, input.idempotency_key),
        view_refusal(input) is None,
        holds_scope(store, input.scope_id),
    ensures
        ({
            let answer = create_view_step(store, input, stamp).1;
            let latest = latest_view_id(store, input.stream_id, ViewKind::Continuity);
            match stream_at(store, input.stream_id) {
                None => refuses(
                    answer,
                    KernelErrorKind::NotFound,
                    "stream "@ + input.stream_id + " does not exist"@,
                ),
                Some(stream) => {
                    &&& stream.scope_id != input.scope_id ==> refuses(
                        answer,
                        KernelErrorKind::ScopeViolation,
                        "stream "@ + input.stream_id + " belongs to scope "@ + stream.scope_id
                            + ", not "@ + input.scope_id,
                    )
                    &&& stream.scope_id == input.scope_id && latest
                        != input.expected_previous_view_id ==> refuses(
                        answer,
                        KernelErrorKind::StaleView,
                        "view is stale: expected previous view "@ + debug_optional(
                            input.expected_previous_view_id,
                        ) + ", found "@ + debug_optional(latest),
                    )
                },
            }
        }),
{
    unused_key_is_free(
        store,
        input.idempotency_key,
        "view.create"@,
        request_hash("view.create"@, view_request(input)),
    );
    scope_is_held(store, input.scope_id);
}

/// A search for no or for too many hits is refused as invalid.
pub proof fn search_limits_are_refused(
    store: MemoryStoreModel,
    scope_id: Text,
    query: Text,
    limit: int,
)
    requires
        !blank(query),
        limit < 1 || limit > 1000,
    ensures
        says(
            search_refusal(store, scope_id, query, limit),
            KernelErrorKind::InvalidInput,
            "search limit must be from 1 to 1000"@,
        ),
{
}

} // verus!
