//! Observation runs: planning, committing and failing them, and looking at them.

use vstd::prelude::*;

use crate::claim_table::{
    add_links, claim_named, claims_in, linked_all, with_claim, with_sources, ClaimNamed,
};
use crate::digest::{hash_json, json_hash, operation_request_hash, request_hash};
use crate::error::{failure, invalid, missing, seen, violation, ErrorModel, KernelError, KernelErrorKind};
use crate::event::{
    event_named, event_order, events_between, id_clash, id_clash_error, no_stream,
    no_stream_error, redact_for_agent, redacted, stream_at, EventNamed, EventOrder, StreamNamed,
};
use crate::json::{
    add_field, array_text, json_quoted, object_text, quote, write_array, write_object,
};
use crate::kind::{
    ClaimAuthority, ClaimStatus, ContinuationAction, Labelled, RunStatus, SourceIntegrity, ViewKind,
};
use crate::model::{
    Claim, ClaimDraft, ClaimDraftModel, ClaimModel, MemoryEvent, MemoryEventModel, MemoryView,
    MemoryViewModel, MutationModel, MutationResult, Observation, ObservationCommit,
    ObservationCommitModel, ObservationDraft, ObservationDraftModel, ObservationFailure,
    ObservationFailureModel, ObservationModel, ObservationPlan, ObservationPlanModel,
    ObservationPlanOutcome, ObservationPlanOutcomeModel, ObservationRunInfo,
    ObservationRunInfoModel, ObserverResult, ObserverResultModel, ReadAccess, Scope, StreamStatus,
    StreamStatusModel, caught_up_outcome, ready_outcome,
};
use crate::observer::{
    continuation_text, nothing_found, observer_result_is_completely_empty, provenance_refusal,
    render_continuation, result_json, result_refusal, validate_observer_result, validate_provenance,
    write_result,
};
use crate::operation::{
    prior, required, saved, unreadable, unreadable_error, validate_nonempty, Prior, PriorModel,
};
use crate::order::{ordered, sort_rows, KeyModel, OrderKey, RowKey};
use crate::row::{
    IndexRowModel, MemoryStore, MemoryStoreModel, RunPatch, RunPatchModel, RunRow, RunRowModel,
    StoredResult, StoredResultModel, StreamRow, StreamRowModel, ViewRow,
};
use crate::scope::{no_scope, read_refusal, readable_from, scope_at, visible_scopes};
use crate::stamp::{draw_stamp, drawn, Stamp, StampModel};
use crate::table::{
    any_row, change_rows, filter_agrees, find_row, first_row, first_where, first_where_found,
    last_row, push_row, select_rows, some_row, take_last, Duplicate, RowChange, RowTest,
};
use crate::text::{
    concat2, concat3, concat4, concat5, concat6, decimal, estimate_tokens, is_listed, join_text, joined,
    listed, number_text, position, position_of, same_text, token_estimate, trim_text, trimmed, Text,
};
use crate::view::{
    all_distinct, generation_refusal, latest_view, next_view, observation_named, run_at, run_named,
    view_clash, with_view, ObservationNamed, RunNamed, ViewContent, ViewContentModel,
};

verus! {

pub open spec fn event_after(stream_id: Text, cursor: int) -> spec_fn(MemoryEventModel) -> bool {
    |event: MemoryEventModel| event.stream_id == stream_id && event.sequence > cursor
}

/// The events of a stream behind a sequence number, in order.
pub open spec fn events_after(store: MemoryStoreModel, stream_id: Text, cursor: int) -> Seq<
    MemoryEventModel,
> {
    ordered(store.events.filter(event_after(stream_id, cursor)), event_order())
}

pub open spec fn redacted_event() -> spec_fn(MemoryEventModel) -> MemoryEventModel {
    |event: MemoryEventModel| redacted(event)
}

/// What an event or view costs; stored counts are never negative.
pub open spec fn cost(token_count: i64) -> int {
    if token_count < 0 {
        0
    } else {
        token_count as int
    }
}

/// How many events a plan takes: the first one, and further ones as long as they fit the budget.
pub open spec fn planned(events: Seq<MemoryEventModel>, taken: int, spent: int, budget: int) -> int
    decreases events.len() - taken,
{
    if taken < 0 || taken >= events.len() {
        taken
    } else {
        let next = spent + cost(events[taken].token_count);
        if taken > 0 && next > budget {
            taken
        } else if next >= budget {
            taken + 1
        } else {
            planned(events, taken + 1, next, budget)
        }
    }
}

/// Claims ordered by the position of their scopes in a list.
pub open spec fn scope_position(scope_ids: Seq<Text>) -> spec_fn(ClaimModel) -> KeyModel {
    |claim: ClaimModel|
        KeyModel {
            major: position(scope_ids, claim.scope_id),
            first: Seq::empty(),
            second: Seq::empty(),
            minor: 0,
        }
}

/// The claims of the visible scopes, those of the outer scopes first.
pub open spec fn claims_by_scope(
    store: MemoryStoreModel,
    visible: Seq<Text>,
    status: ClaimStatus,
) -> Seq<ClaimModel> {
    ordered(claims_in(store, visible, Some(status)), scope_position(visible))
}

pub open spec fn plan_request(
    scope_id: Text,
    stream_id: Text,
    max_tokens: i64,
    observer_model: Text,
    prompt_version: Text,
) -> Text {
    object_text(
        seq![
            ("maxTokens"@, decimal(max_tokens as int)),
            ("observerModel"@, json_quoted(observer_model)),
            ("promptVersion"@, json_quoted(prompt_version)),
            ("scopeId"@, json_quoted(scope_id)),
            ("streamId"@, json_quoted(stream_id)),
        ],
    )
}

/// The run that a plan opens.
pub open spec fn planned_run(
    id: Text,
    stream: StreamRowModel,
    from_sequence: i64,
    to_sequence: i64,
    observer_model: Text,
    prompt_version: Text,
    at: Text,
) -> RunRowModel {
    RunRowModel {
        id,
        scope_id: stream.scope_id,
        stream_id: stream.id,
        cursor_at_plan: stream.observed_through_sequence,
        from_sequence,
        to_sequence,
        status: RunStatus::Pending,
        source_integrity: SourceIntegrity::Intact,
        observer_model,
        prompt_version,
        ambiguities: Seq::empty(),
        error: None,
        created_at: at,
        updated_at: at,
    }
}

pub open spec fn plan_view(
    store: MemoryStoreModel,
    stream_id: Text,
) -> Option<MemoryViewModel> {
    match latest_view(store, stream_id, ViewKind::Continuation) {
        Some(row) => Some(row.view),
        None => None,
    }
}

pub type PlanResult = Result<MutationModel<ObservationPlanOutcomeModel>, ErrorModel>;

/// What planning an observation does and answers: the redacted events behind the stream's cursor,
/// as far as they fit the budget, are handed out under a pending run. The stamp holds one
/// identifier.
pub open spec fn plan_step(
    store: MemoryStoreModel,
    scope_id: Text,
    stream_id: Text,
    max_tokens: i64,
    observer_model: Text,
    prompt_version: Text,
    key: Text,
    stamp: StampModel,
) -> (MemoryStoreModel, PlanResult) {
    let hash = request_hash(
        "observation.plan"@,
        plan_request(scope_id, stream_id, max_tokens, observer_model, prompt_version),
    );
    if max_tokens <= 0 {
        (store, Err(invalid("max tokens must be positive"@)))
    } else if let Some(error) = required("observer model"@, observer_model) {
        (store, Err(error))
    } else if let Some(error) = required("prompt version"@, prompt_version) {
        (store, Err(error))
    } else if let Some(error) = required("idempotency key"@, key) {
        (store, Err(error))
    } else {
        match prior(store, key, "observation.plan"@, hash) {
            PriorModel::Refused(error) => (store, Err(error)),
            PriorModel::Known(StoredResultModel::Plan(outcome)) => (
                store,
                Ok(MutationModel { data: outcome, replayed: true }),
            ),
            PriorModel::Known(_) => (store, Err(unreadable(key))),
            PriorModel::Fresh => match (scope_at(store.scopes, scope_id), stream_at(store, stream_id)) {
                (None, _) => (store, Err(no_scope(scope_id))),
                (Some(_), None) => (store, Err(no_stream(stream_id))),
                (Some(scope), Some(stream)) => if stream.scope_id != scope_id {
                    (
                        store,
                        Err(
                            violation(
                                "stream "@ + stream_id + " does not belong to scope "@ + scope_id,
                            ),
                        ),
                    )
                } else {
                    let cursor = stream.observed_through_sequence;
                    let events = events_after(store, stream_id, cursor as int).map_values(
                        redacted_event(),
                    );
                    let taken = planned(events, 0, 0, max_tokens as int);
                    let selected = events.take(taken);
                    if events.len() == 0 {
                        let outcome = caught_up_outcome(scope_id, stream_id, cursor);
                        (
                            saved(
                                store,
                                key,
                                "observation.plan"@,
                                hash,
                                StoredResultModel::Plan(outcome),
                            ),
                            Ok(MutationModel { data: outcome, replayed: false }),
                        )
                    } else if events[0].token_count > max_tokens {
                        (
                            store,
                            Err(
                                failure(
                                    KernelErrorKind::BudgetExceeded,
                                    "observation budget too small: minimumRequiredTokens="@ + decimal(
                                        events[0].token_count as int,
                                    ) + " for event "@ + events[0].id,
                                ),
                            ),
                        )
                    } else if some_row(store.runs, run_named(stamp.ids[0])) {
                        (store, Err(id_clash("observation_runs.id"@)))
                    } else {
                        match visible_scopes(store, scope_id) {
                            Err(error) => (store, Err(error)),
                            Ok(visible) => {
                                let run = planned_run(
                                    stamp.ids[0],
                                    stream,
                                    selected[0].sequence,
                                    selected.last().sequence,
                                    observer_model,
                                    prompt_version,
                                    stamp.at,
                                );
                                let outcome = ready_outcome(
                                    ObservationPlanModel {
                                        run_id: run.id,
                                        scope,
                                        stream_id,
                                        from_sequence: run.from_sequence,
                                        to_sequence: run.to_sequence,
                                        events: selected,
                                        active_claims: claims_by_scope(
                                            store,
                                            visible,
                                            ClaimStatus::Active,
                                        ),
                                        previous_continuation: plan_view(store, stream_id),
                                    },
                                );
                                (
                                    saved(
                                        MemoryStoreModel { runs: store.runs.push(run), ..store },
                                        key,
                                        "observation.plan"@,
                                        hash,
                                        StoredResultModel::Plan(outcome),
                                    ),
                                    Ok(MutationModel { data: outcome, replayed: false }),
                                )
                            },
                        }
                    }
                },
            },
        }
    }
}

pub open spec fn no_run(id: Text) -> ErrorModel {
    missing("observation run "@ + id + " does not exist"@)
}

/// The error for a run that is no longer pending.
pub open spec fn not_pending(id: Text, status: RunStatus) -> ErrorModel {
    failure(
        if status is Stale {
            KernelErrorKind::StaleObservationRun
        } else {
            KernelErrorKind::InvalidInput
        },
        "observation run "@ + id + " is "@ + status.label() + ", not pending"@,
    )
}

pub open spec fn stale_run(id: Text, expected: i64, found: i64) -> ErrorModel {
    failure(
        KernelErrorKind::StaleObservationRun,
        "observation run "@ + id + " is stale: expected cursor "@ + decimal(expected as int)
            + ", found "@ + decimal(found as int),
    )
}

/// A run with its standing changed; other runs stay as they are.
pub open spec fn run_patched(id: Text, patch: RunPatchModel) -> spec_fn(RunRowModel) -> RunRowModel {
    |run: RunRowModel|
        if run.id == id {
            RunRowModel {
                status: patch.status,
                error: patch.error,
                ambiguities: match patch.ambiguities {
                    Some(ambiguities) => ambiguities,
                    None => run.ambiguities,
                },
                updated_at: patch.at,
                ..run
            }
        } else {
            run
        }
}

pub open spec fn with_run_patch(
    store: MemoryStoreModel,
    id: Text,
    patch: RunPatchModel,
) -> MemoryStoreModel {
    MemoryStoreModel { runs: store.runs.map_values(run_patched(id, patch)), ..store }
}

/// A stream observed up to a sequence number; other streams stay as they are.
pub open spec fn observed_through(id: Text, sequence: i64) -> spec_fn(
    StreamRowModel,
) -> StreamRowModel {
    |stream: StreamRowModel|
        if stream.id == id {
            StreamRowModel { observed_through_sequence: sequence, ..stream }
        } else {
            stream
        }
}

/// The sequence number of an event of a list.
pub open spec fn sequence_in(sources: Seq<MemoryEventModel>) -> spec_fn(Text) -> int {
    |id: Text|
        match first_where(sources, event_named(id)) {
            Some(event) => event.sequence as int,
            None => 0,
        }
}

/// The lowest of some numbers.
pub open spec fn lowest(numbers: Seq<int>) -> int
    decreases numbers.len(),
{
    if numbers.len() <= 1 {
        numbers[0]
    } else {
        let low = lowest(numbers.drop_last());
        if numbers.last() < low {
            numbers.last()
        } else {
            low
        }
    }
}

/// The highest of some numbers.
pub open spec fn highest(numbers: Seq<int>) -> int
    decreases numbers.len(),
{
    if numbers.len() <= 1 {
        numbers[0]
    } else {
        let high = highest(numbers.drop_last());
        if numbers.last() > high {
            numbers.last()
        } else {
            high
        }
    }
}

/// The observation that a run makes of a draft.
pub open spec fn observed(
    run: RunRowModel,
    sources: Seq<MemoryEventModel>,
    draft: ObservationDraftModel,
    id: Text,
    at: Text,
) -> ObservationModel {
    let sequences = draft.source_event_ids.map_values(sequence_in(sources));
    ObservationModel {
        id,
        run_id: run.id,
        scope_id: run.scope_id,
        kind: draft.kind,
        content: trimmed(draft.content),
        importance: draft.importance.number,
        confidence: draft.confidence.number,
        event_time_from: draft.event_time_from,
        event_time_to: draft.event_time_to,
        source_start_sequence: lowest(sequences) as i64,
        source_end_sequence: highest(sequences) as i64,
        observer_model: run.observer_model,
        prompt_version: run.prompt_version,
        created_at: at,
    }
}

/// The memory with an observation added, linked to its evidence and indexed.
pub open spec fn with_observation(
    store: MemoryStoreModel,
    observation: ObservationModel,
    event_ids: Seq<Text>,
) -> MemoryStoreModel {
    MemoryStoreModel {
        observations: store.observations.push(observation),
        observation_sources: linked_all(store.observation_sources, observation.id, event_ids),
        index: store.index.push(
            IndexRowModel {
                record_type: "observation"@,
                record_id: observation.id,
                scope_id: observation.scope_id,
                text: observation.content,
            },
        ),
        ..store
    }
}

/// The observations that a run makes of drafts.
pub open spec fn all_observed(
    run: RunRowModel,
    sources: Seq<MemoryEventModel>,
    drafts: Seq<ObservationDraftModel>,
    ids: Seq<Text>,
    at: Text,
) -> Seq<ObservationModel> {
    Seq::new(drafts.len(), |i: int| observed(run, sources, drafts[i], ids[i], at))
}

/// The memory with observations added, one after the other.
pub open spec fn with_observations(
    store: MemoryStoreModel,
    made: Seq<ObservationModel>,
    drafts: Seq<ObservationDraftModel>,
) -> MemoryStoreModel
    decreases made.len(),
{
    if made.len() == 0 || drafts.len() == 0 {
        store
    } else {
        with_observation(
            with_observations(store, made.drop_last(), drafts.drop_last()),
            made.last(),
            drafts.last().source_event_ids,
        )
    }
}

/// The claim that a run makes of a draft. It is pending, on the word of the model alone.
pub open spec fn drafted(run: RunRowModel, draft: ClaimDraftModel, id: Text, at: Text) -> ClaimModel {
    ClaimModel {
        id,
        origin_run_id: Some(run.id),
        scope_id: run.scope_id,
        kind: draft.kind,
        subject: trimmed(draft.subject),
        predicate: trimmed(draft.predicate),
        cardinality: draft.cardinality,
        value: draft.value,
        value_hash: json_hash(draft.value),
        modality: draft.modality,
        status: ClaimStatus::Pending,
        authority: ClaimAuthority::ModelInference,
        confidence: draft.confidence.number,
        supersedes_id: None,
        created_at: at,
        updated_at: at,
    }
}

pub open spec fn all_drafted(
    run: RunRowModel,
    drafts: Seq<ClaimDraftModel>,
    ids: Seq<Text>,
    at: Text,
) -> Seq<ClaimModel> {
    Seq::new(drafts.len(), |i: int| drafted(run, drafts[i], ids[i], at))
}

/// The memory with drafted claims added, one after the other.
pub open spec fn with_drafted(
    store: MemoryStoreModel,
    made: Seq<ClaimModel>,
    drafts: Seq<ClaimDraftModel>,
) -> MemoryStoreModel
    decreases made.len(),
{
    if made.len() == 0 || drafts.len() == 0 {
        store
    } else {
        with_sources(
            with_claim(with_drafted(store, made.drop_last(), drafts.drop_last()), made.last()),
            made.last().id,
            drafts.last().source_event_ids,
        )
    }
}

pub open spec fn observation_id() -> spec_fn(ObservationModel) -> Text {
    |observation: ObservationModel| observation.id
}

pub open spec fn claim_id() -> spec_fn(ClaimModel) -> Text {
    |claim: ClaimModel| claim.id
}

/// What is left to do after a commit: to decide on every claim that it made.
pub open spec fn next_required_action(claims: Seq<ClaimModel>) -> Option<Text> {
    if claims.len() == 0 {
        None
    } else {
        Some(
            "review observer claims ["@ + joined(claims.map_values(claim_id()), ","@)
                + "]; explicitly run `omk claim confirm --id <claim-id> --idempotency-key <key>` or `omk claim reject --id <claim-id> --idempotency-key <key>` for each"@,
        )
    }
}

/// The continuation view that a run creates.
pub open spec fn continuation_content(
    run: RunRowModel,
    result: ObserverResultModel,
) -> ViewContentModel {
    ViewContentModel {
        scope_id: run.scope_id,
        stream_id: run.stream_id,
        kind: ViewKind::Continuation,
        content: continuation_text(result.continuation),
        from: run.from_sequence,
        through: run.to_sequence,
        model: Some(run.observer_model),
        prompt_version: Some(run.prompt_version),
        token_count: token_estimate(continuation_text(result.continuation)) as i64,
        continuation: Some(result.continuation),
    }
}

/// Whether a commit leaves the continuation view as it is: the observer found nothing, and there
/// is a continuation to keep.
pub open spec fn keeps_continuation(
    store: MemoryStoreModel,
    run: RunRowModel,
    result: ObserverResultModel,
) -> bool {
    nothing_found(result) && latest_view(store, run.stream_id, ViewKind::Continuation) is Some
}

pub open spec fn commit_request(run_id: Text, result: ObserverResultModel) -> Text {
    array_text(seq![json_quoted(run_id), result_json(result)])
}

pub open spec fn observations_repeat(drafts: Seq<ObservationDraftModel>) -> bool {
    exists|i: int|
        0 <= i < drafts.len() && !(#[trigger] drafts[i]).source_event_ids.no_duplicates()
}

pub open spec fn claims_repeat(drafts: Seq<ClaimDraftModel>) -> bool {
    exists|i: int|
        0 <= i < drafts.len() && !(#[trigger] drafts[i]).source_event_ids.no_duplicates()
}

/// The error for a result that a run cannot take in, if it cannot.
pub open spec fn commit_refusal(
    store: MemoryStoreModel,
    run: RunRowModel,
    result: ObserverResultModel,
    ids: Seq<Text>,
) -> Option<ErrorModel> {
    let observed = result.observations.len() as int;
    let sources = events_between(
        store,
        run.stream_id,
        run.from_sequence as int,
        run.to_sequence as int,
    );
    if let Some(error) = provenance_refusal(result, sources) {
        Some(error)
    } else if observations_repeat(result.observations) {
        Some(
            invalid(
                "UNIQUE constraint failed: observation_sources.observation_id, observation_sources.event_id"@,
            ),
        )
    } else if claims_repeat(result.claims) {
        Some(
            invalid("UNIQUE constraint failed: claim_sources.claim_id, claim_sources.event_id"@),
        )
    } else if !observation_ids_new(store, ids.subrange(0, observed)) {
        Some(id_clash("observations.id"@))
    } else if !claim_ids_new(store, ids.subrange(observed, observed + result.claims.len())) {
        Some(id_clash("claims.id"@))
    } else if keeps_continuation(store, run, result) {
        None
    } else if let Some(error) = generation_refusal(
        store,
        run.stream_id,
        ViewKind::Continuation,
    ) {
        Some(error)
    } else {
        view_clash(store, ids.last())
    }
}

/// Whether some identifiers differ from each other and from those of the observations.
pub open spec fn observation_ids_new(store: MemoryStoreModel, ids: Seq<Text>) -> bool {
    &&& ids.no_duplicates()
    &&& forall|i: int|
        0 <= i < ids.len() ==> !some_row(store.observations, observation_named(#[trigger] ids[i]))
}

/// Whether some identifiers differ from each other and from those of the claims.
pub open spec fn claim_ids_new(store: MemoryStoreModel, ids: Seq<Text>) -> bool {
    &&& ids.no_duplicates()
    &&& forall|i: int|
        0 <= i < ids.len() ==> !some_row(store.claims, claim_named(#[trigger] ids[i]))
}

/// What a run records of a result: the memory after it, and the commit.
pub open spec fn committed(
    store: MemoryStoreModel,
    run: RunRowModel,
    result: ObserverResultModel,
    stamp: StampModel,
) -> (MemoryStoreModel, ObservationCommitModel) {
    let sources = events_between(
        store,
        run.stream_id,
        run.from_sequence as int,
        run.to_sequence as int,
    );
    let observations = all_observed(
        run,
        sources,
        result.observations,
        stamp.ids,
        stamp.at,
    );
    let claims = all_drafted(
        run,
        result.claims,
        stamp.ids.skip(result.observations.len() as int),
        stamp.at,
    );
    let derived = with_drafted(
        with_observations(store, observations, result.observations),
        claims,
        result.claims,
    );
    let kept = keeps_continuation(store, run, result);
    let row = if kept {
        latest_view(store, run.stream_id, ViewKind::Continuation).unwrap()
    } else {
        next_view(derived, continuation_content(run, result), stamp.ids.last(), stamp.at)
    };
    let viewed = if kept {
        derived
    } else {
        with_view(derived, row, observations.map_values(observation_id()))
    };
    let advanced = MemoryStoreModel {
        streams: viewed.streams.map_values(observed_through(run.stream_id, run.to_sequence)),
        ..viewed
    };
    (
        with_run_patch(
            advanced,
            run.id,
            RunPatchModel {
                status: RunStatus::Committed,
                error: None,
                ambiguities: Some(result.ambiguities),
                at: stamp.at,
            },
        ),
        ObservationCommitModel {
            run_id: run.id,
            observations,
            claims,
            continuation_view: row.view,
            continuation_action: if kept {
                ContinuationAction::Preserved
            } else {
                ContinuationAction::Created
            },
            ambiguities: result.ambiguities,
            next_required_action: next_required_action(claims),
        },
    )
}

pub type CommitResult = Result<MutationModel<ObservationCommitModel>, ErrorModel>;

/// How many identifiers a commit takes: one for each observation and claim, one for the view.
pub open spec fn commit_ids(result: ObserverResultModel) -> nat {
    result.observations.len() + result.claims.len() + 1
}

/// What committing a result does and answers. A run whose stream was observed further since it was
/// planned becomes stale and records nothing else.
pub open spec fn commit_step(
    store: MemoryStoreModel,
    run_id: Text,
    result: ObserverResultModel,
    key: Text,
    stamp: StampModel,
) -> (MemoryStoreModel, CommitResult) {
    let hash = request_hash("observation.commit"@, commit_request(run_id, result));
    if let Some(error) = required("run id"@, run_id) {
        (store, Err(error))
    } else if let Some(error) = required("idempotency key"@, key) {
        (store, Err(error))
    } else if let Some(error) = result_refusal(result) {
        (store, Err(error))
    } else {
        match prior(store, key, "observation.commit"@, hash) {
            PriorModel::Refused(error) => (store, Err(error)),
            PriorModel::Known(StoredResultModel::Commit(commit)) => (
                store,
                Ok(MutationModel { data: commit, replayed: true }),
            ),
            PriorModel::Known(_) => (store, Err(unreadable(key))),
            PriorModel::Fresh => match run_at(store, run_id) {
                None => (store, Err(no_run(run_id))),
                Some(run) => if !(run.status is Pending) {
                    (store, Err(not_pending(run_id, run.status)))
                } else {
                    match stream_at(store, run.stream_id) {
                        None => (store, Err(no_stream(run.stream_id))),
                        Some(stream) => if stream.observed_through_sequence != run.cursor_at_plan {
                            (
                                with_run_patch(
                                    store,
                                    run_id,
                                    RunPatchModel {
                                        status: RunStatus::Stale,
                                        error: Some("stream cursor advanced"@),
                                        ambiguities: None,
                                        at: stamp.at,
                                    },
                                ),
                                Err(
                                    stale_run(
                                        run_id,
                                        run.cursor_at_plan,
                                        stream.observed_through_sequence,
                                    ),
                                ),
                            )
                        } else if let Some(error) = commit_refusal(store, run, result, stamp.ids) {
                            (store, Err(error))
                        } else {
                            let (after, commit) = committed(store, run, result, stamp);
                            (
                                saved(
                                    after,
                                    key,
                                    "observation.commit"@,
                                    hash,
                                    StoredResultModel::Commit(commit),
                                ),
                                Ok(MutationModel { data: commit, replayed: false }),
                            )
                        },
                    }
                },
            },
        }
    }
}

pub open spec fn fail_request(run_id: Text, reason: Text) -> Text {
    array_text(seq![json_quoted(run_id), json_quoted(reason)])
}

/// What giving a run up does and answers.
pub open spec fn fail_step(
    store: MemoryStoreModel,
    run_id: Text,
    reason: Text,
    key: Text,
    stamp: StampModel,
) -> (MemoryStoreModel, Result<MutationModel<ObservationFailureModel>, ErrorModel>) {
    let hash = request_hash("observation.fail"@, fail_request(run_id, reason));
    if let Some(error) = required("run id"@, run_id) {
        (store, Err(error))
    } else if let Some(error) = required("failure reason"@, reason) {
        (store, Err(error))
    } else if let Some(error) = required("idempotency key"@, key) {
        (store, Err(error))
    } else if reason.len() > 200 {
        (store, Err(invalid("failure reason must be at most 200 characters"@)))
    } else {
        match prior(store, key, "observation.fail"@, hash) {
            PriorModel::Refused(error) => (store, Err(error)),
            PriorModel::Known(StoredResultModel::Failure(known)) => (
                store,
                Ok(MutationModel { data: known, replayed: true }),
            ),
            PriorModel::Known(_) => (store, Err(unreadable(key))),
            PriorModel::Fresh => match run_at(store, run_id) {
                None => (store, Err(no_run(run_id))),
                Some(run) => if !(run.status is Pending) {
                    (store, Err(not_pending(run_id, run.status)))
                } else {
                    let done = ObservationFailureModel { run_id, status: "failed"@, reason };
                    let patch = RunPatchModel {
                        status: RunStatus::Failed,
                        error: Some(reason),
                        ambiguities: None,
                        at: stamp.at,
                    };
                    (
                        saved(
                            with_run_patch(store, run_id, patch),
                            key,
                            "observation.fail"@,
                            hash,
                            StoredResultModel::Failure(done),
                        ),
                        Ok(MutationModel { data: done, replayed: false }),
                    )
                },
            },
        }
    }
}

/// What can be done about a run.
pub open spec fn run_next_action(integrity: SourceIntegrity, status: RunStatus) -> Option<Text> {
    if integrity is PrivacyPurged && status is Committed {
        Some(
            "derived records depending on purged evidence were removed; append replacement evidence if needed"@,
        )
    } else if integrity is PrivacyPurged || status is Stale {
        Some("request a new observation plan"@)
    } else if status is Failed {
        Some("inspect the error and request a new observation plan"@)
    } else {
        None
    }
}

/// A run as it is shown to callers.
pub open spec fn run_info() -> spec_fn(RunRowModel) -> ObservationRunInfoModel {
    |run: RunRowModel|
        ObservationRunInfoModel {
            id: run.id,
            scope_id: run.scope_id,
            stream_id: run.stream_id,
            cursor_at_plan: run.cursor_at_plan,
            from_sequence: run.from_sequence,
            to_sequence: run.to_sequence,
            status: run.status.label(),
            source_integrity: run.source_integrity,
            observer_model: run.observer_model,
            prompt_version: run.prompt_version,
            ambiguities: run.ambiguities,
            error: run.error,
            next_action: run_next_action(run.source_integrity, run.status),
            created_at: run.created_at,
            updated_at: run.updated_at,
        }
}

/// The runs of a stream, or of all streams, with some status, or any, that can be read from a
/// scope.
pub open spec fn run_listed(
    store: MemoryStoreModel,
    anchor: Text,
    stream_id: Option<Text>,
    status: Option<Text>,
) -> spec_fn(RunRowModel) -> bool {
    |run: RunRowModel|
        {
            &&& stream_id matches Some(id) ==> run.stream_id == id
            &&& status matches Some(label) ==> run.status.label() == label
            &&& readable_from(store, anchor, run.scope_id)
        }
}

pub open spec fn run_age() -> spec_fn(RunRowModel) -> KeyModel {
    |run: RunRowModel| KeyModel { major: 0, first: run.created_at, second: run.id, minor: 0 }
}

/// The runs of a stream and a status, as far as these are given.
pub open spec fn run_wanted(stream_id: Option<Text>, status: Option<Text>) -> spec_fn(
    RunRowModel,
) -> bool {
    |run: RunRowModel|
        {
            &&& stream_id matches Some(id) ==> run.stream_id == id
            &&& status matches Some(label) ==> run.status.label() == label
        }
}

pub open spec fn no_run_status(label: Text) -> ErrorModel {
    invalid("invalid observation run status "@ + label)
}

/// The runs that a listing shows, by age.
pub open spec fn runs_listed(
    store: MemoryStoreModel,
    anchor: Text,
    stream_id: Option<Text>,
    status: Option<Text>,
) -> Seq<ObservationRunInfoModel> {
    ordered(
        store.runs.filter(run_listed(store, anchor, stream_id, status)),
        run_age(),
    ).map_values(run_info())
}

pub open spec fn is_run_status(label: Text) -> bool {
    exists|status: RunStatus| #[trigger] status.label() == label
}

/// The highest sequence number of a stream's events.
pub open spec fn last_sequence(store: MemoryStoreModel, stream_id: Text) -> Option<i64> {
    match last_row(events_between(store, stream_id, i64::MIN as int, i64::MAX as int)) {
        Some(event) => Some(event.sequence),
        None => None,
    }
}

pub struct EventAfter<'a> {
    pub stream_id: &'a str,
    pub cursor: i64,
}

impl<'a> RowTest<MemoryEvent> for EventAfter<'a> {
    open spec fn accepts(&self) -> spec_fn(MemoryEventModel) -> bool {
        event_after(self.stream_id@, self.cursor as int)
    }

    fn test(&self, row: &MemoryEvent) -> (b: bool) {
        same_text(row.stream_id.as_str(), self.stream_id) && row.sequence > self.cursor
    }
}

pub struct ScopePosition<'a> {
    pub scope_ids: &'a Vec<String>,
}

impl<'a> RowKey<Claim> for ScopePosition<'a> {
    open spec fn key(&self) -> spec_fn(ClaimModel) -> KeyModel {
        scope_position(self.scope_ids.deep_view())
    }

    fn key_of(&self, row: &Claim) -> (key: OrderKey) {
        let first: String = String::new();
        let second: String = String::new();
        proof {
            assert(first@ =~= Seq::empty());
            assert(second@ =~= Seq::empty());
        }
        OrderKey {
            major: position_of(self.scope_ids, row.scope_id.as_str()) as i128,
            first,
            second,
            minor: 0,
        }
    }
}

struct PatchRun<'a> {
    id: &'a str,
    patch: &'a RunPatch,
}

impl<'a> RowChange<RunRow> for PatchRun<'a> {
    closed spec fn change(&self) -> spec_fn(RunRowModel) -> RunRowModel {
        run_patched(self.id@, self.patch@)
    }

    fn apply(&self, row: &RunRow) -> (changed: RunRow) {
        let mut changed: RunRow = row.duplicate();
        if same_text(row.id.as_str(), self.id) {
            changed.status = self.patch.status;
            changed.error = self.patch.error.duplicate();
            if let Some(ambiguities) = &self.patch.ambiguities {
                changed.ambiguities = ambiguities.duplicate();
            }
            changed.updated_at = self.patch.at.clone();
        }
        changed
    }
}

struct ObserveThrough<'a> {
    id: &'a str,
    sequence: i64,
}

impl<'a> RowChange<StreamRow> for ObserveThrough<'a> {
    closed spec fn change(&self) -> spec_fn(StreamRowModel) -> StreamRowModel {
        observed_through(self.id@, self.sequence)
    }

    fn apply(&self, row: &StreamRow) -> (changed: StreamRow) {
        let mut changed: StreamRow = row.duplicate();
        if same_text(row.id.as_str(), self.id) {
            changed.observed_through_sequence = self.sequence;
        }
        changed
    }
}

/// The runs of some scopes.
spec fn run_in(
    scope_ids: Seq<Text>,
    stream_id: Option<Text>,
    status: Option<Text>,
) -> spec_fn(RunRowModel) -> bool {
    |run: RunRowModel|
        {
            &&& stream_id matches Some(id) ==> run.stream_id == id
            &&& status matches Some(label) ==> run.status.label() == label
            &&& listed(scope_ids, run.scope_id)
        }
}

struct RunIn<'a> {
    scope_ids: &'a Vec<String>,
    stream_id: Option<&'a str>,
    status: Option<&'a str>,
}

impl<'a> RowTest<RunRow> for RunIn<'a> {
    closed spec fn accepts(&self) -> spec_fn(RunRowModel) -> bool {
        run_in(self.scope_ids.deep_view(), self.stream_id.deep_view(), self.status.deep_view())
    }

    fn test(&self, row: &RunRow) -> (b: bool) {
        let of_stream: bool = match self.stream_id {
            Some(id) => same_text(row.stream_id.as_str(), id),
            None => true,
        };
        let of_status: bool = match self.status {
            Some(label) => same_text(row.status.label_text(), label),
            None => true,
        };
        of_stream && of_status && is_listed(self.scope_ids, row.scope_id.as_str())
    }
}

struct RunWanted<'a> {
    stream_id: Option<&'a str>,
    status: Option<&'a str>,
}

impl<'a> RowTest<RunRow> for RunWanted<'a> {
    closed spec fn accepts(&self) -> spec_fn(RunRowModel) -> bool {
        run_wanted(self.stream_id.deep_view(), self.status.deep_view())
    }

    fn test(&self, row: &RunRow) -> (b: bool) {
        let of_stream: bool = match self.stream_id {
            Some(id) => same_text(row.stream_id.as_str(), id),
            None => true,
        };
        let of_status: bool = match self.status {
            Some(label) => same_text(row.status.label_text(), label),
            None => true,
        };
        of_stream && of_status
    }
}

fn check_run_status(status: Option<&str>) -> (result: Result<(), KernelError>)
    ensures
        match result {
            Ok(_) => status matches Some(label) ==> is_run_status(label@),
            Err(error) => status is Some && !is_run_status(status.unwrap()@) && error@
                == no_run_status(status.unwrap()@),
        },
{
    if let Some(label) = status {
        if RunStatus::from_label(label).is_none() {
            return Err(
                KernelError::of(
                    KernelErrorKind::InvalidInput,
                    concat2("invalid observation run status ", label),
                ),
            );
        }
    }
    Ok(())
}

fn run_infos(rows: &Vec<RunRow>) -> (runs: Vec<ObservationRunInfo>)
    ensures
        runs.deep_view() == rows.deep_view().map_values(run_info()),
{
    let mut runs: Vec<ObservationRunInfo> = Vec::new();
    let mut i: usize = 0;
    while i < rows.len()
        invariant
            i <= rows.len(),
            runs.len() == i,
            forall|k: int| 0 <= k < i ==> (#[trigger] runs[k])@ == (run_info())(rows[k]@),
        decreases rows.len() - i,
    {
        runs.push(observation_run_info(&rows[i]));
        i = i + 1;
    }
    proof {
        assert(runs.deep_view() =~= rows.deep_view().map_values(run_info()));
    }
    runs
}

pub struct RunAge {}

impl RowKey<RunRow> for RunAge {
    open spec fn key(&self) -> spec_fn(RunRowModel) -> KeyModel {
        run_age()
    }

    fn key_of(&self, row: &RunRow) -> (key: OrderKey) {
        OrderKey { major: 0, first: row.created_at.clone(), second: row.id.clone(), minor: 0 }
    }
}

pub fn no_run_error(id: &str) -> (error: KernelError)
    ensures
        error@ == no_run(id@),
{
    KernelError::of(KernelErrorKind::NotFound, concat3("observation run ", id, " does not exist"))
}

fn not_pending_error(id: &str, status: RunStatus) -> (error: KernelError)
    ensures
        error@ == not_pending(id@, status),
{
    let kind: KernelErrorKind = if status == RunStatus::Stale {
        KernelErrorKind::StaleObservationRun
    } else {
        KernelErrorKind::InvalidInput
    };
    KernelError::of(
        kind,
        concat5("observation run ", id, " is ", status.label_text(), ", not pending"),
    )
}

/// What an event or view costs.
pub fn cost_of(token_count: i64) -> (tokens: i64)
    ensures
        tokens == cost(token_count),
        tokens >= 0,
{
    if token_count < 0 {
        0
    } else {
        token_count
    }
}

/// Orders claims by the position of their scopes in a list.
pub fn sort_claims_by_scope(claims: &Vec<Claim>, scope_ids: &Vec<String>) -> (sorted: Vec<Claim>)
    ensures
        sorted.deep_view() == ordered(
            claims.deep_view(),
            scope_position(scope_ids.deep_view()),
        ),
{
    sort_rows(claims, &ScopePosition { scope_ids })
}

/// A run as it is shown to callers.
pub fn observation_run_info(run: &RunRow) -> (info: ObservationRunInfo)
    ensures
        info@ == (run_info())(run@),
{
    let purged: bool = run.source_integrity == SourceIntegrity::PrivacyPurged;
    let next_action: Option<String> = if purged && run.status == RunStatus::Committed {
        Some(
            "derived records depending on purged evidence were removed; append replacement evidence if needed".to_owned(),
        )
    } else if purged || run.status == RunStatus::Stale {
        Some("request a new observation plan".to_owned())
    } else if run.status == RunStatus::Failed {
        Some("inspect the error and request a new observation plan".to_owned())
    } else {
        None
    };
    ObservationRunInfo {
        id: run.id.clone(),
        scope_id: run.scope_id.clone(),
        stream_id: run.stream_id.clone(),
        cursor_at_plan: run.cursor_at_plan,
        from_sequence: run.from_sequence,
        to_sequence: run.to_sequence,
        status: run.status.label_text().to_owned(),
        source_integrity: run.source_integrity,
        observer_model: run.observer_model.clone(),
        prompt_version: run.prompt_version.clone(),
        ambiguities: run.ambiguities.duplicate(),
        error: run.error.duplicate(),
        next_action,
        created_at: run.created_at.clone(),
        updated_at: run.updated_at.clone(),
    }
}

fn count_planned(events: &Vec<MemoryEvent>, max_tokens: i64) -> (taken: usize)
    requires
        max_tokens > 0,
    ensures
        taken == planned(events.deep_view(), 0, 0, max_tokens as int),
        taken <= events.len(),
        events.len() > 0 ==> taken > 0,
{
    let ghost all = events.deep_view();
    let mut taken: usize = 0;
    let mut spent: i64 = 0;
    while taken < events.len()
        invariant
            taken <= events.len(),
            all == events.deep_view(),
            0 <= spent < max_tokens,
            planned(all, 0, 0, max_tokens as int) == planned(
                all,
                taken as int,
                spent as int,
                max_tokens as int,
            ),
        decreases events.len() - taken,
    {
        proof {
            assert(all[taken as int] == events[taken as int]@);
        }
        let tokens: i64 = cost_of(events[taken].token_count);
        let left: i64 = max_tokens - spent;
        if taken > 0 && tokens > left {
            return taken;
        }
        if tokens >= left {
            return taken + 1;
        }
        spent = spent + tokens;
        taken = taken + 1;
    }
    taken
}

fn sequence_range(ids: &Vec<String>, sources: &Vec<MemoryEvent>) -> (range: (i64, i64))
    requires
        ids.len() > 0,
    ensures
        range.0 == lowest(ids.deep_view().map_values(sequence_in(sources.deep_view()))),
        range.1 == highest(ids.deep_view().map_values(sequence_in(sources.deep_view()))),
{
    let ghost all = ids.deep_view().map_values(sequence_in(sources.deep_view()));
    let mut low: i64 = 0;
    let mut high: i64 = 0;
    let mut i: usize = 0;
    while i < ids.len()
        invariant
            i <= ids.len(),
            all == ids.deep_view().map_values(sequence_in(sources.deep_view())),
            i > 0 ==> low == lowest(all.take(i as int)) && high == highest(all.take(i as int)),
        decreases ids.len() - i,
    {
        let sequence: i64 = match find_row(sources, &EventNamed { id: ids[i].as_str() }) {
            Some(at) => sources[at].sequence,
            None => 0,
        };
        proof {
            let next = all.take(i + 1);
            assert(ids.deep_view()[i as int] == ids[i as int]@);
            assert(next.drop_last() =~= all.take(i as int));
            assert(next.last() == all[i as int]);
            assert(all[i as int] == sequence);
        }
        if i == 0 || sequence < low {
            low = sequence;
        }
        if i == 0 || sequence > high {
            high = sequence;
        }
        i = i + 1;
    }
    proof {
        assert(all.take(ids.len() as int) =~= all);
    }
    (low, high)
}

/// The observation that a run makes of a draft.
fn make_observation(
    run: &RunRow,
    sources: &Vec<MemoryEvent>,
    draft: &ObservationDraft,
    id: &str,
    at: &str,
) -> (observation: Observation)
    requires
        draft@.source_event_ids.len() > 0,
    ensures
        observation@ == observed(run@, sources.deep_view(), draft@, id@, at@),
{
    let range: (i64, i64) = sequence_range(&draft.source_event_ids, sources);
    Observation {
        id: id.to_owned(),
        run_id: run.id.clone(),
        scope_id: run.scope_id.clone(),
        kind: draft.kind,
        content: trim_text(draft.content.as_str()),
        importance: draft.importance.number,
        confidence: draft.confidence.number,
        event_time_from: draft.event_time_from.duplicate(),
        event_time_to: draft.event_time_to.duplicate(),
        source_start_sequence: range.0,
        source_end_sequence: range.1,
        observer_model: run.observer_model.clone(),
        prompt_version: run.prompt_version.clone(),
        created_at: at.to_owned(),
    }
}

/// The claim that a run makes of a draft.
fn make_claim(run: &RunRow, draft: &ClaimDraft, id: &str, at: &str) -> (claim: Claim)
    ensures
        claim@ == drafted(run@, draft@, id@, at@),
{
    Claim {
        id: id.to_owned(),
        origin_run_id: Some(run.id.clone()),
        scope_id: run.scope_id.clone(),
        kind: draft.kind,
        subject: trim_text(draft.subject.as_str()),
        predicate: trim_text(draft.predicate.as_str()),
        cardinality: draft.cardinality,
        value: draft.value.duplicate(),
        value_hash: hash_json(&draft.value),
        modality: draft.modality,
        status: ClaimStatus::Pending,
        authority: ClaimAuthority::ModelInference,
        confidence: draft.confidence.number,
        supersedes_id: None,
        created_at: at.to_owned(),
        updated_at: at.to_owned(),
    }
}

fn required_action(claims: &Vec<Claim>) -> (action: Option<String>)
    ensures
        action.deep_view() == next_required_action(claims.deep_view()),
{
    if claims.is_empty() {
        return None;
    }
    let mut ids: Vec<String> = Vec::new();
    let mut i: usize = 0;
    while i < claims.len()
        invariant
            i <= claims.len(),
            ids.len() == i,
            forall|k: int| 0 <= k < i ==> (#[trigger] ids[k])@ == claims[k].id@,
        decreases claims.len() - i,
    {
        ids.push(claims[i].id.clone());
        i = i + 1;
    }
    proof {
        assert(ids.deep_view() =~= claims.deep_view().map_values(claim_id()));
    }
    Some(
        concat3(
            "review observer claims [",
            join_text(&ids, ",").as_str(),
            "]; explicitly run `omk claim confirm --id <claim-id> --idempotency-key <key>` or `omk claim reject --id <claim-id> --idempotency-key <key>` for each",
        ),
    )
}

/// The texts of a list from one position up to another.
fn part_of(texts: &Vec<String>, from: usize, to: usize) -> (part: Vec<String>)
    requires
        from <= to <= texts.len(),
    ensures
        part.deep_view() == texts.deep_view().subrange(from as int, to as int),
{
    let mut part: Vec<String> = Vec::new();
    let mut i: usize = from;
    while i < to
        invariant
            from <= i <= to <= texts.len(),
            part.len() == i - from,
            forall|k: int| 0 <= k < part.len() ==> (#[trigger] part[k])@ == texts[from + k]@,
        decreases to - i,
    {
        part.push(texts[i].clone());
        i = i + 1;
    }
    proof {
        assert(part.deep_view() =~= texts.deep_view().subrange(from as int, to as int));
    }
    part
}

fn do_observations_repeat(drafts: &Vec<ObservationDraft>) -> (b: bool)
    ensures
        b == observations_repeat(drafts.deep_view()),
{
    let ghost all = drafts.deep_view();
    let mut i: usize = 0;
    while i < drafts.len()
        invariant
            i <= drafts.len(),
            all == drafts.deep_view(),
            forall|k: int| 0 <= k < i ==> (#[trigger] all[k]).source_event_ids.no_duplicates(),
        decreases drafts.len() - i,
    {
        proof {
            assert(all[i as int] == drafts[i as int]@);
        }
        if !all_distinct(&drafts[i].source_event_ids) {
            return true;
        }
        i = i + 1;
    }
    false
}

fn do_claims_repeat(drafts: &Vec<ClaimDraft>) -> (b: bool)
    ensures
        b == claims_repeat(drafts.deep_view()),
{
    let ghost all = drafts.deep_view();
    let mut i: usize = 0;
    while i < drafts.len()
        invariant
            i <= drafts.len(),
            all == drafts.deep_view(),
            forall|k: int| 0 <= k < i ==> (#[trigger] all[k]).source_event_ids.no_duplicates(),
        decreases drafts.len() - i,
    {
        proof {
            assert(all[i as int] == drafts[i as int]@);
        }
        if !all_distinct(&drafts[i].source_event_ids) {
            return true;
        }
        i = i + 1;
    }
    false
}

fn observation_ids(observations: &Vec<Observation>) -> (ids: Vec<String>)
    ensures
        ids.deep_view() == observations.deep_view().map_values(observation_id()),
{
    let mut ids: Vec<String> = Vec::new();
    let mut i: usize = 0;
    while i < observations.len()
        invariant
            i <= observations.len(),
            ids.len() == i,
            forall|k: int| 0 <= k < i ==> (#[trigger] ids[k])@ == observations[k].id@,
        decreases observations.len() - i,
    {
        ids.push(observations[i].id.clone());
        i = i + 1;
    }
    proof {
        assert(ids.deep_view() =~= observations.deep_view().map_values(observation_id()));
    }
    ids
}

proof fn drafts_have_sources(drafts: Seq<ObservationDraftModel>, from: int)
    requires
        0 <= from <= drafts.len(),
        crate::error::first_error_from(drafts, crate::observer::observation_refusal(), from) is None,
    ensures
        forall|i: int|
            from <= i < drafts.len() ==> (#[trigger] drafts[i]).source_event_ids.len() > 0,
    decreases drafts.len() - from,
{
    if from < drafts.len() {
        drafts_have_sources(drafts, from + 1);
    }
}

impl MemoryStore {
    /// The events of a stream behind a sequence number, in order.
    pub(crate) fn query_events_after(&self, stream_id: &str, cursor: i64) -> (events: Vec<MemoryEvent>)
        ensures
            events.deep_view() == events_after(self@, stream_id@, cursor as int),
    {
        sort_rows(
            &select_rows(&self.events, &EventAfter { stream_id, cursor }),
            &EventOrder {  },
        )
    }

    /// Those events as an agent is shown them.
    fn redacted_events_after(&self, stream_id: &str, cursor: i64) -> (events: Vec<MemoryEvent>)
        ensures
            events.deep_view() == events_after(self@, stream_id@, cursor as int).map_values(
                redacted_event(),
            ),
    {
        let raw: Vec<MemoryEvent> = self.query_events_after(stream_id, cursor);
        let mut events: Vec<MemoryEvent> = Vec::new();
        let mut i: usize = 0;
        while i < raw.len()
            invariant
                i <= raw.len(),
                events.len() == i,
                forall|k: int| 0 <= k < i ==> (#[trigger] events[k])@ == redacted(raw[k]@),
            decreases raw.len() - i,
        {
            events.push(redact_for_agent(raw[i].duplicate()));
            i = i + 1;
        }
        proof {
            assert(events.deep_view() =~= raw.deep_view().map_values(redacted_event()));
        }
        events
    }

    pub fn plan_observation(
        &mut self,
        scope_id: &str,
        stream_id: &str,
        max_tokens: i64,
        observer_model: &str,
        prompt_version: &str,
        idempotency_key: &str,
    ) -> (result: Result<MutationResult<ObservationPlanOutcome>, KernelError>)
        ensures
            exists|stamp: StampModel|
                drawn(stamp) && stamp.ids.len() == 1 && #[trigger] plan_step(
                    old(self)@,
                    scope_id@,
                    stream_id@,
                    max_tokens,
                    observer_model@,
                    prompt_version@,
                    idempotency_key@,
                    stamp,
                ) == (final(self)@, seen(result)),
    {
        let stamp: Stamp = draw_stamp(1);
        self.plan_observation_with(
            scope_id,
            stream_id,
            max_tokens,
            observer_model,
            prompt_version,
            idempotency_key,
            &stamp,
        )
    }

    /// Plans an observation with a given identifier and time.
    pub fn plan_observation_with(
        &mut self,
        scope_id: &str,
        stream_id: &str,
        max_tokens: i64,
        observer_model: &str,
        prompt_version: &str,
        idempotency_key: &str,
        stamp: &Stamp,
    ) -> (result: Result<MutationResult<ObservationPlanOutcome>, KernelError>)
        requires
            stamp@.ids.len() == 1,
        ensures
            plan_step(
                old(self)@,
                scope_id@,
                stream_id@,
                max_tokens,
                observer_model@,
                prompt_version@,
                idempotency_key@,
                stamp@,
            ) == (final(self)@, seen(result)),
    {
        if max_tokens <= 0 {
            return Err(KernelError::invalid_input("max tokens must be positive"));
        }
        if let Err(error) = validate_nonempty("observer model", observer_model) {
            return Err(error);
        }
        if let Err(error) = validate_nonempty("prompt version", prompt_version) {
            return Err(error);
        }
        if let Err(error) = validate_nonempty("idempotency key", idempotency_key) {
            return Err(error);
        }
        let mut fields: Vec<(String, String)> = Vec::new();
        let ghost none = fields.deep_view();
        add_field(&mut fields, "maxTokens", number_text(max_tokens as i128));
        add_field(&mut fields, "observerModel", quote(observer_model));
        add_field(&mut fields, "promptVersion", quote(prompt_version));
        add_field(&mut fields, "scopeId", quote(scope_id));
        add_field(&mut fields, "streamId", quote(stream_id));
        proof {
            assert(none =~= Seq::empty());
            assert(fields.deep_view() =~= seq![
                ("maxTokens"@, decimal(max_tokens as int)),
                ("observerModel"@, json_quoted(observer_model@)),
                ("promptVersion"@, json_quoted(prompt_version@)),
                ("scopeId"@, json_quoted(scope_id@)),
                ("streamId"@, json_quoted(stream_id@)),
            ]);
        }
        let hash: String = operation_request_hash(
            "observation.plan",
            write_object(&fields).as_str(),
        );
        match self.prior_result(idempotency_key, "observation.plan", hash.as_str()) {
            Prior::Refused(error) => return Err(error),
            Prior::Known(StoredResult::Plan(outcome)) => {
                return Ok(MutationResult::replayed(outcome));
            },
            Prior::Known(_) => return Err(unreadable_error(idempotency_key)),
            Prior::Fresh => {},
        }
        let scope: Scope = match self.get_scope(scope_id) {
            Ok(scope) => scope,
            Err(error) => return Err(error),
        };
        let stream: StreamRow = match first_row(&self.streams, &StreamNamed { id: stream_id }) {
            Some(stream) => stream,
            None => return Err(no_stream_error(stream_id)),
        };
        proof {
            first_where_found(self@.streams, crate::event::stream_named(stream_id@));
        }
        if !same_text(stream.scope_id.as_str(), scope_id) {
            return Err(
                KernelError::of(
                    KernelErrorKind::ScopeViolation,
                    concat4("stream ", stream_id, " does not belong to scope ", scope_id),
                ),
            );
        }
        let cursor: i64 = stream.observed_through_sequence;
        let mut events: Vec<MemoryEvent> = self.redacted_events_after(stream_id, cursor);
        let ghost all = events.deep_view();
        if events.is_empty() {
            let outcome: ObservationPlanOutcome = ObservationPlanOutcome::caught_up(
                scope_id,
                stream_id,
                cursor,
            );
            self.save_operation(
                idempotency_key,
                "observation.plan",
                hash.as_str(),
                StoredResult::Plan(outcome.duplicate()),
            );
            return Ok(MutationResult::created(outcome));
        }
        proof {
            assert(all[0] == events[0]@);
        }
        if events[0].token_count > max_tokens {
            return Err(
                KernelError::of(
                    KernelErrorKind::BudgetExceeded,
                    concat4(
                        "observation budget too small: minimumRequiredTokens=",
                        number_text(events[0].token_count as i128).as_str(),
                        " for event ",
                        events[0].id.as_str(),
                    ),
                ),
            );
        }
        let taken: usize = count_planned(&events, max_tokens);
        events.truncate(taken);
        proof {
            assert(events.deep_view() =~= all.take(taken as int));
            assert(events.deep_view()[0] == events[0]@);
            assert(events.deep_view().last() == events[taken - 1]@);
        }
        if any_row(&self.runs, &RunNamed { id: stamp.ids[0].as_str() }) {
            return Err(id_clash_error("observation_runs.id"));
        }
        let visible: Vec<String> = match self.visible_scope_ids(scope_id) {
            Ok(visible) => visible,
            Err(error) => return Err(error),
        };
        let claims: Vec<Claim> = self.query_claims_for_scopes(&visible, Some(ClaimStatus::Active));
        let active_claims: Vec<Claim> = sort_claims_by_scope(&claims, &visible);
        let previous_continuation: Option<MemoryView> = match self.latest_view(
            stream_id,
            ViewKind::Continuation,
        ) {
            Some(row) => Some(row.view),
            None => None,
        };
        let from_sequence: i64 = events[0].sequence;
        let to_sequence: i64 = events[taken - 1].sequence;
        let run = RunRow {
            id: stamp.ids[0].clone(),
            scope_id: stream.scope_id.clone(),
            stream_id: stream.id.clone(),
            cursor_at_plan: cursor,
            from_sequence,
            to_sequence,
            status: RunStatus::Pending,
            source_integrity: SourceIntegrity::Intact,
            observer_model: observer_model.to_owned(),
            prompt_version: prompt_version.to_owned(),
            ambiguities: Vec::new(),
            error: None,
            created_at: stamp.at.clone(),
            updated_at: stamp.at.clone(),
        };
        proof {
            assert(run@.ambiguities =~= Seq::empty());
        }
        push_row(&mut self.runs, run);
        let outcome: ObservationPlanOutcome = ObservationPlanOutcome::ready(
            ObservationPlan {
                run_id: stamp.ids[0].clone(),
                scope,
                stream_id: stream_id.to_owned(),
                from_sequence,
                to_sequence,
                events,
                active_claims,
                previous_continuation,
            },
        );
        self.save_operation(
            idempotency_key,
            "observation.plan",
            hash.as_str(),
            StoredResult::Plan(outcome.duplicate()),
        );
        Ok(MutationResult::created(outcome))
    }

    /// Changes the standing of a run.
    pub(crate) fn patch_run(&mut self, id: &str, patch: &RunPatch)
        ensures
            final(self)@ == with_run_patch(old(self)@, id@, patch@),
    {
        change_rows(&mut self.runs, &PatchRun { id, patch });
    }

    pub fn query_run(&self, id: &str) -> (run: Result<RunRow, KernelError>)
        ensures
            seen(run) == match run_at(self@, id@) {
                Some(run) => Ok(run),
                None => Err(no_run(id@)),
            },
    {
        match first_row(&self.runs, &RunNamed { id }) {
            Some(run) => Ok(run),
            None => Err(no_run_error(id)),
        }
    }

    /// Adds an observation, links it to its evidence and indexes it.
    fn insert_observation(&mut self, observation: &Observation, event_ids: &Vec<String>)
        ensures
            final(self)@ == with_observation(old(self)@, observation@, event_ids.deep_view()),
    {
        push_row(&mut self.observations, observation.duplicate());
        add_links(&mut self.observation_sources, observation.id.as_str(), event_ids);
        self.insert_fts(
            "observation",
            observation.id.as_str(),
            observation.scope_id.as_str(),
            observation.content.clone(),
        );
    }

    fn insert_observations(
        &mut self,
        run: &RunRow,
        sources: &Vec<MemoryEvent>,
        drafts: &Vec<ObservationDraft>,
        stamp: &Stamp,
    ) -> (made: Vec<Observation>)
        requires
            drafts.len() <= stamp@.ids.len(),
            forall|i: int|
                0 <= i < drafts.deep_view().len() ==> (
                #[trigger] drafts.deep_view()[i]).source_event_ids.len() > 0,
        ensures
            made.deep_view() == all_observed(
                run@,
                sources.deep_view(),
                drafts.deep_view(),
                stamp@.ids,
                stamp@.at,
            ),
            final(self)@ == with_observations(old(self)@, made.deep_view(), drafts.deep_view()),
    {
        let ghost ds = drafts.deep_view();
        let mut made: Vec<Observation> = Vec::new();
        let mut i: usize = 0;
        proof {
            assert(made.deep_view() =~= Seq::empty());
        }
        while i < drafts.len()
            invariant
                i <= drafts.len() <= stamp@.ids.len(),
                ds == drafts.deep_view(),
                made.deep_view().len() == i,
                forall|k: int|
                    0 <= k < i ==> #[trigger] made.deep_view()[k] == observed(
                        run@,
                        sources.deep_view(),
                        ds[k],
                        stamp@.ids[k],
                        stamp@.at,
                    ),
                forall|k: int| 0 <= k < ds.len() ==> (#[trigger] ds[k]).source_event_ids.len() > 0,
                self@ == with_observations(old(self)@, made.deep_view(), ds.take(i as int)),
            decreases drafts.len() - i,
        {
            let ghost before = made.deep_view();
            proof {
                assert(ds[i as int] == drafts[i as int]@);
                assert(stamp@.ids[i as int] == stamp.ids[i as int]@);
            }
            let observation: Observation = make_observation(
                run,
                sources,
                &drafts[i],
                stamp.ids[i].as_str(),
                stamp.at.as_str(),
            );
            self.insert_observation(&observation, &drafts[i].source_event_ids);
            push_row(&mut made, observation);
            proof {
                let next = ds.take(i + 1);
                assert(next.drop_last() =~= ds.take(i as int));
                assert(next.last() == ds[i as int]);
                assert(made.deep_view().drop_last() =~= before);
            }
            i = i + 1;
        }
        proof {
            assert(ds.take(ds.len() as int) =~= ds);
            assert(made.deep_view() =~= all_observed(
                run@,
                sources.deep_view(),
                ds,
                stamp@.ids,
                stamp@.at,
            ));
        }
        made
    }

    fn insert_drafted(
        &mut self,
        run: &RunRow,
        drafts: &Vec<ClaimDraft>,
        from: usize,
        stamp: &Stamp,
    ) -> (made: Vec<Claim>)
        requires
            from + drafts.len() <= stamp@.ids.len(),
        ensures
            made.deep_view() == all_drafted(
                run@,
                drafts.deep_view(),
                stamp@.ids.skip(from as int),
                stamp@.at,
            ),
            final(self)@ == with_drafted(old(self)@, made.deep_view(), drafts.deep_view()),
    {
        let ghost ds = drafts.deep_view();
        let ghost ids = stamp@.ids.skip(from as int);
        let mut made: Vec<Claim> = Vec::new();
        let mut i: usize = 0;
        proof {
            assert(made.deep_view() =~= Seq::empty());
        }
        while i < drafts.len()
            invariant
                i <= drafts.len(),
                from + drafts.len() <= stamp@.ids.len(),
                stamp@.ids.len() == stamp.ids.len(),
                ds == drafts.deep_view(),
                ids == stamp@.ids.skip(from as int),
                made.deep_view().len() == i,
                forall|k: int|
                    0 <= k < i ==> #[trigger] made.deep_view()[k] == drafted(
                        run@,
                        ds[k],
                        ids[k],
                        stamp@.at,
                    ),
                self@ == with_drafted(old(self)@, made.deep_view(), ds.take(i as int)),
            decreases drafts.len() - i,
        {
            let ghost before = made.deep_view();
            proof {
                assert(ds[i as int] == drafts[i as int]@);
                assert(ids[i as int] == stamp.ids[from + i]@);
            }
            let claim: Claim = make_claim(
                run,
                &drafts[i],
                stamp.ids[from + i].as_str(),
                stamp.at.as_str(),
            );
            self.insert_claim(&claim);
            self.attach_event_sources(claim.id.as_str(), &drafts[i].source_event_ids);
            push_row(&mut made, claim);
            proof {
                let next = ds.take(i + 1);
                assert(next.drop_last() =~= ds.take(i as int));
                assert(next.last() == ds[i as int]);
                assert(made.deep_view().drop_last() =~= before);
            }
            i = i + 1;
        }
        proof {
            assert(ds.take(ds.len() as int) =~= ds);
            assert(made.deep_view() =~= all_drafted(run@, ds, ids, stamp@.at));
        }
        made
    }

    fn check_commit(
        &self,
        run: &RunRow,
        result: &ObserverResult,
        sources: &Vec<MemoryEvent>,
        ids: &Vec<String>,
    ) -> (answer: Result<(), KernelError>)
        requires
            ids.len() == commit_ids(result@),
            sources.deep_view() == events_between(
                self@,
                run@.stream_id,
                run@.from_sequence as int,
                run@.to_sequence as int,
            ),
        ensures
            match answer {
                Ok(_) => commit_refusal(self@, run@, result@, ids.deep_view()) is None,
                Err(error) => commit_refusal(self@, run@, result@, ids.deep_view()) == Some(error@),
            },
    {
        if let Err(error) = validate_provenance(result, sources) {
            return Err(error);
        }
        if do_observations_repeat(&result.observations) {
            return Err(
                KernelError::invalid_input(
                    "UNIQUE constraint failed: observation_sources.observation_id, observation_sources.event_id",
                ),
            );
        }
        if do_claims_repeat(&result.claims) {
            return Err(
                KernelError::invalid_input(
                    "UNIQUE constraint failed: claim_sources.claim_id, claim_sources.event_id",
                ),
            );
        }
        let observed: usize = result.observations.len();
        if !self.are_observation_ids_new(&part_of(ids, 0, observed)) {
            return Err(id_clash_error("observations.id"));
        }
        if !self.are_claim_ids_new(&part_of(ids, observed, observed + result.claims.len())) {
            return Err(id_clash_error("claims.id"));
        }
        if observer_result_is_completely_empty(result) {
            if self.latest_view(run.stream_id.as_str(), ViewKind::Continuation).is_some() {
                return Ok(());
            }
        }
        if let Err(error) = self.check_generation(run.stream_id.as_str(), ViewKind::Continuation) {
            return Err(error);
        }
        proof {
            assert(ids.deep_view().last() == ids[ids.len() - 1]@);
        }
        self.check_view_id(ids[ids.len() - 1].as_str())
    }

    fn are_observation_ids_new(&self, ids: &Vec<String>) -> (b: bool)
        ensures
            b == observation_ids_new(self@, ids.deep_view()),
    {
        let ghost all = ids.deep_view();
        let mut i: usize = 0;
        while i < ids.len()
            invariant
                i <= ids.len(),
                all == ids.deep_view(),
                forall|k: int|
                    0 <= k < i ==> !some_row(
                        self@.observations,
                        observation_named(#[trigger] all[k]),
                    ),
            decreases ids.len() - i,
        {
            proof {
                assert(all[i as int] == ids[i as int]@);
            }
            if any_row(&self.observations, &ObservationNamed { id: ids[i].as_str() }) {
                return false;
            }
            i = i + 1;
        }
        all_distinct(ids)
    }

    fn are_claim_ids_new(&self, ids: &Vec<String>) -> (b: bool)
        ensures
            b == claim_ids_new(self@, ids.deep_view()),
    {
        let ghost all = ids.deep_view();
        let mut i: usize = 0;
        while i < ids.len()
            invariant
                i <= ids.len(),
                all == ids.deep_view(),
                forall|k: int|
                    0 <= k < i ==> !some_row(self@.claims, claim_named(#[trigger] all[k])),
            decreases ids.len() - i,
        {
            proof {
                assert(all[i as int] == ids[i as int]@);
            }
            if any_row(&self.claims, &ClaimNamed { id: ids[i].as_str() }) {
                return false;
            }
            i = i + 1;
        }
        all_distinct(ids)
    }

    /// Records what a run made of its evidence.
    fn record_commit(
        &mut self,
        run: &RunRow,
        result: ObserverResult,
        sources: &Vec<MemoryEvent>,
        stamp: &Stamp,
    ) -> (commit: ObservationCommit)
        requires
            stamp@.ids.len() == commit_ids(result@),
            result_refusal(result@) is None,
            sources.deep_view() == events_between(
                old(self)@,
                run@.stream_id,
                run@.from_sequence as int,
                run@.to_sequence as int,
            ),
        ensures
            (final(self)@, commit@) == committed(old(self)@, run@, result@, stamp@),
    {
        let ghost start = self@;
        let ghost given = result@;
        proof {
            drafts_have_sources(given.observations, 0);
        }
        let nothing: bool = observer_result_is_completely_empty(&result);
        let previous: Option<ViewRow> = if nothing {
            self.latest_view(run.stream_id.as_str(), ViewKind::Continuation)
        } else {
            None
        };
        let observations: Vec<Observation> = self.insert_observations(
            run,
            sources,
            &result.observations,
            stamp,
        );
        let claims: Vec<Claim> = self.insert_drafted(
            run,
            &result.claims,
            result.observations.len(),
            stamp,
        );
        let mut action: ContinuationAction = ContinuationAction::Preserved;
        let view: MemoryView = match previous {
            Some(row) => row.view,
            None => {
                action = ContinuationAction::Created;
                let text: String = render_continuation(&result.continuation);
                let token_count: i64 = estimate_tokens(text.as_str());
                let content = ViewContent {
                    scope_id: run.scope_id.clone(),
                    stream_id: run.stream_id.clone(),
                    kind: ViewKind::Continuation,
                    content: text,
                    from: run.from_sequence,
                    through: run.to_sequence,
                    model: Some(run.observer_model.clone()),
                    prompt_version: Some(run.prompt_version.clone()),
                    token_count,
                    continuation: Some(result.continuation.duplicate()),
                };
                let ids: Vec<String> = observation_ids(&observations);
                proof {
                    assert(content@ == continuation_content(run@, given));
                    assert(stamp@.ids.last() == stamp.ids[stamp.ids.len() - 1]@);
                }
                self.insert_next_view(
                    content,
                    &ids,
                    stamp.ids[stamp.ids.len() - 1].as_str(),
                    stamp.at.as_str(),
                )
            },
        };
        change_rows(
            &mut self.streams,
            &ObserveThrough { id: run.stream_id.as_str(), sequence: run.to_sequence },
        );
        let patch = RunPatch {
            status: RunStatus::Committed,
            error: None,
            ambiguities: Some(result.ambiguities.duplicate()),
            at: stamp.at.clone(),
        };
        self.patch_run(run.id.as_str(), &patch);
        let next_required_action: Option<String> = required_action(&claims);
        ObservationCommit {
            run_id: run.id.clone(),
            observations,
            claims,
            continuation_view: view,
            continuation_action: action,
            ambiguities: result.ambiguities,
            next_required_action,
        }
    }

    pub fn commit_observation(
        &mut self,
        run_id: &str,
        result: ObserverResult,
        idempotency_key: &str,
    ) -> (answer: Result<MutationResult<ObservationCommit>, KernelError>)
        requires
            commit_ids(result@) <= usize::MAX,
        ensures
            exists|stamp: StampModel|
                drawn(stamp) && stamp.ids.len() == commit_ids(result@) && #[trigger] commit_step(
                    old(self)@,
                    run_id@,
                    result@,
                    idempotency_key@,
                    stamp,
                ) == (final(self)@, seen(answer)),
    {
        let count: usize = result.observations.len() + result.claims.len() + 1;
        let stamp: Stamp = draw_stamp(count);
        self.commit_observation_with(run_id, result, idempotency_key, &stamp)
    }

    /// Commits a result with given identifiers and time.
    #[verifier::rlimit(40)]
    pub fn commit_observation_with(
        &mut self,
        run_id: &str,
        result: ObserverResult,
        idempotency_key: &str,
        stamp: &Stamp,
    ) -> (answer: Result<MutationResult<ObservationCommit>, KernelError>)
        requires
            stamp@.ids.len() == commit_ids(result@),
        ensures
            commit_step(old(self)@, run_id@, result@, idempotency_key@, stamp@) == (
                final(self)@,
                seen(answer),
            ),
    {
        if let Err(error) = validate_nonempty("run id", run_id) {
            return Err(error);
        }
        if let Err(error) = validate_nonempty("idempotency key", idempotency_key) {
            return Err(error);
        }
        if let Err(error) = validate_observer_result(&result) {
            return Err(error);
        }
        let mut items: Vec<String> = Vec::new();
        items.push(quote(run_id));
        items.push(write_result(&result));
        proof {
            assert(items.deep_view() =~= seq![json_quoted(run_id@), result_json(result@)]);
        }
        let hash: String = operation_request_hash(
            "observation.commit",
            write_array(&items).as_str(),
        );
        match self.prior_result(idempotency_key, "observation.commit", hash.as_str()) {
            Prior::Refused(error) => return Err(error),
            Prior::Known(StoredResult::Commit(commit)) => {
                return Ok(MutationResult::replayed(commit));
            },
            Prior::Known(_) => return Err(unreadable_error(idempotency_key)),
            Prior::Fresh => {},
        }
        let run: RunRow = match self.query_run(run_id) {
            Ok(run) => run,
            Err(error) => return Err(error),
        };
        if run.status != RunStatus::Pending {
            return Err(not_pending_error(run_id, run.status));
        }
        let stream: StreamRow = match first_row(
            &self.streams,
            &StreamNamed { id: run.stream_id.as_str() },
        ) {
            Some(stream) => stream,
            None => return Err(no_stream_error(run.stream_id.as_str())),
        };
        let cursor: i64 = stream.observed_through_sequence;
        if cursor != run.cursor_at_plan {
            let patch = RunPatch {
                status: RunStatus::Stale,
                error: Some("stream cursor advanced".to_owned()),
                ambiguities: None,
                at: stamp.at.clone(),
            };
            self.patch_run(run_id, &patch);
            return Err(
                KernelError::of(
                    KernelErrorKind::StaleObservationRun,
                    concat6(
                        "observation run ",
                        run_id,
                        " is stale: expected cursor ",
                        number_text(run.cursor_at_plan as i128).as_str(),
                        ", found ",
                        number_text(cursor as i128).as_str(),
                    ),
                ),
            );
        }
        let sources: Vec<MemoryEvent> = self.query_events_range(
            run.stream_id.as_str(),
            run.from_sequence,
            run.to_sequence,
        );
        if let Err(error) = self.check_commit(&run, &result, &sources, &stamp.ids) {
            return Err(error);
        }
        let commit: ObservationCommit = self.record_commit(&run, result, &sources, stamp);
        self.save_operation(
            idempotency_key,
            "observation.commit",
            hash.as_str(),
            StoredResult::Commit(commit.duplicate()),
        );
        Ok(MutationResult::created(commit))
    }

    pub fn fail_observation(&mut self, run_id: &str, reason: &str, idempotency_key: &str) -> (answer:
        Result<MutationResult<ObservationFailure>, KernelError>)
        ensures
            exists|stamp: StampModel|
                #[trigger] fail_step(old(self)@, run_id@, reason@, idempotency_key@, stamp) == (
                    final(self)@,
                    seen(answer),
                ),
    {
        let stamp: Stamp = draw_stamp(0);
        self.fail_observation_with(run_id, reason, idempotency_key, &stamp)
    }

    /// Gives a run up at a given time.
    pub fn fail_observation_with(
        &mut self,
        run_id: &str,
        reason: &str,
        idempotency_key: &str,
        stamp: &Stamp,
    ) -> (answer: Result<MutationResult<ObservationFailure>, KernelError>)
        ensures
            fail_step(old(self)@, run_id@, reason@, idempotency_key@, stamp@) == (
                final(self)@,
                seen(answer),
            ),
    {
        if let Err(error) = validate_nonempty("run id", run_id) {
            return Err(error);
        }
        if let Err(error) = validate_nonempty("failure reason", reason) {
            return Err(error);
        }
        if let Err(error) = validate_nonempty("idempotency key", idempotency_key) {
            return Err(error);
        }
        if reason.unicode_len() > 200 {
            return Err(KernelError::invalid_input("failure reason must be at most 200 characters"));
        }
        let mut items: Vec<String> = Vec::new();
        items.push(quote(run_id));
        items.push(quote(reason));
        proof {
            assert(items.deep_view() =~= seq![json_quoted(run_id@), json_quoted(reason@)]);
        }
        let hash: String = operation_request_hash("observation.fail", write_array(&items).as_str());
        match self.prior_result(idempotency_key, "observation.fail", hash.as_str()) {
            Prior::Refused(error) => return Err(error),
            Prior::Known(StoredResult::Failure(known)) => {
                return Ok(MutationResult::replayed(known));
            },
            Prior::Known(_) => return Err(unreadable_error(idempotency_key)),
            Prior::Fresh => {},
        }
        let run: RunRow = match self.query_run(run_id) {
            Ok(run) => run,
            Err(error) => return Err(error),
        };
        if run.status != RunStatus::Pending {
            return Err(not_pending_error(run_id, run.status));
        }
        let patch = RunPatch {
            status: RunStatus::Failed,
            error: Some(reason.to_owned()),
            ambiguities: None,
            at: stamp.at.clone(),
        };
        self.patch_run(run_id, &patch);
        let done = ObservationFailure {
            run_id: run_id.to_owned(),
            status: "failed".to_owned(),
            reason: reason.to_owned(),
        };
        self.save_operation(
            idempotency_key,
            "observation.fail",
            hash.as_str(),
            StoredResult::Failure(done.duplicate()),
        );
        Ok(MutationResult::created(done))
    }

    pub fn get_observation_run(&self, access: &ReadAccess, run_id: &str) -> (info: Result<
        ObservationRunInfo,
        KernelError,
    >)
        ensures
            seen(info) == match run_at(self@, run_id@) {
                None => Err(no_run(run_id@)),
                Some(run) => match read_refusal(self@, access@, run.scope_id) {
                    Some(error) => Err(error),
                    None => Ok((run_info())(run)),
                },
            },
    {
        let run: RunRow = match self.query_run(run_id) {
            Ok(run) => run,
            Err(error) => return Err(error),
        };
        if let Err(error) = self.ensure_read_scope(access, run.scope_id.as_str()) {
            return Err(error);
        }
        Ok(observation_run_info(&run))
    }

    pub fn list_observation_runs(
        &self,
        access: &ReadAccess,
        stream_id: Option<&str>,
        status: Option<&str>,
    ) -> (runs: Result<Vec<ObservationRunInfo>, KernelError>)
        ensures
            seen(runs) == if status matches Some(label) && !is_run_status(label@) {
                Err(no_run_status(status.unwrap()@))
            } else {
                match visible_scopes(self@, access@.anchor_scope_id) {
                    Err(error) => Err(error),
                    Ok(_) => Ok(
                        runs_listed(
                            self@,
                            access@.anchor_scope_id,
                            stream_id.deep_view(),
                            status.deep_view(),
                        ),
                    ),
                }
            },
    {
        if let Err(error) = check_run_status(status) {
            return Err(error);
        }
        let scope_ids: Vec<String> = match self.retrieval_scope_ids(access.anchor_scope_id.as_str()) {
            Ok(scope_ids) => scope_ids,
            Err(error) => return Err(error),
        };
        let selected: Vec<RunRow> = select_rows(
            &self.runs,
            &RunIn { scope_ids: &scope_ids, stream_id, status },
        );
        let rows: Vec<RunRow> = sort_rows(&selected, &RunAge {  });
        proof {
            let wanted = run_listed(
                self@,
                access@.anchor_scope_id,
                stream_id.deep_view(),
                status.deep_view(),
            );
            let used = run_in(
                scope_ids.deep_view(),
                stream_id.deep_view(),
                status.deep_view(),
            );
            assert forall|i: int| 0 <= i < self@.runs.len() implies used(#[trigger] self@.runs[i])
                == wanted(self@.runs[i]) by {
                let scope = self@.runs[i].scope_id;
                assert(listed(scope_ids.deep_view(), scope) <==> readable_from(
                    self@,
                    access@.anchor_scope_id,
                    scope,
                ));
            }
            filter_agrees(self@.runs, used, wanted);
        }
        Ok(run_infos(&rows))
    }

    /// The runs of all scopes, by age.
    pub fn list_all_observation_runs(&self, stream_id: Option<&str>, status: Option<&str>) -> (runs:
        Result<Vec<ObservationRunInfo>, KernelError>)
        ensures
            seen(runs) == if status matches Some(label) && !is_run_status(label@) {
                Err(no_run_status(status.unwrap()@))
            } else {
                Ok(
                    ordered(
                        self@.runs.filter(run_wanted(stream_id.deep_view(), status.deep_view())),
                        run_age(),
                    ).map_values(run_info()),
                )
            },
    {
        if let Err(error) = check_run_status(status) {
            return Err(error);
        }
        let selected: Vec<RunRow> = select_rows(&self.runs, &RunWanted { stream_id, status });
        Ok(run_infos(&sort_rows(&selected, &RunAge {  })))
    }

    pub fn stream_status(&self, access: &ReadAccess, stream_id: &str) -> (status: Result<
        StreamStatus,
        KernelError,
    >)
        ensures
            seen(status) == match stream_at(self@, stream_id@) {
                None => Err(no_stream(stream_id@)),
                Some(stream) => match read_refusal(self@, access@, stream.scope_id) {
                    Some(error) => Err(error),
                    None => Ok(
                        StreamStatusModel {
                            id: stream_id@,
                            scope_id: stream.scope_id,
                            observed_through_sequence: stream.observed_through_sequence,
                            next_sequence: stream.next_sequence,
                            last_sequence: last_sequence(self@, stream_id@),
                            runs: runs_listed(
                                self@,
                                access@.anchor_scope_id,
                                Some(stream_id@),
                                None,
                            ),
                        },
                    ),
                },
            },
    {
        let stream: StreamRow = match first_row(&self.streams, &StreamNamed { id: stream_id }) {
            Some(stream) => stream,
            None => return Err(no_stream_error(stream_id)),
        };
        if let Err(error) = self.ensure_read_scope(access, stream.scope_id.as_str()) {
            return Err(error);
        }
        let events: Vec<MemoryEvent> = self.query_events_range(stream_id, i64::MIN, i64::MAX);
        let last_sequence: Option<i64> = match take_last(events) {
            Some(event) => Some(event.sequence),
            None => None,
        };
        let runs: Vec<ObservationRunInfo> = match self.list_observation_runs(
            access,
            Some(stream_id),
            None,
        ) {
            Ok(runs) => runs,
            Err(error) => return Err(error),
        };
        Ok(
            StreamStatus {
                id: stream_id.to_owned(),
                scope_id: stream.scope_id,
                observed_through_sequence: stream.observed_through_sequence,
                next_sequence: stream.next_sequence,
                last_sequence,
                runs,
            },
        )
    }
}

} // verus!
