//! The records of the kernel and their mathematical models.

use vstd::prelude::*;

use crate::json::JsonValue;
use crate::kind::{
    ClaimAuthority, ClaimCardinality, ClaimKind, ClaimModality, ClaimStatus, ContinuationAction,
    EventKind, ObservationKind, ScopeKind, Sensitivity, SourceIntegrity, ViewKind,
};
use crate::mention::Mentions;
use crate::score::{Real, Score, ScoreModel};
use crate::table::Duplicate;
use crate::text::{concat3, Text};

verus! {

/// A scope: a place in the hierarchy that memory belongs to.
#[derive(Clone, Debug, PartialEq, Eq)]
pub struct Scope {
    pub id: String,
    pub kind: ScopeKind,
    pub parent_id: Option<String>,
    pub name: Option<String>,
    pub created_at: String,
}

/// The mathematical content of a `Scope`.
#[verifier::ext_equal]
pub struct ScopeModel {
    pub id: Text,
    pub kind: ScopeKind,
    pub parent_id: Option<Text>,
    pub name: Option<Text>,
    pub created_at: Text,
}

impl View for Scope {
    type V = ScopeModel;

    open spec fn view(&self) -> ScopeModel {
        ScopeModel {
            id: self.id.deep_view(),
            kind: self.kind.deep_view(),
            parent_id: self.parent_id.deep_view(),
            name: self.name.deep_view(),
            created_at: self.created_at.deep_view(),
        }
    }
}

impl DeepView for Scope {
    type V = ScopeModel;

    open spec fn deep_view(&self) -> ScopeModel {
        self@
    }
}

impl Duplicate for Scope {
    fn duplicate(&self) -> (copy: Self) {
        Scope {
            id: self.id.duplicate(),
            kind: self.kind.duplicate(),
            parent_id: self.parent_id.duplicate(),
            name: self.name.duplicate(),
            created_at: self.created_at.duplicate(),
        }
    }
}

impl Mentions for Scope {
    open spec fn mentioned(value: ScopeModel, id: Text) -> bool {
        ||| <String as Mentions>::mentioned(value.id, id)
        ||| <Option<String> as Mentions>::mentioned(value.parent_id, id)
        ||| <Option<String> as Mentions>::mentioned(value.name, id)
        ||| <String as Mentions>::mentioned(value.created_at, id)
    }

    fn mentions(&self, id: &str) -> (b: bool) {
        self.id.mentions(id)
            || self.parent_id.mentions(id)
            || self.name.mentions(id)
            || self.created_at.mentions(id)
    }
}

/// A recorded event of a stream.
#[derive(Clone, Debug, PartialEq, Eq)]
pub struct MemoryEvent {
    pub id: String,
    pub stream_id: String,
    pub sequence: i64,
    pub scope_id: String,
    pub kind: EventKind,
    pub actor_id: Option<String>,
    pub occurred_at: String,
    pub recorded_at: String,
    pub content: JsonValue,
    pub content_hash: String,
    pub token_count: i64,
    pub sensitivity: Sensitivity,
    pub metadata: JsonValue,
}

/// The mathematical content of a `MemoryEvent`.
#[verifier::ext_equal]
pub struct MemoryEventModel {
    pub id: Text,
    pub stream_id: Text,
    pub sequence: i64,
    pub scope_id: Text,
    pub kind: EventKind,
    pub actor_id: Option<Text>,
    pub occurred_at: Text,
    pub recorded_at: Text,
    pub content: Text,
    pub content_hash: Text,
    pub token_count: i64,
    pub sensitivity: Sensitivity,
    pub metadata: Text,
}

impl View for MemoryEvent {
    type V = MemoryEventModel;

    open spec fn view(&self) -> MemoryEventModel {
        MemoryEventModel {
            id: self.id.deep_view(),
            stream_id: self.stream_id.deep_view(),
            sequence: self.sequence.deep_view(),
            scope_id: self.scope_id.deep_view(),
            kind: self.kind.deep_view(),
            actor_id: self.actor_id.deep_view(),
            occurred_at: self.occurred_at.deep_view(),
            recorded_at: self.recorded_at.deep_view(),
            content: self.content.deep_view(),
            content_hash: self.content_hash.deep_view(),
            token_count: self.token_count.deep_view(),
            sensitivity: self.sensitivity.deep_view(),
            metadata: self.metadata.deep_view(),
        }
    }
}

impl DeepView for MemoryEvent {
    type V = MemoryEventModel;

    open spec fn deep_view(&self) -> MemoryEventModel {
        self@
    }
}

impl Duplicate for MemoryEvent {
    fn duplicate(&self) -> (copy: Self) {
        MemoryEvent {
            id: self.id.duplicate(),
            stream_id: self.stream_id.duplicate(),
            sequence: self.sequence.duplicate(),
            scope_id: self.scope_id.duplicate(),
            kind: self.kind.duplicate(),
            actor_id: self.actor_id.duplicate(),
            occurred_at: self.occurred_at.duplicate(),
            recorded_at: self.recorded_at.duplicate(),
            content: self.content.duplicate(),
            content_hash: self.content_hash.duplicate(),
            token_count: self.token_count.duplicate(),
            sensitivity: self.sensitivity.duplicate(),
            metadata: self.metadata.duplicate(),
        }
    }
}

impl Mentions for MemoryEvent {
    open spec fn mentioned(value: MemoryEventModel, id: Text) -> bool {
        ||| <String as Mentions>::mentioned(value.id, id)
        ||| <String as Mentions>::mentioned(value.stream_id, id)
        ||| <String as Mentions>::mentioned(value.scope_id, id)
        ||| <Option<String> as Mentions>::mentioned(value.actor_id, id)
        ||| <String as Mentions>::mentioned(value.occurred_at, id)
        ||| <String as Mentions>::mentioned(value.recorded_at, id)
        ||| <JsonValue as Mentions>::mentioned(value.content, id)
        ||| <String as Mentions>::mentioned(value.content_hash, id)
        ||| <JsonValue as Mentions>::mentioned(value.metadata, id)
    }

    fn mentions(&self, id: &str) -> (b: bool) {
        self.id.mentions(id)
            || self.stream_id.mentions(id)
            || self.scope_id.mentions(id)
            || self.actor_id.mentions(id)
            || self.occurred_at.mentions(id)
            || self.recorded_at.mentions(id)
            || self.content.mentions(id)
            || self.content_hash.mentions(id)
            || self.metadata.mentions(id)
    }
}

/// An event to be appended.
#[derive(Clone, Debug, PartialEq, Eq)]
pub struct NewEvent {
    pub scope_id: String,
    pub stream_id: String,
    pub kind: EventKind,
    pub actor_id: Option<String>,
    pub occurred_at: Option<String>,
    pub content: JsonValue,
    pub token_count: Option<i64>,
    pub sensitivity: Sensitivity,
    pub metadata: JsonValue,
    pub idempotency_key: String,
}

/// The mathematical content of a `NewEvent`.
#[verifier::ext_equal]
pub struct NewEventModel {
    pub scope_id: Text,
    pub stream_id: Text,
    pub kind: EventKind,
    pub actor_id: Option<Text>,
    pub occurred_at: Option<Text>,
    pub content: Text,
    pub token_count: Option<i64>,
    pub sensitivity: Sensitivity,
    pub metadata: Text,
    pub idempotency_key: Text,
}

impl View for NewEvent {
    type V = NewEventModel;

    open spec fn view(&self) -> NewEventModel {
        NewEventModel {
            scope_id: self.scope_id.deep_view(),
            stream_id: self.stream_id.deep_view(),
            kind: self.kind.deep_view(),
            actor_id: self.actor_id.deep_view(),
            occurred_at: self.occurred_at.deep_view(),
            content: self.content.deep_view(),
            token_count: self.token_count.deep_view(),
            sensitivity: self.sensitivity.deep_view(),
            metadata: self.metadata.deep_view(),
            idempotency_key: self.idempotency_key.deep_view(),
        }
    }
}

impl DeepView for NewEvent {
    type V = NewEventModel;

    open spec fn deep_view(&self) -> NewEventModel {
        self@
    }
}

impl Duplicate for NewEvent {
    fn duplicate(&self) -> (copy: Self) {
        NewEvent {
            scope_id: self.scope_id.duplicate(),
            stream_id: self.stream_id.duplicate(),
            kind: self.kind.duplicate(),
            actor_id: self.actor_id.duplicate(),
            occurred_at: self.occurred_at.duplicate(),
            content: self.content.duplicate(),
            token_count: self.token_count.duplicate(),
            sensitivity: self.sensitivity.duplicate(),
            metadata: self.metadata.duplicate(),
            idempotency_key: self.idempotency_key.duplicate(),
        }
    }
}

/// An observation that a run derived from events.
#[derive(Clone, Debug, PartialEq, Eq)]
pub struct Observation {
    pub id: String,
    pub run_id: String,
    pub scope_id: String,
    pub kind: ObservationKind,
    pub content: String,
    pub importance: Real,
    pub confidence: Real,
    pub event_time_from: Option<String>,
    pub event_time_to: Option<String>,
    pub source_start_sequence: i64,
    pub source_end_sequence: i64,
    pub observer_model: String,
    pub prompt_version: String,
    pub created_at: String,
}

/// The mathematical content of a `Observation`.
#[verifier::ext_equal]
pub struct ObservationModel {
    pub id: Text,
    pub run_id: Text,
    pub scope_id: Text,
    pub kind: ObservationKind,
    pub content: Text,
    pub importance: Real,
    pub confidence: Real,
    pub event_time_from: Option<Text>,
    pub event_time_to: Option<Text>,
    pub source_start_sequence: i64,
    pub source_end_sequence: i64,
    pub observer_model: Text,
    pub prompt_version: Text,
    pub created_at: Text,
}

impl View for Observation {
    type V = ObservationModel;

    open spec fn view(&self) -> ObservationModel {
        ObservationModel {
            id: self.id.deep_view(),
            run_id: self.run_id.deep_view(),
            scope_id: self.scope_id.deep_view(),
            kind: self.kind.deep_view(),
            content: self.content.deep_view(),
            importance: self.importance.deep_view(),
            confidence: self.confidence.deep_view(),
            event_time_from: self.event_time_from.deep_view(),
            event_time_to: self.event_time_to.deep_view(),
            source_start_sequence: self.source_start_sequence.deep_view(),
            source_end_sequence: self.source_end_sequence.deep_view(),
            observer_model: self.observer_model.deep_view(),
            prompt_version: self.prompt_version.deep_view(),
            created_at: self.created_at.deep_view(),
        }
    }
}

impl DeepView for Observation {
    type V = ObservationModel;

    open spec fn deep_view(&self) -> ObservationModel {
        self@
    }
}

impl Duplicate for Observation {
    fn duplicate(&self) -> (copy: Self) {
        Observation {
            id: self.id.duplicate(),
            run_id: self.run_id.duplicate(),
            scope_id: self.scope_id.duplicate(),
            kind: self.kind.duplicate(),
            content: self.content.duplicate(),
            importance: self.importance.duplicate(),
            confidence: self.confidence.duplicate(),
            event_time_from: self.event_time_from.duplicate(),
            event_time_to: self.event_time_to.duplicate(),
            source_start_sequence: self.source_start_sequence.duplicate(),
            source_end_sequence: self.source_end_sequence.duplicate(),
            observer_model: self.observer_model.duplicate(),
            prompt_version: self.prompt_version.duplicate(),
            created_at: self.created_at.duplicate(),
        }
    }
}

impl Mentions for Observation {
    open spec fn mentioned(value: ObservationModel, id: Text) -> bool {
        ||| <String as Mentions>::mentioned(value.id, id)
        ||| <String as Mentions>::mentioned(value.run_id, id)
        ||| <String as Mentions>::mentioned(value.scope_id, id)
        ||| <String as Mentions>::mentioned(value.content, id)
        ||| <Option<String> as Mentions>::mentioned(value.event_time_from, id)
        ||| <Option<String> as Mentions>::mentioned(value.event_time_to, id)
        ||| <String as Mentions>::mentioned(value.observer_model, id)
        ||| <String as Mentions>::mentioned(value.prompt_version, id)
        ||| <String as Mentions>::mentioned(value.created_at, id)
    }

    fn mentions(&self, id: &str) -> (b: bool) {
        self.id.mentions(id)
            || self.run_id.mentions(id)
            || self.scope_id.mentions(id)
            || self.content.mentions(id)
            || self.event_time_from.mentions(id)
            || self.event_time_to.mentions(id)
            || self.observer_model.mentions(id)
            || self.prompt_version.mentions(id)
            || self.created_at.mentions(id)
    }
}

/// A claim: a statement with its status and authority.
#[derive(Clone, Debug, PartialEq, Eq)]
pub struct Claim {
    pub id: String,
    pub origin_run_id: Option<String>,
    pub scope_id: String,
    pub kind: ClaimKind,
    pub subject: String,
    pub predicate: String,
    pub cardinality: ClaimCardinality,
    pub value: JsonValue,
    pub value_hash: String,
    pub modality: ClaimModality,
    pub status: ClaimStatus,
    pub authority: ClaimAuthority,
    pub confidence: Real,
    pub supersedes_id: Option<String>,
    pub created_at: String,
    pub updated_at: String,
}

/// The mathematical content of a `Claim`.
#[verifier::ext_equal]
pub struct ClaimModel {
    pub id: Text,
    pub origin_run_id: Option<Text>,
    pub scope_id: Text,
    pub kind: ClaimKind,
    pub subject: Text,
    pub predicate: Text,
    pub cardinality: ClaimCardinality,
    pub value: Text,
    pub value_hash: Text,
    pub modality: ClaimModality,
    pub status: ClaimStatus,
    pub authority: ClaimAuthority,
    pub confidence: Real,
    pub supersedes_id: Option<Text>,
    pub created_at: Text,
    pub updated_at: Text,
}

impl View for Claim {
    type V = ClaimModel;

    open spec fn view(&self) -> ClaimModel {
        ClaimModel {
            id: self.id.deep_view(),
            origin_run_id: self.origin_run_id.deep_view(),
            scope_id: self.scope_id.deep_view(),
            kind: self.kind.deep_view(),
            subject: self.subject.deep_view(),
            predicate: self.predicate.deep_view(),
            cardinality: self.cardinality.deep_view(),
            value: self.value.deep_view(),
            value_hash: self.value_hash.deep_view(),
            modality: self.modality.deep_view(),
            status: self.status.deep_view(),
            authority: self.authority.deep_view(),
            confidence: self.confidence.deep_view(),
            supersedes_id: self.supersedes_id.deep_view(),
            created_at: self.created_at.deep_view(),
            updated_at: self.updated_at.deep_view(),
        }
    }
}

impl DeepView for Claim {
    type V = ClaimModel;

    open spec fn deep_view(&self) -> ClaimModel {
        self@
    }
}

impl Duplicate for Claim {
    fn duplicate(&self) -> (copy: Self) {
        Claim {
            id: self.id.duplicate(),
            origin_run_id: self.origin_run_id.duplicate(),
            scope_id: self.scope_id.duplicate(),
            kind: self.kind.duplicate(),
            subject: self.subject.duplicate(),
            predicate: self.predicate.duplicate(),
            cardinality: self.cardinality.duplicate(),
            value: self.value.duplicate(),
            value_hash: self.value_hash.duplicate(),
            modality: self.modality.duplicate(),
            status: self.status.duplicate(),
            authority: self.authority.duplicate(),
            confidence: self.confidence.duplicate(),
            supersedes_id: self.supersedes_id.duplicate(),
            created_at: self.created_at.duplicate(),
            updated_at: self.updated_at.duplicate(),
        }
    }
}

impl Mentions for Claim {
    open spec fn mentioned(value: ClaimModel, id: Text) -> bool {
        ||| <String as Mentions>::mentioned(value.id, id)
        ||| <Option<String> as Mentions>::mentioned(value.origin_run_id, id)
        ||| <String as Mentions>::mentioned(value.scope_id, id)
        ||| <String as Mentions>::mentioned(value.subject, id)
        ||| <String as Mentions>::mentioned(value.predicate, id)
        ||| <JsonValue as Mentions>::mentioned(value.value, id)
        ||| <String as Mentions>::mentioned(value.value_hash, id)
        ||| <Option<String> as Mentions>::mentioned(value.supersedes_id, id)
        ||| <String as Mentions>::mentioned(value.created_at, id)
        ||| <String as Mentions>::mentioned(value.updated_at, id)
    }

    fn mentions(&self, id: &str) -> (b: bool) {
        self.id.mentions(id)
            || self.origin_run_id.mentions(id)
            || self.scope_id.mentions(id)
            || self.subject.mentions(id)
            || self.predicate.mentions(id)
            || self.value.mentions(id)
            || self.value_hash.mentions(id)
            || self.supersedes_id.mentions(id)
            || self.created_at.mentions(id)
            || self.updated_at.mentions(id)
    }
}

/// One generation of a stream's view.
#[derive(Clone, Debug, PartialEq, Eq)]
pub struct MemoryView {
    pub id: String,
    pub scope_id: String,
    pub stream_id: String,
    pub kind: ViewKind,
    pub generation: i64,
    pub content: String,
    pub source_from_sequence: i64,
    pub source_through_sequence: i64,
    pub previous_view_id: Option<String>,
    pub model: Option<String>,
    pub prompt_version: Option<String>,
    pub token_count: i64,
    pub created_at: String,
}

/// The mathematical content of a `MemoryView`.
#[verifier::ext_equal]
pub struct MemoryViewModel {
    pub id: Text,
    pub scope_id: Text,
    pub stream_id: Text,
    pub kind: ViewKind,
    pub generation: i64,
    pub content: Text,
    pub source_from_sequence: i64,
    pub source_through_sequence: i64,
    pub previous_view_id: Option<Text>,
    pub model: Option<Text>,
    pub prompt_version: Option<Text>,
    pub token_count: i64,
    pub created_at: Text,
}

impl View for MemoryView {
    type V = MemoryViewModel;

    open spec fn view(&self) -> MemoryViewModel {
        MemoryViewModel {
            id: self.id.deep_view(),
            scope_id: self.scope_id.deep_view(),
            stream_id: self.stream_id.deep_view(),
            kind: self.kind.deep_view(),
            generation: self.generation.deep_view(),
            content: self.content.deep_view(),
            source_from_sequence: self.source_from_sequence.deep_view(),
            source_through_sequence: self.source_through_sequence.deep_view(),
            previous_view_id: self.previous_view_id.deep_view(),
            model: self.model.deep_view(),
            prompt_version: self.prompt_version.deep_view(),
            token_count: self.token_count.deep_view(),
            created_at: self.created_at.deep_view(),
        }
    }
}

impl DeepView for MemoryView {
    type V = MemoryViewModel;

    open spec fn deep_view(&self) -> MemoryViewModel {
        self@
    }
}

impl Duplicate for MemoryView {
    fn duplicate(&self) -> (copy: Self) {
        MemoryView {
            id: self.id.duplicate(),
            scope_id: self.scope_id.duplicate(),
            stream_id: self.stream_id.duplicate(),
            kind: self.kind.duplicate(),
            generation: self.generation.duplicate(),
            content: self.content.duplicate(),
            source_from_sequence: self.source_from_sequence.duplicate(),
            source_through_sequence: self.source_through_sequence.duplicate(),
            previous_view_id: self.previous_view_id.duplicate(),
            model: self.model.duplicate(),
            prompt_version: self.prompt_version.duplicate(),
            token_count: self.token_count.duplicate(),
            created_at: self.created_at.duplicate(),
        }
    }
}

impl Mentions for MemoryView {
    open spec fn mentioned(value: MemoryViewModel, id: Text) -> bool {
        ||| <String as Mentions>::mentioned(value.id, id)
        ||| <String as Mentions>::mentioned(value.scope_id, id)
        ||| <String as Mentions>::mentioned(value.stream_id, id)
        ||| <String as Mentions>::mentioned(value.content, id)
        ||| <Option<String> as Mentions>::mentioned(value.previous_view_id, id)
        ||| <Option<String> as Mentions>::mentioned(value.model, id)
        ||| <Option<String> as Mentions>::mentioned(value.prompt_version, id)
        ||| <String as Mentions>::mentioned(value.created_at, id)
    }

    fn mentions(&self, id: &str) -> (b: bool) {
        self.id.mentions(id)
            || self.scope_id.mentions(id)
            || self.stream_id.mentions(id)
            || self.content.mentions(id)
            || self.previous_view_id.mentions(id)
            || self.model.mentions(id)
            || self.prompt_version.mentions(id)
            || self.created_at.mentions(id)
    }
}

/// A continuity view to be created.
#[derive(Clone, Debug, PartialEq, Eq)]
pub struct CreateView {
    pub scope_id: String,
    pub stream_id: String,
    pub kind: ViewKind,
    pub content: String,
    pub source_from_sequence: i64,
    pub source_through_sequence: i64,
    pub source_observation_ids: Vec<String>,
    pub model: Option<String>,
    pub prompt_version: Option<String>,
    pub token_count: Option<i64>,
    pub expected_previous_view_id: Option<String>,
    pub idempotency_key: String,
}

/// The mathematical content of a `CreateView`.
#[verifier::ext_equal]
pub struct CreateViewModel {
    pub scope_id: Text,
    pub stream_id: Text,
    pub kind: ViewKind,
    pub content: Text,
    pub source_from_sequence: i64,
    pub source_through_sequence: i64,
    pub source_observation_ids: Seq<Text>,
    pub model: Option<Text>,
    pub prompt_version: Option<Text>,
    pub token_count: Option<i64>,
    pub expected_previous_view_id: Option<Text>,
    pub idempotency_key: Text,
}

impl View for CreateView {
    type V = CreateViewModel;

    open spec fn view(&self) -> CreateViewModel {
        CreateViewModel {
            scope_id: self.scope_id.deep_view(),
            stream_id: self.stream_id.deep_view(),
            kind: self.kind.deep_view(),
            content: self.content.deep_view(),
            source_from_sequence: self.source_from_sequence.deep_view(),
            source_through_sequence: self.source_through_sequence.deep_view(),
            source_observation_ids: self.source_observation_ids.deep_view(),
            model: self.model.deep_view(),
            prompt_version: self.prompt_version.deep_view(),
            token_count: self.token_count.deep_view(),
            expected_previous_view_id: self.expected_previous_view_id.deep_view(),
            idempotency_key: self.idempotency_key.deep_view(),
        }
    }
}

impl DeepView for CreateView {
    type V = CreateViewModel;

    open spec fn deep_view(&self) -> CreateViewModel {
        self@
    }
}

impl Duplicate for CreateView {
    fn duplicate(&self) -> (copy: Self) {
        CreateView {
            scope_id: self.scope_id.duplicate(),
            stream_id: self.stream_id.duplicate(),
            kind: self.kind.duplicate(),
            content: self.content.duplicate(),
            source_from_sequence: self.source_from_sequence.duplicate(),
            source_through_sequence: self.source_through_sequence.duplicate(),
            source_observation_ids: self.source_observation_ids.duplicate(),
            model: self.model.duplicate(),
            prompt_version: self.prompt_version.duplicate(),
            token_count: self.token_count.duplicate(),
            expected_previous_view_id: self.expected_previous_view_id.duplicate(),
            idempotency_key: self.idempotency_key.duplicate(),
        }
    }
}

/// The evidence that an observer is asked to work on.
#[derive(Clone, Debug, PartialEq, Eq)]
pub struct ObservationPlan {
    pub run_id: String,
    pub scope: Scope,
    pub stream_id: String,
    pub from_sequence: i64,
    pub to_sequence: i64,
    pub events: Vec<MemoryEvent>,
    pub active_claims: Vec<Claim>,
    pub previous_continuation: Option<MemoryView>,
}

/// The mathematical content of a `ObservationPlan`.
#[verifier::ext_equal]
pub struct ObservationPlanModel {
    pub run_id: Text,
    pub scope: ScopeModel,
    pub stream_id: Text,
    pub from_sequence: i64,
    pub to_sequence: i64,
    pub events: Seq<MemoryEventModel>,
    pub active_claims: Seq<ClaimModel>,
    pub previous_continuation: Option<MemoryViewModel>,
}

impl View for ObservationPlan {
    type V = ObservationPlanModel;

    open spec fn view(&self) -> ObservationPlanModel {
        ObservationPlanModel {
            run_id: self.run_id.deep_view(),
            scope: self.scope.deep_view(),
            stream_id: self.stream_id.deep_view(),
            from_sequence: self.from_sequence.deep_view(),
            to_sequence: self.to_sequence.deep_view(),
            events: self.events.deep_view(),
            active_claims: self.active_claims.deep_view(),
            previous_continuation: self.previous_continuation.deep_view(),
        }
    }
}

impl DeepView for ObservationPlan {
    type V = ObservationPlanModel;

    open spec fn deep_view(&self) -> ObservationPlanModel {
        self@
    }
}

impl Duplicate for ObservationPlan {
    fn duplicate(&self) -> (copy: Self) {
        ObservationPlan {
            run_id: self.run_id.duplicate(),
            scope: self.scope.duplicate(),
            stream_id: self.stream_id.duplicate(),
            from_sequence: self.from_sequence.duplicate(),
            to_sequence: self.to_sequence.duplicate(),
            events: self.events.duplicate(),
            active_claims: self.active_claims.duplicate(),
            previous_continuation: self.previous_continuation.duplicate(),
        }
    }
}

impl Mentions for ObservationPlan {
    open spec fn mentioned(value: ObservationPlanModel, id: Text) -> bool {
        ||| <String as Mentions>::mentioned(value.run_id, id)
        ||| <Scope as Mentions>::mentioned(value.scope, id)
        ||| <String as Mentions>::mentioned(value.stream_id, id)
        ||| <Vec<MemoryEvent> as Mentions>::mentioned(value.events, id)
        ||| <Vec<Claim> as Mentions>::mentioned(value.active_claims, id)
        ||| <Option<MemoryView> as Mentions>::mentioned(value.previous_continuation, id)
    }

    fn mentions(&self, id: &str) -> (b: bool) {
        self.run_id.mentions(id)
            || self.scope.mentions(id)
            || self.stream_id.mentions(id)
            || self.events.mentions(id)
            || self.active_claims.mentions(id)
            || self.previous_continuation.mentions(id)
    }
}

/// An observation as an observer hands it in.
#[derive(Clone, Debug, PartialEq, Eq)]
pub struct ObservationDraft {
    pub kind: ObservationKind,
    pub content: String,
    pub importance: Score,
    pub confidence: Score,
    pub source_event_ids: Vec<String>,
    pub event_time_from: Option<String>,
    pub event_time_to: Option<String>,
}

/// The mathematical content of a `ObservationDraft`.
#[verifier::ext_equal]
pub struct ObservationDraftModel {
    pub kind: ObservationKind,
    pub content: Text,
    pub importance: ScoreModel,
    pub confidence: ScoreModel,
    pub source_event_ids: Seq<Text>,
    pub event_time_from: Option<Text>,
    pub event_time_to: Option<Text>,
}

impl View for ObservationDraft {
    type V = ObservationDraftModel;

    open spec fn view(&self) -> ObservationDraftModel {
        ObservationDraftModel {
            kind: self.kind.deep_view(),
            content: self.content.deep_view(),
            importance: self.importance.deep_view(),
            confidence: self.confidence.deep_view(),
            source_event_ids: self.source_event_ids.deep_view(),
            event_time_from: self.event_time_from.deep_view(),
            event_time_to: self.event_time_to.deep_view(),
        }
    }
}

impl DeepView for ObservationDraft {
    type V = ObservationDraftModel;

    open spec fn deep_view(&self) -> ObservationDraftModel {
        self@
    }
}

impl Duplicate for ObservationDraft {
    fn duplicate(&self) -> (copy: Self) {
        ObservationDraft {
            kind: self.kind.duplicate(),
            content: self.content.duplicate(),
            importance: self.importance.duplicate(),
            confidence: self.confidence.duplicate(),
            source_event_ids: self.source_event_ids.duplicate(),
            event_time_from: self.event_time_from.duplicate(),
            event_time_to: self.event_time_to.duplicate(),
        }
    }
}

/// A claim as an observer hands it in.
#[derive(Clone, Debug, PartialEq, Eq)]
pub struct ClaimDraft {
    pub kind: ClaimKind,
    pub subject: String,
    pub predicate: String,
    pub cardinality: ClaimCardinality,
    pub value: JsonValue,
    pub modality: ClaimModality,
    pub confidence: Score,
    pub source_event_ids: Vec<String>,
}

/// The mathematical content of a `ClaimDraft`.
#[verifier::ext_equal]
pub struct ClaimDraftModel {
    pub kind: ClaimKind,
    pub subject: Text,
    pub predicate: Text,
    pub cardinality: ClaimCardinality,
    pub value: Text,
    pub modality: ClaimModality,
    pub confidence: ScoreModel,
    pub source_event_ids: Seq<Text>,
}

impl View for ClaimDraft {
    type V = ClaimDraftModel;

    open spec fn view(&self) -> ClaimDraftModel {
        ClaimDraftModel {
            kind: self.kind.deep_view(),
            subject: self.subject.deep_view(),
            predicate: self.predicate.deep_view(),
            cardinality: self.cardinality.deep_view(),
            value: self.value.deep_view(),
            modality: self.modality.deep_view(),
            confidence: self.confidence.deep_view(),
            source_event_ids: self.source_event_ids.deep_view(),
        }
    }
}

impl DeepView for ClaimDraft {
    type V = ClaimDraftModel;

    open spec fn deep_view(&self) -> ClaimDraftModel {
        self@
    }
}

impl Duplicate for ClaimDraft {
    fn duplicate(&self) -> (copy: Self) {
        ClaimDraft {
            kind: self.kind.duplicate(),
            subject: self.subject.duplicate(),
            predicate: self.predicate.duplicate(),
            cardinality: self.cardinality.duplicate(),
            value: self.value.duplicate(),
            modality: self.modality.duplicate(),
            confidence: self.confidence.duplicate(),
            source_event_ids: self.source_event_ids.duplicate(),
        }
    }
}

/// What is needed to go on with the work.
#[derive(Clone, Debug, PartialEq, Eq)]
pub struct ContinuationDraft {
    pub current_task: Option<String>,
    pub completed: Vec<String>,
    pub blockers: Vec<String>,
    pub next_actions: Vec<String>,
    pub unresolved_questions: Vec<String>,
}

/// The mathematical content of a `ContinuationDraft`.
#[verifier::ext_equal]
pub struct ContinuationDraftModel {
    pub current_task: Option<Text>,
    pub completed: Seq<Text>,
    pub blockers: Seq<Text>,
    pub next_actions: Seq<Text>,
    pub unresolved_questions: Seq<Text>,
}

impl View for ContinuationDraft {
    type V = ContinuationDraftModel;

    open spec fn view(&self) -> ContinuationDraftModel {
        ContinuationDraftModel {
            current_task: self.current_task.deep_view(),
            completed: self.completed.deep_view(),
            blockers: self.blockers.deep_view(),
            next_actions: self.next_actions.deep_view(),
            unresolved_questions: self.unresolved_questions.deep_view(),
        }
    }
}

impl DeepView for ContinuationDraft {
    type V = ContinuationDraftModel;

    open spec fn deep_view(&self) -> ContinuationDraftModel {
        self@
    }
}

impl Duplicate for ContinuationDraft {
    fn duplicate(&self) -> (copy: Self) {
        ContinuationDraft {
            current_task: self.current_task.duplicate(),
            completed: self.completed.duplicate(),
            blockers: self.blockers.duplicate(),
            next_actions: self.next_actions.duplicate(),
            unresolved_questions: self.unresolved_questions.duplicate(),
        }
    }
}

/// Something that an observer could not settle.
#[derive(Clone, Debug, PartialEq, Eq)]
pub struct AmbiguityDraft {
    pub description: String,
    pub source_event_ids: Vec<String>,
}

/// The mathematical content of a `AmbiguityDraft`.
#[verifier::ext_equal]
pub struct AmbiguityDraftModel {
    pub description: Text,
    pub source_event_ids: Seq<Text>,
}

impl View for AmbiguityDraft {
    type V = AmbiguityDraftModel;

    open spec fn view(&self) -> AmbiguityDraftModel {
        AmbiguityDraftModel {
            description: self.description.deep_view(),
            source_event_ids: self.source_event_ids.deep_view(),
        }
    }
}

impl DeepView for AmbiguityDraft {
    type V = AmbiguityDraftModel;

    open spec fn deep_view(&self) -> AmbiguityDraftModel {
        self@
    }
}

impl Duplicate for AmbiguityDraft {
    fn duplicate(&self) -> (copy: Self) {
        AmbiguityDraft {
            description: self.description.duplicate(),
            source_event_ids: self.source_event_ids.duplicate(),
        }
    }
}

impl Mentions for AmbiguityDraft {
    open spec fn mentioned(value: AmbiguityDraftModel, id: Text) -> bool {
        ||| <String as Mentions>::mentioned(value.description, id)
        ||| <Vec<String> as Mentions>::mentioned(value.source_event_ids, id)
    }

    fn mentions(&self, id: &str) -> (b: bool) {
        self.description.mentions(id) || self.source_event_ids.mentions(id)
    }
}

/// All that an observer hands in for a run.
#[derive(Clone, Debug, PartialEq, Eq)]
pub struct ObserverResult {
    pub observations: Vec<ObservationDraft>,
    pub claims: Vec<ClaimDraft>,
    pub continuation: ContinuationDraft,
    pub ambiguities: Vec<AmbiguityDraft>,
    pub empty_reason: Option<String>,
}

/// The mathematical content of a `ObserverResult`.
#[verifier::ext_equal]
pub struct ObserverResultModel {
    pub observations: Seq<ObservationDraftModel>,
    pub claims: Seq<ClaimDraftModel>,
    pub continuation: ContinuationDraftModel,
    pub ambiguities: Seq<AmbiguityDraftModel>,
    pub empty_reason: Option<Text>,
}

impl View for ObserverResult {
    type V = ObserverResultModel;

    open spec fn view(&self) -> ObserverResultModel {
        ObserverResultModel {
            observations: self.observations.deep_view(),
            claims: self.claims.deep_view(),
            continuation: self.continuation.deep_view(),
            ambiguities: self.ambiguities.deep_view(),
            empty_reason: self.empty_reason.deep_view(),
        }
    }
}

impl DeepView for ObserverResult {
    type V = ObserverResultModel;

    open spec fn deep_view(&self) -> ObserverResultModel {
        self@
    }
}

impl Duplicate for ObserverResult {
    fn duplicate(&self) -> (copy: Self) {
        ObserverResult {
            observations: self.observations.duplicate(),
            claims: self.claims.duplicate(),
            continuation: self.continuation.duplicate(),
            ambiguities: self.ambiguities.duplicate(),
            empty_reason: self.empty_reason.duplicate(),
        }
    }
}

/// What an observation commit recorded.
#[derive(Clone, Debug, PartialEq, Eq)]
pub struct ObservationCommit {
    pub run_id: String,
    pub observations: Vec<Observation>,
    pub claims: Vec<Claim>,
    pub continuation_view: MemoryView,
    pub continuation_action: ContinuationAction,
    pub ambiguities: Vec<AmbiguityDraft>,
    pub next_required_action: Option<String>,
}

/// The mathematical content of a `ObservationCommit`.
#[verifier::ext_equal]
pub struct ObservationCommitModel {
    pub run_id: Text,
    pub observations: Seq<ObservationModel>,
    pub claims: Seq<ClaimModel>,
    pub continuation_view: MemoryViewModel,
    pub continuation_action: ContinuationAction,
    pub ambiguities: Seq<AmbiguityDraftModel>,
    pub next_required_action: Option<Text>,
}

impl View for ObservationCommit {
    type V = ObservationCommitModel;

    open spec fn view(&self) -> ObservationCommitModel {
        ObservationCommitModel {
            run_id: self.run_id.deep_view(),
            observations: self.observations.deep_view(),
            claims: self.claims.deep_view(),
            continuation_view: self.continuation_view.deep_view(),
            continuation_action: self.continuation_action.deep_view(),
            ambiguities: self.ambiguities.deep_view(),
            next_required_action: self.next_required_action.deep_view(),
        }
    }
}

impl DeepView for ObservationCommit {
    type V = ObservationCommitModel;

    open spec fn deep_view(&self) -> ObservationCommitModel {
        self@
    }
}

impl Duplicate for ObservationCommit {
    fn duplicate(&self) -> (copy: Self) {
        ObservationCommit {
            run_id: self.run_id.duplicate(),
            observations: self.observations.duplicate(),
            claims: self.claims.duplicate(),
            continuation_view: self.continuation_view.duplicate(),
            continuation_action: self.continuation_action.duplicate(),
            ambiguities: self.ambiguities.duplicate(),
            next_required_action: self.next_required_action.duplicate(),
        }
    }
}

impl Mentions for ObservationCommit {
    open spec fn mentioned(value: ObservationCommitModel, id: Text) -> bool {
        ||| <String as Mentions>::mentioned(value.run_id, id)
        ||| <Vec<Observation> as Mentions>::mentioned(value.observations, id)
        ||| <Vec<Claim> as Mentions>::mentioned(value.claims, id)
        ||| <MemoryView as Mentions>::mentioned(value.continuation_view, id)
        ||| <Vec<AmbiguityDraft> as Mentions>::mentioned(value.ambiguities, id)
        ||| <Option<String> as Mentions>::mentioned(value.next_required_action, id)
    }

    fn mentions(&self, id: &str) -> (b: bool) {
        self.run_id.mentions(id)
            || self.observations.mentions(id)
            || self.claims.mentions(id)
            || self.continuation_view.mentions(id)
            || self.ambiguities.mentions(id)
            || self.next_required_action.mentions(id)
    }
}

/// What a reconciliation did to each pending claim.
#[derive(Clone, Debug, PartialEq, Eq)]
pub struct ReconciliationSummary {
    pub activated: Vec<String>,
    pub disputed: Vec<String>,
    pub duplicates_rejected: Vec<String>,
    pub left_pending: Vec<String>,
}

/// The mathematical content of a `ReconciliationSummary`.
#[verifier::ext_equal]
pub struct ReconciliationSummaryModel {
    pub activated: Seq<Text>,
    pub disputed: Seq<Text>,
    pub duplicates_rejected: Seq<Text>,
    pub left_pending: Seq<Text>,
}

impl View for ReconciliationSummary {
    type V = ReconciliationSummaryModel;

    open spec fn view(&self) -> ReconciliationSummaryModel {
        ReconciliationSummaryModel {
            activated: self.activated.deep_view(),
            disputed: self.disputed.deep_view(),
            duplicates_rejected: self.duplicates_rejected.deep_view(),
            left_pending: self.left_pending.deep_view(),
        }
    }
}

impl DeepView for ReconciliationSummary {
    type V = ReconciliationSummaryModel;

    open spec fn deep_view(&self) -> ReconciliationSummaryModel {
        self@
    }
}

impl Duplicate for ReconciliationSummary {
    fn duplicate(&self) -> (copy: Self) {
        ReconciliationSummary {
            activated: self.activated.duplicate(),
            disputed: self.disputed.duplicate(),
            duplicates_rejected: self.duplicates_rejected.duplicate(),
            left_pending: self.left_pending.duplicate(),
        }
    }
}

impl Mentions for ReconciliationSummary {
    open spec fn mentioned(value: ReconciliationSummaryModel, id: Text) -> bool {
        ||| <Vec<String> as Mentions>::mentioned(value.activated, id)
        ||| <Vec<String> as Mentions>::mentioned(value.disputed, id)
        ||| <Vec<String> as Mentions>::mentioned(value.duplicates_rejected, id)
        ||| <Vec<String> as Mentions>::mentioned(value.left_pending, id)
    }

    fn mentions(&self, id: &str) -> (b: bool) {
        self.activated.mentions(id)
            || self.disputed.mentions(id)
            || self.duplicates_rejected.mentions(id)
            || self.left_pending.mentions(id)
    }
}

/// The record of a run that was given up.
#[derive(Clone, Debug, PartialEq, Eq)]
pub struct ObservationFailure {
    pub run_id: String,
    pub status: String,
    pub reason: String,
}

/// The mathematical content of a `ObservationFailure`.
#[verifier::ext_equal]
pub struct ObservationFailureModel {
    pub run_id: Text,
    pub status: Text,
    pub reason: Text,
}

impl View for ObservationFailure {
    type V = ObservationFailureModel;

    open spec fn view(&self) -> ObservationFailureModel {
        ObservationFailureModel {
            run_id: self.run_id.deep_view(),
            status: self.status.deep_view(),
            reason: self.reason.deep_view(),
        }
    }
}

impl DeepView for ObservationFailure {
    type V = ObservationFailureModel;

    open spec fn deep_view(&self) -> ObservationFailureModel {
        self@
    }
}

impl Duplicate for ObservationFailure {
    fn duplicate(&self) -> (copy: Self) {
        ObservationFailure {
            run_id: self.run_id.duplicate(),
            status: self.status.duplicate(),
            reason: self.reason.duplicate(),
        }
    }
}

impl Mentions for ObservationFailure {
    open spec fn mentioned(value: ObservationFailureModel, id: Text) -> bool {
        ||| <String as Mentions>::mentioned(value.run_id, id)
        ||| <String as Mentions>::mentioned(value.status, id)
        ||| <String as Mentions>::mentioned(value.reason, id)
    }

    fn mentions(&self, id: &str) -> (b: bool) {
        self.run_id.mentions(id) || self.status.mentions(id) || self.reason.mentions(id)
    }
}

/// The record of a purged claim.
#[derive(Clone, Debug, PartialEq, Eq)]
pub struct ClaimPurge {
    pub id: String,
    pub purged_command_events: usize,
}

/// The mathematical content of a `ClaimPurge`.
#[verifier::ext_equal]
pub struct ClaimPurgeModel {
    pub id: Text,
    pub purged_command_events: usize,
}

impl View for ClaimPurge {
    type V = ClaimPurgeModel;

    open spec fn view(&self) -> ClaimPurgeModel {
        ClaimPurgeModel {
            id: self.id.deep_view(),
            purged_command_events: self.purged_command_events.deep_view(),
        }
    }
}

impl DeepView for ClaimPurge {
    type V = ClaimPurgeModel;

    open spec fn deep_view(&self) -> ClaimPurgeModel {
        self@
    }
}

impl Duplicate for ClaimPurge {
    fn duplicate(&self) -> (copy: Self) {
        ClaimPurge {
            id: self.id.duplicate(),
            purged_command_events: self.purged_command_events.duplicate(),
        }
    }
}

impl Mentions for ClaimPurge {
    open spec fn mentioned(value: ClaimPurgeModel, id: Text) -> bool {
        ||| <String as Mentions>::mentioned(value.id, id)
    }

    fn mentions(&self, id: &str) -> (b: bool) {
        self.id.mentions(id)
    }
}

/// The record of a purged event and of what depended on it.
#[derive(Clone, Debug, PartialEq, Eq)]
pub struct EventPurge {
    pub id: String,
    pub stream_id: String,
    pub sequence: i64,
    pub dependent_observations: usize,
    pub dependent_claims: usize,
    pub dependent_view_ids: Vec<String>,
    pub affected_run_ids: Vec<String>,
    pub purged_command_events: usize,
}

/// The mathematical content of a `EventPurge`.
#[verifier::ext_equal]
pub struct EventPurgeModel {
    pub id: Text,
    pub stream_id: Text,
    pub sequence: i64,
    pub dependent_observations: usize,
    pub dependent_claims: usize,
    pub dependent_view_ids: Seq<Text>,
    pub affected_run_ids: Seq<Text>,
    pub purged_command_events: usize,
}

impl View for EventPurge {
    type V = EventPurgeModel;

    open spec fn view(&self) -> EventPurgeModel {
        EventPurgeModel {
            id: self.id.deep_view(),
            stream_id: self.stream_id.deep_view(),
            sequence: self.sequence.deep_view(),
            dependent_observations: self.dependent_observations.deep_view(),
            dependent_claims: self.dependent_claims.deep_view(),
            dependent_view_ids: self.dependent_view_ids.deep_view(),
            affected_run_ids: self.affected_run_ids.deep_view(),
            purged_command_events: self.purged_command_events.deep_view(),
        }
    }
}

impl DeepView for EventPurge {
    type V = EventPurgeModel;

    open spec fn deep_view(&self) -> EventPurgeModel {
        self@
    }
}

impl Duplicate for EventPurge {
    fn duplicate(&self) -> (copy: Self) {
        EventPurge {
            id: self.id.duplicate(),
            stream_id: self.stream_id.duplicate(),
            sequence: self.sequence.duplicate(),
            dependent_observations: self.dependent_observations.duplicate(),
            dependent_claims: self.dependent_claims.duplicate(),
            dependent_view_ids: self.dependent_view_ids.duplicate(),
            affected_run_ids: self.affected_run_ids.duplicate(),
            purged_command_events: self.purged_command_events.duplicate(),
        }
    }
}

impl Mentions for EventPurge {
    open spec fn mentioned(value: EventPurgeModel, id: Text) -> bool {
        ||| <String as Mentions>::mentioned(value.id, id)
        ||| <String as Mentions>::mentioned(value.stream_id, id)
        ||| <Vec<String> as Mentions>::mentioned(value.dependent_view_ids, id)
        ||| <Vec<String> as Mentions>::mentioned(value.affected_run_ids, id)
    }

    fn mentions(&self, id: &str) -> (b: bool) {
        self.id.mentions(id)
            || self.stream_id.mentions(id)
            || self.dependent_view_ids.mentions(id)
            || self.affected_run_ids.mentions(id)
    }
}

/// Something that a context leaves out, and why.
#[derive(Clone, Debug, PartialEq, Eq)]
pub struct OmittedItem {
    pub id: String,
    pub reason: String,
}

/// The mathematical content of a `OmittedItem`.
#[verifier::ext_equal]
pub struct OmittedItemModel {
    pub id: Text,
    pub reason: Text,
}

impl View for OmittedItem {
    type V = OmittedItemModel;

    open spec fn view(&self) -> OmittedItemModel {
        OmittedItemModel {
            id: self.id.deep_view(),
            reason: self.reason.deep_view(),
        }
    }
}

impl DeepView for OmittedItem {
    type V = OmittedItemModel;

    open spec fn deep_view(&self) -> OmittedItemModel {
        self@
    }
}

impl Duplicate for OmittedItem {
    fn duplicate(&self) -> (copy: Self) {
        OmittedItem {
            id: self.id.duplicate(),
            reason: self.reason.duplicate(),
        }
    }
}

/// What a context costs and leaves out.
#[derive(Clone, Debug, PartialEq, Eq)]
pub struct ContextDiagnostics {
    pub estimated_tokens: i64,
    pub omitted_items: Vec<OmittedItem>,
}

/// The mathematical content of a `ContextDiagnostics`.
#[verifier::ext_equal]
pub struct ContextDiagnosticsModel {
    pub estimated_tokens: i64,
    pub omitted_items: Seq<OmittedItemModel>,
}

impl View for ContextDiagnostics {
    type V = ContextDiagnosticsModel;

    open spec fn view(&self) -> ContextDiagnosticsModel {
        ContextDiagnosticsModel {
            estimated_tokens: self.estimated_tokens.deep_view(),
            omitted_items: self.omitted_items.deep_view(),
        }
    }
}

impl DeepView for ContextDiagnostics {
    type V = ContextDiagnosticsModel;

    open spec fn deep_view(&self) -> ContextDiagnosticsModel {
        self@
    }
}

impl Duplicate for ContextDiagnostics {
    fn duplicate(&self) -> (copy: Self) {
        ContextDiagnostics {
            estimated_tokens: self.estimated_tokens.duplicate(),
            omitted_items: self.omitted_items.duplicate(),
        }
    }
}

/// The memory that is handed to an agent.
#[derive(Clone, Debug, PartialEq, Eq)]
pub struct ContextBundle {
    pub claims: Vec<Claim>,
    pub pending_claims: Vec<Claim>,
    pub continuation: Option<ContinuationDraft>,
    pub continuity_views: Vec<MemoryView>,
    pub observations: Vec<Observation>,
    pub recent_events: Vec<MemoryEvent>,
    pub recalled_evidence: Vec<MemoryEvent>,
    pub diagnostics: ContextDiagnostics,
}

/// The mathematical content of a `ContextBundle`.
#[verifier::ext_equal]
pub struct ContextBundleModel {
    pub claims: Seq<ClaimModel>,
    pub pending_claims: Seq<ClaimModel>,
    pub continuation: Option<ContinuationDraftModel>,
    pub continuity_views: Seq<MemoryViewModel>,
    pub observations: Seq<ObservationModel>,
    pub recent_events: Seq<MemoryEventModel>,
    pub recalled_evidence: Seq<MemoryEventModel>,
    pub diagnostics: ContextDiagnosticsModel,
}

impl View for ContextBundle {
    type V = ContextBundleModel;

    open spec fn view(&self) -> ContextBundleModel {
        ContextBundleModel {
            claims: self.claims.deep_view(),
            pending_claims: self.pending_claims.deep_view(),
            continuation: self.continuation.deep_view(),
            continuity_views: self.continuity_views.deep_view(),
            observations: self.observations.deep_view(),
            recent_events: self.recent_events.deep_view(),
            recalled_evidence: self.recalled_evidence.deep_view(),
            diagnostics: self.diagnostics.deep_view(),
        }
    }
}

impl DeepView for ContextBundle {
    type V = ContextBundleModel;

    open spec fn deep_view(&self) -> ContextBundleModel {
        self@
    }
}

impl Duplicate for ContextBundle {
    fn duplicate(&self) -> (copy: Self) {
        ContextBundle {
            claims: self.claims.duplicate(),
            pending_claims: self.pending_claims.duplicate(),
            continuation: self.continuation.duplicate(),
            continuity_views: self.continuity_views.duplicate(),
            observations: self.observations.duplicate(),
            recent_events: self.recent_events.duplicate(),
            recalled_evidence: self.recalled_evidence.duplicate(),
            diagnostics: self.diagnostics.duplicate(),
        }
    }
}

/// A record that a full-text search found.
#[derive(Clone, Debug, PartialEq, Eq)]
pub struct SearchHit {
    pub record_type: String,
    pub id: String,
    pub scope_id: String,
    pub text: String,
    pub rank: Real,
}

/// The mathematical content of a `SearchHit`.
#[verifier::ext_equal]
pub struct SearchHitModel {
    pub record_type: Text,
    pub id: Text,
    pub scope_id: Text,
    pub text: Text,
    pub rank: Real,
}

impl View for SearchHit {
    type V = SearchHitModel;

    open spec fn view(&self) -> SearchHitModel {
        SearchHitModel {
            record_type: self.record_type.deep_view(),
            id: self.id.deep_view(),
            scope_id: self.scope_id.deep_view(),
            text: self.text.deep_view(),
            rank: self.rank.deep_view(),
        }
    }
}

impl DeepView for SearchHit {
    type V = SearchHitModel;

    open spec fn deep_view(&self) -> SearchHitModel {
        self@
    }
}

impl Duplicate for SearchHit {
    fn duplicate(&self) -> (copy: Self) {
        SearchHit {
            record_type: self.record_type.duplicate(),
            id: self.id.duplicate(),
            scope_id: self.scope_id.duplicate(),
            text: self.text.duplicate(),
            rank: self.rank.duplicate(),
        }
    }
}

/// From where, and how far, records are read.
#[derive(Clone, Debug, PartialEq, Eq)]
pub struct ReadAccess {
    pub anchor_scope_id: String,
    pub reveal_secrets: bool,
}

/// The mathematical content of a `ReadAccess`.
#[verifier::ext_equal]
pub struct ReadAccessModel {
    pub anchor_scope_id: Text,
    pub reveal_secrets: bool,
}

impl View for ReadAccess {
    type V = ReadAccessModel;

    open spec fn view(&self) -> ReadAccessModel {
        ReadAccessModel {
            anchor_scope_id: self.anchor_scope_id.deep_view(),
            reveal_secrets: self.reveal_secrets.deep_view(),
        }
    }
}

impl DeepView for ReadAccess {
    type V = ReadAccessModel;

    open spec fn deep_view(&self) -> ReadAccessModel {
        self@
    }
}

impl Duplicate for ReadAccess {
    fn duplicate(&self) -> (copy: Self) {
        ReadAccess {
            anchor_scope_id: self.anchor_scope_id.duplicate(),
            reveal_secrets: self.reveal_secrets.duplicate(),
        }
    }
}

/// A claim with its evidence.
#[derive(Clone, Debug, PartialEq, Eq)]
pub struct ClaimExplanation {
    pub claim: Claim,
    pub source_events: Vec<MemoryEvent>,
}

/// The mathematical content of a `ClaimExplanation`.
#[verifier::ext_equal]
pub struct ClaimExplanationModel {
    pub claim: ClaimModel,
    pub source_events: Seq<MemoryEventModel>,
}

impl View for ClaimExplanation {
    type V = ClaimExplanationModel;

    open spec fn view(&self) -> ClaimExplanationModel {
        ClaimExplanationModel {
            claim: self.claim.deep_view(),
            source_events: self.source_events.deep_view(),
        }
    }
}

impl DeepView for ClaimExplanation {
    type V = ClaimExplanationModel;

    open spec fn deep_view(&self) -> ClaimExplanationModel {
        self@
    }
}

impl Duplicate for ClaimExplanation {
    fn duplicate(&self) -> (copy: Self) {
        ClaimExplanation {
            claim: self.claim.duplicate(),
            source_events: self.source_events.duplicate(),
        }
    }
}

/// An observation with its evidence.
#[derive(Clone, Debug, PartialEq, Eq)]
pub struct ObservationExplanation {
    pub observation: Observation,
    pub source_events: Vec<MemoryEvent>,
}

/// The mathematical content of a `ObservationExplanation`.
#[verifier::ext_equal]
pub struct ObservationExplanationModel {
    pub observation: ObservationModel,
    pub source_events: Seq<MemoryEventModel>,
}

impl View for ObservationExplanation {
    type V = ObservationExplanationModel;

    open spec fn view(&self) -> ObservationExplanationModel {
        ObservationExplanationModel {
            observation: self.observation.deep_view(),
            source_events: self.source_events.deep_view(),
        }
    }
}

impl DeepView for ObservationExplanation {
    type V = ObservationExplanationModel;

    open spec fn deep_view(&self) -> ObservationExplanationModel {
        self@
    }
}

impl Duplicate for ObservationExplanation {
    fn duplicate(&self) -> (copy: Self) {
        ObservationExplanation {
            observation: self.observation.duplicate(),
            source_events: self.source_events.duplicate(),
        }
    }
}

/// An observation run as it is shown to callers.
#[derive(Clone, Debug, PartialEq, Eq)]
pub struct ObservationRunInfo {
    pub id: String,
    pub scope_id: String,
    pub stream_id: String,
    pub cursor_at_plan: i64,
    pub from_sequence: i64,
    pub to_sequence: i64,
    pub status: String,
    pub source_integrity: SourceIntegrity,
    pub observer_model: String,
    pub prompt_version: String,
    pub ambiguities: Vec<AmbiguityDraft>,
    pub error: Option<String>,
    pub next_action: Option<String>,
    pub created_at: String,
    pub updated_at: String,
}

/// The mathematical content of a `ObservationRunInfo`.
#[verifier::ext_equal]
pub struct ObservationRunInfoModel {
    pub id: Text,
    pub scope_id: Text,
    pub stream_id: Text,
    pub cursor_at_plan: i64,
    pub from_sequence: i64,
    pub to_sequence: i64,
    pub status: Text,
    pub source_integrity: SourceIntegrity,
    pub observer_model: Text,
    pub prompt_version: Text,
    pub ambiguities: Seq<AmbiguityDraftModel>,
    pub error: Option<Text>,
    pub next_action: Option<Text>,
    pub created_at: Text,
    pub updated_at: Text,
}

impl View for ObservationRunInfo {
    type V = ObservationRunInfoModel;

    open spec fn view(&self) -> ObservationRunInfoModel {
        ObservationRunInfoModel {
            id: self.id.deep_view(),
            scope_id: self.scope_id.deep_view(),
            stream_id: self.stream_id.deep_view(),
            cursor_at_plan: self.cursor_at_plan.deep_view(),
            from_sequence: self.from_sequence.deep_view(),
            to_sequence: self.to_sequence.deep_view(),
            status: self.status.deep_view(),
            source_integrity: self.source_integrity.deep_view(),
            observer_model: self.observer_model.deep_view(),
            prompt_version: self.prompt_version.deep_view(),
            ambiguities: self.ambiguities.deep_view(),
            error: self.error.deep_view(),
            next_action: self.next_action.deep_view(),
            created_at: self.created_at.deep_view(),
            updated_at: self.updated_at.deep_view(),
        }
    }
}

impl DeepView for ObservationRunInfo {
    type V = ObservationRunInfoModel;

    open spec fn deep_view(&self) -> ObservationRunInfoModel {
        self@
    }
}

impl Duplicate for ObservationRunInfo {
    fn duplicate(&self) -> (copy: Self) {
        ObservationRunInfo {
            id: self.id.duplicate(),
            scope_id: self.scope_id.duplicate(),
            stream_id: self.stream_id.duplicate(),
            cursor_at_plan: self.cursor_at_plan.duplicate(),
            from_sequence: self.from_sequence.duplicate(),
            to_sequence: self.to_sequence.duplicate(),
            status: self.status.duplicate(),
            source_integrity: self.source_integrity.duplicate(),
            observer_model: self.observer_model.duplicate(),
            prompt_version: self.prompt_version.duplicate(),
            ambiguities: self.ambiguities.duplicate(),
            error: self.error.duplicate(),
            next_action: self.next_action.duplicate(),
            created_at: self.created_at.duplicate(),
            updated_at: self.updated_at.duplicate(),
        }
    }
}

/// How far a stream has been recorded and observed.
#[derive(Clone, Debug, PartialEq, Eq)]
pub struct StreamStatus {
    pub id: String,
    pub scope_id: String,
    pub observed_through_sequence: i64,
    pub next_sequence: i64,
    pub last_sequence: Option<i64>,
    pub runs: Vec<ObservationRunInfo>,
}

/// The mathematical content of a `StreamStatus`.
#[verifier::ext_equal]
pub struct StreamStatusModel {
    pub id: Text,
    pub scope_id: Text,
    pub observed_through_sequence: i64,
    pub next_sequence: i64,
    pub last_sequence: Option<i64>,
    pub runs: Seq<ObservationRunInfoModel>,
}

impl View for StreamStatus {
    type V = StreamStatusModel;

    open spec fn view(&self) -> StreamStatusModel {
        StreamStatusModel {
            id: self.id.deep_view(),
            scope_id: self.scope_id.deep_view(),
            observed_through_sequence: self.observed_through_sequence.deep_view(),
            next_sequence: self.next_sequence.deep_view(),
            last_sequence: self.last_sequence.deep_view(),
            runs: self.runs.deep_view(),
        }
    }
}

impl DeepView for StreamStatus {
    type V = StreamStatusModel;

    open spec fn deep_view(&self) -> StreamStatusModel {
        self@
    }
}

impl Duplicate for StreamStatus {
    fn duplicate(&self) -> (copy: Self) {
        StreamStatus {
            id: self.id.duplicate(),
            scope_id: self.scope_id.duplicate(),
            observed_through_sequence: self.observed_through_sequence.duplicate(),
            next_sequence: self.next_sequence.duplicate(),
            last_sequence: self.last_sequence.duplicate(),
            runs: self.runs.duplicate(),
        }
    }
}

/// The answer to a request for an observation plan.
#[derive(Clone, Debug, PartialEq, Eq)]
pub enum ObservationPlanOutcome {
    /// There is evidence to observe.
    Ready { plan: Box<ObservationPlan>, next_action: String },
    /// Everything recorded so far has been observed.
    CaughtUp {
        scope_id: String,
        stream_id: String,
        observed_through_sequence: i64,
        next_action: String,
    },
}

/// The mathematical content of an `ObservationPlanOutcome`.
#[verifier::ext_equal]
pub enum ObservationPlanOutcomeModel {
    Ready { plan: ObservationPlanModel, next_action: Text },
    CaughtUp { scope_id: Text, stream_id: Text, observed_through_sequence: i64, next_action: Text },
}

impl View for ObservationPlanOutcome {
    type V = ObservationPlanOutcomeModel;

    open spec fn view(&self) -> ObservationPlanOutcomeModel {
        match self {
            ObservationPlanOutcome::Ready {
                plan,
                next_action,
            } => ObservationPlanOutcomeModel::Ready { plan: (**plan)@, next_action: next_action@ },
            ObservationPlanOutcome::CaughtUp {
                scope_id,
                stream_id,
                observed_through_sequence,
                next_action,
            } => ObservationPlanOutcomeModel::CaughtUp {
                scope_id: scope_id@,
                stream_id: stream_id@,
                observed_through_sequence: *observed_through_sequence,
                next_action: next_action@,
            },
        }
    }
}

impl DeepView for ObservationPlanOutcome {
    type V = ObservationPlanOutcomeModel;

    open spec fn deep_view(&self) -> ObservationPlanOutcomeModel {
        self@
    }
}

impl Duplicate for ObservationPlanOutcome {
    fn duplicate(&self) -> (copy: Self) {
        match self {
            ObservationPlanOutcome::Ready {
                plan,
                next_action,
            } => ObservationPlanOutcome::Ready {
                plan: Box::new((**plan).duplicate()),
                next_action: next_action.duplicate(),
            },
            ObservationPlanOutcome::CaughtUp {
                scope_id,
                stream_id,
                observed_through_sequence,
                next_action,
            } => ObservationPlanOutcome::CaughtUp {
                scope_id: scope_id.duplicate(),
                stream_id: stream_id.duplicate(),
                observed_through_sequence: *observed_through_sequence,
                next_action: next_action.duplicate(),
            },
        }
    }
}

impl Mentions for ObservationPlanOutcome {
    open spec fn mentioned(value: ObservationPlanOutcomeModel, id: Text) -> bool {
        match value {
            ObservationPlanOutcomeModel::Ready { plan, next_action } => {
                ||| <ObservationPlan as Mentions>::mentioned(plan, id)
                ||| <String as Mentions>::mentioned(next_action, id)
            },
            ObservationPlanOutcomeModel::CaughtUp {
                scope_id,
                stream_id,
                observed_through_sequence,
                next_action,
            } => {
                ||| <String as Mentions>::mentioned(scope_id, id)
                ||| <String as Mentions>::mentioned(stream_id, id)
                ||| <String as Mentions>::mentioned(next_action, id)
            },
        }
    }

    fn mentions(&self, id: &str) -> (b: bool) {
        match self {
            ObservationPlanOutcome::Ready { plan, next_action } => (**plan).mentions(id)
                || next_action.mentions(id),
            ObservationPlanOutcome::CaughtUp { scope_id, stream_id, next_action, .. } => scope_id.mentions(id)
                || stream_id.mentions(id) || next_action.mentions(id),
        }
    }
}

/// The outcome that hands out a plan.
pub open spec fn ready_outcome(plan: ObservationPlanModel) -> ObservationPlanOutcomeModel {
    ObservationPlanOutcomeModel::Ready {
        plan,
        next_action: "produce a strict ObserverResult for run "@ + plan.run_id
            + " and commit it"@,
    }
}

/// The outcome that says that nothing is left to observe.
pub open spec fn caught_up_outcome(
    scope_id: Text,
    stream_id: Text,
    cursor: i64,
) -> ObservationPlanOutcomeModel {
    ObservationPlanOutcomeModel::CaughtUp {
        scope_id,
        stream_id,
        observed_through_sequence: cursor,
        next_action:
            "append new evidence or wait for new events; use a new idempotency key for the next plan"@,
    }
}

impl ObservationPlanOutcome {
    pub fn ready(plan: ObservationPlan) -> (outcome: Self)
        ensures
            outcome@ == ready_outcome(plan@),
    {
        let next_action: String = concat3(
            "produce a strict ObserverResult for run ",
            plan.run_id.as_str(),
            " and commit it",
        );
        ObservationPlanOutcome::Ready { plan: Box::new(plan), next_action }
    }

    pub fn caught_up(scope_id: &str, stream_id: &str, cursor: i64) -> (outcome: Self)
        ensures
            outcome@ == caught_up_outcome(scope_id@, stream_id@, cursor),
    {
        ObservationPlanOutcome::CaughtUp {
            scope_id: scope_id.to_owned(),
            stream_id: stream_id.to_owned(),
            observed_through_sequence: cursor,
            next_action:
                "append new evidence or wait for new events; use a new idempotency key for the next plan".to_owned(),
        }
    }

    pub fn into_plan(self) -> (plan: Option<ObservationPlan>)
        ensures
            plan.deep_view() == match self@ {
                ObservationPlanOutcomeModel::Ready { plan, .. } => Some(plan),
                ObservationPlanOutcomeModel::CaughtUp { .. } => None,
            },
    {
        match self {
            ObservationPlanOutcome::Ready { plan, .. } => Some(*plan),
            ObservationPlanOutcome::CaughtUp { .. } => None,
        }
    }
}

impl ReadAccess {
    /// The access of an agent: secrets stay redacted.
    pub fn agent(anchor_scope_id: &str) -> (access: Self)
        ensures
            access@ == (ReadAccessModel { anchor_scope_id: anchor_scope_id@, reveal_secrets: false }),
    {
        ReadAccess { anchor_scope_id: anchor_scope_id.to_owned(), reveal_secrets: false }
    }
}

impl Default for ContinuationDraft {
    fn default() -> (draft: Self)
        ensures
            draft@ == (ContinuationDraftModel {
                current_task: None,
                completed: Seq::empty(),
                blockers: Seq::empty(),
                next_actions: Seq::empty(),
                unresolved_questions: Seq::empty(),
            }),
    {
        let draft = ContinuationDraft {
            current_task: None,
            completed: Vec::new(),
            blockers: Vec::new(),
            next_actions: Vec::new(),
            unresolved_questions: Vec::new(),
        };
        proof {
            assert(draft@.completed =~= Seq::empty());
            assert(draft@.blockers =~= Seq::empty());
            assert(draft@.next_actions =~= Seq::empty());
            assert(draft@.unresolved_questions =~= Seq::empty());
        }
        draft
    }
}

/// How a mutation came about.
#[derive(Clone, Copy, Debug, PartialEq, Eq, Structural)]
pub struct OperationMetadata {
    pub replayed: bool,
}

/// What a mutation answers: its data, and whether it was carried out now or replayed.
#[derive(Clone, Debug, PartialEq, Eq)]
pub struct MutationResult<T> {
    pub data: T,
    pub operation: OperationMetadata,
}

/// The mathematical content of a `MutationResult`.
#[verifier::ext_equal]
pub struct MutationModel<V> {
    pub data: V,
    pub replayed: bool,
}

impl<T: DeepView> DeepView for MutationResult<T> {
    type V = MutationModel<T::V>;

    open spec fn deep_view(&self) -> MutationModel<T::V> {
        MutationModel { data: self.data.deep_view(), replayed: self.operation.replayed }
    }
}

impl<T> MutationResult<T> {
    pub fn created(data: T) -> (result: Self)
        ensures
            result.data == data,
            !result.operation.replayed,
    {
        MutationResult { data, operation: OperationMetadata { replayed: false } }
    }

    pub fn replayed(data: T) -> (result: Self)
        ensures
            result.data == data,
            result.operation.replayed,
    {
        MutationResult { data, operation: OperationMetadata { replayed: true } }
    }
}

impl<T> core::ops::Deref for MutationResult<T> {
    type Target = T;

    fn deref(&self) -> (data: &T)
        ensures
            *data == self.data,
    {
        &self.data
    }
}

} // verus!
