//! The rows of the kernel's tables.

use vstd::prelude::*;

use crate::json::JsonValue;
use crate::kind::{
    ClaimAuthority, ClaimCardinality, ClaimKind, ClaimModality, ClaimStatus, RunStatus, SourceIntegrity,
};
use crate::mention::Mentions;
use crate::model::{
    AmbiguityDraft, AmbiguityDraftModel, Claim, ClaimModel, ClaimPurge, ClaimPurgeModel, ContinuationDraft,
    ContinuationDraftModel, EventPurge, EventPurgeModel, MemoryEvent, MemoryEventModel, MemoryView,
    MemoryViewModel, Observation, ObservationModel, ObservationCommit, ObservationCommitModel, ObservationFailure,
    ObservationFailureModel, ObservationPlanOutcome, ObservationPlanOutcomeModel,
    ReconciliationSummary, ReconciliationSummaryModel, Scope, ScopeModel,
};
use crate::table::Duplicate;
use crate::text::Text;

verus! {

/// A stream of events.
#[derive(Clone, Debug, PartialEq, Eq)]
pub struct StreamRow {
    pub id: String,
    pub scope_id: String,
    pub observed_through_sequence: i64,
    pub next_sequence: i64,
    pub created_at: String,
}

/// The mathematical content of a `StreamRow`.
#[verifier::ext_equal]
pub struct StreamRowModel {
    pub id: Text,
    pub scope_id: Text,
    pub observed_through_sequence: i64,
    pub next_sequence: i64,
    pub created_at: Text,
}

impl View for StreamRow {
    type V = StreamRowModel;

    open spec fn view(&self) -> StreamRowModel {
        StreamRowModel {
            id: self.id.deep_view(),
            scope_id: self.scope_id.deep_view(),
            observed_through_sequence: self.observed_through_sequence.deep_view(),
            next_sequence: self.next_sequence.deep_view(),
            created_at: self.created_at.deep_view(),
        }
    }
}

impl DeepView for StreamRow {
    type V = StreamRowModel;

    open spec fn deep_view(&self) -> StreamRowModel {
        self@
    }
}

impl Duplicate for StreamRow {
    fn duplicate(&self) -> (copy: Self) {
        StreamRow {
            id: self.id.duplicate(),
            scope_id: self.scope_id.duplicate(),
            observed_through_sequence: self.observed_through_sequence.duplicate(),
            next_sequence: self.next_sequence.duplicate(),
            created_at: self.created_at.duplicate(),
        }
    }
}

/// An observation run.
#[derive(Clone, Debug, PartialEq, Eq)]
pub struct RunRow {
    pub id: String,
    pub scope_id: String,
    pub stream_id: String,
    pub cursor_at_plan: i64,
    pub from_sequence: i64,
    pub to_sequence: i64,
    pub status: RunStatus,
    pub source_integrity: SourceIntegrity,
    pub observer_model: String,
    pub prompt_version: String,
    pub ambiguities: Vec<AmbiguityDraft>,
    pub error: Option<String>,
    pub created_at: String,
    pub updated_at: String,
}

/// The mathematical content of a `RunRow`.
#[verifier::ext_equal]
pub struct RunRowModel {
    pub id: Text,
    pub scope_id: Text,
    pub stream_id: Text,
    pub cursor_at_plan: i64,
    pub from_sequence: i64,
    pub to_sequence: i64,
    pub status: RunStatus,
    pub source_integrity: SourceIntegrity,
    pub observer_model: Text,
    pub prompt_version: Text,
    pub ambiguities: Seq<AmbiguityDraftModel>,
    pub error: Option<Text>,
    pub created_at: Text,
    pub updated_at: Text,
}

impl View for RunRow {
    type V = RunRowModel;

    open spec fn view(&self) -> RunRowModel {
        RunRowModel {
            id: self.id.deep_view(),
            scope_id: self.scope_id.deep_view(),
            stream_id: self.stream_id.deep_view(),
            cursor_at_plan: self.cursor_at_plan.deep_view(),
            from_sequence: self.from_sequence.deep_view(),
            to_sequence: self.to_sequence.deep_view(),
            status: self.status.deep_view(),
            source_integrity: self.source_integrity.deep_view(),
            observer_model: self.observer_model.deep_view(),
            prompt_version: self.prompt_version.deep_view(),
            ambiguities: self.ambiguities.deep_view(),
            error: self.error.deep_view(),
            created_at: self.created_at.deep_view(),
            updated_at: self.updated_at.deep_view(),
        }
    }
}

impl DeepView for RunRow {
    type V = RunRowModel;

    open spec fn deep_view(&self) -> RunRowModel {
        self@
    }
}

impl Duplicate for RunRow {
    fn duplicate(&self) -> (copy: Self) {
        RunRow {
            id: self.id.duplicate(),
            scope_id: self.scope_id.duplicate(),
            stream_id: self.stream_id.duplicate(),
            cursor_at_plan: self.cursor_at_plan.duplicate(),
            from_sequence: self.from_sequence.duplicate(),
            to_sequence: self.to_sequence.duplicate(),
            status: self.status.duplicate(),
            source_integrity: self.source_integrity.duplicate(),
            observer_model: self.observer_model.duplicate(),
            prompt_version: self.prompt_version.duplicate(),
            ambiguities: self.ambiguities.duplicate(),
            error: self.error.duplicate(),
            created_at: self.created_at.duplicate(),
            updated_at: self.updated_at.duplicate(),
        }
    }
}

/// A link from a derived record to one that it rests on.
#[derive(Clone, Debug, PartialEq, Eq)]
pub struct Link {
    pub holder_id: String,
    pub source_id: String,
}

/// The mathematical content of a `Link`.
#[verifier::ext_equal]
pub struct LinkModel {
    pub holder_id: Text,
    pub source_id: Text,
}

impl View for Link {
    type V = LinkModel;

    open spec fn view(&self) -> LinkModel {
        LinkModel {
            holder_id: self.holder_id.deep_view(),
            source_id: self.source_id.deep_view(),
        }
    }
}

impl DeepView for Link {
    type V = LinkModel;

    open spec fn deep_view(&self) -> LinkModel {
        self@
    }
}

impl Duplicate for Link {
    fn duplicate(&self) -> (copy: Self) {
        Link {
            holder_id: self.holder_id.duplicate(),
            source_id: self.source_id.duplicate(),
        }
    }
}

/// The cardinality that a claim slot is used with.
#[derive(Clone, Debug, PartialEq, Eq)]
pub struct SlotRow {
    pub scope_id: String,
    pub kind: ClaimKind,
    pub subject: String,
    pub predicate: String,
    pub cardinality: ClaimCardinality,
}

/// The mathematical content of a `SlotRow`.
#[verifier::ext_equal]
pub struct SlotRowModel {
    pub scope_id: Text,
    pub kind: ClaimKind,
    pub subject: Text,
    pub predicate: Text,
    pub cardinality: ClaimCardinality,
}

impl View for SlotRow {
    type V = SlotRowModel;

    open spec fn view(&self) -> SlotRowModel {
        SlotRowModel {
            scope_id: self.scope_id.deep_view(),
            kind: self.kind.deep_view(),
            subject: self.subject.deep_view(),
            predicate: self.predicate.deep_view(),
            cardinality: self.cardinality.deep_view(),
        }
    }
}

impl DeepView for SlotRow {
    type V = SlotRowModel;

    open spec fn deep_view(&self) -> SlotRowModel {
        self@
    }
}

impl Duplicate for SlotRow {
    fn duplicate(&self) -> (copy: Self) {
        SlotRow {
            scope_id: self.scope_id.duplicate(),
            kind: self.kind.duplicate(),
            subject: self.subject.duplicate(),
            predicate: self.predicate.duplicate(),
            cardinality: self.cardinality.duplicate(),
        }
    }
}

/// A memory view, with the continuation that its content writes out.
#[derive(Clone, Debug, PartialEq, Eq)]
pub struct ViewRow {
    pub view: MemoryView,
    pub continuation: Option<ContinuationDraft>,
}

/// The mathematical content of a `ViewRow`.
#[verifier::ext_equal]
pub struct ViewRowModel {
    pub view: MemoryViewModel,
    pub continuation: Option<ContinuationDraftModel>,
}

impl View for ViewRow {
    type V = ViewRowModel;

    open spec fn view(&self) -> ViewRowModel {
        ViewRowModel {
            view: self.view.deep_view(),
            continuation: self.continuation.deep_view(),
        }
    }
}

impl DeepView for ViewRow {
    type V = ViewRowModel;

    open spec fn deep_view(&self) -> ViewRowModel {
        self@
    }
}

impl Duplicate for ViewRow {
    fn duplicate(&self) -> (copy: Self) {
        ViewRow {
            view: self.view.duplicate(),
            continuation: self.continuation.duplicate(),
        }
    }
}

/// A text that the full-text index holds for a record.
#[derive(Clone, Debug, PartialEq, Eq)]
pub struct IndexRow {
    pub record_type: String,
    pub record_id: String,
    pub scope_id: String,
    pub text: String,
}

/// The mathematical content of a `IndexRow`.
#[verifier::ext_equal]
pub struct IndexRowModel {
    pub record_type: Text,
    pub record_id: Text,
    pub scope_id: Text,
    pub text: Text,
}

impl View for IndexRow {
    type V = IndexRowModel;

    open spec fn view(&self) -> IndexRowModel {
        IndexRowModel {
            record_type: self.record_type.deep_view(),
            record_id: self.record_id.deep_view(),
            scope_id: self.scope_id.deep_view(),
            text: self.text.deep_view(),
        }
    }
}

impl DeepView for IndexRow {
    type V = IndexRowModel;

    open spec fn deep_view(&self) -> IndexRowModel {
        self@
    }
}

impl Duplicate for IndexRow {
    fn duplicate(&self) -> (copy: Self) {
        IndexRow {
            record_type: self.record_type.duplicate(),
            record_id: self.record_id.duplicate(),
            scope_id: self.scope_id.duplicate(),
            text: self.text.duplicate(),
        }
    }
}

/// A claim that is stated or proposed directly, and the operation that does it.
#[derive(Clone, Debug, PartialEq, Eq)]
pub struct ClaimRequest {
    pub scope_id: String,
    pub kind: ClaimKind,
    pub subject: String,
    pub predicate: String,
    pub cardinality: ClaimCardinality,
    pub value: JsonValue,
    pub modality: ClaimModality,
    pub status: ClaimStatus,
    pub authority: ClaimAuthority,
    pub source_event_ids: Vec<String>,
    pub operation: String,
}

/// The mathematical content of a `ClaimRequest`.
#[verifier::ext_equal]
pub struct ClaimRequestModel {
    pub scope_id: Text,
    pub kind: ClaimKind,
    pub subject: Text,
    pub predicate: Text,
    pub cardinality: ClaimCardinality,
    pub value: Text,
    pub modality: ClaimModality,
    pub status: ClaimStatus,
    pub authority: ClaimAuthority,
    pub source_event_ids: Seq<Text>,
    pub operation: Text,
}

impl View for ClaimRequest {
    type V = ClaimRequestModel;

    open spec fn view(&self) -> ClaimRequestModel {
        ClaimRequestModel {
            scope_id: self.scope_id.deep_view(),
            kind: self.kind.deep_view(),
            subject: self.subject.deep_view(),
            predicate: self.predicate.deep_view(),
            cardinality: self.cardinality.deep_view(),
            value: self.value.deep_view(),
            modality: self.modality.deep_view(),
            status: self.status.deep_view(),
            authority: self.authority.deep_view(),
            source_event_ids: self.source_event_ids.deep_view(),
            operation: self.operation.deep_view(),
        }
    }
}

impl DeepView for ClaimRequest {
    type V = ClaimRequestModel;

    open spec fn deep_view(&self) -> ClaimRequestModel {
        self@
    }
}

impl Duplicate for ClaimRequest {
    fn duplicate(&self) -> (copy: Self) {
        ClaimRequest {
            scope_id: self.scope_id.duplicate(),
            kind: self.kind.duplicate(),
            subject: self.subject.duplicate(),
            predicate: self.predicate.duplicate(),
            cardinality: self.cardinality.duplicate(),
            value: self.value.duplicate(),
            modality: self.modality.duplicate(),
            status: self.status.duplicate(),
            authority: self.authority.duplicate(),
            source_event_ids: self.source_event_ids.duplicate(),
            operation: self.operation.duplicate(),
        }
    }
}

/// A change of a claim's standing.
#[derive(Clone, Debug, PartialEq, Eq)]
pub struct ClaimPatch {
    pub status: ClaimStatus,
    pub modality: Option<ClaimModality>,
    pub authority: Option<ClaimAuthority>,
    pub at: String,
}

/// The mathematical content of a `ClaimPatch`.
#[verifier::ext_equal]
pub struct ClaimPatchModel {
    pub status: ClaimStatus,
    pub modality: Option<ClaimModality>,
    pub authority: Option<ClaimAuthority>,
    pub at: Text,
}

impl View for ClaimPatch {
    type V = ClaimPatchModel;

    open spec fn view(&self) -> ClaimPatchModel {
        ClaimPatchModel {
            status: self.status.deep_view(),
            modality: self.modality.deep_view(),
            authority: self.authority.deep_view(),
            at: self.at.deep_view(),
        }
    }
}

impl DeepView for ClaimPatch {
    type V = ClaimPatchModel;

    open spec fn deep_view(&self) -> ClaimPatchModel {
        self@
    }
}

impl Duplicate for ClaimPatch {
    fn duplicate(&self) -> (copy: Self) {
        ClaimPatch {
            status: self.status.duplicate(),
            modality: self.modality.duplicate(),
            authority: self.authority.duplicate(),
            at: self.at.duplicate(),
        }
    }
}

/// A change of an observation run's standing.
#[derive(Clone, Debug, PartialEq, Eq)]
pub struct RunPatch {
    pub status: RunStatus,
    pub error: Option<String>,
    pub ambiguities: Option<Vec<AmbiguityDraft>>,
    pub at: String,
}

/// The mathematical content of a `RunPatch`.
#[verifier::ext_equal]
pub struct RunPatchModel {
    pub status: RunStatus,
    pub error: Option<Text>,
    pub ambiguities: Option<Seq<AmbiguityDraftModel>>,
    pub at: Text,
}

impl View for RunPatch {
    type V = RunPatchModel;

    open spec fn view(&self) -> RunPatchModel {
        RunPatchModel {
            status: self.status.deep_view(),
            error: self.error.deep_view(),
            ambiguities: self.ambiguities.deep_view(),
            at: self.at.deep_view(),
        }
    }
}

impl DeepView for RunPatch {
    type V = RunPatchModel;

    open spec fn deep_view(&self) -> RunPatchModel {
        self@
    }
}

impl Duplicate for RunPatch {
    fn duplicate(&self) -> (copy: Self) {
        RunPatch {
            status: self.status.duplicate(),
            error: self.error.duplicate(),
            ambiguities: self.ambiguities.duplicate(),
            at: self.at.duplicate(),
        }
    }
}

/// A record in a graph of dependencies: a claim, or a record of any other kind.
#[derive(Clone, Debug, PartialEq, Eq)]
pub struct Node {
    pub claim: bool,
    pub id: String,
}

/// The mathematical content of a `Node`.
#[verifier::ext_equal]
pub struct NodeModel {
    pub claim: bool,
    pub id: Text,
}

impl View for Node {
    type V = NodeModel;

    open spec fn view(&self) -> NodeModel {
        NodeModel {
            claim: self.claim.deep_view(),
            id: self.id.deep_view(),
        }
    }
}

impl DeepView for Node {
    type V = NodeModel;

    open spec fn deep_view(&self) -> NodeModel {
        self@
    }
}

impl Duplicate for Node {
    fn duplicate(&self) -> (copy: Self) {
        Node {
            claim: self.claim.duplicate(),
            id: self.id.duplicate(),
        }
    }
}

/// A dependency between two records.
#[derive(Clone, Debug, PartialEq, Eq)]
pub struct Edge {
    pub from: Node,
    pub to: Node,
}

/// The mathematical content of a `Edge`.
#[verifier::ext_equal]
pub struct EdgeModel {
    pub from: NodeModel,
    pub to: NodeModel,
}

impl View for Edge {
    type V = EdgeModel;

    open spec fn view(&self) -> EdgeModel {
        EdgeModel {
            from: self.from.deep_view(),
            to: self.to.deep_view(),
        }
    }
}

impl DeepView for Edge {
    type V = EdgeModel;

    open spec fn deep_view(&self) -> EdgeModel {
        self@
    }
}

impl Duplicate for Edge {
    fn duplicate(&self) -> (copy: Self) {
        Edge {
            from: self.from.duplicate(),
            to: self.to.duplicate(),
        }
    }
}

/// A completed operation: its key, its request and its result, the last two unless purged.
#[derive(Clone, Debug, PartialEq, Eq)]
pub struct OperationRow {
    pub key: String,
    pub operation: String,
    pub request_hash: Option<String>,
    pub result: Option<StoredResult>,
}

/// The mathematical content of a `OperationRow`.
#[verifier::ext_equal]
pub struct OperationRowModel {
    pub key: Text,
    pub operation: Text,
    pub request_hash: Option<Text>,
    pub result: Option<StoredResultModel>,
}

impl View for OperationRow {
    type V = OperationRowModel;

    open spec fn view(&self) -> OperationRowModel {
        OperationRowModel {
            key: self.key.deep_view(),
            operation: self.operation.deep_view(),
            request_hash: self.request_hash.deep_view(),
            result: self.result.deep_view(),
        }
    }
}

impl DeepView for OperationRow {
    type V = OperationRowModel;

    open spec fn deep_view(&self) -> OperationRowModel {
        self@
    }
}

impl Duplicate for OperationRow {
    fn duplicate(&self) -> (copy: Self) {
        OperationRow {
            key: self.key.duplicate(),
            operation: self.operation.duplicate(),
            request_hash: self.request_hash.duplicate(),
            result: self.result.duplicate(),
        }
    }
}

/// The whole memory: its tables.
#[derive(Clone, Debug, PartialEq, Eq)]
pub struct MemoryStore {
    pub scopes: Vec<Scope>,
    pub streams: Vec<StreamRow>,
    pub events: Vec<MemoryEvent>,
    pub runs: Vec<RunRow>,
    pub observations: Vec<Observation>,
    pub observation_sources: Vec<Link>,
    pub claims: Vec<Claim>,
    pub claim_sources: Vec<Link>,
    pub claim_slots: Vec<SlotRow>,
    pub views: Vec<ViewRow>,
    pub view_sources: Vec<Link>,
    pub index: Vec<IndexRow>,
    pub operations: Vec<OperationRow>,
}

/// The mathematical content of a `MemoryStore`.
#[verifier::ext_equal]
pub struct MemoryStoreModel {
    pub scopes: Seq<ScopeModel>,
    pub streams: Seq<StreamRowModel>,
    pub events: Seq<MemoryEventModel>,
    pub runs: Seq<RunRowModel>,
    pub observations: Seq<ObservationModel>,
    pub observation_sources: Seq<LinkModel>,
    pub claims: Seq<ClaimModel>,
    pub claim_sources: Seq<LinkModel>,
    pub claim_slots: Seq<SlotRowModel>,
    pub views: Seq<ViewRowModel>,
    pub view_sources: Seq<LinkModel>,
    pub index: Seq<IndexRowModel>,
    pub operations: Seq<OperationRowModel>,
}

impl View for MemoryStore {
    type V = MemoryStoreModel;

    open spec fn view(&self) -> MemoryStoreModel {
        MemoryStoreModel {
            scopes: self.scopes.deep_view(),
            streams: self.streams.deep_view(),
            events: self.events.deep_view(),
            runs: self.runs.deep_view(),
            observations: self.observations.deep_view(),
            observation_sources: self.observation_sources.deep_view(),
            claims: self.claims.deep_view(),
            claim_sources: self.claim_sources.deep_view(),
            claim_slots: self.claim_slots.deep_view(),
            views: self.views.deep_view(),
            view_sources: self.view_sources.deep_view(),
            index: self.index.deep_view(),
            operations: self.operations.deep_view(),
        }
    }
}

impl DeepView for MemoryStore {
    type V = MemoryStoreModel;

    open spec fn deep_view(&self) -> MemoryStoreModel {
        self@
    }
}

impl Duplicate for MemoryStore {
    fn duplicate(&self) -> (copy: Self) {
        MemoryStore {
            scopes: self.scopes.duplicate(),
            streams: self.streams.duplicate(),
            events: self.events.duplicate(),
            runs: self.runs.duplicate(),
            observations: self.observations.duplicate(),
            observation_sources: self.observation_sources.duplicate(),
            claims: self.claims.duplicate(),
            claim_sources: self.claim_sources.duplicate(),
            claim_slots: self.claim_slots.duplicate(),
            views: self.views.duplicate(),
            view_sources: self.view_sources.duplicate(),
            index: self.index.duplicate(),
            operations: self.operations.duplicate(),
        }
    }
}

/// The result of a completed operation.
#[derive(Clone, Debug, PartialEq, Eq)]
pub enum StoredResult {
    Scope(Scope),
    Event(MemoryEvent),
    Claim(Claim),
    Plan(ObservationPlanOutcome),
    Commit(ObservationCommit),
    View(MemoryView),
    Reconciliation(ReconciliationSummary),
    ClaimPurge(ClaimPurge),
    EventPurge(EventPurge),
    Failure(ObservationFailure),
}

/// The mathematical content of a `StoredResult`.
#[verifier::ext_equal]
pub enum StoredResultModel {
    Scope(ScopeModel),
    Event(MemoryEventModel),
    Claim(ClaimModel),
    Plan(ObservationPlanOutcomeModel),
    Commit(ObservationCommitModel),
    View(MemoryViewModel),
    Reconciliation(ReconciliationSummaryModel),
    ClaimPurge(ClaimPurgeModel),
    EventPurge(EventPurgeModel),
    Failure(ObservationFailureModel),
}

impl View for StoredResult {
    type V = StoredResultModel;

    open spec fn view(&self) -> StoredResultModel {
        match self {
            StoredResult::Scope(value) => StoredResultModel::Scope(value@),
            StoredResult::Event(value) => StoredResultModel::Event(value@),
            StoredResult::Claim(value) => StoredResultModel::Claim(value@),
            StoredResult::Plan(value) => StoredResultModel::Plan(value@),
            StoredResult::Commit(value) => StoredResultModel::Commit(value@),
            StoredResult::View(value) => StoredResultModel::View(value@),
            StoredResult::Reconciliation(value) => StoredResultModel::Reconciliation(value@),
            StoredResult::ClaimPurge(value) => StoredResultModel::ClaimPurge(value@),
            StoredResult::EventPurge(value) => StoredResultModel::EventPurge(value@),
            StoredResult::Failure(value) => StoredResultModel::Failure(value@),
        }
    }
}

impl DeepView for StoredResult {
    type V = StoredResultModel;

    open spec fn deep_view(&self) -> StoredResultModel {
        self@
    }
}

impl Duplicate for StoredResult {
    fn duplicate(&self) -> (copy: Self) {
        match self {
            StoredResult::Scope(value) => StoredResult::Scope(value.duplicate()),
            StoredResult::Event(value) => StoredResult::Event(value.duplicate()),
            StoredResult::Claim(value) => StoredResult::Claim(value.duplicate()),
            StoredResult::Plan(value) => StoredResult::Plan(value.duplicate()),
            StoredResult::Commit(value) => StoredResult::Commit(value.duplicate()),
            StoredResult::View(value) => StoredResult::View(value.duplicate()),
            StoredResult::Reconciliation(value) => StoredResult::Reconciliation(value.duplicate()),
            StoredResult::ClaimPurge(value) => StoredResult::ClaimPurge(value.duplicate()),
            StoredResult::EventPurge(value) => StoredResult::EventPurge(value.duplicate()),
            StoredResult::Failure(value) => StoredResult::Failure(value.duplicate()),
        }
    }
}

impl Mentions for StoredResult {
    open spec fn mentioned(value: StoredResultModel, id: Text) -> bool {
        match value {
            StoredResultModel::Scope(value) => <Scope as Mentions>::mentioned(value, id),
            StoredResultModel::Event(value) => <MemoryEvent as Mentions>::mentioned(value, id),
            StoredResultModel::Claim(value) => <Claim as Mentions>::mentioned(value, id),
            StoredResultModel::Plan(value) => <ObservationPlanOutcome as Mentions>::mentioned(value, id),
            StoredResultModel::Commit(value) => <ObservationCommit as Mentions>::mentioned(value, id),
            StoredResultModel::View(value) => <MemoryView as Mentions>::mentioned(value, id),
            StoredResultModel::Reconciliation(value) => <ReconciliationSummary as Mentions>::mentioned(value, id),
            StoredResultModel::ClaimPurge(value) => <ClaimPurge as Mentions>::mentioned(value, id),
            StoredResultModel::EventPurge(value) => <EventPurge as Mentions>::mentioned(value, id),
            StoredResultModel::Failure(value) => <ObservationFailure as Mentions>::mentioned(value, id),
        }
    }

    fn mentions(&self, id: &str) -> (b: bool) {
        match self {
            StoredResult::Scope(value) => value.mentions(id),
            StoredResult::Event(value) => value.mentions(id),
            StoredResult::Claim(value) => value.mentions(id),
            StoredResult::Plan(value) => value.mentions(id),
            StoredResult::Commit(value) => value.mentions(id),
            StoredResult::View(value) => value.mentions(id),
            StoredResult::Reconciliation(value) => value.mentions(id),
            StoredResult::ClaimPurge(value) => value.mentions(id),
            StoredResult::EventPurge(value) => value.mentions(id),
            StoredResult::Failure(value) => value.mentions(id),
        }
    }
}

} // verus!
