//! An observational memory kernel: scopes, append-only event streams, observation runs, claims,
//! continuity views and context bundles, with every state change proved against its contract.

pub mod budget;
pub mod claim;
pub mod claim_table;
pub mod column;
pub mod context;
pub mod digest;
pub mod error;
pub mod event;
pub mod graph;
pub mod json;
pub mod kind;
pub mod law_accept;
pub mod law_bundle;
pub mod law_claim;
pub mod law_command;
pub mod law_commit;
pub mod law_context;
pub mod law_event;
pub mod law_history;
pub mod law_index;
pub mod law_lifecycle;
pub mod law_memory;
pub mod law_observation;
pub mod law_order;
pub mod law_plan;
pub mod law_privacy;
pub mod law_purge;
pub mod law_read;
pub mod law_reconcile;
pub mod law_record;
pub mod law_refusal;
pub mod law_replay;
pub mod law_report;
pub mod law_request;
pub mod law_scope;
pub mod law_source;
pub mod law_value;
pub mod mention;
pub mod model;
pub mod observation;
pub mod observer;
pub mod operation;
pub mod order;
pub mod privacy;
pub mod recall;
pub mod report;
pub mod row;
pub mod scope;
pub mod score;
pub mod stamp;
pub mod store;
pub mod table;
pub mod text;
pub mod transition;
pub mod view;

pub use error::{KernelError, KernelErrorKind};
pub use json::JsonValue;
pub use kind::{
    enum_text, parse_enum, ClaimAuthority, ClaimCardinality, ClaimKind, ClaimModality, ClaimStatus,
    ContinuationAction, EventKind, ObservationKind, RunStatus, ScopeKind, Sensitivity, SourceIntegrity,
    ViewKind,
};
pub use model::{
    AmbiguityDraft, Claim, ClaimDraft, ClaimExplanation, ClaimPurge, ContextBundle, ContextDiagnostics,
    ContinuationDraft, CreateView, EventPurge, MemoryEvent, MemoryView, MutationResult, NewEvent,
    Observation, ObservationCommit, ObservationDraft, ObservationExplanation, ObservationFailure,
    ObservationPlan, ObservationPlanOutcome, ObservationRunInfo, ObserverResult, OmittedItem,
    OperationMetadata, ReadAccess, ReconciliationSummary, Scope, SearchHit, StreamStatus,
};
pub use row::MemoryStore;
pub use score::{Real, Score};
pub use store::SCHEMA_VERSION;
