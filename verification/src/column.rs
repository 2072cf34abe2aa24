//! Records out of stored columns: words and JSON values come as texts and are checked.

use vstd::prelude::*;

use crate::digest::{hash_json, json_hash};
use crate::error::{invalid, seen, ErrorModel, KernelError};
use crate::json::{json_parsed, JsonValue};
use crate::kind::{
    parse_enum, unknown_word, word_of, ClaimAuthority, ClaimCardinality, ClaimKind, ClaimModality,
    ClaimStatus, EventKind, ObservationKind, RunStatus, ScopeKind, Sensitivity, SourceIntegrity,
    ViewKind,
};
use crate::model::{
    Claim, ClaimModel, MemoryEvent, MemoryEventModel, MemoryView, MemoryViewModel, Observation,
    ObservationModel, Scope, ScopeModel,
};
use crate::row::{RunRow, RunRowModel, SlotRow, SlotRowModel};
use crate::score::Real;
use crate::text::{same_text, Text};

verus! {

/// The error for a column that does not hold JSON.
pub open spec fn not_json() -> ErrorModel {
    invalid("parsing a stored JSON column"@)
}

pub open spec fn hash_mismatch() -> ErrorModel {
    invalid("event content hash mismatch"@)
}

/// A stored JSON column.
pub fn parse_json_column(raw: &str) -> (value: Result<JsonValue, KernelError>)
    ensures
        seen(value) == match json_parsed(raw@) {
            Some(text) => Ok(text),
            None => Err(not_json()),
        },
{
    match JsonValue::parse(raw) {
        Some(value) => Ok(value),
        None => Err(KernelError::invalid_input("parsing a stored JSON column")),
    }
}

/// The columns of a stored event.
pub struct EventColumns {
    pub id: String,
    pub stream_id: String,
    pub sequence: i64,
    pub scope_id: String,
    pub kind: String,
    pub actor_id: Option<String>,
    pub occurred_at: String,
    pub recorded_at: String,
    pub content_json: String,
    pub content_hash: String,
    pub token_count: i64,
    pub sensitivity: String,
    pub metadata_json: String,
}

/// The event that some columns stand for, given what its JSON columns hold and the hash of its
/// content.
pub open spec fn event_of_parts(
    columns: EventColumns,
    content: Text,
    hash: Text,
    metadata: Option<Text>,
) -> Result<MemoryEventModel, ErrorModel> {
    let kind = word_of::<EventKind>(columns.kind@);
    let sensitivity = word_of::<Sensitivity>(columns.sensitivity@);
    if hash != columns.content_hash@ {
        Err(hash_mismatch())
    } else if kind is None {
        Err(unknown_word(columns.kind@))
    } else if sensitivity is None {
        Err(unknown_word(columns.sensitivity@))
    } else if metadata is None {
        Err(not_json())
    } else {
        Ok(
            MemoryEventModel {
                id: columns.id@,
                stream_id: columns.stream_id@,
                sequence: columns.sequence,
                scope_id: columns.scope_id@,
                kind: kind.unwrap(),
                actor_id: columns.actor_id.deep_view(),
                occurred_at: columns.occurred_at@,
                recorded_at: columns.recorded_at@,
                content,
                content_hash: columns.content_hash@,
                token_count: columns.token_count,
                sensitivity: sensitivity.unwrap(),
                metadata: metadata.unwrap(),
            },
        )
    }
}

/// The event that some columns stand for. Its content has to match the hash that was stored with
/// it.
pub open spec fn event_of_columns(columns: EventColumns) -> Result<MemoryEventModel, ErrorModel> {
    match json_parsed(columns.content_json@) {
        None => Err(not_json()),
        Some(content) => event_of_parts(
            columns,
            content,
            json_hash(content),
            json_parsed(columns.metadata_json@),
        ),
    }
}

pub fn row_event(columns: EventColumns) -> (event: Result<MemoryEvent, KernelError>)
    ensures
        seen(event) == event_of_columns(columns),
{
    let content: JsonValue = match parse_json_column(columns.content_json.as_str()) {
        Ok(content) => content,
        Err(error) => return Err(error),
    };
    let hash: String = hash_json(&content);
    let metadata: Option<JsonValue> = JsonValue::parse(columns.metadata_json.as_str());
    event_from_parts(columns, content, hash.as_str(), metadata)
}

/// Builds an event of its columns, of what its JSON columns hold and of the hash of its content.
pub fn event_from_parts(
    columns: EventColumns,
    content: JsonValue,
    hash: &str,
    metadata: Option<JsonValue>,
) -> (event: Result<MemoryEvent, KernelError>)
    ensures
        seen(event) == event_of_parts(columns, content@, hash@, metadata.deep_view()),
{
    if !same_text(hash, columns.content_hash.as_str()) {
        return Err(KernelError::invalid_input("event content hash mismatch"));
    }
    let kind: EventKind = match parse_enum::<EventKind>(columns.kind.as_str()) {
        Ok(kind) => kind,
        Err(error) => return Err(error),
    };
    let sensitivity: Sensitivity = match parse_enum::<Sensitivity>(columns.sensitivity.as_str()) {
        Ok(sensitivity) => sensitivity,
        Err(error) => return Err(error),
    };
    match metadata {
        None => Err(KernelError::invalid_input("parsing a stored JSON column")),
        Some(metadata) => Ok(
            MemoryEvent {
                id: columns.id,
                stream_id: columns.stream_id,
                sequence: columns.sequence,
                scope_id: columns.scope_id,
                kind,
                actor_id: columns.actor_id,
                occurred_at: columns.occurred_at,
                recorded_at: columns.recorded_at,
                content,
                content_hash: columns.content_hash,
                token_count: columns.token_count,
                sensitivity,
                metadata,
            },
        ),
    }
}

/// The columns of a stored claim.
pub struct ClaimColumns {
    pub id: String,
    pub origin_run_id: Option<String>,
    pub scope_id: String,
    pub kind: String,
    pub subject: String,
    pub predicate: String,
    pub cardinality: String,
    pub value_json: String,
    pub value_hash: String,
    pub modality: String,
    pub status: String,
    pub authority: String,
    pub confidence: Real,
    pub supersedes_id: Option<String>,
    pub created_at: String,
    pub updated_at: String,
}

/// The claim that some columns stand for.
pub open spec fn claim_of_columns(columns: ClaimColumns) -> Result<ClaimModel, ErrorModel> {
    let kind = word_of::<ClaimKind>(columns.kind@);
    let cardinality = word_of::<ClaimCardinality>(columns.cardinality@);
    let value = json_parsed(columns.value_json@);
    let modality = word_of::<ClaimModality>(columns.modality@);
    let status = word_of::<ClaimStatus>(columns.status@);
    let authority = word_of::<ClaimAuthority>(columns.authority@);
    if kind is None {
        Err(unknown_word(columns.kind@))
    } else if cardinality is None {
        Err(unknown_word(columns.cardinality@))
    } else if value is None {
        Err(not_json())
    } else if modality is None {
        Err(unknown_word(columns.modality@))
    } else if status is None {
        Err(unknown_word(columns.status@))
    } else if authority is None {
        Err(unknown_word(columns.authority@))
    } else {
        Ok(
            ClaimModel {
                id: columns.id@,
                origin_run_id: columns.origin_run_id.deep_view(),
                scope_id: columns.scope_id@,
                kind: kind.unwrap(),
                subject: columns.subject@,
                predicate: columns.predicate@,
                cardinality: cardinality.unwrap(),
                value: value.unwrap(),
                value_hash: columns.value_hash@,
                modality: modality.unwrap(),
                status: status.unwrap(),
                authority: authority.unwrap(),
                confidence: columns.confidence,
                supersedes_id: columns.supersedes_id.deep_view(),
                created_at: columns.created_at@,
                updated_at: columns.updated_at@,
            },
        )
    }
}

pub fn row_claim(columns: ClaimColumns) -> (claim: Result<Claim, KernelError>)
    ensures
        seen(claim) == claim_of_columns(columns),
{
    let kind: ClaimKind = match parse_enum::<ClaimKind>(columns.kind.as_str()) {
        Ok(kind) => kind,
        Err(error) => return Err(error),
    };
    let cardinality: ClaimCardinality = match parse_enum::<ClaimCardinality>(
        columns.cardinality.as_str(),
    ) {
        Ok(cardinality) => cardinality,
        Err(error) => return Err(error),
    };
    let value: JsonValue = match parse_json_column(columns.value_json.as_str()) {
        Ok(value) => value,
        Err(error) => return Err(error),
    };
    let modality: ClaimModality = match parse_enum::<ClaimModality>(columns.modality.as_str()) {
        Ok(modality) => modality,
        Err(error) => return Err(error),
    };
    let status: ClaimStatus = match parse_enum::<ClaimStatus>(columns.status.as_str()) {
        Ok(status) => status,
        Err(error) => return Err(error),
    };
    let authority: ClaimAuthority = match parse_enum::<ClaimAuthority>(columns.authority.as_str()) {
        Ok(authority) => authority,
        Err(error) => return Err(error),
    };
    Ok(
        Claim {
            id: columns.id,
            origin_run_id: columns.origin_run_id,
            scope_id: columns.scope_id,
            kind,
            subject: columns.subject,
            predicate: columns.predicate,
            cardinality,
            value,
            value_hash: columns.value_hash,
            modality,
            status,
            authority,
            confidence: columns.confidence,
            supersedes_id: columns.supersedes_id,
            created_at: columns.created_at,
            updated_at: columns.updated_at,
        },
    )
}

pub fn row_scope(
    id: String,
    kind: &str,
    parent_id: Option<String>,
    name: Option<String>,
    created_at: String,
) -> (scope: Result<Scope, KernelError>)
    ensures
        seen(scope) == match word_of::<ScopeKind>(kind@) {
            None => Err(unknown_word(kind@)),
            Some(word) => Ok(
                ScopeModel {
                    id: id@,
                    kind: word,
                    parent_id: parent_id.deep_view(),
                    name: name.deep_view(),
                    created_at: created_at@,
                },
            ),
        },
{
    match parse_enum::<ScopeKind>(kind) {
        Err(error) => Err(error),
        Ok(kind) => Ok(Scope { id, kind, parent_id, name, created_at }),
    }
}

/// An observation whose kind comes as a text.
pub fn row_observation(observation: Observation, kind: &str) -> (result: Result<
    Observation,
    KernelError,
>)
    ensures
        seen(result) == match word_of::<ObservationKind>(kind@) {
            None => Err(unknown_word(kind@)),
            Some(word) => Ok(ObservationModel { kind: word, ..observation@ }),
        },
{
    let mut observation: Observation = observation;
    match parse_enum::<ObservationKind>(kind) {
        Err(error) => Err(error),
        Ok(kind) => {
            observation.kind = kind;
            Ok(observation)
        },
    }
}

/// A view whose kind comes as a text.
pub fn row_view(view: MemoryView, kind: &str) -> (result: Result<MemoryView, KernelError>)
    ensures
        seen(result) == match word_of::<ViewKind>(kind@) {
            None => Err(unknown_word(kind@)),
            Some(word) => Ok(MemoryViewModel { kind: word, ..view@ }),
        },
{
    let mut view: MemoryView = view;
    match parse_enum::<ViewKind>(kind) {
        Err(error) => Err(error),
        Ok(kind) => {
            view.kind = kind;
            Ok(view)
        },
    }
}

/// A run whose status and source integrity come as texts.
pub fn row_run(run: RunRow, status: &str, source_integrity: &str) -> (result: Result<
    RunRow,
    KernelError,
>)
    ensures
        seen(result) == match (
            word_of::<RunStatus>(status@),
            word_of::<SourceIntegrity>(source_integrity@),
        ) {
            (None, _) => Err(unknown_word(status@)),
            (Some(_), None) => Err(unknown_word(source_integrity@)),
            (Some(status), Some(source_integrity)) => Ok(
                RunRowModel { status, source_integrity, ..run@ },
            ),
        },
{
    let mut run: RunRow = run;
    let status: RunStatus = match parse_enum::<RunStatus>(status) {
        Ok(status) => status,
        Err(error) => return Err(error),
    };
    let source_integrity: SourceIntegrity = match parse_enum::<SourceIntegrity>(source_integrity) {
        Ok(source_integrity) => source_integrity,
        Err(error) => return Err(error),
    };
    run.status = status;
    run.source_integrity = source_integrity;
    Ok(run)
}

pub fn row_slot(
    scope_id: String,
    kind: &str,
    subject: String,
    predicate: String,
    cardinality: &str,
) -> (slot: Result<SlotRow, KernelError>)
    ensures
        seen(slot) == match (word_of::<ClaimKind>(kind@), word_of::<ClaimCardinality>(cardinality@)) {
            (None, _) => Err(unknown_word(kind@)),
            (Some(_), None) => Err(unknown_word(cardinality@)),
            (Some(word), Some(count)) => Ok(
                SlotRowModel {
                    scope_id: scope_id@,
                    kind: word,
                    subject: subject@,
                    predicate: predicate@,
                    cardinality: count,
                },
            ),
        },
{
    let kind: ClaimKind = match parse_enum::<ClaimKind>(kind) {
        Ok(kind) => kind,
        Err(error) => return Err(error),
    };
    let cardinality: ClaimCardinality = match parse_enum::<ClaimCardinality>(cardinality) {
        Ok(cardinality) => cardinality,
        Err(error) => return Err(error),
    };
    Ok(SlotRow { scope_id, kind, subject, predicate, cardinality })
}

} // verus!
