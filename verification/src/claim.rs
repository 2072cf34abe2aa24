//! Claims: stating, proposing, confirming, correcting, moving and closing them.

use vstd::prelude::*;

use crate::claim_table::{
    active_other, active_single, claim_at, claim_clash, claim_named, claim_slot, claims_in,
    command_recorded, command_refusal, hidden_sources, member_of, no_claim, patch_claim, patched,
    restate, restated, slot_of, slot_refusal, sources_refusal, with_claim, with_command,
    with_copied_sources, with_patch, with_slot, with_sources, ActiveOther, ActiveSingle, ClaimNamed,
};
use crate::digest::{hash_json, json_hash, operation_request_hash, request_hash};
use crate::error::{invalid, seen, ErrorModel, KernelError};
use crate::json::{
    add_field, same_json, json_quoted, object_text, quote, string_array_text, write_object,
    write_string_array, JsonValue,
};
use crate::kind::{ClaimAuthority, ClaimCardinality, ClaimKind, ClaimModality, ClaimStatus, Labelled};
use crate::model::{
    Claim, ClaimModel, MutationModel, MutationResult, ReconciliationSummary, ReconciliationSummaryModel,
};
use crate::operation::{
    prior, required, saved, unreadable, unreadable_error, validate_nonempty, Prior, PriorModel,
};
use crate::row::{
    ClaimPatch, ClaimPatchModel, ClaimRequest, ClaimRequestModel, MemoryStore, MemoryStoreModel,
    SlotRow, SlotRowModel, StoredResult, StoredResultModel,
};
use crate::scope::{no_scope, scope_exists, visible_scopes};
use crate::score::{Real, ONE_BITS};
use crate::stamp::{draw_stamp, drawn, Stamp, StampModel};
use crate::table::{copy_texts, push_row, Duplicate};
use crate::text::{listed, same_text, trim_text, trimmed, Text};

verus! {

pub type ClaimOutcome = Result<MutationModel<ClaimModel>, ErrorModel>;

/// What an idempotency key that was used before answers to an operation on a claim.
pub open spec fn prior_claim(
    store: MemoryStoreModel,
    key: Text,
    operation: Text,
    hash: Text,
) -> Option<ClaimOutcome> {
    match prior(store, key, operation, hash) {
        PriorModel::Fresh => None,
        PriorModel::Refused(error) => Some(Err(error)),
        PriorModel::Known(StoredResultModel::Claim(claim)) => Some(
            Ok(MutationModel { data: claim, replayed: true }),
        ),
        PriorModel::Known(_) => Some(Err(unreadable(key))),
    }
}

/// An operation on a claim that is recorded and answered with the claim.
pub open spec fn completed(
    store: MemoryStoreModel,
    key: Text,
    operation: Text,
    hash: Text,
    claim: ClaimModel,
) -> (MemoryStoreModel, ClaimOutcome) {
    (
        saved(store, key, operation, hash, StoredResultModel::Claim(claim)),
        Ok(MutationModel { data: claim, replayed: false }),
    )
}

/// A request for a claim with its subject and predicate trimmed.
pub open spec fn normalized(request: ClaimRequestModel) -> ClaimRequestModel {
    ClaimRequestModel {
        subject: trimmed(request.subject),
        predicate: trimmed(request.predicate),
        ..request
    }
}

pub open spec fn direct_request(request: ClaimRequestModel) -> Text {
    object_text(
        seq![
            ("authority"@, json_quoted(request.authority.label())),
            ("cardinality"@, json_quoted(request.cardinality.label())),
            ("kind"@, json_quoted(request.kind.label())),
            ("modality"@, json_quoted(request.modality.label())),
            ("predicate"@, json_quoted(request.predicate)),
            ("requestedStatus"@, json_quoted(request.status.label())),
            ("scopeId"@, json_quoted(request.scope_id)),
            ("sourceEventIds"@, string_array_text(request.source_event_ids)),
            ("subject"@, json_quoted(request.subject)),
            ("value"@, request.value),
        ],
    )
}

pub open spec fn requested_slot(request: ClaimRequestModel) -> SlotRowModel {
    SlotRowModel {
        scope_id: request.scope_id,
        kind: request.kind,
        subject: request.subject,
        predicate: request.predicate,
        cardinality: request.cardinality,
    }
}

/// The claim that a request makes.
pub open spec fn requested_claim(
    request: ClaimRequestModel,
    status: ClaimStatus,
    stamp: StampModel,
) -> ClaimModel {
    ClaimModel {
        id: stamp.ids[1],
        origin_run_id: None,
        scope_id: request.scope_id,
        kind: request.kind,
        subject: request.subject,
        predicate: request.predicate,
        cardinality: request.cardinality,
        value: request.value,
        value_hash: json_hash(request.value),
        modality: request.modality,
        status,
        authority: request.authority,
        confidence: Real { bits: ONE_BITS },
        supersedes_id: None,
        created_at: stamp.at,
        updated_at: stamp.at,
    }
}

/// What stating or proposing a claim does and answers. A statement of what is already active adds
/// evidence to the active claim; one that contradicts it is disputed and leaves it active. The
/// stamp holds the identifiers of the command event and of the claim.
pub open spec fn direct_step(
    store: MemoryStoreModel,
    raw: ClaimRequestModel,
    key: Text,
    stamp: StampModel,
) -> (MemoryStoreModel, ClaimOutcome) {
    let request = normalized(raw);
    let text = direct_request(request);
    let hash = request_hash(request.operation, text);
    let active = member_of(store, requested_slot(request), json_hash(request.value));
    let asserted = request.status is Active;
    if let Some(error) = required("subject"@, request.subject) {
        (store, Err(error))
    } else if let Some(error) = required("predicate"@, request.predicate) {
        (store, Err(error))
    } else if let Some(error) = required("idempotency key"@, key) {
        (store, Err(error))
    } else if let Some(answer) = prior_claim(store, key, request.operation, hash) {
        (store, answer)
    } else if !scope_exists(store, request.scope_id) {
        (store, Err(no_scope(request.scope_id)))
    } else if let Some(error) = sources_refusal(
        store,
        request.scope_id,
        request.source_event_ids,
    ) {
        (store, Err(error))
    } else if let Some(error) = command_refusal(store, request.scope_id, stamp) {
        (store, Err(error))
    } else if asserted && active is Some && same_json(active.unwrap().value, request.value) {
        let existing = active.unwrap();
        let commanded = with_command(
            store,
            request.scope_id,
            request.operation,
            text,
            existing.id,
            stamp,
        );
        let sourced = with_sources(commanded, existing.id, request.source_event_ids);
        completed(
            with_sources(sourced, existing.id, seq![stamp.ids[0]]),
            key,
            request.operation,
            hash,
            existing,
        )
    } else {
        let status = if asserted && active is Some {
            ClaimStatus::Disputed
        } else {
            request.status
        };
        let claim = requested_claim(request, status, stamp);
        let slot = requested_slot(request);
        if status is Active && slot_refusal(store, slot) is Some {
            (store, Err(slot_refusal(store, slot).unwrap()))
        } else if let Some(error) = claim_clash(store, claim.id) {
            (store, Err(error))
        } else {
            let commanded = with_command(
                store,
                request.scope_id,
                request.operation,
                text,
                claim.id,
                stamp,
            );
            let slotted = if status is Active {
                with_slot(commanded, slot)
            } else {
                commanded
            };
            let sourced = with_sources(
                with_claim(slotted, claim),
                claim.id,
                request.source_event_ids,
            );
            completed(
                with_sources(sourced, claim.id, seq![stamp.ids[0]]),
                key,
                request.operation,
                hash,
                claim,
            )
        }
    }
}

/// Whether a claim still waits for a decision.
pub open spec fn undecided(status: ClaimStatus) -> bool {
    status is Pending || status is Disputed
}

/// The standing of a confirmed claim.
pub open spec fn confirmation(at: Text) -> ClaimPatchModel {
    ClaimPatchModel {
        status: ClaimStatus::Active,
        modality: Some(ClaimModality::AcceptedDecision),
        authority: Some(ClaimAuthority::ExplicitUser),
        at,
    }
}

/// The memory with every other active claim of a single-valued slot superseded.
pub open spec fn with_others_superseded(
    store: MemoryStoreModel,
    slot: SlotRowModel,
    excluded: Option<Text>,
    at: Text,
) -> MemoryStoreModel {
    if slot.cardinality is SetValued {
        store
    } else {
        with_patch(store, active_other(slot, excluded), restated(ClaimStatus::Superseded, at))
    }
}

pub open spec fn confirm_request(claim_id: Text) -> Text {
    object_text(seq![("claimId"@, json_quoted(claim_id))])
}

/// What confirming a claim does and answers. Where an active claim already says the same, that one
/// takes over the evidence; else the confirmed claim becomes active and, in a single-valued slot,
/// supersedes the active one. The stamp holds one identifier.
pub open spec fn confirm_step(
    store: MemoryStoreModel,
    claim_id: Text,
    key: Text,
    stamp: StampModel,
) -> (MemoryStoreModel, ClaimOutcome) {
    let text = confirm_request(claim_id);
    let hash = request_hash("claim.confirm"@, text);
    if let Some(error) = required("idempotency key"@, key) {
        (store, Err(error))
    } else if let Some(answer) = prior_claim(store, key, "claim.confirm"@, hash) {
        (store, answer)
    } else {
        match claim_at(store, claim_id) {
            None => (store, Err(no_claim(claim_id))),
            Some(claim) => {
                let slot = slot_of(claim);
                let active = member_of(store, slot, claim.value_hash);
                if !undecided(claim.status) {
                    (store, Err(invalid("claim must be pending or disputed to confirm"@)))
                } else if let Some(error) = command_refusal(store, claim.scope_id, stamp) {
                    (store, Err(error))
                } else if let Some(error) = slot_refusal(store, slot) {
                    (store, Err(error))
                } else if active is Some && same_json(active.unwrap().value, claim.value) {
                    let existing = active.unwrap();
                    let commanded = with_command(
                        store,
                        claim.scope_id,
                        "claim.confirm"@,
                        text,
                        existing.id,
                        stamp,
                    );
                    let sourced = with_copied_sources(
                        with_slot(commanded, slot),
                        claim.id,
                        existing.id,
                    );
                    let evidenced = with_sources(sourced, existing.id, seq![stamp.ids[0]]);
                    completed(
                        with_patch(
                            evidenced,
                            claim_named(claim.id),
                            restated(ClaimStatus::Rejected, stamp.at),
                        ),
                        key,
                        "claim.confirm"@,
                        hash,
                        existing,
                    )
                } else {
                    let commanded = with_command(
                        store,
                        claim.scope_id,
                        "claim.confirm"@,
                        text,
                        claim.id,
                        stamp,
                    );
                    let cleared = with_others_superseded(
                        with_slot(commanded, slot),
                        slot,
                        Some(claim.id),
                        stamp.at,
                    );
                    let confirmed = with_patch(
                        cleared,
                        claim_named(claim.id),
                        confirmation(stamp.at),
                    );
                    completed(
                        with_sources(confirmed, claim.id, seq![stamp.ids[0]]),
                        key,
                        "claim.confirm"@,
                        hash,
                        patched(claim, confirmation(stamp.at)),
                    )
                }
            },
        }
    }
}

pub open spec fn correct_request(claim_id: Text, value: Text, event_ids: Seq<Text>) -> Text {
    object_text(
        seq![
            ("claimId"@, json_quoted(claim_id)),
            ("sourceEventIds"@, string_array_text(event_ids)),
            ("value"@, value),
        ],
    )
}

/// The claim that corrects another one.
pub open spec fn correction(old: ClaimModel, value: Text, stamp: StampModel) -> ClaimModel {
    ClaimModel {
        id: stamp.ids[1],
        origin_run_id: None,
        scope_id: old.scope_id,
        kind: old.kind,
        subject: old.subject,
        predicate: old.predicate,
        cardinality: old.cardinality,
        value,
        value_hash: json_hash(value),
        modality: ClaimModality::ExplicitAssertion,
        status: ClaimStatus::Active,
        authority: ClaimAuthority::ExplicitUser,
        confidence: Real { bits: ONE_BITS },
        supersedes_id: Some(old.id),
        created_at: stamp.at,
        updated_at: stamp.at,
    }
}

/// The memory with a claim superseded, and with it the active claim of its single-valued slot.
pub open spec fn with_superseded(
    store: MemoryStoreModel,
    old: ClaimModel,
    at: Text,
) -> MemoryStoreModel {
    let cleared = if old.cardinality is Single {
        with_patch(store, active_single(slot_of(old)), restated(ClaimStatus::Superseded, at))
    } else {
        store
    };
    with_patch(cleared, claim_named(old.id), restated(ClaimStatus::Superseded, at))
}

/// What correcting a claim does and answers: the old claim is kept as superseded, and the
/// corrected value becomes active, unless a member of the set already has it. The stamp holds the
/// identifiers of the command event and of the claim.
pub open spec fn correct_step(
    store: MemoryStoreModel,
    claim_id: Text,
    value: Text,
    event_ids: Seq<Text>,
    key: Text,
    stamp: StampModel,
) -> (MemoryStoreModel, ClaimOutcome) {
    let text = correct_request(claim_id, value, event_ids);
    let hash = request_hash("claim.correct"@, text);
    if let Some(error) = required("idempotency key"@, key) {
        (store, Err(error))
    } else if let Some(answer) = prior_claim(store, key, "claim.correct"@, hash) {
        (store, answer)
    } else {
        match claim_at(store, claim_id) {
            None => (store, Err(no_claim(claim_id))),
            Some(old) => {
                let claim = correction(old, value, stamp);
                let slot = slot_of(claim);
                let superseded = with_superseded(store, old, stamp.at);
                if let Some(error) = sources_refusal(store, old.scope_id, event_ids) {
                    (store, Err(error))
                } else if let Some(error) = command_refusal(store, old.scope_id, stamp) {
                    (store, Err(error))
                } else if let Some(error) = slot_refusal(store, slot) {
                    (store, Err(error))
                } else {
                    match member_of(superseded, slot, claim.value_hash) {
                        Some(existing) => {
                            let commanded = with_command(
                                with_slot(superseded, slot),
                                old.scope_id,
                                "claim.correct"@,
                                text,
                                existing.id,
                                stamp,
                            );
                            let copied = with_copied_sources(commanded, old.id, existing.id);
                            let sourced = with_sources(copied, existing.id, event_ids);
                            completed(
                                with_sources(sourced, existing.id, seq![stamp.ids[0]]),
                                key,
                                "claim.correct"@,
                                hash,
                                existing,
                            )
                        },
                        None => if let Some(error) = claim_clash(store, claim.id) {
                            (store, Err(error))
                        } else {
                            let commanded = with_command(
                                with_slot(superseded, slot),
                                old.scope_id,
                                "claim.correct"@,
                                text,
                                claim.id,
                                stamp,
                            );
                            let sourced = with_sources(
                                with_claim(commanded, claim),
                                claim.id,
                                event_ids,
                            );
                            completed(
                                with_sources(sourced, claim.id, seq![stamp.ids[0]]),
                                key,
                                "claim.correct"@,
                                hash,
                                claim,
                            )
                        },
                    }
                }
            },
        }
    }
}

pub open spec fn rescope_request(claim_id: Text, new_scope_id: Text) -> Text {
    object_text(
        seq![("claimId"@, json_quoted(claim_id)), ("newScopeId"@, json_quoted(new_scope_id))],
    )
}

/// The claim that takes the place of another one in another scope.
pub open spec fn moved(old: ClaimModel, new_scope_id: Text, stamp: StampModel) -> ClaimModel {
    ClaimModel {
        id: stamp.ids[1],
        scope_id: new_scope_id,
        status: if old.status is Active {
            ClaimStatus::Active
        } else {
            ClaimStatus::Pending
        },
        supersedes_id: Some(old.id),
        created_at: stamp.at,
        updated_at: stamp.at,
        ..old
    }
}

/// The error for moving a claim to a scope that is neither its own nor above it, if that is so.
pub open spec fn target_refusal(
    store: MemoryStoreModel,
    old_scope_id: Text,
    new_scope_id: Text,
) -> Option<ErrorModel> {
    if new_scope_id == old_scope_id {
        None
    } else {
        match visible_scopes(store, old_scope_id) {
            Err(error) => Some(error),
            Ok(visible) => if listed(visible, new_scope_id) {
                None
            } else {
                Some(
                    invalid(
                        "claim rescope target must be the current scope or one of its ancestors"@,
                    ),
                )
            },
        }
    }
}

/// What moving a claim to another scope does and answers: the old claim is kept as superseded,
/// and its replacement in the new scope keeps its evidence. The stamp holds the identifiers of the
/// command event and of the claim.
pub open spec fn rescope_step(
    store: MemoryStoreModel,
    claim_id: Text,
    new_scope_id: Text,
    key: Text,
    stamp: StampModel,
) -> (MemoryStoreModel, ClaimOutcome) {
    let text = rescope_request(claim_id, new_scope_id);
    let hash = request_hash("claim.rescope"@, text);
    if let Some(error) = required("idempotency key"@, key) {
        (store, Err(error))
    } else if let Some(answer) = prior_claim(store, key, "claim.rescope"@, hash) {
        (store, answer)
    } else if !scope_exists(store, new_scope_id) {
        (store, Err(no_scope(new_scope_id)))
    } else {
        match claim_at(store, claim_id) {
            None => (store, Err(no_claim(claim_id))),
            Some(old) => {
                let claim = moved(old, new_scope_id, stamp);
                let slot = slot_of(claim);
                let superseded = with_patch(
                    store,
                    claim_named(old.id),
                    restated(ClaimStatus::Superseded, stamp.at),
                );
                let active = claim.status is Active;
                let existing = member_of(superseded, slot, claim.value_hash);
                if let Some(error) = hidden_sources(store, claim_id, new_scope_id) {
                    (store, Err(error))
                } else if let Some(error) = target_refusal(store, old.scope_id, new_scope_id) {
                    (store, Err(error))
                } else if let Some(error) = command_refusal(store, new_scope_id, stamp) {
                    (store, Err(error))
                } else if active && slot_refusal(store, slot) is Some {
                    (store, Err(slot_refusal(store, slot).unwrap()))
                } else if active && existing is Some {
                    let commanded = with_command(
                        with_slot(superseded, slot),
                        new_scope_id,
                        "claim.rescope"@,
                        text,
                        existing.unwrap().id,
                        stamp,
                    );
                    let copied = with_copied_sources(commanded, claim_id, existing.unwrap().id);
                    completed(
                        with_sources(copied, existing.unwrap().id, seq![stamp.ids[0]]),
                        key,
                        "claim.rescope"@,
                        hash,
                        existing.unwrap(),
                    )
                } else if let Some(error) = claim_clash(store, claim.id) {
                    (store, Err(error))
                } else {
                    let cleared = if active {
                        with_others_superseded(with_slot(superseded, slot), slot, None, stamp.at)
                    } else {
                        superseded
                    };
                    let commanded = with_command(
                        cleared,
                        new_scope_id,
                        "claim.rescope"@,
                        text,
                        claim.id,
                        stamp,
                    );
                    let copied = with_copied_sources(
                        with_claim(commanded, claim),
                        claim_id,
                        claim.id,
                    );
                    completed(
                        with_sources(copied, claim.id, seq![stamp.ids[0]]),
                        key,
                        "claim.rescope"@,
                        hash,
                        claim,
                    )
                }
            },
        }
    }
}

pub open spec fn close_request(claim_id: Text, status: ClaimStatus) -> Text {
    object_text(
        seq![("claimId"@, json_quoted(claim_id)), ("status"@, json_quoted(status.label()))],
    )
}

/// Whether a claim of some status can be closed: rejected while it is undecided, and forgotten
/// while it is undecided or active.
pub open spec fn closable(status: ClaimStatus, forget: bool) -> bool {
    undecided(status) || (status is Active && forget)
}

/// The status of a claim that was forgotten or rejected.
pub open spec fn closed_status(forget: bool) -> ClaimStatus {
    if forget {
        ClaimStatus::Expired
    } else {
        ClaimStatus::Rejected
    }
}

pub open spec fn close_operation(forget: bool) -> Text {
    if forget {
        "claim.forget"@
    } else {
        "claim.reject"@
    }
}

pub open spec fn not_closable(forget: bool) -> ErrorModel {
    if forget {
        invalid("claim must be pending, active, or disputed to forget"@)
    } else {
        invalid("claim must be pending or disputed to reject"@)
    }
}

/// What rejecting a claim or, where `forget` says so, forgetting it does and answers. The stamp
/// holds one identifier.
pub open spec fn close_step(
    store: MemoryStoreModel,
    claim_id: Text,
    forget: bool,
    key: Text,
    stamp: StampModel,
) -> (MemoryStoreModel, ClaimOutcome) {
    let closed = closed_status(forget);
    let operation = close_operation(forget);
    let text = close_request(claim_id, closed);
    let hash = request_hash(operation, text);
    if let Some(error) = required("idempotency key"@, key) {
        (store, Err(error))
    } else if let Some(answer) = prior_claim(store, key, operation, hash) {
        (store, answer)
    } else {
        match claim_at(store, claim_id) {
            None => (store, Err(no_claim(claim_id))),
            Some(claim) => if !closable(claim.status, forget) {
                (store, Err(not_closable(forget)))
            } else if let Some(error) = command_refusal(store, claim.scope_id, stamp) {
                (store, Err(error))
            } else {
                let commanded = with_command(
                    store,
                    claim.scope_id,
                    operation,
                    text,
                    claim.id,
                    stamp,
                );
                let patch = restated(closed, stamp.at);
                completed(
                    with_sources(
                        with_patch(commanded, claim_named(claim.id), patch),
                        claim.id,
                        seq![stamp.ids[0]],
                    ),
                    key,
                    operation,
                    hash,
                    patched(claim, patch),
                )
            },
        }
    }
}

/// Whether reconciliation leaves a claim of this modality alone.
pub open spec fn needs_decision(modality: ClaimModality) -> bool {
    modality is Proposal || modality is Inference || modality is Observation
}

pub open spec fn empty_summary() -> ReconciliationSummaryModel {
    ReconciliationSummaryModel {
        activated: Seq::empty(),
        disputed: Seq::empty(),
        duplicates_rejected: Seq::empty(),
        left_pending: Seq::empty(),
    }
}

/// The standing of a claim that reconciliation activates.
pub open spec fn activation(at: Text) -> ClaimPatchModel {
    ClaimPatchModel {
        status: ClaimStatus::Active,
        modality: None,
        authority: Some(ClaimAuthority::TrustedSource),
        at,
    }
}

/// What reconciliation does with one pending claim: it is left where a decision is needed,
/// activated where its slot is free, rejected as a duplicate, with its evidence going to the
/// active claim, where that has the same value, and disputed where the active claim has another.
pub open spec fn reconcile_one(
    store: MemoryStoreModel,
    summary: ReconciliationSummaryModel,
    claim: ClaimModel,
    at: Text,
) -> Result<(MemoryStoreModel, ReconciliationSummaryModel), ErrorModel> {
    let slot = slot_of(claim);
    if needs_decision(claim.modality) {
        Ok(
            (
                store,
                ReconciliationSummaryModel {
                    left_pending: summary.left_pending.push(claim.id),
                    ..summary
                },
            ),
        )
    } else {
        match member_of(store, slot, claim.value_hash) {
            None => match slot_refusal(store, slot) {
                Some(error) => Err(error),
                None => Ok(
                    (
                        with_patch(with_slot(store, slot), claim_named(claim.id), activation(at)),
                        ReconciliationSummaryModel {
                            activated: summary.activated.push(claim.id),
                            ..summary
                        },
                    ),
                ),
            },
            Some(existing) => if same_json(existing.value, claim.value) {
                Ok(
                    (
                        with_patch(
                            with_copied_sources(store, claim.id, existing.id),
                            claim_named(claim.id),
                            restated(ClaimStatus::Rejected, at),
                        ),
                        ReconciliationSummaryModel {
                            duplicates_rejected: summary.duplicates_rejected.push(claim.id),
                            ..summary
                        },
                    ),
                )
            } else {
                Ok(
                    (
                        with_patch(
                            store,
                            claim_named(claim.id),
                            restated(ClaimStatus::Disputed, at),
                        ),
                        ReconciliationSummaryModel {
                            disputed: summary.disputed.push(claim.id),
                            ..summary
                        },
                    ),
                )
            },
        }
    }
}

/// What reconciliation does with pending claims, one after the other.
pub open spec fn reconcile_all(
    store: MemoryStoreModel,
    pending: Seq<ClaimModel>,
    at: Text,
) -> Result<(MemoryStoreModel, ReconciliationSummaryModel), ErrorModel>
    decreases pending.len(),
{
    if pending.len() == 0 {
        Ok((store, empty_summary()))
    } else {
        match reconcile_all(store, pending.drop_last(), at) {
            Err(error) => Err(error),
            Ok((done, summary)) => reconcile_one(done, summary, pending.last(), at),
        }
    }
}

/// What reconciling the pending claims of a scope does and answers.
pub open spec fn reconcile_step(
    store: MemoryStoreModel,
    scope_id: Text,
    key: Text,
    stamp: StampModel,
) -> (MemoryStoreModel, Result<MutationModel<ReconciliationSummaryModel>, ErrorModel>) {
    let hash = request_hash("claim.reconcile"@, json_quoted(scope_id));
    if let Some(error) = required("idempotency key"@, key) {
        (store, Err(error))
    } else {
        match prior(store, key, "claim.reconcile"@, hash) {
            PriorModel::Refused(error) => (store, Err(error)),
            PriorModel::Known(StoredResultModel::Reconciliation(summary)) => (
                store,
                Ok(MutationModel { data: summary, replayed: true }),
            ),
            PriorModel::Known(_) => (store, Err(unreadable(key))),
            PriorModel::Fresh => if !scope_exists(store, scope_id) {
                (store, Err(no_scope(scope_id)))
            } else {
                let pending = claims_in(store, seq![scope_id], Some(ClaimStatus::Pending));
                match reconcile_all(store, pending, stamp.at) {
                    Err(error) => (store, Err(error)),
                    Ok((done, summary)) => (
                        saved(
                            done,
                            key,
                            "claim.reconcile"@,
                            hash,
                            StoredResultModel::Reconciliation(summary),
                        ),
                        Ok(MutationModel { data: summary, replayed: false }),
                    ),
                }
            },
        }
    }
}

/// The request that states a claim.
pub open spec fn remembered(
    scope_id: Text,
    kind: ClaimKind,
    subject: Text,
    predicate: Text,
    cardinality: ClaimCardinality,
    value: Text,
    source_event_ids: Seq<Text>,
) -> ClaimRequestModel {
    ClaimRequestModel {
        scope_id,
        kind,
        subject,
        predicate,
        cardinality,
        value,
        modality: ClaimModality::ExplicitAssertion,
        status: ClaimStatus::Active,
        authority: ClaimAuthority::ExplicitUser,
        source_event_ids,
        operation: "claim.remember"@,
    }
}

/// The request that proposes a claim.
pub open spec fn proposed(
    scope_id: Text,
    kind: ClaimKind,
    subject: Text,
    predicate: Text,
    cardinality: ClaimCardinality,
    value: Text,
    source_event_ids: Seq<Text>,
) -> ClaimRequestModel {
    ClaimRequestModel {
        scope_id,
        kind,
        subject,
        predicate,
        cardinality,
        value,
        modality: ClaimModality::Proposal,
        status: ClaimStatus::Pending,
        authority: ClaimAuthority::ExplicitUser,
        source_event_ids,
        operation: "claim.propose"@,
    }
}

fn write_direct_request(request: &ClaimRequest) -> (json: String)
    ensures
        json@ == direct_request(request@),
{
    let mut fields: Vec<(String, String)> = Vec::new();
    let ghost none = fields.deep_view();
    add_field(&mut fields, "authority", quote(request.authority.label_text()));
    add_field(&mut fields, "cardinality", quote(request.cardinality.label_text()));
    add_field(&mut fields, "kind", quote(request.kind.label_text()));
    add_field(&mut fields, "modality", quote(request.modality.label_text()));
    add_field(&mut fields, "predicate", quote(request.predicate.as_str()));
    add_field(&mut fields, "requestedStatus", quote(request.status.label_text()));
    add_field(&mut fields, "scopeId", quote(request.scope_id.as_str()));
    add_field(&mut fields, "sourceEventIds", write_string_array(&request.source_event_ids));
    add_field(&mut fields, "subject", quote(request.subject.as_str()));
    add_field(&mut fields, "value", request.value.text().to_owned());
    proof {
        let r = request@;
        assert(none =~= Seq::empty());
        assert(fields.deep_view() =~= seq![
            ("authority"@, json_quoted(r.authority.label())),
            ("cardinality"@, json_quoted(r.cardinality.label())),
            ("kind"@, json_quoted(r.kind.label())),
            ("modality"@, json_quoted(r.modality.label())),
            ("predicate"@, json_quoted(r.predicate)),
            ("requestedStatus"@, json_quoted(r.status.label())),
            ("scopeId"@, json_quoted(r.scope_id)),
            ("sourceEventIds"@, string_array_text(r.source_event_ids)),
            ("subject"@, json_quoted(r.subject)),
            ("value"@, r.value),
        ]);
    }
    write_object(&fields)
}

/// Writes an object with a claim's identifier and one more field.
fn write_claim_request(claim_id: &str, name: &str, value: String) -> (json: String)
    ensures
        json@ == object_text(seq![("claimId"@, json_quoted(claim_id@)), (name@, value@)]),
{
    let mut fields: Vec<(String, String)> = Vec::new();
    let ghost none = fields.deep_view();
    let ghost text = value@;
    add_field(&mut fields, "claimId", quote(claim_id));
    add_field(&mut fields, name, value);
    proof {
        assert(none =~= Seq::empty());
        assert(fields.deep_view() =~= seq![("claimId"@, json_quoted(claim_id@)), (name@, text)]);
    }
    write_object(&fields)
}

impl MemoryStore {
    /// What an idempotency key that was used before answers to an operation on a claim.
    fn replayed_claim(&self, key: &str, operation: &str, hash: &str) -> (answer: Option<
        Result<MutationResult<Claim>, KernelError>,
    >)
        ensures
            match answer {
                Some(answer) => prior_claim(self@, key@, operation@, hash@) == Some(seen(answer)),
                None => prior_claim(self@, key@, operation@, hash@) is None,
            },
    {
        match self.prior_result(key, operation, hash) {
            Prior::Fresh => None,
            Prior::Refused(error) => Some(Err(error)),
            Prior::Known(StoredResult::Claim(claim)) => Some(Ok(MutationResult::replayed(claim))),
            Prior::Known(_) => Some(Err(unreadable_error(key))),
        }
    }

    /// Records an operation on a claim and answers with the claim.
    fn complete_claim(&mut self, key: &str, operation: &str, hash: &str, claim: Claim) -> (result:
        Result<MutationResult<Claim>, KernelError>)
        ensures
            completed(old(self)@, key@, operation@, hash@, claim@) == (final(self)@, seen(result)),
    {
        self.save_operation(key, operation, hash, StoredResult::Claim(claim.duplicate()));
        Ok(MutationResult::created(claim))
    }

    pub fn remember_claim(
        &mut self,
        scope_id: &str,
        kind: ClaimKind,
        subject: &str,
        predicate: &str,
        value: JsonValue,
        source_event_ids: &[String],
        idempotency_key: &str,
    ) -> (result: Result<MutationResult<Claim>, KernelError>)
        ensures
            exists|stamp: StampModel|
                drawn(stamp) && stamp.ids.len() == 2 && #[trigger] direct_step(
                    old(self)@,
                    remembered(
                        scope_id@,
                        kind,
                        subject@,
                        predicate@,
                        ClaimCardinality::Single,
                        value@,
                        source_event_ids.deep_view(),
                    ),
                    idempotency_key@,
                    stamp,
                ) == (final(self)@, seen(result)),
            command_recorded(final(self)@, seen(result)),
    {
        self.remember_claim_with_cardinality(
            scope_id,
            kind,
            subject,
            predicate,
            ClaimCardinality::Single,
            value,
            source_event_ids,
            idempotency_key,
        )
    }

    pub fn remember_claim_with_cardinality(
        &mut self,
        scope_id: &str,
        kind: ClaimKind,
        subject: &str,
        predicate: &str,
        cardinality: ClaimCardinality,
        value: JsonValue,
        source_event_ids: &[String],
        idempotency_key: &str,
    ) -> (result: Result<MutationResult<Claim>, KernelError>)
        ensures
            exists|stamp: StampModel|
                drawn(stamp) && stamp.ids.len() == 2 && #[trigger] direct_step(
                    old(self)@,
                    remembered(
                        scope_id@,
                        kind,
                        subject@,
                        predicate@,
                        cardinality,
                        value@,
                        source_event_ids.deep_view(),
                    ),
                    idempotency_key@,
                    stamp,
                ) == (final(self)@, seen(result)),
            command_recorded(final(self)@, seen(result)),
    {
        let stamp: Stamp = draw_stamp(2);
        let request = ClaimRequest {
            scope_id: scope_id.to_owned(),
            kind,
            subject: subject.to_owned(),
            predicate: predicate.to_owned(),
            cardinality,
            value,
            modality: ClaimModality::ExplicitAssertion,
            status: ClaimStatus::Active,
            authority: ClaimAuthority::ExplicitUser,
            source_event_ids: copy_texts(source_event_ids),
            operation: "claim.remember".to_owned(),
        };
        self.create_direct_claim(request, idempotency_key, &stamp)
    }

    pub fn propose_claim(
        &mut self,
        scope_id: &str,
        kind: ClaimKind,
        subject: &str,
        predicate: &str,
        value: JsonValue,
        source_event_ids: &[String],
        idempotency_key: &str,
    ) -> (result: Result<MutationResult<Claim>, KernelError>)
        ensures
            exists|stamp: StampModel|
                drawn(stamp) && stamp.ids.len() == 2 && #[trigger] direct_step(
                    old(self)@,
                    proposed(
                        scope_id@,
                        kind,
                        subject@,
                        predicate@,
                        ClaimCardinality::Single,
                        value@,
                        source_event_ids.deep_view(),
                    ),
                    idempotency_key@,
                    stamp,
                ) == (final(self)@, seen(result)),
            command_recorded(final(self)@, seen(result)),
    {
        self.propose_claim_with_cardinality(
            scope_id,
            kind,
            subject,
            predicate,
            ClaimCardinality::Single,
            value,
            source_event_ids,
            idempotency_key,
        )
    }

    pub fn propose_claim_with_cardinality(
        &mut self,
        scope_id: &str,
        kind: ClaimKind,
        subject: &str,
        predicate: &str,
        cardinality: ClaimCardinality,
        value: JsonValue,
        source_event_ids: &[String],
        idempotency_key: &str,
    ) -> (result: Result<MutationResult<Claim>, KernelError>)
        ensures
            exists|stamp: StampModel|
                drawn(stamp) && stamp.ids.len() == 2 && #[trigger] direct_step(
                    old(self)@,
                    proposed(
                        scope_id@,
                        kind,
                        subject@,
                        predicate@,
                        cardinality,
                        value@,
                        source_event_ids.deep_view(),
                    ),
                    idempotency_key@,
                    stamp,
                ) == (final(self)@, seen(result)),
            command_recorded(final(self)@, seen(result)),
    {
        let stamp: Stamp = draw_stamp(2);
        let request = ClaimRequest {
            scope_id: scope_id.to_owned(),
            kind,
            subject: subject.to_owned(),
            predicate: predicate.to_owned(),
            cardinality,
            value,
            modality: ClaimModality::Proposal,
            status: ClaimStatus::Pending,
            authority: ClaimAuthority::ExplicitUser,
            source_event_ids: copy_texts(source_event_ids),
            operation: "claim.propose".to_owned(),
        };
        self.create_direct_claim(request, idempotency_key, &stamp)
    }

    /// States or proposes a claim with given identifiers and time.
    pub fn create_direct_claim(
        &mut self,
        request: ClaimRequest,
        idempotency_key: &str,
        stamp: &Stamp,
    ) -> (result: Result<MutationResult<Claim>, KernelError>)
        requires
            stamp@.ids.len() == 2,
        ensures
            direct_step(old(self)@, request@, idempotency_key@, stamp@) == (
                final(self)@,
                seen(result),
            ),
            command_recorded(final(self)@, seen(result)),
    {
        let mut request: ClaimRequest = request;
        request.subject = trim_text(request.subject.as_str());
        request.predicate = trim_text(request.predicate.as_str());
        if let Err(error) = validate_nonempty("subject", request.subject.as_str()) {
            return Err(error);
        }
        if let Err(error) = validate_nonempty("predicate", request.predicate.as_str()) {
            return Err(error);
        }
        if let Err(error) = validate_nonempty("idempotency key", idempotency_key) {
            return Err(error);
        }
        let operation: String = request.operation.clone();
        let text: String = write_direct_request(&request);
        let hash: String = operation_request_hash(operation.as_str(), text.as_str());
        if let Some(answer) = self.replayed_claim(
            idempotency_key,
            operation.as_str(),
            hash.as_str(),
        ) {
            return answer;
        }
        if let Err(error) = self.ensure_scope_exists(request.scope_id.as_str()) {
            return Err(error);
        }
        if let Err(error) = self.validate_claim_event_sources(
            request.scope_id.as_str(),
            &request.source_event_ids,
        ) {
            return Err(error);
        }
        if let Err(error) = self.check_command(request.scope_id.as_str(), stamp) {
            return Err(error);
        }
        let value_hash: String = hash_json(&request.value);
        let slot = SlotRow {
            scope_id: request.scope_id.clone(),
            kind: request.kind,
            subject: request.subject.clone(),
            predicate: request.predicate.clone(),
            cardinality: request.cardinality,
        };
        let active: Option<Claim> = self.query_active_claim_member(&slot, value_hash.as_str());
        let asserted: bool = request.status == ClaimStatus::Active;
        let mut status: ClaimStatus = request.status;
        if asserted {
            if let Some(existing) = active {
                if existing.value.same_value(&request.value) {
                    self.insert_memory_command_event(
                        request.scope_id.as_str(),
                        operation.as_str(),
                        text.as_str(),
                        existing.id.as_str(),
                        stamp,
                    );
                    self.attach_event_sources(existing.id.as_str(), &request.source_event_ids);
                    self.attach_event(existing.id.as_str(), stamp.ids[0].as_str());
                    return self.complete_claim(
                        idempotency_key,
                        operation.as_str(),
                        hash.as_str(),
                        existing,
                    );
                }
                status = ClaimStatus::Disputed;
            }
        }
        if status == ClaimStatus::Active {
            if let Err(error) = self.check_claim_slot(&slot) {
                return Err(error);
            }
        }
        if let Err(error) = self.check_claim_id(stamp.ids[1].as_str()) {
            return Err(error);
        }
        let claim = Claim {
            id: stamp.ids[1].clone(),
            origin_run_id: None,
            scope_id: request.scope_id.clone(),
            kind: request.kind,
            subject: request.subject.clone(),
            predicate: request.predicate.clone(),
            cardinality: request.cardinality,
            value: request.value.duplicate(),
            value_hash,
            modality: request.modality,
            status,
            authority: request.authority,
            confidence: Real::one(),
            supersedes_id: None,
            created_at: stamp.at.clone(),
            updated_at: stamp.at.clone(),
        };
        self.insert_memory_command_event(
            request.scope_id.as_str(),
            operation.as_str(),
            text.as_str(),
            claim.id.as_str(),
            stamp,
        );
        if status == ClaimStatus::Active {
            self.ensure_claim_slot(&slot);
        }
        self.insert_claim(&claim);
        self.attach_event_sources(claim.id.as_str(), &request.source_event_ids);
        self.attach_event(claim.id.as_str(), stamp.ids[0].as_str());
        self.complete_claim(idempotency_key, operation.as_str(), hash.as_str(), claim)
    }

    pub fn confirm_claim(&mut self, claim_id: &str, idempotency_key: &str) -> (result: Result<
        MutationResult<Claim>,
        KernelError,
    >)
        ensures
            exists|stamp: StampModel|
                drawn(stamp) && stamp.ids.len() == 1 && #[trigger] confirm_step(
                    old(self)@,
                    claim_id@,
                    idempotency_key@,
                    stamp,
                ) == (final(self)@, seen(result)),
            command_recorded(final(self)@, seen(result)),
    {
        let stamp: Stamp = draw_stamp(1);
        self.confirm_claim_with(claim_id, idempotency_key, &stamp)
    }

    /// Supersedes every other active claim of a single-valued slot.
    fn supersede_other_active_claims(&mut self, slot: &SlotRow, excluded: Option<&str>, at: &str)
        ensures
            final(self)@ == with_others_superseded(
                old(self)@,
                slot@,
                excluded.deep_view(),
                at@,
            ),
    {
        if slot.cardinality == ClaimCardinality::SetValued {
            return;
        }
        let patch: ClaimPatch = restate(ClaimStatus::Superseded, at);
        self.patch_claims(&ActiveOther { slot, excluded }, &patch);
    }

    /// Confirms a claim with a given identifier and time.
    pub fn confirm_claim_with(&mut self, claim_id: &str, idempotency_key: &str, stamp: &Stamp) -> (result:
        Result<MutationResult<Claim>, KernelError>)
        requires
            stamp@.ids.len() == 1,
        ensures
            confirm_step(old(self)@, claim_id@, idempotency_key@, stamp@) == (
                final(self)@,
                seen(result),
            ),
            command_recorded(final(self)@, seen(result)),
    {
        if let Err(error) = validate_nonempty("idempotency key", idempotency_key) {
            return Err(error);
        }
        let mut fields: Vec<(String, String)> = Vec::new();
        let ghost none = fields.deep_view();
        add_field(&mut fields, "claimId", quote(claim_id));
        proof {
            assert(none =~= Seq::empty());
            assert(fields.deep_view() =~= seq![("claimId"@, json_quoted(claim_id@))]);
        }
        let text: String = write_object(&fields);
        let hash: String = operation_request_hash("claim.confirm", text.as_str());
        if let Some(answer) = self.replayed_claim(idempotency_key, "claim.confirm", hash.as_str()) {
            return answer;
        }
        let claim: Claim = match self.query_claim(claim_id) {
            Ok(claim) => claim,
            Err(error) => return Err(error),
        };
        if claim.status != ClaimStatus::Pending && claim.status != ClaimStatus::Disputed {
            return Err(KernelError::invalid_input("claim must be pending or disputed to confirm"));
        }
        if let Err(error) = self.check_command(claim.scope_id.as_str(), stamp) {
            return Err(error);
        }
        let slot: SlotRow = claim_slot(&claim);
        if let Err(error) = self.check_claim_slot(&slot) {
            return Err(error);
        }
        let at: &str = stamp.at.as_str();
        if let Some(existing) = self.query_active_claim_member(&slot, claim.value_hash.as_str()) {
            if existing.value.same_value(&claim.value) {
                self.insert_memory_command_event(
                    claim.scope_id.as_str(),
                    "claim.confirm",
                    text.as_str(),
                    existing.id.as_str(),
                    stamp,
                );
                self.ensure_claim_slot(&slot);
                self.copy_claim_sources(claim.id.as_str(), existing.id.as_str());
                self.attach_event(existing.id.as_str(), stamp.ids[0].as_str());
                let patch: ClaimPatch = restate(ClaimStatus::Rejected, at);
                self.patch_claims(&ClaimNamed { id: claim.id.as_str() }, &patch);
                return self.complete_claim(
                    idempotency_key,
                    "claim.confirm",
                    hash.as_str(),
                    existing,
                );
            }
        }
        self.insert_memory_command_event(
            claim.scope_id.as_str(),
            "claim.confirm",
            text.as_str(),
            claim.id.as_str(),
            stamp,
        );
        self.ensure_claim_slot(&slot);
        self.supersede_other_active_claims(&slot, Some(claim.id.as_str()), at);
        let patch = ClaimPatch {
            status: ClaimStatus::Active,
            modality: Some(ClaimModality::AcceptedDecision),
            authority: Some(ClaimAuthority::ExplicitUser),
            at: stamp.at.clone(),
        };
        proof {
            assert(patch@ == confirmation(stamp@.at));
        }
        self.patch_claims(&ClaimNamed { id: claim.id.as_str() }, &patch);
        self.attach_event(claim.id.as_str(), stamp.ids[0].as_str());
        let confirmed: Claim = patch_claim(claim, &patch);
        self.complete_claim(idempotency_key, "claim.confirm", hash.as_str(), confirmed)
    }

    pub fn correct_claim(
        &mut self,
        claim_id: &str,
        value: JsonValue,
        source_event_ids: &[String],
        idempotency_key: &str,
    ) -> (result: Result<MutationResult<Claim>, KernelError>)
        ensures
            exists|stamp: StampModel|
                drawn(stamp) && stamp.ids.len() == 2 && #[trigger] correct_step(
                    old(self)@,
                    claim_id@,
                    value@,
                    source_event_ids.deep_view(),
                    idempotency_key@,
                    stamp,
                ) == (final(self)@, seen(result)),
            command_recorded(final(self)@, seen(result)),
    {
        let stamp: Stamp = draw_stamp(2);
        self.correct_claim_with(claim_id, value, source_event_ids, idempotency_key, &stamp)
    }

    /// Corrects a claim with given identifiers and time.
    pub fn correct_claim_with(
        &mut self,
        claim_id: &str,
        value: JsonValue,
        source_event_ids: &[String],
        idempotency_key: &str,
        stamp: &Stamp,
    ) -> (result: Result<MutationResult<Claim>, KernelError>)
        requires
            stamp@.ids.len() == 2,
        ensures
            correct_step(
                old(self)@,
                claim_id@,
                value@,
                source_event_ids.deep_view(),
                idempotency_key@,
                stamp@,
            ) == (final(self)@, seen(result)),
            command_recorded(final(self)@, seen(result)),
    {
        if let Err(error) = validate_nonempty("idempotency key", idempotency_key) {
            return Err(error);
        }
        let event_ids: Vec<String> = copy_texts(source_event_ids);
        let mut fields: Vec<(String, String)> = Vec::new();
        let ghost none = fields.deep_view();
        add_field(&mut fields, "claimId", quote(claim_id));
        add_field(&mut fields, "sourceEventIds", write_string_array(&event_ids));
        add_field(&mut fields, "value", value.text().to_owned());
        proof {
            assert(none =~= Seq::empty());
            assert(fields.deep_view() =~= seq![
                ("claimId"@, json_quoted(claim_id@)),
                ("sourceEventIds"@, string_array_text(event_ids.deep_view())),
                ("value"@, value@),
            ]);
        }
        let text: String = write_object(&fields);
        let hash: String = operation_request_hash("claim.correct", text.as_str());
        if let Some(answer) = self.replayed_claim(idempotency_key, "claim.correct", hash.as_str()) {
            return answer;
        }
        let former: Claim = match self.query_claim(claim_id) {
            Ok(claim) => claim,
            Err(error) => return Err(error),
        };
        if let Err(error) = self.validate_claim_event_sources(former.scope_id.as_str(), &event_ids) {
            return Err(error);
        }
        if let Err(error) = self.check_command(former.scope_id.as_str(), stamp) {
            return Err(error);
        }
        let claim = Claim {
            id: stamp.ids[1].clone(),
            origin_run_id: None,
            scope_id: former.scope_id.clone(),
            kind: former.kind,
            subject: former.subject.clone(),
            predicate: former.predicate.clone(),
            cardinality: former.cardinality,
            value_hash: hash_json(&value),
            value,
            modality: ClaimModality::ExplicitAssertion,
            status: ClaimStatus::Active,
            authority: ClaimAuthority::ExplicitUser,
            confidence: Real::one(),
            supersedes_id: Some(former.id.clone()),
            created_at: stamp.at.clone(),
            updated_at: stamp.at.clone(),
        };
        let slot: SlotRow = claim_slot(&claim);
        if let Err(error) = self.check_claim_slot(&slot) {
            return Err(error);
        }
        let vacant: Result<(), KernelError> = self.check_claim_id(claim.id.as_str());
        let before: Vec<Claim> = self.claims.duplicate();
        let patch: ClaimPatch = restate(ClaimStatus::Superseded, stamp.at.as_str());
        if former.cardinality == ClaimCardinality::Single {
            self.patch_claims(&ActiveSingle { slot: &slot }, &patch);
        }
        self.patch_claims(&ClaimNamed { id: former.id.as_str() }, &patch);
        proof {
            assert(slot@ == slot_of(former@));
            assert(self@ == with_superseded(old(self)@, former@, stamp@.at));
        }
        let member: Option<Claim> = self.query_active_claim_member(&slot, claim.value_hash.as_str());
        if member.is_none() {
            if let Err(error) = vacant {
                self.claims = before;
                return Err(error);
            }
        }
        self.ensure_claim_slot(&slot);
        if let Some(existing) = member {
            self.insert_memory_command_event(
                former.scope_id.as_str(),
                "claim.correct",
                text.as_str(),
                existing.id.as_str(),
                stamp,
            );
            self.copy_claim_sources(former.id.as_str(), existing.id.as_str());
            self.attach_event_sources(existing.id.as_str(), &event_ids);
            self.attach_event(existing.id.as_str(), stamp.ids[0].as_str());
            return self.complete_claim(idempotency_key, "claim.correct", hash.as_str(), existing);
        }
        self.insert_memory_command_event(
            former.scope_id.as_str(),
            "claim.correct",
            text.as_str(),
            claim.id.as_str(),
            stamp,
        );
        self.insert_claim(&claim);
        self.attach_event_sources(claim.id.as_str(), &event_ids);
        self.attach_event(claim.id.as_str(), stamp.ids[0].as_str());
        self.complete_claim(idempotency_key, "claim.correct", hash.as_str(), claim)
    }

    pub fn rescope_claim(&mut self, claim_id: &str, new_scope_id: &str, idempotency_key: &str) -> (result:
        Result<MutationResult<Claim>, KernelError>)
        ensures
            exists|stamp: StampModel|
                drawn(stamp) && stamp.ids.len() == 2 && #[trigger] rescope_step(
                    old(self)@,
                    claim_id@,
                    new_scope_id@,
                    idempotency_key@,
                    stamp,
                ) == (final(self)@, seen(result)),
            command_recorded(final(self)@, seen(result)),
    {
        let stamp: Stamp = draw_stamp(2);
        self.rescope_claim_with(claim_id, new_scope_id, idempotency_key, &stamp)
    }

    fn check_target(&self, old_scope_id: &str, new_scope_id: &str) -> (result: Result<(), KernelError>)
        ensures
            match result {
                Ok(_) => target_refusal(self@, old_scope_id@, new_scope_id@) is None,
                Err(error) => target_refusal(self@, old_scope_id@, new_scope_id@) == Some(error@),
            },
    {
        if same_text(new_scope_id, old_scope_id) {
            return Ok(());
        }
        match self.scope_is_ancestor(new_scope_id, old_scope_id) {
            Err(error) => Err(error),
            Ok(true) => Ok(()),
            Ok(false) => Err(
                KernelError::invalid_input(
                    "claim rescope target must be the current scope or one of its ancestors",
                ),
            ),
        }
    }

    /// Moves a claim to another scope with given identifiers and time.
    pub fn rescope_claim_with(
        &mut self,
        claim_id: &str,
        new_scope_id: &str,
        idempotency_key: &str,
        stamp: &Stamp,
    ) -> (result: Result<MutationResult<Claim>, KernelError>)
        requires
            stamp@.ids.len() == 2,
        ensures
            rescope_step(old(self)@, claim_id@, new_scope_id@, idempotency_key@, stamp@) == (
                final(self)@,
                seen(result),
            ),
            command_recorded(final(self)@, seen(result)),
    {
        if let Err(error) = validate_nonempty("idempotency key", idempotency_key) {
            return Err(error);
        }
        let text: String = write_claim_request(claim_id, "newScopeId", quote(new_scope_id));
        let hash: String = operation_request_hash("claim.rescope", text.as_str());
        if let Some(answer) = self.replayed_claim(idempotency_key, "claim.rescope", hash.as_str()) {
            return answer;
        }
        if let Err(error) = self.ensure_scope_exists(new_scope_id) {
            return Err(error);
        }
        let former: Claim = match self.query_claim(claim_id) {
            Ok(claim) => claim,
            Err(error) => return Err(error),
        };
        if let Err(error) = self.validate_existing_claim_sources_visible(claim_id, new_scope_id) {
            return Err(error);
        }
        if let Err(error) = self.check_target(former.scope_id.as_str(), new_scope_id) {
            return Err(error);
        }
        if let Err(error) = self.check_command(new_scope_id, stamp) {
            return Err(error);
        }
        let active: bool = former.status == ClaimStatus::Active;
        let mut claim: Claim = former.duplicate();
        claim.id = stamp.ids[1].clone();
        claim.scope_id = new_scope_id.to_owned();
        claim.status = if active {
            ClaimStatus::Active
        } else {
            ClaimStatus::Pending
        };
        claim.supersedes_id = Some(former.id.clone());
        claim.created_at = stamp.at.clone();
        claim.updated_at = stamp.at.clone();
        let slot: SlotRow = claim_slot(&claim);
        if active {
            if let Err(error) = self.check_claim_slot(&slot) {
                return Err(error);
            }
        }
        let vacant: Result<(), KernelError> = self.check_claim_id(claim.id.as_str());
        let before: Vec<Claim> = self.claims.duplicate();
        let patch: ClaimPatch = restate(ClaimStatus::Superseded, stamp.at.as_str());
        self.patch_claims(&ClaimNamed { id: former.id.as_str() }, &patch);
        let member: Option<Claim> = if active {
            self.query_active_claim_member(&slot, claim.value_hash.as_str())
        } else {
            None
        };
        if member.is_none() {
            if let Err(error) = vacant {
                self.claims = before;
                return Err(error);
            }
        }
        if active {
            self.ensure_claim_slot(&slot);
            if let Some(existing) = member {
                self.insert_memory_command_event(
                    new_scope_id,
                    "claim.rescope",
                    text.as_str(),
                    existing.id.as_str(),
                    stamp,
                );
                self.copy_claim_sources(claim_id, existing.id.as_str());
                self.attach_event(existing.id.as_str(), stamp.ids[0].as_str());
                return self.complete_claim(
                    idempotency_key,
                    "claim.rescope",
                    hash.as_str(),
                    existing,
                );
            }
            self.supersede_other_active_claims(&slot, None, stamp.at.as_str());
        }
        self.insert_memory_command_event(
            new_scope_id,
            "claim.rescope",
            text.as_str(),
            claim.id.as_str(),
            stamp,
        );
        self.insert_claim(&claim);
        self.copy_claim_sources(claim_id, claim.id.as_str());
        self.attach_event(claim.id.as_str(), stamp.ids[0].as_str());
        self.complete_claim(idempotency_key, "claim.rescope", hash.as_str(), claim)
    }

    pub fn reject_claim(&mut self, claim_id: &str, idempotency_key: &str) -> (result: Result<
        MutationResult<Claim>,
        KernelError,
    >)
        ensures
            exists|stamp: StampModel|
                drawn(stamp) && stamp.ids.len() == 1 && #[trigger] close_step(
                    old(self)@,
                    claim_id@,
                    false,
                    idempotency_key@,
                    stamp,
                ) == (final(self)@, seen(result)),
            command_recorded(final(self)@, seen(result)),
    {
        let stamp: Stamp = draw_stamp(1);
        self.close_claim(claim_id, false, idempotency_key, &stamp)
    }

    pub fn forget_claim(&mut self, claim_id: &str, idempotency_key: &str) -> (result: Result<
        MutationResult<Claim>,
        KernelError,
    >)
        ensures
            exists|stamp: StampModel|
                drawn(stamp) && stamp.ids.len() == 1 && #[trigger] close_step(
                    old(self)@,
                    claim_id@,
                    true,
                    idempotency_key@,
                    stamp,
                ) == (final(self)@, seen(result)),
            command_recorded(final(self)@, seen(result)),
    {
        let stamp: Stamp = draw_stamp(1);
        self.close_claim(claim_id, true, idempotency_key, &stamp)
    }

    /// Rejects or forgets a claim with a given identifier and time.
    pub fn close_claim(
        &mut self,
        claim_id: &str,
        forget: bool,
        idempotency_key: &str,
        stamp: &Stamp,
    ) -> (result: Result<MutationResult<Claim>, KernelError>)
        requires
            stamp@.ids.len() == 1,
        ensures
            close_step(old(self)@, claim_id@, forget, idempotency_key@, stamp@) == (
                final(self)@,
                seen(result),
            ),
            command_recorded(final(self)@, seen(result)),
    {
        if let Err(error) = validate_nonempty("idempotency key", idempotency_key) {
            return Err(error);
        }
        let closed: ClaimStatus = if forget {
            ClaimStatus::Expired
        } else {
            ClaimStatus::Rejected
        };
        let operation: &str = if forget {
            "claim.forget"
        } else {
            "claim.reject"
        };
        let text: String = write_claim_request(claim_id, "status", quote(closed.label_text()));
        let hash: String = operation_request_hash(operation, text.as_str());
        if let Some(answer) = self.replayed_claim(idempotency_key, operation, hash.as_str()) {
            return answer;
        }
        let claim: Claim = match self.query_claim(claim_id) {
            Ok(claim) => claim,
            Err(error) => return Err(error),
        };
        let waiting: bool = claim.status == ClaimStatus::Pending || claim.status
            == ClaimStatus::Disputed;
        if !(waiting || (forget && claim.status == ClaimStatus::Active)) {
            if forget {
                return Err(
                    KernelError::invalid_input("claim must be pending, active, or disputed to forget"),
                );
            }
            return Err(KernelError::invalid_input("claim must be pending or disputed to reject"));
        }
        if let Err(error) = self.check_command(claim.scope_id.as_str(), stamp) {
            return Err(error);
        }
        self.insert_memory_command_event(
            claim.scope_id.as_str(),
            operation,
            text.as_str(),
            claim.id.as_str(),
            stamp,
        );
        let patch: ClaimPatch = restate(closed, stamp.at.as_str());
        self.patch_claims(&ClaimNamed { id: claim.id.as_str() }, &patch);
        self.attach_event(claim.id.as_str(), stamp.ids[0].as_str());
        let done: Claim = patch_claim(claim, &patch);
        self.complete_claim(idempotency_key, operation, hash.as_str(), done)
    }

    pub fn list_claims(&self, scope_id: &str, include_ancestors: bool, status: Option<ClaimStatus>) -> (claims:
        Result<Vec<Claim>, KernelError>)
        ensures
            seen(claims) == if include_ancestors {
                match visible_scopes(self@, scope_id@) {
                    Ok(visible) => Ok(claims_in(self@, visible, status)),
                    Err(error) => Err(error),
                }
            } else if scope_exists(self@, scope_id@) {
                Ok(claims_in(self@, seq![scope_id@], status))
            } else {
                Err(no_scope(scope_id@))
            },
    {
        if include_ancestors {
            match self.visible_scope_ids(scope_id) {
                Ok(visible) => Ok(self.query_claims_for_scopes(&visible, status)),
                Err(error) => Err(error),
            }
        } else {
            if let Err(error) = self.ensure_scope_exists(scope_id) {
                return Err(error);
            }
            let mut scope_ids: Vec<String> = Vec::new();
            scope_ids.push(scope_id.to_owned());
            proof {
                assert(scope_ids.deep_view() =~= seq![scope_id@]);
            }
            Ok(self.query_claims_for_scopes(&scope_ids, status))
        }
    }

    pub fn reconcile(&mut self, scope_id: &str, idempotency_key: &str) -> (result: Result<
        MutationResult<ReconciliationSummary>,
        KernelError,
    >)
        ensures
            exists|stamp: StampModel|
                #[trigger] reconcile_step(old(self)@, scope_id@, idempotency_key@, stamp) == (
                    final(self)@,
                    seen(result),
                ),
    {
        let stamp: Stamp = draw_stamp(0);
        self.reconcile_with(scope_id, idempotency_key, &stamp)
    }

    /// Reconciles one pending claim.
    fn reconcile_claim(&mut self, summary: &mut ReconciliationSummary, claim: &Claim, at: &str) -> (result:
        Result<(), KernelError>)
        ensures
            match result {
                Ok(_) => reconcile_one(old(self)@, old(summary)@, claim@, at@) == Ok::<
                    (MemoryStoreModel, ReconciliationSummaryModel),
                    ErrorModel,
                >((final(self)@, final(summary)@)),
                Err(error) => reconcile_one(old(self)@, old(summary)@, claim@, at@) == Err::<
                    (MemoryStoreModel, ReconciliationSummaryModel),
                    ErrorModel,
                >(error@),
            },
    {
        let id: String = claim.id.clone();
        if claim.modality == ClaimModality::Proposal || claim.modality == ClaimModality::Inference
            || claim.modality == ClaimModality::Observation {
            push_row(&mut summary.left_pending, id);
            return Ok(());
        }
        let slot: SlotRow = claim_slot(claim);
        match self.query_active_claim_member(&slot, claim.value_hash.as_str()) {
            None => {
                if let Err(error) = self.check_claim_slot(&slot) {
                    return Err(error);
                }
                self.ensure_claim_slot(&slot);
                let patch = ClaimPatch {
                    status: ClaimStatus::Active,
                    modality: None,
                    authority: Some(ClaimAuthority::TrustedSource),
                    at: at.to_owned(),
                };
                proof {
                    assert(patch@ == activation(at@));
                }
                self.patch_claims(&ClaimNamed { id: claim.id.as_str() }, &patch);
                push_row(&mut summary.activated, id);
            },
            Some(existing) => {
                if existing.value.same_value(&claim.value) {
                    self.copy_claim_sources(claim.id.as_str(), existing.id.as_str());
                    let patch: ClaimPatch = restate(ClaimStatus::Rejected, at);
                    self.patch_claims(&ClaimNamed { id: claim.id.as_str() }, &patch);
                    push_row(&mut summary.duplicates_rejected, id);
                } else {
                    let patch: ClaimPatch = restate(ClaimStatus::Disputed, at);
                    self.patch_claims(&ClaimNamed { id: claim.id.as_str() }, &patch);
                    push_row(&mut summary.disputed, id);
                }
            },
        }
        Ok(())
    }

    /// Reconciles the pending claims of a scope at a given time.
    pub fn reconcile_with(&mut self, scope_id: &str, idempotency_key: &str, stamp: &Stamp) -> (result:
        Result<MutationResult<ReconciliationSummary>, KernelError>)
        ensures
            reconcile_step(old(self)@, scope_id@, idempotency_key@, stamp@) == (
                final(self)@,
                seen(result),
            ),
    {
        if let Err(error) = validate_nonempty("idempotency key", idempotency_key) {
            return Err(error);
        }
        let hash: String = operation_request_hash("claim.reconcile", quote(scope_id).as_str());
        match self.prior_result(idempotency_key, "claim.reconcile", hash.as_str()) {
            Prior::Refused(error) => return Err(error),
            Prior::Known(StoredResult::Reconciliation(summary)) => {
                return Ok(MutationResult::replayed(summary));
            },
            Prior::Known(_) => return Err(unreadable_error(idempotency_key)),
            Prior::Fresh => {},
        }
        if let Err(error) = self.ensure_scope_exists(scope_id) {
            return Err(error);
        }
        let mut scope_ids: Vec<String> = Vec::new();
        scope_ids.push(scope_id.to_owned());
        proof {
            assert(scope_ids.deep_view() =~= seq![scope_id@]);
        }
        let pending: Vec<Claim> = self.query_claims_for_scopes(
            &scope_ids,
            Some(ClaimStatus::Pending),
        );
        let mut draft: MemoryStore = self.duplicate();
        let mut summary = ReconciliationSummary {
            activated: Vec::new(),
            disputed: Vec::new(),
            duplicates_rejected: Vec::new(),
            left_pending: Vec::new(),
        };
        let ghost all = pending.deep_view();
        let ghost start = self@;
        proof {
            assert(summary@ =~= empty_summary());
            assert(all.take(0) =~= Seq::empty());
        }
        let mut i: usize = 0;
        while i < pending.len()
            invariant
                i <= pending.len(),
                all == pending.deep_view(),
                start == self@,
                start == old(self)@,
                reconcile_all(start, all.take(i as int), stamp@.at) == Ok::<
                    (MemoryStoreModel, ReconciliationSummaryModel),
                    ErrorModel,
                >((draft@, summary@)),
                required("idempotency key"@, idempotency_key@) is None,
                hash@ == request_hash("claim.reconcile"@, json_quoted(scope_id@)),
                prior(start, idempotency_key@, "claim.reconcile"@, hash@) is Fresh,
                scope_exists(start, scope_id@),
                all == claims_in(start, seq![scope_id@], Some(ClaimStatus::Pending)),
            decreases pending.len() - i,
        {
            proof {
                let next = all.take(i + 1);
                assert(next.drop_last() =~= all.take(i as int));
                assert(next.last() == pending[i as int]@);
            }
            if let Err(error) = draft.reconcile_claim(&mut summary, &pending[i], stamp.at.as_str()) {
                proof {
                    reconcile_stops(start, all, i + 1, stamp@.at);
                }
                return Err(error);
            }
            i = i + 1;
        }
        proof {
            assert(all.take(pending.len() as int) =~= all);
        }
        *self = draft;
        self.save_operation(
            idempotency_key,
            "claim.reconcile",
            hash.as_str(),
            StoredResult::Reconciliation(summary.duplicate()),
        );
        Ok(MutationResult::created(summary))
    }
}

/// An error on the way is the error of the whole reconciliation.
proof fn reconcile_stops(store: MemoryStoreModel, pending: Seq<ClaimModel>, n: int, at: Text)
    requires
        0 <= n <= pending.len(),
        reconcile_all(store, pending.take(n), at) is Err,
    ensures
        reconcile_all(store, pending, at) == reconcile_all(store, pending.take(n), at),
    decreases pending.len(),
{
    if n == pending.len() {
        assert(pending.take(n) =~= pending);
    } else {
        let front = pending.drop_last();
        assert(front.take(n) =~= pending.take(n));
        reconcile_stops(store, front, n, at);
    }
}

} // verus!
