//! What observers hand in: validating it, writing it as JSON, and checking its evidence.

use vstd::prelude::*;

use crate::error::{
    first_error, first_error_at, first_error_from, first_error_none, invalid, ErrorModel, KernelError,
    KernelErrorKind,
};
use crate::event::{event_named, EventNamed};
use crate::json::{
    add_field, array_text, json_quoted, object_text, optional_quoted, quote, quote_all, quote_optional,
    quoted_all, string_array_text, write_array, write_object, write_string_array,
};
use crate::kind::{Labelled, Sensitivity};
use crate::model::{
    AmbiguityDraft, AmbiguityDraftModel, ClaimDraft, ClaimDraftModel, ContinuationDraft,
    ContinuationDraftModel, MemoryEvent, MemoryEventModel, ObservationDraft, ObservationDraftModel,
    ObserverResult, ObserverResultModel,
};
use crate::score::Real;
use crate::table::{append_rows, find_row, first_where, Duplicate};
use crate::text::{
    blank, concat2, concat3, decimal, is_blank, join_text, joined, number_text, Text,
};

verus! {

/// Whether an observer found nothing at all.
pub open spec fn nothing_found(result: ObserverResultModel) -> bool {
    &&& result.observations.len() == 0
    &&& result.claims.len() == 0
    &&& result.ambiguities.len() == 0
    &&& result.continuation.current_task is None
    &&& result.continuation.completed.len() == 0
    &&& result.continuation.blockers.len() == 0
    &&& result.continuation.next_actions.len() == 0
    &&& result.continuation.unresolved_questions.len() == 0
}

/// The error for a score that is not between zero and one, if it is not.
pub open spec fn score_refusal(name: Text, score: Real) -> Option<ErrorModel> {
    if score.in_unit_interval() {
        None
    } else {
        Some(invalid(name + " must be between 0 and 1"@))
    }
}

/// The error about the item at a position.
pub open spec fn item_error(name: Text, index: int, fault: Text) -> ErrorModel {
    invalid(name + decimal(index) + fault)
}

pub open spec fn observation_refusal() -> spec_fn(int, ObservationDraftModel) -> Option<ErrorModel> {
    |index: int, draft: ObservationDraftModel|
        if blank(draft.content) {
            Some(item_error("observation "@, index, " content is empty"@))
        } else if let Some(error) = score_refusal("observation importance"@, draft.importance.number) {
            Some(error)
        } else if let Some(error) = score_refusal("observation confidence"@, draft.confidence.number) {
            Some(error)
        } else if draft.source_event_ids.len() == 0 {
            Some(item_error("observation "@, index, " has no source events"@))
        } else {
            None
        }
}

pub open spec fn claim_refusal() -> spec_fn(int, ClaimDraftModel) -> Option<ErrorModel> {
    |index: int, draft: ClaimDraftModel|
        if blank(draft.subject) {
            Some(item_error("claim "@, index, " subject is empty"@))
        } else if blank(draft.predicate) {
            Some(item_error("claim "@, index, " predicate is empty"@))
        } else if let Some(error) = score_refusal("claim confidence"@, draft.confidence.number) {
            Some(error)
        } else if draft.source_event_ids.len() == 0 {
            Some(item_error("claim "@, index, " has no source events"@))
        } else {
            None
        }
}

pub open spec fn ambiguity_refusal() -> spec_fn(int, AmbiguityDraftModel) -> Option<ErrorModel> {
    |index: int, draft: AmbiguityDraftModel|
        if blank(draft.description) {
            Some(item_error("ambiguity "@, index, " description is empty"@))
        } else if draft.source_event_ids.len() == 0 {
            Some(item_error("ambiguity "@, index, " has no source events"@))
        } else {
            None
        }
}

/// The error for a result that is malformed by itself, if it is. Finding nothing has to be
/// acknowledged with a reason.
pub open spec fn result_refusal(result: ObserverResultModel) -> Option<ErrorModel> {
    if nothing_found(result) && !(result.empty_reason matches Some(reason) && !blank(reason)) {
        Some(
            invalid("an empty ObserverResult requires a non-empty emptyReason acknowledgement"@),
        )
    } else if result.empty_reason matches Some(reason) && reason.len() > 500 {
        Some(invalid("emptyReason must be at most 500 characters"@))
    } else if let Some(error) = first_error_from(result.observations, observation_refusal(), 0) {
        Some(error)
    } else if let Some(error) = first_error_from(result.claims, claim_refusal(), 0) {
        Some(error)
    } else {
        first_error_from(result.ambiguities, ambiguity_refusal(), 0)
    }
}

/// The evidence of some observations, one list behind the other.
pub open spec fn observation_evidence(drafts: Seq<ObservationDraftModel>) -> Seq<Text>
    decreases drafts.len(),
{
    if drafts.len() == 0 {
        Seq::empty()
    } else {
        observation_evidence(drafts.drop_last()) + drafts.last().source_event_ids
    }
}

pub open spec fn claim_evidence(drafts: Seq<ClaimDraftModel>) -> Seq<Text>
    decreases drafts.len(),
{
    if drafts.len() == 0 {
        Seq::empty()
    } else {
        claim_evidence(drafts.drop_last()) + drafts.last().source_event_ids
    }
}

pub open spec fn ambiguity_evidence(drafts: Seq<AmbiguityDraftModel>) -> Seq<Text>
    decreases drafts.len(),
{
    if drafts.len() == 0 {
        Seq::empty()
    } else {
        ambiguity_evidence(drafts.drop_last()) + drafts.last().source_event_ids
    }
}

/// All evidence that a result names.
pub open spec fn named_evidence(result: ObserverResultModel) -> Seq<Text> {
    observation_evidence(result.observations) + claim_evidence(result.claims) + ambiguity_evidence(
        result.ambiguities,
    )
}

/// The error for evidence that a run does not hold or whose content is withheld, if that is so.
pub open spec fn evidence_refusal(sources: Seq<MemoryEventModel>) -> spec_fn(Text) -> Option<
    ErrorModel,
> {
    |event_id: Text|
        match first_where(sources, event_named(event_id)) {
            None => Some(
                invalid("source event "@ + event_id + " is not in the observation run"@),
            ),
            Some(event) => if event.sensitivity is Normal {
                None
            } else {
                Some(
                    invalid("redacted event "@ + event_id + " cannot source derived memory"@),
                )
            },
        }
}

/// The error for the evidence that a result names, if there is one.
pub open spec fn provenance_refusal(
    result: ObserverResultModel,
    sources: Seq<MemoryEventModel>,
) -> Option<ErrorModel> {
    first_error(named_evidence(result), evidence_refusal(sources))
}

pub open spec fn observation_json() -> spec_fn(ObservationDraftModel) -> Text {
    |draft: ObservationDraftModel|
        object_text(
            seq![
                ("kind"@, json_quoted(draft.kind.label())),
                ("content"@, json_quoted(draft.content)),
                ("importance"@, draft.importance.json),
                ("confidence"@, draft.confidence.json),
                ("sourceEventIds"@, string_array_text(draft.source_event_ids)),
                ("eventTimeFrom"@, optional_quoted(draft.event_time_from)),
                ("eventTimeTo"@, optional_quoted(draft.event_time_to)),
            ],
        )
}

pub open spec fn claim_json() -> spec_fn(ClaimDraftModel) -> Text {
    |draft: ClaimDraftModel|
        object_text(
            seq![
                ("kind"@, json_quoted(draft.kind.label())),
                ("subject"@, json_quoted(draft.subject)),
                ("predicate"@, json_quoted(draft.predicate)),
                ("cardinality"@, json_quoted(draft.cardinality.label())),
                ("value"@, draft.value),
                ("modality"@, json_quoted(draft.modality.label())),
                ("confidence"@, draft.confidence.json),
                ("sourceEventIds"@, string_array_text(draft.source_event_ids)),
            ],
        )
}

pub open spec fn ambiguity_json() -> spec_fn(AmbiguityDraftModel) -> Text {
    |draft: AmbiguityDraftModel|
        object_text(
            seq![
                ("description"@, json_quoted(draft.description)),
                ("sourceEventIds"@, string_array_text(draft.source_event_ids)),
            ],
        )
}

pub open spec fn continuation_json(draft: ContinuationDraftModel) -> Text {
    object_text(
        seq![
            ("currentTask"@, optional_quoted(draft.current_task)),
            ("completed"@, string_array_text(draft.completed)),
            ("blockers"@, string_array_text(draft.blockers)),
            ("nextActions"@, string_array_text(draft.next_actions)),
            ("unresolvedQuestions"@, string_array_text(draft.unresolved_questions)),
        ],
    )
}

/// A result as it enters a request.
pub open spec fn result_json(result: ObserverResultModel) -> Text {
    object_text(
        seq![
            ("observations"@, array_text(result.observations.map_values(observation_json()))),
            ("claims"@, array_text(result.claims.map_values(claim_json()))),
            ("continuation"@, continuation_json(result.continuation)),
            ("ambiguities"@, array_text(result.ambiguities.map_values(ambiguity_json()))),
            ("emptyReason"@, optional_quoted(result.empty_reason)),
        ],
    )
}

/// A list of strings as indented JSON, one level deep.
pub open spec fn indented_list(items: Seq<Text>) -> Text {
    if items.len() == 0 {
        "[]"@
    } else {
        "[\n    "@ + joined(items.map_values(quoted_all()), ",\n    "@) + "\n  ]"@
    }
}

/// A continuation as indented JSON: the content of a continuation view.
pub open spec fn continuation_text(draft: ContinuationDraftModel) -> Text {
    "{\n  \"currentTask\": "@ + optional_quoted(draft.current_task) + ",\n  \"completed\": "@
        + indented_list(draft.completed) + ",\n  \"blockers\": "@ + indented_list(draft.blockers)
        + ",\n  \"nextActions\": "@ + indented_list(draft.next_actions)
        + ",\n  \"unresolvedQuestions\": "@ + indented_list(draft.unresolved_questions) + "\n}"@
}

pub fn observer_result_is_completely_empty(result: &ObserverResult) -> (b: bool)
    ensures
        b == nothing_found(result@),
{
    result.observations.is_empty() && result.claims.is_empty() && result.ambiguities.is_empty()
        && result.continuation.current_task.is_none() && result.continuation.completed.is_empty()
        && result.continuation.blockers.is_empty() && result.continuation.next_actions.is_empty()
        && result.continuation.unresolved_questions.is_empty()
}

pub fn validate_score(name: &str, score: Real) -> (result: Result<(), KernelError>)
    ensures
        match result {
            Ok(_) => score_refusal(name@, score) is None,
            Err(error) => score_refusal(name@, score) == Some(error@),
        },
{
    if score.is_score() {
        Ok(())
    } else {
        Err(
            KernelError::of(KernelErrorKind::InvalidInput, concat2(name, " must be between 0 and 1")),
        )
    }
}

fn item_fault(name: &str, index: usize, fault: &str) -> (error: KernelError)
    ensures
        error@ == item_error(name@, index as int, fault@),
{
    KernelError::of(
        KernelErrorKind::InvalidInput,
        concat3(name, number_text(index as i128).as_str(), fault),
    )
}

fn check_observation_draft(index: usize, draft: &ObservationDraft) -> (result: Result<(), KernelError>)
    ensures
        match result {
            Ok(_) => (observation_refusal())(index as int, draft@) is None,
            Err(error) => (observation_refusal())(index as int, draft@) == Some(error@),
        },
{
    if is_blank(draft.content.as_str()) {
        return Err(item_fault("observation ", index, " content is empty"));
    }
    if let Err(error) = validate_score("observation importance", draft.importance.number) {
        return Err(error);
    }
    if let Err(error) = validate_score("observation confidence", draft.confidence.number) {
        return Err(error);
    }
    if draft.source_event_ids.is_empty() {
        return Err(item_fault("observation ", index, " has no source events"));
    }
    Ok(())
}

fn check_claim_draft(index: usize, draft: &ClaimDraft) -> (result: Result<(), KernelError>)
    ensures
        match result {
            Ok(_) => (claim_refusal())(index as int, draft@) is None,
            Err(error) => (claim_refusal())(index as int, draft@) == Some(error@),
        },
{
    if is_blank(draft.subject.as_str()) {
        return Err(item_fault("claim ", index, " subject is empty"));
    }
    if is_blank(draft.predicate.as_str()) {
        return Err(item_fault("claim ", index, " predicate is empty"));
    }
    if let Err(error) = validate_score("claim confidence", draft.confidence.number) {
        return Err(error);
    }
    if draft.source_event_ids.is_empty() {
        return Err(item_fault("claim ", index, " has no source events"));
    }
    Ok(())
}

fn check_ambiguity_draft(index: usize, draft: &AmbiguityDraft) -> (result: Result<(), KernelError>)
    ensures
        match result {
            Ok(_) => (ambiguity_refusal())(index as int, draft@) is None,
            Err(error) => (ambiguity_refusal())(index as int, draft@) == Some(error@),
        },
{
    if is_blank(draft.description.as_str()) {
        return Err(item_fault("ambiguity ", index, " description is empty"));
    }
    if draft.source_event_ids.is_empty() {
        return Err(item_fault("ambiguity ", index, " has no source events"));
    }
    Ok(())
}

/// Refuses a result that is malformed by itself.
pub fn validate_observer_result(result: &ObserverResult) -> (answer: Result<(), KernelError>)
    ensures
        match answer {
            Ok(_) => result_refusal(result@) is None,
            Err(error) => result_refusal(result@) == Some(error@),
        },
{
    if observer_result_is_completely_empty(result) {
        let acknowledged: bool = match &result.empty_reason {
            Some(reason) => !is_blank(reason.as_str()),
            None => false,
        };
        if !acknowledged {
            return Err(
                KernelError::invalid_input(
                    "an empty ObserverResult requires a non-empty emptyReason acknowledgement",
                ),
            );
        }
    }
    if let Some(reason) = &result.empty_reason {
        if reason.as_str().unicode_len() > 500 {
            return Err(KernelError::invalid_input("emptyReason must be at most 500 characters"));
        }
    }
    let ghost r = result@;
    let mut i: usize = 0;
    while i < result.observations.len()
        invariant
            i <= result.observations.len(),
            r == result@,
            first_error_from(r.observations, observation_refusal(), 0) == first_error_from(
                r.observations,
                observation_refusal(),
                i as int,
            ),
            !(nothing_found(r) && !(r.empty_reason matches Some(reason) && !blank(reason))),
            !(r.empty_reason matches Some(reason) && reason.len() > 500),
        decreases result.observations.len() - i,
    {
        proof {
            assert(r.observations[i as int] == result.observations[i as int]@);
        }
        if let Err(error) = check_observation_draft(i, &result.observations[i]) {
            return Err(error);
        }
        i = i + 1;
    }
    let mut i: usize = 0;
    while i < result.claims.len()
        invariant
            i <= result.claims.len(),
            r == result@,
            first_error_from(r.observations, observation_refusal(), 0) is None,
            first_error_from(r.claims, claim_refusal(), 0) == first_error_from(
                r.claims,
                claim_refusal(),
                i as int,
            ),
            !(nothing_found(r) && !(r.empty_reason matches Some(reason) && !blank(reason))),
            !(r.empty_reason matches Some(reason) && reason.len() > 500),
        decreases result.claims.len() - i,
    {
        proof {
            assert(r.claims[i as int] == result.claims[i as int]@);
        }
        if let Err(error) = check_claim_draft(i, &result.claims[i]) {
            return Err(error);
        }
        i = i + 1;
    }
    let mut i: usize = 0;
    while i < result.ambiguities.len()
        invariant
            i <= result.ambiguities.len(),
            r == result@,
            first_error_from(r.observations, observation_refusal(), 0) is None,
            first_error_from(r.claims, claim_refusal(), 0) is None,
            first_error_from(r.ambiguities, ambiguity_refusal(), 0) == first_error_from(
                r.ambiguities,
                ambiguity_refusal(),
                i as int,
            ),
            !(nothing_found(r) && !(r.empty_reason matches Some(reason) && !blank(reason))),
            !(r.empty_reason matches Some(reason) && reason.len() > 500),
        decreases result.ambiguities.len() - i,
    {
        proof {
            assert(r.ambiguities[i as int] == result.ambiguities[i as int]@);
        }
        if let Err(error) = check_ambiguity_draft(i, &result.ambiguities[i]) {
            return Err(error);
        }
        i = i + 1;
    }
    Ok(())
}

fn list_evidence(result: &ObserverResult) -> (ids: Vec<String>)
    ensures
        ids.deep_view() == named_evidence(result@),
{
    let ghost r = result@;
    let mut ids: Vec<String> = Vec::new();
    let mut i: usize = 0;
    proof {
        assert(r.observations.take(0) =~= Seq::empty());
        assert(ids.deep_view() =~= Seq::empty());
    }
    while i < result.observations.len()
        invariant
            i <= result.observations.len(),
            r == result@,
            ids.deep_view() == observation_evidence(r.observations.take(i as int)),
        decreases result.observations.len() - i,
    {
        proof {
            let next = r.observations.take(i + 1);
            assert(next.drop_last() =~= r.observations.take(i as int));
            assert(next.last() == result.observations[i as int]@);
        }
        append_rows(&mut ids, result.observations[i].source_event_ids.duplicate());
        i = i + 1;
    }
    let ghost observed = ids.deep_view();
    let mut i: usize = 0;
    proof {
        assert(r.observations.take(r.observations.len() as int) =~= r.observations);
        assert(r.claims.take(0) =~= Seq::empty());
        assert(observed + claim_evidence(r.claims.take(0)) =~= observed);
    }
    while i < result.claims.len()
        invariant
            i <= result.claims.len(),
            r == result@,
            ids.deep_view() == observed + claim_evidence(r.claims.take(i as int)),
        decreases result.claims.len() - i,
    {
        proof {
            let next = r.claims.take(i + 1);
            assert(next.drop_last() =~= r.claims.take(i as int));
            assert(next.last() == result.claims[i as int]@);
        }
        append_rows(&mut ids, result.claims[i].source_event_ids.duplicate());
        proof {
            assert(ids.deep_view() =~= observed + claim_evidence(r.claims.take(i + 1)));
        }
        i = i + 1;
    }
    let ghost claimed = ids.deep_view();
    let mut i: usize = 0;
    proof {
        assert(r.claims.take(r.claims.len() as int) =~= r.claims);
        assert(r.ambiguities.take(0) =~= Seq::empty());
        assert(claimed + ambiguity_evidence(r.ambiguities.take(0)) =~= claimed);
    }
    while i < result.ambiguities.len()
        invariant
            i <= result.ambiguities.len(),
            r == result@,
            ids.deep_view() == claimed + ambiguity_evidence(r.ambiguities.take(i as int)),
        decreases result.ambiguities.len() - i,
    {
        proof {
            let next = r.ambiguities.take(i + 1);
            assert(next.drop_last() =~= r.ambiguities.take(i as int));
            assert(next.last() == result.ambiguities[i as int]@);
        }
        append_rows(&mut ids, result.ambiguities[i].source_event_ids.duplicate());
        proof {
            assert(ids.deep_view() =~= claimed + ambiguity_evidence(r.ambiguities.take(i + 1)));
        }
        i = i + 1;
    }
    proof {
        assert(r.ambiguities.take(r.ambiguities.len() as int) =~= r.ambiguities);
    }
    ids
}

/// Refuses evidence that a run does not hold or whose content is withheld.
pub fn validate_provenance(result: &ObserverResult, sources: &Vec<MemoryEvent>) -> (answer: Result<
    (),
    KernelError,
>)
    ensures
        match answer {
            Ok(_) => provenance_refusal(result@, sources.deep_view()) is None,
            Err(error) => provenance_refusal(result@, sources.deep_view()) == Some(error@),
        },
{
    let ids: Vec<String> = list_evidence(result);
    let ghost all = ids.deep_view();
    let ghost check = evidence_refusal(sources.deep_view());
    let mut i: usize = 0;
    while i < ids.len()
        invariant
            i <= ids.len(),
            all == ids.deep_view(),
            all == named_evidence(result@),
            check == evidence_refusal(sources.deep_view()),
            forall|k: int| 0 <= k < i ==> check(#[trigger] all[k]) is None,
        decreases ids.len() - i,
    {
        let event_id: &str = ids[i].as_str();
        proof {
            assert(all[i as int] == event_id@);
        }
        match find_row(sources, &EventNamed { id: event_id }) {
            None => {
                let error: KernelError = KernelError::of(
                    KernelErrorKind::InvalidInput,
                    concat3("source event ", event_id, " is not in the observation run"),
                );
                proof {
                    assert(check(all[i as int]) == Some(error@));
                    first_error_at(all, check, i as int);
                }
                return Err(error);
            },
            Some(at) => {
                proof {
                    assert(sources.deep_view()[at as int] == sources[at as int]@);
                }
                if sources[at].sensitivity != Sensitivity::Normal {
                    let error: KernelError = KernelError::of(
                        KernelErrorKind::InvalidInput,
                        concat3("redacted event ", event_id, " cannot source derived memory"),
                    );
                    proof {
                        assert(check(all[i as int]) == Some(error@));
                        first_error_at(all, check, i as int);
                    }
                    return Err(error);
                }
            },
        }
        i = i + 1;
    }
    proof {
        first_error_none(all, check);
    }
    Ok(())
}

fn write_observation(draft: &ObservationDraft) -> (json: String)
    ensures
        json@ == (observation_json())(draft@),
{
    let mut fields: Vec<(String, String)> = Vec::new();
    let ghost none = fields.deep_view();
    add_field(&mut fields, "kind", quote(draft.kind.label_text()));
    add_field(&mut fields, "content", quote(draft.content.as_str()));
    add_field(&mut fields, "importance", draft.importance.json.clone());
    add_field(&mut fields, "confidence", draft.confidence.json.clone());
    add_field(&mut fields, "sourceEventIds", write_string_array(&draft.source_event_ids));
    add_field(&mut fields, "eventTimeFrom", quote_optional(&draft.event_time_from));
    add_field(&mut fields, "eventTimeTo", quote_optional(&draft.event_time_to));
    proof {
        let d = draft@;
        assert(none =~= Seq::empty());
        assert(fields.deep_view() =~= seq![
            ("kind"@, json_quoted(d.kind.label())),
            ("content"@, json_quoted(d.content)),
            ("importance"@, d.importance.json),
            ("confidence"@, d.confidence.json),
            ("sourceEventIds"@, string_array_text(d.source_event_ids)),
            ("eventTimeFrom"@, optional_quoted(d.event_time_from)),
            ("eventTimeTo"@, optional_quoted(d.event_time_to)),
        ]);
    }
    write_object(&fields)
}

fn write_claim(draft: &ClaimDraft) -> (json: String)
    ensures
        json@ == (claim_json())(draft@),
{
    let mut fields: Vec<(String, String)> = Vec::new();
    let ghost none = fields.deep_view();
    add_field(&mut fields, "kind", quote(draft.kind.label_text()));
    add_field(&mut fields, "subject", quote(draft.subject.as_str()));
    add_field(&mut fields, "predicate", quote(draft.predicate.as_str()));
    add_field(&mut fields, "cardinality", quote(draft.cardinality.label_text()));
    add_field(&mut fields, "value", draft.value.text().to_owned());
    add_field(&mut fields, "modality", quote(draft.modality.label_text()));
    add_field(&mut fields, "confidence", draft.confidence.json.clone());
    add_field(&mut fields, "sourceEventIds", write_string_array(&draft.source_event_ids));
    proof {
        let d = draft@;
        assert(none =~= Seq::empty());
        assert(fields.deep_view() =~= seq![
            ("kind"@, json_quoted(d.kind.label())),
            ("subject"@, json_quoted(d.subject)),
            ("predicate"@, json_quoted(d.predicate)),
            ("cardinality"@, json_quoted(d.cardinality.label())),
            ("value"@, d.value),
            ("modality"@, json_quoted(d.modality.label())),
            ("confidence"@, d.confidence.json),
            ("sourceEventIds"@, string_array_text(d.source_event_ids)),
        ]);
    }
    write_object(&fields)
}

fn write_ambiguity(draft: &AmbiguityDraft) -> (json: String)
    ensures
        json@ == (ambiguity_json())(draft@),
{
    let mut fields: Vec<(String, String)> = Vec::new();
    let ghost none = fields.deep_view();
    add_field(&mut fields, "description", quote(draft.description.as_str()));
    add_field(&mut fields, "sourceEventIds", write_string_array(&draft.source_event_ids));
    proof {
        let d = draft@;
        assert(none =~= Seq::empty());
        assert(fields.deep_view() =~= seq![
            ("description"@, json_quoted(d.description)),
            ("sourceEventIds"@, string_array_text(d.source_event_ids)),
        ]);
    }
    write_object(&fields)
}

fn write_continuation(draft: &ContinuationDraft) -> (json: String)
    ensures
        json@ == continuation_json(draft@),
{
    let mut fields: Vec<(String, String)> = Vec::new();
    let ghost none = fields.deep_view();
    add_field(&mut fields, "currentTask", quote_optional(&draft.current_task));
    add_field(&mut fields, "completed", write_string_array(&draft.completed));
    add_field(&mut fields, "blockers", write_string_array(&draft.blockers));
    add_field(&mut fields, "nextActions", write_string_array(&draft.next_actions));
    add_field(
        &mut fields,
        "unresolvedQuestions",
        write_string_array(&draft.unresolved_questions),
    );
    proof {
        let d = draft@;
        assert(none =~= Seq::empty());
        assert(fields.deep_view() =~= seq![
            ("currentTask"@, optional_quoted(d.current_task)),
            ("completed"@, string_array_text(d.completed)),
            ("blockers"@, string_array_text(d.blockers)),
            ("nextActions"@, string_array_text(d.next_actions)),
            ("unresolvedQuestions"@, string_array_text(d.unresolved_questions)),
        ]);
    }
    write_object(&fields)
}

/// Writes a result as it enters a request.
pub fn write_result(result: &ObserverResult) -> (json: String)
    ensures
        json@ == result_json(result@),
{
    let ghost r = result@;
    let mut observations: Vec<String> = Vec::new();
    let mut i: usize = 0;
    while i < result.observations.len()
        invariant
            i <= result.observations.len(),
            observations.len() == i,
            forall|k: int|
                0 <= k < i ==> (#[trigger] observations[k])@ == (observation_json())(
                    result.observations[k]@,
                ),
        decreases result.observations.len() - i,
    {
        observations.push(write_observation(&result.observations[i]));
        i = i + 1;
    }
    let mut claims: Vec<String> = Vec::new();
    let mut i: usize = 0;
    while i < result.claims.len()
        invariant
            i <= result.claims.len(),
            claims.len() == i,
            forall|k: int|
                0 <= k < i ==> (#[trigger] claims[k])@ == (claim_json())(result.claims[k]@),
        decreases result.claims.len() - i,
    {
        claims.push(write_claim(&result.claims[i]));
        i = i + 1;
    }
    let mut ambiguities: Vec<String> = Vec::new();
    let mut i: usize = 0;
    while i < result.ambiguities.len()
        invariant
            i <= result.ambiguities.len(),
            ambiguities.len() == i,
            forall|k: int|
                0 <= k < i ==> (#[trigger] ambiguities[k])@ == (ambiguity_json())(
                    result.ambiguities[k]@,
                ),
        decreases result.ambiguities.len() - i,
    {
        ambiguities.push(write_ambiguity(&result.ambiguities[i]));
        i = i + 1;
    }
    proof {
        assert(observations.deep_view() =~= r.observations.map_values(observation_json()));
        assert(claims.deep_view() =~= r.claims.map_values(claim_json()));
        assert(ambiguities.deep_view() =~= r.ambiguities.map_values(ambiguity_json()));
    }
    let mut fields: Vec<(String, String)> = Vec::new();
    let ghost none = fields.deep_view();
    add_field(&mut fields, "observations", write_array(&observations));
    add_field(&mut fields, "claims", write_array(&claims));
    add_field(&mut fields, "continuation", write_continuation(&result.continuation));
    add_field(&mut fields, "ambiguities", write_array(&ambiguities));
    add_field(&mut fields, "emptyReason", quote_optional(&result.empty_reason));
    proof {
        assert(none =~= Seq::empty());
        assert(fields.deep_view() =~= seq![
            ("observations"@, array_text(r.observations.map_values(observation_json()))),
            ("claims"@, array_text(r.claims.map_values(claim_json()))),
            ("continuation"@, continuation_json(r.continuation)),
            ("ambiguities"@, array_text(r.ambiguities.map_values(ambiguity_json()))),
            ("emptyReason"@, optional_quoted(r.empty_reason)),
        ]);
    }
    write_object(&fields)
}

fn indent_list(items: &Vec<String>) -> (json: String)
    ensures
        json@ == indented_list(items.deep_view()),
{
    if items.is_empty() {
        "[]".to_owned()
    } else {
        concat3("[\n    ", join_text(&quote_all(items), ",\n    ").as_str(), "\n  ]")
    }
}

/// Writes a continuation as indented JSON.
pub fn render_continuation(draft: &ContinuationDraft) -> (text: String)
    ensures
        text@ == continuation_text(draft@),
{
    let mut text: String = "{\n  \"currentTask\": ".to_owned();
    text.append(quote_optional(&draft.current_task).as_str());
    text.append(",\n  \"completed\": ");
    text.append(indent_list(&draft.completed).as_str());
    text.append(",\n  \"blockers\": ");
    text.append(indent_list(&draft.blockers).as_str());
    text.append(",\n  \"nextActions\": ");
    text.append(indent_list(&draft.next_actions).as_str());
    text.append(",\n  \"unresolvedQuestions\": ");
    text.append(indent_list(&draft.unresolved_questions).as_str());
    text.append("\n}");
    text
}

} // verus!
