//! Laws of what callers are told: words and their texts, contexts as Markdown, and errors by class.

use vstd::prelude::*;

use crate::kind::{
    ClaimAuthority, ClaimCardinality, ClaimKind, ClaimModality, ClaimStatus, ContinuationAction,
    EventKind, ObservationKind, RunStatus, ScopeKind, Sensitivity, SourceIntegrity, ViewKind,
    Labelled,
};
use crate::model::{ClaimModel, ContextBundleModel};
use crate::report::{
    active_claim_line, error_class, evidence_line, lines, markdown, observation_line,
    pending_claim_line, recent_event_line, section, view_block,
};
use crate::text::{decimal, occurs, occurs_at, Text};

verus! {

/// The texts of the words of `ScopeKind`.
pub proof fn scope_kind_words(word: ScopeKind)
    ensures
        word.label() == match word {
            ScopeKind::User => "user"@,
            ScopeKind::Project => "project"@,
            ScopeKind::Thread => "thread"@,
            ScopeKind::Task => "task"@,
        },
{
}

/// The texts of the words of `EventKind`.
pub proof fn event_kind_words(word: EventKind)
    ensures
        word.label() == match word {
            EventKind::UserMessage => "user-message"@,
            EventKind::AssistantMessage => "assistant-message"@,
            EventKind::ToolCall => "tool-call"@,
            EventKind::ToolResult => "tool-result"@,
            EventKind::FileReference => "file-reference"@,
            EventKind::SystemEvent => "system-event"@,
            EventKind::MemoryCommand => "memory-command"@,
        },
{
}

/// The texts of the words of `Sensitivity`.
pub proof fn sensitivity_words(word: Sensitivity)
    ensures
        word.label() == match word {
            Sensitivity::Normal => "normal"@,
            Sensitivity::Secret => "secret"@,
            Sensitivity::DoNotStore => "do-not-store"@,
        },
{
}

/// The texts of the words of `ObservationKind`.
pub proof fn observation_kind_words(word: ObservationKind)
    ensures
        word.label() == match word {
            ObservationKind::Event => "event"@,
            ObservationKind::Decision => "decision"@,
            ObservationKind::Outcome => "outcome"@,
            ObservationKind::Failure => "failure"@,
            ObservationKind::Constraint => "constraint"@,
            ObservationKind::Preference => "preference"@,
            ObservationKind::OpenLoop => "open-loop"@,
            ObservationKind::Relationship => "relationship"@,
            ObservationKind::Continuation => "continuation"@,
        },
{
}

/// The texts of the words of `ClaimKind`.
pub proof fn claim_kind_words(word: ClaimKind)
    ensures
        word.label() == match word {
            ClaimKind::Fact => "fact"@,
            ClaimKind::Preference => "preference"@,
            ClaimKind::Decision => "decision"@,
            ClaimKind::Goal => "goal"@,
            ClaimKind::Commitment => "commitment"@,
            ClaimKind::Constraint => "constraint"@,
            ClaimKind::OpenLoop => "open-loop"@,
            ClaimKind::EntityAlias => "entity-alias"@,
            ClaimKind::Relationship => "relationship"@,
            ClaimKind::Hypothesis => "hypothesis"@,
        },
{
}

/// The texts of the words of `ClaimCardinality`.
pub proof fn claim_cardinality_words(word: ClaimCardinality)
    ensures
        word.label() == match word {
            ClaimCardinality::Single => "single"@,
            ClaimCardinality::SetValued => "set"@,
        },
{
}

/// The texts of the words of `ClaimModality`.
pub proof fn claim_modality_words(word: ClaimModality)
    ensures
        word.label() == match word {
            ClaimModality::ExplicitAssertion => "explicit-assertion"@,
            ClaimModality::AcceptedDecision => "accepted-decision"@,
            ClaimModality::Proposal => "proposal"@,
            ClaimModality::Inference => "inference"@,
            ClaimModality::Observation => "observation"@,
        },
{
}

/// The texts of the words of `ClaimStatus`.
pub proof fn claim_status_words(word: ClaimStatus)
    ensures
        word.label() == match word {
            ClaimStatus::Pending => "pending"@,
            ClaimStatus::Active => "active"@,
            ClaimStatus::Disputed => "disputed"@,
            ClaimStatus::Superseded => "superseded"@,
            ClaimStatus::Rejected => "rejected"@,
            ClaimStatus::Expired => "expired"@,
        },
{
}

/// The texts of the words of `ClaimAuthority`.
pub proof fn claim_authority_words(word: ClaimAuthority)
    ensures
        word.label() == match word {
            ClaimAuthority::ExplicitUser => "explicit-user"@,
            ClaimAuthority::TrustedSource => "trusted-source"@,
            ClaimAuthority::ModelInference => "model-inference"@,
        },
{
}

/// The texts of the words of `ViewKind`.
pub proof fn view_kind_words(word: ViewKind)
    ensures
        word.label() == match word {
            ViewKind::Continuity => "continuity"@,
            ViewKind::Continuation => "continuation"@,
        },
{
}

/// The texts of the words of `ContinuationAction`.
pub proof fn continuation_action_words(word: ContinuationAction)
    ensures
        word.label() == match word {
            ContinuationAction::Created => "created"@,
            ContinuationAction::Preserved => "preserved"@,
        },
{
}

/// The texts of the words of `SourceIntegrity`.
pub proof fn source_integrity_words(word: SourceIntegrity)
    ensures
        word.label() == match word {
            SourceIntegrity::Intact => "intact"@,
            SourceIntegrity::PrivacyPurged => "privacy-purged"@,
        },
{
}

/// The texts of the words of `RunStatus`.
pub proof fn run_status_words(word: RunStatus)
    ensures
        word.label() == match word {
            RunStatus::Pending => "pending"@,
            RunStatus::Committed => "committed"@,
            RunStatus::Failed => "failed"@,
            RunStatus::Stale => "stale"@,
        },
{
}

proof fn part_of_part_occurs(whole: Text, middle: Text, part: Text)
    requires
        occurs(whole, middle),
        occurs(middle, part),
    ensures
        occurs(whole, part),
{
    let a = choose|a: int| #[trigger] occurs_at(whole, middle, a);
    let b = choose|b: int| #[trigger] occurs_at(middle, part, b);
    assert(whole.subrange(a + b, a + b + part.len()) =~= whole.subrange(
        a,
        a + middle.len(),
    ).subrange(b, b + part.len()));
    assert(occurs_at(whole, part, a + b));
}

proof fn middle_occurs(head: Text, middle: Text, tail: Text)
    ensures
        occurs(head + middle + tail, middle),
{
    let whole = head + middle + tail;
    assert(whole.subrange(head.len() as int, head.len() as int + middle.len()) =~= middle);
    assert(occurs_at(whole, middle, head.len() as int));
}

proof fn line_occurs<V>(rows: Seq<V>, line: spec_fn(V) -> Text, i: int)
    requires
        0 <= i < rows.len(),
    ensures
        occurs(lines(rows, line), line(rows[i])),
    decreases rows.len(),
{
    let front = lines(rows.drop_last(), line);
    let all = lines(rows, line);
    let none = Seq::<char>::empty();
    if i < rows.len() - 1 {
        line_occurs(rows.drop_last(), line, i);
        middle_occurs(none, front, line(rows.last()));
        assert(none + front + line(rows.last()) =~= all);
        part_of_part_occurs(all, front, line(rows[i]));
    } else {
        middle_occurs(front, line(rows.last()), none);
        assert(front + line(rows.last()) + none =~= all);
    }
}

proof fn section_line_occurs<V>(
    rows: Seq<V>,
    open: Text,
    line: spec_fn(V) -> Text,
    close: Text,
    i: int,
)
    requires
        0 <= i < rows.len(),
    ensures
        occurs(section(rows, open, line, close), line(rows[i])),
{
    line_occurs(rows, line, i);
    middle_occurs(open, lines(rows, line), close);
    part_of_part_occurs(section(rows, open, line, close), lines(rows, line), line(rows[i]));
}

spec fn first_part(bundle: ContextBundleModel) -> Text {
    section(bundle.claims, "<active-claims>\n"@, active_claim_line(), "</active-claims>\n\n"@)
}

spec fn second_part(bundle: ContextBundleModel) -> Text {
    section(
        bundle.pending_claims,
        "<pending-claims>\n"@,
        pending_claim_line(),
        "</pending-claims>\n\n"@,
    )
}

spec fn third_part(bundle: ContextBundleModel) -> Text {
    lines(bundle.continuity_views, view_block())
}

spec fn fourth_part(bundle: ContextBundleModel) -> Text {
    section(bundle.observations, "<observations>\n"@, observation_line(), "</observations>\n\n"@)
}

spec fn fifth_part(bundle: ContextBundleModel) -> Text {
    section(
        bundle.recent_events,
        "<recent-events>\n"@,
        recent_event_line(),
        "</recent-events>\n\n"@,
    )
}

spec fn sixth_part(bundle: ContextBundleModel) -> Text {
    section(
        bundle.recalled_evidence,
        "<recalled-evidence>\n"@,
        evidence_line(),
        "</recalled-evidence>\n\n"@,
    )
}

proof fn parts_occur(bundle: ContextBundleModel)
    ensures
        occurs(markdown(bundle), first_part(bundle)),
        occurs(markdown(bundle), second_part(bundle)),
        occurs(markdown(bundle), third_part(bundle)),
        occurs(markdown(bundle), fourth_part(bundle)),
        occurs(markdown(bundle), fifth_part(bundle)),
        occurs(markdown(bundle), sixth_part(bundle)),
{
    let none = Seq::<char>::empty();
    let a = first_part(bundle);
    let b = second_part(bundle);
    let c = third_part(bundle);
    let d = fourth_part(bundle);
    let e = fifth_part(bundle);
    let f = sixth_part(bundle);
    let g = "<!-- estimated-memory-tokens: "@ + decimal(
        bundle.diagnostics.estimated_tokens as int,
    ) + " -->\n"@;
    let all = markdown(bundle);
    assert(all == a + b + c + d + e + f + g);
    middle_occurs(none, a, b + c + d + e + f + g);
    assert(none + a + (b + c + d + e + f + g) =~= all);
    middle_occurs(a, b, c + d + e + f + g);
    assert(a + b + (c + d + e + f + g) =~= all);
    middle_occurs(a + b, c, d + e + f + g);
    assert(a + b + c + (d + e + f + g) =~= all);
    middle_occurs(a + b + c, d, e + f + g);
    assert(a + b + c + d + (e + f + g) =~= all);
    middle_occurs(a + b + c + d, e, f + g);
    assert(a + b + c + d + e + (f + g) =~= all);
    middle_occurs(a + b + c + d + e, f, g);
}

/// A context as Markdown says all that the context holds: every active claim and every undecided
/// one with its status, every view with its content, every observation, every recent event and all
/// recalled evidence.
pub proof fn markdown_says_everything(bundle: ContextBundleModel, i: int)
    ensures
        0 <= i < bundle.claims.len() ==> {
            let claim = bundle.claims[i];
            occurs(
                markdown(bundle),
                "- ["@ + claim.kind.label() + "] "@ + claim.subject + " "@ + claim.predicate + " "@
                    + claim.value + " (claim: "@ + claim.id + ")\n"@,
            )
        },
        0 <= i < bundle.pending_claims.len() ==> {
            let claim = bundle.pending_claims[i];
            occurs(
                markdown(bundle),
                "- ["@ + claim.kind.label() + "; "@ + claim.status.label() + "] "@ + claim.subject
                    + " "@ + claim.predicate + " "@ + claim.value + " (claim: "@ + claim.id
                    + ")\n"@,
            )
        },
        0 <= i < bundle.continuity_views.len() ==> {
            let view = bundle.continuity_views[i];
            occurs(
                markdown(bundle),
                "<memory-view kind=\""@ + view.kind.label() + "\" id=\""@ + view.id + "\">\n"@
                    + view.content + "\n</memory-view>\n\n"@,
            )
        },
        0 <= i < bundle.observations.len() ==> {
            let observation = bundle.observations[i];
            occurs(
                markdown(bundle),
                "- "@ + observation.content + " (observation: "@ + observation.id + ")\n"@,
            )
        },
        0 <= i < bundle.recent_events.len() ==> {
            let event = bundle.recent_events[i];
            occurs(
                markdown(bundle),
                "- #"@ + decimal(event.sequence as int) + " ["@ + event.kind.label() + "] "@
                    + event.content + "\n"@,
            )
        },
        0 <= i < bundle.recalled_evidence.len() ==> {
            let event = bundle.recalled_evidence[i];
            occurs(
                markdown(bundle),
                "- "@ + event.stream_id + " #"@ + decimal(event.sequence as int) + ": "@
                    + event.content + "\n"@,
            )
        },
{
    parts_occur(bundle);
    let all = markdown(bundle);
    if 0 <= i < bundle.claims.len() {
        section_line_occurs(
            bundle.claims,
            "<active-claims>\n"@,
            active_claim_line(),
            "</active-claims>\n\n"@,
            i,
        );
        part_of_part_occurs(all, first_part(bundle), (active_claim_line())(bundle.claims[i]));
    }
    if 0 <= i < bundle.pending_claims.len() {
        section_line_occurs(
            bundle.pending_claims,
            "<pending-claims>\n"@,
            pending_claim_line(),
            "</pending-claims>\n\n"@,
            i,
        );
        part_of_part_occurs(
            all,
            second_part(bundle),
            (pending_claim_line())(bundle.pending_claims[i]),
        );
    }
    if 0 <= i < bundle.continuity_views.len() {
        line_occurs(bundle.continuity_views, view_block(), i);
        part_of_part_occurs(all, third_part(bundle), (view_block())(bundle.continuity_views[i]));
    }
    if 0 <= i < bundle.observations.len() {
        section_line_occurs(
            bundle.observations,
            "<observations>\n"@,
            observation_line(),
            "</observations>\n\n"@,
            i,
        );
        part_of_part_occurs(all, fourth_part(bundle), (observation_line())(bundle.observations[i]));
    }
    if 0 <= i < bundle.recent_events.len() {
        section_line_occurs(
            bundle.recent_events,
            "<recent-events>\n"@,
            recent_event_line(),
            "</recent-events>\n\n"@,
            i,
        );
        part_of_part_occurs(all, fifth_part(bundle), (recent_event_line())(bundle.recent_events[i]));
    }
    if 0 <= i < bundle.recalled_evidence.len() {
        section_line_occurs(
            bundle.recalled_evidence,
            "<recalled-evidence>\n"@,
            evidence_line(),
            "</recalled-evidence>\n\n"@,
            i,
        );
        part_of_part_occurs(all, sixth_part(bundle), (evidence_line())(bundle.recalled_evidence[i]));
    }
}

/// A context that holds one more active claim is written with one more line among the active
/// claims, behind the others, and nothing else changed.
#[verifier::rlimit(30)]
pub proof fn markdown_grows_by_a_line(bundle: ContextBundleModel, claim: ClaimModel)
    requires
        bundle.claims.len() > 0,
    ensures
        ({
            let more = ContextBundleModel { claims: bundle.claims.push(claim), ..bundle };
            let line = "- ["@ + claim.kind.label() + "] "@ + claim.subject + " "@ + claim.predicate
                + " "@ + claim.value + " (claim: "@ + claim.id + ")\n"@;
            exists|at: int|
                0 <= at <= markdown(bundle).len() && #[trigger] markdown(bundle).take(at) + line
                    + markdown(bundle).skip(at) == markdown(more)
        }),
{
    let more = ContextBundleModel { claims: bundle.claims.push(claim), ..bundle };
    let line = (active_claim_line())(claim);
    let shown = lines(bundle.claims, active_claim_line());
    assert(bundle.claims.push(claim).drop_last() =~= bundle.claims);
    assert(lines(more.claims, active_claim_line()) == shown + line);
    let footer = "<!-- estimated-memory-tokens: "@ + decimal(
        bundle.diagnostics.estimated_tokens as int,
    ) + " -->\n"@;
    inserted_line(
        "<active-claims>\n"@,
        shown,
        line,
        "</active-claims>\n\n"@,
        second_part(bundle),
        third_part(bundle),
        fourth_part(bundle),
        fifth_part(bundle),
        sixth_part(bundle),
        footer,
    );
    let at = ("<active-claims>\n"@ + shown).len() as int;
    assert(markdown(bundle).take(at) + line + markdown(bundle).skip(at) == markdown(more));
}

proof fn inserted_line(
    open: Text,
    shown: Text,
    line: Text,
    close: Text,
    b: Text,
    c: Text,
    d: Text,
    e: Text,
    f: Text,
    g: Text,
)
    ensures
        ({
            let all = (open + shown + close) + b + c + d + e + f + g;
            let at = (open + shown).len() as int;
            &&& 0 <= at <= all.len()
            &&& all.take(at) + line + all.skip(at) == (open + (shown + line) + close) + b + c + d
                + e + f + g
        }),
{
    let rest = close + b + c + d + e + f + g;
    let all = (open + shown + close) + b + c + d + e + f + g;
    let head = open + shown;
    assert(all =~= head + rest);
    assert(all.take(head.len() as int) =~= head);
    assert(all.skip(head.len() as int) =~= rest);
    assert((open + (shown + line) + close) + b + c + d + e + f + g =~= head + line + rest);
}

/// The class of an error is told by what its message says. The first of these that occurs decides:
/// a conflict of keys, a budget, a stale run, a purge, a missing record, a foreign scope, a
/// full-text query, and bad input; anything else is an error of the kernel.
pub proof fn errors_are_classed_by_message(message: Text)
    ensures
        ({
            let class = error_class(message);
            let conflict = occurs(message, "idempotency conflict"@) || occurs(
                message,
                "already used for"@,
            );
            let budget = occurs(message, "budget too small"@);
            let stale = occurs(message, " is stale"@);
            let purged = occurs(message, "privacy-purged"@);
            let missing = occurs(message, "does not exist"@);
            let foreign = occurs(message, "not visible"@) || occurs(
                message,
                "does not belong to scope"@,
            );
            let query = occurs(message, "FTS"@) || occurs(message, "SQL logic error"@);
            let input = occurs(message, "ObserverResult"@) || occurs(message, "source event"@)
                || occurs(message, "must be"@) || occurs(message, "cannot be empty"@) || occurs(
                message,
                "parsing"@,
            );
            &&& !class.1
            &&& conflict ==> class == (
                "idempotency_conflict"@,
                false,
                false,
                Some("use a new key or retry the identical request"@),
            )
            &&& !conflict && budget ==> class == (
                "budget_exceeded"@,
                false,
                true,
                Some("increase the token budget and retry with the same key"@),
            )
            &&& !conflict && !budget && stale ==> class == (
                "stale_observation_run"@,
                false,
                false,
                Some("request a new observation plan"@),
            )
            &&& !conflict && !budget && !stale && purged ==> class == (
                "privacy_purged"@,
                false,
                false,
                Some("use a new idempotency key without restoring purged data"@),
            )
            &&& !conflict && !budget && !stale && !purged && missing ==> class == (
                "not_found"@,
                false,
                false,
                None::<Text>,
            )
            &&& !conflict && !budget && !stale && !purged && !missing && foreign ==> class == (
                "scope_violation"@,
                false,
                true,
                Some("inspect the scope tree and target scope"@),
            )
            &&& !conflict && !budget && !stale && !purged && !missing && !foreign && query ==> class
                == (
                "invalid_search_query"@,
                false,
                true,
                Some("use literal search or correct --fts-query syntax"@),
            )
            &&& !conflict && !budget && !stale && !purged && !missing && !foreign && !query && input
                ==> class == (
                "invalid_input"@,
                false,
                true,
                Some("correct the input and retry with the same key"@),
            )
            &&& !conflict && !budget && !stale && !purged && !missing && !foreign && !query
                && !input ==> class == ("kernel_error"@, false, false, None::<Text>)
        }),
{
}

} // verus!
