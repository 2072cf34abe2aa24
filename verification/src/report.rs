//! What callers are told: contexts as Markdown, and errors by their class.

use vstd::prelude::*;

use crate::kind::Labelled;
use crate::model::{
    Claim, ClaimModel, ContextBundle, ContextBundleModel, MemoryEvent, MemoryEventModel, MemoryView,
    MemoryViewModel, Observation, ObservationModel,
};
use crate::text::{contains_text, decimal, number_text, occurs, Text};

verus! {

/// The lines for some rows, one behind the other.
pub open spec fn lines<V>(rows: Seq<V>, line: spec_fn(V) -> Text) -> Text
    decreases rows.len(),
{
    if rows.len() == 0 {
        Seq::empty()
    } else {
        lines(rows.drop_last(), line) + line(rows.last())
    }
}

/// A section with a line for each row; there is none without rows.
pub open spec fn section<V>(rows: Seq<V>, open: Text, line: spec_fn(V) -> Text, close: Text) -> Text {
    if rows.len() == 0 {
        Seq::empty()
    } else {
        open + lines(rows, line) + close
    }
}

pub open spec fn active_claim_line() -> spec_fn(ClaimModel) -> Text {
    |claim: ClaimModel|
        "- ["@ + claim.kind.label() + "] "@ + claim.subject + " "@ + claim.predicate + " "@
            + claim.value + " (claim: "@ + claim.id + ")\n"@
}

pub open spec fn pending_claim_line() -> spec_fn(ClaimModel) -> Text {
    |claim: ClaimModel|
        "- ["@ + claim.kind.label() + "; "@ + claim.status.label() + "] "@ + claim.subject + " "@
            + claim.predicate + " "@ + claim.value + " (claim: "@ + claim.id + ")\n"@
}

pub open spec fn view_block() -> spec_fn(MemoryViewModel) -> Text {
    |view: MemoryViewModel|
        "<memory-view kind=\""@ + view.kind.label() + "\" id=\""@ + view.id + "\">\n"@ + view.content
            + "\n</memory-view>\n\n"@
}

pub open spec fn observation_line() -> spec_fn(ObservationModel) -> Text {
    |observation: ObservationModel|
        "- "@ + observation.content + " (observation: "@ + observation.id + ")\n"@
}

pub open spec fn recent_event_line() -> spec_fn(MemoryEventModel) -> Text {
    |event: MemoryEventModel|
        "- #"@ + decimal(event.sequence as int) + " ["@ + event.kind.label() + "] "@ + event.content
            + "\n"@
}

pub open spec fn evidence_line() -> spec_fn(MemoryEventModel) -> Text {
    |event: MemoryEventModel|
        "- "@ + event.stream_id + " #"@ + decimal(event.sequence as int) + ": "@ + event.content
            + "\n"@
}

/// A context as Markdown.
pub open spec fn markdown(bundle: ContextBundleModel) -> Text {
    section(
        bundle.claims,
        "<active-claims>\n"@,
        active_claim_line(),
        "</active-claims>\n\n"@,
    ) + section(
        bundle.pending_claims,
        "<pending-claims>\n"@,
        pending_claim_line(),
        "</pending-claims>\n\n"@,
    ) + lines(bundle.continuity_views, view_block()) + section(
        bundle.observations,
        "<observations>\n"@,
        observation_line(),
        "</observations>\n\n"@,
    ) + section(
        bundle.recent_events,
        "<recent-events>\n"@,
        recent_event_line(),
        "</recent-events>\n\n"@,
    ) + section(
        bundle.recalled_evidence,
        "<recalled-evidence>\n"@,
        evidence_line(),
        "</recalled-evidence>\n\n"@,
    ) + ("<!-- estimated-memory-tokens: "@ + decimal(bundle.diagnostics.estimated_tokens as int)
        + " -->\n"@)
}

/// A way to write a row.
trait RowLine<T: DeepView> {
    spec fn line(&self) -> spec_fn(T::V) -> Text;

    fn write(&self, row: &T) -> (text: String)
        ensures
            text@ == (self.line())(row.deep_view()),
    ;
}

struct ActiveClaimLine {}

impl RowLine<Claim> for ActiveClaimLine {
    closed spec fn line(&self) -> spec_fn(ClaimModel) -> Text {
        active_claim_line()
    }

    fn write(&self, row: &Claim) -> (text: String) {
        let mut text: String = "- [".to_owned();
        text.append(row.kind.label_text());
        text.append("] ");
        text.append(row.subject.as_str());
        text.append(" ");
        text.append(row.predicate.as_str());
        text.append(" ");
        text.append(row.value.text());
        text.append(" (claim: ");
        text.append(row.id.as_str());
        text.append(")\n");
        text
    }
}

struct PendingClaimLine {}

impl RowLine<Claim> for PendingClaimLine {
    closed spec fn line(&self) -> spec_fn(ClaimModel) -> Text {
        pending_claim_line()
    }

    fn write(&self, row: &Claim) -> (text: String) {
        let mut text: String = "- [".to_owned();
        text.append(row.kind.label_text());
        text.append("; ");
        text.append(row.status.label_text());
        text.append("] ");
        text.append(row.subject.as_str());
        text.append(" ");
        text.append(row.predicate.as_str());
        text.append(" ");
        text.append(row.value.text());
        text.append(" (claim: ");
        text.append(row.id.as_str());
        text.append(")\n");
        text
    }
}

struct ViewBlock {}

impl RowLine<MemoryView> for ViewBlock {
    closed spec fn line(&self) -> spec_fn(MemoryViewModel) -> Text {
        view_block()
    }

    fn write(&self, row: &MemoryView) -> (text: String) {
        let mut text: String = "<memory-view kind=\"".to_owned();
        text.append(row.kind.label_text());
        text.append("\" id=\"");
        text.append(row.id.as_str());
        text.append("\">\n");
        text.append(row.content.as_str());
        text.append("\n</memory-view>\n\n");
        text
    }
}

struct ObservationLine {}

impl RowLine<Observation> for ObservationLine {
    closed spec fn line(&self) -> spec_fn(ObservationModel) -> Text {
        observation_line()
    }

    fn write(&self, row: &Observation) -> (text: String) {
        let mut text: String = "- ".to_owned();
        text.append(row.content.as_str());
        text.append(" (observation: ");
        text.append(row.id.as_str());
        text.append(")\n");
        text
    }
}

struct RecentEventLine {}

impl RowLine<MemoryEvent> for RecentEventLine {
    closed spec fn line(&self) -> spec_fn(MemoryEventModel) -> Text {
        recent_event_line()
    }

    fn write(&self, row: &MemoryEvent) -> (text: String) {
        let mut text: String = "- #".to_owned();
        text.append(number_text(row.sequence as i128).as_str());
        text.append(" [");
        text.append(row.kind.label_text());
        text.append("] ");
        text.append(row.content.text());
        text.append("\n");
        text
    }
}

struct EvidenceLine {}

impl RowLine<MemoryEvent> for EvidenceLine {
    closed spec fn line(&self) -> spec_fn(MemoryEventModel) -> Text {
        evidence_line()
    }

    fn write(&self, row: &MemoryEvent) -> (text: String) {
        let mut text: String = "- ".to_owned();
        text.append(row.stream_id.as_str());
        text.append(" #");
        text.append(number_text(row.sequence as i128).as_str());
        text.append(": ");
        text.append(row.content.text());
        text.append("\n");
        text
    }
}

fn write_lines<T: DeepView, L: RowLine<T>>(rows: &Vec<T>, by: &L) -> (text: String)
    ensures
        text@ == lines(rows.deep_view(), by.line()),
{
    let ghost all = rows.deep_view();
    let mut text: String = String::new();
    let mut i: usize = 0;
    proof {
        assert(all.take(0) =~= Seq::empty());
        assert(text@ =~= Seq::empty());
    }
    while i < rows.len()
        invariant
            i <= rows.len(),
            all == rows.deep_view(),
            text@ == lines(all.take(i as int), by.line()),
        decreases rows.len() - i,
    {
        proof {
            assert(all.take(i + 1).drop_last() =~= all.take(i as int));
            assert(all.take(i + 1).last() == rows[i as int].deep_view());
        }
        text.append(by.write(&rows[i]).as_str());
        i = i + 1;
    }
    proof {
        assert(all.take(all.len() as int) =~= all);
    }
    text
}

fn write_section<T: DeepView, L: RowLine<T>>(rows: &Vec<T>, open: &str, by: &L, close: &str) -> (text:
    String)
    ensures
        text@ == section(rows.deep_view(), open@, by.line(), close@),
{
    if rows.is_empty() {
        let text: String = String::new();
        proof {
            assert(text@ =~= Seq::empty());
        }
        text
    } else {
        let mut text: String = open.to_owned();
        text.append(write_lines(rows, by).as_str());
        text.append(close);
        text
    }
}

/// A context as Markdown.
pub fn render_markdown(bundle: &ContextBundle) -> (text: String)
    ensures
        text@ == markdown(bundle@),
{
    let mut output: String = write_section(
        &bundle.claims,
        "<active-claims>\n",
        &ActiveClaimLine {  },
        "</active-claims>\n\n",
    );
    output.append(
        write_section(
            &bundle.pending_claims,
            "<pending-claims>\n",
            &PendingClaimLine {  },
            "</pending-claims>\n\n",
        ).as_str(),
    );
    output.append(write_lines(&bundle.continuity_views, &ViewBlock {  }).as_str());
    output.append(
        write_section(
            &bundle.observations,
            "<observations>\n",
            &ObservationLine {  },
            "</observations>\n\n",
        ).as_str(),
    );
    output.append(
        write_section(
            &bundle.recent_events,
            "<recent-events>\n",
            &RecentEventLine {  },
            "</recent-events>\n\n",
        ).as_str(),
    );
    output.append(
        write_section(
            &bundle.recalled_evidence,
            "<recalled-evidence>\n",
            &EvidenceLine {  },
            "</recalled-evidence>\n\n",
        ).as_str(),
    );
    let mut footer: String = "<!-- estimated-memory-tokens: ".to_owned();
    footer.append(number_text(bundle.diagnostics.estimated_tokens as i128).as_str());
    footer.append(" -->\n");
    output.append(footer.as_str());
    output
}

/// The class of an error: its code, whether the request can be retried as it is, whether its
/// idempotency key can be used again, and what to do next.
pub type ErrorClassModel = (Text, bool, bool, Option<Text>);

/// The class of the error with a given message.
pub open spec fn error_class(message: Text) -> ErrorClassModel {
    if occurs(message, "idempotency conflict"@) || occurs(message, "already used for"@) {
        (
            "idempotency_conflict"@,
            false,
            false,
            Some("use a new key or retry the identical request"@),
        )
    } else if occurs(message, "budget too small"@) {
        (
            "budget_exceeded"@,
            false,
            true,
            Some("increase the token budget and retry with the same key"@),
        )
    } else if occurs(message, " is stale"@) {
        ("stale_observation_run"@, false, false, Some("request a new observation plan"@))
    } else if occurs(message, "privacy-purged"@) {
        (
            "privacy_purged"@,
            false,
            false,
            Some("use a new idempotency key without restoring purged data"@),
        )
    } else if occurs(message, "does not exist"@) {
        ("not_found"@, false, false, None)
    } else if occurs(message, "not visible"@) || occurs(message, "does not belong to scope"@) {
        (
            "scope_violation"@,
            false,
            true,
            Some("inspect the scope tree and target scope"@),
        )
    } else if occurs(message, "FTS"@) || occurs(message, "SQL logic error"@) {
        (
            "invalid_search_query"@,
            false,
            true,
            Some("use literal search or correct --fts-query syntax"@),
        )
    } else if occurs(message, "ObserverResult"@) || occurs(message, "source event"@) || occurs(
        message,
        "must be"@,
    ) || occurs(message, "cannot be empty"@) || occurs(message, "parsing"@) {
        (
            "invalid_input"@,
            false,
            true,
            Some("correct the input and retry with the same key"@),
        )
    } else {
        ("kernel_error"@, false, false, None)
    }
}

/// Finds the class of an error by its message.
pub fn classify_error(message: &str) -> (class: (&'static str, bool, bool, Option<&'static str>))
    ensures
        (class.0@, class.1, class.2, class.3.deep_view()) == error_class(message@),
{
    if contains_text(message, "idempotency conflict") || contains_text(message, "already used for") {
        (
            "idempotency_conflict",
            false,
            false,
            Some("use a new key or retry the identical request"),
        )
    } else if contains_text(message, "budget too small") {
        (
            "budget_exceeded",
            false,
            true,
            Some("increase the token budget and retry with the same key"),
        )
    } else if contains_text(message, " is stale") {
        ("stale_observation_run", false, false, Some("request a new observation plan"))
    } else if contains_text(message, "privacy-purged") {
        (
            "privacy_purged",
            false,
            false,
            Some("use a new idempotency key without restoring purged data"),
        )
    } else if contains_text(message, "does not exist") {
        ("not_found", false, false, None)
    } else if contains_text(message, "not visible") || contains_text(
        message,
        "does not belong to scope",
    ) {
        ("scope_violation", false, true, Some("inspect the scope tree and target scope"))
    } else if contains_text(message, "FTS") || contains_text(message, "SQL logic error") {
        (
            "invalid_search_query",
            false,
            true,
            Some("use literal search or correct --fts-query syntax"),
        )
    } else if contains_text(message, "ObserverResult") || contains_text(message, "source event")
        || contains_text(message, "must be") || contains_text(message, "cannot be empty")
        || contains_text(message, "parsing") {
        (
            "invalid_input",
            false,
            true,
            Some("correct the input and retry with the same key"),
        )
    } else {
        ("kernel_error", false, false, None)
    }
}

} // verus!
