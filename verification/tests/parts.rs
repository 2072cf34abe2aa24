use omk::column::{row_claim, row_event, row_observation, row_run, row_scope, row_slot, row_view};
use omk::column::{event_from_parts, parse_json_column, ClaimColumns, EventColumns};
use omk::digest::{hash_json, operation_request_hash};
use omk::event::check_event_given;
use omk::json::{parse_json_or_string, searchable_json};
use omk::kind::Labelled;
use omk::observer::render_continuation;
use omk::order::{key_before, OrderKey};
use omk::report::{classify_error, render_markdown};
use omk::row::RunRow;
use omk::stamp::draw_stamp;
use omk::store::check_schema;
use omk::text::{
    comes_before, contains_text, estimate_tokens, is_blank, join_text, literal_fts_query, number_text,
    show_optional, trim_text,
};
use omk::{
    enum_text, parse_enum, AmbiguityDraft, Claim, ClaimAuthority, ClaimCardinality, ClaimKind,
    ClaimModality, ClaimStatus, ContextBundle, ContextDiagnostics, ContinuationDraft, EventKind,
    JsonValue, KernelError, KernelErrorKind, MemoryEvent, MemoryView, NewEvent, Observation,
    ObservationKind, Real, RunStatus, ScopeKind, Sensitivity, SourceIntegrity, ViewKind,
};

fn json(raw: &str) -> JsonValue {
    JsonValue::parse(raw).unwrap()
}

fn score(number: f64) -> Real {
    Real::from_bits(number.to_bits())
}

fn claim(id: &str, status: ClaimStatus) -> Claim {
    Claim {
        id: id.to_owned(),
        origin_run_id: None,
        scope_id: "user".to_owned(),
        kind: ClaimKind::OpenLoop,
        subject: "launch".to_owned(),
        predicate: "asset".to_owned(),
        cardinality: ClaimCardinality::Single,
        value: JsonValue::string("ETH"),
        value_hash: hash_json(&JsonValue::string("ETH")),
        modality: ClaimModality::Proposal,
        status,
        authority: ClaimAuthority::ExplicitUser,
        confidence: score(1.0),
        supersedes_id: None,
        created_at: "t".to_owned(),
        updated_at: "t".to_owned(),
    }
}

fn event(sequence: i64, content: &str) -> MemoryEvent {
    MemoryEvent {
        id: format!("e{sequence}"),
        stream_id: "stream".to_owned(),
        sequence,
        scope_id: "user".to_owned(),
        kind: EventKind::ToolCall,
        actor_id: None,
        occurred_at: "t".to_owned(),
        recorded_at: "t".to_owned(),
        content: json(content),
        content_hash: hash_json(&json(content)),
        token_count: 5,
        sensitivity: Sensitivity::Normal,
        metadata: json("{}"),
    }
}

#[test]
fn errors_carry_kind_and_message() {
    let made = [
        (KernelError::idempotency_conflict("m"), KernelErrorKind::IdempotencyConflict),
        (KernelError::budget_exceeded("m"), KernelErrorKind::BudgetExceeded),
        (KernelError::stale_view("m"), KernelErrorKind::StaleView),
        (KernelError::stale_observation_run("m"), KernelErrorKind::StaleObservationRun),
        (KernelError::privacy_purged("m"), KernelErrorKind::PrivacyPurged),
        (KernelError::not_found("m"), KernelErrorKind::NotFound),
        (KernelError::scope_violation("m"), KernelErrorKind::ScopeViolation),
        (KernelError::invalid_search_query("m"), KernelErrorKind::InvalidSearchQuery),
        (KernelError::missing_input("m"), KernelErrorKind::MissingInput),
        (KernelError::invalid_input("m"), KernelErrorKind::InvalidInput),
    ];
    for (error, kind) in made {
        assert_eq!(error.kind(), kind);
        assert_eq!(error.message(), "m");
    }
    let error = KernelError::new(KernelErrorKind::NotFound, "gone");
    assert_eq!((error.kind(), error.message()), (KernelErrorKind::NotFound, "gone"));
    assert_eq!(error.cause(), None);
    let error = error.because("purged".to_owned());
    assert_eq!((error.message(), error.cause()), ("gone", Some("purged")));
}

#[test]
fn texts_are_trimmed_searched_and_ordered() {
    assert_eq!(trim_text(" \u{3000}\tlaunch asset\u{85}\n"), "launch asset");
    assert_eq!(trim_text(" \n"), "");
    assert!(is_blank("\u{2009} "));
    assert!(!is_blank(" x "));
    assert!(contains_text("abcabd", "abd"));
    assert!(contains_text("abc", ""));
    assert!(!contains_text("ab", "abc"));
    assert!(comes_before("2024-01-01", "2024-01-02"));
    assert!(comes_before("a", "aa"));
    assert!(!comes_before("b", "a"));
    assert_eq!(number_text(-9_223_372_036_854_775_808), "-9223372036854775808");
    assert_eq!(number_text(1020), "1020");
    assert_eq!(join_text(&vec!["a".to_owned(), "b".to_owned()], ", "), "a, b");
    assert_eq!(show_optional(&Some("a\"b\n".to_owned())), "Some(\"a\\\"b\\n\")");
    assert_eq!(show_optional(&None), "None");
}

#[test]
fn token_estimates_round_up() {
    assert_eq!(estimate_tokens(""), 1);
    assert_eq!(estimate_tokens("abcd"), 1);
    assert_eq!(estimate_tokens("abcde"), 2);
    assert_eq!(estimate_tokens(&"ä".repeat(401)), 101);
}

#[test]
fn literal_queries_are_quoted() {
    assert_eq!(literal_fts_query("settlement ETH-only"), "\"settlement ETH-only\"");
    assert_eq!(literal_fts_query("say \"x\""), "\"say \"\"x\"\"\"");
    assert_ne!(literal_fts_query("a\"b"), literal_fts_query("a\"\"b"));
}

#[test]
fn json_values_are_compact_and_read_back() {
    assert_eq!(json(" { \"b\" : [1, 2.50], \"a\" : null } ").text(), "{\"a\":null,\"b\":[1,2.5]}");
    assert!(JsonValue::parse("{oops").is_none());
    assert!(json("{}").is_object());
    assert!(!json("[{}]").is_object());
    assert_eq!(JsonValue::string("a\"b\n\u{1}").text(), "\"a\\\"b\\n\\u0001\"");
    assert_eq!(
        JsonValue::string("\\/\u{8}\t\n\u{c}\r\u{1f}\u{7f}é").text(),
        "\"\\\\/\\b\\t\\n\\f\\r\\u001f\u{7f}é\""
    );
    assert_eq!(searchable_json(&JsonValue::string("a\"b")), "a\"b");
    assert_eq!(searchable_json(&json("[1, 2]")), "[1,2]");
    assert_eq!(parse_json_or_string("12"), json("12"));
    assert_eq!(parse_json_or_string("plain text"), JsonValue::string("plain text"));
    assert!(json("0.0").same_value(&json("-0.0")));
    assert!(!json("1").same_value(&json("2")));
    assert_eq!(json("{\"a\":\"x\",\"b\":1}").text_field("a").as_deref(), Some("x"));
    assert_eq!(json("{\"a\":\"x\",\"b\":1}").text_field("b"), None);
    assert_eq!(json("[]").text_field("a"), None);
}

#[test]
fn hashes_are_sha256_in_hexadecimal() {
    assert_eq!(
        hash_json(&JsonValue::string("abc")),
        "6cc43f858fbb763301637b5af970e2a46b46f461f27e5a0f41e009c59b827b25"
    );
    assert_eq!(
        operation_request_hash(
            "scope.create",
            "{\"id\":\"user\",\"kind\":\"user\",\"name\":null,\"parentId\":null}"
        ),
        "d374cef75d93594cd3d92f65adebf9ae7ba76ea1bb9d0e75240823b8cf63d862"
    );
}

#[test]
fn stamps_hold_fresh_identifiers_and_a_timestamp() {
    let stamp = draw_stamp(3);
    assert_eq!(stamp.ids.len(), 3);
    assert!(stamp.ids.iter().all(|id| id.len() == 36));
    assert_ne!(stamp.ids[0], stamp.ids[1]);
    assert!(chrono::DateTime::parse_from_rfc3339(&stamp.at).is_ok());
}

#[test]
fn words_keep_their_texts() {
    assert_eq!(enum_text(&Sensitivity::DoNotStore), "do-not-store");
    assert_eq!(enum_text(&ClaimCardinality::SetValued), "set");
    assert_eq!(enum_text(&ClaimKind::EntityAlias), "entity-alias");
    assert_eq!(parse_enum::<EventKind>("memory-command").unwrap(), EventKind::MemoryCommand);
    assert_eq!(
        parse_enum::<ScopeKind>("galaxy").unwrap_err().message(),
        "unknown variant `galaxy`"
    );
    for word in [
        ClaimStatus::Pending,
        ClaimStatus::Active,
        ClaimStatus::Disputed,
        ClaimStatus::Superseded,
        ClaimStatus::Rejected,
        ClaimStatus::Expired,
    ] {
        assert_eq!(ClaimStatus::from_label(word.label_text()), Some(word));
    }
    assert_eq!(ClaimCardinality::default(), ClaimCardinality::Single);
}

#[test]
fn scores_lie_between_zero_and_one() {
    for number in [0.0, -0.0, 0.5, 1.0] {
        assert!(score(number).is_score());
    }
    for number in [1.0000001, -0.1, f64::NAN, f64::INFINITY, f64::NEG_INFINITY] {
        assert!(!score(number).is_score());
    }
    let mut numbers = vec![0.25, -0.0, 1.0, 0.0, -3.5, 0.75];
    numbers.sort_by_key(|number| score(*number).descending_key());
    let mut expected = numbers.clone();
    expected.sort_by(|left, right| right.total_cmp(left));
    assert_eq!(
        numbers.iter().map(|number| number.to_bits()).collect::<Vec<_>>(),
        expected.iter().map(|number| number.to_bits()).collect::<Vec<_>>()
    );
}

#[test]
fn keys_order_by_number_texts_and_number() {
    let key = |major: i128, first: &str, second: &str, minor: i64| OrderKey {
        major,
        first: first.to_owned(),
        second: second.to_owned(),
        minor,
    };
    assert!(key_before(&key(0, "z", "z", 9), &key(1, "a", "a", 0)));
    assert!(key_before(&key(0, "a", "z", 9), &key(0, "b", "a", 0)));
    assert!(key_before(&key(0, "a", "a", 9), &key(0, "a", "b", 0)));
    assert!(key_before(&key(0, "a", "a", 1), &key(0, "a", "a", 2)));
    assert!(!key_before(&key(0, "a", "a", 1), &key(0, "a", "a", 1)));
}

#[test]
fn continuations_are_written_indented() {
    let draft = ContinuationDraft {
        current_task: Some("Ship".to_owned()),
        completed: vec!["a".to_owned(), "b".to_owned()],
        ..ContinuationDraft::default()
    };
    let text = render_continuation(&draft);
    assert_eq!(
        text,
        "{\n  \"currentTask\": \"Ship\",\n  \"completed\": [\n    \"a\",\n    \"b\"\n  ],\n  \"blockers\": [],\n  \"nextActions\": [],\n  \"unresolvedQuestions\": []\n}"
    );
    assert_eq!(
        serde_json::to_string_pretty(&serde_json::from_str::<serde_json::Value>(&text).unwrap())
            .unwrap()
            .len(),
        text.len()
    );
}

#[test]
fn contexts_are_rendered_as_markdown() {
    let bundle = ContextBundle {
        claims: vec![claim("c1", ClaimStatus::Active)],
        pending_claims: vec![claim("c2", ClaimStatus::Disputed)],
        continuation: None,
        continuity_views: vec![MemoryView {
            id: "v1".to_owned(),
            scope_id: "user".to_owned(),
            stream_id: "stream".to_owned(),
            kind: ViewKind::Continuity,
            generation: 1,
            content: "so far".to_owned(),
            source_from_sequence: 1,
            source_through_sequence: 1,
            previous_view_id: None,
            model: None,
            prompt_version: None,
            token_count: 2,
            created_at: "t".to_owned(),
        }],
        observations: vec![Observation {
            id: "o1".to_owned(),
            run_id: "r1".to_owned(),
            scope_id: "user".to_owned(),
            kind: ObservationKind::Decision,
            content: "ETH it is".to_owned(),
            importance: score(1.0),
            confidence: score(1.0),
            event_time_from: None,
            event_time_to: None,
            source_start_sequence: 1,
            source_end_sequence: 1,
            observer_model: "fake".to_owned(),
            prompt_version: "v1".to_owned(),
            created_at: "t".to_owned(),
        }],
        recent_events: vec![event(7, "{\"a\":1}")],
        recalled_evidence: vec![event(3, "\"old\"")],
        diagnostics: ContextDiagnostics { estimated_tokens: 42, omitted_items: vec![] },
    };
    assert_eq!(
        render_markdown(&bundle),
        "<active-claims>\n- [open-loop] launch asset \"ETH\" (claim: c1)\n</active-claims>\n\n\
         <pending-claims>\n- [open-loop; disputed] launch asset \"ETH\" (claim: c2)\n</pending-claims>\n\n\
         <memory-view kind=\"continuity\" id=\"v1\">\nso far\n</memory-view>\n\n\
         <observations>\n- ETH it is (observation: o1)\n</observations>\n\n\
         <recent-events>\n- #7 [tool-call] {\"a\":1}\n</recent-events>\n\n\
         <recalled-evidence>\n- stream #3: \"old\"\n</recalled-evidence>\n\n\
         <!-- estimated-memory-tokens: 42 -->\n"
    );
    let nothing = ContextBundle {
        claims: vec![],
        pending_claims: vec![],
        continuation: None,
        continuity_views: vec![],
        observations: vec![],
        recent_events: vec![],
        recalled_evidence: vec![],
        diagnostics: ContextDiagnostics { estimated_tokens: 0, omitted_items: vec![] },
    };
    assert_eq!(render_markdown(&nothing), "<!-- estimated-memory-tokens: 0 -->\n");
}

#[test]
fn errors_are_classified_by_their_messages() {
    let code = |message: &str| classify_error(message);
    assert_eq!(
        code("idempotency key was already used for scope.create, not event.append"),
        (
            "idempotency_conflict",
            false,
            false,
            Some("use a new key or retry the identical request")
        )
    );
    assert_eq!(
        code("context budget too small: minimumRequiredTokens=12 for active claims"),
        (
            "budget_exceeded",
            false,
            true,
            Some("increase the token budget and retry with the same key")
        )
    );
    assert_eq!(code("observation run r is stale: expected cursor 0, found 1").0, "stale_observation_run");
    assert_eq!(
        code("the prior result for this idempotency key was privacy-purged").0,
        "privacy_purged"
    );
    assert_eq!(code("scope x does not exist"), ("not_found", false, false, None));
    assert_eq!(code("stream s does not belong to scope x").0, "scope_violation");
    assert_eq!(code("running SQLite FTS query \"x\"").0, "invalid_search_query");
    assert_eq!(code("max tokens must be positive").0, "invalid_input");
    assert_eq!(code("disk full"), ("kernel_error", false, false, None));
}

#[test]
fn databases_are_adopted_by_version() {
    assert!(check_schema(0, false).unwrap());
    assert!(!check_schema(5, true).unwrap());
    assert_eq!(
        check_schema(3, true).unwrap_err().message(),
        "database schema version 3 is incompatible with OMK schema version 5; start with a fresh database"
    );
}

fn event_columns() -> EventColumns {
    EventColumns {
        id: "e".to_owned(),
        stream_id: "stream".to_owned(),
        sequence: 1,
        scope_id: "user".to_owned(),
        kind: "tool-call".to_owned(),
        actor_id: None,
        occurred_at: "t".to_owned(),
        recorded_at: "t".to_owned(),
        content_json: " \"abc\" ".to_owned(),
        content_hash: hash_json(&JsonValue::string("abc")),
        token_count: 2,
        sensitivity: "secret".to_owned(),
        metadata_json: "{}".to_owned(),
    }
}

#[test]
fn stored_events_are_checked_when_they_are_read() {
    let event = row_event(event_columns()).unwrap();
    assert_eq!(event.content, JsonValue::string("abc"));
    assert_eq!(event.kind, EventKind::ToolCall);
    assert_eq!(event.sensitivity, Sensitivity::Secret);
    let tampered = EventColumns { content_json: "\"abd\"".to_owned(), ..event_columns() };
    assert_eq!(row_event(tampered).unwrap_err().message(), "event content hash mismatch");
    let broken = EventColumns { content_json: "{".to_owned(), ..event_columns() };
    assert_eq!(row_event(broken).unwrap_err().message(), "parsing a stored JSON column");
    let unknown = EventColumns { sensitivity: "loud".to_owned(), ..event_columns() };
    assert_eq!(row_event(unknown).unwrap_err().message(), "unknown variant `loud`");
    let kindless = EventColumns { kind: "x".to_owned(), ..event_columns() };
    assert_eq!(row_event(kindless).unwrap_err().message(), "unknown variant `x`");
    let noted = EventColumns { metadata_json: "x".to_owned(), ..event_columns() };
    assert_eq!(row_event(noted).unwrap_err().message(), "parsing a stored JSON column");
}

fn claim_columns() -> ClaimColumns {
    ClaimColumns {
        id: "c".to_owned(),
        origin_run_id: None,
        scope_id: "user".to_owned(),
        kind: "fact".to_owned(),
        subject: "s".to_owned(),
        predicate: "p".to_owned(),
        cardinality: "set".to_owned(),
        value_json: "[ 1 ]".to_owned(),
        value_hash: "h".to_owned(),
        modality: "inference".to_owned(),
        status: "pending".to_owned(),
        authority: "model-inference".to_owned(),
        confidence: score(0.5),
        supersedes_id: Some("b".to_owned()),
        created_at: "t".to_owned(),
        updated_at: "u".to_owned(),
    }
}

#[test]
fn stored_records_are_read_from_columns() {
    let claim = row_claim(claim_columns()).unwrap();
    assert_eq!(claim.value.text(), "[1]");
    assert_eq!(claim.cardinality, ClaimCardinality::SetValued);
    assert_eq!(claim.authority, ClaimAuthority::ModelInference);
    for broken in [
        ClaimColumns { kind: "x".to_owned(), ..claim_columns() },
        ClaimColumns { cardinality: "x".to_owned(), ..claim_columns() },
        ClaimColumns { value_json: "x".to_owned(), ..claim_columns() },
        ClaimColumns { modality: "x".to_owned(), ..claim_columns() },
        ClaimColumns { status: "x".to_owned(), ..claim_columns() },
        ClaimColumns { authority: "x".to_owned(), ..claim_columns() },
    ] {
        assert!(row_claim(broken).is_err());
    }
    assert_eq!(parse_json_column("[1, 2]").unwrap().text(), "[1,2]");
    let scope = row_scope("u".to_owned(), "user", None, None, "t".to_owned()).unwrap();
    assert_eq!(scope.kind, ScopeKind::User);
    assert!(row_scope("u".to_owned(), "galaxy", None, None, "t".to_owned()).is_err());
    let slot = row_slot("u".to_owned(), "goal", "s".to_owned(), "p".to_owned(), "single").unwrap();
    assert_eq!(slot.kind, ClaimKind::Goal);
    assert!(row_slot("u".to_owned(), "goal", "s".to_owned(), "p".to_owned(), "many").is_err());
    let run = RunRow {
        id: "r".to_owned(),
        scope_id: "user".to_owned(),
        stream_id: "stream".to_owned(),
        cursor_at_plan: 0,
        from_sequence: 1,
        to_sequence: 1,
        status: RunStatus::Pending,
        source_integrity: SourceIntegrity::Intact,
        observer_model: "fake".to_owned(),
        prompt_version: "v1".to_owned(),
        ambiguities: vec![AmbiguityDraft {
            description: "which?".to_owned(),
            source_event_ids: vec!["e".to_owned()],
        }],
        error: None,
        created_at: "t".to_owned(),
        updated_at: "t".to_owned(),
    };
    let read = row_run(run.clone(), "stale", "privacy-purged").unwrap();
    assert_eq!(read.status, RunStatus::Stale);
    assert_eq!(read.source_integrity, SourceIntegrity::PrivacyPurged);
    assert_eq!(read.ambiguities, run.ambiguities);
    assert!(row_run(run.clone(), "running", "intact").is_err());
    assert!(row_run(run, "stale", "torn").is_err());
    let observation = Observation {
        id: "o".to_owned(),
        run_id: "r".to_owned(),
        scope_id: "user".to_owned(),
        kind: ObservationKind::Event,
        content: "x".to_owned(),
        importance: score(0.5),
        confidence: score(0.5),
        event_time_from: None,
        event_time_to: None,
        source_start_sequence: 1,
        source_end_sequence: 1,
        observer_model: "fake".to_owned(),
        prompt_version: "v1".to_owned(),
        created_at: "t".to_owned(),
    };
    assert_eq!(
        row_observation(observation.clone(), "open-loop").unwrap().kind,
        ObservationKind::OpenLoop
    );
    assert!(row_observation(observation, "x").is_err());
    let view = MemoryView {
        id: "v".to_owned(),
        scope_id: "user".to_owned(),
        stream_id: "stream".to_owned(),
        kind: ViewKind::Continuity,
        generation: 1,
        content: "x".to_owned(),
        source_from_sequence: 1,
        source_through_sequence: 1,
        previous_view_id: None,
        model: None,
        prompt_version: None,
        token_count: 1,
        created_at: "t".to_owned(),
    };
    assert_eq!(row_view(view.clone(), "continuation").unwrap().kind, ViewKind::Continuation);
    assert!(row_view(view, "x").is_err());
}

#[test]
fn events_are_built_of_given_parts() {
    let columns = EventColumns { content_hash: "h".to_owned(), ..event_columns() };
    let event = event_from_parts(columns, json("1"), "h", Some(json("{}"))).unwrap();
    assert_eq!((event.content.text(), event.content_hash.as_str()), ("1", "h"));
    let columns = EventColumns { content_hash: "h".to_owned(), ..event_columns() };
    assert_eq!(
        event_from_parts(columns, json("1"), "g", Some(json("{}"))).unwrap_err().message(),
        "event content hash mismatch"
    );
    let columns = EventColumns { content_hash: "h".to_owned(), ..event_columns() };
    assert_eq!(
        event_from_parts(columns, json("1"), "h", None).unwrap_err().message(),
        "parsing a stored JSON column"
    );
}

#[test]
fn events_are_checked_with_their_dates() {
    let event = NewEvent {
        scope_id: "user".to_owned(),
        stream_id: "stream".to_owned(),
        kind: EventKind::ToolResult,
        actor_id: None,
        occurred_at: None,
        content: json("1"),
        token_count: None,
        sensitivity: Sensitivity::Normal,
        metadata: json("{}"),
        idempotency_key: "k".to_owned(),
    };
    assert!(check_event_given(&event, None).is_ok());
    let undated = check_event_given(&event, Some("too short".to_owned())).unwrap_err();
    assert_eq!(undated.message(), "occurred-at must be an RFC 3339 timestamp");
    assert_eq!(undated.cause(), Some("too short"));
}
