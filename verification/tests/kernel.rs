use omk::recall::SearchRequest;
use omk::store::check_schema;
use omk::{
    ClaimDraft, ClaimCardinality, ClaimKind, ClaimModality, ClaimStatus, ContextBundle,
    ContinuationAction, ContinuationDraft, CreateView, EventKind, JsonValue, KernelError, MemoryEvent,
    MemoryStore, NewEvent, ObservationDraft, ObservationKind, ObservationPlan, ObservationPlanOutcome,
    ObserverResult, ReadAccess, Real, ScopeKind, Score, SearchHit, Sensitivity, SourceIntegrity, ViewKind,
    SCHEMA_VERSION,
};
use rusqlite::Connection;

fn json(raw: &str) -> JsonValue {
    JsonValue::parse(raw).unwrap()
}

fn score(number: f64) -> Score {
    Score {
        number: Real::from_bits(number.to_bits()),
        json: serde_json::to_string(&number).unwrap(),
    }
}

fn access(scope: &str) -> ReadAccess {
    ReadAccess::agent(scope)
}

fn ranked(store: &MemoryStore, expression: &str) -> Vec<SearchHit> {
    let connection = Connection::open_in_memory().unwrap();
    connection
        .execute_batch(
            "CREATE VIRTUAL TABLE memory_fts USING fts5(
                record_type UNINDEXED, record_id UNINDEXED, scope_id UNINDEXED, text
            )",
        )
        .unwrap();
    for row in &store.index {
        connection
            .execute(
                "INSERT INTO memory_fts(record_type,record_id,scope_id,text) VALUES (?1,?2,?3,?4)",
                [&row.record_type, &row.record_id, &row.scope_id, &row.text],
            )
            .unwrap();
    }
    let mut statement = connection
        .prepare(
            "SELECT record_type,record_id,scope_id,text,rank FROM memory_fts
             WHERE memory_fts MATCH ?1 ORDER BY rank",
        )
        .unwrap();
    let rows = statement
        .query_map([expression], |row| {
            Ok(SearchHit {
                record_type: row.get(0)?,
                id: row.get(1)?,
                scope_id: row.get(2)?,
                text: row.get(3)?,
                rank: Real::from_bits(row.get::<_, f64>(4)?.to_bits()),
            })
        })
        .unwrap();
    rows.collect::<rusqlite::Result<Vec<_>>>().unwrap()
}

fn search(store: &MemoryStore, scope: &str, query: &str, limit: usize) -> Vec<SearchHit> {
    let request: SearchRequest = store.search_full_text(scope, query, limit).unwrap();
    request.select(&ranked(store, &request.query))
}

fn compose(
    store: &MemoryStore,
    scope: &str,
    stream: &str,
    max_tokens: i64,
    recent_raw_tokens: i64,
    query: Option<&str>,
) -> Result<ContextBundle, KernelError> {
    let hits = match query {
        Some(query) => ranked(store, &omk::text::literal_fts_query(query)),
        None => vec![],
    };
    store.compose_context(scope, stream, max_tokens, recent_raw_tokens, &hits)
}

struct Fixture {
    store: MemoryStore,
}

impl Fixture {
    fn new() -> Self {
        Self { store: MemoryStore::new() }
    }

    fn scope(&mut self, id: &str, kind: ScopeKind, parent: Option<&str>) {
        self.store
            .create_scope(id, kind, parent, None, &format!("scope-{id}"))
            .unwrap();
    }

    fn event(
        &mut self,
        scope: &str,
        stream: &str,
        content: &str,
        sensitivity: Sensitivity,
        key: &str,
    ) -> MemoryEvent {
        self.store
            .append_event(NewEvent {
                scope_id: scope.to_owned(),
                stream_id: stream.to_owned(),
                kind: EventKind::UserMessage,
                actor_id: Some("user".to_owned()),
                occurred_at: None,
                content: JsonValue::string(content),
                token_count: Some(10),
                sensitivity,
                metadata: json("{}"),
                idempotency_key: key.to_owned(),
            })
            .unwrap()
            .data
    }

    fn plan(&mut self, scope: &str, stream: &str, key: &str) -> ObservationPlan {
        self.store
            .plan_observation(scope, stream, 100, "fake", "v1", key)
            .unwrap()
            .data
            .into_plan()
            .unwrap()
    }
}

fn observer_result(event_id: &str, value: &str) -> ObserverResult {
    ObserverResult {
        observations: vec![ObservationDraft {
            kind: ObservationKind::Decision,
            content: format!("Launch asset is {value}"),
            importance: score(0.9),
            confidence: score(1.0),
            source_event_ids: vec![event_id.to_owned()],
            event_time_from: None,
            event_time_to: None,
        }],
        claims: vec![ClaimDraft {
            kind: ClaimKind::Decision,
            subject: "launch".to_owned(),
            predicate: "asset".to_owned(),
            cardinality: ClaimCardinality::Single,
            value: JsonValue::string(value),
            modality: ClaimModality::ExplicitAssertion,
            confidence: score(1.0),
            source_event_ids: vec![event_id.to_owned()],
        }],
        continuation: ContinuationDraft {
            current_task: Some("Prepare launch".to_owned()),
            next_actions: vec!["Implement settlement".to_owned()],
            ..ContinuationDraft::default()
        },
        ambiguities: vec![],
        empty_reason: None,
    }
}

fn view(stream: &str, content: &str, expected: Option<&str>, key: &str) -> CreateView {
    CreateView {
        scope_id: "user".to_owned(),
        stream_id: stream.to_owned(),
        kind: ViewKind::Continuity,
        content: content.to_owned(),
        source_from_sequence: 1,
        source_through_sequence: 1,
        source_observation_ids: vec![],
        model: Some("fake".to_owned()),
        prompt_version: Some("reflector.v1".to_owned()),
        token_count: None,
        expected_previous_view_id: expected.map(str::to_owned),
        idempotency_key: key.to_owned(),
    }
}

#[test]
fn append_is_idempotent_and_privacy_boundaries_are_safe() {
    let mut fixture = Fixture::new();
    fixture.scope("user", ScopeKind::User, None);

    let first = fixture.event("user", "thread", "hello", Sensitivity::Normal, "event-1");
    let duplicate = fixture.event("user", "thread", "hello", Sensitivity::Normal, "event-1");
    assert_eq!(first.id, duplicate.id);
    assert_eq!(first.sequence, 1);
    assert_eq!(duplicate.content, JsonValue::string("hello"));
    let conflict = fixture.store.append_event(NewEvent {
        scope_id: "user".to_owned(),
        stream_id: "thread".to_owned(),
        kind: EventKind::UserMessage,
        actor_id: Some("user".to_owned()),
        occurred_at: None,
        content: JsonValue::string("different"),
        token_count: Some(10),
        sensitivity: Sensitivity::Normal,
        metadata: json("{}"),
        idempotency_key: "event-1".to_owned(),
    });
    assert!(conflict.unwrap_err().message().contains("idempotency conflict"));

    let omitted = fixture.event(
        "user",
        "thread",
        "must never persist",
        Sensitivity::DoNotStore,
        "event-2",
    );
    assert_eq!(omitted.sequence, 2);
    assert_eq!(omitted.content, json(r#"{"omitted": true, "reason": "do-not-store"}"#));

    let secret = fixture.event("user", "thread", "secret-value", Sensitivity::Secret, "event-3");
    let plan = fixture.plan("user", "thread", "plan-1");
    let planned_secret = plan.events.iter().find(|event| event.id == secret.id).unwrap();
    assert_eq!(planned_secret.content, json(r#"{"redacted": true, "reason": "secret"}"#));
    assert_eq!(
        fixture.store.get_event(&secret.id).unwrap().content,
        JsonValue::string("secret-value")
    );
}

#[test]
fn observation_commit_is_atomic_idempotent_and_source_backed() {
    let mut fixture = Fixture::new();
    fixture.scope("user", ScopeKind::User, None);
    let event = fixture.event(
        "user",
        "thread",
        "Use ETH as the launch asset",
        Sensitivity::Normal,
        "event-1",
    );
    let plan = fixture.plan("user", "thread", "plan-1");
    let commit = fixture
        .store
        .commit_observation(&plan.run_id, observer_result(&event.id, "ETH"), "commit-1")
        .unwrap();
    let retry = fixture
        .store
        .commit_observation(&plan.run_id, observer_result(&event.id, "ETH"), "commit-1")
        .unwrap();
    assert_eq!(commit.observations[0].id, retry.observations[0].id);
    assert_eq!(commit.claims[0].status, ClaimStatus::Pending);
    assert!(matches!(
        fixture
            .store
            .plan_observation("user", "thread", 100, "fake", "v1", "plan-2")
            .unwrap()
            .data,
        ObservationPlanOutcome::CaughtUp { .. }
    ));

    let summary = fixture.store.reconcile("user", "reconcile-1").unwrap();
    assert_eq!(summary.activated, vec![commit.claims[0].id.clone()]);
    let explanation = fixture
        .store
        .explain_claim(&access("user"), &commit.claims[0].id)
        .unwrap();
    assert_eq!(explanation.source_events[0].id, event.id);
    assert_eq!(
        fixture
            .store
            .recall_by_observation(&access("user"), &commit.observations[0].id)
            .unwrap()[0]
            .id,
        event.id
    );
}

#[test]
fn empty_observer_acknowledgements_preserve_existing_continuation() {
    let mut fixture = Fixture::new();
    fixture.scope("user", ScopeKind::User, None);
    let first = fixture.event(
        "user",
        "stream",
        "Prepare the release",
        Sensitivity::Normal,
        "event-1",
    );
    let first_plan = fixture.plan("user", "stream", "plan-1");
    let first_commit = fixture
        .store
        .commit_observation(&first_plan.run_id, observer_result(&first.id, "ETH"), "commit-1")
        .unwrap();
    assert_eq!(first_commit.continuation_action, ContinuationAction::Created);

    fixture.event("user", "stream", "Acknowledged.", Sensitivity::Normal, "event-2");
    let second_plan = fixture.plan("user", "stream", "plan-2");
    let empty = ObserverResult {
        observations: vec![],
        claims: vec![],
        continuation: ContinuationDraft::default(),
        ambiguities: vec![],
        empty_reason: Some("Acknowledgement contains no durable memory".to_owned()),
    };
    let second_commit = fixture
        .store
        .commit_observation(&second_plan.run_id, empty, "commit-2")
        .unwrap();
    assert_eq!(second_commit.continuation_action, ContinuationAction::Preserved);
    assert_eq!(second_commit.continuation_view.id, first_commit.continuation_view.id);
    assert_eq!(second_commit.continuation_view.generation, 1);
    assert!(second_commit.continuation_view.content.contains("Prepare launch"));

    let caught_up = fixture
        .store
        .plan_observation("user", "stream", 100, "fake", "v1", "plan-3")
        .unwrap();
    match &caught_up.data {
        ObservationPlanOutcome::CaughtUp { observed_through_sequence, next_action, .. } => {
            assert_eq!(*observed_through_sequence, 2);
            assert!(!next_action.is_empty());
        }
        ObservationPlanOutcome::Ready { .. } => panic!("the stream is caught up"),
    }
}

#[test]
fn invalid_and_stale_observation_commits_never_advance_twice() {
    let mut fixture = Fixture::new();
    fixture.scope("user", ScopeKind::User, None);
    let event = fixture.event("user", "stream", "remember me", Sensitivity::Normal, "event-1");
    let first = fixture.plan("user", "stream", "plan-1");
    let stale = fixture.plan("user", "stream", "plan-2");

    let invalid = observer_result("not-in-run", "ETH");
    assert!(fixture
        .store
        .commit_observation(&first.run_id, invalid, "invalid-commit")
        .is_err());
    fixture
        .store
        .commit_observation(&first.run_id, observer_result(&event.id, "ETH"), "commit-1")
        .unwrap();
    assert!(fixture
        .store
        .commit_observation(&stale.run_id, observer_result(&event.id, "ETH"), "commit-2")
        .is_err());
    assert!(matches!(
        fixture
            .store
            .plan_observation("user", "stream", 100, "fake", "v1", "plan-3")
            .unwrap()
            .data,
        ObservationPlanOutcome::CaughtUp { .. }
    ));
}

#[test]
fn observer_failure_is_recorded_without_advancing_the_cursor() {
    let mut fixture = Fixture::new();
    fixture.scope("user", ScopeKind::User, None);
    let event = fixture.event("user", "stream", "retry me", Sensitivity::Normal, "event-1");
    let failed = fixture.plan("user", "stream", "plan-1");
    fixture
        .store
        .fail_observation(&failed.run_id, "model-timeout", "fail-1")
        .unwrap();
    let retry = fixture.plan("user", "stream", "plan-2");
    assert_eq!(retry.from_sequence, failed.from_sequence);
    fixture
        .store
        .commit_observation(&retry.run_id, observer_result(&event.id, "ETH"), "commit-1")
        .unwrap();
}

#[test]
fn proposals_do_not_replace_state_but_explicit_corrections_do() {
    let mut fixture = Fixture::new();
    fixture.scope("user", ScopeKind::User, None);
    let active = fixture
        .store
        .remember_claim(
            "user",
            ClaimKind::Decision,
            "launch",
            "asset",
            JsonValue::string("ETH"),
            &[],
            "remember-1",
        )
        .unwrap();
    let proposal = fixture
        .store
        .propose_claim(
            "user",
            ClaimKind::Decision,
            "launch",
            "asset",
            json(r#"["ETH", "USDG"]"#),
            &[],
            "proposal-1",
        )
        .unwrap();
    let summary = fixture.store.reconcile("user", "reconcile-1").unwrap();
    assert_eq!(summary.left_pending, vec![proposal.id.clone()]);
    assert_eq!(
        fixture
            .store
            .list_claims("user", false, Some(ClaimStatus::Active))
            .unwrap()[0]
            .value,
        JsonValue::string("ETH")
    );

    let corrected = fixture
        .store
        .correct_claim(&active.id, json(r#"["ETH", "USDG"]"#), &[], "correct-1")
        .unwrap();
    assert_eq!(corrected.status, ClaimStatus::Active);
    assert_eq!(corrected.supersedes_id.as_deref(), Some(active.id.as_str()));
    assert_eq!(
        fixture
            .store
            .list_claims("user", false, Some(ClaimStatus::Superseded))
            .unwrap()[0]
            .id,
        active.id
    );
}

#[test]
fn claim_logical_keys_are_normalized_before_lookup() {
    let mut fixture = Fixture::new();
    fixture.scope("user", ScopeKind::User, None);
    let first = fixture
        .store
        .remember_claim(
            "user",
            ClaimKind::Decision,
            "launch",
            "asset",
            JsonValue::string("ETH"),
            &[],
            "remember-1",
        )
        .unwrap();
    let duplicate = fixture
        .store
        .remember_claim(
            "user",
            ClaimKind::Decision,
            " launch ",
            " asset ",
            JsonValue::string("ETH"),
            &[],
            "remember-2",
        )
        .unwrap();

    assert_eq!(duplicate.id, first.id);
    assert_eq!(
        fixture
            .store
            .list_claims("user", false, Some(ClaimStatus::Active))
            .unwrap()
            .len(),
        1
    );
}

#[test]
fn claim_commands_enforce_lifecycle_transitions() {
    let mut fixture = Fixture::new();
    fixture.scope("user", ScopeKind::User, None);
    let active = fixture
        .store
        .remember_claim(
            "user",
            ClaimKind::Decision,
            "launch",
            "asset",
            JsonValue::string("ETH"),
            &[],
            "remember",
        )
        .unwrap();
    let proposal = fixture
        .store
        .propose_claim(
            "user",
            ClaimKind::Decision,
            "launch",
            "asset",
            JsonValue::string("USDG"),
            &[],
            "proposal",
        )
        .unwrap();

    assert!(fixture
        .store
        .reject_claim(&active.id, "reject-active")
        .unwrap_err()
        .message()
        .contains("pending or disputed"));
    let rejected = fixture
        .store
        .reject_claim(&proposal.id, "reject-proposal")
        .unwrap();
    assert_eq!(rejected.status, ClaimStatus::Rejected);
    assert!(fixture
        .store
        .confirm_claim(&active.id, "confirm-active")
        .unwrap_err()
        .message()
        .contains("pending or disputed"));
    assert!(fixture
        .store
        .confirm_claim(&rejected.id, "confirm-rejected")
        .unwrap_err()
        .message()
        .contains("pending or disputed"));
    assert_eq!(
        fixture.store.forget_claim(&active.id, "forget-active").unwrap().status,
        ClaimStatus::Expired
    );
}

#[test]
fn scope_inheritance_does_not_leak_between_projects() {
    let mut fixture = Fixture::new();
    fixture.scope("user", ScopeKind::User, None);
    fixture.scope("project-a", ScopeKind::Project, Some("user"));
    fixture.scope("project-b", ScopeKind::Project, Some("user"));
    fixture.event("project-a", "stream-a", "A", Sensitivity::Normal, "event-a");
    fixture.event("project-b", "stream-b", "B", Sensitivity::Normal, "event-b");
    let project_claim = fixture
        .store
        .remember_claim(
            "project-a",
            ClaimKind::Constraint,
            "settlement",
            "asset",
            JsonValue::string("ETH"),
            &[],
            "claim-a",
        )
        .unwrap();
    fixture
        .store
        .remember_claim(
            "user",
            ClaimKind::Preference,
            "user",
            "plan-style",
            JsonValue::string("complete"),
            &[],
            "claim-user",
        )
        .unwrap();

    let context = compose(&fixture.store, "project-b", "stream-b", 1_000, 100, None).unwrap();
    assert_eq!(context.claims.len(), 1);
    assert_eq!(context.claims[0].scope_id, "user");
    assert!(fixture
        .store
        .rescope_claim(&project_claim.id, "project-b", "unsafe-rescope")
        .unwrap_err()
        .message()
        .contains("not visible"));
}

#[test]
fn context_deduplicates_observations_and_views_never_destroy_raw_evidence() {
    let mut fixture = Fixture::new();
    fixture.scope("user", ScopeKind::User, None);
    let event = fixture.event("user", "stream", "Use ETH", Sensitivity::Normal, "event-1");
    let plan = fixture.plan("user", "stream", "plan-1");
    let commit = fixture
        .store
        .commit_observation(&plan.run_id, observer_result(&event.id, "ETH"), "commit-1")
        .unwrap();
    let context = compose(&fixture.store, "user", "stream", 1_000, 100, None).unwrap();
    assert!(context.observations.is_empty());
    assert_eq!(context.recent_events[0].id, event.id);

    let first = fixture
        .store
        .create_view(CreateView {
            source_observation_ids: vec![commit.observations[0].id.clone()],
            ..view("stream", "ETH is the launch asset", None, "view-1")
        })
        .unwrap();
    let second = fixture
        .store
        .create_view(CreateView {
            source_observation_ids: vec![commit.observations[0].id.clone()],
            ..view("stream", "Launch remains ETH-only", Some(&first.id), "view-2")
        })
        .unwrap();
    assert_eq!(first.generation, 1);
    assert_eq!(second.generation, 2);
    assert_eq!(second.previous_view_id.as_deref(), Some(first.id.as_str()));
    let third = fixture
        .store
        .create_view(view(
            "stream",
            "No new reflected observations",
            Some(&second.id),
            "view-3",
        ))
        .unwrap();
    assert_eq!(third.previous_view_id.as_deref(), Some(second.id.as_str()));
    assert!(compose(&fixture.store, "user", "stream", 1_000, 0, None)
        .unwrap()
        .observations
        .is_empty());
    assert_eq!(
        fixture.store.recall_event_range("stream", 1, 1).unwrap()[0].id,
        event.id
    );
}

#[test]
fn context_deduplicates_only_exact_source_events() {
    let mut fixture = Fixture::new();
    fixture.scope("user", ScopeKind::User, None);
    fixture.event(
        "user",
        "stream-a",
        "Raw event from stream A",
        Sensitivity::Normal,
        "event-a",
    );
    let event_b = fixture.event(
        "user",
        "stream-b",
        "Decision from stream B",
        Sensitivity::Normal,
        "event-b",
    );
    let plan = fixture.plan("user", "stream-b", "plan-b");
    let result = ObserverResult {
        observations: vec![ObservationDraft {
            kind: ObservationKind::Decision,
            content: "Remember stream B".to_owned(),
            importance: score(1.0),
            confidence: score(1.0),
            source_event_ids: vec![event_b.id],
            event_time_from: None,
            event_time_to: None,
        }],
        claims: vec![],
        continuation: ContinuationDraft::default(),
        ambiguities: vec![],
        empty_reason: None,
    };
    let commit = fixture
        .store
        .commit_observation(&plan.run_id, result, "commit-b")
        .unwrap();

    let context = compose(&fixture.store, "user", "stream-a", 1_000, 100, None).unwrap();
    assert_eq!(context.observations[0].id, commit.observations[0].id);
}

#[test]
fn context_prioritizes_continuation_over_pending_claims() {
    let mut fixture = Fixture::new();
    fixture.scope("user", ScopeKind::User, None);
    fixture.event("user", "stream", "Continue the release", Sensitivity::Normal, "event");
    let plan = fixture.plan("user", "stream", "plan");
    let result = ObserverResult {
        observations: vec![],
        claims: vec![],
        continuation: ContinuationDraft {
            current_task: Some("Ship the release".to_owned()),
            next_actions: vec!["Run final checks".to_owned()],
            ..ContinuationDraft::default()
        },
        ambiguities: vec![],
        empty_reason: None,
    };
    let commit = fixture
        .store
        .commit_observation(&plan.run_id, result, "commit")
        .unwrap();
    fixture
        .store
        .propose_claim(
            "user",
            ClaimKind::Decision,
            "p",
            "q",
            JsonValue::string("v"),
            &[],
            "proposal",
        )
        .unwrap();

    let context = compose(
        &fixture.store,
        "user",
        "stream",
        commit.continuation_view.token_count,
        0,
        None,
    )
    .unwrap();
    assert!(context.pending_claims.is_empty());
    assert_eq!(context.continuity_views.len(), 1);
    assert_eq!(context.continuity_views[0].kind, ViewKind::Continuation);
}

#[test]
fn full_text_search_does_not_index_views() {
    let mut fixture = Fixture::new();
    fixture.scope("user", ScopeKind::User, None);
    let event = fixture.event("user", "stream", "source", Sensitivity::Normal, "event");
    let plan = fixture.plan("user", "stream", "plan");
    let commit = fixture
        .store
        .commit_observation(&plan.run_id, observer_result(&event.id, "ETH"), "commit")
        .unwrap();
    fixture
        .store
        .create_view(CreateView {
            source_observation_ids: vec![commit.observations[0].id.clone()],
            ..view("stream", "view-only-search-marker", None, "view")
        })
        .unwrap();

    assert!(search(&fixture.store, "user", "view-only-search-marker", 10).is_empty());
}

#[test]
fn full_text_search_is_scope_aware() {
    let mut fixture = Fixture::new();
    fixture.scope("user", ScopeKind::User, None);
    fixture.scope("a", ScopeKind::Project, Some("user"));
    fixture.scope("b", ScopeKind::Project, Some("user"));
    fixture.event("a", "a-stream", "quartz launch", Sensitivity::Normal, "a-event");
    fixture.event("b", "b-stream", "ordinary work", Sensitivity::Normal, "b-event");
    assert_eq!(search(&fixture.store, "a", "quartz", 10).len(), 1);
    assert!(search(&fixture.store, "b", "quartz", 10).is_empty());
}

#[test]
fn redacted_secret_evidence_cannot_activate_a_model_claim() {
    let mut fixture = Fixture::new();
    fixture.scope("user", ScopeKind::User, None);
    let event = fixture.event("user", "stream", "api-key-value", Sensitivity::Secret, "event-1");
    let plan = fixture.plan("user", "stream", "plan-1");
    let error = fixture
        .store
        .commit_observation(&plan.run_id, observer_result(&event.id, "invented"), "commit-1")
        .unwrap_err();
    assert!(error.message().contains("cannot source derived memory"));
    assert!(fixture
        .store
        .list_claims("user", false, Some(ClaimStatus::Active))
        .unwrap()
        .is_empty());
}

#[test]
fn privacy_purge_removes_dependents_and_prevents_idempotent_replay() {
    let mut fixture = Fixture::new();
    fixture.scope("user", ScopeKind::User, None);
    let event = fixture.event("user", "stream", "erase this", Sensitivity::Normal, "event-1");
    let plan = fixture.plan("user", "stream", "plan-1");
    let commit = fixture
        .store
        .commit_observation(&plan.run_id, observer_result(&event.id, "ETH"), "commit-1")
        .unwrap();
    fixture
        .store
        .create_view(view("stream", "Derived from erase this", None, "view-1"))
        .unwrap();
    let purge = fixture.store.purge_event(&event.id, "purge-1").unwrap();

    assert!(fixture.store.get_event(&event.id).is_err());
    assert_eq!(purge.data.dependent_view_ids.len(), 2);
    assert_eq!(purge.data.affected_run_ids[0], plan.run_id);
    let invalidated_run = fixture
        .store
        .get_observation_run(&access("user"), &plan.run_id)
        .unwrap();
    assert_eq!(invalidated_run.status, "committed");
    assert_eq!(invalidated_run.source_integrity, SourceIntegrity::PrivacyPurged);
    assert!(invalidated_run.error.is_none());
    assert!(invalidated_run.next_action.is_some());
    assert!(fixture
        .store
        .recall_by_observation(&access("user"), &commit.observations[0].id)
        .is_err());
    assert!(fixture
        .store
        .explain_claim(&access("user"), &commit.claims[0].id)
        .is_err());
    assert!(fixture.store.list_views("user").unwrap().is_empty());
    assert!(fixture
        .store
        .append_event(NewEvent {
            scope_id: "user".to_owned(),
            stream_id: "stream".to_owned(),
            kind: EventKind::UserMessage,
            actor_id: None,
            occurred_at: None,
            content: JsonValue::string("erase this"),
            token_count: Some(2),
            sensitivity: Sensitivity::Normal,
            metadata: json("{}"),
            idempotency_key: "event-1".to_owned(),
        })
        .unwrap_err()
        .message()
        .contains("privacy-purged"));

    let replacement = fixture.event("user", "stream", "new evidence", Sensitivity::Normal, "event-2");
    assert_eq!(replacement.sequence, 2);
    let retry_plan = fixture.plan("user", "stream", "plan-after-purge");
    assert_eq!(retry_plan.from_sequence, 2);
}

#[test]
fn observation_recovery_commits_across_purged_sequence_gaps() {
    let mut fixture = Fixture::new();
    fixture.scope("user", ScopeKind::User, None);
    let removed = fixture.event(
        "user",
        "stream",
        "remove before observing",
        Sensitivity::Normal,
        "event-1",
    );
    let stale_plan = fixture.plan("user", "stream", "plan-1");
    fixture.store.purge_event(&removed.id, "purge-1").unwrap();
    assert_eq!(
        fixture
            .store
            .get_observation_run(&access("user"), &stale_plan.run_id)
            .unwrap()
            .status,
        "stale"
    );

    let replacement = fixture.event(
        "user",
        "stream",
        "safe replacement",
        Sensitivity::Normal,
        "event-2",
    );
    assert_eq!(replacement.sequence, 2);
    let recovery_plan = fixture.plan("user", "stream", "plan-2");
    assert_eq!(recovery_plan.from_sequence, 2);
    assert_eq!(
        fixture
            .store
            .get_observation_run(&access("user"), &recovery_plan.run_id)
            .unwrap()
            .cursor_at_plan,
        0
    );
    fixture
        .store
        .commit_observation(
            &recovery_plan.run_id,
            observer_result(&replacement.id, "ETH"),
            "commit-2",
        )
        .unwrap();
    assert_eq!(
        fixture
            .store
            .stream_status(&access("user"), "stream")
            .unwrap()
            .observed_through_sequence,
        2
    );
}

#[test]
fn idempotency_is_request_bound_and_reports_replays() {
    let mut fixture = Fixture::new();
    fixture.scope("user", ScopeKind::User, None);
    let request = NewEvent {
        scope_id: "user".to_owned(),
        stream_id: "stream".to_owned(),
        kind: EventKind::UserMessage,
        actor_id: None,
        occurred_at: None,
        content: JsonValue::string("original"),
        token_count: Some(3),
        sensitivity: Sensitivity::Normal,
        metadata: json("{}"),
        idempotency_key: "event-key".to_owned(),
    };
    let created = fixture.store.append_event(request.clone()).unwrap();
    let replay = fixture.store.append_event(request).unwrap();
    assert!(!created.operation.replayed);
    assert!(replay.operation.replayed);
    assert_eq!(created.id, replay.id);

    let conflict = fixture.store.append_event(NewEvent {
        content: JsonValue::string("changed"),
        scope_id: "user".to_owned(),
        stream_id: "stream".to_owned(),
        kind: EventKind::UserMessage,
        actor_id: None,
        occurred_at: None,
        token_count: Some(3),
        sensitivity: Sensitivity::Normal,
        metadata: json("{}"),
        idempotency_key: "event-key".to_owned(),
    });
    assert!(conflict.unwrap_err().message().contains("idempotency conflict"));
}

#[test]
fn privacy_covers_metadata_and_observer_envelopes_are_strict() {
    let mut fixture = Fixture::new();
    fixture.scope("user", ScopeKind::User, None);
    let secret = fixture
        .store
        .append_event(NewEvent {
            scope_id: "user".to_owned(),
            stream_id: "stream".to_owned(),
            kind: EventKind::ToolResult,
            actor_id: None,
            occurred_at: None,
            content: JsonValue::string("secret body"),
            token_count: Some(4),
            sensitivity: Sensitivity::Secret,
            metadata: json(r#"{"credential": "secret metadata"}"#),
            idempotency_key: "secret".to_owned(),
        })
        .unwrap()
        .data;
    assert_eq!(secret.content, json(r#"{"redacted": true, "reason": "secret"}"#));
    assert_eq!(secret.metadata, json("{}"));
    let omitted = fixture
        .store
        .append_event(NewEvent {
            scope_id: "user".to_owned(),
            stream_id: "stream".to_owned(),
            kind: EventKind::ToolResult,
            actor_id: None,
            occurred_at: None,
            content: JsonValue::string("never store"),
            token_count: Some(4),
            sensitivity: Sensitivity::DoNotStore,
            metadata: json(r#"{"credential": "never store metadata"}"#),
            idempotency_key: "dns".to_owned(),
        })
        .unwrap()
        .data;
    let plan = fixture.plan("user", "stream", "plan");
    assert!(plan.events.iter().all(|event| event.metadata == json("{}")));
    assert_eq!(
        fixture
            .store
            .get_event(&secret.id)
            .unwrap()
            .metadata
            .text_field("credential")
            .as_deref(),
        Some("secret metadata")
    );
    assert_eq!(fixture.store.get_event(&omitted.id).unwrap().metadata, json("{}"));
    let context = compose(&fixture.store, "user", "stream", 100, 100, None).unwrap();
    assert!(context
        .recent_events
        .iter()
        .all(|event| event.metadata == json("{}")));
}

#[test]
fn direct_claims_are_command_sourced_and_pending_state_reaches_context() {
    let mut fixture = Fixture::new();
    fixture.scope("user", ScopeKind::User, None);
    fixture.scope("project", ScopeKind::Project, Some("user"));
    fixture.event("project", "stream", "work", Sensitivity::Normal, "event");
    let active = fixture
        .store
        .remember_claim(
            "user",
            ClaimKind::Preference,
            "user",
            "editor",
            JsonValue::string("vim"),
            &[],
            "remember",
        )
        .unwrap();
    let proposal = fixture
        .store
        .propose_claim(
            "project",
            ClaimKind::Decision,
            "launch",
            "asset",
            JsonValue::string("USDG"),
            &[],
            "proposal",
        )
        .unwrap();
    let explanation = fixture
        .store
        .explain_claim(&access("user"), &active.id)
        .unwrap();
    assert_eq!(explanation.source_events.len(), 1);
    assert_eq!(explanation.source_events[0].kind, EventKind::MemoryCommand);

    let context = compose(&fixture.store, "project", "stream", 1_000, 100, None).unwrap();
    assert_eq!(context.pending_claims.len(), 1);
    assert_eq!(context.pending_claims[0].id, proposal.id);
}

#[test]
fn purging_a_direct_claim_removes_orphaned_command_evidence() {
    let mut fixture = Fixture::new();
    fixture.scope("user", ScopeKind::User, None);
    let claim = fixture
        .store
        .remember_claim(
            "user",
            ClaimKind::Preference,
            "user",
            "editor",
            JsonValue::string("purge-only-value"),
            &[],
            "remember",
        )
        .unwrap();
    let command_id = fixture
        .store
        .explain_claim(&access("user"), &claim.id)
        .unwrap()
        .source_events[0]
        .id
        .clone();

    let purge = fixture.store.purge_claim(&claim.id, "purge").unwrap();
    assert_eq!(purge.data.purged_command_events, 1);
    assert!(fixture.store.get_event(&command_id).is_err());
    assert!(search(&fixture.store, "user", "purge-only-value", 10).is_empty());
    assert!(fixture
        .store
        .remember_claim(
            "user",
            ClaimKind::Preference,
            "user",
            "editor",
            JsonValue::string("purge-only-value"),
            &[],
            "remember",
        )
        .unwrap_err()
        .message()
        .contains("privacy-purged"));
}

#[test]
fn budgets_are_hard_and_literal_search_includes_descendants() {
    let mut fixture = Fixture::new();
    fixture.scope("user", ScopeKind::User, None);
    fixture.scope("project", ScopeKind::Project, Some("user"));
    fixture.scope("thread", ScopeKind::Thread, Some("project"));
    fixture
        .store
        .append_event(NewEvent {
            scope_id: "thread".to_owned(),
            stream_id: "stream".to_owned(),
            kind: EventKind::UserMessage,
            actor_id: None,
            occurred_at: None,
            content: JsonValue::string("purge-derived marker"),
            token_count: Some(100),
            sensitivity: Sensitivity::Normal,
            metadata: json("{}"),
            idempotency_key: "event".to_owned(),
        })
        .unwrap();
    let plan_error = fixture
        .store
        .plan_observation("thread", "stream", 1, "fake", "v1", "small-plan")
        .unwrap_err();
    assert!(plan_error.message().contains("minimumRequiredTokens=100"));
    assert_eq!(
        search(&fixture.store, "project", "purge-derived marker", 10).len(),
        1
    );
    let recalled = compose(
        &fixture.store,
        "project",
        "stream",
        1_000,
        0,
        Some("purge-derived marker"),
    )
    .unwrap();
    assert_eq!(recalled.recalled_evidence.len(), 1);

    fixture
        .store
        .append_event(NewEvent {
            scope_id: "thread".to_owned(),
            stream_id: "understated".to_owned(),
            kind: EventKind::UserMessage,
            actor_id: None,
            occurred_at: None,
            content: JsonValue::string(&"x".repeat(400)),
            token_count: Some(1),
            sensitivity: Sensitivity::Normal,
            metadata: json("{}"),
            idempotency_key: "understated-event".to_owned(),
        })
        .unwrap();
    let understated_error = fixture
        .store
        .plan_observation("thread", "understated", 10, "fake", "v1", "understated-plan")
        .unwrap_err();
    assert!(understated_error.message().contains("minimumRequiredTokens"));

    let understated = fixture
        .store
        .create_view(CreateView {
            scope_id: "thread".to_owned(),
            model: None,
            prompt_version: None,
            token_count: Some(1),
            ..view("stream", &"v".repeat(400), None, "understated-view")
        })
        .unwrap();
    assert!(understated.token_count >= 100);

    fixture
        .store
        .remember_claim(
            "project",
            ClaimKind::Constraint,
            "release",
            "channel",
            JsonValue::string("stable"),
            &[],
            "claim",
        )
        .unwrap();
    let context_error = compose(&fixture.store, "project", "stream", 1, 0, None).unwrap_err();
    assert!(context_error.message().contains("minimumRequiredTokens"));
}

#[test]
fn observation_and_stream_inspection_are_complete() {
    let mut fixture = Fixture::new();
    fixture.scope("user", ScopeKind::User, None);
    let event = fixture.event("user", "stream", "inspect", Sensitivity::Normal, "event");
    let plan = fixture.plan("user", "stream", "plan");
    let commit = fixture
        .store
        .commit_observation(&plan.run_id, observer_result(&event.id, "ETH"), "commit")
        .unwrap();
    let explanation = fixture
        .store
        .explain_observation(&access("user"), &commit.observations[0].id)
        .unwrap();
    assert_eq!(explanation.observation.id, commit.observations[0].id);
    assert_eq!(explanation.source_events[0].id, event.id);
    let status = fixture.store.stream_status(&access("user"), "stream").unwrap();
    assert_eq!(status.observed_through_sequence, 1);
    assert_eq!(status.next_sequence, 2);
    assert_eq!(status.runs[0].status, "committed");
    assert!(fixture
        .store
        .list_observation_runs(&access("user"), None, Some("running"))
        .is_err());
}

#[test]
fn incompatible_database_versions_are_rejected_without_schema_writes() {
    for version in [1_i64, 2, 3, 4, 99] {
        let error = match check_schema(version, false) {
            Ok(_) => panic!("schema version {version} should be rejected"),
            Err(error) => error,
        };
        assert!(error.message().contains(&format!(
            "is incompatible with OMK schema version {SCHEMA_VERSION}"
        )));
    }
}

#[test]
fn unversioned_nonempty_databases_are_not_adopted() {
    let error = match check_schema(0, true) {
        Ok(_) => panic!("unversioned nonempty database should be rejected"),
        Err(error) => error,
    };
    assert!(error.message().contains("unversioned database is not empty"));
}
