use omk::stamp::Stamp;
use omk::{
    AmbiguityDraft, Claim, ClaimCardinality, ClaimDraft, ClaimKind, ClaimModality, ClaimStatus,
    ContinuationAction, ContinuationDraft, CreateView, EventKind, JsonValue, KernelError,
    KernelErrorKind, MemoryEvent, MemoryStore, NewEvent, ObservationCommit, ObservationDraft,
    ObservationKind, ObservationPlan, ObservationPlanOutcome, ObserverResult, ReadAccess, Real,
    ScopeKind, Score, SearchHit, Sensitivity, SourceIntegrity, ViewKind,
};

fn json(raw: &str) -> JsonValue {
    JsonValue::parse(raw).unwrap()
}

fn real_of(number: f64) -> Real {
    Real::from_bits(number.to_bits())
}

fn score(number: f64) -> Score {
    Score { number: real_of(number), json: serde_json::to_string(&number).unwrap() }
}

fn started() -> MemoryStore {
    let mut store = MemoryStore::new();
    store.create_scope("user", ScopeKind::User, None, None, "scope-user").unwrap();
    store
}

fn draft(content: &str, sensitivity: Sensitivity, key: &str) -> NewEvent {
    NewEvent {
        scope_id: "user".to_owned(),
        stream_id: "stream".to_owned(),
        kind: EventKind::UserMessage,
        actor_id: None,
        occurred_at: None,
        content: JsonValue::string(content),
        token_count: Some(10),
        sensitivity,
        metadata: json("{}"),
        idempotency_key: key.to_owned(),
    }
}

fn append(store: &mut MemoryStore, content: &str, key: &str) -> MemoryEvent {
    store.append_event(draft(content, Sensitivity::Normal, key)).unwrap().data
}

fn plan(store: &mut MemoryStore, key: &str) -> ObservationPlan {
    store
        .plan_observation("user", "stream", 1000, "fake", "v1", key)
        .unwrap()
        .data
        .into_plan()
        .unwrap()
}

fn result(event_id: &str, value: &str) -> ObserverResult {
    ObserverResult {
        observations: vec![ObservationDraft {
            kind: ObservationKind::Decision,
            content: format!("the asset is {value}"),
            importance: score(0.5),
            confidence: score(1.0),
            source_event_ids: vec![event_id.to_owned()],
            event_time_from: None,
            event_time_to: None,
        }],
        claims: vec![ClaimDraft {
            kind: ClaimKind::Decision,
            subject: "launch".to_owned(),
            predicate: "asset".to_owned(),
            cardinality: ClaimCardinality::Single,
            value: JsonValue::string(value),
            modality: ClaimModality::ExplicitAssertion,
            confidence: score(1.0),
            source_event_ids: vec![event_id.to_owned()],
        }],
        continuation: ContinuationDraft {
            current_task: Some("launch".to_owned()),
            ..ContinuationDraft::default()
        },
        ambiguities: vec![],
        empty_reason: None,
    }
}

fn commit(store: &mut MemoryStore, plan: &ObservationPlan, value: &str, key: &str) -> ObservationCommit {
    store
        .commit_observation(&plan.run_id, result(&plan.events[0].id, value), key)
        .unwrap()
        .data
}

fn remember(store: &mut MemoryStore, value: &str, key: &str) -> Result<Claim, KernelError> {
    store
        .remember_claim(
            "user",
            ClaimKind::Decision,
            "launch",
            "asset",
            JsonValue::string(value),
            &[],
            key,
        )
        .map(|made| made.data)
}

fn refused<T: std::fmt::Debug>(
    outcome: Result<T, KernelError>,
    kind: KernelErrorKind,
    message: &str,
) {
    let error = outcome.unwrap_err();
    assert_eq!((error.kind(), error.message()), (kind, message));
}

#[test]
fn scopes_refuse_bad_requests_and_change_nothing() {
    let mut store = started();
    let before = store.clone();
    refused(
        store.create_scope(" ", ScopeKind::Project, None, None, "k"),
        KernelErrorKind::InvalidInput,
        "scope id cannot be empty",
    );
    refused(
        store.create_scope("p", ScopeKind::Project, None, None, "\t"),
        KernelErrorKind::InvalidInput,
        "idempotency key cannot be empty",
    );
    refused(
        store.create_scope("p", ScopeKind::Project, Some("p"), None, "k"),
        KernelErrorKind::InvalidInput,
        "a scope cannot be its own parent",
    );
    refused(
        store.create_scope("p", ScopeKind::Project, Some("q"), None, "k"),
        KernelErrorKind::NotFound,
        "scope q does not exist",
    );
    let taken = store.create_scope("user", ScopeKind::User, None, None, "k").unwrap_err();
    assert_eq!(taken.message(), "creating scope user");
    assert_eq!(taken.cause(), Some("UNIQUE constraint failed: memory_scopes.id"));
    assert_eq!(store, before);
}

#[test]
fn scopes_see_their_ancestors_and_search_their_descendants() {
    let mut store = started();
    store.create_scope("project", ScopeKind::Project, Some("user"), Some("P"), "s2").unwrap();
    store.create_scope("thread", ScopeKind::Thread, Some("project"), None, "s3").unwrap();
    store.create_scope("other", ScopeKind::Project, Some("user"), None, "s4").unwrap();
    assert_eq!(store.visible_scope_ids("thread").unwrap(), ["user", "project", "thread"]);
    assert!(store.visible_scope_ids("nowhere").is_err());
    let mut found = store.retrieval_scope_ids("project").unwrap();
    found.sort();
    assert_eq!(found, ["project", "thread", "user"]);
    assert!(store.scope_is_ancestor("user", "thread").unwrap());
    assert!(!store.scope_is_ancestor("thread", "user").unwrap());
    assert!(!store.scope_is_ancestor("other", "thread").unwrap());
    assert_eq!(store.get_scope("project").unwrap().name.as_deref(), Some("P"));
    assert_eq!(store.list_scopes().len(), 4);
    let event = append(&mut store, "hello", "e1");
    assert!(store.read_event(&ReadAccess::agent("thread"), &event.id).is_ok());
    let mut inner = draft("inner", Sensitivity::Normal, "e2");
    inner.scope_id = "thread".to_owned();
    inner.stream_id = "inner".to_owned();
    let inner = store.append_event(inner).unwrap().data;
    assert!(store.read_event(&ReadAccess::agent("project"), &inner.id).is_ok());
    refused(
        store.read_event(&ReadAccess::agent("other"), &inner.id),
        KernelErrorKind::ScopeViolation,
        "record is not visible from scope other",
    );
}

#[test]
fn keys_are_bound_to_their_requests() {
    let mut store = started();
    let first = store.append_event(draft("a", Sensitivity::Normal, "k")).unwrap();
    assert!(!first.operation.replayed);
    let before = store.clone();
    let again = store.append_event(draft("a", Sensitivity::Normal, "k")).unwrap();
    assert!(again.operation.replayed);
    assert_eq!(again.data, first.data);
    refused(
        store.append_event(draft("b", Sensitivity::Normal, "k")),
        KernelErrorKind::IdempotencyConflict,
        "idempotency conflict: this key was already used with different request input",
    );
    refused(
        store.create_scope("p", ScopeKind::Project, None, None, "k"),
        KernelErrorKind::IdempotencyConflict,
        "idempotency key was already used for event.append, not scope.create",
    );
    assert_eq!(store, before);
}

#[test]
fn purged_results_are_not_replayed() {
    let mut store = started();
    let event = append(&mut store, "a", "k");
    let purge = store.purge_event(&event.id, "purge").unwrap().data;
    assert_eq!((purge.id.as_str(), purge.sequence), (event.id.as_str(), 1));
    refused(
        store.append_event(draft("a", Sensitivity::Normal, "k")),
        KernelErrorKind::PrivacyPurged,
        "the prior result for this idempotency key was privacy-purged",
    );
    refused(
        store.get_event(&event.id),
        KernelErrorKind::NotFound,
        &format!("event {} does not exist", event.id),
    );
    assert!(store.purge_event(&event.id, "purge").unwrap().operation.replayed);
    assert_eq!(append(&mut store, "b", "k2").sequence, 2);
}

#[test]
fn appended_events_are_numbered_kept_and_checked() {
    let mut store = started();
    let first = append(&mut store, "first", "e1");
    let second = append(&mut store, "second", "e2");
    assert_eq!((first.sequence, second.sequence), (1, 2));
    assert_eq!(store.get_event(&first.id).unwrap(), first);
    assert_eq!(store.recall_event_range("stream", 1, 2).unwrap(), [first.clone(), second.clone()]);
    assert_eq!(store.recall_event_range("stream", 2, 9).unwrap(), [second.clone()]);
    refused(
        store.recall_event_range("stream", 0, 1),
        KernelErrorKind::InvalidInput,
        "from sequence must be positive",
    );
    refused(
        store.recall_event_range("stream", 2, 1),
        KernelErrorKind::InvalidInput,
        "to sequence must be at least from sequence",
    );
    let before = store.clone();
    let mut bad = draft("x", Sensitivity::Normal, "e3");
    bad.token_count = Some(-1);
    refused(
        store.append_event(bad),
        KernelErrorKind::InvalidInput,
        "token count cannot be negative",
    );
    let mut bad = draft("x", Sensitivity::Normal, "e3");
    bad.metadata = json("[]");
    refused(
        store.append_event(bad),
        KernelErrorKind::InvalidInput,
        "metadata must be a JSON object",
    );
    let mut bad = draft("x", Sensitivity::Normal, "e3");
    bad.occurred_at = Some("yesterday".to_owned());
    let undated = store.append_event(bad).unwrap_err();
    assert_eq!(undated.kind(), KernelErrorKind::InvalidInput);
    assert_eq!(undated.message(), "occurred-at must be an RFC 3339 timestamp");
    assert_eq!(undated.cause(), Some("premature end of input"));
    let mut bad = draft("x", Sensitivity::Normal, "e3");
    bad.scope_id = "nowhere".to_owned();
    refused(store.append_event(bad), KernelErrorKind::NotFound, "scope nowhere does not exist");
    assert_eq!(store, before);
    store.create_scope("other", ScopeKind::Project, None, None, "s2").unwrap();
    let mut bad = draft("x", Sensitivity::Normal, "e3");
    bad.scope_id = "other".to_owned();
    refused(
        store.append_event(bad),
        KernelErrorKind::ScopeViolation,
        "stream stream belongs to scope user, not other",
    );
    let mut good = draft("x", Sensitivity::Normal, "e3");
    good.occurred_at = Some("2024-05-06T07:08:09Z".to_owned());
    assert_eq!(store.append_event(good).unwrap().data.occurred_at, "2024-05-06T07:08:09Z");
}

#[test]
fn token_counts_cover_the_estimate() {
    let mut store = started();
    let mut event = draft(&"x".repeat(400), Sensitivity::Normal, "e1");
    event.token_count = Some(1);
    let low = store.append_event(event).unwrap().data;
    assert!(low.token_count >= 100);
    let mut event = draft("x", Sensitivity::Normal, "e2");
    event.token_count = Some(5000);
    assert_eq!(store.append_event(event).unwrap().data.token_count, 5000);
    let mut event = draft("x", Sensitivity::Normal, "e3");
    event.token_count = None;
    assert!(store.append_event(event).unwrap().data.token_count >= 1);
}

#[test]
fn secret_and_withheld_content_is_hidden() {
    let mut store = started();
    let secret = store.append_event(draft("hush", Sensitivity::Secret, "e1")).unwrap().data;
    let withheld = store.append_event(draft("never", Sensitivity::DoNotStore, "e2")).unwrap().data;
    assert_eq!(withheld.content.text(), "{\"omitted\":true,\"reason\":\"do-not-store\"}");
    assert!(store.index.is_empty());
    let agent = store.read_event(&ReadAccess::agent("user"), &secret.id).unwrap();
    assert_eq!(agent.content.text(), "{\"reason\":\"secret\",\"redacted\":true}");
    assert_eq!(
        agent.content_hash,
        "8ebc44b0e444f5f61da03a212520af065c2bc5105ec4d3ca70925b28ca018e92"
    );
    let access = ReadAccess { anchor_scope_id: "user".to_owned(), reveal_secrets: true };
    assert_eq!(
        store.read_event(&access, &secret.id).unwrap().content,
        JsonValue::string("hush")
    );
    let plan = plan(&mut store, "p");
    assert!(plan.events.iter().all(|event| event.content != JsonValue::string("hush")));
    let bundle = store.compose_context("user", "stream", 1000, 1000, &vec![]).unwrap();
    assert_eq!(bundle.recent_events.len(), 2);
    assert!(bundle.recent_events.iter().all(|event| event.content != JsonValue::string("hush")));
}

#[test]
fn a_single_valued_slot_has_one_active_claim() {
    let mut store = started();
    let eth = remember(&mut store, "ETH", "c1").unwrap();
    assert_eq!(eth.status, ClaimStatus::Active);
    let btc = remember(&mut store, "BTC", "c2").unwrap();
    assert_eq!(btc.status, ClaimStatus::Disputed);
    let confirmed = store.confirm_claim(&btc.id, "c3").unwrap().data;
    assert_eq!(confirmed.status, ClaimStatus::Active);
    let active = store.list_claims("user", false, Some(ClaimStatus::Active)).unwrap();
    assert_eq!(active.len(), 1);
    assert_eq!(active[0].value, JsonValue::string("BTC"));
    assert_eq!(
        store.list_claims("user", false, Some(ClaimStatus::Superseded)).unwrap()[0].id,
        eth.id
    );
    refused(
        store.confirm_claim(&eth.id, "c4"),
        KernelErrorKind::InvalidInput,
        "claim must be pending or disputed to confirm",
    );
    refused(
        store.confirm_claim("nothing", "c4"),
        KernelErrorKind::NotFound,
        "claim nothing does not exist",
    );
    let other = store.remember_claim_with_cardinality(
        "user",
        ClaimKind::Decision,
        "launch",
        "asset",
        ClaimCardinality::SetValued,
        JsonValue::string("SOL"),
        &[],
        "c5",
    );
    refused(
        other,
        KernelErrorKind::InvalidInput,
        "claim slot already uses single cardinality",
    );
}

#[test]
fn a_set_valued_slot_holds_several_claims() {
    let mut store = started();
    for (value, key) in [("ETH", "c1"), ("BTC", "c2")] {
        let claim = store
            .remember_claim_with_cardinality(
                "user",
                ClaimKind::Preference,
                "launch",
                "assets",
                ClaimCardinality::SetValued,
                JsonValue::string(value),
                &[],
                key,
            )
            .unwrap()
            .data;
        assert_eq!(claim.status, ClaimStatus::Active);
    }
    assert_eq!(store.list_claims("user", false, Some(ClaimStatus::Active)).unwrap().len(), 2);
}

#[test]
fn corrections_supersede_what_they_correct() {
    let mut store = started();
    let eth = remember(&mut store, "ETH", "c1").unwrap();
    let btc = store.correct_claim(&eth.id, JsonValue::string("BTC"), &[], "c2").unwrap().data;
    assert_eq!(btc.supersedes_id.as_deref(), Some(eth.id.as_str()));
    assert_eq!(btc.status, ClaimStatus::Active);
    let all = store.list_claims("user", false, None).unwrap();
    let kept = all.iter().find(|claim| claim.id == eth.id).unwrap();
    assert_eq!(kept.status, ClaimStatus::Superseded);
    assert_eq!(kept.value, JsonValue::string("ETH"));
    let sol = store.correct_claim(&eth.id, JsonValue::string("SOL"), &[], "c3").unwrap().data;
    let active = store.list_claims("user", false, Some(ClaimStatus::Active)).unwrap();
    assert_eq!(active, [sol]);
}

#[test]
fn closing_claims_follows_their_standing() {
    let mut store = started();
    let proposed = store
        .propose_claim(
            "user",
            ClaimKind::Goal,
            "launch",
            "date",
            JsonValue::string("May"),
            &[],
            "c1",
        )
        .unwrap()
        .data;
    assert_eq!(proposed.status, ClaimStatus::Pending);
    assert_eq!(store.reject_claim(&proposed.id, "c2").unwrap().data.status, ClaimStatus::Rejected);
    let eth = remember(&mut store, "ETH", "c3").unwrap();
    refused(
        store.reject_claim(&eth.id, "c4"),
        KernelErrorKind::InvalidInput,
        "claim must be pending or disputed to reject",
    );
    assert_eq!(store.forget_claim(&eth.id, "c5").unwrap().data.status, ClaimStatus::Expired);
    refused(
        store.forget_claim(&eth.id, "c6"),
        KernelErrorKind::InvalidInput,
        "claim must be pending, active, or disputed to forget",
    );
}

#[test]
fn claims_move_only_up_the_hierarchy() {
    let mut store = started();
    store.create_scope("project", ScopeKind::Project, Some("user"), None, "s2").unwrap();
    store.create_scope("other", ScopeKind::Project, Some("user"), None, "s3").unwrap();
    let event = append(&mut store, "ETH it is", "e1");
    let claim = store
        .remember_claim(
            "project",
            ClaimKind::Decision,
            "launch",
            "asset",
            JsonValue::string("ETH"),
            &[event.id.clone()],
            "c1",
        )
        .unwrap()
        .data;
    let moved = store.rescope_claim(&claim.id, "user", "c2").unwrap().data;
    assert_eq!(moved.scope_id, "user");
    assert_eq!(moved.value, claim.value);
    refused(
        store.rescope_claim(&moved.id, "other", "c3"),
        KernelErrorKind::ScopeViolation,
        &format!(
            "claim {} has source evidence in scope project, which is not visible from scope other",
            moved.id
        ),
    );
    let user_claim = remember(&mut store, "BTC", "c4").unwrap();
    refused(
        store.rescope_claim(&user_claim.id, "other", "c5"),
        KernelErrorKind::InvalidInput,
        "claim rescope target must be the current scope or one of its ancestors",
    );
}

#[test]
fn claims_name_usable_evidence() {
    let mut store = started();
    store.create_scope("project", ScopeKind::Project, Some("user"), None, "s2").unwrap();
    let secret = store.append_event(draft("hush", Sensitivity::Secret, "e1")).unwrap().data;
    let before = store.clone();
    let mut ask = |source: &str| {
        store.remember_claim(
            "user",
            ClaimKind::Decision,
            "launch",
            "asset",
            JsonValue::string("ETH"),
            &[source.to_owned()],
            "c1",
        )
    };
    refused(
        ask("nothing"),
        KernelErrorKind::NotFound,
        "source event nothing does not exist",
    );
    refused(
        ask(&secret.id),
        KernelErrorKind::InvalidInput,
        &format!("redacted event {} cannot source a claim", secret.id),
    );
    assert_eq!(store, before);
    let claim = remember(&mut store, "ETH", "c2").unwrap();
    let explained = store.explain_claim(&ReadAccess::agent("user"), &claim.id).unwrap();
    assert_eq!(explained.claim, claim);
    assert_eq!(explained.source_events.len(), 1);
    assert_eq!(explained.source_events[0].kind, EventKind::MemoryCommand);
    assert_eq!(
        explained.source_events[0].metadata.text_field("ownerClaimId").as_deref(),
        Some(claim.id.as_str())
    );
    assert_eq!(explained.source_events[0].stream_id, "memory-commands:user");
}

#[test]
fn only_one_of_two_competing_runs_commits() {
    let mut store = started();
    append(&mut store, "ETH it is", "e1");
    let first = plan(&mut store, "p1");
    let second = plan(&mut store, "p2");
    let made = commit(&mut store, &first, "ETH", "o1");
    assert_eq!(made.continuation_action, ContinuationAction::Created);
    let late = store.commit_observation(
        &second.run_id,
        result(&second.events[0].id, "ETH"),
        "o2",
    );
    refused(
        late,
        KernelErrorKind::StaleObservationRun,
        &format!("observation run {} is stale: expected cursor 0, found 1", second.run_id),
    );
    let status = store.stream_status(&ReadAccess::agent("user"), "stream").unwrap();
    assert_eq!(status.observed_through_sequence, 1);
    assert_eq!(status.next_sequence, 2);
    assert_eq!(
        store.get_observation_run(&ReadAccess::agent("user"), &second.run_id).unwrap().status,
        "stale"
    );
    assert!(store
        .list_observation_runs(&ReadAccess::agent("user"), None, Some("asleep"))
        .is_err());
}

#[test]
fn committed_claims_wait_for_reconciliation() {
    let mut store = started();
    append(&mut store, "ETH it is", "e1");
    let first = plan(&mut store, "p1");
    let made = commit(&mut store, &first, "ETH", "o1");
    assert_eq!(made.claims[0].status, ClaimStatus::Pending);
    let event_ids: Vec<String> = store
        .recall_by_observation(&ReadAccess::agent("user"), &made.observations[0].id)
        .unwrap()
        .into_iter()
        .map(|event| event.id)
        .collect();
    assert_eq!(event_ids, [first.events[0].id.clone()]);
    let summary = store.reconcile("user", "r1").unwrap().data;
    assert_eq!(summary.activated, [made.claims[0].id.clone()]);
    append(&mut store, "no, BTC", "e2");
    let next = plan(&mut store, "p2");
    assert_eq!(next.previous_continuation.as_ref().unwrap().id, made.continuation_view.id);
    let made = commit(&mut store, &next, "BTC", "o2");
    assert_eq!(
        store.reconcile("user", "r2").unwrap().data.disputed,
        [made.claims[0].id.clone()]
    );
    append(&mut store, "yes, ETH", "e3");
    let next = plan(&mut store, "p3");
    let made = commit(&mut store, &next, "ETH", "o3");
    assert_eq!(
        store.reconcile("user", "r3").unwrap().data.duplicates_rejected,
        [made.claims[0].id.clone()]
    );
}

#[test]
fn plans_fit_their_budget_or_report_the_need() {
    let mut store = started();
    refused(
        store.plan_observation("user", "stream", 100, "fake", "v1", "p0"),
        KernelErrorKind::NotFound,
        "stream stream does not exist",
    );
    let first = append(&mut store, "one", "e1");
    append(&mut store, "two", "e2");
    refused(
        store.plan_observation("user", "stream", 0, "fake", "v1", "p1"),
        KernelErrorKind::InvalidInput,
        "max tokens must be positive",
    );
    let tight = store.plan_observation("user", "stream", 1, "fake", "v1", "p1").unwrap_err();
    assert_eq!(tight.kind(), KernelErrorKind::BudgetExceeded);
    assert_eq!(
        tight.message(),
        format!(
            "observation budget too small: minimumRequiredTokens={} for event {}",
            first.token_count, first.id
        )
    );
    let some = store
        .plan_observation("user", "stream", first.token_count, "fake", "v1", "p1")
        .unwrap()
        .data
        .into_plan()
        .unwrap();
    assert_eq!((some.from_sequence, some.to_sequence), (1, 1));
    assert_eq!(some.events.len(), 1);
    let all = plan(&mut store, "p2");
    assert_eq!((all.from_sequence, all.to_sequence), (1, 2));
    commit(&mut store, &all, "ETH", "o1");
    let done = store.plan_observation("user", "stream", 100, "fake", "v1", "p3").unwrap().data;
    assert!(matches!(done, ObservationPlanOutcome::CaughtUp { .. }));
    assert!(done.into_plan().is_none());
}

#[test]
fn observer_results_are_checked() {
    let mut store = started();
    append(&mut store, "ETH it is", "e1");
    let secret = store.append_event(draft("hush", Sensitivity::Secret, "e2")).unwrap().data;
    let run = plan(&mut store, "p1");
    let event = run.events[0].id.clone();
    let before = store.clone();
    let mut ask = |change: &dyn Fn(&mut ObserverResult)| {
        let mut asked = result(&event, "ETH");
        change(&mut asked);
        store.commit_observation(&run.run_id, asked, "o1").unwrap_err().message().to_owned()
    };
    assert_eq!(ask(&|r| r.observations[0].content = " ".to_owned()), "observation 0 content is empty");
    assert_eq!(
        ask(&|r| r.observations[0].importance = score(1.5)),
        "observation importance must be between 0 and 1"
    );
    assert_eq!(
        ask(&|r| r.observations[0].confidence = score(f64::NAN)),
        "observation confidence must be between 0 and 1"
    );
    assert_eq!(
        ask(&|r| r.observations[0].source_event_ids.clear()),
        "observation 0 has no source events"
    );
    assert_eq!(ask(&|r| r.claims[0].subject.clear()), "claim 0 subject is empty");
    assert_eq!(ask(&|r| r.claims[0].predicate.clear()), "claim 0 predicate is empty");
    assert_eq!(
        ask(&|r| r.claims[0].confidence = score(-0.5)),
        "claim confidence must be between 0 and 1"
    );
    assert_eq!(ask(&|r| r.claims[0].source_event_ids.clear()), "claim 0 has no source events");
    let doubt = |description: &str, sources: Vec<String>| AmbiguityDraft {
        description: description.to_owned(),
        source_event_ids: sources,
    };
    assert_eq!(
        ask(&|r| r.ambiguities = vec![doubt("", vec![event.clone()])]),
        "ambiguity 0 description is empty"
    );
    assert_eq!(
        ask(&|r| r.ambiguities = vec![doubt("which?", vec![])]),
        "ambiguity 0 has no source events"
    );
    assert_eq!(
        ask(&|r| r.claims[0].source_event_ids = vec!["nothing".to_owned()]),
        "source event nothing is not in the observation run"
    );
    assert_eq!(
        ask(&|r| r.claims[0].source_event_ids = vec![secret.id.clone()]),
        format!("redacted event {} cannot source derived memory", secret.id)
    );
    assert_eq!(
        ask(&|r| *r = ObserverResult {
            observations: vec![],
            claims: vec![],
            continuation: ContinuationDraft::default(),
            ambiguities: vec![],
            empty_reason: None,
        }),
        "an empty ObserverResult requires a non-empty emptyReason acknowledgement"
    );
    assert_eq!(
        ask(&|r| r.empty_reason = Some("x".repeat(501))),
        "emptyReason must be at most 500 characters"
    );
    assert_eq!(store, before);
}

#[test]
fn failed_runs_keep_the_evidence() {
    let mut store = started();
    append(&mut store, "ETH it is", "e1");
    let run = plan(&mut store, "p1");
    let events = store.events.clone();
    refused(
        store.fail_observation(&run.run_id, &"x".repeat(201), "f1"),
        KernelErrorKind::InvalidInput,
        "failure reason must be at most 200 characters",
    );
    let failed = store.fail_observation(&run.run_id, "no model", "f1").unwrap().data;
    assert_eq!((failed.status.as_str(), failed.reason.as_str()), ("failed", "no model"));
    assert_eq!(store.events, events);
    let again = store.fail_observation(&run.run_id, "no model", "f2").unwrap_err();
    assert_eq!(
        again.message(),
        format!("observation run {} is failed, not pending", run.run_id)
    );
    assert_eq!(plan(&mut store, "p2").events.len(), 1);
}

fn view(content: &str, expected: Option<&str>, key: &str) -> CreateView {
    CreateView {
        scope_id: "user".to_owned(),
        stream_id: "stream".to_owned(),
        kind: ViewKind::Continuity,
        content: content.to_owned(),
        source_from_sequence: 1,
        source_through_sequence: 1,
        source_observation_ids: vec![],
        model: None,
        prompt_version: None,
        token_count: None,
        expected_previous_view_id: expected.map(str::to_owned),
        idempotency_key: key.to_owned(),
    }
}

#[test]
fn views_are_appended_in_generations() {
    let mut store = started();
    append(&mut store, "one", "e1");
    let first = store.create_view(view("so far", None, "v1")).unwrap().data;
    assert_eq!((first.generation, first.previous_view_id.as_deref()), (1, None));
    refused(
        store.create_view(view("later", Some("x\"y"), "v2")),
        KernelErrorKind::StaleView,
        &format!(
            "view is stale: expected previous view Some(\"x\\\"y\"), found Some(\"{}\")",
            first.id
        ),
    );
    let second = store.create_view(view("later", Some(&first.id), "v2")).unwrap().data;
    assert_eq!(second.generation, 2);
    assert_eq!(second.previous_view_id, Some(first.id.clone()));
    assert_eq!(store.latest_view("stream", ViewKind::Continuity).unwrap().view.id, second.id);
    assert_eq!(store.list_views("user").unwrap().len(), 2);
    refused(
        store.create_view(view(" ", Some(&second.id), "v3")),
        KernelErrorKind::InvalidInput,
        "view content cannot be empty",
    );
    let mut bad = view("x", Some(&second.id), "v3");
    bad.kind = ViewKind::Continuation;
    refused(
        store.create_view(bad),
        KernelErrorKind::InvalidInput,
        "continuation views are created only by observation commit",
    );
    let mut bad = view("x", Some(&second.id), "v3");
    bad.source_from_sequence = 2;
    refused(
        store.create_view(bad),
        KernelErrorKind::InvalidInput,
        "view source sequence range is invalid",
    );
    let mut bad = view("x", Some(&second.id), "v3");
    bad.source_observation_ids = vec!["nothing".to_owned()];
    refused(
        store.create_view(bad),
        KernelErrorKind::NotFound,
        "observation nothing does not exist",
    );
}

#[test]
fn purging_evidence_takes_what_rests_on_it() {
    let mut store = started();
    let event = append(&mut store, "ETH it is", "e1");
    let kept = append(&mut store, "unrelated", "e2");
    let run = plan(&mut store, "p1");
    let made = commit(&mut store, &run, "ETH", "o1");
    let purge = store.purge_event(&event.id, "x1").unwrap().data;
    assert_eq!(purge.dependent_observations, 1);
    assert_eq!(purge.dependent_claims, 1);
    assert_eq!(purge.dependent_view_ids, [made.continuation_view.id.clone()]);
    assert_eq!(purge.affected_run_ids, [run.run_id.clone()]);
    assert!(store.observations.is_empty());
    assert!(store.claims.is_empty());
    assert!(store.views.is_empty());
    assert_eq!(store.events.len(), 1);
    assert_eq!(store.get_event(&kept.id).unwrap(), kept);
    let info = store.get_observation_run(&ReadAccess::agent("user"), &run.run_id).unwrap();
    assert_eq!(info.source_integrity, SourceIntegrity::PrivacyPurged);
    refused(
        store.purge_event(&event.id, "x2"),
        KernelErrorKind::NotFound,
        &format!("event {} does not exist", event.id),
    );
}

#[test]
fn purging_a_claim_takes_its_command() {
    let mut store = started();
    let claim = remember(&mut store, "ETH", "c1").unwrap();
    assert_eq!(store.events.len(), 1);
    let purge = store.purge_claim(&claim.id, "x1").unwrap().data;
    assert_eq!((purge.id, purge.purged_command_events), (claim.id.clone(), 1));
    assert!(store.events.is_empty());
    assert!(store.claims.is_empty());
    assert!(store.claim_sources.is_empty());
    refused(
        store.explain_claim(&ReadAccess::agent("user"), &claim.id),
        KernelErrorKind::NotFound,
        &format!("claim {} does not exist", claim.id),
    );
}

#[test]
fn contexts_keep_to_their_budget_and_show_active_claims() {
    let mut store = started();
    for number in 0..6 {
        append(&mut store, &format!("event {number}"), &format!("e{number}"));
    }
    let claim = remember(&mut store, "ETH", "c1").unwrap();
    let bundle = store.compose_context("user", "stream", 100, 30, &vec![]).unwrap();
    assert!(bundle.diagnostics.estimated_tokens <= 100);
    assert_eq!(bundle.claims, [claim.clone()]);
    assert_eq!(bundle.recent_events.last().unwrap().sequence, 6);
    let small = store.compose_context("user", "stream", 1, 30, &vec![]).unwrap_err();
    assert_eq!(small.kind(), KernelErrorKind::BudgetExceeded);
    assert!(small
        .message()
        .starts_with("context budget too small: minimumRequiredTokens="));
    refused(
        store.compose_context("user", "stream", 0, 30, &vec![]),
        KernelErrorKind::InvalidInput,
        "max tokens must be positive",
    );
    refused(
        store.compose_context("user", "stream", 10, -1, &vec![]),
        KernelErrorKind::InvalidInput,
        "recent raw tokens cannot be negative",
    );
    store.create_scope("other", ScopeKind::Project, None, None, "s2").unwrap();
    refused(
        store.compose_context("other", "stream", 100, 30, &vec![]),
        KernelErrorKind::ScopeViolation,
        "stream stream is not visible from scope other",
    );
}

fn hit(record_type: &str, id: &str, scope: &str) -> SearchHit {
    SearchHit {
        record_type: record_type.to_owned(),
        id: id.to_owned(),
        scope_id: scope.to_owned(),
        text: "text".to_owned(),
        rank: real_of(-1.0),
    }
}

#[test]
fn searches_keep_to_scope_and_limit() {
    let mut store = started();
    store.create_scope("other", ScopeKind::Project, None, None, "s2").unwrap();
    let request = store.search_full_text("user", "a \"b\"", 2).unwrap();
    assert_eq!(request.query, "\"a \"\"b\"\"\"");
    let ranked = vec![
        hit("event", "1", "user"),
        hit("event", "2", "other"),
        hit("event", "3", "user"),
        hit("event", "4", "user"),
    ];
    let found: Vec<String> = request.select(&ranked).into_iter().map(|hit| hit.id).collect();
    assert_eq!(found, ["1", "3"]);
    assert_eq!(store.search_full_text_advanced("user", "a OR b", 2).unwrap().query, "a OR b");
    for limit in [0, 1001] {
        refused(
            store.search_full_text("user", "a", limit),
            KernelErrorKind::InvalidInput,
            "search limit must be from 1 to 1000",
        );
    }
    refused(
        store.search_full_text("user", " ", 1),
        KernelErrorKind::InvalidInput,
        "search query cannot be empty",
    );
}

#[test]
fn a_given_stamp_decides_identifiers_and_times() {
    let mut store = started();
    let stamp = Stamp { ids: vec!["id-1".to_owned()], at: "2024-01-01T00:00:00Z".to_owned() };
    let made = store
        .append_event_with(draft("a", Sensitivity::Normal, "k1"), &stamp)
        .unwrap()
        .data;
    assert_eq!((made.id.as_str(), made.recorded_at.as_str()), ("id-1", "2024-01-01T00:00:00Z"));
    refused(
        store.append_event_with(draft("b", Sensitivity::Normal, "k2"), &stamp),
        KernelErrorKind::InvalidInput,
        "UNIQUE constraint failed: memory_events.id",
    );
}

#[test]
fn contexts_do_not_repeat_recent_evidence() {
    let mut store = started();
    let event = append(&mut store, "ETH it is", "e1");
    let run = plan(&mut store, "p1");
    let made = commit(&mut store, &run, "ETH", "o1");
    let hits = vec![
        hit("event", &event.id, "user"),
        hit("observation", &made.observations[0].id, "user"),
        hit("claim", &made.claims[0].id, "user"),
    ];
    let full = store.compose_context("user", "stream", 1000, 1000, &hits).unwrap();
    assert_eq!(full.recent_events.len(), 1);
    assert!(full.observations.is_empty());
    assert!(full.recalled_evidence.is_empty());
    let tailless = store.compose_context("user", "stream", 1000, 0, &hits).unwrap();
    assert!(tailless.recent_events.is_empty());
    assert_eq!(tailless.observations.len(), 1);
    assert_eq!(tailless.recalled_evidence.len(), 1);
    let mut summary = view("so far", None, "v1");
    summary.source_observation_ids = vec![made.observations[0].id.clone()];
    store.create_view(summary).unwrap();
    assert_eq!(store.observations, made.observations);
    let viewed = store.compose_context("user", "stream", 1000, 0, &vec![]).unwrap();
    assert!(viewed.observations.is_empty());
    assert!(viewed
        .diagnostics
        .omitted_items
        .iter()
        .any(|item| item.reason == "already represented by continuity view"));
}

#[test]
fn unknown_hits_are_refused() {
    let mut store = started();
    append(&mut store, "ETH it is", "e1");
    refused(
        store.compose_context("user", "stream", 1000, 0, &vec![hit("view", "v", "user")]),
        KernelErrorKind::InvalidInput,
        "unsupported full-text record type view",
    );
}

#[test]
fn committed_runs_are_settled() {
    let mut store = started();
    append(&mut store, "ETH it is", "e1");
    let run = plan(&mut store, "p1");
    commit(&mut store, &run, "ETH", "o1");
    let again = store
        .commit_observation(&run.run_id, result(&run.events[0].id, "ETH"), "o2")
        .unwrap_err();
    assert_eq!(
        again.message(),
        format!("observation run {} is committed, not pending", run.run_id)
    );
    assert_eq!(store.observations.len(), 1);
    refused(
        store.commit_observation("nothing", result(&run.events[0].id, "ETH"), "o3"),
        KernelErrorKind::NotFound,
        "observation run nothing does not exist",
    );
}

fn stamp(ids: &[&str]) -> Stamp {
    Stamp {
        ids: ids.iter().map(|id| (*id).to_owned()).collect(),
        at: "2024-01-01T00:00:00Z".to_owned(),
    }
}

#[test]
fn observations_with_evidence_outside_the_tail_are_shown() {
    let mut store = started();
    let first = append(&mut store, "ETH was discussed", "e1");
    let second = append(&mut store, "ETH it is", "e2");
    let run = plan(&mut store, "p1");
    let mut found = result(&first.id, "ETH");
    found.observations[0].source_event_ids = vec![first.id.clone(), second.id.clone()];
    let made = store.commit_observation(&run.run_id, found, "o1").unwrap().data;
    let part = store
        .compose_context("user", "stream", 1000, second.token_count, &vec![])
        .unwrap();
    assert_eq!(part.recent_events, [second]);
    assert_eq!(part.observations, made.observations);
    let whole = store.compose_context("user", "stream", 1000, 1000, &vec![]).unwrap();
    assert_eq!(whole.recent_events.len(), 2);
    assert!(whole.observations.is_empty());
    assert!(whole
        .diagnostics
        .omitted_items
        .iter()
        .any(|item| item.reason == "source events already present in raw tail"));
}

#[test]
fn purging_evidence_takes_later_generations() {
    let mut store = started();
    let first = append(&mut store, "one", "e1");
    append(&mut store, "two", "e2");
    let old = store.create_view(view("one so far", None, "v1")).unwrap().data;
    let mut next = view("two so far", Some(&old.id), "v2");
    next.source_from_sequence = 2;
    next.source_through_sequence = 2;
    let new = store.create_view(next).unwrap().data;
    let purge = store.purge_event(&first.id, "x1").unwrap().data;
    let mut dependent = vec![old.id, new.id];
    dependent.sort();
    assert_eq!(purge.dependent_view_ids, dependent);
    assert!(store.list_views("user").unwrap().is_empty());
    assert!(store.view_sources.is_empty());
}

#[test]
fn purging_spares_earlier_generations() {
    let mut store = started();
    append(&mut store, "one", "e1");
    let second = append(&mut store, "two", "e2");
    let old = store.create_view(view("one so far", None, "v1")).unwrap().data;
    let mut next = view("two so far", Some(&old.id), "v2");
    next.source_from_sequence = 2;
    next.source_through_sequence = 2;
    let new = store.create_view(next).unwrap().data;
    let purge = store.purge_event(&second.id, "x1").unwrap().data;
    assert_eq!(purge.dependent_view_ids, [new.id]);
    assert_eq!(store.list_views("user").unwrap(), [old]);
}

#[test]
fn retrieval_lists_every_scope_once() {
    let mut store = started();
    store.create_scope("project", ScopeKind::Project, Some("user"), None, "s2").unwrap();
    store.create_scope("a", ScopeKind::Thread, Some("project"), None, "s3").unwrap();
    store.create_scope("b", ScopeKind::Task, Some("a"), None, "s4").unwrap();
    store.create_scope("other", ScopeKind::Project, Some("user"), None, "s5").unwrap();
    let mut ids = store.retrieval_scope_ids("project").unwrap();
    assert_eq!(ids[..2], ["user", "project"]);
    assert_eq!(ids.len(), 4);
    ids.sort();
    assert_eq!(ids, ["a", "b", "project", "user"]);
}

#[test]
fn identifiers_are_unique_within_their_tables() {
    let mut store = started();
    store.append_event_with(draft("a", Sensitivity::Normal, "e1"), &stamp(&["x"])).unwrap();
    let planned = store
        .plan_observation_with("user", "stream", 100, "fake", "v1", "p1", &stamp(&["x"]))
        .unwrap();
    assert_eq!(planned.data.into_plan().unwrap().run_id, "x");
    refused(
        store.plan_observation_with("user", "stream", 100, "fake", "v1", "p2", &stamp(&["x"])),
        KernelErrorKind::InvalidInput,
        "UNIQUE constraint failed: observation_runs.id",
    );
    let made = store
        .commit_observation_with("x", result("x", "ETH"), "o1", &stamp(&["x", "x", "x"]))
        .unwrap()
        .data;
    assert_eq!(made.continuation_view.id, "x");
    refused(
        store.create_view_with(view("so far", None, "v1"), &stamp(&["x"])),
        KernelErrorKind::InvalidInput,
        "UNIQUE constraint failed: memory_views.id",
    );
    store.confirm_claim("x", "c1").unwrap();
    let before = store.clone();
    refused(
        store.correct_claim_with("x", JsonValue::string("BTC"), &[], "c2", &stamp(&["y", "x"])),
        KernelErrorKind::InvalidInput,
        "UNIQUE constraint failed: claims.id",
    );
    refused(
        store.rescope_claim_with("x", "user", "c3", &stamp(&["y", "x"])),
        KernelErrorKind::InvalidInput,
        "UNIQUE constraint failed: claims.id",
    );
    refused(
        store.confirm_claim_with("x", "c4", &stamp(&["x"])),
        KernelErrorKind::InvalidInput,
        "claim must be pending or disputed to confirm",
    );
    assert_eq!(store, before);
}

#[test]
fn commits_need_new_identifiers() {
    let mut store = started();
    append(&mut store, "one", "e1");
    let run = plan(&mut store, "p1");
    let event = run.events[0].id.clone();
    store
        .commit_observation_with(&run.run_id, result(&event, "ETH"), "o1", &stamp(&["o", "c", "v"]))
        .unwrap();
    append(&mut store, "two", "e2");
    let run = plan(&mut store, "p2");
    let event = run.events[0].id.clone();
    let before = store.clone();
    for (ids, message) in [
        (["o", "d", "w"], "UNIQUE constraint failed: observations.id"),
        (["p", "c", "w"], "UNIQUE constraint failed: claims.id"),
        (["p", "d", "v"], "UNIQUE constraint failed: memory_views.id"),
    ] {
        refused(
            store.commit_observation_with(&run.run_id, result(&event, "BTC"), "o2", &stamp(&ids)),
            KernelErrorKind::InvalidInput,
            message,
        );
    }
    assert_eq!(store, before);
    let nothing = ObserverResult {
        observations: vec![],
        claims: vec![],
        continuation: ContinuationDraft::default(),
        ambiguities: vec![],
        empty_reason: Some("nothing new".to_owned()),
    };
    let kept = store
        .commit_observation_with(&run.run_id, nothing, "o2", &stamp(&["v"]))
        .unwrap()
        .data;
    assert_eq!(kept.continuation_action, ContinuationAction::Preserved);
}

#[test]
fn runs_of_all_scopes_are_listed_by_age() {
    let mut store = started();
    store.create_scope("other", ScopeKind::Project, None, None, "s2").unwrap();
    append(&mut store, "one", "e1");
    let mut event = draft("two", Sensitivity::Normal, "e2");
    event.scope_id = "other".to_owned();
    event.stream_id = "elsewhere".to_owned();
    store.append_event(event).unwrap();
    for (scope, stream, id, at) in [
        ("user", "stream", "a", "2024-01-03T00:00:00Z"),
        ("other", "elsewhere", "b", "2024-01-02T00:00:00Z"),
        ("user", "stream", "c", "2024-01-01T00:00:00Z"),
    ] {
        let stamp = Stamp { ids: vec![id.to_owned()], at: at.to_owned() };
        store.plan_observation_with(scope, stream, 100, "fake", "v1", id, &stamp).unwrap();
    }
    let ids = |stream: Option<&str>, status: Option<&str>| -> Vec<String> {
        let runs = store.list_all_observation_runs(stream, status).unwrap();
        runs.into_iter().map(|run| run.id).collect()
    };
    assert_eq!(ids(None, None), ["c", "b", "a"]);
    assert_eq!(ids(Some("stream"), Some("pending")), ["c", "a"]);
    assert!(ids(None, Some("stale")).is_empty());
    refused(
        store.list_all_observation_runs(None, Some("asleep")),
        KernelErrorKind::InvalidInput,
        "invalid observation run status asleep",
    );
}

#[test]
fn purging_after_a_command_leaves_no_command() {
    let mut store = started();
    store.create_scope("project", ScopeKind::Project, Some("user"), None, "s2").unwrap();
    let commands: [fn(&mut MemoryStore) -> Claim; 5] = [
        |store| remember(store, "ETH", "a1").unwrap(),
        |store| {
            let made = store.propose_claim(
                "user",
                ClaimKind::Goal,
                "quote \"me\"",
                "date",
                JsonValue::string("May"),
                &[],
                "b1",
            );
            store.confirm_claim(&made.unwrap().data.id, "b2").unwrap().data
        },
        |store| {
            let made = remember(store, "ETH", "c1").unwrap();
            store.correct_claim(&made.id, JsonValue::string("BTC"), &[], "c2").unwrap().data
        },
        |store| {
            let made = remember(store, "SOL", "d1").unwrap();
            store.rescope_claim(&made.id, "user", "d2").unwrap().data
        },
        |store| {
            let made = remember(store, "ADA", "e1").unwrap();
            store.forget_claim(&made.id, "e2").unwrap().data
        },
    ];
    for (number, command) in commands.into_iter().enumerate() {
        let claim = command(&mut store);
        let recorded = store.events.last().unwrap().clone();
        assert_eq!(recorded.kind, EventKind::MemoryCommand);
        assert_eq!(
            recorded.metadata.text_field("ownerClaimId").as_deref(),
            Some(claim.id.as_str())
        );
        store.purge_claim(&claim.id, &format!("purge-{number}")).unwrap();
        assert!(store.events.iter().all(|event| event.id != recorded.id));
        assert!(store.claims.iter().all(|other| other.id != claim.id));
    }
}

#[test]
fn commit_requests_are_hashed_with_their_scores() {
    let mut store = started();
    append(&mut store, "ETH it is", "e1");
    let run = plan(&mut store, "p1");
    let event = run.events[0].id.clone();
    commit(&mut store, &run, "ETH", "o1");
    let request = format!(
        "[\"{}\",{{\"observations\":[{{\"kind\":\"decision\",\"content\":\"the asset is ETH\",\
         \"importance\":0.5,\"confidence\":1.0,\"sourceEventIds\":[\"{event}\"],\
         \"eventTimeFrom\":null,\"eventTimeTo\":null}}],\
         \"claims\":[{{\"kind\":\"decision\",\"subject\":\"launch\",\"predicate\":\"asset\",\
         \"cardinality\":\"single\",\"value\":\"ETH\",\"modality\":\"explicit-assertion\",\
         \"confidence\":1.0,\"sourceEventIds\":[\"{event}\"]}}],\
         \"continuation\":{{\"currentTask\":\"launch\",\"completed\":[],\"blockers\":[],\
         \"nextActions\":[],\"unresolvedQuestions\":[]}},\"ambiguities\":[],\"emptyReason\":null}}]",
        run.run_id
    );
    let row = store.operations.iter().find(|row| row.key == "o1").unwrap();
    assert_eq!(
        row.request_hash.as_deref(),
        Some(omk::digest::operation_request_hash("observation.commit", &request).as_str())
    );
}
