//! Context bundles: the memory that is handed to an agent, within a token budget.

use vstd::prelude::*;

use crate::budget::{
    kept, keep_packed, tallied, verdicts, Offer, OfferModel, Tally, TallyModel, Verdict,
};
use crate::claim_table::claims_in;
use crate::error::{failure, invalid, seen, violation, ErrorModel, KernelError, KernelErrorKind};
use crate::event::{no_stream, no_stream_error, redact_for_agent, redacted, stream_at, StreamNamed};
use crate::graph::{holds_node, reachable, reaches};
use crate::kind::{ClaimStatus, ViewKind};
use crate::model::{
    Claim, ClaimModel, ContextBundle, ContextBundleModel, ContextDiagnostics,
    ContextDiagnosticsModel, ContinuationDraft, ContinuationDraftModel, MemoryEvent,
    MemoryEventModel, MemoryView, Observation, ObservationModel, OmittedItem, OmittedItemModel,
    ReadAccess, ReadAccessModel, SearchHit, SearchHitModel,
};
use crate::observation::{
    claims_by_scope, cost, cost_of, events_after, redacted_event, scope_position, sort_claims_by_scope,
};
use crate::order::{ordered, sort_rows, KeyModel, OrderKey, RowKey};
use crate::recall::{all_evidence, hit_readable, up_to};
use crate::row::{
    Edge, EdgeModel, Link, LinkModel, MemoryStore, MemoryStoreModel, Node, NodeModel, ViewRow,
    ViewRowModel,
};
use crate::scope::visible_scopes;
use crate::table::{append_rows, find_row, push_row, select_rows, Duplicate, RowTest};
use crate::text::{
    concat3, concat4, concat5, decimal, estimate_tokens, is_listed, listed, number_text, same_text,
    token_estimate, Text,
};
use crate::view::{latest_view, view_part};

verus! {

/// What a claim costs in a context.
pub open spec fn claim_cost(claim: ClaimModel) -> int {
    token_estimate(claim.subject + " "@ + claim.predicate + " "@ + claim.value)
}

/// What some claims cost together.
pub open spec fn claims_cost(claims: Seq<ClaimModel>) -> int
    decreases claims.len(),
{
    if claims.len() == 0 {
        0
    } else {
        claims_cost(claims.drop_last()) + claim_cost(claims.last())
    }
}

pub open spec fn claim_offer() -> spec_fn(ClaimModel) -> OfferModel {
    |claim: ClaimModel| OfferModel { cost: claim_cost(claim), settled: None }
}

pub open spec fn claim_name() -> spec_fn(ClaimModel) -> Text {
    |claim: ClaimModel| claim.id
}

pub open spec fn view_offer() -> spec_fn(ViewRowModel) -> OfferModel {
    |row: ViewRowModel| OfferModel { cost: cost(row.view.token_count), settled: None }
}

pub open spec fn view_name() -> spec_fn(ViewRowModel) -> Text {
    |row: ViewRowModel| row.view.id
}

/// The latest generation of a stream's view, as a list of at most one.
pub open spec fn latest_views(
    store: MemoryStoreModel,
    stream_id: Text,
    kind: ViewKind,
) -> Seq<ViewRowModel> {
    match latest_view(store, stream_id, kind) {
        Some(row) => seq![row],
        None => Seq::empty(),
    }
}

/// The undecided claims of the visible scopes, those of the outer scopes first.
pub open spec fn pending_claims(store: MemoryStoreModel, visible: Seq<Text>) -> Seq<ClaimModel> {
    ordered(
        claims_in(store, visible, Some(ClaimStatus::Pending)) + claims_in(
            store,
            visible,
            Some(ClaimStatus::Disputed),
        ),
        scope_position(visible),
    )
}

/// Where the recent events start: going back from position `from`, as many as the budget allows.
pub open spec fn tail_start(events: Seq<MemoryEventModel>, from: int, spent: int, budget: int) -> int
    decreases from,
{
    if from <= 0 {
        0
    } else {
        let next = spent + cost(redacted(events[from - 1]).token_count);
        if next > budget {
            from
        } else {
            tail_start(events, from - 1, next, budget)
        }
    }
}

/// What the recent events cost.
pub open spec fn tail_cost(events: Seq<MemoryEventModel>, from: int, spent: int, budget: int) -> int
    decreases from,
{
    if from <= 0 {
        spent
    } else {
        let next = spent + cost(redacted(events[from - 1]).token_count);
        if next > budget {
            spent
        } else {
            tail_cost(events, from - 1, next, budget)
        }
    }
}

/// The recent events of a stream, redacted.
pub open spec fn recent_tail(events: Seq<MemoryEventModel>, budget: int) -> Seq<MemoryEventModel> {
    events.skip(tail_start(events, events.len() as int, 0, budget)).map_values(redacted_event())
}

/// The tally after the recent events: the first event that is too much is reported.
pub open spec fn tail_tallied(
    tally: TallyModel,
    events: Seq<MemoryEventModel>,
    budget: int,
) -> TallyModel {
    let start = tail_start(events, events.len() as int, 0, budget);
    TallyModel {
        used: tally.used + tail_cost(events, events.len() as int, 0, budget),
        omitted: if start > 0 {
            tally.omitted.push(
                OmittedItemModel {
                    id: events[start - 1].id,
                    reason: "outside recent raw token budget"@,
                },
            )
        } else {
            tally.omitted
        },
    }
}

/// How many tokens the recent events may take.
pub open spec fn raw_budget(recent_raw_tokens: int, max_tokens: int, used: int) -> int {
    if recent_raw_tokens < max_tokens - used {
        recent_raw_tokens
    } else {
        max_tokens - used
    }
}

pub open spec fn event_name() -> spec_fn(MemoryEventModel) -> Text {
    |event: MemoryEventModel| event.id
}

/// The scopes whose observations a context may hold: the visible ones and that of the stream.
pub open spec fn observation_scopes(visible: Seq<Text>, stream_scope: Text) -> Seq<Text> {
    if listed(visible, stream_scope) {
        visible
    } else {
        visible.push(stream_scope)
    }
}

pub open spec fn observation_in(scope_ids: Seq<Text>) -> spec_fn(ObservationModel) -> bool {
    |observation: ObservationModel| listed(scope_ids, observation.scope_id)
}

pub open spec fn observation_age() -> spec_fn(ObservationModel) -> KeyModel {
    |observation: ObservationModel|
        KeyModel { major: 0, first: observation.created_at, second: observation.id, minor: 0 }
}

/// The most important observations first, and the older ones first among equals.
pub open spec fn observation_rank() -> spec_fn(ObservationModel) -> KeyModel {
    |observation: ObservationModel|
        KeyModel {
            major: observation.importance.descending(),
            first: observation.created_at,
            second: Seq::empty(),
            minor: 0,
        }
}

pub open spec fn observation_time() -> spec_fn(ObservationModel) -> KeyModel {
    |observation: ObservationModel|
        KeyModel { major: 0, first: observation.created_at, second: Seq::empty(), minor: 0 }
}

/// The observations that a context may hold, in the order in which they are offered.
pub open spec fn candidates(store: MemoryStoreModel, scope_ids: Seq<Text>) -> Seq<ObservationModel> {
    ordered(
        ordered(store.observations.filter(observation_in(scope_ids)), observation_age()),
        observation_rank(),
    )
}

/// The edges from each view to the generation before it.
pub open spec fn view_back_edges(views: Seq<ViewRowModel>) -> Seq<EdgeModel>
    decreases views.len(),
{
    if views.len() == 0 {
        Seq::empty()
    } else {
        let front = view_back_edges(views.drop_last());
        match views.last().view.previous_view_id {
            Some(previous) => front.push(
                EdgeModel {
                    from: NodeModel { claim: false, id: views.last().view.id },
                    to: NodeModel { claim: false, id: previous },
                },
            ),
            None => front,
        }
    }
}

pub open spec fn view_root() -> spec_fn(ViewRowModel) -> NodeModel {
    |row: ViewRowModel| NodeModel { claim: false, id: row.view.id }
}

/// The given views and all generations before them.
pub open spec fn view_chain(views: Seq<ViewRowModel>, shown: Seq<ViewRowModel>) -> Set<NodeModel> {
    Set::new(
        |node: NodeModel| reaches(view_back_edges(views), shown.map_values(view_root()), node),
    )
}

/// Whether an observation is represented by some views.
pub open spec fn represented(links: Seq<LinkModel>, chain: Set<NodeModel>, id: Text) -> bool {
    exists|i: int|
        0 <= i < links.len() && (#[trigger] links[i]).source_id == id && chain.contains(
            NodeModel { claim: false, id: links[i].holder_id },
        )
}

/// Whether all that an observation rests on is among some events.
pub open spec fn duplicated(links: Seq<LinkModel>, id: Text, recent_ids: Seq<Text>) -> bool {
    &&& exists|i: int| 0 <= i < links.len() && (#[trigger] links[i]).holder_id == id
    &&& forall|i: int|
        0 <= i < links.len() && (#[trigger] links[i]).holder_id == id ==> listed(
            recent_ids,
            links[i].source_id,
        )
}

pub open spec fn observation_offer(
    store: MemoryStoreModel,
    recent_ids: Seq<Text>,
    chain: Set<NodeModel>,
) -> spec_fn(ObservationModel) -> OfferModel {
    |observation: ObservationModel|
        OfferModel {
            cost: token_estimate(observation.content),
            settled: if duplicated(store.observation_sources, observation.id, recent_ids) {
                Some(Verdict::InRawTail)
            } else if represented(store.view_sources, chain, observation.id) {
                Some(Verdict::InView)
            } else {
                None
            },
        }
}

pub open spec fn observation_name() -> spec_fn(ObservationModel) -> Text {
    |observation: ObservationModel| observation.id
}

/// The offers of recalled evidence: what was recalled before or is recent is not shown again.
pub open spec fn evidence_offers(events: Seq<MemoryEventModel>, recent_ids: Seq<Text>) -> Seq<
    OfferModel,
> {
    Seq::new(
        events.len(),
        |i: int|
            OfferModel {
                cost: cost(events[i].token_count),
                settled: if listed(events.take(i).map_values(event_name()), events[i].id) || listed(
                    recent_ids,
                    events[i].id,
                ) {
                    Some(Verdict::Repeated)
                } else {
                    None
                },
            },
    )
}

pub open spec fn budget_too_small(required_tokens: int) -> ErrorModel {
    failure(
        KernelErrorKind::BudgetExceeded,
        "context budget too small: minimumRequiredTokens="@ + decimal(required_tokens)
            + " for active claims"@,
    )
}

/// The error for a stream that cannot be seen from a scope, if it cannot.
pub open spec fn stream_refusal(
    store: MemoryStoreModel,
    scope_id: Text,
    visible: Seq<Text>,
    stream_id: Text,
) -> Option<ErrorModel> {
    match stream_at(store, stream_id) {
        None => Some(no_stream(stream_id)),
        Some(stream) => if listed(visible, stream.scope_id) {
            None
        } else {
            match visible_scopes(store, stream.scope_id) {
                Err(error) => Some(error),
                Ok(above) => if listed(above, scope_id) {
                    None
                } else {
                    Some(
                        violation(
                            "stream "@ + stream_id + " is not visible from scope "@ + scope_id,
                        ),
                    )
                },
            }
        },
    }
}

/// The draft that a continuation view writes out, of the views that were kept.
pub open spec fn kept_continuation(rows: Seq<ViewRowModel>) -> Option<ContinuationDraftModel> {
    if rows.len() == 0 {
        None
    } else {
        rows[0].continuation
    }
}

/// The bundle that is composed of given parts.
pub open spec fn composed(
    store: MemoryStoreModel,
    visible: Seq<Text>,
    stream_scope: Text,
    stream_id: Text,
    max_tokens: int,
    recent_raw_tokens: int,
    recalled: Seq<MemoryEventModel>,
) -> ContextBundleModel {
    let claims = claims_by_scope(store, visible, ClaimStatus::Active);
    let start = TallyModel { used: claims_cost(claims), omitted: Seq::empty() };
    let continuations = latest_views(store, stream_id, ViewKind::Continuation);
    let continuation_offers = continuations.map_values(view_offer());
    let kept_continuations = kept(
        continuations,
        verdicts(continuation_offers, start.used, max_tokens),
    );
    let continued = tallied(
        start,
        continuations.map_values(view_name()),
        continuation_offers,
        max_tokens,
    );
    let pending = pending_claims(store, visible);
    let pending_offers = pending.map_values(claim_offer());
    let waiting = tallied(
        continued,
        pending.map_values(claim_name()),
        pending_offers,
        max_tokens,
    );
    let events = events_after(store, stream_id, 0);
    let tail_budget = raw_budget(recent_raw_tokens, max_tokens, waiting.used);
    let recent = recent_tail(events, tail_budget);
    let recent_ids = recent.map_values(event_name());
    let tailed = tail_tallied(waiting, events, tail_budget);
    let continuities = latest_views(store, stream_id, ViewKind::Continuity);
    let continuity_offers = continuities.map_values(view_offer());
    let kept_continuities = kept(
        continuities,
        verdicts(continuity_offers, tailed.used, max_tokens),
    );
    let viewed = tallied(
        tailed,
        continuities.map_values(view_name()),
        continuity_offers,
        max_tokens,
    );
    let found = candidates(store, observation_scopes(visible, stream_scope));
    let offers = found.map_values(
        observation_offer(store, recent_ids, view_chain(store.views, kept_continuities)),
    );
    let observed = tallied(viewed, found.map_values(observation_name()), offers, max_tokens);
    let evidence = evidence_offers(recalled, recent_ids);
    let done = tallied(observed, recalled.map_values(event_name()), evidence, max_tokens);
    ContextBundleModel {
        claims,
        pending_claims: kept(pending, verdicts(pending_offers, continued.used, max_tokens)),
        continuation: kept_continuation(kept_continuations),
        continuity_views: (kept_continuations + kept_continuities).map_values(view_part()),
        observations: ordered(
            kept(found, verdicts(offers, viewed.used, max_tokens)),
            observation_time(),
        ),
        recent_events: recent,
        recalled_evidence: kept(recalled, verdicts(evidence, observed.used, max_tokens)),
        diagnostics: ContextDiagnosticsModel {
            estimated_tokens: done.used as i64,
            omitted_items: done.omitted,
        },
    }
}

/// What composing a context answers. Active claims are all of them in it, or it is refused; the
/// rest is offered in the order of continuation, undecided claims, recent events, continuity view,
/// observations and recalled evidence, as far as the budget goes.
pub open spec fn compose(
    store: MemoryStoreModel,
    scope_id: Text,
    stream_id: Text,
    max_tokens: int,
    recent_raw_tokens: int,
    ranked: Seq<SearchHitModel>,
) -> Result<ContextBundleModel, ErrorModel> {
    let access = ReadAccessModel { anchor_scope_id: scope_id, reveal_secrets: false };
    if max_tokens <= 0 {
        Err(invalid("max tokens must be positive"@))
    } else if recent_raw_tokens < 0 {
        Err(invalid("recent raw tokens cannot be negative"@))
    } else {
        match visible_scopes(store, scope_id) {
            Err(error) => Err(error),
            Ok(visible) => {
                let required_tokens = claims_cost(
                    claims_by_scope(store, visible, ClaimStatus::Active),
                );
                let hits = up_to(ranked.filter(hit_readable(store, scope_id)), 10);
                if let Some(error) = stream_refusal(store, scope_id, visible, stream_id) {
                    Err(error)
                } else if required_tokens > max_tokens {
                    Err(budget_too_small(required_tokens))
                } else {
                    match all_evidence(store, access, hits) {
                        Err(error) => Err(error),
                        Ok(recalled) => Ok(
                            composed(
                                store,
                                visible,
                                stream_at(store, stream_id).unwrap().scope_id,
                                stream_id,
                                max_tokens,
                                recent_raw_tokens,
                                recalled,
                            ),
                        ),
                    }
                }
            },
        }
    }
}

pub fn estimate_claim_tokens(claim: &Claim) -> (tokens: i64)
    ensures
        tokens == claim_cost(claim@),
        1 <= tokens <= 0x4000_0000_0000_0000,
{
    estimate_tokens(
        concat5(
            claim.subject.as_str(),
            " ",
            claim.predicate.as_str(),
            " ",
            claim.value.text(),
        ).as_str(),
    )
}

fn total_claim_tokens(claims: &Vec<Claim>) -> (total: i128)
    ensures
        total == claims_cost(claims.deep_view()),
        total >= 0,
        total < i128::MAX,
{
    let ghost all = claims.deep_view();
    let mut total: i128 = 0;
    let mut i: usize = 0;
    proof {
        assert(all.take(0) =~= Seq::empty());
    }
    while i < claims.len()
        invariant
            i <= claims.len(),
            all == claims.deep_view(),
            total == claims_cost(all.take(i as int)),
            0 <= total <= i * 0x4000_0000_0000_0000,
        decreases claims.len() - i,
    {
        proof {
            assert(all.take(i + 1).drop_last() =~= all.take(i as int));
            assert(all.take(i + 1).last() == claims[i as int]@);
        }
        total = total + estimate_claim_tokens(&claims[i]) as i128;
        i = i + 1;
    }
    proof {
        assert(all.take(all.len() as int) =~= all);
    }
    total
}

fn offer_claims(claims: &Vec<Claim>) -> (r: (Vec<String>, Vec<Offer>))
    ensures
        r.0.deep_view() == claims.deep_view().map_values(claim_name()),
        r.1.deep_view() == claims.deep_view().map_values(claim_offer()),
        r.0.len() == claims.len(),
        r.1.len() == claims.len(),
        forall|i: int| 0 <= i < r.1.len() ==> (#[trigger] r.1[i]).cost >= 0,
{
    let mut ids: Vec<String> = Vec::new();
    let mut offers: Vec<Offer> = Vec::new();
    let mut i: usize = 0;
    while i < claims.len()
        invariant
            i <= claims.len(),
            ids.len() == i,
            offers.len() == i,
            forall|k: int| 0 <= k < i ==> (#[trigger] ids[k])@ == claims[k].id@,
            forall|k: int|
                0 <= k < i ==> (#[trigger] offers[k]).deep_view() == (claim_offer())(claims[k]@)
                    && offers[k].cost >= 0,
        decreases claims.len() - i,
    {
        ids.push(claims[i].id.clone());
        offers.push(Offer { cost: estimate_claim_tokens(&claims[i]), settled: None });
        i = i + 1;
    }
    proof {
        assert(ids.deep_view() =~= claims.deep_view().map_values(claim_name()));
        assert(offers.deep_view() =~= claims.deep_view().map_values(claim_offer()));
    }
    (ids, offers)
}

fn offer_views(rows: &Vec<ViewRow>) -> (r: (Vec<String>, Vec<Offer>))
    ensures
        r.0.deep_view() == rows.deep_view().map_values(view_name()),
        r.1.deep_view() == rows.deep_view().map_values(view_offer()),
        r.0.len() == rows.len(),
        r.1.len() == rows.len(),
        forall|i: int| 0 <= i < r.1.len() ==> (#[trigger] r.1[i]).cost >= 0,
{
    let mut ids: Vec<String> = Vec::new();
    let mut offers: Vec<Offer> = Vec::new();
    let mut i: usize = 0;
    while i < rows.len()
        invariant
            i <= rows.len(),
            ids.len() == i,
            offers.len() == i,
            forall|k: int| 0 <= k < i ==> (#[trigger] ids[k])@ == rows[k].view.id@,
            forall|k: int|
                0 <= k < i ==> (#[trigger] offers[k]).deep_view() == (view_offer())(rows[k]@)
                    && offers[k].cost >= 0,
        decreases rows.len() - i,
    {
        ids.push(rows[i].view.id.clone());
        offers.push(Offer { cost: cost_of(rows[i].view.token_count), settled: None });
        i = i + 1;
    }
    proof {
        assert(ids.deep_view() =~= rows.deep_view().map_values(view_name()));
        assert(offers.deep_view() =~= rows.deep_view().map_values(view_offer()));
    }
    (ids, offers)
}

fn event_ids(events: &Vec<MemoryEvent>) -> (ids: Vec<String>)
    ensures
        ids.deep_view() == events.deep_view().map_values(event_name()),
        ids.len() == events.len(),
{
    let mut ids: Vec<String> = Vec::new();
    let mut i: usize = 0;
    while i < events.len()
        invariant
            i <= events.len(),
            ids.len() == i,
            forall|k: int| 0 <= k < i ==> (#[trigger] ids[k])@ == events[k].id@,
        decreases events.len() - i,
    {
        ids.push(events[i].id.clone());
        i = i + 1;
    }
    proof {
        assert(ids.deep_view() =~= events.deep_view().map_values(event_name()));
    }
    ids
}

fn offer_evidence(events: &Vec<MemoryEvent>, recent_ids: &Vec<String>) -> (offers: Vec<Offer>)
    ensures
        offers.deep_view() == evidence_offers(events.deep_view(), recent_ids.deep_view()),
        offers.len() == events.len(),
        forall|i: int| 0 <= i < offers.len() ==> (#[trigger] offers[i]).cost >= 0,
{
    let ghost all = events.deep_view();
    let ghost wanted = evidence_offers(all, recent_ids.deep_view());
    let mut passed: Vec<String> = Vec::new();
    let mut offers: Vec<Offer> = Vec::new();
    let mut i: usize = 0;
    proof {
        assert(passed.deep_view() =~= all.take(0).map_values(event_name()));
    }
    while i < events.len()
        invariant
            i <= events.len(),
            all == events.deep_view(),
            wanted == evidence_offers(all, recent_ids.deep_view()),
            passed.deep_view() == all.take(i as int).map_values(event_name()),
            offers.len() == i,
            forall|k: int|
                0 <= k < i ==> (#[trigger] offers[k]).deep_view() == wanted[k] && offers[k].cost
                    >= 0,
        decreases events.len() - i,
    {
        let id: &str = events[i].id.as_str();
        proof {
            assert(all[i as int] == events[i as int]@);
        }
        let settled: Option<Verdict> = if is_listed(&passed, id) || is_listed(recent_ids, id) {
            Some(Verdict::Repeated)
        } else {
            None
        };
        offers.push(Offer { cost: cost_of(events[i].token_count), settled });
        push_row(&mut passed, events[i].id.clone());
        proof {
            assert(passed.deep_view() =~= all.take(i + 1).map_values(event_name()));
        }
        i = i + 1;
    }
    proof {
        assert(offers.deep_view() =~= wanted);
    }
    offers
}

pub struct ObservationIn<'a> {
    pub scope_ids: &'a Vec<String>,
}

impl<'a> RowTest<Observation> for ObservationIn<'a> {
    open spec fn accepts(&self) -> spec_fn(ObservationModel) -> bool {
        observation_in(self.scope_ids.deep_view())
    }

    fn test(&self, row: &Observation) -> (b: bool) {
        is_listed(self.scope_ids, row.scope_id.as_str())
    }
}

pub struct ObservationAge {}

impl RowKey<Observation> for ObservationAge {
    open spec fn key(&self) -> spec_fn(ObservationModel) -> KeyModel {
        observation_age()
    }

    fn key_of(&self, row: &Observation) -> (key: OrderKey) {
        OrderKey { major: 0, first: row.created_at.clone(), second: row.id.clone(), minor: 0 }
    }
}

pub struct ObservationRank {}

impl RowKey<Observation> for ObservationRank {
    open spec fn key(&self) -> spec_fn(ObservationModel) -> KeyModel {
        observation_rank()
    }

    fn key_of(&self, row: &Observation) -> (key: OrderKey) {
        let second: String = String::new();
        proof {
            assert(second@ =~= Seq::empty());
        }
        OrderKey {
            major: row.importance.descending_key() as i128,
            first: row.created_at.clone(),
            second,
            minor: 0,
        }
    }
}

pub struct ObservationTime {}

impl RowKey<Observation> for ObservationTime {
    open spec fn key(&self) -> spec_fn(ObservationModel) -> KeyModel {
        observation_time()
    }

    fn key_of(&self, row: &Observation) -> (key: OrderKey) {
        let second: String = String::new();
        proof {
            assert(second@ =~= Seq::empty());
        }
        OrderKey { major: 0, first: row.created_at.clone(), second, minor: 0 }
    }
}

fn is_represented(links: &Vec<Link>, chain: &Vec<Node>, id: &str) -> (b: bool)
    ensures
        b == represented(links.deep_view(), chain.deep_view().to_set(), id@),
{
    let ghost all = links.deep_view();
    let ghost nodes = chain.deep_view().to_set();
    let mut i: usize = 0;
    while i < links.len()
        invariant
            i <= links.len(),
            all == links.deep_view(),
            nodes == chain.deep_view().to_set(),
            forall|k: int|
                0 <= k < i ==> !((#[trigger] all[k]).source_id == id@ && nodes.contains(
                    NodeModel { claim: false, id: all[k].holder_id },
                )),
        decreases links.len() - i,
    {
        proof {
            assert(all[i as int] == links[i as int]@);
        }
        if same_text(links[i].source_id.as_str(), id) && holds_node(
            chain,
            &Node { claim: false, id: links[i].holder_id.clone() },
        ) {
            return true;
        }
        i = i + 1;
    }
    false
}

fn is_duplicated(links: &Vec<Link>, id: &str, recent_ids: &Vec<String>) -> (b: bool)
    ensures
        b == duplicated(links.deep_view(), id@, recent_ids.deep_view()),
{
    let ghost all = links.deep_view();
    let mut sourced: bool = false;
    let mut i: usize = 0;
    while i < links.len()
        invariant
            i <= links.len(),
            all == links.deep_view(),
            sourced == exists|k: int| 0 <= k < i && (#[trigger] all[k]).holder_id == id@,
            forall|k: int|
                0 <= k < i && (#[trigger] all[k]).holder_id == id@ ==> listed(
                    recent_ids.deep_view(),
                    all[k].source_id,
                ),
        decreases links.len() - i,
    {
        proof {
            assert(all[i as int] == links[i as int]@);
        }
        if same_text(links[i].holder_id.as_str(), id) {
            if !is_listed(recent_ids, links[i].source_id.as_str()) {
                return false;
            }
            sourced = true;
        }
        i = i + 1;
    }
    sourced
}

fn take_recent(events: &Vec<MemoryEvent>, budget: i64, tally: &mut Tally) -> (recent: Vec<MemoryEvent>)
    requires
        budget >= 0,
        old(tally).used >= 0,
        old(tally).used + budget <= i64::MAX,
    ensures
        recent.deep_view() == recent_tail(events.deep_view(), budget as int),
        final(tally)@ == tail_tallied(old(tally)@, events.deep_view(), budget as int),
        old(tally).used <= final(tally).used <= old(tally).used + budget,
{
    let ghost all = events.deep_view();
    let ghost limit = budget as int;
    let mut start: usize = events.len();
    let mut spent: i64 = 0;
    let mut full: bool = false;
    while start > 0 && !full
        invariant
            start <= events.len(),
            all == events.deep_view(),
            limit == budget as int,
            0 <= spent <= budget,
            !full ==> tail_start(all, all.len() as int, 0, limit) == tail_start(
                all,
                start as int,
                spent as int,
                limit,
            ),
            !full ==> tail_cost(all, all.len() as int, 0, limit) == tail_cost(
                all,
                start as int,
                spent as int,
                limit,
            ),
            full ==> start > 0 && tail_start(all, all.len() as int, 0, limit) == start,
            full ==> tail_cost(all, all.len() as int, 0, limit) == spent,
        decreases start, if full { 0int } else { 1int },
    {
        proof {
            assert(all[start - 1] == events[start - 1]@);
        }
        let safe: MemoryEvent = redact_for_agent(events[start - 1].duplicate());
        let tokens: i64 = cost_of(safe.token_count);
        if tokens > budget - spent {
            full = true;
        } else {
            spent = spent + tokens;
            start = start - 1;
        }
    }
    if full {
        let item = OmittedItem {
            id: events[start - 1].id.clone(),
            reason: "outside recent raw token budget".to_owned(),
        };
        proof {
            assert(all[start - 1] == events[start - 1]@);
        }
        push_row(&mut tally.omitted, item);
    }
    tally.used = tally.used + spent;
    let mut recent: Vec<MemoryEvent> = Vec::new();
    let mut i: usize = start;
    while i < events.len()
        invariant
            start <= i <= events.len(),
            recent.len() == i - start,
            forall|k: int|
                0 <= k < recent.len() ==> (#[trigger] recent[k])@ == redacted(events[start + k]@),
        decreases events.len() - i,
    {
        recent.push(redact_for_agent(events[i].duplicate()));
        i = i + 1;
    }
    proof {
        assert(recent.deep_view() =~= all.skip(start as int).map_values(redacted_event()));
    }
    recent
}

fn view_parts(rows: &Vec<ViewRow>) -> (views: Vec<MemoryView>)
    ensures
        views.deep_view() == rows.deep_view().map_values(view_part()),
{
    let mut views: Vec<MemoryView> = Vec::new();
    let mut i: usize = 0;
    while i < rows.len()
        invariant
            i <= rows.len(),
            views.len() == i,
            forall|k: int| 0 <= k < i ==> (#[trigger] views[k])@ == rows[k]@.view,
        decreases rows.len() - i,
    {
        views.push(rows[i].view.duplicate());
        i = i + 1;
    }
    proof {
        assert(views.deep_view() =~= rows.deep_view().map_values(view_part()));
    }
    views
}

impl MemoryStore {
    fn latest_view_rows(&self, stream_id: &str, kind: ViewKind) -> (rows: Vec<ViewRow>)
        ensures
            rows.deep_view() == latest_views(self@, stream_id@, kind),
    {
        let mut rows: Vec<ViewRow> = Vec::new();
        match self.latest_view(stream_id, kind) {
            Some(row) => {
                let ghost only = row@;
                rows.push(row);
                proof {
                    assert(rows.deep_view() =~= seq![only]);
                }
            },
            None => {
                proof {
                    assert(rows.deep_view() =~= Seq::empty());
                }
            },
        }
        rows
    }

    /// The given views and all generations before them.
    fn chain_of(&self, shown: &Vec<ViewRow>) -> (chain: Vec<Node>)
        ensures
            chain.deep_view().to_set() == view_chain(self@.views, shown.deep_view()),
    {
        let ghost views = self@.views;
        let mut edges: Vec<Edge> = Vec::new();
        let mut i: usize = 0;
        proof {
            assert(edges.deep_view() =~= view_back_edges(views.take(0)));
        }
        while i < self.views.len()
            invariant
                i <= self.views.len(),
                views == self@.views,
                edges.deep_view() == view_back_edges(views.take(i as int)),
            decreases self.views.len() - i,
        {
            proof {
                let next = views.take(i + 1);
                assert(next.drop_last() =~= views.take(i as int));
                assert(next.last() == self.views[i as int]@);
            }
            if let Some(previous) = &self.views[i].view.previous_view_id {
                let edge = Edge {
                    from: Node { claim: false, id: self.views[i].view.id.clone() },
                    to: Node { claim: false, id: previous.clone() },
                };
                push_row(&mut edges, edge);
            }
            i = i + 1;
        }
        let mut roots: Vec<Node> = Vec::new();
        let mut i: usize = 0;
        while i < shown.len()
            invariant
                i <= shown.len(),
                roots.len() == i,
                forall|k: int|
                    0 <= k < i ==> (#[trigger] roots[k])@ == (view_root())(shown[k]@),
            decreases shown.len() - i,
        {
            roots.push(Node { claim: false, id: shown[i].view.id.clone() });
            i = i + 1;
        }
        proof {
            assert(views.take(views.len() as int) =~= views);
            assert(roots.deep_view() =~= shown.deep_view().map_values(view_root()));
        }
        let chain: Vec<Node> = reachable(&edges, &roots);
        proof {
            let found = chain.deep_view().to_set();
            let wanted = view_chain(views, shown.deep_view());
            assert forall|node: NodeModel| found.contains(node) <==> wanted.contains(node) by {
                assert(chain.deep_view().contains(node) <==> wanted.contains(node));
            }
            assert(found =~= wanted);
        }
        chain
    }

    fn offer_observations(
        &self,
        found: &Vec<Observation>,
        recent_ids: &Vec<String>,
        chain: &Vec<Node>,
    ) -> (r: (Vec<String>, Vec<Offer>))
        ensures
            r.0.deep_view() == found.deep_view().map_values(observation_name()),
            r.1.deep_view() == found.deep_view().map_values(
                observation_offer(self@, recent_ids.deep_view(), chain.deep_view().to_set()),
            ),
            r.0.len() == found.len(),
            r.1.len() == found.len(),
            forall|i: int| 0 <= i < r.1.len() ==> (#[trigger] r.1[i]).cost >= 0,
    {
        let ghost offer = observation_offer(
            self@,
            recent_ids.deep_view(),
            chain.deep_view().to_set(),
        );
        let mut ids: Vec<String> = Vec::new();
        let mut offers: Vec<Offer> = Vec::new();
        let mut i: usize = 0;
        while i < found.len()
            invariant
                i <= found.len(),
                ids.len() == i,
                offers.len() == i,
                offer == observation_offer(
                    self@,
                    recent_ids.deep_view(),
                    chain.deep_view().to_set(),
                ),
                forall|k: int| 0 <= k < i ==> (#[trigger] ids[k])@ == found[k].id@,
                forall|k: int|
                    0 <= k < i ==> (#[trigger] offers[k]).deep_view() == offer(found[k]@)
                        && offers[k].cost >= 0,
            decreases found.len() - i,
        {
            let id: &str = found[i].id.as_str();
            let settled: Option<Verdict> = if is_duplicated(
                &self.observation_sources,
                id,
                recent_ids,
            ) {
                Some(Verdict::InRawTail)
            } else if is_represented(&self.view_sources, chain, id) {
                Some(Verdict::InView)
            } else {
                None
            };
            ids.push(found[i].id.clone());
            offers.push(Offer { cost: estimate_tokens(found[i].content.as_str()), settled });
            i = i + 1;
        }
        proof {
            assert(ids.deep_view() =~= found.deep_view().map_values(observation_name()));
            assert(offers.deep_view() =~= found.deep_view().map_values(offer));
        }
        (ids, offers)
    }

    fn check_stream(&self, scope_id: &str, visible: &Vec<String>, stream_id: &str) -> (stream_scope: Result<
        String,
        KernelError,
    >)
        ensures
            match stream_scope {
                Ok(stream_scope) => {
                    &&& stream_refusal(self@, scope_id@, visible.deep_view(), stream_id@) is None
                    &&& stream_at(self@, stream_id@) is Some
                    &&& stream_scope@ == stream_at(self@, stream_id@).unwrap().scope_id
                },
                Err(error) => stream_refusal(
                    self@,
                    scope_id@,
                    visible.deep_view(),
                    stream_id@,
                ) == Some(error@),
            },
    {
        let stream_scope: String = match find_row(&self.streams, &StreamNamed { id: stream_id }) {
            Some(i) => self.streams[i].scope_id.clone(),
            None => return Err(no_stream_error(stream_id)),
        };
        if !is_listed(visible, stream_scope.as_str()) {
            match self.scope_is_ancestor(scope_id, stream_scope.as_str()) {
                Err(error) => return Err(error),
                Ok(true) => {},
                Ok(false) => {
                    return Err(
                        KernelError::of(
                            KernelErrorKind::ScopeViolation,
                            concat4("stream ", stream_id, " is not visible from scope ", scope_id),
                        ),
                    );
                },
            }
        }
        Ok(stream_scope)
    }

    /// Composes a bundle of what fits the budget.
    fn compose_bundle(
        &self,
        visible: &Vec<String>,
        claims: Vec<Claim>,
        stream_scope: &str,
        stream_id: &str,
        max_tokens: i64,
        recent_raw_tokens: i64,
        recalled: &Vec<MemoryEvent>,
    ) -> (bundle: ContextBundle)
        requires
            0 < max_tokens,
            0 <= recent_raw_tokens,
            claims.deep_view() == claims_by_scope(self@, visible.deep_view(), ClaimStatus::Active),
            claims_cost(claims.deep_view()) <= max_tokens,
        ensures
            bundle@ == composed(
                self@,
                visible.deep_view(),
                stream_scope@,
                stream_id@,
                max_tokens as int,
                recent_raw_tokens as int,
                recalled.deep_view(),
            ),
    {
        let mut tally = Tally { used: total_claim_tokens(&claims) as i64, omitted: Vec::new() };
        proof {
            assert(tally@.omitted =~= Seq::empty());
        }
        let continuations: Vec<ViewRow> = self.latest_view_rows(stream_id, ViewKind::Continuation);
        let (ids, offers) = offer_views(&continuations);
        let marks: Vec<Verdict> = tally.pack(&ids, &offers, max_tokens);
        let kept_continuations: Vec<ViewRow> = keep_packed(&continuations, &marks);

        let mut waiting: Vec<Claim> = self.query_claims_for_scopes(
            visible,
            Some(ClaimStatus::Pending),
        );
        append_rows(
            &mut waiting,
            self.query_claims_for_scopes(visible, Some(ClaimStatus::Disputed)),
        );
        let waiting: Vec<Claim> = sort_claims_by_scope(&waiting, visible);
        let (ids, offers) = offer_claims(&waiting);
        let marks: Vec<Verdict> = tally.pack(&ids, &offers, max_tokens);
        let pending_claims: Vec<Claim> = keep_packed(&waiting, &marks);

        let left: i64 = max_tokens - tally.used;
        let tail_budget: i64 = if recent_raw_tokens < left {
            recent_raw_tokens
        } else {
            left
        };
        let events: Vec<MemoryEvent> = self.query_events_after(stream_id, 0);
        let recent_events: Vec<MemoryEvent> = take_recent(&events, tail_budget, &mut tally);
        let recent_ids: Vec<String> = event_ids(&recent_events);

        let continuities: Vec<ViewRow> = self.latest_view_rows(stream_id, ViewKind::Continuity);
        let (ids, offers) = offer_views(&continuities);
        let marks: Vec<Verdict> = tally.pack(&ids, &offers, max_tokens);
        let kept_continuities: Vec<ViewRow> = keep_packed(&continuities, &marks);

        let mut scope_ids: Vec<String> = visible.duplicate();
        if !is_listed(visible, stream_scope) {
            push_row(&mut scope_ids, stream_scope.to_owned());
        }
        let by_age: Vec<Observation> = sort_rows(
            &select_rows(&self.observations, &ObservationIn { scope_ids: &scope_ids }),
            &ObservationAge {  },
        );
        let found: Vec<Observation> = sort_rows(&by_age, &ObservationRank {  });
        let chain: Vec<Node> = self.chain_of(&kept_continuities);
        let (ids, offers) = self.offer_observations(&found, &recent_ids, &chain);
        let marks: Vec<Verdict> = tally.pack(&ids, &offers, max_tokens);
        let observations: Vec<Observation> = sort_rows(
            &keep_packed(&found, &marks),
            &ObservationTime {  },
        );

        let ids: Vec<String> = event_ids(recalled);
        let offers: Vec<Offer> = offer_evidence(recalled, &recent_ids);
        let marks: Vec<Verdict> = tally.pack(&ids, &offers, max_tokens);
        let recalled_evidence: Vec<MemoryEvent> = keep_packed(recalled, &marks);

        let continuation: Option<ContinuationDraft> = if kept_continuations.is_empty() {
            None
        } else {
            kept_continuations[0].continuation.duplicate()
        };
        let mut continuity_views: Vec<MemoryView> = view_parts(&kept_continuations);
        append_rows(&mut continuity_views, view_parts(&kept_continuities));
        proof {
            let a = kept_continuations.deep_view();
            let b = kept_continuities.deep_view();
            assert(continuity_views.deep_view() =~= (a + b).map_values(view_part()));
        }
        ContextBundle {
            claims,
            pending_claims,
            continuation,
            continuity_views,
            observations,
            recent_events,
            recalled_evidence,
            diagnostics: ContextDiagnostics {
                estimated_tokens: tally.used,
                omitted_items: tally.omitted,
            },
        }
    }

    /// Composes a context. `ranked` holds what a full-text search for the query found, best first;
    /// it is empty where nothing is asked for.
    pub fn compose_context(
        &self,
        scope_id: &str,
        stream_id: &str,
        max_tokens: i64,
        recent_raw_tokens: i64,
        ranked: &Vec<SearchHit>,
    ) -> (bundle: Result<ContextBundle, KernelError>)
        ensures
            seen(bundle) == compose(
                self@,
                scope_id@,
                stream_id@,
                max_tokens as int,
                recent_raw_tokens as int,
                ranked.deep_view(),
            ),
    {
        if max_tokens <= 0 {
            return Err(KernelError::invalid_input("max tokens must be positive"));
        }
        if recent_raw_tokens < 0 {
            return Err(KernelError::invalid_input("recent raw tokens cannot be negative"));
        }
        let visible: Vec<String> = match self.visible_scope_ids(scope_id) {
            Ok(visible) => visible,
            Err(error) => return Err(error),
        };
        let stream_scope: String = match self.check_stream(scope_id, &visible, stream_id) {
            Ok(stream_scope) => stream_scope,
            Err(error) => return Err(error),
        };
        let active: Vec<Claim> = self.query_claims_for_scopes(&visible, Some(ClaimStatus::Active));
        let claims: Vec<Claim> = sort_claims_by_scope(&active, &visible);
        let required_tokens: i128 = total_claim_tokens(&claims);
        if required_tokens > max_tokens as i128 {
            return Err(
                KernelError::of(
                    KernelErrorKind::BudgetExceeded,
                    concat3(
                        "context budget too small: minimumRequiredTokens=",
                        number_text(required_tokens).as_str(),
                        " for active claims",
                    ),
                ),
            );
        }
        let hits: Vec<SearchHit> = match self.readable_hits(scope_id, ranked, 10) {
            Ok(hits) => hits,
            Err(error) => return Err(error),
        };
        let access: ReadAccess = ReadAccess::agent(scope_id);
        let recalled: Vec<MemoryEvent> = match self.collect_evidence(&access, &hits) {
            Ok(recalled) => recalled,
            Err(error) => return Err(error),
        };
        Ok(
            self.compose_bundle(
                &visible,
                claims,
                stream_scope.as_str(),
                stream_id,
                max_tokens,
                recent_raw_tokens,
                &recalled,
            ),
        )
    }
}

} // verus!
