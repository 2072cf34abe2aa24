//! Laws of what a context bundle holds: every candidate is shown or named as omitted, what fits is
//! shown, and the stated cost is that of what is shown.

use vstd::prelude::*;

use crate::budget::{
    kept, kept_cost, left_out, packing_counts_what_it_keeps, packing_stays_within, reason_for,
    tallied, used_after, verdicts, OfferModel, TallyModel, Verdict,
};
use crate::claim_table::claims_in;
use crate::context::{
    candidates, claim_name, claim_offer, claims_cost, compose, composed, duplicated,
    evidence_offers, event_name, latest_views, observation_age, observation_in, observation_name,
    observation_offer, observation_rank, observation_scopes, observation_time, pending_claims,
    raw_budget, recent_tail, represented, tail_cost, tail_start, tail_tallied, view_chain,
    view_name, view_offer,
};
use crate::event::{event_named, event_order, redacted, stream_at};
use crate::kind::{ClaimStatus, ViewKind};
use crate::law_claim::ordered_contains;
use crate::law_context::{
    fitting_offers_are_kept, kept_position_offered, kept_rows_were_offered, marked_rows_are_kept,
    settled_offers_are_not_kept, shown_by_view, shown_views_represent, tail_stays_within,
    claims_cost_is_positive,
};
use crate::law_event::{filtered_position, kept_position};
use crate::law_observation::total_cost;
use crate::law_plan::{later_events_are_all, listed_claims_are_all, scoped_claims_are_all, unobserved};
use crate::model::{
    ClaimModel, ContextBundleModel, MemoryEventModel, MemoryViewModel, ObservationModel,
    OmittedItemModel, ReadAccessModel, SearchHitModel,
};
use crate::observation::{claims_by_scope, cost, events_after, redacted_event, scope_position};
use crate::order::{key_less, ordered, ordered_rows, place, place_splits, KeyModel};
use crate::recall::{
    all_evidence, evidence, evidence_of, hit_evidence, hit_readable, shown_event, up_to,
};
use crate::row::{LinkModel, MemoryStoreModel, ViewRowModel};
use crate::scope::{readable_from, visible_scopes};
use crate::score::Real;
use crate::table::{first_where_at, first_where_found};
use crate::text::{listed, position, text_less, text_order_irreflexive, token_estimate, Text};
use crate::view::{latest_view, view_part};

verus! {

/// Whether a context names something as omitted, for a reason.
pub open spec fn omits(bundle: ContextBundleModel, id: Text, reason: Text) -> bool {
    bundle.diagnostics.omitted_items.contains(OmittedItemModel { id, reason })
}

/// What writing out a claim's subject, predicate and value costs.
pub open spec fn stated_cost(claim: ClaimModel) -> int {
    token_estimate(claim.subject + " "@ + claim.predicate + " "@ + claim.value)
}

proof fn left_out_is_reported(ids: Seq<Text>, marks: Seq<Verdict>, k: int)
    requires
        ids.len() == marks.len(),
        0 <= k < ids.len(),
        reason_for(marks[k]) is Some,
    ensures
        left_out(ids, marks).contains(
            OmittedItemModel { id: ids[k], reason: reason_for(marks[k]).unwrap() },
        ),
    decreases ids.len(),
{
    let front = left_out(ids.drop_last(), marks.drop_last());
    let all = left_out(ids, marks);
    let item = OmittedItemModel { id: ids[k], reason: reason_for(marks[k]).unwrap() };
    if k < ids.len() - 1 {
        left_out_is_reported(ids.drop_last(), marks.drop_last(), k);
        let i = choose|i: int| 0 <= i < front.len() && front[i] == item;
        assert(all[i] == item);
    } else {
        assert(all[front.len() as int] == item);
    }
}

proof fn verdicts_are_by_cost(offers: Seq<OfferModel>, used: int, budget: int)
    ensures
        verdicts(offers, used, budget).len() == offers.len(),
        forall|k: int|
            0 <= k < offers.len() ==> #[trigger] verdicts(offers, used, budget)[k] == match offers[k].settled {
                Some(verdict) => verdict,
                None => if used_after(offers.take(k), used, budget) + offers[k].cost <= budget {
                    Verdict::Kept
                } else {
                    Verdict::OverBudget
                },
            },
    decreases offers.len(),
{
    if offers.len() > 0 {
        let front = offers.drop_last();
        verdicts_are_by_cost(front, used, budget);
        let marks = verdicts(offers, used, budget);
        assert forall|k: int| 0 <= k < offers.len() implies #[trigger] marks[k] == match offers[k].settled {
            Some(verdict) => verdict,
            None => if used_after(offers.take(k), used, budget) + offers[k].cost <= budget {
                Verdict::Kept
            } else {
                Verdict::OverBudget
            },
        } by {
            if k < front.len() {
                assert(front.take(k) =~= offers.take(k));
                assert(verdicts(front, used, budget)[k] == marks[k]);
                assert(front[k] == offers[k]);
            } else {
                assert(offers.take(k) =~= front);
            }
        }
    }
}

proof fn joined_holds(left: Seq<OmittedItemModel>, right: Seq<OmittedItemModel>, item: OmittedItemModel)
    requires
        left.contains(item) || right.contains(item),
    ensures
        (left + right).contains(item),
{
    if left.contains(item) {
        let k = choose|k: int| 0 <= k < left.len() && left[k] == item;
        assert((left + right)[k] == item);
    } else {
        let k = choose|k: int| 0 <= k < right.len() && right[k] == item;
        assert((left + right)[left.len() + k] == item);
    }
}

proof fn pushed_holds(items: Seq<OmittedItemModel>, new: OmittedItemModel, item: OmittedItemModel)
    requires
        items.contains(item) || item == new,
    ensures
        items.push(new).contains(item),
{
    if items.contains(item) {
        let k = choose|k: int| 0 <= k < items.len() && items[k] == item;
        assert(items.push(new)[k] == item);
    } else {
        assert(items.push(new)[items.len() as int] == item);
    }
}

/// The stages of composing a context, from the active claims to the recalled evidence.
pub struct Stages {
    pub claims: TallyModel,
    pub continued: TallyModel,
    pub waiting: TallyModel,
    pub tailed: TallyModel,
    pub viewed: TallyModel,
    pub observed: TallyModel,
    pub done: TallyModel,
    pub tail_budget: int,
    pub recent_ids: Seq<Text>,
    pub first: Seq<OfferModel>,
    pub second: Seq<OfferModel>,
    pub third: Seq<OfferModel>,
    pub fourth: Seq<OfferModel>,
    pub fifth: Seq<OfferModel>,
}

/// The stages of composing a context of given parts.
pub open spec fn stages(
    store: MemoryStoreModel,
    visible: Seq<Text>,
    stream_scope: Text,
    stream_id: Text,
    max_tokens: int,
    recent_raw_tokens: int,
    recalled: Seq<MemoryEventModel>,
) -> Stages {
    let claims = TallyModel {
        used: claims_cost(claims_by_scope(store, visible, ClaimStatus::Active)),
        omitted: Seq::empty(),
    };
    let continuations = latest_views(store, stream_id, ViewKind::Continuation);
    let first = continuations.map_values(view_offer());
    let continued = tallied(claims, continuations.map_values(view_name()), first, max_tokens);
    let pending = pending_claims(store, visible);
    let second = pending.map_values(claim_offer());
    let waiting = tallied(continued, pending.map_values(claim_name()), second, max_tokens);
    let events = events_after(store, stream_id, 0);
    let tail_budget = raw_budget(recent_raw_tokens, max_tokens, waiting.used);
    let recent_ids = recent_tail(events, tail_budget).map_values(event_name());
    let tailed = tail_tallied(waiting, events, tail_budget);
    let continuities = latest_views(store, stream_id, ViewKind::Continuity);
    let third = continuities.map_values(view_offer());
    let viewed = tallied(tailed, continuities.map_values(view_name()), third, max_tokens);
    let shown_views = kept(continuities, verdicts(third, tailed.used, max_tokens));
    let rows = candidates(store, observation_scopes(visible, stream_scope));
    let fourth = rows.map_values(
        observation_offer(store, recent_ids, view_chain(store.views, shown_views)),
    );
    let observed = tallied(viewed, rows.map_values(observation_name()), fourth, max_tokens);
    let fifth = evidence_offers(recalled, recent_ids);
    let done = tallied(observed, recalled.map_values(event_name()), fifth, max_tokens);
    Stages {
        claims,
        continued,
        waiting,
        tailed,
        viewed,
        observed,
        done,
        tail_budget,
        recent_ids,
        first,
        second,
        third,
        fourth,
        fifth,
    }
}

/// How the stages hang together: the cost only grows and keeps to the budget, and what is once
/// named as omitted stays named.
proof fn stages_grow(
    store: MemoryStoreModel,
    visible: Seq<Text>,
    stream_scope: Text,
    stream_id: Text,
    max_tokens: int,
    recent_raw_tokens: int,
    recalled: Seq<MemoryEventModel>,
)
    requires
        0 < max_tokens <= i64::MAX,
        0 <= recent_raw_tokens,
        claims_cost(claims_by_scope(store, visible, ClaimStatus::Active)) <= max_tokens,
    ensures
        ({
            let s = stages(
                store,
                visible,
                stream_scope,
                stream_id,
                max_tokens,
                recent_raw_tokens,
                recalled,
            );
            let bundle = composed(
                store,
                visible,
                stream_scope,
                stream_id,
                max_tokens,
                recent_raw_tokens,
                recalled,
            );
            &&& 0 <= s.claims.used <= s.continued.used <= s.waiting.used <= s.tailed.used
                <= s.viewed.used <= s.observed.used <= s.done.used <= max_tokens
            &&& bundle.diagnostics.estimated_tokens == s.done.used
            &&& bundle.diagnostics.omitted_items == s.done.omitted
            &&& s.tail_budget >= 0
            &&& s.waiting.used + s.tail_budget <= max_tokens
            &&& bundle.recent_events.map_values(event_name()) == s.recent_ids
            &&& forall|item: OmittedItemModel|
                s.continued.omitted.contains(item) ==> s.waiting.omitted.contains(item)
            &&& forall|item: OmittedItemModel|
                s.waiting.omitted.contains(item) ==> s.tailed.omitted.contains(item)
            &&& forall|item: OmittedItemModel|
                s.tailed.omitted.contains(item) ==> s.viewed.omitted.contains(item)
            &&& forall|item: OmittedItemModel|
                s.viewed.omitted.contains(item) ==> s.observed.omitted.contains(item)
            &&& forall|item: OmittedItemModel|
                s.observed.omitted.contains(item) ==> s.done.omitted.contains(item)
            &&& forall|i: int| 0 <= i < s.first.len() ==> (#[trigger] s.first[i]).cost >= 0
            &&& forall|i: int| 0 <= i < s.second.len() ==> (#[trigger] s.second[i]).cost >= 0
            &&& forall|i: int| 0 <= i < s.third.len() ==> (#[trigger] s.third[i]).cost >= 0
            &&& forall|i: int| 0 <= i < s.fourth.len() ==> (#[trigger] s.fourth[i]).cost >= 0
            &&& forall|i: int| 0 <= i < s.fifth.len() ==> (#[trigger] s.fifth[i]).cost >= 0
        }),
{
    let s = stages(
        store,
        visible,
        stream_scope,
        stream_id,
        max_tokens,
        recent_raw_tokens,
        recalled,
    );
    let events = events_after(store, stream_id, 0);
    claims_cost_is_positive(claims_by_scope(store, visible, ClaimStatus::Active));
    packing_stays_within(s.first, s.claims.used, max_tokens);
    packing_stays_within(s.second, s.continued.used, max_tokens);
    tail_stays_within(events, events.len() as int, 0, s.tail_budget);
    packing_stays_within(s.third, s.tailed.used, max_tokens);
    packing_stays_within(s.fourth, s.viewed.used, max_tokens);
    packing_stays_within(s.fifth, s.observed.used, max_tokens);
    let start = tail_start(events, events.len() as int, 0, s.tail_budget);
    assert forall|item: OmittedItemModel| s.continued.omitted.contains(item) implies
        s.waiting.omitted.contains(item) by {
        joined_holds(
            s.continued.omitted,
            left_out(
                pending_claims(store, visible).map_values(claim_name()),
                verdicts(s.second, s.continued.used, max_tokens),
            ),
            item,
        );
    }
    assert forall|item: OmittedItemModel| s.waiting.omitted.contains(item) implies
        s.tailed.omitted.contains(item) by {
        if start > 0 {
            pushed_holds(
                s.waiting.omitted,
                OmittedItemModel {
                    id: events[start - 1].id,
                    reason: "outside recent raw token budget"@,
                },
                item,
            );
        }
    }
    assert forall|item: OmittedItemModel| s.tailed.omitted.contains(item) implies
        s.viewed.omitted.contains(item) by {
        joined_holds(
            s.tailed.omitted,
            left_out(
                latest_views(store, stream_id, ViewKind::Continuity).map_values(view_name()),
                verdicts(s.third, s.tailed.used, max_tokens),
            ),
            item,
        );
    }
    assert forall|item: OmittedItemModel| s.viewed.omitted.contains(item) implies
        s.observed.omitted.contains(item) by {
        joined_holds(
            s.viewed.omitted,
            left_out(
                candidates(store, observation_scopes(visible, stream_scope)).map_values(
                    observation_name(),
                ),
                verdicts(s.fourth, s.viewed.used, max_tokens),
            ),
            item,
        );
    }
    assert forall|item: OmittedItemModel| s.observed.omitted.contains(item) implies
        s.done.omitted.contains(item) by {
        joined_holds(
            s.observed.omitted,
            left_out(
                recalled.map_values(event_name()),
                verdicts(s.fifth, s.observed.used, max_tokens),
            ),
            item,
        );
    }
}

proof fn waiting_claims_are_all(store: MemoryStoreModel, visible: Seq<Text>, claim: ClaimModel)
    ensures
        pending_claims(store, visible).contains(claim) <==> {
            &&& store.claims.contains(claim)
            &&& visible.contains(claim.scope_id)
            &&& claim.status is Pending || claim.status is Disputed
        },
{
    let first = claims_in(store, visible, Some(ClaimStatus::Pending));
    let second = claims_in(store, visible, Some(ClaimStatus::Disputed));
    let both = first + second;
    ordered_contains(both, scope_position(visible), claim);
    listed_claims_are_all(store, visible, Some(ClaimStatus::Pending), claim);
    listed_claims_are_all(store, visible, Some(ClaimStatus::Disputed), claim);
    if both.contains(claim) {
        let k = choose|k: int| 0 <= k < both.len() && both[k] == claim;
        if k < first.len() {
            assert(first[k] == claim);
        } else {
            assert(second[k - first.len()] == claim);
        }
    }
    if first.contains(claim) {
        let k = choose|k: int| 0 <= k < first.len() && first[k] == claim;
        assert(both[k] == claim);
    }
    if second.contains(claim) {
        let k = choose|k: int| 0 <= k < second.len() && second[k] == claim;
        assert(both[first.len() + k] == claim);
    }
}

/// A context holds exactly the active claims of the visible scopes among its claims, those of the
/// outer scopes first.
pub proof fn active_claims_are_shown(
    store: MemoryStoreModel,
    scope_id: Text,
    stream_id: Text,
    max_tokens: i64,
    recent_raw_tokens: i64,
    ranked: Seq<SearchHitModel>,
)
    ensures
        compose(
            store,
            scope_id,
            stream_id,
            max_tokens as int,
            recent_raw_tokens as int,
            ranked,
        ) matches Ok(bundle) ==> {
            let visible = visible_scopes(store, scope_id)->Ok_0;
            &&& forall|claim: ClaimModel|
                #[trigger] bundle.claims.contains(claim) <==> store.claims.contains(claim)
                    && claim.status is Active && visible.contains(claim.scope_id)
            &&& forall|i: int, j: int|
                0 <= i < j < bundle.claims.len() ==> position(
                    visible,
                    (#[trigger] bundle.claims[i]).scope_id,
                ) <= position(visible, (#[trigger] bundle.claims[j]).scope_id)
        },
{
    let visible = visible_scopes(store, scope_id)->Ok_0;
    scoped_claims_are_all(store, visible, ClaimStatus::Active);
}

/// Every pending or disputed claim of a visible scope is in the context, apart from the active
/// ones, or named there as omitted for the budget; and one that fits beside all that the context
/// holds is in it.
pub proof fn waiting_claims_are_accounted_for(
    store: MemoryStoreModel,
    scope_id: Text,
    stream_id: Text,
    max_tokens: i64,
    recent_raw_tokens: i64,
    ranked: Seq<SearchHitModel>,
    c: int,
)
    requires
        0 <= c < store.claims.len(),
        store.claims[c].status is Pending || store.claims[c].status is Disputed,
    ensures
        compose(
            store,
            scope_id,
            stream_id,
            max_tokens as int,
            recent_raw_tokens as int,
            ranked,
        ) matches Ok(bundle) ==> visible_scopes(store, scope_id)->Ok_0.contains(
            store.claims[c].scope_id,
        ) ==> {
            &&& bundle.pending_claims.contains(store.claims[c]) || omits(
                bundle,
                store.claims[c].id,
                "context token budget"@,
            )
            &&& bundle.diagnostics.estimated_tokens + stated_cost(store.claims[c]) <= max_tokens
                ==> bundle.pending_claims.contains(store.claims[c])
        },
{
    if let Ok(bundle) = compose(
        store,
        scope_id,
        stream_id,
        max_tokens as int,
        recent_raw_tokens as int,
        ranked,
    ) {
        let claim = store.claims[c];
        let visible = visible_scopes(store, scope_id)->Ok_0;
        let access = ReadAccessModel { anchor_scope_id: scope_id, reveal_secrets: false };
        let hits = up_to(ranked.filter(hit_readable(store, scope_id)), 10);
        let recalled = all_evidence(store, access, hits)->Ok_0;
        let stream_scope = stream_at(store, stream_id).unwrap().scope_id;
        let max = max_tokens as int;
        let raw = recent_raw_tokens as int;
        stages_grow(store, visible, stream_scope, stream_id, max, raw, recalled);
        let s = stages(store, visible, stream_scope, stream_id, max, raw, recalled);
        if visible.contains(claim.scope_id) {
            assert(store.claims.contains(claim));
            waiting_claims_are_all(store, visible, claim);
            let rows = pending_claims(store, visible);
            let names = rows.map_values(claim_name());
            let marks = verdicts(s.second, s.continued.used, max);
            let k = choose|k: int| 0 <= k < rows.len() && rows[k] == claim;
            verdicts_are_by_cost(s.second, s.continued.used, max);
            assert(s.second[k] == (claim_offer())(claim));
            if marks[k] is Kept {
                marked_rows_are_kept(rows, marks, k);
            } else {
                assert(marks[k] == Verdict::OverBudget);
                left_out_is_reported(names, marks, k);
                let item = OmittedItemModel { id: claim.id, reason: "context token budget"@ };
                joined_holds(s.continued.omitted, left_out(names, marks), item);
                assert(s.waiting.omitted.contains(item));
            }
            if bundle.diagnostics.estimated_tokens + stated_cost(claim) <= max_tokens {
                fitting_offers_are_kept(s.second, s.continued.used, max, k);
                marked_rows_are_kept(rows, marks, k);
            }
        }
    }
}

/// Every observation of a visible scope, or of the scope of the stream, is in the context or named
/// there as omitted: because all its evidence is among the recent events, because the continuity
/// view in the context represents it, or for the budget.
pub proof fn observations_are_accounted_for(
    store: MemoryStoreModel,
    scope_id: Text,
    stream_id: Text,
    max_tokens: i64,
    recent_raw_tokens: i64,
    ranked: Seq<SearchHitModel>,
    o: int,
)
    requires
        0 <= o < store.observations.len(),
    ensures
        compose(
            store,
            scope_id,
            stream_id,
            max_tokens as int,
            recent_raw_tokens as int,
            ranked,
        ) matches Ok(bundle) ==> (visible_scopes(store, scope_id)->Ok_0.contains(
            store.observations[o].scope_id,
        ) || stream_at(store, stream_id).unwrap().scope_id == store.observations[o].scope_id) ==> {
            let observation = store.observations[o];
            let recent_ids = bundle.recent_events.map_values(event_name());
            if duplicated(store.observation_sources, observation.id, recent_ids) {
                omits(bundle, observation.id, "source events already present in raw tail"@)
            } else if shown_by_view(store, stream_id, bundle, observation.id) {
                omits(bundle, observation.id, "already represented by continuity view"@)
            } else {
                bundle.observations.contains(observation) || omits(
                    bundle,
                    observation.id,
                    "context token budget"@,
                )
            }
        },
{
    if let Ok(bundle) = compose(
        store,
        scope_id,
        stream_id,
        max_tokens as int,
        recent_raw_tokens as int,
        ranked,
    ) {
        let observation = store.observations[o];
        let visible = visible_scopes(store, scope_id)->Ok_0;
        let access = ReadAccessModel { anchor_scope_id: scope_id, reveal_secrets: false };
        let hits = up_to(ranked.filter(hit_readable(store, scope_id)), 10);
        let recalled = all_evidence(store, access, hits)->Ok_0;
        let stream_scope = stream_at(store, stream_id).unwrap().scope_id;
        let max = max_tokens as int;
        let raw = recent_raw_tokens as int;
        stages_grow(store, visible, stream_scope, stream_id, max, raw, recalled);
        let s = stages(store, visible, stream_scope, stream_id, max, raw, recalled);
        let scope_ids = observation_scopes(visible, stream_scope);
        if visible.contains(observation.scope_id) || stream_scope == observation.scope_id {
            if visible.contains(observation.scope_id) {
                let n = choose|n: int|
                    0 <= n < visible.len() && visible[n] == observation.scope_id;
                assert(scope_ids[n] == observation.scope_id);
            } else if !listed(visible, stream_scope) {
                assert(scope_ids[visible.len() as int] == observation.scope_id);
            } else {
                let n = choose|n: int|
                    0 <= n < visible.len() && #[trigger] visible[n] == observation.scope_id;
                assert(scope_ids[n] == observation.scope_id);
            }
            let accepts = observation_in(scope_ids);
            let some = store.observations.filter(accepts);
            let by_age = ordered(some, observation_age());
            let rows = candidates(store, scope_ids);
            let at = kept_position(store.observations, accepts, o);
            assert(some[at] == observation);
            ordered_contains(some, observation_age(), observation);
            ordered_contains(by_age, observation_rank(), observation);
            let k = choose|k: int| 0 <= k < rows.len() && rows[k] == observation;
            let names = rows.map_values(observation_name());
            let marks = verdicts(s.fourth, s.viewed.used, max);
            let continuities = latest_views(store, stream_id, ViewKind::Continuity);
            let shown_views = kept(continuities, verdicts(s.third, s.tailed.used, max));
            let offer = observation_offer(
                store,
                s.recent_ids,
                view_chain(store.views, shown_views),
            );
            shown_views_represent(
                store,
                stream_id,
                bundle,
                verdicts(s.first, s.claims.used, max),
                verdicts(s.third, s.tailed.used, max),
                observation.id,
            );
            verdicts_are_by_cost(s.fourth, s.viewed.used, max);
            assert(s.fourth[k] == offer(observation));
            if marks[k] is Kept {
                marked_rows_are_kept(rows, marks, k);
                ordered_contains(kept(rows, marks), observation_time(), observation);
            } else {
                left_out_is_reported(names, marks, k);
                let item = OmittedItemModel {
                    id: observation.id,
                    reason: reason_for(marks[k]).unwrap(),
                };
                joined_holds(s.viewed.omitted, left_out(names, marks), item);
                assert(s.observed.omitted.contains(item));
            }
        }
    }
}

/// The latest continuity view of the stream is in the context, or named there as omitted for the
/// budget, and where it fits beside all that the context holds it is in it. A continuation that is
/// not in the context is named as omitted too.
pub proof fn views_are_accounted_for(
    store: MemoryStoreModel,
    scope_id: Text,
    stream_id: Text,
    max_tokens: i64,
    recent_raw_tokens: i64,
    ranked: Seq<SearchHitModel>,
)
    ensures
        compose(
            store,
            scope_id,
            stream_id,
            max_tokens as int,
            recent_raw_tokens as int,
            ranked,
        ) matches Ok(bundle) ==> {
            &&& latest_view(store, stream_id, ViewKind::Continuity) matches Some(row) ==> {
                &&& bundle.continuity_views.contains(row.view) || omits(
                    bundle,
                    row.view.id,
                    "context token budget"@,
                )
                &&& bundle.diagnostics.estimated_tokens + row.view.token_count <= max_tokens
                    && row.view.token_count >= 0 ==> bundle.continuity_views.contains(row.view)
            }
            &&& latest_view(store, stream_id, ViewKind::Continuation) matches Some(row) ==> {
                bundle.continuity_views.contains(row.view) || omits(
                    bundle,
                    row.view.id,
                    "context token budget"@,
                )
            }
            &&& forall|i: int|
                0 <= i < bundle.continuity_views.len() ==> {
                    ||| (latest_view(store, stream_id, ViewKind::Continuity) matches Some(row)
                        && row.view == #[trigger] bundle.continuity_views[i])
                    ||| (latest_view(store, stream_id, ViewKind::Continuation) matches Some(row)
                        && row.view == bundle.continuity_views[i])
                }
        },
{
    if let Ok(bundle) = compose(
        store,
        scope_id,
        stream_id,
        max_tokens as int,
        recent_raw_tokens as int,
        ranked,
    ) {
        let visible = visible_scopes(store, scope_id)->Ok_0;
        let access = ReadAccessModel { anchor_scope_id: scope_id, reveal_secrets: false };
        let hits = up_to(ranked.filter(hit_readable(store, scope_id)), 10);
        let recalled = all_evidence(store, access, hits)->Ok_0;
        let stream_scope = stream_at(store, stream_id).unwrap().scope_id;
        let max = max_tokens as int;
        let raw = recent_raw_tokens as int;
        stages_grow(store, visible, stream_scope, stream_id, max, raw, recalled);
        let s = stages(store, visible, stream_scope, stream_id, max, raw, recalled);
        let continuations = latest_views(store, stream_id, ViewKind::Continuation);
        let continuities = latest_views(store, stream_id, ViewKind::Continuity);
        let first_marks = verdicts(s.first, s.claims.used, max);
        let third_marks = verdicts(s.third, s.tailed.used, max);
        let before = kept(continuations, first_marks);
        let behind = kept(continuities, third_marks);
        let both = before + behind;
        verdicts_are_by_cost(s.first, s.claims.used, max);
        verdicts_are_by_cost(s.third, s.tailed.used, max);
        if let Some(row) = latest_view(store, stream_id, ViewKind::Continuity) {
            assert(continuities[0] == row);
            assert(s.third[0] == (view_offer())(row));
            if bundle.diagnostics.estimated_tokens + row.view.token_count <= max_tokens
                && row.view.token_count >= 0 {
                fitting_offers_are_kept(s.third, s.tailed.used, max, 0);
            }
            if third_marks[0] is Kept {
                marked_rows_are_kept(continuities, third_marks, 0);
                let k = choose|k: int| 0 <= k < behind.len() && behind[k] == row;
                assert(both[before.len() + k] == row);
                assert(bundle.continuity_views[before.len() + k] == row.view);
            } else {
                let names = continuities.map_values(view_name());
                left_out_is_reported(names, third_marks, 0);
                let item = OmittedItemModel { id: row.view.id, reason: "context token budget"@ };
                joined_holds(s.tailed.omitted, left_out(names, third_marks), item);
                assert(s.viewed.omitted.contains(item));
            }
        }
        if let Some(row) = latest_view(store, stream_id, ViewKind::Continuation) {
            assert(continuations[0] == row);
            assert(s.first[0] == (view_offer())(row));
            if first_marks[0] is Kept {
                marked_rows_are_kept(continuations, first_marks, 0);
                let k = choose|k: int| 0 <= k < before.len() && before[k] == row;
                assert(both[k] == row);
                assert(bundle.continuity_views[k] == row.view);
            } else {
                let names = continuations.map_values(view_name());
                left_out_is_reported(names, first_marks, 0);
                let item = OmittedItemModel { id: row.view.id, reason: "context token budget"@ };
                joined_holds(s.claims.omitted, left_out(names, first_marks), item);
                assert(s.continued.omitted.contains(item));
            }
        }
        assert forall|i: int| 0 <= i < bundle.continuity_views.len() implies ({
            ||| (latest_view(store, stream_id, ViewKind::Continuity) matches Some(row) && row.view
                == #[trigger] bundle.continuity_views[i])
            ||| (latest_view(store, stream_id, ViewKind::Continuation) matches Some(row) && row.view
                == bundle.continuity_views[i])
        }) by {
            assert(bundle.continuity_views[i] == both[i].view);
            if i < before.len() {
                kept_rows_were_offered(continuations, first_marks, i);
                let k = choose|k: int|
                    0 <= k < continuations.len() && continuations[k] == before[i];
                assert(continuations[k] == continuations[0]);
            } else {
                kept_rows_were_offered(continuities, third_marks, i - before.len());
                let k = choose|k: int|
                    0 <= k < continuities.len() && continuities[k] == behind[i - before.len()];
                assert(continuities[k] == continuities[0]);
            }
        }
    }
}

proof fn tail_is_a_suffix(events: Seq<MemoryEventModel>, from: int, spent: int, budget: int)
    requires
        0 <= from <= events.len(),
        0 <= spent <= budget,
    ensures
        ({
            let start = tail_start(events, from, spent, budget);
            &&& 0 <= start <= from
            &&& tail_cost(events, from, spent, budget) == spent + total_cost(
                events.subrange(start, from).map_values(redacted_event()),
            )
            &&& start > 0 ==> tail_cost(events, from, spent, budget) + cost(
                redacted(events[start - 1]).token_count,
            ) > budget
        }),
    decreases from,
{
    let start = tail_start(events, from, spent, budget);
    if from > 0 {
        let next = spent + cost(redacted(events[from - 1]).token_count);
        if next > budget {
            assert(events.subrange(from, from).map_values(redacted_event()).len() == 0);
        } else {
            tail_is_a_suffix(events, from - 1, next, budget);
            let shown = events.subrange(start, from).map_values(redacted_event());
            let front = events.subrange(start, from - 1).map_values(redacted_event());
            assert(shown.drop_last() =~= front);
            assert(shown.last() == redacted(events[from - 1]));
        }
    } else {
        assert(events.subrange(start, from).map_values(redacted_event()).len() == 0);
    }
}

/// The recent events of a context are the last ones of its stream, as an agent is shown them, in
/// the order of their numbers and without leaving one out. They cost no more than was allowed for
/// them, and where there are more events, the next one back would cost too much and is named as
/// omitted.
pub proof fn recent_events_are_the_last(
    store: MemoryStoreModel,
    scope_id: Text,
    stream_id: Text,
    max_tokens: i64,
    recent_raw_tokens: i64,
    ranked: Seq<SearchHitModel>,
)
    ensures
        compose(
            store,
            scope_id,
            stream_id,
            max_tokens as int,
            recent_raw_tokens as int,
            ranked,
        ) matches Ok(bundle) ==> {
            let recent = bundle.recent_events;
            &&& total_cost(recent) <= recent_raw_tokens
            &&& forall|i: int|
                0 <= i < recent.len() ==> exists|k: int|
                    0 <= k < store.events.len() && unobserved(
                        #[trigger] store.events[k],
                        stream_id,
                        0,
                    ) && #[trigger] recent[i] == redacted(store.events[k])
            &&& forall|i: int, j: int|
                0 <= i < j < recent.len() ==> (#[trigger] recent[i]).sequence <= (
                #[trigger] recent[j]).sequence
            &&& forall|k: int|
                0 <= k < store.events.len() && unobserved(#[trigger] store.events[k], stream_id, 0)
                    && recent.len() > 0 && store.events[k].sequence > recent[0].sequence
                    ==> recent.contains(redacted(store.events[k]))
            &&& forall|k: int|
                0 <= k < store.events.len() && unobserved(#[trigger] store.events[k], stream_id, 0)
                    && !recent.contains(redacted(store.events[k])) ==> exists|n: int|
                    0 <= n < store.events.len() && next_back(
                        store,
                        stream_id,
                        bundle,
                        max_tokens as int,
                        recent_raw_tokens as int,
                        #[trigger] store.events[n],
                    )
        },
{
    if let Ok(bundle) = compose(
        store,
        scope_id,
        stream_id,
        max_tokens as int,
        recent_raw_tokens as int,
        ranked,
    ) {
        let visible = visible_scopes(store, scope_id)->Ok_0;
        let access = ReadAccessModel { anchor_scope_id: scope_id, reveal_secrets: false };
        let hits = up_to(ranked.filter(hit_readable(store, scope_id)), 10);
        let recalled = all_evidence(store, access, hits)->Ok_0;
        let stream_scope = stream_at(store, stream_id).unwrap().scope_id;
        let max = max_tokens as int;
        let raw = recent_raw_tokens as int;
        stages_grow(store, visible, stream_scope, stream_id, max, raw, recalled);
        let s = stages(store, visible, stream_scope, stream_id, max, raw, recalled);
        let events = events_after(store, stream_id, 0);
        let len = events.len() as int;
        let start = tail_start(events, len, 0, s.tail_budget);
        later_events_are_all(store, stream_id, 0);
        tail_is_a_suffix(events, len, 0, s.tail_budget);
        tail_stays_within(events, len, 0, s.tail_budget);
        let recent = bundle.recent_events;
        assert(recent =~= events.subrange(start, len).map_values(redacted_event()));
        assert forall|i: int| 0 <= i < recent.len() implies exists|k: int|
            0 <= k < store.events.len() && unobserved(
                #[trigger] store.events[k],
                stream_id,
                0,
            ) && #[trigger] recent[i] == redacted(store.events[k]) by {
            assert(events.contains(events[start + i]));
            let k = choose|k: int|
                0 <= k < store.events.len() && store.events[k] == events[start + i];
            assert(recent[i] == redacted(store.events[k]));
        }
        assert forall|i: int, j: int| 0 <= i < j < recent.len() implies (
        #[trigger] recent[i]).sequence <= (#[trigger] recent[j]).sequence by {
            assert(recent[i] == redacted(events[start + i]));
            assert(recent[j] == redacted(events[start + j]));
        }
        assert forall|k: int|
            0 <= k < store.events.len() && unobserved(#[trigger] store.events[k], stream_id, 0)
                && recent.len() > 0 && store.events[k].sequence
                > recent[0].sequence implies recent.contains(redacted(store.events[k])) by {
            assert(store.events.contains(store.events[k]));
            assert(events.contains(store.events[k]));
            let m = choose|m: int| 0 <= m < events.len() && events[m] == store.events[k];
            assert(recent[0] == redacted(events[start]));
            if m < start {
                assert(events[m].sequence <= events[start].sequence);
            }
            assert(recent[m - start] == redacted(store.events[k]));
        }
        assert forall|k: int|
            0 <= k < store.events.len() && unobserved(#[trigger] store.events[k], stream_id, 0)
                && !recent.contains(redacted(store.events[k])) implies exists|n: int|
            0 <= n < store.events.len() && next_back(
                store,
                stream_id,
                bundle,
                max,
                raw,
                #[trigger] store.events[n],
            ) by {
            assert(store.events.contains(store.events[k]));
            assert(events.contains(store.events[k]));
            let m = choose|m: int| 0 <= m < events.len() && events[m] == store.events[k];
            if m >= start {
                assert(recent[m - start] == redacted(store.events[k]));
            }
            assert(start > 0);
            assert(events.contains(events[start - 1]));
            let n = choose|n: int|
                0 <= n < store.events.len() && store.events[n] == events[start - 1];
            let item = OmittedItemModel {
                id: events[start - 1].id,
                reason: "outside recent raw token budget"@,
            };
            pushed_holds(s.waiting.omitted, item, item);
            assert(s.tailed.omitted.contains(item));
            assert(next_back(store, stream_id, bundle, max, raw, store.events[n]));
        }
    }
}

/// Whether an event of a stream was left out of the recent events of a context because it would
/// have cost too much, and is named so.
pub open spec fn next_back(
    store: MemoryStoreModel,
    stream_id: Text,
    bundle: ContextBundleModel,
    max_tokens: int,
    recent_raw_tokens: int,
    event: MemoryEventModel,
) -> bool {
    let price = cost(redacted(event).token_count);
    &&& unobserved(event, stream_id, 0)
    &&& omits(bundle, event.id, "outside recent raw token budget"@)
    &&& total_cost(bundle.recent_events) + price > recent_raw_tokens
        || bundle.diagnostics.estimated_tokens + price > max_tokens
}

/// Whether an event can be found through a context: it is shown there, or named as omitted.
pub open spec fn accounted_for(bundle: ContextBundleModel, id: Text) -> bool {
    ||| exists|i: int|
        0 <= i < bundle.recent_events.len() && (#[trigger] bundle.recent_events[i]).id == id
    ||| exists|i: int|
        0 <= i < bundle.recalled_evidence.len() && (#[trigger] bundle.recalled_evidence[i]).id == id
    ||| omits(bundle, id, "context token budget"@)
}

proof fn recalled_events_are_accounted_for(
    store: MemoryStoreModel,
    visible: Seq<Text>,
    stream_scope: Text,
    stream_id: Text,
    max_tokens: int,
    recent_raw_tokens: int,
    recalled: Seq<MemoryEventModel>,
    i: int,
)
    requires
        0 < max_tokens <= i64::MAX,
        0 <= recent_raw_tokens,
        claims_cost(claims_by_scope(store, visible, ClaimStatus::Active)) <= max_tokens,
        0 <= i < recalled.len(),
    ensures
        accounted_for(
            composed(
                store,
                visible,
                stream_scope,
                stream_id,
                max_tokens,
                recent_raw_tokens,
                recalled,
            ),
            recalled[i].id,
        ),
    decreases i,
{
    let bundle = composed(
        store,
        visible,
        stream_scope,
        stream_id,
        max_tokens,
        recent_raw_tokens,
        recalled,
    );
    stages_grow(
        store,
        visible,
        stream_scope,
        stream_id,
        max_tokens,
        recent_raw_tokens,
        recalled,
    );
    let s = stages(
        store,
        visible,
        stream_scope,
        stream_id,
        max_tokens,
        recent_raw_tokens,
        recalled,
    );
    let id = recalled[i].id;
    let earlier = recalled.take(i).map_values(event_name());
    let marks = verdicts(s.fifth, s.observed.used, max_tokens);
    verdicts_are_by_cost(s.fifth, s.observed.used, max_tokens);
    if listed(s.recent_ids, id) {
        let k = choose|k: int| 0 <= k < s.recent_ids.len() && #[trigger] s.recent_ids[k] == id;
        assert(bundle.recent_events[k].id == id);
    } else if listed(earlier, id) {
        let k = choose|k: int| 0 <= k < earlier.len() && #[trigger] earlier[k] == id;
        assert(recalled[k].id == id);
        recalled_events_are_accounted_for(
            store,
            visible,
            stream_scope,
            stream_id,
            max_tokens,
            recent_raw_tokens,
            recalled,
            k,
        );
    } else {
        assert(s.fifth[i].settled is None);
        if marks[i] is Kept {
            marked_rows_are_kept(recalled, marks, i);
            let k = choose|k: int|
                0 <= k < bundle.recalled_evidence.len() && bundle.recalled_evidence[k]
                    == recalled[i];
            assert(bundle.recalled_evidence[k].id == id);
        } else {
            let names = recalled.map_values(event_name());
            left_out_is_reported(names, marks, i);
            joined_holds(
                s.observed.omitted,
                left_out(names, marks),
                OmittedItemModel { id, reason: "context token budget"@ },
            );
        }
    }
}

/// A row that is kept by a filter does not come later than it stood.
pub proof fn early_rows_stay_early<V>(rows: Seq<V>, accepts: spec_fn(V) -> bool, i: int) -> (k: int)
    requires
        0 <= i < rows.len(),
        accepts(rows[i]),
    ensures
        0 <= k <= i,
        k < rows.filter(accepts).len(),
        rows.filter(accepts)[k] == rows[i],
    decreases rows.len(),
{
    reveal(Seq::filter);
    let front = rows.drop_last();
    if i < front.len() {
        early_rows_stay_early(front, accepts, i)
    } else {
        filter_is_no_longer(front, accepts);
        front.filter(accepts).len() as int
    }
}

proof fn filter_is_no_longer<V>(rows: Seq<V>, accepts: spec_fn(V) -> bool)
    ensures
        rows.filter(accepts).len() <= rows.len(),
    decreases rows.len(),
{
    reveal(Seq::filter);
    if rows.len() > 0 {
        filter_is_no_longer(rows.drop_last(), accepts);
    }
}

/// A row that is kept by a filter comes behind as many rows as are kept of those before it.
pub proof fn kept_rows_are_counted<V>(rows: Seq<V>, accepts: spec_fn(V) -> bool, i: int)
    requires
        0 <= i < rows.len(),
        accepts(rows[i]),
    ensures
        rows.take(i).filter(accepts).len() < rows.filter(accepts).len(),
        rows.filter(accepts)[rows.take(i).filter(accepts).len() as int] == rows[i],
    decreases rows.len(),
{
    reveal(Seq::filter);
    let front = rows.drop_last();
    if i < front.len() {
        kept_rows_are_counted(front, accepts, i);
        assert(front.take(i) =~= rows.take(i));
    } else {
        assert(rows.take(i) =~= front);
    }
}

proof fn hit_evidence_is_among_all(
    store: MemoryStoreModel,
    access: ReadAccessModel,
    hits: Seq<SearchHitModel>,
    h: int,
    event: MemoryEventModel,
)
    requires
        all_evidence(store, access, hits) is Ok,
        0 <= h < hits.len(),
        hit_evidence(store, access, hits[h]) is Ok ==> hit_evidence(
            store,
            access,
            hits[h],
        )->Ok_0.contains(event),
    ensures
        all_evidence(store, access, hits)->Ok_0.contains(event),
    decreases hits.len(),
{
    let before = all_evidence(store, access, hits.drop_last())->Ok_0;
    let more = hit_evidence(store, access, hits.last())->Ok_0;
    let all = all_evidence(store, access, hits)->Ok_0;
    if h < hits.len() - 1 {
        assert(hits.drop_last()[h] == hits[h]);
        hit_evidence_is_among_all(store, access, hits.drop_last(), h, event);
        let k = choose|k: int| 0 <= k < before.len() && before[k] == event;
        assert(all[k] == event);
    } else {
        let k = choose|k: int| 0 <= k < more.len() && more[k] == event;
        assert(all[before.len() + k] == event);
    }
}

/// Which hits may be read from a scope.
pub open spec fn may_be_read(store: MemoryStoreModel, scope_id: Text) -> spec_fn(
    SearchHitModel,
) -> bool {
    |hit: SearchHitModel| readable_from(store, scope_id, hit.scope_id)
}

/// Whether a hit leads to an event: it is the event, or an observation or a claim that rests on it.
pub open spec fn leads_to(store: MemoryStoreModel, hit: SearchHitModel, id: Text) -> bool {
    let link = LinkModel { holder_id: hit.id, source_id: id };
    ||| hit.record_type == "event"@ && hit.id == id
    ||| hit.record_type == "observation"@ && store.observation_sources.contains(link)
    ||| hit.record_type == "claim"@ && store.claim_sources.contains(link)
}

proof fn record_types_differ()
    ensures
        "event"@ != "observation"@,
        "event"@ != "claim"@,
        "observation"@ != "claim"@,
{
    reveal_strlit("event");
    reveal_strlit("observation");
    reveal_strlit("claim");
    assert("observation"@.len() == 11 && "claim"@.len() == 5 && "event"@.len() == 5);
    assert("claim"@[0] != "event"@[0]);
}

proof fn hits_hold_their_evidence(
    store: MemoryStoreModel,
    access: ReadAccessModel,
    hit: SearchHitModel,
    e: int,
)
    requires
        !access.reveal_secrets,
        0 <= e < store.events.len(),
        forall|a: int, b: int|
            0 <= a < b < store.events.len() ==> (#[trigger] store.events[a]).id != (
            #[trigger] store.events[b]).id,
        leads_to(store, hit, store.events[e].id),
        hit_evidence(store, access, hit) is Ok,
    ensures
        hit_evidence(store, access, hit)->Ok_0.contains(redacted(store.events[e])),
{
    record_types_differ();
    let event = store.events[e];
    let shown = redacted(event);
    if hit.record_type == "event"@ {
        let named = event_named(event.id);
        assert forall|k: int| 0 <= k < e implies !named(#[trigger] store.events[k]) by {
            assert(store.events[k].id != store.events[e].id);
        }
        first_where_at(store.events, named, e);
        assert(seq![shown][0] == shown);
    } else {
        let links = if hit.record_type == "observation"@ {
            store.observation_sources
        } else {
            store.claim_sources
        };
        let rests = evidence_of(links, hit.id);
        assert(rests(event));
        let n = kept_position(store.events, rests, e);
        let rows = store.events.filter(rests);
        assert(rows[n] == event);
        let sorted = evidence(store, links, hit.id);
        ordered_contains(rows, event_order(), event);
        let m = choose|m: int| 0 <= m < sorted.len() && sorted[m] == event;
        assert(sorted.map_values(shown_event(access))[m] == shown);
    }
}

/// What the best hits lead to can be found through the context: for each of the first ten ranked
/// hits among those that may be read, the event itself or every event that the observation or the claim rests
/// on is recent, recalled or named as omitted.
pub proof fn hits_are_recalled(
    store: MemoryStoreModel,
    scope_id: Text,
    stream_id: Text,
    max_tokens: i64,
    recent_raw_tokens: i64,
    ranked: Seq<SearchHitModel>,
    h: int,
    e: int,
)
    requires
        0 <= h < ranked.len(),
        readable_from(store, scope_id, ranked[h].scope_id),
        ranked.take(h).filter(may_be_read(store, scope_id)).len() < 10,
        0 <= e < store.events.len(),
        forall|a: int, b: int|
            0 <= a < b < store.events.len() ==> (#[trigger] store.events[a]).id != (
            #[trigger] store.events[b]).id,
        leads_to(store, ranked[h], store.events[e].id),
    ensures
        compose(
            store,
            scope_id,
            stream_id,
            max_tokens as int,
            recent_raw_tokens as int,
            ranked,
        ) matches Ok(bundle) ==> accounted_for(bundle, store.events[e].id),
{
    if let Ok(bundle) = compose(
        store,
        scope_id,
        stream_id,
        max_tokens as int,
        recent_raw_tokens as int,
        ranked,
    ) {
        let visible = visible_scopes(store, scope_id)->Ok_0;
        let access = ReadAccessModel { anchor_scope_id: scope_id, reveal_secrets: false };
        let accepts = hit_readable(store, scope_id);
        let readable = ranked.filter(accepts);
        let hits = up_to(readable, 10);
        let recalled = all_evidence(store, access, hits)->Ok_0;
        let stream_scope = stream_at(store, stream_id).unwrap().scope_id;
        assert(may_be_read(store, scope_id) =~= accepts);
        let at = ranked.take(h).filter(accepts).len() as int;
        kept_rows_are_counted(ranked, accepts, h);
        assert(hits[at] == ranked[h]);
        let event = store.events[e];
        let shown = redacted(event);
        if hit_evidence(store, access, ranked[h]) is Ok {
            hits_hold_their_evidence(store, access, ranked[h], e);
        }
        hit_evidence_is_among_all(store, access, hits, at, shown);
        let i = choose|i: int| 0 <= i < recalled.len() && recalled[i] == shown;
        recalled_events_are_accounted_for(
            store,
            visible,
            stream_scope,
            stream_id,
            max_tokens as int,
            recent_raw_tokens as int,
            recalled,
            i,
        );
    }
}

proof fn counted_position<V>(rows: Seq<V>, accepts: spec_fn(V) -> bool, k: int) -> (i: int)
    requires
        0 <= k < rows.filter(accepts).len(),
    ensures
        0 <= i < rows.len(),
        accepts(rows[i]),
        rows[i] == rows.filter(accepts)[k],
        rows.take(i).filter(accepts).len() == k,
    decreases rows.len(),
{
    reveal(Seq::filter);
    let front = rows.drop_last();
    if k < front.filter(accepts).len() {
        let i = counted_position(front, accepts, k);
        assert(front.take(i) =~= rows.take(i));
        i
    } else {
        assert(rows.take(rows.len() - 1) =~= front);
        rows.len() - 1
    }
}

proof fn evidence_is_of_some_hit(
    store: MemoryStoreModel,
    access: ReadAccessModel,
    hits: Seq<SearchHitModel>,
    event: MemoryEventModel,
) -> (h: int)
    requires
        all_evidence(store, access, hits) is Ok,
        all_evidence(store, access, hits)->Ok_0.contains(event),
    ensures
        0 <= h < hits.len(),
        hit_evidence(store, access, hits[h]) is Ok,
        hit_evidence(store, access, hits[h])->Ok_0.contains(event),
    decreases hits.len(),
{
    let all = all_evidence(store, access, hits)->Ok_0;
    let k = choose|k: int| 0 <= k < all.len() && all[k] == event;
    let before = all_evidence(store, access, hits.drop_last())->Ok_0;
    let more = hit_evidence(store, access, hits.last())->Ok_0;
    if k < before.len() {
        assert(before[k] == event);
        let h = evidence_is_of_some_hit(store, access, hits.drop_last(), event);
        assert(hits.drop_last()[h] == hits[h]);
        h
    } else {
        assert(more[k - before.len()] == event);
        hits.len() - 1
    }
}

proof fn evidence_is_led_to(
    store: MemoryStoreModel,
    access: ReadAccessModel,
    hit: SearchHitModel,
    event: MemoryEventModel,
)
    requires
        hit_evidence(store, access, hit) is Ok,
        hit_evidence(store, access, hit)->Ok_0.contains(event),
    ensures
        leads_to(store, hit, event.id),
{
    record_types_differ();
    let found = hit_evidence(store, access, hit)->Ok_0;
    let k = choose|k: int| 0 <= k < found.len() && found[k] == event;
    if hit.record_type == "event"@ {
        first_where_found(store.events, event_named(hit.id));
        assert(found[k].id == hit.id);
    } else {
        let links = if hit.record_type == "observation"@ {
            store.observation_sources
        } else {
            store.claim_sources
        };
        let rests = evidence_of(links, hit.id);
        let rows = store.events.filter(rests);
        let sorted = evidence(store, links, hit.id);
        assert(found == sorted.map_values(shown_event(access)));
        assert(sorted.contains(sorted[k]));
        ordered_contains(rows, event_order(), sorted[k]);
        let n = choose|n: int| 0 <= n < rows.len() && rows[n] == sorted[k];
        let e = filtered_position(store.events, rests, n);
        assert(event.id == sorted[k].id);
    }
}

/// A context recalls nothing but what its best hits lead to: for each event that it recalls, one of
/// the first ten ranked hits among those that may be read is that event, or an observation or a
/// claim that rests on it.
pub proof fn only_the_best_hits_are_recalled(
    store: MemoryStoreModel,
    scope_id: Text,
    stream_id: Text,
    max_tokens: i64,
    recent_raw_tokens: i64,
    ranked: Seq<SearchHitModel>,
    k: int,
)
    ensures
        compose(
            store,
            scope_id,
            stream_id,
            max_tokens as int,
            recent_raw_tokens as int,
            ranked,
        ) matches Ok(bundle) ==> 0 <= k < bundle.recalled_evidence.len() ==> exists|h: int|
            0 <= h < ranked.len() && readable_from(
                store,
                scope_id,
                (#[trigger] ranked[h]).scope_id,
            ) && ranked.take(h).filter(may_be_read(store, scope_id)).len() < 10 && leads_to(
                store,
                ranked[h],
                bundle.recalled_evidence[k].id,
            ),
{
    if let Ok(bundle) = compose(
        store,
        scope_id,
        stream_id,
        max_tokens as int,
        recent_raw_tokens as int,
        ranked,
    ) {
        if 0 <= k < bundle.recalled_evidence.len() {
            let visible = visible_scopes(store, scope_id)->Ok_0;
            let access = ReadAccessModel { anchor_scope_id: scope_id, reveal_secrets: false };
            let accepts = hit_readable(store, scope_id);
            let hits = up_to(ranked.filter(accepts), 10);
            let recalled = all_evidence(store, access, hits)->Ok_0;
            let stream_scope = stream_at(store, stream_id).unwrap().scope_id;
            let max = max_tokens as int;
            let raw = recent_raw_tokens as int;
            stages_grow(store, visible, stream_scope, stream_id, max, raw, recalled);
            let s = stages(store, visible, stream_scope, stream_id, max, raw, recalled);
            let event = bundle.recalled_evidence[k];
            let offers = evidence_offers(recalled, s.recent_ids);
            let marks = verdicts(offers, s.observed.used, max);
            packing_counts_what_it_keeps(offers, s.observed.used, max);
            assert(bundle.recalled_evidence == kept(recalled, marks));
            let at = kept_position_offered(recalled, marks, k);
            assert(recalled.contains(event));
            let n = evidence_is_of_some_hit(store, access, hits, event);
            evidence_is_led_to(store, access, hits[n], event);
            assert(may_be_read(store, scope_id) =~= accepts);
            let h = counted_position(ranked, accepts, n);
            assert(ranked[h] == hits[n]);
        }
    }
}

/// What some rows cost together.
pub open spec fn summed<V>(rows: Seq<V>, price: spec_fn(V) -> int) -> int
    decreases rows.len(),
{
    if rows.len() == 0 {
        0
    } else {
        summed(rows.drop_last(), price) + price(rows.last())
    }
}

proof fn kept_rows_cost<V>(
    rows: Seq<V>,
    offers: Seq<OfferModel>,
    marks: Seq<Verdict>,
    price: spec_fn(V) -> int,
)
    requires
        rows.len() == offers.len(),
        rows.len() == marks.len(),
        forall|k: int|
            0 <= k < rows.len() && #[trigger] marks[k] is Kept ==> offers[k].settled is None
                && offers[k].cost == price(rows[k]),
    ensures
        kept_cost(offers, marks) == summed(kept(rows, marks), price),
    decreases rows.len(),
{
    if rows.len() > 0 {
        let front = marks.drop_last();
        assert forall|k: int| 0 <= k < front.len() && #[trigger] front[k] is Kept implies
            offers.drop_last()[k].settled is None && offers.drop_last()[k].cost == price(
            rows.drop_last()[k],
        ) by {
            assert(marks[k] == front[k]);
        }
        kept_rows_cost(rows.drop_last(), offers.drop_last(), front, price);
        let before = kept(rows.drop_last(), front);
        assert(marks[marks.len() - 1] == marks.last());
        if marks.last() is Kept {
            assert(kept(rows, marks).drop_last() =~= before);
        }
    }
}

proof fn inserting_adds_the_price<V>(rows: Seq<V>, at: int, row: V, price: spec_fn(V) -> int)
    requires
        0 <= at <= rows.len(),
    ensures
        summed(rows.insert(at, row), price) == summed(rows, price) + price(row),
    decreases rows.len(),
{
    let all = rows.insert(at, row);
    if at == rows.len() {
        assert(all.drop_last() =~= rows);
    } else {
        assert(all.drop_last() =~= rows.drop_last().insert(at, row));
        assert(all.last() == rows.last());
        inserting_adds_the_price(rows.drop_last(), at, row, price);
    }
}

proof fn ordering_keeps_the_price<V>(
    rows: Seq<V>,
    key: spec_fn(V) -> KeyModel,
    price: spec_fn(V) -> int,
)
    ensures
        summed(ordered(rows, key), price) == summed(rows, price),
    decreases rows.len(),
{
    if rows.len() > 0 {
        let sorted = ordered(rows.drop_last(), key);
        ordering_keeps_the_price(rows.drop_last(), key, price);
        place_splits(sorted, key, key(rows.last()));
        inserting_adds_the_price(
            sorted,
            place(sorted, key, key(rows.last())),
            rows.last(),
            price,
        );
    }
}

proof fn joined_rows_cost<V>(left: Seq<V>, right: Seq<V>, price: spec_fn(V) -> int)
    ensures
        summed(left + right, price) == summed(left, price) + summed(right, price),
    decreases right.len(),
{
    if right.len() == 0 {
        assert(left + right =~= left);
    } else {
        assert((left + right).drop_last() =~= left + right.drop_last());
        joined_rows_cost(left, right.drop_last(), price);
    }
}

proof fn mapped_rows_cost<V, W>(rows: Seq<V>, part: spec_fn(V) -> W, price: spec_fn(W) -> int)
    ensures
        summed(rows.map_values(part), price) == summed(rows, |row: V| price(part(row))),
    decreases rows.len(),
{
    if rows.len() > 0 {
        assert(rows.map_values(part).drop_last() =~= rows.drop_last().map_values(part));
        mapped_rows_cost(rows.drop_last(), part, price);
    }
}

proof fn same_prices<V>(rows: Seq<V>, left: spec_fn(V) -> int, right: spec_fn(V) -> int)
    requires
        forall|row: V| #[trigger] left(row) == right(row),
    ensures
        summed(rows, left) == summed(rows, right),
    decreases rows.len(),
{
    if rows.len() > 0 {
        same_prices(rows.drop_last(), left, right);
    }
}

proof fn claims_cost_is_summed(claims: Seq<ClaimModel>)
    ensures
        claims_cost(claims) == summed(claims, claim_price()),
    decreases claims.len(),
{
    if claims.len() > 0 {
        claims_cost_is_summed(claims.drop_last());
    }
}

proof fn total_cost_is_summed(events: Seq<MemoryEventModel>)
    ensures
        total_cost(events) == summed(events, event_price()),
    decreases events.len(),
{
    if events.len() > 0 {
        total_cost_is_summed(events.drop_last());
    }
}

pub open spec fn claim_price() -> spec_fn(ClaimModel) -> int {
    |claim: ClaimModel| stated_cost(claim)
}

pub open spec fn event_price() -> spec_fn(MemoryEventModel) -> int {
    |event: MemoryEventModel|
        if event.token_count < 0 {
            0int
        } else {
            event.token_count as int
        }
}

pub open spec fn view_price() -> spec_fn(MemoryViewModel) -> int {
    |view: MemoryViewModel|
        if view.token_count < 0 {
            0int
        } else {
            view.token_count as int
        }
}

pub open spec fn observation_price() -> spec_fn(ObservationModel) -> int {
    |observation: ObservationModel| token_estimate(observation.content)
}

/// The cost that a context states is that of all it shows: its claims, its views, its recent
/// events, its observations and its recalled evidence.
pub proof fn context_cost_is_complete(
    store: MemoryStoreModel,
    scope_id: Text,
    stream_id: Text,
    max_tokens: i64,
    recent_raw_tokens: i64,
    ranked: Seq<SearchHitModel>,
)
    ensures
        compose(
            store,
            scope_id,
            stream_id,
            max_tokens as int,
            recent_raw_tokens as int,
            ranked,
        ) matches Ok(bundle) ==> bundle.diagnostics.estimated_tokens == summed(
            bundle.claims,
            claim_price(),
        ) + summed(bundle.continuity_views, view_price()) + summed(
            bundle.pending_claims,
            claim_price(),
        ) + summed(bundle.recent_events, event_price()) + summed(
            bundle.observations,
            observation_price(),
        ) + summed(bundle.recalled_evidence, event_price()),
{
    if let Ok(bundle) = compose(
        store,
        scope_id,
        stream_id,
        max_tokens as int,
        recent_raw_tokens as int,
        ranked,
    ) {
        let visible = visible_scopes(store, scope_id)->Ok_0;
        let access = ReadAccessModel { anchor_scope_id: scope_id, reveal_secrets: false };
        let hits = up_to(ranked.filter(hit_readable(store, scope_id)), 10);
        let recalled = all_evidence(store, access, hits)->Ok_0;
        let stream_scope = stream_at(store, stream_id).unwrap().scope_id;
        let max = max_tokens as int;
        let raw = recent_raw_tokens as int;
        stages_grow(store, visible, stream_scope, stream_id, max, raw, recalled);
        let s = stages(store, visible, stream_scope, stream_id, max, raw, recalled);
        let events = events_after(store, stream_id, 0);
        let len = events.len() as int;
        let continuations = latest_views(store, stream_id, ViewKind::Continuation);
        let continuities = latest_views(store, stream_id, ViewKind::Continuity);
        let pending = pending_claims(store, visible);
        let rows = candidates(store, observation_scopes(visible, stream_scope));
        let first = verdicts(s.first, s.claims.used, max);
        let second = verdicts(s.second, s.continued.used, max);
        let third = verdicts(s.third, s.tailed.used, max);
        let fourth = verdicts(s.fourth, s.viewed.used, max);
        let fifth = verdicts(s.fifth, s.observed.used, max);
        let row_price = |row: ViewRowModel| (view_price())((view_part())(row));
        packing_counts_what_it_keeps(s.first, s.claims.used, max);
        packing_counts_what_it_keeps(s.second, s.continued.used, max);
        packing_counts_what_it_keeps(s.third, s.tailed.used, max);
        packing_counts_what_it_keeps(s.fourth, s.viewed.used, max);
        packing_counts_what_it_keeps(s.fifth, s.observed.used, max);
        settled_offers_are_not_kept(s.fourth, s.viewed.used, max);
        settled_offers_are_not_kept(s.fifth, s.observed.used, max);
        claims_cost_is_summed(bundle.claims);
        kept_rows_cost(continuations, s.first, first, row_price);
        kept_rows_cost(pending, s.second, second, claim_price());
        kept_rows_cost(continuities, s.third, third, row_price);
        kept_rows_cost(rows, s.fourth, fourth, observation_price());
        kept_rows_cost(recalled, s.fifth, fifth, event_price());
        ordering_keeps_the_price(kept(rows, fourth), observation_time(), observation_price());
        let before = kept(continuations, first);
        let behind = kept(continuities, third);
        joined_rows_cost(before, behind, row_price);
        mapped_rows_cost(before + behind, view_part(), view_price());
        tail_is_a_suffix(events, len, 0, s.tail_budget);
        let start = tail_start(events, len, 0, s.tail_budget);
        assert(bundle.recent_events =~= events.subrange(start, len).map_values(redacted_event()));
        total_cost_is_summed(bundle.recent_events);
        assert(s.continued.used == s.claims.used + summed(before, row_price));
        assert(s.waiting.used == s.continued.used + summed(bundle.pending_claims, claim_price()));
        assert(s.tailed.used == s.waiting.used + total_cost(bundle.recent_events));
        assert(s.viewed.used == s.tailed.used + summed(behind, row_price));
        assert(s.observed.used == s.viewed.used + summed(bundle.observations, observation_price()));
        assert(s.done.used == s.observed.used + summed(bundle.recalled_evidence, event_price()));
    }
}

proof fn used_grows(offers: Seq<OfferModel>, used: int, budget: int, a: int, b: int)
    requires
        0 <= a <= b <= offers.len(),
        forall|i: int| 0 <= i < offers.len() ==> (#[trigger] offers[i]).cost >= 0,
    ensures
        used_after(offers.take(a), used, budget) <= used_after(offers.take(b), used, budget),
    decreases b - a,
{
    if a < b {
        used_grows(offers, used, budget, a, b - 1);
        assert(offers.take(b).drop_last() =~= offers.take(b - 1));
        assert(offers.take(b).last() == offers[b - 1]);
    }
}

/// Important observations come first: where an observation is in a context while a more important
/// one is left out for the budget alone, it costs less. And the observations of a context come by
/// age.
pub proof fn important_observations_come_first(
    store: MemoryStoreModel,
    scope_id: Text,
    stream_id: Text,
    max_tokens: i64,
    recent_raw_tokens: i64,
    ranked: Seq<SearchHitModel>,
    o: int,
    i: int,
    j: int,
)
    requires
        0 <= o < store.observations.len(),
    ensures
        compose(
            store,
            scope_id,
            stream_id,
            max_tokens as int,
            recent_raw_tokens as int,
            ranked,
        ) matches Ok(bundle) ==> {
            let left = store.observations[o];
            &&& 0 <= i < j < bundle.observations.len() ==> !text_less(
                bundle.observations[j].created_at,
                bundle.observations[i].created_at,
            )
            &&& (0 <= i < bundle.observations.len() && (visible_scopes(
                store,
                scope_id,
            )->Ok_0.contains(left.scope_id) || stream_at(store, stream_id).unwrap().scope_id
                == left.scope_id) && !bundle.observations.contains(left) && !duplicated(
                store.observation_sources,
                left.id,
                bundle.recent_events.map_values(event_name()),
            ) && !shown_by_view(store, stream_id, bundle, left.id) && more_important(
                left.importance,
                bundle.observations[i].importance,
            )) ==> token_estimate(bundle.observations[i].content) < token_estimate(left.content)
        },
{
    if let Ok(bundle) = compose(
        store,
        scope_id,
        stream_id,
        max_tokens as int,
        recent_raw_tokens as int,
        ranked,
    ) {
        let left = store.observations[o];
        let visible = visible_scopes(store, scope_id)->Ok_0;
        let access = ReadAccessModel { anchor_scope_id: scope_id, reveal_secrets: false };
        let hits = up_to(ranked.filter(hit_readable(store, scope_id)), 10);
        let recalled = all_evidence(store, access, hits)->Ok_0;
        let stream_scope = stream_at(store, stream_id).unwrap().scope_id;
        let max = max_tokens as int;
        let raw = recent_raw_tokens as int;
        stages_grow(store, visible, stream_scope, stream_id, max, raw, recalled);
        let s = stages(store, visible, stream_scope, stream_id, max, raw, recalled);
        let scope_ids = observation_scopes(visible, stream_scope);
        let rows = candidates(store, scope_ids);
        let marks = verdicts(s.fourth, s.viewed.used, max);
        let chosen = kept(rows, marks);
        ordered_rows(chosen, observation_time());
        if 0 <= i < j < bundle.observations.len() {
            assert(!key_less(
                (observation_time())(bundle.observations[j]),
                (observation_time())(bundle.observations[i]),
            ));
            text_order_irreflexive(bundle.observations[i].created_at);
        }
        if 0 <= i < bundle.observations.len() && (visible.contains(left.scope_id) || stream_scope
            == left.scope_id) && !bundle.observations.contains(left) && !duplicated(
            store.observation_sources,
            left.id,
            bundle.recent_events.map_values(event_name()),
        ) && !shown_by_view(store, stream_id, bundle, left.id) && more_important(
            left.importance,
            bundle.observations[i].importance,
        ) {
            let shown = bundle.observations[i];
            assert(bundle.observations.contains(shown));
            ordered_contains(chosen, observation_time(), shown);
            let m = choose|m: int| 0 <= m < chosen.len() && chosen[m] == shown;
            verdicts_are_by_cost(s.fourth, s.viewed.used, max);
            let b = kept_position_offered(rows, marks, m);
            if visible.contains(left.scope_id) {
                let n = choose|n: int| 0 <= n < visible.len() && visible[n] == left.scope_id;
                assert(scope_ids[n] == left.scope_id);
            } else if !listed(visible, stream_scope) {
                assert(scope_ids[visible.len() as int] == left.scope_id);
            } else {
                let n = choose|n: int|
                    0 <= n < visible.len() && #[trigger] visible[n] == left.scope_id;
                assert(scope_ids[n] == left.scope_id);
            }
            let accepts = observation_in(scope_ids);
            let some = store.observations.filter(accepts);
            let by_age = ordered(some, observation_age());
            let at = kept_position(store.observations, accepts, o);
            assert(some[at] == left);
            ordered_contains(some, observation_age(), left);
            ordered_contains(by_age, observation_rank(), left);
            ordered_rows(by_age, observation_rank());
            let a = choose|a: int| 0 <= a < rows.len() && rows[a] == left;
            if b < a {
                assert(!key_less((observation_rank())(rows[a]), (observation_rank())(rows[b])));
            }
            assert(a < b) by {
                if a == b {
                    assert(left == shown);
                }
            }
            let continuities = latest_views(store, stream_id, ViewKind::Continuity);
            let shown_views = kept(continuities, verdicts(s.third, s.tailed.used, max));
            let offer = observation_offer(
                store,
                s.recent_ids,
                view_chain(store.views, shown_views),
            );
            shown_views_represent(
                store,
                stream_id,
                bundle,
                verdicts(s.first, s.claims.used, max),
                verdicts(s.third, s.tailed.used, max),
                left.id,
            );
            assert(s.fourth[a] == offer(left));
            assert(s.fourth[b] == offer(shown));
            if marks[a] is Kept {
                marked_rows_are_kept(rows, marks, a);
                ordered_contains(chosen, observation_time(), left);
            }
            used_grows(s.fourth, s.viewed.used, max, a, b);
        }
    }
}

/// Whether one score is higher than another, both being without a sign: their bits grow with them.
pub open spec fn more_important(left: Real, right: Real) -> bool {
    left.bits < 0x8000_0000_0000_0000 && right.bits < 0x8000_0000_0000_0000 && left.bits
        > right.bits
}

/// A context without a query can be composed exactly where the stream is there and its scope is
/// visible from the anchor or lies below it, and the active claims of the visible scopes fit the
/// budget by themselves.
pub proof fn contexts_can_be_composed(
    store: MemoryStoreModel,
    scope_id: Text,
    stream_id: Text,
    max_tokens: i64,
    recent_raw_tokens: i64,
)
    requires
        visible_scopes(store, scope_id) is Ok,
        stream_at(store, stream_id) matches Some(stream) ==> visible_scopes(
            store,
            stream.scope_id,
        ) is Ok,
    ensures
        compose(
            store,
            scope_id,
            stream_id,
            max_tokens as int,
            recent_raw_tokens as int,
            Seq::empty(),
        ) is Ok <==> {
            &&& max_tokens > 0
            &&& recent_raw_tokens >= 0
            &&& stream_at(store, stream_id) matches Some(stream) && (visible_scopes(
                store,
                scope_id,
            )->Ok_0.contains(stream.scope_id) || visible_scopes(
                store,
                stream.scope_id,
            )->Ok_0.contains(scope_id))
            &&& summed(
                claims_by_scope(
                    store,
                    visible_scopes(store, scope_id)->Ok_0,
                    ClaimStatus::Active,
                ),
                claim_price(),
            ) <= max_tokens
        },
{
    let visible = visible_scopes(store, scope_id)->Ok_0;
    claims_cost_is_summed(claims_by_scope(store, visible, ClaimStatus::Active));
    reveal(Seq::filter);
    let none = Seq::<SearchHitModel>::empty();
    assert(none.filter(hit_readable(store, scope_id)).len() == 0);
    if let Some(stream) = stream_at(store, stream_id) {
        let above = visible_scopes(store, stream.scope_id)->Ok_0;
        listing_is_containing(visible, stream.scope_id);
        listing_is_containing(above, scope_id);
    }
}

proof fn listing_is_containing(texts: Seq<Text>, text: Text)
    ensures
        listed(texts, text) <==> texts.contains(text),
{
    if listed(texts, text) {
        let k = choose|k: int| 0 <= k < texts.len() && #[trigger] texts[k] == text;
        assert(texts.contains(texts[k]));
    }
    if texts.contains(text) {
        let k = choose|k: int| 0 <= k < texts.len() && texts[k] == text;
        assert(listed(texts, texts[k]));
    }
}

} // verus!
