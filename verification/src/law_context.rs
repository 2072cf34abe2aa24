//! Laws of contexts: hard budgets, complete active state, no secrets, no foreign scopes, nothing
//! said twice.

use vstd::prelude::*;

use crate::budget::{
    kept, packing_stays_within, tallied, used_after, verdict_on, verdicts, OfferModel, TallyModel,
    Verdict,
};
use crate::claim_table::{claim_age, claim_in, claims_in};
use crate::context::{
    budget_too_small, candidates, claim_name, claim_offer, claims_cost, compose, composed,
    duplicated, evidence_offers, event_name, latest_views, observation_age, observation_in,
    observation_name, observation_offer, observation_rank, observation_scopes, observation_time,
    pending_claims, raw_budget, recent_tail, represented, stream_refusal, tail_cost, tail_tallied,
    view_back_edges, view_chain, view_name, view_offer, view_root,
};
use crate::error::first_error_none;
use crate::event::{redacted, shown, stream_at};
use crate::graph::{closed_under, holds_all};
use crate::json::{empty_object, redacted_content};
use crate::kind::{ClaimStatus, ViewKind};
use crate::law_claim::ordered_contains;
use crate::law_event::{filtered_position, kept_position};
use crate::model::{ClaimModel, ContextBundleModel, MemoryEventModel, ReadAccessModel, SearchHitModel};
use crate::observation::{claims_by_scope, cost, events_after, scope_position};
use crate::order::ordered;
use crate::recall::{
    all_evidence, evidence, event_read_refusal, hit_evidence, hit_in, hit_readable, hits_of,
    shown_all, up_to,
};
use crate::row::{MemoryStoreModel, NodeModel};
use crate::scope::{readable_from, visible_scopes};
use crate::text::{listed, token_estimate, Text};
use crate::view::{latest_view, view_generation, view_of, view_part};

verus! {

/// Claims never cost less than nothing.
pub proof fn claims_cost_is_positive(claims: Seq<ClaimModel>)
    ensures
        claims_cost(claims) >= 0,
    decreases claims.len(),
{
    if claims.len() > 0 {
        claims_cost_is_positive(claims.drop_last());
    }
}

/// The recent events never cost more than their budget.
pub proof fn tail_stays_within(events: Seq<MemoryEventModel>, from: int, spent: int, budget: int)
    requires
        0 <= spent <= budget,
    ensures
        spent <= tail_cost(events, from, spent, budget) <= budget,
    decreases from,
{
    if from > 0 {
        let next = spent + cost(redacted(events[from - 1]).token_count);
        if next <= budget {
            tail_stays_within(events, from - 1, next, budget);
        }
    }
}

/// A context that is handed out never costs more than its budget.
pub proof fn context_keeps_to_its_budget(
    store: MemoryStoreModel,
    scope_id: Text,
    stream_id: Text,
    max_tokens: i64,
    recent_raw_tokens: i64,
    ranked: Seq<SearchHitModel>,
)
    ensures
        compose(
            store,
            scope_id,
            stream_id,
            max_tokens as int,
            recent_raw_tokens as int,
            ranked,
        ) matches Ok(bundle) ==> 0 <= bundle.diagnostics.estimated_tokens <= max_tokens,
{
    let outcome = compose(
        store,
        scope_id,
        stream_id,
        max_tokens as int,
        recent_raw_tokens as int,
        ranked,
    );
    if outcome is Ok {
        let visible = visible_scopes(store, scope_id)->Ok_0;
        let access = ReadAccessModel { anchor_scope_id: scope_id, reveal_secrets: false };
        let hits = up_to(ranked.filter(hit_readable(store, scope_id)), 10);
        let found = all_evidence(store, access, hits)->Ok_0;
        composed_keeps_to_its_budget(
            store,
            visible,
            stream_at(store, stream_id).unwrap().scope_id,
            stream_id,
            max_tokens as int,
            recent_raw_tokens as int,
            found,
        );
    }
}

proof fn composed_keeps_to_its_budget(
    store: MemoryStoreModel,
    visible: Seq<Text>,
    stream_scope: Text,
    stream_id: Text,
    max_tokens: int,
    recent_raw_tokens: int,
    found: Seq<MemoryEventModel>,
)
    requires
        0 < max_tokens <= i64::MAX,
        0 <= recent_raw_tokens,
        claims_cost(claims_by_scope(store, visible, ClaimStatus::Active)) <= max_tokens,
    ensures
        0 <= composed(
            store,
            visible,
            stream_scope,
            stream_id,
            max_tokens,
            recent_raw_tokens,
            found,
        ).diagnostics.estimated_tokens <= max_tokens,
{
    let claims = claims_by_scope(store, visible, ClaimStatus::Active);
    claims_cost_is_positive(claims);
    let start = TallyModel { used: claims_cost(claims), omitted: Seq::empty() };
    let continuations = latest_views(store, stream_id, ViewKind::Continuation);
    let first = continuations.map_values(view_offer());
    packing_stays_within(first, start.used, max_tokens);
    let continued = tallied(start, continuations.map_values(view_name()), first, max_tokens);
    let pending = pending_claims(store, visible);
    let second = pending.map_values(claim_offer());
    packing_stays_within(second, continued.used, max_tokens);
    let waiting = tallied(continued, pending.map_values(claim_name()), second, max_tokens);
    let events = events_after(store, stream_id, 0);
    let tail_budget = raw_budget(recent_raw_tokens, max_tokens, waiting.used);
    tail_stays_within(events, events.len() as int, 0, tail_budget);
    let tailed = tail_tallied(waiting, events, tail_budget);
    let recent_ids = recent_tail(events, tail_budget).map_values(event_name());
    let continuities = latest_views(store, stream_id, ViewKind::Continuity);
    let third = continuities.map_values(view_offer());
    packing_stays_within(third, tailed.used, max_tokens);
    let viewed = tallied(tailed, continuities.map_values(view_name()), third, max_tokens);
    let shown_views = kept(continuities, verdicts(third, tailed.used, max_tokens));
    let rows = candidates(store, observation_scopes(visible, stream_scope));
    let fourth = rows.map_values(
        observation_offer(store, recent_ids, view_chain(store.views, shown_views)),
    );
    packing_stays_within(fourth, viewed.used, max_tokens);
    let observed = tallied(viewed, rows.map_values(observation_name()), fourth, max_tokens);
    let fifth = evidence_offers(found, recent_ids);
    packing_stays_within(fifth, observed.used, max_tokens);
}

/// Active state is never trimmed: a context holds all active claims of the visible scopes, and
/// where these alone exceed the budget, the context is refused with what it would take.
pub proof fn active_claims_are_complete(
    store: MemoryStoreModel,
    scope_id: Text,
    stream_id: Text,
    max_tokens: int,
    recent_raw_tokens: int,
    ranked: Seq<SearchHitModel>,
)
    requires
        max_tokens > 0,
        recent_raw_tokens >= 0,
        visible_scopes(store, scope_id) is Ok,
        stream_refusal(store, scope_id, visible_scopes(store, scope_id)->Ok_0, stream_id) is None,
    ensures
        ({
            let claims = claims_by_scope(
                store,
                visible_scopes(store, scope_id)->Ok_0,
                ClaimStatus::Active,
            );
            match compose(store, scope_id, stream_id, max_tokens, recent_raw_tokens, ranked) {
                Ok(bundle) => bundle.claims == claims && claims_cost(claims) <= max_tokens,
                Err(error) => claims_cost(claims) > max_tokens ==> error == budget_too_small(
                    claims_cost(claims),
                ),
            }
        }),
        ranked.len() == 0 && claims_cost(
            claims_by_scope(store, visible_scopes(store, scope_id)->Ok_0, ClaimStatus::Active),
        ) <= max_tokens ==> compose(
            store,
            scope_id,
            stream_id,
            max_tokens,
            recent_raw_tokens,
            ranked,
        ) is Ok,
{
    if ranked.len() == 0 {
        reveal(Seq::filter);
        assert(ranked.filter(hit_readable(store, scope_id)).len() == 0);
    }
}

/// Whether a row is one of those that were offered.
pub proof fn kept_rows_were_offered<V>(rows: Seq<V>, marks: Seq<Verdict>, i: int)
    requires
        0 <= i < kept(rows, marks).len(),
    ensures
        rows.contains(kept(rows, marks)[i]),
    decreases rows.len(),
{
    if rows.len() > 0 && marks.len() > 0 {
        let front = kept(rows.drop_last(), marks.drop_last());
        if i < front.len() {
            kept_rows_were_offered(rows.drop_last(), marks.drop_last(), i);
            let k = choose|k: int|
                0 <= k < rows.drop_last().len() && rows.drop_last()[k] == front[i];
            assert(rows[k] == front[i]);
        } else {
            assert(rows[rows.len() - 1] == rows.last());
        }
    }
}

/// Whether nothing of a secret can be read from an event.
pub open spec fn hides_secret(event: MemoryEventModel) -> bool {
    event.sensitivity is Secret ==> event.content == redacted_content() && event.metadata
        == empty_object()
}

proof fn shown_events_hide_secrets(
    store: MemoryStoreModel,
    access: ReadAccessModel,
    events: Seq<MemoryEventModel>,
)
    requires
        !access.reveal_secrets,
    ensures
        shown_all(store, access, events) matches Ok(shown) ==> forall|i: int|
            0 <= i < shown.len() ==> hides_secret(#[trigger] shown[i]) && readable_from(
                store,
                access.anchor_scope_id,
                shown[i].scope_id,
            ),
{
    let check = event_read_refusal(store, access);
    first_error_none(events, check);
    if let Ok(shown) = shown_all(store, access, events) {
        assert forall|i: int| 0 <= i < shown.len() implies hides_secret(#[trigger] shown[i])
            && readable_from(store, access.anchor_scope_id, shown[i].scope_id) by {
            assert(shown[i] == redacted(events[i]));
            assert(check(events[i]) is None);
        }
    }
}

proof fn evidence_hides_secrets(
    store: MemoryStoreModel,
    access: ReadAccessModel,
    hits: Seq<SearchHitModel>,
)
    requires
        !access.reveal_secrets,
    ensures
        all_evidence(store, access, hits) matches Ok(events) ==> forall|i: int|
            0 <= i < events.len() ==> hides_secret(#[trigger] events[i]) && readable_from(
                store,
                access.anchor_scope_id,
                events[i].scope_id,
            ),
    decreases hits.len(),
{
    if hits.len() > 0 {
        evidence_hides_secrets(store, access, hits.drop_last());
        let hit = hits.last();
        shown_events_hide_secrets(
            store,
            access,
            evidence(store, store.observation_sources, hit.id),
        );
        shown_events_hide_secrets(store, access, evidence(store, store.claim_sources, hit.id));
        if let Ok(before) = all_evidence(store, access, hits.drop_last()) {
            if let Ok(more) = hit_evidence(store, access, hit) {
                let events = before + more;
                assert forall|i: int| 0 <= i < events.len() implies hides_secret(
                    #[trigger] events[i],
                ) && readable_from(store, access.anchor_scope_id, events[i].scope_id) by {
                    if i < before.len() {
                        assert(events[i] == before[i]);
                    } else {
                        assert(events[i] == more[i - before.len()]);
                    }
                }
            }
        }
    }
}

/// The position at which a kept row was offered: its verdict is to keep it.
pub proof fn kept_position_offered<V>(rows: Seq<V>, marks: Seq<Verdict>, i: int) -> (k: int)
    requires
        rows.len() == marks.len(),
        0 <= i < kept(rows, marks).len(),
    ensures
        i <= k < rows.len(),
        rows[k] == kept(rows, marks)[i],
        marks[k] is Kept,
    decreases rows.len(),
{
    let front = kept(rows.drop_last(), marks.drop_last());
    if i < front.len() {
        kept_position_offered(rows.drop_last(), marks.drop_last(), i)
    } else {
        kept_is_no_longer(rows.drop_last(), marks.drop_last());
        rows.len() - 1
    }
}

proof fn kept_is_no_longer<V>(rows: Seq<V>, marks: Seq<Verdict>)
    ensures
        kept(rows, marks).len() <= rows.len(),
    decreases rows.len(),
{
    if rows.len() > 0 && marks.len() > 0 {
        kept_is_no_longer(rows.drop_last(), marks.drop_last());
    }
}

/// Two kept rows were offered in their order, both to be kept.
pub proof fn kept_positions_offered<V>(rows: Seq<V>, marks: Seq<Verdict>, i: int, j: int) -> (at: (
    int,
    int,
))
    requires
        rows.len() == marks.len(),
        0 <= i < j < kept(rows, marks).len(),
    ensures
        0 <= at.0 < at.1 < rows.len(),
        rows[at.0] == kept(rows, marks)[i],
        rows[at.1] == kept(rows, marks)[j],
        marks[at.0] is Kept,
        marks[at.1] is Kept,
    decreases rows.len(),
{
    let front = kept(rows.drop_last(), marks.drop_last());
    if j < front.len() {
        kept_positions_offered(rows.drop_last(), marks.drop_last(), i, j)
    } else {
        let k = kept_position_offered(rows.drop_last(), marks.drop_last(), i);
        (k, rows.len() - 1)
    }
}

/// An offer whose verdict was settled otherwise is not kept.
pub proof fn settled_offers_are_not_kept(offers: Seq<OfferModel>, used: int, budget: int)
    ensures
        verdicts(offers, used, budget).len() == offers.len(),
        forall|k: int|
            0 <= k < offers.len() && #[trigger] verdicts(offers, used, budget)[k] is Kept
                ==> offers[k].settled is None || offers[k].settled == Some(Verdict::Kept),
    decreases offers.len(),
{
    if offers.len() > 0 {
        settled_offers_are_not_kept(offers.drop_last(), used, budget);
        let marks = verdicts(offers, used, budget);
        let front = verdicts(offers.drop_last(), used, budget);
        assert forall|k: int| 0 <= k < offers.len() && #[trigger] marks[k] is Kept implies
            offers[k].settled is None || offers[k].settled == Some(Verdict::Kept) by {
            if k < front.len() {
                assert(front[k] == marks[k]);
                assert(offers.drop_last()[k] == offers[k]);
            }
        }
    }
}

/// Whether the continuity view in a context, or an earlier generation of it, represents an
/// observation.
pub open spec fn shown_by_view(
    store: MemoryStoreModel,
    stream_id: Text,
    bundle: ContextBundleModel,
    id: Text,
) -> bool {
    latest_view(store, stream_id, ViewKind::Continuity) matches Some(row)
        && bundle.continuity_views.contains(row.view) && represented(
        store.view_sources,
        view_chain(store.views, seq![row]),
        id,
    )
}

/// Whether a context says nothing twice: it shows no observation all of whose evidence is among its
/// recent events, or that its continuity view or an earlier generation of it represents, and what
/// it recalls repeats neither a recent event nor itself.
pub open spec fn repeats_nothing(
    store: MemoryStoreModel,
    stream_id: Text,
    bundle: ContextBundleModel,
) -> bool {
    let recent_ids = bundle.recent_events.map_values(event_name());
    &&& forall|i: int|
        0 <= i < bundle.observations.len() ==> !duplicated(
            store.observation_sources,
            (#[trigger] bundle.observations[i]).id,
            recent_ids,
        )
    &&& forall|i: int|
        0 <= i < bundle.observations.len() ==> !shown_by_view(
            store,
            stream_id,
            bundle,
            (#[trigger] bundle.observations[i]).id,
        )
    &&& forall|i: int|
        0 <= i < bundle.recalled_evidence.len() ==> !listed(
            recent_ids,
            (#[trigger] bundle.recalled_evidence[i]).id,
        )
    &&& forall|i: int, j: int|
        0 <= i < j < bundle.recalled_evidence.len() ==> (#[trigger] bundle.recalled_evidence[i]).id
            != (#[trigger] bundle.recalled_evidence[j]).id
}

/// A context never says a thing twice.
pub proof fn context_does_not_repeat(
    store: MemoryStoreModel,
    scope_id: Text,
    stream_id: Text,
    max_tokens: int,
    recent_raw_tokens: int,
    ranked: Seq<SearchHitModel>,
)
    ensures
        compose(store, scope_id, stream_id, max_tokens, recent_raw_tokens, ranked) matches Ok(bundle)
            ==> repeats_nothing(store, stream_id, bundle),
{
    if let Ok(bundle) = compose(
        store,
        scope_id,
        stream_id,
        max_tokens,
        recent_raw_tokens,
        ranked,
    ) {
        let access = ReadAccessModel { anchor_scope_id: scope_id, reveal_secrets: false };
        let hits = up_to(ranked.filter(hit_readable(store, scope_id)), 10);
        composed_does_not_repeat(
            store,
            visible_scopes(store, scope_id)->Ok_0,
            stream_at(store, stream_id).unwrap().scope_id,
            stream_id,
            max_tokens,
            recent_raw_tokens,
            all_evidence(store, access, hits)->Ok_0,
        );
    }
}

proof fn latest_view_is_of_its_kind(store: MemoryStoreModel, stream_id: Text, kind: ViewKind)
    ensures
        latest_view(store, stream_id, kind) matches Some(row) ==> row.view.kind == kind,
{
    if let Some(row) = latest_view(store, stream_id, kind) {
        let rows = store.views.filter(view_of(stream_id, kind));
        let sorted = ordered(rows, view_generation());
        assert(sorted[sorted.len() - 1] == row);
        ordered_contains(rows, view_generation(), row);
        let k = choose|k: int| 0 <= k < rows.len() && rows[k] == row;
        let at = filtered_position(store.views, view_of(stream_id, kind), k);
    }
}

/// The views that a context keeps of the latest ones represent what its continuity view does.
pub proof fn shown_views_represent(
    store: MemoryStoreModel,
    stream_id: Text,
    bundle: ContextBundleModel,
    first_marks: Seq<Verdict>,
    second_marks: Seq<Verdict>,
    id: Text,
)
    requires
        bundle.continuity_views == (kept(
            latest_views(store, stream_id, ViewKind::Continuation),
            first_marks,
        ) + kept(latest_views(store, stream_id, ViewKind::Continuity), second_marks)).map_values(
            view_part(),
        ),
    ensures
        represented(
            store.view_sources,
            view_chain(
                store.views,
                kept(latest_views(store, stream_id, ViewKind::Continuity), second_marks),
            ),
            id,
        ) == shown_by_view(store, stream_id, bundle, id),
{
    let continuations = latest_views(store, stream_id, ViewKind::Continuation);
    let continuities = latest_views(store, stream_id, ViewKind::Continuity);
    let before = kept(continuations, first_marks);
    let shown_views = kept(continuities, second_marks);
    let both = before + shown_views;
    kept_is_no_longer(continuities, second_marks);
    latest_view_is_of_its_kind(store, stream_id, ViewKind::Continuity);
    latest_view_is_of_its_kind(store, stream_id, ViewKind::Continuation);
    if shown_views.len() > 0 {
        kept_rows_were_offered(continuities, second_marks, 0);
        let row = continuities[0];
        assert(shown_views =~= seq![row]);
        assert(both[before.len() as int] == row);
        assert(bundle.continuity_views[before.len() as int] == row.view);
    } else {
        let nothing = Set::<NodeModel>::empty();
        assert(closed_under(view_back_edges(store.views), nothing));
        assert(holds_all(nothing, shown_views.map_values(view_root())));
        if let Some(row) = latest_view(store, stream_id, ViewKind::Continuity) {
            if bundle.continuity_views.contains(row.view) {
                let n = choose|n: int|
                    0 <= n < bundle.continuity_views.len() && bundle.continuity_views[n]
                        == row.view;
                assert(both[n].view == row.view);
                kept_rows_were_offered(continuations, first_marks, n);
                assert(before[n] == continuations[0]);
            }
        }
    }
}

proof fn composed_does_not_repeat(
    store: MemoryStoreModel,
    visible: Seq<Text>,
    stream_scope: Text,
    stream_id: Text,
    max_tokens: int,
    recent_raw_tokens: int,
    recalled: Seq<MemoryEventModel>,
)
    ensures
        repeats_nothing(
            store,
            stream_id,
            composed(
                store,
                visible,
                stream_scope,
                stream_id,
                max_tokens,
                recent_raw_tokens,
                recalled,
            ),
        ),
{
    let bundle = composed(
        store,
        visible,
        stream_scope,
        stream_id,
        max_tokens,
        recent_raw_tokens,
        recalled,
    );
    let claims = claims_by_scope(store, visible, ClaimStatus::Active);
    let start = TallyModel { used: claims_cost(claims), omitted: Seq::empty() };
    let continuations = latest_views(store, stream_id, ViewKind::Continuation);
    let first = continuations.map_values(view_offer());
    let kept_continuations = kept(continuations, verdicts(first, start.used, max_tokens));
    let continued = tallied(start, continuations.map_values(view_name()), first, max_tokens);
    let pending = pending_claims(store, visible);
    let second = pending.map_values(claim_offer());
    let waiting = tallied(continued, pending.map_values(claim_name()), second, max_tokens);
    let events = events_after(store, stream_id, 0);
    let tail_budget = raw_budget(recent_raw_tokens, max_tokens, waiting.used);
    let tailed = tail_tallied(waiting, events, tail_budget);
    let recent_ids = recent_tail(events, tail_budget).map_values(event_name());
    let continuities = latest_views(store, stream_id, ViewKind::Continuity);
    let third = continuities.map_values(view_offer());
    let viewed = tallied(tailed, continuities.map_values(view_name()), third, max_tokens);
    let shown_views = kept(continuities, verdicts(third, tailed.used, max_tokens));
    let chain = view_chain(store.views, shown_views);
    let rows = candidates(store, observation_scopes(visible, stream_scope));
    let offer = observation_offer(store, recent_ids, chain);
    let fourth = rows.map_values(offer);
    let marks = verdicts(fourth, viewed.used, max_tokens);
    let chosen = kept(rows, marks);
    settled_offers_are_not_kept(fourth, viewed.used, max_tokens);
    assert(bundle.observations == ordered(chosen, observation_time()));
    assert forall|i: int| 0 <= i < bundle.observations.len() implies !duplicated(
        store.observation_sources,
        (#[trigger] bundle.observations[i]).id,
        recent_ids,
    ) && !represented(store.view_sources, chain, bundle.observations[i].id) by {
        let observation = bundle.observations[i];
        assert(bundle.observations.contains(observation));
        ordered_contains(chosen, observation_time(), observation);
        let m = choose|m: int| 0 <= m < chosen.len() && chosen[m] == observation;
        let k = kept_position_offered(rows, marks, m);
        assert(fourth[k] == offer(rows[k]));
        assert(marks[k] is Kept);
    }
    assert forall|i: int| 0 <= i < bundle.observations.len() implies !shown_by_view(
        store,
        stream_id,
        bundle,
        (#[trigger] bundle.observations[i]).id,
    ) by {
        shown_views_represent(
            store,
            stream_id,
            bundle,
            verdicts(first, start.used, max_tokens),
            verdicts(third, tailed.used, max_tokens),
            bundle.observations[i].id,
        );
    }
    let fifth = evidence_offers(recalled, recent_ids);
    let observed = tallied(viewed, rows.map_values(observation_name()), fourth, max_tokens);
    let last_marks = verdicts(fifth, observed.used, max_tokens);
    settled_offers_are_not_kept(fifth, observed.used, max_tokens);
    assert(bundle.recalled_evidence == kept(recalled, last_marks));
    assert forall|i: int| 0 <= i < bundle.recalled_evidence.len() implies !listed(
        recent_ids,
        (#[trigger] bundle.recalled_evidence[i]).id,
    ) by {
        let k = kept_position_offered(recalled, last_marks, i);
        assert(fifth[k].settled is None);
    }
    assert forall|i: int, j: int| 0 <= i < j < bundle.recalled_evidence.len() implies (
    #[trigger] bundle.recalled_evidence[i]).id != (#[trigger] bundle.recalled_evidence[j]).id by {
        let (a, b) = kept_positions_offered(recalled, last_marks, i, j);
        assert(fifth[b].settled is None);
        let earlier = recalled.take(b).map_values(event_name());
        assert(earlier[a] == recalled[a].id);
    }
}

/// A row whose verdict is to keep it is kept.
pub proof fn marked_rows_are_kept<V>(rows: Seq<V>, marks: Seq<Verdict>, k: int)
    requires
        rows.len() == marks.len(),
        0 <= k < rows.len(),
        marks[k] is Kept,
    ensures
        kept(rows, marks).contains(rows[k]),
    decreases rows.len(),
{
    let front = kept(rows.drop_last(), marks.drop_last());
    let all = kept(rows, marks);
    if k < rows.len() - 1 {
        marked_rows_are_kept(rows.drop_last(), marks.drop_last(), k);
        let i = choose|i: int| 0 <= i < front.len() && front[i] == rows[k];
        assert(all[i] == rows[k]);
    } else {
        assert(all[front.len() as int] == rows[k]);
    }
}

/// An offer that fits beside all that is kept in the end is kept, unless that was settled.
pub proof fn fitting_offers_are_kept(offers: Seq<OfferModel>, used: int, budget: int, k: int)
    requires
        used <= budget,
        forall|i: int| 0 <= i < offers.len() ==> (#[trigger] offers[i]).cost >= 0,
        0 <= k < offers.len(),
        offers[k].settled is None,
        used_after(offers, used, budget) + offers[k].cost <= budget,
    ensures
        verdicts(offers, used, budget).len() == offers.len(),
        verdicts(offers, used, budget)[k] is Kept,
    decreases offers.len(),
{
    settled_offers_are_not_kept(offers, used, budget);
    let front = offers.drop_last();
    assert forall|i: int| 0 <= i < front.len() implies (#[trigger] front[i]).cost >= 0 by {
        assert(front[i] == offers[i]);
    }
    assert(offers[offers.len() - 1].cost >= 0);
    if k < offers.len() - 1 {
        assert(front[k] == offers[k]);
        fitting_offers_are_kept(front, used, budget, k);
    }
}

/// A context leaves out no observation without need: one of the visible scopes, or of the scope of
/// the stream, that neither the recent events nor the continuity view in the context already show,
/// and that fits beside all that the context holds, is in it.
pub proof fn fitting_observations_are_shown(
    store: MemoryStoreModel,
    scope_id: Text,
    stream_id: Text,
    max_tokens: i64,
    recent_raw_tokens: i64,
    ranked: Seq<SearchHitModel>,
    o: int,
)
    requires
        0 <= o < store.observations.len(),
    ensures
        compose(
            store,
            scope_id,
            stream_id,
            max_tokens as int,
            recent_raw_tokens as int,
            ranked,
        ) matches Ok(bundle) ==> {
            let observation = store.observations[o];
            ({
                &&& listed(visible_scopes(store, scope_id)->Ok_0, observation.scope_id)
                    || observation.scope_id == stream_at(store, stream_id).unwrap().scope_id
                &&& !duplicated(
                    store.observation_sources,
                    observation.id,
                    bundle.recent_events.map_values(event_name()),
                )
                &&& !shown_by_view(store, stream_id, bundle, observation.id)
                &&& bundle.diagnostics.estimated_tokens + token_estimate(observation.content)
                    <= max_tokens
            }) ==> bundle.observations.contains(observation)
        },
{
    if let Ok(bundle) = compose(
        store,
        scope_id,
        stream_id,
        max_tokens as int,
        recent_raw_tokens as int,
        ranked,
    ) {
        let access = ReadAccessModel { anchor_scope_id: scope_id, reveal_secrets: false };
        let hits = up_to(ranked.filter(hit_readable(store, scope_id)), 10);
        let visible = visible_scopes(store, scope_id)->Ok_0;
        let stream_scope = stream_at(store, stream_id).unwrap().scope_id;
        let scope_ids = observation_scopes(visible, stream_scope);
        let id = store.observations[o].scope_id;
        if listed(visible, id) || id == stream_scope {
            if listed(visible, id) {
                let n = choose|n: int| 0 <= n < visible.len() && #[trigger] visible[n] == id;
                assert(scope_ids[n] == id);
            } else {
                assert(scope_ids[visible.len() as int] == id);
            }
            composed_shows_what_fits(
                store,
                visible,
                stream_scope,
                stream_id,
                max_tokens as int,
                recent_raw_tokens as int,
                all_evidence(store, access, hits)->Ok_0,
                o,
            );
        }
    }
}

proof fn composed_shows_what_fits(
    store: MemoryStoreModel,
    visible: Seq<Text>,
    stream_scope: Text,
    stream_id: Text,
    max_tokens: int,
    recent_raw_tokens: int,
    recalled: Seq<MemoryEventModel>,
    o: int,
)
    requires
        0 < max_tokens <= i64::MAX,
        0 <= recent_raw_tokens,
        claims_cost(claims_by_scope(store, visible, ClaimStatus::Active)) <= max_tokens,
        0 <= o < store.observations.len(),
        listed(observation_scopes(visible, stream_scope), store.observations[o].scope_id),
    ensures
        ({
            let bundle = composed(
                store,
                visible,
                stream_scope,
                stream_id,
                max_tokens,
                recent_raw_tokens,
                recalled,
            );
            let observation = store.observations[o];
            ({
                &&& !duplicated(
                    store.observation_sources,
                    observation.id,
                    bundle.recent_events.map_values(event_name()),
                )
                &&& !shown_by_view(store, stream_id, bundle, observation.id)
                &&& bundle.diagnostics.estimated_tokens + token_estimate(observation.content)
                    <= max_tokens
            }) ==> bundle.observations.contains(observation)
        }),
{
    let bundle = composed(
        store,
        visible,
        stream_scope,
        stream_id,
        max_tokens,
        recent_raw_tokens,
        recalled,
    );
    let observation = store.observations[o];
    let claims = claims_by_scope(store, visible, ClaimStatus::Active);
    claims_cost_is_positive(claims);
    let start = TallyModel { used: claims_cost(claims), omitted: Seq::empty() };
    let continuations = latest_views(store, stream_id, ViewKind::Continuation);
    let first = continuations.map_values(view_offer());
    packing_stays_within(first, start.used, max_tokens);
    let continued = tallied(start, continuations.map_values(view_name()), first, max_tokens);
    let pending = pending_claims(store, visible);
    let second = pending.map_values(claim_offer());
    packing_stays_within(second, continued.used, max_tokens);
    let waiting = tallied(continued, pending.map_values(claim_name()), second, max_tokens);
    let events = events_after(store, stream_id, 0);
    let tail_budget = raw_budget(recent_raw_tokens, max_tokens, waiting.used);
    tail_stays_within(events, events.len() as int, 0, tail_budget);
    let tailed = tail_tallied(waiting, events, tail_budget);
    let recent_ids = recent_tail(events, tail_budget).map_values(event_name());
    let continuities = latest_views(store, stream_id, ViewKind::Continuity);
    let third = continuities.map_values(view_offer());
    packing_stays_within(third, tailed.used, max_tokens);
    let viewed = tallied(tailed, continuities.map_values(view_name()), third, max_tokens);
    let shown_views = kept(continuities, verdicts(third, tailed.used, max_tokens));
    let chain = view_chain(store.views, shown_views);
    let scope_ids = observation_scopes(visible, stream_scope);
    let rows = candidates(store, scope_ids);
    let offer = observation_offer(store, recent_ids, chain);
    let fourth = rows.map_values(offer);
    packing_stays_within(fourth, viewed.used, max_tokens);
    let observed = tallied(viewed, rows.map_values(observation_name()), fourth, max_tokens);
    let fifth = evidence_offers(recalled, recent_ids);
    packing_stays_within(fifth, observed.used, max_tokens);
    shown_views_represent(
        store,
        stream_id,
        bundle,
        verdicts(first, start.used, max_tokens),
        verdicts(third, tailed.used, max_tokens),
        observation.id,
    );
    if !duplicated(store.observation_sources, observation.id, recent_ids) && !shown_by_view(
        store,
        stream_id,
        bundle,
        observation.id,
    ) && bundle.diagnostics.estimated_tokens + token_estimate(observation.content) <= max_tokens {
        let accepts = observation_in(scope_ids);
        let some = store.observations.filter(accepts);
        let by_age = ordered(some, observation_age());
        let n = kept_position(store.observations, accepts, o);
        assert(some[n] == observation);
        ordered_contains(some, observation_age(), observation);
        ordered_contains(by_age, observation_rank(), observation);
        let k = choose|k: int| 0 <= k < rows.len() && rows[k] == observation;
        let marks = verdicts(fourth, viewed.used, max_tokens);
        assert(fourth[k] == offer(observation));
        fitting_offers_are_kept(fourth, viewed.used, max_tokens, k);
        marked_rows_are_kept(rows, marks, k);
        ordered_contains(kept(rows, marks), observation_time(), observation);
    }
}

/// A context never shows a secret: the content and metadata of secret events are replaced, among
/// the recent events and in recalled evidence.
pub proof fn context_hides_secrets(
    store: MemoryStoreModel,
    scope_id: Text,
    stream_id: Text,
    max_tokens: int,
    recent_raw_tokens: int,
    ranked: Seq<SearchHitModel>,
)
    ensures
        compose(store, scope_id, stream_id, max_tokens, recent_raw_tokens, ranked) matches Ok(bundle)
            ==> {
            &&& forall|i: int|
                0 <= i < bundle.recent_events.len() ==> hides_secret(
                    #[trigger] bundle.recent_events[i],
                )
            &&& forall|i: int|
                0 <= i < bundle.recalled_evidence.len() ==> hides_secret(
                    #[trigger] bundle.recalled_evidence[i],
                ) && readable_from(store, scope_id, bundle.recalled_evidence[i].scope_id)
        },
{
    if let Ok(bundle) = compose(
        store,
        scope_id,
        stream_id,
        max_tokens,
        recent_raw_tokens,
        ranked,
    ) {
        let access = ReadAccessModel { anchor_scope_id: scope_id, reveal_secrets: false };
        let hits = up_to(ranked.filter(hit_readable(store, scope_id)), 10);
        let found = all_evidence(store, access, hits)->Ok_0;
        evidence_hides_secrets(store, access, hits);
        assert forall|i: int| 0 <= i < bundle.recalled_evidence.len() implies hides_secret(
            #[trigger] bundle.recalled_evidence[i],
        ) && readable_from(store, scope_id, bundle.recalled_evidence[i].scope_id) by {
            let marks = choose|marks: Seq<Verdict>|
                bundle.recalled_evidence == #[trigger] kept(found, marks);
            kept_rows_were_offered(found, marks, i);
            let k = choose|k: int| 0 <= k < found.len() && found[k] == bundle.recalled_evidence[i];
            assert(hides_secret(found[k]));
        }
    }
}

proof fn claims_are_of_the_scopes(
    store: MemoryStoreModel,
    scope_ids: Seq<Text>,
    status: ClaimStatus,
    claim: ClaimModel,
)
    requires
        claims_in(store, scope_ids, Some(status)).contains(claim),
    ensures
        listed(scope_ids, claim.scope_id),
        claim.status == status,
        store.claims.contains(claim),
{
    let accepts = claim_in(scope_ids, Some(status));
    let rows = store.claims.filter(accepts);
    ordered_contains(rows, claim_age(), claim);
    let k = choose|k: int| 0 <= k < rows.len() && rows[k] == claim;
    let at = filtered_position(store.claims, accepts, k);
    assert(store.claims[at] == claim);
}

/// A context holds nothing of foreign scopes: its claims are of the visible scopes, active ones
/// and undecided ones apart, and its observations of these or of the stream's own scope.
pub proof fn context_stays_in_scope(
    store: MemoryStoreModel,
    scope_id: Text,
    stream_id: Text,
    max_tokens: int,
    recent_raw_tokens: int,
    ranked: Seq<SearchHitModel>,
)
    ensures
        compose(store, scope_id, stream_id, max_tokens, recent_raw_tokens, ranked) matches Ok(bundle)
            ==> {
            let visible = visible_scopes(store, scope_id)->Ok_0;
            &&& forall|i: int|
                0 <= i < bundle.claims.len() ==> listed(
                    visible,
                    (#[trigger] bundle.claims[i]).scope_id,
                ) && bundle.claims[i].status is Active
            &&& forall|i: int|
                0 <= i < bundle.pending_claims.len() ==> listed(
                    visible,
                    (#[trigger] bundle.pending_claims[i]).scope_id,
                ) && (bundle.pending_claims[i].status is Pending
                    || bundle.pending_claims[i].status is Disputed)
            &&& forall|i: int|
                0 <= i < bundle.observations.len() ==> listed(
                    visible,
                    (#[trigger] bundle.observations[i]).scope_id,
                ) || stream_at(store, stream_id).unwrap().scope_id
                    == bundle.observations[i].scope_id
        },
{
    if let Ok(bundle) = compose(
        store,
        scope_id,
        stream_id,
        max_tokens,
        recent_raw_tokens,
        ranked,
    ) {
        let visible = visible_scopes(store, scope_id)->Ok_0;
        let stream_scope = stream_at(store, stream_id).unwrap().scope_id;
        let active = claims_in(store, visible, Some(ClaimStatus::Active));
        assert forall|i: int| 0 <= i < bundle.claims.len() implies listed(
            visible,
            (#[trigger] bundle.claims[i]).scope_id,
        ) && bundle.claims[i].status is Active by {
            assert(bundle.claims.contains(bundle.claims[i]));
            ordered_contains(active, scope_position(visible), bundle.claims[i]);
            claims_are_of_the_scopes(store, visible, ClaimStatus::Active, bundle.claims[i]);
        }
        let first = claims_in(store, visible, Some(ClaimStatus::Pending));
        let second = claims_in(store, visible, Some(ClaimStatus::Disputed));
        let pending = pending_claims(store, visible);
        assert forall|i: int| 0 <= i < bundle.pending_claims.len() implies listed(
            visible,
            (#[trigger] bundle.pending_claims[i]).scope_id,
        ) && (bundle.pending_claims[i].status is Pending
            || bundle.pending_claims[i].status is Disputed) by {
            let claim = bundle.pending_claims[i];
            let marks = choose|marks: Seq<Verdict>|
                bundle.pending_claims == #[trigger] kept(pending, marks);
            kept_rows_were_offered(pending, marks, i);
            ordered_contains(first + second, scope_position(visible), claim);
            let k = choose|k: int| 0 <= k < (first + second).len() && (first + second)[k] == claim;
            if k < first.len() {
                assert(first[k] == claim);
                claims_are_of_the_scopes(store, visible, ClaimStatus::Pending, claim);
            } else {
                assert(second[k - first.len()] == claim);
                claims_are_of_the_scopes(store, visible, ClaimStatus::Disputed, claim);
            }
        }
        let scope_ids = observation_scopes(visible, stream_scope);
        let rows = store.observations.filter(observation_in(scope_ids));
        let by_age = ordered(rows, observation_age());
        let found = candidates(store, scope_ids);
        assert forall|i: int| 0 <= i < bundle.observations.len() implies listed(
            visible,
            (#[trigger] bundle.observations[i]).scope_id,
        ) || stream_scope == bundle.observations[i].scope_id by {
            let observation = bundle.observations[i];
            let marks = choose|marks: Seq<Verdict>|
                bundle.observations == ordered(#[trigger] kept(found, marks), observation_time());
            let some = kept(found, marks);
            assert(bundle.observations.contains(observation));
            ordered_contains(some, observation_time(), observation);
            let k = choose|k: int| 0 <= k < some.len() && some[k] == observation;
            kept_rows_were_offered(found, marks, k);
            ordered_contains(by_age, observation_rank(), observation);
            ordered_contains(rows, observation_age(), observation);
            let m = choose|m: int| 0 <= m < rows.len() && rows[m] == observation;
            let at = filtered_position(store.observations, observation_in(scope_ids), m);
            let n = choose|n: int|
                0 <= n < scope_ids.len() && #[trigger] scope_ids[n] == observation.scope_id;
            if n < visible.len() {
                assert(visible[n] == observation.scope_id);
            }
        }
    }
}

/// The continuation comes first after the active claims: it is in the context, as it was
/// committed, wherever it fits beside them.
pub proof fn continuation_is_shown_first(
    store: MemoryStoreModel,
    scope_id: Text,
    stream_id: Text,
    max_tokens: int,
    recent_raw_tokens: int,
    ranked: Seq<SearchHitModel>,
)
    ensures
        compose(store, scope_id, stream_id, max_tokens, recent_raw_tokens, ranked) matches Ok(bundle)
            ==> match latest_view(store, stream_id, ViewKind::Continuation) {
            None => bundle.continuation is None,
            Some(row) => {
                let fits = claims_cost(bundle.claims) + cost(row.view.token_count) <= max_tokens;
                &&& fits ==> bundle.continuation == row.continuation && bundle.continuity_views.len()
                    > 0 && bundle.continuity_views[0] == row.view
                &&& !fits ==> bundle.continuation is None
            },
        },
{
    if let Ok(bundle) = compose(
        store,
        scope_id,
        stream_id,
        max_tokens,
        recent_raw_tokens,
        ranked,
    ) {
        let continuations = latest_views(store, stream_id, ViewKind::Continuation);
        let offers = continuations.map_values(view_offer());
        let used = claims_cost(bundle.claims);
        let marks = verdicts(offers, used, max_tokens);
        match latest_view(store, stream_id, ViewKind::Continuation) {
            None => {
                assert(kept(continuations, marks).len() == 0);
            },
            Some(row) => {
                let fits = used + cost(row.view.token_count) <= max_tokens;
                assert(offers.len() == 1 && offers.last() == (view_offer())(row));
                let none = offers.drop_last();
                assert(none.len() == 0);
                assert(verdicts(none, used, max_tokens).len() == 0);
                assert(used_after(none, used, max_tokens) == used);
                assert(marks == verdicts(none, used, max_tokens).push(
                    verdict_on(offers.last(), used, max_tokens),
                ));
                assert(marks.len() == 1 && marks.last() == if fits {
                    Verdict::Kept
                } else {
                    Verdict::OverBudget
                });
                assert(kept(continuations.drop_last(), marks.drop_last()).len() == 0);
                if fits {
                    assert(kept(continuations, marks) =~= seq![row]);
                } else {
                    assert(kept(continuations, marks).len() == 0);
                }
            },
        }
    }
}

/// A search answers with no more hits than were asked for, all of scopes that may be searched, in
/// the order of their rank.
pub proof fn searches_keep_to_scope_and_limit(
    ranked: Seq<SearchHitModel>,
    scope_ids: Seq<Text>,
    limit: int,
    i: int,
)
    requires
        limit >= 0,
        0 <= i < hits_of(ranked, scope_ids, limit).len(),
    ensures
        hits_of(ranked, scope_ids, limit).len() <= limit,
        listed(scope_ids, hits_of(ranked, scope_ids, limit)[i].scope_id),
        ranked.contains(hits_of(ranked, scope_ids, limit)[i]),
{
    let rows = ranked.filter(hit_in(scope_ids));
    assert(hits_of(ranked, scope_ids, limit)[i] == rows[i]);
    let at = filtered_position(ranked, hit_in(scope_ids), i);
    assert(ranked[at] == rows[i]);
}

} // verus!
