//! Laws of order: rows with one key keep the order that they had, and so the claims of a context come
//! by scope, by standing and by age.

use vstd::prelude::*;

use crate::budget::{kept, packing_counts_what_it_keeps, tallied, verdicts, TallyModel};
use crate::claim_table::claims_in;
use crate::context::{
    claim_offer, claims_cost, compose, latest_views, pending_claims, view_name, view_offer,
};
use crate::kind::{ClaimStatus, ViewKind};
use crate::law_claim::ordered_contains;
use crate::law_context::kept_positions_offered;
use crate::law_plan::{listed_claims_are_all, listed_claims_are_by_age};
use crate::model::{ClaimModel, SearchHitModel};
use crate::observation::{claims_by_scope, scope_position};
use crate::order::{key_less, ordered, ordered_rows, place, place_splits, KeyModel};
use crate::row::MemoryStoreModel;
use crate::scope::visible_scopes;
use crate::text::{position, text_less, text_order_irreflexive, Text};

verus! {

/// Whether neither of two keys comes before the other.
pub open spec fn level(left: KeyModel, right: KeyModel) -> bool {
    !key_less(left, right) && !key_less(right, left)
}

/// Ordering keeps what rows with one key had by their order: whatever held of each two of them, the
/// earlier one first, still holds.
pub proof fn level_rows_keep_their_order<V>(
    rows: Seq<V>,
    key: spec_fn(V) -> KeyModel,
    before: spec_fn(V, V) -> bool,
)
    requires
        forall|i: int, j: int|
            0 <= i < j < rows.len() && level(key(#[trigger] rows[i]), key(#[trigger] rows[j]))
                ==> before(rows[i], rows[j]),
    ensures
        forall|i: int, j: int|
            0 <= i < j < ordered(rows, key).len() && level(
                key(#[trigger] ordered(rows, key)[i]),
                key(#[trigger] ordered(rows, key)[j]),
            ) ==> before(ordered(rows, key)[i], ordered(rows, key)[j]),
    decreases rows.len(),
{
    if rows.len() > 0 {
        let front = rows.drop_last();
        let new = rows.last();
        let sorted = ordered(front, key);
        let at = place(sorted, key, key(new));
        let result = ordered(rows, key);
        assert forall|i: int, j: int|
            0 <= i < j < front.len() && level(key(#[trigger] front[i]), key(#[trigger] front[j]))
            implies before(front[i], front[j]) by {
            assert(front[i] == rows[i] && front[j] == rows[j]);
        }
        level_rows_keep_their_order(front, key, before);
        ordered_rows(front, key);
        place_splits(sorted, key, key(new));
        assert forall|i: int, j: int|
            0 <= i < j < result.len() && level(key(#[trigger] result[i]), key(#[trigger] result[j]))
            implies before(result[i], result[j]) by {
            let a = if i < at {
                i
            } else {
                i - 1
            };
            let b = if j < at {
                j
            } else {
                j - 1
            };
            if i == at {
                assert(result[j] == sorted[b]);
            } else if j == at {
                assert(result[i] == sorted[a]);
                assert(sorted.contains(sorted[a]));
                ordered_contains(front, key, sorted[a]);
                let k = choose|k: int| 0 <= k < front.len() && front[k] == sorted[a];
                assert(rows[k] == result[i]);
                assert(rows[rows.len() - 1] == new);
            } else {
                assert(result[i] == sorted[a]);
                assert(result[j] == sorted[b]);
            }
        }
    }
}

/// Whether one claim is at least as old as another, and, where they are of one time, does not have
/// the later identifier.
pub open spec fn not_younger(left: ClaimModel, right: ClaimModel) -> bool {
    &&& !text_less(right.created_at, left.created_at)
    &&& left.created_at == right.created_at ==> !text_less(right.id, left.id)
}

spec fn by_age() -> spec_fn(ClaimModel, ClaimModel) -> bool {
    |left: ClaimModel, right: ClaimModel| not_younger(left, right)
}

spec fn by_standing() -> spec_fn(ClaimModel, ClaimModel) -> bool {
    |left: ClaimModel, right: ClaimModel|
        {
            ||| left.status is Pending && right.status is Disputed
            ||| left.status == right.status && not_younger(left, right)
        }
}

/// The claims of one status, as plans and contexts hold them, come by scope, the outer ones first,
/// and within a scope by age.
pub proof fn claims_of_a_scope_are_by_age(
    store: MemoryStoreModel,
    visible: Seq<Text>,
    status: ClaimStatus,
    i: int,
    j: int,
)
    requires
        0 <= i < j < claims_by_scope(store, visible, status).len(),
    ensures
        ({
            let claims = claims_by_scope(store, visible, status);
            let left = position(visible, claims[i].scope_id);
            let right = position(visible, claims[j].scope_id);
            left < right || (left == right && not_younger(claims[i], claims[j]))
        }),
{
    let rows = claims_in(store, visible, Some(status));
    let key = scope_position(visible);
    let claims = claims_by_scope(store, visible, status);
    assert forall|a: int, b: int|
        0 <= a < b < rows.len() && level(key(#[trigger] rows[a]), key(#[trigger] rows[b]))
        implies (by_age())(rows[a], rows[b]) by {
        listed_claims_are_by_age(store, visible, Some(status), a, b);
    }
    level_rows_keep_their_order(rows, key, by_age());
    ordered_rows(rows, key);
    assert(!key_less(key(claims[j]), key(claims[i])));
    text_order_irreflexive(Seq::empty());
    if position(visible, claims[i].scope_id) == position(visible, claims[j].scope_id) {
        assert(level(key(claims[i]), key(claims[j])));
        assert((by_age())(claims[i], claims[j]));
    }
}

/// The claims that wait for a decision come by scope, the outer ones first; within a scope the
/// pending ones come before the disputed ones; and those of one standing come by age.
pub proof fn waiting_claims_come_in_order(
    store: MemoryStoreModel,
    visible: Seq<Text>,
    i: int,
    j: int,
)
    requires
        0 <= i < j < pending_claims(store, visible).len(),
    ensures
        ({
            let claims = pending_claims(store, visible);
            let left = position(visible, claims[i].scope_id);
            let right = position(visible, claims[j].scope_id);
            ||| left < right
            ||| left == right && claims[i].status is Pending && claims[j].status is Disputed
            ||| left == right && claims[i].status == claims[j].status && not_younger(
                claims[i],
                claims[j],
            )
        }),
{
    let first = claims_in(store, visible, Some(ClaimStatus::Pending));
    let second = claims_in(store, visible, Some(ClaimStatus::Disputed));
    let rows = first + second;
    let key = scope_position(visible);
    let claims = pending_claims(store, visible);
    assert forall|a: int, b: int|
        0 <= a < b < rows.len() && level(key(#[trigger] rows[a]), key(#[trigger] rows[b]))
        implies (by_standing())(rows[a], rows[b]) by {
        let split = first.len() as int;
        if a < split {
            assert(rows[a] == first[a]);
            assert(first.contains(first[a]));
            listed_claims_are_all(store, visible, Some(ClaimStatus::Pending), first[a]);
        } else {
            assert(rows[a] == second[a - split]);
            assert(second.contains(second[a - split]));
            listed_claims_are_all(store, visible, Some(ClaimStatus::Disputed), second[a - split]);
        }
        if b < split {
            assert(rows[b] == first[b]);
            assert(first.contains(first[b]));
            listed_claims_are_all(store, visible, Some(ClaimStatus::Pending), first[b]);
            listed_claims_are_by_age(store, visible, Some(ClaimStatus::Pending), a, b);
        } else {
            assert(rows[b] == second[b - split]);
            assert(second.contains(second[b - split]));
            listed_claims_are_all(store, visible, Some(ClaimStatus::Disputed), second[b - split]);
            if a >= split {
                listed_claims_are_by_age(
                    store,
                    visible,
                    Some(ClaimStatus::Disputed),
                    a - split,
                    b - split,
                );
            }
        }
    }
    level_rows_keep_their_order(rows, key, by_standing());
    ordered_rows(rows, key);
    assert(!key_less(key(claims[j]), key(claims[i])));
    text_order_irreflexive(Seq::empty());
    if position(visible, claims[i].scope_id) == position(visible, claims[j].scope_id) {
        assert(level(key(claims[i]), key(claims[j])));
        assert((by_standing())(claims[i], claims[j]));
    }
}

/// The claims of a context come in order: the active ones by scope, the outer ones first, and by
/// age; those that wait for a decision likewise, within a scope the pending ones first.
pub proof fn claims_of_a_context_come_in_order(
    store: MemoryStoreModel,
    scope_id: Text,
    stream_id: Text,
    max_tokens: int,
    recent_raw_tokens: int,
    ranked: Seq<SearchHitModel>,
    i: int,
    j: int,
)
    requires
        0 <= i < j,
    ensures
        compose(store, scope_id, stream_id, max_tokens, recent_raw_tokens, ranked) matches Ok(bundle)
            ==> {
            let visible = visible_scopes(store, scope_id)->Ok_0;
            &&& j < bundle.claims.len() ==> {
                let left = position(visible, bundle.claims[i].scope_id);
                let right = position(visible, bundle.claims[j].scope_id);
                left < right || (left == right && not_younger(bundle.claims[i], bundle.claims[j]))
            }
            &&& j < bundle.pending_claims.len() ==> {
                let first = bundle.pending_claims[i];
                let second = bundle.pending_claims[j];
                let left = position(visible, first.scope_id);
                let right = position(visible, second.scope_id);
                ||| left < right
                ||| left == right && first.status is Pending && second.status is Disputed
                ||| left == right && first.status == second.status && not_younger(first, second)
            }
        },
{
    if let Ok(bundle) = compose(
        store,
        scope_id,
        stream_id,
        max_tokens,
        recent_raw_tokens,
        ranked,
    ) {
        let visible = visible_scopes(store, scope_id)->Ok_0;
        if j < bundle.claims.len() {
            claims_of_a_scope_are_by_age(store, visible, ClaimStatus::Active, i, j);
        }
        if j < bundle.pending_claims.len() {
            let rows = pending_claims(store, visible);
            let offers = rows.map_values(claim_offer());
            let start = TallyModel {
                used: claims_cost(claims_by_scope(store, visible, ClaimStatus::Active)),
                omitted: Seq::empty(),
            };
            let views = latest_views(store, stream_id, ViewKind::Continuation);
            let continued = tallied(
                start,
                views.map_values(view_name()),
                views.map_values(view_offer()),
                max_tokens,
            );
            let marks = verdicts(offers, continued.used, max_tokens);
            packing_counts_what_it_keeps(offers, continued.used, max_tokens);
            assert(bundle.pending_claims == kept(rows, marks));
            let at = kept_positions_offered(rows, marks, i, j);
            waiting_claims_come_in_order(store, visible, at.0, at.1);
        }
    }
}

} // verus!
