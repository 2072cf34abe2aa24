//! Laws of reconciliation: every pending claim of the scope is settled by what is active, or left
//! for a decision.

use vstd::prelude::*;

use crate::claim::{reconcile_all, reconcile_one, reconcile_step};
use crate::claim_table::{claim_age, claim_in, claims_in, member_of, slot_of, sources_of};
use crate::json::same_json;
use crate::kind::{ClaimAuthority, ClaimModality, ClaimStatus};
use crate::law_claim::claims_sound;
use crate::law_event::filtered_positions;
use crate::law_lifecycle::{
    in_the_way, member_stands_in_the_way, sources_are_the_linked, with_status,
};
use crate::law_plan::listed_claims_are_all;
use crate::law_record::linking_adds_the_sources;
use crate::model::{ClaimModel, ReconciliationSummaryModel};
use crate::order::ordered_rows;
use crate::row::{LinkModel, MemoryStoreModel};
use crate::stamp::StampModel;
use crate::text::Text;

verus! {

/// Whether a claim of a modality waits for an explicit decision.
pub open spec fn waits(modality: ClaimModality) -> bool {
    modality is Proposal || modality is Inference || modality is Observation
}

/// Whether reconciliation has settled a claim: it is active on the word of a trusted source; or it
/// repeats an active claim, which has taken over its evidence, and is rejected; or it contradicts
/// an active claim and is disputed. The summary says which.
pub open spec fn settled(
    store: MemoryStoreModel,
    done: MemoryStoreModel,
    summary: ReconciliationSummaryModel,
    claim: ClaimModel,
    now: ClaimModel,
    at: Text,
) -> bool {
    ||| {
        &&& now == (ClaimModel {
            status: ClaimStatus::Active,
            authority: ClaimAuthority::TrustedSource,
            updated_at: at,
            ..claim
        })
        &&& summary.activated.contains(claim.id)
    }
    ||| {
        &&& now == with_status(claim, ClaimStatus::Rejected, at)
        &&& summary.duplicates_rejected.contains(claim.id)
        &&& exists|j: int|
            0 <= j < done.claims.len() && in_the_way(#[trigger] done.claims[j], claim) && same_json(
                done.claims[j].value,
                claim.value,
            ) && took_over(store, done, claim.id, done.claims[j].id)
    }
    ||| {
        &&& now == with_status(claim, ClaimStatus::Disputed, at)
        &&& summary.disputed.contains(claim.id)
        &&& exists|j: int|
            0 <= j < done.claims.len() && in_the_way(#[trigger] done.claims[j], claim) && !same_json(
                done.claims[j].value,
                claim.value,
            )
    }
}

/// Whether a claim rests on all that another one rested on.
pub open spec fn took_over(
    store: MemoryStoreModel,
    done: MemoryStoreModel,
    from: Text,
    to: Text,
) -> bool {
    forall|source_id: Text|
        store.claim_sources.contains(LinkModel { holder_id: from, source_id })
            ==> #[trigger] done.claim_sources.contains(LinkModel { holder_id: to, source_id })
}

proof fn pushed_id_is_there(ids: Seq<Text>, id: Text)
    ensures
        ids.push(id).contains(id),
        forall|other: Text| ids.contains(other) ==> #[trigger] ids.push(id).contains(other),
{
    let all = ids.push(id);
    assert(all[ids.len() as int] == id);
    assert forall|other: Text| ids.contains(other) implies #[trigger] all.contains(other) by {
        let k = choose|k: int| 0 <= k < ids.len() && ids[k] == other;
        assert(all[k] == other);
    }
}

/// What one step of reconciliation leaves as it is: all claims but the one, all links, and what the
/// summary says.
proof fn one_step_keeps(
    store: MemoryStoreModel,
    summary: ReconciliationSummaryModel,
    claim: ClaimModel,
    at: Text,
)
    requires
        reconcile_one(store, summary, claim, at) is Ok,
    ensures
        ({
            let (done, after) = reconcile_one(store, summary, claim, at)->Ok_0;
            &&& done.claims.len() == store.claims.len()
            &&& forall|k: int|
                0 <= k < store.claims.len() && store.claims[k].id != claim.id
                    ==> #[trigger] done.claims[k] == store.claims[k]
            &&& forall|k: int|
                0 <= k < store.claims.len() ==> (#[trigger] done.claims[k]).id
                    == store.claims[k].id
            &&& forall|link: LinkModel|
                store.claim_sources.contains(link) ==> #[trigger] done.claim_sources.contains(link)
            &&& forall|id: Text|
                summary.activated.contains(id) ==> #[trigger] after.activated.contains(id)
            &&& forall|id: Text|
                summary.disputed.contains(id) ==> #[trigger] after.disputed.contains(id)
            &&& forall|id: Text|
                summary.duplicates_rejected.contains(id)
                    ==> #[trigger] after.duplicates_rejected.contains(id)
            &&& forall|id: Text|
                summary.left_pending.contains(id) ==> #[trigger] after.left_pending.contains(id)
        }),
{
    let (done, after) = reconcile_one(store, summary, claim, at)->Ok_0;
    pushed_id_is_there(summary.activated, claim.id);
    pushed_id_is_there(summary.disputed, claim.id);
    pushed_id_is_there(summary.duplicates_rejected, claim.id);
    pushed_id_is_there(summary.left_pending, claim.id);
    assert forall|link: LinkModel| store.claim_sources.contains(link) implies
        #[trigger] done.claim_sources.contains(link) by {
        if let Some(existing) = member_of(store, slot_of(claim), claim.value_hash) {
            linking_adds_the_sources(
                store.claim_sources,
                existing.id,
                sources_of(store.claim_sources, claim.id),
                link,
            );
        }
    }
}

/// One step of reconciliation settles its claim.
proof fn one_step_settles(
    start: MemoryStoreModel,
    store: MemoryStoreModel,
    summary: ReconciliationSummaryModel,
    claim: ClaimModel,
    at: Text,
    i: int,
)
    requires
        reconcile_one(store, summary, claim, at) is Ok,
        0 <= i < store.claims.len(),
        store.claims[i] == claim,
        !(claim.status is Active),
        forall|a: int, b: int|
            0 <= a < b < store.claims.len() ==> (#[trigger] store.claims[a]).id != (
            #[trigger] store.claims[b]).id,
        forall|link: LinkModel|
            start.claim_sources.contains(link) ==> #[trigger] store.claim_sources.contains(link),
    ensures
        ({
            let (done, after) = reconcile_one(store, summary, claim, at)->Ok_0;
            if waits(claim.modality) {
                done.claims[i] == claim && after.left_pending.contains(claim.id)
            } else {
                settled(start, done, after, claim, done.claims[i], at)
            }
        }),
{
    let (done, after) = reconcile_one(store, summary, claim, at)->Ok_0;
    pushed_id_is_there(summary.activated, claim.id);
    pushed_id_is_there(summary.disputed, claim.id);
    pushed_id_is_there(summary.duplicates_rejected, claim.id);
    pushed_id_is_there(summary.left_pending, claim.id);
    one_step_keeps(store, summary, claim, at);
    if !waits(claim.modality) {
        member_stands_in_the_way(store, claim);
        if let Some(existing) = member_of(store, slot_of(claim), claim.value_hash) {
            let j = choose|j: int| 0 <= j < store.claims.len() && store.claims[j] == existing;
            if j < i {
                assert(store.claims[j].id != store.claims[i].id);
            } else if i < j {
                assert(store.claims[i].id != store.claims[j].id);
            }
            assert(done.claims[j] == existing);
            assert(in_the_way(done.claims[j], claim));
            if same_json(existing.value, claim.value) {
                assert forall|source_id: Text|
                    start.claim_sources.contains(
                        LinkModel { holder_id: claim.id, source_id },
                    ) implies #[trigger] done.claim_sources.contains(
                    LinkModel { holder_id: existing.id, source_id },
                ) by {
                    assert(store.claim_sources.contains(
                        LinkModel { holder_id: claim.id, source_id },
                    ));
                    sources_are_the_linked(store.claim_sources, claim.id, source_id);
                    linking_adds_the_sources(
                        store.claim_sources,
                        existing.id,
                        sources_of(store.claim_sources, claim.id),
                        LinkModel { holder_id: existing.id, source_id },
                    );
                }
                assert(took_over(start, done, claim.id, done.claims[j].id));
            }
        }
    }
}

/// Whether a claim is among those that are reconciled.
pub open spec fn is_among(pending: Seq<ClaimModel>, id: Text) -> bool {
    exists|k: int| 0 <= k < pending.len() && (#[trigger] pending[k]).id == id
}

proof fn all_steps_settle(store: MemoryStoreModel, pending: Seq<ClaimModel>, at: Text)
    requires
        forall|a: int, b: int|
            0 <= a < b < store.claims.len() ==> (#[trigger] store.claims[a]).id != (
            #[trigger] store.claims[b]).id,
        forall|a: int, b: int|
            0 <= a < b < pending.len() ==> (#[trigger] pending[a]).id != (#[trigger] pending[b]).id,
        forall|k: int|
            0 <= k < pending.len() ==> store.claims.contains(#[trigger] pending[k])
                && pending[k].status is Pending,
        reconcile_all(store, pending, at) is Ok,
    ensures
        ({
            let (done, summary) = reconcile_all(store, pending, at)->Ok_0;
            &&& done.claims.len() == store.claims.len()
            &&& forall|k: int|
                0 <= k < store.claims.len() ==> (#[trigger] done.claims[k]).id
                    == store.claims[k].id
            &&& forall|link: LinkModel|
                store.claim_sources.contains(link) ==> #[trigger] done.claim_sources.contains(link)
            &&& forall|i: int|
                0 <= i < store.claims.len() ==> if is_among(pending, store.claims[i].id) {
                    if waits(store.claims[i].modality) {
                        #[trigger] done.claims[i] == store.claims[i]
                            && summary.left_pending.contains(store.claims[i].id)
                    } else {
                        settled(store, done, summary, store.claims[i], done.claims[i], at)
                    }
                } else {
                    done.claims[i] == store.claims[i]
                }
        }),
    decreases pending.len(),
{
    if pending.len() > 0 {
        let front = pending.drop_last();
        let claim = pending.last();
        assert forall|a: int, b: int| 0 <= a < b < front.len() implies (#[trigger] front[a]).id != (
        #[trigger] front[b]).id by {
            assert(pending[a].id != pending[b].id);
        }
        assert forall|k: int| 0 <= k < front.len() implies store.claims.contains(
            #[trigger] front[k],
        ) && front[k].status is Pending by {
            assert(front[k] == pending[k]);
        }
        all_steps_settle(store, front, at);
        let (before, earlier) = reconcile_all(store, front, at)->Ok_0;
        let (done, summary) = reconcile_all(store, pending, at)->Ok_0;
        assert(pending[pending.len() - 1] == claim);
        let n = choose|n: int| 0 <= n < store.claims.len() && store.claims[n] == claim;
        assert(!is_among(front, claim.id)) by {
            if is_among(front, claim.id) {
                let k = choose|k: int| 0 <= k < front.len() && (#[trigger] front[k]).id == claim.id;
                assert(pending[k].id != pending[pending.len() - 1].id);
            }
        }
        assert(before.claims[n] == claim);
        assert forall|a: int, b: int| 0 <= a < b < before.claims.len() implies (
        #[trigger] before.claims[a]).id != (#[trigger] before.claims[b]).id by {
            assert(store.claims[a].id != store.claims[b].id);
        }
        one_step_keeps(before, earlier, claim, at);
        one_step_settles(store, before, earlier, claim, at, n);
        assert forall|i: int| 0 <= i < store.claims.len() implies if is_among(
            pending,
            store.claims[i].id,
        ) {
            if waits(store.claims[i].modality) {
                #[trigger] done.claims[i] == store.claims[i] && summary.left_pending.contains(
                    store.claims[i].id,
                )
            } else {
                settled(store, done, summary, store.claims[i], done.claims[i], at)
            }
        } else {
            done.claims[i] == store.claims[i]
        } by {
            if i == n {
                assert(pending[pending.len() - 1].id == claim.id);
            } else {
                if i < n {
                    assert(store.claims[i].id != store.claims[n].id);
                } else {
                    assert(store.claims[n].id != store.claims[i].id);
                }
                assert(done.claims[i] == before.claims[i]);
                if is_among(front, store.claims[i].id) {
                    let k = choose|k: int|
                        0 <= k < front.len() && (#[trigger] front[k]).id == store.claims[i].id;
                    assert(pending[k].id == store.claims[i].id);
                    if !waits(store.claims[i].modality) {
                        settling_stays(
                            store,
                            before,
                            earlier,
                            done,
                            summary,
                            store.claims[i],
                            before.claims[i],
                            at,
                            claim.id,
                            n,
                        );
                    }
                } else if is_among(pending, store.claims[i].id) {
                    let k = choose|k: int|
                        0 <= k < pending.len() && (#[trigger] pending[k]).id == store.claims[i].id;
                    assert(k < front.len());
                    assert(front[k].id == store.claims[i].id);
                }
            }
        }
    }
}

proof fn settling_stays(
    store: MemoryStoreModel,
    before: MemoryStoreModel,
    earlier: ReconciliationSummaryModel,
    done: MemoryStoreModel,
    summary: ReconciliationSummaryModel,
    claim: ClaimModel,
    now: ClaimModel,
    at: Text,
    touched: Text,
    n: int,
)
    requires
        settled(store, before, earlier, claim, now, at),
        done.claims.len() == before.claims.len(),
        0 <= n < before.claims.len(),
        before.claims[n].id == touched,
        !(before.claims[n].status is Active),
        forall|a: int, b: int|
            0 <= a < b < before.claims.len() ==> (#[trigger] before.claims[a]).id != (
            #[trigger] before.claims[b]).id,
        forall|k: int|
            0 <= k < before.claims.len() && before.claims[k].id != touched
                ==> #[trigger] done.claims[k] == before.claims[k],
        forall|link: LinkModel|
            before.claim_sources.contains(link) ==> #[trigger] done.claim_sources.contains(link),
        forall|id: Text|
            earlier.activated.contains(id) ==> #[trigger] summary.activated.contains(id),
        forall|id: Text|
            earlier.disputed.contains(id) ==> #[trigger] summary.disputed.contains(id),
        forall|id: Text|
            earlier.duplicates_rejected.contains(id)
                ==> #[trigger] summary.duplicates_rejected.contains(id),
    ensures
        settled(store, done, summary, claim, now, at),
{
    if earlier.activated.contains(claim.id) && now.status is Active {
        assert(summary.activated.contains(claim.id));
    } else {
        let repeated = now.status is Rejected;
        let j = choose|j: int|
            0 <= j < before.claims.len() && in_the_way(#[trigger] before.claims[j], claim) && (
            same_json(before.claims[j].value, claim.value) == repeated) && (repeated ==> took_over(
                store,
                before,
                claim.id,
                before.claims[j].id,
            ));
        if j < n {
            assert(before.claims[j].id != before.claims[n].id);
        } else if n < j {
            assert(before.claims[n].id != before.claims[j].id);
        }
        assert(done.claims[j] == before.claims[j]);
        assert(in_the_way(done.claims[j], claim));
        if repeated {
            assert(took_over(store, done, claim.id, done.claims[j].id));
            assert(summary.duplicates_rejected.contains(claim.id));
        } else {
            assert(summary.disputed.contains(claim.id));
        }
    }
}

proof fn pending_claims_differ(store: MemoryStoreModel, scope_ids: Seq<Text>)
    requires
        claims_sound(store),
    ensures
        ({
            let pending = claims_in(store, scope_ids, Some(ClaimStatus::Pending));
            forall|a: int, b: int|
                0 <= a < b < pending.len() ==> (#[trigger] pending[a]).id != (
                #[trigger] pending[b]).id
        }),
{
    let accepts = claim_in(scope_ids, Some(ClaimStatus::Pending));
    let rows = store.claims.filter(accepts);
    let pending = claims_in(store, scope_ids, Some(ClaimStatus::Pending));
    ordered_rows(rows, claim_age());
    assert forall|a: int, b: int| 0 <= a < rows.len() && 0 <= b < rows.len() && a
        != b implies rows[a] != rows[b] by {
        if a < b {
            let at = filtered_positions(store.claims, accepts, a, b);
            assert(store.claims[at.0].id != store.claims[at.1].id);
        } else {
            let at = filtered_positions(store.claims, accepts, b, a);
            assert(store.claims[at.0].id != store.claims[at.1].id);
        }
    }
    rows.lemma_multiset_has_no_duplicates();
    pending.lemma_multiset_has_no_duplicates_conv();
    assert forall|a: int, b: int| 0 <= a < b < pending.len() implies (#[trigger] pending[a]).id != (
    #[trigger] pending[b]).id by {
        assert(pending.contains(pending[a]) && pending.contains(pending[b]));
        listed_claims_are_all(store, scope_ids, Some(ClaimStatus::Pending), pending[a]);
        listed_claims_are_all(store, scope_ids, Some(ClaimStatus::Pending), pending[b]);
        let x = choose|x: int| 0 <= x < store.claims.len() && store.claims[x] == pending[a];
        let y = choose|y: int| 0 <= y < store.claims.len() && store.claims[y] == pending[b];
        assert(pending[a] != pending[b]);
        if x < y {
            assert(store.claims[x].id != store.claims[y].id);
        } else {
            assert(store.claims[y].id != store.claims[x].id);
        }
    }
}

/// Reconciliation settles every pending claim of its scope that needs no decision: it becomes
/// active, or, where an active claim stands in its way, is rejected as a repetition or disputed as
/// a contradiction. One that needs a decision is left as it is, and the summary says so. All other
/// claims stay as they are.
pub proof fn reconciled_claims_are_settled(
    store: MemoryStoreModel,
    scope_id: Text,
    key: Text,
    stamp: StampModel,
    i: int,
)
    requires
        claims_sound(store),
        reconcile_step(store, scope_id, key, stamp).1 matches Ok(done) && !done.replayed,
        0 <= i < store.claims.len(),
    ensures
        ({
            let (after, answer) = reconcile_step(store, scope_id, key, stamp);
            let summary = answer->Ok_0.data;
            let claim = store.claims[i];
            &&& after.claims.len() == store.claims.len()
            &&& after.events == store.events
            &&& after.observations == store.observations
            &&& claim.scope_id == scope_id && claim.status is Pending && !waits(claim.modality)
                ==> settled(store, after, summary, claim, after.claims[i], stamp.at)
            &&& claim.scope_id == scope_id && claim.status is Pending && waits(claim.modality)
                ==> after.claims[i] == claim && summary.left_pending.contains(claim.id)
            &&& !(claim.scope_id == scope_id && claim.status is Pending) ==> after.claims[i]
                == claim
        }),
{
    let scope_ids = seq![scope_id];
    let pending = claims_in(store, scope_ids, Some(ClaimStatus::Pending));
    let claim = store.claims[i];
    pending_claims_differ(store, scope_ids);
    assert forall|k: int| 0 <= k < pending.len() implies store.claims.contains(
        #[trigger] pending[k],
    ) && pending[k].status is Pending by {
        assert(pending.contains(pending[k]));
        listed_claims_are_all(store, scope_ids, Some(ClaimStatus::Pending), pending[k]);
    }
    all_steps_settle(store, pending, stamp.at);
    listed_claims_are_all(store, scope_ids, Some(ClaimStatus::Pending), claim);
    assert(store.claims.contains(claim));
    assert(scope_ids.contains(claim.scope_id) <==> claim.scope_id == scope_id) by {
        assert(scope_ids[0] == scope_id);
    }
    if claim.scope_id == scope_id && claim.status is Pending {
        let k = choose|k: int| 0 <= k < pending.len() && pending[k] == claim;
        assert(pending[k].id == claim.id);
        assert(is_among(pending, claim.id));
    } else {
        if is_among(pending, claim.id) {
            let k = choose|k: int| 0 <= k < pending.len() && (#[trigger] pending[k]).id == claim.id;
            assert(pending.contains(pending[k]));
            listed_claims_are_all(store, scope_ids, Some(ClaimStatus::Pending), pending[k]);
            let x = choose|x: int| 0 <= x < store.claims.len() && store.claims[x] == pending[k];
            if x < i {
                assert(store.claims[x].id != store.claims[i].id);
            } else if i < x {
                assert(store.claims[i].id != store.claims[x].id);
            }
            assert(pending[k] == claim);
        }
    }
    let (done, summary) = reconcile_all(store, pending, stamp.at)->Ok_0;
    reconciling_keeps_records(store, pending, stamp.at);
    let after = reconcile_step(store, scope_id, key, stamp).0;
    assert(after.claims == done.claims);
    assert(after.claim_sources == done.claim_sources);
    assert(done.claims[i] == done.claims[i]);
    if claim.scope_id == scope_id && claim.status is Pending && !waits(claim.modality) {
        assert(settled(store, done, summary, claim, done.claims[i], stamp.at));
        settled_is_of_claims(store, done, after, summary, claim, done.claims[i], stamp.at);
    }
}

proof fn settled_is_of_claims(
    store: MemoryStoreModel,
    done: MemoryStoreModel,
    after: MemoryStoreModel,
    summary: ReconciliationSummaryModel,
    claim: ClaimModel,
    now: ClaimModel,
    at: Text,
)
    requires
        settled(store, done, summary, claim, now, at),
        after.claims == done.claims,
        after.claim_sources == done.claim_sources,
    ensures
        settled(store, after, summary, claim, now, at),
{
    if exists|j: int|
        0 <= j < done.claims.len() && in_the_way(#[trigger] done.claims[j], claim) && same_json(
            done.claims[j].value,
            claim.value,
        ) && took_over(store, done, claim.id, done.claims[j].id) {
        let j = choose|j: int|
            0 <= j < done.claims.len() && in_the_way(#[trigger] done.claims[j], claim) && same_json(
                done.claims[j].value,
                claim.value,
            ) && took_over(store, done, claim.id, done.claims[j].id);
        assert(took_over(store, after, claim.id, after.claims[j].id));
    }
}

proof fn reconciling_keeps_records(store: MemoryStoreModel, pending: Seq<ClaimModel>, at: Text)
    ensures
        reconcile_all(store, pending, at) matches Ok((done, _)) ==> done.events == store.events
            && done.observations == store.observations,
    decreases pending.len(),
{
    if pending.len() > 0 {
        reconciling_keeps_records(store, pending.drop_last(), at);
    }
}

} // verus!
