//! Laws of claims: one active value per slot, explicit activation, and history that stays.

use vstd::prelude::*;

use crate::claim::{
    activation, close_step, closed_status, confirm_step, confirmation, correct_step, correction,
    direct_step, moved, needs_decision, normalized, reconcile_all, reconcile_one, requested_claim,
    requested_slot, rescope_step, with_others_superseded, with_superseded,
};
use crate::claim_table::{
    active_member, active_other, active_single, claim_age, claim_at, claim_clash, claim_in, claim_named,
    claim_recency, claims_in, member_of, patched, patched_where, restated, same_slot, slot_keyed,
    slot_of, slot_refusal, with_claim, with_patch, with_slot,
};
use crate::digest::json_hash;
use crate::json::same_json;
use crate::kind::ClaimStatus;
use crate::law_event::{extends, filtered_position, filtered_positions, kept_position};
use crate::model::{
    ClaimDraftModel, ClaimModel, ObservationDraftModel, ObservationModel, ObserverResultModel,
    ReconciliationSummaryModel,
};
use crate::observation::{all_drafted, drafted, with_drafted, with_observations};
use crate::order::{ordered, ordered_rows};
use crate::privacy::{claim_kept, claim_unlinked, slot_kept};
use crate::row::{ClaimPatchModel, MemoryStoreModel, SlotRowModel};
use crate::stamp::StampModel;
use crate::store::empty_store;
use crate::table::{first_where, first_where_found, some_row};
use crate::text::{listed, Text};
use crate::transition::{is_purge, stamped, step, Request};

verus! {

/// Whether a slot is recorded with a cardinality.
pub open spec fn slot_recorded(slots: Seq<SlotRowModel>, slot: SlotRowModel) -> bool {
    exists|k: int|
        0 <= k < slots.len() && same_slot(#[trigger] slots[k], slot) && slots[k].cardinality
            == slot.cardinality
}

/// Whether claims are sound: identifiers and slots are unique, hashes are those of the values,
/// active claims keep to the cardinality of their slots, and of two active claims of one slot,
/// which then is set-valued, the values differ.
pub open spec fn claims_sound(store: MemoryStoreModel) -> bool {
    &&& forall|i: int, j: int|
        0 <= i < j < store.claims.len() ==> (#[trigger] store.claims[i]).id != (
        #[trigger] store.claims[j]).id
    &&& forall|i: int|
        0 <= i < store.claims.len() ==> (#[trigger] store.claims[i]).value_hash == json_hash(
            store.claims[i].value,
        )
    &&& forall|i: int, j: int|
        0 <= i < j < store.claim_slots.len() ==> !same_slot(
            #[trigger] store.claim_slots[i],
            #[trigger] store.claim_slots[j],
        )
    &&& forall|i: int|
        0 <= i < store.claims.len() && (#[trigger] store.claims[i]).status is Active
            ==> slot_recorded(store.claim_slots, slot_of(store.claims[i]))
    &&& forall|i: int, j: int|
        0 <= i < store.claims.len() && 0 <= j < store.claims.len() && i != j ==> compatible(
            #[trigger] store.claims[i],
            #[trigger] store.claims[j],
        )
}

/// Whether two claims can stand beside each other.
pub open spec fn compatible(left: ClaimModel, right: ClaimModel) -> bool {
    left.status is Active && right.status is Active && same_slot(slot_of(left), slot_of(right))
        ==> left.cardinality is SetValued && left.value != right.value
}

/// Whether a slot is free for a value: no active claim but those of `except` stands in its way.
pub open spec fn free_for(
    claims: Seq<ClaimModel>,
    slot: SlotRowModel,
    value: Text,
    except: Text,
) -> bool {
    forall|i: int|
        0 <= i < claims.len() && (#[trigger] claims[i]).status is Active && claims[i].id != except
            && same_slot(slot_of(claims[i]), slot) ==> slot.cardinality is SetValued
            && claims[i].cardinality is SetValued && claims[i].value != value
}

/// No claim of a single-valued slot is active beside another: a sound memory has at most one.
pub proof fn one_active_claim_per_single_slot(store: MemoryStoreModel, i: int, j: int)
    requires
        claims_sound(store),
        0 <= i < store.claims.len(),
        0 <= j < store.claims.len(),
        store.claims[i].status is Active,
        store.claims[j].status is Active,
        same_slot(slot_of(store.claims[i]), slot_of(store.claims[j])),
        store.claims[i].cardinality is Single,
    ensures
        i == j,
{
    if i != j {
        assert(compatible(store.claims[i], store.claims[j]));
    }
}

/// An empty memory is sound.
pub proof fn claims_start_sound()
    ensures
        claims_sound(empty_store()),
{
}

/// Ordering rows neither adds nor drops one.
pub proof fn ordered_contains<V>(
    rows: Seq<V>,
    key: spec_fn(V) -> crate::order::KeyModel,
    row: V,
)
    ensures
        ordered(rows, key).contains(row) <==> rows.contains(row),
{
    ordered_rows(rows, key);
    rows.to_multiset_ensures();
    ordered(rows, key).to_multiset_ensures();
    assert(rows.contains(row) <==> rows.to_multiset().count(row) > 0);
    assert(ordered(rows, key).contains(row) <==> ordered(rows, key).to_multiset().count(row) > 0);
}

/// The active claim that stands in the way of a new one is one of the claims, and there is none
/// only where no claim stands in the way.
pub proof fn member_is_found(store: MemoryStoreModel, slot: SlotRowModel, value_hash: Text)
    ensures
        match member_of(store, slot, value_hash) {
            Some(member) => store.claims.contains(member) && (active_member(slot, value_hash))(member),
            None => forall|i: int|
                0 <= i < store.claims.len() ==> !(active_member(slot, value_hash))(
                    #[trigger] store.claims[i],
                ),
        },
{
    let accepts = active_member(slot, value_hash);
    let rows = store.claims.filter(accepts);
    let sorted = ordered(rows, claim_recency());
    ordered_rows(rows, claim_recency());
    if sorted.len() == 0 {
        assert forall|i: int| 0 <= i < store.claims.len() implies !accepts(
            #[trigger] store.claims[i],
        ) by {
            if accepts(store.claims[i]) {
                let k = kept_position(store.claims, accepts, i);
            }
        }
    } else {
        let member = sorted.last();
        assert(sorted.contains(member));
        ordered_contains(rows, claim_recency(), member);
        let k = choose|k: int| 0 <= k < rows.len() && rows[k] == member;
        let at = filtered_position(store.claims, accepts, k);
        assert(store.claims[at] == member);
    }
}

proof fn slot_cardinality(store: MemoryStoreModel, slot: SlotRowModel, other: SlotRowModel)
    requires
        claims_sound(store),
        slot_refusal(store, slot) is None,
        same_slot(other, slot),
        slot_recorded(store.claim_slots, other),
    ensures
        other.cardinality == slot.cardinality,
{
    let slots = store.claim_slots;
    let k = choose|k: int|
        0 <= k < slots.len() && same_slot(#[trigger] slots[k], other) && slots[k].cardinality
            == other.cardinality;
    assert((slot_keyed(slot))(slots[k]));
    first_where_found(slots, slot_keyed(slot));
    let row = first_where(slots, slot_keyed(slot)).unwrap();
    let m = choose|m: int| 0 <= m < slots.len() && slots[m] == row;
    if m < k {
        assert(!same_slot(slots[m], slots[k]));
    } else if k < m {
        assert(!same_slot(slots[k], slots[m]));
    }
}

/// Where nothing stands in the way, the slot is free.
proof fn no_member_means_free(
    store: MemoryStoreModel,
    base: MemoryStoreModel,
    slot: SlotRowModel,
    value: Text,
    except: Text,
)
    requires
        claims_sound(store),
        claims_sound(base),
        base.claim_slots == store.claim_slots,
        slot_refusal(store, slot) is None,
        member_of(base, slot, json_hash(value)) is None,
    ensures
        free_for(base.claims, slot, value, except),
{
    member_is_found(base, slot, json_hash(value));
    let claims = base.claims;
    assert forall|i: int|
        0 <= i < claims.len() && (#[trigger] claims[i]).status is Active && claims[i].id != except
            && same_slot(slot_of(claims[i]), slot) implies slot.cardinality is SetValued
        && claims[i].cardinality is SetValued && claims[i].value != value by {
        slot_cardinality(store, slot, slot_of(claims[i]));
        assert(!(active_member(slot, json_hash(value)))(claims[i]));
    }
}

/// Giving some claims a status other than active keeps claims sound.
proof fn closing_keeps_sound(
    store: MemoryStoreModel,
    accepts: spec_fn(ClaimModel) -> bool,
    patch: ClaimPatchModel,
)
    requires
        claims_sound(store),
        !(patch.status is Active),
    ensures
        claims_sound(with_patch(store, accepts, patch)),
        with_patch(store, accepts, patch).claims.len() == store.claims.len(),
        forall|i: int|
            0 <= i < store.claims.len() ==> restates(
                store.claims[i],
                #[trigger] with_patch(store, accepts, patch).claims[i],
            ),
{
    let after = with_patch(store, accepts, patch);
    let change = patched_where(accepts, patch);
    assert forall|i: int| 0 <= i < after.claims.len() implies #[trigger] after.claims[i] == change(
        store.claims[i],
    ) by {}
    assert forall|i: int, j: int| 0 <= i < j < after.claims.len() implies (
    #[trigger] after.claims[i]).id != (#[trigger] after.claims[j]).id by {
        assert(store.claims[i].id != store.claims[j].id);
    }
    assert forall|i: int|
        0 <= i < after.claims.len() && (#[trigger] after.claims[i]).status is Active implies slot_recorded(
        after.claim_slots,
        slot_of(after.claims[i]),
    ) by {
        assert(store.claims[i].status is Active);
        assert(slot_of(store.claims[i]) == slot_of(after.claims[i]));
    }
    assert forall|i: int|
        0 <= i < after.claims.len() implies (#[trigger] after.claims[i]).value_hash == json_hash(
        after.claims[i].value,
    ) by {
        assert(store.claims[i].value_hash == json_hash(store.claims[i].value));
    }
    assert forall|i: int, j: int|
        0 <= i < after.claims.len() && 0 <= j < after.claims.len() && i != j implies compatible(
        #[trigger] after.claims[i],
        #[trigger] after.claims[j],
    ) by {
        assert(compatible(store.claims[i], store.claims[j]));
    }
}

/// Whether one claim says the same as another, be it with another standing.
pub open spec fn restates(before: ClaimModel, after: ClaimModel) -> bool {
    after == ClaimModel {
        status: after.status,
        modality: after.modality,
        authority: after.authority,
        updated_at: after.updated_at,
        ..before
    }
}

/// Adding a claim that is not active keeps claims sound.
proof fn adding_keeps_sound(store: MemoryStoreModel, claim: ClaimModel)
    requires
        claims_sound(store),
        claim.value_hash == json_hash(claim.value),
        forall|i: int| 0 <= i < store.claims.len() ==> (#[trigger] store.claims[i]).id != claim.id,
        claim.status is Active ==> slot_recorded(store.claim_slots, slot_of(claim)) && free_for(
            store.claims,
            slot_of(claim),
            claim.value,
            claim.id,
        ),
    ensures
        claims_sound(with_claim(store, claim)),
{
    let after = with_claim(store, claim);
    let n = store.claims.len() as int;
    assert forall|i: int| 0 <= i < n implies #[trigger] after.claims[i] == store.claims[i] by {}
    assert(after.claims[n] == claim);
    assert forall|i: int, j: int|
        0 <= i < after.claims.len() && 0 <= j < after.claims.len() && i != j implies compatible(
        #[trigger] after.claims[i],
        #[trigger] after.claims[j],
    ) by {
        if i < n && j < n {
            assert(compatible(store.claims[i], store.claims[j]));
        } else if i < n {
            assert(store.claims[i].id != claim.id);
        } else {
            assert(store.claims[j].id != claim.id);
        }
    }
}

/// Fixing a slot's cardinality where it does not contradict keeps claims sound.
proof fn slotting_keeps_sound(store: MemoryStoreModel, slot: SlotRowModel)
    requires
        claims_sound(store),
        slot_refusal(store, slot) is None,
    ensures
        claims_sound(with_slot(store, slot)),
        slot_recorded(with_slot(store, slot).claim_slots, slot),
        with_slot(store, slot).claims == store.claims,
{
    let slots = store.claim_slots;
    let after = with_slot(store, slot);
    first_where_found(slots, slot_keyed(slot));
    if some_row(slots, slot_keyed(slot)) {
        let row = first_where(slots, slot_keyed(slot)).unwrap();
        let m = choose|m: int| 0 <= m < slots.len() && slots[m] == row;
        assert(same_slot(slots[m], slot) && slots[m].cardinality == slot.cardinality);
    } else {
        let n = slots.len() as int;
        assert(after.claim_slots[n] == slot);
        assert forall|i: int, j: int| 0 <= i < j < after.claim_slots.len() implies !same_slot(
            #[trigger] after.claim_slots[i],
            #[trigger] after.claim_slots[j],
        ) by {
            assert(after.claim_slots[i] == slots[i]);
            if j < n {
                assert(after.claim_slots[j] == slots[j]);
            } else {
                assert(!(slot_keyed(slot))(slots[i]));
            }
        }
        assert forall|i: int|
            0 <= i < after.claims.len() && (#[trigger] after.claims[i]).status is Active implies slot_recorded(
            after.claim_slots,
            slot_of(after.claims[i]),
        ) by {
            let wanted = slot_of(store.claims[i]);
            assert(slot_recorded(slots, wanted));
            let k = choose|k: int|
                0 <= k < slots.len() && same_slot(#[trigger] slots[k], wanted)
                    && slots[k].cardinality == wanted.cardinality;
            assert(after.claim_slots[k] == slots[k]);
        }
    }
}

/// Making a claim active in a slot that is free for it keeps claims sound.
proof fn activating_keeps_sound(
    store: MemoryStoreModel,
    id: Text,
    slot: SlotRowModel,
    value: Text,
    patch: ClaimPatchModel,
)
    requires
        claims_sound(store),
        patch.status is Active,
        slot_recorded(store.claim_slots, slot),
        free_for(store.claims, slot, value, id),
        forall|i: int|
            0 <= i < store.claims.len() && (#[trigger] store.claims[i]).id == id ==> slot_of(
                store.claims[i],
            ) == slot && store.claims[i].value == value,
    ensures
        claims_sound(with_patch(store, claim_named(id), patch)),
{
    let after = with_patch(store, claim_named(id), patch);
    let change = patched_where(claim_named(id), patch);
    assert forall|i: int| 0 <= i < after.claims.len() implies #[trigger] after.claims[i] == change(
        store.claims[i],
    ) by {}
    assert forall|i: int, j: int| 0 <= i < j < after.claims.len() implies (
    #[trigger] after.claims[i]).id != (#[trigger] after.claims[j]).id by {
        assert(store.claims[i].id != store.claims[j].id);
    }
    assert forall|i: int|
        0 <= i < after.claims.len() implies (#[trigger] after.claims[i]).value_hash == json_hash(
        after.claims[i].value,
    ) by {
        assert(store.claims[i].value_hash == json_hash(store.claims[i].value));
    }
    assert forall|i: int|
        0 <= i < after.claims.len() && (#[trigger] after.claims[i]).status is Active implies slot_recorded(
        after.claim_slots,
        slot_of(after.claims[i]),
    ) by {
        assert(slot_of(store.claims[i]) == slot_of(after.claims[i]));
        if store.claims[i].id != id {
            assert(store.claims[i].status is Active);
        }
    }
    assert forall|i: int, j: int|
        0 <= i < after.claims.len() && 0 <= j < after.claims.len() && i != j implies compatible(
        #[trigger] after.claims[i],
        #[trigger] after.claims[j],
    ) by {
        if i < j {
            assert(store.claims[i].id != store.claims[j].id);
        } else {
            assert(store.claims[j].id != store.claims[i].id);
        }
        assert(compatible(store.claims[i], store.claims[j]));
        assert(slot_of(store.claims[i]) == slot_of(after.claims[i]));
        assert(slot_of(store.claims[j]) == slot_of(after.claims[j]));
    }
}

/// Soundness speaks of claims and slots alone.
proof fn soundness_is_of_claims(left: MemoryStoreModel, right: MemoryStoreModel)
    requires
        left.claims == right.claims,
        left.claim_slots == right.claim_slots,
    ensures
        claims_sound(left) == claims_sound(right),
{
}

/// Whether different values of the stored claims have different hashes.
pub open spec fn hashes_differ(store: MemoryStoreModel) -> bool {
    forall|i: int, j: int|
        0 <= i < store.claims.len() && 0 <= j < store.claims.len() && (
        #[trigger] store.claims[i]).value_hash == (#[trigger] store.claims[j]).value_hash
            ==> store.claims[i].value == store.claims[j].value
}

proof fn fresh_claim_id(store: MemoryStoreModel, id: Text)
    requires
        claim_clash(store, id) is None,
    ensures
        forall|i: int| 0 <= i < store.claims.len() ==> (#[trigger] store.claims[i]).id != id,
{
    assert forall|i: int| 0 <= i < store.claims.len() implies (#[trigger] store.claims[i]).id
        != id by {
        assert(!(claim_named(id))(store.claims[i]));
    }
}

proof fn found_claim(store: MemoryStoreModel, id: Text)
    requires
        claims_sound(store),
        claim_at(store, id) is Some,
    ensures
        ({
            let claim = claim_at(store, id).unwrap();
            &&& claim.id == id
            &&& claim.value_hash == json_hash(claim.value)
            &&& store.claims.contains(claim)
            &&& forall|i: int|
                0 <= i < store.claims.len() && (#[trigger] store.claims[i]).id == id
                    ==> store.claims[i] == claim
        }),
{
    first_where_found(store.claims, claim_named(id));
    let claim = claim_at(store, id).unwrap();
    let k = choose|k: int| 0 <= k < store.claims.len() && store.claims[k] == claim;
    assert(store.claims[k].value_hash == json_hash(store.claims[k].value));
    assert forall|i: int| 0 <= i < store.claims.len() && (#[trigger] store.claims[i]).id == id implies store.claims[i]
        == claim by {
        if i < k {
            assert(store.claims[i].id != store.claims[k].id);
        } else if k < i {
            assert(store.claims[k].id != store.claims[i].id);
        }
    }
}

/// Superseding the other active claims of a single-valued slot frees it.
proof fn superseding_frees(
    store: MemoryStoreModel,
    slot: SlotRowModel,
    excluded: Option<Text>,
    at: Text,
    value: Text,
    except: Text,
)
    requires
        claims_sound(store),
        slot.cardinality is Single,
        excluded is None || excluded == Some(except),
    ensures
        claims_sound(with_others_superseded(store, slot, excluded, at)),
        free_for(
            with_others_superseded(store, slot, excluded, at).claims,
            slot,
            value,
            except,
        ),
{
    let accepts = active_other(slot, excluded);
    let patch = restated(ClaimStatus::Superseded, at);
    closing_keeps_sound(store, accepts, patch);
    let after = with_patch(store, accepts, patch);
    assert forall|i: int|
        0 <= i < after.claims.len() && (#[trigger] after.claims[i]).status is Active
            && after.claims[i].id != except && same_slot(slot_of(after.claims[i]), slot) implies false by {
        assert(after.claims[i] == (patched_where(accepts, patch))(store.claims[i]));
        assert(slot_of(store.claims[i]) == slot_of(after.claims[i]));
    }
}

proof fn purging_keeps_claims_sound(store: MemoryStoreModel, after: MemoryStoreModel, removed: Seq<Text>)
    requires
        claims_sound(store),
        after.claims == store.claims.filter(claim_kept(removed)).map_values(
            claim_unlinked(removed),
        ),
        after.claim_slots == store.claim_slots.filter(slot_kept(store.claims, removed)),
    ensures
        claims_sound(after),
{
    let keep = claim_kept(removed);
    let kept = store.claims.filter(keep);
    let stays = slot_kept(store.claims, removed);
    assert forall|i: int| 0 <= i < after.claims.len() implies #[trigger] after.claims[i] == (
    claim_unlinked(removed))(kept[i]) by {}
    assert forall|i: int, j: int| 0 <= i < j < after.claims.len() implies (
    #[trigger] after.claims[i]).id != (#[trigger] after.claims[j]).id by {
        let at = filtered_positions(store.claims, keep, i, j);
        assert(store.claims[at.0].id != store.claims[at.1].id);
    }
    assert forall|i: int|
        0 <= i < after.claims.len() implies (#[trigger] after.claims[i]).value_hash == json_hash(
        after.claims[i].value,
    ) by {
        let at = filtered_position(store.claims, keep, i);
        assert(store.claims[at].value_hash == json_hash(store.claims[at].value));
    }
    assert forall|i: int, j: int| 0 <= i < j < after.claim_slots.len() implies !same_slot(
        #[trigger] after.claim_slots[i],
        #[trigger] after.claim_slots[j],
    ) by {
        let at = filtered_positions(store.claim_slots, stays, i, j);
        assert(!same_slot(store.claim_slots[at.0], store.claim_slots[at.1]));
    }
    assert forall|i: int|
        0 <= i < after.claims.len() && (#[trigger] after.claims[i]).status is Active implies slot_recorded(
        after.claim_slots,
        slot_of(after.claims[i]),
    ) by {
        let at = filtered_position(store.claims, keep, i);
        let wanted = slot_of(store.claims[at]);
        assert(slot_recorded(store.claim_slots, wanted));
        let k = choose|k: int|
            0 <= k < store.claim_slots.len() && same_slot(#[trigger] store.claim_slots[k], wanted)
                && store.claim_slots[k].cardinality == wanted.cardinality;
        assert(!listed(removed, store.claims[at].id));
        assert(same_slot(slot_of(store.claims[at]), store.claim_slots[k]));
        assert(stays(store.claim_slots[k]));
        let m = kept_position(store.claim_slots, stays, k);
        assert(after.claim_slots[m] == store.claim_slots[k]);
    }
    assert forall|i: int, j: int|
        0 <= i < after.claims.len() && 0 <= j < after.claims.len() && i != j implies compatible(
        #[trigger] after.claims[i],
        #[trigger] after.claims[j],
    ) by {
        if i < j {
            let at = filtered_positions(store.claims, keep, i, j);
            assert(compatible(store.claims[at.0], store.claims[at.1]));
        } else {
            let at = filtered_positions(store.claims, keep, j, i);
            assert(compatible(store.claims[at.1], store.claims[at.0]));
        }
    }
}

proof fn drafting_keeps_sound(
    store: MemoryStoreModel,
    run: crate::row::RunRowModel,
    drafts: Seq<ClaimDraftModel>,
    ids: Seq<Text>,
    at: Text,
    n: int,
)
    requires
        claims_sound(store),
        0 <= n <= drafts.len() <= ids.len(),
        ids.no_duplicates(),
        forall|i: int, k: int|
            0 <= i < store.claims.len() && 0 <= k < ids.len() ==> (#[trigger] store.claims[i]).id
                != #[trigger] ids[k],
    ensures
        ({
            let made = all_drafted(run, drafts, ids, at).take(n);
            let after = with_drafted(store, made, drafts.take(n));
            &&& claims_sound(after)
            &&& after.claims == store.claims + made
            &&& after.claim_slots == store.claim_slots
        }),
    decreases n,
{
    let all = all_drafted(run, drafts, ids, at);
    let made = all.take(n);
    let after = with_drafted(store, made, drafts.take(n));
    if n == 0 {
        assert(made =~= Seq::empty());
        assert(store.claims + made =~= store.claims);
    } else {
        drafting_keeps_sound(store, run, drafts, ids, at, n - 1);
        let before = with_drafted(store, all.take(n - 1), drafts.take(n - 1));
        assert(made.drop_last() =~= all.take(n - 1));
        assert(drafts.take(n).drop_last() =~= drafts.take(n - 1));
        let claim = made.last();
        assert(claim == drafted(run, drafts[n - 1], ids[n - 1], at));
        assert forall|i: int| 0 <= i < before.claims.len() implies (#[trigger] before.claims[i]).id
            != claim.id by {
            if i < store.claims.len() {
                assert(before.claims[i] == store.claims[i]);
            } else {
                let k = i - store.claims.len();
                assert(before.claims[i] == all[k]);
                assert(all[k].id == ids[k]);
            }
        }
        adding_keeps_sound(before, claim);
        soundness_is_of_claims(with_claim(before, claim), after);
        assert(after.claims =~= store.claims + made);
    }
}

proof fn observing_keeps_claims(
    store: MemoryStoreModel,
    made: Seq<ObservationModel>,
    drafts: Seq<ObservationDraftModel>,
)
    ensures
        with_observations(store, made, drafts).claims == store.claims,
        with_observations(store, made, drafts).claim_slots == store.claim_slots,
    decreases made.len(),
{
    if made.len() > 0 && drafts.len() > 0 {
        observing_keeps_claims(store, made.drop_last(), drafts.drop_last());
    }
}

/// What a commit does to claims: it adds the drafted ones, all of them pending.
pub proof fn committing_adds_pending_claims(
    store: MemoryStoreModel,
    run: crate::row::RunRowModel,
    result: ObserverResultModel,
    stamp: StampModel,
)
    requires
        claims_sound(store),
        stamp.ids.len() == crate::observation::commit_ids(result),
        crate::observation::claim_ids_new(
            store,
            stamp.ids.subrange(
                result.observations.len() as int,
                result.observations.len() as int + result.claims.len(),
            ),
        ),
    ensures
        ({
            let (after, commit) = crate::observation::committed(store, run, result, stamp);
            &&& claims_sound(after)
            &&& after.claims == store.claims + commit.claims
            &&& after.claim_slots == store.claim_slots
            &&& forall|i: int|
                0 <= i < commit.claims.len() ==> (#[trigger] commit.claims[i]).status is Pending
                    && commit.claims[i].authority is ModelInference
        }),
{
    let sources = crate::event::events_between(
        store,
        run.stream_id,
        run.from_sequence as int,
        run.to_sequence as int,
    );
    let made = crate::observation::all_observed(
        run,
        sources,
        result.observations,
        stamp.ids,
        stamp.at,
    );
    let observed = with_observations(store, made, result.observations);
    observing_keeps_claims(store, made, result.observations);
    soundness_is_of_claims(store, observed);
    let skipped = result.observations.len() as int;
    let ids = stamp.ids.subrange(skipped, skipped + result.claims.len());
    assert forall|i: int, k: int|
        0 <= i < observed.claims.len() && 0 <= k < ids.len() implies (
    #[trigger] observed.claims[i]).id != #[trigger] ids[k] by {
        fresh_claim_id(store, ids[k]);
        assert(observed.claims[i] == store.claims[i]);
    }
    drafting_keeps_sound(
        observed,
        run,
        result.claims,
        ids,
        stamp.at,
        result.claims.len() as int,
    );
    let claims = all_drafted(run, result.claims, ids, stamp.at);
    assert(claims =~= all_drafted(run, result.claims, stamp.ids.skip(skipped), stamp.at));
    assert(claims.take(claims.len() as int) =~= claims);
    assert(result.claims.take(result.claims.len() as int) =~= result.claims);
    let after = crate::observation::committed(store, run, result, stamp).0;
    soundness_is_of_claims(with_drafted(observed, claims, result.claims), after);
}

/// Whether claims say what they said before, in their places, and none was added.
pub open spec fn all_restated(before: Seq<ClaimModel>, after: Seq<ClaimModel>) -> bool {
    &&& after.len() == before.len()
    &&& forall|i: int| 0 <= i < before.len() ==> restates(before[i], #[trigger] after[i])
}

proof fn patching_restates(
    store: MemoryStoreModel,
    accepts: spec_fn(ClaimModel) -> bool,
    patch: ClaimPatchModel,
)
    ensures
        all_restated(store.claims, with_patch(store, accepts, patch).claims),
{
}

proof fn restating_is_transitive(
    first: Seq<ClaimModel>,
    second: Seq<ClaimModel>,
    third: Seq<ClaimModel>,
)
    requires
        all_restated(first, second),
        all_restated(second, third),
    ensures
        all_restated(first, third),
{
    assert forall|i: int| 0 <= i < first.len() implies restates(first[i], #[trigger] third[i]) by {
        assert(restates(first[i], second[i]));
        assert(restates(second[i], third[i]));
    }
}

/// Reconciling one claim keeps claims sound, and what they say.
proof fn reconciling_one_keeps_sound(
    start: MemoryStoreModel,
    store: MemoryStoreModel,
    summary: ReconciliationSummaryModel,
    claim: ClaimModel,
    at: Text,
)
    requires
        claims_sound(start),
        claims_sound(store),
        all_restated(start.claims, store.claims),
        start.claims.contains(claim),
    ensures
        reconcile_one(store, summary, claim, at) matches Ok((done, _)) ==> claims_sound(done)
            && all_restated(start.claims, done.claims),
{
    let slot = slot_of(claim);
    let k = choose|k: int| 0 <= k < start.claims.len() && start.claims[k] == claim;
    assert(start.claims[k].value_hash == json_hash(start.claims[k].value));
    assert(restates(start.claims[k], store.claims[k]));
    if !needs_decision(claim.modality) {
        match member_of(store, slot, claim.value_hash) {
            None => {
                if slot_refusal(store, slot) is None {
                    no_member_means_free(store, store, slot, claim.value, claim.id);
                    slotting_keeps_sound(store, slot);
                    let slotted = with_slot(store, slot);
                    assert forall|i: int|
                        0 <= i < slotted.claims.len() && (#[trigger] slotted.claims[i]).id == claim.id implies slot_of(
                        slotted.claims[i],
                    ) == slot && slotted.claims[i].value == claim.value by {
                        if i < k {
                            assert(store.claims[i].id != store.claims[k].id);
                        } else if k < i {
                            assert(store.claims[k].id != store.claims[i].id);
                        }
                    }
                    activating_keeps_sound(slotted, claim.id, slot, claim.value, activation(at));
                    patching_restates(slotted, claim_named(claim.id), activation(at));
                    restating_is_transitive(
                        start.claims,
                        store.claims,
                        with_patch(slotted, claim_named(claim.id), activation(at)).claims,
                    );
                }
            },
            Some(existing) => {
                let status = if same_json(existing.value, claim.value) {
                    ClaimStatus::Rejected
                } else {
                    ClaimStatus::Disputed
                };
                let patch = restated(status, at);
                closing_keeps_sound(store, claim_named(claim.id), patch);
                let closed = with_patch(store, claim_named(claim.id), patch);
                patching_restates(store, claim_named(claim.id), patch);
                restating_is_transitive(start.claims, store.claims, closed.claims);
                if reconcile_one(store, summary, claim, at) is Ok {
                    let done = reconcile_one(store, summary, claim, at)->Ok_0.0;
                    soundness_is_of_claims(closed, done);
                }
            },
        }
    }
}

proof fn reconciling_keeps_sound(store: MemoryStoreModel, pending: Seq<ClaimModel>, at: Text)
    requires
        claims_sound(store),
        forall|i: int| 0 <= i < pending.len() ==> store.claims.contains(#[trigger] pending[i]),
    ensures
        reconcile_all(store, pending, at) matches Ok((done, _)) ==> claims_sound(done)
            && all_restated(store.claims, done.claims),
    decreases pending.len(),
{
    if pending.len() > 0 {
        let front = pending.drop_last();
        assert forall|i: int| 0 <= i < front.len() implies store.claims.contains(
            #[trigger] front[i],
        ) by {
            assert(front[i] == pending[i]);
        }
        reconciling_keeps_sound(store, front, at);
        if let Ok((done, summary)) = reconcile_all(store, front, at) {
            assert(store.claims.contains(pending[pending.len() - 1]));
            reconciling_one_keeps_sound(store, done, summary, pending.last(), at);
        }
    }
}

proof fn listed_claims_are_stored(
    store: MemoryStoreModel,
    scope_ids: Seq<Text>,
    status: Option<ClaimStatus>,
)
    ensures
        forall|i: int|
            0 <= i < claims_in(store, scope_ids, status).len() ==> store.claims.contains(
                #[trigger] claims_in(store, scope_ids, status)[i],
            ) && (status matches Some(wanted) ==> claims_in(store, scope_ids, status)[i].status
                == wanted),
{
    let accepts = claim_in(scope_ids, status);
    let rows = store.claims.filter(accepts);
    let sorted = claims_in(store, scope_ids, status);
    assert forall|i: int| 0 <= i < sorted.len() implies store.claims.contains(
        #[trigger] sorted[i],
    ) && (status matches Some(wanted) ==> sorted[i].status == wanted) by {
        assert(sorted.contains(sorted[i]));
        ordered_contains(rows, claim_age(), sorted[i]);
        let k = choose|k: int| 0 <= k < rows.len() && rows[k] == sorted[i];
        let at = filtered_position(store.claims, accepts, k);
        assert(store.claims[at] == sorted[i]);
    }
}

proof fn stating_keeps_sound(store: MemoryStoreModel, raw: crate::row::ClaimRequestModel, key: Text, stamp: StampModel)
    requires
        claims_sound(store),
        stamp.ids.len() == 2,
    ensures
        claims_sound(direct_step(store, raw, key, stamp).0),
        extends(store.claims, direct_step(store, raw, key, stamp).0.claims),
{
    let after = direct_step(store, raw, key, stamp).0;
    let request = normalized(raw);
    let slot = requested_slot(request);
    let active = member_of(store, slot, json_hash(request.value));
    assert(store.claims.take(store.claims.len() as int) =~= store.claims);
    if after.claims == store.claims && after.claim_slots == store.claim_slots {
        soundness_is_of_claims(store, after);
    } else {
        let status = if request.status is Active && active is Some {
            ClaimStatus::Disputed
        } else {
            request.status
        };
        let claim = requested_claim(request, status, stamp);
        fresh_claim_id(store, claim.id);
        assert(slot_of(claim) == slot);
        let slotted = if status is Active {
            no_member_means_free(store, store, slot, request.value, claim.id);
            slotting_keeps_sound(store, slot);
            with_slot(store, slot)
        } else {
            store
        };
        adding_keeps_sound(slotted, claim);
        soundness_is_of_claims(with_claim(slotted, claim), after);
        assert(store.claims.push(claim).take(store.claims.len() as int) =~= store.claims);
    }
}

proof fn confirming_keeps_sound(store: MemoryStoreModel, claim_id: Text, key: Text, stamp: StampModel)
    requires
        claims_sound(store),
        hashes_differ(store),
        stamp.ids.len() == 1,
    ensures
        claims_sound(confirm_step(store, claim_id, key, stamp).0),
{
    let after = confirm_step(store, claim_id, key, stamp).0;
    if after.claims == store.claims && after.claim_slots == store.claim_slots {
        soundness_is_of_claims(store, after);
    } else {
        let claim = claim_at(store, claim_id).unwrap();
        let slot = slot_of(claim);
        let at = stamp.at;
        let active = member_of(store, slot, claim.value_hash);
        found_claim(store, claim_id);
        slotting_keeps_sound(store, slot);
        let slotted = with_slot(store, slot);
        if active is Some && same_json(active.unwrap().value, claim.value) {
            let patch = restated(ClaimStatus::Rejected, at);
            closing_keeps_sound(slotted, claim_named(claim.id), patch);
            soundness_is_of_claims(with_patch(slotted, claim_named(claim.id), patch), after);
        } else {
            let cleared = with_others_superseded(slotted, slot, Some(claim.id), at);
            if slot.cardinality is Single {
                superseding_frees(slotted, slot, Some(claim.id), at, claim.value, claim.id);
            } else {
                member_is_found(store, slot, claim.value_hash);
                if active is Some {
                    let member = active.unwrap();
                    let i = choose|i: int| 0 <= i < store.claims.len() && store.claims[i] == member;
                    let j = choose|j: int| 0 <= j < store.claims.len() && store.claims[j] == claim;
                    assert(store.claims[i].value_hash == store.claims[j].value_hash);
                    assert(false);
                }
                no_member_means_free(store, store, slot, claim.value, claim.id);
            }
            assert forall|i: int|
                0 <= i < cleared.claims.len() && (#[trigger] cleared.claims[i]).id == claim.id implies slot_of(
                cleared.claims[i],
            ) == slot && cleared.claims[i].value == claim.value by {
                assert(store.claims[i].id == claim.id);
            }
            activating_keeps_sound(cleared, claim.id, slot, claim.value, confirmation(at));
            let confirmed = with_patch(cleared, claim_named(claim.id), confirmation(at));
            soundness_is_of_claims(confirmed, after);
        }
    }
}

proof fn confirming_restates(store: MemoryStoreModel, claim_id: Text, key: Text, stamp: StampModel)
    ensures
        all_restated(store.claims, confirm_step(store, claim_id, key, stamp).0.claims),
{
    let after = confirm_step(store, claim_id, key, stamp).0;
    if after.claims != store.claims {
        let claim = claim_at(store, claim_id).unwrap();
        let slot = slot_of(claim);
        let cleared = with_others_superseded(store, slot, Some(claim.id), stamp.at);
        patching_restates(store, claim_named(claim.id), restated(ClaimStatus::Rejected, stamp.at));
        patching_restates(
            store,
            active_other(slot, Some(claim.id)),
            restated(ClaimStatus::Superseded, stamp.at),
        );
        patching_restates(cleared, claim_named(claim.id), confirmation(stamp.at));
        restating_is_transitive(
            store.claims,
            cleared.claims,
            with_patch(cleared, claim_named(claim.id), confirmation(stamp.at)).claims,
        );
    }
}

/// What a correction or a move does to claims: they keep what they say, and one may be added.
pub open spec fn restated_and_added(before: Seq<ClaimModel>, after: Seq<ClaimModel>) -> bool {
    &&& before.len() <= after.len() <= before.len() + 1
    &&& forall|i: int| 0 <= i < before.len() ==> restates(before[i], #[trigger] after[i])
}

proof fn correcting_keeps_sound(
    store: MemoryStoreModel,
    claim_id: Text,
    value: Text,
    event_ids: Seq<Text>,
    key: Text,
    stamp: StampModel,
)
    requires
        claims_sound(store),
        stamp.ids.len() == 2,
    ensures
        claims_sound(correct_step(store, claim_id, value, event_ids, key, stamp).0),
        restated_and_added(
            store.claims,
            correct_step(store, claim_id, value, event_ids, key, stamp).0.claims,
        ),
{
    let after = correct_step(store, claim_id, value, event_ids, key, stamp).0;
    if after.claims == store.claims && after.claim_slots == store.claim_slots {
        soundness_is_of_claims(store, after);
    } else {
        let former = claim_at(store, claim_id).unwrap();
        let claim = correction(former, value, stamp);
        let slot = slot_of(claim);
        let at = stamp.at;
        let patch = restated(ClaimStatus::Superseded, at);
        let cleared = if former.cardinality is Single {
            closing_keeps_sound(store, active_single(slot_of(former)), patch);
            patching_restates(store, active_single(slot_of(former)), patch);
            with_patch(store, active_single(slot_of(former)), patch)
        } else {
            store
        };
        closing_keeps_sound(cleared, claim_named(former.id), patch);
        patching_restates(cleared, claim_named(former.id), patch);
        let superseded = with_superseded(store, former, at);
        assert(superseded == with_patch(cleared, claim_named(former.id), patch));
        restating_is_transitive(store.claims, cleared.claims, superseded.claims);
        slotting_keeps_sound(superseded, slot);
        let slotted = with_slot(superseded, slot);
        if member_of(superseded, slot, claim.value_hash) is Some {
            soundness_is_of_claims(slotted, after);
        } else {
            no_member_means_free(store, superseded, slot, value, claim.id);
            fresh_claim_id(store, claim.id);
            assert forall|i: int| 0 <= i < slotted.claims.len() implies (
            #[trigger] slotted.claims[i]).id != claim.id by {
                assert(restates(store.claims[i], superseded.claims[i]));
            }
            adding_keeps_sound(slotted, claim);
            soundness_is_of_claims(with_claim(slotted, claim), after);
        }
    }
}

proof fn rescoping_keeps_sound(
    store: MemoryStoreModel,
    claim_id: Text,
    new_scope_id: Text,
    key: Text,
    stamp: StampModel,
)
    requires
        claims_sound(store),
        stamp.ids.len() == 2,
    ensures
        claims_sound(rescope_step(store, claim_id, new_scope_id, key, stamp).0),
        restated_and_added(
            store.claims,
            rescope_step(store, claim_id, new_scope_id, key, stamp).0.claims,
        ),
{
    let after = rescope_step(store, claim_id, new_scope_id, key, stamp).0;
    if after.claims == store.claims && after.claim_slots == store.claim_slots {
        soundness_is_of_claims(store, after);
    } else {
        let former = claim_at(store, claim_id).unwrap();
        let claim = moved(former, new_scope_id, stamp);
        let slot = slot_of(claim);
        let at = stamp.at;
        let patch = restated(ClaimStatus::Superseded, at);
        found_claim(store, claim_id);
        closing_keeps_sound(store, claim_named(former.id), patch);
        patching_restates(store, claim_named(former.id), patch);
        let superseded = with_patch(store, claim_named(former.id), patch);
        let active = claim.status is Active;
        if active {
            slotting_keeps_sound(superseded, slot);
            let slotted = with_slot(superseded, slot);
            if member_of(superseded, slot, claim.value_hash) is Some {
                soundness_is_of_claims(slotted, after);
            } else {
                fresh_claim_id(store, claim.id);
                no_member_means_free(store, superseded, slot, claim.value, claim.id);
                let cleared = with_others_superseded(slotted, slot, None, at);
                if slot.cardinality is Single {
                    superseding_frees(slotted, slot, None, at, claim.value, claim.id);
                    patching_restates(
                        slotted,
                        active_other(slot, None),
                        restated(ClaimStatus::Superseded, at),
                    );
                }
                restating_is_transitive(store.claims, slotted.claims, cleared.claims);
                assert forall|i: int| 0 <= i < cleared.claims.len() implies (
                #[trigger] cleared.claims[i]).id != claim.id by {
                    assert(restates(store.claims[i], cleared.claims[i]));
                }
                adding_keeps_sound(cleared, claim);
                soundness_is_of_claims(with_claim(cleared, claim), after);
            }
        } else {
            fresh_claim_id(store, claim.id);
            assert forall|i: int| 0 <= i < superseded.claims.len() implies (
            #[trigger] superseded.claims[i]).id != claim.id by {
                assert(restates(store.claims[i], superseded.claims[i]));
            }
            adding_keeps_sound(superseded, claim);
            soundness_is_of_claims(with_claim(superseded, claim), after);
        }
    }
}

proof fn closing_claim_keeps_sound(
    store: MemoryStoreModel,
    claim_id: Text,
    forget: bool,
    key: Text,
    stamp: StampModel,
)
    requires
        claims_sound(store),
        stamp.ids.len() == 1,
    ensures
        claims_sound(close_step(store, claim_id, forget, key, stamp).0),
        all_restated(store.claims, close_step(store, claim_id, forget, key, stamp).0.claims),
{
    let after = close_step(store, claim_id, forget, key, stamp).0;
    if after.claims == store.claims && after.claim_slots == store.claim_slots {
        soundness_is_of_claims(store, after);
    } else {
        let claim = claim_at(store, claim_id).unwrap();
        let patch = restated(closed_status(forget), stamp.at);
        closing_keeps_sound(store, claim_named(claim.id), patch);
        patching_restates(store, claim_named(claim.id), patch);
        soundness_is_of_claims(with_patch(store, claim_named(claim.id), patch), after);
    }
}

/// What the law `claims_stay_sound` says of a request.
spec fn sound_holds(store: MemoryStoreModel, request: Request, stamp: StampModel) -> bool {
    &&& claims_sound(step(store, request, stamp).0)
}

proof fn sound_create_scope(store: MemoryStoreModel, request: Request, stamp: StampModel)
    requires
        request is CreateScope,
        stamped(request, stamp),
        claims_sound(store),
        request is ConfirmClaim ==> hashes_differ(store),
    ensures
        sound_holds(store, request, stamp),
{
    reveal(crate::transition::on_create_scope);
    soundness_is_of_claims(store, step(store, request, stamp).0);
}

proof fn sound_append_event(store: MemoryStoreModel, request: Request, stamp: StampModel)
    requires
        request is AppendEvent,
        stamped(request, stamp),
        claims_sound(store),
        request is ConfirmClaim ==> hashes_differ(store),
    ensures
        sound_holds(store, request, stamp),
{
    reveal(crate::transition::on_append_event);
    soundness_is_of_claims(store, step(store, request, stamp).0);
}

proof fn sound_plan_observation(store: MemoryStoreModel, request: Request, stamp: StampModel)
    requires
        request is PlanObservation,
        stamped(request, stamp),
        claims_sound(store),
        request is ConfirmClaim ==> hashes_differ(store),
    ensures
        sound_holds(store, request, stamp),
{
    reveal(crate::transition::on_plan_observation);
    soundness_is_of_claims(store, step(store, request, stamp).0);
}

proof fn sound_commit_observation(store: MemoryStoreModel, request: Request, stamp: StampModel)
    requires
        request is CommitObservation,
        stamped(request, stamp),
        claims_sound(store),
        request is ConfirmClaim ==> hashes_differ(store),
    ensures
        sound_holds(store, request, stamp),
{
    reveal(crate::transition::on_commit_observation);
    let after = step(store, request, stamp).0;
    let result = request->CommitObservation_result;
    if after.claims == store.claims && after.claim_slots == store.claim_slots {
        soundness_is_of_claims(store, after);
    } else {
        let run = crate::view::run_at(store, request->CommitObservation_run_id).unwrap();
        committing_adds_pending_claims(store, run, result, stamp);
        soundness_is_of_claims(
            crate::observation::committed(store, run, result, stamp).0,
            after,
        );
    }
}

proof fn sound_fail_observation(store: MemoryStoreModel, request: Request, stamp: StampModel)
    requires
        request is FailObservation,
        stamped(request, stamp),
        claims_sound(store),
        request is ConfirmClaim ==> hashes_differ(store),
    ensures
        sound_holds(store, request, stamp),
{
    reveal(crate::transition::on_fail_observation);
    soundness_is_of_claims(store, step(store, request, stamp).0);
}

proof fn sound_state_claim(store: MemoryStoreModel, request: Request, stamp: StampModel)
    requires
        request is StateClaim,
        stamped(request, stamp),
        claims_sound(store),
        request is ConfirmClaim ==> hashes_differ(store),
    ensures
        sound_holds(store, request, stamp),
{
    reveal(crate::transition::on_state_claim);
    stating_keeps_sound(store, request->StateClaim_request, request->StateClaim_key, stamp);
}

proof fn sound_confirm_claim(store: MemoryStoreModel, request: Request, stamp: StampModel)
    requires
        request is ConfirmClaim,
        stamped(request, stamp),
        claims_sound(store),
        request is ConfirmClaim ==> hashes_differ(store),
    ensures
        sound_holds(store, request, stamp),
{
    reveal(crate::transition::on_confirm_claim);
    confirming_keeps_sound(
        store,
        request->ConfirmClaim_claim_id,
        request->ConfirmClaim_key,
        stamp,
    );
}

proof fn sound_correct_claim(store: MemoryStoreModel, request: Request, stamp: StampModel)
    requires
        request is CorrectClaim,
        stamped(request, stamp),
        claims_sound(store),
        request is ConfirmClaim ==> hashes_differ(store),
    ensures
        sound_holds(store, request, stamp),
{
    reveal(crate::transition::on_correct_claim);
    correcting_keeps_sound(
        store,
        request->CorrectClaim_claim_id,
        request->CorrectClaim_value,
        request->CorrectClaim_event_ids,
        request->CorrectClaim_key,
        stamp,
    );
}

proof fn sound_rescope_claim(store: MemoryStoreModel, request: Request, stamp: StampModel)
    requires
        request is RescopeClaim,
        stamped(request, stamp),
        claims_sound(store),
        request is ConfirmClaim ==> hashes_differ(store),
    ensures
        sound_holds(store, request, stamp),
{
    reveal(crate::transition::on_rescope_claim);
    rescoping_keeps_sound(
        store,
        request->RescopeClaim_claim_id,
        request->RescopeClaim_new_scope_id,
        request->RescopeClaim_key,
        stamp,
    );
}

proof fn sound_close_claim(store: MemoryStoreModel, request: Request, stamp: StampModel)
    requires
        request is CloseClaim,
        stamped(request, stamp),
        claims_sound(store),
        request is ConfirmClaim ==> hashes_differ(store),
    ensures
        sound_holds(store, request, stamp),
{
    reveal(crate::transition::on_close_claim);
    closing_claim_keeps_sound(
        store,
        request->CloseClaim_claim_id,
        request->CloseClaim_forget,
        request->CloseClaim_key,
        stamp,
    );
}

proof fn sound_reconcile(store: MemoryStoreModel, request: Request, stamp: StampModel)
    requires
        request is Reconcile,
        stamped(request, stamp),
        claims_sound(store),
        request is ConfirmClaim ==> hashes_differ(store),
    ensures
        sound_holds(store, request, stamp),
{
    reveal(crate::transition::on_reconcile);
    let scope_ids = seq![request->Reconcile_scope_id];
    let pending = claims_in(store, scope_ids, Some(ClaimStatus::Pending));
    listed_claims_are_stored(store, scope_ids, Some(ClaimStatus::Pending));
    reconciling_keeps_sound(store, pending, stamp.at);
    let after = step(store, request, stamp).0;
    if after != store {
        let done = reconcile_all(store, pending, stamp.at)->Ok_0.0;
        soundness_is_of_claims(done, after);
    }
}

proof fn sound_create_view(store: MemoryStoreModel, request: Request, stamp: StampModel)
    requires
        request is CreateView,
        stamped(request, stamp),
        claims_sound(store),
        request is ConfirmClaim ==> hashes_differ(store),
    ensures
        sound_holds(store, request, stamp),
{
    reveal(crate::transition::on_create_view);
    soundness_is_of_claims(store, step(store, request, stamp).0);
}

proof fn sound_purge_claim(store: MemoryStoreModel, request: Request, stamp: StampModel)
    requires
        request is PurgeClaim,
        stamped(request, stamp),
        claims_sound(store),
        request is ConfirmClaim ==> hashes_differ(store),
    ensures
        sound_holds(store, request, stamp),
{
    reveal(crate::transition::on_purge_claim);
    let after = step(store, request, stamp).0;
    let closure = crate::privacy::privacy_closure(
        store,
        seq![crate::privacy::claim_node(request->PurgeClaim_claim_id)],
    );
    if after != store {
        purging_keeps_claims_sound(store, after, closure.claim_ids);
    }
}

proof fn sound_purge_event(store: MemoryStoreModel, request: Request, stamp: StampModel)
    requires
        request is PurgeEvent,
        stamped(request, stamp),
        claims_sound(store),
        request is ConfirmClaim ==> hashes_differ(store),
    ensures
        sound_holds(store, request, stamp),
{
    reveal(crate::transition::on_purge_event);
    let after = step(store, request, stamp).0;
    let closure = crate::privacy::privacy_closure(
        store,
        seq![crate::privacy::event_node(request->PurgeEvent_event_id)],
    );
    if after != store {
        purging_keeps_claims_sound(store, after, closure.claim_ids);
    }
}

/// Every request keeps claims sound: a single-valued slot never gets a second active claim, and a
/// set never the same value twice. (Where two values of stored claims had one hash, a confirmation
/// could miss that the set already holds the value.)
pub proof fn claims_stay_sound(store: MemoryStoreModel, request: Request, stamp: StampModel)
    requires
        stamped(request, stamp),
        claims_sound(store),
        request is ConfirmClaim ==> hashes_differ(store),
    ensures
        claims_sound(step(store, request, stamp).0),
{
    match request {
        Request::CreateScope { .. } => sound_create_scope(store, request, stamp),
        Request::AppendEvent { .. } => sound_append_event(store, request, stamp),
        Request::PlanObservation { .. } => sound_plan_observation(store, request, stamp),
        Request::CommitObservation { .. } => sound_commit_observation(store, request, stamp),
        Request::FailObservation { .. } => sound_fail_observation(store, request, stamp),
        Request::StateClaim { .. } => sound_state_claim(store, request, stamp),
        Request::ConfirmClaim { .. } => sound_confirm_claim(store, request, stamp),
        Request::CorrectClaim { .. } => sound_correct_claim(store, request, stamp),
        Request::RescopeClaim { .. } => sound_rescope_claim(store, request, stamp),
        Request::CloseClaim { .. } => sound_close_claim(store, request, stamp),
        Request::Reconcile { .. } => sound_reconcile(store, request, stamp),
        Request::CreateView { .. } => sound_create_view(store, request, stamp),
        Request::PurgeClaim { .. } => sound_purge_claim(store, request, stamp),
        Request::PurgeEvent { .. } => sound_purge_event(store, request, stamp),
    }
}

/// What the law `claims_keep_what_they_say` says of a request.
spec fn says_holds(store: MemoryStoreModel, request: Request, stamp: StampModel) -> bool {
    &&& store.claims.len() <= step(store, request, stamp).0.claims.len()
    &&& forall|i: int|
        0 <= i < store.claims.len() ==> restates(
            store.claims[i],
            #[trigger] step(store, request, stamp).0.claims[i],
        )
}

proof fn says_create_scope(store: MemoryStoreModel, request: Request, stamp: StampModel)
    requires
        request is CreateScope,
        stamped(request, stamp),
        claims_sound(store),
        !is_purge(request),
    ensures
        says_holds(store, request, stamp),
{
    reveal(crate::transition::on_create_scope);
}

proof fn says_append_event(store: MemoryStoreModel, request: Request, stamp: StampModel)
    requires
        request is AppendEvent,
        stamped(request, stamp),
        claims_sound(store),
        !is_purge(request),
    ensures
        says_holds(store, request, stamp),
{
    reveal(crate::transition::on_append_event);
}

proof fn says_plan_observation(store: MemoryStoreModel, request: Request, stamp: StampModel)
    requires
        request is PlanObservation,
        stamped(request, stamp),
        claims_sound(store),
        !is_purge(request),
    ensures
        says_holds(store, request, stamp),
{
    reveal(crate::transition::on_plan_observation);
}

proof fn says_commit_observation(store: MemoryStoreModel, request: Request, stamp: StampModel)
    requires
        request is CommitObservation,
        stamped(request, stamp),
        claims_sound(store),
        !is_purge(request),
    ensures
        says_holds(store, request, stamp),
{
    reveal(crate::transition::on_commit_observation);
    let after = step(store, request, stamp).0;
    let result = request->CommitObservation_result;
    if after.claims != store.claims {
        let run = crate::view::run_at(store, request->CommitObservation_run_id).unwrap();
        committing_adds_pending_claims(store, run, result, stamp);
        let made = crate::observation::committed(store, run, result, stamp).1.claims;
        assert forall|i: int| 0 <= i < store.claims.len() implies restates(
            store.claims[i],
            #[trigger] after.claims[i],
        ) by {
            assert(after.claims[i] == store.claims[i]);
        }
    }
}

proof fn says_fail_observation(store: MemoryStoreModel, request: Request, stamp: StampModel)
    requires
        request is FailObservation,
        stamped(request, stamp),
        claims_sound(store),
        !is_purge(request),
    ensures
        says_holds(store, request, stamp),
{
    reveal(crate::transition::on_fail_observation);
}

proof fn says_state_claim(store: MemoryStoreModel, request: Request, stamp: StampModel)
    requires
        request is StateClaim,
        stamped(request, stamp),
        claims_sound(store),
        !is_purge(request),
    ensures
        says_holds(store, request, stamp),
{
    reveal(crate::transition::on_state_claim);
    stating_keeps_sound(store, request->StateClaim_request, request->StateClaim_key, stamp);
    let after = step(store, request, stamp).0;
    assert forall|i: int| 0 <= i < store.claims.len() implies restates(
        store.claims[i],
        #[trigger] after.claims[i],
    ) by {
        assert(after.claims.take(store.claims.len() as int)[i] == store.claims[i]);
    }
}

proof fn says_confirm_claim(store: MemoryStoreModel, request: Request, stamp: StampModel)
    requires
        request is ConfirmClaim,
        stamped(request, stamp),
        claims_sound(store),
        !is_purge(request),
    ensures
        says_holds(store, request, stamp),
{
    reveal(crate::transition::on_confirm_claim);
    confirming_restates(
        store,
        request->ConfirmClaim_claim_id,
        request->ConfirmClaim_key,
        stamp,
    );
}

proof fn says_correct_claim(store: MemoryStoreModel, request: Request, stamp: StampModel)
    requires
        request is CorrectClaim,
        stamped(request, stamp),
        claims_sound(store),
        !is_purge(request),
    ensures
        says_holds(store, request, stamp),
{
    reveal(crate::transition::on_correct_claim);
    correcting_keeps_sound(
        store,
        request->CorrectClaim_claim_id,
        request->CorrectClaim_value,
        request->CorrectClaim_event_ids,
        request->CorrectClaim_key,
        stamp,
    );
}

proof fn says_rescope_claim(store: MemoryStoreModel, request: Request, stamp: StampModel)
    requires
        request is RescopeClaim,
        stamped(request, stamp),
        claims_sound(store),
        !is_purge(request),
    ensures
        says_holds(store, request, stamp),
{
    reveal(crate::transition::on_rescope_claim);
    rescoping_keeps_sound(
        store,
        request->RescopeClaim_claim_id,
        request->RescopeClaim_new_scope_id,
        request->RescopeClaim_key,
        stamp,
    );
}

proof fn says_close_claim(store: MemoryStoreModel, request: Request, stamp: StampModel)
    requires
        request is CloseClaim,
        stamped(request, stamp),
        claims_sound(store),
        !is_purge(request),
    ensures
        says_holds(store, request, stamp),
{
    reveal(crate::transition::on_close_claim);
    closing_claim_keeps_sound(
        store,
        request->CloseClaim_claim_id,
        request->CloseClaim_forget,
        request->CloseClaim_key,
        stamp,
    );
}

proof fn says_reconcile(store: MemoryStoreModel, request: Request, stamp: StampModel)
    requires
        request is Reconcile,
        stamped(request, stamp),
        claims_sound(store),
        !is_purge(request),
    ensures
        says_holds(store, request, stamp),
{
    reveal(crate::transition::on_reconcile);
    let scope_ids = seq![request->Reconcile_scope_id];
    let pending = claims_in(store, scope_ids, Some(ClaimStatus::Pending));
    listed_claims_are_stored(store, scope_ids, Some(ClaimStatus::Pending));
    reconciling_keeps_sound(store, pending, stamp.at);
}

proof fn says_create_view(store: MemoryStoreModel, request: Request, stamp: StampModel)
    requires
        request is CreateView,
        stamped(request, stamp),
        claims_sound(store),
        !is_purge(request),
    ensures
        says_holds(store, request, stamp),
{
    reveal(crate::transition::on_create_view);
}

proof fn says_purge_claim(store: MemoryStoreModel, request: Request, stamp: StampModel)
    requires
        request is PurgeClaim,
        stamped(request, stamp),
        claims_sound(store),
        !is_purge(request),
    ensures
        says_holds(store, request, stamp),
{
    reveal(crate::transition::on_purge_claim);
}

proof fn says_purge_event(store: MemoryStoreModel, request: Request, stamp: StampModel)
    requires
        request is PurgeEvent,
        stamped(request, stamp),
        claims_sound(store),
        !is_purge(request),
    ensures
        says_holds(store, request, stamp),
{
    reveal(crate::transition::on_purge_event);
}

/// No request but a purge removes a claim or changes what it says: it keeps its place, and only
/// its standing can change.
pub proof fn claims_keep_what_they_say(store: MemoryStoreModel, request: Request, stamp: StampModel)
    requires
        stamped(request, stamp),
        claims_sound(store),
        !is_purge(request),
    ensures
        store.claims.len() <= step(store, request, stamp).0.claims.len(),
        forall|i: int|
            0 <= i < store.claims.len() ==> restates(
                store.claims[i],
                #[trigger] step(store, request, stamp).0.claims[i],
            ),
{
    match request {
        Request::CreateScope { .. } => says_create_scope(store, request, stamp),
        Request::AppendEvent { .. } => says_append_event(store, request, stamp),
        Request::PlanObservation { .. } => says_plan_observation(store, request, stamp),
        Request::CommitObservation { .. } => says_commit_observation(store, request, stamp),
        Request::FailObservation { .. } => says_fail_observation(store, request, stamp),
        Request::StateClaim { .. } => says_state_claim(store, request, stamp),
        Request::ConfirmClaim { .. } => says_confirm_claim(store, request, stamp),
        Request::CorrectClaim { .. } => says_correct_claim(store, request, stamp),
        Request::RescopeClaim { .. } => says_rescope_claim(store, request, stamp),
        Request::CloseClaim { .. } => says_close_claim(store, request, stamp),
        Request::Reconcile { .. } => says_reconcile(store, request, stamp),
        Request::CreateView { .. } => says_create_view(store, request, stamp),
        Request::PurgeClaim { .. } => says_purge_claim(store, request, stamp),
        Request::PurgeEvent { .. } => says_purge_event(store, request, stamp),
    }
}

/// Stating or proposing a claim never changes a claim that is there: what is active stays active.
pub proof fn statements_leave_claims_alone(store: MemoryStoreModel, request: Request, stamp: StampModel)
    requires
        stamped(request, stamp),
        claims_sound(store),
        request is StateClaim,
    ensures
        extends(store.claims, step(store, request, stamp).0.claims),
{
    reveal(crate::transition::on_state_claim);
    stating_keeps_sound(store, request->StateClaim_request, request->StateClaim_key, stamp);
}

/// A proposal never becomes active by being made: whatever claim it adds is pending.
pub proof fn proposals_stay_pending(store: MemoryStoreModel, request: Request, stamp: StampModel)
    requires
        stamped(request, stamp),
        request is StateClaim,
        request->StateClaim_request.status is Pending,
    ensures
        ({
            let after = step(store, request, stamp).0;
            ||| after.claims == store.claims
            ||| {
                &&& after.claims == store.claims.push(after.claims.last())
                &&& after.claims.last().status is Pending
            }
        }),
{
    reveal(crate::transition::on_state_claim);
    let raw = request->StateClaim_request;
    let claim = requested_claim(normalized(raw), ClaimStatus::Pending, stamp);
    let after = step(store, request, stamp).0;
    assert(store.claims.push(claim).last() == claim);
}

/// What an observer hands in never changes a claim that is there, and the claims that it adds are
/// pending, on the authority of a model.
pub proof fn observers_only_propose(store: MemoryStoreModel, request: Request, stamp: StampModel)
    requires
        stamped(request, stamp),
        claims_sound(store),
        request is CommitObservation,
    ensures
        ({
            let after = step(store, request, stamp).0;
            &&& extends(store.claims, after.claims)
            &&& forall|i: int|
                store.claims.len() <= i < after.claims.len() ==> (#[trigger] after.claims[i]).status is Pending
                    && after.claims[i].authority is ModelInference
        }),
{
    reveal(crate::transition::on_commit_observation);
    let after = step(store, request, stamp).0;
    let result = request->CommitObservation_result;
    if after.claims == store.claims {
        assert(store.claims.take(store.claims.len() as int) =~= store.claims);
    } else {
        let run = crate::view::run_at(store, request->CommitObservation_run_id).unwrap();
        committing_adds_pending_claims(store, run, result, stamp);
        let made = crate::observation::committed(store, run, result, stamp).1.claims;
        assert(after.claims == store.claims + made);
        assert((store.claims + made).take(store.claims.len() as int) =~= store.claims);
        assert forall|i: int| store.claims.len() <= i < after.claims.len() implies (
        #[trigger] after.claims[i]).status is Pending && after.claims[i].authority is ModelInference by {
            assert(after.claims[i] == made[i - store.claims.len()]);
        }
    }
}

proof fn reconciling_skips_the_rest(
    store: MemoryStoreModel,
    pending: Seq<ClaimModel>,
    at: Text,
    i: int,
)
    requires
        claims_sound(store),
        forall|k: int|
            0 <= k < pending.len() ==> store.claims.contains(#[trigger] pending[k])
                && pending[k].status is Pending,
        0 <= i < store.claims.len(),
        needs_decision(store.claims[i].modality) || !(store.claims[i].status is Pending),
    ensures
        reconcile_all(store, pending, at) matches Ok((done, _)) ==> i < done.claims.len()
            && done.claims[i] == store.claims[i],
    decreases pending.len(),
{
    if pending.len() > 0 {
        let front = pending.drop_last();
        assert forall|k: int| 0 <= k < front.len() implies store.claims.contains(
            #[trigger] front[k],
        ) && front[k].status is Pending by {
            assert(front[k] == pending[k]);
        }
        reconciling_skips_the_rest(store, front, at, i);
        reconciling_keeps_sound(store, front, at);
        let claim = pending[pending.len() - 1];
        let k = choose|k: int| 0 <= k < store.claims.len() && store.claims[k] == claim;
        if k < i {
            assert(store.claims[k].id != store.claims[i].id);
        } else if i < k {
            assert(store.claims[i].id != store.claims[k].id);
        }
    }
}

/// Reconciliation never touches a proposal, an inference or an observation: these wait for an
/// explicit decision. Nor does it touch a claim that is not pending: what is active stays active.
pub proof fn reconciliation_leaves_the_rest(
    store: MemoryStoreModel,
    request: Request,
    stamp: StampModel,
    i: int,
)
    requires
        claims_sound(store),
        request is Reconcile,
        0 <= i < store.claims.len(),
        needs_decision(store.claims[i].modality) || !(store.claims[i].status is Pending),
    ensures
        step(store, request, stamp).0.claims.len() == store.claims.len(),
        step(store, request, stamp).0.claims[i] == store.claims[i],
{
    reveal(crate::transition::on_reconcile);
    let scope_ids = seq![request->Reconcile_scope_id];
    let pending = claims_in(store, scope_ids, Some(ClaimStatus::Pending));
    listed_claims_are_stored(store, scope_ids, Some(ClaimStatus::Pending));
    reconciling_keeps_sound(store, pending, stamp.at);
    reconciling_skips_the_rest(store, pending, stamp.at, i);
}

/// A correction that is carried out leaves the old claim in its place as superseded, and answers
/// with an active claim that has the corrected value. Where that claim is new, it says which one it
/// takes the place of.
pub proof fn correction_supersedes(
    store: MemoryStoreModel,
    claim_id: Text,
    value: Text,
    event_ids: Seq<Text>,
    key: Text,
    stamp: StampModel,
    i: int,
)
    requires
        claims_sound(store),
        stamp.ids.len() == 2,
        correct_step(store, claim_id, value, event_ids, key, stamp).1 matches Ok(done) && !done.replayed,
        0 <= i < store.claims.len(),
        store.claims[i].id == claim_id,
    ensures
        ({
            let (after, answer) = correct_step(store, claim_id, value, event_ids, key, stamp);
            let claim = answer->Ok_0.data;
            &&& i < after.claims.len()
            &&& after.claims[i] == patched(
                store.claims[i],
                restated(ClaimStatus::Superseded, stamp.at),
            )
            &&& claim.status is Active
            &&& claim.value_hash == json_hash(value)
            &&& after.claims.contains(claim)
            &&& claim_at(store, claim.id) is None ==> claim.supersedes_id == Some(claim_id)
        }),
{
    let (after, answer) = correct_step(store, claim_id, value, event_ids, key, stamp);
    first_where_found(store.claims, claim_named(claim_id));
    assert((claim_named(claim_id))(store.claims[i]));
    found_claim(store, claim_id);
    let former = claim_at(store, claim_id).unwrap();
    let claim = correction(former, value, stamp);
    let slot = slot_of(claim);
    let superseded = with_superseded(store, former, stamp.at);
    let patch = restated(ClaimStatus::Superseded, stamp.at);
    assert(superseded.claims[i] == patched(store.claims[i], patch));
    member_is_found(superseded, slot, claim.value_hash);
    match member_of(superseded, slot, claim.value_hash) {
        Some(existing) => {
            let k = choose|k: int| 0 <= k < superseded.claims.len() && superseded.claims[k] == existing;
            assert(superseded.claims[k].id == store.claims[k].id);
            assert((claim_named(existing.id))(store.claims[k]));
            first_where_found(store.claims, claim_named(existing.id));
            assert(after.claims == superseded.claims);
            if slot.cardinality is Single {
                let cleared = with_patch(store, active_single(slot_of(former)), patch);
                assert(cleared.claims[k] == (patched_where(active_single(slot_of(former)), patch))(
                    store.claims[k],
                ));
                assert(superseded.claims[k] == (patched_where(claim_named(former.id), patch))(
                    cleared.claims[k],
                ));
                assert(false);
            }
        },
        None => {
            assert(after.claims == superseded.claims.push(claim));
            assert(after.claims[superseded.claims.len() as int] == claim);
        },
    }
}

/// A confirmation that is carried out answers with an active claim of the same slot and with the
/// same value, which then is in the memory: the claim itself, or the one that it repeats.
pub proof fn confirmation_activates(
    store: MemoryStoreModel,
    claim_id: Text,
    key: Text,
    stamp: StampModel,
)
    requires
        claims_sound(store),
        stamp.ids.len() == 1,
        confirm_step(store, claim_id, key, stamp).1 matches Ok(done) && !done.replayed,
    ensures
        ({
            let (after, answer) = confirm_step(store, claim_id, key, stamp);
            let asked = claim_at(store, claim_id).unwrap();
            let claim = answer->Ok_0.data;
            &&& claim.status is Active
            &&& after.claims.contains(claim)
            &&& same_slot(slot_of(claim), slot_of(asked))
            &&& same_json(claim.value, asked.value)
        }),
{
    let (after, answer) = confirm_step(store, claim_id, key, stamp);
    let asked = claim_at(store, claim_id).unwrap();
    first_where_found(store.claims, claim_named(claim_id));
    let i = choose|i: int| 0 <= i < store.claims.len() && store.claims[i] == asked;
    let slot = slot_of(asked);
    member_is_found(store, slot, asked.value_hash);
    let active = member_of(store, slot, asked.value_hash);
    if active is Some && same_json(active.unwrap().value, asked.value) {
        let k = choose|k: int| 0 <= k < store.claims.len() && store.claims[k] == active.unwrap();
        if k < i {
            assert(store.claims[k].id != store.claims[i].id);
        } else if i < k {
            assert(store.claims[i].id != store.claims[k].id);
        }
        assert(after.claims[k] == active.unwrap());
    } else {
        assert(after.claims[i] == patched(asked, confirmation(stamp.at)));
    }
}

} // verus!
