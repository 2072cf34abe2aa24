//! Laws of provenance: every observation and claim rests on recorded, visible evidence.

use vstd::prelude::*;

use crate::claim::{
    activation, close_step, closed_status, confirm_step, confirmation, correct_step, correction,
    direct_request, direct_step, moved, normalized, reconcile_all, requested_claim, requested_slot,
    rescope_request, rescope_step, with_others_superseded, with_superseded,
};
use crate::claim_table::{
    active_other, active_single, claim_at, claim_named, claims_in, command_event, held_by,
    linked_all, member_of, restated, slot_of, source_refusal, sources_of, sources_refusal,
    with_claim, with_command, with_copied_sources, with_patch, with_slot, with_sources,
};
use crate::error::first_error_none;
use crate::event::{event_at, event_named, events_between, with_event};
use crate::graph::reached_along;
use crate::json::same_json;
use crate::kind::ClaimStatus;
use crate::law_claim::{member_is_found, ordered_contains};
use crate::law_event::{filtered_position, kept_position};
use crate::model::{
    ClaimDraftModel, ClaimModel, MemoryEventModel, ObservationDraftModel, ObservationModel,
    ObserverResultModel,
};
use crate::observation::{
    all_drafted, all_observed, committed, observation_id, with_drafted, with_observation,
    with_observations,
};
use crate::observer::{
    claim_evidence, evidence_refusal, named_evidence, observation_evidence, observation_refusal,
    provenance_refusal, result_refusal,
};
use crate::order::ordered;
use crate::privacy::{
    claim_ids, claim_kept, claim_node, claim_reached, claim_unlinked, event_id, event_kept,
    event_node, event_reached, link_kept, linked_to, observation_ids, observation_kept,
    privacy_closure, purge_edges, purge_reach, purged_store, rests_on, view_kept,
};
use crate::recall::{evidence, evidence_of};
use crate::row::{
    ClaimPatchModel, ClaimRequestModel, EdgeModel, LinkModel, MemoryStoreModel, NodeModel, RunRowModel,
    ViewRowModel,
};
use crate::stamp::StampModel;
use crate::store::empty_store;
use crate::table::{first_where, first_where_found};
use crate::text::{listed, Text};
use crate::transition::{stamped, step, Request};
use crate::view::{
    observation_at, observation_named, represented_refusal, with_view,
};

verus! {

/// Whether an event can be evidence: it is recorded, and its content is not withheld.
pub open spec fn usable(events: Seq<MemoryEventModel>, id: Text) -> bool {
    exists|i: int|
        0 <= i < events.len() && (#[trigger] events[i]).id == id && events[i].sensitivity is Normal
}

pub open spec fn has_claim(store: MemoryStoreModel, id: Text) -> bool {
    exists|i: int| 0 <= i < store.claims.len() && (#[trigger] store.claims[i]).id == id
}

pub open spec fn has_observation(store: MemoryStoreModel, id: Text) -> bool {
    exists|i: int|
        0 <= i < store.observations.len() && (#[trigger] store.observations[i]).id == id
}

pub open spec fn has_view(store: MemoryStoreModel, id: Text) -> bool {
    exists|i: int| 0 <= i < store.views.len() && (#[trigger] store.views[i]).view.id == id
}

/// Whether a record is linked to anything.
pub open spec fn backed(links: Seq<LinkModel>, holder_id: Text) -> bool {
    exists|i: int| 0 <= i < links.len() && (#[trigger] links[i]).holder_id == holder_id
}

/// Whether provenance is sound, but for the claim `except` that has no evidence yet: links lead
/// from stored records to stored ones, events that are evidence are usable, and every claim and
/// observation has evidence.
pub open spec fn sourced_but(store: MemoryStoreModel, except: Option<Text>) -> bool {
    &&& forall|i: int|
        0 <= i < store.claim_sources.len() ==> has_claim(
            store,
            (#[trigger] store.claim_sources[i]).holder_id,
        ) && usable(store.events, store.claim_sources[i].source_id)
    &&& forall|i: int|
        0 <= i < store.observation_sources.len() ==> has_observation(
            store,
            (#[trigger] store.observation_sources[i]).holder_id,
        ) && usable(store.events, store.observation_sources[i].source_id)
    &&& forall|i: int|
        0 <= i < store.view_sources.len() ==> has_view(
            store,
            (#[trigger] store.view_sources[i]).holder_id,
        ) && has_observation(store, store.view_sources[i].source_id)
    &&& forall|i: int|
        0 <= i < store.claims.len() && Some((#[trigger] store.claims[i]).id) != except ==> backed(
            store.claim_sources,
            store.claims[i].id,
        )
    &&& forall|i: int|
        0 <= i < store.observations.len() ==> backed(
            store.observation_sources,
            (#[trigger] store.observations[i]).id,
        )
}

/// Whether provenance is sound: every claim and every observation rests on recorded events whose
/// content is not withheld.
pub open spec fn sourced(store: MemoryStoreModel) -> bool {
    sourced_but(store, None)
}

/// An empty memory is sound.
pub proof fn provenance_starts_sound()
    ensures
        sourced(empty_store()),
{
}

proof fn linking(links: Seq<LinkModel>, holder_id: Text, sources: Seq<Text>)
    ensures
        ({
            let after = linked_all(links, holder_id, sources);
            &&& forall|i: int|
                0 <= i < after.len() ==> links.contains(#[trigger] after[i]) || (after[i].holder_id
                    == holder_id && listed(sources, after[i].source_id))
            &&& forall|i: int| 0 <= i < links.len() ==> after.contains(#[trigger] links[i])
            &&& forall|i: int|
                0 <= i < sources.len() ==> after.contains(
                    LinkModel { holder_id, source_id: #[trigger] sources[i] },
                )
        }),
    decreases sources.len(),
{
    if sources.len() > 0 {
        let front = sources.drop_last();
        let before = linked_all(links, holder_id, front);
        let after = linked_all(links, holder_id, sources);
        let link = LinkModel { holder_id, source_id: sources.last() };
        linking(links, holder_id, front);
        assert forall|v: LinkModel| before.contains(v) implies after.contains(v) by {
            let k = choose|k: int| 0 <= k < before.len() && before[k] == v;
            assert(after[k] == v);
        }
        assert(after.contains(link)) by {
            if !before.contains(link) {
                assert(after[before.len() as int] == link);
            }
        }
        assert forall|i: int| 0 <= i < after.len() implies links.contains(#[trigger] after[i]) || (
        after[i].holder_id == holder_id && listed(sources, after[i].source_id)) by {
            if i < before.len() {
                assert(after[i] == before[i]);
                if listed(front, before[i].source_id) {
                    let k = choose|k: int|
                        0 <= k < front.len() && #[trigger] front[k] == before[i].source_id;
                    assert(sources[k] == before[i].source_id);
                }
            } else {
                assert(sources[sources.len() - 1] == after[i].source_id);
            }
        }
        assert forall|i: int| 0 <= i < sources.len() implies after.contains(
            LinkModel { holder_id, source_id: #[trigger] sources[i] },
        ) by {
            if i < front.len() {
                assert(front[i] == sources[i]);
            }
        }
    }
}

proof fn growing_events_keeps_sourced(store: MemoryStoreModel, event: MemoryEventModel, at: Text, except: Option<Text>)
    requires
        sourced_but(store, except),
    ensures
        sourced_but(with_event(store, event, at), except),
        event.sensitivity is Normal ==> usable(with_event(store, event, at).events, event.id),
        forall|id: Text|
            usable(store.events, id) ==> #[trigger] usable(with_event(store, event, at).events, id),
{
    let after = with_event(store, event, at);
    assert(after.events[store.events.len() as int] == event);
    assert forall|id: Text| usable(store.events, id) implies #[trigger] usable(after.events, id) by {
        let k = choose|k: int|
            0 <= k < store.events.len() && (#[trigger] store.events[k]).id == id
                && store.events[k].sensitivity is Normal;
        assert(after.events[k] == store.events[k]);
    }
    assert forall|i: int| 0 <= i < after.claim_sources.len() implies has_claim(
        after,
        (#[trigger] after.claim_sources[i]).holder_id,
    ) && usable(after.events, after.claim_sources[i].source_id) by {
        assert(has_claim(store, store.claim_sources[i].holder_id));
        let k = choose|k: int|
            0 <= k < store.claims.len() && (#[trigger] store.claims[k]).id
                == store.claim_sources[i].holder_id;
        assert(after.claims[k].id == after.claim_sources[i].holder_id);
    }
    assert forall|i: int| 0 <= i < after.observation_sources.len() implies has_observation(
        after,
        (#[trigger] after.observation_sources[i]).holder_id,
    ) && usable(after.events, after.observation_sources[i].source_id) by {
        assert(has_observation(store, store.observation_sources[i].holder_id));
        let k = choose|k: int|
            0 <= k < store.observations.len() && (#[trigger] store.observations[k]).id
                == store.observation_sources[i].holder_id;
        assert(after.observations[k].id == after.observation_sources[i].holder_id);
    }
    assert forall|i: int| 0 <= i < after.view_sources.len() implies has_view(
        after,
        (#[trigger] after.view_sources[i]).holder_id,
    ) && has_observation(after, after.view_sources[i].source_id) by {
        assert(has_view(store, store.view_sources[i].holder_id));
        assert(has_observation(store, store.view_sources[i].source_id));
        let k = choose|k: int|
            0 <= k < store.views.len() && (#[trigger] store.views[k]).view.id
                == store.view_sources[i].holder_id;
        assert(after.views[k].view.id == after.view_sources[i].holder_id);
        let m = choose|m: int|
            0 <= m < store.observations.len() && (#[trigger] store.observations[m]).id
                == store.view_sources[i].source_id;
        assert(after.observations[m].id == after.view_sources[i].source_id);
    }
}

/// Provenance depends on events, observations, views and links, and on which claims there are.
proof fn same_claims_keep_sourced(
    store: MemoryStoreModel,
    after: MemoryStoreModel,
    except: Option<Text>,
)
    requires
        sourced_but(store, except),
        after.events == store.events,
        after.observations == store.observations,
        after.observation_sources == store.observation_sources,
        after.views == store.views,
        after.view_sources == store.view_sources,
        after.claim_sources == store.claim_sources,
        after.claims.len() == store.claims.len(),
        forall|i: int|
            0 <= i < store.claims.len() ==> (#[trigger] after.claims[i]).id == store.claims[i].id,
    ensures
        sourced_but(after, except),
        forall|id: Text| has_claim(store, id) ==> #[trigger] has_claim(after, id),
{
    assert forall|id: Text| has_claim(store, id) implies #[trigger] has_claim(after, id) by {
        let k = choose|k: int| 0 <= k < store.claims.len() && (#[trigger] store.claims[k]).id == id;
        assert(after.claims[k].id == id);
    }
    assert forall|id: Text| has_observation(store, id) implies #[trigger] has_observation(
        after,
        id,
    ) by {
        let k = choose|k: int|
            0 <= k < store.observations.len() && (#[trigger] store.observations[k]).id == id;
        assert(after.observations[k].id == id);
    }
    assert forall|id: Text| has_view(store, id) implies #[trigger] has_view(after, id) by {
        let k = choose|k: int|
            0 <= k < store.views.len() && (#[trigger] store.views[k]).view.id == id;
        assert(after.views[k].view.id == id);
    }
    assert forall|i: int|
        0 <= i < after.claims.len() && Some((#[trigger] after.claims[i]).id) != except implies backed(
        after.claim_sources,
        after.claims[i].id,
    ) by {
        assert(store.claims[i].id == after.claims[i].id);
        assert(backed(store.claim_sources, store.claims[i].id));
    }
}

proof fn patching_keeps_sourced(
    store: MemoryStoreModel,
    accepts: spec_fn(ClaimModel) -> bool,
    patch: ClaimPatchModel,
    except: Option<Text>,
)
    requires
        sourced_but(store, except),
    ensures
        sourced_but(with_patch(store, accepts, patch), except),
        forall|id: Text|
            has_claim(store, id) ==> #[trigger] has_claim(with_patch(store, accepts, patch), id),
{
    same_claims_keep_sourced(store, with_patch(store, accepts, patch), except);
}

proof fn slotting_keeps_sourced(
    store: MemoryStoreModel,
    slot: crate::row::SlotRowModel,
    except: Option<Text>,
)
    requires
        sourced_but(store, except),
    ensures
        sourced_but(with_slot(store, slot), except),
        forall|id: Text| has_claim(store, id) ==> #[trigger] has_claim(with_slot(store, slot), id),
{
    same_claims_keep_sourced(store, with_slot(store, slot), except);
}

proof fn adding_claim_keeps_sourced(store: MemoryStoreModel, claim: ClaimModel)
    requires
        sourced(store),
    ensures
        sourced_but(with_claim(store, claim), Some(claim.id)),
        has_claim(with_claim(store, claim), claim.id),
        forall|id: Text| has_claim(store, id) ==> #[trigger] has_claim(with_claim(store, claim), id),
{
    let after = with_claim(store, claim);
    let n = store.claims.len() as int;
    assert(after.claims[n] == claim);
    assert forall|id: Text| has_claim(store, id) implies #[trigger] has_claim(after, id) by {
        let k = choose|k: int| 0 <= k < store.claims.len() && (#[trigger] store.claims[k]).id == id;
        assert(after.claims[k] == store.claims[k]);
    }
    assert forall|id: Text| has_observation(store, id) implies #[trigger] has_observation(
        after,
        id,
    ) by {
        let k = choose|k: int|
            0 <= k < store.observations.len() && (#[trigger] store.observations[k]).id == id;
        assert(after.observations[k].id == id);
    }
    assert forall|id: Text| has_view(store, id) implies #[trigger] has_view(after, id) by {
        let k = choose|k: int|
            0 <= k < store.views.len() && (#[trigger] store.views[k]).view.id == id;
        assert(after.views[k].view.id == id);
    }
    assert forall|i: int|
        0 <= i < after.claims.len() && Some((#[trigger] after.claims[i]).id) != Some(claim.id) implies backed(
        after.claim_sources,
        after.claims[i].id,
    ) by {
        assert(after.claims[i] == store.claims[i]);
        assert(backed(store.claim_sources, store.claims[i].id));
    }
}

/// Giving a claim usable evidence keeps provenance sound, and settles a claim that had none.
proof fn sourcing_keeps_sourced(
    store: MemoryStoreModel,
    claim_id: Text,
    ids: Seq<Text>,
    except: Option<Text>,
)
    requires
        sourced_but(store, except),
        has_claim(store, claim_id),
        forall|i: int| 0 <= i < ids.len() ==> usable(store.events, #[trigger] ids[i]),
    ensures
        sourced_but(with_sources(store, claim_id, ids), except),
        ids.len() > 0 && except == Some(claim_id) ==> sourced(with_sources(store, claim_id, ids)),
        forall|id: Text|
            has_claim(store, id) ==> #[trigger] has_claim(with_sources(store, claim_id, ids), id),
        with_sources(store, claim_id, ids).events == store.events,
{
    let after = with_sources(store, claim_id, ids);
    linking(store.claim_sources, claim_id, ids);
    assert forall|id: Text| has_claim(store, id) implies #[trigger] has_claim(after, id) by {
        let k = choose|k: int| 0 <= k < store.claims.len() && (#[trigger] store.claims[k]).id == id;
        assert(after.claims[k].id == id);
    }
    assert forall|id: Text| has_observation(store, id) implies #[trigger] has_observation(
        after,
        id,
    ) by {
        let k = choose|k: int|
            0 <= k < store.observations.len() && (#[trigger] store.observations[k]).id == id;
        assert(after.observations[k].id == id);
    }
    assert forall|id: Text| has_view(store, id) implies #[trigger] has_view(after, id) by {
        let k = choose|k: int|
            0 <= k < store.views.len() && (#[trigger] store.views[k]).view.id == id;
        assert(after.views[k].view.id == id);
    }
    assert forall|i: int| 0 <= i < after.claim_sources.len() implies has_claim(
        after,
        (#[trigger] after.claim_sources[i]).holder_id,
    ) && usable(after.events, after.claim_sources[i].source_id) by {
        let link = after.claim_sources[i];
        if store.claim_sources.contains(link) {
            let k = choose|k: int|
                0 <= k < store.claim_sources.len() && store.claim_sources[k] == link;
            assert(has_claim(store, store.claim_sources[k].holder_id));
        } else {
            let k = choose|k: int| 0 <= k < ids.len() && #[trigger] ids[k] == link.source_id;
            assert(usable(store.events, ids[k]));
        }
    }
    assert forall|id: Text| backed(store.claim_sources, id) implies backed(
        after.claim_sources,
        id,
    ) by {
        let k = choose|k: int|
            0 <= k < store.claim_sources.len() && (#[trigger] store.claim_sources[k]).holder_id
                == id;
        let m = choose|m: int|
            0 <= m < after.claim_sources.len() && after.claim_sources[m] == store.claim_sources[k];
        assert(after.claim_sources[m].holder_id == id);
    }
    if ids.len() > 0 {
        let link = LinkModel { holder_id: claim_id, source_id: ids[0] };
        let m = choose|m: int| 0 <= m < after.claim_sources.len() && after.claim_sources[m] == link;
        assert(after.claim_sources[m].holder_id == claim_id);
    }
    assert forall|i: int|
        0 <= i < after.claims.len() && (Some((#[trigger] after.claims[i]).id) != except || (
        ids.len() > 0 && after.claims[i].id == claim_id)) implies backed(
        after.claim_sources,
        after.claims[i].id,
    ) by {
        if Some(after.claims[i].id) != except {
            assert(backed(store.claim_sources, store.claims[i].id));
        }
    }
}

proof fn stored_sources_are_usable(store: MemoryStoreModel, claim_id: Text, except: Option<Text>)
    requires
        sourced_but(store, except),
    ensures
        forall|i: int|
            0 <= i < sources_of(store.claim_sources, claim_id).len() ==> usable(
                store.events,
                #[trigger] sources_of(store.claim_sources, claim_id)[i],
            ),
{
    let ids = sources_of(store.claim_sources, claim_id);
    let rows = store.claim_sources.filter(held_by(claim_id));
    assert forall|i: int| 0 <= i < ids.len() implies usable(store.events, #[trigger] ids[i]) by {
        let at = filtered_position(store.claim_sources, held_by(claim_id), i);
        assert(ids[i] == store.claim_sources[at].source_id);
    }
}

proof fn copying_keeps_sourced(
    store: MemoryStoreModel,
    from: Text,
    to: Text,
    except: Option<Text>,
)
    requires
        sourced_but(store, except),
        has_claim(store, to),
    ensures
        sourced_but(with_copied_sources(store, from, to), except),
        forall|id: Text|
            has_claim(store, id) ==> #[trigger] has_claim(with_copied_sources(store, from, to), id),
        with_copied_sources(store, from, to).events == store.events,
{
    stored_sources_are_usable(store, from, except);
    sourcing_keeps_sourced(store, to, sources_of(store.claim_sources, from), except);
}

proof fn commanding_keeps_sourced(
    store: MemoryStoreModel,
    scope_id: Text,
    operation: Text,
    request: Text,
    owner: Text,
    stamp: StampModel,
)
    requires
        sourced(store),
    ensures
        ({
            let after = with_command(store, scope_id, operation, request, owner, stamp);
            &&& sourced(after)
            &&& usable(after.events, stamp.ids[0])
            &&& after.claims == store.claims
            &&& forall|id: Text|
                usable(store.events, id) ==> #[trigger] usable(after.events, id)
            &&& forall|id: Text| has_claim(store, id) ==> #[trigger] has_claim(after, id)
        }),
{
    let event = command_event(store, scope_id, operation, request, owner, stamp);
    let after = with_command(store, scope_id, operation, request, owner, stamp);
    growing_events_keeps_sourced(store, event, stamp.at, None);
    assert forall|id: Text| has_claim(store, id) implies #[trigger] has_claim(after, id) by {
        let k = choose|k: int| 0 <= k < store.claims.len() && (#[trigger] store.claims[k]).id == id;
        assert(after.claims[k].id == id);
    }
}

proof fn named_claim_is_there(store: MemoryStoreModel, id: Text)
    requires
        claim_at(store, id) is Some,
    ensures
        has_claim(store, id),
        claim_at(store, id).unwrap().id == id,
{
    first_where_found(store.claims, claim_named(id));
    let claim = claim_at(store, id).unwrap();
    let k = choose|k: int| 0 <= k < store.claims.len() && store.claims[k] == claim;
    assert(store.claims[k].id == id);
}

proof fn member_is_there(store: MemoryStoreModel, slot: crate::row::SlotRowModel, hash: Text)
    requires
        member_of(store, slot, hash) is Some,
    ensures
        has_claim(store, member_of(store, slot, hash).unwrap().id),
{
    member_is_found(store, slot, hash);
    let member = member_of(store, slot, hash).unwrap();
    let k = choose|k: int| 0 <= k < store.claims.len() && store.claims[k] == member;
    assert(store.claims[k].id == member.id);
}

proof fn found_event_is_usable(store: MemoryStoreModel, id: Text)
    requires
        event_at(store, id) matches Some(event) && event.sensitivity is Normal,
    ensures
        usable(store.events, id),
{
    first_where_found(store.events, event_named(id));
    let event = event_at(store, id).unwrap();
    let k = choose|k: int| 0 <= k < store.events.len() && store.events[k] == event;
    assert(store.events[k].id == id);
}

/// Evidence that was accepted for a claim is usable: it is recorded, and not withheld.
pub proof fn accepted_sources_are_usable(store: MemoryStoreModel, scope_id: Text, ids: Seq<Text>)
    requires
        sources_refusal(store, scope_id, ids) is None,
    ensures
        forall|i: int| 0 <= i < ids.len() ==> usable(store.events, #[trigger] ids[i]),
{
    let check = source_refusal(store, scope_id);
    first_error_none(ids, check);
    assert forall|i: int| 0 <= i < ids.len() implies usable(store.events, #[trigger] ids[i]) by {
        assert(check(ids[i]) is None);
        found_event_is_usable(store, ids[i]);
    }
}

proof fn stating_keeps_sourced(store: MemoryStoreModel, raw: ClaimRequestModel, key: Text, stamp: StampModel)
    requires
        sourced(store),
        stamp.ids.len() == 2,
    ensures
        sourced(direct_step(store, raw, key, stamp).0),
{
    let after = direct_step(store, raw, key, stamp).0;
    if after != store {
        let request = normalized(raw);
        let text = direct_request(request);
        let slot = requested_slot(request);
        let ids = request.source_event_ids;
        let active = member_of(store, slot, crate::digest::json_hash(request.value));
        accepted_sources_are_usable(store, request.scope_id, ids);
        if request.status is Active && active is Some && same_json(
            active.unwrap().value,
            request.value,
        ) {
            let existing = active.unwrap();
            member_is_there(store, slot, crate::digest::json_hash(request.value));
            commanding_keeps_sourced(
                store,
                request.scope_id,
                request.operation,
                text,
                existing.id,
                stamp,
            );
            let commanded = with_command(
                store,
                request.scope_id,
                request.operation,
                text,
                existing.id,
                stamp,
            );
            assert forall|i: int| 0 <= i < ids.len() implies usable(
                commanded.events,
                #[trigger] ids[i],
            ) by {
                assert(usable(store.events, ids[i]));
            }
            sourcing_keeps_sourced(commanded, existing.id, ids, None);
            let sourced_store = with_sources(commanded, existing.id, ids);
            sourcing_keeps_sourced(sourced_store, existing.id, seq![stamp.ids[0]], None);
            same_claims_keep_sourced(
                with_sources(sourced_store, existing.id, seq![stamp.ids[0]]),
                after,
                None,
            );
        } else {
            let status = if request.status is Active && active is Some {
                ClaimStatus::Disputed
            } else {
                request.status
            };
            let claim = requested_claim(request, status, stamp);
            commanding_keeps_sourced(
                store,
                request.scope_id,
                request.operation,
                text,
                claim.id,
                stamp,
            );
            let commanded = with_command(
                store,
                request.scope_id,
                request.operation,
                text,
                claim.id,
                stamp,
            );
            let slotted = if status is Active {
                slotting_keeps_sourced(commanded, slot, None);
                with_slot(commanded, slot)
            } else {
                commanded
            };
            adding_claim_keeps_sourced(slotted, claim);
            let added = with_claim(slotted, claim);
            assert forall|i: int| 0 <= i < ids.len() implies usable(
                added.events,
                #[trigger] ids[i],
            ) by {
                assert(usable(store.events, ids[i]));
                assert(usable(commanded.events, ids[i]));
            }
            sourcing_keeps_sourced(added, claim.id, ids, Some(claim.id));
            let evidenced = with_sources(added, claim.id, ids);
            sourcing_keeps_sourced(evidenced, claim.id, seq![stamp.ids[0]], Some(claim.id));
            same_claims_keep_sourced(
                with_sources(evidenced, claim.id, seq![stamp.ids[0]]),
                after,
                None,
            );
        }
    }
}

proof fn confirming_keeps_sourced(store: MemoryStoreModel, claim_id: Text, key: Text, stamp: StampModel)
    requires
        sourced(store),
        stamp.ids.len() == 1,
    ensures
        sourced(confirm_step(store, claim_id, key, stamp).0),
{
    let after = confirm_step(store, claim_id, key, stamp).0;
    if after != store {
        let claim = claim_at(store, claim_id).unwrap();
        let slot = slot_of(claim);
        let at = stamp.at;
        let text = crate::claim::confirm_request(claim_id);
        let active = member_of(store, slot, claim.value_hash);
        named_claim_is_there(store, claim_id);
        if active is Some && same_json(active.unwrap().value, claim.value) {
            let existing = active.unwrap();
            member_is_there(store, slot, claim.value_hash);
            commanding_keeps_sourced(
                store,
                claim.scope_id,
                "claim.confirm"@,
                text,
                existing.id,
                stamp,
            );
            let commanded = with_command(
                store,
                claim.scope_id,
                "claim.confirm"@,
                text,
                existing.id,
                stamp,
            );
            slotting_keeps_sourced(commanded, slot, None);
            let slotted = with_slot(commanded, slot);
            copying_keeps_sourced(slotted, claim.id, existing.id, None);
            let copied = with_copied_sources(slotted, claim.id, existing.id);
            sourcing_keeps_sourced(copied, existing.id, seq![stamp.ids[0]], None);
            let evidenced = with_sources(copied, existing.id, seq![stamp.ids[0]]);
            let patch = restated(ClaimStatus::Rejected, at);
            patching_keeps_sourced(evidenced, claim_named(claim.id), patch, None);
            same_claims_keep_sourced(
                with_patch(evidenced, claim_named(claim.id), patch),
                after,
                None,
            );
        } else {
            commanding_keeps_sourced(
                store,
                claim.scope_id,
                "claim.confirm"@,
                text,
                claim.id,
                stamp,
            );
            let commanded = with_command(
                store,
                claim.scope_id,
                "claim.confirm"@,
                text,
                claim.id,
                stamp,
            );
            slotting_keeps_sourced(commanded, slot, None);
            let slotted = with_slot(commanded, slot);
            let cleared = with_others_superseded(slotted, slot, Some(claim.id), at);
            patching_keeps_sourced(
                slotted,
                active_other(slot, Some(claim.id)),
                restated(ClaimStatus::Superseded, at),
                None,
            );
            patching_keeps_sourced(cleared, claim_named(claim.id), confirmation(at), None);
            let confirmed = with_patch(cleared, claim_named(claim.id), confirmation(at));
            assert(has_claim(cleared, claim.id));
            sourcing_keeps_sourced(confirmed, claim.id, seq![stamp.ids[0]], None);
            same_claims_keep_sourced(
                with_sources(confirmed, claim.id, seq![stamp.ids[0]]),
                after,
                None,
            );
        }
    }
}

proof fn correcting_keeps_sourced(
    store: MemoryStoreModel,
    claim_id: Text,
    value: Text,
    event_ids: Seq<Text>,
    key: Text,
    stamp: StampModel,
)
    requires
        sourced(store),
        stamp.ids.len() == 2,
    ensures
        sourced(correct_step(store, claim_id, value, event_ids, key, stamp).0),
{
    let after = correct_step(store, claim_id, value, event_ids, key, stamp).0;
    if after != store {
        let former = claim_at(store, claim_id).unwrap();
        let claim = correction(former, value, stamp);
        let slot = slot_of(claim);
        let patch = restated(ClaimStatus::Superseded, stamp.at);
        let text = crate::claim::correct_request(claim_id, value, event_ids);
        named_claim_is_there(store, claim_id);
        accepted_sources_are_usable(store, former.scope_id, event_ids);
        let cleared = if former.cardinality is Single {
            patching_keeps_sourced(store, active_single(slot_of(former)), patch, None);
            with_patch(store, active_single(slot_of(former)), patch)
        } else {
            store
        };
        patching_keeps_sourced(cleared, claim_named(former.id), patch, None);
        let superseded = with_superseded(store, former, stamp.at);
        slotting_keeps_sourced(superseded, slot, None);
        let slotted = with_slot(superseded, slot);
        match member_of(superseded, slot, claim.value_hash) {
            Some(existing) => {
                member_is_there(superseded, slot, claim.value_hash);
                commanding_keeps_sourced(
                    slotted,
                    former.scope_id,
                    "claim.correct"@,
                    text,
                    existing.id,
                    stamp,
                );
                let commanded = with_command(
                    slotted,
                    former.scope_id,
                    "claim.correct"@,
                    text,
                    existing.id,
                    stamp,
                );
                assert(has_claim(slotted, existing.id));
                copying_keeps_sourced(commanded, former.id, existing.id, None);
                let copied = with_copied_sources(commanded, former.id, existing.id);
                assert forall|i: int| 0 <= i < event_ids.len() implies usable(
                    copied.events,
                    #[trigger] event_ids[i],
                ) by {
                    assert(usable(slotted.events, event_ids[i]));
                    assert(usable(commanded.events, event_ids[i]));
                }
                sourcing_keeps_sourced(copied, existing.id, event_ids, None);
                let sourced_store = with_sources(copied, existing.id, event_ids);
                sourcing_keeps_sourced(sourced_store, existing.id, seq![stamp.ids[0]], None);
                same_claims_keep_sourced(
                    with_sources(sourced_store, existing.id, seq![stamp.ids[0]]),
                    after,
                    None,
                );
            },
            None => {
                commanding_keeps_sourced(
                    slotted,
                    former.scope_id,
                    "claim.correct"@,
                    text,
                    claim.id,
                    stamp,
                );
                let commanded = with_command(
                    slotted,
                    former.scope_id,
                    "claim.correct"@,
                    text,
                    claim.id,
                    stamp,
                );
                adding_claim_keeps_sourced(commanded, claim);
                let added = with_claim(commanded, claim);
                assert forall|i: int| 0 <= i < event_ids.len() implies usable(
                    added.events,
                    #[trigger] event_ids[i],
                ) by {
                    assert(usable(slotted.events, event_ids[i]));
                    assert(usable(commanded.events, event_ids[i]));
                }
                sourcing_keeps_sourced(added, claim.id, event_ids, Some(claim.id));
                let evidenced = with_sources(added, claim.id, event_ids);
                sourcing_keeps_sourced(evidenced, claim.id, seq![stamp.ids[0]], Some(claim.id));
                same_claims_keep_sourced(
                    with_sources(evidenced, claim.id, seq![stamp.ids[0]]),
                    after,
                    None,
                );
            },
        }
    }
}

proof fn rescoping_keeps_sourced(
    store: MemoryStoreModel,
    claim_id: Text,
    new_scope_id: Text,
    key: Text,
    stamp: StampModel,
)
    requires
        sourced(store),
        stamp.ids.len() == 2,
    ensures
        sourced(rescope_step(store, claim_id, new_scope_id, key, stamp).0),
{
    let after = rescope_step(store, claim_id, new_scope_id, key, stamp).0;
    if after != store {
        let former = claim_at(store, claim_id).unwrap();
        let claim = moved(former, new_scope_id, stamp);
        let slot = slot_of(claim);
        let at = stamp.at;
        let patch = restated(ClaimStatus::Superseded, at);
        let text = rescope_request(claim_id, new_scope_id);
        named_claim_is_there(store, claim_id);
        patching_keeps_sourced(store, claim_named(former.id), patch, None);
        let superseded = with_patch(store, claim_named(former.id), patch);
        let active = claim.status is Active;
        let existing = member_of(superseded, slot, claim.value_hash);
        slotting_keeps_sourced(superseded, slot, None);
        let slotted = with_slot(superseded, slot);
        if active && existing is Some {
            let member = existing.unwrap();
            member_is_there(superseded, slot, claim.value_hash);
            assert(has_claim(slotted, member.id));
            commanding_keeps_sourced(
                slotted,
                new_scope_id,
                "claim.rescope"@,
                text,
                member.id,
                stamp,
            );
            let commanded = with_command(
                slotted,
                new_scope_id,
                "claim.rescope"@,
                text,
                member.id,
                stamp,
            );
            copying_keeps_sourced(commanded, claim_id, member.id, None);
            let copied = with_copied_sources(commanded, claim_id, member.id);
            sourcing_keeps_sourced(copied, member.id, seq![stamp.ids[0]], None);
            same_claims_keep_sourced(
                with_sources(copied, member.id, seq![stamp.ids[0]]),
                after,
                None,
            );
        } else {
            let cleared = if active {
                patching_keeps_sourced(
                    slotted,
                    active_other(slot, None),
                    restated(ClaimStatus::Superseded, at),
                    None,
                );
                with_others_superseded(slotted, slot, None, at)
            } else {
                superseded
            };
            commanding_keeps_sourced(
                cleared,
                new_scope_id,
                "claim.rescope"@,
                text,
                claim.id,
                stamp,
            );
            let commanded = with_command(
                cleared,
                new_scope_id,
                "claim.rescope"@,
                text,
                claim.id,
                stamp,
            );
            adding_claim_keeps_sourced(commanded, claim);
            let added = with_claim(commanded, claim);
            copying_keeps_sourced(added, claim_id, claim.id, Some(claim.id));
            let copied = with_copied_sources(added, claim_id, claim.id);
            sourcing_keeps_sourced(copied, claim.id, seq![stamp.ids[0]], Some(claim.id));
            same_claims_keep_sourced(
                with_sources(copied, claim.id, seq![stamp.ids[0]]),
                after,
                None,
            );
        }
    }
}

proof fn closing_keeps_sourced(
    store: MemoryStoreModel,
    claim_id: Text,
    forget: bool,
    key: Text,
    stamp: StampModel,
)
    requires
        sourced(store),
        stamp.ids.len() == 1,
    ensures
        sourced(close_step(store, claim_id, forget, key, stamp).0),
{
    let after = close_step(store, claim_id, forget, key, stamp).0;
    if after != store {
        let claim = claim_at(store, claim_id).unwrap();
        let patch = restated(closed_status(forget), stamp.at);
        let operation = crate::claim::close_operation(forget);
        let text = crate::claim::close_request(claim_id, closed_status(forget));
        named_claim_is_there(store, claim_id);
        commanding_keeps_sourced(store, claim.scope_id, operation, text, claim.id, stamp);
        let commanded = with_command(store, claim.scope_id, operation, text, claim.id, stamp);
        patching_keeps_sourced(commanded, claim_named(claim.id), patch, None);
        let closed = with_patch(commanded, claim_named(claim.id), patch);
        assert(has_claim(commanded, claim.id));
        sourcing_keeps_sourced(closed, claim.id, seq![stamp.ids[0]], None);
        same_claims_keep_sourced(
            with_sources(closed, claim.id, seq![stamp.ids[0]]),
            after,
            None,
        );
    }
}

proof fn reconciling_keeps_sourced(store: MemoryStoreModel, pending: Seq<ClaimModel>, at: Text)
    requires
        sourced(store),
    ensures
        reconcile_all(store, pending, at) matches Ok((done, _)) ==> sourced(done),
    decreases pending.len(),
{
    if pending.len() > 0 {
        reconciling_keeps_sourced(store, pending.drop_last(), at);
        if let Ok((done, summary)) = reconcile_all(store, pending.drop_last(), at) {
            let claim = pending.last();
            let slot = slot_of(claim);
            slotting_keeps_sourced(done, slot, None);
            patching_keeps_sourced(
                with_slot(done, slot),
                claim_named(claim.id),
                activation(at),
                None,
            );
            patching_keeps_sourced(
                done,
                claim_named(claim.id),
                restated(ClaimStatus::Disputed, at),
                None,
            );
            if let Some(existing) = member_of(done, slot, claim.value_hash) {
                member_is_there(done, slot, claim.value_hash);
                copying_keeps_sourced(done, claim.id, existing.id, None);
                patching_keeps_sourced(
                    with_copied_sources(done, claim.id, existing.id),
                    claim_named(claim.id),
                    restated(ClaimStatus::Rejected, at),
                    None,
                );
            }
        }
    }
}

proof fn drafted_evidence_is_named(drafts: Seq<ClaimDraftModel>, i: int, k: int)
    requires
        0 <= i < drafts.len(),
        0 <= k < drafts[i].source_event_ids.len(),
    ensures
        claim_evidence(drafts).contains(drafts[i].source_event_ids[k]),
    decreases drafts.len(),
{
    let front = drafts.drop_last();
    let before = claim_evidence(front);
    let all = claim_evidence(drafts);
    let id = drafts[i].source_event_ids[k];
    if i < front.len() {
        assert(front[i] == drafts[i]);
        drafted_evidence_is_named(front, i, k);
        let m = choose|m: int| 0 <= m < before.len() && before[m] == id;
        assert(all[m] == id);
    } else {
        assert(all[before.len() + k] == id);
    }
}

proof fn observed_evidence_is_named(drafts: Seq<ObservationDraftModel>, i: int, k: int)
    requires
        0 <= i < drafts.len(),
        0 <= k < drafts[i].source_event_ids.len(),
    ensures
        observation_evidence(drafts).contains(drafts[i].source_event_ids[k]),
    decreases drafts.len(),
{
    let front = drafts.drop_last();
    let before = observation_evidence(front);
    let all = observation_evidence(drafts);
    let id = drafts[i].source_event_ids[k];
    if i < front.len() {
        assert(front[i] == drafts[i]);
        observed_evidence_is_named(front, i, k);
        let m = choose|m: int| 0 <= m < before.len() && before[m] == id;
        assert(all[m] == id);
    } else {
        assert(all[before.len() + k] == id);
    }
}

/// Evidence that a run accepts is usable: it lies in the run, and is not withheld.
pub proof fn named_evidence_is_usable(
    store: MemoryStoreModel,
    run: RunRowModel,
    result: ObserverResultModel,
    id: Text,
)
    requires
        ({
            let sources = events_between(
                store,
                run.stream_id,
                run.from_sequence as int,
                run.to_sequence as int,
            );
            provenance_refusal(result, sources) is None
        }),
        named_evidence(result).contains(id),
    ensures
        usable(store.events, id),
        exists|i: int|
            0 <= i < store.events.len() && (#[trigger] store.events[i]).id == id
                && store.events[i].stream_id == run.stream_id && run.from_sequence
                <= store.events[i].sequence <= run.to_sequence,
{
    let accepts = crate::event::event_between(
        run.stream_id,
        run.from_sequence as int,
        run.to_sequence as int,
    );
    let rows = store.events.filter(accepts);
    let sources = ordered(rows, crate::event::event_order());
    let check = evidence_refusal(sources);
    let ids = named_evidence(result);
    first_error_none(ids, check);
    let n = choose|n: int| 0 <= n < ids.len() && ids[n] == id;
    assert(check(ids[n]) is None);
    first_where_found(sources, event_named(id));
    let event = first_where(sources, event_named(id)).unwrap();
    ordered_contains(rows, crate::event::event_order(), event);
    let k = choose|k: int| 0 <= k < rows.len() && rows[k] == event;
    let at = filtered_position(store.events, accepts, k);
    assert(store.events[at].id == id && store.events[at].sensitivity is Normal);
}

proof fn adding_observation_keeps_sourced(
    store: MemoryStoreModel,
    observation: ObservationModel,
    ids: Seq<Text>,
)
    requires
        sourced(store),
        ids.len() > 0,
        forall|i: int| 0 <= i < ids.len() ==> usable(store.events, #[trigger] ids[i]),
    ensures
        sourced(with_observation(store, observation, ids)),
        forall|id: Text|
            has_observation(store, id) ==> #[trigger] has_observation(
                with_observation(store, observation, ids),
                id,
            ),
        has_observation(with_observation(store, observation, ids), observation.id),
{
    let after = with_observation(store, observation, ids);
    linking(store.observation_sources, observation.id, ids);
    let n = store.observations.len() as int;
    assert(after.observations[n] == observation);
    assert forall|id: Text| has_claim(store, id) implies #[trigger] has_claim(after, id) by {
        let k = choose|k: int| 0 <= k < store.claims.len() && (#[trigger] store.claims[k]).id == id;
        assert(after.claims[k].id == id);
    }
    assert forall|id: Text| has_observation(store, id) implies #[trigger] has_observation(
        after,
        id,
    ) by {
        let k = choose|k: int|
            0 <= k < store.observations.len() && (#[trigger] store.observations[k]).id == id;
        assert(after.observations[k] == store.observations[k]);
    }
    assert forall|id: Text| has_view(store, id) implies #[trigger] has_view(after, id) by {
        let k = choose|k: int|
            0 <= k < store.views.len() && (#[trigger] store.views[k]).view.id == id;
        assert(after.views[k].view.id == id);
    }
    assert forall|i: int| 0 <= i < after.observation_sources.len() implies has_observation(
        after,
        (#[trigger] after.observation_sources[i]).holder_id,
    ) && usable(after.events, after.observation_sources[i].source_id) by {
        let link = after.observation_sources[i];
        if store.observation_sources.contains(link) {
            let k = choose|k: int|
                0 <= k < store.observation_sources.len() && store.observation_sources[k] == link;
            assert(has_observation(store, store.observation_sources[k].holder_id));
        } else {
            let k = choose|k: int| 0 <= k < ids.len() && #[trigger] ids[k] == link.source_id;
            assert(usable(store.events, ids[k]));
        }
    }
    assert forall|i: int| 0 <= i < after.observations.len() implies backed(
        after.observation_sources,
        (#[trigger] after.observations[i]).id,
    ) by {
        if i < n {
            assert(after.observations[i] == store.observations[i]);
            assert(backed(store.observation_sources, store.observations[i].id));
            let k = choose|k: int|
                0 <= k < store.observation_sources.len() && (
                #[trigger] store.observation_sources[k]).holder_id == store.observations[i].id;
            let m = choose|m: int|
                0 <= m < after.observation_sources.len() && after.observation_sources[m]
                    == store.observation_sources[k];
            assert(after.observation_sources[m].holder_id == store.observations[i].id);
        } else {
            let link = LinkModel { holder_id: observation.id, source_id: ids[0] };
            let m = choose|m: int|
                0 <= m < after.observation_sources.len() && after.observation_sources[m] == link;
            assert(after.observation_sources[m].holder_id == observation.id);
        }
    }
}

proof fn observing_keeps_sourced(
    store: MemoryStoreModel,
    made: Seq<ObservationModel>,
    drafts: Seq<ObservationDraftModel>,
)
    requires
        sourced(store),
        made.len() == drafts.len(),
        forall|i: int| 0 <= i < drafts.len() ==> (#[trigger] drafts[i]).source_event_ids.len() > 0,
        forall|i: int, k: int|
            0 <= i < drafts.len() && 0 <= k < drafts[i].source_event_ids.len() ==> usable(
                store.events,
                #[trigger] drafts[i].source_event_ids[k],
            ),
    ensures
        sourced(with_observations(store, made, drafts)),
        with_observations(store, made, drafts).events == store.events,
        with_observations(store, made, drafts).observations == store.observations + made,
    decreases made.len(),
{
    if made.len() > 0 {
        let front = drafts.drop_last();
        assert forall|i: int| 0 <= i < front.len() implies (
        #[trigger] front[i]).source_event_ids.len() > 0 by {
            assert(front[i] == drafts[i]);
        }
        assert forall|i: int, k: int|
            0 <= i < front.len() && 0 <= k < front[i].source_event_ids.len() implies usable(
            store.events,
            #[trigger] front[i].source_event_ids[k],
        ) by {
            assert(front[i] == drafts[i]);
            assert(usable(store.events, drafts[i].source_event_ids[k]));
        }
        observing_keeps_sourced(store, made.drop_last(), front);
        let before = with_observations(store, made.drop_last(), front);
        let ids = drafts.last().source_event_ids;
        let last = drafts.len() - 1;
        assert(drafts[last].source_event_ids.len() > 0);
        assert forall|i: int| 0 <= i < ids.len() implies usable(before.events, #[trigger] ids[i]) by {
            assert(usable(store.events, drafts[last].source_event_ids[i]));
        }
        adding_observation_keeps_sourced(before, made.last(), ids);
        assert(store.observations + made =~= (store.observations + made.drop_last()).push(
            made.last(),
        ));
    } else {
        assert(store.observations + made =~= store.observations);
    }
}

proof fn drafting_keeps_sourced(
    store: MemoryStoreModel,
    made: Seq<ClaimModel>,
    drafts: Seq<ClaimDraftModel>,
)
    requires
        sourced(store),
        made.len() == drafts.len(),
        forall|i: int| 0 <= i < drafts.len() ==> (#[trigger] drafts[i]).source_event_ids.len() > 0,
        forall|i: int, k: int|
            0 <= i < drafts.len() && 0 <= k < drafts[i].source_event_ids.len() ==> usable(
                store.events,
                #[trigger] drafts[i].source_event_ids[k],
            ),
    ensures
        sourced(with_drafted(store, made, drafts)),
        with_drafted(store, made, drafts).events == store.events,
        with_drafted(store, made, drafts).observations == store.observations,
    decreases made.len(),
{
    if made.len() > 0 {
        let front = drafts.drop_last();
        assert forall|i: int| 0 <= i < front.len() implies (
        #[trigger] front[i]).source_event_ids.len() > 0 by {
            assert(front[i] == drafts[i]);
        }
        assert forall|i: int, k: int|
            0 <= i < front.len() && 0 <= k < front[i].source_event_ids.len() implies usable(
            store.events,
            #[trigger] front[i].source_event_ids[k],
        ) by {
            assert(front[i] == drafts[i]);
            assert(usable(store.events, drafts[i].source_event_ids[k]));
        }
        drafting_keeps_sourced(store, made.drop_last(), front);
        let before = with_drafted(store, made.drop_last(), front);
        let ids = drafts.last().source_event_ids;
        let last = drafts.len() - 1;
        assert(drafts[last].source_event_ids.len() > 0);
        adding_claim_keeps_sourced(before, made.last());
        let added = with_claim(before, made.last());
        assert forall|i: int| 0 <= i < ids.len() implies usable(added.events, #[trigger] ids[i]) by {
            assert(usable(store.events, drafts[last].source_event_ids[i]));
        }
        sourcing_keeps_sourced(added, made.last().id, ids, Some(made.last().id));
    }
}

proof fn viewing_keeps_sourced(store: MemoryStoreModel, row: ViewRowModel, ids: Seq<Text>)
    requires
        sourced(store),
        forall|i: int| 0 <= i < ids.len() ==> has_observation(store, #[trigger] ids[i]),
    ensures
        sourced(with_view(store, row, ids)),
{
    let after = with_view(store, row, ids);
    linking(store.view_sources, row.view.id, ids);
    let n = store.views.len() as int;
    assert(after.views[n] == row);
    assert forall|id: Text| has_claim(store, id) implies #[trigger] has_claim(after, id) by {
        let k = choose|k: int| 0 <= k < store.claims.len() && (#[trigger] store.claims[k]).id == id;
        assert(after.claims[k].id == id);
    }
    assert forall|id: Text| has_observation(store, id) implies #[trigger] has_observation(
        after,
        id,
    ) by {
        let k = choose|k: int|
            0 <= k < store.observations.len() && (#[trigger] store.observations[k]).id == id;
        assert(after.observations[k].id == id);
    }
    assert forall|id: Text| has_view(store, id) implies #[trigger] has_view(after, id) by {
        let k = choose|k: int|
            0 <= k < store.views.len() && (#[trigger] store.views[k]).view.id == id;
        assert(after.views[k] == store.views[k]);
    }
    assert forall|i: int| 0 <= i < after.view_sources.len() implies has_view(
        after,
        (#[trigger] after.view_sources[i]).holder_id,
    ) && has_observation(after, after.view_sources[i].source_id) by {
        let link = after.view_sources[i];
        if store.view_sources.contains(link) {
            let k = choose|k: int|
                0 <= k < store.view_sources.len() && store.view_sources[k] == link;
            assert(has_view(store, store.view_sources[k].holder_id));
        } else {
            let k = choose|k: int| 0 <= k < ids.len() && #[trigger] ids[k] == link.source_id;
            assert(has_observation(store, ids[k]));
        }
    }
}

/// Provenance does not depend on streams, runs, slots, the index or operations.
proof fn other_tables_do_not_matter(store: MemoryStoreModel, after: MemoryStoreModel)
    requires
        sourced(store),
        after.events == store.events,
        after.observations == store.observations,
        after.observation_sources == store.observation_sources,
        after.views == store.views,
        after.view_sources == store.view_sources,
        after.claim_sources == store.claim_sources,
        after.claims == store.claims,
    ensures
        sourced(after),
{
    same_claims_keep_sourced(store, after, None);
}

proof fn drafts_name_evidence(result: ObserverResultModel)
    requires
        result_refusal(result) is None,
    ensures
        forall|i: int|
            0 <= i < result.observations.len() ==> (
            #[trigger] result.observations[i]).source_event_ids.len() > 0,
        forall|i: int|
            0 <= i < result.claims.len() ==> (
            #[trigger] result.claims[i]).source_event_ids.len() > 0,
{
    checked_observations(result.observations, 0);
    checked_claims(result.claims, 0);
}

proof fn checked_observations(drafts: Seq<ObservationDraftModel>, from: int)
    requires
        0 <= from <= drafts.len(),
        crate::error::first_error_from(drafts, observation_refusal(), from) is None,
    ensures
        forall|i: int|
            from <= i < drafts.len() ==> (#[trigger] drafts[i]).source_event_ids.len() > 0,
    decreases drafts.len() - from,
{
    if from < drafts.len() {
        checked_observations(drafts, from + 1);
    }
}

proof fn checked_claims(drafts: Seq<ClaimDraftModel>, from: int)
    requires
        0 <= from <= drafts.len(),
        crate::error::first_error_from(drafts, crate::observer::claim_refusal(), from) is None,
    ensures
        forall|i: int|
            from <= i < drafts.len() ==> (#[trigger] drafts[i]).source_event_ids.len() > 0,
    decreases drafts.len() - from,
{
    if from < drafts.len() {
        checked_claims(drafts, from + 1);
    }
}

proof fn committing_keeps_sourced(
    store: MemoryStoreModel,
    run: RunRowModel,
    result: ObserverResultModel,
    stamp: StampModel,
)
    requires
        sourced(store),
        result_refusal(result) is None,
        crate::observation::commit_refusal(store, run, result, stamp.ids) is None,
    ensures
        sourced(committed(store, run, result, stamp).0),
{
    let sources = events_between(
        store,
        run.stream_id,
        run.from_sequence as int,
        run.to_sequence as int,
    );
    let made = all_observed(run, sources, result.observations, stamp.ids, stamp.at);
    let observed = with_observations(store, made, result.observations);
    let claims = all_drafted(
        run,
        result.claims,
        stamp.ids.skip(result.observations.len() as int),
        stamp.at,
    );
    let named = named_evidence(result);
    drafts_name_evidence(result);
    let first = observation_evidence(result.observations);
    let second = claim_evidence(result.claims);
    assert forall|i: int, k: int|
        0 <= i < result.observations.len() && 0 <= k
            < result.observations[i].source_event_ids.len() implies usable(
        store.events,
        #[trigger] result.observations[i].source_event_ids[k],
    ) by {
        let id = result.observations[i].source_event_ids[k];
        observed_evidence_is_named(result.observations, i, k);
        let m = choose|m: int| 0 <= m < first.len() && first[m] == id;
        assert(named[m] == id);
        named_evidence_is_usable(store, run, result, id);
    }
    observing_keeps_sourced(store, made, result.observations);
    assert forall|i: int, k: int|
        0 <= i < result.claims.len() && 0 <= k < result.claims[i].source_event_ids.len() implies usable(
        observed.events,
        #[trigger] result.claims[i].source_event_ids[k],
    ) by {
        let id = result.claims[i].source_event_ids[k];
        drafted_evidence_is_named(result.claims, i, k);
        let m = choose|m: int| 0 <= m < second.len() && second[m] == id;
        assert(named[first.len() + m] == id);
        named_evidence_is_usable(store, run, result, id);
    }
    drafting_keeps_sourced(observed, claims, result.claims);
    let derived = with_drafted(observed, claims, result.claims);
    let after = committed(store, run, result, stamp).0;
    if crate::observation::keeps_continuation(store, run, result) {
        other_tables_do_not_matter(derived, after);
    } else {
        let row = crate::view::next_view(
            derived,
            crate::observation::continuation_content(run, result),
            stamp.ids.last(),
            stamp.at,
        );
        let ids = made.map_values(observation_id());
        assert forall|i: int| 0 <= i < ids.len() implies has_observation(
            derived,
            #[trigger] ids[i],
        ) by {
            let k = store.observations.len() + i;
            assert(derived.observations[k] == made[i]);
        }
        viewing_keeps_sourced(derived, row, ids);
        other_tables_do_not_matter(with_view(derived, row, ids), after);
    }
}

proof fn purge_edge_exists(store: MemoryStoreModel, links: Seq<LinkModel>, i: int)
    requires
        0 <= i < links.len(),
        event_at(store, links[i].source_id) is Some,
    ensures
        purge_edges(store, links).contains(
            EdgeModel {
                from: event_node(links[i].source_id),
                to: claim_node(links[i].holder_id),
            },
        ),
    decreases links.len(),
{
    let front = links.drop_last();
    let before = purge_edges(store, front);
    let all = purge_edges(store, links);
    let edge = EdgeModel {
        from: event_node(links[i].source_id),
        to: claim_node(links[i].holder_id),
    };
    if i < front.len() {
        assert(front[i] == links[i]);
        purge_edge_exists(store, front, i);
        let k = choose|k: int| 0 <= k < before.len() && before[k] == edge;
        assert(all[k] == edge);
    } else {
        assert(all[before.len() as int] == edge);
    }
}

/// A purge that removes an event removes every claim that rests on it.
pub proof fn purge_takes_claims_along(
    store: MemoryStoreModel,
    roots: Seq<NodeModel>,
    i: int,
)
    requires
        0 <= i < store.claim_sources.len(),
        event_at(store, store.claim_sources[i].source_id) is Some,
        purge_reach(store, roots).contains(event_node(store.claim_sources[i].source_id)),
    ensures
        purge_reach(store, roots).contains(claim_node(store.claim_sources[i].holder_id)),
{
    let links = store.claim_sources;
    let edges = purge_edges(store, links);
    purge_edge_exists(store, links, i);
    let edge = EdgeModel {
        from: event_node(links[i].source_id),
        to: claim_node(links[i].holder_id),
    };
    let k = choose|k: int| 0 <= k < edges.len() && edges[k] == edge;
    reached_along(edges, roots, k);
}

/// Whether the identifiers of some selected rows hold an identifier.
pub proof fn selected_ids<V>(
    rows: Seq<V>,
    accepts: spec_fn(V) -> bool,
    name: spec_fn(V) -> Text,
    id: Text,
)
    ensures
        listed(rows.filter(accepts).map_values(name), id) <==> exists|i: int|
            0 <= i < rows.len() && name(#[trigger] rows[i]) == id && accepts(rows[i]),
{
    let kept = rows.filter(accepts);
    let ids = kept.map_values(name);
    if listed(ids, id) {
        let k = choose|k: int| 0 <= k < ids.len() && #[trigger] ids[k] == id;
        let at = filtered_position(rows, accepts, k);
        assert(name(rows[at]) == id);
    }
    if exists|i: int| 0 <= i < rows.len() && name(#[trigger] rows[i]) == id && accepts(rows[i]) {
        let i = choose|i: int|
            0 <= i < rows.len() && name(#[trigger] rows[i]) == id && accepts(rows[i]);
        let k = kept_position(rows, accepts, i);
        assert(ids[k] == id);
    }
}

/// A purge removes an event exactly where the spread of the purge reaches it.
pub proof fn removed_events(store: MemoryStoreModel, roots: Seq<NodeModel>, id: Text)
    ensures
        listed(
            privacy_closure(store, roots).events.map_values(event_id()),
            id,
        ) <==> purge_reach(store, roots).contains(event_node(id)) && exists|i: int|
            0 <= i < store.events.len() && (#[trigger] store.events[i]).id == id,
{
    selected_ids(store.events, event_reached(purge_reach(store, roots)), event_id(), id);
    if purge_reach(store, roots).contains(event_node(id)) && exists|i: int|
        0 <= i < store.events.len() && (#[trigger] store.events[i]).id == id {
        let i = choose|i: int|
            0 <= i < store.events.len() && (#[trigger] store.events[i]).id == id;
        assert((event_id())(store.events[i]) == id);
        assert((event_reached(purge_reach(store, roots)))(store.events[i]));
    }
}

/// A purge removes a claim exactly where the spread of the purge reaches it.
pub proof fn removed_claims(store: MemoryStoreModel, roots: Seq<NodeModel>, id: Text)
    ensures
        listed(privacy_closure(store, roots).claim_ids, id) <==> purge_reach(
            store,
            roots,
        ).contains(claim_node(id)) && has_claim(store, id),
{
    selected_ids(store.claims, claim_reached(purge_reach(store, roots)), claim_ids(), id);
    if purge_reach(store, roots).contains(claim_node(id)) && has_claim(store, id) {
        let i = choose|i: int| 0 <= i < store.claims.len() && (#[trigger] store.claims[i]).id == id;
        assert((claim_ids())(store.claims[i]) == id);
        assert((claim_reached(purge_reach(store, roots)))(store.claims[i]));
    }
}

/// A purge keeps provenance sound: what rested on removed evidence is removed with it, and what
/// stays keeps all its evidence.
pub proof fn purging_keeps_sourced(store: MemoryStoreModel, roots: Seq<NodeModel>, at: Text)
    requires
        sourced(store),
    ensures
        sourced(purged_store(store, privacy_closure(store, roots), at)),
{
    let closure = privacy_closure(store, roots);
    let after = purged_store(store, closure, at);
    let gone = closure.events.map_values(event_id());
    let reach = purge_reach(store, roots);
    assert forall|id: Text| usable(store.events, id) && !listed(gone, id) implies usable(
        after.events,
        id,
    ) by {
        let k = choose|k: int|
            0 <= k < store.events.len() && (#[trigger] store.events[k]).id == id
                && store.events[k].sensitivity is Normal;
        assert((event_kept(gone))(store.events[k]));
        let m = kept_position(store.events, event_kept(gone), k);
        assert(after.events[m] == store.events[k]);
    }
    assert forall|id: Text| has_claim(store, id) && !listed(closure.claim_ids, id) implies has_claim(
        after,
        id,
    ) by {
        let k = choose|k: int| 0 <= k < store.claims.len() && (#[trigger] store.claims[k]).id == id;
        let keep = claim_kept(closure.claim_ids);
        assert(keep(store.claims[k]));
        let m = kept_position(store.claims, keep, k);
        assert(after.claims[m] == (claim_unlinked(closure.claim_ids))(store.claims.filter(keep)[m]));
        assert(after.claims[m].id == id);
    }
    assert forall|id: Text|
        has_observation(store, id) && !listed(closure.observation_ids, id) implies has_observation(
        after,
        id,
    ) by {
        let k = choose|k: int|
            0 <= k < store.observations.len() && (#[trigger] store.observations[k]).id == id;
        let keep = observation_kept(closure.observation_ids);
        assert(keep(store.observations[k]));
        let m = kept_position(store.observations, keep, k);
        assert(after.observations[m].id == id);
    }
    assert forall|id: Text| has_view(store, id) && !listed(closure.view_ids, id) implies has_view(
        after,
        id,
    ) by {
        let k = choose|k: int|
            0 <= k < store.views.len() && (#[trigger] store.views[k]).view.id == id;
        let keep = view_kept(closure.view_ids);
        assert(keep(store.views[k]));
        let m = kept_position(store.views, keep, k);
        assert(after.views[m].view.id == id);
    }
    let claim_links = link_kept(closure.claim_ids, gone);
    let observation_links = link_kept(closure.observation_ids, gone);
    let view_links = link_kept(closure.view_ids, closure.observation_ids);
    assert forall|i: int| 0 <= i < after.claim_sources.len() implies has_claim(
        after,
        (#[trigger] after.claim_sources[i]).holder_id,
    ) && usable(after.events, after.claim_sources[i].source_id) by {
        let k = filtered_position(store.claim_sources, claim_links, i);
        assert(has_claim(store, store.claim_sources[k].holder_id));
        assert(usable(store.events, store.claim_sources[k].source_id));
    }
    assert forall|i: int| 0 <= i < after.observation_sources.len() implies has_observation(
        after,
        (#[trigger] after.observation_sources[i]).holder_id,
    ) && usable(after.events, after.observation_sources[i].source_id) by {
        let k = filtered_position(store.observation_sources, observation_links, i);
        assert(has_observation(store, store.observation_sources[k].holder_id));
        assert(usable(store.events, store.observation_sources[k].source_id));
    }
    assert forall|i: int| 0 <= i < after.view_sources.len() implies has_view(
        after,
        (#[trigger] after.view_sources[i]).holder_id,
    ) && has_observation(after, after.view_sources[i].source_id) by {
        let k = filtered_position(store.view_sources, view_links, i);
        assert(has_view(store, store.view_sources[k].holder_id));
        assert(has_observation(store, store.view_sources[k].source_id));
    }
    assert forall|i: int| 0 <= i < after.claims.len() implies backed(
        after.claim_sources,
        (#[trigger] after.claims[i]).id,
    ) by {
        let keep = claim_kept(closure.claim_ids);
        let k = filtered_position(store.claims, keep, i);
        let id = store.claims[k].id;
        assert(after.claims[i] == (claim_unlinked(closure.claim_ids))(store.claims.filter(keep)[i]));
        assert(backed(store.claim_sources, id));
        let n = choose|n: int|
            0 <= n < store.claim_sources.len() && (#[trigger] store.claim_sources[n]).holder_id
                == id;
        let source = store.claim_sources[n].source_id;
        assert(usable(store.events, source));
        let e = choose|e: int|
            0 <= e < store.events.len() && (#[trigger] store.events[e]).id == source
                && store.events[e].sensitivity is Normal;
        first_where_found(store.events, event_named(source));
        assert((event_named(source))(store.events[e]));
        if listed(gone, source) {
            removed_events(store, roots, source);
            purge_takes_claims_along(store, roots, n);
            removed_claims(store, roots, id);
            assert(store.claims[k].id == id);
            assert(false);
        }
        assert(claim_links(store.claim_sources[n]));
        let m = kept_position(store.claim_sources, claim_links, n);
        assert(after.claim_sources[m].holder_id == id);
    }
    assert forall|i: int| 0 <= i < after.observations.len() implies backed(
        after.observation_sources,
        (#[trigger] after.observations[i]).id,
    ) by {
        let keep = observation_kept(closure.observation_ids);
        let k = filtered_position(store.observations, keep, i);
        let id = store.observations[k].id;
        assert(backed(store.observation_sources, id));
        let n = choose|n: int|
            0 <= n < store.observation_sources.len() && (
            #[trigger] store.observation_sources[n]).holder_id == id;
        let source = store.observation_sources[n].source_id;
        if listed(gone, source) {
            let rests = rests_on(store.observation_sources, gone);
            assert(linked_to(store.observation_sources, id, gone));
            selected_ids(store.observations, rests, observation_ids(), id);
            assert((observation_ids())(store.observations[k]) == id);
            assert(rests(store.observations[k]));
            assert(false);
        }
        assert(observation_links(store.observation_sources[n]));
        let m = kept_position(store.observation_sources, observation_links, n);
        assert(after.observation_sources[m].holder_id == id);
    }
}

/// What the law `provenance_stays_sound` says of a request.
spec fn sourced_after_holds(store: MemoryStoreModel, request: Request, stamp: StampModel) -> bool {
    &&& sourced(step(store, request, stamp).0)
}

proof fn sourced_after_create_scope(store: MemoryStoreModel, request: Request, stamp: StampModel)
    requires
        request is CreateScope,
        stamped(request, stamp),
        sourced(store),
    ensures
        sourced_after_holds(store, request, stamp),
{
    reveal(crate::transition::on_create_scope);
    other_tables_do_not_matter(store, step(store, request, stamp).0);
}

proof fn sourced_after_append_event(store: MemoryStoreModel, request: Request, stamp: StampModel)
    requires
        request is AppendEvent,
        stamped(request, stamp),
        sourced(store),
    ensures
        sourced_after_holds(store, request, stamp),
{
    reveal(crate::transition::on_append_event);
    let after = step(store, request, stamp).0;
    if after != store {
        let stored = after.events.last();
        growing_events_keeps_sourced(store, stored, stamp.at, None);
        other_tables_do_not_matter(with_event(store, stored, stamp.at), after);
    }
}

proof fn sourced_after_plan_observation(store: MemoryStoreModel, request: Request, stamp: StampModel)
    requires
        request is PlanObservation,
        stamped(request, stamp),
        sourced(store),
    ensures
        sourced_after_holds(store, request, stamp),
{
    reveal(crate::transition::on_plan_observation);
    other_tables_do_not_matter(store, step(store, request, stamp).0);
}

proof fn sourced_after_commit_observation(store: MemoryStoreModel, request: Request, stamp: StampModel)
    requires
        request is CommitObservation,
        stamped(request, stamp),
        sourced(store),
    ensures
        sourced_after_holds(store, request, stamp),
{
    reveal(crate::transition::on_commit_observation);
    let after = step(store, request, stamp).0;
    let result = request->CommitObservation_result;
    if after.events == store.events && after.observations == store.observations
        && after.observation_sources == store.observation_sources && after.views == store.views
        && after.view_sources == store.view_sources && after.claims == store.claims
        && after.claim_sources == store.claim_sources {
        other_tables_do_not_matter(store, after);
    } else {
        let run = crate::view::run_at(store, request->CommitObservation_run_id).unwrap();
        committing_keeps_sourced(store, run, result, stamp);
        other_tables_do_not_matter(committed(store, run, result, stamp).0, after);
    }
}

proof fn sourced_after_fail_observation(store: MemoryStoreModel, request: Request, stamp: StampModel)
    requires
        request is FailObservation,
        stamped(request, stamp),
        sourced(store),
    ensures
        sourced_after_holds(store, request, stamp),
{
    reveal(crate::transition::on_fail_observation);
    other_tables_do_not_matter(store, step(store, request, stamp).0);
}

proof fn sourced_after_state_claim(store: MemoryStoreModel, request: Request, stamp: StampModel)
    requires
        request is StateClaim,
        stamped(request, stamp),
        sourced(store),
    ensures
        sourced_after_holds(store, request, stamp),
{
    reveal(crate::transition::on_state_claim);
    stating_keeps_sourced(store, request->StateClaim_request, request->StateClaim_key, stamp);
}

proof fn sourced_after_confirm_claim(store: MemoryStoreModel, request: Request, stamp: StampModel)
    requires
        request is ConfirmClaim,
        stamped(request, stamp),
        sourced(store),
    ensures
        sourced_after_holds(store, request, stamp),
{
    reveal(crate::transition::on_confirm_claim);
    confirming_keeps_sourced(
        store,
        request->ConfirmClaim_claim_id,
        request->ConfirmClaim_key,
        stamp,
    );
}

proof fn sourced_after_correct_claim(store: MemoryStoreModel, request: Request, stamp: StampModel)
    requires
        request is CorrectClaim,
        stamped(request, stamp),
        sourced(store),
    ensures
        sourced_after_holds(store, request, stamp),
{
    reveal(crate::transition::on_correct_claim);
    correcting_keeps_sourced(
        store,
        request->CorrectClaim_claim_id,
        request->CorrectClaim_value,
        request->CorrectClaim_event_ids,
        request->CorrectClaim_key,
        stamp,
    );
}

proof fn sourced_after_rescope_claim(store: MemoryStoreModel, request: Request, stamp: StampModel)
    requires
        request is RescopeClaim,
        stamped(request, stamp),
        sourced(store),
    ensures
        sourced_after_holds(store, request, stamp),
{
    reveal(crate::transition::on_rescope_claim);
    rescoping_keeps_sourced(
        store,
        request->RescopeClaim_claim_id,
        request->RescopeClaim_new_scope_id,
        request->RescopeClaim_key,
        stamp,
    );
}

proof fn sourced_after_close_claim(store: MemoryStoreModel, request: Request, stamp: StampModel)
    requires
        request is CloseClaim,
        stamped(request, stamp),
        sourced(store),
    ensures
        sourced_after_holds(store, request, stamp),
{
    reveal(crate::transition::on_close_claim);
    closing_keeps_sourced(
        store,
        request->CloseClaim_claim_id,
        request->CloseClaim_forget,
        request->CloseClaim_key,
        stamp,
    );
}

proof fn sourced_after_reconcile(store: MemoryStoreModel, request: Request, stamp: StampModel)
    requires
        request is Reconcile,
        stamped(request, stamp),
        sourced(store),
    ensures
        sourced_after_holds(store, request, stamp),
{
    reveal(crate::transition::on_reconcile);
    let scope_ids = seq![request->Reconcile_scope_id];
    let pending = claims_in(store, scope_ids, Some(ClaimStatus::Pending));
    reconciling_keeps_sourced(store, pending, stamp.at);
    let after = step(store, request, stamp).0;
    if after != store {
        let done = reconcile_all(store, pending, stamp.at)->Ok_0.0;
        other_tables_do_not_matter(done, after);
    }
}

proof fn sourced_after_create_view(store: MemoryStoreModel, request: Request, stamp: StampModel)
    requires
        request is CreateView,
        stamped(request, stamp),
        sourced(store),
    ensures
        sourced_after_holds(store, request, stamp),
{
    reveal(crate::transition::on_create_view);
    let after = step(store, request, stamp).0;
    let input = request->CreateView_input;
    if after != store {
        let ids = input.source_observation_ids;
        let row = crate::view::next_view(
            store,
            crate::view::created_content(input),
            stamp.ids[0],
            stamp.at,
        );
        let check = represented_refusal(store, input);
        first_error_none(ids, check);
        assert forall|i: int| 0 <= i < ids.len() implies has_observation(
            store,
            #[trigger] ids[i],
        ) by {
            assert(check(ids[i]) is None);
            first_where_found(store.observations, observation_named(ids[i]));
            let found = observation_at(store, ids[i]).unwrap();
            let k = choose|k: int|
                0 <= k < store.observations.len() && store.observations[k] == found;
            assert(store.observations[k].id == ids[i]);
        }
        viewing_keeps_sourced(store, row, ids);
        other_tables_do_not_matter(with_view(store, row, ids), after);
    }
}

proof fn sourced_after_purge_claim(store: MemoryStoreModel, request: Request, stamp: StampModel)
    requires
        request is PurgeClaim,
        stamped(request, stamp),
        sourced(store),
    ensures
        sourced_after_holds(store, request, stamp),
{
    reveal(crate::transition::on_purge_claim);
    let after = step(store, request, stamp).0;
    if after != store {
        let roots = seq![claim_node(request->PurgeClaim_claim_id)];
        purging_keeps_sourced(store, roots, stamp.at);
        other_tables_do_not_matter(
            purged_store(store, privacy_closure(store, roots), stamp.at),
            after,
        );
    }
}

proof fn sourced_after_purge_event(store: MemoryStoreModel, request: Request, stamp: StampModel)
    requires
        request is PurgeEvent,
        stamped(request, stamp),
        sourced(store),
    ensures
        sourced_after_holds(store, request, stamp),
{
    reveal(crate::transition::on_purge_event);
    let after = step(store, request, stamp).0;
    if after != store {
        let roots = seq![event_node(request->PurgeEvent_event_id)];
        purging_keeps_sourced(store, roots, stamp.at);
        other_tables_do_not_matter(
            purged_store(store, privacy_closure(store, roots), stamp.at),
            after,
        );
    }
}

/// Every request keeps provenance sound: claims and observations always rest on recorded events
/// whose content is not withheld.
pub proof fn provenance_stays_sound(store: MemoryStoreModel, request: Request, stamp: StampModel)
    requires
        stamped(request, stamp),
        sourced(store),
    ensures
        sourced(step(store, request, stamp).0),
{
    match request {
        Request::CreateScope { .. } => sourced_after_create_scope(store, request, stamp),
        Request::AppendEvent { .. } => sourced_after_append_event(store, request, stamp),
        Request::PlanObservation { .. } => sourced_after_plan_observation(store, request, stamp),
        Request::CommitObservation { .. } => sourced_after_commit_observation(store, request, stamp),
        Request::FailObservation { .. } => sourced_after_fail_observation(store, request, stamp),
        Request::StateClaim { .. } => sourced_after_state_claim(store, request, stamp),
        Request::ConfirmClaim { .. } => sourced_after_confirm_claim(store, request, stamp),
        Request::CorrectClaim { .. } => sourced_after_correct_claim(store, request, stamp),
        Request::RescopeClaim { .. } => sourced_after_rescope_claim(store, request, stamp),
        Request::CloseClaim { .. } => sourced_after_close_claim(store, request, stamp),
        Request::Reconcile { .. } => sourced_after_reconcile(store, request, stamp),
        Request::CreateView { .. } => sourced_after_create_view(store, request, stamp),
        Request::PurgeClaim { .. } => sourced_after_purge_claim(store, request, stamp),
        Request::PurgeEvent { .. } => sourced_after_purge_event(store, request, stamp),
    }
}

/// The evidence of every claim can be recalled: in a sound memory it is never empty.
pub proof fn claims_have_evidence(store: MemoryStoreModel, i: int)
    requires
        sourced(store),
        0 <= i < store.claims.len(),
    ensures
        evidence(store, store.claim_sources, store.claims[i].id).len() > 0,
{
    let id = store.claims[i].id;
    assert(backed(store.claim_sources, id));
    let n = choose|n: int|
        0 <= n < store.claim_sources.len() && (#[trigger] store.claim_sources[n]).holder_id == id;
    linked_evidence_is_found(store, store.claim_sources, n);
}

/// The evidence of every observation can be recalled: in a sound memory it is never empty.
pub proof fn observations_have_evidence(store: MemoryStoreModel, i: int)
    requires
        sourced(store),
        0 <= i < store.observations.len(),
    ensures
        evidence(store, store.observation_sources, store.observations[i].id).len() > 0,
{
    let id = store.observations[i].id;
    assert(backed(store.observation_sources, id));
    let n = choose|n: int|
        0 <= n < store.observation_sources.len() && (
        #[trigger] store.observation_sources[n]).holder_id == id;
    linked_evidence_is_found(store, store.observation_sources, n);
}

proof fn linked_evidence_is_found(store: MemoryStoreModel, links: Seq<LinkModel>, n: int)
    requires
        0 <= n < links.len(),
        usable(store.events, links[n].source_id),
    ensures
        evidence(store, links, links[n].holder_id).len() > 0,
{
    let accepts = evidence_of(links, links[n].holder_id);
    let source = links[n].source_id;
    let e = choose|e: int|
        0 <= e < store.events.len() && (#[trigger] store.events[e]).id == source
            && store.events[e].sensitivity is Normal;
    assert(links.contains(links[n]));
    assert(accepts(store.events[e]));
    let k = kept_position(store.events, accepts, e);
    crate::order::ordered_rows(store.events.filter(accepts), crate::event::event_order());
}

} // verus!
