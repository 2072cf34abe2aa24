//! Laws of privacy purges: what is purged is gone, with all that rested on it, and does not return.

use vstd::prelude::*;

use crate::claim::{
    close_step, confirm_step, correct_step, direct_step, moved, normalized, requested_slot,
    rescope_step,
};
use crate::claim_table::{
    claim_at, claim_named, generated_for, linked_all, member_of, restated, slot_of, sources_of,
    with_patch,
};
use crate::digest::{json_hash, request_hash};
use crate::event::{event_at, event_named};
use crate::graph::{reached_along, roots_are_reached};
use crate::json::{command_metadata_is_read_back, json_quoted};
use crate::kind::ClaimStatus;
use crate::law_claim::{
    claims_sound, confirmation_activates, correction_supersedes, member_is_found, ordered_contains,
};
use crate::law_event::{filtered_position, kept_position};
use crate::law_replay::pushed_row_is_behind;
use crate::law_source::{
    has_claim, purge_takes_claims_along, removed_claims, removed_events, selected_ids,
};
use crate::mention::Mentions;
use crate::model::ClaimModel;
use crate::operation::{operation_keyed, prior, required, PriorModel};
use crate::privacy::{
    claim_kept, claim_node, claim_unlinked, event_id, event_kept, event_node, index_kept, link_kept,
    linked_to, mentions_any, observation_ids, observation_kept, operation_scrubbed, privacy_closure,
    purge_claim_step, purge_edges, purge_event_step, purge_reach, purged_ids, purged_store,
    rests_on, run_covers, text_order, view_covers, view_direct, view_edges, view_ids, view_kept,
    view_node, view_reach, view_reached,
};
use crate::row::{
    ClaimRequestModel, EdgeModel, LinkModel, MemoryStoreModel, NodeModel, StoredResult,
    ViewRowModel,
};
use crate::stamp::StampModel;
use crate::table::{first_where, first_where_at, first_where_found, some_row};
use crate::text::{listed, Text};
use crate::transition::{carried_out, stamped, step, Request};

verus! {

/// The roots of a purge.
pub open spec fn purge_roots(request: Request) -> Seq<NodeModel> {
    match request {
        Request::PurgeClaim { claim_id, .. } => seq![claim_node(claim_id)],
        Request::PurgeEvent { event_id, .. } => seq![event_node(event_id)],
        _ => Seq::empty(),
    }
}

/// A purge that is carried out removes what its roots concern, and records itself.
pub proof fn purge_removes_its_closure(store: MemoryStoreModel, request: Request, stamp: StampModel)
    requires
        request is PurgeClaim || request is PurgeEvent,
        carried_out(store, request, stamp),
    ensures
        ({
            let after = step(store, request, stamp).0;
            let purged = purged_store(
                store,
                privacy_closure(store, purge_roots(request)),
                stamp.at,
            );
            &&& after == (MemoryStoreModel { operations: after.operations, ..purged })
            &&& after.operations == purged.operations.push(after.operations.last())
        }),
{
    reveal(crate::transition::on_purge_claim);
    reveal(crate::transition::on_purge_event);
}

/// A purged event is gone: it cannot be found, nothing is linked to it, and it is not indexed.
pub proof fn purged_event_is_gone(store: MemoryStoreModel, roots: Seq<NodeModel>, at: Text, id: Text)
    requires
        purge_reach(store, roots).contains(event_node(id)),
        event_at(store, id) is Some,
    ensures
        ({
            let after = purged_store(store, privacy_closure(store, roots), at);
            &&& event_at(after, id) is None
            &&& forall|i: int|
                0 <= i < after.claim_sources.len() ==> (#[trigger] after.claim_sources[i]).source_id
                    != id
            &&& forall|i: int|
                0 <= i < after.observation_sources.len() ==> (
                #[trigger] after.observation_sources[i]).source_id != id
            &&& forall|i: int|
                0 <= i < after.index.len() ==> !((#[trigger] after.index[i]).record_type == "event"@
                    && after.index[i].record_id == id)
        }),
{
    let closure = privacy_closure(store, roots);
    let after = purged_store(store, closure, at);
    let gone = closure.events.map_values(event_id());
    first_where_found(store.events, event_named(id));
    let found = event_at(store, id).unwrap();
    let k = choose|k: int| 0 <= k < store.events.len() && store.events[k] == found;
    assert(store.events[k].id == id);
    removed_events(store, roots, id);
    assert(listed(gone, id));
    first_where_found(after.events, event_named(id));
    if some_row(after.events, event_named(id)) {
        let i = choose|i: int|
            0 <= i < after.events.len() && (event_named(id))(#[trigger] after.events[i]);
        let m = filtered_position(store.events, event_kept(gone), i);
    }
    assert forall|i: int| 0 <= i < after.claim_sources.len() implies (
    #[trigger] after.claim_sources[i]).source_id != id by {
        let m = filtered_position(store.claim_sources, link_kept(closure.claim_ids, gone), i);
    }
    assert forall|i: int| 0 <= i < after.observation_sources.len() implies (
    #[trigger] after.observation_sources[i]).source_id != id by {
        let m = filtered_position(
            store.observation_sources,
            link_kept(closure.observation_ids, gone),
            i,
        );
    }
    assert forall|i: int| 0 <= i < after.index.len() implies !((
    #[trigger] after.index[i]).record_type == "event"@ && after.index[i].record_id == id) by {
        let m = filtered_position(store.index, index_kept(closure), i);
    }
}

/// A purged claim is gone: it cannot be found, it holds no evidence, no other claim points to it,
/// and it is not indexed.
pub proof fn purged_claim_is_gone(store: MemoryStoreModel, roots: Seq<NodeModel>, at: Text, id: Text)
    requires
        purge_reach(store, roots).contains(claim_node(id)),
        has_claim(store, id),
    ensures
        ({
            let after = purged_store(store, privacy_closure(store, roots), at);
            &&& !has_claim(after, id)
            &&& claim_at(after, id) is None
            &&& forall|i: int|
                0 <= i < after.claims.len() ==> (#[trigger] after.claims[i]).supersedes_id != Some(
                    id,
                )
            &&& forall|i: int|
                0 <= i < after.claim_sources.len() ==> (#[trigger] after.claim_sources[i]).holder_id
                    != id
            &&& forall|i: int|
                0 <= i < after.index.len() ==> !((#[trigger] after.index[i]).record_type == "claim"@
                    && after.index[i].record_id == id)
        }),
{
    let closure = privacy_closure(store, roots);
    let after = purged_store(store, closure, at);
    let gone = closure.events.map_values(event_id());
    let keep = claim_kept(closure.claim_ids);
    removed_claims(store, roots, id);
    assert forall|i: int| 0 <= i < after.claims.len() implies (#[trigger] after.claims[i]).id != id
        && after.claims[i].supersedes_id != Some(id) by {
        let m = filtered_position(store.claims, keep, i);
        assert(after.claims[i] == (claim_unlinked(closure.claim_ids))(store.claims.filter(keep)[i]));
    }
    first_where_found(after.claims, claim_named(id));
    assert forall|i: int| 0 <= i < after.claim_sources.len() implies (
    #[trigger] after.claim_sources[i]).holder_id != id by {
        let m = filtered_position(store.claim_sources, link_kept(closure.claim_ids, gone), i);
    }
    assert forall|i: int| 0 <= i < after.index.len() implies !((
    #[trigger] after.index[i]).record_type == "claim"@ && after.index[i].record_id == id) by {
        let m = filtered_position(store.index, index_kept(closure), i);
    }
}

/// The root of a purge is reached.
pub proof fn purge_reaches_its_root(store: MemoryStoreModel, root: NodeModel)
    ensures
        purge_reach(store, seq![root]).contains(root),
{
    roots_are_reached(purge_edges(store, store.claim_sources), seq![root], 0);
}

/// Purging an event removes the event and every claim that rested on it.
pub proof fn event_purge_takes_claims(
    store: MemoryStoreModel,
    id: Text,
    at: Text,
    i: int,
)
    requires
        event_at(store, id) is Some,
        0 <= i < store.claim_sources.len(),
        store.claim_sources[i].source_id == id,
        has_claim(store, store.claim_sources[i].holder_id),
    ensures
        ({
            let after = purged_store(store, privacy_closure(store, seq![event_node(id)]), at);
            &&& event_at(after, id) is None
            &&& !has_claim(after, store.claim_sources[i].holder_id)
        }),
{
    let roots = seq![event_node(id)];
    purge_reaches_its_root(store, event_node(id));
    purge_takes_claims_along(store, roots, i);
    purged_event_is_gone(store, roots, at, id);
    purged_claim_is_gone(store, roots, at, store.claim_sources[i].holder_id);
}

/// A purge removes every observation that rested on a removed event, and its full-text row.
pub proof fn purge_takes_observations(
    store: MemoryStoreModel,
    roots: Seq<NodeModel>,
    at: Text,
    i: int,
)
    requires
        0 <= i < store.observation_sources.len(),
        purge_reach(store, roots).contains(event_node(store.observation_sources[i].source_id)),
        event_at(store, store.observation_sources[i].source_id) is Some,
    ensures
        ({
            let after = purged_store(store, privacy_closure(store, roots), at);
            let id = store.observation_sources[i].holder_id;
            &&& forall|k: int|
                0 <= k < after.observations.len() ==> (#[trigger] after.observations[k]).id != id
        }),
{
    let closure = privacy_closure(store, roots);
    let after = purged_store(store, closure, at);
    let gone = closure.events.map_values(event_id());
    let source = store.observation_sources[i].source_id;
    let id = store.observation_sources[i].holder_id;
    first_where_found(store.events, event_named(source));
    let found = event_at(store, source).unwrap();
    let e = choose|e: int| 0 <= e < store.events.len() && store.events[e] == found;
    assert(store.events[e].id == source);
    removed_events(store, roots, source);
    let rests = rests_on(store.observation_sources, gone);
    assert(linked_to(store.observation_sources, id, gone));
    assert forall|k: int| 0 <= k < after.observations.len() implies (
    #[trigger] after.observations[k]).id != id by {
        let m = filtered_position(
            store.observations,
            observation_kept(closure.observation_ids),
            k,
        );
        if store.observations[m].id == id {
            assert(rests(store.observations[m]));
            assert((observation_ids())(store.observations[m]) == id);
            selected_ids(store.observations, rests, observation_ids(), id);
        }
    }
}

/// A view that a purge concerns by itself is one of those that it removes.
proof fn direct_views_are_removed(store: MemoryStoreModel, roots: Seq<NodeModel>, v: int)
    requires
        0 <= v < store.views.len(),
        listed(privacy_closure(store, roots).direct_view_ids, store.views[v].view.id),
    ensures
        listed(privacy_closure(store, roots).view_ids, store.views[v].view.id),
{
    let closure = privacy_closure(store, roots);
    let direct = closure.direct_view_ids;
    let id = store.views[v].view.id;
    let k = choose|k: int| 0 <= k < direct.len() && #[trigger] direct[k] == id;
    let starts = direct.map_values(view_node());
    roots_are_reached(view_edges(store.views), starts, k);
    assert(starts[k] == event_node(id));
    let reached = view_reached(view_reach(store.views, direct));
    assert(reached(store.views[v]));
    assert((view_ids())(store.views[v]) == id);
    selected_ids(store.views, reached, view_ids(), id);
}

proof fn view_edge_exists(views: Seq<ViewRowModel>, v: int)
    requires
        0 <= v < views.len(),
        views[v].view.previous_view_id is Some,
    ensures
        view_edges(views).contains(
            EdgeModel {
                from: event_node(views[v].view.previous_view_id.unwrap()),
                to: event_node(views[v].view.id),
            },
        ),
    decreases views.len(),
{
    let front = views.drop_last();
    let before = view_edges(front);
    let all = view_edges(views);
    let edge = EdgeModel {
        from: event_node(views[v].view.previous_view_id.unwrap()),
        to: event_node(views[v].view.id),
    };
    if v < front.len() {
        assert(front[v] == views[v]);
        view_edge_exists(front, v);
        let k = choose|k: int| 0 <= k < before.len() && before[k] == edge;
        assert(all[k] == edge);
    } else {
        assert(all[before.len() as int] == edge);
    }
}

/// A purge that removes a view removes the generations that were built on it.
pub proof fn purge_takes_later_generations(
    store: MemoryStoreModel,
    roots: Seq<NodeModel>,
    v: int,
    id: Text,
)
    requires
        0 <= v < store.views.len(),
        store.views[v].view.previous_view_id == Some(id),
        listed(privacy_closure(store, roots).view_ids, id),
    ensures
        listed(privacy_closure(store, roots).view_ids, store.views[v].view.id),
{
    let closure = privacy_closure(store, roots);
    let edges = view_edges(store.views);
    let starts = closure.direct_view_ids.map_values(view_node());
    let reached = view_reached(view_reach(store.views, closure.direct_view_ids));
    selected_ids(store.views, reached, view_ids(), id);
    let m = choose|m: int|
        0 <= m < store.views.len() && (view_ids())(#[trigger] store.views[m]) == id && reached(
            store.views[m],
        );
    view_edge_exists(store.views, v);
    let edge = EdgeModel { from: event_node(id), to: event_node(store.views[v].view.id) };
    let e = choose|e: int| 0 <= e < edges.len() && edges[e] == edge;
    reached_along(edges, starts, e);
    assert(reached(store.views[v]));
    assert((view_ids())(store.views[v]) == store.views[v].view.id);
    selected_ids(store.views, reached, view_ids(), store.views[v].view.id);
}

/// After a purge no view that it concerns is left, directly or through earlier generations: none
/// has its identifier, points to it or is linked to what it represented. Every other view stays
/// as it is.
pub proof fn purged_views_are_gone(store: MemoryStoreModel, roots: Seq<NodeModel>, at: Text)
    ensures
        ({
            let closure = privacy_closure(store, roots);
            let after = purged_store(store, closure, at);
            &&& forall|k: int|
                0 <= k < after.views.len() ==> !listed(
                    closure.view_ids,
                    (#[trigger] after.views[k]).view.id,
                ) && (after.views[k].view.previous_view_id matches Some(id) ==> !listed(
                    closure.view_ids,
                    id,
                ))
            &&& forall|k: int|
                0 <= k < after.view_sources.len() ==> !listed(
                    closure.view_ids,
                    (#[trigger] after.view_sources[k]).holder_id,
                )
            &&& forall|v: int|
                0 <= v < store.views.len() && !listed(
                    closure.view_ids,
                    (#[trigger] store.views[v]).view.id,
                ) ==> after.views.contains(store.views[v])
        }),
{
    let closure = privacy_closure(store, roots);
    let after = purged_store(store, closure, at);
    let keep = view_kept(closure.view_ids);
    let linked = link_kept(closure.view_ids, closure.observation_ids);
    assert forall|k: int| 0 <= k < after.views.len() implies !listed(
        closure.view_ids,
        (#[trigger] after.views[k]).view.id,
    ) && (after.views[k].view.previous_view_id matches Some(id) ==> !listed(closure.view_ids, id)) by {
        let m = filtered_position(store.views, keep, k);
        if let Some(id) = store.views[m].view.previous_view_id {
            if listed(closure.view_ids, id) {
                purge_takes_later_generations(store, roots, m, id);
            }
        }
    }
    assert forall|k: int| 0 <= k < after.view_sources.len() implies !listed(
        closure.view_ids,
        (#[trigger] after.view_sources[k]).holder_id,
    ) by {
        let m = filtered_position(store.view_sources, linked, k);
    }
    assert forall|v: int|
        0 <= v < store.views.len() && !listed(
            closure.view_ids,
            (#[trigger] store.views[v]).view.id,
        ) implies after.views.contains(store.views[v]) by {
        let m = kept_position(store.views, keep, v);
        assert(after.views[m] == store.views[v]);
    }
}

/// A purge removes every view whose range takes in a removed event of its stream and scope.
pub proof fn purge_takes_views(
    store: MemoryStoreModel,
    roots: Seq<NodeModel>,
    at: Text,
    v: int,
    e: int,
)
    requires
        0 <= v < store.views.len(),
        0 <= e < store.events.len(),
        purge_reach(store, roots).contains(event_node(store.events[e].id)),
        store.events[e].scope_id == store.views[v].view.scope_id,
        store.events[e].stream_id == store.views[v].view.stream_id,
        store.views[v].view.source_from_sequence <= store.events[e].sequence
            <= store.views[v].view.source_through_sequence,
    ensures
        ({
            let after = purged_store(store, privacy_closure(store, roots), at);
            &&& forall|k: int|
                0 <= k < after.views.len() ==> (#[trigger] after.views[k]).view.id
                    != store.views[v].view.id && after.views[k].view.previous_view_id != Some(
                    store.views[v].view.id,
                )
        }),
{
    let closure = privacy_closure(store, roots);
    let after = purged_store(store, closure, at);
    let reached = crate::privacy::event_reached(purge_reach(store, roots));
    let id = store.views[v].view.id;
    let k = kept_position(store.events, reached, e);
    assert(closure.events[k] == store.events[e]);
    assert(view_covers(store.views[v], closure.events));
    let direct = view_direct(store.view_sources, closure.events, closure.observation_ids);
    assert(direct(store.views[v]));
    selected_ids(store.views, direct, view_ids(), id);
    assert((view_ids())(store.views[v]) == id);
    assert(listed(closure.direct_view_ids, id));
    direct_views_are_removed(store, roots, v);
    purged_views_are_gone(store, roots, at);
}

/// The views that an event purge reports as dependent are gone once it is carried out.
pub proof fn reported_views_are_gone(
    store: MemoryStoreModel,
    id: Text,
    key: Text,
    stamp: StampModel,
    k: int,
)
    requires
        purge_event_step(store, id, key, stamp).1 matches Ok(done) && !done.replayed,
        0 <= k < purge_event_step(store, id, key, stamp).0.views.len(),
    ensures
        !listed(
            purge_event_step(store, id, key, stamp).1->Ok_0.data.dependent_view_ids,
            purge_event_step(store, id, key, stamp).0.views[k].view.id,
        ),
{
    let (after, answer) = purge_event_step(store, id, key, stamp);
    let roots = seq![event_node(id)];
    let closure = privacy_closure(store, roots);
    let reported = answer->Ok_0.data.dependent_view_ids;
    let view_id = after.views[k].view.id;
    purged_views_are_gone(store, roots, stamp.at);
    assert(after.views == purged_store(store, closure, stamp.at).views);
    if listed(reported, view_id) {
        let n = choose|n: int| 0 <= n < reported.len() && #[trigger] reported[n] == view_id;
        assert(reported.contains(view_id));
        ordered_contains(closure.view_ids, text_order(), view_id);
        let m = choose|m: int|
            0 <= m < closure.view_ids.len() && closure.view_ids[m] == view_id;
        assert(listed(closure.view_ids, view_id));
    }
}

/// A run that loses evidence is marked and is no longer pending; every other run is untouched.
pub proof fn purge_marks_runs(
    store: MemoryStoreModel,
    roots: Seq<NodeModel>,
    at: Text,
    r: int,
)
    requires
        0 <= r < store.runs.len(),
    ensures
        ({
            let closure = privacy_closure(store, roots);
            let after = purged_store(store, closure, at);
            &&& after.runs.len() == store.runs.len()
            &&& after.runs[r].id == store.runs[r].id
            &&& (run_covers(closure.events))(store.runs[r]) ==> after.runs[r].source_integrity is PrivacyPurged
                && !(after.runs[r].status is Pending) && after.runs[r].ambiguities.len() == 0
            &&& !(run_covers(closure.events))(store.runs[r]) ==> after.runs[r] == store.runs[r]
            &&& store.runs[r].status is Committed ==> after.runs[r].status is Committed
        }),
{
}

proof fn generated_edge_exists(store: MemoryStoreModel, links: Seq<LinkModel>, i: int)
    requires
        0 <= i < links.len(),
        event_at(store, links[i].source_id) matches Some(event) && generated_for(
            event,
            links[i].holder_id,
        ),
        has_claim(store, links[i].holder_id),
    ensures
        purge_edges(store, links).contains(
            EdgeModel {
                from: claim_node(links[i].holder_id),
                to: event_node(links[i].source_id),
            },
        ),
    decreases links.len(),
{
    let front = links.drop_last();
    let before = purge_edges(store, front);
    let all = purge_edges(store, links);
    let edge = EdgeModel {
        from: claim_node(links[i].holder_id),
        to: event_node(links[i].source_id),
    };
    if i < front.len() {
        assert(front[i] == links[i]);
        generated_edge_exists(store, front, i);
        let k = choose|k: int| 0 <= k < before.len() && before[k] == edge;
        assert(all[k] == edge);
    } else {
        let k = choose|k: int|
            0 <= k < store.claims.len() && (#[trigger] store.claims[k]).id == links[i].holder_id;
        assert((claim_named(links[i].holder_id))(store.claims[k]));
        assert(some_row(store.claims, claim_named(links[i].holder_id)));
        assert(all[before.len() as int + 1] == edge);
    }
}

/// Purging a claim removes the commands that were generated for it.
pub proof fn claim_purge_takes_commands(
    store: MemoryStoreModel,
    claim_id: Text,
    at: Text,
    i: int,
)
    requires
        has_claim(store, claim_id),
        0 <= i < store.claim_sources.len(),
        store.claim_sources[i].holder_id == claim_id,
        event_at(store, store.claim_sources[i].source_id) matches Some(event) && generated_for(
            event,
            claim_id,
        ),
    ensures
        ({
            let after = purged_store(store, privacy_closure(store, seq![claim_node(claim_id)]), at);
            &&& !has_claim(after, claim_id)
            &&& event_at(after, store.claim_sources[i].source_id) is None
        }),
{
    let roots = seq![claim_node(claim_id)];
    let links = store.claim_sources;
    let edges = purge_edges(store, links);
    purge_reaches_its_root(store, claim_node(claim_id));
    generated_edge_exists(store, links, i);
    let edge = EdgeModel { from: claim_node(claim_id), to: event_node(links[i].source_id) };
    let k = choose|k: int| 0 <= k < edges.len() && edges[k] == edge;
    reached_along(edges, roots, k);
    purged_claim_is_gone(store, roots, at, claim_id);
    purged_event_is_gone(store, roots, at, links[i].source_id);
}

/// Whether a request is a command on claims.
pub open spec fn is_claim_command(request: Request) -> bool {
    ||| request is StateClaim
    ||| request is ConfirmClaim
    ||| request is CorrectClaim
    ||| request is RescopeClaim
    ||| request is CloseClaim
}

/// Whether the last event of a memory records a command, as evidence of the claim that owns it.
pub open spec fn command_owned(after: MemoryStoreModel, claim_id: Text, event_id: Text) -> bool {
    &&& has_claim(after, claim_id)
    &&& after.events.len() > 0
    &&& after.events.last().id == event_id
    &&& generated_for(after.events.last(), claim_id)
    &&& after.claim_sources.contains(LinkModel { holder_id: claim_id, source_id: event_id })
}

proof fn one_source_is_linked(links: Seq<LinkModel>, holder_id: Text, source_id: Text)
    ensures
        linked_all(links, holder_id, seq![source_id]).contains(
            LinkModel { holder_id, source_id },
        ),
{
    let none = seq![source_id].drop_last();
    assert(none.len() == 0);
    assert(linked_all(links, holder_id, none) == links);
    let link = LinkModel { holder_id, source_id };
    if !links.contains(link) {
        assert(links.push(link)[links.len() as int] == link);
    }
}

/// The claim that a command on claims is answered with.
pub open spec fn answered_claim(
    store: MemoryStoreModel,
    request: Request,
    stamp: StampModel,
) -> ClaimModel {
    step(store, request, stamp).1->Ok_0.0->Claim_0
}

/// A command on claims that is carried out is recorded as the last event, generated for the claim
/// that it is answered with, and is evidence of that claim.
pub proof fn commands_are_owned(store: MemoryStoreModel, request: Request, stamp: StampModel)
    requires
        is_claim_command(request),
        stamped(request, stamp),
        claims_sound(store),
        carried_out(store, request, stamp),
    ensures
        command_owned(
            step(store, request, stamp).0,
            answered_claim(store, request, stamp).id,
            stamp.ids[0],
        ),
        event_at(step(store, request, stamp).0, stamp.ids[0]) == Some(
            step(store, request, stamp).0.events.last(),
        ),
{
    let after = step(store, request, stamp).0;
    match request {
        Request::StateClaim { request: raw, key } => {
            reveal(crate::transition::on_state_claim);
            stated_command_is_owned(store, raw, key, stamp);
        },
        Request::ConfirmClaim { claim_id, key } => {
            reveal(crate::transition::on_confirm_claim);
            confirmed_command_is_owned(store, claim_id, key, stamp);
        },
        Request::CorrectClaim { claim_id, value, event_ids, key } => {
            reveal(crate::transition::on_correct_claim);
            corrected_command_is_owned(store, claim_id, value, event_ids, key, stamp);
        },
        Request::RescopeClaim { claim_id, new_scope_id, key } => {
            reveal(crate::transition::on_rescope_claim);
            rescoped_command_is_owned(store, claim_id, new_scope_id, key, stamp);
        },
        _ => {
            reveal(crate::transition::on_close_claim);
            closed_command_is_owned(
                store,
                request->CloseClaim_claim_id,
                request->CloseClaim_forget,
                request->CloseClaim_key,
                stamp,
            );
        },
    }
    let n = after.events.len() - 1;
    let accepts = event_named(stamp.ids[0]);
    assert forall|k: int| 0 <= k < n implies !accepts(#[trigger] after.events[k]) by {
        assert(after.events[k] == store.events[k]);
        assert(!some_row(store.events, accepts));
        assert(!accepts(store.events[k]));
    }
    first_where_at(after.events, accepts, n);
}

proof fn stated_command_is_owned(
    store: MemoryStoreModel,
    raw: ClaimRequestModel,
    key: Text,
    stamp: StampModel,
)
    requires
        stamp.ids.len() == 2,
        direct_step(store, raw, key, stamp).1 matches Ok(done) && !done.replayed,
    ensures
        ({
            let (after, answer) = direct_step(store, raw, key, stamp);
            &&& command_owned(after, answer->Ok_0.data.id, stamp.ids[0])
            &&& after.events == store.events.push(after.events.last())
            &&& !some_row(store.events, event_named(stamp.ids[0]))
        }),
{
    let (after, answer) = direct_step(store, raw, key, stamp);
    let claim = answer->Ok_0.data;
    let request = normalized(raw);
    let slot = requested_slot(request);
    command_metadata_is_read_back(claim.id);
    member_is_found(store, slot, json_hash(request.value));
    if after.claims == store.claims {
        let k = choose|k: int| 0 <= k < store.claims.len() && store.claims[k] == claim;
        assert(after.claims[k].id == claim.id);
        let links = linked_all(store.claim_sources, claim.id, request.source_event_ids);
        one_source_is_linked(links, claim.id, stamp.ids[0]);
    } else {
        assert(after.claims == store.claims.push(claim));
        assert(after.claims[store.claims.len() as int].id == claim.id);
        let links = linked_all(store.claim_sources, claim.id, request.source_event_ids);
        one_source_is_linked(links, claim.id, stamp.ids[0]);
    }
}

proof fn confirmed_command_is_owned(
    store: MemoryStoreModel,
    claim_id: Text,
    key: Text,
    stamp: StampModel,
)
    requires
        claims_sound(store),
        stamp.ids.len() == 1,
        confirm_step(store, claim_id, key, stamp).1 matches Ok(done) && !done.replayed,
    ensures
        ({
            let (after, answer) = confirm_step(store, claim_id, key, stamp);
            &&& command_owned(after, answer->Ok_0.data.id, stamp.ids[0])
            &&& after.events == store.events.push(after.events.last())
            &&& !some_row(store.events, event_named(stamp.ids[0]))
        }),
{
    let (after, answer) = confirm_step(store, claim_id, key, stamp);
    let claim = answer->Ok_0.data;
    let asked = claim_at(store, claim_id).unwrap();
    command_metadata_is_read_back(claim.id);
    confirmation_activates(store, claim_id, key, stamp);
    let k = choose|k: int| 0 <= k < after.claims.len() && after.claims[k] == claim;
    assert(after.claims[k].id == claim.id);
    let copied = linked_all(
        store.claim_sources,
        claim.id,
        sources_of(store.claim_sources, asked.id),
    );
    one_source_is_linked(copied, claim.id, stamp.ids[0]);
    one_source_is_linked(store.claim_sources, claim.id, stamp.ids[0]);
}

proof fn corrected_command_is_owned(
    store: MemoryStoreModel,
    claim_id: Text,
    value: Text,
    event_ids: Seq<Text>,
    key: Text,
    stamp: StampModel,
)
    requires
        claims_sound(store),
        stamp.ids.len() == 2,
        correct_step(store, claim_id, value, event_ids, key, stamp).1 matches Ok(done)
            && !done.replayed,
    ensures
        ({
            let (after, answer) = correct_step(store, claim_id, value, event_ids, key, stamp);
            &&& command_owned(after, answer->Ok_0.data.id, stamp.ids[0])
            &&& after.events == store.events.push(after.events.last())
            &&& !some_row(store.events, event_named(stamp.ids[0]))
        }),
{
    let (after, answer) = correct_step(store, claim_id, value, event_ids, key, stamp);
    let claim = answer->Ok_0.data;
    command_metadata_is_read_back(claim.id);
    first_where_found(store.claims, claim_named(claim_id));
    let i = choose|i: int|
        0 <= i < store.claims.len() && (claim_named(claim_id))(#[trigger] store.claims[i]);
    correction_supersedes(store, claim_id, value, event_ids, key, stamp, i);
    let k = choose|k: int| 0 <= k < after.claims.len() && after.claims[k] == claim;
    assert(after.claims[k].id == claim.id);
    let former = claim_at(store, claim_id).unwrap();
    let copied = linked_all(
        store.claim_sources,
        claim.id,
        sources_of(store.claim_sources, former.id),
    );
    one_source_is_linked(linked_all(copied, claim.id, event_ids), claim.id, stamp.ids[0]);
    one_source_is_linked(
        linked_all(store.claim_sources, claim.id, event_ids),
        claim.id,
        stamp.ids[0],
    );
}

proof fn rescoped_command_is_owned(
    store: MemoryStoreModel,
    claim_id: Text,
    new_scope_id: Text,
    key: Text,
    stamp: StampModel,
)
    requires
        claims_sound(store),
        stamp.ids.len() == 2,
        rescope_step(store, claim_id, new_scope_id, key, stamp).1 matches Ok(done)
            && !done.replayed,
    ensures
        ({
            let (after, answer) = rescope_step(store, claim_id, new_scope_id, key, stamp);
            &&& command_owned(after, answer->Ok_0.data.id, stamp.ids[0])
            &&& after.events == store.events.push(after.events.last())
            &&& !some_row(store.events, event_named(stamp.ids[0]))
        }),
{
    let (after, answer) = rescope_step(store, claim_id, new_scope_id, key, stamp);
    let claim = answer->Ok_0.data;
    command_metadata_is_read_back(claim.id);
    let former = claim_at(store, claim_id).unwrap();
    let made = moved(former, new_scope_id, stamp);
    let slot = slot_of(made);
    let superseded = with_patch(
        store,
        claim_named(former.id),
        restated(ClaimStatus::Superseded, stamp.at),
    );
    member_is_found(superseded, slot, made.value_hash);
    if made.status is Active && member_of(superseded, slot, made.value_hash) is Some {
        let k = choose|k: int| 0 <= k < superseded.claims.len() && superseded.claims[k] == claim;
        assert(after.claims[k].id == claim.id);
    } else {
        assert(after.claims.last() == claim);
        assert(after.claims[after.claims.len() - 1].id == claim.id);
    }
    let copied = linked_all(
        store.claim_sources,
        claim.id,
        sources_of(store.claim_sources, claim_id),
    );
    one_source_is_linked(copied, claim.id, stamp.ids[0]);
}

proof fn closed_command_is_owned(
    store: MemoryStoreModel,
    claim_id: Text,
    forget: bool,
    key: Text,
    stamp: StampModel,
)
    requires
        stamp.ids.len() == 1,
        close_step(store, claim_id, forget, key, stamp).1 matches Ok(done) && !done.replayed,
    ensures
        ({
            let (after, answer) = close_step(store, claim_id, forget, key, stamp);
            &&& command_owned(after, answer->Ok_0.data.id, stamp.ids[0])
            &&& after.events == store.events.push(after.events.last())
            &&& !some_row(store.events, event_named(stamp.ids[0]))
        }),
{
    let (after, answer) = close_step(store, claim_id, forget, key, stamp);
    let claim = answer->Ok_0.data;
    command_metadata_is_read_back(claim.id);
    first_where_found(store.claims, claim_named(claim_id));
    let i = choose|i: int|
        0 <= i < store.claims.len() && store.claims[i] == claim_at(store, claim_id).unwrap();
    assert(after.claims[i].id == claim.id);
    one_source_is_linked(store.claim_sources, claim.id, stamp.ids[0]);
}

/// Stating, confirming, correcting, moving, rejecting or forgetting a claim and then purging the
/// claim that the command was answered with leaves neither the claim nor the event that recorded
/// the command. The purge is carried out wherever its key is usable.
pub proof fn purge_takes_the_command(
    store: MemoryStoreModel,
    request: Request,
    stamp: StampModel,
    key: Text,
    later: StampModel,
)
    requires
        is_claim_command(request),
        stamped(request, stamp),
        claims_sound(store),
        carried_out(store, request, stamp),
        required("idempotency key"@, key) is None,
        prior(
            step(store, request, stamp).0,
            key,
            "claim.purge"@,
            request_hash(
                "claim.purge"@,
                json_quoted(answered_claim(store, request, stamp).id),
            ),
        ) is Fresh,
    ensures
        ({
            let claim_id = answered_claim(store, request, stamp).id;
            let (gone, answer) = purge_claim_step(
                step(store, request, stamp).0,
                claim_id,
                key,
                later,
            );
            &&& answer matches Ok(done) && !done.replayed
            &&& !has_claim(gone, claim_id)
            &&& event_at(gone, stamp.ids[0]) is None
        }),
{
    let after = step(store, request, stamp).0;
    let claim_id = answered_claim(store, request, stamp).id;
    commands_are_owned(store, request, stamp);
    let link = LinkModel { holder_id: claim_id, source_id: stamp.ids[0] };
    let i = choose|i: int| 0 <= i < after.claim_sources.len() && after.claim_sources[i] == link;
    claim_purge_takes_commands(after, claim_id, later.at, i);
    let k = choose|k: int| 0 <= k < after.claims.len() && (#[trigger] after.claims[k]).id == claim_id;
    assert((claim_named(claim_id))(after.claims[k]));
    assert(some_row(after.claims, claim_named(claim_id)));
    first_where_found(after.claims, claim_named(claim_id));
}

/// What a purge does not reach stays: an event as it is, a claim but for pointers to removed ones.
pub proof fn purge_spares_the_rest(
    store: MemoryStoreModel,
    roots: Seq<NodeModel>,
    at: Text,
    e: int,
    c: int,
)
    requires
        0 <= e < store.events.len(),
        !purge_reach(store, roots).contains(event_node(store.events[e].id)),
        0 <= c < store.claims.len(),
        !purge_reach(store, roots).contains(claim_node(store.claims[c].id)),
    ensures
        ({
            let after = purged_store(store, privacy_closure(store, roots), at);
            &&& after.scopes == store.scopes
            &&& after.streams == store.streams
            &&& after.events.contains(store.events[e])
            &&& exists|k: int|
                0 <= k < after.claims.len() && (#[trigger] after.claims[k]) == (ClaimModel {
                    supersedes_id: after.claims[k].supersedes_id,
                    ..store.claims[c]
                })
        }),
{
    let closure = privacy_closure(store, roots);
    let after = purged_store(store, closure, at);
    let gone = closure.events.map_values(event_id());
    removed_events(store, roots, store.events[e].id);
    let m = kept_position(store.events, event_kept(gone), e);
    assert(after.events[m] == store.events[e]);
    removed_claims(store, roots, store.claims[c].id);
    let keep = claim_kept(closure.claim_ids);
    let k = kept_position(store.claims, keep, c);
    assert(after.claims[k] == (claim_unlinked(closure.claim_ids))(store.claims.filter(keep)[k]));
}

/// After a purge no earlier record of an operation mentions anything that was purged.
pub proof fn purge_scrubs_results(
    store: MemoryStoreModel,
    roots: Seq<NodeModel>,
    at: Text,
    o: int,
    id: Text,
)
    requires
        0 <= o < store.operations.len(),
        listed(purged_ids(privacy_closure(store, roots)), id),
    ensures
        ({
            let after = purged_store(store, privacy_closure(store, roots), at);
            &&& after.operations.len() == store.operations.len()
            &&& after.operations[o].key == store.operations[o].key
            &&& after.operations[o].operation == store.operations[o].operation
            &&& after.operations[o].result matches Some(result) ==> !<StoredResult as Mentions>::mentioned(
                result,
                id,
            )
        }),
{
    let ids = purged_ids(privacy_closure(store, roots));
    let k = choose|k: int| 0 <= k < ids.len() && #[trigger] ids[k] == id;
    if let Some(result) = store.operations[o].result {
        if <StoredResult as Mentions>::mentioned(result, id) {
            assert(<StoredResult as Mentions>::mentioned(result, ids[k]));
            assert(mentions_any(result, ids));
        }
    }
}

/// A request whose result mentioned something purged is refused as purged when it is repeated
/// after the purge: the data does not come back.
pub proof fn purged_result_is_not_replayed(
    store: MemoryStoreModel,
    request: Request,
    stamp: StampModel,
    key: Text,
    operation: Text,
    hash: Text,
    id: Text,
)
    requires
        request is PurgeClaim || request is PurgeEvent,
        carried_out(store, request, stamp),
        first_where(store.operations, operation_keyed(key)) matches Some(row) && row.operation
            == operation && (row.result matches Some(result) && <StoredResult as Mentions>::mentioned(
            result,
            id,
        )),
        listed(purged_ids(privacy_closure(store, purge_roots(request))), id),
    ensures
        prior(step(store, request, stamp).0, key, operation, hash) == PriorModel::Refused(
            crate::operation::purged(
                "the prior result for this idempotency key was privacy-purged"@,
            ),
        ),
{
    purge_removes_its_closure(store, request, stamp);
    let after = step(store, request, stamp).0;
    let closure = privacy_closure(store, purge_roots(request));
    let ids = purged_ids(closure);
    let scrub = operation_scrubbed(ids);
    let row = first_where(store.operations, operation_keyed(key)).unwrap();
    let k = choose|k: int| 0 <= k < ids.len() && #[trigger] ids[k] == id;
    assert(<StoredResult as Mentions>::mentioned(row.result.unwrap(), ids[k]));
    assert(mentions_any(row.result.unwrap(), ids));
    crate::law_replay::scrubbing_keeps_keys(store.operations, ids, key);
    pushed_row_is_behind(
        store.operations.map_values(scrub),
        after.operations.last(),
        operation_keyed(key),
    );
}

} // verus!
