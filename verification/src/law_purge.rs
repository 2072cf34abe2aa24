//! Laws of the extent of a purge: it reports what it removes, and leaves everything else.

use vstd::prelude::*;

use crate::claim_table::generated_for;
use crate::event::{event_at, event_named};
use crate::graph::{closed_under, holds_all, reached_along, reaches, roots_are_reached};
use crate::json::json_text_field;
use crate::law_claim::ordered_contains;
use crate::law_event::{filtered_position, kept_position};
use crate::law_privacy::purge_reaches_its_root;
use crate::law_source::selected_ids;
use crate::mention::Mentions;
use crate::model::{
    AmbiguityDraft, Claim, ClaimModel, MemoryEvent, MemoryEventModel, MemoryViewModel, Observation,
    ObservationCommitModel, ObservationPlanModel, ObservationPlanOutcomeModel,
};
use crate::order::ordered_rows;
use crate::privacy::{
    claim_ids, claim_kept, claim_node, claim_reached, event_id, event_kept, event_node,
    event_reached, generated_among, index_kept, link_kept, linked_to, observation_ids,
    observation_kept, privacy_closure, purge_claim_step, purge_edges, purge_event_step, purge_reach,
    purged_store, rests_on, run_covers, run_ids, slot_kept, text_order, view_covers, view_direct,
    view_edges, view_ids, view_kept, view_node, view_reach, view_reached,
};
use crate::row::{
    IndexRowModel, LinkModel, MemoryStoreModel, NodeModel, OperationRowModel, RunRowModel,
    StoredResult, StoredResultModel, ViewRowModel,
};
use crate::stamp::StampModel;
use crate::table::first_where_found;
use crate::text::{listed, occurs, occurs_at, Text};

verus! {

proof fn kept_and_removed_are_all<V>(
    rows: Seq<V>,
    keep: spec_fn(V) -> bool,
    remove: spec_fn(V) -> bool,
)
    requires
        forall|i: int| 0 <= i < rows.len() ==> keep(#[trigger] rows[i]) == !remove(rows[i]),
    ensures
        rows.filter(keep).len() + rows.filter(remove).len() == rows.len(),
    decreases rows.len(),
{
    reveal(Seq::filter);
    if rows.len() > 0 {
        let front = rows.drop_last();
        assert forall|i: int| 0 <= i < front.len() implies keep(#[trigger] front[i]) == !remove(
            front[i],
        ) by {
            assert(front[i] == rows[i]);
        }
        kept_and_removed_are_all(front, keep, remove);
        assert(rows[rows.len() - 1] == rows.last());
    }
}

proof fn purge_counts(store: MemoryStoreModel, roots: Seq<NodeModel>, at: Text)
    ensures
        ({
            let closure = privacy_closure(store, roots);
            let after = purged_store(store, closure, at);
            &&& store.events.len() == after.events.len() + closure.events.len()
            &&& store.observations.len() == after.observations.len()
                + closure.observation_ids.len()
            &&& store.claims.len() == after.claims.len() + closure.claim_ids.len()
            &&& store.views.len() == after.views.len() + closure.view_ids.len()
        }),
{
    let closure = privacy_closure(store, roots);
    let nodes = purge_reach(store, roots);
    let gone = closure.events.map_values(event_id());
    let reached = event_reached(nodes);
    assert forall|i: int| 0 <= i < store.events.len() implies (event_kept(gone))(
        #[trigger] store.events[i],
    ) == !reached(store.events[i]) by {
        selected_ids(store.events, reached, event_id(), store.events[i].id);
        if reached(store.events[i]) {
            assert((event_id())(store.events[i]) == store.events[i].id);
        }
    }
    kept_and_removed_are_all(store.events, event_kept(gone), reached);
    let rests = rests_on(store.observation_sources, gone);
    assert forall|i: int| 0 <= i < store.observations.len() implies (observation_kept(
        closure.observation_ids,
    ))(#[trigger] store.observations[i]) == !rests(store.observations[i]) by {
        selected_ids(store.observations, rests, observation_ids(), store.observations[i].id);
        if rests(store.observations[i]) {
            assert((observation_ids())(store.observations[i]) == store.observations[i].id);
        }
    }
    kept_and_removed_are_all(
        store.observations,
        observation_kept(closure.observation_ids),
        rests,
    );
    let touched = claim_reached(nodes);
    assert forall|i: int| 0 <= i < store.claims.len() implies (claim_kept(closure.claim_ids))(
        #[trigger] store.claims[i],
    ) == !touched(store.claims[i]) by {
        selected_ids(store.claims, touched, claim_ids(), store.claims[i].id);
        if touched(store.claims[i]) {
            assert((claim_ids())(store.claims[i]) == store.claims[i].id);
        }
    }
    kept_and_removed_are_all(store.claims, claim_kept(closure.claim_ids), touched);
    let built = view_reached(view_reach(store.views, closure.direct_view_ids));
    assert forall|i: int| 0 <= i < store.views.len() implies (view_kept(closure.view_ids))(
        #[trigger] store.views[i],
    ) == !built(store.views[i]) by {
        selected_ids(store.views, built, view_ids(), store.views[i].view.id);
        if built(store.views[i]) {
            assert((view_ids())(store.views[i]) == store.views[i].view.id);
        }
    }
    kept_and_removed_are_all(store.views, view_kept(closure.view_ids), built);
}

/// Whether a run covers an event that is no longer there.
pub open spec fn lost_evidence(
    store: MemoryStoreModel,
    after: MemoryStoreModel,
    run: RunRowModel,
) -> bool {
    exists|e: int|
        0 <= e < store.events.len() && (#[trigger] store.events[e]).stream_id == run.stream_id
            && run.from_sequence <= store.events[e].sequence <= run.to_sequence && !holds(
            after.events,
            store.events[e].id,
        )
}

/// Whether some events hold one with an identifier.
pub open spec fn holds(events: Seq<MemoryEventModel>, id: Text) -> bool {
    exists|k: int| 0 <= k < events.len() && (#[trigger] events[k]).id == id
}

/// The report of an event purge is true: it names the event with its stream and number, counts the
/// observations and claims that are gone, names as many views as are gone, and names exactly the
/// runs that lost evidence.
pub proof fn event_purge_reports_its_extent(
    store: MemoryStoreModel,
    id: Text,
    key: Text,
    stamp: StampModel,
)
    requires
        purge_event_step(store, id, key, stamp).1 matches Ok(done) && !done.replayed,
        store.events.len() <= usize::MAX,
        store.observations.len() <= usize::MAX,
        store.claims.len() <= usize::MAX,
    ensures
        ({
            let (after, answer) = purge_event_step(store, id, key, stamp);
            let done = answer->Ok_0.data;
            &&& done.id == id
            &&& exists|e: int|
                0 <= e < store.events.len() && (#[trigger] store.events[e]).id == id
                    && store.events[e].stream_id == done.stream_id && store.events[e].sequence
                    == done.sequence
            &&& !holds(after.events, id)
            &&& store.observations.len() == after.observations.len() + done.dependent_observations
            &&& store.claims.len() == after.claims.len() + done.dependent_claims
            &&& store.views.len() == after.views.len() + done.dependent_view_ids.len()
            &&& forall|r: int|
                0 <= r < store.runs.len() && lost_evidence(
                    store,
                    after,
                    #[trigger] store.runs[r],
                ) ==> done.affected_run_ids.contains(store.runs[r].id)
            &&& forall|run_id: Text|
                #[trigger] done.affected_run_ids.contains(run_id) ==> exists|r: int|
                    0 <= r < store.runs.len() && (#[trigger] store.runs[r]).id == run_id
                        && lost_evidence(store, after, store.runs[r])
        }),
{
    let (after, answer) = purge_event_step(store, id, key, stamp);
    let done = answer->Ok_0.data;
    let roots = seq![event_node(id)];
    let closure = privacy_closure(store, roots);
    let nodes = purge_reach(store, roots);
    let reached = event_reached(nodes);
    let gone = closure.events.map_values(event_id());
    purge_counts(store, roots, stamp.at);
    first_where_found(store.events, event_named(id));
    let event = event_at(store, id).unwrap();
    let at = choose|at: int| 0 <= at < store.events.len() && store.events[at] == event;
    assert(store.events[at].id == id);
    purge_reaches_its_root(store, event_node(id));
    assert forall|e: int| 0 <= e < store.events.len() implies holds(
        after.events,
        (#[trigger] store.events[e]).id,
    ) == !reached(store.events[e]) by {
        selected_ids(store.events, reached, event_id(), store.events[e].id);
        if reached(store.events[e]) {
            assert((event_id())(store.events[e]) == store.events[e].id);
            if holds(after.events, store.events[e].id) {
                let k = choose|k: int|
                    0 <= k < after.events.len() && (#[trigger] after.events[k]).id
                        == store.events[e].id;
                let m = filtered_position(store.events, event_kept(gone), k);
            }
        } else {
            if listed(gone, store.events[e].id) {
                let x = choose|x: int|
                    0 <= x < store.events.len() && (event_id())(#[trigger] store.events[x])
                        == store.events[e].id && reached(store.events[x]);
            }
            let k = kept_position(store.events, event_kept(gone), e);
            assert(after.events[k].id == store.events[e].id);
        }
    }
    ordered_rows(closure.view_ids, text_order());
    let covers = run_covers(closure.events);
    assert forall|r: int| 0 <= r < store.runs.len() implies covers(#[trigger] store.runs[r])
        == lost_evidence(store, after, store.runs[r]) by {
        let run = store.runs[r];
        if covers(run) {
            let i = choose|i: int|
                0 <= i < closure.events.len() && (#[trigger] closure.events[i]).stream_id
                    == run.stream_id && run.from_sequence <= closure.events[i].sequence
                    <= run.to_sequence;
            let e = filtered_position(store.events, reached, i);
            assert(!holds(after.events, store.events[e].id));
        }
        if lost_evidence(store, after, run) {
            let e = choose|e: int|
                0 <= e < store.events.len() && (#[trigger] store.events[e]).stream_id
                    == run.stream_id && run.from_sequence <= store.events[e].sequence
                    <= run.to_sequence && !holds(after.events, store.events[e].id);
            let i = kept_position(store.events, reached, e);
            assert(closure.events[i] == store.events[e]);
        }
    }
    assert forall|r: int|
        0 <= r < store.runs.len() && lost_evidence(
            store,
            after,
            #[trigger] store.runs[r],
        ) implies done.affected_run_ids.contains(store.runs[r].id) by {
        assert((run_ids())(store.runs[r]) == store.runs[r].id);
        selected_ids(store.runs, covers, run_ids(), store.runs[r].id);
        let k = choose|k: int|
            0 <= k < closure.affected_run_ids.len() && #[trigger] closure.affected_run_ids[k]
                == store.runs[r].id;
        assert(closure.affected_run_ids.contains(store.runs[r].id));
        ordered_contains(closure.affected_run_ids, text_order(), store.runs[r].id);
    }
    assert forall|run_id: Text| #[trigger] done.affected_run_ids.contains(run_id) implies exists|
        r: int,
    |
        0 <= r < store.runs.len() && (#[trigger] store.runs[r]).id == run_id && lost_evidence(
            store,
            after,
            store.runs[r],
        ) by {
        ordered_contains(closure.affected_run_ids, text_order(), run_id);
        let k = choose|k: int|
            0 <= k < closure.affected_run_ids.len() && closure.affected_run_ids[k] == run_id;
        assert(listed(closure.affected_run_ids, run_id));
        selected_ids(store.runs, covers, run_ids(), run_id);
        let r = choose|r: int|
            0 <= r < store.runs.len() && (run_ids())(#[trigger] store.runs[r]) == run_id && covers(
                store.runs[r],
            );
        assert(store.runs[r].id == run_id);
    }
}

/// The report of a claim purge is true: it names the claim and counts the events that are gone.
pub proof fn claim_purge_reports_its_extent(
    store: MemoryStoreModel,
    id: Text,
    key: Text,
    stamp: StampModel,
)
    requires
        purge_claim_step(store, id, key, stamp).1 matches Ok(done) && !done.replayed,
        store.events.len() <= usize::MAX,
    ensures
        ({
            let (after, answer) = purge_claim_step(store, id, key, stamp);
            let done = answer->Ok_0.data;
            &&& done.id == id
            &&& store.events.len() == after.events.len() + done.purged_command_events
        }),
{
    purge_counts(store, seq![claim_node(id)], stamp.at);
}

/// A purge leaves what it does not concern: the scopes and the streams, every observation that
/// rests on no removed event, every link between records that stay, every row of the index of a
/// record that stays, and the slot of every claim that stays.
pub proof fn purge_leaves_the_rest(store: MemoryStoreModel, roots: Seq<NodeModel>, at: Text)
    ensures
        ({
            let closure = privacy_closure(store, roots);
            let after = purged_store(store, closure, at);
            &&& after.scopes == store.scopes
            &&& after.streams == store.streams
            &&& forall|o: int|
                0 <= o < store.observations.len() && (forall|link: LinkModel|
                    store.observation_sources.contains(link) && link.holder_id
                        == store.observations[o].id ==> !purge_reach(store, roots).contains(
                        event_node(#[trigger] link.source_id),
                    )) ==> after.observations.contains(#[trigger] store.observations[o])
            &&& forall|link: LinkModel|
                #[trigger] after.claim_sources.contains(link) <==> store.claim_sources.contains(
                    link,
                ) && !listed(closure.claim_ids, link.holder_id) && !listed(
                    closure.events.map_values(event_id()),
                    link.source_id,
                )
            &&& forall|link: LinkModel|
                #[trigger] after.observation_sources.contains(link)
                    <==> store.observation_sources.contains(link) && !listed(
                    closure.observation_ids,
                    link.holder_id,
                ) && !listed(closure.events.map_values(event_id()), link.source_id)
            &&& forall|row: IndexRowModel|
                #[trigger] after.index.contains(row) <==> store.index.contains(row) && !(
                row.record_type == "claim"@ && listed(closure.claim_ids, row.record_id)) && !(
                row.record_type == "observation"@ && listed(
                    closure.observation_ids,
                    row.record_id,
                )) && !(row.record_type == "event"@ && listed(
                    closure.events.map_values(event_id()),
                    row.record_id,
                ))
            &&& forall|s: int, c: int|
                0 <= s < store.claim_slots.len() && 0 <= c < store.claims.len() && !listed(
                    closure.claim_ids,
                    (#[trigger] store.claims[c]).id,
                ) && store.claims[c].scope_id == (#[trigger] store.claim_slots[s]).scope_id
                    && store.claims[c].kind == store.claim_slots[s].kind && store.claims[c].subject
                    == store.claim_slots[s].subject && store.claims[c].predicate
                    == store.claim_slots[s].predicate ==> after.claim_slots.contains(
                    store.claim_slots[s],
                )
        }),
{
    let closure = privacy_closure(store, roots);
    let after = purged_store(store, closure, at);
    let nodes = purge_reach(store, roots);
    let gone = closure.events.map_values(event_id());
    let rests = rests_on(store.observation_sources, gone);
    assert forall|o: int|
        0 <= o < store.observations.len() && (forall|link: LinkModel|
            store.observation_sources.contains(link) && link.holder_id == store.observations[o].id
                ==> !purge_reach(store, roots).contains(
                event_node(#[trigger] link.source_id),
            )) implies after.observations.contains(#[trigger] store.observations[o]) by {
        let id = store.observations[o].id;
        if listed(closure.observation_ids, id) {
            selected_ids(store.observations, rests, observation_ids(), id);
            let links = store.observation_sources;
            assert(linked_to(links, id, gone));
            let n = choose|n: int|
                0 <= n < links.len() && (#[trigger] links[n]).holder_id == id && listed(
                    gone,
                    links[n].source_id,
                );
            assert(links.contains(links[n]));
            selected_ids(store.events, event_reached(nodes), event_id(), links[n].source_id);
            assert(nodes.contains(event_node(links[n].source_id)));
        }
        let keep = observation_kept(closure.observation_ids);
        let k = kept_position(store.observations, keep, o);
        assert(after.observations[k] == store.observations[o]);
    }
    assert forall|link: LinkModel|
        #[trigger] after.claim_sources.contains(link) <==> store.claim_sources.contains(link)
            && !listed(closure.claim_ids, link.holder_id) && !listed(gone, link.source_id) by {
        filter_holds(store.claim_sources, link_kept(closure.claim_ids, gone), link);
    }
    assert forall|link: LinkModel|
        #[trigger] after.observation_sources.contains(link) <==> store.observation_sources.contains(
            link,
        ) && !listed(closure.observation_ids, link.holder_id) && !listed(gone, link.source_id) by {
        filter_holds(store.observation_sources, link_kept(closure.observation_ids, gone), link);
    }
    assert forall|row: IndexRowModel|
        #[trigger] after.index.contains(row) <==> store.index.contains(row) && !(row.record_type
            == "claim"@ && listed(closure.claim_ids, row.record_id)) && !(row.record_type
            == "observation"@ && listed(closure.observation_ids, row.record_id)) && !(
        row.record_type == "event"@ && listed(gone, row.record_id)) by {
        filter_holds(store.index, index_kept(closure), row);
    }
    assert forall|s: int, c: int|
        0 <= s < store.claim_slots.len() && 0 <= c < store.claims.len() && !listed(
            closure.claim_ids,
            (#[trigger] store.claims[c]).id,
        ) && store.claims[c].scope_id == (#[trigger] store.claim_slots[s]).scope_id
            && store.claims[c].kind == store.claim_slots[s].kind && store.claims[c].subject
            == store.claim_slots[s].subject && store.claims[c].predicate
            == store.claim_slots[s].predicate implies after.claim_slots.contains(
        store.claim_slots[s],
    ) by {
        let keep = slot_kept(store.claims, closure.claim_ids);
        assert(store.claim_slots.contains(store.claim_slots[s]));
        filter_holds(store.claim_slots, keep, store.claim_slots[s]);
    }
}

proof fn filter_holds<V>(rows: Seq<V>, keep: spec_fn(V) -> bool, row: V)
    ensures
        rows.filter(keep).contains(row) <==> rows.contains(row) && keep(row),
{
    let some = rows.filter(keep);
    if some.contains(row) {
        let k = choose|k: int| 0 <= k < some.len() && some[k] == row;
        let at = filtered_position(rows, keep, k);
        assert(rows[at] == row);
    }
    if rows.contains(row) && keep(row) {
        let at = choose|at: int| 0 <= at < rows.len() && rows[at] == row;
        let k = kept_position(rows, keep, at);
        assert(some[k] == row);
    }
}

/// Whether a link ties a claim to an event.
pub open spec fn tied(store: MemoryStoreModel, claim_id: Text, event_id: Text) -> bool {
    store.claim_sources.contains(LinkModel { holder_id: claim_id, source_id: event_id })
}

/// Whether there is a reason for a purge to reach a node: it is a root, or a claim that rests on an
/// event that is reached, or an event that was generated to record a command on a claim that is
/// reached and owns it.
pub open spec fn is_due(
    store: MemoryStoreModel,
    roots: Seq<NodeModel>,
    node: NodeModel,
) -> bool {
    ||| roots.contains(node)
    ||| node.claim && exists|event_id: Text| #[trigger]
        tied(store, node.id, event_id) && purge_reach(store, roots).contains(event_node(event_id))
    ||| !node.claim && exists|claim_id: Text| #[trigger]
        tied(store, claim_id, node.id) && purge_reach(store, roots).contains(claim_node(claim_id))
            && owned_command(store, node.id, claim_id)
}

/// Whether an event records a command that was generated for a claim: it is a memory command whose
/// metadata name the kernel and the claim.
pub open spec fn owned_command(store: MemoryStoreModel, event_id: Text, claim_id: Text) -> bool {
    exists|e: int|
        0 <= e < store.events.len() && (#[trigger] store.events[e]).id == event_id
            && store.events[e].kind is MemoryCommand && json_text_field(
            store.events[e].metadata,
            "generatedBy"@,
        ) == Some("omk"@) && json_text_field(store.events[e].metadata, "ownerClaimId"@) == Some(
            claim_id,
        )
}

proof fn edges_have_reasons(store: MemoryStoreModel, links: Seq<LinkModel>, k: int)
    requires
        0 <= k < purge_edges(store, links).len(),
    ensures
        ({
            let edge = purge_edges(store, links)[k];
            if edge.to.claim {
                !edge.from.claim && links.contains(
                    LinkModel { holder_id: edge.to.id, source_id: edge.from.id },
                )
            } else {
                edge.from.claim && links.contains(
                    LinkModel { holder_id: edge.from.id, source_id: edge.to.id },
                ) && owned_command(store, edge.to.id, edge.from.id)
            }
        }),
    decreases links.len(),
{
    if links.len() > 0 {
        let front = links.drop_last();
        let before = purge_edges(store, front);
        let all = purge_edges(store, links);
        let link = links.last();
        assert(links[links.len() - 1] == link);
        assert(links.contains(link));
        first_where_found(store.events, event_named(link.source_id));
        if k < before.len() {
            edges_have_reasons(store, front, k);
            assert(all[k] == before[k]);
            let edge = all[k];
            let inner = if edge.to.claim {
                LinkModel { holder_id: edge.to.id, source_id: edge.from.id }
            } else {
                LinkModel { holder_id: edge.from.id, source_id: edge.to.id }
            };
            let n = choose|n: int| 0 <= n < front.len() && front[n] == inner;
            assert(links[n] == inner);
        } else {
            let event = event_at(store, link.source_id).unwrap();
            let e = choose|e: int| 0 <= e < store.events.len() && store.events[e] == event;
            assert(store.events[e].id == link.source_id);
        }
    }
}

/// A purge reaches no further than it has to: every event and every claim that it reaches is a root
/// or has a reason to be reached.
pub proof fn purge_reaches_no_further(
    store: MemoryStoreModel,
    roots: Seq<NodeModel>,
    node: NodeModel,
)
    requires
        purge_reach(store, roots).contains(node),
    ensures
        is_due(store, roots, node),
{
    let edges = purge_edges(store, store.claim_sources);
    let reach = purge_reach(store, roots);
    let due = Set::new(|n: NodeModel| reach.contains(n) && is_due(store, roots, n));
    assert forall|k: int|
        0 <= k < edges.len() && due.contains((#[trigger] edges[k]).from) implies due.contains(
        edges[k].to,
    ) by {
        let edge = edges[k];
        edges_have_reasons(store, store.claim_sources, k);
        reached_along(edges, roots, k);
        assert(reach.contains(edge.to));
        if edge.to.claim {
            assert(edge.from == event_node(edge.from.id));
            assert(tied(store, edge.to.id, edge.from.id));
        } else {
            assert(edge.from == claim_node(edge.from.id));
            assert(tied(store, edge.from.id, edge.to.id));
        }
    }
    assert forall|i: int| 0 <= i < roots.len() implies due.contains(#[trigger] roots[i]) by {
        roots_are_reached(edges, roots, i);
        assert(roots.contains(roots[i]));
    }
    assert(closed_under(edges, due));
    assert(holds_all(due, roots));
    assert(reaches(edges, roots, node));
    assert(due.contains(node));
}

/// A view that a purge removes takes in a removed event of its stream and scope, represents a
/// removed observation, or was built on a view that is removed.
pub proof fn removed_views_have_reasons(
    store: MemoryStoreModel,
    roots: Seq<NodeModel>,
    v: int,
)
    requires
        0 <= v < store.views.len(),
        listed(privacy_closure(store, roots).view_ids, store.views[v].view.id),
        forall|a: int, b: int|
            0 <= a < b < store.views.len() ==> (#[trigger] store.views[a]).view.id != (
            #[trigger] store.views[b]).view.id,
    ensures
        ({
            let closure = privacy_closure(store, roots);
            let view = store.views[v].view;
            ||| exists|e: int|
                0 <= e < store.events.len() && (#[trigger] store.events[e]).scope_id
                    == view.scope_id && store.events[e].stream_id == view.stream_id
                    && view.source_from_sequence <= store.events[e].sequence
                    <= view.source_through_sequence && purge_reach(store, roots).contains(
                    event_node(store.events[e].id),
                )
            ||| exists|n: int|
                0 <= n < store.view_sources.len() && (#[trigger] store.view_sources[n]).holder_id
                    == view.id && listed(closure.observation_ids, store.view_sources[n].source_id)
            ||| view.previous_view_id matches Some(id) && reached_view(store, roots, id)
        }),
{
    let closure = privacy_closure(store, roots);
    let view = store.views[v].view;
    let starts = closure.direct_view_ids.map_values(view_node());
    let edges = view_edges(store.views);
    let reach = view_reach(store.views, closure.direct_view_ids);
    let built = view_reached(reach);
    selected_ids(store.views, built, view_ids(), view.id);
    let x = choose|x: int|
        0 <= x < store.views.len() && (view_ids())(#[trigger] store.views[x]) == view.id && built(
            store.views[x],
        );
    assert(reach.contains(event_node(view.id)));
    let due = Set::new(
        |n: NodeModel|
            reach.contains(n) && (starts.contains(n) || exists|k: int|
                0 <= k < store.views.len() && event_node((#[trigger] store.views[k]).view.id) == n
                    && (store.views[k].view.previous_view_id matches Some(id) && reach.contains(
                    event_node(id),
                ))),
    );
    assert forall|k: int|
        0 <= k < edges.len() && due.contains((#[trigger] edges[k]).from) implies due.contains(
        edges[k].to,
    ) by {
        reached_along(edges, starts, k);
        view_edges_have_reasons(store.views, k);
        let n = choose|n: int|
            0 <= n < store.views.len() && edges[k].to == event_node(
                (#[trigger] store.views[n]).view.id,
            ) && (store.views[n].view.previous_view_id matches Some(id) && edges[k].from
                == event_node(id));
        assert(event_node(store.views[n].view.id) == edges[k].to);
    }
    assert forall|i: int| 0 <= i < starts.len() implies due.contains(#[trigger] starts[i]) by {
        roots_are_reached(edges, starts, i);
        assert(starts.contains(starts[i]));
    }
    assert(closed_under(edges, due));
    assert(holds_all(due, starts));
    assert(due.contains(event_node(view.id)));
    if starts.contains(event_node(view.id)) {
        let s = choose|s: int| 0 <= s < starts.len() && starts[s] == event_node(view.id);
        assert(closure.direct_view_ids[s] == view.id);
        assert(listed(closure.direct_view_ids, view.id));
        let direct = view_direct(store.view_sources, closure.events, closure.observation_ids);
        selected_ids(store.views, direct, view_ids(), view.id);
        let y = choose|y: int|
            0 <= y < store.views.len() && (view_ids())(#[trigger] store.views[y]) == view.id
                && direct(store.views[y]);
        if y < v {
            assert(store.views[y].view.id != store.views[v].view.id);
        } else if v < y {
            assert(store.views[v].view.id != store.views[y].view.id);
        }
        if view_covers(store.views[v], closure.events) {
            let events = closure.events;
            let i = choose|i: int|
                0 <= i < events.len() && (#[trigger] events[i]).scope_id == view.scope_id
                    && events[i].stream_id == view.stream_id && view.source_from_sequence
                    <= events[i].sequence <= view.source_through_sequence;
            let reached = event_reached(purge_reach(store, roots));
            let e = filtered_position(store.events, reached, i);
            assert(store.events[e] == events[i]);
        }
    } else {
        let k = choose|k: int|
            0 <= k < store.views.len() && event_node((#[trigger] store.views[k]).view.id)
                == event_node(view.id) && (store.views[k].view.previous_view_id matches Some(id)
                && reach.contains(event_node(id)));
        assert(store.views[k].view.id == view.id);
        if k < v {
            assert(store.views[k].view.id != store.views[v].view.id);
        } else if v < k {
            assert(store.views[v].view.id != store.views[k].view.id);
        }
    }
}

/// Whether the spread of a purge over views reaches an identifier.
pub open spec fn reached_view(store: MemoryStoreModel, roots: Seq<NodeModel>, id: Text) -> bool {
    view_reach(store.views, privacy_closure(store, roots).direct_view_ids).contains(event_node(id))
}

proof fn view_edges_have_reasons(views: Seq<ViewRowModel>, k: int)
    requires
        0 <= k < view_edges(views).len(),
    ensures
        exists|n: int|
            0 <= n < views.len() && view_edges(views)[k].to == event_node(
                (#[trigger] views[n]).view.id,
            ) && (views[n].view.previous_view_id matches Some(id) && view_edges(views)[k].from
                == event_node(id)),
    decreases views.len(),
{
    if views.len() > 0 {
        let front = views.drop_last();
        let before = view_edges(front);
        if k < before.len() {
            view_edges_have_reasons(front, k);
            let n = choose|n: int|
                0 <= n < front.len() && before[k].to == event_node((#[trigger] front[n]).view.id)
                    && (front[n].view.previous_view_id matches Some(id) && before[k].from
                    == event_node(id));
            assert(views[n] == front[n]);
            assert(view_edges(views)[k] == before[k]);
        } else {
            assert(views[views.len() - 1] == views.last());
        }
    }
}

/// An observation is removed by a purge exactly where it rests on a removed event, and a run that
/// was pending says why it cannot be committed any more.
pub proof fn purge_removes_what_rested_on_it(
    store: MemoryStoreModel,
    roots: Seq<NodeModel>,
    at: Text,
    o: int,
    r: int,
)
    requires
        0 <= o < store.observations.len(),
        0 <= r < store.runs.len(),
    ensures
        ({
            let closure = privacy_closure(store, roots);
            let after = purged_store(store, closure, at);
            let run = after.runs[r];
            &&& listed(closure.observation_ids, store.observations[o].id) <==> exists|n: int|
                0 <= n < store.observation_sources.len() && (
                #[trigger] store.observation_sources[n]).holder_id == store.observations[o].id
                    && listed(
                    closure.events.map_values(event_id()),
                    store.observation_sources[n].source_id,
                )
            &&& run.source_integrity is PrivacyPurged && store.runs[r].source_integrity is Intact
                && store.runs[r].status is Pending ==> run.status is Stale && run.error == Some(
                "source evidence privacy-purged"@,
            )
            &&& !(store.runs[r].status is Pending) ==> run.status == store.runs[r].status
                && run.error == store.runs[r].error
        }),
{
    let closure = privacy_closure(store, roots);
    let gone = closure.events.map_values(event_id());
    let rests = rests_on(store.observation_sources, gone);
    let id = store.observations[o].id;
    selected_ids(store.observations, rests, observation_ids(), id);
    if linked_to(store.observation_sources, id, gone) {
        assert(rests(store.observations[o]));
        assert((observation_ids())(store.observations[o]) == id);
    }
}

/// A result that mentions nothing that is purged stays recorded, and one that does is dropped
/// together with the hash of its request, while its key stays in use.
pub proof fn purge_drops_only_what_mentions_it(
    store: MemoryStoreModel,
    roots: Seq<NodeModel>,
    at: Text,
    o: int,
)
    requires
        0 <= o < store.operations.len(),
    ensures
        ({
            let closure = privacy_closure(store, roots);
            let after = purged_store(store, closure, at);
            let ids = closure.claim_ids + closure.observation_ids + closure.view_ids
                + closure.events.map_values(event_id());
            let row = store.operations[o];
            let named = row.result matches Some(result) && exists|i: int|
                0 <= i < ids.len() && <StoredResult as Mentions>::mentioned(
                    result,
                    #[trigger] ids[i],
                );
            &&& after.operations.len() == store.operations.len()
            &&& !named ==> after.operations[o] == row
            &&& named ==> after.operations[o] == (OperationRowModel {
                request_hash: None,
                result: None,
                ..row
            })
        }),
{
}

proof fn texts_hold_themselves(text: Text)
    ensures
        occurs(text, text),
{
    assert(text.subrange(0, text.len() as int) =~= text);
    assert(occurs_at(text, text, 0));
}

/// The stored result of a request mentions the records that it is about: an event, a claim or a
/// view itself, the events and claims of a plan, and the observations, the claims and the view of a
/// commit.
pub proof fn results_mention_their_records(
    event: MemoryEventModel,
    claim: ClaimModel,
    view: MemoryViewModel,
    plan: ObservationPlanModel,
    next_action: Text,
    commit: ObservationCommitModel,
    i: int,
)
    ensures
        <StoredResult as Mentions>::mentioned(StoredResultModel::Event(event), event.id),
        <StoredResult as Mentions>::mentioned(StoredResultModel::Claim(claim), claim.id),
        <StoredResult as Mentions>::mentioned(StoredResultModel::View(view), view.id),
        0 <= i < plan.events.len() ==> <StoredResult as Mentions>::mentioned(
            StoredResultModel::Plan(ObservationPlanOutcomeModel::Ready { plan, next_action }),
            plan.events[i].id,
        ),
        0 <= i < plan.active_claims.len() ==> <StoredResult as Mentions>::mentioned(
            StoredResultModel::Plan(ObservationPlanOutcomeModel::Ready { plan, next_action }),
            plan.active_claims[i].id,
        ),
        plan.previous_continuation matches Some(previous) ==> <StoredResult as Mentions>::mentioned(
            StoredResultModel::Plan(ObservationPlanOutcomeModel::Ready { plan, next_action }),
            previous.id,
        ),
        0 <= i < commit.observations.len() ==> <StoredResult as Mentions>::mentioned(
            StoredResultModel::Commit(commit),
            commit.observations[i].id,
        ),
        0 <= i < commit.claims.len() ==> <StoredResult as Mentions>::mentioned(
            StoredResultModel::Commit(commit),
            commit.claims[i].id,
        ),
        <StoredResult as Mentions>::mentioned(
            StoredResultModel::Commit(commit),
            commit.continuation_view.id,
        ),
        0 <= i < commit.ambiguities.len() ==> forall|k: int|
            0 <= k < commit.ambiguities[i].source_event_ids.len() ==> <StoredResult as Mentions>::mentioned(
                StoredResultModel::Commit(commit),
                #[trigger] commit.ambiguities[i].source_event_ids[k],
            ),
{
    texts_hold_themselves(event.id);
    texts_hold_themselves(claim.id);
    texts_hold_themselves(view.id);
    texts_hold_themselves(commit.continuation_view.id);
    if 0 <= i < plan.events.len() {
        texts_hold_themselves(plan.events[i].id);
        assert(<MemoryEvent as Mentions>::mentioned(plan.events[i], plan.events[i].id));
    }
    if 0 <= i < plan.active_claims.len() {
        texts_hold_themselves(plan.active_claims[i].id);
        assert(<Claim as Mentions>::mentioned(plan.active_claims[i], plan.active_claims[i].id));
    }
    if let Some(previous) = plan.previous_continuation {
        texts_hold_themselves(previous.id);
    }
    if 0 <= i < commit.observations.len() {
        texts_hold_themselves(commit.observations[i].id);
        assert(<Observation as Mentions>::mentioned(
            commit.observations[i],
            commit.observations[i].id,
        ));
    }
    if 0 <= i < commit.claims.len() {
        texts_hold_themselves(commit.claims[i].id);
        assert(<Claim as Mentions>::mentioned(commit.claims[i], commit.claims[i].id));
    }
    if 0 <= i < commit.ambiguities.len() {
        let draft = commit.ambiguities[i];
        assert forall|k: int|
            0 <= k < draft.source_event_ids.len() implies <StoredResult as Mentions>::mentioned(
            StoredResultModel::Commit(commit),
            #[trigger] draft.source_event_ids[k],
        ) by {
            let id = draft.source_event_ids[k];
            texts_hold_themselves(id);
            assert(<String as Mentions>::mentioned(draft.source_event_ids[k], id));
            assert(<AmbiguityDraft as Mentions>::mentioned(commit.ambiguities[i], id));
        }
    }
}

/// Whether some claims hold one with an identifier.
pub open spec fn holds_claim(claims: Seq<ClaimModel>, id: Text) -> bool {
    exists|k: int| 0 <= k < claims.len() && (#[trigger] claims[k]).id == id
}

/// Whether a claim that is no longer there rested on a command that was generated for it.
pub open spec fn lost_its_command(
    store: MemoryStoreModel,
    after: MemoryStoreModel,
    claim: ClaimModel,
    event: MemoryEventModel,
) -> bool {
    &&& !holds_claim(after.claims, claim.id)
    &&& tied(store, claim.id, event.id)
    &&& event.kind is MemoryCommand
    &&& json_text_field(event.metadata, "generatedBy"@) == Some("omk"@)
    &&& json_text_field(event.metadata, "ownerClaimId"@) == Some(claim.id)
}

/// The events that recorded commands on claims that are no longer there.
pub open spec fn lost_commands(store: MemoryStoreModel, after: MemoryStoreModel) -> spec_fn(
    MemoryEventModel,
) -> bool {
    |event: MemoryEventModel|
        exists|c: int|
            0 <= c < store.claims.len() && lost_its_command(
                store,
                after,
                #[trigger] store.claims[c],
                event,
            )
}

proof fn same_choice_is_as_long<V>(
    rows: Seq<V>,
    left: spec_fn(V) -> bool,
    right: spec_fn(V) -> bool,
)
    requires
        forall|i: int| 0 <= i < rows.len() ==> left(#[trigger] rows[i]) == right(rows[i]),
    ensures
        rows.filter(left).len() == rows.filter(right).len(),
    decreases rows.len(),
{
    reveal(Seq::filter);
    if rows.len() > 0 {
        let front = rows.drop_last();
        assert forall|i: int| 0 <= i < front.len() implies left(#[trigger] front[i]) == right(
            front[i],
        ) by {
            assert(front[i] == rows[i]);
        }
        same_choice_is_as_long(front, left, right);
        assert(rows[rows.len() - 1] == rows.last());
    }
}

/// An event purge counts the commands that were generated for the claims that it removes.
pub proof fn event_purge_counts_commands(
    store: MemoryStoreModel,
    id: Text,
    key: Text,
    stamp: StampModel,
)
    requires
        purge_event_step(store, id, key, stamp).1 matches Ok(done) && !done.replayed,
        store.events.len() <= usize::MAX,
    ensures
        ({
            let (after, answer) = purge_event_step(store, id, key, stamp);
            answer->Ok_0.data.purged_command_events == store.events.filter(
                lost_commands(store, after),
            ).len()
        }),
{
    let (after, answer) = purge_event_step(store, id, key, stamp);
    let roots = seq![event_node(id)];
    let closure = privacy_closure(store, roots);
    let touched = claim_reached(purge_reach(store, roots));
    let links = store.claim_sources;
    let counted = generated_among(links, closure.claim_ids);
    let lost = lost_commands(store, after);
    assert forall|c: int| 0 <= c < store.claims.len() implies listed(
        closure.claim_ids,
        (#[trigger] store.claims[c]).id,
    ) == !holds_claim(after.claims, store.claims[c].id) by {
        let claim = store.claims[c];
        let kept = store.claims.filter(claim_kept(closure.claim_ids));
        if !listed(closure.claim_ids, claim.id) {
            let k = kept_position(store.claims, claim_kept(closure.claim_ids), c);
            assert(after.claims[k].id == kept[k].id);
        }
        if holds_claim(after.claims, claim.id) {
            let k = choose|k: int|
                0 <= k < after.claims.len() && (#[trigger] after.claims[k]).id == claim.id;
            assert(after.claims[k].id == kept[k].id);
            let m = filtered_position(store.claims, claim_kept(closure.claim_ids), k);
        }
    }
    assert forall|e: int| 0 <= e < store.events.len() implies counted(#[trigger] store.events[e])
        == lost(store.events[e]) by {
        let event = store.events[e];
        if counted(event) {
            let i = choose|i: int|
                0 <= i < links.len() && (#[trigger] links[i]).source_id == event.id && listed(
                    closure.claim_ids,
                    links[i].holder_id,
                ) && generated_for(event, links[i].holder_id);
            selected_ids(store.claims, touched, claim_ids(), links[i].holder_id);
            let c = choose|c: int|
                0 <= c < store.claims.len() && (claim_ids())(#[trigger] store.claims[c])
                    == links[i].holder_id && touched(store.claims[c]);
            assert(links.contains(links[i]));
            assert(links[i] == (LinkModel {
                holder_id: store.claims[c].id,
                source_id: event.id,
            }));
            assert(lost_its_command(store, after, store.claims[c], event));
        }
        if lost(event) {
            let c = choose|c: int|
                0 <= c < store.claims.len() && lost_its_command(
                    store,
                    after,
                    #[trigger] store.claims[c],
                    event,
                );
            let link = LinkModel { holder_id: store.claims[c].id, source_id: event.id };
            let i = choose|i: int| 0 <= i < links.len() && links[i] == link;
            assert(links[i].source_id == event.id);
        }
    }
    same_choice_is_as_long(store.events, counted, lost);
    kept_and_removed_are_all(
        store.events,
        |event: MemoryEventModel| !lost(event),
        lost,
    );
}

} // verus!
