//! Laws of scopes: the hierarchy is sound, and memory is read along it only.

use vstd::prelude::*;

use crate::graph::{closed_under, holds_all, reached_along, roots_are_reached};
use crate::model::ScopeModel;
use crate::row::{EdgeModel, MemoryStoreModel, NodeModel};
use crate::scope::{
    climbed, descends, readable_from, scope_at, scope_edges, scope_exists, scope_named, scope_node,
    visible_scopes,
};
use crate::stamp::StampModel;
use crate::store::empty_store;
use crate::table::{first_where_at, first_where_found, some_row};
use crate::text::{listed, Text};
use crate::transition::{step, Request};

verus! {

/// Whether the hierarchy is sound: identifiers are unique, and every parent was created earlier.
pub open spec fn hierarchy_sound(scopes: Seq<ScopeModel>) -> bool {
    &&& forall|i: int, j: int|
        0 <= i < j < scopes.len() ==> (#[trigger] scopes[i]).id != (#[trigger] scopes[j]).id
    &&& forall|i: int|
        0 <= i < scopes.len() ==> ((#[trigger] scopes[i]).parent_id matches Some(parent)
            ==> created_before(scopes, parent, i))
}

/// Whether a scope stands before a position.
pub open spec fn created_before(scopes: Seq<ScopeModel>, id: Text, before: int) -> bool {
    exists|k: int| 0 <= k < before && k < scopes.len() && (#[trigger] scopes[k]).id == id
}

/// An empty hierarchy is sound.
pub proof fn hierarchy_starts_sound()
    ensures
        hierarchy_sound(empty_store().scopes),
{
}

proof fn reconciling_keeps_scopes(store: MemoryStoreModel, pending: Seq<crate::model::ClaimModel>, at: Text)
    ensures
        crate::claim::reconcile_all(store, pending, at) matches Ok((done, _)) ==> done.scopes
            == store.scopes,
    decreases pending.len(),
{
    if pending.len() > 0 {
        reconciling_keeps_scopes(store, pending.drop_last(), at);
    }
}

proof fn observing_keeps_scopes(
    store: MemoryStoreModel,
    made: Seq<crate::model::ObservationModel>,
    drafts: Seq<crate::model::ObservationDraftModel>,
)
    ensures
        crate::observation::with_observations(store, made, drafts).scopes == store.scopes,
    decreases made.len(),
{
    if made.len() > 0 && drafts.len() > 0 {
        observing_keeps_scopes(store, made.drop_last(), drafts.drop_last());
    }
}

proof fn drafting_keeps_scopes(
    store: MemoryStoreModel,
    made: Seq<crate::model::ClaimModel>,
    drafts: Seq<crate::model::ClaimDraftModel>,
)
    ensures
        crate::observation::with_drafted(store, made, drafts).scopes == store.scopes,
    decreases made.len(),
{
    if made.len() > 0 && drafts.len() > 0 {
        drafting_keeps_scopes(store, made.drop_last(), drafts.drop_last());
    }
}

/// What the law `scope_table_changes` says of a request.
spec fn scopes_holds(store: MemoryStoreModel, request: Request, stamp: StampModel) -> bool {
    &&& ({
        let after = step(store, request, stamp).0.scopes;
        ||| after == store.scopes
        ||| {
            &&& after == store.scopes.push(after.last())
            &&& !some_row(store.scopes, scope_named(after.last().id))
            &&& after.last().parent_id matches Some(parent) ==> some_row(
                store.scopes,
                scope_named(parent),
            )
        }
    })
}

proof fn scopes_create_scope(store: MemoryStoreModel, request: Request, stamp: StampModel)
    requires
        request is CreateScope,
    ensures
        scopes_holds(store, request, stamp),
{
    reveal(crate::transition::on_create_scope);
}

proof fn scopes_append_event(store: MemoryStoreModel, request: Request, stamp: StampModel)
    requires
        request is AppendEvent,
    ensures
        scopes_holds(store, request, stamp),
{
    reveal(crate::transition::on_append_event);
}

proof fn scopes_plan_observation(store: MemoryStoreModel, request: Request, stamp: StampModel)
    requires
        request is PlanObservation,
    ensures
        scopes_holds(store, request, stamp),
{
    reveal(crate::transition::on_plan_observation);
}

proof fn scopes_commit_observation(store: MemoryStoreModel, request: Request, stamp: StampModel)
    requires
        request is CommitObservation,
    ensures
        scopes_holds(store, request, stamp),
{
    reveal(crate::transition::on_commit_observation);
    if let Some(run) = crate::view::run_at(store, request->CommitObservation_run_id) {
        let result = request->CommitObservation_result;
        let sources = crate::event::events_between(
            store,
            run.stream_id,
            run.from_sequence as int,
            run.to_sequence as int,
        );
        let made = crate::observation::all_observed(
            run,
            sources,
            result.observations,
            stamp.ids,
            stamp.at,
        );
        let claims = crate::observation::all_drafted(
            run,
            result.claims,
            stamp.ids.skip(result.observations.len() as int),
            stamp.at,
        );
        observing_keeps_scopes(store, made, result.observations);
        drafting_keeps_scopes(
            crate::observation::with_observations(store, made, result.observations),
            claims,
            result.claims,
        );
    }
}

proof fn scopes_fail_observation(store: MemoryStoreModel, request: Request, stamp: StampModel)
    requires
        request is FailObservation,
    ensures
        scopes_holds(store, request, stamp),
{
    reveal(crate::transition::on_fail_observation);
}

proof fn scopes_state_claim(store: MemoryStoreModel, request: Request, stamp: StampModel)
    requires
        request is StateClaim,
    ensures
        scopes_holds(store, request, stamp),
{
    reveal(crate::transition::on_state_claim);
}

proof fn scopes_confirm_claim(store: MemoryStoreModel, request: Request, stamp: StampModel)
    requires
        request is ConfirmClaim,
    ensures
        scopes_holds(store, request, stamp),
{
    reveal(crate::transition::on_confirm_claim);
}

proof fn scopes_correct_claim(store: MemoryStoreModel, request: Request, stamp: StampModel)
    requires
        request is CorrectClaim,
    ensures
        scopes_holds(store, request, stamp),
{
    reveal(crate::transition::on_correct_claim);
}

proof fn scopes_rescope_claim(store: MemoryStoreModel, request: Request, stamp: StampModel)
    requires
        request is RescopeClaim,
    ensures
        scopes_holds(store, request, stamp),
{
    reveal(crate::transition::on_rescope_claim);
}

proof fn scopes_close_claim(store: MemoryStoreModel, request: Request, stamp: StampModel)
    requires
        request is CloseClaim,
    ensures
        scopes_holds(store, request, stamp),
{
    reveal(crate::transition::on_close_claim);
}

proof fn scopes_reconcile(store: MemoryStoreModel, request: Request, stamp: StampModel)
    requires
        request is Reconcile,
    ensures
        scopes_holds(store, request, stamp),
{
    reveal(crate::transition::on_reconcile);
    let pending = crate::claim_table::claims_in(
        store,
        seq![request->Reconcile_scope_id],
        Some(crate::kind::ClaimStatus::Pending),
    );
    reconciling_keeps_scopes(store, pending, stamp.at);
}

proof fn scopes_create_view(store: MemoryStoreModel, request: Request, stamp: StampModel)
    requires
        request is CreateView,
    ensures
        scopes_holds(store, request, stamp),
{
    reveal(crate::transition::on_create_view);
}

proof fn scopes_purge_claim(store: MemoryStoreModel, request: Request, stamp: StampModel)
    requires
        request is PurgeClaim,
    ensures
        scopes_holds(store, request, stamp),
{
    reveal(crate::transition::on_purge_claim);
}

proof fn scopes_purge_event(store: MemoryStoreModel, request: Request, stamp: StampModel)
    requires
        request is PurgeEvent,
    ensures
        scopes_holds(store, request, stamp),
{
    reveal(crate::transition::on_purge_event);
}

/// What a request does to scopes: nothing, or it adds one, with a new identifier and below a scope
/// that is there.
pub proof fn scope_table_changes(store: MemoryStoreModel, request: Request, stamp: StampModel)
    ensures
        ({
            let after = step(store, request, stamp).0.scopes;
            ||| after == store.scopes
            ||| {
                &&& after == store.scopes.push(after.last())
                &&& !some_row(store.scopes, scope_named(after.last().id))
                &&& after.last().parent_id matches Some(parent) ==> some_row(
                    store.scopes,
                    scope_named(parent),
                )
            }
        }),
{
    match request {
        Request::CreateScope { .. } => scopes_create_scope(store, request, stamp),
        Request::AppendEvent { .. } => scopes_append_event(store, request, stamp),
        Request::PlanObservation { .. } => scopes_plan_observation(store, request, stamp),
        Request::CommitObservation { .. } => scopes_commit_observation(store, request, stamp),
        Request::FailObservation { .. } => scopes_fail_observation(store, request, stamp),
        Request::StateClaim { .. } => scopes_state_claim(store, request, stamp),
        Request::ConfirmClaim { .. } => scopes_confirm_claim(store, request, stamp),
        Request::CorrectClaim { .. } => scopes_correct_claim(store, request, stamp),
        Request::RescopeClaim { .. } => scopes_rescope_claim(store, request, stamp),
        Request::CloseClaim { .. } => scopes_close_claim(store, request, stamp),
        Request::Reconcile { .. } => scopes_reconcile(store, request, stamp),
        Request::CreateView { .. } => scopes_create_view(store, request, stamp),
        Request::PurgeClaim { .. } => scopes_purge_claim(store, request, stamp),
        Request::PurgeEvent { .. } => scopes_purge_event(store, request, stamp),
    }
}

proof fn adding_scope_keeps_sound(scopes: Seq<ScopeModel>, scope: ScopeModel)
    requires
        hierarchy_sound(scopes),
        !some_row(scopes, scope_named(scope.id)),
        scope.parent_id matches Some(parent) ==> some_row(scopes, scope_named(parent)),
    ensures
        hierarchy_sound(scopes.push(scope)),
{
    let after = scopes.push(scope);
    assert forall|i: int, j: int| 0 <= i < j < after.len() implies (#[trigger] after[i]).id != (
    #[trigger] after[j]).id by {
        assert(after[i] == scopes[i]);
        assert(!(scope_named(scope.id))(scopes[i]));
    }
    assert forall|i: int| 0 <= i < after.len() implies ((#[trigger] after[i]).parent_id matches Some(
        parent,
    ) ==> created_before(after, parent, i)) by {
        if i < scopes.len() {
            assert(after[i] == scopes[i]);
            if let Some(parent) = scopes[i].parent_id {
                assert(created_before(scopes, parent, i));
                let k = choose|k: int|
                    0 <= k < i && k < scopes.len() && (#[trigger] scopes[k]).id == parent;
                assert(after[k].id == parent);
            }
        } else if let Some(parent) = scope.parent_id {
            let k = choose|k: int|
                0 <= k < scopes.len() && (scope_named(parent))(#[trigger] scopes[k]);
            assert(after[k].id == parent);
        }
    }
}

/// Every request keeps the hierarchy sound: scopes are only added, below ones that are there.
pub proof fn hierarchy_stays_sound(store: MemoryStoreModel, request: Request, stamp: StampModel)
    requires
        hierarchy_sound(store.scopes),
    ensures
        hierarchy_sound(step(store, request, stamp).0.scopes),
{
    scope_table_changes(store, request, stamp);
    let after = step(store, request, stamp).0.scopes;
    if after != store.scopes {
        adding_scope_keeps_sound(store.scopes, after.last());
    }
}

proof fn found_scope(scopes: Seq<ScopeModel>, i: int)
    requires
        hierarchy_sound(scopes),
        0 <= i < scopes.len(),
    ensures
        scope_at(scopes, scopes[i].id) == Some(scopes[i]),
{
    let id = scopes[i].id;
    assert forall|k: int| 0 <= k < i implies !(scope_named(id))(#[trigger] scopes[k]) by {
        assert(scopes[k].id != scopes[i].id);
    }
    first_where_at(scopes, scope_named(id), i);
}

/// A path up the hierarchy: each scope is the parent of the one before it.
pub open spec fn is_path_up(scopes: Seq<ScopeModel>, path: Seq<Text>) -> bool {
    &&& forall|i: int|
        0 <= i < path.len() ==> scope_at(scopes, #[trigger] path[i]) is Some
    &&& forall|i: int|
        0 <= i < path.len() - 1 ==> scope_at(scopes, #[trigger] path[i]).unwrap().parent_id == Some(
            path[i + 1],
        )
}

proof fn climbing_follows_parents(scopes: Seq<ScopeModel>, passed: Seq<Text>, id: Text)
    requires
        is_path_up(scopes, passed),
        passed.len() > 0 ==> scope_at(scopes, passed.last()).unwrap().parent_id == Some(id),
    ensures
        climbed(scopes, passed, id) matches Ok(path) ==> {
            &&& is_path_up(scopes, path)
            &&& path.len() > passed.len()
            &&& path.take(passed.len() as int) == passed
            &&& path[passed.len() as int] == id
            &&& scope_at(scopes, path.last()).unwrap().parent_id is None
        },
    decreases scopes.len() - passed.len(),
{
    if !listed(passed, id) {
        if let Some(scope) = scope_at(scopes, id) {
            let longer = passed.push(id);
            assert(is_path_up(scopes, longer)) by {
                assert forall|i: int| 0 <= i < longer.len() implies scope_at(
                    scopes,
                    #[trigger] longer[i],
                ) is Some by {
                    if i < passed.len() {
                        assert(longer[i] == passed[i]);
                    }
                }
                assert forall|i: int| 0 <= i < longer.len() - 1 implies scope_at(
                    scopes,
                    #[trigger] longer[i],
                ).unwrap().parent_id == Some(longer[i + 1]) by {
                    assert(longer[i] == passed[i]);
                    if i < passed.len() - 1 {
                        assert(longer[i + 1] == passed[i + 1]);
                    }
                }
            }
            match scope.parent_id {
                None => {
                    assert(longer.take(passed.len() as int) =~= passed);
                },
                Some(parent) => {
                    if passed.len() < scopes.len() {
                        climbing_follows_parents(scopes, longer, parent);
                        if let Ok(path) = climbed(scopes, longer, parent) {
                            assert(path.take(passed.len() as int) =~= path.take(
                                longer.len() as int,
                            ).take(passed.len() as int));
                            assert(longer.take(passed.len() as int) =~= passed);
                            assert(path[passed.len() as int] == path.take(longer.len() as int)[passed.len() as int]);
                        }
                    }
                },
            }
        }
    }
}

/// What is visible from a scope is the scope itself, last, and the scopes above it in their order,
/// from the root of its hierarchy on, and nothing else.
pub proof fn visible_scopes_are_the_ancestors(store: MemoryStoreModel, id: Text)
    ensures
        visible_scopes(store, id) matches Ok(visible) ==> {
            &&& visible.len() > 0
            &&& visible.last() == id
            &&& scope_at(store.scopes, visible[0]) matches Some(root) && root.parent_id is None
            &&& forall|i: int|
                0 < i < visible.len() ==> (scope_at(store.scopes, #[trigger] visible[i]) matches Some(
                    scope,
                ) && scope.parent_id == Some(visible[i - 1]))
        },
{
    let scopes = store.scopes;
    climbing_follows_parents(scopes, Seq::empty(), id);
    if let Ok(path) = climbed(scopes, Seq::empty(), id) {
        let visible = path.reverse();
        let n = path.len() as int;
        assert(visible[n - 1] == path[0]);
        assert(visible[0] == path[n - 1]);
        assert forall|i: int| 0 < i < visible.len() implies (scope_at(
            scopes,
            #[trigger] visible[i],
        ) matches Some(scope) && scope.parent_id == Some(visible[i - 1])) by {
            assert(visible[i] == path[n - 1 - i]);
            assert(visible[i - 1] == path[n - 1 - i + 1]);
        }
    }
}

proof fn climbing_succeeds(scopes: Seq<ScopeModel>, passed: Seq<Text>, i: int)
    requires
        hierarchy_sound(scopes),
        0 <= i < scopes.len(),
        passed.len() <= scopes.len() - 1 - i,
        forall|k: int|
            0 <= k < passed.len() ==> created_after(scopes, #[trigger] passed[k], i),
    ensures
        climbed(scopes, passed, scopes[i].id) is Ok,
    decreases i,
{
    let id = scopes[i].id;
    found_scope(scopes, i);
    if listed(passed, id) {
        let k = choose|k: int| 0 <= k < passed.len() && #[trigger] passed[k] == id;
        assert(created_after(scopes, passed[k], i));
        let m = choose|m: int| i < m < scopes.len() && (#[trigger] scopes[m]).id == passed[k];
        assert(scopes[i].id != scopes[m].id);
    }
    if let Some(parent) = scopes[i].parent_id {
        assert(created_before(scopes, parent, i));
        let k = choose|k: int| 0 <= k < i && k < scopes.len() && (#[trigger] scopes[k]).id == parent;
        let longer = passed.push(id);
        assert forall|j: int| 0 <= j < longer.len() implies created_after(
            scopes,
            #[trigger] longer[j],
            k,
        ) by {
            if j < passed.len() {
                assert(longer[j] == passed[j]);
                assert(created_after(scopes, passed[j], i));
                let m = choose|m: int| i < m < scopes.len() && (#[trigger] scopes[m]).id == passed[j];
                assert(scopes[m].id == longer[j]);
            } else {
                assert(scopes[i].id == longer[j]);
            }
        }
        climbing_succeeds(scopes, longer, k);
    }
}

/// Whether a scope stands behind a position.
pub open spec fn created_after(scopes: Seq<ScopeModel>, id: Text, after: int) -> bool {
    exists|k: int| after < k < scopes.len() && (#[trigger] scopes[k]).id == id
}

/// In a sound hierarchy the visible scopes of every scope can be found: there is no cycle.
pub proof fn every_scope_sees_its_ancestors(store: MemoryStoreModel, id: Text)
    requires
        hierarchy_sound(store.scopes),
    ensures
        visible_scopes(store, id) is Ok <==> scope_exists(store, id),
{
    first_where_found(store.scopes, scope_named(id));
    if scope_exists(store, id) {
        let i = choose|i: int|
            0 <= i < store.scopes.len() && (scope_named(id))(#[trigger] store.scopes[i]);
        climbing_succeeds(store.scopes, Seq::empty(), i);
    }
}

proof fn scope_edge_exists(scopes: Seq<ScopeModel>, i: int)
    requires
        0 <= i < scopes.len(),
        scopes[i].parent_id is Some,
    ensures
        scope_edges(scopes).contains(
            EdgeModel {
                from: scope_node(scopes[i].parent_id.unwrap()),
                to: scope_node(scopes[i].id),
            },
        ),
    decreases scopes.len(),
{
    let front = scopes.drop_last();
    let before = scope_edges(front);
    let all = scope_edges(scopes);
    let edge = EdgeModel {
        from: scope_node(scopes[i].parent_id.unwrap()),
        to: scope_node(scopes[i].id),
    };
    if i < front.len() {
        assert(front[i] == scopes[i]);
        scope_edge_exists(front, i);
        let k = choose|k: int| 0 <= k < before.len() && before[k] == edge;
        assert(all[k] == edge);
    } else {
        assert(all[before.len() as int] == edge);
    }
}

proof fn scope_edges_are_parents(scopes: Seq<ScopeModel>, e: int) -> (i: int)
    requires
        0 <= e < scope_edges(scopes).len(),
    ensures
        0 <= i < scopes.len(),
        scopes[i].parent_id is Some,
        scope_edges(scopes)[e] == (EdgeModel {
            from: scope_node(scopes[i].parent_id.unwrap()),
            to: scope_node(scopes[i].id),
        }),
    decreases scopes.len(),
{
    let front = scopes.drop_last();
    let before = scope_edges(front);
    if e < before.len() {
        assert(scope_edges(scopes)[e] == before[e]);
        let i = scope_edges_are_parents(front, e);
        assert(front[i] == scopes[i]);
        i
    } else {
        scopes.len() - 1
    }
}

/// The scopes that see `ancestor`.
pub open spec fn sees(store: MemoryStoreModel, ancestor: Text) -> Set<NodeModel> {
    Set::new(
        |node: NodeModel|
            node == scope_node(ancestor) || (node == scope_node(node.id) && (visible_scopes(
                store,
                node.id,
            ) matches Ok(visible) && listed(visible, ancestor))),
    )
}

/// The visible scopes of a scope are those of its parent and itself.
proof fn visible_of_child(store: MemoryStoreModel, i: int, parent: Text)
    requires
        hierarchy_sound(store.scopes),
        0 <= i < store.scopes.len(),
        store.scopes[i].parent_id == Some(parent),
    ensures
        visible_scopes(store, store.scopes[i].id) is Ok,
        visible_scopes(store, parent) is Ok,
        visible_scopes(store, store.scopes[i].id)->Ok_0 == visible_scopes(store, parent)->Ok_0.push(
            store.scopes[i].id,
        ),
{
    let scopes = store.scopes;
    let id = scopes[i].id;
    assert(created_before(scopes, parent, i));
    let p = choose|p: int| 0 <= p < i && p < scopes.len() && (#[trigger] scopes[p]).id == parent;
    climbing_succeeds(scopes, Seq::empty(), i);
    climbing_succeeds(scopes, Seq::empty(), p);
    found_scope(scopes, i);
    let one = Seq::<Text>::empty().push(id);
    assert(climbed(scopes, Seq::empty(), id) == climbed(scopes, one, parent));
    assert(created_after(scopes, id, p));
    assert forall|k: int| 0 <= k < one.len() implies created_after(scopes, #[trigger] one[k], p) by {
    }
    climbing_is_uniform(scopes, one, Seq::empty(), p);
    assert(climbed(scopes, one, parent)->Ok_0 == one + climbed(
        scopes,
        Seq::empty(),
        parent,
    )->Ok_0);
    let rest = climbed(scopes, Seq::empty(), parent)->Ok_0;
    assert((one + rest).reverse() =~= rest.reverse().push(id));
}

/// What lies above a scope does not depend on how it was reached.
proof fn climbing_is_uniform(scopes: Seq<ScopeModel>, before: Seq<Text>, passed: Seq<Text>, i: int)
    requires
        hierarchy_sound(scopes),
        0 <= i < scopes.len(),
        before.len() + passed.len() <= scopes.len() - 1 - i,
        forall|k: int| 0 <= k < before.len() ==> created_after(scopes, #[trigger] before[k], i),
        forall|k: int| 0 <= k < passed.len() ==> created_after(scopes, #[trigger] passed[k], i),
    ensures
        climbed(scopes, before + passed, scopes[i].id) is Ok,
        climbed(scopes, passed, scopes[i].id) is Ok,
        climbed(scopes, before + passed, scopes[i].id)->Ok_0 == before + climbed(
            scopes,
            passed,
            scopes[i].id,
        )->Ok_0,
    decreases i,
{
    let id = scopes[i].id;
    let both = before + passed;
    assert forall|k: int| 0 <= k < both.len() implies created_after(scopes, #[trigger] both[k], i) by {
        if k < before.len() {
            assert(both[k] == before[k]);
        } else {
            assert(both[k] == passed[k - before.len()]);
        }
    }
    climbing_succeeds(scopes, both, i);
    climbing_succeeds(scopes, passed, i);
    found_scope(scopes, i);
    match scopes[i].parent_id {
        None => {
            assert(both.push(id) =~= before + passed.push(id));
        },
        Some(parent) => {
            assert(created_before(scopes, parent, i));
            let p = choose|p: int|
                0 <= p < i && p < scopes.len() && (#[trigger] scopes[p]).id == parent;
            let longer = passed.push(id);
            assert(both.push(id) =~= before + longer);
            assert forall|k: int| 0 <= k < before.len() implies created_after(
                scopes,
                #[trigger] before[k],
                p,
            ) by {
                let m = choose|m: int| i < m < scopes.len() && (#[trigger] scopes[m]).id == before[k];
                assert(scopes[m].id == before[k]);
            }
            assert forall|k: int| 0 <= k < longer.len() implies created_after(
                scopes,
                #[trigger] longer[k],
                p,
            ) by {
                if k < passed.len() {
                    assert(longer[k] == passed[k]);
                    let m = choose|m: int|
                        i < m < scopes.len() && (#[trigger] scopes[m]).id == passed[k];
                    assert(scopes[m].id == longer[k]);
                } else {
                    assert(scopes[i].id == longer[k]);
                }
            }
            climbing_is_uniform(scopes, before, longer, p);
        },
    }
}

/// Records are read along the hierarchy only: a scope can be read from another one exactly where
/// one of the two lies above the other, or they are one. Nothing leaks between siblings.
pub proof fn reading_follows_the_hierarchy(store: MemoryStoreModel, anchor: Text, scope: Text)
    requires
        hierarchy_sound(store.scopes),
        scope_exists(store, anchor),
        scope_exists(store, scope),
    ensures
        readable_from(store, anchor, scope) <==> (listed(
            visible_scopes(store, anchor)->Ok_0,
            scope,
        ) || listed(visible_scopes(store, scope)->Ok_0, anchor)),
{
    let scopes = store.scopes;
    let edges = scope_edges(scopes);
    let roots = seq![scope_node(anchor)];
    every_scope_sees_its_ancestors(store, anchor);
    every_scope_sees_its_ancestors(store, scope);
    visible_scopes_are_the_ancestors(store, anchor);
    visible_scopes_are_the_ancestors(store, scope);
    let mine = visible_scopes(store, anchor)->Ok_0;
    let theirs = visible_scopes(store, scope)->Ok_0;
    if descends(store, anchor, scope) {
        let nodes = sees(store, anchor);
        assert(closed_under(edges, nodes)) by {
            assert forall|e: int|
                0 <= e < edges.len() && nodes.contains((#[trigger] edges[e]).from) implies nodes.contains(
                edges[e].to,
            ) by {
                let i = scope_edges_are_parents(scopes, e);
                let parent = scopes[i].parent_id.unwrap();
                visible_of_child(store, i, parent);
                let above = visible_scopes(store, parent)->Ok_0;
                let below = visible_scopes(store, scopes[i].id)->Ok_0;
                visible_scopes_are_the_ancestors(store, parent);
                assert(listed(above, anchor)) by {
                    if parent == anchor {
                        assert(above[above.len() - 1] == anchor);
                    }
                }
                let k = choose|k: int| 0 <= k < above.len() && #[trigger] above[k] == anchor;
                assert(below[k] == anchor);
            }
        }
        assert(holds_all(nodes, roots));
        assert(nodes.contains(scope_node(scope)));
        if scope == anchor {
            assert(theirs[theirs.len() - 1] == anchor);
        }
    }
    if listed(theirs, anchor) {
        let k = choose|k: int| 0 <= k < theirs.len() && #[trigger] theirs[k] == anchor;
        path_is_reached(store, anchor, theirs, k, theirs.len() - 1);
    }
}

proof fn path_is_reached(
    store: MemoryStoreModel,
    anchor: Text,
    visible: Seq<Text>,
    from: int,
    to: int,
)
    requires
        hierarchy_sound(store.scopes),
        0 <= from <= to < visible.len(),
        visible[from] == anchor,
        forall|i: int|
            0 < i < visible.len() ==> (scope_at(store.scopes, #[trigger] visible[i]) matches Some(
                scope,
            ) && scope.parent_id == Some(visible[i - 1])),
    ensures
        descends(store, anchor, visible[to]),
    decreases to,
{
    let scopes = store.scopes;
    let edges = scope_edges(scopes);
    let roots = seq![scope_node(anchor)];
    if from == to {
        roots_are_reached(edges, roots, 0);
    } else {
        path_is_reached(store, anchor, visible, from, to - 1);
        let id = visible[to];
        let scope = scope_at(scopes, id).unwrap();
        first_where_found(scopes, scope_named(id));
        let i = choose|i: int| 0 <= i < scopes.len() && scopes[i] == scope;
        scope_edge_exists(scopes, i);
        let edge = EdgeModel { from: scope_node(visible[to - 1]), to: scope_node(id) };
        let k = choose|k: int| 0 <= k < edges.len() && edges[k] == edge;
        reached_along(edges, roots, k);
    }
}

} // verus!
