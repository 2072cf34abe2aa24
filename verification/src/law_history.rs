//! Laws of what a context takes to be said already: by its recent events, by its continuity view, or
//! by an earlier generation of that view.

use vstd::prelude::*;

use crate::context::{
    compose, duplicated, event_name, represented, view_back_edges, view_chain, view_root,
};
use crate::event::stream_at;
use crate::graph::{closed_under, holds_all, reached_along, reaches, roots_are_reached};
use crate::kind::ViewKind;
use crate::law_bundle::{observations_are_accounted_for, omits};
use crate::law_context::{context_does_not_repeat, shown_by_view};
use crate::model::{ContextBundleModel, SearchHitModel};
use crate::row::{LinkModel, MemoryStoreModel, NodeModel, ViewRowModel};
use crate::scope::visible_scopes;
use crate::text::{listed, Text};
use crate::view::latest_view;

verus! {

/// Whether some view was built directly on another one.
pub open spec fn built_on(views: Seq<ViewRowModel>, id: Text, earlier: Text) -> bool {
    exists|k: int|
        0 <= k < views.len() && (#[trigger] views[k]).view.id == id
            && views[k].view.previous_view_id == Some(earlier)
}

/// Whether a path leads from view to view, each built on the next.
pub open spec fn is_history(views: Seq<ViewRowModel>, path: Seq<Text>) -> bool {
    &&& path.len() > 0
    &&& forall|i: int, j: int|
        0 <= i && j == i + 1 && j < path.len() ==> #[trigger] built_on(
            views,
            path[i],
            path[j],
        )
}

/// Whether a view, or one that it was built on, represents an observation.
pub open spec fn history_represents(
    store: MemoryStoreModel,
    view_id: Text,
    observation_id: Text,
) -> bool {
    exists|path: Seq<Text>|
        #[trigger] is_history(store.views, path) && path[0] == view_id
            && store.view_sources.contains(
            LinkModel { holder_id: path.last(), source_id: observation_id },
        )
}

/// Whether all evidence of an observation is among the recent events of a context.
pub open spec fn is_all_recent(
    store: MemoryStoreModel,
    bundle: ContextBundleModel,
    observation_id: Text,
) -> bool {
    &&& exists|n: int|
        0 <= n < store.observation_sources.len() && (
        #[trigger] store.observation_sources[n]).holder_id == observation_id
    &&& forall|n: int|
        0 <= n < store.observation_sources.len() && (
        #[trigger] store.observation_sources[n]).holder_id == observation_id ==> exists|r: int|
            0 <= r < bundle.recent_events.len() && (#[trigger] bundle.recent_events[r]).id
                == store.observation_sources[n].source_id
}

proof fn back_edges_are_built_on(views: Seq<ViewRowModel>, k: int)
    requires
        0 <= k < view_back_edges(views).len(),
    ensures
        !view_back_edges(views)[k].from.claim,
        !view_back_edges(views)[k].to.claim,
        built_on(views, view_back_edges(views)[k].from.id, view_back_edges(views)[k].to.id),
    decreases views.len(),
{
    if views.len() > 0 {
        let front = views.drop_last();
        let before = view_back_edges(front);
        if k < before.len() {
            back_edges_are_built_on(front, k);
            let edge = before[k];
            let n = choose|n: int|
                0 <= n < front.len() && (#[trigger] front[n]).view.id == edge.from.id
                    && front[n].view.previous_view_id == Some(edge.to.id);
            assert(views[n] == front[n]);
            assert(view_back_edges(views)[k] == edge);
        } else {
            assert(views[views.len() - 1] == views.last());
        }
    }
}

proof fn built_on_is_a_back_edge(views: Seq<ViewRowModel>, n: int) -> (k: int)
    requires
        0 <= n < views.len(),
        views[n].view.previous_view_id is Some,
    ensures
        0 <= k < view_back_edges(views).len(),
        view_back_edges(views)[k].from == (NodeModel { claim: false, id: views[n].view.id }),
        view_back_edges(views)[k].to == (NodeModel {
            claim: false,
            id: views[n].view.previous_view_id.unwrap(),
        }),
    decreases views.len(),
{
    let front = views.drop_last();
    if n == views.len() - 1 {
        view_back_edges(front).len() as int
    } else {
        assert(front[n] == views[n]);
        let k = built_on_is_a_back_edge(front, n);
        assert(view_back_edges(views)[k] == view_back_edges(front)[k]);
        k
    }
}

proof fn history_is_reached(views: Seq<ViewRowModel>, roots: Seq<NodeModel>, path: Seq<Text>)
    requires
        is_history(views, path),
        roots.contains(NodeModel { claim: false, id: path[0] }),
    ensures
        reaches(view_back_edges(views), roots, NodeModel { claim: false, id: path.last() }),
    decreases path.len(),
{
    let edges = view_back_edges(views);
    if path.len() == 1 {
        let i = choose|i: int|
            0 <= i < roots.len() && roots[i] == (NodeModel { claim: false, id: path[0] });
        roots_are_reached(edges, roots, i);
    } else {
        let front = path.drop_last();
        assert forall|i: int, j: int| 0 <= i && j == i + 1 && j < front.len() implies #[trigger] built_on(
            views,
            front[i],
            front[j],
        ) by {
            assert(built_on(views, path[i], path[j]));
        }
        history_is_reached(views, roots, front);
        let i = path.len() - 2;
        let j = path.len() - 1;
        assert(built_on(views, path[i], path[j]));
        let n = choose|n: int|
            0 <= n < views.len() && (#[trigger] views[n]).view.id == path[i]
                && views[n].view.previous_view_id == Some(path[j]);
        let k = built_on_is_a_back_edge(views, n);
        reached_along(edges, roots, k);
    }
}

spec fn has_history(views: Seq<ViewRowModel>, from: Text, to: Text) -> bool {
    exists|path: Seq<Text>|
        #[trigger] is_history(views, path) && path[0] == from && path.last() == to
}

proof fn reached_has_history(views: Seq<ViewRowModel>, root: Text, node: NodeModel)
    requires
        reaches(view_back_edges(views), seq![NodeModel { claim: false, id: root }], node),
    ensures
        !node.claim,
        has_history(views, root, node.id),
{
    let edges = view_back_edges(views);
    let roots = seq![NodeModel { claim: false, id: root }];
    let due = Set::new(|n: NodeModel| !n.claim && has_history(views, root, n.id));
    assert(is_history(views, seq![root]));
    assert(seq![root].last() == root);
    assert(has_history(views, root, root));
    assert forall|k: int|
        0 <= k < edges.len() && due.contains((#[trigger] edges[k]).from) implies due.contains(
        edges[k].to,
    ) by {
        back_edges_are_built_on(views, k);
        let path = choose|path: Seq<Text>|
            #[trigger] is_history(views, path) && path[0] == root && path.last()
                == edges[k].from.id;
        let longer = path.push(edges[k].to.id);
        assert forall|i: int, j: int|
            0 <= i && j == i + 1 && j < longer.len() implies #[trigger] built_on(
            views,
            longer[i],
            longer[j],
        ) by {
            if j < path.len() {
                assert(built_on(views, path[i], path[j]));
            }
        }
        assert(is_history(views, longer));
        assert(longer.last() == edges[k].to.id);
    }
    assert(closed_under(edges, due));
    assert(holds_all(due, roots));
    assert(due.contains(node));
}

proof fn chains_are_histories(store: MemoryStoreModel, row: ViewRowModel, id: Text)
    ensures
        represented(store.view_sources, view_chain(store.views, seq![row]), id)
            == history_represents(store, row.view.id, id),
{
    let chain = view_chain(store.views, seq![row]);
    let roots = seq![row].map_values(view_root());
    let root = NodeModel { claim: false, id: row.view.id };
    assert(roots =~= seq![root]);
    if represented(store.view_sources, chain, id) {
        let links = store.view_sources;
        let n = choose|n: int|
            0 <= n < links.len() && (#[trigger] links[n]).source_id == id && chain.contains(
                NodeModel { claim: false, id: links[n].holder_id },
            );
        reached_has_history(
            store.views,
            row.view.id,
            NodeModel { claim: false, id: links[n].holder_id },
        );
        let path = choose|path: Seq<Text>|
            #[trigger] is_history(store.views, path) && path[0] == row.view.id && path.last()
                == links[n].holder_id;
        assert(links.contains(links[n]));
        assert(links[n] == (LinkModel { holder_id: path.last(), source_id: id }));
    }
    if history_represents(store, row.view.id, id) {
        let path = choose|path: Seq<Text>|
            #[trigger] is_history(store.views, path) && path[0] == row.view.id
                && store.view_sources.contains(
                LinkModel { holder_id: path.last(), source_id: id },
            );
        let link = LinkModel { holder_id: path.last(), source_id: id };
        let n = choose|n: int|
            0 <= n < store.view_sources.len() && store.view_sources[n] == link;
        assert(roots[0] == root);
        history_is_reached(store.views, roots, path);
        assert(chain.contains(NodeModel { claim: false, id: store.view_sources[n].holder_id }));
    }
}

/// Why a context leaves an observation out. One all of whose evidence is among the recent events is
/// named as present there; else one that the continuity view in the context represents, or a view
/// that it was built on, is named as represented; any other one is shown or named as over the
/// budget. An observation some evidence of which is older is not taken to be among the recent
/// events.
pub proof fn observations_are_left_out_for_a_reason(
    store: MemoryStoreModel,
    scope_id: Text,
    stream_id: Text,
    max_tokens: i64,
    recent_raw_tokens: i64,
    ranked: Seq<SearchHitModel>,
    o: int,
)
    requires
        0 <= o < store.observations.len(),
    ensures
        compose(
            store,
            scope_id,
            stream_id,
            max_tokens as int,
            recent_raw_tokens as int,
            ranked,
        ) matches Ok(bundle) ==> (visible_scopes(store, scope_id)->Ok_0.contains(
            store.observations[o].scope_id,
        ) || stream_at(store, stream_id).unwrap().scope_id == store.observations[o].scope_id) ==> {
            let observation = store.observations[o];
            let viewed = latest_view(store, stream_id, ViewKind::Continuity) matches Some(row)
                && bundle.continuity_views.contains(row.view) && history_represents(
                store,
                row.view.id,
                observation.id,
            );
            if is_all_recent(store, bundle, observation.id) {
                omits(bundle, observation.id, "source events already present in raw tail"@)
            } else if viewed {
                omits(bundle, observation.id, "already represented by continuity view"@)
            } else {
                bundle.observations.contains(observation) || omits(
                    bundle,
                    observation.id,
                    "context token budget"@,
                )
            }
        },
{
    observations_are_accounted_for(
        store,
        scope_id,
        stream_id,
        max_tokens,
        recent_raw_tokens,
        ranked,
        o,
    );
    if let Ok(bundle) = compose(
        store,
        scope_id,
        stream_id,
        max_tokens as int,
        recent_raw_tokens as int,
        ranked,
    ) {
        let observation = store.observations[o];
        recent_ones_are_duplicated(store, bundle, observation.id);
        if let Some(row) = latest_view(store, stream_id, ViewKind::Continuity) {
            chains_are_histories(store, row, observation.id);
        }
    }
}

proof fn recent_ones_are_duplicated(
    store: MemoryStoreModel,
    bundle: ContextBundleModel,
    id: Text,
)
    ensures
        duplicated(
            store.observation_sources,
            id,
            bundle.recent_events.map_values(event_name()),
        ) == is_all_recent(store, bundle, id),
{
    let recent_ids = bundle.recent_events.map_values(event_name());
    let links = store.observation_sources;
    assert forall|text: Text| #[trigger] listed(recent_ids, text) <==> exists|r: int|
        0 <= r < bundle.recent_events.len() && (#[trigger] bundle.recent_events[r]).id == text by {
        if listed(recent_ids, text) {
            let r = choose|r: int| 0 <= r < recent_ids.len() && recent_ids[r] == text;
            assert(bundle.recent_events[r].id == text);
        }
        if exists|r: int|
            0 <= r < bundle.recent_events.len() && (#[trigger] bundle.recent_events[r]).id == text {
            let r = choose|r: int|
                0 <= r < bundle.recent_events.len() && (#[trigger] bundle.recent_events[r]).id
                    == text;
            assert(recent_ids[r] == text);
        }
    }
    if is_all_recent(store, bundle, id) {
        assert forall|n: int| 0 <= n < links.len() && (#[trigger] links[n]).holder_id == id implies listed(
            recent_ids,
            links[n].source_id,
        ) by {
            assert(store.observation_sources[n].holder_id == id);
        }
    }
    if duplicated(links, id, recent_ids) {
        assert forall|n: int|
            0 <= n < store.observation_sources.len() && (
            #[trigger] store.observation_sources[n]).holder_id == id implies exists|r: int|
            0 <= r < bundle.recent_events.len() && (#[trigger] bundle.recent_events[r]).id
                == store.observation_sources[n].source_id by {
            assert(listed(recent_ids, links[n].source_id));
        }
    }
}

/// A context shows no observation all of whose evidence is among its recent events, and none that
/// its continuity view, or a view that it was built on, represents.
pub proof fn shown_observations_say_more(
    store: MemoryStoreModel,
    scope_id: Text,
    stream_id: Text,
    max_tokens: i64,
    recent_raw_tokens: i64,
    ranked: Seq<SearchHitModel>,
    i: int,
)
    ensures
        compose(
            store,
            scope_id,
            stream_id,
            max_tokens as int,
            recent_raw_tokens as int,
            ranked,
        ) matches Ok(bundle) ==> 0 <= i < bundle.observations.len() ==> {
            let id = bundle.observations[i].id;
            &&& !is_all_recent(store, bundle, id)
            &&& latest_view(store, stream_id, ViewKind::Continuity) matches Some(row) ==> {
                bundle.continuity_views.contains(row.view) ==> !history_represents(
                    store,
                    row.view.id,
                    id,
                )
            }
        },
{
    context_does_not_repeat(
        store,
        scope_id,
        stream_id,
        max_tokens as int,
        recent_raw_tokens as int,
        ranked,
    );
    if let Ok(bundle) = compose(
        store,
        scope_id,
        stream_id,
        max_tokens as int,
        recent_raw_tokens as int,
        ranked,
    ) {
        if 0 <= i < bundle.observations.len() {
            let id = bundle.observations[i].id;
            recent_ones_are_duplicated(store, bundle, id);
            if let Some(row) = latest_view(store, stream_id, ViewKind::Continuity) {
                chains_are_histories(store, row, id);
                assert(!shown_by_view(store, stream_id, bundle, id));
            }
        }
    }
}

} // verus!
