//! Reachability in a finite graph.

use vstd::prelude::*;
use vstd::set_lib::lemma_len_subset;

use crate::row::{Edge, EdgeModel, Node, NodeModel};
use crate::table::{push_row, Duplicate};
use crate::text::same_text;

verus! {

/// Whether no edge leads out of a set of nodes.
pub open spec fn closed_under(edges: Seq<EdgeModel>, nodes: Set<NodeModel>) -> bool {
    forall|i: int|
        0 <= i < edges.len() && nodes.contains((#[trigger] edges[i]).from) ==> nodes.contains(
            edges[i].to,
        )
}

pub open spec fn holds_all(nodes: Set<NodeModel>, roots: Seq<NodeModel>) -> bool {
    forall|i: int| 0 <= i < roots.len() ==> nodes.contains(#[trigger] roots[i])
}

/// Whether a node is reached from some root along edges: it lies in every set that holds the roots
/// and that no edge leads out of.
pub open spec fn reaches(edges: Seq<EdgeModel>, roots: Seq<NodeModel>, node: NodeModel) -> bool {
    forall|nodes: Set<NodeModel>|
        #[trigger] closed_under(edges, nodes) && holds_all(nodes, roots) ==> nodes.contains(node)
}

/// Every root is reached.
pub proof fn roots_are_reached(edges: Seq<EdgeModel>, roots: Seq<NodeModel>, i: int)
    requires
        0 <= i < roots.len(),
    ensures
        reaches(edges, roots, roots[i]),
{
}

/// An edge from a node that is reached leads to one that is reached.
pub proof fn reached_along(edges: Seq<EdgeModel>, roots: Seq<NodeModel>, i: int)
    requires
        0 <= i < edges.len(),
        reaches(edges, roots, edges[i].from),
    ensures
        reaches(edges, roots, edges[i].to),
{
    assert forall|nodes: Set<NodeModel>| #[trigger]
        closed_under(edges, nodes) && holds_all(nodes, roots) implies nodes.contains(edges[i].to) by {
        assert(nodes.contains(edges[i].from));
    }
}

/// Texts that all differ and all occur in a list are no more than the list holds.
pub proof fn distinct_items_fit<V>(items: Seq<V>, universe: Seq<V>)
    requires
        items.no_duplicates(),
        forall|i: int| 0 <= i < items.len() ==> universe.contains(#[trigger] items[i]),
    ensures
        items.len() <= universe.len(),
{
    items.unique_seq_to_set();
    universe.lemma_cardinality_of_set();
    assert(items.to_set().subset_of(universe.to_set())) by {
        assert forall|v: V| items.to_set().contains(v) implies universe.to_set().contains(v) by {
            let i = choose|i: int| 0 <= i < items.len() && items[i] == v;
            assert(universe.contains(items[i]));
        }
    }
    vstd::seq_lib::seq_to_set_is_finite(universe);
    lemma_len_subset(items.to_set(), universe.to_set());
}

pub fn same_node(left: &Node, right: &Node) -> (b: bool)
    ensures
        b == (left@ == right@),
{
    left.claim == right.claim && same_text(left.id.as_str(), right.id.as_str())
}

pub fn holds_node(nodes: &Vec<Node>, node: &Node) -> (b: bool)
    ensures
        b == nodes.deep_view().contains(node@),
{
    let mut i: usize = 0;
    while i < nodes.len()
        invariant
            i <= nodes.len(),
            forall|k: int| 0 <= k < i ==> #[trigger] nodes.deep_view()[k] != node@,
        decreases nodes.len() - i,
    {
        if same_node(&nodes[i], node) {
            proof {
                assert(nodes.deep_view()[i as int] == node@);
            }
            return true;
        }
        i = i + 1;
    }
    false
}

/// Adds a node unless it is there.
fn add_node(nodes: &mut Vec<Node>, node: &Node)
    requires
        old(nodes).deep_view().no_duplicates(),
    ensures
        final(nodes).deep_view().no_duplicates(),
        final(nodes).deep_view() == if old(nodes).deep_view().contains(node@) {
            old(nodes).deep_view()
        } else {
            old(nodes).deep_view().push(node@)
        },
{
    if !holds_node(nodes, node) {
        push_row(nodes, node.duplicate());
    }
}

spec fn targets(edges: Seq<EdgeModel>) -> Seq<NodeModel> {
    edges.map_values(|edge: EdgeModel| edge.to)
}

/// The nodes that are reached from the roots, each once.
pub fn reachable(edges: &Vec<Edge>, roots: &Vec<Node>) -> (reached: Vec<Node>)
    ensures
        reached.deep_view().no_duplicates(),
        forall|node: NodeModel|
            #[trigger] reached.deep_view().contains(node) <==> reaches(
                edges.deep_view(),
                roots.deep_view(),
                node,
            ),
{
    let ghost es = edges.deep_view();
    let ghost rs = roots.deep_view();
    let ghost universe = rs + targets(es);
    let mut reached: Vec<Node> = Vec::new();
    let mut r: usize = 0;
    while r < roots.len()
        invariant
            r <= roots.len(),
            es == edges.deep_view(),
            rs == roots.deep_view(),
            universe == rs + targets(es),
            reached.deep_view().no_duplicates(),
            forall|k: int| 0 <= k < r ==> reached.deep_view().contains(#[trigger] rs[k]),
            forall|k: int|
                0 <= k < reached.deep_view().len() ==> reaches(
                    es,
                    rs,
                    #[trigger] reached.deep_view()[k],
                ) && universe.contains(reached.deep_view()[k]),
        decreases roots.len() - r,
    {
        let ghost before = reached.deep_view();
        add_node(&mut reached, &roots[r]);
        proof {
            let after = reached.deep_view();
            assert(rs[r as int] == roots[r as int]@);
            roots_are_reached(es, rs, r as int);
            assert(universe[r as int] == rs[r as int]);
            if !before.contains(rs[r as int]) {
                assert(after[before.len() as int] == rs[r as int]);
            }
            assert forall|k: int| 0 <= k < r + 1 implies after.contains(#[trigger] rs[k]) by {
                if k < r {
                    let j = choose|j: int| 0 <= j < before.len() && before[j] == rs[k];
                    assert(after[j] == rs[k]);
                }
            }
        }
        r = r + 1;
    }
    let mut i: usize = 0;
    proof {
        distinct_items_fit(reached.deep_view(), universe);
    }
    while i < reached.len()
        invariant
            i <= reached.len(),
            es == edges.deep_view(),
            rs == roots.deep_view(),
            universe == rs + targets(es),
            reached.deep_view().no_duplicates(),
            reached.len() <= universe.len(),
            forall|k: int| 0 <= k < rs.len() ==> reached.deep_view().contains(#[trigger] rs[k]),
            forall|k: int|
                0 <= k < reached.deep_view().len() ==> reaches(
                    es,
                    rs,
                    #[trigger] reached.deep_view()[k],
                ) && universe.contains(reached.deep_view()[k]),
            forall|j: int, e: int|
                0 <= j < i && 0 <= e < es.len() && (#[trigger] es[e]).from
                    == #[trigger] reached.deep_view()[j] ==> reached.deep_view().contains(es[e].to),
        decreases universe.len() - i,
    {
        let current: Node = reached[i].duplicate();
        let mut e: usize = 0;
        while e < edges.len()
            invariant
                e <= edges.len(),
                i < reached.len(),
                current@ == reached.deep_view()[i as int],
                es == edges.deep_view(),
                rs == roots.deep_view(),
                universe == rs + targets(es),
                reached.deep_view().no_duplicates(),
                forall|k: int| 0 <= k < rs.len() ==> reached.deep_view().contains(#[trigger] rs[k]),
                forall|k: int|
                    0 <= k < reached.deep_view().len() ==> reaches(
                        es,
                        rs,
                        #[trigger] reached.deep_view()[k],
                    ) && universe.contains(reached.deep_view()[k]),
                forall|j: int, f: int|
                    0 <= j < i && 0 <= f < es.len() && (#[trigger] es[f]).from
                        == #[trigger] reached.deep_view()[j] ==> reached.deep_view().contains(
                        es[f].to,
                    ),
                forall|f: int|
                    0 <= f < e && (#[trigger] es[f]).from == current@
                        ==> reached.deep_view().contains(es[f].to),
            decreases edges.len() - e,
        {
            let ghost before = reached.deep_view();
            proof {
                assert(es[e as int] == edges[e as int]@);
            }
            if same_node(&edges[e].from, &current) {
                add_node(&mut reached, &edges[e].to);
                proof {
                    let after = reached.deep_view();
                    assert(after.len() == reached.len());
                    reached_along(es, rs, e as int);
                    assert(universe[rs.len() + e] == es[e as int].to);
                    if !before.contains(es[e as int].to) {
                        assert(after[before.len() as int] == es[e as int].to);
                    }
                    assert forall|v: NodeModel| before.contains(v) implies after.contains(v) by {
                        let j = choose|j: int| 0 <= j < before.len() && before[j] == v;
                        assert(after[j] == v);
                    }
                    assert forall|j: int, f: int|
                        0 <= j < i && 0 <= f < es.len() && (#[trigger] es[f]).from
                            == #[trigger] after[j] implies after.contains(es[f].to) by {
                        assert(before[j] == after[j]);
                    }
                }
            }
            e = e + 1;
        }
        proof {
            distinct_items_fit(reached.deep_view(), universe);
        }
        i = i + 1;
    }
    proof {
        let all = reached.deep_view();
        let nodes = all.to_set();
        assert(closed_under(es, nodes)) by {
            assert forall|e: int|
                0 <= e < es.len() && nodes.contains((#[trigger] es[e]).from) implies nodes.contains(
                es[e].to,
            ) by {
                let j = choose|j: int| 0 <= j < all.len() && all[j] == es[e].from;
                assert(all.contains(es[e].to));
            }
        }
        assert(holds_all(nodes, rs));
        assert forall|node: NodeModel| #[trigger] all.contains(node) <==> reaches(es, rs, node) by {
            if all.contains(node) {
                let j = choose|j: int| 0 <= j < all.len() && all[j] == node;
                assert(reaches(es, rs, all[j]));
            }
            if reaches(es, rs, node) {
                assert(nodes.contains(node));
            }
        }
    }
    reached
}

} // verus!
