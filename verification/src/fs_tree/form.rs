//! Whatever is done to a tree leaves it well formed.

use vstd::prelude::*;

use crate::fs_tree::edit;
use crate::fs_tree::edit::Edit;
use crate::fs_tree::load;
use crate::fs_tree::load::ListingView;
use crate::fs_tree::node::NodeView;
use crate::fs_tree::order;
use crate::fs_tree::order::ExplorerSortMode;
use crate::path::PartView;

verus! {

proof fn lemma_front_formed(
    parent: Seq<PartView>,
    nodes: Seq<NodeView>,
    head: NodeView,
    tail: Seq<NodeView>,
    apart: bool,
)
    requires
        load::all_formed(parent, nodes, apart),
        nodes.len() > 0,
        head.info == nodes[0].info,
        load::well_formed(head, apart),
        tail.len() == nodes.len() - 1,
        load::all_formed(parent, tail, apart),
        forall|i: int| 0 <= i < tail.len() ==> (#[trigger] tail[i]).info == nodes[i + 1].info,
    ensures
        load::all_formed(parent, seq![head] + tail, apart),
        (seq![head] + tail).len() == nodes.len(),
        forall|i: int|
            0 <= i < nodes.len() ==> (#[trigger] (seq![head] + tail)[i]).info == nodes[i].info,
{
    let out = seq![head] + tail;
    assert forall|i: int| 0 <= i < out.len() implies (#[trigger] out[i]).info == nodes[i].info
        && load::well_formed(out[i], apart) by {
        if i > 0 {
            assert(out[i] == tail[i - 1]);
        }
    }
    load::lemma_same_paths_formed(parent, nodes, out, apart);
}

/// An edit leaves a tree well formed.
pub proof fn editing_keeps_form(
    node: NodeView,
    path: Seq<PartView>,
    edit: Edit,
    listings: Seq<ListingView>,
    mode: ExplorerSortMode,
    apart: bool,
)
    requires
        load::well_formed(node, apart),
        apart ==> load::distinct_names(listings),
    ensures
        ({
            let after = edit::edited(node, path, edit, listings, mode).0;
            &&& load::well_formed(after, apart)
            &&& after.info == node.info
            &&& node.children is Some ==> after.children is Some
        }),
    decreases node,
{
    if node.info.path == path {
        load::lemma_loaded_formed(node, listings, mode, apart);
        if let Some(children) = node.children {
            assert(load::all_formed(node.info.path, children, apart));
        }
        let after = edit::applied(node, edit, listings, mode).0;
        if let Some(children) = after.children {
            assert(load::all_formed(node.info.path, children, apart));
        }
    } else if let Some(children) = node.children {
        assert(load::all_formed(node.info.path, children, apart));
        lemma_editing_all(node.info.path, children, path, edit, listings, mode, apart);
    }
}

proof fn lemma_editing_all(
    parent: Seq<PartView>,
    nodes: Seq<NodeView>,
    path: Seq<PartView>,
    edit: Edit,
    listings: Seq<ListingView>,
    mode: ExplorerSortMode,
    apart: bool,
)
    requires
        load::all_formed(parent, nodes, apart),
        apart ==> load::distinct_names(listings),
    ensures
        ({
            let out = edit::edited_all(nodes, path, edit, listings, mode).0;
            &&& load::all_formed(parent, out, apart)
            &&& out.len() == nodes.len()
            &&& forall|i: int| 0 <= i < nodes.len() ==> (#[trigger] out[i]).info == nodes[i].info
        }),
    decreases nodes,
{
    if nodes.len() > 0 {
        let rest = nodes.drop_first();
        load::lemma_some_formed(parent, nodes, apart);
        editing_keeps_form(nodes[0], path, edit, listings, mode, apart);
        lemma_editing_all(parent, rest, path, edit, listings, mode, apart);
        let after = edit::edited(nodes[0], path, edit, listings, mode).0;
        let tail = edit::edited_all(rest, path, edit, listings, mode).0;
        assert forall|i: int| 0 <= i < tail.len() implies (#[trigger] tail[i]).info == nodes[i
            + 1].info by {
            assert(rest[i] == nodes[i + 1]);
        }
        lemma_front_formed(parent, nodes, after, tail, apart);
        lemma_front_formed(parent, nodes, after, rest, apart);
    }
}

/// Sorting a tree leaves it well formed.
pub proof fn resorting_keeps_form(node: NodeView, mode: ExplorerSortMode, apart: bool)
    requires
        load::well_formed(node, apart),
    ensures
        load::well_formed(edit::resorted(node, mode), apart),
        edit::resorted(node, mode).info == node.info,
        edit::resorted(node, mode).expanded == node.expanded,
        edit::resorted(node, mode).children is Some <==> node.children is Some,
    decreases node,
{
    if let Some(children) = node.children {
        assert(load::all_formed(node.info.path, children, apart));
        lemma_resorting_all(node.info.path, children, mode, apart);
        load::lemma_sorted_formed(
            node.info.path,
            edit::resorted_all(children, mode),
            mode,
            apart,
        );
    }
}

proof fn lemma_resorting_all(
    parent: Seq<PartView>,
    nodes: Seq<NodeView>,
    mode: ExplorerSortMode,
    apart: bool,
)
    requires
        load::all_formed(parent, nodes, apart),
    ensures
        ({
            let out = edit::resorted_all(nodes, mode);
            &&& load::all_formed(parent, out, apart)
            &&& out.len() == nodes.len()
            &&& forall|i: int| 0 <= i < nodes.len() ==> (#[trigger] out[i]).info == nodes[i].info
        }),
    decreases nodes,
{
    if nodes.len() > 0 {
        let head = nodes.drop_last();
        load::lemma_some_formed(parent, nodes, apart);
        lemma_resorting_all(parent, head, mode, apart);
        resorting_keeps_form(nodes.last(), mode, apart);
        let before = edit::resorted_all(head, mode);
        let out = edit::resorted_all(nodes, mode);
        assert forall|i: int| 0 <= i < out.len() implies (#[trigger] out[i]).info
            == nodes[i].info && load::well_formed(out[i], apart) by {
            if i < before.len() {
                assert(out[i] == before[i]);
                assert(head[i] == nodes[i]);
            }
        }
        load::lemma_same_paths_formed(parent, nodes, out, apart);
    }
}

/// Expanding or collapsing a node whose children are there leaves a tree well
/// formed, and so does collapsing one without.
pub proof fn flipping_keeps_form(node: NodeView, expanded: bool, apart: bool)
    requires
        load::well_formed(node, apart),
        expanded ==> node.children is Some,
    ensures
        load::well_formed(NodeView { expanded, ..node }, apart),
{
    if let Some(children) = node.children {
        assert(load::all_formed(node.info.path, children, apart));
    }
}

/// Collapsing all below a node leaves a tree well formed.
pub proof fn collapsing_keeps_form(node: NodeView, apart: bool)
    requires
        load::well_formed(node, apart),
    ensures
        load::well_formed(edit::collapsed_below(node), apart),
        edit::collapsed_below(node).info == node.info,
        edit::collapsed_below(node).children is Some <==> node.children is Some,
    decreases node,
{
    if let Some(children) = node.children {
        assert(load::all_formed(node.info.path, children, apart));
        lemma_collapsing_all(node.info.path, children, apart);
    }
}

pub proof fn lemma_collapsing_all(parent: Seq<PartView>, nodes: Seq<NodeView>, apart: bool)
    requires
        load::all_formed(parent, nodes, apart),
    ensures
        ({
            let out = edit::collapsed_all(nodes);
            &&& load::all_formed(parent, out, apart)
            &&& out.len() == nodes.len()
            &&& forall|i: int| 0 <= i < nodes.len() ==> (#[trigger] out[i]).info == nodes[i].info
            &&& forall|i: int| 0 <= i < nodes.len() ==> !(#[trigger] out[i]).expanded
        }),
    decreases nodes,
{
    if nodes.len() > 0 {
        let head = nodes.drop_last();
        load::lemma_some_formed(parent, nodes, apart);
        lemma_collapsing_all(parent, head, apart);
        collapsing_keeps_form(nodes.last(), apart);
        flipping_keeps_form(edit::collapsed_below(nodes.last()), false, apart);
        let before = edit::collapsed_all(head);
        let out = edit::collapsed_all(nodes);
        assert forall|i: int| 0 <= i < out.len() implies (#[trigger] out[i]).info
            == nodes[i].info && load::well_formed(out[i], apart) && !out[i].expanded by {
            if i < before.len() {
                assert(out[i] == before[i]);
                assert(head[i] == nodes[i]);
            }
        }
        load::lemma_same_paths_formed(parent, nodes, out, apart);
    }
}

/// Loading a tree anew leaves it well formed.
pub proof fn reloading_keeps_form(
    node: NodeView,
    expanded: Seq<Seq<PartView>>,
    listings: Seq<ListingView>,
    mode: ExplorerSortMode,
    apart: bool,
)
    requires
        load::well_formed(node, apart),
        apart ==> load::distinct_names(listings),
    ensures
        ({
            let after = load::reloaded(node, expanded, listings, mode).0;
            &&& load::well_formed(after, apart)
            &&& after.info == node.info
            &&& node.children is Some ==> after.children is Some
        }),
    decreases load::longest(expanded) + 1 - node.info.path.len(), 0nat,
{
    load::lemma_loaded_formed(node, listings, mode, apart);
    if node.info.is_dir {
        if let Ok(fresh) = load::loaded(node, listings, mode) {
            if expanded.contains(node.info.path) {
                load::lemma_longest(expanded, node.info.path);
                lemma_reloading_all(
                    node.info.path,
                    fresh.children->0,
                    expanded,
                    listings,
                    mode,
                    apart,
                );
            }
            let after = load::reloaded(node, expanded, listings, mode).0;
            assert(load::all_formed(after.info.path, after.children->0, apart));
        }
    }
}

pub proof fn lemma_reloading_all(
    parent: Seq<PartView>,
    nodes: Seq<NodeView>,
    expanded: Seq<Seq<PartView>>,
    listings: Seq<ListingView>,
    mode: ExplorerSortMode,
    apart: bool,
)
    requires
        load::all_formed(parent, nodes, apart),
        apart ==> load::distinct_names(listings),
    ensures
        ({
            let out = load::reloaded_all(nodes, parent.len(), expanded, listings, mode).0;
            &&& load::all_formed(parent, out, apart)
            &&& out.len() == nodes.len()
            &&& forall|i: int| 0 <= i < nodes.len() ==> (#[trigger] out[i]).info == nodes[i].info
        }),
    decreases load::longest(expanded) - parent.len(), 1 + nodes.len(),
{
    if nodes.len() > 0 {
        let first = nodes[0];
        let rest = nodes.drop_first();
        load::lemma_some_formed(parent, nodes, apart);
        lemma_reloading_all(parent, rest, expanded, listings, mode, apart);
        let tail = load::reloaded_all(rest, parent.len(), expanded, listings, mode).0;
        let out = load::reloaded_all(nodes, parent.len(), expanded, listings, mode).0;
        let mut head = first;
        if first.info.is_dir && expanded.contains(first.info.path) {
            load::lemma_longest(expanded, first.info.path);
            reloading_keeps_form(first, expanded, listings, mode, apart);
            head = load::reloaded(first, expanded, listings, mode).0;
        }
        assert forall|i: int| 0 <= i < tail.len() implies (#[trigger] tail[i]).info == nodes[i
            + 1].info by {
            assert(rest[i] == nodes[i + 1]);
        }
        lemma_front_formed(parent, nodes, head, tail, apart);
        lemma_front_formed(parent, nodes, head, rest, apart);
        assert(out == seq![head] + tail || out == seq![head] + rest);
    }
}

/// Opening the way to a path leaves a tree well formed.
pub proof fn opening_keeps_form(
    node: NodeView,
    path: Seq<PartView>,
    listings: Seq<ListingView>,
    mode: ExplorerSortMode,
    apart: bool,
)
    requires
        load::well_formed(node, apart),
        apart ==> load::distinct_names(listings),
    ensures
        ({
            let after = load::opened(node, path, listings, mode).0;
            &&& load::well_formed(after, apart)
            &&& after.info == node.info
            &&& node.children is Some ==> after.children is Some
        }),
    decreases path.len() - node.info.path.len(), 0nat,
{
    load::lemma_loaded_formed(node, listings, mode, apart);
    if node.info.path != path && node.info.is_dir && node.info.path.is_prefix_of(path) {
        if node.info.path.len() == path.len() {
            assert(path.subrange(0, path.len() as int) =~= path);
        }
        let ready = match node.children {
            Some(_) => Ok(node),
            None => load::loaded(node, listings, mode),
        };
        if let Ok(ready) = ready {
            assert(load::all_formed(node.info.path, ready.children->0, apart));
            lemma_opening_all(node.info.path, ready.children->0, path, listings, mode, apart);
            let after = load::opened(node, path, listings, mode).0;
            assert(load::all_formed(after.info.path, after.children->0, apart));
        }
    }
}

proof fn lemma_opening_all(
    parent: Seq<PartView>,
    nodes: Seq<NodeView>,
    path: Seq<PartView>,
    listings: Seq<ListingView>,
    mode: ExplorerSortMode,
    apart: bool,
)
    requires
        load::all_formed(parent, nodes, apart),
        parent.len() < path.len(),
        apart ==> load::distinct_names(listings),
    ensures
        ({
            let out = load::opened_all(nodes, parent.len(), path, listings, mode).0;
            &&& load::all_formed(parent, out, apart)
            &&& out.len() == nodes.len()
            &&& forall|i: int| 0 <= i < nodes.len() ==> (#[trigger] out[i]).info == nodes[i].info
        }),
    decreases path.len() - parent.len() - 1, 1 + nodes.len(),
{
    if nodes.len() > 0 {
        let first = nodes[0];
        let rest = nodes.drop_first();
        load::lemma_some_formed(parent, nodes, apart);
        opening_keeps_form(first, path, listings, mode, apart);
        lemma_opening_all(parent, rest, path, listings, mode, apart);
        let head = load::opened(first, path, listings, mode).0;
        let tail = load::opened_all(rest, parent.len(), path, listings, mode).0;
        let out = load::opened_all(nodes, parent.len(), path, listings, mode).0;
        assert forall|i: int| 0 <= i < tail.len() implies (#[trigger] tail[i]).info == nodes[i
            + 1].info by {
            assert(rest[i] == nodes[i + 1]);
        }
        lemma_front_formed(parent, nodes, head, tail, apart);
        lemma_front_formed(parent, nodes, head, rest, apart);
        assert(out == seq![head] + tail || out == seq![head] + rest);
    }
}

} // verus!
