//! What can be revealed in the tree.

use vstd::prelude::*;

use crate::fs_tree::laws;
use crate::fs_tree::load;
use crate::fs_tree::load::ErrorView;
use crate::fs_tree::load::ListingView;
use crate::fs_tree::load::Reach;
use crate::fs_tree::node::NodeView;
use crate::fs_tree::order::ExplorerSortMode;
use crate::fs_tree::rows;
use crate::fs_tree::TreeView;
use crate::path::PartView;

verus! {

/// A directory with its children: those that it has, or those that are read.
pub open spec fn looked_into(
    node: NodeView,
    listings: Seq<ListingView>,
    mode: ExplorerSortMode,
) -> Result<NodeView, ErrorView> {
    match node.children {
        Some(_) => Ok(node),
        None => load::loaded(node, listings, mode),
    }
}

/// Whether there is a node with a path, from a node down, as far as directories were
/// looked into or can be read.
pub open spec fn is_there(
    node: NodeView,
    path: Seq<PartView>,
    listings: Seq<ListingView>,
    mode: ExplorerSortMode,
) -> bool
    decreases path.len() - node.info.path.len(),
{
    if node.info.path == path {
        true
    } else if !node.info.is_dir || node.info.path.len() >= path.len() {
        false
    } else {
        match looked_into(node, listings, mode) {
            Err(_) => false,
            Ok(ready) => exists|i: int|
                0 <= i < ready.children->0.len() && (
                #[trigger] ready.children->0[i]).info.path.len() == node.info.path.len() + 1
                    && is_there(ready.children->0[i], path, listings, mode),
        }
    }
}

proof fn lemma_there_goes_on(
    node: NodeView,
    path: Seq<PartView>,
    listings: Seq<ListingView>,
    mode: ExplorerSortMode,
)
    requires
        is_there(node, path, listings, mode),
        load::well_formed(node, true),
        load::distinct_names(listings),
    ensures
        rows::goes_on_from(path, node.info.path),
    decreases path.len() - node.info.path.len(),
{
    assert(path.take(path.len() as int) =~= path);
    if node.info.path != path {
        let ready = looked_into(node, listings, mode)->Ok_0;
        load::lemma_loaded_formed(node, listings, mode, true);
        let children = ready.children->0;
        assert(load::all_formed(node.info.path, children, true));
        let i = choose|i: int|
            0 <= i < ready.children->0.len() && (
            #[trigger] ready.children->0[i]).info.path.len() == node.info.path.len() + 1
                && is_there(ready.children->0[i], path, listings, mode);
        lemma_there_goes_on(children[i], path, listings, mode);
        rows::lemma_child_goes_on(path, children[i].info.path, node.info.path);
    }
}

/// A node that is there is found on the way to its path.
proof fn lemma_there_is_found(
    node: NodeView,
    path: Seq<PartView>,
    listings: Seq<ListingView>,
    mode: ExplorerSortMode,
)
    requires
        is_there(node, path, listings, mode),
        load::well_formed(node, true),
        load::distinct_names(listings),
    ensures
        load::opened(node, path, listings, mode).1 is Found,
    decreases path.len() - node.info.path.len(), 0int,
{
    if node.info.path != path {
        lemma_there_goes_on(node, path, listings, mode);
        assert(path.subrange(0, node.info.path.len() as int) =~= path.take(
            node.info.path.len() as int,
        ));
        assert(node.info.path.is_prefix_of(path));
        let ready = looked_into(node, listings, mode)->Ok_0;
        load::lemma_loaded_formed(node, listings, mode, true);
        let children = ready.children->0;
        assert(load::all_formed(node.info.path, children, true));
        let i = choose|i: int|
            0 <= i < ready.children->0.len() && (
            #[trigger] ready.children->0[i]).info.path.len() == node.info.path.len() + 1
                && is_there(ready.children->0[i], path, listings, mode);
        lemma_found_below(node.info.path, children, i, path, listings, mode);
    }
}

proof fn lemma_found_below(
    parent: Seq<PartView>,
    children: Seq<NodeView>,
    i: int,
    path: Seq<PartView>,
    listings: Seq<ListingView>,
    mode: ExplorerSortMode,
)
    requires
        load::all_formed(parent, children, true),
        load::distinct_names(listings),
        parent.len() < path.len(),
        0 <= i < children.len(),
        is_there(children[i], path, listings, mode),
    ensures
        load::opened_all(children, parent.len(), path, listings, mode).1 is Found,
    decreases path.len() - parent.len() - 1, 1 + children.len(),
{
    load::lemma_some_formed(parent, children, true);
    let first = children[0];
    if i == 0 {
        lemma_there_goes_on(first, path, listings, mode);
        lemma_there_is_found(first, path, listings, mode);
        assert(parent.len() < first.info.path.len() <= path.len());
    } else {
        let rest = children.drop_first();
        assert(rest[i - 1] == children[i]);
        assert(load::well_formed(children[i], true));
        lemma_there_goes_on(children[i], path, listings, mode);
        assert(first.info.path != children[i].info.path);
        assert(first.info.path.len() == children[i].info.path.len());
        assert(!first.info.path.is_prefix_of(path)) by {
            assert(path.subrange(0, first.info.path.len() as int) =~= path.take(
                children[i].info.path.len() as int,
            ));
        }
        assert(first.info.path != path) by {
            assert(path.take(path.len() as int) =~= path);
        }
        lemma_found_below(parent, rest, i - 1, path, listings, mode);
        assert(load::opened(first, path, listings, mode).1 == Reach::NotFound);
        let below = load::opened_all(rest, parent.len(), path, listings, mode);
        assert(load::opened_all(children, parent.len(), path, listings, mode).1 == below.1);
    }
}

/// A node that is in the tree, or that can be read on the way to it, is revealed: it
/// is listed and selected.
pub proof fn what_is_there_can_be_revealed(
    tree: TreeView,
    path: Seq<PartView>,
    listings: Seq<ListingView>,
)
    requires
        tree.has_distinct_names(),
        load::distinct_names(listings),
        is_there(tree.root, path, listings, tree.mode),
    ensures
        ({
            let (after, outcome) = tree.revealed(path, listings);
            &&& outcome is Ok
            &&& after.selected < after.nodes().len()
            &&& after.nodes()[after.selected as int].path == path
        }),
{
    lemma_there_is_found(tree.root, path, listings, tree.mode);
    laws::what_is_revealed_is_selected(tree, path, listings);
}

/// Revealing a path that does not lie below the root changes nothing but that the
/// selection is put on a listed node.
pub proof fn paths_outside_are_not_revealed(
    tree: TreeView,
    path: Seq<PartView>,
    listings: Seq<ListingView>,
)
    requires
        tree.wf(),
        !rows::goes_on_from(path, tree.root.info.path),
    ensures
        tree.revealed(path, listings).1 is Ok,
        tree.revealed(path, listings).0.root == tree.root,
{
    assert(path.take(path.len() as int) =~= path);
    assert(!tree.root.info.path.is_prefix_of(path)) by {
        if tree.root.info.path.is_prefix_of(path) {
            assert(path.subrange(0, tree.root.info.path.len() as int) =~= path.take(
                tree.root.info.path.len() as int,
            ));
        }
    }
}

} // verus!
