//! Changes to the tree that leave its files as they are.

use vstd::prelude::*;

use crate::fs_tree::load;
use crate::fs_tree::load::DirListing;
use crate::fs_tree::load::ErrorView;
use crate::fs_tree::load::ListingView;
use crate::fs_tree::load::TreeError;
use crate::fs_tree::node;
use crate::fs_tree::node::FsNode;
use crate::fs_tree::node::NodeView;
use crate::fs_tree::order;
use crate::fs_tree::order::ExplorerSortMode;
use crate::path::FsPath;
use crate::path::PartView;

verus! {

/// What is done to a directory.
#[derive(Debug, Clone, Copy, PartialEq, Eq, Structural)]
pub enum Edit {
    /// Expand or collapse it, loading it where that has not been done.
    Toggle,
    Collapse,
}

/// What came of an edit.
#[derive(Debug, PartialEq, Eq)]
pub enum EditOutcome {
    /// No node has the path.
    NotFound,
    Done,
    Failed(TreeError),
}

pub enum EditView {
    NotFound,
    Done,
    Failed(ErrorView),
}

impl View for EditOutcome {
    type V = EditView;

    open spec fn view(&self) -> EditView {
        match self {
            EditOutcome::NotFound => EditView::NotFound,
            EditOutcome::Done => EditView::Done,
            EditOutcome::Failed(error) => EditView::Failed(error@),
        }
    }
}

/// A node after an edit; a file stays as it is.
pub open spec fn applied(
    node: NodeView,
    edit: Edit,
    listings: Seq<ListingView>,
    mode: ExplorerSortMode,
) -> (NodeView, EditView) {
    if !node.info.is_dir {
        (node, EditView::Done)
    } else {
        match edit {
            Edit::Collapse => (NodeView { expanded: false, ..node }, EditView::Done),
            Edit::Toggle => {
                let ready = match node.children {
                    Some(_) => Ok(node),
                    None => load::loaded(node, listings, mode),
                };
                match ready {
                    Ok(ready) => (
                        NodeView { expanded: !ready.expanded, ..ready },
                        EditView::Done,
                    ),
                    Err(error) => (node, EditView::Failed(error)),
                }
            },
        }
    }
}

/// A tree after an edit of the first node with a path, parents before children
/// and children in their order.
pub open spec fn edited(
    node: NodeView,
    path: Seq<PartView>,
    edit: Edit,
    listings: Seq<ListingView>,
    mode: ExplorerSortMode,
) -> (NodeView, EditView)
    decreases node,
{
    if node.info.path == path {
        applied(node, edit, listings, mode)
    } else {
        match node.children {
            Some(children) => {
                let (after, outcome) = edited_all(children, path, edit, listings, mode);
                (NodeView { children: Some(after), ..node }, outcome)
            },
            None => (node, EditView::NotFound),
        }
    }
}

pub open spec fn edited_all(
    nodes: Seq<NodeView>,
    path: Seq<PartView>,
    edit: Edit,
    listings: Seq<ListingView>,
    mode: ExplorerSortMode,
) -> (Seq<NodeView>, EditView)
    decreases nodes,
{
    if nodes.len() == 0 {
        (nodes, EditView::NotFound)
    } else {
        let (after, outcome) = edited(nodes[0], path, edit, listings, mode);
        match outcome {
            EditView::NotFound => {
                let (rest, outcome) = edited_all(nodes.drop_first(), path, edit, listings, mode);
                (seq![after] + rest, outcome)
            },
            _ => (seq![after] + nodes.drop_first(), outcome),
        }
    }
}

fn apply(node: &mut FsNode, edit: Edit, listings: &Vec<DirListing>, mode: ExplorerSortMode) -> (outcome:
    EditOutcome)
    ensures
        (final(node)@, outcome@) == applied(
            old(node)@,
            edit,
            load::listings_view(listings@),
            mode,
        ),
{
    proof {
        node::lemma_node_view(*node);
    }
    if !node.is_dir {
        return EditOutcome::Done;
    }
    match edit {
        Edit::Collapse => {
            node.expanded = false;
            proof {
                node::lemma_node_view(*node);
            }
            EditOutcome::Done
        },
        Edit::Toggle => {
            if node.children.is_none() {
                let outcome = load::load_children(node, listings, mode);
                if let Err(error) = outcome {
                    return EditOutcome::Failed(error);
                }
            }
            proof {
                node::lemma_node_view(*node);
            }
            node.expanded = !node.expanded;
            proof {
                node::lemma_node_view(*node);
            }
            EditOutcome::Done
        },
    }
}

/// Edits the first node with a path.
pub fn edit_node(
    node: &mut FsNode,
    path: &FsPath,
    edit: Edit,
    listings: &Vec<DirListing>,
    mode: ExplorerSortMode,
) -> (outcome: EditOutcome)
    ensures
        (final(node)@, outcome@) == edited(
            old(node)@,
            path@,
            edit,
            load::listings_view(listings@),
            mode,
        ),
    decreases *old(node),
{
    let ghost start = *node;
    let ghost lists = load::listings_view(listings@);
    proof {
        node::lemma_node_view(*node);
    }
    if node.path.same(path) {
        return apply(node, edit, listings, mode);
    }
    match node.children.take() {
        None => EditOutcome::NotFound,
        Some(children) => {
            let mut children = children;
            let ghost nodes = children@;
            let ghost orig = node::nodes_view(nodes);
            let ghost whole = edited_all(orig, path@, edit, lists, mode);
            let mut outcome = EditOutcome::NotFound;
            let mut i: usize = 0;
            proof {
                assert(orig.skip(0) =~= orig);
                assert(orig.take(0) + whole.0 =~= whole.0);
            }
            while i < children.len()
                invariant_except_break
                    outcome@ is NotFound,
                    forall|k: int| i <= k < nodes.len() ==> children@[k] == nodes[k],
                    whole.1 == edited_all(orig.skip(i as int), path@, edit, lists, mode).1,
                    whole.0 == node::nodes_view(children@).take(i as int) + edited_all(
                        orig.skip(i as int),
                        path@,
                        edit,
                        lists,
                        mode,
                    ).0,
                invariant
                    i <= children@.len(),
                    children@.len() == orig.len(),
                    start == *old(node),
                    start.children matches Some(v) && v@ == nodes,
                    orig == node::nodes_view(nodes),
                    lists == load::listings_view(listings@),
                ensures
                    whole == (node::nodes_view(children@), outcome@),
                decreases children@.len() - i,
            {
                let ghost rest = orig.skip(i as int);
                let ghost head = node::nodes_view(children@).take(i as int);
                proof {
                    assert(rest[0] == nodes[i as int]@);
                    assert(rest.drop_first() =~= orig.skip(i + 1));
                }
                outcome = edit_node(&mut children[i], path, edit, listings, mode);
                proof {
                    assert(node::nodes_view(children@).take(i as int) =~= head);
                }
                match &outcome {
                    EditOutcome::NotFound => {},
                    _ => {
                        proof {
                            assert(node::nodes_view(children@) =~= head + (
                            seq![children@[i as int]@] + rest.drop_first()));
                        }
                        break;
                    },
                }
                proof {
                    let next = edited_all(orig.skip(i + 1), path@, edit, lists, mode).0;
                    assert(head + (seq![children@[i as int]@] + next) =~= node::nodes_view(
                        children@,
                    ).take(i + 1) + next);
                    if i + 1 == children@.len() {
                        assert(orig.skip(i + 1) =~= Seq::<NodeView>::empty());
                        assert(node::nodes_view(children@).take(i + 1) + next
                            =~= node::nodes_view(children@));
                    }
                }
                i = i + 1;
            }
            node.children = Some(children);
            proof {
                node::lemma_node_view(*node);
            }
            outcome
        },
    }
}

/// A tree with the children of every directory sorted.
pub open spec fn resorted(node: NodeView, mode: ExplorerSortMode) -> NodeView
    decreases node,
{
    match node.children {
        Some(children) => NodeView {
            children: Some(order::sorted(resorted_all(children, mode), mode)),
            ..node
        },
        None => node,
    }
}

pub open spec fn resorted_all(nodes: Seq<NodeView>, mode: ExplorerSortMode) -> Seq<NodeView>
    decreases nodes,
{
    if nodes.len() == 0 {
        nodes
    } else {
        resorted_all(nodes.drop_last(), mode).push(resorted(nodes.last(), mode))
    }
}

/// Sorts the loaded children of every directory.
pub fn sort_loaded_children(node: &mut FsNode, sort_mode: ExplorerSortMode)
    ensures
        final(node)@ == resorted(old(node)@, sort_mode),
    decreases *old(node),
{
    let ghost start = *node;
    proof {
        node::lemma_node_view(*node);
    }
    if let Some(children) = node.children.take() {
        let mut children = children;
        let ghost nodes = children@;
        let ghost orig = node::nodes_view(nodes);
        let mut i: usize = 0;
        while i < children.len()
            invariant
                i <= children@.len(),
                children@.len() == nodes.len(),
                start == *old(node),
                start.children matches Some(v) && v@ == nodes,
                orig == node::nodes_view(nodes),
                forall|k: int| i <= k < nodes.len() ==> children@[k] == nodes[k],
                node::nodes_view(children@).take(i as int) == resorted_all(
                    orig.take(i as int),
                    sort_mode,
                ),
            decreases children@.len() - i,
        {
            let ghost head = node::nodes_view(children@).take(i as int);
            proof {
                assert(orig.take(i + 1).drop_last() =~= orig.take(i as int));
                assert(orig.take(i + 1).last() == nodes[i as int]@);
            }
            sort_loaded_children(&mut children[i], sort_mode);
            proof {
                assert(node::nodes_view(children@).take(i + 1) =~= head.push(
                    children@[i as int]@,
                ));
            }
            i = i + 1;
        }
        proof {
            assert(orig.take(i as int) =~= orig);
            assert(node::nodes_view(children@).take(i as int) =~= node::nodes_view(children@));
        }
        node.children = Some(order::sort_nodes(children, sort_mode));
    }
    proof {
        node::lemma_node_view(*node);
    }
}

/// A tree with everything below its root collapsed.
pub open spec fn collapsed_below(node: NodeView) -> NodeView
    decreases node,
{
    match node.children {
        Some(children) => NodeView { children: Some(collapsed_all(children)), ..node },
        None => node,
    }
}

pub open spec fn collapsed_all(nodes: Seq<NodeView>) -> Seq<NodeView>
    decreases nodes,
{
    if nodes.len() == 0 {
        nodes
    } else {
        collapsed_all(nodes.drop_last()).push(
            NodeView { expanded: false, ..collapsed_below(nodes.last()) },
        )
    }
}

/// Collapses everything below a node.
pub fn collapse_descendants(node: &mut FsNode)
    ensures
        final(node)@ == collapsed_below(old(node)@),
    decreases *old(node), 0nat,
{
    let ghost start = *node;
    proof {
        node::lemma_node_view(*node);
    }
    if let Some(children) = node.children.take() {
        let mut children = children;
        let ghost nodes = children@;
        let ghost orig = node::nodes_view(nodes);
        let mut i: usize = 0;
        while i < children.len()
            invariant
                i <= children@.len(),
                children@.len() == nodes.len(),
                start == *old(node),
                start.children matches Some(v) && v@ == nodes,
                orig == node::nodes_view(nodes),
                forall|k: int| i <= k < nodes.len() ==> children@[k] == nodes[k],
                node::nodes_view(children@).take(i as int) == collapsed_all(orig.take(i as int)),
            decreases children@.len() - i,
        {
            let ghost head = node::nodes_view(children@).take(i as int);
            proof {
                assert(orig.take(i + 1).drop_last() =~= orig.take(i as int));
                assert(orig.take(i + 1).last() == nodes[i as int]@);
            }
            collapse_child(&mut children[i]);
            proof {
                assert(node::nodes_view(children@).take(i + 1) =~= head.push(
                    children@[i as int]@,
                ));
            }
            i = i + 1;
        }
        proof {
            assert(orig.take(i as int) =~= orig);
            assert(node::nodes_view(children@).take(i as int) =~= node::nodes_view(children@));
        }
        node.children = Some(children);
    }
    proof {
        node::lemma_node_view(*node);
    }
}

fn collapse_child(node: &mut FsNode)
    ensures
        final(node)@ == (NodeView { expanded: false, ..collapsed_below(old(node)@) }),
    decreases *old(node), 1nat,
{
    collapse_descendants(node);
    proof {
        node::lemma_node_view(*node);
    }
    node.expanded = false;
    proof {
        node::lemma_node_view(*node);
    }
}

/// The paths of the directories that are expanded, below a node that is.
pub open spec fn expanded_paths(node: NodeView) -> Seq<Seq<PartView>>
    decreases node,
{
    if node.info.is_dir && node.expanded {
        match node.children {
            Some(children) => seq![node.info.path] + expanded_paths_all(children),
            None => seq![node.info.path],
        }
    } else {
        Seq::empty()
    }
}

pub open spec fn expanded_paths_all(nodes: Seq<NodeView>) -> Seq<Seq<PartView>>
    decreases nodes,
{
    if nodes.len() == 0 {
        Seq::empty()
    } else {
        expanded_paths_all(nodes.drop_last()) + expanded_paths(nodes.last())
    }
}

/// Appends the paths of the directories that are expanded.
pub fn collect_expanded(node: &FsNode, expanded: &mut Vec<FsPath>)
    ensures
        load::paths_view(final(expanded)@) == load::paths_view(old(expanded)@) + expanded_paths(
            node@,
        ),
    decreases node,
{
    let ghost before = load::paths_view(expanded@);
    proof {
        node::lemma_node_view(*node);
    }
    if node.is_dir && node.expanded {
        let ghost listed = expanded@;
        expanded.push(node.path.copy());
        proof {
            assert(load::paths_view(expanded@) =~= before + seq![node@.info.path]);
        }
        let ghost first = load::paths_view(expanded@);
        if let Some(children) = &node.children {
            let ghost orig = node::nodes_view(children@);
            proof {
                assert(first + expanded_paths_all(orig.take(0)) =~= first);
            }
            for i in 0..children.len()
                invariant
                    node.children matches Some(v) && v == children,
                    orig == node::nodes_view(children@),
                    load::paths_view(expanded@) == first + expanded_paths_all(orig.take(i as int)),
            {
                proof {
                    assert(orig.take(i + 1).drop_last() =~= orig.take(i as int));
                }
                collect_expanded(&children[i], expanded);
                proof {
                    assert(load::paths_view(expanded@) =~= first + expanded_paths_all(
                        orig.take(i + 1),
                    ));
                }
            }
            proof {
                assert(orig.take(children@.len() as int) =~= orig);
            }
        }
        proof {
            assert(load::paths_view(expanded@) =~= before + expanded_paths(node@));
        }
    } else {
        proof {
            assert(before + Seq::<Seq<PartView>>::empty() =~= before);
        }
    }
}

} // verus!
