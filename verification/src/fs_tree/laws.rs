//! What holds of the tree whatever is done to it.

use vstd::prelude::*;

use crate::fs_tree;
use crate::fs_tree::edit;
use crate::fs_tree::edit::Edit;
use crate::fs_tree::form;
use crate::fs_tree::load;
use crate::fs_tree::load::ListingView;
use crate::fs_tree::node::NodeView;
use crate::fs_tree::order;
use crate::fs_tree::order::ExplorerSortMode;
use crate::fs_tree::rows;
use crate::fs_tree::TreeView;
use crate::fs_tree::VisibleView;
use crate::path::PartView;

verus! {

/// After every change the selection and the scroll position are on listed nodes.
pub proof fn selection_stays_on_listed_nodes(tree: TreeView)
    ensures
        tree.clamped().nodes() == tree.nodes(),
        tree.clamped().selected < tree.nodes().len(),
        tree.clamped().scroll < tree.nodes().len(),
{
    assert(fs_tree::visible(tree.root, 0).len() > 0);
}

proof fn lemma_visible_all_files(nodes: Seq<NodeView>, depth: nat)
    requires
        forall|i: int| 0 <= i < nodes.len() ==> !(#[trigger] nodes[i]).expanded,
    ensures
        fs_tree::visible_all(nodes, depth) == Seq::new(
            nodes.len(),
            |i: int| fs_tree::listed(nodes[i], depth),
        ),
    decreases nodes,
{
    let out = fs_tree::visible_all(nodes, depth);
    if nodes.len() > 0 {
        let head = nodes.drop_last();
        assert forall|i: int| 0 <= i < head.len() implies !(#[trigger] head[i]).expanded by {
            assert(head[i] == nodes[i]);
        }
        lemma_visible_all_files(head, depth);
        assert(!nodes[nodes.len() - 1].expanded);
        assert(fs_tree::visible(nodes.last(), depth) == seq![fs_tree::listed(nodes.last(), depth)]);
        assert(out =~= Seq::new(nodes.len(), |i: int| fs_tree::listed(nodes[i], depth)));
    } else {
        assert(out =~= Seq::new(nodes.len(), |i: int| fs_tree::listed(nodes[i], depth)));
    }
}

/// Whether no node below a node is expanded, listed or not.
pub open spec fn shut(node: NodeView) -> bool
    decreases node,
{
    node.children matches Some(children) ==> forall|i: int|
        0 <= i < children.len() ==> !(#[trigger] children[i]).expanded && shut(children[i])
}

proof fn lemma_collapsed_shut(node: NodeView)
    ensures
        shut(edit::collapsed_below(node)),
        edit::collapsed_below(edit::collapsed_below(node)) == edit::collapsed_below(node),
        edit::collapsed_below(NodeView { expanded: true, ..edit::collapsed_below(node) })
            == (NodeView { expanded: true, ..edit::collapsed_below(node) }),
        edit::collapsed_below(NodeView { expanded: false, ..edit::collapsed_below(node) })
            == (NodeView { expanded: false, ..edit::collapsed_below(node) }),
    decreases node,
{
    if let Some(children) = node.children {
        lemma_collapsed_all_shut(children);
    }
}

proof fn lemma_collapsed_all_shut(nodes: Seq<NodeView>)
    ensures
        ({
            let out = edit::collapsed_all(nodes);
            &&& forall|i: int|
                0 <= i < out.len() ==> !(#[trigger] out[i]).expanded && shut(out[i])
            &&& edit::collapsed_all(out) == out
        }),
    decreases nodes,
{
    if nodes.len() > 0 {
        lemma_collapsed_all_shut(nodes.drop_last());
        lemma_collapsed_shut(nodes.last());
        let before = edit::collapsed_all(nodes.drop_last());
        let out = edit::collapsed_all(nodes);
        assert(out.drop_last() =~= before);
        assert forall|i: int| 0 <= i < out.len() implies !(#[trigger] out[i]).expanded && shut(
            out[i],
        ) by {
            if i < before.len() {
                assert(out[i] == before[i]);
            }
        }
    }
}

/// With everything collapsed, the root and its children are listed, in their
/// order and none of them expanded, and nothing else. Nor is anything expanded
/// that is not listed. Doing it again changes nothing.
pub proof fn collapse_all_lists_the_children(tree: TreeView)
    requires
        tree.wf(),
    ensures
        ({
            let after = tree.all_collapsed();
            let children = tree.root.children->0;
            let nodes = after.nodes();
            &&& nodes.len() == children.len() + 1
            &&& nodes[0] == fs_tree::listed(NodeView { expanded: true, ..tree.root }, 0)
            &&& forall|i: int|
                0 <= i < children.len() ==> (#[trigger] nodes[i + 1]) == fs_tree::listed(
                    NodeView { expanded: false, ..children[i] },
                    1,
                )
            &&& shut(after.root)
            &&& after.all_collapsed() == after
            &&& after.selected < nodes.len()
            &&& after.scroll < nodes.len()
        }),
{
    let root = tree.root;
    let children = root.children->0;
    assert(load::all_formed(root.info.path, children, false));
    form::lemma_collapsing_all(root.info.path, children, false);
    let below = edit::collapsed_all(children);
    lemma_visible_all_files(below, 1);
    let after = NodeView { expanded: true, ..edit::collapsed_below(root) };
    assert(after.children == Some(below));
    let nodes = fs_tree::visible(after, 0);
    assert(nodes == seq![fs_tree::listed(after, 0)] + fs_tree::visible_all(below, 1));
    assert forall|i: int| 0 <= i < children.len() implies (#[trigger] nodes[i + 1])
        == fs_tree::listed(NodeView { expanded: false, ..children[i] }, 1) by {
        assert(nodes[i + 1] == fs_tree::visible_all(below, 1)[i]);
        assert(below[i].info == children[i].info);
    }
    lemma_collapsed_shut(root);
    lemma_collapsed_all_shut(children);
    let done = tree.all_collapsed();
    assert(done.root == after);
    assert(edit::collapsed_below(after) == after);
    assert(NodeView { expanded: true, ..edit::collapsed_below(after) } == after);
}

/// A directory that is expanded while nothing below it is lists its children, each
/// of them collapsed.
pub proof fn expanding_what_is_shut_lists_collapsed_children(node: NodeView, depth: nat)
    requires
        shut(node),
        node.info.is_dir,
        node.children is Some,
    ensures
        fs_tree::visible(NodeView { expanded: true, ..node }, depth) == seq![
            fs_tree::listed(NodeView { expanded: true, ..node }, depth),
        ] + Seq::new(
            node.children->0.len(),
            |i: int|
                fs_tree::listed(NodeView { expanded: false, ..node.children->0[i] }, depth + 1),
        ),
{
    let children = node.children->0;
    lemma_visible_all_files(children, depth + 1);
    assert(Seq::new(children.len(), |i: int| fs_tree::listed(children[i], depth + 1))
        =~= Seq::new(
        children.len(),
        |i: int| fs_tree::listed(NodeView { expanded: false, ..children[i] }, depth + 1),
    ));
}

/// Expanding a child of the root after everything was collapsed lists the child
/// expanded and all others collapsed: its directories are collapsed.
pub proof fn expanding_after_collapse_all_lists_collapsed_directories(
    tree: TreeView,
    path: Seq<PartView>,
    listings: Seq<ListingView>,
    k: int,
)
    requires
        tree.has_distinct_names(),
        1 <= k < tree.all_collapsed().nodes().len(),
        tree.all_collapsed().nodes()[k].path == path,
        tree.all_collapsed().nodes()[k].is_dir,
        tree.all_collapsed().toggled(path, listings).1 is Ok,
    ensures
        ({
            let nodes = tree.all_collapsed().toggled(path, listings).0.nodes();
            &&& k < nodes.len()
            &&& nodes[k].path == path
            &&& forall|i: int|
                1 <= i < nodes.len() ==> ((#[trigger] nodes[i]).expanded <==> i == k)
        }),
{
    let root = tree.root;
    let shut_tree = tree.all_collapsed();
    let before = shut_tree.nodes();
    collapse_all_lists_the_children(tree);
    form::collapsing_keeps_form(root, true);
    form::flipping_keeps_form(edit::collapsed_below(root), true, true);
    let own = rows::shown(shut_tree.root)[k];
    rows::lemma_row_place(shut_tree.root, 0, k);
    let below = shut_tree.root.children->0;
    rows::lemma_shown_all_collapsed(below);
    assert(own == below[k - 1]);
    assert(before[(k - 1) + 1] == fs_tree::listed(
        NodeView { expanded: false, ..root.children->0[k - 1] },
        1,
    ));
    let end = rows::lemma_edited_rows(
        shut_tree.root,
        0,
        path,
        Edit::Toggle,
        listings,
        shut_tree.mode,
        k,
    );
    let now = shut_tree.toggled(path, listings).0.nodes();
    let ready = match own.children {
        Some(_) => own,
        None => load::loaded(own, listings, shut_tree.mode)->Ok_0,
    };
    lemma_loaded_untouched(own, listings, shut_tree.mode);
    assert(shut(ready)) by {
        let children = ready.children->0;
        assert forall|i: int| 0 <= i < children.len() implies !(
        #[trigger] children[i]).expanded && shut(children[i]) by {
            if own.children is None {
                assert(children[i].children is None);
            } else {
                assert(shut(own));
            }
        }
    }
    expanding_what_is_shut_lists_collapsed_children(ready, 1);
    let own_now = fs_tree::visible(NodeView { expanded: true, ..ready }, 1);
    assert(now == before.take(k) + own_now + before.skip(end));
    assert forall|i: int| 1 <= i < now.len() implies ((#[trigger] now[i]).expanded <==> i
        == k) by {
        if i < k {
            assert(now[i] == before[i]);
            assert(before[(i - 1) + 1] == before[i]);
        } else if i < k + own_now.len() {
            assert(now[i] == own_now[i - k]);
        } else {
            let j = i - k - own_now.len() + end;
            assert(now[i] == before[j]);
            assert(before[(j - 1) + 1] == before[j]);
        }
    }
}

/// Whether a path is that of a listed node.
pub open spec fn lists(nodes: Seq<VisibleView>, path: Seq<PartView>) -> bool {
    exists|i: int| 0 <= i < nodes.len() && (#[trigger] nodes[i]).path == path
}

proof fn lemma_position_of(nodes: Seq<VisibleView>, path: Seq<PartView>)
    ensures
        lists(nodes, path) <==> fs_tree::position_of(nodes, path) is Some,
        fs_tree::position_of(nodes, path) matches Some(i) ==> 0 <= i < nodes.len() && nodes[i].path
            == path,
    decreases nodes.len(),
{
    if nodes.len() > 0 {
        let head = nodes.drop_last();
        lemma_position_of(head, path);
        if lists(head, path) {
            let i = choose|i: int| 0 <= i < head.len() && (#[trigger] head[i]).path == path;
            assert(nodes[i].path == path);
        } else if lists(nodes, path) {
            let i = choose|i: int| 0 <= i < nodes.len() && (#[trigger] nodes[i]).path == path;
            if i < nodes.len() - 1 {
                assert(head[i].path == path);
            }
        } else if nodes.last().path == path {
            assert(nodes[nodes.len() - 1].path == path);
        }
    }
}

proof fn lemma_lists_in_all(nodes: Seq<NodeView>, depth: nat, k: int, path: Seq<PartView>)
    requires
        0 <= k < nodes.len(),
        lists(fs_tree::visible(nodes[k], depth), path),
    ensures
        lists(fs_tree::visible_all(nodes, depth), path),
    decreases nodes,
{
    let before = fs_tree::visible_all(nodes.drop_last(), depth);
    let last = fs_tree::visible(nodes.last(), depth);
    let all = fs_tree::visible_all(nodes, depth);
    if k == nodes.len() - 1 {
        let i = choose|i: int| 0 <= i < last.len() && (#[trigger] last[i]).path == path;
        assert(all[before.len() + i] == last[i]);
    } else {
        assert(nodes.drop_last()[k] == nodes[k]);
        lemma_lists_in_all(nodes.drop_last(), depth, k, path);
        let i = choose|i: int| 0 <= i < before.len() && (#[trigger] before[i]).path == path;
        assert(all[i] == before[i]);
    }
}

/// Where the way to a path leads to a node, the node is listed once the way has
/// been opened: what is revealed can be seen, and is what is selected.
pub proof fn what_is_revealed_is_selected(
    tree: TreeView,
    path: Seq<PartView>,
    listings: Seq<ListingView>,
)
    requires
        load::opened(tree.root, path, listings, tree.mode).1 is Found,
    ensures
        ({
            let (after, outcome) = tree.revealed(path, listings);
            &&& outcome is Ok
            &&& after.selected < after.nodes().len()
            &&& after.nodes()[after.selected as int].path == path
            &&& after.scroll < after.nodes().len()
        }),
{
    let root = load::opened(tree.root, path, listings, tree.mode).0;
    lemma_found_is_listed(tree.root, 0, path, listings, tree.mode);
    lemma_position_of(fs_tree::visible(root, 0), path);
}

proof fn lemma_found_is_listed(
    node: NodeView,
    depth: nat,
    path: Seq<PartView>,
    listings: Seq<ListingView>,
    mode: ExplorerSortMode,
)
    requires
        load::opened(node, path, listings, mode).1 is Found,
    ensures
        lists(fs_tree::visible(load::opened(node, path, listings, mode).0, depth), path),
    decreases path.len() - node.info.path.len(), 0nat,
{
    let after = load::opened(node, path, listings, mode).0;
    let nodes = fs_tree::visible(after, depth);
    if node.info.path == path {
        assert(nodes[0].path == path);
    } else {
        if node.info.path.len() == path.len() {
            assert(path.subrange(0, path.len() as int) =~= path);
        }
        let ready = match node.children {
            Some(_) => Ok(node),
            None => load::loaded(node, listings, mode),
        };
        let children = ready->Ok_0.children->0;
        assert(ready->Ok_0.info == node.info);
        let k = lemma_found_among(children, node.info.path.len(), depth + 1, path, listings, mode);
        let opened = load::opened_all(children, node.info.path.len(), path, listings, mode).0;
        lemma_lists_in_all(opened, depth + 1, k, path);
        let below = fs_tree::visible_all(opened, depth + 1);
        assert(nodes == seq![fs_tree::listed(after, depth)] + below);
        let i = choose|i: int| 0 <= i < below.len() && (#[trigger] below[i]).path == path;
        assert(nodes[i + 1] == below[i]);
    }
}

proof fn lemma_found_among(
    nodes: Seq<NodeView>,
    parent_len: nat,
    depth: nat,
    path: Seq<PartView>,
    listings: Seq<ListingView>,
    mode: ExplorerSortMode,
) -> (k: int)
    requires
        parent_len < path.len(),
        load::opened_all(nodes, parent_len, path, listings, mode).1 is Found,
    ensures
        0 <= k < load::opened_all(nodes, parent_len, path, listings, mode).0.len(),
        lists(
            fs_tree::visible(
                load::opened_all(nodes, parent_len, path, listings, mode).0[k],
                depth,
            ),
            path,
        ),
    decreases path.len() - parent_len - 1, 1 + nodes.len(),
{
    let first = nodes[0];
    let out = load::opened_all(nodes, parent_len, path, listings, mode).0;
    let tried = parent_len < first.info.path.len() <= path.len();
    if tried && load::opened(first, path, listings, mode).1 is Found {
        lemma_found_is_listed(first, depth, path, listings, mode);
        assert(out[0] == load::opened(first, path, listings, mode).0);
        0
    } else {
        let rest = nodes.drop_first();
        let k = lemma_found_among(rest, parent_len, depth, path, listings, mode);
        assert(out[k + 1] == load::opened_all(rest, parent_len, path, listings, mode).0[k]);
        k + 1
    }
}

/// Whether listed directories are expanded exactly where their paths are among
/// several.
pub open spec fn expanded_exactly(
    nodes: Seq<VisibleView>,
    expanded: Seq<Seq<PartView>>,
) -> bool {
    forall|i: int|
        0 <= i < nodes.len() && (#[trigger] nodes[i]).is_dir ==> (nodes[i].expanded
            <==> expanded.contains(nodes[i].path))
}

/// Whether nodes are as they were loaded.
pub open spec fn untouched(nodes: Seq<NodeView>) -> bool {
    forall|i: int|
        0 <= i < nodes.len() ==> !(#[trigger] nodes[i]).expanded && nodes[i].children is None
}

proof fn lemma_inserted_untouched(nodes: Seq<NodeView>, node: NodeView, mode: ExplorerSortMode)
    requires
        untouched(nodes),
        !node.expanded,
        node.children is None,
    ensures
        untouched(order::inserted(nodes, node, mode)),
    decreases nodes.len(),
{
    let out = order::inserted(nodes, node, mode);
    if nodes.len() > 0 && !order::stands_behind(nodes[0], node, mode) {
        let rest = nodes.drop_first();
        assert forall|i: int| 0 <= i < rest.len() implies !(#[trigger] rest[i]).expanded
            && rest[i].children is None by {
            assert(rest[i] == nodes[i + 1]);
        }
        lemma_inserted_untouched(rest, node, mode);
        let tail = order::inserted(rest, node, mode);
        assert forall|i: int| 0 <= i < out.len() implies !(#[trigger] out[i]).expanded
            && out[i].children is None by {
            if i > 0 {
                assert(out[i] == tail[i - 1]);
            } else {
                assert(out[0] == nodes[0]);
            }
        }
    } else {
        assert forall|i: int| 0 <= i < out.len() implies !(#[trigger] out[i]).expanded
            && out[i].children is None by {
            if i > 0 {
                assert(out[i] == nodes[i - 1]);
            }
        }
    }
}

proof fn lemma_sorted_untouched(nodes: Seq<NodeView>, mode: ExplorerSortMode)
    requires
        untouched(nodes),
    ensures
        untouched(order::sorted(nodes, mode)),
    decreases nodes.len(),
{
    if nodes.len() > 0 {
        let head = nodes.drop_last();
        assert forall|i: int| 0 <= i < head.len() implies !(#[trigger] head[i]).expanded
            && head[i].children is None by {
            assert(head[i] == nodes[i]);
        }
        lemma_sorted_untouched(head, mode);
        assert(!nodes[nodes.len() - 1].expanded);
        lemma_inserted_untouched(order::sorted(head, mode), nodes.last(), mode);
    }
}

proof fn lemma_refresh_expands(
    node: NodeView,
    depth: nat,
    expanded: Seq<Seq<PartView>>,
    listings: Seq<ListingView>,
    mode: ExplorerSortMode,
)
    requires
        node.info.is_dir,
        load::reloaded(node, expanded, listings, mode).1 is Ok,
    ensures
        expanded_exactly(
            fs_tree::visible(load::reloaded(node, expanded, listings, mode).0, depth),
            expanded,
        ),
    decreases load::longest(expanded) + 1 - node.info.path.len(), 0nat,
{
    let after = load::reloaded(node, expanded, listings, mode).0;
    let out = fs_tree::visible(after, depth);
    let fresh = load::loaded(node, listings, mode)->Ok_0;
    let entries = load::known(listings, node.info.path)->0->0;
    let bare = load::entry_nodes(node.info.path, entries);
    assert(untouched(bare));
    lemma_sorted_untouched(bare, mode);
    if expanded.contains(node.info.path) {
        load::lemma_longest(expanded, node.info.path);
        load::lemma_loaded_formed(node, listings, mode, false);
        lemma_refresh_all(node.info.path, fresh.children->0, depth + 1, expanded, listings, mode);
        let below = fs_tree::visible_all(after.children->0, depth + 1);
        assert(out == seq![fs_tree::listed(after, depth)] + below);
        assert forall|i: int| 0 <= i < out.len() && (#[trigger] out[i]).is_dir implies (
        out[i].expanded <==> expanded.contains(out[i].path)) by {
            if i > 0 {
                assert(out[i] == below[i - 1]);
            }
        }
    }
}

proof fn lemma_refresh_all(
    parent: Seq<PartView>,
    nodes: Seq<NodeView>,
    depth: nat,
    expanded: Seq<Seq<PartView>>,
    listings: Seq<ListingView>,
    mode: ExplorerSortMode,
)
    requires
        load::all_formed(parent, nodes, false),
        untouched(nodes),
        load::reloaded_all(nodes, parent.len(), expanded, listings, mode).1 is Ok,
    ensures
        expanded_exactly(
            fs_tree::visible_all(
                load::reloaded_all(nodes, parent.len(), expanded, listings, mode).0,
                depth,
            ),
            expanded,
        ),
    decreases load::longest(expanded) - parent.len(), 1 + nodes.len(),
{
    let out = load::reloaded_all(nodes, parent.len(), expanded, listings, mode).0;
    if nodes.len() > 0 {
        let first = nodes[0];
        let rest = nodes.drop_first();
        assert forall|i: int| 0 <= i < rest.len() implies load::is_child_path(
            parent,
            (#[trigger] rest[i]).info.path,
        ) && load::well_formed(rest[i], false) by {
            assert(rest[i] == nodes[i + 1]);
        }
        assert forall|i: int| 0 <= i < rest.len() implies !(#[trigger] rest[i]).expanded
            && rest[i].children is None by {
            assert(rest[i] == nodes[i + 1]);
        }
        let tail = load::reloaded_all(rest, parent.len(), expanded, listings, mode).0;
        let mut head = first;
        if first.info.is_dir && expanded.contains(first.info.path) {
            load::lemma_longest(expanded, first.info.path);
            lemma_refresh_expands(first, depth, expanded, listings, mode);
            head = load::reloaded(first, expanded, listings, mode).0;
        }
        lemma_refresh_all(parent, rest, depth, expanded, listings, mode);
        assert(out =~= seq![head] + tail);
        rows::lemma_visible_all_front(out, depth);
        assert(out.drop_first() =~= tail);
        let all = fs_tree::visible_all(out, depth);
        let front = fs_tree::visible(head, depth);
        let back = fs_tree::visible_all(tail, depth);
        assert(all == front + back);
        assert forall|i: int| 0 <= i < all.len() && (#[trigger] all[i]).is_dir implies (
        all[i].expanded <==> expanded.contains(all[i].path)) by {
            if i < front.len() {
                assert(all[i] == front[i]);
            } else {
                assert(all[i] == back[i - front.len()]);
            }
        }
    }
}

/// Whether every expanded directory from a node down has the entries of its
/// listing as its children, in order.
pub open spec fn as_listed(
    node: NodeView,
    listings: Seq<ListingView>,
    mode: ExplorerSortMode,
) -> bool
    decreases node,
{
    node.info.is_dir && node.expanded ==> {
        &&& node.children is Some
        &&& load::known(listings, node.info.path) matches Some(Some(entries)) && {
            let children = node.children->0;
            let read = order::sorted(load::entry_nodes(node.info.path, entries), mode);
            &&& children.len() == read.len()
            &&& forall|i: int|
                0 <= i < children.len() ==> (#[trigger] children[i]).info == read[i].info
                    && as_listed(children[i], listings, mode)
        }
    }
}

proof fn lemma_reloaded_as_listed(
    node: NodeView,
    expanded: Seq<Seq<PartView>>,
    listings: Seq<ListingView>,
    mode: ExplorerSortMode,
)
    requires
        node.info.is_dir,
        load::reloaded(node, expanded, listings, mode).1 is Ok,
    ensures
        as_listed(load::reloaded(node, expanded, listings, mode).0, listings, mode),
    decreases load::longest(expanded) + 1 - node.info.path.len(), 0nat,
{
    let after = load::reloaded(node, expanded, listings, mode).0;
    let fresh = load::loaded(node, listings, mode)->Ok_0;
    if expanded.contains(node.info.path) {
        let read = fresh.children->0;
        load::lemma_longest(expanded, node.info.path);
        load::lemma_loaded_formed(node, listings, mode, false);
        lemma_loaded_untouched(node, listings, mode);
        form::lemma_reloading_all(node.info.path, read, expanded, listings, mode, false);
        lemma_reloaded_all_as_listed(node.info.path, read, expanded, listings, mode);
        let children = load::reloaded_all(
            read,
            node.info.path.len(),
            expanded,
            listings,
            mode,
        ).0;
        assert(after.children == Some(children));
        assert forall|i: int| 0 <= i < children.len() implies (#[trigger] children[i]).info
            == read[i].info && as_listed(children[i], listings, mode) by {}
    }
}

proof fn lemma_reloaded_all_as_listed(
    parent: Seq<PartView>,
    nodes: Seq<NodeView>,
    expanded: Seq<Seq<PartView>>,
    listings: Seq<ListingView>,
    mode: ExplorerSortMode,
)
    requires
        load::all_formed(parent, nodes, false),
        untouched(nodes),
        load::reloaded_all(nodes, parent.len(), expanded, listings, mode).1 is Ok,
    ensures
        ({
            let out = load::reloaded_all(nodes, parent.len(), expanded, listings, mode).0;
            forall|i: int| 0 <= i < out.len() ==> as_listed(#[trigger] out[i], listings, mode)
        }),
    decreases load::longest(expanded) - parent.len(), 1 + nodes.len(),
{
    if nodes.len() > 0 {
        let first = nodes[0];
        let rest = nodes.drop_first();
        load::lemma_some_formed(parent, nodes, false);
        lemma_rest_untouched(nodes);
        let mut head = first;
        if first.info.is_dir && expanded.contains(first.info.path) {
            load::lemma_longest(expanded, first.info.path);
            lemma_reloaded_as_listed(first, expanded, listings, mode);
            head = load::reloaded(first, expanded, listings, mode).0;
        } else {
            assert(!nodes[0].expanded);
            assert(as_listed(head, listings, mode));
        }
        lemma_reloaded_all_as_listed(parent, rest, expanded, listings, mode);
        let tail = load::reloaded_all(rest, parent.len(), expanded, listings, mode).0;
        let out = load::reloaded_all(nodes, parent.len(), expanded, listings, mode).0;
        assert(out == seq![head] + tail);
        assert forall|i: int| 0 <= i < out.len() implies as_listed(
            #[trigger] out[i],
            listings,
            mode,
        ) by {
            if i > 0 {
                assert(out[i] == tail[i - 1]);
            }
        }
    }
}

proof fn lemma_rest_untouched(nodes: Seq<NodeView>)
    requires
        untouched(nodes),
        nodes.len() > 0,
    ensures
        untouched(nodes.drop_first()),
{
    let rest = nodes.drop_first();
    assert forall|i: int| 0 <= i < rest.len() implies !(#[trigger] rest[i]).expanded
        && rest[i].children is None by {
        assert(rest[i] == nodes[i + 1]);
    }
}

proof fn lemma_expanded_paths_front(nodes: Seq<NodeView>)
    requires
        nodes.len() > 0,
    ensures
        edit::expanded_paths_all(nodes) == edit::expanded_paths(nodes[0])
            + edit::expanded_paths_all(nodes.drop_first()),
    decreases nodes.len(),
{
    let rest = nodes.drop_first();
    if nodes.len() == 1 {
        assert(nodes.drop_last() =~= Seq::<NodeView>::empty());
        assert(rest =~= Seq::<NodeView>::empty());
    } else {
        lemma_expanded_paths_front(nodes.drop_last());
        assert(nodes.drop_last().drop_first() =~= rest.drop_last());
    }
    assert(edit::expanded_paths_all(nodes) =~= edit::expanded_paths(nodes[0])
        + edit::expanded_paths_all(rest));
}

/// Whether all of several paths are among others.
pub open spec fn within(paths: Seq<Seq<PartView>>, others: Seq<Seq<PartView>>) -> bool {
    forall|i: int| 0 <= i < paths.len() ==> others.contains(#[trigger] paths[i])
}

proof fn lemma_within_concat(
    first: Seq<Seq<PartView>>,
    second: Seq<Seq<PartView>>,
    others: Seq<Seq<PartView>>,
)
    ensures
        within(first + second, others) <==> within(first, others) && within(second, others),
{
    let all = first + second;
    if within(all, others) {
        assert forall|i: int| 0 <= i < first.len() implies others.contains(
            #[trigger] first[i],
        ) by {
            assert(all[i] == first[i]);
        }
        assert forall|i: int| 0 <= i < second.len() implies others.contains(
            #[trigger] second[i],
        ) by {
            assert(all[i + first.len()] == second[i]);
        }
    }
}

proof fn lemma_reloaded_within(
    node: NodeView,
    expanded: Seq<Seq<PartView>>,
    listings: Seq<ListingView>,
    mode: ExplorerSortMode,
)
    requires
        node.info.is_dir,
        load::reloaded(node, expanded, listings, mode).1 is Ok,
    ensures
        within(
            edit::expanded_paths(load::reloaded(node, expanded, listings, mode).0),
            expanded,
        ),
    decreases load::longest(expanded) + 1 - node.info.path.len(), 0nat,
{
    let after = load::reloaded(node, expanded, listings, mode).0;
    let fresh = load::loaded(node, listings, mode)->Ok_0;
    if expanded.contains(node.info.path) {
        load::lemma_longest(expanded, node.info.path);
        load::lemma_loaded_formed(node, listings, mode, false);
        lemma_loaded_untouched(node, listings, mode);
        lemma_reloaded_all_within(node.info.path, fresh.children->0, expanded, listings, mode);
        let below = edit::expanded_paths_all(after.children->0);
        lemma_within_concat(seq![node.info.path], below, expanded);
    }
}

proof fn lemma_reloaded_all_within(
    parent: Seq<PartView>,
    nodes: Seq<NodeView>,
    expanded: Seq<Seq<PartView>>,
    listings: Seq<ListingView>,
    mode: ExplorerSortMode,
)
    requires
        load::all_formed(parent, nodes, false),
        untouched(nodes),
        load::reloaded_all(nodes, parent.len(), expanded, listings, mode).1 is Ok,
    ensures
        within(
            edit::expanded_paths_all(
                load::reloaded_all(nodes, parent.len(), expanded, listings, mode).0,
            ),
            expanded,
        ),
    decreases load::longest(expanded) - parent.len(), 1 + nodes.len(),
{
    if nodes.len() > 0 {
        let first = nodes[0];
        let rest = nodes.drop_first();
        load::lemma_some_formed(parent, nodes, false);
        lemma_rest_untouched(nodes);
        let mut head = first;
        if first.info.is_dir && expanded.contains(first.info.path) {
            load::lemma_longest(expanded, first.info.path);
            lemma_reloaded_within(first, expanded, listings, mode);
            head = load::reloaded(first, expanded, listings, mode).0;
        } else {
            assert(!nodes[0].expanded);
        }
        lemma_reloaded_all_within(parent, rest, expanded, listings, mode);
        let tail = load::reloaded_all(rest, parent.len(), expanded, listings, mode).0;
        let out = load::reloaded_all(nodes, parent.len(), expanded, listings, mode).0;
        assert(out == seq![head] + tail);
        assert(out.drop_first() =~= tail);
        lemma_expanded_paths_front(out);
        lemma_within_concat(
            edit::expanded_paths(head),
            edit::expanded_paths_all(tail),
            expanded,
        );
    }
}

/// Loading anew goes by the directories that end up expanded alone.
proof fn lemma_reloaded_same(
    node: NodeView,
    expanded: Seq<Seq<PartView>>,
    others: Seq<Seq<PartView>>,
    listings: Seq<ListingView>,
    mode: ExplorerSortMode,
)
    requires
        node.info.is_dir,
        load::reloaded(node, expanded, listings, mode).1 is Ok,
        within(others, expanded),
        within(
            edit::expanded_paths(load::reloaded(node, expanded, listings, mode).0),
            others,
        ),
    ensures
        load::reloaded(node, others, listings, mode) == load::reloaded(
            node,
            expanded,
            listings,
            mode,
        ),
    decreases load::longest(expanded) + 1 - node.info.path.len(), 0nat,
{
    let after = load::reloaded(node, expanded, listings, mode).0;
    let fresh = load::loaded(node, listings, mode)->Ok_0;
    if expanded.contains(node.info.path) {
        load::lemma_longest(expanded, node.info.path);
        load::lemma_loaded_formed(node, listings, mode, false);
        lemma_loaded_untouched(node, listings, mode);
        let below = edit::expanded_paths_all(after.children->0);
        assert(edit::expanded_paths(after) == seq![node.info.path] + below);
        lemma_within_concat(seq![node.info.path], below, others);
        assert(others.contains(seq![node.info.path][0]));
        lemma_reloaded_all_same(
            node.info.path,
            fresh.children->0,
            expanded,
            others,
            listings,
            mode,
        );
    } else {
        assert(!others.contains(node.info.path)) by {
            if others.contains(node.info.path) {
                let i = choose|i: int| 0 <= i < others.len() && others[i] == node.info.path;
                assert(expanded.contains(others[i]));
            }
        }
    }
}

proof fn lemma_reloaded_all_same(
    parent: Seq<PartView>,
    nodes: Seq<NodeView>,
    expanded: Seq<Seq<PartView>>,
    others: Seq<Seq<PartView>>,
    listings: Seq<ListingView>,
    mode: ExplorerSortMode,
)
    requires
        load::all_formed(parent, nodes, false),
        untouched(nodes),
        load::reloaded_all(nodes, parent.len(), expanded, listings, mode).1 is Ok,
        within(others, expanded),
        within(
            edit::expanded_paths_all(
                load::reloaded_all(nodes, parent.len(), expanded, listings, mode).0,
            ),
            others,
        ),
    ensures
        load::reloaded_all(nodes, parent.len(), others, listings, mode) == load::reloaded_all(
            nodes,
            parent.len(),
            expanded,
            listings,
            mode,
        ),
    decreases load::longest(expanded) - parent.len(), 1 + nodes.len(),
{
    if nodes.len() > 0 {
        let first = nodes[0];
        let rest = nodes.drop_first();
        load::lemma_some_formed(parent, nodes, false);
        lemma_rest_untouched(nodes);
        let tail = load::reloaded_all(rest, parent.len(), expanded, listings, mode).0;
        let out = load::reloaded_all(nodes, parent.len(), expanded, listings, mode).0;
        let mut head = first;
        if first.info.is_dir && expanded.contains(first.info.path) {
            head = load::reloaded(first, expanded, listings, mode).0;
        }
        assert(out == seq![head] + tail);
        assert(out.drop_first() =~= tail);
        lemma_expanded_paths_front(out);
        lemma_within_concat(edit::expanded_paths(head), edit::expanded_paths_all(tail), others);
        if first.info.is_dir && expanded.contains(first.info.path) {
            load::lemma_longest(expanded, first.info.path);
            lemma_reloaded_same(first, expanded, others, listings, mode);
            assert(head.expanded && head.info == first.info);
            assert(edit::expanded_paths(head)[0] == first.info.path);
        } else if first.info.is_dir {
            assert(!others.contains(first.info.path)) by {
                if others.contains(first.info.path) {
                    let i = choose|i: int| 0 <= i < others.len() && others[i] == first.info.path;
                    assert(expanded.contains(others[i]));
                }
            }
        }
        lemma_reloaded_all_same(parent, rest, expanded, others, listings, mode);
    }
}

/// Whether a row is that of an expanded directory with a path.
pub open spec fn lists_expanded(nodes: Seq<VisibleView>, path: Seq<PartView>) -> bool {
    exists|i: int|
        0 <= i < nodes.len() && (#[trigger] nodes[i]).path == path && nodes[i].is_dir
            && nodes[i].expanded
}

proof fn lemma_lists_expanded_concat(
    first: Seq<VisibleView>,
    second: Seq<VisibleView>,
    path: Seq<PartView>,
)
    ensures
        lists_expanded(first + second, path) <==> lists_expanded(first, path) || lists_expanded(
            second,
            path,
        ),
{
    let all = first + second;
    if lists_expanded(first, path) {
        let i = choose|i: int|
            0 <= i < first.len() && (#[trigger] first[i]).path == path && first[i].is_dir
                && first[i].expanded;
        assert(all[i] == first[i]);
    }
    if lists_expanded(second, path) {
        let i = choose|i: int|
            0 <= i < second.len() && (#[trigger] second[i]).path == path && second[i].is_dir
                && second[i].expanded;
        assert(all[i + first.len()] == second[i]);
    }
    if lists_expanded(all, path) {
        let i = choose|i: int|
            0 <= i < all.len() && (#[trigger] all[i]).path == path && all[i].is_dir
                && all[i].expanded;
        if i < first.len() {
            assert(all[i] == first[i]);
        } else {
            assert(all[i] == second[i - first.len()]);
        }
    }
}

proof fn lemma_contains_concat(
    first: Seq<Seq<PartView>>,
    second: Seq<Seq<PartView>>,
    path: Seq<PartView>,
)
    ensures
        (first + second).contains(path) <==> first.contains(path) || second.contains(path),
{
    let all = first + second;
    if first.contains(path) {
        let i = choose|i: int| 0 <= i < first.len() && first[i] == path;
        assert(all[i] == path);
    }
    if second.contains(path) {
        let i = choose|i: int| 0 <= i < second.len() && second[i] == path;
        assert(all[i + first.len()] == path);
    }
}

proof fn lemma_expanded_paths_are_listed(node: NodeView, depth: nat, path: Seq<PartView>)
    ensures
        edit::expanded_paths(node).contains(path) <==> lists_expanded(
            fs_tree::visible(node, depth),
            path,
        ),
    decreases node,
{
    let own = seq![fs_tree::listed(node, depth)];
    let rows = fs_tree::visible(node, depth);
    if node.info.is_dir && node.expanded {
        let own_path = seq![node.info.path];
        assert(own_path[0] == node.info.path);
        assert(own_path.contains(path) <==> path == node.info.path);
        assert(lists_expanded(own, path) <==> path == node.info.path) by {
            if path == node.info.path {
                assert(own[0].path == path);
            }
        }
        if let Some(children) = node.children {
            lemma_expanded_paths_all_are_listed(children, depth + 1, path);
            lemma_contains_concat(own_path, edit::expanded_paths_all(children), path);
            lemma_lists_expanded_concat(own, fs_tree::visible_all(children, depth + 1), path);
        }
    } else {
        assert(rows == own);
    }
}

proof fn lemma_expanded_paths_all_are_listed(
    nodes: Seq<NodeView>,
    depth: nat,
    path: Seq<PartView>,
)
    ensures
        edit::expanded_paths_all(nodes).contains(path) <==> lists_expanded(
            fs_tree::visible_all(nodes, depth),
            path,
        ),
    decreases nodes,
{
    if nodes.len() > 0 {
        let head = nodes.drop_last();
        lemma_expanded_paths_all_are_listed(head, depth, path);
        lemma_expanded_paths_are_listed(nodes.last(), depth, path);
        lemma_contains_concat(
            edit::expanded_paths_all(head),
            edit::expanded_paths(nodes.last()),
            path,
        );
        lemma_lists_expanded_concat(
            fs_tree::visible_all(head, depth),
            fs_tree::visible(nodes.last(), depth),
            path,
        );
    }
}

/// After a refresh that succeeds, every expanded directory lists what was read of
/// it, in the order of the tree, which stays. A listed directory is expanded
/// exactly if it was listed as an expanded directory before. The selection and the
/// scroll position are on listed nodes. Refreshing again with the same listings
/// changes nothing.
pub proof fn refreshing_lists_what_was_read(tree: TreeView, listings: Seq<ListingView>)
    requires
        tree.wf(),
        tree.refreshed(listings).1 is Ok,
    ensures
        ({
            let after = tree.refreshed(listings).0;
            let nodes = after.nodes();
            &&& after.wf()
            &&& after.root.info == tree.root.info
            &&& after.mode == tree.mode
            &&& as_listed(after.root, listings, tree.mode)
            &&& forall|i: int|
                0 <= i < nodes.len() && (#[trigger] nodes[i]).is_dir ==> (nodes[i].expanded
                    <==> lists_expanded(tree.nodes(), nodes[i].path))
            &&& after.selected < nodes.len()
            &&& after.scroll < nodes.len()
            &&& after.refreshed(listings).0 == after
            &&& after.refreshed(listings).1 is Ok
        }),
{
    let open = edit::expanded_paths(tree.root);
    let after = tree.refreshed(listings).0;
    let nodes = after.nodes();
    form::reloading_keeps_form(tree.root, open, listings, tree.mode, false);
    lemma_reloaded_as_listed(tree.root, open, listings, tree.mode);
    lemma_refresh_expands(tree.root, 0, open, listings, tree.mode);
    assert forall|i: int| 0 <= i < nodes.len() && (#[trigger] nodes[i]).is_dir implies (
    nodes[i].expanded <==> lists_expanded(tree.nodes(), nodes[i].path)) by {
        lemma_expanded_paths_are_listed(tree.root, 0, nodes[i].path);
    }
    let now_open = edit::expanded_paths(after.root);
    lemma_reloaded_within(tree.root, open, listings, tree.mode);
    lemma_reloaded_same(tree.root, open, now_open, listings, tree.mode);
    assert(load::reloaded(after.root, now_open, listings, tree.mode) == load::reloaded(
        tree.root,
        now_open,
        listings,
        tree.mode,
    )) by {
        assert(load::loaded(tree.root, listings, tree.mode) is Ok);
    }
    assert(fs_tree::visible(after.root, 0).len() > 0);
    let same = TreeView { root: after.root, ..after };
    assert(same == after);
    assert(after.clamped() == after);
}

/// Directories without two entries of one name give trees without: the tree that
/// is made of them, and whatever it becomes.
pub proof fn distinct_names_stay(
    tree: TreeView,
    path: Seq<PartView>,
    listings: Seq<ListingView>,
    mode: ExplorerSortMode,
)
    requires
        tree.has_distinct_names(),
        load::distinct_names(listings),
    ensures
        tree.resorted(mode).has_distinct_names(),
        tree.refreshed(listings).0.has_distinct_names(),
        tree.toggled(path, listings).0.has_distinct_names(),
        tree.collapsed(path).has_distinct_names(),
        tree.all_collapsed().has_distinct_names(),
        tree.revealed(path, listings).0.has_distinct_names(),
{
    lemma_distinct_names_stay(tree, path, listings, mode, false);
    lemma_distinct_names_stay(tree, path, listings, mode, true);
}

proof fn lemma_distinct_names_stay(
    tree: TreeView,
    path: Seq<PartView>,
    listings: Seq<ListingView>,
    mode: ExplorerSortMode,
    apart: bool,
)
    requires
        tree.wf(),
        load::well_formed(tree.root, apart),
        load::distinct_names(listings),
    ensures
        ({
            let formed = |t: TreeView|
                load::well_formed(t.root, apart) && t.root.info.is_dir && t.root.children is Some;
            &&& formed(tree.resorted(mode))
            &&& formed(tree.refreshed(listings).0)
            &&& formed(tree.toggled(path, listings).0)
            &&& formed(tree.collapsed(path))
            &&& formed(tree.all_collapsed())
            &&& formed(tree.revealed(path, listings).0)
        }),
{
    let root = tree.root;
    form::resorting_keeps_form(root, mode, apart);
    form::reloading_keeps_form(root, edit::expanded_paths(root), listings, tree.mode, apart);
    form::editing_keeps_form(root, path, Edit::Toggle, listings, tree.mode, apart);
    form::editing_keeps_form(root, path, Edit::Collapse, Seq::empty(), tree.mode, apart);
    form::collapsing_keeps_form(root, apart);
    form::flipping_keeps_form(edit::collapsed_below(root), true, apart);
    form::opening_keeps_form(root, path, listings, tree.mode, apart);
}

/// A tree that is made of directories without two entries of one name has none.
pub proof fn new_trees_have_distinct_names(
    path: Seq<PartView>,
    text: Option<Seq<char>>,
    modified: Option<i128>,
    readonly: bool,
    listings: Seq<ListingView>,
)
    requires
        load::distinct_names(listings),
    ensures
        load::loaded(
            fs_tree::bare_root(path, text, modified, readonly),
            listings,
            ExplorerSortMode::Name,
        ) matches Ok(root) ==> (TreeView {
            root,
            mode: ExplorerSortMode::Name,
            selected: 0,
            scroll: 0,
        }).has_distinct_names(),
{
    let root = fs_tree::bare_root(path, text, modified, readonly);
    load::lemma_loaded_formed(root, listings, ExplorerSortMode::Name, false);
    load::lemma_loaded_formed(root, listings, ExplorerSortMode::Name, true);
}

/// Whether a tree is another one but for children that were loaded in places
/// where none were, none of them expanded.
pub open spec fn only_loaded(before: NodeView, after: NodeView) -> bool
    decreases before,
{
    &&& after.info == before.info
    &&& after.expanded == before.expanded
    &&& match before.children {
        Some(children) => {
            &&& after.children is Some
            &&& after.children->0.len() == children.len()
            &&& forall|i: int|
                0 <= i < children.len() ==> only_loaded(
                    #[trigger] children[i],
                    after.children->0[i],
                )
        },
        None => after.children is None || untouched(after.children->0),
    }
}

proof fn lemma_only_loaded_same(node: NodeView)
    ensures
        only_loaded(node, node),
    decreases node,
{
    if let Some(children) = node.children {
        assert forall|i: int| 0 <= i < children.len() implies only_loaded(
            #[trigger] children[i],
            children[i],
        ) by {
            lemma_only_loaded_same(children[i]);
        }
    }
}

proof fn lemma_loaded_untouched(
    node: NodeView,
    listings: Seq<ListingView>,
    mode: ExplorerSortMode,
)
    ensures
        load::loaded(node, listings, mode) matches Ok(fresh) ==> untouched(fresh.children->0),
{
    if let Some(Some(entries)) = load::known(listings, node.info.path) {
        let bare = load::entry_nodes(node.info.path, entries);
        assert(untouched(bare));
        lemma_sorted_untouched(bare, mode);
    }
}

/// Toggling a directory a second time succeeds where the first time did, and
/// lists what was listed before. Whether a node is expanded is for all nodes,
/// listed or not, as it was; only the children of the directory may have been
/// loaded.
pub proof fn toggling_twice_restores_the_rows(
    tree: TreeView,
    path: Seq<PartView>,
    listings: Seq<ListingView>,
)
    requires
        tree.wf(),
        tree.toggled(path, listings).1 is Ok,
    ensures
        ({
            let once = tree.toggled(path, listings).0;
            let (twice, outcome) = once.toggled(path, listings);
            &&& outcome is Ok
            &&& twice.nodes() == tree.nodes()
            &&& only_loaded(tree.root, twice.root)
            &&& twice.mode == tree.mode
            &&& twice.selected < twice.nodes().len()
            &&& twice.scroll < twice.nodes().len()
        }),
{
    let (root, outcome) = edit::edited(tree.root, path, Edit::Toggle, listings, tree.mode);
    if outcome is NotFound {
        lemma_not_found_unchanged(tree.root, path, listings, tree.mode);
        lemma_only_loaded_same(tree.root);
    } else {
        lemma_toggling_twice(tree.root, 0, path, listings, tree.mode);
    }
}

proof fn lemma_toggling_twice(
    node: NodeView,
    depth: nat,
    path: Seq<PartView>,
    listings: Seq<ListingView>,
    mode: ExplorerSortMode,
)
    requires
        load::well_formed(node, false),
        edit::edited(node, path, Edit::Toggle, listings, mode).1 is Done,
    ensures
        ({
            let once = edit::edited(node, path, Edit::Toggle, listings, mode).0;
            let (twice, outcome) = edit::edited(once, path, Edit::Toggle, listings, mode);
            &&& outcome is Done
            &&& fs_tree::visible(twice, depth) == fs_tree::visible(node, depth)
            &&& only_loaded(node, twice)
        }),
    decreases node,
{
    let once = edit::edited(node, path, Edit::Toggle, listings, mode).0;
    let twice = edit::edited(once, path, Edit::Toggle, listings, mode).0;
    if node.info.path == path {
        lemma_only_loaded_same(node);
        lemma_loaded_untouched(node, listings, mode);
    } else {
        let children = node.children->0;
        assert(load::all_formed(node.info.path, children, false));
        lemma_toggling_all(node.info.path, children, depth + 1, path, listings, mode);
        let once_below = edit::edited_all(children, path, Edit::Toggle, listings, mode).0;
        let twice_below = edit::edited_all(once_below, path, Edit::Toggle, listings, mode).0;
        assert(twice.children == Some(twice_below));
    }
}

proof fn lemma_not_found_unchanged(
    node: NodeView,
    path: Seq<PartView>,
    listings: Seq<ListingView>,
    mode: ExplorerSortMode,
)
    requires
        edit::edited(node, path, Edit::Toggle, listings, mode).1 is NotFound,
    ensures
        edit::edited(node, path, Edit::Toggle, listings, mode).0 == node,
    decreases node,
{
    if let Some(children) = node.children {
        lemma_not_found_unchanged_all(children, path, listings, mode);
    }
}

proof fn lemma_not_found_unchanged_all(
    nodes: Seq<NodeView>,
    path: Seq<PartView>,
    listings: Seq<ListingView>,
    mode: ExplorerSortMode,
)
    requires
        edit::edited_all(nodes, path, Edit::Toggle, listings, mode).1 is NotFound,
    ensures
        edit::edited_all(nodes, path, Edit::Toggle, listings, mode).0 == nodes,
    decreases nodes,
{
    if nodes.len() > 0 {
        lemma_not_found_unchanged(nodes[0], path, listings, mode);
        lemma_not_found_unchanged_all(nodes.drop_first(), path, listings, mode);
        assert(seq![nodes[0]] + nodes.drop_first() =~= nodes);
    }
}

proof fn lemma_toggling_all(
    parent: Seq<PartView>,
    nodes: Seq<NodeView>,
    depth: nat,
    path: Seq<PartView>,
    listings: Seq<ListingView>,
    mode: ExplorerSortMode,
)
    requires
        load::all_formed(parent, nodes, false),
        edit::edited_all(nodes, path, Edit::Toggle, listings, mode).1 is Done,
    ensures
        ({
            let once = edit::edited_all(nodes, path, Edit::Toggle, listings, mode).0;
            let (twice, outcome) = edit::edited_all(once, path, Edit::Toggle, listings, mode);
            &&& outcome is Done
            &&& fs_tree::visible_all(twice, depth) == fs_tree::visible_all(nodes, depth)
            &&& twice.len() == nodes.len()
            &&& forall|i: int|
                0 <= i < nodes.len() ==> only_loaded(#[trigger] nodes[i], twice[i])
        }),
    decreases nodes,
{
    let first = nodes[0];
    let rest = nodes.drop_first();
    let (after, outcome) = edit::edited(first, path, Edit::Toggle, listings, mode);
    let once = edit::edited_all(nodes, path, Edit::Toggle, listings, mode).0;
    let twice = edit::edited_all(once, path, Edit::Toggle, listings, mode).0;
    rows::lemma_visible_all_front(nodes, depth);
    load::lemma_some_formed(parent, nodes, false);
    if outcome is NotFound {
        lemma_not_found_unchanged(first, path, listings, mode);
        lemma_toggling_all(parent, rest, depth, path, listings, mode);
        let once_rest = edit::edited_all(rest, path, Edit::Toggle, listings, mode).0;
        let twice_rest = edit::edited_all(once_rest, path, Edit::Toggle, listings, mode).0;
        assert(once == seq![first] + once_rest);
        assert(once.drop_first() =~= once_rest);
        assert(twice == seq![first] + twice_rest);
        assert(twice.drop_first() =~= twice_rest);
        rows::lemma_visible_all_front(twice, depth);
        assert forall|i: int| 0 <= i < nodes.len() implies only_loaded(
            #[trigger] nodes[i],
            twice[i],
        ) by {
            if i == 0 {
                lemma_only_loaded_same(first);
            } else {
                assert(rest[i - 1] == nodes[i]);
                assert(twice[i] == twice_rest[i - 1]);
            }
        }
    } else {
        lemma_toggling_twice(first, depth, path, listings, mode);
        assert(once == seq![after] + rest);
        assert(once.drop_first() =~= rest);
        let (back, _) = edit::edited(after, path, Edit::Toggle, listings, mode);
        assert(twice == seq![back] + rest);
        assert(twice.drop_first() =~= rest);
        rows::lemma_visible_all_front(twice, depth);
        assert forall|i: int| 0 <= i < nodes.len() implies only_loaded(
            #[trigger] nodes[i],
            twice[i],
        ) by {
            if i > 0 {
                assert(twice[i] == nodes[i]);
                lemma_only_loaded_same(nodes[i]);
            }
        }
    }
}

proof fn lemma_concat_multiset(a: Seq<VisibleView>, b: Seq<VisibleView>)
    ensures
        (a + b).to_multiset() == a.to_multiset().add(b.to_multiset()),
{
    vstd::seq_lib::lemma_multiset_commutative(a, b);
}

proof fn lemma_visible_inserted(
    nodes: Seq<NodeView>,
    node: NodeView,
    depth: nat,
    mode: ExplorerSortMode,
)
    ensures
        fs_tree::visible_all(order::inserted(nodes, node, mode), depth).to_multiset()
            == fs_tree::visible_all(nodes, depth).to_multiset().add(
            fs_tree::visible(node, depth).to_multiset(),
        ),
    decreases nodes.len(),
{
    let out = order::inserted(nodes, node, mode);
    let own = fs_tree::visible(node, depth);
    if nodes.len() == 0 {
        assert(out.drop_first() =~= Seq::<NodeView>::empty());
        rows::lemma_visible_all_front(out, depth);
        let none = fs_tree::visible_all(nodes, depth);
        assert(own + fs_tree::visible_all(out.drop_first(), depth) =~= none + own);
        lemma_concat_multiset(none, own);
    } else if order::stands_behind(nodes[0], node, mode) {
        assert(out.drop_first() =~= nodes);
        rows::lemma_visible_all_front(out, depth);
        lemma_concat_multiset(own, fs_tree::visible_all(nodes, depth));
        assert(fs_tree::visible_all(out, depth).to_multiset() =~= fs_tree::visible_all(
            nodes,
            depth,
        ).to_multiset().add(own.to_multiset()));
    } else {
        let rest = nodes.drop_first();
        let tail = order::inserted(rest, node, mode);
        let first = fs_tree::visible(nodes[0], depth);
        lemma_visible_inserted(rest, node, depth, mode);
        assert(out.drop_first() =~= tail);
        rows::lemma_visible_all_front(out, depth);
        rows::lemma_visible_all_front(nodes, depth);
        lemma_concat_multiset(first, fs_tree::visible_all(tail, depth));
        lemma_concat_multiset(first, fs_tree::visible_all(rest, depth));
        assert(fs_tree::visible_all(out, depth).to_multiset() =~= fs_tree::visible_all(
            nodes,
            depth,
        ).to_multiset().add(own.to_multiset()));
    }
}

proof fn lemma_visible_sorted(nodes: Seq<NodeView>, depth: nat, mode: ExplorerSortMode)
    ensures
        fs_tree::visible_all(order::sorted(nodes, mode), depth).to_multiset()
            == fs_tree::visible_all(nodes, depth).to_multiset(),
    decreases nodes.len(),
{
    if nodes.len() > 0 {
        let head = nodes.drop_last();
        lemma_visible_sorted(head, depth, mode);
        lemma_visible_inserted(order::sorted(head, mode), nodes.last(), depth, mode);
        lemma_concat_multiset(
            fs_tree::visible_all(head, depth),
            fs_tree::visible(nodes.last(), depth),
        );
    }
}

/// Listing the tree in another order lists the same nodes.
pub proof fn resorting_lists_the_same_nodes(node: NodeView, depth: nat, mode: ExplorerSortMode)
    ensures
        fs_tree::visible(edit::resorted(node, mode), depth).to_multiset() == fs_tree::visible(
            node,
            depth,
        ).to_multiset(),
    decreases node,
{
    if node.info.is_dir && node.expanded {
        if let Some(children) = node.children {
            let below = edit::resorted_all(children, mode);
            lemma_resorting_lists_all(children, depth + 1, mode);
            lemma_visible_sorted(below, depth + 1, mode);
            let own = seq![fs_tree::listed(node, depth)];
            lemma_concat_multiset(own, fs_tree::visible_all(children, depth + 1));
            lemma_concat_multiset(
                own,
                fs_tree::visible_all(order::sorted(below, mode), depth + 1),
            );
        }
    }
}

proof fn lemma_resorting_lists_all(nodes: Seq<NodeView>, depth: nat, mode: ExplorerSortMode)
    ensures
        fs_tree::visible_all(edit::resorted_all(nodes, mode), depth).to_multiset()
            == fs_tree::visible_all(nodes, depth).to_multiset(),
    decreases nodes,
{
    if nodes.len() > 0 {
        let head = nodes.drop_last();
        let before = edit::resorted_all(head, mode);
        let last = edit::resorted(nodes.last(), mode);
        lemma_resorting_lists_all(head, depth, mode);
        resorting_lists_the_same_nodes(nodes.last(), depth, mode);
        assert(before.push(last).drop_last() =~= before);
        lemma_concat_multiset(
            fs_tree::visible_all(head, depth),
            fs_tree::visible(nodes.last(), depth),
        );
        lemma_concat_multiset(
            fs_tree::visible_all(before, depth),
            fs_tree::visible(last, depth),
        );
    }
}

/// The root is named by the last part of its path, or else by the whole of it, or else by
/// a slash; it is an expanded directory.
pub proof fn roots_are_named_by_their_paths(
    path: Seq<PartView>,
    text: Option<Seq<char>>,
    modified: Option<i128>,
    readonly: bool,
    name: Seq<char>,
)
    ensures
        ({
            let root = fs_tree::bare_root(path, text, modified, readonly);
            &&& root.info.path == path
            &&& root.info.is_dir && root.expanded && root.children is None
            &&& root.info.size is None
            &&& root.info.modified == modified && root.info.readonly == readonly
            &&& path.len() > 0 && path.last() == PartView::Normal(vstd::utf8::encode_utf8(name))
                ==> root.info.name == name
            &&& path.len() == 0 && text is Some ==> root.info.name == text->0
            &&& path.len() == 0 && text is None ==> root.info.name == seq!['/']
        }),
{
    broadcast use vstd::utf8::group_utf8_lib;

    reveal_strlit("/");
    assert("/"@ =~= seq!['/']);
    assert(crate::path::utf8(vstd::utf8::encode_utf8(name)) == Some(name));
}

/// The selection and the scroll position stay where they are as long as there is a row,
/// and go to the last row where there is none any more; nothing else changes.
pub proof fn selections_stay_on_their_rows(tree: TreeView)
    requires
        tree.nodes().len() > 0,
    ensures
        tree.selected < tree.nodes().len() ==> tree.clamped().selected == tree.selected,
        tree.selected >= tree.nodes().len() ==> tree.clamped().selected == tree.nodes().len() - 1,
        tree.scroll < tree.nodes().len() ==> tree.clamped().scroll == tree.scroll,
        tree.scroll >= tree.nodes().len() ==> tree.clamped().scroll == tree.nodes().len() - 1,
        tree.clamped().root == tree.root,
        tree.clamped().mode == tree.mode,
{
}

/// What fails leaves the selection, the scroll position and the order as they are; and
/// where a listing is missing that was never read, the whole tree.
pub proof fn failures_keep_the_selection(
    tree: TreeView,
    path: Seq<PartView>,
    listings: Seq<ListingView>,
)
    ensures
        ({
            let kept = |after: TreeView|
                after.selected == tree.selected && after.scroll == tree.scroll && after.mode
                    == tree.mode;
            let refreshed = tree.refreshed(listings);
            let toggled = tree.toggled(path, listings);
            let revealed = tree.revealed(path, listings);
            &&& refreshed.1 is Err ==> kept(refreshed.0)
            &&& refreshed.1 matches Err(error) ==> (error is NotListed ==> refreshed.0 == tree)
            &&& toggled.1 is Err ==> kept(toggled.0)
            &&& revealed.1 is Err ==> kept(revealed.0)
            &&& revealed.1 matches Err(error) ==> (error is NotListed ==> revealed.0 == tree)
        }),
{
}

} // verus!
