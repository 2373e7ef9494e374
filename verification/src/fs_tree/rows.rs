//! How the listed nodes hang together.

use vstd::prelude::*;

use crate::fs_tree;
use crate::fs_tree::edit;
use crate::fs_tree::edit::Edit;
use crate::fs_tree::form;
use crate::fs_tree::load;
use crate::fs_tree::load::ListingView;
use crate::fs_tree::node::NodeView;
use crate::fs_tree::order::ExplorerSortMode;
use crate::fs_tree::TreeView;
use crate::fs_tree::VisibleView;
use crate::path::PartView;

verus! {

/// The nodes that are listed from a node down, one for each row.
pub open spec fn shown(node: NodeView) -> Seq<NodeView>
    decreases node,
{
    if node.info.is_dir && node.expanded {
        match node.children {
            Some(children) => seq![node] + shown_all(children),
            None => seq![node],
        }
    } else {
        seq![node]
    }
}

pub open spec fn shown_all(nodes: Seq<NodeView>) -> Seq<NodeView>
    decreases nodes,
{
    if nodes.len() == 0 {
        Seq::empty()
    } else {
        shown_all(nodes.drop_last()) + shown(nodes.last())
    }
}

/// Whether row `j` is that of the directory which lists row `i`: the nearest one
/// above that is less deep. It is expanded, and the node of row `i` is among its
/// children.
pub open spec fn is_listed_by(
    rows: Seq<VisibleView>,
    nodes: Seq<NodeView>,
    i: int,
    j: int,
) -> bool {
    &&& 0 <= j < i
    &&& rows[j].depth + 1 == rows[i].depth
    &&& forall|k: int| j < k < i ==> (#[trigger] rows[k]).depth > rows[j].depth
    &&& rows[j].is_dir
    &&& rows[j].expanded
    &&& load::is_child_path(rows[j].path, rows[i].path)
    &&& nodes[j].children matches Some(children) && children.contains(nodes[i])
}

pub open spec fn is_listed_below_its_directory(
    rows: Seq<VisibleView>,
    nodes: Seq<NodeView>,
    i: int,
) -> bool {
    exists|j: int| #[trigger] is_listed_by(rows, nodes, i, j)
}

proof fn lemma_listed_in_concat(
    first: Seq<VisibleView>,
    first_nodes: Seq<NodeView>,
    second: Seq<VisibleView>,
    second_nodes: Seq<NodeView>,
    i: int,
)
    requires
        first.len() == first_nodes.len(),
        second.len() == second_nodes.len(),
    ensures
        0 <= i < first.len() && is_listed_below_its_directory(first, first_nodes, i)
            ==> is_listed_below_its_directory(first + second, first_nodes + second_nodes, i),
        0 <= i < second.len() && is_listed_below_its_directory(second, second_nodes, i)
            ==> is_listed_below_its_directory(
            first + second,
            first_nodes + second_nodes,
            i + first.len(),
        ),
{
    let rows = first + second;
    let nodes = first_nodes + second_nodes;
    if 0 <= i < first.len() && is_listed_below_its_directory(first, first_nodes, i) {
        let j = choose|j: int| #[trigger] is_listed_by(first, first_nodes, i, j);
        assert forall|k: int| j < k < i implies (#[trigger] rows[k]).depth > rows[j].depth by {
            assert(rows[k] == first[k]);
        }
        assert(is_listed_by(rows, nodes, i, j));
    }
    if 0 <= i < second.len() && is_listed_below_its_directory(second, second_nodes, i) {
        let j = choose|j: int| #[trigger] is_listed_by(second, second_nodes, i, j);
        let n = first.len() as int;
        assert(rows[j + n] == second[j] && rows[i + n] == second[i]);
        assert(nodes[j + n] == second_nodes[j] && nodes[i + n] == second_nodes[i]);
        assert forall|k: int| j + n < k < i + n implies (#[trigger] rows[k]).depth > rows[j
            + n].depth by {
            assert(rows[k] == second[k - n]);
        }
        assert(is_listed_by(rows, nodes, i + n, j + n));
    }
}

/// Whether a path is another one or goes on from it.
pub open spec fn goes_on_from(path: Seq<PartView>, base: Seq<PartView>) -> bool {
    base.len() <= path.len() && path.take(base.len() as int) == base
}

pub proof fn lemma_child_goes_on(path: Seq<PartView>, child: Seq<PartView>, parent: Seq<PartView>)
    requires
        load::is_child_path(parent, child),
        goes_on_from(path, child),
    ensures
        goes_on_from(path, parent),
{
    assert(path.take(parent.len() as int) =~= path.take(child.len() as int).drop_last());
}

pub proof fn lemma_rows(node: NodeView, depth: nat)
    requires
        load::well_formed(node, false),
    ensures
        ({
            let rows = fs_tree::visible(node, depth);
            let nodes = shown(node);
            &&& rows.len() == nodes.len()
            &&& rows.len() > 0
            &&& rows[0] == fs_tree::listed(node, depth)
            &&& nodes[0] == node
            &&& forall|k: int|
                0 <= k < rows.len() ==> (#[trigger] rows[k]) == fs_tree::listed(
                    nodes[k],
                    rows[k].depth,
                )
            &&& forall|k: int|
                0 <= k < rows.len() ==> goes_on_from(
                    (#[trigger] rows[k]).path,
                    node.info.path,
                ) && rows[k].path.len() + depth == node.info.path.len() + rows[k].depth
            &&& forall|k: int|
                1 <= k < rows.len() ==> (#[trigger] rows[k]).depth > depth
                    && is_listed_below_its_directory(rows, nodes, k)
        }),
    decreases node,
{
    let rows = fs_tree::visible(node, depth);
    let nodes = shown(node);
    assert(node.info.path.take(node.info.path.len() as int) =~= node.info.path);
    if node.info.is_dir && node.expanded && node.children is Some {
        let children = node.children->0;
        assert(load::all_formed(node.info.path, children, false));
        lemma_rows_all(node.info.path, children, depth + 1);
        let below = fs_tree::visible_all(children, depth + 1);
        let below_nodes = shown_all(children);
        let own = seq![fs_tree::listed(node, depth)];
        assert(rows == own + below);
        assert(nodes == seq![node] + below_nodes);
        assert forall|k: int| 0 <= k < rows.len() implies (#[trigger] rows[k])
            == fs_tree::listed(nodes[k], rows[k].depth) && goes_on_from(
            rows[k].path,
            node.info.path,
        ) && rows[k].path.len() + depth == node.info.path.len() + rows[k].depth by {
            if k > 0 {
                assert(rows[k] == below[k - 1]);
                assert(nodes[k] == below_nodes[k - 1]);
                let c = choose|c: int|
                    0 <= c < children.len() && goes_on_from(
                        below[k - 1].path,
                        (#[trigger] children[c]).info.path,
                    );
                lemma_child_goes_on(rows[k].path, children[c].info.path, node.info.path);
            }
        }
        assert forall|k: int| 1 <= k < rows.len() implies (#[trigger] rows[k]).depth > depth
            && is_listed_below_its_directory(rows, nodes, k) by {
            assert(rows[k] == below[k - 1]);
            assert(nodes[k] == below_nodes[k - 1]);
            if below[k - 1].depth == depth + 1 {
                assert forall|m: int| 0 < m < k implies (#[trigger] rows[m]).depth
                    > rows[0].depth by {
                    assert(rows[m] == below[m - 1]);
                }
                assert(children.contains(below_nodes[k - 1]));
                let c = choose|c: int| 0 <= c < children.len() && children[c] == nodes[k];
                assert(load::is_child_path(node.info.path, children[c].info.path));
                assert(is_listed_by(rows, nodes, k, 0));
            } else {
                lemma_listed_in_concat(own, seq![node], below, below_nodes, k - 1);
            }
        }
    }
}

proof fn lemma_rows_all(parent: Seq<PartView>, children: Seq<NodeView>, depth: nat)
    requires
        load::all_formed(parent, children, false),
    ensures
        ({
            let rows = fs_tree::visible_all(children, depth);
            let nodes = shown_all(children);
            &&& rows.len() == nodes.len()
            &&& children.len() > 0 ==> rows.len() > 0 && rows[0].depth == depth
            &&& forall|k: int|
                0 <= k < rows.len() ==> (#[trigger] rows[k]) == fs_tree::listed(
                    nodes[k],
                    rows[k].depth,
                ) && rows[k].depth >= depth && rows[k].path.len() + depth == parent.len() + 1
                    + rows[k].depth
            &&& forall|k: int|
                0 <= k < rows.len() ==> exists|c: int|
                    0 <= c < children.len() && goes_on_from(
                        (#[trigger] rows[k]).path,
                        (#[trigger] children[c]).info.path,
                    )
            &&& forall|k: int|
                0 <= k < rows.len() && (#[trigger] rows[k]).depth == depth ==> children.contains(
                    nodes[k],
                )
            &&& forall|k: int|
                0 <= k < rows.len() && (#[trigger] rows[k]).depth > depth
                    ==> is_listed_below_its_directory(rows, nodes, k)
        }),
    decreases children,
{
    if children.len() > 0 {
        let head = children.drop_last();
        let last = children.last();
        load::lemma_some_formed(parent, children, false);
        lemma_rows_all(parent, head, depth);
        lemma_rows(last, depth);
        let rows = fs_tree::visible_all(children, depth);
        let nodes = shown_all(children);
        let first = fs_tree::visible_all(head, depth);
        let first_nodes = shown_all(head);
        let second = fs_tree::visible(last, depth);
        let second_nodes = shown(last);
        let n = first.len() as int;
        assert(rows == first + second);
        assert(nodes == first_nodes + second_nodes);
        assert forall|k: int| 0 <= k < rows.len() implies (#[trigger] rows[k])
            == fs_tree::listed(nodes[k], rows[k].depth) && rows[k].depth >= depth
            && rows[k].path.len() + depth == parent.len() + 1 + rows[k].depth by {
            if k < n {
                assert(rows[k] == first[k]);
                assert(nodes[k] == first_nodes[k]);
            } else {
                assert(rows[k] == second[k - n]);
                assert(nodes[k] == second_nodes[k - n]);
            }
        }
        assert forall|k: int| 0 <= k < rows.len() implies exists|c: int|
            0 <= c < children.len() && goes_on_from(
                (#[trigger] rows[k]).path,
                (#[trigger] children[c]).info.path,
            ) by {
            if k < n {
                assert(rows[k] == first[k]);
                let c = choose|c: int|
                    0 <= c < head.len() && goes_on_from(
                        first[k].path,
                        (#[trigger] head[c]).info.path,
                    );
                assert(children[c] == head[c]);
            } else {
                assert(rows[k] == second[k - n]);
                assert(goes_on_from(rows[k].path, children[children.len() - 1].info.path));
            }
        }
        assert forall|k: int| 0 <= k < rows.len() && (#[trigger] rows[k]).depth
            == depth implies children.contains(nodes[k]) by {
            if k < n {
                assert(rows[k] == first[k]);
                assert(nodes[k] == first_nodes[k]);
                let c = choose|c: int| 0 <= c < head.len() && head[c] == nodes[k];
                assert(children[c] == head[c]);
            } else {
                assert(rows[k] == second[k - n]);
                assert(k == n);
                assert(nodes[k] == second_nodes[0]);
                assert(children[children.len() - 1] == last);
            }
        }
        assert forall|k: int| 0 <= k < rows.len() && (#[trigger] rows[k]).depth
            > depth implies is_listed_below_its_directory(rows, nodes, k) by {
            if k < n {
                assert(rows[k] == first[k]);
                lemma_listed_in_concat(first, first_nodes, second, second_nodes, k);
            } else {
                assert(rows[k] == second[k - n]);
                lemma_listed_in_concat(first, first_nodes, second, second_nodes, k - n);
            }
        }
    }
}

/// The root comes first. A row is at most one level deeper than the one before
/// it, and deeper only where that one is an expanded directory; and each row
/// stands below the directory that lists it.
pub proof fn rows_stand_below_their_directories(tree: TreeView)
    requires
        tree.wf(),
    ensures
        ({
            let rows = tree.nodes();
            let nodes = shown(tree.root);
            &&& rows.len() == nodes.len()
            &&& rows.len() >= 1
            &&& rows[0] == fs_tree::listed(tree.root, 0)
            &&& forall|i: int|
                0 <= i < rows.len() ==> (#[trigger] rows[i]) == fs_tree::listed(
                    nodes[i],
                    rows[i].depth,
                )
            &&& forall|i: int|
                1 <= i < rows.len() ==> {
                    &&& 1 <= (#[trigger] rows[i]).depth <= rows[i - 1].depth + 1
                    &&& is_listed_below_its_directory(rows, nodes, i)
                    &&& rows[i].depth > rows[i - 1].depth ==> rows[i - 1].is_dir && rows[i
                        - 1].expanded
                }
        }),
{
    lemma_rows(tree.root, 0);
    let rows = tree.nodes();
    let nodes = shown(tree.root);
    assert forall|i: int| 1 <= i < rows.len() implies {
        &&& 1 <= (#[trigger] rows[i]).depth <= rows[i - 1].depth + 1
        &&& is_listed_below_its_directory(rows, nodes, i)
        &&& rows[i].depth > rows[i - 1].depth ==> rows[i - 1].is_dir && rows[i - 1].expanded
    } by {
        let j = choose|j: int| #[trigger] is_listed_by(rows, nodes, i, j);
        if j < i - 1 {
            assert(rows[i - 1].depth > rows[j].depth);
        }
    }
}

/// Where the rows from `at` on stop being deeper than `depth`.
pub open spec fn deeper_until(rows: Seq<VisibleView>, depth: nat, at: int) -> int
    decreases rows.len() - at,
{
    if at >= rows.len() || rows[at].depth <= depth {
        at
    } else {
        deeper_until(rows, depth, at + 1)
    }
}

/// Where the rows below row `k` end.
pub open spec fn end_below(rows: Seq<VisibleView>, k: int) -> int {
    deeper_until(rows, rows[k].depth, k + 1)
}

proof fn lemma_deeper_until(rows: Seq<VisibleView>, depth: nat, at: int, end: int)
    requires
        0 <= at <= end <= rows.len(),
        forall|i: int| at <= i < end ==> (#[trigger] rows[i]).depth > depth,
        end < rows.len() ==> rows[end].depth <= depth,
    ensures
        deeper_until(rows, depth, at) == end,
    decreases end - at,
{
    if at < end {
        assert(rows[at].depth > depth);
        lemma_deeper_until(rows, depth, at + 1, end);
    }
}

pub proof fn lemma_visible_all_front(nodes: Seq<NodeView>, depth: nat)
    requires
        nodes.len() > 0,
    ensures
        fs_tree::visible_all(nodes, depth) == fs_tree::visible(nodes[0], depth)
            + fs_tree::visible_all(nodes.drop_first(), depth),
        shown_all(nodes) == shown(nodes[0]) + shown_all(nodes.drop_first()),
    decreases nodes.len(),
{
    let all = fs_tree::visible_all(nodes, depth);
    let rest = nodes.drop_first();
    if nodes.len() == 1 {
        assert(nodes.drop_last() =~= Seq::<NodeView>::empty());
        assert(rest =~= Seq::<NodeView>::empty());
    } else {
        lemma_visible_all_front(nodes.drop_last(), depth);
        assert(nodes.drop_last().drop_first() =~= rest.drop_last());
    }
    assert(all =~= fs_tree::visible(nodes[0], depth) + fs_tree::visible_all(rest, depth));
    assert(shown_all(nodes) =~= shown(nodes[0]) + shown_all(rest));
}

/// Nodes that are not expanded are listed alone.
pub proof fn lemma_shown_all_collapsed(nodes: Seq<NodeView>)
    requires
        forall|i: int| 0 <= i < nodes.len() ==> !(#[trigger] nodes[i]).expanded,
    ensures
        shown_all(nodes) == nodes,
    decreases nodes,
{
    if nodes.len() > 0 {
        let head = nodes.drop_last();
        assert forall|i: int| 0 <= i < head.len() implies !(#[trigger] head[i]).expanded by {
            assert(head[i] == nodes[i]);
        }
        lemma_shown_all_collapsed(head);
        assert(!nodes[nodes.len() - 1].expanded);
        assert(shown(nodes.last()) == seq![nodes.last()]);
        assert(shown_all(nodes) =~= nodes);
    } else {
        assert(shown_all(nodes) =~= nodes);
    }
}

proof fn lemma_elsewhere_not_found(
    node: NodeView,
    path: Seq<PartView>,
    edit: Edit,
    listings: Seq<ListingView>,
    mode: ExplorerSortMode,
)
    requires
        load::well_formed(node, false),
        !goes_on_from(path, node.info.path),
    ensures
        edit::edited(node, path, edit, listings, mode) == (node, edit::EditView::NotFound),
    decreases node,
{
    assert(path.take(path.len() as int) =~= path);
    if let Some(children) = node.children {
        assert(load::all_formed(node.info.path, children, false));
        lemma_elsewhere_not_found_all(node.info.path, children, path, edit, listings, mode);
    }
}

proof fn lemma_elsewhere_not_found_all(
    parent: Seq<PartView>,
    nodes: Seq<NodeView>,
    path: Seq<PartView>,
    edit: Edit,
    listings: Seq<ListingView>,
    mode: ExplorerSortMode,
)
    requires
        load::all_formed(parent, nodes, false),
        !goes_on_from(path, parent),
    ensures
        edit::edited_all(nodes, path, edit, listings, mode) == (nodes, edit::EditView::NotFound),
    decreases nodes,
{
    if nodes.len() > 0 {
        load::lemma_some_formed(parent, nodes, false);
        if goes_on_from(path, nodes[0].info.path) {
            lemma_child_goes_on(path, nodes[0].info.path, parent);
        }
        lemma_elsewhere_not_found(nodes[0], path, edit, listings, mode);
        lemma_elsewhere_not_found_all(parent, nodes.drop_first(), path, edit, listings, mode);
        assert(seq![nodes[0]] + nodes.drop_first() =~= nodes);
    }
}

/// Whether `now` is `rows` with row `k` and those below it, which are `own` and
/// end at `end`, replaced.
pub open spec fn is_replaced(
    rows: Seq<VisibleView>,
    now: Seq<VisibleView>,
    k: int,
    end: int,
    own: Seq<VisibleView>,
    own_now: Seq<VisibleView>,
) -> bool {
    &&& 0 <= k < end <= rows.len()
    &&& forall|i: int| k < i < end ==> (#[trigger] rows[i]).depth > rows[k].depth
    &&& end < rows.len() ==> rows[end].depth <= rows[k].depth
    &&& rows.subrange(k, end) == own
    &&& now == rows.take(k) + own_now + rows.skip(end)
}

proof fn lemma_replaced_behind(
    first: Seq<VisibleView>,
    rows: Seq<VisibleView>,
    now: Seq<VisibleView>,
    k: int,
    end: int,
    own: Seq<VisibleView>,
    own_now: Seq<VisibleView>,
)
    requires
        is_replaced(rows, now, k, end, own, own_now),
    ensures
        is_replaced(
            first + rows,
            first + now,
            first.len() + k,
            first.len() + end,
            own,
            own_now,
        ),
{
    let n = first.len() as int;
    let all = first + rows;
    assert forall|i: int| n + k < i < n + end implies (#[trigger] all[i]).depth > all[n
        + k].depth by {
        assert(all[i] == rows[i - n]);
    }
    assert(all.subrange(n + k, n + end) =~= rows.subrange(k, end));
    assert(first + now =~= all.take(n + k) + own_now + all.skip(n + end)) by {
        assert(all.take(n + k) =~= first + rows.take(k));
        assert(all.skip(n + end) =~= rows.skip(end));
    }
}

proof fn lemma_replaced_before(
    second: Seq<VisibleView>,
    rows: Seq<VisibleView>,
    now: Seq<VisibleView>,
    k: int,
    end: int,
    own: Seq<VisibleView>,
    own_now: Seq<VisibleView>,
)
    requires
        is_replaced(rows, now, k, end, own, own_now),
        second.len() > 0 ==> second[0].depth <= rows[k].depth,
    ensures
        is_replaced(rows + second, now + second, k, end, own, own_now),
{
    let all = rows + second;
    assert forall|i: int| k < i < end implies (#[trigger] all[i]).depth > all[k].depth by {
        assert(all[i] == rows[i]);
    }
    if end < all.len() {
        assert(all[end] == if end < rows.len() {
            rows[end]
        } else {
            second[0]
        });
    }
    assert(all.subrange(k, end) =~= rows.subrange(k, end));
    assert(now + second =~= all.take(k) + own_now + all.skip(end)) by {
        assert(all.take(k) =~= rows.take(k));
        assert(all.skip(end) =~= rows.skip(end) + second);
    }
}

/// Where a row stands.
pub proof fn lemma_row_place(node: NodeView, depth: nat, k: int)
    requires
        load::well_formed(node, true),
        0 <= k < fs_tree::visible(node, depth).len(),
    ensures
        ({
            let row = fs_tree::visible(node, depth)[k];
            &&& shown(node).len() == fs_tree::visible(node, depth).len()
            &&& row.depth >= depth
            &&& k > 0 ==> row.depth > depth
            &&& row.path.len() + depth == node.info.path.len() + row.depth
            &&& row == fs_tree::listed(shown(node)[k], row.depth)
        }),
{
    load::lemma_apart_is_formed(node);
    lemma_rows(node, depth);
    let rows = fs_tree::visible(node, depth);
    assert(rows[k].path.len() + depth == node.info.path.len() + rows[k].depth);
}

proof fn lemma_row_place_behind(
    parent: Seq<PartView>,
    nodes: Seq<NodeView>,
    depth: nat,
    k: int,
)
    requires
        load::all_formed(parent, nodes, true),
        nodes.len() > 0,
        0 <= k < fs_tree::visible_all(nodes.drop_first(), depth).len(),
    ensures
        fs_tree::visible_all(nodes.drop_first(), depth).len() == shown_all(
            nodes.drop_first(),
        ).len(),
        fs_tree::visible_all(nodes.drop_first(), depth)[0].depth == depth,
        !goes_on_from(
            fs_tree::visible_all(nodes.drop_first(), depth)[k].path,
            nodes[0].info.path,
        ),
{
    let rest = nodes.drop_first();
    load::lemma_some_formed(parent, nodes, true);
    assert forall|i: int| 0 <= i < rest.len() implies load::is_child_path(
        parent,
        (#[trigger] rest[i]).info.path,
    ) && load::well_formed(rest[i], false) by {
        load::lemma_apart_is_formed(rest[i]);
    }
    lemma_rows_all(parent, rest, depth);
    let rows = fs_tree::visible_all(rest, depth);
    let c = choose|c: int|
        0 <= c < rest.len() && goes_on_from(rows[k].path, (#[trigger] rest[c]).info.path);
    assert(load::is_child_path(parent, rest[c].info.path));
    assert(rest[c].info.path != nodes[0].info.path);
}

/// An edit of the node of row `k` replaces that row and those below it by what is
/// visible of the node after the edit.
pub proof fn lemma_edited_rows(
    node: NodeView,
    depth: nat,
    path: Seq<PartView>,
    edit: Edit,
    listings: Seq<ListingView>,
    mode: ExplorerSortMode,
    k: int,
) -> (end: int)
    requires
        load::well_formed(node, true),
        0 <= k < fs_tree::visible(node, depth).len(),
        fs_tree::visible(node, depth)[k].path == path,
    ensures
        ({
            let rows = fs_tree::visible(node, depth);
            let own = shown(node)[k];
            let (after, outcome) = edit::edited(node, path, edit, listings, mode);
            let (applied, done) = edit::applied(own, edit, listings, mode);
            &&& outcome == done
            &&& is_replaced(
                rows,
                fs_tree::visible(after, depth),
                k,
                end,
                fs_tree::visible(own, rows[k].depth),
                fs_tree::visible(applied, rows[k].depth),
            )
        }),
    decreases node,
{
    let rows = fs_tree::visible(node, depth);
    let own = shown(node)[k];
    lemma_row_place(node, depth, k);
    let applied = edit::applied(own, edit, listings, mode).0;
    let now = fs_tree::visible(applied, rows[k].depth);
    if node.info.path == path {
        assert(k == 0);
        let end = rows.len() as int;
        assert forall|i: int| k < i < end implies (#[trigger] rows[i]).depth > rows[k].depth by {
            lemma_row_place(node, depth, i);
        }
        assert(rows.subrange(k, end) =~= rows);
        assert(rows.take(0) + now + rows.skip(end) =~= now);
        end
    } else {
        assert(k > 0);
        let children = node.children->0;
        assert(load::all_formed(node.info.path, children, true));
        let below = fs_tree::visible_all(children, depth + 1);
        let first = seq![fs_tree::listed(node, depth)];
        assert(rows[k] == below[k - 1]);
        let e = lemma_edited_rows_all(
            node.info.path,
            children,
            depth + 1,
            path,
            edit,
            listings,
            mode,
            k - 1,
        );
        let after_below = edit::edited_all(children, path, edit, listings, mode).0;
        lemma_replaced_behind(
            first,
            below,
            fs_tree::visible_all(after_below, depth + 1),
            k - 1,
            e,
            fs_tree::visible(own, rows[k].depth),
            now,
        );
        e + 1
    }
}

proof fn lemma_edited_rows_all(
    parent: Seq<PartView>,
    nodes: Seq<NodeView>,
    depth: nat,
    path: Seq<PartView>,
    edit: Edit,
    listings: Seq<ListingView>,
    mode: ExplorerSortMode,
    k: int,
) -> (end: int)
    requires
        load::all_formed(parent, nodes, true),
        0 <= k < fs_tree::visible_all(nodes, depth).len(),
        fs_tree::visible_all(nodes, depth)[k].path == path,
    ensures
        ({
            let rows = fs_tree::visible_all(nodes, depth);
            let own = shown_all(nodes)[k];
            let (after, outcome) = edit::edited_all(nodes, path, edit, listings, mode);
            let (applied, done) = edit::applied(own, edit, listings, mode);
            &&& outcome == done
            &&& is_replaced(
                rows,
                fs_tree::visible_all(after, depth),
                k,
                end,
                fs_tree::visible(own, rows[k].depth),
                fs_tree::visible(applied, rows[k].depth),
            )
        }),
    decreases nodes,
{
    let rows = fs_tree::visible_all(nodes, depth);
    let rest = nodes.drop_first();
    load::lemma_some_formed(parent, nodes, true);
    lemma_visible_all_front(nodes, depth);
    let first = fs_tree::visible(nodes[0], depth);
    let second = fs_tree::visible_all(rest, depth);
    let n = first.len() as int;
    lemma_row_place(nodes[0], depth, 0);
    if second.len() > 0 {
        lemma_row_place_behind(parent, nodes, depth, 0);
    }
    let after = edit::edited_all(nodes, path, edit, listings, mode).0;
    let own = shown_all(nodes)[k];
    let applied = edit::applied(own, edit, listings, mode).0;
    let own_rows = fs_tree::visible(own, rows[k].depth);
    let own_now = fs_tree::visible(applied, rows[k].depth);
    if k < n {
        assert(rows[k] == first[k]);
        lemma_row_place(nodes[0], depth, k);
        let end = lemma_edited_rows(nodes[0], depth, path, edit, listings, mode, k);
        assert(own == shown(nodes[0])[k]);
        let head = edit::edited(nodes[0], path, edit, listings, mode).0;
        assert(after == seq![head] + rest);
        assert(after.drop_first() =~= rest);
        lemma_visible_all_front(after, depth);
        lemma_replaced_before(
            second,
            first,
            fs_tree::visible(head, depth),
            k,
            end,
            own_rows,
            own_now,
        );
        end
    } else {
        let j = k - n;
        assert(rows[k] == second[j]);
        lemma_row_place_behind(parent, nodes, depth, j);
        assert(own == shown_all(rest)[j]);
        load::lemma_apart_is_formed(nodes[0]);
        lemma_elsewhere_not_found(nodes[0], path, edit, listings, mode);
        let e = lemma_edited_rows_all(parent, rest, depth, path, edit, listings, mode, j);
        let tail = edit::edited_all(rest, path, edit, listings, mode).0;
        assert(after == seq![nodes[0]] + tail);
        assert(after.drop_first() =~= tail);
        lemma_visible_all_front(after, depth);
        lemma_replaced_behind(
            first,
            second,
            fs_tree::visible_all(tail, depth),
            j,
            e,
            own_rows,
            own_now,
        );
        e + n
    }
}

proof fn lemma_hidden_edit(
    node: NodeView,
    depth: nat,
    path: Seq<PartView>,
    listings: Seq<ListingView>,
    mode: ExplorerSortMode,
)
    requires
        forall|k: int|
            0 <= k < fs_tree::visible(node, depth).len() && (#[trigger] fs_tree::visible(
                node,
                depth,
            )[k]).path == path ==> !fs_tree::visible(node, depth)[k].is_dir,
    ensures
        fs_tree::visible(edit::edited(node, path, Edit::Collapse, listings, mode).0, depth)
            == fs_tree::visible(node, depth),
    decreases node,
{
    let rows = fs_tree::visible(node, depth);
    if node.info.path == path {
        assert(rows[0].path == path);
    } else if node.info.is_dir && node.expanded && node.children is Some {
        let children = node.children->0;
        let below = fs_tree::visible_all(children, depth + 1);
        assert(rows == seq![fs_tree::listed(node, depth)] + below);
        assert forall|k: int| 0 <= k < below.len() && (#[trigger] below[k]).path
            == path implies !below[k].is_dir by {
            assert(rows[k + 1] == below[k]);
        }
        lemma_hidden_edit_all(children, depth + 1, path, listings, mode);
    }
}

proof fn lemma_hidden_edit_all(
    nodes: Seq<NodeView>,
    depth: nat,
    path: Seq<PartView>,
    listings: Seq<ListingView>,
    mode: ExplorerSortMode,
)
    requires
        forall|k: int|
            0 <= k < fs_tree::visible_all(nodes, depth).len() && (#[trigger] fs_tree::visible_all(
                nodes,
                depth,
            )[k]).path == path ==> !fs_tree::visible_all(nodes, depth)[k].is_dir,
    ensures
        fs_tree::visible_all(
            edit::edited_all(nodes, path, Edit::Collapse, listings, mode).0,
            depth,
        ) == fs_tree::visible_all(nodes, depth),
    decreases nodes,
{
    if nodes.len() > 0 {
        let rows = fs_tree::visible_all(nodes, depth);
        let rest = nodes.drop_first();
        let first = fs_tree::visible(nodes[0], depth);
        let second = fs_tree::visible_all(rest, depth);
        lemma_visible_all_front(nodes, depth);
        assert forall|k: int| 0 <= k < first.len() && (#[trigger] first[k]).path
            == path implies !first[k].is_dir by {
            assert(rows[k] == first[k]);
        }
        assert forall|k: int| 0 <= k < second.len() && (#[trigger] second[k]).path
            == path implies !second[k].is_dir by {
            assert(rows[k + first.len()] == second[k]);
        }
        lemma_hidden_edit(nodes[0], depth, path, listings, mode);
        lemma_hidden_edit_all(rest, depth, path, listings, mode);
        let head = edit::edited(nodes[0], path, Edit::Collapse, listings, mode).0;
        let tail = edit::edited_all(rest, path, Edit::Collapse, listings, mode).0;
        let after = edit::edited_all(nodes, path, Edit::Collapse, listings, mode).0;
        assert(after == seq![head] + tail || after == seq![head] + rest);
        assert((seq![head] + tail).drop_first() =~= tail);
        assert((seq![head] + rest).drop_first() =~= rest);
        lemma_visible_all_front(after, depth);
    }
}

/// Collapsing a listed directory removes exactly the deeper rows right after it.
pub proof fn collapsing_removes_the_rows_below(tree: TreeView, path: Seq<PartView>, k: int)
    requires
        tree.has_distinct_names(),
        0 <= k < tree.nodes().len(),
        tree.nodes()[k].path == path,
        tree.nodes()[k].is_dir,
    ensures
        ({
            let rows = tree.nodes();
            tree.collapsed(path).nodes() == rows.take(k) + seq![
                VisibleView { expanded: false, ..rows[k] },
            ] + rows.skip(end_below(rows, k))
        }),
{
    let rows = tree.nodes();
    load::lemma_apart_is_formed(tree.root);
    lemma_rows(tree.root, 0);
    let end = lemma_edited_rows(
        tree.root,
        0,
        path,
        Edit::Collapse,
        Seq::empty(),
        tree.mode,
        k,
    );
    lemma_deeper_until(rows, rows[k].depth, k + 1, end);
    let own = shown(tree.root)[k];
    assert(rows[k] == fs_tree::listed(own, rows[k].depth));
    let applied = edit::applied(own, Edit::Collapse, Seq::empty(), tree.mode).0;
    assert(fs_tree::visible(applied, rows[k].depth) == seq![
        VisibleView { expanded: false, ..rows[k] },
    ]);
}

/// Collapsing what is not a listed directory changes no row.
pub proof fn collapsing_what_is_not_listed_changes_no_row(tree: TreeView, path: Seq<PartView>)
    requires
        forall|k: int|
            0 <= k < tree.nodes().len() && (#[trigger] tree.nodes()[k]).path == path
                ==> !tree.nodes()[k].is_dir,
    ensures
        tree.collapsed(path).nodes() == tree.nodes(),
{
    let rows = fs_tree::visible(tree.root, 0);
    assert forall|k: int| 0 <= k < rows.len() && (#[trigger] rows[k]).path
        == path implies !rows[k].is_dir by {
        assert(tree.nodes()[k] == rows[k]);
    }
    lemma_hidden_edit(tree.root, 0, path, Seq::empty(), tree.mode);
}

proof fn lemma_collapsed_twice(
    node: NodeView,
    path: Seq<PartView>,
    listings: Seq<ListingView>,
    mode: ExplorerSortMode,
)
    ensures
        ({
            let once = edit::edited(node, path, Edit::Collapse, listings, mode);
            edit::edited(once.0, path, Edit::Collapse, listings, mode) == once
        }),
    decreases node,
{
    if node.info.path != path {
        if let Some(children) = node.children {
            lemma_collapsed_twice_all(children, path, listings, mode);
        }
    }
}

proof fn lemma_collapsed_twice_all(
    nodes: Seq<NodeView>,
    path: Seq<PartView>,
    listings: Seq<ListingView>,
    mode: ExplorerSortMode,
)
    ensures
        ({
            let once = edit::edited_all(nodes, path, Edit::Collapse, listings, mode);
            edit::edited_all(once.0, path, Edit::Collapse, listings, mode) == once
        }),
    decreases nodes,
{
    if nodes.len() > 0 {
        let rest = nodes.drop_first();
        lemma_collapsed_twice(nodes[0], path, listings, mode);
        lemma_collapsed_twice_all(rest, path, listings, mode);
        let head = edit::edited(nodes[0], path, Edit::Collapse, listings, mode).0;
        let tail = edit::edited_all(rest, path, Edit::Collapse, listings, mode).0;
        let once = edit::edited_all(nodes, path, Edit::Collapse, listings, mode).0;
        assert(once == seq![head] + tail || once == seq![head] + rest);
        assert((seq![head] + tail).drop_first() =~= tail);
        assert((seq![head] + rest).drop_first() =~= rest);
    }
}

/// Collapsing a directory once more changes nothing, and leaves the selection and
/// the scroll position on listed nodes.
pub proof fn collapsing_twice_is_collapsing_once(tree: TreeView, path: Seq<PartView>)
    ensures
        tree.collapsed(path).collapsed(path) == tree.collapsed(path),
        tree.collapsed(path).selected < tree.collapsed(path).nodes().len(),
        tree.collapsed(path).scroll < tree.collapsed(path).nodes().len(),
{
    lemma_collapsed_twice(tree.root, path, Seq::empty(), tree.mode);
    let after = tree.collapsed(path);
    assert(fs_tree::visible(after.root, 0).len() > 0);
}

/// Toggling a listed directory negates whether it is expanded. The rows before it
/// and those after what is below it stay. The rows below it go where it was
/// expanded, and come where it was not. It fails, and changes nothing, exactly
/// where the children are not loaded and cannot be.
pub proof fn toggling_flips_the_row(
    tree: TreeView,
    path: Seq<PartView>,
    listings: Seq<ListingView>,
    k: int,
)
    requires
        tree.has_distinct_names(),
        0 <= k < tree.nodes().len(),
        tree.nodes()[k].path == path,
        tree.nodes()[k].is_dir,
    ensures
        ({
            let rows = tree.nodes();
            let (after, outcome) = tree.toggled(path, listings);
            let now = after.nodes();
            let own = shown(tree.root)[k];
            &&& outcome is Err <==> own.children is None && load::loaded(
                own,
                listings,
                tree.mode,
            ) is Err
            &&& outcome is Err ==> after == tree
            &&& outcome is Ok ==> {
                &&& k < end_below(now, k) <= now.len()
                &&& now.take(k) == rows.take(k)
                &&& now[k] == VisibleView { expanded: !rows[k].expanded, ..rows[k] }
                &&& now.skip(end_below(now, k)) == rows.skip(end_below(rows, k))
                &&& rows[k].expanded ==> end_below(now, k) == k + 1
                &&& !rows[k].expanded ==> end_below(rows, k) == k + 1
            }
        }),
{
    let rows = tree.nodes();
    let own = shown(tree.root)[k];
    lemma_row_place(tree.root, 0, k);
    let end = lemma_edited_rows(tree.root, 0, path, Edit::Toggle, listings, tree.mode, k);
    let (after, outcome) = tree.toggled(path, listings);
    let applied = edit::applied(own, Edit::Toggle, listings, tree.mode).0;
    let depth = rows[k].depth;
    if outcome is Ok {
        lemma_shown_formed(tree.root, k);
        lemma_applied_rows(own, depth, listings, tree.mode);
        lemma_replaced_rows(
            rows,
            after.nodes(),
            k,
            end,
            fs_tree::visible(own, depth),
            fs_tree::visible(applied, depth),
        );
    } else {
        lemma_failed_edit_unchanged(tree.root, path, listings, tree.mode);
    }
}

pub proof fn lemma_replaced_rows(
    rows: Seq<VisibleView>,
    now: Seq<VisibleView>,
    k: int,
    end: int,
    own: Seq<VisibleView>,
    own_now: Seq<VisibleView>,
)
    requires
        is_replaced(rows, now, k, end, own, own_now),
        own_now.len() > 0,
        own_now[0].depth == rows[k].depth,
        forall|i: int| 1 <= i < own_now.len() ==> (#[trigger] own_now[i]).depth > rows[k].depth,
    ensures
        end_below(rows, k) == end,
        end == k + own.len(),
        end_below(now, k) == k + own_now.len(),
        k + own_now.len() <= now.len(),
        now.take(k) == rows.take(k),
        now[k] == own_now[0],
        now.skip(k + own_now.len()) == rows.skip(end),
{
    let depth = rows[k].depth;
    let now_end = k + own_now.len();
    lemma_deeper_until(rows, depth, k + 1, end);
    assert(rows.subrange(k, end).len() == end - k);
    assert(now[k] == own_now[0]);
    assert forall|i: int| k + 1 <= i < now_end implies (#[trigger] now[i]).depth > depth by {
        assert(now[i] == own_now[i - k]);
    }
    if now_end < now.len() {
        assert(now[now_end] == rows.skip(end)[0]);
        assert(rows.skip(end)[0] == rows[end]);
    }
    lemma_deeper_until(now, depth, k + 1, now_end);
    assert(now.take(k) =~= rows.take(k));
    assert(now.skip(now_end) =~= rows.skip(end));
}

proof fn lemma_failed_edit_unchanged(
    node: NodeView,
    path: Seq<PartView>,
    listings: Seq<ListingView>,
    mode: ExplorerSortMode,
)
    requires
        !(edit::edited(node, path, Edit::Toggle, listings, mode).1 is Done),
    ensures
        edit::edited(node, path, Edit::Toggle, listings, mode).0 == node,
    decreases node,
{
    if node.info.path != path {
        if let Some(children) = node.children {
            lemma_failed_edit_unchanged_all(children, path, listings, mode);
        }
    }
}

proof fn lemma_failed_edit_unchanged_all(
    nodes: Seq<NodeView>,
    path: Seq<PartView>,
    listings: Seq<ListingView>,
    mode: ExplorerSortMode,
)
    requires
        !(edit::edited_all(nodes, path, Edit::Toggle, listings, mode).1 is Done),
    ensures
        edit::edited_all(nodes, path, Edit::Toggle, listings, mode).0 == nodes,
    decreases nodes,
{
    if nodes.len() > 0 {
        lemma_failed_edit_unchanged(nodes[0], path, listings, mode);
        if edit::edited(nodes[0], path, Edit::Toggle, listings, mode).1 is NotFound {
            lemma_failed_edit_unchanged_all(nodes.drop_first(), path, listings, mode);
        }
        assert(seq![nodes[0]] + nodes.drop_first() =~= nodes);
    }
}

/// The node of a row is well formed.
proof fn lemma_shown_formed(node: NodeView, k: int)
    requires
        load::well_formed(node, false),
        0 <= k < shown(node).len(),
    ensures
        load::well_formed(shown(node)[k], false),
    decreases node,
{
    if k > 0 {
        let children = node.children->0;
        assert(load::all_formed(node.info.path, children, false));
        assert(shown(node)[k] == shown_all(children)[k - 1]);
        lemma_shown_all_formed(node.info.path, children, k - 1);
    }
}

proof fn lemma_shown_all_formed(parent: Seq<PartView>, nodes: Seq<NodeView>, k: int)
    requires
        load::all_formed(parent, nodes, false),
        0 <= k < shown_all(nodes).len(),
    ensures
        load::well_formed(shown_all(nodes)[k], false),
    decreases nodes,
{
    load::lemma_some_formed(parent, nodes, false);
    let n = shown_all(nodes.drop_last()).len();
    if k < n {
        lemma_shown_all_formed(parent, nodes.drop_last(), k);
    } else {
        lemma_shown_formed(nodes.last(), k - n);
    }
}

proof fn lemma_applied_rows(
    own: NodeView,
    depth: nat,
    listings: Seq<ListingView>,
    mode: ExplorerSortMode,
)
    requires
        load::well_formed(own, false),
        own.info.is_dir,
        edit::applied(own, Edit::Toggle, listings, mode).1 is Done,
    ensures
        ({
            let rows = fs_tree::visible(
                edit::applied(own, Edit::Toggle, listings, mode).0,
                depth,
            );
            &&& rows.len() > 0
            &&& rows[0] == fs_tree::listed(NodeView { expanded: !own.expanded, ..own }, depth)
            &&& own.expanded ==> rows.len() == 1
            &&& !own.expanded ==> fs_tree::visible(own, depth).len() == 1
            &&& forall|i: int| 1 <= i < rows.len() ==> (#[trigger] rows[i]).depth > depth
        }),
{
    let applied = edit::applied(own, Edit::Toggle, listings, mode).0;
    load::lemma_loaded_formed(own, listings, mode, false);
    let ready = match own.children {
        Some(_) => own,
        None => load::loaded(own, listings, mode)->Ok_0,
    };
    form::flipping_keeps_form(ready, !own.expanded, false);
    lemma_rows(applied, depth);
}

} // verus!
