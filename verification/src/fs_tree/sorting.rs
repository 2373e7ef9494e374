//! What the children of a directory are, and in which order they stand.

use vstd::prelude::*;

use crate::fs_tree;
use crate::fs_tree::edit;
use crate::fs_tree::load;
use crate::fs_tree::load::EntryView;
use crate::fs_tree::load::ListingView;
use crate::fs_tree::node::NodeInfo;
use crate::fs_tree::node::NodeView;
use crate::fs_tree::order;
use crate::fs_tree::order::ExplorerSortMode;
use crate::fs_tree::rows;
use crate::path;
use crate::path::PartView;
use crate::text;

verus! {

/// Whether a text comes behind another in the order of a dictionary: they agree up
/// to a place, and there it has a larger character, or goes on where the other ends.
pub open spec fn comes_behind(a: Seq<char>, b: Seq<char>) -> bool {
    exists|k: int| #[trigger] differs_at(a, b, k)
}

pub open spec fn differs_at(a: Seq<char>, b: Seq<char>, k: int) -> bool {
    &&& 0 <= k < a.len()
    &&& k <= b.len()
    &&& forall|i: int| 0 <= i < k ==> a[i] == b[i]
    &&& k == b.len() || a[k] > b[k]
}

proof fn lemma_differs(a: Seq<char>, b: Seq<char>, k: int)
    requires
        differs_at(a, b, k),
    ensures
        order::text_order(a, b) > 0,
    decreases k,
{
    if k > 0 {
        assert(a[0] == b[0]);
        let rest_a = a.drop_first();
        let rest_b = b.drop_first();
        assert forall|i: int| 0 <= i < k - 1 implies rest_a[i] == rest_b[i] by {
            assert(a[i + 1] == b[i + 1]);
        }
        lemma_differs(rest_a, rest_b, k - 1);
    }
}

proof fn lemma_behind(a: Seq<char>, b: Seq<char>)
    ensures
        comes_behind(a, b) ==> order::text_order(a, b) > 0,
{
    if comes_behind(a, b) {
        let k = choose|k: int| #[trigger] differs_at(a, b, k);
        lemma_differs(a, b, k);
    }
}

/// The size of a file in bytes; a directory has none.
pub open spec fn bytes_of(info: NodeInfo) -> int {
    if info.size is Some {
        info.size->0 as int
    } else {
        0
    }
}

/// The time at which a file was last written.
pub open spec fn time_of(info: NodeInfo) -> int {
    if info.modified is Some {
        info.modified->0 as int
    } else {
        0
    }
}

/// Whether a file is of a type: its name is a stem that is not empty, a dot, and the
/// type without one; or it has no dot, and its type is empty.
pub open spec fn is_of_type(info: NodeInfo, stem: Seq<u8>, kind: Seq<u8>) -> bool {
    &&& info.path.len() > 0
    &&& {
        ||| {
            &&& info.path.last() == PartView::Normal(stem + seq![0x2eu8] + kind)
            &&& stem.len() > 0
            &&& !kind.contains(0x2eu8)
        }
        ||| {
            &&& info.path.last() == PartView::Normal(stem)
            &&& !stem.contains(0x2eu8)
            &&& kind.len() == 0
        }
    }
    &&& vstd::utf8::valid_utf8(kind)
}

proof fn lemma_no_dot(name: Seq<u8>)
    requires
        !name.contains(0x2eu8),
    ensures
        path::last_index(name, 0x2eu8) == -1,
    decreases name.len(),
{
    if name.len() > 0 {
        assert(name.contains(name.last()));
        let shorter = name.drop_last();
        assert(!shorter.contains(0x2eu8)) by {
            if shorter.contains(0x2eu8) {
                let i = choose|i: int| 0 <= i < shorter.len() && shorter[i] == 0x2eu8;
                assert(name[i] == 0x2eu8);
            }
        }
        lemma_no_dot(shorter);
    }
}

proof fn lemma_last_dot(stem: Seq<u8>, extension: Seq<u8>)
    requires
        !extension.contains(0x2eu8),
    ensures
        path::last_index(stem + seq![0x2eu8] + extension, 0x2eu8) == stem.len(),
    decreases extension.len(),
{
    let name = stem + seq![0x2eu8] + extension;
    if extension.len() == 0 {
        assert(name.last() == 0x2eu8);
    } else {
        assert(extension.contains(extension.last()));
        let shorter = extension.drop_last();
        assert(!shorter.contains(0x2eu8)) by {
            if shorter.contains(0x2eu8) {
                let i = choose|i: int| 0 <= i < shorter.len() && shorter[i] == 0x2eu8;
                assert(extension[i] == 0x2eu8);
            }
        }
        assert(name.drop_last() =~= stem + seq![0x2eu8] + shorter);
        lemma_last_dot(stem, shorter);
    }
}

proof fn lemma_extension(info: NodeInfo, stem: Seq<u8>, extension: Seq<u8>)
    requires
        is_of_type(info, stem, extension),
    ensures
        order::extension_of(info) == text::lowercase(vstd::utf8::decode_utf8(extension)),
{
    let name = stem + seq![0x2eu8] + extension;
    if info.path.last() == PartView::Normal(name) && stem.len() > 0 && !extension.contains(0x2eu8) {
        lemma_last_dot(stem, extension);
        assert(name.skip(stem.len() as int + 1) =~= extension);
    } else {
        lemma_no_dot(stem);
        assert(vstd::utf8::decode_utf8(extension) =~= Seq::<char>::empty());
    }
}

/// Whether a node may stand before another: a directory before a file; in the order by
/// size no smaller one before a larger one, in the one by time no earlier one before a
/// later one, and in the one by type as their types, without regard to case. Where these
/// do not tell two nodes apart, and in the order by name, they stand as in a dictionary,
/// without regard to case where that tells them apart, and else with regard to it.
pub open spec fn may_stand_before(
    a: NodeInfo,
    b: NodeInfo,
    mode: ExplorerSortMode,
    stems: (Seq<u8>, Seq<u8>),
    types: (Seq<u8>, Seq<u8>),
) -> bool {
    let named = {
        &&& !comes_behind(text::lowercase(a.name), text::lowercase(b.name))
        &&& text::lowercase(a.name) == text::lowercase(b.name) ==> !comes_behind(a.name, b.name)
    };
    let typed_a = text::lowercase(vstd::utf8::decode_utf8(types.0));
    let typed_b = text::lowercase(vstd::utf8::decode_utf8(types.1));
    &&& b.is_dir ==> a.is_dir
    &&& a.is_dir == b.is_dir ==> {
        &&& mode is Name ==> named
        &&& mode is Size ==> {
            &&& bytes_of(a) >= bytes_of(b)
            &&& bytes_of(a) == bytes_of(b) ==> named
        }
        &&& mode is Modified ==> {
            &&& time_of(a) >= time_of(b)
            &&& time_of(a) == time_of(b) ==> named
        }
        &&& mode is Type && is_of_type(a, stems.0, types.0) && is_of_type(b, stems.1, types.1) ==> {
            &&& !comes_behind(typed_a, typed_b)
            &&& typed_a == typed_b ==> named
        }
    }
}

proof fn lemma_order_means(
    a: NodeInfo,
    b: NodeInfo,
    mode: ExplorerSortMode,
    stems: (Seq<u8>, Seq<u8>),
    types: (Seq<u8>, Seq<u8>),
)
    requires
        order::node_order(a, b, mode) <= 0,
    ensures
        may_stand_before(a, b, mode, stems, types),
{
    lemma_behind(text::lowercase(a.name), text::lowercase(b.name));
    lemma_behind(a.name, b.name);
    lemma_behind(order::extension_of(a), order::extension_of(b));
    order::lemma_same_text_order(text::lowercase(a.name));
    order::lemma_same_text_order(order::extension_of(a));
    if is_of_type(a, stems.0, types.0) {
        lemma_extension(a, stems.0, types.0);
    }
    if is_of_type(b, stems.1, types.1) {
        lemma_extension(b, stems.1, types.1);
    }
}

/// Sorted nodes stand in their order, whichever two of them are looked at.
pub proof fn children_stand_in_order(
    nodes: Seq<NodeView>,
    mode: ExplorerSortMode,
    i: int,
    j: int,
    stems: (Seq<u8>, Seq<u8>),
    types: (Seq<u8>, Seq<u8>),
)
    requires
        0 <= i < j < order::sorted(nodes, mode).len(),
    ensures
        may_stand_before(
            order::sorted(nodes, mode)[i].info,
            order::sorted(nodes, mode)[j].info,
            mode,
            stems,
            types,
        ),
{
    order::sorting_orders_and_keeps(nodes, mode);
    let sorted = order::sorted(nodes, mode);
    assert(!order::stands_behind(sorted[i], sorted[j], mode));
    lemma_order_means(sorted[i].info, sorted[j].info, mode, stems, types);
}

/// A file that is larger stands before a smaller one in the order by size, and never
/// behind it; and so does a later one in the order by time.
pub proof fn larger_and_later_files_come_first(a: NodeInfo, b: NodeInfo)
    requires
        a.is_dir == b.is_dir,
    ensures
        bytes_of(a) > bytes_of(b) ==> order::node_order(a, b, ExplorerSortMode::Size) < 0
            && order::node_order(b, a, ExplorerSortMode::Size) > 0,
        time_of(a) > time_of(b) ==> order::node_order(a, b, ExplorerSortMode::Modified) < 0
            && order::node_order(b, a, ExplorerSortMode::Modified) > 0,
{
}

/// In a tree that is listed in another order, the children of every directory stand in
/// that order.
pub proof fn resorted_children_stand_in_order(
    node: NodeView,
    mode: ExplorerSortMode,
    i: int,
    j: int,
    stems: (Seq<u8>, Seq<u8>),
    types: (Seq<u8>, Seq<u8>),
)
    requires
        node.children is Some,
        0 <= i < j < edit::resorted(node, mode).children->0.len(),
    ensures
        edit::resorted(node, mode).children is Some,
        edit::resorted(node, mode).children->0.len() == node.children->0.len(),
        may_stand_before(
            edit::resorted(node, mode).children->0[i].info,
            edit::resorted(node, mode).children->0[j].info,
            mode,
            stems,
            types,
        ),
        exists|k: int|
            0 <= k < node.children->0.len() && edit::resorted(node, mode).children->0[i]
                == edit::resorted(#[trigger] node.children->0[k], mode),
{
    let below = edit::resorted_all(node.children->0, mode);
    lemma_resorted_all(node.children->0, mode);
    children_stand_in_order(below, mode, i, j, stems, types);
    order::sorting_orders_and_keeps(below, mode);
    let sorted = order::sorted(below, mode);
    assert(sorted.to_multiset().count(sorted[i]) > 0) by {
        broadcast use vstd::seq_lib::group_to_multiset_ensures;

        assert(sorted.contains(sorted[i]));
    }
    assert(below.contains(sorted[i])) by {
        broadcast use vstd::seq_lib::group_to_multiset_ensures;

        assert(below.to_multiset().count(sorted[i]) > 0);
    }
    let k = choose|k: int| 0 <= k < below.len() && below[k] == sorted[i];
    assert(edit::resorted(node.children->0[k], mode) == sorted[i]);
}

proof fn lemma_resorted_all(nodes: Seq<NodeView>, mode: ExplorerSortMode)
    ensures
        edit::resorted_all(nodes, mode).len() == nodes.len(),
        forall|k: int|
            0 <= k < nodes.len() ==> (#[trigger] edit::resorted_all(nodes, mode)[k])
                == edit::resorted(nodes[k], mode),
    decreases nodes,
{
    if nodes.len() > 0 {
        lemma_resorted_all(nodes.drop_last(), mode);
        let out = edit::resorted_all(nodes, mode);
        assert forall|k: int| 0 <= k < nodes.len() implies (#[trigger] out[k]) == edit::resorted(
            nodes[k],
            mode,
        ) by {
            if k < nodes.len() - 1 {
                assert(out[k] == edit::resorted_all(nodes.drop_last(), mode)[k]);
                assert(nodes.drop_last()[k] == nodes[k]);
            }
        }
    }
}

/// The node of an entry: below the directory, under its own name, a directory or a
/// file of the size, time and kind that the listing tells, collapsed and not looked
/// into.
pub open spec fn is_node_of(node: NodeView, directory: Seq<PartView>, entry: EntryView) -> bool {
    &&& node.info.path.len() == directory.len() + 1
    &&& node.info.path.drop_last() == directory
    &&& node.info.path.last() == PartView::Normal(entry.file_name)
    &&& node.info.name == entry.name
    &&& node.info.is_dir == entry.is_dir
    &&& entry.is_dir ==> node.info.size is None
    &&& !entry.is_dir && entry.len is Some ==> node.info.size == entry.len
    &&& !entry.is_dir && entry.len is None ==> node.info.size == Some(0u64)
    &&& node.info.modified == entry.modified
    &&& node.info.readonly == entry.readonly
    &&& !node.expanded
    &&& node.children is None
}

proof fn lemma_known(listings: Seq<ListingView>, path: Seq<PartView>, k: int)
    requires
        0 <= k < listings.len(),
        listings[k].path == path,
        forall|i: int| 0 <= i < k ==> (#[trigger] listings[i]).path != path,
    ensures
        load::known(listings, path) == Some(listings[k].entries),
    decreases k,
{
    if k > 0 {
        assert(listings[0].path != path);
        let rest = listings.drop_first();
        assert forall|i: int| 0 <= i < k - 1 implies (#[trigger] rest[i]).path != path by {
            assert(rest[i] == listings[i + 1]);
        }
        lemma_known(rest, path, k - 1);
    }
}

proof fn lemma_unknown(listings: Seq<ListingView>, path: Seq<PartView>)
    requires
        forall|i: int| 0 <= i < listings.len() ==> (#[trigger] listings[i]).path != path,
    ensures
        load::known(listings, path) is None,
    decreases listings.len(),
{
    if listings.len() > 0 {
        assert(listings[0].path != path);
        let rest = listings.drop_first();
        assert forall|i: int| 0 <= i < rest.len() implies (#[trigger] rest[i]).path != path by {
            assert(rest[i] == listings[i + 1]);
        }
        lemma_unknown(rest, path);
    }
}

/// A directory that is loaded has one child for each entry that was read of it, and
/// no others: the first listing of its path counts. It keeps what it was itself.
pub proof fn loading_makes_a_child_of_each_entry(
    node: NodeView,
    listings: Seq<ListingView>,
    mode: ExplorerSortMode,
    k: int,
) -> (nodes: Seq<NodeView>)
    requires
        0 <= k < listings.len(),
        listings[k].path == node.info.path,
        forall|i: int| 0 <= i < k ==> (#[trigger] listings[i]).path != node.info.path,
    ensures
        ({
            let loaded = load::loaded(node, listings, mode);
            match listings[k].entries {
                Some(entries) => {
                    &&& nodes.len() == entries.len()
                    &&& forall|i: int|
                        0 <= i < nodes.len() ==> is_node_of(
                            #[trigger] nodes[i],
                            node.info.path,
                            entries[i],
                        )
                    &&& loaded is Ok
                    &&& loaded->Ok_0.info == node.info
                    &&& loaded->Ok_0.expanded == node.expanded
                    &&& loaded->Ok_0.children is Some
                    &&& loaded->Ok_0.children->0.to_multiset() == nodes.to_multiset()
                    &&& loaded->Ok_0.children->0.len() == entries.len()
                },
                None => loaded is Err,
            }
        }),
{
    lemma_known(listings, node.info.path, k);
    match listings[k].entries {
        Some(entries) => {
            let nodes = load::entry_nodes(node.info.path, entries);
            order::sorting_orders_and_keeps(nodes, mode);
            assert forall|i: int| 0 <= i < nodes.len() implies is_node_of(
                #[trigger] nodes[i],
                node.info.path,
                entries[i],
            ) by {
                assert(nodes[i].info.path.drop_last() =~= node.info.path);
            }
            nodes
        },
        None => Seq::empty(),
    }
}

/// A directory that no listing tells of cannot be loaded.
pub proof fn unlisted_directories_cannot_be_loaded(
    node: NodeView,
    listings: Seq<ListingView>,
    mode: ExplorerSortMode,
)
    requires
        forall|i: int| 0 <= i < listings.len() ==> (#[trigger] listings[i]).path != node.info.path,
    ensures
        load::loaded(node, listings, mode) is Err,
{
    lemma_unknown(listings, node.info.path);
}

proof fn lemma_rows_tell(node: NodeView, depth: nat)
    ensures
        ({
            let rows = fs_tree::visible(node, depth);
            let nodes = rows::shown(node);
            &&& rows.len() == nodes.len()
            &&& forall|i: int|
                0 <= i < rows.len() ==> {
                    &&& (#[trigger] rows[i]).path == nodes[i].info.path
                    &&& rows[i].name == nodes[i].info.name
                    &&& rows[i].is_dir == nodes[i].info.is_dir
                    &&& rows[i].size == nodes[i].info.size
                    &&& rows[i].readonly == nodes[i].info.readonly
                    &&& rows[i].expanded == nodes[i].expanded
                }
        }),
    decreases node,
{
    if node.info.is_dir && node.expanded {
        if let Some(children) = node.children {
            lemma_rows_tell_all(children, depth + 1);
            let rows = fs_tree::visible(node, depth);
            let nodes = rows::shown(node);
            let below = fs_tree::visible_all(children, depth + 1);
            assert forall|i: int| 0 <= i < rows.len() implies {
                &&& (#[trigger] rows[i]).path == nodes[i].info.path
                &&& rows[i].name == nodes[i].info.name
                &&& rows[i].is_dir == nodes[i].info.is_dir
                &&& rows[i].size == nodes[i].info.size
                &&& rows[i].readonly == nodes[i].info.readonly
                &&& rows[i].expanded == nodes[i].expanded
            } by {
                if i > 0 {
                    assert(rows[i] == below[i - 1]);
                    assert(nodes[i] == rows::shown_all(children)[i - 1]);
                }
            }
        }
    }
}

proof fn lemma_rows_tell_all(children: Seq<NodeView>, depth: nat)
    ensures
        ({
            let rows = fs_tree::visible_all(children, depth);
            let nodes = rows::shown_all(children);
            &&& rows.len() == nodes.len()
            &&& forall|i: int|
                0 <= i < rows.len() ==> {
                    &&& (#[trigger] rows[i]).path == nodes[i].info.path
                    &&& rows[i].name == nodes[i].info.name
                    &&& rows[i].is_dir == nodes[i].info.is_dir
                    &&& rows[i].size == nodes[i].info.size
                    &&& rows[i].readonly == nodes[i].info.readonly
                    &&& rows[i].expanded == nodes[i].expanded
                }
        }),
    decreases children,
{
    if children.len() > 0 {
        lemma_rows_tell_all(children.drop_last(), depth);
        lemma_rows_tell(children.last(), depth);
        let rows = fs_tree::visible_all(children, depth);
        let nodes = rows::shown_all(children);
        let first = fs_tree::visible_all(children.drop_last(), depth);
        let last = fs_tree::visible(children.last(), depth);
        assert forall|i: int| 0 <= i < rows.len() implies {
            &&& (#[trigger] rows[i]).path == nodes[i].info.path
            &&& rows[i].name == nodes[i].info.name
            &&& rows[i].is_dir == nodes[i].info.is_dir
            &&& rows[i].size == nodes[i].info.size
            &&& rows[i].readonly == nodes[i].info.readonly
            &&& rows[i].expanded == nodes[i].expanded
        } by {
            if i < first.len() {
                assert(rows[i] == first[i]);
                assert(nodes[i] == rows::shown_all(children.drop_last())[i]);
            } else {
                assert(rows[i] == last[i - first.len()]);
                assert(nodes[i] == rows::shown(children.last())[i - first.len()]);
            }
        }
    }
}

/// A row of the explorer tells of its node what is known of it.
pub proof fn rows_tell_what_the_nodes_are(tree: fs_tree::TreeView, i: int)
    requires
        0 <= i < tree.nodes().len(),
    ensures
        rows::shown(tree.root).len() == tree.nodes().len(),
        ({
            let row = tree.nodes()[i];
            let node = rows::shown(tree.root)[i];
            &&& row.path == node.info.path
            &&& row.name == node.info.name
            &&& row.is_dir == node.info.is_dir
            &&& row.size == node.info.size
            &&& row.readonly == node.info.readonly
            &&& row.expanded == node.expanded
        }),
{
    lemma_rows_tell(tree.root, 0);
    assert(tree.nodes()[i] == fs_tree::visible(tree.root, 0)[i]);
}

} // verus!
