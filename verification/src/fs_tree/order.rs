//! The order in which the children of a directory are listed.

use std::cmp::Ordering;

use vstd::prelude::*;

use crate::fs_tree::node;
use crate::fs_tree::node::FsNode;
use crate::fs_tree::node::NodeInfo;
use crate::fs_tree::node::NodeView;
use crate::path;
use crate::text;

verus! {

#[derive(Debug, Clone, Copy, PartialEq, Eq, Structural)]
pub enum ExplorerSortMode {
    Name,
    Type,
    Modified,
    Size,
}

impl ExplorerSortMode {
    pub open spec fn label_text(self) -> Seq<char> {
        match self {
            ExplorerSortMode::Name => "name"@,
            ExplorerSortMode::Type => "type"@,
            ExplorerSortMode::Modified => "modified"@,
            ExplorerSortMode::Size => "size"@,
        }
    }

    pub fn label(self) -> (label: &'static str)
        ensures
            label@ == self.label_text(),
    {
        match self {
            ExplorerSortMode::Name => "name",
            ExplorerSortMode::Type => "type",
            ExplorerSortMode::Modified => "modified",
            ExplorerSortMode::Size => "size",
        }
    }

    pub open spec fn following(self) -> ExplorerSortMode {
        match self {
            ExplorerSortMode::Name => ExplorerSortMode::Type,
            ExplorerSortMode::Type => ExplorerSortMode::Modified,
            ExplorerSortMode::Modified => ExplorerSortMode::Size,
            ExplorerSortMode::Size => ExplorerSortMode::Name,
        }
    }

    pub fn next(self) -> (mode: ExplorerSortMode)
        ensures
            mode == self.following(),
    {
        match self {
            ExplorerSortMode::Name => ExplorerSortMode::Type,
            ExplorerSortMode::Type => ExplorerSortMode::Modified,
            ExplorerSortMode::Modified => ExplorerSortMode::Size,
            ExplorerSortMode::Size => ExplorerSortMode::Name,
        }
    }
}

/// Going on from mode to mode leads through all of them and back.
pub proof fn sort_modes_form_a_cycle(mode: ExplorerSortMode, other: ExplorerSortMode)
    ensures
        mode.following().following().following().following() == mode,
        ({
            ||| other == mode
            ||| other == mode.following()
            ||| other == mode.following().following()
            ||| other == mode.following().following().following()
        }),
{
}

/// How two texts compare, by their first difference in code points: less than,
/// equal to or greater than zero.
pub open spec fn text_order(a: Seq<char>, b: Seq<char>) -> int
    decreases a.len(),
{
    if a.len() == 0 && b.len() == 0 {
        0
    } else if a.len() == 0 {
        -1
    } else if b.len() == 0 {
        1
    } else if a[0] < b[0] {
        -1
    } else if a[0] > b[0] {
        1
    } else {
        text_order(a.drop_first(), b.drop_first())
    }
}

/// A comparison that falls back on another one.
pub open spec fn or_else(first: int, second: int) -> int {
    if first != 0 {
        first
    } else {
        second
    }
}

/// By name, first without regard to case.
pub open spec fn name_order(a: NodeInfo, b: NodeInfo) -> int {
    or_else(
        text_order(text::lowercase(a.name), text::lowercase(b.name)),
        text_order(a.name, b.name),
    )
}

/// The extension of a node, in lower case.
pub open spec fn extension_of(info: NodeInfo) -> Seq<char> {
    let extension = match path::last_extension(info.path) {
        Some(bytes) => match path::utf8(bytes) {
            Some(text) => text,
            None => Seq::empty(),
        },
        None => Seq::empty(),
    };
    text::lowercase(extension)
}

pub open spec fn modified_at(info: NodeInfo) -> int {
    match info.modified {
        Some(time) => time as int,
        None => 0,
    }
}

pub open spec fn size_of(info: NodeInfo) -> int {
    match info.size {
        Some(size) => size as int,
        None => 0,
    }
}

/// How two nodes compare: directories come first; then by the mode, the latest
/// and the largest first; then by name.
pub open spec fn node_order(a: NodeInfo, b: NodeInfo, mode: ExplorerSortMode) -> int {
    if a.is_dir && !b.is_dir {
        -1
    } else if !a.is_dir && b.is_dir {
        1
    } else {
        match mode {
            ExplorerSortMode::Name => name_order(a, b),
            ExplorerSortMode::Type => or_else(
                text_order(extension_of(a), extension_of(b)),
                name_order(a, b),
            ),
            ExplorerSortMode::Modified => or_else(
                modified_at(b) - modified_at(a),
                name_order(a, b),
            ),
            ExplorerSortMode::Size => or_else(size_of(b) - size_of(a), name_order(a, b)),
        }
    }
}

proof fn lemma_text_order(a: Seq<char>, b: Seq<char>)
    ensures
        text_order(a, a) == 0,
        text_order(a, b) < 0 <==> text_order(b, a) > 0,
        text_order(a, b) == 0 <==> text_order(b, a) == 0,
        text_order(a, b) == 0 ==> a == b,
    decreases a.len(),
{
    if a.len() > 0 && b.len() > 0 {
        lemma_text_order(a.drop_first(), b.drop_first());
        if text_order(a, b) == 0 {
            assert(a[0] == b[0]);
            assert(a =~= seq![a[0]] + a.drop_first());
            assert(b =~= seq![b[0]] + b.drop_first());
        }
    } else {
        if a.len() > 0 {
            lemma_text_order(a.drop_first(), b);
        }
        if text_order(a, b) == 0 {
            assert(a =~= b);
        }
    }
}

pub proof fn lemma_same_text_order(a: Seq<char>)
    ensures
        text_order(a, a) == 0,
{
    lemma_text_order(a, a);
}

proof fn lemma_text_order_transitive(a: Seq<char>, b: Seq<char>, c: Seq<char>)
    requires
        text_order(a, b) <= 0,
        text_order(b, c) <= 0,
    ensures
        text_order(a, c) <= 0,
        text_order(a, b) < 0 || text_order(b, c) < 0 ==> text_order(a, c) < 0,
    decreases a.len(),
{
    if a.len() > 0 && b.len() > 0 && c.len() > 0 && a[0] == b[0] && b[0] == c[0] {
        lemma_text_order_transitive(a.drop_first(), b.drop_first(), c.drop_first());
    }
}

proof fn lemma_name_order(a: NodeInfo, b: NodeInfo)
    ensures
        name_order(a, a) == 0,
        name_order(a, b) < 0 <==> name_order(b, a) > 0,
        name_order(a, b) == 0 <==> name_order(b, a) == 0,
{
    lemma_text_order(text::lowercase(a.name), text::lowercase(b.name));
    lemma_text_order(a.name, b.name);
}

proof fn lemma_name_order_transitive(a: NodeInfo, b: NodeInfo, c: NodeInfo)
    requires
        name_order(a, b) <= 0,
        name_order(b, c) <= 0,
    ensures
        name_order(a, c) <= 0,
        name_order(a, b) < 0 || name_order(b, c) < 0 ==> name_order(a, c) < 0,
{
    let (la, lb, lc) = (
        text::lowercase(a.name),
        text::lowercase(b.name),
        text::lowercase(c.name),
    );
    lemma_text_order_transitive(la, lb, lc);
    lemma_text_order(la, lb);
    lemma_text_order(lb, lc);
    if text_order(la, lb) == 0 && text_order(lb, lc) == 0 {
        lemma_text_order(la, lc);
        lemma_text_order_transitive(a.name, b.name, c.name);
    }
}

/// The order is a total one: any two nodes compare, both ways round alike, and
/// comparisons chain.
pub proof fn node_order_is_total(a: NodeInfo, b: NodeInfo, c: NodeInfo, mode: ExplorerSortMode)
    ensures
        node_order(a, a, mode) == 0,
        node_order(a, b, mode) < 0 <==> node_order(b, a, mode) > 0,
        node_order(a, b, mode) == 0 <==> node_order(b, a, mode) == 0,
        node_order(a, b, mode) <= 0 && node_order(b, c, mode) <= 0 ==> node_order(a, c, mode) <= 0,
        node_order(a, b, mode) <= 0 && node_order(b, c, mode) <= 0 && (node_order(a, b, mode) < 0
            || node_order(b, c, mode) < 0) ==> node_order(a, c, mode) < 0,
{
    lemma_name_order(a, a);
    lemma_name_order(a, b);
    lemma_text_order(extension_of(a), extension_of(a));
    lemma_text_order(extension_of(a), extension_of(b));
    lemma_text_order(extension_of(b), extension_of(c));
    lemma_text_order(extension_of(a), extension_of(c));
    if node_order(a, b, mode) <= 0 && node_order(b, c, mode) <= 0 {
        if mode == ExplorerSortMode::Type && a.is_dir == b.is_dir && b.is_dir == c.is_dir {
            lemma_text_order_transitive(extension_of(a), extension_of(b), extension_of(c));
        }
        if name_order(a, b) <= 0 && name_order(b, c) <= 0 {
            lemma_name_order_transitive(a, b, c);
        }
    }
}

/// Whether a node is to stand behind another one.
pub open spec fn stands_behind(a: NodeView, b: NodeView, mode: ExplorerSortMode) -> bool {
    node_order(a.info, b.info, mode) > 0
}

/// Sorted nodes with one more, behind all that it does not have to stand before.
pub open spec fn inserted(nodes: Seq<NodeView>, node: NodeView, mode: ExplorerSortMode) -> Seq<
    NodeView,
>
    decreases nodes.len(),
{
    if nodes.len() == 0 {
        seq![node]
    } else if stands_behind(nodes[0], node, mode) {
        seq![node] + nodes
    } else {
        seq![nodes[0]] + inserted(nodes.drop_first(), node, mode)
    }
}

/// Nodes in order; those that compare equal stay in the order they were in.
pub open spec fn sorted(nodes: Seq<NodeView>, mode: ExplorerSortMode) -> Seq<NodeView>
    decreases nodes.len(),
{
    if nodes.len() == 0 {
        Seq::empty()
    } else {
        inserted(sorted(nodes.drop_last(), mode), nodes.last(), mode)
    }
}

/// Two sequences of nodes merged, the first one's nodes first where they compare
/// equal.
spec fn merged(a: Seq<NodeView>, b: Seq<NodeView>, mode: ExplorerSortMode) -> Seq<NodeView>
    decreases a.len() + b.len(),
{
    if a.len() == 0 {
        b
    } else if b.len() == 0 {
        a
    } else if stands_behind(a[0], b[0], mode) {
        seq![b[0]] + merged(a, b.drop_first(), mode)
    } else {
        seq![a[0]] + merged(a.drop_first(), b, mode)
    }
}

proof fn lemma_inserted_len(nodes: Seq<NodeView>, node: NodeView, mode: ExplorerSortMode)
    ensures
        inserted(nodes, node, mode).len() == nodes.len() + 1,
    decreases nodes.len(),
{
    if nodes.len() > 0 && !stands_behind(nodes[0], node, mode) {
        lemma_inserted_len(nodes.drop_first(), node, mode);
    }
}

proof fn lemma_insert_into_merged(
    a: Seq<NodeView>,
    b: Seq<NodeView>,
    x: NodeView,
    mode: ExplorerSortMode,
)
    ensures
        inserted(merged(a, b, mode), x, mode) == merged(a, inserted(b, x, mode), mode),
    decreases a.len() + b.len(),
{
    let whole = merged(a, b, mode);
    let longer = inserted(b, x, mode);
    lemma_inserted_len(b, x, mode);
    if a.len() == 0 {
    } else if b.len() == 0 {
        assert(longer == seq![x]);
        if stands_behind(a[0], x, mode) {
            assert(longer.drop_first() =~= Seq::<NodeView>::empty());
            assert(merged(a, longer.drop_first(), mode) == a);
        } else {
            lemma_insert_into_merged(a.drop_first(), b, x, mode);
            assert(merged(a.drop_first(), b, mode) == a.drop_first());
        }
    } else if stands_behind(a[0], b[0], mode) {
        assert(whole.drop_first() =~= merged(a, b.drop_first(), mode));
        if stands_behind(b[0], x, mode) {
            node_order_is_total(x.info, b[0].info, a[0].info, mode);
            node_order_is_total(b[0].info, a[0].info, a[0].info, mode);
            node_order_is_total(x.info, a[0].info, a[0].info, mode);
            assert(stands_behind(a[0], x, mode));
            assert(longer.drop_first() =~= b);
        } else {
            lemma_insert_into_merged(a, b.drop_first(), x, mode);
            assert(longer.drop_first() =~= inserted(b.drop_first(), x, mode));
        }
    } else {
        assert(whole.drop_first() =~= merged(a.drop_first(), b, mode));
        if stands_behind(a[0], x, mode) {
            node_order_is_total(x.info, a[0].info, b[0].info, mode);
            node_order_is_total(a[0].info, b[0].info, b[0].info, mode);
            node_order_is_total(x.info, b[0].info, b[0].info, mode);
            assert(stands_behind(b[0], x, mode));
            assert(longer.drop_first() =~= b);
        } else {
            lemma_insert_into_merged(a.drop_first(), b, x, mode);
            assert(!stands_behind(a[0], longer[0], mode));
        }
    }
}

proof fn lemma_sorted_merge(a: Seq<NodeView>, b: Seq<NodeView>, mode: ExplorerSortMode)
    ensures
        sorted(a + b, mode) == merged(sorted(a, mode), sorted(b, mode), mode),
    decreases b.len(),
{
    if b.len() == 0 {
        assert(a + b =~= a);
        assert(merged(sorted(a, mode), sorted(b, mode), mode) =~= sorted(a, mode));
    } else {
        assert((a + b).drop_last() =~= a + b.drop_last());
        lemma_sorted_merge(a, b.drop_last(), mode);
        lemma_insert_into_merged(sorted(a, mode), sorted(b.drop_last(), mode), b.last(), mode);
    }
}

/// Whether nodes stand in order.
pub open spec fn in_order(nodes: Seq<NodeView>, mode: ExplorerSortMode) -> bool {
    forall|i: int, j: int|
        0 <= i < j < nodes.len() ==> !stands_behind(#[trigger] nodes[i], #[trigger] nodes[j], mode)
}

proof fn lemma_inserted(nodes: Seq<NodeView>, node: NodeView, mode: ExplorerSortMode)
    requires
        in_order(nodes, mode),
    ensures
        in_order(inserted(nodes, node, mode), mode),
        inserted(nodes, node, mode).to_multiset() == nodes.to_multiset().insert(node),
        forall|i: int|
            0 <= i < inserted(nodes, node, mode).len() ==> (#[trigger] inserted(
                nodes,
                node,
                mode,
            )[i]) == node || nodes.contains(inserted(nodes, node, mode)[i]),
    decreases nodes.len(),
{
    broadcast use vstd::seq_lib::group_to_multiset_ensures;

    let out = inserted(nodes, node, mode);
    if nodes.len() == 0 {
        assert(out =~= Seq::<NodeView>::empty().push(node));
    } else if stands_behind(nodes[0], node, mode) {
        assert(out =~= nodes.insert(0, node));
        assert forall|i: int, j: int| 0 <= i < j < out.len() implies !stands_behind(
            #[trigger] out[i],
            #[trigger] out[j],
            mode,
        ) by {
            assert(out[j] == nodes[j - 1]);
            if i == 0 {
                if j > 1 {
                    assert(!stands_behind(nodes[0], nodes[j - 1], mode));
                    node_order_is_total(node.info, nodes[0].info, nodes[j - 1].info, mode);
                    node_order_is_total(nodes[0].info, nodes[j - 1].info, node.info, mode);
                } else {
                    node_order_is_total(node.info, nodes[0].info, node.info, mode);
                }
            } else {
                assert(out[i] == nodes[i - 1]);
            }
        }
        vstd::seq_lib::to_multiset_insert(nodes, 0, node);
    } else {
        let rest = nodes.drop_first();
        let tail = inserted(rest, node, mode);
        assert forall|i: int, j: int| 0 <= i < j < rest.len() implies !stands_behind(
            #[trigger] rest[i],
            #[trigger] rest[j],
            mode,
        ) by {
            assert(rest[i] == nodes[i + 1] && rest[j] == nodes[j + 1]);
        }
        lemma_inserted(rest, node, mode);
        assert forall|i: int, j: int| 0 <= i < j < out.len() implies !stands_behind(
            #[trigger] out[i],
            #[trigger] out[j],
            mode,
        ) by {
            assert(out[j] == tail[j - 1]);
            if i > 0 {
                assert(out[i] == tail[i - 1]);
            } else if tail[j - 1] != node {
                assert(rest.contains(tail[j - 1]));
                let k = choose|k: int| 0 <= k < rest.len() && rest[k] == tail[j - 1];
                assert(nodes[k + 1] == rest[k]);
            }
        }
        assert(nodes =~= seq![nodes[0]] + rest);
        assert(out =~= seq![nodes[0]] + tail);
        vstd::seq_lib::lemma_multiset_commutative(seq![nodes[0]], rest);
        vstd::seq_lib::lemma_multiset_commutative(seq![nodes[0]], tail);
        assert(out.to_multiset() =~= nodes.to_multiset().insert(node));
        assert forall|i: int| 0 <= i < out.len() implies (#[trigger] out[i]) == node
            || nodes.contains(out[i]) by {
            if i > 0 {
                assert(out[i] == tail[i - 1]);
                if tail[i - 1] != node {
                    let k = choose|k: int| 0 <= k < rest.len() && rest[k] == tail[i - 1];
                    assert(nodes[k + 1] == rest[k]);
                }
            } else {
                assert(nodes.contains(nodes[0]));
            }
        }
    }
}

/// Sorting puts nodes in order and neither adds nor drops any.
pub proof fn sorting_orders_and_keeps(nodes: Seq<NodeView>, mode: ExplorerSortMode)
    ensures
        in_order(sorted(nodes, mode), mode),
        sorted(nodes, mode).to_multiset() == nodes.to_multiset(),
        sorted(nodes, mode).len() == nodes.len(),
    decreases nodes.len(),
{
    broadcast use vstd::seq_lib::group_to_multiset_ensures;

    if nodes.len() > 0 {
        sorting_orders_and_keeps(nodes.drop_last(), mode);
        lemma_inserted(sorted(nodes.drop_last(), mode), nodes.last(), mode);
        lemma_inserted_len(sorted(nodes.drop_last(), mode), nodes.last(), mode);
        assert(nodes =~= nodes.drop_last().push(nodes.last()));
    }
}

proof fn lemma_inserted_last(nodes: Seq<NodeView>, node: NodeView, mode: ExplorerSortMode)
    requires
        forall|i: int| 0 <= i < nodes.len() ==> !stands_behind(#[trigger] nodes[i], node, mode),
    ensures
        inserted(nodes, node, mode) == nodes.push(node),
    decreases nodes.len(),
{
    if nodes.len() > 0 {
        let rest = nodes.drop_first();
        assert forall|i: int| 0 <= i < rest.len() implies !stands_behind(
            #[trigger] rest[i],
            node,
            mode,
        ) by {
            assert(rest[i] == nodes[i + 1]);
        }
        lemma_inserted_last(rest, node, mode);
        assert(seq![nodes[0]] + rest.push(node) =~= nodes.push(node));
    } else {
        assert(seq![node] =~= nodes.push(node));
    }
}

/// Nodes in order stay as they are when they are sorted: sorting twice is
/// sorting once, and nodes that compare equal never change places.
pub proof fn sorting_keeps_order(nodes: Seq<NodeView>, mode: ExplorerSortMode)
    requires
        in_order(nodes, mode),
    ensures
        sorted(nodes, mode) == nodes,
    decreases nodes.len(),
{
    if nodes.len() > 0 {
        let head = nodes.drop_last();
        assert forall|i: int, j: int| 0 <= i < j < head.len() implies !stands_behind(
            #[trigger] head[i],
            #[trigger] head[j],
            mode,
        ) by {
            assert(head[i] == nodes[i] && head[j] == nodes[j]);
        }
        sorting_keeps_order(head, mode);
        assert forall|i: int| 0 <= i < head.len() implies !stands_behind(
            #[trigger] head[i],
            nodes.last(),
            mode,
        ) by {
            assert(head[i] == nodes[i]);
        }
        lemma_inserted_last(head, nodes.last(), mode);
        assert(head.push(nodes.last()) =~= nodes);
    } else {
        assert(nodes =~= Seq::<NodeView>::empty());
    }
}

/// The outcome of a comparison by its sign.
pub open spec fn ordering(n: int) -> Ordering {
    if n < 0 {
        Ordering::Less
    } else if n > 0 {
        Ordering::Greater
    } else {
        Ordering::Equal
    }
}

/// The sign of a comparison of two texts.
fn text_sign(a: &str, b: &str) -> (sign: i8)
    ensures
        sign < 0 <==> text_order(a@, b@) < 0,
        sign > 0 <==> text_order(a@, b@) > 0,
{
    let left = text::chars_of(a);
    let right = text::chars_of(b);
    let mut i: usize = 0;
    proof {
        assert(a@.skip(0) =~= a@);
        assert(b@.skip(0) =~= b@);
    }
    while i < left.len() && i < right.len()
        invariant
            left@ == a@,
            right@ == b@,
            i <= left@.len(),
            i <= right@.len(),
            text_order(a@, b@) == text_order(a@.skip(i as int), b@.skip(i as int)),
        decreases left@.len() - i,
    {
        if left[i] < right[i] {
            return -1;
        }
        if left[i] > right[i] {
            return 1;
        }
        proof {
            assert(a@.skip(i as int).drop_first() =~= a@.skip(i + 1));
            assert(b@.skip(i as int).drop_first() =~= b@.skip(i + 1));
        }
        i = i + 1;
    }
    if i < right.len() {
        -1
    } else if i < left.len() {
        1
    } else {
        0
    }
}

fn compare_texts(a: &str, b: &str) -> (order: Ordering)
    ensures
        order == ordering(text_order(a@, b@)),
{
    let sign = text_sign(a, b);
    if sign < 0 {
        Ordering::Less
    } else if sign > 0 {
        Ordering::Greater
    } else {
        Ordering::Equal
    }
}

fn compare_names(a: &FsNode, b: &FsNode) -> (order: Ordering)
    ensures
        order == ordering(name_order(a.info(), b.info())),
{
    let lower_a = text::to_lowercase(&a.name);
    let lower_b = text::to_lowercase(&b.name);
    match compare_texts(&lower_a, &lower_b) {
        Ordering::Equal => compare_texts(&a.name, &b.name),
        order => order,
    }
}

fn node_extension(node: &FsNode) -> (extension: String)
    ensures
        extension@ == extension_of(node.info()),
{
    broadcast use vstd::utf8::group_utf8_lib;

    let extension = match node.path.extension() {
        Some(bytes) => match text::utf8_text(bytes) {
            Some(text) => text,
            None => String::new(),
        },
        None => String::new(),
    };
    text::to_lowercase(&extension)
}

fn compare_types(a: &FsNode, b: &FsNode) -> (order: Ordering)
    ensures
        order == ordering(
            or_else(
                text_order(extension_of(a.info()), extension_of(b.info())),
                name_order(a.info(), b.info()),
            ),
        ),
{
    match compare_texts(&node_extension(a), &node_extension(b)) {
        Ordering::Equal => compare_names(a, b),
        order => order,
    }
}

fn compare_modified(a: &FsNode, b: &FsNode) -> (order: Ordering)
    ensures
        order == ordering(
            or_else(
                modified_at(b.info()) - modified_at(a.info()),
                name_order(a.info(), b.info()),
            ),
        ),
{
    let time_a: i128 = match a.modified {
        Some(time) => time,
        None => 0,
    };
    let time_b: i128 = match b.modified {
        Some(time) => time,
        None => 0,
    };
    if time_b < time_a {
        Ordering::Less
    } else if time_b > time_a {
        Ordering::Greater
    } else {
        compare_names(a, b)
    }
}

fn compare_sizes(a: &FsNode, b: &FsNode) -> (order: Ordering)
    ensures
        order == ordering(
            or_else(size_of(b.info()) - size_of(a.info()), name_order(a.info(), b.info())),
        ),
{
    let size_a: u64 = match a.size {
        Some(size) => size,
        None => 0,
    };
    let size_b: u64 = match b.size {
        Some(size) => size,
        None => 0,
    };
    if size_b < size_a {
        Ordering::Less
    } else if size_b > size_a {
        Ordering::Greater
    } else {
        compare_names(a, b)
    }
}

/// How two nodes compare.
pub fn compare_nodes(a: &FsNode, b: &FsNode, sort_mode: ExplorerSortMode) -> (order: Ordering)
    ensures
        order == ordering(node_order(a.info(), b.info(), sort_mode)),
{
    if a.is_dir && !b.is_dir {
        return Ordering::Less;
    }
    if !a.is_dir && b.is_dir {
        return Ordering::Greater;
    }
    match sort_mode {
        ExplorerSortMode::Name => compare_names(a, b),
        ExplorerSortMode::Type => compare_types(a, b),
        ExplorerSortMode::Modified => compare_modified(a, b),
        ExplorerSortMode::Size => compare_sizes(a, b),
    }
}

fn reversed(nodes: Vec<FsNode>) -> (out: Vec<FsNode>)
    ensures
        out@ == nodes@.reverse(),
{
    let mut nodes = nodes;
    let mut out: Vec<FsNode> = Vec::new();
    let ghost all = nodes@;
    while nodes.len() > 0
        invariant
            nodes@.len() <= all.len(),
            nodes@ == all.take(nodes@.len() as int),
            out@ == all.skip(nodes@.len() as int).reverse(),
        decreases nodes@.len(),
    {
        if let Some(node) = nodes.pop() {
            out.push(node);
        }
        proof {
            assert(out@ =~= all.skip(nodes@.len() as int).reverse());
        }
    }
    proof {
        assert(all.skip(0) =~= all);
    }
    out
}

fn merge(a: Vec<FsNode>, b: Vec<FsNode>, mode: ExplorerSortMode) -> (out: Vec<FsNode>)
    ensures
        node::nodes_view(out@) == merged(node::nodes_view(a@), node::nodes_view(b@), mode),
{
    let ghost all = merged(node::nodes_view(a@), node::nodes_view(b@), mode);
    let ghost start_a = a@;
    let ghost start_b = b@;
    let mut a = reversed(a);
    let mut b = reversed(b);
    let mut out: Vec<FsNode> = Vec::new();
    proof {
        assert(a@.reverse() =~= start_a);
        assert(b@.reverse() =~= start_b);
        assert(node::nodes_view(out@) + merged(front(a@), front(b@), mode) =~= all);
    }
    while a.len() > 0 && b.len() > 0
        invariant
            node::nodes_view(out@) + merged(front(a@), front(b@), mode) == all,
        decreases a@.len() + b@.len(),
    {
        let ghost before = out@;
        let ghost fa = front(a@);
        let ghost fb = front(b@);
        let ghost last_a = a@.last();
        let ghost last_b = b@.last();
        proof {
            assert(fa[0] == last_a@);
            assert(fb[0] == last_b@);
            node::lemma_node_view(last_a);
            node::lemma_node_view(last_b);
        }
        let behind = match compare_nodes(&a[a.len() - 1], &b[b.len() - 1], mode) {
            Ordering::Greater => true,
            _ => false,
        };
        if behind {
            if let Some(node) = b.pop() {
                out.push(node);
            }
            proof {
                assert(front(b@) =~= fb.drop_first());
                assert(node::nodes_view(out@) =~= node::nodes_view(before) + seq![last_b@]);
                let rest = merged(fa, fb.drop_first(), mode);
                assert(node::nodes_view(before) + (seq![fb[0]] + rest) =~= node::nodes_view(out@)
                    + rest);
            }
        } else {
            if let Some(node) = a.pop() {
                out.push(node);
            }
            proof {
                assert(front(a@) =~= fa.drop_first());
                assert(node::nodes_view(out@) =~= node::nodes_view(before) + seq![last_a@]);
                let rest = merged(fa.drop_first(), fb, mode);
                assert(node::nodes_view(before) + (seq![fa[0]] + rest) =~= node::nodes_view(out@)
                    + rest);
            }
        }
    }
    let mut rest = if a.len() > 0 {
        reversed(a)
    } else {
        reversed(b)
    };
    proof {
        assert(node::nodes_view(rest@) =~= merged(front(a@), front(b@), mode));
    }
    let ghost before = out@;
    let ghost tail = rest@;
    out.append(&mut rest);
    proof {
        assert(node::nodes_view(out@) =~= node::nodes_view(before) + node::nodes_view(tail));
    }
    out
}

/// The nodes of a list that is held back to front.
spec fn front(nodes: Seq<FsNode>) -> Seq<NodeView> {
    node::nodes_view(nodes.reverse())
}

/// Sorts nodes; those that compare equal stay in the order they were in.
pub fn sort_nodes(nodes: Vec<FsNode>, mode: ExplorerSortMode) -> (out: Vec<FsNode>)
    ensures
        node::nodes_view(out@) == sorted(node::nodes_view(nodes@), mode),
    decreases nodes.len(),
{
    let mut left = nodes;
    let ghost all = left@;
    if left.len() == 0 {
        proof {
            assert(node::nodes_view(left@) =~= Seq::<NodeView>::empty());
        }
        return left;
    }
    if left.len() == 1 {
        proof {
            let view = node::nodes_view(left@);
            assert(view.drop_last() =~= Seq::<NodeView>::empty());
            assert(sorted(view.drop_last(), mode) =~= Seq::<NodeView>::empty());
            assert(view =~= seq![view[0]]);
        }
        return left;
    }
    let mid = left.len() / 2;
    let right = left.split_off(mid);
    proof {
        assert(node::nodes_view(all) =~= node::nodes_view(left@) + node::nodes_view(right@));
        lemma_sorted_merge(node::nodes_view(left@), node::nodes_view(right@), mode);
    }
    let left = sort_nodes(left, mode);
    let right = sort_nodes(right, mode);
    merge(left, right, mode)
}

/// The orders follow each other from the name over the type and the time to the size, and
/// are told by these words.
pub proof fn sort_modes_are_told_by_their_words()
    ensures
        ExplorerSortMode::Name.following() is Type,
        ExplorerSortMode::Type.following() is Modified,
        ExplorerSortMode::Modified.following() is Size,
        ExplorerSortMode::Size.following() is Name,
        ExplorerSortMode::Name.label_text() == seq!['n', 'a', 'm', 'e'],
        ExplorerSortMode::Type.label_text() == seq!['t', 'y', 'p', 'e'],
        ExplorerSortMode::Modified.label_text() == seq!['m', 'o', 'd', 'i', 'f', 'i', 'e', 'd'],
        ExplorerSortMode::Size.label_text() == seq!['s', 'i', 'z', 'e'],
{
    reveal_strlit("name");
    reveal_strlit("type");
    reveal_strlit("modified");
    reveal_strlit("size");
}

} // verus!
