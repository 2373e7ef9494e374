//! Loading directories into the tree.

use vstd::prelude::*;

use crate::fs_tree::node;
use crate::fs_tree::node::FsNode;
use crate::fs_tree::node::NodeInfo;
use crate::fs_tree::node::NodeView;
use crate::fs_tree::order;
use crate::fs_tree::order::ExplorerSortMode;
use crate::path::FsPath;
use crate::path::PartView;

verus! {

/// An entry of a directory, as the file system reports it.
#[derive(Debug, Clone, PartialEq, Eq)]
pub struct DirEntry {
    /// The name of the file, byte for byte.
    pub file_name: Vec<u8>,
    /// The name of the file as text, in which what is not text is replaced.
    pub name: String,
    pub is_dir: bool,
    /// The length of the file, where it is known.
    pub len: Option<u64>,
    /// Nanoseconds since the beginning of 1970.
    pub modified: Option<i128>,
    pub readonly: bool,
}

/// What is known of a directory: its entries, or that it could not be read.
#[derive(Debug, Clone, PartialEq, Eq)]
pub struct DirListing {
    pub path: FsPath,
    pub entries: Option<Vec<DirEntry>>,
}

/// Why the tree cannot be brought up to date.
#[derive(Debug, Clone, PartialEq, Eq)]
pub enum TreeError {
    /// Nothing is known of a directory.
    NotListed(FsPath),
    /// A directory could not be read.
    Unreadable(FsPath),
}

pub struct EntryView {
    pub file_name: Seq<u8>,
    pub name: Seq<char>,
    pub is_dir: bool,
    pub len: Option<u64>,
    pub modified: Option<i128>,
    pub readonly: bool,
}

pub struct ListingView {
    pub path: Seq<PartView>,
    pub entries: Option<Seq<EntryView>>,
}

pub enum ErrorView {
    NotListed(Seq<PartView>),
    Unreadable(Seq<PartView>),
}

impl View for DirEntry {
    type V = EntryView;

    open spec fn view(&self) -> EntryView {
        EntryView {
            file_name: self.file_name@,
            name: self.name@,
            is_dir: self.is_dir,
            len: self.len,
            modified: self.modified,
            readonly: self.readonly,
        }
    }
}

pub open spec fn entries_view(entries: Seq<DirEntry>) -> Seq<EntryView> {
    Seq::new(entries.len(), |i: int| entries[i]@)
}

impl View for DirListing {
    type V = ListingView;

    open spec fn view(&self) -> ListingView {
        ListingView {
            path: self.path@,
            entries: match self.entries {
                Some(entries) => Some(entries_view(entries@)),
                None => None,
            },
        }
    }
}

pub open spec fn listings_view(listings: Seq<DirListing>) -> Seq<ListingView> {
    Seq::new(listings.len(), |i: int| listings[i]@)
}

impl View for TreeError {
    type V = ErrorView;

    open spec fn view(&self) -> ErrorView {
        match self {
            TreeError::NotListed(path) => ErrorView::NotListed(path@),
            TreeError::Unreadable(path) => ErrorView::Unreadable(path@),
        }
    }
}

/// The value of an outcome.
pub open spec fn outcome_view(outcome: Result<(), TreeError>) -> Result<(), ErrorView> {
    match outcome {
        Ok(()) => Ok(()),
        Err(error) => Err(error@),
    }
}

/// The node of an entry of a directory.
pub open spec fn entry_node(directory: Seq<PartView>, entry: EntryView) -> NodeView {
    NodeView {
        info: NodeInfo {
            path: directory.push(PartView::Normal(entry.file_name)),
            name: entry.name,
            is_dir: entry.is_dir,
            size: if entry.is_dir {
                None
            } else {
                Some(
                    match entry.len {
                        Some(len) => len,
                        None => 0u64,
                    },
                )
            },
            modified: entry.modified,
            readonly: entry.readonly,
        },
        expanded: false,
        children: None,
    }
}

pub open spec fn entry_nodes(directory: Seq<PartView>, entries: Seq<EntryView>) -> Seq<NodeView> {
    Seq::new(entries.len(), |i: int| entry_node(directory, entries[i]))
}

/// What is known of the directory at a path: by the first listing of it.
pub open spec fn known(listings: Seq<ListingView>, path: Seq<PartView>) -> Option<
    Option<Seq<EntryView>>,
>
    decreases listings.len(),
{
    if listings.len() == 0 {
        None
    } else if listings[0].path == path {
        Some(listings[0].entries)
    } else {
        known(listings.drop_first(), path)
    }
}

/// A directory with its children loaded and sorted.
pub open spec fn loaded(node: NodeView, listings: Seq<ListingView>, mode: ExplorerSortMode) -> Result<
    NodeView,
    ErrorView,
> {
    match known(listings, node.info.path) {
        None => Err(ErrorView::NotListed(node.info.path)),
        Some(None) => Err(ErrorView::Unreadable(node.info.path)),
        Some(Some(entries)) => Ok(
            NodeView {
                children: Some(order::sorted(entry_nodes(node.info.path, entries), mode)),
                ..node
            },
        ),
    }
}

fn node_of_entry(directory: &FsPath, entry: &DirEntry) -> (out: FsNode)
    ensures
        out@ == entry_node(directory@, entry@),
{
    let mut file_name: Vec<u8> = Vec::new();
    file_name.extend_from_slice(entry.file_name.as_slice());
    proof {
        assert(file_name@ =~= entry.file_name@);
    }
    let size: Option<u64> = if entry.is_dir {
        None
    } else {
        match entry.len {
            Some(len) => Some(len),
            None => Some(0),
        }
    };
    FsNode {
        path: directory.join(file_name),
        name: entry.name.clone(),
        is_dir: entry.is_dir,
        expanded: false,
        size,
        modified: entry.modified,
        readonly: entry.readonly,
        children: None,
    }
}

/// Loads the children of a directory.
pub fn load_children(node: &mut FsNode, listings: &Vec<DirListing>, sort_mode: ExplorerSortMode) -> (outcome:
    Result<(), TreeError>)
    ensures
        match loaded(old(node)@, listings_view(listings@), sort_mode) {
            Ok(after) => outcome is Ok && final(node)@ == after,
            Err(error) => outcome_view(outcome) == Err::<(), ErrorView>(error) && final(node)@
                == old(node)@,
        },
{
    proof {
        node::lemma_node_view(*node);
        assert(listings_view(listings@).skip(0) =~= listings_view(listings@));
    }
    let mut i: usize = 0;
    let ghost start = node@;
    let ghost before = *node;
    while i < listings.len()
        invariant
            i <= listings@.len(),
            *node == before,
            start == before@,
            start == old(node)@,
            start.info.path == before.path@,
            known(listings_view(listings@), start.info.path) == known(
                listings_view(listings@).skip(i as int),
                start.info.path,
            ),
        decreases listings@.len() - i,
    {
        proof {
            let rest = listings_view(listings@).skip(i as int);
            assert(rest[0] == listings@[i as int]@);
            assert(rest.drop_first() =~= listings_view(listings@).skip(i + 1));
        }
        if listings[i].path.same(&node.path) {
            match &listings[i].entries {
                Some(entries) => {
                    let mut children: Vec<FsNode> = Vec::new();
                    for j in 0..entries.len()
                        invariant
                            *node == before,
                            start.info.path == before.path@,
                            children@.len() == j,
                            forall|k: int|
                                0 <= k < j ==> (#[trigger] children@[k])@ == entry_node(
                                    start.info.path,
                                    entries@[k]@,
                                ),
                    {
                        children.push(node_of_entry(&node.path, &entries[j]));
                    }
                    proof {
                        assert(node::nodes_view(children@) =~= entry_nodes(
                            start.info.path,
                            entries_view(entries@),
                        ));
                    }
                    node.children = Some(order::sort_nodes(children, sort_mode));
                    proof {
                        node::lemma_node_view(*node);
                    }
                    return Ok(());
                },
                None => {
                    return Err(TreeError::Unreadable(node.path.copy()));
                },
            }
        }
        i = i + 1;
    }
    Err(TreeError::NotListed(node.path.copy()))
}

/// Whether a path is one of several.
pub fn contains_path(paths: &Vec<FsPath>, path: &FsPath) -> (yes: bool)
    ensures
        yes == paths_view(paths@).contains(path@),
{
    for i in 0..paths.len()
        invariant
            forall|j: int| 0 <= j < i ==> paths@[j]@ != path@,
    {
        if paths[i].same(path) {
            proof {
                assert(paths_view(paths@)[i as int] == path@);
            }
            return true;
        }
    }
    proof {
        assert forall|j: int| 0 <= j < paths_view(paths@).len() implies paths_view(paths@)[j]
            != path@ by {
            assert(paths@[j]@ != path@);
        }
    }
    false
}

pub open spec fn paths_view(paths: Seq<FsPath>) -> Seq<Seq<PartView>> {
    Seq::new(paths.len(), |i: int| paths[i]@)
}

/// The length of the longest of several paths.
pub open spec fn longest(paths: Seq<Seq<PartView>>) -> nat
    decreases paths.len(),
{
    if paths.len() == 0 {
        0
    } else {
        let before = longest(paths.drop_last());
        if paths.last().len() > before {
            paths.last().len()
        } else {
            before
        }
    }
}

pub proof fn lemma_longest(paths: Seq<Seq<PartView>>, path: Seq<PartView>)
    requires
        paths.contains(path),
    ensures
        path.len() <= longest(paths),
    decreases paths.len(),
{
    let i = choose|i: int| 0 <= i < paths.len() && paths[i] == path;
    if i < paths.len() - 1 {
        assert(paths.drop_last()[i] == path);
        lemma_longest(paths.drop_last(), path);
    }
}

/// A directory loaded anew, and with it those below it that were expanded, as
/// far as the listings go.
pub open spec fn reloaded(
    node: NodeView,
    expanded: Seq<Seq<PartView>>,
    listings: Seq<ListingView>,
    mode: ExplorerSortMode,
) -> (NodeView, Result<(), ErrorView>)
    decreases longest(expanded) + 1 - node.info.path.len(), 0nat,
{
    if !node.info.is_dir {
        (node, Ok(()))
    } else {
        match loaded(node, listings, mode) {
            Err(error) => (node, Err(error)),
            Ok(fresh) => {
                let is_open = expanded.contains(node.info.path);
                let shown = NodeView { expanded: is_open, ..fresh };
                if is_open {
                    proof {
                        lemma_longest(expanded, node.info.path);
                    }
                    let (children, outcome) = reloaded_all(
                        fresh.children->0,
                        node.info.path.len(),
                        expanded,
                        listings,
                        mode,
                    );
                    (NodeView { children: Some(children), ..shown }, outcome)
                } else {
                    (shown, Ok(()))
                }
            },
        }
    }
}

/// The children of a directory whose path has `depth` components, those that
/// were expanded loaded anew.
pub open spec fn reloaded_all(
    nodes: Seq<NodeView>,
    depth: nat,
    expanded: Seq<Seq<PartView>>,
    listings: Seq<ListingView>,
    mode: ExplorerSortMode,
) -> (Seq<NodeView>, Result<(), ErrorView>)
    decreases longest(expanded) - depth, 1 + nodes.len(),
{
    if nodes.len() == 0 {
        (nodes, Ok(()))
    } else {
        let first = nodes[0];
        if first.info.is_dir && expanded.contains(first.info.path) && first.info.path.len()
            > depth {
            proof {
                lemma_longest(expanded, first.info.path);
            }
            let (fresh, outcome) = reloaded(first, expanded, listings, mode);
            match outcome {
                Ok(()) => {
                    let (rest, outcome) = reloaded_all(
                        nodes.drop_first(),
                        depth,
                        expanded,
                        listings,
                        mode,
                    );
                    (seq![fresh] + rest, outcome)
                },
                Err(error) => (seq![fresh] + nodes.drop_first(), Err(error)),
            }
        } else {
            let (rest, outcome) = reloaded_all(nodes.drop_first(), depth, expanded, listings, mode);
            (seq![first] + rest, outcome)
        }
    }
}

/// What came of the way to a path.
pub enum Reach {
    Found,
    NotFound,
    Failed(ErrorView),
}

/// A node with the directories on the way to a path loaded and expanded.
pub open spec fn opened(
    node: NodeView,
    path: Seq<PartView>,
    listings: Seq<ListingView>,
    mode: ExplorerSortMode,
) -> (NodeView, Reach)
    decreases path.len() - node.info.path.len(), 0nat,
{
    if node.info.path == path {
        (node, Reach::Found)
    } else if !node.info.is_dir || !node.info.path.is_prefix_of(path) {
        (node, Reach::NotFound)
    } else {
        let ready = match node.children {
            Some(_) => Ok(node),
            None => loaded(node, listings, mode),
        };
        match ready {
            Err(error) => (node, Reach::Failed(error)),
            Ok(ready) => {
                proof {
                    if node.info.path.len() == path.len() {
                        assert(path.subrange(0, path.len() as int) =~= path);
                    }
                }
                let (children, reach) = opened_all(
                    ready.children->0,
                    node.info.path.len(),
                    path,
                    listings,
                    mode,
                );
                (NodeView { expanded: true, children: Some(children), ..ready }, reach)
            },
        }
    }
}

/// The children of a directory whose path has `depth` components, the first of
/// them on the way to a path opened.
pub open spec fn opened_all(
    nodes: Seq<NodeView>,
    depth: nat,
    path: Seq<PartView>,
    listings: Seq<ListingView>,
    mode: ExplorerSortMode,
) -> (Seq<NodeView>, Reach)
    decreases path.len() - depth - 1, 1 + nodes.len(),
{
    if nodes.len() == 0 {
        (nodes, Reach::NotFound)
    } else {
        let first = nodes[0];
        let (after, reach) = if depth < first.info.path.len() <= path.len() {
            opened(first, path, listings, mode)
        } else {
            (first, Reach::NotFound)
        };
        match reach {
            Reach::NotFound => {
                let (rest, reach) = opened_all(nodes.drop_first(), depth, path, listings, mode);
                (seq![after] + rest, reach)
            },
            _ => (seq![after] + nodes.drop_first(), reach),
        }
    }
}

/// Whether every child in the tree below a node has the path of its parent with
/// one more component, and no directory is expanded without its children; where
/// `apart` is set, also whether no two children of a directory have one path.
pub open spec fn well_formed(node: NodeView, apart: bool) -> bool
    decreases node,
{
    match node.children {
        Some(children) => {
            &&& forall|i: int|
                0 <= i < children.len() ==> is_child_path(
                    node.info.path,
                    (#[trigger] children[i]).info.path,
                ) && well_formed(children[i], apart)
            &&& apart ==> distinct(children)
        },
        None => !node.info.is_dir || !node.expanded,
    }
}

pub open spec fn is_child_path(parent: Seq<PartView>, child: Seq<PartView>) -> bool {
    child.len() == parent.len() + 1 && child.drop_last() == parent
}

/// Whether no two nodes have one path.
pub open spec fn distinct(nodes: Seq<NodeView>) -> bool {
    forall|i: int, j: int|
        0 <= i < j < nodes.len() ==> (#[trigger] nodes[i]).info.path != (
        #[trigger] nodes[j]).info.path
}

/// Whether no node has a path.
pub open spec fn absent(nodes: Seq<NodeView>, path: Seq<PartView>) -> bool {
    forall|i: int| 0 <= i < nodes.len() ==> (#[trigger] nodes[i]).info.path != path
}

/// Whether no listing holds two entries with one name.
pub open spec fn distinct_names(listings: Seq<ListingView>) -> bool {
    forall|k: int| 0 <= k < listings.len() ==> distinct_entries(#[trigger] listings[k])
}

pub open spec fn distinct_entries(listing: ListingView) -> bool {
    listing.entries matches Some(entries) ==> forall|i: int, j: int|
        0 <= i < j < entries.len() ==> (#[trigger] entries[i]).file_name != (
        #[trigger] entries[j]).file_name
}

/// `well_formed` of all children of a directory.
pub open spec fn all_formed(parent: Seq<PartView>, nodes: Seq<NodeView>, apart: bool) -> bool {
    &&& forall|i: int|
        0 <= i < nodes.len() ==> is_child_path(parent, (#[trigger] nodes[i]).info.path)
            && well_formed(nodes[i], apart)
    &&& apart ==> distinct(nodes)
}

/// A tree without two children of one path is well formed.
pub proof fn lemma_apart_is_formed(node: NodeView)
    requires
        well_formed(node, true),
    ensures
        well_formed(node, false),
    decreases node,
{
    if let Some(children) = node.children {
        assert forall|i: int| 0 <= i < children.len() implies is_child_path(
            node.info.path,
            (#[trigger] children[i]).info.path,
        ) && well_formed(children[i], false) by {
            lemma_apart_is_formed(children[i]);
        }
    }
}

/// All but the first child, and all but the last.
pub proof fn lemma_some_formed(parent: Seq<PartView>, nodes: Seq<NodeView>, apart: bool)
    requires
        all_formed(parent, nodes, apart),
        nodes.len() > 0,
    ensures
        all_formed(parent, nodes.drop_first(), apart),
        all_formed(parent, nodes.drop_last(), apart),
        is_child_path(parent, nodes[0].info.path),
        well_formed(nodes[0], apart),
        is_child_path(parent, nodes.last().info.path),
        well_formed(nodes.last(), apart),
        apart ==> absent(nodes.drop_first(), nodes[0].info.path),
        apart ==> absent(nodes.drop_last(), nodes.last().info.path),
{
    let rest = nodes.drop_first();
    assert forall|i: int| 0 <= i < rest.len() implies is_child_path(
        parent,
        (#[trigger] rest[i]).info.path,
    ) && well_formed(rest[i], apart) && (apart ==> rest[i].info.path != nodes[0].info.path) by {
        assert(rest[i] == nodes[i + 1]);
    }
    assert forall|i: int, j: int| apart && 0 <= i < j < rest.len() implies (
    #[trigger] rest[i]).info.path != (#[trigger] rest[j]).info.path by {
        assert(rest[i] == nodes[i + 1] && rest[j] == nodes[j + 1]);
    }
}

/// Children with the paths of others.
pub proof fn lemma_same_paths_formed(
    parent: Seq<PartView>,
    nodes: Seq<NodeView>,
    after: Seq<NodeView>,
    apart: bool,
)
    requires
        all_formed(parent, nodes, apart),
        nodes.len() == after.len(),
        forall|i: int|
            0 <= i < after.len() ==> (#[trigger] after[i]).info == nodes[i].info && well_formed(
                after[i],
                apart,
            ),
    ensures
        all_formed(parent, after, apart),
{
    assert forall|i: int, j: int| apart && 0 <= i < j < after.len() implies (
    #[trigger] after[i]).info.path != (#[trigger] after[j]).info.path by {
        assert(nodes[i].info.path != nodes[j].info.path);
    }
}

proof fn lemma_inserted_formed(
    parent: Seq<PartView>,
    nodes: Seq<NodeView>,
    node: NodeView,
    mode: ExplorerSortMode,
    apart: bool,
)
    requires
        all_formed(parent, nodes, apart),
        is_child_path(parent, node.info.path),
        well_formed(node, apart),
        apart ==> absent(nodes, node.info.path),
    ensures
        all_formed(parent, order::inserted(nodes, node, mode), apart),
        forall|path: Seq<PartView>|
            absent(nodes, path) && node.info.path != path ==> #[trigger] absent(
                order::inserted(nodes, node, mode),
                path,
            ),
    decreases nodes.len(),
{
    let out = order::inserted(nodes, node, mode);
    if nodes.len() > 0 && !order::stands_behind(nodes[0], node, mode) {
        let rest = nodes.drop_first();
        lemma_some_formed(parent, nodes, apart);
        assert(apart ==> absent(rest, node.info.path)) by {
            assert forall|i: int| apart && 0 <= i < rest.len() implies (
            #[trigger] rest[i]).info.path != node.info.path by {
                assert(rest[i] == nodes[i + 1]);
            }
        }
        lemma_inserted_formed(parent, rest, node, mode, apart);
        let tail = order::inserted(rest, node, mode);
        assert(out == seq![nodes[0]] + tail);
        assert(apart ==> absent(tail, nodes[0].info.path));
        assert forall|i: int| 0 <= i < out.len() implies is_child_path(
            parent,
            (#[trigger] out[i]).info.path,
        ) && well_formed(out[i], apart) by {
            if i > 0 {
                assert(out[i] == tail[i - 1]);
            }
        }
        assert forall|i: int, j: int| apart && 0 <= i < j < out.len() implies (
        #[trigger] out[i]).info.path != (#[trigger] out[j]).info.path by {
            assert(out[j] == tail[j - 1]);
            if i > 0 {
                assert(out[i] == tail[i - 1]);
            }
        }
        assert forall|path: Seq<PartView>| absent(nodes, path) && node.info.path
            != path implies #[trigger] absent(out, path) by {
            assert forall|i: int| 0 <= i < rest.len() implies (#[trigger] rest[i]).info.path
                != path by {
                assert(rest[i] == nodes[i + 1]);
            }
            assert(absent(tail, path));
            assert forall|i: int| 0 <= i < out.len() implies (#[trigger] out[i]).info.path
                != path by {
                if i > 0 {
                    assert(out[i] == tail[i - 1]);
                } else {
                    assert(out[0] == nodes[0]);
                }
            }
        }
    } else {
        assert(out =~= seq![node] + nodes);
        assert forall|i: int| 0 <= i < out.len() implies is_child_path(
            parent,
            (#[trigger] out[i]).info.path,
        ) && well_formed(out[i], apart) by {
            if i > 0 {
                assert(out[i] == nodes[i - 1]);
            }
        }
        assert forall|i: int, j: int| apart && 0 <= i < j < out.len() implies (
        #[trigger] out[i]).info.path != (#[trigger] out[j]).info.path by {
            assert(out[j] == nodes[j - 1]);
            if i > 0 {
                assert(out[i] == nodes[i - 1]);
            }
        }
        assert forall|path: Seq<PartView>| absent(nodes, path) && node.info.path
            != path implies #[trigger] absent(out, path) by {
            assert forall|i: int| 0 <= i < out.len() implies (#[trigger] out[i]).info.path
                != path by {
                if i > 0 {
                    assert(out[i] == nodes[i - 1]);
                }
            }
        }
    }
}

/// Sorting leaves children in their places.
pub proof fn lemma_sorted_formed(
    parent: Seq<PartView>,
    nodes: Seq<NodeView>,
    mode: ExplorerSortMode,
    apart: bool,
)
    requires
        all_formed(parent, nodes, apart),
    ensures
        all_formed(parent, order::sorted(nodes, mode), apart),
        forall|path: Seq<PartView>|
            absent(nodes, path) ==> #[trigger] absent(order::sorted(nodes, mode), path),
    decreases nodes.len(),
{
    if nodes.len() > 0 {
        let head = nodes.drop_last();
        lemma_some_formed(parent, nodes, apart);
        lemma_sorted_formed(parent, head, mode, apart);
        lemma_inserted_formed(parent, order::sorted(head, mode), nodes.last(), mode, apart);
        assert forall|path: Seq<PartView>| absent(nodes, path) implies #[trigger] absent(
            order::sorted(nodes, mode),
            path,
        ) by {
            assert forall|i: int| 0 <= i < head.len() implies (#[trigger] head[i]).info.path
                != path by {
                assert(head[i] == nodes[i]);
            }
            assert(absent(order::sorted(head, mode), path));
            assert(nodes[nodes.len() - 1].info.path != path);
        }
    }
}

proof fn lemma_known_distinct(listings: Seq<ListingView>, path: Seq<PartView>)
    requires
        distinct_names(listings),
    ensures
        known(listings, path) matches Some(entries) ==> distinct_entries(
            ListingView { path, entries },
        ),
    decreases listings.len(),
{
    if listings.len() > 0 {
        assert(distinct_entries(listings[0]));
        let rest = listings.drop_first();
        assert forall|k: int| 0 <= k < rest.len() implies distinct_entries(#[trigger] rest[k]) by {
            assert(rest[k] == listings[k + 1]);
        }
        lemma_known_distinct(rest, path);
    }
}

/// Loaded children stand in their places.
pub proof fn lemma_loaded_formed(
    node: NodeView,
    listings: Seq<ListingView>,
    mode: ExplorerSortMode,
    apart: bool,
)
    requires
        apart ==> distinct_names(listings),
    ensures
        loaded(node, listings, mode) matches Ok(fresh) ==> well_formed(fresh, apart) && fresh.info
            == node.info && fresh.children is Some && all_formed(
            node.info.path,
            fresh.children->0,
            apart,
        ),
{
    if let Some(Some(entries)) = known(listings, node.info.path) {
        let nodes = entry_nodes(node.info.path, entries);
        assert forall|i: int| 0 <= i < nodes.len() implies is_child_path(
            node.info.path,
            (#[trigger] nodes[i]).info.path,
        ) && well_formed(nodes[i], apart) by {
            assert(nodes[i].info.path.drop_last() =~= node.info.path);
        }
        if apart {
            lemma_known_distinct(listings, node.info.path);
            assert forall|i: int, j: int| 0 <= i < j < nodes.len() implies (
            #[trigger] nodes[i]).info.path != (#[trigger] nodes[j]).info.path by {
                assert(entries[i].file_name != entries[j].file_name);
                assert(nodes[i].info.path.last() == PartView::Normal(entries[i].file_name));
                assert(nodes[j].info.path.last() == PartView::Normal(entries[j].file_name));
            }
        }
        lemma_sorted_formed(node.info.path, nodes, mode, apart);
    }
}

fn reload_children(
    nodes: Vec<FsNode>,
    depth: usize,
    expanded: &Vec<FsPath>,
    listings: &Vec<DirListing>,
    sort_mode: ExplorerSortMode,
) -> (result: (Vec<FsNode>, Result<(), TreeError>))
    requires
        forall|i: int|
            0 <= i < nodes@.len() ==> (#[trigger] nodes@[i])@.info.path.len() == depth + 1,
    ensures
        (node::nodes_view(result.0@), outcome_view(result.1)) == reloaded_all(
            node::nodes_view(nodes@),
            depth as nat,
            paths_view(expanded@),
            listings_view(listings@),
            sort_mode,
        ),
    decreases longest(paths_view(expanded@)) - depth, 1nat,
{
    let mut children = nodes;
    let ghost orig = node::nodes_view(children@);
    let ghost open = paths_view(expanded@);
    let ghost lists = listings_view(listings@);
    let ghost whole = reloaded_all(orig, depth as nat, open, lists, sort_mode);
    let mut i: usize = 0;
    proof {
        assert(orig.skip(0) =~= orig);
        assert(orig.take(0) + whole.0 =~= whole.0);
    }
    while i < children.len()
        invariant
            i <= children@.len(),
            children@.len() == orig.len(),
            orig == node::nodes_view(nodes@),
            open == paths_view(expanded@),
            lists == listings_view(listings@),
            whole == reloaded_all(orig, depth as nat, open, lists, sort_mode),
            forall|k: int| 0 <= k < orig.len() ==> (#[trigger] orig[k]).info.path.len() == depth
                + 1,
            forall|k: int| i <= k < children@.len() ==> (#[trigger] children@[k])@ == orig[k],
            whole.1 == reloaded_all(orig.skip(i as int), depth as nat, open, lists, sort_mode).1,
            whole.0 == node::nodes_view(children@).take(i as int) + reloaded_all(
                orig.skip(i as int),
                depth as nat,
                open,
                lists,
                sort_mode,
            ).0,
        decreases children@.len() - i,
    {
        let ghost rest = orig.skip(i as int);
        let ghost head = node::nodes_view(children@).take(i as int);
        let ghost current = children@[i as int];
        proof {
            assert(rest[0] == orig[i as int]);
            assert(rest.drop_first() =~= orig.skip(i + 1));
            node::lemma_node_view(current);
        }
        if children[i].is_dir && contains_path(expanded, &children[i].path) {
            proof {
                lemma_longest(open, rest[0].info.path);
            }
            let outcome = reload_with_expanded(&mut children[i], expanded, listings, sort_mode);
            proof {
                assert(node::nodes_view(children@).take(i as int) =~= head);
            }
            if let Err(error) = outcome {
                proof {
                    assert(node::nodes_view(children@) =~= head + (seq![children@[i as int]@]
                        + rest.drop_first()));
                }
                return (children, Err(error));
            }
        }
        proof {
            let next = reloaded_all(orig.skip(i + 1), depth as nat, open, lists, sort_mode).0;
            assert(head + (seq![children@[i as int]@] + next) =~= node::nodes_view(
                children@,
            ).take(i + 1) + next);
        }
        i = i + 1;
    }
    proof {
        assert(node::nodes_view(children@).take(i as int) + Seq::<NodeView>::empty()
            =~= node::nodes_view(children@));
        assert(orig.skip(i as int) =~= Seq::<NodeView>::empty());
    }
    (children, Ok(()))
}

/// Loads a directory anew, and those below it that were expanded.
pub fn reload_with_expanded(
    node: &mut FsNode,
    expanded: &Vec<FsPath>,
    listings: &Vec<DirListing>,
    sort_mode: ExplorerSortMode,
) -> (outcome: Result<(), TreeError>)
    ensures
        (final(node)@, outcome_view(outcome)) == reloaded(
            old(node)@,
            paths_view(expanded@),
            listings_view(listings@),
            sort_mode,
        ),
    decreases longest(paths_view(expanded@)) + 1 - old(node)@.info.path.len(), 0nat,
{
    proof {
        node::lemma_node_view(*node);
    }
    if !node.is_dir {
        return Ok(());
    }
    let ghost start = node@;
    let outcome = load_children(node, listings, sort_mode);
    if let Err(error) = outcome {
        return Err(error);
    }
    let ghost fresh = node@;
    proof {
        node::lemma_node_view(*node);
        lemma_loaded_formed(start, listings_view(listings@), sort_mode, false);
    }
    node.expanded = contains_path(expanded, &node.path);
    if node.expanded {
        proof {
            lemma_longest(paths_view(expanded@), start.info.path);
        }
        let depth = node.path.parts.len();
        if let Some(children) = node.children.take() {
            proof {
                assert(node::nodes_view(children@) == fresh.children->0);
                assert forall|i: int| 0 <= i < children@.len() implies (
                #[trigger] children@[i])@.info.path.len() == depth + 1 by {
                    assert(node::nodes_view(children@)[i] == children@[i]@);
                }
            }
            let (children, outcome) = reload_children(
                children,
                depth,
                expanded,
                listings,
                sort_mode,
            );
            node.children = Some(children);
            proof {
                node::lemma_node_view(*node);
            }
            return outcome;
        }
    }
    proof {
        node::lemma_node_view(*node);
    }
    Ok(())
}

/// What came of the way to a path: whether it was found.
pub open spec fn reach_view(reach: Result<bool, TreeError>) -> Reach {
    match reach {
        Ok(true) => Reach::Found,
        Ok(false) => Reach::NotFound,
        Err(error) => Reach::Failed(error@),
    }
}

fn open_children(
    nodes: Vec<FsNode>,
    depth: usize,
    path: &FsPath,
    listings: &Vec<DirListing>,
    sort_mode: ExplorerSortMode,
) -> (result: (Vec<FsNode>, Result<bool, TreeError>))
    requires
        depth < path@.len(),
        all_formed_at(nodes@, depth as nat),
    ensures
        (node::nodes_view(result.0@), reach_view(result.1)) == opened_all(
            node::nodes_view(nodes@),
            depth as nat,
            path@,
            listings_view(listings@),
            sort_mode,
        ),
    decreases path@.len() - depth - 1, 1nat,
{
    let mut children = nodes;
    let ghost orig = node::nodes_view(children@);
    let ghost lists = listings_view(listings@);
    let ghost whole = opened_all(orig, depth as nat, path@, lists, sort_mode);
    let mut i: usize = 0;
    proof {
        assert(orig.skip(0) =~= orig);
        assert(orig.take(0) + whole.0 =~= whole.0);
    }
    while i < children.len()
        invariant
            i <= children@.len(),
            children@.len() == orig.len(),
            orig == node::nodes_view(nodes@),
            lists == listings_view(listings@),
            depth < path@.len(),
            whole == opened_all(orig, depth as nat, path@, lists, sort_mode),
            forall|k: int|
                0 <= k < orig.len() ==> (#[trigger] orig[k]).info.path.len() == depth + 1
                    && well_formed(orig[k], false),
            forall|k: int| i <= k < children@.len() ==> (#[trigger] children@[k])@ == orig[k],
            whole.1 == opened_all(orig.skip(i as int), depth as nat, path@, lists, sort_mode).1,
            whole.0 == node::nodes_view(children@).take(i as int) + opened_all(
                orig.skip(i as int),
                depth as nat,
                path@,
                lists,
                sort_mode,
            ).0,
        decreases children@.len() - i,
    {
        let ghost rest = orig.skip(i as int);
        let ghost head = node::nodes_view(children@).take(i as int);
        proof {
            assert(rest[0] == orig[i as int]);
            assert(rest.drop_first() =~= orig.skip(i + 1));
        }
        let reach = expand_to_path(&mut children[i], path, listings, sort_mode);
        proof {
            assert(node::nodes_view(children@).take(i as int) =~= head);
        }
        match reach {
            Ok(false) => {},
            reach => {
                proof {
                    assert(node::nodes_view(children@) =~= head + (seq![children@[i as int]@]
                        + rest.drop_first()));
                }
                return (children, reach);
            },
        }
        proof {
            let next = opened_all(orig.skip(i + 1), depth as nat, path@, lists, sort_mode).0;
            assert(head + (seq![children@[i as int]@] + next) =~= node::nodes_view(
                children@,
            ).take(i + 1) + next);
        }
        i = i + 1;
    }
    proof {
        assert(node::nodes_view(children@).take(i as int) + Seq::<NodeView>::empty()
            =~= node::nodes_view(children@));
        assert(orig.skip(i as int) =~= Seq::<NodeView>::empty());
    }
    (children, Ok(false))
}

/// Whether nodes are the children of a directory whose path has `depth`
/// components.
spec fn all_formed_at(nodes: Seq<FsNode>, depth: nat) -> bool {
    forall|i: int|
        0 <= i < nodes.len() ==> (#[trigger] nodes[i])@.info.path.len() == depth + 1
            && well_formed(nodes[i]@, false)
}

/// Loads and expands the directories on the way to a path. Says whether the
/// path was found.
pub fn expand_to_path(
    node: &mut FsNode,
    path: &FsPath,
    listings: &Vec<DirListing>,
    sort_mode: ExplorerSortMode,
) -> (reach: Result<bool, TreeError>)
    requires
        well_formed(old(node)@, false),
    ensures
        (final(node)@, reach_view(reach)) == opened(
            old(node)@,
            path@,
            listings_view(listings@),
            sort_mode,
        ),
    decreases path@.len() - old(node)@.info.path.len(), 0nat,
{
    let ghost start = node@;
    let ghost lists = listings_view(listings@);
    proof {
        node::lemma_node_view(*node);
        lemma_loaded_formed(start, lists, sort_mode, false);
    }
    if node.path.same(path) {
        return Ok(true);
    }
    if !node.is_dir || !path.starts_with(&node.path) {
        return Ok(false);
    }
    proof {
        if start.info.path.len() == path@.len() {
            assert(path@.subrange(0, path@.len() as int) =~= path@);
        }
    }
    if node.children.is_none() {
        let outcome = load_children(node, listings, sort_mode);
        if let Err(error) = outcome {
            return Err(error);
        }
    }
    let ghost ready = node@;
    proof {
        node::lemma_node_view(*node);
    }
    node.expanded = true;
    let depth = node.path.parts.len();
    match node.children.take() {
        Some(children) => {
            proof {
                assert(node::nodes_view(children@) == ready.children->0);
                assert forall|i: int| 0 <= i < children@.len() implies (
                #[trigger] children@[i])@.info.path.len() == depth + 1 && well_formed(
                    children@[i]@, false,
                ) by {
                    assert(node::nodes_view(children@)[i] == children@[i]@);
                }
            }
            let (children, reach) = open_children(children, depth, path, listings, sort_mode);
            node.children = Some(children);
            proof {
                node::lemma_node_view(*node);
            }
            reach
        },
        None => Ok(false),
    }
}

/// What is read of a directory is told entry by entry.
pub proof fn listings_tell_their_entries(listing: DirListing, entry: DirEntry, i: int)
    ensures
        listing@.path == listing.path@,
        listing.entries is None ==> listing@.entries is None,
        listing.entries matches Some(entries) ==> listing@.entries is Some
            && listing@.entries->0.len() == entries@.len() && (0 <= i < entries@.len()
            ==> listing@.entries->0[i] == entries@[i]@),
        entry@.file_name == entry.file_name@ && entry@.name == entry.name@ && entry@.is_dir
            == entry.is_dir && entry@.len == entry.len && entry@.modified == entry.modified
            && entry@.readonly == entry.readonly,
{
}

} // verus!
