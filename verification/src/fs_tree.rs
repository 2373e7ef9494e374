//! The tree of files of a workspace, as far as it has been looked at.

pub mod edit;
pub mod finding;
pub mod form;
pub mod laws;
pub mod load;
pub mod node;
pub mod order;
pub mod rows;
pub mod sorting;

use vstd::prelude::*;

use crate::fs_tree::edit::Edit;
use crate::fs_tree::edit::EditOutcome;
use crate::fs_tree::edit::EditView;
use crate::fs_tree::load::DirListing;
use crate::fs_tree::load::ErrorView;
use crate::fs_tree::load::ListingView;
use crate::fs_tree::load::Reach;
use crate::fs_tree::load::TreeError;
use crate::fs_tree::node::FsNode;
use crate::fs_tree::node::NodeInfo;
use crate::fs_tree::node::NodeView;
pub use crate::fs_tree::order::ExplorerSortMode;
use crate::path;
use crate::path::FsPath;
use crate::path::PartView;
use crate::text;

verus! {

broadcast use vstd::utf8::group_utf8_lib;

/// A node as the explorer lists it.
#[derive(Debug, Clone, PartialEq, Eq)]
pub struct VisibleNode {
    pub path: FsPath,
    pub name: String,
    pub depth: usize,
    pub is_dir: bool,
    pub expanded: bool,
    pub size: Option<u64>,
    pub readonly: bool,
}

pub struct VisibleView {
    pub path: Seq<PartView>,
    pub name: Seq<char>,
    pub depth: nat,
    pub is_dir: bool,
    pub expanded: bool,
    pub size: Option<u64>,
    pub readonly: bool,
}

impl View for VisibleNode {
    type V = VisibleView;

    open spec fn view(&self) -> VisibleView {
        VisibleView {
            path: self.path@,
            name: self.name@,
            depth: self.depth as nat,
            is_dir: self.is_dir,
            expanded: self.expanded,
            size: self.size,
            readonly: self.readonly,
        }
    }
}

pub open spec fn visible_view(nodes: Seq<VisibleNode>) -> Seq<VisibleView> {
    Seq::new(nodes.len(), |i: int| nodes[i]@)
}

/// How a node is listed.
pub open spec fn listed(node: NodeView, depth: nat) -> VisibleView {
    VisibleView {
        path: node.info.path,
        name: node.info.name,
        depth,
        is_dir: node.info.is_dir,
        expanded: node.expanded,
        size: node.info.size,
        readonly: node.info.readonly,
    }
}

/// A node and, where it is expanded, all that is visible below it.
pub open spec fn visible(node: NodeView, depth: nat) -> Seq<VisibleView>
    decreases node,
{
    if node.info.is_dir && node.expanded {
        match node.children {
            Some(children) => seq![listed(node, depth)] + visible_all(children, depth + 1),
            None => seq![listed(node, depth)],
        }
    } else {
        seq![listed(node, depth)]
    }
}

pub open spec fn visible_all(nodes: Seq<NodeView>, depth: nat) -> Seq<VisibleView>
    decreases nodes,
{
    if nodes.len() == 0 {
        Seq::empty()
    } else {
        visible_all(nodes.drop_last(), depth) + visible(nodes.last(), depth)
    }
}

fn flatten(node: &FsNode, depth: usize, visible_nodes: &mut Vec<VisibleNode>)
    requires
        load::well_formed(node@, false),
        depth <= node@.info.path.len(),
    ensures
        visible_view(final(visible_nodes)@) == visible_view(old(visible_nodes)@) + visible(
            node@,
            depth as nat,
        ),
    decreases node,
{
    let ghost before = visible_view(visible_nodes@);
    proof {
        node::lemma_node_view(*node);
    }
    let entry = VisibleNode {
        path: node.path.copy(),
        name: node.name.clone(),
        depth,
        is_dir: node.is_dir,
        expanded: node.expanded,
        size: node.size,
        readonly: node.readonly,
    };
    visible_nodes.push(entry);
    proof {
        assert(visible_view(visible_nodes@) =~= before + seq![listed(node@, depth as nat)]);
    }
    let ghost first = visible_view(visible_nodes@);
    if node.is_dir && node.expanded {
        if let Some(children) = &node.children {
            let ghost orig = node::nodes_view(children@);
            proof {
                assert(first + visible_all(orig.take(0), (depth + 1) as nat) =~= first);
            }
            for i in 0..children.len()
                invariant
                    node.children matches Some(v) && v == children,
                    node@.children == Some(orig),
                    load::well_formed(node@, false),
                    depth <= node@.info.path.len(),
                    orig == node::nodes_view(children@),
                    visible_view(visible_nodes@) == first + visible_all(
                        orig.take(i as int),
                        (depth + 1) as nat,
                    ),
            {
                proof {
                    assert(orig.take(i + 1).drop_last() =~= orig.take(i as int));
                    assert(orig[i as int] == children@[i as int]@);
                    node::lemma_node_view(children@[i as int]);
                    assert(children@[i as int].path@.len() == children@[i as int].path.parts@.len());
                    assert(children@[i as int].path.parts.len() <= usize::MAX);
                }
                flatten(&children[i], depth + 1, visible_nodes);
                proof {
                    assert(visible_view(visible_nodes@) =~= first + visible_all(
                        orig.take(i + 1),
                        (depth + 1) as nat,
                    ));
                }
            }
            proof {
                assert(orig.take(children@.len() as int) =~= orig);
            }
        }
    }
    proof {
        assert(visible_view(visible_nodes@) =~= before + visible(node@, depth as nat));
    }
}

/// The explorer: the tree, the order of its children, and which of the listed
/// nodes is selected and which one is on top.
#[derive(Debug)]
pub struct FsTree {
    root: FsNode,
    sort_mode: ExplorerSortMode,
    pub selected: usize,
    pub scroll: usize,
}

pub struct TreeView {
    pub root: NodeView,
    pub mode: ExplorerSortMode,
    pub selected: nat,
    pub scroll: nat,
}

impl TreeView {
    /// The root is a directory with its children loaded; every node stands below
    /// the directory that its path names; and no directory is expanded without
    /// its children.
    pub open spec fn wf(self) -> bool {
        &&& load::well_formed(self.root, false)
        &&& self.root.info.is_dir
        &&& self.root.children is Some
    }

    /// Whether, besides, no two children of a directory have one name.
    pub open spec fn has_distinct_names(self) -> bool {
        self.wf() && load::well_formed(self.root, true)
    }

    /// The nodes that are listed.
    pub open spec fn nodes(self) -> Seq<VisibleView> {
        visible(self.root, 0)
    }

    /// The tree with its selection and its scroll position on listed nodes.
    pub open spec fn clamped(self) -> TreeView {
        let last = self.nodes().len() - 1;
        TreeView {
            selected: if self.selected < last {
                self.selected
            } else {
                last as nat
            },
            scroll: if self.scroll < last {
                self.scroll
            } else {
                last as nat
            },
            ..self
        }
    }

    /// The tree in another order.
    pub open spec fn resorted(self, mode: ExplorerSortMode) -> TreeView {
        (TreeView { root: edit::resorted(self.root, mode), mode, ..self }).clamped()
    }

    /// The tree loaded anew, the directories expanded that were.
    pub open spec fn refreshed(self, listings: Seq<ListingView>) -> (
        TreeView,
        Result<(), ErrorView>,
    ) {
        let (root, outcome) = load::reloaded(
            self.root,
            edit::expanded_paths(self.root),
            listings,
            self.mode,
        );
        let after = match outcome {
            Ok(()) => (TreeView { root, ..self }).clamped(),
            Err(ErrorView::NotListed(_)) => self,
            Err(ErrorView::Unreadable(_)) => TreeView { root, ..self },
        };
        (after, outcome)
    }

    /// The tree with the directory at a path expanded or collapsed.
    pub open spec fn toggled(self, path: Seq<PartView>, listings: Seq<ListingView>) -> (
        TreeView,
        Result<(), ErrorView>,
    ) {
        let (root, outcome) = edit::edited(self.root, path, Edit::Toggle, listings, self.mode);
        match outcome {
            EditView::Failed(error) => (TreeView { root, ..self }, Err(error)),
            _ => ((TreeView { root, ..self }).clamped(), Ok(())),
        }
    }

    /// The tree with the directory at a path collapsed.
    pub open spec fn collapsed(self, path: Seq<PartView>) -> TreeView {
        let root = edit::edited(self.root, path, Edit::Collapse, Seq::empty(), self.mode).0;
        (TreeView { root, ..self }).clamped()
    }

    /// The tree with all directories collapsed but the root.
    pub open spec fn all_collapsed(self) -> TreeView {
        (TreeView {
            root: NodeView { expanded: true, ..edit::collapsed_below(self.root) },
            ..self
        }).clamped()
    }

    /// The tree with the directories on the way to a path expanded and the node at
    /// the path selected, where it is listed.
    pub open spec fn revealed(self, path: Seq<PartView>, listings: Seq<ListingView>) -> (
        TreeView,
        Result<(), ErrorView>,
    ) {
        let (root, reach) = load::opened(self.root, path, listings, self.mode);
        let after = (TreeView { root, ..self }).clamped();
        match reach {
            Reach::Failed(ErrorView::NotListed(at)) => (self, Err(ErrorView::NotListed(at))),
            Reach::Failed(ErrorView::Unreadable(at)) => (
                TreeView { root, ..self },
                Err(ErrorView::Unreadable(at)),
            ),
            _ => match position_of(after.nodes(), path) {
                Some(i) => (TreeView { selected: i as nat, ..after }, Ok(())),
                None => (after, Ok(())),
            },
        }
    }
}

/// The first listed node with a path.
pub open spec fn position_of(nodes: Seq<VisibleView>, path: Seq<PartView>) -> Option<int>
    decreases nodes.len(),
{
    if nodes.len() == 0 {
        None
    } else {
        match position_of(nodes.drop_last(), path) {
            Some(i) => Some(i),
            None => if nodes.last().path == path {
                Some(nodes.len() - 1)
            } else {
                None
            },
        }
    }
}

/// The name of the root: that of its directory, or else its path, or else a
/// slash.
pub open spec fn root_name(path: Seq<PartView>, text: Option<Seq<char>>) -> Seq<char> {
    let name = match path::last_name(path) {
        Some(bytes) => path::utf8(bytes),
        None => None,
    };
    match name {
        Some(name) => name,
        None => match text {
            Some(text) => text,
            None => "/"@,
        },
    }
}

/// The root before its children are loaded.
pub open spec fn bare_root(
    path: Seq<PartView>,
    text: Option<Seq<char>>,
    modified: Option<i128>,
    readonly: bool,
) -> NodeView {
    NodeView {
        info: NodeInfo {
            path,
            name: root_name(path, text),
            is_dir: true,
            size: None,
            modified,
            readonly,
        },
        expanded: true,
        children: None,
    }
}

proof fn lemma_visible_not_empty(node: NodeView, depth: nat)
    ensures
        visible(node, depth).len() > 0,
        visible(node, depth)[0] == listed(node, depth),
{
}

impl FsTree {
    pub closed spec fn view(&self) -> TreeView {
        TreeView {
            root: self.root@,
            mode: self.sort_mode,
            selected: self.selected as nat,
            scroll: self.scroll as nat,
        }
    }

    pub open spec fn wf(&self) -> bool {
        self@.wf()
    }

    /// The tree of a directory, its children loaded and listed by name.
    /// `text` is its path as text, where it is text.
    pub fn new(
        root: FsPath,
        text: Option<String>,
        modified: Option<i128>,
        readonly: bool,
        listings: &Vec<DirListing>,
    ) -> (tree: Result<FsTree, TreeError>)
        ensures
            match load::loaded(
                bare_root(root@, text::maybe(text), modified, readonly),
                load::listings_view(listings@),
                ExplorerSortMode::Name,
            ) {
                Ok(loaded) => tree matches Ok(t) && t.wf() && t@ == (TreeView {
                    root: loaded,
                    mode: ExplorerSortMode::Name,
                    selected: 0,
                    scroll: 0,
                }),
                Err(error) => tree matches Err(e) && e@ == error,
            },
    {
        let own_name = match root.file_name() {
            Some(bytes) => text::utf8_text(bytes),
            None => None,
        };
        let name = match own_name {
            Some(name) => name,
            None => match &text {
                Some(text) => text.clone(),
                None => "/".to_owned(),
            },
        };
        let mut node = FsNode {
            path: root,
            name,
            is_dir: true,
            expanded: true,
            size: None,
            modified,
            readonly,
            children: None,
        };
        let ghost start = node@;
        proof {
            node::lemma_node_view(node);
            load::lemma_loaded_formed(
                start,
                load::listings_view(listings@),
                ExplorerSortMode::Name,
                false,
            );
        }
        match load::load_children(&mut node, listings, ExplorerSortMode::Name) {
            Ok(()) => Ok(
                FsTree { root: node, sort_mode: ExplorerSortMode::Name, selected: 0, scroll: 0 },
            ),
            Err(error) => Err(error),
        }
    }

    /// The nodes that are listed, from the root down.
    pub fn visible_nodes(&self) -> (nodes: Vec<VisibleNode>)
        requires
            self.wf(),
        ensures
            visible_view(nodes@) == self@.nodes(),
            nodes@.len() > 0,
    {
        let mut nodes: Vec<VisibleNode> = Vec::new();
        flatten(&self.root, 0, &mut nodes);
        proof {
            assert(visible_view(nodes@) =~= visible(self.root@, 0));
            lemma_visible_not_empty(self.root@, 0);
            assert(visible_view(nodes@).len() == nodes@.len());
        }
        nodes
    }

    pub fn sort_mode(&self) -> (mode: ExplorerSortMode)
        ensures
            mode == self@.mode,
    {
        self.sort_mode
    }

    /// Which of the listed nodes is selected.
    pub fn selected(&self) -> (row: usize)
        ensures
            row == self@.selected,
    {
        self.selected
    }

    /// Which of the listed nodes is on top.
    pub fn scroll(&self) -> (row: usize)
        ensures
            row == self@.scroll,
    {
        self.scroll
    }

    fn clamp_selection(&mut self)
        requires
            old(self).wf(),
        ensures
            final(self).wf(),
            final(self)@ == old(self)@.clamped(),
    {
        let nodes = self.visible_nodes();
        proof {
            assert(visible_view(nodes@).len() == nodes@.len());
        }
        let last = nodes.len() - 1;
        if self.selected >= last {
            self.selected = last;
        }
        if self.scroll >= last {
            self.scroll = last;
        }
    }

    /// Lists the children of every directory in another order.
    pub fn set_sort_mode(&mut self, sort_mode: ExplorerSortMode)
        requires
            old(self).wf(),
        ensures
            final(self).wf(),
            final(self)@ == old(self)@.resorted(sort_mode),
    {
        self.sort_mode = sort_mode;
        proof {
            form::resorting_keeps_form(self.root@, sort_mode, false);
        }
        edit::sort_loaded_children(&mut self.root, sort_mode);
        self.clamp_selection();
    }

    /// Loads the tree anew, keeping the directories expanded that were. Nothing
    /// changes where a directory is not listed; where one cannot be read, what
    /// was loaded before it stays.
    pub fn refresh(&mut self, listings: &Vec<DirListing>) -> (outcome: Result<(), TreeError>)
        requires
            old(self).wf(),
        ensures
            final(self).wf(),
            (final(self)@, load::outcome_view(outcome)) == old(self)@.refreshed(
                load::listings_view(listings@),
            ),
    {
        let mut expanded: Vec<FsPath> = Vec::new();
        edit::collect_expanded(&self.root, &mut expanded);
        proof {
            assert(load::paths_view(expanded@) =~= edit::expanded_paths(self.root@));
            form::reloading_keeps_form(
                self.root@,
                load::paths_view(expanded@),
                load::listings_view(listings@),
                self.sort_mode,
                false,
            );
        }
        let mut root = self.root.copy();
        match load::reload_with_expanded(&mut root, &expanded, listings, self.sort_mode) {
            Ok(()) => {
                self.root = root;
                self.clamp_selection();
                Ok(())
            },
            Err(TreeError::NotListed(path)) => Err(TreeError::NotListed(path)),
            Err(TreeError::Unreadable(path)) => {
                self.root = root;
                Err(TreeError::Unreadable(path))
            },
        }
    }

    /// Expands or collapses the directory at a path, loading it where that has
    /// not been done. Nothing changes where it cannot be loaded.
    pub fn toggle(&mut self, path: &FsPath, listings: &Vec<DirListing>) -> (outcome: Result<
        (),
        TreeError,
    >)
        requires
            old(self).wf(),
        ensures
            final(self).wf(),
            (final(self)@, load::outcome_view(outcome)) == old(self)@.toggled(
                path@,
                load::listings_view(listings@),
            ),
    {
        proof {
            form::editing_keeps_form(
                self.root@,
                path@,
                Edit::Toggle,
                load::listings_view(listings@),
                self.sort_mode,
                false,
            );
        }
        match edit::edit_node(&mut self.root, path, Edit::Toggle, listings, self.sort_mode) {
            EditOutcome::Failed(error) => Err(error),
            _ => {
                self.clamp_selection();
                Ok(())
            },
        }
    }

    /// Collapses the directory at a path.
    pub fn collapse(&mut self, path: &FsPath)
        requires
            old(self).wf(),
        ensures
            final(self).wf(),
            final(self)@ == old(self)@.collapsed(path@),
    {
        let listings: Vec<DirListing> = Vec::new();
        proof {
            assert(load::listings_view(listings@) =~= Seq::<ListingView>::empty());
            form::editing_keeps_form(
                self.root@,
                path@,
                Edit::Collapse,
                load::listings_view(listings@),
                self.sort_mode,
                false,
            );
        }
        edit::edit_node(&mut self.root, path, Edit::Collapse, &listings, self.sort_mode);
        self.clamp_selection();
    }

    /// Collapses all directories but the root, which is expanded.
    pub fn collapse_all(&mut self)
        requires
            old(self).wf(),
        ensures
            final(self).wf(),
            final(self)@ == old(self)@.all_collapsed(),
    {
        proof {
            form::collapsing_keeps_form(self.root@, false);
        }
        edit::collapse_descendants(&mut self.root);
        let ghost below = self.root@;
        proof {
            node::lemma_node_view(self.root);
        }
        self.root.expanded = true;
        proof {
            node::lemma_node_view(self.root);
            assert(self.root@ == NodeView { expanded: true, ..below });
            form::flipping_keeps_form(below, true, false);
        }
        self.clamp_selection();
    }

    /// Expands the directories on the way to a path, loading them where that has
    /// not been done, and selects the node at the path where it is listed.
    /// Nothing changes where a directory is not listed; where one cannot be
    /// read, those before it stay expanded.
    pub fn reveal_path(&mut self, path: &FsPath, listings: &Vec<DirListing>) -> (outcome: Result<
        (),
        TreeError,
    >)
        requires
            old(self).wf(),
        ensures
            final(self).wf(),
            (final(self)@, load::outcome_view(outcome)) == old(self)@.revealed(
                path@,
                load::listings_view(listings@),
            ),
    {
        proof {
            form::opening_keeps_form(
                self.root@,
                path@,
                load::listings_view(listings@),
                self.sort_mode,
                false,
            );
        }
        let mut root = self.root.copy();
        match load::expand_to_path(&mut root, path, listings, self.sort_mode) {
            Err(TreeError::NotListed(missing)) => {
                return Err(TreeError::NotListed(missing));
            },
            Err(TreeError::Unreadable(missing)) => {
                self.root = root;
                return Err(TreeError::Unreadable(missing));
            },
            Ok(_) => {},
        }
        self.root = root;
        self.clamp_selection();
        let nodes = self.visible_nodes();
        let ghost view = visible_view(nodes@);
        let mut i: usize = 0;
        proof {
            assert(view.take(view.len() as int) =~= view);
        }
        while i < nodes.len()
            invariant
                i <= nodes@.len(),
                view == visible_view(nodes@),
                view.take(view.len() as int) == view,
                position_of(view.take(i as int), path@) is None,
            ensures
                i <= nodes@.len(),
                i < nodes@.len() ==> position_of(view, path@) == Some(i as int),
                i == nodes@.len() ==> position_of(view, path@) is None,
            decreases nodes@.len() - i,
        {
            proof {
                assert(view.take(i + 1).drop_last() =~= view.take(i as int));
                assert(view[i as int] == nodes@[i as int]@);
            }
            if nodes[i].path.same(path) {
                proof {
                    lemma_position_of_prefix(view, path@, i + 1);
                }
                break;
            }
            i = i + 1;
        }
        if i < nodes.len() {
            self.selected = i;
        }
        Ok(())
    }
}

proof fn lemma_position_of_prefix(nodes: Seq<VisibleView>, path: Seq<PartView>, n: int)
    requires
        0 <= n <= nodes.len(),
        position_of(nodes.take(n), path) is Some,
    ensures
        position_of(nodes, path) == position_of(nodes.take(n), path),
    decreases nodes.len() - n,
{
    if n == nodes.len() {
        assert(nodes.take(n) =~= nodes);
    } else {
        assert(nodes.take(n + 1).drop_last() =~= nodes.take(n));
        lemma_position_of_prefix(nodes, path, n + 1);
    }
}

/// A row of the explorer stands for what it tells.
pub proof fn rows_stand_for_what_they_tell(row: VisibleNode)
    ensures
        row@.path == row.path@,
        row@.name == row.name@,
        row@.depth == row.depth,
        row@.is_dir == row.is_dir,
        row@.expanded == row.expanded,
        row@.size == row.size,
        row@.readonly == row.readonly,
{
}

} // verus!
