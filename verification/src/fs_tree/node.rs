//! Nodes of the tree.

use vstd::prelude::*;

use crate::path::FsPath;
use crate::path::PartView;

verus! {

/// A file or a directory. The children of a directory are there once they have
/// been loaded.
#[derive(Debug)]
pub struct FsNode {
    pub path: FsPath,
    pub name: String,
    pub is_dir: bool,
    pub expanded: bool,
    pub size: Option<u64>,
    /// Nanoseconds since the beginning of 1970.
    pub modified: Option<i128>,
    pub readonly: bool,
    pub children: Option<Vec<FsNode>>,
}

/// What does not change of a node as long as it is not loaded anew.
pub struct NodeInfo {
    pub path: Seq<PartView>,
    pub name: Seq<char>,
    pub is_dir: bool,
    pub size: Option<u64>,
    pub modified: Option<i128>,
    pub readonly: bool,
}

pub struct NodeView {
    pub info: NodeInfo,
    pub expanded: bool,
    pub children: Option<Seq<NodeView>>,
}

impl FsNode {
    pub open spec fn info(&self) -> NodeInfo {
        NodeInfo {
            path: self.path@,
            name: self.name@,
            is_dir: self.is_dir,
            size: self.size,
            modified: self.modified,
            readonly: self.readonly,
        }
    }

    pub open spec fn view(&self) -> NodeView
        decreases self,
    {
        NodeView {
            info: self.info(),
            expanded: self.expanded,
            children: match self.children {
                Some(children) => Some(
                    Seq::new(
                        children@.len(),
                        |i: int|
                            if 0 <= i < children@.len() {
                                children@[i].view()
                            } else {
                                arbitrary()
                            },
                    ),
                ),
                None => None,
            },
        }
    }
}

pub open spec fn nodes_view(nodes: Seq<FsNode>) -> Seq<NodeView> {
    Seq::new(nodes.len(), |i: int| nodes[i]@)
}

/// What a node stands for, in terms of its children.
pub proof fn lemma_node_view(node: FsNode)
    ensures
        node@.info == node.info(),
        node@.expanded == node.expanded,
        node@.children is Some <==> node.children is Some,
        node.children matches Some(children) ==> node@.children == Some(nodes_view(children@)),
{
    if let Some(children) = node.children {
        assert(node@.children->0 =~= nodes_view(children@));
    }
}

impl FsNode {
    pub fn copy(&self) -> (copied: FsNode)
        ensures
            copied@ == self@,
        decreases self,
    {
        let children = match &self.children {
            Some(children) => {
                let mut copies: Vec<FsNode> = Vec::new();
                for i in 0..children.len()
                    invariant
                        self.children matches Some(v) && v == children,
                        copies@.len() == i,
                        forall|j: int| 0 <= j < i ==> copies@[j]@ == children@[j]@,
                {
                    copies.push(children[i].copy());
                }
                proof {
                    assert(nodes_view(copies@) =~= nodes_view(children@));
                }
                Some(copies)
            },
            None => None,
        };
        let copied = FsNode {
            path: self.path.copy(),
            name: self.name.clone(),
            is_dir: self.is_dir,
            expanded: self.expanded,
            size: self.size,
            modified: self.modified,
            readonly: self.readonly,
            children,
        };
        proof {
            lemma_node_view(copied);
            lemma_node_view(*self);
        }
        copied
    }
}

} // verus!
