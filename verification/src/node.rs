//! The node of a tree: a record that holds identifiers only.

use std::collections::HashSet;
use vstd::prelude::*;

use crate::unique_id::{OwnedDataId, RefPathId, TreeNodeId};

verus! {

broadcast use vstd::std_specs::hash::group_hash_axioms;

/// The child was already a part of the node.
#[derive(Debug, Copy, Clone, PartialEq, Eq, Structural)]
pub struct NodeChildInsertError;

/// What a tree node holds, as a mathematical value.
pub struct NodeView {
    /// The node's parent. A root is its own parent.
    pub parent: TreeNodeId,
    /// The full owned path buffer that the node stands for.
    pub owned: OwnedDataId,
    /// The interned path of the node.
    pub path: RefPathId,
    /// The node's children.
    pub children: Set<TreeNodeId>,
}

impl NodeView {
    /// This node with `child` among its children.
    pub open spec fn with_child(self, child: TreeNodeId) -> NodeView {
        NodeView { children: self.children.insert(child), ..self }
    }
}

/// The node structure for the file tree that only contains ids.
pub struct TreeNode {
    parent_key: TreeNodeId,
    owned_key: OwnedDataId,
    ref_path_key: RefPathId,
    children: HashSet<u64>,
}

impl View for TreeNode {
    type V = NodeView;

    closed spec fn view(&self) -> NodeView {
        NodeView {
            parent: self.parent_key,
            owned: self.owned_key,
            path: self.ref_path_key,
            children: Set::new(|c: TreeNodeId| self.children@.contains(c.0.0)),
        }
    }
}

impl TreeNode {
    /// Creates a node without children.
    pub fn new(parent: TreeNodeId, owned: OwnedDataId, path: RefPathId) -> (node: TreeNode)
        ensures
            node@ == (NodeView { parent, owned, path, children: Set::empty() }),
    {
        let node = TreeNode {
            parent_key: parent,
            owned_key: owned,
            ref_path_key: path,
            children: HashSet::new(),
        };
        assert(node@.children =~= Set::empty());
        node
    }

    /// Returns the parent TreeNodeId.
    pub fn parent(&self) -> (id: TreeNodeId)
        ensures
            id == self@.parent,
    {
        self.parent_key
    }

    /// Returns the OwnedDataId.
    pub fn owned(&self) -> (id: OwnedDataId)
        ensures
            id == self@.owned,
    {
        self.owned_key
    }

    /// Returns the RefPathId for this node's path.
    pub fn path(&self) -> (id: RefPathId)
        ensures
            id == self@.path,
    {
        self.ref_path_key
    }

    /// Checks if this node contains a specified child TreeNodeId.
    pub fn contains_child(&self, child: TreeNodeId) -> (found: bool)
        ensures
            found == self@.children.contains(child),
    {
        let raw: u64 = child.0.0;
        self.children.contains(&raw)
    }

    /// Inserts the specified child TreeNodeId.
    ///
    /// Returns `Ok(())` the first time the child is inserted and
    /// `Err(NodeChildInsertError)` when it had been inserted previously; the
    /// node is then left as it was.
    pub fn insert_child(&mut self, child: TreeNodeId) -> (r: Result<(), NodeChildInsertError>)
        ensures
            r is Err <==> old(self)@.children.contains(child),
            final(self)@ == old(self)@.with_child(child),
    {
        let raw: u64 = child.0.0;
        let fresh = self.children.insert(raw);
        assert(self@.children =~= old(self)@.children.insert(child)) by {
            assert forall|c: TreeNodeId|
                self@.children.contains(c) <==> old(self)@.children.insert(child).contains(
                    c,
                ) by {
                assert(c.0.0 == raw <==> c == child);
            }
        }
        if !fresh {
            Err(NodeChildInsertError)
        } else {
            Ok(())
        }
    }
}

} // verus!
