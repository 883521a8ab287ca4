//! What a storage backend resolves: the primitive lookups that it provides,
//! the composite lookups built from them, and the insertion of a path.

use vstd::prelude::*;

use crate::node::{NodeView, TreeNode};
use crate::seal::Sealed;
use crate::unique_id::{OwnedDataId, RefPathId, TreeNodeId};

verus! {

/// Why a lookup found nothing. Each variant names the id or the path that
/// could not be resolved.
#[derive(Debug, PartialEq, Eq)]
pub enum LookupError {
    /// The owned data for the id is missing.
    OwnedDataMissing(OwnedDataId),
    /// The tree node for the id is missing.
    TreeNodeMissing(TreeNodeId),
    /// The path for the id is missing.
    RefPathMissingId(RefPathId),
    /// The path is missing.
    RefPathMissingPath(String),
}

/// A `LookupError` as a mathematical value.
pub enum LookupFailure {
    OwnedDataMissing(OwnedDataId),
    TreeNodeMissing(TreeNodeId),
    RefPathMissingId(RefPathId),
    RefPathMissingPath(Seq<char>),
}

impl View for LookupError {
    type V = LookupFailure;

    open spec fn view(&self) -> LookupFailure {
        match self {
            LookupError::OwnedDataMissing(id) => LookupFailure::OwnedDataMissing(*id),
            LookupError::TreeNodeMissing(id) => LookupFailure::TreeNodeMissing(*id),
            LookupError::RefPathMissingId(id) => LookupFailure::RefPathMissingId(*id),
            LookupError::RefPathMissingPath(path) => LookupFailure::RefPathMissingPath(path@),
        }
    }
}

pub type LookupResult<T> = Result<T, LookupError>;

/// Why an insertion did not take place.
#[derive(Debug, PartialEq, Eq)]
pub enum InsertionError {
    /// The path is already found in the filesystem.
    PathExists(String),
    /// The tree has no item id left to give to a new entry.
    IdsExhausted(u64),
}

/// An `InsertionError` as a mathematical value.
pub enum InsertionFailure {
    PathExists(Seq<char>),
    IdsExhausted(u64),
}

impl View for InsertionError {
    type V = InsertionFailure;

    open spec fn view(&self) -> InsertionFailure {
        match self {
            InsertionError::PathExists(path) => InsertionFailure::PathExists(path@),
            InsertionError::IdsExhausted(tree) => InsertionFailure::IdsExhausted(*tree),
        }
    }
}

pub type InsertionResult<T> = Result<T, InsertionError>;

/// The five tables that the primitive lookups read, as mathematical maps.
pub struct Tables {
    /// The owned path buffer of each owned-data id.
    pub owned: Map<OwnedDataId, Seq<char>>,
    /// The node of each tree-node id.
    pub nodes: Map<TreeNodeId, NodeView>,
    /// The interned path of each ref-path id.
    pub paths: Map<RefPathId, Seq<char>>,
    /// The ref-path id of each interned path.
    pub path_ids: Map<Seq<char>, RefPathId>,
    /// The tree-node id of each ref-path id.
    pub node_ids: Map<RefPathId, TreeNodeId>,
}

impl Tables {
    /// The owned buffer of `id`.
    pub open spec fn owned_data_from_id(self, id: OwnedDataId) -> Result<Seq<char>, LookupFailure> {
        if self.owned.contains_key(id) {
            Ok(self.owned[id])
        } else {
            Err(LookupFailure::OwnedDataMissing(id))
        }
    }

    /// The node of `id`.
    pub open spec fn tree_node_from_id(self, id: TreeNodeId) -> Result<NodeView, LookupFailure> {
        if self.nodes.contains_key(id) {
            Ok(self.nodes[id])
        } else {
            Err(LookupFailure::TreeNodeMissing(id))
        }
    }

    /// The path of `id`.
    pub open spec fn path_from_id(self, id: RefPathId) -> Result<Seq<char>, LookupFailure> {
        if self.paths.contains_key(id) {
            Ok(self.paths[id])
        } else {
            Err(LookupFailure::RefPathMissingId(id))
        }
    }

    /// The id of `path`.
    pub open spec fn id_from_path(self, path: Seq<char>) -> Result<RefPathId, LookupFailure> {
        if self.path_ids.contains_key(path) {
            Ok(self.path_ids[path])
        } else {
            Err(LookupFailure::RefPathMissingPath(path))
        }
    }

    /// The id of the tree node that belongs to the ref-path id `id`.
    pub open spec fn tree_node_id_from_ref_path_id(self, id: RefPathId) -> Result<
        TreeNodeId,
        LookupFailure,
    > {
        if self.node_ids.contains_key(id) {
            Ok(self.node_ids[id])
        } else {
            Err(LookupFailure::RefPathMissingId(id))
        }
    }

    /// The path of the tree node `id`: its node, then that node's path.
    pub open spec fn path_from_tree_node_id(self, id: TreeNodeId) -> Result<
        Seq<char>,
        LookupFailure,
    > {
        match self.tree_node_from_id(id) {
            Ok(node) => self.path_from_id(node.path),
            Err(e) => Err(e),
        }
    }

    /// The owned buffer of the tree node `id`: its node, then that node's
    /// owned data.
    pub open spec fn owned_data_from_tree_node_id(self, id: TreeNodeId) -> Result<
        Seq<char>,
        LookupFailure,
    > {
        match self.tree_node_from_id(id) {
            Ok(node) => self.owned_data_from_id(node.owned),
            Err(e) => Err(e),
        }
    }

    /// The id of the tree node of `path`: the path's id, then the tree-node
    /// id of that.
    pub open spec fn tree_node_id_from_path(self, path: Seq<char>) -> Result<
        TreeNodeId,
        LookupFailure,
    > {
        match self.id_from_path(path) {
            Ok(id) => self.tree_node_id_from_ref_path_id(id),
            Err(e) => Err(e),
        }
    }

    /// The tree node of `path`: the path's id, the tree-node id of that,
    /// then the node.
    pub open spec fn tree_node_from_path(self, path: Seq<char>) -> Result<NodeView, LookupFailure> {
        match self.tree_node_id_from_path(path) {
            Ok(id) => self.tree_node_from_id(id),
            Err(e) => Err(e),
        }
    }

    /// The owned buffer of `path`: the path's node, then that node's owned
    /// data.
    pub open spec fn owned_data_from_path(self, path: Seq<char>) -> Result<
        Seq<char>,
        LookupFailure,
    > {
        match self.tree_node_from_path(path) {
            Ok(node) => self.owned_data_from_id(node.owned),
            Err(e) => Err(e),
        }
    }
}

/// What a lookup of a buffer returned, as a mathematical value.
pub open spec fn buffer_outcome(r: LookupResult<&String>) -> Result<Seq<char>, LookupFailure> {
    match r {
        Ok(buffer) => Ok(buffer@),
        Err(e) => Err(e@),
    }
}

/// What a lookup of a path returned, as a mathematical value.
pub open spec fn path_outcome(r: LookupResult<&str>) -> Result<Seq<char>, LookupFailure> {
    match r {
        Ok(path) => Ok(path@),
        Err(e) => Err(e@),
    }
}

/// What a lookup of a node returned, as a mathematical value.
pub open spec fn node_outcome(r: LookupResult<&TreeNode>) -> Result<NodeView, LookupFailure> {
    match r {
        Ok(node) => Ok(node@),
        Err(e) => Err(e@),
    }
}

/// What a lookup of an id returned, as a mathematical value.
pub open spec fn id_outcome<T>(r: LookupResult<T>) -> Result<T, LookupFailure> {
    match r {
        Ok(id) => Ok(id),
        Err(e) => Err(e@),
    }
}

/// The lookups of a storage backend.
///
/// An implementor provides the five primitive lookups: the owned data of an
/// owned-data id, the tree node of a tree-node id, the path of a ref-path id,
/// the ref-path id of a path, and the tree-node id of a ref-path id. Each
/// returns what its table holds, or the error that names the id or the path
/// that is missing. The composite lookups chain the primitive ones and hand
/// on the first failure as it is.
pub trait FilesystemLookups {
    /// The tables that the lookups read.
    spec fn tables(&self) -> Tables;

    /// Whether the backend is in a valid state.
    spec fn valid(&self) -> bool;

    /// Gets the owned data from the specified id, returning an error if it
    /// is missing.
    fn get_owned_data_from_id<'a>(&'a self, id: OwnedDataId) -> (r: LookupResult<&'a String>)
        requires
            self.valid(),
        ensures
            buffer_outcome(r) == self.tables().owned_data_from_id(id),
    ;

    /// Gets the tree node from the specified id, returning an error if it is
    /// missing.
    fn get_tree_node_from_id<'a>(&'a self, id: TreeNodeId) -> (r: LookupResult<&'a TreeNode>)
        requires
            self.valid(),
        ensures
            node_outcome(r) == self.tables().tree_node_from_id(id),
    ;

    /// Gets the path from the specified id, returning an error if it is
    /// missing.
    fn get_path_from_id<'a>(&'a self, id: RefPathId) -> (r: LookupResult<&'a str>)
        requires
            self.valid(),
        ensures
            path_outcome(r) == self.tables().path_from_id(id),
    ;

    /// Gets the id from the specified path, returning an error if it is
    /// missing.
    fn get_id_from_path(&self, path: &str) -> (r: LookupResult<RefPathId>)
        requires
            self.valid(),
        ensures
            id_outcome(r) == self.tables().id_from_path(path@),
    ;

    /// Gets the tree node id from the path id, returning an error if it is
    /// missing.
    fn get_tree_node_id_from_ref_path_id(&self, id: RefPathId) -> (r: LookupResult<TreeNodeId>)
        requires
            self.valid(),
        ensures
            id_outcome(r) == self.tables().tree_node_id_from_ref_path_id(id),
    ;

    /// Gets the path from the specified tree node id.
    fn get_path_from_tree_node_id<'a>(&'a self, id: TreeNodeId) -> (r: LookupResult<&'a str>)
        requires
            self.valid(),
        ensures
            path_outcome(r) == self.tables().path_from_tree_node_id(id),
    {
        let node = self.get_tree_node_from_id(id)?;
        self.get_path_from_id(node.path())
    }

    /// Gets the owned data from the specified tree node id.
    fn get_owned_data_from_tree_node_id<'a>(&'a self, id: TreeNodeId) -> (r: LookupResult<
        &'a String,
    >)
        requires
            self.valid(),
        ensures
            buffer_outcome(r) == self.tables().owned_data_from_tree_node_id(id),
    {
        let node = self.get_tree_node_from_id(id)?;
        self.get_owned_data_from_id(node.owned())
    }

    /// Gets the tree node from the specified path.
    fn get_tree_node_from_path<'a>(&'a self, path: &str) -> (r: LookupResult<&'a TreeNode>)
        requires
            self.valid(),
        ensures
            node_outcome(r) == self.tables().tree_node_from_path(path@),
    {
        let id = self.get_id_from_path(path)?;
        let node = self.get_tree_node_id_from_ref_path_id(id)?;
        self.get_tree_node_from_id(node)
    }

    /// Gets the owned data from the specified path.
    fn get_owned_data_from_path<'a>(&'a self, path: &str) -> (r: LookupResult<&'a String>)
        requires
            self.valid(),
        ensures
            buffer_outcome(r) == self.tables().owned_data_from_path(path@),
    {
        let node = self.get_tree_node_from_path(path)?;
        self.get_owned_data_from_id(node.owned())
    }
}

impl Tables {
    /// Whether `later` resolves all that `self` resolves, to the same values:
    /// every buffer, path and id, and every node with its parent, its buffer,
    /// its path and each of its children.
    pub open spec fn kept_in(self, later: Tables) -> bool {
        &&& self.owned.submap_of(later.owned)
        &&& self.paths.submap_of(later.paths)
        &&& self.path_ids.submap_of(later.path_ids)
        &&& self.node_ids.submap_of(later.node_ids)
        &&& forall|k: TreeNodeId| #[trigger]
            self.nodes.contains_key(k) ==> later.nodes.contains_key(k) && later.nodes[k].parent
                == self.nodes[k].parent && later.nodes[k].owned == self.nodes[k].owned
                && later.nodes[k].path == self.nodes[k].path && self.nodes[k].children.subset_of(
                later.nodes[k].children,
            )
    }
}

/// What an insertion returned, as a mathematical value.
pub open spec fn insertion_outcome<T>(r: InsertionResult<T>) -> Result<T, InsertionFailure> {
    match r {
        Ok(value) => Ok(value),
        Err(e) => Err(e@),
    }
}

/// The insertion of a path into a storage backend.
///
/// The trait is sealed: only the backends of this crate implement it.
pub trait FilesystemInsertions: FilesystemLookups + Sealed {
    /// Inserts the path and those of its ancestors that are missing.
    ///
    /// The insertion is idempotent: a path that is already there is left
    /// alone and the call succeeds. Whatever the outcome, all that the
    /// backend resolved before it resolves afterwards to the same values.
    /// After a success the path resolves to an owned buffer that holds it.
    fn insert_path(&mut self, path: &str) -> (r: InsertionResult<()>)
        requires
            old(self).valid(),
        ensures
            final(self).valid(),
            old(self).tables().kept_in(final(self).tables()),
            old(self).tables().path_ids.contains_key(path@) ==> r is Ok && final(self).tables()
                == old(self).tables(),
            r is Ok ==> final(self).tables().owned_data_from_path(path@) == Ok::<
                Seq<char>,
                LookupFailure,
            >(path@),
            r matches Err(e) ==> !(e is PathExists),
    ;
}

} // verus!
