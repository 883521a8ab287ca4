//! The reference backend: three stores keyed by packed ids, and one counter
//! of item ids for each tree.
//!
//! A backend hosts any number of trees. A path without a parent becomes the
//! root of a tree of its own, in the tree id that is selected at that moment;
//! every other path joins the tree of its parent. Roots are created when the
//! first path below them is inserted, never ahead of time. Within a tree the
//! item ids are handed out in order, from zero.

use bimap::BiHashMap;
use std::collections::HashMap;
use vstd::pervasive::unreached;
use vstd::prelude::*;

use crate::lookups::{
    insertion_outcome, FilesystemInsertions, FilesystemLookups, InsertionError, InsertionFailure,
    InsertionResult, LookupError, LookupFailure, LookupResult, Tables,
};
use crate::node::{NodeView, TreeNode};
use crate::path::{lemma_parent_is_shorter, parent, parent_of};
use crate::path_index::{add_pair, empty_index, holds_path, id_by_path, pair_count, pairs, path_by_id};
use crate::seal::Sealed;
use crate::state::{
    lemma_add_entry, lemma_fresh_id, lemma_id_of, lemma_insert, lemma_inserted_is_known,
    lemma_round_trip, lemma_tables_kept, FsState,
};
use crate::unique_id::{Id, OwnedDataId, RefPathId, TreeNodeId, ITEM_LIMIT, TREE_LIMIT};

verus! {

broadcast use vstd::std_specs::hash::group_hash_axioms;

/// A backend that keeps the owned path buffers and the tree nodes in hash
/// maps and the interned paths in a two-way map.
///
/// The interned paths are owned copies, so no borrowed view can outlive the
/// buffer that it was taken from.
pub struct BasicFilesystem {
    owned_data: HashMap<u64, String>,
    nodes: HashMap<u64, TreeNode>,
    paths: BiHashMap<u64, String>,
    next_items: HashMap<u64, u64>,
    tree_id: u64,
}

/// The owned buffers under their typed ids.
spec fn owned_of(stored: Map<u64, String>) -> Map<OwnedDataId, Seq<char>> {
    Map::new(|k: OwnedDataId| stored.contains_key(k.0.0), |k: OwnedDataId| stored[k.0.0]@)
}

/// The tree nodes under their typed ids.
spec fn nodes_of(stored: Map<u64, TreeNode>) -> Map<TreeNodeId, NodeView> {
    Map::new(|k: TreeNodeId| stored.contains_key(k.0.0), |k: TreeNodeId| stored[k.0.0]@)
}

/// The interned paths under their typed ids.
spec fn paths_of(stored: Map<u64, Seq<char>>) -> Map<RefPathId, Seq<char>> {
    Map::new(|k: RefPathId| stored.contains_key(k.0.0), |k: RefPathId| stored[k.0.0])
}

impl View for BasicFilesystem {
    type V = FsState;

    closed spec fn view(&self) -> FsState {
        FsState {
            owned: owned_of(self.owned_data@),
            nodes: nodes_of(self.nodes@),
            paths: paths_of(pairs(self.paths)),
            next_items: self.next_items@,
            tree: self.tree_id,
        }
    }
}

impl BasicFilesystem {
    /// Creates a backend that holds nothing. Its roots will be created in
    /// the tree `tree_id`, each when the first path below it is inserted.
    pub fn new(tree_id: u64) -> (fs: BasicFilesystem)
        ensures
            fs@ == FsState::empty(tree_id),
            fs.valid(),
    {
        let fs = BasicFilesystem {
            owned_data: HashMap::new(),
            nodes: HashMap::new(),
            paths: empty_index(),
            next_items: HashMap::new(),
            tree_id,
        };
        assert(fs@.owned =~= Map::empty());
        assert(fs@.nodes =~= Map::empty());
        assert(fs@.paths =~= Map::empty());
        fs
    }

    /// The tree id in which a new root is created.
    pub fn tree_id(&self) -> (tree_id: u64)
        ensures
            tree_id == self@.tree,
    {
        self.tree_id
    }

    /// Makes `tree_id` the tree in which a new root is created. What the
    /// backend holds stays as it is.
    pub fn select_tree(&mut self, tree_id: u64)
        requires
            old(self).valid(),
        ensures
            final(self).valid(),
            final(self)@ == (FsState { tree: tree_id, ..old(self)@ }),
    {
        self.tree_id = tree_id;
    }
}

impl FilesystemLookups for BasicFilesystem {
    open spec fn tables(&self) -> Tables {
        self@.tables()
    }

    open spec fn valid(&self) -> bool {
        self@.valid()
    }

    fn get_owned_data_from_id<'a>(&'a self, id: OwnedDataId) -> (r: LookupResult<&'a String>) {
        let raw: u64 = id.0.0;
        match self.owned_data.get(&raw) {
            Some(buffer) => Ok(buffer),
            None => Err(LookupError::OwnedDataMissing(id)),
        }
    }

    fn get_tree_node_from_id<'a>(&'a self, id: TreeNodeId) -> (r: LookupResult<&'a TreeNode>) {
        let raw: u64 = id.0.0;
        match self.nodes.get(&raw) {
            Some(node) => Ok(node),
            None => Err(LookupError::TreeNodeMissing(id)),
        }
    }

    fn get_path_from_id<'a>(&'a self, id: RefPathId) -> (r: LookupResult<&'a str>) {
        let raw: u64 = id.0.0;
        match path_by_id(&self.paths, raw) {
            Some(path) => Ok(path.as_str()),
            None => Err(LookupError::RefPathMissingId(id)),
        }
    }

    fn get_id_from_path(&self, path: &str) -> (r: LookupResult<RefPathId>) {
        match id_by_path(&self.paths, path) {
            Some(raw) => {
                proof {
                    lemma_id_of(self@, RefPathId(Id(raw)));
                }
                Ok(RefPathId(Id(raw)))
            },
            None => {
                proof {
                    self.lemma_unknown(path@);
                }
                Err(LookupError::RefPathMissingPath(path.to_owned()))
            },
        }
    }

    fn get_tree_node_id_from_ref_path_id(&self, id: RefPathId) -> (r: LookupResult<TreeNodeId>) {
        let raw: u64 = id.0.0;
        match path_by_id(&self.paths, raw) {
            Some(_) => Ok(TreeNodeId(id.0)),
            None => Err(LookupError::RefPathMissingId(id)),
        }
    }
}

impl BasicFilesystem {
    /// A path that the index does not hold was not inserted.
    proof fn lemma_unknown(&self, path: Seq<char>)
        requires
            !holds_path(pairs(self.paths), path),
        ensures
            !self@.knows(path),
    {
        if self@.knows(path) {
            let id = self@.id_of(path);
            assert(pairs(self.paths).contains_key(id.0.0));
        }
    }
}

impl BasicFilesystem {
    /// Creates the entry of `path` in `tree`, below `above` or as a root, or
    /// fails where `tree` has no item id left.
    fn add_entry(&mut self, tree: u64, above: Option<TreeNodeId>, path: &str) -> (r:
        InsertionResult<TreeNodeId>)
        requires
            old(self)@.valid(),
            !old(self)@.knows(path@),
            match above {
                Some(p) => old(self)@.nodes.contains_key(p) && parent(path@) == Some(
                    old(self)@.paths[RefPathId(p.0)],
                ) && p.0.tree() == tree,
                None => parent(path@) is None,
            },
        ensures
            (final(self)@, insertion_outcome(r)) == old(self)@.grow(tree, above, path@),
            final(self)@.valid(),
    {
        let next: u64 = match self.next_items.get(&tree) {
            Some(n) => *n,
            None => 0,
        };
        if tree >= TREE_LIMIT || next >= ITEM_LIMIT {
            return Err(InsertionError::IdsExhausted(tree));
        }
        let ghost before = self@;
        proof {
            lemma_fresh_id(before, tree);
            lemma_add_entry(before, tree, above, path@);
        }
        let id = Id::new(tree, next);
        let raw: u64 = id.0;
        let node_id = TreeNodeId(id);
        self.next_items.insert(tree, next + 1);
        self.owned_data.insert(raw, path.to_owned());
        let interned = add_pair(&mut self.paths, raw, path.to_owned());
        assert(interned) by {
            assert(!before.paths.contains_key(RefPathId(id)));
            if holds_path(pairs(old(self).paths), path@) {
                let held = choose|k: u64| #[trigger]
                    pairs(old(self).paths).contains_key(k) && pairs(old(self).paths)[k] == path@;
                assert(before.paths.contains_key(RefPathId(Id(held))));
            }
        }
        if !interned {
            // The id is new and the path was not interned: the index took the pair.
            unreached::<()>();
        }
        match above {
            Some(p) => {
                let above_raw: u64 = p.0.0;
                let mut above_node = self.nodes.remove(&above_raw).unwrap();
                match above_node.insert_child(node_id) {
                    Ok(()) => {},
                    // The node is new, so its parent cannot hold it yet.
                    Err(_) => unreached::<()>(),
                }
                self.nodes.insert(above_raw, above_node);
                self.nodes.insert(raw, TreeNode::new(p, OwnedDataId(id), RefPathId(id)));
            },
            None => {
                self.nodes.insert(raw, TreeNode::new(node_id, OwnedDataId(id), RefPathId(id)));
            },
        }
        proof {
            let after = before.add_entry(tree, above, path@);
            assert(self@.owned =~= after.owned);
            assert(self@.paths =~= after.paths);
            assert(self@.nodes =~= after.nodes);
            assert(self@.next_items =~= after.next_items);
        }
        Ok(node_id)
    }

    /// Returns the tree node of `path`, after inserting the path and those of
    /// its ancestors that are missing, ancestors first.
    fn ensure_path(&mut self, path: &str) -> (r: InsertionResult<TreeNodeId>)
        requires
            old(self)@.valid(),
        ensures
            (final(self)@, insertion_outcome(r)) == old(self)@.insert(path@),
            final(self)@.valid(),
        decreases path@.len(),
    {
        match id_by_path(&self.paths, path) {
            Some(raw) => {
                proof {
                    lemma_id_of(self@, RefPathId(Id(raw)));
                }
                Ok(TreeNodeId(Id(raw)))
            },
            None => {
                proof {
                    self.lemma_unknown(path@);
                    lemma_parent_is_shorter(path@);
                    lemma_insert(self@, path@);
                }
                match parent_of(path) {
                    None => {
                        let tree = self.tree_id;
                        self.add_entry(tree, None, path)
                    },
                    Some(q) => {
                        proof {
                            lemma_insert(self@, q@);
                        }
                        match self.ensure_path(q) {
                            Ok(above) => self.add_entry(above.0.get_tree_id(), Some(above), path),
                            Err(e) => Err(e),
                        }
                    },
                }
            },
        }
    }

    /// Inserts a path that is not there yet, with those of its ancestors that
    /// are missing, and returns the id of its tree node.
    ///
    /// A path that was inserted before is refused with `PathExists`, and the
    /// backend is left as it was.
    pub fn insert_new_path(&mut self, path: &str) -> (r: InsertionResult<TreeNodeId>)
        requires
            old(self).valid(),
        ensures
            final(self).valid(),
            old(self)@.knows(path@) ==> final(self)@ == old(self)@ && insertion_outcome(r) == Err::<
                TreeNodeId,
                InsertionFailure,
            >(InsertionFailure::PathExists(path@)),
            !old(self)@.knows(path@) ==> (final(self)@, insertion_outcome(r)) == old(self)@.insert(
                path@,
            ),
            old(self).tables().kept_in(final(self).tables()),
            r matches Ok(node) ==> {
                &&& final(self).tables().tree_node_id_from_path(path@) == Ok::<
                    TreeNodeId,
                    LookupFailure,
                >(node)
                &&& final(self).tables().tree_node_from_id(node) is Ok
                &&& final(self).tables().path_from_tree_node_id(node) == Ok::<
                    Seq<char>,
                    LookupFailure,
                >(path@)
                &&& final(self).tables().owned_data_from_tree_node_id(node) == Ok::<
                    Seq<char>,
                    LookupFailure,
                >(path@)
            },
    {
        match id_by_path(&self.paths, path) {
            Some(raw) => {
                proof {
                    lemma_id_of(self@, RefPathId(Id(raw)));
                    lemma_tables_kept(self@, self@);
                }
                Err(InsertionError::PathExists(path.to_owned()))
            },
            None => {
                proof {
                    let s = self@;
                    self.lemma_unknown(path@);
                    lemma_insert(s, path@);
                    lemma_tables_kept(s, s.insert(path@).0);
                    if s.insert(path@).1 is Ok {
                        lemma_inserted_is_known(s, path@);
                        lemma_round_trip(s.insert(path@).0, path@);
                    }
                }
                self.ensure_path(path)
            },
        }
    }

    /// The number of tree nodes.
    pub fn node_count(&self) -> (count: usize)
        ensures
            self@.nodes.dom().finite(),
            count == self@.nodes.dom().len(),
    {
        proof {
            lemma_same_size(self.nodes@.dom(), self@.nodes.dom(), |raw: u64| TreeNodeId(Id(raw)));
        }
        self.nodes.len()
    }

    /// The number of owned path buffers.
    pub fn owned_data_count(&self) -> (count: usize)
        ensures
            self@.owned.dom().finite(),
            count == self@.owned.dom().len(),
    {
        proof {
            lemma_same_size(
                self.owned_data@.dom(),
                self@.owned.dom(),
                |raw: u64| OwnedDataId(Id(raw)),
            );
        }
        self.owned_data.len()
    }

    /// The number of interned paths.
    pub fn ref_path_count(&self) -> (count: usize)
        ensures
            self@.paths.dom().finite(),
            count == self@.paths.dom().len(),
    {
        let count = pair_count(&self.paths);
        proof {
            lemma_same_size(
                pairs(self.paths).dom(),
                self@.paths.dom(),
                |raw: u64| RefPathId(Id(raw)),
            );
        }
        count
    }
}

/// Two sets that a one-to-one function maps onto each other have one size.
proof fn lemma_same_size<A, B>(from: Set<A>, to: Set<B>, f: spec_fn(A) -> B)
    requires
        from.finite(),
        forall|a: A| #[trigger] from.contains(a) ==> to.contains(f(a)),
        forall|b: B| #[trigger] to.contains(b) ==> exists|a: A| from.contains(a) && f(a) == b,
        forall|a1: A, a2: A| #[trigger] f(a1) == #[trigger] f(a2) ==> a1 == a2,
    ensures
        to.finite(),
        to.len() == from.len(),
{
    assert(to =~= from.map(f));
    from.lemma_map_finite(f);
    vstd::set_lib::lemma_map_size(from, to, f);
}

impl Sealed for BasicFilesystem {

}

impl FilesystemInsertions for BasicFilesystem {
    fn insert_path(&mut self, path: &str) -> (r: InsertionResult<()>)
        ensures
            final(self)@ == old(self)@.insert(path@).0,
            match r {
                Ok(()) => old(self)@.insert(path@).1 is Ok,
                Err(e) => old(self)@.insert(path@).1 == Err::<TreeNodeId, InsertionFailure>(e@),
            },
    {
        proof {
            let s = self@;
            lemma_insert(s, path@);
            lemma_tables_kept(s, s.insert(path@).0);
            if s.insert(path@).1 is Ok {
                lemma_id_of(s.insert(path@).0, RefPathId(s.insert(path@).1->Ok_0.0));
                lemma_round_trip(s.insert(path@).0, path@);
            }
        }
        match self.ensure_path(path) {
            Ok(_) => Ok(()),
            Err(e) => Err(e),
        }
    }
}

} // verus!
