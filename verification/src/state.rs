//! The state of a backend as a mathematical value, the insertion of a path
//! as a function on that value, and what holds of every valid state.

use vstd::prelude::*;

use crate::lookups::{InsertionFailure, LookupFailure, Tables};
use crate::node::NodeView;
use crate::path::{lemma_parent_is_shorter, parent};
use crate::unique_id::{
    lemma_same_tree_distinct_items, Id, OwnedDataId, RefPathId, TreeNodeId, ITEM_LIMIT, TREE_LIMIT,
};

verus! {

/// What a backend holds.
///
/// An entry is a path that was inserted. It has one packed id, and under that
/// id a tree node, an owned buffer and an interned path. The owned buffer is
/// the canonical storage of the full path; the interned path is the same full
/// path, kept for the lookup from a path to its id.
pub struct FsState {
    /// The owned path buffer of each entry.
    pub owned: Map<OwnedDataId, Seq<char>>,
    /// The tree node of each entry.
    pub nodes: Map<TreeNodeId, NodeView>,
    /// The interned path of each entry.
    pub paths: Map<RefPathId, Seq<char>>,
    /// For each tree id that has entries, the item id that its next entry
    /// gets. A tree id without entries starts at zero.
    pub next_items: Map<u64, u64>,
    /// The tree id in which a new root is created.
    pub tree: u64,
}

impl FsState {
    /// The state of a backend that holds nothing and creates its roots in
    /// `tree`.
    pub open spec fn empty(tree: u64) -> FsState {
        FsState {
            owned: Map::empty(),
            nodes: Map::empty(),
            paths: Map::empty(),
            next_items: Map::empty(),
            tree,
        }
    }

    /// Whether `path` was inserted.
    pub open spec fn knows(self, path: Seq<char>) -> bool {
        exists|id: RefPathId| #[trigger] self.paths.contains_key(id) && self.paths[id] == path
    }

    /// The ref-path id of an inserted path.
    pub open spec fn id_of(self, path: Seq<char>) -> RefPathId {
        choose|id: RefPathId| #[trigger] self.paths.contains_key(id) && self.paths[id] == path
    }

    /// The tree-node id of an inserted path.
    pub open spec fn node_of(self, path: Seq<char>) -> TreeNodeId {
        TreeNodeId(self.id_of(path).0)
    }

    /// The item id that the next entry of `tree` gets.
    pub open spec fn next_item(self, tree: u64) -> u64 {
        if self.next_items.contains_key(tree) {
            self.next_items[tree]
        } else {
            0
        }
    }

    /// Whether `tree` is a tree id that fits its field and has an item id
    /// left.
    pub open spec fn has_room(self, tree: u64) -> bool {
        tree < TREE_LIMIT && self.next_item(tree) < ITEM_LIMIT
    }

    /// The tables that the lookups read.
    pub open spec fn tables(self) -> Tables {
        Tables {
            owned: self.owned,
            nodes: self.nodes,
            paths: self.paths,
            path_ids: Map::new(|path: Seq<char>| self.knows(path), |path: Seq<char>| self.id_of(path)),
            node_ids: Map::new(
                |id: RefPathId| self.paths.contains_key(id),
                |id: RefPathId| TreeNodeId(id.0),
            ),
        }
    }

    /// What holds of the entry with the tree node `k`: its buffer and its
    /// path stand under the same packed id and hold the same text, the node
    /// points at both, its parent is an entry of the same tree and stands for
    /// the parent of the entry's path (a root is its own parent), and its item
    /// id was handed out by its tree's counter.
    pub open spec fn entry_valid(self, k: TreeNodeId) -> bool {
        let node = self.nodes[k];
        &&& self.paths.contains_key(RefPathId(k.0))
        &&& self.owned.contains_key(OwnedDataId(k.0))
        &&& self.owned[OwnedDataId(k.0)] == self.paths[RefPathId(k.0)]
        &&& node.owned == OwnedDataId(k.0)
        &&& node.path == RefPathId(k.0)
        &&& self.nodes.contains_key(node.parent)
        &&& node.parent.0.tree() == k.0.tree()
        &&& match parent(self.paths[RefPathId(k.0)]) {
            None => node.parent == k,
            Some(q) => self.paths[RefPathId(node.parent.0)] == q,
        }
        &&& k.0.item() < self.next_item(k.0.tree())
    }

    /// Whether the state is one that insertions can lead to.
    pub open spec fn valid(self) -> bool {
        &&& forall|k: TreeNodeId| #[trigger] self.nodes.contains_key(k) ==> self.entry_valid(k)
        &&& forall|k: RefPathId| #[trigger]
            self.paths.contains_key(k) ==> self.nodes.contains_key(TreeNodeId(k.0))
        &&& forall|k: OwnedDataId| #[trigger]
            self.owned.contains_key(k) ==> self.nodes.contains_key(TreeNodeId(k.0))
        &&& forall|a: RefPathId, b: RefPathId|
            #[trigger] self.paths.contains_key(a) && #[trigger] self.paths.contains_key(b)
                && self.paths[a] == self.paths[b] ==> a == b
        &&& forall|p: TreeNodeId, c: TreeNodeId|
            self.nodes.contains_key(p) && #[trigger] self.nodes[p].children.contains(c) ==> c != p
                && self.nodes.contains_key(c) && self.nodes[c].parent == p
        &&& forall|c: TreeNodeId| #[trigger]
            self.nodes.contains_key(c) && self.nodes[c].parent != c
                ==> self.nodes[self.nodes[c].parent].children.contains(c)
        &&& forall|t: u64| #[trigger]
            self.next_items.contains_key(t) ==> t < TREE_LIMIT && self.next_items[t] <= ITEM_LIMIT
    }

    /// The id that the next entry of `tree` gets.
    pub open spec fn fresh_id(self, tree: u64) -> Id {
        Id::pack(tree, self.next_item(tree))
    }

    /// The state with a new entry for `path` in `tree`, below `above` or,
    /// where that is `None`, as a root.
    pub open spec fn add_entry(self, tree: u64, above: Option<TreeNodeId>, path: Seq<char>) -> FsState {
        let id = self.fresh_id(tree);
        let node = NodeView {
            parent: match above {
                Some(p) => p,
                None => TreeNodeId(id),
            },
            owned: OwnedDataId(id),
            path: RefPathId(id),
            children: Set::empty(),
        };
        let linked = match above {
            Some(p) => self.nodes.insert(p, self.nodes[p].with_child(TreeNodeId(id))),
            None => self.nodes,
        };
        FsState {
            owned: self.owned.insert(OwnedDataId(id), path),
            nodes: linked.insert(TreeNodeId(id), node),
            paths: self.paths.insert(RefPathId(id), path),
            next_items: self.next_items.insert(tree, (self.next_item(tree) + 1) as u64),
            tree: self.tree,
        }
    }

    /// Adds an entry for `path` where `tree` has room for one; the state is
    /// left as it is where it has none.
    pub open spec fn grow(self, tree: u64, above: Option<TreeNodeId>, path: Seq<char>) -> (
        FsState,
        Result<TreeNodeId, InsertionFailure>,
    ) {
        if self.has_room(tree) {
            (self.add_entry(tree, above, path), Ok(TreeNodeId(self.fresh_id(tree))))
        } else {
            (self, Err(InsertionFailure::IdsExhausted(tree)))
        }
    }

    /// The insertion of `path`: the state after it, and the tree node of
    /// `path` or the reason why there is none.
    ///
    /// A path that was inserted before changes nothing. Otherwise the parent
    /// of the path is inserted first, and the new entry is created below the
    /// parent's node, in the parent's tree. A path without a parent becomes a
    /// root in the tree `self.tree`. Where a tree has no item id left the
    /// insertion stops; the ancestors that were inserted until then stay.
    pub open spec fn insert(self, path: Seq<char>) -> (FsState, Result<TreeNodeId, InsertionFailure>)
        decreases path.len(),
    {
        if self.knows(path) {
            (self, Ok(self.node_of(path)))
        } else {
            match parent(path) {
                None => self.grow(self.tree, None, path),
                Some(q) => {
                    proof {
                        lemma_parent_is_shorter(path);
                    }
                    let (reached, above) = self.insert(q);
                    match above {
                        Ok(p) => reached.grow(p.0.tree(), Some(p), path),
                        Err(e) => (reached, Err(e)),
                    }
                },
            }
        }
    }

    /// Whether `later` holds all that `self` holds: every buffer and path
    /// under its id, every node with its parent, its buffer and its path, and
    /// every child of every node.
    pub open spec fn kept_in(self, later: FsState) -> bool {
        &&& forall|k: OwnedDataId| #[trigger]
            self.owned.contains_key(k) ==> later.owned.contains_key(k) && later.owned[k]
                == self.owned[k]
        &&& forall|k: RefPathId| #[trigger]
            self.paths.contains_key(k) ==> later.paths.contains_key(k) && later.paths[k]
                == self.paths[k]
        &&& forall|k: TreeNodeId| #[trigger]
            self.nodes.contains_key(k) ==> later.nodes.contains_key(k) && later.nodes[k].parent
                == self.nodes[k].parent && later.nodes[k].owned == self.nodes[k].owned
                && later.nodes[k].path == self.nodes[k].path && self.nodes[k].children.subset_of(
                later.nodes[k].children,
            )
        &&& forall|t: u64| self.next_item(t) <= #[trigger] later.next_item(t)
        &&& later.tree == self.tree
    }
}

/// In a valid state an inserted path has one id: the id under which it is
/// interned.
pub proof fn lemma_id_of(s: FsState, id: RefPathId)
    requires
        s.valid(),
        s.paths.contains_key(id),
    ensures
        s.knows(s.paths[id]),
        s.id_of(s.paths[id]) == id,
        s.node_of(s.paths[id]) == TreeNodeId(id.0),
{
}

/// What `add_entry` needs: the path is new, the tree has room, and `above`
/// is the node of the path's parent, in `tree`, or `None` where the path has
/// no parent.
pub open spec fn can_add(s: FsState, tree: u64, above: Option<TreeNodeId>, path: Seq<char>) -> bool {
    &&& s.valid()
    &&& !s.knows(path)
    &&& s.has_room(tree)
    &&& match above {
        Some(p) => s.nodes.contains_key(p) && parent(path) == Some(s.paths[RefPathId(p.0)])
            && p.0.tree() == tree,
        None => parent(path) is None,
    }
}

/// The id of a new entry is not in use.
pub proof fn lemma_fresh_id(s: FsState, tree: u64)
    requires
        s.valid(),
        s.has_room(tree),
    ensures
        s.fresh_id(tree).tree() == tree,
        s.fresh_id(tree).item() == s.next_item(tree),
        !s.nodes.contains_key(TreeNodeId(s.fresh_id(tree))),
        !s.paths.contains_key(RefPathId(s.fresh_id(tree))),
        !s.owned.contains_key(OwnedDataId(s.fresh_id(tree))),
{
    let id = s.fresh_id(tree);
    if s.nodes.contains_key(TreeNodeId(id)) {
        assert(s.entry_valid(TreeNodeId(id)));
    }
}

/// A new entry leaves the state valid and keeps all that it held.
pub proof fn lemma_add_entry(s: FsState, tree: u64, above: Option<TreeNodeId>, path: Seq<char>)
    requires
        can_add(s, tree, above, path),
    ensures
        s.add_entry(tree, above, path).valid(),
        s.kept_in(s.add_entry(tree, above, path)),
{
    lemma_fresh_id(s, tree);
}

/// An insertion leaves a valid state valid and keeps all that it held. What
/// it adds are the path and ancestors of the path, so nothing longer than the
/// path. Where it succeeds, the path is interned under the id of the node
/// that is returned; where it fails, a tree has no item id left and the path
/// is not inserted. A path that was inserted before changes nothing.
pub proof fn lemma_insert(s: FsState, path: Seq<char>)
    requires
        s.valid(),
    ensures
        s.insert(path).0.valid(),
        s.kept_in(s.insert(path).0),
        forall|k: RefPathId| #[trigger]
            s.insert(path).0.paths.contains_key(k) && !s.paths.contains_key(k) ==> s.insert(
                path,
            ).0.paths[k].len() <= path.len(),
        match s.insert(path).1 {
            Ok(node) => s.insert(path).0.paths.contains_key(RefPathId(node.0)) && s.insert(
                path,
            ).0.paths[RefPathId(node.0)] == path,
            Err(e) => (exists|tree: u64| e == InsertionFailure::IdsExhausted(tree)) && !s.insert(
                path,
            ).0.knows(path),
        },
        s.knows(path) ==> s.insert(path) == (s, Ok::<TreeNodeId, InsertionFailure>(s.node_of(path))),
    decreases path.len(),
{
    if s.knows(path) {
        lemma_id_of(s, s.id_of(path));
    } else {
        match parent(path) {
            None => {
                if s.has_room(s.tree) {
                    lemma_add_entry(s, s.tree, None, path);
                }
            },
            Some(q) => {
                lemma_parent_is_shorter(path);
                lemma_insert(s, q);
                let (reached, above) = s.insert(q);
                assert(!reached.knows(path)) by {
                    if reached.knows(path) {
                        let k = reached.id_of(path);
                        assert(reached.paths.contains_key(k));
                        assert(!s.paths.contains_key(k));
                    }
                }
                match above {
                    Ok(p) => {
                        if reached.has_room(p.0.tree()) {
                            lemma_add_entry(reached, p.0.tree(), Some(p), path);
                        }
                    },
                    Err(e) => {},
                }
            },
        }
    }
}

/// Inserting a path a second time changes nothing and gives the result of the
/// first time: the same node where the first insertion succeeded, and with it
/// the same buffer and the same ref-path id, and no second node.
pub proof fn lemma_insert_twice(s: FsState, path: Seq<char>)
    requires
        s.valid(),
    ensures
        s.insert(path).0.insert(path) == s.insert(path),
    decreases path.len(),
{
    lemma_insert(s, path);
    let (t, r) = s.insert(path);
    match r {
        Ok(node) => {
            lemma_id_of(t, RefPathId(node.0));
            lemma_insert(t, path);
        },
        Err(e) => {
            if let Some(q) = parent(path) {
                lemma_parent_is_shorter(path);
                lemma_insert(s, q);
                lemma_insert_twice(s, q);
            }
        },
    }
}

/// The node of an inserted path has the node of the path's parent as its
/// parent, that node is itself inserted, and its children hold the node of
/// the path. A path without a parent is a root: its node is its own parent
/// and is no child of itself.
pub proof fn lemma_parent_before_child(s: FsState, path: Seq<char>)
    requires
        s.valid(),
        s.knows(path),
    ensures
        s.nodes.contains_key(s.node_of(path)),
        match parent(path) {
            Some(q) => {
                &&& s.knows(q)
                &&& s.nodes.contains_key(s.node_of(q))
                &&& s.nodes[s.node_of(path)].parent == s.node_of(q)
                &&& s.nodes[s.node_of(q)].children.contains(s.node_of(path))
            },
            None => {
                &&& s.nodes[s.node_of(path)].parent == s.node_of(path)
                &&& !s.nodes[s.node_of(path)].children.contains(s.node_of(path))
            },
        },
{
    let node = s.node_of(path);
    lemma_id_of(s, s.id_of(path));
    assert(s.entry_valid(node));
    if parent(path) is Some {
        lemma_parent_is_shorter(path);
        lemma_id_of(s, RefPathId(s.nodes[node].parent.0));
    }
}

/// The path of a successful insertion is known afterwards, with its parent
/// linked above it.
pub proof fn lemma_inserted_is_known(s: FsState, path: Seq<char>)
    requires
        s.valid(),
        s.insert(path).1 is Ok,
    ensures
        s.insert(path).0.valid(),
        s.insert(path).0.knows(path),
        s.insert(path).0.node_of(path) == s.insert(path).1->Ok_0,
{
    lemma_insert(s, path);
    lemma_id_of(s.insert(path).0, RefPathId(s.insert(path).1->Ok_0.0));
}

/// After a successful insertion of a path that has a parent, the parent is
/// inserted too, the node of the path has the node of the parent as its
/// parent, and the children of the parent's node hold the node of the path.
pub proof fn lemma_insert_links_parent(s: FsState, path: Seq<char>)
    requires
        s.valid(),
        s.insert(path).1 is Ok,
        parent(path) is Some,
    ensures
        s.insert(path).0.knows(parent(path)->Some_0),
        s.insert(path).0.nodes.contains_key(s.insert(path).0.node_of(parent(path)->Some_0)),
        s.insert(path).0.nodes[s.insert(path).1->Ok_0].parent == s.insert(path).0.node_of(
            parent(path)->Some_0,
        ),
        s.insert(path).0.nodes[s.insert(path).0.node_of(parent(path)->Some_0)].children.contains(
            s.insert(path).1->Ok_0,
        ),
{
    lemma_inserted_is_known(s, path);
    lemma_parent_before_child(s.insert(path).0, path);
}

/// Every lookup that starts from an inserted path arrives: the path's id is
/// the id under which the path is interned, the tree node reached through
/// that id is the node reached by the node's own id, and the node's path and
/// owned buffer are the text that was inserted.
pub proof fn lemma_round_trip(s: FsState, path: Seq<char>)
    requires
        s.valid(),
        s.knows(path),
    ensures
        s.tables().id_from_path(path) == Ok::<RefPathId, LookupFailure>(s.id_of(path)),
        s.tables().path_from_id(s.id_of(path)) == Ok::<Seq<char>, LookupFailure>(path),
        s.tables().tree_node_id_from_ref_path_id(s.id_of(path)) == Ok::<TreeNodeId, LookupFailure>(
            s.node_of(path),
        ),
        s.tables().tree_node_from_path(path) == s.tables().tree_node_from_id(s.node_of(path)),
        s.tables().tree_node_from_path(path) is Ok,
        s.tables().path_from_tree_node_id(s.node_of(path)) == Ok::<Seq<char>, LookupFailure>(path),
        s.tables().owned_data_from_tree_node_id(s.node_of(path)) == Ok::<Seq<char>, LookupFailure>(
            path,
        ),
        s.tables().owned_data_from_path(path) == Ok::<Seq<char>, LookupFailure>(path),
{
    lemma_id_of(s, s.id_of(path));
    assert(s.entry_valid(s.node_of(path)));
}

/// Two different inserted paths have different ids, and where the two
/// entries belong to one tree their item ids differ.
pub proof fn lemma_ids_unique(s: FsState, first: Seq<char>, second: Seq<char>)
    requires
        s.valid(),
        s.knows(first),
        s.knows(second),
        first != second,
    ensures
        s.id_of(first) != s.id_of(second),
        s.node_of(first) != s.node_of(second),
        s.id_of(first).0.tree() == s.id_of(second).0.tree() ==> s.id_of(first).0.item()
            != s.id_of(second).0.item(),
{
    lemma_id_of(s, s.id_of(first));
    lemma_id_of(s, s.id_of(second));
    if s.id_of(first).0.tree() == s.id_of(second).0.tree() {
        lemma_same_tree_distinct_items(s.id_of(first).0, s.id_of(second).0);
    }
}

/// An id that no entry has resolves in no table: each lookup by that id
/// fails with the error that names it.
pub proof fn lemma_missing_id(s: FsState, id: Id)
    requires
        s.valid(),
        !s.nodes.contains_key(TreeNodeId(id)),
    ensures
        s.tables().tree_node_from_id(TreeNodeId(id)) == Err::<NodeView, LookupFailure>(
            LookupFailure::TreeNodeMissing(TreeNodeId(id)),
        ),
        s.tables().owned_data_from_id(OwnedDataId(id)) == Err::<Seq<char>, LookupFailure>(
            LookupFailure::OwnedDataMissing(OwnedDataId(id)),
        ),
        s.tables().path_from_id(RefPathId(id)) == Err::<Seq<char>, LookupFailure>(
            LookupFailure::RefPathMissingId(RefPathId(id)),
        ),
        s.tables().tree_node_id_from_ref_path_id(RefPathId(id)) == Err::<TreeNodeId, LookupFailure>(
            LookupFailure::RefPathMissingId(RefPathId(id)),
        ),
{
}

/// Where a valid state holds all that an earlier valid state held, its
/// tables resolve all that the earlier tables resolved.
pub proof fn lemma_tables_kept(s: FsState, t: FsState)
    requires
        s.valid(),
        t.valid(),
        s.kept_in(t),
    ensures
        s.tables().kept_in(t.tables()),
{
    assert forall|path: Seq<char>| #[trigger] s.tables().path_ids.contains_key(path) implies t.tables().path_ids.contains_key(path)
        && t.tables().path_ids[path] == s.tables().path_ids[path] by {
        lemma_id_of(t, s.id_of(path));
    }
}

} // verus!
