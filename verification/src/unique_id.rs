//! Identifiers: a tree id and an item id packed into one 64-bit value, and
//! three distinct identifier types over that packed value.

use vstd::prelude::*;

verus! {

/// Number of low bits that hold the item id.
pub const ITEM_BITS: u64 = 56;

/// One more than the largest item id: `2^56`.
pub const ITEM_LIMIT: u64 = 0x0100_0000_0000_0000;

/// Mask that selects the item id.
pub const ITEM_MASK: u64 = 0x00FF_FFFF_FFFF_FFFF;

/// One more than the largest tree id: `2^8`.
pub const TREE_LIMIT: u64 = 256;

/// A tree id in the high 8 bits and an item id in the low 56 bits.
///
/// A plain counter is used rather than a globally unique identifier: it needs
/// no randomness and no collision check. Keeping the pairs of tree id and item
/// id unique is the business of whoever allocates them.
#[derive(Debug, Copy, Clone, PartialEq, Eq, PartialOrd, Ord, Hash, Structural)]
pub struct Id(pub u64);

impl Id {
    /// The id that packs `tree_id` and `item_id`, each cut down to its field.
    pub open spec fn pack(tree_id: u64, item_id: u64) -> Id {
        Id(((tree_id % TREE_LIMIT) * ITEM_LIMIT + item_id % ITEM_LIMIT) as u64)
    }

    /// The tree id held in the high bits.
    pub open spec fn tree(self) -> u64 {
        self.0 / ITEM_LIMIT
    }

    /// The item id held in the low bits.
    pub open spec fn item(self) -> u64 {
        self.0 % ITEM_LIMIT
    }

    /// Creates an id from a tree id and an item id.
    ///
    /// A value too wide for its field loses its high bits: only a tree id
    /// below `TREE_LIMIT` and an item id below `ITEM_LIMIT` are read back
    /// as they were given.
    pub fn new(tree_id: u64, item_id: u64) -> (id: Id)
        ensures
            id == Id::pack(tree_id, item_id),
            id.tree() == tree_id % TREE_LIMIT,
            id.item() == item_id % ITEM_LIMIT,
    {
        let internal = (tree_id << ITEM_BITS) | (item_id & ITEM_MASK);
        assert(internal == ((tree_id % 256) * 0x0100_0000_0000_0000 + item_id
            % 0x0100_0000_0000_0000) as u64) by (bit_vector)
            requires
                internal == (tree_id << 56u64) | (item_id & 0x00FF_FFFF_FFFF_FFFFu64),
        ;
        Id(internal)
    }

    /// Gets the tree id from a given id.
    #[verifier::when_used_as_spec(tree)]
    pub fn get_tree_id(self) -> (tree_id: u64)
        ensures
            tree_id == self.tree(),
            tree_id < TREE_LIMIT,
    {
        let raw = self.0;
        assert(raw >> 56u64 == raw / 0x0100_0000_0000_0000) by (bit_vector);
        raw >> ITEM_BITS
    }

    /// Gets the item id from a given id.
    #[verifier::when_used_as_spec(item)]
    pub fn get_item_id(self) -> (item_id: u64)
        ensures
            item_id == self.item(),
            item_id < ITEM_LIMIT,
    {
        let raw = self.0;
        assert(raw & 0x00FF_FFFF_FFFF_FFFFu64 == raw % 0x0100_0000_0000_0000) by (bit_vector);
        raw & ITEM_MASK
    }
}

/// The id of a tree node.
#[derive(Debug, Copy, Clone, PartialEq, Eq, PartialOrd, Ord, Hash, Structural)]
pub struct TreeNodeId(pub Id);

/// The id of a piece of owned data.
#[derive(Debug, Copy, Clone, PartialEq, Eq, PartialOrd, Ord, Hash, Structural)]
pub struct OwnedDataId(pub Id);

/// The id of a reference path.
#[derive(Debug, Copy, Clone, PartialEq, Eq, PartialOrd, Ord, Hash, Structural)]
pub struct RefPathId(pub Id);

/// Packing a tree id and an item id that fit their fields, then reading the
/// two fields, gives both back.
pub proof fn lemma_pack_then_read(tree_id: u64, item_id: u64)
    requires
        tree_id < TREE_LIMIT,
        item_id < ITEM_LIMIT,
    ensures
        Id::pack(tree_id, item_id).tree() == tree_id,
        Id::pack(tree_id, item_id).item() == item_id,
{
}

/// Every id is the packing of its own two fields.
pub proof fn lemma_read_then_pack(id: Id)
    ensures
        id.tree() < TREE_LIMIT,
        id.item() < ITEM_LIMIT,
        Id::pack(id.tree(), id.item()) == id,
{
}

/// Two different ids of one tree differ in their item id.
pub proof fn lemma_same_tree_distinct_items(a: Id, b: Id)
    requires
        a != b,
        a.tree() == b.tree(),
    ensures
        a.item() != b.item(),
{
    lemma_read_then_pack(a);
    lemma_read_then_pack(b);
}

} // verus!
