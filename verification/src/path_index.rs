//! The two-way index between ids and paths: a `bimap::BiHashMap`, reached
//! through contracts that are taken from that crate's source and not proved
//! here.

use bimap::BiHashMap;
use vstd::prelude::*;

verus! {

#[verifier::external_type_specification]
#[verifier::external_body]
#[verifier::reject_recursive_types(L)]
#[verifier::reject_recursive_types(R)]
#[verifier::reject_recursive_types(LS)]
#[verifier::reject_recursive_types(RS)]
pub struct ExBiHashMap<L, R, LS, RS>(BiHashMap<L, R, LS, RS>);

/// The pairs that the index holds: each left value, an id, with the text of
/// the path that is its right value.
pub uninterp spec fn pairs(index: BiHashMap<u64, String>) -> Map<u64, Seq<char>>;

/// Whether some pair of `held` has `path` as its right value.
pub open spec fn holds_path(held: Map<u64, Seq<char>>, path: Seq<char>) -> bool {
    exists|id: u64| #[trigger] held.contains_key(id) && held[id] == path
}

/// The pairs of an index that holds nothing.
pub open spec fn no_pairs() -> Map<u64, Seq<char>> {
    Map::empty()
}

/// Whether `held` is a finite set of exactly `count` pairs.
pub open spec fn has_count(held: Map<u64, Seq<char>>, count: nat) -> bool {
    held.dom().finite() && held.dom().len() == count
}

/// `BiHashMap::new`: the new index holds no pair.
#[verifier::external_body]
pub(crate) fn empty_index() -> (index: BiHashMap<u64, String>)
    ensures
        pairs(index) == no_pairs(),
{
    BiHashMap::new()
}

/// `BiHashMap::len`: the number of pairs that the index holds, which is
/// finite.
#[verifier::external_body]
pub(crate) fn pair_count(index: &BiHashMap<u64, String>) -> (count: usize)
    ensures
        has_count(pairs(*index), count as nat),
{
    index.len()
}

/// `BiHashMap::get_by_left`: the path paired with `id`, or `None` where no
/// pair has `id` as its left value.
#[verifier::external_body]
pub(crate) fn path_by_id<'a>(index: &'a BiHashMap<u64, String>, id: u64) -> (found: Option<
    &'a String,
>)
    ensures
        match found {
            Some(path) => pairs(*index).contains_key(id) && pairs(*index)[id] == path@,
            None => !pairs(*index).contains_key(id),
        },
{
    index.get_by_left(&id)
}

/// `BiHashMap::get_by_right`: an id paired with `path`, or `None` where no
/// pair has `path` as its right value.
#[verifier::external_body]
pub(crate) fn id_by_path(index: &BiHashMap<u64, String>, path: &str) -> (found: Option<u64>)
    ensures
        match found {
            Some(id) => pairs(*index).contains_key(id) && pairs(*index)[id] == path@,
            None => !holds_path(pairs(*index), path@),
        },
{
    index.get_by_right(path).copied()
}

/// `BiHashMap::insert_no_overwrite`: where neither `id` nor `path` is in the
/// index, the pair is added and the result is `true`; where either is, the
/// index is left as it was and the result is `false`.
#[verifier::external_body]
pub(crate) fn add_pair(index: &mut BiHashMap<u64, String>, id: u64, path: String) -> (added: bool)
    ensures
        added == !(pairs(*old(index)).contains_key(id) || holds_path(pairs(*old(index)), path@)),
        added ==> pairs(*final(index)) == pairs(*old(index)).insert(id, path@),
        !added ==> pairs(*final(index)) == pairs(*old(index)),
{
    index.insert_no_overwrite(id, path).is_ok()
}

} // verus!
