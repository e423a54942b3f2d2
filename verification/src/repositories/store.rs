//! The ordered map in stable memory that holds the stored forms of the
//! entries. Nothing here is proved: each contract states what the map of
//! `ic_stable_structures` does, as its source shows it.

use crate::text::{lex_le, lex_lt};
use vstd::prelude::*;

verus! {

/// A `BTreeMap` of `ic_stable_structures` from byte strings to the unit
/// value, in a virtual memory of its own: an ordered set of byte strings.
/// It orders its keys as `Vec<u8>` does, lexicographically.
#[verifier::external_body]
pub struct ZoneTree {
    tree: ic_stable_structures::BTreeMap<
        Vec<u8>,
        (),
        ic_stable_structures::memory_manager::VirtualMemory<
            ic_stable_structures::DefaultMemoryImpl,
        >,
    >,
}

/// The keys that the map holds.
pub uninterp spec fn stored_keys(tree: ZoneTree) -> Set<Seq<u8>>;

/// Whether `key` lies between `lower` and `upper`, both included.
pub open spec fn in_range(key: Seq<u8>, lower: Seq<u8>, upper: Seq<u8>) -> bool {
    lex_le(lower, key) && lex_le(key, upper)
}

/// `BTreeMap::new` of `ic_stable_structures`, on the memory with the id 1
/// of a `MemoryManager` over the `DefaultMemoryImpl`. The claim: the map
/// that `new` makes holds no key, whatever the memory held. Not claimed:
/// that the call returns where the memory holds a manager of a layout that
/// this version of the crate does not know.
#[verifier::external_body]
pub(crate) fn tree_new() -> (tree: ZoneTree)
    ensures
        stored_keys(tree) == Set::<Seq<u8>>::empty(),
{
    let manager = ic_stable_structures::memory_manager::MemoryManager::init(
        ic_stable_structures::DefaultMemoryImpl::default(),
    );
    ZoneTree {
        tree: ic_stable_structures::BTreeMap::new(
            manager.get(ic_stable_structures::memory_manager::MemoryId::new(1)),
        ),
    }
}

/// `BTreeMap::init` of `ic_stable_structures`, on the memory with the id 1
/// of a `MemoryManager` over the `DefaultMemoryImpl`. It loads the map that
/// the memory holds, or makes a new one where it holds none: nothing is
/// claimed of the keys, nor that the call returns where the memory holds a
/// layout that this version of the crate does not know.
#[verifier::external_body]
pub(crate) fn tree_init() -> (tree: ZoneTree) {
    let manager = ic_stable_structures::memory_manager::MemoryManager::init(
        ic_stable_structures::DefaultMemoryImpl::default(),
    );
    ZoneTree {
        tree: ic_stable_structures::BTreeMap::init(
            manager.get(ic_stable_structures::memory_manager::MemoryId::new(1)),
        ),
    }
}

/// `BTreeMap::contains_key` of `ic_stable_structures`. The claim: it says
/// whether the map holds the key.
#[verifier::external_body]
pub(crate) fn tree_contains(tree: &ZoneTree, key: &Vec<u8>) -> (found: bool)
    ensures
        found == stored_keys(*tree).contains(key@),
{
    tree.tree.contains_key(key)
}

/// `BTreeMap::insert` of `ic_stable_structures`. The claim: afterwards the
/// map holds the key besides the keys it held. As an allocation may, the
/// call fails to return where the memory cannot grow.
#[verifier::external_body]
pub(crate) fn tree_insert(tree: &mut ZoneTree, key: Vec<u8>)
    ensures
        stored_keys(*final(tree)) == stored_keys(*old(tree)).insert(key@),
{
    tree.tree.insert(key, ());
}

/// `BTreeMap::remove` of `ic_stable_structures`. The claim: it says whether
/// the map held the key, and afterwards the map holds the keys it held but
/// for this one.
#[verifier::external_body]
pub(crate) fn tree_remove(tree: &mut ZoneTree, key: &Vec<u8>) -> (removed: bool)
    ensures
        removed == stored_keys(*old(tree)).contains(key@),
        stored_keys(*final(tree)) == stored_keys(*old(tree)).remove(key@),
{
    tree.tree.remove(key).is_some()
}

/// `BTreeMap::range` of `ic_stable_structures`, with both bounds included.
/// The claim: it hands out the keys of the map that lie between the bounds,
/// each once, in ascending order.
#[verifier::external_body]
pub(crate) fn tree_range(tree: &ZoneTree, lower: &Vec<u8>, upper: &Vec<u8>) -> (keys: Vec<
    Vec<u8>,
>)
    ensures
        forall|i: int|
            0 <= i < keys@.len() ==> stored_keys(*tree).contains((#[trigger] keys@[i])@)
                && in_range(keys@[i]@, lower@, upper@),
        forall|i: int, j: int|
            0 <= i < j < keys@.len() ==> lex_lt((#[trigger] keys@[i])@, (#[trigger] keys@[j])@),
        forall|key: Seq<u8>|
            #[trigger] stored_keys(*tree).contains(key) && in_range(key, lower@, upper@)
                ==> exists|i: int| 0 <= i < keys@.len() && (#[trigger] keys@[i])@ == key,
{
    tree.tree.range(lower.clone()..=upper.clone()).map(|(key, _)| key).collect()
}

} // verus!
