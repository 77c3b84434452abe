//! The arena that holds the nodes of a tree, and what is taken on trust of
//! it.

use slotmap::{DefaultKey, SlotMap};
use vstd::prelude::*;
use crate::vfs::nodes::{VirtualNode, VirtualNodeData};

verus! {

/// Key of a slot map: an opaque handle that is compared as a whole.
#[verifier::external_type_specification]
#[verifier::external_body]
pub struct ExDefaultKey(DefaultKey);

/// `clone` of a key, which is a copy of it: the key type derives `Copy`.
pub assume_specification[ <DefaultKey as Clone>::clone ](key: &DefaultKey) -> (copy: DefaultKey)
    ensures
        copy == *key,
;

/// A slot map of nodes. Nothing of its layout is visible here: it is
/// spoken of through `arena_nodes`.
#[verifier::external_body]
pub struct Arena {
    slots: SlotMap<DefaultKey, VirtualNode>,
}

/// The nodes that an arena holds, by key.
pub uninterp spec fn arena_nodes(arena: Arena) -> Map<DefaultKey, VirtualNode>;

/// The node that an insertion stores under a fresh key.
pub open spec fn placed(key: DefaultKey, data: VirtualNodeData, parent: Option<DefaultKey>)
    -> VirtualNode {
    VirtualNode { id: key, parent, children: None, data }
}

/// The node stored under `key`: it knows its key and, if any, its parent.
pub fn place(key: DefaultKey, data: VirtualNodeData, parent: Option<DefaultKey>) -> (node:
    VirtualNode)
    ensures
        node == placed(key, data, parent),
{
    match parent {
        Some(p) => VirtualNode::new(key, data).parent(p),
        None => VirtualNode::new(key, data),
    }
}

/// `SlotMap::new`: a map without elements.
#[verifier::external_body]
pub(crate) fn arena_new() -> (made: Arena)
    ensures
        arena_nodes(made).dom() == Set::<DefaultKey>::empty(),
{
    Arena { slots: SlotMap::new() }
}

/// `SlotMap::len`: the number of elements, which the map counts in a
/// `u32`.
#[verifier::external_body]
pub(crate) fn arena_len(arena: &Arena) -> (count: usize)
    ensures
        count == arena_nodes(*arena).len(),
        count <= u32::MAX,
{
    arena.slots.len()
}

/// `SlotMap::insert_with_key`: stores the value that the closure makes
/// from the new key, and returns that key. The key belongs to no element
/// held before. The call panics only when the map is full, which it is not
/// below `u32::MAX - 1` elements.
#[verifier::external_body]
pub(crate) fn arena_insert(arena: &mut Arena, data: VirtualNodeData, parent: Option<DefaultKey>)
    -> (key: DefaultKey)
    requires
        arena_nodes(*old(arena)).dom().finite(),
        arena_nodes(*old(arena)).len() < u32::MAX - 1,
    ensures
        !arena_nodes(*old(arena)).contains_key(key),
        arena_nodes(*final(arena)) == arena_nodes(*old(arena)).insert(
            key,
            placed(key, data, parent),
        ),
{
    arena.slots.insert_with_key(|key| place(key, data, parent))
}

/// `SlotMap::remove`: takes the element under the key out of the map, if
/// the map holds one. No other element changes.
#[verifier::external_body]
pub(crate) fn arena_remove(arena: &mut Arena, key: DefaultKey) -> (node: Option<VirtualNode>)
    ensures
        node == if arena_nodes(*old(arena)).contains_key(key) {
            Some(arena_nodes(*old(arena))[key])
        } else {
            None
        },
        arena_nodes(*final(arena)) == arena_nodes(*old(arena)).remove(key),
{
    arena.slots.remove(key)
}

/// `SlotMap::get`: the element under the key, if the map holds one.
#[verifier::external_body]
pub(crate) fn arena_get(arena: &Arena, key: DefaultKey) -> (node: Option<&VirtualNode>)
    ensures
        node is Some <==> arena_nodes(*arena).contains_key(key),
        node matches Some(n) ==> *n == arena_nodes(*arena)[key],
{
    arena.slots.get(key)
}

/// `SlotMap::get_mut`: the element under the key, to be changed in
/// place. No other element changes, and no key comes or goes.
#[verifier::external_body]
pub(crate) fn arena_get_mut(arena: &mut Arena, key: DefaultKey) -> (node: Option<&mut VirtualNode>)
    ensures
        node is Some <==> arena_nodes(*old(arena)).contains_key(key),
        node matches Some(n) ==> *n == arena_nodes(*old(arena))[key] && arena_nodes(*final(arena))
            == arena_nodes(*old(arena)).insert(key, *final(n)),
        node is None ==> arena_nodes(*final(arena)) == arena_nodes(*old(arena)),
{
    arena.slots.get_mut(key)
}

} // verus!
