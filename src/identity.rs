//! Generation-scoped node identifiers.
//!
//! An identifier packs the owning structure's handle into the high 64 bits,
//! the tree generation into bits 48 to 63 and the item index into the low 32
//! bits of a 128-bit integer.
use vstd::prelude::*;

verus! {

/// A reference to a UI item: the handle of its owning structure and its
/// index within that structure.
#[derive(PartialEq, Eq, Structural, Clone, Copy, Debug)]
pub struct ItemRef {
    pub component: u64,
    pub index: u32,
}

/// An opaque identifier of a node of the accessibility tree.
#[derive(PartialEq, Eq, Structural, Clone, Copy, Debug)]
pub struct NodeId {
    pub value: u128,
}

/// The packed value of an identifier.
pub open spec fn packed(component: u64, generation: u16, index: u32) -> u128 {
    ((component as u128) << 64u128) | ((generation as u128) << 48u128) | (index as u128)
}

/// The owning-structure handle stored in a packed value.
pub open spec fn component_of(v: u128) -> u64 {
    (v >> 64u128) as u64
}

/// The generation stored in a packed value.
pub open spec fn generation_of(v: u128) -> u16 {
    ((v >> 48u128) & 0xffffu128) as u16
}

/// The item index stored in a packed value.
pub open spec fn index_of(v: u128) -> u32 {
    (v & 0xffff_ffffu128) as u32
}

/// What decoding `id` with `expected_generation` yields.
pub open spec fn decoded(id: NodeId, expected_generation: u16) -> Option<ItemRef> {
    if generation_of(id.value) == expected_generation {
        Some(ItemRef { component: component_of(id.value), index: index_of(id.value) })
    } else {
        None
    }
}

/// Each field of a packed value reads back as it was stored.
pub proof fn lemma_packed_fields(component: u64, generation: u16, index: u32)
    ensures
        component_of(packed(component, generation, index)) == component,
        generation_of(packed(component, generation, index)) == generation,
        index_of(packed(component, generation, index)) == index,
        component != 0 ==> packed(component, generation, index) != 0,
{
    let c = component;
    let g = generation;
    let i = index;
    assert(((((c as u128) << 64u128) | ((g as u128) << 48u128) | (i as u128)) >> 64u128) as u64
        == c) by (bit_vector);
    assert((((((c as u128) << 64u128) | ((g as u128) << 48u128) | (i as u128)) >> 48u128)
        & 0xffffu128) as u16 == g) by (bit_vector);
    assert(((((c as u128) << 64u128) | ((g as u128) << 48u128) | (i as u128)) & 0xffff_ffffu128)
        as u32 == i) by (bit_vector);
    assert(c != 0 ==> (((c as u128) << 64u128) | ((g as u128) << 48u128) | (i as u128)) != 0)
        by (bit_vector);
}

/// Packs `item` and `generation` into an identifier.
pub fn encode_node_id(item: ItemRef, generation: u16) -> (r: NodeId)
    ensures
        r.value == packed(item.component, generation, item.index),
        item.component != 0 ==> r.value != 0,
{
    proof {
        lemma_packed_fields(item.component, generation, item.index);
    }
    let v: u128 = ((item.component as u128) << 64u128) | ((generation as u128) << 48u128)
        | (item.index as u128);
    NodeId { value: v }
}

/// Unpacks an identifier; a generation other than `expected_generation`
/// marks it stale, and then nothing is returned.
pub fn decode_node_id(id: NodeId, expected_generation: u16) -> (r: Option<ItemRef>)
    ensures
        r == decoded(id, expected_generation),
{
    let generation: u16 = ((id.value >> 48u128) & 0xffffu128) as u16;
    if generation != expected_generation {
        return None;
    }
    let component: u64 = (id.value >> 64u128) as u64;
    let index: u32 = (id.value & 0xffff_ffffu128) as u32;
    Some(ItemRef { component, index })
}

/// Decoding an identifier with the generation it was made with gives back
/// the item it was made from.
pub proof fn lemma_decode_encode(item: ItemRef, generation: u16)
    ensures
        decoded(NodeId { value: packed(item.component, generation, item.index) }, generation)
            == Some(item),
{
    lemma_packed_fields(item.component, generation, item.index);
}

/// Decoding an identifier with any generation other than the one it was
/// made with gives nothing.
pub proof fn lemma_decode_other_generation(item: ItemRef, generation: u16, other: u16)
    requires
        other != generation,
    ensures
        decoded(NodeId { value: packed(item.component, generation, item.index) }, other)
            is None,
{
    lemma_packed_fields(item.component, generation, item.index);
}

} // verus!
