//! Conversion between local ids and storage indices. Triple ids have their
//! top bit set; node ids do not.

use vstd::prelude::*;

use crate::env::local_node::{LocalId, LocalTriple};

verus! {

/// The bit that marks an id as a triple id.
pub open spec fn triple_bit() -> u64 {
    0x8000_0000_0000_0000u64
}

/// An id denotes a triple exactly when its top bit is set.
pub open spec fn spec_is_triple_id(id: u64) -> bool {
    id >= triple_bit()
}

/// Index (into the triple storage) that a triple id denotes.
pub open spec fn spec_triple_index(id: u64) -> int {
    id - triple_bit()
}

pub fn is_triple_id(id: LocalId) -> (res: bool)
    ensures
        res == spec_is_triple_id(id),
{
    let ones = id.leading_ones();
    proof {
        vstd::std_specs::bits::axiom_u64_leading_ones(id);
        let lo = ones as u64;
        if lo == 0 {
            assert((id >> 63u64) & 1u64 == 0u64 ==> id < 0x8000_0000_0000_0000u64)
                by (bit_vector);
        } else {
            assert(64 - lo <= 63u64);
            assert((id >> 63u64) & 1u64 == 1u64 ==> id >= 0x8000_0000_0000_0000u64)
                by (bit_vector);
        }
    }
    ones > 0
}

pub fn index_to_triple_id(index: usize) -> (res: LocalTriple)
    ensures
        res.0.0 == (index as u64) | 0x8000_0000_0000_0000u64,
        (index as u64) < triple_bit() ==> res.0.0 == index + triple_bit(),
{
    let raw = index as LocalId;
    let res = raw | !(LocalId::MAX >> 1);
    assert(!(0xffff_ffff_ffff_ffffu64 >> 1u64) == 0x8000_0000_0000_0000u64) by (bit_vector);
    assert(raw < 0x8000_0000_0000_0000u64 ==> raw | 0x8000_0000_0000_0000u64
        == raw + 0x8000_0000_0000_0000u64) by (bit_vector);
    LocalTriple::new(res)
}

/// Note: cannot be used for the nodes of triples.
pub fn node_index_unchecked(id: LocalId) -> (res: usize)
    ensures
        res == id as usize,
{
    id as usize
}

pub fn triple_index_unchecked(id: LocalId) -> (res: usize)
    ensures
        res == (id & 0x7fff_ffff_ffff_ffffu64) as usize,
        spec_is_triple_id(id) ==> res == (spec_triple_index(id) as usize),
        !spec_is_triple_id(id) ==> res == id as usize,
{
    assert(0xffff_ffff_ffff_ffffu64 >> 1u64 == 0x7fff_ffff_ffff_ffffu64) by (bit_vector);
    assert(id >= 0x8000_0000_0000_0000u64 ==> id & 0x7fff_ffff_ffff_ffffu64
        == id - 0x8000_0000_0000_0000u64) by (bit_vector);
    assert(id < 0x8000_0000_0000_0000u64 ==> id & 0x7fff_ffff_ffff_ffffu64 == id)
        by (bit_vector);
    (id & (LocalId::MAX >> 1)) as usize
}

/// Converting an index to a triple id and back gives the index again, and
/// the id is marked as a triple id.
pub proof fn lemma_triple_index_roundtrip(index: usize)
    requires
        (index as u64) < triple_bit(),
    ensures
        spec_is_triple_id(((index as u64) | 0x8000_0000_0000_0000u64)),
        spec_triple_index(((index as u64) | 0x8000_0000_0000_0000u64)) == index,
{
    let raw = index as u64;
    assert(raw < 0x8000_0000_0000_0000u64 ==> raw | 0x8000_0000_0000_0000u64
        == raw + 0x8000_0000_0000_0000u64) by (bit_vector);
}

} // verus!
