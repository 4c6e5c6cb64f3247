//! Component masks: one bit per registered component type.

use vstd::prelude::*;

verus! {

/// Number of component types that a 32-bit mask can tell apart.
pub const MAX_COMPONENT_TYPES: usize = 32;

/// The mask bit of the component type registered at position `k`.
pub open spec fn bit(k: int) -> u32
    recommends
        0 <= k < 32,
{
    1u32 << (k as u32)
}

/// Whether `mask` has every bit of `filter` set.
pub open spec fn covers(mask: u32, filter: u32) -> bool {
    mask & filter == filter
}

/// Computes the bit of position `k`.
pub fn bit_at(k: usize) -> (b: u32)
    requires
        k < MAX_COMPONENT_TYPES,
    ensures
        b == bit(k as int),
{
    1u32 << (k as u32)
}

/// Tests whether `mask` has every bit of `filter` set.
pub fn mask_covers(mask: u32, filter: u32) -> (yes: bool)
    ensures
        yes == covers(mask, filter),
{
    mask & filter == filter
}

proof fn shifted_bits(m: u32, j: u32, k: u32)
    by (bit_vector)
    requires
        j < 32,
        k < 32,
    ensures
        (1u32 << k) != 0,
        (m | (1u32 << j)) & (1u32 << j) == (1u32 << j),
        j != k ==> ((m | (1u32 << j)) & (1u32 << k) == (1u32 << k)) == (m & (1u32 << k) == (1u32
            << k)),
        ((m & !(1u32 << j)) & (1u32 << k) == (1u32 << k)) == (j != k && (m & (1u32 << k) == (1u32
            << k))),
        (0u32 & (1u32 << k) == (1u32 << k)) == false,
        j != k ==> (1u32 << j) != (1u32 << k),
{
}

/// A position's bit is never zero, and the bits of two positions differ.
pub proof fn lemma_bit_distinct(j: int, k: int)
    requires
        0 <= j < 32,
        0 <= k < 32,
    ensures
        bit(k) != 0,
        !covers(0, bit(k)),
        j != k ==> bit(j) != bit(k),
{
    shifted_bits(0, j as u32, k as u32);
}

/// Setting the bit of position `j` makes the mask cover it and changes no
/// other position.
pub proof fn lemma_set_bit(m: u32, j: int, k: int)
    requires
        0 <= j < 32,
        0 <= k < 32,
    ensures
        covers(m | bit(j), bit(k)) == (j == k || covers(m, bit(k))),
{
    shifted_bits(m, j as u32, k as u32);
}

/// Clearing the bit of position `j` removes it and changes no other
/// position.
pub proof fn lemma_clear_bit(m: u32, j: int, k: int)
    requires
        0 <= j < 32,
        0 <= k < 32,
    ensures
        covers(m & !bit(j), bit(k)) == (j != k && covers(m, bit(k))),
{
    shifted_bits(m, j as u32, k as u32);
}

/// A mask covers the union of two filters exactly when it covers both.
pub proof fn lemma_covers_union(m: u32, a: u32, b: u32)
    ensures
        covers(m, a | b) == (covers(m, a) && covers(m, b)),
{
    assert((m & (a | b) == (a | b)) == ((m & a == a) && (m & b == b))) by (bit_vector);
}

/// The empty mask covers only the empty filter; every mask covers the empty
/// filter.
pub proof fn lemma_covers_empty(m: u32, f: u32)
    ensures
        covers(0, f) == (f == 0),
        covers(m, 0),
{
    assert((0u32 & f == f) == (f == 0)) by (bit_vector);
    assert(m & 0u32 == 0u32) by (bit_vector);
}

/// Setting or clearing the same bits twice is the same as doing it once.
pub proof fn lemma_mask_idempotent(m: u32, b: u32)
    ensures
        (m | b) | b == m | b,
        (m & !b) & !b == m & !b,
        0u32 | b == b,
{
    assert((m | b) | b == m | b) by (bit_vector);
    assert((m & !b) & !b == m & !b) by (bit_vector);
    assert(0u32 | b == b) by (bit_vector);
}

} // verus!
