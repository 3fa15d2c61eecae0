//! The two-generation cell byte: bit 0 says whether the cell is alive, bit 4
//! holds the state a step started from, and no other bit is ever set.

use vstd::prelude::*;

verus! {

/// The byte of a cell that was alive when the current step began.
pub const WAS_ALIVE: u8 = 16;

/// The cell is alive: bit 0 is set.
pub open spec fn is_alive(c: u8) -> bool {
    c & 1 == 1
}

/// The cell was alive when the current step began: bit 4 is set.
pub open spec fn was_alive(c: u8) -> bool {
    c & 16 == 16
}

/// Only bits 4 and 0 may be set.
pub open spec fn is_clean(c: u8) -> bool {
    c & 0xEE == 0
}

/// 1 for a live cell, 0 for a dead one.
pub open spec fn population(c: u8) -> int {
    if is_alive(c) {
        1
    } else {
        0
    }
}

/// The cell with bit 0 flipped and every other bit as it was.
pub open spec fn flipped(c: u8) -> u8 {
    c ^ 1
}

/// Whether a cell lives on: a live cell with two or three live neighbors
/// survives, a dead cell with exactly three is born.
pub open spec fn lives_on(alive: bool, neighbors: int) -> bool {
    if alive {
        neighbors == 2 || neighbors == 3
    } else {
        neighbors == 3
    }
}

/// The byte of a cell after a step: bit 4 records whether it was alive
/// before, bit 0 whether it is alive now.
pub open spec fn stepped(alive: bool, neighbors: int) -> u8 {
    if alive {
        if lives_on(alive, neighbors) {
            17
        } else {
            16
        }
    } else {
        if lives_on(alive, neighbors) {
            1
        } else {
            0
        }
    }
}

/// A clean byte is one of four values, and its bits read off accordingly.
pub proof fn lemma_clean_values(c: u8)
    ensures
        is_clean(c) <==> (c == 0 || c == 1 || c == 16 || c == 17),
        is_alive(c) && is_clean(c) <==> (c == 1 || c == 17),
        was_alive(c) && is_clean(c) <==> (c == 16 || c == 17),
{
    assert((c & 0xEE == 0) <==> (c == 0 || c == 1 || c == 16 || c == 17)) by (bit_vector);
    assert((c & 1 == 1 && c & 0xEE == 0) <==> (c == 1 || c == 17)) by (bit_vector);
    assert((c & 16 == 16 && c & 0xEE == 0) <==> (c == 16 || c == 17)) by (bit_vector);
}

/// Flipping bit 0 changes liveness, keeps every other bit, and undoes
/// itself.
pub proof fn lemma_flip(c: u8)
    ensures
        is_alive(flipped(c)) == !is_alive(c),
        was_alive(flipped(c)) == was_alive(c),
        is_clean(flipped(c)) == is_clean(c),
        flipped(c) & 0xFE == c & 0xFE,
        flipped(flipped(c)) == c,
{
    assert(((c ^ 1) & 1 == 1) == !(c & 1 == 1)) by (bit_vector);
    assert(((c ^ 1) & 16 == 16) == (c & 16 == 16)) by (bit_vector);
    assert(((c ^ 1) & 0xEE == 0) == (c & 0xEE == 0)) by (bit_vector);
    assert((c ^ 1) & 0xFE == c & 0xFE) by (bit_vector);
    assert((c ^ 1) ^ 1 == c) by (bit_vector);
}

/// Whether the cell is alive.
pub fn alive(c: u8) -> (r: bool)
    ensures
        r == is_alive(c),
{
    (c & 1) == 1
}

/// Whether the cell was alive when the current step began.
pub fn lived(c: u8) -> (r: bool)
    ensures
        r == was_alive(c),
{
    (c & 16) == 16
}

/// The cell with its liveness flipped and bit 4 as it was.
pub fn flip(c: u8) -> (r: u8)
    ensures
        r == flipped(c),
        is_alive(r) == !is_alive(c),
        was_alive(r) == was_alive(c),
        is_clean(r) == is_clean(c),
{
    proof {
        lemma_flip(c);
    }
    c ^ 1
}

/// Phase one of a step: a live cell becomes `WAS_ALIVE`, any other byte 0.
pub fn promote(c: u8) -> (r: u8)
    ensures
        r == (if is_alive(c) { WAS_ALIVE } else { 0u8 }),
        is_clean(r),
        !is_alive(r),
        was_alive(r) == is_alive(c),
{
    proof {
        lemma_clean_values(16);
        lemma_clean_values(0);
    }
    if alive(c) {
        WAS_ALIVE
    } else {
        0
    }
}

/// Phase two of a step on a promoted cell, given its count of live
/// neighbors: sets bit 0 where the cell lives on.
pub fn settle(c: u8, neighbors: u8) -> (r: u8)
    requires
        c == WAS_ALIVE || c == 0,
    ensures
        r == stepped(c == WAS_ALIVE, neighbors as int),
        is_clean(r),
        was_alive(r) == (c == WAS_ALIVE),
        is_alive(r) == lives_on(c == WAS_ALIVE, neighbors as int),
{
    proof {
        lemma_clean_values(0);
        lemma_clean_values(1);
        lemma_clean_values(16);
        lemma_clean_values(17);
        assert(16u8 ^ 1 == 17) by (bit_vector);
        assert(0u8 ^ 1 == 1) by (bit_vector);
    }
    if neighbors != 2 && neighbors != 3 {
        return c;
    }
    if c == WAS_ALIVE {
        flip(c)
    } else if neighbors == 3 {
        flip(c)
    } else {
        c
    }
}

} // verus!
