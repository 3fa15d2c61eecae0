//! The operations a host drives the kernel with, each on the universe that
//! the host owns.

use vstd::prelude::*;
use crate::cell::{flipped, is_clean};
use crate::laws::law_crunch_unfolds;
use crate::noise::{INFINITY, ONE};
use crate::universe::{clear_notice, noise_notice, DataBuf, TEXTLEN};

verus! {

/// The number of generations that a request for `gens` runs: none for a
/// count of zero or less.
pub open spec fn generations(gens: i32) -> nat {
    if gens > 0 {
        gens as nat
    } else {
        0
    }
}

/// Answers the host's query `index`: 1 and 2 give back the addresses at
/// which the host keeps the cells and the text, 10, 11 and 12 the cell
/// count, width and height, 20 the capacity of the text, 21 the longest
/// message seen, and anything else -999.
pub fn get_info(u: &DataBuf, index: i32, cells_at: i32, text_at: i32) -> (r: i32)
    requires
        u.wf(),
    ensures
        r == u@.info(index as int, cells_at as int, text_at as int),
{
    u.info(index, cells_at, text_at)
}

/// Flips bit 0 of each cell whose sample, drawn from a generator seeded with
/// `entropy`, lies below `density`; both are binary32 values given by their
/// bits. Returns the length of the announcement to report to the host.
pub fn add_noise_to_universe(u: &mut DataBuf, density: u32, entropy: u32) -> (len: usize)
    requires
        old(u).wf(),
    ensures
        final(u).wf(),
        final(u)@ == old(u)@.noised(entropy as u64, density),
        len == noise_notice().len(),
        density == 0 || density > INFINITY ==> final(u)@.cells == old(u)@.cells,
        ONE <= density <= INFINITY ==> forall|i: int|
            0 <= i < old(u)@.cells.len() ==> #[trigger] final(u)@.cells[i] == flipped(
                old(u)@.cells[i],
            ),
{
    u.add_noise_to_universe(density, entropy)
}

/// Kills every cell. Returns the length of the announcement to report to the
/// host.
pub fn clear_universe(u: &mut DataBuf) -> (len: usize)
    requires
        old(u).wf(),
    ensures
        final(u).wf(),
        final(u)@ == old(u)@.cleared(),
        len == clear_notice().len(),
{
    u.clear_universe()
}

/// Advances the universe by one generation.
pub fn tick_universe(u: &mut DataBuf)
    requires
        old(u).wf(),
    ensures
        final(u).wf(),
        final(u)@ == old(u)@.ticked(),
        forall|i: int| 0 <= i < final(u)@.cells.len() ==> is_clean(#[trigger] final(u)@.cells[i]),
{
    u.tick_universe()
}

/// Advances the universe by `gens` generations, one after the other; a count
/// of zero or less leaves it as it is.
pub fn time_crunch(u: &mut DataBuf, gens: i32)
    requires
        old(u).wf(),
    ensures
        final(u).wf(),
        final(u)@ == old(u)@.crunched(generations(gens)),
{
    let ghost before = u@;
    let mut i: i32 = 0;
    proof {
        law_crunch_unfolds(before, 0);
    }
    while i < gens
        invariant
            u.wf(),
            0 <= i,
            gens > 0 ==> i <= gens,
            gens <= 0 ==> i == 0,
            u@ == before.crunched(i as nat),
        decreases gens - i,
    {
        proof {
            law_crunch_unfolds(before, i as nat);
        }
        tick_universe(u);
        i += 1;
    }
}

/// Flips bit 0 of the cell at column `x`, row `y`, wrapping both coordinates
/// into the grid.
pub fn toggle_cell(u: &mut DataBuf, x: i32, y: i32)
    requires
        old(u).wf(),
    ensures
        final(u).wf(),
        final(u)@ == old(u)@.toggled(x as int, y as int),
{
    u.toggle_cell(x, y)
}

/// Writes `msg` into the diagnostics text and returns the length to report
/// to the host.
pub fn print(u: &mut DataBuf, msg: &[u8]) -> (len: usize)
    requires
        old(u).wf(),
    ensures
        final(u).wf(),
        final(u)@ == old(u)@.printed(msg@),
        len == (if msg@.len() < TEXTLEN {
            msg@.len()
        } else {
            TEXTLEN as nat
        }),
{
    u.print(msg)
}

} // verus!
