//! What holds of the operations taken together, stated over the universe
//! that a `DataBuf` stands for.

use vstd::prelude::*;
use crate::cell::{is_alive, is_clean, lemma_clean_values, lemma_flip, lives_on, was_alive};
use crate::topology::Direction;
use crate::universe::{Universe, TEXTLEN};

verus! {

/// Zero generations change nothing, and one generation more is one step
/// more.
pub proof fn law_crunch_unfolds(u: Universe, n: nat)
    ensures
        u.crunched(0) == u,
        u.crunched(n + 1) == u.crunched(n).ticked(),
{
    assert(u.crunched(n + 1) == u.crunched(((n + 1) - 1) as nat).ticked());
}

/// A batch of `a + b` generations is a batch of `a` followed by a batch of
/// `b`.
pub proof fn law_crunch_splits(u: Universe, a: nat, b: nat)
    ensures
        u.crunched(a + b) == u.crunched(a).crunched(b),
    decreases b,
{
    if b > 0 {
        law_crunch_splits(u, a, (b - 1) as nat);
        assert(u.crunched(a + b) == u.crunched(((a + b) - 1) as nat).ticked());
        assert(((a + b) - 1) as nat == a + ((b - 1) as nat));
    }
}

/// A step keeps the universe valid: in particular every cell byte has only
/// bits 4 and 0 set afterwards, whatever it held before.
pub proof fn law_tick_keeps_clean(u: Universe)
    ensures
        forall|i: int| 0 <= i < u.cells.len() ==> is_clean(#[trigger] u.ticked().cells[i]),
        u.valid() ==> u.ticked().valid(),
{
    assert forall|i: int| 0 <= i < u.cells.len() implies is_clean(#[trigger] u.ticked().cells[i]) by {
        lemma_clean_values(u.ticked().cells[i]);
    }
}

/// Any number of steps keeps the universe valid.
pub proof fn law_crunch_keeps_valid(u: Universe, n: nat)
    requires
        u.valid(),
    ensures
        u.crunched(n).valid(),
    decreases n,
{
    if n > 0 {
        law_crunch_keeps_valid(u, (n - 1) as nat);
        law_tick_keeps_clean(u.crunched((n - 1) as nat));
    }
}

/// A step records in bit 4 what was alive before it, and sets bit 0 by the
/// rule: survival on two or three live neighbors, birth on exactly three.
/// So a cell without live neighbors is dead after the step, and a live cell
/// with three live neighbors stays alive.
pub proof fn law_tick_follows_rule(u: Universe, i: int)
    requires
        0 <= i < u.cells.len(),
    ensures
        is_alive(u.ticked().cells[i]) == lives_on(is_alive(u.cells[i]), u.live_neighbors(i)),
        was_alive(u.ticked().cells[i]) == is_alive(u.cells[i]),
        u.live_neighbors(i) == 0 ==> !is_alive(u.ticked().cells[i]),
        is_alive(u.cells[i]) && u.live_neighbors(i) == 3 ==> is_alive(u.ticked().cells[i]),
{
    lemma_clean_values(u.ticked().cells[i]);
}

/// A step reads nothing but the live plane: two universes of one shape that
/// agree on which cells are alive step to the same cells.
pub proof fn law_tick_reads_live_plane(u: Universe, v: Universe)
    requires
        u.valid(),
        v.valid(),
        u.topology == v.topology,
        forall|i: int| 0 <= i < u.cells.len() ==> is_alive(u.cells[i]) == is_alive(v.cells[i]),
    ensures
        u.ticked().cells == v.ticked().cells,
{
    let t = u.topology;
    assert forall|i: int| 0 <= i < u.cells.len() implies u.ticked_cell(i) == v.ticked_cell(i) by {
        t.lemma_neighbor_in_grid(Direction::Up, i);
        t.lemma_neighbor_in_grid(Direction::Down, i);
        t.lemma_neighbor_in_grid(Direction::Left, i);
        t.lemma_neighbor_in_grid(Direction::Right, i);
        t.lemma_neighbor_in_grid(Direction::UpLeft, i);
        t.lemma_neighbor_in_grid(Direction::DownLeft, i);
        t.lemma_neighbor_in_grid(Direction::UpRight, i);
        t.lemma_neighbor_in_grid(Direction::DownRight, i);
    }
    assert(u.ticked().cells =~= v.ticked().cells);
}

/// Printing keeps the universe valid and touches no cell; the longest length
/// seen never shrinks and never exceeds the capacity of the text.
pub proof fn law_longest_never_shrinks(u: Universe, msg: Seq<u8>)
    requires
        u.valid(),
    ensures
        u.printed(msg).valid(),
        u.printed(msg).cells == u.cells,
        u.longest <= u.printed(msg).longest <= TEXTLEN,
        msg.len() <= u.printed(msg).longest || u.printed(msg).longest == TEXTLEN,
{
}

/// Clearing twice is clearing once.
pub proof fn law_clear_idempotent(u: Universe)
    ensures
        u.cleared().cleared() == u.cleared(),
{
    assert(u.cleared().cleared().cells =~= u.cleared().cells);
    assert(u.cleared().cleared().text =~= u.cleared().text);
}

/// A cleared universe is all dead, and stays so under any number of steps.
pub proof fn law_cleared_is_dead(u: Universe)
    requires
        u.valid(),
    ensures
        u.cleared().valid(),
        forall|i: int| 0 <= i < u.cells.len() ==> #[trigger] u.cleared().cells[i] == 0u8,
        u.cleared().ticked() == u.cleared(),
{
    lemma_clean_values(0);
    let c = u.cleared();
    assert forall|i: int| 0 <= i < c.cells.len() implies c.ticked_cell(i) == 0u8 by {
        let t = c.topology;
        t.lemma_neighbor_in_grid(Direction::Up, i);
        t.lemma_neighbor_in_grid(Direction::Down, i);
        t.lemma_neighbor_in_grid(Direction::Left, i);
        t.lemma_neighbor_in_grid(Direction::Right, i);
        t.lemma_neighbor_in_grid(Direction::UpLeft, i);
        t.lemma_neighbor_in_grid(Direction::DownLeft, i);
        t.lemma_neighbor_in_grid(Direction::UpRight, i);
        t.lemma_neighbor_in_grid(Direction::DownRight, i);
    }
    assert(c.ticked().cells =~= c.cells);
}

/// Toggling a cell flips its liveness and nothing else: bit 4 of that cell
/// and every other cell stay as they were. Toggling it again restores the
/// universe.
pub proof fn law_toggle_twice(u: Universe, x: int, y: int)
    requires
        u.valid(),
    ensures
        u.toggled(x, y).valid(),
        is_alive(u.toggled(x, y).cells[u.topology.index_of(x, y)]) != is_alive(
            u.cells[u.topology.index_of(x, y)],
        ),
        was_alive(u.toggled(x, y).cells[u.topology.index_of(x, y)])
            == was_alive(u.cells[u.topology.index_of(x, y)]),
        forall|j: int|
            0 <= j < u.cells.len() && j != u.topology.index_of(x, y) ==> u.toggled(x, y).cells[j]
                == u.cells[j],
        u.toggled(x, y).toggled(x, y) == u,
{
    let t = u.topology;
    let i = t.index_of(x, y);
    t.lemma_cell_fits(x % (t.width as int), y % (t.height as int));
    lemma_flip(u.cells[i]);
    assert(u.toggled(x, y).toggled(x, y).cells =~= u.cells);
}

/// Noise of density 0.0 flips no cell, whatever the seed.
pub proof fn law_zero_density_is_silent(u: Universe, seed: u64)
    ensures
        u.noised(seed, 0).cells == u.cells,
{
    assert(u.noised(seed, 0).cells =~= u.cells);
}

} // verus!
