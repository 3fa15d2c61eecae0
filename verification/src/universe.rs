//! The grid and its step: promotion of the live plane into bit 4, then the
//! rule applied to every cell against that snapshot, in one buffer.

use vstd::prelude::*;
use crate::cell::{
    alive, flip, flipped, is_alive, is_clean, lemma_clean_values, lemma_flip, population, promote,
    settle, stepped, WAS_ALIVE,
};
use crate::noise::{draw, noised, noised_byte, sample_at, seeded, seeded_state, state_after, INFINITY, ONE};
use crate::topology::{Direction, Topology, Wrap};

verus! {

/// Columns of the standard universe.
pub const WIDTH: usize = 256;

/// Rows of the standard universe.
pub const HEIGHT: usize = 128;

/// Cells of the standard universe.
pub const LENGTH: usize = 32768;

/// Capacity of the diagnostics buffer, in bytes.
pub const TEXTLEN: usize = 512;

/// What a `DataBuf` stands for: its shape, one byte per cell in row-major
/// order, the diagnostics text and the length of the longest message seen.
pub struct Universe {
    pub topology: Topology,
    pub cells: Seq<u8>,
    pub text: Seq<u8>,
    pub longest: nat,
}

impl Universe {
    /// The shape is admissible, there is one clean byte per cell, and the
    /// diagnostics buffer has its fixed capacity.
    pub open spec fn valid(self) -> bool {
        &&& self.topology.wf()
        &&& self.cells.len() == self.topology.area()
        &&& self.text.len() == TEXTLEN
        &&& self.longest <= TEXTLEN
        &&& forall|i: int| 0 <= i < self.cells.len() ==> is_clean(#[trigger] self.cells[i])
    }

    /// The universe of shape `t` in which every cell is dead and nothing has
    /// been printed.
    pub open spec fn blank(t: Topology) -> Universe {
        Universe {
            topology: t,
            cells: Seq::new(t.area() as nat, |i: int| 0u8),
            text: Seq::new(TEXTLEN as nat, |i: int| 0u8),
            longest: 0,
        }
    }

    /// The universe after `msg` was printed: the message overwrites the start
    /// of the text as far as the buffer reaches, and the longest length seen
    /// is kept.
    pub open spec fn printed(self, msg: Seq<u8>) -> Universe {
        let len = if msg.len() < TEXTLEN {
            msg.len()
        } else {
            TEXTLEN as nat
        };
        Universe {
            text: Seq::new(
                self.text.len(),
                |i: int|
                    if i < msg.len() {
                        msg[i]
                    } else {
                        self.text[i]
                    },
            ),
            longest: if len > self.longest {
                len
            } else {
                self.longest
            },
            ..self
        }
    }

    /// The universe after the cell at column `x`, row `y` had bit 0 flipped.
    pub open spec fn toggled(self, x: int, y: int) -> Universe {
        let i = self.topology.index_of(x, y);
        Universe { cells: self.cells.update(i, flipped(self.cells[i])), ..self }
    }

    /// The universe after it was cleared: every cell byte is zero, and the
    /// clearing was announced in the text.
    pub open spec fn cleared(self) -> Universe {
        Universe {
            cells: Seq::new(self.cells.len(), |i: int| 0u8),
            ..self.printed(clear_notice())
        }
    }

    /// The universe after noise of the given density, drawn from a generator
    /// seeded with `seed`: cell `i` has bit 0 flipped where draw `i` lies
    /// below the density, and the noise was announced in the text.
    pub open spec fn noised(self, seed: u64, density: u32) -> Universe {
        Universe {
            cells: Seq::new(
                self.cells.len(),
                |i: int| noised_byte(self.cells[i], sample_at(seeded_state(seed), i as nat), density),
            ),
            ..self.printed(noise_notice())
        }
    }

    /// What the host learns under `index`: the two addresses it handed in, the
    /// sizes, the longest message seen, or -999 for any other index.
    pub open spec fn info(self, index: int, cells_at: int, text_at: int) -> int {
        if index == 1 {
            cells_at
        } else if index == 10 {
            self.topology.area()
        } else if index == 11 {
            self.topology.width as int
        } else if index == 12 {
            self.topology.height as int
        } else if index == 2 {
            text_at
        } else if index == 20 {
            TEXTLEN as int
        } else if index == 21 {
            self.longest as int
        } else {
            -999
        }
    }

    /// 1 if the neighbor of cell `i` in direction `dir` is alive, else 0.
    pub open spec fn lit(self, dir: Direction, i: int) -> int {
        population(self.cells[self.topology.neighbor_of(dir, i)])
    }

    /// How many of the eight neighbors of cell `i` are alive. A neighbor
    /// reached in two directions counts twice.
    pub open spec fn live_neighbors(self, i: int) -> int {
        self.lit(Direction::Up, i) + self.lit(Direction::Down, i) + self.lit(Direction::Left, i)
            + self.lit(Direction::Right, i) + self.lit(Direction::UpLeft, i) + self.lit(
            Direction::DownLeft,
            i,
        ) + self.lit(Direction::UpRight, i) + self.lit(Direction::DownRight, i)
    }

    /// The byte of cell `i` after one step.
    pub open spec fn ticked_cell(self, i: int) -> u8 {
        stepped(is_alive(self.cells[i]), self.live_neighbors(i))
    }

    /// The universe after one step.
    pub open spec fn ticked(self) -> Universe {
        Universe {
            cells: Seq::new(self.cells.len(), |i: int| self.ticked_cell(i)),
            ..self
        }
    }

    /// The universe after `n` steps.
    pub open spec fn crunched(self, n: nat) -> Universe
        decreases n,
    {
        if n == 0 {
            self
        } else {
            self.crunched((n - 1) as nat).ticked()
        }
    }
}

/// The text announcing a clearing, `clearbing!!` in ASCII.
pub open spec fn clear_notice() -> Seq<u8> {
    seq![99u8, 108u8, 101u8, 97u8, 114u8, 98u8, 105u8, 110u8, 103u8, 33u8, 33u8]
}

/// The text announcing noise, `*pssshhhh*` in ASCII.
pub open spec fn noise_notice() -> Seq<u8> {
    seq![42u8, 112u8, 115u8, 115u8, 115u8, 104u8, 104u8, 104u8, 104u8, 42u8]
}

/// A grid of cells with its diagnostics buffer.
pub struct DataBuf {
    topology: Topology,
    cells: Vec<u8>,
    text: Vec<u8>,
    str_max: usize,
}

impl View for DataBuf {
    type V = Universe;

    closed spec fn view(&self) -> Universe {
        Universe {
            topology: self.topology,
            cells: self.cells@,
            text: self.text@,
            longest: self.str_max as nat,
        }
    }
}

impl DataBuf {
    /// The invariant of the type, stated over what it stands for.
    pub open spec fn wf(&self) -> bool {
        self@.valid()
    }

    /// The standard universe: 256 by 128 cells under the Klein-bottle wrap,
    /// all dead.
    pub fn new() -> (u: DataBuf)
        ensures
            u.wf(),
            u@ == Universe::blank(
                (Topology { width: WIDTH, height: HEIGHT, wrap: Wrap::KleinBottle }),
            ),
    {
        proof {
            assert(WIDTH * HEIGHT == LENGTH) by (nonlinear_arith);
        }
        let made = DataBuf::with_shape(WIDTH, HEIGHT, Wrap::KleinBottle);
        made.unwrap()
    }

    /// An all-dead universe of the given extent and wrap, where the extent is
    /// admissible: both axes non-empty and at most `MAX_CELLS` cells.
    pub fn with_shape(width: usize, height: usize, wrap: Wrap) -> (r: Option<DataBuf>)
        ensures
            r.is_some() <==> (Topology { width, height, wrap }).wf(),
            r.is_some() ==> r.unwrap().wf() && r.unwrap()@ == Universe::blank(
                (Topology { width, height, wrap }),
            ),
    {
        let topology = match Topology::new(width, height, wrap) {
            Some(t) => t,
            None => {
                return None;
            },
        };
        let n = topology.length();
        let cells = zeroes(n);
        let text = zeroes(TEXTLEN);
        let u = DataBuf { topology, cells, text, str_max: 0 };
        proof {
            assert(u@.cells =~= Universe::blank(topology).cells);
            assert(u@.text =~= Universe::blank(topology).text);
            lemma_clean_values(0);
        }
        Some(u)
    }

    /// The shape of the grid.
    pub fn topology(&self) -> (t: Topology)
        ensures
            t == self@.topology,
    {
        self.topology
    }

    /// The cell bytes in row-major order.
    pub fn cells(&self) -> (r: &Vec<u8>)
        ensures
            r@ == self@.cells,
    {
        &self.cells
    }

    /// The diagnostics text.
    pub fn text(&self) -> (r: &Vec<u8>)
        ensures
            r@ == self@.text,
    {
        &self.text
    }

    /// The length of the longest message printed so far, capped at the
    /// capacity of the text.
    pub fn str_max(&self) -> (n: usize)
        ensures
            n == self@.longest,
    {
        self.str_max
    }

    /// The live plane: for each cell, in row-major order, whether it is
    /// alive.
    pub fn snapshot(&self) -> (plane: Vec<bool>)
        ensures
            plane@.len() == self@.cells.len(),
            forall|i: int| 0 <= i < plane@.len() ==> plane@[i] == is_alive(self@.cells[i]),
    {
        let n = self.cells.len();
        let mut plane: Vec<bool> = Vec::new();
        let mut i: usize = 0;
        while i < n
            invariant
                n == self.cells.len(),
                i <= n,
                plane@.len() == i,
                forall|j: int| 0 <= j < i ==> plane@[j] == is_alive(self.cells@[j]),
            decreases n - i,
        {
            plane.push(alive(self.cells[i]));
            i += 1;
        }
        plane
    }

    /// Answers the host's query `index`; the host hands in the two addresses
    /// at which it keeps the cells and the text.
    pub fn info(&self, index: i32, cells_at: i32, text_at: i32) -> (r: i32)
        requires
            self.wf(),
        ensures
            r == self@.info(index as int, cells_at as int, text_at as int),
    {
        proof {
            self.topology.lemma_area();
        }
        if index == 1 {
            cells_at
        } else if index == 10 {
            self.topology.length() as i32
        } else if index == 11 {
            self.topology.width as i32
        } else if index == 12 {
            self.topology.height as i32
        } else if index == 2 {
            text_at
        } else if index == 20 {
            TEXTLEN as i32
        } else if index == 21 {
            self.str_max as i32
        } else {
            -999
        }
    }

    /// Writes `msg` over the start of the text, as far as the buffer reaches,
    /// and returns the length to report to the host: that of the message,
    /// capped at the capacity.
    pub fn print(&mut self, msg: &[u8]) -> (len: usize)
        requires
            old(self).wf(),
        ensures
            final(self).wf(),
            final(self)@ == old(self)@.printed(msg@),
            len == (if msg@.len() < TEXTLEN {
                msg@.len()
            } else {
                TEXTLEN as nat
            }),
    {
        let ghost before = self@;
        let len = if msg.len() < TEXTLEN {
            msg.len()
        } else {
            TEXTLEN
        };
        if len > self.str_max {
            self.str_max = len;
        }
        let mut i: usize = 0;
        while i < len
            invariant
                before.valid(),
                self@.topology == before.topology,
                self@.cells == before.cells,
                self@.longest == before.printed(msg@).longest,
                self.text.len() == TEXTLEN,
                len <= TEXTLEN,
                len <= msg@.len(),
                i <= len,
                forall|j: int| 0 <= j < i ==> #[trigger] self.text@[j] == msg@[j],
                forall|j: int| i <= j < TEXTLEN ==> #[trigger] self.text@[j] == before.text[j],
            decreases len - i,
        {
            self.text[i] = msg[i];
            i += 1;
        }
        proof {
            assert(self@.text =~= before.printed(msg@).text);
        }
        len
    }

    /// Flips bit 0 of the cell at column `x`, row `y`; coordinates outside
    /// the grid, negative ones too, wrap into it.
    pub fn toggle_cell(&mut self, x: i32, y: i32)
        requires
            old(self).wf(),
        ensures
            final(self).wf(),
            final(self)@ == old(self)@.toggled(x as int, y as int),
    {
        let i = self.topology.index(x, y);
        let c = flip(self.cells[i]);
        self.cells[i] = c;
    }

    /// Kills every cell, announcing it in the text, and returns the length of
    /// the announcement to report to the host.
    pub fn clear_universe(&mut self) -> (len: usize)
        requires
            old(self).wf(),
        ensures
            final(self).wf(),
            final(self)@ == old(self)@.cleared(),
            len == clear_notice().len(),
    {
        let ghost before = self@;
        let msg: Vec<u8> = vec![99u8, 108u8, 101u8, 97u8, 114u8, 98u8, 105u8, 110u8, 103u8, 33u8, 33u8];
        proof {
            assert(msg@ =~= clear_notice());
        }
        let len = self.print(msg.as_slice());
        let n = self.cells.len();
        let mut i: usize = 0;
        while i < n
            invariant
                self@.topology == before.topology,
                self@.text == before.printed(clear_notice()).text,
                self@.longest == before.printed(clear_notice()).longest,
                self.cells.len() == n,
                before.cells.len() == n,
                i <= n,
                forall|j: int| 0 <= j < i ==> #[trigger] self.cells@[j] == 0u8,
            decreases n - i,
        {
            self.cells[i] = 0;
            i += 1;
        }
        proof {
            assert(self@.cells =~= before.cleared().cells);
            lemma_clean_values(0);
        }
        len
    }

    /// Flips bit 0 of each cell whose sample lies below `density`, announcing
    /// it in the text, and returns the length of the announcement to report
    /// to the host. The samples are binary32 values in [0, 1) drawn, one per
    /// cell in row-major order, from a generator seeded once with `entropy`;
    /// `density` is a binary32 value given by its bits and is not clamped.
    pub fn add_noise_to_universe(&mut self, density: u32, entropy: u32) -> (len: usize)
        requires
            old(self).wf(),
        ensures
            final(self).wf(),
            final(self)@ == old(self)@.noised(entropy as u64, density),
            len == noise_notice().len(),
            density == 0 || density > INFINITY ==> final(self)@.cells == old(self)@.cells,
            ONE <= density <= INFINITY ==> forall|i: int|
                0 <= i < old(self)@.cells.len() ==> #[trigger] final(self)@.cells[i] == flipped(
                    old(self)@.cells[i],
                ),
    {
        let ghost before = self@;
        let msg: Vec<u8> = vec![42u8, 112u8, 115u8, 115u8, 115u8, 104u8, 104u8, 104u8, 104u8, 42u8];
        proof {
            assert(msg@ =~= noise_notice());
        }
        let len = self.print(msg.as_slice());
        let start = seeded(entropy as u64);
        let inc = start.1;
        let mut state = start.0;
        let n = self.cells.len();
        let mut i: usize = 0;
        while i < n
            invariant
                before.valid(),
                self@.topology == before.topology,
                self@.text == before.printed(noise_notice()).text,
                self@.longest == before.printed(noise_notice()).longest,
                self.cells.len() == n,
                before.cells.len() == n,
                i <= n,
                start == seeded_state(entropy as u64),
                inc == start.1,
                state == state_after(start, i as nat),
                forall|j: int|
                    0 <= j < i ==> #[trigger] self.cells@[j] == noised_byte(
                        before.cells[j],
                        sample_at(start, j as nat),
                        density,
                    ) && sample_at(start, j as nat) < ONE,
                forall|j: int| i <= j < n ==> #[trigger] self.cells@[j] == before.cells[j],
                forall|j: int| 0 <= j < n ==> is_clean(#[trigger] self.cells@[j]),
            decreases n - i,
        {
            let d = draw(state, inc);
            let c = self.cells[i];
            proof {
                lemma_flip(c);
            }
            self.cells[i] = noised(c, d.0, density);
            state = d.1;
            i += 1;
        }
        proof {
            assert(self@.cells =~= before.noised(entropy as u64, density).cells);
            if density == 0 || density > INFINITY {
                assert(self@.cells =~= before.cells);
            }
        }
        len
    }

    /// Advances the universe by one generation.
    pub fn tick_universe(&mut self)
        requires
            old(self).wf(),
        ensures
            final(self).wf(),
            final(self)@ == old(self)@.ticked(),
            forall|i: int|
                0 <= i < final(self)@.cells.len() ==> is_clean(#[trigger] final(self)@.cells[i]),
    {
        let ghost before = self@;
        let n = self.cells.len();
        let t = self.topology;
        let mut i: usize = 0;
        while i < n
            invariant
                before.valid(),
                self@.topology == before.topology,
                self@.text == before.text,
                self@.longest == before.longest,
                self.cells.len() == n,
                before.cells.len() == n,
                i <= n,
                forall|j: int|
                    0 <= j < i ==> #[trigger] self.cells@[j] == (if is_alive(before.cells[j]) {
                        WAS_ALIVE
                    } else {
                        0u8
                    }),
                forall|j: int| i <= j < n ==> #[trigger] self.cells@[j] == before.cells[j],
            decreases n - i,
        {
            let c = promote(self.cells[i]);
            self.cells[i] = c;
            i += 1;
        }
        let mut index: usize = 0;
        while index < n
            invariant
                before.valid(),
                t == before.topology,
                self@.topology == before.topology,
                self@.text == before.text,
                self@.longest == before.longest,
                self.cells.len() == n,
                before.cells.len() == n,
                index <= n,
                forall|j: int| 0 <= j < index ==> #[trigger] self.cells@[j] == before.ticked_cell(j),
                forall|j: int|
                    index <= j < n ==> #[trigger] self.cells@[j] == (if is_alive(before.cells[j]) {
                        WAS_ALIVE
                    } else {
                        0u8
                    }),
                forall|j: int|
                    0 <= j < n ==> 16 * population(before.cells[j]) <= #[trigger] self.cells@[j]
                        <= 16 * population(before.cells[j]) + 1,
            decreases n - index,
        {
            let l = t.left(index);
            let r = t.right(index);
            let total = self.cells[t.up(index)] + self.cells[t.down(index)] + self.cells[l]
                + self.cells[r] + self.cells[t.up(l)] + self.cells[t.down(l)] + self.cells[t.up(r)]
                + self.cells[t.down(r)];
            let sum = total >> 4;
            proof {
                assert(total >> 4 == total / 16) by (bit_vector);
                assert(sum == before.live_neighbors(index as int));
            }
            let c = settle(self.cells[index], sum);
            self.cells[index] = c;
            index += 1;
        }
        proof {
            assert(self@.cells =~= before.ticked().cells);
            assert forall|i: int| 0 <= i < self@.cells.len() implies is_clean(
                #[trigger] self@.cells[i],
            ) by {
                lemma_clean_values(self@.cells[i]);
            }
        }
    }
}

/// A vector of `n` zero bytes.
fn zeroes(n: usize) -> (v: Vec<u8>)
    ensures
        v@.len() == n,
        forall|i: int| 0 <= i < n ==> v@[i] == 0u8,
{
    let mut v: Vec<u8> = Vec::new();
    let mut i: usize = 0;
    while i < n
        invariant
            i <= n,
            v@.len() == i,
            forall|j: int| 0 <= j < i ==> v@[j] == 0u8,
        decreases n - i,
    {
        v.push(0);
        i += 1;
    }
    v
}

} // verus!
