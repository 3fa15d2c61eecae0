//! Neighbor addressing: where each of the eight Moore neighbors of a cell
//! lies, as an index into the row-major grid, under either wrap policy.

use vstd::prelude::*;
use vstd::arithmetic::div_mod::{lemma_fundamental_div_mod, lemma_fundamental_div_mod_converse};

verus! {

/// A number below the modulus is its own remainder.
pub proof fn lemma_small_remainder(r: int, m: int)
    requires
        0 <= r < m,
    ensures
        r % m == r,
        r / m == 0,
{
    assert(r == 0 * m + r) by (nonlinear_arith);
    lemma_fundamental_div_mod_converse(r, m, 0, r);
}

/// What stepping an integer by one does to its remainder: the remainder
/// steps along, wrapping at either end.
pub proof fn lemma_remainder_steps(x: int, m: int)
    requires
        1 <= m,
    ensures
        0 <= x % m < m,
        (x - 1) % m == (if x % m == 0 {
            m - 1
        } else {
            x % m - 1
        }),
        (x + 1) % m == (if x % m == m - 1 {
            0
        } else {
            x % m + 1
        }),
{
    let q = x / m;
    let r = x % m;
    lemma_fundamental_div_mod(x, m);
    assert(0 <= r < m) by (nonlinear_arith)
        requires
            r == x % m,
            1 <= m,
    ;
    if r == 0 {
        assert(x - 1 == (q - 1) * m + (m - 1)) by (nonlinear_arith)
            requires
                x == m * q + r,
                r == 0,
        ;
        lemma_fundamental_div_mod_converse(x - 1, m, q - 1, m - 1);
    } else {
        assert(x - 1 == q * m + (r - 1)) by (nonlinear_arith)
            requires
                x == m * q + r,
        ;
        lemma_fundamental_div_mod_converse(x - 1, m, q, r - 1);
    }
    if r == m - 1 {
        assert(x + 1 == (q + 1) * m + 0) by (nonlinear_arith)
            requires
                x == m * q + r,
                r == m - 1,
        ;
        lemma_fundamental_div_mod_converse(x + 1, m, q + 1, 0);
    } else {
        assert(x + 1 == q * m + (r + 1)) by (nonlinear_arith)
            requires
                x == m * q + r,
        ;
        lemma_fundamental_div_mod_converse(x + 1, m, q, r + 1);
    }
}

/// The largest number of cells a grid may hold, so that every size and index
/// fits a signed 32-bit integer.
pub const MAX_CELLS: usize = 0x7FFF_FFFF;

/// How the horizontal edges of the grid are identified. The vertical edges
/// always wrap to the same column of the opposite edge.
#[derive(Clone, Copy, Debug, PartialEq, Eq, Structural)]
pub enum Wrap {
    /// Leaving a row on one side enters the same row on the other side.
    Toroidal,
    /// Leaving the grid on one side at index `i` enters it at index
    /// `area - 1 - i`: the far column of the mirrored row.
    KleinBottle,
}

/// One of the eight directions of the Moore neighborhood.
#[derive(Clone, Copy, Debug, PartialEq, Eq, Structural)]
pub enum Direction {
    Up,
    Down,
    Left,
    Right,
    UpLeft,
    DownLeft,
    UpRight,
    DownRight,
}

/// The shape of a grid: its extent on both axes and its wrap policy.
#[derive(Clone, Copy, Debug, PartialEq, Eq, Structural)]
pub struct Topology {
    pub width: usize,
    pub height: usize,
    pub wrap: Wrap,
}

impl Topology {
    /// Both axes are non-empty and the cell count is within `MAX_CELLS`.
    pub open spec fn wf(self) -> bool {
        &&& 1 <= self.width
        &&& 1 <= self.height
        &&& self.width * self.height <= MAX_CELLS
    }

    /// The number of cells.
    pub open spec fn area(self) -> int {
        self.width * self.height
    }

    /// The index one row up, wrapping from the first row to the last.
    pub open spec fn up_of(self, i: int) -> int {
        (i + self.area() - self.width) % self.area()
    }

    /// The index one row down, wrapping from the last row to the first.
    pub open spec fn down_of(self, i: int) -> int {
        (i + self.width) % self.area()
    }

    /// The index one column to the left; from the first column the wrap
    /// policy decides.
    pub open spec fn left_of(self, i: int) -> int {
        if i % (self.width as int) == 0 {
            match self.wrap {
                Wrap::Toroidal => i + self.width - 1,
                Wrap::KleinBottle => self.area() - 1 - i,
            }
        } else {
            i - 1
        }
    }

    /// The index one column to the right; from the last column the wrap
    /// policy decides.
    pub open spec fn right_of(self, i: int) -> int {
        if (i + 1) % (self.width as int) == 0 {
            match self.wrap {
                Wrap::Toroidal => i + 1 - self.width,
                Wrap::KleinBottle => self.area() - 1 - i,
            }
        } else {
            i + 1
        }
    }

    /// The index of the neighbor of `i` in direction `dir`. A diagonal is the
    /// horizontal move followed by the vertical one.
    pub open spec fn neighbor_of(self, dir: Direction, i: int) -> int {
        match dir {
            Direction::Up => self.up_of(i),
            Direction::Down => self.down_of(i),
            Direction::Left => self.left_of(i),
            Direction::Right => self.right_of(i),
            Direction::UpLeft => self.up_of(self.left_of(i)),
            Direction::DownLeft => self.down_of(self.left_of(i)),
            Direction::UpRight => self.up_of(self.right_of(i)),
            Direction::DownRight => self.down_of(self.right_of(i)),
        }
    }

    /// The index of the cell at column `x`, row `y`, each coordinate taken
    /// modulo its axis so that any pair of integers names a cell.
    pub open spec fn index_of(self, x: int, y: int) -> int {
        (x % (self.width as int)) + (y % (self.height as int)) * self.width
    }

    /// The cell count is at least either extent and a multiple of the width.
    pub proof fn lemma_area(self)
        requires
            self.wf(),
        ensures
            1 <= self.width <= self.area(),
            1 <= self.height <= self.area(),
            self.area() <= MAX_CELLS,
            self.area() % (self.width as int) == 0,
    {
        let w = self.width as int;
        let h = self.height as int;
        assert(w <= w * h && h <= w * h && (w * h) % w == 0) by (nonlinear_arith)
            requires
                1 <= w,
                1 <= h,
        ;
    }

    /// Where an index stands in its row: one that starts a row has a whole
    /// row after it, one that ends a row has a whole row up to it, and any
    /// other has a cell of the grid on that side.
    pub proof fn lemma_row_fits(self, i: int)
        requires
            self.wf(),
            0 <= i < self.area(),
        ensures
            i % (self.width as int) == 0 ==> i + self.width <= self.area(),
            i % (self.width as int) != 0 ==> 1 <= i,
            (i + 1) % (self.width as int) == 0 ==> i + 1 >= self.width,
            (i + 1) % (self.width as int) != 0 ==> i + 1 < self.area(),
    {
        let w = self.width as int;
        let h = self.height as int;
        self.lemma_area();
        assert(0int % w == 0) by (nonlinear_arith)
            requires
                1 <= w,
        ;
        if i % w == 0 {
            assert(i + w <= w * h) by (nonlinear_arith)
                requires
                    1 <= w,
                    1 <= h,
                    0 <= i < w * h,
                    i % w == 0,
            {
                assert(i == w * (i / w));
                assert(i / w < h);
                assert(w * (i / w + 1) <= w * h);
            }
        }
        if (i + 1) % w == 0 {
            assert(i + 1 >= w) by (nonlinear_arith)
                requires
                    1 <= w,
                    0 <= i,
                    (i + 1) % w == 0,
            {
                assert(i + 1 == w * ((i + 1) / w));
                assert((i + 1) / w >= 1);
            }
        }
    }

    /// Every neighbor of a cell of the grid is a cell of the grid.
    pub proof fn lemma_neighbor_in_grid(self, dir: Direction, i: int)
        requires
            self.wf(),
            0 <= i < self.area(),
        ensures
            0 <= self.neighbor_of(dir, i) < self.area(),
    {
        self.lemma_area();
        self.lemma_row_fits(i);
        let l = self.left_of(i);
        let r = self.right_of(i);
        assert(0 <= l < self.area());
        assert(0 <= r < self.area());
        self.lemma_vertical_in_grid(i);
        self.lemma_vertical_in_grid(l);
        self.lemma_vertical_in_grid(r);
    }

    /// The rows above and below a cell of the grid are rows of the grid.
    pub proof fn lemma_vertical_in_grid(self, i: int)
        requires
            self.wf(),
            0 <= i < self.area(),
        ensures
            0 <= self.up_of(i) < self.area(),
            0 <= self.down_of(i) < self.area(),
    {
        self.lemma_area();
    }

    /// The index built from a column and a row of the grid gives both back.
    pub proof fn lemma_cell_splits(self, col: int, row: int)
        requires
            self.wf(),
            0 <= col < self.width,
            0 <= row < self.height,
        ensures
            0 <= col + row * self.width < self.area(),
            (col + row * self.width) % (self.width as int) == col,
            (col + row * self.width) / (self.width as int) == row,
            self.index_of(col, row) == col + row * self.width,
    {
        self.lemma_cell_fits(col, row);
        let w = self.width as int;
        let h = self.height as int;
        lemma_fundamental_div_mod_converse(col + row * w, w, row, col);
        lemma_small_remainder(col, w);
        lemma_small_remainder(row, h);
    }

    /// Vertical moves wrap each column onto itself, under either policy: up
    /// from row `y` is row `y - 1`, down is row `y + 1`, rows taken modulo the
    /// height.
    pub proof fn law_vertical_moves(self, x: int, y: int)
        requires
            self.wf(),
        ensures
            self.up_of(self.index_of(x, y)) == self.index_of(x, y - 1),
            self.down_of(self.index_of(x, y)) == self.index_of(x, y + 1),
    {
        let w = self.width as int;
        let h = self.height as int;
        let n = self.area();
        let col = x % w;
        let row = y % h;
        let i = self.index_of(x, y);
        lemma_remainder_steps(x, w);
        lemma_remainder_steps(y, h);
        self.lemma_area();
        self.lemma_cell_splits(col, row);
        if row == 0 {
            self.lemma_cell_splits(col, h - 1);
            assert(i + n - w == col + (h - 1) * w) by (nonlinear_arith)
                requires
                    i == col + row * w,
                    row == 0,
                    n == w * h,
            ;
            lemma_small_remainder(i + n - w, n);
        } else {
            self.lemma_cell_splits(col, row - 1);
            assert(i + n - w == 1 * n + (col + (row - 1) * w)) by (nonlinear_arith)
                requires
                    i == col + row * w,
            ;
            lemma_fundamental_div_mod_converse(i + n - w, n, 1, col + (row - 1) * w);
        }
        if row == h - 1 {
            self.lemma_cell_splits(col, 0);
            assert(i + w == 1 * n + (col + 0 * w)) by (nonlinear_arith)
                requires
                    i == col + row * w,
                    row == h - 1,
                    n == w * h,
            ;
            lemma_fundamental_div_mod_converse(i + w, n, 1, col + 0 * w);
        } else {
            self.lemma_cell_splits(col, row + 1);
            assert(i + w == col + (row + 1) * w) by (nonlinear_arith)
                requires
                    i == col + row * w,
            ;
            lemma_small_remainder(i + w, n);
        }
    }

    /// Horizontal moves away from the edges stay in the row, under either
    /// policy, and under the toroidal policy they do so at the edges too:
    /// left from column `x` is column `x - 1` of the same row, right is
    /// column `x + 1`, columns taken modulo the width.
    pub proof fn law_horizontal_moves(self, x: int, y: int)
        requires
            self.wf(),
        ensures
            self.wrap == Wrap::Toroidal || x % (self.width as int) != 0 ==> self.left_of(
                self.index_of(x, y),
            ) == self.index_of(x - 1, y),
            self.wrap == Wrap::Toroidal || x % (self.width as int) != self.width - 1
                ==> self.right_of(self.index_of(x, y)) == self.index_of(x + 1, y),
    {
        let w = self.width as int;
        let h = self.height as int;
        let col = x % w;
        let row = y % h;
        lemma_remainder_steps(x, w);
        lemma_remainder_steps(y, h);
        self.lemma_cell_splits(col, row);
        assert(col + 1 + row * w == col + row * w + 1);
        lemma_remainder_steps(col + row * w, w);
    }

    /// Under the toroidal policy the cell at column 0, row 0 has the cell at
    /// the last column of the last row, which is the last cell of the grid,
    /// as its upper-left neighbor.
    pub proof fn law_torus_corner(self)
        requires
            self.wf(),
            self.wrap == Wrap::Toroidal,
        ensures
            self.neighbor_of(Direction::UpLeft, self.index_of(0, 0)) == self.index_of(
                self.width - 1,
                self.height - 1,
            ),
            self.index_of(self.width - 1, self.height - 1) == self.area() - 1,
    {
        let w = self.width as int;
        let h = self.height as int;
        self.law_horizontal_moves(0, 0);
        self.law_vertical_moves(-1, 0);
        lemma_remainder_steps(0, w);
        lemma_remainder_steps(0, h);
        lemma_small_remainder(0, w);
        lemma_small_remainder(0, h);
        lemma_small_remainder(w - 1, w);
        lemma_small_remainder(h - 1, h);
        assert((w - 1) + (h - 1) * w == w * h - 1) by (nonlinear_arith);
    }

    /// Under the Klein-bottle policy a horizontal move off either edge from
    /// index `i` lands on index `area - 1 - i`: leaving column 0 of row `y`
    /// to the left enters the last column of row `height - 1 - y`, and
    /// leaving the last column to the right enters column 0 of that row.
    /// That is another cell than the far end of row `y` itself, unless `y` is
    /// the middle row of a grid of odd height, which mirrors onto itself.
    pub proof fn law_klein_edges(self, y: int)
        requires
            self.wf(),
            self.wrap == Wrap::KleinBottle,
        ensures
            self.left_of(self.index_of(0, y)) == self.area() - 1 - self.index_of(0, y),
            self.left_of(self.index_of(0, y)) == self.index_of(
                self.width - 1,
                self.height - 1 - y,
            ),
            self.right_of(self.index_of(self.width - 1, y)) == self.area() - 1 - self.index_of(
                self.width - 1,
                y,
            ),
            self.right_of(self.index_of(self.width - 1, y)) == self.index_of(
                0,
                self.height - 1 - y,
            ),
            2 * (y % (self.height as int)) != self.height - 1 ==> self.left_of(self.index_of(0, y))
                != self.index_of(self.width - 1, y) && self.right_of(
                self.index_of(self.width - 1, y),
            ) != self.index_of(0, y),
    {
        let w = self.width as int;
        let h = self.height as int;
        let n = self.area();
        let row = y % h;
        lemma_remainder_steps(y, h);
        lemma_small_remainder(0, w);
        lemma_small_remainder(w - 1, w);
        self.lemma_cell_splits(0, row);
        self.lemma_cell_splits(w - 1, row);
        self.lemma_cell_splits(w - 1, h - 1 - row);
        self.lemma_cell_splits(0, h - 1 - row);
        lemma_remainder_steps((w - 1) + row * w, w);
        assert((h - 1 - y) % h == h - 1 - row) by {
            lemma_fundamental_div_mod(y, h);
            let q = y / h;
            assert(h - 1 - y == (-q) * h + (h - 1 - row)) by (nonlinear_arith)
                requires
                    y == h * q + row,
            ;
            lemma_fundamental_div_mod_converse(h - 1 - y, h, -q, h - 1 - row);
        }
        assert(n - 1 - (0 + row * w) == (w - 1) + (h - 1 - row) * w) by (nonlinear_arith)
            requires
                n == w * h,
        ;
        assert(n - 1 - ((w - 1) + row * w) == 0 + (h - 1 - row) * w) by (nonlinear_arith)
            requires
                n == w * h,
        ;
        if 2 * row != h - 1 {
            assert((h - 1 - row) * w != row * w) by (nonlinear_arith)
                requires
                    1 <= w,
                    h - 1 - row != row,
            ;
        }
    }

    /// A shape of the given extent, where the extent is admissible.
    pub fn new(width: usize, height: usize, wrap: Wrap) -> (r: Option<Topology>)
        ensures
            r.is_some() <==> (1 <= width && 1 <= height && width * height <= MAX_CELLS),
            r.is_some() ==> r.unwrap() == (Topology { width, height, wrap }),
    {
        if width == 0 || height == 0 {
            return None;
        }
        match width.checked_mul(height) {
            Some(n) => if n <= MAX_CELLS {
                Some(Topology { width, height, wrap })
            } else {
                None
            },
            None => None,
        }
    }

    /// The number of cells.
    pub fn length(&self) -> (n: usize)
        requires
            self.wf(),
        ensures
            n == self.area(),
            1 <= n <= MAX_CELLS,
    {
        proof {
            self.lemma_area();
        }
        self.width * self.height
    }

    /// The index one row up from `i`.
    pub fn up(&self, i: usize) -> (r: usize)
        requires
            self.wf(),
            i < self.area(),
        ensures
            r == self.up_of(i as int),
            r < self.area(),
    {
        let n = self.length();
        proof {
            self.lemma_area();
        }
        (i + (n - self.width)) % n
    }

    /// The index one row down from `i`.
    pub fn down(&self, i: usize) -> (r: usize)
        requires
            self.wf(),
            i < self.area(),
        ensures
            r == self.down_of(i as int),
            r < self.area(),
    {
        let n = self.length();
        proof {
            self.lemma_area();
        }
        (i + self.width) % n
    }

    /// The index one column to the left of `i`.
    pub fn left(&self, i: usize) -> (r: usize)
        requires
            self.wf(),
            i < self.area(),
        ensures
            r == self.left_of(i as int),
            r < self.area(),
    {
        let n = self.length();
        proof {
            self.lemma_row_fits(i as int);
        }
        if i % self.width == 0 {
            match self.wrap {
                Wrap::Toroidal => i + (self.width - 1),
                Wrap::KleinBottle => (n - 1) - i,
            }
        } else {
            i - 1
        }
    }

    /// The index one column to the right of `i`.
    pub fn right(&self, i: usize) -> (r: usize)
        requires
            self.wf(),
            i < self.area(),
        ensures
            r == self.right_of(i as int),
            r < self.area(),
    {
        let n = self.length();
        proof {
            self.lemma_row_fits(i as int);
        }
        if (i + 1) % self.width == 0 {
            match self.wrap {
                Wrap::Toroidal => (i + 1) - self.width,
                Wrap::KleinBottle => (n - 1) - i,
            }
        } else {
            i + 1
        }
    }

    /// The index of the neighbor of `i` in direction `dir`.
    pub fn neighbor(&self, dir: Direction, i: usize) -> (r: usize)
        requires
            self.wf(),
            i < self.area(),
        ensures
            r == self.neighbor_of(dir, i as int),
            r < self.area(),
    {
        match dir {
            Direction::Up => self.up(i),
            Direction::Down => self.down(i),
            Direction::Left => self.left(i),
            Direction::Right => self.right(i),
            Direction::UpLeft => self.up(self.left(i)),
            Direction::DownLeft => self.down(self.left(i)),
            Direction::UpRight => self.up(self.right(i)),
            Direction::DownRight => self.down(self.right(i)),
        }
    }

    /// The index of the cell at column `x`, row `y`, after wrapping both
    /// coordinates into the grid.
    pub fn index(&self, x: i32, y: i32) -> (r: usize)
        requires
            self.wf(),
        ensures
            r == self.index_of(x as int, y as int),
            r < self.area(),
    {
        proof {
            self.lemma_area();
        }
        let w = self.width as i64;
        let h = self.height as i64;
        let col = match (x as i64).checked_rem_euclid(w) {
            Some(c) => c,
            None => 0,
        };
        let row = match (y as i64).checked_rem_euclid(h) {
            Some(c) => c,
            None => 0,
        };
        proof {
            self.lemma_cell_fits(col as int, row as int);
        }
        (col as usize) + (row as usize) * self.width
    }

    /// A column and a row within the grid name a cell within the grid.
    pub proof fn lemma_cell_fits(self, col: int, row: int)
        requires
            self.wf(),
            0 <= col < self.width,
            0 <= row < self.height,
        ensures
            0 <= row * self.width,
            0 <= col + row * self.width < self.area(),
    {
        let w = self.width as int;
        let h = self.height as int;
        assert(0 <= row * w && col + row * w < w * h) by (nonlinear_arith)
            requires
                0 <= col < w,
                0 <= row < h,
        {
            assert(row * w + w <= h * w);
        }
    }
}

} // verus!
