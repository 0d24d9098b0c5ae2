//! The `Universe` type: a fixed-size toroidal grid of cells, advanced one
//! generation at a time.

use vstd::prelude::*;
use crate::rules::Cell;
use crate::rules::alive_at;
use crate::rules::ind;
use crate::rules::lemma_index_in_bounds;
use crate::rules::lemma_next_grid_at;
use crate::rules::lemma_wrap_minus_one;
use crate::rules::live_neighbors;
use crate::rules::next_grid;
use crate::rules::seed_cell;
use crate::rules::lemma_render_glyph_at;
use crate::rules::lemma_render_newline_at;
use crate::rules::render_grid;
use vstd::arithmetic::div_mod::lemma_mod_self_0;
use vstd::arithmetic::div_mod::lemma_small_mod;
use vstd::string::StringExecFns;

verus! {

/// The toroidal wrap of one step towards lower coordinates: `x - 1` modulo
/// `m`, so 0 wraps to the opposite edge `m - 1`.
fn wrap_dec(x: u32, m: u32) -> (r: u32)
    requires
        1 <= m,
        x < m,
    ensures
        r == (x - 1) % (m as int),
        r < m,
{
    proof {
        if x == 0 {
            lemma_wrap_minus_one(m as nat);
        } else {
            lemma_small_mod((x - 1) as nat, m as nat);
        }
    }
    if x == 0 {
        m - 1
    } else {
        x - 1
    }
}

/// The toroidal wrap of one step towards higher coordinates: `x + 1` modulo
/// `m`, so `m - 1` wraps back to 0.
fn wrap_inc(x: u32, m: u32) -> (r: u32)
    requires
        1 <= m,
        x < m,
    ensures
        r == (x + 1) % (m as int),
        r < m,
{
    proof {
        if x + 1 == m {
            lemma_mod_self_0(m as int);
        } else {
            lemma_small_mod((x + 1) as nat, m as nat);
        }
    }
    if x + 1 == m {
        0
    } else {
        x + 1
    }
}

/// The error signalled when a grid is requested whose dimensions are zero or
/// do not match the supplied cell buffer.
#[derive(Clone, Copy, Debug, PartialEq, Eq, Structural)]
pub struct InvalidDimensions;

/// A fixed-size grid of cells with toroidal topology.  `cells` holds exactly
/// `width * height` entries in row-major order (index `row * width + col`);
/// the dimensions never change after construction.
pub struct Universe {
    width: u32,
    height: u32,
    cells: Vec<Cell>,
}

impl Universe {
    /// The grid width, as seen by specifications.
    pub closed spec fn spec_width(&self) -> u32 {
        self.width
    }

    /// The grid height, as seen by specifications.
    pub closed spec fn spec_height(&self) -> u32 {
        self.height
    }

    /// The row-major cell contents, as seen by specifications.
    pub closed spec fn spec_cells(&self) -> Seq<Cell> {
        self.cells@
    }

    /// The structural invariant: both dimensions are positive, their product
    /// fits a `usize`, and the buffer holds exactly one cell per position.
    pub open spec fn wf(&self) -> bool {
        &&& 1 <= self.spec_width()
        &&& 1 <= self.spec_height()
        &&& self.spec_width() * self.spec_height() <= usize::MAX
        &&& self.spec_cells().len() == self.spec_width() * self.spec_height()
    }

    /// The flat index of the in-range position `(row, column)`.
    fn get_index(&self, row: u32, column: u32) -> (i: usize)
        requires
            self.wf(),
            row < self.spec_height(),
            column < self.spec_width(),
        ensures
            i == row * self.spec_width() + column,
            i < self.spec_cells().len(),
    {
        proof {
            lemma_index_in_bounds(
                self.spec_width() as nat,
                self.spec_height() as nat,
                row as int,
                column as int,
            );
        }
        (row as usize) * (self.width as usize) + (column as usize)
    }

    /// The cell at the in-range position `(row, column)`.
    fn cell_at_position(&self, row: u32, column: u32) -> (c: Cell)
        requires
            self.wf(),
            row < self.spec_height(),
            column < self.spec_width(),
        ensures
            c == self.spec_cells()[row * self.spec_width() + column],
    {
        let i = self.get_index(row, column);
        self.cells[i]
    }

    /// Builds a universe from explicit dimensions and a row-major cell
    /// buffer.  Fails with `InvalidDimensions` exactly when a dimension is
    /// zero or the buffer length differs from `width * height`.
    pub fn from_cells(width: u32, height: u32, cells: Vec<Cell>) -> (r: Result<
        Universe,
        InvalidDimensions,
    >)
        ensures
            r is Ok <==> (1 <= width && 1 <= height && cells@.len() == width * height),
            r matches Ok(u) ==> {
                &&& u.wf()
                &&& u.spec_width() == width
                &&& u.spec_height() == height
                &&& u.spec_cells() == cells@
            },
    {
        if width == 0 || height == 0 {
            return Err(InvalidDimensions);
        }
        proof {
            assert((width as int) * (height as int) < 0x10000000000000000) by (nonlinear_arith)
                requires
                    width < 0x100000000,
                    height < 0x100000000,
            ;
        }
        if (cells.len() as u64) != (width as u64) * (height as u64) {
            return Err(InvalidDimensions);
        }
        Ok(Universe { width, height, cells })
    }

    /// Builds the default universe: 64 by 64, seeded with the deterministic
    /// pattern that makes the cell at flat index `i` alive exactly when `i`
    /// is even or divisible by 7.
    pub fn new() -> (u: Universe)
        ensures
            u.wf(),
            u.spec_width() == 64,
            u.spec_height() == 64,
            u.spec_cells().len() == 64 * 64,
            forall|i: int| 0 <= i < u.spec_cells().len() ==> u.spec_cells()[i] == seed_cell(i),
    {
        let total: usize = 64 * 64;
        let mut cells: Vec<Cell> = Vec::new();
        let mut i: usize = 0;
        while i < total
            invariant
                total == 64 * 64,
                i <= total,
                cells@.len() == i,
                forall|j: int| 0 <= j < i ==> cells@[j] == seed_cell(j),
            decreases total - i,
        {
            if i % 2 == 0 || i % 7 == 0 {
                cells.push(Cell::Alive);
            } else {
                cells.push(Cell::Dead);
            }
            i = i + 1;
        }
        Universe { width: 64, height: 64, cells }
    }

    /// How many of the 8 toroidal Moore neighbours of the in-range position
    /// `(row, column)` are alive.
    fn live_neighbor_count(&self, row: u32, column: u32) -> (n: u8)
        requires
            self.wf(),
            row < self.spec_height(),
            column < self.spec_width(),
        ensures
            n == live_neighbors(
                self.spec_cells(),
                self.spec_width() as nat,
                self.spec_height() as nat,
                row as int,
                column as int,
            ),
            n <= 8,
    {
        let up = wrap_dec(row, self.height);
        let down = wrap_inc(row, self.height);
        let left = wrap_dec(column, self.width);
        let right = wrap_inc(column, self.width);
        proof {
            lemma_small_mod(row as nat, self.spec_height() as nat);
            lemma_small_mod(column as nat, self.spec_width() as nat);
        }
        let c0 = self.cell_at_position(up, left);
        let c1 = self.cell_at_position(up, column);
        let c2 = self.cell_at_position(up, right);
        let c3 = self.cell_at_position(row, right);
        let c4 = self.cell_at_position(down, right);
        let c5 = self.cell_at_position(down, column);
        let c6 = self.cell_at_position(down, left);
        let c7 = self.cell_at_position(row, left);
        let ghost cs = self.spec_cells();
        let ghost w = self.spec_width() as nat;
        let ghost h = self.spec_height() as nat;
        assert(alive_at(cs, w, h, row - 1, column - 1) == (c0 == Cell::Alive));
        assert(alive_at(cs, w, h, row - 1, column as int) == (c1 == Cell::Alive));
        assert(alive_at(cs, w, h, row - 1, column + 1) == (c2 == Cell::Alive));
        assert(alive_at(cs, w, h, row as int, column + 1) == (c3 == Cell::Alive));
        assert(alive_at(cs, w, h, row + 1, column + 1) == (c4 == Cell::Alive));
        assert(alive_at(cs, w, h, row + 1, column as int) == (c5 == Cell::Alive));
        assert(alive_at(cs, w, h, row + 1, column - 1) == (c6 == Cell::Alive));
        assert(alive_at(cs, w, h, row as int, column - 1) == (c7 == Cell::Alive));
        let n0: u8 = if c0 == Cell::Alive {
            1
        } else {
            0
        };
        let n1: u8 = if c1 == Cell::Alive {
            1
        } else {
            0
        };
        let n2: u8 = if c2 == Cell::Alive {
            1
        } else {
            0
        };
        let n3: u8 = if c3 == Cell::Alive {
            1
        } else {
            0
        };
        let n4: u8 = if c4 == Cell::Alive {
            1
        } else {
            0
        };
        let n5: u8 = if c5 == Cell::Alive {
            1
        } else {
            0
        };
        let n6: u8 = if c6 == Cell::Alive {
            1
        } else {
            0
        };
        let n7: u8 = if c7 == Cell::Alive {
            1
        } else {
            0
        };
        assert(n0 == ind(alive_at(cs, w, h, row - 1, column - 1)));
        assert(n1 == ind(alive_at(cs, w, h, row - 1, column as int)));
        assert(n2 == ind(alive_at(cs, w, h, row - 1, column + 1)));
        assert(n3 == ind(alive_at(cs, w, h, row as int, column + 1)));
        assert(n4 == ind(alive_at(cs, w, h, row + 1, column + 1)));
        assert(n5 == ind(alive_at(cs, w, h, row + 1, column as int)));
        assert(n6 == ind(alive_at(cs, w, h, row + 1, column - 1)));
        assert(n7 == ind(alive_at(cs, w, h, row as int, column - 1)));
        n0 + n1 + n2 + n3 + n4 + n5 + n6 + n7
    }

    /// Advances the grid one generation in place.  The whole new grid is
    /// computed from a snapshot of the pre-step state, so no cell's update
    /// can observe another cell's already-updated value; the dimensions and
    /// the buffer length are unchanged.
    pub fn tick(&mut self)
        requires
            old(self).wf(),
        ensures
            final(self).wf(),
            final(self).spec_width() == old(self).spec_width(),
            final(self).spec_height() == old(self).spec_height(),
            final(self).spec_cells().len() == old(self).spec_cells().len(),
            final(self).spec_cells() == next_grid(
                old(self).spec_cells(),
                old(self).spec_width() as nat,
                old(self).spec_height() as nat,
            ),
    {
        let ghost cs = self.spec_cells();
        let ghost w = self.spec_width() as nat;
        let ghost h = self.spec_height() as nat;
        let mut next: Vec<Cell> = Vec::new();
        let mut row: u32 = 0;
        while row < self.height
            invariant
                *self == *old(self),
                self.wf(),
                cs == self.spec_cells(),
                w == self.spec_width() as nat,
                h == self.spec_height() as nat,
                row <= self.spec_height(),
                next@.len() == row * self.spec_width(),
                forall|j: int| 0 <= j < next@.len() ==> next@[j] == next_grid(cs, w, h)[j],
            decreases self.spec_height() - row,
        {
            let mut col: u32 = 0;
            while col < self.width
                invariant
                    *self == *old(self),
                    self.wf(),
                    cs == self.spec_cells(),
                    w == self.spec_width() as nat,
                    h == self.spec_height() as nat,
                    row < self.spec_height(),
                    col <= self.spec_width(),
                    next@.len() == row * self.spec_width() + col,
                    forall|j: int| 0 <= j < next@.len() ==> next@[j] == next_grid(cs, w, h)[j],
                decreases self.spec_width() - col,
            {
                let neigh = self.live_neighbor_count(row, col);
                let new_cell = match self.cell_at_position(row, col) {
                    Cell::Alive => if neigh > 1 && neigh < 4 {
                        Cell::Alive
                    } else {
                        Cell::Dead
                    },
                    Cell::Dead => if neigh == 3 {
                        Cell::Alive
                    } else {
                        Cell::Dead
                    },
                };
                proof {
                    lemma_next_grid_at(cs, w, h, row as int, col as int);
                    lemma_index_in_bounds(w, h, row as int, col as int);
                }
                assert(new_cell == next_grid(cs, w, h)[row * self.spec_width() + col]);
                next.push(new_cell);
                col = col + 1;
            }
            proof {
                assert((row + 1) * (w as int) == row * (w as int) + (w as int))
                    by (nonlinear_arith);
            }
            row = row + 1;
        }
        proof {
            assert((h * w) == (w * h)) by (nonlinear_arith);
            assert(next@ =~= next_grid(cs, w, h));
        }
        self.cells = next;
    }

    /// Renders the grid as text: `height` lines of `width` glyphs each, one
    /// glyph per cell in row-major order, every line closed by a newline.
    /// Read-only: the grid itself is untouched.
    pub fn render(&self) -> (s: String)
        requires
            self.wf(),
        ensures
            s@ == render_grid(
                self.spec_cells(),
                self.spec_width() as nat,
                self.spec_height() as nat,
            ),
    {
        let ghost cs = self.spec_cells();
        let ghost w = self.spec_width() as nat;
        let ghost h = self.spec_height() as nat;
        let mut s = String::new();
        let mut row: u32 = 0;
        while row < self.height
            invariant
                self.wf(),
                cs == self.spec_cells(),
                w == self.spec_width() as nat,
                h == self.spec_height() as nat,
                row <= h,
                s@.len() == row * (w + 1),
                forall|j: int| 0 <= j < s@.len() ==> s@[j] == render_grid(cs, w, h)[j],
            decreases h - row,
        {
            let mut col: u32 = 0;
            while col < self.width
                invariant
                    self.wf(),
                    cs == self.spec_cells(),
                    w == self.spec_width() as nat,
                    h == self.spec_height() as nat,
                    row < h,
                    col <= w,
                    s@.len() == row * (w + 1) + col,
                    forall|j: int| 0 <= j < s@.len() ==> s@[j] == render_grid(cs, w, h)[j],
                decreases w - col,
            {
                let cell = self.cell_at_position(row, col);
                proof {
                    lemma_render_glyph_at(cs, w, h, row as int, col as int);
                    reveal_strlit("🤠");
                    reveal_strlit("💀");
                }
                if cell == Cell::Alive {
                    s.append("🤠");
                } else {
                    s.append("💀");
                }
                col = col + 1;
            }
            proof {
                lemma_render_newline_at(cs, w, h, row as int);
                reveal_strlit("\n");
                assert((row + 1) * (w + 1) == row * (w + 1) + (w + 1)) by (nonlinear_arith);
            }
            s.append("\n");
            row = row + 1;
        }
        proof {
            assert(s@ =~= render_grid(cs, w, h));
        }
        s
    }

    /// The grid width.
    pub fn width(&self) -> (w: u32)
        ensures
            w == self.spec_width(),
    {
        self.width
    }

    /// The grid height.
    pub fn height(&self) -> (h: u32)
        ensures
            h == self.spec_height(),
    {
        self.height
    }

    /// Determinism of construction: any two universes that meet the default
    /// constructor's contract hold exactly the same grid.
    pub proof fn lemma_new_deterministic(a: Universe, b: Universe)
        requires
            a.wf(),
            b.wf(),
            a.spec_width() == 64,
            a.spec_height() == 64,
            b.spec_width() == 64,
            b.spec_height() == 64,
            forall|i: int| 0 <= i < a.spec_cells().len() ==> a.spec_cells()[i] == seed_cell(i),
            forall|i: int| 0 <= i < b.spec_cells().len() ==> b.spec_cells()[i] == seed_cell(i),
        ensures
            a.spec_cells() == b.spec_cells(),
    {
        assert(a.spec_cells().len() == 64 * 64);
        assert(b.spec_cells().len() == 64 * 64);
        assert forall|i: int| 0 <= i < a.spec_cells().len() implies a.spec_cells()[i]
            == b.spec_cells()[i] by {
            assert(a.spec_cells()[i] == seed_cell(i));
            assert(b.spec_cells()[i] == seed_cell(i));
        }
        assert(a.spec_cells() =~= b.spec_cells());
    }

    /// Read-only access to the row-major cell buffer.  The view mirrors the
    /// current contents exactly; it is a borrow, so it cannot outlive the
    /// next mutation.
    pub fn cells(&self) -> (c: &Vec<Cell>)
        ensures
            c@ == self.spec_cells(),
    {
        &self.cells
    }
}

} // verus!
