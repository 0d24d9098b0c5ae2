//! The mathematical model of the automaton: cell states, the toroidal
//! neighbourhood, the generation rule, and the laws that hold of them.

use vstd::prelude::*;
use vstd::arithmetic::div_mod::lemma_fundamental_div_mod_converse;
use vstd::arithmetic::div_mod::lemma_mod_bound;
use vstd::arithmetic::div_mod::lemma_mod_multiples_vanish;
use vstd::arithmetic::div_mod::lemma_mod_self_0;
use vstd::arithmetic::div_mod::lemma_small_mod;
use vstd::arithmetic::mul::lemma_mul_basics;

verus! {

/// The state of one grid cell.  The declaration order fixes the stable
/// numeric encoding that raw consumers rely on: `Dead` is 0, `Alive` is 1.
#[derive(Clone, Copy, Debug, PartialEq, Eq, Structural)]
pub enum Cell {
    Dead,
    Alive,
}

/// Indicator of a condition: 1 when it holds, 0 otherwise.
pub open spec fn ind(b: bool) -> nat {
    if b {
        1
    } else {
        0
    }
}

/// Whether the cell at (possibly out-of-range) coordinates `(row, col)` is
/// alive, after wrapping both coordinates toroidally.  `%` here is the
/// Euclidean remainder, so `row == -1` wraps to `height - 1` and
/// `row == height` wraps to 0.
pub open spec fn alive_at(cells: Seq<Cell>, width: nat, height: nat, row: int, col: int) -> bool {
    cells[(row % (height as int)) * width + (col % (width as int))] == Cell::Alive
}

/// How many of the 8 Moore neighbours of `(row, col)` are alive, on the
/// toroidal grid.  The eight offsets are enumerated clockwise from the
/// upper-left; the order does not affect the sum.
pub open spec fn live_neighbors(
    cells: Seq<Cell>,
    width: nat,
    height: nat,
    row: int,
    col: int,
) -> nat {
    ind(alive_at(cells, width, height, row - 1, col - 1))
        + ind(alive_at(cells, width, height, row - 1, col))
        + ind(alive_at(cells, width, height, row - 1, col + 1))
        + ind(alive_at(cells, width, height, row, col + 1))
        + ind(alive_at(cells, width, height, row + 1, col + 1))
        + ind(alive_at(cells, width, height, row + 1, col))
        + ind(alive_at(cells, width, height, row + 1, col - 1))
        + ind(alive_at(cells, width, height, row, col - 1))
}

/// The generation rule for a single cell: an alive cell survives with 2 or 3
/// live neighbours, a dead cell is born with exactly 3, and every other
/// combination yields a dead cell.
pub open spec fn next_cell(current: Cell, neighbors: nat) -> Cell {
    match current {
        Cell::Alive => if 2 <= neighbors <= 3 {
            Cell::Alive
        } else {
            Cell::Dead
        },
        Cell::Dead => if neighbors == 3 {
            Cell::Alive
        } else {
            Cell::Dead
        },
    }
}

/// One whole generation step: every cell of the row-major grid is replaced by
/// `next_cell` of its state and neighbour count, all read from the same
/// pre-step snapshot.
pub open spec fn next_grid(cells: Seq<Cell>, width: nat, height: nat) -> Seq<Cell> {
    Seq::new(
        cells.len(),
        |i: int|
            next_cell(
                cells[i],
                live_neighbors(cells, width, height, i / (width as int), i % (width as int)),
            ),
    )
}

/// The deterministic seed pattern of the default constructor: the cell at
/// flat index `i` starts alive exactly when `i` is even or divisible by 7.
pub open spec fn seed_cell(i: int) -> Cell {
    if i % 2 == 0 || i % 7 == 0 {
        Cell::Alive
    } else {
        Cell::Dead
    }
}

/// The one glyph that renders a cell state.
pub open spec fn glyph(c: Cell) -> char {
    match c {
        Cell::Alive => '🤠',
        Cell::Dead => '💀',
    }
}

/// The text rendering of a grid: `height` lines, each holding the `width`
/// glyphs of one row followed by a newline.  Flat character index `j` lies
/// in line `j / (width + 1)`; within a line, positions up to `width - 1`
/// show cells and position `width` is the newline.
pub open spec fn render_grid(cells: Seq<Cell>, width: nat, height: nat) -> Seq<char> {
    Seq::new(
        height * (width + 1),
        |j: int|
            if j % ((width + 1) as int) < width {
                glyph(cells[(j / ((width + 1) as int)) * width + j % ((width + 1) as int)])
            } else {
                '\n'
            },
    )
}

/// A row-major flat index stays inside a `width * height` grid.
pub proof fn lemma_index_in_bounds(width: nat, height: nat, row: int, col: int)
    requires
        0 <= row < height,
        0 <= col < width,
    ensures
        0 <= row * width + col < width * height,
{
    assert(row * width + col < width * height) by (nonlinear_arith)
        requires
            0 <= row < height,
            0 <= col < width,
    ;
    assert(0 <= row * width + col) by (nonlinear_arith)
        requires
            0 <= row,
            0 <= col,
    ;
}

/// Wrapping one step above the top row (or left of the first column) lands on
/// the opposite edge: `-1 % m == m - 1` under the Euclidean remainder.
pub(crate) proof fn lemma_wrap_minus_one(m: nat)
    requires
        1 <= m,
    ensures
        (-1) % (m as int) == m - 1,
{
    lemma_mod_multiples_vanish(1, -1, m as int);
    lemma_small_mod((m - 1) as nat, m);
}

/// What one entry of `next_grid` is, in terms of grid coordinates: the cell
/// at `(row, col)` of the new grid is the rule applied to the old cell there
/// and its old neighbour count.
pub proof fn lemma_next_grid_at(cells: Seq<Cell>, width: nat, height: nat, row: int, col: int)
    requires
        1 <= width,
        1 <= height,
        cells.len() == width * height,
        0 <= row < height,
        0 <= col < width,
    ensures
        next_grid(cells, width, height)[row * width + col] == next_cell(
            cells[row * width + col],
            live_neighbors(cells, width, height, row, col),
        ),
{
    lemma_index_in_bounds(width, height, row, col);
    lemma_fundamental_div_mod_converse(row * width + col, width as int, row, col);
}

/// What one character of the rendering is, at a cell position: the glyph of
/// the cell at `(row, col)` stands at character index `row * (width + 1) +
/// col` of the rendered text.
pub proof fn lemma_render_glyph_at(cells: Seq<Cell>, width: nat, height: nat, row: int, col: int)
    requires
        0 <= row < height,
        0 <= col < width,
    ensures
        render_grid(cells, width, height)[row * (width + 1) + col] == glyph(
            cells[row * width + col],
        ),
{
    let stride = width + 1;
    lemma_index_in_bounds(stride, height, row, col);
    assert(stride * height == height * stride) by (nonlinear_arith);
    lemma_fundamental_div_mod_converse(row * stride + col, stride as int, row, col);
}

/// Every line of the rendering ends in a newline: character index
/// `row * (width + 1) + width` holds `'\n'`.
pub proof fn lemma_render_newline_at(cells: Seq<Cell>, width: nat, height: nat, row: int)
    requires
        0 <= row < height,
    ensures
        render_grid(cells, width, height)[row * (width + 1) + width] == '\n',
{
    let stride = width + 1;
    lemma_index_in_bounds(stride, height, row, width as int);
    assert(stride * height == height * stride) by (nonlinear_arith);
    lemma_fundamental_div_mod_converse(row * stride + width, stride as int, row, width as int);
}

/// Determinism of the step: pointwise-equal grids have equal next
/// generations.  Together with the constructors' exact contracts this pins
/// the whole evolution as a function of the initial configuration alone.
pub proof fn lemma_next_grid_deterministic(a: Seq<Cell>, b: Seq<Cell>, width: nat, height: nat)
    requires
        a.len() == b.len(),
        forall|i: int| 0 <= i < a.len() ==> a[i] == b[i],
    ensures
        next_grid(a, width, height) == next_grid(b, width, height),
{
    assert(a =~= b);
}

/// A cell value is never anything besides the two declared states.
pub proof fn lemma_cell_two_valued(c: Cell)
    ensures
        c == Cell::Dead || c == Cell::Alive,
{
    match c {
        Cell::Dead => assert(c == Cell::Dead),
        Cell::Alive => assert(c == Cell::Alive),
    }
}

/// Birth rule: a dead cell comes alive exactly when it has 3 live
/// neighbours; in particular with 2 or 4 it stays dead.
pub proof fn lemma_birth_rule(neighbors: nat)
    ensures
        next_cell(Cell::Dead, neighbors) == Cell::Alive <==> neighbors == 3,
{
}

/// Survival rule: an alive cell stays alive exactly when it has 2 or 3 live
/// neighbours; with any other count it dies.
pub proof fn lemma_survival_rule(neighbors: nat)
    ensures
        next_cell(Cell::Alive, neighbors) == Cell::Alive <==> (neighbors == 2 || neighbors == 3),
{
}

/// Toroidal wraparound at the corners: a live cell in the bottom-right
/// corner is counted among the neighbours of the top-left corner, and vice
/// versa.
pub proof fn lemma_toroidal_wraparound(cells: Seq<Cell>, width: nat, height: nat)
    requires
        1 <= width,
        1 <= height,
        cells.len() == width * height,
    ensures
        alive_at(cells, width, height, -1, -1) == (cells[(height - 1) * width + (width - 1)]
            == Cell::Alive),
        alive_at(cells, width, height, height as int, width as int) == (cells[0] == Cell::Alive),
        cells[(height - 1) * width + (width - 1)] == Cell::Alive ==> live_neighbors(
            cells,
            width,
            height,
            0,
            0,
        ) >= 1,
        cells[0] == Cell::Alive ==> live_neighbors(cells, width, height, height - 1, width - 1)
            >= 1,
{
    lemma_wrap_minus_one(height);
    lemma_wrap_minus_one(width);
    lemma_mod_self_0(height as int);
    lemma_mod_self_0(width as int);
    assert(alive_at(cells, width, height, -1, -1) == (cells[(height - 1) * width + (width - 1)]
        == Cell::Alive));
    assert((height as int) % (height as int) == 0);
    assert((width as int) % (width as int) == 0);
    lemma_mul_basics(width as int);
    assert(((height as int) % (height as int)) * width + ((width as int) % (width as int)) == 0);
    assert(alive_at(cells, width, height, height as int, width as int) == (cells[0]
        == Cell::Alive));
}

/// Still life: the all-dead configuration is a fixed point of the step.
pub proof fn lemma_all_dead_fixed_point(cells: Seq<Cell>, width: nat, height: nat)
    requires
        1 <= width,
        1 <= height,
        cells.len() == width * height,
        forall|i: int| 0 <= i < cells.len() ==> cells[i] == Cell::Dead,
    ensures
        next_grid(cells, width, height) == cells,
{
    assert forall|row: int, col: int| !alive_at(cells, width, height, row, col) by {
        lemma_mod_bound(row, height as int);
        lemma_mod_bound(col, width as int);
        lemma_index_in_bounds(width, height, row % (height as int), col % (width as int));
    }
    assert(next_grid(cells, width, height) =~= cells);
}

} // verus!
