use vstd::prelude::*;
use vstd::arithmetic::div_mod::lemma_fundamental_div_mod_converse;
use vstd::arithmetic::div_mod::lemma_fundamental_div_mod;
use crate::color::{Color, default_background, default_foreground};
use crate::tty::control_code::CharacterStyles;

verus! {

/// A zero-indexed (row, column) place on the grid.
#[derive(Debug, Clone, Copy, PartialEq, Eq, Hash)]
pub struct Position {
    pub row: u16,
    pub col: u16,
}

impl Position {
    pub fn new(row: u16, col: u16) -> (r: Position)
        ensures
            r == (Position { row, col }),
    {
        Position { row, col }
    }
}

/// One character cell with its colors and styles.
#[derive(Debug, Clone, Copy, PartialEq, Eq)]
pub struct GridCell {
    pub character: char,
    pub foreground: Color,
    pub background: Color,
    pub style: CharacterStyles,
}

/// A space in the default colors with no style.
pub open spec fn empty_cell() -> GridCell {
    GridCell {
        character: ' ',
        foreground: default_foreground(),
        background: default_background(),
        style: CharacterStyles { bits: 0 },
    }
}

impl GridCell {
    pub fn empty() -> (r: GridCell)
        ensures
            r == empty_cell(),
    {
        GridCell {
            character: ' ',
            foreground: Color::default_foreground(),
            background: Color::default_background(),
            style: CharacterStyles::empty(),
        }
    }
}

/// What a grid holds: its size and its cells, row after row.
pub struct GridView {
    pub rows: u16,
    pub cols: u16,
    pub cells: Seq<GridCell>,
}

/// The cells of a `rows` by `cols` grid whose cell (r, c) is `f(r, c)`.
pub open spec fn cells_from_fn(rows: u16, cols: u16, f: spec_fn(int, int) -> GridCell) -> Seq<
    GridCell,
> {
    Seq::new((rows * cols) as nat, |j: int| f(j / cols as int, j % cols as int))
}

impl GridView {
    pub open spec fn wf(self) -> bool {
        self.cells.len() == self.rows * self.cols
    }

    pub open spec fn in_bounds(self, r: int, c: int) -> bool {
        0 <= r < self.rows && 0 <= c < self.cols
    }

    /// The cell at row `r`, column `c`.
    pub open spec fn at(self, r: int, c: int) -> GridCell {
        self.cells[r * self.cols + c]
    }

    /// The same size, with cell (r, c) set to `f(r, c)`.
    pub open spec fn map(self, f: spec_fn(int, int) -> GridCell) -> GridView {
        GridView { cells: cells_from_fn(self.rows, self.cols, f), ..self }
    }

    /// Cells in rows `[r0, r1)` and columns `[c0, c1)` set to `cell`; ranges past the
    /// grid's edge stop at the edge.
    pub open spec fn filled(self, r0: int, r1: int, c0: int, c1: int, cell: GridCell) -> GridView {
        self.map(|r: int, c: int| if r0 <= r < r1 && c0 <= c < c1 { cell } else { self.at(r, c) })
    }

    /// Rows `[top, bottom)` moved up by `n` rows (at most the region's height), with
    /// the rows that open at the bottom of the region set to `blank`. An empty region
    /// is left as it is.
    pub open spec fn shifted_up(self, top: int, bottom: int, n: int, blank: GridCell) -> GridView {
        let k = if n < bottom - top { n } else { bottom - top };
        self.map(
            |r: int, c: int|
                if top <= r < bottom - k {
                    self.at(r + k, c)
                } else if bottom - k <= r < bottom {
                    blank
                } else {
                    self.at(r, c)
                },
        )
    }

    /// Rows `[top, bottom)` moved down by `n` rows (at most the region's height), with
    /// the rows that open at the top of the region set to `blank`.
    pub open spec fn shifted_down(self, top: int, bottom: int, n: int, blank: GridCell) -> GridView {
        let k = if n < bottom - top { n } else { bottom - top };
        self.map(
            |r: int, c: int|
                if top + k <= r < bottom {
                    self.at(r - k, c)
                } else if top <= r < top + k {
                    blank
                } else {
                    self.at(r, c)
                },
        )
    }

    /// Cell (r, c) set to `cell`.
    pub open spec fn with_cell(self, r: int, c: int, cell: GridCell) -> GridView {
        GridView { cells: self.cells.update(r * self.cols + c, cell), ..self }
    }
}

/// Row `r` and column `c` of a grid `cols` wide sit at flat index `r * cols + c`.
pub proof fn lemma_flat_index(rows: int, cols: int, r: int, c: int)
    requires
        0 <= r < rows,
        0 <= c < cols,
    ensures
        0 <= r * cols + c < rows * cols,
        (r * cols + c) / cols == r,
        (r * cols + c) % cols == c,
{
    assert(0 <= r * cols + c < rows * cols) by (nonlinear_arith)
        requires
            0 <= r < rows,
            0 <= c < cols,
    ;
    lemma_fundamental_div_mod_converse(r * cols + c, cols, r, c);
}

/// A flat index below `rows * cols` names a row below `rows` and a column below `cols`.
pub proof fn lemma_flat_index_inverse(rows: int, cols: int, j: int)
    requires
        0 <= j < rows * cols,
        0 <= rows,
        0 <= cols,
    ensures
        cols > 0,
        0 <= j / cols < rows,
        0 <= j % cols < cols,
        j == (j / cols) * cols + j % cols,
{
    assert(cols > 0) by (nonlinear_arith)
        requires
            0 <= j < rows * cols,
            0 <= rows,
            0 <= cols,
    ;
    lemma_fundamental_div_mod(j, cols);
    assert(0 <= j / cols < rows) by (nonlinear_arith)
        requires
            0 <= j < rows * cols,
            cols > 0,
            j == cols * (j / cols) + j % cols,
            0 <= j % cols < cols,
    ;
    assert((j / cols) * cols == cols * (j / cols)) by (nonlinear_arith);
}

/// A grid's cell (r, c) built by `map` is `f(r, c)`.
pub proof fn lemma_map_at(g: GridView, f: spec_fn(int, int) -> GridCell, r: int, c: int)
    requires
        g.in_bounds(r, c),
    ensures
        g.map(f).at(r, c) == f(r, c),
        g.map(f).wf(),
        g.map(f).rows == g.rows && g.map(f).cols == g.cols,
{
    lemma_flat_index(g.rows as int, g.cols as int, r, c);
}

/// A two-dimensional grid of cells of a fixed size, stored row after row.
pub struct CharacterGrid {
    rows: u16,
    cols: u16,
    cells: Vec<GridCell>,
}

impl View for CharacterGrid {
    type V = GridView;

    closed spec fn view(&self) -> GridView {
        GridView { rows: self.rows, cols: self.cols, cells: self.cells@ }
    }
}

impl CharacterGrid {
    /// The grid's invariant: it holds exactly `rows * cols` cells.
    pub open spec fn wf(&self) -> bool {
        self@.wf()
    }

    /// A `rows` by `cols` grid of empty cells.
    pub fn new(rows: u16, cols: u16) -> (r: CharacterGrid)
        ensures
            r.wf(),
            r@.rows == rows,
            r@.cols == cols,
            forall|i: int, j: int| r@.in_bounds(i, j) ==> #[trigger] r@.at(i, j) == empty_cell(),
    {
        assert(rows * cols <= 0xffff * 0xffff) by (nonlinear_arith)
            requires
                rows <= 0xffff,
                cols <= 0xffff,
        ;
        let n = rows as usize * cols as usize;
        let mut cells: Vec<GridCell> = Vec::new();
        let empty = GridCell::empty();
        while cells.len() < n
            invariant
                empty == empty_cell(),
                cells@.len() <= n,
                n == rows * cols,
                forall|k: int| 0 <= k < cells@.len() ==> cells@[k] == empty_cell(),
            decreases n - cells@.len(),
        {
            cells.push(empty);
        }
        let grid = CharacterGrid { rows, cols, cells };
        assert forall|i: int, j: int| grid@.in_bounds(i, j) implies #[trigger] grid@.at(i, j)
            == empty_cell() by {
            lemma_flat_index(rows as int, cols as int, i, j);
        }
        grid
    }

    /// `[rows, cols]`.
    pub fn size(&self) -> (r: [u16; 2])
        ensures
            r == [self@.rows, self@.cols],
    {
        [self.rows, self.cols]
    }

    pub fn cols(&self) -> (r: u16)
        ensures
            r == self@.cols,
    {
        self.cols
    }

    pub fn rows(&self) -> (r: u16)
        ensures
            r == self@.rows,
    {
        self.rows
    }

    /// The index of the last column.
    pub fn max_col(&self) -> (r: u16)
        requires
            self@.cols > 0,
        ensures
            r == self@.cols - 1,
    {
        self.cols - 1
    }

    /// The index of the last row.
    pub fn max_row(&self) -> (r: u16)
        requires
            self@.rows > 0,
        ensures
            r == self@.rows - 1,
    {
        self.rows - 1
    }

    /// The cell at `pos`, which must lie on the grid.
    pub fn get(&self, pos: Position) -> (r: GridCell)
        requires
            self.wf(),
            self@.in_bounds(pos.row as int, pos.col as int),
        ensures
            r == self@.at(pos.row as int, pos.col as int),
    {
        proof {
            lemma_flat_index(self.rows as int, self.cols as int, pos.row as int, pos.col as int);
            assert(self.cells@.len() == self.rows * self.cols);
        }
        let n = self.cells.len();
        self.cells[pos.col as usize + pos.row as usize * self.cols as usize]
    }

    /// Writes `cell` at `pos`, which must lie on the grid.
    pub fn set(&mut self, pos: Position, cell: GridCell)
        requires
            old(self).wf(),
            old(self)@.in_bounds(pos.row as int, pos.col as int),
        ensures
            final(self)@ == old(self)@.with_cell(pos.row as int, pos.col as int, cell),
            final(self).wf(),
    {
        proof {
            lemma_flat_index(self.rows as int, self.cols as int, pos.row as int, pos.col as int);
            assert(self.cells@.len() == self.rows * self.cols);
        }
        let n = self.cells.len();
        let i = pos.row as usize * self.cols as usize + pos.col as usize;
        self.cells.set(i, cell);
        assert(self.cells@ =~= old(self).cells@.update(pos.row * old(self).cols + pos.col, cell));
    }

    /// Fills rows `[row_start, row_end)` and columns `[col_start, col_end)` with `cell`;
    /// ranges that run past the grid stop at its edge, and empty ranges change nothing.
    #[verifier::loop_isolation(false)]
    pub fn fill_region(
        &mut self,
        row_start: u16,
        row_end: u16,
        col_start: u16,
        col_end: u16,
        cell: GridCell,
    )
        requires
            old(self).wf(),
        ensures
            final(self).wf(),
            final(self)@ == old(self)@.filled(
                row_start as int,
                row_end as int,
                col_start as int,
                col_end as int,
                cell,
            ),
    {
        let ghost g = self@;
        let ghost f = |r: int, c: int|
            if row_start <= r < row_end && col_start <= c < col_end {
                cell
            } else {
                g.at(r, c)
            };
        let n = self.cells.len();
        let cols = self.cols;
        let mut cells: Vec<GridCell> = Vec::new();
        let mut j: usize = 0;
        while j < n
            invariant
                j <= n,
                n == g.cells.len(),
                g == self@,
                g.wf(),
                cols == g.cols,
                cells@ =~= cells_from_fn(g.rows, g.cols, f).take(j as int),
            decreases n - j,
        {
            proof {
                lemma_flat_index_inverse(g.rows as int, g.cols as int, j as int);
            }
            let r = j / cols as usize;
            let c = j % cols as usize;
            assert(r as int == j as int / g.cols as int && c as int == j as int % g.cols as int);
            let value = if row_start as usize <= r && r < row_end as usize && col_start as usize
                <= c && c < col_end as usize {
                cell
            } else {
                assert(self.cells@[j as int] == g.at(r as int, c as int));
                self.cells[j]
            };
            assert(value == f(j as int / g.cols as int, j as int % g.cols as int));
            cells.push(value);
            j = j + 1;
        }
        assert(cells@ =~= cells_from_fn(g.rows, g.cols, f));
        self.cells = cells;
    }

    /// Moves rows `[top, bottom)` up by `count` (at most the region's height) and fills
    /// the rows that open at the bottom of the region with `blank`.
    #[verifier::loop_isolation(false)]
    pub fn shift_up(&mut self, top: u16, bottom: u16, count: u16, blank: GridCell)
        requires
            old(self).wf(),
            bottom <= old(self)@.rows,
        ensures
            final(self).wf(),
            final(self)@ == old(self)@.shifted_up(top as int, bottom as int, count as int, blank),
    {
        let ghost g = self@;
        let ghost k = if count < bottom - top { count as int } else { bottom - top };
        let ghost f = |r: int, c: int|
            if top <= r < bottom - k {
                g.at(r + k, c)
            } else if bottom - k <= r < bottom {
                blank
            } else {
                g.at(r, c)
            };
        let n = self.cells.len();
        let cols = self.cols;
        let shift: u16 = if top >= bottom {
            0
        } else if count < bottom - top {
            count
        } else {
            bottom - top
        };
        let mut cells: Vec<GridCell> = Vec::new();
        let mut j: usize = 0;
        while j < n
            invariant
                j <= n,
                n == g.cells.len(),
                g == self@,
                g.wf(),
                cols == g.cols,
                bottom <= g.rows,
                top < bottom ==> shift == k,
                top >= bottom ==> shift == 0,
                cells@ =~= cells_from_fn(g.rows, g.cols, f).take(j as int),
            decreases n - j,
        {
            proof {
                lemma_flat_index_inverse(g.rows as int, g.cols as int, j as int);
            }
            let r = j / cols as usize;
            let c = j % cols as usize;
            let value = if top as usize <= r && r + (shift as usize) < bottom as usize {
                proof {
                    lemma_flat_index(g.rows as int, g.cols as int, r + shift, c as int);
                }
                self.cells[(r + shift as usize) * cols as usize + c]
            } else if top < bottom && (bottom - shift) as usize <= r && r < bottom as usize {
                blank
            } else {
                self.cells[j]
            };
            assert(value == f(j as int / g.cols as int, j as int % g.cols as int));
            cells.push(value);
            j = j + 1;
        }
        assert(cells@ =~= cells_from_fn(g.rows, g.cols, f));
        self.cells = cells;
    }

    /// Moves rows `[top, bottom)` down by `count` (at most the region's height) and fills
    /// the rows that open at the top of the region with `blank`.
    #[verifier::loop_isolation(false)]
    pub fn shift_down(&mut self, top: u16, bottom: u16, count: u16, blank: GridCell)
        requires
            old(self).wf(),
            bottom <= old(self)@.rows,
        ensures
            final(self).wf(),
            final(self)@ == old(self)@.shifted_down(top as int, bottom as int, count as int, blank),
    {
        let ghost g = self@;
        let ghost k = if count < bottom - top { count as int } else { bottom - top };
        let ghost f = |r: int, c: int|
            if top + k <= r < bottom {
                g.at(r - k, c)
            } else if top <= r < top + k {
                blank
            } else {
                g.at(r, c)
            };
        let n = self.cells.len();
        let cols = self.cols;
        let shift: u16 = if top >= bottom {
            0
        } else if count < bottom - top {
            count
        } else {
            bottom - top
        };
        let mut cells: Vec<GridCell> = Vec::new();
        let mut j: usize = 0;
        while j < n
            invariant
                j <= n,
                n == g.cells.len(),
                g == self@,
                g.wf(),
                cols == g.cols,
                bottom <= g.rows,
                top < bottom ==> shift == k,
                top >= bottom ==> shift == 0,
                cells@ =~= cells_from_fn(g.rows, g.cols, f).take(j as int),
            decreases n - j,
        {
            proof {
                lemma_flat_index_inverse(g.rows as int, g.cols as int, j as int);
            }
            let r = j / cols as usize;
            let c = j % cols as usize;
            let value = if top < bottom && (top + shift) as usize <= r && r < bottom as usize {
                proof {
                    lemma_flat_index(g.rows as int, g.cols as int, r - shift, c as int);
                }
                self.cells[(r - shift as usize) * cols as usize + c]
            } else if top as usize <= r && r < (top as usize + shift as usize) {
                blank
            } else {
                self.cells[j]
            };
            assert(value == f(j as int / g.cols as int, j as int % g.cols as int));
            cells.push(value);
            j = j + 1;
        }
        assert(cells@ =~= cells_from_fn(g.rows, g.cols, f));
        self.cells = cells;
    }

    /// Moves the whole grid up by `rows` rows and fills the rows that open at the bottom
    /// with empty cells.
    pub fn scroll_up(&mut self, rows: u16)
        requires
            old(self).wf(),
        ensures
            final(self).wf(),
            final(self)@ == old(self)@.shifted_up(0, old(self)@.rows as int, rows as int, empty_cell()),
    {
        let bottom = self.rows;
        self.shift_up(0, bottom, rows, GridCell::empty());
    }

    /// Fills rows `[row_start, row_end)` and columns `[col_start, col_end)` with empty
    /// cells; ranges stop at the grid's edge.
    pub fn clear_region(&mut self, row_start: u16, row_end: u16, col_start: u16, col_end: u16)
        requires
            old(self).wf(),
        ensures
            final(self).wf(),
            final(self)@ == old(self)@.filled(
                row_start as int,
                row_end as int,
                col_start as int,
                col_end as int,
                empty_cell(),
            ),
    {
        self.fill_region(row_start, row_end, col_start, col_end, GridCell::empty());
    }
}

} // verus!
