use vstd::prelude::*;
use crate::grid::{GridCell, GridView, Position, lemma_flat_index, lemma_map_at};
use crate::screen::ScreenView;
use crate::tty::control_code::{
    ClearRegion, Command, Direction, SpecCommand, decode, lemma_decode_chunks, lemma_decode_within,
};

verus! {

/// Scrolling the region up by `n` rows and then down by `n` rows (with `n` at most the
/// region's height) brings back every row of the region below its top `n`; the top
/// `n` rows are left blank, and rows outside the region are untouched. So a region
/// whose top `n` rows are blank comes back exactly as it was.
pub proof fn lemma_scroll_round_trip(v: ScreenView, n: u16)
    requires
        v.wf(),
        v.top < v.bottom,
        n <= v.bottom - v.top,
    ensures
        forall|r: int, c: int|
            #![trigger v.scroll_up(n).scroll_down(n).grid.at(r, c)]
            v.grid.in_bounds(r, c) ==> v.scroll_up(n).scroll_down(n).grid.at(r, c) == if v.top
                <= r < v.top + n {
                v.empty_cell()
            } else {
                v.grid.at(r, c)
            },
        (forall|r: int, c: int|
            v.grid.in_bounds(r, c) && v.top <= r < v.top + n ==> v.grid.at(r, c)
                == v.empty_cell()) ==> v.scroll_up(n).scroll_down(n).grid == v.grid,
{
    let up = v.scroll_up(n);
    let down = up.scroll_down(n);
    assert forall|r: int, c: int| v.grid.in_bounds(r, c) implies down.grid.at(r, c) == if v.top
        <= r < v.top + n {
        v.empty_cell()
    } else {
        v.grid.at(r, c)
    } by {
        let k = n as int;
        let fu = |r: int, c: int|
            if v.top <= r < v.bottom - k {
                v.grid.at(r + k, c)
            } else if v.bottom - k <= r < v.bottom {
                v.empty_cell()
            } else {
                v.grid.at(r, c)
            };
        let fd = |r: int, c: int|
            if v.top + k <= r < v.bottom {
                up.grid.at(r - k, c)
            } else if v.top <= r < v.top + k {
                up.empty_cell()
            } else {
                up.grid.at(r, c)
            };
        lemma_map_at(v.grid, fu, r, c);
        lemma_map_at(up.grid, fd, r, c);
        if v.top + k <= r < v.bottom {
            lemma_map_at(v.grid, fu, r - k, c);
        }
    }
    if forall|r: int, c: int|
        v.grid.in_bounds(r, c) && v.top <= r < v.top + n ==> v.grid.at(r, c) == v.empty_cell() {
        lemma_grids_equal(down.grid, v.grid);
    }
}

/// Two well-formed grids of one size with the same cells are equal.
pub proof fn lemma_grids_equal(a: GridView, b: GridView)
    requires
        a.wf(),
        b.wf(),
        a.rows == b.rows,
        a.cols == b.cols,
        forall|r: int, c: int| a.in_bounds(r, c) ==> a.at(r, c) == b.at(r, c),
    ensures
        a == b,
{
    assert forall|j: int| 0 <= j < a.cells.len() implies a.cells[j] == b.cells[j] by {
        crate::grid::lemma_flat_index_inverse(a.rows as int, a.cols as int, j);
        let r = j / a.cols as int;
        let c = j % a.cols as int;
        assert(a.in_bounds(r, c));
        assert(r * a.cols + c == j);
    }
    assert(a.cells =~= b.cells);
}

/// Clearing from the cursor to the end of the screen leaves every row above the
/// cursor's as it was, and the cells before the cursor on its row; every cell from
/// the cursor on becomes the empty cell.
pub proof fn lemma_clear_to_end(v: ScreenView)
    requires
        v.wf(),
    ensures
        forall|r: int, c: int|
            #![trigger v.clear_screen(ClearRegion::ToEnd).grid.at(r, c)]
            v.grid.in_bounds(r, c) ==> v.clear_screen(ClearRegion::ToEnd).grid.at(r, c) == if r
                < v.cursor.row || (r == v.cursor.row && c < v.cursor.col) {
                v.grid.at(r, c)
            } else {
                v.empty_cell()
            },
{
    let row = v.cursor.row as int;
    let first = v.clear_line(ClearRegion::ToEnd);
    let last = first.clear_region(row + 1, 0xffff, 0, 0xffff);
    assert forall|r: int, c: int| v.grid.in_bounds(r, c) implies last.grid.at(r, c) == if r
        < v.cursor.row || (r == v.cursor.row && c < v.cursor.col) {
        v.grid.at(r, c)
    } else {
        v.empty_cell()
    } by {
        let f1 = |r: int, c: int|
            if row <= r < row + 1 && v.cursor.col <= c < 0xffff {
                v.empty_cell()
            } else {
                v.grid.at(r, c)
            };
        let f2 = |r: int, c: int|
            if row + 1 <= r < 0xffff && 0 <= c < 0xffff {
                first.empty_cell()
            } else {
                first.grid.at(r, c)
            };
        lemma_map_at(v.grid, f1, r, c);
        lemma_map_at(first.grid, f2, r, c);
    }
}

/// Applying `a + b` is applying `a`, then `b`.
pub proof fn lemma_apply_all_split(v: ScreenView, a: Seq<SpecCommand>, b: Seq<SpecCommand>)
    ensures
        v.apply_all(a + b) == v.apply_all(a).apply_all(b),
    decreases a.len(),
{
    if a.len() == 0 {
        assert(a + b =~= b);
    } else {
        assert((a + b)[0] == a[0]);
        assert((a + b).drop_first() =~= a.drop_first() + b);
        lemma_apply_all_split(v.apply(a[0]), a.drop_first(), b);
    }
}

/// Output that arrives in two pieces, cut anywhere, leaves the screen as it would be
/// had it arrived at once: the same commands are applied in the same order and the
/// same bytes are left over.
pub proof fn lemma_process_in_chunks(v: ScreenView, residual: Seq<u8>, x: Seq<u8>, y: Seq<u8>)
    ensures
        v.process(residual, x).0.process(v.process(residual, x).1, y) == v.process(
            residual,
            x + y,
        ),
{
    let bytes = residual + x;
    let (c1, k1) = decode(bytes);
    let bytes2 = bytes.skip(k1 as int) + y;
    let (c2, k2) = decode(bytes2);
    lemma_decode_chunks(bytes, y);
    lemma_decode_within(bytes);
    lemma_decode_within(bytes2);
    assert(residual + (x + y) =~= bytes + y);
    lemma_apply_all_split(v, c1, c2);
    assert((bytes + y).skip((k1 + k2) as int) =~= bytes2.skip(k2 as int));
}

/// The commands that write `text`, one character each.
pub open spec fn text_commands(text: Seq<char>) -> Seq<SpecCommand> {
    Seq::new(text.len(), |i: int| text_command(text[i]))
}

pub open spec fn text_command(c: char) -> SpecCommand {
    Command::Text(c)
}

/// `text` written one character after another.
pub open spec fn write_text(v: ScreenView, text: Seq<char>) -> ScreenView
    decreases text.len(),
{
    if text.len() == 0 {
        v
    } else {
        write_text(v.insert_char(text[0]), text.drop_first())
    }
}

proof fn lemma_text_commands_shape(text: Seq<char>)
    ensures
        text_commands(text).len() == text.len(),
        text.len() > 0 ==> text_commands(text)[0] == text_command(text[0]),
        text.len() > 0 ==> text_commands(text).drop_first() == text_commands(text.drop_first()),
{
    if text.len() > 0 {
        assert(text_commands(text).drop_first() =~= text_commands(text.drop_first()));
    }
}

proof fn lemma_apply_text(v: ScreenView, c: char)
    ensures
        v.apply(Command::Text(c)) == v.insert_char(c),
{
    reveal(ScreenView::apply);
}

proof fn lemma_text_commands_write(v: ScreenView, text: Seq<char>)
    ensures
        v.apply_all(text_commands(text)) == write_text(v, text),
    decreases text.len(),
{
    lemma_text_commands_shape(text);
    if text.len() > 0 {
        lemma_apply_text(v, text[0]);
        lemma_text_commands_write(v.insert_char(text[0]), text.drop_first());
    }
}

/// The state after the first `k` characters of `text` were written from the origin:
/// the cursor just past character `k - 1`, and characters `0..k` in the first `k`
/// cells.
pub open spec fn filled_through(v: ScreenView, start: ScreenView, text: Seq<char>, k: int) -> bool {
    &&& v.wf()
    &&& v.rows() == start.rows() && v.cols() == start.cols()
    &&& v.top == 0 && v.bottom == v.rows()
    &&& v.foreground == start.foreground && v.background == start.background
    &&& v.style == start.style
    &&& 0 <= k <= text.len() == v.rows() * v.cols()
    &&& k == v.cursor.row * v.cols() + v.cursor.col
    &&& cells_hold(v.grid.cells, start, text, k)
}

/// Cell `cell` holds character `ch` in the colors and style of `start`.
pub open spec fn holds(cell: GridCell, ch: char, start: ScreenView) -> bool {
    &&& cell.character == ch
    &&& cell.foreground == start.foreground
    &&& cell.background == start.background
    &&& cell.style == start.style
}

/// The first `k` cells hold the first `k` characters of `text` in the colors and
/// style of `start`.
#[verifier::opaque]
pub open spec fn cells_hold(cells: Seq<GridCell>, start: ScreenView, text: Seq<char>, k: int) -> bool {
    forall|j: int| 0 <= j < k ==> holds(#[trigger] cells[j], text[j], start)
}

proof fn lemma_cells_hold_step(
    cells: Seq<GridCell>,
    start: ScreenView,
    text: Seq<char>,
    k: int,
    cell: GridCell,
)
    requires
        cells_hold(cells, start, text, k),
        0 <= k < cells.len(),
        k < text.len(),
        holds(cell, text[k], start),
    ensures
        cells_hold(cells.update(k, cell), start, text, k + 1),
{
    reveal(cells_hold);
    let next = cells.update(k, cell);
    assert forall|j: int| 0 <= j < k + 1 implies holds(#[trigger] next[j], text[j], start) by {
        if j < k {
            assert(next[j] == cells[j]);
        }
    }
}

/// The row where the next character goes: the cursor's, or the next one when the
/// cursor is past the last column.
pub open spec fn write_row(v: ScreenView) -> int {
    if v.cursor.col == v.cols() {
        v.cursor.row + 1
    } else {
        v.cursor.row as int
    }
}

/// The column where the next character goes.
pub open spec fn write_col(v: ScreenView) -> int {
    if v.cursor.col == v.cols() {
        0
    } else {
        v.cursor.col as int
    }
}

/// `ch` written at (`write_row(v)`, `write_col(v)`), with the cursor just after it.
pub open spec fn written(v: ScreenView, ch: char) -> ScreenView {
    ScreenView {
        grid: v.grid.with_cell(
            write_row(v),
            write_col(v),
            GridCell {
                character: ch,
                foreground: v.foreground,
                background: v.background,
                style: v.style,
            },
        ),
        cursor: Position { row: write_row(v) as u16, col: (write_col(v) + 1) as u16 },
        ..v
    }
}

/// Writing a character where no scroll follows only writes its cell and moves the
/// cursor.
proof fn lemma_insert_without_scroll(v: ScreenView, ch: char)
    requires
        v.wf(),
        v.cursor.col < v.cols() || v.cursor.row + 1 < v.bottom,
    ensures
        v.insert_char(ch) == written(v, ch),
{
}

proof fn lemma_written_cells(v: ScreenView, ch: char, k: int)
    requires
        write_row(v) * v.grid.cols + write_col(v) == k,
    ensures
        written(v, ch).grid.cells == v.grid.cells.update(
            k,
            GridCell {
                character: ch,
                foreground: v.foreground,
                background: v.background,
                style: v.style,
            },
        ),
{
}

proof fn lemma_fill_position(v: ScreenView, start: ScreenView, text: Seq<char>, k: int)
    requires
        filled_through(v, start, text, k),
        k < text.len(),
    ensures
        v.cursor.col < v.cols() || v.cursor.row + 1 < v.bottom,
        0 <= write_row(v) < v.rows(),
        0 <= write_col(v) < v.cols(),
        write_row(v) * v.grid.cols + write_col(v) == k,
{
    let rows = v.rows() as int;
    let cols = v.cols() as int;
    let row = v.cursor.row as int;
    let col = v.cursor.col as int;
    if col == cols {
        assert(k == (row + 1) * cols) by (nonlinear_arith)
            requires
                k == row * cols + col,
                col == cols,
        ;
        assert(row + 1 < rows) by (nonlinear_arith)
            requires
                (row + 1) * cols < rows * cols,
                cols > 0,
        ;
    }
}

proof fn lemma_fill_step(v: ScreenView, start: ScreenView, text: Seq<char>, k: int, ch: char)
    requires
        filled_through(v, start, text, k),
        k < text.len(),
        ch == text[k],
    ensures
        v.cursor.col < v.cols() || v.cursor.row + 1 < v.bottom,
        filled_through(written(v, ch), start, text, k + 1),
{
    assert(v.grid.wf());
    assert(k < v.grid.cells.len());
    lemma_fill_position(v, start, text, k);
    lemma_written_cells(v, ch, k);
    let cell = GridCell {
        character: ch,
        foreground: v.foreground,
        background: v.background,
        style: v.style,
    };
    lemma_cells_hold_step(v.grid.cells, start, text, k, cell);
    let y = written(v, ch);
    assert(y.grid.cells.len() == v.grid.cells.len());
    assert(y.cursor.row * y.grid.cols + y.cursor.col == k + 1);
}

proof fn lemma_fill_rest(v: ScreenView, start: ScreenView, text: Seq<char>, k: int)
    requires
        filled_through(v, start, text, k),
    ensures
        filled_through(write_text(v, text.skip(k)), start, text, text.len() as int),
    decreases text.len() - k,
{
    if k < text.len() {
        let ch = text[k];
        lemma_fill_step(v, start, text, k, ch);
        lemma_insert_without_scroll(v, ch);
        assert(text.skip(k)[0] == text[k]);
        assert(text.skip(k).drop_first() =~= text.skip(k + 1));
        lemma_fill_rest(v.insert_char(text[k]), start, text, k + 1);
    } else {
        assert(text.skip(k) =~= Seq::<char>::empty());
    }
}

/// Clearing the whole screen and then writing `rows * cols` characters from the
/// origin, with the whole grid as scrolling region, fills every cell: character `k`
/// lands in row `k / cols`, column `k % cols`, in the current colors and style. This
/// holds for the decoded text commands and for the same characters written one call
/// of `Screen::text` after another (`write_text`).
pub proof fn lemma_clear_then_fill(v: ScreenView, text: Seq<char>)
    requires
        v.wf(),
        v.cursor.row == 0 && v.cursor.col == 0,
        v.top == 0,
        v.bottom == v.rows(),
        text.len() == v.rows() * v.cols(),
    ensures
        forall|r: int, c: int|
            #![trigger v.clear_screen(ClearRegion::All).apply_all(text_commands(text)).grid.at(r, c)]
            v.grid.in_bounds(r, c) ==> v.clear_screen(ClearRegion::All).apply_all(
                text_commands(text),
            ).grid.at(r, c) == (GridCell {
                character: text[r * v.cols() + c],
                foreground: v.foreground,
                background: v.background,
                style: v.style,
            }),
        forall|r: int, c: int|
            #![trigger write_text(v.clear_screen(ClearRegion::All), text).grid.at(r, c)]
            v.grid.in_bounds(r, c) ==> write_text(v.clear_screen(ClearRegion::All), text).grid.at(
                r,
                c,
            ) == (GridCell {
                character: text[r * v.cols() + c],
                foreground: v.foreground,
                background: v.background,
                style: v.style,
            }),
{
    let cleared = v.clear_screen(ClearRegion::All);
    let f = |r: int, c: int|
        if 0 <= r < 0xffff && 0 <= c < 0xffff {
            v.empty_cell()
        } else {
            v.grid.at(r, c)
        };
    assert(cleared.grid == v.grid.map(f));
    assert(cells_hold(cleared.grid.cells, v, text, 0)) by {
        reveal(cells_hold);
    }
    assert(filled_through(cleared, v, text, 0));
    lemma_fill_rest(cleared, v, text, 0);
    assert(text.skip(0) =~= text);
    lemma_text_commands_write(cleared, text);
    let done = write_text(cleared, text);
    assert forall|r: int, c: int| v.grid.in_bounds(r, c) implies done.grid.at(r, c) == (GridCell {
        character: text[r * v.cols() + c],
        foreground: v.foreground,
        background: v.background,
        style: v.style,
    }) by {
        lemma_flat_index(v.rows() as int, v.cols() as int, r, c);
        reveal(cells_hold);
        assert(holds(done.grid.cells[r * v.cols() + c], text[r * v.cols() + c], v));
    }
}

/// Cursor movement stops at the grid's edges: after a relative move or an absolute
/// placement the cursor is on a cell of the grid, whatever the distance or target.
pub proof fn lemma_cursor_moves_stay_on_grid(
    v: ScreenView,
    direction: Direction,
    steps: u16,
    row: u16,
    col: u16,
)
    requires
        v.wf(),
    ensures
        v.move_cursor(direction, steps).wf(),
        v.move_cursor(direction, steps).cursor.row < v.rows(),
        v.move_cursor(direction, steps).cursor.col < v.cols(),
        v.set_cursor_pos(row, col).wf(),
        v.set_cursor_pos(row, col).cursor.row < v.rows(),
        v.set_cursor_pos(row, col).cursor.col < v.cols(),
        v.restore_cursor().cursor.row < v.rows(),
        v.restore_cursor().cursor.col < v.cols(),
{
}

} // verus!
