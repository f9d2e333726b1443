use vstd::prelude::*;
use crate::color::{Color, default_foreground};
use crate::grid::{CharacterGrid, GridCell, GridView, Position};
use crate::render::CursorState;
use vstd::slice::slice_to_vec;
use crate::tty::control_code::{
    Behaviour, CharacterStyles, ClearRegion, Command, CursorBlink, CursorShape, CursorStyle,
    Direction, SpecCommand, Toggle, commands_view, decode, parse,
};

verus! {

/// Independent on/off behaviours of the terminal.
#[derive(Debug, Clone, Copy, PartialEq, Eq)]
pub struct Behaviours {
    pub show_cursor: bool,
    pub alternate_buffer: bool,
    pub bracketed_paste: bool,
    pub application_cursor: bool,
}

/// The behaviours a screen starts with: the cursor shown, everything else off.
pub open spec fn default_behaviours() -> Behaviours {
    Behaviours {
        show_cursor: true,
        alternate_buffer: false,
        bracketed_paste: false,
        application_cursor: false,
    }
}

impl Default for Behaviours {
    fn default() -> (r: Behaviours)
        ensures
            r == default_behaviours(),
    {
        Behaviours {
            show_cursor: true,
            alternate_buffer: false,
            bracketed_paste: false,
            application_cursor: false,
        }
    }
}

/// Everything a screen holds, as specifications see it.
pub struct ScreenView {
    pub title: Seq<char>,
    pub grid: GridView,
    pub alternate_grid: GridView,
    pub cursor: Position,
    pub saved_cursor: Position,
    pub cursor_style: CursorStyle,
    pub cursor_color: Color,
    pub style: CharacterStyles,
    pub foreground: Color,
    pub background: Color,
    /// First row of the scrolling region.
    pub top: u16,
    /// The row past the last one of the scrolling region.
    pub bottom: u16,
    pub behaviours: Behaviours,
}

/// `a - b`, or 0 when `b` is larger.
pub open spec fn saturating_sub(a: u16, b: u16) -> u16 {
    if a >= b {
        (a - b) as u16
    } else {
        0
    }
}

/// `a + b`, or the largest `u16` when that does not fit.
pub open spec fn saturating_add(a: u16, b: u16) -> u16 {
    if a + b <= 0xffff {
        (a + b) as u16
    } else {
        0xffff
    }
}

pub open spec fn min(a: u16, b: u16) -> u16 {
    if a <= b {
        a
    } else {
        b
    }
}

/// The character written in place of bytes that are not valid UTF-8.
pub open spec fn replacement_char() -> char {
    '\u{fffd}'
}

impl ScreenView {
    pub open spec fn rows(self) -> u16 {
        self.grid.rows
    }

    pub open spec fn cols(self) -> u16 {
        self.grid.cols
    }

    /// Both grids are well formed and of one size (at least one cell), the cursor is on
    /// a row of the grid and at most one column past its last, and the scrolling
    /// region lies within the grid.
    pub open spec fn wf(self) -> bool {
        &&& self.grid.wf()
        &&& self.alternate_grid.wf()
        &&& self.alternate_grid.rows == self.grid.rows
        &&& self.alternate_grid.cols == self.grid.cols
        &&& self.rows() >= 1
        &&& self.cols() >= 1
        &&& self.cursor.row < self.rows()
        &&& self.cursor.col <= self.cols()
        &&& self.top <= self.rows()
        &&& self.bottom <= self.rows()
    }

    /// The cell that clears leave: a space on the current background, with no style.
    pub open spec fn empty_cell(self) -> GridCell {
        GridCell {
            character: ' ',
            foreground: default_foreground(),
            background: self.background,
            style: CharacterStyles { bits: 0 },
        }
    }

    pub open spec fn with_grid(self, grid: GridView) -> ScreenView {
        ScreenView { grid, ..self }
    }

    pub open spec fn with_cursor(self, row: u16, col: u16) -> ScreenView {
        ScreenView { cursor: Position { row, col }, ..self }
    }

    pub open spec fn scroll_up(self, count: u16) -> ScreenView {
        self.with_grid(
            self.grid.shifted_up(self.top as int, self.bottom as int, count as int, self.empty_cell()),
        )
    }

    pub open spec fn scroll_down(self, count: u16) -> ScreenView {
        self.with_grid(
            self.grid.shifted_down(
                self.top as int,
                self.bottom as int,
                count as int,
                self.empty_cell(),
            ),
        )
    }

    /// Down one row; on the last row of the scrolling region, the region scrolls up.
    pub open spec fn advance_row(self) -> ScreenView {
        if self.cursor.row + 1 < self.bottom {
            self.with_cursor((self.cursor.row + 1) as u16, self.cursor.col)
        } else {
            self.scroll_up(1)
        }
    }

    /// Right one column; past the column after the last, to the start of the next row.
    pub open spec fn advance_column(self) -> ScreenView {
        if self.cursor.col < self.cols() {
            self.with_cursor(self.cursor.row, (self.cursor.col + 1) as u16)
        } else {
            self.with_cursor(self.cursor.row, 0).advance_row()
        }
    }

    /// `ch` in the current colors and style at the cursor, which then moves right;
    /// a cursor past the last column first wraps to the next row.
    pub open spec fn insert_char(self, ch: char) -> ScreenView {
        let v = if self.cursor.col == self.cols() {
            self.with_cursor(self.cursor.row, 0).advance_row()
        } else {
            self
        };
        let cell = GridCell {
            character: ch,
            foreground: self.foreground,
            background: self.background,
            style: self.style,
        };
        v.with_grid(v.grid.with_cell(v.cursor.row as int, v.cursor.col as int, cell)).advance_column()
    }

    /// Columns forward until one that is a multiple of 8.
    pub open spec fn tab(self) -> ScreenView
        decreases self.cols() - self.cursor.col,
    {
        let next = self.advance_column();
        if next.cursor.col % 8 == 0 {
            next
        } else if self.cursor.col < next.cursor.col && next.cols() == self.cols() {
            next.tab()
        } else {
            next
        }
    }

    pub open spec fn backspace(self) -> ScreenView {
        if self.cursor.col > 0 {
            self.with_cursor(self.cursor.row, (self.cursor.col - 1) as u16)
        } else {
            self.with_cursor(self.cursor.row, (self.cols() - 1) as u16)
        }
    }

    pub open spec fn reverse_line_feed(self) -> ScreenView {
        let v = self.with_cursor(self.cursor.row, 0);
        if self.cursor.row > self.top {
            v.with_cursor((self.cursor.row - 1) as u16, 0)
        } else {
            v.scroll_down(1)
        }
    }

    /// The rows from the cursor's to the end of the scrolling region move up by
    /// `count`; blank rows open at the bottom of the region.
    pub open spec fn delete_lines(self, count: u16) -> ScreenView {
        self.with_grid(
            self.grid.shifted_up(
                self.cursor.row as int,
                self.bottom as int,
                count as int,
                self.empty_cell(),
            ),
        )
    }

    /// The rows from the cursor's to the end of the scrolling region move down by
    /// `count`; blank rows open at the cursor.
    pub open spec fn insert_lines(self, count: u16) -> ScreenView {
        self.with_grid(
            self.grid.shifted_down(
                self.cursor.row as int,
                self.bottom as int,
                count as int,
                self.empty_cell(),
            ),
        )
    }

    /// The cursor moves `steps` in `direction` and stops at the grid's edges; it ends
    /// on a cell of the grid.
    pub open spec fn move_cursor(self, direction: Direction, steps: u16) -> ScreenView {
        let row = match direction {
            Direction::Up => saturating_sub(self.cursor.row, steps),
            Direction::Down => min(saturating_add(self.cursor.row, steps), (self.rows() - 1) as u16),
            _ => self.cursor.row,
        };
        let col = match direction {
            Direction::Left => saturating_sub(self.cursor.col, steps),
            Direction::Right => min(saturating_add(self.cursor.col, steps), (self.cols() - 1) as u16),
            _ => self.cursor.col,
        };
        self.with_cursor(row, min(col, (self.cols() - 1) as u16))
    }

    pub open spec fn set_cursor_pos(self, row: u16, col: u16) -> ScreenView {
        self.with_cursor(min(row, (self.rows() - 1) as u16), min(col, (self.cols() - 1) as u16))
    }

    pub open spec fn save_cursor(self) -> ScreenView {
        ScreenView { saved_cursor: self.cursor, ..self }
    }

    pub open spec fn restore_cursor(self) -> ScreenView {
        self.set_cursor_pos(self.saved_cursor.row, self.saved_cursor.col)
    }

    pub open spec fn set_scrolling_region(self, top: u16, bottom: u16) -> ScreenView {
        ScreenView { top: min(top, self.rows()), bottom: min(bottom, self.rows()), ..self }
    }

    /// Rows `[r0, r1)` and columns `[c0, c1)` filled with the empty cell.
    pub open spec fn clear_region(self, r0: int, r1: int, c0: int, c1: int) -> ScreenView {
        self.with_grid(self.grid.filled(r0, r1, c0, c1, self.empty_cell()))
    }

    /// The column past the cursor's, as far as a `u16` goes.
    pub open spec fn through_cursor(self) -> int {
        saturating_add(self.cursor.col, 1) as int
    }

    pub open spec fn clear_line(self, region: ClearRegion) -> ScreenView {
        let row = self.cursor.row as int;
        match region {
            ClearRegion::ToEnd => self.clear_region(row, row + 1, self.cursor.col as int, 0xffff),
            ClearRegion::ToStart => self.clear_region(row, row + 1, 0, self.through_cursor()),
            ClearRegion::All => self.clear_region(row, row + 1, 0, 0xffff),
        }
    }

    pub open spec fn clear_screen(self, region: ClearRegion) -> ScreenView {
        let row = self.cursor.row as int;
        match region {
            ClearRegion::ToEnd => self.clear_line(ClearRegion::ToEnd).clear_region(
                row + 1,
                0xffff,
                0,
                0xffff,
            ),
            ClearRegion::ToStart => self.clear_region(0, row, 0, 0xffff).clear_line(
                ClearRegion::ToStart,
            ),
            ClearRegion::All => self.clear_region(0, 0xffff, 0, 0xffff),
        }
    }

    /// `count` cells from the cursor on, within its row, cleared.
    pub open spec fn erase(self, count: u16) -> ScreenView {
        let row = self.cursor.row as int;
        self.clear_region(
            row,
            row + 1,
            self.cursor.col as int,
            saturating_add(self.cursor.col, count) as int,
        )
    }

    pub open spec fn toggle_behaviour(self, behaviour: Behaviour, toggle: Toggle) -> ScreenView {
        let on = toggle == Toggle::Enabled;
        let b = self.behaviours;
        match behaviour {
            Behaviour::ShowCursor => ScreenView {
                behaviours: Behaviours { show_cursor: on, ..b },
                ..self
            },
            Behaviour::BracketedPaste => ScreenView {
                behaviours: Behaviours { bracketed_paste: on, ..b },
                ..self
            },
            Behaviour::ApplicationCursor => ScreenView {
                behaviours: Behaviours { application_cursor: on, ..b },
                ..self
            },
            Behaviour::AlternateBuffer => if on != b.alternate_buffer {
                ScreenView {
                    behaviours: Behaviours { alternate_buffer: on, ..b },
                    grid: self.alternate_grid,
                    alternate_grid: self.grid,
                    ..self
                }
            } else {
                self
            },
            Behaviour::FocusEvents => self,
        }
    }

    /// What one command does to the screen.
    #[verifier::opaque]
    pub open spec fn apply(self, command: SpecCommand) -> ScreenView {
        match command {
            Command::InvalidControlSequence(_) => self,
            Command::Text(ch) => self.insert_char(ch),
            Command::InvalidUtf8(_) => self.insert_char(replacement_char()),
            Command::Bell => self,
            Command::Tab => self.tab(),
            Command::Backspace => self.backspace(),
            Command::CarriageReturn => self.with_cursor(self.cursor.row, 0),
            Command::LineFeed => self.advance_row(),
            Command::ReverseLineFeed => self.reverse_line_feed(),
            Command::DeleteLines(n) => self.delete_lines(n),
            Command::InsertLines(n) => self.insert_lines(n),
            Command::MoveCursor(d, n) => self.move_cursor(d, n),
            Command::SetCursorPos(r, c) => self.set_cursor_pos(r, c),
            Command::SaveCursor => self.save_cursor(),
            Command::RestoreCursor => self.restore_cursor(),
            Command::SetCursorStyle(st) => ScreenView { cursor_style: st, ..self },
            Command::ResetCursorColor => ScreenView { cursor_color: default_foreground(), ..self },
            Command::SetScrollingRegion(t, b) => self.set_scrolling_region(t, b),
            Command::ClearLine(r) => self.clear_line(r),
            Command::ClearScreen(r) => self.clear_screen(r),
            Command::ClearScrollback => self,
            Command::Erase(n) => self.erase(n),
            Command::SetCharacterStyle(st) => ScreenView {
                style: CharacterStyles { bits: self.style.bits | st.bits },
                ..self
            },
            Command::ResetCharacterStyle(st) => ScreenView {
                style: CharacterStyles { bits: self.style.bits & !st.bits },
                ..self
            },
            Command::SetForegroundColor(c) => ScreenView { foreground: c, ..self },
            Command::ResetForegroundColor => ScreenView { foreground: default_foreground(), ..self },
            Command::SetBackgroundColor(c) => ScreenView { background: c, ..self },
            Command::ResetBackgroundColor => ScreenView {
                background: crate::color::default_background(),
                ..self
            },
            Command::SetWindowTitle(t) => if all_ascii(t) {
                ScreenView { title: ascii_chars(t), ..self }
            } else {
                self
            },
            Command::ToggleBehaviour(b, t) => self.toggle_behaviour(b, t),
        }
    }

    /// The commands applied one after another.
    pub open spec fn apply_all(self, commands: Seq<SpecCommand>) -> ScreenView
        decreases commands.len(),
    {
        if commands.len() == 0 {
            self
        } else {
            self.apply(commands[0]).apply_all(commands.drop_first())
        }
    }

    /// The screen after `input`, with the bytes that the previous input left over:
    /// the two decoded together, their commands applied; and the cut-off tail that is
    /// left over for the next input.
    pub open spec fn process(self, residual: Seq<u8>, input: Seq<u8>) -> (ScreenView, Seq<u8>) {
        let bytes = residual + input;
        let (commands, consumed) = decode(bytes);
        (self.apply_all(commands), bytes.skip(consumed as int))
    }
}

pub open spec fn all_ascii(bytes: Seq<u8>) -> bool {
    forall|i: int| 0 <= i < bytes.len() ==> #[trigger] bytes[i] < 0x80
}

/// The name of the terminal, `spotty`, which a new screen has as its title.
pub open spec fn default_title_bytes() -> Seq<u8> {
    seq![0x73u8, 0x70u8, 0x6fu8, 0x74u8, 0x74u8, 0x79u8]
}

pub open spec fn default_title() -> Seq<char> {
    ascii_chars(default_title_bytes())
}

/// The characters of bytes that are all ASCII.
pub open spec fn ascii_chars(bytes: Seq<u8>) -> Seq<char> {
    bytes.map_values(|b: u8| b as char)
}

/// Relies on `String::from_utf8_lossy`: ASCII bytes are valid UTF-8 and come out as
/// the characters they encode.
#[verifier::external_body]
fn ascii_to_string(bytes: &[u8]) -> (r: String)
    ensures
        (forall|i: int| 0 <= i < bytes@.len() ==> #[trigger] bytes@[i] < 0x80) ==> r@
            == ascii_chars(bytes@),
{
    String::from_utf8_lossy(bytes).into_owned()
}

/// The terminal's state: two grids (primary and alternate), the cursor, the current
/// colors and style, the scrolling region, the behaviours and the window title.
pub struct Screen {
    pub title: String,
    pub grid: CharacterGrid,
    pub alternate_grid: CharacterGrid,
    pub cursor: Position,
    pub saved_cursor: Position,
    pub cursor_style: CursorStyle,
    pub cursor_color: Color,
    pub style: CharacterStyles,
    pub foreground: Color,
    pub background: Color,
    pub scrolling_region: std::ops::Range<u16>,
    pub behaviours: Behaviours,
    /// Output of the shell that is not decoded yet, for want of more bytes.
    pub residual_input: Vec<u8>,
}

impl View for Screen {
    type V = ScreenView;

    open spec fn view(&self) -> ScreenView {
        ScreenView {
            title: self.title@,
            grid: self.grid@,
            alternate_grid: self.alternate_grid@,
            cursor: self.cursor,
            saved_cursor: self.saved_cursor,
            cursor_style: self.cursor_style,
            cursor_color: self.cursor_color,
            style: self.style,
            foreground: self.foreground,
            background: self.background,
            top: self.scrolling_region.start,
            bottom: self.scrolling_region.end,
            behaviours: self.behaviours,
        }
    }
}

impl Screen {
    /// The screen's invariant, stated on its view.
    pub open spec fn wf(&self) -> bool {
        self@.wf()
    }

    /// A blank screen of `grid_size` (`[rows, cols]`, each at least 1) with the cursor
    /// at the origin and the whole grid as scrolling region.
    pub fn new(grid_size: [u16; 2]) -> (r: Screen)
        requires
            grid_size[0] >= 1,
            grid_size[1] >= 1,
        ensures
            r.wf(),
            r@.rows() == grid_size[0],
            r@.cols() == grid_size[1],
            forall|i: int, j: int| r@.grid.in_bounds(i, j) ==> #[trigger] r@.grid.at(i, j)
                == r@.empty_cell(),
            forall|i: int, j: int|
                r@.alternate_grid.in_bounds(i, j) ==> #[trigger] r@.alternate_grid.at(i, j)
                    == r@.empty_cell(),
            r@.cursor == (Position { row: 0, col: 0 }),
            r@.saved_cursor == (Position { row: 0, col: 0 }),
            r@.cursor_style == (CursorStyle { shape: CursorShape::Block, blink: CursorBlink::Blinking }),
            r@.cursor_color == default_foreground(),
            r@.style.bits == 0,
            r@.foreground == default_foreground(),
            r@.background == crate::color::default_background(),
            r@.top == 0,
            r@.bottom == grid_size[0],
            r@.behaviours == default_behaviours(),
            r@.title == default_title(),
            r.residual_input@.len() == 0,
    {
        let name: [u8; 6] = [0x73, 0x70, 0x6f, 0x74, 0x74, 0x79];
        assert(name@ =~= default_title_bytes());
        Screen {
            title: ascii_to_string(name.as_slice()),
            grid: CharacterGrid::new(grid_size[0], grid_size[1]),
            alternate_grid: CharacterGrid::new(grid_size[0], grid_size[1]),
            cursor: Position::new(0, 0),
            saved_cursor: Position::new(0, 0),
            cursor_style: CursorStyle::default_style(),
            cursor_color: Color::default_foreground(),
            style: CharacterStyles::empty(),
            foreground: Color::default_foreground(),
            background: Color::default_background(),
            scrolling_region: 0..grid_size[0],
            behaviours: Behaviours::default(),
            residual_input: Vec::new(),
        }
    }

    /// New blank grids of `grid_size`; the cursor goes to the origin and the scrolling
    /// region to the whole grid. What the grids held is dropped.
    pub fn resize_grid(&mut self, grid_size: [u16; 2])
        requires
            old(self).wf(),
            grid_size[0] >= 1,
            grid_size[1] >= 1,
        ensures
            final(self).wf(),
            final(self).residual_input == old(self).residual_input,
            final(self)@.rows() == grid_size[0],
            final(self)@.cols() == grid_size[1],
            forall|i: int, j: int|
                final(self)@.grid.in_bounds(i, j) ==> final(self)@.grid.at(i, j)
                    == crate::grid::empty_cell(),
            forall|i: int, j: int|
                final(self)@.alternate_grid.in_bounds(i, j) ==> final(self)@.alternate_grid.at(i, j)
                    == crate::grid::empty_cell(),
            final(self)@.cursor == (Position { row: 0, col: 0 }),
            final(self)@.top == 0,
            final(self)@.bottom == grid_size[0],
            final(self)@ == (ScreenView {
                grid: final(self)@.grid,
                alternate_grid: final(self)@.alternate_grid,
                cursor: final(self)@.cursor,
                top: 0,
                bottom: grid_size[0],
                ..old(self)@
            }),
    {
        self.grid = CharacterGrid::new(grid_size[0], grid_size[1]);
        self.alternate_grid = CharacterGrid::new(grid_size[0], grid_size[1]);
        self.cursor = Position::new(0, 0);
        self.scrolling_region = 0..grid_size[0];
    }

    /// The cell that clears leave: a space on the current background, with no style.
    fn empty_cell(&self) -> (r: GridCell)
        ensures
            r == self@.empty_cell(),
    {
        GridCell {
            character: ' ',
            foreground: Color::default_foreground(),
            background: self.background,
            style: CharacterStyles::empty(),
        }
    }

    pub fn scroll_up(&mut self, count: u16)
        requires
            old(self).wf(),
        ensures
            final(self).wf(),
            final(self).residual_input == old(self).residual_input,
            final(self)@ == old(self)@.scroll_up(count),
    {
        let cell = self.empty_cell();
        let top = self.scrolling_region.start;
        let bottom = self.scrolling_region.end;
        self.grid.shift_up(top, bottom, count, cell);
    }

    pub fn scroll_down(&mut self, count: u16)
        requires
            old(self).wf(),
        ensures
            final(self).wf(),
            final(self).residual_input == old(self).residual_input,
            final(self)@ == old(self)@.scroll_down(count),
    {
        let cell = self.empty_cell();
        let top = self.scrolling_region.start;
        let bottom = self.scrolling_region.end;
        self.grid.shift_down(top, bottom, count, cell);
    }

    fn advance_row(&mut self)
        requires
            old(self).wf(),
        ensures
            final(self).wf(),
            final(self).residual_input == old(self).residual_input,
            final(self)@ == old(self)@.advance_row(),
    {
        if (self.cursor.row as u32) + 1 < self.scrolling_region.end as u32 {
            self.cursor.row = self.cursor.row + 1;
        } else {
            self.scroll_up(1);
        }
    }

    fn advance_column(&mut self)
        requires
            old(self).wf(),
        ensures
            final(self).wf(),
            final(self).residual_input == old(self).residual_input,
            final(self)@ == old(self)@.advance_column(),
    {
        if self.cursor.col < self.grid.cols() {
            self.cursor.col = self.cursor.col + 1;
        } else {
            self.cursor.col = 0;
            self.advance_row();
        }
    }

    fn insert_char(&mut self, ch: char)
        requires
            old(self).wf(),
        ensures
            final(self).wf(),
            final(self).residual_input == old(self).residual_input,
            final(self)@ == old(self)@.insert_char(ch),
    {
        if self.cursor.col == self.grid.cols() {
            self.cursor.col = 0;
            self.advance_row();
        }
        let cell = GridCell {
            character: ch,
            foreground: self.foreground,
            background: self.background,
            style: self.style,
        };
        let pos = self.cursor;
        self.grid.set(pos, cell);
        self.advance_column();
    }

    /// Writes `ch` at the cursor in the current colors and style, and moves on.
    pub fn text(&mut self, ch: char)
        requires
            old(self).wf(),
        ensures
            final(self).wf(),
            final(self).residual_input == old(self).residual_input,
            final(self)@ == old(self)@.insert_char(ch),
    {
        self.insert_char(ch);
    }

    /// Writes the replacement character for bytes that are not valid UTF-8.
    pub fn invalid_utf8(&mut self)
        requires
            old(self).wf(),
        ensures
            final(self).wf(),
            final(self).residual_input == old(self).residual_input,
            final(self)@ == old(self)@.insert_char(replacement_char()),
    {
        self.insert_char('\u{fffd}');
    }

    /// Moves to the next column that is a multiple of 8, wrapping and scrolling as
    /// writing would.
    pub fn tab(&mut self)
        requires
            old(self).wf(),
        ensures
            final(self).wf(),
            final(self).residual_input == old(self).residual_input,
            final(self)@ == old(self)@.tab(),
    {
        loop
            invariant_except_break
                self.wf(),
                self.residual_input == old(self).residual_input,
                old(self)@.tab() == self@.tab(),
                self@.cols() == old(self)@.cols(),
            ensures
                self.wf(),
                self.residual_input == old(self).residual_input,
                final(self)@ == old(self)@.tab(),
            decreases self@.cols() - self@.cursor.col,
        {
            self.advance_column();
            if self.cursor.col % 8 == 0 {
                break;
            }
        }
    }

    pub fn backspace(&mut self)
        requires
            old(self).wf(),
        ensures
            final(self).wf(),
            final(self).residual_input == old(self).residual_input,
            final(self)@ == old(self)@.backspace(),
    {
        if self.cursor.col > 0 {
            self.cursor.col = self.cursor.col - 1;
        } else {
            self.cursor.col = self.grid.cols() - 1;
        }
    }

    pub fn carriage_return(&mut self)
        requires
            old(self).wf(),
        ensures
            final(self).wf(),
            final(self).residual_input == old(self).residual_input,
            final(self)@ == old(self)@.with_cursor(old(self)@.cursor.row, 0),
    {
        self.cursor.col = 0;
    }

    pub fn line_feed(&mut self)
        requires
            old(self).wf(),
        ensures
            final(self).wf(),
            final(self).residual_input == old(self).residual_input,
            final(self)@ == old(self)@.advance_row(),
    {
        self.advance_row();
    }

    pub fn reverse_line_feed(&mut self)
        requires
            old(self).wf(),
        ensures
            final(self).wf(),
            final(self).residual_input == old(self).residual_input,
            final(self)@ == old(self)@.reverse_line_feed(),
    {
        self.cursor.col = 0;
        if self.cursor.row > self.scrolling_region.start {
            self.cursor.row = self.cursor.row - 1;
        } else {
            self.scroll_down(1);
        }
    }

    pub fn delete_lines(&mut self, count: u16)
        requires
            old(self).wf(),
        ensures
            final(self).wf(),
            final(self).residual_input == old(self).residual_input,
            final(self)@ == old(self)@.delete_lines(count),
    {
        let cell = self.empty_cell();
        let row = self.cursor.row;
        let bottom = self.scrolling_region.end;
        self.grid.shift_up(row, bottom, count, cell);
    }

    pub fn insert_lines(&mut self, count: u16)
        requires
            old(self).wf(),
        ensures
            final(self).wf(),
            final(self).residual_input == old(self).residual_input,
            final(self)@ == old(self)@.insert_lines(count),
    {
        let cell = self.empty_cell();
        let row = self.cursor.row;
        let bottom = self.scrolling_region.end;
        self.grid.shift_down(row, bottom, count, cell);
    }

    /// Moves the cursor `steps` in `direction`, stopping at the grid's edges.
    pub fn move_cursor(&mut self, direction: Direction, steps: u16)
        requires
            old(self).wf(),
        ensures
            final(self).wf(),
            final(self).residual_input == old(self).residual_input,
            final(self)@ == old(self)@.move_cursor(direction, steps),
            final(self)@.cursor.row < final(self)@.rows(),
            final(self)@.cursor.col < final(self)@.cols(),
    {
        let max_row = self.grid.max_row();
        let max_col = self.grid.max_col();
        match direction {
            Direction::Up => self.cursor.row = self.cursor.row.saturating_sub(steps),
            Direction::Down => {
                let row = self.cursor.row.saturating_add(steps);
                self.cursor.row = if row < max_row { row } else { max_row };
            },
            Direction::Left => self.cursor.col = self.cursor.col.saturating_sub(steps),
            Direction::Right => {
                let col = self.cursor.col.saturating_add(steps);
                self.cursor.col = if col < max_col { col } else { max_col };
            },
        }
        if self.cursor.col > max_col {
            self.cursor.col = max_col;
        }
    }

    /// Puts the cursor at (`row`, `col`), each clamped to the grid.
    pub fn set_cursor_pos(&mut self, row: u16, col: u16)
        requires
            old(self).wf(),
        ensures
            final(self).wf(),
            final(self).residual_input == old(self).residual_input,
            final(self)@ == old(self)@.set_cursor_pos(row, col),
            final(self)@.cursor.row < final(self)@.rows(),
            final(self)@.cursor.col < final(self)@.cols(),
    {
        self.set_cursor_row(row);
        self.set_cursor_col(col);
    }

    pub fn set_cursor_row(&mut self, row: u16)
        requires
            old(self).wf(),
        ensures
            final(self).wf(),
            final(self).residual_input == old(self).residual_input,
            final(self)@ == old(self)@.with_cursor(
                min(row, (old(self)@.rows() - 1) as u16),
                old(self)@.cursor.col,
            ),
    {
        let max_row = self.grid.max_row();
        self.cursor.row = if row < max_row { row } else { max_row };
    }

    pub fn set_cursor_col(&mut self, col: u16)
        requires
            old(self).wf(),
        ensures
            final(self).wf(),
            final(self).residual_input == old(self).residual_input,
            final(self)@ == old(self)@.with_cursor(
                old(self)@.cursor.row,
                min(col, (old(self)@.cols() - 1) as u16),
            ),
    {
        let max_col = self.grid.max_col();
        self.cursor.col = if col < max_col { col } else { max_col };
    }

    pub fn save_cursor(&mut self)
        requires
            old(self).wf(),
        ensures
            final(self).wf(),
            final(self).residual_input == old(self).residual_input,
            final(self)@ == old(self)@.save_cursor(),
    {
        self.saved_cursor = self.cursor;
    }

    /// Puts the cursor back where it was saved, clamped to the grid.
    pub fn restore_cursor(&mut self)
        requires
            old(self).wf(),
        ensures
            final(self).wf(),
            final(self).residual_input == old(self).residual_input,
            final(self)@ == old(self)@.restore_cursor(),
    {
        let saved = self.saved_cursor;
        self.set_cursor_pos(saved.row, saved.col);
    }

    pub fn set_cursor_style(&mut self, style: CursorStyle)
        requires
            old(self).wf(),
        ensures
            final(self).wf(),
            final(self).residual_input == old(self).residual_input,
            final(self)@ == (ScreenView { cursor_style: style, ..old(self)@ }),
    {
        self.cursor_style = style;
    }

    pub fn set_cursor_color(&mut self, color: Color)
        requires
            old(self).wf(),
        ensures
            final(self).wf(),
            final(self).residual_input == old(self).residual_input,
            final(self)@ == (ScreenView { cursor_color: color, ..old(self)@ }),
    {
        self.cursor_color = color;
    }

    pub fn reset_cursor_color(&mut self)
        requires
            old(self).wf(),
        ensures
            final(self).wf(),
            final(self).residual_input == old(self).residual_input,
            final(self)@ == (ScreenView { cursor_color: default_foreground(), ..old(self)@ }),
    {
        self.cursor_color = Color::default_foreground();
    }

    /// Sets the scrolling region to `rows`, each end clamped to the grid's height.
    pub fn set_scrolling_region(&mut self, rows: std::ops::Range<u16>)
        requires
            old(self).wf(),
        ensures
            final(self).wf(),
            final(self).residual_input == old(self).residual_input,
            final(self)@ == old(self)@.set_scrolling_region(rows.start, rows.end),
    {
        let height = self.grid.rows();
        let start = if rows.start < height { rows.start } else { height };
        let end = if rows.end < height { rows.end } else { height };
        self.scrolling_region = start..end;
    }

    /// Fills rows `[row_start, row_end)` and columns `[col_start, col_end)` with the
    /// empty cell; the ranges stop at the grid's edges.
    fn clear_region(&mut self, row_start: u16, row_end: u16, col_start: u16, col_end: u16)
        requires
            old(self).wf(),
        ensures
            final(self).wf(),
            final(self).residual_input == old(self).residual_input,
            final(self)@ == old(self)@.clear_region(
                row_start as int,
                row_end as int,
                col_start as int,
                col_end as int,
            ),
    {
        let cell = self.empty_cell();
        self.grid.fill_region(row_start, row_end, col_start, col_end, cell);
    }

    /// Clears columns `[col_start, col_end)` of the cursor's row.
    fn clear_current_line(&mut self, col_start: u16, col_end: u16)
        requires
            old(self).wf(),
        ensures
            final(self).wf(),
            final(self).residual_input == old(self).residual_input,
            final(self)@ == old(self)@.clear_region(
                old(self)@.cursor.row as int,
                old(self)@.cursor.row + 1,
                col_start as int,
                col_end as int,
            ),
    {
        let row = self.cursor.row;
        self.clear_region(row, row + 1, col_start, col_end);
    }

    pub fn clear_line(&mut self, region: ClearRegion)
        requires
            old(self).wf(),
        ensures
            final(self).wf(),
            final(self).residual_input == old(self).residual_input,
            final(self)@ == old(self)@.clear_line(region),
    {
        match region {
            ClearRegion::ToEnd => {
                let col = self.cursor.col;
                self.clear_current_line(col, 0xffff);
            },
            ClearRegion::ToStart => {
                let end = self.cursor.col.saturating_add(1);
                self.clear_current_line(0, end);
            },
            ClearRegion::All => self.clear_current_line(0, 0xffff),
        }
    }

    pub fn clear_screen(&mut self, region: ClearRegion)
        requires
            old(self).wf(),
        ensures
            final(self).wf(),
            final(self).residual_input == old(self).residual_input,
            final(self)@ == old(self)@.clear_screen(region),
    {
        match region {
            ClearRegion::ToEnd => {
                self.clear_line(ClearRegion::ToEnd);
                let row = self.cursor.row;
                self.clear_region(row + 1, 0xffff, 0, 0xffff);
            },
            ClearRegion::ToStart => {
                let row = self.cursor.row;
                self.clear_region(0, row, 0, 0xffff);
                self.clear_line(ClearRegion::ToStart);
            },
            ClearRegion::All => self.clear_region(0, 0xffff, 0, 0xffff),
        }
    }

    /// Recognized, and left undone: this screen keeps no scrollback.
    pub fn clear_scrollback(&mut self)
        requires
            old(self).wf(),
        ensures
            final(self)@ == old(self)@,
            final(self).residual_input == old(self).residual_input,
    {
    }

    pub fn erase(&mut self, count: u16)
        requires
            old(self).wf(),
        ensures
            final(self).wf(),
            final(self).residual_input == old(self).residual_input,
            final(self)@ == old(self)@.erase(count),
    {
        let col = self.cursor.col;
        self.clear_current_line(col, col.saturating_add(count));
    }

    pub fn set_character_style(&mut self, style: CharacterStyles)
        requires
            old(self).wf(),
        ensures
            final(self).wf(),
            final(self).residual_input == old(self).residual_input,
            final(self)@ == (ScreenView {
                style: CharacterStyles { bits: old(self)@.style.bits | style.bits },
                ..old(self)@
            }),
    {
        self.style.insert(style);
    }

    pub fn reset_character_style(&mut self, style: CharacterStyles)
        requires
            old(self).wf(),
        ensures
            final(self).wf(),
            final(self).residual_input == old(self).residual_input,
            final(self)@ == (ScreenView {
                style: CharacterStyles { bits: old(self)@.style.bits & !style.bits },
                ..old(self)@
            }),
    {
        self.style.remove(style);
    }

    pub fn set_foreground_color(&mut self, color: Color)
        requires
            old(self).wf(),
        ensures
            final(self).wf(),
            final(self).residual_input == old(self).residual_input,
            final(self)@ == (ScreenView { foreground: color, ..old(self)@ }),
    {
        self.foreground = color;
    }

    pub fn reset_foreground_color(&mut self)
        requires
            old(self).wf(),
        ensures
            final(self).wf(),
            final(self).residual_input == old(self).residual_input,
            final(self)@ == (ScreenView { foreground: default_foreground(), ..old(self)@ }),
    {
        self.foreground = Color::default_foreground();
    }

    pub fn set_background_color(&mut self, color: Color)
        requires
            old(self).wf(),
        ensures
            final(self).wf(),
            final(self).residual_input == old(self).residual_input,
            final(self)@ == (ScreenView { background: color, ..old(self)@ }),
    {
        self.background = color;
    }

    pub fn reset_background_color(&mut self)
        requires
            old(self).wf(),
        ensures
            final(self).wf(),
            final(self).residual_input == old(self).residual_input,
            final(self)@ == (ScreenView {
                background: crate::color::default_background(),
                ..old(self)@
            }),
    {
        self.background = Color::default_background();
    }

    /// Sets the window title; the decoder hands over printable ASCII bytes.
    pub fn set_window_title(&mut self, text: &[u8])
        requires
            old(self).wf(),
            forall|i: int| 0 <= i < text@.len() ==> #[trigger] text@[i] < 0x80,
        ensures
            final(self).wf(),
            final(self).residual_input == old(self).residual_input,
            final(self)@ == (ScreenView { title: ascii_chars(text@), ..old(self)@ }),
    {
        self.title = ascii_to_string(text);
    }

    /// Switches a behaviour on or off. Switching the alternate buffer swaps the two
    /// grids, and only when the setting changes.
    pub fn toggle_behaviour(&mut self, behaviour: Behaviour, toggle: Toggle)
        requires
            old(self).wf(),
        ensures
            final(self).wf(),
            final(self).residual_input == old(self).residual_input,
            final(self)@ == old(self)@.toggle_behaviour(behaviour, toggle),
    {
        let on = toggle.is_enabled();
        match behaviour {
            Behaviour::ShowCursor => self.behaviours.show_cursor = on,
            Behaviour::BracketedPaste => self.behaviours.bracketed_paste = on,
            Behaviour::ApplicationCursor => self.behaviours.application_cursor = on,
            Behaviour::AlternateBuffer => {
                if on != self.behaviours.alternate_buffer {
                    self.behaviours.alternate_buffer = on;
                    std::mem::swap(&mut self.grid, &mut self.alternate_grid);
                }
            },
            Behaviour::FocusEvents => {},
        }
    }
}

/// Where the cursor is drawn: a cursor past the last column shows at the start of the
/// next row, and one below the last row at the grid's last cell.
pub open spec fn virtual_position(cursor: Position, rows: u16, cols: u16) -> Position {
    let p = if cursor.col >= cols {
        Position { row: (cursor.row + 1) as u16, col: 0 }
    } else {
        cursor
    };
    if p.row >= rows {
        Position { row: (rows - 1) as u16, col: (cols - 1) as u16 }
    } else {
        p
    }
}

fn is_ascii(bytes: &[u8]) -> (r: bool)
    ensures
        r == all_ascii(bytes@),
{
    let mut i: usize = 0;
    while i < bytes.len()
        invariant
            i <= bytes@.len(),
            forall|k: int| 0 <= k < i ==> #[trigger] bytes@[k] < 0x80,
        decreases bytes@.len() - i,
    {
        if bytes[i] >= 0x80 {
            return false;
        }
        i = i + 1;
    }
    true
}

impl Screen {
    /// Applies one command.
    pub fn apply(&mut self, command: &Command<Vec<u8>>)
        requires
            old(self).wf(),
        ensures
            final(self).wf(),
            final(self).residual_input == old(self).residual_input,
            final(self)@ == old(self)@.apply(command@),
    {
        reveal(ScreenView::apply);
        match command {
            Command::InvalidControlSequence(_) => {},
            Command::Text(ch) => self.text(*ch),
            Command::InvalidUtf8(_) => self.invalid_utf8(),
            Command::Bell => {},
            Command::Tab => self.tab(),
            Command::Backspace => self.backspace(),
            Command::CarriageReturn => self.carriage_return(),
            Command::LineFeed => self.line_feed(),
            Command::ReverseLineFeed => self.reverse_line_feed(),
            Command::DeleteLines(n) => self.delete_lines(*n),
            Command::InsertLines(n) => self.insert_lines(*n),
            Command::MoveCursor(d, n) => self.move_cursor(*d, *n),
            Command::SetCursorPos(r, c) => self.set_cursor_pos(*r, *c),
            Command::SaveCursor => self.save_cursor(),
            Command::RestoreCursor => self.restore_cursor(),
            Command::SetCursorStyle(st) => self.set_cursor_style(*st),
            Command::ResetCursorColor => self.reset_cursor_color(),
            Command::SetScrollingRegion(t, b) => self.set_scrolling_region(*t..*b),
            Command::ClearLine(r) => self.clear_line(*r),
            Command::ClearScreen(r) => self.clear_screen(*r),
            Command::ClearScrollback => self.clear_scrollback(),
            Command::Erase(n) => self.erase(*n),
            Command::SetCharacterStyle(st) => self.set_character_style(*st),
            Command::ResetCharacterStyle(st) => self.reset_character_style(*st),
            Command::SetForegroundColor(c) => self.set_foreground_color(*c),
            Command::ResetForegroundColor => self.reset_foreground_color(),
            Command::SetBackgroundColor(c) => self.set_background_color(*c),
            Command::ResetBackgroundColor => self.reset_background_color(),
            Command::SetWindowTitle(t) => {
                if !is_ascii(t.as_slice()) {
                    return;
                }
                self.set_window_title(t.as_slice());
            },
            Command::ToggleBehaviour(b, t) => self.toggle_behaviour(*b, *t),
        }
    }

    /// Decodes `input`, after the bytes held back from the previous input, and applies
    /// the commands; a sequence cut off at the end is held back for the next input.
    pub fn process_input(&mut self, input: &[u8])
        requires
            old(self).wf(),
        ensures
            final(self).wf(),
            (final(self)@, final(self).residual_input@) == old(self)@.process(
                old(self).residual_input@,
                input@,
            ),
    {
        let mut bytes = slice_to_vec(self.residual_input.as_slice());
        let mut j: usize = 0;
        while j < input.len()
            invariant
                j <= input@.len(),
                bytes@ == self.residual_input@ + input@.take(j as int),
                self.residual_input == old(self).residual_input,
                self@ == old(self)@,
            decreases input@.len() - j,
        {
            bytes.push(input[j]);
            j = j + 1;
            assert(bytes@ =~= self.residual_input@ + input@.take(j as int));
        }
        assert(input@.take(j as int) =~= input@);
        let mut commands: Vec<Command<Vec<u8>>> = Vec::new();
        let tail = parse(bytes.as_slice(), &mut commands);
        let residual = slice_to_vec(tail);
        let ghost all = decode(bytes@).0;
        assert(commands_view(commands@) =~= all);
        let mut i: usize = 0;
        assert(all.skip(0) =~= all);
        while i < commands.len()
            invariant
                self.wf(),
                i <= commands@.len(),
                commands_view(commands@) == all,
                old(self)@.apply_all(all) == self@.apply_all(all.skip(i as int)),
                bytes@ == old(self).residual_input@ + input@,
            decreases commands@.len() - i,
        {
            assert(all.skip(i as int).drop_first() =~= all.skip(i + 1));
            assert(all.skip(i as int)[0] == commands@[i as int]@);
            self.apply(&commands[i]);
            i = i + 1;
        }
        assert(all.skip(i as int) =~= Seq::<SpecCommand>::empty());
        self.residual_input = residual;
    }

    /// Where the cursor is drawn (see `virtual_position`).
    pub fn virtual_cursor(&self) -> (r: Position)
        requires
            self.wf(),
        ensures
            r == virtual_position(self.cursor, self@.rows(), self@.cols()),
    {
        let mut position = self.cursor;
        if position.col >= self.grid.cols() {
            position.col = 0;
            position.row = position.row + 1;
        }
        if position.row >= self.grid.rows() {
            position.row = self.grid.max_row();
            position.col = self.grid.max_col();
        }
        position
    }

    /// What the renderer draws of the cursor, or `None` when it is hidden. The color
    /// of text under the cursor is computed by the caller from the cursor's color.
    pub fn cursor_render_state(&self, text_color: Color) -> (r: Option<CursorState>)
        requires
            self.wf(),
        ensures
            self@.behaviours.show_cursor ==> r == Some(
                CursorState {
                    position: virtual_position(self.cursor, self@.rows(), self@.cols()),
                    style: self.cursor_style,
                    color: self.cursor_color,
                    text_color,
                },
            ),
            !self@.behaviours.show_cursor ==> r is None,
    {
        if self.behaviours.show_cursor {
            Some(
                CursorState {
                    position: self.virtual_cursor(),
                    style: self.cursor_style,
                    color: self.cursor_color,
                    text_color,
                },
            )
        } else {
            None
        }
    }
}

} // verus!
