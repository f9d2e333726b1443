use spotty::color::Color;
use spotty::grid::{CharacterGrid, GridCell, Position};
use spotty::render::CursorState;
use spotty::screen::Screen;
use spotty::tty::control_code::{
    CharacterStyles, ClearRegion, CursorShape, CursorStyle, Direction, BOLD,
};

fn cell(screen: &Screen, row: u16, col: u16) -> GridCell {
    screen.grid.get(Position::new(row, col))
}

fn row_text(screen: &Screen, row: u16) -> String {
    (0..screen.grid.cols()).map(|col| cell(screen, row, col).character).collect()
}

#[test]
fn cursor_position_scenario() {
    let mut screen = Screen::new([10, 10]);
    screen.process_input(b"A");
    assert_eq!(cell(&screen, 0, 0).character, 'A');
    assert_eq!(screen.cursor, Position::new(0, 1));
    screen.process_input(b"\x1b[2;5H");
    assert_eq!(screen.cursor, Position::new(1, 4));
    screen.process_input(b"B");
    assert_eq!(cell(&screen, 1, 4).character, 'B');
    assert_eq!(screen.cursor, Position::new(1, 5));
}

#[test]
fn cursor_position_scenario_in_one_input() {
    let mut screen = Screen::new([10, 10]);
    screen.process_input(b"A\x1b[2;5HB");
    assert_eq!(cell(&screen, 0, 0).character, 'A');
    assert_eq!(cell(&screen, 1, 4).character, 'B');
    assert_eq!(screen.cursor, Position::new(1, 5));
}

#[test]
fn colored_text_scenario() {
    let mut screen = Screen::new([4, 4]);
    screen.process_input(b"\x1b[31mX\x1b[0mY");
    let x = cell(&screen, 0, 0);
    assert_eq!(x.character, 'X');
    assert_eq!(x.foreground, Color::Index(1));
    assert_eq!(x.background, Color::Index(0));
    let y = cell(&screen, 0, 1);
    assert_eq!(y.character, 'Y');
    assert_eq!(y.foreground, Color::Index(15));
    assert_eq!(y.background, Color::Index(0));
}

#[test]
fn truncated_sequence_waits_for_more_input() {
    let mut screen = Screen::new([3, 3]);
    screen.process_input(b"abc");
    screen.process_input(b"\x1b[2");
    assert_eq!(screen.residual_input, b"\x1b[2".to_vec());
    assert_eq!(cell(&screen, 0, 0).character, 'a');
    screen.process_input(b"J");
    assert!(screen.residual_input.is_empty());
    assert_eq!(cell(&screen, 0, 0).character, ' ');
}

#[test]
fn extended_color_scenario() {
    let mut screen = Screen::new([2, 2]);
    screen.process_input(b"\x1b[38;5;196m");
    assert_eq!(screen.foreground, Color::Index(196));
    screen.process_input(b"\x1b[38;2;10;20;30m");
    assert_eq!(screen.foreground, Color::Rgb([10, 20, 30]));
}

#[test]
fn cursor_moves_clamp_to_the_grid() {
    let mut screen = Screen::new([5, 8]);
    screen.process_input(b"\x1b[100B\x1b[100C");
    assert_eq!(screen.cursor, Position::new(4, 7));
    screen.process_input(b"\x1b[100A\x1b[100D");
    assert_eq!(screen.cursor, Position::new(0, 0));
    screen.process_input(b"\x1b[99;99H");
    assert_eq!(screen.cursor, Position::new(4, 7));
    screen.move_cursor(Direction::Up, 0);
    assert_eq!(screen.cursor, Position::new(4, 7));
}

#[test]
fn writing_wraps_and_scrolls() {
    let mut screen = Screen::new([2, 3]);
    screen.process_input(b"abcdef");
    assert_eq!(row_text(&screen, 0), "abc");
    assert_eq!(row_text(&screen, 1), "def");
    assert_eq!(screen.cursor, Position::new(1, 3));
    screen.process_input(b"g");
    assert_eq!(row_text(&screen, 0), "def");
    assert_eq!(row_text(&screen, 1), "g  ");
}

#[test]
fn clear_all_then_full_screen_of_text() {
    let mut screen = Screen::new([3, 4]);
    screen.process_input(b"junk\x1b[2J\x1b[H");
    for row in 0..3 {
        assert_eq!(row_text(&screen, row), "    ");
    }
    screen.process_input(b"abcdefghijkl");
    assert_eq!(row_text(&screen, 0), "abcd");
    assert_eq!(row_text(&screen, 1), "efgh");
    assert_eq!(row_text(&screen, 2), "ijkl");
}

#[test]
fn clear_to_end_keeps_rows_above() {
    let mut screen = Screen::new([3, 4]);
    screen.process_input(b"abcdefghijkl\x1b[2;3H\x1b[0J");
    assert_eq!(row_text(&screen, 0), "abcd");
    assert_eq!(row_text(&screen, 1), "ef  ");
    assert_eq!(row_text(&screen, 2), "    ");
    screen.process_input(b"\x1b[1J");
    assert_eq!(row_text(&screen, 0), "    ");
}

#[test]
fn clear_uses_the_current_background() {
    let mut screen = Screen::new([2, 2]);
    screen.process_input(b"\x1b[1;44m\x1b[2J");
    let c = cell(&screen, 1, 1);
    assert_eq!(c.background, Color::Index(4));
    assert_eq!(c.style, CharacterStyles::empty());
    assert_eq!(c.character, ' ');
}

#[test]
fn scroll_up_then_down_round_trip() {
    let mut screen = Screen::new([4, 2]);
    screen.process_input(b"11223344");
    screen.scroll_up(2);
    assert_eq!(row_text(&screen, 0), "33");
    assert_eq!(row_text(&screen, 1), "44");
    assert_eq!(row_text(&screen, 2), "  ");
    screen.scroll_down(2);
    assert_eq!(row_text(&screen, 0), "  ");
    assert_eq!(row_text(&screen, 1), "  ");
    assert_eq!(row_text(&screen, 2), "33");
    assert_eq!(row_text(&screen, 3), "44");
    let mut blank = Screen::new([4, 2]);
    blank.scroll_up(3);
    blank.scroll_down(3);
    for row in 0..4 {
        assert_eq!(row_text(&blank, row), "  ");
    }
}

#[test]
fn scrolling_region_and_line_edits() {
    let mut screen = Screen::new([4, 2]);
    screen.process_input(b"aabbccdd\x1b[2;3r");
    assert_eq!(screen.scrolling_region, 1..3);
    screen.process_input(b"\x1b[2;1H\x1b[M");
    assert_eq!(row_text(&screen, 0), "aa");
    assert_eq!(row_text(&screen, 1), "cc");
    assert_eq!(row_text(&screen, 2), "  ");
    assert_eq!(row_text(&screen, 3), "dd");
    screen.process_input(b"\x1b[L");
    assert_eq!(row_text(&screen, 1), "  ");
    assert_eq!(row_text(&screen, 2), "cc");
    screen.process_input(b"\x1b[3;1H\x1b[5X");
    assert_eq!(row_text(&screen, 2), "  ");
}

#[test]
fn tab_and_backspace() {
    let mut screen = Screen::new([2, 20]);
    screen.process_input(b"a\t");
    assert_eq!(screen.cursor, Position::new(0, 8));
    screen.process_input(b"\t");
    assert_eq!(screen.cursor, Position::new(0, 16));
    screen.process_input(b"\x08");
    assert_eq!(screen.cursor, Position::new(0, 15));
    screen.process_input(b"\r\x08");
    assert_eq!(screen.cursor, Position::new(0, 19));
}

#[test]
fn reverse_line_feed_scrolls_at_the_top() {
    let mut screen = Screen::new([2, 2]);
    screen.process_input(b"ab\r\ncd\x1bM");
    assert_eq!(screen.cursor, Position::new(0, 0));
    screen.process_input(b"\x1bM");
    assert_eq!(row_text(&screen, 0), "  ");
    assert_eq!(row_text(&screen, 1), "ab");
}

#[test]
fn alternate_buffer_and_cursor_save() {
    let mut screen = Screen::new([2, 3]);
    screen.process_input(b"abc\x1b[2;2H\x1b[?1049h");
    assert!(screen.behaviours.alternate_buffer);
    assert_eq!(row_text(&screen, 0), "   ");
    screen.process_input(b"\x1b[Hxyz\x1b[?1049l");
    assert!(!screen.behaviours.alternate_buffer);
    assert_eq!(row_text(&screen, 0), "abc");
    assert_eq!(screen.cursor, Position::new(1, 1));
    screen.process_input(b"\x1b[?47h\x1b[?47h");
    assert_eq!(row_text(&screen, 0), "xyz");
    assert_eq!(screen.cursor, Position::new(1, 1));
}

#[test]
fn behaviours_and_title() {
    let mut screen = Screen::new([2, 2]);
    screen.process_input(b"\x1b[?25l\x1b[?2004h\x1b[?1h\x1b]2;my title\x07");
    assert!(!screen.behaviours.show_cursor);
    assert!(screen.behaviours.bracketed_paste);
    assert!(screen.behaviours.application_cursor);
    assert_eq!(screen.title, "my title");
    assert_eq!(screen.cursor_render_state(Color::Index(0)), None);
    screen.process_input(b"\x1b[?25h\x1b[5 q");
    assert_eq!(
        screen.cursor_render_state(Color::Index(3)),
        Some(CursorState {
            position: Position::new(0, 0),
            style: CursorStyle::blinking(CursorShape::Bar),
            color: Color::Index(15),
            text_color: Color::Index(3),
        })
    );
}

#[test]
fn invalid_utf8_shows_replacement_character() {
    let mut screen = Screen::new([1, 3]);
    screen.process_input(b"\xffa\xe2\x82\xac");
    assert_eq!(row_text(&screen, 0), "\u{fffd}a€");
}

#[test]
fn styles_reach_the_cells() {
    let mut screen = Screen::new([1, 2]);
    screen.process_input(b"\x1b[1mb\x1b[22;21mn");
    assert_eq!(cell(&screen, 0, 0).style, CharacterStyles::from_bits(BOLD));
    assert_eq!(cell(&screen, 0, 1).style, CharacterStyles::empty());
}

#[test]
fn virtual_cursor_after_the_last_column() {
    let mut screen = Screen::new([2, 2]);
    screen.process_input(b"ab");
    assert_eq!(screen.virtual_cursor(), Position::new(1, 0));
    screen.process_input(b"cd");
    assert_eq!(screen.cursor, Position::new(1, 2));
    assert_eq!(screen.virtual_cursor(), Position::new(1, 1));
}

#[test]
fn resize_resets_grid_and_cursor() {
    let mut screen = Screen::new([2, 2]);
    screen.process_input(b"ab\x1b[1;1r");
    screen.resize_grid([3, 5]);
    assert_eq!(screen.grid.size(), [3, 5]);
    assert_eq!(screen.cursor, Position::new(0, 0));
    assert_eq!(screen.scrolling_region, 0..3);
    assert_eq!(cell(&screen, 0, 0).character, ' ');
}

#[test]
fn grid_operations() {
    let mut grid = CharacterGrid::new(3, 2);
    assert_eq!(grid.size(), [3, 2]);
    assert_eq!(grid.max_row(), 2);
    assert_eq!(grid.max_col(), 1);
    let mut x = GridCell::empty();
    x.character = 'x';
    grid.set(Position::new(2, 1), x);
    grid.scroll_up(1);
    assert_eq!(grid.get(Position::new(1, 1)).character, 'x');
    assert_eq!(grid.get(Position::new(2, 1)).character, ' ');
    grid.fill_region(0, 9, 1, 9, x);
    grid.clear_region(1, 2, 0, 9);
    assert_eq!(grid.get(Position::new(0, 1)).character, 'x');
    assert_eq!(grid.get(Position::new(1, 1)).character, ' ');
    assert_eq!(grid.get(Position::new(2, 0)).character, ' ');
}

#[test]
fn palette_lookup() {
    let mut palette = [[0u8; 3]; 256];
    palette[196] = [255, 0, 0];
    assert_eq!(Color::Index(196).into_rgb(&palette), [255, 0, 0]);
    assert_eq!(Color::Rgb([1, 2, 3]).into_rgb(&palette), [1, 2, 3]);
    assert_eq!(Color::from([4, 5, 6]), Color::Rgb([4, 5, 6]));
}

#[test]
fn clear_line_regions() {
    let mut screen = Screen::new([1, 5]);
    screen.process_input(b"abcde\x1b[1;3H");
    screen.clear_line(ClearRegion::ToStart);
    assert_eq!(row_text(&screen, 0), "   de");
    screen.clear_line(ClearRegion::All);
    assert_eq!(row_text(&screen, 0), "     ");
}

#[test]
fn default_palette_entries() {
    let palette = spotty::color::default_palette();
    assert_eq!(palette[0], [0x28, 0x28, 0x28]);
    assert_eq!(palette[15], [0xeb, 0xdb, 0xb2]);
    assert_eq!(palette[16], [0, 0, 0]);
    assert_eq!(palette[196], [212, 0, 0]);
    assert_eq!(palette[231], [212, 212, 212]);
    assert_eq!(palette[232], [0, 0, 0]);
    assert_eq!(palette[255], [244, 244, 244]);
}

#[test]
fn split_input_gives_the_same_screen() {
    let input = "ab\x1b[31mcé\x1b[2;3Hd\x1b]2;t\x07\x1b[?1049h€\x1b[?1049l\r\nend".as_bytes();
    let mut whole = Screen::new([3, 5]);
    whole.process_input(input);
    for cut in 0..=input.len() {
        let mut split = Screen::new([3, 5]);
        split.process_input(&input[..cut]);
        split.process_input(&input[cut..]);
        for row in 0..3 {
            assert_eq!(row_text(&split, row), row_text(&whole, row));
            for col in 0..5 {
                assert_eq!(cell(&split, row, col), cell(&whole, row, col));
            }
        }
        assert_eq!(split.cursor, whole.cursor);
        assert_eq!(split.title, whole.title);
        assert_eq!(split.residual_input, whole.residual_input);
    }
}
