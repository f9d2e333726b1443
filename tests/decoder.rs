use spotty::color::Color;
use spotty::tty::control_code::{
    parse, Argument, ArgumentList, Behaviour, CharacterStyles, ClearRegion, Command, CursorShape,
    CursorStyle, Direction, ParseError, Toggle, BOLD, ITALIC,
};

fn decode(bytes: &[u8]) -> (Vec<Command<Vec<u8>>>, Vec<u8>) {
    let mut out = Vec::new();
    let tail = parse(bytes, &mut out).to_vec();
    (out, tail)
}

#[test]
fn truncated_csi_is_held_back_then_completed() {
    let (commands, tail) = decode(b"\x1b[2");
    assert!(commands.is_empty());
    assert_eq!(tail, b"\x1b[2".to_vec());
    let mut next = tail.clone();
    next.extend_from_slice(b"J");
    assert_eq!(next, b"\x1b[2J".to_vec());
    let (commands, tail) = decode(&next);
    assert_eq!(commands, vec![Command::ClearScreen(ClearRegion::All)]);
    assert!(tail.is_empty());
}

#[test]
fn sgr_extended_colors() {
    let (commands, _) = decode(b"\x1b[38;5;196m");
    assert_eq!(commands, vec![Command::SetForegroundColor(Color::Index(196))]);
    let (commands, _) = decode(b"\x1b[38;2;10;20;30m");
    assert_eq!(commands, vec![Command::SetForegroundColor(Color::Rgb([10, 20, 30]))]);
    let (commands, _) = decode(b"\x1b[48;5;7m");
    assert_eq!(commands, vec![Command::SetBackgroundColor(Color::Index(7))]);
}

#[test]
fn sgr_codes() {
    let (commands, _) = decode(b"\x1b[1;23;31;42;97;39;49m");
    assert_eq!(
        commands,
        vec![
            Command::SetCharacterStyle(CharacterStyles::from_bits(BOLD)),
            Command::ResetCharacterStyle(CharacterStyles::from_bits(ITALIC)),
            Command::SetForegroundColor(Color::Index(1)),
            Command::SetBackgroundColor(Color::Index(2)),
            Command::SetForegroundColor(Color::Index(15)),
            Command::ResetForegroundColor,
            Command::ResetBackgroundColor,
        ]
    );
    let (commands, _) = decode(b"\x1b[m");
    assert_eq!(
        commands,
        vec![
            Command::ResetCharacterStyle(CharacterStyles::all()),
            Command::ResetForegroundColor,
            Command::ResetBackgroundColor,
        ]
    );
}

#[test]
fn sgr_unknown_code_applies_nothing() {
    let (commands, tail) = decode(b"\x1b[1;6m");
    assert_eq!(commands, vec![Command::InvalidControlSequence(b"\x1b[1;6m".to_vec())]);
    assert!(tail.is_empty());
}

#[test]
fn cursor_movement_defaults() {
    let (commands, _) = decode(b"\x1b[A\x1b[0B\x1b[3C\x1b[12D\x1b[H\x1b[5;7H");
    assert_eq!(
        commands,
        vec![
            Command::MoveCursor(Direction::Up, 1),
            Command::MoveCursor(Direction::Down, 1),
            Command::MoveCursor(Direction::Right, 3),
            Command::MoveCursor(Direction::Left, 12),
            Command::SetCursorPos(0, 0),
            Command::SetCursorPos(4, 6),
        ]
    );
}

#[test]
fn clears_lines_and_regions() {
    let (commands, _) = decode(b"\x1b[J\x1b[1J\x1b[3J\x1b[K\x1b[2K\x1b[4L\x1b[M\x1b[2X\x1b[2;10r\x1b[r");
    assert_eq!(
        commands,
        vec![
            Command::ClearScreen(ClearRegion::ToEnd),
            Command::ClearScreen(ClearRegion::ToStart),
            Command::ClearScrollback,
            Command::ClearLine(ClearRegion::ToEnd),
            Command::ClearLine(ClearRegion::All),
            Command::InsertLines(4),
            Command::DeleteLines(1),
            Command::Erase(2),
            Command::SetScrollingRegion(1, 10),
            Command::SetScrollingRegion(0, 65535),
        ]
    );
    let (commands, _) = decode(b"\x1b[4J");
    assert_eq!(commands, vec![Command::InvalidControlSequence(b"\x1b[4J".to_vec())]);
}

#[test]
fn private_modes() {
    let (commands, _) = decode(b"\x1b[?25l\x1b[?2004h\x1b[?1047h\x1b[?1048l\x1b[?1049h");
    assert_eq!(
        commands,
        vec![
            Command::ToggleBehaviour(Behaviour::ShowCursor, Toggle::Disabled),
            Command::ToggleBehaviour(Behaviour::BracketedPaste, Toggle::Enabled),
            Command::ToggleBehaviour(Behaviour::AlternateBuffer, Toggle::Enabled),
            Command::RestoreCursor,
            Command::SaveCursor,
            Command::ToggleBehaviour(Behaviour::AlternateBuffer, Toggle::Enabled),
            Command::ClearScreen(ClearRegion::All),
        ]
    );
    let (commands, _) = decode(b"\x1b[?1049l\x1b[?9999h");
    assert_eq!(
        commands,
        vec![
            Command::ToggleBehaviour(Behaviour::AlternateBuffer, Toggle::Disabled),
            Command::RestoreCursor,
            Command::InvalidControlSequence(b"\x1b[?9999h".to_vec()),
        ]
    );
}

#[test]
fn cursor_style() {
    let (commands, _) = decode(b"\x1b[ q\x1b[4 q\x1b[6 q\x1b[7 q");
    assert_eq!(
        commands,
        vec![
            Command::SetCursorStyle(CursorStyle::blinking(CursorShape::Block)),
            Command::SetCursorStyle(CursorStyle::steady(CursorShape::Underline)),
            Command::SetCursorStyle(CursorStyle::steady(CursorShape::Bar)),
            Command::InvalidControlSequence(b"\x1b[7 q".to_vec()),
        ]
    );
}

#[test]
fn operating_system_commands() {
    let (commands, _) = decode(b"\x1b]0;hello\x07\x1b]2;x;y\x03\x1b]1;icon\x07\x1b]112\x07");
    assert_eq!(
        commands,
        vec![
            Command::SetWindowTitle(b"hello".to_vec()),
            Command::SetWindowTitle(b"x".to_vec()),
            Command::ResetCursorColor,
        ]
    );
    let (commands, _) = decode(b"\x1b]7;x\x07");
    assert_eq!(commands, vec![Command::InvalidControlSequence(b"\x1b]7;x\x07".to_vec())]);
    let (commands, tail) = decode(b"\x1b]0;unfinished");
    assert!(commands.is_empty());
    assert_eq!(tail, b"\x1b]0;unfinished".to_vec());
}

#[test]
fn simple_controls_and_escapes() {
    let (commands, _) = decode(b"\x07\x08\x09\r\n\x1bM\x1b(B\x01\x1bZ");
    assert_eq!(
        commands,
        vec![
            Command::Bell,
            Command::Backspace,
            Command::Tab,
            Command::CarriageReturn,
            Command::LineFeed,
            Command::ReverseLineFeed,
            Command::InvalidControlSequence(vec![0x01]),
            Command::InvalidControlSequence(b"\x1bZ".to_vec()),
        ]
    );
}

#[test]
fn utf8_text() {
    let (commands, tail) = decode("aé€😀".as_bytes());
    assert_eq!(
        commands,
        vec![
            Command::Text('a'),
            Command::Text('é'),
            Command::Text('€'),
            Command::Text('😀'),
        ]
    );
    assert!(tail.is_empty());
}

#[test]
fn invalid_utf8() {
    let (commands, tail) = decode(b"\xff\xe2\x82A\xed\xa0\x80");
    assert_eq!(
        commands,
        vec![
            Command::InvalidUtf8(vec![0xff]),
            Command::InvalidUtf8(vec![0xe2, 0x82]),
            Command::Text('A'),
            Command::InvalidUtf8(vec![0xed]),
            Command::InvalidUtf8(vec![0xa0]),
            Command::InvalidUtf8(vec![0x80]),
        ]
    );
    assert!(tail.is_empty());
    let (commands, tail) = decode(b"ok\xe2\x82");
    assert_eq!(commands, vec![Command::Text('o'), Command::Text('k')]);
    assert_eq!(tail, vec![0xe2, 0x82]);
    let (commands, _) = decode(b"\xe2\x82\n");
    assert_eq!(commands, vec![Command::InvalidUtf8(vec![0xe2, 0x82]), Command::LineFeed]);
}

#[test]
fn split_input_gives_the_same_commands() {
    let input = "x\x1b[1;31mé\x1b]0;t\x07\x1b[?25l€\r\n".as_bytes();
    let (whole, whole_tail) = decode(input);
    for cut in 0..=input.len() {
        let (mut first, tail) = decode(&input[..cut]);
        let mut rest = tail.clone();
        rest.extend_from_slice(&input[cut..]);
        let (second, second_tail) = decode(&rest);
        first.extend(second);
        assert_eq!(first, whole);
        assert_eq!(second_tail, whole_tail);
    }
}

#[test]
fn arguments() {
    assert_eq!(Argument::single(b"").unwrap().with_default(7), 7);
    assert_eq!(Argument::single(b"0").unwrap().to_option(), None);
    assert_eq!(Argument::single(b"65535").unwrap().to_option(), Some(65535));
    assert_eq!(Argument::single(b"65536"), Err(ParseError::Invalid));
    assert_eq!(Argument::single(b"1a"), Err(ParseError::Invalid));
    let pair = Argument::multi(b"3;").unwrap();
    assert_eq!(pair[0].with_default(1), 3);
    assert_eq!(pair[1].to_option(), None);
    assert_eq!(Argument::multi(b"1;2;3"), Err(ParseError::Invalid));
    let mut list = ArgumentList::new(b"12:;x");
    assert_eq!(list.next().unwrap().with_default(0), 12);
    assert_eq!(list.next_slice(), b"");
    assert!(!list.is_empty());
    assert_eq!(list.next(), Err(ParseError::Invalid));
    assert!(list.is_empty());
}

#[test]
fn styles_and_toggles() {
    let mut styles = CharacterStyles::empty();
    styles.insert(CharacterStyles::from_bits(BOLD | ITALIC));
    assert!(styles.contains(CharacterStyles::from_bits(BOLD)));
    styles.remove(CharacterStyles::from_bits(BOLD));
    assert_eq!(styles.bits, ITALIC);
    assert!(Toggle::Enabled.is_enabled());
    assert!(!Toggle::Disabled.is_enabled());
    assert_eq!(Behaviour::from_code(1004), Some(Behaviour::FocusEvents));
    assert_eq!(Behaviour::from_code(3), None);
}

#[test]
fn extended_colors_out_of_range_are_invalid() {
    let (commands, _) = decode(b"\x1b[38;5;300m");
    assert_eq!(commands, vec![Command::InvalidControlSequence(b"\x1b[38;5;300m".to_vec())]);
    let (commands, _) = decode(b"\x1b[1;48;2;10;256;0m");
    assert_eq!(commands, vec![Command::InvalidControlSequence(b"\x1b[1;48;2;10;256;0m".to_vec())]);
    let (commands, _) = decode(b"\x1b[48;2;255;0;255m");
    assert_eq!(commands, vec![Command::SetBackgroundColor(Color::Rgb([255, 0, 255]))]);
}
