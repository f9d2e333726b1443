use spotty::inline::{InlineBytes, InlineStr, MAX_INLINE_LEN};
use spotty::window::{encode_key, paste_payload, Key, KeyAction, Modifiers, PhysicalSize, ALT, CONTROL, SHIFT, SUPER};

fn send(bytes: &[u8]) -> KeyAction<Vec<u8>> {
    KeyAction::Send(bytes.to_vec())
}

#[test]
fn plain_characters_are_sent_as_utf8() {
    assert_eq!(encode_key(Key::Char('a'), Modifiers::empty()), send(b"a"));
    assert_eq!(encode_key(Key::Char('A'), Modifiers::from_bits(SHIFT)), send(b"A"));
    assert_eq!(encode_key(Key::Char('é'), Modifiers::empty()), send("é".as_bytes()));
    assert_eq!(encode_key(Key::Char('€'), Modifiers::empty()), send("€".as_bytes()));
}

#[test]
fn control_and_alt_letters() {
    assert_eq!(encode_key(Key::Char('c'), Modifiers::from_bits(CONTROL)), send(&[3]));
    assert_eq!(encode_key(Key::Char('Z'), Modifiers::from_bits(CONTROL | SHIFT)), send(&[26]));
    // the Super key acts as Alt
    assert_eq!(encode_key(Key::Char('b'), Modifiers::from_bits(SUPER)), send(b"\x1bb"));
    assert_eq!(encode_key(Key::Char('1'), Modifiers::from_bits(CONTROL)), KeyAction::Ignore);
}

#[test]
fn command_shortcuts() {
    // the Alt key acts as Super
    assert_eq!(encode_key(Key::Char('v'), Modifiers::from_bits(ALT)), KeyAction::PasteClipboard);
    assert_eq!(encode_key(Key::Char('-'), Modifiers::from_bits(ALT)), KeyAction::DecreaseFontSize);
    assert_eq!(encode_key(Key::Char('='), Modifiers::from_bits(ALT)), KeyAction::IncreaseFontSize);
}

#[test]
fn special_keys() {
    assert_eq!(encode_key(Key::Escape, Modifiers::empty()), send(b"\x1b"));
    assert_eq!(encode_key(Key::Enter, Modifiers::empty()), send(b"\r"));
    assert_eq!(encode_key(Key::Enter, Modifiers::from_bits(SUPER)), send(b"\x1b\r"));
    assert_eq!(encode_key(Key::Backspace, Modifiers::empty()), send(b"\x08"));
    assert_eq!(encode_key(Key::Tab, Modifiers::empty()), send(b"\t"));
    assert_eq!(encode_key(Key::Delete, Modifiers::empty()), send(b"\x1b[3~"));
    assert_eq!(encode_key(Key::ArrowUp, Modifiers::empty()), send(b"\x1b[A"));
    assert_eq!(encode_key(Key::ArrowDown, Modifiers::empty()), send(b"\x1b[B"));
    assert_eq!(encode_key(Key::ArrowRight, Modifiers::empty()), send(b"\x1b[C"));
    assert_eq!(encode_key(Key::ArrowLeft, Modifiers::empty()), send(b"\x1b[D"));
}

#[test]
fn paste_strips_escapes() {
    assert_eq!(paste_payload(b"a\x1bb", false), b"ab".to_vec());
    assert_eq!(paste_payload(b"x\x1b", true), b"\x1b[200~x\x1b[201~".to_vec());
    assert_eq!(paste_payload(b"", false), Vec::<u8>::new());
}

#[test]
fn modifiers_and_sizes() {
    let m = Modifiers::from_bits(CONTROL | ALT);
    assert!(m.contains(CONTROL));
    assert!(!m.contains(SHIFT));
    assert_eq!(PhysicalSize::new(800, 600), PhysicalSize { width: 800, height: 600 });
}

#[test]
fn inline_bytes_short_and_long() {
    let short = InlineBytes::new(b"hello");
    assert_eq!(short.as_bytes(), b"hello");
    assert_eq!(short.len(), 5);
    let exact = vec![7u8; MAX_INLINE_LEN];
    assert_eq!(InlineBytes::new(&exact).as_bytes(), &exact[..]);
    let long = vec![9u8; 1000];
    assert_eq!(InlineBytes::new(&long).as_bytes(), &long[..]);
    assert_eq!(InlineBytes::new(b"").len(), 0);
    assert_eq!(InlineBytes::from_byte(3).as_bytes(), &[3]);
    assert_eq!(InlineStr::new("héllo").as_bytes(), "héllo".as_bytes());
}
