use vstd::prelude::*;

verus! {

/// A size in physical pixels.
#[derive(Debug, Clone, Copy, PartialEq, Eq)]
pub struct PhysicalSize {
    pub width: u32,
    pub height: u32,
}

impl PhysicalSize {
    pub fn new(width: u32, height: u32) -> (r: PhysicalSize)
        ensures
            r == (PhysicalSize { width, height }),
    {
        PhysicalSize { width, height }
    }
}

#[derive(Debug, Clone, Copy, PartialEq, Eq)]
pub struct WindowConfig {
    pub size: PhysicalSize,
}

/// A key the terminal reacts to.
#[derive(Debug, Clone, Copy, PartialEq, Eq, Hash)]
pub enum Key {
    Char(char),
    Escape,
    Enter,
    Backspace,
    Delete,
    Tab,
    ArrowLeft,
    ArrowRight,
    ArrowUp,
    ArrowDown,
}

pub const CONTROL: u8 = 1;
pub const SHIFT: u8 = 2;
pub const ALT: u8 = 4;
pub const SUPER: u8 = 8;

/// Modifier keys held down, one bit each (`CONTROL`, `SHIFT`, `ALT`, `SUPER`).
#[derive(Debug, Clone, Copy, PartialEq, Eq, Hash)]
pub struct Modifiers {
    pub bits: u8,
}

impl Modifiers {
    pub fn from_bits(bits: u8) -> (r: Modifiers)
        ensures
            r.bits == bits,
    {
        Modifiers { bits }
    }

    pub fn empty() -> (r: Modifiers)
        ensures
            r.bits == 0,
    {
        Modifiers { bits: 0 }
    }

    pub fn contains(&self, other: u8) -> (r: bool)
        ensures
            r == (self.bits & other == other),
    {
        self.bits & other == other
    }
}

/// What the window reports.
#[derive(Debug, Clone, Copy, PartialEq, Eq)]
pub enum Event {
    Active,
    Inactive,
    Resize(PhysicalSize),
    KeyPress(Key, Modifiers),
    ScaleFactorChanged,
    EventsCleared,
}

/// What a key press asks of the terminal. `B` holds bytes: `Vec<u8>` in executable
/// code, `Seq<u8>` in specifications.
#[derive(Debug, Clone, PartialEq, Eq)]
pub enum KeyAction<B> {
    /// Send these bytes to the shell.
    Send(B),
    PasteClipboard,
    DecreaseFontSize,
    IncreaseFontSize,
    /// Nothing to do.
    Ignore,
}

impl View for KeyAction<Vec<u8>> {
    type V = KeyAction<Seq<u8>>;

    open spec fn view(&self) -> KeyAction<Seq<u8>> {
        match self {
            KeyAction::Send(b) => KeyAction::Send(b@),
            KeyAction::PasteClipboard => KeyAction::PasteClipboard,
            KeyAction::DecreaseFontSize => KeyAction::DecreaseFontSize,
            KeyAction::IncreaseFontSize => KeyAction::IncreaseFontSize,
            KeyAction::Ignore => KeyAction::Ignore,
        }
    }
}

/// The modifiers with Alt and Super exchanged: the key labelled Command acts as Alt.
pub open spec fn swap_super_alt(bits: u8) -> u8 {
    (bits & !(ALT | SUPER)) | (if bits & SUPER != 0 {
        ALT
    } else {
        0
    }) | (if bits & ALT != 0 {
        SUPER
    } else {
        0
    })
}

pub open spec fn is_ascii_letter(ch: char) -> bool {
    ('a' <= ch && ch <= 'z') || ('A' <= ch && ch <= 'Z')
}

/// The control code of a letter: 1 for `a`, 26 for `z`, either case.
pub open spec fn control_code(ch: char) -> u8 {
    if 'A' <= ch && ch <= 'Z' {
        (ch as u32 - 0x40) as u8
    } else {
        (ch as u32 - 0x60) as u8
    }
}

/// What pressing `key` with `modifiers` asks of the terminal.
pub open spec fn key_action(key: Key, modifiers: Modifiers) -> KeyAction<Seq<u8>> {
    let m = swap_super_alt(modifiers.bits);
    match key {
        Key::Char(ch) => if m == 0 || m == SHIFT {
            KeyAction::Send(vstd::utf8::encode_utf8(seq![ch]))
        } else if m & CONTROL == CONTROL && is_ascii_letter(ch) {
            KeyAction::Send(seq![control_code(ch)])
        } else if m & ALT == ALT && is_ascii_letter(ch) {
            KeyAction::Send(seq![0x1bu8, ch as u8])
        } else if m == SUPER && ch == 'v' {
            KeyAction::PasteClipboard
        } else if m == SUPER && ch == '-' {
            KeyAction::DecreaseFontSize
        } else if m == SUPER && ch == '=' {
            KeyAction::IncreaseFontSize
        } else {
            KeyAction::Ignore
        },
        Key::Escape => KeyAction::Send(seq![0x1bu8]),
        Key::Enter => if m & ALT == ALT {
            KeyAction::Send(seq![0x1bu8, 0x0du8])
        } else {
            KeyAction::Send(seq![0x0du8])
        },
        Key::Backspace => KeyAction::Send(seq![0x08u8]),
        Key::Tab => KeyAction::Send(seq![0x09u8]),
        Key::Delete => KeyAction::Send(seq![0x1bu8, 0x5bu8, 0x33u8, 0x7eu8]),
        Key::ArrowUp => KeyAction::Send(seq![0x1bu8, 0x5bu8, 0x41u8]),
        Key::ArrowDown => KeyAction::Send(seq![0x1bu8, 0x5bu8, 0x42u8]),
        Key::ArrowRight => KeyAction::Send(seq![0x1bu8, 0x5bu8, 0x43u8]),
        Key::ArrowLeft => KeyAction::Send(seq![0x1bu8, 0x5bu8, 0x44u8]),
    }
}

/// The UTF-8 encoding of `ch`.
fn utf8_of(ch: char) -> (r: Vec<u8>)
    ensures
        r@ == vstd::utf8::encode_utf8(seq![ch]),
{
    let v = ch as u32;
    let mut out: Vec<u8> = Vec::new();
    if v <= 0x7f {
        out.push((v & 0x7f) as u8);
    } else if v <= 0x7ff {
        out.push(0xc0 | ((v >> 6) & 0x1f) as u8);
        out.push(0x80 | (v & 0x3f) as u8);
    } else if v <= 0xffff {
        out.push(0xe0 | ((v >> 12) & 0x0f) as u8);
        out.push(0x80 | ((v >> 6) & 0x3f) as u8);
        out.push(0x80 | (v & 0x3f) as u8);
    } else {
        out.push(0xf0 | ((v >> 18) & 0x7) as u8);
        out.push(0x80 | ((v >> 12) & 0x3f) as u8);
        out.push(0x80 | ((v >> 6) & 0x3f) as u8);
        out.push(0x80 | (v & 0x3f) as u8);
    }
    proof {
        vstd::utf8::char_is_scalar(ch);
        let chars = seq![ch];
        assert(chars[0] == ch);
        assert(chars.drop_first() =~= Seq::<char>::empty());
        assert(vstd::utf8::encode_utf8(chars.drop_first()) =~= Seq::<u8>::empty());
        assert(out@ =~= vstd::utf8::encode_scalar(v));
        assert(vstd::utf8::encode_utf8(chars) =~= vstd::utf8::encode_scalar(v));
    }
    out
}

fn bytes_of(bytes: &[u8]) -> (r: Vec<u8>)
    ensures
        r@ == bytes@,
{
    vstd::slice::slice_to_vec(bytes)
}

/// Decides what pressing `key` with `modifiers` asks of the terminal.
pub fn encode_key(key: Key, modifiers: Modifiers) -> (r: KeyAction<Vec<u8>>)
    ensures
        r@ == key_action(key, modifiers),
{
    let bits = modifiers.bits;
    let m = (bits & !(ALT | SUPER)) | (if bits & SUPER != 0 {
        ALT
    } else {
        0
    }) | (if bits & ALT != 0 {
        SUPER
    } else {
        0
    });
    match key {
        Key::Char(ch) => {
            let letter = ('a' <= ch && ch <= 'z') || ('A' <= ch && ch <= 'Z');
            if m == 0 || m == SHIFT {
                KeyAction::Send(utf8_of(ch))
            } else if m & CONTROL == CONTROL && letter {
                let code = if 'A' <= ch && ch <= 'Z' {
                    (ch as u32 - 0x40) as u8
                } else {
                    (ch as u32 - 0x60) as u8
                };
                let mut v: Vec<u8> = Vec::new();
                v.push(code);
                assert(v@ =~= seq![control_code(ch)]);
                KeyAction::Send(v)
            } else if m & ALT == ALT && letter {
                let mut v: Vec<u8> = Vec::new();
                v.push(0x1b);
                v.push(ch as u8);
                assert(v@ =~= seq![0x1bu8, ch as u8]);
                KeyAction::Send(v)
            } else if m == SUPER && ch == 'v' {
                KeyAction::PasteClipboard
            } else if m == SUPER && ch == '-' {
                KeyAction::DecreaseFontSize
            } else if m == SUPER && ch == '=' {
                KeyAction::IncreaseFontSize
            } else {
                KeyAction::Ignore
            }
        },
        Key::Escape => {
            let v = bytes_of(&[0x1b]);
            assert(v@ =~= seq![0x1bu8]);
            KeyAction::Send(v)
        },
        Key::Enter => {
            if m & ALT == ALT {
                let v = bytes_of(&[0x1b, 0x0d]);
                assert(v@ =~= seq![0x1bu8, 0x0du8]);
                KeyAction::Send(v)
            } else {
                let v = bytes_of(&[0x0d]);
                assert(v@ =~= seq![0x0du8]);
                KeyAction::Send(v)
            }
        },
        Key::Backspace => {
            let v = bytes_of(&[0x08]);
            assert(v@ =~= seq![0x08u8]);
            KeyAction::Send(v)
        },
        Key::Tab => {
            let v = bytes_of(&[0x09]);
            assert(v@ =~= seq![0x09u8]);
            KeyAction::Send(v)
        },
        Key::Delete => {
            let v = bytes_of(&[0x1b, 0x5b, 0x33, 0x7e]);
            assert(v@ =~= seq![0x1bu8, 0x5bu8, 0x33u8, 0x7eu8]);
            KeyAction::Send(v)
        },
        Key::ArrowUp => arrow(0x41),
        Key::ArrowDown => arrow(0x42),
        Key::ArrowRight => arrow(0x43),
        Key::ArrowLeft => arrow(0x44),
    }
}

fn arrow(last: u8) -> (r: KeyAction<Vec<u8>>)
    ensures
        r@ == KeyAction::Send(seq![0x1bu8, 0x5bu8, last]),
{
    let mut v: Vec<u8> = Vec::new();
    v.push(0x1b);
    v.push(0x5b);
    v.push(last);
    assert(v@ =~= seq![0x1bu8, 0x5bu8, last]);
    KeyAction::Send(v)
}

/// `s` without its ESC bytes.
pub open spec fn without_escapes(s: Seq<u8>) -> Seq<u8>
    decreases s.len(),
{
    if s.len() == 0 {
        Seq::empty()
    } else if s.last() == 0x1b {
        without_escapes(s.drop_last())
    } else {
        without_escapes(s.drop_last()).push(s.last())
    }
}

pub open spec fn bracketed_paste_start() -> Seq<u8> {
    seq![0x1bu8, 0x5bu8, 0x32u8, 0x30u8, 0x30u8, 0x7eu8]
}

pub open spec fn bracketed_paste_end() -> Seq<u8> {
    seq![0x1bu8, 0x5bu8, 0x32u8, 0x30u8, 0x31u8, 0x7eu8]
}

/// The bytes to send for pasted `text`: its ESC bytes removed, so that it cannot end
/// a bracketed paste early, and wrapped in the bracketed-paste markers when the shell
/// asked for them.
pub fn paste_payload(text: &[u8], bracketed: bool) -> (r: Vec<u8>)
    ensures
        bracketed ==> r@ == bracketed_paste_start() + without_escapes(text@)
            + bracketed_paste_end(),
        !bracketed ==> r@ == without_escapes(text@),
{
    let mut out: Vec<u8> = Vec::new();
    if bracketed {
        out = bytes_of(&[0x1b, 0x5b, 0x32, 0x30, 0x30, 0x7e]);
    }
    let ghost start = out@;
    let mut i: usize = 0;
    while i < text.len()
        invariant
            i <= text@.len(),
            out@ == start + without_escapes(text@.take(i as int)),
        decreases text@.len() - i,
    {
        assert(text@.take(i + 1).drop_last() =~= text@.take(i as int));
        if text[i] != 0x1b {
            out.push(text[i]);
        }
        i = i + 1;
        assert(out@ =~= start + without_escapes(text@.take(i as int)));
    }
    assert(text@.take(i as int) =~= text@);
    if bracketed {
        let ghost middle = out@;
        out.push(0x1b);
        out.push(0x5b);
        out.push(0x32);
        out.push(0x30);
        out.push(0x31);
        out.push(0x7e);
        assert(out@ =~= middle + bracketed_paste_end());
        assert(start =~= bracketed_paste_start());
    } else {
        assert(start =~= Seq::<u8>::empty());
        assert(out@ =~= without_escapes(text@));
    }
    out
}

} // verus!
