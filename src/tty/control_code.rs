use vstd::prelude::*;
use vstd::slice::slice_subrange;
use vstd::slice::slice_to_vec;
use crate::color::Color;

verus! {

/// Whether a behaviour is switched on or off.
#[derive(Debug, Clone, Copy, PartialEq, Eq)]
pub enum Toggle {
    Enabled,
    Disabled,
}

impl Toggle {
    /// Returns `true` if the toggle is `Enabled`.
    pub fn is_enabled(&self) -> (r: bool)
        ensures
            r == (*self == Toggle::Enabled),
    {
        match self {
            Toggle::Enabled => true,
            Toggle::Disabled => false,
        }
    }
}

/// Which part of a line or of the screen a clear applies to.
#[derive(Debug, Clone, Copy, PartialEq, Eq)]
pub enum ClearRegion {
    /// From the cursor to the end of the region.
    ToEnd,
    /// From the start of the region to the cursor.
    ToStart,
    /// Everything.
    All,
}

/// Shape and blinking of the cursor.
#[derive(Debug, Clone, Copy, PartialEq, Eq)]
pub struct CursorStyle {
    pub shape: CursorShape,
    pub blink: CursorBlink,
}

#[derive(Debug, Clone, Copy, PartialEq, Eq)]
pub enum CursorShape {
    Block,
    Bar,
    Underline,
}

#[derive(Debug, Clone, Copy, PartialEq, Eq)]
pub enum CursorBlink {
    Blinking,
    Steady,
}

impl CursorStyle {
    /// A blinking block, the style a screen starts with.
    pub fn default_style() -> (r: CursorStyle)
        ensures
            r == (CursorStyle { shape: CursorShape::Block, blink: CursorBlink::Blinking }),
    {
        CursorStyle { shape: CursorShape::Block, blink: CursorBlink::Blinking }
    }

    pub fn blinking(shape: CursorShape) -> (r: CursorStyle)
        ensures
            r == (CursorStyle { shape, blink: CursorBlink::Blinking }),
    {
        CursorStyle { shape, blink: CursorBlink::Blinking }
    }

    pub fn steady(shape: CursorShape) -> (r: CursorStyle)
        ensures
            r == (CursorStyle { shape, blink: CursorBlink::Steady }),
    {
        CursorStyle { shape, blink: CursorBlink::Steady }
    }
}

/// Named behaviours that private-mode sequences switch on and off.
#[derive(Debug, Clone, Copy, PartialEq, Eq, Hash)]
pub enum Behaviour {
    ApplicationCursor,
    ShowCursor,
    AlternateBuffer,
    FocusEvents,
    BracketedPaste,
}

/// The behaviour that a private-mode code names, if any.
pub open spec fn behaviour_of(code: u16) -> Option<Behaviour> {
    if code == 1 {
        Some(Behaviour::ApplicationCursor)
    } else if code == 25 {
        Some(Behaviour::ShowCursor)
    } else if code == 47 {
        Some(Behaviour::AlternateBuffer)
    } else if code == 1004 {
        Some(Behaviour::FocusEvents)
    } else if code == 2004 {
        Some(Behaviour::BracketedPaste)
    } else {
        None
    }
}

impl Behaviour {
    /// The behaviour with the given private-mode code.
    pub fn from_code(code: u16) -> (r: Option<Behaviour>)
        ensures
            r == behaviour_of(code),
    {
        match code {
            1 => Some(Behaviour::ApplicationCursor),
            25 => Some(Behaviour::ShowCursor),
            47 => Some(Behaviour::AlternateBuffer),
            1004 => Some(Behaviour::FocusEvents),
            2004 => Some(Behaviour::BracketedPaste),
            _ => None,
        }
    }
}

pub const BOLD: u8 = 0x01;
pub const FAINT: u8 = 0x02;
pub const ITALIC: u8 = 0x04;
pub const UNDERLINE: u8 = 0x08;
pub const BLINK: u8 = 0x10;
pub const INVERSE: u8 = 0x20;
pub const INVISIBLE: u8 = 0x40;
pub const STRIKETHROUGH: u8 = 0x80;

/// A set of character styles, one bit each (`BOLD`, `FAINT`, ...).
#[derive(Debug, Clone, Copy, PartialEq, Eq, Hash)]
pub struct CharacterStyles {
    pub bits: u8,
}

impl CharacterStyles {
    pub fn from_bits(bits: u8) -> (r: CharacterStyles)
        ensures
            r.bits == bits,
    {
        CharacterStyles { bits }
    }

    pub fn empty() -> (r: CharacterStyles)
        ensures
            r.bits == 0,
    {
        CharacterStyles { bits: 0 }
    }

    pub fn all() -> (r: CharacterStyles)
        ensures
            r.bits == 0xff,
    {
        CharacterStyles { bits: 0xff }
    }

    pub fn contains(&self, other: CharacterStyles) -> (r: bool)
        ensures
            r == (self.bits & other.bits == other.bits),
    {
        self.bits & other.bits == other.bits
    }

    /// Adds the styles of `other`.
    pub fn insert(&mut self, other: CharacterStyles)
        ensures
            final(self).bits == old(self).bits | other.bits,
    {
        self.bits = self.bits | other.bits;
    }

    /// Removes the styles of `other`.
    pub fn remove(&mut self, other: CharacterStyles)
        ensures
            final(self).bits == old(self).bits & !other.bits,
    {
        self.bits = self.bits & !other.bits;
    }
}

#[derive(Debug, Clone, Copy, PartialEq, Eq)]
pub enum Direction {
    Up,
    Down,
    Left,
    Right,
}

/// Why a sequence could not be applied.
#[derive(Debug, Clone, Copy, PartialEq, Eq)]
pub enum ParseError {
    /// More bytes are needed.
    Incomplete,
    /// The bytes do not form a recognized sequence.
    Invalid,
}


/// A byte that separates arguments: `;` or `:`.
pub open spec fn is_separator(b: u8) -> bool {
    b == 0x3b || b == 0x3a
}

pub open spec fn is_digit(b: u8) -> bool {
    0x30 <= b <= 0x39
}

/// How many bytes at the front of `s` satisfy `pred`.
pub open spec fn run_length(s: Seq<u8>, pred: spec_fn(u8) -> bool) -> nat
    decreases s.len(),
{
    if s.len() > 0 && pred(s[0]) {
        1 + run_length(s.drop_first(), pred)
    } else {
        0
    }
}

pub open spec fn in_range(low: u8, high: u8) -> spec_fn(u8) -> bool {
    |b: u8| low <= b <= high
}

pub open spec fn not_separator() -> spec_fn(u8) -> bool {
    |b: u8| !is_separator(b)
}

/// The run of `s` that satisfies `pred` ends at `i`.
pub proof fn lemma_run_length(s: Seq<u8>, pred: spec_fn(u8) -> bool, i: int)
    requires
        0 <= i <= s.len(),
        forall|k: int| 0 <= k < i ==> pred(#[trigger] s[k]),
        i == s.len() || !pred(s[i]),
    ensures
        run_length(s, pred) == i,
    decreases i,
{
    if i > 0 {
        assert forall|k: int| 0 <= k < i - 1 implies pred(#[trigger] s.drop_first()[k]) by {
            assert(s.drop_first()[k] == s[k + 1]);
        }
        lemma_run_length(s.drop_first(), pred, i - 1);
    }
}

/// A run that stops inside `x` stops at the same place in `x + y`.
pub proof fn lemma_run_length_prefix(x: Seq<u8>, y: Seq<u8>, pred: spec_fn(u8) -> bool)
    requires
        run_length(x, pred) < x.len(),
    ensures
        run_length(x + y, pred) == run_length(x, pred),
    decreases x.len(),
{
    if pred(x[0]) {
        assert((x + y).drop_first() =~= x.drop_first() + y);
        lemma_run_length_prefix(x.drop_first(), y, pred);
    }
}

/// The bytes before the first separator.
pub open spec fn next_part(s: Seq<u8>) -> Seq<u8> {
    s.take(run_length(s, not_separator()) as int)
}

/// What follows the first separator; empty when there is none.
pub open spec fn after_part(s: Seq<u8>) -> Seq<u8> {
    let k = run_length(s, not_separator()) as int;
    if k < s.len() {
        s.skip(k + 1)
    } else {
        Seq::empty()
    }
}

/// The decimal value of a string of digits.
pub open spec fn decimal_value(s: Seq<u8>) -> int
    decreases s.len(),
{
    if s.len() == 0 {
        0
    } else {
        decimal_value(s.drop_last()) * 10 + (s.last() - 0x30)
    }
}

pub open spec fn all_digits(s: Seq<u8>) -> bool {
    forall|i: int| 0 <= i < s.len() ==> is_digit(#[trigger] s[i])
}

/// The value of one argument: digits whose value fits in 16 bits, an empty
/// argument being 0; anything else is no argument.
pub open spec fn argument_value(s: Seq<u8>) -> Option<u16> {
    if all_digits(s) && decimal_value(s) <= 0xffff {
        Some(decimal_value(s) as u16)
    } else {
        None
    }
}

proof fn lemma_decimal_value_nonnegative(s: Seq<u8>)
    requires
        all_digits(s),
    ensures
        decimal_value(s) >= 0,
    decreases s.len(),
{
    if s.len() > 0 {
        assert(all_digits(s.drop_last())) by {
            assert forall|i: int| 0 <= i < s.drop_last().len() implies is_digit(
                #[trigger] s.drop_last()[i],
            ) by {
                assert(s.drop_last()[i] == s[i]);
            }
        }
        lemma_decimal_value_nonnegative(s.drop_last());
        assert(is_digit(s[s.len() - 1]));
    }
}

proof fn lemma_decimal_value_grows(s: Seq<u8>, k: int, m: int)
    requires
        0 <= k <= m <= s.len(),
        all_digits(s),
    ensures
        decimal_value(s.take(k)) <= decimal_value(s.take(m)),
    decreases m - k,
{
    if k < m {
        lemma_decimal_value_grows(s, k, m - 1);
        assert(s.take(m).drop_last() =~= s.take(m - 1));
        assert(is_digit(s[m - 1]));
        assert(s.take(m).last() == s[m - 1]);
        assert(all_digits(s.take(m - 1))) by {
            assert forall|i: int| 0 <= i < m - 1 implies is_digit(#[trigger] s.take(m - 1)[i]) by {
                assert(s.take(m - 1)[i] == s[i]);
            }
        }
        lemma_decimal_value_nonnegative(s.take(m - 1));
    }
}

/// A numeric argument of a sequence; zero stands for an absent argument.
#[derive(Debug, Clone, Copy, PartialEq, Eq, Default)]
pub struct Argument {
    value: u16,
}

impl View for Argument {
    type V = u16;

    closed spec fn view(&self) -> u16 {
        self.value
    }
}

impl Argument {
    pub fn new(value: u16) -> (r: Argument)
        ensures
            r@ == value,
    {
        Argument { value }
    }

    /// The value, or `default` when the argument is absent (or zero).
    pub fn with_default(self, default: u16) -> (r: u16)
        ensures
            r == (if self@ == 0 { default } else { self@ }),
    {
        if self.value == 0 {
            default
        } else {
            self.value
        }
    }

    /// The value, or `None` when the argument is absent (or zero).
    pub fn to_option(self) -> (r: Option<u16>)
        ensures
            r == (if self@ == 0 { None } else { Some(self@) }),
    {
        if self.value == 0 {
            None
        } else {
            Some(self.value)
        }
    }

    /// Reads one argument: decimal digits whose value fits in 16 bits.
    pub fn single(parameters: &[u8]) -> (r: Result<Argument, ParseError>)
        ensures
            r == argument_result(parameters@),
    {
        let mut value: u16 = 0;
        let mut i: usize = 0;
        while i < parameters.len()
            invariant
                i <= parameters@.len(),
                all_digits(parameters@.take(i as int)),
                value == decimal_value(parameters@.take(i as int)),
            decreases parameters@.len() - i,
        {
            let byte = parameters[i];
            assert(parameters@.take(i + 1).drop_last() =~= parameters@.take(i as int));
            if byte < 0x30 || byte > 0x39 {
                assert(!is_digit(parameters@[i as int]));
                return Err(ParseError::Invalid);
            }
            let next: u32 = value as u32 * 10 + (byte - 0x30) as u32;
            if next > 0xffff {
                proof {
                    assert(all_digits(parameters@.take(i + 1)));
                    if all_digits(parameters@) {
                        lemma_decimal_value_grows(parameters@, i + 1, parameters@.len() as int);
                        assert(parameters@.take(parameters@.len() as int) =~= parameters@);
                    }
                }
                return Err(ParseError::Invalid);
            }
            value = next as u16;
            i = i + 1;
            assert(all_digits(parameters@.take(i as int)));
        }
        assert(parameters@.take(i as int) =~= parameters@);
        Ok(Argument { value })
    }

    pub closed spec fn new_spec(value: u16) -> Argument {
        Argument { value }
    }
}

/// What `Argument::single` returns for the bytes `s`.
pub open spec fn argument_result(s: Seq<u8>) -> Result<Argument, ParseError> {
    match argument_value(s) {
        Some(v) => Ok(Argument::new_spec(v)),
        None => Err(ParseError::Invalid),
    }
}

/// The two arguments of a sequence that takes at most two: `None` when there are
/// more, or when one of them is not a valid argument.
pub open spec fn pair_value(s: Seq<u8>) -> Option<(u16, u16)> {
    let k = run_length(s, not_separator()) as int;
    if k == s.len() {
        match argument_value(s) {
            Some(a) => Some((a, 0u16)),
            None => None,
        }
    } else {
        let rest = s.skip(k + 1);
        if run_length(rest, not_separator()) < rest.len() {
            None
        } else {
            match (argument_value(s.take(k)), argument_value(rest)) {
                (Some(a), Some(b)) => Some((a, b)),
                _ => None,
            }
        }
    }
}

/// The index of the first separator in `bytes`, or its length when there is none.
fn separator_position(bytes: &[u8]) -> (r: usize)
    ensures
        r == run_length(bytes@, not_separator()),
        r <= bytes@.len(),
{
    let mut i: usize = 0;
    while i < bytes.len() && bytes[i] != 0x3b && bytes[i] != 0x3a
        invariant
            i <= bytes@.len(),
            forall|k: int| 0 <= k < i ==> (not_separator())(#[trigger] bytes@[k]),
        decreases bytes@.len() - i,
    {
        i = i + 1;
    }
    proof {
        lemma_run_length(bytes@, not_separator(), i as int);
    }
    i
}

/// The bytes at the front of `bytes` that lie in `[low, high]`; `Incomplete` when the
/// run reaches the end, since then more bytes could belong to it.
pub fn take_while_in_range<'a>(bytes: &'a [u8], low: u8, high: u8) -> (r: Result<
    &'a [u8],
    ParseError,
>)
    ensures
        run_length(bytes@, in_range(low, high)) <= bytes@.len(),
        match r {
            Ok(m) => run_length(bytes@, in_range(low, high)) < bytes@.len() && m@ == bytes@.take(
                run_length(bytes@, in_range(low, high)) as int,
            ),
            Err(e) => e == ParseError::Incomplete && run_length(bytes@, in_range(low, high))
                == bytes@.len(),
        },
{
    let mut i: usize = 0;
    while i < bytes.len() && low <= bytes[i] && bytes[i] <= high
        invariant
            i <= bytes@.len(),
            forall|k: int| 0 <= k < i ==> (in_range(low, high))(#[trigger] bytes@[k]),
        decreases bytes@.len() - i,
    {
        i = i + 1;
    }
    proof {
        lemma_run_length(bytes@, in_range(low, high), i as int);
    }
    if i == bytes.len() {
        Err(ParseError::Incomplete)
    } else {
        Ok(slice_subrange(bytes, 0, i))
    }
}

impl Argument {
    /// Reads the at most two arguments of `parameters`.
    pub fn multi(parameters: &[u8]) -> (r: Result<[Argument; 2], ParseError>)
        ensures
            match pair_value(parameters@) {
                Some((a, b)) => (r matches Ok(v) && v[0]@ == a && v[1]@ == b),
                None => r == Err::<[Argument; 2], ParseError>(ParseError::Invalid),
            },
    {
        let k = separator_position(parameters);
        if k == parameters.len() {
            assert(parameters@.take(k as int) =~= parameters@);
            let a = Argument::single(parameters)?;
            return Ok([a, Argument::new(0)]);
        }
        let rest = slice_subrange(parameters, k + 1, parameters.len());
        let j = separator_position(rest);
        if j < rest.len() {
            return Err(ParseError::Invalid);
        }
        let first = slice_subrange(parameters, 0, k);
        let a = Argument::single(first);
        let b = Argument::single(rest);
        match (a, b) {
            (Ok(a), Ok(b)) => Ok([a, b]),
            _ => Err(ParseError::Invalid),
        }
    }
}

/// Every argument of `s`, split at each separator: one more than there are
/// separators.
pub open spec fn argument_parts(s: Seq<u8>) -> Seq<Seq<u8>>
    decreases s.len(),
{
    let k = run_length(s, not_separator()) as int;
    if k < s.len() {
        seq![s.take(k)] + argument_parts(s.skip(k + 1))
    } else {
        seq![s]
    }
}

impl Argument {
    /// Reads every argument of `parameters`, each on its own.
    pub fn iter(parameters: &[u8]) -> (r: Vec<Result<Argument, ParseError>>)
        ensures
            r@.len() == argument_parts(parameters@).len(),
            forall|i: int|
                0 <= i < r@.len() ==> #[trigger] r@[i] == argument_result(
                    argument_parts(parameters@)[i],
                ),
    {
        let mut results: Vec<Result<Argument, ParseError>> = Vec::new();
        let mut rest = parameters;
        loop
            invariant
                forall|i: int|
                    0 <= i < results@.len() ==> #[trigger] results@[i] == argument_result(
                        argument_parts(parameters@)[i],
                    ),
                results@.len() + argument_parts(rest@).len() == argument_parts(parameters@).len(),
                forall|i: int|
                    0 <= i < argument_parts(rest@).len() ==> #[trigger] argument_parts(rest@)[i]
                        == argument_parts(parameters@)[results@.len() + i],
            decreases rest@.len(),
        {
            let k = separator_position(rest);
            let part = slice_subrange(rest, 0, k);
            let ghost before = rest@;
            let ghost done = results@;
            if k == rest.len() {
                assert(rest@.take(k as int) =~= rest@);
            }
            assert(argument_parts(before)[0] == before.take(k as int));
            assert(argument_parts(before)[0] == argument_parts(parameters@)[done.len() as int]);
            results.push(Argument::single(part));
            assert(forall|i: int|
                0 <= i < done.len() ==> results@[i] == done[i]);
            if k == rest.len() {
                return results;
            }
            rest = slice_subrange(rest, k + 1, rest.len());
            assert(rest@ =~= before.skip(k + 1));
            assert(argument_parts(before) == seq![before.take(k as int)] + argument_parts(rest@));
            assert forall|i: int| 0 <= i < argument_parts(rest@).len() implies #[trigger] argument_parts(
                rest@,
            )[i] == argument_parts(parameters@)[results@.len() + i] by {
                assert(argument_parts(rest@)[i] == argument_parts(before)[i + 1]);
            }
        }
    }
}

/// The arguments of a sequence, read one after another.
pub struct ArgumentList<'a> {
    parameters: &'a [u8],
}

impl<'a> View for ArgumentList<'a> {
    type V = Seq<u8>;

    closed spec fn view(&self) -> Seq<u8> {
        self.parameters@
    }
}

impl<'a> ArgumentList<'a> {
    pub fn new(parameters: &'a [u8]) -> (r: ArgumentList<'a>)
        ensures
            r@ == parameters@,
    {
        ArgumentList { parameters }
    }

    /// Takes the next argument and the separator after it.
    pub fn next(&mut self) -> (r: Result<Argument, ParseError>)
        ensures
            r == argument_result(next_part(old(self)@)),
            final(self)@ == after_part(old(self)@),
    {
        let part = self.next_slice();
        Argument::single(part)
    }

    /// Takes the bytes up to the next separator, and the separator.
    pub fn next_slice(&mut self) -> (r: &'a [u8])
        ensures
            r@ == next_part(old(self)@),
            final(self)@ == after_part(old(self)@),
    {
        let k = separator_position(self.parameters);
        let n = self.parameters.len();
        let part = slice_subrange(self.parameters, 0, k);
        if k < n {
            self.parameters = slice_subrange(self.parameters, k + 1, n);
        } else {
            self.parameters = slice_subrange(self.parameters, n, n);
            assert(self.parameters@ =~= Seq::<u8>::empty());
        }
        part
    }

    pub fn is_empty(&self) -> (r: bool)
        ensures
            r == (self@.len() == 0),
    {
        self.parameters.len() == 0
    }
}

/// One terminal command, as the decoder emits it. `B` holds raw bytes: `Vec<u8>` in
/// executable code, `Seq<u8>` in specifications.
#[derive(Debug, Clone, PartialEq, Eq)]
pub enum Command<B> {
    /// A control sequence that was malformed or not recognized, with its bytes.
    InvalidControlSequence(B),
    /// One character of text.
    Text(char),
    /// Bytes that are not valid UTF-8.
    InvalidUtf8(B),
    Bell,
    Tab,
    Backspace,
    CarriageReturn,
    LineFeed,
    ReverseLineFeed,
    DeleteLines(u16),
    InsertLines(u16),
    MoveCursor(Direction, u16),
    /// Row and column, zero-indexed.
    SetCursorPos(u16, u16),
    SaveCursor,
    RestoreCursor,
    SetCursorStyle(CursorStyle),
    ResetCursorColor,
    /// First row and the row past the last one, zero-indexed.
    SetScrollingRegion(u16, u16),
    ClearLine(ClearRegion),
    ClearScreen(ClearRegion),
    /// Recognized, but this terminal keeps no scrollback.
    ClearScrollback,
    Erase(u16),
    SetCharacterStyle(CharacterStyles),
    ResetCharacterStyle(CharacterStyles),
    SetForegroundColor(Color),
    ResetForegroundColor,
    SetBackgroundColor(Color),
    ResetBackgroundColor,
    SetWindowTitle(B),
    ToggleBehaviour(Behaviour, Toggle),
}

/// A command in specifications.
pub type SpecCommand = Command<Seq<u8>>;

impl View for Command<Vec<u8>> {
    type V = Command<Seq<u8>>;

    open spec fn view(&self) -> Command<Seq<u8>> {
        match self {
            Command::InvalidControlSequence(b) => Command::InvalidControlSequence(b@),
            Command::Text(c) => Command::Text(*c),
            Command::InvalidUtf8(b) => Command::InvalidUtf8(b@),
            Command::Bell => Command::Bell,
            Command::Tab => Command::Tab,
            Command::Backspace => Command::Backspace,
            Command::CarriageReturn => Command::CarriageReturn,
            Command::LineFeed => Command::LineFeed,
            Command::ReverseLineFeed => Command::ReverseLineFeed,
            Command::DeleteLines(n) => Command::DeleteLines(*n),
            Command::InsertLines(n) => Command::InsertLines(*n),
            Command::MoveCursor(d, n) => Command::MoveCursor(*d, *n),
            Command::SetCursorPos(r, c) => Command::SetCursorPos(*r, *c),
            Command::SaveCursor => Command::SaveCursor,
            Command::RestoreCursor => Command::RestoreCursor,
            Command::SetCursorStyle(st) => Command::SetCursorStyle(*st),
            Command::ResetCursorColor => Command::ResetCursorColor,
            Command::SetScrollingRegion(t, b) => Command::SetScrollingRegion(*t, *b),
            Command::ClearLine(r) => Command::ClearLine(*r),
            Command::ClearScreen(r) => Command::ClearScreen(*r),
            Command::ClearScrollback => Command::ClearScrollback,
            Command::Erase(n) => Command::Erase(*n),
            Command::SetCharacterStyle(st) => Command::SetCharacterStyle(*st),
            Command::ResetCharacterStyle(st) => Command::ResetCharacterStyle(*st),
            Command::SetForegroundColor(c) => Command::SetForegroundColor(*c),
            Command::ResetForegroundColor => Command::ResetForegroundColor,
            Command::SetBackgroundColor(c) => Command::SetBackgroundColor(*c),
            Command::ResetBackgroundColor => Command::ResetBackgroundColor,
            Command::SetWindowTitle(b) => Command::SetWindowTitle(b@),
            Command::ToggleBehaviour(b, t) => Command::ToggleBehaviour(*b, *t),
        }
    }
}

/// The commands of a list, as specifications see them.
pub open spec fn commands_view(v: Seq<Command<Vec<u8>>>) -> Seq<SpecCommand> {
    v.map_values(|c: Command<Vec<u8>>| c@)
}

/// `new` is `old` with `added` after it.
pub open spec fn appended(
    old: Seq<Command<Vec<u8>>>,
    new: Seq<Command<Vec<u8>>>,
    added: Seq<SpecCommand>,
) -> bool {
    commands_view(new) == commands_view(old) + added
}

/// What a dispatch returns, and what it adds to `out`: the commands when the sequence
/// is recognized, and `Invalid` with nothing added otherwise.
pub open spec fn dispatched(
    old: Seq<Command<Vec<u8>>>,
    new: Seq<Command<Vec<u8>>>,
    r: Result<(), ParseError>,
    commands: Option<Seq<SpecCommand>>,
) -> bool {
    match commands {
        Some(c) => r is Ok && appended(old, new, c),
        None => r == Err::<(), ParseError>(ParseError::Invalid) && new == old,
    }
}

proof fn lemma_push_view(v: Seq<Command<Vec<u8>>>, c: Command<Vec<u8>>)
    ensures
        commands_view(v.push(c)) == commands_view(v) + seq![c@],
{
    assert(commands_view(v.push(c)) =~= commands_view(v) + seq![c@]);
}

proof fn lemma_concat_view(a: Seq<Command<Vec<u8>>>, b: Seq<Command<Vec<u8>>>)
    ensures
        commands_view(a + b) == commands_view(a) + commands_view(b),
{
    assert(commands_view(a + b) =~= commands_view(a) + commands_view(b));
}

// ---- Select Graphic Rendition ----

/// The style bit that SGR code `code` sets (1 to 9, but 6); 0 for any other code.
pub open spec fn style_bit(code: u16) -> u8 {
    if code == 1 {
        BOLD
    } else if code == 2 {
        FAINT
    } else if code == 3 {
        ITALIC
    } else if code == 4 {
        UNDERLINE
    } else if code == 5 {
        BLINK
    } else if code == 7 {
        INVERSE
    } else if code == 8 {
        INVISIBLE
    } else if code == 9 {
        STRIKETHROUGH
    } else {
        0
    }
}

fn style_bit_of(code: u16) -> (r: u8)
    ensures
        r == style_bit(code),
{
    match code {
        1 => BOLD,
        2 => FAINT,
        3 => ITALIC,
        4 => UNDERLINE,
        5 => BLINK,
        7 => INVERSE,
        8 => INVISIBLE,
        9 => STRIKETHROUGH,
        _ => 0,
    }
}

/// The color of an extended color group (after its `38` or `48`): `5;i` for palette
/// entry `i`, `2;r;g;b` for an RGB triple, each value at most 255; with what follows
/// it.
pub open spec fn extended_color(s: Seq<u8>) -> Option<(Color, Seq<u8>)> {
    let r1 = after_part(s);
    match argument_value(next_part(s)) {
        Some(kind) => if kind == 5 {
            match argument_value(next_part(r1)) {
                Some(i) => if i <= 255 {
                    Some((Color::Index(i as u8), after_part(r1)))
                } else {
                    None
                },
                None => None,
            }
        } else if kind == 2 {
            let r2 = after_part(r1);
            let r3 = after_part(r2);
            match (
                argument_value(next_part(r1)),
                argument_value(next_part(r2)),
                argument_value(next_part(r3)),
            ) {
                (Some(r), Some(g), Some(b)) => if r <= 255 && g <= 255 && b <= 255 {
                    Some((Color::Rgb([r as u8, g as u8, b as u8]), after_part(r3)))
                } else {
                    None
                },
                _ => None,
            }
        } else {
            None
        },
        None => None,
    }
}

/// The commands of the first SGR group of `s`, with what follows the group.
pub open spec fn sgr_group(s: Seq<u8>) -> Option<(Seq<SpecCommand>, Seq<u8>)> {
    let rest = after_part(s);
    match argument_value(next_part(s)) {
        None => None,
        Some(code) => if code == 0 {
            Some(
                (
                    seq![
                        Command::ResetCharacterStyle(CharacterStyles { bits: 0xff }),
                        Command::ResetForegroundColor,
                        Command::ResetBackgroundColor,
                    ],
                    rest,
                ),
            )
        } else if style_bit(code) != 0 {
            Some((seq![Command::SetCharacterStyle(CharacterStyles { bits: style_bit(code) })], rest))
        } else if 21 <= code <= 29 && style_bit((code - 20) as u16) != 0 {
            Some(
                (
                    seq![
                        Command::ResetCharacterStyle(
                            CharacterStyles { bits: style_bit((code - 20) as u16) },
                        ),
                    ],
                    rest,
                ),
            )
        } else if 30 <= code <= 37 {
            Some((seq![Command::SetForegroundColor(Color::Index((code - 30) as u8))], rest))
        } else if 90 <= code <= 97 {
            Some((seq![Command::SetForegroundColor(Color::Index((code - 82) as u8))], rest))
        } else if code == 39 {
            Some((seq![Command::ResetForegroundColor], rest))
        } else if 40 <= code <= 47 {
            Some((seq![Command::SetBackgroundColor(Color::Index((code - 40) as u8))], rest))
        } else if 100 <= code <= 107 {
            Some((seq![Command::SetBackgroundColor(Color::Index((code - 92) as u8))], rest))
        } else if code == 49 {
            Some((seq![Command::ResetBackgroundColor], rest))
        } else if code == 38 || code == 48 {
            match extended_color(rest) {
                Some((color, after)) => Some(
                    (
                        seq![
                            if code == 38 {
                                Command::SetForegroundColor(color)
                            } else {
                                Command::SetBackgroundColor(color)
                            },
                        ],
                        after,
                    ),
                ),
                None => None,
            }
        } else {
            None
        },
    }
}

/// The commands of the SGR parameters `s`, group after group; `None` when a group is
/// not recognized, so that nothing of the sequence applies.
pub open spec fn sgr_commands(s: Seq<u8>) -> Option<Seq<SpecCommand>>
    decreases s.len(),
{
    match sgr_group(s) {
        None => None,
        Some((cmds, rest)) => if rest.len() == 0 {
            Some(cmds)
        } else if rest.len() < s.len() {
            match sgr_commands(rest) {
                Some(more) => Some(cmds + more),
                None => None,
            }
        } else {
            None
        },
    }
}

proof fn lemma_run_length_bound(s: Seq<u8>, pred: spec_fn(u8) -> bool)
    ensures
        run_length(s, pred) <= s.len(),
    decreases s.len(),
{
    if s.len() > 0 && pred(s[0]) {
        lemma_run_length_bound(s.drop_first(), pred);
    }
}

proof fn lemma_after_part_shorter(s: Seq<u8>)
    ensures
        after_part(s).len() <= s.len(),
        s.len() > 0 ==> after_part(s).len() < s.len(),
        s.len() == 0 ==> after_part(s).len() == 0 && next_part(s).len() == 0,
{
    lemma_run_length_bound(s, not_separator());
}

/// Reads the color of an extended color group from `arguments`.
fn parse_extended_color(arguments: &mut ArgumentList) -> (r: Result<Color, ParseError>)
    ensures
        match extended_color(old(arguments)@) {
            Some((color, rest)) => r == Ok::<Color, ParseError>(color) && final(arguments)@ == rest,
            None => r == Err::<Color, ParseError>(ParseError::Invalid),
        },
{
    let kind = match arguments.next() {
        Ok(a) => a.with_default(0),
        Err(e) => return Err(e),
    };
    if kind == 5 {
        let i = match arguments.next() {
            Ok(a) => a.with_default(0),
            Err(e) => return Err(e),
        };
        if i > 255 {
            return Err(ParseError::Invalid);
        }
        Ok(Color::Index(i as u8))
    } else if kind == 2 {
        let r = match arguments.next() {
            Ok(a) => a.with_default(0),
            Err(e) => return Err(e),
        };
        let g = match arguments.next() {
            Ok(a) => a.with_default(0),
            Err(e) => return Err(e),
        };
        let b = match arguments.next() {
            Ok(a) => a.with_default(0),
            Err(e) => return Err(e),
        };
        if r > 255 || g > 255 || b > 255 {
            return Err(ParseError::Invalid);
        }
        Ok(Color::Rgb([r as u8, g as u8, b as u8]))
    } else {
        Err(ParseError::Invalid)
    }
}

/// Reads one SGR group from `arguments` and adds its commands to `out`.
fn parse_character_attribute_group(
    arguments: &mut ArgumentList,
    out: &mut Vec<Command<Vec<u8>>>,
) -> (r: Result<(), ParseError>)
    ensures
        match sgr_group(old(arguments)@) {
            Some((c, rest)) => r is Ok && appended(old(out)@, final(out)@, c) && final(arguments)@
                == rest,
            None => r == Err::<(), ParseError>(ParseError::Invalid) && final(out)@ == old(out)@,
        },
{
    let ghost start = out@;
    let code = match arguments.next() {
        Ok(a) => a.with_default(0),
        Err(e) => return Err(e),
    };
    let bit = style_bit_of(code);
    let command = if code == 0 {
        out.push(Command::ResetCharacterStyle(CharacterStyles::all()));
        out.push(Command::ResetForegroundColor);
        Command::ResetBackgroundColor
    } else if bit != 0 {
        Command::SetCharacterStyle(CharacterStyles::from_bits(bit))
    } else if 21 <= code && code <= 29 && style_bit_of(code - 20) != 0 {
        Command::ResetCharacterStyle(CharacterStyles::from_bits(style_bit_of(code - 20)))
    } else if 30 <= code && code <= 37 {
        Command::SetForegroundColor(Color::Index((code - 30) as u8))
    } else if 90 <= code && code <= 97 {
        Command::SetForegroundColor(Color::Index((code - 82) as u8))
    } else if code == 39 {
        Command::ResetForegroundColor
    } else if 40 <= code && code <= 47 {
        Command::SetBackgroundColor(Color::Index((code - 40) as u8))
    } else if 100 <= code && code <= 107 {
        Command::SetBackgroundColor(Color::Index((code - 92) as u8))
    } else if code == 49 {
        Command::ResetBackgroundColor
    } else if code == 38 || code == 48 {
        let color = match parse_extended_color(arguments) {
            Ok(c) => c,
            Err(e) => return Err(e),
        };
        if code == 38 {
            Command::SetForegroundColor(color)
        } else {
            Command::SetBackgroundColor(color)
        }
    } else {
        return Err(ParseError::Invalid);
    };
    out.push(command);
    assert(commands_view(out@) =~= commands_view(start) + group_commands(old(arguments)@));
    Ok(())
}

/// Applies the SGR parameters `parameters` to `out`: all of their commands, or none
/// when one group is not recognized.
fn parse_character_attribute(parameters: &[u8], out: &mut Vec<Command<Vec<u8>>>) -> (r: Result<
    (),
    ParseError,
>)
    ensures
        dispatched(old(out)@, final(out)@, r, sgr_commands(parameters@)),
{
    let mut commands: Vec<Command<Vec<u8>>> = Vec::new();
    let mut arguments = ArgumentList::new(parameters);
    loop
        invariant_except_break
            sgr_commands(parameters@) == match sgr_commands(arguments@) {
                Some(more) => Some(commands_view(commands@) + more),
                None => None::<Seq<SpecCommand>>,
            },
        ensures
            sgr_commands(parameters@) == Some(commands_view(commands@)),
        decreases arguments@.len(),
    {
        let ghost before = arguments@;
        let ghost done = commands@;
        match parse_character_attribute_group(&mut arguments, &mut commands) {
            Ok(()) => {},
            Err(e) => return Err(e),
        }
        proof {
            lemma_after_part_shorter(before);
            let rest = group_rest(before);
            assert(commands_view(commands@) == commands_view(done) + group_commands(before));
            if rest.len() != 0 {
                assert(rest.len() <= after_part(before).len()) by {
                    lemma_extended_color_shorter(after_part(before));
                }
            }
        }
        if arguments.is_empty() {
            break;
        }
        proof {
            assert forall|more: Seq<SpecCommand>|
                #![auto]
                commands_view(done) + (group_commands(before) + more) == commands_view(commands@)
                    + more by {
                assert(commands_view(done) + (group_commands(before) + more) =~= commands_view(
                    commands@,
                ) + more);
            }
        }
    }
    proof {
        lemma_concat_view(out@, commands@);
    }
    out.append(&mut commands);
    Ok(())
}

/// The commands of the first SGR group of `s` (empty when it is not recognized).
pub open spec fn group_commands(s: Seq<u8>) -> Seq<SpecCommand> {
    match sgr_group(s) {
        Some((c, _)) => c,
        None => Seq::empty(),
    }
}

/// What follows the first SGR group of `s`.
pub open spec fn group_rest(s: Seq<u8>) -> Seq<u8> {
    match sgr_group(s) {
        Some((_, rest)) => rest,
        None => Seq::empty(),
    }
}

proof fn lemma_extended_color_shorter(s: Seq<u8>)
    ensures
        extended_color(s) matches Some((_, rest)) ==> rest.len() <= s.len(),
{
    lemma_after_part_shorter(s);
    lemma_after_part_shorter(after_part(s));
    lemma_after_part_shorter(after_part(after_part(s)));
    lemma_after_part_shorter(after_part(after_part(after_part(s))));
}

// ---- Control sequences (CSI) ----

/// An argument's value, or `default` when it is absent (zero).
pub open spec fn or_default(v: u16, default: u16) -> u16 {
    if v == 0 {
        default
    } else {
        v
    }
}

pub open spec fn direction_of(terminator: u8) -> Direction {
    if terminator == 0x41 {
        Direction::Up
    } else if terminator == 0x42 {
        Direction::Down
    } else if terminator == 0x43 {
        Direction::Right
    } else {
        Direction::Left
    }
}

/// The clear region that mode `v` of `J` and `K` names.
pub open spec fn clear_region_of(v: u16) -> ClearRegion {
    if v == 0 {
        ClearRegion::ToEnd
    } else if v == 1 {
        ClearRegion::ToStart
    } else {
        ClearRegion::All
    }
}

/// The commands of a CSI sequence without intermediate bytes and without `?`.
pub open spec fn standard_commands(p: Seq<u8>, t: u8) -> Option<Seq<SpecCommand>> {
    let single = argument_value(p);
    if t == 0x6d {
        sgr_commands(p)
    } else if 0x41 <= t <= 0x44 {
        match single {
            Some(v) => Some(seq![Command::MoveCursor(direction_of(t), or_default(v, 1))]),
            None => None,
        }
    } else if t == 0x48 {
        match pair_value(p) {
            Some((r, c)) => Some(
                seq![
                    Command::SetCursorPos(
                        (or_default(r, 1) - 1) as u16,
                        (or_default(c, 1) - 1) as u16,
                    ),
                ],
            ),
            None => None,
        }
    } else if t == 0x4a {
        match single {
            Some(v) => if v <= 2 {
                Some(seq![Command::ClearScreen(clear_region_of(v))])
            } else if v == 3 {
                Some(seq![Command::ClearScrollback])
            } else {
                None
            },
            None => None,
        }
    } else if t == 0x4b {
        match single {
            Some(v) => if v <= 2 {
                Some(seq![Command::ClearLine(clear_region_of(v))])
            } else {
                None
            },
            None => None,
        }
    } else if t == 0x4c || t == 0x4d || t == 0x58 {
        match single {
            Some(v) => Some(
                seq![
                    if t == 0x4c {
                        Command::InsertLines(or_default(v, 1))
                    } else if t == 0x4d {
                        Command::DeleteLines(or_default(v, 1))
                    } else {
                        Command::Erase(or_default(v, 1))
                    },
                ],
            ),
            None => None,
        }
    } else if t == 0x72 {
        match pair_value(p) {
            Some((top, bottom)) => Some(
                seq![
                    Command::SetScrollingRegion(
                        (or_default(top, 1) - 1) as u16,
                        or_default(bottom, 0xffff),
                    ),
                ],
            ),
            None => None,
        }
    } else {
        None
    }
}

/// The commands of a private-mode toggle: a named behaviour, or one of the aliases
/// 1047 (alternate buffer), 1048 (save or restore the cursor) and 1049 (both).
pub open spec fn toggle_commands(p: Seq<u8>, toggle: Toggle) -> Option<Seq<SpecCommand>> {
    match argument_value(p) {
        None => None,
        Some(n) => match behaviour_of(n) {
            Some(b) => Some(seq![Command::ToggleBehaviour(b, toggle)]),
            None => if n == 1047 {
                Some(seq![Command::ToggleBehaviour(Behaviour::AlternateBuffer, toggle)])
            } else if n == 1048 {
                Some(
                    if toggle == Toggle::Enabled {
                        seq![Command::SaveCursor]
                    } else {
                        seq![Command::RestoreCursor]
                    },
                )
            } else if n == 1049 {
                Some(
                    if toggle == Toggle::Enabled {
                        seq![
                            Command::SaveCursor,
                            Command::ToggleBehaviour(Behaviour::AlternateBuffer, toggle),
                            Command::ClearScreen(ClearRegion::All),
                        ]
                    } else {
                        seq![
                            Command::ToggleBehaviour(Behaviour::AlternateBuffer, toggle),
                            Command::RestoreCursor,
                        ]
                    },
                )
            } else {
                None
            },
        },
    }
}

/// The commands of a `?`-prefixed sequence: `h` enables, `l` disables.
pub open spec fn private_mode_commands(p: Seq<u8>, t: u8) -> Option<Seq<SpecCommand>> {
    if t == 0x68 {
        toggle_commands(p, Toggle::Enabled)
    } else if t == 0x6c {
        toggle_commands(p, Toggle::Disabled)
    } else {
        None
    }
}

/// The commands of a sequence with a space as its intermediate byte: ` q` sets the
/// cursor style.
pub open spec fn cursor_style_commands(p: Seq<u8>, t: u8) -> Option<Seq<SpecCommand>> {
    if t == 0x71 {
        match argument_value(p) {
            Some(v) => if v <= 1 {
                Some(seq![Command::SetCursorStyle(CursorStyle { shape: CursorShape::Block, blink: CursorBlink::Blinking })])
            } else if v == 2 {
                Some(seq![Command::SetCursorStyle(CursorStyle { shape: CursorShape::Block, blink: CursorBlink::Steady })])
            } else if v == 3 {
                Some(seq![Command::SetCursorStyle(CursorStyle { shape: CursorShape::Underline, blink: CursorBlink::Blinking })])
            } else if v == 4 {
                Some(seq![Command::SetCursorStyle(CursorStyle { shape: CursorShape::Underline, blink: CursorBlink::Steady })])
            } else if v == 5 {
                Some(seq![Command::SetCursorStyle(CursorStyle { shape: CursorShape::Bar, blink: CursorBlink::Blinking })])
            } else if v == 6 {
                Some(seq![Command::SetCursorStyle(CursorStyle { shape: CursorShape::Bar, blink: CursorBlink::Steady })])
            } else {
                None
            },
            None => None,
        }
    } else {
        None
    }
}

/// The commands of a CSI sequence with parameter bytes `p`, intermediate bytes `i`
/// and terminator `t`.
pub open spec fn csi_commands(p: Seq<u8>, i: Seq<u8>, t: u8) -> Option<Seq<SpecCommand>> {
    if i.len() == 0 && p.len() > 0 && p[0] == 0x3f {
        private_mode_commands(p.skip(1), t)
    } else if i.len() == 0 {
        standard_commands(p, t)
    } else if i == seq![0x20u8] {
        cursor_style_commands(p, t)
    } else {
        None
    }
}

fn clear_region_for(v: u16) -> (r: ClearRegion)
    ensures
        r == clear_region_of(v),
{
    if v == 0 {
        ClearRegion::ToEnd
    } else if v == 1 {
        ClearRegion::ToStart
    } else {
        ClearRegion::All
    }
}

fn push_one(out: &mut Vec<Command<Vec<u8>>>, command: Command<Vec<u8>>)
    ensures
        appended(old(out)@, final(out)@, seq![command@]),
{
    proof {
        lemma_push_view(out@, command);
    }
    out.push(command);
}

fn parse_escape_standard_terminator(
    parameters: &[u8],
    terminator: u8,
    out: &mut Vec<Command<Vec<u8>>>,
) -> (r: Result<(), ParseError>)
    ensures
        dispatched(old(out)@, final(out)@, r, standard_commands(parameters@, terminator)),
{
    if terminator == 0x6d {
        return parse_character_attribute(parameters, out);
    }
    if terminator == 0x48 || terminator == 0x72 {
        let pair = match Argument::multi(parameters) {
            Ok(v) => v,
            Err(e) => return Err(e),
        };
        let a = pair[0];
        let b = pair[1];
        let first = a.with_default(1) - 1;
        if terminator == 0x48 {
            push_one(out, Command::SetCursorPos(first, b.with_default(1) - 1));
        } else {
            push_one(out, Command::SetScrollingRegion(first, b.with_default(0xffff)));
        }
        return Ok(());
    }
    let is_known = 0x41 <= terminator && terminator <= 0x44 || terminator == 0x4a || terminator
        == 0x4b || terminator == 0x4c || terminator == 0x4d || terminator == 0x58;
    if !is_known {
        return Err(ParseError::Invalid);
    }
    let v = match Argument::single(parameters) {
        Ok(a) => a.with_default(0),
        Err(e) => return Err(e),
    };
    let command = if terminator == 0x41 {
        Command::MoveCursor(Direction::Up, if v == 0 { 1 } else { v })
    } else if terminator == 0x42 {
        Command::MoveCursor(Direction::Down, if v == 0 { 1 } else { v })
    } else if terminator == 0x43 {
        Command::MoveCursor(Direction::Right, if v == 0 { 1 } else { v })
    } else if terminator == 0x44 {
        Command::MoveCursor(Direction::Left, if v == 0 { 1 } else { v })
    } else if terminator == 0x4a {
        if v <= 2 {
            Command::ClearScreen(clear_region_for(v))
        } else if v == 3 {
            Command::ClearScrollback
        } else {
            return Err(ParseError::Invalid);
        }
    } else if terminator == 0x4b {
        if v <= 2 {
            Command::ClearLine(clear_region_for(v))
        } else {
            return Err(ParseError::Invalid);
        }
    } else if terminator == 0x4c {
        Command::InsertLines(if v == 0 { 1 } else { v })
    } else if terminator == 0x4d {
        Command::DeleteLines(if v == 0 { 1 } else { v })
    } else {
        Command::Erase(if v == 0 { 1 } else { v })
    };
    push_one(out, command);
    Ok(())
}

fn parse_question_terminator_toggle(
    parameters: &[u8],
    toggle: Toggle,
    out: &mut Vec<Command<Vec<u8>>>,
) -> (r: Result<(), ParseError>)
    ensures
        dispatched(old(out)@, final(out)@, r, toggle_commands(parameters@, toggle)),
{
    let ghost start = out@;
    let argument = match Argument::single(parameters) {
        Ok(a) => a.with_default(0),
        Err(e) => return Err(e),
    };
    match Behaviour::from_code(argument) {
        Some(behaviour) => push_one(out, Command::ToggleBehaviour(behaviour, toggle)),
        None => {
            if argument == 1047 {
                push_one(out, Command::ToggleBehaviour(Behaviour::AlternateBuffer, toggle));
            } else if argument == 1048 {
                if toggle.is_enabled() {
                    push_one(out, Command::SaveCursor);
                } else {
                    push_one(out, Command::RestoreCursor);
                }
            } else if argument == 1049 {
                if toggle.is_enabled() {
                    push_one(out, Command::SaveCursor);
                    push_one(out, Command::ToggleBehaviour(Behaviour::AlternateBuffer, toggle));
                    push_one(out, Command::ClearScreen(ClearRegion::All));
                    assert(commands_view(out@) =~= commands_view(start) + toggle_commands(
                        parameters@,
                        toggle,
                    ).unwrap());
                } else {
                    push_one(out, Command::ToggleBehaviour(Behaviour::AlternateBuffer, toggle));
                    push_one(out, Command::RestoreCursor);
                    assert(commands_view(out@) =~= commands_view(start) + toggle_commands(
                        parameters@,
                        toggle,
                    ).unwrap());
                }
            } else {
                return Err(ParseError::Invalid);
            }
        },
    }
    Ok(())
}

fn parse_escape_space_terminator(
    parameters: &[u8],
    terminator: u8,
    out: &mut Vec<Command<Vec<u8>>>,
) -> (r: Result<(), ParseError>)
    ensures
        dispatched(old(out)@, final(out)@, r, cursor_style_commands(parameters@, terminator)),
{
    if terminator != 0x71 {
        return Err(ParseError::Invalid);
    }
    let v = match Argument::single(parameters) {
        Ok(a) => a.with_default(0),
        Err(e) => return Err(e),
    };
    let style = if v <= 1 {
        CursorStyle::blinking(CursorShape::Block)
    } else if v == 2 {
        CursorStyle::steady(CursorShape::Block)
    } else if v == 3 {
        CursorStyle::blinking(CursorShape::Underline)
    } else if v == 4 {
        CursorStyle::steady(CursorShape::Underline)
    } else if v == 5 {
        CursorStyle::blinking(CursorShape::Bar)
    } else if v == 6 {
        CursorStyle::steady(CursorShape::Bar)
    } else {
        return Err(ParseError::Invalid);
    };
    push_one(out, Command::SetCursorStyle(style));
    Ok(())
}

fn parse_csi_parts(
    parameters: &[u8],
    intermediate: &[u8],
    terminator: u8,
    out: &mut Vec<Command<Vec<u8>>>,
) -> (r: Result<(), ParseError>)
    ensures
        dispatched(
            old(out)@,
            final(out)@,
            r,
            csi_commands(parameters@, intermediate@, terminator),
        ),
{
    if intermediate.len() == 0 && parameters.len() > 0 && parameters[0] == 0x3f {
        let arguments = slice_subrange(parameters, 1, parameters.len());
        if terminator == 0x68 {
            parse_question_terminator_toggle(arguments, Toggle::Enabled, out)
        } else if terminator == 0x6c {
            parse_question_terminator_toggle(arguments, Toggle::Disabled, out)
        } else {
            Err(ParseError::Invalid)
        }
    } else if intermediate.len() == 0 {
        parse_escape_standard_terminator(parameters, terminator, out)
    } else if intermediate.len() == 1 && intermediate[0] == 0x20 {
        assert(intermediate@ =~= seq![0x20u8]);
        parse_escape_space_terminator(parameters, terminator, out)
    } else {
        assert(intermediate@ != seq![0x20u8]) by {
            if intermediate@.len() == 1 {
                assert(intermediate@[0] != seq![0x20u8][0]);
            }
        }
        Err(ParseError::Invalid)
    }
}

// ---- Operating system commands (OSC) ----

/// The commands of an OSC sequence with parameter bytes `p`: 0 and 2 set the window
/// title to the next argument, 1 and 3 are accepted and ignored, 112 resets the
/// cursor color.
pub open spec fn osc_commands(p: Seq<u8>) -> Option<Seq<SpecCommand>> {
    match argument_value(next_part(p)) {
        None => None,
        Some(n) => if n == 0 || n == 2 {
            Some(seq![Command::SetWindowTitle(next_part(after_part(p)))])
        } else if n == 1 || n == 3 {
            Some(Seq::empty())
        } else if n == 112 {
            Some(seq![Command::ResetCursorColor])
        } else {
            None
        },
    }
}

fn parse_osc_parameters(parameters: &[u8], out: &mut Vec<Command<Vec<u8>>>) -> (r: Result<
    (),
    ParseError,
>)
    ensures
        dispatched(old(out)@, final(out)@, r, osc_commands(parameters@)),
{
    let mut arguments = ArgumentList::new(parameters);
    let n = match arguments.next() {
        Ok(a) => a.with_default(0),
        Err(e) => return Err(e),
    };
    if n == 0 || n == 2 {
        let text = arguments.next_slice();
        push_one(out, Command::SetWindowTitle(slice_to_vec(text)));
        Ok(())
    } else if n == 1 || n == 3 {
        assert(commands_view(out@) =~= commands_view(out@) + Seq::<SpecCommand>::empty());
        Ok(())
    } else if n == 112 {
        push_one(out, Command::ResetCursorColor);
        Ok(())
    } else {
        Err(ParseError::Invalid)
    }
}

// ---- Sequences ----

/// How far one sequence at the front of the input got, in specifications.
pub enum Scanned {
    /// Its first `len` bytes form a sequence with these commands.
    Applied(nat, Seq<SpecCommand>),
    /// Its first `len` bytes form a sequence that is malformed or not recognized.
    Invalid(nat),
    /// The input ends before the sequence does.
    Incomplete,
}

/// How far one sequence at the front of the input got.
#[derive(Debug, Clone, Copy, PartialEq, Eq)]
pub enum Progress {
    Applied(usize),
    Invalid(usize),
    Incomplete,
}

/// `r` reports `s`, and `new` is `old` with the commands of `s` when it applies.
pub open spec fn progressed(
    old: Seq<Command<Vec<u8>>>,
    new: Seq<Command<Vec<u8>>>,
    r: Progress,
    s: Scanned,
) -> bool {
    match s {
        Scanned::Applied(n, c) => r == Progress::Applied(n as usize) && appended(old, new, c),
        Scanned::Invalid(n) => r == Progress::Invalid(n as usize) && new == old,
        Scanned::Incomplete => r == Progress::Incomplete && new == old,
    }
}

/// A CSI sequence at the front of `s` (which starts with `ESC [`): parameter bytes,
/// intermediate bytes and a final byte.
pub open spec fn csi_sequence(s: Seq<u8>) -> Scanned {
    let body = s.skip(2);
    let p = run_length(body, in_range(0x30, 0x3f)) as int;
    let rest = body.skip(p);
    let q = run_length(rest, in_range(0x20, 0x2f)) as int;
    if q >= rest.len() {
        Scanned::Incomplete
    } else {
        let t = rest[q];
        let end = (2 + p + q + 1) as nat;
        if !(0x40 <= t <= 0x7e) {
            Scanned::Invalid(end)
        } else {
            match csi_commands(body.take(p), rest.take(q), t) {
                Some(c) => Scanned::Applied(end, c),
                None => Scanned::Invalid(end),
            }
        }
    }
}

/// An OSC sequence at the front of `s` (which starts with `ESC ]`): printable bytes
/// ended by BEL or ETX.
pub open spec fn osc_sequence(s: Seq<u8>) -> Scanned {
    let body = s.skip(2);
    let p = run_length(body, in_range(0x20, 0x7e)) as int;
    if p >= body.len() {
        Scanned::Incomplete
    } else {
        let t = body[p];
        let end = (2 + p + 1) as nat;
        if t != 0x07 && t != 0x03 {
            Scanned::Invalid(end)
        } else {
            match osc_commands(body.take(p)) {
                Some(c) => Scanned::Applied(end, c),
                None => Scanned::Invalid(end),
            }
        }
    }
}

/// An escape sequence at the front of `s` (which starts with ESC).
pub open spec fn escape_sequence(s: Seq<u8>) -> Scanned {
    if s.len() < 2 {
        Scanned::Incomplete
    } else if s[1] == 0x5b {
        csi_sequence(s)
    } else if s[1] == 0x5d {
        osc_sequence(s)
    } else if s[1] == 0x28 {
        if s.len() < 3 {
            Scanned::Incomplete
        } else {
            Scanned::Applied(3, Seq::empty())
        }
    } else if s[1] == 0x4d {
        Scanned::Applied(2, seq![Command::ReverseLineFeed])
    } else {
        Scanned::Invalid(2)
    }
}

/// A byte below 0x20 starts a control sequence.
pub open spec fn is_control(b: u8) -> bool {
    b < 0x20
}

/// The control sequence at the front of `s`, whose first byte is a control byte.
pub open spec fn control_sequence(s: Seq<u8>) -> Scanned {
    let b = s[0];
    if b == 0x07 {
        Scanned::Applied(1, seq![Command::Bell])
    } else if b == 0x08 {
        Scanned::Applied(1, seq![Command::Backspace])
    } else if b == 0x09 {
        Scanned::Applied(1, seq![Command::Tab])
    } else if b == 0x0d {
        Scanned::Applied(1, seq![Command::CarriageReturn])
    } else if b == 0x0a {
        Scanned::Applied(1, seq![Command::LineFeed])
    } else if b == 0x1b {
        escape_sequence(s)
    } else {
        Scanned::Invalid(1)
    }
}

fn parse_escape_control_sequence(s: &[u8], out: &mut Vec<Command<Vec<u8>>>) -> (r: Progress)
    requires
        s@.len() >= 2,
    ensures
        progressed(old(out)@, final(out)@, r, csi_sequence(s@)),
{
    let body = slice_subrange(s, 2, s.len());
    let parameters = match take_while_in_range(body, 0x30, 0x3f) {
        Ok(m) => m,
        Err(_) => {
            assert(body@.skip(body@.len() as int) =~= Seq::<u8>::empty());
            return Progress::Incomplete;
        },
    };
    let p = parameters.len();
    let rest = slice_subrange(body, p, body.len());
    let intermediate = match take_while_in_range(rest, 0x20, 0x2f) {
        Ok(m) => m,
        Err(_) => return Progress::Incomplete,
    };
    let q = intermediate.len();
    let terminator = rest[q];
    let end = 2 + p + q + 1;
    if terminator < 0x40 || terminator > 0x7e {
        return Progress::Invalid(end);
    }
    match parse_csi_parts(parameters, intermediate, terminator, out) {
        Ok(()) => Progress::Applied(end),
        Err(_) => Progress::Invalid(end),
    }
}

fn parse_operating_system_command(s: &[u8], out: &mut Vec<Command<Vec<u8>>>) -> (r: Progress)
    requires
        s@.len() >= 2,
    ensures
        progressed(old(out)@, final(out)@, r, osc_sequence(s@)),
{
    let body = slice_subrange(s, 2, s.len());
    let parameters = match take_while_in_range(body, 0x20, 0x7e) {
        Ok(m) => m,
        Err(_) => return Progress::Incomplete,
    };
    let p = parameters.len();
    let terminator = body[p];
    let end = 2 + p + 1;
    if terminator != 0x07 && terminator != 0x03 {
        return Progress::Invalid(end);
    }
    match parse_osc_parameters(parameters, out) {
        Ok(()) => Progress::Applied(end),
        Err(_) => Progress::Invalid(end),
    }
}

fn parse_escape_sequence(s: &[u8], out: &mut Vec<Command<Vec<u8>>>) -> (r: Progress)
    requires
        s@.len() >= 1,
        s@[0] == 0x1b,
    ensures
        progressed(old(out)@, final(out)@, r, escape_sequence(s@)),
{
    if s.len() < 2 {
        return Progress::Incomplete;
    }
    let second = s[1];
    if second == 0x5b {
        parse_escape_control_sequence(s, out)
    } else if second == 0x5d {
        parse_operating_system_command(s, out)
    } else if second == 0x28 {
        if s.len() < 3 {
            Progress::Incomplete
        } else {
            assert(commands_view(out@) =~= commands_view(out@) + Seq::<SpecCommand>::empty());
            Progress::Applied(3)
        }
    } else if second == 0x4d {
        push_one(out, Command::ReverseLineFeed);
        Progress::Applied(2)
    } else {
        Progress::Invalid(2)
    }
}

fn parse_control_sequence(s: &[u8], out: &mut Vec<Command<Vec<u8>>>) -> (r: Progress)
    requires
        s@.len() >= 1,
        is_control(s@[0]),
    ensures
        progressed(old(out)@, final(out)@, r, control_sequence(s@)),
{
    let b = s[0];
    if b == 0x07 {
        push_one(out, Command::Bell);
    } else if b == 0x08 {
        push_one(out, Command::Backspace);
    } else if b == 0x09 {
        push_one(out, Command::Tab);
    } else if b == 0x0d {
        push_one(out, Command::CarriageReturn);
    } else if b == 0x0a {
        push_one(out, Command::LineFeed);
    } else if b == 0x1b {
        return parse_escape_sequence(s, out);
    } else {
        return Progress::Invalid(1);
    }
    Progress::Applied(1)
}

// ---- Text ----

/// How many bytes the UTF-8 encoding that starts with `b0` takes; 0 when `b0` starts
/// none.
pub open spec fn utf8_width(b0: u8) -> int {
    if b0 < 0x80 {
        1
    } else if 0xc2 <= b0 <= 0xdf {
        2
    } else if 0xe0 <= b0 <= 0xef {
        3
    } else if 0xf0 <= b0 <= 0xf4 {
        4
    } else {
        0
    }
}

/// Byte `k` (1 to 3) of an encoding that starts with `b0` may be `b`: a continuation
/// byte, in the narrower range the first one needs after E0, ED, F0 and F4.
pub open spec fn continuation_fits(b0: u8, k: int, b: u8) -> bool {
    if k == 1 && b0 == 0xe0 {
        0xa0 <= b <= 0xbf
    } else if k == 1 && b0 == 0xed {
        0x80 <= b <= 0x9f
    } else if k == 1 && b0 == 0xf0 {
        0x90 <= b <= 0xbf
    } else if k == 1 && b0 == 0xf4 {
        0x80 <= b <= 0x8f
    } else {
        0x80 <= b <= 0xbf
    }
}

/// How many bytes at the front of `s` begin a well-formed encoding (at most its width).
pub open spec fn utf8_matched(s: Seq<u8>) -> int {
    let w = utf8_width(s[0]);
    if w <= 1 || s.len() < 2 || !continuation_fits(s[0], 1, s[1]) {
        1
    } else if w == 2 || s.len() < 3 || !continuation_fits(s[0], 2, s[2]) {
        2
    } else if w == 3 || s.len() < 4 || !continuation_fits(s[0], 3, s[3]) {
        3
    } else {
        4
    }
}

/// The scalar value of the complete encoding at the front of `s`.
pub open spec fn scalar_value(s: Seq<u8>) -> u32 {
    let w = utf8_width(s[0]);
    if w == 1 {
        s[0] as u32
    } else if w == 2 {
        ((s[0] - 0xc0) * 64 + (s[1] - 0x80)) as u32
    } else if w == 3 {
        ((s[0] - 0xe0) * 4096 + (s[1] - 0x80) * 64 + (s[2] - 0x80)) as u32
    } else {
        ((s[0] - 0xf0) * 262144 + (s[1] - 0x80) * 4096 + (s[2] - 0x80) * 64 + (s[3]
            - 0x80)) as u32
    }
}

/// One character of text at the front of `s`: a complete encoding, the ill-formed
/// bytes before the first one that cannot continue it, or `Incomplete` when `s` ends
/// inside an encoding.
pub open spec fn text_sequence(s: Seq<u8>) -> Scanned {
    let w = utf8_width(s[0]);
    let n = utf8_matched(s);
    if w == 0 {
        Scanned::Invalid(1)
    } else if n == w {
        Scanned::Applied(w as nat, seq![Command::Text(scalar_value(s) as char)])
    } else if n == s.len() {
        Scanned::Incomplete
    } else {
        Scanned::Invalid(n as nat)
    }
}

/// Relies on `char::from_u32`: `Some` exactly for Unicode scalar values, holding the
/// char with that value.
#[verifier::external_body]
fn char_from_u32(v: u32) -> (r: Option<char>)
    ensures
        r is Some <==> (v <= 0xd7ff || (0xe000 <= v && v <= 0x10ffff)),
        r matches Some(c) ==> c as u32 == v,
{
    char::from_u32(v)
}

fn parse_text(s: &[u8], out: &mut Vec<Command<Vec<u8>>>) -> (r: Progress)
    requires
        s@.len() >= 1,
    ensures
        progressed(old(out)@, final(out)@, r, text_sequence(s@)),
{
    let b0 = s[0];
    let w: usize = if b0 < 0x80 {
        1
    } else if 0xc2 <= b0 && b0 <= 0xdf {
        2
    } else if 0xe0 <= b0 && b0 <= 0xef {
        3
    } else if 0xf0 <= b0 && b0 <= 0xf4 {
        4
    } else {
        return Progress::Invalid(1);
    };
    let mut n: usize = 1;
    while n < w && n < s.len()
        invariant
            1 <= n <= w,
            w == utf8_width(b0),
            b0 == s@[0],
            n <= s@.len(),
            n <= utf8_matched(s@),
            forall|k: int| 1 <= k < n ==> continuation_fits(b0, k, #[trigger] s@[k]),
        ensures
            n == utf8_matched(s@),
        decreases w - n,
    {
        let b = s[n];
        let fits = if n == 1 && b0 == 0xe0 {
            0xa0 <= b && b <= 0xbf
        } else if n == 1 && b0 == 0xed {
            0x80 <= b && b <= 0x9f
        } else if n == 1 && b0 == 0xf0 {
            0x90 <= b && b <= 0xbf
        } else if n == 1 && b0 == 0xf4 {
            0x80 <= b && b <= 0x8f
        } else {
            0x80 <= b && b <= 0xbf
        };
        if !fits {
            assert(!continuation_fits(b0, n as int, s@[n as int]));
            break;
        }
        n = n + 1;
    }
    if n == w {
        let v: u32 = if w == 1 {
            b0 as u32
        } else if w == 2 {
            (b0 - 0xc0) as u32 * 64 + (s[1] - 0x80) as u32
        } else if w == 3 {
            (b0 - 0xe0) as u32 * 4096 + (s[1] - 0x80) as u32 * 64 + (s[2] - 0x80) as u32
        } else {
            (b0 - 0xf0) as u32 * 262144 + (s[1] - 0x80) as u32 * 4096 + (s[2] - 0x80) as u32 * 64
                + (s[3] - 0x80) as u32
        };
        assert(v == scalar_value(s@));
        let c = match char_from_u32(v) {
            Some(c) => c,
            None => {
                assert(false);
                return Progress::Incomplete;
            },
        };
        proof {
            vstd::utf8::char_u32_cast(c, v);
        }
        push_one(out, Command::Text(c));
        Progress::Applied(w)
    } else if n == s.len() {
        Progress::Incomplete
    } else {
        Progress::Invalid(n)
    }
}

// ---- Decoding ----

/// The command that reports the `n` unusable bytes at the front of `s`.
pub open spec fn invalid_command(s: Seq<u8>, n: nat) -> SpecCommand {
    if is_control(s[0]) {
        Command::InvalidControlSequence(s.take(n as int))
    } else {
        Command::InvalidUtf8(s.take(n as int))
    }
}

/// One step of decoding at the front of the non-empty `s`: the bytes it consumes and
/// the commands it emits, or `None` when `s` ends inside a sequence.
#[verifier::opaque]
pub open spec fn step(s: Seq<u8>) -> Option<(nat, Seq<SpecCommand>)> {
    let scanned = if is_control(s[0]) {
        control_sequence(s)
    } else {
        text_sequence(s)
    };
    match scanned {
        Scanned::Applied(n, c) => Some((n, c)),
        Scanned::Invalid(n) => Some((n, seq![invalid_command(s, n)])),
        Scanned::Incomplete => None,
    }
}

/// The commands that the bytes `s` decode to, and how many bytes they take; the rest
/// is a sequence that more bytes may complete.
pub open spec fn decode(s: Seq<u8>) -> (Seq<SpecCommand>, nat)
    decreases s.len(),
{
    if s.len() == 0 {
        (Seq::empty(), 0)
    } else {
        match step(s) {
            Some((n, c)) => if 0 < n <= s.len() {
                let (more, k) = decode(s.skip(n as int));
                (c + more, n + k)
            } else {
                (Seq::empty(), 0)
            },
            None => (Seq::empty(), 0),
        }
    }
}

/// The bytes that one step consumes: at least one, and no more than there are.
pub open spec fn scanned_within(scanned: Scanned, len: int) -> bool {
    match scanned {
        Scanned::Applied(n, _) => 0 < n <= len,
        Scanned::Invalid(n) => 0 < n <= len,
        Scanned::Incomplete => true,
    }
}

proof fn lemma_scanned_length(s: Seq<u8>)
    requires
        s.len() >= 1,
    ensures
        is_control(s[0]) ==> scanned_within(control_sequence(s), s.len() as int),
        !is_control(s[0]) ==> scanned_within(text_sequence(s), s.len() as int),
{
    if s.len() >= 2 {
        let body = s.skip(2);
        lemma_run_length_bound(body, in_range(0x30, 0x3f));
        lemma_run_length_bound(body, in_range(0x20, 0x7e));
        let p = run_length(body, in_range(0x30, 0x3f)) as int;
        lemma_run_length_bound(body.skip(p), in_range(0x20, 0x2f));
    }
}

fn parse_step(s: &[u8], out: &mut Vec<Command<Vec<u8>>>) -> (r: Option<usize>)
    requires
        s@.len() >= 1,
    ensures
        match step(s@) {
            Some((n, c)) => r == Some(n as usize) && 0 < n <= s@.len() && appended(
                old(out)@,
                final(out)@,
                c,
            ),
            None => r is None && final(out)@ == old(out)@,
        },
{
    reveal(step);
    let progress = if s[0] < 0x20 {
        parse_control_sequence(s, out)
    } else {
        parse_text(s, out)
    };
    match progress {
        Progress::Applied(n) => {
            proof {
                lemma_scanned_length(s@);
            }
            Some(n)
        },
        Progress::Invalid(n) => {
            proof {
                lemma_scanned_length(s@);
            }
            let bytes = slice_to_vec(slice_subrange(s, 0, n));
            if s[0] < 0x20 {
                push_one(out, Command::InvalidControlSequence(bytes));
            } else {
                push_one(out, Command::InvalidUtf8(bytes));
            }
            Some(n)
        },
        Progress::Incomplete => None,
    }
}

/// Decodes `bytes` and adds the commands to `out`. Returns the tail that holds a
/// sequence cut off by the end of the input: the caller puts it in front of the
/// next input. No sequence is ever partly applied.
pub fn parse<'a>(bytes: &'a [u8], out: &mut Vec<Command<Vec<u8>>>) -> (tail: &'a [u8])
    ensures
        appended(old(out)@, final(out)@, decode(bytes@).0),
        tail@ == bytes@.skip(decode(bytes@).1 as int),
{
    let mut i: usize = 0;
    assert(bytes@.skip(0) =~= bytes@);
    loop
        invariant
            i <= bytes@.len(),
            commands_view(old(out)@) + decode(bytes@).0 == commands_view(out@) + decode(
                bytes@.skip(i as int),
            ).0,
            decode(bytes@).1 == i + decode(bytes@.skip(i as int)).1,
        decreases bytes@.len() - i,
    {
        let rest = slice_subrange(bytes, i, bytes.len());
        if i == bytes.len() {
            assert(commands_view(old(out)@) + decode(bytes@).0 =~= commands_view(out@));
            return rest;
        }
        let ghost before = out@;
        match parse_step(rest, out) {
            Some(n) => {
                proof {
                    assert(rest@.skip(n as int) =~= bytes@.skip(i + n));
                    assert(commands_view(before) + decode(rest@).0 =~= commands_view(out@)
                        + decode(bytes@.skip(i + n)).0);
                }
                i = i + n;
            },
            None => {
                assert(commands_view(old(out)@) + decode(bytes@).0 =~= commands_view(out@));
                return rest;
            },
        }
    }
}

// ---- Chunk boundaries ----

proof fn lemma_skip_append(x: Seq<u8>, y: Seq<u8>, k: int)
    requires
        0 <= k <= x.len(),
    ensures
        (x + y).skip(k) == x.skip(k) + y,
        k <= x.len() ==> (x + y).take(k) == x.take(k),
{
    assert((x + y).skip(k) =~= x.skip(k) + y);
    assert((x + y).take(k) =~= x.take(k));
}

proof fn lemma_step_within(s: Seq<u8>)
    requires
        s.len() >= 1,
    ensures
        step(s) matches Some((n, _)) ==> 0 < n <= s.len(),
{
    reveal(step);
    lemma_scanned_length(s);
}

/// A step that completes inside `x` reads nothing after it.
proof fn lemma_step_prefix(x: Seq<u8>, y: Seq<u8>)
    requires
        x.len() >= 1,
        step(x) is Some,
    ensures
        step(x + y) == step(x),
{
    reveal(step);
    let xy = x + y;
    assert(xy[0] == x[0]);
    lemma_scanned_length(x);
    if is_control(x[0]) {
        if x[0] == 0x1b && x.len() >= 2 {
            assert(xy[1] == x[1]);
            lemma_skip_append(x, y, 2);
            let body = x.skip(2);
            if x[1] == 0x5b {
                lemma_run_length_bound(body, in_range(0x30, 0x3f));
                let p = run_length(body, in_range(0x30, 0x3f)) as int;
                let rest = body.skip(p);
                lemma_run_length_bound(rest, in_range(0x20, 0x2f));
                let q = run_length(rest, in_range(0x20, 0x2f)) as int;
                assert(q < rest.len());
                lemma_run_length_prefix(body, y, in_range(0x30, 0x3f));
                lemma_skip_append(body, y, p);
                lemma_run_length_prefix(rest, y, in_range(0x20, 0x2f));
                lemma_skip_append(rest, y, q);
                assert((rest + y)[q] == rest[q]);
                assert((body + y).take(p) == body.take(p));
                assert((rest + y).take(q) == rest.take(q));
                assert(csi_sequence(xy) == csi_sequence(x));
            } else if x[1] == 0x5d {
                lemma_run_length_bound(body, in_range(0x20, 0x7e));
                let p = run_length(body, in_range(0x20, 0x7e)) as int;
                lemma_run_length_prefix(body, y, in_range(0x20, 0x7e));
                lemma_skip_append(body, y, p);
                assert((body + y)[p] == body[p]);
                assert(osc_sequence(xy) == osc_sequence(x));
            }
            assert(control_sequence(xy) == control_sequence(x));
        }
        assert(control_sequence(xy) == control_sequence(x));
    } else {
        if x.len() >= 2 {
            assert(xy[1] == x[1]);
        }
        if x.len() >= 3 {
            assert(xy[2] == x[2]);
        }
        if x.len() >= 4 {
            assert(xy[3] == x[3]);
        }
        assert(utf8_matched(xy) == utf8_matched(x));
        assert(text_sequence(xy) == text_sequence(x));
    }
    match step(x) {
        Some((n, c)) => {
            lemma_skip_append(x, y, n as int);
        },
        None => {},
    }
}

/// Decoding consumes no more bytes than there are.
pub proof fn lemma_decode_within(s: Seq<u8>)
    ensures
        decode(s).1 <= s.len(),
    decreases s.len(),
{
    if s.len() > 0 {
        lemma_step_within(s);
        if let Some((n, _)) = step(s) {
            lemma_decode_within(s.skip(n as int));
        }
    }
}

/// Splitting the input in two anywhere changes nothing: decoding `x`, then the tail
/// it leaves followed by `y`, emits the commands of decoding `x + y` at once, in the
/// same order, and leaves the same tail.
pub proof fn lemma_decode_chunks(x: Seq<u8>, y: Seq<u8>)
    ensures
        decode(x + y).0 == decode(x).0 + decode(x.skip(decode(x).1 as int) + y).0,
        decode(x + y).1 == decode(x).1 + decode(x.skip(decode(x).1 as int) + y).1,
    decreases x.len(),
{
    if x.len() == 0 {
        assert(x + y =~= y);
        assert(x.skip(0) + y =~= y);
        assert(decode(x).0 + decode(y).0 =~= decode(y).0);
    } else {
        match step(x) {
            Some((n, c)) => {
                lemma_step_within(x);
                lemma_step_prefix(x, y);
                lemma_skip_append(x, y, n as int);
                let x1 = x.skip(n as int);
                lemma_decode_chunks(x1, y);
                let k1 = decode(x1).1;
                lemma_decode_within(x1);
                assert(decode(x) == (c + decode(x1).0, n + k1));
                assert(decode(x + y) == (c + decode(x1 + y).0, n + decode(x1 + y).1));
                assert(x.skip((n + k1) as int) =~= x1.skip(k1 as int));
                assert(decode(x + y).0 =~= decode(x).0 + decode(x.skip(decode(x).1 as int) + y).0);
            },
            None => {
                assert(x.skip(0) =~= x);
                assert(decode(x + y).0 =~= decode(x).0 + decode(x.skip(decode(x).1 as int) + y).0);
            },
        }
    }
}

} // verus!
