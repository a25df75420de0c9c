//! The sixteen-color palette and the SGR escape sequences that carry
//! styling to the terminal.
//!
//! A color is written as `ESC [ 38;5;n m` with `n` its index in the
//! 256-color cube (the named sixteen occupy indices 0 through 15); a
//! text attribute as `ESC [ code m`. Code 39 restores the default
//! foreground, code 0 clears every attribute and color.

use vstd::prelude::*;

verus! {

/// One of the sixteen foreground colors the legacy palette can name.
#[derive(Clone, Copy, PartialEq, Eq, Structural, Debug)]
pub enum Color {
    Black,
    DarkBlue,
    DarkGreen,
    DarkCyan,
    DarkRed,
    DarkMagenta,
    DarkYellow,
    Grey,
    DarkGrey,
    Blue,
    Green,
    Cyan,
    Red,
    Magenta,
    Yellow,
    White,
}

/// Where each named color sits in the terminal's 256-color cube: the
/// eight dark tones at 0 through 7, their bright partners at 8 through
/// 15.
pub open spec fn ansi_index(c: Color) -> u8 {
    match c {
        Color::Black => 0,
        Color::DarkRed => 1,
        Color::DarkGreen => 2,
        Color::DarkYellow => 3,
        Color::DarkBlue => 4,
        Color::DarkMagenta => 5,
        Color::DarkCyan => 6,
        Color::Grey => 7,
        Color::DarkGrey => 8,
        Color::Red => 9,
        Color::Green => 10,
        Color::Yellow => 11,
        Color::Blue => 12,
        Color::Magenta => 13,
        Color::Cyan => 14,
        Color::White => 15,
    }
}

/// The 256-color-cube index of `c`.
pub fn color_ansi(c: Color) -> (r: u8)
    ensures
        r == ansi_index(c),
{
    match c {
        Color::Black => 0,
        Color::DarkRed => 1,
        Color::DarkGreen => 2,
        Color::DarkYellow => 3,
        Color::DarkBlue => 4,
        Color::DarkMagenta => 5,
        Color::DarkCyan => 6,
        Color::Grey => 7,
        Color::DarkGrey => 8,
        Color::Red => 9,
        Color::Green => 10,
        Color::Yellow => 11,
        Color::Blue => 12,
        Color::Magenta => 13,
        Color::Cyan => 14,
        Color::White => 15,
    }
}

/// The decimal digit `d` as a character.
pub open spec fn spec_digit(d: u8) -> char {
    if d == 0 {
        '0'
    } else if d == 1 {
        '1'
    } else if d == 2 {
        '2'
    } else if d == 3 {
        '3'
    } else if d == 4 {
        '4'
    } else if d == 5 {
        '5'
    } else if d == 6 {
        '6'
    } else if d == 7 {
        '7'
    } else if d == 8 {
        '8'
    } else {
        '9'
    }
}

/// `n` in decimal, for the two-digit range the escape codes use.
pub open spec fn spec_digits(n: u8) -> Seq<char> {
    if n < 10 {
        seq![spec_digit(n)]
    } else {
        seq![spec_digit(n / 10), spec_digit(n % 10)]
    }
}

/// The escape sequence `ESC [ code m` selecting a text attribute.
pub open spec fn spec_sgr(code: u8) -> Seq<char> {
    seq!['\u{1b}', '['] + spec_digits(code) + seq!['m']
}

/// The escape sequence `ESC [ 38;5;n m` selecting foreground color `c`.
pub open spec fn spec_fg_escape(c: Color) -> Seq<char> {
    seq!['\u{1b}', '[', '3', '8', ';', '5', ';'] + spec_digits(ansi_index(c)) + seq!['m']
}

/// Relies on `String::from(char)`: the one-character string.
#[verifier::external_body]
pub(crate) fn char_to_string(c: char) -> (r: String)
    ensures
        r@ == seq![c],
{
    String::from(c)
}

/// Relies on `str::chars` collected into a `Vec`: the characters of the
/// string, in order.
#[verifier::external_body]
pub(crate) fn str_chars(s: &str) -> (r: Vec<char>)
    ensures
        r@ == s@,
{
    s.chars().collect()
}

/// Relies on `Iterator::collect` over the characters of a `Vec`: the
/// string spelling exactly those characters.
#[verifier::external_body]
pub(crate) fn chars_to_string(v: &Vec<char>) -> (r: String)
    ensures
        r@ == v@,
{
    v.iter().collect()
}

/// The decimal digit `d` as a character.
fn digit_char(d: u8) -> (c: char)
    requires
        d < 10,
    ensures
        c == spec_digit(d),
{
    match d {
        0 => '0',
        1 => '1',
        2 => '2',
        3 => '3',
        4 => '4',
        5 => '5',
        6 => '6',
        7 => '7',
        8 => '8',
        _ => '9',
    }
}

/// Appends `n` in decimal to `out`.
fn push_digits(out: &mut String, n: u8)
    requires
        n < 100,
    ensures
        final(out)@ == old(out)@ + spec_digits(n),
{
    if n < 10 {
        let d = char_to_string(digit_char(n));
        out.append(d.as_str());
    } else {
        let hi = char_to_string(digit_char(n / 10));
        out.append(hi.as_str());
        let lo = char_to_string(digit_char(n % 10));
        out.append(lo.as_str());
        proof {
            assert(out@ =~= old(out)@ + spec_digits(n));
        }
    }
}

/// The escape sequence that selects text attribute `code`.
pub fn sgr_escape(code: u8) -> (r: String)
    requires
        code < 100,
    ensures
        r@ == spec_sgr(code),
{
    let mut out = char_to_string('\u{1b}');
    out.append("[");
    push_digits(&mut out, code);
    let m = char_to_string('m');
    out.append(m.as_str());
    proof {
        reveal_strlit("[");
        assert(out@ =~= spec_sgr(code));
    }
    out
}

/// The escape sequence that selects foreground color `c`.
pub fn fg_escape(c: Color) -> (r: String)
    ensures
        r@ == spec_fg_escape(c),
{
    let mut out = char_to_string('\u{1b}');
    out.append("[38;5;");
    push_digits(&mut out, color_ansi(c));
    let m = char_to_string('m');
    out.append(m.as_str());
    proof {
        reveal_strlit("[38;5;");
        assert(out@ =~= spec_fg_escape(c));
    }
    out
}

/// The style a legacy-code scan carries along: the foreground color and
/// the bold and underline flags that are in force, until a reset code
/// clears them.
#[derive(Clone, Copy, Debug)]
pub struct StyleState {
    pub fg: Option<Color>,
    pub bold: bool,
    pub underline: bool,
}

impl StyleState {
    /// No color, no attributes: the state every scan starts in.
    pub open spec fn spec_plain() -> StyleState {
        StyleState { fg: None, bold: false, underline: false }
    }

    /// No color, no attributes: the state every scan starts in.
    pub fn plain() -> (r: StyleState)
        ensures
            r == StyleState::spec_plain(),
    {
        StyleState { fg: None, bold: false, underline: false }
    }
}

/// One character wrapped in the escapes of the active style: the color
/// innermost, then bold, then underline, each closed by its own
/// restoring escape — color by code 39, attributes by the full reset,
/// code 0.
pub open spec fn spec_styled_char(c: char, st: StyleState) -> Seq<char> {
    let base = seq![c];
    let colored = match st.fg {
        Some(color) => spec_fg_escape(color) + base + spec_sgr(39),
        None => base,
    };
    let emboldened = if st.bold {
        spec_sgr(1) + colored + spec_sgr(0)
    } else {
        colored
    };
    if st.underline {
        spec_sgr(4) + emboldened + spec_sgr(0)
    } else {
        emboldened
    }
}

/// Renders one character under the active style.
pub fn styled_char(c: char, st: &StyleState) -> (r: String)
    ensures
        r@ == spec_styled_char(c, *st),
{
    let mut s = char_to_string(c);
    if let Some(color) = st.fg {
        let mut wrapped = fg_escape(color);
        wrapped.append(s.as_str());
        let closer = sgr_escape(39);
        wrapped.append(closer.as_str());
        s = wrapped;
    }
    if st.bold {
        let mut wrapped = sgr_escape(1);
        wrapped.append(s.as_str());
        let closer = sgr_escape(0);
        wrapped.append(closer.as_str());
        s = wrapped;
    }
    if st.underline {
        let mut wrapped = sgr_escape(4);
        wrapped.append(s.as_str());
        let closer = sgr_escape(0);
        wrapped.append(closer.as_str());
        s = wrapped;
    }
    s
}

} // verus!
