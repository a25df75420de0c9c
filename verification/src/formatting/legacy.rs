//! The legacy `§`-code formatter: one left-to-right pass that turns a
//! string holding two-character `§`-prefixed style codes into styled
//! text, bounded to a maximum display width per line.
//!
//! Digits `0`-`9` and letters `a`-`f` select a foreground color, `l`
//! bold, `n` underline, `r` clears all three; any other code is kept as
//! visible text. Ordinary characters are emitted — each wrapped in the
//! escapes of the style in force — only while the line's column count
//! is below `width - 3`; a line cut exactly at that boundary gains a
//! literal `...` marker. Style state survives newlines; only `§r`
//! clears it.

use crate::formatting::style::{
    char_to_string, spec_styled_char, str_chars, styled_char, Color, StyleState,
};
use vstd::prelude::*;

verus! {

/// The color a legacy code character selects, if it selects one.
pub open spec fn spec_code_color(code: char) -> Option<Color> {
    match code {
        '0' => Some(Color::Black),
        '1' => Some(Color::DarkBlue),
        '2' => Some(Color::DarkGreen),
        '3' => Some(Color::DarkCyan),
        '4' => Some(Color::DarkRed),
        '5' => Some(Color::DarkMagenta),
        '6' => Some(Color::DarkYellow),
        '7' => Some(Color::Grey),
        '8' => Some(Color::DarkGrey),
        '9' => Some(Color::Blue),
        'a' => Some(Color::Green),
        'b' => Some(Color::Cyan),
        'c' => Some(Color::Red),
        'd' => Some(Color::Magenta),
        'e' => Some(Color::Yellow),
        'f' => Some(Color::White),
        _ => None,
    }
}

/// The color a legacy code character selects, if it selects one.
pub fn code_color(code: char) -> (r: Option<Color>)
    ensures
        r == spec_code_color(code),
{
    match code {
        '0' => Some(Color::Black),
        '1' => Some(Color::DarkBlue),
        '2' => Some(Color::DarkGreen),
        '3' => Some(Color::DarkCyan),
        '4' => Some(Color::DarkRed),
        '5' => Some(Color::DarkMagenta),
        '6' => Some(Color::DarkYellow),
        '7' => Some(Color::Grey),
        '8' => Some(Color::DarkGrey),
        '9' => Some(Color::Blue),
        'a' => Some(Color::Green),
        'b' => Some(Color::Cyan),
        'c' => Some(Color::Red),
        'd' => Some(Color::Magenta),
        'e' => Some(Color::Yellow),
        'f' => Some(Color::White),
        _ => None,
    }
}

/// Whether a code character is one of the recognized style codes.
pub open spec fn spec_is_style_code(code: char) -> bool {
    spec_code_color(code) is Some || code == 'l' || code == 'n' || code == 'r'
}

/// The style state after a recognized code takes effect.
pub open spec fn spec_apply_code(st: StyleState, code: char) -> StyleState {
    if spec_code_color(code) is Some {
        StyleState { fg: spec_code_color(code), bold: st.bold, underline: st.underline }
    } else if code == 'l' {
        StyleState { fg: st.fg, bold: true, underline: st.underline }
    } else if code == 'n' {
        StyleState { fg: st.fg, bold: st.bold, underline: true }
    } else if code == 'r' {
        StyleState::spec_plain()
    } else {
        st
    }
}

/// The truncation marker, owed whenever a line's column count stands
/// exactly at the width boundary.
pub open spec fn spec_marker(col: int, width: int) -> Seq<char> {
    if col == width - 3 {
        seq!['.', '.', '.']
    } else {
        Seq::empty()
    }
}

/// The rest of the scan: what the formatter emits for the remaining
/// characters `s`, at column `col` of the current line, with style `st`
/// in force. Recognized codes update the style whatever the column;
/// unrecognized ones are kept — unstyled — while the column is below
/// the boundary; ordinary characters are styled and counted while
/// below the boundary and dropped at it; each line end, and the end of
/// the input, adds the `...` marker if that line was cut exactly at
/// the boundary.
pub open spec fn spec_scan(s: Seq<char>, width: int, col: int, st: StyleState) -> Seq<char>
    decreases s.len(),
{
    if s.len() == 0 {
        spec_marker(col, width)
    } else if s[0] == '§' && s.len() >= 2 {
        if spec_is_style_code(s[1]) {
            spec_scan(s.skip(2), width, col, spec_apply_code(st, s[1]))
        } else if col < width - 3 {
            seq!['§', s[1]] + spec_scan(s.skip(2), width, col + 2, st)
        } else {
            spec_scan(s.skip(2), width, col, st)
        }
    } else if s[0] == '\n' {
        spec_marker(col, width) + seq!['\n'] + spec_scan(s.skip(1), width, 0, st)
    } else if col < width - 3 {
        spec_styled_char(s[0], st) + spec_scan(s.skip(1), width, col + 1, st)
    } else {
        spec_scan(s.skip(1), width, col, st)
    }
}

/// The whole formatted output for `s` at width `width`: the scan from
/// column zero with no style in force.
pub open spec fn spec_legacy_format(width: int, s: Seq<char>) -> Seq<char> {
    spec_scan(s, width, 0, StyleState::spec_plain())
}

/// Formats `input`, interpreting legacy `§` codes, keeping at most
/// `width - 3` visible characters per line and marking lines cut
/// exactly at that boundary with `...`. Widths below 3 leave the
/// boundary undefined and are excluded.
pub fn format(width: usize, input: &str) -> (r: String)
    requires
        width >= 3,
    ensures
        r@ == spec_legacy_format(width as int, input@),
{
    let chars = str_chars(input);
    let limit = width - 3;
    let mut out = String::new();
    let mut col: usize = 0;
    let mut st = StyleState::plain();
    let mut i: usize = 0;
    proof {
        assert(chars@.skip(0) =~= chars@);
        assert(out@ + spec_scan(chars@, width as int, 0, StyleState::spec_plain())
            =~= spec_scan(chars@, width as int, 0, StyleState::spec_plain()));
    }
    while i < chars.len()
        invariant
            i <= chars@.len(),
            chars@ == input@,
            width >= 3,
            limit == width - 3,
            col <= width - 2,
            spec_legacy_format(width as int, input@) == out@ + spec_scan(
                chars@.skip(i as int),
                width as int,
                col as int,
                st,
            ),
        decreases chars@.len() - i,
    {
        let ghost s0 = chars@.skip(i as int);
        let ghost col0 = col as int;
        let ghost st0 = st;
        let c = chars[i];
        proof {
            assert(s0[0] == c);
        }
        if c == '§' && i + 1 < chars.len() {
            let code = chars[i + 1];
            proof {
                assert(s0.len() >= 2);
                assert(s0[1] == code);
                assert(s0.skip(2) =~= chars@.skip(i + 2));
            }
            if let Some(color) = code_color(code) {
                st = StyleState { fg: Some(color), bold: st.bold, underline: st.underline };
            } else if code == 'l' {
                st = StyleState { fg: st.fg, bold: true, underline: st.underline };
            } else if code == 'n' {
                st = StyleState { fg: st.fg, bold: st.bold, underline: true };
            } else if code == 'r' {
                st = StyleState::plain();
            } else if col < limit {
                let sign = char_to_string('§');
                out.append(sign.as_str());
                let lit = char_to_string(code);
                out.append(lit.as_str());
                proof {
                    assert(spec_scan(s0, width as int, col0, st0) == seq!['§', code] + spec_scan(
                        chars@.skip(i + 2),
                        width as int,
                        col0 + 2,
                        st0,
                    ));
                }
                col = col + 2;
            }
            i = i + 2;
            proof {
                if spec_is_style_code(code) {
                    assert(st == spec_apply_code(st0, code));
                    assert(spec_scan(s0, width as int, col0, st0) == spec_scan(
                        chars@.skip(i as int),
                        width as int,
                        col as int,
                        st,
                    ));
                }
            }
        } else if c == '\n' {
            if col == limit {
                out.append("...");
                proof {
                    reveal_strlit("...");
                }
            }
            let nl = char_to_string('\n');
            out.append(nl.as_str());
            col = 0;
            i = i + 1;
            proof {
                assert(s0.skip(1) =~= chars@.skip(i as int));
                assert(spec_scan(s0, width as int, col0, st0) == spec_marker(col0, width as int)
                    + seq!['\n'] + spec_scan(chars@.skip(i as int), width as int, 0, st0));
            }
        } else if col < limit {
            let sc = styled_char(c, &st);
            out.append(sc.as_str());
            col = col + 1;
            i = i + 1;
            proof {
                assert(s0.skip(1) =~= chars@.skip(i as int));
                assert(spec_scan(s0, width as int, col0, st0) == spec_styled_char(c, st0)
                    + spec_scan(chars@.skip(i as int), width as int, col0 + 1, st0));
            }
        } else {
            i = i + 1;
            proof {
                assert(s0.skip(1) =~= chars@.skip(i as int));
            }
        }
    }
    if col == limit {
        out.append("...");
        proof {
            reveal_strlit("...");
        }
    }
    proof {
        assert(chars@.skip(i as int) =~= Seq::<char>::empty());
        assert(out@ =~= spec_legacy_format(width as int, input@));
    }
    out
}

} // verus!
