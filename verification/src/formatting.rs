//! Column-aligned layout of pre-rendered text and the latency glyph.

pub mod component;
pub mod legacy;
pub mod style;

use crate::formatting::style::str_chars;
use vstd::prelude::*;

verus! {

/// Which side of the target width the visible text is anchored to.
#[derive(Clone, Copy, PartialEq, Eq, Structural, Debug)]
pub enum Pad {
    Left,
    Right,
}

/// `n` spaces, or none when `n` is not positive.
pub open spec fn spaces(n: int) -> Seq<char> {
    if n <= 0 {
        Seq::empty()
    } else {
        Seq::new(n as nat, |i: int| ' ')
    }
}

/// Pads `text` with spaces until it covers `width` display columns,
/// trusting the caller-supplied count `len` of visible characters
/// (escape sequences are present in the string but occupy no columns).
/// `Pad::Left` appends the spaces, left-justifying the visible content;
/// `Pad::Right` prepends them. Text already at or over the width is
/// returned unchanged, never truncated.
pub fn pad(text: &str, len: usize, width: usize, side: Pad) -> (r: String)
    ensures
        side is Left ==> r@ == text@ + spaces(width - len),
        side is Right ==> r@ == spaces(width - len) + text@,
{
    let deficit = if width > len {
        width - len
    } else {
        0
    };
    let mut fill = String::new();
    let mut i: usize = 0;
    while i < deficit
        invariant
            i <= deficit,
            fill@ == spaces(i as int),
        decreases deficit - i,
    {
        fill.append(" ");
        proof {
            reveal_strlit(" ");
            assert(fill@ =~= spaces(i + 1 as int));
        }
        i = i + 1;
    }
    match side {
        Pad::Left => {
            let mut out = text.to_owned();
            out.append(fill.as_str());
            out
        },
        Pad::Right => {
            let mut out = fill;
            out.append(text);
            out
        },
    }
}

/// The rendered entries of the player-name list: each sampled name in
/// full — no width bound applies inside a name, though legacy codes in
/// it still render — until the names' cumulative character count
/// passes `width - 3`; one `...` entry then stands for all the rest.
/// `wide` is the no-limit width the names are rendered at.
pub open spec fn spec_player_list(
    names: Seq<Seq<char>>,
    width: int,
    wide: int,
    col: int,
) -> Seq<Seq<char>>
    decreases names.len(),
{
    if names.len() == 0 {
        Seq::empty()
    } else {
        let col2 = col + names[0].len();
        if col2 > width - 3 {
            seq![seq!['.', '.', '.']]
        } else {
            seq![legacy::spec_legacy_format(wide, names[0])] + spec_player_list(
                names.subrange(1, names.len() as int),
                width,
                wide,
                col2,
            )
        }
    }
}

/// Renders the sampled player names for display: each in full through
/// the legacy formatter, cut off with a single `...` entry once their
/// cumulative character count passes `width - 3`.
pub fn player_list(names: &Vec<String>, width: usize) -> (r: Vec<String>)
    requires
        width >= 3,
    ensures
        r.deep_view() == spec_player_list(
            names.deep_view(),
            width as int,
            usize::MAX as int,
            0,
        ),
{
    let limit = width - 3;
    let mut out: Vec<String> = Vec::new();
    let mut col: usize = 0;
    let mut k: usize = 0;
    proof {
        assert(names.deep_view().skip(0) =~= names.deep_view());
        assert(out.deep_view() =~= Seq::<Seq<char>>::empty());
    }
    while k < names.len()
        invariant
            k <= names@.len(),
            width >= 3,
            limit == width - 3,
            col <= limit,
            spec_player_list(names.deep_view(), width as int, usize::MAX as int, 0)
                == out.deep_view() + spec_player_list(
                names.deep_view().skip(k as int),
                width as int,
                usize::MAX as int,
                col as int,
            ),
        decreases names@.len() - k,
    {
        let ghost rest = names.deep_view().skip(k as int);
        let ghost out0 = out.deep_view();
        let name = &names[k];
        proof {
            assert(rest[0] == names.deep_view()[k as int]);
            assert(names.deep_view()[k as int] == names@[k as int]@);
            assert(rest.skip(1) =~= names.deep_view().skip(k + 1));
        }
        let name_chars = str_chars(name.as_str());
        let nlen = name_chars.len();
        if nlen > limit - col {
            let dots = "...".to_owned();
            out.push(dots);
            proof {
                reveal_strlit("...");
                assert(out.deep_view() =~~= out0 + seq![seq!['.', '.', '.']]);
                assert(spec_player_list(rest, width as int, usize::MAX as int, col as int)
                    == seq![seq!['.', '.', '.']]);
            }
            return out;
        }
        let formatted = legacy::format(usize::MAX, name.as_str());
        out.push(formatted);
        proof {
            assert(out.deep_view() =~= out0 + seq![
                legacy::spec_legacy_format(usize::MAX as int, rest[0]),
            ]);
            assert(spec_player_list(rest, width as int, usize::MAX as int, col as int) == seq![
                legacy::spec_legacy_format(usize::MAX as int, rest[0]),
            ] + spec_player_list(
                names.deep_view().skip(k + 1),
                width as int,
                usize::MAX as int,
                col + nlen,
            ));
        }
        col = col + nlen;
        k = k + 1;
    }
    proof {
        assert(names.deep_view().skip(k as int) =~= Seq::<Seq<char>>::empty());
    }
    out
}

/// The glyph that stands for a latency of `millis` milliseconds.
pub open spec fn spec_latency_bar(millis: u128) -> char {
    if millis <= 150 {
        '█'
    } else if millis <= 300 {
        '▆'
    } else if millis <= 450 {
        '▄'
    } else if millis <= 600 {
        '▂'
    } else {
        '▁'
    }
}

/// Maps an elapsed round-trip time, in milliseconds, to one of five
/// block glyphs of decreasing fill: the longer the wait, the emptier
/// the bar.
pub fn latency_bar(millis: u128) -> (r: char)
    ensures
        r == spec_latency_bar(millis),
{
    if millis <= 150 {
        '█'
    } else if millis <= 300 {
        '▆'
    } else if millis <= 450 {
        '▄'
    } else if millis <= 600 {
        '▂'
    } else {
        '▁'
    }
}

} // verus!
