//! The chat-component formatter: a recursive render of the rich-text
//! tree modern servers send as their description.
//!
//! Each node is rendered from its own fields alone — color, bold,
//! italic, underline, strikethrough — with no inheritance from its
//! parent: the node's escapes are opened, its text run through the
//! legacy formatter (component text may still embed `§` codes), every
//! attribute and color is reset, and only then are the children
//! rendered, in order, each by the same rule.

use crate::formatting::legacy;
use crate::formatting::legacy::spec_legacy_format;
use crate::formatting::style::{
    fg_escape, sgr_escape, spec_fg_escape, spec_sgr, str_chars, Color,
};
use vstd::prelude::*;

verus! {

/// One node of the rich-text tree: its own text and style, and the
/// ordered children rendered after it.
#[derive(Debug)]
pub struct TextComponent {
    pub text: String,
    pub extra: Vec<TextComponent>,
    pub color: Option<String>,
    pub bold: bool,
    pub italic: bool,
    pub underlined: bool,
    pub strikethrough: bool,
}

/// `c` lowercased if it is an ASCII capital, unchanged otherwise.
pub open spec fn spec_ascii_lower(c: char) -> char {
    if 'A' <= c && c <= 'Z' {
        (((c as u32) + 32) as u8) as char
    } else {
        c
    }
}

/// `s` with every ASCII capital lowercased.
pub open spec fn spec_lower_seq(s: Seq<char>) -> Seq<char> {
    s.map_values(|c: char| spec_ascii_lower(c))
}

/// The palette color a component color name selects, compared without
/// regard to ASCII case; both British and American spellings and the
/// game's own names (`gold`, `aqua`, `light_purple`) are accepted.
pub open spec fn spec_get_color(name: Seq<char>) -> Option<Color> {
    let lower = spec_lower_seq(name);
    if lower == "black"@ {
        Some(Color::Black)
    } else if lower == "dark_blue"@ {
        Some(Color::DarkBlue)
    } else if lower == "dark_green"@ {
        Some(Color::DarkGreen)
    } else if lower == "dark_aqua"@ || lower == "dark_cyan"@ {
        Some(Color::DarkCyan)
    } else if lower == "dark_red"@ {
        Some(Color::DarkRed)
    } else if lower == "dark_purple"@ || lower == "dark_magenta"@ {
        Some(Color::DarkMagenta)
    } else if lower == "gold"@ || lower == "dark_yellow"@ {
        Some(Color::DarkYellow)
    } else if lower == "gray"@ || lower == "grey"@ {
        Some(Color::Grey)
    } else if lower == "dark_gray"@ {
        Some(Color::DarkGrey)
    } else if lower == "blue"@ {
        Some(Color::Blue)
    } else if lower == "green"@ {
        Some(Color::Green)
    } else if lower == "aqua"@ || lower == "cyan"@ {
        Some(Color::Cyan)
    } else if lower == "red"@ {
        Some(Color::Red)
    } else if lower == "light_purple"@ || lower == "magenta"@ {
        Some(Color::Magenta)
    } else if lower == "yellow"@ {
        Some(Color::Yellow)
    } else if lower == "white"@ {
        Some(Color::White)
    } else {
        None
    }
}

/// Lowercases the ASCII capitals of `name` into a fresh vector.
fn ascii_lower_chars(name: &str) -> (r: Vec<char>)
    ensures
        r@ == spec_lower_seq(name@),
{
    let chars = str_chars(name);
    let mut out: Vec<char> = Vec::new();
    let mut i: usize = 0;
    while i < chars.len()
        invariant
            i <= chars@.len(),
            chars@ == name@,
            out@ == spec_lower_seq(name@.take(i as int)),
        decreases chars@.len() - i,
    {
        let c = chars[i];
        if 'A' <= c && c <= 'Z' {
            out.push((((c as u32) + 32) as u8) as char);
        } else {
            out.push(c);
        }
        proof {
            assert(out@ =~= spec_lower_seq(name@.take(i + 1)));
        }
        i = i + 1;
    }
    proof {
        assert(name@.take(i as int) =~= name@);
    }
    out
}

/// Whether the characters of `v` spell exactly `lit`.
fn chars_eq_str(v: &Vec<char>, lit: &str) -> (r: bool)
    ensures
        r <==> v@ == lit@,
{
    let l = str_chars(lit);
    if v.len() != l.len() {
        return false;
    }
    let mut i: usize = 0;
    while i < v.len()
        invariant
            i <= v@.len(),
            v@.len() == l@.len(),
            l@ == lit@,
            forall|k: int| 0 <= k < i ==> v@[k] == l@[k],
        decreases v@.len() - i,
    {
        if v[i] != l[i] {
            return false;
        }
        i = i + 1;
    }
    proof {
        assert(v@ =~= lit@);
    }
    true
}

/// The palette color `name` selects, if any, compared without regard
/// to ASCII case.
pub fn get_color(name: &str) -> (r: Option<Color>)
    ensures
        r == spec_get_color(name@),
{
    let lower = ascii_lower_chars(name);
    if chars_eq_str(&lower, "black") {
        Some(Color::Black)
    } else if chars_eq_str(&lower, "dark_blue") {
        Some(Color::DarkBlue)
    } else if chars_eq_str(&lower, "dark_green") {
        Some(Color::DarkGreen)
    } else if chars_eq_str(&lower, "dark_aqua") || chars_eq_str(&lower, "dark_cyan") {
        Some(Color::DarkCyan)
    } else if chars_eq_str(&lower, "dark_red") {
        Some(Color::DarkRed)
    } else if chars_eq_str(&lower, "dark_purple") || chars_eq_str(&lower, "dark_magenta") {
        Some(Color::DarkMagenta)
    } else if chars_eq_str(&lower, "gold") || chars_eq_str(&lower, "dark_yellow") {
        Some(Color::DarkYellow)
    } else if chars_eq_str(&lower, "gray") || chars_eq_str(&lower, "grey") {
        Some(Color::Grey)
    } else if chars_eq_str(&lower, "dark_gray") {
        Some(Color::DarkGrey)
    } else if chars_eq_str(&lower, "blue") {
        Some(Color::Blue)
    } else if chars_eq_str(&lower, "green") {
        Some(Color::Green)
    } else if chars_eq_str(&lower, "aqua") || chars_eq_str(&lower, "cyan") {
        Some(Color::Cyan)
    } else if chars_eq_str(&lower, "red") {
        Some(Color::Red)
    } else if chars_eq_str(&lower, "light_purple") || chars_eq_str(&lower, "magenta") {
        Some(Color::Magenta)
    } else if chars_eq_str(&lower, "yellow") {
        Some(Color::Yellow)
    } else if chars_eq_str(&lower, "white") {
        Some(Color::White)
    } else {
        None
    }
}

/// The escapes a node opens for itself: its color, if it names one the
/// palette knows, then each attribute it sets — bold, italic,
/// underline, strikethrough — in that order.
pub open spec fn spec_style_prefix(c: TextComponent) -> Seq<char> {
    (match c.color {
        Some(name) => match spec_get_color(name@) {
            Some(color) => spec_fg_escape(color),
            None => Seq::empty(),
        },
        None => Seq::empty(),
    }) + (if c.bold {
        spec_sgr(1)
    } else {
        Seq::empty()
    }) + (if c.italic {
        spec_sgr(3)
    } else {
        Seq::empty()
    }) + (if c.underlined {
        spec_sgr(4)
    } else {
        Seq::empty()
    }) + (if c.strikethrough {
        spec_sgr(9)
    } else {
        Seq::empty()
    })
}

/// A node's own segment: its style escapes, its text run through the
/// legacy formatter at the same width, then the full attribute reset
/// and the foreground reset — emitted unconditionally, so nothing of
/// this node's style outlives it.
pub open spec fn spec_own_render(width: int, c: TextComponent) -> Seq<char> {
    spec_style_prefix(c) + spec_legacy_format(width, c.text@) + spec_sgr(0) + spec_sgr(39)
}

/// A whole node: its own segment, then each child in order.
pub open spec fn spec_component_render(width: int, c: TextComponent) -> Seq<char>
    decreases c,
{
    spec_own_render(width, c) + spec_children_render(width, c.extra@)
}

/// The concatenation of the renderings of `cs`, in order.
pub open spec fn spec_children_render(width: int, cs: Seq<TextComponent>) -> Seq<char>
    decreases cs,
{
    if cs.len() == 0 {
        Seq::empty()
    } else {
        spec_component_render(width, cs[0]) + spec_children_render(
            width,
            cs.subrange(1, cs.len() as int),
        )
    }
}

/// Builds the escapes a node opens for itself.
fn style_prefix(c: &TextComponent) -> (r: String)
    ensures
        r@ == spec_style_prefix(*c),
{
    let mut out = String::new();
    match &c.color {
        Some(name) => {
            match get_color(name.as_str()) {
                Some(color) => {
                    let e = fg_escape(color);
                    out.append(e.as_str());
                },
                None => {},
            }
        },
        None => {},
    }
    if c.bold {
        let e = sgr_escape(1);
        out.append(e.as_str());
    }
    if c.italic {
        let e = sgr_escape(3);
        out.append(e.as_str());
    }
    if c.underlined {
        let e = sgr_escape(4);
        out.append(e.as_str());
    }
    if c.strikethrough {
        let e = sgr_escape(9);
        out.append(e.as_str());
    }
    proof {
        assert(out@ =~= spec_style_prefix(*c));
    }
    out
}

/// Renders `c` onto the end of `out`.
fn format_component(width: usize, c: &TextComponent, out: &mut String)
    requires
        width >= 3,
    ensures
        final(out)@ == old(out)@ + spec_component_render(width as int, *c),
    decreases *c,
{
    let ghost entry = out@;
    let prefix = style_prefix(c);
    out.append(prefix.as_str());
    let text = legacy::format(width, c.text.as_str());
    out.append(text.as_str());
    let reset_attrs = sgr_escape(0);
    out.append(reset_attrs.as_str());
    let reset_fg = sgr_escape(39);
    out.append(reset_fg.as_str());
    proof {
        assert(out@ =~= entry + spec_own_render(width as int, *c));
    }
    let mut k: usize = 0;
    while k < c.extra.len()
        invariant
            width >= 3,
            k <= c.extra@.len(),
            out@ == entry + spec_own_render(width as int, *c) + spec_children_render(
                width as int,
                c.extra@.subrange(0, k as int),
            ),
        decreases c.extra@.len() - k,
    {
        proof {
            assert(decreases_to!(c.extra@ => c.extra@[k as int]));
        }
        format_component(width, &c.extra[k], out);
        proof {
            lemma_children_render_push(width as int, c.extra@.subrange(0, k as int), c.extra@[
                k as int
            ]);
            assert(c.extra@.subrange(0, k as int).push(c.extra@[k as int]) =~= c.extra@.subrange(
                0,
                k + 1,
            ));
        }
        k = k + 1;
    }
    proof {
        assert(c.extra@.subrange(0, c.extra@.len() as int) =~= c.extra@);
    }
}

/// Appending one component to a list appends its rendering.
proof fn lemma_children_render_push(width: int, cs: Seq<TextComponent>, x: TextComponent)
    ensures
        spec_children_render(width, cs.push(x)) == spec_children_render(width, cs)
            + spec_component_render(width, x),
    decreases cs,
{
    let whole = cs.push(x);
    if cs.len() == 0 {
        assert(whole[0] == x);
        assert(whole.subrange(1, whole.len() as int) =~= Seq::<TextComponent>::empty());
        assert(spec_children_render(width, whole) == spec_component_render(width, whole[0])
            + spec_children_render(width, whole.subrange(1, whole.len() as int)));
        assert(spec_children_render(width, Seq::<TextComponent>::empty())
            == Seq::<char>::empty());
        assert(spec_children_render(width, cs) == Seq::<char>::empty());
        assert(spec_children_render(width, whole) =~= spec_children_render(width, cs)
            + spec_component_render(width, x));
    } else {
        let tail = cs.subrange(1, cs.len() as int);
        lemma_children_render_push(width, tail, x);
        assert(whole.subrange(1, whole.len() as int) =~= tail.push(x));
        assert(whole[0] == cs[0]);
        assert(spec_children_render(width, whole) == spec_component_render(width, whole[0])
            + spec_children_render(width, whole.subrange(1, whole.len() as int)));
        assert(spec_children_render(width, cs) == spec_component_render(width, cs[0])
            + spec_children_render(width, tail));
        assert(spec_children_render(width, whole) =~= spec_children_render(width, cs)
            + spec_component_render(width, x));
    }
}

/// Renders the component tree `component` into one string, at most
/// `width - 3` visible characters per line, each node styled from its
/// own fields alone.
pub fn format(width: usize, component: &TextComponent) -> (r: String)
    requires
        width >= 3,
    ensures
        r@ == spec_component_render(width as int, *component),
{
    let mut out = String::new();
    format_component(width, component, &mut out);
    proof {
        assert(out@ =~= spec_component_render(width as int, *component));
    }
    out
}

/// Splitting the child list around any one child splits its rendering:
/// the part before it, its own standalone rendering, the part after.
proof fn lemma_children_render_split(width: int, cs: Seq<TextComponent>, k: int)
    requires
        0 <= k < cs.len(),
    ensures
        spec_children_render(width, cs) == spec_children_render(width, cs.subrange(0, k))
            + spec_component_render(width, cs[k]) + spec_children_render(
            width,
            cs.subrange(k + 1, cs.len() as int),
        ),
    decreases k,
{
    if k == 0 {
        assert(cs.subrange(0, 0) =~= Seq::<TextComponent>::empty());
        assert(spec_children_render(width, cs) =~= spec_children_render(width, cs.subrange(0, 0))
            + spec_component_render(width, cs[0]) + spec_children_render(
            width,
            cs.subrange(1, cs.len() as int),
        ));
    } else {
        let tail = cs.subrange(1, cs.len() as int);
        lemma_children_render_split(width, tail, k - 1);
        assert(tail.subrange(0, k - 1) =~= cs.subrange(0, k).subrange(1, k));
        assert(tail[k - 1] == cs[k]);
        assert(tail.subrange(k, tail.len() as int) =~= cs.subrange(k + 1, cs.len() as int));
        assert(cs.subrange(0, k)[0] == cs[0]);
        assert(spec_children_render(width, cs.subrange(0, k)) == spec_component_render(
            width,
            cs[0],
        ) + spec_children_render(width, tail.subrange(0, k - 1)));
        assert(spec_children_render(width, cs) =~= spec_children_render(width, cs.subrange(0, k))
            + spec_component_render(width, cs[k]) + spec_children_render(
            width,
            cs.subrange(k + 1, cs.len() as int),
        ));
    }
}

/// No style is inherited: a component's rendering is its own
/// self-contained segment followed by the children's, and every child's
/// segment is exactly what that child renders to on its own — whatever
/// color or attributes the parent carries.
pub proof fn lemma_component_no_inheritance(width: int, c: TextComponent)
    ensures
        spec_component_render(width, c) == spec_own_render(width, c) + spec_children_render(
            width,
            c.extra@,
        ),
        forall|k: int|
            0 <= k < c.extra@.len() ==> spec_children_render(width, c.extra@)
                == spec_children_render(width, c.extra@.subrange(0, k)) + spec_component_render(
                width,
                c.extra@[k],
            ) + spec_children_render(width, c.extra@.subrange(k + 1, c.extra@.len() as int)),
{
    assert forall|k: int| 0 <= k < c.extra@.len() implies spec_children_render(width, c.extra@)
        == spec_children_render(width, c.extra@.subrange(0, k)) + spec_component_render(
        width,
        c.extra@[k],
    ) + spec_children_render(width, c.extra@.subrange(k + 1, c.extra@.len() as int)) by {
        lemma_children_render_split(width, c.extra@, k);
    }
}

} // verus!
