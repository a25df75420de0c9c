//! Small exact text transforms the callers around the protocol need:
//! first-occurrence substring search, the `[TAG]...[/TAG]` extraction
//! of LAN announcements, the payload of a `data:` URI, and the parsing
//! of `host:port` command-line entries.

use crate::formatting::style::{chars_to_string, str_chars};
use vstd::prelude::*;

verus! {

/// Whether `pat` occurs in `s` starting exactly at `i`.
pub open spec fn spec_match_at(s: Seq<char>, pat: Seq<char>, i: int) -> bool {
    0 <= i && i + pat.len() <= s.len() && s.subrange(i, i + pat.len()) == pat
}

/// The first index at or after `from` where `pat` occurs in `s`.
pub open spec fn spec_find_from(s: Seq<char>, pat: Seq<char>, from: int) -> Option<int>
    decreases (if from <= s.len() { s.len() - from + 1 } else { 0int }),
{
    if from < 0 || from + pat.len() > s.len() {
        None
    } else if s.subrange(from, from + pat.len()) == pat {
        Some(from)
    } else {
        spec_find_from(s, pat, from + 1)
    }
}

/// A found index lies between `from` and the last position where the
/// pattern still fits.
pub proof fn lemma_find_from_bounds(s: Seq<char>, pat: Seq<char>, from: int)
    requires
        spec_find_from(s, pat, from) is Some,
    ensures
        from <= spec_find_from(s, pat, from)->0,
        spec_find_from(s, pat, from)->0 + pat.len() <= s.len(),
    decreases (if from <= s.len() { s.len() - from + 1 } else { 0int }),
{
    if from < 0 || from + pat.len() > s.len() {
    } else if s.subrange(from, from + pat.len()) == pat {
    } else {
        lemma_find_from_bounds(s, pat, from + 1);
    }
}

/// Whether `pat` stands at position `i` of `s`.
fn match_at(s: &Vec<char>, pat: &Vec<char>, i: usize) -> (r: bool)
    requires
        i + pat@.len() <= s@.len(),
    ensures
        r == spec_match_at(s@, pat@, i as int),
{
    let mut j: usize = 0;
    while j < pat.len()
        invariant
            j <= pat@.len(),
            i + pat@.len() <= s@.len(),
            forall|k: int| 0 <= k < j ==> s@[i + k] == pat@[k],
        decreases pat@.len() - j,
    {
        let n = s.len();
        if s[i + j] != pat[j] {
            return false;
        }
        j = j + 1;
    }
    proof {
        assert(s@.subrange(i as int, i + pat@.len()) =~= pat@);
    }
    true
}

/// The first position at or after `from` where `pat` occurs in `s`.
pub fn find_from(s: &Vec<char>, pat: &Vec<char>, from: usize) -> (r: Option<usize>)
    ensures
        match r {
            Some(i) => spec_find_from(s@, pat@, from as int) == Some(i as int),
            None => spec_find_from(s@, pat@, from as int) is None,
        },
{
    if pat.len() > s.len() || from > s.len() - pat.len() {
        proof {
            lemma_find_none_past_end(s@, pat@, from as int);
        }
        return None;
    }
    let max_start = s.len() - pat.len();
    let mut i: usize = from;
    while i < max_start
        invariant
            from <= i,
            pat@.len() <= s@.len(),
            max_start == s@.len() - pat@.len(),
            i <= max_start,
            spec_find_from(s@, pat@, from as int) == spec_find_from(s@, pat@, i as int),
        decreases s@.len() - i,
    {
        if match_at(s, pat, i) {
            return Some(i);
        }
        i = i + 1;
    }
    if match_at(s, pat, max_start) {
        return Some(max_start);
    }
    proof {
        lemma_find_none_past_end(s@, pat@, max_start + 1);
    }
    None
}

/// Past the last position where the pattern fits there is nothing to
/// find.
proof fn lemma_find_none_past_end(s: Seq<char>, pat: Seq<char>, from: int)
    requires
        from + pat.len() > s.len(),
    ensures
        spec_find_from(s, pat, from) is None,
{
}

/// The text between the first occurrence of `start` and the first
/// occurrence of `end` after it, if both occur in that order.
pub open spec fn spec_between(s: Seq<char>, start: Seq<char>, end: Seq<char>) -> Option<
    Seq<char>,
> {
    match spec_find_from(s, start, 0) {
        None => None,
        Some(i) => match spec_find_from(s, end, i + start.len()) {
            None => None,
            Some(j) => Some(s.subrange(i + start.len(), j)),
        },
    }
}

/// Copies `s[lo..hi]` into a fresh vector.
fn copy_range(s: &Vec<char>, lo: usize, hi: usize) -> (r: Vec<char>)
    requires
        lo <= hi <= s@.len(),
    ensures
        r@ == s@.subrange(lo as int, hi as int),
{
    let mut out: Vec<char> = Vec::new();
    let mut k: usize = lo;
    while k < hi
        invariant
            lo <= k <= hi <= s@.len(),
            out@ == s@.subrange(lo as int, k as int),
        decreases hi - k,
    {
        out.push(s[k]);
        proof {
            assert(out@ =~= s@.subrange(lo as int, k + 1 as int));
        }
        k = k + 1;
    }
    out
}

/// The text between the first occurrence of `start` and the first
/// occurrence of `end` after it — how a LAN announcement's `[MOTD]`
/// and `[AD]` fields are read out of the multicast datagram.
pub fn between(text: &str, start: &str, end: &str) -> (r: Option<String>)
    ensures
        match r {
            Some(out) => spec_between(text@, start@, end@) == Some(out@),
            None => spec_between(text@, start@, end@) is None,
        },
{
    let chars = str_chars(text);
    let start_pat = str_chars(start);
    let end_pat = str_chars(end);
    let i = match find_from(&chars, &start_pat, 0) {
        Some(i) => i,
        None => {
            return None;
        },
    };
    proof {
        lemma_find_from_bounds(chars@, start_pat@, 0);
    }
    let n = chars.len();
    let p = i + start_pat.len();
    let j = match find_from(&chars, &end_pat, p) {
        Some(j) => j,
        None => {
            return None;
        },
    };
    proof {
        lemma_find_from_bounds(chars@, end_pat@, p as int);
    }
    let body = copy_range(&chars, p, j);
    Some(chars_to_string(&body))
}

/// What follows the first comma: the base64 payload of a `data:` URI
/// favicon. Nothing, when no comma occurs.
pub open spec fn spec_data_uri_payload(s: Seq<char>) -> Option<Seq<char>> {
    match spec_find_from(s, seq![','], 0) {
        None => None,
        Some(i) => Some(s.subrange(i + 1, s.len() as int)),
    }
}

/// The part of a `data:` URI after its first comma, if it has one.
pub fn data_uri_payload(uri: &str) -> (r: Option<String>)
    ensures
        match r {
            Some(out) => spec_data_uri_payload(uri@) == Some(out@),
            None => spec_data_uri_payload(uri@) is None,
        },
{
    let chars = str_chars(uri);
    let comma = str_chars(",");
    proof {
        reveal_strlit(",");
        assert(comma@ =~= seq![',']);
    }
    let i = match find_from(&chars, &comma, 0) {
        Some(i) => i,
        None => {
            return None;
        },
    };
    proof {
        lemma_find_from_bounds(chars@, comma@, 0);
    }
    let n = chars.len();
    proof {
        assert(i + 1 <= n);
    }
    let body = copy_range(&chars, i + 1, n);
    Some(chars_to_string(&body))
}

/// The decimal digits of `s` accumulated left to right onto `acc`, up
/// to the largest port number; more digits than that, or anything that
/// is not a digit, parses to nothing.
pub open spec fn spec_parse_u16_digits(s: Seq<char>, acc: int) -> Option<int>
    decreases s.len(),
{
    if s.len() == 0 {
        Some(acc)
    } else if !(48 <= s[0] as u32 && s[0] as u32 <= 57) {
        None
    } else {
        let next = acc * 10 + (s[0] as u32 - 48);
        if next > 65535 {
            None
        } else {
            spec_parse_u16_digits(s.skip(1), next)
        }
    }
}

/// The characters the digit scan runs over: `s` without its optional
/// leading `+`.
pub open spec fn spec_u16_body(s: Seq<char>) -> Seq<char> {
    if s.len() >= 1 && s[0] == '+' {
        s.skip(1)
    } else {
        s
    }
}

/// The port number `s` spells: an optional leading `+`, then at least
/// one decimal digit, the whole value at most 65535 — exactly the
/// strings the standard unsigned-integer parser accepts.
pub open spec fn spec_parse_u16(s: Seq<char>) -> Option<u16> {
    if spec_u16_body(s).len() == 0 {
        None
    } else {
        match spec_parse_u16_digits(spec_u16_body(s), 0) {
            Some(v) => Some(v as u16),
            None => None,
        }
    }
}

/// Parses `s` as a port number.
pub fn parse_u16(s: &str) -> (r: Option<u16>)
    ensures
        r == spec_parse_u16(s@),
{
    let chars = str_chars(s);
    let mut i: usize = 0;
    if chars.len() >= 1 && chars[0] == '+' {
        i = 1;
    }
    if i == chars.len() {
        return None;
    }
    proof {
        if i == 0 {
            assert(chars@.skip(0) =~= chars@);
        }
        assert(spec_u16_body(s@) == chars@.skip(i as int));
    }
    let mut acc: u32 = 0;
    while i < chars.len()
        invariant
            i <= chars@.len(),
            chars@ == s@,
            acc <= 65535,
            spec_u16_body(s@).len() > 0,
            spec_parse_u16_digits(spec_u16_body(s@), 0) == spec_parse_u16_digits(
                chars@.skip(i as int),
                acc as int,
            ),
        decreases chars@.len() - i,
    {
        let c = chars[i];
        let ghost s0 = chars@.skip(i as int);
        proof {
            assert(s0[0] == c);
            assert(s0.skip(1) =~= chars@.skip(i + 1));
        }
        let u = c as u32;
        if !(48 <= u && u <= 57) {
            return None;
        }
        let next = acc * 10 + (u - 48);
        if next > 65535 {
            return None;
        }
        acc = next;
        i = i + 1;
    }
    proof {
        assert(chars@.skip(i as int) =~= Seq::<char>::empty());
    }
    Some(acc as u16)
}

/// How a command-line server entry resolves: text before the first `:`
/// is the host and what follows must spell a port; an entry with no
/// `:` is a bare host on the default port, 25565. An entry whose port
/// does not parse resolves to nothing.
pub open spec fn spec_parse_server_address(s: Seq<char>) -> Option<(Seq<char>, u16)> {
    match spec_find_from(s, seq![':'], 0) {
        None => Some((s, 25565u16)),
        Some(i) => match spec_parse_u16(s.subrange(i + 1, s.len() as int)) {
            None => None,
            Some(p) => Some((s.subrange(0, i), p)),
        },
    }
}

/// Splits a command-line server entry into host and port: the part
/// before the first `:` and the port it names, or the whole entry and
/// the default port 25565 when it has no `:`. An entry whose port does
/// not parse yields nothing.
pub fn parse_server_address(server: &str) -> (r: Option<(String, u16)>)
    ensures
        match r {
            Some(pair) => spec_parse_server_address(server@) matches Some(sp) && pair.0@ == sp.0
                && pair.1 == sp.1,
            None => spec_parse_server_address(server@) is None,
        },
{
    let chars = str_chars(server);
    let colon = str_chars(":");
    proof {
        reveal_strlit(":");
        assert(colon@ =~= seq![':']);
    }
    match find_from(&chars, &colon, 0) {
        None => Some((server.to_owned(), 25565)),
        Some(i) => {
            proof {
                lemma_find_from_bounds(chars@, colon@, 0);
            }
            let n = chars.len();
            proof {
                assert(i + 1 <= n);
            }
            let port_text = copy_range(&chars, i + 1, n);
            let port_string = chars_to_string(&port_text);
            match parse_u16(port_string.as_str()) {
                None => None,
                Some(p) => {
                    let host = copy_range(&chars, 0, i);
                    Some((chars_to_string(&host), p))
                },
            }
        },
    }
}

} // verus!
