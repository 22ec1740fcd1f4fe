//! The hand-written JSON the command line prints: escaped strings, one-line
//! string arrays and `rrggbb` colours.
use vstd::prelude::*;

use crate::mediaspec::Rgb;
use crate::text::{chars_of, hex_byte, hex_char, push_hex_byte, string_of};

verus! {

/// How one character stands inside a JSON string literal: quote and
/// backslash escaped, the common control characters by their short escapes,
/// the other control characters as `\u00XX`, everything else as itself.
pub open spec fn json_escape_char(c: char) -> Seq<char> {
    if c == '"' {
        seq!['\\', '"']
    } else if c == '\\' {
        seq!['\\', '\\']
    } else if c == '\n' {
        seq!['\\', 'n']
    } else if c == '\r' {
        seq!['\\', 'r']
    } else if c == '\t' {
        seq!['\\', 't']
    } else if (c as u32) < 0x20 {
        seq!['\\', 'u', '0', '0'] + hex_byte(c as u8)
    } else {
        seq![c]
    }
}

/// A string escaped character by character.
pub open spec fn json_escaped(s: Seq<char>) -> Seq<char>
    decreases s.len(),
{
    if s.len() == 0 {
        Seq::empty()
    } else {
        json_escaped(s.drop_last()) + json_escape_char(s.last())
    }
}

/// The value of a hex digit (`0`-`9`, `a`-`f`, `A`-`F`), if it is one.
pub open spec fn hex_value(c: char) -> Option<int> {
    if '0' <= c && c <= '9' {
        Some(c as int - '0' as int)
    } else if 'a' <= c && c <= 'f' {
        Some(c as int - 'a' as int + 10)
    } else if 'A' <= c && c <= 'F' {
        Some(c as int - 'A' as int + 10)
    } else {
        None
    }
}

/// The character a two-character escape `\x` stands for in a JSON string.
pub open spec fn short_escape(x: char) -> Option<char> {
    if x == '"' {
        Some('"')
    } else if x == '\\' {
        Some('\\')
    } else if x == '/' {
        Some('/')
    } else if x == 'b' {
        Some('\x08')
    } else if x == 'f' {
        Some('\x0c')
    } else if x == 'n' {
        Some('\n')
    } else if x == 'r' {
        Some('\r')
    } else if x == 't' {
        Some('\t')
    } else {
        None
    }
}

/// The code point four hex digits spell, if they are hex digits.
pub open spec fn hex4(a: char, b: char, c: char, d: char) -> Option<int> {
    match (hex_value(a), hex_value(b), hex_value(c), hex_value(d)) {
        (Some(w), Some(x), Some(y), Some(z)) => Some(((w * 16 + x) * 16 + y) * 16 + z),
        _ => None,
    }
}

/// What a JSON reader makes of the text between a string literal's quotes:
/// each escape (`\"`, `\\`, `\/`, `\b`, `\f`, `\n`, `\r`, `\t`, and
/// `\uXXXX` for a code point outside the surrogates) read as its character,
/// any other character as itself; `None` when the text is not a string
/// body (a bare quote or control character, or a malformed escape).
pub open spec fn json_read_string(t: Seq<char>) -> Option<Seq<char>>
    decreases t.len(),
{
    if t.len() == 0 {
        Some(seq![])
    } else if t[0] == '\\' {
        if t.len() >= 2 && short_escape(t[1]) is Some {
            match json_read_string(t.skip(2)) {
                Some(r) => Some(seq![short_escape(t[1])->0] + r),
                None => None,
            }
        } else if t.len() >= 6 && t[1] == 'u' && hex4(t[2], t[3], t[4], t[5]) is Some {
            let v = hex4(t[2], t[3], t[4], t[5])->0;
            if v < 0xD800 || 0xE000 <= v {
                match json_read_string(t.skip(6)) {
                    Some(r) => Some(seq![v as char] + r),
                    None => None,
                }
            } else {
                None
            }
        } else {
            None
        }
    } else if t[0] == '"' || (t[0] as u32) < 0x20 {
        None
    } else {
        match json_read_string(t.skip(1)) {
            Some(r) => Some(seq![t[0]] + r),
            None => None,
        }
    }
}

proof fn lemma_hex_value_of_hex_char(v: int)
    requires
        0 <= v < 16,
    ensures
        hex_value(hex_char(v)) == Some(v),
{
}

/// Reading one escaped character in front of more text reads the
/// character, then the rest.
proof fn lemma_read_escaped_char(c: char, rest: Seq<char>)
    ensures
        json_read_string(json_escape_char(c) + rest) == match json_read_string(rest) {
            Some(r) => Some(seq![c] + r),
            None => None::<Seq<char>>,
        },
{
    let t = json_escape_char(c) + rest;
    if c == '"' || c == '\\' || c == '\n' || c == '\r' || c == '\t' {
        assert(t.skip(2) =~= rest);
    } else if (c as u32) < 0x20 {
        let b = c as u8;
        lemma_hex_value_of_hex_char(b as int / 16);
        lemma_hex_value_of_hex_char(b as int % 16);
        assert(t[2] == '0' && t[3] == '0');
        assert(t[4] == hex_char(b as int / 16) && t[5] == hex_char(b as int % 16));
        assert(hex4(t[2], t[3], t[4], t[5]) == Some(b as int));
        assert(t.skip(6) =~= rest);
        assert((b as int) as char == c);
    } else {
        assert(t[0] == c);
        assert(t.skip(1) =~= rest);
    }
}

proof fn lemma_escaped_front(s: Seq<char>)
    requires
        s.len() > 0,
    ensures
        json_escaped(s) == json_escape_char(s[0]) + json_escaped(s.drop_first()),
    decreases s.len(),
{
    if s.len() > 1 {
        lemma_escaped_front(s.drop_last());
        assert(s.drop_last().drop_first() =~= s.drop_first().drop_last());
        assert(s.drop_first().last() == s.last());
        assert(s.drop_last()[0] == s[0]);
    } else {
        assert(s.drop_last().len() == 0);
        assert(s.drop_first().len() == 0);
        assert(json_escaped(s.drop_last()) =~= Seq::<char>::empty());
        assert(json_escaped(s.drop_first()) =~= Seq::<char>::empty());
    }
}

/// An escaped text reads back as the text itself: whatever a file name
/// holds, a JSON reader of the report gets the same name.
pub proof fn lemma_escaped_reads_back(s: Seq<char>)
    ensures
        json_read_string(json_escaped(s)) == Some(s),
    decreases s.len(),
{
    if s.len() > 0 {
        lemma_escaped_front(s);
        lemma_escaped_reads_back(s.drop_first());
        lemma_read_escaped_char(s[0], json_escaped(s.drop_first()));
        assert(seq![s[0]] + s.drop_first() =~= s);
    }
}

/// A character a JSON string carries as itself: from space up, other than
/// the quote and the backslash.
pub open spec fn json_plain(c: char) -> bool {
    (c as u32) >= 0x20 && c != '"' && c != '\\'
}

/// A text of plain characters is escaped to itself: the escape copies
/// plain characters unchanged.
pub proof fn lemma_plain_text_escapes_to_itself(s: Seq<char>)
    requires
        forall|k: int| 0 <= k < s.len() ==> json_plain(#[trigger] s[k]),
    ensures
        json_escaped(s) == s,
    decreases s.len(),
{
    if s.len() > 0 {
        lemma_plain_text_escapes_to_itself(s.drop_last());
        assert(json_plain(s[s.len() - 1]));
        assert(s.drop_last().push(s.last()) =~= s);
    }
}

/// No control character (below U+0020) stands in an escaped text: each
/// one is written as an escape of printable characters.
pub proof fn lemma_escaped_has_no_control_character(s: Seq<char>)
    ensures
        forall|k: int| 0 <= k < json_escaped(s).len() ==> (#[trigger] json_escaped(s)[k] as u32) >= 0x20,
    decreases s.len(),
{
    if s.len() > 0 {
        lemma_escaped_has_no_control_character(s.drop_last());
        let c = s.last();
        let e = json_escape_char(c);
        let pre = json_escaped(s.drop_last());
        assert forall|k: int| 0 <= k < e.len() implies (#[trigger] e[k] as u32) >= 0x20 by {
            if (c as u32) < 0x20 && c != '\n' && c != '\r' && c != '\t' && k >= 4 {
                let b = c as u8;
                let v = if k == 4 { b as int / 16 } else { b as int % 16 };
                assert(e[k] == hex_char(v));
            }
        }
        assert forall|k: int| 0 <= k < json_escaped(s).len() implies (#[trigger] json_escaped(s)[k] as u32) >= 0x20 by {
            if k < pre.len() {
                assert(json_escaped(s)[k] == pre[k]);
            } else {
                assert(json_escaped(s)[k] == e[k - pre.len()]);
            }
        }
    }
}

fn push_escaped_char(out: &mut Vec<char>, c: char)
    ensures
        final(out)@ == old(out)@ + json_escape_char(c),
{
    if c == '"' {
        out.push('\\');
        out.push('"');
    } else if c == '\\' {
        out.push('\\');
        out.push('\\');
    } else if c == '\n' {
        out.push('\\');
        out.push('n');
    } else if c == '\r' {
        out.push('\\');
        out.push('r');
    } else if c == '\t' {
        out.push('\\');
        out.push('t');
    } else if (c as u32) < 0x20 {
        out.push('\\');
        out.push('u');
        out.push('0');
        out.push('0');
        push_hex_byte(out, c as u8);
    } else {
        out.push(c);
    }
    assert(final(out)@ =~= old(out)@ + json_escape_char(c));
}

/// Append the escaped form of some characters.
pub fn push_json_escaped(out: &mut Vec<char>, s: &[char])
    ensures
        final(out)@ == old(out)@ + json_escaped(s@),
{
    let ghost start = out@;
    let mut i: usize = 0;
    while i < s.len()
        invariant
            i <= s@.len(),
            out@ == start + json_escaped(s@.take(i as int)),
        decreases s@.len() - i,
    {
        let ghost before = out@;
        push_escaped_char(out, s[i]);
        proof {
            let t = s@.take(i + 1);
            assert(t.drop_last() =~= s@.take(i as int));
            assert(t.last() == s@[i as int]);
            assert(out@ =~= start + json_escaped(t));
        }
        i += 1;
    }
    assert(s@.take(s@.len() as int) =~= s@);
}

/// Escape a string for a JSON string literal.
pub fn json_escape(s: &str) -> (r: String)
    ensures
        r@ == json_escaped(s@),
        json_read_literal(seq!['"'] + r@ + seq!['"']) == Some(s@),
{
    proof {
        lemma_quoted_string_reads_back(s@);
    }
    let cs = chars_of(s);
    let mut out: Vec<char> = Vec::new();
    push_json_escaped(&mut out, cs.as_slice());
    assert(out@ =~= json_escaped(s@));
    string_of(out.as_slice())
}

/// A string as a JSON string literal.
pub open spec fn json_quoted(s: Seq<char>) -> Seq<char> {
    seq!['"'] + json_escaped(s) + seq!['"']
}

/// What a JSON reader makes of a string literal: the text between its
/// quotes read as a string body; `None` when it is not a string literal.
pub open spec fn json_read_literal(t: Seq<char>) -> Option<Seq<char>> {
    if t.len() >= 2 && t[0] == '"' && t[t.len() - 1] == '"' {
        json_read_string(t.subrange(1, t.len() - 1))
    } else {
        None
    }
}

/// A string quoted as a JSON literal reads back as the string itself:
/// decoding `"` + `json_escape(s)` + `"` gives exactly `s`, so the escape
/// leaves no bare quote or control character behind.
pub proof fn lemma_quoted_string_reads_back(s: Seq<char>)
    ensures
        json_read_literal(json_quoted(s)) == Some(s),
{
    let q = json_quoted(s);
    assert(q.subrange(1, q.len() - 1) =~= json_escaped(s));
    lemma_escaped_reads_back(s);
}

/// The quoted items, separated by `, `.
pub open spec fn json_items(items: Seq<Seq<char>>) -> Seq<char>
    decreases items.len(),
{
    if items.len() == 0 {
        Seq::empty()
    } else if items.len() == 1 {
        json_quoted(items[0])
    } else {
        json_items(items.drop_last()) + seq![',', ' '] + json_quoted(items.last())
    }
}

/// A one-line JSON array of strings.
pub open spec fn json_array(items: Seq<Seq<char>>) -> Seq<char> {
    seq!['['] + json_items(items) + seq![']']
}

/// The characters of each string.
pub open spec fn string_views(items: Seq<String>) -> Seq<Seq<char>> {
    items.map_values(|s: String| s@)
}

/// Append a one-line JSON array of the strings.
pub fn push_json_array(out: &mut Vec<char>, items: &[String])
    ensures
        final(out)@ == old(out)@ + json_array(string_views(items@)),
{
    let ghost start = out@;
    out.push('[');
    let mut i: usize = 0;
    while i < items.len()
        invariant
            i <= items@.len(),
            out@ == start + seq!['['] + json_items(string_views(items@.take(i as int))),
        decreases items@.len() - i,
    {
        let ghost before = out@;
        if i > 0 {
            out.push(',');
            out.push(' ');
        }
        out.push('"');
        let cs = chars_of(items[i].as_str());
        push_json_escaped(out, cs.as_slice());
        out.push('"');
        proof {
            let v = string_views(items@.take(i + 1));
            assert(string_views(items@.take(i as int)) =~= v.drop_last());
            assert(v.last() == items@[i as int]@);
            assert(out@ =~= start + seq!['['] + json_items(v));
        }
        i += 1;
    }
    out.push(']');
    assert(items@.take(items@.len() as int) =~= items@);
    assert(out@ =~= start + json_array(string_views(items@)));
}

/// Render a one-line JSON array of strings.
pub fn json_string_array(items: &[String]) -> (r: String)
    ensures
        r@ == json_array(string_views(items@)),
{
    let mut out: Vec<char> = Vec::new();
    push_json_array(&mut out, items);
    assert(out@ =~= json_array(string_views(items@)));
    string_of(out.as_slice())
}

/// `rrggbb` for a colour.
pub open spec fn hex_rgb(c: Rgb) -> Seq<char> {
    hex_byte(c.r) + hex_byte(c.g) + hex_byte(c.b)
}

/// `rrggbb` for a palette colour.
pub fn hex_colour(c: Rgb) -> (r: String)
    ensures
        r@ == hex_rgb(c),
{
    let mut out: Vec<char> = Vec::new();
    push_hex_byte(&mut out, c.r);
    push_hex_byte(&mut out, c.g);
    push_hex_byte(&mut out, c.b);
    assert(out@ =~= hex_rgb(c));
    string_of(out.as_slice())
}

} // verus!
