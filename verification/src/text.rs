//! Text as sequences of characters: the string primitives the rest of the
//! library is written over, each with the meaning std gives the operation it
//! stands for (`str::trim`, `str::lines`, `str::split_whitespace`,
//! `u32::from_str`, ...).
use vstd::prelude::*;

verus! {

/// The characters of a string slice, in order.
pub fn chars_of(s: &str) -> (v: Vec<char>)
    ensures
        v@ == s@,
{
    let mut v: Vec<char> = Vec::new();
    for c in it: s.chars()
        invariant
            v@ == it.seq().take(it.index() as int),
            it.seq() == s@,
    {
        v.push(c);
    }
    v
}

/// A `String` holding exactly the given characters (std's
/// `FromIterator<&char>` for `String`, which appends each character in turn).
#[verifier::external_body]
pub(crate) fn string_of(v: &[char]) -> (s: String)
    ensures
        s@ == v@,
{
    String::from_iter(v)
}

/// Whether two character sequences are equal.
pub fn seq_eq(a: &[char], b: &[char]) -> (r: bool)
    ensures
        r == (a@ == b@),
{
    if a.len() != b.len() {
        return false;
    }
    let mut i: usize = 0;
    while i < a.len()
        invariant
            a@.len() == b@.len(),
            i <= a@.len(),
            forall|j: int| 0 <= j < i ==> a@[j] == b@[j],
        decreases a@.len() - i,
    {
        if a[i] != b[i] {
            return false;
        }
        i += 1;
    }
    assert(a@ =~= b@);
    true
}

/// Whether two string slices hold the same characters.
pub fn str_eq(a: &str, b: &str) -> (r: bool)
    ensures
        r == (a@ == b@),
{
    let x = chars_of(a);
    let y = chars_of(b);
    seq_eq(x.as_slice(), y.as_slice())
}

/// Unicode `White_Space`, the set `char::is_whitespace` tests.
pub open spec fn is_ws(c: char) -> bool {
    let u = c as u32;
    ||| (0x09 <= u && u <= 0x0D)
    ||| u == 0x20
    ||| u == 0x85
    ||| u == 0xA0
    ||| u == 0x1680
    ||| (0x2000 <= u && u <= 0x200A)
    ||| u == 0x2028
    ||| u == 0x2029
    ||| u == 0x202F
    ||| u == 0x205F
    ||| u == 0x3000
}

/// `char::is_whitespace`.
pub fn is_whitespace(c: char) -> (r: bool)
    ensures
        r == is_ws(c),
{
    let u = c as u32;
    (0x09 <= u && u <= 0x0D) || u == 0x20 || u == 0x85 || u == 0xA0 || u == 0x1680 || (0x2000
        <= u && u <= 0x200A) || u == 0x2028 || u == 0x2029 || u == 0x202F || u == 0x205F || u
        == 0x3000
}

/// Number of leading whitespace characters.
pub open spec fn lead_ws(s: Seq<char>) -> nat
    decreases s.len(),
{
    if s.len() > 0 && is_ws(s[0]) {
        1 + lead_ws(s.drop_first())
    } else {
        0
    }
}

/// Number of trailing whitespace characters.
pub open spec fn trail_ws(s: Seq<char>) -> nat
    decreases s.len(),
{
    if s.len() > 0 && is_ws(s.last()) {
        1 + trail_ws(s.drop_last())
    } else {
        0
    }
}

/// `str::trim_start`.
pub open spec fn trim_start(s: Seq<char>) -> Seq<char> {
    s.skip(lead_ws(s) as int)
}

/// `str::trim_end`.
pub open spec fn trim_end(s: Seq<char>) -> Seq<char> {
    s.take(s.len() - trail_ws(s))
}

/// `str::trim`.
pub open spec fn trim(s: Seq<char>) -> Seq<char> {
    trim_end(trim_start(s))
}

/// Whether every character is whitespace (so the trimmed text is empty).
pub open spec fn all_ws(s: Seq<char>) -> bool {
    forall|i: int| 0 <= i < s.len() ==> is_ws(#[trigger] s[i])
}

pub proof fn lemma_lead_ws_bounds(s: Seq<char>)
    ensures
        lead_ws(s) <= s.len(),
        forall|i: int| 0 <= i < lead_ws(s) ==> is_ws(#[trigger] s[i]),
        lead_ws(s) < s.len() ==> !is_ws(s[lead_ws(s) as int]),
    decreases s.len(),
{
    if s.len() > 0 && is_ws(s[0]) {
        lemma_lead_ws_bounds(s.drop_first());
        assert forall|i: int| 0 <= i < lead_ws(s) implies is_ws(#[trigger] s[i]) by {
            if i > 0 {
                assert(s[i] == s.drop_first()[i - 1]);
            }
        }
    }
}

pub proof fn lemma_trail_ws_bounds(s: Seq<char>)
    ensures
        trail_ws(s) <= s.len(),
        forall|i: int| s.len() - trail_ws(s) <= i < s.len() ==> is_ws(#[trigger] s[i]),
        trail_ws(s) < s.len() ==> !is_ws(s[s.len() - trail_ws(s) - 1]),
    decreases s.len(),
{
    if s.len() > 0 && is_ws(s.last()) {
        lemma_trail_ws_bounds(s.drop_last());
        assert forall|i: int| s.len() - trail_ws(s) <= i < s.len() implies is_ws(
            #[trigger] s[i],
        ) by {
            if i < s.len() - 1 {
                assert(s[i] == s.drop_last()[i]);
            }
        }
    }
}

/// Every character is whitespace exactly when the leading run covers all.
pub proof fn lemma_all_ws_lead(s: Seq<char>)
    ensures
        all_ws(s) <==> lead_ws(s) == s.len(),
{
    lemma_lead_ws_bounds(s);
}

/// Index of the first non-whitespace character (or the length).
pub fn lead_ws_len(s: &[char]) -> (n: usize)
    ensures
        n == lead_ws(s@),
{
    let mut i: usize = 0;
    assert(s@.skip(0) =~= s@);
    while i < s.len() && is_whitespace(s[i])
        invariant
            i <= s@.len(),
            lead_ws(s@) == i + lead_ws(s@.skip(i as int)),
        decreases s@.len() - i,
    {
        assert(s@.skip(i as int).drop_first() =~= s@.skip(i + 1));
        i += 1;
    }
    assert(s@.skip(0) =~= s@);
    i
}

/// Number of trailing whitespace characters.
pub fn trail_ws_len(s: &[char]) -> (n: usize)
    ensures
        n == trail_ws(s@),
{
    let mut i: usize = s.len();
    assert(s@.take(s@.len() as int) =~= s@);
    while i > 0 && is_whitespace(s[i - 1])
        invariant
            i <= s@.len(),
            trail_ws(s@) == (s@.len() - i) + trail_ws(s@.take(i as int)),
        decreases i,
    {
        assert(s@.take(i as int).drop_last() =~= s@.take(i - 1));
        i -= 1;
    }
    assert(s@.take(s@.len() as int) =~= s@);
    (s.len() - i) as usize
}

/// A copy of `s[from..to]`.
pub fn slice_chars(s: &[char], from: usize, to: usize) -> (r: Vec<char>)
    requires
        from <= to <= s@.len(),
    ensures
        r@ == s@.subrange(from as int, to as int),
{
    let mut r: Vec<char> = Vec::new();
    let mut i = from;
    while i < to
        invariant
            from <= i <= to <= s@.len(),
            r@ == s@.subrange(from as int, i as int),
        decreases to - i,
    {
        r.push(s[i]);
        i += 1;
    }
    r
}

/// `str::trim`.
pub fn trimmed(s: &[char]) -> (r: Vec<char>)
    ensures
        r@ == trim(s@),
{
    let a = lead_ws_len(s);
    proof {
        lemma_lead_ws_bounds(s@);
    }
    let rest = slice_chars(s, a, s.len());
    let b = trail_ws_len(rest.as_slice());
    proof {
        lemma_trail_ws_bounds(rest@);
    }
    slice_chars(rest.as_slice(), 0, rest.len() - b)
}

/// `str::trim_end`.
pub fn trimmed_end(s: &[char]) -> (r: Vec<char>)
    ensures
        r@ == trim_end(s@),
{
    let b = trail_ws_len(s);
    proof {
        lemma_trail_ws_bounds(s@);
    }
    slice_chars(s, 0, s.len() - b)
}

/// `str::trim_start`.
pub fn trimmed_start(s: &[char]) -> (r: Vec<char>)
    ensures
        r@ == trim_start(s@),
{
    let a = lead_ws_len(s);
    proof {
        lemma_lead_ws_bounds(s@);
    }
    slice_chars(s, a, s.len())
}

/// Whether the text is empty once trimmed (`s.trim().is_empty()`).
pub fn is_blank(s: &[char]) -> (r: bool)
    ensures
        r == all_ws(s@),
        r == (trim(s@).len() == 0),
{
    let a = lead_ws_len(s);
    proof {
        lemma_lead_ws_bounds(s@);
        lemma_all_ws_lead(s@);
        lemma_trail_ws_bounds(s@.skip(lead_ws(s@) as int));
        if lead_ws(s@) < s@.len() {
            let rest = s@.skip(lead_ws(s@) as int);
            assert(!is_ws(rest[0]));
            if trail_ws(rest) == rest.len() {
                assert(is_ws(rest[0]));
            }
        }
    }
    a == s.len()
}

// ---------------------------------------------------------------------------
// Lines

/// The line that starts the text: everything up to the first `\n`.
pub open spec fn first_line_len(s: Seq<char>) -> nat
    decreases s.len(),
{
    if s.len() == 0 || s[0] == '\n' {
        0
    } else {
        1 + first_line_len(s.drop_first())
    }
}

/// A line without one trailing `\r`, as `str::lines` yields it.
pub open spec fn strip_cr(l: Seq<char>) -> Seq<char> {
    if l.len() > 0 && l.last() == '\r' {
        l.drop_last()
    } else {
        l
    }
}

/// `str::lines`: split at `\n`, drop one `\r` before each split, and yield
/// no empty final line after a closing `\n`.
pub open spec fn lines(s: Seq<char>) -> Seq<Seq<char>>
    decreases s.len(),
{
    if s.len() == 0 {
        seq![]
    } else {
        let n = first_line_len(s);
        if n < s.len() {
            seq![strip_cr(s.take(n as int))] + lines(s.skip(n as int + 1))
        } else {
            seq![strip_cr(s)]
        }
    }
}

pub proof fn lemma_first_line_len(s: Seq<char>)
    ensures
        first_line_len(s) <= s.len(),
        first_line_len(s) < s.len() ==> s[first_line_len(s) as int] == '\n',
        forall|i: int| 0 <= i < first_line_len(s) ==> #[trigger] s[i] != '\n',
    decreases s.len(),
{
    if s.len() > 0 && s[0] != '\n' {
        lemma_first_line_len(s.drop_first());
        assert forall|i: int| 0 <= i < first_line_len(s) implies #[trigger] s[i] != '\n' by {
            if i > 0 {
                assert(s[i] == s.drop_first()[i - 1]);
            }
        }
    }
}

/// Length of the line that starts at `from`.
fn line_len_at(s: &[char], from: usize) -> (n: usize)
    requires
        from <= s@.len(),
    ensures
        n == first_line_len(s@.skip(from as int)),
        from + n <= s@.len(),
{
    let mut i = from;
    while i < s.len() && s[i] != '\n'
        invariant
            from <= i <= s@.len(),
            first_line_len(s@.skip(from as int)) == (i - from) + first_line_len(
                s@.skip(i as int),
            ),
        decreases s@.len() - i,
    {
        assert(s@.skip(i as int).drop_first() =~= s@.skip(i + 1));
        i += 1;
    }
    (i - from) as usize
}

/// `str::lines`, as owned character vectors.
pub fn lines_of(s: &[char]) -> (r: Vec<Vec<char>>)
    ensures
        r@.len() == lines(s@).len(),
        forall|i: int| 0 <= i < r@.len() ==> (#[trigger] r@[i])@ == lines(s@)[i],
{
    let mut r: Vec<Vec<char>> = Vec::new();
    let mut pos: usize = 0;
    let ghost done: Seq<Seq<char>> = seq![];
    assert(s@.skip(0) =~= s@);
    assert(lines(s@) =~= done + lines(s@.skip(0)));
    while pos < s.len()
        invariant
            pos <= s@.len(),
            lines(s@) == done + lines(s@.skip(pos as int)),
            r@.len() == done.len(),
            forall|i: int| 0 <= i < r@.len() ==> (#[trigger] r@[i])@ == done[i],
        decreases s@.len() - pos,
    {
        let n = line_len_at(s, pos);
        let ghost rest = s@.skip(pos as int);
        proof {
            lemma_first_line_len(rest);
        }
        let mut line = slice_chars(s, pos, pos + n);
        assert(line@ =~= rest.take(n as int));
        if n > 0 && line[n - 1] == '\r' {
            line.pop();
        }
        assert(line@ =~= strip_cr(rest.take(n as int)));
        proof {
            done = done.push(line@);
        }
        r.push(line);
        if pos + n < s.len() {
            assert(rest.skip(n + 1) =~= s@.skip(pos + n + 1));
            pos = pos + n + 1;
        } else {
            assert(s@.skip(s@.len() as int) =~= Seq::<char>::empty());
            pos = s.len();
        }
    }
    assert(s@.skip(pos as int) =~= Seq::<char>::empty());
    assert(lines(s@) =~= done);
    r
}

// ---------------------------------------------------------------------------
// Words

/// Length of the word that starts the text (no leading whitespace expected).
pub open spec fn word_len(s: Seq<char>) -> nat
    decreases s.len(),
{
    if s.len() == 0 || is_ws(s[0]) {
        0
    } else {
        1 + word_len(s.drop_first())
    }
}

/// `str::split_whitespace`: the maximal runs of non-whitespace characters.
pub open spec fn words(s: Seq<char>) -> Seq<Seq<char>>
    decreases s.len(),
{
    let t = trim_start(s);
    if t.len() == 0 {
        seq![]
    } else {
        proof {
            lemma_lead_ws_bounds(s);
            lemma_word_len(t);
        }
        let n = word_len(t);
        seq![t.take(n as int)] + words(t.skip(n as int))
    }
}

pub proof fn lemma_word_len(s: Seq<char>)
    ensures
        word_len(s) <= s.len(),
        s.len() > 0 && !is_ws(s[0]) ==> word_len(s) > 0,
        word_len(s) < s.len() ==> is_ws(s[word_len(s) as int]),
        forall|i: int| 0 <= i < word_len(s) ==> !is_ws(#[trigger] s[i]),
    decreases s.len(),
{
    if s.len() > 0 && !is_ws(s[0]) {
        lemma_word_len(s.drop_first());
        assert forall|i: int| 0 <= i < word_len(s) implies !is_ws(#[trigger] s[i]) by {
            if i > 0 {
                assert(s[i] == s.drop_first()[i - 1]);
            }
        }
    }
}

/// Length of the word starting at `from`.
fn word_len_at(s: &[char], from: usize) -> (n: usize)
    requires
        from <= s@.len(),
    ensures
        n == word_len(s@.skip(from as int)),
        from + n <= s@.len(),
{
    let mut i = from;
    while i < s.len() && !is_whitespace(s[i])
        invariant
            from <= i <= s@.len(),
            word_len(s@.skip(from as int)) == (i - from) + word_len(s@.skip(i as int)),
        decreases s@.len() - i,
    {
        assert(s@.skip(i as int).drop_first() =~= s@.skip(i + 1));
        i += 1;
    }
    (i - from) as usize
}

/// `str::split_whitespace`, as owned character vectors.
pub fn words_of(s: &[char]) -> (r: Vec<Vec<char>>)
    ensures
        r@.len() == words(s@).len(),
        forall|i: int| 0 <= i < r@.len() ==> (#[trigger] r@[i])@ == words(s@)[i],
{
    let mut r: Vec<Vec<char>> = Vec::new();
    let mut pos: usize = 0;
    let ghost done: Seq<Seq<char>> = seq![];
    assert(s@.skip(0) =~= s@);
    assert(words(s@) =~= done + words(s@.skip(0)));
    loop
        invariant
            pos <= s@.len(),
            words(s@) == done + words(s@.skip(pos as int)),
            r@.len() == done.len(),
            forall|i: int| 0 <= i < r@.len() ==> (#[trigger] r@[i])@ == done[i],
        decreases s@.len() - pos,
    {
        let rest_v = slice_chars(s, pos, s.len());
        let a = lead_ws_len(rest_v.as_slice());
        let ghost rest = s@.skip(pos as int);
        assert(rest_v@ =~= rest);
        proof {
            lemma_lead_ws_bounds(rest);
        }
        if pos + a == s.len() {
            assert(trim_start(rest).len() == 0);
            assert(words(rest) =~= Seq::<Seq<char>>::empty());
            assert(words(s@) =~= done);
            return r;
        }
        let start = pos + a;
        let n = word_len_at(s, start);
        let ghost t = trim_start(rest);
        assert(t =~= s@.skip(start as int));
        proof {
            lemma_word_len(t);
        }
        let w = slice_chars(s, start, start + n);
        assert(w@ =~= t.take(n as int));
        proof {
            done = done.push(w@);
        }
        r.push(w);
        assert(t.skip(n as int) =~= s@.skip(start + n));
        pos = start + n;
    }
}

// ---------------------------------------------------------------------------
// Numbers

pub open spec fn is_digit(c: char) -> bool {
    '0' <= c && c <= '9'
}

pub open spec fn digit_val(c: char) -> int {
    (c as u32) - ('0' as u32)
}

pub open spec fn all_digits(s: Seq<char>) -> bool {
    forall|i: int| 0 <= i < s.len() ==> is_digit(#[trigger] s[i])
}

/// The value of a run of decimal digits.
pub open spec fn digits_value(s: Seq<char>) -> int
    decreases s.len(),
{
    if s.len() == 0 {
        0
    } else {
        digits_value(s.drop_last()) * 10 + digit_val(s.last())
    }
}

/// What std's `FromStr` for an unsigned integer type whose largest value is
/// `max` gives: an optional `+`, then one or more decimal digits whose value
/// is at most `max`.
pub open spec fn parse_unsigned(s: Seq<char>, max: int) -> Option<int> {
    let d = if s.len() > 0 && s[0] == '+' {
        s.drop_first()
    } else {
        s
    };
    if d.len() > 0 && all_digits(d) && digits_value(d) <= max {
        Some(digits_value(d))
    } else {
        None
    }
}

pub proof fn lemma_digits_value_nonneg(s: Seq<char>)
    requires
        all_digits(s),
    ensures
        digits_value(s) >= 0,
    decreases s.len(),
{
    if s.len() > 0 {
        lemma_digits_value_nonneg(s.drop_last());
    }
}

/// A longer run of digits is worth at least as much as its prefix.
pub proof fn lemma_digits_value_prefix(s: Seq<char>, k: int)
    requires
        all_digits(s),
        0 <= k <= s.len(),
    ensures
        digits_value(s.take(k)) <= digits_value(s),
    decreases s.len(),
{
    if k < s.len() {
        assert(s.drop_last().take(k) =~= s.take(k));
        lemma_digits_value_prefix(s.drop_last(), k);
        lemma_digits_value_nonneg(s.drop_last());
    } else {
        assert(s.take(k) =~= s);
    }
}

/// `u32::from_str` (and, with a smaller `max`, the other unsigned types).
pub fn parse_unsigned_max(s: &[char], max: u32) -> (r: Option<u32>)
    ensures
        match r {
            Some(v) => parse_unsigned(s@, max as int) == Some(v as int),
            None => parse_unsigned(s@, max as int) is None,
        },
{
    let start: usize = if s.len() > 0 && s[0] == '+' {
        1
    } else {
        0
    };
    let ghost d = if s@.len() > 0 && s@[0] == '+' {
        s@.drop_first()
    } else {
        s@
    };
    assert(d =~= s@.skip(start as int));
    if start == s.len() {
        return None;
    }
    let mut acc: u64 = 0;
    let mut i = start;
    while i < s.len()
        invariant
            start <= i <= s@.len(),
            d =~= s@.skip(start as int),
            d == (if s@.len() > 0 && s@[0] == '+' {
                s@.drop_first()
            } else {
                s@
            }),
            all_digits(s@.subrange(start as int, i as int)),
            acc as int == digits_value(s@.subrange(start as int, i as int)),
            acc <= max,
        decreases s@.len() - i,
    {
        let c = s[i];
        if !('0' <= c && c <= '9') {
            assert(d[i - start] == c);
            assert(!is_digit(d[i - start]));
            assert(!all_digits(d));
            assert(parse_unsigned(s@, max as int) is None);
            return None;
        }
        let ghost pre = s@.subrange(start as int, i as int);
        let ghost next = s@.subrange(start as int, i + 1);
        assert(next.drop_last() =~= pre);
        assert(all_digits(next)) by {
            assert forall|j: int| 0 <= j < next.len() implies is_digit(#[trigger] next[j]) by {
                if j < pre.len() {
                    assert(next[j] == pre[j]);
                }
            }
        }
        let dv = (c as u32 - '0' as u32) as u64;
        acc = acc * 10 + dv;
        if acc > max as u64 {
            proof {
                assert(d.take(next.len() as int) =~= next);
                if all_digits(d) {
                    lemma_digits_value_prefix(d, next.len() as int);
                    assert(digits_value(d) > max);
                }
            }
            assert(parse_unsigned(s@, max as int) is None);
            return None;
        }
        i += 1;
    }
    assert(s@.subrange(start as int, s@.len() as int) =~= d);
    Some(acc as u32)
}

pub open spec fn is_hex_digit(c: char) -> bool {
    ('0' <= c && c <= '9') || ('a' <= c && c <= 'f') || ('A' <= c && c <= 'F')
}

pub open spec fn hex_val(c: char) -> int {
    if '0' <= c && c <= '9' {
        (c as u32) - ('0' as u32)
    } else if 'a' <= c && c <= 'f' {
        (c as u32) - ('a' as u32) + 10
    } else {
        (c as u32) - ('A' as u32) + 10
    }
}

/// The hexadecimal digit for a value 0..=15, lower case (`{:x}`).
pub open spec fn hex_char(v: int) -> char {
    if v < 10 {
        (('0' as u32) + v) as char
    } else {
        (('a' as u32) + v - 10) as char
    }
}

/// The lower-case hex digit for 0..=15.
pub fn hex_digit(v: u8) -> (c: char)
    requires
        v < 16,
    ensures
        c == hex_char(v as int),
{
    if v < 10 {
        ((48u8 + v) as char)
    } else {
        ((97u8 + v - 10) as char)
    }
}

/// A byte as two lower-case hex digits (`{:02x}`).
pub open spec fn hex_byte(b: u8) -> Seq<char> {
    seq![hex_char(b as int / 16), hex_char(b as int % 16)]
}

/// Append the two lower-case hex digits of a byte.
pub fn push_hex_byte(out: &mut Vec<char>, b: u8)
    ensures
        final(out)@ == old(out)@ + hex_byte(b),
{
    out.push(hex_digit(b / 16));
    out.push(hex_digit(b % 16));
    assert(final(out)@ =~= old(out)@ + hex_byte(b));
}

/// Append a string slice's characters.
pub fn push_str(out: &mut Vec<char>, s: &str)
    ensures
        final(out)@ == old(out)@ + s@,
{
    let cs = chars_of(s);
    push_chars(out, cs.as_slice());
}

/// Append characters.
pub fn push_chars(out: &mut Vec<char>, s: &[char])
    ensures
        final(out)@ == old(out)@ + s@,
{
    let ghost start = out@;
    let mut i: usize = 0;
    while i < s.len()
        invariant
            i <= s@.len(),
            out@ == start + s@.take(i as int),
        decreases s@.len() - i,
    {
        out.push(s[i]);
        i += 1;
        assert(out@ =~= start + s@.take(i as int));
    }
    assert(s@.take(s@.len() as int) =~= s@);
}

/// The decimal digits of an unsigned value (`{}`), most significant first.
pub open spec fn decimal(n: nat) -> Seq<char>
    decreases n,
{
    if n < 10 {
        seq![(('0' as u32) + n) as char]
    } else {
        decimal(n / 10).push((('0' as u32) + (n % 10)) as char)
    }
}

/// Append the decimal digits of `n` (`{}` on an unsigned integer).
pub fn push_decimal(out: &mut Vec<char>, n: u64)
    ensures
        final(out)@ == old(out)@ + decimal(n as nat),
    decreases n,
{
    if n < 10 {
        out.push(((48u8 + (n as u8)) as char));
        assert(final(out)@ =~= old(out)@ + decimal(n as nat));
    } else {
        push_decimal(out, n / 10);
        out.push(((48u8 + ((n % 10) as u8)) as char));
        assert(final(out)@ =~= old(out)@ + decimal(n as nat));
    }
}

// ---------------------------------------------------------------------------
// Searching

/// The index of the first `c` in `s`, or `s.len()` when there is none.
pub open spec fn find_char(s: Seq<char>, c: char) -> nat
    decreases s.len(),
{
    if s.len() == 0 || s[0] == c {
        0
    } else {
        1 + find_char(s.drop_first(), c)
    }
}

pub proof fn lemma_find_char(s: Seq<char>, c: char)
    ensures
        find_char(s, c) <= s.len(),
        find_char(s, c) < s.len() ==> s[find_char(s, c) as int] == c,
        forall|i: int| 0 <= i < find_char(s, c) ==> #[trigger] s[i] != c,
    decreases s.len(),
{
    if s.len() > 0 && s[0] != c {
        lemma_find_char(s.drop_first(), c);
        assert forall|i: int| 0 <= i < find_char(s, c) implies #[trigger] s[i] != c by {
            if i > 0 {
                assert(s[i] == s.drop_first()[i - 1]);
            }
        }
    }
}

/// The index of the first `c` in `s`, or its length (`str::find` on a
/// `char`, with the length for "not found").
pub fn find_char_in(s: &[char], c: char) -> (n: usize)
    ensures
        n == find_char(s@, c),
{
    let mut i: usize = 0;
    assert(s@.skip(0) =~= s@);
    while i < s.len() && s[i] != c
        invariant
            i <= s@.len(),
            find_char(s@, c) == i + find_char(s@.skip(i as int), c),
        decreases s@.len() - i,
    {
        assert(s@.skip(i as int).drop_first() =~= s@.skip(i + 1));
        i += 1;
    }
    i
}

/// Whether `s` ends with `suffix` (`str::ends_with`).
pub open spec fn ends_with(s: Seq<char>, suffix: Seq<char>) -> bool {
    s.len() >= suffix.len() && s.skip(s.len() - suffix.len()) == suffix
}

/// Whether the characters end with the given string slice.
pub fn has_suffix(s: &[char], suffix: &str) -> (r: bool)
    ensures
        r == ends_with(s@, suffix@),
{
    let suf = chars_of(suffix);
    if s.len() < suf.len() {
        return false;
    }
    let tail = slice_chars(s, s.len() - suf.len(), s.len());
    assert(tail@ =~= s@.skip(s@.len() - suf@.len()));
    seq_eq(tail.as_slice(), suf.as_slice())
}

/// Whether `s` starts with `prefix` (`str::starts_with`).
pub open spec fn starts_with(s: Seq<char>, prefix: Seq<char>) -> bool {
    s.len() >= prefix.len() && s.take(prefix.len() as int) == prefix
}

/// Whether the characters start with the given string slice.
pub fn has_prefix(s: &[char], prefix: &str) -> (r: bool)
    ensures
        r == starts_with(s@, prefix@),
{
    let pre = chars_of(prefix);
    if s.len() < pre.len() {
        return false;
    }
    let head = slice_chars(s, 0, pre.len());
    assert(head@ =~= s@.take(pre@.len() as int));
    seq_eq(head.as_slice(), pre.as_slice())
}

/// The value of a run of decimal digits, when every character is a digit
/// and the value fits in 64 bits (an empty run is worth zero).
pub fn parse_digits(s: &[char]) -> (r: Option<u64>)
    ensures
        match r {
            Some(v) => all_digits(s@) && digits_value(s@) == v,
            None => !(all_digits(s@) && digits_value(s@) <= u64::MAX),
        },
{
    let mut acc: u64 = 0;
    let mut i: usize = 0;
    while i < s.len()
        invariant
            i <= s@.len(),
            all_digits(s@.take(i as int)),
            acc as int == digits_value(s@.take(i as int)),
        decreases s@.len() - i,
    {
        let c = s[i];
        if !('0' <= c && c <= '9') {
            assert(!is_digit(s@[i as int]));
            return None;
        }
        let ghost pre = s@.take(i as int);
        let ghost next = s@.take(i + 1);
        assert(next.drop_last() =~= pre);
        assert(all_digits(next)) by {
            assert forall|j: int| 0 <= j < next.len() implies is_digit(#[trigger] next[j]) by {
                if j < pre.len() {
                    assert(next[j] == pre[j]);
                }
            }
        }
        let dv = (c as u32 - '0' as u32) as u64;
        if acc > (u64::MAX - dv) / 10 {
            proof {
                assert(digits_value(next) > u64::MAX) by (nonlinear_arith)
                    requires
                        digits_value(next) == acc * 10 + dv,
                        acc > (u64::MAX - dv) / 10,
                        dv <= 9,
                ;
                if all_digits(s@) {
                    lemma_digits_value_prefix(s@, i + 1);
                }
            }
            return None;
        }
        assert(acc * 10 + dv <= u64::MAX) by (nonlinear_arith)
            requires
                acc <= (u64::MAX - dv) / 10,
                dv <= 9,
        ;
        acc = acc * 10 + dv;
        i += 1;
    }
    assert(s@.take(s@.len() as int) =~= s@);
    Some(acc)
}

/// Whether `pat` occurs in `text` (`str::contains` with a string pattern;
/// the empty pattern occurs everywhere).
pub open spec fn contains(text: Seq<char>, pat: Seq<char>) -> bool {
    exists|i: int| 0 <= i <= text.len() - pat.len() && #[trigger] text.subrange(i, i + pat.len()) == pat
}

/// Whether `pat` occurs in `text`.
pub fn contains_chars(text: &[char], pat: &[char]) -> (r: bool)
    ensures
        r == contains(text@, pat@),
{
    if pat.len() > text.len() {
        return false;
    }
    if pat.len() == 0 {
        assert(text@.subrange(0, 0 + pat@.len() as int) =~= pat@);
        return true;
    }
    let last = text.len() - pat.len();
    let mut i: usize = 0;
    while i <= last
        invariant
            last == text@.len() - pat@.len(),
            last + pat@.len() == text@.len(),
            text@.len() == text.len(),
            pat@.len() == pat.len(),
            pat@.len() > 0,
            i <= last + 1,
            forall|j: int| 0 <= j < i ==> #[trigger] text@.subrange(j, j + pat@.len()) != pat@,
        decreases last + 1 - i,
    {
        let window = slice_chars(text, i, i + pat.len());
        if seq_eq(window.as_slice(), pat) {
            assert(text@.subrange(i as int, i + pat@.len()) == pat@);
            return true;
        }
        i += 1;
    }
    false
}

/// The upper-case hexadecimal digit for a value 0..=15 (`{:X}`).
pub open spec fn hex_upper_char(v: int) -> char {
    if v < 10 {
        (('0' as u32) + v) as char
    } else {
        (('A' as u32) + v - 10) as char
    }
}

/// A byte as two upper-case hex digits (`{:02X}`).
pub open spec fn hex_upper_byte(b: u8) -> Seq<char> {
    seq![hex_upper_char(b as int / 16), hex_upper_char(b as int % 16)]
}

fn hex_upper_digit(v: u8) -> (c: char)
    requires
        v < 16,
    ensures
        c == hex_upper_char(v as int),
{
    if v < 10 {
        ((48u8 + v) as char)
    } else {
        ((65u8 + v - 10) as char)
    }
}

/// Append the two upper-case hex digits of a byte.
pub fn push_hex_upper_byte(out: &mut Vec<char>, b: u8)
    ensures
        final(out)@ == old(out)@ + hex_upper_byte(b),
{
    out.push(hex_upper_digit(b / 16));
    out.push(hex_upper_digit(b % 16));
    assert(final(out)@ =~= old(out)@ + hex_upper_byte(b));
}

/// `n` spaces.
pub open spec fn spaces(n: nat) -> Seq<char> {
    Seq::new(n, |i: int| ' ')
}

/// Pad with spaces to at least `width` characters.
pub open spec fn pad_to(s: Seq<char>, width: nat) -> Seq<char> {
    if s.len() < width {
        s + spaces((width - s.len()) as nat)
    } else {
        s
    }
}

/// Append spaces until the text is at least `width` characters long.
pub fn pad_chars(out: &mut Vec<char>, width: usize)
    ensures
        final(out)@ == pad_to(old(out)@, width as nat),
{
    let ghost start = out@;
    while out.len() < width
        invariant
            start.len() <= out@.len(),
            out@.len() <= width || out@.len() == start.len(),
            out@ == start + spaces((out@.len() - start.len()) as nat),
        decreases width - out@.len(),
    {
        out.push(' ');
        assert(out@ =~= start + spaces((out@.len() - start.len()) as nat));
    }
    assert(start + spaces(0) =~= start);
}

/// The items separated by `sep` (`[..].join(sep)`).
pub open spec fn joined(items: Seq<Seq<char>>, sep: Seq<char>) -> Seq<char>
    decreases items.len(),
{
    if items.len() == 0 {
        Seq::empty()
    } else if items.len() == 1 {
        items[0]
    } else {
        joined(items.drop_last(), sep) + sep + items.last()
    }
}

/// The characters of each string slice.
pub open spec fn str_views(items: Seq<&str>) -> Seq<Seq<char>> {
    items.map_values(|s: &str| s@)
}

/// Append the string slices separated by `sep`.
pub fn push_joined(out: &mut Vec<char>, items: &[&str], sep: &str)
    ensures
        final(out)@ == old(out)@ + joined(str_views(items@), sep@),
{
    let ghost start = out@;
    let mut i: usize = 0;
    while i < items.len()
        invariant
            i <= items@.len(),
            out@ == start + joined(str_views(items@.take(i as int)), sep@),
        decreases items@.len() - i,
    {
        if i > 0 {
            push_str(out, sep);
        }
        push_str(out, items[i]);
        proof {
            let v = str_views(items@.take(i + 1));
            assert(str_views(items@.take(i as int)) =~= v.drop_last());
            assert(v.last() == items@[i as int]@);
            assert(out@ =~= start + joined(v, sep@));
        }
        i += 1;
    }
    assert(items@.take(items@.len() as int) =~= items@);
}

/// Appending to a text and then appending more is appending the two.
pub proof fn lemma_append_assoc(a: Seq<char>, b: Seq<char>, c: Seq<char>)
    ensures
        (a + b) + c == a + (b + c),
{
    assert((a + b) + c =~= a + (b + c));
}

/// Whether `a` comes no later than `b` in code-point lexicographic order
/// (the order of `str`'s `Ord`, which compares the UTF-8 bytes).
pub open spec fn text_le(a: Seq<char>, b: Seq<char>) -> bool
    decreases a.len(),
{
    if a.len() == 0 {
        true
    } else if b.len() == 0 {
        false
    } else if a[0] != b[0] {
        a[0] < b[0]
    } else {
        text_le(a.drop_first(), b.drop_first())
    }
}

/// The order is total.
pub proof fn lemma_text_le_total(a: Seq<char>, b: Seq<char>)
    ensures
        text_le(a, b) || text_le(b, a),
    decreases a.len(),
{
    if a.len() > 0 && b.len() > 0 {
        if a[0] == b[0] {
            lemma_text_le_total(a.drop_first(), b.drop_first());
        }
    }
}

/// The order is transitive.
pub proof fn lemma_text_le_transitive(a: Seq<char>, b: Seq<char>, c: Seq<char>)
    requires
        text_le(a, b),
        text_le(b, c),
    ensures
        text_le(a, c),
    decreases a.len(),
{
    if a.len() > 0 && b.len() > 0 && c.len() > 0 && a[0] == b[0] && b[0] == c[0] {
        lemma_text_le_transitive(a.drop_first(), b.drop_first(), c.drop_first());
    }
}

/// Whether `a` comes no later than `b` (see [`text_le`]).
pub fn chars_le(a: &[char], b: &[char]) -> (r: bool)
    ensures
        r == text_le(a@, b@),
{
    let mut i: usize = 0;
    assert(a@.skip(0) =~= a@);
    assert(b@.skip(0) =~= b@);
    while i < a.len() && i < b.len() && a[i] == b[i]
        invariant
            i <= a@.len(),
            i <= b@.len(),
            text_le(a@, b@) == text_le(a@.skip(i as int), b@.skip(i as int)),
        decreases a@.len() - i,
    {
        proof {
            assert(a@.skip(i as int).drop_first() =~= a@.skip(i + 1));
            assert(b@.skip(i as int).drop_first() =~= b@.skip(i + 1));
        }
        i += 1;
    }
    if i == a.len() {
        return true;
    }
    if i == b.len() {
        return false;
    }
    assert(a@.skip(i as int)[0] == a@[i as int]);
    assert(b@.skip(i as int)[0] == b@[i as int]);
    a[i] < b[i]
}

/// Right-align with spaces to at least `width` characters (`{:>width$}`).
pub open spec fn pad_left_to(s: Seq<char>, width: nat) -> Seq<char> {
    if s.len() < width {
        spaces((width - s.len()) as nat) + s
    } else {
        s
    }
}

/// Append characters right-aligned to at least `width` characters.
pub fn push_padded_left(out: &mut Vec<char>, s: &[char], width: usize)
    ensures
        final(out)@ == old(out)@ + pad_left_to(s@, width as nat),
{
    let ghost start = out@;
    let mut k: usize = s.len();
    while k < width
        invariant
            s@.len() <= k,
            k <= width || k == s@.len(),
            out@ == start + spaces((k - s@.len()) as nat),
        decreases width - k,
    {
        out.push(' ');
        proof {
            assert(out@ =~= start + spaces((k + 1 - s@.len()) as nat));
        }
        k += 1;
    }
    push_chars(out, s);
    proof {
        if s@.len() >= width {
            assert(spaces(0) =~= Seq::<char>::empty());
        }
        assert(final(out)@ =~= start + pad_left_to(s@, width as nat));
    }
}

} // verus!
