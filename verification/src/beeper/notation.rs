//! The phrase notation parser.
//!
//! Line-based, comment-preserving:
//!
//! ```text
//! ; file-level comment (ignored)
//! phrase chime_dusk        ; the title: two bell notes, high then low
//!   E5  300ms              ; a bright strike
//!   rest 8
//!   C5  340ms              ; C5 answers, a shade longer
//! ```
//!
//! - `phrase <name>` opens a phrase; the name must be a valid assembly
//!   label (`[A-Za-z_][A-Za-z0-9_]*`).
//! - A note is `<pitch> <duration>`: pitch is a note name (`C4`...`B8`,
//!   `#`/`b` accidentals) or `<number>hz`; duration is `<int>ms` or
//!   `<int>p` (exact periods).
//! - `rest <frames>` is silence in 50 Hz frames (1-255).
//! - `;` starts a comment; on event and phrase lines it is preserved into
//!   the emitted assembly.
//!
//! A `<number>` is an optional sign, then decimal digits with at most one
//! decimal point (at least one digit, at most nineteen after the point).
use vstd::prelude::*;

use crate::beeper::{
    comment_view, phrases_view, Duration, Event, EventView, HzValue, HzView, Phrase, PhraseView,
    Pitch, PitchView,
};
use crate::text::{
    all_digits, chars_of, decimal, digits_value, ends_with, find_char, find_char_in, has_suffix, is_digit,
    lemma_find_char,
    lines, lines_of, parse_digits, parse_unsigned, parse_unsigned_max, push_chars, push_decimal,
    push_str, seq_eq, slice_chars, string_of, trim, trimmed, words, words_of,
};

verus! {

/// A parse failure, pointing at its line.
#[derive(Clone, Debug, PartialEq, Eq)]
pub struct ParseError {
    /// 1-based line number.
    pub line: usize,
    /// What went wrong.
    pub message: String,
}

/// The mathematical value of a [`ParseError`].
pub struct ParseErrorView {
    pub line: usize,
    pub message: Seq<char>,
}

impl View for ParseError {
    type V = ParseErrorView;

    open spec fn view(&self) -> ParseErrorView {
        ParseErrorView { line: self.line, message: self.message@ }
    }
}

/// `line N: message`.
pub open spec fn parse_error_text(e: ParseErrorView) -> Seq<char> {
    "line "@ + decimal(e.line as nat) + ": "@ + e.message
}

impl ParseError {
    /// The error as a line of text.
    pub fn describe(&self) -> (s: String)
        ensures
            s@ == parse_error_text(self@),
    {
        let mut out: Vec<char> = Vec::new();
        push_str(&mut out, "line ");
        push_decimal(&mut out, self.line as u64);
        push_str(&mut out, ": ");
        push_str(&mut out, self.message.as_str());
        string_of(out.as_slice())
    }
}

// --- Words of a line ---------------------------------------------------------------

/// A line split at its first `;`: the part before it, and the trimmed
/// comment after it when that is not empty.
pub open spec fn comment_split(line: Seq<char>) -> (Seq<char>, Option<Seq<char>>) {
    let k = find_char(line, ';');
    if k < line.len() {
        let c = trim(line.skip(k as int + 1));
        (line.take(k as int), if c.len() > 0 {
            Some(c)
        } else {
            None
        })
    } else {
        (line, None)
    }
}

/// Split a line at its `;`, trimming the comment. Returns the comment only
/// when non-empty.
fn split_comment(line: &[char]) -> (r: (Vec<char>, Option<String>))
    ensures
        r.0@ == comment_split(line@).0,
        comment_view(r.1) == comment_split(line@).1,
{
    let k = find_char_in(line, ';');
    if k < line.len() {
        let body = slice_chars(line, 0, k);
        let after = slice_chars(line, k + 1, line.len());
        let c = trimmed(after.as_slice());
        assert(body@ =~= line@.take(k as int));
        assert(after@ =~= line@.skip(k + 1));
        if c.len() > 0 {
            (body, Some(string_of(c.as_slice())))
        } else {
            (body, None)
        }
    } else {
        let body = slice_chars(line, 0, line.len());
        assert(body@ =~= line@);
        (body, None)
    }
}

pub open spec fn is_ascii_alpha(c: char) -> bool {
    ('A' <= c && c <= 'Z') || ('a' <= c && c <= 'z')
}

pub open spec fn is_ascii_alnum(c: char) -> bool {
    is_ascii_alpha(c) || ('0' <= c && c <= '9')
}

/// A valid assembly label: `[A-Za-z_][A-Za-z0-9_]*`.
pub open spec fn is_label_spec(name: Seq<char>) -> bool {
    &&& name.len() > 0
    &&& (is_ascii_alpha(name[0]) || name[0] == '_')
    &&& forall|i: int| 0 <= i < name.len() ==> is_ascii_alnum(#[trigger] name[i]) || name[i] == '_'
}

/// Whether a name is a valid assembly label.
pub fn is_label(name: &[char]) -> (r: bool)
    ensures
        r == is_label_spec(name@),
{
    if name.len() == 0 {
        return false;
    }
    let c0 = name[0];
    if !(('A' <= c0 && c0 <= 'Z') || ('a' <= c0 && c0 <= 'z') || c0 == '_') {
        return false;
    }
    let mut i: usize = 0;
    while i < name.len()
        invariant
            i <= name@.len(),
            forall|j: int| 0 <= j < i ==> is_ascii_alnum(#[trigger] name@[j]) || name@[j] == '_',
        decreases name@.len() - i,
    {
        let c = name[i];
        if !(('A' <= c && c <= 'Z') || ('a' <= c && c <= 'z') || ('0' <= c && c <= '9') || c
            == '_') {
            assert(!(is_ascii_alnum(name@[i as int]) || name@[i as int] == '_'));
            return false;
        }
        i += 1;
    }
    true
}

// --- Pitches and durations -----------------------------------------------------------

/// A `<number>` before `hz`: an optional sign, then digits with at most one
/// decimal point, at least one digit, at most nineteen after the point, and
/// all the digits together worth at most `u64::MAX`.
pub open spec fn hz_of(s: Seq<char>) -> Option<HzView> {
    let signed = s.len() > 0 && (s[0] == '-' || s[0] == '+');
    let body = if signed {
        s.drop_first()
    } else {
        s
    };
    let dot = find_char(body, '.');
    let whole = body.take(dot as int);
    let frac = if dot < body.len() {
        body.skip(dot as int + 1)
    } else {
        Seq::<char>::empty()
    };
    let digits = whole + frac;
    if digits.len() > 0 && all_digits(digits) && frac.len() <= 19 && digits_value(digits)
        <= u64::MAX {
        Some(
            HzView {
                negative: s.len() > 0 && s[0] == '-',
                mantissa: digits_value(digits) as u64,
                scale: frac.len() as u32,
            },
        )
    } else {
        None
    }
}

/// The semitone of a note letter (either case), C=0 ... B=11.
pub open spec fn letter_base(c: char) -> Option<int> {
    if c == 'C' || c == 'c' {
        Some(0)
    } else if c == 'D' || c == 'd' {
        Some(2)
    } else if c == 'E' || c == 'e' {
        Some(4)
    } else if c == 'F' || c == 'f' {
        Some(5)
    } else if c == 'G' || c == 'g' {
        Some(7)
    } else if c == 'A' || c == 'a' {
        Some(9)
    } else if c == 'B' || c == 'b' {
        Some(11)
    } else {
        None
    }
}

/// `C4`...`B8` with `#`/`b`, or `<number>hz`. A sharp or flat that would
/// cross the octave boundary (`Cb`, `B#`) is refused, as is an octave above
/// 8.
pub open spec fn pitch_of(w: Seq<char>) -> Option<PitchView> {
    if ends_with(w, "hz"@) {
        match hz_of(w.take(w.len() - 2)) {
            Some(v) => Some(PitchView::Hz(v)),
            None => None,
        }
    } else if w.len() == 0 {
        None
    } else {
        match letter_base(w[0]) {
            None => None,
            Some(base) => {
                let rest = w.drop_first();
                let accidental: int = if rest.len() > 0 && rest[0] == '#' {
                    1
                } else if rest.len() > 0 && rest[0] == 'b' {
                    -1
                } else {
                    0
                };
                let oct = if accidental != 0 {
                    rest.drop_first()
                } else {
                    rest
                };
                match parse_unsigned(oct, 255) {
                    None => None,
                    Some(o) => if o > 8 || base + accidental < 0 || base + accidental > 11 {
                        None
                    } else {
                        Some(
                            PitchView::Note {
                                semitone: (base + accidental) as u8,
                                octave: o as u8,
                                spelling: w,
                            },
                        )
                    },
                }
            },
        }
    }
}

/// The semitone and octave a pitch word parses to, when it is a note.
pub open spec fn note_of(w: Seq<char>) -> Option<(int, int)> {
    match pitch_of(w) {
        Some(PitchView::Note { semitone, octave, .. }) => Some((semitone as int, octave as int)),
        _ => None,
    }
}

proof fn lemma_natural_note(c: char, o: Seq<char>)
    requires
        letter_base(c) is Some,
        o.len() >= 1,
        all_digits(o),
    ensures
        note_of(seq![c] + o) == (match parse_unsigned(o, 255) {
            Some(v) => if v <= 8 {
                Some((letter_base(c).unwrap(), v))
            } else {
                None
            },
            None => None,
        }),
{
    let w = seq![c] + o;
    reveal_strlit("hz");
    assert("hz"@.len() == 2 && "hz"@[1] == 'z');
    assert(is_digit(o[o.len() - 1]));
    assert(w[w.len() - 1] == o[o.len() - 1]);
    if ends_with(w, "hz"@) {
        assert(w.skip(w.len() - 2)[1] == w[w.len() - 1]);
    }
    assert(!ends_with(w, "hz"@));
    assert(w[0] == c);
    assert(w.drop_first() =~= o);
    assert(is_digit(o[0]));
    assert(o[0] != '#' && o[0] != 'b');
    let base = letter_base(c).unwrap();
    assert(0 <= base <= 11);
    match parse_unsigned(o, 255) {
        Some(v) => {
            crate::text::lemma_digits_value_nonneg(o);
            assert(v >= 0);
            if v <= 8 {
                assert(note_of(w) == Some((base, v)));
                assert(pitch_of(w) == Some(
                    PitchView::Note { semitone: base as u8, octave: v as u8, spelling: w },
                ));
            } else {
                assert(pitch_of(w) is None);
            }
        },
        None => {
            assert(pitch_of(w) is None);
        },
    }
}

/// A note letter with no accidental names a white key: read in letter
/// order C D E F G A B, the naturals start at semitone 0 and climb the
/// major scale (whole, whole, half, whole, whole, whole steps), closing a
/// half step below the next C. Either case gives the same note, and every
/// letter takes the octave that follows it.
pub proof fn lemma_naturals_climb_the_major_scale(o: Seq<char>)
    requires
        o.len() >= 1,
        all_digits(o),
        note_of(seq!['C'] + o) is Some,
    ensures
        ({
            let at = |c: char| note_of(seq![c] + o);
            let oct = at('C').unwrap().1;
            &&& at('C') == Some((0int, oct))
            &&& at('D') == Some((at('C').unwrap().0 + 2, oct))
            &&& at('E') == Some((at('D').unwrap().0 + 2, oct))
            &&& at('F') == Some((at('E').unwrap().0 + 1, oct))
            &&& at('G') == Some((at('F').unwrap().0 + 2, oct))
            &&& at('A') == Some((at('G').unwrap().0 + 2, oct))
            &&& at('B') == Some((at('A').unwrap().0 + 2, oct))
            &&& at('B').unwrap().0 + 1 == 12
            &&& at('c') == at('C') && at('d') == at('D') && at('e') == at('E') && at('f') == at('F')
            &&& at('g') == at('G') && at('a') == at('A') && at('b') == at('B')
        }),
{
    lemma_natural_note('C', o);
    lemma_natural_note('D', o);
    lemma_natural_note('E', o);
    lemma_natural_note('F', o);
    lemma_natural_note('G', o);
    lemma_natural_note('A', o);
    lemma_natural_note('B', o);
    lemma_natural_note('c', o);
    lemma_natural_note('d', o);
    lemma_natural_note('e', o);
    lemma_natural_note('f', o);
    lemma_natural_note('g', o);
    lemma_natural_note('a', o);
    lemma_natural_note('b', o);
}

proof fn lemma_accidental_note(c: char, acc: char, o: Seq<char>)
    requires
        letter_base(c) is Some,
        acc == '#' || acc == 'b',
        o.len() >= 1,
        all_digits(o),
    ensures
        ({
            let shifted = letter_base(c).unwrap() + if acc == '#' {
                1int
            } else {
                -1int
            };
            note_of(seq![c, acc] + o) == (match parse_unsigned(o, 255) {
                Some(v) => if v <= 8 && 0 <= shifted <= 11 {
                    Some((shifted, v))
                } else {
                    None
                },
                None => None,
            })
        }),
{
    let w = seq![c, acc] + o;
    reveal_strlit("hz");
    assert("hz"@.len() == 2 && "hz"@[1] == 'z');
    assert(is_digit(o[o.len() - 1]));
    assert(w[w.len() - 1] == o[o.len() - 1]);
    if ends_with(w, "hz"@) {
        assert(w.skip(w.len() - 2)[1] == w[w.len() - 1]);
    }
    assert(!ends_with(w, "hz"@));
    assert(w[0] == c);
    assert(w.drop_first() =~= seq![acc] + o);
    assert(w.drop_first().drop_first() =~= o);
    let base = letter_base(c).unwrap();
    let shifted = base + if acc == '#' {
        1int
    } else {
        -1int
    };
    match parse_unsigned(o, 255) {
        Some(v) => {
            assert(is_digit(o[0]));
            crate::text::lemma_digits_value_nonneg(o);
            if v <= 8 && 0 <= shifted <= 11 {
                assert(pitch_of(w) == Some(
                    PitchView::Note { semitone: shifted as u8, octave: v as u8, spelling: w },
                ));
                assert(note_of(w) == Some((shifted, v)));
            } else {
                assert(pitch_of(w) is None);
            }
        },
        None => {
            assert(pitch_of(w) is None);
        },
    }
}

/// A sharp raises a natural by one semitone and a flat lowers it by one,
/// in the same octave; a sharp or flat that would leave the octave (`B#`,
/// `Cb`) names no note.
pub proof fn lemma_accidentals_move_one_semitone(c: char, o: Seq<char>)
    requires
        c == 'C' || c == 'D' || c == 'E' || c == 'F' || c == 'G' || c == 'A' || c == 'B',
        o.len() >= 1,
        all_digits(o),
        note_of(seq![c] + o) is Some,
    ensures
        ({
            let (s, oct) = note_of(seq![c] + o).unwrap();
            &&& c != 'B' ==> note_of(seq![c, '#'] + o) == Some((s + 1, oct))
            &&& c != 'C' ==> note_of(seq![c, 'b'] + o) == Some((s - 1, oct))
            &&& note_of(seq!['B', '#'] + o) is None
            &&& note_of(seq!['C', 'b'] + o) is None
        }),
{
    lemma_natural_note(c, o);
    lemma_accidental_note(c, '#', o);
    lemma_accidental_note(c, 'b', o);
    lemma_accidental_note('B', '#', o);
    lemma_accidental_note('C', 'b', o);
}

/// `<int>ms` or `<int>p`.
pub open spec fn duration_of(w: Seq<char>) -> Option<Duration> {
    if ends_with(w, "ms"@) {
        match parse_unsigned(w.take(w.len() - 2), u32::MAX as int) {
            Some(v) => Some(Duration::Millis(v as u32)),
            None => None,
        }
    } else if ends_with(w, "p"@) {
        match parse_unsigned(w.take(w.len() - 1), u32::MAX as int) {
            Some(v) => Some(Duration::Periods(v as u32)),
            None => None,
        }
    } else {
        None
    }
}

fn hz_from_chars(s: &[char]) -> (r: Option<HzValue>)
    ensures
        match r {
            Some(v) => hz_of(s@) == Some(v@),
            None => hz_of(s@) is None,
        },
{
    let signed = s.len() > 0 && (s[0] == '-' || s[0] == '+');
    let negative = s.len() > 0 && s[0] == '-';
    let body = if signed {
        slice_chars(s, 1, s.len())
    } else {
        slice_chars(s, 0, s.len())
    };
    assert(body@ =~= (if signed {
        s@.drop_first()
    } else {
        s@
    }));
    let dot = find_char_in(body.as_slice(), '.');
    proof {
        lemma_find_char(body@, '.');
    }
    let mut digits = slice_chars(body.as_slice(), 0, dot);
    let ghost whole = digits@;
    let frac = if dot < body.len() {
        slice_chars(body.as_slice(), dot + 1, body.len())
    } else {
        Vec::new()
    };
    assert(frac@ =~= (if dot < body@.len() {
        body@.skip(dot + 1)
    } else {
        Seq::<char>::empty()
    }));
    push_chars(&mut digits, frac.as_slice());
    assert(whole =~= body@.take(dot as int));
    if digits.len() == 0 || frac.len() > 19 {
        return None;
    }
    match parse_digits(digits.as_slice()) {
        Some(m) => HzValue::new(negative, m, frac.len() as u32),
        None => None,
    }
}

fn note_letter(c: char) -> (r: Option<u8>)
    ensures
        match r {
            Some(b) => letter_base(c) == Some(b as int),
            None => letter_base(c) is None,
        },
{
    if c == 'C' || c == 'c' {
        Some(0)
    } else if c == 'D' || c == 'd' {
        Some(2)
    } else if c == 'E' || c == 'e' {
        Some(4)
    } else if c == 'F' || c == 'f' {
        Some(5)
    } else if c == 'G' || c == 'g' {
        Some(7)
    } else if c == 'A' || c == 'a' {
        Some(9)
    } else if c == 'B' || c == 'b' {
        Some(11)
    } else {
        None
    }
}

fn pitch_from_chars(w: &[char]) -> (r: Option<Pitch>)
    ensures
        match r {
            Some(p) => pitch_of(w@) == Some(p@),
            None => pitch_of(w@) is None,
        },
{
    proof {
        reveal_strlit("hz");
    }
    if has_suffix(w, "hz") {
        let num = slice_chars(w, 0, w.len() - 2);
        assert(num@ =~= w@.take(w@.len() - 2));
        return match hz_from_chars(num.as_slice()) {
            Some(v) => Some(Pitch::Hz(v)),
            None => None,
        };
    }
    if w.len() == 0 {
        return None;
    }
    let base = match note_letter(w[0]) {
        Some(b) => b,
        None => return None,
    };
    let rest = slice_chars(w, 1, w.len());
    assert(rest@ =~= w@.drop_first());
    let (up, down, oct) = if rest.len() > 0 && rest[0] == '#' {
        (true, false, slice_chars(rest.as_slice(), 1, rest.len()))
    } else if rest.len() > 0 && rest[0] == 'b' {
        (false, true, slice_chars(rest.as_slice(), 1, rest.len()))
    } else {
        (false, false, slice_chars(rest.as_slice(), 0, rest.len()))
    };
    assert(oct@ =~= (if up || down {
        rest@.drop_first()
    } else {
        rest@
    }));
    let octave = match parse_unsigned_max(oct.as_slice(), 255) {
        Some(o) => o,
        None => return None,
    };
    if octave > 8 || (down && base == 0) || (up && base == 11) {
        return None;
    }
    let semitone = if up {
        base + 1
    } else if down {
        base - 1
    } else {
        base
    };
    Some(Pitch::Note { semitone, octave: octave as u8, spelling: string_of(w) })
}

/// Parse a pitch: `C4`...`B8` with `#`/`b`, or `<number>hz`.
pub fn parse_pitch(word: &str) -> (r: Option<Pitch>)
    ensures
        match r {
            Some(p) => pitch_of(word@) == Some(p@),
            None => pitch_of(word@) is None,
        },
{
    let w = chars_of(word);
    pitch_from_chars(w.as_slice())
}

fn duration_from_chars(w: &[char]) -> (r: Option<Duration>)
    ensures
        r == duration_of(w@),
{
    proof {
        reveal_strlit("ms");
        reveal_strlit("p");
    }
    if has_suffix(w, "ms") {
        let n = slice_chars(w, 0, w.len() - 2);
        assert(n@ =~= w@.take(w@.len() - 2));
        return match parse_unsigned_max(n.as_slice(), u32::MAX) {
            Some(v) => Some(Duration::Millis(v)),
            None => None,
        };
    }
    if has_suffix(w, "p") {
        let n = slice_chars(w, 0, w.len() - 1);
        assert(n@ =~= w@.take(w@.len() - 1));
        return match parse_unsigned_max(n.as_slice(), u32::MAX) {
            Some(v) => Some(Duration::Periods(v)),
            None => None,
        };
    }
    None
}

/// Parse a duration: `<int>ms` or `<int>p`.
pub fn parse_duration(word: &str) -> (r: Option<Duration>)
    ensures
        r == duration_of(word@),
{
    let w = chars_of(word);
    duration_from_chars(w.as_slice())
}

// --- Lines and files -------------------------------------------------------------------

/// A parse failure at a line.
pub open spec fn fail(line: usize, message: Seq<char>) -> Result<Seq<PhraseView>, ParseErrorView> {
    Err(ParseErrorView { line, message })
}

/// The phrases with an event added to the last one.
pub open spec fn with_event(ps: Seq<PhraseView>, e: EventView) -> Seq<PhraseView> {
    let last = ps.last();
    ps.drop_last().push(
        PhraseView { name: last.name, comment: last.comment, events: last.events.push(e) },
    )
}

/// What one line does to the phrases read so far: a blank or comment-only
/// line leaves them; `phrase <name>` opens a new one; a rest or a note is
/// added to the last one; anything else is the error that names the line.
pub open spec fn line_step(ps: Seq<PhraseView>, raw: Seq<char>, line: usize) -> Result<
    Seq<PhraseView>,
    ParseErrorView,
> {
    let (body, comment) = comment_split(raw);
    let ws = words(body);
    if ws.len() == 0 {
        Ok(ps)
    } else if ws[0] == "phrase"@ {
        if ws.len() < 2 {
            fail(line, "phrase needs a name"@)
        } else if ws.len() > 2 {
            fail(line, "phrase takes exactly one name"@)
        } else if !is_label_spec(ws[1]) {
            fail(line, "`"@ + ws[1] + "` is not a valid assembly label"@)
        } else {
            Ok(ps.push(PhraseView { name: ws[1], comment, events: seq![] }))
        }
    } else if ps.len() == 0 {
        fail(line, "events must follow a `phrase` line"@)
    } else if ws[0] == "rest"@ {
        if ws.len() < 2 {
            fail(line, "rest needs a frame count"@)
        } else {
            match parse_unsigned(ws[1], 255) {
                None => fail(line, "`"@ + ws[1] + "` is not a frame count (1-255)"@),
                Some(f) => if f == 0 || ws.len() > 2 {
                    fail(line, "rest takes one frame count, 1-255"@)
                } else {
                    Ok(with_event(ps, EventView::Rest { frames: f as u8, comment }))
                },
            }
        }
    } else {
        match pitch_of(ws[0]) {
            None => fail(line, "`"@ + ws[0] + "` is not a note name or `<number>hz`"@),
            Some(p) => if ws.len() < 2 {
                fail(line, "note "@ + ws[0] + " needs a duration (`<int>ms` or `<int>p`)"@)
            } else {
                match duration_of(ws[1]) {
                    None => fail(
                        line,
                        "`"@ + ws[1] + "` is not a duration (`<int>ms` or `<int>p`)"@,
                    ),
                    Some(d) => if ws.len() > 2 {
                        fail(line, "a note line is `<pitch> <duration>` only"@)
                    } else {
                        Ok(with_event(ps, EventView::Note { pitch: p, duration: d, comment }))
                    },
                }
            },
        }
    }
}

/// The phrases after the first `n` lines, or the first line's error.
pub open spec fn parse_lines(ls: Seq<Seq<char>>, n: nat) -> Result<Seq<PhraseView>, ParseErrorView>
    decreases n,
{
    if n == 0 {
        Ok(seq![])
    } else {
        match parse_lines(ls, (n - 1) as nat) {
            Err(e) => Err(e),
            Ok(ps) => line_step(ps, ls[n - 1], n as usize),
        }
    }
}

/// A whole notation file: its phrases, or the first malformed line's error.
pub open spec fn parse_spec(source: Seq<char>) -> Result<Seq<PhraseView>, ParseErrorView> {
    parse_lines(lines(source), lines(source).len())
}

proof fn lemma_parse_lines_stops(ls: Seq<Seq<char>>, i: nat, n: nat)
    requires
        i <= n,
        parse_lines(ls, i) is Err,
    ensures
        parse_lines(ls, n) == parse_lines(ls, i),
    decreases n,
{
    if i < n {
        lemma_parse_lines_stops(ls, i, (n - 1) as nat);
    }
}

fn fail_with(line: usize, message: Vec<char>) -> (e: ParseError)
    ensures
        e@ == (ParseErrorView { line, message: message@ }),
{
    ParseError { line, message: string_of(message.as_slice()) }
}

fn quoted(word: &[char], tail: &str) -> (m: Vec<char>)
    ensures
        m@ == "`"@ + word@ + tail@,
{
    let mut m: Vec<char> = Vec::new();
    push_str(&mut m, "`");
    push_chars(&mut m, word);
    push_str(&mut m, tail);
    m
}

fn message(text: &str) -> (m: Vec<char>)
    ensures
        m@ == text@,
{
    chars_of(text)
}

/// Add an event to the last phrase.
fn push_event(phrases: &mut Vec<Phrase>, e: Event)
    requires
        old(phrases)@.len() > 0,
    ensures
        phrases_view(final(phrases)@) == with_event(phrases_view(old(phrases)@), e@),
{
    let ghost before = phrases@;
    let mut last = match phrases.pop() {
        Some(p) => p,
        None => return,
    };
    let ghost old_events = last.events@;
    last.events.push(e);
    assert(crate::beeper::events_view(last.events@) =~= crate::beeper::events_view(old_events).push(e@));
    phrases.push(last);
    assert(phrases_view(before).drop_last() =~= phrases_view(before.drop_last()));
    assert(phrases_view(phrases@) =~= with_event(phrases_view(before), e@));
}

/// Read one line into the phrases so far.
fn parse_line(phrases: &mut Vec<Phrase>, raw: &[char], line: usize) -> (r: Result<(), ParseError>)
    ensures
        match line_step(phrases_view(old(phrases)@), raw@, line) {
            Ok(ps) => r is Ok && phrases_view(final(phrases)@) == ps,
            Err(e) => match r {
                Err(f) => f@ == e,
                Ok(_) => false,
            },
        },
{
    let ghost before = phrases_view(phrases@);
    let (body, comment) = split_comment(raw);
    let ws = words_of(body.as_slice());
    if ws.len() == 0 {
        return Ok(());
    }
    let kw_phrase = chars_of("phrase");
    let kw_rest = chars_of("rest");
    if seq_eq(ws[0].as_slice(), kw_phrase.as_slice()) {
        if ws.len() < 2 {
            return Err(fail_with(line, message("phrase needs a name")));
        }
        if ws.len() > 2 {
            return Err(fail_with(line, message("phrase takes exactly one name")));
        }
        if !is_label(ws[1].as_slice()) {
            return Err(fail_with(line, quoted(ws[1].as_slice(), "` is not a valid assembly label")));
        }
        let p = Phrase { name: string_of(ws[1].as_slice()), comment, events: Vec::new() };
        assert(crate::beeper::events_view(p.events@) =~= Seq::<EventView>::empty());
        phrases.push(p);
        assert(phrases_view(phrases@) =~= before.push(
            PhraseView { name: ws@[1]@, comment: comment_split(raw@).1, events: seq![] },
        ));
        return Ok(());
    }
    if phrases.len() == 0 {
        return Err(fail_with(line, message("events must follow a `phrase` line")));
    }
    if seq_eq(ws[0].as_slice(), kw_rest.as_slice()) {
        if ws.len() < 2 {
            return Err(fail_with(line, message("rest needs a frame count")));
        }
        let frames = match parse_unsigned_max(ws[1].as_slice(), 255) {
            Some(f) => f,
            None => {
                return Err(fail_with(line, quoted(ws[1].as_slice(), "` is not a frame count (1-255)")));
            },
        };
        if frames == 0 || ws.len() > 2 {
            return Err(fail_with(line, message("rest takes one frame count, 1-255")));
        }
        push_event(phrases, Event::Rest { frames: frames as u8, comment });
        return Ok(());
    }
    let pitch = match pitch_from_chars(ws[0].as_slice()) {
        Some(p) => p,
        None => {
            return Err(fail_with(line, quoted(ws[0].as_slice(), "` is not a note name or `<number>hz`")));
        },
    };
    if ws.len() < 2 {
        let mut m = message("note ");
        push_chars(&mut m, ws[0].as_slice());
        push_str(&mut m, " needs a duration (`<int>ms` or `<int>p`)");
        return Err(fail_with(line, m));
    }
    let duration = match duration_from_chars(ws[1].as_slice()) {
        Some(d) => d,
        None => {
            return Err(fail_with(line, quoted(ws[1].as_slice(), "` is not a duration (`<int>ms` or `<int>p`)")));
        },
    };
    if ws.len() > 2 {
        return Err(fail_with(line, message("a note line is `<pitch> <duration>` only")));
    }
    push_event(phrases, Event::Note { pitch, duration, comment });
    Ok(())
}

/// Parse a notation file into phrases.
pub fn parse(source: &str) -> (r: Result<Vec<Phrase>, ParseError>)
    ensures
        match parse_spec(source@) {
            Ok(ps) => match r {
                Ok(v) => phrases_view(v@) == ps,
                Err(_) => false,
            },
            Err(e) => match r {
                Err(f) => f@ == e,
                Ok(_) => false,
            },
        },
{
    let cs = chars_of(source);
    let ls = lines_of(cs.as_slice());
    let ghost all = lines(source@);
    let mut phrases: Vec<Phrase> = Vec::new();
    let mut i: usize = 0;
    assert(phrases_view(phrases@) =~= Seq::<PhraseView>::empty());
    while i < ls.len()
        invariant
            i <= ls@.len(),
            all == lines(source@),
            ls@.len() == all.len(),
            forall|j: int| 0 <= j < ls@.len() ==> (#[trigger] ls@[j])@ == all[j],
            parse_lines(all, i as nat) == Ok::<Seq<PhraseView>, ParseErrorView>(phrases_view(phrases@)),
        decreases ls@.len() - i,
    {
        let r = parse_line(&mut phrases, ls[i].as_slice(), i + 1);
        match r {
            Ok(()) => {},
            Err(e) => {
                proof {
                    lemma_parse_lines_stops(all, (i + 1) as nat, all.len());
                }
                return Err(e);
            },
        }
        i += 1;
    }
    Ok(phrases)
}

} // verus!
