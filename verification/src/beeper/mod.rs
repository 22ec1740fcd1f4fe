//! Spectrum beeper-phrase converter: one timing model, two renderings.
//!
//! Converts a textual phrase notation (see [`notation`]) into a preview WAV
//! ([`wav`]) and the phrase in Gloaming's table-free assembly idiom
//! ([`assembly`]).
//!
//! # The timing model
//!
//! The target routine toggles the port-`$FE` speaker bit with a
//! `DEC A / JR NZ` delay loop of `C` iterations per half-period, `B` full
//! cycles per note. At the 48K Spectrum's 3.5 MHz:
//!
//! - first half-period: `16*C + 17` T-states
//! - second half-period: `16*C + 27` T-states
//! - full period: **`32*C + 44` T-states**
//!
//! `rest` is `B` frames of `HALT` (69,888 T per 48K frame).
//!
//! The delay constant is `C = trunc((3_500_000/f - 44) / 32)` (truncation,
//! not rounding), computed here in exact rational arithmetic: note
//! frequencies are the twelve equal-tempered octave-4 values held as exact
//! binary fractions (the values of their 64-bit float literals), scaled by
//! exact powers of two; a raw `<number>hz` frequency is its exact decimal.
use vstd::prelude::*;

use vstd::arithmetic::power2::{
    lemma2_to64, lemma2_to64_rest, lemma_pow2_pos, lemma_pow2_strictly_increases,
    lemma_pow2_unfold, pow2,
};

use crate::text::{decimal, push_decimal, push_str, string_of};

pub mod assembly;
pub mod notation;
pub mod wav;
pub mod timing;

verus! {

/// Z80 clock of the 48K Spectrum, in T-states per second.
pub const TSTATES_PER_SECOND: u64 = 3_500_000;

/// T-states per 48K Spectrum frame (the `HALT` quantum of `rest`).
pub const TSTATES_PER_FRAME: u64 = 69_888;

/// Fixed T-state overhead of one full `beep` period beyond the delay loops.
pub const PERIOD_OVERHEAD_T: u64 = 44;

/// T-states per delay-loop iteration, doubled across the two half-periods.
pub const TSTATES_PER_LOOP_PAIR: u64 = 32;

/// Extra T-states in the first half-period beyond its delay loop.
pub const FIRST_HALF_OVERHEAD_T: u64 = 17;

/// A duration, as authored.
#[derive(Clone, Copy, Debug, PartialEq, Eq, Structural)]
pub enum Duration {
    /// Milliseconds; converted via the period length.
    Millis(u32),
    /// Exact full periods of the square wave (may exceed 255: the emitter
    /// chunks).
    Periods(u32),
}

/// A raw frequency as authored: `mantissa / 10^scale` Hz, negated when
/// `negative` is set. At most nineteen decimal places are held.
#[derive(Clone, Copy, Debug, PartialEq, Eq)]
pub struct HzValue {
    negative: bool,
    mantissa: u64,
    scale: u32,
}

/// The mathematical value of an [`HzValue`].
pub struct HzView {
    pub negative: bool,
    pub mantissa: u64,
    pub scale: u32,
}

impl View for HzValue {
    type V = HzView;

    closed spec fn view(&self) -> HzView {
        HzView { negative: self.negative, mantissa: self.mantissa, scale: self.scale }
    }
}

impl HzValue {
    #[verifier::type_invariant]
    spec fn held(self) -> bool {
        self.scale <= 19
    }

    /// The frequency `mantissa / 10^scale` Hz (negated when `negative`), when
    /// `scale` is at most 19.
    pub fn new(negative: bool, mantissa: u64, scale: u32) -> (r: Option<HzValue>)
        ensures
            match r {
                Some(v) => scale <= 19 && v@ == (HzView { negative, mantissa, scale }),
                None => scale > 19,
            },
    {
        if scale <= 19 {
            Some(HzValue { negative, mantissa, scale })
        } else {
            None
        }
    }

    /// Whether the value is negative.
    pub fn negative(&self) -> (b: bool)
        ensures
            b == self@.negative,
    {
        self.negative
    }

    /// The decimal digits as one integer.
    pub fn mantissa(&self) -> (m: u64)
        ensures
            m == self@.mantissa,
    {
        self.mantissa
    }

    /// How many of the digits follow the decimal point.
    pub fn scale(&self) -> (s: u32)
        ensures
            s == self@.scale,
            s <= 19,
    {
        proof {
            use_type_invariant(self);
        }
        self.scale
    }
}

/// A pitch, as authored.
#[derive(Clone, Debug, PartialEq)]
pub enum Pitch {
    /// A 12-TET note: semitone 0-11 (C=0 ... B=11) and octave 0-8.
    Note {
        /// Semitone within the octave, C=0 ... B=11.
        semitone: u8,
        /// Scientific-pitch octave, 0-8.
        octave: u8,
        /// The spelling as written (`E5`, `C#4`...).
        spelling: String,
    },
    /// A raw frequency in Hz (for unpitched blips).
    Hz(HzValue),
}

/// The mathematical value of a [`Pitch`].
pub enum PitchView {
    Note { semitone: u8, octave: u8, spelling: Seq<char> },
    Hz(HzView),
}

impl View for Pitch {
    type V = PitchView;

    open spec fn view(&self) -> PitchView {
        match self {
            Pitch::Note { semitone, octave, spelling } => PitchView::Note {
                semitone: *semitone,
                octave: *octave,
                spelling: spelling@,
            },
            Pitch::Hz(v) => PitchView::Hz(v@),
        }
    }
}

/// A note resolved against the timing model: the constants the routine
/// consumes and the exact T-state cost.
#[derive(Clone, Copy, Debug, PartialEq, Eq, Structural)]
pub struct ResolvedNote {
    /// Delay constant `C` (1-255).
    pub c: u8,
    /// Total full periods (chunked into loads of at most 255 by the
    /// emitter).
    pub periods: u32,
    /// T-states of one full period (`32*C + 44`).
    pub period_t: u64,
    /// T-states of the first (speaker-high) half-period (`16*C + 17`).
    pub first_half_t: u64,
}

/// Errors resolving a notation event against the model.
#[derive(Clone, Debug, PartialEq, Eq)]
pub enum ResolveError {
    /// The frequency needs a delay constant outside 1-255.
    PitchOutOfRange {
        /// The spelling or Hz value as written.
        pitch: String,
    },
    /// The duration resolves to zero periods.
    DurationTooShort,
}

/// The mathematical value of a [`ResolveError`].
pub enum ResolveErrorView {
    PitchOutOfRange { pitch: Seq<char> },
    DurationTooShort,
}

impl View for ResolveError {
    type V = ResolveErrorView;

    open spec fn view(&self) -> ResolveErrorView {
        match self {
            ResolveError::PitchOutOfRange { pitch } => ResolveErrorView::PitchOutOfRange {
                pitch: pitch@,
            },
            ResolveError::DurationTooShort => ResolveErrorView::DurationTooShort,
        }
    }
}

/// The error's text (what `Display` prints for it).
pub open spec fn resolve_error_text(e: ResolveErrorView) -> Seq<char> {
    match e {
        ResolveErrorView::PitchOutOfRange { pitch } => "pitch "@ + pitch
            + " is outside the routine's range (C must be 1-255)"@,
        ResolveErrorView::DurationTooShort => "duration resolves to zero periods"@,
    }
}

impl ResolveError {
    /// The error as a line of text.
    pub fn describe(&self) -> (s: String)
        ensures
            s@ == resolve_error_text(self@),
    {
        match self {
            ResolveError::PitchOutOfRange { pitch } => {
                let mut out: Vec<char> = Vec::new();
                push_str(&mut out, "pitch ");
                push_str(&mut out, pitch.as_str());
                push_str(&mut out, " is outside the routine's range (C must be 1-255)");
                string_of(out.as_slice())
            },
            ResolveError::DurationTooShort => "duration resolves to zero periods".to_owned(),
        }
    }
}

// --- Frequencies ---------------------------------------------------------------

/// `10^n`.
pub open spec fn pow10(n: nat) -> nat
    decreases n,
{
    if n == 0 {
        1
    } else {
        10 * pow10((n - 1) as nat)
    }
}

/// The octave-4 frequency of a semitone as the exact binary fraction
/// `numerator / 2^shift` Hz (C4 = 261.6255653005986 ... B4 =
/// 493.8833012561241; A4 = 440).
pub open spec fn octave4(semitone: int) -> (int, nat) {
    if semitone == 0 {
        (2301282809371819, 43)
    } else if semitone == 1 {
        (4876248412425839, 44)
    } else if semitone == 2 {
        (5166205231893281, 44)
    } else if semitone == 3 {
        (1368350945269209, 42)
    } else if semitone == 4 {
        (5798869306577531, 44)
    } else if semitone == 5 {
        (1535922004832943, 42)
    } else if semitone == 6 {
        (6509010719739369, 44)
    } else if semitone == 7 {
        (6896056638352895, 44)
    } else if semitone == 8 {
        (3653058752473159, 43)
    } else if semitone == 9 {
        (440, 0)
    } else if semitone == 10 {
        (4100419809895505, 43)
    } else {
        (4344243459964045, 43)
    }
}

/// The delay constant for a frequency given as `num / den` Hz:
/// `trunc((3_500_000 * den / num - 44) / 32)` when that lies in 1..=255.
pub open spec fn c_for_ratio(num: int, den: int) -> Option<u8> {
    if num <= 0 {
        None
    } else {
        let top = 3_500_000 * den - 44 * num;
        if top < 32 * num || top >= 256 * 32 * num {
            None
        } else {
            Some((top / (32 * num)) as u8)
        }
    }
}

/// The frequency of a note as `(numerator, denominator)` Hz.
pub open spec fn note_ratio(semitone: u8, octave: u8) -> (int, int) {
    let (n, k) = octave4((semitone % 12) as int);
    if octave >= 4 {
        (n * pow2((octave - 4) as nat), pow2(k) as int)
    } else {
        (n, (pow2(k) * pow2((4 - octave) as nat)) as int)
    }
}

/// The delay constant a pitch resolves to, if the routine can play it.
pub open spec fn pitch_c(p: PitchView) -> Option<u8> {
    match p {
        PitchView::Note { semitone, octave, .. } => {
            let (num, den) = note_ratio(semitone, octave);
            c_for_ratio(num, den)
        },
        PitchView::Hz(v) => if v.negative {
            None
        } else {
            c_for_ratio(v.mantissa as int, pow10(v.scale as nat) as int)
        },
    }
}

/// The octave-4 table, exactly.
fn octave4_exec(semitone: u8) -> (r: (u64, u32))
    requires
        semitone < 12,
    ensures
        r.0 < 0x20_0000_0000_0000,
        r.1 <= 44,
        r.0 as int == octave4(semitone as int).0,
        r.1 as nat == octave4(semitone as int).1,
{
    match semitone {
        0 => (2301282809371819, 43),
        1 => (4876248412425839, 44),
        2 => (5166205231893281, 44),
        3 => (1368350945269209, 42),
        4 => (5798869306577531, 44),
        5 => (1535922004832943, 42),
        6 => (6509010719739369, 44),
        7 => (6896056638352895, 44),
        8 => (3653058752473159, 43),
        9 => (440, 0),
        10 => (4100419809895505, 43),
        _ => (4344243459964045, 43),
    }
}

fn pow2_exec(n: u32) -> (r: u64)
    requires
        n <= 48,
    ensures
        r as nat == pow2(n as nat),
        r >= 1,
        r <= 0x1_0000_0000_0000,
{
    let mut r: u64 = 1;
    let mut i: u32 = 0;
    proof {
        lemma2_to64();
        lemma2_to64_rest();
    }
    while i < n
        invariant
            i <= n <= 48,
            r as nat == pow2(i as nat),
            pow2(48) == 0x1_0000_0000_0000,
            pow2(0) == 1,
        decreases n - i,
    {
        proof {
            lemma_pow2_unfold(i as nat + 1);
            if i + 1 < 48 {
                lemma_pow2_strictly_increases(i as nat + 1, 48);
            }
        }
        r = r * 2;
        i += 1;
    }
    proof {
        if n < 48 {
            lemma_pow2_strictly_increases(n as nat, 48);
        }
        lemma_pow2_pos(n as nat);
    }
    r
}

proof fn lemma_pow10_pos(n: nat)
    ensures
        pow10(n) >= 1,
    decreases n,
{
    if n > 0 {
        lemma_pow10_pos((n - 1) as nat);
    }
}

proof fn lemma_pow10_le(i: nat, n: nat)
    requires
        i <= n,
    ensures
        pow10(i) <= pow10(n),
    decreases n,
{
    if i < n {
        lemma_pow10_le(i, (n - 1) as nat);
    }
}

fn pow10_exec(n: u32) -> (r: u64)
    requires
        n <= 19,
    ensures
        r as nat == pow10(n as nat),
        r >= 1,
        r <= 10_000_000_000_000_000_000,
{
    let mut r: u64 = 1;
    let mut i: u32 = 0;
    proof {
        reveal_with_fuel(pow10, 20);
    }
    while i < n
        invariant
            i <= n <= 19,
            r as nat == pow10(i as nat),
            pow10(19) == 10_000_000_000_000_000_000,
        decreases n - i,
    {
        proof {
            lemma_pow10_le(i as nat + 1, 19);
        }
        r = r * 10;
        i += 1;
    }
    proof {
        lemma_pow10_le(n as nat, 19);
        lemma_pow10_pos(n as nat);
    }
    r
}

/// Each octave-4 frequency is above 261 Hz.
proof fn lemma_octave4_floor(s: int)
    requires
        0 <= s < 12,
    ensures
        octave4(s).0 >= 261 * pow2(octave4(s).1),
        octave4(s).0 < 0x20_0000_0000_0000,
        octave4(s).1 <= 44,
{
    lemma2_to64();
    lemma2_to64_rest();
}

/// From octave 13 up every note is above 133 kHz, far too high for the
/// routine's smallest delay constant.
proof fn lemma_high_octave_unplayable(semitone: u8, octave: u8)
    requires
        octave >= 13,
    ensures
        c_for_ratio(note_ratio(semitone, octave).0, note_ratio(semitone, octave).1) is None,
{
    let (n, k) = octave4((semitone % 12) as int);
    lemma_octave4_floor((semitone % 12) as int);
    let p = pow2((octave - 4) as nat);
    let d = pow2(k);
    lemma2_to64();
    if octave > 13 {
        lemma_pow2_strictly_increases(9, (octave - 4) as nat);
    }
    lemma_pow2_pos(k);
    assert(3_500_000 * d < 76 * (n * p)) by (nonlinear_arith)
        requires
            n >= 261 * d,
            p >= 512,
            d >= 1,
    ;
}

/// `c_for_ratio` on values small enough for 128-bit arithmetic.
fn c_for_ratio_exec(num: u64, den: u64) -> (r: Option<u8>)
    ensures
        r == c_for_ratio(num as int, den as int),
{
    if num == 0 {
        return None;
    }
    let num = num as u128;
    let den = den as u128;
    let scaled: u128 = 3_500_000 * den;
    let overhead: u128 = 44 * num;
    if scaled < overhead {
        return None;
    }
    let top = scaled - overhead;
    let d: u128 = 32 * num;
    let lim: u128 = 256 * d;
    assert(lim as int == 256 * 32 * num) by (nonlinear_arith)
        requires lim == 256 * d, d == 32 * num;
    if top < d || top >= lim {
        return None;
    }
    let q = top / d;
    proof {
        assert(q < 256) by (nonlinear_arith)
            requires
                q as int == top as int / d as int,
                top < 256 * d,
                d > 0,
        ;
    }
    Some(q as u8)
}

/// The delay constant for a pitch, or the out-of-range error naming it.
pub fn c_for_pitch(pitch: &Pitch) -> (r: Result<u8, ResolveError>)
    ensures
        match r {
            Ok(c) => pitch_c(pitch@) == Some(c),
            Err(e) => pitch_c(pitch@) is None && e@ == (ResolveErrorView::PitchOutOfRange {
                pitch: pitch_label(pitch@),
            }),
        },
{
    let c = match pitch {
        Pitch::Note { semitone, octave, .. } => {
            let (n, k) = octave4_exec(*semitone % 12);
            proof {
                lemma2_to64();
                lemma2_to64_rest();
            }
            if *octave >= 13 {
                proof {
                    lemma_high_octave_unplayable(*semitone, *octave);
                }
                None
            } else if *octave >= 4 {
                let m = pow2_exec((*octave - 4) as u32);
                assert(m <= 256) by {
                    if *octave - 4 < 8 {
                        lemma_pow2_strictly_increases((*octave - 4) as nat, 8);
                    }
                }
                assert(n * m <= 0x20_0000_0000_0000 * 256) by (nonlinear_arith)
                    requires n < 0x20_0000_0000_0000, m <= 256;
                let num = n * m;
                let den = pow2_exec(k);
                c_for_ratio_exec(num, den)
            } else {
                let a = pow2_exec(k);
                let b = pow2_exec((4 - *octave) as u32);
                assert(a <= 0x1000_0000_0000) by {
                    if k < 44 {
                        lemma_pow2_strictly_increases(k as nat, 44);
                    }
                }
                assert(b <= 16) by {
                    if 4 - *octave < 4 {
                        lemma_pow2_strictly_increases((4 - *octave) as nat, 4);
                    }
                }
                assert(a * b <= 0x1000_0000_0000 * 16) by (nonlinear_arith)
                    requires a <= 0x1000_0000_0000, b <= 16;
                let den = a * b;
                c_for_ratio_exec(n, den)
            }
        },
        Pitch::Hz(v) => {
            proof {
                use_type_invariant(v);
            }
            if v.negative {
                None
            } else {
                c_for_ratio_exec(v.mantissa, pow10_exec(v.scale))
            }
        },
    };
    match c {
        Some(c) => Ok(c),
        None => Err(ResolveError::PitchOutOfRange { pitch: pitch.label() }),
    }
}

// --- Labels ----------------------------------------------------------------------

/// `scale` decimal digits of `r` (with leading zeros).
pub open spec fn fixed_digits(r: nat, scale: nat) -> Seq<char>
    decreases scale,
{
    if scale == 0 {
        seq![]
    } else {
        fixed_digits(r / 10, (scale - 1) as nat).push((('0' as u32) + (r % 10)) as char)
    }
}

/// The characters without their trailing zeros.
pub open spec fn strip_trailing_zeros(s: Seq<char>) -> Seq<char>
    decreases s.len(),
{
    if s.len() > 0 && s.last() == '0' {
        strip_trailing_zeros(s.drop_last())
    } else {
        s
    }
}

/// A frequency's shortest decimal form: no leading zeros in the whole part,
/// no trailing zeros after the point, and no point when nothing follows it.
pub open spec fn hz_text(v: HzView) -> Seq<char> {
    let p = pow10(v.scale as nat);
    let frac = strip_trailing_zeros(fixed_digits((v.mantissa as nat) % p, v.scale as nat));
    (if v.negative {
        seq!['-']
    } else {
        seq![]
    }) + decimal((v.mantissa as nat) / p) + if frac.len() == 0 {
        Seq::<char>::empty()
    } else {
        seq!['.'] + frac
    }
}

/// The spelling of a pitch for comments and error messages.
pub open spec fn pitch_label(p: PitchView) -> Seq<char> {
    match p {
        PitchView::Note { spelling, .. } => spelling,
        PitchView::Hz(v) => hz_text(v) + "hz"@,
    }
}

fn push_fixed_digits(out: &mut Vec<char>, r: u64, scale: u32)
    ensures
        final(out)@ == old(out)@ + fixed_digits(r as nat, scale as nat),
    decreases scale,
{
    if scale > 0 {
        push_fixed_digits(out, r / 10, scale - 1);
        out.push((48u8 + ((r % 10) as u8)) as char);
        assert(final(out)@ =~= old(out)@ + fixed_digits(r as nat, scale as nat));
    }
}

fn pop_trailing_zeros(s: &mut Vec<char>, from: usize)
    requires
        from <= old(s)@.len(),
    ensures
        final(s)@ == old(s)@.take(from as int) + strip_trailing_zeros(
            old(s)@.skip(from as int),
        ),
{
    let ghost start = s@;
    assert(start.skip(from as int) =~= start.subrange(from as int, start.len() as int));
    while s.len() > from && s[s.len() - 1] == '0'
        invariant
            from <= s@.len() <= start.len(),
            s@ == start.take(s@.len() as int),
            strip_trailing_zeros(start.skip(from as int)) == strip_trailing_zeros(
                s@.skip(from as int),
            ),
        decreases s@.len(),
    {
        let ghost before = s@;
        s.pop();
        assert(before.skip(from as int).drop_last() =~= s@.skip(from as int));
        assert(s@ =~= start.take(s@.len() as int));
    }
    assert(s@ =~= start.take(from as int) + s@.skip(from as int));
}

/// A frequency's shortest decimal form, as characters.
fn hz_chars(v: &HzValue) -> (out: Vec<char>)
    ensures
        out@ == hz_text(v@),
{
    proof {
        use_type_invariant(v);
    }
    let mut out: Vec<char> = Vec::new();
    if v.negative {
        out.push('-');
    }
    let ghost sign = out@;
    let p = pow10_exec(v.scale);
    let whole = v.mantissa / p;
    let rest = v.mantissa % p;
    push_decimal(&mut out, whole);
    let ghost head = out@;
    let mark = out.len();
    push_fixed_digits(&mut out, rest, v.scale);
    let ghost before = out@;
    pop_trailing_zeros(&mut out, mark);
    let ghost fixed = fixed_digits(rest as nat, v.scale as nat);
    let ghost frac = strip_trailing_zeros(fixed);
    assert(before.take(mark as int) =~= head);
    assert(before.skip(mark as int) =~= fixed);
    assert(out@ == head + frac);
    if out.len() > mark {
        out.insert(mark, '.');
        assert(out@ =~= head + (seq!['.'] + frac));
    } else {
        assert(frac.len() == 0);
        assert(out@ =~= head + Seq::<char>::empty());
    }
    out
}

impl Pitch {
    /// The spelling for comments and error messages: a note's spelling as
    /// written, or a frequency's shortest decimal form followed by `hz`.
    pub fn label(&self) -> (s: String)
        ensures
            s@ == pitch_label(self@),
    {
        match self {
            Pitch::Note { spelling, .. } => spelling.clone(),
            Pitch::Hz(v) => {
                let mut out = hz_chars(v);
                push_str(&mut out, "hz");
                string_of(out.as_slice())
            },
        }
    }
}

// --- Events and phrases -----------------------------------------------------------

/// One notation event.
#[derive(Clone, Debug, PartialEq)]
pub enum Event {
    /// A tone: `B` cycles of the square wave at delay constant `C`.
    Note {
        /// Pitch specification as written (note name or raw Hz).
        pitch: Pitch,
        /// Requested duration.
        duration: Duration,
        /// Comment after the event, carried to the emitted `ld b` line.
        comment: Option<String>,
    },
    /// Silence: `frames` frames of `HALT`.
    Rest {
        /// Number of 50 Hz frames.
        frames: u8,
        /// Comment after the event.
        comment: Option<String>,
    },
}

/// One phrase: a named sequence of notes and rests.
#[derive(Clone, Debug, PartialEq)]
pub struct Phrase {
    /// Label the emitted block carries.
    pub name: String,
    /// Comment on the `phrase` line, carried to the label line.
    pub comment: Option<String>,
    /// The events, in playing order.
    pub events: Vec<Event>,
}

/// An optional comment's characters.
pub open spec fn comment_view(c: Option<String>) -> Option<Seq<char>> {
    match c {
        Some(s) => Some(s@),
        None => None,
    }
}

/// The mathematical value of an [`Event`].
pub enum EventView {
    Note { pitch: PitchView, duration: Duration, comment: Option<Seq<char>> },
    Rest { frames: u8, comment: Option<Seq<char>> },
}

impl View for Event {
    type V = EventView;

    open spec fn view(&self) -> EventView {
        match self {
            Event::Note { pitch, duration, comment } => EventView::Note {
                pitch: pitch@,
                duration: *duration,
                comment: comment_view(*comment),
            },
            Event::Rest { frames, comment } => EventView::Rest {
                frames: *frames,
                comment: comment_view(*comment),
            },
        }
    }
}

/// The mathematical value of a [`Phrase`].
pub struct PhraseView {
    pub name: Seq<char>,
    pub comment: Option<Seq<char>>,
    pub events: Seq<EventView>,
}

/// The events of a phrase, by value.
pub open spec fn events_view(events: Seq<Event>) -> Seq<EventView> {
    events.map_values(|e: Event| e@)
}

impl View for Phrase {
    type V = PhraseView;

    open spec fn view(&self) -> PhraseView {
        PhraseView {
            name: self.name@,
            comment: comment_view(self.comment),
            events: events_view(self.events@),
        }
    }
}

/// Phrases, by value.
pub open spec fn phrases_view(phrases: Seq<Phrase>) -> Seq<PhraseView> {
    phrases.map_values(|p: Phrase| p@)
}

// --- The timing model ----------------------------------------------------------------

/// T-states of one full period for a delay constant: `32*C + 44`.
pub open spec fn period_t(c: int) -> int {
    32 * c + 44
}

/// T-states of one full period for a delay constant.
pub fn period_tstates(c: u8) -> (t: u64)
    ensures
        t == period_t(c as int),
{
    TSTATES_PER_LOOP_PAIR * (c as u64) + PERIOD_OVERHEAD_T
}

/// The number of full periods a duration asks for at a given period length:
/// exact for `Periods`; for `Millis`, the nearest whole number of periods
/// (halves round up), held at `u32::MAX`.
pub open spec fn duration_periods(d: Duration, period: int) -> int {
    match d {
        Duration::Periods(p) => p as int,
        Duration::Millis(ms) => {
            let q = (ms * 3500 + period / 2) / period;
            if q > u32::MAX {
                u32::MAX as int
            } else {
                q
            }
        },
    }
}

/// What resolving a note gives: its delay constant, its period count, and
/// the period's T-state costs; or the error that stops it.
pub open spec fn resolve_spec(p: PitchView, d: Duration) -> Result<ResolvedNote, ResolveErrorView> {
    match pitch_c(p) {
        None => Err(ResolveErrorView::PitchOutOfRange { pitch: pitch_label(p) }),
        Some(c) => {
            let n = duration_periods(d, period_t(c as int));
            if n == 0 {
                Err(ResolveErrorView::DurationTooShort)
            } else {
                Ok(
                    ResolvedNote {
                        c,
                        periods: n as u32,
                        period_t: period_t(c as int) as u64,
                        first_half_t: (16 * c + 17) as u64,
                    },
                )
            }
        },
    }
}

/// Resolve a note event against the model.
pub fn resolve_note(pitch: &Pitch, duration: Duration) -> (r: Result<ResolvedNote, ResolveError>)
    ensures
        match (r, resolve_spec(pitch@, duration)) {
            (Ok(a), Ok(b)) => a == b,
            (Err(e), Err(f)) => e@ == f,
            _ => false,
        },
{
    let c = match c_for_pitch(pitch) {
        Ok(c) => c,
        Err(e) => return Err(e),
    };
    let period = period_tstates(c);
    let periods: u32 = match duration {
        Duration::Periods(p) => p,
        Duration::Millis(ms) => {
            let per_ms: u64 = TSTATES_PER_SECOND / 1000;
            assert(per_ms == 3500);
            let t = (ms as u64) * per_ms;
            let q = (t + period / 2) / period;
            if q > u32::MAX as u64 {
                u32::MAX
            } else {
                q as u32
            }
        },
    };
    if periods == 0 {
        return Err(ResolveError::DurationTooShort);
    }
    Ok(
        ResolvedNote {
            c,
            periods,
            period_t: period,
            first_half_t: (TSTATES_PER_LOOP_PAIR / 2) * (c as u64) + FIRST_HALF_OVERHEAD_T,
        },
    )
}

/// The routine's `B` loads for a period count: as many 255s as fit while
/// more than 255 remain, then what is left (nothing when that is zero).
pub open spec fn chunks(periods: nat) -> Seq<u8>
    decreases periods,
{
    if periods > 255 {
        seq![255u8] + chunks((periods - 255) as nat)
    } else if periods > 0 {
        seq![periods as u8]
    } else {
        seq![]
    }
}

/// The sum of a sequence of loads.
pub open spec fn load_sum(s: Seq<u8>) -> int
    decreases s.len(),
{
    if s.len() == 0 {
        0
    } else {
        s[0] + load_sum(s.drop_first())
    }
}

/// Chunking loses no period and makes only loads the routine accepts (1-255).
pub proof fn lemma_chunks_sum_and_range(periods: nat)
    ensures
        load_sum(chunks(periods)) == periods,
        forall|i: int| 0 <= i < chunks(periods).len() ==> 1 <= #[trigger] chunks(periods)[i] <= 255,
        chunks(periods).len() == (periods + 254) / 255,
    decreases periods,
{
    if periods > 255 {
        lemma_chunks_sum_and_range((periods - 255) as nat);
        let rest = chunks((periods - 255) as nat);
        assert(chunks(periods) == seq![255u8] + rest);
        assert((seq![255u8] + rest).drop_first() =~= rest);
        assert(load_sum(seq![255u8] + rest) == 255 + load_sum(rest));
        assert forall|i: int| 0 <= i < chunks(periods).len() implies 1 <= #[trigger] chunks(
            periods,
        )[i] <= 255 by {
            if i > 0 {
                assert(chunks(periods)[i] == rest[i - 1]);
            }
        }
    } else if periods > 0 {
        assert(seq![periods as u8].drop_first() =~= Seq::<u8>::empty());
        assert(load_sum(Seq::<u8>::empty()) == 0);
    } else {
        assert(load_sum(Seq::<u8>::empty()) == 0);
    }
}

/// Split a period count into the routine's `B` loads (1-255 each, greedy).
pub fn chunk_periods(periods: u32) -> (v: Vec<u8>)
    ensures
        v@ == chunks(periods as nat),
{
    let mut v: Vec<u8> = Vec::new();
    let mut left = periods;
    while left > 255
        invariant
            left <= periods,
            v@ + chunks(left as nat) == chunks(periods as nat),
        decreases left,
    {
        let ghost before = v@;
        v.push(255);
        assert(chunks(left as nat) == seq![255u8] + chunks((left - 255) as nat));
        assert(v@ + chunks((left - 255) as nat) =~= before + chunks(left as nat));
        left = left - 255;
    }
    if left > 0 {
        v.push(left as u8);
    }
    assert(v@ =~= chunks(periods as nat));
    v
}

} // verus!
