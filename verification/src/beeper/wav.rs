//! Square-wave preview synthesis: the audition half of the converter.
//!
//! Renders a phrase to mono 16-bit 44.1 kHz PCM by walking the same T-state
//! model the assembly emitter uses: each note is `periods` full cycles of
//! `32*C + 44` T-states (speaker high for the first `16*C + 17`), each rest
//! is `frames * 69,888` T-states of silence. Synthesis is integer-only, so
//! the output is the same on every platform.
use vstd::prelude::*;

use vstd::arithmetic::div_mod::lemma_div_is_ordered;

use crate::beeper::{
    events_view, resolve_note, resolve_spec, Event, EventView, Phrase, PhraseView, ResolveError,
    ResolveErrorView, TSTATES_PER_FRAME, TSTATES_PER_SECOND,
};

verus! {

/// Preview sample rate in Hz.
pub const SAMPLE_RATE: u32 = 44_100;

/// Square-wave amplitude (plus or minus) in 16-bit PCM, about 0.35 of full
/// scale.
pub const AMPLITUDE: i16 = 11_468;

/// The low level of the square wave.
pub const LOW: i16 = -11_468;

/// What sounds during one stretch of the timeline.
#[derive(Clone, Copy, Debug, PartialEq, Eq)]
pub enum Segment {
    /// A tone: full-period and first-half lengths in T-states.
    Tone {
        /// T-states of one full period.
        period_t: u64,
        /// T-states of the speaker-high first half.
        first_half_t: u64,
    },
    /// Silence.
    Silence,
}

/// The timeline read so far: its spans `(start, end, segment)` in T-states,
/// the time at which it ends, and the error that stopped it, if any.
pub struct Timeline {
    pub spans: Seq<(int, int, Segment)>,
    pub t: int,
    pub err: Option<ResolveErrorView>,
}

/// How long an event lasts, in T-states, and what sounds; or the error
/// resolving it.
pub open spec fn event_span(e: EventView) -> Result<(int, Segment), ResolveErrorView> {
    match e {
        EventView::Note { pitch, duration, .. } => match resolve_spec(pitch, duration) {
            Err(x) => Err(x),
            Ok(n) => Ok(
                (
                    n.period_t * n.periods,
                    Segment::Tone { period_t: n.period_t, first_half_t: n.first_half_t },
                ),
            ),
        },
        EventView::Rest { frames, .. } => Ok((69_888 * frames, Segment::Silence)),
    }
}

/// The timeline after one more event (unchanged once an error has stopped
/// it).
pub open spec fn step(s: Timeline, e: EventView) -> Timeline {
    if s.err is Some {
        s
    } else {
        match event_span(e) {
            Err(x) => Timeline { spans: s.spans, t: s.t, err: Some(x) },
            Ok((len, k)) => Timeline {
                spans: s.spans.push((s.t, s.t + len, k)),
                t: s.t + len,
                err: None,
            },
        }
    }
}

/// The timeline after the first `n` events.
pub open spec fn run(s: Timeline, evs: Seq<EventView>, n: nat) -> Timeline
    decreases n,
{
    if n == 0 {
        s
    } else {
        step(run(s, evs, (n - 1) as nat), evs[n - 1])
    }
}

/// The timeline of the events played `r` times back to back.
pub open spec fn reps(evs: Seq<EventView>, r: nat) -> Timeline
    decreases r,
{
    if r == 0 {
        Timeline { spans: seq![], t: 0, err: None }
    } else {
        run(reps(evs, (r - 1) as nat), evs, evs.len())
    }
}

/// The index of the first span still sounding at time `t`, looking from
/// span `j` on (the number of spans when none is).
pub open spec fn seg_from(spans: Seq<(int, int, Segment)>, j: int, t: int) -> int
    decreases spans.len() - j,
{
    if 0 <= j < spans.len() {
        if spans[j].1 > t {
            j
        } else {
            seg_from(spans, j + 1, t)
        }
    } else {
        spans.len() as int
    }
}

/// The sample at time `t`: high for the first part of each period of a
/// tone, low for the rest, silent in rests and after the end.
pub open spec fn sample_at(spans: Seq<(int, int, Segment)>, t: int) -> i16 {
    let j = seg_from(spans, 0, t);
    if 0 <= j < spans.len() {
        match spans[j].2 {
            Segment::Tone { period_t, first_half_t } => if (t - spans[j].0) % (period_t as int)
                < first_half_t {
                AMPLITUDE
            } else {
                LOW
            },
            Segment::Silence => 0,
        }
    } else {
        0
    }
}

/// The T-state time of sample `i` (rounded down).
pub open spec fn sample_time(i: int) -> int {
    i * 3_500_000 / 44_100
}

/// How many samples cover `t` T-states (rounded up).
pub open spec fn sample_count(t: int) -> int {
    (t * 44_100 + 3_499_999) / 3_500_000
}

/// The samples of a timeline that ends at `t`.
pub open spec fn pcm_spec(spans: Seq<(int, int, Segment)>, t: int) -> Seq<i16> {
    Seq::new(sample_count(t) as nat, |i: int| sample_at(spans, sample_time(i)))
}

/// A 16-bit value, little-endian.
pub open spec fn le16(v: int) -> Seq<u8> {
    seq![(v % 256) as u8, ((v / 256) % 256) as u8]
}

/// A 32-bit value, little-endian.
pub open spec fn le32(v: int) -> Seq<u8> {
    seq![(v % 256) as u8, ((v / 256) % 256) as u8, ((v / 65536) % 256) as u8, ((v / 16777216) % 256) as u8]
}

/// A sample's two bytes (two's complement, little-endian).
pub open spec fn sample_bytes(s: i16) -> Seq<u8> {
    le16(
        if s < 0 {
            s + 65536
        } else {
            s as int
        },
    )
}

/// The bytes of the samples, in order.
pub open spec fn pcm_bytes(samples: Seq<i16>) -> Seq<u8>
    decreases samples.len(),
{
    if samples.len() == 0 {
        seq![]
    } else {
        pcm_bytes(samples.drop_last()) + sample_bytes(samples.last())
    }
}

/// The RIFF/WAVE header for `n` bytes of PCM (mono, 16-bit, 44.1 kHz).
pub open spec fn wav_header(n: int) -> Seq<u8> {
    seq![0x52u8, 0x49, 0x46, 0x46] + le32(36 + n) + seq![0x57u8, 0x41, 0x56, 0x45]
        + seq![0x66u8, 0x6d, 0x74, 0x20] + le32(16) + le16(1) + le16(1) + le32(44_100) + le32(
        88_200,
    ) + le16(2) + le16(16) + seq![0x64u8, 0x61, 0x74, 0x61] + le32(n)
}

/// A minimal RIFF/WAVE file holding the samples.
pub open spec fn wav_spec(samples: Seq<i16>) -> Seq<u8> {
    wav_header(2 * samples.len() as int) + pcm_bytes(samples)
}

/// The little-endian 16-bit value at byte `k`.
pub open spec fn read_le16(b: Seq<u8>, k: int) -> int {
    b[k] as int + 256 * b[k + 1] as int
}

/// The little-endian 32-bit value at byte `k`.
pub open spec fn read_le32(b: Seq<u8>, k: int) -> int {
    b[k] as int + 256 * b[k + 1] as int + 65536 * b[k + 2] as int + 16777216 * b[k + 3] as int
}

/// The WAV header describes the samples it holds: uncompressed PCM, one
/// channel of 16-bit samples (two bytes a frame), at the rate the samples
/// are taken at. Sample `i` is the signal at T-state `i * 3,500,000 /
/// rate`, the byte rate is twice the rate, and `t` T-states take
/// `ceil(t * rate / 3,500,000)` samples.
pub proof fn lemma_wav_header_matches_the_samples(samples: Seq<i16>)
    ensures
        ({
            let w = wav_spec(samples);
            let rate = read_le32(w, 24);
            &&& w.len() >= 44
            &&& read_le16(w, 20) == 1
            &&& read_le16(w, 22) == 1
            &&& rate == SAMPLE_RATE
            &&& read_le32(w, 28) == 2 * rate
            &&& read_le16(w, 32) == 2
            &&& read_le16(w, 34) == 16
            &&& forall|i: int| i >= 0 ==> #[trigger] sample_time(i) == i * 3_500_000 / rate
            &&& forall|t: int| t >= 0 ==> #[trigger] sample_count(t) == (t * rate + 3_499_999) / 3_500_000
        }),
{
    let n = 2 * samples.len() as int;
    let h = wav_header(n);
    let w = wav_spec(samples);
    assert(h.len() == 44);
    assert(w.take(44) =~= h);
    assert(h[20] == 1 && h[21] == 0 && h[22] == 1 && h[23] == 0);
    assert(h[24] == 0x44 && h[25] == 0xAC && h[26] == 0 && h[27] == 0);
    assert(h[28] == 0x88 && h[29] == 0x58 && h[30] == 0x01 && h[31] == 0);
    assert(h[32] == 2 && h[33] == 0 && h[34] == 16 && h[35] == 0);
    assert(w[20] == h[20] && w[21] == h[21] && w[22] == h[22] && w[23] == h[23]);
    assert(w[24] == h[24] && w[25] == h[25] && w[26] == h[26] && w[27] == h[27]);
    assert(w[28] == h[28] && w[29] == h[29] && w[30] == h[30] && w[31] == h[31]);
    assert(w[32] == h[32] && w[33] == h[33] && w[34] == h[34] && w[35] == h[35]);
}

/// A rendered preview holds the phrase's signal sampled at the rate its
/// header declares: sample `i` is the signal at T-state
/// `i * 3,500,000 / rate`, and the header's rate is the library's
/// `SAMPLE_RATE` with a byte rate of twice that.
pub proof fn lemma_rendered_preview_plays_at_its_header_rate(p: PhraseView, repeats: nat)
    requires
        render_spec(p, repeats) is Ok,
    ensures
        ({
            let w = render_spec(p, repeats)->Ok_0;
            let tl = reps(p.events, repeats);
            let pcm = pcm_spec(tl.spans, tl.t);
            let rate = read_le32(w, 24);
            &&& rate == SAMPLE_RATE
            &&& read_le32(w, 28) == 2 * rate
            &&& forall|i: int|
                0 <= i < pcm.len() ==> #[trigger] pcm[i] == sample_at(tl.spans, i * 3_500_000 / rate)
        }),
{
    let tl = reps(p.events, repeats);
    lemma_wav_header_matches_the_samples(pcm_spec(tl.spans, tl.t));
}

/// The preview of a phrase played `repeats` times, or the first event's
/// error.
pub open spec fn render_spec(p: PhraseView, repeats: nat) -> Result<Seq<u8>, ResolveErrorView> {
    let tl = reps(p.events, repeats);
    match tl.err {
        Some(x) => Err(x),
        None => Ok(wav_spec(pcm_spec(tl.spans, tl.t))),
    }
}

/// The preview's sizes fit its fields: the timeline's length in T-states
/// fits 64 bits, and the file's length fits the header's 32-bit field.
pub open spec fn render_fits(p: PhraseView, repeats: nat) -> bool {
    let tl = reps(p.events, repeats);
    match tl.err {
        Some(_) => tl.t <= u64::MAX,
        None => 2 * sample_count(tl.t) + 36 <= u32::MAX,
    }
}

proof fn lemma_span_nonneg(e: EventView)
    ensures
        event_span(e) matches Ok((len, _)) ==> len >= 0,
{
}

proof fn lemma_run_grows(s: Timeline, evs: Seq<EventView>, m: nat, n: nat)
    requires
        m <= n,
    ensures
        run(s, evs, m).t <= run(s, evs, n).t,
    decreases n,
{
    if m < n {
        lemma_run_grows(s, evs, m, (n - 1) as nat);
        lemma_span_nonneg(evs[n - 1]);
    }
}

proof fn lemma_reps_grows(evs: Seq<EventView>, a: nat, b: nat)
    requires
        a <= b,
    ensures
        reps(evs, a).t <= reps(evs, b).t,
    decreases b,
{
    if a < b {
        lemma_reps_grows(evs, a, (b - 1) as nat);
        lemma_run_grows(reps(evs, (b - 1) as nat), evs, 0, evs.len());
    }
}

proof fn lemma_run_err_stays(s: Timeline, evs: Seq<EventView>, m: nat, n: nat)
    requires
        m <= n,
        run(s, evs, m).err is Some,
    ensures
        run(s, evs, n) == run(s, evs, m),
    decreases n,
{
    if m < n {
        lemma_run_err_stays(s, evs, m, (n - 1) as nat);
    }
}

proof fn lemma_reps_err_stays(evs: Seq<EventView>, a: nat, b: nat)
    requires
        a <= b,
        reps(evs, a).err is Some,
    ensures
        reps(evs, b) == reps(evs, a),
    decreases b,
{
    if a < b {
        lemma_reps_err_stays(evs, a, (b - 1) as nat);
        lemma_run_err_stays(reps(evs, (b - 1) as nat), evs, 0, evs.len());
    }
}

/// Looking from a span that every earlier span has already ended by `t`
/// finds the same span as looking from the first.
proof fn lemma_seg_from_skip(spans: Seq<(int, int, Segment)>, i: int, c: int, t: int)
    requires
        0 <= i <= c <= spans.len(),
        forall|k: int| 0 <= k < c ==> #[trigger] spans[k].1 <= t,
    ensures
        seg_from(spans, i, t) == seg_from(spans, c, t),
    decreases c - i,
{
    if i < c {
        lemma_seg_from_skip(spans, i + 1, c, t);
    }
}

/// The exec spans agree with the spec spans.
spec fn spans_match(segs: Seq<(u64, u64, Segment)>, spans: Seq<(int, int, Segment)>) -> bool {
    &&& segs.len() == spans.len()
    &&& forall|k: int|
        0 <= k < segs.len() ==> (#[trigger] segs[k]).0 == spans[k].0 && segs[k].1 == spans[k].1
            && segs[k].2 == spans[k].2
}

/// Spans follow one another from time zero up to `t`, and every tone has a
/// nonzero period.
spec fn spans_wf(segs: Seq<(u64, u64, Segment)>, t: u64) -> bool {
    &&& forall|k: int| 0 < k < segs.len() ==> (#[trigger] segs[k]).0 == segs[k - 1].1
    &&& segs.len() > 0 ==> segs[0].0 == 0
    &&& forall|k: int| 0 <= k < segs.len() ==> (#[trigger] segs[k]).0 <= segs[k].1
    &&& forall|k: int|
        0 <= k < segs.len() ==> ((#[trigger] segs[k]).2 matches Segment::Tone { period_t, .. }
            ==> period_t > 0)
    &&& (if segs.len() > 0 {
        segs.last().1 == t
    } else {
        t == 0
    })
}

/// Add one event's span to the timeline.
fn push_span(segs: &mut Vec<(u64, u64, Segment)>, t: u64, e: &Event, Ghost(s): Ghost<Timeline>, Ghost(limit): Ghost<int>) -> (r: Result<u64, ResolveError>)
    requires
        s.err is None,
        s.t == t,
        spans_match(old(segs)@, s.spans),
        spans_wf(old(segs)@, t),
        step(s, e@).t <= limit,
        limit <= u64::MAX,
    ensures
        match r {
            Ok(t2) => step(s, e@).err is None && step(s, e@).t == t2 && spans_match(
                final(segs)@,
                step(s, e@).spans,
            ) && spans_wf(final(segs)@, t2),
            Err(x) => step(s, e@).err == Some(x@),
        },
{
    match e {
        Event::Note { pitch, duration, .. } => {
            let note = match resolve_note(pitch, *duration) {
                Ok(n) => n,
                Err(x) => return Err(x),
            };
            assert(note.period_t * note.periods <= limit - t) by (nonlinear_arith)
                requires
                    t + note.period_t * note.periods <= limit,
            ;
            let len = note.period_t * (note.periods as u64);
            let ghost before = segs@;
            segs.push(
                (t, t + len, Segment::Tone { period_t: note.period_t, first_half_t: note.first_half_t }),
            );
            assert(segs@.last() == segs@[segs@.len() - 1]);
            assert forall|k: int| 0 < k < segs@.len() implies (#[trigger] segs@[k]).0 == segs@[k - 1].1 by {
                if k < before.len() {
                    assert(segs@[k] == before[k]);
                }
            }
            Ok(t + len)
        },
        Event::Rest { frames, .. } => {
            let len = TSTATES_PER_FRAME * (*frames as u64);
            let ghost before = segs@;
            segs.push((t, t + len, Segment::Silence));
            assert forall|k: int| 0 < k < segs@.len() implies (#[trigger] segs@[k]).0 == segs@[k - 1].1 by {
                if k < before.len() {
                    assert(segs@[k] == before[k]);
                }
            }
            Ok(t + len)
        },
    }
}

/// The span the scan stopped at is the first one still sounding at `st`,
/// it started by then, and a tone there has a nonzero period.
proof fn lemma_current_span(
    segs: Seq<(u64, u64, Segment)>,
    spans: Seq<(int, int, Segment)>,
    t: u64,
    current: int,
    st: int,
)
    requires
        spans_match(segs, spans),
        spans_wf(segs, t),
        0 <= current <= segs.len(),
        0 <= st,
        forall|k: int| 0 <= k < current ==> #[trigger] segs[k].1 <= st,
        current < segs.len() ==> segs[current].1 > st,
    ensures
        seg_from(spans, 0, st) == current,
        current < segs.len() ==> segs[current].0 <= st,
        current < segs.len() ==> (segs[current].2 matches Segment::Tone { period_t, .. }
            ==> period_t > 0),
{
    assert forall|k: int| 0 <= k < current implies #[trigger] spans[k].1 <= st by {
        assert(segs[k].1 == spans[k].1);
    }
    lemma_seg_from_skip(spans, 0, current, st);
    if current < segs.len() {
        assert(segs[current].1 == spans[current].1);
        assert(seg_from(spans, current, st) == current);
        if current > 0 {
            assert(segs[current].0 == segs[current - 1].1);
            assert(segs[current - 1].1 <= st);
        }
    } else {
        assert(seg_from(spans, current, st) == spans.len());
    }
}

/// The sample at time `st`, given the first span still sounding then.
fn sample_value(
    segs: &Vec<(u64, u64, Segment)>,
    current: usize,
    st: u64,
    Ghost(spans): Ghost<Seq<(int, int, Segment)>>,
) -> (v: i16)
    requires
        spans_match(segs@, spans),
        current <= segs@.len(),
        seg_from(spans, 0, st as int) == current,
        current < segs@.len() ==> segs@[current as int].0 <= st,
        current < segs@.len() ==> (segs@[current as int].2 matches Segment::Tone { period_t, .. }
            ==> period_t > 0),
    ensures
        v == sample_at(spans, st as int),
{
    if current < segs.len() {
        let (start, _, seg) = segs[current];
        assert(spans[current as int] == (start as int, segs@[current as int].1 as int, seg));
        match seg {
            Segment::Tone { period_t, first_half_t } => {
                let phase = (st - start) % period_t;
                if phase < first_half_t {
                    AMPLITUDE
                } else {
                    LOW
                }
            },
            Segment::Silence => 0,
        }
    } else {
        0
    }
}

/// The samples of a timeline that ends at `t`.
fn synthesize(segs: &Vec<(u64, u64, Segment)>, t: u64, Ghost(spans): Ghost<Seq<(int, int, Segment)>>) -> (pcm: Vec<i16>)
    requires
        spans_match(segs@, spans),
        spans_wf(segs@, t),
        2 * sample_count(t as int) + 36 <= u32::MAX,
    ensures
        pcm@ == pcm_spec(spans, t as int),
{
    assert(t * 44_100 <= 8_000_000_000_000_000) by (nonlinear_arith)
        requires
            2 * ((t * 44_100 + 3_499_999) / 3_500_000) + 36 <= u32::MAX,
    ;
    let total: u64 = t * 44_100;
    let n: u64 = (total + 3_499_999) / 3_500_000;
    let mut pcm: Vec<i16> = Vec::new();
    let mut current: usize = 0;
    let mut i: u64 = 0;
    while i < n
        invariant
            spans_match(segs@, spans),
            spans_wf(segs@, t),
            n == sample_count(t as int),
            total == t * 44_100,
            total <= 8_000_000_000_000_000,
            i <= n,
            current <= segs@.len(),
            forall|k: int| 0 <= k < current ==> #[trigger] segs@[k].1 <= sample_time(i as int),
            pcm@ == Seq::new(i as nat, |k: int| sample_at(spans, sample_time(k))),
        decreases n - i,
    {
        assert(i * 3_500_000 <= total + 3_500_000) by (nonlinear_arith)
            requires
                i < n,
                n == (total + 3_499_999) / 3_500_000,
        ;
        let st: u64 = i * 3_500_000 / 44_100;
        while current < segs.len() && st >= segs[current].1
            invariant
                spans_match(segs@, spans),
                current <= segs@.len(),
                st == sample_time(i as int),
                forall|k: int| 0 <= k < current ==> #[trigger] segs@[k].1 <= st,
            decreases segs@.len() - current,
        {
            current += 1;
        }
        proof {
            lemma_current_span(segs@, spans, t, current as int, st as int);
        }
        let value = sample_value(segs, current, st, Ghost(spans));
        let ghost before = pcm@;
        pcm.push(value);
        proof {
            lemma_div_is_ordered(i * 3_500_000, (i + 1) * 3_500_000, 44_100);
            assert(pcm@ =~= Seq::new((i + 1) as nat, |k: int| sample_at(spans, sample_time(k))));
        }
        i += 1;
    }
    pcm
}

/// Append a 16-bit value, little-endian.
fn push_le16(out: &mut Vec<u8>, v: u16)
    ensures
        final(out)@ == old(out)@ + le16(v as int),
{
    out.push((v % 256) as u8);
    out.push((v / 256) as u8);
    assert(final(out)@ =~= old(out)@ + le16(v as int));
}

/// Append a 32-bit value, little-endian.
fn push_le32(out: &mut Vec<u8>, v: u32)
    ensures
        final(out)@ == old(out)@ + le32(v as int),
{
    out.push((v % 256) as u8);
    out.push(((v / 256) % 256) as u8);
    out.push(((v / 65536) % 256) as u8);
    out.push((v / 16777216) as u8);
    assert(final(out)@ =~= old(out)@ + le32(v as int));
}

fn push_bytes(out: &mut Vec<u8>, b0: u8, b1: u8, b2: u8, b3: u8)
    ensures
        final(out)@ == old(out)@ + seq![b0, b1, b2, b3],
{
    out.push(b0);
    out.push(b1);
    out.push(b2);
    out.push(b3);
    assert(final(out)@ =~= old(out)@ + seq![b0, b1, b2, b3]);
}

/// Wrap PCM samples in a minimal RIFF/WAVE container (PCM, mono, 16-bit).
pub fn encode_wav(samples: &[i16]) -> (out: Vec<u8>)
    requires
        2 * samples@.len() + 36 <= u32::MAX,
    ensures
        out@ == wav_spec(samples@),
{
    let data_len = (samples.len() * 2) as u32;
    let mut out: Vec<u8> = Vec::new();
    push_bytes(&mut out, 0x52, 0x49, 0x46, 0x46);
    push_le32(&mut out, 36 + data_len);
    push_bytes(&mut out, 0x57, 0x41, 0x56, 0x45);
    push_bytes(&mut out, 0x66, 0x6d, 0x74, 0x20);
    push_le32(&mut out, 16);
    push_le16(&mut out, 1);
    push_le16(&mut out, 1);
    push_le32(&mut out, SAMPLE_RATE);
    push_le32(&mut out, SAMPLE_RATE * 2);
    push_le16(&mut out, 2);
    push_le16(&mut out, 16);
    push_bytes(&mut out, 0x64, 0x61, 0x74, 0x61);
    push_le32(&mut out, data_len);
    let ghost head = out@;
    assert(head =~= wav_header(2 * samples@.len() as int));
    let mut i: usize = 0;
    while i < samples.len()
        invariant
            i <= samples@.len(),
            out@ == head + pcm_bytes(samples@.take(i as int)),
        decreases samples@.len() - i,
    {
        let s = samples[i];
        let code: u16 = if s < 0 {
            (s as i32 + 65536) as u16
        } else {
            s as u16
        };
        push_le16(&mut out, code);
        assert(samples@.take(i + 1).drop_last() =~= samples@.take(i as int));
        assert(out@ =~= head + pcm_bytes(samples@.take(i + 1)));
        i += 1;
    }
    assert(samples@.take(samples@.len() as int) =~= samples@);
    out
}

/// Render a phrase to WAV bytes.
pub fn render(phrase: &Phrase) -> (r: Result<Vec<u8>, ResolveError>)
    requires
        render_fits(phrase@, 1),
    ensures
        match render_spec(phrase@, 1) {
            Ok(bytes) => match r {
                Ok(v) => v@ == bytes,
                Err(_) => false,
            },
            Err(x) => match r {
                Err(f) => f@ == x,
                Ok(_) => false,
            },
        },
{
    render_repeated(phrase, 1)
}

/// Render a phrase played `repeats` times back to back (the loop-point
/// audition). The emitted assembly is always the single phrase.
pub fn render_repeated(phrase: &Phrase, repeats: u32) -> (r: Result<Vec<u8>, ResolveError>)
    requires
        render_fits(phrase@, repeats as nat),
    ensures
        match render_spec(phrase@, repeats as nat) {
            Ok(bytes) => match r {
                Ok(v) => v@ == bytes,
                Err(_) => false,
            },
            Err(x) => match r {
                Err(f) => f@ == x,
                Ok(_) => false,
            },
        },
{
    let ghost evs = events_view(phrase.events@);
    let ghost last = reps(evs, repeats as nat);
    let ghost limit: int = u64::MAX as int;
    proof {
        lemma_reps_grows(evs, 0, repeats as nat);
        if last.err is None {
            assert(last.t <= limit) by (nonlinear_arith)
                requires
                    2 * ((last.t * 44_100 + 3_499_999) / 3_500_000) + 36 <= u32::MAX,
                    last.t >= 0,
                    limit == u64::MAX,
            ;
        }
    }
    let mut segs: Vec<(u64, u64, Segment)> = Vec::new();
    let mut t: u64 = 0;
    let mut rep: u32 = 0;
    while rep < repeats
        invariant
            evs == events_view(phrase.events@),
            last == reps(evs, repeats as nat),
            last.t <= limit <= u64::MAX,
            rep <= repeats,
            reps(evs, rep as nat).err is None,
            reps(evs, rep as nat).t == t,
            spans_match(segs@, reps(evs, rep as nat).spans),
            spans_wf(segs@, t),
        decreases repeats - rep,
    {
        let ghost base = reps(evs, rep as nat);
        let mut j: usize = 0;
        while j < phrase.events.len()
            invariant
                evs == events_view(phrase.events@),
                last == reps(evs, repeats as nat),
                last.t <= limit <= u64::MAX,
                rep < repeats,
                base == reps(evs, rep as nat),
                j <= phrase.events@.len(),
                run(base, evs, j as nat).err is None,
                run(base, evs, j as nat).t == t,
                spans_match(segs@, run(base, evs, j as nat).spans),
                spans_wf(segs@, t),
            decreases phrase.events@.len() - j,
        {
            proof {
                lemma_run_grows(base, evs, (j + 1) as nat, evs.len());
                lemma_reps_grows(evs, (rep + 1) as nat, repeats as nat);
            }
            let r = push_span(&mut segs, t, &phrase.events[j], Ghost(run(base, evs, j as nat)), Ghost(limit));
            match r {
                Ok(t2) => {
                    t = t2;
                },
                Err(x) => {
                    proof {
                        lemma_run_err_stays(base, evs, (j + 1) as nat, evs.len());
                        lemma_reps_err_stays(evs, (rep + 1) as nat, repeats as nat);
                    }
                    return Err(x);
                },
            }
            j += 1;
        }
        rep += 1;
    }
    let pcm = synthesize(&segs, t, Ghost(last.spans));
    Ok(encode_wav(pcm.as_slice()))
}

/// How long an event lasts in T-states, or the error resolving it.
fn event_length(e: &Event) -> (r: Result<u128, ResolveError>)
    ensures
        match event_span(e@) {
            Ok((len, _)) => r == Ok::<u128, ResolveError>(len as u128) && 0 <= len
                < 0x1_0000_0000_0000_0000_0000_0000,
            Err(x) => r matches Err(f) && f@ == x,
        },
{
    match e {
        Event::Note { pitch, duration, .. } => match resolve_note(pitch, *duration) {
            Ok(n) => {
                assert(n.period_t * n.periods < 0x1_0000_0000_0000_0000_0000_0000) by (nonlinear_arith)
                    requires
                        n.period_t <= u64::MAX,
                        n.periods <= u32::MAX,
                ;
                Ok((n.period_t as u128) * (n.periods as u128))
            },
            Err(x) => Err(x),
        },
        Event::Rest { frames, .. } => Ok((TSTATES_PER_FRAME as u128) * (*frames as u128)),
    }
}

/// Whether a phrase played `repeats` times fits the preview's fields (see
/// [`render_fits`]): the check to make before [`render_repeated`].
pub fn render_fits_check(phrase: &Phrase, repeats: u32) -> (r: bool)
    ensures
        r == render_fits(phrase@, repeats as nat),
{
    let ghost evs = events_view(phrase.events@);
    let ghost last = reps(evs, repeats as nat);
    let ghost limit: int = u64::MAX as int;
    let mut t: u128 = 0;
    let mut rep: u32 = 0;
    while rep < repeats
        invariant
            evs == events_view(phrase.events@),
            last == reps(evs, repeats as nat),
            limit == u64::MAX,
            rep <= repeats,
            reps(evs, rep as nat).err is None,
            reps(evs, rep as nat).t == t,
            t <= limit,
        decreases repeats - rep,
    {
        let ghost base = reps(evs, rep as nat);
        let mut j: usize = 0;
        while j < phrase.events.len()
            invariant
                evs == events_view(phrase.events@),
                last == reps(evs, repeats as nat),
                limit == u64::MAX,
                rep < repeats,
                base == reps(evs, rep as nat),
                j <= phrase.events@.len(),
                run(base, evs, j as nat).err is None,
                run(base, evs, j as nat).t == t,
                t <= limit,
            decreases phrase.events@.len() - j,
        {
            assert(evs[j as int] == phrase.events@[j as int]@);
            match event_length(&phrase.events[j]) {
                Err(_) => {
                    proof {
                        lemma_run_err_stays(base, evs, (j + 1) as nat, evs.len());
                        lemma_reps_err_stays(evs, (rep + 1) as nat, repeats as nat);
                    }
                    return true;
                },
                Ok(len) => {
                    let t2 = t + len;
                    if t2 > u64::MAX as u128 {
                        proof {
                            lemma_run_grows(base, evs, (j + 1) as nat, evs.len());
                            lemma_reps_grows(evs, (rep + 1) as nat, repeats as nat);
                            if last.err is None {
                                assert(2 * sample_count(last.t) + 36 > u32::MAX) by (nonlinear_arith)
                                    requires
                                        last.t > u64::MAX,
                            ;
                            }
                        }
                        return false;
                    }
                    t = t2;
                },
            }
            j += 1;
        }
        rep += 1;
    }
    let samples: u128 = (t * 44_100 + 3_499_999) / 3_500_000;
    2 * samples + 36 <= u32::MAX as u128
}

} // verus!
