//! Assembly emission: the shipping half of the converter.
//!
//! Emits phrases in Gloaming's table-free idiom: a label line, then
//! straight-line `ld b / ld c / call beep` per note and `ld b / call rest` per
//! rest, with the final event tail-calling (`jp`). Notes longer than 255
//! periods chunk into consecutive `beep` calls.
//!
//! The `beep`/`rest` routines themselves are never emitted.
use vstd::prelude::*;

use crate::beeper::{
    chunk_periods, chunks, comment_view, pitch_label, resolve_note, resolve_spec, Event,
    EventView, Phrase, PhraseView, ResolveError, ResolveErrorView,
};
use crate::text::{
    contains, contains_chars, decimal, hex_upper_byte, pad_chars, pad_to, push_chars,
    push_decimal, push_hex_upper_byte, push_str, string_of,
};

verus! {

/// Column where comments start.
pub const COMMENT_COLUMN: usize = 36;

/// Instruction indent.
pub const INDENT: &'static str = "            ";

/// The comment on every chunk of a held note after the first.
pub const HELD_AGAIN: &'static str = "held \u{2014} B counts to 255, so sound it again";

/// One emitted routine call, before formatting.
pub enum StepView {
    Beep { b: u8, c: u8, remark: Seq<char> },
    Rest { frames: u8, comment: Option<Seq<char>> },
}

/// `text`, padded to the comment column and followed by `; comment` when
/// there is a comment.
pub open spec fn with_comment_spec(text: Seq<char>, comment: Option<Seq<char>>) -> Seq<char> {
    match comment {
        None => text,
        Some(c) => pad_to(text, COMMENT_COLUMN as nat) + "; "@ + c,
    }
}

/// The comment on a note's first `beep`: the author's comment as written
/// when it already names the note, else the note's label before it; with no
/// comment, the label (and `, held` when the note takes several loads).
pub open spec fn first_beep_comment(
    label: Seq<char>,
    comment: Option<Seq<char>>,
    held: bool,
) -> Seq<char> {
    match comment {
        Some(text) => if contains(text, label) {
            text
        } else {
            label + ", "@ + text
        },
        None => if held {
            label + ", held"@
        } else {
            label
        },
    }
}

/// A note's `beep` calls: one per load, all with its delay constant.
pub open spec fn beep_steps(loads: Seq<u8>, c: u8, first: Seq<char>) -> Seq<StepView> {
    Seq::new(
        loads.len(),
        |i: int|
            StepView::Beep {
                b: loads[i],
                c,
                remark: if i == 0 {
                    first
                } else {
                    HELD_AGAIN@
                },
            },
    )
}

/// The calls one event makes, or the error resolving it.
pub open spec fn event_steps(e: EventView) -> Result<Seq<StepView>, ResolveErrorView> {
    match e {
        EventView::Note { pitch, duration, comment } => match resolve_spec(pitch, duration) {
            Err(x) => Err(x),
            Ok(n) => {
                let loads = chunks(n.periods as nat);
                Ok(
                    beep_steps(
                        loads,
                        n.c,
                        first_beep_comment(pitch_label(pitch), comment, loads.len() > 1),
                    ),
                )
            },
        },
        EventView::Rest { frames, comment } => Ok(seq![StepView::Rest { frames, comment }]),
    }
}

/// The calls of a run of events, in order, or the first event's error.
pub open spec fn steps_of(events: Seq<EventView>) -> Result<Seq<StepView>, ResolveErrorView>
    decreases events.len(),
{
    if events.len() == 0 {
        Ok(seq![])
    } else {
        match steps_of(events.drop_last()) {
            Err(x) => Err(x),
            Ok(s) => match event_steps(events.last()) {
                Err(x) => Err(x),
                Ok(t) => Ok(s + t),
            },
        }
    }
}

/// `call` for every call but the phrase's last, which tail-calls with `jp`.
pub open spec fn call_word(tail: bool) -> Seq<char> {
    if tail {
        "jp  "@
    } else {
        "call"@
    }
}

/// A call's lines, each ending in a newline.
pub open spec fn step_text(s: StepView, tail: bool) -> Seq<char> {
    match s {
        StepView::Beep { b, c, remark } => with_comment_spec(
            INDENT@ + "ld      b, $"@ + hex_upper_byte(b),
            Some(remark),
        ) + "\n"@ + INDENT@ + "ld      c, $"@ + hex_upper_byte(c) + "\n"@ + INDENT@ + call_word(tail)
            + "    beep"@ + "\n"@,
        StepView::Rest { frames, comment } => with_comment_spec(
            INDENT@ + "ld      b, "@ + decimal(frames as nat),
            comment,
        ) + "\n"@ + INDENT@ + call_word(tail) + "    rest"@ + "\n"@,
    }
}

/// The lines of the first `n` calls; the last call of all tail-calls.
pub open spec fn steps_text(steps: Seq<StepView>, n: nat) -> Seq<char>
    decreases n,
{
    if n == 0 {
        seq![]
    } else {
        steps_text(steps, (n - 1) as nat) + step_text(steps[n - 1], n - 1 == steps.len() - 1)
    }
}

/// A phrase's block: its label line, then its calls, every line ending in a
/// newline; or the first event's error.
pub open spec fn emit_spec(p: PhraseView) -> Result<Seq<char>, ResolveErrorView> {
    match steps_of(p.events) {
        Err(x) => Err(x),
        Ok(s) => Ok(with_comment_spec(p.name + ":"@, p.comment) + "\n"@ + steps_text(s, s.len())),
    }
}

/// The blocks of the first `n` phrases joined by newlines, or the first
/// phrase's error.
pub open spec fn emit_all_spec(ps: Seq<PhraseView>, n: nat) -> Result<Seq<char>, ResolveErrorView>
    decreases n,
{
    if n == 0 {
        Ok(seq![])
    } else {
        match emit_all_spec(ps, (n - 1) as nat) {
            Err(x) => Err(x),
            Ok(text) => match emit_spec(ps[n - 1]) {
                Err(x) => Err(x),
                Ok(block) => Ok(if n == 1 {
                    block
                } else {
                    text + "\n"@ + block
                }),
            },
        }
    }
}

enum Step {
    Beep { b: u8, c: u8, remark: String },
    Rest { frames: u8, comment: Option<String> },
}

impl View for Step {
    type V = StepView;

    closed spec fn view(&self) -> StepView {
        match self {
            Step::Beep { b, c, remark } => StepView::Beep { b: *b, c: *c, remark: remark@ },
            Step::Rest { frames, comment } => StepView::Rest {
                frames: *frames,
                comment: comment_view(*comment),
            },
        }
    }
}

spec fn steps_view(s: Seq<Step>) -> Seq<StepView> {
    s.map_values(|x: Step| x@)
}

/// Append `text`, padded to the comment column and followed by `; comment`
/// when there is a comment, then a newline.
fn push_commented_line(out: &mut Vec<char>, text: Vec<char>, comment: Option<&str>)
    ensures
        final(out)@ == old(out)@ + with_comment_spec(
            text@,
            match comment {
                Some(c) => Some(c@),
                None => None,
            },
        ) + "\n"@,
{
    let mut line = text;
    match comment {
        None => {},
        Some(c) => {
            pad_chars(&mut line, COMMENT_COLUMN);
            push_str(&mut line, "; ");
            push_str(&mut line, c);
        },
    }
    push_chars(out, line.as_slice());
    push_str(out, "\n");
}

fn first_comment(label: String, comment: &Option<String>, held: bool) -> (s: String)
    ensures
        s@ == first_beep_comment(label@, comment_view(*comment), held),
{
    match comment {
        Some(text) => {
            let t: Vec<char> = crate::text::chars_of(text.as_str());
            let l: Vec<char> = crate::text::chars_of(label.as_str());
            if contains_chars(t.as_slice(), l.as_slice()) {
                text.clone()
            } else {
                let mut out = l;
                push_str(&mut out, ", ");
                push_chars(&mut out, t.as_slice());
                string_of(out.as_slice())
            }
        },
        None => {
            if held {
                let mut out: Vec<char> = crate::text::chars_of(label.as_str());
                push_str(&mut out, ", held");
                string_of(out.as_slice())
            } else {
                label
            }
        },
    }
}

/// Append the calls one event makes.
fn push_event_steps(steps: &mut Vec<Step>, e: &Event) -> (r: Result<(), ResolveError>)
    ensures
        match event_steps(e@) {
            Ok(t) => r is Ok && steps_view(final(steps)@) == steps_view(old(steps)@) + t,
            Err(x) => match r {
                Err(f) => f@ == x,
                Ok(_) => false,
            },
        },
{
    match e {
        Event::Note { pitch, duration, comment } => {
            let note = match resolve_note(pitch, *duration) {
                Ok(n) => n,
                Err(x) => return Err(x),
            };
            let loads = chunk_periods(note.periods);
            let held = loads.len() > 1;
            let first = first_comment(pitch.label(), comment, held);
            let ghost start = steps_view(steps@);
            let ghost want = beep_steps(loads@, note.c, first@);
            let mut i: usize = 0;
            while i < loads.len()
                invariant
                    i <= loads@.len(),
                    want == beep_steps(loads@, note.c, first@),
                    steps_view(steps@) == start + want.take(i as int),
                decreases loads@.len() - i,
            {
                let comment = if i == 0 {
                    first.clone()
                } else {
                    HELD_AGAIN.to_owned()
                };
                let ghost before = steps@;
                steps.push(Step::Beep { b: loads[i], c: note.c, remark: comment });
                assert(steps_view(steps@) =~= steps_view(before).push(want[i as int]));
                assert(want.take(i + 1) =~= want.take(i as int).push(want[i as int]));
                i += 1;
            }
            assert(want.take(loads@.len() as int) =~= want);
            Ok(())
        },
        Event::Rest { frames, comment } => {
            let ghost before = steps@;
            steps.push(Step::Rest { frames: *frames, comment: comment.clone() });
            assert(steps_view(steps@) =~= steps_view(before) + seq![
                StepView::Rest { frames: *frames, comment: comment_view(*comment) },
            ]);
            Ok(())
        },
    }
}

/// Append a call's lines.
fn push_step(out: &mut Vec<char>, s: &Step, tail: bool)
    ensures
        final(out)@ == old(out)@ + step_text(s@, tail),
{
    let word = if tail {
        "jp  "
    } else {
        "call"
    };
    match s {
        Step::Beep { b, c, remark } => {
            let mut first: Vec<char> = Vec::new();
            push_str(&mut first, INDENT);
            push_str(&mut first, "ld      b, $");
            push_hex_upper_byte(&mut first, *b);
            push_commented_line(out, first, Some(remark.as_str()));
            push_str(out, INDENT);
            push_str(out, "ld      c, $");
            push_hex_upper_byte(out, *c);
            push_str(out, "\n");
            push_str(out, INDENT);
            push_str(out, word);
            push_str(out, "    beep");
            push_str(out, "\n");
        },
        Step::Rest { frames, comment } => {
            let mut first: Vec<char> = Vec::new();
            push_str(&mut first, INDENT);
            push_str(&mut first, "ld      b, ");
            push_decimal(&mut first, *frames as u64);
            let c = match comment {
                Some(text) => Some(text.as_str()),
                None => None,
            };
            push_commented_line(out, first, c);
            push_str(out, INDENT);
            push_str(out, word);
            push_str(out, "    rest");
            push_str(out, "\n");
        },
    }
    assert(final(out)@ =~= old(out)@ + step_text(s@, tail));
}

fn emit_chars(phrase: &Phrase) -> (r: Result<Vec<char>, ResolveError>)
    ensures
        match emit_spec(phrase@) {
            Ok(text) => match r {
                Ok(v) => v@ == text,
                Err(_) => false,
            },
            Err(x) => match r {
                Err(f) => f@ == x,
                Ok(_) => false,
            },
        },
{
    let mut steps: Vec<Step> = Vec::new();
    let mut i: usize = 0;
    let ghost events = crate::beeper::events_view(phrase.events@);
    assert(events.take(0) =~= Seq::<EventView>::empty());
    assert(steps_view(steps@) =~= Seq::<StepView>::empty());
    while i < phrase.events.len()
        invariant
            i <= phrase.events@.len(),
            events == crate::beeper::events_view(phrase.events@),
            steps_of(events.take(i as int)) == Ok::<Seq<StepView>, ResolveErrorView>(
                steps_view(steps@),
            ),
        decreases phrase.events@.len() - i,
    {
        assert(events.take(i + 1).drop_last() =~= events.take(i as int));
        let r = push_event_steps(&mut steps, &phrase.events[i]);
        match r {
            Ok(()) => {},
            Err(x) => {
                proof {
                    lemma_steps_of_stops(events, i + 1);
                }
                return Err(x);
            },
        }
        i += 1;
    }
    assert(events.take(i as int) =~= events);
    let mut out: Vec<char> = Vec::new();
    let mut label: Vec<char> = crate::text::chars_of(phrase.name.as_str());
    push_str(&mut label, ":");
    let c = match &phrase.comment {
        Some(text) => Some(text.as_str()),
        None => None,
    };
    push_commented_line(&mut out, label, c);
    let ghost head = out@;
    let ghost sv = steps_view(steps@);
    let mut j: usize = 0;
    while j < steps.len()
        invariant
            j <= steps@.len(),
            sv == steps_view(steps@),
            out@ == head + steps_text(sv, j as nat),
        decreases steps@.len() - j,
    {
        push_step(&mut out, &steps[j], j == steps.len() - 1);
        assert(out@ =~= head + steps_text(sv, (j + 1) as nat));
        j += 1;
    }
    Ok(out)
}

/// Once some event fails, every longer run of events fails the same way.
proof fn lemma_steps_of_stops(events: Seq<EventView>, i: int)
    requires
        0 < i <= events.len(),
        steps_of(events.take(i)) is Err,
    ensures
        steps_of(events) == steps_of(events.take(i)),
    decreases events.len() - i,
{
    if i < events.len() {
        assert(events.take(i + 1).drop_last() =~= events.take(i));
        lemma_steps_of_stops(events, i + 1);
    } else {
        assert(events.take(i) =~= events);
    }
}

/// Emit one phrase as an assembly block.
pub fn emit(phrase: &Phrase) -> (r: Result<String, ResolveError>)
    ensures
        match emit_spec(phrase@) {
            Ok(text) => match r {
                Ok(s) => s@ == text,
                Err(_) => false,
            },
            Err(x) => match r {
                Err(f) => f@ == x,
                Ok(_) => false,
            },
        },
{
    match emit_chars(phrase) {
        Ok(v) => Ok(string_of(v.as_slice())),
        Err(x) => Err(x),
    }
}

/// Emit every phrase in file order, separated by blank lines.
pub fn emit_all(phrases: &[Phrase]) -> (r: Result<String, ResolveError>)
    ensures
        match emit_all_spec(crate::beeper::phrases_view(phrases@), phrases@.len()) {
            Ok(text) => match r {
                Ok(s) => s@ == text,
                Err(_) => false,
            },
            Err(x) => match r {
                Err(f) => f@ == x,
                Ok(_) => false,
            },
        },
{
    let ghost ps = crate::beeper::phrases_view(phrases@);
    let mut out: Vec<char> = Vec::new();
    let mut i: usize = 0;
    while i < phrases.len()
        invariant
            i <= phrases@.len(),
            ps == crate::beeper::phrases_view(phrases@),
            emit_all_spec(ps, i as nat) == Ok::<Seq<char>, ResolveErrorView>(out@),
        decreases phrases@.len() - i,
    {
        let block = match emit_chars(&phrases[i]) {
            Ok(b) => b,
            Err(x) => {
                proof {
                    lemma_emit_all_stops(ps, (i + 1) as nat, phrases@.len() as nat);
                }
                return Err(x);
            },
        };
        if i > 0 {
            push_str(&mut out, "\n");
        }
        push_chars(&mut out, block.as_slice());
        proof {
            if i == 0 {
                assert(out@ =~= block@);
            }
        }
        i += 1;
    }
    Ok(string_of(out.as_slice()))
}

proof fn lemma_emit_all_stops(ps: Seq<PhraseView>, i: nat, n: nat)
    requires
        i <= n,
        emit_all_spec(ps, i) is Err,
    ensures
        emit_all_spec(ps, n) == emit_all_spec(ps, i),
    decreases n,
{
    if i < n {
        lemma_emit_all_stops(ps, i, (n - 1) as nat);
    }
}

} // verus!
