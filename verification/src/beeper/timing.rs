//! The one timing model behind both renderings: the time the emitted
//! `beep`/`rest` calls take on the machine is the time the preview's
//! timeline lasts.
use vstd::prelude::*;

use crate::beeper::assembly::{beep_steps, emit_spec, event_steps, first_beep_comment, steps_of, StepView};
use crate::beeper::wav::{event_span, render_spec, reps, run, step, Segment, Timeline};
use crate::beeper::{
    chunks, lemma_chunks_sum_and_range, load_sum, period_t, pitch_label, resolve_spec, EventView, PhraseView,
    ResolveErrorView,
};

verus! {

/// The T-states one call takes: `b` periods of a `beep` with delay `c`, or
/// `frames` frames of a `rest`.
pub open spec fn step_tstates(s: StepView) -> int {
    match s {
        StepView::Beep { b, c, .. } => b * period_t(c as int),
        StepView::Rest { frames, .. } => 69_888 * frames,
    }
}

/// The T-states a run of calls takes.
pub open spec fn steps_tstates(steps: Seq<StepView>) -> int
    decreases steps.len(),
{
    if steps.len() == 0 {
        0
    } else {
        steps_tstates(steps.drop_last()) + step_tstates(steps.last())
    }
}

proof fn lemma_steps_tstates_add(a: Seq<StepView>, b: Seq<StepView>)
    ensures
        steps_tstates(a + b) == steps_tstates(a) + steps_tstates(b),
    decreases b.len(),
{
    if b.len() > 0 {
        assert((a + b).drop_last() =~= a + b.drop_last());
        lemma_steps_tstates_add(a, b.drop_last());
    } else {
        assert(a + b =~= a);
    }
}

proof fn lemma_load_sum_drop_last(s: Seq<u8>)
    requires
        s.len() > 0,
    ensures
        load_sum(s) == load_sum(s.drop_last()) + s.last(),
    decreases s.len(),
{
    if s.len() > 1 {
        lemma_load_sum_drop_last(s.drop_first());
        assert(s.drop_first().drop_last() =~= s.drop_last().drop_first());
        assert(s.drop_first().last() == s.last());
        assert(s.drop_last()[0] == s[0]);
        assert(load_sum(s.drop_last()) == s[0] + load_sum(s.drop_last().drop_first()));
    } else {
        assert(s.drop_first().len() == 0);
        assert(s.drop_last().len() == 0);
        assert(load_sum(s.drop_first()) == 0);
        assert(load_sum(s.drop_last()) == 0);
    }
}

/// A note's `beep` calls take its loads' periods at its delay.
proof fn lemma_beep_tstates(loads: Seq<u8>, c: u8, first: Seq<char>)
    ensures
        steps_tstates(beep_steps(loads, c, first)) == load_sum(loads) * period_t(c as int),
    decreases loads.len(),
{
    let s = beep_steps(loads, c, first);
    if loads.len() > 0 {
        assert(s.drop_last() =~= beep_steps(loads.drop_last(), c, first));
        lemma_beep_tstates(loads.drop_last(), c, first);
        lemma_load_sum_drop_last(loads);
        let p = period_t(c as int);
        let x = load_sum(loads.drop_last());
        let y = loads.last() as int;
        assert(x * p + y * p == (x + y) * p) by (nonlinear_arith);
    } else {
        assert(load_sum(loads) == 0);
    }
}

/// One event: its calls exist exactly when its span does, with the same
/// error, and take the span's T-states.
proof fn lemma_event_tstates(e: EventView)
    ensures
        event_steps(e) is Ok <==> event_span(e) is Ok,
        event_steps(e) matches Err(x) ==> event_span(e) == Err::<(int, Segment), _>(x),
        event_steps(e) matches Ok(s) ==> steps_tstates(s) == event_span(e)->Ok_0.0,
{
    match e {
        EventView::Note { pitch, duration, comment } => {
            if let Ok(n) = resolve_spec(pitch, duration) {
                let loads = chunks(n.periods as nat);
                lemma_chunks_sum_and_range(n.periods as nat);
                let first = first_beep_comment(pitch_label(pitch), comment, loads.len() > 1);
                lemma_beep_tstates(loads, n.c, first);
                assert(event_steps(e) == Ok::<Seq<StepView>, ResolveErrorView>(beep_steps(loads, n.c, first)));
                let p = period_t(n.c as int);
                let k = n.periods as int;
                assert(n.period_t as int == p);
                assert(load_sum(loads) == k);
                assert(k * p == p * k) by (nonlinear_arith);
                assert(event_span(e)->Ok_0.0 == n.period_t * n.periods);
                assert(steps_tstates(beep_steps(loads, n.c, first)) == k * p);
                assert(n.period_t * n.periods == p * k);
                assert(steps_tstates(event_steps(e)->Ok_0) == event_span(e)->Ok_0.0);
            }
        },
        EventView::Rest { frames, comment } => {
            let s = seq![StepView::Rest { frames, comment }];
            assert(s.drop_last() =~= Seq::<StepView>::empty());
            assert(steps_tstates(s.drop_last()) == 0);
            assert(steps_tstates(s) == 69_888 * frames);
            assert(event_steps(e) == Ok::<Seq<StepView>, ResolveErrorView>(s));
        },
    }
}

/// The timeline after `n` events depends only on those events.
proof fn lemma_run_prefix(s: Timeline, a: Seq<EventView>, b: Seq<EventView>, n: nat)
    requires
        n <= a.len(),
        n <= b.len(),
        forall|i: int| 0 <= i < n ==> a[i] == b[i],
    ensures
        run(s, a, n) == run(s, b, n),
    decreases n,
{
    if n > 0 {
        lemma_run_prefix(s, a, b, (n - 1) as nat);
    }
}

/// The nothing-yet timeline.
pub open spec fn empty_timeline() -> Timeline {
    Timeline { spans: seq![], t: 0, err: None }
}

/// A run of events: its calls exist exactly when its timeline has no error
/// (and fail with the timeline's error), and take the timeline's T-states.
pub proof fn lemma_events_timing(events: Seq<EventView>)
    ensures
        match steps_of(events) {
            Ok(s) => run(empty_timeline(), events, events.len()).err is None && steps_tstates(s) == run(
                empty_timeline(),
                events,
                events.len(),
            ).t,
            Err(x) => run(empty_timeline(), events, events.len()).err == Some(x),
        },
    decreases events.len(),
{
    if events.len() > 0 {
        let d = events.drop_last();
        let n = events.len();
        lemma_events_timing(d);
        lemma_run_prefix(empty_timeline(), events, d, (n - 1) as nat);
        lemma_event_tstates(events.last());
        let tl = run(empty_timeline(), d, d.len());
        assert(run(empty_timeline(), events, n) == step(tl, events[n - 1]));
        if let Ok(s0) = steps_of(d) {
            if let Ok(t1) = event_steps(events.last()) {
                lemma_steps_tstates_add(s0, t1);
            }
        }
    }
}

/// Both renderings of a phrase come from one timing model: the assembly
/// block is emitted exactly when the one-pass preview renders, and the
/// emitted calls take, in T-states, the time the preview's timeline lasts.
pub proof fn lemma_one_timing_model(p: PhraseView)
    ensures
        emit_spec(p) is Ok <==> render_spec(p, 1) is Ok,
        steps_of(p.events) matches Ok(s) ==> reps(p.events, 1).err is None && steps_tstates(s) == reps(
            p.events,
            1,
        ).t,
{
    lemma_events_timing(p.events);
    assert(reps(p.events, 0) == empty_timeline());
    assert(reps(p.events, 1) == run(empty_timeline(), p.events, p.events.len()));
}

/// Running events from a timeline with no error ends `s.t` later than
/// running them from nothing, with the same error.
proof fn lemma_run_from(s: Timeline, evs: Seq<EventView>, n: nat)
    requires
        s.err is None,
        n <= evs.len(),
    ensures
        run(s, evs, n).err == run(empty_timeline(), evs, n).err,
        run(s, evs, n).t == s.t + run(empty_timeline(), evs, n).t,
    decreases n,
{
    if n > 0 {
        lemma_run_from(s, evs, (n - 1) as nat);
    }
}

/// The loop-point audition plays the phrase `repeats` times back to back:
/// with no error its timeline lasts `repeats` times the one-pass timeline,
/// and a phrase whose one pass fails fails with the same error however
/// often it repeats.
pub proof fn lemma_repeats_scale_the_timeline(evs: Seq<EventView>, repeats: nat)
    requires
        repeats >= 1,
    ensures
        reps(evs, 1).err is None ==> reps(evs, repeats).err is None && reps(evs, repeats).t == repeats * reps(
            evs,
            1,
        ).t,
        reps(evs, 1).err matches Some(x) ==> reps(evs, repeats).err == Some(x),
    decreases repeats,
{
    assert(reps(evs, 0) == empty_timeline());
    assert(reps(evs, 1) == run(empty_timeline(), evs, evs.len()));
    if repeats > 1 {
        lemma_repeats_scale_the_timeline(evs, (repeats - 1) as nat);
        let prev = reps(evs, (repeats - 1) as nat);
        assert(reps(evs, repeats) == run(prev, evs, evs.len()));
        if prev.err is None {
            lemma_run_from(prev, evs, evs.len());
            assert((repeats - 1) * reps(evs, 1).t + reps(evs, 1).t == repeats * reps(evs, 1).t) by (nonlinear_arith);
        } else {
            lemma_run_keeps_error(prev, evs, evs.len());
        }
    }
}

/// Once a timeline has an error, running more events keeps it.
proof fn lemma_run_keeps_error(s: Timeline, evs: Seq<EventView>, n: nat)
    requires
        s.err is Some,
        n <= evs.len(),
    ensures
        run(s, evs, n) == s,
    decreases n,
{
    if n > 0 {
        lemma_run_keeps_error(s, evs, (n - 1) as nat);
    }
}

} // verus!
