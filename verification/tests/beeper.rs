//! The beeper model, notation, assembly and WAV previews.

use build198x::beeper::assembly::{emit, emit_all};
use build198x::beeper::notation::{parse, parse_duration, parse_pitch};
use build198x::beeper::wav::{render, render_fits_check, render_repeated, AMPLITUDE};
use build198x::beeper::{
    c_for_pitch, chunk_periods, period_tstates, resolve_note, Duration, Event, HzValue, Phrase, Pitch,
};

fn note_pitch(spelling: &str, semitone: u8, octave: u8) -> Pitch {
    Pitch::Note { semitone, octave, spelling: spelling.to_owned() }
}

fn note(spelling: &str, semitone: u8, octave: u8, periods: u32, comment: Option<&str>) -> Event {
    Event::Note {
        pitch: note_pitch(spelling, semitone, octave),
        duration: Duration::Periods(periods),
        comment: comment.map(str::to_owned),
    }
}

fn e5_phrase() -> Phrase {
    Phrase {
        name: "test".to_owned(),
        comment: None,
        events: vec![
            Event::Note { pitch: note_pitch("E5", 4, 5), duration: Duration::Periods(198), comment: None },
            Event::Rest { frames: 8, comment: None },
        ],
    }
}

#[test]
fn prototype_constants_regenerate() {
    let cases: [(&str, u8, u8, u8); 6] = [
        ("E5", 4, 5, 0xA4),
        ("C5", 0, 5, 0xCF),
        ("G5", 7, 5, 0x8A),
        ("C6", 0, 6, 0x67),
        ("D5", 2, 5, 0xB8),
        ("A4", 9, 4, 0xF7),
    ];
    for (spelling, semitone, octave, expected_c) in cases {
        let pitch = note_pitch(spelling, semitone, octave);
        assert_eq!(c_for_pitch(&pitch), Ok(expected_c), "{spelling}");
    }
}

#[test]
fn period_model_matches_hand_arithmetic() {
    // E5's C=$A4=164: 32*164 + 44 = 5292 T.
    assert_eq!(period_tstates(0xA4), 5292);
}

#[test]
fn millis_round_to_nearest_period() {
    let note = resolve_note(&note_pitch("E5", 4, 5), Duration::Millis(299)).expect("E5 resolves");
    assert_eq!(note.periods, 198);
    assert_eq!(note.c, 0xA4);
    assert_eq!(note.period_t, 5292);
}

#[test]
fn long_notes_chunk_at_255() {
    assert_eq!(chunk_periods(510), vec![255, 255]);
    assert_eq!(chunk_periods(198), vec![198]);
    assert_eq!(chunk_periods(256), vec![255, 1]);
}

#[test]
fn chunks_sum_to_the_periods_and_stay_in_range() {
    for periods in [0u32, 1, 254, 255, 256, 509, 510, 511, 1000] {
        let chunks = chunk_periods(periods);
        assert_eq!(chunks.iter().map(|&c| u32::from(c)).sum::<u32>(), periods);
        assert!(chunks.iter().all(|&c| c >= 1));
    }
}

#[test]
fn out_of_range_pitch_is_an_error() {
    let high = Pitch::Hz(HzValue::new(false, 60_000, 0).expect("scale in range"));
    assert!(c_for_pitch(&high).is_err());
    assert!(c_for_pitch(&note_pitch("A3", 9, 3)).is_err());
}

#[test]
fn zero_periods_is_too_short() {
    assert!(resolve_note(&note_pitch("E5", 4, 5), Duration::Periods(0)).is_err());
}

#[test]
fn parses_a_phrase_with_comments() {
    let src = "; file note\nphrase chime ; two bells\n  E5 300ms ; strike\n  rest 8\n  C5 340ms\n";
    let phrases = parse(src).expect("parses");
    assert_eq!(phrases.len(), 1);
    let p = &phrases[0];
    assert_eq!(p.name, "chime");
    assert_eq!(p.comment.as_deref(), Some("two bells"));
    assert_eq!(p.events.len(), 3);
    match &p.events[0] {
        Event::Note { pitch, duration, comment } => {
            assert_eq!(pitch.label(), "E5");
            assert_eq!(*duration, Duration::Millis(300));
            assert_eq!(comment.as_deref(), Some("strike"));
        }
        other => panic!("expected note, got {other:?}"),
    }
}

#[test]
fn accidentals_and_hz_parse() {
    assert!(matches!(parse_pitch("F#5"), Some(Pitch::Note { semitone: 6, octave: 5, .. })));
    assert!(matches!(parse_pitch("Bb4"), Some(Pitch::Note { semitone: 10, octave: 4, .. })));
    assert!(matches!(parse_pitch("4310hz"), Some(Pitch::Hz(_))));
    assert_eq!(parse_pitch("H5"), None);
    assert_eq!(parse_pitch("Cb4"), None);
}

#[test]
fn events_before_a_phrase_are_an_error() {
    let err = parse("E5 300ms\n").expect_err("must fail");
    assert_eq!(err.line, 1);
}

#[test]
fn period_durations_parse() {
    assert_eq!(parse_duration("198p"), Some(Duration::Periods(198)));
    assert_eq!(parse_duration("300ms"), Some(Duration::Millis(300)));
    assert_eq!(parse_duration("300"), None);
}

#[test]
fn chime_dusk_block_matches_the_prototype_shape() {
    let phrase = Phrase {
        name: "chime_dusk".to_owned(),
        comment: Some("the title \u{2014} two bell notes, high then low".to_owned()),
        events: vec![
            note("E5", 4, 5, 198, Some("a bright strike")),
            Event::Rest { frames: 8, comment: None },
            note("C5", 0, 5, 209, Some("C5 answers, a shade longer")),
        ],
    };
    let block = emit(&phrase).expect("emits");
    let expected = "\
chime_dusk:                         ; the title \u{2014} two bell notes, high then low
            ld      b, $C6          ; E5, a bright strike
            ld      c, $A4
            call    beep
            ld      b, 8
            call    rest
            ld      b, $D1          ; C5 answers, a shade longer
            ld      c, $CF
            jp      beep
";
    assert_eq!(block, expected);
}

#[test]
fn held_note_chunks_like_the_fanfare() {
    let phrase = Phrase { name: "hold".to_owned(), comment: None, events: vec![note("C6", 0, 6, 510, None)] };
    let block = emit(&phrase).expect("emits");
    assert!(block.contains("ld      b, $FF          ; C6, held"));
    assert!(block.contains("call    beep"));
    assert!(block.ends_with("jp      beep\n"));
    assert_eq!(block.matches("ld      c, $67").count(), 2);
}

#[test]
fn blocks_are_separated_by_blank_lines_and_never_hold_the_routines() {
    let a = Phrase { name: "a".to_owned(), comment: None, events: vec![note("E5", 4, 5, 10, None)] };
    let b = Phrase { name: "b".to_owned(), comment: None, events: vec![Event::Rest { frames: 2, comment: None }] };
    let all = emit_all(&[a.clone(), b.clone()]).expect("emits");
    let first = emit(&a).expect("emits");
    let second = emit(&b).expect("emits");
    assert_eq!(all, format!("{first}\n{second}"));
    assert!(!all.contains("djnz") && !all.contains("halt") && !all.contains("out "));
}

#[test]
fn wav_has_correct_header_and_length() {
    let bytes = render(&e5_phrase()).expect("renders");
    assert_eq!(&bytes[0..4], b"RIFF");
    assert_eq!(&bytes[8..12], b"WAVE");
    let total_t: u64 = 198 * 5292 + 8 * 69_888;
    let expected_samples = (total_t * 44_100u64).div_ceil(3_500_000);
    assert_eq!(bytes.len() as u64, 44 + expected_samples * 2);
}

#[test]
fn tone_toggles_and_rest_is_silent() {
    let bytes = render(&e5_phrase()).expect("renders");
    let pcm: Vec<i16> = bytes[44..].chunks_exact(2).map(|c| i16::from_le_bytes([c[0], c[1]])).collect();
    let tone_end = (198 * 5292 * 44_100u64 / 3_500_000) as usize;
    assert!(pcm[..tone_end].contains(&AMPLITUDE));
    assert!(pcm[..tone_end].contains(&-AMPLITUDE));
    assert!(pcm[tone_end + 2..].iter().all(|&s| s == 0));
}

#[test]
fn output_is_deterministic() {
    let a = render(&e5_phrase()).expect("renders");
    let b = render(&e5_phrase()).expect("renders");
    assert_eq!(a, b);
}

#[test]
fn repeated_render_is_proportionally_longer() {
    let once = render_repeated(&e5_phrase(), 1).expect("renders");
    let thrice = render_repeated(&e5_phrase(), 3).expect("renders");
    let once_pcm = (once.len() - 44) as u64;
    let thrice_pcm = (thrice.len() - 44) as u64;
    assert!((once_pcm * 3).abs_diff(thrice_pcm) <= 6);
}

#[test]
fn preview_size_check_accepts_ordinary_phrases() {
    assert!(render_fits_check(&e5_phrase(), 1));
    assert!(render_fits_check(&e5_phrase(), 100));
    let long = Phrase {
        name: "long".to_owned(),
        comment: None,
        events: vec![Event::Rest { frames: 255, comment: None }; 4000],
    };
    // 4000 rests of 255 frames run far past the header's 32-bit length.
    assert!(!render_fits_check(&long, 100));
}

#[test]
fn a_bad_note_stops_the_preview_with_its_error() {
    let phrase = Phrase { name: "bad".to_owned(), comment: None, events: vec![note("A3", 9, 3, 10, None)] };
    assert!(render(&phrase).is_err());
    assert!(emit(&phrase).is_err());
}

/// The T-states the emitted calls take: each `beep` runs `B` periods of
/// `32*C + 44`, each `rest` `B` frames of 69,888.
fn emitted_tstates(block: &str) -> u64 {
    let mut total = 0u64;
    let mut b = 0u64;
    let mut c = 0u64;
    for line in block.lines() {
        let code = line.split(';').next().unwrap_or("").trim();
        if let Some(v) = code.strip_prefix("ld      b, ") {
            b = match v.strip_prefix('$') {
                Some(hex) => u64::from_str_radix(hex, 16).unwrap(),
                None => v.parse().unwrap(),
            };
        } else if let Some(v) = code.strip_prefix("ld      c, $") {
            c = u64::from_str_radix(v, 16).unwrap();
        } else if code.ends_with("beep") {
            total += b * (32 * c + 44);
        } else if code.ends_with("rest") {
            total += b * 69_888;
        }
    }
    total
}

#[test]
fn assembly_and_preview_share_one_timing_model() {
    let phrase = Phrase {
        name: "fanfare".to_owned(),
        comment: None,
        events: vec![
            note("C6", 0, 6, 510, None),
            Event::Rest { frames: 3, comment: None },
            note("E5", 4, 5, 198, None),
        ],
    };
    let block = emit(&phrase).expect("emits");
    let t = emitted_tstates(&block);
    assert_eq!(t, 510 * (32 * 0x67 + 44) + 3 * 69_888 + 198 * 5292);
    let wav = render(&phrase).expect("renders");
    assert_eq!(wav.len() as u64, 44 + 2 * (t * 44_100).div_ceil(3_500_000));
}
