//! Building BASIC listings into tape and PRG files.

use build198x::basic::{build, tape_name, Machine};

#[test]
fn machine_ids_round_trip() {
    for m in [Machine::SinclairZxSpectrum, Machine::CommodoreC64] {
        assert_eq!(Machine::from_id(m.id()), Some(m));
    }
    assert_eq!(Machine::from_id("bbc-micro"), None);
}

#[test]
fn spectrum_autorun_is_the_first_stored_line_not_the_first_written() {
    let built = build(Machine::SinclairZxSpectrum, "  20 STOP\n  10 GO TO 20\n", "t", true).expect("builds");
    assert_eq!(built.autorun, Some(10));
    assert_eq!(built.lines, 2);
}

#[test]
fn tape_names_are_ten_printable_ascii_characters() {
    assert_eq!(tape_name("hello"), "hello");
    assert_eq!(tape_name("shadowkeep-unit-01"), "shadowkeep");
    assert_eq!(tape_name("caf\u{e9}"), "caf?");
    assert_eq!(tape_name("\u{65e5}\u{672c}\tx"), "???x");
    assert_eq!(
        tape_name("\u{e9}\u{e9}\u{e9}\u{e9}\u{e9}\u{e9}\u{e9}\u{e9}\u{e9}\u{e9}\u{e9}"),
        "??????????"
    );
}

#[test]
fn errors_keep_the_source_line() {
    let err = build(Machine::CommodoreC64, "10 PRINT\nX\n", "t", true).expect_err("fails");
    assert_eq!(err.line, 2);
    let err = build(Machine::SinclairZxSpectrum, "\n", "t", true).expect_err("fails");
    assert_eq!(err.line, 0);
}

#[test]
fn extensions_follow_the_machine() {
    assert_eq!(Machine::SinclairZxSpectrum.extension(), "tap");
    assert_eq!(Machine::CommodoreC64.extension(), "prg");
    assert_eq!(Machine::SinclairZxSpectrum.id(), "sinclair-zx-spectrum");
}

#[test]
fn c64_program_loads_at_0801() {
    let built = build(Machine::CommodoreC64, "10 PRINT \"HI\"\n", "t", true).expect("builds");
    assert_eq!(&built.bytes[..2], &[0x01, 0x08]);
    assert_eq!(built.lines, 1);
    assert_eq!(built.autorun, None);
}

#[test]
fn spectrum_tap_without_autorun_marks_line_32768() {
    let built = build(Machine::SinclairZxSpectrum, "  10 STOP\n", "prog", false).expect("builds");
    assert_eq!(built.autorun, None);
    // Header block: length 19, flag 0, type 0 (program), then the name.
    assert_eq!(&built.bytes[..4], &[19, 0, 0, 0]);
    assert_eq!(&built.bytes[4..14], b"prog      ");
}

#[test]
fn error_text_names_the_line() {
    let err = build(Machine::CommodoreC64, "10 PRINT\nX\n", "t", true).expect_err("fails");
    assert!(err.describe().starts_with("line 2: "), "{}", err.describe());
}
