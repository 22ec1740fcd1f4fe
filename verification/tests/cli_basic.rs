//! The `basic` command's logic: arguments, the lint gate and its report.

use build198x::basic::Machine;
use build198x::cli::basic::{
    build_checked, build_json, build_text, finding_line, parse_basic_args, unbuildable_line, BasicParse, Refusal,
};

fn args(v: &[&str]) -> Vec<String> {
    v.iter().map(|s| s.to_string()).collect()
}

fn parse_error(v: &[&str]) -> String {
    match parse_basic_args(&args(v)) {
        Err(e) => e,
        Ok(_) => panic!("expected an error"),
    }
}

#[test]
fn build_args_default_the_name_to_the_output_stem() {
    match parse_basic_args(&args(&["a.bas", "--machine", "sinclair-zx-spectrum", "-o", "out/shadowkeep-unit-01.tap"])) {
        Ok(BasicParse::Build(b)) => {
            assert_eq!(b.input, "a.bas");
            assert_eq!(b.machine, Machine::SinclairZxSpectrum);
            assert_eq!(b.output, "out/shadowkeep-unit-01.tap");
            assert_eq!(b.name, "shadowkeep-unit-01");
            assert!(b.autorun);
            assert!(!b.json);
        }
        _ => panic!("expected a build"),
    }
    match parse_basic_args(&args(&[
        "a.bas", "--machine", "sinclair-zx-spectrum", "-o", "b.tap", "--name", "Game", "--no-autorun", "--format", "json",
    ])) {
        Ok(BasicParse::Build(b)) => {
            assert_eq!(b.name, "Game");
            assert!(!b.autorun);
            assert!(b.json);
        }
        _ => panic!("expected a build"),
    }
}

#[test]
fn lint_args_take_several_inputs() {
    match parse_basic_args(&args(&["lint", "a.bas", "b.bas", "--machine", "commodore-c64", "--fix"])) {
        Ok(BasicParse::Lint(l)) => {
            assert_eq!(l.inputs, args(&["a.bas", "b.bas"]));
            assert_eq!(l.machine, Machine::CommodoreC64);
            assert!(l.fix);
        }
        _ => panic!("expected a lint"),
    }
}

#[test]
fn unknown_machine_and_missing_output_are_usage_errors() {
    assert_eq!(
        parse_error(&["a.bas", "--machine", "bbc-micro", "-o", "a.prg"]),
        "unknown machine `bbc-micro` (use sinclair-zx-spectrum or commodore-c64)"
    );
    assert_eq!(parse_error(&["a.bas", "--machine", "commodore-c64"]), "an output path is required (-o <out>)");
    assert_eq!(
        parse_error(&["a.bas", "-o", "a.prg"]),
        "--machine is required (sinclair-zx-spectrum or commodore-c64)"
    );
    assert!(parse_error(&["a.bas", "--machine", "commodore-c64", "-o", "a.tap"]).contains(".prg"));
    assert_eq!(parse_error(&["lint", "--machine", "commodore-c64"]), "at least one input .bas file is required");
    assert_eq!(parse_error(&["lint", "a.bas", "--machine", "commodore-c64", "-o", "x"]), "unknown flag `-o`");
    assert!(matches!(parse_basic_args(&args(&["--help"])), Ok(BasicParse::Help)));
}

#[test]
fn a_listing_in_listed_form_builds_and_blank_lines_do_not_stop_it() {
    let built = match build_checked(Machine::CommodoreC64, "10 PRINT 1\n\n20 GOTO 10\n", "a", true) {
        Ok(b) => b,
        Err(_) => panic!("builds"),
    };
    assert_eq!(built.lines, 2);
    assert_eq!(&built.bytes[..2], &[0x01, 0x08]);
    assert_eq!(built.program_length, built.bytes.len() - 2);
    assert_eq!(
        build_json("0.1.0", Machine::CommodoreC64, "a.bas", "a.prg", &built),
        format!(
            "{{\"tool_version\":\"0.1.0\",\"machine\":\"commodore-c64\",\"input\":\"a.bas\",\"output\":\"a.prg\",\"lines\":2,\"program_length\":{},\"autorun\":null}}",
            built.bytes.len() - 2
        )
    );
}

#[test]
fn a_spectrum_tape_runs_from_its_first_line() {
    let built = match build_checked(Machine::SinclairZxSpectrum, "  10 PRINT \"HELLO\"\n  20 GO TO 10\n", "hello", true) {
        Ok(b) => b,
        Err(_) => panic!("builds"),
    };
    assert_eq!(built.autorun, Some(10));
    assert_eq!(build_text("hello.tap", &built), format!("hello.tap: 2 lines, {} bytes of BASIC, runs from line 10", built.program_length));
}

#[test]
fn a_listing_that_fails_lint_is_not_built() {
    match build_checked(Machine::SinclairZxSpectrum, "10 PRINT 1\n", "a", true) {
        Err(Refusal::Findings(f)) => {
            assert_eq!(f.len(), 1);
            assert_eq!(f[0].rule, "listing-form");
            assert_eq!(finding_line("a.bas", &f[0]), "a.bas:1:1: listing-form: LIST shows `  10 PRINT 1`");
        }
        _ => panic!("lint stops the build"),
    }
}

#[test]
fn an_unreadable_line_names_the_file_and_line() {
    match build_checked(Machine::SinclairZxSpectrum, "  10 PRINT 1\nPRINT 2\n", "a", true) {
        Err(Refusal::Unbuildable(e)) => {
            assert_eq!(e.line, 2);
            assert!(unbuildable_line("a.bas", &e).starts_with("a.bas:2: "));
        }
        _ => panic!("the line is refused"),
    }
}
