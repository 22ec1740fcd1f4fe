//! The `beeper` command's arguments, output names and report, and the
//! usage texts.

use build198x::cli::beeper::{asm_file_name, beeper_report, parse_beeper_args, wav_file_name, BeeperParse};
use build198x::cli::usage::{adf_master_usage, adf_usage, adf_verb_usage, basic_usage, beeper_usage, image_usage, top_usage, usage};

fn args(v: &[&str]) -> Vec<String> {
    v.iter().map(|s| s.to_string()).collect()
}

fn parse_error(v: &[&str]) -> String {
    match parse_beeper_args(&args(v)) {
        Err(e) => e,
        Ok(_) => panic!("expected an error"),
    }
}

#[test]
fn beeper_defaults_to_both_outputs_and_one_pass() {
    match parse_beeper_args(&args(&["tune.bpr"])) {
        Ok(BeeperParse::Run(a)) => {
            assert_eq!(a.input, "tune.bpr");
            assert_eq!(a.out_dir, None);
            assert!(a.want_wav && a.want_asm);
            assert!(!a.force);
            assert_eq!(a.repeats, 1);
        }
        _ => panic!("expected a run"),
    }
}

#[test]
fn beeper_flags_select_outputs_and_count() {
    match parse_beeper_args(&args(&["--wav", "tune.bpr", "--repeat", "3", "--out-dir", "out", "--force"])) {
        Ok(BeeperParse::Run(a)) => {
            assert!(a.want_wav && !a.want_asm);
            assert_eq!(a.repeats, 3);
            assert_eq!(a.out_dir, Some("out".to_owned()));
            assert!(a.force);
        }
        _ => panic!("expected a run"),
    }
}

#[test]
fn beeper_argument_errors() {
    assert_eq!(parse_error(&[]), "an input .bpr file is required");
    assert_eq!(parse_error(&["a.bpr", "b.bpr"]), "one input file only");
    assert_eq!(parse_error(&["a.bpr", "--repeat", "0"]), "--repeat needs a count 1-100");
    assert_eq!(parse_error(&["a.bpr", "--repeat", "101"]), "--repeat needs a count 1-100");
    assert_eq!(parse_error(&["a.bpr", "--repeat", "x"]), "--repeat needs a count 1-100");
    assert_eq!(parse_error(&["a.bpr", "--repeat"]), "--repeat needs a count 1-100");
    assert_eq!(parse_error(&["a.bpr", "--out-dir"]), "--out-dir needs a path");
    assert_eq!(parse_error(&["a.bpr", "--loud"]), "unknown flag `--loud`");
    assert!(matches!(parse_beeper_args(&args(&["-h", "--loud"])), Ok(BeeperParse::Help)));
}

#[test]
fn beeper_output_names() {
    assert_eq!(asm_file_name("music/gloaming.bpr"), "gloaming.asm");
    assert_eq!(wav_file_name("chime"), "chime.wav");
}

#[test]
fn beeper_report_is_one_flat_json_line() {
    let line = beeper_report(
        "0.1.0",
        "dir/t\"x.bpr",
        &args(&["a", "b"]),
        &args(&["out/a.wav", "out/t.asm"]),
    );
    assert_eq!(
        line,
        "{\"converter_version\": \"0.1.0\", \"tool\": \"beeper\", \"input\": \"dir/t\\\"x.bpr\", \"phrases\": [\"a\", \"b\"], \"outputs\": [\"out/a.wav\", \"out/t.asm\"]}"
    );
}

#[test]
fn usage_texts_name_their_commands() {
    assert!(top_usage().starts_with("build198x — the 198x build-tools pipeline"));
    assert!(image_usage().starts_with("build198x image — "));
    assert!(beeper_usage().starts_with("build198x beeper — "));
    assert_eq!(adf_verb_usage("master"), adf_master_usage());
    assert_eq!(adf_verb_usage("anything"), adf_master_usage());
    assert_ne!(adf_verb_usage("create"), adf_master_usage());
    assert!(adf_usage().starts_with("build198x adf — "));
    assert!(adf_verb_usage("create").starts_with("build198x adf create — "));
    assert!(adf_verb_usage("verify").starts_with("build198x adf verify — "));
    assert!(adf_verb_usage("info").starts_with("build198x adf info — "));
    assert!(basic_usage().starts_with("build198x basic — "));
    assert!(usage().starts_with("build198x-adf — "));
    assert!(top_usage().contains("build198x basic lint"));
}
