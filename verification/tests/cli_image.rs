//! The `image` command's own logic: arguments, output names, exit codes
//! and the JSON report.

use build198x::cli::image_command::{dither_token, metric_token, parse_image_args, parse_matte, Format, ImageArgs, ImageParse};
use build198x::cli::json::{hex_colour, json_escape, json_string_array};
use build198x::cli::paths::{default_output, native_outputs};
use build198x::cli::report::{exit_code, output_collision, palette_section, render_report, FileEntry, PaletteSection};
use build198x::convert::colour::Metric;
use build198x::convert::dither::DitherMode;
use build198x::mediaspec::rgb;

fn args(v: &[&str]) -> Vec<String> {
    v.iter().map(|s| s.to_string()).collect()
}

fn run_args(v: &[&str]) -> ImageArgs {
    match parse_image_args(&args(v)) {
        Ok(ImageParse::Run(a)) => *a,
        Ok(ImageParse::Help) => panic!("help"),
        Err(e) => panic!("{e}"),
    }
}

fn parse_error(v: &[&str]) -> String {
    match parse_image_args(&args(v)) {
        Err(e) => e,
        Ok(_) => panic!("expected an error"),
    }
}

#[test]
fn json_escape_passes_plain_text_through() {
    assert_eq!(json_escape("plain text 123"), "plain text 123");
}

#[test]
fn json_escape_handles_quotes_and_backslashes() {
    assert_eq!(json_escape(r#"a"b\c"#), r#"a\"b\\c"#);
}

#[test]
fn json_escape_handles_control_characters() {
    assert_eq!(json_escape("a\nb\tc\rd\u{1}e"), "a\\nb\\tc\\rd\\u0001e");
}

#[test]
fn json_escape_preserves_non_ascii() {
    assert_eq!(json_escape("café 198×"), "café 198×");
}

#[test]
fn json_escape_matches_the_pipeline_tool() {
    assert_eq!(json_escape("plain 123"), "plain 123");
    assert_eq!(json_escape(r#"a"b\c"#), r#"a\"b\\c"#);
    assert_eq!(json_escape("a\nb\tc\u{1}d"), "a\\nb\\tc\\u0001d");
}

#[test]
fn json_arrays_and_colours() {
    assert_eq!(json_string_array(&[]), "[]");
    assert_eq!(json_string_array(&args(&["a", "b\"c"])), "[\"a\", \"b\\\"c\"]");
    assert_eq!(hex_colour(rgb(0xff, 0x08, 0x1a)), "ff081a");
}

#[test]
fn matte_parses_hex_with_and_without_hash() {
    assert_eq!(parse_matte("ff8001"), Ok([0xff, 0x80, 0x01]));
    assert_eq!(parse_matte("#102030"), Ok([0x10, 0x20, 0x30]));
    assert!(parse_matte("ff80").is_err());
    assert!(parse_matte("zzzzzz").is_err());
    assert!(parse_matte("ff80011").is_err());
}

#[test]
fn matte_errors_name_the_input() {
    assert_eq!(parse_matte("zz").unwrap_err(), "--matte must be six hex digits (rrggbb), got `zz`");
    assert_eq!(parse_matte("ABCDEF"), Ok([0xab, 0xcd, 0xef]));
}

#[test]
fn default_output_uses_stem_and_format_extension() {
    assert_eq!(default_output("art/in.png", Format::Koala), "in.koa");
    assert_eq!(default_output("x.png", Format::Scr), "x.scr");
    assert_eq!(default_output("x.png", Format::ArtStudio), "x.art");
    assert_eq!(default_output("x.png", Format::Ilbm), "x.iff");
    assert_eq!(default_output("..", Format::Scr), "out.scr");
}

fn entry(ok: bool, kind: Option<&'static str>) -> FileEntry {
    FileEntry {
        input: "i".to_owned(),
        ok,
        outputs: Vec::new(),
        error: kind.map(|k| (k, "m".to_owned())),
        warnings: Vec::new(),
        quality: None,
    }
}

#[test]
fn exit_codes_follow_the_documented_map() {
    assert_eq!(exit_code(&[entry(true, None)]), 0);
    assert_eq!(exit_code(&[entry(false, Some("decode"))]), 3);
    assert_eq!(exit_code(&[entry(false, Some("convert"))]), 4);
    assert_eq!(exit_code(&[entry(false, Some("io"))]), 5);
    assert_eq!(exit_code(&[entry(true, None), entry(false, Some("decode"))]), 6);
    assert_eq!(exit_code(&[entry(false, Some("decode")), entry(false, Some("io"))]), 5);
    assert_eq!(exit_code(&[entry(false, Some("decode")), entry(false, Some("convert"))]), 4);
}

#[test]
fn image_args_resolve_defaults() {
    let a = run_args(&["in.png", "--machine", "commodore-c64", "--format", "koala"]);
    assert_eq!(a.inputs, vec!["in.png".to_owned()]);
    assert_eq!(a.mode, "multicolour-bitmap");
    assert_eq!(a.metric, Metric::OkLab);
    assert_eq!(a.dither, DitherMode::Bayer8);
    assert_eq!(a.strength, 32);
    assert_eq!(a.matte, [0, 0, 0]);
    assert!(!a.force && !a.exhaustive_background);
    let ilbm = run_args(&["in.png", "--machine", "commodore-amiga-ocs", "--format", "ilbm"]);
    assert_eq!(ilbm.mode, "lores-pal");
    assert_eq!(ilbm.dither, DitherMode::FloydSteinberg);
}

#[test]
fn image_args_read_every_option() {
    let a = run_args(&[
        "a.png", "--machine", "commodore-amiga-ocs", "--format", "ilbm", "--mode", "hires-pal", "--metric",
        "yuv", "--dither", "none", "--matte", "#102030", "-o", "out.iff", "--preview", "p.png", "--force",
        "--report", "r.json",
    ]);
    assert_eq!(a.mode, "hires-pal");
    assert_eq!(a.metric, Metric::Yuv);
    assert_eq!((a.dither, a.strength), (DitherMode::Bayer8, 0));
    assert_eq!(a.matte, [0x10, 0x20, 0x30]);
    assert_eq!(a.output.as_deref(), Some("out.iff"));
    assert_eq!(a.preview.as_deref(), Some("p.png"));
    assert_eq!(a.report.as_deref(), Some("r.json"));
    assert!(a.force);
    assert_eq!(dither_token(a.dither, a.strength), "none");
    assert_eq!(metric_token(a.metric), "yuv");
}

#[test]
fn help_wins_over_everything() {
    assert!(matches!(parse_image_args(&args(&["--bogus", "-h"])), Ok(ImageParse::Help)));
    assert!(matches!(parse_image_args(&args(&["--help"])), Ok(ImageParse::Help)));
}

#[test]
fn image_argument_errors() {
    assert_eq!(parse_error(&[]), "no input files given");
    assert_eq!(parse_error(&["a.png", "--machine"]), "`--machine` needs a value");
    assert_eq!(parse_error(&["a.png", "-o"]), "`--output` needs a value");
    assert_eq!(parse_error(&["a.png", "--wat"]), "unknown flag `--wat`");
    assert_eq!(parse_error(&["a.png"]), "`--machine` is required");
    assert_eq!(
        parse_error(&["a.png", "--machine", "bbc"]),
        "unknown machine `bbc` (sinclair-zx-spectrum, commodore-c64, commodore-amiga-ocs)"
    );
    assert_eq!(parse_error(&["a.png", "--machine", "commodore-c64"]), "`--format` is required");
    assert_eq!(
        parse_error(&["a.png", "--machine", "commodore-c64", "--format", "gif"]),
        "unknown format `gif` (scr, koala, art-studio, ilbm)"
    );
    assert_eq!(
        parse_error(&["a.png", "--machine", "commodore-c64", "--format", "scr"]),
        "format `scr` targets machine `sinclair-zx-spectrum`, not `commodore-c64`"
    );
    assert_eq!(
        parse_error(&["a.png", "--machine", "commodore-c64", "--format", "koala", "--mode", "x"]),
        "--mode applies to --format ilbm only (format `koala` implies mode `multicolour-bitmap`)"
    );
    assert_eq!(
        parse_error(&["a.png", "--machine", "commodore-amiga-ocs", "--format", "ilbm", "--mode", "x"]),
        "unknown mode `x` for commodore-amiga-ocs (lores-pal, lores-ntsc, hires-pal, hires-ntsc)"
    );
    assert_eq!(
        parse_error(&["a.png", "--machine", "commodore-c64", "--format", "koala", "--palette", "x"]),
        "unknown palette interpretation `x` for commodore-c64 (emu198x-v1, pepto-v1, colodore-v1)"
    );
    assert_eq!(
        parse_error(&["a.png", "--machine", "commodore-amiga-ocs", "--format", "ilbm", "--palette", "x"]),
        "--palette is not available for `commodore-amiga-ocs`: its palette is a generated gamut, not a named interpretation"
    );
    assert_eq!(
        parse_error(&["a.png", "--machine", "commodore-c64", "--format", "koala", "--metric", "x"]),
        "unknown metric `x` (oklab, weighted-rgb, yuv)"
    );
    assert_eq!(
        parse_error(&["a.png", "--machine", "commodore-c64", "--format", "koala", "--dither-strength", "65"]),
        "--dither-strength must be an integer 0..=64, got `65`"
    );
    assert_eq!(
        parse_error(&["a.png", "--machine", "commodore-c64", "--format", "koala", "--dither", "x"]),
        "unknown dither `x` (ordered4, ordered8, fs, atkinson, none)"
    );
    assert_eq!(
        parse_error(&["a.png", "--machine", "commodore-c64", "--format", "koala", "--dither", "fs"]),
        "--dither fs needs a free-palette (planar) target; cell-constrained formats take ordered4, ordered8, or none"
    );
    assert_eq!(
        parse_error(&["a.png", "--machine", "commodore-c64", "--format", "art-studio", "--exhaustive-background"]),
        "--exhaustive-background applies to C64 multicolour (--format koala) only"
    );
    assert_eq!(
        parse_error(&["a.png", "b.png", "--machine", "commodore-c64", "--format", "koala", "-o", "x"]),
        "`-o/--output` takes a single input (batch outputs default to <stem>.<ext> in the cwd)"
    );
    assert_eq!(
        parse_error(&["a.png", "b.png", "--machine", "commodore-c64", "--format", "koala", "--preview", "x"]),
        "`--preview` takes a single input"
    );
}

#[test]
fn strength_reads_as_std_reads_a_u8() {
    let a = run_args(&["a.png", "--machine", "commodore-c64", "--format", "koala", "--dither-strength", "+007"]);
    assert_eq!(a.strength, 7);
    assert_eq!(dither_token(a.dither, 0), "none");
    assert_eq!(dither_token(DitherMode::Bayer4, 3), "ordered4");
}

#[test]
fn batch_outputs_collide_on_the_same_stem() {
    let a = run_args(&["dir/a.png", "other/a.gif", "b.png", "--machine", "commodore-c64", "--format", "koala"]);
    let natives = native_outputs(&a);
    assert_eq!(natives, vec!["a.koa".to_owned(), "a.koa".to_owned(), "b.koa".to_owned()]);
    assert_eq!(output_collision(&natives), Some((0, 1)));
    assert_eq!(output_collision(&natives[1..]), None);
}

#[test]
fn named_palette_section_falls_back_to_the_pinned_default() {
    let a = run_args(&["a.png", "--machine", "sinclair-zx-spectrum", "--format", "scr"]);
    match palette_section(&a, None) {
        PaletteSection::Named { name, colours } => {
            assert_eq!(name, "emu198x-v1");
            assert_eq!(colours.len(), 16);
        }
        PaletteSection::Generated { .. } => panic!("named expected"),
    }
    let ilbm = run_args(&["a.png", "--machine", "commodore-amiga-ocs", "--format", "ilbm"]);
    match palette_section(&ilbm, Some((None, vec![rgb(1, 2, 3)]))) {
        PaletteSection::Generated { gamut_bits, colours } => {
            assert_eq!(gamut_bits, 4);
            assert_eq!(colours, vec![rgb(1, 2, 3)]);
        }
        PaletteSection::Named { .. } => panic!("generated expected"),
    }
}

#[test]
fn report_shape_is_fixed() {
    let a = run_args(&["in\"1.png", "--machine", "commodore-amiga-ocs", "--format", "ilbm"]);
    let palette = PaletteSection::Generated { gamut_bits: 4, colours: vec![rgb(0, 0, 0), rgb(0xff, 0xee, 0xdd)] };
    let mut ok = FileEntry::new("in\"1.png");
    ok.ok = true;
    ok.outputs.push("in1.iff".to_owned());
    ok.quality = Some(("0.125000".to_owned(), 3));
    let mut bad = FileEntry::new("b.png");
    bad.error = Some(("decode", "cannot read b.png".to_owned()));
    let report = render_report("0.2.4", "0.1.0", &a, &palette, &[ok, bad]);
    let expected = r#"{
  "converter_version": "0.2.4",
  "mediaspec_version": "0.1.0",
  "machine": "commodore-amiga-ocs",
  "mode": "lores-pal",
  "format": "ilbm",
  "palette": {
    "kind": "generated",
    "gamut_bits": 4,
    "colours": ["000000", "ffeedd"]
  },
  "options": {
    "metric": "oklab",
    "dither": "fs",
    "strength": 32,
    "matte": "000000",
    "force": false,
    "exhaustive_background": false
  },
  "files": [
    {
      "input": "in\"1.png",
      "status": "ok",
      "outputs": ["in1.iff"],
      "warnings": [],
      "quality": {
        "mean_error": 0.125000,
        "cells_over_threshold": 3
      }
    },
    {
      "input": "b.png",
      "status": "error",
      "outputs": [],
      "error": {
        "kind": "decode",
        "message": "cannot read b.png"
      },
      "warnings": []
    }
  ],
  "summary": {
    "ok": 1,
    "failed": 1
  }
}
"#;
    assert_eq!(report, expected);
}

#[test]
fn ilbm_rejects_palette_flag_and_accepts_explicit_mode() {
    let e = parse_error(&[
        "in.png",
        "--machine",
        "commodore-amiga-ocs",
        "--format",
        "ilbm",
        "--palette",
        "emu198x-v1",
    ]);
    assert!(e.contains("gamut"), "{e}");
    let a = run_args(&[
        "in.png",
        "--machine",
        "commodore-amiga-ocs",
        "--format",
        "ilbm",
        "--mode",
        "hires-pal",
        "--preview",
        "prev.png",
    ]);
    assert_eq!(a.mode, "hires-pal");
    assert_eq!(a.preview, Some("prev.png".to_owned()));
}

#[test]
fn report_escapes_quotes_and_backslashes_in_filenames() {
    let weird = "we\"ird\\name.png";
    let a = run_args(&[weird, "--machine", "sinclair-zx-spectrum", "--format", "scr", "-o", "out.scr"]);
    let palette = palette_section(&a, None);
    let mut e = FileEntry::new(weird);
    e.ok = true;
    e.outputs.push("out.scr".to_owned());
    let report = render_report("0.1.0", "0.1.0", &a, &palette, &[e]);
    assert!(report.contains(r#""input": "we\"ird\\name.png""#), "{report}");
    assert!(!report.contains("we\"ird\\name.png\""));
}

#[test]
fn json_escape_copies_plain_text_and_hides_control_characters() {
    let plain = "Flock — écran 1/2 (final)";
    assert_eq!(json_escape(plain), plain);
    let escaped = json_escape("a\u{1}b\u{1f}\"\\\n");
    assert_eq!(escaped, "a\\u0001b\\u001f\\\"\\\\\\n");
    assert!(escaped.chars().all(|c| c >= ' '));
}
