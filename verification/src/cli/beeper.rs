//! The `beeper` command's own logic: its arguments, the names of its
//! outputs and its one-line JSON report.
use vstd::prelude::*;

use crate::cli::json::{json_array, json_escaped, push_json_array, push_json_escaped, string_views};
use crate::cli::paths::{file_stem, spec_file_stem};
use crate::text::{chars_of, parse_unsigned, parse_unsigned_max, push_str, str_eq, string_of};

verus! {

/// Validated `beeper` arguments.
pub struct BeeperArgs {
    /// The phrase notation file.
    pub input: String,
    /// Where outputs go (`None`: beside the input).
    pub out_dir: Option<String>,
    pub want_wav: bool,
    pub want_asm: bool,
    pub force: bool,
    /// How many times each phrase plays in its WAV, 1..=100.
    pub repeats: u32,
}

/// What the `beeper` arguments resolve to.
pub enum BeeperParse {
    /// `-h`/`--help` came before any error.
    Help,
    /// A validated run.
    Run(BeeperArgs),
}

/// The arguments as the scan has read them so far.
pub struct BeeperScan {
    pub input: Option<Seq<char>>,
    pub out_dir: Option<Seq<char>>,
    pub want_wav: bool,
    pub want_asm: bool,
    pub force: bool,
    pub repeats: u32,
}

/// Nothing read yet: one repeat, no outputs chosen.
pub open spec fn beeper_start() -> BeeperScan {
    BeeperScan { input: None, out_dir: None, want_wav: false, want_asm: false, force: false, repeats: 1 }
}

/// A `--repeat` count: a `u32` (std's reading) in 1..=100.
pub open spec fn repeat_count(s: Seq<char>) -> Option<u32> {
    match parse_unsigned(s, u32::MAX as int) {
        Some(n) => if 1 <= n <= 100 {
            Some(n as u32)
        } else {
            None
        },
        None => None,
    }
}

/// Read the arguments from position `i`, in order: help stops the scan
/// (`None`), each switch sets its flag, `--repeat` takes a count 1..=100
/// and `--out-dir` a path, any other argument starting with `-` is an
/// unknown flag, and the rest is the one input.
pub open spec fn beeper_scan(args: Seq<Seq<char>>, i: int, st: BeeperScan) -> Result<Option<BeeperScan>, Seq<char>>
    decreases args.len() - i,
{
    if i < 0 || i >= args.len() {
        Ok(Some(st))
    } else {
        let a = args[i];
        if a == "--help"@ || a == "-h"@ {
            Ok(None)
        } else if a == "--wav"@ {
            beeper_scan(args, i + 1, BeeperScan { want_wav: true, ..st })
        } else if a == "--asm"@ {
            beeper_scan(args, i + 1, BeeperScan { want_asm: true, ..st })
        } else if a == "--force"@ {
            beeper_scan(args, i + 1, BeeperScan { force: true, ..st })
        } else if a == "--repeat"@ {
            if i + 1 < args.len() && repeat_count(args[i + 1]) is Some {
                beeper_scan(args, i + 2, BeeperScan { repeats: repeat_count(args[i + 1])->0, ..st })
            } else {
                Err("--repeat needs a count 1-100"@)
            }
        } else if a == "--out-dir"@ {
            if i + 1 < args.len() {
                beeper_scan(args, i + 2, BeeperScan { out_dir: Some(args[i + 1]), ..st })
            } else {
                Err("--out-dir needs a path"@)
            }
        } else if a.len() > 0 && a[0] == '-' {
            Err("unknown flag `"@ + a + "`"@)
        } else if st.input is Some {
            Err("one input file only"@)
        } else {
            beeper_scan(args, i + 1, BeeperScan { input: Some(a), ..st })
        }
    }
}

/// What the `beeper` arguments give: help, an error, or the run, with both
/// outputs when neither `--wav` nor `--asm` was given.
pub open spec fn beeper_parse(args: Seq<Seq<char>>) -> Result<Option<BeeperScan>, Seq<char>> {
    match beeper_scan(args, 0, beeper_start()) {
        Err(e) => Err(e),
        Ok(None) => Ok(None),
        Ok(Some(st)) => match st.input {
            None => Err("an input .bpr file is required"@),
            Some(_) => Ok(
                Some(
                    if !st.want_wav && !st.want_asm {
                        BeeperScan { want_wav: true, want_asm: true, ..st }
                    } else {
                        st
                    },
                ),
            ),
        },
    }
}

/// The arguments a scan state stands for.
pub open spec fn beeper_args_match(a: BeeperArgs, st: BeeperScan) -> bool {
    &&& st.input == Some(a.input@)
    &&& st.out_dir == match a.out_dir {
        Some(d) => Some(d@),
        None => None::<Seq<char>>,
    }
    &&& st.want_wav == a.want_wav
    &&& st.want_asm == a.want_asm
    &&& st.force == a.force
    &&& st.repeats == a.repeats
}

/// The scan state the parser's variables stand for.
pub open spec fn scan_of(
    input: Option<String>,
    out_dir: Option<String>,
    wav: bool,
    assembly: bool,
    force: bool,
    repeats: u32,
) -> BeeperScan {
    BeeperScan {
        input: match input {
            Some(s) => Some(s@),
            None => None,
        },
        out_dir: match out_dir {
            Some(s) => Some(s@),
            None => None,
        },
        want_wav: wav,
        want_asm: assembly,
        force,
        repeats,
    }
}

fn message(s: &str) -> (r: String)
    ensures
        r@ == s@,
{
    s.to_owned()
}

/// Parse the `beeper` command's arguments (see [`beeper_parse`]).
pub fn parse_beeper_args(args: &[String]) -> (r: Result<BeeperParse, String>)
    ensures
        match beeper_parse(string_views(args@)) {
            Err(e) => r matches Err(m) && m@ == e,
            Ok(None) => r matches Ok(BeeperParse::Help),
            Ok(Some(st)) => r matches Ok(BeeperParse::Run(a)) && beeper_args_match(a, st),
        },
{
    let ghost av = string_views(args@);
    let mut input: Option<String> = None;
    let mut out_dir: Option<String> = None;
    let mut want_wav = false;
    let mut want_asm = false;
    let mut force = false;
    let mut repeats: u32 = 1;
    let mut i: usize = 0;
    while i < args.len()
        invariant
            av == string_views(args@),
            i <= args@.len(),
            beeper_scan(av, 0, beeper_start()) == beeper_scan(
                av,
                i as int,
                scan_of(input, out_dir, want_wav, want_asm, force, repeats),
            ),
        decreases args@.len() - i,
    {
        let a = args[i].as_str();
        assert(av[i as int] == a@);
        if str_eq(a, "--help") || str_eq(a, "-h") {
            return Ok(BeeperParse::Help);
        } else if str_eq(a, "--wav") {
            want_wav = true;
            i += 1;
        } else if str_eq(a, "--asm") {
            want_asm = true;
            i += 1;
        } else if str_eq(a, "--force") {
            force = true;
            i += 1;
        } else if str_eq(a, "--repeat") {
            if i + 1 < args.len() {
                assert(av[i + 1] == args@[i + 1]@);
                let cs = chars_of(args[i + 1].as_str());
                match parse_unsigned_max(cs.as_slice(), u32::MAX) {
                    Some(n) => {
                        if 1 <= n && n <= 100 {
                            repeats = n;
                            i += 2;
                            continue;
                        }
                    },
                    None => {},
                }
            }
            return Err(message("--repeat needs a count 1-100"));
        } else if str_eq(a, "--out-dir") {
            if i + 1 < args.len() {
                assert(av[i + 1] == args@[i + 1]@);
                out_dir = Some(args[i + 1].clone());
                i += 2;
            } else {
                return Err(message("--out-dir needs a path"));
            }
        } else {
            let cs = chars_of(a);
            if cs.len() > 0 && cs[0] == '-' {
                let mut m: Vec<char> = Vec::new();
                push_str(&mut m, "unknown flag `");
                push_str(&mut m, a);
                push_str(&mut m, "`");
                return Err(string_of(m.as_slice()));
            }
            if input.is_some() {
                return Err(message("one input file only"));
            }
            input = Some(a.to_owned());
            i += 1;
        }
    }
    match input {
        None => Err(message("an input .bpr file is required")),
        Some(inp) => {
            if !want_wav && !want_asm {
                want_wav = true;
                want_asm = true;
            }
            Ok(BeeperParse::Run(BeeperArgs { input: inp, out_dir, want_wav, want_asm, force, repeats }))
        },
    }
}

/// The assembly file's name: the input's stem (`phrases` when it has
/// none) with `.asm`.
pub open spec fn asm_name_of(stem: Option<Seq<char>>) -> Seq<char> {
    (match stem {
        Some(s) => s,
        None => "phrases"@,
    }) + ".asm"@
}

/// The assembly file's name for an input path.
pub fn asm_file_name(input: &str) -> (r: String)
    ensures
        r@ == asm_name_of(spec_file_stem(input@)),
{
    let mut m: Vec<char> = Vec::new();
    match file_stem(input) {
        Some(s) => push_str(&mut m, s.as_str()),
        None => push_str(&mut m, "phrases"),
    }
    push_str(&mut m, ".asm");
    string_of(m.as_slice())
}

/// A phrase's preview file name: the phrase name with `.wav`.
pub fn wav_file_name(phrase_name: &str) -> (r: String)
    ensures
        r@ == phrase_name@ + ".wav"@,
{
    let mut m: Vec<char> = Vec::new();
    push_str(&mut m, phrase_name);
    push_str(&mut m, ".wav");
    string_of(m.as_slice())
}

/// The `beeper` command's one-line report: the converter version, the tool,
/// the input, the phrase names and the files written.
pub open spec fn beeper_report_text(
    version: Seq<char>,
    input: Seq<char>,
    phrases: Seq<Seq<char>>,
    written: Seq<Seq<char>>,
) -> Seq<char> {
    "{\"converter_version\": \""@ + version + "\", \"tool\": \"beeper\", \"input\": \""@ + json_escaped(input)
        + "\", \"phrases\": "@ + json_array(phrases) + ", \"outputs\": "@ + json_array(written) + "}"@
}

/// Render the `beeper` command's report line.
pub fn beeper_report(version: &str, input: &str, phrases: &[String], written: &[String]) -> (r: String)
    ensures
        r@ == beeper_report_text(version@, input@, string_views(phrases@), string_views(written@)),
{
    let mut m: Vec<char> = Vec::new();
    push_str(&mut m, "{\"converter_version\": \"");
    push_str(&mut m, version);
    push_str(&mut m, "\", \"tool\": \"beeper\", \"input\": \"");
    let cs = chars_of(input);
    push_json_escaped(&mut m, cs.as_slice());
    push_str(&mut m, "\", \"phrases\": ");
    push_json_array(&mut m, phrases);
    push_str(&mut m, ", \"outputs\": ");
    push_json_array(&mut m, written);
    push_str(&mut m, "}");
    assert(m@ =~= beeper_report_text(version@, input@, string_views(phrases@), string_views(written@)));
    string_of(m.as_slice())
}

} // verus!
