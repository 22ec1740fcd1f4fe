//! The `basic` command's own logic: its arguments, the lint gate before a
//! build, and the lines it prints.
use vstd::prelude::*;

use crate::basic::lint::{blank_line_message, check, check_spec, findings_view, Finding, FindingView};
use crate::basic::{build, error_text, machine_id, spec_build, Built, Error, Machine};
use crate::cli::json::{json_escaped, push_json_escaped, string_views};
use crate::cli::paths::{file_stem, spec_file_stem};
use crate::text::{chars_of, decimal, ends_with, has_suffix, push_decimal, push_str, str_eq, string_of};

verus! {

// --- arguments -----------------------------------------------------------------------

/// The arguments as the scan has read them so far.
pub struct BasicScan {
    pub inputs: Seq<Seq<char>>,
    pub machine: Option<Seq<char>>,
    pub output: Option<Seq<char>>,
    pub name: Option<Seq<char>>,
    pub autorun: bool,
    pub format: Option<Seq<char>>,
    pub fix: bool,
}

/// Nothing read yet: no input, machine or output, auto-running, text.
pub open spec fn basic_start() -> BasicScan {
    BasicScan { inputs: seq![], machine: None, output: None, name: None, autorun: true, format: None, fix: false }
}

/// Read the arguments from position `i`, in order: help stops the scan
/// (`None`); `--machine` takes an id; the build takes `-o`/`--output`,
/// `--name`, `--no-autorun` and `--format`, the lint `--fix`; any other
/// argument starting with `-` is an unknown flag, and the rest are inputs.
pub open spec fn basic_scan(args: Seq<Seq<char>>, i: int, lint: bool, st: BasicScan) -> Result<
    Option<BasicScan>,
    Seq<char>,
>
    decreases args.len() - i,
{
    if i < 0 || i >= args.len() {
        Ok(Some(st))
    } else {
        let a = args[i];
        if a == "--help"@ || a == "-h"@ {
            Ok(None)
        } else if a == "--machine"@ {
            if i + 1 < args.len() {
                basic_scan(args, i + 2, lint, BasicScan { machine: Some(args[i + 1]), ..st })
            } else {
                Err("--machine needs an id"@)
            }
        } else if lint && a == "--fix"@ {
            basic_scan(args, i + 1, lint, BasicScan { fix: true, ..st })
        } else if !lint && (a == "-o"@ || a == "--output"@) {
            if i + 1 < args.len() {
                basic_scan(args, i + 2, lint, BasicScan { output: Some(args[i + 1]), ..st })
            } else {
                Err("-o needs a path"@)
            }
        } else if !lint && a == "--name"@ {
            if i + 1 < args.len() {
                basic_scan(args, i + 2, lint, BasicScan { name: Some(args[i + 1]), ..st })
            } else {
                Err("--name needs a value"@)
            }
        } else if !lint && a == "--no-autorun"@ {
            basic_scan(args, i + 1, lint, BasicScan { autorun: false, ..st })
        } else if !lint && a == "--format"@ {
            if i + 1 < args.len() {
                basic_scan(args, i + 2, lint, BasicScan { format: Some(args[i + 1]), ..st })
            } else {
                Err("--format needs a value (text or json)"@)
            }
        } else if a.len() > 0 && a[0] == '-' {
            Err("unknown flag `"@ + a + "`"@)
        } else {
            basic_scan(args, i + 1, lint, BasicScan { inputs: st.inputs.push(a), ..st })
        }
    }
}

/// The machine an id names, if this command builds for it.
pub open spec fn machine_of(id: Seq<char>) -> Option<Machine> {
    if id == machine_id(Machine::SinclairZxSpectrum) {
        Some(Machine::SinclairZxSpectrum)
    } else if id == machine_id(Machine::CommodoreC64) {
        Some(Machine::CommodoreC64)
    } else {
        None
    }
}

/// The dotted extension of the file a machine loads.
pub open spec fn dotted_extension(m: Machine) -> Seq<char> {
    match m {
        Machine::SinclairZxSpectrum => ".tap"@,
        Machine::CommodoreC64 => ".prg"@,
    }
}

/// What the `basic` arguments give: help, an error, or the scan for the
/// lint verb (a leading `lint`, `true`) or a build (`false`). A machine is
/// required and must be one this command builds for; a lint needs an
/// input; a build needs exactly one input and an output whose extension is
/// the machine's, and a format of text or json.
pub open spec fn basic_parse(args: Seq<Seq<char>>) -> Result<Option<(bool, BasicScan)>, Seq<char>> {
    let lint = args.len() > 0 && args[0] == "lint"@;
    match basic_scan(args, if lint { 1 } else { 0 }, lint, basic_start()) {
        Err(e) => Err(e),
        Ok(None) => Ok(None),
        Ok(Some(st)) => match st.machine {
            None => Err("--machine is required (sinclair-zx-spectrum or commodore-c64)"@),
            Some(id) => match machine_of(id) {
                None => Err("unknown machine `"@ + id + "` (use sinclair-zx-spectrum or commodore-c64)"@),
                Some(m) => if lint {
                    if st.inputs.len() == 0 {
                        Err("at least one input .bas file is required"@)
                    } else {
                        Ok(Some((true, st)))
                    }
                } else if st.inputs.len() == 0 {
                    Err("an input .bas file is required"@)
                } else if st.inputs.len() > 1 {
                    Err("one input file only"@)
                } else {
                    match st.output {
                        None => Err("an output path is required (-o <out>)"@),
                        Some(o) => if !ends_with(o, dotted_extension(m)) {
                            Err("output for "@ + id + " must end in "@ + dotted_extension(m))
                        } else {
                            match st.format {
                                Some(f) => if f != "text"@ && f != "json"@ {
                                    Err("unknown format `"@ + f + "` (use text or json)"@)
                                } else {
                                    Ok(Some((false, st)))
                                },
                                None => Ok(Some((false, st))),
                            }
                        },
                    }
                },
            },
        },
    }
}

/// Validated arguments of a build.
pub struct BuildArgs {
    pub input: String,
    pub machine: Machine,
    pub output: String,
    /// The tape name asked for: `--name`, else the output's stem (empty
    /// when it has none); the build keeps its first ten characters.
    pub name: String,
    pub autorun: bool,
    /// `--format json`.
    pub json: bool,
}

/// Validated arguments of a lint.
pub struct LintArgs {
    pub inputs: Vec<String>,
    pub machine: Machine,
    pub fix: bool,
}

/// What the `basic` arguments resolve to.
pub enum BasicParse {
    Help,
    Build(BuildArgs),
    Lint(LintArgs),
}

/// The tape name a build asks for: `--name`, else the output's stem.
pub open spec fn name_of(name: Option<Seq<char>>, output: Seq<char>) -> Seq<char> {
    match name {
        Some(n) => n,
        None => match spec_file_stem(output) {
            Some(s) => s,
            None => seq![],
        },
    }
}

/// The arguments a build scan stands for.
pub open spec fn build_args_match(b: BuildArgs, st: BasicScan) -> bool {
    &&& st.inputs.len() == 1 && b.input@ == st.inputs[0]
    &&& st.machine == Some(machine_id(b.machine))
    &&& st.output == Some(b.output@)
    &&& b.name@ == name_of(st.name, b.output@)
    &&& b.autorun == st.autorun
    &&& b.json == (st.format == Some("json"@))
}

/// The arguments a lint scan stands for.
pub open spec fn lint_args_match(l: LintArgs, st: BasicScan) -> bool {
    &&& string_views(l.inputs@) == st.inputs
    &&& st.machine == Some(machine_id(l.machine))
    &&& l.fix == st.fix
}

/// The scan state the parser's variables stand for.
pub open spec fn basic_scan_of(
    inputs: Seq<String>,
    machine: Option<String>,
    output: Option<String>,
    name: Option<String>,
    autorun: bool,
    format: Option<String>,
    fix: bool,
) -> BasicScan {
    BasicScan {
        inputs: string_views(inputs),
        machine: match machine {
            Some(s) => Some(s@),
            None => None,
        },
        output: match output {
            Some(s) => Some(s@),
            None => None,
        },
        name: match name {
            Some(s) => Some(s@),
            None => None,
        },
        autorun,
        format: match format {
            Some(s) => Some(s@),
            None => None,
        },
        fix,
    }
}

fn message(s: &str) -> (r: String)
    ensures
        r@ == s@,
{
    s.to_owned()
}

/// Parse the `basic` command's arguments (see [`basic_parse`]).
pub fn parse_basic_args(args: &[String]) -> (r: Result<BasicParse, String>)
    ensures
        match basic_parse(string_views(args@)) {
            Err(e) => r matches Err(m) && m@ == e,
            Ok(None) => r matches Ok(BasicParse::Help),
            Ok(Some((true, st))) => r matches Ok(BasicParse::Lint(l)) && lint_args_match(l, st),
            Ok(Some((false, st))) => r matches Ok(BasicParse::Build(b)) && build_args_match(b, st),
        },
{
    let ghost av = string_views(args@);
    let lint = args.len() > 0 && str_eq(args[0].as_str(), "lint");
    assert(args@.len() > 0 ==> av[0] == args@[0]@);
    assert(lint == (av.len() > 0 && av[0] == "lint"@));
    let mut inputs: Vec<String> = Vec::new();
    let mut machine: Option<String> = None;
    let mut output: Option<String> = None;
    let mut name: Option<String> = None;
    let mut autorun = true;
    let mut format: Option<String> = None;
    let mut fix = false;
    let mut i: usize = if lint {
        1
    } else {
        0
    };
    assert(string_views(inputs@) =~= Seq::<Seq<char>>::empty());
    assert(basic_scan_of(inputs@, machine, output, name, autorun, format, fix) == basic_start());
    while i < args.len()
        invariant
            av == string_views(args@),
            i <= args@.len(),
            lint == (av.len() > 0 && av[0] == "lint"@),
            basic_scan(av, if lint { 1 } else { 0 }, lint, basic_start()) == basic_scan(
                av,
                i as int,
                lint,
                basic_scan_of(inputs@, machine, output, name, autorun, format, fix),
            ),
        decreases args@.len() - i,
    {
        let a = args[i].as_str();
        assert(av[i as int] == a@);
        if str_eq(a, "--help") || str_eq(a, "-h") {
            return Ok(BasicParse::Help);
        } else if str_eq(a, "--machine") {
            if i + 1 < args.len() {
                assert(av[i + 1] == args@[i + 1]@);
                machine = Some(args[i + 1].clone());
                i += 2;
            } else {
                return Err(message("--machine needs an id"));
            }
        } else if lint && str_eq(a, "--fix") {
            fix = true;
            i += 1;
        } else if !lint && (str_eq(a, "-o") || str_eq(a, "--output")) {
            if i + 1 < args.len() {
                assert(av[i + 1] == args@[i + 1]@);
                output = Some(args[i + 1].clone());
                i += 2;
            } else {
                return Err(message("-o needs a path"));
            }
        } else if !lint && str_eq(a, "--name") {
            if i + 1 < args.len() {
                assert(av[i + 1] == args@[i + 1]@);
                name = Some(args[i + 1].clone());
                i += 2;
            } else {
                return Err(message("--name needs a value"));
            }
        } else if !lint && str_eq(a, "--no-autorun") {
            autorun = false;
            i += 1;
        } else if !lint && str_eq(a, "--format") {
            if i + 1 < args.len() {
                assert(av[i + 1] == args@[i + 1]@);
                format = Some(args[i + 1].clone());
                i += 2;
            } else {
                return Err(message("--format needs a value (text or json)"));
            }
        } else {
            let cs = chars_of(a);
            if cs.len() > 0 && cs[0] == '-' {
                let mut m: Vec<char> = Vec::new();
                push_str(&mut m, "unknown flag `");
                push_str(&mut m, a);
                push_str(&mut m, "`");
                return Err(string_of(m.as_slice()));
            }
            let ghost before = inputs@;
            inputs.push(a.to_owned());
            assert(string_views(inputs@) =~= string_views(before).push(a@));
            i += 1;
        }
    }
    let id = match machine {
        None => return Err(message("--machine is required (sinclair-zx-spectrum or commodore-c64)")),
        Some(id) => id,
    };
    let m = match Machine::from_id(id.as_str()) {
        Some(m) => m,
        None => {
            let mut e: Vec<char> = Vec::new();
            push_str(&mut e, "unknown machine `");
            push_str(&mut e, id.as_str());
            push_str(&mut e, "` (use sinclair-zx-spectrum or commodore-c64)");
            return Err(string_of(e.as_slice()));
        },
    };
    proof {
        crate::basic::lemma_machine_ids_distinct();
    }
    assert(machine_of(id@) == Some(m));
    if lint {
        if inputs.len() == 0 {
            return Err(message("at least one input .bas file is required"));
        }
        return Ok(BasicParse::Lint(LintArgs { inputs, machine: m, fix }));
    }
    if inputs.len() == 0 {
        return Err(message("an input .bas file is required"));
    }
    if inputs.len() > 1 {
        return Err(message("one input file only"));
    }
    let out = match output {
        None => return Err(message("an output path is required (-o <out>)")),
        Some(o) => o,
    };
    let ext = match m {
        Machine::SinclairZxSpectrum => ".tap",
        Machine::CommodoreC64 => ".prg",
    };
    let oc = chars_of(out.as_str());
    if !has_suffix(oc.as_slice(), ext) {
        let mut e: Vec<char> = Vec::new();
        push_str(&mut e, "output for ");
        push_str(&mut e, id.as_str());
        push_str(&mut e, " must end in ");
        push_str(&mut e, ext);
        return Err(string_of(e.as_slice()));
    }
    let json = match &format {
        Some(f) => {
            if str_eq(f.as_str(), "json") {
                true
            } else if str_eq(f.as_str(), "text") {
                false
            } else {
                let mut e: Vec<char> = Vec::new();
                push_str(&mut e, "unknown format `");
                push_str(&mut e, f.as_str());
                push_str(&mut e, "` (use text or json)");
                return Err(string_of(e.as_slice()));
            }
        },
        None => false,
    };
    proof {
        reveal_strlit("json");
        reveal_strlit("text");
    }
    let tape = match name {
        Some(n) => n,
        None => match file_stem(out.as_str()) {
            Some(s) => s,
            None => String::new(),
        },
    };
    assert(string_views(inputs@)[0] == inputs@[0]@);
    let input = inputs[0].clone();
    Ok(BasicParse::Build(BuildArgs { input, machine: m, output: out, name: tape, autorun, json }))
}

// --- the lint gate ---------------------------------------------------------------------

/// Whether a finding stops a build: every finding but the one on a blank
/// line, which the tokenisers skip.
pub open spec fn blocks_build(f: FindingView) -> bool {
    !(f.rule == "listing-form"@ && f.message == blank_line_message())
}

/// The findings that stop a build, in order.
pub open spec fn blocking(fs: Seq<FindingView>) -> Seq<FindingView>
    decreases fs.len(),
{
    if fs.len() == 0 {
        seq![]
    } else {
        blocking(fs.drop_last()) + if blocks_build(fs.last()) {
            seq![fs.last()]
        } else {
            seq![]
        }
    }
}

/// Why a listing was not built.
pub enum Refusal {
    /// Lint findings that stop the build, in order.
    Findings(Vec<Finding>),
    /// A line the dialect cannot read, or the build's own error.
    Unbuildable(Error),
}

fn copy_finding(f: &Finding) -> (g: Finding)
    ensures
        g@ == f@,
{
    Finding { line: f.line, column: f.column, rule: f.rule, message: f.message.clone() }
}

/// The findings that stop a build (see [`blocking`]).
pub fn blocking_findings(fs: &[Finding]) -> (r: Vec<Finding>)
    ensures
        findings_view(r@) == blocking(findings_view(fs@)),
{
    let ghost all = findings_view(fs@);
    let mut r: Vec<Finding> = Vec::new();
    let mut i: usize = 0;
    while i < fs.len()
        invariant
            all == findings_view(fs@),
            i <= fs@.len(),
            findings_view(r@) == blocking(all.take(i as int)),
        decreases fs@.len() - i,
    {
        let f = &fs[i];
        assert(all[i as int] == f@);
        assert(all.take(i + 1).drop_last() =~= all.take(i as int));
        let blank = str_eq(f.rule, "listing-form") && str_eq(f.message.as_str(), "LIST never shows a blank line; remove it");
        let ghost before = r@;
        if !blank {
            r.push(copy_finding(f));
            assert(findings_view(r@) =~= findings_view(before).push(f@));
        } else {
            assert(findings_view(r@) =~= findings_view(before));
        }
        proof {
            reveal_strlit("LIST never shows a blank line; remove it");
        }
        assert(findings_view(r@) =~= blocking(all.take(i + 1)));
        i += 1;
    }
    assert(all.take(fs@.len() as int) =~= all);
    r
}

/// Lint a listing and build it only when no finding stops the build: a
/// listing that fails lint is never built.
pub fn build_checked(machine: Machine, source: &str, name: &str, autorun: bool) -> (r: Result<Built, Refusal>)
    ensures
        match check_spec(machine, source@) {
            Err(e) => r matches Err(Refusal::Unbuildable(x)) && (x.line, x.message@) == e,
            Ok(fs) => if blocking(fs).len() > 0 {
                r matches Err(Refusal::Findings(v)) && findings_view(v@) == blocking(fs)
            } else {
                match spec_build(machine, source@, name@, autorun) {
                    Ok((bytes, lines, length, run)) => r matches Ok(b) && b.bytes@ == bytes && b.lines == lines
                        && b.program_length == length && b.autorun == run,
                    Err(e) => r matches Err(Refusal::Unbuildable(x)) && (x.line, x.message@) == e,
                }
            },
        },
{
    let findings = match check(machine, source) {
        Ok(f) => f,
        Err(e) => return Err(Refusal::Unbuildable(e)),
    };
    let stops = blocking_findings(findings.as_slice());
    if stops.len() > 0 {
        return Err(Refusal::Findings(stops));
    }
    match build(machine, source, name, autorun) {
        Ok(b) => Ok(b),
        Err(e) => Err(Refusal::Unbuildable(e)),
    }
}

// --- what it prints --------------------------------------------------------------------

/// A finding as the lint prints it: `file:line:column: rule: message`.
pub open spec fn finding_text(path: Seq<char>, f: FindingView) -> Seq<char> {
    path + ":"@ + decimal(f.line as nat) + ":"@ + decimal(f.column as nat) + ": "@ + f.rule + ": "@ + f.message
}

/// A finding as the lint prints it (see [`finding_text`]).
pub fn finding_line(path: &str, f: &Finding) -> (r: String)
    ensures
        r@ == finding_text(path@, f@),
{
    let mut m: Vec<char> = Vec::new();
    push_str(&mut m, path);
    push_str(&mut m, ":");
    push_decimal(&mut m, f.line as u64);
    push_str(&mut m, ":");
    push_decimal(&mut m, f.column as u64);
    push_str(&mut m, ": ");
    push_str(&mut m, f.rule);
    push_str(&mut m, ": ");
    push_str(&mut m, f.message.as_str());
    assert(m@ =~= finding_text(path@, f@));
    string_of(m.as_slice())
}

/// An unbuildable listing's line: `file:line: message`, or `file: message`
/// when the error is not about one line.
pub open spec fn unbuildable_text(path: Seq<char>, line: usize, message: Seq<char>) -> Seq<char> {
    if line == 0 {
        path + ": "@ + message
    } else {
        path + ":"@ + decimal(line as nat) + ": "@ + message
    }
}

/// An unbuildable listing's line (see [`unbuildable_text`]).
pub fn unbuildable_line(path: &str, e: &Error) -> (r: String)
    ensures
        r@ == unbuildable_text(path@, e.line, e.message@),
{
    let mut m: Vec<char> = Vec::new();
    push_str(&mut m, path);
    if e.line == 0 {
        push_str(&mut m, ": ");
    } else {
        push_str(&mut m, ":");
        push_decimal(&mut m, e.line as u64);
        push_str(&mut m, ": ");
    }
    push_str(&mut m, e.message.as_str());
    assert(m@ =~= unbuildable_text(path@, e.line, e.message@));
    string_of(m.as_slice())
}

/// The build's JSON report line.
pub open spec fn build_json_text(
    version: Seq<char>,
    m: Machine,
    input: Seq<char>,
    output: Seq<char>,
    lines: nat,
    length: nat,
    autorun: Option<u16>,
) -> Seq<char> {
    "{\"tool_version\":\""@ + version + "\",\"machine\":\""@ + machine_id(m) + "\",\"input\":\""@ + json_escaped(
        input,
    ) + "\",\"output\":\""@ + json_escaped(output) + "\",\"lines\":"@ + decimal(lines) + ",\"program_length\":"@
        + decimal(length) + ",\"autorun\":"@ + match autorun {
        Some(n) => decimal(n as nat),
        None => "null"@,
    } + "}"@
}

/// The build's JSON report line (see [`build_json_text`]).
pub fn build_json(version: &str, m: Machine, input: &str, output: &str, b: &Built) -> (r: String)
    ensures
        r@ == build_json_text(version@, m, input@, output@, b.lines as nat, b.program_length as nat, b.autorun),
{
    let mut s: Vec<char> = Vec::new();
    push_str(&mut s, "{\"tool_version\":\"");
    push_str(&mut s, version);
    push_str(&mut s, "\",\"machine\":\"");
    push_str(&mut s, m.id());
    push_str(&mut s, "\",\"input\":\"");
    let ic = chars_of(input);
    push_json_escaped(&mut s, ic.as_slice());
    push_str(&mut s, "\",\"output\":\"");
    let oc = chars_of(output);
    push_json_escaped(&mut s, oc.as_slice());
    push_str(&mut s, "\",\"lines\":");
    push_decimal(&mut s, b.lines as u64);
    push_str(&mut s, ",\"program_length\":");
    push_decimal(&mut s, b.program_length as u64);
    push_str(&mut s, ",\"autorun\":");
    match b.autorun {
        Some(n) => push_decimal(&mut s, n as u64),
        None => push_str(&mut s, "null"),
    }
    push_str(&mut s, "}");
    assert(s@ =~= build_json_text(version@, m, input@, output@, b.lines as nat, b.program_length as nat, b.autorun));
    string_of(s.as_slice())
}

/// The build's text report line: the output, its numbered lines, the
/// program's length and where it runs from.
pub open spec fn build_text_text(output: Seq<char>, lines: nat, length: nat, autorun: Option<u16>) -> Seq<char> {
    output + ": "@ + decimal(lines) + " lines, "@ + decimal(length) + " bytes of BASIC, "@ + match autorun {
        Some(n) => "runs from line "@ + decimal(n as nat),
        None => "does not run by itself"@,
    }
}

/// The build's text report line (see [`build_text_text`]).
pub fn build_text(output: &str, b: &Built) -> (r: String)
    ensures
        r@ == build_text_text(output@, b.lines as nat, b.program_length as nat, b.autorun),
{
    let mut s: Vec<char> = Vec::new();
    push_str(&mut s, output);
    push_str(&mut s, ": ");
    push_decimal(&mut s, b.lines as u64);
    push_str(&mut s, " lines, ");
    push_decimal(&mut s, b.program_length as u64);
    push_str(&mut s, " bytes of BASIC, ");
    match b.autorun {
        Some(n) => {
            push_str(&mut s, "runs from line ");
            push_decimal(&mut s, n as u64);
        },
        None => push_str(&mut s, "does not run by itself"),
    }
    assert(s@ =~= build_text_text(output@, b.lines as nat, b.program_length as nat, b.autorun));
    string_of(s.as_slice())
}

} // verus!
