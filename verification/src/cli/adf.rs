//! The `adf` command's own logic: the `--format` switch, the arguments of
//! its verbs, default names and labels, the `--add` mapping, the listing
//! order, and the text and JSON lines each verb prints.
use vstd::prelude::*;

use crate::cli::json::{json_escaped, push_json_escaped, string_views};
use crate::cli::paths::{file_name, file_stem, spec_file_name, spec_file_stem};
use crate::text::{
    chars_le, chars_of, decimal, find_char, find_char_in, lemma_append_assoc, lemma_find_char,
    lemma_text_le_total, lemma_text_le_transitive, pad_chars, pad_left_to, pad_to, push_padded_left, text_le, push_chars, push_decimal, push_str, slice_chars, str_eq, string_of,
};

verus! {

/// The output format of the adf verbs: human text (default) or one JSON
/// line.
#[derive(Debug, Clone, Copy, PartialEq, Eq, Structural)]
pub enum AdfFormat {
    Text,
    Json,
}

/// Which Amiga filesystem a disk carries or is written with.
#[derive(Debug, Clone, Copy, PartialEq, Eq, Structural)]
pub enum AdfFs {
    /// Old File System (`DOS\0`); boots on Kickstart 1.3.
    Ofs,
    /// Fast File System (`DOS\1`); boots on Kickstart 2.0+.
    Ffs,
}

/// The lowercase short name of a filesystem.
pub open spec fn fs_name(fs: AdfFs) -> Seq<char> {
    match fs {
        AdfFs::Ofs => "ofs"@,
        AdfFs::Ffs => "ffs"@,
    }
}

/// The uppercase short name of a filesystem.
pub open spec fn fs_upper(fs: AdfFs) -> Seq<char> {
    match fs {
        AdfFs::Ofs => "OFS"@,
        AdfFs::Ffs => "FFS"@,
    }
}

impl AdfFs {
    /// The lowercase short name: `ofs` or `ffs`.
    pub fn name(self) -> (r: &'static str)
        ensures
            r@ == fs_name(self),
    {
        match self {
            AdfFs::Ofs => "ofs",
            AdfFs::Ffs => "ffs",
        }
    }

    /// The uppercase short name: `OFS` or `FFS`.
    pub fn upper_name(self) -> (r: &'static str)
        ensures
            r@ == fs_upper(self),
    {
        match self {
            AdfFs::Ofs => "OFS",
            AdfFs::Ffs => "FFS",
        }
    }
}

// --- --format -------------------------------------------------------------------------

/// Pull every `--format <text|json>` out of an argument list from
/// position `i`: the last one given wins; a bad or missing value is an
/// error.
pub open spec fn take_format_from(args: Seq<Seq<char>>, i: int, fmt: AdfFormat, rest: Seq<Seq<char>>) -> Result<(AdfFormat, Seq<Seq<char>>), Seq<char>>
    decreases args.len() - i,
{
    if i < 0 || i >= args.len() {
        Ok((fmt, rest))
    } else if args[i] == "--format"@ {
        if i + 1 >= args.len() {
            Err("--format needs a value (text or json)"@)
        } else if args[i + 1] == "text"@ {
            take_format_from(args, i + 2, AdfFormat::Text, rest)
        } else if args[i + 1] == "json"@ {
            take_format_from(args, i + 2, AdfFormat::Json, rest)
        } else {
            Err("unknown format `"@ + args[i + 1] + "` (use text or json)"@)
        }
    } else {
        take_format_from(args, i + 1, fmt, rest.push(args[i]))
    }
}

fn text_of(s: &str) -> (r: String)
    ensures
        r@ == s@,
{
    s.to_owned()
}

/// Pull `--format <text|json>` from an adf argument list, returning the
/// format (text by default) and the remaining arguments in order.
pub fn adf_take_format(args: &[String]) -> (r: Result<(AdfFormat, Vec<String>), String>)
    ensures
        match take_format_from(string_views(args@), 0, AdfFormat::Text, Seq::empty()) {
            Ok((f, rest)) => r matches Ok((g, v)) && g == f && string_views(v@) == rest,
            Err(e) => r matches Err(m) && m@ == e,
        },
{
    let ghost av = string_views(args@);
    let mut fmt = AdfFormat::Text;
    let mut rest: Vec<String> = Vec::new();
    assert(string_views(rest@) =~= Seq::<Seq<char>>::empty());
    let mut i: usize = 0;
    while i < args.len()
        invariant
            av == string_views(args@),
            i <= args@.len(),
            take_format_from(av, 0, AdfFormat::Text, Seq::empty()) == take_format_from(
                av,
                i as int,
                fmt,
                string_views(rest@),
            ),
        decreases args@.len() - i,
    {
        assert(av[i as int] == args@[i as int]@);
        if str_eq(args[i].as_str(), "--format") {
            if i + 1 >= args.len() {
                return Err(text_of("--format needs a value (text or json)"));
            }
            assert(av[i + 1] == args@[i + 1]@);
            let v = args[i + 1].as_str();
            if str_eq(v, "text") {
                fmt = AdfFormat::Text;
            } else if str_eq(v, "json") {
                fmt = AdfFormat::Json;
            } else {
                let mut m: Vec<char> = Vec::new();
                push_str(&mut m, "unknown format `");
                push_str(&mut m, v);
                push_str(&mut m, "` (use text or json)");
                return Err(string_of(m.as_slice()));
            }
            i += 2;
        } else {
            let ghost before = rest@;
            rest.push(args[i].clone());
            assert(string_views(rest@) =~= string_views(before).push(av[i as int]));
            i += 1;
        }
    }
    Ok((fmt, rest))
}

// --- master -------------------------------------------------------------------------

/// The arguments of the master verb as the scan reads them.
pub struct MasterScan {
    pub exe: Option<Seq<char>>,
    pub output: Option<Seq<char>>,
    pub volume: Option<Seq<char>>,
    pub name: Option<Seq<char>>,
    pub fs: AdfFs,
}

/// Nothing read yet: OFS.
pub open spec fn master_start() -> MasterScan {
    MasterScan { exe: None, output: None, volume: None, name: None, fs: AdfFs::Ofs }
}

/// Read the master arguments from position `i`: help stops the scan
/// (`None`); `--ffs`/`--ofs` choose the filesystem when `fs_flags`; `-o`,
/// `--volume` and `--name` take a value; any other argument starting with
/// `-` is an unknown flag; the rest is the one executable.
pub open spec fn master_scan(args: Seq<Seq<char>>, i: int, fs_flags: bool, st: MasterScan) -> Result<Option<MasterScan>, Seq<char>>
    decreases args.len() - i,
{
    if i < 0 || i >= args.len() {
        Ok(Some(st))
    } else {
        let a = args[i];
        if a == "--help"@ || a == "-h"@ {
            Ok(None)
        } else if fs_flags && a == "--ffs"@ {
            master_scan(args, i + 1, fs_flags, MasterScan { fs: AdfFs::Ffs, ..st })
        } else if fs_flags && a == "--ofs"@ {
            master_scan(args, i + 1, fs_flags, MasterScan { fs: AdfFs::Ofs, ..st })
        } else if a == "-o"@ || a == "--output"@ {
            if i + 1 < args.len() {
                master_scan(args, i + 2, fs_flags, MasterScan { output: Some(args[i + 1]), ..st })
            } else {
                Err("-o needs a path"@)
            }
        } else if a == "--volume"@ {
            if i + 1 < args.len() {
                master_scan(args, i + 2, fs_flags, MasterScan { volume: Some(args[i + 1]), ..st })
            } else {
                Err("--volume needs a label"@)
            }
        } else if a == "--name"@ {
            if i + 1 < args.len() {
                master_scan(args, i + 2, fs_flags, MasterScan { name: Some(args[i + 1]), ..st })
            } else {
                Err("--name needs a value"@)
            }
        } else if a.len() > 0 && a[0] == '-' {
            Err("unknown flag `"@ + a + "`"@)
        } else if st.exe is Some {
            Err("more than one executable given"@)
        } else {
            master_scan(args, i + 1, fs_flags, MasterScan { exe: Some(a), ..st })
        }
    }
}

/// Validated master arguments. The name and volume are as given; their
/// defaults need the executable's path (see [`master_name`] and
/// [`master_volume`]).
pub struct MasterArgs {
    pub exe: String,
    pub output: String,
    pub volume: Option<String>,
    pub name: Option<String>,
    pub fs: AdfFs,
}

/// What the master arguments resolve to.
pub enum MasterParse {
    Help,
    Run(MasterArgs),
}

/// Help, an error, or the run: an executable and an output are required.
pub open spec fn master_parse(args: Seq<Seq<char>>, fs_flags: bool) -> Result<Option<MasterScan>, Seq<char>> {
    match master_scan(args, 0, fs_flags, master_start()) {
        Err(e) => Err(e),
        Ok(None) => Ok(None),
        Ok(Some(st)) => if st.exe is None {
            Err("no executable given"@)
        } else if st.output is None {
            Err("no output path given (-o <out.adf>)"@)
        } else {
            Ok(Some(st))
        },
    }
}

/// The characters of an optional string.
pub open spec fn opt_chars(o: Option<String>) -> Option<Seq<char>> {
    match o {
        Some(s) => Some(s@),
        None => None,
    }
}

/// The arguments a master scan state stands for.
pub open spec fn master_args_match(a: MasterArgs, st: MasterScan) -> bool {
    &&& st.exe == Some(a.exe@)
    &&& st.output == Some(a.output@)
    &&& st.volume == opt_chars(a.volume)
    &&& st.name == opt_chars(a.name)
    &&& st.fs == a.fs
}

/// The scan state the parser's variables stand for.
pub open spec fn master_state(
    exe: Option<String>,
    output: Option<String>,
    volume: Option<String>,
    name: Option<String>,
    fs: AdfFs,
) -> MasterScan {
    MasterScan {
        exe: opt_chars(exe),
        output: opt_chars(output),
        volume: opt_chars(volume),
        name: opt_chars(name),
        fs,
    }
}

/// Parse the arguments of the master verb (and, without the filesystem
/// switches, of the standalone mastering tool).
pub fn parse_master_args(args: &[String], fs_flags: bool) -> (r: Result<MasterParse, String>)
    ensures
        match master_parse(string_views(args@), fs_flags) {
            Err(e) => r matches Err(m) && m@ == e,
            Ok(None) => r matches Ok(MasterParse::Help),
            Ok(Some(st)) => r matches Ok(MasterParse::Run(a)) && master_args_match(a, st),
        },
{
    let ghost av = string_views(args@);
    let mut exe: Option<String> = None;
    let mut output: Option<String> = None;
    let mut volume: Option<String> = None;
    let mut name: Option<String> = None;
    let mut fs = AdfFs::Ofs;
    let mut i: usize = 0;
    while i < args.len()
        invariant
            av == string_views(args@),
            i <= args@.len(),
            master_scan(av, 0, fs_flags, master_start()) == master_scan(
                av,
                i as int,
                fs_flags,
                master_state(exe, output, volume, name, fs),
            ),
        decreases args@.len() - i,
    {
        let a = args[i].as_str();
        assert(av[i as int] == a@);
        if str_eq(a, "--help") || str_eq(a, "-h") {
            return Ok(MasterParse::Help);
        } else if fs_flags && str_eq(a, "--ffs") {
            fs = AdfFs::Ffs;
            i += 1;
        } else if fs_flags && str_eq(a, "--ofs") {
            fs = AdfFs::Ofs;
            i += 1;
        } else if str_eq(a, "-o") || str_eq(a, "--output") {
            if i + 1 >= args.len() {
                return Err(text_of("-o needs a path"));
            }
            assert(av[i + 1] == args@[i + 1]@);
            output = Some(args[i + 1].clone());
            i += 2;
        } else if str_eq(a, "--volume") {
            if i + 1 >= args.len() {
                return Err(text_of("--volume needs a label"));
            }
            assert(av[i + 1] == args@[i + 1]@);
            volume = Some(args[i + 1].clone());
            i += 2;
        } else if str_eq(a, "--name") {
            if i + 1 >= args.len() {
                return Err(text_of("--name needs a value"));
            }
            assert(av[i + 1] == args@[i + 1]@);
            name = Some(args[i + 1].clone());
            i += 2;
        } else {
            let cs = chars_of(a);
            if cs.len() > 0 && cs[0] == '-' {
                let mut m: Vec<char> = Vec::new();
                push_str(&mut m, "unknown flag `");
                push_str(&mut m, a);
                push_str(&mut m, "`");
                return Err(string_of(m.as_slice()));
            }
            if exe.is_some() {
                return Err(text_of("more than one executable given"));
            }
            exe = Some(a.to_owned());
            i += 1;
        }
    }
    match (exe, output) {
        (None, _) => Err(text_of("no executable given")),
        (Some(_), None) => Err(text_of("no output path given (-o <out.adf>)")),
        (Some(e), Some(o)) => Ok(MasterParse::Run(MasterArgs { exe: e, output: o, volume, name, fs })),
    }
}


// --- default names and labels -------------------------------------------------------

/// What std's `char::to_uppercase` gives for a character, as text.
pub uninterp spec fn spec_char_upper(c: char) -> Seq<char>;

/// std's `char::to_uppercase`, collected into a `String`: ASCII letters map
/// to their capitals and other ASCII characters to themselves; beyond
/// ASCII the result (one or more characters, by Unicode's tables) is named
/// by [`spec_char_upper`], not stated.
#[verifier::external_body]
fn char_upper(c: char) -> (r: String)
    ensures
        r@ == spec_char_upper(c),
        'a' <= c <= 'z' ==> r@ == seq![((c as u32) - 32) as char],
        (c as u32) < 128 && !('a' <= c <= 'z') ==> r@ == seq![c],
{
    c.to_uppercase().collect::<String>()
}

/// A text with its first character in upper case (`fallback` when the
/// text is empty).
pub open spec fn capitalised(s: Seq<char>, fallback: Seq<char>) -> Seq<char> {
    if s.len() == 0 {
        fallback
    } else {
        spec_char_upper(s[0]) + s.drop_first()
    }
}

fn capitalise(s: &str, fallback: &str) -> (r: String)
    ensures
        r@ == capitalised(s@, fallback@),
{
    let cs = chars_of(s);
    if cs.len() == 0 {
        return text_of(fallback);
    }
    let first = char_upper(cs[0]);
    let mut out: Vec<char> = chars_of(first.as_str());
    let rest = slice_chars(cs.as_slice(), 1, cs.len());
    push_chars(&mut out, rest.as_slice());
    assert(rest@ =~= s@.drop_first());
    string_of(out.as_slice())
}

/// The on-disk file name: `--name`, else the executable's stem, else
/// `program`.
pub open spec fn master_name_of(exe: Seq<char>, name: Option<Seq<char>>) -> Seq<char> {
    match name {
        Some(n) => n,
        None => match spec_file_stem(exe) {
            Some(s) => s,
            None => "program"@,
        },
    }
}

/// The on-disk file name for the master verb (see [`master_name_of`]).
pub fn master_name(exe: &str, name: &Option<String>) -> (r: String)
    ensures
        r@ == master_name_of(exe@, opt_chars(*name)),
{
    match name {
        Some(n) => n.clone(),
        None => match file_stem(exe) {
            Some(s) => s,
            None => text_of("program"),
        },
    }
}

/// The volume label: `--volume`, else the file name with its first letter
/// in upper case.
pub open spec fn master_volume_of(name: Seq<char>, volume: Option<Seq<char>>) -> Seq<char> {
    match volume {
        Some(v) => v,
        None => capitalised(name, name),
    }
}

/// The volume label for the master verb (see [`master_volume_of`]).
pub fn master_volume(name: &str, volume: &Option<String>) -> (r: String)
    ensures
        r@ == master_volume_of(name@, opt_chars(*volume)),
{
    match volume {
        Some(v) => v.clone(),
        None => capitalise(name, name),
    }
}

/// The default label of a created disk: the output's stem with its first
/// letter in upper case, `Disk` when the stem is empty or missing.
pub open spec fn default_label_of(out_path: Seq<char>) -> Seq<char> {
    capitalised(
        match spec_file_stem(out_path) {
            Some(s) => s,
            None => Seq::empty(),
        },
        "Disk"@,
    )
}

/// The default label of a created disk (see [`default_label_of`]).
pub fn adf_default_label(out_path: &str) -> (r: String)
    ensures
        r@ == default_label_of(out_path@),
{
    let stem = match file_stem(out_path) {
        Some(s) => s,
        None => String::new(),
    };
    capitalise(stem.as_str(), "Disk")
}

/// A host path's final component, or the path itself when it has none.
pub open spec fn host_basename_of(host: Seq<char>) -> Seq<char> {
    match spec_file_name(host) {
        Some(n) => n,
        None => host,
    }
}

/// A host path's final component, or the path itself when it has none.
pub fn adf_host_basename(host: &str) -> (r: String)
    ensures
        r@ == host_basename_of(host@),
{
    match file_name(host) {
        Some(n) => n,
        None => text_of(host),
    }
}

/// An `--add` spec `host[=dest]`, split on the first `=`: without `=` the
/// destination is the host's basename at the root; a destination ending in
/// `/` keeps the basename inside that directory.
pub open spec fn parse_add_of(spec: Seq<char>) -> Result<(Seq<char>, Seq<char>), Seq<char>> {
    let k = find_char(spec, '=') as int;
    if k < spec.len() {
        let host = spec.take(k);
        let dest = spec.skip(k + 1);
        if host.len() == 0 {
            Err("--add "@ + spec + ": empty host path"@)
        } else if dest.len() == 0 {
            Err("--add "@ + spec + ": empty destination"@)
        } else if dest.last() == '/' {
            let dir = dest.drop_last();
            let base = host_basename_of(host);
            Ok((host, if dir.len() == 0 {
                base
            } else {
                dir + "/"@ + base
            }))
        } else {
            Ok((host, dest))
        }
    } else {
        Ok((spec, host_basename_of(spec)))
    }
}

/// Parse an `--add` spec (see [`parse_add_of`]).
pub fn adf_parse_add(spec: &str) -> (r: Result<(String, String), String>)
    ensures
        match parse_add_of(spec@) {
            Ok((h, d)) => r matches Ok((x, y)) && x@ == h && y@ == d,
            Err(e) => r matches Err(m) && m@ == e,
        },
{
    let cs = chars_of(spec);
    let k = find_char_in(cs.as_slice(), '=');
    proof {
        lemma_find_char(spec@, '=');
    }
    if k == cs.len() {
        return Ok((text_of(spec), adf_host_basename(spec)));
    }
    let host = slice_chars(cs.as_slice(), 0, k);
    let dest = slice_chars(cs.as_slice(), k + 1, cs.len());
    assert(host@ =~= spec@.take(k as int));
    assert(dest@ =~= spec@.skip(k + 1));
    if host.len() == 0 {
        let mut m: Vec<char> = Vec::new();
        push_str(&mut m, "--add ");
        push_str(&mut m, spec);
        push_str(&mut m, ": empty host path");
        return Err(string_of(m.as_slice()));
    }
    if dest.len() == 0 {
        let mut m: Vec<char> = Vec::new();
        push_str(&mut m, "--add ");
        push_str(&mut m, spec);
        push_str(&mut m, ": empty destination");
        return Err(string_of(m.as_slice()));
    }
    let host_s = string_of(host.as_slice());
    if dest[dest.len() - 1] == '/' {
        let dir = slice_chars(dest.as_slice(), 0, dest.len() - 1);
        assert(dir@ =~= dest@.drop_last());
        let base = adf_host_basename(host_s.as_str());
        if dir.len() == 0 {
            return Ok((host_s, base));
        }
        let mut d: Vec<char> = Vec::new();
        push_chars(&mut d, dir.as_slice());
        push_str(&mut d, "/");
        push_str(&mut d, base.as_str());
        return Ok((host_s, string_of(d.as_slice())));
    }
    Ok((host_s, string_of(dest.as_slice())))
}

/// `1 file` / `3 files`: singular for one, plural otherwise.
pub open spec fn plural_of(n: nat, word: Seq<char>) -> Seq<char> {
    if n == 1 {
        "1 "@ + word
    } else {
        decimal(n) + " "@ + word + "s"@
    }
}

/// `1 file` / `3 files`: singular for one, plural otherwise.
pub fn adf_plural(n: usize, word: &str) -> (r: String)
    ensures
        r@ == plural_of(n as nat, word@),
{
    let mut m: Vec<char> = Vec::new();
    if n == 1 {
        push_str(&mut m, "1 ");
        push_str(&mut m, word);
    } else {
        push_decimal(&mut m, n as u64);
        push_str(&mut m, " ");
        push_str(&mut m, word);
        push_str(&mut m, "s");
    }
    string_of(m.as_slice())
}


// --- create -------------------------------------------------------------------------

/// The arguments of the create verb as the scan reads them.
pub struct CreateScan {
    pub output: Option<Seq<char>>,
    pub label: Option<Seq<char>>,
    pub adds: Seq<(Seq<char>, Seq<char>)>,
    pub mkdirs: Seq<Seq<char>>,
    pub bootable: bool,
    pub startup: Option<Seq<char>>,
    pub fs: AdfFs,
}

/// Nothing read yet: OFS, not bootable.
pub open spec fn create_start() -> CreateScan {
    CreateScan {
        output: None,
        label: None,
        adds: Seq::empty(),
        mkdirs: Seq::empty(),
        bootable: false,
        startup: None,
        fs: AdfFs::Ofs,
    }
}

/// Read the create arguments (already `--format`-stripped) from position
/// `i`: help stops the scan (`None`); the switches set their flags;
/// `--label`, `--startup`, `--mkdir` and `--add` take a value (`--add`'s
/// parsed by [`parse_add_of`]); any other argument starting with `-` is
/// an unknown flag; the rest is the one output path.
pub open spec fn create_scan(args: Seq<Seq<char>>, i: int, st: CreateScan) -> Result<Option<CreateScan>, Seq<char>>
    decreases args.len() - i,
{
    if i < 0 || i >= args.len() {
        Ok(Some(st))
    } else {
        let a = args[i];
        if a == "--help"@ || a == "-h"@ {
            Ok(None)
        } else if a == "--ffs"@ {
            create_scan(args, i + 1, CreateScan { fs: AdfFs::Ffs, ..st })
        } else if a == "--ofs"@ {
            create_scan(args, i + 1, CreateScan { fs: AdfFs::Ofs, ..st })
        } else if a == "--bootable"@ {
            create_scan(args, i + 1, CreateScan { bootable: true, ..st })
        } else if a == "--label"@ {
            if i + 1 < args.len() {
                create_scan(args, i + 2, CreateScan { label: Some(args[i + 1]), ..st })
            } else {
                Err("--label needs a value"@)
            }
        } else if a == "--startup"@ {
            if i + 1 < args.len() {
                create_scan(args, i + 2, CreateScan { startup: Some(args[i + 1]), ..st })
            } else {
                Err("--startup needs a command"@)
            }
        } else if a == "--mkdir"@ {
            if i + 1 < args.len() {
                create_scan(args, i + 2, CreateScan { mkdirs: st.mkdirs.push(args[i + 1]), ..st })
            } else {
                Err("--mkdir needs a path"@)
            }
        } else if a == "--add"@ {
            if i + 1 < args.len() {
                match parse_add_of(args[i + 1]) {
                    Ok(pair) => create_scan(args, i + 2, CreateScan { adds: st.adds.push(pair), ..st }),
                    Err(e) => Err(e),
                }
            } else {
                Err("--add needs a host file"@)
            }
        } else if a.len() > 0 && a[0] == '-' {
            Err("unknown flag `"@ + a + "`"@)
        } else if st.output is Some {
            Err("more than one output path given"@)
        } else {
            create_scan(args, i + 1, CreateScan { output: Some(a), ..st })
        }
    }
}

/// Help, an error, or the run: an output path is required, the label
/// defaults from it, and a startup command makes the disk bootable.
pub open spec fn create_parse(args: Seq<Seq<char>>) -> Result<Option<CreateScan>, Seq<char>> {
    match create_scan(args, 0, create_start()) {
        Err(e) => Err(e),
        Ok(None) => Ok(None),
        Ok(Some(st)) => match st.output {
            None => Err("no output path given (<out.adf>)"@),
            Some(out) => Ok(
                Some(
                    CreateScan {
                        label: Some(
                            match st.label {
                                Some(l) => l,
                                None => default_label_of(out),
                            },
                        ),
                        bootable: st.bootable || st.startup is Some,
                        ..st
                    },
                ),
            ),
        },
    }
}

/// Validated create arguments.
pub struct CreateArgs {
    pub output: String,
    pub label: String,
    /// `(host, dest)` pairs, in order.
    pub adds: Vec<(String, String)>,
    pub mkdirs: Vec<String>,
    pub bootable: bool,
    pub startup: Option<String>,
    pub fs: AdfFs,
}

/// What the create arguments resolve to.
pub enum CreateParse {
    Help,
    Run(CreateArgs),
}

/// The characters of each pair of strings.
pub open spec fn pair_views(v: Seq<(String, String)>) -> Seq<(Seq<char>, Seq<char>)> {
    v.map_values(|p: (String, String)| (p.0@, p.1@))
}

/// The arguments a create scan state stands for.
pub open spec fn create_args_match(a: CreateArgs, st: CreateScan) -> bool {
    &&& st.output == Some(a.output@)
    &&& st.label == Some(a.label@)
    &&& st.adds == pair_views(a.adds@)
    &&& st.mkdirs == string_views(a.mkdirs@)
    &&& st.bootable == a.bootable
    &&& st.startup == opt_chars(a.startup)
    &&& st.fs == a.fs
}

/// The scan state the parser's variables stand for.
pub open spec fn create_state(
    output: Option<String>,
    label: Option<String>,
    adds: Seq<(String, String)>,
    mkdirs: Seq<String>,
    bootable: bool,
    startup: Option<String>,
    fs: AdfFs,
) -> CreateScan {
    CreateScan {
        output: opt_chars(output),
        label: opt_chars(label),
        adds: pair_views(adds),
        mkdirs: string_views(mkdirs),
        bootable,
        startup: opt_chars(startup),
        fs,
    }
}

/// Parse the create verb's (`--format`-stripped) arguments.
pub fn parse_create_args(args: &[String]) -> (r: Result<CreateParse, String>)
    ensures
        match create_parse(string_views(args@)) {
            Err(e) => r matches Err(m) && m@ == e,
            Ok(None) => r matches Ok(CreateParse::Help),
            Ok(Some(st)) => r matches Ok(CreateParse::Run(a)) && create_args_match(a, st),
        },
{
    let ghost av = string_views(args@);
    let mut output: Option<String> = None;
    let mut label: Option<String> = None;
    let mut adds: Vec<(String, String)> = Vec::new();
    let mut mkdirs: Vec<String> = Vec::new();
    let mut bootable = false;
    let mut startup: Option<String> = None;
    let mut fs = AdfFs::Ofs;
    assert(pair_views(adds@) =~= Seq::<(Seq<char>, Seq<char>)>::empty());
    assert(string_views(mkdirs@) =~= Seq::<Seq<char>>::empty());
    let mut i: usize = 0;
    while i < args.len()
        invariant
            av == string_views(args@),
            i <= args@.len(),
            create_scan(av, 0, create_start()) == create_scan(
                av,
                i as int,
                create_state(output, label, adds@, mkdirs@, bootable, startup, fs),
            ),
        decreases args@.len() - i,
    {
        let a = args[i].as_str();
        assert(av[i as int] == a@);
        if str_eq(a, "--help") || str_eq(a, "-h") {
            return Ok(CreateParse::Help);
        } else if str_eq(a, "--ffs") {
            fs = AdfFs::Ffs;
            i += 1;
        } else if str_eq(a, "--ofs") {
            fs = AdfFs::Ofs;
            i += 1;
        } else if str_eq(a, "--bootable") {
            bootable = true;
            i += 1;
        } else if str_eq(a, "--label") {
            if i + 1 >= args.len() {
                return Err(text_of("--label needs a value"));
            }
            assert(av[i + 1] == args@[i + 1]@);
            label = Some(args[i + 1].clone());
            i += 2;
        } else if str_eq(a, "--startup") {
            if i + 1 >= args.len() {
                return Err(text_of("--startup needs a command"));
            }
            assert(av[i + 1] == args@[i + 1]@);
            startup = Some(args[i + 1].clone());
            i += 2;
        } else if str_eq(a, "--mkdir") {
            if i + 1 >= args.len() {
                return Err(text_of("--mkdir needs a path"));
            }
            assert(av[i + 1] == args@[i + 1]@);
            let ghost before = mkdirs@;
            mkdirs.push(args[i + 1].clone());
            assert(string_views(mkdirs@) =~= string_views(before).push(av[i + 1]));
            i += 2;
        } else if str_eq(a, "--add") {
            if i + 1 >= args.len() {
                return Err(text_of("--add needs a host file"));
            }
            assert(av[i + 1] == args@[i + 1]@);
            match adf_parse_add(args[i + 1].as_str()) {
                Ok(pair) => {
                    let ghost before = adds@;
                    adds.push(pair);
                    assert(pair_views(adds@) =~= pair_views(before).push((pair.0@, pair.1@)));
                },
                Err(e) => {
                    return Err(e);
                },
            }
            i += 2;
        } else {
            let cs = chars_of(a);
            if cs.len() > 0 && cs[0] == '-' {
                let mut m: Vec<char> = Vec::new();
                push_str(&mut m, "unknown flag `");
                push_str(&mut m, a);
                push_str(&mut m, "`");
                return Err(string_of(m.as_slice()));
            }
            if output.is_some() {
                return Err(text_of("more than one output path given"));
            }
            output = Some(a.to_owned());
            i += 1;
        }
    }
    match output {
        None => Err(text_of("no output path given (<out.adf>)")),
        Some(out) => {
            let label = match label {
                Some(l) => l,
                None => adf_default_label(out.as_str()),
            };
            let bootable = bootable || startup.is_some();
            Ok(CreateParse::Run(CreateArgs { output: out, label, adds, mkdirs, bootable, startup, fs }))
        },
    }
}

// --- verify and info ----------------------------------------------------------------

/// The one `<disk.adf>` of a read verb: help stops the scan (`None`), any
/// argument starting with `-` is an unknown flag, and there must be
/// exactly one path.
pub open spec fn single_disk_scan(args: Seq<Seq<char>>, i: int, path: Option<Seq<char>>) -> Result<Option<Seq<char>>, Seq<char>>
    decreases args.len() - i,
{
    if i < 0 || i >= args.len() {
        match path {
            Some(p) => Ok(Some(p)),
            None => Err("no .adf given"@),
        }
    } else {
        let a = args[i];
        if a == "--help"@ || a == "-h"@ {
            Ok(None)
        } else if a.len() > 0 && a[0] == '-' {
            Err("unknown flag `"@ + a + "`"@)
        } else if path is Some {
            Err("more than one .adf given"@)
        } else {
            single_disk_scan(args, i + 1, Some(a))
        }
    }
}

/// Parse a read verb's single `<disk.adf>` (`None` for help).
pub fn adf_single_disk_arg(rest: &[String]) -> (r: Result<Option<String>, String>)
    ensures
        match single_disk_scan(string_views(rest@), 0, None) {
            Ok(Some(p)) => r matches Ok(Some(x)) && x@ == p,
            Ok(None) => r matches Ok(None),
            Err(e) => r matches Err(m) && m@ == e,
        },
{
    let ghost av = string_views(rest@);
    let mut path: Option<String> = None;
    let mut i: usize = 0;
    while i < rest.len()
        invariant
            av == string_views(rest@),
            i <= rest@.len(),
            single_disk_scan(av, 0, None) == single_disk_scan(av, i as int, opt_chars(path)),
        decreases rest@.len() - i,
    {
        let a = rest[i].as_str();
        assert(av[i as int] == a@);
        if str_eq(a, "--help") || str_eq(a, "-h") {
            return Ok(None);
        }
        let cs = chars_of(a);
        if cs.len() > 0 && cs[0] == '-' {
            let mut m: Vec<char> = Vec::new();
            push_str(&mut m, "unknown flag `");
            push_str(&mut m, a);
            push_str(&mut m, "`");
            return Err(string_of(m.as_slice()));
        }
        if path.is_some() {
            return Err(text_of("more than one .adf given"));
        }
        path = Some(a.to_owned());
        i += 1;
    }
    match path {
        Some(p) => Ok(Some(p)),
        None => Err(text_of("no .adf given")),
    }
}


// --- listings -----------------------------------------------------------------------

/// Whether a directory entry is a file or a subdirectory.
#[derive(Debug, Clone, Copy, PartialEq, Eq, Structural)]
pub enum AdfEntryKind {
    File,
    Directory,
}

/// One entry of a directory listing.
pub struct AdfEntry {
    pub name: String,
    pub kind: AdfEntryKind,
    /// File size in bytes (0 for a directory).
    pub size: u32,
}

/// Whether the entries are in name order.
pub open spec fn names_sorted(es: Seq<AdfEntry>) -> bool {
    forall|i: int, j: int| 0 <= i < j < es.len() ==> text_le(#[trigger] es[i].name@, #[trigger] es[j].name@)
}

/// Where an entry named `name` goes in a name-sorted run: after every entry
/// whose name is at most `name`, so equal names keep their order.
pub open spec fn insert_point(sorted: Seq<AdfEntry>, name: Seq<char>) -> int
    decreases sorted.len(),
{
    if sorted.len() == 0 {
        0
    } else if text_le(sorted[0].name@, name) {
        1 + insert_point(sorted.drop_first(), name)
    } else {
        0
    }
}

/// The entries sorted by name, stably: each in turn inserted after every
/// earlier one whose name is at most its own.
pub open spec fn sort_by_name(es: Seq<AdfEntry>) -> Seq<AdfEntry>
    decreases es.len(),
{
    if es.len() == 0 {
        seq![]
    } else {
        let sorted = sort_by_name(es.drop_last());
        let k = insert_point(sorted, es.last().name@);
        sorted.take(k).push(es.last()) + sorted.skip(k)
    }
}

/// The insertion point is the first entry whose name is above `name`.
proof fn lemma_insert_point(s: Seq<AdfEntry>, name: Seq<char>, p: int)
    requires
        0 <= p <= s.len(),
        forall|i: int| 0 <= i < p ==> text_le(#[trigger] s[i].name@, name),
        p < s.len() ==> !text_le(s[p].name@, name),
    ensures
        insert_point(s, name) == p,
    decreases s.len(),
{
    if s.len() > 0 && p > 0 {
        assert forall|i: int| 0 <= i < p - 1 implies text_le(#[trigger] s.drop_first()[i].name@, name) by {
            assert(s.drop_first()[i] == s[i + 1]);
        }
        if p < s.len() {
            assert(s.drop_first()[p - 1] == s[p]);
        }
        lemma_insert_point(s.drop_first(), name, p - 1);
    }
}

/// Entries sorted by name (code-point order, the order `info` presents),
/// equal names keeping their order.
pub fn adf_sorted_entries(entries: Vec<AdfEntry>) -> (r: Vec<AdfEntry>)
    ensures
        r@ == sort_by_name(entries@),
        r@.to_multiset() == entries@.to_multiset(),
        names_sorted(r@),
{
    broadcast use vstd::multiset::group_multiset_axioms, vstd::seq_lib::group_to_multiset_ensures;

    let ghost all = entries@;
    let mut src = entries;
    let mut out: Vec<AdfEntry> = Vec::new();
    proof {
        vstd::multiset::lemma_multiset_empty_len(out@.to_multiset());
        assert(out@.to_multiset().add(src@.to_multiset()) =~= all.to_multiset());
    }
    let ghost mut done: int = 0;
    assert(all.take(0) =~= Seq::<AdfEntry>::empty());
    assert(src@ =~= all.skip(0));
    while src.len() > 0
        invariant
            out@.to_multiset().add(src@.to_multiset()) == all.to_multiset(),
            names_sorted(out@),
            0 <= done <= all.len(),
            src@ == all.skip(done),
            out@ == sort_by_name(all.take(done)),
        decreases src@.len(),
    {
        let ghost before_src = src@;
        let ghost before_out = out@;
        let e = src.remove(0);
        proof {
            vstd::seq_lib::to_multiset_remove(before_src, 0);
        }
        let en = chars_of(e.name.as_str());
        let mut p: usize = 0;
        while p < out.len() && chars_le(chars_of(out[p].name.as_str()).as_slice(), en.as_slice())
            invariant
                p <= out@.len(),
                out@ == before_out,
                en@ == e.name@,
                forall|i: int| 0 <= i < p ==> text_le(#[trigger] out@[i].name@, e.name@),
            decreases out@.len() - p,
        {
            p += 1;
        }
        proof {
            if p < out@.len() {
                lemma_text_le_total(out@[p as int].name@, e.name@);
                assert(text_le(e.name@, out@[p as int].name@));
                assert forall|q: int| p <= q < out@.len() implies text_le(e.name@, #[trigger] out@[q].name@) by {
                    if q > p {
                        lemma_text_le_transitive(e.name@, out@[p as int].name@, out@[q].name@);
                    }
                }
            }
        }
        proof {
            lemma_insert_point(before_out, e.name@, p as int);
            assert(before_src[0] == all[done]);
            assert(all.take(done + 1).drop_last() =~= all.take(done));
            assert(all.take(done + 1).last() == e);
        }
        out.insert(p, e);
        proof {
            assert(out@ =~= before_out.take(p as int).push(e) + before_out.skip(p as int));
            assert(src@ =~= all.skip(done + 1));
            done = done + 1;
            vstd::seq_lib::to_multiset_insert(before_out, p as int, e);
            let o = out@;
            assert forall|i: int, j: int| 0 <= i < j < o.len() implies text_le(
                #[trigger] o[i].name@,
                #[trigger] o[j].name@,
            ) by {
                if i < p && j == p {
                } else if i < p && j > p {
                    assert(o[j] == before_out[j - 1]);
                    assert(text_le(before_out[i].name@, e.name@));
                    assert(text_le(e.name@, before_out[j - 1].name@));
                    lemma_text_le_transitive(before_out[i].name@, e.name@, before_out[j - 1].name@);
                } else if i == p {
                    assert(o[j] == before_out[j - 1]);
                } else if i > p {
                    assert(o[i] == before_out[i - 1]);
                    assert(o[j] == before_out[j - 1]);
                }
            }
            assert(before_src.remove(0).to_multiset() == before_src.to_multiset().remove(e));
            assert(before_src[0] == e);
            assert(before_src.contains(e));
            vstd::seq_lib::to_multiset_contains(before_src, e);
            assert(before_src.to_multiset().count(e) > 0);
            assert(out@.to_multiset().add(src@.to_multiset()) =~= all.to_multiset());
        }
    }
    proof {
        vstd::multiset::lemma_multiset_empty_len(src@.to_multiset());
        assert(done == all.len());
        assert(all.take(done) =~= all);
    }
    assert(out@.to_multiset() =~= all.to_multiset());
    out
}


// --- the lines each verb prints -----------------------------------------------------

/// The master verb's text line.
pub open spec fn master_text_of(out: Seq<char>, img_len: nat, volume: Seq<char>, name: Seq<char>, fs: AdfFs, exe_len: nat) -> Seq<char> {
    out + ": "@ + decimal(img_len / 1024) + "K "@ + fs_upper(fs) + " disk \""@ + volume + "\", "@ + name + " ("@
        + decimal(exe_len) + " bytes)"@
}

/// The master verb's text line.
pub fn adf_master_text(out_path: &str, img_len: usize, volume: &str, name: &str, fs: AdfFs, exe_len: usize) -> (r: String)
    ensures
        r@ == master_text_of(out_path@, img_len as nat, volume@, name@, fs, exe_len as nat),
{
    let mut m: Vec<char> = Vec::new();
    push_str(&mut m, out_path);
    push_str(&mut m, ": ");
    push_decimal(&mut m, (img_len / 1024) as u64);
    push_str(&mut m, "K ");
    push_str(&mut m, fs.upper_name());
    push_str(&mut m, " disk \"");
    push_str(&mut m, volume);
    push_str(&mut m, "\", ");
    push_str(&mut m, name);
    push_str(&mut m, " (");
    push_decimal(&mut m, exe_len as u64);
    push_str(&mut m, " bytes)");
    assert(m@ =~= master_text_of(out_path@, img_len as nat, volume@, name@, fs, exe_len as nat));
    string_of(m.as_slice())
}

/// The master verb's JSON line; `with_fs` adds the filesystem (the
/// standalone tool's line has none).
pub open spec fn master_json_of(
    out: Seq<char>,
    img_len: nat,
    volume: Seq<char>,
    name: Seq<char>,
    fs: Option<AdfFs>,
    exe_len: nat,
) -> Seq<char> {
    "{\"tool\":\"adf\",\"output\":\""@ + json_escaped(out) + "\",\"volume\":\""@ + json_escaped(volume)
        + "\",\"file\":\""@ + json_escaped(name) + "\","@ + match fs {
        Some(f) => "\"filesystem\":\""@ + fs_name(f) + "\","@,
        None => Seq::empty(),
    } + "\"bytes\":"@ + decimal(img_len) + ",\"exe_bytes\":"@ + decimal(exe_len) + "}"@
}

fn push_escaped(out: &mut Vec<char>, s: &str)
    ensures
        final(out)@ == old(out)@ + json_escaped(s@),
{
    let cs = chars_of(s);
    push_json_escaped(out, cs.as_slice());
}

/// The master verb's JSON line (with the filesystem), or the standalone
/// tool's (without).
pub fn adf_master_json(out_path: &str, img_len: usize, volume: &str, name: &str, fs: Option<AdfFs>, exe_len: usize) -> (r: String)
    ensures
        r@ == master_json_of(out_path@, img_len as nat, volume@, name@, fs, exe_len as nat),
{
    let mut m: Vec<char> = Vec::new();
    push_str(&mut m, "{\"tool\":\"adf\",\"output\":\"");
    push_escaped(&mut m, out_path);
    push_str(&mut m, "\",\"volume\":\"");
    push_escaped(&mut m, volume);
    push_str(&mut m, "\",\"file\":\"");
    push_escaped(&mut m, name);
    push_str(&mut m, "\",");
    match fs {
        Some(f) => {
            push_str(&mut m, "\"filesystem\":\"");
            push_str(&mut m, f.name());
            push_str(&mut m, "\",");
        },
        None => {},
    }
    push_str(&mut m, "\"bytes\":");
    push_decimal(&mut m, img_len as u64);
    push_str(&mut m, ",\"exe_bytes\":");
    push_decimal(&mut m, exe_len as u64);
    push_str(&mut m, "}");
    assert(m@ =~= master_json_of(out_path@, img_len as nat, volume@, name@, fs, exe_len as nat));
    string_of(m.as_slice())
}

/// The verify verb's text line.
pub open spec fn verify_text_of(path: Seq<char>, img_len: nat, fs: AdfFs, label: Seq<char>) -> Seq<char> {
    path + ": OK — "@ + decimal(img_len / 1024) + "K "@ + fs_upper(fs) + " \""@ + label + "\""@
}

/// The verify verb's text line.
pub fn adf_verify_text(path: &str, img_len: usize, fs: AdfFs, label: &str) -> (r: String)
    ensures
        r@ == verify_text_of(path@, img_len as nat, fs, label@),
{
    let mut m: Vec<char> = Vec::new();
    push_str(&mut m, path);
    push_str(&mut m, ": OK — ");
    push_decimal(&mut m, (img_len / 1024) as u64);
    push_str(&mut m, "K ");
    push_str(&mut m, fs.upper_name());
    push_str(&mut m, " \"");
    push_str(&mut m, label);
    push_str(&mut m, "\"");
    assert(m@ =~= verify_text_of(path@, img_len as nat, fs, label@));
    string_of(m.as_slice())
}

/// The verify verb's JSON line.
pub open spec fn verify_json_of(path: Seq<char>, fs: AdfFs, label: Seq<char>) -> Seq<char> {
    "{\"tool\":\"adf\",\"command\":\"verify\",\"input\":\""@ + json_escaped(path) + "\",\"filesystem\":\""@ + fs_name(
        fs,
    ) + "\",\"label\":\""@ + json_escaped(label) + "\",\"result\":\"ok\"}"@
}

/// The verify verb's JSON line.
pub fn adf_verify_json(path: &str, fs: AdfFs, label: &str) -> (r: String)
    ensures
        r@ == verify_json_of(path@, fs, label@),
{
    let mut m: Vec<char> = Vec::new();
    push_str(&mut m, "{\"tool\":\"adf\",\"command\":\"verify\",\"input\":\"");
    push_escaped(&mut m, path);
    push_str(&mut m, "\",\"filesystem\":\"");
    push_str(&mut m, fs.name());
    push_str(&mut m, "\",\"label\":\"");
    push_escaped(&mut m, label);
    push_str(&mut m, "\",\"result\":\"ok\"}");
    assert(m@ =~= verify_json_of(path@, fs, label@));
    string_of(m.as_slice())
}

/// The create verb's text line.
pub open spec fn create_text_of(
    out: Seq<char>,
    img_len: nat,
    fs: AdfFs,
    label: Seq<char>,
    bootable: bool,
    files: nat,
    dirs: nat,
) -> Seq<char> {
    out + ": created — "@ + decimal(img_len / 1024) + "K "@ + fs_upper(fs) + " \""@ + label + "\", "@ + plural_of(
        files,
        "file"@,
    ) + ", "@ + plural_of(dirs, "dir"@) + if bootable {
        ", bootable"@
    } else {
        Seq::empty()
    }
}

/// The create verb's text line.
pub fn adf_create_text(
    out_path: &str,
    img_len: usize,
    fs: AdfFs,
    label: &str,
    bootable: bool,
    files: usize,
    dirs: usize,
) -> (r: String)
    ensures
        r@ == create_text_of(out_path@, img_len as nat, fs, label@, bootable, files as nat, dirs as nat),
{
    let mut m: Vec<char> = Vec::new();
    push_str(&mut m, out_path);
    push_str(&mut m, ": created — ");
    push_decimal(&mut m, (img_len / 1024) as u64);
    push_str(&mut m, "K ");
    push_str(&mut m, fs.upper_name());
    push_str(&mut m, " \"");
    push_str(&mut m, label);
    push_str(&mut m, "\", ");
    let f = adf_plural(files, "file");
    push_str(&mut m, f.as_str());
    push_str(&mut m, ", ");
    let d = adf_plural(dirs, "dir");
    push_str(&mut m, d.as_str());
    if bootable {
        push_str(&mut m, ", bootable");
    }
    assert(m@ =~= create_text_of(out_path@, img_len as nat, fs, label@, bootable, files as nat, dirs as nat));
    string_of(m.as_slice())
}

/// The create verb's JSON line.
pub open spec fn create_json_of(
    out: Seq<char>,
    img_len: nat,
    fs: AdfFs,
    label: Seq<char>,
    bootable: bool,
    files: nat,
    dirs: nat,
) -> Seq<char> {
    "{\"tool\":\"adf\",\"command\":\"create\",\"output\":\""@ + json_escaped(out) + "\",\"filesystem\":\""@ + fs_name(
        fs,
    ) + "\",\"label\":\""@ + json_escaped(label) + "\",\"bootable\":"@ + (if bootable {
        "true"@
    } else {
        "false"@
    }) + ",\"files\":"@ + decimal(files) + ",\"dirs\":"@ + decimal(dirs) + ",\"bytes\":"@ + decimal(img_len)
        + "}"@
}

/// The create verb's JSON line.
pub fn adf_create_json(
    out_path: &str,
    img_len: usize,
    fs: AdfFs,
    label: &str,
    bootable: bool,
    files: usize,
    dirs: usize,
) -> (r: String)
    ensures
        r@ == create_json_of(out_path@, img_len as nat, fs, label@, bootable, files as nat, dirs as nat),
{
    let mut m: Vec<char> = Vec::new();
    push_str(&mut m, "{\"tool\":\"adf\",\"command\":\"create\",\"output\":\"");
    push_escaped(&mut m, out_path);
    push_str(&mut m, "\",\"filesystem\":\"");
    push_str(&mut m, fs.name());
    push_str(&mut m, "\",\"label\":\"");
    push_escaped(&mut m, label);
    push_str(&mut m, "\",\"bootable\":");
    if bootable {
        push_str(&mut m, "true");
    } else {
        push_str(&mut m, "false");
    }
    push_str(&mut m, ",\"files\":");
    push_decimal(&mut m, files as u64);
    push_str(&mut m, ",\"dirs\":");
    push_decimal(&mut m, dirs as u64);
    push_str(&mut m, ",\"bytes\":");
    push_decimal(&mut m, img_len as u64);
    push_str(&mut m, "}");
    assert(m@ =~= create_json_of(out_path@, img_len as nat, fs, label@, bootable, files as nat, dirs as nat));
    string_of(m.as_slice())
}


/// An entry's kind as the listing shows it.
pub open spec fn kind_text(e: AdfEntry) -> Seq<char> {
    match e.kind {
        AdfEntryKind::File => "file"@,
        AdfEntryKind::Directory => "dir"@,
    }
}

/// An entry's size as the listing shows it: the byte count of a file, `-`
/// for a directory.
pub open spec fn size_text(e: AdfEntry) -> Seq<char> {
    match e.kind {
        AdfEntryKind::File => decimal(e.size as nat),
        AdfEntryKind::Directory => "-"@,
    }
}

/// The NAME column's width: the longest name, at least 4.
pub open spec fn name_width(es: Seq<AdfEntry>) -> nat
    decreases es.len(),
{
    if es.len() == 0 {
        4
    } else {
        let w = name_width(es.drop_last());
        if es.last().name@.len() > w {
            es.last().name@.len()
        } else {
            w
        }
    }
}

/// The SIZE column's width: the longest size, at least 4.
pub open spec fn size_width(es: Seq<AdfEntry>) -> nat
    decreases es.len(),
{
    if es.len() == 0 {
        4
    } else {
        let w = size_width(es.drop_last());
        if size_text(es.last()).len() > w {
            size_text(es.last()).len()
        } else {
            w
        }
    }
}

/// One line of the listing table.
pub open spec fn table_row(name: Seq<char>, kind: Seq<char>, size: Seq<char>, nw: nat, sw: nat) -> Seq<char> {
    "\n  "@ + pad_to(name, nw) + "  "@ + pad_to(kind, 4) + "  "@ + pad_left_to(size, sw)
}

/// The first `n` entries' lines.
pub open spec fn table_rows(es: Seq<AdfEntry>, nw: nat, sw: nat, n: nat) -> Seq<char>
    decreases n,
{
    if n == 0 {
        Seq::empty()
    } else {
        table_rows(es, nw, sw, (n - 1) as nat) + table_row(
            es[n - 1].name@,
            kind_text(es[n - 1]),
            size_text(es[n - 1]),
            nw,
            sw,
        )
    }
}

/// The info verb's text: the disk line, then `(empty)` or a table of the
/// entries under a NAME / KIND / SIZE header.
pub open spec fn info_text_of(path: Seq<char>, img_len: nat, fs: AdfFs, label: Seq<char>, es: Seq<AdfEntry>) -> Seq<char> {
    path + ": "@ + decimal(img_len / 1024) + "K "@ + fs_upper(fs) + " \""@ + label + "\""@ + if es.len() == 0 {
        "\n  (empty)"@
    } else {
        table_row("NAME"@, "KIND"@, "SIZE"@, name_width(es), size_width(es)) + table_rows(
            es,
            name_width(es),
            size_width(es),
            es.len(),
        )
    }
}

fn entry_size_chars(e: &AdfEntry) -> (r: Vec<char>)
    ensures
        r@ == size_text(*e),
{
    let mut m: Vec<char> = Vec::new();
    match e.kind {
        AdfEntryKind::File => push_decimal(&mut m, e.size as u64),
        AdfEntryKind::Directory => push_str(&mut m, "-"),
    }
    assert(m@ =~= size_text(*e));
    m
}

fn entry_kind_str(e: &AdfEntry) -> (r: &'static str)
    ensures
        r@ == kind_text(*e),
{
    match e.kind {
        AdfEntryKind::File => "file",
        AdfEntryKind::Directory => "dir",
    }
}

fn push_row(out: &mut Vec<char>, name: &[char], kind: &str, size: &[char], nw: usize, sw: usize)
    ensures
        final(out)@ == old(out)@ + table_row(name@, kind@, size@, nw as nat, sw as nat),
{
    let ghost start = out@;
    push_str(out, "\n  ");
    let mut c1 = slice_chars(name, 0, name.len());
    assert(c1@ =~= name@);
    pad_chars(&mut c1, nw);
    push_chars(out, c1.as_slice());
    push_str(out, "  ");
    let mut c2 = chars_of(kind);
    pad_chars(&mut c2, 4);
    push_chars(out, c2.as_slice());
    push_str(out, "  ");
    push_padded_left(out, size, sw);
    assert(out@ =~= start + table_row(name@, kind@, size@, nw as nat, sw as nat));
}


/// The info verb's text (see [`info_text_of`]).
pub fn adf_info_text(path: &str, img_len: usize, fs: AdfFs, label: &str, entries: &[AdfEntry]) -> (r: String)
    ensures
        r@ == info_text_of(path@, img_len as nat, fs, label@, entries@),
{
    let mut m: Vec<char> = Vec::new();
    push_str(&mut m, path);
    push_str(&mut m, ": ");
    push_decimal(&mut m, (img_len / 1024) as u64);
    push_str(&mut m, "K ");
    push_str(&mut m, fs.upper_name());
    push_str(&mut m, " \"");
    push_str(&mut m, label);
    push_str(&mut m, "\"");
    let ghost head = m@;
    if entries.len() == 0 {
        push_str(&mut m, "\n  (empty)");
        assert(m@ =~= info_text_of(path@, img_len as nat, fs, label@, entries@));
        return string_of(m.as_slice());
    }
    let mut nw: usize = 4;
    let mut sw: usize = 4;
    let mut i: usize = 0;
    while i < entries.len()
        invariant
            i <= entries@.len(),
            nw == name_width(entries@.take(i as int)),
            sw == size_width(entries@.take(i as int)),
        decreases entries@.len() - i,
    {
        assert(entries@.take(i + 1).drop_last() =~= entries@.take(i as int));
        let n = chars_of(entries[i].name.as_str()).len();
        let z = entry_size_chars(&entries[i]).len();
        if n > nw {
            nw = n;
        }
        if z > sw {
            sw = z;
        }
        i += 1;
    }
    assert(entries@.take(entries@.len() as int) =~= entries@);
    let name_h = chars_of("NAME");
    let size_h = chars_of("SIZE");
    push_row(&mut m, name_h.as_slice(), "KIND", size_h.as_slice(), nw, sw);
    let ghost rows_start = m@;
    let mut j: usize = 0;
    while j < entries.len()
        invariant
            j <= entries@.len(),
            m@ == rows_start + table_rows(entries@, nw as nat, sw as nat, j as nat),
        decreases entries@.len() - j,
    {
        let name = chars_of(entries[j].name.as_str());
        let size = entry_size_chars(&entries[j]);
        push_row(&mut m, name.as_slice(), entry_kind_str(&entries[j]), size.as_slice(), nw, sw);
        assert(m@ =~= rows_start + table_rows(entries@, nw as nat, sw as nat, (j + 1) as nat));
        j += 1;
    }
    assert(m@ =~= info_text_of(path@, img_len as nat, fs, label@, entries@));
    string_of(m.as_slice())
}

/// The info verb's JSON entries, separated by commas.
pub open spec fn entries_json(es: Seq<AdfEntry>, n: nat) -> Seq<char>
    decreases n,
{
    if n == 0 {
        Seq::empty()
    } else {
        entries_json(es, (n - 1) as nat) + (if n > 1 {
            ","@
        } else {
            Seq::empty()
        }) + "{\"name\":\""@ + json_escaped(es[n - 1].name@) + "\",\"kind\":\""@ + kind_text(es[n - 1])
            + "\",\"size\":"@ + decimal(es[n - 1].size as nat) + "}"@
    }
}

/// The info verb's JSON line.
pub open spec fn info_json_of(path: Seq<char>, img_len: nat, fs: AdfFs, label: Seq<char>, es: Seq<AdfEntry>) -> Seq<char> {
    "{\"tool\":\"adf\",\"command\":\"info\",\"input\":\""@ + json_escaped(path) + "\",\"filesystem\":\""@ + fs_name(
        fs,
    ) + "\",\"label\":\""@ + json_escaped(label) + "\",\"bytes\":"@ + decimal(img_len) + ",\"entries\":["@
        + entries_json(es, es.len()) + "]}"@
}

/// The info verb's JSON line.
pub fn adf_info_json(path: &str, img_len: usize, fs: AdfFs, label: &str, entries: &[AdfEntry]) -> (r: String)
    ensures
        r@ == info_json_of(path@, img_len as nat, fs, label@, entries@),
{
    let mut m: Vec<char> = Vec::new();
    push_str(&mut m, "{\"tool\":\"adf\",\"command\":\"info\",\"input\":\"");
    push_escaped(&mut m, path);
    push_str(&mut m, "\",\"filesystem\":\"");
    push_str(&mut m, fs.name());
    push_str(&mut m, "\",\"label\":\"");
    push_escaped(&mut m, label);
    push_str(&mut m, "\",\"bytes\":");
    push_decimal(&mut m, img_len as u64);
    push_str(&mut m, ",\"entries\":[");
    let ghost start = m@;
    let mut i: usize = 0;
    while i < entries.len()
        invariant
            i <= entries@.len(),
            m@ == start + entries_json(entries@, i as nat),
        decreases entries@.len() - i,
    {
        let ghost before = m@;
        if i > 0 {
            push_str(&mut m, ",");
        }
        push_str(&mut m, "{\"name\":\"");
        push_escaped(&mut m, entries[i].name.as_str());
        push_str(&mut m, "\",\"kind\":\"");
        push_str(&mut m, entry_kind_str(&entries[i]));
        push_str(&mut m, "\",\"size\":");
        push_decimal(&mut m, entries[i].size as u64);
        push_str(&mut m, "}");
        assert(m@ =~= start + entries_json(entries@, (i + 1) as nat));
        i += 1;
    }
    push_str(&mut m, "]}");
    assert(m@ =~= info_json_of(path@, img_len as nat, fs, label@, entries@));
    string_of(m.as_slice())
}

} // verus!
