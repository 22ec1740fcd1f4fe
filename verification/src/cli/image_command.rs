//! The `image` command: its arguments, output naming, per-file outcomes,
//! exit codes and JSON report.
use vstd::prelude::*;

use crate::cli::json::string_views;
use crate::convert::colour::Metric;
use crate::convert::dither::DitherMode;
use crate::convert::pipeline::{default_dither, default_dither_spec};
use crate::mediaspec::{
    first_mode, first_named, machines, machines_view, spec_machine, ScreenMode, ConstraintRule, MachineGraphics, MachineView, NamedPalette,
    NamedPaletteView, PaletteModel, PaletteModelView, ScreenModeView,
};
use crate::text::{
    chars_of, hex_val, is_hex_digit, joined, parse_unsigned, parse_unsigned_max, push_joined, push_str, slice_chars,
    str_eq, str_views, string_of,
};

verus! {

// --- formats ------------------------------------------------------------------------

/// The output format requested with `--format`. Each format pins one
/// machine, and all but ILBM pin one screen mode.
#[derive(Clone, Copy, PartialEq, Eq, Debug, Structural)]
pub enum Format {
    /// Spectrum screen dump (`sinclair-zx-spectrum`, mode `standard`).
    Scr,
    /// C64 Koala Painter (`commodore-c64`, mode `multicolour-bitmap`).
    Koala,
    /// C64 OCP Art Studio (`commodore-c64`, mode `hires-bitmap`).
    ArtStudio,
    /// Amiga IFF/ILBM (`commodore-amiga-ocs`, mode from `--mode`).
    Ilbm,
}

/// The command-line token of a format.
pub open spec fn format_token(f: Format) -> Seq<char> {
    match f {
        Format::Scr => "scr"@,
        Format::Koala => "koala"@,
        Format::ArtStudio => "art-studio"@,
        Format::Ilbm => "ilbm"@,
    }
}

/// The format a token names.
pub open spec fn format_of_token(t: Seq<char>) -> Option<Format> {
    if t == "scr"@ {
        Some(Format::Scr)
    } else if t == "koala"@ {
        Some(Format::Koala)
    } else if t == "art-studio"@ {
        Some(Format::ArtStudio)
    } else if t == "ilbm"@ {
        Some(Format::Ilbm)
    } else {
        None
    }
}

/// The machine a format belongs to.
pub open spec fn format_machine(f: Format) -> Seq<char> {
    match f {
        Format::Scr => "sinclair-zx-spectrum"@,
        Format::Koala | Format::ArtStudio => "commodore-c64"@,
        Format::Ilbm => "commodore-amiga-ocs"@,
    }
}

/// The screen mode a format implies (`None` for ILBM, which takes `--mode`).
pub open spec fn format_mode(f: Format) -> Option<Seq<char>> {
    match f {
        Format::Scr => Some("standard"@),
        Format::Koala => Some("multicolour-bitmap"@),
        Format::ArtStudio => Some("hires-bitmap"@),
        Format::Ilbm => None,
    }
}

/// The default output file extension of a format.
pub open spec fn format_extension(f: Format) -> Seq<char> {
    match f {
        Format::Scr => "scr"@,
        Format::Koala => "koa"@,
        Format::ArtStudio => "art"@,
        Format::Ilbm => "iff"@,
    }
}

impl Format {
    /// The format a `--format` token names.
    pub fn parse(token: &str) -> (r: Option<Format>)
        ensures
            r == format_of_token(token@),
    {
        if str_eq(token, "scr") {
            Some(Format::Scr)
        } else if str_eq(token, "koala") {
            Some(Format::Koala)
        } else if str_eq(token, "art-studio") {
            Some(Format::ArtStudio)
        } else if str_eq(token, "ilbm") {
            Some(Format::Ilbm)
        } else {
            None
        }
    }

    /// The command-line token.
    pub fn token(self) -> (r: &'static str)
        ensures
            r@ == format_token(self),
    {
        match self {
            Format::Scr => "scr",
            Format::Koala => "koala",
            Format::ArtStudio => "art-studio",
            Format::Ilbm => "ilbm",
        }
    }

    /// The machine id this format belongs to.
    pub fn machine_id(self) -> (r: &'static str)
        ensures
            r@ == format_machine(self),
    {
        match self {
            Format::Scr => "sinclair-zx-spectrum",
            Format::Koala | Format::ArtStudio => "commodore-c64",
            Format::Ilbm => "commodore-amiga-ocs",
        }
    }

    /// The screen mode this format implies (`None` for ILBM, which takes
    /// `--mode`).
    pub fn implied_mode(self) -> (r: Option<&'static str>)
        ensures
            match format_mode(self) {
                Some(m) => r matches Some(s) && s@ == m,
                None => r is None,
            },
    {
        match self {
            Format::Scr => Some("standard"),
            Format::Koala => Some("multicolour-bitmap"),
            Format::ArtStudio => Some("hires-bitmap"),
            Format::Ilbm => None,
        }
    }

    /// Default output file extension.
    pub fn extension(self) -> (r: &'static str)
        ensures
            r@ == format_extension(self),
    {
        match self {
            Format::Scr => "scr",
            Format::Koala => "koa",
            Format::ArtStudio => "art",
            Format::Ilbm => "iff",
        }
    }
}

// --- scanning the arguments ---------------------------------------------------------

/// The option slots of the `image` command's value flags, in the order the
/// validation reads them.
pub const SLOT_MACHINE: usize = 0;
pub const SLOT_FORMAT: usize = 1;
pub const SLOT_MODE: usize = 2;
pub const SLOT_PALETTE: usize = 3;
pub const SLOT_METRIC: usize = 4;
pub const SLOT_DITHER: usize = 5;
pub const SLOT_STRENGTH: usize = 6;
pub const SLOT_MATTE: usize = 7;
pub const SLOT_OUTPUT: usize = 8;
pub const SLOT_PREVIEW: usize = 9;
pub const SLOT_REPORT: usize = 10;
pub const SLOT_COUNT: usize = 11;

/// The slot a value-taking flag fills and the name its missing-value error
/// gives (`-o` is reported as `--output`).
pub open spec fn value_flag(a: Seq<char>) -> Option<(int, Seq<char>)> {
    if a == "--machine"@ {
        Some((0, "--machine"@))
    } else if a == "--format"@ {
        Some((1, "--format"@))
    } else if a == "--mode"@ {
        Some((2, "--mode"@))
    } else if a == "--palette"@ {
        Some((3, "--palette"@))
    } else if a == "--metric"@ {
        Some((4, "--metric"@))
    } else if a == "--dither"@ {
        Some((5, "--dither"@))
    } else if a == "--dither-strength"@ {
        Some((6, "--dither-strength"@))
    } else if a == "--matte"@ {
        Some((7, "--matte"@))
    } else if a == "-o"@ || a == "--output"@ {
        Some((8, "--output"@))
    } else if a == "--preview"@ {
        Some((9, "--preview"@))
    } else if a == "--report"@ {
        Some((10, "--report"@))
    } else {
        None
    }
}

fn value_flag_of(a: &str) -> (r: Option<(usize, &'static str)>)
    ensures
        match value_flag(a@) {
            Some((slot, name)) => r matches Some((s, n)) && s == slot && n@ == name,
            None => r is None,
        },
{
    if str_eq(a, "--machine") {
        Some((SLOT_MACHINE, "--machine"))
    } else if str_eq(a, "--format") {
        Some((SLOT_FORMAT, "--format"))
    } else if str_eq(a, "--mode") {
        Some((SLOT_MODE, "--mode"))
    } else if str_eq(a, "--palette") {
        Some((SLOT_PALETTE, "--palette"))
    } else if str_eq(a, "--metric") {
        Some((SLOT_METRIC, "--metric"))
    } else if str_eq(a, "--dither") {
        Some((SLOT_DITHER, "--dither"))
    } else if str_eq(a, "--dither-strength") {
        Some((SLOT_STRENGTH, "--dither-strength"))
    } else if str_eq(a, "--matte") {
        Some((SLOT_MATTE, "--matte"))
    } else if str_eq(a, "-o") || str_eq(a, "--output") {
        Some((SLOT_OUTPUT, "--output"))
    } else if str_eq(a, "--preview") {
        Some((SLOT_PREVIEW, "--preview"))
    } else if str_eq(a, "--report") {
        Some((SLOT_REPORT, "--report"))
    } else {
        None
    }
}

/// Whether an argument is a flag: a `-` followed by at least one more
/// character.
pub open spec fn is_flag(a: Seq<char>) -> bool {
    a.len() > 1 && a[0] == '-'
}

/// The arguments as the scan leaves them: the inputs in order, the last
/// value given for each value flag, and the two switches.
pub struct ImageScan {
    pub inputs: Vec<String>,
    pub values: Vec<Option<String>>,
    pub exhaustive_background: bool,
    pub force: bool,
}

/// The mathematical value of an [`ImageScan`].
pub struct ImageScanView {
    pub inputs: Seq<Seq<char>>,
    pub values: Seq<Option<Seq<char>>>,
    pub exhaustive_background: bool,
    pub force: bool,
}

/// The characters of an optional string.
pub open spec fn opt_view(o: Option<String>) -> Option<Seq<char>> {
    match o {
        Some(s) => Some(s@),
        None => None,
    }
}

impl View for ImageScan {
    type V = ImageScanView;

    open spec fn view(&self) -> ImageScanView {
        ImageScanView {
            inputs: string_views(self.inputs@),
            values: self.values@.map_values(|o: Option<String>| opt_view(o)),
            exhaustive_background: self.exhaustive_background,
            force: self.force,
        }
    }
}

/// Nothing scanned yet.
pub open spec fn empty_scan() -> ImageScanView {
    ImageScanView {
        inputs: Seq::empty(),
        values: Seq::new(11, |i: int| None::<Seq<char>>),
        exhaustive_background: false,
        force: false,
    }
}

/// Scan the arguments from position `i`: a value flag takes the next
/// argument whatever it is (an error when there is none), the two switches
/// set their flag, any other flag is an error, and anything else is an
/// input.
pub open spec fn scan_from(args: Seq<Seq<char>>, i: int, acc: ImageScanView) -> Result<ImageScanView, Seq<char>>
    decreases args.len() - i,
{
    if i < 0 || i >= args.len() {
        Ok(acc)
    } else {
        let a = args[i];
        match value_flag(a) {
            Some((slot, name)) => if i + 1 < args.len() {
                scan_from(
                    args,
                    i + 2,
                    ImageScanView { values: acc.values.update(slot, Some(args[i + 1])), ..acc },
                )
            } else {
                Err("`"@ + name + "` needs a value"@)
            },
            None => if a == "--exhaustive-background"@ {
                scan_from(args, i + 1, ImageScanView { exhaustive_background: true, ..acc })
            } else if a == "--force"@ {
                scan_from(args, i + 1, ImageScanView { force: true, ..acc })
            } else if is_flag(a) {
                Err("unknown flag `"@ + a + "`"@)
            } else {
                scan_from(args, i + 1, ImageScanView { inputs: acc.inputs.push(a), ..acc })
            },
        }
    }
}

/// Scan the `image` arguments (see [`scan_from`]).
pub fn scan_image_args(args: &[String]) -> (r: Result<ImageScan, String>)
    ensures
        match scan_from(string_views(args@), 0, empty_scan()) {
            Ok(s) => r matches Ok(x) && x@ == s && x.values@.len() == 11,
            Err(e) => r matches Err(m) && m@ == e,
        },
{
    let ghost av = string_views(args@);
    let mut values: Vec<Option<String>> = Vec::new();
    let mut k: usize = 0;
    while k < SLOT_COUNT
        invariant
            k <= 11,
            values@.len() == k,
            forall|j: int| 0 <= j < k ==> #[trigger] values@[j] is None,
        decreases 11 - k,
    {
        values.push(None);
        k += 1;
    }
    let mut scan = ImageScan { inputs: Vec::new(), values, exhaustive_background: false, force: false };
    assert(scan@.values =~= empty_scan().values);
    assert(scan@.inputs =~= empty_scan().inputs);
    let mut i: usize = 0;
    while i < args.len()
        invariant
            av == string_views(args@),
            i <= args@.len(),
            scan.values@.len() == 11,
            scan_from(av, 0, empty_scan()) == scan_from(av, i as int, scan@),
        decreases args@.len() - i,
    {
        let a = args[i].as_str();
        assert(av[i as int] == a@);
        match value_flag_of(a) {
            Some((slot, name)) => {
                if i + 1 < args.len() {
                    let v = args[i + 1].clone();
                    let ghost before = scan@;
                    scan.values.set(slot, Some(v));
                    proof {
                        assert(av[i + 1] == args@[i + 1]@);
                        assert(scan@.values =~= before.values.update(slot as int, Some(av[i + 1])));
                        assert(scan@.inputs =~= before.inputs);
                    }
                    i += 2;
                } else {
                    let mut m: Vec<char> = Vec::new();
                    push_str(&mut m, "`");
                    push_str(&mut m, name);
                    push_str(&mut m, "` needs a value");
                    return Err(string_of(m.as_slice()));
                }
            },
            None => {
                if str_eq(a, "--exhaustive-background") {
                    scan.exhaustive_background = true;
                } else if str_eq(a, "--force") {
                    scan.force = true;
                } else {
                    let cs = chars_of(a);
                    if cs.len() > 1 && cs[0] == '-' {
                        let mut m: Vec<char> = Vec::new();
                        push_str(&mut m, "unknown flag `");
                        push_str(&mut m, a);
                        push_str(&mut m, "`");
                        return Err(string_of(m.as_slice()));
                    }
                    let ghost before = scan@;
                    scan.inputs.push(a.to_owned());
                    proof {
                        assert(scan@.inputs =~= before.inputs.push(a@));
                        assert(scan@.values =~= before.values);
                    }
                }
                i += 1;
            },
        }
    }
    Ok(scan)
}


// --- validating the arguments -------------------------------------------------------

/// Fully validated `image` arguments.
pub struct ImageArgs {
    pub inputs: Vec<String>,
    pub machine: String,
    pub format: Format,
    pub mode: String,
    /// Palette interpretation name (fixed-palette machines only).
    pub palette: Option<String>,
    pub metric: Metric,
    pub dither: DitherMode,
    /// Dither strength 0..=64; 0 is the canonical no-dither state
    /// (`--dither none` sets it, and `--dither-strength 0` means the same).
    pub strength: u8,
    pub matte: [u8; 3],
    pub exhaustive_background: bool,
    pub output: Option<String>,
    pub preview: Option<String>,
    pub force: bool,
    pub report: Option<String>,
}

/// The mathematical value of [`ImageArgs`].
pub struct ImageArgsView {
    pub inputs: Seq<Seq<char>>,
    pub machine: Seq<char>,
    pub format: Format,
    pub mode: Seq<char>,
    pub palette: Option<Seq<char>>,
    pub metric: Metric,
    pub dither: DitherMode,
    pub strength: u8,
    pub matte: (u8, u8, u8),
    pub exhaustive_background: bool,
    pub output: Option<Seq<char>>,
    pub preview: Option<Seq<char>>,
    pub force: bool,
    pub report: Option<Seq<char>>,
}

impl View for ImageArgs {
    type V = ImageArgsView;

    open spec fn view(&self) -> ImageArgsView {
        ImageArgsView {
            inputs: string_views(self.inputs@),
            machine: self.machine@,
            format: self.format,
            mode: self.mode@,
            palette: opt_view(self.palette),
            metric: self.metric,
            dither: self.dither,
            strength: self.strength,
            matte: (self.matte[0], self.matte[1], self.matte[2]),
            exhaustive_background: self.exhaustive_background,
            output: opt_view(self.output),
            preview: opt_view(self.preview),
            force: self.force,
            report: opt_view(self.report),
        }
    }
}

/// The ids of every machine, in order.
pub open spec fn machine_ids() -> Seq<Seq<char>> {
    machines_view().map_values(|m: MachineView| m.id)
}

/// The names of some screen modes.
pub open spec fn mode_names(modes: Seq<ScreenModeView>) -> Seq<Seq<char>> {
    modes.map_values(|m: ScreenModeView| m.name)
}

/// The names of some palette interpretations.
pub open spec fn palette_names(ps: Seq<NamedPaletteView>) -> Seq<Seq<char>> {
    ps.map_values(|p: NamedPaletteView| p.name)
}

/// The screen mode the format and `--mode` resolve to: the format's own
/// mode, or for ILBM `--mode` with `lores-pal` by default; `--mode` with
/// any other format is an error.
pub open spec fn resolve_mode(f: Format, mode_arg: Option<Seq<char>>) -> Result<Seq<char>, Seq<char>> {
    match format_mode(f) {
        None => match mode_arg {
            None => Ok("lores-pal"@),
            Some(m) => Ok(m),
        },
        Some(implied) => match mode_arg {
            None => Ok(implied),
            Some(_) => Err(
                "--mode applies to --format ilbm only (format `"@ + format_token(f) + "` implies mode `"@
                    + implied + "`)"@,
            ),
        },
    }
}

/// Why `--palette` is refused, if it is: an unknown interpretation name on
/// a fixed-palette machine, or any name on a gamut machine.
pub open spec fn palette_error(spec: MachineView, palette: Option<Seq<char>>) -> Option<Seq<char>> {
    match palette {
        None => None,
        Some(name) => match spec.palette {
            PaletteModelView::Fixed(list) => if first_named(list, name) is Some {
                None
            } else {
                Some(
                    "unknown palette interpretation `"@ + name + "` for "@ + spec.id + " ("@ + joined(
                        palette_names(list),
                        ", "@,
                    ) + ")"@,
                )
            },
            PaletteModelView::Gamut { .. } => Some(
                "--palette is not available for `"@ + spec.id
                    + "`: its palette is a generated gamut, not a named interpretation"@,
            ),
        },
    }
}

/// The metric `--metric` names (OKLab by default).
pub open spec fn metric_of(arg: Option<Seq<char>>) -> Result<Metric, Seq<char>> {
    match arg {
        None => Ok(Metric::OkLab),
        Some(m) => if m == "oklab"@ {
            Ok(Metric::OkLab)
        } else if m == "weighted-rgb"@ {
            Ok(Metric::WeightedRgb)
        } else if m == "yuv"@ {
            Ok(Metric::Yuv)
        } else {
            Err("unknown metric `"@ + m + "` (oklab, weighted-rgb, yuv)"@)
        },
    }
}

/// The strength `--dither-strength` gives: 32 by default, else a `u8`
/// (std's reading: an optional `+`, then decimal digits) of at most 64.
pub open spec fn strength_of(arg: Option<Seq<char>>) -> Result<u8, Seq<char>> {
    match arg {
        None => Ok(32u8),
        Some(s) => match parse_unsigned(s, 255) {
            Some(v) => if v <= 64 {
                Ok(v as u8)
            } else {
                Err("--dither-strength must be an integer 0..=64, got `"@ + s + "`"@)
            },
            None => Err("--dither-strength must be an integer 0..=64, got `"@ + s + "`"@),
        },
    }
}

/// The dither `--dither` names, with the strength it leaves: the target's
/// default when absent, and `none` as 8x8 Bayer at strength 0.
pub open spec fn dither_of(arg: Option<Seq<char>>, rule: ConstraintRule, strength: u8) -> Result<(DitherMode, u8), Seq<char>> {
    match arg {
        None => Ok((default_dither_spec(rule), strength)),
        Some(d) => if d == "ordered8"@ {
            Ok((DitherMode::Bayer8, strength))
        } else if d == "ordered4"@ {
            Ok((DitherMode::Bayer4, strength))
        } else if d == "fs"@ {
            Ok((DitherMode::FloydSteinberg, strength))
        } else if d == "atkinson"@ {
            Ok((DitherMode::Atkinson, strength))
        } else if d == "none"@ {
            Ok((DitherMode::Bayer8, 0u8))
        } else {
            Err("unknown dither `"@ + d + "` (ordered4, ordered8, fs, atkinson, none)"@)
        },
    }
}

/// The command-line token of a dither algorithm, ignoring strength.
pub open spec fn dither_mode_name(d: DitherMode) -> Seq<char> {
    match d {
        DitherMode::Bayer4 => "ordered4"@,
        DitherMode::Bayer8 => "ordered8"@,
        DitherMode::FloydSteinberg => "fs"@,
        DitherMode::Atkinson => "atkinson"@,
    }
}

/// The two hex digits of one `--matte` channel as `u8::from_str_radix`
/// reads them in base 16: two digits, or a `+` and one digit.
pub open spec fn radix16_pair(a: char, b: char) -> Option<int> {
    if a == '+' {
        if is_hex_digit(b) {
            Some(hex_val(b))
        } else {
            None
        }
    } else if is_hex_digit(a) && is_hex_digit(b) {
        Some(hex_val(a) * 16 + hex_val(b))
    } else {
        None
    }
}

/// Whether every character is ASCII.
pub open spec fn all_ascii(s: Seq<char>) -> bool {
    forall|i: int| 0 <= i < s.len() ==> (#[trigger] s[i] as u32) < 128
}

/// What `--matte` gives: `rrggbb` with an optional leading `#`.
pub open spec fn matte_of_text(s: Seq<char>) -> Result<(u8, u8, u8), Seq<char>> {
    let hex = if s.len() > 0 && s[0] == '#' {
        s.drop_first()
    } else {
        s
    };
    let err = "--matte must be six hex digits (rrggbb), got `"@ + s + "`"@;
    if hex.len() != 6 || !all_ascii(hex) {
        Err(err)
    } else {
        match (radix16_pair(hex[0], hex[1]), radix16_pair(hex[2], hex[3]), radix16_pair(hex[4], hex[5])) {
            (Some(r), Some(g), Some(b)) => Ok((r as u8, g as u8, b as u8)),
            _ => Err(err),
        }
    }
}

/// The matte `--matte` gives (black by default).
pub open spec fn matte_of(arg: Option<Seq<char>>) -> Result<(u8, u8, u8), Seq<char>> {
    match arg {
        None => Ok((0u8, 0u8, 0u8)),
        Some(s) => matte_of_text(s),
    }
}

/// The checks that follow the mode, in the order the command makes them.
pub open spec fn validate_options(
    s: ImageScanView,
    machine: Seq<char>,
    format: Format,
    mode: Seq<char>,
    spec: MachineView,
    rule: ConstraintRule,
) -> Result<ImageArgsView, Seq<char>> {
    match palette_error(spec, s.values[3]) {
        Some(e) => Err(e),
        None => match metric_of(s.values[4]) {
            Err(e) => Err(e),
            Ok(metric) => match strength_of(s.values[6]) {
                Err(e) => Err(e),
                Ok(strength0) => match dither_of(s.values[5], rule, strength0) {
                    Err(e) => Err(e),
                    Ok((dither, strength)) => if !(dither == DitherMode::Bayer4 || dither == DitherMode::Bayer8)
                        && !(rule is Planar) {
                        Err(
                            "--dither "@ + dither_mode_name(dither)
                                + " needs a free-palette (planar) target; cell-constrained formats take ordered4, ordered8, or none"@,
                        )
                    } else {
                        match matte_of(s.values[7]) {
                            Err(e) => Err(e),
                            Ok(matte) => if s.exhaustive_background && rule != ConstraintRule::C64Multicolour {
                                Err("--exhaustive-background applies to C64 multicolour (--format koala) only"@)
                            } else if s.inputs.len() > 1 && s.values[8] is Some {
                                Err(
                                    "`-o/--output` takes a single input (batch outputs default to <stem>.<ext> in the cwd)"@,
                                )
                            } else if s.inputs.len() > 1 && s.values[9] is Some {
                                Err("`--preview` takes a single input"@)
                            } else {
                                Ok(
                                    ImageArgsView {
                                        inputs: s.inputs,
                                        machine,
                                        format,
                                        mode,
                                        palette: s.values[3],
                                        metric,
                                        dither,
                                        strength,
                                        matte,
                                        exhaustive_background: s.exhaustive_background,
                                        output: s.values[8],
                                        preview: s.values[9],
                                        force: s.force,
                                        report: s.values[10],
                                    },
                                )
                            },
                        }
                    },
                },
            },
        },
    }
}

/// Validate scanned arguments, in order: inputs, machine, format, their
/// pairing, the mode, then the options.
pub open spec fn validate_scan(s: ImageScanView) -> Result<ImageArgsView, Seq<char>> {
    if s.inputs.len() == 0 {
        Err("no input files given"@)
    } else {
        match s.values[0] {
            None => Err("`--machine` is required"@),
            Some(machine) => match spec_machine(machine) {
                None => Err("unknown machine `"@ + machine + "` ("@ + joined(machine_ids(), ", "@) + ")"@),
                Some(spec) => match s.values[1] {
                    None => Err("`--format` is required"@),
                    Some(ft) => match format_of_token(ft) {
                        None => Err("unknown format `"@ + ft + "` (scr, koala, art-studio, ilbm)"@),
                        Some(format) => if format_machine(format) != spec.id {
                            Err(
                                "format `"@ + format_token(format) + "` targets machine `"@ + format_machine(format)
                                    + "`, not `"@ + spec.id + "`"@,
                            )
                        } else {
                            match resolve_mode(format, s.values[2]) {
                                Err(e) => Err(e),
                                Ok(mode) => match first_mode(spec.modes, mode) {
                                    None => Err(
                                        "unknown mode `"@ + mode + "` for "@ + spec.id + " ("@ + joined(
                                            mode_names(spec.modes),
                                            ", "@,
                                        ) + ")"@,
                                    ),
                                    Some(mi) => validate_options(s, machine, format, mode, spec, spec.modes[mi].constraint),
                                },
                            }
                        },
                    },
                },
            },
        }
    }
}


// --- the tokens and the option readers ----------------------------------------------

/// The command-line token for a metric (the report's `options.metric`
/// echoes it).
pub open spec fn metric_name(m: Metric) -> Seq<char> {
    match m {
        Metric::OkLab => "oklab"@,
        Metric::WeightedRgb => "weighted-rgb"@,
        Metric::Yuv => "yuv"@,
    }
}

/// The command-line token for a metric.
pub fn metric_token(metric: Metric) -> (r: &'static str)
    ensures
        r@ == metric_name(metric),
{
    match metric {
        Metric::OkLab => "oklab",
        Metric::WeightedRgb => "weighted-rgb",
        Metric::Yuv => "yuv",
    }
}

/// The command-line token for a dither algorithm, ignoring strength.
pub fn dither_mode_token(dither: DitherMode) -> (r: &'static str)
    ensures
        r@ == dither_mode_name(dither),
{
    match dither {
        DitherMode::Bayer4 => "ordered4",
        DitherMode::Bayer8 => "ordered8",
        DitherMode::FloydSteinberg => "fs",
        DitherMode::Atkinson => "atkinson",
    }
}

/// The token of a dither selection: `none` at strength 0 whatever the
/// algorithm, else the algorithm's token.
pub open spec fn dither_name(dither: DitherMode, strength: u8) -> Seq<char> {
    if strength == 0 {
        "none"@
    } else {
        dither_mode_name(dither)
    }
}

/// The command-line token for a dither selection (the report's
/// `options.dither` echoes it). Strength 0 is the canonical no-dither
/// state, so it reports `none` regardless of the algorithm.
pub fn dither_token(dither: DitherMode, strength: u8) -> (r: &'static str)
    ensures
        r@ == dither_name(dither, strength),
{
    if strength == 0 {
        return "none";
    }
    dither_mode_token(dither)
}

fn hex_value(c: char) -> (r: Option<u8>)
    ensures
        match r {
            Some(v) => is_hex_digit(c) && v == hex_val(c),
            None => !is_hex_digit(c),
        },
{
    if '0' <= c && c <= '9' {
        Some((c as u32 - '0' as u32) as u8)
    } else if 'a' <= c && c <= 'f' {
        Some((c as u32 - 'a' as u32 + 10) as u8)
    } else if 'A' <= c && c <= 'F' {
        Some((c as u32 - 'A' as u32 + 10) as u8)
    } else {
        None
    }
}

fn radix16(a: char, b: char) -> (r: Option<u8>)
    ensures
        match radix16_pair(a, b) {
            Some(v) => r == Some(v as u8) && 0 <= v < 256,
            None => r is None,
        },
{
    if a == '+' {
        hex_value(b)
    } else {
        match (hex_value(a), hex_value(b)) {
            (Some(x), Some(y)) => Some(x * 16 + y),
            _ => None,
        }
    }
}

/// Parse `rrggbb` (optional leading `#`) into an RGB triple.
#[verifier::loop_isolation(false)]
pub fn parse_matte(s: &str) -> (r: Result<[u8; 3], String>)
    ensures
        match matte_of_text(s@) {
            Ok((red, green, blue)) => r matches Ok(m) && m[0] == red && m[1] == green && m[2] == blue,
            Err(e) => r matches Err(x) && x@ == e,
        },
{
    let cs = chars_of(s);
    let hex: Vec<char> = if cs.len() > 0 && cs[0] == '#' {
        slice_chars(cs.as_slice(), 1, cs.len())
    } else {
        slice_chars(cs.as_slice(), 0, cs.len())
    };
    assert(hex@ =~= (if s@.len() > 0 && s@[0] == '#' {
        s@.drop_first()
    } else {
        s@
    }));
    let mut err: Vec<char> = Vec::new();
    push_str(&mut err, "--matte must be six hex digits (rrggbb), got `");
    push_str(&mut err, s);
    push_str(&mut err, "`");
    if hex.len() != 6 {
        return Err(string_of(err.as_slice()));
    }
    let mut i: usize = 0;
    while i < 6
        invariant
            hex@.len() == 6,
            i <= 6,
            forall|j: int| 0 <= j < i ==> (#[trigger] hex@[j] as u32) < 128,
        decreases 6 - i,
    {
        if hex[i] as u32 >= 128 {
            return Err(string_of(err.as_slice()));
        }
        i += 1;
    }
    match (radix16(hex[0], hex[1]), radix16(hex[2], hex[3]), radix16(hex[4], hex[5])) {
        (Some(red), Some(green), Some(blue)) => Ok([red, green, blue]),
        _ => Err(string_of(err.as_slice())),
    }
}

fn resolve_mode_arg(format: Format, mode_arg: &Option<String>) -> (r: Result<String, String>)
    ensures
        match resolve_mode(format, opt_view(*mode_arg)) {
            Ok(m) => r matches Ok(x) && x@ == m,
            Err(e) => r matches Err(x) && x@ == e,
        },
{
    match format.implied_mode() {
        None => match mode_arg {
            None => Ok("lores-pal".to_owned()),
            Some(m) => Ok(m.clone()),
        },
        Some(implied) => match mode_arg {
            None => Ok(implied.to_owned()),
            Some(_) => {
                let mut m: Vec<char> = Vec::new();
                push_str(&mut m, "--mode applies to --format ilbm only (format `");
                push_str(&mut m, format.token());
                push_str(&mut m, "` implies mode `");
                push_str(&mut m, implied);
                push_str(&mut m, "`)");
                Err(string_of(m.as_slice()))
            },
        },
    }
}

fn palette_check(spec: &MachineGraphics, palette: &Option<String>) -> (r: Option<String>)
    ensures
        match palette_error(spec@, opt_view(*palette)) {
            Some(e) => r matches Some(x) && x@ == e,
            None => r is None,
        },
{
    match palette {
        None => None,
        Some(name) => match &spec.palette {
            PaletteModel::Fixed(list) => {
                let ghost ps = list@.map_values(|p: NamedPalette| p@);
                assert(spec@.palette == PaletteModelView::Fixed(ps));
                if spec.interpretation(name.as_str()).is_some() {
                    return None;
                }
                let mut names: Vec<&str> = Vec::new();
                let mut i: usize = 0;
                while i < list.len()
                    invariant
                        i <= list@.len(),
                        ps == list@.map_values(|p: NamedPalette| p@),
                        str_views(names@) =~= palette_names(ps).take(i as int),
                    decreases list@.len() - i,
                {
                    let ghost before = names@;
                    names.push(list[i].name);
                    proof {
                        assert(ps[i as int] == list@[i as int]@);
                        assert(str_views(names@) =~= str_views(before).push(list@[i as int].name@));
                        assert(palette_names(ps).take(i + 1) =~= palette_names(ps).take(i as int).push(
                            ps[i as int].name,
                        ));
                    }
                    i += 1;
                }
                assert(palette_names(ps).take(list@.len() as int) =~= palette_names(ps));
                let mut m: Vec<char> = Vec::new();
                push_str(&mut m, "unknown palette interpretation `");
                push_str(&mut m, name.as_str());
                push_str(&mut m, "` for ");
                push_str(&mut m, spec.id);
                push_str(&mut m, " (");
                push_joined(&mut m, names.as_slice(), ", ");
                push_str(&mut m, ")");
                Some(string_of(m.as_slice()))
            },
            PaletteModel::Gamut { .. } => {
                let mut m: Vec<char> = Vec::new();
                push_str(&mut m, "--palette is not available for `");
                push_str(&mut m, spec.id);
                push_str(&mut m, "`: its palette is a generated gamut, not a named interpretation");
                Some(string_of(m.as_slice()))
            },
        },
    }
}

fn metric_arg(arg: &Option<String>) -> (r: Result<Metric, String>)
    ensures
        match metric_of(opt_view(*arg)) {
            Ok(m) => r == Ok::<Metric, String>(m),
            Err(e) => r matches Err(x) && x@ == e,
        },
{
    match arg {
        None => Ok(Metric::OkLab),
        Some(m) => {
            if str_eq(m.as_str(), "oklab") {
                Ok(Metric::OkLab)
            } else if str_eq(m.as_str(), "weighted-rgb") {
                Ok(Metric::WeightedRgb)
            } else if str_eq(m.as_str(), "yuv") {
                Ok(Metric::Yuv)
            } else {
                let mut e: Vec<char> = Vec::new();
                push_str(&mut e, "unknown metric `");
                push_str(&mut e, m.as_str());
                push_str(&mut e, "` (oklab, weighted-rgb, yuv)");
                Err(string_of(e.as_slice()))
            }
        },
    }
}

fn strength_arg(arg: &Option<String>) -> (r: Result<u8, String>)
    ensures
        match strength_of(opt_view(*arg)) {
            Ok(v) => r == Ok::<u8, String>(v),
            Err(e) => r matches Err(x) && x@ == e,
        },
{
    match arg {
        None => Ok(32),
        Some(s) => {
            let cs = chars_of(s.as_str());
            match parse_unsigned_max(cs.as_slice(), 255) {
                Some(v) => {
                    if v <= 64 {
                        return Ok(v as u8);
                    }
                },
                None => {},
            }
            let mut e: Vec<char> = Vec::new();
            push_str(&mut e, "--dither-strength must be an integer 0..=64, got `");
            push_str(&mut e, s.as_str());
            push_str(&mut e, "`");
            Err(string_of(e.as_slice()))
        },
    }
}

fn dither_arg(arg: &Option<String>, rule: ConstraintRule, strength: u8) -> (r: Result<(DitherMode, u8), String>)
    ensures
        match dither_of(opt_view(*arg), rule, strength) {
            Ok(d) => r == Ok::<(DitherMode, u8), String>(d),
            Err(e) => r matches Err(x) && x@ == e,
        },
{
    match arg {
        None => Ok((default_dither(rule), strength)),
        Some(d) => {
            let t = d.as_str();
            if str_eq(t, "ordered8") {
                Ok((DitherMode::Bayer8, strength))
            } else if str_eq(t, "ordered4") {
                Ok((DitherMode::Bayer4, strength))
            } else if str_eq(t, "fs") {
                Ok((DitherMode::FloydSteinberg, strength))
            } else if str_eq(t, "atkinson") {
                Ok((DitherMode::Atkinson, strength))
            } else if str_eq(t, "none") {
                Ok((DitherMode::Bayer8, 0))
            } else {
                let mut e: Vec<char> = Vec::new();
                push_str(&mut e, "unknown dither `");
                push_str(&mut e, t);
                push_str(&mut e, "` (ordered4, ordered8, fs, atkinson, none)");
                Err(string_of(e.as_slice()))
            }
        },
    }
}


fn clone_opt(o: &Option<String>) -> (r: Option<String>)
    ensures
        r == *o,
{
    match o {
        Some(s) => Some(s.clone()),
        None => None,
    }
}

/// Copies of some strings.
pub fn clone_strings(v: &[String]) -> (r: Vec<String>)
    ensures
        r@ == v@,
{
    let mut r: Vec<String> = Vec::new();
    let mut i: usize = 0;
    while i < v.len()
        invariant
            i <= v@.len(),
            r@ =~= v@.take(i as int),
        decreases v@.len() - i,
    {
        r.push(v[i].clone());
        i += 1;
    }
    assert(v@.take(v@.len() as int) =~= v@);
    r
}

fn unknown_machine_message(machine: &str) -> (r: String)
    ensures
        r@ == "unknown machine `"@ + machine@ + "` ("@ + joined(machine_ids(), ", "@) + ")"@,
{
    let all = machines();
    let ghost mv = all@.map_values(|m: MachineGraphics| m@);
    let mut ids: Vec<&str> = Vec::new();
    let mut i: usize = 0;
    while i < all.len()
        invariant
            i <= all@.len(),
            mv == all@.map_values(|m: MachineGraphics| m@),
            mv == machines_view(),
            str_views(ids@) =~= machine_ids().take(i as int),
        decreases all@.len() - i,
    {
        let ghost before = ids@;
        ids.push(all[i].id);
        proof {
            assert(mv[i as int] == all@[i as int]@);
            assert(str_views(ids@) =~= str_views(before).push(all@[i as int].id@));
            assert(machine_ids().take(i + 1) =~= machine_ids().take(i as int).push(mv[i as int].id));
        }
        i += 1;
    }
    assert(machine_ids().take(all@.len() as int) =~= machine_ids());
    let mut m: Vec<char> = Vec::new();
    push_str(&mut m, "unknown machine `");
    push_str(&mut m, machine);
    push_str(&mut m, "` (");
    push_joined(&mut m, ids.as_slice(), ", ");
    push_str(&mut m, ")");
    string_of(m.as_slice())
}

fn unknown_mode_message(spec: &MachineGraphics, mode: &str) -> (r: String)
    ensures
        r@ == "unknown mode `"@ + mode@ + "` for "@ + spec@.id + " ("@ + joined(mode_names(spec@.modes), ", "@) + ")"@,
{
    let ghost modes = spec@.modes;
    let mut names: Vec<&str> = Vec::new();
    let mut i: usize = 0;
    while i < spec.modes.len()
        invariant
            i <= spec.modes@.len(),
            modes == spec.modes@.map_values(|m: ScreenMode| m@),
            str_views(names@) =~= mode_names(modes).take(i as int),
        decreases spec.modes@.len() - i,
    {
        let ghost before = names@;
        names.push(spec.modes[i].name);
        proof {
            assert(modes[i as int] == spec.modes@[i as int]@);
            assert(str_views(names@) =~= str_views(before).push(spec.modes@[i as int].name@));
            assert(mode_names(modes).take(i + 1) =~= mode_names(modes).take(i as int).push(modes[i as int].name));
        }
        i += 1;
    }
    assert(mode_names(modes).take(spec.modes@.len() as int) =~= mode_names(modes));
    let mut m: Vec<char> = Vec::new();
    push_str(&mut m, "unknown mode `");
    push_str(&mut m, mode);
    push_str(&mut m, "` for ");
    push_str(&mut m, spec.id);
    push_str(&mut m, " (");
    push_joined(&mut m, names.as_slice(), ", ");
    push_str(&mut m, ")");
    string_of(m.as_slice())
}

fn text(s: &str) -> (r: String)
    ensures
        r@ == s@,
{
    s.to_owned()
}

/// Validate scanned `image` arguments (see [`validate_scan`]).
pub fn validate_image_scan(scan: &ImageScan) -> (r: Result<ImageArgs, String>)
    requires
        scan.values@.len() == 11,
    ensures
        match validate_scan(scan@) {
            Ok(v) => r matches Ok(a) && a@ == v,
            Err(e) => r matches Err(x) && x@ == e,
        },
{
    proof {
        assert(scan@.values.len() == 11);
        assert forall|k: int| 0 <= k < 11 implies #[trigger] scan@.values[k] == opt_view(scan.values@[k]) by {}
    }
    if scan.inputs.len() == 0 {
        return Err(text("no input files given"));
    }
    let machine = match clone_opt(&scan.values[SLOT_MACHINE]) {
        None => {
            return Err(text("`--machine` is required"));
        },
        Some(m) => m,
    };
    let spec = match crate::mediaspec::machine(machine.as_str()) {
        None => {
            return Err(unknown_machine_message(machine.as_str()));
        },
        Some(sp) => sp,
    };
    let ft = match clone_opt(&scan.values[SLOT_FORMAT]) {
        None => {
            return Err(text("`--format` is required"));
        },
        Some(f) => f,
    };
    let format = match Format::parse(ft.as_str()) {
        None => {
            let mut m: Vec<char> = Vec::new();
            push_str(&mut m, "unknown format `");
            push_str(&mut m, ft.as_str());
            push_str(&mut m, "` (scr, koala, art-studio, ilbm)");
            return Err(string_of(m.as_slice()));
        },
        Some(f) => f,
    };
    if !str_eq(format.machine_id(), spec.id) {
        let mut m: Vec<char> = Vec::new();
        push_str(&mut m, "format `");
        push_str(&mut m, format.token());
        push_str(&mut m, "` targets machine `");
        push_str(&mut m, format.machine_id());
        push_str(&mut m, "`, not `");
        push_str(&mut m, spec.id);
        push_str(&mut m, "`");
        return Err(string_of(m.as_slice()));
    }
    let mode = match resolve_mode_arg(format, &scan.values[SLOT_MODE]) {
        Err(e) => {
            return Err(e);
        },
        Ok(m) => m,
    };
    let rule = match spec.mode(mode.as_str()) {
        None => {
            return Err(unknown_mode_message(&spec, mode.as_str()));
        },
        Some(md) => md.constraint,
    };
    match palette_check(&spec, &scan.values[SLOT_PALETTE]) {
        Some(e) => {
            return Err(e);
        },
        None => {},
    }
    let metric = match metric_arg(&scan.values[SLOT_METRIC]) {
        Err(e) => {
            return Err(e);
        },
        Ok(m) => m,
    };
    let strength0 = match strength_arg(&scan.values[SLOT_STRENGTH]) {
        Err(e) => {
            return Err(e);
        },
        Ok(v) => v,
    };
    let (dither, strength) = match dither_arg(&scan.values[SLOT_DITHER], rule, strength0) {
        Err(e) => {
            return Err(e);
        },
        Ok(d) => d,
    };
    let planar = match rule {
        ConstraintRule::Planar { .. } => true,
        _ => false,
    };
    if !dither.is_ordered() && !planar {
        let mut m: Vec<char> = Vec::new();
        push_str(&mut m, "--dither ");
        push_str(&mut m, dither_mode_token(dither));
        push_str(
            &mut m,
            " needs a free-palette (planar) target; cell-constrained formats take ordered4, ordered8, or none",
        );
        return Err(string_of(m.as_slice()));
    }
    let matte: [u8; 3] = match &scan.values[SLOT_MATTE] {
        None => [0, 0, 0],
        Some(t) => match parse_matte(t.as_str()) {
            Err(e) => {
                return Err(e);
            },
            Ok(m) => m,
        },
    };
    if scan.exhaustive_background && rule != ConstraintRule::C64Multicolour {
        return Err(text("--exhaustive-background applies to C64 multicolour (--format koala) only"));
    }
    if scan.inputs.len() > 1 {
        if scan.values[SLOT_OUTPUT].is_some() {
            return Err(
                text("`-o/--output` takes a single input (batch outputs default to <stem>.<ext> in the cwd)"),
            );
        }
        if scan.values[SLOT_PREVIEW].is_some() {
            return Err(text("`--preview` takes a single input"));
        }
    }
    Ok(
        ImageArgs {
            inputs: clone_strings(scan.inputs.as_slice()),
            machine,
            format,
            mode,
            palette: clone_opt(&scan.values[SLOT_PALETTE]),
            metric,
            dither,
            strength,
            matte,
            exhaustive_background: scan.exhaustive_background,
            output: clone_opt(&scan.values[SLOT_OUTPUT]),
            preview: clone_opt(&scan.values[SLOT_PREVIEW]),
            force: scan.force,
            report: clone_opt(&scan.values[SLOT_REPORT]),
        },
    )
}


/// Whether any argument asks for help.
pub open spec fn asks_help(args: Seq<Seq<char>>) -> bool {
    exists|i: int| 0 <= i < args.len() && (#[trigger] args[i] == "-h"@ || args[i] == "--help"@)
}

/// Whether some argument is `-h` or `--help`.
pub fn any_help(args: &[String]) -> (r: bool)
    ensures
        r == asks_help(string_views(args@)),
{
    let ghost av = string_views(args@);
    let mut i: usize = 0;
    while i < args.len()
        invariant
            av == string_views(args@),
            i <= args@.len(),
            forall|j: int| 0 <= j < i ==> !(#[trigger] av[j] == "-h"@ || av[j] == "--help"@),
        decreases args@.len() - i,
    {
        assert(av[i as int] == args@[i as int]@);
        if str_eq(args[i].as_str(), "-h") || str_eq(args[i].as_str(), "--help") {
            return true;
        }
        i += 1;
    }
    false
}

/// What the `image` arguments resolve to.
pub enum ImageParse {
    /// `-h`/`--help` was present.
    Help,
    /// A validated run.
    Run(Box<ImageArgs>),
}

/// What the `image` arguments give: help when any argument asks for it
/// (`None`), else the scanned and validated arguments, or the first error.
pub open spec fn image_parse(args: Seq<Seq<char>>) -> Result<Option<ImageArgsView>, Seq<char>> {
    if asks_help(args) {
        Ok(None)
    } else {
        match scan_from(args, 0, empty_scan()) {
            Err(e) => Err(e),
            Ok(s) => match validate_scan(s) {
                Err(e) => Err(e),
                Ok(v) => Ok(Some(v)),
            },
        }
    }
}

/// Parse and validate the `image` command's arguments.
pub fn parse_image_args(args: &[String]) -> (r: Result<ImageParse, String>)
    ensures
        match image_parse(string_views(args@)) {
            Ok(None) => r matches Ok(ImageParse::Help),
            Ok(Some(v)) => r matches Ok(ImageParse::Run(a)) && a@ == v,
            Err(e) => r matches Err(x) && x@ == e,
        },
{
    if any_help(args) {
        return Ok(ImageParse::Help);
    }
    let scan = match scan_image_args(args) {
        Err(e) => {
            return Err(e);
        },
        Ok(s) => s,
    };
    match validate_image_scan(&scan) {
        Err(e) => Err(e),
        Ok(a) => Ok(ImageParse::Run(Box::new(a))),
    }
}

} // verus!
