//! The conversion options, the per-target defaults, the pre-pass that
//! recognises input already on the target, and the bridges from a
//! conversion to the format codecs' inputs.
use vstd::prelude::*;

use vstd::arithmetic::power2::pow2;

use crate::convert::colour::Metric;
use crate::convert::constrain::{HiresChoice, MultiChoice, SpectrumChoice};
use crate::convert::dither::DitherMode;
use crate::convert::quantise::{gamut_fits, gamut_round, round_channel_to_gamut};
use crate::convert::{ConvertError, ConvertErrorView, Rgb8Image};
use crate::mediaspec::{
    first_mode, first_palette, spec_machine, ConstraintRule, MachineGraphics, MachineView,
    NamedPaletteView, PaletteModelView, Rgb, ScreenMode,
};
use crate::text::{str_eq, string_of};

verus! {

/// The dither a target gets when none is asked for: serpentine
/// Floyd-Steinberg for free-palette (planar) targets, 8x8 Bayer for
/// cell-constrained ones.
pub open spec fn default_dither_spec(rule: ConstraintRule) -> DitherMode {
    match rule {
        ConstraintRule::Planar { .. } => DitherMode::FloydSteinberg,
        _ => DitherMode::Bayer8,
    }
}

/// The per-target default dither.
pub fn default_dither(rule: ConstraintRule) -> (d: DitherMode)
    ensures
        d == default_dither_spec(rule),
{
    match rule {
        ConstraintRule::Planar { .. } => DitherMode::FloydSteinberg,
        _ => DitherMode::Bayer8,
    }
}

/// The default dither for a machine id and mode name: the target's
/// default when the spec has that mode, else 8x8 Bayer.
pub open spec fn target_default_dither(machine: Seq<char>, mode: Seq<char>) -> DitherMode {
    match spec_machine(machine) {
        Some(m) => match first_mode(m.modes, mode) {
            Some(i) => default_dither_spec(m.modes[i].constraint),
            None => DitherMode::Bayer8,
        },
        None => DitherMode::Bayer8,
    }
}

/// Conversion options. Build with [`Options::new`] and override fields as
/// needed.
#[derive(Debug, Clone)]
pub struct Options {
    /// Target machine id, e.g. `"commodore-c64"`.
    pub machine: String,
    /// Target screen-mode name, e.g. `"multicolour-bitmap"`.
    pub mode: String,
    /// Palette interpretation name; `None` uses the machine's pinned
    /// default. Must be `None` for gamut machines.
    pub interpretation: Option<String>,
    /// Colour-distance metric (default OKLab).
    pub metric: Metric,
    /// Dither algorithm (default: the target's, see [`default_dither`]).
    pub dither: DitherMode,
    /// Ordered-dither strength, 0..=64 (default 32). 0 means nearest
    /// colour.
    pub strength: u8,
    /// Matte colour (sRGB) composited under any alpha and used for
    /// letterbox padding. Default black.
    pub matte: [u8; 3],
    /// C64 multicolour only: try every palette entry as the global
    /// background instead of the histogram heuristic.
    pub exhaustive_background: bool,
    /// Disable dithering entirely.
    pub no_dither: bool,
}

impl Options {
    /// Defaults: pinned default palette, OKLab metric, the target's default
    /// dither at strength 32, black matte.
    pub fn new(machine: &str, mode: &str) -> (o: Options)
        ensures
            o.machine@ == machine@,
            o.mode@ == mode@,
            o.interpretation is None,
            o.metric == Metric::OkLab,
            o.dither == target_default_dither(machine@, mode@),
            o.strength == 32,
            o.matte[0] == 0 && o.matte[1] == 0 && o.matte[2] == 0,
            !o.exhaustive_background,
            !o.no_dither,
    {
        let dither = match crate::mediaspec::machine(machine) {
            Some(m) => match m.mode(mode) {
                Some(md) => default_dither(md.constraint),
                None => DitherMode::Bayer8,
            },
            None => DitherMode::Bayer8,
        };
        Options {
            machine: machine.to_owned(),
            mode: mode.to_owned(),
            interpretation: None,
            metric: Metric::OkLab,
            dither,
            strength: 32,
            matte: [0, 0, 0],
            exhaustive_background: false,
            no_dither: false,
        }
    }
}

/// Why options name no target, in the order a conversion checks them: a
/// dither strength above 64, a machine the specification lacks, a mode
/// the machine lacks.
pub open spec fn target_refusal(machine: Seq<char>, mode: Seq<char>, strength: u8) -> Option<ConvertErrorView> {
    if strength > 64 {
        Some(ConvertErrorView::InvalidStrength { strength })
    } else {
        match spec_machine(machine) {
            None => Some(ConvertErrorView::UnknownMachine { machine }),
            Some(m) => match first_mode(m.modes, mode) {
                None => Some(ConvertErrorView::UnknownMode { machine, mode }),
                Some(_) => None,
            },
        }
    }
}

/// The target the options name: the machine and the index of its mode (the
/// first of that name); else the first reason they name none.
pub fn select_target(opts: &Options) -> (r: Result<(MachineGraphics, usize), ConvertError>)
    ensures
        match target_refusal(opts.machine@, opts.mode@, opts.strength) {
            Some(e) => r matches Err(x) && x@ == e,
            None => r matches Ok((m, i)) && Some(m@) == spec_machine(opts.machine@) && first_mode(m@.modes, opts.mode@)
                == Some(i as int),
        },
{
    if opts.strength > 64 {
        return Err(ConvertError::InvalidStrength { strength: opts.strength });
    }
    let machine = match crate::mediaspec::machine(opts.machine.as_str()) {
        Some(m) => m,
        None => {
            return Err(ConvertError::UnknownMachine { machine: opts.machine.as_str().to_owned() });
        },
    };
    let ghost modes = machine@.modes;
    let mut i: usize = 0;
    while i < machine.modes.len()
        invariant
            i <= machine.modes@.len(),
            modes == machine.modes@.map_values(|m: ScreenMode| m@),
            modes == machine@.modes,
            spec_machine(opts.machine@) == Some(machine@),
            opts.strength <= 64,
            forall|j: int| 0 <= j < i ==> (#[trigger] modes[j]).name != opts.mode@,
        decreases machine.modes@.len() - i,
    {
        if str_eq(machine.modes[i].name, opts.mode.as_str()) {
            proof {
                crate::mediaspec::lemma_first_mode_scan(modes, opts.mode@, i as int);
            }
            return Ok((machine, i));
        }
        i += 1;
    }
    proof {
        crate::mediaspec::lemma_first_mode_scan(modes, opts.mode@, i as int);
    }
    Err(ConvertError::UnknownMode { machine: opts.machine.as_str().to_owned(), mode: opts.mode.as_str().to_owned() })
}

/// A cell-constrained target takes only an ordered dither, or none: error
/// diffusion is refused.
pub fn check_cell_dither(opts: &Options) -> (r: Result<(), ConvertError>)
    ensures
        (opts.dither == DitherMode::Bayer4 || opts.dither == DitherMode::Bayer8 || opts.no_dither) <==> r is Ok,
        r matches Err(e) ==> e@ == ConvertErrorView::DiffusionNeedsFreePalette,
{
    if !opts.dither.is_ordered() && !opts.no_dither {
        return Err(ConvertError::DiffusionNeedsFreePalette);
    }
    Ok(())
}

/// One cell's colour decision.
#[derive(Debug, Clone, Copy, PartialEq, Eq)]
pub enum CellChoice {
    /// ZX Spectrum INK/PAPER/BRIGHT.
    Spectrum(SpectrumChoice),
    /// C64 hires colour pair.
    Hires(HiresChoice),
    /// C64 multicolour background + free colours.
    Multi(MultiChoice),
}

/// The sorted, deduplicated two-colour allowed list.
pub open spec fn pair_allowed_spec(a: u8, b: u8) -> Seq<u8> {
    if a == b {
        seq![a]
    } else if a < b {
        seq![a, b]
    } else {
        seq![b, a]
    }
}

/// Sorted, deduplicated two-colour allowed list.
pub fn pair_allowed(a: u8, b: u8) -> (v: Vec<u8>)
    ensures
        v@ == pair_allowed_spec(a, b),
{
    if a == b {
        vec![a]
    } else if a < b {
        vec![a, b]
    } else {
        vec![b, a]
    }
}

/// Minimal plane count for a palette size, clamped to the mode's budget:
/// the least plane count from 1 whose `2^planes` entries hold the palette,
/// or the budget when none up to it does (and never below 1).
pub fn needed_planes(palette_len: usize, max_planes: u8) -> (planes: u8)
    requires
        palette_len <= isize::MAX,
    ensures
        1 <= planes,
        planes <= max_planes || planes == 1,
        planes < max_planes ==> pow2(planes as nat) >= palette_len,
        planes > 1 ==> pow2((planes - 1) as nat) < palette_len,
{
    let mut planes: u8 = 1;
    let mut cap: usize = 2;
    proof {
        vstd::arithmetic::power2::lemma2_to64();
    }
    while cap < palette_len && planes < max_planes
        invariant
            1 <= planes,
            planes <= max_planes || planes == 1,
            cap == pow2(planes as nat),
            planes > 1 ==> pow2((planes - 1) as nat) < palette_len,
            palette_len <= isize::MAX,
            pow2(1) == 2,
        decreases max_planes - planes,
    {
        proof {
            vstd::arithmetic::power2::lemma_pow2_unfold((planes + 1) as nat);
        }
        assert(cap * 2 <= usize::MAX) by {
            assert(cap < palette_len);
        }
        cap = cap * 2;
        planes += 1;
    }
    planes
}

/// The index of the first palette entry equal to `c`.
pub open spec fn first_match(palette: Seq<Rgb>, c: [u8; 3]) -> Option<int>
    decreases palette.len(),
{
    if palette.len() == 0 {
        None
    } else {
        match first_match(palette.drop_last(), c) {
            Some(i) => Some(i),
            None => if palette.last().r == c[0] && palette.last().g == c[1] && palette.last().b
                == c[2] {
                Some(palette.len() - 1)
            } else {
                None
            },
        }
    }
}

/// Every pixel's lowest exactly-equal palette index (when it fits a byte),
/// or `None` when some pixel has none.
pub open spec fn exact_indices_spec(pixels: Seq<[u8; 3]>, palette: Seq<Rgb>) -> Option<Seq<u8>> {
    if forall|k: int|
        0 <= k < pixels.len() ==> ((#[trigger] first_match(palette, pixels[k])) matches Some(i)
            && i < 256) {
        Some(
            Seq::new(
                pixels.len(),
                |k: int| match first_match(palette, pixels[k]) {
                    Some(i) => i as u8,
                    None => 0u8,
                },
            ),
        )
    } else {
        None
    }
}

proof fn lemma_first_match_range(palette: Seq<Rgb>, c: [u8; 3])
    ensures
        first_match(palette, c) matches Some(i) ==> 0 <= i < palette.len(),
    decreases palette.len(),
{
    if palette.len() > 0 {
        lemma_first_match_range(palette.drop_last(), c);
    }
}

fn position_of(palette: &[Rgb], c: [u8; 3]) -> (r: Option<usize>)
    ensures
        match r {
            Some(j) => first_match(palette@, c) == Some(j as int),
            None => first_match(palette@, c) is None,
        },
{
    proof {
        lemma_first_match_range(palette@, c);
    }
    let mut i: usize = 0;
    while i < palette.len()
        invariant
            i <= palette@.len(),
            first_match(palette@.take(i as int), c) is None,
        decreases palette@.len() - i,
    {
        let p = palette[i];
        assert(palette@.take(i + 1).drop_last() =~= palette@.take(i as int));
        if p.r == c[0] && p.g == c[1] && p.b == c[2] {
            proof {
                lemma_first_match_prefix(palette@, c, i + 1);
            }
            return Some(i);
        }
        i += 1;
    }
    assert(palette@.take(palette@.len() as int) =~= palette@);
    None
}

/// A match in a prefix is the match in the whole palette.
proof fn lemma_first_match_prefix(palette: Seq<Rgb>, c: [u8; 3], n: int)
    requires
        0 <= n <= palette.len(),
        first_match(palette.take(n), c) is Some,
    ensures
        first_match(palette, c) == first_match(palette.take(n), c),
    decreases palette.len() - n,
{
    if n < palette.len() {
        assert(palette.take(n + 1).drop_last() =~= palette.take(n));
        lemma_first_match_prefix(palette, c, n + 1);
    } else {
        assert(palette.take(n) =~= palette);
    }
}

/// Map every pixel to the lowest palette index with an exactly equal RGB,
/// or `None` if any pixel misses the palette.
pub fn exact_indices(img: &Rgb8Image, palette: &[Rgb]) -> (r: Option<Vec<u8>>)
    ensures
        match exact_indices_spec(img.pixels@, palette@) {
            Some(s) => r matches Some(v) && v@ == s,
            None => r is None,
        },
{
    let ghost px = img.pixels@;
    let mut out: Vec<u8> = Vec::new();
    let mut k: usize = 0;
    while k < img.pixels.len()
        invariant
            px == img.pixels@,
            k <= px.len(),
            out@.len() == k,
            forall|j: int|
                0 <= j < k ==> ((#[trigger] first_match(palette@, px[j])) matches Some(i) && i < 256
                    && out@[j] == i as u8),
        decreases px.len() - k,
    {
        let c = img.pixels[k];
        assert(c == px[k as int]);
        match position_of(palette, c) {
            Some(i) => {
                if i >= 256 {
                    assert(!(first_match(palette@, px[k as int]) matches Some(i) && i < 256));
                    return None;
                }
                let ghost before = out@;
                assert(first_match(palette@, px[k as int]) == Some(i as int));
                out.push(i as u8);
                assert(forall|j: int| 0 <= j < k ==> out@[j] == before[j]);
                assert(out@[k as int] == i as u8);
            },
            None => {
                assert(!(first_match(palette@, px[k as int]) matches Some(i) && i < 256));
                return None;
            },
        }
        k += 1;
    }
    assert(out@ =~= exact_indices_spec(px, palette@).unwrap());
    Some(out)
}

/// The colours of a fixed-palette machine's interpretation: the one named
/// in the options, else the machine's pinned default; or the error naming
/// what was asked for.
pub open spec fn resolve_palette_spec(m: MachineView, interpretation: Option<Seq<char>>) -> Result<
    Seq<Rgb>,
    ConvertErrorView,
> {
    let name = match interpretation {
        Some(n) => Some(n),
        None => m.default_interpretation,
    };
    match name {
        None => Err(
            ConvertErrorView::UnknownInterpretation {
                machine: m.id,
                name: match interpretation {
                    Some(n) => n,
                    None => seq![],
                },
            },
        ),
        Some(n) => match first_palette(m.palette, n) {
            Some(p) => Ok(p.colours),
            None => Err(ConvertErrorView::UnknownInterpretation { machine: m.id, name: n }),
        },
    }
}

/// Resolve a fixed-palette machine's interpretation (requested name or the
/// pinned default).
pub fn resolve_palette<'m>(machine: &'m MachineGraphics, opts: &Options) -> (r: Result<
    &'m [Rgb],
    ConvertError,
>)
    ensures
        match resolve_palette_spec(
            machine@,
            match opts.interpretation {
                Some(s) => Some(s@),
                None => None,
            },
        ) {
            Ok(c) => match r {
                Ok(v) => v@ == c,
                Err(_) => false,
            },
            Err(e) => match r {
                Err(x) => x@ == e,
                Ok(_) => false,
            },
        },
{
    let name: &str = match &opts.interpretation {
        Some(n) => n.as_str(),
        None => match machine.default_interpretation {
            Some(d) => d,
            None => {
                return Err(
                    ConvertError::UnknownInterpretation {
                        machine: machine.id.to_owned(),
                        name: String::new(),
                    },
                );
            },
        },
    };
    match machine.interpretation(name) {
        Some(p) => Ok(p.colours.as_slice()),
        None => Err(ConvertError::UnknownInterpretation { machine: machine.id.to_owned(), name: name.to_owned() }),
    }
}

// --- Pre-passes: is the input already on the target? --------------------------------

/// One pixel of the planar pre-pass: every channel must sit on the gamut
/// grid, and a colour not seen before must fit the budget.
pub open spec fn planar_step(st: (bool, Seq<[u8; 3]>), p: [u8; 3], bits: u8, budget: int) -> (
    bool,
    Seq<[u8; 3]>,
) {
    if !st.0 {
        st
    } else if gamut_round(p[0], bits) != p[0] || gamut_round(p[1], bits) != p[1] || gamut_round(
        p[2],
        bits,
    ) != p[2] {
        (false, st.1)
    } else if st.1.contains(p) {
        st
    } else if st.1.len() >= budget {
        (false, st.1)
    } else {
        (true, st.1.push(p))
    }
}

/// The planar pre-pass over the first `n` pixels: whether it still holds,
/// and the distinct colours seen.
pub open spec fn planar_scan(pixels: Seq<[u8; 3]>, bits: u8, budget: int, n: nat) -> (
    bool,
    Seq<[u8; 3]>,
)
    decreases n,
{
    if n == 0 {
        (true, seq![])
    } else {
        planar_step(planar_scan(pixels, bits, budget, (n - 1) as nat), pixels[n - 1], bits, budget)
    }
}

fn contains_colour(d: &Vec<[u8; 3]>, p: [u8; 3]) -> (r: bool)
    ensures
        r == d@.contains(p),
{
    let mut i: usize = 0;
    while i < d.len()
        invariant
            i <= d@.len(),
            forall|j: int| 0 <= j < i ==> d@[j] != p,
        decreases d@.len() - i,
    {
        let q = d[i];
        if q[0] == p[0] && q[1] == p[1] && q[2] == p[2] {
            assert(q =~= p);
            return true;
        }
        assert(q != p);
        i += 1;
    }
    false
}

/// Pre-pass for planar targets: dimensions match the paper, every channel
/// sits on the gamut grid, and the distinct colours fit the budget.
pub fn planar_input_already_constrained(
    normalised: &Rgb8Image,
    mode: &ScreenMode,
    bits_per_gun: u8,
    budget: usize,
) -> (r: bool)
    requires
        forall|v: u8| gamut_fits(v, bits_per_gun),
    ensures
        r == (normalised.width == mode.paper_width && normalised.height == mode.paper_height
            && planar_scan(normalised.pixels@, bits_per_gun, budget as int, normalised.pixels@.len()).0),
{
    if normalised.width != mode.paper_width as u32 || normalised.height != mode.paper_height as u32 {
        return false;
    }
    let ghost px = normalised.pixels@;
    let mut distinct: Vec<[u8; 3]> = Vec::new();
    let mut i: usize = 0;
    while i < normalised.pixels.len()
        invariant
            px == normalised.pixels@,
            i <= px.len(),
            forall|v: u8| gamut_fits(v, bits_per_gun),
            planar_scan(px, bits_per_gun, budget as int, i as nat) == (true, distinct@),
        decreases px.len() - i,
    {
        let p = normalised.pixels[i];
        assert(gamut_fits(p[0], bits_per_gun));
        assert(gamut_fits(p[1], bits_per_gun));
        assert(gamut_fits(p[2], bits_per_gun));
        if round_channel_to_gamut(p[0], bits_per_gun) != p[0] || round_channel_to_gamut(
            p[1],
            bits_per_gun,
        ) != p[1] || round_channel_to_gamut(p[2], bits_per_gun) != p[2] {
            proof {
                lemma_planar_scan_stops(px, bits_per_gun, budget as int, (i + 1) as nat, px.len());
            }
            return false;
        }
        if !contains_colour(&distinct, p) {
            if distinct.len() >= budget {
                proof {
                    lemma_planar_scan_stops(px, bits_per_gun, budget as int, (i + 1) as nat, px.len());
                }
                return false;
            }
            distinct.push(p);
        }
        i += 1;
    }
    true
}

proof fn lemma_planar_scan_stops(pixels: Seq<[u8; 3]>, bits: u8, budget: int, i: nat, n: nat)
    requires
        i <= n,
        !planar_scan(pixels, bits, budget, i).0,
    ensures
        !planar_scan(pixels, bits, budget, n).0,
    decreases n,
{
    if i < n {
        lemma_planar_scan_stops(pixels, bits, budget, i, (n - 1) as nat);
    }
}

/// The values in order of first appearance, each once.
pub open spec fn distinct_of(s: Seq<u8>) -> Seq<u8>
    decreases s.len(),
{
    if s.len() == 0 {
        seq![]
    } else {
        let d = distinct_of(s.drop_last());
        if d.contains(s.last()) {
            d
        } else {
            d.push(s.last())
        }
    }
}

/// The first `rows` rows of cell `(cx, cy)` of a row-major index image of
/// the given width, row after row.
pub open spec fn cell_rows(ix: Seq<u8>, width: int, cx: int, cy: int, cw: int, ch: int, rows: nat) -> Seq<u8>
    decreases rows,
{
    if rows == 0 {
        seq![]
    } else {
        let base = (cy * ch + rows - 1) * width + cx * cw;
        cell_rows(ix, width, cx, cy, cw, ch, (rows - 1) as nat) + ix.subrange(base, base + cw)
    }
}

/// Whether one cell's distinct colours satisfy the mode's rule: the
/// Spectrum allows two from one brightness half (black counts as bright),
/// the C64 hires two, the C64 multicolour four.
pub open spec fn rule_ok(rule: ConstraintRule, d: Seq<u8>) -> bool {
    match rule {
        ConstraintRule::SpectrumAttr => d.len() <= 2 && ((forall|i: int| 0 <= i < d.len() ==> d[i]
            <= 7) || (forall|i: int| 0 <= i < d.len() ==> d[i] == 0 || (9 <= d[i] && d[i] <= 15))),
        ConstraintRule::C64Hires => d.len() <= 2,
        ConstraintRule::C64Multicolour => d.len() <= 4,
        ConstraintRule::Planar { .. } => false,
    }
}

/// The cell pre-pass so far: whether every cell kept the rule, and the
/// colour sets of the cells that use four colours.
pub struct CellScan {
    pub ok: bool,
    pub four: Seq<Seq<u8>>,
}

pub open spec fn cell_step(rule: ConstraintRule, st: CellScan, d: Seq<u8>) -> CellScan {
    if !st.ok {
        st
    } else if !rule_ok(rule, d) {
        CellScan { ok: false, four: st.four }
    } else if rule == ConstraintRule::C64Multicolour && d.len() == 4 {
        CellScan { ok: true, four: st.four.push(d) }
    } else {
        st
    }
}

/// The cell pre-pass over the rows of cells before `cy` and the first `n`
/// cells of row `cy`, row-major.
pub open spec fn cells_scan(
    ix: Seq<u8>,
    width: int,
    cw: int,
    ch: int,
    cells_x: nat,
    rule: ConstraintRule,
    cy: nat,
    n: nat,
) -> CellScan
    decreases cy, n,
{
    if n == 0 {
        if cy == 0 {
            CellScan { ok: true, four: seq![] }
        } else {
            cells_scan(ix, width, cw, ch, cells_x, rule, (cy - 1) as nat, cells_x)
        }
    } else {
        cell_step(
            rule,
            cells_scan(ix, width, cw, ch, cells_x, rule, cy, (n - 1) as nat),
            distinct_of(cell_rows(ix, width, n - 1, cy as int, cw, ch, ch as nat)),
        )
    }
}

/// Whether the cells that use four colours share one that can be the
/// global background (trivially so when there are none).
pub open spec fn shared_background(four: Seq<Seq<u8>>) -> bool {
    four.len() == 0 || exists|j: int| 0 <= j < four[0].len() && #[trigger] all_contain(four, four[0][j])
}

/// Every set holds `c`.
pub open spec fn all_contain(four: Seq<Seq<u8>>, c: u8) -> bool {
    forall|k: int| 0 <= k < four.len() ==> #[trigger] four[k].contains(c)
}

/// The cell pre-pass: the input already has the paper's dimensions, every
/// pixel is exactly a palette colour, every cell keeps the mode's rule, and
/// (multicolour) the four-colour cells share a background.
pub open spec fn cell_prepass_spec(
    img: Rgb8Image,
    mode: ScreenMode,
    palette: Seq<Rgb>,
    cw: int,
    ch: int,
) -> bool {
    &&& img.width == mode.paper_width
    &&& img.height == mode.paper_height
    &&& match exact_indices_spec(img.pixels@, palette) {
        None => false,
        Some(ix) => {
            let st = cells_scan(
                ix,
                img.width as int,
                cw,
                ch,
                (img.width as int / cw) as nat,
                mode.constraint,
                (img.height as int / ch) as nat,
                0,
            );
            st.ok && shared_background(st.four)
        },
    }
}

fn push_distinct(d: &mut Vec<u8>, v: u8)
    ensures
        final(d)@ == (if old(d)@.contains(v) {
            old(d)@
        } else {
            old(d)@.push(v)
        }),
{
    let mut i: usize = 0;
    while i < d.len()
        invariant
            i <= d@.len(),
            d@ == old(d)@,
            forall|j: int| 0 <= j < i ==> d@[j] != v,
        decreases d@.len() - i,
    {
        if d[i] == v {
            return;
        }
        i += 1;
    }
    d.push(v);
}

/// The index-image bounds of a cell's row.
proof fn lemma_cell_row_bounds(width: int, height: int, cw: int, ch: int, cx: int, cy: int, row: int)
    requires
        cw > 0,
        ch > 0,
        width >= 0,
        height >= 0,
        0 <= cx < width / cw,
        0 <= cy < height / ch,
        0 <= row < ch,
    ensures
        0 <= (cy * ch + row) * width + cx * cw,
        (cy * ch + row) * width + cx * cw + cw <= width * height,
        cy * ch + row < height,
        (cy * ch + row) * width <= width * height,
        cx * cw + cw <= width,
{
    assert(cy * ch + row < height) by (nonlinear_arith)
        requires
            0 <= cy < height / ch,
            0 <= row < ch,
            ch > 0,
    ;
    assert(cx * cw + cw <= width) by (nonlinear_arith)
        requires
            0 <= cx < width / cw,
            cw > 0,
    ;
    assert((cy * ch + row) * width + width <= height * width) by (nonlinear_arith)
        requires
            cy * ch + row < height,
            0 <= cy * ch + row,
            width >= 0,
    ;
    assert(0 <= (cy * ch + row) * width + cx * cw) by (nonlinear_arith)
        requires
            0 <= cy,
            0 <= row,
            0 <= cx,
            ch > 0,
            cw > 0,
            width >= 0,
    ;
    assert(width * height == height * width) by (nonlinear_arith);
}

/// The distinct colours of cell `(cx, cy)`.
fn cell_distinct(ix: &Vec<u8>, width: usize, height: usize, cx: usize, cy: usize, cw: usize, ch: usize) -> (d: Vec<u8>)
    requires
        cw > 0,
        ch > 0,
        cx < width / cw,
        cy < height / ch,
        ix@.len() == width * height,
        width * height <= usize::MAX,
    ensures
        d@ == distinct_of(cell_rows(ix@, width as int, cx as int, cy as int, cw as int, ch as int, ch as nat)),
{
    let mut d: Vec<u8> = Vec::new();
    let mut row: usize = 0;
    while row < ch
        invariant
            cw > 0,
            ch > 0,
            cx < width / cw,
            cy < height / ch,
            ix@.len() == width * height,
            width * height <= usize::MAX,
            row <= ch,
            d@ == distinct_of(cell_rows(ix@, width as int, cx as int, cy as int, cw as int, ch as int, row as nat)),
        decreases ch - row,
    {
        proof {
            lemma_cell_row_bounds(width as int, height as int, cw as int, ch as int, cx as int, cy as int, row as int);
        }
        let base = (cy * ch + row) * width + cx * cw;
        let ghost prefix = cell_rows(ix@, width as int, cx as int, cy as int, cw as int, ch as int, row as nat);
        let mut col: usize = 0;
        while col < cw
            invariant
                base + cw <= ix@.len(),
                ix@.len() <= usize::MAX,
                col <= cw,
                d@ == distinct_of(prefix + ix@.subrange(base as int, base + col)),
            decreases cw - col,
        {
            assert((prefix + ix@.subrange(base as int, base + col + 1)).drop_last() =~= prefix + ix@.subrange(base as int, base + col));
            push_distinct(&mut d, ix[base + col]);
            col += 1;
        }
        assert(cell_rows(ix@, width as int, cx as int, cy as int, cw as int, ch as int, (row + 1) as nat) == prefix + ix@.subrange(base as int, base + cw));
        row += 1;
    }
    d
}

fn rule_holds(rule: ConstraintRule, d: &Vec<u8>) -> (r: bool)
    ensures
        r == rule_ok(rule, d@),
{
    match rule {
        ConstraintRule::SpectrumAttr => {
            if d.len() > 2 {
                return false;
            }
            let mut normal = true;
            let mut bright = true;
            let mut i: usize = 0;
            while i < d.len()
                invariant
                    i <= d@.len(),
                    normal == (forall|j: int| 0 <= j < i ==> d@[j] <= 7),
                    bright == (forall|j: int| 0 <= j < i ==> d@[j] == 0 || (9 <= d@[j] && d@[j] <= 15)),
                decreases d@.len() - i,
            {
                let c = d[i];
                normal = normal && c <= 7;
                bright = bright && (c == 0 || (9 <= c && c <= 15));
                i += 1;
            }
            normal || bright
        },
        ConstraintRule::C64Hires => d.len() <= 2,
        ConstraintRule::C64Multicolour => d.len() <= 4,
        ConstraintRule::Planar { .. } => false,
    }
}

fn contains_u8(v: &Vec<u8>, c: u8) -> (r: bool)
    ensures
        r == v@.contains(c),
{
    let mut i: usize = 0;
    while i < v.len()
        invariant
            i <= v@.len(),
            forall|j: int| 0 <= j < i ==> v@[j] != c,
        decreases v@.len() - i,
    {
        if v[i] == c {
            return true;
        }
        i += 1;
    }
    false
}

fn shares_background(four: &Vec<Vec<u8>>) -> (r: bool)
    ensures
        r == shared_background(four@.map_values(|v: Vec<u8>| v@)),
{
    let ghost fv = four@.map_values(|v: Vec<u8>| v@);
    if four.len() == 0 {
        return true;
    }
    let first = &four[0];
    assert(fv[0] == first@);
    let mut j: usize = 0;
    while j < first.len()
        invariant
            fv == four@.map_values(|v: Vec<u8>| v@),
            fv.len() == four@.len(),
            fv.len() > 0,
            fv[0] == first@,
            j <= first@.len(),
            forall|jj: int| 0 <= jj < j ==> !#[trigger] all_contain(fv, fv[0][jj]),
        decreases first@.len() - j,
    {
        let c = first[j];
        assert(c == fv[0][j as int]);
        let mut all = true;
        let mut k: usize = 0;
        while k < four.len()
            invariant
                fv == four@.map_values(|v: Vec<u8>| v@),
                fv.len() == four@.len(),
                k <= fv.len(),
                all == (forall|kk: int| 0 <= kk < k ==> #[trigger] fv[kk].contains(c)),
            decreases fv.len() - k,
        {
            let found = contains_u8(&four[k], c);
            assert(fv[k as int] == four@[k as int]@);
            all = all && found;
            k += 1;
        }
        if all {
            assert(all_contain(fv, fv[0][j as int]));
            return true;
        }
        assert(!all_contain(fv, fv[0][j as int]));
        j += 1;
    }
    false
}

/// Pre-pass: is the (un-resized) input already exactly on a cell-mode
/// target? Dimensions must match the paper; every pixel must sit exactly on
/// a palette colour (the lowest matching index, so the Spectrum's two
/// blacks read as one); every cell's distinct colours must satisfy the rule;
/// and the multicolour cells with four colours must share one.
pub fn cell_input_already_constrained(
    normalised: &Rgb8Image,
    mode: &ScreenMode,
    palette: &[Rgb],
    cell_w: usize,
    cell_h: usize,
) -> (r: bool)
    requires
        cell_w > 0,
        cell_h > 0,
        normalised.pixels@.len() == normalised.width * normalised.height,
    ensures
        r == cell_prepass_spec(*normalised, *mode, palette@, cell_w as int, cell_h as int),
{
    if normalised.width != mode.paper_width as u32 || normalised.height != mode.paper_height as u32 {
        return false;
    }
    let indices = match exact_indices(normalised, palette) {
        Some(v) => v,
        None => return false,
    };
    let width = normalised.width as usize;
    let height = normalised.height as usize;
    assert(width * height <= 0xffff * 0xffff) by (nonlinear_arith)
        requires
            width <= 0xffff,
            height <= 0xffff,
    ;
    let cells_x = width / cell_w;
    let cells_y = height / cell_h;
    let ghost ix = indices@;
    let ghost rule = mode.constraint;
    let mut four: Vec<Vec<u8>> = Vec::new();
    let mut cy: usize = 0;
    assert(four@.map_values(|v: Vec<u8>| v@) =~= Seq::<Seq<u8>>::empty());
    while cy < cells_y
        invariant
            cell_w > 0,
            cell_h > 0,
            ix == indices@,
            ix.len() == width * height,
            width * height <= 0xffff * 0xffff,
            cells_x == width / cell_w,
            cells_y == height / cell_h,
            cy <= cells_y,
            rule == mode.constraint,
            exact_indices_spec(normalised.pixels@, palette@) == Some(ix),
            width == normalised.width,
            height == normalised.height,
            normalised.width == mode.paper_width,
            normalised.height == mode.paper_height,
            cells_scan(ix, width as int, cell_w as int, cell_h as int, cells_x as nat, rule, cy as nat, 0)
                == (CellScan { ok: true, four: four@.map_values(|v: Vec<u8>| v@) }),
        decreases cells_y - cy,
    {
        let mut cx: usize = 0;
        while cx < cells_x
            invariant
                cell_w > 0,
                cell_h > 0,
                ix == indices@,
                ix.len() == width * height,
                width * height <= 0xffff * 0xffff,
                cells_x == width / cell_w,
                cells_y == height / cell_h,
                cy < cells_y,
                cx <= cells_x,
                rule == mode.constraint,
                exact_indices_spec(normalised.pixels@, palette@) == Some(ix),
                width == normalised.width,
                height == normalised.height,
                normalised.width == mode.paper_width,
                normalised.height == mode.paper_height,
                cells_scan(ix, width as int, cell_w as int, cell_h as int, cells_x as nat, rule, cy as nat, cx as nat)
                    == (CellScan { ok: true, four: four@.map_values(|v: Vec<u8>| v@) }),
            decreases cells_x - cx,
        {
            let d = cell_distinct(&indices, width, height, cx, cy, cell_w, cell_h);
            if !rule_holds(mode.constraint, &d) {
                assert(!cells_scan(ix, width as int, cell_w as int, cell_h as int, cells_x as nat, rule, cy as nat, (cx + 1) as nat).ok);
                proof {
                    lemma_cells_scan_stops(ix, width as int, cell_w as int, cell_h as int, cells_x as nat, rule, cy as nat, (cx + 1) as nat, cells_y as nat);
                    assert(exact_indices_spec(normalised.pixels@, palette@) == Some(ix));
                    assert(cells_x as nat == (normalised.width as int / cell_w as int) as nat);
                    assert(cells_y as nat == (normalised.height as int / cell_h as int) as nat);
                }
                return false;
            }
            if mode.constraint == ConstraintRule::C64Multicolour && d.len() == 4 {
                let ghost before = four@;
                four.push(d);
                assert(four@.map_values(|v: Vec<u8>| v@) =~= before.map_values(|v: Vec<u8>| v@).push(four@.last()@));
            }
            cx += 1;
        }
        cy += 1;
    }
    shares_background(&four)
}

/// Once a cell breaks the rule, the pre-pass stays failed.
proof fn lemma_cells_scan_stops(
    ix: Seq<u8>,
    width: int,
    cw: int,
    ch: int,
    cells_x: nat,
    rule: ConstraintRule,
    cy: nat,
    n: nat,
    cells_y: nat,
)
    requires
        cy < cells_y,
        n <= cells_x,
        !cells_scan(ix, width, cw, ch, cells_x, rule, cy, n).ok,
    ensures
        !cells_scan(ix, width, cw, ch, cells_x, rule, cells_y, 0).ok,
    decreases cells_y - cy, cells_x - n,
{
    if n < cells_x {
        lemma_cells_scan_stops(ix, width, cw, ch, cells_x, rule, cy, n + 1, cells_y);
    } else if cy + 1 < cells_y {
        assert(cells_scan(ix, width, cw, ch, cells_x, rule, (cy + 1) as nat, 0) == cells_scan(ix, width, cw, ch, cells_x, rule, cy, cells_x));
        lemma_cells_scan_stops(ix, width, cw, ch, cells_x, rule, (cy + 1) as nat, 0, cells_y);
    } else {
        assert(cells_scan(ix, width, cw, ch, cells_x, rule, cells_y, 0) == cells_scan(ix, width, cw, ch, cells_x, rule, cy, cells_x));
    }
}

/// The result of a conversion: indexed pixels against `palette`, per-cell
/// choices, and what the format bridges need. (The quality report, which
/// is floating point, is kept beside it by the caller.)
#[derive(Debug, Clone)]
pub struct Conversion {
    /// The machine converted for.
    pub machine_id: String,
    /// The screen mode converted for.
    pub mode_name: String,
    /// Output width in mode pixels (the mode's paper width).
    pub width: u32,
    /// Output height in mode pixels.
    pub height: u32,
    /// Row-major palette indices, `width * height` entries.
    pub pixels: Vec<u8>,
    /// The resolved palette the indices refer to.
    pub palette: Vec<Rgb>,
    /// Per-cell choices, row-major cell order. Empty for planar modes.
    pub cells: Vec<CellChoice>,
    /// The global background palette index (C64 multicolour only).
    pub background: Option<u8>,
    /// Bitplane count for planar targets (`None` for cell modes).
    pub n_planes: Option<u8>,
}

} // verus!
