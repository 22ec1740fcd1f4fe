//! Declarative graphics-capability specifications for the 198x family
//! machines: screen modes (paper geometry, pixel aspect, cell grids, bitplane
//! counts), the per-cell constraint rules a converter must satisfy, and the
//! palette model (fixed named interpretations, or a parametric gamut).
//!
//! Palette interpretation names are content-versioned and frozen: a published
//! name never changes its values; a corrected table gets a new name.
//!
//! Each type has a mathematical view (`@`); [`machines_view`] is the whole
//! specification as a value, and the lookups are stated over it.
use vstd::prelude::*;

use crate::text::str_eq;

pub mod commodore_amiga_ocs;
pub mod consistency;
pub mod commodore_c64;
pub mod sinclair_zx_spectrum;

verus! {

/// An 8-bit-per-channel RGB triple.
#[derive(Clone, Copy, PartialEq, Eq, Debug, Structural)]
pub struct Rgb {
    pub r: u8,
    pub g: u8,
    pub b: u8,
}

/// Build an [`Rgb`].
pub fn rgb(r: u8, g: u8, b: u8) -> (c: Rgb)
    ensures
        c == (Rgb { r, g, b }),
{
    Rgb { r, g, b }
}

/// A small integer ratio (used for pixel aspect). Components are nonzero.
#[derive(Clone, Copy, PartialEq, Eq, Debug, Structural)]
pub struct Ratio {
    pub horizontal: u8,
    pub vertical: u8,
}

impl Ratio {
    /// Build a ratio.
    pub fn new(horizontal: u8, vertical: u8) -> (r: Ratio)
        ensures
            r == (Ratio { horizontal, vertical }),
    {
        Ratio { horizontal, vertical }
    }

    /// The machine-relative square pixel.
    pub fn square() -> (r: Ratio)
        ensures
            r == (Ratio { horizontal: 1, vertical: 1 }),
    {
        Ratio { horizontal: 1, vertical: 1 }
    }
}

/// The attribute cell grid of a cell-constrained mode.
#[derive(Clone, Copy, PartialEq, Eq, Debug, Structural)]
pub struct CellGrid {
    /// Cell width in mode pixels.
    pub width: u8,
    /// Cell height in mode pixels.
    pub height: u8,
    /// Colours freely choosable per cell (globals such as the C64
    /// multicolour shared background are not counted here).
    pub free_colours: u8,
}

/// The colour-constraint rule a converter must interpret for a mode.
#[derive(Clone, Copy, PartialEq, Eq, Debug, Structural)]
pub enum ConstraintRule {
    /// ZX Spectrum attribute rule: per 8x8 cell, one INK and one PAPER
    /// colour, both from the brightness half the cell's BRIGHT bit selects.
    SpectrumAttr,
    /// C64 standard bitmap rule: per 8x8 cell, two freely chosen colours.
    C64Hires,
    /// C64 multicolour bitmap rule: per 4x8 cell, three free colours plus
    /// one global background shared by every cell.
    C64Multicolour,
    /// Planar bitplane rule: up to `max_planes` bitplanes give a per-screen
    /// indexed palette of `2^planes` entries.
    Planar {
        /// Maximum bitplane count the mode supports.
        max_planes: u8,
    },
}

/// Border geometry around the paper, in mode pixels.
#[derive(Clone, Copy, PartialEq, Eq, Debug, Structural)]
pub struct BorderGeometry {
    pub left: u16,
    pub right: u16,
    pub top: u16,
    pub bottom: u16,
}

/// One screen mode: the geometry and constraint shape a converter targets.
#[derive(Debug)]
pub struct ScreenMode {
    /// Mode name, unique within the machine, e.g. `"multicolour-bitmap"`.
    pub name: &'static str,
    /// Paper (active bitmap area) width in mode pixels.
    pub paper_width: u16,
    /// Paper height in mode pixels.
    pub paper_height: u16,
    /// Pixel aspect ratio, width : height of one mode pixel relative to the
    /// machine's single-width pixel.
    pub pixel_aspect: Ratio,
    /// The attribute cell grid, where the mode has one.
    pub cell: Option<CellGrid>,
    /// The constraint rule the converter must satisfy for this mode.
    pub constraint: ConstraintRule,
    /// Border geometry around the paper, where documented.
    pub border: Option<BorderGeometry>,
}

/// The mathematical value of a [`ScreenMode`].
pub struct ScreenModeView {
    pub name: Seq<char>,
    pub paper_width: u16,
    pub paper_height: u16,
    pub pixel_aspect: Ratio,
    pub cell: Option<CellGrid>,
    pub constraint: ConstraintRule,
    pub border: Option<BorderGeometry>,
}

impl View for ScreenMode {
    type V = ScreenModeView;

    open spec fn view(&self) -> ScreenModeView {
        ScreenModeView {
            name: self.name@,
            paper_width: self.paper_width,
            paper_height: self.paper_height,
            pixel_aspect: self.pixel_aspect,
            cell: self.cell,
            constraint: self.constraint,
            border: self.border,
        }
    }
}

/// The bitplane count of a planar mode.
pub open spec fn spec_planes(rule: ConstraintRule) -> Option<u8> {
    match rule {
        ConstraintRule::Planar { max_planes } => Some(max_planes),
        _ => None,
    }
}

impl ScreenMode {
    /// Bitplane count for planar modes (the maximum the mode supports);
    /// `None` for cell/attribute modes.
    pub fn planes(&self) -> (r: Option<u8>)
        ensures
            r == spec_planes(self.constraint),
    {
        match self.constraint {
            ConstraintRule::Planar { max_planes } => Some(max_planes),
            _ => None,
        }
    }
}

/// One content-versioned RGB interpretation of a fixed hardware palette.
#[derive(Debug)]
pub struct NamedPalette {
    /// Content-versioned name, e.g. `"emu198x-v1"`.
    pub name: &'static str,
    /// Provenance: the file these values were transcribed from.
    pub source: &'static str,
    /// RGB triple per hardware colour index, in hardware index order.
    pub colours: Vec<Rgb>,
}

/// The mathematical value of a [`NamedPalette`].
pub struct NamedPaletteView {
    pub name: Seq<char>,
    pub source: Seq<char>,
    pub colours: Seq<Rgb>,
}

impl View for NamedPalette {
    type V = NamedPaletteView;

    open spec fn view(&self) -> NamedPaletteView {
        NamedPaletteView { name: self.name@, source: self.source@, colours: self.colours@ }
    }
}

/// How colour works on a machine.
#[derive(Debug)]
pub enum PaletteModel {
    /// A fixed hardware palette with named, frozen RGB interpretations.
    Fixed(Vec<NamedPalette>),
    /// A parametric gamut: programmable colour registers with
    /// `bits_per_gun` bits per RGB channel.
    Gamut {
        /// Bits per RGB gun, e.g. 4 on Amiga OCS (4096-colour gamut).
        bits_per_gun: u8,
    },
}

/// The mathematical value of a [`PaletteModel`].
pub enum PaletteModelView {
    Fixed(Seq<NamedPaletteView>),
    Gamut { bits_per_gun: u8 },
}

impl View for PaletteModel {
    type V = PaletteModelView;

    open spec fn view(&self) -> PaletteModelView {
        match self {
            PaletteModel::Fixed(ps) => PaletteModelView::Fixed(
                ps@.map_values(|p: NamedPalette| p@),
            ),
            PaletteModel::Gamut { bits_per_gun } => PaletteModelView::Gamut {
                bits_per_gun: *bits_per_gun,
            },
        }
    }
}

/// `2^e`.
pub open spec fn pow2(e: nat) -> nat
    decreases e,
{
    if e == 0 {
        1
    } else {
        2 * pow2((e - 1) as nat)
    }
}

impl PaletteModel {
    /// Total colours the gamut can express: `2^(3 * bits_per_gun)`; `None`
    /// for fixed palettes.
    pub fn gamut_size(&self) -> (r: Option<u32>)
        requires
            self matches PaletteModel::Gamut { bits_per_gun } ==> bits_per_gun <= 10,
        ensures
            match self@ {
                PaletteModelView::Fixed(_) => r is None,
                PaletteModelView::Gamut { bits_per_gun } => r == Some(
                    pow2(3 * bits_per_gun as nat) as u32,
                ),
            },
    {
        match self {
            PaletteModel::Fixed(_) => None,
            PaletteModel::Gamut { bits_per_gun } => {
                let e: u32 = 3 * (*bits_per_gun as u32);
                proof {
                    reveal_with_fuel(pow2, 31);
                    assert(pow2(30) == 0x4000_0000);
                }
                let mut v: u32 = 1;
                let mut i: u32 = 0;
                while i < e
                    invariant
                        i <= e <= 30,
                        v as nat == pow2(i as nat),
                        pow2(30) == 0x4000_0000,
                    decreases e - i,
                {
                    proof {
                        lemma_pow2_bound(i as nat, 30);
                        lemma_pow2_mono(i as nat + 1, 30);
                    }
                    v = v * 2;
                    i += 1;
                }
                Some(v)
            }
        }
    }
}

pub proof fn lemma_pow2_bound(i: nat, n: nat)
    requires
        i < n,
    ensures
        pow2(i) * 2 <= pow2(n),
    decreases n,
{
    if i + 1 < n {
        lemma_pow2_bound(i, (n - 1) as nat);
    } else {
        assert(i + 1 == n);
    }
}

pub proof fn lemma_pow2_mono(i: nat, n: nat)
    requires
        i <= n,
    ensures
        pow2(i) <= pow2(n),
    decreases n,
{
    if i < n {
        lemma_pow2_mono(i, (n - 1) as nat);
    }
}

/// The complete graphics description of one machine.
#[derive(Debug)]
pub struct MachineGraphics {
    /// Stable machine id, kebab-case `manufacturer-system`.
    pub id: &'static str,
    /// Human display name.
    pub name: &'static str,
    /// Every screen mode this spec models for the machine.
    pub modes: Vec<ScreenMode>,
    /// How colour works on this machine.
    pub palette: PaletteModel,
    /// The pinned default interpretation name for fixed-palette machines;
    /// `None` for gamut machines.
    pub default_interpretation: Option<&'static str>,
    /// Hardware features that exist but are deliberately not modelled.
    pub notes: &'static str,
}

/// The mathematical value of a [`MachineGraphics`].
pub struct MachineView {
    pub id: Seq<char>,
    pub name: Seq<char>,
    pub modes: Seq<ScreenModeView>,
    pub palette: PaletteModelView,
    pub default_interpretation: Option<Seq<char>>,
    pub notes: Seq<char>,
}

impl View for MachineGraphics {
    type V = MachineView;

    open spec fn view(&self) -> MachineView {
        MachineView {
            id: self.id@,
            name: self.name@,
            modes: self.modes@.map_values(|m: ScreenMode| m@),
            palette: self.palette@,
            default_interpretation: match self.default_interpretation {
                Some(s) => Some(s@),
                None => None,
            },
            notes: self.notes@,
        }
    }
}

/// The index of the first mode named `name`, if any.
pub open spec fn first_mode(modes: Seq<ScreenModeView>, name: Seq<char>) -> Option<int>
    decreases modes.len(),
{
    if modes.len() == 0 {
        None
    } else if modes.last().name == name {
        match first_mode(modes.drop_last(), name) {
            Some(i) => Some(i),
            None => Some(modes.len() - 1),
        }
    } else {
        first_mode(modes.drop_last(), name)
    }
}

/// The first named interpretation called `name`; always `None` for gamut
/// palettes.
pub open spec fn first_palette(palette: PaletteModelView, name: Seq<char>) -> Option<
    NamedPaletteView,
> {
    match palette {
        PaletteModelView::Fixed(ps) => match first_named(ps, name) {
            Some(i) => Some(ps[i]),
            None => None,
        },
        PaletteModelView::Gamut { .. } => None,
    }
}

/// The index of the first palette called `name`, if any.
pub open spec fn first_named(ps: Seq<NamedPaletteView>, name: Seq<char>) -> Option<int>
    decreases ps.len(),
{
    if ps.len() == 0 {
        None
    } else if ps.last().name == name {
        match first_named(ps.drop_last(), name) {
            Some(i) => Some(i),
            None => Some(ps.len() - 1),
        }
    } else {
        first_named(ps.drop_last(), name)
    }
}

/// The index `first_mode` names is a mode of that name.
pub proof fn lemma_first_mode_bounds(modes: Seq<ScreenModeView>, name: Seq<char>)
    ensures
        first_mode(modes, name) matches Some(i) ==> 0 <= i < modes.len() && modes[i].name == name,
    decreases modes.len(),
{
    if modes.len() > 0 {
        lemma_first_mode_bounds(modes.drop_last(), name);
    }
}

/// A result index found by a forward scan is the one `first_mode` names.
pub proof fn lemma_first_mode_scan(modes: Seq<ScreenModeView>, name: Seq<char>, i: int)
    requires
        0 <= i <= modes.len(),
        forall|j: int| 0 <= j < i ==> (#[trigger] modes[j]).name != name,
        i < modes.len() ==> modes[i].name == name,
    ensures
        first_mode(modes, name) == (if i < modes.len() {
            Some(i)
        } else {
            None::<int>
        }),
    decreases modes.len(),
{
    if modes.len() > 0 {
        if i < modes.len() - 1 {
            lemma_first_mode_scan(modes.drop_last(), name, i);
        } else if i == modes.len() - 1 {
            lemma_first_mode_scan(modes.drop_last(), name, i);
        } else {
            lemma_first_mode_scan(modes.drop_last(), name, i - 1);
        }
    }
}

/// A result index found by a forward scan is the one `first_named` names.
pub proof fn lemma_first_named_scan(ps: Seq<NamedPaletteView>, name: Seq<char>, i: int)
    requires
        0 <= i <= ps.len(),
        forall|j: int| 0 <= j < i ==> (#[trigger] ps[j]).name != name,
        i < ps.len() ==> ps[i].name == name,
    ensures
        first_named(ps, name) == (if i < ps.len() {
            Some(i)
        } else {
            None::<int>
        }),
    decreases ps.len(),
{
    if ps.len() > 0 {
        if i < ps.len() {
            lemma_first_named_scan(ps.drop_last(), name, i);
        } else {
            lemma_first_named_scan(ps.drop_last(), name, i - 1);
        }
    }
}

impl MachineGraphics {
    /// Find a screen mode by name (the first with that name).
    pub fn mode(&self, name: &str) -> (r: Option<&ScreenMode>)
        ensures
            match first_mode(self@.modes, name@) {
                Some(i) => r matches Some(m) && m@ == self@.modes[i],
                None => r is None,
            },
    {
        let ghost modes = self@.modes;
        let mut i: usize = 0;
        while i < self.modes.len()
            invariant
                i <= self.modes@.len(),
                modes == self.modes@.map_values(|m: ScreenMode| m@),
                forall|j: int| 0 <= j < i ==> (#[trigger] modes[j]).name != name@,
            decreases self.modes@.len() - i,
        {
            if str_eq(self.modes[i].name, name) {
                proof {
                    lemma_first_mode_scan(modes, name@, i as int);
                }
                return Some(&self.modes[i]);
            }
            i += 1;
        }
        proof {
            lemma_first_mode_scan(modes, name@, i as int);
        }
        None
    }

    /// Find a named palette interpretation (the first with that name).
    /// Always `None` for gamut machines.
    pub fn interpretation(&self, name: &str) -> (r: Option<&NamedPalette>)
        ensures
            match first_palette(self@.palette, name@) {
                Some(p) => r matches Some(q) && q@ == p,
                None => r is None,
            },
    {
        match &self.palette {
            PaletteModel::Fixed(palettes) => {
                let ghost ps = palettes@.map_values(|p: NamedPalette| p@);
                assert(self@.palette == PaletteModelView::Fixed(ps));
                let mut i: usize = 0;
                while i < palettes.len()
                    invariant
                        i <= palettes@.len(),
                        ps == palettes@.map_values(|p: NamedPalette| p@),
                        self@.palette == PaletteModelView::Fixed(ps),
                        forall|j: int| 0 <= j < i ==> (#[trigger] ps[j]).name != name@,
                    decreases palettes@.len() - i,
                {
                    if str_eq(palettes[i].name, name) {
                        proof {
                            lemma_first_named_scan(ps, name@, i as int);
                            assert(ps[i as int] == palettes@[i as int]@);
                            assert(first_named(ps, name@) == Some(i as int));
                            assert(first_palette(self@.palette, name@) == Some(ps[i as int]));
                        }
                        return Some(&palettes[i]);
                    }
                    i += 1;
                }
                proof {
                    lemma_first_named_scan(ps, name@, i as int);
                }
                None
            },
            PaletteModel::Gamut { .. } => None,
        }
    }

    /// The pinned default palette interpretation, resolved.
    pub fn default_palette(&self) -> (r: Option<&NamedPalette>)
        ensures
            match self@.default_interpretation {
                Some(name) => match first_palette(self@.palette, name) {
                    Some(p) => r matches Some(q) && q@ == p,
                    None => r is None,
                },
                None => r is None,
            },
    {
        match self.default_interpretation {
            Some(name) => self.interpretation(name),
            None => None,
        }
    }
}

/// Every machine this specification describes, in order.
pub open spec fn machines_view() -> Seq<MachineView> {
    seq![
        sinclair_zx_spectrum::machine_view(),
        commodore_c64::machine_view(),
        commodore_amiga_ocs::machine_view(),
    ]
}

/// The first machine whose id is `id`.
pub open spec fn spec_machine(id: Seq<char>) -> Option<MachineView> {
    let ms = machines_view();
    if ms[0].id == id {
        Some(ms[0])
    } else if ms[1].id == id {
        Some(ms[1])
    } else if ms[2].id == id {
        Some(ms[2])
    } else {
        None
    }
}

/// All machines.
pub fn machines() -> (v: Vec<MachineGraphics>)
    ensures
        v@.map_values(|m: MachineGraphics| m@) == machines_view(),
{
    let v = vec![
        sinclair_zx_spectrum::machine(),
        commodore_c64::machine(),
        commodore_amiga_ocs::machine(),
    ];
    assert(v@.map_values(|m: MachineGraphics| m@) =~= machines_view());
    v
}

/// Find a machine by id (e.g. `"commodore-c64"`).
pub fn machine(id: &str) -> (r: Option<MachineGraphics>)
    ensures
        match spec_machine(id@) {
            Some(m) => r matches Some(g) && g@ == m,
            None => r is None,
        },
{
    let s = sinclair_zx_spectrum::machine();
    if str_eq(s.id, id) {
        return Some(s);
    }
    let c = commodore_c64::machine();
    if str_eq(c.id, id) {
        return Some(c);
    }
    let a = commodore_amiga_ocs::machine();
    if str_eq(a.id, id) {
        return Some(a);
    }
    None
}

/// The pinned default palette-interpretation name for a machine, where one
/// exists (`None` for gamut machines and unknown ids).
pub fn default_interpretation(machine_id: &str) -> (r: Option<&'static str>)
    ensures
        match spec_machine(machine_id@) {
            Some(m) => match m.default_interpretation {
                Some(d) => r matches Some(s) && s@ == d,
                None => r is None,
            },
            None => r is None,
        },
{
    match machine(machine_id) {
        Some(m) => {
            assert(m@.default_interpretation == match m.default_interpretation {
                Some(s) => Some(s@),
                None => None::<Seq<char>>,
            });
            m.default_interpretation
        },
        None => None,
    }
}

} // verus!
