//! Commodore Amiga (OCS chipset) graphics capabilities.
//!
//! - Display data is planar bitplanes: up to 5 planes in lores single
//!   playfield, up to 4 planes in hires.
//! - Lores is 320 pixels per line; hires is 640. Visible lines
//!   non-interlaced: 200 NTSC / 256 PAL.
//! - Colour registers hold 4 bits per gun, a 4096-colour gamut, so the
//!   palette model is a parametric gamut: per-image palettes are generated,
//!   then rounded to 4 bits per gun.
//!
//! EHB, HAM, dual playfield, interlace and ECS super-hires are not modelled.
use vstd::prelude::*;

use super::{
    rgb, CellGrid, ConstraintRule, MachineGraphics, MachineView, NamedPalette, NamedPaletteView,
    PaletteModel, PaletteModelView, Ratio, Rgb, ScreenMode, ScreenModeView,
};

verus! {

/// One Amiga planar mode, as a value.
pub open spec fn planar_mode_view(
    name: Seq<char>,
    paper_width: u16,
    paper_height: u16,
    pixel_aspect: Ratio,
    max_planes: u8,
) -> ScreenModeView {
    ScreenModeView {
        name,
        paper_width,
        paper_height,
        pixel_aspect,
        cell: None,
        constraint: ConstraintRule::Planar { max_planes },
        border: None,
    }
}

/// Build one Amiga planar mode (the four modes differ only in name,
/// geometry, pixel shape, and plane budget). Planar modes have no cell grid.
pub fn planar_mode(
    name: &'static str,
    paper_width: u16,
    paper_height: u16,
    pixel_aspect: Ratio,
    max_planes: u8,
) -> (m: ScreenMode)
    ensures
        m@ == planar_mode_view(name@, paper_width, paper_height, pixel_aspect, max_planes),
{
    ScreenMode {
        name,
        paper_width,
        paper_height,
        pixel_aspect,
        cell: None,
        constraint: ConstraintRule::Planar { max_planes },
        border: None,
    }
}

pub const NOTES: &'static str = "EHB, HAM, dual playfield, interlace, and ECS super-hires exist but are out of wave-1 converter scope (see module docs). Source: syntheses/commodore-amiga/amiga-graphics-display.md \u{a7}\u{a7} 1.7, 2.2\u{2013}2.3.";

/// Hires pixels are half the width of lores pixels.
pub open spec fn hires_aspect() -> Ratio {
    Ratio { horizontal: 1, vertical: 2 }
}

/// The Amiga OCS graphics description, as a value.
pub open spec fn machine_view() -> MachineView {
    let sq = Ratio { horizontal: 1, vertical: 1 };
    MachineView {
        id: "commodore-amiga-ocs"@,
        name: "Commodore Amiga (OCS)"@,
        modes: seq![
            planar_mode_view("lores-pal"@, 320, 256, sq, 5),
            planar_mode_view("lores-ntsc"@, 320, 200, sq, 5),
            planar_mode_view("hires-pal"@, 640, 256, hires_aspect(), 4),
            planar_mode_view("hires-ntsc"@, 640, 200, hires_aspect(), 4),
        ],
        palette: PaletteModelView::Gamut { bits_per_gun: 4 },
        default_interpretation: None,
        notes: NOTES@,
    }
}

/// The Amiga OCS graphics description.
pub fn machine() -> (m: MachineGraphics)
    ensures
        m@ == machine_view(),
{
    let modes = vec![
        planar_mode("lores-pal", 320, 256, Ratio::square(), 5),
        planar_mode("lores-ntsc", 320, 200, Ratio::square(), 5),
        planar_mode("hires-pal", 640, 256, Ratio::new(1, 2), 4),
        planar_mode("hires-ntsc", 640, 200, Ratio::new(1, 2), 4),
    ];
    let m = MachineGraphics {
        id: "commodore-amiga-ocs",
        name: "Commodore Amiga (OCS)",
        modes,
        palette: PaletteModel::Gamut { bits_per_gun: 4 },
        default_interpretation: None,
        notes: NOTES,
    };
    assert(m@.modes =~= machine_view().modes);
    m
}

} // verus!
