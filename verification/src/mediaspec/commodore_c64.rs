//! Commodore 64 (VIC-II) graphics capabilities.
//!
//! - Standard ("hires") bitmap mode: 320x200, 1 bit per pixel, 8x8 cells with
//!   two colours per cell, both freely chosen from the 16-colour palette.
//! - Multicolour bitmap mode: effectively 160x200 in double-wide pixels,
//!   2 bits per pixel; per 4x8 cell, bit-pairs `01`/`10`/`11` select three
//!   per-cell colours and `00` selects the single global background.
//! - The palette has 16 fixed hardware colours.
use vstd::prelude::*;

use super::{
    rgb, CellGrid, ConstraintRule, MachineGraphics, MachineView, NamedPalette, NamedPaletteView,
    PaletteModel, PaletteModelView, Ratio, Rgb, ScreenMode, ScreenModeView,
};

verus! {

/// `emu198x-v1`: Emu198x's VIC-II palette, hardware index order 0-15.
pub open spec fn emu198x_v1() -> Seq<Rgb> {
    seq![
        Rgb { r: 0x00, g: 0x00, b: 0x00 },
        Rgb { r: 0xFF, g: 0xFF, b: 0xFF },
        Rgb { r: 0x88, g: 0x39, b: 0x32 },
        Rgb { r: 0x67, g: 0xB6, b: 0xBD },
        Rgb { r: 0x8B, g: 0x3F, b: 0x96 },
        Rgb { r: 0x55, g: 0xA0, b: 0x49 },
        Rgb { r: 0x40, g: 0x31, b: 0x8D },
        Rgb { r: 0xBF, g: 0xCE, b: 0x72 },
        Rgb { r: 0x8B, g: 0x54, b: 0x29 },
        Rgb { r: 0x57, g: 0x42, b: 0x00 },
        Rgb { r: 0xB8, g: 0x69, b: 0x62 },
        Rgb { r: 0x50, g: 0x50, b: 0x50 },
        Rgb { r: 0x78, g: 0x78, b: 0x78 },
        Rgb { r: 0x94, g: 0xE0, b: 0x89 },
        Rgb { r: 0x78, g: 0x68, b: 0xC0 },
        Rgb { r: 0x9F, g: 0x9F, b: 0x9F },
    ]
}

/// `pepto-v1`: Pepto's calculated PAL palette, as shipped by VICE.
pub open spec fn pepto_v1() -> Seq<Rgb> {
    seq![
        Rgb { r: 0x00, g: 0x00, b: 0x00 },
        Rgb { r: 0xFF, g: 0xFF, b: 0xFF },
        Rgb { r: 0x68, g: 0x37, b: 0x2B },
        Rgb { r: 0x70, g: 0xA4, b: 0xB2 },
        Rgb { r: 0x6F, g: 0x3D, b: 0x86 },
        Rgb { r: 0x58, g: 0x8D, b: 0x43 },
        Rgb { r: 0x35, g: 0x28, b: 0x79 },
        Rgb { r: 0xB8, g: 0xC7, b: 0x6F },
        Rgb { r: 0x6F, g: 0x4F, b: 0x25 },
        Rgb { r: 0x43, g: 0x39, b: 0x00 },
        Rgb { r: 0x9A, g: 0x67, b: 0x59 },
        Rgb { r: 0x44, g: 0x44, b: 0x44 },
        Rgb { r: 0x6C, g: 0x6C, b: 0x6C },
        Rgb { r: 0x9A, g: 0xD2, b: 0x84 },
        Rgb { r: 0x6C, g: 0x5E, b: 0xB5 },
        Rgb { r: 0x95, g: 0x95, b: 0x95 },
    ]
}

/// `colodore-v1`: Pepto's colodore.com PAL palette, as shipped by VICE.
pub open spec fn colodore_v1() -> Seq<Rgb> {
    seq![
        Rgb { r: 0x00, g: 0x00, b: 0x00 },
        Rgb { r: 0xFF, g: 0xFF, b: 0xFF },
        Rgb { r: 0x96, g: 0x28, b: 0x2E },
        Rgb { r: 0x5B, g: 0xD6, b: 0xCE },
        Rgb { r: 0x9F, g: 0x2D, b: 0xAD },
        Rgb { r: 0x41, g: 0xB9, b: 0x36 },
        Rgb { r: 0x27, g: 0x24, b: 0xC4 },
        Rgb { r: 0xEF, g: 0xF3, b: 0x47 },
        Rgb { r: 0x9F, g: 0x48, b: 0x15 },
        Rgb { r: 0x5E, g: 0x35, b: 0x00 },
        Rgb { r: 0xDA, g: 0x5F, b: 0x66 },
        Rgb { r: 0x47, g: 0x47, b: 0x47 },
        Rgb { r: 0x78, g: 0x78, b: 0x78 },
        Rgb { r: 0x91, g: 0xFF, b: 0x84 },
        Rgb { r: 0x68, g: 0x64, b: 0xFF },
        Rgb { r: 0xAE, g: 0xAE, b: 0xAE },
    ]
}

fn emu198x_v1_colours() -> (v: Vec<Rgb>)
    ensures
        v@ == emu198x_v1(),
{
    let v = vec![
        rgb(0x00, 0x00, 0x00),
        rgb(0xFF, 0xFF, 0xFF),
        rgb(0x88, 0x39, 0x32),
        rgb(0x67, 0xB6, 0xBD),
        rgb(0x8B, 0x3F, 0x96),
        rgb(0x55, 0xA0, 0x49),
        rgb(0x40, 0x31, 0x8D),
        rgb(0xBF, 0xCE, 0x72),
        rgb(0x8B, 0x54, 0x29),
        rgb(0x57, 0x42, 0x00),
        rgb(0xB8, 0x69, 0x62),
        rgb(0x50, 0x50, 0x50),
        rgb(0x78, 0x78, 0x78),
        rgb(0x94, 0xE0, 0x89),
        rgb(0x78, 0x68, 0xC0),
        rgb(0x9F, 0x9F, 0x9F),
    ];
    assert(v@ =~= emu198x_v1());
    v
}

fn pepto_v1_colours() -> (v: Vec<Rgb>)
    ensures
        v@ == pepto_v1(),
{
    let v = vec![
        rgb(0x00, 0x00, 0x00),
        rgb(0xFF, 0xFF, 0xFF),
        rgb(0x68, 0x37, 0x2B),
        rgb(0x70, 0xA4, 0xB2),
        rgb(0x6F, 0x3D, 0x86),
        rgb(0x58, 0x8D, 0x43),
        rgb(0x35, 0x28, 0x79),
        rgb(0xB8, 0xC7, 0x6F),
        rgb(0x6F, 0x4F, 0x25),
        rgb(0x43, 0x39, 0x00),
        rgb(0x9A, 0x67, 0x59),
        rgb(0x44, 0x44, 0x44),
        rgb(0x6C, 0x6C, 0x6C),
        rgb(0x9A, 0xD2, 0x84),
        rgb(0x6C, 0x5E, 0xB5),
        rgb(0x95, 0x95, 0x95),
    ];
    assert(v@ =~= pepto_v1());
    v
}

fn colodore_v1_colours() -> (v: Vec<Rgb>)
    ensures
        v@ == colodore_v1(),
{
    let v = vec![
        rgb(0x00, 0x00, 0x00),
        rgb(0xFF, 0xFF, 0xFF),
        rgb(0x96, 0x28, 0x2E),
        rgb(0x5B, 0xD6, 0xCE),
        rgb(0x9F, 0x2D, 0xAD),
        rgb(0x41, 0xB9, 0x36),
        rgb(0x27, 0x24, 0xC4),
        rgb(0xEF, 0xF3, 0x47),
        rgb(0x9F, 0x48, 0x15),
        rgb(0x5E, 0x35, 0x00),
        rgb(0xDA, 0x5F, 0x66),
        rgb(0x47, 0x47, 0x47),
        rgb(0x78, 0x78, 0x78),
        rgb(0x91, 0xFF, 0x84),
        rgb(0x68, 0x64, 0xFF),
        rgb(0xAE, 0xAE, 0xAE),
    ];
    assert(v@ =~= colodore_v1());
    v
}

/// Standard ("hires") bitmap mode.
pub open spec fn hires_mode() -> ScreenModeView {
    ScreenModeView {
        name: "hires-bitmap"@,
        paper_width: 320,
        paper_height: 200,
        pixel_aspect: Ratio { horizontal: 1, vertical: 1 },
        cell: Some(CellGrid { width: 8, height: 8, free_colours: 2 }),
        constraint: ConstraintRule::C64Hires,
        border: None,
    }
}

/// Multicolour bitmap mode (double-wide pixels).
pub open spec fn multicolour_mode() -> ScreenModeView {
    ScreenModeView {
        name: "multicolour-bitmap"@,
        paper_width: 160,
        paper_height: 200,
        pixel_aspect: Ratio { horizontal: 2, vertical: 1 },
        cell: Some(CellGrid { width: 4, height: 8, free_colours: 3 }),
        constraint: ConstraintRule::C64Multicolour,
        border: None,
    }
}

pub const NOTES: &'static str = "Text modes (standard, multicolour, ECM) and sprites exist but are out of wave-1 converter scope; only the two bitmap modes are modelled. Source: syntheses/commodore-c64/vic-ii-screen-memory-modes-sprites.md \u{a7}\u{a7} 5\u{2013}6.";

/// The Commodore 64 graphics description, as a value.
pub open spec fn machine_view() -> MachineView {
    MachineView {
        id: "commodore-c64"@,
        name: "Commodore 64"@,
        modes: seq![hires_mode(), multicolour_mode()],
        palette: PaletteModelView::Fixed(
            seq![
                NamedPaletteView {
                    name: "emu198x-v1"@,
                    source: "Emu198x/crates/mos-vic-ii/src/palette.rs"@,
                    colours: emu198x_v1(),
                },
                NamedPaletteView {
                    name: "pepto-v1"@,
                    source: "assets/vice/vice/data/C64/pepto-pal.vpl"@,
                    colours: pepto_v1(),
                },
                NamedPaletteView {
                    name: "colodore-v1"@,
                    source: "assets/vice/vice/data/C64/colodore.vpl"@,
                    colours: colodore_v1(),
                },
            ],
        ),
        default_interpretation: Some("emu198x-v1"@),
        notes: NOTES@,
    }
}

/// The Commodore 64 graphics description.
pub fn machine() -> (m: MachineGraphics)
    ensures
        m@ == machine_view(),
{
    let modes = vec![
        ScreenMode {
            name: "hires-bitmap",
            paper_width: 320,
            paper_height: 200,
            pixel_aspect: Ratio::square(),
            cell: Some(CellGrid { width: 8, height: 8, free_colours: 2 }),
            constraint: ConstraintRule::C64Hires,
            border: None,
        },
        ScreenMode {
            name: "multicolour-bitmap",
            paper_width: 160,
            paper_height: 200,
            pixel_aspect: Ratio::new(2, 1),
            cell: Some(CellGrid { width: 4, height: 8, free_colours: 3 }),
            constraint: ConstraintRule::C64Multicolour,
            border: None,
        },
    ];
    let palettes = vec![
        NamedPalette {
            name: "emu198x-v1",
            source: "Emu198x/crates/mos-vic-ii/src/palette.rs",
            colours: emu198x_v1_colours(),
        },
        NamedPalette {
            name: "pepto-v1",
            source: "assets/vice/vice/data/C64/pepto-pal.vpl",
            colours: pepto_v1_colours(),
        },
        NamedPalette {
            name: "colodore-v1",
            source: "assets/vice/vice/data/C64/colodore.vpl",
            colours: colodore_v1_colours(),
        },
    ];
    let m = MachineGraphics {
        id: "commodore-c64",
        name: "Commodore 64",
        modes,
        palette: PaletteModel::Fixed(palettes),
        default_interpretation: Some("emu198x-v1"),
        notes: NOTES,
    };
    assert(m@.modes =~= seq![hires_mode(), multicolour_mode()]);
    assert(m@.palette == machine_view().palette) by {
        if let PaletteModelView::Fixed(ps) = m@.palette {
            if let PaletteModelView::Fixed(qs) = machine_view().palette {
                assert(ps =~= qs);
            }
        }
    }
    m
}

} // verus!
