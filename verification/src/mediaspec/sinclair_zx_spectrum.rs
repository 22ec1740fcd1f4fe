//! Sinclair ZX Spectrum graphics capabilities.
//!
//! - Paper bitmap is 256x192 pixels, 1 bit per pixel.
//! - The attribute table covers 32x24 cells of 8x8 pixels, one byte per cell.
//! - Attribute byte `FBPPPIII`: FLASH, BRIGHT, 3-bit PAPER, 3-bit INK.
//! - BRIGHT applies to INK and PAPER together.
//! - Black is shared across the brightness halves: 8 colours x 2 levels give
//!   15 distinct colours rendered from 16 indices.
//!
//! The FLASH bit is out of converter scope: a converted image ships FLASH=0.
use vstd::prelude::*;

use super::{
    rgb, CellGrid, ConstraintRule, MachineGraphics, MachineView, NamedPalette, NamedPaletteView,
    PaletteModel, PaletteModelView, Ratio, Rgb, ScreenMode, ScreenModeView,
};

verus! {

/// `emu198x-v1`: normal primaries 0xC2, bright 0xFF; indices 0-7 normal,
/// 8-15 bright; indices 0 and 8 are both black.
pub open spec fn emu198x_v1() -> Seq<Rgb> {
    seq![
        Rgb { r: 0x00, g: 0x00, b: 0x00 },
        Rgb { r: 0x00, g: 0x00, b: 0xC2 },
        Rgb { r: 0xC2, g: 0x00, b: 0x00 },
        Rgb { r: 0xC2, g: 0x00, b: 0xC2 },
        Rgb { r: 0x00, g: 0xC2, b: 0x00 },
        Rgb { r: 0x00, g: 0xC2, b: 0xC2 },
        Rgb { r: 0xC2, g: 0xC2, b: 0x00 },
        Rgb { r: 0xC2, g: 0xC2, b: 0xC2 },
        Rgb { r: 0x00, g: 0x00, b: 0x00 },
        Rgb { r: 0x00, g: 0x00, b: 0xFF },
        Rgb { r: 0xFF, g: 0x00, b: 0x00 },
        Rgb { r: 0xFF, g: 0x00, b: 0xFF },
        Rgb { r: 0x00, g: 0xFF, b: 0x00 },
        Rgb { r: 0x00, g: 0xFF, b: 0xFF },
        Rgb { r: 0xFF, g: 0xFF, b: 0x00 },
        Rgb { r: 0xFF, g: 0xFF, b: 0xFF },
    ]
}

/// `fuse-v1`: the classic normal = 192 / bright = 255 levels.
pub open spec fn fuse_v1() -> Seq<Rgb> {
    seq![
        Rgb { r: 0, g: 0, b: 0 },
        Rgb { r: 0, g: 0, b: 192 },
        Rgb { r: 192, g: 0, b: 0 },
        Rgb { r: 192, g: 0, b: 192 },
        Rgb { r: 0, g: 192, b: 0 },
        Rgb { r: 0, g: 192, b: 192 },
        Rgb { r: 192, g: 192, b: 0 },
        Rgb { r: 192, g: 192, b: 192 },
        Rgb { r: 0, g: 0, b: 0 },
        Rgb { r: 0, g: 0, b: 255 },
        Rgb { r: 255, g: 0, b: 0 },
        Rgb { r: 255, g: 0, b: 255 },
        Rgb { r: 0, g: 255, b: 0 },
        Rgb { r: 0, g: 255, b: 255 },
        Rgb { r: 255, g: 255, b: 0 },
        Rgb { r: 255, g: 255, b: 255 },
    ]
}

fn emu198x_v1_colours() -> (v: Vec<Rgb>)
    ensures
        v@ == emu198x_v1(),
{
    let v = vec![
        rgb(0x00, 0x00, 0x00),
        rgb(0x00, 0x00, 0xC2),
        rgb(0xC2, 0x00, 0x00),
        rgb(0xC2, 0x00, 0xC2),
        rgb(0x00, 0xC2, 0x00),
        rgb(0x00, 0xC2, 0xC2),
        rgb(0xC2, 0xC2, 0x00),
        rgb(0xC2, 0xC2, 0xC2),
        rgb(0x00, 0x00, 0x00),
        rgb(0x00, 0x00, 0xFF),
        rgb(0xFF, 0x00, 0x00),
        rgb(0xFF, 0x00, 0xFF),
        rgb(0x00, 0xFF, 0x00),
        rgb(0x00, 0xFF, 0xFF),
        rgb(0xFF, 0xFF, 0x00),
        rgb(0xFF, 0xFF, 0xFF),
    ];
    assert(v@ =~= emu198x_v1());
    v
}

fn fuse_v1_colours() -> (v: Vec<Rgb>)
    ensures
        v@ == fuse_v1(),
{
    let v = vec![
        rgb(0, 0, 0),
        rgb(0, 0, 192),
        rgb(192, 0, 0),
        rgb(192, 0, 192),
        rgb(0, 192, 0),
        rgb(0, 192, 192),
        rgb(192, 192, 0),
        rgb(192, 192, 192),
        rgb(0, 0, 0),
        rgb(0, 0, 255),
        rgb(255, 0, 0),
        rgb(255, 0, 255),
        rgb(0, 255, 0),
        rgb(0, 255, 255),
        rgb(255, 255, 0),
        rgb(255, 255, 255),
    ];
    assert(v@ =~= fuse_v1());
    v
}

/// The Spectrum's one modelled screen mode.
pub open spec fn standard_mode() -> ScreenModeView {
    ScreenModeView {
        name: "standard"@,
        paper_width: 256,
        paper_height: 192,
        pixel_aspect: Ratio { horizontal: 1, vertical: 1 },
        cell: Some(CellGrid { width: 8, height: 8, free_colours: 2 }),
        constraint: ConstraintRule::SpectrumAttr,
        border: None,
    }
}

/// The ZX Spectrum graphics description, as a value.
pub open spec fn machine_view() -> MachineView {
    MachineView {
        id: "sinclair-zx-spectrum"@,
        name: "Sinclair ZX Spectrum"@,
        modes: seq![standard_mode()],
        palette: PaletteModelView::Fixed(
            seq![
                NamedPaletteView {
                    name: "emu198x-v1"@,
                    source: "Emu198x/crates/common-sinclair-zx-spectrum/src/palette.rs"@,
                    colours: emu198x_v1(),
                },
                NamedPaletteView {
                    name: "fuse-v1"@,
                    source: "emulators/zx-spectrum/fuse-emulator-fuse/ui/gtk/gtkdisplay.c"@,
                    colours: fuse_v1(),
                },
            ],
        ),
        default_interpretation: Some("emu198x-v1"@),
        notes: NOTES@,
    }
}

pub const NOTES: &'static str = "FLASH (attribute bit 7) exists but is out of converter scope; converted images ship FLASH=0. Source: syntheses/zx-spectrum/screen-and-attribute-memory.md \u{a7} 7.";

/// The ZX Spectrum graphics description.
pub fn machine() -> (m: MachineGraphics)
    ensures
        m@ == machine_view(),
{
    let modes = vec![
        ScreenMode {
            name: "standard",
            paper_width: 256,
            paper_height: 192,
            pixel_aspect: Ratio::square(),
            cell: Some(CellGrid { width: 8, height: 8, free_colours: 2 }),
            constraint: ConstraintRule::SpectrumAttr,
            border: None,
        },
    ];
    let palettes = vec![
        NamedPalette {
            name: "emu198x-v1",
            source: "Emu198x/crates/common-sinclair-zx-spectrum/src/palette.rs",
            colours: emu198x_v1_colours(),
        },
        NamedPalette {
            name: "fuse-v1",
            source: "emulators/zx-spectrum/fuse-emulator-fuse/ui/gtk/gtkdisplay.c",
            colours: fuse_v1_colours(),
        },
    ];
    let m = MachineGraphics {
        id: "sinclair-zx-spectrum",
        name: "Sinclair ZX Spectrum",
        modes,
        palette: PaletteModel::Fixed(palettes),
        default_interpretation: Some("emu198x-v1"),
        notes: NOTES,
    };
    assert(m@.modes =~= seq![standard_mode()]);
    assert(m@.palette == machine_view().palette) by {
        if let PaletteModelView::Fixed(ps) = m@.palette {
            if let PaletteModelView::Fixed(qs) = machine_view().palette {
                assert(ps =~= qs);
            }
        }
    }
    m
}

} // verus!
