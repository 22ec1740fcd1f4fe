//! The integer stages of the image-conversion pipeline: decoded image in,
//! constrained indexed pixels out, ready for the format codecs.
//!
//! - [`normalise`]: dimension sanity caps and alpha compositing over a matte
//!   into 8-bit sRGB.
//! - [`resize`]: where the image sits on the target mode's paper, honouring
//!   pixel aspect ratio.
//! - [`quantise`]: rounding a channel to a gamut's grid.
//! - [`pipeline`]: the conversion options, the per-target defaults, the
//!   pre-pass that recognises input already on the target, and the bridges
//!   from a conversion to the format codecs' inputs.
//!
//! The floating-point stages (colour metrics, box resampling, the per-cell
//! search, dithering and median cut) are not part of this library.
use vstd::prelude::*;

use crate::text::{decimal, push_decimal, push_str, string_of};

pub mod bridges;
pub mod codecs;
pub mod colour;
pub mod constrain;
pub mod dither;
pub mod normalise;
pub mod pipeline;
pub mod quantise;
pub mod resize;
pub mod grid;

verus! {

/// An 8-bit-per-channel sRGB image with alpha already composited.
#[derive(Debug, Clone, PartialEq, Eq)]
pub struct Rgb8Image {
    /// Width in pixels.
    pub width: u32,
    /// Height in pixels.
    pub height: u32,
    /// Row-major `[r, g, b]` triples, `width * height` entries.
    pub pixels: Vec<[u8; 3]>,
}

/// Why a conversion was rejected.
#[derive(Debug, Clone, PartialEq, Eq)]
pub enum ConvertError {
    /// Input dimensions exceed the per-axis sanity cap.
    DimensionsTooLarge {
        /// Declared width in pixels.
        width: u32,
        /// Declared height in pixels.
        height: u32,
        /// The cap that was exceeded.
        max: u32,
    },
    /// Input pixel count exceeds the total-pixel cap.
    TooManyPixels {
        /// Declared width in pixels.
        width: u32,
        /// Declared height in pixels.
        height: u32,
        /// The total-pixel cap that was exceeded.
        max_pixels: u64,
    },
    /// The input has zero width or height.
    EmptyImage,
    /// No machine in the spec carries this id.
    UnknownMachine {
        /// The id requested.
        machine: String,
    },
    /// The machine exists but has no mode of this name.
    UnknownMode {
        /// The machine id.
        machine: String,
        /// The mode name requested.
        mode: String,
    },
    /// The machine has no palette interpretation of this name.
    UnknownInterpretation {
        /// The machine id.
        machine: String,
        /// The interpretation name requested.
        name: String,
    },
    /// Dither strength outside the supported 0..=64 range.
    InvalidStrength {
        /// The strength requested.
        strength: u8,
    },
    /// Error diffusion requested for a cell-constrained mode.
    DiffusionNeedsFreePalette,
    /// A format bridge was called on a conversion for a different machine
    /// or mode.
    WrongTarget {
        /// The bridge that was called.
        bridge: &'static str,
        /// The machine/mode the bridge requires.
        expected: &'static str,
        /// The conversion's actual machine/mode.
        actual: String,
    },
    /// An internal invariant failed: a bug in this pipeline, not bad input.
    Internal {
        /// What went wrong.
        what: &'static str,
    },
}

/// The mathematical value of a [`ConvertError`].
pub enum ConvertErrorView {
    DimensionsTooLarge { width: u32, height: u32, max: u32 },
    TooManyPixels { width: u32, height: u32, max_pixels: u64 },
    EmptyImage,
    UnknownMachine { machine: Seq<char> },
    UnknownMode { machine: Seq<char>, mode: Seq<char> },
    UnknownInterpretation { machine: Seq<char>, name: Seq<char> },
    InvalidStrength { strength: u8 },
    DiffusionNeedsFreePalette,
    WrongTarget { bridge: Seq<char>, expected: Seq<char>, actual: Seq<char> },
    Internal { what: Seq<char> },
}

impl View for ConvertError {
    type V = ConvertErrorView;

    open spec fn view(&self) -> ConvertErrorView {
        match self {
            ConvertError::DimensionsTooLarge { width, height, max } => ConvertErrorView::DimensionsTooLarge {
                width: *width,
                height: *height,
                max: *max,
            },
            ConvertError::TooManyPixels { width, height, max_pixels } => ConvertErrorView::TooManyPixels {
                width: *width,
                height: *height,
                max_pixels: *max_pixels,
            },
            ConvertError::EmptyImage => ConvertErrorView::EmptyImage,
            ConvertError::UnknownMachine { machine } => ConvertErrorView::UnknownMachine {
                machine: machine@,
            },
            ConvertError::UnknownMode { machine, mode } => ConvertErrorView::UnknownMode {
                machine: machine@,
                mode: mode@,
            },
            ConvertError::UnknownInterpretation { machine, name } => ConvertErrorView::UnknownInterpretation {
                machine: machine@,
                name: name@,
            },
            ConvertError::InvalidStrength { strength } => ConvertErrorView::InvalidStrength {
                strength: *strength,
            },
            ConvertError::DiffusionNeedsFreePalette => ConvertErrorView::DiffusionNeedsFreePalette,
            ConvertError::WrongTarget { bridge, expected, actual } => ConvertErrorView::WrongTarget {
                bridge: bridge@,
                expected: expected@,
                actual: actual@,
            },
            ConvertError::Internal { what } => ConvertErrorView::Internal { what: what@ },
        }
    }
}

/// The error's text (what `Display` prints for it).
pub open spec fn convert_error_text(e: ConvertErrorView) -> Seq<char> {
    match e {
        ConvertErrorView::DimensionsTooLarge { width, height, max } => "input dimensions "@
            + decimal(width as nat) + "x"@ + decimal(height as nat) + " exceed the "@ + decimal(
            max as nat,
        ) + " sanity cap"@,
        ConvertErrorView::TooManyPixels { width, height, max_pixels } => "input dimensions "@
            + decimal(width as nat) + "x"@ + decimal(height as nat) + " exceed the "@ + decimal(
            max_pixels as nat,
        ) + " total-pixel cap"@,
        ConvertErrorView::EmptyImage => "input image has zero width or height"@,
        ConvertErrorView::UnknownMachine { machine } => "unknown machine id: "@ + machine,
        ConvertErrorView::UnknownMode { machine, mode } => "machine "@ + machine
            + " has no mode named "@ + mode,
        ConvertErrorView::UnknownInterpretation { machine, name } => "machine "@ + machine
            + " has no palette interpretation named "@ + name,
        ConvertErrorView::InvalidStrength { strength } => "dither strength "@ + decimal(
            strength as nat,
        ) + " outside 0..=64"@,
        ConvertErrorView::DiffusionNeedsFreePalette =>
            "error diffusion is only supported for free-palette (planar) targets"@,
        ConvertErrorView::WrongTarget { bridge, expected, actual } => bridge + " requires a "@
            + expected + " conversion, got "@ + actual,
        ConvertErrorView::Internal { what } => "internal pipeline error: "@ + what,
    }
}

impl ConvertError {
    /// The error as a line of text.
    pub fn describe(&self) -> (s: String)
        ensures
            s@ == convert_error_text(self@),
    {
        let mut out: Vec<char> = Vec::new();
        match self {
            ConvertError::DimensionsTooLarge { width, height, max } => {
                push_str(&mut out, "input dimensions ");
                push_decimal(&mut out, *width as u64);
                push_str(&mut out, "x");
                push_decimal(&mut out, *height as u64);
                push_str(&mut out, " exceed the ");
                push_decimal(&mut out, *max as u64);
                push_str(&mut out, " sanity cap");
            },
            ConvertError::TooManyPixels { width, height, max_pixels } => {
                push_str(&mut out, "input dimensions ");
                push_decimal(&mut out, *width as u64);
                push_str(&mut out, "x");
                push_decimal(&mut out, *height as u64);
                push_str(&mut out, " exceed the ");
                push_decimal(&mut out, *max_pixels);
                push_str(&mut out, " total-pixel cap");
            },
            ConvertError::EmptyImage => {
                push_str(&mut out, "input image has zero width or height");
            },
            ConvertError::UnknownMachine { machine } => {
                push_str(&mut out, "unknown machine id: ");
                push_str(&mut out, machine.as_str());
            },
            ConvertError::UnknownMode { machine, mode } => {
                push_str(&mut out, "machine ");
                push_str(&mut out, machine.as_str());
                push_str(&mut out, " has no mode named ");
                push_str(&mut out, mode.as_str());
            },
            ConvertError::UnknownInterpretation { machine, name } => {
                push_str(&mut out, "machine ");
                push_str(&mut out, machine.as_str());
                push_str(&mut out, " has no palette interpretation named ");
                push_str(&mut out, name.as_str());
            },
            ConvertError::InvalidStrength { strength } => {
                push_str(&mut out, "dither strength ");
                push_decimal(&mut out, *strength as u64);
                push_str(&mut out, " outside 0..=64");
            },
            ConvertError::DiffusionNeedsFreePalette => {
                push_str(&mut out, "error diffusion is only supported for free-palette (planar) targets");
            },
            ConvertError::WrongTarget { bridge, expected, actual } => {
                push_str(&mut out, bridge);
                push_str(&mut out, " requires a ");
                push_str(&mut out, expected);
                push_str(&mut out, " conversion, got ");
                push_str(&mut out, actual.as_str());
            },
            ConvertError::Internal { what } => {
                push_str(&mut out, "internal pipeline error: ");
                push_str(&mut out, what);
            },
        }
        proof {
            assert(out@ =~= convert_error_text(self@));
        }
        string_of(out.as_slice())
    }
}

} // verus!
