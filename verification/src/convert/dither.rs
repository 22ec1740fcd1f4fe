//! Dither algorithm selection and the ordered-dither matrices. The
//! dithering itself compares floating-point thresholds and is not part of
//! this library.
use vstd::prelude::*;


verus! {

/// Dither algorithm selection.
#[derive(Debug, Clone, Copy, PartialEq, Eq, Structural)]
pub enum DitherMode {
    /// Ordered, 4x4 Bayer matrix.
    Bayer4,
    /// Ordered, 8x8 Bayer matrix (the default for cell-constrained
    /// targets).
    Bayer8,
    /// Serpentine Floyd-Steinberg error diffusion (free-palette only; the
    /// default for planar targets).
    FloydSteinberg,
    /// Serpentine Atkinson error diffusion (free-palette only).
    Atkinson,
}

impl DitherMode {
    /// Whether this mode is an ordered (Bayer) dither.
    pub fn is_ordered(self) -> (r: bool)
        ensures
            r == (self == DitherMode::Bayer4 || self == DitherMode::Bayer8),
    {
        match self {
            DitherMode::Bayer4 | DitherMode::Bayer8 => true,
            _ => false,
        }
    }
}

/// The 2x2 ordered-dither matrix `[[0, 2], [3, 1]]` at column `a`, row
/// `b` (each 0 or 1): `2 * (a ^ b) + b`.
pub open spec fn bayer2(a: u8, b: u8) -> u8 {
    (((a ^ b) & 1) << 1) | (b & 1)
}

/// The 4x4 ordered-dither matrix at `(x, y)`, `x` and `y` below 4: the
/// 2x2 matrix of the low bits, times four, plus the 2x2 matrix of the high
/// bits (rows `0 8 2 10 / 12 4 14 6 / 3 11 1 9 / 15 7 13 5`).
pub open spec fn bayer4(x: u8, y: u8) -> u8 {
    (bayer2(x & 1, y & 1) << 2) | bayer2((x >> 1) & 1, (y >> 1) & 1)
}

/// The 8x8 ordered-dither matrix at `(x, y)`, `x` and `y` below 8: the
/// 2x2 matrix of the low bits, times four, plus the 4x4 matrix of the rest
/// (first row `0 32 8 40 2 34 10 42`).
pub open spec fn bayer8(x: u8, y: u8) -> u8 {
    (bayer2(x & 1, y & 1) << 4) | (bayer2((x >> 1) & 1, (y >> 1) & 1) << 2) | bayer2((x >> 2) & 1, (y >> 2) & 1)
}

/// The matrix entry pixel `(x, y)` is thresholded by: the 4x4 matrix for
/// `Bayer4`, the 8x8 one for every other mode, tiled over the image.
pub open spec fn bayer_level_spec(mode: DitherMode, x: int, y: int) -> u8 {
    if mode == DitherMode::Bayer4 {
        bayer4((x % 4) as u8, (y % 4) as u8)
    } else {
        bayer8((x % 8) as u8, (y % 8) as u8)
    }
}

/// The matrix entry pixel `(x, y)` is thresholded by (see
/// [`bayer_level_spec`]); the threshold is `(entry + 0.5) / n^2`.
pub fn bayer_level(mode: DitherMode, x: usize, y: usize) -> (v: u8)
    ensures
        v == bayer_level_spec(mode, x as int, y as int),
{
    match mode {
        DitherMode::Bayer4 => {
            let xb = (x % 4) as u8;
            let yb = (y % 4) as u8;
            let lo = (((xb ^ yb) & 1) << 1) | (yb & 1);
            let hi = ((((xb >> 1) ^ (yb >> 1)) & 1) << 1) | ((yb >> 1) & 1);
            assert(lo == bayer2(xb & 1, yb & 1) && hi == bayer2((xb >> 1) & 1, (yb >> 1) & 1)) by (bit_vector)
                requires
                    lo == (((xb ^ yb) & 1) << 1) | (yb & 1),
                    hi == ((((xb >> 1) ^ (yb >> 1)) & 1) << 1) | ((yb >> 1) & 1),
            ;
            (lo << 2) | hi
        },
        _ => {
            let xb = (x % 8) as u8;
            let yb = (y % 8) as u8;
            let b0 = (((xb ^ yb) & 1) << 1) | (yb & 1);
            let b1 = ((((xb >> 1) ^ (yb >> 1)) & 1) << 1) | ((yb >> 1) & 1);
            let b2 = ((((xb >> 2) ^ (yb >> 2)) & 1) << 1) | ((yb >> 2) & 1);
            assert(b0 == bayer2(xb & 1, yb & 1) && b1 == bayer2((xb >> 1) & 1, (yb >> 1) & 1) && b2 == bayer2(
                (xb >> 2) & 1,
                (yb >> 2) & 1,
            )) by (bit_vector)
                requires
                    b0 == (((xb ^ yb) & 1) << 1) | (yb & 1),
                    b1 == ((((xb >> 1) ^ (yb >> 1)) & 1) << 1) | ((yb >> 1) & 1),
                    b2 == ((((xb >> 2) ^ (yb >> 2)) & 1) << 1) | ((yb >> 2) & 1),
            ;
            (b0 << 4) | (b1 << 2) | b2
        },
    }
}

/// Each ordered-dither matrix holds every threshold level exactly once:
/// the 4x4 matrix takes the values 0 to 15 and the 8x8 one 0 to 63, and
/// no two cells of a matrix share a value.
pub proof fn lemma_bayer_matrices_are_permutations()
    ensures
        forall|x: u8, y: u8| x < 4 && y < 4 ==> #[trigger] bayer4(x, y) < 16,
        forall|x1: u8, y1: u8, x2: u8, y2: u8|
            x1 < 4 && y1 < 4 && x2 < 4 && y2 < 4 && #[trigger] bayer4(x1, y1) == #[trigger] bayer4(x2, y2) ==> x1
                == x2 && y1 == y2,
        forall|x: u8, y: u8| x < 8 && y < 8 ==> #[trigger] bayer8(x, y) < 64,
        forall|x1: u8, y1: u8, x2: u8, y2: u8|
            x1 < 8 && y1 < 8 && x2 < 8 && y2 < 8 && #[trigger] bayer8(x1, y1) == #[trigger] bayer8(x2, y2) ==> x1
                == x2 && y1 == y2,
{
    lemma_bayer4_permutation();
    lemma_bayer8_permutation();
}

proof fn lemma_bayer4_permutation()
    by (bit_vector)
    ensures
        forall|x: u8, y: u8| x < 4 && y < 4 ==> #[trigger] bayer4(x, y) < 16,
        forall|x1: u8, y1: u8, x2: u8, y2: u8|
            x1 < 4 && y1 < 4 && x2 < 4 && y2 < 4 && #[trigger] bayer4(x1, y1) == #[trigger] bayer4(x2, y2) ==> x1
                == x2 && y1 == y2,
{
}

proof fn lemma_bayer8_permutation()
    by (bit_vector)
    ensures
        forall|x: u8, y: u8| x < 8 && y < 8 ==> #[trigger] bayer8(x, y) < 64,
        forall|x1: u8, y1: u8, x2: u8, y2: u8|
            x1 < 8 && y1 < 8 && x2 < 8 && y2 < 8 && #[trigger] bayer8(x1, y1) == #[trigger] bayer8(x2, y2) ==> x1
                == x2 && y1 == y2,
{
}

} // verus!
