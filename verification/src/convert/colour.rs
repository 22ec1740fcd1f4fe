//! The colour-distance metrics a conversion can be asked to use. The
//! metric arithmetic itself is floating point and is not part of this
//! library.
use vstd::prelude::*;

verus! {

/// Which colour-distance metric a conversion uses.
#[derive(Debug, Clone, Copy, PartialEq, Eq, Structural)]
pub enum Metric {
    /// Distances in OKLab (perceptually uniform; the default).
    OkLab,
    /// Weighted squared distance in linear RGB: `3dr^2 + 4dg^2 + 2db^2`.
    WeightedRgb,
    /// Euclidean squared distance in BT.601 YUV computed from linear RGB.
    Yuv,
}

} // verus!
