use vstd::prelude::*;

verus! {

/// The transfer curve a soft clipper uses.
#[derive(Debug, Clone, Copy, PartialEq, Eq, Structural)]
pub enum SoftClipperMode {
    /// `sign(x) * ln(1 + drive * |x|) / ln(1 + drive)`.
    Logarithmic,
    /// Linear up to the threshold, then a cubic knee up to full scale.
    CubicBand,
}

} // verus!
