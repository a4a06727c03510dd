use vstd::arithmetic::div_mod::{lemma_fundamental_div_mod, lemma_mod_multiples_basic};
use vstd::prelude::*;

verus! {

/// How a new sample value is interpolated between the oversampled points
/// that the sinc bank provides.
#[derive(Clone, Copy, Debug, PartialEq, Eq, Structural)]
pub enum InterpolationType {
    /// Fit a cubic polynomial through the four nearest oversampled points.
    Cubic,
    /// Take the weighted average of the two nearest oversampled points.
    Linear,
    /// Pick the single nearest oversampled point.
    Nearest,
}

impl InterpolationType {
    /// How many oversampled points the interpolation reads per output frame.
    pub open spec fn point_count(self) -> usize {
        match self {
            InterpolationType::Cubic => 4,
            InterpolationType::Linear => 2,
            InterpolationType::Nearest => 1,
        }
    }

    /// The number of sinc convolutions an output frame costs in this mode.
    pub fn points_needed(&self) -> (n: usize)
        ensures
            n == self.point_count(),
    {
        match self {
            InterpolationType::Cubic => 4,
            InterpolationType::Linear => 2,
            InterpolationType::Nearest => 1,
        }
    }
}

/// Round a requested sinc kernel length up to the next multiple of eight.
///
/// The stored kernel length is always a multiple of eight so that the
/// convolution can run as an eight-wide unrolled accumulator.
pub fn rounded_sinc_len(requested: usize) -> (len: usize)
    requires
        requested + 7 <= usize::MAX,
    ensures
        len % 8 == 0,
        requested <= len,
        len < requested + 8,
{
    let quot = (requested + 7) / 8;
    proof {
        lemma_fundamental_div_mod(requested as int + 7, 8);
        lemma_mod_multiples_basic(quot as int, 8);
    }
    quot * 8
}

} // verus!
