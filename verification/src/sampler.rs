//! What is known of a stochastic value before it is drawn.
//!
//! A sampler gives a number at each draw: always the same one, one from a
//! range, or a wavelength from a blackbody curve. Drawing computes; the
//! bounds within which every draw lies are known without drawing and
//! without a random source. Numbers are held as their bit patterns (see
//! `key`).

use crate::key::{at_least, not_a_number, not_less, LARGEST};
use vstd::prelude::*;

verus! {

/// The bit pattern of the least finite number.
pub const LOWEST: u64 = 0xffef_ffff_ffff_ffff;

/// A stochastically sampled value.
#[derive(Clone, Copy, Debug, PartialEq, Eq, Structural)]
pub enum Sample {
    /// A constant value.
    Constant(u64),
    /// A blackbody curve of the given temperature.
    Blackbody(u64),
    /// A value sampled linearly from the given range. The larger value
    /// comes first.
    Range(u64, u64),
}

impl Sample {
    /// Whether the sampler can be drawn from: the ends of a range are in
    /// order, the larger first.
    pub open spec fn valid(self) -> bool {
        self matches Sample::Range(upper, lower) ==> at_least(upper, lower)
    }

    /// The lower and the upper bound, both included, of what the sampler
    /// gives. A blackbody curve is bounded by the finite numbers only.
    pub open spec fn bounds_spec(self) -> (u64, u64) {
        match self {
            Sample::Constant(value) => (value, value),
            Sample::Range(upper, lower) => (lower, upper),
            Sample::Blackbody(_) => (LOWEST, LARGEST),
        }
    }

    /// Decides whether the sampler can be drawn from.
    pub fn is_valid(&self) -> (v: bool)
        ensures
            v == self.valid(),
    {
        match self {
            Sample::Range(upper, lower) => not_less(*upper, *lower),
            _ => true,
        }
    }

    /// Returns the lower and the upper bound of this sampler. No random
    /// source is consulted.
    pub fn bounds(&self) -> (b: (u64, u64))
        ensures
            b == self.bounds_spec(),
    {
        match self {
            Sample::Constant(value) => (*value, *value),
            Sample::Range(upper, lower) => (*lower, *upper),
            Sample::Blackbody(_) => (LOWEST, LARGEST),
        }
    }
}

/// The bounds of a sampler that can be drawn from are in order, and are
/// numbers unless the sampler is a constant that is none.
pub proof fn lemma_bounds_in_order(s: Sample)
    requires
        s.valid(),
        !(s matches Sample::Constant(value) && not_a_number(value)),
    ensures
        at_least(s.bounds_spec().1, s.bounds_spec().0),
{
}

} // verus!
