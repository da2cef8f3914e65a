//! What becomes of a photon that meets a surface.
//!
//! A surface diffuses, reflects or transmits a photon with given
//! probabilities and absorbs it otherwise. One uniform draw decides, held
//! against the running sums of the three probabilities in that order.
//!
//! The draw and the sums are non-negative magnitudes, compared as order
//! keys (see `key`).

use crate::key::{from_bits, key_of, ONE};
use vstd::prelude::*;

verus! {

/// The outcome of an interaction.
#[derive(Clone, Copy, Debug, PartialEq, Eq, Structural)]
pub enum Interaction {
    /// The photon leaves in a uniformly random direction.
    Diffuse,
    /// The photon is mirrored about the surface normal.
    Specular,
    /// The photon goes straight through.
    Transmit,
    /// The photon ends here.
    Absorb,
}

/// The running sums of the probabilities of a surface, as order keys:
/// of diffusion; of diffusion or reflection; of diffusion, reflection or
/// transmission. A sum that no draw can reach (one below zero, or one that
/// is not a number) is `None`.
#[derive(Clone, Copy, Debug)]
pub struct Thresholds {
    pub diffuse: Option<u64>,
    pub specular: Option<u64>,
    pub transmit: Option<u64>,
}

/// Whether the number with the binary64 bit pattern `bits` is more than
/// one.
pub open spec fn exceeds_one(bits: u64) -> bool {
    key_of(bits) matches Some(k) && k > ONE
}

/// Whether the draw `f` lies at or below `threshold`.
pub open spec fn within(f: u64, threshold: Option<u64>) -> bool {
    threshold matches Some(k) && f <= k
}

/// The interaction that the draw `f` selects: the first threshold, in the
/// order diffuse, specular, transmit, that the draw does not exceed.
pub open spec fn selected(t: Thresholds, f: u64) -> Interaction {
    if within(f, t.diffuse) {
        Interaction::Diffuse
    } else if within(f, t.specular) {
        Interaction::Specular
    } else if within(f, t.transmit) {
        Interaction::Transmit
    } else {
        Interaction::Absorb
    }
}

fn reaches(f: u64, threshold: Option<u64>) -> (b: bool)
    ensures
        b == within(f, threshold),
{
    match threshold {
        Some(k) => f <= k,
        None => false,
    }
}

impl Thresholds {
    /// The thresholds of a surface from the binary64 bit patterns of its
    /// three running sums. A surface whose probabilities sum to more than
    /// one is refused.
    pub fn from_sums(diffuse: u64, specular: u64, transmit: u64) -> (t: Option<Thresholds>)
        ensures
            t is None <==> exceeds_one(transmit),
            t matches Some(th) ==> th.diffuse == key_of(diffuse) && th.specular == key_of(specular)
                && th.transmit == key_of(transmit),
    {
        let total = from_bits(transmit);
        let excessive = match total {
            Some(k) => k > ONE,
            None => false,
        };
        if excessive {
            None
        } else {
            Some(Thresholds { diffuse: from_bits(diffuse), specular: from_bits(specular), transmit: total })
        }
    }

    /// Decides the interaction for a uniform draw from zero up to one,
    /// given by its order key `f`.
    pub fn dispatch(&self, f: u64) -> (outcome: Interaction)
        ensures
            outcome == selected(*self, f),
    {
        if reaches(f, self.diffuse) {
            Interaction::Diffuse
        } else if reaches(f, self.specular) {
            Interaction::Specular
        } else if reaches(f, self.transmit) {
            Interaction::Transmit
        } else {
            Interaction::Absorb
        }
    }
}

/// With thresholds that rise from one to the next, each interaction owns
/// an interval of the draw: up to the first threshold the photon is
/// diffused, above it and up to the second it is reflected, above that and
/// up to the third it is transmitted, and beyond the third it is absorbed.
pub proof fn lemma_intervals(d: u64, r: u64, t: u64, f: u64)
    requires
        d <= r <= t,
    ensures
        ({
            let th = Thresholds { diffuse: Some(d), specular: Some(r), transmit: Some(t) };
            &&& selected(th, f) == Interaction::Diffuse <==> f <= d
            &&& selected(th, f) == Interaction::Specular <==> d < f <= r
            &&& selected(th, f) == Interaction::Transmit <==> r < f <= t
            &&& selected(th, f) == Interaction::Absorb <==> t < f
        }),
{
}

/// A surface that diffuses with probability one never absorbs: every draw
/// below one is diffused.
pub proof fn lemma_certain_diffusion(t: Thresholds, f: u64)
    requires
        t.diffuse matches Some(k) && k >= ONE,
        f < ONE,
    ensures
        selected(t, f) == Interaction::Diffuse,
{
}

} // verus!
