//! The conditions under which a scene can be rendered at all, and the
//! choice of the light that emits the next photon.
//!
//! A light is chosen with the chance that its power gives it. A threshold
//! is drawn below the total power of the scene; the powers of the lights
//! are then drawn and summed one after another, and the first light at
//! which the running sum meets the threshold is taken. Drawing and
//! summing compute, and are done by the caller; what follows from each
//! sum is decided here. The threshold and the sums are given by their bit
//! patterns (see `key`).

use crate::key::{at_least, not_less};
use vstd::prelude::*;

verus! {

/// What follows once the power of a light has been added to the running
/// sum.
#[derive(Clone, Copy, Debug, PartialEq, Eq, Structural)]
pub enum Choice {
    /// The light at this place emits the photon.
    Taken(usize),
    /// The threshold is not met: the power of the light at this place is
    /// to be drawn and added next.
    Next(usize),
}

/// What follows for a scene of `lights` lights once the power of the
/// light at `index` has been added: that light is taken if the sum meets
/// the threshold, and also if it is the last, as rounding may keep the
/// sum of all powers below the threshold; else the next light is tried.
pub open spec fn choice(lights: usize, index: usize, threshold: u64, sum: u64) -> Option<Choice> {
    if index >= lights {
        None
    } else if at_least(sum, threshold) || index + 1 == lights {
        Some(Choice::Taken(index))
    } else {
        Some(Choice::Next((index + 1) as usize))
    }
}

/// Why a render cannot go ahead.
#[derive(Clone, Copy, Debug, PartialEq, Eq, Structural)]
pub enum SceneError {
    /// The scene has no light, so no photon could ever be emitted.
    NoLights,
    /// The seed is zero, on which the scene's generator fails.
    ZeroSeed,
    /// A photon met no object and no edge of the viewport: it was emitted
    /// outside the viewport.
    OutsideViewport,
}

impl SceneError {
    /// The sentence that tells of this error.
    pub open spec fn sentence(self) -> Seq<char> {
        match self {
            SceneError::NoLights => "Scene has no lights"@,
            SceneError::ZeroSeed => "A seed of 0 cannot be used, please try something else"@,
            SceneError::OutsideViewport => "A ray was emitted outside the viewport"@,
        }
    }

    /// A sentence for the person who configured the scene.
    pub fn message(&self) -> (text: &'static str)
        ensures
            text@ == self.sentence(),
    {
        match self {
            SceneError::NoLights => "Scene has no lights",
            SceneError::ZeroSeed => "A seed of 0 cannot be used, please try something else",
            SceneError::OutsideViewport => "A ray was emitted outside the viewport",
        }
    }
}

/// Checks, before the first photon is traced, that the scene has a light
/// to emit it. A scene without lights is refused rather than rendered
/// black.
pub fn check_lights(lights: usize) -> (r: Result<(), SceneError>)
    ensures
        lights == 0 ==> r == Err::<(), SceneError>(SceneError::NoLights),
        lights > 0 ==> r == Ok::<(), SceneError>(()),
{
    if lights == 0 {
        Err(SceneError::NoLights)
    } else {
        Ok(())
    }
}

/// Decides what follows once the power of the light at `index` has been
/// added to the running sum. There is nothing to decide, and `None` is
/// returned, where the scene has no light at `index`.
pub fn after_power(lights: usize, index: usize, threshold: u64, sum: u64) -> (c: Option<Choice>)
    ensures
        c == choice(lights, index, threshold, sum),
{
    if index >= lights {
        None
    } else if not_less(sum, threshold) || index + 1 == lights {
        Some(Choice::Taken(index))
    } else {
        Some(Choice::Next(index + 1))
    }
}

/// Checks that a seed can be given to the generator of the scene: every
/// seed but zero can.
pub fn check_seed(seed: u128) -> (r: Result<(), SceneError>)
    ensures
        seed == 0 ==> r == Err::<(), SceneError>(SceneError::ZeroSeed),
        seed != 0 ==> r == Ok::<(), SceneError>(()),
{
    if seed == 0 {
        Err(SceneError::ZeroSeed)
    } else {
        Ok(())
    }
}

/// The choice of a light ends: each light that is passed over leads to
/// the one after it, and the last light is taken whatever the sum.
pub proof fn lemma_choice_ends(lights: usize, index: usize, threshold: u64, sum: u64)
    requires
        index < lights,
    ensures
        choice(lights, index, threshold, sum) matches Some(Choice::Next(next)) ==> next == index
            + 1 && next < lights,
        choice(lights, index, threshold, sum) matches Some(Choice::Taken(taken)) ==> taken
            == index,
        index + 1 == lights ==> choice(lights, index, threshold, sum) == Some(
            Choice::Taken(index),
        ),
        choice(lights, index, threshold, sum) is Some,
{
}

} // verus!
