//! Photon-garden ray tracing: the discrete core.
//!
//! Photons are traced through a two-dimensional scene and their paths are
//! accumulated into an image. The tracer computes in binary64 arithmetic;
//! this crate holds what it decides without computing: which of two
//! numbers is the lesser, which object a photon hits first, where it
//! leaves the viewport, what a surface does with it, how long its path may
//! become, which pixel a place falls into, which of 256 levels an intensity
//! is exported as. It also holds the deterministic bit source that the
//! renders are reproduced from, and the messages of the worker pipeline.
//!
//! Numbers come in and go out as their bit patterns (see `key`).

pub mod geom;
pub mod image;
pub mod key;
pub mod material;
pub mod object;
pub mod plumbing;
pub mod prng;
pub mod ray;
pub mod sampler;
pub mod scene;
pub mod spectrum;
