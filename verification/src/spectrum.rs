//! Where a wavelength and a draw fall in the tables of the spectrum.
//!
//! The colour of a wavelength is read from a table over the visible
//! range, and a wavelength of a blackbody curve from the table of its
//! cumulative distribution. Reading between two entries computes, and is
//! done by the caller; which entries are read is decided here. Numbers
//! are given by their bit patterns (see `key`).

use crate::key::{at_least, below, is_zero, key_of, less, not_less, ZERO};
use vstd::prelude::*;

verus! {

/// The kind of light that a wavelength stands for.
#[derive(Clone, Copy, Debug, PartialEq, Eq, Structural)]
pub enum Band {
    /// The wavelength zero stands for white light of no single colour.
    White,
    /// The wavelength lies outside the visible range and has no colour.
    Invisible,
    /// The colour of the wavelength is read from the table.
    Visible,
}

/// The band of the wavelength `nm`, where the visible range runs from
/// `first` to `last`, both included.
pub open spec fn band_of(nm: u64, first: u64, last: u64) -> Band {
    if key_of(nm) == Some(ZERO) {
        Band::White
    } else if below(nm, first) || below(last, nm) {
        Band::Invisible
    } else {
        Band::Visible
    }
}

/// Whether the entry at `i` of a cumulative distribution is the first,
/// not counting the entry at zero, that is at least `noise`.
pub open spec fn is_bracket(cdf: Seq<u64>, noise: u64, i: int) -> bool {
    &&& 1 <= i < cdf.len()
    &&& at_least(cdf[i], noise)
    &&& forall|j: int| 1 <= j < i ==> !at_least(#[trigger] cdf[j], noise)
}

/// Decides the band of a wavelength.
pub fn band(nm: u64, first: u64, last: u64) -> (b: Band)
    ensures
        b == band_of(nm, first, last),
{
    if is_zero(nm) {
        Band::White
    } else if less(nm, first) || less(last, nm) {
        Band::Invisible
    } else {
        Band::Visible
    }
}

/// Finds the entry of a cumulative distribution up to which a uniform
/// draw reaches: the first entry after the one at zero that is at least
/// `noise`. The draw lies between the entry before it and that entry.
/// There is none where the draw is beyond the whole table.
pub fn bracket(cdf: &[u64], noise: u64) -> (found: Option<usize>)
    ensures
        found matches Some(i) ==> is_bracket(cdf@, noise, i as int),
        found is None <==> forall|j: int| 1 <= j < cdf.len() ==> !at_least(#[trigger] cdf[j], noise),
{
    let mut i: usize = 1;
    while i < cdf.len()
        invariant
            1 <= i,
            forall|j: int| 1 <= j < i && j < cdf.len() ==> !at_least(#[trigger] cdf[j], noise),
        decreases cdf.len() - i,
    {
        if not_less(cdf[i], noise) {
            return Some(i);
        }
        i = i + 1;
    }
    None
}

/// At most one entry is the one up to which a draw reaches.
pub proof fn lemma_bracket_unique(cdf: Seq<u64>, noise: u64, i: int, j: int)
    requires
        is_bracket(cdf, noise, i),
        is_bracket(cdf, noise, j),
    ensures
        i == j,
{
    if i < j {
        assert(!at_least(cdf[i], noise));
    }
    if j < i {
        assert(!at_least(cdf[j], noise));
    }
}

} // verus!
