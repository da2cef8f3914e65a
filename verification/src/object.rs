//! Where a photon meets a line segment, and how far a segment can reach.
//!
//! The crossing of the photon's line of flight with the line of the
//! segment is found by solving a linear system. Its solution gives the
//! position of the crossing along the segment, as a fraction of the
//! segment's length, and the distance of the crossing from the photon's
//! origin. This module decides whether that crossing is a hit.
//!
//! The ends of a segment are drawn anew for each test, within bounds. The
//! places at which an end can come to lie along one axis are bounded by
//! the least and the greatest of the sums of a bound of the start and a
//! bound of the extent. This module picks those two.

use crate::key::{from_bits, is_nan, key_of, less, not_a_number, rank, ONE, ZERO};
use vstd::prelude::*;

verus! {

/// Whether the coordinate at `i` is the least: none is less, and of those
/// equal to it it comes first.
pub open spec fn is_least(values: Seq<u64>, i: int) -> bool {
    &&& 0 <= i < values.len()
    &&& forall|j: int| 0 <= j < values.len() ==> rank(values[i]) <= rank(#[trigger] values[j])
    &&& forall|j: int| 0 <= j < i ==> rank(values[i]) < rank(#[trigger] values[j])
}

/// Whether the coordinate at `i` is the greatest: none is greater, and of
/// those equal to it it comes last.
pub open spec fn is_greatest(values: Seq<u64>, i: int) -> bool {
    &&& 0 <= i < values.len()
    &&& forall|j: int| 0 <= j < values.len() ==> rank(#[trigger] values[j]) <= rank(values[i])
    &&& forall|j: int| i < j < values.len() ==> rank(#[trigger] values[j]) < rank(values[i])
}

/// Whether all of the coordinates are numbers.
pub open spec fn all_numbers(values: Seq<u64>) -> bool {
    forall|j: int| 0 <= j < values.len() ==> !not_a_number(#[trigger] values[j])
}

/// Whether a crossing is a hit: it lies on the segment, from its start
/// (position zero) to its end (position one), both included, and ahead of
/// the photon, at a distance above zero. The position and the distance
/// are given by their binary64 bit patterns.
pub open spec fn is_hit(position: u64, distance: u64) -> bool {
    &&& key_of(position) matches Some(a) && a <= ONE
    &&& key_of(distance) matches Some(d) && d > ZERO
}

/// Decides whether the crossing at `position` along a segment and at
/// `distance` from the origin of the photon is a hit.
pub fn accepts(position: u64, distance: u64) -> (hit: bool)
    ensures
        hit == is_hit(position, distance),
{
    let on_segment = match from_bits(position) {
        Some(a) => a <= ONE,
        None => false,
    };
    let ahead = match from_bits(distance) {
        Some(d) => d > ZERO,
        None => false,
    };
    on_segment && ahead
}

/// Finds the least and the greatest of the coordinates, given by their
/// bit patterns: the places that they would take first and last if they
/// were sorted, equal ones staying in their order. There are none where
/// there is no coordinate, or where one of them is not a number.
pub fn span(values: &[u64]) -> (ends: Option<(usize, usize)>)
    ensures
        ends is Some <==> values.len() > 0 && all_numbers(values@),
        ends matches Some((lo, hi)) ==> is_least(values@, lo as int) && is_greatest(
            values@,
            hi as int,
        ),
{
    if values.len() == 0 {
        return None;
    }
    if is_nan(values[0]) {
        return None;
    }
    let mut lo: usize = 0;
    let mut hi: usize = 0;
    let mut k: usize = 1;
    while k < values.len()
        invariant
            1 <= k <= values.len(),
            all_numbers(values@.take(k as int)),
            is_least(values@.take(k as int), lo as int),
            is_greatest(values@.take(k as int), hi as int),
        decreases values.len() - k,
    {
        if is_nan(values[k]) {
            return None;
        }
        if less(values[k], values[lo]) {
            lo = k;
        }
        if !less(values[k], values[hi]) {
            hi = k;
        }
        k = k + 1;
    }
    assert(values@.take(k as int) =~= values@);
    Some((lo, hi))
}

/// At most one coordinate is the least, and at most one the greatest.
pub proof fn lemma_span_unique(values: Seq<u64>, i: int, j: int)
    ensures
        is_least(values, i) && is_least(values, j) ==> i == j,
        is_greatest(values, i) && is_greatest(values, j) ==> i == j,
{
    if is_least(values, i) && is_least(values, j) {
        let a = values[i];
        let b = values[j];
        if i < j {
            assert(rank(b) < rank(a));
        }
        if j < i {
            assert(rank(a) < rank(b));
        }
    }
    if is_greatest(values, i) && is_greatest(values, j) {
        let a = values[i];
        let b = values[j];
        if i < j {
            assert(rank(b) < rank(a));
        }
        if j < i {
            assert(rank(a) < rank(b));
        }
    }
}

} // verus!
