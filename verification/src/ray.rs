//! The decisions along the path of one photon.
//!
//! A photon flies from its origin to the nearest object that lies far
//! enough ahead, or, where there is none, to the point at which it leaves
//! the viewport. It may then go on in a new direction, for as long as its
//! bounce budget lasts and no surface absorbs it.
//!
//! Distances are compared as order keys (see `key`).

use crate::key::{magnitude, HIDDEN, LARGEST};
use crate::scene::SceneError;
use vstd::arithmetic::power2::{lemma2_to64_rest, lemma_pow2_adds, pow2};
use vstd::prelude::*;

verus! {

/// The bounce budget of a newly emitted photon.
pub const INITIAL_BOUNCES: u32 = 1000;

/// The order key of the least distance at which a hit counts: three world
/// units. Anything nearer is taken for the surface that the photon has
/// just left.
pub const MIN_HIT_DISTANCE: u64 = 0x4008_0000_0000_0000;

/// The order key of the largest finite distance. A hit counts only if it
/// is nearer than this.
pub const UNREACHABLE: u64 = LARGEST;

/// Whether a candidate is a hit that counts.
pub open spec fn admissible(candidate: Option<u64>) -> bool {
    candidate matches Some(d) && MIN_HIT_DISTANCE <= d < UNREACHABLE
}

/// Whether the candidate at `i` is the nearest hit: it counts, none that
/// counts is nearer, and of those equally near it comes first.
pub open spec fn is_nearest(candidates: Seq<Option<u64>>, i: int) -> bool {
    &&& 0 <= i < candidates.len()
    &&& admissible(candidates[i])
    &&& forall|j: int|
        0 <= j < candidates.len() && admissible(#[trigger] candidates[j]) ==> candidates[i]->0
            <= candidates[j]->0
    &&& forall|j: int|
        0 <= j < i && admissible(#[trigger] candidates[j]) ==> candidates[i]->0
            < candidates[j]->0
}

/// Whether `d` is the furthest of the crossings.
pub open spec fn is_furthest(crossings: Seq<Option<u64>>, d: u64) -> bool {
    &&& exists|j: int| 0 <= j < crossings.len() && #[trigger] crossings[j] == Some(d)
    &&& forall|j: int|
        0 <= j < crossings.len() ==> ((#[trigger] crossings[j]) matches Some(e) ==> e <= d)
}

/// The budget that is left after `n` further bounces, none of them
/// absorbed, of a photon whose budget is `bounces`; `None` once the path
/// has ended.
pub open spec fn budget_after(bounces: u32, n: nat) -> Option<u32>
    decreases n,
{
    if n == 0 {
        Some(bounces)
    } else {
        match budget_after(bounces, (n - 1) as nat) {
            Some(b) => if b > 1 {
                Some((b - 1) as u32)
            } else {
                None
            },
            None => None,
        }
    }
}

/// Picks the object that the photon hits. `candidates` holds, for each
/// object in scene order, the distance at which the photon would meet it,
/// or `None` if it misses. The result is the index of the nearest object
/// among those at least `MIN_HIT_DISTANCE` away; of two equally near the
/// earlier one wins.
pub fn nearest_hit(candidates: &[Option<u64>]) -> (hit: Option<usize>)
    ensures
        hit matches Some(i) ==> is_nearest(candidates@, i as int),
        hit is None <==> forall|j: int|
            0 <= j < candidates.len() ==> !admissible(#[trigger] candidates[j]),
{
    let mut best: Option<usize> = None;
    let mut best_distance: u64 = UNREACHABLE;
    let mut i: usize = 0;
    while i < candidates.len()
        invariant
            i <= candidates.len(),
            best is None ==> best_distance == UNREACHABLE,
            best is None <==> forall|j: int| 0 <= j < i ==> !admissible(#[trigger] candidates[j]),
            best matches Some(b) ==> {
                &&& is_nearest(candidates@.take(i as int), b as int)
                &&& candidates[b as int] == Some(best_distance)
            },
        decreases candidates.len() - i,
    {
        match candidates[i] {
            None => {},
            Some(d) => {
                if d >= MIN_HIT_DISTANCE && d < best_distance {
                    best = Some(i);
                    best_distance = d;
                }
            },
        }
        i = i + 1;
    }
    assert(candidates@.take(i as int) =~= candidates@);
    best
}

/// Picks the point at which the photon leaves the viewport. `crossings`
/// holds, for each edge, the distance at which the photon crosses it ahead
/// of its origin, or `None` if it does not. The result is the largest of
/// them: the edges bound the free space, so the last one crossed is the
/// way out.
pub fn furthest_exit(crossings: &[Option<u64>]) -> (exit: Option<u64>)
    ensures
        exit matches Some(d) ==> is_furthest(crossings@, d),
        exit is None <==> forall|j: int| 0 <= j < crossings.len() ==> #[trigger] crossings[j] is None,
{
    let mut furthest: Option<u64> = None;
    let ghost mut at: int = 0;
    let mut i: usize = 0;
    while i < crossings.len()
        invariant
            i <= crossings.len(),
            furthest is None <==> forall|j: int| 0 <= j < i ==> #[trigger] crossings[j] is None,
            furthest matches Some(d) ==> {
                &&& 0 <= at < i
                &&& crossings[at] == Some(d)
                &&& forall|j: int|
                    0 <= j < i ==> ((#[trigger] crossings[j]) matches Some(e) ==> e <= d)
            },
        decreases crossings.len() - i,
    {
        match crossings[i] {
            None => {},
            Some(d) => {
                let further = match furthest {
                    None => true,
                    Some(m) => d > m,
                };
                if further {
                    furthest = Some(d);
                    proof {
                        at = i as int;
                    }
                }
            },
        }
        i = i + 1;
    }
    furthest
}

/// Picks the point at which a photon that has hit no object leaves the
/// viewport. A photon that crosses no edge ahead of it was emitted
/// outside the viewport: the scene is inconsistent, which is reported
/// and not passed over.
pub fn viewport_exit(crossings: &[Option<u64>]) -> (exit: Result<u64, SceneError>)
    ensures
        exit matches Ok(d) ==> is_furthest(crossings@, d),
        exit matches Err(e) ==> e == SceneError::OutsideViewport,
        exit is Err <==> forall|j: int| 0 <= j < crossings.len() ==> #[trigger] crossings[j] is None,
{
    match furthest_exit(crossings) {
        Some(d) => Ok(d),
        None => Err(SceneError::OutsideViewport),
    }
}

/// Whether a photon with this budget that has hit an object may bounce,
/// so that the material of the object is to be asked.
pub fn may_bounce(bounces: u32) -> (b: bool)
    ensures
        b == (bounces > 1),
{
    bounces > 1
}

/// The budget of the photon that goes on from a hit, or `None` where the
/// path ends there: because the budget is spent, or because the material
/// gave the photon no new direction and so absorbed it.
pub fn continuation(bounces: u32, redirected: bool) -> (next: Option<u32>)
    ensures
        next is Some <==> bounces > 1 && redirected,
        next matches Some(b) ==> b == bounces - 1,
        redirected ==> next == budget_after(bounces, 1),
{
    reveal_with_fuel(budget_after, 2);
    if bounces > 1 && redirected {
        Some(bounces - 1)
    } else {
        None
    }
}

/// `MIN_HIT_DISTANCE` stands for three.
pub proof fn lemma_min_hit_distance()
    ensures
        magnitude(MIN_HIT_DISTANCE) == 3 * pow2(1074),
{
    lemma2_to64_rest();
    lemma_pow2_adds(51, 1023);
    assert(MIN_HIT_DISTANCE / HIDDEN == 1024);
    assert(MIN_HIT_DISTANCE % HIDDEN == 0x8_0000_0000_0000);
    let p = pow2(1023);
    assert((0x10_0000_0000_0000 + 0x8_0000_0000_0000) * p == 3 * (0x8_0000_0000_0000 * p))
        by (nonlinear_arith);
}

/// At most one distance is the furthest of the crossings.
pub proof fn lemma_furthest_unique(crossings: Seq<Option<u64>>, d: u64, e: u64)
    requires
        is_furthest(crossings, d),
        is_furthest(crossings, e),
    ensures
        d == e,
{
}

/// At most one candidate is the nearest hit.
pub proof fn lemma_nearest_unique(candidates: Seq<Option<u64>>, i: int, j: int)
    requires
        is_nearest(candidates, i),
        is_nearest(candidates, j),
    ensures
        i == j,
{
}

/// While the path lasts, each bounce takes one from the budget.
pub proof fn lemma_budget_counts_down(bounces: u32, n: nat)
    ensures
        budget_after(bounces, n) is Some <==> n == 0 || n < bounces,
        budget_after(bounces, n) matches Some(b) ==> b == bounces - n,
    decreases n,
{
    if n > 0 {
        lemma_budget_counts_down(bounces, (n - 1) as nat);
    }
}

/// The path of a photon is finite: a newly emitted photon makes fewer than
/// a thousand bounces.
pub proof fn lemma_path_ends(n: nat)
    requires
        n >= INITIAL_BOUNCES,
    ensures
        budget_after(INITIAL_BOUNCES, n) is None,
{
    lemma_budget_counts_down(INITIAL_BOUNCES, n);
}

} // verus!
