//! Points and axis-aligned rectangles, as far as they are compared.
//!
//! A coordinate is held as the binary64 bit pattern of its number. Nothing
//! here computes with coordinates: they are compared with one another (see
//! `key`) and picked from. A rectangle that holds nothing yet is written
//! with coordinates that are not numbers; growing it to include a point
//! then gives the rectangle at that point.

use crate::key::{at_least, below, is_nan, less, not_a_number, not_less, rank, NOT_A_NUMBER};
use vstd::prelude::*;

verus! {

/// A point, by the bit patterns of its coordinates.
#[derive(Clone, Copy, Debug, PartialEq, Eq, Structural)]
pub struct Point {
    pub x: u64,
    pub y: u64,
}

/// An axis-aligned rectangle, by its corner of least and its corner of
/// greatest coordinates.
#[derive(Clone, Copy, Debug, PartialEq, Eq, Structural)]
pub struct Rect {
    pub top_left: Point,
    pub bottom_right: Point,
}

/// The lesser of two coordinates, where one that is not a number gives
/// way to the other. Of two equal coordinates it is the second.
pub open spec fn lesser(a: u64, b: u64) -> u64 {
    if not_a_number(a) {
        b
    } else if not_a_number(b) {
        a
    } else if below(a, b) {
        a
    } else {
        b
    }
}

/// The greater of two coordinates, where one that is not a number gives
/// way to the other. Of two equal coordinates it is the second.
pub open spec fn greater(a: u64, b: u64) -> u64 {
    if not_a_number(a) {
        b
    } else if not_a_number(b) {
        a
    } else if below(b, a) {
        a
    } else {
        b
    }
}

fn min(a: u64, b: u64) -> (m: u64)
    ensures
        m == lesser(a, b),
{
    if is_nan(a) {
        return b;
    }
    if is_nan(b) {
        return a;
    }
    if less(a, b) {
        return a;
    }
    b
}

fn max(a: u64, b: u64) -> (m: u64)
    ensures
        m == greater(a, b),
{
    if is_nan(a) {
        return b;
    }
    if is_nan(b) {
        return a;
    }
    if less(b, a) {
        return a;
    }
    b
}

impl Point {
    /// Whether both coordinates are numbers.
    pub open spec fn numeric(self) -> bool {
        !not_a_number(self.x) && !not_a_number(self.y)
    }
}

impl Rect {
    /// Whether the rectangle holds nothing yet: one of its coordinates is
    /// not a number.
    pub open spec fn null_spec(self) -> bool {
        not_a_number(self.top_left.x) || not_a_number(self.top_left.y) || not_a_number(
            self.bottom_right.x,
        ) || not_a_number(self.bottom_right.y)
    }

    /// Whether the corners are in order: all coordinates are numbers, the
    /// left edge is not to the right of the right edge, and the top edge
    /// not below the bottom edge.
    pub open spec fn ordered(self) -> bool {
        &&& !self.null_spec()
        &&& rank(self.top_left.x) <= rank(self.bottom_right.x)
        &&& rank(self.top_left.y) <= rank(self.bottom_right.y)
    }

    /// The rectangle grown to include a point.
    pub open spec fn expanded(self, p: Point) -> Rect {
        Rect {
            top_left: Point { x: lesser(self.top_left.x, p.x), y: lesser(self.top_left.y, p.y) },
            bottom_right: Point {
                x: greater(self.bottom_right.x, p.x),
                y: greater(self.bottom_right.y, p.y),
            },
        }
    }

    /// Whether a point lies in the rectangle, the left and the top edge
    /// included, the right and the bottom edge not.
    pub open spec fn holds(self, p: Point) -> bool {
        &&& at_least(p.x, self.top_left.x)
        &&& below(p.x, self.bottom_right.x)
        &&& at_least(p.y, self.top_left.y)
        &&& below(p.y, self.bottom_right.y)
    }

    /// Whether a point lies in the rectangle or on one of its edges.
    pub open spec fn covers(self, p: Point) -> bool {
        &&& rank(self.top_left.x) <= rank(p.x) <= rank(self.bottom_right.x)
        &&& rank(self.top_left.y) <= rank(p.y) <= rank(self.bottom_right.y)
    }

    /// Whether two rectangles meet: neither lies wholly to one side of
    /// the other. Rectangles that share an edge meet.
    pub open spec fn meets(self, other: Rect) -> bool {
        !(below(self.bottom_right.x, other.top_left.x) || below(
            other.bottom_right.x,
            self.top_left.x,
        ) || below(self.bottom_right.y, other.top_left.y) || below(
            other.bottom_right.y,
            self.top_left.y,
        ))
    }

    /// The rectangle that holds nothing yet.
    pub fn null() -> (r: Rect)
        ensures
            r.null_spec(),
            r.top_left.x == NOT_A_NUMBER && r.top_left.y == NOT_A_NUMBER,
            r.bottom_right.x == NOT_A_NUMBER && r.bottom_right.y == NOT_A_NUMBER,
    {
        Rect {
            top_left: Point { x: NOT_A_NUMBER, y: NOT_A_NUMBER },
            bottom_right: Point { x: NOT_A_NUMBER, y: NOT_A_NUMBER },
        }
    }

    /// The rectangle that is a single point.
    pub fn null_at(point: &Point) -> (r: Rect)
        ensures
            r.top_left == *point,
            r.bottom_right == *point,
    {
        Rect { top_left: *point, bottom_right: *point }
    }

    /// The least rectangle with both points on its edges.
    pub fn from_points(p1: &Point, p2: &Point) -> (r: Rect)
        ensures
            r == (Rect { top_left: *p1, bottom_right: *p1 }).expanded(*p2),
    {
        let mut r = Rect::null_at(p1);
        r.expand_to_include(p2);
        r
    }

    /// The coordinate of the left edge.
    pub fn left(&self) -> (c: u64)
        ensures
            c == self.top_left.x,
    {
        self.top_left.x
    }

    /// The coordinate of the right edge.
    pub fn right(&self) -> (c: u64)
        ensures
            c == self.bottom_right.x,
    {
        self.bottom_right.x
    }

    /// The coordinate of the top edge.
    pub fn top(&self) -> (c: u64)
        ensures
            c == self.top_left.y,
    {
        self.top_left.y
    }

    /// The coordinate of the bottom edge.
    pub fn bottom(&self) -> (c: u64)
        ensures
            c == self.bottom_right.y,
    {
        self.bottom_right.y
    }

    /// The corner of least coordinates.
    pub fn top_left(&self) -> (p: Point)
        ensures
            p == self.top_left,
    {
        self.top_left
    }

    /// The corner of greatest coordinates.
    pub fn bottom_right(&self) -> (p: Point)
        ensures
            p == self.bottom_right,
    {
        self.bottom_right
    }

    /// The corner on the left and the bottom edge.
    pub fn bottom_left(&self) -> (p: Point)
        ensures
            p == (Point { x: self.top_left.x, y: self.bottom_right.y }),
    {
        Point { x: self.top_left().x, y: self.bottom_right().y }
    }

    /// The corner on the right and the top edge.
    pub fn top_right(&self) -> (p: Point)
        ensures
            p == (Point { x: self.bottom_right.x, y: self.top_left.y }),
    {
        Point { x: self.bottom_right().x, y: self.top_left().y }
    }

    /// This rectangle grown to include a point.
    pub fn expanded_by(&self, point: &Point) -> (r: Rect)
        ensures
            r == self.expanded(*point),
    {
        let mut r = *self;
        r.expand_to_include(point);
        r
    }

    /// Whether the rectangle holds nothing yet.
    pub fn is_null(&self) -> (n: bool)
        ensures
            n == self.null_spec(),
    {
        is_nan(self.top_left.x) || is_nan(self.top_left.y) || is_nan(self.bottom_right.x)
            || is_nan(self.bottom_right.y)
    }

    /// Grows the rectangle, if need be, until the point lies in it or on
    /// one of its edges.
    pub fn expand_to_include(&mut self, point: &Point)
        ensures
            *final(self) == old(self).expanded(*point),
    {
        self.top_left.x = min(self.top_left.x, point.x);
        self.top_left.y = min(self.top_left.y, point.y);

        self.bottom_right.x = max(self.bottom_right.x, point.x);
        self.bottom_right.y = max(self.bottom_right.y, point.y);
    }

    /// The least rectangle around this one and another.
    pub fn union_with(&self, other: &Rect) -> (r: Rect)
        ensures
            r == self.expanded(other.top_left).expanded(other.bottom_right),
    {
        let mut r = *self;
        r.expand_to_include(&other.top_left);
        r.expand_to_include(&other.bottom_right);
        r
    }

    /// Whether a point lies in the rectangle, the left and the top edge
    /// included, the right and the bottom edge not.
    pub fn contains(&self, p: &Point) -> (c: bool)
        ensures
            c == self.holds(*p),
    {
        not_less(p.x, self.top_left.x) && less(p.x, self.bottom_right.x) && not_less(
            p.y,
            self.top_left.y,
        ) && less(p.y, self.bottom_right.y)
    }

    /// Whether this rectangle and another meet.
    pub fn does_intersect(&self, other: &Rect) -> (m: bool)
        ensures
            m == self.meets(*other),
    {
        let r1 = self;
        let r2 = other;

        !(less(r1.right(), r2.left()) || less(r2.right(), r1.left()) || less(
            r1.bottom(),
            r2.top(),
        ) || less(r2.bottom(), r1.top()))
    }
}

/// Growing the rectangle that holds nothing to include a point gives the
/// rectangle that is that point.
pub proof fn lemma_null_grows_to_point(r: Rect, p: Point)
    requires
        not_a_number(r.top_left.x),
        not_a_number(r.top_left.y),
        not_a_number(r.bottom_right.x),
        not_a_number(r.bottom_right.y),
    ensures
        r.expanded(p) == (Rect { top_left: p, bottom_right: p }),
{
}

/// The rectangle made from two points has its corners in order, takes
/// each of its coordinates from one of the two points, and covers both.
pub proof fn lemma_from_points(p1: Point, p2: Point)
    requires
        p1.numeric(),
        p2.numeric(),
    ensures
        ({
            let r = (Rect { top_left: p1, bottom_right: p1 }).expanded(p2);
            &&& r.ordered()
            &&& r.covers(p1)
            &&& r.covers(p2)
            &&& (r.top_left.x == p1.x || r.top_left.x == p2.x)
            &&& (r.top_left.y == p1.y || r.top_left.y == p2.y)
            &&& (r.bottom_right.x == p1.x || r.bottom_right.x == p2.x)
            &&& (r.bottom_right.y == p1.y || r.bottom_right.y == p2.y)
        }),
{
}

/// Growing keeps the corners in order: a rectangle whose corners are in
/// order still has them in order once grown to include a point, covers
/// that point, and covers whatever it covered before.
pub proof fn lemma_growing(r: Rect, p: Point, q: Point)
    requires
        r.ordered(),
        p.numeric(),
    ensures
        r.expanded(p).ordered(),
        r.expanded(p).covers(p),
        r.covers(q) ==> r.expanded(p).covers(q),
        r.covers(p) ==> r.expanded(p).covers(r.top_left) && r.expanded(p).covers(r.bottom_right),
{
}

/// The union of two rectangles whose corners are in order has its corners
/// in order and covers the corners of both.
pub proof fn lemma_union(a: Rect, b: Rect)
    requires
        a.ordered(),
        b.ordered(),
    ensures
        ({
            let u = a.expanded(b.top_left).expanded(b.bottom_right);
            &&& u.ordered()
            &&& u.covers(a.top_left)
            &&& u.covers(a.bottom_right)
            &&& u.covers(b.top_left)
            &&& u.covers(b.bottom_right)
        }),
{
    lemma_growing(a, b.top_left, a.top_left);
    lemma_growing(a, b.top_left, a.bottom_right);
    let g = a.expanded(b.top_left);
    lemma_growing(g, b.bottom_right, a.top_left);
    lemma_growing(g, b.bottom_right, a.bottom_right);
    lemma_growing(g, b.bottom_right, b.top_left);
}

/// Whether two rectangles meet does not depend on which is asked.
pub proof fn lemma_meets_is_symmetric(a: Rect, b: Rect)
    ensures
        a.meets(b) == b.meets(a),
{
}

/// A point that lies in a rectangle is covered by it, and a rectangle
/// that holds a point has its corners in order.
pub proof fn lemma_holds(r: Rect, p: Point)
    requires
        r.holds(p),
    ensures
        r.covers(p),
        r.ordered(),
        p.numeric(),
{
}

/// Two rectangles that hold a common point meet.
pub proof fn lemma_common_point(a: Rect, b: Rect, p: Point)
    requires
        a.holds(p),
        b.holds(p),
    ensures
        a.meets(b),
{
}

} // verus!
