use rustic_zen::geom::{Point, Rect};
use rustic_zen::key::{is_nan, is_zero, less, not_less, NOT_A_NUMBER};
use rustic_zen::prng::PRNG;

fn point(x: f64, y: f64) -> Point {
    Point { x: x.to_bits(), y: y.to_bits() }
}

fn rect(x0: f64, y0: f64, x1: f64, y1: f64) -> Rect {
    Rect { top_left: point(x0, y0), bottom_right: point(x1, y1) }
}

fn coordinates(r: &Rect) -> [f64; 4] {
    [
        f64::from_bits(r.top_left.x),
        f64::from_bits(r.top_left.y),
        f64::from_bits(r.bottom_right.x),
        f64::from_bits(r.bottom_right.y),
    ]
}

fn reference_min(a: f64, b: f64) -> f64 {
    if a.is_nan() {
        return b;
    }
    if b.is_nan() {
        return a;
    }
    if a < b {
        return a;
    }
    return b;
}

fn reference_max(a: f64, b: f64) -> f64 {
    if a.is_nan() {
        return b;
    }
    if b.is_nan() {
        return a;
    }
    if a > b {
        return a;
    }
    return b;
}

fn random_number(rng: &mut PRNG) -> f64 {
    match rng.uniform_u32() % 8 {
        0 => f64::from_bits((rng.uniform_u32() as u64) << 32 | rng.uniform_u32() as u64),
        1 => 0.0,
        2 => -0.0,
        3 => f64::NAN,
        _ => ((rng.uniform_u32() % 21) as f64 - 10.0) * 0.5,
    }
}

#[test]
fn less_is_the_order_of_the_numbers() {
    let numbers = [
        f64::NEG_INFINITY,
        f64::MIN,
        -3.0,
        -1.0,
        -5e-324,
        -0.0,
        0.0,
        5e-324,
        1.0,
        3.0,
        f64::MAX,
        f64::INFINITY,
        f64::NAN,
        -f64::NAN,
    ];
    for a in numbers {
        for b in numbers {
            assert_eq!(less(a.to_bits(), b.to_bits()), a < b);
            assert_eq!(not_less(a.to_bits(), b.to_bits()), a >= b);
        }
        assert_eq!(is_nan(a.to_bits()), a.is_nan());
    }
}

#[test]
fn less_agrees_on_random_patterns() {
    let mut rng = PRNG::seed(31);
    for _ in 0..200_000 {
        let a = random_number(&mut rng);
        let b = random_number(&mut rng);
        assert_eq!(less(a.to_bits(), b.to_bits()), a < b);
        assert_eq!(not_less(a.to_bits(), b.to_bits()), a >= b);
        assert_eq!(is_nan(a.to_bits()), a.is_nan());
    }
}

#[test]
fn the_null_rectangle_is_null() {
    let r = Rect::null();
    assert!(r.is_null());
    assert_eq!(r.top_left.x, NOT_A_NUMBER);
    assert!(coordinates(&r).iter().all(|c| c.is_nan()));
    assert!(!rect(0.0, 0.0, 1.0, 1.0).is_null());
    assert!(rect(0.0, f64::NAN, 1.0, 1.0).is_null());
    assert!(rect(0.0, 0.0, 1.0, f64::NAN).is_null());
}

#[test]
fn the_null_rectangle_grows_to_the_point() {
    let mut r = Rect::null();
    r.expand_to_include(&point(3.0, -4.0));
    assert_eq!(r, Rect::null_at(&point(3.0, -4.0)));
    assert_eq!(coordinates(&r), [3.0, -4.0, 3.0, -4.0]);
}

#[test]
fn from_points_puts_the_corners_in_order() {
    let r = Rect::from_points(&point(1.0, -10.0), &point(11.0, 10.0));
    assert_eq!(coordinates(&r), [1.0, -10.0, 11.0, 10.0]);
    let r = Rect::from_points(&point(11.0, 10.0), &point(1.0, -10.0));
    assert_eq!(coordinates(&r), [1.0, -10.0, 11.0, 10.0]);
    let r = Rect::from_points(&point(11.0, -10.0), &point(1.0, 10.0));
    assert_eq!(coordinates(&r), [1.0, -10.0, 11.0, 10.0]);
}

#[test]
fn corners_and_edges() {
    let r = rect(1.0, 2.0, 3.0, 4.0);
    assert_eq!(f64::from_bits(r.left()), 1.0);
    assert_eq!(f64::from_bits(r.top()), 2.0);
    assert_eq!(f64::from_bits(r.right()), 3.0);
    assert_eq!(f64::from_bits(r.bottom()), 4.0);
    assert_eq!(r.top_left(), point(1.0, 2.0));
    assert_eq!(r.bottom_right(), point(3.0, 4.0));
    assert_eq!(r.bottom_left(), point(1.0, 4.0));
    assert_eq!(r.top_right(), point(3.0, 2.0));
}

#[test]
fn growing_reaches_the_point_and_no_further() {
    let r = rect(0.0, 0.0, 10.0, 10.0);
    assert_eq!(coordinates(&r.expanded_by(&point(5.0, 5.0))), [0.0, 0.0, 10.0, 10.0]);
    assert_eq!(coordinates(&r.expanded_by(&point(-5.0, 5.0))), [-5.0, 0.0, 10.0, 10.0]);
    assert_eq!(coordinates(&r.expanded_by(&point(5.0, 15.0))), [0.0, 0.0, 10.0, 15.0]);
    assert_eq!(coordinates(&r.expanded_by(&point(20.0, -20.0))), [0.0, -20.0, 20.0, 10.0]);
}

#[test]
fn growing_agrees_with_the_comparisons() {
    let mut rng = PRNG::seed(32);
    for _ in 0..100_000 {
        let c: Vec<f64> = (0..6).map(|_| random_number(&mut rng)).collect();
        let mut r = rect(c[0], c[1], c[2], c[3]);
        r.expand_to_include(&point(c[4], c[5]));
        let expected = [
            reference_min(c[0], c[4]),
            reference_min(c[1], c[5]),
            reference_max(c[2], c[4]),
            reference_max(c[3], c[5]),
        ];
        let got = coordinates(&r);
        for i in 0..4 {
            assert_eq!(got[i].to_bits(), expected[i].to_bits());
        }
    }
}

#[test]
fn the_union_is_around_both() {
    let a = rect(0.0, 0.0, 2.0, 2.0);
    let b = rect(1.0, -1.0, 5.0, 1.0);
    assert_eq!(coordinates(&a.union_with(&b)), [0.0, -1.0, 5.0, 2.0]);
    assert_eq!(coordinates(&b.union_with(&a)), [0.0, -1.0, 5.0, 2.0]);
    assert_eq!(coordinates(&Rect::null().union_with(&b)), [1.0, -1.0, 5.0, 1.0]);
}

#[test]
fn the_left_and_top_edge_belong_to_the_rectangle() {
    let r = rect(0.0, 0.0, 10.0, 10.0);
    assert!(r.contains(&point(0.0, 0.0)));
    assert!(r.contains(&point(-0.0, -0.0)));
    assert!(r.contains(&point(5.0, 5.0)));
    assert!(r.contains(&point(9.999999999999998, 0.0)));
    assert!(!r.contains(&point(10.0, 5.0)));
    assert!(!r.contains(&point(5.0, 10.0)));
    assert!(!r.contains(&point(-5e-324, 5.0)));
    assert!(!r.contains(&point(f64::NAN, 5.0)));
    assert!(!Rect::null().contains(&point(0.0, 0.0)));
}

#[test]
fn contains_agrees_with_the_comparisons() {
    let mut rng = PRNG::seed(33);
    for _ in 0..100_000 {
        let c: Vec<f64> = (0..6).map(|_| random_number(&mut rng)).collect();
        let r = rect(c[0], c[1], c[2], c[3]);
        let expected = c[4] >= c[0] && c[4] < c[2] && c[5] >= c[1] && c[5] < c[3];
        assert_eq!(r.contains(&point(c[4], c[5])), expected);
    }
}

#[test]
fn rectangles_that_share_an_edge_meet() {
    let a = rect(0.0, 0.0, 2.0, 2.0);
    assert!(a.does_intersect(&rect(1.0, 1.0, 3.0, 3.0)));
    assert!(a.does_intersect(&rect(2.0, 0.0, 3.0, 2.0)));
    assert!(a.does_intersect(&rect(0.5, 0.5, 1.0, 1.0)));
    assert!(!a.does_intersect(&rect(2.5, 0.0, 3.0, 2.0)));
    assert!(!a.does_intersect(&rect(0.0, -3.0, 2.0, -1.0)));
    assert!(a.does_intersect(&Rect::null()));
}

#[test]
fn does_intersect_agrees_with_the_comparisons() {
    let mut rng = PRNG::seed(34);
    for _ in 0..100_000 {
        let c: Vec<f64> = (0..8).map(|_| random_number(&mut rng)).collect();
        let r1 = rect(c[0], c[1], c[2], c[3]);
        let r2 = rect(c[4], c[5], c[6], c[7]);
        let expected = !(c[4] > c[2] || c[6] < c[0] || c[5] > c[3] || c[7] < c[1]);
        assert_eq!(r1.does_intersect(&r2), expected);
        assert_eq!(r2.does_intersect(&r1), expected);
    }
}

/// The inverse of the matrix `a1 b1; a2 b2`: the arithmetic is done here,
/// whether there is an inverse is decided by the library.
fn inverse(a1: f64, b1: f64, a2: f64, b2: f64) -> Option<(f64, f64, f64, f64)> {
    let det = (a1 * b2) - (b1 * a2);
    if is_zero(det.to_bits()) {
        None
    } else {
        let s = 1.0 / det;
        Some((b2 * s, -b1 * s, -a2 * s, a1 * s))
    }
}

#[test]
fn matrix_inverse() {
    let n = inverse(1.0, 2.0, 3.0, 4.0).expect("This should have an inverse");
    assert_eq!(n.0, -2.0);
    assert_eq!(n.1, 1.0);
    assert_eq!(n.2, 1.5);
    assert_eq!(n.3, -0.5);
}

#[test]
fn matrix_inverse_identity() {
    let n = inverse(1.0, 0.0, 0.0, 1.0).expect("This should have an inverse");
    assert_eq!(n.0, 1.0);
    assert_eq!(n.1, 0.0);
    assert_eq!(n.2, 0.0);
    assert_eq!(n.3, 1.0);
}

#[test]
fn matrix_inverse_singular() {
    let n = inverse(0.0, 0.0, 0.0, 0.0);
    if n.is_none() {
        return;
    } else {
        panic!("This should be singular");
    }
}

#[test]
fn a_matrix_with_a_tiny_determinant_has_an_inverse() {
    assert!(inverse(1e-200, 0.0, 0.0, 1e-100).is_some());
    assert!(inverse(1e-200, 0.0, 0.0, 1e-200).is_none());
    assert!(inverse(2.0, 4.0, 1.0, 2.0).is_none());
    assert!(inverse(-0.0, 1.0, 0.0, 1.0).is_none());
}
