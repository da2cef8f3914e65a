use rustic_zen::key::{floor, from_bits, is_zero, unit, HIDDEN, INFINITE, LARGEST, NEGATIVE_ZERO, ONE, ZERO};
use rustic_zen::prng::PRNG;

#[test]
fn the_constants_are_the_patterns_of_their_numbers() {
    assert_eq!(f64::from_bits(ZERO), 0.0);
    assert_eq!(f64::from_bits(ONE), 1.0);
    assert_eq!(f64::from_bits(LARGEST), f64::MAX);
    assert_eq!(f64::from_bits(INFINITE), f64::INFINITY);
    assert_eq!(NEGATIVE_ZERO, (-0.0f64).to_bits());
    assert_eq!(HIDDEN, 1u64 << 52);
}

#[test]
fn magnitudes_have_keys() {
    assert_eq!(from_bits(0.0f64.to_bits()), Some(0));
    assert_eq!(from_bits(0.5f64.to_bits()), Some(0x3fe0_0000_0000_0000));
    assert_eq!(from_bits(1.0f64.to_bits()), Some(ONE));
    assert_eq!(from_bits(f64::MAX.to_bits()), Some(LARGEST));
    assert_eq!(from_bits(f64::INFINITY.to_bits()), Some(INFINITE));
    assert_eq!(from_bits(f64::MIN_POSITIVE.to_bits()), Some(HIDDEN));
    assert_eq!(from_bits(5e-324f64.to_bits()), Some(1));
}

#[test]
fn negative_zero_has_the_key_of_zero() {
    assert_eq!(from_bits((-0.0f64).to_bits()), Some(ZERO));
}

#[test]
fn negative_numbers_have_no_key() {
    assert_eq!(from_bits((-1.0f64).to_bits()), None);
    assert_eq!(from_bits((-5e-324f64).to_bits()), None);
    assert_eq!(from_bits(f64::NEG_INFINITY.to_bits()), None);
    assert_eq!(from_bits(f64::MIN.to_bits()), None);
}

#[test]
fn what_is_not_a_number_has_no_key() {
    assert_eq!(from_bits(f64::NAN.to_bits()), None);
    assert_eq!(from_bits(0x7ff0_0000_0000_0001), None);
    assert_eq!(from_bits(0x7fff_ffff_ffff_ffff), None);
    assert_eq!(from_bits(0xffff_ffff_ffff_ffff), None);
    assert_eq!(from_bits(0xfff8_0000_0000_0000), None);
}

#[test]
fn the_order_of_the_keys_is_the_order_of_the_numbers() {
    let rising = [
        0.0,
        5e-324,
        f64::MIN_POSITIVE,
        1e-10,
        0.1,
        0.5,
        0.9999999999999999,
        1.0,
        1.0000000000000002,
        2.9999999999999996,
        3.0,
        255.9,
        1e300,
        f64::MAX,
        f64::INFINITY,
    ];
    for i in 0..rising.len() {
        for j in 0..rising.len() {
            let a = from_bits(f64::to_bits(rising[i])).unwrap();
            let b = from_bits(f64::to_bits(rising[j])).unwrap();
            assert_eq!(a < b, rising[i] < rising[j]);
            assert_eq!(a == b, rising[i] == rising[j]);
        }
    }
}

#[test]
fn the_order_holds_of_random_magnitudes() {
    let mut rng = PRNG::seed(2024);
    for _ in 0..50_000 {
        let p = ((rng.uniform_u32() as u64) << 32 | rng.uniform_u32() as u64) >> 1;
        let q = ((rng.uniform_u32() as u64) << 32 | rng.uniform_u32() as u64) >> 1;
        if let (Some(a), Some(b)) = (from_bits(p), from_bits(q)) {
            let (x, y) = (f64::from_bits(p), f64::from_bits(q));
            assert_eq!(a < b, x < y);
            assert_eq!(a == b, x == y);
        } else {
            assert!(f64::from_bits(p).is_nan() || f64::from_bits(q).is_nan());
        }
    }
}

#[test]
fn unit_of_known_words() {
    assert_eq!(unit(0), 0);
    assert_eq!(unit(1), 0x3df0_0000_0000_0000);
    assert_eq!(f64::from_bits(unit(1)), 2.3283064365386963e-10);
    assert_eq!(f64::from_bits(unit(0x8000_0000)), 0.5);
    assert_eq!(f64::from_bits(unit(0x4000_0000)), 0.25);
    assert_eq!(f64::from_bits(unit(0xc000_0000)), 0.75);
    assert_eq!(f64::from_bits(unit(u32::MAX)), 4294967295.0 / 4294967296.0);
    assert_eq!(f64::from_bits(unit(3)), 3.0 / 4294967296.0);
}

#[test]
fn unit_is_exact_for_every_width_of_word() {
    for shift in 0..32 {
        for low in [0u32, 1, 0x5555_5555, 0xffff_ffff] {
            let n = (1u32 << shift) | (low & ((1u32 << shift) - 1));
            assert_eq!(f64::from_bits(unit(n)), n as f64 / 4294967296.0);
            assert!(unit(n) < ONE);
        }
    }
}

#[test]
fn only_zero_is_zero() {
    assert!(is_zero(0.0f64.to_bits()));
    assert!(is_zero((-0.0f64).to_bits()));
    assert!(!is_zero(5e-324f64.to_bits()));
    assert!(!is_zero((-5e-324f64).to_bits()));
    assert!(!is_zero(f64::NAN.to_bits()));
    assert!(!is_zero(((1.0f64 * 4.0) - (2.0 * 3.0)).to_bits()));
    for v in [1.0f64, -1.0, 1e-300, f64::INFINITY, f64::NEG_INFINITY] {
        assert_eq!(is_zero(v.to_bits()), v == 0.0);
    }
}

#[test]
fn floors_of_known_numbers() {
    assert_eq!(floor(0.0f64.to_bits()), 0);
    assert_eq!(floor((-0.0f64).to_bits()), 0);
    assert_eq!(floor(0.5f64.to_bits()), 0);
    assert_eq!(floor(0.9999999999999999f64.to_bits()), 0);
    assert_eq!(floor(1.0f64.to_bits()), 1);
    assert_eq!(floor(1.5f64.to_bits()), 1);
    assert_eq!(floor(2.0f64.to_bits()), 2);
    assert_eq!(floor(1079.75f64.to_bits()), 1079);
    assert_eq!(floor((-0.5f64).to_bits()), -1);
    assert_eq!(floor((-5e-324f64).to_bits()), -1);
    assert_eq!(floor((-1.0f64).to_bits()), -1);
    assert_eq!(floor((-1.0000000000000002f64).to_bits()), -2);
    assert_eq!(floor((-1.5f64).to_bits()), -2);
    assert_eq!(floor((-2.0f64).to_bits()), -2);
    assert_eq!(floor(4503599627370496.0f64.to_bits()), 4503599627370496);
    assert_eq!(floor(4503599627370495.5f64.to_bits()), 4503599627370495);
    assert_eq!(floor((-4503599627370495.5f64).to_bits()), -4503599627370496);
    assert_eq!(floor(9007199254740993.0f64.to_bits()), 9007199254740992);
}

#[test]
fn floors_are_held_within_the_integers() {
    assert_eq!(floor(9223372036854775808.0f64.to_bits()), i64::MAX);
    assert_eq!(floor(9223372036854774784.0f64.to_bits()), 9223372036854774784);
    assert_eq!(floor((-9223372036854775808.0f64).to_bits()), i64::MIN);
    assert_eq!(floor((-9223372036854774784.0f64).to_bits()), -9223372036854774784);
    assert_eq!(floor((-9223372036854777856.0f64).to_bits()), i64::MIN);
    assert_eq!(floor(1e300f64.to_bits()), i64::MAX);
    assert_eq!(floor((-1e300f64).to_bits()), i64::MIN);
    assert_eq!(floor(f64::INFINITY.to_bits()), i64::MAX);
    assert_eq!(floor(f64::NEG_INFINITY.to_bits()), i64::MIN);
    assert_eq!(floor(f64::NAN.to_bits()), 0);
    assert_eq!(floor((-f64::NAN).to_bits()), 0);
}

#[test]
fn floor_agrees_with_rounding_down_and_converting() {
    let mut rng = PRNG::seed(51);
    for _ in 0..300_000 {
        let bits = (rng.uniform_u32() as u64) << 32 | rng.uniform_u32() as u64;
        let v = f64::from_bits(bits);
        assert_eq!(floor(bits), v.floor() as i64);
        let w = (f64::from_bits(rng.uniform_key()) - 0.5) * 4096.0;
        assert_eq!(floor(w.to_bits()), w.floor() as i64);
        let exponent = (rng.uniform_u32() % 140) as u64 + 950;
        let sign = (rng.uniform_u32() as u64 & 1) << 63;
        let fraction = ((rng.uniform_u32() as u64) << 20) | (rng.uniform_u32() as u64 & 0xfffff);
        let x = f64::from_bits(sign | exponent << 52 | fraction);
        assert_eq!(floor(x.to_bits()), x.floor() as i64);
        let r = x.round();
        assert_eq!(floor(r.to_bits()), r as i64);
    }
}
