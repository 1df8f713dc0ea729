use fourteen_screws::fp::{FixedPointMath, FromFixedPoint, ToFixedPoint};
use fourteen_screws::fp::{add, div, floor, mul, sub, to_fp, to_i32};

fn real_to_fp(x: f64) -> i32 {
    (x * 65536.0) as i32
}

fn fp_to_real(x: i32) -> f64 {
    x as f64 / 65536.0
}

fn close(a: f64, b: f64) -> bool {
    (a - b).abs() <= 0.003
}

#[test]
fn f64_add() {
    let test_pairs = [(0.5, 0.5), (-0.754, 0.123)];
    for (a, b) in test_pairs {
        let fp_sum = add(real_to_fp(a), real_to_fp(b));
        assert!(close(fp_to_real(fp_sum), a + b));
    }
}

#[test]
fn f64_sub() {
    let test_pairs = [(0.5, 0.5), (-0.754, 0.123)];
    for (a, b) in test_pairs {
        let fp_diff = sub(real_to_fp(a), real_to_fp(b));
        assert!(close(fp_to_real(fp_diff), a - b));
    }
}

#[test]
fn f64_mul() {
    let test_pairs = [(0.5, 0.5), (-0.754, 0.123)];
    for (a, b) in test_pairs {
        let fp_prod = mul(real_to_fp(a), real_to_fp(b));
        assert!(close(fp_to_real(fp_prod), a * b));
    }
}

#[test]
fn f64_div() {
    let test_pairs = [(0.5, 0.5), (-0.754, 0.123)];
    for (a, b) in test_pairs {
        let fp_quot = div(real_to_fp(a), real_to_fp(b));
        assert!(close(fp_to_real(fp_quot), a / b));
    }
}

#[test]
fn integer_round_trip() {
    for x in [-32768, -1000, -1, 0, 1, 7, 64, 32767] {
        assert_eq!(to_i32(to_fp(x)), x);
    }
}

#[test]
fn real_round_trip_within_one_step() {
    for r in [-3.75, -0.754, -0.0001, 0.0, 0.123, 0.5, 2.999, 1000.25] {
        let back = fp_to_real(real_to_fp(r));
        assert!((back - r).abs() <= 1.0 / 65536.0);
        let again = real_to_fp(back);
        assert!((again - real_to_fp(r)).abs() <= 1);
    }
}

#[test]
fn exact_values() {
    assert_eq!(to_fp(3), 196608);
    assert_eq!(to_i32(196608 + 65535), 3);
    assert_eq!(to_i32(-1), -1);
    assert_eq!(mul(3 << 16, 1 << 15), 98304);
    assert_eq!(mul(-1, 1), -1);
    assert_eq!(div(1 << 16, 4 << 16), 16384);
    assert_eq!(div(-7, 2 << 16), -3);
    assert_eq!(floor(-1), -65536);
    assert_eq!(floor((5 << 16) + 123), 5 << 16);
}

#[test]
fn fixed_point_traits() {
    let three: i32 = 3;
    assert_eq!(three.to_fp(), 3 << 16);
    assert_eq!((3i32 << 16).to_i32(), 3);
    assert_eq!((-5i32).to_i32(), -1);
    let a: i32 = 3 << 16;
    assert_eq!(a.fp_add(1 << 16), 4 << 16);
    assert_eq!(a.fp_sub(1 << 16), 2 << 16);
    assert_eq!(a.fp_mul(2 << 16), 6 << 16);
    assert_eq!(a.fp_div(2 << 16), 98304);
}
