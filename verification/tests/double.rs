use transcodarr::double::{Double, Size};

fn double(x: f64) -> Double {
    Double { bits: x.to_bits() }
}

fn back(size: Size) -> f64 {
    f64::from_bits(Double::of_size(size).bits)
}

fn tenths(x: Double) -> String {
    let mut s = String::new();
    x.push_tenths(&mut s);
    s
}

fn rounded(x: Double) -> String {
    let mut s = String::new();
    x.push_rounded(&mut s);
    s
}

fn hundredths(x: Size) -> String {
    let mut s = String::new();
    x.push_hundredths(&mut s);
    s
}

/// Numbers of every size, none of them special.
fn spread() -> Vec<u64> {
    let mut v = vec![0, 1, 2, 3, 5, 10, 350_000, 5_350_000, 1 << 53, (1 << 53) + 1, u64::MAX];
    let mut x: u64 = 0x9e37_79b9_7f4a_7c15;
    for i in 0..200 {
        x = x.wrapping_mul(6_364_136_223_846_793_005).wrapping_add(1_442_695_040_888_963_407);
        v.push(x >> (i % 64));
    }
    v
}

#[test]
fn whole_numbers_and_their_quotients_are_rounded_as_doubles_are() {
    for n in spread() {
        assert_eq!(back(Size::of_whole(n)), n as f64, "{n}");
        for d in [1, 3, 7, 1000, 1_000_000, 1_048_576, 1_000_000_000, u64::MAX] {
            let q = Size::of_ratio(n, d);
            let want = n as f64 / d as f64;
            assert_eq!(back(q), want, "{n}/{d}");
            assert_eq!(back(q.as_percent()), want * 100.0, "{n}/{d}");
            assert_eq!(tenths(Double::of_size(q)), format!("{want:.1}"), "{n}/{d}");
            assert_eq!(rounded(Double::of_size(q)), format!("{want:.0}"), "{n}/{d}");
            assert_eq!(hundredths(q), format!("{want:.2}"), "{n}/{d}");
        }
    }
}

#[test]
fn quotients_at_the_ends_of_the_range_are_rounded_as_doubles_are() {
    let ends = [
        f64::MIN_POSITIVE, 5e-324, 1.5e-310, f64::MAX, 1e308, 1e-300, 1e300, 1.0, 3.0, 0.1, 0.0,
        f64::INFINITY, f64::NAN,
    ];
    for a in ends {
        for b in ends {
            let q = back(double(a).magnitude().divided(double(b).magnitude()));
            let want = a / b;
            assert!(q == want || (q.is_nan() && want.is_nan()), "{a:e}/{b:e}: {q:e}, {want:e}");
            assert_eq!(double(a).is_at_least(&double(b)), a >= b, "{a:e} {b:e}");
            assert_eq!(double(-a).is_at_least(&double(b)), -a >= b, "-{a:e} {b:e}");
            assert_eq!(double(a).is_at_least(&double(-b)), a >= -b, "{a:e} -{b:e}");
            assert_eq!(double(-a).is_at_least(&double(-b)), -a >= -b, "-{a:e} -{b:e}");
        }
        for x in [a, -a] {
            assert_eq!(tenths(double(x)), format!("{x:.1}"), "{x:e}");
            assert_eq!(rounded(double(x)), format!("{x:.0}"), "{x:e}");
            assert_eq!(double(x).above_zero(), x > 0.0, "{x:e}");
            assert_eq!(double(x).at_most_zero(), x <= 0.0, "{x:e}");
            assert_eq!(double(x).is_negative(), x.is_sign_negative(), "{x:e}");
        }
    }
}

#[test]
fn a_tie_in_decimals_is_settled_by_the_bits() {
    assert_eq!(tenths(double(5.35)), "5.3");
    assert_eq!(tenths(double(0.35)), "0.3");
    assert_eq!(tenths(double(0.25)), "0.2");
    assert_eq!(tenths(double(0.75)), "0.8");
    assert_eq!(rounded(double(2.5)), "2");
    assert_eq!(rounded(double(1e21)), "1000000000000000000000");
}
