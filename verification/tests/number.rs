use telemux::expression::is_blank;
use telemux::graph::{finishing_order, topological_order};
use telemux::number::Real;
use telemux::text::{characters, contains_text, decimal_text, join3, join_all, same_text};

fn num(v: f64) -> Real {
    Real { bits: v.to_bits() }
}

fn value(r: Real) -> f64 {
    f64::from_bits(r.bits)
}

const SAMPLES: [f64; 16] = [
    0.0,
    -0.0,
    1.0,
    -1.0,
    0.5,
    -0.5,
    1.5,
    2.5,
    0.49999999999999994,
    65535.4,
    65535.5,
    -32768.5,
    1e300,
    -1e300,
    5e-324,
    1e-45,
];

#[test]
fn comparisons_are_those_of_the_machine() {
    for a in SAMPLES.iter().chain([f64::NAN, f64::INFINITY, f64::NEG_INFINITY].iter()) {
        assert_eq!(num(*a).is_nan(), a.is_nan());
        assert_eq!(num(*a).is_finite(), a.is_finite());
        assert_eq!(num(*a).is_zero(), *a == 0.0);
        for b in SAMPLES {
            assert_eq!(num(*a).less(&num(b)), *a < b, "{a} < {b}");
            assert_eq!(num(b).less(&num(*a)), b < *a, "{b} < {a}");
        }
    }
}

#[test]
fn integers_are_exact() {
    for n in [0i64, 1, -1, 100, 0xFFFF, -0x8000, 0xFFFF_FFFF, -0x8000_0000, 0x1_0000_0000] {
        assert_eq!(value(Real::from_integer(n)), n as f64);
    }
}

#[test]
fn rounding_is_half_away_from_zero() {
    for a in SAMPLES {
        assert_eq!(num(a).saturate(0, 0xFFFF), a.round().clamp(0.0, 65535.0) as i64, "{a}");
        assert_eq!(num(a).saturate(-0x8000, 0x7FFF), a.round().clamp(-32768.0, 32767.0) as i64, "{a}");
        assert_eq!(num(a).to_word(), a as u16, "{a}");
    }
    assert_eq!(num(f64::NAN).saturate(-5, 5), 0);
    assert_eq!(num(f64::INFINITY).saturate(-5, 5), 5);
    assert_eq!(num(f64::NEG_INFINITY).saturate(-5, 5), -5);
}

#[test]
fn single_precision_is_converted() {
    for b in [0u32, 1, 0x0080_0000, 0x007F_FFFF, 0x3F80_0000, 0xC148_0001, 0x7F7F_FFFF, 0x7F80_0000, 0xFF80_0000, 0x8000_0000]
    {
        let wide = Real::from_single(b);
        assert_eq!(wide.bits, (f32::from_bits(b) as f64).to_bits(), "{b:#x}");
        assert_eq!(wide.to_single(), b, "{b:#x}");
    }
    for a in SAMPLES {
        assert_eq!(num(a).to_single(), (a as f32).to_bits(), "{a}");
    }
    for a in [0.1, 3.4028235677973366e38, 3.4028235677973362e38, 1.401298464324817e-45, 7e-46, 1.17549435e-38] {
        assert_eq!(num(a).to_single(), (a as f32).to_bits(), "{a}");
    }
    assert!(f32::from_bits(num(f64::NAN).to_single()).is_nan());
    assert!(value(Real::from_single(f32::NAN.to_bits())).is_nan());
}

#[test]
fn orders_have_dependencies_first() {
    let order = topological_order(&vec![vec![2], vec![0], vec![]]).unwrap();
    assert_eq!(order, vec![2, 0, 1]);
    let v = topological_order(&vec![vec![], vec![2], vec![1]]).unwrap_err();
    assert!(v == 1 || v == 2);
    assert_eq!(topological_order(&vec![vec![0]]).unwrap_err(), 0);
}

#[test]
fn nodes_beside_a_cycle_come_after_their_dependencies() {
    let order = finishing_order(&vec![vec![1, 4], vec![0], vec![3], vec![], vec![4]]);
    let at = |u: usize| order.iter().position(|&v| v == u).unwrap();
    assert_eq!(order.len(), 5);
    assert!(at(3) < at(2) && at(4) < at(0));
    assert_eq!(finishing_order(&vec![vec![2], vec![0], vec![]]), vec![2, 0, 1]);
}

#[test]
fn texts_are_joined_and_searched() {
    assert!(same_text("a°", "a°") && !same_text("a", "ab"));
    assert_eq!(join3("a", "b", "c"), "abc");
    assert_eq!(join_all(&vec!["x".to_string(), "y".to_string()], " / "), "x / y");
    assert_eq!(decimal_text(0), "0");
    assert_eq!(decimal_text(u128::MAX), u128::MAX.to_string());
    assert!(contains_text("deg c", "g c") && !contains_text("deg", "x") && contains_text("a", ""));
    assert_eq!(characters("é1"), vec!['é', '1']);
    assert!(is_blank(" \t") && !is_blank("") && !is_blank(" 1"));
}
