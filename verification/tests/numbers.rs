//! Doubles and texts.

use vsbtc::double::Double;
use vsbtc::text::{
    contains_text, decimal_text, is_text_before, same_text, signed_decimal_text, trim_suffix,
    trim_suffixes,
};

fn d(x: f64) -> Double {
    Double { bits: x.to_bits() }
}

fn samples() -> Vec<f64> {
    vec![
        f64::NEG_INFINITY,
        f64::MIN,
        -1000.5,
        -1.0,
        -f64::MIN_POSITIVE,
        -5e-324,
        -0.0,
        0.0,
        5e-324,
        f64::MIN_POSITIVE,
        0.01,
        1.0,
        1.0 + f64::EPSILON,
        1e300,
        f64::MAX,
        f64::INFINITY,
        f64::NAN,
        -f64::NAN,
    ]
}

#[test]
fn comparisons_are_those_of_doubles() {
    for a in samples() {
        assert_eq!(d(a).is_nan(), a.is_nan());
        assert_eq!(d(a).is_positive(), a > 0.0);
        assert_eq!(d(a).is_zero(), a == 0.0);
        for b in samples() {
            assert_eq!(d(a).is_less(d(b)), a < b);
            assert_eq!(d(a).is_at_least(d(b)), a >= b);
        }
    }
}

#[test]
fn zero_is_positive_zero() {
    assert_eq!(Double::zero().bits, 0.0f64.to_bits());
    assert_ne!(Double::zero(), d(-0.0));
    assert!(d(-0.0).is_zero());
}

#[test]
fn clamping_is_that_of_doubles() {
    for x in samples() {
        let c = d(x).clamp(d(-1.0), d(1.0));
        assert_eq!(c.bits, x.clamp(-1.0, 1.0).to_bits());
        assert_eq!(c.clamp(d(-1.0), d(1.0)), c);
    }
}

#[test]
fn texts_are_compared_by_characters() {
    assert!(same_text("BTC", "BTC"));
    assert!(!same_text("BTC", "btc"));
    assert!(!same_text("BTC", "BTCX"));
}

#[test]
fn text_is_found_anywhere() {
    assert!(contains_text("hyperliquid", "hyper"));
    assert!(contains_text("hyperliquid", "quid"));
    assert!(contains_text("hyperliquid", "rli"));
    assert!(contains_text("hyperliquid", ""));
    assert!(contains_text("", ""));
    assert!(!contains_text("", "a"));
    assert!(!contains_text("hyper", "hyperliquid"));
    assert!(contains_text("aab", "ab"));
}

#[test]
fn texts_are_ordered_as_strings() {
    let names = vec!["", "A", "AAVE", "ARB", "B", "BTC", "a", "ä", "kPEPE", "😀", "\u{ffff}"];
    for a in &names {
        for b in &names {
            assert_eq!(is_text_before(a, b), a < b, "{a} {b}");
        }
    }
}

#[test]
fn endings_are_trimmed() {
    assert_eq!(trim_suffixes("BTC/USD", "/USD"), "BTC");
    assert_eq!(trim_suffixes("BTC/USD/USD", "/USD"), "BTC");
    assert_eq!(trim_suffixes("/USD", "/USD"), "");
    assert_eq!(trim_suffixes("BTC", "/USD"), "BTC");
    assert_eq!(trim_suffixes("BTC", ""), "BTC");
    assert_eq!(trim_suffix("HYPE/SPOT/SPOT", "/SPOT"), "HYPE/SPOT");
    assert_eq!(trim_suffix("HYPE", "/SPOT"), "HYPE");
}

#[test]
fn numbers_are_written_in_decimal() {
    for n in [0u64, 7, 10, 99, 100, 1234567890, u64::MAX] {
        assert_eq!(decimal_text(n), n.to_string());
    }
    for n in [0i64, -1, 42, i64::MIN, i64::MAX] {
        assert_eq!(signed_decimal_text(n), n.to_string());
    }
}
