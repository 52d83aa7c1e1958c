use carcetti::binary64::Binary64;
use carcetti::text::{decimal_text, push_digits, push_padded, push_text, unsigned_text};
use carcetti::video_info::sample::peak_volume;
use ordered_float::OrderedFloat;

fn b(x: f64) -> Binary64 {
    Binary64::from_bits(x.to_bits())
}

fn interesting() -> Vec<f64> {
    vec![
        0.0,
        -0.0,
        1.0,
        -1.0,
        1.1,
        -1.1,
        f64::MIN,
        f64::MAX,
        f64::MIN_POSITIVE,
        -f64::MIN_POSITIVE,
        f64::from_bits(1),
        f64::INFINITY,
        f64::NEG_INFINITY,
        f64::NAN,
        -f64::NAN,
    ]
}

#[test]
fn less_than_is_that_of_the_machine() {
    for x in interesting() {
        for y in interesting() {
            assert_eq!(b(x).less_than(&b(y)), x < y, "{} {}", x, y);
        }
        assert_eq!(b(x).is_nan(), x.is_nan());
    }
}

#[test]
fn less_than_is_a_strict_order() {
    for x in interesting() {
        assert!(!b(x).less_than(&b(x)));
        for y in interesting() {
            for z in interesting() {
                if b(x).less_than(&b(y)) && b(y).less_than(&b(z)) {
                    assert!(b(x).less_than(&b(z)));
                }
            }
        }
    }
}

#[test]
fn zeros_are_equal() {
    assert!(!b(0.0).less_than(&b(-0.0)));
    assert!(!b(-0.0).less_than(&b(0.0)));
    assert_eq!(Binary64::zero(), b(0.0));
}

#[test]
fn peak_is_the_maximum_of_ordered_floats() {
    let all = interesting();
    for x in all.iter() {
        for y in all.iter() {
            for z in all.iter() {
                let samples = vec![*x, *y, *z];
                let expected = samples
                    .iter()
                    .copied()
                    .map(OrderedFloat)
                    .max()
                    .map(|v| v.0)
                    .filter(|v| !v.is_nan())
                    .unwrap_or(0.0);
                let got = peak_volume(&samples.iter().map(|s| b(*s)).collect());
                assert_eq!(got.bits, expected.to_bits(), "{:?}", samples);
            }
        }
    }
}

#[test]
fn peak_of_nothing_is_zero() {
    assert_eq!(peak_volume(&vec![]), b(0.0));
}

#[test]
fn peak_is_one_of_the_samples() {
    let samples = vec![b(0.25), b(-3.0), b(0.75), b(0.5)];
    assert_eq!(peak_volume(&samples), b(0.75));
    assert_eq!(peak_volume(&vec![b(0.25), b(f64::NAN)]), b(0.0));
}

#[test]
fn numbers_in_decimal() {
    for n in vec![0, 1, 9, 10, 42, -1, -10, 1_000_000, i64::MAX, i64::MIN] {
        assert_eq!(decimal_text(n), n.to_string());
    }
    for n in vec![0, 7, 10, 99, u64::MAX] {
        assert_eq!(unsigned_text(n), n.to_string());
    }
    let mut s = "n".to_string();
    push_digits(&mut s, 30_600);
    assert_eq!(s, "n30600");
}

#[test]
fn numbers_with_zeros_in_front() {
    for n in vec![0i64, 5, 12, 123, -5, -12, -123, i64::MIN] {
        for width in vec![0usize, 1, 2, 3, 6] {
            let mut s = String::new();
            push_padded(&mut s, n, width);
            assert_eq!(s, format!("{:0width$}", n, width = width));
        }
    }
}

#[test]
fn text_is_added_at_the_end() {
    let mut s = "a".to_string();
    push_text(&mut s, "");
    push_text(&mut s, "\u{e9}\u{1f600}b");
    assert_eq!(s, "a\u{e9}\u{1f600}b");
}
