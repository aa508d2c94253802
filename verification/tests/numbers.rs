use web_streams::number::{Number, INFINITY, SIGN};

fn number(value: f64) -> Number {
    Number { bits: value.to_bits() }
}

/// The next of a sequence of numbers that look as if they were drawn.
fn next(state: &mut u64) -> u64 {
    *state ^= *state << 13;
    *state ^= *state >> 7;
    *state ^= *state << 17;
    *state
}

fn same(result: Number, expected: f64) -> bool {
    if expected.is_nan() {
        result.is_nan()
    } else {
        result.bits == expected.to_bits()
    }
}

const CORNERS: [f64; 22] = [
    0.0,
    -0.0,
    1.0,
    -1.0,
    0.5,
    1.5,
    0.1,
    0.3,
    5e-324,
    -5e-324,
    2.225073858507201e-308,
    2.2250738585072014e-308,
    4503599627370496.0,
    9007199254740991.0,
    9007199254740992.0,
    9007199254740994.0,
    18446744073709551616.0,
    1e300,
    f64::MAX,
    f64::INFINITY,
    f64::NEG_INFINITY,
    f64::NAN,
];

#[test]
fn sums_of_corner_cases_are_those_of_the_machine() {
    for first in CORNERS {
        for second in CORNERS {
            assert!(same(number(first).add(number(second)), first + second));
            assert!(same(number(first).subtract(number(second)), first - second));
            assert!(same(number(-first).add(number(second)), -first + second));
        }
    }
}

#[test]
fn sums_of_all_kinds_are_those_of_the_machine() {
    let mut state: u64 = 0x9e37_79b9_7f4a_7c15;
    for _ in 0..20000 {
        let first = f64::from_bits(next(&mut state));
        let second = f64::from_bits(next(&mut state));
        assert!(same(number(first).add(number(second)), first + second));
        assert!(same(number(first).subtract(number(second)), first - second));
    }
}

#[test]
fn sums_of_numbers_of_like_size_are_those_of_the_machine() {
    let mut state: u64 = 0x2545_f491_4f6c_dd1d;
    for round in 0..40000 {
        let first = next(&mut state) % INFINITY;
        let apart = (round % 120) << 52;
        let noise = next(&mut state) % (1 << 52);
        let second = (first.saturating_sub(apart) & !0x000f_ffff_ffff_ffff) | noise;
        let (first, second) = (f64::from_bits(first), f64::from_bits(second));
        assert!(same(number(first).add(number(second)), first + second));
        assert!(same(number(first).subtract(number(second)), first - second));
        assert!(same(number(second).subtract(number(first)), second - first));
    }
}

#[test]
fn halves_go_to_the_even_number() {
    assert_eq!(number(9007199254740992.0).add(number(1.0)), number(9007199254740992.0));
    assert_eq!(number(9007199254740994.0).add(number(1.0)), number(9007199254740996.0));
    assert_eq!(number(9007199254740992.0).add(number(3.0)), number(9007199254740996.0));
}

#[test]
fn numbers_tell_where_they_lie() {
    for value in CORNERS {
        assert_eq!(number(value).is_nan(), value.is_nan());
        assert_eq!(number(value).is_finite(), value.is_finite());
        assert_eq!(number(value).is_positive(), value > 0.0);
        assert_eq!(number(value).is_not_positive(), value <= 0.0);
        assert_eq!(number(value).is_below_zero(), value < 0.0);
        assert_eq!(number(value).is_in_range(), value.is_finite() && value.trunc() >= 0.0);
    }
    assert!(number(-0.9).is_in_range());
    assert!(!number(-1.0).is_in_range());
    assert!(Number { bits: SIGN | INFINITY | 1 }.is_nan());
}

#[test]
fn counts_drop_the_fraction() {
    for value in [
        0.0, -0.0, -0.9, 0.9, 1.0, 1.9, 2.5, 4294967296.5, 4503599627370497.5, 9007199254740993.0,
        9223372036854775808.0, 18446744073709549568.0, 18446744073709551616.0, 1e300, f64::MAX,
        5e-324,
    ] {
        assert_eq!(number(value).to_count(), value.trunc() as u64);
    }
    let mut state: u64 = 0xd1b5_4a32_d192_ed03;
    for _ in 0..20000 {
        let value = f64::from_bits(next(&mut state) % INFINITY);
        assert_eq!(number(value).to_count(), value.trunc() as u64);
    }
}

#[test]
fn counts_become_the_nearest_number() {
    for count in [
        0,
        1,
        2,
        255,
        4294967296,
        9007199254740991,
        9007199254740992,
        9007199254740993,
        9007199254740995,
        u64::MAX as u128,
        u128::MAX,
    ] {
        assert_eq!(Number::of_count(count), number(count as f64));
    }
    let mut state: u64 = 0x94d0_49bb_1331_11eb;
    for round in 0..20000 {
        let count = next(&mut state) as u128 * next(&mut state) as u128 >> (round % 128);
        assert_eq!(Number::of_count(count), number(count as f64));
    }
}
