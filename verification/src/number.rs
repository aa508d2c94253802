//! The numbers of a script, which are floating-point numbers of double precision, and what
//! the streams do with them.
//!
//! A number is held as its bits: the sign, eleven bits of exponent and fifty-two of fraction.
//! Without the sign they count the numbers from zero upwards, so that one number is below
//! another if its bits are. The arithmetic rounds to the nearest number, and to the even one
//! of two that are as near.

use vstd::arithmetic::power2::{
    lemma_pow2_adds, lemma_pow2_pos, lemma_pow2_strictly_increases, lemma_pow2_unfold, pow2,
};
use vstd::prelude::*;

verus! {

/// The weight of the lowest bit of the exponent: two to the power of fifty-two.
pub const STEP: u64 = 0x0010_0000_0000_0000;

/// Twice that.
pub const TWO_STEPS: u64 = 0x0020_0000_0000_0000;

/// The bits of infinity. What is above that, but for the sign, is not a number.
pub const INFINITY: u64 = 0x7ff0_0000_0000_0000;

/// The sign of a number below zero.
pub const SIGN: u64 = 0x8000_0000_0000_0000;

/// The bits of one.
pub const ONE: u64 = 0x3ff0_0000_0000_0000;

/// The bits of what is not a number.
pub const NAN: u64 = 0x7ff8_0000_0000_0000;

/// The exponent of two by which the smallest number above zero divides one.
pub const FINEST: u32 = 1074;

/// A number of a script.
#[derive(Clone, Copy, Debug, PartialEq, Eq, Structural)]
pub struct Number {
    pub bits: u64,
}

/// By how many powers of two the significand of a number is shifted.
pub open spec fn shift_of(magnitude: nat) -> nat {
    let exponent = magnitude / STEP as nat;
    if exponent == 0 {
        0
    } else {
        (exponent - 1) as nat
    }
}

/// The significand of a number.
pub open spec fn significand_of(magnitude: nat) -> nat {
    (magnitude - shift_of(magnitude) * STEP as nat) as nat
}

/// How often the smallest number above zero goes into the number with these bits. Infinity
/// counts as what would come after the largest number.
pub open spec fn weight(magnitude: nat) -> nat {
    significand_of(magnitude) * pow2(shift_of(magnitude))
}

/// Whether no number is nearer to an exact result, nor one that is as near even instead.
pub open spec fn is_nearest(exact: nat, magnitude: nat) -> bool {
    &&& magnitude <= INFINITY
    &&& magnitude > 0 ==> {
        let below = weight((magnitude - 1) as nat) + weight(magnitude);
        2 * exact > below || (2 * exact == below && magnitude % 2 == 0)
    }
    &&& magnitude < INFINITY ==> {
        let above = weight(magnitude) + weight(magnitude + 1);
        2 * exact < above || (2 * exact == above && magnitude % 2 == 0)
    }
}

/// The number nearest to an exact result.
pub open spec fn nearest(exact: nat) -> u64 {
    choose|magnitude: u64| is_nearest(exact, magnitude as nat)
}

proof fn lemma_parts(magnitude: nat)
    ensures
        magnitude == shift_of(magnitude) * STEP + significand_of(magnitude),
        significand_of(magnitude) < TWO_STEPS,
        significand_of(magnitude) >= STEP || shift_of(magnitude) == 0,
{
}

/// The number with a given significand and shift. One significand too large stands for half
/// of it with the next shift.
proof fn lemma_weight_of(significand: nat, shift: nat)
    requires
        significand <= TWO_STEPS,
        significand >= STEP || shift == 0,
    ensures
        weight(shift * STEP as nat + significand) == significand * pow2(shift),
{
    let magnitude = shift * STEP as nat + significand;
    if significand == TWO_STEPS {
        assert(shift_of(magnitude) == shift + 1);
        assert(significand_of(magnitude) == STEP);
        lemma_pow2_unfold(shift + 1);
        assert(STEP as nat * (2 * pow2(shift)) == TWO_STEPS as nat * pow2(shift))
            by (nonlinear_arith)
            requires
                TWO_STEPS == 2 * STEP,
        ;
    } else {
        assert(shift_of(magnitude) == shift);
        assert(significand_of(magnitude) == significand);
    }
}

/// The distance from a number to the next.
proof fn lemma_weight_next(magnitude: nat)
    ensures
        weight(magnitude + 1) == weight(magnitude) + pow2(shift_of(magnitude)),
        weight(magnitude) < weight(magnitude + 1),
{
    let shift = shift_of(magnitude);
    let significand = significand_of(magnitude);
    lemma_parts(magnitude);
    lemma_weight_of(significand + 1, shift);
    lemma_pow2_pos(shift);
    assert((significand + 1) * pow2(shift) == significand * pow2(shift) + pow2(shift))
        by (nonlinear_arith);
}

/// Of two numbers the one with the larger bits is the larger.
proof fn lemma_weight_increases(first: nat, second: nat)
    requires
        first <= second,
    ensures
        weight(first) <= weight(second),
        first < second ==> weight(first) < weight(second),
    decreases second - first,
{
    if first < second {
        lemma_weight_increases(first, (second - 1) as nat);
        lemma_weight_next((second - 1) as nat);
    }
}

/// There is but one nearest number.
proof fn lemma_nearest(exact: nat, magnitude: u64)
    requires
        is_nearest(exact, magnitude as nat),
    ensures
        nearest(exact) == magnitude,
{
    let other = nearest(exact);
    assert(is_nearest(exact, other as nat));
    if other <= magnitude {
        lemma_one_nearest(exact, other, magnitude);
    } else {
        lemma_one_nearest(exact, magnitude, other);
    }
}

proof fn lemma_one_nearest(exact: nat, first: u64, second: u64)
    requires
        is_nearest(exact, first as nat),
        is_nearest(exact, second as nat),
        first <= second,
    ensures
        first == second,
{
    if first < second {
        lemma_weight_increases(first as nat, (second - 1) as nat);
        lemma_weight_increases((first + 1) as nat, second as nat);
    }
}

/// A result that lies between two numbers is rounded to one of them.
proof fn lemma_nearest_between(exact: nat, magnitude: nat)
    requires
        magnitude < INFINITY,
        weight(magnitude) <= exact < weight(magnitude + 1),
    ensures
        ({
            let sum = weight(magnitude) + weight(magnitude + 1);
            if 2 * exact < sum || (2 * exact == sum && magnitude % 2 == 0) {
                is_nearest(exact, magnitude)
            } else {
                is_nearest(exact, magnitude + 1)
            }
        }),
{
    if magnitude > 0 {
        lemma_weight_next((magnitude - 1) as nat);
    }
    lemma_weight_next(magnitude);
    lemma_weight_next(magnitude + 1);
}

/// A result that is beyond the numbers is rounded to infinity.
proof fn lemma_nearest_beyond(exact: nat, magnitude: nat)
    requires
        INFINITY <= magnitude,
        weight(magnitude) <= exact,
    ensures
        is_nearest(exact, INFINITY as nat),
{
    lemma_weight_increases(INFINITY as nat, magnitude);
    lemma_weight_next((INFINITY - 1) as nat);
}

/// The power of two with a small exponent.
fn power(exponent: u32) -> (result: u128)
    requires
        exponent <= 64,
    ensures
        result == pow2(exponent as nat),
        result <= 0x1_0000_0000_0000_0000,
{
    let mut result: u128 = 1;
    let mut done: u32 = 0;
    proof {
        vstd::arithmetic::power2::lemma2_to64();
    }
    while done < exponent
        invariant
            done <= exponent <= 64,
            result == pow2(done as nat),
            result <= 0x1_0000_0000_0000_0000,
        decreases exponent - done,
    {
        proof {
            lemma_pow2_unfold((done + 1) as nat);
            vstd::arithmetic::power2::lemma2_to64();
            if done < 63 {
                lemma_pow2_strictly_increases((done + 1) as nat, 64);
            }
        }
        result = result * 2;
        done = done + 1;
    }
    result
}

/// The number nearest to a whole number of times a power of two of the smallest number.
fn round(whole: u128, shift: u32) -> (magnitude: u64)
    requires
        shift <= 2046,
    ensures
        magnitude == nearest(whole as nat * pow2(shift as nat)),
        magnitude <= INFINITY,
{
    let ghost exact = whole as nat * pow2(shift as nat);
    let mut significand: u128 = whole;
    let mut shift: u32 = shift;
    while significand < STEP as u128 && shift > 0
        invariant
            shift <= 2046,
            exact == significand as nat * pow2(shift as nat),
        decreases shift,
    {
        proof {
            lemma_pow2_unfold(shift as nat);
            let half = pow2((shift - 1) as nat);
            assert(significand * (2 * half) == (significand * 2) * half) by (nonlinear_arith);
        }
        significand = significand * 2;
        shift = shift - 1;
    }
    if significand < TWO_STEPS as u128 {
        let magnitude: u64 = shift as u64 * STEP + significand as u64;
        proof {
            lemma_weight_of(significand as nat, shift as nat);
            assert(weight(magnitude as nat) == exact);
            lemma_weight_next(magnitude as nat);
        }
        if magnitude >= INFINITY {
            proof {
                lemma_nearest_beyond(exact, magnitude as nat);
                lemma_nearest(exact, INFINITY);
            }
            INFINITY
        } else {
            proof {
                lemma_nearest_between(exact, magnitude as nat);
                lemma_nearest(exact, magnitude);
            }
            magnitude
        }
    } else {
        round_down(significand, shift)
    }
}

/// The same for a whole number that is too large for a significand.
fn round_down(whole: u128, shift: u32) -> (magnitude: u64)
    requires
        shift <= 2046,
        whole >= TWO_STEPS,
    ensures
        magnitude == nearest(whole as nat * pow2(shift as nat)),
        magnitude <= INFINITY,
{
    let ghost exact = whole as nat * pow2(shift as nat);
    let mut unit: u128 = 1;
    let mut lost: u32 = 0;
    proof {
        vstd::arithmetic::power2::lemma2_to64();
    }
    while whole / unit >= TWO_STEPS as u128
        invariant
            unit == pow2(lost as nat),
            1 <= unit <= 0x1000_0000_0000_0000_0000,
            lost <= 76,
            whole >= STEP * unit,
            whole >= TWO_STEPS,
        decreases 0x1_0000_0000_0000_0000_0000 - unit,
    {
        proof {
            lemma_division(whole as int, unit as int);
            assert(unit * TWO_STEPS <= whole) by (nonlinear_arith)
                requires
                    whole as int == unit * (whole as int / unit as int)
                        + whole as int % unit as int,
                    0 <= whole as int % unit as int,
                    whole as int / unit as int >= TWO_STEPS,
                    unit >= 1,
            ;
            lemma_pow2_unfold((lost + 1) as nat);
            if lost == 76 {
                vstd::arithmetic::power2::lemma2_to64();
                lemma_pow2_adds(64, 12);
            }
        }
        unit = unit * 2;
        lost = lost + 1;
    }
    let significand: u128 = whole / unit;
    let rest: u128 = whole % unit;
    proof {
        lemma_division(whole as int, unit as int);
        assert(significand >= STEP) by (nonlinear_arith)
            requires
                whole == unit * significand + rest,
                rest < unit,
                whole >= STEP * unit,
                unit >= 1,
        ;
        assert(unit > 1) by {
            if unit == 1 {
                assert(whole / 1 == whole);
            }
        }
        assert(lost > 0);
        lemma_pow2_unfold(lost as nat);
    }
    let place: u32 = shift + lost;
    let low: u64 = place as u64 * STEP + significand as u64;
    proof {
        let power = pow2(shift as nat);
        lemma_pow2_pos(shift as nat);
        lemma_pow2_adds(lost as nat, shift as nat);
        lemma_weight_of(significand as nat, place as nat);
        lemma_weight_of((significand + 1) as nat, place as nat);
        assert(weight(low as nat) == significand * (unit * power));
        assert(weight((low + 1) as nat) == (significand + 1) * (unit * power));
        assert(exact == significand * (unit * power) + rest * power) by (nonlinear_arith)
            requires
                exact == whole * power,
                whole == unit * significand + rest,
        ;
        assert((significand + 1) * (unit * power) == significand * (unit * power) + unit * power)
            by (nonlinear_arith);
        assert(rest * power < unit * power) by (nonlinear_arith)
            requires
                rest < unit,
                power > 0,
        ;
        assert(0 <= rest * power) by (nonlinear_arith)
            requires
                0 <= rest,
                power > 0,
        ;
        assert(2 * rest < unit ==> 2 * (rest * power) < unit * power) by (nonlinear_arith)
            requires
                power > 0,
        ;
        assert(2 * rest > unit ==> 2 * (rest * power) > unit * power) by (nonlinear_arith)
            requires
                power > 0,
        ;
        assert(2 * rest == unit ==> 2 * (rest * power) == unit * power) by (nonlinear_arith);
        if low < INFINITY {
            lemma_nearest_between(exact, low as nat);
        } else {
            lemma_nearest_beyond(exact, low as nat);
            lemma_nearest(exact, INFINITY);
        }
    }
    if low >= INFINITY {
        INFINITY
    } else if rest > unit / 2 || (rest == unit / 2 && significand % 2 == 1) {
        proof {
            lemma_nearest(exact, (low + 1) as u64);
        }
        low + 1
    } else {
        proof {
            lemma_nearest(exact, low);
        }
        low
    }
}

proof fn lemma_division(whole: int, unit: int)
    requires
        whole >= 0,
        unit > 0,
    ensures
        whole == unit * (whole / unit) + whole % unit,
        0 <= whole % unit < unit,
{
    vstd::arithmetic::div_mod::lemma_fundamental_div_mod(whole, unit);
    vstd::arithmetic::div_mod::lemma_mod_bound(whole, unit);
}

/// The shift of a number.
fn shift(magnitude: u64) -> (shift: u32)
    requires
        magnitude <= INFINITY,
    ensures
        shift == shift_of(magnitude as nat),
        shift <= 2046,
{
    let exponent: u64 = magnitude / STEP;
    if exponent == 0 {
        0
    } else {
        (exponent - 1) as u32
    }
}

/// What is far smaller than a number, next to it.
proof fn lemma_far_smaller(large: nat, small: nat)
    requires
        shift_of(large) >= shift_of(small) + 55,
    ensures
        4 * weight(small) < pow2(shift_of(large)),
        large > 0,
        4 * weight(small) < 2 * pow2(shift_of((large - 1) as nat)),
{
    let near = shift_of(small);
    let far = shift_of(large);
    lemma_parts(small);
    lemma_parts(large);
    vstd::arithmetic::power2::lemma2_to64();
    vstd::arithmetic::power2::lemma2_to64_rest();
    let power = pow2(near);
    lemma_pow2_pos(near);
    lemma_pow2_adds(near, 55);
    lemma_pow2_adds(near, 54);
    assert(pow2(55) == 4 * TWO_STEPS);
    assert(4 * (significand_of(small) * power) < power * (4 * TWO_STEPS)) by (nonlinear_arith)
        requires
            significand_of(small) < TWO_STEPS,
            power > 0,
    ;
    if far > near + 55 {
        lemma_pow2_strictly_increases(near + 55, far);
    }
    let below = (large - 1) as nat;
    assert(shift_of(below) >= far - 1);
    if shift_of(below) == far - 1 {
        lemma_pow2_unfold(far);
    }
}

/// The sum of two numbers.
fn add_magnitudes(first: u64, second: u64) -> (sum: u64)
    requires
        first < INFINITY,
        second < INFINITY,
    ensures
        sum == nearest(weight(first as nat) + weight(second as nat)),
        sum <= INFINITY,
{
    let (large, small): (u64, u64) = if first >= second {
        (first, second)
    } else {
        (second, first)
    };
    let high: u32 = shift(large);
    let low: u32 = shift(small);
    let ghost exact = weight(large as nat) + weight(small as nat);
    proof {
        lemma_parts(large as nat);
        lemma_parts(small as nat);
        assert(high >= low);
    }
    if high - low > 54 {
        proof {
            lemma_far_smaller(large as nat, small as nat);
            lemma_weight_next(large as nat);
            lemma_nearest_between(exact, large as nat);
            lemma_nearest(exact, large);
        }
        large
    } else {
        let apart: u128 = power(high - low);
        let most: u64 = large - high as u64 * STEP;
        let least: u64 = small - low as u64 * STEP;
        proof {
            lemma_apart((high - low) as nat);
            lemma_aligned(most as nat, high as nat, low as nat, apart as nat);
            assert(most * apart <= TWO_STEPS * apart) by (nonlinear_arith)
                requires
                    most <= TWO_STEPS,
            ;
            let power = pow2(low as nat);
            assert((most * apart + least) * power == (most * apart) * power + least * power)
                by (nonlinear_arith);
        }
        round(most as u128 * apart + least as u128, low)
    }
}

/// The difference of two numbers.
fn subtract_magnitudes(large: u64, small: u64) -> (difference: u64)
    requires
        small <= large < INFINITY,
    ensures
        weight(small as nat) <= weight(large as nat),
        difference == nearest((weight(large as nat) - weight(small as nat)) as nat),
        difference <= INFINITY,
{
    let high: u32 = shift(large);
    let low: u32 = shift(small);
    let ghost exact = (weight(large as nat) - weight(small as nat)) as nat;
    proof {
        lemma_weight_increases(small as nat, large as nat);
        lemma_parts(large as nat);
        lemma_parts(small as nat);
        assert(high >= low);
    }
    if high - low > 54 {
        proof {
            lemma_far_smaller(large as nat, small as nat);
            lemma_weight_next(large as nat);
            lemma_weight_next((large - 1) as nat);
            assert(is_nearest(exact, large as nat));
            lemma_nearest(exact, large);
        }
        large
    } else {
        let apart: u128 = power(high - low);
        let most: u64 = large - high as u64 * STEP;
        let least: u64 = small - low as u64 * STEP;
        proof {
            lemma_apart((high - low) as nat);
            lemma_aligned(most as nat, high as nat, low as nat, apart as nat);
            assert(most * apart <= TWO_STEPS * apart) by (nonlinear_arith)
                requires
                    most <= TWO_STEPS,
            ;
            let power = pow2(low as nat);
            lemma_pow2_pos(low as nat);
            assert(most * apart >= least) by (nonlinear_arith)
                requires
                    (most * apart) * power >= least * power,
                    power > 0,
            ;
            assert((most * apart - least) * power == (most * apart) * power - least * power)
                by (nonlinear_arith);
        }
        round(most as u128 * apart - least as u128, low)
    }
}

proof fn lemma_apart(distance: nat)
    requires
        distance <= 54,
    ensures
        1 <= pow2(distance) <= 2 * TWO_STEPS,
{
    vstd::arithmetic::power2::lemma2_to64();
    vstd::arithmetic::power2::lemma2_to64_rest();
    lemma_pow2_pos(distance);
    if distance < 54 {
        lemma_pow2_strictly_increases(distance, 54);
    }
}

/// A significand brought to a smaller shift.
proof fn lemma_aligned(significand: nat, high: nat, low: nat, apart: nat)
    requires
        low <= high,
        apart == pow2((high - low) as nat),
    ensures
        significand * pow2(high) == (significand * apart) * pow2(low),
{
    lemma_pow2_adds((high - low) as nat, low);
    let power = pow2(low);
    assert(significand * (apart * power) == (significand * apart) * power) by (nonlinear_arith);
}

/// A number made of its sign and the rest of its bits.
pub open spec fn signed(negative: bool, magnitude: u64) -> Number {
    Number {
        bits: if negative {
            (SIGN + magnitude) as u64
        } else {
            magnitude
        },
    }
}

/// Makes a number of its sign and the rest of its bits.
fn with_sign(negative: bool, magnitude: u64) -> (number: Number)
    requires
        magnitude < SIGN,
    ensures
        number == signed(negative, magnitude),
{
    if negative {
        Number { bits: SIGN + magnitude }
    } else {
        Number { bits: magnitude }
    }
}

impl Number {
    /// The bits of the number without its sign.
    pub open spec fn magnitude(self) -> u64 {
        if self.bits >= SIGN {
            (self.bits - SIGN) as u64
        } else {
            self.bits
        }
    }

    pub open spec fn nan(self) -> bool {
        self.magnitude() > INFINITY
    }

    pub open spec fn finite(self) -> bool {
        self.magnitude() < INFINITY
    }

    /// Whether the number is zero or more, be it with a sign; what is not a number is not.
    pub open spec fn non_negative(self) -> bool {
        self.bits <= INFINITY || self.bits == SIGN
    }

    /// Whether the number is above zero; what is not a number is not.
    pub open spec fn positive(self) -> bool {
        0 < self.bits <= INFINITY
    }

    /// Whether the number is zero or less; what is not a number is not.
    pub open spec fn not_positive(self) -> bool {
        self.bits == 0 || SIGN <= self.bits <= SIGN + INFINITY
    }

    /// Whether the number is below zero; what is not a number is not.
    pub open spec fn below_zero(self) -> bool {
        SIGN < self.bits <= SIGN + INFINITY
    }

    /// Whether the number is one that a queue takes for a size: finite, and zero or more.
    pub open spec fn countable(self) -> bool {
        self.bits < INFINITY || self.bits == SIGN
    }

    pub open spec fn negative(self) -> bool {
        self.bits >= SIGN
    }

    /// The number with the other sign.
    pub open spec fn negated(self) -> Number {
        signed(!self.negative(), self.magnitude())
    }

    /// The sum of two numbers. That of infinities of unlike sign is not a number.
    #[verifier::opaque]
    pub open spec fn plus(self, other: Number) -> Number {
        let first = weight(self.magnitude() as nat);
        let second = weight(other.magnitude() as nat);
        if self.nan() || other.nan() {
            Number { bits: NAN }
        } else if !self.finite() && !other.finite() {
            if self.negative() == other.negative() {
                self
            } else {
                Number { bits: NAN }
            }
        } else if !self.finite() {
            self
        } else if !other.finite() {
            other
        } else if self.negative() == other.negative() {
            signed(self.negative(), nearest(first + second))
        } else if first > second {
            signed(self.negative(), nearest((first - second) as nat))
        } else if first < second {
            signed(other.negative(), nearest((second - first) as nat))
        } else {
            Number { bits: 0 }
        }
    }

    /// The difference of two numbers.
    #[verifier::opaque]
    pub open spec fn minus(self, other: Number) -> Number {
        self.plus(other.negated())
    }

    /// Whether the number is one that a count can be taken from: finite, and not below zero
    /// once its fraction is dropped.
    pub open spec fn in_range(self) -> bool {
        self.finite() && self.bits < SIGN + ONE
    }

    /// The number without its fraction, as far as the counter goes.
    #[verifier::opaque]
    pub open spec fn whole(self) -> u64 {
        let count = weight(self.magnitude() as nat) / pow2(FINEST as nat);
        if self.bits >= SIGN {
            0
        } else if count > u64::MAX {
            u64::MAX
        } else {
            count as u64
        }
    }

    /// The number nearest to a count.
    #[verifier::opaque]
    pub open spec fn counted(count: nat) -> Number {
        Number { bits: nearest(count * pow2(FINEST as nat)) }
    }

    fn without_sign(self) -> (magnitude: u64)
        ensures
            magnitude == self.magnitude(),
    {
        if self.bits >= SIGN {
            self.bits - SIGN
        } else {
            self.bits
        }
    }

    pub fn is_nan(self) -> (nan: bool)
        ensures
            nan == self.nan(),
    {
        self.without_sign() > INFINITY
    }

    pub fn is_finite(self) -> (finite: bool)
        ensures
            finite == self.finite(),
    {
        self.without_sign() < INFINITY
    }

    pub fn is_positive(self) -> (positive: bool)
        ensures
            positive == self.positive(),
    {
        0 < self.bits && self.bits <= INFINITY
    }

    pub fn is_below_zero(self) -> (below_zero: bool)
        ensures
            below_zero == self.below_zero(),
    {
        SIGN < self.bits && self.bits <= SIGN + INFINITY
    }

    pub fn is_not_positive(self) -> (not_positive: bool)
        ensures
            not_positive == self.not_positive(),
    {
        self.bits == 0 || (SIGN <= self.bits && self.bits <= SIGN + INFINITY)
    }

    /// Adds two numbers.
    pub fn add(self, other: Number) -> (sum: Number)
        ensures
            sum == self.plus(other),
    {
        proof {
            reveal(Number::plus);
        }
        if self.is_nan() || other.is_nan() {
            return Number { bits: NAN };
        }
        let alike: bool = (self.bits >= SIGN) == (other.bits >= SIGN);
        if !self.is_finite() {
            return if other.is_finite() || alike {
                self
            } else {
                Number { bits: NAN }
            };
        }
        if !other.is_finite() {
            return other;
        }
        let first: u64 = self.without_sign();
        let second: u64 = other.without_sign();
        if alike {
            with_sign(self.bits >= SIGN, add_magnitudes(first, second))
        } else if first > second {
            proof {
                lemma_weight_increases(second as nat, first as nat);
            }
            with_sign(self.bits >= SIGN, subtract_magnitudes(first, second))
        } else if first < second {
            proof {
                lemma_weight_increases(first as nat, second as nat);
            }
            with_sign(other.bits >= SIGN, subtract_magnitudes(second, first))
        } else {
            Number { bits: 0 }
        }
    }

    /// Subtracts a number from another.
    pub fn subtract(self, other: Number) -> (difference: Number)
        ensures
            difference == self.minus(other),
    {
        proof {
            reveal(Number::minus);
        }
        self.add(with_sign(other.bits < SIGN, other.without_sign()))
    }

    /// Whether a count can be taken from the number.
    pub fn is_in_range(self) -> (in_range: bool)
        ensures
            in_range == self.in_range(),
    {
        self.is_finite() && self.bits < SIGN + ONE
    }

    /// Takes a count from the number.
    pub fn to_count(self) -> (count: u64)
        requires
            self.in_range(),
        ensures
            count == self.whole(),
    {
        proof {
            reveal(Number::whole);
        }
        if self.bits >= SIGN {
            return 0;
        }
        let place: u32 = shift(self.bits);
        let significand: u64 = self.bits - place as u64 * STEP;
        let ghost exact = significand as nat * pow2(place as nat);
        proof {
            lemma_parts(self.bits as nat);
        }
        if place >= FINEST {
            let up: u32 = place - FINEST;
            proof {
                lemma_shifted_up(significand as nat, place as nat);
            }
            if up >= 64 {
                proof {
                    lemma_beyond_counter(significand as nat, up as nat);
                }
                u64::MAX
            } else {
                let unit: u128 = power(up);
                proof {
                    assert(significand * unit <= TWO_STEPS * unit) by (nonlinear_arith)
                        requires
                            significand <= TWO_STEPS,
                    ;
                }
                let count: u128 = significand as u128 * unit;
                if count > u64::MAX as u128 {
                    u64::MAX
                } else {
                    count as u64
                }
            }
        } else {
            let down: u32 = FINEST - place;
            proof {
                lemma_shifted_down(significand as nat, place as nat);
            }
            if down >= 64 {
                proof {
                    lemma_below_one(significand as nat, down as nat);
                }
                0
            } else {
                let unit: u128 = power(down);
                proof {
                    lemma_pow2_pos(down as nat);
                    lemma_division(significand as int, unit as int);
                    assert(significand as int / unit as int <= significand) by (nonlinear_arith)
                        requires
                            significand as int == unit * (significand as int / unit as int)
                                + significand as int % unit as int,
                            0 <= significand as int % unit as int,
                            unit >= 1,
                            significand >= 0,
                    ;
                }
                (significand as u128 / unit) as u64
            }
        }
    }

    /// The number for a count.
    pub fn of_count(count: u128) -> (number: Number)
        ensures
            number == Number::counted(count as nat),
    {
        proof {
            reveal(Number::counted);
        }
        Number { bits: round(count, FINEST) }
    }
}

/// Every exact result has a nearest number. The search begins at one that is not above it.
proof fn lemma_some_is_nearest(exact: nat, magnitude: nat)
    requires
        magnitude <= INFINITY,
        weight(magnitude) <= exact,
    ensures
        is_nearest(exact, nearest(exact) as nat),
    decreases INFINITY - magnitude,
{
    if magnitude == INFINITY {
        lemma_nearest_beyond(exact, magnitude);
        lemma_nearest(exact, INFINITY);
    } else if exact >= weight(magnitude + 1) {
        lemma_some_is_nearest(exact, magnitude + 1);
    } else {
        lemma_nearest_between(exact, magnitude);
        if is_nearest(exact, magnitude) {
            lemma_nearest(exact, magnitude as u64);
        } else {
            lemma_nearest(exact, (magnitude + 1) as u64);
        }
    }
}

proof fn lemma_nearest_bounds(exact: nat)
    ensures
        nearest(exact) <= INFINITY,
        nearest(exact) == 0 <==> exact == 0,
{
    lemma_weight_of(0, 0);
    lemma_weight_next(0);
    vstd::arithmetic::power2::lemma2_to64();
    lemma_some_is_nearest(exact, 0);
    if exact == 0 {
        assert(is_nearest(0, 0));
        lemma_nearest(0, 0);
    }
}

/// A number that there is needs no rounding.
proof fn lemma_nearest_exact(magnitude: u64)
    requires
        magnitude < INFINITY,
    ensures
        nearest(weight(magnitude as nat)) == magnitude,
{
    lemma_weight_next(magnitude as nat);
    lemma_nearest_between(weight(magnitude as nat), magnitude as nat);
    lemma_nearest(weight(magnitude as nat), magnitude);
}

/// The difference of two numbers tells which is the larger, however it is rounded: it is above
/// zero just where the first is.
pub proof fn law_difference_tells_larger(first: Number, second: Number)
    requires
        first.countable(),
        second.countable(),
    ensures
        first.minus(second).positive() <==> first.magnitude() > second.magnitude(),
        first.minus(second).not_positive() <==> first.magnitude() <= second.magnitude(),
{
    reveal(Number::plus);
    reveal(Number::minus);
    let large = first.magnitude() as nat;
    let small = second.magnitude() as nat;
    lemma_weight_of(0, 0);
    assert(weight(0) == 0);
    if large > small {
        lemma_weight_increases(small, large);
        lemma_nearest_bounds((weight(large) - weight(small)) as nat);
        lemma_nearest_bounds(weight(large) + weight(small));
    } else if large < small {
        lemma_weight_increases(large, small);
        lemma_nearest_bounds((weight(small) - weight(large)) as nat);
        lemma_nearest_bounds(weight(large) + weight(small));
    } else {
        lemma_nearest_bounds(weight(large) + weight(small));
    }
}

/// What is added to nothing is as it was, and taken away from itself leaves nothing.
pub proof fn law_sum_of_one(size: Number)
    requires
        size.countable(),
    ensures
        (Number { bits: 0 }).plus(size) == (Number { bits: size.magnitude() }),
        (Number { bits: 0 }).plus(size).minus(size) == (Number { bits: 0 }),
{
    reveal(Number::plus);
    reveal(Number::minus);
    vstd::arithmetic::power2::lemma2_to64();
    lemma_weight_of(0, 0);
    lemma_nearest_exact(size.magnitude());
    lemma_nearest_exact(0);
}

/// A high-water mark that has no bound is never reached by a queue whose total is finite.
pub proof fn law_no_bound(total: Number)
    requires
        total.finite(),
    ensures
        (Number { bits: INFINITY }).minus(total) == (Number { bits: INFINITY }),
{
    reveal(Number::plus);
    reveal(Number::minus);
}

proof fn lemma_shifted_up(significand: nat, place: nat)
    requires
        place >= FINEST,
    ensures
        (significand * pow2(place)) / pow2(FINEST as nat) == significand * pow2(
            (place - FINEST) as nat,
        ),
{
    let unit = pow2(FINEST as nat);
    let rest = pow2((place - FINEST) as nat);
    lemma_pow2_pos(FINEST as nat);
    lemma_pow2_adds((place - FINEST) as nat, FINEST as nat);
    assert(significand * (rest * unit) == (significand * rest) * unit) by (nonlinear_arith);
    vstd::arithmetic::div_mod::lemma_div_multiples_vanish((significand * rest) as int, unit as int);
    assert((significand * rest) * unit == unit * (significand * rest)) by (nonlinear_arith);
}

proof fn lemma_shifted_down(significand: nat, place: nat)
    requires
        place < FINEST,
    ensures
        (significand * pow2(place)) / pow2(FINEST as nat) == significand / pow2(
            (FINEST - place) as nat,
        ),
{
    let power = pow2(place);
    let unit = pow2((FINEST - place) as nat);
    lemma_pow2_pos(place);
    lemma_pow2_pos((FINEST - place) as nat);
    lemma_pow2_adds(place, (FINEST - place) as nat);
    vstd::arithmetic::div_mod::lemma_div_denominator(
        (significand * power) as int,
        power as int,
        unit as int,
    );
    assert(significand * power == power * significand) by (nonlinear_arith);
    vstd::arithmetic::div_mod::lemma_div_multiples_vanish(significand as int, power as int);
}

proof fn lemma_beyond_counter(significand: nat, up: nat)
    requires
        significand >= 1,
        up >= 64,
    ensures
        significand * pow2(up) > u64::MAX,
{
    vstd::arithmetic::power2::lemma2_to64();
    vstd::arithmetic::power2::lemma2_to64_rest();
    if up > 64 {
        lemma_pow2_strictly_increases(64, up);
    }
    assert(significand * pow2(up) >= pow2(up)) by (nonlinear_arith)
        requires
            significand >= 1,
    ;
}

proof fn lemma_below_one(significand: nat, down: nat)
    requires
        significand < TWO_STEPS,
        down >= 64,
    ensures
        significand / pow2(down) == 0,
{
    vstd::arithmetic::power2::lemma2_to64();
    vstd::arithmetic::power2::lemma2_to64_rest();
    if down > 64 {
        lemma_pow2_strictly_increases(64, down);
    }
    vstd::arithmetic::div_mod::lemma_basic_div(significand as int, pow2(down) as int);
}

} // verus!
