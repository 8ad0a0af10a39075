//! Exact decimal amounts of money.
//!
//! An [`Amount`] is a signed mantissa of at most 96 bits together with a
//! scale, the number of digits after the decimal point. Its meaning is the
//! integer [`Amount::units`]: the value counted in steps of 10^-28, the
//! finest step any amount can have. Sums and differences are computed by the
//! `rust_decimal` crate; every result is checked against that integer before
//! it is let in, so that no rounded value ever reaches a balance.

use rust_decimal::Decimal;
use vstd::prelude::*;

verus! {

/// Largest number of digits after the decimal point.
pub const MAX_SCALE: u32 = 28;

/// Largest magnitude of a mantissa, 2^96 - 1.
pub const MAX_MANTISSA: i128 = 79_228_162_514_264_337_593_543_950_335;

/// The number of units in one whole, 10^28.
pub const UNITS_PER_ONE: i128 = 10_000_000_000_000_000_000_000_000_000;

/// The power of ten with exponent `n`.
spec fn pow10(n: nat) -> int
    decreases n,
{
    if n == 0 {
        1
    } else {
        10 * pow10((n - 1) as nat)
    }
}

/// Whether a mantissa and a scale are within the limits of an amount.
pub open spec fn valid_parts(mantissa: i128, scale: u32) -> bool {
    scale <= MAX_SCALE && -MAX_MANTISSA <= mantissa <= MAX_MANTISSA
}

/// The value of `mantissa / 10^scale`, counted in units of 10^-28: the
/// mantissa times 10^(28 - scale).
pub open spec fn units_of(mantissa: i128, scale: u32) -> int {
    match scale {
        0 => mantissa * 10_000_000_000_000_000_000_000_000_000,
        1 => mantissa * 1_000_000_000_000_000_000_000_000_000,
        2 => mantissa * 100_000_000_000_000_000_000_000_000,
        3 => mantissa * 10_000_000_000_000_000_000_000_000,
        4 => mantissa * 1_000_000_000_000_000_000_000_000,
        5 => mantissa * 100_000_000_000_000_000_000_000,
        6 => mantissa * 10_000_000_000_000_000_000_000,
        7 => mantissa * 1_000_000_000_000_000_000_000,
        8 => mantissa * 100_000_000_000_000_000_000,
        9 => mantissa * 10_000_000_000_000_000_000,
        10 => mantissa * 1_000_000_000_000_000_000,
        11 => mantissa * 100_000_000_000_000_000,
        12 => mantissa * 10_000_000_000_000_000,
        13 => mantissa * 1_000_000_000_000_000,
        14 => mantissa * 100_000_000_000_000,
        15 => mantissa * 10_000_000_000_000,
        16 => mantissa * 1_000_000_000_000,
        17 => mantissa * 100_000_000_000,
        18 => mantissa * 10_000_000_000,
        19 => mantissa * 1_000_000_000,
        20 => mantissa * 100_000_000,
        21 => mantissa * 10_000_000,
        22 => mantissa * 1_000_000,
        23 => mantissa * 100_000,
        24 => mantissa * 10_000,
        25 => mantissa * 1_000,
        26 => mantissa * 100,
        27 => mantissa * 10,
        28 => mantissa * 1,
        _ => 0,
    }
}

/// What `rust_decimal` returns for the checked sum of the decimal with
/// mantissa `a_mantissa` and scale `a_scale` and the decimal with mantissa
/// `b_mantissa` and scale `b_scale`: the mantissa and scale of the result, or
/// `None` where it reports an overflow.
pub uninterp spec fn decimal_sum(
    a_mantissa: i128,
    a_scale: u32,
    b_mantissa: i128,
    b_scale: u32,
) -> Option<(i128, u32)>;

/// What `rust_decimal` returns for the checked difference of the decimal with
/// mantissa `a_mantissa` and scale `a_scale` and the decimal with mantissa
/// `b_mantissa` and scale `b_scale`: the mantissa and scale of the result, or
/// `None` where it reports an overflow.
pub uninterp spec fn decimal_difference(
    a_mantissa: i128,
    a_scale: u32,
    b_mantissa: i128,
    b_scale: u32,
) -> Option<(i128, u32)>;

/// An exact decimal number: `mantissa / 10^scale`.
#[derive(Clone, Copy, Debug, PartialEq, Eq, Hash, Structural)]
pub struct Amount {
    pub(crate) mantissa: i128,
    pub(crate) scale: u32,
}

/// A power of ten is at least one.
proof fn lemma_pow10_positive(n: nat)
    ensures
        pow10(n) >= 1,
    decreases n,
{
    if n > 0 {
        lemma_pow10_positive((n - 1) as nat);
    }
}

/// A larger exponent gives no smaller power of ten.
proof fn lemma_pow10_increasing(a: nat, b: nat)
    requires
        a <= b,
    ensures
        pow10(a) <= pow10(b),
    decreases b,
{
    if a < b {
        lemma_pow10_increasing(a, (b - 1) as nat);
        lemma_pow10_positive((b - 1) as nat);
    }
}

/// Exponents add where powers of ten are multiplied.
proof fn lemma_pow10_product(a: nat, b: nat)
    ensures
        pow10(a + b) == pow10(a) * pow10(b),
    decreases a,
{
    if a == 0 {
        assert(pow10(0) == 1);
        assert(1 * pow10(b) == pow10(b));
    } else {
        let rest = (a - 1) as nat;
        lemma_pow10_product(rest, b);
        assert(pow10(a + b) == 10 * pow10(rest + b));
        assert(pow10(a) == 10 * pow10(rest));
        assert(10 * (pow10(rest) * pow10(b)) == (10 * pow10(rest)) * pow10(b))
            by (nonlinear_arith);
    }
}

/// One whole is 10^28 units.
proof fn lemma_units_per_one()
    ensures
        pow10(MAX_SCALE as nat) == UNITS_PER_ONE,
{
    reveal_with_fuel(pow10, 30);
}

/// The table of `units_of` holds the powers of ten.
proof fn lemma_units_of(mantissa: i128, scale: u32)
    requires
        scale <= MAX_SCALE,
    ensures
        units_of(mantissa, scale) == mantissa * pow10((MAX_SCALE - scale) as nat),
{
    reveal_with_fuel(pow10, 30);
}

/// A number has one place only among the multiples of a positive step.
proof fn lemma_place_is_unique(step: int, whole_a: int, part_a: int, whole_b: int, part_b: int)
    requires
        step > 0,
        0 <= part_a < step,
        0 <= part_b < step,
        whole_a * step + part_a == whole_b * step + part_b,
    ensures
        whole_a == whole_b,
        part_a == part_b,
{
    assert((whole_a - whole_b) * step == part_b - part_a) by (nonlinear_arith)
        requires
            whole_a * step + part_a == whole_b * step + part_b,
    ;
    assert(whole_a - whole_b == 0) by (nonlinear_arith)
        requires
            step > 0,
            -step < (whole_a - whole_b) * step < step,
    ;
}

/// From a magnitude split by `divisor` to its units split by `divisor * shift`.
proof fn lemma_split_magnitude(magnitude: int, divisor: int, shift: int, whole: int, rest: int)
    requires
        divisor > 0,
        shift > 0,
        magnitude == whole * divisor + rest,
        0 <= rest < divisor,
    ensures
        magnitude * shift == whole * (divisor * shift) + rest * shift,
        0 <= rest * shift < divisor * shift,
{
    assert((whole * divisor + rest) * shift == whole * (divisor * shift) + rest * shift)
        by (nonlinear_arith);
    assert(0 <= rest * shift < divisor * shift) by (nonlinear_arith)
        requires
            shift > 0,
            0 <= rest < divisor,
    ;
}

/// The power of ten with exponent `k`, for the exponents a scale can take.
fn power_of_ten(k: u32) -> (p: u128)
    requires
        k <= MAX_SCALE,
    ensures
        p == pow10(k as nat),
        1 <= p <= UNITS_PER_ONE,
{
    let mut p: u128 = 1;
    let mut i: u32 = 0;
    proof {
        lemma_units_per_one();
    }
    while i < k
        invariant
            i <= k <= MAX_SCALE,
            p == pow10(i as nat),
            1 <= p <= UNITS_PER_ONE,
            pow10(MAX_SCALE as nat) == UNITS_PER_ONE,
        decreases k - i,
    {
        proof {
            lemma_pow10_increasing((i + 1) as nat, MAX_SCALE as nat);
            lemma_pow10_positive((i + 1) as nat);
        }
        p = p * 10;
        i = i + 1;
    }
    p
}

impl Amount {
    /// Every amount keeps within the limits of a 96-bit decimal.
    #[verifier::type_invariant]
    pub open(crate) spec fn valid(self) -> bool {
        valid_parts(self.mantissa, self.scale)
    }

    /// The amount with the given mantissa and scale.
    pub open(crate) spec fn of(mantissa: i128, scale: u32) -> Amount {
        Amount { mantissa, scale }
    }

    /// The mantissa, as contracts speak of it.
    pub open(crate) spec fn mantissa_part(self) -> i128 {
        self.mantissa
    }

    /// The scale, as contracts speak of it.
    pub open(crate) spec fn scale_part(self) -> u32 {
        self.scale
    }

    /// The value of the amount, counted in units of 10^-28.
    pub open spec fn units(self) -> int {
        units_of(self.mantissa_part(), self.scale_part())
    }

    /// The sum that `computed` stands for, if it is within the limits of an
    /// amount and is exactly `a + b`.
    pub open spec fn accepted_sum(a: Amount, b: Amount, computed: Option<(i128, u32)>) -> Option<
        Amount,
    > {
        match computed {
            Some((mantissa, scale)) => if valid_parts(mantissa, scale) && units_of(mantissa, scale)
                == a.units() + b.units() {
                Some(Amount::of(mantissa, scale))
            } else {
                None
            },
            None => None,
        }
    }

    /// The difference that `computed` stands for, if it is within the limits
    /// of an amount and is exactly `a - b`.
    pub open spec fn accepted_difference(
        a: Amount,
        b: Amount,
        computed: Option<(i128, u32)>,
    ) -> Option<Amount> {
        match computed {
            Some((mantissa, scale)) => if valid_parts(mantissa, scale) && units_of(mantissa, scale)
                == a.units() - b.units() {
                Some(Amount::of(mantissa, scale))
            } else {
                None
            },
            None => None,
        }
    }

    /// `self + other` as the decimal arithmetic gives it, where that is exact.
    pub open spec fn plus(self, other: Amount) -> Option<Amount> {
        Amount::accepted_sum(
            self,
            other,
            decimal_sum(
                self.mantissa_part(),
                self.scale_part(),
                other.mantissa_part(),
                other.scale_part(),
            ),
        )
    }

    /// `self - other` as the decimal arithmetic gives it, where that is exact.
    pub open spec fn minus(self, other: Amount) -> Option<Amount> {
        Amount::accepted_difference(
            self,
            other,
            decimal_difference(
                self.mantissa_part(),
                self.scale_part(),
                other.mantissa_part(),
                other.scale_part(),
            ),
        )
    }

    /// Zero, with no digits after the point.
    pub fn zero() -> (r: Amount)
        ensures
            r == Amount::of(0, 0),
            r.units() == 0,
    {
        Amount { mantissa: 0, scale: 0 }
    }

    /// The amount `num / 10^scale`.
    pub fn new(num: i64, scale: u32) -> (r: Amount)
        requires
            scale <= MAX_SCALE,
        ensures
            r == Amount::of(num as i128, scale),
    {
        Amount { mantissa: num as i128, scale }
    }

    /// The amount `mantissa / 10^scale`, if a 96-bit decimal can hold it.
    pub fn from_parts(mantissa: i128, scale: u32) -> (r: Option<Amount>)
        ensures
            r == if valid_parts(mantissa, scale) {
                Some(Amount::of(mantissa, scale))
            } else {
                None
            },
    {
        if scale <= MAX_SCALE && -MAX_MANTISSA <= mantissa && mantissa <= MAX_MANTISSA {
            Some(Amount { mantissa, scale })
        } else {
            None
        }
    }

    /// The mantissa: the digits of the amount, read as an integer.
    pub fn mantissa(&self) -> (m: i128)
        ensures
            m == self.mantissa_part(),
            -MAX_MANTISSA <= m <= MAX_MANTISSA,
    {
        proof {
            use_type_invariant(self);
        }
        self.mantissa
    }

    /// The scale: how many of the digits stand after the decimal point.
    pub fn scale(&self) -> (s: u32)
        ensures
            s == self.scale_part(),
            s <= MAX_SCALE,
    {
        proof {
            use_type_invariant(self);
        }
        self.scale
    }

    /// Writes the units as `whole * 10^28 + part` with `0 <= part < 10^28`.
    fn split(self) -> (r: (i128, i128))
        ensures
            self.units() == r.0 * UNITS_PER_ONE + r.1,
            0 <= r.1 < UNITS_PER_ONE,
            -MAX_MANTISSA - 1 <= r.0 <= MAX_MANTISSA,
    {
        proof {
            use_type_invariant(self);
        }
        let shift: u128 = power_of_ten(MAX_SCALE - self.scale);
        let divisor: u128 = power_of_ten(self.scale);
        let magnitude: u128 = if self.mantissa < 0 {
            (-self.mantissa) as u128
        } else {
            self.mantissa as u128
        };
        let whole: u128 = magnitude / divisor;
        let rest: u128 = magnitude % divisor;
        proof {
            lemma_units_per_one();
            lemma_units_of(self.mantissa, self.scale);
            lemma_pow10_product(self.scale as nat, (MAX_SCALE - self.scale) as nat);
            vstd::arithmetic::div_mod::lemma_fundamental_div_mod(magnitude as int, divisor as int);
            assert(magnitude as int == (divisor as int) * (whole as int) + (rest as int));
            assert((divisor as int) * (whole as int) == (whole as int) * (divisor as int))
                by (nonlinear_arith);
            lemma_split_magnitude(
                magnitude as int,
                divisor as int,
                shift as int,
                whole as int,
                rest as int,
            );
            assert(whole <= magnitude) by (nonlinear_arith)
                requires
                    magnitude as int == (whole as int) * (divisor as int) + (rest as int),
                    divisor >= 1,
                    rest >= 0,
                    whole >= 0,
            ;
        }
        let part: u128 = rest * shift;
        proof {
            assert(self.mantissa >= 0 ==> self.units() == magnitude * shift);
            assert(self.mantissa < 0 ==> self.units() == -(magnitude * shift)) by (nonlinear_arith)
                requires
                    self.mantissa < 0 ==> self.mantissa == -(magnitude as int),
                    self.units() == self.mantissa * (shift as int),
            ;
        }
        if self.mantissa >= 0 {
            (whole as i128, part as i128)
        } else if part == 0 {
            (-(whole as i128), 0)
        } else {
            assert((-(whole as int) - 1) * UNITS_PER_ONE + (UNITS_PER_ONE - part) == -(whole
                * UNITS_PER_ONE + part)) by (nonlinear_arith);
            (-(whole as i128) - 1, UNITS_PER_ONE - part as i128)
        }
    }

    /// Whether `self` is exactly `a + b`.
    pub fn is_sum_of(self, a: Amount, b: Amount) -> (r: bool)
        ensures
            r == (self.units() == a.units() + b.units()),
    {
        let (whole_a, part_a) = a.split();
        let (whole_b, part_b) = b.split();
        let (whole, part) = self.split();
        let parts: i128 = part_a + part_b;
        let carried: bool = parts >= UNITS_PER_ONE;
        let sum_whole: i128 = if carried {
            whole_a + whole_b + 1
        } else {
            whole_a + whole_b
        };
        let sum_part: i128 = if carried {
            parts - UNITS_PER_ONE
        } else {
            parts
        };
        proof {
            assert(a.units() + b.units() == sum_whole * UNITS_PER_ONE + sum_part)
                by (nonlinear_arith)
                requires
                    a.units() == whole_a * UNITS_PER_ONE + part_a,
                    b.units() == whole_b * UNITS_PER_ONE + part_b,
                    sum_whole == whole_a + whole_b + (if carried {
                        1int
                    } else {
                        0int
                    }),
                    sum_part == part_a + part_b - (if carried {
                        UNITS_PER_ONE as int
                    } else {
                        0int
                    }),
            ;
            if self.units() == a.units() + b.units() {
                lemma_place_is_unique(
                    UNITS_PER_ONE as int,
                    whole as int,
                    part as int,
                    sum_whole as int,
                    sum_part as int,
                );
            }
        }
        whole == sum_whole && part == sum_part
    }

    /// Lets a computed sum in only where it is an amount and exactly `a + b`.
    pub fn exact_sum(a: Amount, b: Amount, computed: Option<(i128, u32)>) -> (r: Option<Amount>)
        ensures
            r == Amount::accepted_sum(a, b, computed),
    {
        match computed {
            Some((mantissa, scale)) => match Amount::from_parts(mantissa, scale) {
                Some(sum) => if sum.is_sum_of(a, b) {
                    Some(sum)
                } else {
                    None
                },
                None => None,
            },
            None => None,
        }
    }

    /// Lets a computed difference in only where it is an amount and exactly
    /// `a - b`.
    pub fn exact_difference(a: Amount, b: Amount, computed: Option<(i128, u32)>) -> (r: Option<
        Amount,
    >)
        ensures
            r == Amount::accepted_difference(a, b, computed),
    {
        match computed {
            Some((mantissa, scale)) => match Amount::from_parts(mantissa, scale) {
                Some(difference) => if a.is_sum_of(difference, b) {
                    Some(difference)
                } else {
                    None
                },
                None => None,
            },
            None => None,
        }
    }

    /// `self + other`, or `None` where the decimal arithmetic overflows or
    /// would round.
    pub fn checked_add(self, other: Amount) -> (r: Option<Amount>)
        ensures
            r == self.plus(other),
            r matches Some(sum) ==> sum.units() == self.units() + other.units(),
    {
        proof {
            use_type_invariant(self);
            use_type_invariant(other);
        }
        let computed = decimal_checked_add(self, other);
        Amount::exact_sum(self, other, computed)
    }

    /// `self - other`, or `None` where the decimal arithmetic overflows or
    /// would round.
    pub fn checked_sub(self, other: Amount) -> (r: Option<Amount>)
        ensures
            r == self.minus(other),
            r matches Some(difference) ==> difference.units() == self.units() - other.units(),
    {
        proof {
            use_type_invariant(self);
            use_type_invariant(other);
        }
        let computed = decimal_checked_sub(self, other);
        Amount::exact_difference(self, other, computed)
    }

    /// Whether `self` is strictly greater than `other`.
    pub fn exceeds(self, other: Amount) -> (r: bool)
        ensures
            r == (self.units() > other.units()),
    {
        proof {
            use_type_invariant(self);
            use_type_invariant(other);
        }
        decimal_greater(self, other)
    }

    /// Whether the amount is strictly greater than zero.
    pub fn is_positive(self) -> (r: bool)
        ensures
            r == (self.units() > 0),
    {
        self.exceeds(Amount::zero())
    }
}

/// Calls `Decimal::checked_add` of `rust_decimal` on the two amounts and
/// hands back the mantissa and scale of what it returned. Nothing is claimed
/// of the result but that it is the one the crate gives for these operands.
#[verifier::external_body]
fn decimal_checked_add(a: Amount, b: Amount) -> (r: Option<(i128, u32)>)
    requires
        a.valid(),
        b.valid(),
    ensures
        r == decimal_sum(a.mantissa, a.scale, b.mantissa, b.scale),
{
    let x = Decimal::from_i128_with_scale(a.mantissa, a.scale);
    let y = Decimal::from_i128_with_scale(b.mantissa, b.scale);
    match x.checked_add(y) {
        Some(sum) => Some((sum.mantissa(), sum.scale())),
        None => None,
    }
}

/// Calls `Decimal::checked_sub` of `rust_decimal` on the two amounts and
/// hands back the mantissa and scale of what it returned. Nothing is claimed
/// of the result but that it is the one the crate gives for these operands.
#[verifier::external_body]
fn decimal_checked_sub(a: Amount, b: Amount) -> (r: Option<(i128, u32)>)
    requires
        a.valid(),
        b.valid(),
    ensures
        r == decimal_difference(a.mantissa, a.scale, b.mantissa, b.scale),
{
    let x = Decimal::from_i128_with_scale(a.mantissa, a.scale);
    let y = Decimal::from_i128_with_scale(b.mantissa, b.scale);
    match x.checked_sub(y) {
        Some(difference) => Some((difference.mantissa(), difference.scale())),
        None => None,
    }
}

/// Compares the two amounts with the `>` that `rust_decimal` gives its
/// `Decimal`. The crate orders decimals by their numeric value, whatever
/// their scales: the contract says that, over the units of both.
#[verifier::external_body]
fn decimal_greater(a: Amount, b: Amount) -> (r: bool)
    requires
        a.valid(),
        b.valid(),
    ensures
        r == (a.units() > b.units()),
{
    let x = Decimal::from_i128_with_scale(a.mantissa, a.scale);
    let y = Decimal::from_i128_with_scale(b.mantissa, b.scale);
    x > y
}

} // verus!
