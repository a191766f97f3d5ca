//! Exact base-10 fixed-point numbers.
//!
//! A `Decimal` stores a signed mantissa `m` and a scale `s` and denotes the
//! number `m / 10^s`, with `s` at most 28 and `|m|` below `2^96` — the value
//! space of the `rust_decimal` crate, which performs the arithmetic behind
//! the trusted wrappers in this module. The mathematical model of a value is
//! its mantissa rescaled to the fixed scale 28 (`DecV::v`), so that two
//! representations of the same number (such as `0.4` and `0.400`) have the
//! same model value.

use vstd::prelude::*;

verus! {

/// `10^n`.
pub open spec fn pow10(n: nat) -> int
    decreases n,
{
    if n == 0 {
        1
    } else {
        10 * pow10((n - 1) as nat)
    }
}

/// Exclusive bound on mantissa magnitudes: `2^96`.
pub open spec fn spec_mantissa_bound() -> int {
    0x1_0000_0000_0000_0000_0000_0000
}

/// Largest scale a decimal can carry.
pub open spec fn spec_max_scale() -> int {
    28
}

/// Mathematical model of a decimal: mantissa `m` at scale `s`, denoting
/// `m / 10^s`.
pub ghost struct DecV {
    pub m: int,
    pub s: int,
}

impl DecV {
    /// The denoted number, expressed exactly as an integer count of units of
    /// `10^-28` (the finest representable grain).
    pub open spec fn v(self) -> int {
        self.m * pow10((spec_max_scale() - self.s) as nat)
    }

    /// A representable decimal: scale within range, mantissa within 96 bits.
    pub open spec fn wf(self) -> bool {
        0 <= self.s <= spec_max_scale() && -spec_mantissa_bound() < self.m < spec_mantissa_bound()
    }
}

/// `pow10` is positive.
pub proof fn lemma_pow10_pos(n: nat)
    ensures
        pow10(n) >= 1,
    decreases n,
{
    if n > 0 {
        lemma_pow10_pos((n - 1) as nat);
    }
}

/// `pow10` is monotonic.
pub proof fn lemma_pow10_mono(a: nat, b: nat)
    requires
        a <= b,
    ensures
        pow10(a) <= pow10(b),
    decreases b,
{
    if a < b {
        lemma_pow10_mono(a, (b - 1) as nat);
        lemma_pow10_pos((b - 1) as nat);
    }
}

/// An exact base-10 fixed-point number: `mantissa / 10^scale`.
#[derive(Clone, Copy, Debug)]
pub struct Decimal {
    mantissa: i128,
    scale: u32,
}

impl View for Decimal {
    type V = DecV;

    closed spec fn view(&self) -> DecV {
        DecV { m: self.mantissa as int, s: self.scale as int }
    }
}

impl Decimal {
    /// Every decimal value in the program satisfies the representation
    /// bounds; constructors establish this and Verus enforces it throughout.
    #[verifier::type_invariant]
    pub open spec fn type_wf(self) -> bool {
        self@.wf()
    }

    /// Builds the decimal `mantissa / 10^scale`; `None` when the scale
    /// exceeds 28 or the mantissa does not fit in 96 bits.
    pub fn from_parts(mantissa: i128, scale: u32) -> (r: Option<Decimal>)
        ensures
            r is Some <==> (DecV { m: mantissa as int, s: scale as int }).wf(),
            r matches Some(d) ==> d@ == (DecV { m: mantissa as int, s: scale as int }),
    {
        if scale <= 28 && mantissa < 0x1_0000_0000_0000_0000_0000_0000i128
            && mantissa > -0x1_0000_0000_0000_0000_0000_0000i128 {
            Some(Decimal { mantissa, scale })
        } else {
            None
        }
    }

    /// The stored mantissa.
    pub fn mantissa(&self) -> (r: i128)
        ensures
            r == self@.m,
    {
        self.mantissa
    }

    /// The stored scale.
    pub fn scale(&self) -> (r: u32)
        ensures
            r == self@.s,
    {
        self.scale
    }

    /// The number `0`, at scale 0.
    pub fn zero() -> (r: Decimal)
        ensures
            r@ == (DecV { m: 0, s: 0 }),
            r@.v() == 0,
    {
        Decimal { mantissa: 0, scale: 0 }
    }

    /// The number `1`, at scale 0.
    pub fn one() -> (r: Decimal)
        ensures
            r@ == (DecV { m: 1, s: 0 }),
    {
        Decimal { mantissa: 1, scale: 0 }
    }

    /// The number `2`, at scale 0.
    pub fn two() -> (r: Decimal)
        ensures
            r@ == (DecV { m: 2, s: 0 }),
    {
        Decimal { mantissa: 2, scale: 0 }
    }

    /// The largest representable decimal: `2^96 - 1`.
    pub fn max_value() -> (r: Decimal)
        ensures
            r@ == (DecV { m: spec_mantissa_bound() - 1, s: 0 }),
    {
        Decimal { mantissa: 0xFFFF_FFFF_FFFF_FFFF_FFFF_FFFFi128, scale: 0 }
    }

    /// The integer `n`, at scale 0.
    pub fn from_u64(n: u64) -> (r: Decimal)
        ensures
            r@ == (DecV { m: n as int, s: 0 }),
    {
        Decimal { mantissa: n as i128, scale: 0 }
    }

    /// Whether this decimal denotes a smaller number than `other`.
    pub fn lt(&self, other: &Decimal) -> (r: bool)
        ensures
            r <==> self@.v() < other@.v(),
    {
        dec_lt(self, other)
    }

    /// Whether this decimal denotes a number no larger than `other`.
    pub fn le(&self, other: &Decimal) -> (r: bool)
        ensures
            r <==> self@.v() <= other@.v(),
    {
        !dec_lt(other, self)
    }

    /// The sum `self + other`; `None` when it cannot be represented.
    pub fn checked_add(&self, other: &Decimal) -> (r: Option<Decimal>)
        ensures
            r is Some <==> add_res(self@, other@) is Some,
            r matches Some(d) ==> d@.wf() && d@ == add_res(self@, other@).unwrap(),
            can_add_exact(self@, other@) ==> (r matches Some(d) && d@ == add_model(
                self@,
                other@,
            )),
    {
        dec_checked_add(self, other)
    }

    /// The difference `self - other`; `None` when it cannot be represented.
    pub fn checked_sub(&self, other: &Decimal) -> (r: Option<Decimal>)
        ensures
            r is Some <==> sub_res(self@, other@) is Some,
            r matches Some(d) ==> d@.wf() && d@ == sub_res(self@, other@).unwrap(),
            can_sub_exact(self@, other@) ==> (r matches Some(d) && d@ == sub_model(
                self@,
                other@,
            )),
    {
        dec_checked_sub(self, other)
    }

    /// The product `self * other`; `None` when it cannot be represented.
    pub fn checked_mul(&self, other: &Decimal) -> (r: Option<Decimal>)
        ensures
            r is Some <==> mul_res(self@, other@) is Some,
            r matches Some(d) ==> d@.wf() && d@ == mul_res(self@, other@).unwrap(),
            can_mul_exact(self@, other@) ==> (r matches Some(d) && d@ == mul_model(
                self@,
                other@,
            )),
    {
        dec_checked_mul(self, other)
    }

    /// The quotient `self / other`, carried to at most 28 fractional digits;
    /// `None` on division by zero or overflow; exact whenever the true
    /// quotient is representable.
    pub fn checked_div(&self, other: &Decimal) -> (r: Option<Decimal>)
        ensures
            r is Some <==> div_res(self@, other@) is Some,
            r matches Some(d) ==> d@.wf() && d@ == div_res(self@, other@).unwrap(),
            other@.v() == 0 ==> r is None,
            self@.v() == 0 && other@.v() != 0 ==> (r matches Some(d) && d@ == (DecV {
                m: 0,
                s: 0,
            })),
            can_div_exact(self@, other@) ==> (r matches Some(d) && d@.v() * other@.v() == self@.v()
                * pow10(28)),
            self@.m != 0 && other@.v() != 0 && self@.s >= other@.s && self@.m % other@.m == 0 ==> (
            r matches Some(d) && d@ == (DecV { m: self@.m / other@.m, s: self@.s - other@.s })),
    {
        dec_checked_div(self, other)
    }

    /// Truncates to `scale` fractional digits, with no rounding: excess
    /// digits are dropped toward zero, and a value with fewer digits gains
    /// trailing zeros as far as 96 bits allow.
    pub fn trunc_with_scale(&self, scale: u32) -> (r: Decimal)
        requires
            scale as int <= spec_max_scale(),
        ensures
            r@ == trunc_model(self@, scale as int),
    {
        proof {
            use_type_invariant(self);
        }
        if self.mantissa == 0 {
            Decimal { mantissa: 0, scale }
        } else if self.scale > scale {
            let p = pow10_i128(self.scale - scale);
            proof {
                lemma_pow10_pos((self.scale - scale) as nat);
            }
            if self.mantissa >= 0 {
                let q = (self.mantissa as u128) / (p as u128);
                proof {
                    vstd::arithmetic::div_mod::lemma_fundamental_div_mod(
                        self.mantissa as int,
                        p as int,
                    );
                    assert(q <= self.mantissa as u128) by (nonlinear_arith)
                        requires
                            q == (self.mantissa as u128) / (p as u128),
                            p >= 1,
                    ;
                }
                Decimal { mantissa: q as i128, scale }
            } else {
                let neg = -self.mantissa;
                let q = (neg as u128) / (p as u128);
                proof {
                    assert(q <= neg as u128) by (nonlinear_arith)
                        requires
                            q == (neg as u128) / (p as u128),
                            p >= 1,
                    ;
                }
                Decimal { mantissa: -(q as i128), scale }
            }
        } else {
            let mut m = self.mantissa;
            let mut s = self.scale;
            while s < scale && m <= MAX_MANTISSA_DIV_10 && m >= -MAX_MANTISSA_DIV_10
                invariant
                    s <= 28,
                    scale <= 28,
                    (DecV { m: m as int, s: s as int }).wf(),
                    m != 0,
                    scale_up_model(DecV { m: m as int, s: s as int }, scale as int)
                        == scale_up_model(self@, scale as int),
                decreases scale as int - s as int,
            {
                m = m * 10;
                s = s + 1;
            }
            proof {
                assert(scale_up_model(DecV { m: m as int, s: s as int }, scale as int) == (DecV {
                    m: m as int,
                    s: s as int,
                }));
            }
            Decimal { mantissa: m, scale: s }
        }
    }

    /// The absolute value, with the scale kept.
    pub fn abs(&self) -> (r: Decimal)
        ensures
            r@ == abs_v(self@),
    {
        proof {
            use_type_invariant(self);
        }
        if self.mantissa < 0 {
            Decimal { mantissa: -self.mantissa, scale: self.scale }
        } else {
            *self
        }
    }

    /// Whether the denoted number is zero.
    pub fn is_zero(&self) -> (r: bool)
        ensures
            r <==> self@.v() == 0,
    {
        proof {
            use_type_invariant(self);
            lemma_pow10_pos((spec_max_scale() - self@.s) as nat);
            if self@.m != 0 {
                vstd::arithmetic::mul::lemma_mul_nonzero(
                    self@.m,
                    pow10((spec_max_scale() - self@.s) as nat),
                );
            }
        }
        self.mantissa == 0
    }
}

/// Largest mantissa that can still be multiplied by 10 within 96 bits.
const MAX_MANTISSA_DIV_10: i128 = 7922816251426433759354395033;

/// The magnitude of a decimal, at the same scale.
pub open spec fn abs_v(x: DecV) -> DecV {
    if x.m >= 0 {
        x
    } else {
        DecV { m: -x.m, s: x.s }
    }
}

/// Integer division truncating toward zero.
pub open spec fn tdiv(a: int, b: int) -> int {
    if a >= 0 {
        a / b
    } else {
        -((-a) / b)
    }
}

/// Raising a mantissa's scale toward `t`, one digit at a time, as long as
/// the mantissa stays within 96 bits.
pub open spec fn scale_up_model(a: DecV, t: int) -> DecV
    decreases t - a.s,
{
    if a.s >= t {
        a
    } else if -spec_mantissa_bound() < a.m * 10 < spec_mantissa_bound() {
        scale_up_model(DecV { m: a.m * 10, s: a.s + 1 }, t)
    } else {
        a
    }
}

/// Truncation to `t` fractional digits, with no rounding: digits beyond `t`
/// are dropped (toward zero); a value with fewer than `t` digits gains
/// trailing zeros as far as 96 bits allow; zero snaps to scale `t`.
pub open spec fn trunc_model(a: DecV, t: int) -> DecV {
    if a.m == 0 {
        DecV { m: 0, s: t }
    } else if a.s > t {
        DecV { m: tdiv(a.m, pow10((a.s - t) as nat)), s: t }
    } else {
        scale_up_model(a, t)
    }
}

/// `10^k` as a machine integer.
fn pow10_i128(k: u32) -> (r: i128)
    requires
        k <= 28,
    ensures
        r == pow10(k as nat),
{
    proof {
        lemma_pow10_28();
    }
    let mut r: i128 = 1;
    let mut i: u32 = 0;
    while i < k
        invariant
            i <= k <= 28,
            r == pow10(i as nat),
            pow10(28) == 10000000000000000000000000000int,
        decreases k - i,
    {
        proof {
            lemma_pow10_pos(i as nat);
            lemma_pow10_mono((i + 1) as nat, 28);
        }
        r = r * 10;
        i = i + 1;
    }
    r
}

/// `10^28` written out.
pub proof fn lemma_pow10_28()
    ensures
        pow10(28) == 10000000000000000000000000000int,
{
    assert(pow10(0) == 1);
    assert(pow10(1) == 10);
    assert(pow10(2) == 100);
    assert(pow10(3) == 1000);
    assert(pow10(4) == 10000);
    assert(pow10(5) == 100000);
    assert(pow10(6) == 1000000);
    assert(pow10(7) == 10000000);
    assert(pow10(8) == 100000000);
    assert(pow10(9) == 1000000000);
    assert(pow10(10) == 10000000000);
    assert(pow10(11) == 100000000000);
    assert(pow10(12) == 1000000000000);
    assert(pow10(13) == 10000000000000);
    assert(pow10(14) == 100000000000000);
    assert(pow10(15) == 1000000000000000);
    assert(pow10(16) == 10000000000000000);
    assert(pow10(17) == 100000000000000000);
    assert(pow10(18) == 1000000000000000000);
    assert(pow10(19) == 10000000000000000000);
    assert(pow10(20) == 100000000000000000000);
    assert(pow10(21) == 1000000000000000000000);
    assert(pow10(22) == 10000000000000000000000);
    assert(pow10(23) == 100000000000000000000000);
    assert(pow10(24) == 1000000000000000000000000);
    assert(pow10(25) == 10000000000000000000000000);
    assert(pow10(26) == 100000000000000000000000000);
    assert(pow10(27) == 1000000000000000000000000000);
    assert(pow10(28) == 10000000000000000000000000000);
}

/// The larger of two scales.
pub open spec fn scale_max(a: int, b: int) -> int {
    if a >= b {
        a
    } else {
        b
    }
}

/// Mantissa of `x` rescaled to scale `s` (for `s >= x.s` this is exact).
pub open spec fn rescaled_m(x: DecV, s: int) -> int {
    x.m * pow10((s - x.s) as nat)
}

/// The exact sum fits in 96 bits at the larger of the two scales, so
/// addition loses nothing.
pub open spec fn can_add_exact(a: DecV, b: DecV) -> bool {
    let s = scale_max(a.s, b.s);
    a.v() == 0 || b.v() == 0 || (-spec_mantissa_bound() < rescaled_m(a, s) + rescaled_m(b, s)
        < spec_mantissa_bound())
}

/// What addition returns when `can_add_exact` holds: a zero operand leaves
/// the other operand untouched; otherwise the exact sum at the larger scale.
pub open spec fn add_model(a: DecV, b: DecV) -> DecV {
    if a.v() == 0 {
        b
    } else if b.v() == 0 {
        a
    } else {
        let s = scale_max(a.s, b.s);
        DecV { m: rescaled_m(a, s) + rescaled_m(b, s), s }
    }
}

/// The exact difference fits in 96 bits at the larger of the two scales.
pub open spec fn can_sub_exact(a: DecV, b: DecV) -> bool {
    let s = scale_max(a.s, b.s);
    a.v() == 0 || b.v() == 0 || (-spec_mantissa_bound() < rescaled_m(a, s) - rescaled_m(b, s)
        < spec_mantissa_bound())
}

/// What subtraction returns when `can_sub_exact` holds.
pub open spec fn sub_model(a: DecV, b: DecV) -> DecV {
    if a.v() == 0 {
        DecV { m: -b.m, s: b.s }
    } else if b.v() == 0 {
        a
    } else {
        let s = scale_max(a.s, b.s);
        DecV { m: rescaled_m(a, s) - rescaled_m(b, s), s }
    }
}

/// The exact product fits: combined scale at most 28 and mantissa product
/// within 96 bits.
pub open spec fn can_mul_exact(a: DecV, b: DecV) -> bool {
    a.v() == 0 || b.v() == 0 || (a.s + b.s <= spec_max_scale() && -spec_mantissa_bound() < a.m
        * b.m < spec_mantissa_bound())
}

/// What multiplication returns when `can_mul_exact` holds: zero operands
/// yield the canonical zero; otherwise the exact product at the summed
/// scale.
pub open spec fn mul_model(a: DecV, b: DecV) -> DecV {
    if a.v() == 0 || b.v() == 0 {
        DecV { m: 0, s: 0 }
    } else {
        DecV { m: a.m * b.m, s: a.s + b.s }
    }
}

/// The zero model value.
pub open spec fn zero_v() -> DecV {
    DecV { m: 0, s: 0 }
}

/// A decimal denotes zero exactly when its mantissa is zero.
pub proof fn lemma_v_zero(x: DecV)
    ensures
        (x.v() == 0) <==> (x.m == 0),
{
    lemma_pow10_pos((spec_max_scale() - x.s) as nat);
    if x.m != 0 {
        vstd::arithmetic::mul::lemma_mul_nonzero(
            x.m,
            pow10((spec_max_scale() - x.s) as nat),
        );
    }
}

/// `pow10` turns addition of exponents into multiplication.
pub proof fn lemma_pow10_add(a: nat, b: nat)
    ensures
        pow10(a + b) == pow10(a) * pow10(b),
    decreases a,
{
    if a == 0 {
    } else {
        lemma_pow10_add((a - 1) as nat, b);
        assert((10 * pow10((a - 1) as nat)) * pow10(b) == 10 * (pow10((a - 1) as nat) * pow10(
            b,
        ))) by {
            vstd::arithmetic::mul::lemma_mul_is_associative(
                10,
                pow10((a - 1) as nat),
                pow10(b),
            );
        }
    }
}

/// Rescaling a mantissa to a larger scale leaves the denoted value alone.
pub proof fn lemma_rescaled_v(x: DecV, s: int)
    requires
        x.s <= s <= spec_max_scale(),
    ensures
        rescaled_m(x, s) * pow10((spec_max_scale() - s) as nat) == x.v(),
{
    lemma_pow10_add((s - x.s) as nat, (spec_max_scale() - s) as nat);
    vstd::arithmetic::mul::lemma_mul_is_associative(
        x.m,
        pow10((s - x.s) as nat),
        pow10((spec_max_scale() - s) as nat),
    );
}

/// A decimal's mantissa is no larger in magnitude than its scale-28 value:
/// any bound on the value bounds the mantissa.
pub proof fn lemma_m_bounded_by_v(x: DecV, bound: int)
    requires
        0 <= x.s <= spec_max_scale(),
        bound > 0,
        -bound < x.v() < bound,
    ensures
        -bound < x.m < bound,
{
    let p = pow10((spec_max_scale() - x.s) as nat);
    lemma_pow10_pos((spec_max_scale() - x.s) as nat);
    assert(-bound < x.m < bound) by (nonlinear_arith)
        requires
            x.m * p == x.v(),
            p >= 1,
            bound > 0,
            -bound < x.v() < bound,
    ;
}

/// Addition is exact whenever the operands' summed value stays within 96
/// bits, whatever their scales: the sum's mantissa at the common scale is
/// the summed value divided by a power of ten.
pub proof fn lemma_can_add_exact_of_values(a: DecV, b: DecV)
    requires
        a.wf(),
        b.wf(),
        -spec_mantissa_bound() < a.v() + b.v() < spec_mantissa_bound(),
    ensures
        can_add_exact(a, b),
{
    let s = scale_max(a.s, b.s);
    let p = pow10((spec_max_scale() - s) as nat);
    lemma_pow10_pos((spec_max_scale() - s) as nat);
    lemma_rescaled_v(a, s);
    lemma_rescaled_v(b, s);
    let sum = rescaled_m(a, s) + rescaled_m(b, s);
    assert(sum * p == a.v() + b.v()) by {
        vstd::arithmetic::mul::lemma_mul_is_distributive_add_other_way(
            p,
            rescaled_m(a, s),
            rescaled_m(b, s),
        );
    }
    assert(-spec_mantissa_bound() < sum < spec_mantissa_bound()) by (nonlinear_arith)
        requires
            sum * p == a.v() + b.v(),
            p >= 1,
            -spec_mantissa_bound() < a.v() + b.v() < spec_mantissa_bound(),
    ;
}

/// Subtraction is exact whenever the operands' value difference stays
/// within 96 bits, whatever their scales.
pub proof fn lemma_can_sub_exact_of_values(a: DecV, b: DecV)
    requires
        a.wf(),
        b.wf(),
        -spec_mantissa_bound() < a.v() - b.v() < spec_mantissa_bound(),
    ensures
        can_sub_exact(a, b),
{
    let s = scale_max(a.s, b.s);
    let p = pow10((spec_max_scale() - s) as nat);
    lemma_pow10_pos((spec_max_scale() - s) as nat);
    lemma_rescaled_v(a, s);
    lemma_rescaled_v(b, s);
    let diff = rescaled_m(a, s) - rescaled_m(b, s);
    assert(diff * p == a.v() - b.v()) by {
        vstd::arithmetic::mul::lemma_mul_is_distributive_sub_other_way(
            p,
            rescaled_m(a, s),
            rescaled_m(b, s),
        );
    }
    assert(-spec_mantissa_bound() < diff < spec_mantissa_bound()) by (nonlinear_arith)
        requires
            diff * p == a.v() - b.v(),
            p >= 1,
            -spec_mantissa_bound() < a.v() - b.v() < spec_mantissa_bound(),
    ;
}

/// Scaling up completes: when the mantissa rescaled all the way to `t`
/// fits in 96 bits, no intermediate step overflows, so the result sits
/// exactly at scale `t`.
pub proof fn lemma_scale_up_reaches(a: DecV, t: int, m: int)
    requires
        a.s <= t,
        a.m * pow10((t - a.s) as nat) == m,
        -spec_mantissa_bound() < m < spec_mantissa_bound(),
    ensures
        scale_up_model(a, t) == (DecV { m, s: t }),
    decreases t - a.s,
{
    if a.s >= t {
    } else {
        let k = (t - a.s) as nat;
        lemma_pow10_pos((k - 1) as nat);
        assert(pow10(k) == 10 * pow10((k - 1) as nat));
        assert((a.m * 10) * pow10((k - 1) as nat) == m) by (nonlinear_arith)
            requires
                a.m * pow10(k) == m,
                pow10(k) == 10 * pow10((k - 1) as nat),
        ;
        assert(-spec_mantissa_bound() < a.m * 10 < spec_mantissa_bound()) by (nonlinear_arith)
            requires
                (a.m * 10) * pow10((k - 1) as nat) == m,
                pow10((k - 1) as nat) >= 1,
                -spec_mantissa_bound() < m < spec_mantissa_bound(),
        ;
        lemma_scale_up_reaches(DecV { m: a.m * 10, s: a.s + 1 }, t, m);
    }
}

/// Truncation pins the representation: a value with at most `t` fractional
/// digits, whose mantissa at scale `t` fits in 96 bits, truncates to
/// exactly that mantissa at scale `t`, whatever scale it arrived with.
pub proof fn lemma_trunc_pins(x: DecV, t: int, m: int)
    requires
        x.wf(),
        0 <= t <= spec_max_scale(),
        x.v() == m * pow10((spec_max_scale() - t) as nat),
        -spec_mantissa_bound() < m < spec_mantissa_bound(),
    ensures
        trunc_model(x, t) == (DecV { m, s: t }),
{
    let p = pow10((spec_max_scale() - t) as nat);
    lemma_pow10_pos((spec_max_scale() - t) as nat);
    if x.m == 0 {
        assert(m == 0) by (nonlinear_arith)
            requires
                m * p == 0,
                p >= 1,
        ;
    } else if x.s > t {
        let q = pow10((x.s - t) as nat);
        let b = pow10((spec_max_scale() - x.s) as nat);
        lemma_pow10_pos((x.s - t) as nat);
        lemma_pow10_pos((spec_max_scale() - x.s) as nat);
        lemma_pow10_add((x.s - t) as nat, (spec_max_scale() - x.s) as nat);
        assert(x.m * b == (m * q) * b) by (nonlinear_arith)
            requires
                x.m * b == m * p,
                p == q * b,
        ;
        assert(x.m == m * q) by (nonlinear_arith)
            requires
                x.m * b == (m * q) * b,
                b >= 1,
        ;
        if m >= 0 {
            assert(x.m >= 0) by (nonlinear_arith)
                requires
                    x.m == m * q,
                    m >= 0,
                    q >= 1,
            ;
            assert(x.m / q == m) by {
                assert(x.m == q * m) by (nonlinear_arith)
                    requires
                        x.m == m * q,
                ;
                vstd::arithmetic::div_mod::lemma_div_multiples_vanish(m, q);
            }
        } else {
            assert(x.m < 0) by (nonlinear_arith)
                requires
                    x.m == m * q,
                    m < 0,
                    q >= 1,
            ;
            assert((-x.m) / q == -m) by {
                assert(-x.m == q * (-m)) by (nonlinear_arith)
                    requires
                        x.m == m * q,
                ;
                vstd::arithmetic::div_mod::lemma_div_multiples_vanish(-m, q);
            }
        }
    } else {
        lemma_pow10_add((t - x.s) as nat, (spec_max_scale() - t) as nat);
        assert(x.v() == (x.m * pow10((t - x.s) as nat)) * p) by (nonlinear_arith)
            requires
                x.v() == x.m * (pow10((t - x.s) as nat) * p),
        ;
        assert(x.m * pow10((t - x.s) as nat) == m) by (nonlinear_arith)
            requires
                (x.m * pow10((t - x.s) as nat)) * p == m * p,
                p >= 1,
        ;
        lemma_scale_up_reaches(x, t, m);
    }
}

/// `add_model` denotes exactly the sum of its operands.
pub proof fn lemma_add_model_v(a: DecV, b: DecV)
    requires
        0 <= a.s <= spec_max_scale(),
        0 <= b.s <= spec_max_scale(),
    ensures
        add_model(a, b).v() == a.v() + b.v(),
{
    if a.v() != 0 && b.v() != 0 {
        let s = scale_max(a.s, b.s);
        let p = pow10((spec_max_scale() - s) as nat);
        vstd::arithmetic::mul::lemma_mul_is_distributive_add_other_way(
            p,
            rescaled_m(a, s),
            rescaled_m(b, s),
        );
        lemma_rescaled_v(a, s);
        lemma_rescaled_v(b, s);
    }
}

/// `sub_model` denotes exactly the difference of its operands.
pub proof fn lemma_sub_model_v(a: DecV, b: DecV)
    requires
        0 <= a.s <= spec_max_scale(),
        0 <= b.s <= spec_max_scale(),
    ensures
        sub_model(a, b).v() == a.v() - b.v(),
{
    if a.v() == 0 {
        assert((-b.m) * pow10((spec_max_scale() - b.s) as nat) == -(b.m * pow10((spec_max_scale()
            - b.s) as nat))) by {
            vstd::arithmetic::mul::lemma_mul_unary_negation(
                b.m,
                pow10((spec_max_scale() - b.s) as nat),
            );
        }
    } else if b.v() != 0 {
        let s = scale_max(a.s, b.s);
        let p = pow10((spec_max_scale() - s) as nat);
        vstd::arithmetic::mul::lemma_mul_is_distributive_sub_other_way(
            p,
            rescaled_m(a, s),
            rescaled_m(b, s),
        );
        lemma_rescaled_v(a, s);
        lemma_rescaled_v(b, s);
    }
}

/// What rust_decimal's `checked_add` returns: a function of the two
/// operands alone.
pub uninterp spec fn add_res(a: DecV, b: DecV) -> Option<DecV>;

/// What rust_decimal's `checked_sub` returns.
pub uninterp spec fn sub_res(a: DecV, b: DecV) -> Option<DecV>;

/// What rust_decimal's `checked_mul` returns.
pub uninterp spec fn mul_res(a: DecV, b: DecV) -> Option<DecV>;

/// What rust_decimal's `checked_div` returns.
pub uninterp spec fn div_res(a: DecV, b: DecV) -> Option<DecV>;

/// `w`, a value in units of `10^-28`, is representable as a decimal: at
/// some scale within range it reduces to a mantissa within 96 bits.
pub open spec fn representable_v(w: int) -> bool {
    exists|s: int|
        0 <= s <= spec_max_scale() && w % (#[trigger] pow10((spec_max_scale() - s) as nat)) == 0
            && -spec_mantissa_bound() < w / pow10((spec_max_scale() - s) as nat)
            < spec_mantissa_bound()
}

/// The exact quotient of `a` by `b` is representable, so division loses
/// nothing: some representable value `w` satisfies `w * b == a` exactly.
pub open spec fn can_div_exact(a: DecV, b: DecV) -> bool {
    b.v() != 0 && exists|w: int|
        #[trigger] representable_v(w) && w * b.v() == a.v() * pow10(28)
}

/// Relies on rust_decimal's `PartialOrd`: decimals are ordered by the
/// number they denote, independent of scale.
#[verifier::external_body]
fn dec_lt(a: &Decimal, b: &Decimal) -> (r: bool)
    ensures
        r <==> a@.v() < b@.v(),
{
    let x = rust_decimal::Decimal::from_i128_with_scale(a.mantissa, a.scale);
    let y = rust_decimal::Decimal::from_i128_with_scale(b.mantissa, b.scale);
    x < y
}

/// Relies on rust_decimal's `checked_add`: `None` exactly on overflow; a
/// zero operand returns the other operand, and a sum whose mantissa fits in
/// 96 bits at the larger scale is returned exactly at that scale.
#[verifier::external_body]
fn dec_checked_add(a: &Decimal, b: &Decimal) -> (r: Option<Decimal>)
    ensures
        r is Some <==> add_res(a@, b@) is Some,
        r is Some ==> r.unwrap()@.wf() && r.unwrap()@ == add_res(a@, b@).unwrap(),
        can_add_exact(a@, b@) ==> r is Some && r.unwrap()@ == add_model(a@, b@),
{
    let x = rust_decimal::Decimal::from_i128_with_scale(a.mantissa, a.scale);
    let y = rust_decimal::Decimal::from_i128_with_scale(b.mantissa, b.scale);
    x.checked_add(y).map(|d| Decimal { mantissa: d.mantissa(), scale: d.scale() })
}

/// Relies on rust_decimal's `checked_sub`: mirror image of `checked_add`.
#[verifier::external_body]
fn dec_checked_sub(a: &Decimal, b: &Decimal) -> (r: Option<Decimal>)
    ensures
        r is Some <==> sub_res(a@, b@) is Some,
        r is Some ==> r.unwrap()@.wf() && r.unwrap()@ == sub_res(a@, b@).unwrap(),
        can_sub_exact(a@, b@) ==> r is Some && r.unwrap()@ == sub_model(a@, b@),
{
    let x = rust_decimal::Decimal::from_i128_with_scale(a.mantissa, a.scale);
    let y = rust_decimal::Decimal::from_i128_with_scale(b.mantissa, b.scale);
    x.checked_sub(y).map(|d| Decimal { mantissa: d.mantissa(), scale: d.scale() })
}

/// Relies on rust_decimal's `checked_mul`: `None` exactly on overflow; a
/// zero operand yields zero at scale 0, and a product whose mantissa fits
/// in 96 bits at the summed scale (itself at most 28) is returned exactly.
#[verifier::external_body]
fn dec_checked_mul(a: &Decimal, b: &Decimal) -> (r: Option<Decimal>)
    ensures
        r is Some <==> mul_res(a@, b@) is Some,
        r is Some ==> r.unwrap()@.wf() && r.unwrap()@ == mul_res(a@, b@).unwrap(),
        can_mul_exact(a@, b@) ==> r is Some && r.unwrap()@ == mul_model(a@, b@),
{
    let x = rust_decimal::Decimal::from_i128_with_scale(a.mantissa, a.scale);
    let y = rust_decimal::Decimal::from_i128_with_scale(b.mantissa, b.scale);
    x.checked_mul(y).map(|d| Decimal { mantissa: d.mantissa(), scale: d.scale() })
}

/// Relies on rust_decimal's `checked_div`: `None` exactly on division by
/// zero or overflow; a zero dividend with a non-zero divisor yields zero at
/// scale 0; a quotient that is exactly representable (its remainder
/// reaches zero within 28 fractional digits and 96 mantissa bits) is
/// returned exactly — the remainder loop scales the quotient up digit by
/// digit and rounds only when the remainder never vanishes; and when the
/// division is remainder-free from the start (the divisor's mantissa
/// divides the dividend's and the scale difference is non-negative) the
/// result keeps that mantissa quotient at the difference of the scales,
/// with no rescaling.
#[verifier::external_body]
fn dec_checked_div(a: &Decimal, b: &Decimal) -> (r: Option<Decimal>)
    ensures
        r is Some <==> div_res(a@, b@) is Some,
        r is Some ==> r.unwrap()@.wf() && r.unwrap()@ == div_res(a@, b@).unwrap(),
        b@.v() == 0 ==> r is None,
        a@.v() == 0 && b@.v() != 0 ==> r is Some && r.unwrap()@ == (DecV { m: 0, s: 0 }),
        can_div_exact(a@, b@) ==> r is Some && r.unwrap()@.v() * b@.v() == a@.v() * pow10(28),
        a@.m != 0 && b@.v() != 0 && a@.s >= b@.s && a@.m % b@.m == 0 ==> r is Some
            && r.unwrap()@ == (DecV { m: a@.m / b@.m, s: a@.s - b@.s }),
{
    let x = rust_decimal::Decimal::from_i128_with_scale(a.mantissa, a.scale);
    let y = rust_decimal::Decimal::from_i128_with_scale(b.mantissa, b.scale);
    x.checked_div(y).map(|d| Decimal { mantissa: d.mantissa(), scale: d.scale() })
}

impl PartialEq for Decimal {
    /// Decimals compare equal when they denote the same number, whatever
    /// their scales.
    fn eq(&self, other: &Decimal) -> (r: bool) {
        !dec_lt(self, other) && !dec_lt(other, self)
    }
}

impl vstd::std_specs::cmp::PartialEqSpecImpl for Decimal {
    open spec fn obeys_eq_spec() -> bool {
        true
    }

    open spec fn eq_spec(&self, other: &Decimal) -> bool {
        self@.v() == other@.v()
    }
}

} // verus!
