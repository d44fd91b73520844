//! Decimal precision normalization for cross-contract math.
//!
//! Token contracts use 7 decimals, internal fixed-point math 18 and fee rates
//! 9; every conversion between those precisions goes through this module.
use vstd::prelude::*;
use crate::error_codes::ContractError;

verus! {

/// Stellar-native token decimals (SEP-0041 standard).
pub const STELLAR_DECIMALS: u32 = 7;
pub const STELLAR_SCALE: i128 = 10_000_000;

/// Internal fixed-point decimals.
pub const PERIGEE_DECIMALS: u32 = 18;
pub const PERIGEE_SCALE: i128 = 1_000_000_000_000_000_000;

/// Precision used for fee / rate percentages.
pub const FEE_DECIMALS: u32 = 9;
pub const FEE_SCALE: i128 = 1_000_000_000;

/// `10^n`.
pub open spec fn pow10(n: nat) -> int
    decreases n,
{
    if n == 0 {
        1
    } else {
        10 * pow10((n - 1) as nat)
    }
}

/// Truncating (toward zero) integer division, as Rust's `/` on signed values.
pub open spec fn trunc_div(a: int, b: int) -> int {
    if a >= 0 {
        a / b
    } else {
        -((-a) / b)
    }
}

pub open spec fn in_i128(x: int) -> bool {
    i128::MIN <= x <= i128::MAX
}

/// What `normalize_decimals(amount, from, to)` evaluates to.
pub open spec fn normalize_spec(amount: int, from: nat, to: nat) -> Result<i128, ContractError> {
    if from > 38 || to > 38 {
        Err(ContractError::InvalidInput)
    } else if from == to {
        Ok(amount as i128)
    } else if to > from {
        let v = amount * pow10((to - from) as nat);
        if in_i128(v) {
            Ok(v as i128)
        } else {
            Err(ContractError::Overflow)
        }
    } else {
        Ok(trunc_div(amount, pow10((from - to) as nat)) as i128)
    }
}

proof fn lemma_pow10_pos(n: nat)
    ensures
        pow10(n) >= 1,
    decreases n,
{
    if n > 0 {
        lemma_pow10_pos((n - 1) as nat);
    }
}

proof fn lemma_pow10_mono(m: nat, n: nat)
    requires
        m <= n,
    ensures
        pow10(m) <= pow10(n),
    decreases n,
{
    if m < n {
        lemma_pow10_mono(m, (n - 1) as nat);
        lemma_pow10_pos((n - 1) as nat);
    }
}

proof fn lemma_pow10_38()
    ensures
        pow10(38) == 100_000_000_000_000_000_000_000_000_000_000_000_000,
        pow10(39) > i128::MAX,
{
    reveal_with_fuel(pow10, 40);
}

/// `10^exp`, or `Overflow` when it does not fit an `i128`.
fn pow10_checked(exp: u32) -> (r: Result<i128, ContractError>)
    ensures
        r == (if pow10(exp as nat) <= i128::MAX {
            Ok::<i128, ContractError>(pow10(exp as nat) as i128)
        } else {
            Err::<i128, ContractError>(ContractError::Overflow)
        }),
{
    let mut result: i128 = 1;
    let mut i: u32 = 0;
    while i < exp
        invariant
            i <= exp,
            result as int == pow10(i as nat),
        decreases exp - i,
    {
        proof {
            lemma_pow10_pos(i as nat);
        }
        match result.checked_mul(10) {
            Some(v) => {
                result = v;
            },
            None => {
                proof {
                    assert(pow10((i + 1) as nat) == 10 * pow10(i as nat));
                    lemma_pow10_mono((i + 1) as nat, exp as nat);
                }
                return Err(ContractError::Overflow);
            },
        }
        i = i + 1;
    }
    Ok(result)
}

/// Convert `amount` from `from_decimals` to `to_decimals`.
///
/// Scaling up multiplies (failing with `Overflow` when the product leaves the
/// `i128` range); scaling down divides and truncates toward zero. Decimal
/// counts above 38 are rejected with `InvalidInput`.
pub fn normalize_decimals(amount: i128, from_decimals: u32, to_decimals: u32) -> (r: Result<
    i128,
    ContractError,
>)
    ensures
        r == normalize_spec(amount as int, from_decimals as nat, to_decimals as nat),
{
    if from_decimals > 38 || to_decimals > 38 {
        return Err(ContractError::InvalidInput);
    }
    if from_decimals == to_decimals {
        return Ok(amount);
    }
    if to_decimals > from_decimals {
        let diff = to_decimals - from_decimals;
        proof {
            lemma_pow10_38();
            lemma_pow10_mono(diff as nat, 38);
            lemma_pow10_pos(diff as nat);
        }
        let factor = match pow10_checked(diff) {
            Ok(f) => f,
            Err(e) => return Err(e),
        };
        assert(factor as int == pow10(diff as nat));
        match amount.checked_mul(factor) {
            Some(v) => {
                assert(v as int == amount as int * pow10(diff as nat));
                Ok(v)
            },
            None => {
                assert(!in_i128(amount as int * pow10(diff as nat)));
                Err(ContractError::Overflow)
            },
        }
    } else {
        let diff = from_decimals - to_decimals;
        proof {
            lemma_pow10_38();
            lemma_pow10_mono(diff as nat, 38);
            lemma_pow10_pos(diff as nat);
        }
        let factor = match pow10_checked(diff) {
            Ok(f) => f,
            Err(e) => return Err(e),
        };
        let q = amount / factor;
        proof {
            let a = amount as int;
            let f = factor as int;
            if a >= 0 {
                vstd::arithmetic::div_mod::lemma_div_is_ordered_by_denominator(a, 1, f);
            } else {
                vstd::arithmetic::div_mod::lemma_div_is_ordered_by_denominator(-a, 1, f);
            }
            assert(q as int == trunc_div(a, f));
        }
        Ok(q)
    }
}

/// Convert a 7-decimal token amount to 18-decimal internal units.
pub fn stellar_to_perigee(amount: i128) -> (r: Result<i128, ContractError>)
    ensures
        r == normalize_spec(amount as int, 7, 18),
{
    normalize_decimals(amount, STELLAR_DECIMALS, PERIGEE_DECIMALS)
}

/// Convert an 18-decimal internal amount to 7-decimal token units (truncating).
pub fn perigee_to_stellar(amount: i128) -> (r: Result<i128, ContractError>)
    ensures
        r == normalize_spec(amount as int, 18, 7),
{
    normalize_decimals(amount, PERIGEE_DECIMALS, STELLAR_DECIMALS)
}

/// Convert an 18-decimal internal amount to the 9-decimal fee scale.
pub fn perigee_to_fee_scale(amount: i128) -> (r: Result<i128, ContractError>)
    ensures
        r == normalize_spec(amount as int, 18, 9),
{
    normalize_decimals(amount, PERIGEE_DECIMALS, FEE_DECIMALS)
}

/// Convert a 9-decimal fee-scale value to 18-decimal internal units.
pub fn fee_scale_to_perigee(amount: i128) -> (r: Result<i128, ContractError>)
    ensures
        r == normalize_spec(amount as int, 9, 18),
{
    normalize_decimals(amount, FEE_DECIMALS, PERIGEE_DECIMALS)
}

/// `2^64`, the base of a 64-bit limb.
pub open spec fn limb() -> int {
    0x1_0000_0000_0000_0000
}

/// `2^128`.
pub open spec fn wide() -> int {
    0x1_0000_0000_0000_0000_0000_0000_0000_0000int
}

/// The largest divisor `mul_div_u128` takes: `2^127`, the magnitude of
/// `i128::MIN`.
pub open spec fn max_divisor() -> int {
    0x8000_0000_0000_0000_0000_0000_0000_0000
}

/// `|x|`.
pub open spec fn abs_spec(x: int) -> int {
    if x < 0 {
        -x
    } else {
        x
    }
}

/// What `mul_div_u128(a, b, d)` returns: `floor(a * b / d)` with no overflow
/// flag when it fits 128 bits; `(0, true)` otherwise.
pub open spec fn mul_div_u128_spec(a: int, b: int, d: int) -> (u128, bool) {
    let q = (a * b) / d;
    if q <= u128::MAX {
        (q as u128, false)
    } else {
        (0u128, true)
    }
}

/// What `mul_same_precision(a, b, scale)` evaluates to.
pub open spec fn mul_same_precision_spec(a: int, b: int, scale: int) -> Result<i128, ContractError> {
    if scale == 0 {
        Err(ContractError::DivisionByZero)
    } else {
        let q = (abs_spec(a) * abs_spec(b)) / abs_spec(scale);
        if q > i128::MAX {
            Err(ContractError::Overflow)
        } else if ((a < 0) != (b < 0)) != (scale < 0) {
            Ok((-q) as i128)
        } else {
            Ok(q as i128)
        }
    }
}

/// `|x|` as an unsigned value.
pub fn unsigned_abs(x: i128) -> (r: u128)
    ensures
        r as int == abs_spec(x as int),
{
    if x >= 0 {
        x as u128
    } else {
        ((-(x + 1)) as u128) + 1
    }
}

proof fn lemma_limb_products(ah: int, al: int, bh: int, bl: int)
    requires
        0 <= ah < limb(),
        0 <= al < limb(),
        0 <= bh < limb(),
        0 <= bl < limb(),
    ensures
        0 <= al * bl < wide(),
        0 <= al * bh < wide(),
        0 <= ah * bl < wide(),
        0 <= ah * bh < wide(),
        (ah * limb() + al) * (bh * limb() + bl) == (ah * bh) * wide() + (al * bh + ah * bl)
            * limb() + al * bl,
{
    assert(0 <= al * bl < wide()) by (nonlinear_arith)
        requires
            0 <= al < limb(),
            0 <= bl < limb(),
    ;
    assert(0 <= al * bh < wide()) by (nonlinear_arith)
        requires
            0 <= al < limb(),
            0 <= bh < limb(),
    ;
    assert(0 <= ah * bl < wide()) by (nonlinear_arith)
        requires
            0 <= ah < limb(),
            0 <= bl < limb(),
    ;
    assert(0 <= ah * bh < wide()) by (nonlinear_arith)
        requires
            0 <= ah < limb(),
            0 <= bh < limb(),
    ;
    assert((ah * limb() + al) * (bh * limb() + bl) == (ah * bh) * wide() + (al * bh + ah * bl)
        * limb() + al * bl) by (nonlinear_arith);
}

proof fn lemma_product_below_wide_squared(a: int, b: int)
    requires
        0 <= a < wide(),
        0 <= b < wide(),
    ensures
        0 <= a * b < wide() * wide(),
{
    assert(0 <= a * b < wide() * wide()) by (nonlinear_arith)
        requires
            0 <= a < wide(),
            0 <= b < wide(),
    ;
}

/// One step of the long division: shifting in `bit` keeps the quotient and
/// remainder of the prefix exact.
proof fn lemma_division_step(
    x: int,
    pfx: int,
    w: int,
    p: int,
    t: int,
    t2: int,
    bit: int,
    q: int,
    d: int,
    rem: int,
    bump: int,
    m: int,
)
    requires
        w == 2 * p,
        p > 0,
        x == pfx * w + t,
        t == bit * p + t2,
        q * d + rem == pfx,
        0 <= q < m,
        m * w == wide(),
        d > 0,
        bump == 0 || bump == 1,
        0 <= bump * d <= 2 * rem + bit,
    ensures
        x == (2 * pfx + bit) * p + t2,
        (2 * q + bump) * d + (2 * rem + bit - bump * d) == 2 * pfx + bit,
        (2 * q + bump) * p == q * w + bump * p,
        (2 * m) * p == wide(),
        0 <= 2 * q + bump < 2 * m,
        (2 * q + bump) * p < wide(),
{
    assert(x == (2 * pfx + bit) * p + t2) by (nonlinear_arith)
        requires
            w == 2 * p,
            x == pfx * w + t,
            t == bit * p + t2,
    ;
    assert((2 * q + bump) * d + (2 * rem + bit - bump * d) == 2 * pfx + bit) by (nonlinear_arith)
        requires
            q * d + rem == pfx,
    ;
    assert((2 * q + bump) * p == q * w + bump * p) by (nonlinear_arith)
        requires
            w == 2 * p,
    ;
    assert((2 * m) * p == wide()) by (nonlinear_arith)
        requires
            w == 2 * p,
            m * w == wide(),
    ;
    assert((2 * q + bump) * p < wide()) by (nonlinear_arith)
        requires
            0 <= 2 * q + bump < 2 * m,
            (2 * m) * p == wide(),
            p > 0,
    ;
}

/// `floor(a * b / d)` through a 256-bit intermediate product. Returns the
/// quotient and `false` when it fits 128 bits, `(0, true)` otherwise.
/// The divisor must be positive and at most `2^127` (the magnitude of an
/// `i128`).
pub fn mul_div_u128(a: u128, b: u128, d: u128) -> (r: (u128, bool))
    requires
        0 < d <= max_divisor(),
    ensures
        r == mul_div_u128_spec(a as int, b as int, d as int),
{
    if let Some(prod) = a.checked_mul(b) {
        proof {
            vstd::arithmetic::div_mod::lemma_div_is_ordered_by_denominator(prod as int, 1, d as int);
        }
        return (prod / d, false);
    }
    let ghost x: int = a as int * b as int;
    let a_low = a % 0x1_0000_0000_0000_0000u128;
    let a_high = a / 0x1_0000_0000_0000_0000u128;
    let b_low = b % 0x1_0000_0000_0000_0000u128;
    let b_high = b / 0x1_0000_0000_0000_0000u128;
    proof {
        lemma_limb_products(a_high as int, a_low as int, b_high as int, b_low as int);
        lemma_product_below_wide_squared(a as int, b as int);
    }
    let p0 = a_low * b_low;
    let p1 = a_low * b_high;
    let p2 = a_high * b_low;
    let p3 = a_high * b_high;
    let mid = (p1 % 0x1_0000_0000_0000_0000u128) + (p2 % 0x1_0000_0000_0000_0000u128) + (p0
        / 0x1_0000_0000_0000_0000u128);
    proof {
        assert(x == (p3 as int + p1 as int / limb() + p2 as int / limb() + mid as int / limb())
            * wide() + (mid as int % limb()) * limb() + p0 as int % limb());
    }
    let ghost high_sum: int = (p3 as int + p1 as int / limb() + p2 as int / limb() + mid as int / limb());
    assert(high_sum * wide() <= x);
    assert(high_sum < wide()) by (nonlinear_arith)
        requires
            high_sum * wide() <= x,
            x < wide() * wide(),
    ;
    let high = p3 + (p1 / 0x1_0000_0000_0000_0000u128) + (p2 / 0x1_0000_0000_0000_0000u128) + (mid
        / 0x1_0000_0000_0000_0000u128);
    let low = (mid % 0x1_0000_0000_0000_0000u128) * 0x1_0000_0000_0000_0000u128 + (p0
        % 0x1_0000_0000_0000_0000u128);
    assert(x == high as int * wide() + low as int);
    if high >= d {
        proof {
            let di = d as int;
            let hi = high as int;
            let q = x / di;
            let rr = x % di;
            vstd::arithmetic::div_mod::lemma_fundamental_div_mod(x, di);
            if q <= u128::MAX {
                assert(false) by (nonlinear_arith)
                    requires
                        x == di * q + rr,
                        0 <= rr < di,
                        q < wide(),
                        x >= hi * wide(),
                        hi >= di,
                        di > 0,
                ;
            }
        }
        return (0, true);
    }
    let mut quotient: u128 = 0;
    let mut remainder: u128 = high;
    let mut t: u128 = low;
    let mut p: u128 = 0x8000_0000_0000_0000_0000_0000_0000_0000u128;
    let mut i: u32 = 128;
    let ghost mut w: int = wide();
    let ghost mut m: int = 1;
    let ghost mut q: int = 0;
    let ghost mut pfx: int = high as int;
    proof {
        vstd::arithmetic::power2::lemma2_to64();
        vstd::arithmetic::power2::lemma2_to64_rest();
        vstd::arithmetic::power2::lemma_pow2_adds(64, 64);
        vstd::arithmetic::power2::lemma_pow2_adds(64, 63);
    }
    while i > 0
        invariant
            i <= 128,
            w == vstd::arithmetic::power2::pow2(i as nat),
            i > 0 ==> p as int == vstd::arithmetic::power2::pow2((i - 1) as nat),
            x == pfx * w + t,
            0 <= t < w,
            m * w == wide(),
            0 <= q < m,
            quotient as int == q * w,
            q * d + remainder == pfx,
            remainder < d,
            0 < d <= max_divisor(),
        decreases i,
    {
        proof {
            vstd::arithmetic::power2::lemma_pow2_unfold(i as nat);
        }
        let bit: u128 = if t >= p {
            1
        } else {
            0
        };
        let t2 = t - bit * p;
        let r2 = remainder * 2 + bit;
        let bump: u128 = if r2 >= d {
            1
        } else {
            0
        };
        proof {
            lemma_division_step(
                x,
                pfx,
                w,
                p as int,
                t as int,
                t2 as int,
                bit as int,
                q,
                d as int,
                remainder as int,
                bump as int,
                m,
            );
        }
        remainder = r2 - bump * d;
        quotient = quotient + bump * p;
        t = t2;
        proof {
            pfx = 2 * pfx + bit;
            q = 2 * q + bump;
            m = 2 * m;
            w = p as int;
            if i > 1 {
                vstd::arithmetic::power2::lemma_pow2_unfold((i - 1) as nat);
            }
        }
        p = p / 2;
        i = i - 1;
    }
    proof {
        vstd::arithmetic::power2::lemma2_to64();
        assert(w == 1);
        assert(pfx * w == pfx && q * w == q && m * w == m) by (nonlinear_arith)
            requires
                w == 1,
        ;
        assert(pfx == x);
        vstd::arithmetic::div_mod::lemma_fundamental_div_mod_converse(
            x,
            d as int,
            q,
            remainder as int,
        );
    }
    (quotient, false)
}

/// `a * b / scale` for two amounts in the same precision `scale`, through a
/// 256-bit intermediate: the quotient `(a * b) / scale` truncated toward
/// zero, so its sign follows the signs of `a`, `b` and `scale` together.
/// Fails with `DivisionByZero` for a zero scale and with `Overflow` when the
/// magnitude exceeds `i128::MAX`.
pub fn mul_same_precision(a: i128, b: i128, scale: i128) -> (r: Result<i128, ContractError>)
    ensures
        r == mul_same_precision_spec(a as int, b as int, scale as int),
{
    if scale == 0 {
        return Err(ContractError::DivisionByZero);
    }
    let a_abs = unsigned_abs(a);
    let b_abs = unsigned_abs(b);
    let s_abs = unsigned_abs(scale);
    let (res_abs, overflow) = mul_div_u128(a_abs, b_abs, s_abs);
    if overflow || res_abs > 0x7fff_ffff_ffff_ffff_ffff_ffff_ffff_ffffu128 {
        return Err(ContractError::Overflow);
    }
    let res = res_abs as i128;
    if ((a < 0) != (b < 0)) != (scale < 0) {
        Ok(-res)
    } else {
        Ok(res)
    }
}

/// Scaling up and back down is lossless: whenever converting `amount` from
/// `from` to `to >= from` decimals succeeds, converting the result back gives
/// `amount` again.
pub proof fn law_normalize_roundtrip(amount: i128, from: nat, to: nat)
    requires
        from <= to,
        normalize_spec(amount as int, from, to) is Ok,
    ensures
        normalize_spec(normalize_spec(amount as int, from, to)->Ok_0 as int, to, from) == Ok::<
            i128,
            ContractError,
        >(amount),
{
    if from < to {
        let k = (to - from) as nat;
        lemma_pow10_pos(k);
        let f = pow10(k);
        let a = amount as int;
        let v = a * f;
        if a >= 0 {
            vstd::arithmetic::div_mod::lemma_div_multiples_vanish(a, f);
            assert(v / f == a) by {
                assert(v == f * a) by (nonlinear_arith)
                    requires
                        v == a * f,
                ;
            }
        } else {
            vstd::arithmetic::div_mod::lemma_div_multiples_vanish(-a, f);
            assert((-v) / f == -a) by {
                assert(-v == f * (-a)) by (nonlinear_arith)
                    requires
                        v == a * f,
                ;
            }
            assert(v < 0) by (nonlinear_arith)
                requires
                    v == a * f,
                    a < 0,
                    f >= 1,
            ;
        }
    }
}

/// Multiplying in a shared precision by the unit of that precision gives the
/// amount back (for every amount but `i128::MIN`, whose magnitude does not
/// fit).
pub proof fn law_mul_by_unit(a: i128, scale: i128)
    requires
        scale > 0,
        a > i128::MIN,
    ensures
        mul_same_precision_spec(a as int, scale as int, scale as int) == Ok::<i128, ContractError>(a),
{
    let x = abs_spec(a as int);
    let sc = scale as int;
    vstd::arithmetic::div_mod::lemma_div_multiples_vanish(x, sc);
    assert(x * sc == sc * x) by (nonlinear_arith);
    assert((x * sc) / sc == x);
    assert(x <= i128::MAX);
}

/// Contract-facing entry points over the normalization functions.
pub struct DecimalNorm;

impl DecimalNorm {
    /// Same as `normalize_decimals`.
    pub fn normalize(amount: i128, from_decimals: u32, to_decimals: u32) -> (r: Result<
        i128,
        ContractError,
    >)
        ensures
            r == normalize_spec(amount as int, from_decimals as nat, to_decimals as nat),
    {
        normalize_decimals(amount, from_decimals, to_decimals)
    }

    /// Same as the free `stellar_to_perigee`.
    pub fn stellar_to_perigee(amount: i128) -> (r: Result<i128, ContractError>)
        ensures
            r == normalize_spec(amount as int, 7, 18),
    {
        stellar_to_perigee(amount)
    }

    /// Same as the free `perigee_to_stellar`.
    pub fn perigee_to_stellar(amount: i128) -> (r: Result<i128, ContractError>)
        ensures
            r == normalize_spec(amount as int, 18, 7),
    {
        perigee_to_stellar(amount)
    }
}

} // verus!
