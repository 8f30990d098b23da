//! Fixed-point numbers with 27 fractional bits, and the rounding divisions
//! that the coordinate transforms are built from.

use vstd::prelude::*;
use vstd::arithmetic::div_mod::lemma_fundamental_div_mod_converse;
use vstd::arithmetic::div_mod::lemma_fundamental_div_mod;
use vstd::arithmetic::power2::pow2;
use vstd::arithmetic::power2::lemma_pow2_strictly_increases;
use vstd::arithmetic::power2::lemma2_to64;
use vstd::bits::lemma_u64_shl_is_mul;

verus! {

/// The fixed-point representation of the number one: 2^27.
///
/// With this unit the extent of a viewport at every zoom level up to 20 is a
/// whole number of units.
pub const UNIT: i64 = 134_217_728;

/// The quotient rounded towards positive infinity.
pub open spec fn ceil_div(n: int, d: int) -> int {
    -((-n) / d)
}

/// `Some(v)` where `v` lies in the range of `i64`, else `None`.
pub open spec fn narrow(v: int) -> Option<i64> {
    if i64::MIN <= v <= i64::MAX {
        Some(v as i64)
    } else {
        None
    }
}

/// The quotient `n / d` rounded towards negative infinity.
pub fn div_floor(n: i128, d: i128) -> (q: i128)
    requires
        d > 0,
    ensures
        q == n as int / d as int,
{
    if n >= 0 {
        n / d
    } else {
        let m: i128 = -(n + 1);
        let q0: i128 = m / d;
        let r0: i128 = m % d;
        proof {
            lemma_fundamental_div_mod(m as int, d as int);
            let q1: int = -(q0 as int) - 1;
            let r1: int = d as int - 1 - r0 as int;
            assert(n as int == q1 * d as int + r1) by (nonlinear_arith)
                requires
                    m as int == d as int * q0 as int + r0 as int,
                    m as int == -(n as int + 1),
                    q1 == -(q0 as int) - 1,
                    r1 == d as int - 1 - r0 as int,
            ;
            lemma_fundamental_div_mod_converse(n as int, d as int, q1, r1);
        }
        -q0 - 1
    }
}

/// The quotient `n / d` rounded towards positive infinity.
pub fn div_ceil(n: i128, d: i128) -> (q: i128)
    requires
        d > 0,
        n > i128::MIN,
    ensures
        q == ceil_div(n as int, d as int),
{
    let f: i128 = div_floor(-n, d);
    proof {
        lemma_quotient_bound(-n as int, d as int);
    }
    -f
}

/// A quotient by a positive divisor is no larger in magnitude than the dividend.
pub proof fn lemma_quotient_bound(n: int, d: int)
    requires
        d > 0,
    ensures
        n >= 0 ==> 0 <= n / d <= n,
        n < 0 ==> n <= n / d < 0,
{
    lemma_fundamental_div_mod(n, d);
    let q = n / d;
    let r = n % d;
    assert(n == d * q + r);
    assert(0 <= r < d);
    if n >= 0 {
        assert(q >= 0) by (nonlinear_arith)
            requires n == d * q + r, 0 <= r < d, n >= 0, d > 0;
        assert(q <= n) by (nonlinear_arith)
            requires n == d * q + r, 0 <= r < d, q >= 0, d > 0;
    } else {
        assert(q < 0) by (nonlinear_arith)
            requires n == d * q + r, 0 <= r < d, n < 0, d > 0;
        assert(q >= n) by (nonlinear_arith)
            requires n == d * q + r, 0 <= r < d, q < 0, d > 0;
    }
}

/// Two to the power `e`.
pub fn pow2_u64(e: u8) -> (r: u64)
    requires
        e <= 32,
    ensures
        r == pow2(e as nat),
        1 <= r <= 0x1_0000_0000,
{
    proof {
        lemma2_to64();
        if e < 32 {
            lemma_pow2_strictly_increases(e as nat, 32);
        }
        lemma_u64_shl_is_mul(1u64, e as u64);
    }
    1u64 << (e as u64)
}

/// Two to the power `e`, for exponents that leave the product with any
/// `i64` within 128 bits.
pub fn pow2_wide(e: u8) -> (r: i128)
    requires
        e <= 64,
    ensures
        r == pow2(e as nat),
        1 <= r <= 0x1_0000_0000_0000_0000,
{
    let mut r: i128 = 1;
    let mut i: u8 = 0;
    proof {
        lemma2_to64();
    }
    while i < e
        invariant
            i <= e <= 64,
            r == pow2(i as nat),
            1 <= r <= 0x1_0000_0000_0000_0000,
        decreases e - i,
    {
        proof {
            vstd::arithmetic::power2::lemma_pow2_unfold((i + 1) as nat);
            lemma2_to64();
            if i + 1 < 64 {
                lemma_pow2_strictly_increases((i + 1) as nat, 64);
            }
        }
        r = r * 2;
        i += 1;
    }
    r
}

/// Brings a wide value back to `i64` where it fits.
pub fn narrow_i128(v: i128) -> (r: Option<i64>)
    ensures
        r == narrow(v as int),
{
    if v < -9_223_372_036_854_775_808i128 || v > 9_223_372_036_854_775_807i128 {
        None
    } else {
        Some(v as i64)
    }
}

} // verus!
