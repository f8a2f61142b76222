//! Saturating fixed-point arithmetic on `i128`.
//!
//! A quantity `x` is stored as the integer `x * FX_SCALE`, truncated toward
//! zero.  Every operation clamps its mathematical result into the symmetric
//! range `[-i128::MAX, i128::MAX]` (the asymmetric `i128::MIN` is never
//! produced), so the physics pipeline is total: no overflow, no panic.
//! Products and quotients are computed through a 256-bit intermediate held
//! in two `u128` halves, so `a * b / c` loses no precision before the final
//! truncation.

use vstd::prelude::*;
use vstd::arithmetic::power2::pow2;

verus! {

/// Raw steps per unit: a quantity `x` is stored as `x * FX_SCALE`.
pub const FX_SCALE: i128 = 1_000_000;

/// Largest raw value any operation returns.
pub const FX_MAX: i128 = i128::MAX;

/// Smallest raw value any operation returns (symmetric with `FX_MAX`).
pub const FX_MIN: i128 = -i128::MAX;

/// The raw value `a` lies in the symmetric saturation range.
pub open spec fn in_range(a: int) -> bool {
    -(i128::MAX as int) <= a && a <= i128::MAX as int
}

/// Clamp a mathematical integer into the symmetric saturation range.
pub open spec fn clamp(a: int) -> int {
    if a > i128::MAX as int {
        i128::MAX as int
    } else if a < -(i128::MAX as int) {
        -(i128::MAX as int)
    } else {
        a
    }
}

/// Division truncated toward zero (the `/` of spec code is Euclidean).
/// Meaningful here only for `b > 0`.
pub open spec fn tdiv(a: int, b: int) -> int {
    if a >= 0 {
        a / b
    } else {
        -((-a) / b)
    }
}

/// What `muldiv` returns: `a * b / c` truncated toward zero, then clamped.
pub open spec fn muldiv_s(a: int, b: int, c: int) -> int {
    clamp(tdiv(a * b, c))
}

/// What `sat_add` returns.
pub open spec fn sat_add_s(a: int, b: int) -> int {
    clamp(a + b)
}

/// What `sat_sub` returns.
pub open spec fn sat_sub_s(a: int, b: int) -> int {
    clamp(a - b)
}

/// Fixed-point product of two raw values.
pub open spec fn fxmul_s(a: int, b: int) -> int {
    muldiv_s(a, b, FX_SCALE as int)
}

/// Fixed-point quotient of two raw values, `b > 0`.
pub open spec fn fxdiv_s(a: int, b: int) -> int {
    muldiv_s(a, FX_SCALE as int, b)
}

/// Saturating addition.
pub fn sat_add(a: i128, b: i128) -> (r: i128)
    requires
        in_range(a as int),
        in_range(b as int),
    ensures
        r as int == sat_add_s(a as int, b as int),
        in_range(r as int),
{
    if a > 0 && b > i128::MAX - a {
        i128::MAX
    } else if a < 0 && b < -i128::MAX - a {
        -i128::MAX
    } else {
        a + b
    }
}

/// Saturating subtraction.
pub fn sat_sub(a: i128, b: i128) -> (r: i128)
    requires
        in_range(a as int),
        in_range(b as int),
    ensures
        r as int == sat_sub_s(a as int, b as int),
        in_range(r as int),
{
    if b > 0 && a < -i128::MAX + b {
        -i128::MAX
    } else if b < 0 && a > i128::MAX + b {
        i128::MAX
    } else {
        a - b
    }
}

/// `2^128`, the weight of the high half of a 256-bit intermediate.
pub open spec fn two_pow_128() -> int {
    0x100000000000000000000000000000000int
}

/// The integer held by a 256-bit intermediate split into two `u128` halves.
pub open spec fn wide(hi: u128, lo: u128) -> int {
    hi * two_pow_128() + lo
}

/// `2^64`, the split point for 128 x 128 -> 256 multiplication.
const K64: u128 = 0x1_0000_0000_0000_0000;

/// Full 128 x 128 -> 256 bit product, schoolbook on 64-bit halves.
fn wmul(a: u128, b: u128) -> (r: (u128, u128))
    ensures
        wide(r.0, r.1) == a * b,
{
    let a1 = a / K64;
    let a0 = a % K64;
    let b1 = b / K64;
    let b0 = b % K64;
    proof {
        assert(a0 < K64 && b0 < K64);
        assert(a1 < K64 && b1 < K64) by (nonlinear_arith)
            requires
                a1 == a as int / K64 as int,
                b1 == b as int / K64 as int,
                a <= u128::MAX,
                b <= u128::MAX;
        assert(a0 * b0 <= (K64 - 1) * (K64 - 1) && a0 * b1 <= (K64 - 1) * (K64 - 1)
            && a1 * b0 <= (K64 - 1) * (K64 - 1) && a1 * b1 <= (K64 - 1) * (K64 - 1))
            by (nonlinear_arith)
            requires
                a0 < K64 && b0 < K64 && a1 < K64 && b1 < K64;
    }
    let p00 = a0 * b0;
    let p01 = a0 * b1;
    let p10 = a1 * b0;
    let p11 = a1 * b1;
    let mid = (p01 % K64) + (p10 % K64) + (p00 / K64);
    let lo = (p00 % K64) + (mid % K64) * K64;
    proof {
        // Each quotient of a sub-2^128 product by 2^64 stays below 2^64 - 1,
        // so the high half cannot overflow.
        assert(p01 / K64 <= K64 - 2 && p10 / K64 <= K64 - 2 && p00 / K64 <= K64 - 2)
            by (nonlinear_arith)
            requires
                p01 <= (K64 - 1) * (K64 - 1),
                p10 <= (K64 - 1) * (K64 - 1),
                p00 <= (K64 - 1) * (K64 - 1),
                K64 == 0x1_0000_0000_0000_0000u128;
        assert(mid / K64 <= 2) by (nonlinear_arith)
            requires
                mid < 3 * K64,
                K64 == 0x1_0000_0000_0000_0000u128;
    }
    let hi = p11 + (p01 / K64) + (p10 / K64) + (mid / K64);
    proof {
        let ka = K64 as int;
        vstd::arithmetic::div_mod::lemma_fundamental_div_mod(p00 as int, ka);
        vstd::arithmetic::div_mod::lemma_fundamental_div_mod(p01 as int, ka);
        vstd::arithmetic::div_mod::lemma_fundamental_div_mod(p10 as int, ka);
        vstd::arithmetic::div_mod::lemma_fundamental_div_mod(mid as int, ka);
        assert(a as int * b as int == p11 * ka * ka + (p01 + p10) * ka + p00)
            by (nonlinear_arith)
            requires
                a == a1 * ka + a0,
                b == b1 * ka + b0,
                p00 == a0 * b0,
                p01 == a0 * b1,
                p10 == a1 * b0,
                p11 == a1 * b1;
        assert(wide(hi, lo) == a as int * b as int) by (nonlinear_arith)
            requires
                ka == 0x1_0000_0000_0000_0000,
                hi == p11 + (p01 as int / ka) + (p10 as int / ka) + (mid as int / ka),
                lo == (p00 as int % ka) + (mid as int % ka) * ka,
                mid == (p01 as int % ka) + (p10 as int % ka) + (p00 as int / ka),
                p00 == ka * (p00 as int / ka) + (p00 as int % ka),
                p01 == ka * (p01 as int / ka) + (p01 as int % ka),
                p10 == ka * (p10 as int / ka) + (p10 as int % ka),
                mid == ka * (mid as int / ka) + (mid as int % ka),
                a as int * b as int == p11 * ka * ka + (p01 + p10) * ka + p00,
                wide(hi, lo) == hi * two_pow_128() + lo,
                two_pow_128() == 0x100000000000000000000000000000000int;
    }
    (hi, lo)
}

/// 256-bit by 128-bit division, quotient saturated at `u128::MAX`.
/// Classic shift-subtract long division over the 256 bits of `(hi, lo)`.
fn wdiv(hi: u128, lo: u128, c: u128) -> (q: u128)
    requires
        0 < c,
        c <= i128::MAX as u128,
    ensures
        wide(hi, lo) / (c as int) > u128::MAX ==> q == u128::MAX,
        wide(hi, lo) / (c as int) <= u128::MAX ==> q == wide(hi, lo) / (c as int),
{
    proof {
        vstd::arithmetic::power2::lemma_pow2_adds(64, 64);
        vstd::arithmetic::power2::lemma2_to64();
        assert(pow2(128) == two_pow_128());
    }
    if hi >= c {
        // The true quotient is at least 2^128: saturate.
        proof {
            let ci = c as int;
            vstd::arithmetic::mul::lemma_mul_inequality(ci, hi as int, two_pow_128());
            assert(ci * two_pow_128() <= hi as int * two_pow_128());
            vstd::arithmetic::div_mod::lemma_div_multiples_vanish(two_pow_128(), ci);
            vstd::arithmetic::div_mod::lemma_div_is_ordered(
                ci * two_pow_128(),
                wide(hi, lo),
                ci,
            );
        }
        return u128::MAX;
    }
    let mut q: u128 = 0;
    let mut r: u128 = hi;
    let mut rest: u128 = lo;
    let mut pow: u128 = 0x8000_0000_0000_0000_0000_0000_0000_0000;
    let mut i: usize = 0;
    let ghost mut m: int = pow2(128) as int;
    let ghost mut top: int = 0int;
    proof {
        vstd::arithmetic::div_mod::lemma_fundamental_div_mod_converse(
            lo as int,
            m,
            0int,
            lo as int,
        );
        vstd::arithmetic::power2::lemma_pow2_adds(127, 1);
        assert(pow2(1) == 2) by {
            vstd::arithmetic::power2::lemma2_to64();
        }
        assert(pow2(127) * 2 == pow2(128));
        assert(2 * pow as int == pow2(128)) by {
            vstd::arithmetic::power2::lemma_pow2_adds(64, 63);
            vstd::arithmetic::power2::lemma2_to64();
            vstd::arithmetic::power2::lemma2_to64_rest();
        }
        assert(pow2(0) == 1) by {
            vstd::arithmetic::power2::lemma2_to64();
        }
    }
    while i < 128
        invariant
            0 < c <= i128::MAX as u128,
            hi < c,
            i <= 128,
            m == pow2((128 - i) as nat),
            i < 128 ==> 2 * pow as int == m,
            rest as int == lo as int % m,
            top == lo as int / m,
            hi as int * pow2(i as nat) + top == q as int * c as int + r as int,
            r < c,
        decreases 128 - i,
    {
        proof {
            vstd::arithmetic::power2::lemma_pow2_pos((127 - i) as nat);
            vstd::arithmetic::power2::lemma_pow2_adds((127 - i) as nat, 1);
            assert(pow2(1) == 2) by {
                vstd::arithmetic::power2::lemma2_to64();
            }
            assert(m == 2 * pow2((127 - i) as nat));
            assert(pow as int == pow2((127 - i) as nat));
        }
        let bit = rest / pow;
        let rest2 = rest % pow;
        proof {
            let pi = pow as int;
            let li = lo as int;
            // rest < m == 2 * pow, so the extracted bit is 0 or 1.
            vstd::arithmetic::div_mod::lemma_mod_division_less_than_divisor(li, m);
            assert(rest < 2 * pow);
            vstd::arithmetic::div_mod::lemma_multiply_divide_lt(rest as int, pi, 2int);
            assert(bit <= 1);
            // lo == m*top + rest and rest == pow*bit + rest2
            // give lo == pow*(2*top + bit) + rest2.
            vstd::arithmetic::div_mod::lemma_fundamental_div_mod(li, m);
            vstd::arithmetic::div_mod::lemma_fundamental_div_mod(rest as int, pi);
            assert(li == pi * (2 * top + bit) + rest2) by (nonlinear_arith)
                requires
                    li == m * top + rest,
                    m == 2 * pi,
                    rest == pi * bit + rest2;
            vstd::arithmetic::div_mod::lemma_fundamental_div_mod_converse(
                li,
                pi,
                2 * top + bit,
                rest2 as int,
            );
            // Quotient stays below 2^i, so doubling it cannot overflow.
            let w = pow2(i as nat) as int;
            let ci = c as int;
            vstd::arithmetic::power2::lemma_pow2_pos(i as nat);
            vstd::arithmetic::power2::lemma_pow2_pos((128 - i) as nat);
            assert(m * w == pow2(128)) by {
                vstd::arithmetic::power2::lemma_pow2_adds((128 - i) as nat, i as nat);
            }
            assert(pow2(128) == two_pow_128()) by {
                vstd::arithmetic::power2::lemma_pow2_adds(64, 64);
                vstd::arithmetic::power2::lemma2_to64();
            }
            vstd::arithmetic::div_mod::lemma_multiply_divide_lt(li, m, w);
            assert(top < w);
            assert(q as int * ci < ci * w) by (nonlinear_arith)
                requires
                    q as int * ci + r as int == hi as int * w + top,
                    hi as int <= ci - 1,
                    top < w,
                    r >= 0,
                    w > 0,
                    ci > 0;
            assert(ci * (q as int) < ci * w) by (nonlinear_arith)
                requires
                    (q as int) * ci < ci * w,
            ;
            vstd::arithmetic::div_mod::lemma_div_multiples_vanish(q as int, ci);
            vstd::arithmetic::div_mod::lemma_multiply_divide_lt(ci * (q as int), ci, w);
            assert(q < w);
            assert(w <= pow2(127)) by {
                if i < 127 {
                    vstd::arithmetic::power2::lemma_pow2_strictly_increases(
                        i as nat,
                        127,
                    );
                }
            }
            assert(2 * pow2(127) == pow2(128)) by {
                vstd::arithmetic::power2::lemma_pow2_adds(127, 1);
                vstd::arithmetic::power2::lemma2_to64();
            }
            assert(2 * q as int + 1 <= u128::MAX as int);
        }
        let ghost wi = pow2(i as nat) as int;
        let r2 = 2 * r + bit;
        if r2 >= c {
            proof {
                let ci = c as int;
                assert((2 * q as int + 1) * ci + (r2 - ci) == 2 * (q as int * ci + r as int)
                    + bit) by (nonlinear_arith)
                    requires
                        r2 == 2 * r as int + bit,
                ;
            }
            q = 2 * q + 1;
            r = r2 - c;
        } else {
            proof {
                let ci = c as int;
                assert((2 * q as int) * ci + r2 == 2 * (q as int * ci + r as int) + bit)
                    by (nonlinear_arith)
                    requires
                        r2 == 2 * r as int + bit,
                ;
            }
            q = 2 * q;
            r = r2;
        }
        proof {
            // The processed value doubles and takes in the next bit.
            assert(pow2((i + 1) as nat) == 2 * pow2(i as nat)) by {
                vstd::arithmetic::power2::lemma_pow2_adds(i as nat, 1);
                vstd::arithmetic::power2::lemma2_to64();
            }
            assert(hi as int * pow2((i + 1) as nat) == 2 * (hi as int * wi))
                by (nonlinear_arith)
                requires
                    pow2((i + 1) as nat) == 2 * wi,
                    wi == pow2(i as nat),
            ;
            top = 2 * top + bit as int;
            m = pow as int;
            assert(m == pow2((128 - (i + 1)) as nat));
        }
        rest = rest2;
        if i < 127 {
            proof {
                vstd::arithmetic::power2::lemma_pow2_adds((126 - i) as nat, 1);
                vstd::arithmetic::power2::lemma2_to64();
                assert(pow2((127 - i) as nat) == 2 * pow2((126 - i) as nat));
            }
        }
        pow = pow / 2;
        i = i + 1;
    }
    proof {
        assert(m == pow2(0));
        assert(pow2(0) == 1) by {
            vstd::arithmetic::power2::lemma2_to64();
        }
        assert(top == lo as int / 1);
        vstd::arithmetic::div_mod::lemma_div_basics_1(lo as int);
        assert(hi as int * pow2(128) + lo == q as int * c as int + r as int);
        vstd::arithmetic::div_mod::lemma_fundamental_div_mod_converse(
            wide(hi, lo),
            c as int,
            q as int,
            r as int,
        );
    }
    q
}

/// `a * b / c` truncated toward zero, computed through a 256-bit
/// intermediate and clamped into the symmetric `i128` range.
pub fn muldiv(a: i128, b: i128, c: i128) -> (r: i128)
    requires
        in_range(a as int),
        in_range(b as int),
        c > 0,
    ensures
        r as int == muldiv_s(a as int, b as int, c as int),
        in_range(r as int),
{
    let neg = (a < 0) != (b < 0);
    let ua: u128 = if a < 0 { (-a) as u128 } else { a as u128 };
    let ub: u128 = if b < 0 { (-b) as u128 } else { b as u128 };
    let p = wmul(ua, ub);
    let q = wdiv(p.0, p.1, c as u128);
    proof {
        let ai = a as int;
        let bi = b as int;
        let ci = c as int;
        assert(ua as int * ub as int == (if ai * bi >= 0 { ai * bi } else { -(ai * bi) }))
            by (nonlinear_arith)
            requires
                ua as int == (if ai < 0 { -ai } else { ai }),
                ub as int == (if bi < 0 { -bi } else { bi });
        if neg {
            assert(ai * bi <= 0) by (nonlinear_arith)
                requires (ai < 0) != (bi < 0);
        } else {
            assert(ai * bi >= 0) by (nonlinear_arith)
                requires (ai < 0) == (bi < 0);
        }
    }
    if q > i128::MAX as u128 {
        proof {
            // The unsigned quotient exceeds the symmetric range either
            // because it saturated or because it really is that large;
            // both cases clamp.
            let mag = wide(p.0, p.1) / (c as int);
            assert(mag > i128::MAX as int);
        }
        if neg { -i128::MAX } else { i128::MAX }
    } else {
        if neg { -(q as i128) } else { q as i128 }
    }
}

/// 256-bit addition; the operands came from 128 x 128 products, so the
/// sum fits well below 2^256.
fn wadd(a: (u128, u128), b: (u128, u128)) -> (r: (u128, u128))
    requires
        wide(a.0, a.1) + wide(b.0, b.1) < two_pow_128() * two_pow_128(),
    ensures
        wide(r.0, r.1) == wide(a.0, a.1) + wide(b.0, b.1),
{
    proof {
        assert(a.0 + b.0 < two_pow_128()) by (nonlinear_arith)
            requires
                a.0 as int * two_pow_128() + a.1 + b.0 as int * two_pow_128() + b.1
                    < two_pow_128() * two_pow_128(),
                a.1 >= 0,
                b.1 >= 0,
                a.0 >= 0,
                b.0 >= 0,
                two_pow_128() == 0x100000000000000000000000000000000int;
    }
    if b.1 <= u128::MAX - a.1 {
        (a.0 + b.0, a.1 + b.1)
    } else {
        proof {
            assert(a.0 + b.0 + 1 < two_pow_128()) by (nonlinear_arith)
                requires
                    a.0 as int * two_pow_128() + a.1 + b.0 as int * two_pow_128() + b.1
                        < two_pow_128() * two_pow_128(),
                    a.1 + b.1 >= two_pow_128(),
                    a.1 < two_pow_128(),
                    b.1 < two_pow_128(),
                    a.0 >= 0,
                    b.0 >= 0,
                    two_pow_128() == 0x100000000000000000000000000000000int;
        }
        (a.0 + b.0 + 1, a.1 - (u128::MAX - b.1) - 1)
    }
}

/// `r` is the floor of the square root of `n`.
pub open spec fn is_sqrt(n: int, r: int) -> bool {
    0 <= r && r * r <= n && n < (r + 1) * (r + 1)
}

/// The floor square root, as a spec-level function of the radicand alone.
pub open spec fn sqrt_s(n: int) -> int {
    choose|r: int| is_sqrt(n, r)
}

/// The floor square root is unique, so any witness pins `sqrt_s` down.
pub proof fn lemma_sqrt_unique(n: int, r: int)
    requires
        is_sqrt(n, r),
    ensures
        sqrt_s(n) == r,
{
    assert(is_sqrt(n, sqrt_s(n))) by {
        assert(exists|x: int| is_sqrt(n, x));
    }
    let r2 = sqrt_s(n);
    assert(r == r2) by (nonlinear_arith)
        requires
            0 <= r,
            0 <= r2,
            r * r <= n,
            n < (r + 1) * (r + 1),
            r2 * r2 <= n,
            n < (r2 + 1) * (r2 + 1);
}

/// Every non-negative integer has a floor square root, so `sqrt_s` of a
/// non-negative radicand really is it.
pub proof fn lemma_sqrt_exists(n: int)
    requires
        n >= 0,
    ensures
        is_sqrt(n, sqrt_s(n)),
        sqrt_s(n) >= 0,
    decreases n,
{
    if n == 0 {
        assert(is_sqrt(0, 0)) by (nonlinear_arith);
    } else {
        lemma_sqrt_exists(n - 1);
        let r = sqrt_s(n - 1);
        if n < (r + 1) * (r + 1) {
            assert(is_sqrt(n, r));
        } else {
            assert(is_sqrt(n, r + 1)) by (nonlinear_arith)
                requires
                    r >= 0,
                    r * r <= n - 1,
                    n - 1 < (r + 1) * (r + 1),
                    n >= (r + 1) * (r + 1);
        }
        assert(exists|x: int| is_sqrt(n, x));
    }
}

/// Floor square root of a 256-bit value, by binary search.
fn wisqrt(hi: u128, lo: u128) -> (r: u128)
    ensures
        is_sqrt(wide(hi, lo), r as int),
{
    let mut lo_b: u128 = 0;
    let mut hi_b: u128 = u128::MAX;
    proof {
        assert(wide(hi, lo) < (u128::MAX as int + 1) * (u128::MAX as int + 1))
            by (nonlinear_arith)
            requires
                wide(hi, lo) == hi as int * two_pow_128() + lo,
                hi <= u128::MAX,
                lo <= u128::MAX,
                two_pow_128() == 0x100000000000000000000000000000000int;
    }
    while lo_b < hi_b
        invariant
            lo_b <= hi_b,
            lo_b as int * lo_b as int <= wide(hi, lo),
            wide(hi, lo) < (hi_b as int + 1) * (hi_b as int + 1),
        decreases hi_b - lo_b,
    {
        let mid = hi_b - (hi_b - lo_b) / 2;
        let sq = wmul(mid, mid);
        let le = sq.0 < hi || (sq.0 == hi && sq.1 <= lo);
        proof {
            assert(le == (wide(sq.0, sq.1) <= wide(hi, lo))) by (nonlinear_arith)
                requires
                    le == (sq.0 < hi || (sq.0 == hi && sq.1 <= lo)),
                    wide(sq.0, sq.1) == sq.0 as int * two_pow_128() + sq.1,
                    wide(hi, lo) == hi as int * two_pow_128() + lo,
                    sq.1 < two_pow_128(),
                    lo < two_pow_128(),
                    sq.0 >= 0,
                    hi >= 0,
                    two_pow_128() == 0x100000000000000000000000000000000int;
            if !le {
                assert(wide(hi, lo) < mid as int * mid as int);
            }
        }
        if le {
            lo_b = mid;
        } else {
            hi_b = mid - 1;
        }
    }
    lo_b
}

/// Fixed-point length of the vector `(x, y)`: the floor square root of
/// `x*x + y*y` (both raw, so the root is raw again), clamped.
pub fn fx_hypot(x: i128, y: i128) -> (r: i128)
    requires
        in_range(x as int),
        in_range(y as int),
    ensures
        r as int == clamp(sqrt_s(x as int * x as int + y as int * y as int)),
        r >= 0,
        in_range(r as int),
{
    let ux: u128 = if x < 0 { (-x) as u128 } else { x as u128 };
    let uy: u128 = if y < 0 { (-y) as u128 } else { y as u128 };
    let sx = wmul(ux, ux);
    let sy = wmul(uy, uy);
    proof {
        assert(ux as int * ux as int == x as int * x as int && uy as int * uy as int
            == y as int * y as int) by (nonlinear_arith)
            requires
                ux as int == (if x < 0 { -(x as int) } else { x as int }),
                uy as int == (if y < 0 { -(y as int) } else { y as int });
        assert(wide(sx.0, sx.1) + wide(sy.0, sy.1) < two_pow_128() * two_pow_128())
            by (nonlinear_arith)
            requires
                wide(sx.0, sx.1) == ux as int * ux as int,
                wide(sy.0, sy.1) == uy as int * uy as int,
                ux as int <= i128::MAX as int,
                uy as int <= i128::MAX as int,
                two_pow_128() == 0x100000000000000000000000000000000int;
    }
    let s = wadd(sx, sy);
    let root = wisqrt(s.0, s.1);
    proof {
        lemma_sqrt_unique(x as int * x as int + y as int * y as int, root as int);
        assert(x as int * x as int + y as int * y as int >= 0) by (nonlinear_arith);
    }
    if root > i128::MAX as u128 {
        i128::MAX
    } else {
        root as i128
    }
}

/// Fixed-point product.
pub fn fx_mul(a: i128, b: i128) -> (r: i128)
    requires
        in_range(a as int),
        in_range(b as int),
    ensures
        r as int == fxmul_s(a as int, b as int),
        in_range(r as int),
{
    muldiv(a, b, FX_SCALE)
}

/// Fixed-point quotient; the divisor must be positive.
pub fn fx_div(a: i128, b: i128) -> (r: i128)
    requires
        in_range(a as int),
        b > 0,
    ensures
        r as int == fxdiv_s(a as int, b as int),
        in_range(r as int),
{
    muldiv(a, FX_SCALE, b)
}

/// Clamping is an odd function.
pub proof fn lemma_clamp_neg(a: int)
    ensures
        clamp(-a) == -clamp(a),
{
}

/// Truncated division is odd in its dividend.
pub proof fn lemma_tdiv_neg(a: int, b: int)
    requires
        b > 0,
    ensures
        tdiv(-a, b) == -tdiv(a, b),
{
    if a == 0 {
        assert(0int / b == 0) by (nonlinear_arith)
            requires b > 0;
    }
}

/// `muldiv_s` is odd in its second factor.
pub proof fn lemma_muldiv_s_neg_right(a: int, b: int, c: int)
    requires
        c > 0,
    ensures
        muldiv_s(a, -b, c) == -muldiv_s(a, b, c),
{
    assert(a * (-b) == -(a * b)) by (nonlinear_arith);
    lemma_tdiv_neg(a * b, c);
    lemma_clamp_neg(tdiv(a * b, c));
}

/// The two factors of `muldiv_s` commute.
pub proof fn lemma_muldiv_s_comm(a: int, b: int, c: int)
    ensures
        muldiv_s(a, b, c) == muldiv_s(b, a, c),
{
    assert(a * b == b * a) by (nonlinear_arith);
}

/// Exact truncated division: a multiple of the divisor divides without
/// remainder.
pub proof fn lemma_tdiv_exact(k: int, c: int)
    requires
        c > 0,
    ensures
        tdiv(k * c, c) == k,
{
    if k >= 0 {
        assert(k * c >= 0) by (nonlinear_arith)
            requires k >= 0, c > 0;
        vstd::arithmetic::div_mod::lemma_div_multiples_vanish(k, c);
        assert(k * c == c * k) by (nonlinear_arith);
    } else {
        assert(k * c < 0) by (nonlinear_arith)
            requires k < 0, c > 0;
        assert(-(k * c) == (-k) * c) by (nonlinear_arith);
        vstd::arithmetic::div_mod::lemma_div_multiples_vanish(-k, c);
        assert((-k) * c == c * (-k)) by (nonlinear_arith);
    }
}

/// `muldiv_s(a, b, b)` gives `a` back.
pub proof fn lemma_muldiv_s_cancel(a: int, b: int)
    requires
        b > 0,
        in_range(a),
    ensures
        muldiv_s(a, b, b) == a,
{
    lemma_tdiv_exact(a, b);
}

/// When `a * b == k * c`, the truncated quotient is exactly `k`.
pub proof fn lemma_muldiv_s_of_product(a: int, b: int, c: int, k: int)
    requires
        c > 0,
        a * b == k * c,
        in_range(k),
    ensures
        muldiv_s(a, b, c) == k,
{
    lemma_tdiv_exact(k, c);
}

/// Dividing `f * s` by a divisor at least `s` cannot exceed `f` in
/// magnitude.
pub proof fn lemma_tdiv_scale_le(f: int, s: int, m: int)
    requires
        s > 0,
        m >= s,
    ensures
        f >= 0 ==> 0 <= tdiv(f * s, m) <= f,
        f < 0 ==> f <= tdiv(f * s, m) <= 0,
{
    if f >= 0 {
        assert(f * s >= 0) by (nonlinear_arith)
            requires f >= 0, s > 0;
        vstd::arithmetic::div_mod::lemma_div_is_ordered_by_denominator(f * s, s, m);
        lemma_tdiv_exact(f, s);
        vstd::arithmetic::div_mod::lemma_div_pos_is_pos(f * s, m);
    } else {
        assert(f * s < 0) by (nonlinear_arith)
            requires f < 0, s > 0;
        assert(-(f * s) == (-f) * s) by (nonlinear_arith);
        vstd::arithmetic::div_mod::lemma_div_is_ordered_by_denominator((-f) * s, s, m);
        lemma_tdiv_exact(-f, s);
        vstd::arithmetic::div_mod::lemma_div_pos_is_pos((-f) * s, m);
    }
}

/// Truncated division is monotone in a non-negative dividend.
pub proof fn lemma_tdiv_monotone(a: int, b: int, c: int)
    requires
        c > 0,
        0 <= a <= b,
    ensures
        0 <= tdiv(a, c) <= tdiv(b, c),
{
    vstd::arithmetic::div_mod::lemma_div_is_ordered(a, b, c);
    vstd::arithmetic::div_mod::lemma_div_pos_is_pos(a, c);
}

/// A positive truncated quotient forces a positive dividend.
pub proof fn lemma_tdiv_pos_dividend(a: int, b: int)
    requires
        b > 0,
        tdiv(a, b) > 0,
    ensures
        a > 0,
{
    if a <= 0 {
        if a >= 0 {
            assert(0int / b == 0) by (nonlinear_arith)
                requires b > 0;
        } else {
            assert((-a) / b >= 0) by (nonlinear_arith)
                requires b > 0, -a > 0;
        }
    }
}

} // verus!
