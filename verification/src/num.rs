//! Fixed-point arithmetic helpers: truncating, flooring, ceiling and
//! round-to-nearest division, and integer square roots.

use vstd::prelude::*;

verus! {

/// Number of fixed-point sub-units per world unit.
pub const SCALE: i64 = 1000;

/// Truncating (round-toward-zero) division, the rounding of Rust's `/`.
/// Intended for positive divisors only.
pub open spec fn tdiv(a: int, b: int) -> int {
    if a >= 0 {
        a / b
    } else {
        -((-a) / b)
    }
}

/// Round-to-nearest division with halves away from zero, the rounding of
/// `f64::round` applied to an exact quotient. Intended for positive divisors.
pub open spec fn rdiv(a: int, b: int) -> int {
    if a >= 0 {
        (2 * a + b) / (2 * b)
    } else {
        -((2 * (-a) + b) / (2 * b))
    }
}

/// Truncating division on machine integers.
pub fn div_trunc(a: i128, b: i128) -> (q: i128)
    requires
        b > 0,
    ensures
        q == tdiv(a as int, b as int),
{
    proof {
        lemma_tdiv_bounds(a as int, b as int);
    }
    match a.checked_div(b) {
        Some(q) => q,
        None => {
            proof {
                assert(false);
            }
            0
        },
    }
}

/// The quotient of a truncating division by a positive divisor lies between
/// zero and the dividend.
pub proof fn lemma_tdiv_bounds(a: int, b: int)
    requires
        b > 0,
    ensures
        a >= 0 ==> 0 <= tdiv(a, b) * b <= a && 0 <= tdiv(a, b) <= a,
        a < 0 ==> a <= tdiv(a, b) * b <= 0 && a <= tdiv(a, b) <= 0,
{
    if a >= 0 {
        vstd::arithmetic::div_mod::lemma_fundamental_div_mod(a, b);
        vstd::arithmetic::div_mod::lemma_mod_division_less_than_divisor(a, b);
        vstd::arithmetic::div_mod::lemma_div_pos_is_pos(a, b);
        let q = a / b;
        let r = a % b;
        assert(0 <= q * b <= a && q <= a) by (nonlinear_arith)
            requires
                a == b * q + r,
                0 <= r < b,
                q >= 0,
                b >= 1,
        ;
    } else {
        vstd::arithmetic::div_mod::lemma_fundamental_div_mod(-a, b);
        vstd::arithmetic::div_mod::lemma_mod_division_less_than_divisor(-a, b);
        vstd::arithmetic::div_mod::lemma_div_pos_is_pos(-a, b);
        let q = (-a) / b;
        let r = (-a) % b;
        assert(tdiv(a, b) == -q);
        assert(a <= (-q) * b <= 0 && a <= -q) by (nonlinear_arith)
            requires
                -a == b * q + r,
                0 <= r < b,
                q >= 0,
                b >= 1,
        ;
    }
}

/// The remainder of a truncating division is smaller than the divisor in
/// magnitude and has the dividend's sign.
pub proof fn lemma_tdiv_rem(a: int, b: int)
    requires
        b > 0,
    ensures
        a >= 0 ==> 0 <= a - tdiv(a, b) * b < b,
        a < 0 ==> -b < a - tdiv(a, b) * b <= 0,
{
    if a >= 0 {
        vstd::arithmetic::div_mod::lemma_fundamental_div_mod(a, b);
        vstd::arithmetic::div_mod::lemma_mod_division_less_than_divisor(a, b);
        assert(a - (a / b) * b == a % b) by (nonlinear_arith)
            requires
                a == b * (a / b) + a % b,
        ;
    } else {
        vstd::arithmetic::div_mod::lemma_fundamental_div_mod(-a, b);
        vstd::arithmetic::div_mod::lemma_mod_division_less_than_divisor(-a, b);
        assert(a - (-((-a) / b)) * b == -((-a) % b)) by (nonlinear_arith)
            requires
                -a == b * ((-a) / b) + (-a) % b,
        ;
    }
}

/// Squares of truncating quotients: `(tdiv(a, b) * b)^2 <= a^2`.
pub proof fn lemma_tdiv_sq(a: int, b: int)
    requires
        b > 0,
    ensures
        (tdiv(a, b) * b) * (tdiv(a, b) * b) <= a * a,
{
    lemma_tdiv_bounds(a, b);
    let t = tdiv(a, b) * b;
    assert((a >= 0 && 0 <= t <= a) || (a < 0 && a <= t <= 0));
    assert(((a >= 0 && 0 <= t <= a) || (a < 0 && a <= t <= 0)) ==> t * t <= a * a)
        by (nonlinear_arith);
}

/// Round-to-nearest division errs from the exact quotient by at most one
/// half: `|b * rdiv(a, b) - a| <= b / 2`, stated without fractions.
pub proof fn lemma_rdiv_err(a: int, b: int)
    requires
        b > 0,
    ensures
        -b <= 2 * b * rdiv(a, b) - 2 * a <= b,
{
    if a >= 0 {
        vstd::arithmetic::div_mod::lemma_fundamental_div_mod(2 * a + b, 2 * b);
        vstd::arithmetic::div_mod::lemma_mod_division_less_than_divisor(2 * a + b, 2 * b);
        let q = (2 * a + b) / (2 * b);
        let r = (2 * a + b) % (2 * b);
        assert(-b <= 2 * b * q - 2 * a <= b) by (nonlinear_arith)
            requires
                2 * a + b == 2 * b * q + r,
                0 <= r < 2 * b,
        ;
    } else {
        vstd::arithmetic::div_mod::lemma_fundamental_div_mod(2 * (-a) + b, 2 * b);
        vstd::arithmetic::div_mod::lemma_mod_division_less_than_divisor(2 * (-a) + b, 2 * b);
        let q = (2 * (-a) + b) / (2 * b);
        let r = (2 * (-a) + b) % (2 * b);
        assert(rdiv(a, b) == -q);
        assert(-b <= 2 * b * (-q) - 2 * a <= b) by (nonlinear_arith)
            requires
                -2 * a + b == 2 * b * q + r,
                0 <= r < 2 * b,
        ;
    }
}

/// The rounded quotient of a division by a positive divisor never exceeds
/// the dividend in magnitude.
pub proof fn lemma_rdiv_bounds(a: int, b: int)
    requires
        b > 0,
    ensures
        a >= 0 ==> 0 <= rdiv(a, b) <= a,
        a < 0 ==> a <= rdiv(a, b) <= 0,
{
    lemma_rdiv_err(a, b);
    let q = rdiv(a, b);
    if a >= 0 {
        vstd::arithmetic::div_mod::lemma_div_pos_is_pos(2 * a + b, 2 * b);
        assert(0 <= q <= a) by (nonlinear_arith)
            requires
                a >= 0,
                b >= 1,
                q >= 0,
                2 * b * q - 2 * a <= b,
        ;
    } else {
        vstd::arithmetic::div_mod::lemma_div_pos_is_pos(2 * (-a) + b, 2 * b);
        assert(q == -((2 * (-a) + b) / (2 * b)));
        assert(a <= q <= 0) by (nonlinear_arith)
            requires
                a < 0,
                b >= 1,
                q <= 0,
                2 * b * q - 2 * a >= -b,
        ;
    }
}

/// Round-to-nearest division on machine integers.
pub fn div_round(a: i128, b: i128) -> (q: i128)
    requires
        0 < b <= 0x1000_0000_0000_0000_0000_0000_0000_0000,
        -0x1000_0000_0000_0000_0000_0000_0000_0000 <= a
            <= 0x1000_0000_0000_0000_0000_0000_0000_0000,
    ensures
        q == rdiv(a as int, b as int),
{
    proof {
        lemma_rdiv_bounds(a as int, b as int);
    }
    if a >= 0 {
        div_trunc(2 * a + b, 2 * b)
    } else {
        let m = div_trunc(2 * (-a) + b, 2 * b);
        proof {
            vstd::arithmetic::div_mod::lemma_div_pos_is_pos(2 * (-a) + b, 2 * b);
        }
        -m
    }
}

/// Fixed-point value rounded to the nearest whole unit, halves away from
/// zero.
pub fn round_units(v: i64) -> (r: i64)
    requires
        -100_000_000_000_000 <= v <= 100_000_000_000_000,
    ensures
        r == rdiv(v as int, SCALE as int),
{
    proof {
        lemma_rdiv_bounds(v as int, SCALE as int);
    }
    let q = div_round(v as i128, SCALE as i128);
    q as i64
}

/// Largest integer whose square does not exceed `n`, as a recursive
/// definition.
pub open spec fn sqrt_floor(n: nat) -> nat
    decreases n,
{
    if n == 0 {
        0
    } else {
        let s = sqrt_floor((n - 1) as nat);
        if (s + 1) * (s + 1) <= n {
            s + 1
        } else {
            s
        }
    }
}

/// Smallest integer whose square is at least `n`.
pub open spec fn sqrt_ceil(n: nat) -> nat {
    if sqrt_floor(n) * sqrt_floor(n) == n {
        sqrt_floor(n)
    } else {
        sqrt_floor(n) + 1
    }
}

/// `sqrt_floor(n)` brackets `n` between consecutive squares.
pub proof fn lemma_sqrt_floor_bounds(n: nat)
    ensures
        sqrt_floor(n) * sqrt_floor(n) <= n,
        n < (sqrt_floor(n) + 1) * (sqrt_floor(n) + 1),
    decreases n,
{
    if n == 0 {
        assert(sqrt_floor(0) == 0);
        assert(sqrt_floor(n) * sqrt_floor(n) <= n);
        assert(n < (sqrt_floor(n) + 1) * (sqrt_floor(n) + 1));
    } else {
        lemma_sqrt_floor_bounds((n - 1) as nat);
        let s = sqrt_floor((n - 1) as nat);
        assert(n - 1 < (s + 1) * (s + 1));
        if (s + 1) * (s + 1) <= n {
            assert(sqrt_floor(n) == s + 1);
            assert((s + 1) * (s + 1) == n);
            let t = (s + 1) as int;
            assert(t * t < (t + 1) * (t + 1)) by (nonlinear_arith)
                requires
                    t >= 0,
            ;
            assert(n < (sqrt_floor(n) + 1) * (sqrt_floor(n) + 1));
        } else {
            assert(sqrt_floor(n) == s);
            assert(s * s <= n - 1 <= n);
            assert(!((s + 1) * (s + 1) <= n));
            assert(n < (sqrt_floor(n) + 1) * (sqrt_floor(n) + 1));
        }
    }
}

/// Only one integer brackets `n` between consecutive squares.
pub proof fn lemma_sqrt_floor_unique(n: nat, r: nat)
    requires
        r * r <= n,
        n < (r + 1) * (r + 1),
    ensures
        r == sqrt_floor(n),
{
    lemma_sqrt_floor_bounds(n);
    let s = sqrt_floor(n);
    if r < s {
        assert((r + 1) * (r + 1) <= s * s) by (nonlinear_arith)
            requires
                r + 1 <= s,
        ;
    }
    if r > s {
        assert((s + 1) * (s + 1) <= r * r) by (nonlinear_arith)
            requires
                s + 1 <= r,
        ;
    }
}

/// `sqrt_ceil(n)` squared is at least `n`, and is zero only at zero.
pub proof fn lemma_sqrt_ceil_bounds(n: nat)
    ensures
        n <= sqrt_ceil(n) * sqrt_ceil(n),
        n == 0 ==> sqrt_ceil(n) == 0,
        n > 0 ==> sqrt_ceil(n) > 0,
{
    lemma_sqrt_floor_bounds(n);
    if n == 0 {
        assert(sqrt_floor(0) == 0);
    }
}

/// Integer square root, rounded down.
pub fn isqrt(n: u128) -> (r: u128)
    ensures
        r == sqrt_floor(n as nat),
        r * r <= n < (r + 1) * (r + 1),
{
    let mut lo: u128 = 0;
    let mut hi: u128 = 0x1_0000_0000_0000_0000;
    proof {
        assert((0x1_0000_0000_0000_0000 as int) * (0x1_0000_0000_0000_0000 as int) > n as int);
    }
    while lo + 1 < hi
        invariant
            lo < hi <= 0x1_0000_0000_0000_0000,
            lo * lo <= n,
            n < hi * hi,
        decreases hi - lo,
    {
        let mid = lo + (hi - lo) / 2;
        assert(lo < mid < hi);
        proof {
            assert(mid * mid < 0x1_0000_0000_0000_0000_0000_0000_0000_0000) by (nonlinear_arith)
                requires
                    0 <= mid < 0x1_0000_0000_0000_0000,
            ;
        }
        let sq = mid * mid;
        if sq <= n {
            lo = mid;
        } else {
            hi = mid;
        }
    }
    proof {
        lemma_sqrt_floor_unique(n as nat, lo as nat);
    }
    lo
}

/// Integer square root, rounded up.
pub fn isqrt_up(n: u128) -> (r: u128)
    ensures
        r == sqrt_ceil(n as nat),
        n <= r * r,
        r <= 0x1_0000_0000_0000_0000,
{
    let f = isqrt(n);
    proof {
        lemma_sqrt_ceil_bounds(n as nat);
        assert(f < 0x1_0000_0000_0000_0000) by (nonlinear_arith)
            requires
                f >= 0,
                f * f <= n,
                n < 0x1_0000_0000_0000_0000_0000_0000_0000_0000,
        ;
    }
    if f * f == n {
        f
    } else {
        f + 1
    }
}



} // verus!
