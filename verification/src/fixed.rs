//! Fixed-point arithmetic for the simulation's economic formulas.
//!
//! All continuous quantities of the game are integers at a fixed scale:
//! currency and prices in thousandths (milli), resource quantities in
//! millionths (micro), cargo volume in billionths (nano).  The fractional
//! powers of the game's formulas are computed through integer roots, whose
//! results are pinned exactly by a floor characterisation.

use vstd::prelude::*;

verus! {

use vstd::arithmetic::power::pow;
use vstd::arithmetic::power::lemma_pow_increases;
use vstd::arithmetic::power::lemma_pow_positive;
use vstd::arithmetic::mul::lemma_mul_inequality;
use vstd::arithmetic::mul::lemma_mul_left_inequality;

pub const MILLI: u64 = 1000;

/// Clamp a mathematical integer to the `u64` range from above.
pub open spec fn cap64(x: int) -> int {
    if x > u64::MAX as int {
        u64::MAX as int
    } else {
        x
    }
}

/// `pow` keeps non-negative bases non-negative.
pub proof fn lemma_pow_nonneg(b: int, e: nat)
    requires
        0 <= b,
    ensures
        0 <= pow(b, e),
    decreases e,
{
    reveal(pow);
    if e > 0 {
        lemma_pow_nonneg(b, (e - 1) as nat);
        lemma_mul_inequality(0, b, pow(b, (e - 1) as nat));
    }
}

/// `pow` is monotone in the base.
pub proof fn lemma_pow_base_le(a: int, b: int, e: nat)
    requires
        0 <= a <= b,
    ensures
        pow(a, e) <= pow(b, e),
    decreases e,
{
    reveal(pow);
    if e > 0 {
        let e1 = (e - 1) as nat;
        lemma_pow_base_le(a, b, e1);
        lemma_pow_nonneg(a, e1);
        lemma_mul_inequality(a, b, pow(a, e1));
        assert(a * pow(a, e1) <= b * pow(a, e1));
        if b > 0 {
            lemma_mul_left_inequality(b, pow(a, e1), pow(b, e1));
            assert(b * pow(a, e1) <= b * pow(b, e1));
        }
    }
}

/// `pow` is strictly monotone in the base for positive exponents.
pub proof fn lemma_pow_base_lt(a: int, b: int, e: nat)
    requires
        0 <= a < b,
        1 <= e,
    ensures
        pow(a, e) < pow(b, e),
    decreases e,
{
    reveal(pow);
    if e == 1 {
        vstd::arithmetic::power::lemma_pow1(a);
        vstd::arithmetic::power::lemma_pow1(b);
    } else {
        let e1 = (e - 1) as nat;
        lemma_pow_base_lt(a, b, e1);
        lemma_pow_nonneg(a, e1);
        lemma_mul_inequality(a, b, pow(a, e1));
        assert(a * pow(a, e1) <= b * pow(a, e1));
        lemma_mul_left_inequality(b, pow(a, e1), pow(b, e1));
        assert(b * pow(a, e1) < b * pow(b, e1));
    }
}

/// Whether `r` is the integer part of the `k`-th root of `n`.
pub open spec fn is_floor_root(r: int, n: int, k: nat) -> bool {
    0 <= r && pow(r, k) <= n && n < pow(r + 1, k)
}

/// The integer part of the `k`-th root of `n`, pinned by its characterisation.
pub open spec fn floor_root(n: int, k: nat) -> int {
    choose|r: int| is_floor_root(r, n, k)
}

/// The floor characterisation admits a single root.
pub proof fn lemma_floor_root_unique(r1: int, r2: int, n: int, k: nat)
    requires
        k >= 1,
        is_floor_root(r1, n, k),
        is_floor_root(r2, n, k),
    ensures
        r1 == r2,
{
    if r1 < r2 {
        lemma_pow_base_le(r1 + 1, r2, k);
        assert(pow(r2, k) <= n);
    }
    if r2 < r1 {
        lemma_pow_base_le(r2 + 1, r1, k);
        assert(pow(r1, k) <= n);
    }
}

/// A witness for the characterisation fixes the value of `floor_root`.
pub proof fn lemma_floor_root_is(r: int, n: int, k: nat)
    requires
        k >= 1,
        is_floor_root(r, n, k),
    ensures
        floor_root(n, k) == r,
{
    assert(is_floor_root(floor_root(n, k), n, k)) by {
        assert(exists|x: int| is_floor_root(x, n, k)) by {
            assert(is_floor_root(r, n, k));
        }
    }
    lemma_floor_root_unique(floor_root(n, k), r, n, k);
}

/// Every non-negative integer has a floor root; this pins `floor_root`
/// down in specifications, without running the search.
pub proof fn lemma_floor_root_exists(n: nat, k: nat)
    requires
        1 <= k,
    ensures
        is_floor_root(floor_root(n as int, k), n as int, k),
    decreases n,
{
    if n == 0 {
        assert(is_floor_root(0, 0, k)) by {
            vstd::arithmetic::power::lemma0_pow(k);
            vstd::arithmetic::power::lemma1_pow(k);
        }
        lemma_floor_root_is(0, 0, k);
    } else {
        lemma_floor_root_exists((n - 1) as nat, k);
        let r = floor_root((n - 1) as int, k);
        if pow(r + 1, k) <= n {
            assert(is_floor_root(r + 1, n as int, k)) by {
                lemma_pow_base_lt(r + 1, r + 2, k);
            }
            lemma_floor_root_is(r + 1, n as int, k);
        } else {
            assert(is_floor_root(r, n as int, k));
            lemma_floor_root_is(r, n as int, k);
        }
    }
}

/// Roots grow with their argument.
pub proof fn lemma_floor_root_monotone(n1: int, n2: int, k: nat)
    requires
        k >= 1,
        n1 <= n2,
        is_floor_root(floor_root(n1, k), n1, k),
        is_floor_root(floor_root(n2, k), n2, k),
    ensures
        floor_root(n1, k) <= floor_root(n2, k),
{
    let r1 = floor_root(n1, k);
    let r2 = floor_root(n2, k);
    if r2 < r1 {
        lemma_pow_base_le(r2 + 1, r1, k);
        assert(pow(r1, k) <= n1);
        assert(n2 < pow(r2 + 1, k));
    }
}

/// Decides whether `b^k > n` without overflowing.
fn pow_gt(b: u128, k: u32, n: u128) -> (res: bool)
    requires
        1 <= b,
        1 <= k,
    ensures
        res == (pow(b as int, k as nat) > n),
{
    if n == 0 {
        proof {
            lemma_pow_positive(b as int, k as nat);
        }
        return true;
    }
    let mut acc: u128 = 1;
    let mut i: u32 = 0;
    proof {
        vstd::arithmetic::power::lemma_pow0(b as int);
    }
    while i < k
        invariant
            1 <= b,
            i <= k,
            1 <= n,
            acc == pow(b as int, i as nat),
            acc <= n,
        decreases k - i,
    {
        let ghost prev = acc as int;
        match acc.checked_mul(b) {
            Some(next) => {
                assert(pow(b as int, (i + 1) as nat) == b * prev) by {
                    reveal(pow);
                }
                if next > n {
                    proof {
                        lemma_pow_increases(b as nat, (i + 1) as nat, k as nat);
                    }
                    return true;
                }
                acc = next;
            },
            None => {
                assert(pow(b as int, (i + 1) as nat) == b * prev) by {
                    reveal(pow);
                }
                proof {
                    lemma_pow_increases(b as nat, (i + 1) as nat, k as nat);
                }
                return true;
            },
        }
        i = i + 1;
    }
    false
}

/// Integer part of the `k`-th root of `n`, by binary search.
pub fn iroot(n: u128, k: u32) -> (r: u128)
    requires
        1 <= k,
        n < u128::MAX,
    ensures
        is_floor_root(r as int, n as int, k as nat),
        r as int == floor_root(n as int, k as nat),
{
    let mut lo: u128 = 0;
    let mut hi: u128 = n + 1;
    proof {
        vstd::arithmetic::power::lemma0_pow(k as nat);
        lemma_pow_increases((n + 1) as nat, 1nat, k as nat);
        vstd::arithmetic::power::lemma_pow1((n + 1) as int);
    }
    while lo + 1 < hi
        invariant
            1 <= k,
            lo < hi,
            hi <= n + 1,
            pow(lo as int, k as nat) <= n,
            pow(hi as int, k as nat) > n,
        decreases hi - lo,
    {
        let mid: u128 = lo + (hi - lo) / 2;
        if pow_gt(mid, k, n) {
            hi = mid;
        } else {
            lo = mid;
        }
    }
    proof {
        lemma_floor_root_is(lo as int, n as int, k as nat);
    }
    lo
}

/// `a * b / d`, exact over 128 bits, clamped to `u64`.
pub fn mul_div_sat(a: u64, b: u64, d: u64) -> (r: u64)
    requires
        1 <= d,
    ensures
        r == cap64((a as int * b as int) / (d as int)),
{
    proof {
        lemma_mul_inequality(a as int, u64::MAX as int, b as int);
        lemma_mul_left_inequality(u64::MAX as int, b as int, u64::MAX as int);
    }
    let p: u128 = (a as u128) * (b as u128);
    let q: u128 = p / (d as u128);
    if q > u64::MAX as u128 {
        u64::MAX
    } else {
        q as u64
    }
}

/// Product of two milli-scaled factors, clamped to `u64`.
pub fn mul_milli_sat(a: u64, b: u64) -> (r: u64)
    ensures
        r == cap64((a as int * b as int) / 1000),
{
    mul_div_sat(a, b, MILLI)
}

/// Square root of a milli-scaled value, at milli scale.
pub open spec fn sqrt_milli_spec(v: int) -> int {
    floor_root(1000 * v, 2)
}

pub fn sqrt_milli(v: u64) -> (r: u64)
    ensures
        r == sqrt_milli_spec(v as int),
        is_floor_root(r as int, 1000 * v as int, 2),
{
    let n: u128 = (v as u128) * 1000;
    let r = iroot(n, 2);
    proof {
        vstd::arithmetic::power::lemma_square_is_pow2(r as int);
        if r > u64::MAX as u128 {
            lemma_mul_inequality(
                u64::MAX as int + 1,
                r as int,
                r as int,
            );
            lemma_mul_left_inequality(u64::MAX as int + 1, u64::MAX as int + 1, r as int);
            assert(false);
        }
    }
    r as u64
}

/// A root at or above one stays at or above one.
pub proof fn lemma_sqrt_milli_ge_unit(v: int)
    requires
        v >= 1000,
        is_floor_root(sqrt_milli_spec(v), 1000 * v, 2),
    ensures
        sqrt_milli_spec(v) >= 1000,
{
    let r = sqrt_milli_spec(v);
    if r < 1000 {
        lemma_pow_base_le(r + 1, 1000, 2);
        assert(pow(1000, 2) == 1000000) by {
            vstd::arithmetic::power::lemma_square_is_pow2(1000);
        }
        assert(1000 * v < 1000000);
    }
}

/// The 32nd root at milli scale: five successive square roots.
pub open spec fn fracroot32_spec(v: int) -> int {
    sqrt_milli_spec(sqrt_milli_spec(sqrt_milli_spec(sqrt_milli_spec(sqrt_milli_spec(v)))))
}

pub fn fracroot32_milli(v: u64) -> (r: u64)
    requires
        v >= 1000,
    ensures
        r == fracroot32_spec(v as int),
        r >= 1000,
{
    let s1 = sqrt_milli(v);
    proof {
        lemma_sqrt_milli_ge_unit(v as int);
    }
    let s2 = sqrt_milli(s1);
    proof {
        lemma_sqrt_milli_ge_unit(s1 as int);
    }
    let s3 = sqrt_milli(s2);
    proof {
        lemma_sqrt_milli_ge_unit(s2 as int);
    }
    let s4 = sqrt_milli(s3);
    proof {
        lemma_sqrt_milli_ge_unit(s3 as int);
    }
    let s5 = sqrt_milli(s4);
    proof {
        lemma_sqrt_milli_ge_unit(s4 as int);
    }
    s5
}

/// Integer power at milli scale with saturation.
pub open spec fn powi_milli(b: int, n: nat) -> int
    decreases n,
{
    if n == 0 {
        1000
    } else if n == 1 {
        b
    } else {
        cap64(powi_milli(b, (n - 1) as nat) * b / 1000)
    }
}

pub fn powi_milli_sat(b: u64, n: u64) -> (r: u64)
    ensures
        r == powi_milli(b as int, n as nat),
{
    if n == 0 {
        return MILLI;
    }
    let mut acc: u64 = b;
    let mut i: u64 = 1;
    while i < n
        invariant
            1 <= i <= n,
            acc == powi_milli(b as int, i as nat),
        decreases n - i,
    {
        acc = mul_milli_sat(acc, b);
        i = i + 1;
    }
    acc
}

/// Milli powers of a factor at or above one stay at or above one.
pub proof fn lemma_powi_milli_ge_unit(b: int, n: nat)
    requires
        1000 <= b <= u64::MAX as int,
    ensures
        powi_milli(b, n) >= 1000,
        powi_milli(b, n) <= u64::MAX as int,
    decreases n,
{
    if n >= 2 {
        lemma_powi_milli_ge_unit(b, (n - 1) as nat);
        let p = powi_milli(b, (n - 1) as nat);
        lemma_mul_inequality(1000, p, b);
        assert(1000 * b <= p * b);
        assert(1000 * b / 1000 == b) by {
            vstd::arithmetic::div_mod::lemma_div_multiples_vanish(b, 1000);
        }
        assert(p * b / 1000 >= 1000 * b / 1000) by {
            vstd::arithmetic::div_mod::lemma_div_is_ordered(1000 * b, p * b, 1000);
        }
    }
}

/// The fractional part of an exponent, in 32nds: `b` to the power
/// `round(32 * f / 1000) / 32`, all at milli scale.
pub open spec fn fracpow32_spec(b: int, f: int) -> int {
    if f <= 0 {
        1000
    } else {
        powi_milli(fracroot32_spec(b), ((f * 32 + 500) / 1000) as nat)
    }
}

pub fn fracpow32_milli(b: u64, f: u64) -> (r: u64)
    requires
        b >= 1000,
        f < 1000,
    ensures
        r == fracpow32_spec(b as int, f as int),
        r >= 1000,
{
    if f == 0 {
        return MILLI;
    }
    let g = fracroot32_milli(b);
    let e32: u64 = (f * 32 + 500) / 1000;
    let r = powi_milli_sat(g, e32);
    proof {
        lemma_powi_milli_ge_unit(g as int, e32 as nat);
    }
    r
}

/// `b` to a milli-scaled exponent: the integer part exactly, the
/// fraction rounded to the nearest 32nd.
pub open spec fn pow_milli_spec(b: int, e: int) -> int {
    cap64(powi_milli(b, (e / 1000) as nat) * fracpow32_spec(b, e % 1000) / 1000)
}

pub fn pow_milli(b: u64, e: u64) -> (r: u64)
    requires
        b >= 1000,
    ensures
        r == pow_milli_spec(b as int, e as int),
        r >= 1000,
{
    let n: u64 = e / 1000;
    let f: u64 = e % 1000;
    let ip = powi_milli_sat(b, n);
    let fp = fracpow32_milli(b, f);
    let r = mul_milli_sat(ip, fp);
    proof {
        lemma_powi_milli_ge_unit(b as int, n as nat);
        lemma_mul_inequality(1000, ip as int, fp as int);
        assert(1000 * fp as int / 1000 == fp as int) by {
            vstd::arithmetic::div_mod::lemma_div_multiples_vanish(fp as int, 1000);
        }
        assert(ip as int * fp as int / 1000 >= 1000 * fp as int / 1000) by {
            vstd::arithmetic::div_mod::lemma_div_is_ordered(
                1000 * fp as int,
                ip as int * fp as int,
                1000,
            );
        }
    }
    r
}

} // verus!
