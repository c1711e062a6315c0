//! Integer helpers: fixed-point scale, floor division, integer square root.
use vstd::prelude::*;
use vstd::arithmetic::div_mod::{
    lemma_fundamental_div_mod, lemma_fundamental_div_mod_converse, lemma_mod_bound,
    lemma_mod_pos_bound,
};

verus! {

/// Number of fixed-point steps in one unit: a raw value `v` stands for `v / SCALE`.
pub const SCALE: i64 = 0x10_0000;

/// `r` is the integer square root of `n`: the largest `r` with `r * r <= n`.
pub open spec fn is_isqrt(n: int, r: int) -> bool {
    0 <= r && r * r <= n && n < (r + 1) * (r + 1)
}

/// The integer square root of `n`, defined by counting up from zero.
pub open spec fn root(n: int) -> int
    decreases n,
{
    if n <= 0 {
        0
    } else {
        let r = root(n - 1);
        if (r + 1) * (r + 1) <= n {
            r + 1
        } else {
            r
        }
    }
}

/// `root` is an integer square root.
pub proof fn lemma_root(n: int)
    requires
        n >= 0,
    ensures
        is_isqrt(n, root(n)),
    decreases n,
{
    if n > 0 {
        lemma_root(n - 1);
        let r = root(n - 1);
        if (r + 1) * (r + 1) <= n {
            assert(n < (r + 2) * (r + 2)) by (nonlinear_arith)
                requires
                    n - 1 < (r + 1) * (r + 1),
                    r >= 0,
            ;
        }
    }
}

/// An integer square root is unique.
pub proof fn lemma_isqrt_unique(n: int, a: int, b: int)
    requires
        is_isqrt(n, a),
        is_isqrt(n, b),
    ensures
        a == b,
{
    if a < b {
        assert(a + 1 <= b);
        assert((a + 1) * (a + 1) <= b * b) by (nonlinear_arith)
            requires
                0 <= a + 1 <= b,
        ;
    } else if b < a {
        assert((b + 1) * (b + 1) <= a * a) by (nonlinear_arith)
            requires
                0 <= b + 1 <= a,
        ;
    }
}

/// A square root of at most `b * b` is at most `b`.
pub proof fn lemma_root_le(r: int, n: int, b: int)
    requires
        0 <= r,
        0 <= b,
        r * r <= n <= b * b,
    ensures
        r <= b,
{
    if r > b {
        assert(r * r > b * b) by (nonlinear_arith)
            requires
                r > b >= 0,
        ;
    }
}

/// Bounds on `s` carry over to its quotient by `SCALE`.
pub proof fn lemma_scale_div_range(s: int, lo: int, hi: int)
    requires
        lo * SCALE <= s < (hi + 1) * SCALE,
    ensures
        lo <= s / (SCALE as int) <= hi,
{
    lemma_fundamental_div_mod(s, SCALE as int);
    lemma_mod_bound(s, SCALE as int);
}

/// Bounds on factors bound their product.
pub proof fn lemma_mul_abs_le(a: int, b: int, ba: int, bb: int)
    requires
        -ba <= a <= ba,
        -bb <= b <= bb,
    ensures
        -(ba * bb) <= a * b <= ba * bb,
{
    assert(-(ba * bb) <= a * b <= ba * bb) by (nonlinear_arith)
        requires
            -ba <= a <= ba,
            -bb <= b <= bb,
    ;
}

/// Dividing by a positive integer does not increase the magnitude.
pub proof fn lemma_div_abs_le(n: int, d: int, bound: int)
    requires
        d >= 1,
        -bound <= n <= bound,
    ensures
        -bound <= n / d <= bound,
{
    lemma_fundamental_div_mod(n, d);
    lemma_mod_bound(n, d);
    let q = n / d;
    let r = n % d;
    assert(-bound <= q <= bound) by (nonlinear_arith)
        requires
            n == d * q + r,
            0 <= r < d,
            d >= 1,
            -bound <= n <= bound,
    ;
}

/// Division rounding toward negative infinity, for a positive divisor.
pub fn floor_div(n: i128, d: i128) -> (r: i128)
    requires
        d > 0,
    ensures
        r == n / d,
{
    if n >= 0 {
        n / d
    } else {
        let m: i128 = -(n + 1);
        let q: i128 = m / d;
        proof {
            let rem = (m as int) % (d as int);
            lemma_fundamental_div_mod(m as int, d as int);
            lemma_mod_pos_bound(m as int, d as int);
            assert(m == q * d + rem) by (nonlinear_arith)
                requires
                    m == d * q + rem,
            ;
            assert(n == (-q - 1) * d + (d - rem - 1)) by (nonlinear_arith)
                requires
                    m == q * d + rem,
                    m == -(n + 1),
            ;
            lemma_fundamental_div_mod_converse(n as int, d as int, -q - 1, d - rem - 1);
        }
        -q - 1
    }
}

/// Largest `r` with `r * r <= n`.
pub fn isqrt(n: u128) -> (r: u64)
    ensures
        is_isqrt(n as int, r as int),
        r == root(n as int),
{
    let mut lo: u128 = 0;
    let mut hi: u128 = 0x1_0000_0000_0000_0000;
    assert(n < hi * hi) by (nonlinear_arith)
        requires
            hi == 0x1_0000_0000_0000_0000u128,
            n <= u128::MAX,
    ;
    while hi - lo > 1
        invariant
            lo < hi <= 0x1_0000_0000_0000_0000u128,
            lo * lo <= n,
            n < hi * hi,
        decreases hi - lo,
    {
        let mid: u128 = lo + (hi - lo) / 2;
        assert(mid * mid <= 0xffff_ffff_ffff_ffffu128 * 0xffff_ffff_ffff_ffffu128) by (nonlinear_arith)
            requires
                mid < 0x1_0000_0000_0000_0000u128,
        ;
        if mid * mid <= n {
            lo = mid;
        } else {
            hi = mid;
        }
    }
    assert(hi == lo + 1);
    proof {
        lemma_root(n as int);
        lemma_isqrt_unique(n as int, lo as int, root(n as int));
    }
    lo as u64
}

} // verus!
