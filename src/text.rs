//! Exact decimal text of fixed-point values.
use vstd::prelude::*;
use vstd::string::StringExecFns;
use crate::arith::SCALE;

verus! {

/// The character of decimal digit `d`.
pub open spec fn digit_char(d: int) -> char {
    if d == 0 { '0' }
    else if d == 1 { '1' }
    else if d == 2 { '2' }
    else if d == 3 { '3' }
    else if d == 4 { '4' }
    else if d == 5 { '5' }
    else if d == 6 { '6' }
    else if d == 7 { '7' }
    else if d == 8 { '8' }
    else { '9' }
}

/// Decimal digits of `n`, most significant first, without leading zeros.
pub open spec fn decimal(n: nat) -> Seq<char>
    decreases n,
{
    if n < 10 {
        seq![digit_char(n as int)]
    } else {
        decimal(n / 10) + seq![digit_char((n % 10) as int)]
    }
}

/// `10^k`.
pub open spec fn pow10(k: nat) -> nat
    decreases k,
{
    if k == 0 {
        1
    } else {
        10 * pow10((k - 1) as nat)
    }
}

/// Numerator of the smallest `k`-digit decimal fraction `m / 10^k` that is
/// at least `f / SCALE`.
pub open spec fn frac_value(f: nat, k: nat) -> nat {
    (f * pow10(k) + (SCALE - 1) as nat) / (SCALE as nat)
}

/// `frac_value(f, k) / 10^k` reads back as `f`: scaled by `SCALE` and
/// rounded toward zero it gives `f` again.
pub open spec fn reads_back(f: nat, k: nat) -> bool {
    frac_value(f, k) * SCALE < (f + 1) * pow10(k)
}

/// The fewest fractional digits, from `k` on, that read back as `f`; twenty
/// always do, as `SCALE` is `2^20`.
pub open spec fn shortest(f: nat, k: nat) -> nat
    decreases 20 - k,
{
    if k >= 20 || reads_back(f, k) {
        k
    } else {
        shortest(f, k + 1)
    }
}

/// The last `k` decimal digits of `m`, with leading zeros.
pub open spec fn padded(m: nat, k: nat) -> Seq<char>
    decreases k,
{
    if k == 0 {
        Seq::empty()
    } else {
        padded(m / 10, (k - 1) as nat) + seq![digit_char((m % 10) as int)]
    }
}

/// Text of the fixed-point value `raw / SCALE`: the shortest decimal that
/// reads back as `raw` (scaled by `SCALE`, rounded toward zero); among
/// decimals of that length, the one nearest zero. It has a minus sign when
/// negative, and a point and fractional digits only when `raw` is not a
/// whole number of units.
pub open spec fn fixed_text(raw: int) -> Seq<char> {
    let m: nat = if raw < 0 { (-raw) as nat } else { raw as nat };
    let sign = if raw < 0 { seq!['-'] } else { Seq::empty() };
    let whole = decimal(m / (SCALE as nat));
    let f: nat = m % (SCALE as nat);
    let k = shortest(f, 0);
    if k == 0 {
        sign + whole
    } else {
        sign + whole + seq!['.'] + padded(frac_value(f, k), k)
    }
}

proof fn lemma_pow10_le(k: nat, n: nat)
    requires
        k <= n,
    ensures
        1 <= pow10(k) <= pow10(n),
    decreases n,
{
    if k < n {
        lemma_pow10_le(k, (n - 1) as nat);
    } else if k > 0 {
        lemma_pow10_le((k - 1) as nat, (k - 1) as nat);
    }
}

fn digit_str(d: u64) -> (r: &'static str)
    requires
        d < 10,
    ensures
        r@ == seq![digit_char(d as int)],
{
    proof {
        reveal_strlit("0");
        reveal_strlit("1");
        reveal_strlit("2");
        reveal_strlit("3");
        reveal_strlit("4");
        reveal_strlit("5");
        reveal_strlit("6");
        reveal_strlit("7");
        reveal_strlit("8");
        reveal_strlit("9");
    }
    if d == 0 { "0" }
    else if d == 1 { "1" }
    else if d == 2 { "2" }
    else if d == 3 { "3" }
    else if d == 4 { "4" }
    else if d == 5 { "5" }
    else if d == 6 { "6" }
    else if d == 7 { "7" }
    else if d == 8 { "8" }
    else { "9" }
}

fn push_decimal(out: &mut String, n: u64)
    ensures
        final(out)@ == old(out)@ + decimal(n as nat),
    decreases n,
{
    if n >= 10 {
        push_decimal(out, n / 10);
    }
    out.append(digit_str(n % 10));
    assert(out@ =~= old(out)@ + decimal(n as nat));
}

fn push_padded(out: &mut String, m: u128, k: u64)
    ensures
        final(out)@ == old(out)@ + padded(m as nat, k as nat),
    decreases k,
{
    if k > 0 {
        push_padded(out, m / 10, k - 1);
        out.append(digit_str((m % 10) as u64));
    }
    assert(out@ =~= old(out)@ + padded(m as nat, k as nat));
}

/// `k = shortest(f, 0)` and `frac_value(f, k)`.
fn shortest_exec(f: u64) -> (r: (u64, u128))
    requires
        f < SCALE,
    ensures
        r.0 == shortest(f as nat, 0),
        r.1 == frac_value(f as nat, r.0 as nat),
{
    let s: u128 = SCALE as u128;
    let mut k: u64 = 0;
    let mut p: u128 = 1;
    proof {
        reveal_with_fuel(pow10, 21);
        assert(pow10(20) == 100_000_000_000_000_000_000);
    }
    loop
        invariant
            k <= 20,
            f < SCALE,
            p == pow10(k as nat),
            s == SCALE,
            shortest(f as nat, 0) == shortest(f as nat, k as nat),
            pow10(20) == 100_000_000_000_000_000_000,
        decreases 20 - k,
    {
        proof {
            lemma_pow10_le(k as nat, 20);
        }
        assert(f * p <= 0x10_0000 * 100_000_000_000_000_000_000) by (nonlinear_arith)
            requires
                f < 0x10_0000,
                p <= 100_000_000_000_000_000_000,
        ;
        let m: u128 = (f as u128 * p + (s - 1)) / s;
        assert(m <= f * p) by (nonlinear_arith)
            requires
                m == (f * p + (s - 1)) / (s as int),
                s == 0x10_0000,
                f * p >= 0,
        ;
        assert(m * s <= 0x10_0000 * 0x10_0000 * 100_000_000_000_000_000_000) by (nonlinear_arith)
            requires
                m <= f * p,
                f < 0x10_0000,
                p <= 100_000_000_000_000_000_000,
                s == 0x10_0000,
        ;
        assert((f + 1) * p <= 0x10_0000 * 100_000_000_000_000_000_000) by (nonlinear_arith)
            requires
                f < 0x10_0000,
                p <= 100_000_000_000_000_000_000,
        ;
        if k >= 20 || m * s < (f as u128 + 1) * p {
            return (k, m);
        }
        proof {
            lemma_pow10_le((k + 1) as nat, 20);
        }
        k = k + 1;
        p = p * 10;
    }
}

/// Appends `fixed_text(raw)`.
pub fn push_fixed(out: &mut String, raw: i64)
    ensures
        final(out)@ == old(out)@ + fixed_text(raw as int),
{
    let m: u64 = if raw < 0 { (-(raw as i128)) as u64 } else { raw as u64 };
    if raw < 0 {
        proof { reveal_strlit("-"); }
        out.append("-");
    }
    push_decimal(out, m / (SCALE as u64));
    let f: u64 = m % (SCALE as u64);
    let (k, frac) = shortest_exec(f);
    if k > 0 {
        proof { reveal_strlit("."); }
        out.append(".");
        push_padded(out, frac, k);
    }
    assert(out@ =~= old(out)@ + fixed_text(raw as int));
}

} // verus!
