//! Exact integer arithmetic for numbers that the panels print with one
//! decimal: rounding half to even, and the value a whole number or a quotient
//! takes once it is held in a 64-bit binary float (53-bit significand,
//! rounding to nearest, ties to even).

use vstd::prelude::*;

use crate::text::{dec_nat, digit, digit_char};

verus! {

/// Two to the power `k`.
pub open spec fn pow2(k: nat) -> nat
    decreases k,
{
    if k == 0 {
        1
    } else {
        2 * pow2((k - 1) as nat)
    }
}

/// `num / den` rounded to the nearest whole number, ties to the even one.
pub open spec fn round_half_even(num: nat, den: nat) -> nat {
    let q = num / den;
    let r = num % den;
    if 2 * r > den || (2 * r == den && q % 2 == 1) {
        q + 1
    } else {
        q
    }
}

/// How many low bits of a whole number `n` a 53-bit significand cannot
/// hold.
pub open spec fn dropped_bits(n: nat) -> nat
    decreases n,
{
    if n < 0x20_0000_0000_0000 {
        0
    } else {
        1 + dropped_bits(n / 2)
    }
}

/// The value of the binary float nearest to the whole number `n`.
pub open spec fn float_of_whole(n: nat) -> nat {
    round_half_even(n, pow2(dropped_bits(n))) * pow2(dropped_bits(n))
}

/// The exponent of `a / b`: the largest `e` with `b * 2^e <= a` (0 when
/// `a < 2b`).
pub open spec fn quotient_exp(a: nat, b: nat) -> nat
    decreases a,
{
    if b == 0 || a < 2 * b {
        0
    } else {
        1 + quotient_exp(a / 2, b)
    }
}

/// Ten times the binary float nearest to `a / b` (for `b <= a` and a
/// quotient below 2^53), rounded to a whole number, ties to even: the digits
/// that printing the quotient with one decimal shows.
pub open spec fn float_quotient_tenths(a: nat, b: nat) -> nat {
    let s = (52 - quotient_exp(a, b)) as nat;
    round_half_even(10 * round_half_even(a * pow2(s), b), pow2(s))
}

/// `w` followed by one decimal: the text of `t / 10`.
pub open spec fn one_decimal(t: nat) -> Seq<char> {
    dec_nat(t / 10) + seq!['.'] + dec_nat(t % 10)
}

/// Rounds `num / den` to the nearest whole number, ties to even.
pub fn round_half_even_u128(num: u128, den: u128) -> (r: u128)
    requires
        0 < den < 0x1_0000_0000_0000_0000_0000_0000,
    ensures
        r == round_half_even(num as nat, den as nat),
        num / den <= r <= num / den + 1,
{
    let q = num / den;
    let r = num % den;
    assert(q <= num) by (nonlinear_arith)
        requires
            q == num / den,
            den > 0,
    ;
    if q == u128::MAX {
        assert(den == 1) by (nonlinear_arith)
            requires
                q == num / den,
                q == u128::MAX,
                den > 0,
                num <= u128::MAX,
        ;
        return q;
    }
    if 2 * r > den || (2 * r == den && q % 2 == 1) {
        q + 1
    } else {
        q
    }
}

/// Two to the power `k`, for `k <= 64`.
pub fn pow2_u128(k: u32) -> (p: u128)
    requires
        k <= 64,
    ensures
        p == pow2(k as nat),
        1 <= p <= 0x1_0000_0000_0000_0000,
{
    proof {
        lemma_pow2_64();
    }
    let mut p: u128 = 1;
    let mut i: u32 = 0;
    while i < k
        invariant
            i <= k <= 64,
            p == pow2(i as nat),
            pow2(64) == 0x1_0000_0000_0000_0000int,
        decreases k - i,
    {
        proof {
            lemma_pow2_monotone((i + 1) as nat, 64);
        }
        p = p * 2;
        i = i + 1;
    }
    proof {
        lemma_pow2_monotone(k as nat, 64);
        lemma_pow2_positive(k as nat);
    }
    p
}

/// Powers of two are positive.
pub proof fn lemma_pow2_positive(k: nat)
    ensures
        pow2(k) >= 1,
    decreases k,
{
    if k > 0 {
        lemma_pow2_positive((k - 1) as nat);
    }
}

/// Powers of two grow with the exponent.
pub proof fn lemma_pow2_monotone(i: nat, j: nat)
    requires
        i <= j,
    ensures
        pow2(i) <= pow2(j),
    decreases j,
{
    if i < j {
        lemma_pow2_monotone(i, (j - 1) as nat);
        lemma_pow2_positive((j - 1) as nat);
    }
}

proof fn lemma_pow2_64()
    ensures
        pow2(64) == 0x1_0000_0000_0000_0000int,
{
    reveal_with_fuel(pow2, 65);
}

/// The value of the binary float nearest to `n`.
pub fn float_of_whole_u64(n: u64) -> (v: u128)
    ensures
        v == float_of_whole(n as nat),
        v <= n as u128 + 0x1000,
        v + 0x1000 >= n,
        n < 0x20_0000_0000_0000 ==> v == n,
{
    let mut m: u64 = n;
    let mut p: u128 = 1;
    let ghost mut s: nat = 0;
    while m >= 0x20_0000_0000_0000
        invariant
            dropped_bits(n as nat) == s + dropped_bits(m as nat),
            p == pow2(s),
            m as int == n as int / p as int,
            m <= n,
            n < 0x20_0000_0000_0000 ==> p == 1,
            1 <= p <= 0x1000,
        decreases m,
    {
        assert(p <= 0x800) by (nonlinear_arith)
            requires
                m as int == n as int / p as int,
                m >= 0x20_0000_0000_0000,
                n <= 0xffff_ffff_ffff_ffff,
                p >= 1,
        ;
        assert(m as int / 2 == n as int / (p as int * 2)) by (nonlinear_arith)
            requires
                m as int == n as int / p as int,
                p >= 1,
        ;
        m = m / 2;
        p = p * 2;
        proof {
            s = s + 1;
        }
    }
    let q = round_half_even_u128(n as u128, p);
    assert(q * p <= n as int + p) by (nonlinear_arith)
        requires
            q <= n as int / p as int + 1,
            p >= 1,
    ;
    assert(q * p + p > n) by (nonlinear_arith)
        requires
            q >= n as int / p as int,
            p >= 1,
    ;
    if n < 0x20_0000_0000_0000 {
        assert(p == 1);
        assert(q == n);
        assert(q * p == n) by (nonlinear_arith)
            requires
                p == 1,
                q == n,
        ;
    }
    q * p
}

/// Ten times the binary float nearest to `a / b`, rounded half to even.
pub fn float_quotient_tenths_u128(a: u128, b: u128) -> (t: u128)
    requires
        1 <= b <= 1_000_000,
        b <= a <= 0x1_0000_0000_0000_1000,
        quotient_exp(a as nat, b as nat) <= 52,
    ensures
        t == float_quotient_tenths(a as nat, b as nat),
{
    let mut m: u128 = a;
    let mut e: u32 = 0;
    while m >= 2 * b
        invariant
            quotient_exp(a as nat, b as nat) == e + quotient_exp(m as nat, b as nat),
            quotient_exp(a as nat, b as nat) <= 52,
            m <= a,
            1 <= b <= 1_000_000,
        decreases m,
    {
        m = m / 2;
        e = e + 1;
    }
    let s: u32 = 52 - e;
    let p = pow2_u128(s);
    proof {
        lemma_pow2_monotone(s as nat, 52);
        reveal_with_fuel(pow2, 53);
        assert(pow2(52) == 0x10_0000_0000_0000int);
    }
    assert(a * p <= 0x1_0000_0000_0000_1000int * 0x10_0000_0000_0000int) by (nonlinear_arith)
        requires
            a <= 0x1_0000_0000_0000_1000,
            p <= 0x10_0000_0000_0000,
    ;
    let sig = round_half_even_u128(a * p, b);
    assert(sig <= a * p + 1) by (nonlinear_arith)
        requires
            sig <= (a * p) as int / b as int + 1,
            b >= 1,
    ;
    proof {
        lemma_pow2_positive(s as nat);
    }
    round_half_even_u128(10 * sig, p)
}

/// Two to the tenth is 1024.
pub proof fn lemma_pow2_10()
    ensures
        pow2(10) == 1024,
{
    reveal_with_fuel(pow2, 11);
}

/// Two to the forty-fifth.
pub proof fn lemma_pow2_45()
    ensures
        pow2(45) == 0x2000_0000_0000int,
{
    reveal_with_fuel(pow2, 46);
}

/// Bounds the exponent of a quotient: below `b * 2^(k+1)` it is at most `k`.
pub proof fn lemma_quotient_exp_bound(a: nat, b: nat, k: nat)
    requires
        b >= 1,
        a < b * pow2(k + 1),
    ensures
        quotient_exp(a, b) <= k,
    decreases a,
{
    if a >= 2 * b {
        if k == 0 {
            assert(pow2(1) == 2) by {
                reveal_with_fuel(pow2, 2);
            }
            assert(false);
        }
        let k1 = (k - 1) as nat;
        assert(pow2(k + 1) == 2 * pow2(k1 + 1));
        assert(a / 2 < b * pow2(k1 + 1)) by (nonlinear_arith)
            requires
                a < b * (2 * pow2(k1 + 1)),
        ;
        lemma_quotient_exp_bound(a / 2, b, k1);
    }
}

/// Appends the decimal digits of a wide number.
pub fn push_decimal_u128(out: &mut Vec<char>, n: u128)
    ensures
        final(out)@ == old(out)@ + dec_nat(n as nat),
    decreases n,
{
    if n < 10 {
        out.push(digit(n as u64));
        assert(dec_nat(n as nat) =~= seq![digit_char(n as int)]);
    } else {
        push_decimal_u128(out, n / 10);
        out.push(digit((n % 10) as u64));
    }
}

/// Appends `t / 10` with one decimal.
pub fn push_one_decimal(out: &mut Vec<char>, t: u128)
    ensures
        final(out)@ == old(out)@ + one_decimal(t as nat),
{
    push_decimal_u128(out, t / 10);
    out.push('.');
    push_decimal_u128(out, t % 10);
    assert(final(out)@ =~= old(out)@ + one_decimal(t as nat));
}

/// Rounding half to even gives a nearest whole number: it is within half a
/// unit of the quotient.
pub proof fn lemma_round_half_even_nearest(num: nat, den: nat)
    requires
        den > 0,
    ensures
        2 * (round_half_even(num, den) * den - num) <= den,
        2 * (num - round_half_even(num, den) * den) <= den,
{
    let q = num / den;
    let r = num % den;
    assert(num == q * den + r) by (nonlinear_arith)
        requires
            q == num / den,
            r == num % den,
            den > 0,
    ;
    assert((q + 1) * den == q * den + den) by (nonlinear_arith);
}

} // verus!
