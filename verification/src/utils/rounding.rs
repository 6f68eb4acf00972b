//! Integer models of binary64 rounding: the value an unsigned integer takes
//! once converted to `f64`, and division rounded to the nearest integer with
//! ties to even. The viewer prints sizes with these, so that its text is the
//! one the floating-point formulas give.
use vstd::arithmetic::div_mod::{lemma_div_denominator, lemma_div_is_ordered_by_denominator};
use vstd::arithmetic::power2::{lemma2_to64, lemma_pow2_unfold, pow2};
use vstd::prelude::*;

verus! {

/// `n / d` rounded to the nearest integer, ties to the even one.
pub open spec fn round_half_even(n: nat, d: nat) -> nat
    recommends
        d > 0,
{
    let q = n / d;
    let r = n % d;
    if 2 * r > d || (2 * r == d && q % 2 == 1) {
        q + 1
    } else {
        q
    }
}

/// `n / d` rounded to the nearest integer, ties to the even one.
pub fn div_round_half_even(n: u128, d: u128) -> (q: u128)
    requires
        d > 0,
    ensures
        q == round_half_even(n as nat, d as nat),
{
    let q = n / d;
    let r = n % d;
    if r > d - r || (r == d - r && q % 2 == 1) {
        proof {
            lemma_div_is_ordered_by_denominator(n as int, 2, d as int);
        }
        q + 1
    } else {
        q
    }
}

/// How many low bits of `n` a binary64 cannot hold: the number of halvings
/// after which `n` falls below 2^53.
pub open spec fn excess_bits(n: nat) -> nat
    decreases n,
{
    if n < 0x20000000000000 {
        0
    } else {
        1 + excess_bits(n / 2)
    }
}

/// The binary64 nearest to `n`, ties to even: the value of `n as f64`.
pub open spec fn nearest_binary64(n: nat) -> nat {
    let p = pow2(excess_bits(n));
    round_half_even(n, p) * p
}

/// The value of `n as f64`, as an integer (also the rounding step of a
/// binary64 product whose exact value is the integer `n` over a power of two).
pub fn binary64_value(n: u128) -> (r: u128)
    requires
        n < 0x10000000000000000000000000,
    ensures
        r == nearest_binary64(n as nat),
        r <= 0x20000000000000 * 0x1000000000000,
        n < 0x10000000000000000 ==> r <= 0x20000000000000000,
{
    let mut q: u128 = n;
    let mut p: u128 = 1;
    let ghost mut e: nat = 0;
    proof {
        lemma2_to64();
    }
    while q >= 0x20000000000000
        invariant
            p == pow2(e),
            0 < p < 0x1000000000000,
            n < 0x10000000000000000 ==> p < 0x1000,
            n < 0x10000000000000000000000000,
            q == n as nat / p as nat,
            excess_bits(n as nat) == e + excess_bits(q as nat),
        decreases q,
    {
        proof {
            if p >= 0x800000000000 {
                lemma_div_is_ordered_by_denominator(n as int, 0x800000000000, p as int);
                assert(n as nat / 0x800000000000 < 0x20000000000000);
            }
            if n < 0x10000000000000000 && p >= 0x800 {
                lemma_div_is_ordered_by_denominator(n as int, 0x800, p as int);
                assert(n as nat / 0x800 < 0x20000000000000);
            }
            lemma_div_denominator(n as int, p as int, 2);
            lemma_pow2_unfold(e + 1);
        }
        q = q / 2;
        p = p * 2;
        proof {
            e = e + 1;
        }
    }
    let m = div_round_half_even(n, p);
    proof {
        assert(m <= 0x20000000000000);
        assert(m * p <= 0x20000000000000 * 0x1000000000000) by (nonlinear_arith)
            requires
                m <= 0x20000000000000,
                p < 0x1000000000000,
        ;
        if n < 0x10000000000000000 {
            assert(m * p <= 0x20000000000000000) by (nonlinear_arith)
                requires
                    m <= 0x20000000000000,
                    p < 0x1000,
            ;
        }
    }
    m * p
}

/// The least `e` with `a * 2^e >= 2^52 * b` (for `a > 0`): the shift after
/// which the integer quotient of `a * 2^e` by `b` has 53 significant bits.
pub open spec fn quotient_shift(a: nat, b: nat) -> nat
    decreases (if a < 0x10000000000000 * b {
        0x10000000000000 * b - a
    } else {
        0
    }),
{
    if a == 0 || a >= 0x10000000000000 * b {
        0
    } else {
        1 + quotient_shift(2 * a, b)
    }
}

/// The significand of the binary64 nearest to `a / b`, for `0 < a` and
/// `a / b < 2^53`: that binary64 is
/// `quotient_significand(a, b) / 2^quotient_shift(a, b)`.
pub open spec fn quotient_significand(a: nat, b: nat) -> nat {
    round_half_even(a * pow2(quotient_shift(a, b)), b)
}

/// The binary64 nearest to `a / b` (what `a as f64 / b as f64` gives for
/// `a` and `b` exact in binary64, when the quotient is below 2^53), as its
/// significand and the power of two that divides it.
pub fn binary64_quotient(a: u128, b: u128) -> (r: (u128, u128))
    requires
        0 < a,
        a < 0x20000000000000 * b,
        b < 0x100000000000000000,
    ensures
        r.0 == quotient_significand(a as nat, b as nat),
        r.1 == pow2(quotient_shift(a as nat, b as nat)),
        r.0 <= 0x20000000000000,
        0 < r.1 <= 0x20000000000000 * 0x100000000000000000,
{
    let mut t: u128 = a;
    let mut p: u128 = 1;
    let ghost mut e: nat = 0;
    proof {
        lemma2_to64();
    }
    while t < 0x10000000000000 * b
        invariant
            0 < a < 0x20000000000000 * b,
            b < 0x100000000000000000,
            p == pow2(e),
            t == a * p,
            0 < t < 0x20000000000000 * b,
            0 < p <= t,
            quotient_shift(a as nat, b as nat) == e + quotient_shift(t as nat, b as nat),
        decreases 0x20000000000000 * b - t,
    {
        proof {
            lemma_pow2_unfold(e + 1);
        }
        t = t * 2;
        p = p * 2;
        proof {
            e = e + 1;
            assert(t == a * p) by (nonlinear_arith)
                requires
                    t == 2 * (a * (p / 2)),
                    p % 2 == 0,
            ;
        }
    }
    let m = div_round_half_even(t, b);
    proof {
        assert(t / b < 0x20000000000000) by (nonlinear_arith)
            requires
                t < 0x20000000000000 * b,
                b > 0,
        ;
    }
    (m, p)
}


/// The least `f` with `a < 2^53 * b * 2^f` (for `b > 0`): how many bits a
/// quotient `a / b` of 2^53 or more has beyond the 53 a binary64 keeps.
pub open spec fn quotient_excess(a: nat, b: nat) -> nat
    decreases (if b > 0 && a >= 0x20000000000000 * b {
        a + 1 - 0x20000000000000 * b
    } else {
        0
    }),
{
    if b == 0 || a < 0x20000000000000 * b {
        0
    } else {
        1 + quotient_excess(a, 2 * b)
    }
}

/// The binary64 nearest to `a / b`, for `a`, `b > 0` exact in binary64
/// (`a as f64 / b as f64`), as a fraction `(n, d)` whose denominator is a
/// power of two.
pub open spec fn binary64_ratio(a: nat, b: nat) -> (nat, nat) {
    if a >= 0x20000000000000 * b {
        let p = pow2(quotient_excess(a, b));
        (round_half_even(a, b * p) * p, 1)
    } else {
        (quotient_significand(a, b), pow2(quotient_shift(a, b)))
    }
}

/// The binary64 nearest to `a / b` as a fraction whose denominator is a
/// power of two.
pub fn binary64_ratio_of(a: u128, b: u128) -> (r: (u128, u128))
    requires
        0 < a <= 0x20000000000000000,
        0 < b <= 0x20000000000000000,
    ensures
        (r.0 as nat, r.1 as nat) == binary64_ratio(a as nat, b as nat),
        r.0 <= 0x20000000000000 * 0x2000,
        0 < r.1 <= 0x20000000000000 * 0x100000000000000000,
{
    if a < 0x20000000000000 * b {
        return binary64_quotient(a, b);
    }
    let mut bp: u128 = b;
    let mut p: u128 = 1;
    let ghost mut f: nat = 0;
    proof {
        lemma2_to64();
    }
    while a >= 0x20000000000000 * bp
        invariant
            0 < a <= 0x20000000000000000,
            0 < b,
            p == pow2(f),
            bp == b * p,
            0 < p <= bp,
            bp <= 0x2000,
            quotient_excess(a as nat, b as nat) == f + quotient_excess(a as nat, bp as nat),
        decreases 0x2000 - bp,
    {
        proof {
            lemma_pow2_unfold(f + 1);
        }
        bp = bp * 2;
        p = p * 2;
        proof {
            f = f + 1;
            assert(bp == b * p) by (nonlinear_arith)
                requires
                    bp == 2 * (b * (p / 2)),
                    p % 2 == 0,
            ;
        }
    }
    let s = div_round_half_even(a, bp);
    proof {
        assert(a / bp < 0x20000000000000) by (nonlinear_arith)
            requires
                a < 0x20000000000000 * bp,
                bp > 0,
        ;
        assert(s * p <= 0x20000000000000 * 0x2000) by (nonlinear_arith)
            requires
                s <= 0x20000000000000,
                p <= 0x2000,
        ;
    }
    (s * p, 1)
}


/// A positive integer stays positive in binary64.
pub proof fn lemma_nearest_binary64_positive(n: nat)
    requires
        n > 0,
    ensures
        nearest_binary64(n) > 0,
{
    let p = pow2(excess_bits(n));
    vstd::arithmetic::power2::lemma_pow2_pos(excess_bits(n));
    lemma_excess_bits_floor(n);
    assert(round_half_even(n, p) >= 1);
    assert(round_half_even(n, p) * p > 0) by (nonlinear_arith)
        requires
            round_half_even(n, p) >= 1,
            p > 0,
    ;
}

/// `n` has at least one significant bit left after dropping its excess
/// bits.
proof fn lemma_excess_bits_floor(n: nat)
    requires
        n > 0,
    ensures
        n / pow2(excess_bits(n)) >= 1,
    decreases n,
{
    if n >= 0x20000000000000 {
        let e = excess_bits(n / 2);
        lemma_excess_bits_floor(n / 2);
        vstd::arithmetic::power2::lemma_pow2_pos(e);
        assert(excess_bits(n) == e + 1);
        lemma_pow2_unfold(e + 1);
        lemma_div_denominator(n as int, 2, pow2(e) as int);
        assert(n / pow2(e + 1) == (n / 2) / pow2(e));
    } else {
        lemma2_to64();
        assert(excess_bits(n) == 0);
        assert(n / pow2(0) == n);
    }
}


/// Rounding to nearest is at most half a unit above the exact quotient:
/// `round_half_even(n, d) <= n / d + 1/2`.
pub proof fn lemma_round_half_even_upper(n: nat, d: nat)
    requires
        d > 0,
    ensures
        2 * d * round_half_even(n, d) <= 2 * n + d,
{
    let q = n / d;
    let r = n % d;
    vstd::arithmetic::div_mod::lemma_fundamental_div_mod(n as int, d as int);
    assert(2 * d * q + 2 * r == 2 * n) by (nonlinear_arith)
        requires
            n == d * q + r,
    ;
    if 2 * r > d || (2 * r == d && q % 2 == 1) {
        assert(2 * d * (q + 1) <= 2 * n + d) by (nonlinear_arith)
            requires
                2 * d * q + 2 * r == 2 * n,
                2 * r >= d,
        ;
    } else {
        assert(2 * d * q <= 2 * n + d) by (nonlinear_arith)
            requires
                2 * d * q + 2 * r == 2 * n,
                r >= 0,
        ;
    }
}

/// The shift of a quotient gives it at least 53 significant bits:
/// `a * 2^quotient_shift(a, b) >= 2^52 * b`.
pub proof fn lemma_quotient_shift_lower(a: nat, b: nat)
    requires
        a > 0,
    ensures
        a * pow2(quotient_shift(a, b)) >= 0x10000000000000 * b,
    decreases (if a < 0x10000000000000 * b {
        0x10000000000000 * b - a
    } else {
        0
    }),
{
    if a >= 0x10000000000000 * b {
        lemma2_to64();
    } else {
        let e = quotient_shift(2 * a, b);
        lemma_quotient_shift_lower(2 * a, b);
        lemma_pow2_unfold(e + 1);
        assert(a * pow2(e + 1) == 2 * a * pow2(e)) by (nonlinear_arith)
            requires
                pow2(e + 1) == 2 * pow2(e),
        ;
    }
}

/// The unit of the last kept bit of `n` is at most `n / 2^52`.
proof fn lemma_excess_unit(n: nat)
    requires
        n >= 0x20000000000000,
    ensures
        0x10000000000000 * pow2(excess_bits(n)) <= n,
    decreases n,
{
    let e = excess_bits(n / 2);
    lemma_pow2_unfold(e + 1);
    if n / 2 < 0x20000000000000 {
        lemma2_to64();
    } else {
        lemma_excess_unit(n / 2);
    }
}

/// Rounding a positive integer to binary64 raises it by less than one part
/// in 2^53: `2^53 * nearest_binary64(n) <= (2^53 + 1) * n`.
pub proof fn lemma_nearest_binary64_upper(n: nat)
    ensures
        0x20000000000000 * nearest_binary64(n) <= 0x20000000000001 * n,
{
    let k = excess_bits(n);
    let u = pow2(k);
    vstd::arithmetic::power2::lemma_pow2_pos(k);
    lemma_round_half_even_upper(n, u);
    let m = round_half_even(n, u);
    assert(2 * (m * u) <= 2 * n + u) by (nonlinear_arith)
        requires
            2 * u * m <= 2 * n + u,
    ;
    if n >= 0x20000000000000 {
        lemma_excess_unit(n);
    } else {
        lemma2_to64();
        assert(u == 1);
        assert(m == n);
    }
}

/// Rounding to nearest is at most half a unit below the exact quotient:
/// `round_half_even(n, d) >= n / d - 1/2`.
pub proof fn lemma_round_half_even_lower(n: nat, d: nat)
    requires
        d > 0,
    ensures
        2 * d * round_half_even(n, d) + d >= 2 * n,
{
    let q = n / d;
    let r = n % d;
    vstd::arithmetic::div_mod::lemma_fundamental_div_mod(n as int, d as int);
    vstd::arithmetic::div_mod::lemma_mod_pos_bound(n as int, d as int);
    assert(2 * d * q + 2 * r == 2 * n) by (nonlinear_arith)
        requires
            n == d * q + r,
    ;
    if 2 * r > d || (2 * r == d && q % 2 == 1) {
        assert(2 * d * (q + 1) + d >= 2 * n) by (nonlinear_arith)
            requires
                2 * d * q + 2 * r == 2 * n,
                r < d,
        ;
    } else {
        assert(2 * d * q + d >= 2 * n) by (nonlinear_arith)
            requires
                2 * d * q + 2 * r == 2 * n,
                2 * r <= d,
        ;
    }
}

/// Rounding an integer to binary64 lowers it by at most one part in 2^53:
/// `2^53 * nearest_binary64(n) >= (2^53 - 1) * n`.
pub proof fn lemma_nearest_binary64_lower(n: nat)
    ensures
        0x20000000000000 * nearest_binary64(n) + n >= 0x20000000000000 * n,
{
    let k = excess_bits(n);
    let u = pow2(k);
    vstd::arithmetic::power2::lemma_pow2_pos(k);
    lemma_round_half_even_lower(n, u);
    let m = round_half_even(n, u);
    let nb = m * u;
    assert(2 * nb + u >= 2 * n) by (nonlinear_arith)
        requires
            2 * u * m + u >= 2 * n,
            nb == m * u,
    ;
    if n >= 0x20000000000000 {
        lemma_excess_unit(n);
    } else {
        lemma2_to64();
        assert(u == 1);
    }
}

} // verus!
