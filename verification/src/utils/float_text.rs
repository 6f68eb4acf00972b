//! What `{}` prints for a binary64 that holds an integer: the shortest
//! digits that read back as the same binary64 (the nearest of them, a tie
//! going up), padded with zeros to the units.
use crate::utils::rounding::excess_bits;
use vstd::arithmetic::power2::{lemma2_to64, lemma_pow2_unfold, pow2};
use vstd::arithmetic::div_mod::lemma_div_denominator;
use vstd::prelude::*;

verus! {

/// Ten to the power `t`.
pub open spec fn pow10(t: nat) -> nat
    decreases t,
{
    if t == 0 {
        1
    } else {
        10 * pow10((t - 1) as nat)
    }
}

/// `v4 / 4` lies between `lo4 / 4` and `hi4 / 4`, the ends included when
/// `inclusive`.
pub open spec fn within(v4: int, lo4: int, hi4: int, inclusive: bool) -> bool {
    if inclusive {
        lo4 <= v4 <= hi4
    } else {
        lo4 < v4 < hi4
    }
}

/// Of the multiples of `p` just below and just above `r`, the one in the
/// interval `[lo4 / 4, hi4 / 4]`: the nearer to `r` when both are, a tie
/// going to the upper; `None` when neither is.
pub open spec fn pick_multiple(r: nat, lo4: int, hi4: int, inclusive: bool, p: nat) -> Option<nat> {
    let below = r / p * p;
    let above = below + p;
    let in_below = within(4 * below as int, lo4, hi4, inclusive);
    let in_above = within(4 * above as int, lo4, hi4, inclusive);
    if in_below && in_above {
        if r - below < above - r {
            Some(below)
        } else {
            Some(above)
        }
    } else if in_below {
        Some(below)
    } else if in_above {
        Some(above)
    } else {
        None
    }
}

/// The multiple of the largest power of ten, from 10^t down to 1, that
/// `pick_multiple` finds in the interval.
pub open spec fn shortest_pick(r: nat, lo4: int, hi4: int, inclusive: bool, t: nat) -> nat
    decreases t,
{
    match pick_multiple(r, lo4, hi4, inclusive, pow10(t)) {
        Some(v) => v,
        None => if t == 0 {
            r
        } else {
            shortest_pick(r, lo4, hi4, inclusive, (t - 1) as nat)
        },
    }
}

/// The integer whose digits `{}` prints for the binary64 holding the integer
/// `r`: `r` itself below 2^53; above, the value with the fewest significant
/// digits among those that round to `r` (the interval half an ulp around it,
/// a quarter ulp below a power of two, ends included for an even
/// significand).
pub open spec fn display_value(r: nat) -> nat {
    if r < 0x20000000000000 {
        r
    } else {
        let u = pow2(excess_bits(r));
        let m = r / u;
        let lo4 = 4 * r - (if m == 0x10000000000000 {
            u
        } else {
            2 * u
        });
        shortest_pick(r, lo4, (4 * r + 2 * u) as int, m % 2 == 0, 20)
    }
}

/// `pick_multiple` for the power of ten `p`.
fn pick_at(r: u128, lo4: u128, hi4: u128, inclusive: bool, p: u128) -> (v: Option<u128>)
    requires
        0 < p <= 100000000000000000000,
        r < 0x20000000000000 * 0x4000,
        hi4 <= 4 * r + 0x10000,
    ensures
        match pick_multiple(r as nat, lo4 as int, hi4 as int, inclusive, p as nat) {
            Some(x) => v == Some(x as u128),
            None => v is None,
        },
{
    proof {
        assert(r / p * p <= r && r < r / p * p + p) by (nonlinear_arith)
            requires
                p > 0,
        ;
    }
    let below = r / p * p;
    let above = below + p;
    let in_below = if inclusive {
        lo4 <= 4 * below && 4 * below <= hi4
    } else {
        lo4 < 4 * below && 4 * below < hi4
    };
    let in_above = if inclusive {
        lo4 <= 4 * above && 4 * above <= hi4
    } else {
        lo4 < 4 * above && 4 * above < hi4
    };
    if in_below && in_above {
        if r - below < above - r {
            Some(below)
        } else {
            Some(above)
        }
    } else if in_below {
        Some(below)
    } else if in_above {
        Some(above)
    } else {
        None
    }
}

/// The digits that `{}` prints for the binary64 holding the integer `r`, as
/// an integer.
pub fn display_value_of(r: u128) -> (v: u128)
    requires
        r < 0x20000000000000 * 0x4000,
    ensures
        v == display_value(r as nat),
{
    if r < 0x20000000000000 {
        return r;
    }
    let mut q: u128 = r;
    let mut u: u128 = 1;
    let ghost mut k: nat = 0;
    proof {
        lemma2_to64();
    }
    while q >= 0x20000000000000
        invariant
            u == pow2(k),
            0 < u < 0x8000,
            r < 0x20000000000000 * 0x4000,
            q == r as nat / u as nat,
            excess_bits(r as nat) == k + excess_bits(q as nat),
        decreases q,
    {
        proof {
            if u >= 0x4000 {
                vstd::arithmetic::div_mod::lemma_div_is_ordered_by_denominator(
                    r as int,
                    0x4000,
                    u as int,
                );
            }
            lemma_div_denominator(r as int, u as int, 2);
            lemma_pow2_unfold(k + 1);
        }
        q = q / 2;
        u = u * 2;
        proof {
            k = k + 1;
        }
    }
    let lo4: u128 = if q == 0x10000000000000 {
        4 * r - u
    } else {
        4 * r - 2 * u
    };
    let hi4: u128 = 4 * r + 2 * u;
    let inclusive = q % 2 == 0;
    assert(excess_bits(q as nat) == 0);
    let mut t: u32 = 20;
    let mut p: u128 = 100000000000000000000;
    proof {
        reveal_with_fuel(pow10, 21);
    }
    loop
        invariant
            t <= 20,
            p == pow10(t as nat),
            0 < p <= 100000000000000000000,
            0x20000000000000 <= r < 0x20000000000000 * 0x4000,
            lo4 <= 4 * r <= hi4,
            hi4 == 4 * r + 2 * u,
            u < 0x8000,
            display_value(r as nat) == shortest_pick(r as nat, lo4 as int, hi4 as int, inclusive, 20),
            shortest_pick(r as nat, lo4 as int, hi4 as int, inclusive, 20) == shortest_pick(
                r as nat,
                lo4 as int,
                hi4 as int,
                inclusive,
                t as nat,
            ),
        decreases t,
    {
        let picked = pick_at(r, lo4, hi4, inclusive, p);
        match picked {
            Some(v) => {
                return v;
            },
            None => {},
        }
        if t == 0 {
            return r;
        }
        t = t - 1;
        p = p / 10;
    }
}

} // verus!
