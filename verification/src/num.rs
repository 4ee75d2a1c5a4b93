//! Integer helpers used across the kernel: greatest common divisor,
//! ceiling square root and ceiling division, with the small arithmetic
//! lemmas the geometry proofs need.

use vstd::prelude::*;
use vstd::arithmetic::div_mod::*;

verus! {

/// Greatest common divisor, by Euclid's algorithm; `gcd(a, 0) == a`.
pub open spec fn gcd(a: nat, b: nat) -> nat
    decreases b,
{
    if b == 0 {
        a
    } else {
        gcd(b, a % b)
    }
}

/// The least `r` with `r * r >= q` (a ceiling square root).
pub open spec fn csqrt(q: nat) -> nat
    decreases q,
{
    if q == 0 {
        0
    } else {
        let s = csqrt((q - 1) as nat);
        if s * s >= q {
            s
        } else {
            s + 1
        }
    }
}

/// `ceil(a / b)` for positive `b`.
pub open spec fn ceil_div(a: int, b: int) -> int {
    (a + b - 1) / b
}

pub proof fn lemma_csqrt_bounds(q: nat)
    ensures
        csqrt(q) * csqrt(q) >= q,
        csqrt(q) <= q,
        q >= 1 ==> (csqrt(q) - 1) * (csqrt(q) - 1) < q,
    decreases q,
{
    if q == 0 {
    } else {
        lemma_csqrt_bounds((q - 1) as nat);
        let s = csqrt((q - 1) as nat);
        if s * s >= q {
            assert(s >= 1) by (nonlinear_arith)
                requires s * s >= q, q >= 1,
            ;
            assert(q >= 2) by {
                if q == 1 {
                    assert(s <= 0);
                }
            }
            assert((s - 1) * (s - 1) < q - 1);
        } else {
            assert((s + 1) * (s + 1) >= q) by (nonlinear_arith)
                requires s * s >= q - 1,
            ;
            assert(s * s < q);
        }
    }
}

pub proof fn lemma_csqrt_unique(q: nat, r: nat)
    requires
        r * r >= q,
        r == 0 || (r - 1) * (r - 1) < q,
    ensures
        r == csqrt(q),
{
    let c = csqrt(q);
    lemma_csqrt_bounds(q);
    if r < c {
        assert(c >= 1);
        assert(q >= 1) by {
            if q == 0 {
                assert(c == 0);
            }
        }
        assert(r <= c - 1);
        assert(r * r <= (c - 1) * (c - 1)) by (nonlinear_arith)
            requires 0 <= r, r <= c - 1,
        ;
        assert((c - 1) * (c - 1) < q);
    } else if r > c {
        assert(r >= 1);
        assert(q >= 1) by {
            if q == 0 {
                assert((r - 1) * (r - 1) < 0);
            }
        }
        assert(c <= r - 1);
        assert(c * c <= (r - 1) * (r - 1)) by (nonlinear_arith)
            requires 0 <= c, c <= r - 1,
        ;
        assert((r - 1) * (r - 1) < q);
        assert(c * c >= q);
    }
}

pub proof fn lemma_csqrt_monotonic(q1: nat, q2: nat)
    requires
        q1 <= q2,
    ensures
        csqrt(q1) <= csqrt(q2),
{
    let r1 = csqrt(q1);
    let r2 = csqrt(q2);
    lemma_csqrt_bounds(q1);
    lemma_csqrt_bounds(q2);
    if r1 > r2 {
        assert(r1 >= 1);
        assert(q1 >= 1) by {
            if q1 == 0 {
                assert(r1 == 0);
            }
        }
        assert(r2 <= r1 - 1);
        assert(r2 * r2 <= (r1 - 1) * (r1 - 1)) by (nonlinear_arith)
            requires 0 <= r2, r2 <= r1 - 1,
        ;
        assert((r1 - 1) * (r1 - 1) < q1);
        assert(r2 * r2 >= q2);
    }
}

pub proof fn lemma_ceil_div_bounds(a: int, b: int)
    requires
        a >= 0,
        b >= 1,
    ensures
        ceil_div(a, b) * b >= a,
        ceil_div(a, b) >= 0,
        a >= 1 ==> (ceil_div(a, b) - 1) * b < a,
        a >= 1 ==> ceil_div(a, b) >= 1,
{
    let c = ceil_div(a, b);
    lemma_fundamental_div_mod(a + b - 1, b);
    let r = (a + b - 1) % b;
    assert(a + b - 1 == b * c + r);
    lemma_mod_bound(a + b - 1, b);
    assert(c * b >= a) by (nonlinear_arith)
        requires a + b - 1 == b * c + r, r < b,
    ;
    lemma_basic_div(0, b);
    lemma_div_is_ordered(0, a + b - 1, b);
    if a >= 1 {
        assert((c - 1) * b < a) by (nonlinear_arith)
            requires a + b - 1 == b * c + r, 0 <= r,
        ;
        assert(c >= 1) by (nonlinear_arith)
            requires c * b >= a, a >= 1, b >= 1, c >= 0,
        ;
    }
}

/// Larger divisor never gives a larger ceiling quotient.
pub proof fn lemma_ceil_div_antimonotonic(a: int, b1: int, b2: int)
    requires
        a >= 0,
        1 <= b1 <= b2,
    ensures
        ceil_div(a, b1) >= ceil_div(a, b2),
{
    let c1 = ceil_div(a, b1);
    let c2 = ceil_div(a, b2);
    lemma_ceil_div_bounds(a, b1);
    lemma_ceil_div_bounds(a, b2);
    if c1 < c2 {
        assert(a >= 1) by {
            if a == 0 {
                lemma_basic_div(b1 - 1, b1);
                lemma_basic_div(b2 - 1, b2);
            }
        }
        assert(c1 <= c2 - 1);
        assert(b2 * c1 <= b2 * (c2 - 1)) by (nonlinear_arith)
            requires 0 <= b2, c1 <= c2 - 1,
        ;
        assert(b1 * c1 <= b2 * c1) by (nonlinear_arith)
            requires 0 <= c1, b1 <= b2,
        ;
        assert(c1 * b1 >= a);
        assert((c2 - 1) * b2 < a);
    }
}

/// Euclid's algorithm.
pub fn gcd_u64(a: u64, b: u64) -> (r: u64)
    ensures
        r == gcd(a as nat, b as nat),
{
    let mut x: u64 = a;
    let mut y: u64 = b;
    while y != 0
        invariant
            gcd(x as nat, y as nat) == gcd(a as nat, b as nat),
        decreases y,
    {
        let t: u64 = x % y;
        x = y;
        y = t;
    }
    x
}

/// The least `r` with `r * r >= q`, by counting up.
pub fn csqrt_u64(q: u64) -> (r: u64)
    ensures
        r == csqrt(q as nat),
        r <= q,
{
    let mut s: u64 = 0;
    loop
        invariant
            s == 0 || (s - 1) * (s - 1) < q,
            s <= csqrt(q as nat),
        ensures
            s * s >= q,
            s == 0 || (s - 1) * (s - 1) < q,
        decreases csqrt(q as nat) - s,
    {
        proof {
            lemma_csqrt_bounds(q as nat);
            assert((s as int) * (s as int) <= 0xffff_ffff_ffff_ffff * 0xffff_ffff_ffff_ffff)
                by (nonlinear_arith)
                requires 0 <= s <= 0xffff_ffff_ffff_ffff,
            ;
        }
        let sq: u128 = (s as u128) * (s as u128);
        if sq >= q as u128 {
            break;
        }
        proof {
            assert(s < csqrt(q as nat)) by {
                if s >= csqrt(q as nat) {
                    assert(csqrt(q as nat) * csqrt(q as nat) <= s * s) by (nonlinear_arith)
                        requires 0 <= csqrt(q as nat), csqrt(q as nat) <= s,
                    ;
                }
            }
        }
        s = s + 1;
    }
    proof {
        lemma_csqrt_bounds(q as nat);
        lemma_csqrt_unique(q as nat, s as nat);
    }
    s
}

} // verus!
