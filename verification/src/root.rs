//! The integer square root.
//!
//! `isqrt(n)` is the largest `r` with `r * r <= n`. It is computed by Newton's
//! iteration, run for a number of rounds fixed by the word width: every round
//! at least halves the distance to the root, so no convergence test is needed
//! to know that the loop ends at the exact floor.
use crate::wide::mul_div_floor;
use vstd::arithmetic::div_mod::{lemma_fundamental_div_mod, lemma_mod_bound};
use vstd::prelude::*;

verus! {

/// `r` is the floor of the square root of `n`.
pub open spec fn is_floor_sqrt(n: int, r: int) -> bool {
    0 <= r && r * r <= n && n < (r + 1) * (r + 1)
}

/// The floor of the square root of `n`.
pub open spec fn isqrt(n: nat) -> nat {
    (choose|r: int| is_floor_sqrt(n as int, r)) as nat
}

/// Every natural number has a floor square root.
pub proof fn lemma_floor_sqrt_exists(n: nat)
    ensures
        exists|r: int| is_floor_sqrt(n as int, r),
    decreases n,
{
    if n == 0 {
        assert(is_floor_sqrt(0, 0));
    } else {
        let m: nat = (n - 1) as nat;
        lemma_floor_sqrt_exists(m);
        let r: int = choose|r: int| is_floor_sqrt(m as int, r);
        if (r + 1) * (r + 1) <= n {
            assert((r + 2) * (r + 2) > (r + 1) * (r + 1)) by (nonlinear_arith)
                requires
                    0 <= r,
            ;
            assert(is_floor_sqrt(n as int, r + 1));
        } else {
            assert(is_floor_sqrt(n as int, r));
        }
    }
}

/// Two floor square roots of the same number are equal.
pub proof fn lemma_floor_sqrt_unique(n: int, r1: int, r2: int)
    requires
        is_floor_sqrt(n, r1),
        is_floor_sqrt(n, r2),
    ensures
        r1 == r2,
{
    if r1 < r2 {
        assert((r1 + 1) * (r1 + 1) <= r2 * r2) by (nonlinear_arith)
            requires
                0 <= r1,
                r1 + 1 <= r2,
        ;
    } else if r2 < r1 {
        assert((r2 + 1) * (r2 + 1) <= r1 * r1) by (nonlinear_arith)
            requires
                0 <= r2,
                r2 + 1 <= r1,
        ;
    }
}

/// `isqrt(n)` squared is at most `n`, and the next square exceeds `n`.
pub proof fn lemma_isqrt_bounds(n: nat)
    ensures
        is_floor_sqrt(n as int, isqrt(n) as int),
{
    lemma_floor_sqrt_exists(n);
}

/// Whatever satisfies the defining bounds is `isqrt(n)`.
pub proof fn lemma_isqrt_is(n: nat, r: nat)
    requires
        is_floor_sqrt(n as int, r as int),
    ensures
        isqrt(n) == r,
{
    lemma_isqrt_bounds(n);
    lemma_floor_sqrt_unique(n as int, isqrt(n) as int, r as int);
}

/// The square root never decreases when its argument grows.
pub proof fn lemma_isqrt_monotonic(a: nat, b: nat)
    requires
        a <= b,
    ensures
        isqrt(a) <= isqrt(b),
{
    lemma_isqrt_bounds(a);
    lemma_isqrt_bounds(b);
    let ra: int = isqrt(a) as int;
    let rb: int = isqrt(b) as int;
    if rb < ra {
        assert((rb + 1) * (rb + 1) <= ra * ra) by (nonlinear_arith)
            requires
                0 <= rb,
                rb + 1 <= ra,
        ;
    }
}

/// The root of a product is at most the larger factor.
pub proof fn lemma_isqrt_of_product(a: nat, b: nat)
    ensures
        isqrt(a * b) <= if a <= b {
            b
        } else {
            a
        },
{
    let m: int = if a <= b {
        b as int
    } else {
        a as int
    };
    let s: int = isqrt(a * b) as int;
    lemma_isqrt_bounds(a * b);
    assert(a * b <= m * m) by (nonlinear_arith)
        requires
            0 <= a <= m,
            0 <= b <= m,
    ;
    if s > m {
        assert(s * s >= (m + 1) * (m + 1)) by (nonlinear_arith)
            requires
                0 <= m,
                m + 1 <= s,
        ;
        assert((m + 1) * (m + 1) > m * m) by (nonlinear_arith)
            requires
                0 <= m,
        ;
    }
}

/// Newton's average of `g` and `n / g` is never below the root.
proof fn lemma_newton_not_below(n: int, s: int, g: int)
    requires
        0 <= s,
        s * s <= n,
        0 < g,
    ensures
        g + n / g >= 2 * s,
{
    let t: int = n / g;
    lemma_fundamental_div_mod(n, g);
    lemma_mod_bound(n, g);
    if g + t < 2 * s {
        assert(false) by (nonlinear_arith)
            requires
                n == g * t + n % g,
                0 <= n % g < g,
                t + 1 <= 2 * s - g,
                s * s <= n,
                0 < g,
        {
            assert((t + 1) * g <= (2 * s - g) * g);
            assert((2 * s - g) * g + (s - g) * (s - g) == s * s);
            assert((s - g) * (s - g) >= 0);
            assert(g * t + g == (t + 1) * g);
        }
    }
}

/// Above the root, `n / g` is at most the root.
proof fn lemma_newton_quotient_small(n: int, s: int, g: int)
    requires
        0 <= s,
        0 <= n < (s + 1) * (s + 1),
        s + 1 <= g,
    ensures
        n / g <= s,
        0 <= n / g,
{
    let t: int = n / g;
    lemma_fundamental_div_mod(n, g);
    lemma_mod_bound(n, g);
    if t >= s + 1 {
        assert(g * t >= (s + 1) * (s + 1)) by (nonlinear_arith)
            requires
                0 <= s,
                s + 1 <= g,
                s + 1 <= t,
        ;
    }
    if t < 0 {
        assert(g * t <= -g) by (nonlinear_arith)
            requires
                0 < g,
                t <= -1,
        ;
    }
}

/// At the root, `n / g` is at least the root.
proof fn lemma_newton_quotient_at_root(n: int, s: int)
    requires
        0 < s,
        s * s <= n,
    ensures
        n / s >= s,
{
    let t: int = n / s;
    lemma_fundamental_div_mod(n, s);
    lemma_mod_bound(n, s);
    if t < s {
        assert(s * t + s <= s * s) by (nonlinear_arith)
            requires
                0 < s,
                t + 1 <= s,
        ;
    }
}

/// `isqrt(a * b)`: the floor of the square root of a product of two words.
///
/// The product is never formed in a single word, so the result is exact for
/// every pair of factors.
pub fn sqrt_of_product(a: u128, b: u128) -> (r: u128)
    ensures
        r == isqrt((a as nat) * (b as nat)),
        is_floor_sqrt(a * b, r as int),
{
    let ghost n: int = a * b;
    let ghost s: int = isqrt((a as nat) * (b as nat)) as int;
    proof {
        lemma_isqrt_bounds((a as nat) * (b as nat));
        lemma_isqrt_of_product(a as nat, b as nat);
        assert(n == ((a as nat) * (b as nat)) as int) by (nonlinear_arith)
            requires
                n == a * b,
        ;
    }
    if a == 0 || b == 0 {
        proof {
            assert(n == 0) by (nonlinear_arith)
                requires
                    n == a * b,
                    a == 0 || b == 0,
            ;
            assert(is_floor_sqrt(0, 0));
            lemma_floor_sqrt_unique(n, s, 0);
        }
        return 0;
    }
    proof {
        assert(n >= 1) by (nonlinear_arith)
            requires
                n == a * b,
                a >= 1,
                b >= 1,
        ;
    }
    let mut g: u128 = if a <= b {
        b
    } else {
        a
    };
    let mut span: u128 = u128::MAX;
    while span > 0
        invariant
            n == a * b,
            is_floor_sqrt(n, s),
            0 < s,
            s <= g,
            g - s <= span,
        decreases span,
    {
        proof {
            if g >= s + 1 {
                lemma_newton_quotient_small(n, s, g as int);
                lemma_newton_not_below(n, s, g as int);
            } else {
                lemma_newton_quotient_at_root(n, s);
            }
        }
        match mul_div_floor(a, b, g) {
            Ok(t) => {
                if t < g {
                    g = t + (g - t) / 2;
                }
            },
            // a quotient beyond the word is above `g`: the guess stays
            Err(_) => {},
        }
        span = span / 2;
    }
    proof {
        lemma_isqrt_is((a as nat) * (b as nat), g as nat);
    }
    g
}

} // verus!
