//! Divisibility of natural numbers and the greatest common divisor.
//!
//! Everything here is specification and proof: the definitions say what a
//! greatest common divisor is, and the lemmas show that there is exactly one
//! and that it obeys the Euclidean recurrence.

use vstd::prelude::*;
use vstd::arithmetic::div_mod::{
    lemma_fundamental_div_mod, lemma_mod_multiples_basic, lemma_mod_multiples_vanish,
    lemma_small_mod,
};

verus! {

/// `d` divides `n`. Zero divides only zero.
pub open spec fn divides(d: nat, n: nat) -> bool {
    if d == 0 {
        n == 0
    } else {
        n % d == 0
    }
}

/// `d` divides both `m` and `n`.
pub open spec fn is_common_divisor(d: nat, m: nat, n: nat) -> bool {
    divides(d, m) && divides(d, n)
}

/// `g` is the greatest common divisor of `m` and `n`: a common divisor that
/// no common divisor exceeds. Every number divides zero, so the pair (0, 0)
/// has no greatest one; its greatest common divisor is taken to be zero.
pub open spec fn is_gcd(g: nat, m: nat, n: nat) -> bool {
    if m == 0 && n == 0 {
        g == 0
    } else {
        &&& is_common_divisor(g, m, n)
        &&& forall|d: nat| is_common_divisor(d, m, n) ==> d <= g
    }
}

/// The greatest common divisor of `m` and `n`.
pub open spec fn greatest_common_divisor(m: nat, n: nat) -> nat {
    choose|g: nat| is_gcd(g, m, n)
}

/// A divisor of a positive number is positive and no larger than it.
pub proof fn lemma_divisor_bounds(d: nat, n: nat)
    requires
        n > 0,
        divides(d, n),
    ensures
        0 < d <= n,
{
    if d > n {
        lemma_small_mod(n, d);
    }
}

/// A nonzero divisor times the quotient gives the number back.
pub proof fn lemma_exact_division(d: nat, n: nat)
    requires
        d != 0,
        divides(d, n),
    ensures
        n == d * (n / d),
{
    lemma_fundamental_div_mod(n as int, d as int);
}

/// Every number divides its multiples.
pub proof fn lemma_divides_multiple(d: nat, k: nat)
    ensures
        divides(d, d * k),
{
    if d != 0 {
        lemma_mod_multiples_basic(k as int, d as int);
        assert(d * k == k * d) by (nonlinear_arith);
    } else {
        assert(d * k == 0) by (nonlinear_arith)
            requires
                d == 0,
        ;
    }
}

/// The common divisors of `m` and `n` are those of `n` and `m % n`.
pub proof fn lemma_common_divisor_step(d: nat, m: nat, n: nat)
    requires
        n > 0,
    ensures
        is_common_divisor(d, m, n) <==> is_common_divisor(d, n, m % n),
{
    if divides(d, n) {
        lemma_divisor_bounds(d, n);
        let q = n / d;
        let k = m / n;
        let r = m % n;
        lemma_fundamental_div_mod(n as int, d as int);
        lemma_fundamental_div_mod(m as int, n as int);
        assert(m == d * (q * k) + r) by (nonlinear_arith)
            requires
                n == d * q,
                m == n * k + r,
        ;
        lemma_mod_multiples_vanish((q * k) as int, r as int, d as int);
    }
}

/// Some number is the greatest common divisor of `m` and `n`: the one that
/// Euclid's algorithm arrives at.
proof fn lemma_gcd_exists(m: nat, n: nat) -> (g: nat)
    ensures
        is_gcd(g, m, n),
    decreases n,
{
    if n == 0 {
        if m != 0 {
            assert forall|d: nat| is_common_divisor(d, m, n) implies d <= m by {
                lemma_divisor_bounds(d, m);
            }
        }
        m
    } else {
        let g = lemma_gcd_exists(n, m % n);
        lemma_common_divisor_step(g, m, n);
        assert forall|d: nat| is_common_divisor(d, m, n) implies d <= g by {
            lemma_common_divisor_step(d, m, n);
        }
        g
    }
}

/// `greatest_common_divisor(m, n)` is a greatest common divisor of `m` and
/// `n`.
pub proof fn lemma_gcd_is_gcd(m: nat, n: nat)
    ensures
        is_gcd(greatest_common_divisor(m, n), m, n),
{
    let witness = lemma_gcd_exists(m, n);
    assert(is_gcd(witness, m, n));
}

/// A pair has only one greatest common divisor.
pub proof fn lemma_gcd_unique(g: nat, m: nat, n: nat)
    requires
        is_gcd(g, m, n),
    ensures
        g == greatest_common_divisor(m, n),
{
    lemma_gcd_is_gcd(m, n);
}

/// The greatest common divisor divides both numbers.
pub proof fn lemma_gcd_divides_both(m: nat, n: nat)
    ensures
        divides(greatest_common_divisor(m, n), m),
        divides(greatest_common_divisor(m, n), n),
{
    lemma_gcd_is_gcd(m, n);
}

/// Where `m` and `n` are not both zero, their greatest common divisor is
/// positive and no common divisor is larger.
pub proof fn lemma_gcd_is_greatest(d: nat, m: nat, n: nat)
    requires
        m != 0 || n != 0,
        is_common_divisor(d, m, n),
    ensures
        0 < d <= greatest_common_divisor(m, n),
{
    lemma_gcd_is_gcd(m, n);
    if m != 0 {
        lemma_divisor_bounds(d, m);
    } else {
        lemma_divisor_bounds(d, n);
    }
}

/// `gcd(x, 0) == x`, for zero too.
pub proof fn lemma_gcd_right_zero(x: nat)
    ensures
        greatest_common_divisor(x, 0) == x,
{
    if x != 0 {
        assert forall|d: nat| is_common_divisor(d, x, 0) implies d <= x by {
            lemma_divisor_bounds(d, x);
        }
    }
    lemma_gcd_unique(x, x, 0);
}

/// `gcd(0, x) == x`, for zero too.
pub proof fn lemma_gcd_left_zero(x: nat)
    ensures
        greatest_common_divisor(0, x) == x,
{
    if x != 0 {
        assert forall|d: nat| is_common_divisor(d, 0, x) implies d <= x by {
            lemma_divisor_bounds(d, x);
        }
    }
    lemma_gcd_unique(x, 0, x);
}

/// `gcd(x, 1) == 1`: only 1 divides 1.
pub proof fn lemma_gcd_with_one(x: nat)
    ensures
        greatest_common_divisor(x, 1) == 1,
{
    assert forall|d: nat| is_common_divisor(d, x, 1) implies d <= 1 by {
        lemma_divisor_bounds(d, 1);
    }
    lemma_gcd_unique(1, x, 1);
}

/// The Euclidean recurrence: `gcd(m, n) == gcd(n, m % n)` for nonzero `n`.
pub proof fn lemma_gcd_step(m: nat, n: nat)
    requires
        n != 0,
    ensures
        greatest_common_divisor(m, n) == greatest_common_divisor(n, m % n),
{
    let g = greatest_common_divisor(n, m % n);
    lemma_gcd_is_gcd(n, m % n);
    lemma_common_divisor_step(g, m, n);
    assert forall|d: nat| is_common_divisor(d, m, n) implies d <= g by {
        lemma_common_divisor_step(d, m, n);
    }
    lemma_gcd_unique(g, m, n);
}

/// Every common divisor divides the greatest one.
pub proof fn lemma_common_divisor_divides_gcd(d: nat, m: nat, n: nat)
    requires
        is_common_divisor(d, m, n),
    ensures
        divides(d, greatest_common_divisor(m, n)),
    decreases n,
{
    if n == 0 {
        lemma_gcd_right_zero(m);
    } else {
        lemma_gcd_step(m, n);
        lemma_common_divisor_step(d, m, n);
        lemma_common_divisor_divides_gcd(d, n, m % n);
    }
}

/// A common factor comes out of the greatest common divisor:
/// `gcd(k * m, k * n) == k * gcd(m, n)`.
pub proof fn lemma_gcd_of_multiples(k: nat, m: nat, n: nat)
    ensures
        greatest_common_divisor(k * m, k * n) == k * greatest_common_divisor(m, n),
{
    let g = greatest_common_divisor(m, n);
    let big = greatest_common_divisor(k * m, k * n);
    lemma_gcd_is_gcd(m, n);
    lemma_gcd_is_gcd(k * m, k * n);
    if k == 0 || (m == 0 && n == 0) {
        assert(k * m == 0 && k * n == 0 && k * g == 0) by (nonlinear_arith)
            requires
                k == 0 || (m == 0 && n == 0 && g == 0),
        ;
    } else {
        assert(k * m != 0 || k * n != 0) by (nonlinear_arith)
            requires
                k != 0,
                m != 0 || n != 0,
        ;
        // k * g is a common divisor of the multiples, so it is at most `big`.
        lemma_exact_division(g, m);
        lemma_exact_division(g, n);
        assert(k * m == (k * g) * (m / g)) by (nonlinear_arith)
            requires
                m == g * (m / g),
        ;
        assert(k * n == (k * g) * (n / g)) by (nonlinear_arith)
            requires
                n == g * (n / g),
        ;
        lemma_divides_multiple(k * g, m / g);
        lemma_divides_multiple(k * g, n / g);
        assert(is_common_divisor(k * g, k * m, k * n));
        // k divides `big`, and the quotient is a common divisor of m and n,
        // so `big` is at most k * g.
        lemma_divides_multiple(k, m);
        lemma_divides_multiple(k, n);
        lemma_common_divisor_divides_gcd(k, k * m, k * n);
        lemma_exact_division(k, big);
        let h = big / k;
        lemma_exact_division(big, k * m);
        lemma_exact_division(big, k * n);
        assert(m == h * ((k * m) / big)) by (nonlinear_arith)
            requires
                k != 0,
                big == k * h,
                k * m == big * ((k * m) / big),
        ;
        assert(n == h * ((k * n) / big)) by (nonlinear_arith)
            requires
                k != 0,
                big == k * h,
                k * n == big * ((k * n) / big),
        ;
        lemma_divides_multiple(h, (k * m) / big);
        lemma_divides_multiple(h, (k * n) / big);
        assert(is_common_divisor(h, m, n));
        assert(big == k * g) by (nonlinear_arith)
            requires
                big == k * h,
                h <= g,
                k * g <= big,
        ;
    }
}

/// Dividing two numbers, not both zero, by their greatest common divisor
/// leaves quotients whose greatest common divisor is 1.
pub proof fn lemma_gcd_of_quotients(m: nat, n: nat)
    requires
        m != 0 || n != 0,
    ensures
        greatest_common_divisor(m, n) > 0,
        greatest_common_divisor(
            m / greatest_common_divisor(m, n),
            n / greatest_common_divisor(m, n),
        ) == 1,
{
    let g = greatest_common_divisor(m, n);
    lemma_gcd_is_gcd(m, n);
    assert(is_common_divisor(1, m, n));
    let a = m / g;
    let b = n / g;
    lemma_exact_division(g, m);
    lemma_exact_division(g, n);
    lemma_gcd_of_multiples(g, a, b);
    assert(greatest_common_divisor(a, b) == 1) by (nonlinear_arith)
        requires
            g > 0,
            g == g * greatest_common_divisor(a, b),
    ;
}

} // verus!
