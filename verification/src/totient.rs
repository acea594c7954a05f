//! Euler's totient as the rules compute it counts the units modulo `n`.
use vstd::prelude::*;
use crate::expr::{gcd, nat_abs, divides, lemma_gcd_divides, lemma_gcd_greatest, lemma_divides_antisym, lemma_gcd_positive};
use crate::arith::{egcd, lemma_egcd, strip, lemma_strip, phi_loop, euler_phi, trial_measure};
use crate::theorems::{is_prime, lemma_prime_coprime, lemma_euclid};
use vstd::arithmetic::power::pow;
use crate::expr::{Expr, Symbol, lit, minus, power};
use crate::eval::value;
use crate::number_theory::{self, NumberTheoryRule};

verus! {

/// `gcd(a, b) = gcd(b, a)`.
pub proof fn lemma_gcd_commutes(a: nat, b: nat)
    ensures
        gcd(a, b) == gcd(b, a),
{
    lemma_gcd_divides(a, b);
    lemma_gcd_divides(b, a);
    lemma_gcd_greatest(a, b, gcd(b, a));
    lemma_gcd_greatest(b, a, gcd(a, b));
    if a > 0 || b > 0 {
        lemma_gcd_positive(a, b);
        lemma_gcd_positive(b, a);
        lemma_divides_antisym(gcd(a, b), gcd(b, a));
    } else {
        assert(gcd(a, b) == 0 && gcd(b, a) == 0);
    }
}

/// A natural that divides `1` is `1`.
proof fn lemma_divides_one(d: nat)
    requires
        divides(d, 1),
    ensures
        d == 1,
{
    let k = choose|k: nat| #[trigger] (d * k) == 1;
    assert(d == 1) by (nonlinear_arith)
        requires
            d * k == 1,
    ;
}

/// Where `a·x + b·y = ±1`, `gcd(a, b) = 1`.
proof fn lemma_unit_combination(a: nat, b: nat, x: int, y: int)
    requires
        a * x + b * y == 1 || a * x + b * y == -1,
    ensures
        gcd(a, b) == 1,
{
    let d = gcd(a, b);
    lemma_gcd_divides(a, b);
    let u = choose|k: nat| #[trigger] (d * k) == a;
    let v = choose|k: nat| #[trigger] (d * k) == b;
    let w = u * x + v * y;
    assert(d * w == a * x + b * y) by (nonlinear_arith)
        requires
            d * u == a,
            d * v == b,
            w == u * x + v * y,
    ;
    assert(d == 1) by (nonlinear_arith)
        requires
            d * w == 1 || d * w == -1,
            d >= 0,
    ;
}

/// Where `gcd(a, b) = 1`, some `a·x + b·y` is `±1`.
proof fn lemma_coprime_combination(a: nat, b: nat) -> (r: (int, int))
    requires
        gcd(a, b) == 1,
    ensures
        a * r.0 + b * r.1 == 1 || a * r.0 + b * r.1 == -1,
{
    lemma_egcd(a as int, b as int);
    let (g, x, y) = egcd(a as int, b as int);
    assert(nat_abs(a as int) == a && nat_abs(b as int) == b);
    (x, y)
}

/// Coprime to two numbers is coprime to their product.
pub proof fn lemma_coprime_mul(k: nat, a: nat, b: nat)
    requires
        gcd(k, a) == 1,
        gcd(k, b) == 1,
    ensures
        gcd(k, a * b) == 1,
{
    let (x1, y1) = lemma_coprime_combination(k, a);
    let (x2, y2) = lemma_coprime_combination(k, b);
    let g1 = k * x1 + a * y1;
    let g2 = k * x2 + b * y2;
    let aa = k * x1;
    let bb = a * y1;
    let cc = k * x2;
    let dd = b * y2;
    assert(g1 * g2 == aa * g2 + bb * g2) by (nonlinear_arith)
        requires
            g1 == aa + bb,
    ;
    assert(aa * g2 == k * (x1 * g2)) by (nonlinear_arith)
        requires
            aa == k * x1,
    ;
    assert(bb * g2 == bb * cc + bb * dd) by (nonlinear_arith)
        requires
            g2 == cc + dd,
    ;
    assert(bb * cc == k * (a * y1 * x2)) by (nonlinear_arith)
        requires
            bb == a * y1,
            cc == k * x2,
    ;
    assert(bb * dd == (a * b) * (y1 * y2)) by (nonlinear_arith)
        requires
            bb == a * y1,
            dd == b * y2,
    ;
    let xx = x1 * g2 + a * y1 * x2;
    let yy = y1 * y2;
    assert(k * xx == k * (x1 * g2) + k * (a * y1 * x2)) by (nonlinear_arith)
        requires
            xx == x1 * g2 + a * y1 * x2,
    ;
    assert(k * xx + (a * b) * yy == g1 * g2);
    assert(g1 * g2 == 1 || g1 * g2 == -1) by (nonlinear_arith)
        requires
            g1 == 1 || g1 == -1,
            g2 == 1 || g2 == -1,
    ;
    lemma_unit_combination(k, a * b, xx, yy);
}

/// Coprime to a product is coprime to each factor.
pub proof fn lemma_coprime_factor(k: nat, a: nat, b: nat)
    requires
        gcd(k, a * b) == 1,
    ensures
        gcd(k, a) == 1,
{
    let d = gcd(k, a);
    lemma_gcd_divides(k, a);
    let u = choose|j: nat| #[trigger] (d * j) == a;
    assert(d * (u * b) == a * b) by (nonlinear_arith)
        requires
            d * u == a,
    ;
    assert(divides(d, a * b));
    lemma_gcd_greatest(k, a * b, d);
    lemma_divides_one(d);
}

/// `gcd(k + q, q) = gcd(k, q)` for `q > 0`.
proof fn lemma_gcd_add_modulus(k: nat, q: nat)
    requires
        q > 0,
    ensures
        gcd(k + q, q) == gcd(k, q),
{
    vstd::arithmetic::div_mod::lemma_mod_add_multiples_vanish(k as int, q as int);
    assert((k + q) % q == k % q);
}

/// The number of `k` in `1..=n` with `gcd(k, q) = 1`.
pub open spec fn coprime_count(n: int, q: nat) -> nat
    decreases n,
{
    if n <= 0 {
        0
    } else {
        coprime_count(n - 1, q) + if gcd(n as nat, q) == 1 {
            1nat
        } else {
            0nat
        }
    }
}

/// Counting coprimes is periodic in `q`.
proof fn lemma_count_period(n: int, q: nat)
    requires
        q > 0,
        n >= 0,
    ensures
        coprime_count(n + q, q) == coprime_count(n, q) + coprime_count(q as int, q),
    decreases n,
{
    if n > 0 {
        lemma_count_period(n - 1, q);
        lemma_gcd_add_modulus(n as nat, q);
        assert((n + q) as nat == n as nat + q);
    }
}

/// Over `t` whole periods there are `t` times as many.
pub proof fn lemma_count_periods(t: nat, q: nat)
    requires
        q > 0,
    ensures
        coprime_count((t * q) as int, q) == t * coprime_count(q as int, q),
    decreases t,
{
    let c = coprime_count(q as int, q);
    if t > 0 {
        let t1 = (t - 1) as nat;
        lemma_count_periods(t1, q);
        assert(t1 * q >= 0) by (nonlinear_arith);
        lemma_count_period((t1 * q) as int, q);
        assert(t1 * q + q == t * q) by (nonlinear_arith)
            requires
                t1 == t - 1,
        ;
        assert(t1 * c + c == t * c) by (nonlinear_arith)
            requires
                t1 == t - 1,
        ;
        assert(coprime_count((t * q) as int, q) == coprime_count((t1 * q) as int, q) + c);
    } else {
        assert(t * q == 0) by (nonlinear_arith)
            requires
                t == 0,
        ;
        assert(t * c == 0) by (nonlinear_arith)
            requires
                t == 0,
        ;
    }
}

/// The `k` in `1..=n` with `gcd(k, q) = 1` that `p` does not divide.
pub open spec fn free_count(n: int, q: nat, p: int) -> nat
    decreases n,
{
    if n <= 0 {
        0
    } else {
        free_count(n - 1, q, p) + if gcd(n as nat, q) == 1 && n % p != 0 {
            1nat
        } else {
            0nat
        }
    }
}

/// The `k` in `1..=n` with `gcd(k, q) = 1` that `p` divides.
pub open spec fn multiple_count(n: int, q: nat, p: int) -> nat
    decreases n,
{
    if n <= 0 {
        0
    } else {
        multiple_count(n - 1, q, p) + if gcd(n as nat, q) == 1 && n % p == 0 {
            1nat
        } else {
            0nat
        }
    }
}

proof fn lemma_count_split(n: int, q: nat, p: int)
    ensures
        coprime_count(n, q) == free_count(n, q, p) + multiple_count(n, q, p),
    decreases n,
{
    if n > 0 {
        lemma_count_split(n - 1, q, p);
    }
}

/// No multiple of `p` lies strictly between `p·t` and `p·t + p`.
proof fn lemma_multiples_in_block(t: int, q: nat, p: int, i: int)
    requires
        p >= 2,
        t >= 0,
        0 <= i < p,
    ensures
        multiple_count(p * t + i, q, p) == multiple_count(p * t, q, p),
    decreases i,
{
    if i > 0 {
        lemma_multiples_in_block(t, q, p, i - 1);
        vstd::arithmetic::div_mod::lemma_mod_multiples_vanish(t, i, p);
        vstd::arithmetic::div_mod::lemma_small_mod(i as nat, p as nat);
        assert(p * t >= 0) by (nonlinear_arith)
            requires
                p >= 2,
                t >= 0,
        ;
    }
}

/// `gcd(p·t, q) = 1` exactly when `gcd(t, q) = 1`, for `p` coprime to `q`.
proof fn lemma_coprime_multiple(p: nat, t: nat, q: nat)
    requires
        gcd(q, p) == 1,
    ensures
        gcd(p * t, q) == 1 <==> gcd(t, q) == 1,
{
    lemma_gcd_commutes(p * t, q);
    lemma_gcd_commutes(t, q);
    if gcd(t, q) == 1 {
        lemma_coprime_mul(q, p, t);
    }
    if gcd(p * t, q) == 1 {
        assert(p * t == t * p) by (nonlinear_arith);
        lemma_coprime_factor(q, t, p);
    }
}

/// The multiples of `p` up to `p·t` that are coprime to `q` match the
/// numbers up to `t` that are.
proof fn lemma_multiple_count(t: int, q: nat, p: int)
    requires
        p >= 2,
        t >= 0,
        gcd(q, p as nat) == 1,
    ensures
        multiple_count(p * t, q, p) == coprime_count(t, q),
    decreases t,
{
    if t > 0 {
        lemma_multiple_count(t - 1, q, p);
        lemma_multiples_in_block(t - 1, q, p, p - 1);
        assert(p * (t - 1) + (p - 1) == p * t - 1) by (nonlinear_arith);
        assert(p * t > 0) by (nonlinear_arith)
            requires
                p >= 2,
                t > 0,
        ;
        vstd::arithmetic::div_mod::lemma_mod_multiples_basic(t, p);
        assert((t * p) % p == 0);
        assert(p * t == t * p) by (nonlinear_arith);
        lemma_coprime_multiple(p as nat, t as nat, q);
        assert((p * t) as nat == (p as nat) * (t as nat));
        assert(multiple_count(p * t, q, p) == multiple_count(p * t - 1, q, p) + if gcd((p * t) as nat, q) == 1 {
            1nat
        } else {
            0nat
        });
        assert(coprime_count(t, q) == coprime_count(t - 1, q) + if gcd(t as nat, q) == 1 {
            1nat
        } else {
            0nat
        });
        assert(multiple_count(p * t - 1, q, p) == multiple_count(p * (t - 1), q, p));
        assert(multiple_count(p * (t - 1), q, p) == coprime_count(t - 1, q));
        assert((p * t) % p == 0);
        assert(gcd((p * t) as nat, q) == 1 <==> gcd(t as nat, q) == 1);
    } else {
        assert(p * t == 0) by (nonlinear_arith)
            requires
                t == 0,
        ;
    }
}

/// What [`strip`] divides out of `m`: the largest power of `p` in it.
pub open spec fn stripped(m: int, p: int) -> nat
    decreases m,
{
    if m > 0 && p >= 2 && m % p == 0 {
        proof {
            vstd::arithmetic::div_mod::lemma_div_decreases(m, p);
        }
        (p * stripped(m / p, p)) as nat
    } else {
        1
    }
}

proof fn lemma_stripped(m: int, p: int)
    requires
        m > 0,
        p >= 2,
    ensures
        m == strip(m, p) * stripped(m, p),
        strip(m, p) % p != 0,
        stripped(m, p) >= 1,
        m % p == 0 ==> stripped(m, p) == p * stripped(m / p, p),
    decreases m,
{
    if m % p == 0 {
        vstd::arithmetic::div_mod::lemma_div_decreases(m, p);
        vstd::arithmetic::div_mod::lemma_fundamental_div_mod(m, p);
        assert(m / p > 0) by (nonlinear_arith)
            requires
                m == p * (m / p) + m % p,
                m % p == 0,
                m > 0,
                p >= 2,
        ;
        lemma_stripped(m / p, p);
        let s = stripped(m / p, p);
        assert(p * s >= 1) by (nonlinear_arith)
            requires
                p >= 2,
                s >= 1,
        ;
        assert(m == strip(m / p, p) * (p * s)) by (nonlinear_arith)
            requires
                m == p * (m / p),
                m / p == strip(m / p, p) * s,
        ;
        assert(strip(m, p) == strip(m / p, p));
        assert(stripped(m, p) == p * s);
    } else {
        assert(strip(m, p) == m);
        assert(stripped(m, p) == 1);
    }
}

/// `gcd(k, 1) = 1`.
proof fn lemma_gcd_one(k: nat)
    ensures
        gcd(k, 1) == 1,
{
    assert(k % 1 == 0);
    assert(gcd(1, 0) == 1);
}

/// Coprime to `p` is coprime to every power of it that [`strip`] removes.
proof fn lemma_stripped_coprime(k: nat, m: int, p: int)
    requires
        p >= 2,
        gcd(k, p as nat) == 1,
    ensures
        gcd(k, stripped(m, p)) == 1,
    decreases m,
{
    if m > 0 && m % p == 0 {
        vstd::arithmetic::div_mod::lemma_div_decreases(m, p);
        lemma_stripped_coprime(k, m / p, p);
        lemma_coprime_mul(k, p as nat, stripped(m / p, p));
    } else {
        lemma_gcd_one(k);
    }
}

/// The only prime dividing a power of the prime `p` is `p`.
proof fn lemma_stripped_prime_factor(r: int, m: int, p: int)
    requires
        is_prime(r),
        is_prime(p),
        (stripped(m, p) as int) % r == 0,
    ensures
        r == p,
    decreases m,
{
    if m > 0 && m % p == 0 {
        vstd::arithmetic::div_mod::lemma_div_decreases(m, p);
        let s = stripped(m / p, p);
        if p % r != 0 {
            lemma_euclid(p, s as int, r);
            lemma_stripped_prime_factor(r, m / p, p);
        } else {
            if r < p {
                assert(p % r != 0);
            } else if r > p {
                vstd::arithmetic::div_mod::lemma_small_mod(p as nat, r as nat);
            }
        }
    } else {
        vstd::arithmetic::div_mod::lemma_small_mod(1, r as nat);
    }
}

/// For a prime `p` dividing `m`, a `k >= 1` is coprime to `q` times the
/// power of `p` in `m` exactly when it is coprime to `q` and `p` does not
/// divide it.
proof fn lemma_coprime_to_stripped(k: int, q: nat, m: int, p: int)
    requires
        k >= 1,
        m > 0,
        is_prime(p),
        m % p == 0,
    ensures
        gcd(k as nat, q * stripped(m, p)) == 1 <==> gcd(k as nat, q) == 1 && k % p != 0,
{
    let kn = k as nat;
    let pa = stripped(m, p);
    lemma_stripped(m, p);
    if gcd(kn, q) == 1 && k % p != 0 {
        lemma_prime_coprime(k, p);
        assert(nat_abs(k) == kn);
        lemma_stripped_coprime(kn, m, p);
        lemma_coprime_mul(kn, q, pa);
    }
    if gcd(kn, q * pa) == 1 {
        lemma_coprime_factor(kn, q, pa);
        assert(q * pa == pa * q) by (nonlinear_arith);
        lemma_coprime_factor(kn, pa, q);
        let rest = stripped(m / p, p);
        assert(pa == p * rest);
        lemma_coprime_factor(kn, p as nat, rest);
        if k % p == 0 {
            vstd::arithmetic::div_mod::lemma_fundamental_div_mod(k, p);
            let w = (k / p) as nat;
            assert(k / p >= 0) by {
                vstd::arithmetic::div_mod::lemma_div_pos_is_pos(k, p);
            }
            assert((p as nat) * w == kn);
            assert(divides(p as nat, kn));
            assert((p as nat) * 1 == p as nat);
            assert(divides(p as nat, p as nat));
            lemma_gcd_greatest(kn, p as nat, p as nat);
            lemma_divides_one(p as nat);
        }
    }
}

/// Counting coprimes to `q` that `p` does not divide is counting coprimes
/// to `q` times the power of `p` in `m`.
proof fn lemma_free_count(n: int, q: nat, m: int, p: int)
    requires
        m > 0,
        is_prime(p),
        m % p == 0,
    ensures
        free_count(n, q, p) == coprime_count(n, q * stripped(m, p)),
    decreases n,
{
    if n > 0 {
        lemma_free_count(n - 1, q, m, p);
        lemma_coprime_to_stripped(n, q, m, p);
    }
}

/// One step of the loop: where `p` is a prime dividing the unfactored part
/// `m` of `n = q·m`, and `p` does not divide `q`, taking `result / p` from the
/// count of coprimes to `q` leaves the count of coprimes to `q` times the
/// power of `p` in `m`.
proof fn lemma_phi_step(n: int, m: int, q: nat, p: int)
    requires
        q >= 1,
        m >= 1,
        n == q * m,
        is_prime(p),
        m % p == 0,
        gcd(q, p as nat) == 1,
    ensures
        coprime_count(n, q) - (coprime_count(n, q) as int) / p == coprime_count(n, q * stripped(m, p)),
{
    let c = coprime_count(q as int, q);
    vstd::arithmetic::div_mod::lemma_fundamental_div_mod(m, p);
    let m1 = m / p;
    assert(m == p * m1);
    assert(m1 >= 1) by (nonlinear_arith)
        requires
            m == p * m1,
            m >= 1,
            p >= 2,
    ;
    lemma_count_periods(m as nat, q);
    assert(m * q == n) by (nonlinear_arith)
        requires
            n == q * m,
    ;
    lemma_count_periods(m1 as nat, q);
    assert(n == p * (q * m1)) by (nonlinear_arith)
        requires
            n == q * m,
            m == p * m1,
    ;
    lemma_count_split(n, q, p);
    lemma_multiple_count(q * m1, q, p);
    assert(m1 * q == q * m1) by (nonlinear_arith);
    let total = coprime_count(n, q);
    assert(total == m * c);
    assert(coprime_count(q * m1, q) == m1 * c);
    assert(total == p * (m1 * c)) by (nonlinear_arith)
        requires
            total == m * c,
            m == p * m1,
    ;
    vstd::arithmetic::div_mod::lemma_div_multiples_vanish(m1 * c, p);
    assert((total as int) / p == m1 * c);
    lemma_free_count(n, q, m, p);
}

/// Every `k` is coprime to `1`.
proof fn lemma_count_one(n: int)
    requires
        n >= 0,
    ensures
        coprime_count(n, 1) == n,
    decreases n,
{
    if n > 0 {
        lemma_count_one(n - 1);
        lemma_gcd_one(n as nat);
    }
}

/// `d` divides `a·b` where it divides `a`.
proof fn lemma_mod_of_multiple(a: int, b: int, d: int)
    requires
        d >= 2,
        a % d == 0,
        b >= 0,
        a >= 0,
    ensures
        (a * b) % d == 0,
{
    vstd::arithmetic::div_mod::lemma_fundamental_div_mod(a, d);
    let c = a / d;
    assert(a * b == (c * b) * d) by (nonlinear_arith)
        requires
            a == d * c,
    ;
    vstd::arithmetic::div_mod::lemma_mod_multiples_basic(c * b, d);
}

/// The loop that computes the totient: with `n = q·m`, where trial
/// division has reached `p`, no number in `2..p` divides `m`, every prime
/// factor of `q` is below `p`, and `result` counts the coprimes to `q` in
/// `1..=n`, the loop ends with the count of the coprimes to `n`.
proof fn lemma_phi_loop_counts(n: int, m: int, q: nat, p: int)
    requires
        n >= 1,
        m >= 1,
        q >= 1,
        n == q * m,
        p >= 2,
        forall|d: int| 2 <= d < p ==> #[trigger] (m % d) != 0,
        forall|r: int| is_prime(r) && #[trigger] ((q as int) % r) == 0 ==> r < p,
    ensures
        phi_loop(m, coprime_count(n, q) as int, p) == coprime_count(n, n as nat),
    decreases trial_measure(m, p),
{
    let result = coprime_count(n, q) as int;
    if p * p <= m {
        assert(p <= m) by (nonlinear_arith)
            requires
                p >= 2,
                p * p <= m,
        ;
        if m % p == 0 {
            assert(is_prime(p)) by {
                assert forall|d: int| 2 <= d < p implies #[trigger] (p % d) != 0 by {
                    if p % d == 0 {
                        vstd::arithmetic::div_mod::lemma_fundamental_div_mod(m, p);
                        lemma_mod_of_multiple(p, m / p, d);
                        assert(p * (m / p) == m);
                    }
                }
            }
            assert((q as int) % p != 0);
            lemma_prime_coprime(q as int, p);
            assert(nat_abs(q as int) == q);
            lemma_phi_step(n, m, q, p);
            lemma_stripped(m, p);
            lemma_strip(m, p);
            let m2 = strip(m, p);
            let pa = stripped(m, p);
            let q2 = q * pa;
            assert(n == q2 * m2) by (nonlinear_arith)
                requires
                    n == q * m,
                    m == m2 * pa,
                    q2 == q * pa,
            ;
            assert(q2 >= 1) by (nonlinear_arith)
                requires
                    q2 == q * pa,
                    q >= 1,
                    pa >= 1,
            ;
            assert forall|d: int| 2 <= d < p + 1 implies #[trigger] (m2 % d) != 0 by {
                if d < p && m2 % d == 0 {
                    lemma_mod_of_multiple(m2, pa as int, d);
                }
            }
            assert forall|r: int| is_prime(r) && #[trigger] ((q2 as int) % r) == 0 implies r < p + 1 by {
                if (q as int) % r != 0 {
                    lemma_euclid(q as int, pa as int, r);
                    lemma_stripped_prime_factor(r, m, p);
                }
            }
            lemma_phi_loop_counts(n, m2, q2, p + 1);
        } else {
            assert forall|d: int| 2 <= d < p + 1 implies #[trigger] (m % d) != 0 by {}
            lemma_phi_loop_counts(n, m, q, p + 1);
        }
    } else if m > 1 {
        assert(m >= p) by {
            if m < p {
                vstd::arithmetic::div_mod::lemma_mod_self_0(m);
            }
        }
        assert(is_prime(m)) by {
            assert forall|d: int| 2 <= d < m implies #[trigger] (m % d) != 0 by {
                if m % d == 0 {
                    vstd::arithmetic::div_mod::lemma_fundamental_div_mod(m, d);
                    let e = m / d;
                    assert(m == d * e);
                    assert(2 <= e < m) by (nonlinear_arith)
                        requires
                            m == d * e,
                            2 <= d < m,
                    ;
                    vstd::arithmetic::div_mod::lemma_mod_multiples_basic(d, e);
                    assert(m == d * e);
                    assert(d * e == d * e);
                    assert((d * e) % e == 0);
                    assert(m % e == 0);
                    assert(d >= p && e >= p);
                    assert(d * e >= p * p) by (nonlinear_arith)
                        requires
                            d >= p,
                            e >= p,
                            p >= 2,
                    ;
                }
            }
        }
        assert((q as int) % m != 0);
        lemma_prime_coprime(q as int, m);
        assert(nat_abs(q as int) == q);
        lemma_phi_step(n, m, q, m);
        vstd::arithmetic::div_mod::lemma_mod_self_0(m);
        vstd::arithmetic::div_mod::lemma_div_basics(m);
        vstd::arithmetic::div_mod::lemma_small_mod(1, m as nat);
        assert(stripped(1, m) == 1);
        assert(stripped(m, m) == m * stripped(1, m));
        assert(q * stripped(m, m) == n);
    } else {
        assert(q == n) by (nonlinear_arith)
            requires
                n == q * m,
                m == 1,
        ;
    }
}

/// Euler's totient as the rules compute it by trial division counts the
/// units modulo `n`: the `k` in `1..=n` with `gcd(k, n) = 1`.
pub proof fn lemma_euler_phi_counts_units(n: int)
    requires
        n >= 1,
    ensures
        euler_phi(n) == coprime_count(n, n as nat),
{
    lemma_count_one(n);
    assert forall|r: int| is_prime(r) && #[trigger] ((1nat as int) % r) == 0 implies r < 2 by {
        vstd::arithmetic::div_mod::lemma_small_mod(1, r as nat);
    }
    lemma_phi_loop_counts(n, n, 1, 2);
}

/// All of `p^k` is a power of `p`.
proof fn lemma_stripped_power(p: int, k: nat)
    requires
        p >= 2,
    ensures
        stripped(pow(p, k), p) == pow(p, k),
        pow(p, k) >= 1,
    decreases k,
{
    reveal(pow);
    if k == 0 {
        vstd::arithmetic::div_mod::lemma_small_mod(1, p as nat);
    } else {
        lemma_stripped_power(p, (k - 1) as nat);
        let r = pow(p, (k - 1) as nat);
        assert(pow(p, k) == p * r);
        vstd::arithmetic::div_mod::lemma_mod_multiples_basic(r, p);
        assert(p * r == r * p) by (nonlinear_arith);
        vstd::arithmetic::div_mod::lemma_div_multiples_vanish(r, p);
        assert(p * r >= 1) by (nonlinear_arith)
            requires
                p >= 2,
                r >= 1,
        ;
    }
}

/// There are `p^k - p^(k-1)` units modulo `p^k`, for a prime `p` and `k >= 1`.
pub proof fn lemma_units_of_prime_power(p: int, k: nat)
    requires
        is_prime(p),
        k >= 1,
    ensures
        coprime_count(pow(p, k), pow(p, k) as nat) == pow(p, k) - pow(p, (k - 1) as nat),
{
    reveal(pow);
    let n = pow(p, k);
    let t = pow(p, (k - 1) as nat);
    lemma_stripped_power(p, k);
    lemma_stripped_power(p, (k - 1) as nat);
    assert(n == p * t);
    vstd::arithmetic::div_mod::lemma_mod_multiples_basic(t, p);
    assert(p * t == t * p) by (nonlinear_arith);
    assert(n % p == 0);
    lemma_free_count(n, 1, n, p);
    assert(1 * stripped(n, p) == n as nat);
    lemma_count_split(n, 1, p);
    lemma_gcd_commutes(1, p as nat);
    lemma_gcd_one(p as nat);
    lemma_multiple_count(t, 1, p);
    lemma_count_one(n);
    lemma_count_one(t);
}

/// The rule for the totient of a prime power gives the number of units:
/// applied to `p^k` with a prime `p` and `k >= 1`, its result `p^k - p^(k-1)`
/// has as value the number of `j` in `1..=p^k` coprime to `p^k`.
pub proof fn lemma_euler_phi_prime_power_rule(e: Expr, env: spec_fn(Symbol) -> int)
    requires
        e matches Expr::Pow(b, x) && (value(*b, env) matches Some(p) && is_prime(p)) && (value(*x, env) matches Some(
            k,
        ) && k >= 1),
    ensures
        ({
            let rs = number_theory::results(NumberTheoryRule::EulerPhiPrimePower, e);
            let n = value(e, env).unwrap();
            rs.len() == 1 && value(rs[0].0, env) == Some(coprime_count(n, n as nat) as int)
        }),
{
    if let Expr::Pow(b, x) = e {
        let p = value(*b, env).unwrap();
        let k = value(*x, env).unwrap() as nat;
        lemma_units_of_prime_power(p, k);
        assert(value(e, env) == Some(pow(p, k)));
        assert(value(lit(1), env) == Some(1int));
        assert(value(minus(*x, lit(1)), env) == Some(k - 1));
        assert(value(power(*b, minus(*x, lit(1))), env) == Some(pow(p, (k - 1) as nat)));
        assert(value(minus(e, power(*b, minus(*x, lit(1)))), env) == Some(pow(p, k) - pow(p, (k - 1) as nat)));
    }
}

} // verus!
