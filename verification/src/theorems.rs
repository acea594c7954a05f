//! Theorems of elementary number theory behind the rules: Euclid's lemma,
//! the binomial theorem and Fermat's little theorem.
use vstd::prelude::*;
use vstd::arithmetic::power::pow;
use crate::expr::{gcd, nat_abs, lemma_gcd_divides};
use crate::eval::{comb, factorial};
use crate::arith::{egcd, lemma_egcd};

verus! {

/// `p` is a prime: at least `2`, and no number from `2` to `p - 1` divides it.
pub open spec fn is_prime(p: int) -> bool {
    p >= 2 && forall|d: int| 2 <= d < p ==> #[trigger] (p % d) != 0
}

/// A number that a prime does not divide has gcd `1` with it.
pub proof fn lemma_prime_coprime(a: int, p: int)
    requires
        is_prime(p),
        a % p != 0,
    ensures
        gcd(nat_abs(a), p as nat) == 1,
{
    let g = gcd(nat_abs(a), p as nat);
    lemma_gcd_divides(nat_abs(a), p as nat);
    let kp = choose|k: nat| #[trigger] (g * k) == p as nat;
    let ka = choose|k: nat| #[trigger] (g * k) == nat_abs(a);
    assert(g >= 1) by (nonlinear_arith)
        requires
            g * kp == p,
            p >= 2,
    ;
    assert(g <= p) by (nonlinear_arith)
        requires
            g * kp == p,
            p >= 2,
            g >= 1,
    ;
    if 2 <= g as int && (g as int) < p {
        vstd::arithmetic::div_mod::lemma_mod_multiples_basic(kp as int, g as int);
        assert(((kp * g) as int) % (g as int) == 0);
        assert(kp * g == g * kp) by (nonlinear_arith);
        assert(p % (g as int) == 0);
        assert(false);
    }
    if g as int == p {
        vstd::arithmetic::div_mod::lemma_mod_multiples_basic(ka as int, p);
        assert(ka * p == g * ka) by (nonlinear_arith)
            requires
                g == p,
        ;
        assert((nat_abs(a) as int) % p == 0);
        if a < 0 {
            vstd::arithmetic::div_mod::lemma_mod_multiples_basic(-(ka as int), p);
            assert(-(ka as int) * p == a) by (nonlinear_arith)
                requires
                    ka * p == -a,
            ;
        }
        assert(false);
    }
}

/// Euclid's lemma: a prime that divides a product and not its first factor
/// divides the second.
pub proof fn lemma_euclid(a: int, b: int, p: int)
    requires
        is_prime(p),
        a % p != 0,
        (a * b) % p == 0,
    ensures
        b % p == 0,
{
    lemma_prime_coprime(a, p);
    lemma_egcd(a, p);
    let (g, x, y) = egcd(a, p);
    assert(g == 1 || g == -1);
    vstd::arithmetic::div_mod::lemma_fundamental_div_mod(a * b, p);
    let t = (a * b) / p;
    assert(a * b == p * t);
    assert(b * g == p * (t * x + b * y)) by (nonlinear_arith)
        requires
            a * x + p * y == g,
            a * b == p * t,
    ;
    vstd::arithmetic::div_mod::lemma_mod_multiples_basic(t * x + b * y, p);
    assert((p * (t * x + b * y)) % p == 0) by {
        assert(p * (t * x + b * y) == (t * x + b * y) * p) by (nonlinear_arith);
    }
    if g == 1 {
        assert(b * g == b);
    } else {
        assert(b * g == -b);
        assert(b == p * (-(t * x + b * y))) by (nonlinear_arith)
            requires
                -b == p * (t * x + b * y),
        ;
        vstd::arithmetic::div_mod::lemma_mod_multiples_basic(-(t * x + b * y), p);
        assert(p * (-(t * x + b * y)) == (-(t * x + b * y)) * p) by (nonlinear_arith);
    }
}


/// `C(n, k) · k! · (n - k)! = n!` for `0 <= k <= n`.
pub proof fn lemma_comb_factorials(n: nat, k: nat)
    requires
        k <= n,
    ensures
        comb(n, k as int) * factorial(k) * factorial((n - k) as nat) == factorial(n),
    decreases n,
{
    if k == 0 || k == n {
        assert(comb(n, k as int) == 1);
        if k == 0 {
            assert(factorial(0) == 1);
        } else {
            assert(factorial(0) == 1);
            assert((n - k) as nat == 0);
        }
    } else {
        let n1 = (n - 1) as nat;
        lemma_comb_factorials(n1, (k - 1) as nat);
        lemma_comb_factorials(n1, k);
        let a = comb(n1, k - 1);
        let b = comb(n1, k as int);
        let fk1 = factorial((k - 1) as nat);
        let fk = factorial(k);
        let fnk = factorial((n - k) as nat);
        let fnk1 = factorial((n - k - 1) as nat);
        let fn1 = factorial(n1);
        assert(comb(n, k as int) == a + b);
        assert(fk == k * fk1);
        assert(fnk == (n - k) * fnk1);
        assert(factorial(n) == n * fn1);
        assert(a * fk1 * fnk == fn1);
        assert(b * fk * fnk1 == fn1);
        assert((a + b) * fk * fnk == n * fn1) by (nonlinear_arith)
            requires
                fk == k * fk1,
                fnk == (n - k) * fnk1,
                a * fk1 * fnk == fn1,
                b * fk * fnk1 == fn1,
                0 < k < n,
        ;
    }
}

/// `k · C(n, k) = n · C(n - 1, k - 1)` for `1 <= k <= n`.
pub proof fn lemma_comb_absorption(n: nat, k: nat)
    requires
        1 <= k <= n,
    ensures
        k * comb(n, k as int) == n * comb((n - 1) as nat, k - 1),
{
    let n1 = (n - 1) as nat;
    let k1 = (k - 1) as nat;
    lemma_comb_factorials(n, k);
    lemma_comb_factorials(n1, k1);
    let c = comb(n, k as int);
    let d = comb(n1, k1 as int);
    let fk1 = factorial(k1);
    let fr = factorial((n - k) as nat);
    let fn1 = factorial(n1);
    assert(factorial(k) == k * fk1);
    assert(factorial(n) == n * fn1);
    assert((n1 - k1) as nat == (n - k) as nat);
    assert(c * (k * fk1) * fr == n * fn1);
    assert(d * fk1 * fr == fn1);
    lemma_factorial_positive(k1);
    lemma_factorial_positive((n - k) as nat);
    assert((k * c) * (fk1 * fr) == (n * d) * (fk1 * fr)) by (nonlinear_arith)
        requires
            c * (k * fk1) * fr == n * fn1,
            d * fk1 * fr == fn1,
    ;
    assert(fk1 * fr > 0) by (nonlinear_arith)
        requires
            fk1 > 0,
            fr > 0,
    ;
    let m = (fk1 * fr) as int;
    assert(m * ((k * c) as int) == m * ((n * d) as int)) by (nonlinear_arith)
        requires
            (k * c) * (fk1 * fr) == (n * d) * (fk1 * fr),
            m == fk1 * fr,
    ;
    vstd::arithmetic::mul::lemma_mul_equality_converse(m, (k * c) as int, (n * d) as int);
}

/// Factorials are positive.
pub proof fn lemma_factorial_positive(n: nat)
    ensures
        factorial(n) > 0,
    decreases n,
{
    if n > 0 {
        lemma_factorial_positive((n - 1) as nat);
        assert(n * factorial((n - 1) as nat) > 0) by (nonlinear_arith)
            requires
                n > 0,
                factorial((n - 1) as nat) > 0,
        ;
    }
}

/// A prime `p` divides `C(p, k)` for `0 < k < p`.
pub proof fn lemma_prime_divides_comb(p: int, k: int)
    requires
        is_prime(p),
        0 < k < p,
    ensures
        (comb(p as nat, k) as int) % p == 0,
{
    lemma_comb_absorption(p as nat, k as nat);
    let c = comb(p as nat, k) as int;
    let d = comb((p - 1) as nat, k - 1) as int;
    assert(k * c == p * d);
    vstd::arithmetic::div_mod::lemma_mod_multiples_basic(d, p);
    assert(p * d == d * p) by (nonlinear_arith);
    vstd::arithmetic::div_mod::lemma_small_mod(k as nat, p as nat);
    lemma_euclid(k, c, p);
}


/// `Σ_{j < m} C(n, j) · a^j`: the first `m` terms of the binomial expansion
/// of `(a + 1)^n`.
pub open spec fn binomial_terms(a: int, n: nat, m: nat) -> int
    decreases m,
{
    if m == 0 {
        0
    } else {
        binomial_terms(a, n, (m - 1) as nat) + comb(n, m - 1) * pow(a, (m - 1) as nat)
    }
}

/// Pascal's rule on partial sums: the terms of `(a + 1)^(n+1)` are those of
/// `(a + 1)^n` plus `a` times those of one fewer.
proof fn lemma_binomial_terms_step(a: int, n: nat, m: nat)
    ensures
        binomial_terms(a, n + 1, m + 1) == binomial_terms(a, n, m + 1) + a * binomial_terms(a, n, m),
    decreases m,
{
    reveal(pow);
    if m == 0 {
        assert(binomial_terms(a, n + 1, 0) == 0);
        assert(binomial_terms(a, n, 0) == 0);
        assert(binomial_terms(a, n + 1, 1) == comb(n + 1, 0) * pow(a, 0));
        assert(binomial_terms(a, n, 1) == comb(n, 0) * pow(a, 0));
    } else {
        let m1 = (m - 1) as nat;
        lemma_binomial_terms_step(a, n, m1);
        let pm1 = pow(a, m1);
        let pm = pow(a, m);
        assert(pm == a * pm1);
        crate::eval::lemma_comb_pascal(n + 1, m as int);
        let c1 = comb(n, m - 1);
        let c2 = comb(n, m as int);
        assert(comb(n + 1, m as int) == c1 + c2);
        let s_m1 = binomial_terms(a, n, m1);
        let s_m = binomial_terms(a, n, m);
        assert(s_m == s_m1 + c1 * pm1);
        assert(binomial_terms(a, n, m + 1) == s_m + c2 * pm);
        assert(binomial_terms(a, n + 1, m) == s_m + a * s_m1);
        assert(binomial_terms(a, n + 1, m + 1) == binomial_terms(a, n + 1, m) + (c1 + c2) * pm);
        assert(s_m + a * s_m1 + (c1 + c2) * pm == (s_m + c2 * pm) + a * (s_m1 + c1 * pm1))
            by (nonlinear_arith)
            requires
                pm == a * pm1,
        ;
    }
}

/// The binomial theorem: `(a + 1)^n = Σ_{j <= n} C(n, j) · a^j`.
pub proof fn lemma_binomial_theorem(a: int, n: nat)
    ensures
        pow(a + 1, n) == binomial_terms(a, n, n + 1),
    decreases n,
{
    reveal(pow);
    if n == 0 {
        assert(binomial_terms(a, 0, 0) == 0);
        assert(binomial_terms(a, 0, 1) == comb(0, 0) * pow(a, 0));
    } else {
        let n1 = (n - 1) as nat;
        lemma_binomial_theorem(a, n1);
        lemma_binomial_terms_step(a, n1, n);
        assert(comb(n1, n as int) == 0);
        assert(binomial_terms(a, n1, n + 1) == binomial_terms(a, n1, n) + comb(n1, n as int) * pow(a, n));
        assert(binomial_terms(a, n1, n + 1) == binomial_terms(a, n1, n));
        let s = binomial_terms(a, n1, n);
        assert(pow(a + 1, n) == (a + 1) * pow(a + 1, n1));
        assert((a + 1) * s == s + a * s) by (nonlinear_arith);
    }
}


/// Two numbers have the same remainder modulo `p` exactly when `p` divides
/// their difference.
pub proof fn lemma_congruent(x: int, y: int, p: int)
    requires
        p > 0,
    ensures
        (x % p == y % p) <==> ((x - y) % p == 0),
{
    vstd::arithmetic::div_mod::lemma_fundamental_div_mod(x, p);
    vstd::arithmetic::div_mod::lemma_fundamental_div_mod(y, p);
    vstd::arithmetic::div_mod::lemma_fundamental_div_mod(x - y, p);
    let qx = x / p;
    let qy = y / p;
    let qd = (x - y) / p;
    if x % p == y % p {
        assert(x - y == (qx - qy) * p) by (nonlinear_arith)
            requires
                x == p * qx + x % p,
                y == p * qy + y % p,
                x % p == y % p,
        ;
        vstd::arithmetic::div_mod::lemma_mod_multiples_basic(qx - qy, p);
    }
    if (x - y) % p == 0 {
        assert(x == p * qd + y) by (nonlinear_arith)
            requires
                x - y == p * qd + (x - y) % p,
                (x - y) % p == 0,
        ;
        vstd::arithmetic::div_mod::lemma_mod_multiples_vanish(qd, y, p);
    }
}

/// The inner terms of `(a + 1)^p` vanish modulo a prime `p`: the first `m`
/// terms, for `1 <= m <= p`, add up to `1` modulo `p`.
proof fn lemma_binomial_terms_mod_prime(a: int, p: int, m: nat)
    requires
        is_prime(p),
        1 <= m <= p,
    ensures
        (binomial_terms(a, p as nat, m) - 1) % p == 0,
    decreases m,
{
    if m == 1 {
        reveal(pow);
        assert(binomial_terms(a, p as nat, 0) == 0);
        assert(binomial_terms(a, p as nat, 1) == comb(p as nat, 0) * pow(a, 0));
        assert(binomial_terms(a, p as nat, 1) - 1 == 0);
    } else {
        let m1 = (m - 1) as nat;
        lemma_binomial_terms_mod_prime(a, p, m1);
        lemma_prime_divides_comb(p, m1 as int);
        let t = binomial_terms(a, p as nat, m1);
        let c = comb(p as nat, m1 as int) as int;
        let w = pow(a, m1);
        vstd::arithmetic::div_mod::lemma_fundamental_div_mod(t - 1, p);
        vstd::arithmetic::div_mod::lemma_fundamental_div_mod(c, p);
        let q1 = (t - 1) / p;
        let q2 = c / p;
        assert(binomial_terms(a, p as nat, m) - 1 == (q1 + q2 * w) * p) by (nonlinear_arith)
            requires
                binomial_terms(a, p as nat, m) == t + c * w,
                t - 1 == p * q1 + (t - 1) % p,
                (t - 1) % p == 0,
                c == p * q2 + c % p,
                c % p == 0,
        ;
        vstd::arithmetic::div_mod::lemma_mod_multiples_basic(q1 + q2 * w, p);
    }
}

/// `a^p ≡ a (mod p)` for a prime `p` and a natural `a`.
proof fn lemma_fermat_natural(a: nat, p: int)
    requires
        is_prime(p),
    ensures
        (pow(a as int, p as nat) - a) % p == 0,
    decreases a,
{
    if a == 0 {
        vstd::arithmetic::power::lemma0_pow(p as nat);
        vstd::arithmetic::div_mod::lemma_small_mod(0, p as nat);
    } else {
        let b = (a - 1) as nat;
        lemma_fermat_natural(b, p);
        lemma_binomial_theorem(b as int, p as nat);
        lemma_binomial_terms_mod_prime(b as int, p, p as nat);
        let t = binomial_terms(b as int, p as nat, p as nat);
        let w = pow(b as int, p as nat);
        assert(comb(p as nat, p) == 1);
        assert(binomial_terms(b as int, p as nat, (p + 1) as nat) == t + comb(p as nat, p) * w);
        assert(pow(a as int, p as nat) == t + w);
        vstd::arithmetic::div_mod::lemma_fundamental_div_mod(t - 1, p);
        vstd::arithmetic::div_mod::lemma_fundamental_div_mod(w - b, p);
        let q1 = (t - 1) / p;
        let q2 = (w - b) / p;
        assert(pow(a as int, p as nat) - a == (q1 + q2) * p) by (nonlinear_arith)
            requires
                pow(a as int, p as nat) == t + w,
                a == b + 1,
                t - 1 == p * q1 + (t - 1) % p,
                (t - 1) % p == 0,
                w - b == p * q2 + (w - b) % p,
                (w - b) % p == 0,
        ;
        vstd::arithmetic::div_mod::lemma_mod_multiples_basic(q1 + q2, p);
    }
}

/// Fermat: `a^p ≡ a (mod p)` for a prime `p` and every integer `a`.
pub proof fn lemma_fermat(a: int, p: int)
    requires
        is_prime(p),
    ensures
        pow(a, p as nat) % p == a % p,
{
    let r = a % p;
    lemma_fermat_natural(r as nat, p);
    lemma_congruent(pow(r, p as nat), r, p);
    vstd::arithmetic::power::lemma_pow_mod_noop(a, p as nat, p);
    vstd::arithmetic::div_mod::lemma_mod_twice(a, p);
}

/// Fermat's little theorem: `a^(p-1) ≡ 1 (mod p)` for a prime `p` that does
/// not divide `a`.
pub proof fn lemma_fermat_little(a: int, p: int)
    requires
        is_prime(p),
        a % p != 0,
    ensures
        pow(a, (p - 1) as nat) % p == 1,
{
    lemma_fermat(a, p);
    let w = pow(a, (p - 1) as nat);
    vstd::arithmetic::power::lemma_pow_adds(a, (p - 1) as nat, 1);
    vstd::arithmetic::power::lemma_pow1(a);
    assert(pow(a, p as nat) == w * a);
    lemma_congruent(w * a, a, p);
    assert(w * a - a == a * (w - 1)) by (nonlinear_arith);
    lemma_euclid(a, w - 1, p);
    lemma_congruent(w, 1, p);
    vstd::arithmetic::div_mod::lemma_small_mod(1, p as nat);
}


/// `Σ_{k=0}^{h} C(m, k)·C(n, r - k)`.
pub open spec fn convolution(m: nat, n: nat, r: int, h: int) -> int
    decreases h + 1,
{
    if h < 0 {
        0
    } else {
        convolution(m, n, r, h - 1) + comb(m, h) * comb(n, r - h)
    }
}

/// Splitting the convolution of `C(m + 1, ·)` by Pascal's rule.
proof fn lemma_convolution_step(m: nat, n: nat, r: int, h: int)
    requires
        h >= -1,
    ensures
        convolution(m + 1, n, r, h) == convolution(m, n, r, h) + convolution(m, n, r - 1, h - 1),
    decreases h + 1,
{
    if h >= 0 {
        lemma_convolution_step(m, n, r, h - 1);
        crate::eval::lemma_comb_pascal(m + 1, h);
        assert(comb(m + 1, h) == comb(m, h - 1) + comb(m, h));
        if h == 0 {
            assert(convolution(m, n, r - 1, -1) == 0);
            assert(convolution(m, n, r, -1) == 0);
            assert(convolution(m + 1, n, r, -1) == 0);
            assert(comb(m, -1) == 0);
        } else {
            assert(convolution(m, n, r - 1, h - 1) == convolution(m, n, r - 1, h - 2) + comb(m, h - 1) * comb(
                n,
                (r - 1) - (h - 1),
            ));
        }
        assert((comb(m, h - 1) + comb(m, h)) * comb(n, r - h) == comb(m, h - 1) * comb(n, r - h) + comb(m, h) * comb(n, r - h))
            by (nonlinear_arith);
    } else {
        assert(convolution(m, n, r - 1, -2) == 0);
    }
}

/// With `m = 0` only the first term is left.
proof fn lemma_convolution_zero(n: nat, r: int, h: int)
    requires
        h >= 0,
    ensures
        convolution(0, n, r, h) == comb(n, r),
    decreases h,
{
    assert(convolution(0, n, r, -1) == 0);
    if h > 0 {
        lemma_convolution_zero(n, r, h - 1);
        assert(comb(0, h) == 0);
        assert(convolution(0, n, r, h) == convolution(0, n, r, h - 1) + comb(0, h) * comb(n, r - h));
    } else {
        assert(comb(0, 0) == 1);
        assert(convolution(0, n, r, 0) == convolution(0, n, r, -1) + comb(0, 0) * comb(n, r));
    }
}

/// Vandermonde's identity: `Σ_{k=0}^{r} C(m, k)·C(n, r - k) = C(m + n, r)`.
pub proof fn lemma_vandermonde(m: nat, n: nat, r: int)
    requires
        r >= 0,
    ensures
        convolution(m, n, r, r) == comb(m + n, r),
    decreases m, r,
{
    if m == 0 {
        lemma_convolution_zero(n, r, r);
    } else {
        let m1 = (m - 1) as nat;
        lemma_convolution_step(m1, n, r, r);
        lemma_vandermonde(m1, n, r);
        if r >= 1 {
            lemma_vandermonde(m1, n, r - 1);
            crate::eval::lemma_comb_pascal(m + n, r);
        } else {
            assert(convolution(m1, n, r - 1, -1) == 0);
            assert(comb(m + n, 0) == 1);
            assert(comb((m1 + n) as nat, 0) == 1);
        }
    }
}


/// `Σ_{j < m} C(n, j)·a^j·b^(n - j)`: the first `m` terms of the expansion
/// of `(a + b)^n`.
pub open spec fn expansion_terms(a: int, b: int, n: nat, m: nat) -> int
    decreases m,
{
    if m == 0 {
        0
    } else {
        expansion_terms(a, b, n, (m - 1) as nat) + comb(n, m - 1) * (pow(a, (m - 1) as nat) * pow(
            b,
            (n - (m - 1)) as nat,
        ))
    }
}

/// Pascal's rule on partial expansions: the terms of `(a + b)^(n+1)` are
/// `b` times those of `(a + b)^n` plus `a` times one fewer of them.
proof fn lemma_expansion_terms_step(a: int, b: int, n: nat, m: nat)
    requires
        m <= n + 1,
    ensures
        expansion_terms(a, b, n + 1, m + 1) == b * expansion_terms(a, b, n, m + 1) + a * expansion_terms(a, b, n, m),
    decreases m,
{
    reveal(pow);
    if m == 0 {
        assert(expansion_terms(a, b, n + 1, 0) == 0);
        assert(expansion_terms(a, b, n, 0) == 0);
        assert(expansion_terms(a, b, n + 1, 1) == comb(n + 1, 0) * (pow(a, 0) * pow(b, n + 1)));
        assert(expansion_terms(a, b, n, 1) == comb(n, 0) * (pow(a, 0) * pow(b, n)));
        assert(pow(b, n + 1) == b * pow(b, n));
    } else {
        let m1 = (m - 1) as nat;
        lemma_expansion_terms_step(a, b, n, m1);
        let c1 = comb(n, m - 1);
        let c2 = comb(n, m as int);
        crate::eval::lemma_comb_pascal(n + 1, m as int);
        assert(comb(n + 1, m as int) == c1 + c2);
        let am1 = pow(a, m1);
        let am = pow(a, m);
        assert(am == a * am1);
        let s_m1 = expansion_terms(a, b, n, m1);
        let s_m = expansion_terms(a, b, n, m);
        let bn1 = pow(b, (n - m1) as nat);
        assert(s_m == s_m1 + c1 * (am1 * bn1));
        let t1 = pow(b, (n + 1 - m) as nat);
        assert(expansion_terms(a, b, n + 1, m + 1) == expansion_terms(a, b, n + 1, m) + (c1 + c2) * (am * t1));
        assert(expansion_terms(a, b, n + 1, m) == b * s_m + a * s_m1);
        if m <= n {
            let bn = pow(b, (n - m) as nat);
            assert(expansion_terms(a, b, n, m + 1) == s_m + c2 * (am * bn));
            assert(t1 == b * bn);
            assert(t1 == bn1);
            assert(c2 * (am * t1) == b * (c2 * (am * bn))) by (nonlinear_arith)
                requires
                    t1 == b * bn,
            ;
            assert(c1 * (am * t1) == a * (c1 * (am1 * bn1))) by (nonlinear_arith)
                requires
                    am == a * am1,
                    t1 == bn1,
            ;
            assert((c1 + c2) * (am * t1) == c1 * (am * t1) + c2 * (am * t1)) by (nonlinear_arith);
            assert(b * (s_m + c2 * (am * bn)) == b * s_m + b * (c2 * (am * bn))) by (nonlinear_arith);
            assert(a * (s_m1 + c1 * (am1 * bn1)) == a * s_m1 + a * (c1 * (am1 * bn1))) by (nonlinear_arith);
        } else {
            assert(m == n + 1);
            assert(c2 == 0);
            assert(t1 == 1);
            assert(bn1 == 1);
            assert(expansion_terms(a, b, n, m + 1) == s_m + c2 * (am * pow(b, (n - m) as nat)));
            assert(c2 * (am * pow(b, (n - m) as nat)) == 0);
            assert((c1 + c2) * (am * t1) == c1 * am) by (nonlinear_arith)
                requires
                    c2 == 0,
                    t1 == 1,
            ;
            assert(c1 * (am1 * bn1) == c1 * am1) by (nonlinear_arith)
                requires
                    bn1 == 1,
            ;
            assert(c1 * am == a * (c1 * am1)) by (nonlinear_arith)
                requires
                    am == a * am1,
            ;
            assert(a * (s_m1 + c1 * am1) == a * s_m1 + a * (c1 * am1)) by (nonlinear_arith);
        }
    }
}

/// The binomial theorem: `(a + b)^n = Σ_{j <= n} C(n, j)·a^j·b^(n - j)`.
pub proof fn lemma_binomial_expansion(a: int, b: int, n: nat)
    ensures
        pow(a + b, n) == expansion_terms(a, b, n, n + 1),
    decreases n,
{
    reveal(pow);
    if n == 0 {
        assert(expansion_terms(a, b, 0, 0) == 0);
        assert(expansion_terms(a, b, 0, 1) == comb(0, 0) * (pow(a, 0) * pow(b, 0)));
    } else {
        let n1 = (n - 1) as nat;
        lemma_binomial_expansion(a, b, n1);
        lemma_expansion_terms_step(a, b, n1, n);
        let s = expansion_terms(a, b, n1, n);
        assert(comb(n1, n as int) == 0);
        assert(expansion_terms(a, b, n1, n + 1) == s + comb(n1, n as int) * (pow(a, n) * pow(b, (n1 - n) as nat)));
        assert(pow(a + b, n) == (a + b) * pow(a + b, n1));
        assert((a + b) * s == b * s + a * s) by (nonlinear_arith);
    }
}

/// `Σ_{k=0}^{h} x^(top - k)·y^k`.
pub open spec fn power_difference_terms(x: int, y: int, top: nat, h: int) -> int
    decreases h + 1,
{
    if h < 0 {
        0
    } else {
        power_difference_terms(x, y, top, h - 1) + pow(x, (top - h) as nat) * pow(y, h as nat)
    }
}

/// The sum telescopes against `x - y`: `(x - y)·Σ_{k=0}^{h} x^(top-k)·y^k =
/// x^(top+1) - x^(top-h)·y^(h+1)`; at `h = top` it is `x^(top+1) - y^(top+1)`.
pub proof fn lemma_power_difference(x: int, y: int, top: nat, h: int)
    requires
        -1 <= h <= top,
    ensures
        (x - y) * power_difference_terms(x, y, top, h) == pow(x, top + 1) - pow(x, (top - h) as nat) * pow(
            y,
            (h + 1) as nat,
        ),
    decreases h + 1,
{
    reveal(pow);
    if h < 0 {
        assert(pow(y, 0) == 1);
        assert((top - h) as nat == top + 1);
    } else {
        lemma_power_difference(x, y, top, h - 1);
        let t = power_difference_terms(x, y, top, h - 1);
        let a = pow(x, (top - h) as nat);
        let b = pow(y, h as nat);
        assert(pow(x, (top - (h - 1)) as nat) == x * a);
        assert(pow(y, (h + 1) as nat) == y * b);
        let p = pow(x, top + 1);
        assert((x - y) * (t + a * b) == p - a * (y * b)) by (nonlinear_arith)
            requires
                (x - y) * t == p - (x * a) * b,
        ;
    }
}

} // verus!
