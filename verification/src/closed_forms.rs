//! The closed forms that the rules write down are right: the series sums,
//! the Catalan numbers and the Legendre symbol by Euler's criterion.
use vstd::prelude::*;
use vstd::arithmetic::power::pow;
use crate::expr::{Expr, Symbol, lit, plus, minus, times, over, power};
use crate::eval::{value, lemma_square, lemma_exact_div, comb, factorial, lemma_comb_symmetric, lemma_comb_pascal};
use crate::combinatorics::{self, CombinatoricsRule};
use crate::theorems::{lemma_comb_absorption, lemma_comb_factorials, is_prime, lemma_fermat_little, lemma_euclid};
use crate::expr::{binom, fact};
use crate::symbols::named;
use crate::number_theory::{self, NumberTheoryRule};
use crate::polynomials::{self, PolynomialRule};
use crate::eval::holds;
use crate::soundness::all_hold;
use crate::expr::{negate, root};
use crate::eval::{square_root, lemma_square_root_found};
use crate::symbols::intern_symbol;

verus! {

/// `1^k + 2^k + … + n^k`, and `0` for `n <= 0`.
pub open spec fn power_sum(n: int, k: nat) -> int
    decreases n,
{
    if n <= 0 {
        0
    } else {
        power_sum(n - 1, k) + pow(n, k)
    }
}

/// `1 + r + r² + … + r^n`, and `0` for `n < 0`.
pub open spec fn geometric_series(r: int, n: int) -> int
    decreases n + 1,
{
    if n < 0 {
        0
    } else {
        geometric_series(r, n - 1) + pow(r, n as nat)
    }
}

/// The right side of the single equation among `rs` has the value `v`.
pub open spec fn states_value(rs: Seq<(Expr, Seq<char>)>, env: spec_fn(Symbol) -> int, v: int) -> bool {
    &&& rs.len() == 1
    &&& rs[0].0 matches Expr::Equation { rhs, .. } && value(*rhs, env) == Some(v)
}

proof fn lemma_sum_first_powers(n: int)
    requires
        n >= 0,
    ensures
        2 * power_sum(n, 1) == n * (n + 1),
        6 * power_sum(n, 2) == n * (n + 1) * (2 * n + 1),
        4 * power_sum(n, 3) == (n * (n + 1)) * (n * (n + 1)),
    decreases n,
{
    if n > 0 {
        lemma_sum_first_powers(n - 1);
        vstd::arithmetic::power::lemma_pow1(n);
        lemma_square(n);
        let s1 = power_sum(n - 1, 1);
        let s2 = power_sum(n - 1, 2);
        let s3 = power_sum(n - 1, 3);
        assert(2 * (s1 + n) == n * (n + 1)) by (nonlinear_arith)
            requires
                2 * s1 == (n - 1) * n,
        ;
        assert(6 * (s2 + n * n) == n * (n + 1) * (2 * n + 1)) by (nonlinear_arith)
            requires
                6 * s2 == (n - 1) * n * (2 * (n - 1) + 1),
        ;
        assert(4 * (s3 + n * n * n) == (n * (n + 1)) * (n * (n + 1))) by (nonlinear_arith)
            requires
                4 * s3 == ((n - 1) * n) * ((n - 1) * n),
        ;
    }
}

/// The series rules state the sums: for every value `n >= 0` of the
/// variable `n`, the right side of the equation that the arithmetic-series,
/// sum-of-squares and sum-of-cubes rules give is `1^k + … + n^k` for `k` = 1,
/// 2 and 3.
pub proof fn lemma_power_sum_rules(e: Expr, env: spec_fn(Symbol) -> int)
    requires
        env(intern_symbol("n")) >= 0,
    ensures
        states_value(number_theory::results(NumberTheoryRule::SumArithmetic, e), env, power_sum(env(intern_symbol("n")), 1)),
        states_value(number_theory::results(NumberTheoryRule::SumSquares, e), env, power_sum(env(intern_symbol("n")), 2)),
        states_value(number_theory::results(NumberTheoryRule::SumCubes, e), env, power_sum(env(intern_symbol("n")), 3)),
{
    let nv = env(intern_symbol("n"));
    lemma_sum_first_powers(nv);
    let s1 = power_sum(nv, 1);
    let s2 = power_sum(nv, 2);
    let s3 = power_sum(nv, 3);
    assert(value(lit(1), env) == Some(1int));
    assert(value(lit(2), env) == Some(2int));
    assert(value(lit(6), env) == Some(6int));
    lemma_exact_div(s1, 2);
    lemma_exact_div(s2, 6);
    assert(nv * (nv + 1) * (2 * nv + 1) == (nv * (nv + 1)) * (2 * nv + 1));
    lemma_square(s1);
    assert(s3 == s1 * s1) by (nonlinear_arith)
        requires
            2 * s1 == nv * (nv + 1),
            4 * s3 == (nv * (nv + 1)) * (nv * (nv + 1)),
    ;
    let n = Expr::Var(intern_symbol("n"));
    let pair = times(n, plus(n, lit(1)));
    assert(value(n, env) == Some(nv));
    assert(value(plus(n, lit(1)), env) == Some(nv + 1));
    assert(value(pair, env) == Some(nv * (nv + 1)));
    assert(value(over(pair, lit(2)), env) == Some(s1));
    let third = plus(times(lit(2), n), lit(1));
    assert(value(times(lit(2), n), env) == Some(2 * nv));
    assert(value(third, env) == Some(2 * nv + 1));
    assert(value(times(pair, third), env) == Some((nv * (nv + 1)) * (2 * nv + 1)));
    assert(value(over(times(pair, third), lit(6)), env) == Some(s2));
    assert(value(power(over(pair, lit(2)), lit(2)), env) == Some(s1 * s1));
}

/// `(r - 1)·(1 + r + … + r^n) = r^(n+1) - 1`.
proof fn lemma_geometric(r: int, n: int)
    requires
        n >= -1,
    ensures
        (r - 1) * geometric_series(r, n) == pow(r, (n + 1) as nat) - 1,
    decreases n + 1,
{
    vstd::arithmetic::power::lemma_pow0(r);
    if n >= 0 {
        lemma_geometric(r, n - 1);
        let g = geometric_series(r, n - 1);
        let a = pow(r, n as nat);
        vstd::arithmetic::power::lemma_pow_adds(r, n as nat, 1);
        vstd::arithmetic::power::lemma_pow1(r);
        assert(pow(r, (n + 1) as nat) == a * r);
        assert((r - 1) * (g + a) == a * r - 1) by (nonlinear_arith)
            requires
                (r - 1) * g == a - 1,
        ;
    }
}

/// The geometric-series rule states the sum: for values `r != 1` and
/// `n >= 0` of its variables, the right side of its equation is
/// `1 + r + … + r^n`.
pub proof fn lemma_geometric_sum_rule(e: Expr, env: spec_fn(Symbol) -> int)
    requires
        env(intern_symbol("n")) >= 0,
        env(intern_symbol("r")) != 1,
    ensures
        states_value(
            number_theory::results(NumberTheoryRule::GeometricSum, e),
            env,
            geometric_series(env(intern_symbol("r")), env(intern_symbol("n"))),
        ),
{
    let nv = env(intern_symbol("n"));
    let rv = env(intern_symbol("r"));
    lemma_geometric(rv, nv);
    let g = geometric_series(rv, nv);
    assert(value(lit(1), env) == Some(1int));
    lemma_exact_div(g, rv - 1);
    assert((rv - 1) * g == g * (rv - 1)) by (nonlinear_arith);
    let r = Expr::Var(intern_symbol("r"));
    let n = Expr::Var(intern_symbol("n"));
    assert(value(r, env) == Some(rv));
    assert(value(n, env) == Some(nv));
    assert(value(plus(n, lit(1)), env) == Some(nv + 1));
    assert(value(power(r, plus(n, lit(1))), env) == Some(pow(rv, (nv + 1) as nat)));
    assert(value(minus(power(r, plus(n, lit(1))), lit(1)), env) == Some((rv - 1) * g));
    assert(value(minus(r, lit(1)), env) == Some(rv - 1));
    assert(value(over(minus(power(r, plus(n, lit(1))), lit(1)), minus(r, lit(1))), env) == Some(g));
}

/// The `n`-th Catalan number, counted by reflection: the lattice paths
/// `C(2n, n)` less the bad ones `C(2n, n + 1)`.
pub open spec fn catalan(n: nat) -> int {
    comb(2 * n, n as int) - comb(2 * n, n as int + 1)
}

/// `(n + 1)·catalan(n) = C(2n, n)`.
pub proof fn lemma_catalan_times_successor(n: nat)
    ensures
        (n + 1) * catalan(n) == comb(2 * n, n as int),
        catalan(n) >= 0,
{
    let c = comb(2 * n, n as int);
    let d = comb(2 * n, n as int + 1);
    if n >= 1 {
        lemma_comb_absorption(2 * n, n + 1);
        lemma_comb_absorption(2 * n, n);
        lemma_comb_symmetric((2 * n - 1) as nat, n as int);
        assert((2 * n - 1) as nat - n == n - 1);
        let e = comb((2 * n - 1) as nat, n as int);
        assert((n + 1) * d == 2 * n * e);
        assert(n * c == 2 * n * e);
    } else {
        assert(d == 0);
    }
    assert((n + 1) * d == n * c);
    assert((n + 1) * (c - d) == c) by (nonlinear_arith)
        requires
            (n + 1) * d == n * c,
    ;
    assert(c - d >= 0) by (nonlinear_arith)
        requires
            (n + 1) * (c - d) == c,
            c >= 0,
    ;
}

/// The Catalan closed forms state the Catalan numbers: applied to a
/// variable `s` of value `n >= 0`, the Catalan rules give `s = C(2s, s)/(s + 1)`,
/// whose right side is `catalan(n)`; and the alternative form
/// `(2n)!/(n!·(n+1)!)` is `catalan(n)` for the value `n >= 0` of `n`.
pub proof fn lemma_catalan_rules(s: Symbol, env: spec_fn(Symbol) -> int)
    requires
        env(s) >= 0,
        env(intern_symbol("n")) >= 0,
    ensures
        states_value(combinatorics::results(CombinatoricsRule::CatalanFormula, Expr::Var(s)), env, catalan(env(s) as nat)),
        states_value(combinatorics::results(CombinatoricsRule::Catalan, Expr::Var(s)), env, catalan(env(s) as nat)),
        states_value(
            combinatorics::results(CombinatoricsRule::CatalanAlternative, Expr::Var(s)),
            env,
            catalan(env(intern_symbol("n")) as nat),
        ),
{
    let nv = env(s) as nat;
    let v = Expr::Var(s);
    lemma_catalan_times_successor(nv);
    let c = catalan(nv);
    assert(value(lit(2), env) == Some(2int));
    assert(value(lit(1), env) == Some(1int));
    assert(value(v, env) == Some(nv as int));
    assert(value(times(lit(2), v), env) == Some(2 * (nv as int)));
    assert(value(binom(times(lit(2), v), v), env) == Some(comb(2 * nv, nv as int) as int));
    assert(value(plus(v, lit(1)), env) == Some(nv as int + 1));
    lemma_exact_div(c, nv as int + 1);
    assert(comb(2 * nv, nv as int) == c * (nv + 1)) by (nonlinear_arith)
        requires
            (nv + 1) * c == comb(2 * nv, nv as int),
    ;
    assert(value(over(binom(times(lit(2), v), v), plus(v, lit(1))), env) == Some(c));
    let m = env(intern_symbol("n")) as nat;
    let n = named("n");
    lemma_catalan_times_successor(m);
    let cm = catalan(m);
    lemma_comb_factorials(2 * m, m);
    assert((2 * m - m) as nat == m);
    let f = factorial(m);
    assert(factorial(m + 1) == (m + 1) * f);
    let cc = comb(2 * m, m as int);
    assert(factorial(2 * m) == cm * (f * ((m + 1) * f))) by (nonlinear_arith)
        requires
            cc * f * f == factorial(2 * m),
            (m + 1) * cm == cc,
    ;
    assert(value(n, env) == Some(m as int));
    assert(value(times(lit(2), n), env) == Some(2 * (m as int)));
    assert(value(fact(times(lit(2), n)), env) == Some(factorial(2 * m) as int));
    assert(value(fact(n), env) == Some(f as int));
    assert(value(plus(n, lit(1)), env) == Some(m as int + 1));
    assert(value(fact(plus(n, lit(1))), env) == Some(factorial(m + 1) as int));
    let den = f * factorial(m + 1);
    assert(value(times(fact(n), fact(plus(n, lit(1)))), env) == Some(den as int));
    crate::theorems::lemma_factorial_positive(m);
    assert(den > 0) by (nonlinear_arith)
        requires
            f > 0,
            factorial(m + 1) == (m + 1) * f,
            den == f * factorial(m + 1),
    ;
    lemma_exact_div(cm, den as int);
    assert(factorial(2 * m) == den * cm) by (nonlinear_arith)
        requires
            factorial(2 * m) == cm * (f * ((m + 1) * f)),
            den == f * factorial(m + 1),
            factorial(m + 1) == (m + 1) * f,
    ;
}

/// For a prime `p` not dividing `a`, `a^((p-1)/2)` is `1` or `-1` modulo `p`.
proof fn lemma_half_power_is_sign(a: int, p: int)
    requires
        is_prime(p),
        a % p != 0,
    ensures
        pow(a, ((p - 1) / 2) as nat) % p == 1 || pow(a, ((p - 1) / 2) as nat) % p == p - 1,
{
    let h = ((p - 1) / 2) as nat;
    let x = pow(a, h);
    if p == 2 {
        vstd::arithmetic::power::lemma_pow0(a);
        vstd::arithmetic::div_mod::lemma_small_mod(1, 2);
    } else {
        assert(p % 2 != 0);
        assert(2 * h == p - 1);
        vstd::arithmetic::power::lemma_pow_adds(a, h, h);
        assert(x * x == pow(a, (p - 1) as nat));
        lemma_fermat_little(a, p);
        vstd::arithmetic::div_mod::lemma_fundamental_div_mod(x * x, p);
        let q = (x * x) / p;
        assert(((x - 1) * (x + 1)) == p * q) by (nonlinear_arith)
            requires
                x * x == p * q + 1,
        ;
        vstd::arithmetic::div_mod::lemma_mod_multiples_basic(q, p);
        assert(((x - 1) * (x + 1)) % p == 0) by {
            assert(p * q == q * p) by (nonlinear_arith);
        }
        if (x - 1) % p != 0 {
            lemma_euclid(x - 1, x + 1, p);
            vstd::arithmetic::div_mod::lemma_mod_add_multiples_vanish(x + 1, p);
            vstd::arithmetic::div_mod::lemma_fundamental_div_mod(x + 1, p);
            vstd::arithmetic::div_mod::lemma_fundamental_div_mod(x, p);
            vstd::arithmetic::div_mod::lemma_mod_bound(x, p);
            assert(x % p == p - 1) by (nonlinear_arith)
                requires
                    x + 1 == p * ((x + 1) / p),
                    x == p * (x / p) + x % p,
                    0 <= x % p < p,
                    p >= 2,
            ;
        } else {
            vstd::arithmetic::div_mod::lemma_fundamental_div_mod(x - 1, p);
            vstd::arithmetic::div_mod::lemma_fundamental_div_mod(x, p);
            vstd::arithmetic::div_mod::lemma_mod_bound(x, p);
            assert(x % p == 1) by (nonlinear_arith)
                requires
                    x - 1 == p * ((x - 1) / p),
                    x == p * (x / p) + x % p,
                    0 <= x % p < p,
                    p >= 3,
            ;
        }
    }
}

/// A prime dividing `a` divides every positive power of it.
proof fn lemma_prime_divides_power(a: int, p: int, k: nat)
    requires
        p >= 2,
        a % p == 0,
        k >= 1,
    ensures
        pow(a, k) % p == 0,
    decreases k,
{
    vstd::arithmetic::power::lemma_pow1(a);
    if k > 1 {
        lemma_prime_divides_power(a, p, (k - 1) as nat);
        vstd::arithmetic::power::lemma_pow_adds(a, (k - 1) as nat, 1);
        vstd::arithmetic::div_mod::lemma_mul_mod_noop(pow(a, (k - 1) as nat), a, p);
        vstd::arithmetic::div_mod::lemma_small_mod(0, p as nat);
        assert(pow(a, k) == pow(a, (k - 1) as nat) * a);
    }
}

/// The Legendre symbol rule answers by Euler's criterion: applied to
/// `a mod p` for constants with a prime `p`, its one result is `-1`, `0` or
/// `1`; it is `0` exactly when `p` divides `a` (for an odd `p`); and it is
/// congruent to `a^((p-1)/2)` modulo `p`.
pub proof fn lemma_legendre_rule(e: Expr, env: spec_fn(Symbol) -> int)
    requires
        e matches Expr::Mod(a, p) && *a is Const && (*p matches Expr::Const(pv) && is_prime(pv.num as int)),
    ensures
        ({
            let rs = number_theory::results(NumberTheoryRule::LegendreSymbolCompute, e);
            e matches Expr::Mod(a, p) && *a matches Expr::Const(av) && (*p matches Expr::Const(pv) && {
                let an = av.num as int;
                let pn = pv.num as int;
                &&& rs.len() == 1
                &&& value(rs[0].0, env) matches Some(l) && {
                    &&& -1 <= l <= 1
                    &&& (l - pow(an, ((pn - 1) / 2) as nat)) % pn == 0
                    &&& (pn > 2 ==> (l == 0 <==> an % pn == 0))
                }
            })
        }),
{
    if let Expr::Mod(a, p) = e {
        if let (Expr::Const(av), Expr::Const(pv)) = (*a, *p) {
            let an = av.num as int;
            let pn = pv.num as int;
            let h = ((pn - 1) / 2) as nat;
            let x = pow(an, h);
            crate::arith::lemma_legendre(an, pn);
            let l = crate::arith::legendre(an, pn);
            assert(value(lit(l as i64), env) == Some(l));
            vstd::arithmetic::div_mod::lemma_fundamental_div_mod(x, pn);
            vstd::arithmetic::div_mod::lemma_mod_bound(x, pn);
            let q = x / pn;
            if an % pn == 0 && pn > 2 {
                lemma_prime_divides_power(an, pn, h);
            }
            if an % pn != 0 {
                lemma_half_power_is_sign(an, pn);
            }
            if x % pn == 0 {
                assert(l == 0);
                assert(l - x == pn * (-q)) by (nonlinear_arith)
                    requires
                        x == pn * q + x % pn,
                        x % pn == 0,
                        l == 0,
                ;
            } else if x % pn == 1 {
                assert(l == 1);
                assert(l - x == pn * (-q)) by (nonlinear_arith)
                    requires
                        x == pn * q + x % pn,
                        x % pn == 1,
                        l == 1,
                ;
            } else {
                if an % pn == 0 {
                    assert(pn == 2);
                    vstd::arithmetic::power::lemma_pow0(an);
                    vstd::arithmetic::div_mod::lemma_small_mod(1, 2);
                }
                assert(x % pn == pn - 1);
                assert(l == -1);
                assert(l - x == pn * (-q - 1)) by (nonlinear_arith)
                    requires
                        x == pn * q + x % pn,
                        x % pn == pn - 1,
                        l == -1,
                ;
            }
            let w = (l - x) / pn;
            vstd::arithmetic::div_mod::lemma_mod_multiples_basic(if x % pn == 0 || x % pn == 1 { -q } else { -q - 1 }, pn);
            assert(pn * (-q) == (-q) * pn) by (nonlinear_arith);
            assert(pn * (-q - 1) == (-q - 1) * pn) by (nonlinear_arith);
            if pn > 2 && an % pn != 0 {
                assert(l != 0);
            }
        }
    }
}

/// The counting formulas state the counts: for values `0 <= k <= n` of the
/// variables `n` and `k`, the permutation formulas give `n!/(n-k)!`, which
/// is `k!·C(n, k)` (the ordered choices of `k` out of `n`), and the
/// combination formula gives `n!/(k!(n-k)!)`, which is `C(n, k)`.
pub proof fn lemma_counting_formulas(e: Expr, env: spec_fn(Symbol) -> int)
    requires
        0 <= env(intern_symbol("k")) <= env(intern_symbol("n")),
    ensures
        states_value(
            combinatorics::results(CombinatoricsRule::PermutationFormula, e),
            env,
            (factorial(env(intern_symbol("k")) as nat) * comb(env(intern_symbol("n")) as nat, env(intern_symbol("k")))) as int,
        ),
        states_value(
            combinatorics::results(CombinatoricsRule::AdvancedPermutationFormula, e),
            env,
            (factorial(env(intern_symbol("k")) as nat) * comb(env(intern_symbol("n")) as nat, env(intern_symbol("k")))) as int,
        ),
        states_value(
            combinatorics::results(CombinatoricsRule::CombinationFormula, e),
            env,
            comb(env(intern_symbol("n")) as nat, env(intern_symbol("k"))) as int,
        ),
{
    let nv = env(intern_symbol("n")) as nat;
    let kv = env(intern_symbol("k")) as nat;
    let n = named("n");
    let k = named("k");
    lemma_comb_factorials(nv, kv);
    let c = comb(nv, kv as int);
    let fk = factorial(kv);
    let fr = factorial((nv - kv) as nat);
    crate::theorems::lemma_factorial_positive(kv);
    crate::theorems::lemma_factorial_positive((nv - kv) as nat);
    assert(value(n, env) == Some(nv as int));
    assert(value(k, env) == Some(kv as int));
    assert(value(minus(n, k), env) == Some(nv as int - kv as int));
    assert(value(fact(n), env) == Some(factorial(nv) as int));
    assert(value(fact(k), env) == Some(fk as int));
    assert(value(fact(minus(n, k)), env) == Some(fr as int));
    assert(factorial(nv) == (fk * c) * fr) by (nonlinear_arith)
        requires
            c * fk * fr == factorial(nv),
    ;
    lemma_exact_div((fk * c) as int, fr as int);
    assert(value(over(fact(n), fact(minus(n, k))), env) == Some((fk * c) as int));
    assert(factorial(nv) == c * (fk * fr)) by (nonlinear_arith)
        requires
            c * fk * fr == factorial(nv),
    ;
    assert(fk * fr > 0) by (nonlinear_arith)
        requires
            fk > 0,
            fr > 0,
    ;
    lemma_exact_div(c as int, (fk * fr) as int);
    assert(value(times(fact(k), fact(minus(n, k))), env) == Some((fk * fr) as int));
    assert(value(over(fact(n), times(fact(k), fact(minus(n, k)))), env) == Some(c as int));
}

/// The value of the helper variable named `name`.
pub open spec fn at(env: spec_fn(Symbol) -> int, name: &str) -> int {
    env(intern_symbol(name))
}

/// `a`, `b`, `c` are the coefficients of `a(x - r1)(x - r2)` with `a != 0`.
pub open spec fn quadratic_with_roots(env: spec_fn(Symbol) -> int) -> bool {
    let (a, r1, r2) = (at(env, "a"), at(env, "r1"), at(env, "r2"));
    &&& a != 0
    &&& at(env, "b") == -a * (r1 + r2)
    &&& at(env, "c") == a * (r1 * r2)
}

/// `a`, `b`, `c`, `d` are the coefficients of `a(x - r1)(x - r2)(x - r3)`
/// with `a != 0`.
pub open spec fn cubic_with_roots(env: spec_fn(Symbol) -> int) -> bool {
    let (a, r1, r2, r3) = (at(env, "a"), at(env, "r1"), at(env, "r2"), at(env, "r3"));
    &&& a != 0
    &&& at(env, "b") == -a * (r1 + r2 + r3)
    &&& at(env, "c") == a * (r1 * r2 + r2 * r3 + r1 * r3)
    &&& at(env, "d") == -a * (r1 * r2 * r3)
}

/// Vieta's formulas hold: where the coefficients are those of a polynomial
/// with roots `r1, r2` (or `r1, r2, r3`), each equation the Vieta rules give
/// has sides of equal value.
pub proof fn lemma_vieta_rules(e: Expr, env: spec_fn(Symbol) -> int)
    ensures
        quadratic_with_roots(env) ==> all_hold(polynomials::results(PolynomialRule::VietaSumQuadratic, e), env),
        quadratic_with_roots(env) ==> all_hold(polynomials::results(PolynomialRule::VietaProductQuadratic, e), env),
        cubic_with_roots(env) ==> all_hold(polynomials::results(PolynomialRule::VietaSumCubic, e), env),
        cubic_with_roots(env) ==> all_hold(polynomials::results(PolynomialRule::VietaPairsCubic, e), env),
        cubic_with_roots(env) ==> all_hold(polynomials::results(PolynomialRule::VietaProductCubic, e), env),
{
    let (a, b, c, d) = (at(env, "a"), at(env, "b"), at(env, "c"), at(env, "d"));
    let (r1, r2, r3) = (at(env, "r1"), at(env, "r2"), at(env, "r3"));
    let (na, nb, nc, nd) = (named("a"), named("b"), named("c"), named("d"));
    let (n1, n2, n3) = (named("r1"), named("r2"), named("r3"));
    assert(value(na, env) == Some(a));
    assert(value(nb, env) == Some(b));
    assert(value(nc, env) == Some(c));
    assert(value(nd, env) == Some(d));
    assert(value(n1, env) == Some(r1));
    assert(value(n2, env) == Some(r2));
    assert(value(n3, env) == Some(r3));
    if quadratic_with_roots(env) {
        assert(-b == a * (r1 + r2)) by (nonlinear_arith)
            requires
                b == -a * (r1 + r2),
        ;
        lemma_exact_div(r1 + r2, a);
        lemma_exact_div(r1 * r2, a);
        assert(value(negate(nb), env) == Some(-b));
        assert((-b) % a == 0 && (-b) / a == r1 + r2);
        assert(c % a == 0 && c / a == r1 * r2);
        assert(value(over(negate(nb), na), env) == Some(r1 + r2));
        assert(value(over(nc, na), env) == Some(r1 * r2));
        assert(value(plus(n1, n2), env) == Some(r1 + r2));
        assert(value(times(n1, n2), env) == Some(r1 * r2));
        assert(holds(polynomials::results(PolynomialRule::VietaSumQuadratic, e)[0].0, env));
        assert(holds(polynomials::results(PolynomialRule::VietaProductQuadratic, e)[0].0, env));
    }
    if cubic_with_roots(env) {
        let s1 = r1 + r2 + r3;
        let s2 = r1 * r2 + r2 * r3 + r1 * r3;
        let s3 = r1 * r2 * r3;
        assert(-b == a * s1) by (nonlinear_arith)
            requires
                b == -a * (r1 + r2 + r3),
                s1 == r1 + r2 + r3,
        ;
        assert(-d == a * s3) by (nonlinear_arith)
            requires
                d == -a * (r1 * r2 * r3),
                s3 == r1 * r2 * r3,
        ;
        lemma_exact_div(s1, a);
        lemma_exact_div(s2, a);
        lemma_exact_div(s3, a);
        assert(value(negate(nb), env) == Some(-b));
        assert(value(negate(nd), env) == Some(-d));
        assert((-b) % a == 0 && (-b) / a == s1);
        assert(c == a * s2);
        assert(c % a == 0 && c / a == s2);
        assert((-d) % a == 0 && (-d) / a == s3);
        assert(value(over(negate(nb), na), env) == Some(s1));
        assert(value(over(nc, na), env) == Some(s2));
        assert(value(over(negate(nd), na), env) == Some(s3));
        assert(value(plus(plus(n1, n2), n3), env) == Some(s1));
        assert(value(times(n1, n2), env) == Some(r1 * r2));
        assert(value(times(n2, n3), env) == Some(r2 * r3));
        assert(value(times(n1, n3), env) == Some(r1 * r3));
        assert(value(plus(times(n1, n2), times(n2, n3)), env) == Some(r1 * r2 + r2 * r3));
        assert(value(plus(plus(times(n1, n2), times(n2, n3)), times(n1, n3)), env) == Some(r1 * r2 + r2 * r3 + r1 * r3));
        assert(value(times(times(n1, n2), n3), env) == Some(s3));
        assert(holds(polynomials::results(PolynomialRule::VietaSumCubic, e)[0].0, env));
        assert(holds(polynomials::results(PolynomialRule::VietaPairsCubic, e)[0].0, env));
        assert(holds(polynomials::results(PolynomialRule::VietaProductCubic, e)[0].0, env));
    }
}

/// Newton's identities hold: where `e1, e2, e3` are the elementary symmetric
/// polynomials of three numbers `x, y, z` and `p2, p3` their power sums, the
/// equations `p2 = e1² - 2e2` and `p3 = e1³ - 3e1e2 + 3e3` that the rules give
/// have sides of equal value.
pub proof fn lemma_newton_identities(e: Expr, env: spec_fn(Symbol) -> int, x: int, y: int, z: int)
    requires
        at(env, "e1") == x + y + z,
        at(env, "e2") == x * y + y * z + x * z,
        at(env, "e3") == x * y * z,
        at(env, "p1") == x + y + z,
        at(env, "p2") == x * x + y * y + z * z,
        at(env, "p3") == x * x * x + y * y * y + z * z * z,
    ensures
        all_hold(polynomials::results(PolynomialRule::NewtonIdentity1, e), env),
        all_hold(polynomials::results(PolynomialRule::NewtonIdentity2, e), env),
        all_hold(polynomials::results(PolynomialRule::NewtonIdentity3, e), env),
{
    let (e1, e2, e3) = (at(env, "e1"), at(env, "e2"), at(env, "e3"));
    let (p2, p3) = (at(env, "p2"), at(env, "p3"));
    assert(value(lit(2), env) == Some(2int));
    assert(value(lit(3), env) == Some(3int));
    lemma_square(e1);
    assert(value(named("e1"), env) == Some(e1));
    assert(value(named("e2"), env) == Some(e2));
    assert(value(named("e3"), env) == Some(e3));
    assert(value(power(named("e1"), lit(2)), env) == Some(e1 * e1));
    assert(value(power(named("e1"), lit(3)), env) == Some(e1 * e1 * e1));
    assert(p2 == e1 * e1 - 2 * e2) by (nonlinear_arith)
        requires
            e1 == x + y + z,
            e2 == x * y + y * z + x * z,
            p2 == x * x + y * y + z * z,
    ;
    let t = x * x * y + x * x * z + y * y * x + y * y * z + z * z * x + z * z * y;
    assert(e1 * p2 == x * p2 + y * p2 + z * p2) by (nonlinear_arith)
        requires
            e1 == x + y + z,
    ;
    assert(x * p2 == x * x * x + y * y * x + z * z * x) by (nonlinear_arith)
        requires
            p2 == x * x + y * y + z * z,
    ;
    assert(y * p2 == x * x * y + y * y * y + z * z * y) by (nonlinear_arith)
        requires
            p2 == x * x + y * y + z * z,
    ;
    assert(z * p2 == x * x * z + y * y * z + z * z * z) by (nonlinear_arith)
        requires
            p2 == x * x + y * y + z * z,
    ;
    assert(e1 * p2 == p3 + t);
    assert(e1 * e2 == x * e2 + y * e2 + z * e2) by (nonlinear_arith)
        requires
            e1 == x + y + z,
    ;
    assert(x * e2 == x * x * y + x * y * z + x * x * z) by (nonlinear_arith)
        requires
            e2 == x * y + y * z + x * z,
    ;
    assert(y * e2 == y * y * x + y * y * z + x * y * z) by (nonlinear_arith)
        requires
            e2 == x * y + y * z + x * z,
    ;
    assert(z * e2 == x * y * z + z * z * y + z * z * x) by (nonlinear_arith)
        requires
            e2 == x * y + y * z + x * z,
    ;
    assert(e1 * e2 == t + 3 * e3);
    assert(e1 * p2 == e1 * e1 * e1 - 2 * (e1 * e2)) by (nonlinear_arith)
        requires
            p2 == e1 * e1 - 2 * e2,
    ;
    assert(p3 == e1 * e1 * e1 - 3 * (e1 * e2) + 3 * e3);
    assert(value(named("p1"), env) == Some(at(env, "p1")));
    assert(value(named("p2"), env) == Some(p2));
    assert(value(named("p3"), env) == Some(p3));
    assert(value(times(lit(2), named("e2")), env) == Some(2 * e2));
    assert(value(minus(power(named("e1"), lit(2)), times(lit(2), named("e2"))), env) == Some(e1 * e1 - 2 * e2));
    assert(value(times(named("e1"), named("e2")), env) == Some(e1 * e2));
    assert(value(times(lit(3), times(named("e1"), named("e2"))), env) == Some(3 * (e1 * e2)));
    assert(value(times(lit(3), named("e3")), env) == Some(3 * e3));
    assert(value(minus(power(named("e1"), lit(3)), times(lit(3), times(named("e1"), named("e2")))), env) == Some(
        e1 * e1 * e1 - 3 * (e1 * e2),
    ));
    assert(value(
        plus(minus(power(named("e1"), lit(3)), times(lit(3), times(named("e1"), named("e2")))), times(lit(3), named("e3"))),
        env,
    ) == Some(p3));
    assert(holds(polynomials::results(PolynomialRule::NewtonIdentity1, e)[0].0, env));
    assert(holds(polynomials::results(PolynomialRule::NewtonIdentity2, e)[0].0, env));
    assert(holds(polynomials::results(PolynomialRule::NewtonIdentity3, e)[0].0, env));
}

/// The Sophie Germain factorisation is of `a⁴ + 4b⁴`: the product it gives
/// has that value for all values of `a` and `b`.
pub proof fn lemma_sophie_germain(e: Expr, env: spec_fn(Symbol) -> int)
    requires
        e is Add,
    ensures
        ({
            let rs = polynomials::results(PolynomialRule::SophieGermain, e);
            let (a, b) = (at(env, "a"), at(env, "b"));
            rs.len() == 1 && value(rs[0].0, env) == Some(a * a * a * a + 4 * (b * b * b * b))
        }),
{
    let (a, b) = (at(env, "a"), at(env, "b"));
    let (na, nb) = (named("a"), named("b"));
    assert(value(lit(2), env) == Some(2int));
    assert(value(na, env) == Some(a));
    assert(value(nb, env) == Some(b));
    lemma_square(a);
    lemma_square(b);
    let u = plus(power(na, lit(2)), times(lit(2), power(nb, lit(2))));
    let w = times(lit(2), times(na, nb));
    assert(value(power(na, lit(2)), env) == Some(a * a));
    assert(value(power(nb, lit(2)), env) == Some(b * b));
    assert(value(times(lit(2), power(nb, lit(2))), env) == Some(2 * (b * b)));
    assert(value(u, env) == Some(a * a + 2 * (b * b)));
    assert(value(times(na, nb), env) == Some(a * b));
    assert(value(w, env) == Some(2 * (a * b)));
    assert(value(negate(w), env) == Some(-(2 * (a * b))));
    assert(value(plus(u, w), env) == Some(a * a + 2 * (b * b) + 2 * (a * b)));
    assert(value(plus(u, negate(w)), env) == Some(a * a + 2 * (b * b) + -(2 * (a * b))));
    assert((a * a + 2 * (b * b) + 2 * (a * b)) * (a * a + 2 * (b * b) + -(2 * (a * b))) == a * a * a * a + 4 * (b
        * b * b * b)) by (nonlinear_arith);
}

/// The factorisation of `x³ + y³ + z³ - 3xyz` holds: the equation the rule
/// gives has sides of equal value for all values of `x`, `y`, `z`.
pub proof fn lemma_sum_three_cubes(e: Expr, env: spec_fn(Symbol) -> int)
    requires
        e is Add,
    ensures
        all_hold(polynomials::results(PolynomialRule::SumThreeCubes, e), env),
{
    let (x, y, z) = (at(env, "x"), at(env, "y"), at(env, "z"));
    let (nx, ny, nz) = (named("x"), named("y"), named("z"));
    assert(value(lit(2), env) == Some(2int));
    assert(value(lit(3), env) == Some(3int));
    assert(value(nx, env) == Some(x));
    assert(value(ny, env) == Some(y));
    assert(value(nz, env) == Some(z));
    lemma_square(x);
    lemma_square(y);
    lemma_square(z);
    let lhs = plus(plus(power(nx, lit(3)), power(ny, lit(3))), plus(power(nz, lit(3)), negate(times(lit(3), times(nx, times(ny, nz))))));
    assert(value(power(nx, lit(3)), env) == Some(x * x * x));
    assert(value(power(ny, lit(3)), env) == Some(y * y * y));
    assert(value(power(nz, lit(3)), env) == Some(z * z * z));
    assert(value(times(ny, nz), env) == Some(y * z));
    assert(value(times(nx, times(ny, nz)), env) == Some(x * (y * z)));
    let l = x * x * x + y * y * y + (z * z * z + -(3 * (x * (y * z))));
    assert(value(times(lit(3), times(nx, times(ny, nz))), env) == Some(3 * (x * (y * z))));
    assert(value(negate(times(lit(3), times(nx, times(ny, nz)))), env) == Some(-(3 * (x * (y * z)))));
    assert(value(plus(power(nx, lit(3)), power(ny, lit(3))), env) == Some(x * x * x + y * y * y));
    assert(value(plus(power(nz, lit(3)), negate(times(lit(3), times(nx, times(ny, nz))))), env) == Some(
        z * z * z + -(3 * (x * (y * z))),
    ));
    assert(value(lhs, env) == Some(l));
    let s = plus(plus(nx, ny), nz);
    let q = plus(minus(minus(plus(power(nx, lit(2)), power(ny, lit(2))), times(nx, ny)), times(ny, nz)), minus(power(nz, lit(2)), times(nx, nz)));
    assert(value(power(nx, lit(2)), env) == Some(x * x));
    assert(value(power(ny, lit(2)), env) == Some(y * y));
    assert(value(power(nz, lit(2)), env) == Some(z * z));
    assert(value(times(nx, ny), env) == Some(x * y));
    assert(value(times(nx, nz), env) == Some(x * z));
    let qv = x * x + y * y - x * y - y * z + (z * z - x * z);
    assert(value(plus(power(nx, lit(2)), power(ny, lit(2))), env) == Some(x * x + y * y));
    assert(value(minus(plus(power(nx, lit(2)), power(ny, lit(2))), times(nx, ny)), env) == Some(x * x + y * y - x * y));
    assert(value(minus(minus(plus(power(nx, lit(2)), power(ny, lit(2))), times(nx, ny)), times(ny, nz)), env) == Some(
        x * x + y * y - x * y - y * z,
    ));
    assert(value(minus(power(nz, lit(2)), times(nx, nz)), env) == Some(z * z - x * z));
    assert(value(q, env) == Some(qv));
    assert(value(plus(nx, ny), env) == Some(x + y));
    assert(value(s, env) == Some(x + y + z));
    lemma_three_cubes(x, y, z);
    assert(qv == x * x + y * y + z * z - x * y - y * z - x * z);
    assert(x * (y * z) == x * y * z) by (nonlinear_arith);
    assert((x + y + z) * qv == l);
    assert(value(times(s, q), env) == Some(l));
    assert(holds(polynomials::results(PolynomialRule::SumThreeCubes, e)[0].0, env));
}

/// The quadratic formula gives a root: where `a != 0` and its right side has
/// a value `r`, `a·r² + b·r + c = 0`.
pub proof fn lemma_quadratic_formula(e: Expr, env: spec_fn(Symbol) -> int)
    requires
        at(env, "a") != 0,
    ensures
        ({
            let rs = polynomials::results(PolynomialRule::QuadraticFormula, e);
            let (a, b, c) = (at(env, "a"), at(env, "b"), at(env, "c"));
            rs.len() == 1 && (rs[0].0 matches Expr::Equation { rhs, .. } && (value(*rhs, env) matches Some(r) ==> a
                * (r * r) + b * r + c == 0))
        }),
{
    let (a, b, c) = (at(env, "a"), at(env, "b"), at(env, "c"));
    let (na, nb, nc) = (named("a"), named("b"), named("c"));
    assert(value(lit(2), env) == Some(2int));
    assert(value(lit(4), env) == Some(4int));
    assert(value(na, env) == Some(a));
    assert(value(nb, env) == Some(b));
    assert(value(nc, env) == Some(c));
    lemma_square(b);
    let disc = minus(power(nb, lit(2)), times(lit(4), times(na, nc)));
    assert(value(power(nb, lit(2)), env) == Some(b * b));
    assert(value(times(na, nc), env) == Some(a * c));
    assert(value(times(lit(4), times(na, nc)), env) == Some(4 * (a * c)));
    assert(value(disc, env) == Some(b * b - 4 * (a * c)));
    lemma_square_root_found(b * b - 4 * (a * c));
    let num = plus(negate(nb), root(disc));
    let den = times(lit(2), na);
    assert(value(den, env) == Some(2 * a));
    let rhs = over(num, den);
    if let Some(r) = value(rhs, env) {
        assert(value(num, env) is Some);
        let sq = value(root(disc), env).unwrap();
        assert(value(root(disc), env) == square_root(b * b - 4 * (a * c)));
        assert(sq * sq == b * b - 4 * (a * c));
        assert(value(negate(nb), env) == Some(-b));
        assert(value(num, env) == Some(-b + sq));
        assert(2 * a != 0);
        assert((-b + sq) % (2 * a) == 0 && r == (-b + sq) / (2 * a));
        vstd::arithmetic::div_mod::lemma_fundamental_div_mod(-b + sq, 2 * a);
        assert(-b + sq == (2 * a) * r);
        lemma_root_of_quadratic(a, b, c, sq, r);
    }
}

proof fn lemma_distribute3(a: int, b: int, c: int, d: int)
    ensures
        (a + b + c) * d == a * d + b * d + c * d,
{
    assert((a + b + c) * d == a * d + b * d + c * d) by (nonlinear_arith);
}

proof fn lemma_row(w: int, x: int, y: int, z: int)
    ensures
        w * (x * x + y * y + z * z - x * y - y * z - x * z) == w * (x * x) + w * (y * y) + w * (z * z) - w * (x * y)
            - w * (y * z) - w * (x * z),
{
    assert(w * (x * x + y * y + z * z - x * y - y * z - x * z) == w * (x * x) + w * (y * y) + w * (z * z) - w * (x
        * y) - w * (y * z) - w * (x * z)) by (nonlinear_arith);
}

/// `(x + y + z)(x² + y² + z² - xy - yz - xz) = x³ + y³ + z³ - 3xyz`.
proof fn lemma_three_cubes(x: int, y: int, z: int)
    ensures
        (x + y + z) * (x * x + y * y + z * z - x * y - y * z - x * z) == x * x * x + y * y * y + z * z * z - 3 * (x
            * y * z),
{
    let q = x * x + y * y + z * z - x * y - y * z - x * z;
    lemma_distribute3(x, y, z, q);
    lemma_row(x, x, y, z);
    lemma_row(y, x, y, z);
    lemma_row(z, x, y, z);
    assert(x * (x * x) == x * x * x) by (nonlinear_arith);
    assert(y * (y * y) == y * y * y) by (nonlinear_arith);
    assert(z * (z * z) == z * z * z) by (nonlinear_arith);
    assert(x * (y * y) == y * (x * y)) by (nonlinear_arith);
    assert(x * (z * z) == z * (x * z)) by (nonlinear_arith);
    assert(y * (x * x) == x * (x * y)) by (nonlinear_arith);
    assert(y * (z * z) == z * (y * z)) by (nonlinear_arith);
    assert(z * (x * x) == x * (x * z)) by (nonlinear_arith);
    assert(z * (y * y) == y * (y * z)) by (nonlinear_arith);
    assert(x * (y * z) == x * y * z) by (nonlinear_arith);
    assert(y * (x * z) == x * y * z) by (nonlinear_arith);
    assert(z * (x * y) == x * y * z) by (nonlinear_arith);
}

/// The discriminant of `x³ + px + q` with roots `u`, `v` and `-(u + v)`.
proof fn lemma_cubic_discriminant_identity(u: int, v: int)
    ensures
        ({
            let w = -(u + v);
            let p = u * v + u * w + v * w;
            let q = -(u * v * w);
            let d = (u - v) * (u - w) * (v - w);
            -4 * (p * p * p) - 27 * (q * q) == d * d
        }),
{
    let w = -(u + v);
    let p = u * v + u * w + v * w;
    assert(p == -(u * u + u * v + v * v)) by (nonlinear_arith)
        requires
            w == -(u + v),
            p == u * v + u * w + v * w,
    ;
    let q = -(u * v * w);
    assert(q == u * u * v + u * v * v) by (nonlinear_arith)
        requires
            w == -(u + v),
            q == -(u * v * w),
    ;
    let d = (u - v) * (u - w) * (v - w);
    assert(d == (u - v) * (2 * u + v) * (u + 2 * v)) by (nonlinear_arith)
        requires
            w == -(u + v),
            d == (u - v) * (u - w) * (v - w),
    ;
    let s = u * u + u * v + v * v;
    let t = u * u * v + u * v * v;
    assert(-4 * (p * p * p) == 4 * (s * s * s)) by (nonlinear_arith)
        requires
            p == -s,
    ;
    lemma_discriminant_expansion(u, v, s, t, d);
}

proof fn lemma_discriminant_expansion(u: int, v: int, s: int, t: int, d: int)
    requires
        s == u * u + u * v + v * v,
        t == u * u * v + u * v * v,
        d == (u - v) * (2 * u + v) * (u + 2 * v),
    ensures
        4 * (s * s * s) - 27 * (t * t) == d * d,
{
    let a = u * u;
    let b = u * v;
    let c = v * v;
    assert(s == a + b + c);
    assert(t == a * v + b * v) by (nonlinear_arith)
        requires
            t == u * u * v + u * v * v,
            a == u * u,
            b == u * v,
    ;
    assert(t == b * (u + v)) by (nonlinear_arith)
        requires
            t == a * v + b * v,
            a == u * u,
            b == u * v,
    ;
    assert(d == (u - v) * (2 * a + 5 * b + 2 * c)) by (nonlinear_arith)
        requires
            d == (u - v) * (2 * u + v) * (u + 2 * v),
            a == u * u,
            b == u * v,
            c == v * v,
    ;
    assert(b * b == a * c) by (nonlinear_arith)
        requires
            a == u * u,
            b == u * v,
            c == v * v,
    ;
    assert((u - v) * (u - v) == a - 2 * b + c) by (nonlinear_arith)
        requires
            a == u * u,
            b == u * v,
            c == v * v,
    ;
    assert((u + v) * (u + v) == a + 2 * b + c) by (nonlinear_arith)
        requires
            a == u * u,
            b == u * v,
            c == v * v,
    ;
    let m = a + c;
    assert(d * d == (m - 2 * b) * ((2 * m + 5 * b) * (2 * m + 5 * b))) by (nonlinear_arith)
        requires
            d == (u - v) * (2 * a + 5 * b + 2 * c),
            (u - v) * (u - v) == a - 2 * b + c,
            m == a + c,
    ;
    assert(t * t == b * b * (m + 2 * b)) by (nonlinear_arith)
        requires
            t == b * (u + v),
            (u + v) * (u + v) == a + 2 * b + c,
            m == a + c,
    ;
    assert(4 * (s * s * s) - 27 * (t * t) == d * d) by (nonlinear_arith)
        requires
            s == m + b,
            t * t == b * b * (m + 2 * b),
            d * d == (m - 2 * b) * ((2 * m + 5 * b) * (2 * m + 5 * b)),
    ;
}

/// The cubic discriminant is the square of the product of the root
/// differences: where `x³ + px + q` has the roots `u`, `v` and `w = -(u + v)`,
/// the right side `-4p³ - 27q²` of the rule's equation is
/// `((u - v)(u - w)(v - w))²`.
pub proof fn lemma_cubic_discriminant(e: Expr, env: spec_fn(Symbol) -> int, u: int, v: int)
    requires
        at(env, "p") == u * v + u * (-(u + v)) + v * (-(u + v)),
        at(env, "q") == -(u * v * (-(u + v))),
    ensures
        ({
            let rs = polynomials::results(PolynomialRule::CubicDiscriminant, e);
            let w = -(u + v);
            let d = (u - v) * (u - w) * (v - w);
            states_value(rs, env, d * d)
        }),
{
    let (p, q) = (at(env, "p"), at(env, "q"));
    lemma_cubic_discriminant_identity(u, v);
    lemma_square(p);
    lemma_square(q);
    assert(value(named("p"), env) == Some(p));
    assert(value(named("q"), env) == Some(q));
    assert(value(lit(-4i64), env) == Some(-4int));
    assert(value(lit(27), env) == Some(27int));
    assert(value(lit(3), env) == Some(3int));
    assert(value(lit(2), env) == Some(2int));
    assert(value(power(named("p"), lit(3)), env) == Some(p * p * p));
    assert(value(power(named("q"), lit(2)), env) == Some(q * q));
    assert(value(times(lit(-4i64), power(named("p"), lit(3))), env) == Some(-4 * (p * p * p)));
    assert(value(times(lit(27), power(named("q"), lit(2))), env) == Some(27 * (q * q)));
}

/// The number of ways to write `n` as `x_1 + … + x_k` with naturals
/// `x_i`, the last of them at most `t`.
pub open spec fn solutions_upto(n: int, k: nat, t: int) -> nat
    decreases k, t + 1,
{
    if k == 0 {
        if n == 0 {
            1
        } else {
            0
        }
    } else if t < 0 || n < 0 {
        0
    } else {
        solutions_upto(n, k, t - 1) + solutions_upto(n - t, (k - 1) as nat, n - t)
    }
}

/// The number of ways to write `n` as a sum of `k` naturals in order.
pub open spec fn solutions(n: int, k: nat) -> nat {
    solutions_upto(n, k, n)
}

proof fn lemma_solutions_one(n: int, t: int)
    requires
        n >= 0,
        -1 <= t <= n,
    ensures
        solutions_upto(n, 1, t) == if t == n { 1nat } else { 0nat },
    decreases t + 1,
{
    if t >= 0 {
        lemma_solutions_one(n, t - 1);
        assert(solutions_upto(n - t, 0, n - t) == if n - t == 0 { 1nat } else { 0nat });
        assert(solutions_upto(n, 1, t) == solutions_upto(n, 1, t - 1) + solutions_upto(n - t, 0, n - t));
    }
}

proof fn lemma_solutions_partial(n: int, k: nat, t: int)
    requires
        n >= 0,
        k >= 2,
        -1 <= t <= n,
    ensures
        solutions_upto(n, k, t) == comb((n + k - 1) as nat, k - 1) - comb((n - t - 1 + k - 1) as nat, k - 1),
    decreases k, t + 1,
{
    if t >= 0 {
        lemma_solutions_partial(n, k, t - 1);
        lemma_stars_and_bars(n - t, (k - 1) as nat);
        lemma_comb_pascal((n - t + k - 1) as nat, k - 1);
        assert((n - (t - 1) - 1 + k - 1) as nat == (n - t + k - 1) as nat);
    }
}

/// Stars and bars: `n` is a sum of `k >= 1` naturals in `C(n + k - 1, k - 1)`
/// ways.
pub proof fn lemma_stars_and_bars(n: int, k: nat)
    requires
        n >= 0,
        k >= 1,
    ensures
        solutions(n, k) == comb((n + k - 1) as nat, k - 1),
    decreases k, n + 2,
{
    if k == 1 {
        lemma_solutions_one(n, n);
    } else {
        lemma_solutions_partial(n, k, n);
        assert(comb((k - 2) as nat, k - 1) == 0);
    }
}

/// The stars-and-bars and repetition rules count: for values `n >= 0`,
/// `k >= 1` of their variables, `C(n + k - 1, k - 1)` is the number of ways to
/// write `n` as a sum of `k` naturals; and for values `n >= 1`, `k >= 0`,
/// `C(n + k - 1, k)` is the number of ways to write `k` as a sum of `n`
/// naturals (the multisets of size `k` from `n` kinds).
pub proof fn lemma_stars_and_bars_rules(e: Expr, env: spec_fn(Symbol) -> int)
    ensures
        at(env, "n") >= 0 && at(env, "k") >= 1 ==> ({
            let rs = combinatorics::results(CombinatoricsRule::StarsAndBars, e);
            rs.len() == 1 && value(rs[0].0, env) == Some(solutions(at(env, "n"), at(env, "k") as nat) as int)
        }),
        at(env, "n") >= 1 && at(env, "k") >= 0 ==> ({
            let rs = combinatorics::results(CombinatoricsRule::CombinationWithRepetition, e);
            rs.len() == 1 && value(rs[0].0, env) == Some(solutions(at(env, "k"), at(env, "n") as nat) as int)
        }),
{
    let (nv, kv) = (at(env, "n"), at(env, "k"));
    let (n, k) = (named("n"), named("k"));
    assert(value(n, env) == Some(nv));
    assert(value(k, env) == Some(kv));
    assert(value(lit(1), env) == Some(1int));
    assert(value(plus(n, k), env) == Some(nv + kv));
    assert(value(minus(plus(n, k), lit(1)), env) == Some(nv + kv - 1));
    assert(value(minus(k, lit(1)), env) == Some(kv - 1));
    if nv >= 0 && kv >= 1 {
        lemma_stars_and_bars(nv, kv as nat);
        assert(value(binom(minus(plus(n, k), lit(1)), minus(k, lit(1))), env) == Some(
            comb((nv + kv - 1) as nat, kv - 1) as int,
        ));
    }
    if nv >= 1 && kv >= 0 {
        lemma_stars_and_bars(kv, nv as nat);
        lemma_comb_symmetric((kv + nv - 1) as nat, kv);
        assert((kv + nv - 1) - kv == nv - 1);
        assert(value(binom(minus(plus(n, k), lit(1)), k), env) == Some(comb((nv + kv - 1) as nat, kv) as int));
    }
}

/// `r` with `2a·r = -b + s` and `s² = b² - 4ac` is a root of `ax² + bx + c`.
proof fn lemma_root_of_quadratic(a: int, b: int, c: int, s: int, r: int)
    requires
        -b + s == (2 * a) * r,
        s * s == b * b - 4 * (a * c),
        a != 0,
    ensures
        a * (r * r) + b * r + c == 0,
{
    let y = (2 * a) * r;
    assert(y * y == 4 * a * (a * (r * r))) by (nonlinear_arith)
        requires
            y == (2 * a) * r,
    ;
    assert(2 * b * y == 4 * a * (b * r)) by (nonlinear_arith)
        requires
            y == (2 * a) * r,
    ;
    assert(y * y + 2 * b * y + 4 * (a * c) == 0) by (nonlinear_arith)
        requires
            y == s - b,
            s * s == b * b - 4 * (a * c),
    ;
    assert(4 * a * (a * (r * r) + b * r + c) == 0) by (nonlinear_arith)
        requires
            y * y == 4 * a * (a * (r * r)),
            2 * b * y == 4 * a * (b * r),
            y * y + 2 * b * y + 4 * (a * c) == 0,
    ;
    assert(a * (r * r) + b * r + c == 0) by (nonlinear_arith)
        requires
            4 * a * (a * (r * r) + b * r + c) == 0,
            a != 0,
    ;
}

proof fn lemma_prime_divisors_upto(p: int, k: int)
    requires
        is_prime(p),
        0 <= k < p,
    ensures
        crate::arith::divisor_sum_upto(p, k) == if k >= 1 { 1int } else { 0int },
        crate::arith::divisor_count_upto(p, k) == if k >= 1 { 1int } else { 0int },
    decreases k,
{
    if k >= 1 {
        lemma_prime_divisors_upto(p, k - 1);
        if k == 1 {
            assert(p % 1 == 0);
        } else {
            assert(p % k != 0);
        }
    }
}

/// The divisor rules count the divisors of a prime right: applied to a prime
/// `p < 1000`, the sum-of-divisors rule answers `p + 1` and the
/// number-of-divisors rule `2`, its only divisors being `1` and `p`.
pub proof fn lemma_divisors_of_prime(e: Expr, env: spec_fn(Symbol) -> int)
    requires
        e matches Expr::Const(c) && c.den == 1 && is_prime(c.num as int) && c.num < 1000,
    ensures
        ({
            let p = e->Const_0.num as int;
            let s = number_theory::results(NumberTheoryRule::SumOfDivisors, e);
            let t = number_theory::results(NumberTheoryRule::NumberOfDivisors, e);
            &&& s.len() == 1 && value(s[0].0, env) == Some(p + 1)
            &&& t.len() == 1 && value(t[0].0, env) == Some(2int)
        }),
{
    if let Expr::Const(c) = e {
        let p = c.num as int;
        lemma_prime_divisors_upto(p, p - 1);
        vstd::arithmetic::div_mod::lemma_mod_self_0(p);
        assert(crate::arith::sigma(p) == p + 1);
        assert(crate::arith::tau(p) == 2);
        assert(value(lit((p + 1) as i64), env) == Some(p + 1));
        assert(value(lit(2), env) == Some(2int));
    }
}

/// `C(n, m)·C(m, k) = C(n, k)·C(n - k, m - k)` for `0 <= k <= m <= n`.
pub proof fn lemma_subset_of_subset(n: nat, m: nat, k: nat)
    requires
        k <= m <= n,
    ensures
        comb(n, m as int) * comb(m, k as int) == comb(n, k as int) * comb((n - k) as nat, (m - k) as int),
{
    lemma_comb_factorials(n, m);
    lemma_comb_factorials(m, k);
    lemma_comb_factorials(n, k);
    lemma_comb_factorials((n - k) as nat, (m - k) as nat);
    assert((n - k) as nat - (m - k) as nat == n - m);
    let (c1, c2, c3, c4) = (comb(n, m as int), comb(m, k as int), comb(n, k as int), comb((n - k) as nat, (m - k) as int));
    let (fk, fmk, fnm) = (factorial(k), factorial((m - k) as nat), factorial((n - m) as nat));
    let (fm, fnk, fnn) = (factorial(m), factorial((n - k) as nat), factorial(n));
    crate::theorems::lemma_factorial_positive(k);
    crate::theorems::lemma_factorial_positive((m - k) as nat);
    crate::theorems::lemma_factorial_positive((n - m) as nat);
    let pr = fk * fmk * fnm;
    assert((c1 * c2) * pr == fnn) by (nonlinear_arith)
        requires
            c1 * fm * fnm == fnn,
            c2 * fk * fmk == fm,
            pr == fk * fmk * fnm,
    ;
    assert((c3 * c4) * pr == fnn) by (nonlinear_arith)
        requires
            c3 * fk * fnk == fnn,
            c4 * fmk * fnm == fnk,
            pr == fk * fmk * fnm,
    ;
    assert(pr > 0) by (nonlinear_arith)
        requires
            fk > 0,
            fmk > 0,
            fnm > 0,
            pr == fk * fmk * fnm,
    ;
    assert(c1 * c2 == c3 * c4) by (nonlinear_arith)
        requires
            (c1 * c2) * pr == fnn,
            (c3 * c4) * pr == fnn,
            pr > 0,
    ;
}

/// The Christmas-stocking rule counts the same: for values
/// `0 <= k <= m <= n` of its variables, its result `C(n, k)·C(n-k, m-k)` is
/// `C(n, m)·C(m, k)`, the number of ways to choose `m` of `n` and then `k`
/// of those `m`.
pub proof fn lemma_christmas_stocking(e: Expr, env: spec_fn(Symbol) -> int)
    requires
        e is Mul,
        0 <= at(env, "k") <= at(env, "m") <= at(env, "n"),
    ensures
        ({
            let rs = combinatorics::results(CombinatoricsRule::ChristmasStocking, e);
            let (n, m, k) = (at(env, "n") as nat, at(env, "m") as nat, at(env, "k") as nat);
            rs.len() == 1 && value(rs[0].0, env) == Some((comb(n, m as int) * comb(m, k as int)) as int)
        }),
{
    let (nv, mv, kv) = (at(env, "n") as nat, at(env, "m") as nat, at(env, "k") as nat);
    lemma_subset_of_subset(nv, mv, kv);
    let (n, m, k) = (named("n"), named("m"), named("k"));
    assert(value(n, env) == Some(nv as int));
    assert(value(m, env) == Some(mv as int));
    assert(value(k, env) == Some(kv as int));
    assert(value(minus(n, k), env) == Some(nv - kv));
    assert(value(minus(m, k), env) == Some(mv - kv));
    assert(value(binom(n, k), env) == Some(comb(nv, kv as int) as int));
    assert(value(binom(minus(n, k), minus(m, k)), env) == Some(comb((nv - kv) as nat, (mv - kv) as int) as int));
}

/// The circular-permutation rule counts the `n!` orderings up to the `n`
/// rotations: for a value `n >= 1` of `n`, `n` times its right side is `n!`.
pub proof fn lemma_circular_permutation(e: Expr, env: spec_fn(Symbol) -> int)
    requires
        at(env, "n") >= 1,
    ensures
        ({
            let rs = combinatorics::results(CombinatoricsRule::CircularPermutation, e);
            rs.len() == 1 && (rs[0].0 matches Expr::Equation { rhs, .. } && (value(*rhs, env) matches Some(c) && at(
                env,
                "n",
            ) * c == factorial(at(env, "n") as nat)))
        }),
{
    let nv = at(env, "n");
    assert(value(named("n"), env) == Some(nv));
    assert(value(lit(1), env) == Some(1int));
    assert(value(minus(named("n"), lit(1)), env) == Some(nv - 1));
    assert(factorial(nv as nat) == nv * factorial((nv - 1) as nat));
}

} // verus!
