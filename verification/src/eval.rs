//! The value of an expression over the integers: the meaning against which
//! the rewrites of the rules are checked.
use vstd::prelude::*;
use vstd::arithmetic::power::{pow, lemma_pow_adds, lemma_pow_multiplies, lemma_pow_distributes, lemma1_pow};
use crate::expr::{Expr, Symbol, gcd, nat_abs, lemma_gcd_divides};

verus! {

/// `n!`.
pub open spec fn factorial(n: nat) -> nat
    decreases n,
{
    if n == 0 {
        1
    } else {
        n * factorial((n - 1) as nat)
    }
}

/// The binomial coefficient `C(n, k)`: the number of `k`-element subsets of
/// an `n`-element set, `0` when `k < 0` or `k > n`.
pub open spec fn comb(n: nat, k: int) -> nat
    decreases n,
{
    if k < 0 || k > n {
        0
    } else if k == 0 || k == n {
        1
    } else {
        comb((n - 1) as nat, k - 1) + comb((n - 1) as nat, k)
    }
}

/// Least common multiple of two naturals, `0` when either is `0`.
pub open spec fn lcm(a: nat, b: nat) -> nat {
    if a == 0 || b == 0 {
        0
    } else {
        (a * b) / gcd(a, b)
    }
}

/// The square root of `x` where `x` is the square of a natural: that
/// natural; `None` where `x` is no perfect square.
pub open spec fn square_root(x: int) -> Option<int> {
    if exists|r: nat| #[trigger] (r * r) == x {
        Some((choose|r: nat| #[trigger] (r * r) == x) as int)
    } else {
        None
    }
}

/// The square root of `r²` is `r`, for a natural `r`.
pub proof fn lemma_square_root(x: int, r: nat)
    requires
        r * r == x,
    ensures
        square_root(x) == Some(r as int),
{
    let c = choose|c: nat| #[trigger] (c * c) == x;
    assert(c * c == x);
    if c < r {
        assert(c * c < r * r) by (nonlinear_arith)
            requires
                c < r,
                c >= 0,
        ;
    } else if c > r {
        assert(r * r < c * c) by (nonlinear_arith)
            requires
                r < c,
                r >= 0,
        ;
    }
}

/// A square root that exists is a natural whose square is `x`.
pub proof fn lemma_square_root_found(x: int)
    ensures
        square_root(x) matches Some(r) ==> r >= 0 && r * r == x,
{
}

/// The product of dual numbers `(a + a'ε)(b + b'ε)` with `ε² = 0`.
pub open spec fn dual_mul(x: (int, int), y: (int, int)) -> (int, int) {
    (x.0 * y.0, x.0 * y.1 + x.1 * y.0)
}

/// `z^k` in the dual numbers, by repeated multiplication.
pub open spec fn dual_pow(z: (int, int), k: nat) -> (int, int)
    decreases k,
{
    if k == 0 {
        (1, 0)
    } else {
        dual_mul(dual_pow(z, (k - 1) as nat), z)
    }
}

/// The value of `e` together with its derivative by `v`, as a dual number
/// `e + e'ε` with `ε² = 0`: variables are `env(s) + [s = v]ε`, and sums,
/// products and integer powers are those of dual numbers. A quotient `f/g`
/// is the dual number whose product with `g` is `f`, where that is a pair of
/// integers. `None` where an integer dual value does not exist or the
/// expression lies outside this arithmetic.
pub open spec fn dual_value(e: Expr, v: Symbol, env: spec_fn(Symbol) -> int) -> Option<(int, int)>
    decreases e,
{
    match e {
        Expr::Var(s) => Some((env(s), if s == v { 1int } else { 0int })),
        Expr::Const(c) => if c.den == 1 {
            Some((c.num as int, 0int))
        } else {
            None
        },
        Expr::Neg(a) => match dual_value(*a, v, env) {
            Some(x) => Some((-x.0, -x.1)),
            None => None,
        },
        Expr::Add(a, b) => match (dual_value(*a, v, env), dual_value(*b, v, env)) {
            (Some(x), Some(y)) => Some((x.0 + y.0, x.1 + y.1)),
            _ => None,
        },
        Expr::Sub(a, b) => match (dual_value(*a, v, env), dual_value(*b, v, env)) {
            (Some(x), Some(y)) => Some((x.0 - y.0, x.1 - y.1)),
            _ => None,
        },
        Expr::Mul(a, b) => match (dual_value(*a, v, env), dual_value(*b, v, env)) {
            (Some(x), Some(y)) => Some(dual_mul(x, y)),
            _ => None,
        },
        Expr::Div(a, b) => match (dual_value(*a, v, env), dual_value(*b, v, env)) {
            (Some(x), Some(y)) => if y.0 != 0 && x.0 % y.0 == 0 && (x.1 - (x.0 / y.0) * y.1) % y.0 == 0 {
                Some((x.0 / y.0, (x.1 - (x.0 / y.0) * y.1) / y.0))
            } else {
                None
            },
            _ => None,
        },
        Expr::Pow(a, b) => match (dual_value(*a, v, env), *b) {
            (Some(x), Expr::Const(k)) => if k.den == 1 && k.num >= 0 {
                Some(dual_pow(x, k.num as nat))
            } else {
                None
            },
            _ => None,
        },
        _ => None,
    }
}

/// The integer value of `e` when its variables take the values `env`:
/// `None` where it has none (a division that does not come out even, a
/// negative exponent, a modulus that is not positive, a factorial of a
/// negative number, a square root of a number that is no perfect square, a
/// derivative outside the arithmetic of [`dual_value`], a
/// constant that is not an integer, or an expression
/// outside integer arithmetic).
pub open spec fn value(e: Expr, env: spec_fn(Symbol) -> int) -> Option<int>
    decreases e,
{
    match e {
        Expr::Var(s) => Some(env(s)),
        Expr::Const(c) => if c.den == 1 {
            Some(c.num as int)
        } else {
            None
        },
        Expr::Neg(a) => match value(*a, env) {
            Some(x) => Some(-x),
            None => None,
        },
        Expr::Abs(a) => match value(*a, env) {
            Some(x) => Some(nat_abs(x) as int),
            None => None,
        },
        Expr::Derivative { expr, var } => match dual_value(*expr, var, env) {
            Some(d) => Some(d.1),
            None => None,
        },
        Expr::Sqrt(a) => match value(*a, env) {
            Some(x) => square_root(x),
            None => None,
        },
        Expr::Floor(a) => value(*a, env),
        Expr::Ceiling(a) => value(*a, env),
        Expr::Factorial(a) => match value(*a, env) {
            Some(x) => if x >= 0 {
                Some(factorial(x as nat) as int)
            } else {
                None
            },
            None => None,
        },
        Expr::Add(a, b) => match (value(*a, env), value(*b, env)) {
            (Some(x), Some(y)) => Some(x + y),
            _ => None,
        },
        Expr::Sub(a, b) => match (value(*a, env), value(*b, env)) {
            (Some(x), Some(y)) => Some(x - y),
            _ => None,
        },
        Expr::Mul(a, b) => match (value(*a, env), value(*b, env)) {
            (Some(x), Some(y)) => Some(x * y),
            _ => None,
        },
        Expr::Div(a, b) => match (value(*a, env), value(*b, env)) {
            (Some(x), Some(y)) => if y != 0 && x % y == 0 {
                Some(x / y)
            } else {
                None
            },
            _ => None,
        },
        Expr::Pow(a, b) => match (value(*a, env), value(*b, env)) {
            (Some(x), Some(y)) => if y >= 0 {
                Some(pow(x, y as nat))
            } else {
                None
            },
            _ => None,
        },
        Expr::Mod(a, b) => match (value(*a, env), value(*b, env)) {
            (Some(x), Some(y)) => if y > 0 {
                Some(x % y)
            } else {
                None
            },
            _ => None,
        },
        Expr::GCD(a, b) => match (value(*a, env), value(*b, env)) {
            (Some(x), Some(y)) => Some(gcd(nat_abs(x), nat_abs(y)) as int),
            _ => None,
        },
        Expr::LCM(a, b) => match (value(*a, env), value(*b, env)) {
            (Some(x), Some(y)) => Some(lcm(nat_abs(x), nat_abs(y)) as int),
            _ => None,
        },
        Expr::Binomial(a, b) => match (value(*a, env), value(*b, env)) {
            (Some(x), Some(y)) => if x >= 0 {
                Some(comb(x as nat, y) as int)
            } else {
                None
            },
            _ => None,
        },
        _ => None,
    }
}

/// `e` is an equation whose two sides have the same value.
pub open spec fn holds(e: Expr, env: spec_fn(Symbol) -> int) -> bool {
    match e {
        Expr::Equation { lhs, rhs } => value(*lhs, env) is Some && value(*lhs, env) == value(*rhs, env),
        _ => false,
    }
}

/// `env` with the variable `v` set to `t`.
pub open spec fn assign(env: spec_fn(Symbol) -> int, v: Symbol, t: int) -> spec_fn(Symbol) -> int {
    |s: Symbol| if s == v { t } else { env(s) }
}

/// `Σ_{i=lo}^{hi} value(body)` with `var` worth `i` in the `i`-th term; `None`
/// when a term has no value.
pub open spec fn range_sum(body: Expr, var: Symbol, lo: int, hi: int, env: spec_fn(Symbol) -> int) -> Option<int>
    decreases hi - lo + 1,
{
    if hi < lo {
        Some(0)
    } else {
        match (range_sum(body, var, lo, hi - 1, env), value(body, assign(env, var, hi))) {
            (Some(s), Some(t)) => Some(s + t),
            _ => None,
        }
    }
}

/// The value of a summation `Σ_{var=from}^{to} body`.
pub open spec fn summation_value(e: Expr, env: spec_fn(Symbol) -> int) -> Option<int> {
    match e {
        Expr::Summation { var, from, to, body } => match (value(*from, env), value(*to, env)) {
            (Some(lo), Some(hi)) => range_sum(*body, var, lo, hi, env),
            _ => None,
        },
        _ => None,
    }
}

/// `C(n, 1) = n`.
pub proof fn lemma_comb_one(n: nat)
    ensures
        comb(n, 1) == n,
    decreases n,
{
    if n > 1 {
        lemma_comb_one((n - 1) as nat);
        assert(comb((n - 1) as nat, 0) == 1);
        assert(comb(n, 1) == comb((n - 1) as nat, 0) + comb((n - 1) as nat, 1));
    }
}

/// Pascal's rule for a positive `n` and every `k`.
pub proof fn lemma_comb_pascal(n: nat, k: int)
    requires
        n >= 1,
    ensures
        comb(n, k) == comb((n - 1) as nat, k - 1) + comb((n - 1) as nat, k),
{
}

/// `C(n, k) = C(n, n - k)`.
pub proof fn lemma_comb_symmetric(n: nat, k: int)
    ensures
        comb(n, k) == comb(n, n - k),
    decreases n,
{
    if n >= 1 && 0 < k < n {
        lemma_comb_symmetric((n - 1) as nat, k - 1);
        lemma_comb_symmetric((n - 1) as nat, k);
        assert(comb(n, n - k) == comb((n - 1) as nat, n - k - 1) + comb((n - 1) as nat, n - k));
    }
}

/// `(x + y)² = x² + 2xy + y²` and its relatives, for the power function.
pub proof fn lemma_square(x: int)
    ensures
        pow(x, 2) == x * x,
        pow(x, 3) == x * x * x,
{
    reveal_with_fuel(pow, 4);
    assert(pow(x, 1) == x);
    assert(x * (x * x) == x * x * x) by (nonlinear_arith);
}

/// `(-1)` to an even power is `1`, to an odd power `-1`.
pub proof fn lemma_minus_one_power(n: nat)
    ensures
        n % 2 == 0 ==> pow(-1, n) == 1,
        n % 2 == 1 ==> pow(-1, n) == -1,
{
    let h = n / 2;
    assert(n == 2 * h + n % 2);
    lemma_square(-1);
    lemma_pow_multiplies(-1, 2, h);
    lemma1_pow(h);
    lemma_pow_adds(-1, 2 * h, n % 2);
    reveal_with_fuel(pow, 2);
}

/// `(-a)^n = a^n` for an even `n`.
pub proof fn lemma_negated_even_power(a: int, n: nat)
    requires
        n % 2 == 0,
    ensures
        pow(-a, n) == pow(a, n),
{
    lemma_pow_distributes(-1, a, n);
    lemma_minus_one_power(n);
    assert(-a == -1 * a);
}


/// `gcd(n, n) = n`, `gcd(n, 0) = n` and `gcd(n, 1) = 1`.
pub proof fn lemma_gcd_values(n: nat)
    ensures
        gcd(n, n) == n,
        gcd(n, 0) == n,
        gcd(n, 1) == 1,
{
    if n > 0 {
        assert(n % n == 0) by {
            vstd::arithmetic::div_mod::lemma_mod_self_0(n as int);
        }
        assert(gcd(n, 0) == n);
        assert(gcd(n, n) == gcd(n, 0));
    }
    assert(n % 1 == 0);
    assert(gcd(1, 0) == 1);
}

/// `lcm(n, n) = n` and `lcm(n, 1) = n`.
pub proof fn lemma_lcm_values(n: nat)
    ensures
        lcm(n, n) == n,
        lcm(n, 1) == n,
{
    lemma_gcd_values(n);
    if n > 0 {
        assert((n * n) / n == n) by {
            vstd::arithmetic::div_mod::lemma_div_by_multiple(n as int, n as int);
        }
        assert((n * 1) / 1 == n);
    }
}

/// `gcd(a, b) · lcm(a, b) = a · b`.
pub proof fn lemma_gcd_times_lcm(a: nat, b: nat)
    ensures
        gcd(a, b) * lcm(a, b) == a * b,
{
    if a != 0 && b != 0 {
        lemma_gcd_divides(a, b);
        let g = gcd(a, b);
        let k = choose|k: nat| #[trigger] (g * k) == a;
        assert(g > 0) by (nonlinear_arith)
            requires
                g * k == a,
                a != 0,
        ;
        assert(a * b == g * (k * b)) by (nonlinear_arith)
            requires
                g * k == a,
        ;
        assert((a * b) / g == k * b) by {
            vstd::arithmetic::div_mod::lemma_div_multiples_vanish((k * b) as int, g as int);
        }
    }
}

/// Dividing a multiple of `d` by `d` is exact.
pub proof fn lemma_exact_div(q: int, d: int)
    requires
        d != 0,
    ensures
        (d * q) % d == 0,
        (d * q) / d == q,
        (q * d) % d == 0,
        (q * d) / d == q,
{
    vstd::arithmetic::div_mod::lemma_fundamental_div_mod(d * q, d);
    let t = (d * q) / d;
    let r = (d * q) % d;
    assert(0 <= r < if d > 0 { d } else { -d });
    assert(d * (q - t) == r) by (nonlinear_arith)
        requires
            d * q == d * t + r,
    ;
    let m = q - t;
    if m >= 1 {
        if d > 0 {
            assert(d * m >= d) by (nonlinear_arith)
                requires
                    m >= 1,
                    d > 0,
            ;
        } else {
            assert(d * m <= d) by (nonlinear_arith)
                requires
                    m >= 1,
                    d < 0,
            ;
        }
    } else if m <= -1 {
        if d > 0 {
            assert(d * m <= -d) by (nonlinear_arith)
                requires
                    m <= -1,
                    d > 0,
            ;
        } else {
            assert(d * m >= -d) by (nonlinear_arith)
                requires
                    m <= -1,
                    d < 0,
            ;
        }
    }
    assert(m == 0);
    assert(q * d == d * q) by (nonlinear_arith);
}

} // verus!
