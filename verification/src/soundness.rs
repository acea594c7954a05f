//! The rewrites are sound: where a rule replaces an expression by another,
//! the two have the same integer value, and where it states an identity,
//! both sides agree.
use vstd::prelude::*;
use vstd::arithmetic::power::pow;
use crate::expr::{Expr, Symbol, gcd, divides, nat_abs, lit, plus, minus, times, over, power, absolute, negate, fact};
use crate::eval::{
    value, holds, factorial, comb, lcm, lemma_comb_one, lemma_comb_pascal, lemma_comb_symmetric,
    assign, range_sum, summation_value, lemma_square, lemma_minus_one_power, lemma_negated_even_power, lemma_gcd_values,
    lemma_lcm_values, lemma_gcd_times_lcm, lemma_exact_div, square_root, lemma_square_root,
    lemma_square_root_found, dual_value,
};
use crate::arith::{tmod, egcd, bezout, lemma_bezout, mod_pow, lemma_egcd, lemma_egcd_bounds, lemma_mod_pow, lemma_tmod_congruent};
use crate::number_theory::{self, NumberTheoryRule, inverse_of};
use crate::polynomials::{self, PolynomialRule};
use crate::combinatorics::{self, CombinatoricsRule};
use crate::rule::{Rule, RuleKind, applicable, results};
use crate::theorems::{
    is_prime, lemma_fermat_little, binomial_terms, lemma_binomial_theorem, lemma_comb_absorption,
    convolution, lemma_vandermonde, expansion_terms, lemma_binomial_expansion, power_difference_terms,
    lemma_power_difference,
};

verus! {

/// The number-theory rules that replace an expression by one of the same
/// value: `0/n`, cancellations, the factorisations and expansions of squares and
/// cubes, `mod` by itself and by `1`, gcds and lcms, powers of `-1`,
/// factorials, floors and ceilings of integers, the computed modular
/// powers and gcds, and the rules of square roots.
pub open spec fn number_theory_keeps_value(k: NumberTheoryRule) -> bool {
    match k {
        NumberTheoryRule::DividesZero
        | NumberTheoryRule::DividesSelf
        | NumberTheoryRule::EvenSum
        | NumberTheoryRule::DivBy2
        | NumberTheoryRule::CancelCommonFactor
        | NumberTheoryRule::MulByDenom
        | NumberTheoryRule::DiffSquaresFactor
        | NumberTheoryRule::DiffCubesFactor
        | NumberTheoryRule::SumCubesFactor
        | NumberTheoryRule::SquareBinomialExpand
        | NumberTheoryRule::SquareBinomialSubExpand
        | NumberTheoryRule::ModSelf
        | NumberTheoryRule::ZeroMod
        | NumberTheoryRule::ModOne
        | NumberTheoryRule::ModularExponentiation
        | NumberTheoryRule::ExtendedGcd
        | NumberTheoryRule::GcdSelf
        | NumberTheoryRule::GcdZero
        | NumberTheoryRule::GcdOne
        | NumberTheoryRule::LcmSelf
        | NumberTheoryRule::LcmOne
        | NumberTheoryRule::GcdLcmProduct
        | NumberTheoryRule::NegOneEvenPower
        | NumberTheoryRule::NegOneOddPower
        | NumberTheoryRule::NegSquared
        | NumberTheoryRule::SumConstant
        | NumberTheoryRule::FactorialZero
        | NumberTheoryRule::FactorialOne
        | NumberTheoryRule::FactorialRecurse
        | NumberTheoryRule::FloorInteger
        | NumberTheoryRule::CeilingInteger
        | NumberTheoryRule::SqrtSquare
        | NumberTheoryRule::SquareSqrt
        | NumberTheoryRule::SqrtProduct
        | NumberTheoryRule::SqrtQuotient
        | NumberTheoryRule::HalfPowerSqrt => true,
        _ => false,
    }
}

/// The inputs on which one of those rules gives a result of another value
/// than its input: `0!`, whose rewrite `0 · (0 - 1)!` has no value; the
/// gcd of constants that is `2^63`, which no machine integer holds; and
/// `√(a/b)` where `a` or `b` is no perfect square (`√(8/2) = 2`, while `√8`
/// has no value).
pub open spec fn number_theory_value_exception(
    k: NumberTheoryRule,
    e: Expr,
    env: spec_fn(Symbol) -> int,
) -> bool {
    match k {
        NumberTheoryRule::FactorialRecurse => match e {
            Expr::Factorial(n) => value(*n, env) == Some(0int),
            _ => false,
        },
        NumberTheoryRule::ExtendedGcd => match e {
            Expr::GCD(a, b) => match (*a, *b) {
                (Expr::Const(x), Expr::Const(y)) => bezout(x.num as int, y.num as int).0 < 0,
                _ => false,
            },
            _ => false,
        },
        NumberTheoryRule::SqrtQuotient => match e {
            Expr::Sqrt(inner) => match *inner {
                Expr::Div(a, b) => value(crate::expr::root(*a), env) is None || value(crate::expr::root(*b), env) is None,
                _ => false,
            },
            _ => false,
        },
        _ => false,
    }
}

/// The rules of square roots keep the value: `√(a²) = |a|`, `(√a)² = a`,
/// `√a·√b = √(ab)`, `√(a/b) = √a/√b` where both roots exist, and `a^(1/2)`,
/// which has no integer value since its exponent is none.
proof fn lemma_square_roots(k: NumberTheoryRule, e: Expr, env: spec_fn(Symbol) -> int)
    requires
        k == NumberTheoryRule::SqrtSquare || k == NumberTheoryRule::SquareSqrt || k == NumberTheoryRule::SqrtProduct
            || k == NumberTheoryRule::SqrtQuotient || k == NumberTheoryRule::HalfPowerSqrt,
        number_theory::applies(k, e),
        value(e, env) is Some,
        !number_theory_value_exception(k, e, env),
    ensures
        all_valued(number_theory::results(k, e), env, value(e, env)),
{
    let rs = number_theory::results(k, e);
    assert(value(lit(2), env) == Some(2int));
    if k == NumberTheoryRule::SqrtSquare {
        if let Expr::Sqrt(inner) = e {
            if let Expr::Pow(base, _) = *inner {
                let a = value(*base, env).unwrap();
                lemma_square(a);
                assert(value(*inner, env) == Some(a * a));
                let r = nat_abs(a);
                assert(r * r == a * a) by (nonlinear_arith)
                    requires
                        r == a || r == -a,
                ;
                lemma_square_root(a * a, r);
                lemma_one_result(rs, absolute(*base), env, value(e, env));
            }
        }
    } else if k == NumberTheoryRule::SquareSqrt {
        if let Expr::Pow(base, _) = e {
            if let Expr::Sqrt(inner) = *base {
                let x = value(*inner, env).unwrap();
                lemma_square_root_found(x);
                let r = value(*base, env).unwrap();
                lemma_square(r);
                lemma_one_result(rs, *inner, env, value(e, env));
            }
        }
    } else if k == NumberTheoryRule::SqrtProduct {
        if let Expr::Mul(a, b) = e {
            if let (Expr::Sqrt(x), Expr::Sqrt(y)) = (*a, *b) {
                let xv = value(*x, env).unwrap();
                let yv = value(*y, env).unwrap();
                lemma_square_root_found(xv);
                lemma_square_root_found(yv);
                let r = value(*a, env).unwrap();
                let s = value(*b, env).unwrap();
                assert((r * s) * (r * s) == xv * yv && r * s >= 0) by (nonlinear_arith)
                    requires
                        r * r == xv,
                        s * s == yv,
                        r >= 0,
                        s >= 0,
                ;
                let p: nat = (r * s) as nat;
                assert(p == r * s);
                lemma_square_root(xv * yv, p);
                assert(value(times(*x, *y), env) == Some(xv * yv));
                assert(value(crate::expr::root(times(*x, *y)), env) == Some(r * s));
                assert(value(e, env) == Some(r * s));
                lemma_one_result(rs, crate::expr::root(times(*x, *y)), env, value(e, env));
            }
        }
    } else if k == NumberTheoryRule::SqrtQuotient {
        if let Expr::Sqrt(inner) = e {
            if let Expr::Div(a, b) = *inner {
                let av = value(*a, env).unwrap();
                let bv = value(*b, env).unwrap();
                let q = av / bv;
                assert(bv != 0 && av % bv == 0);
                lemma_square_root_found(q);
                let t = value(e, env).unwrap();
                let ra = crate::expr::root(*a);
                let rb = crate::expr::root(*b);
                lemma_square_root_found(av);
                lemma_square_root_found(bv);
                let r = value(ra, env).unwrap();
                let s = value(rb, env).unwrap();
                vstd::arithmetic::div_mod::lemma_fundamental_div_mod(av, bv);
                assert(av == bv * q);
                assert(value(ra, env) == square_root(av));
                assert(value(rb, env) == square_root(bv));
                assert(r * r == av && r >= 0);
                assert(s * s == bv && s >= 0);
                assert(t * t == q && t >= 0);
                assert(s != 0) by (nonlinear_arith)
                    requires
                        s * s == bv,
                        bv != 0,
                ;
                assert(r * r == (t * s) * (t * s)) by (nonlinear_arith)
                    requires
                        r * r == av,
                        s * s == bv,
                        t * t == q,
                        av == bv * q,
                ;
                assert(t * s >= 0) by (nonlinear_arith)
                    requires
                        t >= 0,
                        s >= 0,
                ;
                assert(r == t * s) by {
                    let rn: nat = r as nat;
                    let tsn: nat = (t * s) as nat;
                    assert(rn * rn == r * r);
                    assert(tsn * tsn == r * r);
                    lemma_square_root(r * r, rn);
                    lemma_square_root(r * r, tsn);
                }
                lemma_exact_div(t, s);
                assert(value(over(ra, rb), env) == Some(t));
                lemma_one_result(rs, over(ra, rb), env, value(e, env));
            }
        }
    } else {
        if let Expr::Pow(base, exp) = e {
            if let Expr::Div(num, den) = *exp {
                assert(value(*num, env) == Some(1int));
                assert(value(*den, env) == Some(2int));
                assert(1int % 2 != 0);
                assert(value(*exp, env) is None);
            }
        }
    }
}

/// Each outcome has the value `v`.
pub open spec fn all_valued(rs: Seq<(Expr, Seq<char>)>, env: spec_fn(Symbol) -> int, v: Option<int>) -> bool {
    forall|i: int| 0 <= i < rs.len() ==> value(#[trigger] rs[i].0, env) == v
}

/// `|x·y| = |x|·|y|`.
proof fn lemma_abs_mul(x: int, y: int)
    ensures
        nat_abs(x * y) == nat_abs(x) * nat_abs(y),
{
    if x >= 0 && y >= 0 {
        assert(x * y >= 0) by (nonlinear_arith)
            requires
                x >= 0,
                y >= 0,
        ;
    } else if x < 0 && y < 0 {
        assert(x * y == (-x) * (-y) && (-x) * (-y) >= 0) by (nonlinear_arith)
            requires
                x < 0,
                y < 0,
        ;
    } else if x < 0 {
        assert(x * y == -((-x) * y) && (-x) * y >= 0) by (nonlinear_arith)
            requires
                x < 0,
                y >= 0,
        ;
    } else {
        assert(x * y == -(x * (-y)) && x * (-y) >= 0) by (nonlinear_arith)
            requires
                x >= 0,
                y < 0,
        ;
    }
}

/// A list of one result whose value is `v`.
proof fn lemma_one_result(rs: Seq<(Expr, Seq<char>)>, r: Expr, env: spec_fn(Symbol) -> int, v: Option<int>)
    requires
        rs.len() == 1,
        rs[0].0 == r,
        value(r, env) == v,
    ensures
        all_valued(rs, env, v),
{
}

proof fn lemma_divides_zero(e: Expr, env: spec_fn(Symbol) -> int)
    requires
        number_theory::applies(NumberTheoryRule::DividesZero, e),
        value(e, env) is Some,
    ensures
        all_valued(number_theory::results(NumberTheoryRule::DividesZero, e), env, value(e, env)),
{
    if let Expr::Div(num, den) = e {
        let d = value(*den, env).unwrap();
        assert(value(*num, env) == Some(0int));
        vstd::arithmetic::div_mod::lemma_div_basics(d);
        assert(value(e, env) == Some(0int));
        lemma_one_result(number_theory::results(NumberTheoryRule::DividesZero, e), lit(0), env, value(e, env));
    }
}

proof fn lemma_divides_self(e: Expr, env: spec_fn(Symbol) -> int)
    requires
        number_theory::applies(NumberTheoryRule::DividesSelf, e),
        value(e, env) is Some,
    ensures
        all_valued(number_theory::results(NumberTheoryRule::DividesSelf, e), env, value(e, env)),
{
    if let Expr::Div(num, den) = e {
        let d = value(*den, env).unwrap();
        vstd::arithmetic::div_mod::lemma_div_basics(d);
        lemma_one_result(number_theory::results(NumberTheoryRule::DividesSelf, e), lit(1), env, value(e, env));
    }
}

proof fn lemma_cancel_common_factor(e: Expr, env: spec_fn(Symbol) -> int)
    requires
        number_theory::applies(NumberTheoryRule::CancelCommonFactor, e),
        value(e, env) is Some,
    ensures
        all_valued(number_theory::results(NumberTheoryRule::CancelCommonFactor, e), env, value(e, env)),
{
    if let Expr::Div(num, den) = e {
        if let Expr::Mul(a, b) = *num {
            let va = value(*a, env).unwrap();
            let vb = value(*b, env).unwrap();
            assert(value(*num, env) == Some(va * vb));
            let rs = number_theory::results(NumberTheoryRule::CancelCommonFactor, e);
            if a == den {
                lemma_exact_div(vb, va);
                lemma_one_result(rs, *b, env, value(e, env));
            } else if b == den {
                lemma_exact_div(va, vb);
                lemma_one_result(rs, *a, env, value(e, env));
            }
        }
    }
}

proof fn lemma_mul_by_denom(e: Expr, env: spec_fn(Symbol) -> int)
    requires
        number_theory::applies(NumberTheoryRule::MulByDenom, e),
        value(e, env) is Some,
    ensures
        all_valued(number_theory::results(NumberTheoryRule::MulByDenom, e), env, value(e, env)),
{
    if let Expr::Mul(a, b) = e {
        let rs = number_theory::results(NumberTheoryRule::MulByDenom, e);
        match (*a, *b) {
            (Expr::Div(n, d), _) => {
                if d == b {
                    let vn = value(*n, env).unwrap();
                    let vd = value(*d, env).unwrap();
                    assert(value(*a, env) == Some(vn / vd));
                    vstd::arithmetic::div_mod::lemma_fundamental_div_mod(vn, vd);
                    assert(vn / vd * vd == vd * (vn / vd)) by (nonlinear_arith);
                    lemma_one_result(rs, *n, env, value(e, env));
                } else {
                    match *b {
                        Expr::Div(n2, d2) => {
                            let vn = value(*n2, env).unwrap();
                            let vd = value(*d2, env).unwrap();
                            assert(value(*b, env) == Some(vn / vd));
                            vstd::arithmetic::div_mod::lemma_fundamental_div_mod(vn, vd);
                            lemma_one_result(rs, *n2, env, value(e, env));
                        },
                        _ => {},
                    }
                }
            },
            (_, Expr::Div(n, d)) => {
                let vn = value(*n, env).unwrap();
                let vd = value(*d, env).unwrap();
                assert(value(*b, env) == Some(vn / vd));
                vstd::arithmetic::div_mod::lemma_fundamental_div_mod(vn, vd);
                lemma_one_result(rs, *n, env, value(e, env));
            },
            _ => {},
        }
    }
}

proof fn lemma_even_sum(e: Expr, env: spec_fn(Symbol) -> int)
    requires
        number_theory::applies(NumberTheoryRule::EvenSum, e),
        value(e, env) is Some,
    ensures
        all_valued(number_theory::results(NumberTheoryRule::EvenSum, e), env, value(e, env)),
{
    if let Expr::Add(a, b) = e {
        let r = times(lit(2), *a);
        let va = value(*a, env).unwrap();
        assert(value(lit(2), env) == Some(2int));
        assert(value(r, env) == Some(2 * va));
        lemma_one_result(number_theory::results(NumberTheoryRule::EvenSum, e), r, env, value(e, env));
    }
}

proof fn lemma_unchanged(k: NumberTheoryRule, e: Expr, env: spec_fn(Symbol) -> int)
    requires
        k == NumberTheoryRule::DivBy2 || k == NumberTheoryRule::SumConstant,
        number_theory::applies(k, e),
        value(e, env) is Some,
    ensures
        all_valued(number_theory::results(k, e), env, value(e, env)),
{
    if let Expr::Mul(a, b) = e {
        assert(times(*a, *b) == e);
        lemma_one_result(number_theory::results(k, e), e, env, value(e, env));
    }
}

proof fn lemma_mod_rules(k: NumberTheoryRule, e: Expr, env: spec_fn(Symbol) -> int)
    requires
        k == NumberTheoryRule::ModSelf || k == NumberTheoryRule::ZeroMod || k == NumberTheoryRule::ModOne,
        number_theory::applies(k, e),
        value(e, env) is Some,
    ensures
        all_valued(number_theory::results(k, e), env, value(e, env)),
{
    if let Expr::Mod(a, b) = e {
        let x = value(*a, env).unwrap();
        let y = value(*b, env).unwrap();
        assert(value(e, env) == Some(x % y));
        if k == NumberTheoryRule::ModSelf {
            vstd::arithmetic::div_mod::lemma_mod_self_0(y);
        } else if k == NumberTheoryRule::ZeroMod {
            assert(x == 0);
            vstd::arithmetic::div_mod::lemma_small_mod(0, y as nat);
        } else {
            assert(y == 1);
        }
        lemma_one_result(number_theory::results(k, e), lit(0), env, value(e, env));
    }
}

proof fn lemma_difference_of_squares(e: Expr, env: spec_fn(Symbol) -> int)
    requires
        number_theory::applies(NumberTheoryRule::DiffSquaresFactor, e),
        value(e, env) is Some,
    ensures
        all_valued(number_theory::results(NumberTheoryRule::DiffSquaresFactor, e), env, value(e, env)),
{
    if let Expr::Sub(a, b) = e {
        if let (Expr::Pow(x, ex), Expr::Pow(y, ey)) = (*a, *b) {
            let vx = value(*x, env).unwrap();
            let vy = value(*y, env).unwrap();
            assert(value(*ex, env) == Some(2int));
            assert(value(*ey, env) == Some(2int));
            lemma_square(vx);
            lemma_square(vy);
            assert(value(*a, env) == Some(vx * vx));
            assert(value(*b, env) == Some(vy * vy));
            let r = times(plus(*x, *y), minus(*x, *y));
            assert(value(plus(*x, *y), env) == Some(vx + vy));
            assert(value(minus(*x, *y), env) == Some(vx - vy));
            assert(value(r, env) == Some((vx + vy) * (vx - vy)));
            assert(vx * vx - vy * vy == (vx + vy) * (vx - vy)) by (nonlinear_arith);
            lemma_one_result(number_theory::results(NumberTheoryRule::DiffSquaresFactor, e), r, env, value(e, env));
        }
    }
}

proof fn lemma_cubes(k: NumberTheoryRule, e: Expr, env: spec_fn(Symbol) -> int)
    requires
        k == NumberTheoryRule::DiffCubesFactor || k == NumberTheoryRule::SumCubesFactor,
        number_theory::applies(k, e),
        value(e, env) is Some,
    ensures
        all_valued(number_theory::results(k, e), env, value(e, env)),
{
    let (a, b) = match e {
        Expr::Sub(a, b) => (*a, *b),
        Expr::Add(a, b) => (*a, *b),
        _ => (e, e),
    };
    if let (Expr::Pow(x, ex), Expr::Pow(y, ey)) = (a, b) {
        let vx = value(*x, env).unwrap();
        let vy = value(*y, env).unwrap();
        assert(value(*ex, env) == Some(3int));
        assert(value(*ey, env) == Some(3int));
        lemma_square(vx);
        lemma_square(vy);
        assert(value(a, env) == Some(vx * vx * vx));
        assert(value(b, env) == Some(vy * vy * vy));
        let x2 = power(*x, lit(2));
        let y2 = power(*y, lit(2));
        assert(value(lit(2), env) == Some(2int));
        assert(value(x2, env) == Some(vx * vx));
        assert(value(y2, env) == Some(vy * vy));
        assert(value(times(*x, *y), env) == Some(vx * vy));
        if k == NumberTheoryRule::DiffCubesFactor {
            let s = plus(plus(x2, times(*x, *y)), y2);
            let r = times(minus(*x, *y), s);
            assert(value(plus(x2, times(*x, *y)), env) == Some(vx * vx + vx * vy));
            assert(value(s, env) == Some(vx * vx + vx * vy + vy * vy));
            assert(value(minus(*x, *y), env) == Some(vx - vy));
            assert(value(r, env) == Some((vx - vy) * (vx * vx + vx * vy + vy * vy)));
            assert(vx * vx * vx - vy * vy * vy == (vx - vy) * (vx * vx + vx * vy + vy * vy))
                by (nonlinear_arith);
            lemma_one_result(number_theory::results(k, e), r, env, value(e, env));
        } else {
            let s = plus(minus(x2, times(*x, *y)), y2);
            let r = times(plus(*x, *y), s);
            assert(value(minus(x2, times(*x, *y)), env) == Some(vx * vx - vx * vy));
            assert(value(s, env) == Some(vx * vx - vx * vy + vy * vy));
            assert(value(plus(*x, *y), env) == Some(vx + vy));
            assert(value(r, env) == Some((vx + vy) * (vx * vx - vx * vy + vy * vy)));
            assert(vx * vx * vx + vy * vy * vy == (vx + vy) * (vx * vx - vx * vy + vy * vy))
                by (nonlinear_arith);
            lemma_one_result(number_theory::results(k, e), r, env, value(e, env));
        }
    }
}

proof fn lemma_binomial_squares(k: NumberTheoryRule, e: Expr, env: spec_fn(Symbol) -> int)
    requires
        k == NumberTheoryRule::SquareBinomialExpand || k == NumberTheoryRule::SquareBinomialSubExpand,
        number_theory::applies(k, e),
        value(e, env) is Some,
    ensures
        all_valued(number_theory::results(k, e), env, value(e, env)),
{
    if let Expr::Pow(base, ex) = e {
        let (a, b) = match *base {
            Expr::Add(a, b) => (*a, *b),
            Expr::Sub(a, b) => (*a, *b),
            _ => (e, e),
        };
        let va = value(a, env).unwrap();
        let vb = value(b, env).unwrap();
        assert(value(*ex, env) == Some(2int));
        assert(value(lit(2), env) == Some(2int));
        lemma_square(va);
        lemma_square(vb);
        lemma_square(va + vb);
        lemma_square(va - vb);
        let a2 = power(a, lit(2));
        let b2 = power(b, lit(2));
        let ab2 = times(lit(2), times(a, b));
        assert(value(a2, env) == Some(va * va));
        assert(value(b2, env) == Some(vb * vb));
        assert(value(times(a, b), env) == Some(va * vb));
        assert(value(ab2, env) == Some(2 * (va * vb)));
        if k == NumberTheoryRule::SquareBinomialExpand {
            let r = plus(plus(a2, ab2), b2);
            assert(value(*base, env) == Some(va + vb));
            assert(value(plus(a2, ab2), env) == Some(va * va + 2 * (va * vb)));
            assert((va + vb) * (va + vb) == va * va + 2 * (va * vb) + vb * vb) by (nonlinear_arith);
            lemma_one_result(number_theory::results(k, e), r, env, value(e, env));
        } else {
            let r = plus(minus(a2, ab2), b2);
            assert(value(*base, env) == Some(va - vb));
            assert(value(minus(a2, ab2), env) == Some(va * va - 2 * (va * vb)));
            assert((va - vb) * (va - vb) == va * va - 2 * (va * vb) + vb * vb) by (nonlinear_arith);
            lemma_one_result(number_theory::results(k, e), r, env, value(e, env));
        }
    }
}

proof fn lemma_gcd_rules(k: NumberTheoryRule, e: Expr, env: spec_fn(Symbol) -> int)
    requires
        k == NumberTheoryRule::GcdSelf || k == NumberTheoryRule::GcdZero || k == NumberTheoryRule::GcdOne
            || k == NumberTheoryRule::LcmSelf || k == NumberTheoryRule::LcmOne,
        number_theory::applies(k, e),
        value(e, env) is Some,
    ensures
        all_valued(number_theory::results(k, e), env, value(e, env)),
{
    let (a, b) = match e {
        Expr::GCD(a, b) => (*a, *b),
        Expr::LCM(a, b) => (*a, *b),
        _ => (e, e),
    };
    assert(value(a, env) is Some && value(b, env) is Some);
    let x = value(a, env).unwrap();
    let y = value(b, env).unwrap();
    assert(e is GCD ==> value(e, env) == Some(gcd(nat_abs(x), nat_abs(y)) as int));
    assert(e is LCM ==> value(e, env) == Some(lcm(nat_abs(x), nat_abs(y)) as int));
    lemma_gcd_values(nat_abs(x));
    lemma_lcm_values(nat_abs(x));
    assert(value(lit(1), env) == Some(1int));
    let ab = absolute(a);
    assert(value(ab, env) == Some(nat_abs(x) as int));
    let rs = number_theory::results(k, e);
    if k == NumberTheoryRule::GcdOne {
        assert(y == 1);
        lemma_one_result(rs, lit(1), env, value(e, env));
    } else {
        if k == NumberTheoryRule::GcdZero {
            assert(y == 0);
        } else if k == NumberTheoryRule::LcmOne {
            assert(y == 1);
        } else {
            assert(a == b);
        }
        lemma_one_result(rs, ab, env, value(e, env));
    }
}

proof fn lemma_gcd_lcm_product(e: Expr, env: spec_fn(Symbol) -> int)
    requires
        number_theory::applies(NumberTheoryRule::GcdLcmProduct, e),
        value(e, env) is Some,
    ensures
        all_valued(number_theory::results(NumberTheoryRule::GcdLcmProduct, e), env, value(e, env)),
{
    if let Expr::Mul(l, r) = e {
        let (a, b) = match *l {
            Expr::GCD(a, b) => (*a, *b),
            Expr::LCM(a, b) => (*a, *b),
            _ => (e, e),
        };
        assert(value(*l, env) is Some);
        assert(value(a, env) is Some && value(b, env) is Some);
        let x = value(a, env).unwrap();
        let y = value(b, env).unwrap();
        let g = gcd(nat_abs(x), nat_abs(y));
        let m = lcm(nat_abs(x), nat_abs(y));
        assert(value(*l, env) == Some(g as int) || value(*l, env) == Some(m as int));
        assert(value(*r, env) == Some(g as int) || value(*r, env) == Some(m as int));
        lemma_gcd_times_lcm(nat_abs(x), nat_abs(y));
        lemma_abs_mul(x, y);
        assert(g * m == m * g) by (nonlinear_arith);
        assert(value(times(a, b), env) == Some(x * y));
        let res = absolute(times(a, b));
        assert(value(res, env) == Some(nat_abs(x * y) as int));
        lemma_one_result(number_theory::results(NumberTheoryRule::GcdLcmProduct, e), res, env, value(e, env));
    }
}

proof fn lemma_powers_of_minus_one(k: NumberTheoryRule, e: Expr, env: spec_fn(Symbol) -> int)
    requires
        k == NumberTheoryRule::NegOneEvenPower || k == NumberTheoryRule::NegOneOddPower || k
            == NumberTheoryRule::NegSquared,
        number_theory::applies(k, e),
        value(e, env) is Some,
    ensures
        all_valued(number_theory::results(k, e), env, value(e, env)),
{
    if let Expr::Pow(base, exp) = e {
        if let (Expr::Neg(inner), Expr::Const(n)) = (*base, *exp) {
            let x = value(*inner, env).unwrap();
            let p = n.num as int;
            assert(value(*exp, env) == Some(p));
            assert(value(*base, env) == Some(-x));
            assert(p >= 0);
            assert(tmod(p, 2) == p % 2);
            lemma_minus_one_power(p as nat);
            let rs = number_theory::results(k, e);
            if k == NumberTheoryRule::NegSquared {
                lemma_negated_even_power(x, p as nat);
                lemma_one_result(rs, power(*inner, *exp), env, value(e, env));
            } else if k == NumberTheoryRule::NegOneEvenPower {
                assert(x == 1);
                lemma_one_result(rs, lit(1), env, value(e, env));
            } else {
                assert(x == 1);
                assert(value(lit(1), env) == Some(1int));
                lemma_one_result(rs, negate(lit(1)), env, value(e, env));
            }
        }
    }
}

proof fn lemma_factorials(k: NumberTheoryRule, e: Expr, env: spec_fn(Symbol) -> int)
    requires
        k == NumberTheoryRule::FactorialZero || k == NumberTheoryRule::FactorialOne || k
            == NumberTheoryRule::FactorialRecurse,
        number_theory::applies(k, e),
        value(e, env) is Some,
        !number_theory_value_exception(k, e, env),
    ensures
        all_valued(number_theory::results(k, e), env, value(e, env)),
{
    if let Expr::Factorial(n) = e {
        let x = value(*n, env).unwrap();
        assert(factorial(0) == 1);
        assert(factorial(1) == 1);
        let rs = number_theory::results(k, e);
        if k == NumberTheoryRule::FactorialRecurse {
            assert(x >= 1);
            let m1 = minus(*n, lit(1));
            assert(value(m1, env) == Some(x - 1));
            assert(value(fact(m1), env) == Some(factorial((x - 1) as nat) as int));
            assert(factorial(x as nat) == x * factorial((x - 1) as nat));
            lemma_one_result(rs, times(*n, fact(m1)), env, value(e, env));
        } else {
            lemma_one_result(rs, lit(1), env, value(e, env));
        }
    }
}

proof fn lemma_integer_parts(k: NumberTheoryRule, e: Expr, env: spec_fn(Symbol) -> int)
    requires
        k == NumberTheoryRule::FloorInteger || k == NumberTheoryRule::CeilingInteger,
        number_theory::applies(k, e),
        value(e, env) is Some,
    ensures
        all_valued(number_theory::results(k, e), env, value(e, env)),
{
    let inner = match e {
        Expr::Floor(a) => *a,
        Expr::Ceiling(a) => *a,
        _ => e,
    };
    lemma_one_result(number_theory::results(k, e), inner, env, value(e, env));
}

proof fn lemma_modular_power(e: Expr, env: spec_fn(Symbol) -> int)
    requires
        number_theory::applies(NumberTheoryRule::ModularExponentiation, e),
        value(e, env) is Some,
    ensures
        all_valued(number_theory::results(NumberTheoryRule::ModularExponentiation, e), env, value(e, env)),
{
    if let Expr::Mod(inner, modulus) = e {
        if let (Expr::Pow(base, exp), Expr::Const(m)) = (*inner, *modulus) {
            if let (Expr::Const(a), Expr::Const(n)) = (*base, *exp) {
                let av = a.num as int;
                let nv = n.num as int;
                let mv = m.num as int;
                assert(value(*base, env) == Some(av));
                assert(value(*exp, env) == Some(nv));
                assert(value(*modulus, env) == Some(mv));
                assert(nv >= 0);
                assert(value(*inner, env) == Some(pow(av, nv as nat)));
                let r = mod_pow(av, nv, mv);
                lemma_mod_pow(av, nv, mv);
                assert(value(lit(r as i64), env) == Some(r));
                lemma_one_result(
                    number_theory::results(NumberTheoryRule::ModularExponentiation, e),
                    lit(r as i64),
                    env,
                    value(e, env),
                );
            }
        }
    }
}

proof fn lemma_extended_gcd(e: Expr, env: spec_fn(Symbol) -> int)
    requires
        number_theory::applies(NumberTheoryRule::ExtendedGcd, e),
        value(e, env) is Some,
        !number_theory_value_exception(NumberTheoryRule::ExtendedGcd, e, env),
    ensures
        all_valued(number_theory::results(NumberTheoryRule::ExtendedGcd, e), env, value(e, env)),
{
    if let Expr::GCD(a, b) = e {
        if let (Expr::Const(x), Expr::Const(y)) = (*a, *b) {
            let xv = x.num as int;
            let yv = y.num as int;
            assert(value(*a, env) == Some(xv));
            assert(value(*b, env) == Some(yv));
            lemma_bezout(xv, yv);
            let g = bezout(xv, yv).0;
            assert(g >= 0);
            assert(g == gcd(nat_abs(xv), nat_abs(yv)));
            assert(value(lit(g as i64), env) == Some(g));
            lemma_one_result(number_theory::results(NumberTheoryRule::ExtendedGcd, e), lit(g as i64), env, value(e, env));
        }
    }
}

/// A number-theory rewrite keeps the value of what it rewrites: for each
/// rule of [`number_theory_keeps_value`], every result it gives for an
/// expression it applies to has the value of that expression, wherever the
/// expression has a value and the input is none of those of
/// [`number_theory_value_exception`].
pub proof fn lemma_number_theory_rewrite_keeps_value(
    k: NumberTheoryRule,
    e: Expr,
    env: spec_fn(Symbol) -> int,
)
    requires
        number_theory_keeps_value(k),
        number_theory::applies(k, e),
        value(e, env) is Some,
        !number_theory_value_exception(k, e, env),
    ensures
        all_valued(number_theory::results(k, e), env, value(e, env)),
{
    match k {
        NumberTheoryRule::DividesZero => lemma_divides_zero(e, env),
        NumberTheoryRule::DividesSelf => lemma_divides_self(e, env),
        NumberTheoryRule::EvenSum => lemma_even_sum(e, env),
        NumberTheoryRule::DivBy2 => lemma_unchanged(k, e, env),
        NumberTheoryRule::SumConstant => lemma_unchanged(k, e, env),
        NumberTheoryRule::CancelCommonFactor => lemma_cancel_common_factor(e, env),
        NumberTheoryRule::MulByDenom => lemma_mul_by_denom(e, env),
        NumberTheoryRule::DiffSquaresFactor => lemma_difference_of_squares(e, env),
        NumberTheoryRule::DiffCubesFactor => lemma_cubes(k, e, env),
        NumberTheoryRule::SumCubesFactor => lemma_cubes(k, e, env),
        NumberTheoryRule::SquareBinomialExpand => lemma_binomial_squares(k, e, env),
        NumberTheoryRule::SquareBinomialSubExpand => lemma_binomial_squares(k, e, env),
        NumberTheoryRule::ModSelf => lemma_mod_rules(k, e, env),
        NumberTheoryRule::ZeroMod => lemma_mod_rules(k, e, env),
        NumberTheoryRule::ModOne => lemma_mod_rules(k, e, env),
        NumberTheoryRule::ModularExponentiation => lemma_modular_power(e, env),
        NumberTheoryRule::ExtendedGcd => lemma_extended_gcd(e, env),
        NumberTheoryRule::GcdSelf => lemma_gcd_rules(k, e, env),
        NumberTheoryRule::GcdZero => lemma_gcd_rules(k, e, env),
        NumberTheoryRule::GcdOne => lemma_gcd_rules(k, e, env),
        NumberTheoryRule::LcmSelf => lemma_gcd_rules(k, e, env),
        NumberTheoryRule::LcmOne => lemma_gcd_rules(k, e, env),
        NumberTheoryRule::GcdLcmProduct => lemma_gcd_lcm_product(e, env),
        NumberTheoryRule::NegOneEvenPower => lemma_powers_of_minus_one(k, e, env),
        NumberTheoryRule::NegOneOddPower => lemma_powers_of_minus_one(k, e, env),
        NumberTheoryRule::NegSquared => lemma_powers_of_minus_one(k, e, env),
        NumberTheoryRule::FactorialZero => lemma_factorials(k, e, env),
        NumberTheoryRule::FactorialOne => lemma_factorials(k, e, env),
        NumberTheoryRule::FactorialRecurse => lemma_factorials(k, e, env),
        NumberTheoryRule::FloorInteger => lemma_integer_parts(k, e, env),
        NumberTheoryRule::CeilingInteger => lemma_integer_parts(k, e, env),
        NumberTheoryRule::SqrtSquare => lemma_square_roots(k, e, env),
        NumberTheoryRule::SquareSqrt => lemma_square_roots(k, e, env),
        NumberTheoryRule::SqrtProduct => lemma_square_roots(k, e, env),
        NumberTheoryRule::SqrtQuotient => lemma_square_roots(k, e, env),
        NumberTheoryRule::HalfPowerSqrt => lemma_square_roots(k, e, env),
        _ => {},
    }
}


/// The polynomial rules that replace an expression by one of the same
/// value: `x² + y² = (x+y)² - 2xy`, `x³ + y³ = (x+y)³ - 3xy(x+y)`, the
/// difference and the sum of cubes, and completing the square.
pub open spec fn polynomial_keeps_value(k: PolynomialRule) -> bool {
    k == PolynomialRule::SumSquaresSym || k == PolynomialRule::SumCubesSym || k == PolynomialRule::DiffCubes
        || k == PolynomialRule::SumCubes || k == PolynomialRule::CompleteSquare
}

/// The inputs on which one of those rules gives a result of another value
/// than its input: completing the square `x² + bx` with an odd `b`, whose
/// half `b/2` is no integer.
pub open spec fn polynomial_value_exception(k: PolynomialRule, e: Expr, env: spec_fn(Symbol) -> int) -> bool {
    match k {
        PolynomialRule::CompleteSquare => match e {
            Expr::Add(a, b) => match polynomials::linear_coefficient(*a, *b) {
                Some(c) => value(c, env) matches Some(v) && v % 2 != 0,
                None => false,
            },
            _ => false,
        },
        _ => false,
    }
}

/// Completing the square keeps the value of `x² + bx` for an even `b`.
proof fn lemma_complete_square(e: Expr, env: spec_fn(Symbol) -> int)
    requires
        polynomials::applies(PolynomialRule::CompleteSquare, e),
        value(e, env) is Some,
        !polynomial_value_exception(PolynomialRule::CompleteSquare, e, env),
    ensures
        all_valued(polynomials::results(PolynomialRule::CompleteSquare, e), env, value(e, env)),
{
    if let Expr::Add(a, b) = e {
        if let (Expr::Pow(x, ex), Some(c)) = (*a, polynomials::linear_coefficient(*a, *b)) {
            let vx = value(*x, env).unwrap();
            assert(value(*ex, env) == Some(2int));
            lemma_square(vx);
            assert(value(*a, env) == Some(vx * vx));
            let vc = value(c, env).unwrap();
            assert(value(*b, env) == Some(vc * vx) || value(*b, env) == Some(vx * vc));
            assert(vx * vc == vc * vx) by (nonlinear_arith);
            assert(value(*b, env) == Some(vc * vx));
            assert(vc % 2 == 0);
            let h = vc / 2;
            assert(vc == 2 * h);
            assert(value(lit(2), env) == Some(2int));
            let half = crate::expr::over(c, lit(2));
            assert(value(half, env) == Some(h));
            lemma_square(vx + h);
            lemma_square(h);
            let r = minus(power(plus(*x, half), lit(2)), power(half, lit(2)));
            assert(value(plus(*x, half), env) == Some(vx + h));
            assert(value(power(plus(*x, half), lit(2)), env) == Some(pow(vx + h, 2)));
            assert(value(power(half, lit(2)), env) == Some(pow(h, 2)));
            assert(value(r, env) == Some((vx + h) * (vx + h) - h * h));
            assert((vx + h) * (vx + h) - h * h == vx * vx + vc * vx) by (nonlinear_arith)
                requires
                    vc == 2 * h,
            ;
            lemma_one_result(polynomials::results(PolynomialRule::CompleteSquare, e), r, env, value(e, env));
        }
    }
}

/// A polynomial rewrite keeps the value of what it rewrites: for each rule
/// of [`polynomial_keeps_value`], every result it gives for an expression
/// it applies to has the value of that expression, wherever the expression
/// has one and the input is none of those of [`polynomial_value_exception`].
pub proof fn lemma_polynomial_rewrite_keeps_value(k: PolynomialRule, e: Expr, env: spec_fn(Symbol) -> int)
    requires
        polynomial_keeps_value(k),
        polynomials::applies(k, e),
        value(e, env) is Some,
        !polynomial_value_exception(k, e, env),
    ensures
        all_valued(polynomials::results(k, e), env, value(e, env)),
{
    if k == PolynomialRule::CompleteSquare {
        lemma_complete_square(e, env);
        return;
    }
    let (a, b) = match e {
        Expr::Sub(a, b) => (*a, *b),
        Expr::Add(a, b) => (*a, *b),
        _ => (e, e),
    };
    if let (Expr::Pow(x, ex), Expr::Pow(y, ey)) = (a, b) {
        let vx = value(*x, env).unwrap();
        let vy = value(*y, env).unwrap();
        lemma_square(vx);
        lemma_square(vy);
        assert(value(lit(2), env) == Some(2int));
        let x2 = power(*x, lit(2));
        let y2 = power(*y, lit(2));
        let xy = times(*x, *y);
        assert(value(x2, env) == Some(vx * vx));
        assert(value(y2, env) == Some(vy * vy));
        assert(value(xy, env) == Some(vx * vy));
        if k == PolynomialRule::SumSquaresSym {
            assert(value(*ex, env) == Some(2int));
            assert(value(*ey, env) == Some(2int));
            assert(value(a, env) == Some(vx * vx));
            assert(value(b, env) == Some(vy * vy));
            let s = power(plus(*x, *y), lit(2));
            lemma_square(vx + vy);
            assert(value(plus(*x, *y), env) == Some(vx + vy));
            assert(value(s, env) == Some((vx + vy) * (vx + vy)));
            assert(value(times(lit(2), xy), env) == Some(2 * (vx * vy)));
            let r = minus(s, times(lit(2), xy));
            assert((vx + vy) * (vx + vy) - 2 * (vx * vy) == vx * vx + vy * vy) by (nonlinear_arith);
            lemma_one_result(polynomials::results(k, e), r, env, value(e, env));
        } else if k == PolynomialRule::SumCubesSym {
            assert(value(*ex, env) == Some(3int));
            assert(value(*ey, env) == Some(3int));
            assert(value(a, env) == Some(vx * vx * vx));
            assert(value(b, env) == Some(vy * vy * vy));
            let sum = plus(*x, *y);
            assert(value(sum, env) == Some(vx + vy));
            assert(value(lit(3), env) == Some(3int));
            let c = power(sum, lit(3));
            lemma_square(vx + vy);
            assert(value(c, env) == Some(pow(vx + vy, 3)));
            assert(value(c, env) == Some((vx + vy) * (vx + vy) * (vx + vy)));
            let t = times(lit(3), times(xy, sum));
            assert(value(times(xy, sum), env) == Some((vx * vy) * (vx + vy)));
            assert(value(t, env) == Some(3 * ((vx * vy) * (vx + vy))));
            let r = minus(c, t);
            assert((vx + vy) * (vx + vy) * (vx + vy) - 3 * ((vx * vy) * (vx + vy)) == vx * vx * vx + vy * vy * vy)
                by (nonlinear_arith);
            lemma_one_result(polynomials::results(k, e), r, env, value(e, env));
        } else if k == PolynomialRule::SumCubes {
            assert(value(*ex, env) == Some(3int));
            assert(value(*ey, env) == Some(3int));
            assert(value(a, env) == Some(vx * vx * vx));
            assert(value(b, env) == Some(vy * vy * vy));
            let s = plus(minus(x2, xy), y2);
            let r = times(plus(*x, *y), s);
            assert(value(minus(x2, xy), env) == Some(vx * vx - vx * vy));
            assert(value(s, env) == Some(vx * vx - vx * vy + vy * vy));
            assert(value(plus(*x, *y), env) == Some(vx + vy));
            assert(value(r, env) == Some((vx + vy) * (vx * vx - vx * vy + vy * vy)));
            assert(vx * vx * vx + vy * vy * vy == (vx + vy) * (vx * vx - vx * vy + vy * vy))
                by (nonlinear_arith);
            lemma_one_result(polynomials::results(k, e), r, env, value(e, env));
        } else {
            assert(value(*ex, env) == Some(3int));
            assert(value(*ey, env) == Some(3int));
            assert(value(a, env) == Some(vx * vx * vx));
            assert(value(b, env) == Some(vy * vy * vy));
            let s = plus(plus(x2, xy), y2);
            let r = times(minus(*x, *y), s);
            assert(value(plus(x2, xy), env) == Some(vx * vx + vx * vy));
            assert(value(s, env) == Some(vx * vx + vx * vy + vy * vy));
            assert(value(minus(*x, *y), env) == Some(vx - vy));
            assert(value(r, env) == Some((vx - vy) * (vx * vx + vx * vy + vy * vy)));
            assert(vx * vx * vx - vy * vy * vy == (vx - vy) * (vx * vx + vx * vy + vy * vy))
                by (nonlinear_arith);
            lemma_one_result(polynomials::results(k, e), r, env, value(e, env));
        }
    }
}

/// The combinatorics rules that replace an expression by one of the same
/// value: `C(n,0) = 1`, `C(n,n) = 1` and `C(n,1) = n`.
pub open spec fn combinatorics_keeps_value(k: CombinatoricsRule) -> bool {
    k == CombinatoricsRule::BinomialZero || k == CombinatoricsRule::BinomialFull || k
        == CombinatoricsRule::BinomialOne
}

/// A combinatorics rewrite keeps the value of what it rewrites: for each
/// rule of [`combinatorics_keeps_value`], every result it gives for an
/// expression it applies to has the value of that expression, wherever the
/// expression has one.
pub proof fn lemma_combinatorics_rewrite_keeps_value(k: CombinatoricsRule, e: Expr, env: spec_fn(Symbol) -> int)
    requires
        combinatorics_keeps_value(k),
        combinatorics::applies(k, e),
        value(e, env) is Some,
    ensures
        all_valued(combinatorics::results(k, e), env, value(e, env)),
{
    if let Expr::Binomial(n, j) = e {
        let vn = value(*n, env).unwrap();
        let vj = value(*j, env).unwrap();
        assert(vn >= 0);
        assert(value(e, env) == Some(comb(vn as nat, vj) as int));
        let rs = combinatorics::results(k, e);
        assert(value(lit(1), env) == Some(1int));
        if k == CombinatoricsRule::BinomialOne {
            assert(vj == 1);
            lemma_comb_one(vn as nat);
            lemma_one_result(rs, *n, env, value(e, env));
        } else {
            if k == CombinatoricsRule::BinomialZero {
                assert(vj == 0);
            } else {
                assert(vj == vn);
            }
            lemma_one_result(rs, lit(1), env, value(e, env));
        }
    }
}

/// Every result of a list is an equation that holds.
pub open spec fn all_hold(rs: Seq<(Expr, Seq<char>)>, env: spec_fn(Symbol) -> int) -> bool {
    forall|i: int| 0 <= i < rs.len() ==> holds(#[trigger] rs[i].0, env)
}

/// The combinatorics rules that state an identity about the binomial
/// coefficient they are applied to: symmetry and Pascal's rule.
pub open spec fn combinatorics_states_identity(k: CombinatoricsRule) -> bool {
    k == CombinatoricsRule::BinomialSymmetry || k == CombinatoricsRule::PascalIdentity
}

/// The identities of [`combinatorics_states_identity`] hold: applied to a
/// binomial coefficient `C(n, k)` that has a value, the equation they give
/// has sides of equal value, except Pascal's rule at `n = 0`, whose right
/// side asks for `C(-1, ·)`.
pub proof fn lemma_combinatorics_identities_hold(k: CombinatoricsRule, e: Expr, env: spec_fn(Symbol) -> int)
    requires
        combinatorics_states_identity(k),
        combinatorics::applies(k, e),
        value(e, env) is Some,
        k == CombinatoricsRule::PascalIdentity ==> !(e matches Expr::Binomial(n, _) && value(*n, env) == Some(0int)),
    ensures
        all_hold(combinatorics::results(k, e), env),
{
    if let Expr::Binomial(n, j) = e {
        let vn = value(*n, env).unwrap();
        let vj = value(*j, env).unwrap();
        assert(vn >= 0);
        assert(value(e, env) == Some(comb(vn as nat, vj) as int));
        let rs = combinatorics::results(k, e);
        if k == CombinatoricsRule::BinomialSymmetry {
            let rhs = crate::expr::binom(*n, minus(*n, *j));
            assert(value(minus(*n, *j), env) == Some(vn - vj));
            lemma_comb_symmetric(vn as nat, vj);
            assert(value(rhs, env) == value(e, env));
            assert(rs.len() == 1 && rs[0].0 == crate::expr::eqn(e, rhs));
            assert(holds(rs[0].0, env));
        } else {
            assert(vn >= 1);
            let n1 = minus(*n, lit(1));
            let j1 = minus(*j, lit(1));
            let rhs = plus(crate::expr::binom(n1, j1), crate::expr::binom(n1, *j));
            assert(value(lit(1), env) == Some(1int));
            assert(value(n1, env) == Some(vn - 1));
            assert(value(j1, env) == Some(vj - 1));
            assert(value(crate::expr::binom(n1, j1), env) == Some(comb((vn - 1) as nat, vj - 1) as int));
            assert(value(crate::expr::binom(n1, *j), env) == Some(comb((vn - 1) as nat, vj) as int));
            lemma_comb_pascal(vn as nat, vj);
            assert(value(rhs, env) == value(e, env));
            assert(rs.len() == 1 && rs[0].0 == crate::expr::eqn(e, rhs));
            assert(holds(rs[0].0, env));
        }
    }
}


/// A divisor of a positive `m` is at most `m`.
proof fn lemma_divisor_at_most(d: nat, m: nat)
    requires
        divides(d, m),
        m > 0,
    ensures
        d <= m,
{
    let k = choose|k: nat| #[trigger] (d * k) == m;
    if k == 0 {
        assert(d * k == 0) by (nonlinear_arith)
            requires
                k == 0,
        ;
    }
    assert(d * k >= d) by (nonlinear_arith)
        requires
            k >= 1,
    ;
}

/// The inverse that the modular inverse rule reports is the inverse: for a
/// modulus `m > 1` and an `a` coprime to it, the normalised extended
/// Euclidean gcd is `1`, and the reported number lies in `0..m` and `a`
/// times it is `1` modulo `m`.
pub proof fn lemma_modular_inverse(a: int, m: int)
    requires
        m > 1,
        gcd(nat_abs(a), nat_abs(m)) == 1,
    ensures
        bezout(a, m).0 == 1,
        0 <= inverse_of(a, m) < m,
        (a * inverse_of(a, m)) % m == 1,
{
    lemma_bezout(a, m);
    let x = bezout(a, m).1;
    let y = bezout(a, m).2;
    lemma_tmod_congruent(x, m);
    let t = tmod(x, m) + m;
    assert(0 < t < 2 * m);
    assert(inverse_of(a, m) == t % m);
    vstd::arithmetic::div_mod::lemma_mod_add_multiples_vanish(tmod(x, m), m);
    assert(inverse_of(a, m) == x % m);
    vstd::arithmetic::div_mod::lemma_mul_mod_noop_right(a, x, m);
    assert(a * x == m * (-y) + 1) by (nonlinear_arith)
        requires
            a * x + m * y == 1,
    ;
    vstd::arithmetic::div_mod::lemma_mod_multiples_vanish(-y, 1, m);
    vstd::arithmetic::div_mod::lemma_small_mod(1, m as nat);
}

/// The modular inverse rule answers exactly when there is an inverse: applied
/// to `(1/a) mod m` for constants `a` and `m > 1`, it gives a result if and only
/// if `gcd(a, m) = 1`, and then one result, an integer `v` with `0 <= v < m`
/// and `a·v ≡ 1 (mod m)`.
pub proof fn lemma_modular_inverse_rule(e: Expr, env: spec_fn(Symbol) -> int)
    requires
        number_theory::applies(NumberTheoryRule::ModularInverse, e),
        e matches Expr::Mod(inner, _) && *inner matches Expr::Div(_, a) && *a is Const,
    ensures
        ({
            let rs = number_theory::results(NumberTheoryRule::ModularInverse, e);
            e matches Expr::Mod(inner, modulus) && *inner matches Expr::Div(_, a) && (*a matches Expr::Const(av)
                && (*modulus matches Expr::Const(mv) && {
                &&& (rs.len() > 0 <==> gcd(nat_abs(av.num as int), nat_abs(mv.num as int)) == 1)
                &&& (rs.len() > 0 ==> (rs.len() == 1 && (value(rs[0].0, env) matches Some(v) && 0 <= v < mv.num
                    && (av.num * v) % (mv.num as int) == 1)))
            }))
        }),
{
    if let Expr::Mod(inner, modulus) = e {
        if let (Expr::Div(_, a), Expr::Const(mv)) = (*inner, *modulus) {
            if let Expr::Const(av) = *a {
                let ai = av.num as int;
                let mi = mv.num as int;
                let g = gcd(nat_abs(ai), nat_abs(mi));
                lemma_bezout(ai, mi);
                crate::expr::lemma_gcd_divides(nat_abs(ai), nat_abs(mi));
                lemma_divisor_at_most(g, nat_abs(mi));
                assert(bezout(ai, mi).0 == g);
                if g == 1 {
                    let inv = inverse_of(ai, mi);
                    lemma_modular_inverse(ai, mi);
                    assert(value(lit(inv as i64), env) == Some(inv));
                }
            }
        }
    }
}


/// The rules, of any kind, that replace an expression by one of the same value.
pub open spec fn keeps_value(k: RuleKind) -> bool {
    match k {
        RuleKind::NumberTheory(c) => number_theory_keeps_value(c),
        RuleKind::Polynomial(c) => polynomial_keeps_value(c),
        RuleKind::Combinatorics(c) => combinatorics_keeps_value(c),
        RuleKind::Calculus(_) => false,
    }
}

/// The inputs on which a rule of [`keeps_value`] gives a result of another value.
pub open spec fn value_exception(k: RuleKind, e: Expr, env: spec_fn(Symbol) -> int) -> bool {
    match k {
        RuleKind::NumberTheory(c) => number_theory_value_exception(c, e, env),
        RuleKind::Polynomial(c) => polynomial_value_exception(c, e, env),
        _ => false,
    }
}

/// What [`Rule::apply`] gives keeps the value of its input: for a rule that
/// rewrites ([`keeps_value`]) and matches `e`, every result has the value of
/// `e` wherever `e` has one, outside the inputs of [`value_exception`].
pub proof fn lemma_rule_keeps_value(rule: Rule, e: Expr, env: spec_fn(Symbol) -> int)
    requires
        keeps_value(rule.kind),
        applicable(rule.kind, e),
        value(e, env) is Some,
        !value_exception(rule.kind, e, env),
    ensures
        all_valued(results(rule.kind, e), env, value(e, env)),
{
    match rule.kind {
        RuleKind::NumberTheory(c) => lemma_number_theory_rewrite_keeps_value(c, e, env),
        RuleKind::Polynomial(c) => lemma_polynomial_rewrite_keeps_value(c, e, env),
        RuleKind::Combinatorics(c) => lemma_combinatorics_rewrite_keeps_value(c, e, env),
        RuleKind::Calculus(_) => {},
    }
}

/// The constant rule is right to answer `0`: an expression in which the
/// variable `v` does not occur has the same value whatever value `v` takes.
pub proof fn lemma_unmentioned_variable_is_irrelevant(e: Expr, v: Symbol, env: spec_fn(Symbol) -> int, t: int)
    requires
        !crate::calculus::mentions(e, v),
    ensures
        value(e, env) == value(e, assign(env, v, t)),
    decreases e,
{
    let env2 = assign(env, v, t);
    match e {
        Expr::Var(w) => {
            assert(env2(w) == env(w));
        },
        Expr::Neg(a) | Expr::Abs(a) | Expr::Factorial(a) | Expr::Floor(a) | Expr::Ceiling(a) | Expr::Sqrt(a) => {
            lemma_unmentioned_variable_is_irrelevant(*a, v, env, t);
        },
        Expr::Add(a, b) | Expr::Sub(a, b) | Expr::Mul(a, b) | Expr::Div(a, b) | Expr::Pow(a, b)
        | Expr::Mod(a, b) | Expr::GCD(a, b) | Expr::LCM(a, b) | Expr::Binomial(a, b) => {
            lemma_unmentioned_variable_is_irrelevant(*a, v, env, t);
            lemma_unmentioned_variable_is_irrelevant(*b, v, env, t);
        },
        Expr::Derivative { expr, var } => {
            lemma_dual_unmentioned(*expr, var, v, env, t);
        },
        _ => {},
    }
}

/// The dual value of an expression in which `v` does not occur does not
/// depend on the value of `v`.
pub proof fn lemma_dual_unmentioned(e: Expr, w: Symbol, v: Symbol, env: spec_fn(Symbol) -> int, t: int)
    requires
        !crate::calculus::mentions(e, v),
    ensures
        dual_value(e, w, env) == dual_value(e, w, assign(env, v, t)),
    decreases e,
{
    let env2 = assign(env, v, t);
    match e {
        Expr::Var(s) => {
            assert(env2(s) == env(s));
        },
        Expr::Neg(a) => {
            lemma_dual_unmentioned(*a, w, v, env, t);
        },
        Expr::Add(a, b) | Expr::Sub(a, b) | Expr::Mul(a, b) | Expr::Div(a, b) | Expr::Pow(a, b) => {
            lemma_dual_unmentioned(*a, w, v, env, t);
            lemma_dual_unmentioned(*b, w, v, env, t);
        },
        _ => {},
    }
}


/// `e` is a power modulo a prime `p` whose base `p` does not divide.
pub open spec fn power_modulo_prime(e: Expr, env: spec_fn(Symbol) -> int) -> bool {
    match e {
        Expr::Mod(inner, modulus) => match *inner {
            Expr::Pow(base, _) => match (value(*base, env), value(*modulus, env)) {
                (Some(a), Some(p)) => is_prime(p) && a % p != 0,
                _ => false,
            },
            _ => false,
        },
        _ => false,
    }
}

/// The rule of Fermat's little theorem answers with the value: applied to
/// `a^(p-1) mod p` for a prime `p` that does not divide `a`, its result `1`
/// is the value of the expression.
pub proof fn lemma_fermat_rule_keeps_value(e: Expr, env: spec_fn(Symbol) -> int)
    requires
        number_theory::applies(NumberTheoryRule::FermatLittleTheorem, e),
        value(e, env) is Some,
        power_modulo_prime(e, env),
    ensures
        all_valued(number_theory::results(NumberTheoryRule::FermatLittleTheorem, e), env, value(e, env)),
{
    if let Expr::Mod(inner, modulus) = e {
        if let Expr::Pow(base, exp) = *inner {
            let a = value(*base, env).unwrap();
            let p = value(*modulus, env).unwrap();
            assert(value(*exp, env) == Some(p - 1));
            assert(value(*inner, env) == Some(pow(a, (p - 1) as nat)));
            lemma_fermat_little(a, p);
            assert(value(lit(1), env) == Some(1int));
            lemma_one_result(number_theory::results(NumberTheoryRule::FermatLittleTheorem, e), lit(1), env, value(e, env));
        }
    }
}


/// A sum of terms `C(n, i)·a^i` for `i` from `0` to `h` adds up to the first
/// `h + 1` terms of the expansion of `(a + 1)^n`.
proof fn lemma_range_of_binomial_terms(body: Expr, var: Symbol, h: int, env: spec_fn(Symbol) -> int, a: int, n: nat)
    requires
        h >= -1,
        forall|i: int| 0 <= i <= h ==> value(body, #[trigger] assign(env, var, i)) == Some(comb(n, i) * pow(a, i as nat)),
    ensures
        range_sum(body, var, 0, h, env) == Some(binomial_terms(a, n, (h + 1) as nat)),
    decreases h + 1,
{
    if h >= 0 {
        lemma_range_of_binomial_terms(body, var, h - 1, env, a, n);
        assert(value(body, assign(env, var, h)) == Some(comb(n, h) * pow(a, h as nat)));
    } else {
        assert(binomial_terms(a, n, 0) == 0);
    }
}

/// `e` sums `C(n, k)` over `k` from `0` to `n >= 0`, or, when `alternating`,
/// `(-1)^k · C(n, k)` over `k` from `0` to `n >= 1`, with `n` free of `k`.
pub open spec fn binomial_row(e: Expr, env: spec_fn(Symbol) -> int, alternating: bool) -> bool {
    match e {
        Expr::Summation { var, from, to, body } => {
            &&& value(*from, env) == Some(0int)
            &&& !crate::calculus::mentions(*to, var)
            &&& value(*to, env) is Some
            &&& (if alternating { value(*to, env).unwrap() >= 1 } else { value(*to, env).unwrap() >= 0 })
            &&& *body == (if alternating {
                times(power(negate(lit(1)), Expr::Var(var)), crate::expr::binom(*to, Expr::Var(var)))
            } else {
                crate::expr::binom(*to, Expr::Var(var))
            })
        },
        _ => false,
    }
}

/// The row sums of Pascal's triangle that the binomial-sum rules state:
/// `Σ_{k=0}^{n} C(n, k) = 2^n` and `Σ_{k=0}^{n} (-1)^k·C(n, k) = 0` for
/// `n >= 1`; applied to such a sum, the result has the value of the sum.
pub proof fn lemma_binomial_row_sums(k: CombinatoricsRule, e: Expr, env: spec_fn(Symbol) -> int)
    requires
        k == CombinatoricsRule::BinomialSum || k == CombinatoricsRule::BinomialSum2n || k
            == CombinatoricsRule::BinomialAlternatingSum,
        binomial_row(e, env, k == CombinatoricsRule::BinomialAlternatingSum),
    ensures
        all_valued(combinatorics::results(k, e), env, summation_value(e, env)),
{
    if let Expr::Summation { var, from, to, body } = e {
        let n = value(*to, env).unwrap();
        let alternating = k == CombinatoricsRule::BinomialAlternatingSum;
        let a: int = if alternating { -1 } else { 1 };
        assert forall|i: int| 0 <= i <= n implies value(*body, #[trigger] assign(env, var, i)) == Some(
            comb(n as nat, i) * pow(a, i as nat),
        ) by {
            let env2 = assign(env, var, i);
            crate::soundness::lemma_unmentioned_variable_is_irrelevant(*to, var, env, i);
            assert(value(*to, env2) == Some(n));
            assert(value(Expr::Var(var), env2) == Some(i));
            assert(value(crate::expr::binom(*to, Expr::Var(var)), env2) == Some(comb(n as nat, i) as int));
            if alternating {
                assert(value(lit(1), env2) == Some(1int));
                assert(value(negate(lit(1)), env2) == Some(-1int));
                assert(value(power(negate(lit(1)), Expr::Var(var)), env2) == Some(pow(-1, i as nat)));
                assert(pow(-1, i as nat) * comb(n as nat, i) == comb(n as nat, i) * pow(-1, i as nat))
                    by (nonlinear_arith);
            } else {
                vstd::arithmetic::power::lemma1_pow(i as nat);
            }
        }
        lemma_range_of_binomial_terms(*body, var, n, env, a, n as nat);
        lemma_binomial_theorem(a, n as nat);
        assert(summation_value(e, env) == Some(pow(a + 1, n as nat)));
        let rs = combinatorics::results(k, e);
        if alternating {
            vstd::arithmetic::power::lemma0_pow(n as nat);
            assert(value(lit(0), env) == Some(0int));
            lemma_one_result(rs, lit(0), env, summation_value(e, env));
        } else {
            assert(value(lit(2), env) == Some(2int));
            assert(value(power(lit(2), *to), env) == Some(pow(2, n as nat)));
            lemma_one_result(rs, power(lit(2), *to), env, summation_value(e, env));
        }
    }
}


/// `Σ_{i=0}^{h} i·C(n, i) = n · Σ_{i<h} C(n - 1, i)` for `0 <= h <= n`.
proof fn lemma_weighted_range(body: Expr, var: Symbol, h: int, env: spec_fn(Symbol) -> int, n: nat)
    requires
        n >= 1,
        -1 <= h <= n,
        forall|i: int| 0 <= i <= h ==> value(body, #[trigger] assign(env, var, i)) == Some(i * comb(n, i)),
    ensures
        range_sum(body, var, 0, h, env) == Some(n * binomial_terms(1, (n - 1) as nat, if h >= 0 { h as nat } else { 0 })),
    decreases h + 1,
{
    if h >= 0 {
        lemma_weighted_range(body, var, h - 1, env, n);
        assert(value(body, assign(env, var, h)) == Some(h * comb(n, h)));
        let n1 = (n - 1) as nat;
        if h == 0 {
            assert(binomial_terms(1, n1, 0) == 0);
            assert(h * comb(n, h) == 0) by (nonlinear_arith)
                requires
                    h == 0,
            ;
            assert(range_sum(body, var, 0, h, env) == Some(0int));
        } else {
            lemma_comb_absorption(n, h as nat);
            vstd::arithmetic::power::lemma1_pow((h - 1) as nat);
            let prev = binomial_terms(1, n1, (h - 1) as nat);
            assert(binomial_terms(1, n1, h as nat) == prev + comb(n1, h - 1) * pow(1, (h - 1) as nat));
            assert(binomial_terms(1, n1, h as nat) == prev + comb(n1, h - 1));
            assert(range_sum(body, var, 0, h, env) == Some(n * prev + h * comb(n, h)));
            assert(n * prev + h * comb(n, h) == n * (prev + comb(n1, h - 1))) by (nonlinear_arith)
                requires
                    h * comb(n, h) == n * comb(n1, h - 1),
            ;
        }
    } else {
        assert(binomial_terms(1, (n - 1) as nat, 0) == 0);
        assert(n * 0 == 0);
    }
}

/// `e` sums `k·C(N, k)` over `k` from `0` to an upper limit of the same value
/// `n >= 1` as `N`, with `N` free of `k`.
pub open spec fn weighted_binomial_row(e: Expr, env: spec_fn(Symbol) -> int) -> bool {
    match e {
        Expr::Summation { var, from, to, body } => match *body {
            Expr::Mul(coeff, bn) => match *bn {
                Expr::Binomial(m, kk) => {
                    &&& value(*from, env) == Some(0int)
                    &&& *coeff == Expr::Var(var)
                    &&& *kk == Expr::Var(var)
                    &&& !crate::calculus::mentions(*m, var)
                    &&& value(*m, env) is Some
                    &&& value(*m, env).unwrap() >= 1
                    &&& value(*to, env) == value(*m, env)
                },
                _ => false,
            },
            _ => false,
        },
        _ => false,
    }
}

/// The weighted row sum that the rule states: `Σ_{k=0}^{n} k·C(n, k) =
/// n·2^(n-1)`; applied to such a sum, the result has the value of the sum.
pub proof fn lemma_weighted_binomial_sum(e: Expr, env: spec_fn(Symbol) -> int)
    requires
        weighted_binomial_row(e, env),
    ensures
        all_valued(combinatorics::results(CombinatoricsRule::BinomialWeightedSum, e), env, summation_value(e, env)),
{
    if let Expr::Summation { var, from, to, body } = e {
        if let Expr::Mul(coeff, bn) = *body {
            if let Expr::Binomial(m, kk) = *bn {
                let n = value(*m, env).unwrap();
                assert forall|i: int| 0 <= i <= n implies value(*body, #[trigger] assign(env, var, i)) == Some(
                    i * comb(n as nat, i),
                ) by {
                    let env2 = assign(env, var, i);
                    crate::soundness::lemma_unmentioned_variable_is_irrelevant(*m, var, env, i);
                    assert(value(*m, env2) == Some(n));
                    assert(value(Expr::Var(var), env2) == Some(i));
                    assert(value(*bn, env2) == Some(comb(n as nat, i) as int));
                }
                lemma_weighted_range(*body, var, n, env, n as nat);
                lemma_binomial_theorem(1, (n - 1) as nat);
                assert(summation_value(e, env) == Some(n * pow(2, (n - 1) as nat)));
                let r = times(*m, power(lit(2), minus(*m, lit(1))));
                assert(value(lit(1), env) == Some(1int));
                assert(value(lit(2), env) == Some(2int));
                assert(value(minus(*m, lit(1)), env) == Some(n - 1));
                assert(value(power(lit(2), minus(*m, lit(1))), env) == Some(pow(2, (n - 1) as nat)));
                assert(value(r, env) == Some(n * pow(2, (n - 1) as nat)));
                lemma_one_result(combinatorics::results(CombinatoricsRule::BinomialWeightedSum, e), r, env, summation_value(e, env));
            }
        }
    }
}


/// A sum of terms `C(m, i)·C(n, r - i)` for `i` from `0` to `h` is the
/// convolution up to `h`.
proof fn lemma_range_of_convolution(body: Expr, var: Symbol, h: int, env: spec_fn(Symbol) -> int, m: nat, n: nat, r: int)
    requires
        h >= -1,
        forall|i: int| 0 <= i <= h ==> value(body, #[trigger] assign(env, var, i)) == Some((comb(m, i) * comb(n, r - i)) as int),
    ensures
        range_sum(body, var, 0, h, env) == Some(convolution(m, n, r, h)),
    decreases h + 1,
{
    if h >= 0 {
        lemma_range_of_convolution(body, var, h - 1, env, m, n, r);
        assert(value(body, assign(env, var, h)) == Some((comb(m, h) * comb(n, r - h)) as int));
    }
}

/// `e` is `Σ_{k=0}^{r} C(M, k)·C(N, R - k)` with `M`, `N`, `R` free of `k`,
/// of values `m, n, r >= 0`, and the upper bound of the value of `R`.
pub open spec fn vandermonde_sum(e: Expr, env: spec_fn(Symbol) -> int) -> bool {
    match e {
        Expr::Summation { var, from, to, body } => match *body {
            Expr::Mul(left, right) => match (*left, *right) {
                (Expr::Binomial(m, k1), Expr::Binomial(n, rk)) => match *rk {
                    Expr::Sub(r, ks) => {
                        &&& *k1 == Expr::Var(var)
                        &&& *ks == Expr::Var(var)
                        &&& value(*from, env) == Some(0int)
                        &&& !crate::calculus::mentions(*m, var)
                        &&& !crate::calculus::mentions(*n, var)
                        &&& !crate::calculus::mentions(*r, var)
                        &&& value(*m, env) is Some && value(*m, env).unwrap() >= 0
                        &&& value(*n, env) is Some && value(*n, env).unwrap() >= 0
                        &&& value(*r, env) is Some && value(*r, env).unwrap() >= 0
                        &&& value(*to, env) == value(*r, env)
                    },
                    _ => false,
                },
                _ => false,
            },
            _ => false,
        },
        _ => false,
    }
}

/// Vandermonde's identity as the rules state it: applied to
/// `Σ_{k=0}^{r} C(m, k)·C(n, r - k)`, the result `C(m + n, r)` has the value
/// of the sum.
pub proof fn lemma_vandermonde_rules(k: CombinatoricsRule, e: Expr, env: spec_fn(Symbol) -> int)
    requires
        k == CombinatoricsRule::Vandermonde || k == CombinatoricsRule::VandermondeIdentity,
        vandermonde_sum(e, env),
    ensures
        all_valued(combinatorics::results(k, e), env, summation_value(e, env)),
{
    if let Expr::Summation { var, from, to, body } = e {
        if let Expr::Mul(left, right) = *body {
            if let (Expr::Binomial(m, k1), Expr::Binomial(n, rk)) = (*left, *right) {
                if let Expr::Sub(r, ks) = *rk {
                    let mv = value(*m, env).unwrap();
                    let nv = value(*n, env).unwrap();
                    let rv = value(*r, env).unwrap();
                    assert forall|i: int| 0 <= i <= rv implies value(*body, #[trigger] assign(env, var, i))
                        == Some((comb(mv as nat, i) * comb(nv as nat, rv - i)) as int) by {
                        let env2 = assign(env, var, i);
                        lemma_unmentioned_variable_is_irrelevant(*m, var, env, i);
                        lemma_unmentioned_variable_is_irrelevant(*n, var, env, i);
                        lemma_unmentioned_variable_is_irrelevant(*r, var, env, i);
                        assert(value(Expr::Var(var), env2) == Some(i));
                        assert(value(*k1, env2) == Some(i));
                        assert(value(*ks, env2) == Some(i));
                        assert(value(*rk, env2) == Some(rv - i));
                        assert(value(*left, env2) == Some(comb(mv as nat, i) as int));
                        assert(value(*right, env2) == Some(comb(nv as nat, rv - i) as int));
                    }
                    lemma_range_of_convolution(*body, var, rv, env, mv as nat, nv as nat, rv);
                    lemma_vandermonde(mv as nat, nv as nat, rv);
                    let res = crate::expr::binom(plus(*m, *n), *r);
                    assert(value(plus(*m, *n), env) == Some(mv + nv));
                    assert(value(res, env) == Some(comb((mv + nv) as nat, rv) as int));
                    assert(summation_value(e, env) == Some(convolution(mv as nat, nv as nat, rv, rv)));
                    lemma_one_result(combinatorics::results(k, e), res, env, summation_value(e, env));
                }
            }
        }
    }
}

/// `e` is `Σ_{k=0}^{n} C(N, k)²` with `N` free of `k` and of value `n >= 0`.
pub open spec fn binomial_squares_row(e: Expr, env: spec_fn(Symbol) -> int) -> bool {
    match e {
        Expr::Summation { var, from, to, body } => match *body {
            Expr::Pow(b, exp) => match *b {
                Expr::Binomial(m, kk) => {
                    &&& *exp == lit(2)
                    &&& *from == lit(0)
                    &&& *kk == Expr::Var(var)
                    &&& !crate::calculus::mentions(*m, var)
                    &&& value(*m, env) is Some && value(*m, env).unwrap() >= 0
                    &&& value(*to, env) == value(*m, env)
                },
                _ => false,
            },
            _ => false,
        },
        _ => false,
    }
}

/// The sum of the squares of a row of Pascal's triangle that the rule
/// states: `Σ_{k=0}^{n} C(n, k)² = C(2n, n)`; applied to such a sum, the
/// result has the value of the sum.
pub proof fn lemma_binomial_squares_sum(e: Expr, env: spec_fn(Symbol) -> int)
    requires
        binomial_squares_row(e, env),
    ensures
        all_valued(combinatorics::results(CombinatoricsRule::BinomialSquaresSum, e), env, summation_value(e, env)),
{
    if let Expr::Summation { var, from, to, body } = e {
        if let Expr::Pow(b, exp) = *body {
            if let Expr::Binomial(m, kk) = *b {
                let nv = value(*m, env).unwrap();
                assert forall|i: int| 0 <= i <= nv implies value(*body, #[trigger] assign(env, var, i)) == Some(
                    (comb(nv as nat, i) * comb(nv as nat, nv - i)) as int,
                ) by {
                    let env2 = assign(env, var, i);
                    lemma_unmentioned_variable_is_irrelevant(*m, var, env, i);
                    assert(value(*kk, env2) == Some(i));
                    let c = comb(nv as nat, i) as int;
                    assert(value(*b, env2) == Some(c));
                    assert(value(*exp, env2) == Some(2int));
                    lemma_square(c);
                    crate::eval::lemma_comb_symmetric(nv as nat, i);
                }
                lemma_range_of_convolution(*body, var, nv, env, nv as nat, nv as nat, nv);
                lemma_vandermonde(nv as nat, nv as nat, nv);
                assert(value(*from, env) == Some(0int));
                assert(summation_value(e, env) == Some(convolution(nv as nat, nv as nat, nv, nv)));
                let res = crate::expr::binom(times(lit(2), *m), *m);
                assert(value(lit(2), env) == Some(2int));
                assert(value(times(lit(2), *m), env) == Some(2 * nv));
                assert(value(res, env) == Some(comb((2 * nv) as nat, nv) as int));
                lemma_one_result(
                    combinatorics::results(CombinatoricsRule::BinomialSquaresSum, e),
                    res,
                    env,
                    summation_value(e, env),
                );
            }
        }
    }
}


/// `X`, `Y` and `N` have values, that of `N` is not negative, and none of
/// them mentions `k`, the variable of the expansion.
pub open spec fn expansion_parts(x: Expr, y: Expr, n: Expr, env: spec_fn(Symbol) -> int) -> bool {
    let k = crate::symbols::intern_symbol("k");
    &&& !crate::calculus::mentions(x, k)
    &&& !crate::calculus::mentions(y, k)
    &&& !crate::calculus::mentions(n, k)
    &&& value(x, env) is Some
    &&& value(y, env) is Some
    &&& value(n, env) is Some && value(n, env).unwrap() >= 0
}

/// `e` is `(X + Y)^N` or `(X - Y)^N` with [`expansion_parts`].
pub open spec fn binomial_power(e: Expr, env: spec_fn(Symbol) -> int) -> bool {
    match e {
        Expr::Pow(base, n) => match *base {
            Expr::Add(x, y) => expansion_parts(*x, *y, *n, env),
            Expr::Sub(x, y) => expansion_parts(*x, *y, *n, env),
            _ => false,
        },
        _ => false,
    }
}

/// Each outcome is the equation `e = S` for a summation `S` whose sum is the
/// value of `e`.
pub open spec fn all_expand(rs: Seq<(Expr, Seq<char>)>, e: Expr, env: spec_fn(Symbol) -> int) -> bool {
    forall|i: int|
        0 <= i < rs.len() ==> match #[trigger] rs[i].0 {
            Expr::Equation { lhs, rhs } => *lhs == e && summation_value(*rhs, env) == value(e, env),
            _ => false,
        }
}

/// The terms `C(n, i)·x^i·y^(n - i)` for `i` from `0` to `h` add up to the
/// first `h + 1` terms of the expansion.
proof fn lemma_range_of_expansion(body: Expr, var: Symbol, h: int, env: spec_fn(Symbol) -> int, x: int, y: int, n: nat)
    requires
        h >= -1,
        forall|i: int|
            0 <= i <= h ==> value(body, #[trigger] assign(env, var, i)) == Some(
                comb(n, i) * (pow(x, i as nat) * pow(y, (n - i) as nat)),
            ),
    ensures
        range_sum(body, var, 0, h, env) == Some(expansion_terms(x, y, n, (h + 1) as nat)),
    decreases h + 1,
{
    if h >= 0 {
        lemma_range_of_expansion(body, var, h - 1, env, x, y, n);
        assert(value(body, assign(env, var, h)) == Some(comb(n, h) * (pow(x, h as nat) * pow(y, (n - h) as nat))));
    }
}

/// The binomial theorem, written as the rules write it: for `N >= 0` the sum
/// `Σ_{k=0}^{N} C(N, k)·X^k·Y^(N-k)` is the value of `(X + Y)^N`.
pub proof fn lemma_binomial_expansion_sums(x: Expr, y: Expr, n: Expr, env: spec_fn(Symbol) -> int)
    requires
        expansion_parts(x, y, n, env),
    ensures
        summation_value(polynomials::binomial_expansion(x, y, n), env) == value(power(plus(x, y), n), env),
{
    let k = crate::symbols::intern_symbol("k");
    let xv = value(x, env).unwrap();
    let yv = value(y, env).unwrap();
    let nv = value(n, env).unwrap();
    let s = polynomials::binomial_expansion(x, y, n);
    if let Expr::Summation { var, from, to, body } = s {
        assert forall|i: int| 0 <= i <= nv implies value(*body, #[trigger] assign(env, var, i)) == Some(
            comb(nv as nat, i) * (pow(xv, i as nat) * pow(yv, (nv as nat - i) as nat)),
        ) by {
            let env2 = assign(env, var, i);
            lemma_unmentioned_variable_is_irrelevant(x, var, env, i);
            lemma_unmentioned_variable_is_irrelevant(y, var, env, i);
            lemma_unmentioned_variable_is_irrelevant(n, var, env, i);
            assert(value(Expr::Var(k), env2) == Some(i));
            assert(value(minus(n, Expr::Var(k)), env2) == Some(nv - i));
            assert(value(crate::expr::binom(n, Expr::Var(k)), env2) == Some(comb(nv as nat, i) as int));
            assert(value(power(x, Expr::Var(k)), env2) == Some(pow(xv, i as nat)));
            assert(value(power(y, minus(n, Expr::Var(k))), env2) == Some(pow(yv, (nv - i) as nat)));
            assert(value(times(power(x, Expr::Var(k)), power(y, minus(n, Expr::Var(k)))), env2) == Some(
                pow(xv, i as nat) * pow(yv, (nv - i) as nat),
            ));
        }
        lemma_range_of_expansion(*body, var, nv, env, xv, yv, nv as nat);
        lemma_binomial_expansion(xv, yv, nv as nat);
        assert(value(*from, env) == Some(0int));
        assert(value(*to, env) == Some(nv));
        assert(value(plus(x, y), env) == Some(xv + yv));
        assert(value(power(plus(x, y), n), env) == Some(pow(xv + yv, nv as nat)));
        assert(range_sum(*body, var, 0, nv, env) == Some(expansion_terms(xv, yv, nv as nat, (nv + 1) as nat)));
    }
}

/// The binomial theorem rule, and the binomial expansion of a power of a
/// sum or a difference: applied to `(X + Y)^N` or `(X - Y)^N` with `N >= 0`,
/// the equation they give has `e` on its left and on its right a summation
/// that adds up to the value of `e`.
pub proof fn lemma_binomial_expansion_rules(e: Expr, env: spec_fn(Symbol) -> int)
    requires
        binomial_power(e, env),
    ensures
        all_expand(combinatorics::results(CombinatoricsRule::BinomialTheorem, e), e, env),
        all_expand(polynomials::results(PolynomialRule::BinomialFactor, e), e, env),
{
    if let Expr::Pow(base, n) = e {
        if let Expr::Add(x, y) = *base {
            lemma_binomial_expansion_sums(*x, *y, *n, env);
        } else if let Expr::Sub(x, y) = *base {
            let ny = crate::expr::negate(*y);
            assert(value(ny, env) == Some(-value(*y, env).unwrap()));
            assert(value(plus(*x, ny), env) == value(*base, env));
            lemma_binomial_expansion_sums(*x, ny, *n, env);
        }
    }
}

/// `e` is `X^N - Y^N` where `X`, `Y` and `N` have values, that of `N` is not
/// negative, and none of them mentions `k`, the variable of the sum.
pub open spec fn power_difference(e: Expr, env: spec_fn(Symbol) -> int) -> bool {
    match e {
        Expr::Sub(a, b) => match (*a, *b) {
            (Expr::Pow(x, n), Expr::Pow(y, m)) => n == m && expansion_parts(*x, *y, *n, env),
            _ => false,
        },
        _ => false,
    }
}

/// Each outcome is a product `D·S` of an expression `D` and a summation `S`
/// whose values multiply to the value of `e`.
pub open spec fn all_factor(rs: Seq<(Expr, Seq<char>)>, e: Expr, env: spec_fn(Symbol) -> int) -> bool {
    forall|i: int|
        0 <= i < rs.len() ==> match #[trigger] rs[i].0 {
            Expr::Mul(d, s) => value(*d, env) is Some && summation_value(*s, env) is Some && value(e, env)
                == Some(value(*d, env).unwrap() * summation_value(*s, env).unwrap()),
            _ => false,
        }
}

/// The terms `x^(top-i)·y^i` for `i` from `0` to `h` add up to the partial sum.
proof fn lemma_range_of_power_difference(body: Expr, var: Symbol, h: int, env: spec_fn(Symbol) -> int, x: int, y: int, top: nat)
    requires
        -1 <= h <= top,
        forall|i: int|
            0 <= i <= h ==> value(body, #[trigger] assign(env, var, i)) == Some(
                pow(x, (top - i) as nat) * pow(y, i as nat),
            ),
    ensures
        range_sum(body, var, 0, h, env) == Some(power_difference_terms(x, y, top, h)),
    decreases h + 1,
{
    if h >= 0 {
        lemma_range_of_power_difference(body, var, h - 1, env, x, y, top);
        assert(value(body, assign(env, var, h)) == Some(pow(x, (top - h) as nat) * pow(y, h as nat)));
    }
}

/// The difference of powers: applied to `X^N - Y^N` with `N >= 0`, the rule
/// gives `(X - Y)` times the sum `X^(N-1) + X^(N-2)·Y + … + Y^(N-1)`, and the
/// two factors multiply to the value of `X^N - Y^N`.
pub proof fn lemma_power_difference_rule(e: Expr, env: spec_fn(Symbol) -> int)
    requires
        power_difference(e, env),
    ensures
        all_factor(polynomials::results(PolynomialRule::DiffNthPower, e), e, env),
{
    if let Expr::Sub(a, b) = e {
        if let (Expr::Pow(x, n), Expr::Pow(y, _)) = (*a, *b) {
            let k = crate::symbols::intern_symbol("k");
            let xv = value(*x, env).unwrap();
            let yv = value(*y, env).unwrap();
            let nv = value(*n, env).unwrap();
            let d = minus(*x, *y);
            let s = polynomials::power_difference_sum(*x, *y, *n);
            assert(value(d, env) == Some(xv - yv));
            assert(value(*a, env) == Some(pow(xv, nv as nat)));
            assert(value(*b, env) == Some(pow(yv, nv as nat)));
            assert(value(e, env) == Some(pow(xv, nv as nat) - pow(yv, nv as nat)));
            if let Expr::Summation { var, from, to, body } = s {
                assert(value(*from, env) == Some(0int));
                assert(value(lit(1), env) == Some(1int));
                assert(value(*to, env) == Some(nv - 1));
                if nv == 0 {
                    vstd::arithmetic::power::lemma_pow0(xv);
                    vstd::arithmetic::power::lemma_pow0(yv);
                    assert(summation_value(s, env) == Some(0int));
                    assert((xv - yv) * 0 == 0);
                } else {
                    let top = (nv - 1) as nat;
                    assert forall|i: int| 0 <= i <= top implies value(*body, #[trigger] assign(env, var, i)) == Some(
                        pow(xv, (top - i) as nat) * pow(yv, i as nat),
                    ) by {
                        let env2 = assign(env, var, i);
                        lemma_unmentioned_variable_is_irrelevant(*x, var, env, i);
                        lemma_unmentioned_variable_is_irrelevant(*y, var, env, i);
                        lemma_unmentioned_variable_is_irrelevant(*n, var, env, i);
                        assert(value(Expr::Var(k), env2) == Some(i));
                        assert(value(lit(1), env2) == Some(1int));
                        assert(value(minus(*n, lit(1)), env2) == Some(nv - 1));
                        assert(value(minus(minus(*n, lit(1)), Expr::Var(k)), env2) == Some(top - i));
                        assert(value(power(*x, minus(minus(*n, lit(1)), Expr::Var(k))), env2) == Some(
                            pow(xv, (top - i) as nat),
                        ));
                        assert(value(power(*y, Expr::Var(k)), env2) == Some(pow(yv, i as nat)));
                    }
                    lemma_range_of_power_difference(*body, var, top as int, env, xv, yv, top);
                    lemma_power_difference(xv, yv, top, top as int);
                    vstd::arithmetic::power::lemma_pow0(xv);
                    assert(pow(xv, (top - top) as nat) == 1);
                    assert(summation_value(s, env) == Some(power_difference_terms(xv, yv, top, top as int)));
                }
            }
        }
    }
}

/// `e` is `Σ_{i=L}^{N} C(i, K)` with `K` free of `i`, values `0 <= L <= K`
/// and `N >= L - 1`.
pub open spec fn hockey_stick_sum(e: Expr, env: spec_fn(Symbol) -> int) -> bool {
    match (e, combinatorics::hockey_stick_lower(e)) {
        (Expr::Summation { from, to, .. }, Some(k)) => {
            &&& value(k, env) is Some
            &&& value(*from, env) is Some
            &&& value(*to, env) is Some
            &&& 0 <= value(*from, env).unwrap() <= value(k, env).unwrap()
            &&& value(*to, env).unwrap() >= value(*from, env).unwrap() - 1
        },
        _ => false,
    }
}

/// `Σ_{i=lo}^{h} C(i, k) = C(h + 1, k + 1)` for `0 <= lo <= k`.
proof fn lemma_hockey_range(body: Expr, var: Symbol, lo: int, h: int, env: spec_fn(Symbol) -> int, k: int)
    requires
        0 <= lo <= k,
        h >= lo - 1,
        forall|i: int| lo <= i <= h ==> value(body, #[trigger] assign(env, var, i)) == Some(comb(i as nat, k) as int),
    ensures
        range_sum(body, var, lo, h, env) == Some(comb((h + 1) as nat, k + 1) as int),
    decreases h - lo + 1,
{
    if h >= lo {
        lemma_hockey_range(body, var, lo, h - 1, env, k);
        assert(value(body, assign(env, var, h)) == Some(comb(h as nat, k) as int));
        lemma_comb_pascal((h + 1) as nat, k + 1);
    }
}

/// The hockey-stick identity, as the rules state it: for `Σ_{i=L}^{N} C(i, K)`
/// with `0 <= L <= K`, the result `C(N + 1, K + 1)` is the value of the sum.
pub proof fn lemma_hockey_stick(e: Expr, env: spec_fn(Symbol) -> int)
    requires
        hockey_stick_sum(e, env),
    ensures
        all_valued(combinatorics::results(CombinatoricsRule::HockeyStick, e), env, summation_value(e, env)),
        all_valued(combinatorics::results(CombinatoricsRule::HockeyStickIdentity, e), env, summation_value(e, env)),
{
    if let (Expr::Summation { var, from, to, body }, Some(k)) = (e, combinatorics::hockey_stick_lower(e)) {
        let kv = value(k, env).unwrap();
        let lo = value(*from, env).unwrap();
        let hi = value(*to, env).unwrap();
        assert forall|i: int| lo <= i <= hi implies value(*body, #[trigger] assign(env, var, i)) == Some(
            comb(i as nat, kv) as int,
        ) by {
            lemma_unmentioned_variable_is_irrelevant(k, var, env, i);
            assert(value(Expr::Var(var), assign(env, var, i)) == Some(i));
        }
        lemma_hockey_range(*body, var, lo, hi, env, kv);
        let r = crate::expr::binom(plus(*to, lit(1)), plus(k, lit(1)));
        assert(value(lit(1), env) == Some(1int));
        assert(value(plus(*to, lit(1)), env) == Some(hi + 1));
        assert(value(plus(k, lit(1)), env) == Some(kv + 1));
        assert(value(r, env) == Some(comb((hi + 1) as nat, kv + 1) as int));
        lemma_one_result(combinatorics::results(CombinatoricsRule::HockeyStick, e), r, env, summation_value(e, env));
        lemma_one_result(combinatorics::results(CombinatoricsRule::HockeyStickIdentity, e), r, env, summation_value(e, env));
    }
}

} // verus!
