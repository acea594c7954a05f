//! The differentiation rules are right: read through the dual-number value
//! of a derivative, each result has the value of the derivative it replaces.
use vstd::prelude::*;
use vstd::arithmetic::power::pow;
use crate::expr::{Expr, Symbol, lit, plus, minus, times, over, power, deriv};
use crate::eval::{value, dual_value, dual_mul, dual_pow};
use crate::calculus::{self, CalculusRule, mentions};
use crate::soundness::all_valued;

verus! {

/// The value part of `z^k` is the power of the value part.
proof fn lemma_dual_pow_value(z: (int, int), k: nat)
    ensures
        dual_pow(z, k).0 == pow(z.0, k),
    decreases k,
{
    reveal(pow);
    if k > 0 {
        lemma_dual_pow_value(z, (k - 1) as nat);
        assert(pow(z.0, k) == z.0 * pow(z.0, (k - 1) as nat));
        assert(pow(z.0, (k - 1) as nat) * z.0 == z.0 * pow(z.0, (k - 1) as nat)) by (nonlinear_arith);
    }
}

/// `(x + ε)^k = x^k + k·x^(k-1)ε` for `k >= 1`.
proof fn lemma_dual_pow_variable(x: int, k: nat)
    requires
        k >= 1,
    ensures
        dual_pow((x, 1), k) == (pow(x, k), k * pow(x, (k - 1) as nat)),
    decreases k,
{
    reveal(pow);
    lemma_dual_pow_value((x, 1), k);
    if k == 1 {
        assert(dual_pow((x, 1), 0) == (1int, 0int));
        assert(pow(x, 0) == 1);
    } else {
        let k1 = (k - 1) as nat;
        lemma_dual_pow_variable(x, k1);
        let p1 = pow(x, k1);
        let p2 = pow(x, (k1 - 1) as nat);
        assert(p1 == x * p2);
        assert(dual_pow((x, 1), k) == dual_mul(dual_pow((x, 1), k1), (x, 1)));
        assert(p1 * 1 + (k1 * p2) * x == k * p1) by (nonlinear_arith)
            requires
                p1 == x * p2,
                k1 == k - 1,
        ;
    }
}

/// The dual value carries the ordinary value: where it exists, its first
/// part is the value of the expression.
pub proof fn lemma_dual_real(e: Expr, v: Symbol, env: spec_fn(Symbol) -> int)
    ensures
        dual_value(e, v, env) matches Some(d) ==> value(e, env) == Some(d.0),
    decreases e,
{
    match e {
        Expr::Neg(a) => lemma_dual_real(*a, v, env),
        Expr::Add(a, b) | Expr::Sub(a, b) | Expr::Mul(a, b) | Expr::Div(a, b) => {
            lemma_dual_real(*a, v, env);
            lemma_dual_real(*b, v, env);
        },
        Expr::Pow(a, b) => {
            lemma_dual_real(*a, v, env);
            if let (Some(x), Expr::Const(k)) = (dual_value(*a, v, env), *b) {
                lemma_dual_pow_value(x, k.num as nat);
                if k.den == 1 && k.num >= 0 {
                    assert(value(*b, env) == Some(k.num as int));
                    assert(value(*a, env) == Some(x.0));
                    assert(value(e, env) == Some(pow(x.0, k.num as nat)));
                }
            }
        },
        _ => {},
    }
}

/// An expression in which `v` does not occur has derivative `0` by `v`.
pub proof fn lemma_dual_constant(e: Expr, v: Symbol, env: spec_fn(Symbol) -> int)
    requires
        !mentions(e, v),
    ensures
        dual_value(e, v, env) matches Some(d) ==> d.1 == 0,
    decreases e,
{
    match e {
        Expr::Neg(a) => lemma_dual_constant(*a, v, env),
        Expr::Add(a, b) | Expr::Sub(a, b) | Expr::Mul(a, b) | Expr::Div(a, b) => {
            lemma_dual_constant(*a, v, env);
            lemma_dual_constant(*b, v, env);
            if let (Some(x), Some(y)) = (dual_value(*a, v, env), dual_value(*b, v, env)) {
                assert(x.0 * 0 + 0 * y.0 == 0);
                if y.0 != 0 {
                    assert((0 - (x.0 / y.0) * 0) == 0);
                    vstd::arithmetic::div_mod::lemma_div_basics(y.0);
                }
            }
        },
        Expr::Pow(a, b) => {
            lemma_dual_constant(*a, v, env);
            if let (Some(x), Expr::Const(k)) = (dual_value(*a, v, env), *b) {
                lemma_dual_pow_constant(x, k.num as nat);
            }
        },
        _ => {},
    }
}

proof fn lemma_dual_pow_constant(z: (int, int), k: nat)
    requires
        z.1 == 0,
    ensures
        dual_pow(z, k).1 == 0,
    decreases k,
{
    if k > 0 {
        lemma_dual_pow_constant(z, (k - 1) as nat);
        let p = dual_pow(z, (k - 1) as nat);
        assert(p.0 * 0 + 0 * z.0 == 0);
    }
}

/// The inputs on which a differentiation rule gives a result without a
/// value although the derivative has one: the power rule on `x^0`, whose
/// result `0·x^(-1)` has none.
pub open spec fn calculus_value_exception(k: CalculusRule, e: Expr) -> bool {
    k == CalculusRule::Power && (e matches Expr::Derivative { expr, .. } && *expr matches Expr::Pow(_, n)
        && *n matches Expr::Const(c) && c.num == 0)
}

/// The differentiation rules are right: the power rule, the constant rule,
/// the sum, product and quotient rules give results that have the value of
/// the derivative `d/dx f` they replace, wherever that derivative has a
/// value (reading `d/dx f` through the dual numbers `f + f'ε`), but for the
/// power rule on `x^0`.
pub proof fn lemma_differentiation_rule(k: CalculusRule, e: Expr, env: spec_fn(Symbol) -> int)
    requires
        k == CalculusRule::Power || k == CalculusRule::Constant || k == CalculusRule::Sum || k == CalculusRule::Product
            || k == CalculusRule::Quotient,
        value(e, env) is Some,
        !calculus_value_exception(k, e),
    ensures
        all_valued(calculus::results(k, e), env, value(e, env)),
{
    if let Expr::Derivative { expr: inner, var } = e {
        let rs = calculus::results(k, e);
        let d = dual_value(*inner, var, env).unwrap();
        assert(value(e, env) == Some(d.1));
        assert(value(lit(1), env) == Some(1int));
        assert(value(lit(0), env) == Some(0int));
        assert(value(lit(2), env) == Some(2int));
        if k == CalculusRule::Constant {
            if !mentions(*inner, var) {
                lemma_dual_constant(*inner, var, env);
            }
        } else if k == CalculusRule::Power {
            if let Expr::Pow(base, exp) = *inner {
                if let (Expr::Var(w), Expr::Const(n)) = (*base, *exp) {
                    if w == var {
                        let x = env(var);
                        let kn = n.num as nat;
                        assert(dual_value(*base, var, env) == Some((x, 1int)));
                        assert(n.den == 1 && n.num >= 0);
                        assert(n.num != 0);
                        lemma_dual_pow_variable(x, kn);
                        let r = times(Expr::Const(n), power(*base, Expr::Const(n.minus_one())));
                        assert(n.minus_one().num == n.num - 1 && n.minus_one().den == 1);
                        assert(value(Expr::Const(n.minus_one()), env) == Some(n.num - 1));
                        assert(value(*base, env) == Some(x));
                        assert(value(Expr::Const(n), env) == Some(n.num as int));
                        assert(value(power(*base, Expr::Const(n.minus_one())), env) == Some(pow(x, (kn - 1) as nat)));
                        assert(value(r, env) == Some(kn * pow(x, (kn - 1) as nat)));
                    }
                }
            }
        } else if let Expr::Add(f, g) = *inner {
            if k == CalculusRule::Sum {
                let a = dual_value(*f, var, env).unwrap();
                let b = dual_value(*g, var, env).unwrap();
                assert(value(deriv(*f, var), env) == Some(a.1));
                assert(value(deriv(*g, var), env) == Some(b.1));
                assert(value(plus(deriv(*f, var), deriv(*g, var)), env) == Some(a.1 + b.1));
                assert(d == (a.0 + b.0, a.1 + b.1));
            }
        } else if let Expr::Mul(f, g) = *inner {
            if k == CalculusRule::Product {
                let a = dual_value(*f, var, env).unwrap();
                let b = dual_value(*g, var, env).unwrap();
                lemma_dual_real(*f, var, env);
                lemma_dual_real(*g, var, env);
                let r = plus(times(deriv(*f, var), *g), times(*f, deriv(*g, var)));
                assert(value(deriv(*f, var), env) == Some(a.1));
                assert(value(deriv(*g, var), env) == Some(b.1));
                assert(value(*f, env) == Some(a.0));
                assert(value(*g, env) == Some(b.0));
                assert(value(times(deriv(*f, var), *g), env) == Some(a.1 * b.0));
                assert(value(times(*f, deriv(*g, var)), env) == Some(a.0 * b.1));
                assert(value(r, env) == Some(a.1 * b.0 + a.0 * b.1));
                assert(d == dual_mul(a, b));
                assert(a.1 * b.0 + a.0 * b.1 == a.0 * b.1 + a.1 * b.0) by (nonlinear_arith);
            }
        } else if let Expr::Div(f, g) = *inner {
            if k == CalculusRule::Quotient {
                let a = dual_value(*f, var, env).unwrap();
                let b = dual_value(*g, var, env).unwrap();
                lemma_dual_real(*f, var, env);
                lemma_dual_real(*g, var, env);
                let p = a.0 / b.0;
                let q = (a.1 - p * b.1) / b.0;
                assert(d == (p, q));
                vstd::arithmetic::div_mod::lemma_fundamental_div_mod(a.0, b.0);
                vstd::arithmetic::div_mod::lemma_fundamental_div_mod(a.1 - p * b.1, b.0);
                assert(a.0 == b.0 * p);
                assert(a.1 - p * b.1 == b.0 * q);
                assert(value(deriv(*f, var), env) == Some(a.1));
                assert(value(deriv(*g, var), env) == Some(b.1));
                assert(value(*f, env) == Some(a.0));
                assert(value(*g, env) == Some(b.0));
                let num = minus(times(deriv(*f, var), *g), times(*f, deriv(*g, var)));
                let den = power(*g, lit(2));
                crate::eval::lemma_square(b.0);
                assert(value(times(deriv(*f, var), *g), env) == Some(a.1 * b.0));
                assert(value(times(*f, deriv(*g, var)), env) == Some(a.0 * b.1));
                assert(value(num, env) == Some(a.1 * b.0 - a.0 * b.1));
                assert(value(den, env) == Some(b.0 * b.0));
                assert(a.1 * b.0 - a.0 * b.1 == (b.0 * b.0) * q) by (nonlinear_arith)
                    requires
                        a.0 == b.0 * p,
                        a.1 - p * b.1 == b.0 * q,
                ;
                assert(b.0 * b.0 != 0) by (nonlinear_arith)
                    requires
                        b.0 != 0,
                ;
                crate::eval::lemma_exact_div(q, b.0 * b.0);
                assert(value(over(num, den), env) == Some(q));
            }
        }
    }
}

} // verus!
