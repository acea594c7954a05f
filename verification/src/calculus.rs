//! Calculus rules: derivatives by the power, sum, product, quotient and
//! chain rules.
use vstd::prelude::*;
use crate::expr::{
    Expr, Symbol, Rational, rational_text, lit, cl, negate, plus, minus, times, over, power, deriv,
};
use crate::rule::{
    Rule, RuleKind, RuleCategory, RuleApplication, Outcome, entry, single, outcomes, none, one,
    one_text,
};

verus! {

/// The calculus rules.
#[derive(Clone, Copy, PartialEq, Eq, Structural, Debug)]
pub enum CalculusRule {
    Power,
    Constant,
    Sum,
    Product,
    Quotient,
    ChainSin,
    ChainCos,
    Exp,
    Ln,
}

/// Whether the variable `v` occurs in `e`.
pub open spec fn mentions(e: Expr, v: Symbol) -> bool
    decreases e,
{
    match e {
        Expr::Var(w) => w == v,
        Expr::Const(_) | Expr::Pi | Expr::E => false,
        Expr::Neg(a) | Expr::Sqrt(a) | Expr::Sin(a) | Expr::Cos(a) | Expr::Tan(a) | Expr::Ln(a)
        | Expr::Exp(a) | Expr::Abs(a) | Expr::Factorial(a) | Expr::Floor(a) | Expr::Ceiling(
            a,
        ) => mentions(*a, v),
        Expr::Add(a, b) | Expr::Sub(a, b) | Expr::Mul(a, b) | Expr::Div(a, b) | Expr::Pow(a, b)
        | Expr::Mod(a, b) | Expr::GCD(a, b) | Expr::LCM(a, b) | Expr::Binomial(a, b) | Expr::Gt(
            a,
            b,
        ) | Expr::Gte(a, b) | Expr::Lt(a, b) => mentions(*a, v) || mentions(*b, v),
        Expr::Summation { from, to, body, .. } | Expr::BigProduct { from, to, body, .. } => mentions(
            *from,
            v,
        ) || mentions(*to, v) || mentions(*body, v),
        Expr::Derivative { expr, .. } | Expr::Integral { expr, .. } => mentions(*expr, v),
        Expr::Equation { lhs, rhs } => mentions(*lhs, v) || mentions(*rhs, v),
    }
}

/// Whether the variable `v` occurs in `e`.
pub fn contains_var(e: &Expr, v: Symbol) -> (r: bool)
    ensures
        r == mentions(*e, v),
    decreases e,
{
    match e {
        Expr::Var(w) => *w == v,
        Expr::Const(_) | Expr::Pi | Expr::E => false,
        Expr::Neg(a) | Expr::Sqrt(a) | Expr::Sin(a) | Expr::Cos(a) | Expr::Tan(a) | Expr::Ln(a)
        | Expr::Exp(a) | Expr::Abs(a) | Expr::Factorial(a) | Expr::Floor(a) | Expr::Ceiling(
            a,
        ) => contains_var(a, v),
        Expr::Add(a, b) | Expr::Sub(a, b) | Expr::Mul(a, b) | Expr::Div(a, b) | Expr::Pow(a, b)
        | Expr::Mod(a, b) | Expr::GCD(a, b) | Expr::LCM(a, b) | Expr::Binomial(a, b) | Expr::Gt(
            a,
            b,
        ) | Expr::Gte(a, b) | Expr::Lt(a, b) => contains_var(a, v) || contains_var(b, v),
        Expr::Summation { from, to, body, .. } | Expr::BigProduct { from, to, body, .. } => {
            contains_var(from, v) || contains_var(to, v) || contains_var(body, v)
        },
        Expr::Derivative { expr, .. } | Expr::Integral { expr, .. } => contains_var(expr, v),
        Expr::Equation { lhs, rhs } => contains_var(lhs, v) || contains_var(rhs, v),
    }
}

/// The catalogue entry of each calculus rule.
pub open spec fn catalog(k: CalculusRule) -> Rule {
    let kind = RuleKind::Calculus(k);
    match k {
        CalculusRule::Power => entry(11, "power_rule", RuleCategory::Derivative, "Power rule: d/dx(x^n) = n·x^(n-1)", false, 2, kind),
        CalculusRule::Constant => entry(12, "constant_rule", RuleCategory::Derivative, "Constant rule: d/dx(c) = 0", false, 1, kind),
        CalculusRule::Sum => entry(13, "sum_rule", RuleCategory::Derivative, "Sum rule: d/dx(f + g) = f' + g'", false, 2, kind),
        CalculusRule::Product => entry(14, "product_rule", RuleCategory::Derivative, "Product rule: d/dx(fg) = f'g + fg'", false, 3, kind),
        CalculusRule::Quotient => entry(19, "quotient_rule", RuleCategory::Derivative, "Quotient rule: d/dx(f/g) = (f'g - fg') / g²", false, 4, kind),
        CalculusRule::ChainSin => entry(15, "sin_chain_rule", RuleCategory::Derivative, "Sine chain rule: d/dx(sin(g)) = cos(g) * g'", false, 2, kind),
        CalculusRule::ChainCos => entry(16, "cos_chain_rule", RuleCategory::Derivative, "Cosine chain rule: d/dx(cos(g)) = -sin(g) * g'", false, 2, kind),
        CalculusRule::Exp => entry(17, "exp_derivative", RuleCategory::Derivative, "Exponential derivative: d/dx(e^x) = e^x", false, 2, kind),
        CalculusRule::Ln => entry(18, "ln_derivative", RuleCategory::Derivative, "Natural log derivative: d/dx(ln(x)) = 1/x", false, 2, kind),
    }
}

/// The rule of kind `k`.
pub fn describe(k: CalculusRule) -> (r: Rule)
    ensures
        r == catalog(k),
{
    let kind = RuleKind::Calculus(k);
    match k {
        CalculusRule::Power => entry(11, "power_rule", RuleCategory::Derivative, "Power rule: d/dx(x^n) = n·x^(n-1)", false, 2, kind),
        CalculusRule::Constant => entry(12, "constant_rule", RuleCategory::Derivative, "Constant rule: d/dx(c) = 0", false, 1, kind),
        CalculusRule::Sum => entry(13, "sum_rule", RuleCategory::Derivative, "Sum rule: d/dx(f + g) = f' + g'", false, 2, kind),
        CalculusRule::Product => entry(14, "product_rule", RuleCategory::Derivative, "Product rule: d/dx(fg) = f'g + fg'", false, 3, kind),
        CalculusRule::Quotient => entry(19, "quotient_rule", RuleCategory::Derivative, "Quotient rule: d/dx(f/g) = (f'g - fg') / g²", false, 4, kind),
        CalculusRule::ChainSin => entry(15, "sin_chain_rule", RuleCategory::Derivative, "Sine chain rule: d/dx(sin(g)) = cos(g) * g'", false, 2, kind),
        CalculusRule::ChainCos => entry(16, "cos_chain_rule", RuleCategory::Derivative, "Cosine chain rule: d/dx(cos(g)) = -sin(g) * g'", false, 2, kind),
        CalculusRule::Exp => entry(17, "exp_derivative", RuleCategory::Derivative, "Exponential derivative: d/dx(e^x) = e^x", false, 2, kind),
        CalculusRule::Ln => entry(18, "ln_derivative", RuleCategory::Derivative, "Natural log derivative: d/dx(ln(x)) = 1/x", false, 2, kind),
    }
}

/// The power rule: `d/dx x^n = n·x^(n-1)`, and `d/dx x = 1`.
pub fn power_rule() -> (r: Rule)
    ensures
        r == catalog(CalculusRule::Power),
{
    describe(CalculusRule::Power)
}

/// The constant rule: the derivative of an expression without the variable is `0`.
pub fn constant_rule() -> (r: Rule)
    ensures
        r == catalog(CalculusRule::Constant),
{
    describe(CalculusRule::Constant)
}

/// The sum rule: `(f + g)' = f' + g'`.
pub fn sum_rule() -> (r: Rule)
    ensures
        r == catalog(CalculusRule::Sum),
{
    describe(CalculusRule::Sum)
}

/// The product rule: `(f·g)' = f'·g + f·g'`.
pub fn product_rule() -> (r: Rule)
    ensures
        r == catalog(CalculusRule::Product),
{
    describe(CalculusRule::Product)
}

/// The quotient rule: `(f/g)' = (f'·g - f·g') / g²`.
pub fn quotient_rule() -> (r: Rule)
    ensures
        r == catalog(CalculusRule::Quotient),
{
    describe(CalculusRule::Quotient)
}

/// The chain rule for the sine: `sin(g)' = cos(g)·g'`.
pub fn chain_rule_sin() -> (r: Rule)
    ensures
        r == catalog(CalculusRule::ChainSin),
{
    describe(CalculusRule::ChainSin)
}

/// The chain rule for the cosine: `cos(g)' = -sin(g)·g'`.
pub fn chain_rule_cos() -> (r: Rule)
    ensures
        r == catalog(CalculusRule::ChainCos),
{
    describe(CalculusRule::ChainCos)
}

/// The derivative of the exponential: `d/dx e^x = e^x`.
pub fn exp_rule() -> (r: Rule)
    ensures
        r == catalog(CalculusRule::Exp),
{
    describe(CalculusRule::Exp)
}

/// The derivative of the logarithm: `d/dx ln(x) = 1/x`.
pub fn ln_rule() -> (r: Rule)
    ensures
        r == catalog(CalculusRule::Ln),
{
    describe(CalculusRule::Ln)
}

/// The calculus rules in their order: power, constant, sum, product,
/// quotient, sine and cosine chain rules, exponential and logarithm.
pub open spec fn calculus_kinds() -> Seq<CalculusRule> {
    seq![
        CalculusRule::Power,
        CalculusRule::Constant,
        CalculusRule::Sum,
        CalculusRule::Product,
        CalculusRule::Quotient,
        CalculusRule::ChainSin,
        CalculusRule::ChainCos,
        CalculusRule::Exp,
        CalculusRule::Ln,
    ]
}

/// All calculus rules.
pub fn calculus_rules() -> (rules: Vec<Rule>)
    ensures
        rules@ == calculus_kinds().map_values(|k: CalculusRule| catalog(k)),
        rules.len() == 9,
        rules@ == crate::rule::calculus_catalogue(),
        crate::rule::ids_distinct(rules@),
{
    let rules = vec![
        power_rule(),
        constant_rule(),
        sum_rule(),
        product_rule(),
        quotient_rule(),
        chain_rule_sin(),
        chain_rule_cos(),
        exp_rule(),
        ln_rule(),
    ];
    proof {
        assert(rules@ =~= calculus_kinds().map_values(|k: CalculusRule| catalog(k)));
    }
    proof {
        assert(rules@ =~= crate::rule::calculus_catalogue());
        lemma_catalogue_numbers_distinct();
        assert forall|i: int, j: int| 0 <= i < j < rules@.len() implies #[trigger] rules@[i].id
            != #[trigger] rules@[j].id by {
            assert(rules@[i] == catalog(calculus_kinds()[i]));
            assert(rules@[j] == catalog(calculus_kinds()[j]));
        }
    }
    rules
}

/// Whether rule `k` matches `e`.
pub open spec fn applies(k: CalculusRule, e: Expr) -> bool {
    match e {
        Expr::Derivative { expr: inner, var } => match k {
            CalculusRule::Power => match *inner {
                Expr::Pow(base, exp) => *base == Expr::Var(var) && *exp is Const,
                Expr::Var(v) => v == var,
                _ => false,
            },
            CalculusRule::Constant => !mentions(*inner, var),
            CalculusRule::Sum => *inner is Add,
            CalculusRule::Product => *inner is Mul,
            CalculusRule::Quotient => *inner is Div,
            CalculusRule::ChainSin => *inner matches Expr::Sin(arg) && mentions(*arg, var),
            CalculusRule::ChainCos => *inner matches Expr::Cos(arg) && mentions(*arg, var),
            CalculusRule::Exp => *inner == Expr::Exp(Box::new(Expr::Var(var))),
            CalculusRule::Ln => *inner == Expr::Ln(Box::new(Expr::Var(var))),
        },
        _ => false,
    }
}

/// Whether rule `k` matches `e`.
pub fn can_apply(k: CalculusRule, e: &Expr) -> (r: bool)
    ensures
        r == applies(k, *e),
{
    if let Expr::Derivative { expr: inner, var } = e {
        match k {
            CalculusRule::Power => {
                if let Expr::Pow(base, exp) = &**inner {
                    if let Expr::Var(v) = &**base {
                        return *v == *var && matches!(**exp, Expr::Const(_));
                    }
                    return false;
                }
                if let Expr::Var(v) = &**inner {
                    return *v == *var;
                }
                false
            },
            CalculusRule::Constant => !contains_var(inner, *var),
            CalculusRule::Sum => matches!(**inner, Expr::Add(_, _)),
            CalculusRule::Product => matches!(**inner, Expr::Mul(_, _)),
            CalculusRule::Quotient => matches!(**inner, Expr::Div(_, _)),
            CalculusRule::ChainSin => {
                if let Expr::Sin(arg) = &**inner {
                    return contains_var(arg, *var);
                }
                false
            },
            CalculusRule::ChainCos => {
                if let Expr::Cos(arg) = &**inner {
                    return contains_var(arg, *var);
                }
                false
            },
            CalculusRule::Exp => {
                if let Expr::Exp(arg) = &**inner {
                    if let Expr::Var(v) = &**arg {
                        return *v == *var;
                    }
                }
                false
            },
            CalculusRule::Ln => {
                if let Expr::Ln(arg) = &**inner {
                    if let Expr::Var(v) = &**arg {
                        return *v == *var;
                    }
                }
                false
            },
        }
    } else {
        false
    }
}

/// The inputs on which rule `k` can be carried out: the power rule forms
/// `n - 1`, which must fit the machine integers.
pub open spec fn defined(k: CalculusRule, e: Expr) -> bool {
    match (k, e) {
        (CalculusRule::Power, Expr::Derivative { expr: inner, var }) => match *inner {
            Expr::Pow(base, exp) => match (*base, *exp) {
                (Expr::Var(v), Expr::Const(n)) => v == var ==> n.minus_one_fits(),
                _ => true,
            },
            _ => true,
        },
        _ => true,
    }
}

/// The justification of the power rule for the exponent `n`.
pub open spec fn power_text(n: Rational) -> Seq<char> {
    "d/dx(x^"@ + rational_text(n) + ") = "@ + rational_text(n) + " · x^"@ + rational_text(n.minus_one())
}

/// What rule `k` gives for `e`.
pub open spec fn results(k: CalculusRule, e: Expr) -> Seq<Outcome> {
    match e {
        Expr::Derivative { expr: inner, var } => match k {
            CalculusRule::Power => match *inner {
                Expr::Var(v) => if v == var {
                    single(lit(1), "d/dx(x) = 1"@)
                } else {
                    seq![]
                },
                Expr::Pow(base, exp) => match (*base, *exp) {
                    (Expr::Var(v), Expr::Const(n)) => if v == var {
                        single(
                            times(Expr::Const(n), power(*base, Expr::Const(n.minus_one()))),
                            power_text(n),
                        )
                    } else {
                        seq![]
                    },
                    _ => seq![],
                },
                _ => seq![],
            },
            CalculusRule::Constant => if !mentions(*inner, var) {
                single(lit(0), "d/dx(c) = 0 (c does not contain x)"@)
            } else {
                seq![]
            },
            CalculusRule::Sum => match *inner {
                Expr::Add(f, g) => single(plus(deriv(*f, var), deriv(*g, var)), "d/dx(f + g) = f' + g'"@),
                _ => seq![],
            },
            CalculusRule::Product => match *inner {
                Expr::Mul(f, g) => single(
                    plus(times(deriv(*f, var), *g), times(*f, deriv(*g, var))),
                    "d/dx(fg) = f'g + fg'"@,
                ),
                _ => seq![],
            },
            CalculusRule::Quotient => match *inner {
                Expr::Div(f, g) => single(
                    over(
                        minus(times(deriv(*f, var), *g), times(*f, deriv(*g, var))),
                        power(*g, lit(2)),
                    ),
                    "d/dx(f/g) = (f'g - fg') / g²"@,
                ),
                _ => seq![],
            },
            CalculusRule::ChainSin => match *inner {
                Expr::Sin(g) => if *g == Expr::Var(var) {
                    single(Expr::Cos(g), "d/dx(sin(x)) = cos(x)"@)
                } else {
                    single(times(Expr::Cos(g), deriv(*g, var)), "d/dx(sin(g)) = cos(g) * g'"@)
                },
                _ => seq![],
            },
            CalculusRule::ChainCos => match *inner {
                Expr::Cos(g) => if *g == Expr::Var(var) {
                    single(negate(Expr::Sin(g)), "d/dx(cos(x)) = -sin(x)"@)
                } else {
                    single(
                        times(negate(Expr::Sin(g)), deriv(*g, var)),
                        "d/dx(cos(g)) = -sin(g) * g'"@,
                    )
                },
                _ => seq![],
            },
            CalculusRule::Exp => if *inner == Expr::Exp(Box::new(Expr::Var(var))) {
                single(*inner, "d/dx(e^x) = e^x"@)
            } else {
                seq![]
            },
            CalculusRule::Ln => if *inner == Expr::Ln(Box::new(Expr::Var(var))) {
                single(over(lit(1), Expr::Var(var)), "d/dx(ln(x)) = 1/x"@)
            } else {
                seq![]
            },
        },
        _ => seq![],
    }
}

/// The results of rule `k` on `e`.
pub fn apply(k: CalculusRule, e: &Expr) -> (r: Vec<RuleApplication>)
    requires
        defined(k, *e),
    ensures
        outcomes(r@) == results(k, *e),
{
    if let Expr::Derivative { expr: inner, var } = e {
        let var = *var;
        match k {
            CalculusRule::Power => {
                if let Expr::Var(v) = &**inner {
                    if *v == var {
                        return one(lit(1), "d/dx(x) = 1");
                    }
                }
                if let Expr::Pow(base, exp) = &**inner {
                    if let (Expr::Var(v), Expr::Const(n)) = (&**base, &**exp) {
                        if *v == var {
                            let n_minus_1 = n.minus_one();
                            let mut why = String::from_str("d/dx(x^");
                            why.append(n.text().as_str());
                            why.append(") = ");
                            why.append(n.text().as_str());
                            why.append(" · x^");
                            why.append(n_minus_1.text().as_str());
                            proof {
                                reveal_strlit("d/dx(x^");
                                reveal_strlit(") = ");
                                reveal_strlit(" · x^");
                                assert(why@ == power_text(*n));
                            }
                            return one_text(
                                times(Expr::Const(*n), power(cl(base), Expr::Const(n_minus_1))),
                                why,
                            );
                        }
                    }
                }
                none()
            },
            CalculusRule::Constant => {
                if !contains_var(inner, var) {
                    return one(lit(0), "d/dx(c) = 0 (c does not contain x)");
                }
                none()
            },
            CalculusRule::Sum => {
                if let Expr::Add(f, g) = &**inner {
                    return one(plus(deriv(cl(f), var), deriv(cl(g), var)), "d/dx(f + g) = f' + g'");
                }
                none()
            },
            CalculusRule::Product => {
                if let Expr::Mul(f, g) = &**inner {
                    return one(
                        plus(times(deriv(cl(f), var), cl(g)), times(cl(f), deriv(cl(g), var))),
                        "d/dx(fg) = f'g + fg'",
                    );
                }
                none()
            },
            CalculusRule::Quotient => {
                if let Expr::Div(f, g) = &**inner {
                    let f_prime = deriv(cl(f), var);
                    let g_prime = deriv(cl(g), var);
                    let numerator = minus(times(f_prime, cl(g)), times(cl(f), g_prime));
                    let denominator = power(cl(g), lit(2));
                    return one(over(numerator, denominator), "d/dx(f/g) = (f'g - fg') / g²");
                }
                none()
            },
            CalculusRule::ChainSin => {
                if let Expr::Sin(g) = &**inner {
                    let cos_g = Expr::Cos(Box::new(cl(g)));
                    if let Expr::Var(v) = &**g {
                        if *v == var {
                            return one(cos_g, "d/dx(sin(x)) = cos(x)");
                        }
                    }
                    return one(times(cos_g, deriv(cl(g), var)), "d/dx(sin(g)) = cos(g) * g'");
                }
                none()
            },
            CalculusRule::ChainCos => {
                if let Expr::Cos(g) = &**inner {
                    let neg_sin_g = negate(Expr::Sin(Box::new(cl(g))));
                    if let Expr::Var(v) = &**g {
                        if *v == var {
                            return one(neg_sin_g, "d/dx(cos(x)) = -sin(x)");
                        }
                    }
                    return one(times(neg_sin_g, deriv(cl(g), var)), "d/dx(cos(g)) = -sin(g) * g'");
                }
                none()
            },
            CalculusRule::Exp => {
                if let Expr::Exp(arg) = &**inner {
                    if let Expr::Var(v) = &**arg {
                        if *v == var {
                            return one(cl(inner), "d/dx(e^x) = e^x");
                        }
                    }
                }
                none()
            },
            CalculusRule::Ln => {
                if let Expr::Ln(arg) = &**inner {
                    if let Expr::Var(v) = &**arg {
                        if *v == var {
                            return one(over(lit(1), Expr::Var(*v)), "d/dx(ln(x)) = 1/x");
                        }
                    }
                }
                none()
            },
        }
    } else {
        none()
    }
}

/// A differentiation rule gives one result at most, exactly one on each
/// derivative it applies to, and none, nor applies, outside a derivative.
pub proof fn lemma_calculus_results_single(k: CalculusRule, e: Expr)
    ensures
        results(k, e).len() <= 1,
        applies(k, e) ==> results(k, e).len() == 1,
        !(e is Derivative) ==> !applies(k, e) && results(k, e).len() == 0,
{
}

/// The rule numbered `id`, if any.
pub open spec fn numbered(id: u32) -> Option<CalculusRule> {
    match id {
        11 => Some(CalculusRule::Power),
        12 => Some(CalculusRule::Constant),
        13 => Some(CalculusRule::Sum),
        14 => Some(CalculusRule::Product),
        19 => Some(CalculusRule::Quotient),
        15 => Some(CalculusRule::ChainSin),
        16 => Some(CalculusRule::ChainCos),
        17 => Some(CalculusRule::Exp),
        18 => Some(CalculusRule::Ln),
        _ => None,
    }
}

/// Each rule is the one its number names, and its number lies in the
/// ranges of this catalogue.
pub proof fn lemma_numbered(k: CalculusRule)
    ensures
        numbered(catalog(k).id.0) == Some(k),
        11 <= catalog(k).id.0 <= 19,
{
}

/// Where rule `k` stands in [`calculus_kinds`].
pub open spec fn position(k: CalculusRule) -> int {
    match k {
        CalculusRule::Power => 0,
        CalculusRule::Constant => 1,
        CalculusRule::Sum => 2,
        CalculusRule::Product => 3,
        CalculusRule::Quotient => 4,
        CalculusRule::ChainSin => 5,
        CalculusRule::ChainCos => 6,
        CalculusRule::Exp => 7,
        CalculusRule::Ln => 8,
    }
}

/// The catalogue lists each rule once.
pub proof fn lemma_kinds_listed_once()
    ensures
        calculus_kinds().len() == 9,
        forall|i: int| 0 <= i < calculus_kinds().len() ==> position(#[trigger] calculus_kinds()[i]) == i,
        forall|i: int, j: int|
            0 <= i < j < calculus_kinds().len() ==> calculus_kinds()[i] != calculus_kinds()[j],
{
    assert forall|i: int| 0 <= i < calculus_kinds().len() implies position(#[trigger] calculus_kinds()[i]) == i by {
    }
}

/// The rules of the catalogue have pairwise different numbers.
pub proof fn lemma_catalogue_numbers_distinct()
    ensures
        forall|i: int, j: int|
            0 <= i < j < calculus_kinds().len() ==> #[trigger] catalog(calculus_kinds()[i]).id != #[trigger] catalog(calculus_kinds()[j]).id,
{
    lemma_kinds_listed_once();
    assert forall|i: int, j: int| 0 <= i < j < calculus_kinds().len() implies #[trigger] catalog(calculus_kinds()[i]).id
        != #[trigger] catalog(calculus_kinds()[j]).id by {
        lemma_numbered(calculus_kinds()[i]);
        lemma_numbered(calculus_kinds()[j]);
    }
}

} // verus!
