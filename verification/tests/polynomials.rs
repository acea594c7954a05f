use mm_rules::expr::Expr;
use mm_rules::polynomials::{
    advanced_polynomial_rules, describe, factoring_rules, polynomial_rules, PolynomialRule,
};
use mm_rules::symbols::{intern_symbol, SymbolTable};
use mm_rules::{RuleContext, RuleId};

fn num(n: i64) -> Expr {
    Expr::integer(n)
}

fn bx(e: Expr) -> Box<Expr> {
    Box::new(e)
}

fn named(s: &str) -> Expr {
    Expr::Var(intern_symbol(s))
}

fn apply(k: PolynomialRule, e: &Expr) -> Vec<mm_rules::RuleApplication> {
    describe(k).apply(e, &RuleContext::default())
}

#[test]
fn polynomial_rules_has_fifty_four_rules() {
    let rules = polynomial_rules();
    assert_eq!(rules.len(), 54);
    assert!(rules.iter().all(|r| (500..=527).contains(&r.id.0)
        || (540..=561).contains(&r.id.0)
        || (800..=818).contains(&r.id.0)));
}

#[test]
fn factoring_rules_has_twenty_rules() {
    let rules = factoring_rules();
    assert_eq!(rules.len(), 20);
    assert_eq!(rules[0].id, RuleId(540));
    assert_eq!(rules[19].id, RuleId(559));
}

#[test]
fn advanced_polynomial_rules_in_order() {
    let rules = advanced_polynomial_rules();
    assert_eq!(rules.len(), 19);
    assert_eq!(rules[0].name, "quadratic_formula");
    assert_eq!(rules[18].name, "laguerre_recurrence");
}

#[test]
fn vieta_sum_for_a_quadratic() {
    let mut symbols = SymbolTable::new();
    let x = Expr::Var(symbols.intern("x"));
    let apps = apply(PolynomialRule::VietaSumQuadratic, &x);
    let expected = Expr::Equation {
        lhs: bx(Expr::Add(bx(named("r1")), bx(named("r2")))),
        rhs: bx(Expr::Div(bx(Expr::Neg(bx(named("b")))), bx(named("a")))),
    };
    assert_eq!(apps.len(), 1);
    assert_eq!(apps[0].result, expected);
    assert_eq!(apps[0].justification, "Vieta (quadratic) r1+r2 = -b/a");
}

#[test]
fn quadratic_formula_result() {
    let apps = apply(PolynomialRule::QuadraticFormula, &named("x"));
    let disc = Expr::Sub(
        bx(Expr::Pow(bx(named("b")), bx(num(2)))),
        bx(Expr::Mul(bx(num(4)), bx(Expr::Mul(bx(named("a")), bx(named("c")))))),
    );
    let rhs = Expr::Div(
        bx(Expr::Add(bx(Expr::Neg(bx(named("b")))), bx(Expr::Sqrt(bx(disc))))),
        bx(Expr::Mul(bx(num(2)), bx(named("a")))),
    );
    assert_eq!(apps[0].result, Expr::Equation { lhs: bx(named("x")), rhs: bx(rhs) });
}

#[test]
fn sum_of_squares_symmetric_form() {
    let mut symbols = SymbolTable::new();
    let x = Expr::Var(symbols.intern("x"));
    let y = Expr::Var(symbols.intern("y"));
    let expr = Expr::Add(bx(Expr::Pow(bx(x.clone()), bx(num(2)))), bx(Expr::Pow(bx(y.clone()), bx(num(2)))));
    assert!(describe(PolynomialRule::SumSquaresSym).can_apply(&expr, &RuleContext::default()));
    let apps = apply(PolynomialRule::SumSquaresSym, &expr);
    let expected = Expr::Sub(
        bx(Expr::Pow(bx(Expr::Add(bx(x.clone()), bx(y.clone()))), bx(num(2)))),
        bx(Expr::Mul(bx(num(2)), bx(Expr::Mul(bx(x), bx(y))))),
    );
    assert_eq!(apps[0].result, expected);
}

#[test]
fn sum_of_squares_needs_squares() {
    let mut symbols = SymbolTable::new();
    let x = Expr::Var(symbols.intern("x"));
    let expr = Expr::Add(bx(Expr::Pow(bx(x.clone()), bx(num(3)))), bx(x));
    assert!(!describe(PolynomialRule::SumSquaresSym).can_apply(&expr, &RuleContext::default()));
    assert!(apply(PolynomialRule::SumSquaresSym, &expr).is_empty());
}

#[test]
fn binomial_factor_expands_into_a_sum() {
    let mut symbols = SymbolTable::new();
    let x = Expr::Var(symbols.intern("x"));
    let y = Expr::Var(symbols.intern("y"));
    let expr = Expr::Pow(bx(Expr::Sub(bx(x.clone()), bx(y.clone()))), bx(num(5)));
    let apps = apply(PolynomialRule::BinomialFactor, &expr);
    let k = intern_symbol("k");
    let term = Expr::Mul(
        bx(Expr::Binomial(bx(num(5)), bx(Expr::Var(k)))),
        bx(Expr::Mul(
            bx(Expr::Pow(bx(x), bx(Expr::Var(k)))),
            bx(Expr::Pow(bx(Expr::Neg(bx(y))), bx(Expr::Sub(bx(num(5)), bx(Expr::Var(k)))))),
        )),
    );
    let sum = Expr::Summation { var: k, from: bx(num(0)), to: bx(num(5)), body: bx(term) };
    assert_eq!(apps[0].result, Expr::Equation { lhs: bx(expr), rhs: bx(sum) });
}

#[test]
fn diff_nth_power_factors_out_the_difference() {
    let mut symbols = SymbolTable::new();
    let x = Expr::Var(symbols.intern("x"));
    let y = Expr::Var(symbols.intern("y"));
    let n = Expr::Var(symbols.intern("n"));
    let expr = Expr::Sub(bx(Expr::Pow(bx(x.clone()), bx(n.clone()))), bx(Expr::Pow(bx(y.clone()), bx(n.clone()))));
    assert!(describe(PolynomialRule::DiffNthPower).can_apply(&expr, &RuleContext::default()));
    let apps = apply(PolynomialRule::DiffNthPower, &expr);
    let k = intern_symbol("k");
    let top = Expr::Sub(bx(n), bx(num(1)));
    let body = Expr::Mul(
        bx(Expr::Pow(bx(x.clone()), bx(Expr::Sub(bx(top.clone()), bx(Expr::Var(k)))))),
        bx(Expr::Pow(bx(y.clone()), bx(Expr::Var(k)))),
    );
    let sum = Expr::Summation { var: k, from: bx(num(0)), to: bx(top), body: bx(body) };
    assert_eq!(apps.len(), 1);
    assert_eq!(apps[0].result, Expr::Mul(bx(Expr::Sub(bx(x), bx(y))), bx(sum)));
}

#[test]
fn corrected_factorisations_have_the_documented_shape() {
    let mut symbols = SymbolTable::new();
    let a = Expr::Var(symbols.intern("a"));
    let b = Expr::Var(symbols.intern("b"));
    let cube = |e: &Expr| Expr::Pow(bx(e.clone()), bx(num(3)));
    let sq = |e: &Expr| Expr::Pow(bx(e.clone()), bx(num(2)));
    let sum = Expr::Add(bx(cube(&a)), bx(cube(&b)));
    let apps = apply(PolynomialRule::SumCubes, &sum);
    assert_eq!(
        apps[0].result,
        Expr::Mul(
            bx(Expr::Add(bx(a.clone()), bx(b.clone()))),
            bx(Expr::Add(bx(Expr::Sub(bx(sq(&a)), bx(Expr::Mul(bx(a.clone()), bx(b.clone()))))), bx(sq(&b)))),
        )
    );
    let apps = apply(PolynomialRule::SumCubesSym, &sum);
    let s = Expr::Add(bx(a.clone()), bx(b.clone()));
    assert_eq!(
        apps[0].result,
        Expr::Sub(
            bx(Expr::Pow(bx(s.clone()), bx(num(3)))),
            bx(Expr::Mul(bx(num(3)), bx(Expr::Mul(bx(Expr::Mul(bx(a.clone()), bx(b.clone()))), bx(s))))),
        )
    );
    let not_cubes = Expr::Add(bx(a.clone()), bx(b.clone()));
    assert!(!describe(PolynomialRule::SumCubesSym).can_apply(&not_cubes, &RuleContext::default()));
    assert!(apply(PolynomialRule::SumCubesSym, &not_cubes).is_empty());
    // x² + 2x = (x + 2/2)² - (2/2)²
    let square = Expr::Add(bx(sq(&a)), bx(Expr::Mul(bx(num(2)), bx(a.clone()))));
    assert!(describe(PolynomialRule::CompleteSquare).can_apply(&square, &RuleContext::default()));
    let half = Expr::Div(bx(num(2)), bx(num(2)));
    assert_eq!(
        apply(PolynomialRule::CompleteSquare, &square)[0].result,
        Expr::Sub(bx(sq(&Expr::Add(bx(a.clone()), bx(half.clone())))), bx(sq(&half)))
    );
    let unrelated = Expr::Add(bx(sq(&a)), bx(Expr::Mul(bx(num(2)), bx(b.clone()))));
    assert!(!describe(PolynomialRule::CompleteSquare).can_apply(&unrelated, &RuleContext::default()));
    assert!(apply(PolynomialRule::CompleteSquare, &unrelated).is_empty());
}

#[test]
fn cubic_discriminant_and_legendre_recurrence() {
    let p = named("p");
    let q = named("q");
    let d = apply(PolynomialRule::CubicDiscriminant, &named("x"));
    assert_eq!(
        d[0].result,
        Expr::Equation {
            lhs: bx(named("Δ")),
            rhs: bx(Expr::Sub(
                bx(Expr::Mul(bx(num(-4)), bx(Expr::Pow(bx(p), bx(num(3)))))),
                bx(Expr::Mul(bx(num(27)), bx(Expr::Pow(bx(q), bx(num(2)))))),
            )),
        }
    );
    let l = apply(PolynomialRule::LegendreRecurrence, &named("x"));
    match &l[0].result {
        Expr::Equation { lhs, .. } => assert_eq!(
            **lhs,
            Expr::Mul(bx(Expr::Add(bx(named("n")), bx(num(1)))), bx(named("P_{n+1}")))
        ),
        _ => panic!("expected an equation"),
    }
}

#[test]
fn schematic_rules_answer_with_their_placeholder() {
    let apps = apply(PolynomialRule::RationalRootTheorem, &named("x"));
    assert_eq!(apps[0].result, named("± factors(a0)/factors(an)"));
    assert!(!describe(PolynomialRule::RationalRootTheorem).can_apply(&num(3), &RuleContext::default()));
}
