use mm_rules::combinatorics::{
    advanced_combinatorics_rules, binomial_rules, combinatorics_rules, counting_rules, describe,
    recurrence_rules, CombinatoricsRule,
};
use mm_rules::expr::Expr;
use mm_rules::symbols::{intern_symbol, SymbolTable};
use mm_rules::{RuleContext, RuleId};

fn num(n: i64) -> Expr {
    Expr::integer(n)
}

fn bx(e: Expr) -> Box<Expr> {
    Box::new(e)
}

fn named(s: &str) -> Expr {
    Expr::Var(intern_symbol(s))
}

fn apply(k: CombinatoricsRule, e: &Expr) -> Vec<mm_rules::RuleApplication> {
    describe(k).apply(e, &RuleContext::default())
}

#[test]
fn combinatorics_rules_has_sixty_six_rules() {
    let rules = combinatorics_rules();
    assert_eq!(rules.len(), 66);
    assert!(rules.iter().all(|r| (400..=442).contains(&r.id.0) || (600..=669).contains(&r.id.0)));
}

#[test]
fn rule_groups() {
    let binomial = binomial_rules();
    assert!(binomial.iter().any(|r| r.name == "binomial_zero"));
    assert!(binomial.iter().any(|r| r.name == "binomial_theorem"));
    assert!(!counting_rules().is_empty());
    assert!(recurrence_rules().len() >= 3);
    assert!(!advanced_combinatorics_rules().is_empty());
    assert_eq!(advanced_combinatorics_rules().len(), 46);
}

#[test]
fn binomial_base_cases() {
    let mut symbols = SymbolTable::new();
    let n = Expr::Var(symbols.intern("n"));
    let c0 = Expr::Binomial(bx(n.clone()), bx(num(0)));
    assert!(describe(CombinatoricsRule::BinomialZero).can_apply(&c0, &RuleContext::default()));
    assert_eq!(apply(CombinatoricsRule::BinomialZero, &c0)[0].result, num(1));
    let cn = Expr::Binomial(bx(n.clone()), bx(n.clone()));
    assert!(describe(CombinatoricsRule::BinomialFull).can_apply(&cn, &RuleContext::default()));
    let c1 = Expr::Binomial(bx(n.clone()), bx(num(1)));
    assert_eq!(apply(CombinatoricsRule::BinomialOne, &c1)[0].result, n);
}

#[test]
fn pascal_identity_equation() {
    let mut symbols = SymbolTable::new();
    let n = Expr::Var(symbols.intern("n"));
    let k = Expr::Var(symbols.intern("k"));
    let c = Expr::Binomial(bx(n.clone()), bx(k.clone()));
    let n1 = Expr::Sub(bx(n), bx(num(1)));
    let rhs = Expr::Add(
        bx(Expr::Binomial(bx(n1.clone()), bx(Expr::Sub(bx(k.clone()), bx(num(1)))))),
        bx(Expr::Binomial(bx(n1), bx(k))),
    );
    let apps = apply(CombinatoricsRule::PascalIdentity, &c);
    assert_eq!(apps[0].result, Expr::Equation { lhs: bx(c), rhs: bx(rhs) });
    assert_eq!(apps[0].justification, "Pascal identity");
}

#[test]
fn hockey_stick_through_both_rules() {
    let mut symbols = SymbolTable::new();
    let i = symbols.intern("i");
    let k = Expr::Var(symbols.intern("k"));
    let n = Expr::Var(symbols.intern("n"));
    let sum = Expr::Summation {
        var: i,
        from: bx(k.clone()),
        to: bx(n.clone()),
        body: bx(Expr::Binomial(bx(Expr::Var(i)), bx(k.clone()))),
    };
    let expected = Expr::Binomial(
        bx(Expr::Add(bx(n.clone()), bx(num(1)))),
        bx(Expr::Add(bx(k.clone()), bx(num(1)))),
    );
    assert_eq!(apply(CombinatoricsRule::HockeyStick, &sum)[0].result, expected);
    assert_eq!(apply(CombinatoricsRule::HockeyStickIdentity, &sum)[0].result, expected);
    // A sum whose terms are not C(i, k) is left alone.
    let other = Expr::Summation {
        var: i,
        from: bx(k.clone()),
        to: bx(n),
        body: bx(Expr::Binomial(bx(k), bx(Expr::Var(i)))),
    };
    assert!(!describe(CombinatoricsRule::HockeyStick).can_apply(&other, &RuleContext::default()));
    assert!(apply(CombinatoricsRule::HockeyStickIdentity, &other).is_empty());
}

#[test]
fn vandermonde_recognises_the_convolution() {
    let mut symbols = SymbolTable::new();
    let k = symbols.intern("k");
    let m = Expr::Var(symbols.intern("m"));
    let n = Expr::Var(symbols.intern("n"));
    let r = Expr::Var(symbols.intern("r"));
    let body = Expr::Mul(
        bx(Expr::Binomial(bx(m.clone()), bx(Expr::Var(k)))),
        bx(Expr::Binomial(bx(n.clone()), bx(Expr::Sub(bx(r.clone()), bx(Expr::Var(k)))))),
    );
    let sum = Expr::Summation { var: k, from: bx(num(0)), to: bx(r.clone()), body: bx(body) };
    let apps = apply(CombinatoricsRule::VandermondeIdentity, &sum);
    assert_eq!(apps[0].result, Expr::Binomial(bx(Expr::Add(bx(m), bx(n))), bx(r)));
    assert_eq!(apps[0].justification, "Vandermonde: Σ C(r,k) C(s,n-k) = C(r+s,n)");
}

#[test]
fn vandermonde_falls_back_to_the_schema() {
    let mut symbols = SymbolTable::new();
    let k = symbols.intern("k");
    let t = Expr::Var(symbols.intern("t"));
    let sum = Expr::Summation { var: k, from: bx(num(0)), to: bx(t.clone()), body: bx(Expr::Var(k)) };
    let apps = apply(CombinatoricsRule::Vandermonde, &sum);
    let expected = Expr::Binomial(bx(Expr::Add(bx(named("r")), bx(named("s")))), bx(t));
    assert_eq!(apps[0].result, expected);
    assert_eq!(apps[0].justification, "Vandermonde identity");
}

#[test]
fn derangement_formula_uses_the_matched_variable() {
    let mut symbols = SymbolTable::new();
    let m = symbols.intern("m");
    let apps = apply(CombinatoricsRule::Derangement, &Expr::Var(m));
    let k = intern_symbol("k");
    let body = Expr::Div(
        bx(Expr::Pow(bx(Expr::Neg(bx(num(1)))), bx(Expr::Var(k)))),
        bx(Expr::Factorial(bx(Expr::Var(k)))),
    );
    let sum = Expr::Summation { var: k, from: bx(num(0)), to: bx(Expr::Var(m)), body: bx(body) };
    let rhs = Expr::Mul(bx(Expr::Factorial(bx(Expr::Var(m)))), bx(sum));
    assert_eq!(apps[0].result, Expr::Equation { lhs: bx(Expr::Var(m)), rhs: bx(rhs) });
    assert!(apply(CombinatoricsRule::DerangementFormula, &num(3)).is_empty());
}

#[test]
fn binomial_squares_sum_needs_the_square_from_zero() {
    let mut symbols = SymbolTable::new();
    let k = symbols.intern("k");
    let n = Expr::Var(symbols.intern("n"));
    let square = Expr::Pow(bx(Expr::Binomial(bx(n.clone()), bx(Expr::Var(k)))), bx(num(2)));
    let sum = Expr::Summation { var: k, from: bx(num(0)), to: bx(n.clone()), body: bx(square.clone()) };
    let apps = apply(CombinatoricsRule::BinomialSquaresSum, &sum);
    assert_eq!(
        apps[0].result,
        Expr::Binomial(bx(Expr::Mul(bx(num(2)), bx(n.clone()))), bx(n.clone()))
    );
    let from_one = Expr::Summation { var: k, from: bx(num(1)), to: bx(n), body: bx(square) };
    assert!(apply(CombinatoricsRule::BinomialSquaresSum, &from_one).is_empty());
}

#[test]
fn stars_and_bars_result() {
    let apps = apply(CombinatoricsRule::StarsAndBars, &named("x"));
    let expected = Expr::Binomial(
        bx(Expr::Sub(bx(Expr::Add(bx(named("n")), bx(named("k")))), bx(num(1)))),
        bx(Expr::Sub(bx(named("k")), bx(num(1)))),
    );
    assert_eq!(apps[0].result, expected);
}

#[test]
fn weighted_binomial_sum_takes_n_from_the_coefficient() {
    let mut symbols = SymbolTable::new();
    let k = symbols.intern("k");
    let m = symbols.intern("m");
    let n = named("N");
    let e = Expr::Summation {
        var: k,
        from: bx(num(0)),
        to: bx(Expr::Var(m)),
        body: bx(Expr::Mul(bx(Expr::Var(k)), bx(Expr::Binomial(bx(n.clone()), bx(Expr::Var(k)))))),
    };
    let apps = apply(CombinatoricsRule::BinomialWeightedSum, &e);
    assert_eq!(apps.len(), 1);
    assert_eq!(
        apps[0].result,
        Expr::Mul(bx(n.clone()), bx(Expr::Pow(bx(num(2)), bx(Expr::Sub(bx(n.clone()), bx(num(1)))))))
    );
    let swapped = Expr::Summation {
        var: k,
        from: bx(num(0)),
        to: bx(Expr::Var(m)),
        body: bx(Expr::Mul(bx(Expr::Binomial(bx(n), bx(Expr::Var(k)))), bx(Expr::Var(k)))),
    };
    assert!(apply(CombinatoricsRule::BinomialWeightedSum, &swapped).is_empty());
}
