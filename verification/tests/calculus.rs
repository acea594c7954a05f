use mm_rules::calculus::{constant_rule, power_rule};
use mm_rules::expr::Expr;
use mm_rules::symbols::SymbolTable;
use mm_rules::RuleContext;

#[test]
fn test_power_rule() {
    let mut symbols = SymbolTable::new();
    let x = symbols.intern("x");

    let rule = power_rule();
    let ctx = RuleContext::default();

    // d/dx(x^3)
    let expr = Expr::Derivative {
        expr: Box::new(Expr::Pow(Box::new(Expr::Var(x)), Box::new(Expr::integer(3)))),
        var: x,
    };

    assert!(rule.can_apply(&expr, &ctx));
    let results = rule.apply(&expr, &ctx);
    assert_eq!(results.len(), 1);
}

#[test]
fn test_constant_rule() {
    let mut symbols = SymbolTable::new();
    let x = symbols.intern("x");

    let rule = constant_rule();
    let ctx = RuleContext::default();

    // d/dx(5)
    let expr = Expr::Derivative {
        expr: Box::new(Expr::integer(5)),
        var: x,
    };

    assert!(rule.can_apply(&expr, &ctx));
    let results = rule.apply(&expr, &ctx);
    assert_eq!(results.len(), 1);
    assert_eq!(results[0].result, Expr::integer(0));
}

fn num(n: i64) -> Expr {
    Expr::integer(n)
}

fn pow(a: Expr, b: Expr) -> Expr {
    Expr::Pow(Box::new(a), Box::new(b))
}

fn mul(a: Expr, b: Expr) -> Expr {
    Expr::Mul(Box::new(a), Box::new(b))
}

fn derivative(e: Expr, var: mm_rules::expr::Symbol) -> Expr {
    Expr::Derivative { expr: Box::new(e), var }
}

#[test]
fn calculus_rules_are_the_nine_derivative_rules() {
    let rules = mm_rules::calculus::calculus_rules();
    assert_eq!(rules.len(), 9);
    let names: Vec<&str> = rules.iter().map(|r| r.name).collect();
    assert_eq!(
        names,
        vec![
            "power_rule",
            "constant_rule",
            "sum_rule",
            "product_rule",
            "quotient_rule",
            "sin_chain_rule",
            "cos_chain_rule",
            "exp_derivative",
            "ln_derivative"
        ]
    );
    assert_eq!(rules[0].id, mm_rules::RuleId(11));
    assert_eq!(rules[4].id, mm_rules::RuleId(19));
    assert!(rules.iter().all(|r| r.category == mm_rules::RuleCategory::Derivative));
}

#[test]
fn power_rule_gives_n_times_x_to_n_minus_one() {
    let mut symbols = SymbolTable::new();
    let x = symbols.intern("x");
    let ctx = RuleContext::default();
    let expr = derivative(pow(Expr::Var(x), num(3)), x);
    let results = power_rule().apply(&expr, &ctx);
    assert_eq!(results.len(), 1);
    assert_eq!(results[0].result, mul(num(3), pow(Expr::Var(x), num(2))));
    assert_eq!(results[0].justification, "d/dx(x^3) = 3 · x^2");
}

#[test]
fn power_rule_on_x_gives_one() {
    let mut symbols = SymbolTable::new();
    let x = symbols.intern("x");
    let expr = derivative(Expr::Var(x), x);
    let results = power_rule().apply(&expr, &RuleContext::default());
    assert_eq!(results.len(), 1);
    assert_eq!(results[0].result, num(1));
}

#[test]
fn power_rule_ignores_another_variable() {
    let mut symbols = SymbolTable::new();
    let x = symbols.intern("x");
    let y = symbols.intern("y");
    let expr = derivative(pow(Expr::Var(y), num(3)), x);
    assert!(!power_rule().can_apply(&expr, &RuleContext::default()));
    assert!(power_rule().apply(&expr, &RuleContext::default()).is_empty());
}

#[test]
fn constant_rule_refuses_an_expression_with_the_variable() {
    let mut symbols = SymbolTable::new();
    let x = symbols.intern("x");
    let expr = derivative(mul(num(2), Expr::Var(x)), x);
    assert!(!constant_rule().can_apply(&expr, &RuleContext::default()));
    assert!(constant_rule().apply(&expr, &RuleContext::default()).is_empty());
}

#[test]
fn product_rule_gives_f_prime_g_plus_f_g_prime() {
    let mut symbols = SymbolTable::new();
    let x = symbols.intern("x");
    let f = Expr::Sin(Box::new(Expr::Var(x)));
    let g = Expr::Var(x);
    let expr = derivative(mul(f.clone(), g.clone()), x);
    let rule = mm_rules::calculus::product_rule();
    assert!(rule.can_apply(&expr, &RuleContext::default()));
    let results = rule.apply(&expr, &RuleContext::default());
    let expected = Expr::Add(
        Box::new(mul(derivative(f.clone(), x), g.clone())),
        Box::new(mul(f, derivative(g, x))),
    );
    assert_eq!(results.len(), 1);
    assert_eq!(results[0].result, expected);
}

#[test]
fn chain_rules_for_sine_and_cosine_of_x() {
    let mut symbols = SymbolTable::new();
    let x = symbols.intern("x");
    let sin = derivative(Expr::Sin(Box::new(Expr::Var(x))), x);
    let results = mm_rules::calculus::chain_rule_sin().apply(&sin, &RuleContext::default());
    assert_eq!(results[0].result, Expr::Cos(Box::new(Expr::Var(x))));
    let cos = derivative(Expr::Cos(Box::new(Expr::Var(x))), x);
    let results = mm_rules::calculus::chain_rule_cos().apply(&cos, &RuleContext::default());
    assert_eq!(results[0].result, Expr::Neg(Box::new(Expr::Sin(Box::new(Expr::Var(x))))));
}

#[test]
fn exp_and_ln_derivatives() {
    let mut symbols = SymbolTable::new();
    let x = symbols.intern("x");
    let exp = Expr::Exp(Box::new(Expr::Var(x)));
    let results = mm_rules::calculus::exp_rule().apply(&derivative(exp.clone(), x), &RuleContext::default());
    assert_eq!(results[0].result, exp);
    let ln = derivative(Expr::Ln(Box::new(Expr::Var(x))), x);
    let results = mm_rules::calculus::ln_rule().apply(&ln, &RuleContext::default());
    assert_eq!(results[0].result, Expr::Div(Box::new(num(1)), Box::new(Expr::Var(x))));
}

#[test]
fn each_differentiation_rule_gives_at_most_one_result() {
    let mut symbols = SymbolTable::new();
    let x = symbols.intern("x");
    let xv = Expr::Var(x);
    let inputs = [
        derivative(xv.clone(), x),
        derivative(pow(xv.clone(), num(3)), x),
        derivative(mul(num(2), xv.clone()), x),
        derivative(num(7), x),
        xv.clone(),
        num(7),
        mul(num(2), xv.clone()),
    ];
    for rule in mm_rules::calculus::calculus_rules() {
        for e in inputs.iter() {
            let apps = rule.apply(e, &RuleContext::default());
            assert!(apps.len() <= 1);
            if rule.can_apply(e, &RuleContext::default()) {
                assert_eq!(apps.len(), 1);
            }
            if !matches!(e, Expr::Derivative { .. }) {
                assert!(!rule.can_apply(e, &RuleContext::default()));
                assert!(apps.is_empty());
            }
        }
    }
}
