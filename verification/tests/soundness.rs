use mm_rules::combinatorics::{self, CombinatoricsRule};
use mm_rules::expr::Expr;
use mm_rules::number_theory::{self, NumberTheoryRule};
use mm_rules::polynomials::{self, PolynomialRule};
use mm_rules::expr::Symbol;
use mm_rules::symbols::SymbolTable;
use mm_rules::RuleContext;

fn num(n: i64) -> Expr {
    Expr::integer(n)
}

fn bx(e: Expr) -> Box<Expr> {
    Box::new(e)
}

fn gcd(a: i128, b: i128) -> i128 {
    if b == 0 {
        a.abs()
    } else {
        gcd(b, a % b)
    }
}

fn factorial(n: i128) -> i128 {
    (1..=n).product()
}

fn binomial(n: i128, k: i128) -> i128 {
    if k < 0 || k > n {
        0
    } else {
        factorial(n) / (factorial(k) * factorial(n - k))
    }
}

/// Integer value of an expression, with every variable worth `x`.
fn eval(e: &Expr, x: i128) -> Option<i128> {
    eval_in(e, &|_| x)
}

/// Integer value of an expression under the values `env` of its variables.
fn eval_in(e: &Expr, env: &dyn Fn(Symbol) -> i128) -> Option<i128> {
    let eval = |a: &Expr, _: i128| eval_in(a, env);
    let x = 0;
    let two = |a: &Expr, b: &Expr| Some((eval(a, x)?, eval(b, x)?));
    match e {
        Expr::Var(s) => Some(env(*s)),
        Expr::Const(c) => if c.den == 1 { Some(c.num as i128) } else { None },
        Expr::Neg(a) => Some(-eval(a, x)?),
        Expr::Abs(a) => Some(eval(a, x)?.abs()),
        Expr::Floor(a) | Expr::Ceiling(a) => eval(a, x),
        Expr::Sqrt(a) => {
            let v = eval(a, x)?;
            if v < 0 {
                return None;
            }
            let r = (0..=v).find(|r| r * r >= v)?;
            if r * r == v { Some(r) } else { None }
        }
        Expr::Factorial(a) => {
            let v = eval(a, x)?;
            if v >= 0 { Some(factorial(v)) } else { None }
        }
        Expr::Add(a, b) => two(a, b).map(|(p, q)| p + q),
        Expr::Sub(a, b) => two(a, b).map(|(p, q)| p - q),
        Expr::Mul(a, b) => two(a, b).map(|(p, q)| p * q),
        Expr::Div(a, b) => {
            let (p, q) = two(a, b)?;
            if q != 0 && p.rem_euclid(q) == 0 { Some(p.div_euclid(q)) } else { None }
        }
        Expr::Pow(a, b) => {
            let (p, q) = two(a, b)?;
            if q >= 0 { Some(p.pow(q as u32)) } else { None }
        }
        Expr::Mod(a, b) => {
            let (p, q) = two(a, b)?;
            if q > 0 { Some(p.rem_euclid(q)) } else { None }
        }
        Expr::GCD(a, b) => two(a, b).map(|(p, q)| gcd(p, q)),
        Expr::LCM(a, b) => two(a, b).map(|(p, q)| if p == 0 || q == 0 { 0 } else { (p * q).abs() / gcd(p, q) }),
        Expr::Binomial(a, b) => {
            let (p, q) = two(a, b)?;
            if p >= 0 { Some(binomial(p, q)) } else { None }
        }
        Expr::Summation { var, from, to, body } => {
            let (lo, hi) = two(from, to)?;
            let mut total = 0;
            for i in lo..=hi {
                let v = *var;
                total += eval_in(body, &|s: Symbol| if s == v { i } else { env(s) })?;
            }
            Some(total)
        }
        _ => None,
    }
}

fn holds(e: &Expr, x: i128) -> bool {
    match e {
        Expr::Equation { lhs, rhs } => eval(lhs, x).is_some() && eval(lhs, x) == eval(rhs, x),
        _ => false,
    }
}

fn keeps_value_nt(k: NumberTheoryRule, e: &Expr, x: i128) {
    let rule = number_theory::describe(k);
    assert!(rule.can_apply(e, &RuleContext::default()));
    let apps = rule.apply(e, &RuleContext::default());
    assert!(!apps.is_empty());
    for a in apps {
        assert_eq!(eval(&a.result, x), eval(e, x));
    }
}

#[test]
fn number_theory_rewrites_keep_the_value() {
    let mut symbols = SymbolTable::new();
    let v = Expr::Var(symbols.intern("v"));
    let w = Expr::Var(symbols.intern("w"));
    let sq = |e: &Expr| Expr::Pow(bx(e.clone()), bx(num(2)));
    let cube = |e: &Expr| Expr::Pow(bx(e.clone()), bx(num(3)));
    for x in [-7i128, -1, 0, 2, 5, 11] {
        keeps_value_nt(NumberTheoryRule::EvenSum, &Expr::Add(bx(v.clone()), bx(v.clone())), x);
        keeps_value_nt(NumberTheoryRule::DiffSquaresFactor, &Expr::Sub(bx(sq(&v)), bx(sq(&num(3)))), x);
        keeps_value_nt(NumberTheoryRule::DiffCubesFactor, &Expr::Sub(bx(cube(&v)), bx(cube(&num(2)))), x);
        keeps_value_nt(NumberTheoryRule::SumCubesFactor, &Expr::Add(bx(cube(&v)), bx(cube(&num(4)))), x);
        keeps_value_nt(NumberTheoryRule::SquareBinomialExpand, &sq(&Expr::Add(bx(v.clone()), bx(num(3)))), x);
        keeps_value_nt(NumberTheoryRule::SquareBinomialSubExpand, &sq(&Expr::Sub(bx(v.clone()), bx(w.clone()))), x);
        keeps_value_nt(NumberTheoryRule::GcdSelf, &Expr::GCD(bx(v.clone()), bx(v.clone())), x);
        keeps_value_nt(NumberTheoryRule::GcdZero, &Expr::GCD(bx(v.clone()), bx(num(0))), x);
        keeps_value_nt(NumberTheoryRule::LcmOne, &Expr::LCM(bx(v.clone()), bx(num(1))), x);
        keeps_value_nt(
            NumberTheoryRule::GcdLcmProduct,
            &Expr::Mul(bx(Expr::GCD(bx(v.clone()), bx(num(6)))), bx(Expr::LCM(bx(v.clone()), bx(num(6))))),
            x,
        );
        keeps_value_nt(NumberTheoryRule::NegSquared, &Expr::Pow(bx(Expr::Neg(bx(v.clone()))), bx(num(4))), x);
        keeps_value_nt(
            NumberTheoryRule::CancelCommonFactor,
            &Expr::Div(bx(Expr::Mul(bx(num(3)), bx(v.clone()))), bx(num(3))),
            x,
        );
    }
    keeps_value_nt(NumberTheoryRule::FactorialRecurse, &Expr::Factorial(bx(num(5))), 0);
    keeps_value_nt(NumberTheoryRule::ModSelf, &Expr::Mod(bx(num(9)), bx(num(9))), 0);
}

#[test]
fn computed_powers_and_gcds_keep_the_value() {
    let pow_mod = Expr::Mod(bx(Expr::Pow(bx(num(7)), bx(num(13)))), bx(num(11)));
    keeps_value_nt(NumberTheoryRule::ModularExponentiation, &pow_mod, 0);
    keeps_value_nt(NumberTheoryRule::ExtendedGcd, &Expr::GCD(bx(num(240)), bx(num(46))), 0);
}

#[test]
fn the_excepted_inputs_do_change_the_value() {
    // 0! becomes 0 · (-1)!, which has no value.
    let apps = number_theory::describe(NumberTheoryRule::FactorialRecurse)
        .apply(&Expr::Factorial(bx(num(0))), &RuleContext::default());
    assert_eq!(eval(&apps[0].result, 0), None);
    // x² + 3x: half of 3 is no integer.
    let mut symbols = SymbolTable::new();
    let v = Expr::Var(symbols.intern("v"));
    let square = Expr::Add(
        bx(Expr::Pow(bx(v.clone()), bx(num(2)))),
        bx(Expr::Mul(bx(num(3)), bx(v))),
    );
    let apps = polynomials::describe(PolynomialRule::CompleteSquare).apply(&square, &RuleContext::default());
    assert_eq!(eval(&square, 2), Some(10));
    assert_eq!(eval(&apps[0].result, 2), None);
}

#[test]
fn negative_bases_and_gcds_keep_the_value() {
    for (a, n, m) in [(-2i64, 3i64, 5i64), (-2, 1, 5), (-7, 0, 3), (-13, 5, 11), (5, 0, 999)] {
        let pow_mod = Expr::Mod(bx(Expr::Pow(bx(num(a)), bx(num(n)))), bx(num(m)));
        keeps_value_nt(NumberTheoryRule::ModularExponentiation, &pow_mod, 0);
    }
    for (a, b) in [(-4i64, 0i64), (-6, 0), (-4, 6), (9, -12), (-15, -25), (0, -7)] {
        keeps_value_nt(NumberTheoryRule::ExtendedGcd, &Expr::GCD(bx(num(a)), bx(num(b))), 0);
    }
    let y = Expr::Var(SymbolTable::new().intern("y"));
    let zero_over = Expr::Div(bx(num(0)), bx(y));
    for x in [-3i128, 2, 7] {
        keeps_value_nt(NumberTheoryRule::DividesZero, &zero_over, x);
    }
}

#[test]
fn modular_inverses_are_inverses() {
    for m in [2i64, 7, 10, 97, 999] {
        for a in -40i64..40 {
            let e = Expr::Mod(bx(Expr::Div(bx(num(1)), bx(num(a)))), bx(num(m)));
            let apps = number_theory::describe(NumberTheoryRule::ModularInverse).apply(&e, &RuleContext::default());
            if gcd(a as i128, m as i128) == 1 {
                let v = eval(&apps[0].result, 0).unwrap();
                assert!(0 <= v && v < m as i128);
                assert_eq!((a as i128 * v).rem_euclid(m as i128), 1);
            } else {
                assert!(apps.is_empty());
            }
        }
    }
    let e = Expr::Mod(bx(Expr::Div(bx(num(1)), bx(num(-1)))), bx(num(5)));
    let apps = number_theory::describe(NumberTheoryRule::ModularInverse).apply(&e, &RuleContext::default());
    assert_eq!(eval(&apps[0].result, 0), Some(4));
}

#[test]
fn polynomial_rewrites_keep_the_value() {
    let mut symbols = SymbolTable::new();
    let v = Expr::Var(symbols.intern("v"));
    let e = Expr::Add(bx(Expr::Pow(bx(v.clone()), bx(num(2)))), bx(Expr::Pow(bx(num(5)), bx(num(2)))));
    let d = Expr::Sub(bx(Expr::Pow(bx(v.clone()), bx(num(3)))), bx(Expr::Pow(bx(num(5)), bx(num(3)))));
    for x in [-3i128, 0, 4, 9] {
        let c = Expr::Add(bx(Expr::Pow(bx(v.clone()), bx(num(3)))), bx(Expr::Pow(bx(num(5)), bx(num(3)))));
        let sq = Expr::Add(bx(Expr::Pow(bx(v.clone()), bx(num(2)))), bx(Expr::Mul(bx(num(6)), bx(v.clone()))));
        let sq2 = Expr::Add(bx(Expr::Pow(bx(v.clone()), bx(num(2)))), bx(Expr::Mul(bx(v.clone()), bx(num(-4)))));
        for (k, input) in [
            (PolynomialRule::SumSquaresSym, &e),
            (PolynomialRule::DiffCubes, &d),
            (PolynomialRule::SumCubes, &c),
            (PolynomialRule::SumCubesSym, &c),
            (PolynomialRule::CompleteSquare, &sq),
            (PolynomialRule::CompleteSquare, &sq2),
        ] {
            let apps = polynomials::describe(k).apply(input, &RuleContext::default());
            assert_eq!(eval(&apps[0].result, x), eval(input, x));
        }
    }
}

#[test]
fn sums_of_cubes_and_differences_of_powers_factor_exactly() {
    let e = Expr::Add(bx(Expr::Pow(bx(num(2)), bx(num(3)))), bx(Expr::Pow(bx(num(1)), bx(num(3)))));
    for k in [PolynomialRule::SumCubes, PolynomialRule::SumCubesSym] {
        let apps = polynomials::describe(k).apply(&e, &RuleContext::default());
        assert_eq!(eval(&apps[0].result, 0), Some(9));
    }
    let mut symbols = SymbolTable::new();
    let x = symbols.intern("x");
    let y = symbols.intern("y");
    let n = symbols.intern("n");
    let diff = Expr::Sub(
        bx(Expr::Pow(bx(Expr::Var(x)), bx(Expr::Var(n)))),
        bx(Expr::Pow(bx(Expr::Var(y)), bx(Expr::Var(n)))),
    );
    let apps = polynomials::describe(PolynomialRule::DiffNthPower).apply(&diff, &RuleContext::default());
    for (xv, yv, nv) in [(3i128, 1i128, 5i128), (2, -3, 4), (-1, 4, 1), (5, 5, 3), (7, 2, 0)] {
        let env = |s: Symbol| if s == x { xv } else if s == y { yv } else if s == n { nv } else { 0 };
        let want = xv.pow(nv as u32) - yv.pow(nv as u32);
        assert_eq!(eval_in(&diff, &env), Some(want));
        match &apps[0].result {
            Expr::Mul(d, s) => assert_eq!(eval_in(d, &env).unwrap() * eval_in(s, &env).unwrap(), want),
            _ => panic!("expected a product"),
        }
    }
    let env = |s: Symbol| if s == x { 3 } else if s == y { 1 } else if s == n { 5 } else { 0 };
    match &apps[0].result {
        Expr::Mul(_, s) => assert_eq!(eval_in(s, &env), Some(121)),
        _ => panic!("expected a product"),
    }
}

#[test]
fn binomial_rewrites_and_identities_hold() {
    let mut symbols = SymbolTable::new();
    let n = Expr::Var(symbols.intern("n"));
    let k = Expr::Var(symbols.intern("k"));
    for x in [1i128, 2, 5, 8] {
        for (rule, e) in [
            (CombinatoricsRule::BinomialZero, Expr::Binomial(bx(n.clone()), bx(num(0)))),
            (CombinatoricsRule::BinomialFull, Expr::Binomial(bx(n.clone()), bx(n.clone()))),
            (CombinatoricsRule::BinomialOne, Expr::Binomial(bx(n.clone()), bx(num(1)))),
        ] {
            let apps = combinatorics::describe(rule).apply(&e, &RuleContext::default());
            assert_eq!(eval(&apps[0].result, x), eval(&e, x));
        }
        let c = Expr::Binomial(bx(num(9)), bx(k.clone()));
        for rule in [CombinatoricsRule::BinomialSymmetry, CombinatoricsRule::PascalIdentity] {
            let apps = combinatorics::describe(rule).apply(&c, &RuleContext::default());
            assert!(holds(&apps[0].result, x));
        }
    }
    // Pascal's rule at n = 0 asks for C(-1, ·).
    let c0 = Expr::Binomial(bx(num(0)), bx(num(0)));
    let apps = combinatorics::describe(CombinatoricsRule::PascalIdentity).apply(&c0, &RuleContext::default());
    assert!(!holds(&apps[0].result, 0));
}

#[test]
fn constant_rule_meets_only_expressions_that_do_not_change_with_the_variable() {
    let mut symbols = SymbolTable::new();
    let x = symbols.intern("x");
    let y = symbols.intern("y");
    let inner = Expr::Add(bx(Expr::Mul(bx(num(2)), bx(Expr::Var(y)))), bx(num(3)));
    let d = Expr::Derivative { expr: bx(inner.clone()), var: x };
    let rule = mm_rules::calculus::constant_rule();
    assert!(rule.can_apply(&d, &RuleContext::default()));
    let values: Vec<Option<i128>> = (-3..4)
        .map(|t| eval_in(&inner, &|s: Symbol| if s == x { t } else { 5 }))
        .collect();
    assert!(values.iter().all(|v| *v == Some(13)));
    assert_eq!(rule.apply(&d, &RuleContext::default())[0].result, num(0));
}

#[test]
fn fermat_little_theorem_rule_gives_the_value_modulo_a_prime() {
    let rule = number_theory::describe(NumberTheoryRule::FermatLittleTheorem);
    for p in [2i64, 3, 5, 7, 11, 13] {
        for a in 1i64..30 {
            if a % p == 0 {
                continue;
            }
            let e = Expr::Mod(
                bx(Expr::Pow(bx(num(a)), bx(Expr::Sub(bx(num(p)), bx(num(1)))))),
                bx(num(p)),
            );
            assert!(rule.can_apply(&e, &RuleContext::default()));
            let apps = rule.apply(&e, &RuleContext::default());
            assert_eq!(eval(&apps[0].result, 0), eval(&e, 0));
        }
    }
    // Modulo 9, which is not prime, 2^8 is 4, not 1.
    let e = Expr::Mod(bx(Expr::Pow(bx(num(2)), bx(Expr::Sub(bx(num(9)), bx(num(1)))))), bx(num(9)));
    assert_eq!(eval(&e, 0), Some(4));
    assert_eq!(eval(&rule.apply(&e, &RuleContext::default())[0].result, 0), Some(1));
}

#[test]
fn row_sums_of_pascals_triangle() {
    let mut symbols = SymbolTable::new();
    let k = symbols.intern("k");
    let n = Expr::Var(symbols.intern("n"));
    let row = Expr::Summation {
        var: k,
        from: bx(num(0)),
        to: bx(n.clone()),
        body: bx(Expr::Binomial(bx(n.clone()), bx(Expr::Var(k)))),
    };
    let alternating = Expr::Summation {
        var: k,
        from: bx(num(0)),
        to: bx(n.clone()),
        body: bx(Expr::Mul(
            bx(Expr::Pow(bx(Expr::Neg(bx(num(1)))), bx(Expr::Var(k)))),
            bx(Expr::Binomial(bx(n.clone()), bx(Expr::Var(k)))),
        )),
    };
    for x in 1i128..12 {
        let env = |_: Symbol| x;
        for rule in [CombinatoricsRule::BinomialSum, CombinatoricsRule::BinomialSum2n] {
            let apps = combinatorics::describe(rule).apply(&row, &RuleContext::default());
            assert_eq!(eval_in(&apps[0].result, &env), eval_in(&row, &env));
        }
        let apps = combinatorics::describe(CombinatoricsRule::BinomialAlternatingSum)
            .apply(&alternating, &RuleContext::default());
        assert_eq!(eval_in(&apps[0].result, &env), eval_in(&alternating, &env));
    }
    assert_eq!(eval_in(&row, &|_: Symbol| 5), Some(32));
}

#[test]
fn weighted_row_sum_vandermonde_and_squares() {
    let mut symbols = SymbolTable::new();
    let k = symbols.intern("k");
    let n = symbols.intern("n");
    let m = symbols.intern("m");
    let r = symbols.intern("r");
    let var = |s| Expr::Var(s);
    let weighted = Expr::Summation {
        var: k,
        from: bx(num(0)),
        to: bx(var(n)),
        body: bx(Expr::Mul(bx(var(k)), bx(Expr::Binomial(bx(var(n)), bx(var(k)))))),
    };
    let convolution = Expr::Summation {
        var: k,
        from: bx(num(0)),
        to: bx(var(r)),
        body: bx(Expr::Mul(
            bx(Expr::Binomial(bx(var(m)), bx(var(k)))),
            bx(Expr::Binomial(bx(var(n)), bx(Expr::Sub(bx(var(r)), bx(var(k)))))),
        )),
    };
    let squares = Expr::Summation {
        var: k,
        from: bx(num(0)),
        to: bx(var(n)),
        body: bx(Expr::Pow(bx(Expr::Binomial(bx(var(n)), bx(var(k)))), bx(num(2)))),
    };
    for (mv, nv, rv) in [(3i128, 4i128, 2i128), (5, 2, 5), (1, 1, 1), (6, 6, 6)] {
        let env = |s: Symbol| if s == m { mv } else if s == n { nv } else if s == r { rv } else { 0 };
        let w = combinatorics::describe(CombinatoricsRule::BinomialWeightedSum).apply(&weighted, &RuleContext::default());
        assert_eq!(eval_in(&w[0].result, &env), eval_in(&weighted, &env));
        for rule in [CombinatoricsRule::Vandermonde, CombinatoricsRule::VandermondeIdentity] {
            let v = combinatorics::describe(rule).apply(&convolution, &RuleContext::default());
            assert_eq!(eval_in(&v[0].result, &env), eval_in(&convolution, &env));
        }
        let q = combinatorics::describe(CombinatoricsRule::BinomialSquaresSum).apply(&squares, &RuleContext::default());
        assert_eq!(eval_in(&q[0].result, &env), eval_in(&squares, &env));
    }
}

#[test]
fn binomial_expansion_sums_to_the_power() {
    let mut symbols = SymbolTable::new();
    let x = symbols.intern("x");
    let y = symbols.intern("y");
    let n = symbols.intern("n");
    let e = Expr::Pow(bx(Expr::Add(bx(Expr::Var(x)), bx(Expr::Var(y)))), bx(Expr::Var(n)));
    let d = Expr::Pow(bx(Expr::Sub(bx(Expr::Var(x)), bx(Expr::Var(y)))), bx(Expr::Var(n)));
    for (xv, yv, nv) in [(2i128, 3i128, 4i128), (-1, 5, 3), (7, -7, 5), (0, 0, 0), (3, 1, 0), (-2, -3, 6)] {
        let env = |s: Symbol| if s == x { xv } else if s == y { yv } else if s == n { nv } else { 0 };
        let apps = polynomials::describe(PolynomialRule::BinomialFactor).apply(&d, &RuleContext::default());
        match &apps[0].result {
            Expr::Equation { lhs, rhs } => {
                assert_eq!(**lhs, d);
                assert_eq!(eval_in(rhs, &env), Some((xv - yv).pow(nv as u32)));
            }
            _ => panic!("expected an equation"),
        }
    }
    for (xv, yv, nv) in [(2i128, 3i128, 4i128), (-1, 5, 3), (7, -7, 5), (0, 0, 0), (3, 1, 0), (-2, -3, 6)] {
        let env = |s: Symbol| if s == x { xv } else if s == y { yv } else if s == n { nv } else { 0 };
        let from_comb = combinatorics::describe(CombinatoricsRule::BinomialTheorem).apply(&e, &RuleContext::default());
        let from_poly = polynomials::describe(PolynomialRule::BinomialFactor).apply(&e, &RuleContext::default());
        for apps in [from_comb, from_poly] {
            assert_eq!(apps.len(), 1);
            match &apps[0].result {
                Expr::Equation { lhs, rhs } => {
                    assert_eq!(**lhs, e);
                    assert_eq!(eval_in(rhs, &env), Some((xv + yv).pow(nv as u32)));
                }
                _ => panic!("expected an equation"),
            }
        }
    }
}

#[test]
fn hockey_stick_sums_to_the_binomial() {
    let mut symbols = SymbolTable::new();
    let i = symbols.intern("i");
    let k = symbols.intern("k");
    let l = symbols.intern("l");
    let n = symbols.intern("n");
    let sum = Expr::Summation {
        var: i,
        from: bx(Expr::Var(l)),
        to: bx(Expr::Var(n)),
        body: bx(Expr::Binomial(bx(Expr::Var(i)), bx(Expr::Var(k)))),
    };
    for (kv, lv, nv) in [(2i128, 2i128, 6i128), (3, 0, 7), (0, 0, 0), (4, 1, 3), (1, 1, 10)] {
        let env = |s: Symbol| if s == k { kv } else if s == l { lv } else if s == n { nv } else { 0 };
        for rule in [CombinatoricsRule::HockeyStick, CombinatoricsRule::HockeyStickIdentity] {
            let apps = combinatorics::describe(rule).apply(&sum, &RuleContext::default());
            assert_eq!(eval_in(&apps[0].result, &env), eval_in(&sum, &env));
            assert_eq!(eval_in(&apps[0].result, &env), Some(binomial(nv + 1, kv + 1)));
        }
    }
}

#[test]
fn square_root_rules_keep_the_value() {
    let mut symbols = SymbolTable::new();
    let a = Expr::Var(symbols.intern("a"));
    let b = Expr::Var(symbols.intern("b"));
    let sqrt = |e: Expr| Expr::Sqrt(bx(e));
    let sq = |e: Expr| Expr::Pow(bx(e), bx(num(2)));
    let cases = [
        (NumberTheoryRule::SqrtSquare, sqrt(sq(a.clone()))),
        (NumberTheoryRule::SquareSqrt, sq(sqrt(a.clone()))),
        (NumberTheoryRule::SqrtProduct, Expr::Mul(bx(sqrt(a.clone())), bx(sqrt(b.clone())))),
        (NumberTheoryRule::SqrtQuotient, sqrt(Expr::Div(bx(a.clone()), bx(b.clone())))),
    ];
    let pairs = [(-3i128, 1i128), (0, 4), (9, 4), (16, 9), (36, 4), (4, 9), (25, 1)];
    for (k, e) in cases.iter() {
        for (av, bv) in pairs {
            let env = |s: Symbol| if Expr::Var(s) == a { av } else { bv };
            let value = eval_in(e, &env);
            if value.is_none() {
                continue;
            }
            let apps = number_theory::describe(*k).apply(e, &RuleContext::default());
            assert_eq!(eval_in(&apps[0].result, &env), value);
        }
    }
    // √(8/2) = 2, but √8 has no integer value.
    let q = sqrt(Expr::Div(bx(num(8)), bx(num(2))));
    assert_eq!(eval(&q, 0), Some(2));
    let apps = number_theory::describe(NumberTheoryRule::SqrtQuotient).apply(&q, &RuleContext::default());
    assert_eq!(eval(&apps[0].result, 0), None);
    // a^(1/2) has no integer value: its exponent is none.
    let half = Expr::Pow(bx(num(9)), bx(Expr::Div(bx(num(1)), bx(num(2)))));
    assert_eq!(eval(&half, 0), None);
}
