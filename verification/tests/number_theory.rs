use mm_rules::expr::{Expr, Rational};
use mm_rules::number_theory::{
    advanced_number_theory_rules, describe, modular_rules, number_theory_rules, sum_formulas,
    NumberTheoryRule,
};
use mm_rules::symbols::{intern_symbol, SymbolTable};
use mm_rules::{RuleContext, RuleId};

fn num(n: i64) -> Expr {
    Expr::integer(n)
}

fn bx(e: Expr) -> Box<Expr> {
    Box::new(e)
}

fn apply(k: NumberTheoryRule, e: &Expr) -> Vec<mm_rules::RuleApplication> {
    describe(k).apply(e, &RuleContext::default())
}

#[test]
fn number_theory_rules_collects_every_group() {
    let rules = number_theory_rules();
    assert!(!rules.is_empty());
    assert_eq!(rules.len(), 92);
    assert_eq!(rules[0].name, "divides_zero");
    assert_eq!(advanced_number_theory_rules().len(), 45);
}

#[test]
fn modular_rules_contain_mod_self() {
    let rules = modular_rules();
    assert!(rules.iter().any(|r| r.id == RuleId(120)));
}

#[test]
fn sum_formulas_contain_arithmetic_series() {
    let rules = sum_formulas();
    assert!(rules.iter().any(|r| r.id == RuleId(201)));
}

#[test]
fn intern_symbol_gives_the_same_symbol_for_the_same_name() {
    let a = intern_symbol("alpha");
    let b = intern_symbol("alpha");
    assert_eq!(a, b);
    assert_ne!(intern_symbol("n"), intern_symbol("k"));
}

#[test]
fn sum_of_divisors_of_six_is_twelve() {
    let expr = Expr::Const(Rational::from_integer(6));
    let apps = apply(NumberTheoryRule::SumOfDivisors, &expr);
    assert_eq!(apps[0].result, Expr::Const(Rational::from_integer(12)));
    assert_eq!(apps[0].justification, "Sum of divisors: σ(6) = 12 (sum of all divisors)");
}

#[test]
fn number_of_divisors_of_twelve_is_six() {
    let expr = Expr::Const(Rational::from_integer(12));
    let apps = apply(NumberTheoryRule::NumberOfDivisors, &expr);
    assert_eq!(apps[0].result, Expr::Const(Rational::from_integer(6)));
}

#[test]
fn divisor_functions_outside_the_range_leave_the_expression() {
    for e in [num(1000), num(0), num(-6), Expr::Var(intern_symbol("x")), Expr::Const(Rational { num: 1, den: 2 })] {
        for k in [NumberTheoryRule::SumOfDivisors, NumberTheoryRule::NumberOfDivisors] {
            assert!(!describe(k).can_apply(&e, &RuleContext::default()));
            let apps = apply(k, &e);
            assert_eq!(apps.len(), 1);
            assert_eq!(apps[0].result, e);
        }
    }
    assert_eq!(apply(NumberTheoryRule::SumOfDivisors, &num(1000))[0].justification, "Sum of divisors function");
    assert_eq!(apply(NumberTheoryRule::NumberOfDivisors, &num(1000))[0].justification, "Number of divisors function");
}

#[test]
fn modular_inverse_of_three_mod_seven() {
    let expr = Expr::Mod(bx(Expr::Div(bx(num(1)), bx(num(3)))), bx(num(7)));
    assert!(describe(NumberTheoryRule::ModularInverse).can_apply(&expr, &RuleContext::default()));
    let apps = apply(NumberTheoryRule::ModularInverse, &expr);
    assert_eq!(apps.len(), 1);
    assert_eq!(apps[0].result, num(5));
    assert_eq!(apps[0].justification, "Modular inverse: 3⁻¹ ≡ 5 (mod 7)");
}

#[test]
fn modular_inverse_of_a_negative_number() {
    let expr = Expr::Mod(bx(Expr::Div(bx(num(1)), bx(num(-3)))), bx(num(7)));
    let apps = apply(NumberTheoryRule::ModularInverse, &expr);
    assert_eq!(apps[0].result, num(2));
}

#[test]
fn modular_inverse_without_a_common_unit_gives_nothing() {
    let expr = Expr::Mod(bx(Expr::Div(bx(num(1)), bx(num(4)))), bx(num(6)));
    assert!(apply(NumberTheoryRule::ModularInverse, &expr).is_empty());
}

#[test]
fn modular_exponentiation_of_three_to_the_fourth_mod_seven() {
    let expr = Expr::Mod(bx(Expr::Pow(bx(num(3)), bx(num(4)))), bx(num(7)));
    let apps = apply(NumberTheoryRule::ModularExponentiation, &expr);
    assert_eq!(apps[0].result, num(4));
    assert_eq!(apps[0].justification, "Modular exponentiation: 3^4 ≡ 4 (mod 7)");
}

#[test]
fn modular_exponentiation_of_a_negative_base_lies_in_range() {
    let expr = Expr::Mod(bx(Expr::Pow(bx(num(-2)), bx(num(3)))), bx(num(5)));
    let apps = apply(NumberTheoryRule::ModularExponentiation, &expr);
    assert_eq!(apps[0].result, num(2));
    let expr = Expr::Mod(bx(Expr::Pow(bx(num(-2)), bx(num(1)))), bx(num(5)));
    assert_eq!(apply(NumberTheoryRule::ModularExponentiation, &expr)[0].result, num(3));
    let expr = Expr::Mod(bx(Expr::Pow(bx(num(-7)), bx(num(0)))), bx(num(5)));
    assert_eq!(apply(NumberTheoryRule::ModularExponentiation, &expr)[0].result, num(1));
}

#[test]
fn extended_gcd_is_never_negative() {
    let expr = Expr::GCD(bx(num(-6)), bx(num(0)));
    let apps = apply(NumberTheoryRule::ExtendedGcd, &expr);
    assert_eq!(apps[0].result, num(6));
    assert_eq!(apps[0].justification, "Extended GCD: gcd(-6, 0) = 6 = -6·-1 + 0·0");
    let expr = Expr::GCD(bx(num(-4)), bx(num(6)));
    assert_eq!(apply(NumberTheoryRule::ExtendedGcd, &expr)[0].result, num(2));
}

#[test]
fn modular_inverse_of_minus_one() {
    let expr = Expr::Mod(bx(Expr::Div(bx(num(1)), bx(num(-1)))), bx(num(5)));
    let apps = apply(NumberTheoryRule::ModularInverse, &expr);
    assert_eq!(apps.len(), 1);
    assert_eq!(apps[0].result, num(4));
    let expr = Expr::Mod(bx(Expr::Div(bx(num(1)), bx(num(-1)))), bx(num(2)));
    assert_eq!(apply(NumberTheoryRule::ModularInverse, &expr)[0].result, num(1));
}

#[test]
fn zero_over_a_number_and_cancellation_on_either_side() {
    let y = Expr::Var(intern_symbol("y"));
    let x = Expr::Var(intern_symbol("x"));
    let zero_over = Expr::Div(bx(num(0)), bx(y.clone()));
    assert!(describe(NumberTheoryRule::DividesZero).can_apply(&zero_over, &RuleContext::default()));
    assert_eq!(apply(NumberTheoryRule::DividesZero, &zero_over)[0].result, num(0));
    let over_zero = Expr::Div(bx(y.clone()), bx(num(0)));
    assert!(!describe(NumberTheoryRule::DividesZero).can_apply(&over_zero, &RuleContext::default()));
    assert!(apply(NumberTheoryRule::DividesZero, &over_zero).is_empty());
    let xy = Expr::Mul(bx(x.clone()), bx(y.clone()));
    let left = Expr::Div(bx(xy.clone()), bx(x.clone()));
    let right = Expr::Div(bx(xy), bx(y.clone()));
    assert!(describe(NumberTheoryRule::CancelCommonFactor).can_apply(&left, &RuleContext::default()));
    assert_eq!(apply(NumberTheoryRule::CancelCommonFactor, &left)[0].result, y);
    assert!(describe(NumberTheoryRule::CancelCommonFactor).can_apply(&right, &RuleContext::default()));
    assert_eq!(apply(NumberTheoryRule::CancelCommonFactor, &right)[0].result, x);
}

#[test]
fn modular_exponentiation_with_a_large_modulus_is_exact() {
    let expr = Expr::Mod(bx(Expr::Pow(bx(num(2)), bx(num(10)))), bx(num(1000)));
    let apps = apply(NumberTheoryRule::ModularExponentiation, &expr);
    assert_eq!(apps[0].result, num(24));
}

#[test]
fn extended_gcd_of_240_and_46() {
    let expr = Expr::GCD(bx(num(240)), bx(num(46)));
    let apps = apply(NumberTheoryRule::ExtendedGcd, &expr);
    assert_eq!(apps[0].result, num(2));
    assert_eq!(apps[0].justification, "Extended GCD: gcd(240, 46) = 2 = 240·-9 + 46·47");
}

#[test]
fn legendre_symbols_modulo_seven() {
    let two = apply(NumberTheoryRule::LegendreSymbolCompute, &Expr::Mod(bx(num(2)), bx(num(7))));
    assert_eq!(two[0].result, num(1));
    assert_eq!(two[0].justification, "Legendre (2/7) = 1");
    let three = apply(NumberTheoryRule::LegendreSymbolCompute, &Expr::Mod(bx(num(3)), bx(num(7))));
    assert_eq!(three[0].result, Expr::integer(-1));
    let seven = apply(NumberTheoryRule::LegendreSymbolCompute, &Expr::Mod(bx(num(7)), bx(num(7))));
    assert_eq!(seven[0].result, num(0));
}

#[test]
fn smallest_primitive_roots() {
    let seven = apply(NumberTheoryRule::PrimitiveRootFind, &num(7));
    assert_eq!(seven[0].result, num(3));
    assert_eq!(seven[0].justification, "Primitive root: 3 is smallest primitive root mod 7");
    assert_eq!(apply(NumberTheoryRule::PrimitiveRootFind, &num(9))[0].result, num(2));
    let two = apply(NumberTheoryRule::PrimitiveRootFind, &num(2));
    assert_eq!(two[0].result, num(1));
    assert_eq!(two[0].justification, "Primitive root: 1 is smallest primitive root mod 2");
    let eight = apply(NumberTheoryRule::PrimitiveRootFind, &num(8));
    assert_eq!(eight[0].result, Expr::Var(intern_symbol("no primitive root")));
}

#[test]
fn difference_of_squares_factors() {
    let mut symbols = SymbolTable::new();
    let a = Expr::Var(symbols.intern("a"));
    let b = Expr::Var(symbols.intern("b"));
    let expr = Expr::Sub(bx(Expr::Pow(bx(a.clone()), bx(num(2)))), bx(Expr::Pow(bx(b.clone()), bx(num(2)))));
    assert!(describe(NumberTheoryRule::DiffSquaresFactor).can_apply(&expr, &RuleContext::default()));
    let apps = apply(NumberTheoryRule::DiffSquaresFactor, &expr);
    let expected = Expr::Mul(bx(Expr::Add(bx(a.clone()), bx(b.clone()))), bx(Expr::Sub(bx(a), bx(b))));
    assert_eq!(apps[0].result, expected);
}

#[test]
fn gcd_of_a_number_with_itself_is_its_absolute_value() {
    let mut symbols = SymbolTable::new();
    let a = Expr::Var(symbols.intern("a"));
    let apps = apply(NumberTheoryRule::GcdSelf, &Expr::GCD(bx(a.clone()), bx(a.clone())));
    assert_eq!(apps[0].result, Expr::Abs(bx(a)));
}

#[test]
fn factorial_recursion_and_base_cases() {
    let mut symbols = SymbolTable::new();
    let n = Expr::Var(symbols.intern("n"));
    let apps = apply(NumberTheoryRule::FactorialRecurse, &Expr::Factorial(bx(n.clone())));
    let expected = Expr::Mul(bx(n.clone()), bx(Expr::Factorial(bx(Expr::Sub(bx(n), bx(num(1)))))));
    assert_eq!(apps[0].result, expected);
    assert_eq!(apply(NumberTheoryRule::FactorialZero, &Expr::Factorial(bx(num(0))))[0].result, num(1));
}

#[test]
fn powers_of_minus_one() {
    let even = Expr::Pow(bx(Expr::Neg(bx(num(1)))), bx(num(4)));
    assert_eq!(apply(NumberTheoryRule::NegOneEvenPower, &even)[0].result, num(1));
    let odd = Expr::Pow(bx(Expr::Neg(bx(num(1)))), bx(num(5)));
    assert!(!describe(NumberTheoryRule::NegOneEvenPower).can_apply(&odd, &RuleContext::default()));
    assert_eq!(apply(NumberTheoryRule::NegOneOddPower, &odd)[0].result, Expr::Neg(bx(num(1))));
}

#[test]
fn floor_of_an_integer_is_the_integer() {
    let apps = apply(NumberTheoryRule::FloorInteger, &Expr::Floor(bx(num(4))));
    assert_eq!(apps[0].result, num(4));
    let half = Expr::Const(Rational { num: 1, den: 2 });
    assert!(apply(NumberTheoryRule::FloorInteger, &Expr::Floor(bx(half))).is_empty());
}

#[test]
fn totient_counts_the_units() {
    fn gcd(a: i64, b: i64) -> i64 {
        if b == 0 { a } else { gcd(b, a % b) }
    }
    for n in 1i64..300 {
        let units = (1..=n).filter(|k| gcd(*k, n) == 1).count() as i64;
        assert_eq!(mm_rules::arith::euler_phi_exec(n), units);
    }
}
