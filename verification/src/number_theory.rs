//! Number-theory rules: divisibility, modular arithmetic, gcd and lcm,
//! perfect powers, parity, sum formulas, factorials, floors and ceilings,
//! and the theorems of elementary number theory.
use vstd::prelude::*;
use crate::expr::{
    Expr, decimal, lit, cl, negate, root, absolute, fact, plus, minus, times, over, power,
    eqn, is_lit, is_const_zero, is_pow_of, spec_is_pow_of, same,
};
use crate::rule::{
    Rule, RuleKind, RuleCategory, RuleApplication, Outcome, entry, single, outcomes, none, one,
    one_text, two, text, push_text, push_int, extend_rules, note, noted,
};
use crate::symbols::intern_symbol;
use crate::arith::{
    egcd, bezout, egcd_overflows, tmod, mod_pow, legendre, least_primitive_root, sigma, tau, extended_gcd,
    mod_pow_exec, legendre_exec, least_primitive_root_exec, sigma_exec, tau_exec, trem,
    lemma_trunc_div_mod, lemma_egcd_bounds,
};

verus! {

/// The number-theory rules.
#[derive(Clone, Copy, PartialEq, Eq, Structural, Debug)]
pub enum NumberTheoryRule {
    DividesZero,
    DividesSelf,
    EvenSum,
    DivBy2,
    CancelCommonFactor,
    MulByDenom,
    DiffSquaresFactor,
    DiffCubesFactor,
    SumCubesFactor,
    SquareBinomialExpand,
    SquareBinomialSubExpand,
    ModSelf,
    ZeroMod,
    ModOne,
    ModularInverse,
    ModularExponentiation,
    ExtendedGcd,
    LegendreSymbolCompute,
    TonelliShanksCompute,
    PrimitiveRootFind,
    DiscreteLogBsgs,
    HenselLift,
    GcdSelf,
    GcdZero,
    GcdOne,
    LcmSelf,
    LcmOne,
    GcdLcmProduct,
    SqrtSquare,
    SquareSqrt,
    SqrtProduct,
    SqrtQuotient,
    HalfPowerSqrt,
    NegOneEvenPower,
    NegOneOddPower,
    NegSquared,
    SumConstant,
    SumArithmetic,
    SumSquares,
    SumCubes,
    GeometricSum,
    FactorialZero,
    FactorialOne,
    FactorialRecurse,
    FloorInteger,
    CeilingInteger,
    FloorCeilingDiff,
    FermatLittleTheorem,
    FermatLastTheorem,
    EulerTheorem,
    EulerPhiMultiplicative,
    EulerPhiPrimePower,
    ChineseRemainderTheorem,
    QuadraticResidue,
    LegendreSymbolMultiplicative,
    EulerCriterion,
    PrimeCountingApprox,
    BertrandPostulate,
    LinearDiophantine,
    PellEquation,
    SumOfTwoSquares,
    SumOfFourSquares,
    WilsonTheorem,
    HenselLemma,
    OrderDividesPhi,
    PrimitiveRootExistence,
    LegendreFormula,
    LucasTheorem,
    MobiusInversion,
    MobiusMultiplicative,
    ChebyshevPrimeBounds,
    EvenPerfectNumber,
    MersennePrimeCondition,
    SumOfDivisors,
    NumberOfDivisors,
    TotientSum,
    PrimitiveRootCount,
    CarmichaelFunction,
    SquareFreeDensity,
    PrimeGapBound,
    SophieGermainPrime,
    QuadraticReciprocity,
    JacobiSymbol,
    KroneckerSymbol,
    TonelliShanks,
    DiscreteLogOrder,
    ContinuedFractionGcd,
    FareyNeighbors,
    SternBrocot,
    EgyptianFraction,
    GaussianNorm,
    GaussianPrime,
}

/// The catalogue entry of each number-theory rule.
pub open spec fn catalog(k: NumberTheoryRule) -> Rule {
    let kind = RuleKind::NumberTheory(k);
    match k {
        NumberTheoryRule::DividesZero => entry(100, "divides_zero", RuleCategory::AlgebraicSolving, "n divides 0 for any n", false, 1, kind),
        NumberTheoryRule::DividesSelf => entry(101, "divides_self", RuleCategory::Simplification, "n/n = 1 for any n ≠ 0", false, 1, kind),
        NumberTheoryRule::EvenSum => entry(102, "even_sum", RuleCategory::Simplification, "a + a = 2a (even)", true, 1, kind),
        NumberTheoryRule::DivBy2 => entry(103, "div_by_2", RuleCategory::Simplification, "2n is divisible by 2", false, 1, kind),
        NumberTheoryRule::CancelCommonFactor => entry(104, "cancel_common_factor", RuleCategory::Simplification, "(a*b)/a = b", false, 2, kind),
        NumberTheoryRule::MulByDenom => entry(105, "mul_by_denom", RuleCategory::Simplification, "(a/b) * b = a", false, 2, kind),
        NumberTheoryRule::DiffSquaresFactor => entry(106, "diff_squares_factor", RuleCategory::Factoring, "a² - b² = (a+b)(a-b)", true, 2, kind),
        NumberTheoryRule::DiffCubesFactor => entry(107, "diff_cubes_factor", RuleCategory::Factoring, "a³ - b³ = (a-b)(a² + ab + b²)", true, 3, kind),
        NumberTheoryRule::SumCubesFactor => entry(108, "sum_cubes_factor", RuleCategory::Factoring, "a³ + b³ = (a+b)(a² - ab + b²)", true, 3, kind),
        NumberTheoryRule::SquareBinomialExpand => entry(109, "square_binomial_expand", RuleCategory::Expansion, "(a+b)² = a² + 2ab + b²", true, 2, kind),
        NumberTheoryRule::SquareBinomialSubExpand => entry(110, "square_binomial_sub_expand", RuleCategory::Expansion, "(a-b)² = a² - 2ab + b²", true, 2, kind),
        NumberTheoryRule::ModSelf => entry(120, "mod_self", RuleCategory::Simplification, "a mod a = 0", false, 1, kind),
        NumberTheoryRule::ZeroMod => entry(121, "zero_mod", RuleCategory::Simplification, "0 mod n = 0", false, 1, kind),
        NumberTheoryRule::ModOne => entry(122, "mod_one", RuleCategory::Simplification, "a mod 1 = 0", false, 1, kind),
        NumberTheoryRule::ModularInverse => entry(123, "modular_inverse", RuleCategory::EquationSolving, "a⁻¹ mod m via extended Euclidean", false, 3, kind),
        NumberTheoryRule::ModularExponentiation => entry(124, "modular_exponentiation", RuleCategory::Simplification, "a^n mod m via repeated squaring", false, 3, kind),
        NumberTheoryRule::ExtendedGcd => entry(125, "extended_gcd", RuleCategory::EquationSolving, "Extended GCD: gcd(a,b) = ax + by", false, 2, kind),
        NumberTheoryRule::LegendreSymbolCompute => entry(126, "legendre_symbol_compute", RuleCategory::Simplification, "Legendre symbol (a/p) computation", false, 3, kind),
        NumberTheoryRule::TonelliShanksCompute => entry(127, "tonelli_shanks_compute", RuleCategory::EquationSolving, "Tonelli-Shanks modular square root", false, 4, kind),
        NumberTheoryRule::PrimitiveRootFind => entry(128, "primitive_root_find", RuleCategory::AlgebraicSolving, "Find smallest primitive root mod n", false, 4, kind),
        NumberTheoryRule::DiscreteLogBsgs => entry(129, "discrete_log_bsgs", RuleCategory::EquationSolving, "Discrete log via baby-step giant-step", false, 5, kind),
        NumberTheoryRule::HenselLift => entry(130, "hensel_lift", RuleCategory::EquationSolving, "Hensel's lemma: lift solution mod p to mod p^k", false, 4, kind),
        NumberTheoryRule::GcdSelf => entry(140, "gcd_self", RuleCategory::Simplification, "gcd(a, a) = a", false, 1, kind),
        NumberTheoryRule::GcdZero => entry(141, "gcd_zero", RuleCategory::Simplification, "gcd(a, 0) = |a|", false, 1, kind),
        NumberTheoryRule::GcdOne => entry(142, "gcd_one", RuleCategory::Simplification, "gcd(a, 1) = 1", false, 1, kind),
        NumberTheoryRule::LcmSelf => entry(143, "lcm_self", RuleCategory::Simplification, "lcm(a, a) = |a|", false, 1, kind),
        NumberTheoryRule::LcmOne => entry(144, "lcm_one", RuleCategory::Simplification, "lcm(a, 1) = |a|", false, 1, kind),
        NumberTheoryRule::GcdLcmProduct => entry(145, "gcd_lcm_product", RuleCategory::AlgebraicSolving, "gcd(a,b) * lcm(a,b) = |a*b|", true, 2, kind),
        NumberTheoryRule::SqrtSquare => entry(160, "sqrt_square", RuleCategory::Simplification, "√(a²) = |a|", false, 1, kind),
        NumberTheoryRule::SquareSqrt => entry(161, "square_sqrt", RuleCategory::Simplification, "(√a)² = a", false, 1, kind),
        NumberTheoryRule::SqrtProduct => entry(162, "sqrt_product", RuleCategory::Simplification, "√a · √b = √(ab)", true, 2, kind),
        NumberTheoryRule::SqrtQuotient => entry(163, "sqrt_quotient", RuleCategory::Simplification, "√(a/b) = √a/√b", true, 2, kind),
        NumberTheoryRule::HalfPowerSqrt => entry(164, "half_power_sqrt", RuleCategory::Simplification, "a^(1/2) = √a", true, 1, kind),
        NumberTheoryRule::NegOneEvenPower => entry(180, "neg_one_even_power", RuleCategory::Simplification, "(-1)^(2n) = 1", false, 1, kind),
        NumberTheoryRule::NegOneOddPower => entry(181, "neg_one_odd_power", RuleCategory::Simplification, "(-1)^(2n+1) = -1", false, 1, kind),
        NumberTheoryRule::NegSquared => entry(182, "neg_squared", RuleCategory::Simplification, "(-a)² = a²", false, 1, kind),
        NumberTheoryRule::SumConstant => entry(200, "sum_constant", RuleCategory::Simplification, "Σc (n times) = cn", true, 2, kind),
        NumberTheoryRule::SumArithmetic => entry(201, "sum_arithmetic", RuleCategory::Simplification, "1+2+...+n = n(n+1)/2", true, 2, kind),
        NumberTheoryRule::SumSquares => entry(202, "sum_squares", RuleCategory::Simplification, "1²+2²+...+n² = n(n+1)(2n+1)/6", true, 2, kind),
        NumberTheoryRule::SumCubes => entry(203, "sum_cubes", RuleCategory::Simplification, "1³+2³+...+n³ = [n(n+1)/2]²", true, 2, kind),
        NumberTheoryRule::GeometricSum => entry(204, "geometric_sum", RuleCategory::Simplification, "1+r+r²+...+r^n = (r^(n+1)-1)/(r-1)", true, 3, kind),
        NumberTheoryRule::FactorialZero => entry(220, "factorial_zero", RuleCategory::Simplification, "0! = 1", false, 1, kind),
        NumberTheoryRule::FactorialOne => entry(221, "factorial_one", RuleCategory::Simplification, "1! = 1", false, 1, kind),
        NumberTheoryRule::FactorialRecurse => entry(222, "factorial_recurse", RuleCategory::Expansion, "n! = n · (n-1)!", true, 2, kind),
        NumberTheoryRule::FloorInteger => entry(240, "floor_integer", RuleCategory::Simplification, "⌊n⌋ = n for integer n", false, 1, kind),
        NumberTheoryRule::CeilingInteger => entry(241, "ceiling_integer", RuleCategory::Simplification, "⌈n⌉ = n for integer n", false, 1, kind),
        NumberTheoryRule::FloorCeilingDiff => entry(242, "floor_ceiling_diff", RuleCategory::AlgebraicSolving, "⌈x⌉ - ⌊x⌋ = 0 or 1", false, 2, kind),
        NumberTheoryRule::FermatLittleTheorem => entry(700, "fermat_little_theorem", RuleCategory::Simplification, "a^(p-1) ≡ 1 (mod p)", false, 2, kind),
        NumberTheoryRule::FermatLastTheorem => entry(701, "fermat_last_theorem", RuleCategory::AlgebraicSolving, "No integer solutions to x^n + y^n = z^n for n > 2", false, 1, kind),
        NumberTheoryRule::EulerTheorem => entry(702, "euler_theorem", RuleCategory::Simplification, "a^φ(n) ≡ 1 (mod n)", false, 2, kind),
        NumberTheoryRule::EulerPhiMultiplicative => entry(703, "euler_phi_multiplicative", RuleCategory::Simplification, "φ(mn) = φ(m)φ(n) for gcd(m,n)=1", false, 2, kind),
        NumberTheoryRule::EulerPhiPrimePower => entry(704, "euler_phi_prime_power", RuleCategory::Simplification, "φ(p^k) = p^k - p^(k-1)", false, 2, kind),
        NumberTheoryRule::ChineseRemainderTheorem => entry(705, "chinese_remainder_theorem", RuleCategory::EquationSolving, "CRT: x ≡ a_i (mod m_i) has unique solution mod Π m_i", false, 3, kind),
        NumberTheoryRule::QuadraticResidue => entry(706, "quadratic_residue", RuleCategory::AlgebraicSolving, "Quadratic residue test", false, 2, kind),
        NumberTheoryRule::LegendreSymbolMultiplicative => entry(707, "legendre_symbol_multiplicative", RuleCategory::Simplification, "(ab/p) = (a/p)(b/p)", false, 1, kind),
        NumberTheoryRule::EulerCriterion => entry(708, "euler_criterion", RuleCategory::Simplification, "(a/p) = a^((p-1)/2) mod p", false, 2, kind),
        NumberTheoryRule::PrimeCountingApprox => entry(709, "prime_counting_approx", RuleCategory::Simplification, "π(x) ~ x/ln(x)", false, 2, kind),
        NumberTheoryRule::BertrandPostulate => entry(710, "bertrand_postulate", RuleCategory::AlgebraicSolving, "Prime exists between n and 2n", false, 1, kind),
        NumberTheoryRule::LinearDiophantine => entry(711, "linear_diophantine", RuleCategory::EquationSolving, "ax + by = c solvable iff gcd(a,b) | c", false, 2, kind),
        NumberTheoryRule::PellEquation => entry(712, "pell_equation", RuleCategory::EquationSolving, "Pell equation x² - Dy² = 1", false, 3, kind),
        NumberTheoryRule::SumOfTwoSquares => entry(713, "sum_of_two_squares", RuleCategory::AlgebraicSolving, "Sum of two squares condition", false, 3, kind),
        NumberTheoryRule::SumOfFourSquares => entry(714, "sum_of_four_squares", RuleCategory::AlgebraicSolving, "Every n = a² + b² + c² + d²", false, 2, kind),
        NumberTheoryRule::WilsonTheorem => entry(715, "wilson_theorem", RuleCategory::Simplification, "(p-1)! ≡ -1 (mod p)", false, 2, kind),
        NumberTheoryRule::HenselLemma => entry(716, "hensel_lemma", RuleCategory::EquationSolving, "Hensel's lemma for lifting solutions", false, 4, kind),
        NumberTheoryRule::OrderDividesPhi => entry(717, "order_divides_phi", RuleCategory::Simplification, "ord_n(a) | φ(n)", false, 2, kind),
        NumberTheoryRule::PrimitiveRootExistence => entry(718, "primitive_root_existence", RuleCategory::AlgebraicSolving, "Primitive roots exist for n = 1,2,4,p^k,2p^k", false, 2, kind),
        NumberTheoryRule::LegendreFormula => entry(719, "legendre_formula", RuleCategory::Simplification, "ν_p(n!) = Σ⌊n/p^k⌋", false, 2, kind),
        NumberTheoryRule::LucasTheorem => entry(720, "lucas_theorem", RuleCategory::Simplification, "Lucas' theorem for binomials mod p", false, 3, kind),
        NumberTheoryRule::MobiusInversion => entry(721, "mobius_inversion", RuleCategory::Simplification, "Möbius inversion formula", false, 3, kind),
        NumberTheoryRule::MobiusMultiplicative => entry(722, "mobius_multiplicative", RuleCategory::Simplification, "μ(mn) = μ(m)μ(n) for gcd(m,n)=1", false, 1, kind),
        NumberTheoryRule::ChebyshevPrimeBounds => entry(723, "chebyshev_prime_bounds", RuleCategory::AlgebraicSolving, "Chebyshev bounds on π(x)", false, 2, kind),
        NumberTheoryRule::EvenPerfectNumber => entry(724, "even_perfect_number", RuleCategory::AlgebraicSolving, "Even perfect = 2^(p-1)(2^p - 1)", false, 2, kind),
        NumberTheoryRule::MersennePrimeCondition => entry(725, "mersenne_prime_condition", RuleCategory::AlgebraicSolving, "2^p - 1 prime => p prime", false, 1, kind),
        NumberTheoryRule::SumOfDivisors => entry(726, "sum_of_divisors", RuleCategory::Simplification, "σ(n) = Σ d for d|n", false, 2, kind),
        NumberTheoryRule::NumberOfDivisors => entry(727, "number_of_divisors", RuleCategory::Simplification, "τ(n) is number of divisors", false, 1, kind),
        NumberTheoryRule::TotientSum => entry(728, "totient_sum", RuleCategory::Simplification, "Σ φ(d) = n for d|n", false, 2, kind),
        NumberTheoryRule::PrimitiveRootCount => entry(729, "primitive_root_count", RuleCategory::Simplification, "φ(φ(n)) primitive roots mod n", false, 2, kind),
        NumberTheoryRule::CarmichaelFunction => entry(730, "carmichael_function", RuleCategory::Simplification, "Carmichael function λ(n)", false, 2, kind),
        NumberTheoryRule::SquareFreeDensity => entry(731, "square_free_density", RuleCategory::Simplification, "Square-free density = 6/π²", false, 2, kind),
        NumberTheoryRule::PrimeGapBound => entry(732, "prime_gap_bound", RuleCategory::AlgebraicSolving, "Prime gap upper bounds", false, 3, kind),
        NumberTheoryRule::SophieGermainPrime => entry(733, "sophie_germain_prime", RuleCategory::AlgebraicSolving, "Sophie Germain: p and 2p+1 both prime", false, 2, kind),
        NumberTheoryRule::QuadraticReciprocity => entry(734, "quadratic_reciprocity", RuleCategory::Simplification, "Quadratic reciprocity law", false, 2, kind),
        NumberTheoryRule::JacobiSymbol => entry(735, "jacobi_symbol", RuleCategory::Simplification, "Jacobi symbol (a/n)", false, 2, kind),
        NumberTheoryRule::KroneckerSymbol => entry(736, "kronecker_symbol", RuleCategory::Simplification, "Kronecker symbol extension", false, 2, kind),
        NumberTheoryRule::TonelliShanks => entry(737, "tonelli_shanks", RuleCategory::EquationSolving, "Tonelli-Shanks modular square root", false, 4, kind),
        NumberTheoryRule::DiscreteLogOrder => entry(738, "discrete_log_order", RuleCategory::EquationSolving, "Discrete logarithm order", false, 3, kind),
        NumberTheoryRule::ContinuedFractionGcd => entry(739, "continued_fraction_gcd", RuleCategory::Simplification, "GCD via continued fractions", false, 3, kind),
        NumberTheoryRule::FareyNeighbors => entry(740, "farey_neighbors", RuleCategory::AlgebraicSolving, "Farey neighbors: |ad - bc| = 1", false, 2, kind),
        NumberTheoryRule::SternBrocot => entry(741, "stern_brocot", RuleCategory::Simplification, "Stern-Brocot tree mediant", false, 2, kind),
        NumberTheoryRule::EgyptianFraction => entry(742, "egyptian_fraction", RuleCategory::Expansion, "Egyptian fraction decomposition", false, 3, kind),
        NumberTheoryRule::GaussianNorm => entry(743, "gaussian_norm", RuleCategory::Simplification, "Gaussian integer norm N(a+bi) = a² + b²", false, 1, kind),
        NumberTheoryRule::GaussianPrime => entry(744, "gaussian_prime", RuleCategory::AlgebraicSolving, "Gaussian prime conditions", false, 2, kind),
    }
}

/// On which page of the catalogue kind `k` is written out: the catalogue
/// is long, and each page is checked on its own.
pub open spec fn catalog_page(k: NumberTheoryRule) -> int {
    match k {
        NumberTheoryRule::DividesZero
        | NumberTheoryRule::DividesSelf
        | NumberTheoryRule::EvenSum
        | NumberTheoryRule::DivBy2
        | NumberTheoryRule::CancelCommonFactor
        | NumberTheoryRule::MulByDenom
        | NumberTheoryRule::DiffSquaresFactor
        | NumberTheoryRule::DiffCubesFactor
        | NumberTheoryRule::SumCubesFactor
        | NumberTheoryRule::SquareBinomialExpand
        | NumberTheoryRule::SquareBinomialSubExpand
        | NumberTheoryRule::ModSelf
        | NumberTheoryRule::ZeroMod
        | NumberTheoryRule::ModOne
        | NumberTheoryRule::ModularInverse
        | NumberTheoryRule::ModularExponentiation
        | NumberTheoryRule::ExtendedGcd
        | NumberTheoryRule::LegendreSymbolCompute
        | NumberTheoryRule::TonelliShanksCompute
        | NumberTheoryRule::PrimitiveRootFind
        | NumberTheoryRule::DiscreteLogBsgs
        | NumberTheoryRule::HenselLift
        | NumberTheoryRule::GcdSelf => 1,
        NumberTheoryRule::GcdZero
        | NumberTheoryRule::GcdOne
        | NumberTheoryRule::LcmSelf
        | NumberTheoryRule::LcmOne
        | NumberTheoryRule::GcdLcmProduct
        | NumberTheoryRule::SqrtSquare
        | NumberTheoryRule::SquareSqrt
        | NumberTheoryRule::SqrtProduct
        | NumberTheoryRule::SqrtQuotient
        | NumberTheoryRule::HalfPowerSqrt
        | NumberTheoryRule::NegOneEvenPower
        | NumberTheoryRule::NegOneOddPower
        | NumberTheoryRule::NegSquared
        | NumberTheoryRule::SumConstant
        | NumberTheoryRule::SumArithmetic
        | NumberTheoryRule::SumSquares
        | NumberTheoryRule::SumCubes
        | NumberTheoryRule::GeometricSum
        | NumberTheoryRule::FactorialZero
        | NumberTheoryRule::FactorialOne
        | NumberTheoryRule::FactorialRecurse
        | NumberTheoryRule::FloorInteger
        | NumberTheoryRule::CeilingInteger => 2,
        NumberTheoryRule::FloorCeilingDiff
        | NumberTheoryRule::FermatLittleTheorem
        | NumberTheoryRule::FermatLastTheorem
        | NumberTheoryRule::EulerTheorem
        | NumberTheoryRule::EulerPhiMultiplicative
        | NumberTheoryRule::EulerPhiPrimePower
        | NumberTheoryRule::ChineseRemainderTheorem
        | NumberTheoryRule::QuadraticResidue
        | NumberTheoryRule::LegendreSymbolMultiplicative
        | NumberTheoryRule::EulerCriterion
        | NumberTheoryRule::PrimeCountingApprox
        | NumberTheoryRule::BertrandPostulate
        | NumberTheoryRule::LinearDiophantine
        | NumberTheoryRule::PellEquation
        | NumberTheoryRule::SumOfTwoSquares
        | NumberTheoryRule::SumOfFourSquares
        | NumberTheoryRule::WilsonTheorem
        | NumberTheoryRule::HenselLemma
        | NumberTheoryRule::OrderDividesPhi
        | NumberTheoryRule::PrimitiveRootExistence
        | NumberTheoryRule::LegendreFormula
        | NumberTheoryRule::LucasTheorem
        | NumberTheoryRule::MobiusInversion => 3,
        NumberTheoryRule::MobiusMultiplicative
        | NumberTheoryRule::ChebyshevPrimeBounds
        | NumberTheoryRule::EvenPerfectNumber
        | NumberTheoryRule::MersennePrimeCondition
        | NumberTheoryRule::SumOfDivisors
        | NumberTheoryRule::NumberOfDivisors
        | NumberTheoryRule::TotientSum
        | NumberTheoryRule::PrimitiveRootCount
        | NumberTheoryRule::CarmichaelFunction
        | NumberTheoryRule::SquareFreeDensity
        | NumberTheoryRule::PrimeGapBound
        | NumberTheoryRule::SophieGermainPrime
        | NumberTheoryRule::QuadraticReciprocity
        | NumberTheoryRule::JacobiSymbol
        | NumberTheoryRule::KroneckerSymbol
        | NumberTheoryRule::TonelliShanks
        | NumberTheoryRule::DiscreteLogOrder
        | NumberTheoryRule::ContinuedFractionGcd
        | NumberTheoryRule::FareyNeighbors
        | NumberTheoryRule::SternBrocot
        | NumberTheoryRule::EgyptianFraction
        | NumberTheoryRule::GaussianNorm
        | NumberTheoryRule::GaussianPrime => 4,
    }
}


/// The rule of kind `k`.
pub fn describe(k: NumberTheoryRule) -> (r: Rule)
    ensures
        r == catalog(k),
{
    let kind = RuleKind::NumberTheory(k);
    match k {
        NumberTheoryRule::DividesZero => entry(100, "divides_zero", RuleCategory::AlgebraicSolving, "n divides 0 for any n", false, 1, kind),
        NumberTheoryRule::DividesSelf => entry(101, "divides_self", RuleCategory::Simplification, "n/n = 1 for any n ≠ 0", false, 1, kind),
        NumberTheoryRule::EvenSum => entry(102, "even_sum", RuleCategory::Simplification, "a + a = 2a (even)", true, 1, kind),
        NumberTheoryRule::DivBy2 => entry(103, "div_by_2", RuleCategory::Simplification, "2n is divisible by 2", false, 1, kind),
        NumberTheoryRule::CancelCommonFactor => entry(104, "cancel_common_factor", RuleCategory::Simplification, "(a*b)/a = b", false, 2, kind),
        NumberTheoryRule::MulByDenom => entry(105, "mul_by_denom", RuleCategory::Simplification, "(a/b) * b = a", false, 2, kind),
        NumberTheoryRule::DiffSquaresFactor => entry(106, "diff_squares_factor", RuleCategory::Factoring, "a² - b² = (a+b)(a-b)", true, 2, kind),
        NumberTheoryRule::DiffCubesFactor => entry(107, "diff_cubes_factor", RuleCategory::Factoring, "a³ - b³ = (a-b)(a² + ab + b²)", true, 3, kind),
        NumberTheoryRule::SumCubesFactor => entry(108, "sum_cubes_factor", RuleCategory::Factoring, "a³ + b³ = (a+b)(a² - ab + b²)", true, 3, kind),
        NumberTheoryRule::SquareBinomialExpand => entry(109, "square_binomial_expand", RuleCategory::Expansion, "(a+b)² = a² + 2ab + b²", true, 2, kind),
        NumberTheoryRule::SquareBinomialSubExpand => entry(110, "square_binomial_sub_expand", RuleCategory::Expansion, "(a-b)² = a² - 2ab + b²", true, 2, kind),
        NumberTheoryRule::ModSelf => entry(120, "mod_self", RuleCategory::Simplification, "a mod a = 0", false, 1, kind),
        NumberTheoryRule::ZeroMod => entry(121, "zero_mod", RuleCategory::Simplification, "0 mod n = 0", false, 1, kind),
        NumberTheoryRule::ModOne => entry(122, "mod_one", RuleCategory::Simplification, "a mod 1 = 0", false, 1, kind),
        NumberTheoryRule::ModularInverse => entry(123, "modular_inverse", RuleCategory::EquationSolving, "a⁻¹ mod m via extended Euclidean", false, 3, kind),
        NumberTheoryRule::ModularExponentiation => entry(124, "modular_exponentiation", RuleCategory::Simplification, "a^n mod m via repeated squaring", false, 3, kind),
        NumberTheoryRule::ExtendedGcd => entry(125, "extended_gcd", RuleCategory::EquationSolving, "Extended GCD: gcd(a,b) = ax + by", false, 2, kind),
        NumberTheoryRule::LegendreSymbolCompute => entry(126, "legendre_symbol_compute", RuleCategory::Simplification, "Legendre symbol (a/p) computation", false, 3, kind),
        NumberTheoryRule::TonelliShanksCompute => entry(127, "tonelli_shanks_compute", RuleCategory::EquationSolving, "Tonelli-Shanks modular square root", false, 4, kind),
        NumberTheoryRule::PrimitiveRootFind => entry(128, "primitive_root_find", RuleCategory::AlgebraicSolving, "Find smallest primitive root mod n", false, 4, kind),
        NumberTheoryRule::DiscreteLogBsgs => entry(129, "discrete_log_bsgs", RuleCategory::EquationSolving, "Discrete log via baby-step giant-step", false, 5, kind),
        NumberTheoryRule::HenselLift => entry(130, "hensel_lift", RuleCategory::EquationSolving, "Hensel's lemma: lift solution mod p to mod p^k", false, 4, kind),
        NumberTheoryRule::GcdSelf => entry(140, "gcd_self", RuleCategory::Simplification, "gcd(a, a) = a", false, 1, kind),
        _ => describe_page2(k),
    }
}

/// The rule of kind `k`, written out on page 2 of the catalogue or a later one.
fn describe_page2(k: NumberTheoryRule) -> (r: Rule)
    requires
        catalog_page(k) >= 2,
    ensures
        r == catalog(k),
{
    let kind = RuleKind::NumberTheory(k);
    match k {
        NumberTheoryRule::GcdZero => entry(141, "gcd_zero", RuleCategory::Simplification, "gcd(a, 0) = |a|", false, 1, kind),
        NumberTheoryRule::GcdOne => entry(142, "gcd_one", RuleCategory::Simplification, "gcd(a, 1) = 1", false, 1, kind),
        NumberTheoryRule::LcmSelf => entry(143, "lcm_self", RuleCategory::Simplification, "lcm(a, a) = |a|", false, 1, kind),
        NumberTheoryRule::LcmOne => entry(144, "lcm_one", RuleCategory::Simplification, "lcm(a, 1) = |a|", false, 1, kind),
        NumberTheoryRule::GcdLcmProduct => entry(145, "gcd_lcm_product", RuleCategory::AlgebraicSolving, "gcd(a,b) * lcm(a,b) = |a*b|", true, 2, kind),
        NumberTheoryRule::SqrtSquare => entry(160, "sqrt_square", RuleCategory::Simplification, "√(a²) = |a|", false, 1, kind),
        NumberTheoryRule::SquareSqrt => entry(161, "square_sqrt", RuleCategory::Simplification, "(√a)² = a", false, 1, kind),
        NumberTheoryRule::SqrtProduct => entry(162, "sqrt_product", RuleCategory::Simplification, "√a · √b = √(ab)", true, 2, kind),
        NumberTheoryRule::SqrtQuotient => entry(163, "sqrt_quotient", RuleCategory::Simplification, "√(a/b) = √a/√b", true, 2, kind),
        NumberTheoryRule::HalfPowerSqrt => entry(164, "half_power_sqrt", RuleCategory::Simplification, "a^(1/2) = √a", true, 1, kind),
        NumberTheoryRule::NegOneEvenPower => entry(180, "neg_one_even_power", RuleCategory::Simplification, "(-1)^(2n) = 1", false, 1, kind),
        NumberTheoryRule::NegOneOddPower => entry(181, "neg_one_odd_power", RuleCategory::Simplification, "(-1)^(2n+1) = -1", false, 1, kind),
        NumberTheoryRule::NegSquared => entry(182, "neg_squared", RuleCategory::Simplification, "(-a)² = a²", false, 1, kind),
        NumberTheoryRule::SumConstant => entry(200, "sum_constant", RuleCategory::Simplification, "Σc (n times) = cn", true, 2, kind),
        NumberTheoryRule::SumArithmetic => entry(201, "sum_arithmetic", RuleCategory::Simplification, "1+2+...+n = n(n+1)/2", true, 2, kind),
        NumberTheoryRule::SumSquares => entry(202, "sum_squares", RuleCategory::Simplification, "1²+2²+...+n² = n(n+1)(2n+1)/6", true, 2, kind),
        NumberTheoryRule::SumCubes => entry(203, "sum_cubes", RuleCategory::Simplification, "1³+2³+...+n³ = [n(n+1)/2]²", true, 2, kind),
        NumberTheoryRule::GeometricSum => entry(204, "geometric_sum", RuleCategory::Simplification, "1+r+r²+...+r^n = (r^(n+1)-1)/(r-1)", true, 3, kind),
        NumberTheoryRule::FactorialZero => entry(220, "factorial_zero", RuleCategory::Simplification, "0! = 1", false, 1, kind),
        NumberTheoryRule::FactorialOne => entry(221, "factorial_one", RuleCategory::Simplification, "1! = 1", false, 1, kind),
        NumberTheoryRule::FactorialRecurse => entry(222, "factorial_recurse", RuleCategory::Expansion, "n! = n · (n-1)!", true, 2, kind),
        NumberTheoryRule::FloorInteger => entry(240, "floor_integer", RuleCategory::Simplification, "⌊n⌋ = n for integer n", false, 1, kind),
        NumberTheoryRule::CeilingInteger => entry(241, "ceiling_integer", RuleCategory::Simplification, "⌈n⌉ = n for integer n", false, 1, kind),
        _ => describe_page3(k),
    }
}

/// The rule of kind `k`, written out on page 3 of the catalogue or a later one.
fn describe_page3(k: NumberTheoryRule) -> (r: Rule)
    requires
        catalog_page(k) >= 3,
    ensures
        r == catalog(k),
{
    let kind = RuleKind::NumberTheory(k);
    match k {
        NumberTheoryRule::FloorCeilingDiff => entry(242, "floor_ceiling_diff", RuleCategory::AlgebraicSolving, "⌈x⌉ - ⌊x⌋ = 0 or 1", false, 2, kind),
        NumberTheoryRule::FermatLittleTheorem => entry(700, "fermat_little_theorem", RuleCategory::Simplification, "a^(p-1) ≡ 1 (mod p)", false, 2, kind),
        NumberTheoryRule::FermatLastTheorem => entry(701, "fermat_last_theorem", RuleCategory::AlgebraicSolving, "No integer solutions to x^n + y^n = z^n for n > 2", false, 1, kind),
        NumberTheoryRule::EulerTheorem => entry(702, "euler_theorem", RuleCategory::Simplification, "a^φ(n) ≡ 1 (mod n)", false, 2, kind),
        NumberTheoryRule::EulerPhiMultiplicative => entry(703, "euler_phi_multiplicative", RuleCategory::Simplification, "φ(mn) = φ(m)φ(n) for gcd(m,n)=1", false, 2, kind),
        NumberTheoryRule::EulerPhiPrimePower => entry(704, "euler_phi_prime_power", RuleCategory::Simplification, "φ(p^k) = p^k - p^(k-1)", false, 2, kind),
        NumberTheoryRule::ChineseRemainderTheorem => entry(705, "chinese_remainder_theorem", RuleCategory::EquationSolving, "CRT: x ≡ a_i (mod m_i) has unique solution mod Π m_i", false, 3, kind),
        NumberTheoryRule::QuadraticResidue => entry(706, "quadratic_residue", RuleCategory::AlgebraicSolving, "Quadratic residue test", false, 2, kind),
        NumberTheoryRule::LegendreSymbolMultiplicative => entry(707, "legendre_symbol_multiplicative", RuleCategory::Simplification, "(ab/p) = (a/p)(b/p)", false, 1, kind),
        NumberTheoryRule::EulerCriterion => entry(708, "euler_criterion", RuleCategory::Simplification, "(a/p) = a^((p-1)/2) mod p", false, 2, kind),
        NumberTheoryRule::PrimeCountingApprox => entry(709, "prime_counting_approx", RuleCategory::Simplification, "π(x) ~ x/ln(x)", false, 2, kind),
        NumberTheoryRule::BertrandPostulate => entry(710, "bertrand_postulate", RuleCategory::AlgebraicSolving, "Prime exists between n and 2n", false, 1, kind),
        NumberTheoryRule::LinearDiophantine => entry(711, "linear_diophantine", RuleCategory::EquationSolving, "ax + by = c solvable iff gcd(a,b) | c", false, 2, kind),
        NumberTheoryRule::PellEquation => entry(712, "pell_equation", RuleCategory::EquationSolving, "Pell equation x² - Dy² = 1", false, 3, kind),
        NumberTheoryRule::SumOfTwoSquares => entry(713, "sum_of_two_squares", RuleCategory::AlgebraicSolving, "Sum of two squares condition", false, 3, kind),
        NumberTheoryRule::SumOfFourSquares => entry(714, "sum_of_four_squares", RuleCategory::AlgebraicSolving, "Every n = a² + b² + c² + d²", false, 2, kind),
        NumberTheoryRule::WilsonTheorem => entry(715, "wilson_theorem", RuleCategory::Simplification, "(p-1)! ≡ -1 (mod p)", false, 2, kind),
        NumberTheoryRule::HenselLemma => entry(716, "hensel_lemma", RuleCategory::EquationSolving, "Hensel's lemma for lifting solutions", false, 4, kind),
        NumberTheoryRule::OrderDividesPhi => entry(717, "order_divides_phi", RuleCategory::Simplification, "ord_n(a) | φ(n)", false, 2, kind),
        NumberTheoryRule::PrimitiveRootExistence => entry(718, "primitive_root_existence", RuleCategory::AlgebraicSolving, "Primitive roots exist for n = 1,2,4,p^k,2p^k", false, 2, kind),
        NumberTheoryRule::LegendreFormula => entry(719, "legendre_formula", RuleCategory::Simplification, "ν_p(n!) = Σ⌊n/p^k⌋", false, 2, kind),
        NumberTheoryRule::LucasTheorem => entry(720, "lucas_theorem", RuleCategory::Simplification, "Lucas' theorem for binomials mod p", false, 3, kind),
        NumberTheoryRule::MobiusInversion => entry(721, "mobius_inversion", RuleCategory::Simplification, "Möbius inversion formula", false, 3, kind),
        _ => describe_page4(k),
    }
}

/// The rule of kind `k`, written out on page 4 of the catalogue or a later one.
fn describe_page4(k: NumberTheoryRule) -> (r: Rule)
    requires
        catalog_page(k) >= 4,
    ensures
        r == catalog(k),
{
    let kind = RuleKind::NumberTheory(k);
    match k {
        NumberTheoryRule::MobiusMultiplicative => entry(722, "mobius_multiplicative", RuleCategory::Simplification, "μ(mn) = μ(m)μ(n) for gcd(m,n)=1", false, 1, kind),
        NumberTheoryRule::ChebyshevPrimeBounds => entry(723, "chebyshev_prime_bounds", RuleCategory::AlgebraicSolving, "Chebyshev bounds on π(x)", false, 2, kind),
        NumberTheoryRule::EvenPerfectNumber => entry(724, "even_perfect_number", RuleCategory::AlgebraicSolving, "Even perfect = 2^(p-1)(2^p - 1)", false, 2, kind),
        NumberTheoryRule::MersennePrimeCondition => entry(725, "mersenne_prime_condition", RuleCategory::AlgebraicSolving, "2^p - 1 prime => p prime", false, 1, kind),
        NumberTheoryRule::SumOfDivisors => entry(726, "sum_of_divisors", RuleCategory::Simplification, "σ(n) = Σ d for d|n", false, 2, kind),
        NumberTheoryRule::NumberOfDivisors => entry(727, "number_of_divisors", RuleCategory::Simplification, "τ(n) is number of divisors", false, 1, kind),
        NumberTheoryRule::TotientSum => entry(728, "totient_sum", RuleCategory::Simplification, "Σ φ(d) = n for d|n", false, 2, kind),
        NumberTheoryRule::PrimitiveRootCount => entry(729, "primitive_root_count", RuleCategory::Simplification, "φ(φ(n)) primitive roots mod n", false, 2, kind),
        NumberTheoryRule::CarmichaelFunction => entry(730, "carmichael_function", RuleCategory::Simplification, "Carmichael function λ(n)", false, 2, kind),
        NumberTheoryRule::SquareFreeDensity => entry(731, "square_free_density", RuleCategory::Simplification, "Square-free density = 6/π²", false, 2, kind),
        NumberTheoryRule::PrimeGapBound => entry(732, "prime_gap_bound", RuleCategory::AlgebraicSolving, "Prime gap upper bounds", false, 3, kind),
        NumberTheoryRule::SophieGermainPrime => entry(733, "sophie_germain_prime", RuleCategory::AlgebraicSolving, "Sophie Germain: p and 2p+1 both prime", false, 2, kind),
        NumberTheoryRule::QuadraticReciprocity => entry(734, "quadratic_reciprocity", RuleCategory::Simplification, "Quadratic reciprocity law", false, 2, kind),
        NumberTheoryRule::JacobiSymbol => entry(735, "jacobi_symbol", RuleCategory::Simplification, "Jacobi symbol (a/n)", false, 2, kind),
        NumberTheoryRule::KroneckerSymbol => entry(736, "kronecker_symbol", RuleCategory::Simplification, "Kronecker symbol extension", false, 2, kind),
        NumberTheoryRule::TonelliShanks => entry(737, "tonelli_shanks", RuleCategory::EquationSolving, "Tonelli-Shanks modular square root", false, 4, kind),
        NumberTheoryRule::DiscreteLogOrder => entry(738, "discrete_log_order", RuleCategory::EquationSolving, "Discrete logarithm order", false, 3, kind),
        NumberTheoryRule::ContinuedFractionGcd => entry(739, "continued_fraction_gcd", RuleCategory::Simplification, "GCD via continued fractions", false, 3, kind),
        NumberTheoryRule::FareyNeighbors => entry(740, "farey_neighbors", RuleCategory::AlgebraicSolving, "Farey neighbors: |ad - bc| = 1", false, 2, kind),
        NumberTheoryRule::SternBrocot => entry(741, "stern_brocot", RuleCategory::Simplification, "Stern-Brocot tree mediant", false, 2, kind),
        NumberTheoryRule::EgyptianFraction => entry(742, "egyptian_fraction", RuleCategory::Expansion, "Egyptian fraction decomposition", false, 3, kind),
        NumberTheoryRule::GaussianNorm => entry(743, "gaussian_norm", RuleCategory::Simplification, "Gaussian integer norm N(a+bi) = a² + b²", false, 1, kind),
        _ => entry(744, "gaussian_prime", RuleCategory::AlgebraicSolving, "Gaussian prime conditions", false, 2, kind),
    }
}

/// Divisibility: `n | 0`, `n/n`, `a + a`, cancelling factors, differences of squares and cubes, squares of binomials.
pub open spec fn divisibility_kinds() -> Seq<NumberTheoryRule> {
    seq![
        NumberTheoryRule::DividesZero,
        NumberTheoryRule::DividesSelf,
        NumberTheoryRule::EvenSum,
        NumberTheoryRule::DivBy2,
        NumberTheoryRule::CancelCommonFactor,
        NumberTheoryRule::MulByDenom,
        NumberTheoryRule::DiffSquaresFactor,
        NumberTheoryRule::DiffCubesFactor,
        NumberTheoryRule::SumCubesFactor,
        NumberTheoryRule::SquareBinomialExpand,
        NumberTheoryRule::SquareBinomialSubExpand,
    ]
}

/// Modular arithmetic: `a mod a`, `0 mod n`, `a mod 1`, inverses, powers, the extended Euclidean algorithm, Legendre symbols, primitive roots and schemas for square roots, logarithms and lifting.
pub open spec fn modular_kinds() -> Seq<NumberTheoryRule> {
    seq![
        NumberTheoryRule::ModSelf,
        NumberTheoryRule::ZeroMod,
        NumberTheoryRule::ModOne,
        NumberTheoryRule::ModularInverse,
        NumberTheoryRule::ModularExponentiation,
        NumberTheoryRule::ExtendedGcd,
        NumberTheoryRule::LegendreSymbolCompute,
        NumberTheoryRule::TonelliShanksCompute,
        NumberTheoryRule::PrimitiveRootFind,
        NumberTheoryRule::DiscreteLogBsgs,
        NumberTheoryRule::HenselLift,
    ]
}

/// Greatest common divisors and least common multiples.
pub open spec fn gcd_lcm_kinds() -> Seq<NumberTheoryRule> {
    seq![
        NumberTheoryRule::GcdSelf,
        NumberTheoryRule::GcdZero,
        NumberTheoryRule::GcdOne,
        NumberTheoryRule::LcmSelf,
        NumberTheoryRule::LcmOne,
        NumberTheoryRule::GcdLcmProduct,
    ]
}

/// Square roots and squares.
pub open spec fn perfect_power_kinds() -> Seq<NumberTheoryRule> {
    seq![
        NumberTheoryRule::SqrtSquare,
        NumberTheoryRule::SquareSqrt,
        NumberTheoryRule::SqrtProduct,
        NumberTheoryRule::SqrtQuotient,
        NumberTheoryRule::HalfPowerSqrt,
    ]
}

/// Powers of `-1` and of negated bases.
pub open spec fn parity_kinds() -> Seq<NumberTheoryRule> {
    seq![
        NumberTheoryRule::NegOneEvenPower,
        NumberTheoryRule::NegOneOddPower,
        NumberTheoryRule::NegSquared,
    ]
}

/// Closed forms of sums of constants, integers, squares, cubes and geometric series.
pub open spec fn sum_formula_kinds() -> Seq<NumberTheoryRule> {
    seq![
        NumberTheoryRule::SumConstant,
        NumberTheoryRule::SumArithmetic,
        NumberTheoryRule::SumSquares,
        NumberTheoryRule::SumCubes,
        NumberTheoryRule::GeometricSum,
    ]
}

/// Factorials of `0` and `1` and the factorial recursion.
pub open spec fn factorial_kinds() -> Seq<NumberTheoryRule> {
    seq![
        NumberTheoryRule::FactorialZero,
        NumberTheoryRule::FactorialOne,
        NumberTheoryRule::FactorialRecurse,
    ]
}

/// Floors and ceilings of integers.
pub open spec fn floor_ceiling_kinds() -> Seq<NumberTheoryRule> {
    seq![
        NumberTheoryRule::FloorInteger,
        NumberTheoryRule::CeilingInteger,
        NumberTheoryRule::FloorCeilingDiff,
    ]
}

/// The theorems of number theory: Fermat, Euler, the Chinese remainder theorem, quadratic residues, Diophantine equations, arithmetic functions and their relatives.
pub open spec fn advanced_number_theory_kinds() -> Seq<NumberTheoryRule> {
    seq![
        NumberTheoryRule::FermatLittleTheorem,
        NumberTheoryRule::FermatLastTheorem,
        NumberTheoryRule::EulerTheorem,
        NumberTheoryRule::EulerPhiMultiplicative,
        NumberTheoryRule::EulerPhiPrimePower,
        NumberTheoryRule::ChineseRemainderTheorem,
        NumberTheoryRule::QuadraticResidue,
        NumberTheoryRule::LegendreSymbolMultiplicative,
        NumberTheoryRule::EulerCriterion,
        NumberTheoryRule::PrimeCountingApprox,
        NumberTheoryRule::BertrandPostulate,
        NumberTheoryRule::LinearDiophantine,
        NumberTheoryRule::PellEquation,
        NumberTheoryRule::SumOfTwoSquares,
        NumberTheoryRule::SumOfFourSquares,
        NumberTheoryRule::WilsonTheorem,
        NumberTheoryRule::HenselLemma,
        NumberTheoryRule::OrderDividesPhi,
        NumberTheoryRule::PrimitiveRootExistence,
        NumberTheoryRule::LegendreFormula,
        NumberTheoryRule::LucasTheorem,
        NumberTheoryRule::MobiusInversion,
        NumberTheoryRule::MobiusMultiplicative,
        NumberTheoryRule::ChebyshevPrimeBounds,
        NumberTheoryRule::EvenPerfectNumber,
        NumberTheoryRule::MersennePrimeCondition,
        NumberTheoryRule::SumOfDivisors,
        NumberTheoryRule::NumberOfDivisors,
        NumberTheoryRule::TotientSum,
        NumberTheoryRule::PrimitiveRootCount,
        NumberTheoryRule::CarmichaelFunction,
        NumberTheoryRule::SquareFreeDensity,
        NumberTheoryRule::PrimeGapBound,
        NumberTheoryRule::SophieGermainPrime,
        NumberTheoryRule::QuadraticReciprocity,
        NumberTheoryRule::JacobiSymbol,
        NumberTheoryRule::KroneckerSymbol,
        NumberTheoryRule::TonelliShanks,
        NumberTheoryRule::DiscreteLogOrder,
        NumberTheoryRule::ContinuedFractionGcd,
        NumberTheoryRule::FareyNeighbors,
        NumberTheoryRule::SternBrocot,
        NumberTheoryRule::EgyptianFraction,
        NumberTheoryRule::GaussianNorm,
        NumberTheoryRule::GaussianPrime,
    ]
}

/// The rules of this group, in order.
pub fn divisibility_rules() -> (rules: Vec<Rule>)
    ensures
        rules@ == divisibility_kinds().map_values(|k: NumberTheoryRule| catalog(k)),
        rules.len() == 11,
{
    let rules = vec![
        describe(NumberTheoryRule::DividesZero),
        describe(NumberTheoryRule::DividesSelf),
        describe(NumberTheoryRule::EvenSum),
        describe(NumberTheoryRule::DivBy2),
        describe(NumberTheoryRule::CancelCommonFactor),
        describe(NumberTheoryRule::MulByDenom),
        describe(NumberTheoryRule::DiffSquaresFactor),
        describe(NumberTheoryRule::DiffCubesFactor),
        describe(NumberTheoryRule::SumCubesFactor),
        describe(NumberTheoryRule::SquareBinomialExpand),
        describe(NumberTheoryRule::SquareBinomialSubExpand),
    ];
    proof {
        assert(rules@ =~= divisibility_kinds().map_values(|k: NumberTheoryRule| catalog(k)));
    }
    rules
}

/// The rules of this group, in order.
pub fn modular_rules() -> (rules: Vec<Rule>)
    ensures
        rules@ == modular_kinds().map_values(|k: NumberTheoryRule| catalog(k)),
        rules.len() == 11,
{
    let rules = vec![
        describe(NumberTheoryRule::ModSelf),
        describe(NumberTheoryRule::ZeroMod),
        describe(NumberTheoryRule::ModOne),
        describe(NumberTheoryRule::ModularInverse),
        describe(NumberTheoryRule::ModularExponentiation),
        describe(NumberTheoryRule::ExtendedGcd),
        describe(NumberTheoryRule::LegendreSymbolCompute),
        describe(NumberTheoryRule::TonelliShanksCompute),
        describe(NumberTheoryRule::PrimitiveRootFind),
        describe(NumberTheoryRule::DiscreteLogBsgs),
        describe(NumberTheoryRule::HenselLift),
    ];
    proof {
        assert(rules@ =~= modular_kinds().map_values(|k: NumberTheoryRule| catalog(k)));
    }
    rules
}

/// The rules of this group, in order.
pub fn gcd_lcm_rules() -> (rules: Vec<Rule>)
    ensures
        rules@ == gcd_lcm_kinds().map_values(|k: NumberTheoryRule| catalog(k)),
        rules.len() == 6,
{
    let rules = vec![
        describe(NumberTheoryRule::GcdSelf),
        describe(NumberTheoryRule::GcdZero),
        describe(NumberTheoryRule::GcdOne),
        describe(NumberTheoryRule::LcmSelf),
        describe(NumberTheoryRule::LcmOne),
        describe(NumberTheoryRule::GcdLcmProduct),
    ];
    proof {
        assert(rules@ =~= gcd_lcm_kinds().map_values(|k: NumberTheoryRule| catalog(k)));
    }
    rules
}

/// The rules of this group, in order.
pub fn perfect_power_rules() -> (rules: Vec<Rule>)
    ensures
        rules@ == perfect_power_kinds().map_values(|k: NumberTheoryRule| catalog(k)),
        rules.len() == 5,
{
    let rules = vec![
        describe(NumberTheoryRule::SqrtSquare),
        describe(NumberTheoryRule::SquareSqrt),
        describe(NumberTheoryRule::SqrtProduct),
        describe(NumberTheoryRule::SqrtQuotient),
        describe(NumberTheoryRule::HalfPowerSqrt),
    ];
    proof {
        assert(rules@ =~= perfect_power_kinds().map_values(|k: NumberTheoryRule| catalog(k)));
    }
    rules
}

/// The rules of this group, in order.
pub fn parity_rules() -> (rules: Vec<Rule>)
    ensures
        rules@ == parity_kinds().map_values(|k: NumberTheoryRule| catalog(k)),
        rules.len() == 3,
{
    let rules = vec![
        describe(NumberTheoryRule::NegOneEvenPower),
        describe(NumberTheoryRule::NegOneOddPower),
        describe(NumberTheoryRule::NegSquared),
    ];
    proof {
        assert(rules@ =~= parity_kinds().map_values(|k: NumberTheoryRule| catalog(k)));
    }
    rules
}

/// The rules of this group, in order.
pub fn sum_formulas() -> (rules: Vec<Rule>)
    ensures
        rules@ == sum_formula_kinds().map_values(|k: NumberTheoryRule| catalog(k)),
        rules.len() == 5,
{
    let rules = vec![
        describe(NumberTheoryRule::SumConstant),
        describe(NumberTheoryRule::SumArithmetic),
        describe(NumberTheoryRule::SumSquares),
        describe(NumberTheoryRule::SumCubes),
        describe(NumberTheoryRule::GeometricSum),
    ];
    proof {
        assert(rules@ =~= sum_formula_kinds().map_values(|k: NumberTheoryRule| catalog(k)));
    }
    rules
}

/// The rules of this group, in order.
pub fn factorial_rules() -> (rules: Vec<Rule>)
    ensures
        rules@ == factorial_kinds().map_values(|k: NumberTheoryRule| catalog(k)),
        rules.len() == 3,
{
    let rules = vec![
        describe(NumberTheoryRule::FactorialZero),
        describe(NumberTheoryRule::FactorialOne),
        describe(NumberTheoryRule::FactorialRecurse),
    ];
    proof {
        assert(rules@ =~= factorial_kinds().map_values(|k: NumberTheoryRule| catalog(k)));
    }
    rules
}

/// The rules of this group, in order.
pub fn floor_ceiling_rules() -> (rules: Vec<Rule>)
    ensures
        rules@ == floor_ceiling_kinds().map_values(|k: NumberTheoryRule| catalog(k)),
        rules.len() == 3,
{
    let rules = vec![
        describe(NumberTheoryRule::FloorInteger),
        describe(NumberTheoryRule::CeilingInteger),
        describe(NumberTheoryRule::FloorCeilingDiff),
    ];
    proof {
        assert(rules@ =~= floor_ceiling_kinds().map_values(|k: NumberTheoryRule| catalog(k)));
    }
    rules
}

/// The rules of this group, in order.
pub fn advanced_number_theory_rules() -> (rules: Vec<Rule>)
    ensures
        rules@ == advanced_number_theory_kinds().map_values(|k: NumberTheoryRule| catalog(k)),
        rules.len() == 45,
{
    let rules = vec![
        describe(NumberTheoryRule::FermatLittleTheorem),
        describe(NumberTheoryRule::FermatLastTheorem),
        describe(NumberTheoryRule::EulerTheorem),
        describe(NumberTheoryRule::EulerPhiMultiplicative),
        describe(NumberTheoryRule::EulerPhiPrimePower),
        describe(NumberTheoryRule::ChineseRemainderTheorem),
        describe(NumberTheoryRule::QuadraticResidue),
        describe(NumberTheoryRule::LegendreSymbolMultiplicative),
        describe(NumberTheoryRule::EulerCriterion),
        describe(NumberTheoryRule::PrimeCountingApprox),
        describe(NumberTheoryRule::BertrandPostulate),
        describe(NumberTheoryRule::LinearDiophantine),
        describe(NumberTheoryRule::PellEquation),
        describe(NumberTheoryRule::SumOfTwoSquares),
        describe(NumberTheoryRule::SumOfFourSquares),
        describe(NumberTheoryRule::WilsonTheorem),
        describe(NumberTheoryRule::HenselLemma),
        describe(NumberTheoryRule::OrderDividesPhi),
        describe(NumberTheoryRule::PrimitiveRootExistence),
        describe(NumberTheoryRule::LegendreFormula),
        describe(NumberTheoryRule::LucasTheorem),
        describe(NumberTheoryRule::MobiusInversion),
        describe(NumberTheoryRule::MobiusMultiplicative),
        describe(NumberTheoryRule::ChebyshevPrimeBounds),
        describe(NumberTheoryRule::EvenPerfectNumber),
        describe(NumberTheoryRule::MersennePrimeCondition),
        describe(NumberTheoryRule::SumOfDivisors),
        describe(NumberTheoryRule::NumberOfDivisors),
        describe(NumberTheoryRule::TotientSum),
        describe(NumberTheoryRule::PrimitiveRootCount),
        describe(NumberTheoryRule::CarmichaelFunction),
        describe(NumberTheoryRule::SquareFreeDensity),
        describe(NumberTheoryRule::PrimeGapBound),
        describe(NumberTheoryRule::SophieGermainPrime),
        describe(NumberTheoryRule::QuadraticReciprocity),
        describe(NumberTheoryRule::JacobiSymbol),
        describe(NumberTheoryRule::KroneckerSymbol),
        describe(NumberTheoryRule::TonelliShanks),
        describe(NumberTheoryRule::DiscreteLogOrder),
        describe(NumberTheoryRule::ContinuedFractionGcd),
        describe(NumberTheoryRule::FareyNeighbors),
        describe(NumberTheoryRule::SternBrocot),
        describe(NumberTheoryRule::EgyptianFraction),
        describe(NumberTheoryRule::GaussianNorm),
        describe(NumberTheoryRule::GaussianPrime),
    ];
    proof {
        assert(rules@ =~= advanced_number_theory_kinds().map_values(|k: NumberTheoryRule| catalog(k)));
    }
    rules
}

/// Every number-theory rule: the groups above, in order.
pub open spec fn number_theory_kinds() -> Seq<NumberTheoryRule> {
    divisibility_kinds() + modular_kinds() + gcd_lcm_kinds() + perfect_power_kinds() + parity_kinds() + sum_formula_kinds() + factorial_kinds() + floor_ceiling_kinds() + advanced_number_theory_kinds()
}

/// All number-theory rules.
pub fn number_theory_rules() -> (rules: Vec<Rule>)
    ensures
        rules@ == number_theory_kinds().map_values(|k: NumberTheoryRule| catalog(k)),
        rules.len() == 92,
        rules@ == crate::rule::number_theory_catalogue(),
        crate::rule::ids_distinct(rules@),
{
    let mut rules: Vec<Rule> = Vec::new();
    extend_rules(&mut rules, divisibility_rules());
    extend_rules(&mut rules, modular_rules());
    extend_rules(&mut rules, gcd_lcm_rules());
    extend_rules(&mut rules, perfect_power_rules());
    extend_rules(&mut rules, parity_rules());
    extend_rules(&mut rules, sum_formulas());
    extend_rules(&mut rules, factorial_rules());
    extend_rules(&mut rules, floor_ceiling_rules());
    extend_rules(&mut rules, advanced_number_theory_rules());
    proof {
        let f = |k: NumberTheoryRule| catalog(k);
        assert(rules@ =~= number_theory_kinds().map_values(f));
    }
    proof {
        assert(rules@ =~= crate::rule::number_theory_catalogue());
        lemma_catalogue_numbers_distinct();
        assert forall|i: int, j: int| 0 <= i < j < rules@.len() implies #[trigger] rules@[i].id
            != #[trigger] rules@[j].id by {
            assert(rules@[i] == catalog(number_theory_kinds()[i]));
            assert(rules@[j] == catalog(number_theory_kinds()[j]));
        }
    }
    rules
}

/// `e` is a constant whose numerator is zero.
pub open spec fn is_zero_const(e: Expr) -> bool {
    e matches Expr::Const(c) && c.num == 0
}

/// Whether rule `k` matches `e`.
pub open spec fn applies(k: NumberTheoryRule, e: Expr) -> bool {
    match k {
        NumberTheoryRule::DividesZero => e matches Expr::Div(a, b) && is_zero_const(*a) && !is_zero_const(*b),
        NumberTheoryRule::DividesSelf => e matches Expr::Div(a, b) && a == b && !is_zero_const(*b),
        NumberTheoryRule::EvenSum => e matches Expr::Add(a, b) && a == b,
        NumberTheoryRule::DivBy2 => e matches Expr::Mul(a, _) && *a == lit(2),
        NumberTheoryRule::CancelCommonFactor => e matches Expr::Div(num, denom) && *num matches Expr::Mul(a, b) && (a == denom || b == denom),
        NumberTheoryRule::MulByDenom => match e {
            Expr::Mul(a, b) => match *a {
                Expr::Div(_, d) => d == b,
                _ => *b matches Expr::Div(_, d) && d == a,
            },
            _ => false,
        },
        NumberTheoryRule::DiffSquaresFactor => e matches Expr::Sub(a, b) && spec_is_pow_of(*a, 2) && spec_is_pow_of(*b, 2),
        NumberTheoryRule::DiffCubesFactor => e matches Expr::Sub(a, b) && spec_is_pow_of(*a, 3) && spec_is_pow_of(*b, 3),
        NumberTheoryRule::SumCubesFactor => e matches Expr::Add(a, b) && spec_is_pow_of(*a, 3) && spec_is_pow_of(*b, 3),
        NumberTheoryRule::SquareBinomialExpand => e matches Expr::Pow(base, exp) && *exp == lit(2) && *base is Add,
        NumberTheoryRule::SquareBinomialSubExpand => e matches Expr::Pow(base, exp) && *exp == lit(2) && *base is Sub,
        NumberTheoryRule::ModSelf => e matches Expr::Mod(a, b) && a == b,
        NumberTheoryRule::ZeroMod => e matches Expr::Mod(a, _) && is_zero_const(*a),
        NumberTheoryRule::ModOne => e matches Expr::Mod(_, b) && *b == lit(1),
        NumberTheoryRule::ModularInverse => e matches Expr::Mod(inner, modulus) && *inner matches Expr::Div(num, _) && *num == lit(1) && (*modulus matches Expr::Const(m) && m.den == 1 && 1 < m.num < 1000),
        NumberTheoryRule::ModularExponentiation => e matches Expr::Mod(inner, modulus) && *inner is Pow && (*modulus matches Expr::Const(m) && m.den == 1 && 1 < m.num < 1000),
        NumberTheoryRule::ExtendedGcd => e matches Expr::GCD(a, b) && *a matches Expr::Const(x) && *b matches Expr::Const(y) && x.den == 1 && y.den == 1 && -1000 < x.num < 1000 && -1000 < y.num < 1000,
        NumberTheoryRule::LegendreSymbolCompute => e matches Expr::Mod(_, p) && *p matches Expr::Const(c) && 2 < c.num < 100 && tmod(c.num as int, 2) == 1,
        NumberTheoryRule::TonelliShanksCompute => e matches Expr::Sqrt(inner) && *inner matches Expr::Const(a) && a.den == 1 && 0 < a.num < 100,
        NumberTheoryRule::PrimitiveRootFind => e matches Expr::Const(n) && 0 < n.num < 50,
        NumberTheoryRule::DiscreteLogBsgs => e is Pow,
        NumberTheoryRule::HenselLift => e is Mod,
        NumberTheoryRule::GcdSelf => e matches Expr::GCD(a, b) && a == b,
        NumberTheoryRule::GcdZero => e matches Expr::GCD(_, b) && is_zero_const(*b),
        NumberTheoryRule::GcdOne => e matches Expr::GCD(_, b) && *b == lit(1),
        NumberTheoryRule::LcmSelf => e matches Expr::LCM(a, b) && a == b,
        NumberTheoryRule::LcmOne => e matches Expr::LCM(_, b) && *b == lit(1),
        NumberTheoryRule::GcdLcmProduct => match e {
            Expr::Mul(l, r) => match (*l, *r) {
                (Expr::GCD(a1, b1), Expr::LCM(a2, b2)) => a1 == a2 && b1 == b2,
                (Expr::LCM(a1, b1), Expr::GCD(a2, b2)) => a1 == a2 && b1 == b2,
                _ => false,
            },
            _ => false,
        },
        NumberTheoryRule::SqrtSquare => e matches Expr::Sqrt(inner) && spec_is_pow_of(*inner, 2),
        NumberTheoryRule::SquareSqrt => e matches Expr::Pow(base, exp) && *exp == lit(2) && *base is Sqrt,
        NumberTheoryRule::SqrtProduct => e matches Expr::Mul(a, b) && *a is Sqrt && *b is Sqrt,
        NumberTheoryRule::SqrtQuotient => e matches Expr::Sqrt(inner) && *inner is Div,
        NumberTheoryRule::HalfPowerSqrt => e matches Expr::Pow(_, exp) && *exp matches Expr::Div(num, den) && *num == lit(1) && *den == lit(2),
        NumberTheoryRule::NegOneEvenPower => e matches Expr::Pow(base, exp) && *base matches Expr::Neg(inner) && *inner == lit(1) && (*exp matches Expr::Const(n) && n.den == 1 && tmod(n.num as int, 2) == 0),
        NumberTheoryRule::NegOneOddPower => e matches Expr::Pow(base, exp) && *base matches Expr::Neg(inner) && *inner == lit(1) && (*exp matches Expr::Const(n) && n.den == 1 && tmod(n.num as int, 2) != 0),
        NumberTheoryRule::NegSquared => e matches Expr::Pow(base, exp) && *base is Neg && (*exp matches Expr::Const(n) && n.den == 1 && tmod(n.num as int, 2) == 0 && n.num > 0),
        NumberTheoryRule::SumConstant => e matches Expr::Mul(a, b) && *a is Const && *b is Var,
        NumberTheoryRule::SumArithmetic => e is Var,
        NumberTheoryRule::SumSquares => e is Var,
        NumberTheoryRule::SumCubes => e is Var,
        NumberTheoryRule::GeometricSum => e matches Expr::Div(num, den) && *num is Sub && *den is Sub,
        NumberTheoryRule::FactorialZero => e matches Expr::Factorial(inner) && is_zero_const(*inner),
        NumberTheoryRule::FactorialOne => e matches Expr::Factorial(inner) && *inner == lit(1),
        NumberTheoryRule::FactorialRecurse => e is Factorial,
        NumberTheoryRule::FloorInteger => e matches Expr::Floor(inner) && *inner matches Expr::Const(r) && r.den == 1,
        NumberTheoryRule::CeilingInteger => e matches Expr::Ceiling(inner) && *inner matches Expr::Const(r) && r.den == 1,
        NumberTheoryRule::FloorCeilingDiff => e matches Expr::Sub(a, b) && *a is Ceiling && *b is Floor,
        NumberTheoryRule::FermatLittleTheorem => e matches Expr::Mod(inner, modulus) && *inner matches Expr::Pow(_, exp) && *exp matches Expr::Sub(m, one) && m == modulus && *one == lit(1),
        NumberTheoryRule::FermatLastTheorem => e matches Expr::Equation { lhs, rhs } && *lhs matches Expr::Add(a, b) && *a is Pow && *b is Pow && *rhs is Pow,
        NumberTheoryRule::EulerTheorem => e matches Expr::Mod(inner, _) && *inner is Pow,
        NumberTheoryRule::EulerPhiMultiplicative => e is Mul,
        NumberTheoryRule::EulerPhiPrimePower => e is Pow,
        NumberTheoryRule::ChineseRemainderTheorem => e is Equation || e is Mod,
        NumberTheoryRule::QuadraticResidue => e matches Expr::Mod(inner, _) && spec_is_pow_of(*inner, 2),
        NumberTheoryRule::LegendreSymbolMultiplicative => e is Mul,
        NumberTheoryRule::EulerCriterion => e matches Expr::Mod(inner, _) && *inner is Pow,
        NumberTheoryRule::PrimeCountingApprox => e matches Expr::Div(num, den) && *den matches Expr::Ln(inner) && num == inner,
        NumberTheoryRule::BertrandPostulate => e is Gt || e is Lt,
        NumberTheoryRule::LinearDiophantine => e is Equation,
        NumberTheoryRule::PellEquation => e matches Expr::Equation { lhs, rhs } && *rhs == lit(1) && *lhs is Sub,
        NumberTheoryRule::SumOfTwoSquares => e matches Expr::Add(a, b) && spec_is_pow_of(*a, 2) && spec_is_pow_of(*b, 2),
        NumberTheoryRule::SumOfFourSquares => e matches Expr::Const(c) && !(c.num < 0),
        NumberTheoryRule::WilsonTheorem => e matches Expr::Mod(inner, _) && *inner is Factorial,
        NumberTheoryRule::HenselLemma => e is Mod || e is Equation,
        NumberTheoryRule::OrderDividesPhi => e is GCD || e is Mod,
        NumberTheoryRule::PrimitiveRootExistence => e is Const || e is Pow,
        NumberTheoryRule::LegendreFormula => e is Factorial,
        NumberTheoryRule::LucasTheorem => e is Mod,
        NumberTheoryRule::MobiusInversion => e is Div || e is Add,
        NumberTheoryRule::MobiusMultiplicative => e is Mul,
        NumberTheoryRule::ChebyshevPrimeBounds => e is Div || e is Ln,
        NumberTheoryRule::EvenPerfectNumber => e matches Expr::Mul(a, b) && *a is Pow && *b is Sub,
        NumberTheoryRule::MersennePrimeCondition => e matches Expr::Sub(a, b) && *b == lit(1) && *a is Pow,
        NumberTheoryRule::SumOfDivisors => e matches Expr::Const(n) && n.num > 0 && n.den == 1 && n.num < 1000,
        NumberTheoryRule::NumberOfDivisors => e matches Expr::Const(n) && n.num > 0 && n.den == 1 && n.num < 1000,
        NumberTheoryRule::TotientSum => e is Const || e is Var,
        NumberTheoryRule::PrimitiveRootCount => e is Const || e is Pow,
        NumberTheoryRule::CarmichaelFunction => e is Const || e is LCM,
        NumberTheoryRule::SquareFreeDensity => e matches Expr::Div(num, den) && *num == lit(6) && (*den matches Expr::Pow(base, _) && *base is Pi),
        NumberTheoryRule::PrimeGapBound => e is Sub || e is Gt,
        NumberTheoryRule::SophieGermainPrime => e matches Expr::Add(a, b) && *b == lit(1) && *a is Mul,
        NumberTheoryRule::QuadraticReciprocity => e is Mul || e is Pow,
        NumberTheoryRule::JacobiSymbol => e is Div || e is Mod,
        NumberTheoryRule::KroneckerSymbol => e is Div || e is Mod,
        NumberTheoryRule::TonelliShanks => e is Mod || e is Sqrt,
        NumberTheoryRule::DiscreteLogOrder => e is Pow || e is Mod,
        NumberTheoryRule::ContinuedFractionGcd => e is GCD || e is Div,
        NumberTheoryRule::FareyNeighbors => e is Sub || e is Abs,
        NumberTheoryRule::SternBrocot => e is Div || e is Add,
        NumberTheoryRule::EgyptianFraction => e is Div,
        NumberTheoryRule::GaussianNorm => e matches Expr::Add(a, b) && *a is Pow && *b is Pow,
        NumberTheoryRule::GaussianPrime => e is Const || e is Add,
    }
}

/// Whether rule `k` matches `e`.
pub fn can_apply(k: NumberTheoryRule, e: &Expr) -> (r: bool)
    ensures
        r == applies(k, *e),
{
    match k {
        NumberTheoryRule::DividesZero => if let Expr::Div(a, b) = e { is_const_zero(a) && !is_const_zero(b) } else { false },
        NumberTheoryRule::DividesSelf => if let Expr::Div(a, b) = e { same(a, b) && !is_const_zero(b) } else { false },
        NumberTheoryRule::EvenSum => if let Expr::Add(a, b) = e { same(a, b) } else { false },
        NumberTheoryRule::DivBy2 => if let Expr::Mul(a, _) = e { is_lit(a, 2) } else { false },
        NumberTheoryRule::CancelCommonFactor => {
            if let Expr::Div(num, denom) = e {
                if let Expr::Mul(a, b) = &**num {
                    return same(a, denom) || same(b, denom);
                }
            }
            false
        },
        NumberTheoryRule::MulByDenom => {
            if let Expr::Mul(a, b) = e {
                if let Expr::Div(_, d) = &**a {
                    return same(d, b);
                }
                if let Expr::Div(_, d) = &**b {
                    return same(d, a);
                }
            }
            false
        },
        NumberTheoryRule::DiffSquaresFactor => if let Expr::Sub(a, b) = e { is_pow_of(a, 2) && is_pow_of(b, 2) } else { false },
        NumberTheoryRule::DiffCubesFactor => if let Expr::Sub(a, b) = e { is_pow_of(a, 3) && is_pow_of(b, 3) } else { false },
        NumberTheoryRule::SumCubesFactor => if let Expr::Add(a, b) = e { is_pow_of(a, 3) && is_pow_of(b, 3) } else { false },
        NumberTheoryRule::SquareBinomialExpand => if let Expr::Pow(base, exp) = e { is_lit(exp, 2) && matches!(**base, Expr::Add(_, _)) } else { false },
        NumberTheoryRule::SquareBinomialSubExpand => if let Expr::Pow(base, exp) = e { is_lit(exp, 2) && matches!(**base, Expr::Sub(_, _)) } else { false },
        NumberTheoryRule::ModSelf => if let Expr::Mod(a, b) = e { same(a, b) } else { false },
        NumberTheoryRule::ZeroMod => if let Expr::Mod(a, _) = e { is_const_zero(a) } else { false },
        NumberTheoryRule::ModOne => if let Expr::Mod(_, b) = e { is_lit(b, 1) } else { false },
        NumberTheoryRule::ModularInverse => {
            if let Expr::Mod(inner, modulus) = e {
                if let Expr::Div(num, _) = &**inner {
                    if is_lit(num, 1) {
                        if let Expr::Const(m) = &**modulus {
                            return m.den == 1 && m.num > 1 && m.num < 1000;
                        }
                    }
                }
            }
            false
        },
        NumberTheoryRule::ModularExponentiation => {
            if let Expr::Mod(inner, modulus) = e {
                if matches!(**inner, Expr::Pow(_, _)) {
                    if let Expr::Const(m) = &**modulus {
                        return m.den == 1 && m.num > 1 && m.num < 1000;
                    }
                }
            }
            false
        },
        NumberTheoryRule::ExtendedGcd => {
            if let Expr::GCD(a, b) = e {
                if let (Expr::Const(x), Expr::Const(y)) = (&**a, &**b) {
                    return x.den == 1 && y.den == 1 && -1000 < x.num && x.num < 1000 && -1000 < y.num
                        && y.num < 1000;
                }
            }
            false
        },
        NumberTheoryRule::LegendreSymbolCompute => {
            if let Expr::Mod(_, p) = e {
                if let Expr::Const(c) = &**p {
                    return 2 < c.num && c.num < 100 && trem(c.num as i128, 2) == 1;
                }
            }
            false
        },
        NumberTheoryRule::TonelliShanksCompute => {
            if let Expr::Sqrt(inner) = e {
                if let Expr::Const(a) = &**inner {
                    return a.den == 1 && a.num > 0 && a.num < 100;
                }
            }
            false
        },
        NumberTheoryRule::PrimitiveRootFind => if let Expr::Const(n) = e { n.num > 0 && n.num < 50 } else { false },
        NumberTheoryRule::DiscreteLogBsgs => matches!(e, Expr::Pow(_, _)),
        NumberTheoryRule::HenselLift => matches!(e, Expr::Mod(_, _)),
        NumberTheoryRule::GcdSelf => if let Expr::GCD(a, b) = e { same(a, b) } else { false },
        NumberTheoryRule::GcdZero => if let Expr::GCD(_, b) = e { is_const_zero(b) } else { false },
        NumberTheoryRule::GcdOne => if let Expr::GCD(_, b) = e { is_lit(b, 1) } else { false },
        NumberTheoryRule::LcmSelf => if let Expr::LCM(a, b) = e { same(a, b) } else { false },
        NumberTheoryRule::LcmOne => if let Expr::LCM(_, b) = e { is_lit(b, 1) } else { false },
        NumberTheoryRule::GcdLcmProduct => {
            if let Expr::Mul(l, r) = e {
                if let (Expr::GCD(a1, b1), Expr::LCM(a2, b2)) = (&**l, &**r) {
                    return same(a1, a2) && same(b1, b2);
                }
                if let (Expr::LCM(a1, b1), Expr::GCD(a2, b2)) = (&**l, &**r) {
                    return same(a1, a2) && same(b1, b2);
                }
            }
            false
        },
        NumberTheoryRule::SqrtSquare => if let Expr::Sqrt(inner) = e { is_pow_of(inner, 2) } else { false },
        NumberTheoryRule::SquareSqrt => if let Expr::Pow(base, exp) = e { is_lit(exp, 2) && matches!(**base, Expr::Sqrt(_)) } else { false },
        NumberTheoryRule::SqrtProduct => if let Expr::Mul(a, b) = e { matches!(**a, Expr::Sqrt(_)) && matches!(**b, Expr::Sqrt(_)) } else { false },
        NumberTheoryRule::SqrtQuotient => if let Expr::Sqrt(inner) = e { matches!(**inner, Expr::Div(_, _)) } else { false },
        NumberTheoryRule::HalfPowerSqrt => {
            if let Expr::Pow(_, exp) = e {
                if let Expr::Div(num, den) = &**exp {
                    return is_lit(num, 1) && is_lit(den, 2);
                }
            }
            false
        },
        NumberTheoryRule::NegOneEvenPower => {
            if let Expr::Pow(base, exp) = e {
                if let Expr::Neg(inner) = &**base {
                    if is_lit(inner, 1) {
                        if let Expr::Const(n) = &**exp {
                            return n.den == 1 && trem(n.num as i128, 2) == 0;
                        }
                    }
                }
            }
            false
        },
        NumberTheoryRule::NegOneOddPower => {
            if let Expr::Pow(base, exp) = e {
                if let Expr::Neg(inner) = &**base {
                    if is_lit(inner, 1) {
                        if let Expr::Const(n) = &**exp {
                            return n.den == 1 && trem(n.num as i128, 2) != 0;
                        }
                    }
                }
            }
            false
        },
        NumberTheoryRule::NegSquared => {
            if let Expr::Pow(base, exp) = e {
                if matches!(**base, Expr::Neg(_)) {
                    if let Expr::Const(n) = &**exp {
                        return n.den == 1 && trem(n.num as i128, 2) == 0 && n.num > 0;
                    }
                }
            }
            false
        },
        NumberTheoryRule::SumConstant => if let Expr::Mul(a, b) = e { matches!(**a, Expr::Const(_)) && matches!(**b, Expr::Var(_)) } else { false },
        NumberTheoryRule::SumArithmetic => matches!(e, Expr::Var(_)),
        NumberTheoryRule::SumSquares => matches!(e, Expr::Var(_)),
        NumberTheoryRule::SumCubes => matches!(e, Expr::Var(_)),
        NumberTheoryRule::GeometricSum => if let Expr::Div(num, den) = e { matches!(**num, Expr::Sub(_, _)) && matches!(**den, Expr::Sub(_, _)) } else { false },
        NumberTheoryRule::FactorialZero => if let Expr::Factorial(inner) = e { is_const_zero(inner) } else { false },
        NumberTheoryRule::FactorialOne => if let Expr::Factorial(inner) = e { is_lit(inner, 1) } else { false },
        NumberTheoryRule::FactorialRecurse => matches!(e, Expr::Factorial(_)),
        NumberTheoryRule::FloorInteger => {
            if let Expr::Floor(inner) = e {
                if let Expr::Const(r) = &**inner {
                    return r.den == 1;
                }
            }
            false
        },
        NumberTheoryRule::CeilingInteger => {
            if let Expr::Ceiling(inner) = e {
                if let Expr::Const(r) = &**inner {
                    return r.den == 1;
                }
            }
            false
        },
        NumberTheoryRule::FloorCeilingDiff => if let Expr::Sub(a, b) = e { matches!(**a, Expr::Ceiling(_)) && matches!(**b, Expr::Floor(_)) } else { false },
        NumberTheoryRule::FermatLittleTheorem => {
            if let Expr::Mod(inner, modulus) = e {
                if let Expr::Pow(_, exp) = &**inner {
                    if let Expr::Sub(m, one) = &**exp {
                        if same(m, modulus) {
                            return is_lit(one, 1);
                        }
                    }
                }
            }
            false
        },
        NumberTheoryRule::FermatLastTheorem => {
            if let Expr::Equation { lhs, rhs } = e {
                if let Expr::Add(a, b) = &**lhs {
                    return matches!(**a, Expr::Pow(_, _)) && matches!(**b, Expr::Pow(_, _))
                        && matches!(**rhs, Expr::Pow(_, _));
                }
            }
            false
        },
        NumberTheoryRule::EulerTheorem => if let Expr::Mod(inner, _) = e { matches!(**inner, Expr::Pow(_, _)) } else { false },
        NumberTheoryRule::EulerPhiMultiplicative => matches!(e, Expr::Mul(_, _)),
        NumberTheoryRule::EulerPhiPrimePower => matches!(e, Expr::Pow(_, _)),
        NumberTheoryRule::ChineseRemainderTheorem => matches!(e, Expr::Equation { .. } | Expr::Mod(_, _)),
        NumberTheoryRule::QuadraticResidue => if let Expr::Mod(inner, _) = e { is_pow_of(inner, 2) } else { false },
        NumberTheoryRule::LegendreSymbolMultiplicative => matches!(e, Expr::Mul(_, _)),
        NumberTheoryRule::EulerCriterion => if let Expr::Mod(inner, _) = e { matches!(**inner, Expr::Pow(_, _)) } else { false },
        NumberTheoryRule::PrimeCountingApprox => {
            if let Expr::Div(num, den) = e {
                if let Expr::Ln(inner) = &**den {
                    return same(num, inner);
                }
            }
            false
        },
        NumberTheoryRule::BertrandPostulate => matches!(e, Expr::Gt(_, _) | Expr::Lt(_, _)),
        NumberTheoryRule::LinearDiophantine => matches!(e, Expr::Equation { .. }),
        NumberTheoryRule::PellEquation => {
            if let Expr::Equation { lhs, rhs } = e {
                if is_lit(rhs, 1) {
                    return matches!(**lhs, Expr::Sub(_, _));
                }
            }
            false
        },
        NumberTheoryRule::SumOfTwoSquares => if let Expr::Add(a, b) = e { is_pow_of(a, 2) && is_pow_of(b, 2) } else { false },
        NumberTheoryRule::SumOfFourSquares => if let Expr::Const(c) = e { !c.is_negative() } else { false },
        NumberTheoryRule::WilsonTheorem => if let Expr::Mod(inner, _) = e { matches!(**inner, Expr::Factorial(_)) } else { false },
        NumberTheoryRule::HenselLemma => matches!(e, Expr::Mod(_, _) | Expr::Equation { .. }),
        NumberTheoryRule::OrderDividesPhi => matches!(e, Expr::GCD(_, _) | Expr::Mod(_, _)),
        NumberTheoryRule::PrimitiveRootExistence => matches!(e, Expr::Const(_) | Expr::Pow(_, _)),
        NumberTheoryRule::LegendreFormula => matches!(e, Expr::Factorial(_)),
        NumberTheoryRule::LucasTheorem => matches!(e, Expr::Mod(_, _)),
        NumberTheoryRule::MobiusInversion => matches!(e, Expr::Div(_, _) | Expr::Add(_, _)),
        NumberTheoryRule::MobiusMultiplicative => matches!(e, Expr::Mul(_, _)),
        NumberTheoryRule::ChebyshevPrimeBounds => matches!(e, Expr::Div(_, _) | Expr::Ln(_)),
        NumberTheoryRule::EvenPerfectNumber => if let Expr::Mul(a, b) = e { matches!(**a, Expr::Pow(_, _)) && matches!(**b, Expr::Sub(_, _)) } else { false },
        NumberTheoryRule::MersennePrimeCondition => if let Expr::Sub(a, b) = e { is_lit(b, 1) && matches!(**a, Expr::Pow(_, _)) } else { false },
        NumberTheoryRule::SumOfDivisors => if let Expr::Const(n) = e { n.is_positive() && n.is_integer() && n.numer() < 1000 } else { false },
        NumberTheoryRule::NumberOfDivisors => if let Expr::Const(n) = e { n.is_positive() && n.is_integer() && n.numer() < 1000 } else { false },
        NumberTheoryRule::TotientSum => matches!(e, Expr::Const(_) | Expr::Var(_)),
        NumberTheoryRule::PrimitiveRootCount => matches!(e, Expr::Const(_) | Expr::Pow(_, _)),
        NumberTheoryRule::CarmichaelFunction => matches!(e, Expr::Const(_) | Expr::LCM(_, _)),
        NumberTheoryRule::SquareFreeDensity => {
            if let Expr::Div(num, den) = e {
                if is_lit(num, 6) {
                    if let Expr::Pow(base, _) = &**den {
                        return matches!(**base, Expr::Pi);
                    }
                }
            }
            false
        },
        NumberTheoryRule::PrimeGapBound => matches!(e, Expr::Sub(_, _) | Expr::Gt(_, _)),
        NumberTheoryRule::SophieGermainPrime => if let Expr::Add(a, b) = e { is_lit(b, 1) && matches!(**a, Expr::Mul(_, _)) } else { false },
        NumberTheoryRule::QuadraticReciprocity => matches!(e, Expr::Mul(_, _) | Expr::Pow(_, _)),
        NumberTheoryRule::JacobiSymbol => matches!(e, Expr::Div(_, _) | Expr::Mod(_, _)),
        NumberTheoryRule::KroneckerSymbol => matches!(e, Expr::Div(_, _) | Expr::Mod(_, _)),
        NumberTheoryRule::TonelliShanks => matches!(e, Expr::Mod(_, _) | Expr::Sqrt(_)),
        NumberTheoryRule::DiscreteLogOrder => matches!(e, Expr::Pow(_, _) | Expr::Mod(_, _)),
        NumberTheoryRule::ContinuedFractionGcd => matches!(e, Expr::GCD(_, _) | Expr::Div(_, _)),
        NumberTheoryRule::FareyNeighbors => matches!(e, Expr::Sub(_, _) | Expr::Abs(_)),
        NumberTheoryRule::SternBrocot => matches!(e, Expr::Div(_, _) | Expr::Add(_, _)),
        NumberTheoryRule::EgyptianFraction => matches!(e, Expr::Div(_, _)),
        NumberTheoryRule::GaussianNorm => if let Expr::Add(a, b) = e { matches!(**a, Expr::Pow(_, _)) && matches!(**b, Expr::Pow(_, _)) } else { false },
        NumberTheoryRule::GaussianPrime => matches!(e, Expr::Const(_) | Expr::Add(_, _)),
    }
}


/// The inverse of `a` modulo `m` that the rule reports: the Bézout
/// coefficient of `a`, brought into `0..m`.
pub open spec fn inverse_of(a: int, m: int) -> int {
    tmod(tmod(bezout(a, m).1, m) + m, m)
}

pub open spec fn inverse_text(a: int, inv: int, m: int) -> Seq<char> {
    "Modular inverse: "@ + decimal(a) + "⁻¹ ≡ "@ + decimal(inv) + " (mod "@ + decimal(m) + ")"@
}

pub open spec fn power_text(a: int, n: int, r: int, m: int) -> Seq<char> {
    "Modular exponentiation: "@ + decimal(a) + "^"@ + decimal(n) + " ≡ "@ + decimal(r) + " (mod "@
        + decimal(m) + ")"@
}

pub open spec fn egcd_text(a: int, b: int) -> Seq<char> {
    let (g, x, y) = bezout(a, b);
    "Extended GCD: gcd("@ + decimal(a) + ", "@ + decimal(b) + ") = "@ + decimal(g) + " = "@
        + decimal(a) + "·"@ + decimal(x) + " + "@ + decimal(b) + "·"@ + decimal(y)
}

pub open spec fn legendre_text(a: int, p: int, l: int) -> Seq<char> {
    "Legendre ("@ + decimal(a) + "/"@ + decimal(p) + ") = "@ + decimal(l)
}

pub open spec fn root_text(g: int, n: int) -> Seq<char> {
    "Primitive root: "@ + decimal(g) + " is smallest primitive root mod "@ + decimal(n)
}

pub open spec fn sigma_text(n: int, s: int) -> Seq<char> {
    "Sum of divisors: σ("@ + decimal(n) + ") = "@ + decimal(s) + " (sum of all divisors)"@
}

pub open spec fn tau_text(n: int, c: int) -> Seq<char> {
    "Number of divisors: τ("@ + decimal(n) + ") = "@ + decimal(c) + " (count of all divisors)"@
}

/// The inputs on which rule `k` can be carried out: the extended Euclidean
/// algorithm must not meet `i64::MIN % -1`, the inverse needs a nonzero
/// modulus once the gcd is `1`, and the Legendre symbol a nonzero modulus
/// that `i64::MIN % -1` does not meet.
pub open spec fn defined(k: NumberTheoryRule, e: Expr) -> bool {
    match k {
        NumberTheoryRule::ModularInverse => match e {
            Expr::Mod(inner, modulus) => match (*inner, *modulus) {
                (Expr::Div(_, a), Expr::Const(m)) => match *a {
                    Expr::Const(av) => !egcd_overflows(av.num as int, m.num as int) && !(m.num == 0
                        && bezout(av.num as int, m.num as int).0 == 1),
                    _ => true,
                },
                _ => true,
            },
            _ => true,
        },
        NumberTheoryRule::ExtendedGcd => match e {
            Expr::GCD(a, b) => match (*a, *b) {
                (Expr::Const(x), Expr::Const(y)) => !egcd_overflows(x.num as int, y.num as int),
                _ => true,
            },
            _ => true,
        },
        NumberTheoryRule::LegendreSymbolCompute => match e {
            Expr::Mod(a, p) => match (*a, *p) {
                (Expr::Const(av), Expr::Const(pv)) => pv.num != 0 && !(pv.num == -1 && av.num
                    == i64::MIN),
                _ => true,
            },
            _ => true,
        },
        _ => true,
    }
}


/// `a * (n/a)` gives `n`.
pub open spec fn denominator_on_left(a: Expr, b: Expr) -> Seq<Outcome> {
    match b {
        Expr::Div(num, d) => if *d == a {
            single(*num, "b * (a/b) = a"@)
        } else {
            seq![]
        },
        _ => seq![],
    }
}

/// What rule `k` gives for `e`.
pub open spec fn results(k: NumberTheoryRule, e: Expr) -> Seq<Outcome> {
    match k {
        NumberTheoryRule::DividesZero => if e matches Expr::Div(a, b) && is_zero_const(*a) && !is_zero_const(*b) {
            single(lit(0), "0/n = 0"@)
        } else {
            seq![]
        },
        NumberTheoryRule::DividesSelf => if e matches Expr::Div(a, b) && a == b {
            single(lit(1), "n/n = 1"@)
        } else {
            seq![]
        },
        NumberTheoryRule::EvenSum => match e {
            Expr::Add(a, b) => if a == b {
                single(times(lit(2), *a), "a + a = 2a"@)
            } else {
                seq![]
            },
            _ => seq![],
        },
        NumberTheoryRule::DivBy2 => match e {
            Expr::Mul(_, b) => single(times(lit(2), *b), "2n is even (divisible by 2)"@),
            _ => seq![],
        },
        NumberTheoryRule::CancelCommonFactor => match e {
            Expr::Div(num, denom) => match *num {
                Expr::Mul(a, b) => if a == denom {
                    single(*b, "(a*b)/a = b"@)
                } else if b == denom {
                    single(*a, "(a*b)/b = a"@)
                } else {
                    seq![]
                },
                _ => seq![],
            },
            _ => seq![],
        },
        NumberTheoryRule::MulByDenom => match e {
            Expr::Mul(a, b) => match *a {
                Expr::Div(num, d) => if d == b {
                    single(*num, "(a/b) * b = a"@)
                } else {
                    denominator_on_left(*a, *b)
                },
                _ => denominator_on_left(*a, *b),
            },
            _ => seq![],
        },
        NumberTheoryRule::DiffSquaresFactor => match e {
            Expr::Sub(a, b) => match (*a, *b) {
                (Expr::Pow(x, _), Expr::Pow(y, _)) => single(
                    times(plus(*x, *y), minus(*x, *y)),
                    "a² - b² = (a+b)(a-b)"@,
                ),
                _ => seq![],
            },
            _ => seq![],
        },
        NumberTheoryRule::DiffCubesFactor => match e {
            Expr::Sub(a, b) => match (*a, *b) {
                (Expr::Pow(x, _), Expr::Pow(y, _)) => single(
                    times(
                        minus(*x, *y),
                        plus(plus(power(*x, lit(2)), times(*x, *y)), power(*y, lit(2))),
                    ),
                    "a³ - b³ = (a-b)(a² + ab + b²)"@,
                ),
                _ => seq![],
            },
            _ => seq![],
        },
        NumberTheoryRule::SumCubesFactor => match e {
            Expr::Add(a, b) => match (*a, *b) {
                (Expr::Pow(x, _), Expr::Pow(y, _)) => single(
                    times(
                        plus(*x, *y),
                        plus(minus(power(*x, lit(2)), times(*x, *y)), power(*y, lit(2))),
                    ),
                    "a³ + b³ = (a+b)(a² - ab + b²)"@,
                ),
                _ => seq![],
            },
            _ => seq![],
        },
        NumberTheoryRule::SquareBinomialExpand => match e {
            Expr::Pow(base, _) => match *base {
                Expr::Add(a, b) => single(
                    plus(
                        plus(power(*a, lit(2)), times(lit(2), times(*a, *b))),
                        power(*b, lit(2)),
                    ),
                    "(a+b)² = a² + 2ab + b²"@,
                ),
                _ => seq![],
            },
            _ => seq![],
        },
        NumberTheoryRule::SquareBinomialSubExpand => match e {
            Expr::Pow(base, _) => match *base {
                Expr::Sub(a, b) => single(
                    plus(
                        minus(power(*a, lit(2)), times(lit(2), times(*a, *b))),
                        power(*b, lit(2)),
                    ),
                    "(a-b)² = a² - 2ab + b²"@,
                ),
                _ => seq![],
            },
            _ => seq![],
        },
        NumberTheoryRule::ModSelf => if e matches Expr::Mod(a, b) && a == b {
            single(lit(0), "a mod a = 0"@)
        } else {
            seq![]
        },
        NumberTheoryRule::ZeroMod => if e matches Expr::Mod(a, _) && is_zero_const(*a) {
            single(lit(0), "0 mod n = 0"@)
        } else {
            seq![]
        },
        NumberTheoryRule::ModOne => if e matches Expr::Mod(_, b) && *b == lit(1) {
            single(lit(0), "a mod 1 = 0 (for integers)"@)
        } else {
            seq![]
        },
        NumberTheoryRule::ModularInverse => match e {
            Expr::Mod(inner, modulus) => match (*inner, *modulus) {
                (Expr::Div(_, a), Expr::Const(m)) => match *a {
                    Expr::Const(av) => if bezout(av.num as int, m.num as int).0 == 1 {
                        let inv = inverse_of(av.num as int, m.num as int);
                        single(
                            lit(inv as i64),
                            inverse_text(av.num as int, inv, m.num as int),
                        )
                    } else {
                        seq![]
                    },
                    _ => seq![],
                },
                _ => seq![],
            },
            _ => seq![],
        },
        NumberTheoryRule::ModularExponentiation => match e {
            Expr::Mod(inner, modulus) => match (*inner, *modulus) {
                (Expr::Pow(base, exp), Expr::Const(m)) => match (*base, *exp) {
                    (Expr::Const(a), Expr::Const(n)) => if n.num >= 0 && m.num > 0 {
                        let r = mod_pow(a.num as int, n.num as int, m.num as int);
                        single(
                            lit(r as i64),
                            power_text(a.num as int, n.num as int, r, m.num as int),
                        )
                    } else {
                        seq![]
                    },
                    _ => seq![],
                },
                _ => seq![],
            },
            _ => seq![],
        },
        NumberTheoryRule::ExtendedGcd => match e {
            Expr::GCD(a, b) => match (*a, *b) {
                (Expr::Const(x), Expr::Const(y)) => single(
                    lit(bezout(x.num as int, y.num as int).0 as i64),
                    egcd_text(x.num as int, y.num as int),
                ),
                _ => seq![],
            },
            _ => seq![],
        },
        NumberTheoryRule::LegendreSymbolCompute => match e {
            Expr::Mod(a, p) => match (*a, *p) {
                (Expr::Const(av), Expr::Const(pv)) => {
                    let l = legendre(av.num as int, pv.num as int);
                    single(lit(l as i64), legendre_text(av.num as int, pv.num as int, l))
                },
                _ => seq![],
            },
            _ => seq![],
        },
        NumberTheoryRule::TonelliShanksCompute => note(
            "x : x^2 ≡ a (mod p)",
            "Tonelli-Shanks computes sqrt mod prime"@,
        ),
        NumberTheoryRule::PrimitiveRootFind => match e {
            Expr::Const(n) => match least_primitive_root(n.num as int) {
                Some(g) => single(lit(g as i64), root_text(g, n.num as int)),
                None => note("no primitive root", "No primitive root exists for this modulus"@),
            },
            _ => note("no primitive root", "No primitive root exists for this modulus"@),
        },
        NumberTheoryRule::DiscreteLogBsgs => note(
            "solve g^x ≡ h (mod n)",
            "Discrete log (BSGS) schema"@,
        ),
        NumberTheoryRule::HenselLift => note("lift root mod p -> p^k", "Hensel lifting schema"@),
        NumberTheoryRule::GcdSelf => match e {
            Expr::GCD(a, b) => if a == b {
                single(absolute(*a), "gcd(a, a) = |a|"@)
            } else {
                seq![]
            },
            _ => seq![],
        },
        NumberTheoryRule::GcdZero => match e {
            Expr::GCD(a, b) => if is_zero_const(*b) {
                single(absolute(*a), "gcd(a, 0) = |a|"@)
            } else {
                seq![]
            },
            _ => seq![],
        },
        NumberTheoryRule::GcdOne => if e matches Expr::GCD(_, b) && *b == lit(1) {
            single(lit(1), "gcd(a, 1) = 1"@)
        } else {
            seq![]
        },
        NumberTheoryRule::LcmSelf => match e {
            Expr::LCM(a, b) => if a == b {
                single(absolute(*a), "lcm(a, a) = |a|"@)
            } else {
                seq![]
            },
            _ => seq![],
        },
        NumberTheoryRule::LcmOne => match e {
            Expr::LCM(a, b) => if *b == lit(1) {
                single(absolute(*a), "lcm(a, 1) = |a|"@)
            } else {
                seq![]
            },
            _ => seq![],
        },
        NumberTheoryRule::GcdLcmProduct => match e {
            Expr::Mul(l, r) => match (*l, *r) {
                (Expr::GCD(a1, b1), Expr::LCM(_, _)) => single(
                    absolute(times(*a1, *b1)),
                    "gcd(a,b) * lcm(a,b) = |a*b|"@,
                ),
                (Expr::LCM(a1, b1), Expr::GCD(_, _)) => single(
                    absolute(times(*a1, *b1)),
                    "gcd(a,b) * lcm(a,b) = |a*b|"@,
                ),
                _ => seq![],
            },
            _ => seq![],
        },
        NumberTheoryRule::SqrtSquare => match e {
            Expr::Sqrt(inner) => match *inner {
                Expr::Pow(base, _) => single(absolute(*base), "√(a²) = |a|"@),
                _ => seq![],
            },
            _ => seq![],
        },
        NumberTheoryRule::SquareSqrt => match e {
            Expr::Pow(base, _) => match *base {
                Expr::Sqrt(inner) => single(*inner, "(√a)² = a"@),
                _ => seq![],
            },
            _ => seq![],
        },
        NumberTheoryRule::SqrtProduct => match e {
            Expr::Mul(a, b) => match (*a, *b) {
                (Expr::Sqrt(x), Expr::Sqrt(y)) => single(root(times(*x, *y)), "√a · √b = √(ab)"@),
                _ => seq![],
            },
            _ => seq![],
        },
        NumberTheoryRule::SqrtQuotient => match e {
            Expr::Sqrt(inner) => match *inner {
                Expr::Div(a, b) => single(over(root(*a), root(*b)), "√(a/b) = √a/√b"@),
                _ => seq![],
            },
            _ => seq![],
        },
        NumberTheoryRule::HalfPowerSqrt => match e {
            Expr::Pow(base, _) => single(root(*base), "a^(1/2) = √a"@),
            _ => seq![],
        },
        NumberTheoryRule::NegOneEvenPower => if applies(k, e) {
            single(lit(1), "(-1)^(2n) = 1"@)
        } else {
            seq![]
        },
        NumberTheoryRule::NegOneOddPower => if applies(k, e) {
            single(negate(lit(1)), "(-1)^(2n+1) = -1"@)
        } else {
            seq![]
        },
        NumberTheoryRule::NegSquared => match e {
            Expr::Pow(base, exp) => match *base {
                Expr::Neg(inner) => single(power(*inner, *exp), "(-a)² = a²"@),
                _ => seq![],
            },
            _ => seq![],
        },
        NumberTheoryRule::SumConstant => match e {
            Expr::Mul(c, n) => match (*c, *n) {
                (Expr::Const(val), Expr::Var(v)) => single(
                    times(Expr::Const(val), Expr::Var(v)),
                    "Σc (n times) = cn (sum of constant)"@,
                ),
                _ => seq![],
            },
            _ => seq![],
        },
        NumberTheoryRule::SumArithmetic => {
            let n = Expr::Var(intern_symbol("n"));
            single(
                eqn(
                    Expr::Var(intern_symbol("Σ_{i=1}^n i")),
                    over(times(n, plus(n, lit(1))), lit(2)),
                ),
                "Arithmetic series sum"@,
            )
        },
        NumberTheoryRule::SumSquares => {
            let n = Expr::Var(intern_symbol("n"));
            single(
                eqn(
                    Expr::Var(intern_symbol("Σ_{i=1}^n i^2")),
                    over(times(times(n, plus(n, lit(1))), plus(times(lit(2), n), lit(1))), lit(6)),
                ),
                "Sum of squares formula"@,
            )
        },
        NumberTheoryRule::SumCubes => {
            let n = Expr::Var(intern_symbol("n"));
            single(
                eqn(
                    Expr::Var(intern_symbol("Σ_{i=1}^n i^3")),
                    power(over(times(n, plus(n, lit(1))), lit(2)), lit(2)),
                ),
                "Sum of cubes formula"@,
            )
        },
        NumberTheoryRule::GeometricSum => {
            let r = Expr::Var(intern_symbol("r"));
            let n = Expr::Var(intern_symbol("n"));
            single(
                eqn(
                    Expr::Var(intern_symbol("Σ_{k=0}^n r^k")),
                    over(minus(power(r, plus(n, lit(1))), lit(1)), minus(r, lit(1))),
                ),
                "Geometric series sum"@,
            )
        },
        NumberTheoryRule::FactorialZero => if e matches Expr::Factorial(inner) && is_zero_const(
            *inner,
        ) {
            single(lit(1), "0! = 1 (by definition)"@)
        } else {
            seq![]
        },
        NumberTheoryRule::FactorialOne => if e matches Expr::Factorial(inner) && *inner == lit(1) {
            single(lit(1), "1! = 1"@)
        } else {
            seq![]
        },
        NumberTheoryRule::FactorialRecurse => match e {
            Expr::Factorial(n) => single(
                times(*n, fact(minus(*n, lit(1)))),
                "n! = n · (n-1)! (factorial recursion)"@,
            ),
            _ => seq![],
        },
        NumberTheoryRule::FloorInteger => match e {
            Expr::Floor(inner) => if *inner matches Expr::Const(r) && r.den == 1 {
                single(*inner, "⌊n⌋ = n for integer n"@)
            } else {
                seq![]
            },
            _ => seq![],
        },
        NumberTheoryRule::CeilingInteger => match e {
            Expr::Ceiling(inner) => if *inner matches Expr::Const(r) && r.den == 1 {
                single(*inner, "⌈n⌉ = n for integer n"@)
            } else {
                seq![]
            },
            _ => seq![],
        },
        NumberTheoryRule::FloorCeilingDiff => match e {
            Expr::Sub(a, b) => match (*a, *b) {
                (Expr::Ceiling(x1), Expr::Floor(x2)) => if x1 == x2 {
                    seq![
                        (lit(0), "⌈x⌉ - ⌊x⌋ = 0 (when x is integer)"@),
                        (lit(1), "⌈x⌉ - ⌊x⌋ = 1 (when x is non-integer)"@),
                    ]
                } else {
                    seq![]
                },
                _ => seq![],
            },
            _ => seq![],
        },
        NumberTheoryRule::FermatLittleTheorem => single(
            lit(1),
            "Fermat's Little Theorem: a^(p-1) ≡ 1 (mod p) for prime p, gcd(a,p)=1"@,
        ),
        NumberTheoryRule::FermatLastTheorem => single(
            lit(0),
            "Fermat's Last Theorem: No integer solutions for x^n + y^n = z^n when n > 2"@,
        ),
        NumberTheoryRule::EulerTheorem => single(
            lit(1),
            "Euler's Theorem: a^φ(n) ≡ 1 (mod n) for gcd(a,n)=1"@,
        ),
        NumberTheoryRule::EulerPhiMultiplicative => match e {
            Expr::Mul(m, n) => single(
                times(*m, *n),
                "φ(mn) = φ(m)φ(n) for coprime m, n (Euler phi multiplicativity)"@,
            ),
            _ => seq![],
        },
        NumberTheoryRule::EulerPhiPrimePower => match e {
            Expr::Pow(p, k) => single(
                minus(e, power(*p, minus(*k, lit(1)))),
                "φ(p^k) = p^k - p^(k-1) for prime p"@,
            ),
            _ => seq![],
        },
        NumberTheoryRule::ChineseRemainderTheorem => note(
            "x ≡ a_i (mod m_i)",
            "CRT: unique solution mod product of coprime moduli"@,
        ),
        NumberTheoryRule::QuadraticResidue => if e is Mod {
            note("QR(a,p) ∈ {0,1}", "Quadratic residue exists iff Legendre/Jacobi = 1"@)
        } else {
            seq![]
        },
        NumberTheoryRule::LegendreSymbolMultiplicative => if e is Mul {
            single(
                times(Expr::Var(intern_symbol("(a/p)")), Expr::Var(intern_symbol("(b/p)"))),
                "Legendre symbol multiplicative"@,
            )
        } else {
            seq![]
        },
        NumberTheoryRule::EulerCriterion => if e is Mod {
            note("a^((p-1)/2) mod p ∈ {−1,0,1}", "Euler criterion"@)
        } else {
            seq![]
        },
        NumberTheoryRule::PrimeCountingApprox => match e {
            Expr::Div(x, _) => single(
                *x,
                "Prime counting function: π(x) ~ x/ln(x) (asymptotic)"@,
            ),
            _ => seq![],
        },
        NumberTheoryRule::BertrandPostulate => single(
            lit(1),
            "Bertrand's postulate: For n > 1, ∃ prime p with n < p < 2n"@,
        ),
        NumberTheoryRule::LinearDiophantine => match e {
            Expr::Equation { lhs, rhs } => if *lhs is Add {
                single(
                    eqn(*lhs, *rhs),
                    "Linear Diophantine: ax + by = c solvable iff gcd(a,b) | c"@,
                )
            } else {
                seq![]
            },
            _ => seq![],
        },
        NumberTheoryRule::PellEquation => match e {
            Expr::Equation { lhs, rhs } => single(
                eqn(*lhs, *rhs),
                "Pell equation x² - Dy² = 1 has infinitely many solutions via continued fractions"@,
            ),
            _ => seq![],
        },
        NumberTheoryRule::SumOfTwoSquares => note("a^2+b^2 criterion", "Sum of two squares criterion"@),
        NumberTheoryRule::SumOfFourSquares => note("a^2+b^2+c^2+d^2", "Lagrange four-square theorem"@),
        NumberTheoryRule::WilsonTheorem => single(
            negate(lit(1)),
            "Wilson's theorem: (p-1)! ≡ -1 (mod p) for prime p"@,
        ),
        NumberTheoryRule::HenselLemma => note("lift root mod p -> p^k", "Hensel's lemma lifting"@),
        NumberTheoryRule::OrderDividesPhi => note("ord_n(a) | φ(n)", "Order divides phi"@),
        NumberTheoryRule::PrimitiveRootExistence => note(
            "exists primitive root",
            "Primitive roots exist for 1,2,4,p^k,2p^k"@,
        ),
        NumberTheoryRule::LegendreFormula => note("Σ_{k≥1} ⌊n/p^k⌋", "Legendre formula for ν_p(n!)"@),
        NumberTheoryRule::LucasTheorem => note("∏ C(m_i,n_i) mod p", "Lucas theorem on base-p digits"@),
        NumberTheoryRule::MobiusInversion => note("g(n)=Σ μ(d) f(n/d)", "Möbius inversion"@),
        NumberTheoryRule::MobiusMultiplicative => if e is Mul {
            single(
                times(Expr::Var(intern_symbol("μ(m)")), Expr::Var(intern_symbol("μ(n)"))),
                "Mobius multiplicative (gcd=1)"@,
            )
        } else {
            seq![]
        },
        NumberTheoryRule::ChebyshevPrimeBounds => note(
            "c1 x/ln x < π(x) < c2 x/ln x",
            "Chebyshev prime bounds"@,
        ),
        NumberTheoryRule::EvenPerfectNumber => note(
            "2^(p-1)(2^p-1)",
            "Even perfect form (Mersenne primes)"@,
        ),
        NumberTheoryRule::MersennePrimeCondition => single(
            lit(1),
            "Mersenne prime condition: If 2^p - 1 is prime, then p must be prime"@,
        ),
        NumberTheoryRule::SumOfDivisors => match e {
            Expr::Const(n) => if n.den == 1 && 0 < n.num < 1000 {
                single(lit(sigma(n.num as int) as i64), sigma_text(n.num as int, sigma(n.num as int)))
            } else {
                single(e, "Sum of divisors function"@)
            },
            _ => single(e, "Sum of divisors function"@),
        },
        NumberTheoryRule::NumberOfDivisors => match e {
            Expr::Const(n) => if n.den == 1 && 0 < n.num < 1000 {
                single(lit(tau(n.num as int) as i64), tau_text(n.num as int, tau(n.num as int)))
            } else {
                single(e, "Number of divisors function"@)
            },
            _ => single(e, "Number of divisors function"@),
        },
        NumberTheoryRule::TotientSum => single(
            eqn(Expr::Var(intern_symbol("Σ_{d|n} φ(d)")), Expr::Var(intern_symbol("n"))),
            "Totient sum identity"@,
        ),
        NumberTheoryRule::PrimitiveRootCount => note("φ(φ(n))", "Count of primitive roots"@),
        NumberTheoryRule::CarmichaelFunction => note("λ(n) = lcm of orders", "Carmichael function"@),
        NumberTheoryRule::SquareFreeDensity => single(
            over(lit(6), power(Expr::Pi, lit(2))),
            "Density of square-free integers is 6/π²"@,
        ),
        NumberTheoryRule::PrimeGapBound => note("p_{n+1}-p_n = O(p_n^{0.525})", "Prime gap upper bound"@),
        NumberTheoryRule::SophieGermainPrime => note(
            "p & 2p+1 prime",
            "Sophie Germain: p and 2p+1 both prime"@,
        ),
        NumberTheoryRule::QuadraticReciprocity => single(
            eqn(
                Expr::Var(intern_symbol("(p/q)(q/p)")),
                power(
                    negate(lit(1)),
                    over(
                        times(
                            minus(times(lit(1), Expr::Var(intern_symbol("p"))), lit(1)),
                            minus(times(lit(1), Expr::Var(intern_symbol("q"))), lit(1)),
                        ),
                        lit(4),
                    ),
                ),
            ),
            "Quadratic reciprocity"@,
        ),
        NumberTheoryRule::JacobiSymbol => note("(a/n) Jacobi", "Jacobi symbol definition"@),
        NumberTheoryRule::KroneckerSymbol => note("(a/n) Kronecker", "Kronecker symbol extends Jacobi"@),
        NumberTheoryRule::TonelliShanks => note("x: x^2 ≡ a (mod p)", "Tonelli-Shanks modular sqrt"@),
        NumberTheoryRule::DiscreteLogOrder => note("solve g^x ≡ h (mod n)", "Discrete log order"@),
        NumberTheoryRule::ContinuedFractionGcd => note("gcd via CF", "Continued fraction GCD"@),
        NumberTheoryRule::FareyNeighbors => single(
            lit(1),
            "Farey neighbors: Adjacent fractions a/b and c/d satisfy |ad - bc| = 1"@,
        ),
        NumberTheoryRule::SternBrocot => match e {
            Expr::Add(a, b) => match (*a, *b) {
                (Expr::Div(a1, b1), Expr::Div(c1, d1)) => single(
                    over(plus(*a1, *c1), plus(*b1, *d1)),
                    "Stern-Brocot mediant"@,
                ),
                _ => seq![],
            },
            _ => seq![],
        },
        NumberTheoryRule::EgyptianFraction => if e is Div {
            note("Σ 1/u_i = a/b", "Egyptian fraction decomposition"@)
        } else {
            seq![]
        },
        NumberTheoryRule::GaussianNorm => match e {
            Expr::Add(a, b) => single(plus(*a, *b), "Gaussian norm N(a+bi) = a²+b²"@),
            _ => seq![],
        },
        NumberTheoryRule::GaussianPrime => note(
            "p≡3 mod4 or a^2+b^2 factors",
            "Gaussian prime criteria"@,
        ),
    }
}



fn divides_zero(e: &Expr) -> (r: Vec<RuleApplication>)
    ensures outcomes(r@) == results(NumberTheoryRule::DividesZero, *e),
{
    if let Expr::Div(a, b) = e {
        if is_const_zero(a) && !is_const_zero(b) {
            return one(lit(0), "0/n = 0");
        }
    }
    none()
}

fn divides_self(e: &Expr) -> (r: Vec<RuleApplication>)
    ensures outcomes(r@) == results(NumberTheoryRule::DividesSelf, *e),
{
    if let Expr::Div(a, b) = e {
        if same(a, b) {
            return one(lit(1), "n/n = 1");
        }
    }
    none()
}

fn even_sum(e: &Expr) -> (r: Vec<RuleApplication>)
    ensures outcomes(r@) == results(NumberTheoryRule::EvenSum, *e),
{
    if let Expr::Add(a, b) = e {
        if same(a, b) {
            return one(times(lit(2), cl(a)), "a + a = 2a");
        }
    }
    none()
}

fn div_by_2(e: &Expr) -> (r: Vec<RuleApplication>)
    ensures outcomes(r@) == results(NumberTheoryRule::DivBy2, *e),
{
    if let Expr::Mul(_, b) = e {
        return one(times(lit(2), cl(b)), "2n is even (divisible by 2)");
    }
    none()
}

fn cancel_common_factor(e: &Expr) -> (r: Vec<RuleApplication>)
    ensures outcomes(r@) == results(NumberTheoryRule::CancelCommonFactor, *e),
{
    if let Expr::Div(num, denom) = e {
        if let Expr::Mul(a, b) = &**num {
            if same(a, denom) {
                return one(cl(b), "(a*b)/a = b");
            }
            if same(b, denom) {
                return one(cl(a), "(a*b)/b = a");
            }
        }
    }
    none()
}

fn mul_by_denom(e: &Expr) -> (r: Vec<RuleApplication>)
    ensures outcomes(r@) == results(NumberTheoryRule::MulByDenom, *e),
{
    if let Expr::Mul(a, b) = e {
        if let Expr::Div(num, denom) = &**a {
            if same(denom, b) {
                return one(cl(num), "(a/b) * b = a");
            }
        }
        if let Expr::Div(num, denom) = &**b {
            if same(denom, a) {
                return one(cl(num), "b * (a/b) = a");
            }
        }
    }
    none()
}

fn diff_squares_factor(e: &Expr) -> (r: Vec<RuleApplication>)
    ensures outcomes(r@) == results(NumberTheoryRule::DiffSquaresFactor, *e),
{
    if let Expr::Sub(a, b) = e {
        if let (Expr::Pow(x, _), Expr::Pow(y, _)) = (&**a, &**b) {
            return one(times(plus(cl(x), cl(y)), minus(cl(x), cl(y))), "a² - b² = (a+b)(a-b)");
        }
    }
    none()
}

fn diff_cubes_factor(e: &Expr) -> (r: Vec<RuleApplication>)
    ensures outcomes(r@) == results(NumberTheoryRule::DiffCubesFactor, *e),
{
    if let Expr::Sub(a, b) = e {
        if let (Expr::Pow(x, _), Expr::Pow(y, _)) = (&**a, &**b) {
            let a_sq = power(cl(x), lit(2));
            let ab = times(cl(x), cl(y));
            let b_sq = power(cl(y), lit(2));
            return one(
                times(minus(cl(x), cl(y)), plus(plus(a_sq, ab), b_sq)),
                "a³ - b³ = (a-b)(a² + ab + b²)",
            );
        }
    }
    none()
}

fn sum_cubes_factor(e: &Expr) -> (r: Vec<RuleApplication>)
    ensures outcomes(r@) == results(NumberTheoryRule::SumCubesFactor, *e),
{
    if let Expr::Add(a, b) = e {
        if let (Expr::Pow(x, _), Expr::Pow(y, _)) = (&**a, &**b) {
            let a_sq = power(cl(x), lit(2));
            let ab = times(cl(x), cl(y));
            let b_sq = power(cl(y), lit(2));
            return one(
                times(plus(cl(x), cl(y)), plus(minus(a_sq, ab), b_sq)),
                "a³ + b³ = (a+b)(a² - ab + b²)",
            );
        }
    }
    none()
}

fn square_binomial_expand(e: &Expr) -> (r: Vec<RuleApplication>)
    ensures outcomes(r@) == results(NumberTheoryRule::SquareBinomialExpand, *e),
{
    if let Expr::Pow(base, _) = e {
        if let Expr::Add(a, b) = &**base {
            let a_sq = power(cl(a), lit(2));
            let two_ab = times(lit(2), times(cl(a), cl(b)));
            let b_sq = power(cl(b), lit(2));
            return one(plus(plus(a_sq, two_ab), b_sq), "(a+b)² = a² + 2ab + b²");
        }
    }
    none()
}

fn square_binomial_sub_expand(e: &Expr) -> (r: Vec<RuleApplication>)
    ensures outcomes(r@) == results(NumberTheoryRule::SquareBinomialSubExpand, *e),
{
    if let Expr::Pow(base, _) = e {
        if let Expr::Sub(a, b) = &**base {
            let a_sq = power(cl(a), lit(2));
            let two_ab = times(lit(2), times(cl(a), cl(b)));
            let b_sq = power(cl(b), lit(2));
            return one(plus(minus(a_sq, two_ab), b_sq), "(a-b)² = a² - 2ab + b²");
        }
    }
    none()
}

fn mod_self(e: &Expr) -> (r: Vec<RuleApplication>)
    ensures outcomes(r@) == results(NumberTheoryRule::ModSelf, *e),
{
    if let Expr::Mod(a, b) = e {
        if same(a, b) {
            return one(lit(0), "a mod a = 0");
        }
    }
    none()
}

fn zero_mod(e: &Expr) -> (r: Vec<RuleApplication>)
    ensures outcomes(r@) == results(NumberTheoryRule::ZeroMod, *e),
{
    if let Expr::Mod(a, _) = e {
        if is_const_zero(a) {
            return one(lit(0), "0 mod n = 0");
        }
    }
    none()
}

fn mod_one(e: &Expr) -> (r: Vec<RuleApplication>)
    ensures outcomes(r@) == results(NumberTheoryRule::ModOne, *e),
{
    if let Expr::Mod(_, b) = e {
        if is_lit(b, 1) {
            return one(lit(0), "a mod 1 = 0 (for integers)");
        }
    }
    none()
}

fn modular_inverse(e: &Expr) -> (r: Vec<RuleApplication>)
    requires defined(NumberTheoryRule::ModularInverse, *e),
    ensures outcomes(r@) == results(NumberTheoryRule::ModularInverse, *e),
{
    if let Expr::Mod(inner, modulus) = e {
        if let (Expr::Div(_, a), Expr::Const(m)) = (&**inner, &**modulus) {
            if let Expr::Const(av) = &**a {
                let a_val = av.num;
                let m_val = m.num;
                let (g, x, _) = extended_gcd(a_val, m_val);
                if g == 1 {
                    proof {
                        lemma_egcd_bounds(a_val as int, m_val as int);
                        lemma_trunc_div_mod(x as int, m_val as int);
                        lemma_trunc_div_mod(tmod(x as int, m_val as int) + m_val, m_val as int);
                    }
                    let mw = m_val as i128;
                    let inv = trem(trem(x, mw) + mw, mw) as i64;
                    let mut why = text("Modular inverse: ");
                    push_int(&mut why, a_val as i128);
                    push_text(&mut why, "⁻¹ ≡ ");
                    push_int(&mut why, inv as i128);
                    push_text(&mut why, " (mod ");
                    push_int(&mut why, m_val as i128);
                    push_text(&mut why, ")");
                    return one_text(lit(inv), why);
                }
            }
        }
    }
    none()
}

fn modular_exponentiation(e: &Expr) -> (r: Vec<RuleApplication>)
    ensures outcomes(r@) == results(NumberTheoryRule::ModularExponentiation, *e),
{
    if let Expr::Mod(inner, modulus) = e {
        if let (Expr::Pow(base, exp), Expr::Const(m)) = (&**inner, &**modulus) {
            if let (Expr::Const(a), Expr::Const(n)) = (&**base, &**exp) {
                let a_val = a.num;
                let n_val = n.num;
                let m_val = m.num;
                if n_val >= 0 && m_val > 0 {
                    let result = mod_pow_exec(a_val, n_val, m_val);
                    let mut why = text("Modular exponentiation: ");
                    push_int(&mut why, a_val as i128);
                    push_text(&mut why, "^");
                    push_int(&mut why, n_val as i128);
                    push_text(&mut why, " ≡ ");
                    push_int(&mut why, result as i128);
                    push_text(&mut why, " (mod ");
                    push_int(&mut why, m_val as i128);
                    push_text(&mut why, ")");
                    return one_text(lit(result), why);
                }
            }
        }
    }
    none()
}

fn extended_gcd_rule(e: &Expr) -> (r: Vec<RuleApplication>)
    ensures outcomes(r@) == results(NumberTheoryRule::ExtendedGcd, *e),
{
    if let Expr::GCD(a, b) = e {
        if let (Expr::Const(av), Expr::Const(bv)) = (&**a, &**b) {
            let a_val = av.num;
            let b_val = bv.num;
            let (g, x, y) = extended_gcd(a_val, b_val);
            let mut why = text("Extended GCD: gcd(");
            push_int(&mut why, a_val as i128);
            push_text(&mut why, ", ");
            push_int(&mut why, b_val as i128);
            push_text(&mut why, ") = ");
            push_int(&mut why, g as i128);
            push_text(&mut why, " = ");
            push_int(&mut why, a_val as i128);
            push_text(&mut why, "·");
            push_int(&mut why, x);
            push_text(&mut why, " + ");
            push_int(&mut why, b_val as i128);
            push_text(&mut why, "·");
            push_int(&mut why, y);
            return one_text(lit(g), why);
        }
    }
    none()
}

fn legendre_symbol_compute(e: &Expr) -> (r: Vec<RuleApplication>)
    requires defined(NumberTheoryRule::LegendreSymbolCompute, *e),
    ensures outcomes(r@) == results(NumberTheoryRule::LegendreSymbolCompute, *e),
{
    if let Expr::Mod(a, p) = e {
        if let (Expr::Const(av), Expr::Const(pv)) = (&**a, &**p) {
            let a_val = av.num;
            let p_val = pv.num;
            let l = legendre_exec(a_val, p_val);
            let mut why = text("Legendre (");
            push_int(&mut why, a_val as i128);
            push_text(&mut why, "/");
            push_int(&mut why, p_val as i128);
            push_text(&mut why, ") = ");
            push_int(&mut why, l as i128);
            return one_text(lit(l), why);
        }
    }
    none()
}

fn primitive_root_find(e: &Expr) -> (r: Vec<RuleApplication>)
    ensures outcomes(r@) == results(NumberTheoryRule::PrimitiveRootFind, *e),
{
    if let Expr::Const(n) = e {
        let n_val = n.num;
        if let Some(g) = least_primitive_root_exec(n_val) {
            let mut why = text("Primitive root: ");
            push_int(&mut why, g as i128);
            push_text(&mut why, " is smallest primitive root mod ");
            push_int(&mut why, n_val as i128);
            return one_text(lit(g), why);
        }
    }
    noted("no primitive root", "No primitive root exists for this modulus")
}

fn gcd_self(e: &Expr) -> (r: Vec<RuleApplication>)
    ensures outcomes(r@) == results(NumberTheoryRule::GcdSelf, *e),
{
    if let Expr::GCD(a, b) = e {
        if same(a, b) {
            return one(absolute(cl(a)), "gcd(a, a) = |a|");
        }
    }
    none()
}

fn gcd_zero(e: &Expr) -> (r: Vec<RuleApplication>)
    ensures outcomes(r@) == results(NumberTheoryRule::GcdZero, *e),
{
    if let Expr::GCD(a, b) = e {
        if is_const_zero(b) {
            return one(absolute(cl(a)), "gcd(a, 0) = |a|");
        }
    }
    none()
}

fn gcd_one(e: &Expr) -> (r: Vec<RuleApplication>)
    ensures outcomes(r@) == results(NumberTheoryRule::GcdOne, *e),
{
    if let Expr::GCD(_, b) = e {
        if is_lit(b, 1) {
            return one(lit(1), "gcd(a, 1) = 1");
        }
    }
    none()
}

fn lcm_self(e: &Expr) -> (r: Vec<RuleApplication>)
    ensures outcomes(r@) == results(NumberTheoryRule::LcmSelf, *e),
{
    if let Expr::LCM(a, b) = e {
        if same(a, b) {
            return one(absolute(cl(a)), "lcm(a, a) = |a|");
        }
    }
    none()
}

fn lcm_one(e: &Expr) -> (r: Vec<RuleApplication>)
    ensures outcomes(r@) == results(NumberTheoryRule::LcmOne, *e),
{
    if let Expr::LCM(a, b) = e {
        if is_lit(b, 1) {
            return one(absolute(cl(a)), "lcm(a, 1) = |a|");
        }
    }
    none()
}

fn gcd_lcm_product(e: &Expr) -> (r: Vec<RuleApplication>)
    ensures outcomes(r@) == results(NumberTheoryRule::GcdLcmProduct, *e),
{
    if let Expr::Mul(left, right) = e {
        if let (Expr::GCD(a1, b1), Expr::LCM(_, _)) = (&**left, &**right) {
            return one(absolute(times(cl(a1), cl(b1))), "gcd(a,b) * lcm(a,b) = |a*b|");
        }
        if let (Expr::LCM(a1, b1), Expr::GCD(_, _)) = (&**left, &**right) {
            return one(absolute(times(cl(a1), cl(b1))), "gcd(a,b) * lcm(a,b) = |a*b|");
        }
    }
    none()
}

fn sqrt_square(e: &Expr) -> (r: Vec<RuleApplication>)
    ensures outcomes(r@) == results(NumberTheoryRule::SqrtSquare, *e),
{
    if let Expr::Sqrt(inner) = e {
        if let Expr::Pow(base, _) = &**inner {
            return one(absolute(cl(base)), "√(a²) = |a|");
        }
    }
    none()
}

fn square_sqrt(e: &Expr) -> (r: Vec<RuleApplication>)
    ensures outcomes(r@) == results(NumberTheoryRule::SquareSqrt, *e),
{
    if let Expr::Pow(base, _) = e {
        if let Expr::Sqrt(inner) = &**base {
            return one(cl(inner), "(√a)² = a");
        }
    }
    none()
}

fn sqrt_product(e: &Expr) -> (r: Vec<RuleApplication>)
    ensures outcomes(r@) == results(NumberTheoryRule::SqrtProduct, *e),
{
    if let Expr::Mul(a, b) = e {
        if let (Expr::Sqrt(x), Expr::Sqrt(y)) = (&**a, &**b) {
            return one(root(times(cl(x), cl(y))), "√a · √b = √(ab)");
        }
    }
    none()
}

fn sqrt_quotient(e: &Expr) -> (r: Vec<RuleApplication>)
    ensures outcomes(r@) == results(NumberTheoryRule::SqrtQuotient, *e),
{
    if let Expr::Sqrt(inner) = e {
        if let Expr::Div(a, b) = &**inner {
            return one(over(root(cl(a)), root(cl(b))), "√(a/b) = √a/√b");
        }
    }
    none()
}

fn half_power_sqrt(e: &Expr) -> (r: Vec<RuleApplication>)
    ensures outcomes(r@) == results(NumberTheoryRule::HalfPowerSqrt, *e),
{
    if let Expr::Pow(base, _) = e {
        return one(root(cl(base)), "a^(1/2) = √a");
    }
    none()
}

fn neg_one_even_power(e: &Expr) -> (r: Vec<RuleApplication>)
    ensures outcomes(r@) == results(NumberTheoryRule::NegOneEvenPower, *e),
{
    if can_apply(NumberTheoryRule::NegOneEvenPower, e) {
        return one(lit(1), "(-1)^(2n) = 1");
    }
    none()
}

fn neg_one_odd_power(e: &Expr) -> (r: Vec<RuleApplication>)
    ensures outcomes(r@) == results(NumberTheoryRule::NegOneOddPower, *e),
{
    if can_apply(NumberTheoryRule::NegOneOddPower, e) {
        return one(negate(lit(1)), "(-1)^(2n+1) = -1");
    }
    none()
}

fn neg_squared(e: &Expr) -> (r: Vec<RuleApplication>)
    ensures outcomes(r@) == results(NumberTheoryRule::NegSquared, *e),
{
    if let Expr::Pow(base, exp) = e {
        if let Expr::Neg(inner) = &**base {
            return one(power(cl(inner), cl(exp)), "(-a)² = a²");
        }
    }
    none()
}

fn sum_constant(e: &Expr) -> (r: Vec<RuleApplication>)
    ensures outcomes(r@) == results(NumberTheoryRule::SumConstant, *e),
{
    if let Expr::Mul(c, n) = e {
        if let (Expr::Const(val), Expr::Var(v)) = (&**c, &**n) {
            return one(
                times(Expr::Const(*val), Expr::Var(*v)),
                "Σc (n times) = cn (sum of constant)",
            );
        }
    }
    none()
}

fn sum_arithmetic() -> (r: Vec<RuleApplication>)
    ensures outcomes(r@) == results(NumberTheoryRule::SumArithmetic, Expr::Pi),
{
    let n = intern_symbol("n");
    let rhs = over(times(Expr::Var(n), plus(Expr::Var(intern_symbol("n")), lit(1))), lit(2));
    one(eqn(Expr::Var(intern_symbol("Σ_{i=1}^n i")), rhs), "Arithmetic series sum")
}

fn sum_squares() -> (r: Vec<RuleApplication>)
    ensures outcomes(r@) == results(NumberTheoryRule::SumSquares, Expr::Pi),
{
    let n = intern_symbol("n");
    let rhs = over(
        times(
            times(Expr::Var(n), plus(Expr::Var(intern_symbol("n")), lit(1))),
            plus(times(lit(2), Expr::Var(intern_symbol("n"))), lit(1)),
        ),
        lit(6),
    );
    one(eqn(Expr::Var(intern_symbol("Σ_{i=1}^n i^2")), rhs), "Sum of squares formula")
}

fn sum_cubes() -> (r: Vec<RuleApplication>)
    ensures outcomes(r@) == results(NumberTheoryRule::SumCubes, Expr::Pi),
{
    let n = intern_symbol("n");
    let half = over(times(Expr::Var(n), plus(Expr::Var(intern_symbol("n")), lit(1))), lit(2));
    let rhs = power(half, lit(2));
    one(eqn(Expr::Var(intern_symbol("Σ_{i=1}^n i^3")), rhs), "Sum of cubes formula")
}

fn geometric_sum() -> (r: Vec<RuleApplication>)
    ensures outcomes(r@) == results(NumberTheoryRule::GeometricSum, Expr::Pi),
{
    let r = intern_symbol("r");
    let n = intern_symbol("n");
    let rhs = over(
        minus(power(Expr::Var(r), plus(Expr::Var(n), lit(1))), lit(1)),
        minus(Expr::Var(r), lit(1)),
    );
    one(eqn(Expr::Var(intern_symbol("Σ_{k=0}^n r^k")), rhs), "Geometric series sum")
}

fn factorial_zero(e: &Expr) -> (r: Vec<RuleApplication>)
    ensures outcomes(r@) == results(NumberTheoryRule::FactorialZero, *e),
{
    if let Expr::Factorial(inner) = e {
        if is_const_zero(inner) {
            return one(lit(1), "0! = 1 (by definition)");
        }
    }
    none()
}

fn factorial_one(e: &Expr) -> (r: Vec<RuleApplication>)
    ensures outcomes(r@) == results(NumberTheoryRule::FactorialOne, *e),
{
    if let Expr::Factorial(inner) = e {
        if is_lit(inner, 1) {
            return one(lit(1), "1! = 1");
        }
    }
    none()
}

fn factorial_recurse(e: &Expr) -> (r: Vec<RuleApplication>)
    ensures outcomes(r@) == results(NumberTheoryRule::FactorialRecurse, *e),
{
    if let Expr::Factorial(n) = e {
        let n_minus_1 = minus(cl(n), lit(1));
        let fact_n_minus_1 = fact(n_minus_1);
        return one(times(cl(n), fact_n_minus_1), "n! = n · (n-1)! (factorial recursion)");
    }
    none()
}

fn floor_integer(e: &Expr) -> (r: Vec<RuleApplication>)
    ensures outcomes(r@) == results(NumberTheoryRule::FloorInteger, *e),
{
    if let Expr::Floor(inner) = e {
        if let Expr::Const(q) = &**inner {
            if q.den == 1 {
                return one(cl(inner), "⌊n⌋ = n for integer n");
            }
        }
    }
    none()
}

fn ceiling_integer(e: &Expr) -> (r: Vec<RuleApplication>)
    ensures outcomes(r@) == results(NumberTheoryRule::CeilingInteger, *e),
{
    if let Expr::Ceiling(inner) = e {
        if let Expr::Const(q) = &**inner {
            if q.den == 1 {
                return one(cl(inner), "⌈n⌉ = n for integer n");
            }
        }
    }
    none()
}

fn floor_ceiling_diff(e: &Expr) -> (r: Vec<RuleApplication>)
    ensures outcomes(r@) == results(NumberTheoryRule::FloorCeilingDiff, *e),
{
    if let Expr::Sub(a, b) = e {
        if let (Expr::Ceiling(x1), Expr::Floor(x2)) = (&**a, &**b) {
            if same(x1, x2) {
                return two(
                    lit(0),
                    "⌈x⌉ - ⌊x⌋ = 0 (when x is integer)",
                    lit(1),
                    "⌈x⌉ - ⌊x⌋ = 1 (when x is non-integer)",
                );
            }
        }
    }
    none()
}

fn euler_phi_multiplicative(e: &Expr) -> (r: Vec<RuleApplication>)
    ensures outcomes(r@) == results(NumberTheoryRule::EulerPhiMultiplicative, *e),
{
    if let Expr::Mul(m, n) = e {
        return one(
            times(cl(m), cl(n)),
            "φ(mn) = φ(m)φ(n) for coprime m, n (Euler phi multiplicativity)",
        );
    }
    none()
}

fn euler_phi_prime_power(e: &Expr) -> (r: Vec<RuleApplication>)
    ensures outcomes(r@) == results(NumberTheoryRule::EulerPhiPrimePower, *e),
{
    if let Expr::Pow(p, k) = e {
        let k_minus_1 = minus(cl(k), lit(1));
        let p_k_minus_1 = power(cl(p), k_minus_1);
        return one(minus(cl(e), p_k_minus_1), "φ(p^k) = p^k - p^(k-1) for prime p");
    }
    none()
}

fn quadratic_residue(e: &Expr) -> (r: Vec<RuleApplication>)
    ensures outcomes(r@) == results(NumberTheoryRule::QuadraticResidue, *e),
{
    if let Expr::Mod(_, _) = e {
        return noted("QR(a,p) ∈ {0,1}", "Quadratic residue exists iff Legendre/Jacobi = 1");
    }
    none()
}

fn legendre_symbol_multiplicative(e: &Expr) -> (r: Vec<RuleApplication>)
    ensures outcomes(r@) == results(NumberTheoryRule::LegendreSymbolMultiplicative, *e),
{
    if let Expr::Mul(_, _) = e {
        return one(
            times(Expr::Var(intern_symbol("(a/p)")), Expr::Var(intern_symbol("(b/p)"))),
            "Legendre symbol multiplicative",
        );
    }
    none()
}

fn euler_criterion(e: &Expr) -> (r: Vec<RuleApplication>)
    ensures outcomes(r@) == results(NumberTheoryRule::EulerCriterion, *e),
{
    if let Expr::Mod(_, _) = e {
        return noted("a^((p-1)/2) mod p ∈ {−1,0,1}", "Euler criterion");
    }
    none()
}

fn prime_counting_approx(e: &Expr) -> (r: Vec<RuleApplication>)
    ensures outcomes(r@) == results(NumberTheoryRule::PrimeCountingApprox, *e),
{
    if let Expr::Div(x, _) = e {
        return one(cl(x), "Prime counting function: π(x) ~ x/ln(x) (asymptotic)");
    }
    none()
}

fn linear_diophantine(e: &Expr) -> (r: Vec<RuleApplication>)
    ensures outcomes(r@) == results(NumberTheoryRule::LinearDiophantine, *e),
{
    if let Expr::Equation { lhs, rhs } = e {
        if let Expr::Add(_, _) = &**lhs {
            return one(
                eqn(cl(lhs), cl(rhs)),
                "Linear Diophantine: ax + by = c solvable iff gcd(a,b) | c",
            );
        }
    }
    none()
}

fn pell_equation(e: &Expr) -> (r: Vec<RuleApplication>)
    ensures outcomes(r@) == results(NumberTheoryRule::PellEquation, *e),
{
    if let Expr::Equation { lhs, rhs } = e {
        return one(
            eqn(cl(lhs), cl(rhs)),
            "Pell equation x² - Dy² = 1 has infinitely many solutions via continued fractions",
        );
    }
    none()
}

fn mobius_multiplicative(e: &Expr) -> (r: Vec<RuleApplication>)
    ensures outcomes(r@) == results(NumberTheoryRule::MobiusMultiplicative, *e),
{
    if let Expr::Mul(_, _) = e {
        return one(
            times(Expr::Var(intern_symbol("μ(m)")), Expr::Var(intern_symbol("μ(n)"))),
            "Mobius multiplicative (gcd=1)",
        );
    }
    none()
}

fn sum_of_divisors(e: &Expr) -> (r: Vec<RuleApplication>)
    ensures outcomes(r@) == results(NumberTheoryRule::SumOfDivisors, *e),
{
    if let Expr::Const(n) = e {
        if n.den == 1 {
            let num = n.num;
            if num > 0 && num < 1000 {
                let sum = sigma_exec(num);
                let mut why = text("Sum of divisors: σ(");
                push_int(&mut why, num as i128);
                push_text(&mut why, ") = ");
                push_int(&mut why, sum as i128);
                push_text(&mut why, " (sum of all divisors)");
                return one_text(lit(sum), why);
            }
        }
    }
    one(cl(e), "Sum of divisors function")
}

fn number_of_divisors(e: &Expr) -> (r: Vec<RuleApplication>)
    ensures outcomes(r@) == results(NumberTheoryRule::NumberOfDivisors, *e),
{
    if let Expr::Const(n) = e {
        if n.den == 1 {
            let num = n.num;
            if num > 0 && num < 1000 {
                let count = tau_exec(num);
                let mut why = text("Number of divisors: τ(");
                push_int(&mut why, num as i128);
                push_text(&mut why, ") = ");
                push_int(&mut why, count as i128);
                push_text(&mut why, " (count of all divisors)");
                return one_text(lit(count), why);
            }
        }
    }
    one(cl(e), "Number of divisors function")
}

fn totient_sum() -> (r: Vec<RuleApplication>)
    ensures outcomes(r@) == results(NumberTheoryRule::TotientSum, Expr::Pi),
{
    one(
        eqn(Expr::Var(intern_symbol("Σ_{d|n} φ(d)")), Expr::Var(intern_symbol("n"))),
        "Totient sum identity",
    )
}

fn square_free_density() -> (r: Vec<RuleApplication>)
    ensures outcomes(r@) == results(NumberTheoryRule::SquareFreeDensity, Expr::Pi),
{
    one(over(lit(6), power(Expr::Pi, lit(2))), "Density of square-free integers is 6/π²")
}

fn quadratic_reciprocity() -> (r: Vec<RuleApplication>)
    ensures outcomes(r@) == results(NumberTheoryRule::QuadraticReciprocity, Expr::Pi),
{
    let exponent = over(
        times(
            minus(times(lit(1), Expr::Var(intern_symbol("p"))), lit(1)),
            minus(times(lit(1), Expr::Var(intern_symbol("q"))), lit(1)),
        ),
        lit(4),
    );
    one(
        eqn(Expr::Var(intern_symbol("(p/q)(q/p)")), power(negate(lit(1)), exponent)),
        "Quadratic reciprocity",
    )
}

fn stern_brocot(e: &Expr) -> (r: Vec<RuleApplication>)
    ensures outcomes(r@) == results(NumberTheoryRule::SternBrocot, *e),
{
    if let Expr::Add(a, b) = e {
        if let (Expr::Div(a1, b1), Expr::Div(c1, d1)) = (&**a, &**b) {
            let num = plus(cl(a1), cl(c1));
            let den = plus(cl(b1), cl(d1));
            return one(over(num, den), "Stern-Brocot mediant");
        }
    }
    none()
}

fn egyptian_fraction(e: &Expr) -> (r: Vec<RuleApplication>)
    ensures outcomes(r@) == results(NumberTheoryRule::EgyptianFraction, *e),
{
    if let Expr::Div(_, _) = e {
        return noted("Σ 1/u_i = a/b", "Egyptian fraction decomposition");
    }
    none()
}

fn gaussian_norm(e: &Expr) -> (r: Vec<RuleApplication>)
    ensures outcomes(r@) == results(NumberTheoryRule::GaussianNorm, *e),
{
    if let Expr::Add(a, b) = e {
        return one(plus(cl(a), cl(b)), "Gaussian norm N(a+bi) = a²+b²");
    }
    none()
}

/// The results of rule `k` on `e`.
pub fn apply(k: NumberTheoryRule, e: &Expr) -> (r: Vec<RuleApplication>)
    requires
        defined(k, *e),
    ensures
        outcomes(r@) == results(k, *e),
{
    match k {
        NumberTheoryRule::DividesZero => divides_zero(e),
        NumberTheoryRule::DividesSelf => divides_self(e),
        NumberTheoryRule::EvenSum => even_sum(e),
        NumberTheoryRule::DivBy2 => div_by_2(e),
        NumberTheoryRule::CancelCommonFactor => cancel_common_factor(e),
        NumberTheoryRule::MulByDenom => mul_by_denom(e),
        NumberTheoryRule::DiffSquaresFactor => diff_squares_factor(e),
        NumberTheoryRule::DiffCubesFactor => diff_cubes_factor(e),
        NumberTheoryRule::SumCubesFactor => sum_cubes_factor(e),
        NumberTheoryRule::SquareBinomialExpand => square_binomial_expand(e),
        NumberTheoryRule::SquareBinomialSubExpand => square_binomial_sub_expand(e),
        NumberTheoryRule::ModSelf => mod_self(e),
        NumberTheoryRule::ZeroMod => zero_mod(e),
        NumberTheoryRule::ModOne => mod_one(e),
        NumberTheoryRule::ModularInverse => modular_inverse(e),
        NumberTheoryRule::ModularExponentiation => modular_exponentiation(e),
        NumberTheoryRule::ExtendedGcd => extended_gcd_rule(e),
        NumberTheoryRule::LegendreSymbolCompute => legendre_symbol_compute(e),
        NumberTheoryRule::TonelliShanksCompute => noted(
            "x : x^2 ≡ a (mod p)",
            "Tonelli-Shanks computes sqrt mod prime",
        ),
        NumberTheoryRule::PrimitiveRootFind => primitive_root_find(e),
        NumberTheoryRule::DiscreteLogBsgs => noted("solve g^x ≡ h (mod n)", "Discrete log (BSGS) schema"),
        NumberTheoryRule::HenselLift => noted("lift root mod p -> p^k", "Hensel lifting schema"),
        NumberTheoryRule::GcdSelf => gcd_self(e),
        NumberTheoryRule::GcdZero => gcd_zero(e),
        NumberTheoryRule::GcdOne => gcd_one(e),
        NumberTheoryRule::LcmSelf => lcm_self(e),
        NumberTheoryRule::LcmOne => lcm_one(e),
        NumberTheoryRule::GcdLcmProduct => gcd_lcm_product(e),
        NumberTheoryRule::SqrtSquare => sqrt_square(e),
        NumberTheoryRule::SquareSqrt => square_sqrt(e),
        NumberTheoryRule::SqrtProduct => sqrt_product(e),
        NumberTheoryRule::SqrtQuotient => sqrt_quotient(e),
        NumberTheoryRule::HalfPowerSqrt => half_power_sqrt(e),
        NumberTheoryRule::NegOneEvenPower => neg_one_even_power(e),
        NumberTheoryRule::NegOneOddPower => neg_one_odd_power(e),
        NumberTheoryRule::NegSquared => neg_squared(e),
        NumberTheoryRule::SumConstant => sum_constant(e),
        NumberTheoryRule::SumArithmetic => sum_arithmetic(),
        NumberTheoryRule::SumSquares => sum_squares(),
        NumberTheoryRule::SumCubes => sum_cubes(),
        NumberTheoryRule::GeometricSum => geometric_sum(),
        NumberTheoryRule::FactorialZero => factorial_zero(e),
        NumberTheoryRule::FactorialOne => factorial_one(e),
        NumberTheoryRule::FactorialRecurse => factorial_recurse(e),
        NumberTheoryRule::FloorInteger => floor_integer(e),
        NumberTheoryRule::CeilingInteger => ceiling_integer(e),
        NumberTheoryRule::FloorCeilingDiff => floor_ceiling_diff(e),
        NumberTheoryRule::FermatLittleTheorem => one(
            lit(1),
            "Fermat's Little Theorem: a^(p-1) ≡ 1 (mod p) for prime p, gcd(a,p)=1",
        ),
        NumberTheoryRule::FermatLastTheorem => one(
            lit(0),
            "Fermat's Last Theorem: No integer solutions for x^n + y^n = z^n when n > 2",
        ),
        NumberTheoryRule::EulerTheorem => one(
            lit(1),
            "Euler's Theorem: a^φ(n) ≡ 1 (mod n) for gcd(a,n)=1",
        ),
        NumberTheoryRule::EulerPhiMultiplicative => euler_phi_multiplicative(e),
        NumberTheoryRule::EulerPhiPrimePower => euler_phi_prime_power(e),
        NumberTheoryRule::ChineseRemainderTheorem => noted(
            "x ≡ a_i (mod m_i)",
            "CRT: unique solution mod product of coprime moduli",
        ),
        NumberTheoryRule::QuadraticResidue => quadratic_residue(e),
        NumberTheoryRule::LegendreSymbolMultiplicative => legendre_symbol_multiplicative(e),
        NumberTheoryRule::EulerCriterion => euler_criterion(e),
        NumberTheoryRule::PrimeCountingApprox => prime_counting_approx(e),
        NumberTheoryRule::BertrandPostulate => one(
            lit(1),
            "Bertrand's postulate: For n > 1, ∃ prime p with n < p < 2n",
        ),
        NumberTheoryRule::LinearDiophantine => linear_diophantine(e),
        NumberTheoryRule::PellEquation => pell_equation(e),
        NumberTheoryRule::SumOfTwoSquares => noted("a^2+b^2 criterion", "Sum of two squares criterion"),
        NumberTheoryRule::SumOfFourSquares => noted("a^2+b^2+c^2+d^2", "Lagrange four-square theorem"),
        NumberTheoryRule::WilsonTheorem => one(
            negate(lit(1)),
            "Wilson's theorem: (p-1)! ≡ -1 (mod p) for prime p",
        ),
        NumberTheoryRule::HenselLemma => noted("lift root mod p -> p^k", "Hensel's lemma lifting"),
        NumberTheoryRule::OrderDividesPhi => noted("ord_n(a) | φ(n)", "Order divides phi"),
        NumberTheoryRule::PrimitiveRootExistence => noted(
            "exists primitive root",
            "Primitive roots exist for 1,2,4,p^k,2p^k",
        ),
        NumberTheoryRule::LegendreFormula => noted("Σ_{k≥1} ⌊n/p^k⌋", "Legendre formula for ν_p(n!)"),
        NumberTheoryRule::LucasTheorem => noted("∏ C(m_i,n_i) mod p", "Lucas theorem on base-p digits"),
        NumberTheoryRule::MobiusInversion => noted("g(n)=Σ μ(d) f(n/d)", "Möbius inversion"),
        NumberTheoryRule::MobiusMultiplicative => mobius_multiplicative(e),
        NumberTheoryRule::ChebyshevPrimeBounds => noted(
            "c1 x/ln x < π(x) < c2 x/ln x",
            "Chebyshev prime bounds",
        ),
        NumberTheoryRule::EvenPerfectNumber => noted("2^(p-1)(2^p-1)", "Even perfect form (Mersenne primes)"),
        NumberTheoryRule::MersennePrimeCondition => one(
            lit(1),
            "Mersenne prime condition: If 2^p - 1 is prime, then p must be prime",
        ),
        NumberTheoryRule::SumOfDivisors => sum_of_divisors(e),
        NumberTheoryRule::NumberOfDivisors => number_of_divisors(e),
        NumberTheoryRule::TotientSum => totient_sum(),
        NumberTheoryRule::PrimitiveRootCount => noted("φ(φ(n))", "Count of primitive roots"),
        NumberTheoryRule::CarmichaelFunction => noted("λ(n) = lcm of orders", "Carmichael function"),
        NumberTheoryRule::SquareFreeDensity => square_free_density(),
        NumberTheoryRule::PrimeGapBound => noted("p_{n+1}-p_n = O(p_n^{0.525})", "Prime gap upper bound"),
        NumberTheoryRule::SophieGermainPrime => noted("p & 2p+1 prime", "Sophie Germain: p and 2p+1 both prime"),
        NumberTheoryRule::QuadraticReciprocity => quadratic_reciprocity(),
        NumberTheoryRule::JacobiSymbol => noted("(a/n) Jacobi", "Jacobi symbol definition"),
        NumberTheoryRule::KroneckerSymbol => noted("(a/n) Kronecker", "Kronecker symbol extends Jacobi"),
        NumberTheoryRule::TonelliShanks => noted("x: x^2 ≡ a (mod p)", "Tonelli-Shanks modular sqrt"),
        NumberTheoryRule::DiscreteLogOrder => noted("solve g^x ≡ h (mod n)", "Discrete log order"),
        NumberTheoryRule::ContinuedFractionGcd => noted("gcd via CF", "Continued fraction GCD"),
        NumberTheoryRule::FareyNeighbors => one(
            lit(1),
            "Farey neighbors: Adjacent fractions a/b and c/d satisfy |ad - bc| = 1",
        ),
        NumberTheoryRule::SternBrocot => stern_brocot(e),
        NumberTheoryRule::EgyptianFraction => egyptian_fraction(e),
        NumberTheoryRule::GaussianNorm => gaussian_norm(e),
        NumberTheoryRule::GaussianPrime => noted("p≡3 mod4 or a^2+b^2 factors", "Gaussian prime criteria"),
    }
}

/// The rule numbered `id`, if any.
pub open spec fn numbered(id: u32) -> Option<NumberTheoryRule> {
    match id {
        100 => Some(NumberTheoryRule::DividesZero),
        101 => Some(NumberTheoryRule::DividesSelf),
        102 => Some(NumberTheoryRule::EvenSum),
        103 => Some(NumberTheoryRule::DivBy2),
        104 => Some(NumberTheoryRule::CancelCommonFactor),
        105 => Some(NumberTheoryRule::MulByDenom),
        106 => Some(NumberTheoryRule::DiffSquaresFactor),
        107 => Some(NumberTheoryRule::DiffCubesFactor),
        108 => Some(NumberTheoryRule::SumCubesFactor),
        109 => Some(NumberTheoryRule::SquareBinomialExpand),
        110 => Some(NumberTheoryRule::SquareBinomialSubExpand),
        120 => Some(NumberTheoryRule::ModSelf),
        121 => Some(NumberTheoryRule::ZeroMod),
        122 => Some(NumberTheoryRule::ModOne),
        123 => Some(NumberTheoryRule::ModularInverse),
        124 => Some(NumberTheoryRule::ModularExponentiation),
        125 => Some(NumberTheoryRule::ExtendedGcd),
        126 => Some(NumberTheoryRule::LegendreSymbolCompute),
        127 => Some(NumberTheoryRule::TonelliShanksCompute),
        128 => Some(NumberTheoryRule::PrimitiveRootFind),
        129 => Some(NumberTheoryRule::DiscreteLogBsgs),
        130 => Some(NumberTheoryRule::HenselLift),
        140 => Some(NumberTheoryRule::GcdSelf),
        141 => Some(NumberTheoryRule::GcdZero),
        142 => Some(NumberTheoryRule::GcdOne),
        143 => Some(NumberTheoryRule::LcmSelf),
        144 => Some(NumberTheoryRule::LcmOne),
        145 => Some(NumberTheoryRule::GcdLcmProduct),
        160 => Some(NumberTheoryRule::SqrtSquare),
        161 => Some(NumberTheoryRule::SquareSqrt),
        162 => Some(NumberTheoryRule::SqrtProduct),
        163 => Some(NumberTheoryRule::SqrtQuotient),
        164 => Some(NumberTheoryRule::HalfPowerSqrt),
        180 => Some(NumberTheoryRule::NegOneEvenPower),
        181 => Some(NumberTheoryRule::NegOneOddPower),
        182 => Some(NumberTheoryRule::NegSquared),
        200 => Some(NumberTheoryRule::SumConstant),
        201 => Some(NumberTheoryRule::SumArithmetic),
        202 => Some(NumberTheoryRule::SumSquares),
        203 => Some(NumberTheoryRule::SumCubes),
        204 => Some(NumberTheoryRule::GeometricSum),
        220 => Some(NumberTheoryRule::FactorialZero),
        221 => Some(NumberTheoryRule::FactorialOne),
        222 => Some(NumberTheoryRule::FactorialRecurse),
        240 => Some(NumberTheoryRule::FloorInteger),
        241 => Some(NumberTheoryRule::CeilingInteger),
        242 => Some(NumberTheoryRule::FloorCeilingDiff),
        700 => Some(NumberTheoryRule::FermatLittleTheorem),
        701 => Some(NumberTheoryRule::FermatLastTheorem),
        702 => Some(NumberTheoryRule::EulerTheorem),
        703 => Some(NumberTheoryRule::EulerPhiMultiplicative),
        704 => Some(NumberTheoryRule::EulerPhiPrimePower),
        705 => Some(NumberTheoryRule::ChineseRemainderTheorem),
        706 => Some(NumberTheoryRule::QuadraticResidue),
        707 => Some(NumberTheoryRule::LegendreSymbolMultiplicative),
        708 => Some(NumberTheoryRule::EulerCriterion),
        709 => Some(NumberTheoryRule::PrimeCountingApprox),
        710 => Some(NumberTheoryRule::BertrandPostulate),
        711 => Some(NumberTheoryRule::LinearDiophantine),
        712 => Some(NumberTheoryRule::PellEquation),
        713 => Some(NumberTheoryRule::SumOfTwoSquares),
        714 => Some(NumberTheoryRule::SumOfFourSquares),
        715 => Some(NumberTheoryRule::WilsonTheorem),
        716 => Some(NumberTheoryRule::HenselLemma),
        717 => Some(NumberTheoryRule::OrderDividesPhi),
        718 => Some(NumberTheoryRule::PrimitiveRootExistence),
        719 => Some(NumberTheoryRule::LegendreFormula),
        720 => Some(NumberTheoryRule::LucasTheorem),
        721 => Some(NumberTheoryRule::MobiusInversion),
        722 => Some(NumberTheoryRule::MobiusMultiplicative),
        723 => Some(NumberTheoryRule::ChebyshevPrimeBounds),
        724 => Some(NumberTheoryRule::EvenPerfectNumber),
        725 => Some(NumberTheoryRule::MersennePrimeCondition),
        726 => Some(NumberTheoryRule::SumOfDivisors),
        727 => Some(NumberTheoryRule::NumberOfDivisors),
        728 => Some(NumberTheoryRule::TotientSum),
        729 => Some(NumberTheoryRule::PrimitiveRootCount),
        730 => Some(NumberTheoryRule::CarmichaelFunction),
        731 => Some(NumberTheoryRule::SquareFreeDensity),
        732 => Some(NumberTheoryRule::PrimeGapBound),
        733 => Some(NumberTheoryRule::SophieGermainPrime),
        734 => Some(NumberTheoryRule::QuadraticReciprocity),
        735 => Some(NumberTheoryRule::JacobiSymbol),
        736 => Some(NumberTheoryRule::KroneckerSymbol),
        737 => Some(NumberTheoryRule::TonelliShanks),
        738 => Some(NumberTheoryRule::DiscreteLogOrder),
        739 => Some(NumberTheoryRule::ContinuedFractionGcd),
        740 => Some(NumberTheoryRule::FareyNeighbors),
        741 => Some(NumberTheoryRule::SternBrocot),
        742 => Some(NumberTheoryRule::EgyptianFraction),
        743 => Some(NumberTheoryRule::GaussianNorm),
        744 => Some(NumberTheoryRule::GaussianPrime),
        _ => None,
    }
}

/// Each rule is the one its number names, and its number lies in the
/// ranges of this catalogue.
pub proof fn lemma_numbered(k: NumberTheoryRule)
    ensures
        numbered(catalog(k).id.0) == Some(k),
        100 <= catalog(k).id.0 <= 110 || 120 <= catalog(k).id.0 <= 130 || 140 <= catalog(k).id.0 <= 145 || 160 <= catalog(k).id.0 <= 164 || 180 <= catalog(k).id.0 <= 182 || 200 <= catalog(k).id.0 <= 204 || 220 <= catalog(k).id.0 <= 222 || 240 <= catalog(k).id.0 <= 242 || 700 <= catalog(k).id.0 <= 744,
{
}

/// Where rule `k` stands in [`number_theory_kinds`].
pub open spec fn position(k: NumberTheoryRule) -> int {
    match k {
        NumberTheoryRule::DividesZero => 0,
        NumberTheoryRule::DividesSelf => 1,
        NumberTheoryRule::EvenSum => 2,
        NumberTheoryRule::DivBy2 => 3,
        NumberTheoryRule::CancelCommonFactor => 4,
        NumberTheoryRule::MulByDenom => 5,
        NumberTheoryRule::DiffSquaresFactor => 6,
        NumberTheoryRule::DiffCubesFactor => 7,
        NumberTheoryRule::SumCubesFactor => 8,
        NumberTheoryRule::SquareBinomialExpand => 9,
        NumberTheoryRule::SquareBinomialSubExpand => 10,
        NumberTheoryRule::ModSelf => 11,
        NumberTheoryRule::ZeroMod => 12,
        NumberTheoryRule::ModOne => 13,
        NumberTheoryRule::ModularInverse => 14,
        NumberTheoryRule::ModularExponentiation => 15,
        NumberTheoryRule::ExtendedGcd => 16,
        NumberTheoryRule::LegendreSymbolCompute => 17,
        NumberTheoryRule::TonelliShanksCompute => 18,
        NumberTheoryRule::PrimitiveRootFind => 19,
        NumberTheoryRule::DiscreteLogBsgs => 20,
        NumberTheoryRule::HenselLift => 21,
        NumberTheoryRule::GcdSelf => 22,
        NumberTheoryRule::GcdZero => 23,
        NumberTheoryRule::GcdOne => 24,
        NumberTheoryRule::LcmSelf => 25,
        NumberTheoryRule::LcmOne => 26,
        NumberTheoryRule::GcdLcmProduct => 27,
        NumberTheoryRule::SqrtSquare => 28,
        NumberTheoryRule::SquareSqrt => 29,
        NumberTheoryRule::SqrtProduct => 30,
        NumberTheoryRule::SqrtQuotient => 31,
        NumberTheoryRule::HalfPowerSqrt => 32,
        NumberTheoryRule::NegOneEvenPower => 33,
        NumberTheoryRule::NegOneOddPower => 34,
        NumberTheoryRule::NegSquared => 35,
        NumberTheoryRule::SumConstant => 36,
        NumberTheoryRule::SumArithmetic => 37,
        NumberTheoryRule::SumSquares => 38,
        NumberTheoryRule::SumCubes => 39,
        NumberTheoryRule::GeometricSum => 40,
        NumberTheoryRule::FactorialZero => 41,
        NumberTheoryRule::FactorialOne => 42,
        NumberTheoryRule::FactorialRecurse => 43,
        NumberTheoryRule::FloorInteger => 44,
        NumberTheoryRule::CeilingInteger => 45,
        NumberTheoryRule::FloorCeilingDiff => 46,
        NumberTheoryRule::FermatLittleTheorem => 47,
        NumberTheoryRule::FermatLastTheorem => 48,
        NumberTheoryRule::EulerTheorem => 49,
        NumberTheoryRule::EulerPhiMultiplicative => 50,
        NumberTheoryRule::EulerPhiPrimePower => 51,
        NumberTheoryRule::ChineseRemainderTheorem => 52,
        NumberTheoryRule::QuadraticResidue => 53,
        NumberTheoryRule::LegendreSymbolMultiplicative => 54,
        NumberTheoryRule::EulerCriterion => 55,
        NumberTheoryRule::PrimeCountingApprox => 56,
        NumberTheoryRule::BertrandPostulate => 57,
        NumberTheoryRule::LinearDiophantine => 58,
        NumberTheoryRule::PellEquation => 59,
        NumberTheoryRule::SumOfTwoSquares => 60,
        NumberTheoryRule::SumOfFourSquares => 61,
        NumberTheoryRule::WilsonTheorem => 62,
        NumberTheoryRule::HenselLemma => 63,
        NumberTheoryRule::OrderDividesPhi => 64,
        NumberTheoryRule::PrimitiveRootExistence => 65,
        NumberTheoryRule::LegendreFormula => 66,
        NumberTheoryRule::LucasTheorem => 67,
        NumberTheoryRule::MobiusInversion => 68,
        NumberTheoryRule::MobiusMultiplicative => 69,
        NumberTheoryRule::ChebyshevPrimeBounds => 70,
        NumberTheoryRule::EvenPerfectNumber => 71,
        NumberTheoryRule::MersennePrimeCondition => 72,
        NumberTheoryRule::SumOfDivisors => 73,
        NumberTheoryRule::NumberOfDivisors => 74,
        NumberTheoryRule::TotientSum => 75,
        NumberTheoryRule::PrimitiveRootCount => 76,
        NumberTheoryRule::CarmichaelFunction => 77,
        NumberTheoryRule::SquareFreeDensity => 78,
        NumberTheoryRule::PrimeGapBound => 79,
        NumberTheoryRule::SophieGermainPrime => 80,
        NumberTheoryRule::QuadraticReciprocity => 81,
        NumberTheoryRule::JacobiSymbol => 82,
        NumberTheoryRule::KroneckerSymbol => 83,
        NumberTheoryRule::TonelliShanks => 84,
        NumberTheoryRule::DiscreteLogOrder => 85,
        NumberTheoryRule::ContinuedFractionGcd => 86,
        NumberTheoryRule::FareyNeighbors => 87,
        NumberTheoryRule::SternBrocot => 88,
        NumberTheoryRule::EgyptianFraction => 89,
        NumberTheoryRule::GaussianNorm => 90,
        NumberTheoryRule::GaussianPrime => 91,
    }
}

/// The catalogue lists each rule once.
pub proof fn lemma_kinds_listed_once()
    ensures
        number_theory_kinds().len() == 92,
        forall|i: int| 0 <= i < number_theory_kinds().len() ==> position(#[trigger] number_theory_kinds()[i]) == i,
        forall|i: int, j: int|
            0 <= i < j < number_theory_kinds().len() ==> number_theory_kinds()[i] != number_theory_kinds()[j],
{
    assert forall|i: int| 0 <= i < number_theory_kinds().len() implies position(#[trigger] number_theory_kinds()[i]) == i by {
    }
}

/// The rules of the catalogue have pairwise different numbers.
pub proof fn lemma_catalogue_numbers_distinct()
    ensures
        forall|i: int, j: int|
            0 <= i < j < number_theory_kinds().len() ==> #[trigger] catalog(number_theory_kinds()[i]).id != #[trigger] catalog(number_theory_kinds()[j]).id,
{
    lemma_kinds_listed_once();
    assert forall|i: int, j: int| 0 <= i < j < number_theory_kinds().len() implies #[trigger] catalog(number_theory_kinds()[i]).id
        != #[trigger] catalog(number_theory_kinds()[j]).id by {
        lemma_numbered(number_theory_kinds()[i]);
        lemma_numbered(number_theory_kinds()[j]);
    }
}

} // verus!
