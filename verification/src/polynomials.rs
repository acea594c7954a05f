//! Polynomial rules: Vieta's formulas, symmetric polynomials, factoring,
//! rational roots, and the formulas and theorems about roots, resultants,
//! interpolation and orthogonal polynomials.
use vstd::prelude::*;
use crate::expr::{
    Expr, lit, cl, negate, root, plus, minus, times, over, power, binom, eqn, sum_over, is_pow_of,
    spec_is_pow_of, same, is_lit,
};
use crate::rule::{
    Rule, RuleKind, RuleCategory, RuleApplication, Outcome, entry, single, outcomes, none, one,
    extend_rules, note, noted,
};
use crate::symbols::{intern_symbol, named};

verus! {

/// The polynomial rules.
#[derive(Clone, Copy, PartialEq, Eq, Structural, Debug)]
pub enum PolynomialRule {
    VietaSumQuadratic,
    VietaProductQuadratic,
    VietaSumCubic,
    VietaPairsCubic,
    VietaProductCubic,
    ElementarySym1,
    ElementarySym2,
    NewtonIdentity1,
    NewtonIdentity2,
    NewtonIdentity3,
    SumSquaresSym,
    SumCubesSym,
    SumThreeCubes,
    FactorTheorem,
    RemainderTheorem,
    PolyDivIdentity,
    CompleteSquare,
    DiffNthPower,
    DiffCubes,
    SumCubes,
    SophieGermain,
    FactorByGrouping,
    SumOddPowers,
    DiffEvenPowers,
    CyclotomicFactor,
    BinomialFactor,
    QuadraticSubstitution,
    SymmetricFactor,
    PartialFractions,
    HornerMethod,
    SyntheticDivision,
    PolynomialLongDivision,
    RuffiniRule,
    RationalRootTheorem,
    IntegerRoot,
    QuadraticFormula,
    DiscriminantSign,
    DiscriminantPerfectSquare,
    CardanoFormula,
    CubicDiscriminant,
    QuarticResolvent,
    DescartesRule,
    SturmSequence,
    ResultantDefinition,
    BezoutTheorem,
    CauchyBound,
    FujiwaraBound,
    GaussLucasTheorem,
    LagrangeInterpolation,
    NewtonInterpolation,
    ChebyshevRecurrence,
    HermiteRecurrence,
    LegendreRecurrence,
    LaguerreRecurrence,
}

/// The catalogue entry of each polynomial rule.
pub open spec fn catalog(k: PolynomialRule) -> Rule {
    let kind = RuleKind::Polynomial(k);
    match k {
        PolynomialRule::VietaSumQuadratic => entry(500, "vieta_sum_quadratic", RuleCategory::AlgebraicSolving, "For ax² + bx + c = 0: r₁ + r₂ = -b/a", true, 2, kind),
        PolynomialRule::VietaProductQuadratic => entry(501, "vieta_product_quadratic", RuleCategory::AlgebraicSolving, "For ax² + bx + c = 0: r₁ · r₂ = c/a", true, 2, kind),
        PolynomialRule::VietaSumCubic => entry(502, "vieta_sum_cubic", RuleCategory::AlgebraicSolving, "For ax³ + bx² + cx + d = 0: r₁ + r₂ + r₃ = -b/a", true, 2, kind),
        PolynomialRule::VietaPairsCubic => entry(503, "vieta_pairs_cubic", RuleCategory::AlgebraicSolving, "r₁r₂ + r₂r₃ + r₁r₃ = c/a", true, 2, kind),
        PolynomialRule::VietaProductCubic => entry(504, "vieta_product_cubic", RuleCategory::AlgebraicSolving, "r₁ · r₂ · r₃ = -d/a", true, 2, kind),
        PolynomialRule::ElementarySym1 => entry(520, "elementary_sym_1", RuleCategory::AlgebraicSolving, "e₁ = Σxᵢ (sum of variables)", true, 2, kind),
        PolynomialRule::ElementarySym2 => entry(521, "elementary_sym_2", RuleCategory::AlgebraicSolving, "e₂ = Σxᵢxⱼ (sum of pairwise products)", true, 2, kind),
        PolynomialRule::NewtonIdentity1 => entry(522, "newton_identity_1", RuleCategory::AlgebraicSolving, "p₁ = e₁", true, 2, kind),
        PolynomialRule::NewtonIdentity2 => entry(523, "newton_identity_2", RuleCategory::AlgebraicSolving, "p₂ = e₁² - 2e₂", true, 3, kind),
        PolynomialRule::NewtonIdentity3 => entry(524, "newton_identity_3", RuleCategory::AlgebraicSolving, "p₃ = e₁³ - 3e₁e₂ + 3e₃", true, 3, kind),
        PolynomialRule::SumSquaresSym => entry(525, "sum_squares_sym", RuleCategory::Simplification, "x² + y² = (x+y)² - 2xy", true, 2, kind),
        PolynomialRule::SumCubesSym => entry(526, "sum_cubes_sym", RuleCategory::Simplification, "x³ + y³ = (x+y)³ - 3xy(x+y)", true, 3, kind),
        PolynomialRule::SumThreeCubes => entry(527, "sum_three_cubes", RuleCategory::Factoring, "x³+y³+z³-3xyz = (x+y+z)(x²+y²+z²-xy-yz-zx)", true, 4, kind),
        PolynomialRule::FactorTheorem => entry(540, "factor_theorem", RuleCategory::Factoring, "(x-a) | P(x) ⟺ P(a) = 0", true, 3, kind),
        PolynomialRule::RemainderTheorem => entry(541, "remainder_theorem", RuleCategory::AlgebraicSolving, "P(a) is remainder when dividing P(x) by (x-a)", false, 3, kind),
        PolynomialRule::PolyDivIdentity => entry(542, "poly_div_identity", RuleCategory::AlgebraicSolving, "P(x) = D(x)·Q(x) + R(x)", true, 4, kind),
        PolynomialRule::CompleteSquare => entry(543, "complete_square", RuleCategory::Simplification, "x² + bx = (x + b/2)² - b²/4", true, 3, kind),
        PolynomialRule::DiffNthPower => entry(544, "diff_nth_power", RuleCategory::Factoring, "xⁿ - yⁿ = (x-y)(xⁿ⁻¹ + xⁿ⁻²y + ... + yⁿ⁻¹)", true, 4, kind),
        PolynomialRule::DiffCubes => entry(545, "diff_cubes", RuleCategory::Factoring, "a³ - b³ = (a-b)(a² + ab + b²)", true, 3, kind),
        PolynomialRule::SumCubes => entry(546, "sum_cubes", RuleCategory::Factoring, "a³ + b³ = (a+b)(a² - ab + b²)", true, 3, kind),
        PolynomialRule::SophieGermain => entry(547, "sophie_germain", RuleCategory::Factoring, "a⁴ + 4b⁴ = (a² + 2b² + 2ab)(a² + 2b² - 2ab)", true, 4, kind),
        PolynomialRule::FactorByGrouping => entry(548, "factor_by_grouping", RuleCategory::Factoring, "ax + ay + bx + by = (a+b)(x+y)", true, 3, kind),
        PolynomialRule::SumOddPowers => entry(549, "sum_odd_powers", RuleCategory::Factoring, "x^(2n+1) + y^(2n+1) = (x+y)·Q(x,y)", false, 3, kind),
        PolynomialRule::DiffEvenPowers => entry(550, "diff_even_powers", RuleCategory::Factoring, "x^(2n) - y^(2n) = (x-y)(x+y)·Q(x,y)", false, 3, kind),
        PolynomialRule::CyclotomicFactor => entry(551, "cyclotomic_factor", RuleCategory::Factoring, "x^n - 1 = Π Φ_d(x) for d|n", false, 4, kind),
        PolynomialRule::BinomialFactor => entry(552, "binomial_factor", RuleCategory::Factoring, "(x+y)^n expansion via binomial theorem", false, 3, kind),
        PolynomialRule::QuadraticSubstitution => entry(553, "quadratic_substitution", RuleCategory::Factoring, "Biquadratic: x⁴ + bx² + c via u = x²", false, 2, kind),
        PolynomialRule::SymmetricFactor => entry(554, "symmetric_factor", RuleCategory::Factoring, "Symmetric polynomial factorization", false, 4, kind),
        PolynomialRule::PartialFractions => entry(555, "partial_fractions", RuleCategory::Simplification, "P(x)/Q(x) = Σ A_i/(x-r_i)^k", false, 4, kind),
        PolynomialRule::HornerMethod => entry(556, "horner_method", RuleCategory::Simplification, "P(x) = (...((a_n·x + a_{n-1})x + ...)x + a_0", false, 2, kind),
        PolynomialRule::SyntheticDivision => entry(557, "synthetic_division", RuleCategory::Simplification, "Synthetic division by (x-a)", false, 2, kind),
        PolynomialRule::PolynomialLongDivision => entry(558, "polynomial_long_division", RuleCategory::Simplification, "Long division algorithm for polynomials", false, 3, kind),
        PolynomialRule::RuffiniRule => entry(559, "ruffini_rule", RuleCategory::Simplification, "Ruffini's rule for polynomial division", false, 2, kind),
        PolynomialRule::RationalRootTheorem => entry(560, "rational_root_theorem", RuleCategory::AlgebraicSolving, "Rational roots of aₙxⁿ + ... + a₀ have form ±(factor of a₀)/(factor of aₙ)", false, 4, kind),
        PolynomialRule::IntegerRoot => entry(561, "integer_root", RuleCategory::AlgebraicSolving, "Integer roots divide constant term", false, 3, kind),
        PolynomialRule::QuadraticFormula => entry(800, "quadratic_formula", RuleCategory::EquationSolving, "x = (-b ± √(b²-4ac)) / 2a", false, 3, kind),
        PolynomialRule::DiscriminantSign => entry(801, "discriminant_sign", RuleCategory::AlgebraicSolving, "Δ > 0 ⟹ 2 real roots; Δ = 0 ⟹ 1 repeated; Δ < 0 ⟹ complex", false, 2, kind),
        PolynomialRule::DiscriminantPerfectSquare => entry(802, "discriminant_perfect_square", RuleCategory::AlgebraicSolving, "Δ = k² ⟹ rational roots", false, 2, kind),
        PolynomialRule::CardanoFormula => entry(803, "cardano_formula", RuleCategory::EquationSolving, "Cardano's formula for x³ + px + q = 0", false, 5, kind),
        PolynomialRule::CubicDiscriminant => entry(804, "cubic_discriminant", RuleCategory::AlgebraicSolving, "Cubic discriminant Δ = -4p³ - 27q²", false, 3, kind),
        PolynomialRule::QuarticResolvent => entry(805, "quartic_resolvent", RuleCategory::EquationSolving, "Resolvent cubic for quartic equations", false, 5, kind),
        PolynomialRule::DescartesRule => entry(806, "descartes_rule", RuleCategory::AlgebraicSolving, "Number of positive roots ≤ sign changes", false, 2, kind),
        PolynomialRule::SturmSequence => entry(807, "sturm_sequence", RuleCategory::AlgebraicSolving, "Sturm's theorem for counting real roots", false, 4, kind),
        PolynomialRule::ResultantDefinition => entry(808, "resultant_definition", RuleCategory::AlgebraicSolving, "Res(f,g) = 0 ⟺ f and g share a root", false, 4, kind),
        PolynomialRule::BezoutTheorem => entry(809, "bezout_theorem", RuleCategory::Simplification, "f·u + g·v = gcd(f,g) for some polynomials u,v", false, 4, kind),
        PolynomialRule::CauchyBound => entry(810, "cauchy_bound", RuleCategory::AlgebraicSolving, "Cauchy bound on polynomial roots", false, 2, kind),
        PolynomialRule::FujiwaraBound => entry(811, "fujiwara_bound", RuleCategory::AlgebraicSolving, "Fujiwara bound on polynomial roots", false, 2, kind),
        PolynomialRule::GaussLucasTheorem => entry(812, "gauss_lucas_theorem", RuleCategory::AlgebraicSolving, "Critical points in convex hull of roots", false, 3, kind),
        PolynomialRule::LagrangeInterpolation => entry(813, "lagrange_interpolation", RuleCategory::Simplification, "P(x) = Σ yᵢ Π(x-xⱼ)/(xᵢ-xⱼ)", false, 4, kind),
        PolynomialRule::NewtonInterpolation => entry(814, "newton_interpolation", RuleCategory::Simplification, "Newton form of interpolating polynomial", false, 4, kind),
        PolynomialRule::ChebyshevRecurrence => entry(815, "chebyshev_recurrence", RuleCategory::Simplification, "Chebyshev T_{n+1} = 2xT_n - T_{n-1}", false, 2, kind),
        PolynomialRule::HermiteRecurrence => entry(816, "hermite_recurrence", RuleCategory::Simplification, "Hermite H_{n+1} = 2xH_n - 2nH_{n-1}", false, 2, kind),
        PolynomialRule::LegendreRecurrence => entry(817, "legendre_recurrence", RuleCategory::Simplification, "Legendre (n+1)P_{n+1} = (2n+1)xP_n - nP_{n-1}", false, 2, kind),
        PolynomialRule::LaguerreRecurrence => entry(818, "laguerre_recurrence", RuleCategory::Simplification, "Laguerre L_{n+1} = (2n+1-x)L_n - n²L_{n-1}", false, 2, kind),
    }
}

/// On which page of the catalogue kind `k` is written out: the catalogue
/// is long, and each page is checked on its own.
pub open spec fn catalog_page(k: PolynomialRule) -> int {
    match k {
        PolynomialRule::VietaSumQuadratic
        | PolynomialRule::VietaProductQuadratic
        | PolynomialRule::VietaSumCubic
        | PolynomialRule::VietaPairsCubic
        | PolynomialRule::VietaProductCubic
        | PolynomialRule::ElementarySym1
        | PolynomialRule::ElementarySym2
        | PolynomialRule::NewtonIdentity1
        | PolynomialRule::NewtonIdentity2
        | PolynomialRule::NewtonIdentity3
        | PolynomialRule::SumSquaresSym
        | PolynomialRule::SumCubesSym
        | PolynomialRule::SumThreeCubes
        | PolynomialRule::FactorTheorem
        | PolynomialRule::RemainderTheorem
        | PolynomialRule::PolyDivIdentity
        | PolynomialRule::CompleteSquare
        | PolynomialRule::DiffNthPower
        | PolynomialRule::DiffCubes
        | PolynomialRule::SumCubes
        | PolynomialRule::SophieGermain
        | PolynomialRule::FactorByGrouping
        | PolynomialRule::SumOddPowers => 1,
        PolynomialRule::DiffEvenPowers
        | PolynomialRule::CyclotomicFactor
        | PolynomialRule::BinomialFactor
        | PolynomialRule::QuadraticSubstitution
        | PolynomialRule::SymmetricFactor
        | PolynomialRule::PartialFractions
        | PolynomialRule::HornerMethod
        | PolynomialRule::SyntheticDivision
        | PolynomialRule::PolynomialLongDivision
        | PolynomialRule::RuffiniRule
        | PolynomialRule::RationalRootTheorem
        | PolynomialRule::IntegerRoot
        | PolynomialRule::QuadraticFormula
        | PolynomialRule::DiscriminantSign
        | PolynomialRule::DiscriminantPerfectSquare
        | PolynomialRule::CardanoFormula
        | PolynomialRule::CubicDiscriminant
        | PolynomialRule::QuarticResolvent
        | PolynomialRule::DescartesRule
        | PolynomialRule::SturmSequence
        | PolynomialRule::ResultantDefinition
        | PolynomialRule::BezoutTheorem
        | PolynomialRule::CauchyBound => 2,
        PolynomialRule::FujiwaraBound
        | PolynomialRule::GaussLucasTheorem
        | PolynomialRule::LagrangeInterpolation
        | PolynomialRule::NewtonInterpolation
        | PolynomialRule::ChebyshevRecurrence
        | PolynomialRule::HermiteRecurrence
        | PolynomialRule::LegendreRecurrence
        | PolynomialRule::LaguerreRecurrence => 3,
    }
}

/// The rule of kind `k`.
pub fn describe(k: PolynomialRule) -> (r: Rule)
    ensures
        r == catalog(k),
{
    let kind = RuleKind::Polynomial(k);
    match k {
        PolynomialRule::VietaSumQuadratic => entry(500, "vieta_sum_quadratic", RuleCategory::AlgebraicSolving, "For ax² + bx + c = 0: r₁ + r₂ = -b/a", true, 2, kind),
        PolynomialRule::VietaProductQuadratic => entry(501, "vieta_product_quadratic", RuleCategory::AlgebraicSolving, "For ax² + bx + c = 0: r₁ · r₂ = c/a", true, 2, kind),
        PolynomialRule::VietaSumCubic => entry(502, "vieta_sum_cubic", RuleCategory::AlgebraicSolving, "For ax³ + bx² + cx + d = 0: r₁ + r₂ + r₃ = -b/a", true, 2, kind),
        PolynomialRule::VietaPairsCubic => entry(503, "vieta_pairs_cubic", RuleCategory::AlgebraicSolving, "r₁r₂ + r₂r₃ + r₁r₃ = c/a", true, 2, kind),
        PolynomialRule::VietaProductCubic => entry(504, "vieta_product_cubic", RuleCategory::AlgebraicSolving, "r₁ · r₂ · r₃ = -d/a", true, 2, kind),
        PolynomialRule::ElementarySym1 => entry(520, "elementary_sym_1", RuleCategory::AlgebraicSolving, "e₁ = Σxᵢ (sum of variables)", true, 2, kind),
        PolynomialRule::ElementarySym2 => entry(521, "elementary_sym_2", RuleCategory::AlgebraicSolving, "e₂ = Σxᵢxⱼ (sum of pairwise products)", true, 2, kind),
        PolynomialRule::NewtonIdentity1 => entry(522, "newton_identity_1", RuleCategory::AlgebraicSolving, "p₁ = e₁", true, 2, kind),
        PolynomialRule::NewtonIdentity2 => entry(523, "newton_identity_2", RuleCategory::AlgebraicSolving, "p₂ = e₁² - 2e₂", true, 3, kind),
        PolynomialRule::NewtonIdentity3 => entry(524, "newton_identity_3", RuleCategory::AlgebraicSolving, "p₃ = e₁³ - 3e₁e₂ + 3e₃", true, 3, kind),
        PolynomialRule::SumSquaresSym => entry(525, "sum_squares_sym", RuleCategory::Simplification, "x² + y² = (x+y)² - 2xy", true, 2, kind),
        PolynomialRule::SumCubesSym => entry(526, "sum_cubes_sym", RuleCategory::Simplification, "x³ + y³ = (x+y)³ - 3xy(x+y)", true, 3, kind),
        PolynomialRule::SumThreeCubes => entry(527, "sum_three_cubes", RuleCategory::Factoring, "x³+y³+z³-3xyz = (x+y+z)(x²+y²+z²-xy-yz-zx)", true, 4, kind),
        PolynomialRule::FactorTheorem => entry(540, "factor_theorem", RuleCategory::Factoring, "(x-a) | P(x) ⟺ P(a) = 0", true, 3, kind),
        PolynomialRule::RemainderTheorem => entry(541, "remainder_theorem", RuleCategory::AlgebraicSolving, "P(a) is remainder when dividing P(x) by (x-a)", false, 3, kind),
        PolynomialRule::PolyDivIdentity => entry(542, "poly_div_identity", RuleCategory::AlgebraicSolving, "P(x) = D(x)·Q(x) + R(x)", true, 4, kind),
        PolynomialRule::CompleteSquare => entry(543, "complete_square", RuleCategory::Simplification, "x² + bx = (x + b/2)² - b²/4", true, 3, kind),
        PolynomialRule::DiffNthPower => entry(544, "diff_nth_power", RuleCategory::Factoring, "xⁿ - yⁿ = (x-y)(xⁿ⁻¹ + xⁿ⁻²y + ... + yⁿ⁻¹)", true, 4, kind),
        PolynomialRule::DiffCubes => entry(545, "diff_cubes", RuleCategory::Factoring, "a³ - b³ = (a-b)(a² + ab + b²)", true, 3, kind),
        PolynomialRule::SumCubes => entry(546, "sum_cubes", RuleCategory::Factoring, "a³ + b³ = (a+b)(a² - ab + b²)", true, 3, kind),
        PolynomialRule::SophieGermain => entry(547, "sophie_germain", RuleCategory::Factoring, "a⁴ + 4b⁴ = (a² + 2b² + 2ab)(a² + 2b² - 2ab)", true, 4, kind),
        PolynomialRule::FactorByGrouping => entry(548, "factor_by_grouping", RuleCategory::Factoring, "ax + ay + bx + by = (a+b)(x+y)", true, 3, kind),
        PolynomialRule::SumOddPowers => entry(549, "sum_odd_powers", RuleCategory::Factoring, "x^(2n+1) + y^(2n+1) = (x+y)·Q(x,y)", false, 3, kind),
        _ => describe_page2(k),
    }
}

/// The rule of kind `k`, written out on page 2 of the catalogue or a later one.
fn describe_page2(k: PolynomialRule) -> (r: Rule)
    requires
        catalog_page(k) >= 2,
    ensures
        r == catalog(k),
{
    let kind = RuleKind::Polynomial(k);
    match k {
        PolynomialRule::DiffEvenPowers => entry(550, "diff_even_powers", RuleCategory::Factoring, "x^(2n) - y^(2n) = (x-y)(x+y)·Q(x,y)", false, 3, kind),
        PolynomialRule::CyclotomicFactor => entry(551, "cyclotomic_factor", RuleCategory::Factoring, "x^n - 1 = Π Φ_d(x) for d|n", false, 4, kind),
        PolynomialRule::BinomialFactor => entry(552, "binomial_factor", RuleCategory::Factoring, "(x+y)^n expansion via binomial theorem", false, 3, kind),
        PolynomialRule::QuadraticSubstitution => entry(553, "quadratic_substitution", RuleCategory::Factoring, "Biquadratic: x⁴ + bx² + c via u = x²", false, 2, kind),
        PolynomialRule::SymmetricFactor => entry(554, "symmetric_factor", RuleCategory::Factoring, "Symmetric polynomial factorization", false, 4, kind),
        PolynomialRule::PartialFractions => entry(555, "partial_fractions", RuleCategory::Simplification, "P(x)/Q(x) = Σ A_i/(x-r_i)^k", false, 4, kind),
        PolynomialRule::HornerMethod => entry(556, "horner_method", RuleCategory::Simplification, "P(x) = (...((a_n·x + a_{n-1})x + ...)x + a_0", false, 2, kind),
        PolynomialRule::SyntheticDivision => entry(557, "synthetic_division", RuleCategory::Simplification, "Synthetic division by (x-a)", false, 2, kind),
        PolynomialRule::PolynomialLongDivision => entry(558, "polynomial_long_division", RuleCategory::Simplification, "Long division algorithm for polynomials", false, 3, kind),
        PolynomialRule::RuffiniRule => entry(559, "ruffini_rule", RuleCategory::Simplification, "Ruffini's rule for polynomial division", false, 2, kind),
        PolynomialRule::RationalRootTheorem => entry(560, "rational_root_theorem", RuleCategory::AlgebraicSolving, "Rational roots of aₙxⁿ + ... + a₀ have form ±(factor of a₀)/(factor of aₙ)", false, 4, kind),
        PolynomialRule::IntegerRoot => entry(561, "integer_root", RuleCategory::AlgebraicSolving, "Integer roots divide constant term", false, 3, kind),
        PolynomialRule::QuadraticFormula => entry(800, "quadratic_formula", RuleCategory::EquationSolving, "x = (-b ± √(b²-4ac)) / 2a", false, 3, kind),
        PolynomialRule::DiscriminantSign => entry(801, "discriminant_sign", RuleCategory::AlgebraicSolving, "Δ > 0 ⟹ 2 real roots; Δ = 0 ⟹ 1 repeated; Δ < 0 ⟹ complex", false, 2, kind),
        PolynomialRule::DiscriminantPerfectSquare => entry(802, "discriminant_perfect_square", RuleCategory::AlgebraicSolving, "Δ = k² ⟹ rational roots", false, 2, kind),
        PolynomialRule::CardanoFormula => entry(803, "cardano_formula", RuleCategory::EquationSolving, "Cardano's formula for x³ + px + q = 0", false, 5, kind),
        PolynomialRule::CubicDiscriminant => entry(804, "cubic_discriminant", RuleCategory::AlgebraicSolving, "Cubic discriminant Δ = -4p³ - 27q²", false, 3, kind),
        PolynomialRule::QuarticResolvent => entry(805, "quartic_resolvent", RuleCategory::EquationSolving, "Resolvent cubic for quartic equations", false, 5, kind),
        PolynomialRule::DescartesRule => entry(806, "descartes_rule", RuleCategory::AlgebraicSolving, "Number of positive roots ≤ sign changes", false, 2, kind),
        PolynomialRule::SturmSequence => entry(807, "sturm_sequence", RuleCategory::AlgebraicSolving, "Sturm's theorem for counting real roots", false, 4, kind),
        PolynomialRule::ResultantDefinition => entry(808, "resultant_definition", RuleCategory::AlgebraicSolving, "Res(f,g) = 0 ⟺ f and g share a root", false, 4, kind),
        PolynomialRule::BezoutTheorem => entry(809, "bezout_theorem", RuleCategory::Simplification, "f·u + g·v = gcd(f,g) for some polynomials u,v", false, 4, kind),
        PolynomialRule::CauchyBound => entry(810, "cauchy_bound", RuleCategory::AlgebraicSolving, "Cauchy bound on polynomial roots", false, 2, kind),
        _ => describe_page3(k),
    }
}

/// The rule of kind `k`, written out on page 3 of the catalogue or a later one.
fn describe_page3(k: PolynomialRule) -> (r: Rule)
    requires
        catalog_page(k) >= 3,
    ensures
        r == catalog(k),
{
    let kind = RuleKind::Polynomial(k);
    match k {
        PolynomialRule::FujiwaraBound => entry(811, "fujiwara_bound", RuleCategory::AlgebraicSolving, "Fujiwara bound on polynomial roots", false, 2, kind),
        PolynomialRule::GaussLucasTheorem => entry(812, "gauss_lucas_theorem", RuleCategory::AlgebraicSolving, "Critical points in convex hull of roots", false, 3, kind),
        PolynomialRule::LagrangeInterpolation => entry(813, "lagrange_interpolation", RuleCategory::Simplification, "P(x) = Σ yᵢ Π(x-xⱼ)/(xᵢ-xⱼ)", false, 4, kind),
        PolynomialRule::NewtonInterpolation => entry(814, "newton_interpolation", RuleCategory::Simplification, "Newton form of interpolating polynomial", false, 4, kind),
        PolynomialRule::ChebyshevRecurrence => entry(815, "chebyshev_recurrence", RuleCategory::Simplification, "Chebyshev T_{n+1} = 2xT_n - T_{n-1}", false, 2, kind),
        PolynomialRule::HermiteRecurrence => entry(816, "hermite_recurrence", RuleCategory::Simplification, "Hermite H_{n+1} = 2xH_n - 2nH_{n-1}", false, 2, kind),
        PolynomialRule::LegendreRecurrence => entry(817, "legendre_recurrence", RuleCategory::Simplification, "Legendre (n+1)P_{n+1} = (2n+1)xP_n - nP_{n-1}", false, 2, kind),
        _ => entry(818, "laguerre_recurrence", RuleCategory::Simplification, "Laguerre L_{n+1} = (2n+1-x)L_n - n²L_{n-1}", false, 2, kind),
    }
}

/// Vieta's formulas for the roots of quadratics and cubics.
pub open spec fn vieta_kinds() -> Seq<PolynomialRule> {
    seq![
        PolynomialRule::VietaSumQuadratic,
        PolynomialRule::VietaProductQuadratic,
        PolynomialRule::VietaSumCubic,
        PolynomialRule::VietaPairsCubic,
        PolynomialRule::VietaProductCubic,
    ]
}

/// The rules of [`vieta_kinds`], in that order.
pub fn vieta_rules() -> (rules: Vec<Rule>)
    ensures
        rules@ == vieta_kinds().map_values(|k: PolynomialRule| catalog(k)),
        rules.len() == 5,
{
    let rules = vec![
        describe(PolynomialRule::VietaSumQuadratic),
        describe(PolynomialRule::VietaProductQuadratic),
        describe(PolynomialRule::VietaSumCubic),
        describe(PolynomialRule::VietaPairsCubic),
        describe(PolynomialRule::VietaProductCubic),
    ];
    proof {
        assert(rules@ =~= vieta_kinds().map_values(|k: PolynomialRule| catalog(k)));
    }
    rules
}

/// Elementary symmetric polynomials, Newton's identities and symmetric rewrites of sums of powers.
pub open spec fn symmetric_polynomial_kinds() -> Seq<PolynomialRule> {
    seq![
        PolynomialRule::ElementarySym1,
        PolynomialRule::ElementarySym2,
        PolynomialRule::NewtonIdentity1,
        PolynomialRule::NewtonIdentity2,
        PolynomialRule::NewtonIdentity3,
        PolynomialRule::SumSquaresSym,
        PolynomialRule::SumCubesSym,
        PolynomialRule::SumThreeCubes,
    ]
}

/// The rules of [`symmetric_polynomial_kinds`], in that order.
pub fn symmetric_polynomial_rules() -> (rules: Vec<Rule>)
    ensures
        rules@ == symmetric_polynomial_kinds().map_values(|k: PolynomialRule| catalog(k)),
        rules.len() == 8,
{
    let rules = vec![
        describe(PolynomialRule::ElementarySym1),
        describe(PolynomialRule::ElementarySym2),
        describe(PolynomialRule::NewtonIdentity1),
        describe(PolynomialRule::NewtonIdentity2),
        describe(PolynomialRule::NewtonIdentity3),
        describe(PolynomialRule::SumSquaresSym),
        describe(PolynomialRule::SumCubesSym),
        describe(PolynomialRule::SumThreeCubes),
    ];
    proof {
        assert(rules@ =~= symmetric_polynomial_kinds().map_values(|k: PolynomialRule| catalog(k)));
    }
    rules
}

/// Factoring identities and theorems, and schemas for division and decomposition.
pub open spec fn factoring_kinds() -> Seq<PolynomialRule> {
    seq![
        PolynomialRule::FactorTheorem,
        PolynomialRule::RemainderTheorem,
        PolynomialRule::PolyDivIdentity,
        PolynomialRule::CompleteSquare,
        PolynomialRule::DiffNthPower,
        PolynomialRule::DiffCubes,
        PolynomialRule::SumCubes,
        PolynomialRule::SophieGermain,
        PolynomialRule::FactorByGrouping,
        PolynomialRule::SumOddPowers,
        PolynomialRule::DiffEvenPowers,
        PolynomialRule::CyclotomicFactor,
        PolynomialRule::BinomialFactor,
        PolynomialRule::QuadraticSubstitution,
        PolynomialRule::SymmetricFactor,
        PolynomialRule::PartialFractions,
        PolynomialRule::HornerMethod,
        PolynomialRule::SyntheticDivision,
        PolynomialRule::PolynomialLongDivision,
        PolynomialRule::RuffiniRule,
    ]
}

/// The rules of [`factoring_kinds`], in that order.
pub fn factoring_rules() -> (rules: Vec<Rule>)
    ensures
        rules@ == factoring_kinds().map_values(|k: PolynomialRule| catalog(k)),
        rules.len() == 20,
{
    let rules = vec![
        describe(PolynomialRule::FactorTheorem),
        describe(PolynomialRule::RemainderTheorem),
        describe(PolynomialRule::PolyDivIdentity),
        describe(PolynomialRule::CompleteSquare),
        describe(PolynomialRule::DiffNthPower),
        describe(PolynomialRule::DiffCubes),
        describe(PolynomialRule::SumCubes),
        describe(PolynomialRule::SophieGermain),
        describe(PolynomialRule::FactorByGrouping),
        describe(PolynomialRule::SumOddPowers),
        describe(PolynomialRule::DiffEvenPowers),
        describe(PolynomialRule::CyclotomicFactor),
        describe(PolynomialRule::BinomialFactor),
        describe(PolynomialRule::QuadraticSubstitution),
        describe(PolynomialRule::SymmetricFactor),
        describe(PolynomialRule::PartialFractions),
        describe(PolynomialRule::HornerMethod),
        describe(PolynomialRule::SyntheticDivision),
        describe(PolynomialRule::PolynomialLongDivision),
        describe(PolynomialRule::RuffiniRule),
    ];
    proof {
        assert(rules@ =~= factoring_kinds().map_values(|k: PolynomialRule| catalog(k)));
    }
    rules
}

/// The rational root theorem and the integer root criterion.
pub open spec fn rational_root_kinds() -> Seq<PolynomialRule> {
    seq![
        PolynomialRule::RationalRootTheorem,
        PolynomialRule::IntegerRoot,
    ]
}

/// The rules of [`rational_root_kinds`], in that order.
pub fn rational_root_rules() -> (rules: Vec<Rule>)
    ensures
        rules@ == rational_root_kinds().map_values(|k: PolynomialRule| catalog(k)),
        rules.len() == 2,
{
    let rules = vec![
        describe(PolynomialRule::RationalRootTheorem),
        describe(PolynomialRule::IntegerRoot),
    ];
    proof {
        assert(rules@ =~= rational_root_kinds().map_values(|k: PolynomialRule| catalog(k)));
    }
    rules
}

/// Quadratic and cubic formulas, discriminants, root counts and bounds, resultants, interpolation and the recurrences of the classical orthogonal polynomials.
pub open spec fn advanced_polynomial_kinds() -> Seq<PolynomialRule> {
    seq![
        PolynomialRule::QuadraticFormula,
        PolynomialRule::DiscriminantSign,
        PolynomialRule::DiscriminantPerfectSquare,
        PolynomialRule::CardanoFormula,
        PolynomialRule::CubicDiscriminant,
        PolynomialRule::QuarticResolvent,
        PolynomialRule::DescartesRule,
        PolynomialRule::SturmSequence,
        PolynomialRule::ResultantDefinition,
        PolynomialRule::BezoutTheorem,
        PolynomialRule::CauchyBound,
        PolynomialRule::FujiwaraBound,
        PolynomialRule::GaussLucasTheorem,
        PolynomialRule::LagrangeInterpolation,
        PolynomialRule::NewtonInterpolation,
        PolynomialRule::ChebyshevRecurrence,
        PolynomialRule::HermiteRecurrence,
        PolynomialRule::LegendreRecurrence,
        PolynomialRule::LaguerreRecurrence,
    ]
}

/// The rules of [`advanced_polynomial_kinds`], in that order.
pub fn advanced_polynomial_rules() -> (rules: Vec<Rule>)
    ensures
        rules@ == advanced_polynomial_kinds().map_values(|k: PolynomialRule| catalog(k)),
        rules.len() == 19,
{
    let rules = vec![
        describe(PolynomialRule::QuadraticFormula),
        describe(PolynomialRule::DiscriminantSign),
        describe(PolynomialRule::DiscriminantPerfectSquare),
        describe(PolynomialRule::CardanoFormula),
        describe(PolynomialRule::CubicDiscriminant),
        describe(PolynomialRule::QuarticResolvent),
        describe(PolynomialRule::DescartesRule),
        describe(PolynomialRule::SturmSequence),
        describe(PolynomialRule::ResultantDefinition),
        describe(PolynomialRule::BezoutTheorem),
        describe(PolynomialRule::CauchyBound),
        describe(PolynomialRule::FujiwaraBound),
        describe(PolynomialRule::GaussLucasTheorem),
        describe(PolynomialRule::LagrangeInterpolation),
        describe(PolynomialRule::NewtonInterpolation),
        describe(PolynomialRule::ChebyshevRecurrence),
        describe(PolynomialRule::HermiteRecurrence),
        describe(PolynomialRule::LegendreRecurrence),
        describe(PolynomialRule::LaguerreRecurrence),
    ];
    proof {
        assert(rules@ =~= advanced_polynomial_kinds().map_values(|k: PolynomialRule| catalog(k)));
    }
    rules
}

/// All polynomial rules: Vieta, symmetric polynomials, factoring, rational roots, then the advanced rules.
pub open spec fn polynomial_kinds() -> Seq<PolynomialRule> {
    vieta_kinds() + symmetric_polynomial_kinds() + factoring_kinds() + rational_root_kinds() + advanced_polynomial_kinds()
}

/// All polynomial rules, in the order of [`polynomial_kinds`].
pub fn polynomial_rules() -> (rules: Vec<Rule>)
    ensures
        rules@ == polynomial_kinds().map_values(|k: PolynomialRule| catalog(k)),
        rules.len() == 54,
        forall|i: int|
            0 <= i < rules.len() ==> 500 <= #[trigger] rules[i].id.0 <= 527 || 540 <= rules[i].id.0 <= 561
                || 800 <= rules[i].id.0 <= 818,
        rules@ == crate::rule::polynomial_catalogue(),
        crate::rule::ids_distinct(rules@),
{
    let mut rules: Vec<Rule> = Vec::new();
    extend_rules(&mut rules, vieta_rules());
    extend_rules(&mut rules, symmetric_polynomial_rules());
    extend_rules(&mut rules, factoring_rules());
    extend_rules(&mut rules, rational_root_rules());
    extend_rules(&mut rules, advanced_polynomial_rules());
    proof {
        let f = |k: PolynomialRule| catalog(k);
        assert(rules@ =~= polynomial_kinds().map_values(f));
        assert forall|i: int| 0 <= i < rules.len() implies 500 <= #[trigger] rules[i].id.0 <= 527 || 540
            <= rules[i].id.0 <= 561 || 800 <= rules[i].id.0 <= 818 by {
            lemma_catalog_ids(polynomial_kinds()[i]);
        }
    }
    proof {
        assert(rules@ =~= crate::rule::polynomial_catalogue());
        lemma_catalogue_numbers_distinct();
        assert forall|i: int, j: int| 0 <= i < j < rules@.len() implies #[trigger] rules@[i].id
            != #[trigger] rules@[j].id by {
            assert(rules@[i] == catalog(polynomial_kinds()[i]));
            assert(rules@[j] == catalog(polynomial_kinds()[j]));
        }
    }
    rules
}

/// Every polynomial rule is numbered in `500..=527`, `540..=561` or `800..=818`.
pub proof fn lemma_catalog_ids(k: PolynomialRule)
    ensures
        500 <= catalog(k).id.0 <= 527 || 540 <= catalog(k).id.0 <= 561 || 800 <= catalog(k).id.0 <= 818,
{
}

/// Whether rule `k` matches `e`.
pub open spec fn applies(k: PolynomialRule, e: Expr) -> bool {
    match k {
        PolynomialRule::VietaSumQuadratic => e is Var,
        PolynomialRule::VietaProductQuadratic => e is Var,
        PolynomialRule::VietaSumCubic => e is Var,
        PolynomialRule::VietaPairsCubic => e is Var,
        PolynomialRule::VietaProductCubic => e is Var,
        PolynomialRule::ElementarySym1 => e is Var,
        PolynomialRule::ElementarySym2 => e is Var,
        PolynomialRule::NewtonIdentity1 => e is Var,
        PolynomialRule::NewtonIdentity2 => e is Var,
        PolynomialRule::NewtonIdentity3 => e is Var,
        PolynomialRule::SumSquaresSym => e matches Expr::Add(a, b) && spec_is_pow_of(*a, 2) && spec_is_pow_of(*b, 2),
        PolynomialRule::SumCubesSym => e matches Expr::Add(a, b) && spec_is_pow_of(*a, 3) && spec_is_pow_of(*b, 3),
        PolynomialRule::SumThreeCubes => e is Add,
        PolynomialRule::FactorTheorem => e is Var,
        PolynomialRule::RemainderTheorem => e is Var,
        PolynomialRule::PolyDivIdentity => e is Div || e is Add || e is Mul,
        PolynomialRule::CompleteSquare => e matches Expr::Add(a, b) && spec_is_pow_of(*a, 2) && linear_coefficient(*a, *b) is Some,
        PolynomialRule::DiffNthPower => e matches Expr::Sub(a, b) && *a matches Expr::Pow(_, ea) && (*b matches Expr::Pow(_, eb) && ea == eb),
        PolynomialRule::DiffCubes => e matches Expr::Sub(a, b) && spec_is_pow_of(*a, 3) && spec_is_pow_of(*b, 3),
        PolynomialRule::SumCubes => e matches Expr::Add(a, b) && spec_is_pow_of(*a, 3) && spec_is_pow_of(*b, 3),
        PolynomialRule::SophieGermain => e is Add,
        PolynomialRule::FactorByGrouping => e is Add,
        PolynomialRule::SumOddPowers => e is Add,
        PolynomialRule::DiffEvenPowers => e is Sub,
        PolynomialRule::CyclotomicFactor => e is Sub,
        PolynomialRule::BinomialFactor => e matches Expr::Pow(base, _) && (*base is Add || *base is Sub),
        PolynomialRule::QuadraticSubstitution => e is Add,
        PolynomialRule::SymmetricFactor => e is Var,
        PolynomialRule::PartialFractions => e is Div,
        PolynomialRule::HornerMethod => e is Var,
        PolynomialRule::SyntheticDivision => e is Var,
        PolynomialRule::PolynomialLongDivision => e is Div,
        PolynomialRule::RuffiniRule => e is Var,
        PolynomialRule::RationalRootTheorem => e is Var,
        PolynomialRule::IntegerRoot => e is Var,
        PolynomialRule::QuadraticFormula => e is Var,
        PolynomialRule::DiscriminantSign => e is Gt || e is Lt || e is Equation,
        PolynomialRule::DiscriminantPerfectSquare => e is Var,
        PolynomialRule::CardanoFormula => e is Pow || e is Equation,
        PolynomialRule::CubicDiscriminant => e is Var,
        PolynomialRule::QuarticResolvent => e is Var,
        PolynomialRule::DescartesRule => e is Var,
        PolynomialRule::SturmSequence => e is Var,
        PolynomialRule::ResultantDefinition => e is Var,
        PolynomialRule::BezoutTheorem => e is Var,
        PolynomialRule::CauchyBound => e is Var,
        PolynomialRule::FujiwaraBound => e is Var,
        PolynomialRule::GaussLucasTheorem => e is Var,
        PolynomialRule::LagrangeInterpolation => e is Var,
        PolynomialRule::NewtonInterpolation => e is Var,
        PolynomialRule::ChebyshevRecurrence => e is Var,
        PolynomialRule::HermiteRecurrence => e is Var,
        PolynomialRule::LegendreRecurrence => e is Var,
        PolynomialRule::LaguerreRecurrence => e is Var,
    }
}

/// Whether rule `k` matches `e`.
pub fn can_apply(k: PolynomialRule, e: &Expr) -> (r: bool)
    ensures
        r == applies(k, *e),
{
    match k {
        PolynomialRule::VietaSumQuadratic => matches!(e, Expr::Var(_)),
        PolynomialRule::VietaProductQuadratic => matches!(e, Expr::Var(_)),
        PolynomialRule::VietaSumCubic => matches!(e, Expr::Var(_)),
        PolynomialRule::VietaPairsCubic => matches!(e, Expr::Var(_)),
        PolynomialRule::VietaProductCubic => matches!(e, Expr::Var(_)),
        PolynomialRule::ElementarySym1 => matches!(e, Expr::Var(_)),
        PolynomialRule::ElementarySym2 => matches!(e, Expr::Var(_)),
        PolynomialRule::NewtonIdentity1 => matches!(e, Expr::Var(_)),
        PolynomialRule::NewtonIdentity2 => matches!(e, Expr::Var(_)),
        PolynomialRule::NewtonIdentity3 => matches!(e, Expr::Var(_)),
        PolynomialRule::SumSquaresSym => if let Expr::Add(a, b) = e { is_pow_of(a, 2) && is_pow_of(b, 2) } else { false },
        PolynomialRule::SumCubesSym => if let Expr::Add(a, b) = e { is_pow_of(a, 3) && is_pow_of(b, 3) } else { false },
        PolynomialRule::SumThreeCubes => matches!(e, Expr::Add(_, _)),
        PolynomialRule::FactorTheorem => matches!(e, Expr::Var(_)),
        PolynomialRule::RemainderTheorem => matches!(e, Expr::Var(_)),
        PolynomialRule::PolyDivIdentity => matches!(e, Expr::Div(_, _) | Expr::Add(_, _) | Expr::Mul(_, _)),
        PolynomialRule::CompleteSquare => if let Expr::Add(a, b) = e { is_pow_of(a, 2) && linear_coefficient_exec(a, b).is_some() } else { false },
        PolynomialRule::DiffNthPower => {
            if let Expr::Sub(a, b) = e {
                if let (Expr::Pow(_, ea), Expr::Pow(_, eb)) = (&**a, &**b) {
                    return same(ea, eb);
                }
            }
            false
        },
        PolynomialRule::DiffCubes => if let Expr::Sub(a, b) = e { is_pow_of(a, 3) && is_pow_of(b, 3) } else { false },
        PolynomialRule::SumCubes => if let Expr::Add(a, b) = e { is_pow_of(a, 3) && is_pow_of(b, 3) } else { false },
        PolynomialRule::SophieGermain => matches!(e, Expr::Add(_, _)),
        PolynomialRule::FactorByGrouping => matches!(e, Expr::Add(_, _)),
        PolynomialRule::SumOddPowers => matches!(e, Expr::Add(_, _)),
        PolynomialRule::DiffEvenPowers => matches!(e, Expr::Sub(_, _)),
        PolynomialRule::CyclotomicFactor => matches!(e, Expr::Sub(_, _)),
        PolynomialRule::BinomialFactor => if let Expr::Pow(base, _) = e { matches!(**base, Expr::Add(_, _) | Expr::Sub(_, _)) } else { false },
        PolynomialRule::QuadraticSubstitution => matches!(e, Expr::Add(_, _)),
        PolynomialRule::SymmetricFactor => matches!(e, Expr::Var(_)),
        PolynomialRule::PartialFractions => matches!(e, Expr::Div(_, _)),
        PolynomialRule::HornerMethod => matches!(e, Expr::Var(_)),
        PolynomialRule::SyntheticDivision => matches!(e, Expr::Var(_)),
        PolynomialRule::PolynomialLongDivision => matches!(e, Expr::Div(_, _)),
        PolynomialRule::RuffiniRule => matches!(e, Expr::Var(_)),
        PolynomialRule::RationalRootTheorem => matches!(e, Expr::Var(_)),
        PolynomialRule::IntegerRoot => matches!(e, Expr::Var(_)),
        PolynomialRule::QuadraticFormula => matches!(e, Expr::Var(_)),
        PolynomialRule::DiscriminantSign => matches!(e, Expr::Gt(_, _) | Expr::Lt(_, _) | Expr::Equation { .. }),
        PolynomialRule::DiscriminantPerfectSquare => matches!(e, Expr::Var(_)),
        PolynomialRule::CardanoFormula => matches!(e, Expr::Pow(_, _) | Expr::Equation { .. }),
        PolynomialRule::CubicDiscriminant => matches!(e, Expr::Var(_)),
        PolynomialRule::QuarticResolvent => matches!(e, Expr::Var(_)),
        PolynomialRule::DescartesRule => matches!(e, Expr::Var(_)),
        PolynomialRule::SturmSequence => matches!(e, Expr::Var(_)),
        PolynomialRule::ResultantDefinition => matches!(e, Expr::Var(_)),
        PolynomialRule::BezoutTheorem => matches!(e, Expr::Var(_)),
        PolynomialRule::CauchyBound => matches!(e, Expr::Var(_)),
        PolynomialRule::FujiwaraBound => matches!(e, Expr::Var(_)),
        PolynomialRule::GaussLucasTheorem => matches!(e, Expr::Var(_)),
        PolynomialRule::LagrangeInterpolation => matches!(e, Expr::Var(_)),
        PolynomialRule::NewtonInterpolation => matches!(e, Expr::Var(_)),
        PolynomialRule::ChebyshevRecurrence => matches!(e, Expr::Var(_)),
        PolynomialRule::HermiteRecurrence => matches!(e, Expr::Var(_)),
        PolynomialRule::LegendreRecurrence => matches!(e, Expr::Var(_)),
        PolynomialRule::LaguerreRecurrence => matches!(e, Expr::Var(_)),
    }
}

/// The binomial expansion of `(x + y)^n` as a sum over `k` from `0` to `n`.
pub open spec fn binomial_expansion(x: Expr, y: Expr, n: Expr) -> Expr {
    let k = intern_symbol("k");
    sum_over(k, lit(0), n, times(binom(n, Expr::Var(k)), times(power(x, Expr::Var(k)), power(y, minus(n, Expr::Var(k))))))
}

/// The coefficient `c` of the linear term `b` of `x² + b` with `x` the base
/// of `sq`: `b` is `c·x` or `x·c`; `None` where neither factor is `x`.
pub open spec fn linear_coefficient(sq: Expr, b: Expr) -> Option<Expr> {
    match (sq, b) {
        (Expr::Pow(x, _), Expr::Mul(c, t)) => if *t == *x {
            Some(*c)
        } else if *c == *x {
            Some(*t)
        } else {
            None
        },
        _ => None,
    }
}

/// `Σ_{k=0}^{n-1} x^(n-1-k)·y^k`: the second factor of `xⁿ - yⁿ`.
pub open spec fn power_difference_sum(x: Expr, y: Expr, n: Expr) -> Expr {
    let k = intern_symbol("k");
    let top = minus(n, lit(1));
    sum_over(k, lit(0), top, times(power(x, minus(top, Expr::Var(k))), power(y, Expr::Var(k))))
}

/// What rule `k` gives for `e`.
pub open spec fn results(k: PolynomialRule, e: Expr) -> Seq<Outcome> {
    match k {
        PolynomialRule::VietaSumQuadratic => single(
            eqn(plus(named("r1"), named("r2")), over(negate(named("b")), named("a"))),
            "Vieta (quadratic) r1+r2 = -b/a"@,
        ),
        PolynomialRule::VietaProductQuadratic => single(
            eqn(times(named("r1"), named("r2")), over(named("c"), named("a"))),
            "Vieta (quadratic) r1*r2 = c/a"@,
        ),
        PolynomialRule::VietaSumCubic => single(
            eqn(plus(plus(named("r1"), named("r2")), named("r3")), over(negate(named("b")), named("a"))),
            "Vieta (cubic) r1+r2+r3 = -b/a"@,
        ),
        PolynomialRule::VietaPairsCubic => single(
            eqn(plus(plus(times(named("r1"), named("r2")), times(named("r2"), named("r3"))), times(named("r1"), named("r3"))), over(named("c"), named("a"))),
            "Vieta (cubic) r1r2 + r2r3 + r1r3 = c/a"@,
        ),
        PolynomialRule::VietaProductCubic => single(
            eqn(times(times(named("r1"), named("r2")), named("r3")), over(negate(named("d")), named("a"))),
            "Vieta (cubic) product = -d/a"@,
        ),
        PolynomialRule::ElementarySym1 => single(
            eqn(named("e1"), named("Σx_i")),
            "e1 equals sum of variables"@,
        ),
        PolynomialRule::ElementarySym2 => single(
            eqn(named("e2"), named("Σx_ix_j")),
            "e2 equals sum of pairwise products"@,
        ),
        PolynomialRule::NewtonIdentity1 => single(
            eqn(named("p1"), named("e1")),
            "Newton: p1 = e1"@,
        ),
        PolynomialRule::NewtonIdentity2 => single(
            eqn(named("p2"), minus(power(named("e1"), lit(2)), times(lit(2), named("e2")))),
            "Newton: p2 = e1^2 - 2e2"@,
        ),
        PolynomialRule::NewtonIdentity3 => single(
            eqn(named("p3"), plus(minus(power(named("e1"), lit(3)), times(lit(3), times(named("e1"), named("e2")))), times(lit(3), named("e3")))),
            "Newton: p3 = e1^3 -3e1e2 +3e3"@,
        ),
        PolynomialRule::SumSquaresSym => match e {
            Expr::Add(a, b) => match (*a, *b) {
                (Expr::Pow(x, _), Expr::Pow(y, _)) => single(
                    minus(power(plus(*x, *y), lit(2)), times(lit(2), times(*x, *y))),
                    "x² + y² = (x+y)² - 2xy"@,
                ),
                _ => seq![],
            },
            _ => seq![],
        },
        PolynomialRule::SumCubesSym => match e {
            Expr::Add(a, b) => match (*a, *b) {
                (Expr::Pow(x, ea), Expr::Pow(y, eb)) => if *ea == lit(3) && *eb == lit(3) {
                    single(
                        minus(power(plus(*x, *y), lit(3)), times(lit(3), times(times(*x, *y), plus(*x, *y)))),
                        "x^3 + y^3 = (x+y)^3 - 3xy(x+y)"@,
                    )
                } else {
                    seq![]
                },
                _ => seq![],
            },
            _ => seq![],
        },
        PolynomialRule::SumThreeCubes => if e is Add {
            single(
                eqn(plus(plus(power(named("x"), lit(3)), power(named("y"), lit(3))), plus(power(named("z"), lit(3)), negate(times(lit(3), times(named("x"), times(named("y"), named("z"))))))), times(plus(plus(named("x"), named("y")), named("z")), plus(minus(minus(plus(power(named("x"), lit(2)), power(named("y"), lit(2))), times(named("x"), named("y"))), times(named("y"), named("z"))), minus(power(named("z"), lit(2)), times(named("x"), named("z")))))),
                "Sum of three cubes minus 3xyz factorization"@,
            )
        } else {
            seq![]
        },
        PolynomialRule::FactorTheorem => single(
            eqn(named("P(a)"), lit(0)),
            "Factor theorem: (x-a)|P(x) iff P(a)=0"@,
        ),
        PolynomialRule::RemainderTheorem => note("P(a)", "Remainder theorem: remainder is P(a)"@),
        PolynomialRule::PolyDivIdentity => single(
            eqn(named("P(x)"), plus(times(named("D(x)"), named("Q(x)")), named("R(x)"))),
            "P = D·Q + R"@,
        ),
        PolynomialRule::CompleteSquare => match e {
            Expr::Add(a, b) => match (*a, linear_coefficient(*a, *b)) {
                (Expr::Pow(base, _), Some(c)) => single(
                    minus(power(plus(*base, over(c, lit(2))), lit(2)), power(over(c, lit(2)), lit(2))),
                    "Complete the square: x² + bx = (x + b/2)² - (b/2)²"@,
                ),
                _ => seq![],
            },
            _ => seq![],
        },
        PolynomialRule::DiffNthPower => match e {
            Expr::Sub(a, b) => match (*a, *b) {
                (Expr::Pow(x, n), Expr::Pow(y, _)) => single(
                    times(minus(*x, *y), power_difference_sum(*x, *y, *n)),
                    "Difference of powers: xⁿ - yⁿ = (x-y)(xⁿ⁻¹ + xⁿ⁻²y + ... + yⁿ⁻¹)"@,
                ),
                _ => seq![],
            },
            _ => seq![],
        },
        PolynomialRule::DiffCubes => match e {
            Expr::Sub(a, b) => match (*a, *b) {
                (Expr::Pow(x, _), Expr::Pow(y, _)) => single(
                    times(minus(*x, *y), plus(plus(power(*x, lit(2)), times(*x, *y)), power(*y, lit(2)))),
                    "Difference of cubes: a³ - b³ = (a-b)(a² + ab + b²)"@,
                ),
                _ => seq![],
            },
            _ => seq![],
        },
        PolynomialRule::SumCubes => match e {
            Expr::Add(a, b) => match (*a, *b) {
                (Expr::Pow(x, _), Expr::Pow(y, _)) => single(
                    times(plus(*x, *y), plus(minus(power(*x, lit(2)), times(*x, *y)), power(*y, lit(2)))),
                    "Sum of cubes: a³ + b³ = (a+b)(a² - ab + b²)"@,
                ),
                _ => seq![],
            },
            _ => seq![],
        },
        PolynomialRule::SophieGermain => if e is Add {
            single(
                times(plus(plus(power(named("a"), lit(2)), times(lit(2), power(named("b"), lit(2)))), times(lit(2), times(named("a"), named("b")))), plus(plus(power(named("a"), lit(2)), times(lit(2), power(named("b"), lit(2)))), negate(times(lit(2), times(named("a"), named("b")))))),
                "Sophie Germain factorization"@,
            )
        } else {
            seq![]
        },
        PolynomialRule::FactorByGrouping => if e is Add {
            single(
                times(plus(named("a"), named("b")), plus(named("x"), named("y"))),
                "Factor by grouping schema"@,
            )
        } else {
            seq![]
        },
        PolynomialRule::SumOddPowers => single(times(plus(named("x"), named("y")), e), "x^{2n+1}+y^{2n+1} is divisible by (x+y)"@),
        PolynomialRule::DiffEvenPowers => single(times(times(minus(named("x"), named("y")), plus(named("x"), named("y"))), e), "x^{2n}-y^{2n} divisible by (x-y)(x+y)"@),
        PolynomialRule::CyclotomicFactor => note("Π Φ_d(x)", "Cyclotomic: x^n-1 factors into cyclotomic polynomials"@),
        PolynomialRule::BinomialFactor => match e {
            Expr::Pow(base, exp) => match *base {
                Expr::Add(x, y) => single(eqn(e, binomial_expansion(*x, *y, *exp)), "Binomial expansion"@),
                Expr::Sub(x, y) => single(eqn(e, binomial_expansion(*x, negate(*y), *exp)), "Binomial expansion"@),
                _ => seq![],
            },
            _ => seq![],
        },
        PolynomialRule::QuadraticSubstitution => note("u", "Let u = x^2 to reduce biquadratic"@),
        PolynomialRule::SymmetricFactor => note("in_terms_of_e1_e2_e3", "Express symmetric polynomial via elementary symmetric polynomials"@),
        PolynomialRule::PartialFractions => note("Σ A_i/(x-r_i)^k", "Partial fractions schematic"@),
        PolynomialRule::HornerMethod => note("nested_linear_form", "Horner form nested linear"@),
        PolynomialRule::SyntheticDivision => note("synthetic_div_result", "Synthetic division schema"@),
        PolynomialRule::PolynomialLongDivision => note("Q(x),R(x)", "Long division schema"@),
        PolynomialRule::RuffiniRule => note("ruffini_result", "Ruffini synthetic division"@),
        PolynomialRule::RationalRootTheorem => note("± factors(a0)/factors(an)", "Rational root theorem"@),
        PolynomialRule::IntegerRoot => note("divides_constant_term", "Integer roots divide constant term"@),
        PolynomialRule::QuadraticFormula => single(
            eqn(named("x"), over(plus(negate(named("b")), root(minus(power(named("b"), lit(2)), times(lit(4), times(named("a"), named("c")))))), times(lit(2), named("a")))),
            "Quadratic formula"@,
        ),
        PolynomialRule::DiscriminantSign => single(
            eqn(named("Δ"), named("{Δ>0:2 real, Δ=0:double, Δ<0:complex}")),
            "Discriminant sign cases"@,
        ),
        PolynomialRule::DiscriminantPerfectSquare => note("Δ=k^2 ⇒ rational roots", "Δ perfect square → rational roots"@),
        PolynomialRule::CardanoFormula => note("Cardano_solution", "Cardano formula schematic"@),
        PolynomialRule::CubicDiscriminant => single(
            eqn(named("Δ"), minus(times(lit(-4i64), power(named("p"), lit(3))), times(lit(27), power(named("q"), lit(2))))),
            "Cubic discriminant"@,
        ),
        PolynomialRule::QuarticResolvent => note("resolvent_cubic", "Quartic resolvent cubic"@),
        PolynomialRule::DescartesRule => note("sign_changes_bound", "Descartes' rule"@),
        PolynomialRule::SturmSequence => note("sturm_sequence", "Sturm sequence root count"@),
        PolynomialRule::ResultantDefinition => single(
            eqn(named("Res(f,g)"), lit(0)),
            "Resultant zero implies shared root"@,
        ),
        PolynomialRule::BezoutTheorem => single(
            eqn(named("f*u+g*v"), named("gcd(f,g)")),
            "Bezout identity"@,
        ),
        PolynomialRule::CauchyBound => note("cauchy_bound", "Cauchy root bound"@),
        PolynomialRule::FujiwaraBound => note("fujiwara_bound", "Fujiwara bound"@),
        PolynomialRule::GaussLucasTheorem => note("convex_hull_of_roots", "Gauss-Lucas theorem"@),
        PolynomialRule::LagrangeInterpolation => note("Σ y_i Π(x-x_j)/(x_i-x_j)", "Lagrange interpolation"@),
        PolynomialRule::NewtonInterpolation => note("Newton_divided_differences", "Newton interpolation"@),
        PolynomialRule::ChebyshevRecurrence => single(
            eqn(named("T_{n+1}"), minus(times(lit(2), times(named("x"), named("T_n"))), named("T_{n-1}"))),
            "Chebyshev recurrence"@,
        ),
        PolynomialRule::HermiteRecurrence => single(
            eqn(named("H_{n+1}"), minus(times(lit(2), times(named("x"), named("H_n"))), times(lit(2), times(named("n"), named("H_{n-1}"))))),
            "Hermite recurrence"@,
        ),
        PolynomialRule::LegendreRecurrence => single(
            eqn(times(plus(named("n"), lit(1)), named("P_{n+1}")), minus(times(plus(times(lit(2), named("n")), lit(1)), times(named("x"), named("P_n"))), times(named("n"), named("P_{n-1}")))),
            "Legendre recurrence"@,
        ),
        PolynomialRule::LaguerreRecurrence => single(
            eqn(named("L_{n+1}"), minus(times(minus(plus(times(lit(2), named("n")), lit(1)), named("x")), named("L_n")), times(power(named("n"), lit(2)), named("L_{n-1}")))),
            "Laguerre recurrence"@,
        ),
    }
}

fn vieta_sum_quadratic() -> (r: Vec<RuleApplication>)
    ensures
        outcomes(r@) == results(PolynomialRule::VietaSumQuadratic, Expr::Pi),
{
    one(
        eqn(plus(named("r1"), named("r2")), over(negate(named("b")), named("a"))),
        "Vieta (quadratic) r1+r2 = -b/a",
    )
}

fn vieta_product_quadratic() -> (r: Vec<RuleApplication>)
    ensures
        outcomes(r@) == results(PolynomialRule::VietaProductQuadratic, Expr::Pi),
{
    one(
        eqn(times(named("r1"), named("r2")), over(named("c"), named("a"))),
        "Vieta (quadratic) r1*r2 = c/a",
    )
}

fn vieta_sum_cubic() -> (r: Vec<RuleApplication>)
    ensures
        outcomes(r@) == results(PolynomialRule::VietaSumCubic, Expr::Pi),
{
    one(
        eqn(plus(plus(named("r1"), named("r2")), named("r3")), over(negate(named("b")), named("a"))),
        "Vieta (cubic) r1+r2+r3 = -b/a",
    )
}

fn vieta_pairs_cubic() -> (r: Vec<RuleApplication>)
    ensures
        outcomes(r@) == results(PolynomialRule::VietaPairsCubic, Expr::Pi),
{
    one(
        eqn(plus(plus(times(named("r1"), named("r2")), times(named("r2"), named("r3"))), times(named("r1"), named("r3"))), over(named("c"), named("a"))),
        "Vieta (cubic) r1r2 + r2r3 + r1r3 = c/a",
    )
}

fn vieta_product_cubic() -> (r: Vec<RuleApplication>)
    ensures
        outcomes(r@) == results(PolynomialRule::VietaProductCubic, Expr::Pi),
{
    one(
        eqn(times(times(named("r1"), named("r2")), named("r3")), over(negate(named("d")), named("a"))),
        "Vieta (cubic) product = -d/a",
    )
}

fn elementary_sym_1() -> (r: Vec<RuleApplication>)
    ensures
        outcomes(r@) == results(PolynomialRule::ElementarySym1, Expr::Pi),
{
    one(
        eqn(named("e1"), named("Σx_i")),
        "e1 equals sum of variables",
    )
}

fn elementary_sym_2() -> (r: Vec<RuleApplication>)
    ensures
        outcomes(r@) == results(PolynomialRule::ElementarySym2, Expr::Pi),
{
    one(
        eqn(named("e2"), named("Σx_ix_j")),
        "e2 equals sum of pairwise products",
    )
}

fn newton_identity_1() -> (r: Vec<RuleApplication>)
    ensures
        outcomes(r@) == results(PolynomialRule::NewtonIdentity1, Expr::Pi),
{
    one(
        eqn(named("p1"), named("e1")),
        "Newton: p1 = e1",
    )
}

fn newton_identity_2() -> (r: Vec<RuleApplication>)
    ensures
        outcomes(r@) == results(PolynomialRule::NewtonIdentity2, Expr::Pi),
{
    one(
        eqn(named("p2"), minus(power(named("e1"), lit(2)), times(lit(2), named("e2")))),
        "Newton: p2 = e1^2 - 2e2",
    )
}

fn newton_identity_3() -> (r: Vec<RuleApplication>)
    ensures
        outcomes(r@) == results(PolynomialRule::NewtonIdentity3, Expr::Pi),
{
    one(
        eqn(named("p3"), plus(minus(power(named("e1"), lit(3)), times(lit(3), times(named("e1"), named("e2")))), times(lit(3), named("e3")))),
        "Newton: p3 = e1^3 -3e1e2 +3e3",
    )
}

fn sum_squares_sym(e: &Expr) -> (r: Vec<RuleApplication>)
    ensures
        outcomes(r@) == results(PolynomialRule::SumSquaresSym, *e),
{
    if let Expr::Add(a, b) = e {
        if let (Expr::Pow(x, _), Expr::Pow(y, _)) = (&**a, &**b) {
            return one(
                minus(power(plus(cl(x), cl(y)), lit(2)), times(lit(2), times(cl(x), cl(y)))),
                "x² + y² = (x+y)² - 2xy",
            );
        }
    }
    none()
}

/// The coefficient of the linear term of `x² + b`.
fn linear_coefficient_exec(sq: &Expr, b: &Expr) -> (r: Option<Expr>)
    ensures
        r == linear_coefficient(*sq, *b),
{
    if let (Expr::Pow(x, _), Expr::Mul(c, t)) = (sq, b) {
        if same(t, x) {
            return Some(cl(c));
        }
        if same(c, x) {
            return Some(cl(t));
        }
    }
    None
}

/// The sum `xⁿ⁻¹ + xⁿ⁻²y + … + yⁿ⁻¹`.
fn power_difference_sum_exec(x: &Expr, y: &Expr, n: &Expr) -> (r: Expr)
    ensures
        r == power_difference_sum(*x, *y, *n),
{
    let k = intern_symbol("k");
    let top = minus(cl(n), lit(1));
    let body = times(power(cl(x), minus(cl(&top), Expr::Var(k))), power(cl(y), Expr::Var(k)));
    sum_over(k, lit(0), top, body)
}

fn sum_cubes_sym(e: &Expr) -> (r: Vec<RuleApplication>)
    ensures
        outcomes(r@) == results(PolynomialRule::SumCubesSym, *e),
{
    if let Expr::Add(a, b) = e {
        if let (Expr::Pow(x, ea), Expr::Pow(y, eb)) = (&**a, &**b) {
            if is_lit(ea, 3) && is_lit(eb, 3) {
                let sum = plus(cl(x), cl(y));
                return one(
                    minus(power(cl(&sum), lit(3)), times(lit(3), times(times(cl(x), cl(y)), sum))),
                    "x^3 + y^3 = (x+y)^3 - 3xy(x+y)",
                );
            }
        }
    }
    none()
}

fn sum_three_cubes(e: &Expr) -> (r: Vec<RuleApplication>)
    ensures
        outcomes(r@) == results(PolynomialRule::SumThreeCubes, *e),
{
    if matches!(e, Expr::Add(_, _)) {
        one(
            eqn(plus(plus(power(named("x"), lit(3)), power(named("y"), lit(3))), plus(power(named("z"), lit(3)), negate(times(lit(3), times(named("x"), times(named("y"), named("z"))))))), times(plus(plus(named("x"), named("y")), named("z")), plus(minus(minus(plus(power(named("x"), lit(2)), power(named("y"), lit(2))), times(named("x"), named("y"))), times(named("y"), named("z"))), minus(power(named("z"), lit(2)), times(named("x"), named("z")))))),
            "Sum of three cubes minus 3xyz factorization",
        )
    } else {
        none()
    }
}

fn factor_theorem() -> (r: Vec<RuleApplication>)
    ensures
        outcomes(r@) == results(PolynomialRule::FactorTheorem, Expr::Pi),
{
    one(
        eqn(named("P(a)"), lit(0)),
        "Factor theorem: (x-a)|P(x) iff P(a)=0",
    )
}

fn poly_div_identity() -> (r: Vec<RuleApplication>)
    ensures
        outcomes(r@) == results(PolynomialRule::PolyDivIdentity, Expr::Pi),
{
    one(
        eqn(named("P(x)"), plus(times(named("D(x)"), named("Q(x)")), named("R(x)"))),
        "P = D·Q + R",
    )
}

fn complete_square(e: &Expr) -> (r: Vec<RuleApplication>)
    ensures
        outcomes(r@) == results(PolynomialRule::CompleteSquare, *e),
{
    if let Expr::Add(a, b) = e {
        if let (Expr::Pow(base, _), Some(c)) = (&**a, linear_coefficient_exec(a, b)) {
            let half_b = over(c, lit(2));
            let squared = power(plus(cl(base), cl(&half_b)), lit(2));
            return one(
                minus(squared, power(half_b, lit(2))),
                "Complete the square: x² + bx = (x + b/2)² - (b/2)²",
            );
        }
    }
    none()
}

fn diff_nth_power(e: &Expr) -> (r: Vec<RuleApplication>)
    ensures
        outcomes(r@) == results(PolynomialRule::DiffNthPower, *e),
{
    if let Expr::Sub(a, b) = e {
        if let (Expr::Pow(x, n), Expr::Pow(y, _)) = (&**a, &**b) {
            return one(
                times(minus(cl(x), cl(y)), power_difference_sum_exec(x, y, n)),
                "Difference of powers: xⁿ - yⁿ = (x-y)(xⁿ⁻¹ + xⁿ⁻²y + ... + yⁿ⁻¹)",
            );
        }
    }
    none()
}

fn diff_cubes(e: &Expr) -> (r: Vec<RuleApplication>)
    ensures
        outcomes(r@) == results(PolynomialRule::DiffCubes, *e),
{
    if let Expr::Sub(a, b) = e {
        if let (Expr::Pow(x, _), Expr::Pow(y, _)) = (&**a, &**b) {
            let sum = plus(plus(power(cl(x), lit(2)), times(cl(x), cl(y))), power(cl(y), lit(2)));
            return one(
                times(minus(cl(x), cl(y)), sum),
                "Difference of cubes: a³ - b³ = (a-b)(a² + ab + b²)",
            );
        }
    }
    none()
}

fn sum_cubes(e: &Expr) -> (r: Vec<RuleApplication>)
    ensures
        outcomes(r@) == results(PolynomialRule::SumCubes, *e),
{
    if let Expr::Add(a, b) = e {
        if let (Expr::Pow(x, _), Expr::Pow(y, _)) = (&**a, &**b) {
            let diff = plus(minus(power(cl(x), lit(2)), times(cl(x), cl(y))), power(cl(y), lit(2)));
            return one(
                times(plus(cl(x), cl(y)), diff),
                "Sum of cubes: a³ + b³ = (a+b)(a² - ab + b²)",
            );
        }
    }
    none()
}

fn sophie_germain(e: &Expr) -> (r: Vec<RuleApplication>)
    ensures
        outcomes(r@) == results(PolynomialRule::SophieGermain, *e),
{
    if matches!(e, Expr::Add(_, _)) {
        one(
            times(plus(plus(power(named("a"), lit(2)), times(lit(2), power(named("b"), lit(2)))), times(lit(2), times(named("a"), named("b")))), plus(plus(power(named("a"), lit(2)), times(lit(2), power(named("b"), lit(2)))), negate(times(lit(2), times(named("a"), named("b")))))),
            "Sophie Germain factorization",
        )
    } else {
        none()
    }
}

fn factor_by_grouping(e: &Expr) -> (r: Vec<RuleApplication>)
    ensures
        outcomes(r@) == results(PolynomialRule::FactorByGrouping, *e),
{
    if matches!(e, Expr::Add(_, _)) {
        one(
            times(plus(named("a"), named("b")), plus(named("x"), named("y"))),
            "Factor by grouping schema",
        )
    } else {
        none()
    }
}

fn sum_odd_powers(e: &Expr) -> (r: Vec<RuleApplication>)
    ensures
        outcomes(r@) == results(PolynomialRule::SumOddPowers, *e),
{
    one(times(plus(named("x"), named("y")), cl(e)), "x^{2n+1}+y^{2n+1} is divisible by (x+y)")
}

fn diff_even_powers(e: &Expr) -> (r: Vec<RuleApplication>)
    ensures
        outcomes(r@) == results(PolynomialRule::DiffEvenPowers, *e),
{
    one(times(times(minus(named("x"), named("y")), plus(named("x"), named("y"))), cl(e)), "x^{2n}-y^{2n} divisible by (x-y)(x+y)")
}

fn binomial_factor(e: &Expr) -> (r: Vec<RuleApplication>)
    ensures
        outcomes(r@) == results(PolynomialRule::BinomialFactor, *e),
{
    if let Expr::Pow(base, exp) = e {
        if let Expr::Add(x, y) | Expr::Sub(x, y) = &**base {
            let k = intern_symbol("k");
            let second = if let Expr::Sub(_, _) = &**base { negate(cl(y)) } else { cl(y) };
            let term = times(
                binom(cl(exp), Expr::Var(k)),
                times(power(cl(x), Expr::Var(k)), power(second, minus(cl(exp), Expr::Var(k)))),
            );
            let sum = sum_over(k, lit(0), cl(exp), term);
            return one(eqn(cl(e), sum), "Binomial expansion");
        }
    }
    none()
}

fn quadratic_formula() -> (r: Vec<RuleApplication>)
    ensures
        outcomes(r@) == results(PolynomialRule::QuadraticFormula, Expr::Pi),
{
    one(
        eqn(named("x"), over(plus(negate(named("b")), root(minus(power(named("b"), lit(2)), times(lit(4), times(named("a"), named("c")))))), times(lit(2), named("a")))),
        "Quadratic formula",
    )
}

fn discriminant_sign() -> (r: Vec<RuleApplication>)
    ensures
        outcomes(r@) == results(PolynomialRule::DiscriminantSign, Expr::Pi),
{
    one(
        eqn(named("Δ"), named("{Δ>0:2 real, Δ=0:double, Δ<0:complex}")),
        "Discriminant sign cases",
    )
}

fn cubic_discriminant() -> (r: Vec<RuleApplication>)
    ensures
        outcomes(r@) == results(PolynomialRule::CubicDiscriminant, Expr::Pi),
{
    one(
        eqn(named("Δ"), minus(times(lit(-4i64), power(named("p"), lit(3))), times(lit(27), power(named("q"), lit(2))))),
        "Cubic discriminant",
    )
}

fn resultant_definition() -> (r: Vec<RuleApplication>)
    ensures
        outcomes(r@) == results(PolynomialRule::ResultantDefinition, Expr::Pi),
{
    one(
        eqn(named("Res(f,g)"), lit(0)),
        "Resultant zero implies shared root",
    )
}

fn bezout_theorem() -> (r: Vec<RuleApplication>)
    ensures
        outcomes(r@) == results(PolynomialRule::BezoutTheorem, Expr::Pi),
{
    one(
        eqn(named("f*u+g*v"), named("gcd(f,g)")),
        "Bezout identity",
    )
}

fn chebyshev_recurrence() -> (r: Vec<RuleApplication>)
    ensures
        outcomes(r@) == results(PolynomialRule::ChebyshevRecurrence, Expr::Pi),
{
    one(
        eqn(named("T_{n+1}"), minus(times(lit(2), times(named("x"), named("T_n"))), named("T_{n-1}"))),
        "Chebyshev recurrence",
    )
}

fn hermite_recurrence() -> (r: Vec<RuleApplication>)
    ensures
        outcomes(r@) == results(PolynomialRule::HermiteRecurrence, Expr::Pi),
{
    one(
        eqn(named("H_{n+1}"), minus(times(lit(2), times(named("x"), named("H_n"))), times(lit(2), times(named("n"), named("H_{n-1}"))))),
        "Hermite recurrence",
    )
}

fn legendre_recurrence() -> (r: Vec<RuleApplication>)
    ensures
        outcomes(r@) == results(PolynomialRule::LegendreRecurrence, Expr::Pi),
{
    one(
        eqn(times(plus(named("n"), lit(1)), named("P_{n+1}")), minus(times(plus(times(lit(2), named("n")), lit(1)), times(named("x"), named("P_n"))), times(named("n"), named("P_{n-1}")))),
        "Legendre recurrence",
    )
}

fn laguerre_recurrence() -> (r: Vec<RuleApplication>)
    ensures
        outcomes(r@) == results(PolynomialRule::LaguerreRecurrence, Expr::Pi),
{
    one(
        eqn(named("L_{n+1}"), minus(times(minus(plus(times(lit(2), named("n")), lit(1)), named("x")), named("L_n")), times(power(named("n"), lit(2)), named("L_{n-1}")))),
        "Laguerre recurrence",
    )
}

/// The results of rule `k` on `e`.
pub fn apply(k: PolynomialRule, e: &Expr) -> (r: Vec<RuleApplication>)
    ensures
        outcomes(r@) == results(k, *e),
{
    match k {
        PolynomialRule::VietaSumQuadratic => vieta_sum_quadratic(),
        PolynomialRule::VietaProductQuadratic => vieta_product_quadratic(),
        PolynomialRule::VietaSumCubic => vieta_sum_cubic(),
        PolynomialRule::VietaPairsCubic => vieta_pairs_cubic(),
        PolynomialRule::VietaProductCubic => vieta_product_cubic(),
        PolynomialRule::ElementarySym1 => elementary_sym_1(),
        PolynomialRule::ElementarySym2 => elementary_sym_2(),
        PolynomialRule::NewtonIdentity1 => newton_identity_1(),
        PolynomialRule::NewtonIdentity2 => newton_identity_2(),
        PolynomialRule::NewtonIdentity3 => newton_identity_3(),
        PolynomialRule::SumSquaresSym => sum_squares_sym(e),
        PolynomialRule::SumCubesSym => sum_cubes_sym(e),
        PolynomialRule::SumThreeCubes => sum_three_cubes(e),
        PolynomialRule::FactorTheorem => factor_theorem(),
        PolynomialRule::RemainderTheorem => noted("P(a)", "Remainder theorem: remainder is P(a)"),
        PolynomialRule::PolyDivIdentity => poly_div_identity(),
        PolynomialRule::CompleteSquare => complete_square(e),
        PolynomialRule::DiffNthPower => diff_nth_power(e),
        PolynomialRule::DiffCubes => diff_cubes(e),
        PolynomialRule::SumCubes => sum_cubes(e),
        PolynomialRule::SophieGermain => sophie_germain(e),
        PolynomialRule::FactorByGrouping => factor_by_grouping(e),
        PolynomialRule::SumOddPowers => sum_odd_powers(e),
        PolynomialRule::DiffEvenPowers => diff_even_powers(e),
        PolynomialRule::CyclotomicFactor => noted("Π Φ_d(x)", "Cyclotomic: x^n-1 factors into cyclotomic polynomials"),
        PolynomialRule::BinomialFactor => binomial_factor(e),
        PolynomialRule::QuadraticSubstitution => noted("u", "Let u = x^2 to reduce biquadratic"),
        PolynomialRule::SymmetricFactor => noted("in_terms_of_e1_e2_e3", "Express symmetric polynomial via elementary symmetric polynomials"),
        PolynomialRule::PartialFractions => noted("Σ A_i/(x-r_i)^k", "Partial fractions schematic"),
        PolynomialRule::HornerMethod => noted("nested_linear_form", "Horner form nested linear"),
        PolynomialRule::SyntheticDivision => noted("synthetic_div_result", "Synthetic division schema"),
        PolynomialRule::PolynomialLongDivision => noted("Q(x),R(x)", "Long division schema"),
        PolynomialRule::RuffiniRule => noted("ruffini_result", "Ruffini synthetic division"),
        PolynomialRule::RationalRootTheorem => noted("± factors(a0)/factors(an)", "Rational root theorem"),
        PolynomialRule::IntegerRoot => noted("divides_constant_term", "Integer roots divide constant term"),
        PolynomialRule::QuadraticFormula => quadratic_formula(),
        PolynomialRule::DiscriminantSign => discriminant_sign(),
        PolynomialRule::DiscriminantPerfectSquare => noted("Δ=k^2 ⇒ rational roots", "Δ perfect square → rational roots"),
        PolynomialRule::CardanoFormula => noted("Cardano_solution", "Cardano formula schematic"),
        PolynomialRule::CubicDiscriminant => cubic_discriminant(),
        PolynomialRule::QuarticResolvent => noted("resolvent_cubic", "Quartic resolvent cubic"),
        PolynomialRule::DescartesRule => noted("sign_changes_bound", "Descartes' rule"),
        PolynomialRule::SturmSequence => noted("sturm_sequence", "Sturm sequence root count"),
        PolynomialRule::ResultantDefinition => resultant_definition(),
        PolynomialRule::BezoutTheorem => bezout_theorem(),
        PolynomialRule::CauchyBound => noted("cauchy_bound", "Cauchy root bound"),
        PolynomialRule::FujiwaraBound => noted("fujiwara_bound", "Fujiwara bound"),
        PolynomialRule::GaussLucasTheorem => noted("convex_hull_of_roots", "Gauss-Lucas theorem"),
        PolynomialRule::LagrangeInterpolation => noted("Σ y_i Π(x-x_j)/(x_i-x_j)", "Lagrange interpolation"),
        PolynomialRule::NewtonInterpolation => noted("Newton_divided_differences", "Newton interpolation"),
        PolynomialRule::ChebyshevRecurrence => chebyshev_recurrence(),
        PolynomialRule::HermiteRecurrence => hermite_recurrence(),
        PolynomialRule::LegendreRecurrence => legendre_recurrence(),
        PolynomialRule::LaguerreRecurrence => laguerre_recurrence(),
    }
}

/// The rule numbered `id`, if any.
pub open spec fn numbered(id: u32) -> Option<PolynomialRule> {
    match id {
        500 => Some(PolynomialRule::VietaSumQuadratic),
        501 => Some(PolynomialRule::VietaProductQuadratic),
        502 => Some(PolynomialRule::VietaSumCubic),
        503 => Some(PolynomialRule::VietaPairsCubic),
        504 => Some(PolynomialRule::VietaProductCubic),
        520 => Some(PolynomialRule::ElementarySym1),
        521 => Some(PolynomialRule::ElementarySym2),
        522 => Some(PolynomialRule::NewtonIdentity1),
        523 => Some(PolynomialRule::NewtonIdentity2),
        524 => Some(PolynomialRule::NewtonIdentity3),
        525 => Some(PolynomialRule::SumSquaresSym),
        526 => Some(PolynomialRule::SumCubesSym),
        527 => Some(PolynomialRule::SumThreeCubes),
        540 => Some(PolynomialRule::FactorTheorem),
        541 => Some(PolynomialRule::RemainderTheorem),
        542 => Some(PolynomialRule::PolyDivIdentity),
        543 => Some(PolynomialRule::CompleteSquare),
        544 => Some(PolynomialRule::DiffNthPower),
        545 => Some(PolynomialRule::DiffCubes),
        546 => Some(PolynomialRule::SumCubes),
        547 => Some(PolynomialRule::SophieGermain),
        548 => Some(PolynomialRule::FactorByGrouping),
        549 => Some(PolynomialRule::SumOddPowers),
        550 => Some(PolynomialRule::DiffEvenPowers),
        551 => Some(PolynomialRule::CyclotomicFactor),
        552 => Some(PolynomialRule::BinomialFactor),
        553 => Some(PolynomialRule::QuadraticSubstitution),
        554 => Some(PolynomialRule::SymmetricFactor),
        555 => Some(PolynomialRule::PartialFractions),
        556 => Some(PolynomialRule::HornerMethod),
        557 => Some(PolynomialRule::SyntheticDivision),
        558 => Some(PolynomialRule::PolynomialLongDivision),
        559 => Some(PolynomialRule::RuffiniRule),
        560 => Some(PolynomialRule::RationalRootTheorem),
        561 => Some(PolynomialRule::IntegerRoot),
        800 => Some(PolynomialRule::QuadraticFormula),
        801 => Some(PolynomialRule::DiscriminantSign),
        802 => Some(PolynomialRule::DiscriminantPerfectSquare),
        803 => Some(PolynomialRule::CardanoFormula),
        804 => Some(PolynomialRule::CubicDiscriminant),
        805 => Some(PolynomialRule::QuarticResolvent),
        806 => Some(PolynomialRule::DescartesRule),
        807 => Some(PolynomialRule::SturmSequence),
        808 => Some(PolynomialRule::ResultantDefinition),
        809 => Some(PolynomialRule::BezoutTheorem),
        810 => Some(PolynomialRule::CauchyBound),
        811 => Some(PolynomialRule::FujiwaraBound),
        812 => Some(PolynomialRule::GaussLucasTheorem),
        813 => Some(PolynomialRule::LagrangeInterpolation),
        814 => Some(PolynomialRule::NewtonInterpolation),
        815 => Some(PolynomialRule::ChebyshevRecurrence),
        816 => Some(PolynomialRule::HermiteRecurrence),
        817 => Some(PolynomialRule::LegendreRecurrence),
        818 => Some(PolynomialRule::LaguerreRecurrence),
        _ => None,
    }
}

/// Each rule is the one its number names, and its number lies in the
/// ranges of this catalogue.
pub proof fn lemma_numbered(k: PolynomialRule)
    ensures
        numbered(catalog(k).id.0) == Some(k),
        500 <= catalog(k).id.0 <= 504 || 520 <= catalog(k).id.0 <= 527 || 540 <= catalog(k).id.0 <= 561 || 800 <= catalog(k).id.0 <= 818,
{
}

/// Where rule `k` stands in [`polynomial_kinds`].
pub open spec fn position(k: PolynomialRule) -> int {
    match k {
        PolynomialRule::VietaSumQuadratic => 0,
        PolynomialRule::VietaProductQuadratic => 1,
        PolynomialRule::VietaSumCubic => 2,
        PolynomialRule::VietaPairsCubic => 3,
        PolynomialRule::VietaProductCubic => 4,
        PolynomialRule::ElementarySym1 => 5,
        PolynomialRule::ElementarySym2 => 6,
        PolynomialRule::NewtonIdentity1 => 7,
        PolynomialRule::NewtonIdentity2 => 8,
        PolynomialRule::NewtonIdentity3 => 9,
        PolynomialRule::SumSquaresSym => 10,
        PolynomialRule::SumCubesSym => 11,
        PolynomialRule::SumThreeCubes => 12,
        PolynomialRule::FactorTheorem => 13,
        PolynomialRule::RemainderTheorem => 14,
        PolynomialRule::PolyDivIdentity => 15,
        PolynomialRule::CompleteSquare => 16,
        PolynomialRule::DiffNthPower => 17,
        PolynomialRule::DiffCubes => 18,
        PolynomialRule::SumCubes => 19,
        PolynomialRule::SophieGermain => 20,
        PolynomialRule::FactorByGrouping => 21,
        PolynomialRule::SumOddPowers => 22,
        PolynomialRule::DiffEvenPowers => 23,
        PolynomialRule::CyclotomicFactor => 24,
        PolynomialRule::BinomialFactor => 25,
        PolynomialRule::QuadraticSubstitution => 26,
        PolynomialRule::SymmetricFactor => 27,
        PolynomialRule::PartialFractions => 28,
        PolynomialRule::HornerMethod => 29,
        PolynomialRule::SyntheticDivision => 30,
        PolynomialRule::PolynomialLongDivision => 31,
        PolynomialRule::RuffiniRule => 32,
        PolynomialRule::RationalRootTheorem => 33,
        PolynomialRule::IntegerRoot => 34,
        PolynomialRule::QuadraticFormula => 35,
        PolynomialRule::DiscriminantSign => 36,
        PolynomialRule::DiscriminantPerfectSquare => 37,
        PolynomialRule::CardanoFormula => 38,
        PolynomialRule::CubicDiscriminant => 39,
        PolynomialRule::QuarticResolvent => 40,
        PolynomialRule::DescartesRule => 41,
        PolynomialRule::SturmSequence => 42,
        PolynomialRule::ResultantDefinition => 43,
        PolynomialRule::BezoutTheorem => 44,
        PolynomialRule::CauchyBound => 45,
        PolynomialRule::FujiwaraBound => 46,
        PolynomialRule::GaussLucasTheorem => 47,
        PolynomialRule::LagrangeInterpolation => 48,
        PolynomialRule::NewtonInterpolation => 49,
        PolynomialRule::ChebyshevRecurrence => 50,
        PolynomialRule::HermiteRecurrence => 51,
        PolynomialRule::LegendreRecurrence => 52,
        PolynomialRule::LaguerreRecurrence => 53,
    }
}

/// The catalogue lists each rule once.
pub proof fn lemma_kinds_listed_once()
    ensures
        polynomial_kinds().len() == 54,
        forall|i: int| 0 <= i < polynomial_kinds().len() ==> position(#[trigger] polynomial_kinds()[i]) == i,
        forall|i: int, j: int|
            0 <= i < j < polynomial_kinds().len() ==> polynomial_kinds()[i] != polynomial_kinds()[j],
{
    assert forall|i: int| 0 <= i < polynomial_kinds().len() implies position(#[trigger] polynomial_kinds()[i]) == i by {
    }
}

/// The rules of the catalogue have pairwise different numbers.
pub proof fn lemma_catalogue_numbers_distinct()
    ensures
        forall|i: int, j: int|
            0 <= i < j < polynomial_kinds().len() ==> #[trigger] catalog(polynomial_kinds()[i]).id != #[trigger] catalog(polynomial_kinds()[j]).id,
{
    lemma_kinds_listed_once();
    assert forall|i: int, j: int| 0 <= i < j < polynomial_kinds().len() implies #[trigger] catalog(polynomial_kinds()[i]).id
        != #[trigger] catalog(polynomial_kinds()[j]).id by {
        lemma_numbered(polynomial_kinds()[i]);
        lemma_numbered(polynomial_kinds()[j]);
    }
}

} // verus!
