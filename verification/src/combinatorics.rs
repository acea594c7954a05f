//! Combinatorics rules: binomial coefficients, counting principles,
//! recurrences, and the identities and theorems of enumerative
//! combinatorics.
use vstd::prelude::*;
use crate::expr::{
    Expr, lit, cl, negate, root, fact, plus, minus, times, over, power, binom, eqn, sum_over,
    product_over, is_const_zero, is_var_of,
};
use crate::rule::{
    Rule, RuleKind, RuleCategory, RuleApplication, Outcome, entry, single, outcomes, none, one,
    extend_rules,
};
use crate::symbols::{intern_symbol, named};
use crate::number_theory::is_zero_const;
use crate::polynomials::binomial_expansion;

verus! {

/// The combinatorics rules.
#[derive(Clone, Copy, PartialEq, Eq, Structural, Debug)]
pub enum CombinatoricsRule {
    BinomialZero,
    BinomialFull,
    BinomialOne,
    BinomialSymmetry,
    PascalIdentity,
    HockeyStick,
    Vandermonde,
    BinomialSum,
    BinomialTheorem,
    PermutationFormula,
    CombinationFormula,
    Pigeonhole,
    PigeonholeGen,
    InclusionExclusion2,
    InclusionExclusion3,
    Derangement,
    Catalan,
    FibonacciRecurrence,
    BinetFormula,
    LinearRecurrence,
    DerangementFormula,
    DerangementRecurrence,
    DerangementAsymptotic,
    VandermondeIdentity,
    StarsAndBars,
    CombinationWithRepetition,
    BinomialWeightedSum,
    BinomialSquaresSum,
    HockeyStickIdentity,
    CatalanFormula,
    CatalanRecurrence,
    StirlingFirstRecurrence,
    StirlingSecondRecurrence,
    PartitionRecurrence,
    ChuVandermonde,
    MultinomialTheorem,
    PigeonholePrinciple,
    AdvancedInclusionExclusion2,
    AdvancedInclusionExclusion3,
    DoubleCounting,
    OrdinaryGf,
    ExponentialGf,
    BinomialSum2n,
    BinomialAlternatingSum,
    AdvancedPermutationFormula,
    CircularPermutation,
    BellNumberRecurrence,
    MultinomialCoefficient,
    Subfactorial,
    ChristmasStocking,
    RisingFactorial,
    FallingFactorial,
    LegendreFormula,
    KummerTheorem,
    LucasTheorem,
    BurnsideLemma,
    PolyaEnumeration,
    CatalanAlternative,
    PartitionIntoParts,
    PatternAvoidance,
    DerangementSimpleRecurrence,
    FibonacciGeneratingFunction,
    FibonacciAddition,
    FibonacciGcd,
    LucasNumbers,
    PermutationWithRepetition,
}

/// The catalogue entry of each combinatorics rule.
pub open spec fn catalog(k: CombinatoricsRule) -> Rule {
    let kind = RuleKind::Combinatorics(k);
    match k {
        CombinatoricsRule::BinomialZero => entry(400, "binomial_zero", RuleCategory::Simplification, "C(n,0) = 1", false, 1, kind),
        CombinatoricsRule::BinomialFull => entry(401, "binomial_full", RuleCategory::Simplification, "C(n,n) = 1", false, 1, kind),
        CombinatoricsRule::BinomialOne => entry(402, "binomial_one", RuleCategory::Simplification, "C(n,1) = n", false, 1, kind),
        CombinatoricsRule::BinomialSymmetry => entry(403, "binomial_symmetry", RuleCategory::Simplification, "C(n,k) = C(n,n-k)", true, 1, kind),
        CombinatoricsRule::PascalIdentity => entry(404, "pascal_identity", RuleCategory::Expansion, "C(n,k) = C(n-1,k-1) + C(n-1,k)", true, 2, kind),
        CombinatoricsRule::HockeyStick => entry(405, "hockey_stick", RuleCategory::Simplification, "ΣC(i,k) for i=k to n = C(n+1,k+1)", true, 3, kind),
        CombinatoricsRule::Vandermonde => entry(406, "vandermonde", RuleCategory::Simplification, "ΣC(m,k)C(n,r-k) = C(m+n,r)", true, 4, kind),
        CombinatoricsRule::BinomialSum => entry(407, "binomial_sum", RuleCategory::Simplification, "Σ C(n,k) for k=0 to n = 2^n", true, 2, kind),
        CombinatoricsRule::BinomialTheorem => entry(408, "binomial_theorem", RuleCategory::Expansion, "(a+b)^n = Σ C(n,k) a^k b^(n-k)", true, 5, kind),
        CombinatoricsRule::PermutationFormula => entry(420, "permutation_formula", RuleCategory::Simplification, "P(n,k) = n!/(n-k)!", true, 2, kind),
        CombinatoricsRule::CombinationFormula => entry(421, "combination_formula", RuleCategory::Simplification, "C(n,k) = n!/(k!(n-k)!)", true, 2, kind),
        CombinatoricsRule::Pigeonhole => entry(422, "pigeonhole", RuleCategory::AlgebraicSolving, "n+1 items in n boxes => at least one box has 2+ items", false, 1, kind),
        CombinatoricsRule::PigeonholeGen => entry(423, "pigeonhole_gen", RuleCategory::AlgebraicSolving, "n items in k boxes => some box has ≥ ⌈n/k⌉ items", false, 2, kind),
        CombinatoricsRule::InclusionExclusion2 => entry(424, "inclusion_exclusion_2", RuleCategory::Simplification, "|A ∪ B| = |A| + |B| - |A ∩ B|", true, 2, kind),
        CombinatoricsRule::InclusionExclusion3 => entry(425, "inclusion_exclusion_3", RuleCategory::Simplification, "|A ∪ B ∪ C| = |A|+|B|+|C| - |A∩B| - |B∩C| - |A∩C| + |A∩B∩C|", true, 3, kind),
        CombinatoricsRule::Derangement => entry(426, "derangement", RuleCategory::Simplification, "D(n) = n! Σ (-1)^k/k! for k=0 to n", false, 3, kind),
        CombinatoricsRule::Catalan => entry(427, "catalan", RuleCategory::Simplification, "C_n = C(2n,n)/(n+1)", true, 3, kind),
        CombinatoricsRule::FibonacciRecurrence => entry(440, "fibonacci_recurrence", RuleCategory::AlgebraicSolving, "F(n) = F(n-1) + F(n-2)", true, 2, kind),
        CombinatoricsRule::BinetFormula => entry(441, "binet_formula", RuleCategory::Simplification, "F(n) = (φ^n - ψ^n)/√5", false, 3, kind),
        CombinatoricsRule::LinearRecurrence => entry(442, "linear_recurrence", RuleCategory::AlgebraicSolving, "a_n = c1*a_{n-1} + c2*a_{n-2} => characteristic equation", false, 4, kind),
        CombinatoricsRule::DerangementFormula => entry(600, "derangement_formula", RuleCategory::Simplification, "D(n) = n! * Σ(-1)^k/k!", false, 3, kind),
        CombinatoricsRule::DerangementRecurrence => entry(601, "derangement_recurrence", RuleCategory::Simplification, "D(n) = (n-1)(D(n-1) + D(n-2))", false, 2, kind),
        CombinatoricsRule::DerangementAsymptotic => entry(622, "derangement_asymptotic", RuleCategory::Simplification, "D(n) ~ n!/e", false, 2, kind),
        CombinatoricsRule::VandermondeIdentity => entry(608, "vandermonde_identity", RuleCategory::Simplification, "Σ C(m,k)*C(n,r-k) = C(m+n,r)", false, 3, kind),
        CombinatoricsRule::StarsAndBars => entry(611, "stars_and_bars", RuleCategory::Simplification, "Stars and bars: C(n+k-1,k)", false, 2, kind),
        CombinatoricsRule::CombinationWithRepetition => entry(651, "combination_with_repetition", RuleCategory::Simplification, "Combinations with repetition: C(n+k-1, k)", false, 2, kind),
        CombinatoricsRule::BinomialWeightedSum => entry(654, "binomial_weighted_sum", RuleCategory::Simplification, "Σ k*C(n,k) = n*2^(n-1)", false, 2, kind),
        CombinatoricsRule::BinomialSquaresSum => entry(657, "binomial_squares_sum", RuleCategory::Simplification, "Σ C(n,k)^2 = C(2n,n)", false, 2, kind),
        CombinatoricsRule::HockeyStickIdentity => entry(607, "hockey_stick_identity", RuleCategory::Simplification, "Σ C(i,k) = C(n+1,k+1) (Hockey stick)", false, 2, kind),
        CombinatoricsRule::CatalanFormula => entry(602, "catalan_formula", RuleCategory::Simplification, "C(n) = C(2n,n)/(n+1)", false, 2, kind),
        CombinatoricsRule::CatalanRecurrence => entry(603, "catalan_recurrence", RuleCategory::Simplification, "C(n+1) = Σ C(i)*C(n-i)", false, 3, kind),
        CombinatoricsRule::StirlingFirstRecurrence => entry(604, "stirling_first_recurrence", RuleCategory::Simplification, "s(n,k) = s(n-1,k-1) - (n-1)*s(n-1,k)", false, 3, kind),
        CombinatoricsRule::StirlingSecondRecurrence => entry(605, "stirling_second_recurrence", RuleCategory::Simplification, "S(n,k) = k*S(n-1,k) + S(n-1,k-1)", false, 3, kind),
        CombinatoricsRule::PartitionRecurrence => entry(606, "partition_recurrence", RuleCategory::Simplification, "Partition function pentagonal recurrence", false, 4, kind),
        CombinatoricsRule::ChuVandermonde => entry(609, "chu_vandermonde", RuleCategory::Simplification, "Chu-Vandermonde identity", false, 3, kind),
        CombinatoricsRule::MultinomialTheorem => entry(610, "multinomial_theorem", RuleCategory::Expansion, "Multinomial theorem expansion", false, 4, kind),
        CombinatoricsRule::PigeonholePrinciple => entry(612, "pigeonhole_principle", RuleCategory::AlgebraicSolving, "n+1 items in n containers => at least 2 share", false, 1, kind),
        CombinatoricsRule::AdvancedInclusionExclusion2 => entry(613, "inclusion_exclusion_2", RuleCategory::Simplification, "|A∪B| = |A| + |B| - |A∩B|", false, 2, kind),
        CombinatoricsRule::AdvancedInclusionExclusion3 => entry(614, "inclusion_exclusion_3", RuleCategory::Simplification, "3-set inclusion-exclusion", false, 3, kind),
        CombinatoricsRule::DoubleCounting => entry(615, "double_counting", RuleCategory::AlgebraicSolving, "Count same set in two ways", false, 2, kind),
        CombinatoricsRule::OrdinaryGf => entry(616, "ordinary_gf", RuleCategory::Simplification, "Ordinary generating function", false, 3, kind),
        CombinatoricsRule::ExponentialGf => entry(617, "exponential_gf", RuleCategory::Simplification, "Exponential generating function", false, 3, kind),
        CombinatoricsRule::BinomialSum2n => entry(618, "binomial_sum_2n", RuleCategory::Simplification, "Σ C(n,k) = 2^n", false, 1, kind),
        CombinatoricsRule::BinomialAlternatingSum => entry(619, "binomial_alternating_sum", RuleCategory::Simplification, "Σ (-1)^k * C(n,k) = 0", false, 1, kind),
        CombinatoricsRule::AdvancedPermutationFormula => entry(620, "permutation_formula", RuleCategory::Simplification, "P(n,k) = n!/(n-k)!", false, 2, kind),
        CombinatoricsRule::CircularPermutation => entry(621, "circular_permutation", RuleCategory::Simplification, "Circular permutations = (n-1)!", false, 2, kind),
        CombinatoricsRule::BellNumberRecurrence => entry(652, "bell_number_recurrence", RuleCategory::Simplification, "B(n+1) = Σ C(n,k)*B(k)", false, 3, kind),
        CombinatoricsRule::MultinomialCoefficient => entry(653, "multinomial_coefficient", RuleCategory::Simplification, "Multinomial: n!/(k1!k2!...km!)", false, 2, kind),
        CombinatoricsRule::Subfactorial => entry(655, "subfactorial", RuleCategory::Simplification, "Subfactorial !n = D(n)", false, 2, kind),
        CombinatoricsRule::ChristmasStocking => entry(656, "christmas_stocking", RuleCategory::Simplification, "C(n,m)*C(m,k) = C(n,k)*C(n-k,m-k)", true, 2, kind),
        CombinatoricsRule::RisingFactorial => entry(658, "rising_factorial", RuleCategory::Expansion, "Rising factorial (x)_n", false, 2, kind),
        CombinatoricsRule::FallingFactorial => entry(659, "falling_factorial", RuleCategory::Expansion, "Falling factorial (x)^n", false, 2, kind),
        CombinatoricsRule::LegendreFormula => entry(660, "legendre_formula", RuleCategory::NumberTheory, "Legendre: vp(n!) = Σ ⌊n/p^k⌋", false, 3, kind),
        CombinatoricsRule::KummerTheorem => entry(661, "kummer_theorem", RuleCategory::NumberTheory, "Kummer: vp(C(m+n,m)) = carries in base p", false, 3, kind),
        CombinatoricsRule::LucasTheorem => entry(662, "lucas_theorem", RuleCategory::NumberTheory, "Lucas: C(m,n) mod p", false, 3, kind),
        CombinatoricsRule::BurnsideLemma => entry(663, "burnside_lemma", RuleCategory::Simplification, "Burnside: |X/G| = (1/|G|) Σ |X^g|", false, 4, kind),
        CombinatoricsRule::PolyaEnumeration => entry(664, "polya_enumeration", RuleCategory::Simplification, "Polya enumeration theorem", false, 4, kind),
        CombinatoricsRule::CatalanAlternative => entry(665, "catalan_alternative", RuleCategory::Simplification, "C_n = (2n)!/(n!(n+1)!)", false, 2, kind),
        CombinatoricsRule::PartitionIntoParts => entry(666, "partition_into_parts", RuleCategory::Simplification, "p(n,k) = p(n-1,k-1) + p(n-k,k)", false, 2, kind),
        CombinatoricsRule::PatternAvoidance => entry(667, "pattern_avoidance", RuleCategory::Simplification, "Permutations avoiding pattern", false, 3, kind),
        CombinatoricsRule::DerangementSimpleRecurrence => entry(668, "derangement_simple_recurrence", RuleCategory::Simplification, "D(n) = n*D(n-1) + (-1)^n", false, 2, kind),
        CombinatoricsRule::FibonacciGeneratingFunction => entry(669, "fibonacci_generating_function", RuleCategory::Simplification, "Fibonacci GF: x/(1-x-x^2)", false, 3, kind),
        CombinatoricsRule::FibonacciAddition => entry(623, "fibonacci_addition", RuleCategory::Simplification, "F(m+n) = F(m)*F(n+1) + F(m-1)*F(n)", false, 3, kind),
        CombinatoricsRule::FibonacciGcd => entry(624, "fibonacci_gcd", RuleCategory::Simplification, "gcd(F(m), F(n)) = F(gcd(m,n))", false, 3, kind),
        CombinatoricsRule::LucasNumbers => entry(625, "lucas_numbers", RuleCategory::Simplification, "L(n) = F(n-1) + F(n+1)", false, 2, kind),
        CombinatoricsRule::PermutationWithRepetition => entry(650, "permutation_with_repetition", RuleCategory::Simplification, "Permutations with repetition: n^k", false, 1, kind),
    }
}

/// On which page of the catalogue kind `k` is written out: the catalogue
/// is long, and each page is checked on its own.
pub open spec fn catalog_page(k: CombinatoricsRule) -> int {
    match k {
        CombinatoricsRule::BinomialZero
        | CombinatoricsRule::BinomialFull
        | CombinatoricsRule::BinomialOne
        | CombinatoricsRule::BinomialSymmetry
        | CombinatoricsRule::PascalIdentity
        | CombinatoricsRule::HockeyStick
        | CombinatoricsRule::Vandermonde
        | CombinatoricsRule::BinomialSum
        | CombinatoricsRule::BinomialTheorem
        | CombinatoricsRule::PermutationFormula
        | CombinatoricsRule::CombinationFormula
        | CombinatoricsRule::Pigeonhole
        | CombinatoricsRule::PigeonholeGen
        | CombinatoricsRule::InclusionExclusion2
        | CombinatoricsRule::InclusionExclusion3
        | CombinatoricsRule::Derangement
        | CombinatoricsRule::Catalan
        | CombinatoricsRule::FibonacciRecurrence
        | CombinatoricsRule::BinetFormula
        | CombinatoricsRule::LinearRecurrence
        | CombinatoricsRule::DerangementFormula
        | CombinatoricsRule::DerangementRecurrence
        | CombinatoricsRule::DerangementAsymptotic => 1,
        CombinatoricsRule::VandermondeIdentity
        | CombinatoricsRule::StarsAndBars
        | CombinatoricsRule::CombinationWithRepetition
        | CombinatoricsRule::BinomialWeightedSum
        | CombinatoricsRule::BinomialSquaresSum
        | CombinatoricsRule::HockeyStickIdentity
        | CombinatoricsRule::CatalanFormula
        | CombinatoricsRule::CatalanRecurrence
        | CombinatoricsRule::StirlingFirstRecurrence
        | CombinatoricsRule::StirlingSecondRecurrence
        | CombinatoricsRule::PartitionRecurrence
        | CombinatoricsRule::ChuVandermonde
        | CombinatoricsRule::MultinomialTheorem
        | CombinatoricsRule::PigeonholePrinciple
        | CombinatoricsRule::AdvancedInclusionExclusion2
        | CombinatoricsRule::AdvancedInclusionExclusion3
        | CombinatoricsRule::DoubleCounting
        | CombinatoricsRule::OrdinaryGf
        | CombinatoricsRule::ExponentialGf
        | CombinatoricsRule::BinomialSum2n
        | CombinatoricsRule::BinomialAlternatingSum
        | CombinatoricsRule::AdvancedPermutationFormula
        | CombinatoricsRule::CircularPermutation => 2,
        CombinatoricsRule::BellNumberRecurrence
        | CombinatoricsRule::MultinomialCoefficient
        | CombinatoricsRule::Subfactorial
        | CombinatoricsRule::ChristmasStocking
        | CombinatoricsRule::RisingFactorial
        | CombinatoricsRule::FallingFactorial
        | CombinatoricsRule::LegendreFormula
        | CombinatoricsRule::KummerTheorem
        | CombinatoricsRule::LucasTheorem
        | CombinatoricsRule::BurnsideLemma
        | CombinatoricsRule::PolyaEnumeration
        | CombinatoricsRule::CatalanAlternative
        | CombinatoricsRule::PartitionIntoParts
        | CombinatoricsRule::PatternAvoidance
        | CombinatoricsRule::DerangementSimpleRecurrence
        | CombinatoricsRule::FibonacciGeneratingFunction
        | CombinatoricsRule::FibonacciAddition
        | CombinatoricsRule::FibonacciGcd
        | CombinatoricsRule::LucasNumbers
        | CombinatoricsRule::PermutationWithRepetition => 3,
    }
}

/// The rule of kind `k`.
pub fn describe(k: CombinatoricsRule) -> (r: Rule)
    ensures
        r == catalog(k),
{
    let kind = RuleKind::Combinatorics(k);
    match k {
        CombinatoricsRule::BinomialZero => entry(400, "binomial_zero", RuleCategory::Simplification, "C(n,0) = 1", false, 1, kind),
        CombinatoricsRule::BinomialFull => entry(401, "binomial_full", RuleCategory::Simplification, "C(n,n) = 1", false, 1, kind),
        CombinatoricsRule::BinomialOne => entry(402, "binomial_one", RuleCategory::Simplification, "C(n,1) = n", false, 1, kind),
        CombinatoricsRule::BinomialSymmetry => entry(403, "binomial_symmetry", RuleCategory::Simplification, "C(n,k) = C(n,n-k)", true, 1, kind),
        CombinatoricsRule::PascalIdentity => entry(404, "pascal_identity", RuleCategory::Expansion, "C(n,k) = C(n-1,k-1) + C(n-1,k)", true, 2, kind),
        CombinatoricsRule::HockeyStick => entry(405, "hockey_stick", RuleCategory::Simplification, "ΣC(i,k) for i=k to n = C(n+1,k+1)", true, 3, kind),
        CombinatoricsRule::Vandermonde => entry(406, "vandermonde", RuleCategory::Simplification, "ΣC(m,k)C(n,r-k) = C(m+n,r)", true, 4, kind),
        CombinatoricsRule::BinomialSum => entry(407, "binomial_sum", RuleCategory::Simplification, "Σ C(n,k) for k=0 to n = 2^n", true, 2, kind),
        CombinatoricsRule::BinomialTheorem => entry(408, "binomial_theorem", RuleCategory::Expansion, "(a+b)^n = Σ C(n,k) a^k b^(n-k)", true, 5, kind),
        CombinatoricsRule::PermutationFormula => entry(420, "permutation_formula", RuleCategory::Simplification, "P(n,k) = n!/(n-k)!", true, 2, kind),
        CombinatoricsRule::CombinationFormula => entry(421, "combination_formula", RuleCategory::Simplification, "C(n,k) = n!/(k!(n-k)!)", true, 2, kind),
        CombinatoricsRule::Pigeonhole => entry(422, "pigeonhole", RuleCategory::AlgebraicSolving, "n+1 items in n boxes => at least one box has 2+ items", false, 1, kind),
        CombinatoricsRule::PigeonholeGen => entry(423, "pigeonhole_gen", RuleCategory::AlgebraicSolving, "n items in k boxes => some box has ≥ ⌈n/k⌉ items", false, 2, kind),
        CombinatoricsRule::InclusionExclusion2 => entry(424, "inclusion_exclusion_2", RuleCategory::Simplification, "|A ∪ B| = |A| + |B| - |A ∩ B|", true, 2, kind),
        CombinatoricsRule::InclusionExclusion3 => entry(425, "inclusion_exclusion_3", RuleCategory::Simplification, "|A ∪ B ∪ C| = |A|+|B|+|C| - |A∩B| - |B∩C| - |A∩C| + |A∩B∩C|", true, 3, kind),
        CombinatoricsRule::Derangement => entry(426, "derangement", RuleCategory::Simplification, "D(n) = n! Σ (-1)^k/k! for k=0 to n", false, 3, kind),
        CombinatoricsRule::Catalan => entry(427, "catalan", RuleCategory::Simplification, "C_n = C(2n,n)/(n+1)", true, 3, kind),
        CombinatoricsRule::FibonacciRecurrence => entry(440, "fibonacci_recurrence", RuleCategory::AlgebraicSolving, "F(n) = F(n-1) + F(n-2)", true, 2, kind),
        CombinatoricsRule::BinetFormula => entry(441, "binet_formula", RuleCategory::Simplification, "F(n) = (φ^n - ψ^n)/√5", false, 3, kind),
        CombinatoricsRule::LinearRecurrence => entry(442, "linear_recurrence", RuleCategory::AlgebraicSolving, "a_n = c1*a_{n-1} + c2*a_{n-2} => characteristic equation", false, 4, kind),
        CombinatoricsRule::DerangementFormula => entry(600, "derangement_formula", RuleCategory::Simplification, "D(n) = n! * Σ(-1)^k/k!", false, 3, kind),
        CombinatoricsRule::DerangementRecurrence => entry(601, "derangement_recurrence", RuleCategory::Simplification, "D(n) = (n-1)(D(n-1) + D(n-2))", false, 2, kind),
        CombinatoricsRule::DerangementAsymptotic => entry(622, "derangement_asymptotic", RuleCategory::Simplification, "D(n) ~ n!/e", false, 2, kind),
        _ => describe_page2(k),
    }
}

/// The rule of kind `k`, written out on page 2 of the catalogue or a later one.
fn describe_page2(k: CombinatoricsRule) -> (r: Rule)
    requires
        catalog_page(k) >= 2,
    ensures
        r == catalog(k),
{
    let kind = RuleKind::Combinatorics(k);
    match k {
        CombinatoricsRule::VandermondeIdentity => entry(608, "vandermonde_identity", RuleCategory::Simplification, "Σ C(m,k)*C(n,r-k) = C(m+n,r)", false, 3, kind),
        CombinatoricsRule::StarsAndBars => entry(611, "stars_and_bars", RuleCategory::Simplification, "Stars and bars: C(n+k-1,k)", false, 2, kind),
        CombinatoricsRule::CombinationWithRepetition => entry(651, "combination_with_repetition", RuleCategory::Simplification, "Combinations with repetition: C(n+k-1, k)", false, 2, kind),
        CombinatoricsRule::BinomialWeightedSum => entry(654, "binomial_weighted_sum", RuleCategory::Simplification, "Σ k*C(n,k) = n*2^(n-1)", false, 2, kind),
        CombinatoricsRule::BinomialSquaresSum => entry(657, "binomial_squares_sum", RuleCategory::Simplification, "Σ C(n,k)^2 = C(2n,n)", false, 2, kind),
        CombinatoricsRule::HockeyStickIdentity => entry(607, "hockey_stick_identity", RuleCategory::Simplification, "Σ C(i,k) = C(n+1,k+1) (Hockey stick)", false, 2, kind),
        CombinatoricsRule::CatalanFormula => entry(602, "catalan_formula", RuleCategory::Simplification, "C(n) = C(2n,n)/(n+1)", false, 2, kind),
        CombinatoricsRule::CatalanRecurrence => entry(603, "catalan_recurrence", RuleCategory::Simplification, "C(n+1) = Σ C(i)*C(n-i)", false, 3, kind),
        CombinatoricsRule::StirlingFirstRecurrence => entry(604, "stirling_first_recurrence", RuleCategory::Simplification, "s(n,k) = s(n-1,k-1) - (n-1)*s(n-1,k)", false, 3, kind),
        CombinatoricsRule::StirlingSecondRecurrence => entry(605, "stirling_second_recurrence", RuleCategory::Simplification, "S(n,k) = k*S(n-1,k) + S(n-1,k-1)", false, 3, kind),
        CombinatoricsRule::PartitionRecurrence => entry(606, "partition_recurrence", RuleCategory::Simplification, "Partition function pentagonal recurrence", false, 4, kind),
        CombinatoricsRule::ChuVandermonde => entry(609, "chu_vandermonde", RuleCategory::Simplification, "Chu-Vandermonde identity", false, 3, kind),
        CombinatoricsRule::MultinomialTheorem => entry(610, "multinomial_theorem", RuleCategory::Expansion, "Multinomial theorem expansion", false, 4, kind),
        CombinatoricsRule::PigeonholePrinciple => entry(612, "pigeonhole_principle", RuleCategory::AlgebraicSolving, "n+1 items in n containers => at least 2 share", false, 1, kind),
        CombinatoricsRule::AdvancedInclusionExclusion2 => entry(613, "inclusion_exclusion_2", RuleCategory::Simplification, "|A∪B| = |A| + |B| - |A∩B|", false, 2, kind),
        CombinatoricsRule::AdvancedInclusionExclusion3 => entry(614, "inclusion_exclusion_3", RuleCategory::Simplification, "3-set inclusion-exclusion", false, 3, kind),
        CombinatoricsRule::DoubleCounting => entry(615, "double_counting", RuleCategory::AlgebraicSolving, "Count same set in two ways", false, 2, kind),
        CombinatoricsRule::OrdinaryGf => entry(616, "ordinary_gf", RuleCategory::Simplification, "Ordinary generating function", false, 3, kind),
        CombinatoricsRule::ExponentialGf => entry(617, "exponential_gf", RuleCategory::Simplification, "Exponential generating function", false, 3, kind),
        CombinatoricsRule::BinomialSum2n => entry(618, "binomial_sum_2n", RuleCategory::Simplification, "Σ C(n,k) = 2^n", false, 1, kind),
        CombinatoricsRule::BinomialAlternatingSum => entry(619, "binomial_alternating_sum", RuleCategory::Simplification, "Σ (-1)^k * C(n,k) = 0", false, 1, kind),
        CombinatoricsRule::AdvancedPermutationFormula => entry(620, "permutation_formula", RuleCategory::Simplification, "P(n,k) = n!/(n-k)!", false, 2, kind),
        CombinatoricsRule::CircularPermutation => entry(621, "circular_permutation", RuleCategory::Simplification, "Circular permutations = (n-1)!", false, 2, kind),
        _ => describe_page3(k),
    }
}

/// The rule of kind `k`, written out on page 3 of the catalogue or a later one.
fn describe_page3(k: CombinatoricsRule) -> (r: Rule)
    requires
        catalog_page(k) >= 3,
    ensures
        r == catalog(k),
{
    let kind = RuleKind::Combinatorics(k);
    match k {
        CombinatoricsRule::BellNumberRecurrence => entry(652, "bell_number_recurrence", RuleCategory::Simplification, "B(n+1) = Σ C(n,k)*B(k)", false, 3, kind),
        CombinatoricsRule::MultinomialCoefficient => entry(653, "multinomial_coefficient", RuleCategory::Simplification, "Multinomial: n!/(k1!k2!...km!)", false, 2, kind),
        CombinatoricsRule::Subfactorial => entry(655, "subfactorial", RuleCategory::Simplification, "Subfactorial !n = D(n)", false, 2, kind),
        CombinatoricsRule::ChristmasStocking => entry(656, "christmas_stocking", RuleCategory::Simplification, "C(n,m)*C(m,k) = C(n,k)*C(n-k,m-k)", true, 2, kind),
        CombinatoricsRule::RisingFactorial => entry(658, "rising_factorial", RuleCategory::Expansion, "Rising factorial (x)_n", false, 2, kind),
        CombinatoricsRule::FallingFactorial => entry(659, "falling_factorial", RuleCategory::Expansion, "Falling factorial (x)^n", false, 2, kind),
        CombinatoricsRule::LegendreFormula => entry(660, "legendre_formula", RuleCategory::NumberTheory, "Legendre: vp(n!) = Σ ⌊n/p^k⌋", false, 3, kind),
        CombinatoricsRule::KummerTheorem => entry(661, "kummer_theorem", RuleCategory::NumberTheory, "Kummer: vp(C(m+n,m)) = carries in base p", false, 3, kind),
        CombinatoricsRule::LucasTheorem => entry(662, "lucas_theorem", RuleCategory::NumberTheory, "Lucas: C(m,n) mod p", false, 3, kind),
        CombinatoricsRule::BurnsideLemma => entry(663, "burnside_lemma", RuleCategory::Simplification, "Burnside: |X/G| = (1/|G|) Σ |X^g|", false, 4, kind),
        CombinatoricsRule::PolyaEnumeration => entry(664, "polya_enumeration", RuleCategory::Simplification, "Polya enumeration theorem", false, 4, kind),
        CombinatoricsRule::CatalanAlternative => entry(665, "catalan_alternative", RuleCategory::Simplification, "C_n = (2n)!/(n!(n+1)!)", false, 2, kind),
        CombinatoricsRule::PartitionIntoParts => entry(666, "partition_into_parts", RuleCategory::Simplification, "p(n,k) = p(n-1,k-1) + p(n-k,k)", false, 2, kind),
        CombinatoricsRule::PatternAvoidance => entry(667, "pattern_avoidance", RuleCategory::Simplification, "Permutations avoiding pattern", false, 3, kind),
        CombinatoricsRule::DerangementSimpleRecurrence => entry(668, "derangement_simple_recurrence", RuleCategory::Simplification, "D(n) = n*D(n-1) + (-1)^n", false, 2, kind),
        CombinatoricsRule::FibonacciGeneratingFunction => entry(669, "fibonacci_generating_function", RuleCategory::Simplification, "Fibonacci GF: x/(1-x-x^2)", false, 3, kind),
        CombinatoricsRule::FibonacciAddition => entry(623, "fibonacci_addition", RuleCategory::Simplification, "F(m+n) = F(m)*F(n+1) + F(m-1)*F(n)", false, 3, kind),
        CombinatoricsRule::FibonacciGcd => entry(624, "fibonacci_gcd", RuleCategory::Simplification, "gcd(F(m), F(n)) = F(gcd(m,n))", false, 3, kind),
        CombinatoricsRule::LucasNumbers => entry(625, "lucas_numbers", RuleCategory::Simplification, "L(n) = F(n-1) + F(n+1)", false, 2, kind),
        _ => entry(650, "permutation_with_repetition", RuleCategory::Simplification, "Permutations with repetition: n^k", false, 1, kind),
    }
}

/// Binomial coefficients: `C(n,0)`, `C(n,n)`, `C(n,1)`, symmetry, Pascal, hockey stick, Vandermonde, row sums and the binomial theorem.
pub open spec fn binomial_kinds() -> Seq<CombinatoricsRule> {
    seq![
        CombinatoricsRule::BinomialZero,
        CombinatoricsRule::BinomialFull,
        CombinatoricsRule::BinomialOne,
        CombinatoricsRule::BinomialSymmetry,
        CombinatoricsRule::PascalIdentity,
        CombinatoricsRule::HockeyStick,
        CombinatoricsRule::Vandermonde,
        CombinatoricsRule::BinomialSum,
        CombinatoricsRule::BinomialTheorem,
    ]
}

/// The rules of [`binomial_kinds`], in that order.
pub fn binomial_rules() -> (rules: Vec<Rule>)
    ensures
        rules@ == binomial_kinds().map_values(|k: CombinatoricsRule| catalog(k)),
        rules.len() == 9,
{
    let rules = vec![
        describe(CombinatoricsRule::BinomialZero),
        describe(CombinatoricsRule::BinomialFull),
        describe(CombinatoricsRule::BinomialOne),
        describe(CombinatoricsRule::BinomialSymmetry),
        describe(CombinatoricsRule::PascalIdentity),
        describe(CombinatoricsRule::HockeyStick),
        describe(CombinatoricsRule::Vandermonde),
        describe(CombinatoricsRule::BinomialSum),
        describe(CombinatoricsRule::BinomialTheorem),
    ];
    proof {
        assert(rules@ =~= binomial_kinds().map_values(|k: CombinatoricsRule| catalog(k)));
    }
    rules
}

/// Counting: permutations, combinations, pigeonhole, inclusion-exclusion, derangements and Catalan numbers.
pub open spec fn counting_kinds() -> Seq<CombinatoricsRule> {
    seq![
        CombinatoricsRule::PermutationFormula,
        CombinatoricsRule::CombinationFormula,
        CombinatoricsRule::Pigeonhole,
        CombinatoricsRule::PigeonholeGen,
        CombinatoricsRule::InclusionExclusion2,
        CombinatoricsRule::InclusionExclusion3,
        CombinatoricsRule::Derangement,
        CombinatoricsRule::Catalan,
    ]
}

/// The rules of [`counting_kinds`], in that order.
pub fn counting_rules() -> (rules: Vec<Rule>)
    ensures
        rules@ == counting_kinds().map_values(|k: CombinatoricsRule| catalog(k)),
        rules.len() == 8,
{
    let rules = vec![
        describe(CombinatoricsRule::PermutationFormula),
        describe(CombinatoricsRule::CombinationFormula),
        describe(CombinatoricsRule::Pigeonhole),
        describe(CombinatoricsRule::PigeonholeGen),
        describe(CombinatoricsRule::InclusionExclusion2),
        describe(CombinatoricsRule::InclusionExclusion3),
        describe(CombinatoricsRule::Derangement),
        describe(CombinatoricsRule::Catalan),
    ];
    proof {
        assert(rules@ =~= counting_kinds().map_values(|k: CombinatoricsRule| catalog(k)));
    }
    rules
}

/// Recurrences: Fibonacci, Binet and linear recurrences.
pub open spec fn recurrence_kinds() -> Seq<CombinatoricsRule> {
    seq![
        CombinatoricsRule::FibonacciRecurrence,
        CombinatoricsRule::BinetFormula,
        CombinatoricsRule::LinearRecurrence,
    ]
}

/// The rules of [`recurrence_kinds`], in that order.
pub fn recurrence_rules() -> (rules: Vec<Rule>)
    ensures
        rules@ == recurrence_kinds().map_values(|k: CombinatoricsRule| catalog(k)),
        rules.len() == 3,
{
    let rules = vec![
        describe(CombinatoricsRule::FibonacciRecurrence),
        describe(CombinatoricsRule::BinetFormula),
        describe(CombinatoricsRule::LinearRecurrence),
    ];
    proof {
        assert(rules@ =~= recurrence_kinds().map_values(|k: CombinatoricsRule| catalog(k)));
    }
    rules
}

/// Derangements, binomial identities, Catalan, Stirling and Bell numbers, partitions, generating functions, factorial powers, theorems of Legendre, Kummer and Lucas, Burnside and Pólya, and Fibonacci and Lucas numbers.
pub open spec fn advanced_combinatorics_kinds() -> Seq<CombinatoricsRule> {
    seq![
        CombinatoricsRule::DerangementFormula,
        CombinatoricsRule::DerangementRecurrence,
        CombinatoricsRule::DerangementAsymptotic,
        CombinatoricsRule::VandermondeIdentity,
        CombinatoricsRule::StarsAndBars,
        CombinatoricsRule::CombinationWithRepetition,
        CombinatoricsRule::BinomialWeightedSum,
        CombinatoricsRule::BinomialSquaresSum,
        CombinatoricsRule::HockeyStickIdentity,
        CombinatoricsRule::CatalanFormula,
        CombinatoricsRule::CatalanRecurrence,
        CombinatoricsRule::StirlingFirstRecurrence,
        CombinatoricsRule::StirlingSecondRecurrence,
        CombinatoricsRule::PartitionRecurrence,
        CombinatoricsRule::ChuVandermonde,
        CombinatoricsRule::MultinomialTheorem,
        CombinatoricsRule::PigeonholePrinciple,
        CombinatoricsRule::AdvancedInclusionExclusion2,
        CombinatoricsRule::AdvancedInclusionExclusion3,
        CombinatoricsRule::DoubleCounting,
        CombinatoricsRule::OrdinaryGf,
        CombinatoricsRule::ExponentialGf,
        CombinatoricsRule::BinomialSum2n,
        CombinatoricsRule::BinomialAlternatingSum,
        CombinatoricsRule::AdvancedPermutationFormula,
        CombinatoricsRule::CircularPermutation,
        CombinatoricsRule::BellNumberRecurrence,
        CombinatoricsRule::MultinomialCoefficient,
        CombinatoricsRule::Subfactorial,
        CombinatoricsRule::ChristmasStocking,
        CombinatoricsRule::RisingFactorial,
        CombinatoricsRule::FallingFactorial,
        CombinatoricsRule::LegendreFormula,
        CombinatoricsRule::KummerTheorem,
        CombinatoricsRule::LucasTheorem,
        CombinatoricsRule::BurnsideLemma,
        CombinatoricsRule::PolyaEnumeration,
        CombinatoricsRule::CatalanAlternative,
        CombinatoricsRule::PartitionIntoParts,
        CombinatoricsRule::PatternAvoidance,
        CombinatoricsRule::DerangementSimpleRecurrence,
        CombinatoricsRule::FibonacciGeneratingFunction,
        CombinatoricsRule::FibonacciAddition,
        CombinatoricsRule::FibonacciGcd,
        CombinatoricsRule::LucasNumbers,
        CombinatoricsRule::PermutationWithRepetition,
    ]
}

/// The rules of [`advanced_combinatorics_kinds`], in that order.
pub fn advanced_combinatorics_rules() -> (rules: Vec<Rule>)
    ensures
        rules@ == advanced_combinatorics_kinds().map_values(|k: CombinatoricsRule| catalog(k)),
        rules.len() == 46,
{
    let rules = vec![
        describe(CombinatoricsRule::DerangementFormula),
        describe(CombinatoricsRule::DerangementRecurrence),
        describe(CombinatoricsRule::DerangementAsymptotic),
        describe(CombinatoricsRule::VandermondeIdentity),
        describe(CombinatoricsRule::StarsAndBars),
        describe(CombinatoricsRule::CombinationWithRepetition),
        describe(CombinatoricsRule::BinomialWeightedSum),
        describe(CombinatoricsRule::BinomialSquaresSum),
        describe(CombinatoricsRule::HockeyStickIdentity),
        describe(CombinatoricsRule::CatalanFormula),
        describe(CombinatoricsRule::CatalanRecurrence),
        describe(CombinatoricsRule::StirlingFirstRecurrence),
        describe(CombinatoricsRule::StirlingSecondRecurrence),
        describe(CombinatoricsRule::PartitionRecurrence),
        describe(CombinatoricsRule::ChuVandermonde),
        describe(CombinatoricsRule::MultinomialTheorem),
        describe(CombinatoricsRule::PigeonholePrinciple),
        describe(CombinatoricsRule::AdvancedInclusionExclusion2),
        describe(CombinatoricsRule::AdvancedInclusionExclusion3),
        describe(CombinatoricsRule::DoubleCounting),
        describe(CombinatoricsRule::OrdinaryGf),
        describe(CombinatoricsRule::ExponentialGf),
        describe(CombinatoricsRule::BinomialSum2n),
        describe(CombinatoricsRule::BinomialAlternatingSum),
        describe(CombinatoricsRule::AdvancedPermutationFormula),
        describe(CombinatoricsRule::CircularPermutation),
        describe(CombinatoricsRule::BellNumberRecurrence),
        describe(CombinatoricsRule::MultinomialCoefficient),
        describe(CombinatoricsRule::Subfactorial),
        describe(CombinatoricsRule::ChristmasStocking),
        describe(CombinatoricsRule::RisingFactorial),
        describe(CombinatoricsRule::FallingFactorial),
        describe(CombinatoricsRule::LegendreFormula),
        describe(CombinatoricsRule::KummerTheorem),
        describe(CombinatoricsRule::LucasTheorem),
        describe(CombinatoricsRule::BurnsideLemma),
        describe(CombinatoricsRule::PolyaEnumeration),
        describe(CombinatoricsRule::CatalanAlternative),
        describe(CombinatoricsRule::PartitionIntoParts),
        describe(CombinatoricsRule::PatternAvoidance),
        describe(CombinatoricsRule::DerangementSimpleRecurrence),
        describe(CombinatoricsRule::FibonacciGeneratingFunction),
        describe(CombinatoricsRule::FibonacciAddition),
        describe(CombinatoricsRule::FibonacciGcd),
        describe(CombinatoricsRule::LucasNumbers),
        describe(CombinatoricsRule::PermutationWithRepetition),
    ];
    proof {
        assert(rules@ =~= advanced_combinatorics_kinds().map_values(|k: CombinatoricsRule| catalog(k)));
    }
    rules
}

/// All combinatorics rules: binomial coefficients, counting, recurrences, then the advanced rules.
pub open spec fn combinatorics_kinds() -> Seq<CombinatoricsRule> {
    binomial_kinds() + counting_kinds() + recurrence_kinds() + advanced_combinatorics_kinds()
}

/// All combinatorics rules, in the order of [`combinatorics_kinds`].
pub fn combinatorics_rules() -> (rules: Vec<Rule>)
    ensures
        rules@ == combinatorics_kinds().map_values(|k: CombinatoricsRule| catalog(k)),
        rules.len() == 66,
        forall|i: int|
            0 <= i < rules.len() ==> 400 <= #[trigger] rules[i].id.0 <= 442 || 600 <= rules[i].id.0 <= 669,
        rules@ == crate::rule::combinatorics_catalogue(),
        crate::rule::ids_distinct(rules@),
{
    let mut rules: Vec<Rule> = Vec::new();
    extend_rules(&mut rules, binomial_rules());
    extend_rules(&mut rules, counting_rules());
    extend_rules(&mut rules, recurrence_rules());
    extend_rules(&mut rules, advanced_combinatorics_rules());
    proof {
        let f = |k: CombinatoricsRule| catalog(k);
        assert(rules@ =~= combinatorics_kinds().map_values(f));
        assert forall|i: int| 0 <= i < rules.len() implies 400 <= #[trigger] rules[i].id.0 <= 442 || 600
            <= rules[i].id.0 <= 669 by {
            lemma_catalog_ids(combinatorics_kinds()[i]);
        }
    }
    proof {
        assert(rules@ =~= crate::rule::combinatorics_catalogue());
        lemma_catalogue_numbers_distinct();
        assert forall|i: int, j: int| 0 <= i < j < rules@.len() implies #[trigger] rules@[i].id
            != #[trigger] rules@[j].id by {
            assert(rules@[i] == catalog(combinatorics_kinds()[i]));
            assert(rules@[j] == catalog(combinatorics_kinds()[j]));
        }
    }
    rules
}

/// Every combinatorics rule is numbered in `400..=442` or `600..=669`.
pub proof fn lemma_catalog_ids(k: CombinatoricsRule)
    ensures
        400 <= catalog(k).id.0 <= 442 || 600 <= catalog(k).id.0 <= 669,
{
}

/// Whether rule `k` matches `e`.
pub open spec fn applies(k: CombinatoricsRule, e: Expr) -> bool {
    match k {
        CombinatoricsRule::BinomialZero => e matches Expr::Binomial(_, k) && is_zero_const(*k),
        CombinatoricsRule::BinomialFull => e matches Expr::Binomial(a, b) && *a matches Expr::Var(vn) && (*b matches Expr::Var(vk) && vk == vn),
        CombinatoricsRule::BinomialOne => e matches Expr::Binomial(_, k) && *k == lit(1),
        CombinatoricsRule::BinomialSymmetry => e is Binomial,
        CombinatoricsRule::PascalIdentity => e is Binomial,
        CombinatoricsRule::HockeyStick => hockey_stick_lower(e) is Some,
        CombinatoricsRule::Vandermonde => e is Summation,
        CombinatoricsRule::BinomialSum => e is Summation,
        CombinatoricsRule::BinomialTheorem => e matches Expr::Pow(base, _) && *base is Add,
        CombinatoricsRule::PermutationFormula => e is Var,
        CombinatoricsRule::CombinationFormula => e is Var,
        CombinatoricsRule::Pigeonhole => e is Var,
        CombinatoricsRule::PigeonholeGen => e is Var,
        CombinatoricsRule::InclusionExclusion2 => e is Var,
        CombinatoricsRule::InclusionExclusion3 => e is Var,
        CombinatoricsRule::Derangement => e is Var,
        CombinatoricsRule::Catalan => e is Var,
        CombinatoricsRule::FibonacciRecurrence => e is Var,
        CombinatoricsRule::BinetFormula => e is Var,
        CombinatoricsRule::LinearRecurrence => e is Var,
        CombinatoricsRule::DerangementFormula => e is Var,
        CombinatoricsRule::DerangementRecurrence => e is Var,
        CombinatoricsRule::DerangementAsymptotic => e is Var,
        CombinatoricsRule::VandermondeIdentity => e is Summation,
        CombinatoricsRule::StarsAndBars => e is Var,
        CombinatoricsRule::CombinationWithRepetition => e is Var,
        CombinatoricsRule::BinomialWeightedSum => e is Summation,
        CombinatoricsRule::BinomialSquaresSum => e is Summation,
        CombinatoricsRule::HockeyStickIdentity => hockey_stick_lower(e) is Some,
        CombinatoricsRule::CatalanFormula => e is Var,
        CombinatoricsRule::CatalanRecurrence => e is Var,
        CombinatoricsRule::StirlingFirstRecurrence => e is Var,
        CombinatoricsRule::StirlingSecondRecurrence => e is Var,
        CombinatoricsRule::PartitionRecurrence => e is Var,
        CombinatoricsRule::ChuVandermonde => e is Summation,
        CombinatoricsRule::MultinomialTheorem => e is Pow,
        CombinatoricsRule::PigeonholePrinciple => e is Gte || e is Gt,
        CombinatoricsRule::AdvancedInclusionExclusion2 => e is Var,
        CombinatoricsRule::AdvancedInclusionExclusion3 => e is Var,
        CombinatoricsRule::DoubleCounting => e is Equation,
        CombinatoricsRule::OrdinaryGf => e is Var,
        CombinatoricsRule::ExponentialGf => e is Var,
        CombinatoricsRule::BinomialSum2n => e is Summation,
        CombinatoricsRule::BinomialAlternatingSum => e is Summation,
        CombinatoricsRule::AdvancedPermutationFormula => e is Var,
        CombinatoricsRule::CircularPermutation => e is Var,
        CombinatoricsRule::BellNumberRecurrence => e is Var,
        CombinatoricsRule::MultinomialCoefficient => e is Var,
        CombinatoricsRule::Subfactorial => e is Var,
        CombinatoricsRule::ChristmasStocking => e is Mul,
        CombinatoricsRule::RisingFactorial => e is Var,
        CombinatoricsRule::FallingFactorial => e is Var,
        CombinatoricsRule::LegendreFormula => e is Var,
        CombinatoricsRule::KummerTheorem => e is Var,
        CombinatoricsRule::LucasTheorem => e is Var,
        CombinatoricsRule::BurnsideLemma => e is Var,
        CombinatoricsRule::PolyaEnumeration => e is Var,
        CombinatoricsRule::CatalanAlternative => e is Var,
        CombinatoricsRule::PartitionIntoParts => e is Var,
        CombinatoricsRule::PatternAvoidance => e is Var,
        CombinatoricsRule::DerangementSimpleRecurrence => e is Var,
        CombinatoricsRule::FibonacciGeneratingFunction => e is Var,
        CombinatoricsRule::FibonacciAddition => e is Var,
        CombinatoricsRule::FibonacciGcd => e is Var,
        CombinatoricsRule::LucasNumbers => e is Var,
        CombinatoricsRule::PermutationWithRepetition => e is Pow,
    }
}

/// Whether rule `k` matches `e`.
pub fn can_apply(k: CombinatoricsRule, e: &Expr) -> (r: bool)
    ensures
        r == applies(k, *e),
{
    match k {
        CombinatoricsRule::BinomialZero => {
            if let Expr::Binomial(_, k) = e {
                if let Expr::Const(c) = &**k {
                    return c.is_zero();
                }
            }
            false
        },
        CombinatoricsRule::BinomialFull => {
            if let Expr::Binomial(a, b) = e {
                if let (Expr::Var(vn), Expr::Var(vk)) = (&**a, &**b) {
                    return *vk == *vn;
                }
            }
            false
        },
        CombinatoricsRule::BinomialOne => {
            if let Expr::Binomial(_, k) = e {
                if let Expr::Const(c) = &**k {
                    return c.is_one();
                }
            }
            false
        },
        CombinatoricsRule::BinomialSymmetry => matches!(e, Expr::Binomial(_, _)),
        CombinatoricsRule::PascalIdentity => matches!(e, Expr::Binomial(_, _)),
        CombinatoricsRule::HockeyStick => hockey_stick_lower_exec(e).is_some(),
        CombinatoricsRule::Vandermonde => matches!(e, Expr::Summation { .. }),
        CombinatoricsRule::BinomialSum => matches!(e, Expr::Summation { .. }),
        CombinatoricsRule::BinomialTheorem => if let Expr::Pow(base, _) = e { matches!(**base, Expr::Add(_, _)) } else { false },
        CombinatoricsRule::PermutationFormula => matches!(e, Expr::Var(_)),
        CombinatoricsRule::CombinationFormula => matches!(e, Expr::Var(_)),
        CombinatoricsRule::Pigeonhole => matches!(e, Expr::Var(_)),
        CombinatoricsRule::PigeonholeGen => matches!(e, Expr::Var(_)),
        CombinatoricsRule::InclusionExclusion2 => matches!(e, Expr::Var(_)),
        CombinatoricsRule::InclusionExclusion3 => matches!(e, Expr::Var(_)),
        CombinatoricsRule::Derangement => matches!(e, Expr::Var(_)),
        CombinatoricsRule::Catalan => matches!(e, Expr::Var(_)),
        CombinatoricsRule::FibonacciRecurrence => matches!(e, Expr::Var(_)),
        CombinatoricsRule::BinetFormula => matches!(e, Expr::Var(_)),
        CombinatoricsRule::LinearRecurrence => matches!(e, Expr::Var(_)),
        CombinatoricsRule::DerangementFormula => matches!(e, Expr::Var(_)),
        CombinatoricsRule::DerangementRecurrence => matches!(e, Expr::Var(_)),
        CombinatoricsRule::DerangementAsymptotic => matches!(e, Expr::Var(_)),
        CombinatoricsRule::VandermondeIdentity => matches!(e, Expr::Summation { .. }),
        CombinatoricsRule::StarsAndBars => matches!(e, Expr::Var(_)),
        CombinatoricsRule::CombinationWithRepetition => matches!(e, Expr::Var(_)),
        CombinatoricsRule::BinomialWeightedSum => matches!(e, Expr::Summation { .. }),
        CombinatoricsRule::BinomialSquaresSum => matches!(e, Expr::Summation { .. }),
        CombinatoricsRule::HockeyStickIdentity => hockey_stick_lower_exec(e).is_some(),
        CombinatoricsRule::CatalanFormula => matches!(e, Expr::Var(_)),
        CombinatoricsRule::CatalanRecurrence => matches!(e, Expr::Var(_)),
        CombinatoricsRule::StirlingFirstRecurrence => matches!(e, Expr::Var(_)),
        CombinatoricsRule::StirlingSecondRecurrence => matches!(e, Expr::Var(_)),
        CombinatoricsRule::PartitionRecurrence => matches!(e, Expr::Var(_)),
        CombinatoricsRule::ChuVandermonde => matches!(e, Expr::Summation { .. }),
        CombinatoricsRule::MultinomialTheorem => matches!(e, Expr::Pow(_, _)),
        CombinatoricsRule::PigeonholePrinciple => matches!(e, Expr::Gte(_, _) | Expr::Gt(_, _)),
        CombinatoricsRule::AdvancedInclusionExclusion2 => matches!(e, Expr::Var(_)),
        CombinatoricsRule::AdvancedInclusionExclusion3 => matches!(e, Expr::Var(_)),
        CombinatoricsRule::DoubleCounting => matches!(e, Expr::Equation { .. }),
        CombinatoricsRule::OrdinaryGf => matches!(e, Expr::Var(_)),
        CombinatoricsRule::ExponentialGf => matches!(e, Expr::Var(_)),
        CombinatoricsRule::BinomialSum2n => matches!(e, Expr::Summation { .. }),
        CombinatoricsRule::BinomialAlternatingSum => matches!(e, Expr::Summation { .. }),
        CombinatoricsRule::AdvancedPermutationFormula => matches!(e, Expr::Var(_)),
        CombinatoricsRule::CircularPermutation => matches!(e, Expr::Var(_)),
        CombinatoricsRule::BellNumberRecurrence => matches!(e, Expr::Var(_)),
        CombinatoricsRule::MultinomialCoefficient => matches!(e, Expr::Var(_)),
        CombinatoricsRule::Subfactorial => matches!(e, Expr::Var(_)),
        CombinatoricsRule::ChristmasStocking => matches!(e, Expr::Mul(_, _)),
        CombinatoricsRule::RisingFactorial => matches!(e, Expr::Var(_)),
        CombinatoricsRule::FallingFactorial => matches!(e, Expr::Var(_)),
        CombinatoricsRule::LegendreFormula => matches!(e, Expr::Var(_)),
        CombinatoricsRule::KummerTheorem => matches!(e, Expr::Var(_)),
        CombinatoricsRule::LucasTheorem => matches!(e, Expr::Var(_)),
        CombinatoricsRule::BurnsideLemma => matches!(e, Expr::Var(_)),
        CombinatoricsRule::PolyaEnumeration => matches!(e, Expr::Var(_)),
        CombinatoricsRule::CatalanAlternative => matches!(e, Expr::Var(_)),
        CombinatoricsRule::PartitionIntoParts => matches!(e, Expr::Var(_)),
        CombinatoricsRule::PatternAvoidance => matches!(e, Expr::Var(_)),
        CombinatoricsRule::DerangementSimpleRecurrence => matches!(e, Expr::Var(_)),
        CombinatoricsRule::FibonacciGeneratingFunction => matches!(e, Expr::Var(_)),
        CombinatoricsRule::FibonacciAddition => matches!(e, Expr::Var(_)),
        CombinatoricsRule::FibonacciGcd => matches!(e, Expr::Var(_)),
        CombinatoricsRule::LucasNumbers => matches!(e, Expr::Var(_)),
        CombinatoricsRule::PermutationWithRepetition => matches!(e, Expr::Pow(_, _)),
    }
}

/// What the rule `derangement_formula` gives for `e`.
pub open spec fn derangement_formula_results(e: Expr) -> Seq<Outcome> {
    match e {
        Expr::Var(s) => single(
            eqn(e, times(fact(Expr::Var(s)), sum_over(intern_symbol("k"), lit(0), Expr::Var(s), over(power(negate(lit(1)), named("k")), fact(named("k")))))),
            "Derangement closed form: D(n) = n! * Σ_{k=0..n} (-1)^k / k!"@,
        ),
        _ => seq![],
    }
}

/// What the rule `vandermonde_identity` gives for `e`.
pub open spec fn vandermonde_identity_results(e: Expr) -> Seq<Outcome> {
    match e {
        Expr::Summation { var: k, to, body, .. } => {
            let fallback = single(binom(plus(named("r"), named("s")), *to), "Vandermonde identity"@);
            match *body {
                Expr::Mul(a, b) => match (*a, *b) {
                    (Expr::Binomial(m, k1), Expr::Binomial(j, rk)) => match *rk {
                        Expr::Sub(r, ks) => if *k1 == Expr::Var(k) && *ks == Expr::Var(k) {
                            single(binom(plus(*m, *j), *r), "Vandermonde: Σ C(r,k) C(s,n-k) = C(r+s,n)"@)
                        } else {
                            fallback
                        },
                        _ => fallback,
                    },
                    _ => fallback,
                },
                _ => fallback,
            }
        },
        _ => seq![],
    }
}

/// What the rule `hockey_stick_identity` gives for `e`.
pub open spec fn hockey_stick_identity_results(e: Expr) -> Seq<Outcome> {
    match (e, hockey_stick_lower(e)) {
        (Expr::Summation { to, .. }, Some(k)) => single(
            binom(plus(*to, lit(1)), plus(k, lit(1))),
            "Hockey stick: Σ_{i=k..n} C(i,k) = C(n+1,k+1)"@,
        ),
        _ => seq![],
    }
}

/// The `k` of a sum `Σ_i C(i, k)` whose terms are binomial coefficients of
/// the summation variable over a `k` free of it; `None` for any other `e`.
pub open spec fn hockey_stick_lower(e: Expr) -> Option<Expr> {
    match e {
        Expr::Summation { var, body, .. } => match *body {
            Expr::Binomial(top, k) => if *top == Expr::Var(var) && !crate::calculus::mentions(*k, var) {
                Some(*k)
            } else {
                None
            },
            _ => None,
        },
        _ => None,
    }
}

/// What the rule `catalan_formula` gives for `e`.
pub open spec fn catalan_formula_results(e: Expr) -> Seq<Outcome> {
    match e {
        Expr::Var(s) => single(
            eqn(e, over(binom(times(lit(2), Expr::Var(s)), Expr::Var(s)), plus(Expr::Var(s), lit(1)))),
            "Catalan closed form: C_n = C(2n,n)/(n+1)"@,
        ),
        _ => seq![],
    }
}

/// What rule `k` gives for `e`.
pub open spec fn results(k: CombinatoricsRule, e: Expr) -> Seq<Outcome> {
    match k {
        CombinatoricsRule::BinomialZero => single(
            lit(1),
            "C(n,0) = 1"@,
        ),
        CombinatoricsRule::BinomialFull => single(
            lit(1),
            "C(n,n) = 1"@,
        ),
        CombinatoricsRule::BinomialOne => match e {
            Expr::Binomial(m, _) => single(*m, "C(n,1) = n"@),
            _ => seq![],
        },
        CombinatoricsRule::BinomialSymmetry => match e {
            Expr::Binomial(m, j) => single(eqn(e, binom(*m, minus(*m, *j))), "Binomial symmetry C(n,k)=C(n,n-k)"@),
            _ => seq![],
        },
        CombinatoricsRule::PascalIdentity => match e {
            Expr::Binomial(m, j) => single(
                eqn(e, plus(binom(minus(*m, lit(1)), minus(*j, lit(1))), binom(minus(*m, lit(1)), *j))),
                "Pascal identity"@,
            ),
            _ => seq![],
        },
        CombinatoricsRule::HockeyStick => hockey_stick_identity_results(e),
        CombinatoricsRule::Vandermonde => vandermonde_identity_results(e),
        CombinatoricsRule::BinomialSum => match e {
            Expr::Summation { to, .. } => single(power(lit(2), *to), "Σ_{k=0..n} C(n,k) = 2^n"@),
            _ => seq![],
        },
        CombinatoricsRule::BinomialTheorem => match e {
            Expr::Pow(base, exp) => match *base {
                Expr::Add(a, b) => single(eqn(e, binomial_expansion(*a, *b, *exp)), "Binomial theorem expansion"@),
                _ => seq![],
            },
            _ => seq![],
        },
        CombinatoricsRule::PermutationFormula => single(
            eqn(e, over(fact(named("n")), fact(minus(named("n"), named("k"))))),
            "Permutation count P(n,k)"@,
        ),
        CombinatoricsRule::CombinationFormula => single(
            eqn(e, over(fact(named("n")), times(fact(named("k")), fact(minus(named("n"), named("k")))))),
            "Combination formula C(n,k)"@,
        ),
        CombinatoricsRule::Pigeonhole => single(
            eqn(e, Expr::Gte(Box::new(plus(named("n"), lit(1))), Box::new(named("box_with_2")))),
            "Pigeonhole principle"@,
        ),
        CombinatoricsRule::PigeonholeGen => single(
            eqn(e, Expr::Ceiling(Box::new(over(named("n"), named("k"))))),
            "Generalized pigeonhole"@,
        ),
        CombinatoricsRule::InclusionExclusion2 => single(
            eqn(e, minus(plus(named("A"), named("B")), named("A∩B"))),
            "|A∪B| = |A| + |B| - |A∩B|"@,
        ),
        CombinatoricsRule::InclusionExclusion3 => single(
            eqn(e, plus(minus(minus(plus(plus(named("A"), named("B")), named("C")), plus(named("A∩B"), named("A∩C"))), named("B∩C")), named("A∩B∩C"))),
            "3-set inclusion-exclusion"@,
        ),
        CombinatoricsRule::Derangement => derangement_formula_results(e),
        CombinatoricsRule::Catalan => catalan_formula_results(e),
        CombinatoricsRule::FibonacciRecurrence => single(
            eqn(e, plus(named("F(n-1)"), named("F(n-2)"))),
            "Fibonacci recurrence"@,
        ),
        CombinatoricsRule::BinetFormula => single(
            eqn(e, over(minus(power(over(plus(lit(1), root(lit(5))), lit(2)), named("n")), power(over(minus(lit(1), root(lit(5))), lit(2)), named("n"))), root(lit(5)))),
            "Binet formula"@,
        ),
        CombinatoricsRule::LinearRecurrence => single(
            eqn(e, named("characteristic_polynomial(r)")),
            "Linear recurrence solved via characteristic equation"@,
        ),
        CombinatoricsRule::DerangementFormula => derangement_formula_results(e),
        CombinatoricsRule::DerangementRecurrence => match e {
            Expr::Var(s) => single(
                eqn(e, times(minus(Expr::Var(s), lit(1)), plus(named("D(n-1)"), named("D(n-2)")))),
                "Derangement recurrence: D(n) = (n-1)(D(n-1)+D(n-2))"@,
            ),
            _ => seq![],
        },
        CombinatoricsRule::DerangementAsymptotic => match e {
            Expr::Var(s) => single(
                eqn(e, over(fact(Expr::Var(s)), Expr::E)),
                "Derangement asymptotic: D(n) ≈ n!/e"@,
            ),
            _ => seq![],
        },
        CombinatoricsRule::VandermondeIdentity => vandermonde_identity_results(e),
        CombinatoricsRule::StarsAndBars => single(
            binom(minus(plus(named("n"), named("k")), lit(1)), minus(named("k"), lit(1))),
            "Stars and bars: #solutions to x1+..+xk=n (xi≥0) is C(n+k-1, k-1)"@,
        ),
        CombinatoricsRule::CombinationWithRepetition => single(
            binom(minus(plus(named("n"), named("k")), lit(1)), named("k")),
            "Combinations with repetition: C(n+k-1, k)"@,
        ),
        CombinatoricsRule::BinomialWeightedSum => match e {
            Expr::Summation { var: k, body, .. } => match *body {
                Expr::Mul(coeff, bn) => match *bn {
                    Expr::Binomial(m, kk) => if *coeff == Expr::Var(k) && *kk == Expr::Var(k) {
                        single(times(*m, power(lit(2), minus(*m, lit(1)))), "Σ_{k=0..n} k*C(n,k) = n*2^(n-1)"@)
                    } else {
                        seq![]
                    },
                    _ => seq![],
                },
                _ => seq![],
            },
            _ => seq![],
        },
        CombinatoricsRule::BinomialSquaresSum => match e {
            Expr::Summation { var: k, from, body, .. } => match *body {
                Expr::Pow(bn, exp) => match *bn {
                    Expr::Binomial(m, kk) => if *exp == lit(2) && is_zero_const(*from) && *kk == Expr::Var(k) {
                        single(binom(times(lit(2), *m), *m), "Σ_{k=0..n} C(n,k)^2 = C(2n, n)"@)
                    } else {
                        seq![]
                    },
                    _ => seq![],
                },
                _ => seq![],
            },
            _ => seq![],
        },
        CombinatoricsRule::HockeyStickIdentity => hockey_stick_identity_results(e),
        CombinatoricsRule::CatalanFormula => catalan_formula_results(e),
        CombinatoricsRule::CatalanRecurrence => match e {
            Expr::Var(s) => single(
                eqn(e, sum_over(intern_symbol("i"), lit(0), Expr::Var(s), times(named("C(i)"), named("C(n-i)")))),
                "Catalan recurrence: C(n+1) = Σ_{i=0..n} C(i)·C(n-i)"@,
            ),
            _ => seq![],
        },
        CombinatoricsRule::StirlingFirstRecurrence => single(
            eqn(e, minus(named("s(n-1,k-1)"), times(minus(named("n"), lit(1)), named("s(n-1,k)")))),
            "Stirling (1st kind) recurrence: s(n,k) = s(n-1,k-1) - (n-1)·s(n-1,k)"@,
        ),
        CombinatoricsRule::StirlingSecondRecurrence => single(
            eqn(e, plus(times(named("k"), named("S(n-1,k)")), named("S(n-1,k-1)"))),
            "Stirling (2nd kind) recurrence: S(n,k) = k·S(n-1,k) + S(n-1,k-1)"@,
        ),
        CombinatoricsRule::PartitionRecurrence => single(
            eqn(e, sum_over(intern_symbol("k"), lit(1), named("n"), times(power(negate(lit(1)), plus(named("k"), lit(1))), named("p(n-k(3k-1)/2)")))),
            "Pentagonal partition recurrence"@,
        ),
        CombinatoricsRule::ChuVandermonde => single(
            eqn(e, binom(minus(named("a"), named("b")), named("n"))),
            "Chu-Vandermonde: Σ_{k} C(a,k) C(b,n-k) (-1)^{n-k} = C(a-b,n)"@,
        ),
        CombinatoricsRule::MultinomialTheorem => match e {
            Expr::Pow(base, _) => single(
                eqn(e, sum_over(intern_symbol("i"), lit(0), named("n"), times(over(fact(named("n")), named("∏ n_i!")), *base))),
                "Multinomial expansion schematic"@,
            ),
            _ => seq![],
        },
        CombinatoricsRule::PigeonholePrinciple => single(
            Expr::Gte(Box::new(plus(named("n"), lit(1))), Box::new(named("2 in box"))),
            "Pigeonhole: if n+1 objects go into n boxes, some box has ≥2 objects"@,
        ),
        CombinatoricsRule::AdvancedInclusionExclusion2 => single(
            eqn(e, minus(plus(named("A"), named("B")), named("A∩B"))),
            "|A∪B| = |A| + |B| - |A∩B|"@,
        ),
        CombinatoricsRule::AdvancedInclusionExclusion3 => single(
            eqn(e, plus(minus(minus(plus(plus(named("A"), named("B")), named("C")), plus(named("A∩B"), named("A∩C"))), named("B∩C")), named("A∩B∩C"))),
            "3-set inclusion-exclusion: |A∪B∪C| = |A|+|B|+|C| - |A∩B| - |A∩C| - |B∩C| + |A∩B∩C|"@,
        ),
        CombinatoricsRule::DoubleCounting => single(
            eqn(e, named("second_count")),
            "Double counting: equate two counts of same set"@,
        ),
        CombinatoricsRule::OrdinaryGf => single(
            eqn(e, sum_over(intern_symbol("n"), lit(0), named("∞"), times(named("a_n"), power(named("x"), named("n"))))),
            "Ordinary generating function: Σ a_n x^n"@,
        ),
        CombinatoricsRule::ExponentialGf => single(
            eqn(e, sum_over(intern_symbol("n"), lit(0), named("∞"), over(times(named("a_n"), power(named("x"), named("n"))), fact(named("n"))))),
            "Exponential generating function: Σ a_n x^n / n!"@,
        ),
        CombinatoricsRule::BinomialSum2n => match e {
            Expr::Summation { to, .. } => single(power(lit(2), *to), "Σ_{k=0..n} C(n,k) = 2^n"@),
            _ => seq![],
        },
        CombinatoricsRule::BinomialAlternatingSum => single(
            lit(0),
            "Σ (-1)^k * C(n,k) = 0 for n > 0"@,
        ),
        CombinatoricsRule::AdvancedPermutationFormula => single(
            eqn(e, over(fact(named("n")), fact(minus(named("n"), named("k"))))),
            "Permutation formula: P(n,k) = n!/(n-k)!"@,
        ),
        CombinatoricsRule::CircularPermutation => single(
            eqn(e, fact(minus(named("n"), lit(1)))),
            "Circular permutations count = (n-1)!"@,
        ),
        CombinatoricsRule::BellNumberRecurrence => single(
            eqn(named("B(n+1)"), sum_over(intern_symbol("k"), lit(0), named("n"), times(binom(named("n"), named("k")), named("B(k)")))),
            "Bell recurrence: B(n+1) = Σ_{k=0..n} C(n,k) B(k)"@,
        ),
        CombinatoricsRule::MultinomialCoefficient => single(
            eqn(e, over(fact(named("n")), named("k1!...km!"))),
            "Multinomial coefficient n!/(k1!k2!...km!)"@,
        ),
        CombinatoricsRule::Subfactorial => single(
            eqn(named("!n"), named("D(n)")),
            "Subfactorial !n equals derangements D(n)"@,
        ),
        CombinatoricsRule::ChristmasStocking => if e is Mul {
            single(
                times(binom(named("n"), named("k")), binom(minus(named("n"), named("k")), minus(named("m"), named("k")))),
                "C(n,m)C(m,k) = C(n,k)C(n-k,m-k)"@,
            )
        } else {
            seq![]
        },
        CombinatoricsRule::RisingFactorial => single(
            eqn(e, product_over(intern_symbol("i"), lit(0), minus(named("n"), lit(1)), plus(named("x"), named("i")))),
            "Rising factorial (x)_n = ∏_{i=0}^{n-1} (x+i)"@,
        ),
        CombinatoricsRule::FallingFactorial => single(
            eqn(e, product_over(intern_symbol("i"), lit(0), minus(named("n"), lit(1)), minus(named("x"), named("i")))),
            "Falling factorial x^{(n)} = ∏_{i=0}^{n-1} (x-i)"@,
        ),
        CombinatoricsRule::LegendreFormula => single(
            eqn(e, sum_over(intern_symbol("k"), lit(1), named("∞"), Expr::Floor(Box::new(over(named("n"), power(named("p"), named("k"))))))),
            "Legendre: v_p(n!) = Σ_{k≥1} ⌊n/p^k⌋"@,
        ),
        CombinatoricsRule::KummerTheorem => single(
            eqn(named("v_p(C(m+n,m))"), named("carries_base_p(m,n)")),
            "Kummer: valuation equals base-p carry count"@,
        ),
        CombinatoricsRule::LucasTheorem => single(
            eqn(Expr::Mod(Box::new(binom(named("m"), named("n"))), Box::new(named("p"))), named("∏ C(m_i,n_i) mod p")),
            "Lucas theorem via base-p digits"@,
        ),
        CombinatoricsRule::BurnsideLemma => single(
            eqn(e, over(sum_over(intern_symbol("i"), lit(1), named("G"), named("|X^g|")), named("G"))),
            "Burnside: orbits |X/G| = (1/|G|) Σ |Fix(g)|"@,
        ),
        CombinatoricsRule::PolyaEnumeration => single(
            eqn(e, named("Z_G")),
            "Polya: use cycle index Z_G to count orbits"@,
        ),
        CombinatoricsRule::CatalanAlternative => single(
            eqn(e, over(fact(times(lit(2), named("n"))), times(fact(named("n")), fact(plus(named("n"), lit(1)))))),
            "Catalan closed form (alternative)"@,
        ),
        CombinatoricsRule::PartitionIntoParts => single(
            eqn(e, plus(named("p(n-1,k-1)"), named("p(n-k,k)"))),
            "Partition recurrence p(n,k) = p(n-1,k-1)+p(n-k,k)"@,
        ),
        CombinatoricsRule::PatternAvoidance => single(
            eqn(e, named("count_avoiding_pattern")),
            "Pattern avoidance counting (schematic)"@,
        ),
        CombinatoricsRule::DerangementSimpleRecurrence => single(
            eqn(e, plus(times(named("n"), named("D(n-1)")), power(negate(lit(1)), named("n")))),
            "Derangement recurrence D(n)=n·D(n-1)+(-1)^n"@,
        ),
        CombinatoricsRule::FibonacciGeneratingFunction => single(
            eqn(e, over(named("x"), minus(minus(lit(1), named("x")), power(named("x"), lit(2))))),
            "Fibonacci OGF: Σ F_n x^n = x/(1 - x - x^2)"@,
        ),
        CombinatoricsRule::FibonacciAddition => single(
            eqn(e, plus(times(named("F(m)"), named("F(n+1)")), times(named("F(m-1)"), named("F(n)")))),
            "Fibonacci addition formula"@,
        ),
        CombinatoricsRule::FibonacciGcd => single(
            eqn(e, named("F(gcd(m,n))")),
            "gcd(F(m),F(n)) = F(gcd(m,n))"@,
        ),
        CombinatoricsRule::LucasNumbers => single(
            eqn(e, plus(named("F(n-1)"), named("F(n+1)"))),
            "Lucas numbers L(n)=F(n-1)+F(n+1)"@,
        ),
        CombinatoricsRule::PermutationWithRepetition => match e {
            Expr::Pow(b, x) => single(power(*b, *x), "Permutations with repetition: n choices k times"@),
            _ => seq![],
        },
    }
}

fn binomial_zero() -> (r: Vec<RuleApplication>)
    ensures
        outcomes(r@) == results(CombinatoricsRule::BinomialZero, Expr::Pi),
{
    one(
        lit(1),
        "C(n,0) = 1",
    )
}

fn binomial_full() -> (r: Vec<RuleApplication>)
    ensures
        outcomes(r@) == results(CombinatoricsRule::BinomialFull, Expr::Pi),
{
    one(
        lit(1),
        "C(n,n) = 1",
    )
}

fn binomial_one(e: &Expr) -> (r: Vec<RuleApplication>)
    ensures
        outcomes(r@) == results(CombinatoricsRule::BinomialOne, *e),
{
    if let Expr::Binomial(m, _) = e {
        return one(cl(m), "C(n,1) = n");
    }
    none()
}

fn binomial_symmetry(e: &Expr) -> (r: Vec<RuleApplication>)
    ensures
        outcomes(r@) == results(CombinatoricsRule::BinomialSymmetry, *e),
{
    if let Expr::Binomial(m, j) = e {
        return one(eqn(cl(e), binom(cl(m), minus(cl(m), cl(j)))), "Binomial symmetry C(n,k)=C(n,n-k)");
    }
    none()
}

fn pascal_identity(e: &Expr) -> (r: Vec<RuleApplication>)
    ensures
        outcomes(r@) == results(CombinatoricsRule::PascalIdentity, *e),
{
    if let Expr::Binomial(m, j) = e {
        let m_minus_1 = minus(cl(m), lit(1));
        let j_minus_1 = minus(cl(j), lit(1));
        let rhs = plus(binom(cl(&m_minus_1), j_minus_1), binom(m_minus_1, cl(j)));
        return one(eqn(cl(e), rhs), "Pascal identity");
    }
    none()
}

fn binomial_sum(e: &Expr) -> (r: Vec<RuleApplication>)
    ensures
        outcomes(r@) == results(CombinatoricsRule::BinomialSum, *e),
{
    if let Expr::Summation { to, .. } = e {
        return one(power(lit(2), cl(to)), "Σ_{k=0..n} C(n,k) = 2^n");
    }
    none()
}

fn binomial_theorem(e: &Expr) -> (r: Vec<RuleApplication>)
    ensures
        outcomes(r@) == results(CombinatoricsRule::BinomialTheorem, *e),
{
    if let Expr::Pow(base, exp) = e {
        if let Expr::Add(a, b) = &**base {
            let k = intern_symbol("k");
            let term = times(
                binom(cl(exp), Expr::Var(k)),
                times(power(cl(a), Expr::Var(k)), power(cl(b), minus(cl(exp), Expr::Var(k)))),
            );
            let sum = sum_over(k, lit(0), cl(exp), term);
            return one(eqn(cl(e), sum), "Binomial theorem expansion");
        }
    }
    none()
}

fn permutation_formula(e: &Expr) -> (r: Vec<RuleApplication>)
    ensures
        outcomes(r@) == results(CombinatoricsRule::PermutationFormula, *e),
{
    one(
        eqn(cl(e), over(fact(named("n")), fact(minus(named("n"), named("k"))))),
        "Permutation count P(n,k)",
    )
}

fn combination_formula(e: &Expr) -> (r: Vec<RuleApplication>)
    ensures
        outcomes(r@) == results(CombinatoricsRule::CombinationFormula, *e),
{
    one(
        eqn(cl(e), over(fact(named("n")), times(fact(named("k")), fact(minus(named("n"), named("k")))))),
        "Combination formula C(n,k)",
    )
}

fn pigeonhole(e: &Expr) -> (r: Vec<RuleApplication>)
    ensures
        outcomes(r@) == results(CombinatoricsRule::Pigeonhole, *e),
{
    one(
        eqn(cl(e), Expr::Gte(Box::new(plus(named("n"), lit(1))), Box::new(named("box_with_2")))),
        "Pigeonhole principle",
    )
}

fn pigeonhole_gen(e: &Expr) -> (r: Vec<RuleApplication>)
    ensures
        outcomes(r@) == results(CombinatoricsRule::PigeonholeGen, *e),
{
    one(
        eqn(cl(e), Expr::Ceiling(Box::new(over(named("n"), named("k"))))),
        "Generalized pigeonhole",
    )
}

fn inclusion_exclusion2(e: &Expr) -> (r: Vec<RuleApplication>)
    ensures
        outcomes(r@) == results(CombinatoricsRule::InclusionExclusion2, *e),
{
    one(
        eqn(cl(e), minus(plus(named("A"), named("B")), named("A∩B"))),
        "|A∪B| = |A| + |B| - |A∩B|",
    )
}

fn inclusion_exclusion3(e: &Expr) -> (r: Vec<RuleApplication>)
    ensures
        outcomes(r@) == results(CombinatoricsRule::InclusionExclusion3, *e),
{
    one(
        eqn(cl(e), plus(minus(minus(plus(plus(named("A"), named("B")), named("C")), plus(named("A∩B"), named("A∩C"))), named("B∩C")), named("A∩B∩C"))),
        "3-set inclusion-exclusion",
    )
}

fn fibonacci_recurrence(e: &Expr) -> (r: Vec<RuleApplication>)
    ensures
        outcomes(r@) == results(CombinatoricsRule::FibonacciRecurrence, *e),
{
    one(
        eqn(cl(e), plus(named("F(n-1)"), named("F(n-2)"))),
        "Fibonacci recurrence",
    )
}

fn binet_formula(e: &Expr) -> (r: Vec<RuleApplication>)
    ensures
        outcomes(r@) == results(CombinatoricsRule::BinetFormula, *e),
{
    one(
        eqn(cl(e), over(minus(power(over(plus(lit(1), root(lit(5))), lit(2)), named("n")), power(over(minus(lit(1), root(lit(5))), lit(2)), named("n"))), root(lit(5)))),
        "Binet formula",
    )
}

fn linear_recurrence(e: &Expr) -> (r: Vec<RuleApplication>)
    ensures
        outcomes(r@) == results(CombinatoricsRule::LinearRecurrence, *e),
{
    one(
        eqn(cl(e), named("characteristic_polynomial(r)")),
        "Linear recurrence solved via characteristic equation",
    )
}

fn derangement_formula(e: &Expr) -> (r: Vec<RuleApplication>)
    ensures
        outcomes(r@) == results(CombinatoricsRule::DerangementFormula, *e),
{
    if let Expr::Var(v) = e {
        let s = *v;
        one(
            eqn(cl(e), times(fact(Expr::Var(s)), sum_over(intern_symbol("k"), lit(0), Expr::Var(s), over(power(negate(lit(1)), named("k")), fact(named("k")))))),
            "Derangement closed form: D(n) = n! * Σ_{k=0..n} (-1)^k / k!",
        )
    } else {
        none()
    }
}

fn derangement_recurrence(e: &Expr) -> (r: Vec<RuleApplication>)
    ensures
        outcomes(r@) == results(CombinatoricsRule::DerangementRecurrence, *e),
{
    if let Expr::Var(v) = e {
        let s = *v;
        one(
            eqn(cl(e), times(minus(Expr::Var(s), lit(1)), plus(named("D(n-1)"), named("D(n-2)")))),
            "Derangement recurrence: D(n) = (n-1)(D(n-1)+D(n-2))",
        )
    } else {
        none()
    }
}

fn derangement_asymptotic(e: &Expr) -> (r: Vec<RuleApplication>)
    ensures
        outcomes(r@) == results(CombinatoricsRule::DerangementAsymptotic, *e),
{
    if let Expr::Var(v) = e {
        let s = *v;
        one(
            eqn(cl(e), over(fact(Expr::Var(s)), Expr::E)),
            "Derangement asymptotic: D(n) ≈ n!/e",
        )
    } else {
        none()
    }
}

fn vandermonde_identity(e: &Expr) -> (r: Vec<RuleApplication>)
    ensures
        outcomes(r@) == results(CombinatoricsRule::VandermondeIdentity, *e),
{
    if let Expr::Summation { var, to, body, .. } = e {
        if let Expr::Mul(a, b) = &**body {
            if let (Expr::Binomial(m, k1), Expr::Binomial(j, rk)) = (&**a, &**b) {
                if let Expr::Sub(r, ks) = &**rk {
                    if is_var_of(k1, *var) && is_var_of(ks, *var) {
                        return one(
                            binom(plus(cl(m), cl(j)), cl(r)),
                            "Vandermonde: Σ C(r,k) C(s,n-k) = C(r+s,n)",
                        );
                    }
                }
            }
        }
        return one(binom(plus(named("r"), named("s")), cl(to)), "Vandermonde identity");
    }
    none()
}

fn stars_and_bars() -> (r: Vec<RuleApplication>)
    ensures
        outcomes(r@) == results(CombinatoricsRule::StarsAndBars, Expr::Pi),
{
    one(
        binom(minus(plus(named("n"), named("k")), lit(1)), minus(named("k"), lit(1))),
        "Stars and bars: #solutions to x1+..+xk=n (xi≥0) is C(n+k-1, k-1)",
    )
}

fn combination_with_repetition() -> (r: Vec<RuleApplication>)
    ensures
        outcomes(r@) == results(CombinatoricsRule::CombinationWithRepetition, Expr::Pi),
{
    one(
        binom(minus(plus(named("n"), named("k")), lit(1)), named("k")),
        "Combinations with repetition: C(n+k-1, k)",
    )
}

fn binomial_weighted_sum(e: &Expr) -> (r: Vec<RuleApplication>)
    ensures
        outcomes(r@) == results(CombinatoricsRule::BinomialWeightedSum, *e),
{
    if let Expr::Summation { var, body, .. } = e {
        if let Expr::Mul(coeff, bn) = &**body {
            if let Expr::Binomial(m, kk) = &**bn {
                if is_var_of(coeff, *var) && is_var_of(kk, *var) {
                    let rhs = times(cl(m), power(lit(2), minus(cl(m), lit(1))));
                    return one(rhs, "Σ_{k=0..n} k*C(n,k) = n*2^(n-1)");
                }
            }
        }
    }
    none()
}

fn binomial_squares_sum(e: &Expr) -> (r: Vec<RuleApplication>)
    ensures
        outcomes(r@) == results(CombinatoricsRule::BinomialSquaresSum, *e),
{
    if let Expr::Summation { var, from, body, .. } = e {
        if let Expr::Pow(bn, exp) = &**body {
            let squared = if let Expr::Const(c) = &**exp { c.numer() == 2 && c.denom() == 1 } else { false };
            if squared && is_const_zero(from) {
                if let Expr::Binomial(m, kk) = &**bn {
                    if is_var_of(kk, *var) {
                        return one(binom(times(lit(2), cl(m)), cl(m)), "Σ_{k=0..n} C(n,k)^2 = C(2n, n)");
                    }
                }
            }
        }
    }
    none()
}

fn hockey_stick_identity(e: &Expr) -> (r: Vec<RuleApplication>)
    ensures
        outcomes(r@) == results(CombinatoricsRule::HockeyStickIdentity, *e),
{
    if let (Expr::Summation { to, .. }, Some(k)) = (e, hockey_stick_lower_exec(e)) {
        return one(
            binom(plus(cl(to), lit(1)), plus(k, lit(1))),
            "Hockey stick: Σ_{i=k..n} C(i,k) = C(n+1,k+1)",
        );
    }
    none()
}

/// The `k` of a sum `Σ_i C(i, k)`.
fn hockey_stick_lower_exec(e: &Expr) -> (r: Option<Expr>)
    ensures
        r == hockey_stick_lower(*e),
{
    if let Expr::Summation { var, body, .. } = e {
        if let Expr::Binomial(top, k) = &**body {
            if is_var_of(top, *var) && !crate::calculus::contains_var(k, *var) {
                return Some(cl(k));
            }
        }
    }
    None
}

fn catalan_formula(e: &Expr) -> (r: Vec<RuleApplication>)
    ensures
        outcomes(r@) == results(CombinatoricsRule::CatalanFormula, *e),
{
    if let Expr::Var(v) = e {
        let s = *v;
        one(
            eqn(cl(e), over(binom(times(lit(2), Expr::Var(s)), Expr::Var(s)), plus(Expr::Var(s), lit(1)))),
            "Catalan closed form: C_n = C(2n,n)/(n+1)",
        )
    } else {
        none()
    }
}

fn catalan_recurrence(e: &Expr) -> (r: Vec<RuleApplication>)
    ensures
        outcomes(r@) == results(CombinatoricsRule::CatalanRecurrence, *e),
{
    if let Expr::Var(v) = e {
        let s = *v;
        one(
            eqn(cl(e), sum_over(intern_symbol("i"), lit(0), Expr::Var(s), times(named("C(i)"), named("C(n-i)")))),
            "Catalan recurrence: C(n+1) = Σ_{i=0..n} C(i)·C(n-i)",
        )
    } else {
        none()
    }
}

fn stirling_first_recurrence(e: &Expr) -> (r: Vec<RuleApplication>)
    ensures
        outcomes(r@) == results(CombinatoricsRule::StirlingFirstRecurrence, *e),
{
    one(
        eqn(cl(e), minus(named("s(n-1,k-1)"), times(minus(named("n"), lit(1)), named("s(n-1,k)")))),
        "Stirling (1st kind) recurrence: s(n,k) = s(n-1,k-1) - (n-1)·s(n-1,k)",
    )
}

fn stirling_second_recurrence(e: &Expr) -> (r: Vec<RuleApplication>)
    ensures
        outcomes(r@) == results(CombinatoricsRule::StirlingSecondRecurrence, *e),
{
    one(
        eqn(cl(e), plus(times(named("k"), named("S(n-1,k)")), named("S(n-1,k-1)"))),
        "Stirling (2nd kind) recurrence: S(n,k) = k·S(n-1,k) + S(n-1,k-1)",
    )
}

fn partition_recurrence(e: &Expr) -> (r: Vec<RuleApplication>)
    ensures
        outcomes(r@) == results(CombinatoricsRule::PartitionRecurrence, *e),
{
    one(
        eqn(cl(e), sum_over(intern_symbol("k"), lit(1), named("n"), times(power(negate(lit(1)), plus(named("k"), lit(1))), named("p(n-k(3k-1)/2)")))),
        "Pentagonal partition recurrence",
    )
}

fn chu_vandermonde(e: &Expr) -> (r: Vec<RuleApplication>)
    ensures
        outcomes(r@) == results(CombinatoricsRule::ChuVandermonde, *e),
{
    one(
        eqn(cl(e), binom(minus(named("a"), named("b")), named("n"))),
        "Chu-Vandermonde: Σ_{k} C(a,k) C(b,n-k) (-1)^{n-k} = C(a-b,n)",
    )
}

fn multinomial_theorem(e: &Expr) -> (r: Vec<RuleApplication>)
    ensures
        outcomes(r@) == results(CombinatoricsRule::MultinomialTheorem, *e),
{
    if let Expr::Pow(base, _) = e {
        let body = times(over(fact(named("n")), named("∏ n_i!")), cl(base));
        let sum = sum_over(intern_symbol("i"), lit(0), named("n"), body);
        return one(eqn(cl(e), sum), "Multinomial expansion schematic");
    }
    none()
}

fn pigeonhole_principle() -> (r: Vec<RuleApplication>)
    ensures
        outcomes(r@) == results(CombinatoricsRule::PigeonholePrinciple, Expr::Pi),
{
    one(
        Expr::Gte(Box::new(plus(named("n"), lit(1))), Box::new(named("2 in box"))),
        "Pigeonhole: if n+1 objects go into n boxes, some box has ≥2 objects",
    )
}

fn advanced_inclusion_exclusion2(e: &Expr) -> (r: Vec<RuleApplication>)
    ensures
        outcomes(r@) == results(CombinatoricsRule::AdvancedInclusionExclusion2, *e),
{
    one(
        eqn(cl(e), minus(plus(named("A"), named("B")), named("A∩B"))),
        "|A∪B| = |A| + |B| - |A∩B|",
    )
}

fn advanced_inclusion_exclusion3(e: &Expr) -> (r: Vec<RuleApplication>)
    ensures
        outcomes(r@) == results(CombinatoricsRule::AdvancedInclusionExclusion3, *e),
{
    one(
        eqn(cl(e), plus(minus(minus(plus(plus(named("A"), named("B")), named("C")), plus(named("A∩B"), named("A∩C"))), named("B∩C")), named("A∩B∩C"))),
        "3-set inclusion-exclusion: |A∪B∪C| = |A|+|B|+|C| - |A∩B| - |A∩C| - |B∩C| + |A∩B∩C|",
    )
}

fn double_counting(e: &Expr) -> (r: Vec<RuleApplication>)
    ensures
        outcomes(r@) == results(CombinatoricsRule::DoubleCounting, *e),
{
    one(
        eqn(cl(e), named("second_count")),
        "Double counting: equate two counts of same set",
    )
}

fn ordinary_gf(e: &Expr) -> (r: Vec<RuleApplication>)
    ensures
        outcomes(r@) == results(CombinatoricsRule::OrdinaryGf, *e),
{
    one(
        eqn(cl(e), sum_over(intern_symbol("n"), lit(0), named("∞"), times(named("a_n"), power(named("x"), named("n"))))),
        "Ordinary generating function: Σ a_n x^n",
    )
}

fn exponential_gf(e: &Expr) -> (r: Vec<RuleApplication>)
    ensures
        outcomes(r@) == results(CombinatoricsRule::ExponentialGf, *e),
{
    one(
        eqn(cl(e), sum_over(intern_symbol("n"), lit(0), named("∞"), over(times(named("a_n"), power(named("x"), named("n"))), fact(named("n"))))),
        "Exponential generating function: Σ a_n x^n / n!",
    )
}

fn binomial_sum2n(e: &Expr) -> (r: Vec<RuleApplication>)
    ensures
        outcomes(r@) == results(CombinatoricsRule::BinomialSum2n, *e),
{
    if let Expr::Summation { to, .. } = e {
        return one(power(lit(2), cl(to)), "Σ_{k=0..n} C(n,k) = 2^n");
    }
    none()
}

fn binomial_alternating_sum() -> (r: Vec<RuleApplication>)
    ensures
        outcomes(r@) == results(CombinatoricsRule::BinomialAlternatingSum, Expr::Pi),
{
    one(
        lit(0),
        "Σ (-1)^k * C(n,k) = 0 for n > 0",
    )
}

fn advanced_permutation_formula(e: &Expr) -> (r: Vec<RuleApplication>)
    ensures
        outcomes(r@) == results(CombinatoricsRule::AdvancedPermutationFormula, *e),
{
    one(
        eqn(cl(e), over(fact(named("n")), fact(minus(named("n"), named("k"))))),
        "Permutation formula: P(n,k) = n!/(n-k)!",
    )
}

fn circular_permutation(e: &Expr) -> (r: Vec<RuleApplication>)
    ensures
        outcomes(r@) == results(CombinatoricsRule::CircularPermutation, *e),
{
    one(
        eqn(cl(e), fact(minus(named("n"), lit(1)))),
        "Circular permutations count = (n-1)!",
    )
}

fn bell_number_recurrence() -> (r: Vec<RuleApplication>)
    ensures
        outcomes(r@) == results(CombinatoricsRule::BellNumberRecurrence, Expr::Pi),
{
    one(
        eqn(named("B(n+1)"), sum_over(intern_symbol("k"), lit(0), named("n"), times(binom(named("n"), named("k")), named("B(k)")))),
        "Bell recurrence: B(n+1) = Σ_{k=0..n} C(n,k) B(k)",
    )
}

fn multinomial_coefficient(e: &Expr) -> (r: Vec<RuleApplication>)
    ensures
        outcomes(r@) == results(CombinatoricsRule::MultinomialCoefficient, *e),
{
    one(
        eqn(cl(e), over(fact(named("n")), named("k1!...km!"))),
        "Multinomial coefficient n!/(k1!k2!...km!)",
    )
}

fn subfactorial() -> (r: Vec<RuleApplication>)
    ensures
        outcomes(r@) == results(CombinatoricsRule::Subfactorial, Expr::Pi),
{
    one(
        eqn(named("!n"), named("D(n)")),
        "Subfactorial !n equals derangements D(n)",
    )
}

fn christmas_stocking(e: &Expr) -> (r: Vec<RuleApplication>)
    ensures
        outcomes(r@) == results(CombinatoricsRule::ChristmasStocking, *e),
{
    if matches!(e, Expr::Mul(_, _)) {
        one(
            times(binom(named("n"), named("k")), binom(minus(named("n"), named("k")), minus(named("m"), named("k")))),
            "C(n,m)C(m,k) = C(n,k)C(n-k,m-k)",
        )
    } else {
        none()
    }
}

fn rising_factorial(e: &Expr) -> (r: Vec<RuleApplication>)
    ensures
        outcomes(r@) == results(CombinatoricsRule::RisingFactorial, *e),
{
    one(
        eqn(cl(e), product_over(intern_symbol("i"), lit(0), minus(named("n"), lit(1)), plus(named("x"), named("i")))),
        "Rising factorial (x)_n = ∏_{i=0}^{n-1} (x+i)",
    )
}

fn falling_factorial(e: &Expr) -> (r: Vec<RuleApplication>)
    ensures
        outcomes(r@) == results(CombinatoricsRule::FallingFactorial, *e),
{
    one(
        eqn(cl(e), product_over(intern_symbol("i"), lit(0), minus(named("n"), lit(1)), minus(named("x"), named("i")))),
        "Falling factorial x^{(n)} = ∏_{i=0}^{n-1} (x-i)",
    )
}

fn legendre_formula(e: &Expr) -> (r: Vec<RuleApplication>)
    ensures
        outcomes(r@) == results(CombinatoricsRule::LegendreFormula, *e),
{
    one(
        eqn(cl(e), sum_over(intern_symbol("k"), lit(1), named("∞"), Expr::Floor(Box::new(over(named("n"), power(named("p"), named("k"))))))),
        "Legendre: v_p(n!) = Σ_{k≥1} ⌊n/p^k⌋",
    )
}

fn kummer_theorem() -> (r: Vec<RuleApplication>)
    ensures
        outcomes(r@) == results(CombinatoricsRule::KummerTheorem, Expr::Pi),
{
    one(
        eqn(named("v_p(C(m+n,m))"), named("carries_base_p(m,n)")),
        "Kummer: valuation equals base-p carry count",
    )
}

fn lucas_theorem() -> (r: Vec<RuleApplication>)
    ensures
        outcomes(r@) == results(CombinatoricsRule::LucasTheorem, Expr::Pi),
{
    one(
        eqn(Expr::Mod(Box::new(binom(named("m"), named("n"))), Box::new(named("p"))), named("∏ C(m_i,n_i) mod p")),
        "Lucas theorem via base-p digits",
    )
}

fn burnside_lemma(e: &Expr) -> (r: Vec<RuleApplication>)
    ensures
        outcomes(r@) == results(CombinatoricsRule::BurnsideLemma, *e),
{
    one(
        eqn(cl(e), over(sum_over(intern_symbol("i"), lit(1), named("G"), named("|X^g|")), named("G"))),
        "Burnside: orbits |X/G| = (1/|G|) Σ |Fix(g)|",
    )
}

fn polya_enumeration(e: &Expr) -> (r: Vec<RuleApplication>)
    ensures
        outcomes(r@) == results(CombinatoricsRule::PolyaEnumeration, *e),
{
    one(
        eqn(cl(e), named("Z_G")),
        "Polya: use cycle index Z_G to count orbits",
    )
}

fn catalan_alternative(e: &Expr) -> (r: Vec<RuleApplication>)
    ensures
        outcomes(r@) == results(CombinatoricsRule::CatalanAlternative, *e),
{
    one(
        eqn(cl(e), over(fact(times(lit(2), named("n"))), times(fact(named("n")), fact(plus(named("n"), lit(1)))))),
        "Catalan closed form (alternative)",
    )
}

fn partition_into_parts(e: &Expr) -> (r: Vec<RuleApplication>)
    ensures
        outcomes(r@) == results(CombinatoricsRule::PartitionIntoParts, *e),
{
    one(
        eqn(cl(e), plus(named("p(n-1,k-1)"), named("p(n-k,k)"))),
        "Partition recurrence p(n,k) = p(n-1,k-1)+p(n-k,k)",
    )
}

fn pattern_avoidance(e: &Expr) -> (r: Vec<RuleApplication>)
    ensures
        outcomes(r@) == results(CombinatoricsRule::PatternAvoidance, *e),
{
    one(
        eqn(cl(e), named("count_avoiding_pattern")),
        "Pattern avoidance counting (schematic)",
    )
}

fn derangement_simple_recurrence(e: &Expr) -> (r: Vec<RuleApplication>)
    ensures
        outcomes(r@) == results(CombinatoricsRule::DerangementSimpleRecurrence, *e),
{
    one(
        eqn(cl(e), plus(times(named("n"), named("D(n-1)")), power(negate(lit(1)), named("n")))),
        "Derangement recurrence D(n)=n·D(n-1)+(-1)^n",
    )
}

fn fibonacci_generating_function(e: &Expr) -> (r: Vec<RuleApplication>)
    ensures
        outcomes(r@) == results(CombinatoricsRule::FibonacciGeneratingFunction, *e),
{
    one(
        eqn(cl(e), over(named("x"), minus(minus(lit(1), named("x")), power(named("x"), lit(2))))),
        "Fibonacci OGF: Σ F_n x^n = x/(1 - x - x^2)",
    )
}

fn fibonacci_addition(e: &Expr) -> (r: Vec<RuleApplication>)
    ensures
        outcomes(r@) == results(CombinatoricsRule::FibonacciAddition, *e),
{
    one(
        eqn(cl(e), plus(times(named("F(m)"), named("F(n+1)")), times(named("F(m-1)"), named("F(n)")))),
        "Fibonacci addition formula",
    )
}

fn fibonacci_gcd(e: &Expr) -> (r: Vec<RuleApplication>)
    ensures
        outcomes(r@) == results(CombinatoricsRule::FibonacciGcd, *e),
{
    one(
        eqn(cl(e), named("F(gcd(m,n))")),
        "gcd(F(m),F(n)) = F(gcd(m,n))",
    )
}

fn lucas_numbers(e: &Expr) -> (r: Vec<RuleApplication>)
    ensures
        outcomes(r@) == results(CombinatoricsRule::LucasNumbers, *e),
{
    one(
        eqn(cl(e), plus(named("F(n-1)"), named("F(n+1)"))),
        "Lucas numbers L(n)=F(n-1)+F(n+1)",
    )
}

fn permutation_with_repetition(e: &Expr) -> (r: Vec<RuleApplication>)
    ensures
        outcomes(r@) == results(CombinatoricsRule::PermutationWithRepetition, *e),
{
    if let Expr::Pow(b, x) = e {
        return one(power(cl(b), cl(x)), "Permutations with repetition: n choices k times");
    }
    none()
}

/// The results of rule `k` on `e`.
pub fn apply(k: CombinatoricsRule, e: &Expr) -> (r: Vec<RuleApplication>)
    ensures
        outcomes(r@) == results(k, *e),
{
    match k {
        CombinatoricsRule::BinomialZero => binomial_zero(),
        CombinatoricsRule::BinomialFull => binomial_full(),
        CombinatoricsRule::BinomialOne => binomial_one(e),
        CombinatoricsRule::BinomialSymmetry => binomial_symmetry(e),
        CombinatoricsRule::PascalIdentity => pascal_identity(e),
        CombinatoricsRule::HockeyStick => hockey_stick_identity(e),
        CombinatoricsRule::Vandermonde => vandermonde_identity(e),
        CombinatoricsRule::BinomialSum => binomial_sum(e),
        CombinatoricsRule::BinomialTheorem => binomial_theorem(e),
        CombinatoricsRule::PermutationFormula => permutation_formula(e),
        CombinatoricsRule::CombinationFormula => combination_formula(e),
        CombinatoricsRule::Pigeonhole => pigeonhole(e),
        CombinatoricsRule::PigeonholeGen => pigeonhole_gen(e),
        CombinatoricsRule::InclusionExclusion2 => inclusion_exclusion2(e),
        CombinatoricsRule::InclusionExclusion3 => inclusion_exclusion3(e),
        CombinatoricsRule::Derangement => derangement_formula(e),
        CombinatoricsRule::Catalan => catalan_formula(e),
        CombinatoricsRule::FibonacciRecurrence => fibonacci_recurrence(e),
        CombinatoricsRule::BinetFormula => binet_formula(e),
        CombinatoricsRule::LinearRecurrence => linear_recurrence(e),
        CombinatoricsRule::DerangementFormula => derangement_formula(e),
        CombinatoricsRule::DerangementRecurrence => derangement_recurrence(e),
        CombinatoricsRule::DerangementAsymptotic => derangement_asymptotic(e),
        CombinatoricsRule::VandermondeIdentity => vandermonde_identity(e),
        CombinatoricsRule::StarsAndBars => stars_and_bars(),
        CombinatoricsRule::CombinationWithRepetition => combination_with_repetition(),
        CombinatoricsRule::BinomialWeightedSum => binomial_weighted_sum(e),
        CombinatoricsRule::BinomialSquaresSum => binomial_squares_sum(e),
        CombinatoricsRule::HockeyStickIdentity => hockey_stick_identity(e),
        CombinatoricsRule::CatalanFormula => catalan_formula(e),
        CombinatoricsRule::CatalanRecurrence => catalan_recurrence(e),
        CombinatoricsRule::StirlingFirstRecurrence => stirling_first_recurrence(e),
        CombinatoricsRule::StirlingSecondRecurrence => stirling_second_recurrence(e),
        CombinatoricsRule::PartitionRecurrence => partition_recurrence(e),
        CombinatoricsRule::ChuVandermonde => chu_vandermonde(e),
        CombinatoricsRule::MultinomialTheorem => multinomial_theorem(e),
        CombinatoricsRule::PigeonholePrinciple => pigeonhole_principle(),
        CombinatoricsRule::AdvancedInclusionExclusion2 => advanced_inclusion_exclusion2(e),
        CombinatoricsRule::AdvancedInclusionExclusion3 => advanced_inclusion_exclusion3(e),
        CombinatoricsRule::DoubleCounting => double_counting(e),
        CombinatoricsRule::OrdinaryGf => ordinary_gf(e),
        CombinatoricsRule::ExponentialGf => exponential_gf(e),
        CombinatoricsRule::BinomialSum2n => binomial_sum2n(e),
        CombinatoricsRule::BinomialAlternatingSum => binomial_alternating_sum(),
        CombinatoricsRule::AdvancedPermutationFormula => advanced_permutation_formula(e),
        CombinatoricsRule::CircularPermutation => circular_permutation(e),
        CombinatoricsRule::BellNumberRecurrence => bell_number_recurrence(),
        CombinatoricsRule::MultinomialCoefficient => multinomial_coefficient(e),
        CombinatoricsRule::Subfactorial => subfactorial(),
        CombinatoricsRule::ChristmasStocking => christmas_stocking(e),
        CombinatoricsRule::RisingFactorial => rising_factorial(e),
        CombinatoricsRule::FallingFactorial => falling_factorial(e),
        CombinatoricsRule::LegendreFormula => legendre_formula(e),
        CombinatoricsRule::KummerTheorem => kummer_theorem(),
        CombinatoricsRule::LucasTheorem => lucas_theorem(),
        CombinatoricsRule::BurnsideLemma => burnside_lemma(e),
        CombinatoricsRule::PolyaEnumeration => polya_enumeration(e),
        CombinatoricsRule::CatalanAlternative => catalan_alternative(e),
        CombinatoricsRule::PartitionIntoParts => partition_into_parts(e),
        CombinatoricsRule::PatternAvoidance => pattern_avoidance(e),
        CombinatoricsRule::DerangementSimpleRecurrence => derangement_simple_recurrence(e),
        CombinatoricsRule::FibonacciGeneratingFunction => fibonacci_generating_function(e),
        CombinatoricsRule::FibonacciAddition => fibonacci_addition(e),
        CombinatoricsRule::FibonacciGcd => fibonacci_gcd(e),
        CombinatoricsRule::LucasNumbers => lucas_numbers(e),
        CombinatoricsRule::PermutationWithRepetition => permutation_with_repetition(e),
    }
}

/// The rule numbered `id`, if any.
pub open spec fn numbered(id: u32) -> Option<CombinatoricsRule> {
    match id {
        400 => Some(CombinatoricsRule::BinomialZero),
        401 => Some(CombinatoricsRule::BinomialFull),
        402 => Some(CombinatoricsRule::BinomialOne),
        403 => Some(CombinatoricsRule::BinomialSymmetry),
        404 => Some(CombinatoricsRule::PascalIdentity),
        405 => Some(CombinatoricsRule::HockeyStick),
        406 => Some(CombinatoricsRule::Vandermonde),
        407 => Some(CombinatoricsRule::BinomialSum),
        408 => Some(CombinatoricsRule::BinomialTheorem),
        420 => Some(CombinatoricsRule::PermutationFormula),
        421 => Some(CombinatoricsRule::CombinationFormula),
        422 => Some(CombinatoricsRule::Pigeonhole),
        423 => Some(CombinatoricsRule::PigeonholeGen),
        424 => Some(CombinatoricsRule::InclusionExclusion2),
        425 => Some(CombinatoricsRule::InclusionExclusion3),
        426 => Some(CombinatoricsRule::Derangement),
        427 => Some(CombinatoricsRule::Catalan),
        440 => Some(CombinatoricsRule::FibonacciRecurrence),
        441 => Some(CombinatoricsRule::BinetFormula),
        442 => Some(CombinatoricsRule::LinearRecurrence),
        600 => Some(CombinatoricsRule::DerangementFormula),
        601 => Some(CombinatoricsRule::DerangementRecurrence),
        622 => Some(CombinatoricsRule::DerangementAsymptotic),
        608 => Some(CombinatoricsRule::VandermondeIdentity),
        611 => Some(CombinatoricsRule::StarsAndBars),
        651 => Some(CombinatoricsRule::CombinationWithRepetition),
        654 => Some(CombinatoricsRule::BinomialWeightedSum),
        657 => Some(CombinatoricsRule::BinomialSquaresSum),
        607 => Some(CombinatoricsRule::HockeyStickIdentity),
        602 => Some(CombinatoricsRule::CatalanFormula),
        603 => Some(CombinatoricsRule::CatalanRecurrence),
        604 => Some(CombinatoricsRule::StirlingFirstRecurrence),
        605 => Some(CombinatoricsRule::StirlingSecondRecurrence),
        606 => Some(CombinatoricsRule::PartitionRecurrence),
        609 => Some(CombinatoricsRule::ChuVandermonde),
        610 => Some(CombinatoricsRule::MultinomialTheorem),
        612 => Some(CombinatoricsRule::PigeonholePrinciple),
        613 => Some(CombinatoricsRule::AdvancedInclusionExclusion2),
        614 => Some(CombinatoricsRule::AdvancedInclusionExclusion3),
        615 => Some(CombinatoricsRule::DoubleCounting),
        616 => Some(CombinatoricsRule::OrdinaryGf),
        617 => Some(CombinatoricsRule::ExponentialGf),
        618 => Some(CombinatoricsRule::BinomialSum2n),
        619 => Some(CombinatoricsRule::BinomialAlternatingSum),
        620 => Some(CombinatoricsRule::AdvancedPermutationFormula),
        621 => Some(CombinatoricsRule::CircularPermutation),
        652 => Some(CombinatoricsRule::BellNumberRecurrence),
        653 => Some(CombinatoricsRule::MultinomialCoefficient),
        655 => Some(CombinatoricsRule::Subfactorial),
        656 => Some(CombinatoricsRule::ChristmasStocking),
        658 => Some(CombinatoricsRule::RisingFactorial),
        659 => Some(CombinatoricsRule::FallingFactorial),
        660 => Some(CombinatoricsRule::LegendreFormula),
        661 => Some(CombinatoricsRule::KummerTheorem),
        662 => Some(CombinatoricsRule::LucasTheorem),
        663 => Some(CombinatoricsRule::BurnsideLemma),
        664 => Some(CombinatoricsRule::PolyaEnumeration),
        665 => Some(CombinatoricsRule::CatalanAlternative),
        666 => Some(CombinatoricsRule::PartitionIntoParts),
        667 => Some(CombinatoricsRule::PatternAvoidance),
        668 => Some(CombinatoricsRule::DerangementSimpleRecurrence),
        669 => Some(CombinatoricsRule::FibonacciGeneratingFunction),
        623 => Some(CombinatoricsRule::FibonacciAddition),
        624 => Some(CombinatoricsRule::FibonacciGcd),
        625 => Some(CombinatoricsRule::LucasNumbers),
        650 => Some(CombinatoricsRule::PermutationWithRepetition),
        _ => None,
    }
}

/// Each rule is the one its number names, and its number lies in the
/// ranges of this catalogue.
pub proof fn lemma_numbered(k: CombinatoricsRule)
    ensures
        numbered(catalog(k).id.0) == Some(k),
        400 <= catalog(k).id.0 <= 408 || 420 <= catalog(k).id.0 <= 427 || 440 <= catalog(k).id.0 <= 442 || 600 <= catalog(k).id.0 <= 625 || 650 <= catalog(k).id.0 <= 669,
{
}

/// Where rule `k` stands in [`combinatorics_kinds`].
pub open spec fn position(k: CombinatoricsRule) -> int {
    match k {
        CombinatoricsRule::BinomialZero => 0,
        CombinatoricsRule::BinomialFull => 1,
        CombinatoricsRule::BinomialOne => 2,
        CombinatoricsRule::BinomialSymmetry => 3,
        CombinatoricsRule::PascalIdentity => 4,
        CombinatoricsRule::HockeyStick => 5,
        CombinatoricsRule::Vandermonde => 6,
        CombinatoricsRule::BinomialSum => 7,
        CombinatoricsRule::BinomialTheorem => 8,
        CombinatoricsRule::PermutationFormula => 9,
        CombinatoricsRule::CombinationFormula => 10,
        CombinatoricsRule::Pigeonhole => 11,
        CombinatoricsRule::PigeonholeGen => 12,
        CombinatoricsRule::InclusionExclusion2 => 13,
        CombinatoricsRule::InclusionExclusion3 => 14,
        CombinatoricsRule::Derangement => 15,
        CombinatoricsRule::Catalan => 16,
        CombinatoricsRule::FibonacciRecurrence => 17,
        CombinatoricsRule::BinetFormula => 18,
        CombinatoricsRule::LinearRecurrence => 19,
        CombinatoricsRule::DerangementFormula => 20,
        CombinatoricsRule::DerangementRecurrence => 21,
        CombinatoricsRule::DerangementAsymptotic => 22,
        CombinatoricsRule::VandermondeIdentity => 23,
        CombinatoricsRule::StarsAndBars => 24,
        CombinatoricsRule::CombinationWithRepetition => 25,
        CombinatoricsRule::BinomialWeightedSum => 26,
        CombinatoricsRule::BinomialSquaresSum => 27,
        CombinatoricsRule::HockeyStickIdentity => 28,
        CombinatoricsRule::CatalanFormula => 29,
        CombinatoricsRule::CatalanRecurrence => 30,
        CombinatoricsRule::StirlingFirstRecurrence => 31,
        CombinatoricsRule::StirlingSecondRecurrence => 32,
        CombinatoricsRule::PartitionRecurrence => 33,
        CombinatoricsRule::ChuVandermonde => 34,
        CombinatoricsRule::MultinomialTheorem => 35,
        CombinatoricsRule::PigeonholePrinciple => 36,
        CombinatoricsRule::AdvancedInclusionExclusion2 => 37,
        CombinatoricsRule::AdvancedInclusionExclusion3 => 38,
        CombinatoricsRule::DoubleCounting => 39,
        CombinatoricsRule::OrdinaryGf => 40,
        CombinatoricsRule::ExponentialGf => 41,
        CombinatoricsRule::BinomialSum2n => 42,
        CombinatoricsRule::BinomialAlternatingSum => 43,
        CombinatoricsRule::AdvancedPermutationFormula => 44,
        CombinatoricsRule::CircularPermutation => 45,
        CombinatoricsRule::BellNumberRecurrence => 46,
        CombinatoricsRule::MultinomialCoefficient => 47,
        CombinatoricsRule::Subfactorial => 48,
        CombinatoricsRule::ChristmasStocking => 49,
        CombinatoricsRule::RisingFactorial => 50,
        CombinatoricsRule::FallingFactorial => 51,
        CombinatoricsRule::LegendreFormula => 52,
        CombinatoricsRule::KummerTheorem => 53,
        CombinatoricsRule::LucasTheorem => 54,
        CombinatoricsRule::BurnsideLemma => 55,
        CombinatoricsRule::PolyaEnumeration => 56,
        CombinatoricsRule::CatalanAlternative => 57,
        CombinatoricsRule::PartitionIntoParts => 58,
        CombinatoricsRule::PatternAvoidance => 59,
        CombinatoricsRule::DerangementSimpleRecurrence => 60,
        CombinatoricsRule::FibonacciGeneratingFunction => 61,
        CombinatoricsRule::FibonacciAddition => 62,
        CombinatoricsRule::FibonacciGcd => 63,
        CombinatoricsRule::LucasNumbers => 64,
        CombinatoricsRule::PermutationWithRepetition => 65,
    }
}

/// The catalogue lists each rule once.
pub proof fn lemma_kinds_listed_once()
    ensures
        combinatorics_kinds().len() == 66,
        forall|i: int| 0 <= i < combinatorics_kinds().len() ==> position(#[trigger] combinatorics_kinds()[i]) == i,
        forall|i: int, j: int|
            0 <= i < j < combinatorics_kinds().len() ==> combinatorics_kinds()[i] != combinatorics_kinds()[j],
{
    assert forall|i: int| 0 <= i < combinatorics_kinds().len() implies position(#[trigger] combinatorics_kinds()[i]) == i by {
    }
}

/// The rules of the catalogue have pairwise different numbers.
pub proof fn lemma_catalogue_numbers_distinct()
    ensures
        forall|i: int, j: int|
            0 <= i < j < combinatorics_kinds().len() ==> #[trigger] catalog(combinatorics_kinds()[i]).id != #[trigger] catalog(combinatorics_kinds()[j]).id,
{
    lemma_kinds_listed_once();
    assert forall|i: int, j: int| 0 <= i < j < combinatorics_kinds().len() implies #[trigger] catalog(combinatorics_kinds()[i]).id
        != #[trigger] catalog(combinatorics_kinds()[j]).id by {
        lemma_numbered(combinatorics_kinds()[i]);
        lemma_numbered(combinatorics_kinds()[j]);
    }
}

} // verus!
