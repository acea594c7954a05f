use mm_rules::combinatorics::{self, CombinatoricsRule};
use mm_rules::expr::Expr;
use mm_rules::number_theory::{self, NumberTheoryRule};
use mm_rules::symbols::intern_symbol;
use mm_rules::{RuleContext, RuleId};

#[test]
fn number_theory_fermat_last_theorem_entry() {
    let r = number_theory::describe(NumberTheoryRule::FermatLastTheorem);
    assert_eq!(r.id, RuleId(701));
}

#[test]
fn number_theory_euler_phi_multiplicative_entry() {
    let rule = number_theory::describe(NumberTheoryRule::EulerPhiMultiplicative);
    assert_eq!(rule.id, RuleId(703));
    assert_eq!(rule.name, "euler_phi_multiplicative");
}

#[test]
fn number_theory_quadratic_residue_entry() {
    let rule = number_theory::describe(NumberTheoryRule::QuadraticResidue);
    assert_eq!(rule.id, RuleId(706));
    assert_eq!(rule.name, "quadratic_residue");
}

#[test]
fn number_theory_legendre_symbol_multiplicative_entry() {
    let rule = number_theory::describe(NumberTheoryRule::LegendreSymbolMultiplicative);
    assert_eq!(rule.id, RuleId(707));
}

#[test]
fn number_theory_euler_criterion_entry() {
    let rule = number_theory::describe(NumberTheoryRule::EulerCriterion);
    assert_eq!(rule.id, RuleId(708));
}

#[test]
fn number_theory_prime_counting_approx_entry() {
    let r = number_theory::describe(NumberTheoryRule::PrimeCountingApprox);
    assert_eq!(r.name, "prime_counting_approx");
}

#[test]
fn number_theory_bertrand_postulate_entry() {
    let rule = number_theory::describe(NumberTheoryRule::BertrandPostulate);
    assert_eq!(rule.id, RuleId(710));
}

#[test]
fn number_theory_linear_diophantine_entry() {
    let rule = number_theory::describe(NumberTheoryRule::LinearDiophantine);
    assert_eq!(rule.id, RuleId(711));
    assert_eq!(rule.name, "linear_diophantine");
}

#[test]
fn number_theory_sum_of_two_squares_entry() {
    let rule = number_theory::describe(NumberTheoryRule::SumOfTwoSquares);
    assert_eq!(rule.id.0, 713);
}

#[test]
fn number_theory_sum_of_four_squares_entry() {
    let r = number_theory::describe(NumberTheoryRule::SumOfFourSquares);
    assert_eq!(r.id, RuleId(714));
}

#[test]
fn number_theory_hensel_lemma_entry() {
    let r = number_theory::describe(NumberTheoryRule::HenselLemma);
    assert_eq!(r.name, "hensel_lemma");
}

#[test]
fn number_theory_order_divides_phi_entry() {
    let r = number_theory::describe(NumberTheoryRule::OrderDividesPhi);
    assert_eq!(r.id, RuleId(717));
    assert_eq!(r.name, "order_divides_phi");
}

#[test]
fn number_theory_legendre_formula_entry() {
    let rule = number_theory::describe(NumberTheoryRule::LegendreFormula);
    assert_eq!(rule.id, RuleId(719));
    assert_eq!(rule.name, "legendre_formula");
}

#[test]
fn number_theory_lucas_theorem_entry() {
    let r = number_theory::describe(NumberTheoryRule::LucasTheorem);
    assert_eq!(r.id, RuleId(720));
    assert_eq!(r.name, "lucas_theorem");
}

#[test]
fn number_theory_mobius_inversion_entry() {
    let r = number_theory::describe(NumberTheoryRule::MobiusInversion);
    assert_eq!(r.id.0, 721);
    assert_eq!(r.name, "mobius_inversion");
}

#[test]
fn number_theory_mobius_multiplicative_entry() {
    let r = number_theory::describe(NumberTheoryRule::MobiusMultiplicative);
    assert_eq!(r.id, RuleId(722));
    assert_eq!(r.name, "mobius_multiplicative");
}

#[test]
fn number_theory_chebyshev_prime_bounds_entry() {
    let r = number_theory::describe(NumberTheoryRule::ChebyshevPrimeBounds);
    assert_eq!(r.id, RuleId(723));
    assert!(r.can_apply(&Expr::Ln(Box::new(Expr::Var(intern_symbol("x")))), &RuleContext::default()));
}

#[test]
fn number_theory_even_perfect_number_entry() {
    let rule = number_theory::describe(NumberTheoryRule::EvenPerfectNumber);
    assert_eq!(rule.id, RuleId(724));
}

#[test]
fn number_theory_mersenne_prime_condition_entry() {
    let rule = number_theory::describe(NumberTheoryRule::MersennePrimeCondition);
    assert_eq!(rule.id, RuleId(725));
    assert_eq!(rule.name, "mersenne_prime_condition");
}

#[test]
fn number_theory_totient_sum_entry() {
    let r = number_theory::describe(NumberTheoryRule::TotientSum);
    assert_eq!(r.id, RuleId(728));
    assert_eq!(r.name, "totient_sum");
}

#[test]
fn number_theory_primitive_root_count_entry() {
    let r = number_theory::describe(NumberTheoryRule::PrimitiveRootCount);
    assert_eq!(r.id, RuleId(729));
    assert_eq!(r.name, "primitive_root_count");
}

#[test]
fn number_theory_carmichael_function_entry() {
    let r = number_theory::describe(NumberTheoryRule::CarmichaelFunction);
    assert_eq!(r.name, "carmichael_function");
}

#[test]
fn number_theory_square_free_density_entry() {
    let r = number_theory::describe(NumberTheoryRule::SquareFreeDensity);
    assert!(r.description.contains("6/π²"));
}

#[test]
fn number_theory_prime_gap_bound_entry() {
    let r = number_theory::describe(NumberTheoryRule::PrimeGapBound);
    assert_eq!(r.id, RuleId(732));
    assert_eq!(r.name, "prime_gap_bound");
}

#[test]
fn number_theory_sophie_germain_prime_entry() {
    let r = number_theory::describe(NumberTheoryRule::SophieGermainPrime);
    assert_eq!(r.id, RuleId(733));
}

#[test]
fn number_theory_quadratic_reciprocity_entry() {
    let rule = number_theory::describe(NumberTheoryRule::QuadraticReciprocity);
    assert_eq!(rule.id, RuleId(734));
    assert_eq!(rule.name, "quadratic_reciprocity");
}

#[test]
fn number_theory_jacobi_symbol_entry() {
    let rule = number_theory::describe(NumberTheoryRule::JacobiSymbol);
    assert_eq!(rule.id, RuleId(735));
}

#[test]
fn number_theory_tonelli_shanks_entry() {
    let rule = number_theory::describe(NumberTheoryRule::TonelliShanks);
    assert_eq!(rule.id, RuleId(737));
}

#[test]
fn number_theory_discrete_log_order_entry() {
    let rule = number_theory::describe(NumberTheoryRule::DiscreteLogOrder);
    assert_eq!(rule.id, RuleId(738));
}

#[test]
fn number_theory_continued_fraction_gcd_entry() {
    let r = number_theory::describe(NumberTheoryRule::ContinuedFractionGcd);
    assert_eq!(r.id, RuleId(739));
}

#[test]
fn number_theory_farey_neighbors_entry() {
    let rule = number_theory::describe(NumberTheoryRule::FareyNeighbors);
    assert_eq!(rule.id, RuleId(740));
}

#[test]
fn number_theory_stern_brocot_entry() {
    let rule = number_theory::describe(NumberTheoryRule::SternBrocot);
    assert_eq!(rule.id, RuleId(741));
}

#[test]
fn number_theory_egyptian_fraction_entry() {
    let rule = number_theory::describe(NumberTheoryRule::EgyptianFraction);
    assert_eq!(rule.name, "egyptian_fraction");
}

#[test]
fn number_theory_gaussian_prime_entry() {
    let r = number_theory::describe(NumberTheoryRule::GaussianPrime);
    assert_eq!(r.name, "gaussian_prime");
}

#[test]
fn combinatorics_derangement_formula_entry() {
    let r = combinatorics::describe(CombinatoricsRule::DerangementFormula);
    assert_eq!(r.id, RuleId(600));
}

#[test]
fn combinatorics_derangement_recurrence_entry() {
    let rule = combinatorics::describe(CombinatoricsRule::DerangementRecurrence);
    assert_eq!(rule.id, RuleId(601));
    assert!(rule.description.contains("D(n) = (n-1)(D(n-1) + D(n-2))"));
}

#[test]
fn combinatorics_stirling_first_recurrence_entry() {
    let r = combinatorics::describe(CombinatoricsRule::StirlingFirstRecurrence);
    assert_eq!(r.name, "stirling_first_recurrence");
}

#[test]
fn combinatorics_stirling_second_recurrence_entry() {
    let rule = combinatorics::describe(CombinatoricsRule::StirlingSecondRecurrence);
    assert_eq!(rule.id, RuleId(605));
}

#[test]
fn combinatorics_partition_recurrence_entry() {
    let rule = combinatorics::describe(CombinatoricsRule::PartitionRecurrence);
    assert_eq!(rule.id, RuleId(606));
}

#[test]
fn combinatorics_hockey_stick_identity_entry() {
    let rule = combinatorics::describe(CombinatoricsRule::HockeyStickIdentity);
    assert_eq!(rule.id, RuleId(607));
}

#[test]
fn combinatorics_vandermonde_identity_entry() {
    let rule = combinatorics::describe(CombinatoricsRule::VandermondeIdentity);
    assert_eq!(rule.id, RuleId(608));
}

#[test]
fn combinatorics_chu_vandermonde_entry() {
    let r = combinatorics::describe(CombinatoricsRule::ChuVandermonde);
    assert_eq!(r.id, RuleId(609));
    assert!(r.description.contains("Chu-Vandermonde"));
}

#[test]
fn combinatorics_multinomial_theorem_entry() {
    let rule = combinatorics::describe(CombinatoricsRule::MultinomialTheorem);
    assert_eq!(rule.id, RuleId(610));
}

#[test]
fn combinatorics_stars_and_bars_entry() {
    let rule = combinatorics::describe(CombinatoricsRule::StarsAndBars);
    assert_eq!(rule.id, RuleId(611));
    assert_eq!(rule.name, "stars_and_bars");
}

#[test]
fn combinatorics_pigeonhole_principle_entry() {
    let r = combinatorics::describe(CombinatoricsRule::PigeonholePrinciple);
    assert_eq!(r.id, RuleId(612));
}

#[test]
fn combinatorics_inclusion_exclusion_2_entry() {
    let rule = combinatorics::describe(CombinatoricsRule::AdvancedInclusionExclusion2);
    assert_eq!(rule.id, RuleId(613));
    assert!(rule.name.contains("inclusion_exclusion_2"));
}

#[test]
fn combinatorics_inclusion_exclusion_3_entry() {
    let rule = combinatorics::describe(CombinatoricsRule::AdvancedInclusionExclusion3);
    assert_eq!(rule.id, RuleId(614));
    assert_eq!(rule.name, "inclusion_exclusion_3");
}

#[test]
fn combinatorics_double_counting_entry() {
    let r = combinatorics::describe(CombinatoricsRule::DoubleCounting);
    assert_eq!(r.id, RuleId(615));
    assert_eq!(r.name, "double_counting");
}

#[test]
fn combinatorics_ordinary_gf_entry() {
    let rule = combinatorics::describe(CombinatoricsRule::OrdinaryGf);
    assert_eq!(rule.name, "ordinary_gf");
    assert_eq!(rule.id, RuleId(616));
}

#[test]
fn combinatorics_exponential_gf_entry() {
    let r = combinatorics::describe(CombinatoricsRule::ExponentialGf);
    assert_eq!(r.id, RuleId(617));
    assert_eq!(r.name, "exponential_gf");
}

#[test]
fn combinatorics_binomial_sum_2n_entry() {
    let rule = combinatorics::describe(CombinatoricsRule::BinomialSum2n);
    assert_eq!(rule.id, RuleId(618));
    assert_eq!(rule.name, "binomial_sum_2n");
}

#[test]
fn combinatorics_permutation_formula_entry() {
    let r = combinatorics::describe(CombinatoricsRule::AdvancedPermutationFormula);
    assert_eq!(r.id, RuleId(620));
    assert_eq!(r.name, "permutation_formula");
}

#[test]
fn combinatorics_circular_permutation_entry() {
    let rule = combinatorics::describe(CombinatoricsRule::CircularPermutation);
    assert_eq!(rule.id, RuleId(621));
    assert_eq!(rule.name, "circular_permutation");
}

#[test]
fn combinatorics_derangement_asymptotic_entry() {
    let rule = combinatorics::describe(CombinatoricsRule::DerangementAsymptotic);
    assert_eq!(rule.id, RuleId(622));
    assert_eq!(rule.name, "derangement_asymptotic");
}

#[test]
fn combinatorics_fibonacci_gcd_entry() {
    let rule = combinatorics::describe(CombinatoricsRule::FibonacciGcd);
    assert_eq!(rule.id, RuleId(624));
    assert_eq!(rule.name, "fibonacci_gcd");
}

#[test]
fn combinatorics_lucas_numbers_entry() {
    let rule = combinatorics::describe(CombinatoricsRule::LucasNumbers);
    assert_eq!(rule.id.0, 625);
    assert_eq!(rule.description, "L(n) = F(n-1) + F(n+1)");
}

#[test]
fn combinatorics_permutation_with_repetition_entry() {
    let rule = combinatorics::describe(CombinatoricsRule::PermutationWithRepetition);
    assert_eq!(rule.cost, 1);
    assert_eq!(rule.description, "Permutations with repetition: n^k");
}

#[test]
fn combinatorics_combination_with_repetition_entry() {
    let r = combinatorics::describe(CombinatoricsRule::CombinationWithRepetition);
    assert_eq!(r.id, RuleId(651));
    assert_eq!(r.name, "combination_with_repetition");
}

#[test]
fn combinatorics_bell_number_recurrence_entry() {
    let r = combinatorics::describe(CombinatoricsRule::BellNumberRecurrence);
    assert_eq!(r.id, RuleId(652));
    assert_eq!(r.name, "bell_number_recurrence");
}

#[test]
fn combinatorics_multinomial_coefficient_entry() {
    let rule = combinatorics::describe(CombinatoricsRule::MultinomialCoefficient);
    assert_eq!(rule.id.0, 653);
}

#[test]
fn combinatorics_binomial_weighted_sum_entry() {
    let rule = combinatorics::describe(CombinatoricsRule::BinomialWeightedSum);
    assert_eq!(rule.id, RuleId(654));
    assert_eq!(rule.name, "binomial_weighted_sum");
}

#[test]
fn combinatorics_subfactorial_entry() {
    let r = combinatorics::describe(CombinatoricsRule::Subfactorial);
    assert_eq!(r.name, "subfactorial");
    assert_eq!(r.id.0, 655);
}

#[test]
fn combinatorics_christmas_stocking_entry() {
    let r = combinatorics::describe(CombinatoricsRule::ChristmasStocking);
    assert_eq!(r.id, RuleId(656));
    assert_eq!(r.name, "christmas_stocking");
}

#[test]
fn combinatorics_binomial_squares_sum_entry() {
    let r = combinatorics::describe(CombinatoricsRule::BinomialSquaresSum);
    assert_eq!(r.id, RuleId(657));
    assert_eq!(r.name, "binomial_squares_sum");
}

#[test]
fn combinatorics_rising_factorial_entry() {
    let rule = combinatorics::describe(CombinatoricsRule::RisingFactorial);
    assert_eq!(rule.id, RuleId(658));
    assert_eq!(rule.name, "rising_factorial");
}

#[test]
fn combinatorics_falling_factorial_entry() {
    let rule = combinatorics::describe(CombinatoricsRule::FallingFactorial);
    assert_eq!(rule.id, RuleId(659));
}

#[test]
fn combinatorics_legendre_formula_entry() {
    let r = combinatorics::describe(CombinatoricsRule::LegendreFormula);
    assert_eq!(r.id.0, 660);
    assert!(r.description.contains("vp(n!)"));
}

#[test]
fn combinatorics_kummer_theorem_entry() {
    let rule = combinatorics::describe(CombinatoricsRule::KummerTheorem);
    assert_eq!(rule.id, RuleId(661));
    assert!(rule.description.contains("Kummer"));
}

#[test]
fn combinatorics_lucas_theorem_entry() {
    let r = combinatorics::describe(CombinatoricsRule::LucasTheorem);
    assert_eq!(r.id, RuleId(662));
    assert_eq!(r.name, "lucas_theorem");
}

#[test]
fn combinatorics_burnside_lemma_entry() {
    let r = combinatorics::describe(CombinatoricsRule::BurnsideLemma);
    assert_eq!(r.id, RuleId(663));
    assert!(r.description.contains("Burnside"));
}

#[test]
fn combinatorics_polya_enumeration_entry() {
    let rule = combinatorics::describe(CombinatoricsRule::PolyaEnumeration);
    assert_eq!(rule.id, RuleId(664));
}

#[test]
fn combinatorics_catalan_alternative_entry() {
    let r = combinatorics::describe(CombinatoricsRule::CatalanAlternative);
    assert_eq!(r.id.0, 665);
}

#[test]
fn combinatorics_partition_into_parts_entry() {
    let r = combinatorics::describe(CombinatoricsRule::PartitionIntoParts);
    assert_eq!(r.id.0, 666);
    assert_eq!(r.name, "partition_into_parts");
}

#[test]
fn combinatorics_pattern_avoidance_entry() {
    let r = combinatorics::describe(CombinatoricsRule::PatternAvoidance);
    assert_eq!(r.id, RuleId(667));
    assert_eq!(r.name, "pattern_avoidance");
}

#[test]
fn combinatorics_derangement_simple_recurrence_entry() {
    let rule = combinatorics::describe(CombinatoricsRule::DerangementSimpleRecurrence);
    assert_eq!(rule.id, RuleId(668));
    assert_eq!(rule.name, "derangement_simple_recurrence");
}

#[test]
fn combinatorics_fibonacci_generating_function_entry() {
    let r = combinatorics::describe(CombinatoricsRule::FibonacciGeneratingFunction);
    assert_eq!(r.id, RuleId(669));
    assert!(r.description.contains("x/(1-x-x^2)"));
}

#[test]
fn every_listed_rule_is_its_own_kind() {
    let lists = [
        mm_rules::calculus::calculus_rules(),
        mm_rules::combinatorics::combinatorics_rules(),
        mm_rules::number_theory::number_theory_rules(),
        mm_rules::polynomials::polynomial_rules(),
    ];
    let mut count = 0;
    for list in lists.iter() {
        for r in list.iter() {
            let again = mm_rules::rule::Rule::of_kind(r.kind);
            assert_eq!(again.id, r.id);
            assert_eq!(again.name, r.name);
            assert_eq!(again.kind, r.kind);
            count += 1;
        }
    }
    assert_eq!(count, 9 + 66 + 92 + 54);
}

#[test]
fn rule_numbers_are_distinct_across_all_catalogues() {
    let mut ids: Vec<u32> = Vec::new();
    for rules in [
        mm_rules::calculus::calculus_rules(),
        number_theory::number_theory_rules(),
        mm_rules::polynomials::polynomial_rules(),
        combinatorics::combinatorics_rules(),
    ] {
        ids.extend(rules.iter().map(|r| r.id.0));
    }
    assert_eq!(ids.len(), 9 + 92 + 54 + 66);
    let mut sorted = ids.clone();
    sorted.sort();
    sorted.dedup();
    assert_eq!(sorted.len(), ids.len());
}

#[test]
fn found_primitive_roots_have_full_order() {
    fn phi(n: i64) -> i64 {
        (1..=n).filter(|k| {
            let (mut a, mut b) = (*k, n);
            while b != 0 {
                let t = a % b;
                a = b;
                b = t;
            }
            a == 1
        }).count() as i64
    }
    fn order(g: i64, n: i64) -> Option<i64> {
        let mut p = 1i64;
        for e in 1..=n {
            p = p * g % n;
            if p == 1 % n {
                return Some(e);
            }
        }
        None
    }
    let rule = number_theory::describe(NumberTheoryRule::PrimitiveRootFind);
    for n in 2i64..50 {
        let apps = rule.apply(&Expr::integer(n), &RuleContext::default());
        let least = (1..n).find(|g| order(*g, n) == Some(phi(n)));
        match least {
            Some(g) => assert_eq!(apps[0].result, Expr::integer(g)),
            None => assert_eq!(apps[0].result, Expr::Var(intern_symbol("no primitive root"))),
        }
    }
}

#[test]
fn each_catalogue_repeats_no_number() {
    for rules in [
        mm_rules::calculus::calculus_rules(),
        number_theory::number_theory_rules(),
        mm_rules::polynomials::polynomial_rules(),
        combinatorics::combinatorics_rules(),
    ] {
        for i in 0..rules.len() {
            for j in (i + 1)..rules.len() {
                assert_ne!(rules[i].id, rules[j].id);
            }
        }
    }
}
