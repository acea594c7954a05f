//! Rules: what each rule is called, when it applies to an expression and
//! what it rewrites the expression to.
use vstd::prelude::*;
use crate::expr::{Expr, decimal, i128_text};
use crate::symbols::intern_symbol;
use crate::calculus::{self, CalculusRule};
use crate::combinatorics::{self, CombinatoricsRule};
use crate::number_theory::{self, NumberTheoryRule};
use crate::polynomials::{self, PolynomialRule};

verus! {

/// The number of a rule.
#[derive(Clone, Copy, PartialEq, Eq, Structural, Debug, Hash)]
pub struct RuleId(pub u32);

/// The kind of step a rule performs.
#[derive(Clone, Copy, PartialEq, Eq, Structural, Debug, Hash)]
pub enum RuleCategory {
    Simplification,
    Expansion,
    Factoring,
    Derivative,
    AlgebraicSolving,
    EquationSolving,
    NumberTheory,
    TrigIdentity,
}

/// Context of a rule application; the rules here do not consult it.
#[derive(Clone, Copy, PartialEq, Eq, Structural, Debug)]
pub struct RuleContext {}

impl Default for RuleContext {
    fn default() -> (r: RuleContext)
        ensures
            r == (RuleContext {}),
    {
        RuleContext {}
    }
}

/// One result of applying a rule: the rewritten expression and why it holds.
#[derive(Debug)]
pub struct RuleApplication {
    pub result: Expr,
    pub justification: String,
}

/// What an application says: the result and the text of its justification.
pub type Outcome = (Expr, Seq<char>);

impl View for RuleApplication {
    type V = Outcome;

    open spec fn view(&self) -> Outcome {
        (self.result, self.justification@)
    }
}

/// The outcomes of a list of applications.
pub open spec fn outcomes(v: Seq<RuleApplication>) -> Seq<Outcome> {
    v.map_values(|a: RuleApplication| a@)
}

/// A single outcome.
pub open spec fn single(result: Expr, why: Seq<char>) -> Seq<Outcome> {
    seq![(result, why)]
}

/// No application.
pub fn none() -> (r: Vec<RuleApplication>)
    ensures
        outcomes(r@) == Seq::<Outcome>::empty(),
{
    let r: Vec<RuleApplication> = Vec::new();
    proof {
        assert(outcomes(r@) =~= Seq::<Outcome>::empty());
    }
    r
}

/// The single application `result`, justified by `why`.
pub fn one(result: Expr, why: &str) -> (r: Vec<RuleApplication>)
    ensures
        outcomes(r@) == single(result, why@),
{
    broadcast use vstd::string::group_string_axioms;

    one_text(result, why.to_string())
}

/// The single application `result`, justified by the text `why`.
pub fn one_text(result: Expr, why: String) -> (r: Vec<RuleApplication>)
    ensures
        outcomes(r@) == single(result, why@),
{
    let ghost o = (result, why@);
    let mut r: Vec<RuleApplication> = Vec::new();
    r.push(RuleApplication { result, justification: why });
    proof {
        assert(outcomes(r@) =~= seq![o]);
    }
    r
}

/// The placeholder result named `name`, justified by `why`.
pub open spec fn note(name: &str, why: Seq<char>) -> Seq<Outcome> {
    single(Expr::Var(intern_symbol(name)), why)
}

/// The placeholder result named `name`, justified by `why`.
pub fn noted(name: &str, why: &str) -> (r: Vec<RuleApplication>)
    ensures
        outcomes(r@) == note(name, why@),
{
    one(Expr::Var(intern_symbol(name)), why)
}

/// Two applications, in order.
pub fn two(a: Expr, why_a: &str, b: Expr, why_b: &str) -> (r: Vec<RuleApplication>)
    ensures
        outcomes(r@) == seq![(a, why_a@), (b, why_b@)],
{
    broadcast use vstd::string::group_string_axioms;

    let ghost oa = (a, why_a@);
    let ghost ob = (b, why_b@);
    let mut r: Vec<RuleApplication> = Vec::new();
    r.push(RuleApplication { result: a, justification: why_a.to_string() });
    r.push(RuleApplication { result: b, justification: why_b.to_string() });
    proof {
        assert(outcomes(r@) =~= seq![oa, ob]);
    }
    r
}

/// A string holding `t`.
pub fn text(t: &str) -> (s: String)
    ensures
        s@ == t@,
{
    String::from_str(t)
}

/// Append `t` to `s`.
pub fn push_text(s: &mut String, t: &str)
    ensures
        final(s)@ == old(s)@ + t@,
{
    s.append(t);
}

/// Append the decimal notation of `n` to `s`.
pub fn push_int(s: &mut String, n: i128)
    ensures
        final(s)@ == old(s)@ + decimal(n as int),
{
    let t = i128_text(n);
    s.append(t.as_str());
}

/// Append the rules `more` to `rules`.
pub fn extend_rules(rules: &mut Vec<Rule>, more: Vec<Rule>)
    ensures
        final(rules)@ == old(rules)@ + more@,
{
    let mut more = more;
    rules.append(&mut more);
}

/// Which rule a [`Rule`] is.
#[derive(Clone, Copy, PartialEq, Eq, Structural, Debug)]
pub enum RuleKind {
    Calculus(CalculusRule),
    Combinatorics(CombinatoricsRule),
    NumberTheory(NumberTheoryRule),
    Polynomial(PolynomialRule),
}

/// A rewrite rule with its catalogue entry.
#[derive(Clone, Copy, Debug)]
pub struct Rule {
    pub id: RuleId,
    pub name: &'static str,
    pub category: RuleCategory,
    pub description: &'static str,
    pub reversible: bool,
    pub cost: u32,
    pub kind: RuleKind,
}

pub open spec fn spec_entry(
    id: u32,
    name: &'static str,
    category: RuleCategory,
    description: &'static str,
    reversible: bool,
    cost: u32,
    kind: RuleKind,
) -> Rule {
    Rule { id: RuleId(id), name, category, description, reversible, cost, kind }
}

/// The catalogue entry of a rule.
#[verifier::when_used_as_spec(spec_entry)]
pub fn entry(
    id: u32,
    name: &'static str,
    category: RuleCategory,
    description: &'static str,
    reversible: bool,
    cost: u32,
    kind: RuleKind,
) -> (r: Rule)
    ensures
        r == (Rule { id: RuleId(id), name, category, description, reversible, cost, kind }),
{
    Rule { id: RuleId(id), name, category, description, reversible, cost, kind }
}

/// Whether a rule of kind `k` matches `e`.
pub open spec fn applicable(k: RuleKind, e: Expr) -> bool {
    match k {
        RuleKind::Calculus(c) => calculus::applies(c, e),
        RuleKind::Combinatorics(c) => combinatorics::applies(c, e),
        RuleKind::NumberTheory(c) => number_theory::applies(c, e),
        RuleKind::Polynomial(c) => polynomials::applies(c, e),
    }
}

/// What a rule of kind `k` gives for `e`.
pub open spec fn results(k: RuleKind, e: Expr) -> Seq<Outcome> {
    match k {
        RuleKind::Calculus(c) => calculus::results(c, e),
        RuleKind::Combinatorics(c) => combinatorics::results(c, e),
        RuleKind::NumberTheory(c) => number_theory::results(c, e),
        RuleKind::Polynomial(c) => polynomials::results(c, e),
    }
}

/// The inputs on which a rule of kind `k` can be carried out: a few rules
/// do arithmetic on the constants of `e` that needs a nonzero divisor or
/// a result that fits the machine integers.
pub open spec fn defined(k: RuleKind, e: Expr) -> bool {
    match k {
        RuleKind::Calculus(c) => calculus::defined(c, e),
        RuleKind::Combinatorics(_) => true,
        RuleKind::NumberTheory(c) => number_theory::defined(c, e),
        RuleKind::Polynomial(_) => true,
    }
}

/// The catalogue entry of a rule of kind `k`.
pub open spec fn catalog(k: RuleKind) -> Rule {
    match k {
        RuleKind::Calculus(c) => calculus::catalog(c),
        RuleKind::Combinatorics(c) => combinatorics::catalog(c),
        RuleKind::NumberTheory(c) => number_theory::catalog(c),
        RuleKind::Polynomial(c) => polynomials::catalog(c),
    }
}

/// A catalogue entry carries its own kind, so that [`Rule::apply`] on the
/// rule of kind `k` carries out rule `k`.
pub proof fn lemma_catalog_kind(k: RuleKind)
    ensures
        catalog(k).kind == k,
{
}

impl Rule {
    /// The rule of kind `k`.
    pub fn of_kind(k: RuleKind) -> (r: Rule)
        ensures
            r == catalog(k),
    {
        match k {
            RuleKind::Calculus(c) => calculus::describe(c),
            RuleKind::Combinatorics(c) => combinatorics::describe(c),
            RuleKind::NumberTheory(c) => number_theory::describe(c),
            RuleKind::Polynomial(c) => polynomials::describe(c),
        }
    }

    /// Whether the rule matches `expr`.
    pub fn can_apply(&self, expr: &Expr, ctx: &RuleContext) -> (r: bool)
        ensures
            r == applicable(self.kind, *expr),
    {
        match self.kind {
            RuleKind::Calculus(c) => calculus::can_apply(c, expr),
            RuleKind::Combinatorics(c) => combinatorics::can_apply(c, expr),
            RuleKind::NumberTheory(c) => number_theory::can_apply(c, expr),
            RuleKind::Polynomial(c) => polynomials::can_apply(c, expr),
        }
    }

    /// The results of the rule on `expr`.
    pub fn apply(&self, expr: &Expr, ctx: &RuleContext) -> (r: Vec<RuleApplication>)
        requires
            defined(self.kind, *expr),
        ensures
            outcomes(r@) == results(self.kind, *expr),
    {
        match self.kind {
            RuleKind::Calculus(c) => calculus::apply(c, expr),
            RuleKind::Combinatorics(c) => combinatorics::apply(c, expr),
            RuleKind::NumberTheory(c) => number_theory::apply(c, expr),
            RuleKind::Polynomial(c) => polynomials::apply(c, expr),
        }
    }
}

/// The rule numbered `id` in any of the four catalogues, if any.
pub open spec fn numbered_rule(id: u32) -> Option<RuleKind> {
    match calculus::numbered(id) {
        Some(c) => Some(RuleKind::Calculus(c)),
        None => match number_theory::numbered(id) {
            Some(c) => Some(RuleKind::NumberTheory(c)),
            None => match polynomials::numbered(id) {
                Some(c) => Some(RuleKind::Polynomial(c)),
                None => match combinatorics::numbered(id) {
                    Some(c) => Some(RuleKind::Combinatorics(c)),
                    None => None,
                },
            },
        },
    }
}

/// Every rule is the one its number names among all four catalogues.
pub proof fn lemma_numbered_rule(k: RuleKind)
    ensures
        numbered_rule(catalog(k).id.0) == Some(k),
{
    match k {
        RuleKind::Calculus(c) => calculus::lemma_numbered(c),
        RuleKind::NumberTheory(c) => number_theory::lemma_numbered(c),
        RuleKind::Polynomial(c) => polynomials::lemma_numbered(c),
        RuleKind::Combinatorics(c) => combinatorics::lemma_numbered(c),
    }
}

/// No two rules share a number, within a catalogue or across catalogues:
/// rules with the same number are the same rule.
pub proof fn lemma_rule_numbers_distinct(k1: RuleKind, k2: RuleKind)
    requires
        catalog(k1).id == catalog(k2).id,
    ensures
        k1 == k2,
{
    lemma_numbered_rule(k1);
    lemma_numbered_rule(k2);
}

/// No two rules of `s` share a number.
pub open spec fn ids_distinct(s: Seq<Rule>) -> bool {
    forall|i: int, j: int| 0 <= i < j < s.len() ==> #[trigger] s[i].id != #[trigger] s[j].id
}

/// No rule of `a` shares a number with a rule of `b`.
pub open spec fn ids_apart(a: Seq<Rule>, b: Seq<Rule>) -> bool {
    forall|i: int, j: int| 0 <= i < a.len() && 0 <= j < b.len() ==> #[trigger] a[i].id != #[trigger] b[j].id
}

/// Two lists without shared numbers, each without repeats, make one
/// without repeats.
pub proof fn lemma_ids_distinct_concat(a: Seq<Rule>, b: Seq<Rule>)
    requires
        ids_distinct(a),
        ids_distinct(b),
        ids_apart(a, b),
    ensures
        ids_distinct(a + b),
{
    let s = a + b;
    assert forall|i: int, j: int| 0 <= i < j < s.len() implies #[trigger] s[i].id != #[trigger] s[j].id by {
        if j < a.len() {
            assert(s[i] == a[i] && s[j] == a[j]);
        } else if i < a.len() {
            assert(s[i] == a[i] && s[j] == b[j - a.len()]);
        } else {
            assert(s[i] == b[i - a.len()] && s[j] == b[j - a.len()]);
        }
    }
}

/// The calculus catalogue, as `calculus_rules` gives it.
pub open spec fn calculus_catalogue() -> Seq<Rule> {
    calculus::calculus_kinds().map_values(|k: CalculusRule| calculus::catalog(k))
}

/// The number-theory catalogue, as `number_theory_rules` gives it.
pub open spec fn number_theory_catalogue() -> Seq<Rule> {
    number_theory::number_theory_kinds().map_values(|k: NumberTheoryRule| number_theory::catalog(k))
}

/// The polynomial catalogue, as `polynomial_rules` gives it.
pub open spec fn polynomial_catalogue() -> Seq<Rule> {
    polynomials::polynomial_kinds().map_values(|k: PolynomialRule| polynomials::catalog(k))
}

/// The combinatorics catalogue, as `combinatorics_rules` gives it.
pub open spec fn combinatorics_catalogue() -> Seq<Rule> {
    combinatorics::combinatorics_kinds().map_values(|k: CombinatoricsRule| combinatorics::catalog(k))
}

/// The four catalogues one after the other.
pub open spec fn all_catalogues() -> Seq<Rule> {
    calculus_catalogue() + number_theory_catalogue() + polynomial_catalogue() + combinatorics_catalogue()
}

/// The rules of the four catalogues have pairwise different numbers: each
/// catalogue repeats no number, no two catalogues share one, and so their
/// concatenation repeats none.
pub proof fn lemma_catalogues_disjoint()
    ensures
        ids_distinct(calculus_catalogue()),
        ids_distinct(number_theory_catalogue()),
        ids_distinct(polynomial_catalogue()),
        ids_distinct(combinatorics_catalogue()),
        ids_apart(calculus_catalogue(), number_theory_catalogue()),
        ids_apart(calculus_catalogue(), polynomial_catalogue()),
        ids_apart(calculus_catalogue(), combinatorics_catalogue()),
        ids_apart(number_theory_catalogue(), polynomial_catalogue()),
        ids_apart(number_theory_catalogue(), combinatorics_catalogue()),
        ids_apart(polynomial_catalogue(), combinatorics_catalogue()),
        ids_distinct(all_catalogues()),
{
    let c = calculus_catalogue();
    let nt = number_theory_catalogue();
    let p = polynomial_catalogue();
    let cb = combinatorics_catalogue();
    calculus::lemma_catalogue_numbers_distinct();
    number_theory::lemma_catalogue_numbers_distinct();
    polynomials::lemma_catalogue_numbers_distinct();
    combinatorics::lemma_catalogue_numbers_distinct();
    assert forall|i: int, j: int| 0 <= i < j < c.len() implies #[trigger] c[i].id != #[trigger] c[j].id by {
        assert(c[i] == calculus::catalog(calculus::calculus_kinds()[i]));
        assert(c[j] == calculus::catalog(calculus::calculus_kinds()[j]));
    }
    assert forall|i: int, j: int| 0 <= i < j < nt.len() implies #[trigger] nt[i].id != #[trigger] nt[j].id by {
        assert(nt[i] == number_theory::catalog(number_theory::number_theory_kinds()[i]));
        assert(nt[j] == number_theory::catalog(number_theory::number_theory_kinds()[j]));
    }
    assert forall|i: int, j: int| 0 <= i < j < p.len() implies #[trigger] p[i].id != #[trigger] p[j].id by {
        assert(p[i] == polynomials::catalog(polynomials::polynomial_kinds()[i]));
        assert(p[j] == polynomials::catalog(polynomials::polynomial_kinds()[j]));
    }
    assert forall|i: int, j: int| 0 <= i < j < cb.len() implies #[trigger] cb[i].id != #[trigger] cb[j].id by {
        assert(cb[i] == combinatorics::catalog(combinatorics::combinatorics_kinds()[i]));
        assert(cb[j] == combinatorics::catalog(combinatorics::combinatorics_kinds()[j]));
    }
    assert forall|i: int, j: int| 0 <= i < c.len() && 0 <= j < nt.len() implies #[trigger] c[i].id != #[trigger] nt[j].id by {
        let a = RuleKind::Calculus(calculus::calculus_kinds()[i]);
        let b = RuleKind::NumberTheory(number_theory::number_theory_kinds()[j]);
        if catalog(a).id == catalog(b).id {
            lemma_rule_numbers_distinct(a, b);
        }
    }
    assert forall|i: int, j: int| 0 <= i < c.len() && 0 <= j < p.len() implies #[trigger] c[i].id != #[trigger] p[j].id by {
        let a = RuleKind::Calculus(calculus::calculus_kinds()[i]);
        let b = RuleKind::Polynomial(polynomials::polynomial_kinds()[j]);
        if catalog(a).id == catalog(b).id {
            lemma_rule_numbers_distinct(a, b);
        }
    }
    assert forall|i: int, j: int| 0 <= i < c.len() && 0 <= j < cb.len() implies #[trigger] c[i].id != #[trigger] cb[j].id by {
        let a = RuleKind::Calculus(calculus::calculus_kinds()[i]);
        let b = RuleKind::Combinatorics(combinatorics::combinatorics_kinds()[j]);
        if catalog(a).id == catalog(b).id {
            lemma_rule_numbers_distinct(a, b);
        }
    }
    assert forall|i: int, j: int| 0 <= i < nt.len() && 0 <= j < p.len() implies #[trigger] nt[i].id != #[trigger] p[j].id by {
        let a = RuleKind::NumberTheory(number_theory::number_theory_kinds()[i]);
        let b = RuleKind::Polynomial(polynomials::polynomial_kinds()[j]);
        if catalog(a).id == catalog(b).id {
            lemma_rule_numbers_distinct(a, b);
        }
    }
    assert forall|i: int, j: int| 0 <= i < nt.len() && 0 <= j < cb.len() implies #[trigger] nt[i].id != #[trigger] cb[j].id by {
        let a = RuleKind::NumberTheory(number_theory::number_theory_kinds()[i]);
        let b = RuleKind::Combinatorics(combinatorics::combinatorics_kinds()[j]);
        if catalog(a).id == catalog(b).id {
            lemma_rule_numbers_distinct(a, b);
        }
    }
    assert forall|i: int, j: int| 0 <= i < p.len() && 0 <= j < cb.len() implies #[trigger] p[i].id != #[trigger] cb[j].id by {
        let a = RuleKind::Polynomial(polynomials::polynomial_kinds()[i]);
        let b = RuleKind::Combinatorics(combinatorics::combinatorics_kinds()[j]);
        if catalog(a).id == catalog(b).id {
            lemma_rule_numbers_distinct(a, b);
        }
    }
    lemma_ids_distinct_concat(c, nt);
    assert forall|i: int, j: int| 0 <= i < (c + nt).len() && 0 <= j < p.len() implies #[trigger] (c + nt)[i].id
        != #[trigger] p[j].id by {
        if i < c.len() {
            assert((c + nt)[i] == c[i]);
        } else {
            assert((c + nt)[i] == nt[i - c.len()]);
        }
    }
    lemma_ids_distinct_concat(c + nt, p);
    assert forall|i: int, j: int| 0 <= i < (c + nt + p).len() && 0 <= j < cb.len() implies #[trigger] (c + nt
        + p)[i].id != #[trigger] cb[j].id by {
        if i < (c + nt).len() {
            assert((c + nt + p)[i] == (c + nt)[i]);
            if i < c.len() {
                assert((c + nt)[i] == c[i]);
            } else {
                assert((c + nt)[i] == nt[i - c.len()]);
            }
        } else {
            assert((c + nt + p)[i] == p[i - (c + nt).len()]);
        }
    }
    lemma_ids_distinct_concat(c + nt + p, cb);
}

} // verus!
