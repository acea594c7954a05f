//! Mathematical transformation rules: calculus, combinatorics, number
//! theory and polynomials, each rule a verified rewrite of expressions.
pub mod expr;
pub mod symbols;
pub mod rule;
pub mod calculus;
pub mod arith;
pub mod eval;
pub mod theorems;
pub mod number_theory;
pub mod polynomials;
pub mod combinatorics;
pub mod soundness;
pub mod totient;
pub mod closed_forms;
pub mod differentiation;

pub use rule::{Rule, RuleApplication, RuleCategory, RuleContext, RuleId};
