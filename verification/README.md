# mm_rules

Mathematical transformation rules for a symbolic problem solver: derivatives,
combinatorics, number theory and polynomials. Every rule is a catalogue entry
(`Rule`: id, name, category, description, reversibility, cost) together with a
verified matcher (`Rule::can_apply`) and a verified rewrite (`Rule::apply`).

Layout of `src/`:

- `expr.rs` — expressions, rational constants, symbols and the builders used
  both in code and in specifications;
- `symbols.rs` — the user's symbol table and the fixed table of helper names
  that rules introduce;
- `rule.rs` — `Rule`, `RuleApplication`, `RuleContext`, and the dispatch from a
  rule to its module;
- `calculus.rs`, `combinatorics.rs`, `number_theory.rs`, `polynomials.rs` —
  the rules of each domain: their catalogue, when each applies (`applies`),
  what each gives (`results`), and the code proved against both;
- `arith.rs` — the integer algorithms the number-theory rules run (extended
  Euclid, modular powers, Legendre symbols, totients, primitive roots, divisor
  sums) with their specifications;
- `eval.rs` — the integer value of an expression (square roots included,
  where they are integers);
- `theorems.rs` — Euclid's lemma, the binomial theorem, Vandermonde's
  identity and Fermat's little theorem;
- `totient.rs` — the proof that the totient the rules compute by trial
  division counts the units modulo `n`;
- `soundness.rs` — the proofs about what the rules give: that the rewriting
  rules listed by `keeps_value` (not every rule: many only name a theorem or
  write a schema) keep the value of what they rewrite, apart from the inputs
  listed by `value_exception`; that the identities stated by the binomial
  rules hold; that the modular-inverse, modular-power, extended-gcd and Fermat
  rules answer correctly; and that the row sums, binomial expansions and the
  factorisation of `xⁿ - yⁿ` that the rules write down add up to what they
  claim.
