//! Symbol tables: the user's table that hands out variables, and the fixed
//! table of helper names that rules use for the variables they introduce.
use vstd::prelude::*;
use crate::expr::{Expr, Symbol};

verus! {

/// Names of the variables that rules introduce in their results
/// (summation indices, named placeholders such as `A∩B`).
pub const HELPER_NAMES: [&'static str; 150] = [
    "n", "k", "box_with_2", "A", "B", "A∩B", "C", "A∩C", "B∩C", "A∩B∩C", "F(n-1)", "F(n-2)",
    "r", "characteristic_polynomial(r)", "D(n-1)", "D(n-2)", "i", "C(i)", "C(n-i)",
    "s(n-1,k-1)", "s(n-1,k)", "S(n-1,k)", "S(n-1,k-1)", "p(n-k(3k-1)/2)", "s", "a", "b",
    "∏ n_i!", "2 in box", "second_count", "a_n", "x", "∞", "F(m)", "F(n+1)", "F(m-1)", "F(n)",
    "F(gcd(m,n))", "B(k)", "B(n+1)", "k1!...km!", "D(n)", "!n", "m", "p", "v_p(C(m+n,m))",
    "carries_base_p(m,n)", "∏ C(m_i,n_i) mod p", "G", "|X^g|", "Z_G", "p(n-1,k-1)", "p(n-k,k)",
    "count_avoiding_pattern", "alpha", "x : x^2 ≡ a (mod p)", "no primitive root",
    "solve g^x ≡ h (mod n)", "lift root mod p -> p^k", "Σ_{i=1}^n i", "Σ_{i=1}^n i^2",
    "Σ_{i=1}^n i^3", "Σ_{k=0}^n r^k", "x ≡ a_i (mod m_i)", "QR(a,p) ∈ {0,1}", "(a/p)", "(b/p)",
    "a^((p-1)/2) mod p ∈ {−1,0,1}", "a^2+b^2 criterion", "a^2+b^2+c^2+d^2", "ord_n(a) | φ(n)",
    "exists primitive root", "Σ_{k≥1} ⌊n/p^k⌋", "g(n)=Σ μ(d) f(n/d)", "μ(m)", "μ(n)",
    "c1 x/ln x < π(x) < c2 x/ln x", "2^(p-1)(2^p-1)", "σ(n)", "τ(n)", "Σ_{d|n} φ(d)",
    "φ(φ(n))", "λ(n) = lcm of orders", "p_{n+1}-p_n = O(p_n^{0.525})", "p & 2p+1 prime",
    "(p/q)(q/p)", "q", "(a/n) Jacobi", "(a/n) Kronecker", "x: x^2 ≡ a (mod p)", "gcd via CF",
    "Σ 1/u_i = a/b", "p≡3 mod4 or a^2+b^2 factors", "r1", "r2", "c", "r3", "d", "e1", "Σx_i",
    "e2", "Σx_ix_j", "p1", "p2", "p3", "e3", "y", "z", "P(x)", "P(a)", "D(x)", "Q(x)", "R(x)",
    "Π Φ_d(x)", "u", "in_terms_of_e1_e2_e3", "Σ A_i/(x-r_i)^k", "nested_linear_form",
    "synthetic_div_result", "Q(x),R(x)", "ruffini_result", "± factors(a0)/factors(an)",
    "divides_constant_term", "Δ", "{Δ>0:2 real, Δ=0:double, Δ<0:complex}",
    "Δ=k^2 ⇒ rational roots", "Cardano_solution", "resolvent_cubic", "sign_changes_bound",
    "sturm_sequence", "Res(f,g)", "f*u+g*v", "gcd(f,g)", "cauchy_bound", "fujiwara_bound",
    "convex_hull_of_roots", "Σ y_i Π(x-x_j)/(x_i-x_j)", "Newton_divided_differences",
    "T_{n+1}", "T_n", "T_{n-1}", "H_{n+1}", "H_n", "H_{n-1}", "P_{n+1}", "P_n", "P_{n-1}",
    "L_{n+1}", "L_n", "L_{n-1}",
];

/// Helper symbols are numbered from here on, above the symbols of any
/// [`SymbolTable`] that holds fewer names.
pub const HELPER_BASE: u32 = 1000000;

/// Position of `name` in [`HELPER_NAMES`], searching from `i`; the table's
/// length when it is not there.
pub open spec fn helper_index_from(name: Seq<char>, i: int) -> int
    decreases 150 - i,
{
    if i >= 150 || i < 0 {
        150
    } else if HELPER_NAMES@[i]@ == name {
        i
    } else {
        helper_index_from(name, i + 1)
    }
}

/// Position of `name` in [`HELPER_NAMES`] (its first occurrence).
pub open spec fn helper_index(name: Seq<char>) -> int {
    helper_index_from(name, 0)
}

/// The symbol that a rule uses for the helper variable `name`.
pub open spec fn helper_symbol(name: Seq<char>) -> Symbol {
    Symbol((HELPER_BASE + helper_index(name)) as u32)
}

pub open spec fn spec_intern_symbol(name: &str) -> Symbol {
    helper_symbol(name@)
}

proof fn lemma_helper_index_from(name: Seq<char>, i: int)
    requires
        0 <= i <= 150,
    ensures
        i <= helper_index_from(name, i) <= 150,
        helper_index_from(name, i) < 150 ==> HELPER_NAMES@[helper_index_from(name, i)]@ == name,
    decreases 150 - i,
{
    if i < 150 && HELPER_NAMES@[i]@ != name {
        lemma_helper_index_from(name, i + 1);
    }
}

/// The helper symbol of `name`: equal names give equal symbols, and
/// distinct names of the helper table give distinct ones.
#[verifier::when_used_as_spec(spec_intern_symbol)]
pub fn intern_symbol(name: &str) -> (s: Symbol)
    ensures
        s == helper_symbol(name@),
{
    broadcast use vstd::string::group_string_axioms;

    let key = name.to_string();
    let mut i: usize = 0;
    while i < 150
        invariant
            0 <= i <= 150,
            key@ == name@,
            helper_index_from(name@, 0) == helper_index_from(name@, i as int),
        decreases 150 - i,
    {
        let entry = HELPER_NAMES[i].to_string();
        if entry == key {
            return Symbol(HELPER_BASE + i as u32);
        }
        i = i + 1;
    }
    Symbol(HELPER_BASE + 150)
}

pub open spec fn spec_named(name: &str) -> Expr {
    Expr::Var(helper_symbol(name@))
}

/// The variable of the helper symbol `name`.
#[verifier::when_used_as_spec(spec_named)]
pub fn named(name: &str) -> (r: Expr)
    ensures
        r == Expr::Var(helper_symbol(name@)),
{
    Expr::Var(intern_symbol(name))
}

/// Interning is stable: equal names give the same helper symbol, however
/// often they are interned.
pub proof fn lemma_intern_symbol_stable(a: &str, b: &str)
    requires
        a@ == b@,
    ensures
        intern_symbol(a) == intern_symbol(b),
{
}

/// Distinct names that stand in the helper table get distinct symbols,
/// and none of them is a symbol of a table of fewer than `HELPER_BASE` names.
pub proof fn lemma_helper_symbols_distinct(a: Seq<char>, b: Seq<char>)
    requires
        helper_index(a) < 150,
        helper_index(b) < 150,
        a != b,
    ensures
        helper_symbol(a) != helper_symbol(b),
        helper_symbol(a).0 >= HELPER_BASE,
{
    lemma_helper_index_from(a, 0);
    lemma_helper_index_from(b, 0);
}

/// A table of variable names; the symbol of a name is its position.
pub struct SymbolTable {
    names: Vec<String>,
}

impl SymbolTable {
    /// The names held, in the order they were interned.
    pub closed spec fn names(&self) -> Seq<Seq<char>> {
        self.names@.map_values(|s: String| s@)
    }

    /// An empty table.
    pub fn new() -> (t: SymbolTable)
        ensures
            t.names() == Seq::<Seq<char>>::empty(),
    {
        let t = SymbolTable { names: Vec::new() };
        proof {
            assert(t.names() =~= Seq::<Seq<char>>::empty());
        }
        t
    }

    /// The number of names held.
    pub fn len(&self) -> (n: usize)
        ensures
            n == self.names().len(),
    {
        self.names.len()
    }

    /// The symbol of `name`: its position if the table holds it, otherwise the
    /// name is appended and gets the next position.
    pub fn intern(&mut self, name: &str) -> (s: Symbol)
        requires
            old(self).names().len() < u32::MAX,
        ensures
            old(self).names().contains(name@) ==> final(self).names() == old(self).names(),
            !old(self).names().contains(name@) ==> final(self).names() == old(self).names().push(name@),
            0 <= s.0 < final(self).names().len(),
            final(self).names()[s.0 as int] == name@,
            forall|j: int| 0 <= j < s.0 ==> final(self).names()[j] != name@,
    {
        broadcast use vstd::string::group_string_axioms;

        let key = name.to_string();
        let mut i: usize = 0;
        while i < self.names.len()
            invariant
                0 <= i <= self.names@.len(),
                self.names@.len() < u32::MAX,
                key@ == name@,
                self.names() == old(self).names(),
                forall|j: int| 0 <= j < i ==> self.names()[j] != name@,
            decreases self.names@.len() - i,
        {
            if self.names[i] == key {
                proof {
                    assert(self.names()[i as int] == name@);
                    assert(old(self).names().contains(name@));
                }
                return Symbol(i as u32);
            }
            i = i + 1;
        }
        let ghost before = self.names();
        self.names.push(key);
        proof {
            assert(self.names() =~= before.push(name@));
            if before.contains(name@) {
                let j = choose|j: int| 0 <= j < before.len() && before[j] == name@;
                assert(false);
            }
        }
        Symbol(i as u32)
    }
}

/// Interning a name twice gives the same symbol, and two different names
/// get different symbols.
pub proof fn lemma_intern_names_distinct(names: Seq<Seq<char>>, i: int, j: int)
    requires
        0 <= i < names.len(),
        0 <= j < names.len(),
        forall|k: int| 0 <= k < i ==> names[k] != names[i],
        forall|k: int| 0 <= k < j ==> names[k] != names[j],
    ensures
        (names[i] == names[j]) <==> (i == j),
{
}

} // verus!
