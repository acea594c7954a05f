//! Expressions over which the rules operate: symbols, rational constants
//! and the expression tree, with constructors usable in code and in
//! specifications alike.
use vstd::prelude::*;

verus! {

/// A variable, identified by a number handed out by a [`SymbolTable`]
/// or by [`intern_symbol`].
#[derive(Clone, Copy, PartialEq, Eq, Structural, Debug, Hash)]
pub struct Symbol(pub u32);

/// Greatest common divisor of two naturals (Euclid).
pub open spec fn gcd(a: nat, b: nat) -> nat
    decreases b,
{
    if b == 0 {
        a
    } else {
        gcd(b, a % b)
    }
}

/// Absolute value of an integer as a natural.
pub open spec fn nat_abs(a: int) -> nat {
    if a < 0 {
        (-a) as nat
    } else {
        a as nat
    }
}

/// A rational number `num / den`, kept in lowest terms with a positive
/// denominator by the functions that build one.
#[derive(Clone, Copy, PartialEq, Eq, Structural, Debug)]
pub struct Rational {
    pub num: i64,
    pub den: i64,
}

/// The characters of a decimal digit.
pub open spec fn digit_char(d: nat) -> char {
    (48 + d) as char
}

/// The decimal digits of a natural, most significant first.
pub open spec fn digits(n: nat) -> Seq<char>
    decreases n,
{
    if n < 10 {
        seq![digit_char(n)]
    } else {
        digits(n / 10).push(digit_char(n % 10))
    }
}

/// Decimal notation of an integer, with a leading `-` when negative.
pub open spec fn decimal(n: int) -> Seq<char> {
    if n < 0 {
        seq!['-'] + digits(nat_abs(n))
    } else {
        digits(n as nat)
    }
}

/// How a rational is written: `n` when it is an integer, `n/d` otherwise.
pub open spec fn rational_text(q: Rational) -> Seq<char> {
    if q.den == 1 {
        decimal(q.num as int)
    } else {
        decimal(q.num as int) + seq!['/'] + decimal(q.den as int)
    }
}

/// The text of `n` by std's `to_string` on `i128` (its `Display`). Trusted:
/// the contract claims that it writes the decimal digits of `|n|`, most
/// significant first and without leading zeros, after a `-` when `n < 0`.
#[verifier::external_body]
pub(crate) fn i128_text(n: i128) -> (s: String)
    ensures
        s@ == decimal(n as int),
{
    n.to_string()
}

proof fn lemma_gcd_step(a: nat, b: nat)
    requires
        b > 0,
    ensures
        gcd(a, b) == gcd(b, a % b),
{
}

/// `gcd(a - b, b) == gcd(a, b)` for a natural `b` and an integer `a`.
proof fn lemma_gcd_shift(a: int, b: nat)
    requires
        b > 0,
    ensures
        gcd(nat_abs(a - b), b) == gcd(nat_abs(a), b),
{
    lemma_gcd_abs_mod(a - b, b);
    lemma_gcd_abs_mod(a, b);
    assert((a - b) % (b as int) == a % (b as int)) by {
        vstd::arithmetic::div_mod::lemma_mod_sub_multiples_vanish(a, b as int);
    }
}

/// `gcd(|a|, b) == gcd(b, a mod b)` where `mod` is Euclidean.
proof fn lemma_gcd_abs_mod(a: int, b: nat)
    requires
        b > 0,
    ensures
        gcd(nat_abs(a), b) == gcd(b, (a % (b as int)) as nat),
{
    let r = (a % (b as int)) as nat;
    if a >= 0 {
        assert(nat_abs(a) % b == r);
        lemma_gcd_step(nat_abs(a), b);
    } else {
        // gcd(|a|, b) = gcd(b, |a| mod b) and |a| mod b = (b - r) mod b
        lemma_gcd_step(nat_abs(a), b);
        let s = nat_abs(a) % b;
        assert(s == ((b - r) as int) % (b as int)) by {
            vstd::arithmetic::div_mod::lemma_fundamental_div_mod(a, b as int);
            vstd::arithmetic::div_mod::lemma_fundamental_div_mod(nat_abs(a) as int, b as int);
            vstd::arithmetic::div_mod::lemma_mod_bound(a, b as int);
            vstd::arithmetic::div_mod::lemma_mod_bound(nat_abs(a) as int, b as int);
            let q = a / (b as int);
            assert(nat_abs(a) as int == -a);
            assert(nat_abs(a) as int == (-q - 1) * (b as int) + (b - r)) by (nonlinear_arith)
                requires
                    a == (b as int) * q + r,
                    nat_abs(a) as int == -a,
            ;
            vstd::arithmetic::div_mod::lemma_mod_multiples_vanish(-q - 1, (b - r) as int, b as int);
        }
        lemma_gcd_symmetric_mod(b, r);
    }
}

/// `gcd(b, (b - r) mod b) == gcd(b, r)` for `r < b`.
proof fn lemma_gcd_symmetric_mod(b: nat, r: nat)
    requires
        b > 0,
        r < b,
    ensures
        gcd(b, (((b - r) as int) % (b as int)) as nat) == gcd(b, r),
{
    if r == 0 {
        assert(((b - r) as int) % (b as int) == 0) by {
            vstd::arithmetic::div_mod::lemma_mod_self_0(b as int);
        }
        assert(gcd(b, 0) == b);
    } else {
        assert(((b - r) as int) % (b as int) == (b - r) as int) by {
            vstd::arithmetic::div_mod::lemma_small_mod((b - r) as nat, b);
        }
        // gcd(b, b - r) = gcd(b - r, r) = gcd(b, r), through gcd's commutation with subtraction
        lemma_gcd_sub(b, r);
    }
}

/// Common divisors of `(b, b - r)` and of `(b, r)` agree, so their gcds do.
proof fn lemma_gcd_sub(b: nat, r: nat)
    requires
        0 < r < b,
    ensures
        gcd(b, (b - r) as nat) == gcd(b, r),
{
    lemma_gcd_divides(b, (b - r) as nat);
    lemma_gcd_divides(b, r);
    let g1 = gcd(b, (b - r) as nat);
    let g2 = gcd(b, r);
    lemma_gcd_positive(b, r);
    lemma_gcd_positive(b, (b - r) as nat);
    // g1 divides b and b - r, hence r; so g1 divides gcd(b, r) = g2
    assert(divides(g1, r)) by {
        lemma_divides_sub(g1, b as int, (b - r) as int);
    }
    lemma_gcd_greatest(b, r, g1);
    assert(divides(g2, (b - r) as nat)) by {
        lemma_divides_sub(g2, b as int, r as int);
    }
    lemma_gcd_greatest(b, (b - r) as nat, g2);
    lemma_divides_antisym(g1, g2);
}

/// `d` divides `n`.
pub open spec fn divides(d: nat, n: nat) -> bool {
    exists|k: nat| #[trigger] (d * k) == n
}

proof fn lemma_divides_sub(d: nat, a: int, b: int)
    requires
        a >= b >= 0,
        divides(d, a as nat),
        divides(d, b as nat),
    ensures
        divides(d, (a - b) as nat),
{
    let ka = choose|k: nat| #[trigger] (d * k) == a as nat;
    let kb = choose|k: nat| #[trigger] (d * k) == b as nat;
    if d == 0 {
        assert(a == 0 && b == 0) by (nonlinear_arith)
            requires
                d * ka == a,
                d * kb == b,
                d == 0,
        ;
        assert(d * 0 == (a - b) as nat);
    } else {
        assert(ka >= kb) by (nonlinear_arith)
            requires
                d * ka == a,
                d * kb == b,
                a >= b,
                d > 0,
        ;
        let k = (ka - kb) as nat;
        assert(d * k == (a - b) as nat) by (nonlinear_arith)
            requires
                d * ka == a,
                d * kb == b,
                k == ka - kb,
        ;
    }
}

proof fn lemma_divides_mod(d: nat, a: nat, b: nat)
    requires
        b > 0,
        divides(d, a),
        divides(d, b),
    ensures
        divides(d, a % b),
{
    let ka = choose|k: nat| #[trigger] (d * k) == a;
    let kb = choose|k: nat| #[trigger] (d * k) == b;
    let q = a / b;
    vstd::arithmetic::div_mod::lemma_fundamental_div_mod(a as int, b as int);
    assert(a as int == b * q + a % b);
    assert(0 <= (a % b) as int);
    if d == 0 {
        assert(b == 0) by (nonlinear_arith)
            requires
                d * kb == b,
                d == 0,
        ;
    } else {
        assert(ka >= kb * q) by (nonlinear_arith)
            requires
                d * ka == a,
                d * kb == b,
                a == b * q + a % b,
                a % b >= 0,
                d > 0,
                q >= 0,
        ;
        let k = (ka - kb * q) as nat;
        let r = a % b;
        assert(d * k == r) by (nonlinear_arith)
            requires
                d * ka == a,
                d * kb == b,
                a == b * q + r,
                k == ka - kb * q,
        ;
    }
}

pub proof fn lemma_divides_antisym(a: nat, b: nat)
    requires
        a > 0,
        b > 0,
        divides(a, b),
        divides(b, a),
    ensures
        a == b,
{
    let k1 = choose|k: nat| #[trigger] (a * k) == b;
    let k2 = choose|k: nat| #[trigger] (b * k) == a;
    assert(a == b) by (nonlinear_arith)
        requires
            a * k1 == b,
            b * k2 == a,
            a > 0,
            b > 0,
    ;
}

/// `gcd(a, b)` divides both `a` and `b`.
pub proof fn lemma_gcd_divides(a: nat, b: nat)
    ensures
        divides(gcd(a, b), a),
        divides(gcd(a, b), b),
    decreases b,
{
    if b == 0 {
        assert(gcd(a, b) * 1 == a);
        assert(gcd(a, b) * 0 == b);
    } else {
        lemma_gcd_divides(b, a % b);
        let g = gcd(b, a % b);
        let k1 = choose|k: nat| #[trigger] (g * k) == b;
        let k2 = choose|k: nat| #[trigger] (g * k) == a % b;
        let q = a / b;
        vstd::arithmetic::div_mod::lemma_fundamental_div_mod(a as int, b as int);
        let k = (k1 * q + k2) as nat;
        assert(g * k == a) by (nonlinear_arith)
            requires
                g * k1 == b,
                g * k2 == a % b,
                a == b * q + a % b,
                k == k1 * q + k2,
        ;
    }
}

/// Every common divisor of `a` and `b` divides `gcd(a, b)`.
pub proof fn lemma_gcd_greatest(a: nat, b: nat, d: nat)
    requires
        divides(d, a),
        divides(d, b),
    ensures
        divides(d, gcd(a, b)),
    decreases b,
{
    if b > 0 {
        lemma_divides_mod(d, a, b);
        lemma_gcd_greatest(b, a % b, d);
    }
}

pub proof fn lemma_gcd_positive(a: nat, b: nat)
    requires
        a > 0 || b > 0,
    ensures
        gcd(a, b) > 0,
    decreases b,
{
    if b > 0 {
        if a % b == 0 {
            assert(gcd(b, 0) == b);
        } else {
            lemma_gcd_positive(b, a % b);
        }
    }
}

impl Rational {
    /// In lowest terms with a positive denominator.
    pub open spec fn wf(self) -> bool {
        &&& self.den > 0
        &&& gcd(nat_abs(self.num as int), self.den as nat) == 1
    }

    /// The integer `n` as a rational.
    pub open spec fn of_int(n: i64) -> Rational {
        Rational { num: n, den: 1 }
    }

    /// The integer `n` as a rational.
    pub fn from_integer(n: i64) -> (r: Rational)
        ensures
            r == Rational::of_int(n),
            r.wf(),
    {
        proof {
            assert(gcd(nat_abs(n as int), 1) == gcd(1, nat_abs(n as int) % 1));
            assert(nat_abs(n as int) % 1 == 0);
            assert(gcd(1, 0) == 1);
        }
        Rational { num: n, den: 1 }
    }

    /// The numerator.
    pub fn numer(&self) -> (r: i64)
        ensures
            r == self.num,
    {
        self.num
    }

    /// The denominator.
    pub fn denom(&self) -> (r: i64)
        ensures
            r == self.den,
    {
        self.den
    }

    pub fn is_zero(&self) -> (r: bool)
        ensures
            r == (self.num == 0),
    {
        self.num == 0
    }

    pub fn is_one(&self) -> (r: bool)
        ensures
            r == (self.num == 1 && self.den == 1),
    {
        self.num == 1 && self.den == 1
    }

    pub fn is_integer(&self) -> (r: bool)
        ensures
            r == (self.den == 1),
    {
        self.den == 1
    }

    pub fn is_positive(&self) -> (r: bool)
        ensures
            r == (self.num > 0),
    {
        self.num > 0
    }

    pub fn is_negative(&self) -> (r: bool)
        ensures
            r == (self.num < 0),
    {
        self.num < 0
    }

    /// Whether `self - 1` can be formed without leaving `i64`.
    pub open spec fn minus_one_fits(self) -> bool {
        i64::MIN <= self.num - self.den <= i64::MAX
    }

    /// `self - 1`, written over the same denominator.
    pub open spec fn spec_minus_one(self) -> Rational {
        Rational { num: (self.num - self.den) as i64, den: self.den }
    }

    /// `self - 1`; the result is in lowest terms when `self` is.
    #[verifier::when_used_as_spec(spec_minus_one)]
    pub fn minus_one(self) -> (r: Rational)
        requires
            self.minus_one_fits(),
        ensures
            r == self.spec_minus_one(),
            self.wf() ==> r.wf(),
    {
        proof {
            if self.wf() {
                lemma_gcd_shift(self.num as int, self.den as nat);
            }
        }
        Rational { num: self.num - self.den, den: self.den }
    }

    /// How the rational is written.
    pub fn text(&self) -> (s: String)
        ensures
            s@ == rational_text(*self),
    {
        let mut s = i128_text(self.num as i128);
        if self.den != 1 {
            s.append("/");
            let d = i128_text(self.den as i128);
            s.append(d.as_str());
            proof {
                reveal_strlit("/");
            }
        }
        s
    }
}

/// A mathematical expression.
#[derive(Debug)]
pub enum Expr {
    Var(Symbol),
    Const(Rational),
    Pi,
    E,
    Neg(Box<Expr>),
    Sqrt(Box<Expr>),
    Sin(Box<Expr>),
    Cos(Box<Expr>),
    Tan(Box<Expr>),
    Ln(Box<Expr>),
    Exp(Box<Expr>),
    Abs(Box<Expr>),
    Factorial(Box<Expr>),
    Floor(Box<Expr>),
    Ceiling(Box<Expr>),
    Add(Box<Expr>, Box<Expr>),
    Sub(Box<Expr>, Box<Expr>),
    Mul(Box<Expr>, Box<Expr>),
    Div(Box<Expr>, Box<Expr>),
    Pow(Box<Expr>, Box<Expr>),
    Mod(Box<Expr>, Box<Expr>),
    GCD(Box<Expr>, Box<Expr>),
    LCM(Box<Expr>, Box<Expr>),
    Binomial(Box<Expr>, Box<Expr>),
    Gt(Box<Expr>, Box<Expr>),
    Gte(Box<Expr>, Box<Expr>),
    Lt(Box<Expr>, Box<Expr>),
    Summation { var: Symbol, from: Box<Expr>, to: Box<Expr>, body: Box<Expr> },
    BigProduct { var: Symbol, from: Box<Expr>, to: Box<Expr>, body: Box<Expr> },
    Derivative { expr: Box<Expr>, var: Symbol },
    Integral { expr: Box<Expr>, var: Symbol },
    Equation { lhs: Box<Expr>, rhs: Box<Expr> },
}

impl Clone for Expr {
    fn clone(&self) -> (r: Self)
        ensures
            r == *self,
        decreases self,
    {
        match self {
            Expr::Var(s) => Expr::Var(*s),
            Expr::Const(c) => Expr::Const(*c),
            Expr::Pi => Expr::Pi,
            Expr::E => Expr::E,
            Expr::Neg(a) => Expr::Neg(Box::new((**a).clone())),
            Expr::Sqrt(a) => Expr::Sqrt(Box::new((**a).clone())),
            Expr::Sin(a) => Expr::Sin(Box::new((**a).clone())),
            Expr::Cos(a) => Expr::Cos(Box::new((**a).clone())),
            Expr::Tan(a) => Expr::Tan(Box::new((**a).clone())),
            Expr::Ln(a) => Expr::Ln(Box::new((**a).clone())),
            Expr::Exp(a) => Expr::Exp(Box::new((**a).clone())),
            Expr::Abs(a) => Expr::Abs(Box::new((**a).clone())),
            Expr::Factorial(a) => Expr::Factorial(Box::new((**a).clone())),
            Expr::Floor(a) => Expr::Floor(Box::new((**a).clone())),
            Expr::Ceiling(a) => Expr::Ceiling(Box::new((**a).clone())),
            Expr::Add(a, b) => Expr::Add(Box::new((**a).clone()), Box::new((**b).clone())),
            Expr::Sub(a, b) => Expr::Sub(Box::new((**a).clone()), Box::new((**b).clone())),
            Expr::Mul(a, b) => Expr::Mul(Box::new((**a).clone()), Box::new((**b).clone())),
            Expr::Div(a, b) => Expr::Div(Box::new((**a).clone()), Box::new((**b).clone())),
            Expr::Pow(a, b) => Expr::Pow(Box::new((**a).clone()), Box::new((**b).clone())),
            Expr::Mod(a, b) => Expr::Mod(Box::new((**a).clone()), Box::new((**b).clone())),
            Expr::GCD(a, b) => Expr::GCD(Box::new((**a).clone()), Box::new((**b).clone())),
            Expr::LCM(a, b) => Expr::LCM(Box::new((**a).clone()), Box::new((**b).clone())),
            Expr::Binomial(a, b) => Expr::Binomial(
                Box::new((**a).clone()),
                Box::new((**b).clone()),
            ),
            Expr::Gt(a, b) => Expr::Gt(Box::new((**a).clone()), Box::new((**b).clone())),
            Expr::Gte(a, b) => Expr::Gte(Box::new((**a).clone()), Box::new((**b).clone())),
            Expr::Lt(a, b) => Expr::Lt(Box::new((**a).clone()), Box::new((**b).clone())),
            Expr::Summation { var, from, to, body } => Expr::Summation {
                var: *var,
                from: Box::new((**from).clone()),
                to: Box::new((**to).clone()),
                body: Box::new((**body).clone()),
            },
            Expr::BigProduct { var, from, to, body } => Expr::BigProduct {
                var: *var,
                from: Box::new((**from).clone()),
                to: Box::new((**to).clone()),
                body: Box::new((**body).clone()),
            },
            Expr::Derivative { expr, var } => Expr::Derivative {
                expr: Box::new((**expr).clone()),
                var: *var,
            },
            Expr::Integral { expr, var } => Expr::Integral {
                expr: Box::new((**expr).clone()),
                var: *var,
            },
            Expr::Equation { lhs, rhs } => Expr::Equation {
                lhs: Box::new((**lhs).clone()),
                rhs: Box::new((**rhs).clone()),
            },
        }
    }
}

impl PartialEq for Expr {
    fn eq(&self, other: &Self) -> (r: bool)
        decreases self,
    {
        match (self, other) {
            (Expr::Var(a), Expr::Var(b)) => a == b,
            (Expr::Const(a), Expr::Const(b)) => a == b,
            (Expr::Pi, Expr::Pi) => true,
            (Expr::E, Expr::E) => true,
            (Expr::Neg(a), Expr::Neg(b)) => (**a).eq(&**b),
            (Expr::Sqrt(a), Expr::Sqrt(b)) => (**a).eq(&**b),
            (Expr::Sin(a), Expr::Sin(b)) => (**a).eq(&**b),
            (Expr::Cos(a), Expr::Cos(b)) => (**a).eq(&**b),
            (Expr::Tan(a), Expr::Tan(b)) => (**a).eq(&**b),
            (Expr::Ln(a), Expr::Ln(b)) => (**a).eq(&**b),
            (Expr::Exp(a), Expr::Exp(b)) => (**a).eq(&**b),
            (Expr::Abs(a), Expr::Abs(b)) => (**a).eq(&**b),
            (Expr::Factorial(a), Expr::Factorial(b)) => (**a).eq(&**b),
            (Expr::Floor(a), Expr::Floor(b)) => (**a).eq(&**b),
            (Expr::Ceiling(a), Expr::Ceiling(b)) => (**a).eq(&**b),
            (Expr::Add(a1, a2), Expr::Add(b1, b2)) => (**a1).eq(&**b1) && (**a2).eq(&**b2),
            (Expr::Sub(a1, a2), Expr::Sub(b1, b2)) => (**a1).eq(&**b1) && (**a2).eq(&**b2),
            (Expr::Mul(a1, a2), Expr::Mul(b1, b2)) => (**a1).eq(&**b1) && (**a2).eq(&**b2),
            (Expr::Div(a1, a2), Expr::Div(b1, b2)) => (**a1).eq(&**b1) && (**a2).eq(&**b2),
            (Expr::Pow(a1, a2), Expr::Pow(b1, b2)) => (**a1).eq(&**b1) && (**a2).eq(&**b2),
            (Expr::Mod(a1, a2), Expr::Mod(b1, b2)) => (**a1).eq(&**b1) && (**a2).eq(&**b2),
            (Expr::GCD(a1, a2), Expr::GCD(b1, b2)) => (**a1).eq(&**b1) && (**a2).eq(&**b2),
            (Expr::LCM(a1, a2), Expr::LCM(b1, b2)) => (**a1).eq(&**b1) && (**a2).eq(&**b2),
            (Expr::Binomial(a1, a2), Expr::Binomial(b1, b2)) => (**a1).eq(&**b1) && (**a2).eq(
                &**b2,
            ),
            (Expr::Gt(a1, a2), Expr::Gt(b1, b2)) => (**a1).eq(&**b1) && (**a2).eq(&**b2),
            (Expr::Gte(a1, a2), Expr::Gte(b1, b2)) => (**a1).eq(&**b1) && (**a2).eq(&**b2),
            (Expr::Lt(a1, a2), Expr::Lt(b1, b2)) => (**a1).eq(&**b1) && (**a2).eq(&**b2),
            (
                Expr::Summation { var: v1, from: f1, to: t1, body: b1 },
                Expr::Summation { var: v2, from: f2, to: t2, body: b2 },
            ) => v1 == v2 && (**f1).eq(&**f2) && (**t1).eq(&**t2) && (**b1).eq(&**b2),
            (
                Expr::BigProduct { var: v1, from: f1, to: t1, body: b1 },
                Expr::BigProduct { var: v2, from: f2, to: t2, body: b2 },
            ) => v1 == v2 && (**f1).eq(&**f2) && (**t1).eq(&**t2) && (**b1).eq(&**b2),
            (Expr::Derivative { expr: a, var: x }, Expr::Derivative { expr: b, var: y }) => x == y
                && (**a).eq(&**b),
            (Expr::Integral { expr: a, var: x }, Expr::Integral { expr: b, var: y }) => x == y
                && (**a).eq(&**b),
            (Expr::Equation { lhs: a1, rhs: a2 }, Expr::Equation { lhs: b1, rhs: b2 }) => (**a1).eq(
                &**b1,
            ) && (**a2).eq(&**b2),
            _ => false,
        }
    }
}

impl vstd::std_specs::cmp::PartialEqSpecImpl for Expr {
    open spec fn obeys_eq_spec() -> bool {
        true
    }

    open spec fn eq_spec(&self, other: &Self) -> bool {
        *self == *other
    }
}

/// Structural equality of two expressions.
pub fn same(a: &Expr, b: &Expr) -> (r: bool)
    ensures
        r == (*a == *b),
{
    a.eq(b)
}

// ---------------------------------------------------------------------------
// Constructors. Each is an executable function whose specification
// counterpart has the same shape, so trees read alike in code and contracts.
// ---------------------------------------------------------------------------
pub open spec fn spec_lit(n: i64) -> Expr {
    Expr::Const(Rational::of_int(n))
}

/// The integer constant `n`.
#[verifier::when_used_as_spec(spec_lit)]
pub fn lit(n: i64) -> (r: Expr)
    ensures
        r == spec_lit(n),
{
    Expr::Const(Rational::from_integer(n))
}

pub open spec fn spec_cl(a: &Expr) -> Expr {
    *a
}

/// A copy of an expression.
#[verifier::when_used_as_spec(spec_cl)]
pub fn cl(a: &Expr) -> (r: Expr)
    ensures
        r == *a,
{
    a.clone()
}

pub open spec fn spec_negate(a: Expr) -> Expr {
    Expr::Neg(Box::new(a))
}

#[verifier::when_used_as_spec(spec_negate)]
pub fn negate(a: Expr) -> (r: Expr)
    ensures
        r == Expr::Neg(Box::new(a)),
{
    Expr::Neg(Box::new(a))
}

pub open spec fn spec_root(a: Expr) -> Expr {
    Expr::Sqrt(Box::new(a))
}

#[verifier::when_used_as_spec(spec_root)]
pub fn root(a: Expr) -> (r: Expr)
    ensures
        r == Expr::Sqrt(Box::new(a)),
{
    Expr::Sqrt(Box::new(a))
}

pub open spec fn spec_absolute(a: Expr) -> Expr {
    Expr::Abs(Box::new(a))
}

#[verifier::when_used_as_spec(spec_absolute)]
pub fn absolute(a: Expr) -> (r: Expr)
    ensures
        r == Expr::Abs(Box::new(a)),
{
    Expr::Abs(Box::new(a))
}

pub open spec fn spec_fact(a: Expr) -> Expr {
    Expr::Factorial(Box::new(a))
}

#[verifier::when_used_as_spec(spec_fact)]
pub fn fact(a: Expr) -> (r: Expr)
    ensures
        r == Expr::Factorial(Box::new(a)),
{
    Expr::Factorial(Box::new(a))
}

pub open spec fn spec_plus(a: Expr, b: Expr) -> Expr {
    Expr::Add(Box::new(a), Box::new(b))
}

#[verifier::when_used_as_spec(spec_plus)]
pub fn plus(a: Expr, b: Expr) -> (r: Expr)
    ensures
        r == Expr::Add(Box::new(a), Box::new(b)),
{
    Expr::Add(Box::new(a), Box::new(b))
}

pub open spec fn spec_minus(a: Expr, b: Expr) -> Expr {
    Expr::Sub(Box::new(a), Box::new(b))
}

#[verifier::when_used_as_spec(spec_minus)]
pub fn minus(a: Expr, b: Expr) -> (r: Expr)
    ensures
        r == Expr::Sub(Box::new(a), Box::new(b)),
{
    Expr::Sub(Box::new(a), Box::new(b))
}

pub open spec fn spec_times(a: Expr, b: Expr) -> Expr {
    Expr::Mul(Box::new(a), Box::new(b))
}

#[verifier::when_used_as_spec(spec_times)]
pub fn times(a: Expr, b: Expr) -> (r: Expr)
    ensures
        r == Expr::Mul(Box::new(a), Box::new(b)),
{
    Expr::Mul(Box::new(a), Box::new(b))
}

pub open spec fn spec_over(a: Expr, b: Expr) -> Expr {
    Expr::Div(Box::new(a), Box::new(b))
}

#[verifier::when_used_as_spec(spec_over)]
pub fn over(a: Expr, b: Expr) -> (r: Expr)
    ensures
        r == Expr::Div(Box::new(a), Box::new(b)),
{
    Expr::Div(Box::new(a), Box::new(b))
}

pub open spec fn spec_power(a: Expr, b: Expr) -> Expr {
    Expr::Pow(Box::new(a), Box::new(b))
}

#[verifier::when_used_as_spec(spec_power)]
pub fn power(a: Expr, b: Expr) -> (r: Expr)
    ensures
        r == Expr::Pow(Box::new(a), Box::new(b)),
{
    Expr::Pow(Box::new(a), Box::new(b))
}

pub open spec fn spec_binom(a: Expr, b: Expr) -> Expr {
    Expr::Binomial(Box::new(a), Box::new(b))
}

#[verifier::when_used_as_spec(spec_binom)]
pub fn binom(a: Expr, b: Expr) -> (r: Expr)
    ensures
        r == Expr::Binomial(Box::new(a), Box::new(b)),
{
    Expr::Binomial(Box::new(a), Box::new(b))
}

pub open spec fn spec_eqn(a: Expr, b: Expr) -> Expr {
    Expr::Equation { lhs: Box::new(a), rhs: Box::new(b) }
}

/// The equation `a = b`.
#[verifier::when_used_as_spec(spec_eqn)]
pub fn eqn(a: Expr, b: Expr) -> (r: Expr)
    ensures
        r == (Expr::Equation { lhs: Box::new(a), rhs: Box::new(b) }),
{
    Expr::Equation { lhs: Box::new(a), rhs: Box::new(b) }
}

pub open spec fn spec_deriv(a: Expr, v: Symbol) -> Expr {
    Expr::Derivative { expr: Box::new(a), var: v }
}

/// `d/dv a`.
#[verifier::when_used_as_spec(spec_deriv)]
pub fn deriv(a: Expr, v: Symbol) -> (r: Expr)
    ensures
        r == (Expr::Derivative { expr: Box::new(a), var: v }),
{
    Expr::Derivative { expr: Box::new(a), var: v }
}

pub open spec fn spec_sum_over(v: Symbol, from: Expr, to: Expr, body: Expr) -> Expr {
    Expr::Summation { var: v, from: Box::new(from), to: Box::new(to), body: Box::new(body) }
}

/// `Σ_{v=from}^{to} body`.
#[verifier::when_used_as_spec(spec_sum_over)]
pub fn sum_over(v: Symbol, from: Expr, to: Expr, body: Expr) -> (r: Expr)
    ensures
        r == (Expr::Summation {
            var: v,
            from: Box::new(from),
            to: Box::new(to),
            body: Box::new(body),
        }),
{
    Expr::Summation { var: v, from: Box::new(from), to: Box::new(to), body: Box::new(body) }
}

pub open spec fn spec_product_over(v: Symbol, from: Expr, to: Expr, body: Expr) -> Expr {
    Expr::BigProduct { var: v, from: Box::new(from), to: Box::new(to), body: Box::new(body) }
}

/// `Π_{v=from}^{to} body`.
#[verifier::when_used_as_spec(spec_product_over)]
pub fn product_over(v: Symbol, from: Expr, to: Expr, body: Expr) -> (r: Expr)
    ensures
        r == (Expr::BigProduct {
            var: v,
            from: Box::new(from),
            to: Box::new(to),
            body: Box::new(body),
        }),
{
    Expr::BigProduct { var: v, from: Box::new(from), to: Box::new(to), body: Box::new(body) }
}

impl Expr {
    /// The integer constant `n`.
    pub fn integer(n: i64) -> (r: Expr)
        ensures
            r == spec_lit(n),
    {
        lit(n)
    }
}

/// Whether `e` is the integer constant `n`.
pub fn is_lit(e: &Expr, n: i64) -> (r: bool)
    ensures
        r == (*e == spec_lit(n)),
{
    if let Expr::Const(c) = e {
        c.num == n && c.den == 1
    } else {
        false
    }
}

/// Whether `e` is the variable `s`.
pub fn is_var_of(e: &Expr, s: Symbol) -> (r: bool)
    ensures
        r == (*e == Expr::Var(s)),
{
    if let Expr::Var(v) = e {
        *v == s
    } else {
        false
    }
}

/// Whether `e` is a constant with numerator zero.
pub fn is_const_zero(e: &Expr) -> (r: bool)
    ensures
        r == (*e matches Expr::Const(c) && c.num == 0),
{
    if let Expr::Const(c) = e {
        c.num == 0
    } else {
        false
    }
}

/// `e` is a power whose exponent is the integer constant `n`.
pub open spec fn spec_is_pow_of(e: Expr, n: i64) -> bool {
    e matches Expr::Pow(_, exp) && *exp == spec_lit(n)
}

/// Whether `e` is a power whose exponent is the integer constant `n`.
pub fn is_pow_of(e: &Expr, n: i64) -> (r: bool)
    ensures
        r == spec_is_pow_of(*e, n),
{
    if let Expr::Pow(_, exp) = e {
        is_lit(exp, n)
    } else {
        false
    }
}

} // verus!
