//! Integer algorithms that the number-theory rules run on constants:
//! the extended Euclidean algorithm, modular powers, Euler's totient by
//! trial division, primitive roots and divisor sums.
use vstd::prelude::*;
use vstd::arithmetic::power::pow;
use crate::expr::{gcd, nat_abs};

verus! {

/// Quotient of `x / d` rounded toward zero, as machine division computes it.
pub open spec fn tdiv(x: int, d: int) -> int {
    if x == 0 {
        0
    } else if x > 0 && d > 0 {
        x / d
    } else if x < 0 && d < 0 {
        (x * -1) / (d * -1)
    } else if x < 0 {
        ((x * -1) / d) * -1
    } else {
        (x / (d * -1)) * -1
    }
}

/// Remainder of `x / d` with the sign of `x`, as machine `%` computes it.
pub open spec fn tmod(x: int, d: int) -> int {
    if x == 0 {
        0
    } else if x > 0 && d > 0 {
        x % d
    } else if x < 0 && d < 0 {
        ((x * -1) % (d * -1)) * -1
    } else if x < 0 {
        ((x * -1) % d) * -1
    } else {
        x % (d * -1)
    }
}

/// Truncated division and remainder fit together, and the remainder is
/// smaller than the divisor in size.
pub proof fn lemma_trunc_div_mod(x: int, d: int)
    requires
        d != 0,
    ensures
        x == d * tdiv(x, d) + tmod(x, d),
        nat_abs(tmod(x, d)) < nat_abs(d),
        nat_abs(tmod(x, d)) == nat_abs(x) % nat_abs(d),
        nat_abs(x) == nat_abs(tdiv(x, d)) * nat_abs(d) + nat_abs(tmod(x, d)),
        nat_abs(tdiv(x, d)) <= nat_abs(x),
        x >= 0 ==> tmod(x, d) >= 0,
        x <= 0 ==> tmod(x, d) <= 0,
{
    let ax = nat_abs(x) as int;
    let ad = nat_abs(d) as int;
    vstd::arithmetic::div_mod::lemma_fundamental_div_mod(ax, ad);
    vstd::arithmetic::div_mod::lemma_mod_bound(ax, ad);
    let q = ax / ad;
    let r = ax % ad;
    assert(q >= 0) by {
        vstd::arithmetic::div_mod::lemma_div_pos_is_pos(ax, ad);
    }
    assert(q <= ax) by {
        vstd::arithmetic::div_mod::lemma_div_is_ordered_by_denominator(ax, 1, ad);
    }
    if x == 0 {
        assert(q == 0) by {
            vstd::arithmetic::div_mod::lemma_div_of0(ad);
        }
        assert(tdiv(x, d) == 0 && tmod(x, d) == 0);
    } else if x > 0 && d > 0 {
        assert(tdiv(x, d) == q && tmod(x, d) == r);
    } else if x < 0 && d < 0 {
        assert(tdiv(x, d) == q && tmod(x, d) == r * -1);
        assert(x == d * q + (r * -1)) by (nonlinear_arith)
            requires
                ax == ad * q + r,
                ax == -x,
                ad == -d,
        ;
    } else if x < 0 {
        assert(tdiv(x, d) == q * -1 && tmod(x, d) == r * -1);
        assert(x == d * (q * -1) + (r * -1)) by (nonlinear_arith)
            requires
                ax == ad * q + r,
                ax == -x,
                ad == d,
        ;
    } else {
        assert(tdiv(x, d) == q * -1 && tmod(x, d) == r);
        assert(x == d * (q * -1) + r) by (nonlinear_arith)
            requires
                ax == ad * q + r,
                ax == x,
                ad == -d,
        ;
    }
    assert(nat_abs(x) == nat_abs(tdiv(x, d)) * nat_abs(d) + nat_abs(tmod(x, d))) by (
    nonlinear_arith)
        requires
            ax == ad * q + r,
            nat_abs(tdiv(x, d)) == q,
            nat_abs(tmod(x, d)) == r,
            ax == nat_abs(x),
            ad == nat_abs(d),
    ;
}

/// The extended Euclidean algorithm as the rules run it: `(g, x, y)` with
/// `a·x + b·y = g`, recursing on `(b, a % b)` with machine division.
pub open spec fn egcd(a: int, b: int) -> (int, int, int)
    decreases nat_abs(b),
{
    if b == 0 {
        (a, 1, 0)
    } else {
        proof {
            lemma_trunc_div_mod(a, b);
        }
        let (g, x1, y1) = egcd(b, tmod(a, b));
        (g, y1, x1 - tdiv(a, b) * y1)
    }
}

/// Whether the recursion reaches `i64::MIN % -1`, which machine
/// arithmetic cannot form.
pub open spec fn egcd_overflows(a: int, b: int) -> bool
    decreases nat_abs(b),
{
    if b == 0 {
        false
    } else if a == i64::MIN && b == -1 {
        true
    } else {
        proof {
            lemma_trunc_div_mod(a, b);
        }
        egcd_overflows(b, tmod(a, b))
    }
}

/// Bézout's identity for the coefficients, and `|g|` is the greatest common
/// divisor of `|a|` and `|b|`.
pub proof fn lemma_egcd(a: int, b: int)
    ensures
        a * egcd(a, b).1 + b * egcd(a, b).2 == egcd(a, b).0,
        nat_abs(egcd(a, b).0) == gcd(nat_abs(a), nat_abs(b)),
    decreases nat_abs(b),
{
    if b != 0 {
        lemma_trunc_div_mod(a, b);
        let q = tdiv(a, b);
        let r = tmod(a, b);
        lemma_egcd(b, r);
        let (g, x1, y1) = egcd(b, r);
        assert(a * y1 + b * (x1 - q * y1) == g) by (nonlinear_arith)
            requires
                b * x1 + r * y1 == g,
                a == b * q + r,
        ;
        assert(gcd(nat_abs(a), nat_abs(b)) == gcd(nat_abs(b), nat_abs(a) % nat_abs(b)));
    }
}

/// The extended Euclidean triple with its gcd made non-negative: where the
/// algorithm ends on a negative `g`, all three are negated. The one gcd that
/// a machine integer cannot hold, `2^63`, is left as `-2^63`.
pub open spec fn bezout(a: int, b: int) -> (int, int, int) {
    let (g, x, y) = egcd(a, b);
    if g < 0 && g > i64::MIN {
        (-g, -x, -y)
    } else {
        (g, x, y)
    }
}

/// Bézout's identity for the normalised triple, whose gcd is the greatest
/// common divisor of `|a|` and `|b|` wherever that fits in an `i64`.
pub proof fn lemma_bezout(a: int, b: int)
    ensures
        a * bezout(a, b).1 + b * bezout(a, b).2 == bezout(a, b).0,
        gcd(nat_abs(a), nat_abs(b)) <= i64::MAX ==> bezout(a, b).0 == gcd(nat_abs(a), nat_abs(b)),
        nat_abs(bezout(a, b).0) == gcd(nat_abs(a), nat_abs(b)),
        i64::MIN <= a <= i64::MAX && i64::MIN <= b <= i64::MAX ==> i64::MIN <= bezout(a, b).0 <= i64::MAX,
{
    lemma_egcd(a, b);
    if i64::MIN <= a <= i64::MAX && i64::MIN <= b <= i64::MAX {
        lemma_egcd_range(a, b);
    }
    let (g, x, y) = egcd(a, b);
    if g < 0 && g > i64::MIN {
        assert(a * (-x) + b * (-y) == -g) by (nonlinear_arith)
            requires
                a * x + b * y == g,
        ;
    }
}

/// The size of the coefficients: `|x| <= max(|b|, 1)` and `|y| <= max(|a|, 1)`;
/// and `g` is one of the numbers the recursion passes through, so it lies
/// between the smallest and largest of `a`, `b` and `-|b|`, `|b|`.
pub proof fn lemma_egcd_bounds(a: int, b: int)
    ensures
        nat_abs(egcd(a, b).1) <= if nat_abs(b) > 1 { nat_abs(b) } else { 1 },
        nat_abs(egcd(a, b).2) <= if nat_abs(a) > 1 { nat_abs(a) } else { 1 },
        b != 0 ==> nat_abs(egcd(a, b).0) <= nat_abs(b),
        b == 0 ==> egcd(a, b).0 == a,
    decreases nat_abs(b),
{
    if b != 0 {
        lemma_trunc_div_mod(a, b);
        let q = tdiv(a, b);
        let r = tmod(a, b);
        lemma_egcd_bounds(b, r);
        let (g, x1, y1) = egcd(b, r);
        let ab = nat_abs(b) as int;
        let aa = nat_abs(a) as int;
        let ar = nat_abs(r) as int;
        let aq = nat_abs(q) as int;
        assert(nat_abs(y1) <= ab);
        if r == 0 {
            assert(x1 == 1 && y1 == 0);
            assert(x1 - q * y1 == 1);
        } else {
            assert(nat_abs(x1) <= ar);
            let ax1 = nat_abs(x1) as int;
            let ay1 = nat_abs(y1) as int;
            assert(nat_abs(x1 - q * y1) <= ax1 + aq * ay1) by (nonlinear_arith)
                requires
                    ax1 == nat_abs(x1),
                    ay1 == nat_abs(y1),
                    aq == nat_abs(q),
            ;
            assert(aq * ay1 <= aq * ab) by (nonlinear_arith)
                requires
                    ay1 <= ab,
                    aq >= 0,
            ;
            assert(aa == aq * ab + ar);
        }
    }
}

/// The extended Euclidean algorithm on machine integers: `(g, x, y)` with
/// `a·x + b·y = g` and `g` the non-negative gcd (see [`bezout`]). The
/// coefficients are computed exactly, in 128 bits.
pub fn extended_gcd(a: i64, b: i64) -> (r: (i64, i128, i128))
    ensures
        r.0 as int == bezout(a as int, b as int).0,
        r.1 as int == bezout(a as int, b as int).1,
        r.2 as int == bezout(a as int, b as int).2,
{
    let (g, x, y) = egcd_wide(a as i128, b as i128);
    proof {
        lemma_egcd_range(a as int, b as int);
        lemma_egcd_bounds(a as int, b as int);
    }
    if g < 0 && g > i64::MIN as i128 {
        (-g as i64, -x, -y)
    } else {
        (g as i64, x, y)
    }
}

/// `g` stays within the range of the machine integers that `a` and `b` come from.
proof fn lemma_egcd_range(a: int, b: int)
    requires
        i64::MIN <= a <= i64::MAX,
        i64::MIN <= b <= i64::MAX,
    ensures
        i64::MIN <= egcd(a, b).0 <= i64::MAX,
    decreases nat_abs(b),
{
    if b != 0 {
        lemma_trunc_div_mod(a, b);
        lemma_egcd_range(b, tmod(a, b));
    }
}

fn egcd_wide(a: i128, b: i128) -> (r: (i128, i128, i128))
    requires
        i64::MIN <= a <= i64::MAX,
        i64::MIN <= b <= i64::MAX,
    ensures
        r == (egcd(a as int, b as int).0 as i128, egcd(a as int, b as int).1 as i128, egcd(
            a as int,
            b as int,
        ).2 as i128),
        r.0 == egcd(a as int, b as int).0,
        r.1 == egcd(a as int, b as int).1,
        r.2 == egcd(a as int, b as int).2,
    decreases nat_abs(b as int),
{
    if b == 0 {
        return (a, 1, 0);
    }
    proof {
        lemma_trunc_div_mod(a as int, b as int);
        lemma_egcd_bounds(a as int, b as int);
        lemma_egcd_bounds(b as int, tmod(a as int, b as int));
        lemma_egcd_range(a as int, b as int);
    }
    let q = a.checked_div(b).unwrap();
    let r = a.checked_rem(b).unwrap();
    let (g, x1, y1) = egcd_wide(b, r);
    proof {
        let aq = nat_abs(q as int) as int;
        let ay1 = nat_abs(y1 as int) as int;
        assert(aq <= 0x8000_0000_0000_0000);
        assert(ay1 <= 0x8000_0000_0000_0000);
        assert(nat_abs(q * y1) <= 0x4000_0000_0000_0000_0000_0000_0000_0000) by (nonlinear_arith)
            requires
                aq == nat_abs(q as int),
                ay1 == nat_abs(y1 as int),
                aq <= 0x8000_0000_0000_0000,
                ay1 <= 0x8000_0000_0000_0000,
        ;
    }
    (g, y1, x1 - q * y1)
}


/// The square-and-multiply loop: `result` times `base^exp`, reducing every
/// product with machine `%` by `m`.
pub open spec fn pow_loop(result: int, base: int, exp: int, m: int) -> int
    decreases exp,
{
    if exp <= 0 {
        result
    } else {
        let next = if exp % 2 == 1 {
            tmod(result * base, m)
        } else {
            result
        };
        pow_loop(next, tmod(base * base, m), exp / 2, m)
    }
}

/// `base^exp mod m` by repeated squaring, with the base first brought into
/// `0..m` and the product started at `1 % m`.
pub open spec fn mod_pow(base: int, exp: int, m: int) -> int {
    pow_loop(tmod(1, m), tmod(tmod(base, m) + m, m), exp, m)
}

pub proof fn lemma_tmod_congruent(x: int, m: int)
    requires
        m > 0,
    ensures
        tmod(x, m) % m == x % m,
        nat_abs(tmod(x, m)) < m,
{
    lemma_trunc_div_mod(x, m);
    vstd::arithmetic::div_mod::lemma_mod_multiples_vanish(tdiv(x, m), tmod(x, m), m);
    assert(x == m * tdiv(x, m) + tmod(x, m));
}

/// The loop computes `result * base^exp` modulo `m`; once it has run a
/// step its value is smaller than `m` in size, and it stays nonnegative
/// from nonnegative `result` and `base`.
pub proof fn lemma_pow_loop(result: int, base: int, exp: int, m: int)
    requires
        m > 0,
        exp >= 0,
    ensures
        pow_loop(result, base, exp, m) % m == (result * pow(base, exp as nat)) % m,
        exp > 0 ==> nat_abs(pow_loop(result, base, exp, m)) < m,
        exp == 0 ==> pow_loop(result, base, exp, m) == result,
        result >= 0 && base >= 0 ==> pow_loop(result, base, exp, m) >= 0,
    decreases exp,
{
    reveal(pow);
    if exp > 0 {
        let half = exp / 2;
        let odd = exp % 2 == 1;
        let next = if odd {
            tmod(result * base, m)
        } else {
            result
        };
        let b2 = tmod(base * base, m);
        lemma_pow_loop(next, b2, half, m);
        lemma_tmod_congruent(result * base, m);
        lemma_tmod_congruent(base * base, m);
        lemma_trunc_div_mod(result * base, m);
        lemma_trunc_div_mod(base * base, m);
        assert(result >= 0 && base >= 0 ==> result * base >= 0 && base * base >= 0) by (
        nonlinear_arith)
        ;
        // b2^half ≡ (base*base)^half = base^(2*half)
        vstd::arithmetic::power::lemma_pow_mod_noop(b2, half as nat, m);
        vstd::arithmetic::power::lemma_pow_mod_noop(base * base, half as nat, m);
        vstd::arithmetic::power::lemma_square_is_pow2(base);
        vstd::arithmetic::power::lemma_pow_multiplies(base, 2, half as nat);
        let p2 = pow(base, (2 * half) as nat);
        assert(pow(b2, half as nat) % m == p2 % m);
        assert(exp == 2 * half + exp % 2);
        if odd {
            vstd::arithmetic::power::lemma_pow_adds(base, (2 * half) as nat, 1);
            vstd::arithmetic::power::lemma_pow1(base);
            assert(pow(base, exp as nat) == p2 * base);
            vstd::arithmetic::div_mod::lemma_mul_mod_noop_general(next, pow(b2, half as nat), m);
            vstd::arithmetic::div_mod::lemma_mul_mod_noop_general(result * base, p2, m);
            assert((next * pow(b2, half as nat)) % m == ((result * base) * p2) % m);
            assert((result * base) * p2 == result * (p2 * base)) by (nonlinear_arith);
        } else {
            assert(exp == 2 * half);
            vstd::arithmetic::div_mod::lemma_mul_mod_noop_general(result, pow(b2, half as nat), m);
            vstd::arithmetic::div_mod::lemma_mul_mod_noop_general(result, p2, m);
        }
        if half == 0 {
            assert(odd);
        }
    }
}

/// `base^exp mod m`: congruent to the power, and smaller than `m` in size
/// when `exp > 0`.
pub proof fn lemma_mod_pow(base: int, exp: int, m: int)
    requires
        m > 0,
        exp >= 0,
    ensures
        mod_pow(base, exp, m) == pow(base, exp as nat) % m,
        0 <= mod_pow(base, exp, m) < m,
{
    let b = tmod(tmod(base, m) + m, m);
    let one = tmod(1, m);
    lemma_tmod_congruent(base, m);
    lemma_trunc_div_mod(base, m);
    lemma_trunc_div_mod(tmod(base, m) + m, m);
    lemma_tmod_congruent(tmod(base, m) + m, m);
    lemma_trunc_div_mod(1, m);
    lemma_tmod_congruent(1, m);
    assert(b % m == base % m) by {
        vstd::arithmetic::div_mod::lemma_mod_add_multiples_vanish(tmod(base, m), m);
    }
    assert(0 <= b < m);
    assert(0 <= one < m);
    assert(one % m == 1int % m);
    lemma_pow_loop(one, b, exp, m);
    let r = pow_loop(one, b, exp, m);
    assert(0 <= r < m);
    vstd::arithmetic::div_mod::lemma_small_mod(r as nat, m as nat);
    vstd::arithmetic::power::lemma_pow_mod_noop(b, exp as nat, m);
    vstd::arithmetic::power::lemma_pow_mod_noop(base, exp as nat, m);
    let p = pow(b, exp as nat);
    vstd::arithmetic::div_mod::lemma_mul_mod_noop_left(one, p, m);
    vstd::arithmetic::div_mod::lemma_mul_mod_noop_left(1int, p, m);
    assert((one * p) % m == (1int * p) % m);
    assert(r % m == p % m);
}

/// Machine `%` on 128-bit integers.
pub fn trem(x: i128, d: i128) -> (r: i128)
    requires
        d != 0,
        x != i128::MIN,
    ensures
        r == tmod(x as int, d as int),
{
    proof {
        lemma_trunc_div_mod(x as int, d as int);
    }
    x.checked_rem(d).unwrap()
}

/// Machine `/` on 128-bit integers.
pub fn tquot(x: i128, d: i128) -> (r: i128)
    requires
        d != 0,
        x != i128::MIN,
    ensures
        r == tdiv(x as int, d as int),
{
    proof {
        lemma_trunc_div_mod(x as int, d as int);
    }
    x.checked_div(d).unwrap()
}

/// The square-and-multiply loop on machine integers, in 128 bits.
fn pow_loop_wide(result: i128, base: i128, exp: i128, m: i128) -> (r: i128)
    requires
        0 < m <= i64::MAX,
        nat_abs(result as int) < m || result == 1,
        nat_abs(base as int) < m,
        0 <= exp,
    ensures
        r == pow_loop(result as int, base as int, exp as int, m as int),
    decreases exp,
{
    if exp <= 0 {
        return result;
    }
    proof {
        assert(nat_abs(result * base) < 0x4000_0000_0000_0000_0000_0000_0000_0000) by (
        nonlinear_arith)
            requires
                nat_abs(result as int) <= m,
                nat_abs(base as int) <= m,
                m <= i64::MAX,
        ;
        assert(nat_abs(base * base) < 0x4000_0000_0000_0000_0000_0000_0000_0000) by (
        nonlinear_arith)
            requires
                nat_abs(base as int) <= m,
                m <= i64::MAX,
        ;
        lemma_trunc_div_mod(result * base, m as int);
        lemma_trunc_div_mod(base * base, m as int);
    }
    let next = if trem(exp, 2) == 1 {
        trem(result * base, m)
    } else {
        result
    };
    pow_loop_wide(next, trem(base * base, m), tquot(exp, 2), m)
}

/// `base^exp mod m` by repeated squaring, as the rules compute it; the
/// products are formed in 128 bits, so none of them overflows.
pub fn mod_pow_exec(base: i64, exp: i64, m: i64) -> (r: i64)
    requires
        m > 0,
    ensures
        r == mod_pow(base as int, exp as int, m as int),
{
    proof {
        lemma_trunc_div_mod(base as int, m as int);
        lemma_trunc_div_mod(tmod(base as int, m as int) + m, m as int);
        lemma_trunc_div_mod(1, m as int);
    }
    let mw = m as i128;
    let b = trem(trem(base as i128, mw) + mw, mw);
    let one = trem(1, mw);
    if exp < 0 {
        return one as i64;
    }
    let r = pow_loop_wide(one, b, exp as i128, mw);
    proof {
        lemma_mod_pow(base as int, exp as int, m as int);
    }
    r as i64
}

/// The Legendre symbol `(a/p)` by Euler's criterion as the rules compute
/// it: `a^((p-1)/2)` modulo `p` after bringing `a` into `0..p`, read as
/// `0`, `1`, or `-1` for any other value.
pub open spec fn legendre(a: int, p: int) -> int {
    let r = pow_loop(1, tmod(tmod(a, p) + p, p), tdiv(p - 1, 2), p);
    if r == 0 {
        0
    } else if r == 1 {
        1
    } else {
        -1
    }
}

/// For a modulus `p >= 2` the value read is `a^((p-1)/2) mod p`.
pub proof fn lemma_legendre(a: int, p: int)
    requires
        p >= 2,
    ensures
        legendre(a, p) == (if pow(a, ((p - 1) / 2) as nat) % p == 0 {
            0
        } else if pow(a, ((p - 1) / 2) as nat) % p == 1 {
            1
        } else {
            -1
        }),
{
    let b = tmod(tmod(a, p) + p, p);
    lemma_tmod_congruent(a, p);
    lemma_trunc_div_mod(a, p);
    lemma_trunc_div_mod(tmod(a, p) + p, p);
    lemma_tmod_congruent(tmod(a, p) + p, p);
    assert(b % p == a % p) by {
        vstd::arithmetic::div_mod::lemma_mod_add_multiples_vanish(tmod(a, p), p);
    }
    let e = tdiv(p - 1, 2);
    assert(e == (p - 1) / 2);
    lemma_pow_loop(1, b, e, p);
    vstd::arithmetic::power::lemma_pow_mod_noop(b, e as nat, p);
    vstd::arithmetic::power::lemma_pow_mod_noop(a, e as nat, p);
    let r = pow_loop(1, b, e, p);
    if e > 0 {
        assert(0 <= r < p);
        vstd::arithmetic::div_mod::lemma_small_mod(r as nat, p as nat);
    } else {
        assert(r == 1);
        vstd::arithmetic::power::lemma_pow0(a);
        vstd::arithmetic::div_mod::lemma_small_mod(1, p as nat);
    }
}

/// The Legendre symbol `(a/p)` as the rules compute it.
pub fn legendre_exec(a: i64, p: i64) -> (r: i64)
    requires
        p != 0,
    ensures
        r == legendre(a as int, p as int),
{
    proof {
        lemma_trunc_div_mod(a as int, p as int);
        lemma_trunc_div_mod(tmod(a as int, p as int) + p, p as int);
    }
    let m = p as i128;
    let b = trem(trem(a as i128, m) + m, m);
    let e = tquot(m - 1, 2);
    let r = if p > 0 {
        pow_loop_wide(1, b, if e < 0 { 0 } else { e }, m)
    } else {
        1
    };
    proof {
        if p < 0 {
            lemma_trunc_div_mod(p - 1, 2);
            assert(e <= 0);
        }
    }
    if r == 0 {
        0
    } else if r == 1 {
        1
    } else {
        -1
    }
}

/// How far trial division from `p` has left to go below `n`.
pub open spec fn trial_measure(n: int, p: int) -> int {
    if p <= n {
        n + 1 - p
    } else {
        0
    }
}

/// Whether `p * p <= m`, for `p` small enough that the square fits.
fn square_le(p: i128, m: i128) -> (r: bool)
    requires
        0 <= p <= 0x1_0000_0000,
    ensures
        r == (p * p <= m),
{
    proof {
        assert(p * p <= 0x1_0000_0000_0000_0000) by (nonlinear_arith)
            requires
                0 <= p <= 0x1_0000_0000,
        ;
    }
    p * p <= m
}

/// Divide `p` out of `n` as often as it goes.
pub open spec fn strip(n: int, p: int) -> int
    decreases n,
{
    if n > 0 && p >= 2 && n % p == 0 {
        proof {
            vstd::arithmetic::div_mod::lemma_div_decreases(n, p);
        }
        strip(n / p, p)
    } else {
        n
    }
}

/// The trial-division loop of Euler's totient: `result` is reduced by
/// `result / p` for each prime `p` dividing the part `n` not yet factored.
pub open spec fn phi_loop(n: int, result: int, p: int) -> int
    decreases trial_measure(n, p),
{
    if p >= 2 && p * p <= n {
        proof {
            assert(p <= n) by (nonlinear_arith)
                requires
                    p >= 2,
                    p * p <= n,
            ;
            lemma_strip(n, p);
        }
        if n % p == 0 {
            phi_loop(strip(n, p), result - result / p, p + 1)
        } else {
            phi_loop(n, result, p + 1)
        }
    } else if n > 1 {
        result - result / n
    } else {
        result
    }
}

pub proof fn lemma_strip(n: int, p: int)
    requires
        p >= 2,
    ensures
        n > 0 ==> 0 < strip(n, p) <= n,
        n <= 0 ==> strip(n, p) == n,
    decreases n,
{
    if n > 0 && n % p == 0 {
        vstd::arithmetic::div_mod::lemma_div_decreases(n, p);
        vstd::arithmetic::div_mod::lemma_fundamental_div_mod(n, p);
        assert(n / p > 0) by (nonlinear_arith)
            requires
                n == p * (n / p) + n % p,
                n % p == 0,
                n > 0,
                p >= 2,
        ;
        lemma_strip(n / p, p);
    }
}

/// Euler's totient of `n` by trial division, as the rules compute it; it is
/// `n` itself for `n <= 1`.
pub open spec fn euler_phi(n: int) -> int {
    phi_loop(n, n, 2)
}

fn strip_exec(n: i128, p: i128) -> (r: i128)
    requires
        p >= 2,
        0 < n <= i64::MAX,
    ensures
        r == strip(n as int, p as int),
    decreases n,
{
    if n % p == 0 {
        proof {
            lemma_strip(n as int, p as int);
            vstd::arithmetic::div_mod::lemma_div_decreases(n as int, p as int);
            vstd::arithmetic::div_mod::lemma_fundamental_div_mod(n as int, p as int);
            assert(n / p > 0) by (nonlinear_arith)
                requires
                    n == p * (n / p) + n % p,
                    n % p == 0,
                    n > 0,
                    p >= 2,
            ;
        }
        strip_exec(n / p, p)
    } else {
        n
    }
}

/// Euler's totient by trial division, as the rules compute it.
pub fn euler_phi_exec(n: i64) -> (r: i64)
    ensures
        r == euler_phi(n as int),
{
    let mut m: i128 = n as i128;
    let mut result: i128 = n as i128;
    let mut p: i128 = 2;
    while square_le(p, m)
        invariant
            2 <= p,
            m <= i64::MAX,
            n <= 0 ==> m == n && result == n,
            n > 0 ==> 0 < m && 0 <= result <= n,
            phi_loop(m as int, result as int, p as int) == euler_phi(n as int),
            p <= 0x1_0000_0000,
        decreases trial_measure(m as int, p as int),
    {
        proof {
            assert(p <= m) by (nonlinear_arith)
                requires
                    p >= 2,
                    p * p <= m,
            ;
            assert(p < 0x1_0000_0000) by (nonlinear_arith)
                requires
                    p >= 2,
                    p * p <= m,
                    m <= i64::MAX,
            ;
        }
        if m % p == 0 {
            proof {
                lemma_strip(m as int, p as int);
                vstd::arithmetic::div_mod::lemma_div_pos_is_pos(result as int, p as int);
                vstd::arithmetic::div_mod::lemma_div_is_ordered_by_denominator(result as int, 1, p as int);
            }
            m = strip_exec(m, p);
            result = result - result / p;
        }
        p = p + 1;
    }
    if m > 1 {
        proof {
            vstd::arithmetic::div_mod::lemma_div_pos_is_pos(result as int, m as int);
            vstd::arithmetic::div_mod::lemma_div_is_ordered_by_denominator(result as int, 1, m as int);
        }
        result = result - result / m;
    }
    result as i64
}

/// The checks the rules make of a candidate primitive root `g` modulo `n`
/// whose totient is `phi`: `g^phi ≡ 1`, and for every divisor `d` of `phi`
/// with `2 <= d` and `d² <= phi`, neither `g^(phi/d)` nor `g^d` (when `d`
/// is not `phi/d`) is `1`.
pub open spec fn root_checks(g: int, n: int, phi: int, d: int) -> bool
    decreases phi - d,
{
    if d >= 2 && d * d <= phi {
        proof {
            assert(d <= phi) by (nonlinear_arith)
                requires
                    d >= 2,
                    d * d <= phi,
            ;
        }
        &&& (phi % d == 0 ==> {
            &&& mod_pow(g, phi / d, n) != 1
            &&& (d != phi / d ==> mod_pow(g, d, n) != 1)
        })
        &&& {
            proof {
                assert(d + 1 <= phi) by (nonlinear_arith)
                    requires
                        d >= 2,
                        d * d <= phi,
                ;
            }
            root_checks(g, n, phi, d + 1)
        }
    } else {
        true
    }
}

/// Whether `g` passes the primitive-root test modulo `n`.
pub open spec fn is_primitive_root(g: int, n: int, phi: int) -> bool {
    mod_pow(g, phi, n) == 1 && root_checks(g, n, phi, 2)
}

/// The least `g` in `from..n` that passes the primitive-root test.
pub open spec fn first_primitive_root(from: int, n: int, phi: int) -> Option<int>
    decreases n - from,
{
    if from >= n {
        None
    } else if is_primitive_root(from, n, phi) {
        Some(from)
    } else {
        first_primitive_root(from + 1, n, phi)
    }
}

/// The least primitive root modulo `n` that the rules find: `1` modulo `2`,
/// and otherwise the first in `2..n` that passes the test.
pub open spec fn least_primitive_root(n: int) -> Option<int> {
    if n == 2 {
        Some(1)
    } else {
        first_primitive_root(2, n, euler_phi(n))
    }
}

/// `g` has order `phi` modulo `n`: `g^phi ≡ 1`, and no smaller positive
/// power of `g` is `1` modulo `n`.
pub open spec fn has_order(g: int, n: int, phi: nat) -> bool {
    &&& pow(g, phi) % n == 1
    &&& forall|e: nat| 1 <= e < phi ==> #[trigger] pow(g, e) % n != 1
}

/// The least positive power of `g` that is `1` modulo `n`, at most `e`.
proof fn lemma_least_unit_power(g: int, n: int, e: nat) -> (o: nat)
    requires
        1 <= e,
        pow(g, e) % n == 1,
    ensures
        1 <= o <= e,
        pow(g, o) % n == 1,
        forall|j: nat| 1 <= j < o ==> #[trigger] pow(g, j) % n != 1,
    decreases e,
{
    if exists|j: nat| 1 <= j < e && #[trigger] pow(g, j) % n == 1 {
        let j = choose|j: nat| 1 <= j < e && #[trigger] pow(g, j) % n == 1;
        lemma_least_unit_power(g, n, j)
    } else {
        e
    }
}

/// Where `g^o ≡ 1 (mod n)`, `g^(q·o + r) ≡ g^r`.
proof fn lemma_unit_power_period(g: int, n: int, o: nat, q: nat, r: nat)
    requires
        n > 1,
        pow(g, o) % n == 1,
    ensures
        pow(g, q * o + r) % n == pow(g, r) % n,
{
    let a = pow(g, o);
    vstd::arithmetic::power::lemma_pow_multiplies(g, o, q);
    assert(o * q == q * o) by (nonlinear_arith);
    vstd::arithmetic::power::lemma_pow_mod_noop(a, q, n);
    vstd::arithmetic::power::lemma1_pow(q);
    vstd::arithmetic::div_mod::lemma_small_mod(1, n as nat);
    assert(pow(a, q) % n == 1);
    vstd::arithmetic::power::lemma_pow_adds(g, q * o, r);
    vstd::arithmetic::div_mod::lemma_mul_mod_noop(pow(a, q), pow(g, r), n);
    vstd::arithmetic::div_mod::lemma_mod_twice(pow(g, r), n);
    assert(pow(g, q * o + r) == pow(a, q) * pow(g, r));
    assert((1 * (pow(g, r) % n)) % n == pow(g, r) % n);
}

/// The order of `g` divides every exponent whose power is `1`.
proof fn lemma_order_divides(g: int, n: int, o: nat, e: nat)
    requires
        n > 1,
        1 <= o,
        pow(g, o) % n == 1,
        forall|j: nat| 1 <= j < o ==> #[trigger] pow(g, j) % n != 1,
        pow(g, e) % n == 1,
    ensures
        e % o == 0,
{
    let q = e / o;
    let r = e % o;
    vstd::arithmetic::div_mod::lemma_fundamental_div_mod(e as int, o as int);
    assert(q * o + r == e) by (nonlinear_arith)
        requires
            e == o * q + r,
    ;
    lemma_unit_power_period(g, n, o, q as nat, r as nat);
    if r != 0 {
        assert(pow(g, r as nat) % n != 1);
    }
}

/// What `root_checks` from `start` says about a `d` it passes over.
proof fn lemma_root_checks_at(g: int, n: int, phi: int, start: int, d: int)
    requires
        root_checks(g, n, phi, start),
        2 <= start <= d,
        d * d <= phi,
        phi % d == 0,
    ensures
        mod_pow(g, phi / d, n) != 1,
        d != phi / d ==> mod_pow(g, d, n) != 1,
    decreases d - start,
{
    assert(start * start <= d * d) by (nonlinear_arith)
        requires
            2 <= start <= d,
    ;
    if start < d {
        lemma_root_checks_at(g, n, phi, start + 1, d);
    }
}

/// `root_checks` from `start` holds where no power below `phi` is `1`.
proof fn lemma_root_checks_of_order(g: int, n: int, phi: nat, start: int)
    requires
        n > 1,
        start >= 2,
        forall|e: nat| 1 <= e < phi ==> #[trigger] pow(g, e) % n != 1,
    ensures
        root_checks(g, n, phi as int, start),
    decreases phi - start,
{
    let d = start;
    if d * d <= phi {
        assert(d < phi) by (nonlinear_arith)
            requires
                d >= 2,
                d * d <= phi,
        ;
        if (phi as int) % d == 0 {
            let c = (phi as int) / d;
            vstd::arithmetic::div_mod::lemma_fundamental_div_mod(phi as int, d);
            assert(1 <= c < phi) by (nonlinear_arith)
                requires
                    phi == d * c,
                    d >= 2,
                    phi >= 1,
            ;
            lemma_mod_pow(g, c, n);
            lemma_mod_pow(g, d, n);
            assert(pow(g, c as nat) % n != 1);
            assert(pow(g, d as nat) % n != 1);
        }
        lemma_root_checks_of_order(g, n, phi, start + 1);
    }
}

/// The primitive-root test decides the order: for `2 <= g < n`, `g` passes
/// the test with `phi` exactly when `g` has order `phi` modulo `n`.
pub proof fn lemma_primitive_root_order(g: int, n: int, phi: nat)
    requires
        2 <= g < n,
    ensures
        is_primitive_root(g, n, phi as int) <==> has_order(g, n, phi),
{
    lemma_mod_pow(g, phi as int, n);
    if has_order(g, n, phi) {
        lemma_root_checks_of_order(g, n, phi, 2);
    }
    if is_primitive_root(g, n, phi as int) && !has_order(g, n, phi) {
        let e = choose|e: nat| 1 <= e < phi && #[trigger] pow(g, e) % n == 1;
        let o = lemma_least_unit_power(g, n, e);
        vstd::arithmetic::power::lemma_pow1(g);
        vstd::arithmetic::div_mod::lemma_small_mod(g as nat, n as nat);
        assert(o >= 2);
        lemma_order_divides(g, n, o, phi);
        let c = phi / o;
        vstd::arithmetic::div_mod::lemma_fundamental_div_mod(phi as int, o as int);
        assert(phi == o * c);
        assert(c >= 2) by (nonlinear_arith)
            requires
                phi == o * c,
                o < phi,
                o >= 1,
        ;
        lemma_mod_pow(g, o as int, n);
        if c * c <= phi {
            vstd::arithmetic::div_mod::lemma_div_multiples_vanish(o as int, c as int);
            assert(phi / c == o) by (nonlinear_arith)
                requires
                    phi == o * c,
                    c >= 2,
            ;
            assert(phi % c == 0) by (nonlinear_arith)
                requires
                    phi == o * c,
                    c >= 2,
            ;
            lemma_root_checks_at(g, n, phi as int, 2, c as int);
        } else {
            assert(o * o < phi && o < c) by (nonlinear_arith)
                requires
                    phi == o * c,
                    c * c > phi,
                    o >= 2,
            ;
            assert(phi % o == 0);
            lemma_root_checks_at(g, n, phi as int, 2, o as int);
        }
    }
}

/// The totient the rules compute is at least `1` from a `result` of at least `1`.
proof fn lemma_phi_loop_positive(n: int, result: int, p: int)
    requires
        result >= 1,
    ensures
        phi_loop(n, result, p) >= 1,
    decreases trial_measure(n, p),
{
    if p >= 2 && p * p <= n {
        assert(p <= n) by (nonlinear_arith)
            requires
                p >= 2,
                p * p <= n,
        ;
        lemma_strip(n, p);
        vstd::arithmetic::div_mod::lemma_div_is_ordered_by_denominator(result, 2, p);
        vstd::arithmetic::div_mod::lemma_fundamental_div_mod(result, 2);
        if n % p == 0 {
            lemma_phi_loop_positive(strip(n, p), result - result / p, p + 1);
        } else {
            lemma_phi_loop_positive(n, result, p + 1);
        }
    } else if n > 1 {
        vstd::arithmetic::div_mod::lemma_div_is_ordered_by_denominator(result, 2, n);
        vstd::arithmetic::div_mod::lemma_fundamental_div_mod(result, 2);
    }
}

/// What the search from `from` finds: the first candidate that passes.
proof fn lemma_first_primitive_root(from: int, n: int, phi: int)
    ensures
        first_primitive_root(from, n, phi) matches Some(g) ==> from <= g < n && is_primitive_root(g, n, phi)
            && forall|h: int| from <= h < g ==> !is_primitive_root(h, n, phi),
        first_primitive_root(from, n, phi) is None ==> forall|h: int| from <= h < n ==> !is_primitive_root(h, n, phi),
    decreases n - from,
{
    if from < n && !is_primitive_root(from, n, phi) {
        lemma_first_primitive_root(from + 1, n, phi);
    }
}

/// The primitive root the rules find is the least one: for `n >= 1`, the
/// answer `g` has order `φ(n)` modulo `n` (the totient as computed), and no
/// smaller candidate from `2` has; where there is no answer, no `g` in
/// `2..n` has that order.
pub proof fn lemma_least_primitive_root(n: int)
    requires
        n >= 1,
    ensures
        least_primitive_root(n) matches Some(g) ==> euler_phi(n) >= 1 && has_order(g, n, euler_phi(n) as nat)
            && forall|h: int| 2 <= h < g ==> !#[trigger] has_order(h, n, euler_phi(n) as nat),
        least_primitive_root(n) is None ==> forall|h: int| 2 <= h < n ==> !#[trigger] has_order(h, n, euler_phi(n) as nat),
{
    lemma_phi_loop_positive(n, n, 2);
    let phi = euler_phi(n);
    if n == 2 {
        assert(phi_loop(2, 2, 2) == 1) by {
            reveal_with_fuel(phi_loop, 2);
        }
        vstd::arithmetic::power::lemma_pow1(1);
        vstd::arithmetic::div_mod::lemma_small_mod(1, 2);
        assert(has_order(1, 2, 1));
    } else {
        lemma_first_primitive_root(2, n, phi);
        assert((phi as nat) as int == phi);
        assert forall|h: int| 2 <= h < n implies #[trigger] is_primitive_root(h, n, phi) == has_order(h, n, phi as nat) by {
            lemma_primitive_root_order(h, n, phi as nat);
        }
        if let Some(g) = least_primitive_root(n) {
            assert(is_primitive_root(g, n, phi));
            assert(has_order(g, n, phi as nat));
            assert forall|h: int| 2 <= h < g implies !#[trigger] has_order(h, n, phi as nat) by {
                assert(!is_primitive_root(h, n, phi));
            }
        } else {
            assert forall|h: int| 2 <= h < n implies !#[trigger] has_order(h, n, phi as nat) by {
                assert(!is_primitive_root(h, n, phi));
            }
        }
    }
}

fn is_primitive_root_exec(g: i64, n: i64, phi: i64) -> (r: bool)
    requires
        2 <= g < n,
    ensures
        r == is_primitive_root(g as int, n as int, phi as int),
{
    if mod_pow_exec(g, phi, n) != 1 {
        return false;
    }
    let mut d: i128 = 2;
    let phi_w = phi as i128;
    while square_le(d, phi_w)
        invariant
            2 <= d,
            phi_w == phi,
            2 <= g < n,
            root_checks(g as int, n as int, phi as int, 2) == root_checks(
                g as int,
                n as int,
                phi as int,
                d as int,
            ),
            mod_pow(g as int, phi as int, n as int) == 1,
            d <= 0x1_0000_0000,
        decreases trial_measure(phi_w as int, d as int),
    {
        proof {
            assert(d <= phi_w) by (nonlinear_arith)
                requires
                    d >= 2,
                    d * d <= phi_w,
            ;
            assert(d < 0x1_0000_0000) by (nonlinear_arith)
                requires
                    d >= 2,
                    d * d <= phi_w,
                    phi_w <= i64::MAX,
            ;
            vstd::arithmetic::div_mod::lemma_div_pos_is_pos(phi_w as int, d as int);
            vstd::arithmetic::div_mod::lemma_div_is_ordered_by_denominator(phi_w as int, 1, d as int);
        }
        if phi_w % d == 0 {
            if mod_pow_exec(g, (phi_w / d) as i64, n) == 1 {
                return false;
            }
            if d != phi_w / d && mod_pow_exec(g, d as i64, n) == 1 {
                return false;
            }
        }
        d = d + 1;
    }
    true
}

/// The least primitive root modulo `n` that the search finds.
pub fn least_primitive_root_exec(n: i64) -> (r: Option<i64>)
    ensures
        r matches Some(g) ==> least_primitive_root(n as int) == Some(g as int),
        r is None ==> least_primitive_root(n as int) is None,
{
    if n == 2 {
        return Some(1);
    }
    let phi = euler_phi_exec(n);
    let mut g: i64 = 2;
    while g < n
        invariant
            2 <= g,
            least_primitive_root(n as int) == first_primitive_root(g as int, n as int, phi as int),
            phi == euler_phi(n as int),
        decreases n - g,
    {
        if is_primitive_root_exec(g, n, phi) {
            return Some(g);
        }
        g = g + 1;
    }
    None
}

/// The sum of the divisors of `n` among `1..=k`.
pub open spec fn divisor_sum_upto(n: int, k: int) -> int
    decreases k,
{
    if k <= 0 {
        0
    } else {
        divisor_sum_upto(n, k - 1) + if n % k == 0 {
            k
        } else {
            0int
        }
    }
}

/// The number of divisors of `n` among `1..=k`.
pub open spec fn divisor_count_upto(n: int, k: int) -> int
    decreases k,
{
    if k <= 0 {
        0
    } else {
        divisor_count_upto(n, k - 1) + if n % k == 0 {
            1int
        } else {
            0int
        }
    }
}

/// σ(n): the sum of the positive divisors of `n`.
pub open spec fn sigma(n: int) -> int {
    divisor_sum_upto(n, n)
}

/// τ(n): the number of positive divisors of `n`.
pub open spec fn tau(n: int) -> int {
    divisor_count_upto(n, n)
}

proof fn lemma_divisor_sums_bound(n: int, k: int)
    requires
        k >= 0,
    ensures
        0 <= divisor_sum_upto(n, k) <= k * k,
        0 <= divisor_count_upto(n, k) <= k,
    decreases k,
{
    if k > 0 {
        lemma_divisor_sums_bound(n, k - 1);
        assert((k - 1) * (k - 1) + k <= k * k) by (nonlinear_arith)
            requires
                k > 0,
        ;
    }
}

/// σ(n) for `0 < n < 1000`, summing the divisors in `1..=n`.
pub fn sigma_exec(n: i64) -> (r: i64)
    requires
        0 < n < 1000,
    ensures
        r == sigma(n as int),
{
    let mut sum: i64 = 0;
    let mut d: i64 = 1;
    while d <= n
        invariant
            1 <= d <= n + 1,
            0 < n < 1000,
            sum == divisor_sum_upto(n as int, d - 1),
        decreases n + 1 - d,
    {
        proof {
            lemma_divisor_sums_bound(n as int, d as int);
            assert(d * d <= 1000000) by (nonlinear_arith)
                requires
                    d <= 1000,
                    d >= 1,
            ;
        }
        if n % d == 0 {
            sum = sum + d;
        }
        d = d + 1;
    }
    sum
}

/// τ(n) for `0 < n < 1000`, counting the divisors in `1..=n`.
pub fn tau_exec(n: i64) -> (r: i64)
    requires
        0 < n < 1000,
    ensures
        r == tau(n as int),
{
    let mut count: i64 = 0;
    let mut d: i64 = 1;
    while d <= n
        invariant
            1 <= d <= n + 1,
            0 < n < 1000,
            count == divisor_count_upto(n as int, d - 1),
        decreases n + 1 - d,
    {
        proof {
            lemma_divisor_sums_bound(n as int, d as int);
        }
        if n % d == 0 {
            count = count + 1;
        }
        d = d + 1;
    }
    count
}

} // verus!
