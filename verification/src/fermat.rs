//! Fermat's little theorem, and the field laws that rest on it.
//!
//! Division and negative exponents in this library are defined through the
//! Fermat inverse `b^(p - 2) mod p`, which is a true inverse only because
//! `b^(p - 1) ≡ 1 (mod p)` for prime `p` and `b` not divisible by `p`. This
//! module proves that theorem — via Bézout's identity, Euclid's lemma, and
//! the rearrangement argument over the product of the nonzero residues — and
//! derives from it the inverse, round-trip, and negative-exponent laws of
//! the field operations.
use vstd::prelude::*;

verus! {

use vstd::arithmetic::power::{
    pow, lemma_pow0, lemma_pow_positive, lemma_pow_adds, lemma_pow_multiplies,
    lemma_pow_mod_noop, lemma1_pow,
};
use vstd::arithmetic::div_mod::{
    lemma_small_mod, lemma_mod_self_0, lemma_fundamental_div_mod, lemma_mod_multiples_basic,
    lemma_mod_multiples_vanish, lemma_mul_mod_noop_left, lemma_mul_mod_noop_right,
    lemma_sub_mod_noop,
};
use vstd::multiset::Multiset;
use crate::math::{is_prime, field_mul, field_div, field_pow, field_pow_plain};

/// The greatest common divisor, by Euclid's algorithm.
pub open spec fn gcd(a: nat, b: nat) -> nat
    decreases b,
{
    if b == 0 {
        a
    } else {
        gcd(b, a % b)
    }
}

/// The greatest common divisor divides both of its arguments.
proof fn lemma_gcd_divides(a: nat, b: nat)
    requires
        a > 0,
    ensures
        gcd(a, b) >= 1,
        a % gcd(a, b) == 0,
        b % gcd(a, b) == 0,
    decreases b,
{
    let g = gcd(a, b);
    if b == 0 {
        lemma_mod_self_0(a as int);
        lemma_small_mod(0, a);
    } else {
        lemma_gcd_divides(b, a % b);
        assert(g == gcd(b, a % b));
        assert(b % g == 0 && (a % b) % g == 0 && g >= 1);
        lemma_fundamental_div_mod(a as int, b as int);
        lemma_fundamental_div_mod(b as int, g as int);
        lemma_fundamental_div_mod((a % b) as int, g as int);
        let k1 = b as int / g as int;
        let k2 = (a % b) as int / g as int;
        let q = a as int / b as int;
        assert(a as int == (g as int) * (k1 * q + k2)) by (nonlinear_arith)
            requires
                a as int == (b as int) * q + (a % b) as int,
                b as int == (g as int) * k1,
                (a % b) as int == (g as int) * k2;
        lemma_mod_multiples_basic(k1 * q + k2, g as int);
    }
}

/// Bézout's identity: some integer combination of `a` and `b` yields their
/// greatest common divisor.
proof fn lemma_bezout(a: nat, b: nat) -> (r: (int, int))
    ensures
        a * r.0 + b * r.1 == gcd(a, b),
    decreases b,
{
    if b == 0 {
        assert(a * 1int + b * 0int == a) by (nonlinear_arith);
        (1int, 0int)
    } else {
        let (x, y) = lemma_bezout(b, a % b);
        assert(b * x + (a % b) * y == gcd(a, b));
        lemma_fundamental_div_mod(a as int, b as int);
        let q = a as int / b as int;
        assert(a * y + b * (x - q * y) == b * x + (a - b * q) * y) by (nonlinear_arith);
        assert((a % b) as int == a - b * q);
        (y, x - q * y)
    }
}

/// For a prime `p`, any smaller positive number is coprime to it.
proof fn lemma_gcd_prime(a: nat, p: nat)
    requires
        is_prime(p as int),
        1 <= a < p,
    ensures
        gcd(a, p) == 1,
{
    let g = gcd(a, p);
    lemma_gcd_divides(a, p);
    if g >= 2 {
        lemma_fundamental_div_mod(a as int, g as int);
        let k = a as int / g as int;
        assert(a as int == g as int * k);
        assert(k >= 1) by (nonlinear_arith)
            requires
                a as int == g as int * k,
                a >= 1,
                g >= 1;
        assert(g <= a) by (nonlinear_arith)
            requires
                a as int == g as int * k,
                k >= 1,
                g >= 0;
        assert(2 <= g < p);
        assert(p as int % g as int != 0);
        assert(false);
    }
}

/// Euclid's lemma: a prime dividing a product of non-negative numbers
/// divides one of the factors.
proof fn lemma_euclid(x: int, y: int, p: int)
    requires
        is_prime(p),
        0 <= x,
        0 <= y,
        (x * y) % p == 0,
        x % p != 0,
    ensures
        y % p == 0,
{
    let xr = x % p;
    assert(1 <= xr < p);
    lemma_gcd_prime(xr as nat, p as nat);
    let (bx, by) = lemma_bezout(xr as nat, p as nat);
    assert(xr * bx + p * by == 1);
    // y == (xr * y) * bx + p * (y * by)
    assert(y == (xr * y) * bx + p * (y * by)) by (nonlinear_arith)
        requires
            xr * bx + p * by == 1;
    // (xr * y) % p == (x * y) % p == 0, so xr * y is an exact multiple of p.
    lemma_mul_mod_noop_left(x, y, p);
    assert((xr * y) % p == 0);
    lemma_fundamental_div_mod(xr * y, p);
    let k = (xr * y) / p;
    assert(xr * y == p * k);
    assert((xr * y) * bx == p * (k * bx)) by (nonlinear_arith)
        requires
            xr * y == p * k;
    assert(y == p * (k * bx + y * by)) by (nonlinear_arith)
        requires
            y == (xr * y) * bx + p * (y * by),
            (xr * y) * bx == p * (k * bx);
    lemma_mod_multiples_basic(k * bx + y * by, p);
}

/// Multiplication as a fold operator.
pub open spec fn mul_fn() -> spec_fn(int, int) -> int {
    |x: int, b: int| x * b
}

/// The product of a sequence of integers.
pub open spec fn prod(s: Seq<int>) -> int {
    s.fold_right(mul_fn(), 1)
}

/// The numbers `1, 2, ..., n`.
pub open spec fn unit_list(n: nat) -> Seq<int> {
    Seq::new(n, |i: int| i + 1)
}

/// The residues `(a*1) % p, (a*2) % p, ..., (a*n) % p`.
pub open spec fn residue_list(a: int, n: nat, p: int) -> Seq<int> {
    Seq::new(n, |i: int| (a * (i + 1)) % p)
}

/// Folding multiplication from any accumulator factors the accumulator out.
proof fn lemma_prod_acc(s: Seq<int>, b: int)
    ensures
        s.fold_right(mul_fn(), b) == prod(s) * b,
    decreases s.len(),
{
    if s.len() == 0 {
        assert(prod(s) == 1);
    } else {
        let dl = s.drop_last();
        let l = s.last();
        lemma_prod_acc(dl, mul_fn()(l, b));
        lemma_prod_acc(dl, mul_fn()(l, 1));
        assert(s.fold_right(mul_fn(), b) == prod(dl) * (l * b));
        assert(prod(s) == prod(dl) * (l * 1));
        assert((prod(dl) * (l * 1)) * b == prod(dl) * (l * b)) by (nonlinear_arith);
    }
}

/// The product of a nonempty sequence is the product of its front times its
/// last element.
proof fn lemma_prod_last(s: Seq<int>)
    requires
        s.len() > 0,
    ensures
        prod(s) == prod(s.drop_last()) * s.last(),
{
    lemma_prod_acc(s.drop_last(), mul_fn()(s.last(), 1));
    assert(mul_fn()(s.last(), 1) == s.last() * 1);
    assert(prod(s.drop_last()) * (s.last() * 1) == prod(s.drop_last()) * s.last())
        by (nonlinear_arith);
}

/// The product of the residue list is congruent to `a^n` times the product
/// of `1..n`.
proof fn lemma_residue_prod(a: int, n: nat, p: int)
    requires
        p >= 2,
    ensures
        prod(residue_list(a, n, p)) % p == (pow(a, n) * prod(unit_list(n))) % p,
    decreases n,
{
    if n == 0 {
        lemma_pow0(a);
        assert(residue_list(a, 0, p).len() == 0);
        assert(unit_list(0).len() == 0);
        assert(pow(a, 0) * prod(unit_list(0)) == 1) by (nonlinear_arith)
            requires
                pow(a, 0) == 1,
                prod(unit_list(0)) == 1;
    } else {
        let m = (n - 1) as nat;
        lemma_residue_prod(a, m, p);
        let rl = residue_list(a, n, p);
        let ul = unit_list(n);
        assert(rl.drop_last() =~= residue_list(a, m, p));
        assert(ul.drop_last() =~= unit_list(m));
        lemma_prod_last(rl);
        lemma_prod_last(ul);
        let pr = prod(residue_list(a, m, p));
        let pu = prod(unit_list(m));
        assert(rl.last() == (a * n) % p);
        assert(ul.last() == n);
        // (pr * ((a*n) % p)) % p == (pr * (a*n)) % p
        lemma_mul_mod_noop_right(pr, a * n, p);
        // == ((pr % p) * (a*n)) % p, and pr % p == (pow(a,m) * pu) % p
        lemma_mul_mod_noop_left(pr, a * n, p);
        lemma_mul_mod_noop_left(pow(a, m) * pu, a * n, p);
        assert(prod(rl) % p == ((pow(a, m) * pu) * (a * n)) % p);
        assert((pow(a, m) * pu) * (a * n) == (a * pow(a, m)) * (pu * n)) by (nonlinear_arith);
        lemma_pow_adds(a, 1, m);
        vstd::arithmetic::power::lemma_pow1(a);
        assert(pow(a, n) == a * pow(a, m));
        assert(prod(ul) == pu * n);
    }
}

/// A product of two numbers that are each nonzero modulo a prime is itself
/// nonzero modulo that prime.
proof fn lemma_unit_prod_nonzero(n: nat, p: int)
    requires
        is_prime(p),
        n < p,
    ensures
        prod(unit_list(n)) >= 1,
        prod(unit_list(n)) % p != 0,
    decreases n,
{
    if n == 0 {
        lemma_small_mod(1, p as nat);
    } else {
        let m = (n - 1) as nat;
        lemma_unit_prod_nonzero(m, p);
        let pu = prod(unit_list(m));
        assert(unit_list(n).drop_last() =~= unit_list(m));
        lemma_prod_last(unit_list(n));
        assert(unit_list(n).last() == n);
        assert(prod(unit_list(n)) == pu * n);
        assert(pu * n >= 1) by (nonlinear_arith)
            requires
                pu >= 1,
                n >= 1;
        lemma_small_mod(n, p as nat);
        if (pu * n) % p == 0 {
            lemma_euclid(pu, n as int, p);
            assert(false);
        }
    }
}

/// Each residue `(a * i) % p` with `1 <= i < p` is nonzero for a prime `p`
/// and `a` in `[1, p)`.
proof fn lemma_residue_nonzero(a: int, i: int, p: int)
    requires
        is_prime(p),
        1 <= a < p,
        1 <= i < p,
    ensures
        1 <= (a * i) % p < p,
{
    assert(a * i >= 0) by (nonlinear_arith)
        requires
            a >= 1,
            i >= 1;
    if (a * i) % p == 0 {
        lemma_small_mod(a as nat, p as nat);
        lemma_euclid(a, i, p);
        lemma_small_mod(i as nat, p as nat);
        assert(false);
    }
}

/// A multiset dominated pointwise by another of the same size equals it:
/// the pigeonhole step of the rearrangement argument.
proof fn lemma_multiset_le_eq(m1: Multiset<int>, m2: Multiset<int>)
    requires
        forall|x: int| #[trigger] m1.count(x) <= m2.count(x),
        m1.len() == m2.len(),
    ensures
        m1 == m2,
{
    broadcast use vstd::multiset::group_multiset_axioms;

    let d = m2.sub(m1);
    assert(m2 =~= m1.add(d));
    assert(m2.len() == m1.len() + d.len());
    vstd::multiset::lemma_multiset_empty_len::<int>(d);
    assert(d =~= Multiset::empty());
    assert(m1 =~= m2);
}

/// Multiplication commutes as a fold operator.
proof fn lemma_mul_commutative_foldr()
    ensures
        vstd::seq_lib::commutative_foldr(mul_fn()),
{
    assert forall|x: int, y: int, v: int| #[trigger] mul_fn()(x, mul_fn()(y, v)) == mul_fn()(
        y,
        mul_fn()(x, v),
    ) by {
        assert(x * (y * v) == y * (x * v)) by (nonlinear_arith);
    }
}

/// Multiplying the nonzero residues `1..p-1` by a fixed nonzero `a` only
/// rearranges them, so the product is unchanged.
proof fn lemma_residue_permutation(a: int, p: int)
    requires
        is_prime(p),
        1 <= a < p,
    ensures
        prod(residue_list(a, (p - 1) as nat, p)) == prod(unit_list((p - 1) as nat)),
{
    broadcast use vstd::seq_lib::group_to_multiset_ensures;

    let n = (p - 1) as nat;
    let rl = residue_list(a, n, p);
    let ul = unit_list(n);
    assert forall|k: int| 0 <= k < n implies 1 <= #[trigger] rl[k] < p by {
        lemma_residue_nonzero(a, k + 1, p);
    }
    assert forall|i: int, j: int|
        (0 <= i < rl.len() && 0 <= j < rl.len() && i != j) implies rl[i] != rl[j] by {
        if rl[i] == rl[j] {
            let x = if i < j {
                i + 1
            } else {
                j + 1
            };
            let y = if i < j {
                j + 1
            } else {
                i + 1
            };
            assert((a * x) % p == (a * y) % p);
            lemma_sub_mod_noop(a * y, a * x, p);
            lemma_small_mod(0, p as nat);
            assert((a * y - a * x) % p == 0);
            assert(a * y - a * x == a * (y - x)) by (nonlinear_arith);
            lemma_small_mod(a as nat, p as nat);
            lemma_euclid(a, y - x, p);
            lemma_small_mod((y - x) as nat, p as nat);
            assert(false);
        }
    }
    assert(rl.no_duplicates());
    assert(ul.no_duplicates());
    rl.lemma_multiset_has_no_duplicates();
    ul.lemma_multiset_has_no_duplicates();
    let m1 = rl.to_multiset();
    let m2 = ul.to_multiset();
    assert forall|x: int| #[trigger] m1.count(x) <= m2.count(x) by {
        if m1.count(x) > 0 {
            assert(rl.contains(x));
            let k = choose|k: int| 0 <= k < rl.len() && rl[k] == x;
            assert(1 <= x < p);
            assert(ul[x - 1] == x);
            assert(ul.contains(x));
            assert(m2.count(x) == 1);
            assert(m1.count(x) == 1);
        }
    }
    assert(m1.len() == n && m2.len() == n);
    lemma_multiset_le_eq(m1, m2);
    lemma_mul_commutative_foldr();
    vstd::seq_lib::lemma_fold_right_permutation(rl, ul, mul_fn(), 1);
}

/// Fermat's little theorem: for a prime `p` and `a` in `[1, p)`,
/// `a^(p-1) mod p == 1`.
pub proof fn lemma_fermat_little_theorem(a: int, p: int)
    requires
        is_prime(p),
        1 <= a < p,
    ensures
        pow(a, (p - 1) as nat) % p == 1,
{
    let n = (p - 1) as nat;
    lemma_residue_permutation(a, p);
    lemma_residue_prod(a, n, p);
    let u = prod(unit_list(n));
    let x = pow(a, n);
    assert(u % p == (x * u) % p);
    lemma_unit_prod_nonzero(n, p);
    lemma_sub_mod_noop(x * u, u, p);
    lemma_small_mod(0, p as nat);
    assert((x * u - u) % p == 0);
    lemma_pow_positive(a, n);
    assert(x * u - u == u * (x - 1)) by (nonlinear_arith);
    lemma_euclid(u, x - 1, p);
    lemma_fundamental_div_mod(x - 1, p);
    let q = (x - 1) / p;
    assert(x == p * q + 1);
    lemma_mod_multiples_vanish(q, 1, p);
    lemma_small_mod(1, p as nat);
}

/// For a nonzero residue of a prime field, exponents matter only modulo
/// `p - 1`.
proof fn lemma_pow_mod_reduce(a: int, e: nat, p: int)
    requires
        is_prime(p),
        1 <= a < p,
    ensures
        pow(a, e) % p == pow(a, ((e as int) % (p - 1)) as nat) % p,
{
    let p1 = p - 1;
    lemma_fundamental_div_mod(e as int, p1);
    let q = (e as int) / p1;
    let r = (e as int) % p1;
    assert(e as int == p1 * q + r);
    assert(q >= 0) by (nonlinear_arith)
        requires
            e as int == p1 * q + r,
            e >= 0,
            0 <= r < p1;
    lemma_pow_adds(a, r as nat, (p1 * q) as nat);
    assert(pow(a, e) == pow(a, r as nat) * pow(a, (p1 * q) as nat));
    lemma_pow_multiplies(a, p1 as nat, q as nat);
    assert(pow(a, (p1 * q) as nat) == pow(pow(a, p1 as nat), q as nat));
    lemma_pow_mod_noop(pow(a, p1 as nat), q as nat, p);
    lemma_fermat_little_theorem(a, p);
    lemma1_pow(q as nat);
    lemma_small_mod(1, p as nat);
    assert(pow(a, (p1 * q) as nat) % p == 1);
    lemma_mul_mod_noop_right(pow(a, r as nat), pow(a, (p1 * q) as nat), p);
}

/// Cross-representation agreement for exponentiation at a prime order: on
/// a nonzero residue, the generic engine's exponent normalization modulo
/// `p - 1` never changes the result, whatever the exponent, so the two
/// representations agree on every power.
pub proof fn lemma_cross_representation_pow_prime(a: int, e: nat, p: int)
    requires
        is_prime(p),
        1 <= a < p,
    ensures
        field_pow(a, e as int, p) == field_pow_plain(a, e, p),
{
    lemma_pow_mod_reduce(a, e, p);
}

/// Multiplicative inverse: for a prime order and a nonzero residue `a`,
/// the quotient of the unit by `a` multiplies with `a` back to the unit.
pub proof fn lemma_multiplicative_inverse(a: int, p: int)
    requires
        is_prime(p),
        1 <= a < p,
    ensures
        field_mul(a, field_div(1, a, p), p) == 1,
{
    let e = (p - 2) as nat;
    assert(field_div(1, a, p) == pow(a, e) % p);
    lemma_mul_mod_noop_right(a, pow(a, e), p);
    lemma_pow_adds(a, 1, e);
    vstd::arithmetic::power::lemma_pow1(a);
    assert(a * pow(a, e) == pow(a, (p - 1) as nat));
    lemma_fermat_little_theorem(a, p);
}

/// Division round trip: dividing by a nonzero residue of a prime field and
/// multiplying by it again returns the dividend.
pub proof fn lemma_division_round_trip(a: int, b: int, p: int)
    requires
        is_prime(p),
        0 <= a < p,
        1 <= b < p,
    ensures
        field_mul(field_div(a, b, p), b, p) == a,
{
    let e = (p - 2) as nat;
    lemma_mul_mod_noop_left(a * pow(b, e), b, p);
    lemma_pow_adds(b, e, 1);
    vstd::arithmetic::power::lemma_pow1(b);
    assert((a * pow(b, e)) * b == a * pow(b, (p - 1) as nat)) by (nonlinear_arith)
        requires
            pow(b, e) * pow(b, 1) == pow(b, (p - 1) as nat),
            pow(b, 1) == b;
    lemma_mul_mod_noop_right(a, pow(b, (p - 1) as nat), p);
    lemma_fermat_little_theorem(b, p);
    lemma_small_mod(a as nat, p as nat);
}

/// Negative exponents: raising a nonzero residue of a prime field to `-k`
/// is the same as dividing the unit by its `k`-th power.
pub proof fn lemma_negative_exponent(a: int, k: int, p: int)
    requires
        is_prime(p),
        1 <= a < p,
        0 <= k,
    ensures
        field_pow(a, -k, p) == field_div(1, field_pow(a, k, p), p),
{
    let p1 = p - 1;
    let rk = k % p1;
    let r1 = (-k) % p1;
    let xk = pow(a, rk as nat) % p;
    assert(field_pow(a, k, p) == xk);
    // field_div(1, xk, p) is xk^(p-2) mod p, which reduces to a power of a.
    assert(field_div(1, xk, p) == pow(xk, (p - 2) as nat) % p);
    lemma_pow_mod_noop(pow(a, rk as nat), (p - 2) as nat, p);
    lemma_pow_multiplies(a, rk as nat, (p - 2) as nat);
    assert(field_div(1, xk, p) == pow(a, (rk * (p - 2)) as nat) % p);
    lemma_pow_mod_reduce(a, (rk * (p - 2)) as nat, p);
    // The exponent rk * (p - 2) is congruent to -k modulo p - 1.
    assert(rk * (p - 2) == p1 * rk + (-rk)) by (nonlinear_arith)
        requires
            p1 == p - 1;
    lemma_mod_multiples_vanish(rk, -rk, p1);
    lemma_fundamental_div_mod(k, p1);
    let qk = k / p1;
    assert(-k == p1 * (-qk) + (-rk)) by (nonlinear_arith)
        requires
            k == p1 * qk + rk;
    lemma_mod_multiples_vanish(-qk, -rk, p1);
    assert(((rk * (p - 2)) as int) % p1 == r1);
    assert(field_pow(a, -k, p) == pow(a, r1 as nat) % p);
}

} // verus!
