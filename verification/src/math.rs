//! The mathematical model of finite-field arithmetic.
//!
//! Every operation of both field-element representations (the generic one and
//! the fixed-width one) is specified against the functions of this module, so
//! that agreement between the two representations is visible in the contracts
//! themselves: for a given `(residue, order, operation, operand)` both engines
//! promise the very same model value.
use vstd::prelude::*;

verus! {

use vstd::arithmetic::power::pow;
use vstd::arithmetic::div_mod::{
    lemma_small_mod, lemma_mod_self_0, lemma_mod_multiples_vanish,
};

/// Residue of the sum: `(a + b) mod p`.
pub open spec fn field_add(a: int, b: int, p: int) -> int {
    (a + b) % p
}

/// Residue of the difference: `(a - b) mod p`, always in `[0, p)` for `p > 0`
/// (spec-mode `%` is Euclidean).
pub open spec fn field_sub(a: int, b: int, p: int) -> int {
    (a - b) % p
}

/// Residue of the product: `(a * b) mod p`.
pub open spec fn field_mul(a: int, b: int, p: int) -> int {
    (a * b) % p
}

/// What division computes: `a` times the Fermat inverse of `b`, that is
/// `(a * b^(p - 2)) mod p`. For prime `p` and `b` not divisible by `p` this
/// is the field quotient `a / b`; the engines compute this formula for any
/// order, and primality is the caller's responsibility.
pub open spec fn field_div(a: int, b: int, p: int) -> int {
    (a * pow(b, (p - 2) as nat)) % p
}

/// What exponentiation with a normalized exponent computes: the exponent is
/// first reduced into `[0, p - 2]` modulo `p - 1` (meaningful by Fermat's
/// little theorem when `p` is prime), then `a^e mod p` is taken.
pub open spec fn field_pow(a: int, e: int, p: int) -> int {
    pow(a, (e % (p - 1)) as nat) % p
}

/// What exponentiation without normalization computes: plain `a^e mod p`.
/// The fixed-width representation uses the exponent as handed in.
pub open spec fn field_pow_plain(a: int, e: nat, p: int) -> int {
    pow(a, e) % p
}

/// `p` has no divisor besides 1 and itself.
pub open spec fn is_prime(p: int) -> bool {
    p >= 2 && forall|d: int| 2 <= d < p ==> #[trigger] (p % d) != 0
}

/// Closure: the sum and the product of two residues of a field of order `p`
/// are again residues of that field.
pub proof fn lemma_field_closure(a: int, b: int, p: int)
    requires
        0 <= a < p,
        0 <= b < p,
    ensures
        0 <= field_add(a, b, p) < p,
        0 <= field_mul(a, b, p) < p,
        0 <= field_sub(a, b, p) < p,
{
}

/// Additive identity: adding the zero residue changes nothing.
pub proof fn lemma_additive_identity(a: int, p: int)
    requires
        0 <= a < p,
    ensures
        field_add(a, 0, p) == a,
{
    lemma_small_mod(a as nat, p as nat);
}

/// Multiplicative identity: multiplying by the unit residue changes nothing.
pub proof fn lemma_multiplicative_identity(a: int, p: int)
    requires
        0 <= a < p,
    ensures
        field_mul(a, 1, p) == a,
{
    lemma_small_mod(a as nat, p as nat);
}

/// Additive inverse: subtracting `a` from the zero residue yields the value
/// that brings `a` back to zero. Both representations subtract by this model
/// function, so the law holds of the signed and the unsigned backing types
/// and of the fixed-width representation alike.
pub proof fn lemma_additive_inverse(a: int, p: int)
    requires
        0 <= a < p,
    ensures
        field_add(field_sub(0, a, p), a, p) == 0,
{
    if a == 0 {
        lemma_mod_self_0(p);
        lemma_small_mod(0, p as nat);
    } else {
        lemma_mod_multiples_vanish(1, -a, p);
        lemma_small_mod((p - a) as nat, p as nat);
        lemma_mod_self_0(p);
    }
}

/// Cross-representation agreement for exponentiation: as long as the exponent
/// already lies in the normalized range `[0, p - 2]`, the generic engine
/// (which reduces exponents modulo `p - 1`) and the fixed-width engine (which
/// uses the exponent as given) compute the same value. For exponents outside
/// that range the two agree only for prime orders and nonzero residues, by
/// Fermat's little theorem: see `lemma_cross_representation_pow_prime`.
pub proof fn lemma_cross_representation_pow(a: int, e: int, p: int)
    requires
        p >= 2,
        0 <= e < p - 1,
    ensures
        field_pow(a, e, p) == field_pow_plain(a, e as nat, p),
{
    lemma_small_mod(e as nat, (p - 1) as nat);
}

} // verus!
