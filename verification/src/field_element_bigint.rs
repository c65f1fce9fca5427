//! The fixed-width field-element representation.
//!
//! Residue and order are 256-bit unsigned integers, held as four 64-bit
//! limbs from least to most significant, so that the pair is a plain value
//! the contracts can speak about. The arithmetic itself is done by
//! crypto-bigint's runtime Montgomery form, which reduces as part of every
//! step and therefore never overflows the fixed width, even when a raw
//! product would exceed 256 bits. Montgomery form is defined for an odd
//! modulus only; crypto-bigint refuses an even one, so the operations that
//! go through it require the order to be odd.
//!
//! In contrast to the generic representation, the constructor here reduces
//! its input modulo the order unconditionally instead of refusing
//! out-of-range values — the two construction policies deliberately differ,
//! and each is stated in its contract.
use vstd::prelude::*;

verus! {

use crypto_bigint::CheckedSub;
use vstd::arithmetic::power::pow;
use vstd::arithmetic::div_mod::lemma_mul_mod_noop_right;
use crate::FieldError;
use crate::math::{field_add, field_sub, field_mul, field_div, field_pow_plain};

/// The number a limb sequence stands for: limbs are base-2^64 digits from
/// least to most significant.
pub open spec fn limbs_val(s: Seq<u64>) -> nat
    decreases s.len(),
{
    if s.len() == 0 {
        0
    } else {
        s[0] as nat + 0x10000000000000000 * limbs_val(s.subrange(1, s.len() as int))
    }
}

/// Unfolds `limbs_val` for the four-limb sequences this module works with.
pub proof fn lemma_limbs_val4(s: Seq<u64>)
    requires
        s.len() == 4,
    ensures
        limbs_val(s) == s[0] as nat + 0x10000000000000000 * (s[1] as nat + 0x10000000000000000
            * (s[2] as nat + 0x10000000000000000 * (s[3] as nat))),
{
    let s1 = s.subrange(1, 4);
    let s2 = s1.subrange(1, 3);
    let s3 = s2.subrange(1, 2);
    let s4 = s3.subrange(1, 1);
    assert(s4.len() == 0);
    assert(limbs_val(s4) == 0);
    assert(limbs_val(s3) == s3[0] as nat + 0x10000000000000000 * limbs_val(s4));
    assert(limbs_val(s2) == s2[0] as nat + 0x10000000000000000 * limbs_val(s3));
    assert(limbs_val(s1) == s1[0] as nat + 0x10000000000000000 * limbs_val(s2));
    assert(limbs_val(s) == s[0] as nat + 0x10000000000000000 * limbs_val(s1));
}

/// Builds the four-limb form of a small value.
fn limbs_from_u64(x: u64) -> (r: Vec<u64>)
    ensures
        r@.len() == 4,
        limbs_val(r@) == x,
{
    let mut v: Vec<u64> = Vec::new();
    v.push(x);
    v.push(0);
    v.push(0);
    v.push(0);
    proof {
        lemma_limbs_val4(v@);
    }
    v
}

/// Limb-for-limb equality of two four-limb values.
fn limbs_eq(a: &Vec<u64>, b: &Vec<u64>) -> (r: bool)
    requires
        a@.len() == 4,
        b@.len() == 4,
    ensures
        r <==> a@ == b@,
{
    let r = a[0] == b[0] && a[1] == b[1] && a[2] == b[2] && a[3] == b[3];
    proof {
        if r {
            assert(a@ =~= b@);
        }
    }
    r
}

/// Relies on crypto-bigint's `Uint::rem` with a `NonZero` modulus: the exact
/// remainder of a 256-bit value by a nonzero modulus.
#[verifier::external_body]
fn uint_rem(n: &Vec<u64>, m: &Vec<u64>) -> (r: Vec<u64>)
    requires
        n@.len() == 4,
        m@.len() == 4,
        limbs_val(m@) > 0,
    ensures
        r@.len() == 4,
        limbs_val(r@) == limbs_val(n@) % limbs_val(m@),
{
    let a = crypto_bigint::U256::from_words([n[0], n[1], n[2], n[3]]);
    let b = crypto_bigint::NonZero::new(crypto_bigint::U256::from_words([m[0], m[1], m[2], m[3]]))
        .unwrap();
    a.rem(&b).to_words().to_vec()
}

/// Relies on crypto-bigint's `CheckedSub` for `Uint`: the difference when no
/// borrow occurs, and nothing when the subtrahend exceeds the minuend.
#[verifier::external_body]
fn uint_checked_sub(a: &Vec<u64>, b: &Vec<u64>) -> (r: Option<Vec<u64>>)
    requires
        a@.len() == 4,
        b@.len() == 4,
    ensures
        r is Some <==> limbs_val(a@) >= limbs_val(b@),
        r matches Some(d) ==> d@.len() == 4 && limbs_val(d@) == limbs_val(a@) - limbs_val(b@),
{
    let x = crypto_bigint::U256::from_words([a[0], a[1], a[2], a[3]]);
    let y = crypto_bigint::U256::from_words([b[0], b[1], b[2], b[3]]);
    let d: Option<crypto_bigint::U256> = x.checked_sub(&y).into();
    match d {
        Some(u) => Some(u.to_words().to_vec()),
        None => None,
    }
}

/// Relies on crypto-bigint's `DynResidue` addition: for an odd modulus above
/// one, converting both operands into Montgomery form, adding, and
/// retrieving yields `(a + b) mod m`.
#[verifier::external_body]
fn residue_add(a: &Vec<u64>, b: &Vec<u64>, m: &Vec<u64>) -> (r: Vec<u64>)
    requires
        a@.len() == 4,
        b@.len() == 4,
        m@.len() == 4,
        limbs_val(m@) % 2 == 1,
        limbs_val(m@) > 1,
    ensures
        r@.len() == 4,
        limbs_val(r@) == (limbs_val(a@) + limbs_val(b@)) % limbs_val(m@),
{
    let params = crypto_bigint::modular::runtime_mod::DynResidueParams::new(
        &crypto_bigint::U256::from_words([m[0], m[1], m[2], m[3]]),
    );
    let ra = crypto_bigint::modular::runtime_mod::DynResidue::new(
        &crypto_bigint::U256::from_words([a[0], a[1], a[2], a[3]]),
        params,
    );
    let rb = crypto_bigint::modular::runtime_mod::DynResidue::new(
        &crypto_bigint::U256::from_words([b[0], b[1], b[2], b[3]]),
        params,
    );
    ra.add(&rb).retrieve().to_words().to_vec()
}

/// Relies on crypto-bigint's `DynResidue` subtraction: for an odd modulus
/// above one, the retrieved difference is `(a - b) mod m`, in `[0, m)`.
#[verifier::external_body]
fn residue_sub(a: &Vec<u64>, b: &Vec<u64>, m: &Vec<u64>) -> (r: Vec<u64>)
    requires
        a@.len() == 4,
        b@.len() == 4,
        m@.len() == 4,
        limbs_val(m@) % 2 == 1,
        limbs_val(m@) > 1,
    ensures
        r@.len() == 4,
        limbs_val(r@) == (limbs_val(a@) as int - limbs_val(b@) as int) % (limbs_val(m@) as int),
{
    let params = crypto_bigint::modular::runtime_mod::DynResidueParams::new(
        &crypto_bigint::U256::from_words([m[0], m[1], m[2], m[3]]),
    );
    let ra = crypto_bigint::modular::runtime_mod::DynResidue::new(
        &crypto_bigint::U256::from_words([a[0], a[1], a[2], a[3]]),
        params,
    );
    let rb = crypto_bigint::modular::runtime_mod::DynResidue::new(
        &crypto_bigint::U256::from_words([b[0], b[1], b[2], b[3]]),
        params,
    );
    ra.sub(&rb).retrieve().to_words().to_vec()
}

/// Relies on crypto-bigint's `DynResidue` multiplication: for an odd modulus
/// above one, the retrieved Montgomery product is `(a * b) mod m`.
#[verifier::external_body]
fn residue_mul(a: &Vec<u64>, b: &Vec<u64>, m: &Vec<u64>) -> (r: Vec<u64>)
    requires
        a@.len() == 4,
        b@.len() == 4,
        m@.len() == 4,
        limbs_val(m@) % 2 == 1,
        limbs_val(m@) > 1,
    ensures
        r@.len() == 4,
        limbs_val(r@) == (limbs_val(a@) * limbs_val(b@)) % limbs_val(m@),
{
    let params = crypto_bigint::modular::runtime_mod::DynResidueParams::new(
        &crypto_bigint::U256::from_words([m[0], m[1], m[2], m[3]]),
    );
    let ra = crypto_bigint::modular::runtime_mod::DynResidue::new(
        &crypto_bigint::U256::from_words([a[0], a[1], a[2], a[3]]),
        params,
    );
    let rb = crypto_bigint::modular::runtime_mod::DynResidue::new(
        &crypto_bigint::U256::from_words([b[0], b[1], b[2], b[3]]),
        params,
    );
    ra.mul(&rb).retrieve().to_words().to_vec()
}

/// Relies on crypto-bigint's `DynResidue::pow`: square-and-multiply over the
/// whole 256-bit exponent in Montgomery form, yielding `a^e mod m` for an
/// odd modulus above one.
#[verifier::external_body]
fn residue_pow(a: &Vec<u64>, e: &Vec<u64>, m: &Vec<u64>) -> (r: Vec<u64>)
    requires
        a@.len() == 4,
        e@.len() == 4,
        m@.len() == 4,
        limbs_val(m@) % 2 == 1,
        limbs_val(m@) > 1,
    ensures
        r@.len() == 4,
        limbs_val(r@) == pow(limbs_val(a@) as int, limbs_val(e@)) % (limbs_val(m@) as int),
{
    let params = crypto_bigint::modular::runtime_mod::DynResidueParams::new(
        &crypto_bigint::U256::from_words([m[0], m[1], m[2], m[3]]),
    );
    let ra = crypto_bigint::modular::runtime_mod::DynResidue::new(
        &crypto_bigint::U256::from_words([a[0], a[1], a[2], a[3]]),
        params,
    );
    let ex = crypto_bigint::U256::from_words([e[0], e[1], e[2], e[3]]);
    ra.pow(&ex).retrieve().to_words().to_vec()
}

#[derive(Debug, Clone, PartialEq, Eq)]
pub struct FieldElement {
    pub n: Vec<u64>,
    pub order: Vec<u64>,
}

impl FieldElement {
    /// The residue as a mathematical integer.
    pub open spec fn nval(self) -> nat {
        limbs_val(self.n@)
    }

    /// The order as a mathematical integer.
    pub open spec fn oval(self) -> nat {
        limbs_val(self.order@)
    }

    /// A well-formed element holds four limbs apiece and keeps its residue
    /// inside `[0, order)`.
    pub open spec fn wf(self) -> bool {
        self.n@.len() == 4 && self.order@.len() == 4 && self.nval() < self.oval()
    }

    /// Reducing construction: the residue is taken modulo the order
    /// unconditionally, so any input yields a well-formed element.
    pub fn new(n: Vec<u64>, order: Vec<u64>) -> (r: Self)
        requires
            n@.len() == 4,
            order@.len() == 4,
            limbs_val(order@) > 0,
        ensures
            r.wf(),
            r.order@ == order@,
            r.nval() == limbs_val(n@) % limbs_val(order@),
    {
        let reduced = uint_rem(&n, &order);
        FieldElement { n: reduced, order }
    }

    /// The residue's limbs, least significant first.
    pub fn get_num(&self) -> (r: Vec<u64>)
        ensures
            r@ == self.n@,
    {
        self.n.clone()
    }

    /// Sum of two elements of one field: `(a.n + b.n) mod order`, reduced
    /// inside Montgomery form, so no intermediate value outgrows the width.
    pub fn add(&self, rhs: &Self) -> (r: Result<Self, FieldError>)
        requires
            self.wf(),
            rhs.wf(),
            self.order@ == rhs.order@ ==> self.oval() % 2 == 1 && self.oval() > 1,
        ensures
            self.order@ != rhs.order@ ==> r == Err::<Self, FieldError>(
                FieldError::ModulusMismatch,
            ),
            self.order@ == rhs.order@ ==> (r matches Ok(e) && e.order@ == self.order@ && e.wf()
                && e.nval() == field_add(self.nval() as int, rhs.nval() as int,
                    self.oval() as int)),
    {
        if !limbs_eq(&self.order, &rhs.order) {
            return Err(FieldError::ModulusMismatch);
        }
        let n = residue_add(&self.n, &rhs.n, &self.order);
        Ok(FieldElement { n, order: self.order.clone() })
    }

    /// Difference of two elements of one field: `(a.n - b.n) mod order`,
    /// already in the non-negative residue range when it comes back from the
    /// residue form.
    pub fn sub(&self, rhs: &Self) -> (r: Result<Self, FieldError>)
        requires
            self.wf(),
            rhs.wf(),
            self.order@ == rhs.order@ ==> self.oval() % 2 == 1 && self.oval() > 1,
        ensures
            self.order@ != rhs.order@ ==> r == Err::<Self, FieldError>(
                FieldError::ModulusMismatch,
            ),
            self.order@ == rhs.order@ ==> (r matches Ok(e) && e.order@ == self.order@ && e.wf()
                && e.nval() == field_sub(self.nval() as int, rhs.nval() as int,
                    self.oval() as int)),
    {
        if !limbs_eq(&self.order, &rhs.order) {
            return Err(FieldError::ModulusMismatch);
        }
        let n = residue_sub(&self.n, &rhs.n, &self.order);
        Ok(FieldElement { n, order: self.order.clone() })
    }

    /// Product of two elements of one field: `(a.n * b.n) mod order`. The
    /// Montgomery form reduces while multiplying, so the full 256-bit range
    /// of the order is usable without overflow.
    pub fn mul(&self, rhs: &Self) -> (r: Result<Self, FieldError>)
        requires
            self.wf(),
            rhs.wf(),
            self.order@ == rhs.order@ ==> self.oval() % 2 == 1 && self.oval() > 1,
        ensures
            self.order@ != rhs.order@ ==> r == Err::<Self, FieldError>(
                FieldError::ModulusMismatch,
            ),
            self.order@ == rhs.order@ ==> (r matches Ok(e) && e.order@ == self.order@ && e.wf()
                && e.nval() == field_mul(self.nval() as int, rhs.nval() as int,
                    self.oval() as int)),
    {
        if !limbs_eq(&self.order, &rhs.order) {
            return Err(FieldError::ModulusMismatch);
        }
        let n = residue_mul(&self.n, &rhs.n, &self.order);
        Ok(FieldElement { n, order: self.order.clone() })
    }

    /// Raises the element to an unsigned 256-bit exponent, taken as given:
    /// this representation does not normalize exponents, and it has no
    /// negative exponents to map into the positive range.
    pub fn pow(&self, exp: &Vec<u64>) -> (r: Self)
        requires
            self.wf(),
            exp@.len() == 4,
            self.oval() % 2 == 1,
            self.oval() > 1,
        ensures
            r.order@ == self.order@,
            r.wf(),
            r.nval() == field_pow_plain(self.nval() as int, limbs_val(exp@), self.oval() as int),
    {
        let n = residue_pow(&self.n, exp, &self.order);
        FieldElement { n, order: self.order.clone() }
    }

    /// Quotient of two elements of one field by the Fermat inverse:
    /// `(a.n * b.n^(order - 2)) mod order`, the same identity as in the
    /// generic representation, expressed through the residue form. An order
    /// below two leaves nothing to subtract from and is refused. The result
    /// is the true field quotient only for a prime order, which the engine
    /// does not verify; a zero divisor is not refused here and simply yields
    /// the stated formula's value.
    pub fn div(&self, rhs: &Self) -> (r: Result<Self, FieldError>)
        requires
            self.wf(),
            rhs.wf(),
            self.order@ == rhs.order@ ==> self.oval() % 2 == 1,
        ensures
            self.order@ != rhs.order@ ==> r == Err::<Self, FieldError>(
                FieldError::ModulusMismatch,
            ),
            self.order@ == rhs.order@ && self.oval() < 2 ==> r == Err::<Self, FieldError>(
                FieldError::UnderflowInModulusArithmetic,
            ),
            self.order@ == rhs.order@ && self.oval() >= 2 ==> (r matches Ok(e)
                && e.order@ == self.order@ && e.wf()
                && e.nval() == field_div(self.nval() as int, rhs.nval() as int,
                    self.oval() as int)),
    {
        if !limbs_eq(&self.order, &rhs.order) {
            return Err(FieldError::ModulusMismatch);
        }
        let two = limbs_from_u64(2);
        let p_sub_2 = uint_checked_sub(&self.order, &two);
        match p_sub_2 {
            None => Err(FieldError::UnderflowInModulusArithmetic),
            Some(exponent) => {
                let f = residue_pow(&rhs.n, &exponent, &self.order);
                let n = residue_mul(&self.n, &f, &self.order);
                proof {
                    lemma_mul_mod_noop_right(self.nval() as int,
                        pow(rhs.nval() as int, (self.oval() - 2) as nat), self.oval() as int);
                }
                Ok(FieldElement { n, order: self.order.clone() })
            },
        }
    }
}

} // verus!
