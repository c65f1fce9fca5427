//! The generic field-element representation.
//!
//! A field element pairs a residue with the order of its field, both held in
//! one backing integer type of the numeric-ring interface. Every operation
//! returns a fresh element; nothing is mutated. Detected violations — a
//! mismatched order, an out-of-range residue handed to the constructor, a
//! zero divisor — are signalled through `Result` rather than by aborting.
//! Overflow is a caller responsibility, stated as a precondition: the engine
//! cannot detect generically that `order` is too large for the backing type.
//!
//! Division builds the multiplicative inverse by Fermat's little theorem,
//! `b^(order - 2) mod order`, so its result is the field quotient only when
//! the order is prime; the engine computes the stated formula for any order
//! and does not verify primality.
use vstd::prelude::*;

verus! {

use vstd::arithmetic::div_mod::{
    lemma_small_mod, lemma_mod_self_0, lemma_mod_multiples_vanish, lemma_mul_mod_noop_right,
    lemma_fundamental_div_mod,
};
use crate::FieldError;
use crate::numeric::FieldInt;
use crate::math::{field_add, field_sub, field_mul, field_div, field_pow};

#[derive(Debug, PartialEq, Eq, Clone, Copy)]
pub struct FieldElement<T> {
    pub n: T,
    pub order: T,
}

impl<T: FieldInt> FieldElement<T> {
    /// The residue as a mathematical integer.
    pub open spec fn nval(self) -> int {
        self.n.as_int()
    }

    /// The order as a mathematical integer.
    pub open spec fn oval(self) -> int {
        self.order.as_int()
    }

    /// A well-formed element keeps its residue inside `[0, order)`.
    pub open spec fn wf(self) -> bool {
        0 <= self.nval() < self.oval()
    }

    /// Strict construction: the residue must already lie in `[0, order)`;
    /// out-of-range input is refused, not normalized.
    pub fn new(n: T, order: T) -> (r: Result<Self, FieldError>)
        ensures
            0 <= n.as_int() < order.as_int() ==> r == Ok::<Self, FieldError>(
                FieldElement { n, order },
            ),
            !(0 <= n.as_int() < order.as_int()) ==> r == Err::<Self, FieldError>(
                FieldError::OutOfRangeConstruction,
            ),
    {
        let zero = T::zero_value();
        if !n.lt_value(zero) && n.lt_value(order) {
            Ok(FieldElement { n, order })
        } else {
            Err(FieldError::OutOfRangeConstruction)
        }
    }

    /// Sum of two elements of one field: `(a.n + b.n) mod order`. The caller
    /// keeps the raw sum representable in the backing type.
    pub fn add(self, rhs: Self) -> (r: Result<Self, FieldError>)
        requires
            self.wf(),
            rhs.wf(),
            self.nval() + rhs.nval() <= T::max_spec(),
        ensures
            self.oval() != rhs.oval() ==> r == Err::<Self, FieldError>(
                FieldError::ModulusMismatch,
            ),
            self.oval() == rhs.oval() ==> (r matches Ok(e) && e.order == self.order && e.wf()
                && e.nval() == field_add(self.nval(), rhs.nval(), self.oval())),
    {
        if !self.order.eq_value(rhs.order) {
            return Err(FieldError::ModulusMismatch);
        }
        let s = self.n.add_value(rhs.n);
        let n = s.rem_value(self.order);
        Ok(FieldElement { n, order: self.order })
    }

    /// Difference of two elements of one field: `(a.n - b.n) mod order`,
    /// kept inside the non-negative residue range without ever forming a
    /// negative intermediate value, so unsigned backing types never
    /// underflow.
    pub fn sub(self, rhs: Self) -> (r: Result<Self, FieldError>)
        requires
            self.wf(),
            rhs.wf(),
        ensures
            self.oval() != rhs.oval() ==> r == Err::<Self, FieldError>(
                FieldError::ModulusMismatch,
            ),
            self.oval() == rhs.oval() ==> (r matches Ok(e) && e.order == self.order && e.wf()
                && e.nval() == field_sub(self.nval(), rhs.nval(), self.oval())),
    {
        if !self.order.eq_value(rhs.order) {
            return Err(FieldError::ModulusMismatch);
        }
        proof {
            self.order.lemma_bounded();
            rhs.n.lemma_bounded();
        }
        let p = self.order;
        let n: T;
        if self.n.lt_value(rhs.n) {
            let t = rhs.n.sub_value(self.n);
            let t = t.rem_value(p);
            proof {
                lemma_small_mod((rhs.nval() - self.nval()) as nat, self.oval() as nat);
                lemma_mod_multiples_vanish(1, self.nval() - rhs.nval(), self.oval());
                lemma_small_mod((self.oval() + self.nval() - rhs.nval()) as nat,
                    self.oval() as nat);
            }
            n = p.sub_value(t);
        } else {
            let t = self.n.sub_value(rhs.n);
            proof {
                lemma_small_mod((self.nval() - rhs.nval()) as nat, self.oval() as nat);
            }
            n = t.rem_value(p);
        }
        Ok(FieldElement { n, order: p })
    }

    /// Product of two elements of one field: `(a.n * b.n) mod order`. The
    /// caller keeps the raw product representable; in practice this bounds
    /// the usable order by the square root of the backing type's range.
    pub fn mul(self, rhs: Self) -> (r: Result<Self, FieldError>)
        requires
            self.wf(),
            rhs.wf(),
            self.nval() * rhs.nval() <= T::max_spec(),
        ensures
            self.oval() != rhs.oval() ==> r == Err::<Self, FieldError>(
                FieldError::ModulusMismatch,
            ),
            self.oval() == rhs.oval() ==> (r matches Ok(e) && e.order == self.order && e.wf()
                && e.nval() == field_mul(self.nval(), rhs.nval(), self.oval())),
    {
        if !self.order.eq_value(rhs.order) {
            return Err(FieldError::ModulusMismatch);
        }
        proof {
            vstd::arithmetic::mul::lemma_mul_nonnegative(self.nval(), rhs.nval());
        }
        let m = self.n.mul_value(rhs.n);
        let n = m.rem_value(self.order);
        Ok(FieldElement { n, order: self.order })
    }

    /// Quotient of two elements of one field, by the Fermat inverse:
    /// `(a.n * b.n^(order - 2)) mod order`. A zero divisor is refused. The
    /// result is the true field quotient only for a prime order, which the
    /// engine does not verify.
    pub fn div(self, rhs: Self) -> (r: Result<Self, FieldError>)
        requires
            self.wf(),
            rhs.wf(),
            self.oval() >= 2,
            self.oval() * (self.oval() - 1) <= T::max_spec(),
        ensures
            self.oval() != rhs.oval() ==> r == Err::<Self, FieldError>(
                FieldError::ModulusMismatch,
            ),
            self.oval() == rhs.oval() && rhs.nval() == 0 ==> r == Err::<Self, FieldError>(
                FieldError::DivisionByZeroResidue,
            ),
            self.oval() == rhs.oval() && rhs.nval() != 0 ==> (r matches Ok(e)
                && e.order == self.order && e.wf()
                && e.nval() == field_div(self.nval(), rhs.nval(), self.oval())),
    {
        if !self.order.eq_value(rhs.order) {
            return Err(FieldError::ModulusMismatch);
        }
        if rhs.n.eq_value(T::zero_value()) {
            return Err(FieldError::DivisionByZeroResidue);
        }
        let one = T::one_value();
        proof {
            self.order.lemma_bounded();
            assert((self.oval() - 1) * (self.oval() - 1) <= self.oval() * (self.oval() - 1))
                by (nonlinear_arith)
                requires self.oval() >= 2;
        }
        let exponent = self.order.sub_value(one).sub_value(one);
        let fermat = rhs.n.mod_exp_value(exponent, self.order);
        proof {
            assert(self.nval() * fermat.as_int() <= (self.oval() - 1) * (self.oval() - 1))
                by (nonlinear_arith)
                requires
                    0 <= self.nval() <= self.oval() - 1,
                    0 <= fermat.as_int() <= self.oval() - 1;
            vstd::arithmetic::mul::lemma_mul_nonnegative(self.nval(), fermat.as_int());
        }
        let prod = self.n.mul_value(fermat);
        let n = prod.rem_value(self.order);
        proof {
            lemma_mul_mod_noop_right(self.nval(),
                vstd::arithmetic::power::pow(rhs.nval(), (self.oval() - 2) as nat), self.oval());
        }
        Ok(FieldElement { n, order: self.order })
    }

    /// Raises the element to `exp`, which is first normalized into
    /// `[0, order - 2]` modulo `order - 1`; a negative exponent of a signed
    /// backing type thereby maps to the positive residue range, which is
    /// faithful to the field only for a prime order (where, by Fermat's
    /// little theorem, exponents matter modulo `order - 1`).
    pub fn pow(self, exp: T) -> (r: Self)
        requires
            self.wf(),
            self.oval() >= 2,
            self.oval() * (self.oval() - 1) <= T::max_spec(),
            0 - T::max_spec() <= exp.as_int(),
        ensures
            r.order == self.order,
            r.wf(),
            r.nval() == field_pow(self.nval(), exp.as_int(), self.oval()),
    {
        proof {
            self.order.lemma_bounded();
            assert(2 * (self.oval() - 1) <= self.oval() * (self.oval() - 1))
                by (nonlinear_arith)
                requires self.oval() >= 2;
        }
        let zero = T::zero_value();
        let pm1 = self.order.sub_value(T::one_value());
        let e_norm: T;
        if exp.lt_value(zero) {
            let neg = zero.sub_value(exp);
            let k = neg.rem_value(pm1);
            proof {
                let p1 = self.oval() - 1;
                let q = neg.as_int() / p1;
                lemma_fundamental_div_mod(neg.as_int(), p1);
                assert(neg.as_int() == p1 * q + k.as_int());
                assert(p1 * (-q - 1) == -(p1 * q) - p1) by (nonlinear_arith);
                assert(exp.as_int() == p1 * (-q - 1) + (p1 - k.as_int()));
                lemma_mod_multiples_vanish(-q - 1, p1 - k.as_int(), p1);
                assert(exp.as_int() % p1 == (p1 - k.as_int()) % p1);
            }
            if k.eq_value(zero) {
                e_norm = zero;
                proof {
                    lemma_mod_self_0(self.oval() - 1);
                }
            } else {
                e_norm = pm1.sub_value(k);
                proof {
                    lemma_small_mod((self.oval() - 1 - k.as_int()) as nat,
                        (self.oval() - 1) as nat);
                }
            }
        } else {
            e_norm = exp.rem_value(pm1);
        }
        proof {
            assert(e_norm.as_int() == exp.as_int() % (self.oval() - 1));
        }
        let n = self.n.mod_exp_value(e_norm, self.order);
        FieldElement { n, order: self.order }
    }

    /// The multiplicative identity of this element's field.
    pub fn one(self) -> (r: Self)
        ensures
            r.order == self.order,
            r.nval() == 1,
            self.oval() >= 2 ==> r.wf(),
    {
        FieldElement { n: T::one_value(), order: self.order }
    }

    /// The additive identity of this element's field.
    pub fn zero(self) -> (r: Self)
        ensures
            r.order == self.order,
            r.nval() == 0,
            self.oval() >= 1 ==> r.wf(),
    {
        FieldElement { n: T::zero_value(), order: self.order }
    }
}

} // verus!
