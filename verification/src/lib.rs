//! Finite-field arithmetic: values taken modulo a positive order, closed
//! under addition, subtraction, multiplication, division, and
//! exponentiation, in two parallel representations.
//!
//! - [`FieldElement`] works over any backing integer of the numeric-ring
//!   interface in [`numeric`]; it handles sign, underflow-free subtraction,
//!   negative exponents, and division by the Fermat inverse through modular
//!   exponentiation.
//! - [`FieldElementBig`] works over 256-bit fixed-width unsigned integers
//!   and reduces through a Montgomery-style residue form, so wide products
//!   never overflow.
//!
//! Both state their results against the one model in [`math`], and both
//! signal every detected violation through [`FieldError`] instead of
//! aborting. Overflow in the generic representation and primality of the
//! order for division are caller responsibilities, stated as preconditions
//! in the contracts.
//!
//! The algebraic laws of the model — identities, closure, additive
//! inverses — are proved in [`math`]; the laws that need a prime order —
//! the multiplicative inverse, the division round trip, and the
//! negative-exponent identity — are proved in [`fermat`], on top of a full
//! proof of Fermat's little theorem.

pub mod fermat;
pub mod field_element;
pub mod field_element_bigint;
pub mod math;
pub mod numeric;

pub use field_element::FieldElement;
pub use field_element_bigint::FieldElement as FieldElementBig;

use vstd::prelude::*;

verus! {

/// Reasons an arithmetic operation on field elements can be refused.
#[derive(Debug, Clone, Copy, PartialEq, Eq, Structural)]
pub enum FieldError {
    /// The two operands of a binary operation carry different orders.
    ModulusMismatch,
    /// A residue handed to the strict constructor lies outside `[0, order)`.
    OutOfRangeConstruction,
    /// The divisor's residue is zero.
    DivisionByZeroResidue,
    /// The order is too small for `order - 2` to be formed.
    UnderflowInModulusArithmetic,
}

} // verus!
