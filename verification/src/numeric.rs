//! The numeric-ring interface of the generic field element.
//!
//! The generic representation works over any backing integer that offers a
//! total order, the two identities, addition, subtraction, multiplication,
//! remainder, and modular exponentiation, together with a declared maximum
//! value. This trait gathers those capabilities in one place; each primitive
//! backing type implements it, and every method carries an exact contract
//! over the mathematical value `as_int`.
//!
//! Only modular exponentiation is taken on trust: each backing type routes it
//! through one wrapper around `mod_exp::mod_exp`, whose behaviour the
//! wrapper's contract states.
use vstd::prelude::*;

verus! {

use vstd::arithmetic::power::pow;

pub trait FieldInt: Copy {
    /// The mathematical value of this number.
    spec fn as_int(self) -> int;

    /// The largest value the backing type can represent.
    spec fn max_spec() -> int;

    /// Every value is bounded by the declared maximum, and the maximum
    /// admits at least the unit value.
    proof fn lemma_bounded(self)
        ensures
            self.as_int() <= Self::max_spec(),
            1 <= Self::max_spec(),
    ;

    /// The additive identity.
    fn zero_value() -> (r: Self)
        ensures
            r.as_int() == 0,
    ;

    /// The multiplicative identity.
    fn one_value() -> (r: Self)
        ensures
            r.as_int() == 1,
    ;

    /// Exact addition; the caller keeps the sum representable.
    fn add_value(self, other: Self) -> (r: Self)
        requires
            0 <= self.as_int() + other.as_int() <= Self::max_spec(),
        ensures
            r.as_int() == self.as_int() + other.as_int(),
    ;

    /// Exact subtraction; the caller keeps the difference representable.
    fn sub_value(self, other: Self) -> (r: Self)
        requires
            0 <= self.as_int() - other.as_int() <= Self::max_spec(),
        ensures
            r.as_int() == self.as_int() - other.as_int(),
    ;

    /// Exact multiplication; the caller keeps the product representable.
    fn mul_value(self, other: Self) -> (r: Self)
        requires
            0 <= self.as_int() * other.as_int() <= Self::max_spec(),
        ensures
            r.as_int() == self.as_int() * other.as_int(),
    ;

    /// Remainder of a non-negative value by a positive one.
    fn rem_value(self, other: Self) -> (r: Self)
        requires
            0 <= self.as_int(),
            0 < other.as_int(),
        ensures
            r.as_int() == self.as_int() % other.as_int(),
    ;

    /// The strict order of the backing type.
    fn lt_value(self, other: Self) -> (r: bool)
        ensures
            r <==> self.as_int() < other.as_int(),
    ;

    /// Equality of the backing type.
    fn eq_value(self, other: Self) -> (r: bool)
        ensures
            r <==> self.as_int() == other.as_int(),
    ;

    /// `self^exponent mod modulus`, computed without overflow as long as
    /// `modulus * (modulus - 1)` is representable.
    fn mod_exp_value(self, exponent: Self, modulus: Self) -> (r: Self)
        requires
            0 <= self.as_int(),
            0 <= exponent.as_int(),
            2 <= modulus.as_int(),
            modulus.as_int() * (modulus.as_int() - 1) <= Self::max_spec(),
        ensures
            r.as_int() == pow(self.as_int(), exponent.as_int() as nat) % modulus.as_int(),
    ;
}

/// Relies on `mod_exp::mod_exp`: right-to-left binary exponentiation that
/// returns `base^exponent mod modulus` for a non-negative base and exponent.
/// It asserts `(modulus - 1) < MAX / (modulus - 1)`, which the requirement
/// `modulus * (modulus - 1) <= MAX` guarantees, and it divides by
/// `modulus - 1`, which `modulus >= 2` keeps nonzero.
#[verifier::external_body]
fn mod_exp_i64(base: i64, exponent: i64, modulus: i64) -> (r: i64)
    requires
        0 <= base,
        0 <= exponent,
        2 <= modulus,
        modulus * (modulus - 1) <= i64::MAX,
    ensures
        r == pow(base as int, exponent as nat) % (modulus as int),
{
    mod_exp::mod_exp(base, exponent, modulus)
}

impl FieldInt for i64 {
    open spec fn as_int(self) -> int {
        self as int
    }

    open spec fn max_spec() -> int {
        i64::MAX as int
    }

    proof fn lemma_bounded(self) {
    }

    fn zero_value() -> Self {
        0
    }

    fn one_value() -> Self {
        1
    }

    fn add_value(self, other: Self) -> Self {
        self + other
    }

    fn sub_value(self, other: Self) -> Self {
        self - other
    }

    fn mul_value(self, other: Self) -> Self {
        self * other
    }

    fn rem_value(self, other: Self) -> Self {
        self % other
    }

    fn lt_value(self, other: Self) -> bool {
        self < other
    }

    fn eq_value(self, other: Self) -> bool {
        self == other
    }

    fn mod_exp_value(self, exponent: Self, modulus: Self) -> Self {
        mod_exp_i64(self, exponent, modulus)
    }
}

/// Relies on `mod_exp::mod_exp`, as `mod_exp_i64` does, at type `u64`.
#[verifier::external_body]
fn mod_exp_u64(base: u64, exponent: u64, modulus: u64) -> (r: u64)
    requires
        2 <= modulus,
        modulus * (modulus - 1) <= u64::MAX,
    ensures
        r == pow(base as int, exponent as nat) % (modulus as int),
{
    mod_exp::mod_exp(base, exponent, modulus)
}

impl FieldInt for u64 {
    open spec fn as_int(self) -> int {
        self as int
    }

    open spec fn max_spec() -> int {
        u64::MAX as int
    }

    proof fn lemma_bounded(self) {
    }

    fn zero_value() -> Self {
        0
    }

    fn one_value() -> Self {
        1
    }

    fn add_value(self, other: Self) -> Self {
        self + other
    }

    fn sub_value(self, other: Self) -> Self {
        self - other
    }

    fn mul_value(self, other: Self) -> Self {
        self * other
    }

    fn rem_value(self, other: Self) -> Self {
        self % other
    }

    fn lt_value(self, other: Self) -> bool {
        self < other
    }

    fn eq_value(self, other: Self) -> bool {
        self == other
    }

    fn mod_exp_value(self, exponent: Self, modulus: Self) -> Self {
        mod_exp_u64(self, exponent, modulus)
    }
}

/// Relies on `mod_exp::mod_exp`, as `mod_exp_i64` does, at type `i8`.
#[verifier::external_body]
fn mod_exp_i8(base: i8, exponent: i8, modulus: i8) -> (r: i8)
    requires
        0 <= base,
        0 <= exponent,
        2 <= modulus,
        modulus * (modulus - 1) <= i8::MAX,
    ensures
        r == pow(base as int, exponent as nat) % (modulus as int),
{
    mod_exp::mod_exp(base, exponent, modulus)
}

impl FieldInt for i8 {
    open spec fn as_int(self) -> int {
        self as int
    }

    open spec fn max_spec() -> int {
        i8::MAX as int
    }

    proof fn lemma_bounded(self) {
    }

    fn zero_value() -> Self {
        0
    }

    fn one_value() -> Self {
        1
    }

    fn add_value(self, other: Self) -> Self {
        self + other
    }

    fn sub_value(self, other: Self) -> Self {
        self - other
    }

    fn mul_value(self, other: Self) -> Self {
        self * other
    }

    fn rem_value(self, other: Self) -> Self {
        self % other
    }

    fn lt_value(self, other: Self) -> bool {
        self < other
    }

    fn eq_value(self, other: Self) -> bool {
        self == other
    }

    fn mod_exp_value(self, exponent: Self, modulus: Self) -> Self {
        mod_exp_i8(self, exponent, modulus)
    }
}

/// Relies on `mod_exp::mod_exp`, as `mod_exp_i64` does, at type `i16`.
#[verifier::external_body]
fn mod_exp_i16(base: i16, exponent: i16, modulus: i16) -> (r: i16)
    requires
        0 <= base,
        0 <= exponent,
        2 <= modulus,
        modulus * (modulus - 1) <= i16::MAX,
    ensures
        r == pow(base as int, exponent as nat) % (modulus as int),
{
    mod_exp::mod_exp(base, exponent, modulus)
}

impl FieldInt for i16 {
    open spec fn as_int(self) -> int {
        self as int
    }

    open spec fn max_spec() -> int {
        i16::MAX as int
    }

    proof fn lemma_bounded(self) {
    }

    fn zero_value() -> Self {
        0
    }

    fn one_value() -> Self {
        1
    }

    fn add_value(self, other: Self) -> Self {
        self + other
    }

    fn sub_value(self, other: Self) -> Self {
        self - other
    }

    fn mul_value(self, other: Self) -> Self {
        self * other
    }

    fn rem_value(self, other: Self) -> Self {
        self % other
    }

    fn lt_value(self, other: Self) -> bool {
        self < other
    }

    fn eq_value(self, other: Self) -> bool {
        self == other
    }

    fn mod_exp_value(self, exponent: Self, modulus: Self) -> Self {
        mod_exp_i16(self, exponent, modulus)
    }
}

/// Relies on `mod_exp::mod_exp`, as `mod_exp_i64` does, at type `i32`.
#[verifier::external_body]
fn mod_exp_i32(base: i32, exponent: i32, modulus: i32) -> (r: i32)
    requires
        0 <= base,
        0 <= exponent,
        2 <= modulus,
        modulus * (modulus - 1) <= i32::MAX,
    ensures
        r == pow(base as int, exponent as nat) % (modulus as int),
{
    mod_exp::mod_exp(base, exponent, modulus)
}

impl FieldInt for i32 {
    open spec fn as_int(self) -> int {
        self as int
    }

    open spec fn max_spec() -> int {
        i32::MAX as int
    }

    proof fn lemma_bounded(self) {
    }

    fn zero_value() -> Self {
        0
    }

    fn one_value() -> Self {
        1
    }

    fn add_value(self, other: Self) -> Self {
        self + other
    }

    fn sub_value(self, other: Self) -> Self {
        self - other
    }

    fn mul_value(self, other: Self) -> Self {
        self * other
    }

    fn rem_value(self, other: Self) -> Self {
        self % other
    }

    fn lt_value(self, other: Self) -> bool {
        self < other
    }

    fn eq_value(self, other: Self) -> bool {
        self == other
    }

    fn mod_exp_value(self, exponent: Self, modulus: Self) -> Self {
        mod_exp_i32(self, exponent, modulus)
    }
}

/// Relies on `mod_exp::mod_exp`, as `mod_exp_i64` does, at type `u16`.
#[verifier::external_body]
fn mod_exp_u16(base: u16, exponent: u16, modulus: u16) -> (r: u16)
    requires
        2 <= modulus,
        modulus * (modulus - 1) <= u16::MAX,
    ensures
        r == pow(base as int, exponent as nat) % (modulus as int),
{
    mod_exp::mod_exp(base, exponent, modulus)
}

impl FieldInt for u16 {
    open spec fn as_int(self) -> int {
        self as int
    }

    open spec fn max_spec() -> int {
        u16::MAX as int
    }

    proof fn lemma_bounded(self) {
    }

    fn zero_value() -> Self {
        0
    }

    fn one_value() -> Self {
        1
    }

    fn add_value(self, other: Self) -> Self {
        self + other
    }

    fn sub_value(self, other: Self) -> Self {
        self - other
    }

    fn mul_value(self, other: Self) -> Self {
        self * other
    }

    fn rem_value(self, other: Self) -> Self {
        self % other
    }

    fn lt_value(self, other: Self) -> bool {
        self < other
    }

    fn eq_value(self, other: Self) -> bool {
        self == other
    }

    fn mod_exp_value(self, exponent: Self, modulus: Self) -> Self {
        mod_exp_u16(self, exponent, modulus)
    }
}

/// Relies on `mod_exp::mod_exp`, as `mod_exp_i64` does, at type `u32`.
#[verifier::external_body]
fn mod_exp_u32(base: u32, exponent: u32, modulus: u32) -> (r: u32)
    requires
        2 <= modulus,
        modulus * (modulus - 1) <= u32::MAX,
    ensures
        r == pow(base as int, exponent as nat) % (modulus as int),
{
    mod_exp::mod_exp(base, exponent, modulus)
}

impl FieldInt for u32 {
    open spec fn as_int(self) -> int {
        self as int
    }

    open spec fn max_spec() -> int {
        u32::MAX as int
    }

    proof fn lemma_bounded(self) {
    }

    fn zero_value() -> Self {
        0
    }

    fn one_value() -> Self {
        1
    }

    fn add_value(self, other: Self) -> Self {
        self + other
    }

    fn sub_value(self, other: Self) -> Self {
        self - other
    }

    fn mul_value(self, other: Self) -> Self {
        self * other
    }

    fn rem_value(self, other: Self) -> Self {
        self % other
    }

    fn lt_value(self, other: Self) -> bool {
        self < other
    }

    fn eq_value(self, other: Self) -> bool {
        self == other
    }

    fn mod_exp_value(self, exponent: Self, modulus: Self) -> Self {
        mod_exp_u32(self, exponent, modulus)
    }
}

} // verus!
