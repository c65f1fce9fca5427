use finite_field::{FieldElement, FieldElementBig};

fn limbs(x: u64) -> Vec<u64> {
    vec![x, 0, 0, 0]
}

#[test]
fn closure_scenario() {
    let a: FieldElement<i8> = FieldElement::new(14, 17).unwrap();
    let b: FieldElement<i8> = FieldElement::new(9, 17).unwrap();

    let c = a.add(b).unwrap();
    let d = a.mul(b).unwrap();

    assert_eq!(c, FieldElement::new(6, 17).unwrap());
    assert_eq!(d, FieldElement::new(7, 17).unwrap());
}

#[test]
fn additive_inverse_unsigned_scenario() {
    let a: FieldElement<u32> = FieldElement::new(5, 31).unwrap();
    let zero = a.zero();
    let a_minus = zero.sub(a).unwrap();
    assert_eq!(a_minus, FieldElement::new(26, 31).unwrap());
    assert_eq!(a.add(a_minus).unwrap(), zero);
}

#[test]
fn additive_inverse_signed_scenario() {
    let a: FieldElement<i32> = FieldElement::new(5, 31).unwrap();
    let zero = a.zero();
    let a_minus = zero.sub(a).unwrap();
    assert_eq!(a_minus, FieldElement::new(26, 31).unwrap());
    assert_eq!(a.add(a_minus).unwrap(), zero);
}

#[test]
fn multiplicative_inverse_scenario() {
    assert!(primes::is_prime(10007));
    let a: FieldElement<u64> = FieldElement::new(324, 10007).unwrap();
    let one = a.one();
    let a_inverse = one.div(a).unwrap();
    assert_eq!(a_inverse, FieldElement::new(8926, 10007).unwrap());
    assert_eq!(a.mul(a_inverse).unwrap(), one);
}

#[test]
fn negative_exponent_scenario() {
    let a: FieldElement<i16> = FieldElement::new(15, 31).unwrap();
    let one = a.one();
    assert_eq!(a.pow(-3), one.div(a.pow(3)).unwrap());
}

#[test]
fn division_round_trip_scenario() {
    assert!(primes::is_prime(31));
    let a: FieldElement<u32> = FieldElement::new(17, 31).unwrap();
    let b: FieldElement<u32> = FieldElement::new(24, 31).unwrap();
    assert_eq!(a.div(b).unwrap().mul(b).unwrap(), a);
}

#[test]
fn multiplicative_identity_holds_for_each_backing_type() {
    let a: FieldElement<i64> = FieldElement::new(19, 23).unwrap();
    assert_eq!(a.mul(a.one()).unwrap(), a);
    let b: FieldElement<u16> = FieldElement::new(19, 23).unwrap();
    assert_eq!(b.mul(b.one()).unwrap(), b);
}

#[test]
fn cross_representation_agreement() {
    // The same (residue, order, operation, operand) through both engines.
    let ga: FieldElement<u64> = FieldElement::new(5, 7).unwrap();
    let gb: FieldElement<u64> = FieldElement::new(6, 7).unwrap();
    let ba = FieldElementBig::new(limbs(5), limbs(7));
    let bb = FieldElementBig::new(limbs(6), limbs(7));

    assert_eq!(limbs(ga.add(gb).unwrap().n), ba.add(&bb).unwrap().n);
    assert_eq!(limbs(ga.sub(gb).unwrap().n), ba.sub(&bb).unwrap().n);
    assert_eq!(limbs(ga.mul(gb).unwrap().n), ba.mul(&bb).unwrap().n);
    assert_eq!(limbs(ga.div(gb).unwrap().n), ba.div(&bb).unwrap().n);
    // Exponent 3 lies inside [0, order - 2], where the generic engine's
    // normalization changes nothing.
    assert_eq!(limbs(ga.pow(3).n), ba.pow(&limbs(3)).n);
}
