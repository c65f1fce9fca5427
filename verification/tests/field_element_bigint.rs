use finite_field::FieldElementBig;
use finite_field::FieldError;

fn limbs(x: u64) -> Vec<u64> {
    vec![x, 0, 0, 0]
}

#[test]
fn field_element_bigint_new_works() {
    let element = FieldElementBig::new(limbs(9), limbs(7));
    assert!(element.n[0] < element.order[0]);
    assert_eq!(element.n, limbs(2));
}

#[test]
fn add_works() {
    let modulus = limbs(7);

    let elm1 = FieldElementBig::new(limbs(5), modulus.clone());
    let elm2 = FieldElementBig::new(limbs(6), modulus.clone());
    let elm3 = FieldElementBig::new(limbs(4), modulus.clone());
    assert_eq!(elm1.add(&elm2).unwrap(), elm3);
}

#[test]
fn sub_works() {
    let modulus = limbs(7);

    let elm1 = FieldElementBig::new(limbs(5), modulus.clone());
    let elm2 = FieldElementBig::new(limbs(6), modulus.clone());
    let elm3 = FieldElementBig::new(limbs(1), modulus.clone());
    assert_eq!(elm1.sub(&elm2).unwrap(), elm2);
    assert_eq!(elm2.sub(&elm1).unwrap(), elm3);
}

#[test]
fn mul_works() {
    let modulus = limbs(7);

    let elm1 = FieldElementBig::new(limbs(5), modulus.clone());
    let elm2 = FieldElementBig::new(limbs(6), modulus.clone());
    let elm3 = FieldElementBig::new(limbs(2), modulus.clone());
    assert_eq!(elm1.mul(&elm2).unwrap(), elm3);
}

#[test]
fn field_element_bigint_pow_works() {
    let modulus = limbs(7);

    let elm1 = FieldElementBig::new(limbs(3), modulus.clone());
    let elm2 = FieldElementBig::new(limbs(6), modulus.clone());
    assert_eq!(elm1.pow(&limbs(3)), elm2);

    let elm1 = FieldElementBig::new(limbs(2), modulus.clone());
    let elm2 = FieldElementBig::new(limbs(4), modulus.clone());
    assert_eq!(elm1.pow(&limbs(8)), elm2);
}

#[test]
fn div_works() {
    let modulus = limbs(7);

    let elm1 = FieldElementBig::new(limbs(5), modulus.clone());
    let elm2 = FieldElementBig::new(limbs(6), modulus.clone());
    let elm3 = FieldElementBig::new(limbs(2), modulus.clone());
    assert_eq!(elm3.div(&elm2).unwrap(), elm1);
    assert_eq!(elm3.div(&elm1).unwrap(), elm2);
}

#[test]
fn bigint_get_num_works() {
    let element = FieldElementBig::new(limbs(20), limbs(7));
    assert_eq!(element.get_num(), limbs(6));
}

#[test]
fn bigint_modulus_mismatch_is_refused() {
    let a = FieldElementBig::new(limbs(2), limbs(7));
    let b = FieldElementBig::new(limbs(2), limbs(9));
    assert_eq!(a.add(&b), Err(FieldError::ModulusMismatch));
    assert_eq!(a.sub(&b), Err(FieldError::ModulusMismatch));
    assert_eq!(a.mul(&b), Err(FieldError::ModulusMismatch));
    assert_eq!(a.div(&b), Err(FieldError::ModulusMismatch));
}

#[test]
fn bigint_underflow_in_modulus_arithmetic_is_refused() {
    let a = FieldElementBig::new(limbs(0), limbs(1));
    let b = FieldElementBig::new(limbs(0), limbs(1));
    assert_eq!(a.div(&b), Err(FieldError::UnderflowInModulusArithmetic));
}

#[test]
fn bigint_wide_values_reduce() {
    // A residue with a second limb set: (2^64 + 3) mod 5 == (1 + 3) mod 5 == 4,
    // because 2^64 mod 5 == 1.
    let wide = vec![3, 1, 0, 0];
    let element = FieldElementBig::new(wide, limbs(5));
    assert_eq!(element.n, limbs(4));
}
