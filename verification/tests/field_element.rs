use finite_field::FieldElement;
use finite_field::FieldError;

#[test]
fn field_element_new_works() {
    let a: FieldElement<i8> = FieldElement::new(3, 5).unwrap();
    let b: FieldElement<i8> = FieldElement { n: 3, order: 5 };
    assert_eq!(a, b);
}

#[test]
fn add_i32_works() {
    let a: FieldElement<i32> = FieldElement::new(7, 19).unwrap();
    let b: FieldElement<i32> = FieldElement::new(18, 19).unwrap();
    let c = a.add(b).unwrap();
    println!("{:?}", c);
    assert_eq!(c, FieldElement::new(6, 19).unwrap());
}

#[test]
fn add_i8_works() {
    let a: FieldElement<i8> = FieldElement::new(9, 11).unwrap();
    let b: FieldElement<i8> = FieldElement::new(3, 11).unwrap();
    let c = a.add(b).unwrap();
    println!("{:?}", c);
    assert_eq!(c, FieldElement::new(1, 11).unwrap());
}

#[test]
fn sub_i64_works() {
    let a: FieldElement<i64> = FieldElement::new(5, 11).unwrap();
    let b: FieldElement<i64> = FieldElement::new(9, 11).unwrap();
    let c = a.sub(b).unwrap();
    let d = b.sub(a).unwrap();
    println!("{:?}", c);
    assert_eq!(c, FieldElement::new(7, 11).unwrap());
    assert_eq!(c.add(d).unwrap(), FieldElement::new(0, 11).unwrap());
}

#[test]
fn sub_u64_works() {
    let a: FieldElement<u64> = FieldElement::new(5, 11).unwrap();
    let b: FieldElement<u64> = FieldElement::new(9, 11).unwrap();
    let c = a.sub(b).unwrap();
    let d = b.sub(a).unwrap();
    println!("{:?}", c);
    assert_eq!(c, FieldElement::new(7, 11).unwrap());
    assert_eq!(c.add(d).unwrap(), FieldElement::new(0, 11).unwrap());
}

#[test]
fn mul_i16_works() {
    let a: FieldElement<i16> = FieldElement::new(6, 7).unwrap();
    let b: FieldElement<i16> = FieldElement::new(3, 7).unwrap();
    assert_eq!(a.mul(b).unwrap(), FieldElement::new(4, 7).unwrap());
}

#[test]
fn div_u16_works() {
    let x: FieldElement<u16> = FieldElement::new(4, 7).unwrap();
    let y: FieldElement<u16> = FieldElement::new(6, 7).unwrap();
    assert_eq!(x.div(y).unwrap(), FieldElement::new(3, 7).unwrap());
}

#[test]
fn field_element_pow_works() {
    let x: FieldElement<i32> = FieldElement::new(4, 7).unwrap();
    let one: FieldElement<i32> = FieldElement::new(1, 7).unwrap();
    assert_eq!(x.pow(-17), one.div(x.pow(17)).unwrap());
}

#[test]
fn binary_works() {
    let one: FieldElement<i8> = FieldElement::new(1, 2).unwrap();
    let zero: FieldElement<i8> = FieldElement::new(0, 2).unwrap();
    assert_eq!(zero.sub(one).unwrap(), FieldElement::new(1, 2).unwrap());
}

#[test]
fn identity_works() {
    let a: FieldElement<i32> = FieldElement::new(5, 31).unwrap();
    let one = a.one();
    let zero = a.zero();

    assert_eq!(a.mul(one).unwrap(), a);
    assert_eq!(a.add(zero).unwrap(), a);
}

#[test]
fn out_of_range_construction_is_refused() {
    assert_eq!(
        FieldElement::<i32>::new(7, 5),
        Err(FieldError::OutOfRangeConstruction)
    );
    assert_eq!(
        FieldElement::<i32>::new(-1, 5),
        Err(FieldError::OutOfRangeConstruction)
    );
    assert_eq!(
        FieldElement::<i32>::new(5, 5),
        Err(FieldError::OutOfRangeConstruction)
    );
}

#[test]
fn modulus_mismatch_is_refused() {
    let a: FieldElement<i32> = FieldElement::new(1, 5).unwrap();
    let b: FieldElement<i32> = FieldElement::new(1, 7).unwrap();
    assert_eq!(a.add(b), Err(FieldError::ModulusMismatch));
    assert_eq!(a.sub(b), Err(FieldError::ModulusMismatch));
    assert_eq!(a.mul(b), Err(FieldError::ModulusMismatch));
    assert_eq!(a.div(b), Err(FieldError::ModulusMismatch));
}

#[test]
fn division_by_zero_residue_is_refused() {
    let a: FieldElement<i32> = FieldElement::new(3, 7).unwrap();
    let zero: FieldElement<i32> = FieldElement::new(0, 7).unwrap();
    assert_eq!(a.div(zero), Err(FieldError::DivisionByZeroResidue));
}

#[test]
fn div_i8_works() {
    let a: FieldElement<i8> = FieldElement::new(2, 5).unwrap();
    let b: FieldElement<i8> = FieldElement::new(3, 5).unwrap();
    assert_eq!(a.div(b).unwrap(), FieldElement::new(4, 5).unwrap());
}

#[test]
fn div_u32_works() {
    let one: FieldElement<u32> = FieldElement::new(1, 5).unwrap();
    let two: FieldElement<u32> = FieldElement::new(2, 5).unwrap();
    assert_eq!(one.div(two).unwrap(), FieldElement::new(3, 5).unwrap());
}

#[test]
fn pow_i64_works() {
    let a: FieldElement<i64> = FieldElement::new(2, 7).unwrap();
    assert_eq!(a.pow(-1), FieldElement::new(4, 7).unwrap());
    assert_eq!(a.pow(0), FieldElement::new(1, 7).unwrap());
    assert_eq!(a.pow(4), FieldElement::new(2, 7).unwrap());
}
