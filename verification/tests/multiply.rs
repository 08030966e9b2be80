use rusty_python::array::{checked_count, from_parts, multiply, ArrayError, NdArray};

fn words(vals: &[f64]) -> Vec<u64> {
    let mut w: Vec<u64> = Vec::new();
    for v in vals {
        w.push(v.to_bits());
    }
    w
}

fn floats(words: &[u64]) -> Vec<f64> {
    let mut v: Vec<f64> = Vec::new();
    for w in words {
        v.push(f64::from_bits(*w));
    }
    v
}

fn product_op(a: u64, b: u64) -> u64 {
    (f64::from_bits(a) * f64::from_bits(b)).to_bits()
}

fn array(shape: &[usize], vals: &[f64]) -> NdArray {
    from_parts(shape.to_vec(), words(vals)).unwrap()
}

#[test]
fn mult_same_shape_gives_elementwise_product() {
    let x = array(&[2, 2], &[1.0, 2.0, 3.0, 4.0]);
    let y = array(&[2, 2], &[2.0, 0.0, 0.0, 2.0]);
    let z = multiply(&x, &y, product_op).unwrap();
    assert_eq!(z.shape, vec![2, 2]);
    assert_eq!(z.data, words(&[2.0, 0.0, 0.0, 8.0]));
}

#[test]
fn mult_keeps_shape_and_operands() {
    let x = array(&[3], &[1.5, -2.0, 0.5]);
    let y = array(&[3], &[2.0, 3.0, -4.0]);
    let z = multiply(&x, &y, product_op).unwrap();
    assert_eq!(z.shape, x.shape);
    assert_eq!(z.data, words(&[3.0, -6.0, -2.0]));
    assert_eq!(x.data, words(&[1.5, -2.0, 0.5]));
    assert_eq!(y.data, words(&[2.0, 3.0, -4.0]));
}

#[test]
fn mult_shape_mismatch_is_an_error() {
    let x = array(&[2, 3], &[1.0, 2.0, 3.0, 4.0, 5.0, 6.0]);
    let y = array(&[3, 2], &[1.0, 2.0, 3.0, 4.0, 5.0, 6.0]);
    let r = multiply(&x, &y, product_op);
    assert!(matches!(r, Err(ArrayError::ShapeMismatch)));
}

#[test]
fn mult_length_mismatch_is_an_error() {
    let x = array(&[2], &[1.0, 2.0]);
    let y = array(&[3], &[1.0, 2.0, 3.0]);
    let r = multiply(&x, &y, product_op);
    assert!(matches!(r, Err(ArrayError::ShapeMismatch)));
}

#[test]
fn mult_empty_arrays_give_empty_array() {
    let x = array(&[0], &[]);
    let y = array(&[0], &[]);
    let z = multiply(&x, &y, product_op).unwrap();
    assert_eq!(z.shape, vec![0]);
    assert_eq!(z.data, Vec::<u64>::new());
}

#[test]
fn mult_scalar_arrays() {
    let x = array(&[], &[3.0]);
    let y = array(&[], &[4.0]);
    let z = multiply(&x, &y, product_op).unwrap();
    assert_eq!(z.shape, Vec::<usize>::new());
    assert_eq!(z.data, words(&[12.0]));
}

#[test]
fn mult_is_commutative_elementwise() {
    let x = array(&[2, 3], &[1.5, -2.0, 0.0, 1.0e300, -0.0, 7.25]);
    let y = array(&[2, 3], &[3.25, 4.0, -0.5, 1.0e10, 2.0, -1.0]);
    let xy = multiply(&x, &y, product_op).unwrap();
    let yx = multiply(&y, &x, product_op).unwrap();
    assert_eq!(xy.shape, yx.shape);
    assert_eq!(xy.data, yx.data);
}

#[test]
fn mult_follows_ieee_special_values() {
    let x = array(&[3], &[f64::NAN, f64::INFINITY, 1.0e308]);
    let y = array(&[3], &[1.0, 2.0, 1.0e308]);
    let z = multiply(&x, &y, product_op).unwrap();
    let vals = floats(&z.data);
    assert!(vals[0].is_nan());
    assert_eq!(vals[1], f64::INFINITY);
    assert_eq!(vals[2], f64::INFINITY);
}

#[test]
fn from_parts_accepts_matching_buffer_only() {
    assert!(from_parts(vec![2, 3], vec![0u64; 6]).is_some());
    assert!(from_parts(vec![2, 3], vec![0u64; 5]).is_none());
    assert!(from_parts(vec![], vec![0u64; 1]).is_some());
    assert!(from_parts(vec![], Vec::new()).is_none());
    assert!(from_parts(vec![0], Vec::new()).is_some());
}

#[test]
fn checked_count_multiplies_extents() {
    assert_eq!(checked_count(&vec![2, 3, 4]), Some(24));
    assert_eq!(checked_count(&Vec::new()), Some(1));
    assert_eq!(checked_count(&vec![5]), Some(5));
    assert_eq!(checked_count(&vec![usize::MAX, 0]), Some(0));
    assert_eq!(checked_count(&vec![usize::MAX, 2]), None);
}
