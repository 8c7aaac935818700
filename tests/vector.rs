use linearalgebra::error::MathError;
use linearalgebra::vector::{Axis, Vector};

#[test]
fn length_test() {
    let v = Vector::new(vec![0, 0, 0]);
    assert_eq!(v.len(), 3)
}

#[test]
fn scalar_test() {
    let v = Vector::new(vec![3, 4, 5]);

    assert_eq!(v.scale(5).as_vec(), &vec![15, 20, 25]);
    assert_eq!(v.as_vec(), &vec![3, 4, 5]);
}

#[test]
fn addition_mismatched_length_test() {
    let v = Vector::new(vec![3, 4, 5]);
    let v2 = Vector::new(vec![1, 3, 9, 5, 1, 12, 3, 12, 12, 33, 12, 3, 12]);

    assert_eq!(v.add(&v2).is_err(), true);
}

#[test]
fn addition_success_test() {
    let v = Vector::new(vec![3, 4, 5]);
    let v2 = Vector::new(vec![1, 3, 9]);

    assert_eq!(v.add(&v2).unwrap().as_vec(), &vec![4, 7, 14]);
    assert_eq!(v.as_vec(), &vec![3, 4, 5]);
    assert_eq!(v2.as_vec(), &vec![1, 3, 9]);
}

#[test]
fn subtraction_mismatched_length_test() {
    let v = Vector::new(vec![3, 4, 5]);
    let v2 = Vector::new(vec![1, 3, 9, 5, 1, 12, 3, 12, 12, 33, 12, 3, 12]);

    assert_eq!(v.sub(&v2).is_err(), true);
}

#[test]
fn subtraction_success_test() {
    let v = Vector::new(vec![3, 4, 5]);
    let v2 = Vector::new(vec![1, 3, 9]);

    assert_eq!(v.sub(&v2).unwrap().as_vec(), &vec![2, 1, -4]);
    assert_eq!(v.as_vec(), &vec![3, 4, 5]);
    assert_eq!(v2.as_vec(), &vec![1, 3, 9]);
}

#[test]
fn zeroes_test() {
    let v = Vector::<i32>::zeroes(10);

    assert_eq!(v.as_vec(), &vec![0i32; 10]);
}

#[test]
fn ones_test() {
    let v = Vector::<i32>::ones(10);

    assert_eq!(v.as_vec(), &vec![1i32; 10]);
}

#[test]
fn unit_vector_success_test() {
    let v = Vector::<i32>::cartesian_unit_vector(1, 5).unwrap();

    assert_eq!(v.as_vec(), &vec![1, 0, 0, 0, 0]);
}

#[test]
fn unit_vector_fail_test() {
    let v = Vector::<i32>::cartesian_unit_vector(6, 5);

    assert!(v.is_err())
}

#[test]
fn dot_success_test() {
    let v = Vector::new(vec![3, 4, 5]);
    let v2 = Vector::new(vec![1, 3, 9]);

    assert_eq!(v.dot(&v2).unwrap(), 60);
}

#[test]
fn dot_fail_test() {
    let v = Vector::new(vec![3, 4, 5]);
    let v2 = Vector::new(vec![1, 3, 9, 1]);

    assert!(v.dot(&v2).is_err());
}

#[test]
fn vector_apply_test() {
    let mut v = Vector::new(vec![3.0, 4.0]);
    v.apply(|&x| x * 2.0);

    assert_eq!(&vec![6.0, 8.0], v.as_vec());
}

#[test]
fn expand_column_test() {
    let v = Vector::new(vec![3.0, 4.0]);
    let expanded = v.expand(4, Axis::Column);

    assert_eq!((2, 4), expanded.shape());
    assert_eq!(
        &vec![3.0, 3.0, 3.0, 3.0, 4.0, 4.0, 4.0, 4.0],
        expanded.as_vec()
    );
}

#[test]
fn expand_row_test() {
    let v = Vector::new(vec![3.0, 4.0]);
    let expanded = v.expand(4, Axis::Row);

    assert_eq!((4, 2), expanded.shape());
    assert_eq!(
        &vec![3.0, 4.0, 3.0, 4.0, 3.0, 4.0, 3.0, 4.0],
        expanded.as_vec()
    );
}

#[test]
fn expand_integers_test() {
    let v = Vector::new(vec![3, 4]);
    let row = v.expand(4, Axis::Row);
    assert_eq!(row.shape(), (4, 2));
    assert_eq!(row.as_vec(), &vec![3, 4, 3, 4, 3, 4, 3, 4]);
    let col = v.expand(4, Axis::Column);
    assert_eq!(col.shape(), (2, 4));
    assert_eq!(col.as_vec(), &vec![3, 3, 3, 3, 4, 4, 4, 4]);
    let none = v.expand(0, Axis::Row);
    assert_eq!(none.shape(), (0, 2));
}

#[test]
fn ones_dot_ones_test() {
    for n in [0usize, 1, 5, 64] {
        let a = Vector::<u64>::ones(n);
        let b = Vector::<u64>::ones(n);
        assert_eq!(a.dot(&b).unwrap(), n as u64);
        let c = Vector::<i32>::ones(n);
        assert_eq!(c.dot(&c).unwrap(), n as i32);
    }
}

#[test]
fn dot_of_empty_vectors_test() {
    let a: Vector<i16> = Vector::new(vec![]);
    assert_eq!(a.dot(&a).unwrap(), 0);
}

#[test]
fn vector_size_mismatch_errors_test() {
    let a = Vector::new(vec![1, 2]);
    let b = Vector::new(vec![1, 2, 3]);
    assert_eq!(a.add(&b).unwrap_err(), MathError::SizeMismatch);
    assert_eq!(a.sub(&b).unwrap_err(), MathError::SizeMismatch);
    assert_eq!(a.dot(&b).unwrap_err(), MathError::SizeMismatch);
}

#[test]
fn unit_vector_edges_test() {
    let last = Vector::<u32>::cartesian_unit_vector(5, 5).unwrap();
    assert_eq!(last.as_vec(), &vec![0, 0, 0, 0, 1]);
    let zero = Vector::<u32>::cartesian_unit_vector(0, 5);
    assert_eq!(zero.unwrap_err(), MathError::IndexOutOfRange);
}

#[test]
fn new_of_supplier_and_as_mut_vec_test() {
    let mut v: Vector<i32> = Vector::new_of_supplier(3, || 2);
    assert_eq!(v.as_vec(), &vec![2, 2, 2]);
    v.as_mut_vec()[1] = 9;
    assert_eq!(v.as_vec(), &vec![2, 9, 2]);
}

#[test]
fn wrapping_dot_test() {
    let a = Vector::new(vec![200u8, 1]);
    let b = Vector::new(vec![2u8, 3]);
    assert_eq!(a.dot(&b).unwrap(), 147u8);
}
