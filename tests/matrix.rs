use linearalgebra::error::MathError;
use linearalgebra::matrix::Matrix;
use linearalgebra::vector::Vector;

fn sample() -> Matrix<i32> {
    Matrix::new(3, 3, vec![1, 1, 2, 3, 4, 5, 6, 1, 2]).unwrap()
}

#[test]
fn get_col_success_test() {
    let matrix = Matrix::new(3, 3, vec![1, 1, 2, 3, 4, 5, 6, 1, 2]).unwrap();

    assert_eq!(matrix.get_col(0).unwrap(), Vector::new(vec![1, 3, 6]))
}

#[test]
fn get_col_fail_test() {
    let matrix = Matrix::new(3, 3, vec![1, 1, 2, 3, 4, 5, 6, 1, 2]).unwrap();

    assert!(matrix.get_col(6).is_err());
}

#[test]
fn get_cols_test() {
    let matrix = Matrix::new(3, 3, vec![1, 1, 2, 3, 4, 5, 6, 1, 2]).unwrap();

    assert_eq!(
        matrix.get_cols(),
        vec![
            Vector::new(vec![1, 3, 6]),
            Vector::new(vec![1, 4, 1]),
            Vector::new(vec![2, 5, 2]),
        ]
    )
}

#[test]
fn get_row_success_test() {
    let matrix = Matrix::new(3, 3, vec![1, 1, 2, 3, 4, 5, 6, 1, 2]).unwrap();

    assert_eq!(matrix.get_row(0).unwrap(), Vector::new(vec![1, 1, 2]))
}

#[test]
fn get_row_fail_test() {
    let matrix = Matrix::new(3, 3, vec![1, 1, 2, 3, 4, 5, 6, 1, 2]).unwrap();

    assert!(matrix.get_row(6).is_err());
}

#[test]
fn get_rows_test() {
    let matrix = Matrix::new(3, 3, vec![1, 1, 2, 3, 4, 5, 6, 1, 2]).unwrap();

    assert_eq!(
        matrix.get_rows(),
        vec![
            Vector::new(vec![1, 1, 2]),
            Vector::new(vec![3, 4, 5]),
            Vector::new(vec![6, 1, 2]),
        ]
    )
}

#[test]
fn matrix_vector_product_fail_test() {
    let matrix = Matrix::new(3, 3, vec![1, 1, 2, 3, 4, 5, 6, 1, 2]).unwrap();
    let vector = Vector::new(vec![1, 4, 1, 1]);

    assert!(matrix.product_vector(&vector).is_err())
}

#[test]
fn matrix_vector_product_test() {
    let matrix = Matrix::new(3, 3, vec![1, 1, 2, 3, 4, 5, 6, 1, 2]).unwrap();
    let vector = Vector::new(vec![1, 4, 1]);

    assert_eq!(
        matrix.product_vector(&vector).unwrap(),
        Vector::new(vec![7, 24, 12])
    )
}

#[test]
fn matrix_matrix_product_test() {
    let matrix = Matrix::new(3, 3, vec![1, 1, 2, 3, 4, 5, 6, 1, 2]).unwrap();
    let matrix2 = Matrix::new(3, 3, vec![1, 9, 2, 7, 1, 5, 3, 8, 2]).unwrap();

    assert_eq!(
        matrix.product_matrix(&matrix2).unwrap().as_vec(),
        &vec![14, 26, 11, 46, 71, 36, 19, 71, 21]
    )
}

#[test]
fn transpose_nonsquare_test() {
    let matrix = Matrix::new(3, 2, vec![1, 2, 3, 4, 5, 6]).unwrap();
    assert_eq!(matrix.transpose().as_vec(), &vec![1, 4, 2, 5, 3, 6])
}

#[test]
fn transpose_square_test() {
    let matrix = Matrix::new(3, 3, vec![1, 2, 3, 4, 5, 6, 7, 8, 9]).unwrap();
    assert_eq!(
        matrix.transpose().as_vec(),
        &vec![1, 4, 7, 2, 5, 8, 3, 6, 9]
    )
}

#[test]
fn display_3x3_test() {
    let matrix = Matrix::new(3, 3, vec![1, 1, 2, 3, 4, 5, 6, 1, 2]).unwrap();

    assert_eq!(
        "┌       ┐\n│ 1 1 2 │\n│ 3 4 5 │\n│ 6 1 2 │\n└       ┘",
        matrix.to_string()
    )
}

#[test]
fn display_1x1_test() {
    let matrix = Matrix::new(1, 1, vec![1]).unwrap();

    assert_eq!("┌   ┐\n│ 1 │\n└   ┘", matrix.to_string())
}

#[test]
fn display_1x3_test() {
    let matrix = Matrix::new(3, 1, vec![1, 2, 3]).unwrap();

    assert_eq!("┌       ┐\n│ 1 2 3 │\n└       ┘", matrix.to_string())
}

#[test]
fn display_3x1_test() {
    let matrix = Matrix::new(1, 3, vec![1, 2, 3]).unwrap();

    assert_eq!("┌   ┐\n│ 1 │\n│ 2 │\n│ 3 │\n└   ┘", matrix.to_string())
}

#[test]
fn display_unequal_length_3x2_test() {
    let matrix = Matrix::new(2, 3, vec![1, 20, 3, 1, 0, 9]).unwrap();

    assert_eq!("┌       ┐\n│ 1  20 │\n│ 3  1  │\n│ 0  9  │\n└       ┘", matrix.to_string())
}

#[test]
fn display_0_test() {
    let matrix: Matrix<i32> = Matrix::new(0, 0, vec![]).unwrap();

    assert_eq!("┌ ┐\n└ ┘", matrix.to_string())
}

#[test]
fn display_empty_rows_test() {
    let matrix: Matrix<i32> = Matrix::new(2, 0, vec![]).unwrap();

    assert_eq!("┌   ┐\n└   ┘", matrix.to_string())
}

#[test]
fn render_grid_test() {
    let cells: Vec<String> = vec!["ab".to_string(), "c".to_string()];
    assert_eq!(
        "┌       ┐\n│ ab c  │\n└       ┘",
        linearalgebra::display::render_grid(2, 1, &cells)
    );
}

#[test]
fn indexed_access_test() {
    let matrix: Matrix<i32> = Matrix::new(3, 3, vec![4, 5, 1, 2, 3, 1, 5, 1, 9]).unwrap();

    assert_eq!(3, *matrix.index((1, 1)));
    assert_eq!(3, *matrix.index((1, 1)))
}

#[test]
fn matrix_apply_test() {
    let mut matrix: Matrix<i32> = Matrix::new(3, 3, vec![4, 5, 1, 2, 3, 1, 5, 1, 9]).unwrap();

    assert_eq!(3, *matrix.index((1, 1)));
    matrix.apply(|x| *x * 2);
    assert_eq!(6, *matrix.index((1, 1)));
}

#[test]
fn supplier_test() {
    let matrix: Matrix<i32> = Matrix::new_of_supplier(3, 3, || 10);
    assert_eq!(&vec![10; 9], matrix.as_vec())
}

#[test]
fn add_test() {
    let matrix: Matrix<i32> = Matrix::new(2, 2, vec![1, 2, 3, 4]).unwrap();
    let matrix_2: Matrix<i32> = Matrix::new(2, 2, vec![3, 2, 1, 4]).unwrap();
    assert_eq!(&vec![4, 4, 4, 8], matrix.add(&matrix_2).unwrap().as_vec())
}

#[test]
fn sub_test() {
    let matrix: Matrix<i32> = Matrix::new(2, 2, vec![1, 2, 3, 4]).unwrap();
    let matrix_2: Matrix<i32> = Matrix::new(2, 2, vec![3, 2, 1, 4]).unwrap();

    assert_eq!(&vec![-2, 0, 2, 0], matrix.sub(&matrix_2).unwrap().as_vec())
}

#[test]
fn sum_test() {
    let matrix: Matrix<i32> = Matrix::new(2, 2, vec![9, 2, 3, 4]).unwrap();
    assert_eq!(18, matrix.sum())
}

#[test]
fn test_test() {
    let matrix: Matrix<i32> = Matrix::new(2, 2, vec![-4, -6, -2, 6]).unwrap();
    let matrix2: Matrix<i32> = Matrix::new(2, 2, vec![0, 2, -1, -2]).unwrap();

    println!("{:?}", matrix2.product_matrix(&matrix).unwrap())
}

#[test]
fn new_rejects_wrong_length_test() {
    let r: Result<Matrix<i32>, MathError> = Matrix::new(2, 3, vec![1, 2, 3]);
    assert_eq!(r.unwrap_err(), MathError::DimensionMismatch);
    let huge: Result<Matrix<i32>, MathError> = Matrix::new(usize::MAX, 2, vec![]);
    assert_eq!(huge.unwrap_err(), MathError::DimensionMismatch);
}

#[test]
fn shape_accessors_test() {
    let m = Matrix::new(3, 2, vec![1, 2, 3, 4, 5, 6]).unwrap();
    assert_eq!(m.width(), 3);
    assert_eq!(m.height(), 2);
    assert_eq!(m.shape(), (2, 3));
}

#[test]
fn new_of_element_test() {
    let m = Matrix::new_of_element(2, 3, 7u8).unwrap();
    assert_eq!(m.shape(), (3, 2));
    assert_eq!(m.as_vec(), &vec![7u8; 6]);
}

#[test]
fn out_of_bounds_column_and_row_test() {
    let m = Matrix::new(3, 2, vec![1, 2, 3, 4, 5, 6]).unwrap();
    assert_eq!(m.get_col(3).unwrap_err(), MathError::IndexOutOfRange);
    assert_eq!(m.get_row(2).unwrap_err(), MathError::IndexOutOfRange);
    assert_eq!(m.get_col(0).unwrap(), Vector::new(vec![1, 4]));
    assert_eq!(m.get_col(2).unwrap(), Vector::new(vec![3, 6]));
    assert_eq!(m.get_row(0).unwrap(), Vector::new(vec![1, 2, 3]));
    assert_eq!(m.get_row(1).unwrap(), Vector::new(vec![4, 5, 6]));
}

#[test]
fn empty_matrix_rows_and_cols_test() {
    let m: Matrix<i32> = Matrix::new(0, 0, vec![]).unwrap();
    assert!(m.get_rows().is_empty());
    assert!(m.get_cols().is_empty());
    assert_eq!(m.sum(), 0);
}

#[test]
fn transpose_round_trip_test() {
    let shapes: Vec<(usize, usize)> = vec![(0, 0), (0, 3), (3, 0), (1, 1), (1, 4), (4, 1), (2, 3), (5, 7)];
    for (w, h) in shapes {
        let data: Vec<i64> = (0..(w * h) as i64).collect();
        let m = Matrix::new(w, h, data.clone()).unwrap();
        let t = m.transpose();
        assert_eq!(t.shape(), (w, h));
        let back = t.transpose();
        assert_eq!(back.shape(), (h, w));
        assert_eq!(back.as_vec(), &data);
    }
}

#[test]
fn transpose_cells_test() {
    let m = Matrix::new(4, 2, vec![1, 2, 3, 4, 5, 6, 7, 8]).unwrap();
    let t = m.transpose();
    for i in 0..2 {
        for j in 0..4 {
            assert_eq!(*t.index((j, i)), *m.index((i, j)));
        }
    }
}

#[test]
fn index_mut_test() {
    let mut m = Matrix::new(2, 2, vec![1, 2, 3, 4]).unwrap();
    *m.index_mut((1, 0)) = 30;
    assert_eq!(m.as_vec(), &vec![1, 2, 30, 4]);
}

#[test]
fn add_sub_shape_mismatch_test() {
    let a: Matrix<i32> = Matrix::new(2, 3, vec![1, 2, 3, 4, 5, 6]).unwrap();
    let b: Matrix<i32> = Matrix::new(3, 2, vec![1, 2, 3, 4, 5, 6]).unwrap();
    assert_eq!(a.add(&b).unwrap_err(), MathError::ShapeMismatch);
    assert_eq!(a.sub(&b).unwrap_err(), MathError::ShapeMismatch);
}

#[test]
fn sum_rows_and_columns_test() {
    let m = Matrix::new(3, 2, vec![1, 2, 3, 4, 5, 6]).unwrap();
    assert_eq!(m.sum_rows(), Vector::new(vec![6, 15]));
    let cols = m.sum_columns();
    assert_eq!(cols.shape(), (1, 3));
    assert_eq!(cols.as_vec(), &vec![5, 7, 9]);
}

#[test]
fn scale_test() {
    let m = Matrix::new(2, 2, vec![1, -2, 3, 4]).unwrap();
    let s = m.scale(3);
    assert_eq!(s.as_vec(), &vec![3, -6, 9, 12]);
    assert_eq!(m.as_vec(), &vec![1, -2, 3, 4]);
}

#[test]
fn max_min_test() {
    let m = Matrix::new(3, 2, vec![4, -7, 12, 0, 12, 3]).unwrap();
    assert_eq!(m.max(), 12);
    assert_eq!(m.min(), -7);
}

#[test]
fn concrete_product_all_strategies_test() {
    let a = sample();
    let b = Matrix::new(3, 3, vec![1, 9, 2, 7, 1, 5, 3, 8, 2]).unwrap();
    let expected = vec![14, 26, 11, 46, 71, 36, 19, 71, 21];
    assert_eq!(a.simple_product_matrix(&b).unwrap().as_vec(), &expected);
    assert_eq!(a.trivial_product_matrix(&b).unwrap().as_vec(), &expected);
    assert_eq!(a.simd_product_matrix(&b).unwrap().as_vec(), &expected);
    assert_eq!(a.product_matrix(&b).unwrap().as_vec(), &expected);
}

#[test]
fn rectangular_product_shape_test() {
    let a = Matrix::new(3, 2, vec![1, 2, 3, 4, 5, 6]).unwrap();
    let b = Matrix::new(4, 3, vec![1, 0, 2, -1, 3, 1, 0, 2, -2, 4, 1, 0]).unwrap();
    let expected = vec![1, 14, 5, 3, 7, 29, 14, 6];
    for r in [
        a.simple_product_matrix(&b).unwrap(),
        a.trivial_product_matrix(&b).unwrap(),
        a.simd_product_matrix(&b).unwrap(),
        a.product_matrix(&b).unwrap(),
    ] {
        assert_eq!(r.shape(), (2, 4));
        assert_eq!(r.as_vec(), &expected);
    }
}

#[test]
fn mismatched_inner_dimension_test() {
    let a: Matrix<i32> = Matrix::new(3, 2, vec![1, 2, 3, 4, 5, 6]).unwrap();
    let b: Matrix<i32> = Matrix::new(2, 2, vec![1, 2, 3, 4]).unwrap();
    assert_eq!(a.simple_product_matrix(&b).unwrap_err(), MathError::DimensionMismatch);
    assert_eq!(a.trivial_product_matrix(&b).unwrap_err(), MathError::DimensionMismatch);
    assert_eq!(a.simd_product_matrix(&b).unwrap_err(), MathError::DimensionMismatch);
    assert_eq!(a.product_matrix(&b).unwrap_err(), MathError::DimensionMismatch);
}

#[test]
fn strategies_agree_across_lane_remainders_test() {
    for n in [0usize, 1, 7, 8, 9, 16, 17, 23] {
        let h = 3;
        let k = 2;
        let a_data: Vec<i64> = (0..(h * n) as i64).map(|x| (x * 7) % 11 - 5).collect();
        let b_data: Vec<i64> = (0..(n * k) as i64).map(|x| (x * 5) % 13 - 6).collect();
        let a = Matrix::new(n, h, a_data).unwrap();
        let b = Matrix::new(k, n, b_data).unwrap();
        let naive = a.simple_product_matrix(&b).unwrap();
        let looped = a.trivial_product_matrix(&b).unwrap();
        let lanes = a.simd_product_matrix(&b).unwrap();
        let parallel = a.product_matrix(&b).unwrap();
        assert_eq!(naive.shape(), (h, k));
        assert_eq!(naive.as_vec(), looped.as_vec());
        assert_eq!(looped.as_vec(), lanes.as_vec());
        assert_eq!(lanes.as_vec(), parallel.as_vec());
        for i in 0..h {
            for j in 0..k {
                let row = a.get_row(i).unwrap();
                let col = b.get_col(j).unwrap();
                assert_eq!(*lanes.index((i, j)), row.dot(&col).unwrap());
            }
        }
    }
}

#[test]
fn product_with_zero_matrix_test() {
    let a = Matrix::new(3, 2, vec![1, 2, 3, 4, 5, 6]).unwrap();
    let z = Matrix::new_of_element(5, 3, 0i32).unwrap();
    for r in [
        a.simple_product_matrix(&z).unwrap(),
        a.trivial_product_matrix(&z).unwrap(),
        a.simd_product_matrix(&z).unwrap(),
        a.product_matrix(&z).unwrap(),
    ] {
        assert_eq!(r.shape(), (2, 5));
        assert_eq!(r.as_vec(), &vec![0; 10]);
    }
}

#[test]
fn product_of_empty_operands_test() {
    let a: Matrix<i32> = Matrix::new(0, 2, vec![]).unwrap();
    let b: Matrix<i32> = Matrix::new(3, 0, vec![]).unwrap();
    let r = a.simd_product_matrix(&b).unwrap();
    assert_eq!(r.shape(), (2, 3));
    assert_eq!(r.as_vec(), &vec![0; 6]);
    let r2 = a.trivial_product_matrix(&b).unwrap();
    assert_eq!(r2.as_vec(), &vec![0; 6]);
}

#[test]
fn wrapping_product_test() {
    let a = Matrix::new(1, 1, vec![200u8]).unwrap();
    let b = Matrix::new(1, 1, vec![2u8]).unwrap();
    assert_eq!(a.product_matrix(&b).unwrap().as_vec(), &vec![144u8]);
    assert_eq!(a.simple_product_matrix(&b).unwrap().as_vec(), &vec![144u8]);
}
