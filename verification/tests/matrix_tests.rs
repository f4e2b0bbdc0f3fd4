use axis::matrix::Matrix;
use axis::AxisError;

#[test]
fn test_matrix() {
    let mut matrix = Matrix::<i32>::new((2, 2));

    matrix.set(0, 0, 1).unwrap();
    matrix.set(0, 1, 2).unwrap();
    matrix.set(1, 0, 3).unwrap();
    matrix.set(1, 1, 4).unwrap();

    assert_eq!(matrix.get(0, 0), Ok(1));
    assert_eq!(matrix.get(0, 1), Ok(2));
    assert_eq!(matrix.get(1, 0), Ok(3));
    assert_eq!(matrix.get(1, 1), Ok(4));
}

#[test]
fn test_matrix_arange() {
    let matrix = Matrix::arange(0, 5, 1);

    assert_eq!(matrix.shape(), (1, 5));
    assert_eq!(matrix.get(0, 0), Ok(0));
    assert_eq!(matrix.get(0, 1), Ok(1));
    assert_eq!(matrix.get(0, 2), Ok(2));
    assert_eq!(matrix.get(0, 3), Ok(3));
    assert_eq!(matrix.get(0, 4), Ok(4));
}

#[test]
fn test_matrix_add_matrix() {
    let matrix1 = Matrix::arange(0, 4, 1).reshape((2, 2)).unwrap();
    let matrix2 = Matrix::arange(4, 8, 1).reshape((2, 2)).unwrap();

    let result = matrix1.add(&matrix2).unwrap();

    assert_eq!(result.get(0, 0), Ok(4));
    assert_eq!(result.get(0, 1), Ok(6));
    assert_eq!(result.get(1, 0), Ok(8));
    assert_eq!(result.get(1, 1), Ok(10));
}

#[test]
fn test_matrix_add_scaler() {
    let result = Matrix::arange(0, 4, 1).reshape((2, 2)).unwrap().add_scalar(1);

    assert_eq!(result.get(0, 0), Ok(1));
    assert_eq!(result.get(0, 1), Ok(2));
    assert_eq!(result.get(1, 0), Ok(3));
    assert_eq!(result.get(1, 1), Ok(4));
}

#[test]
fn test_matrix_mul_matrix() {
    let matrix1 = Matrix::arange(1, 5, 1).reshape((2, 2)).unwrap();
    let matrix2 = Matrix::arange(5, 9, 1).reshape((2, 2)).unwrap();

    let result = matrix1.mul(&matrix2).unwrap();

    assert_eq!(result.get(0, 0), Ok(5));
    assert_eq!(result.get(0, 1), Ok(12));
    assert_eq!(result.get(1, 0), Ok(21));
    assert_eq!(result.get(1, 1), Ok(32));
}

#[test]
fn test_matrix_mul_scaler() {
    let result = Matrix::arange(1, 5, 1).reshape((2, 2)).unwrap().mul_scalar(2);

    assert_eq!(result.get(0, 0), Ok(2));
    assert_eq!(result.get(0, 1), Ok(4));
    assert_eq!(result.get(1, 0), Ok(6));
    assert_eq!(result.get(1, 1), Ok(8));
}

#[test]
fn test_matrix_div_matrix() {
    let matrix1 = Matrix::arange(1, 5, 1).reshape((2, 2)).unwrap();
    let matrix2 = Matrix::arange(1, 5, 1).reshape((2, 2)).unwrap();

    let result = matrix1.div(&matrix2).unwrap();

    assert_eq!(result.get(0, 0), Ok(1));
    assert_eq!(result.get(0, 1), Ok(1));
    assert_eq!(result.get(1, 0), Ok(1));
    assert_eq!(result.get(1, 1), Ok(1));
}

#[test]
fn test_matrix_div_scaler() {
    let result = Matrix::arange(2, 10, 2).reshape((2, 2)).unwrap().div_scalar(2);

    assert_eq!(result.get(0, 0), Ok(1));
    assert_eq!(result.get(0, 1), Ok(2));
    assert_eq!(result.get(1, 0), Ok(3));
    assert_eq!(result.get(1, 1), Ok(4));
}

#[test]
fn test_matrix_sub_matrix() {
    let matrix1 = Matrix::arange(1, 5, 1).reshape((2, 2)).unwrap();
    let matrix2 = Matrix::arange(5, 9, 1).reshape((2, 2)).unwrap();

    let result = matrix1.sub(&matrix2).unwrap();

    assert_eq!(result.get(0, 0), Ok(-4));
    assert_eq!(result.get(0, 1), Ok(-4));
    assert_eq!(result.get(1, 0), Ok(-4));
    assert_eq!(result.get(1, 1), Ok(-4));
}

#[test]
fn test_matrix_sub_scaler() {
    let result = Matrix::arange(1, 5, 1).reshape((2, 2)).unwrap().sub_scalar(1);

    assert_eq!(result.get(0, 0), Ok(0));
    assert_eq!(result.get(0, 1), Ok(1));
    assert_eq!(result.get(1, 0), Ok(2));
    assert_eq!(result.get(1, 1), Ok(3));
}

#[test]
fn test_matrix_dot() {
    let matrix1 = Matrix::arange(1, 5, 1).reshape((2, 2)).unwrap();
    let matrix2 = Matrix::arange(5, 9, 1).reshape((2, 2)).unwrap();

    let result = matrix1.dot(&matrix2).unwrap();

    assert_eq!(result.get(0, 0), Ok(19));
    assert_eq!(result.get(0, 1), Ok(22));
    assert_eq!(result.get(1, 0), Ok(43));
    assert_eq!(result.get(1, 1), Ok(50));
}

#[test]
fn test_matrix_transpose() {
    let matrix = Matrix::arange(1, 7, 1).reshape((2, 3)).unwrap();
    let result = matrix.transpose();

    assert_eq!(result.shape(), (3, 2));
    assert_eq!(result.get(0, 0), Ok(1));
    assert_eq!(result.get(0, 1), Ok(4));
    assert_eq!(result.get(1, 0), Ok(2));
    assert_eq!(result.get(1, 1), Ok(5));
    assert_eq!(result.get(2, 0), Ok(3));
    assert_eq!(result.get(2, 1), Ok(6));
}

#[test]
fn transpose_twice_is_identity() {
    let matrix = Matrix::arange(1, 13, 1).reshape((3, 4)).unwrap();
    let back = matrix.transpose().transpose();
    assert_eq!(back, matrix);
}

#[test]
fn dot_shape_is_rows_by_cols() {
    let a = Matrix::arange(0, 6, 1).reshape((2, 3)).unwrap();
    let b = Matrix::arange(0, 12, 1).reshape((3, 4)).unwrap();
    let c = a.dot(&b).unwrap();
    assert_eq!(c.shape(), (2, 4));
}

#[test]
fn dot_inner_mismatch_fails() {
    let a = Matrix::arange(0, 6, 1).reshape((2, 3)).unwrap();
    let b = Matrix::arange(0, 8, 1).reshape((2, 4)).unwrap();
    assert_eq!(a.dot(&b).unwrap_err(), AxisError::ShapeMismatch);
}

#[test]
fn elementwise_mismatch_fails() {
    let a = Matrix::arange(0, 6, 1).reshape((2, 3)).unwrap();
    let b = Matrix::arange(0, 6, 1).reshape((3, 2)).unwrap();
    assert_eq!(a.add(&b).unwrap_err(), AxisError::ShapeMismatch);
    assert_eq!(a.sub(&b).unwrap_err(), AxisError::ShapeMismatch);
    assert_eq!(a.mul(&b).unwrap_err(), AxisError::ShapeMismatch);
    assert_eq!(a.div(&b).unwrap_err(), AxisError::ShapeMismatch);
}

#[test]
fn reshape_wrong_count_fails() {
    let a = Matrix::arange(0, 6, 1);
    assert_eq!(a.reshape((4, 2)).unwrap_err(), AxisError::ShapeMismatch);
}

#[test]
fn get_out_of_bounds_fails() {
    let a = Matrix::arange(0, 6, 1).reshape((2, 3)).unwrap();
    assert_eq!(a.get(2, 0).unwrap_err(), AxisError::OutOfBounds);
    assert_eq!(a.get(0, 3).unwrap_err(), AxisError::OutOfBounds);
    let mut b = a;
    assert_eq!(b.set(5, 5, 0).unwrap_err(), AxisError::OutOfBounds);
}

#[test]
fn flatten_makes_one_row() {
    let a = Matrix::arange(0, 6, 1).reshape((2, 3)).unwrap();
    let f = a.flatten();
    assert_eq!(f.shape(), (1, 6));
    assert_eq!(f.get(0, 4), Ok(4));
}

#[test]
fn from_vec_makes_one_row() {
    let m = Matrix::from(vec![7, 8, 9]);
    assert_eq!(m.shape(), (1, 3));
    assert_eq!(m.get(0, 2), Ok(9));
    assert!(!m.is_empty());
    assert_eq!(m.len(), 3);
    assert_eq!(m.rows(), 1);
    assert_eq!(m.cols(), 3);
}

#[test]
fn from_rows_builds_and_rejects() {
    let m = Matrix::from_rows(vec![vec![1, 2], vec![3, 4], vec![5, 6]]).unwrap();
    assert_eq!(m.shape(), (3, 2));
    assert_eq!(m.get(2, 1), Ok(6));
    let ragged = Matrix::from_rows(vec![vec![1, 2], vec![3]]);
    assert_eq!(ragged.unwrap_err(), AxisError::ShapeMismatch);
    let empty: Result<Matrix<i32>, AxisError> = Matrix::from_rows(vec![]);
    assert_eq!(empty.unwrap_err(), AxisError::ShapeMismatch);
}

#[test]
fn ones_and_zeros_fill() {
    let o = Matrix::<i32>::ones((2, 2));
    let z = Matrix::<i32>::zeros((2, 2));
    assert_eq!(o.get(1, 1), Ok(1));
    assert_eq!(z.get(1, 1), Ok(0));
    let e = Matrix::<i32>::zeros((0, 3));
    assert!(e.is_empty());
}
