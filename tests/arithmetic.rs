use matrixes::matrix::general::add::general_matrix_axpy;
use matrixes::matrix::general::mul::general_matrix_gemm;
use matrixes::matrix::general::GeneralMatrix;

#[test]
fn addition_primitive_rust() {
    let m1 = GeneralMatrix::new_row_major([[1, 2, 3], [4, 5, 6]]);
    let m2 = GeneralMatrix::new_row_major([[6, 5, 4], [3, 2, 1]]);

    let ans = GeneralMatrix::new_row_major([[7, 7, 7], [7, 7, 7]]);

    assert_eq!(m1 + m2, ans);
}

#[test]
fn add_internal_impl_macro() {
    let mut m1 = GeneralMatrix::new_row_major([[1., 2., 3.], [4., 5., 6.]]);
    let m2 = GeneralMatrix::new_row_major([[6., 5., 4.], [3., 2., 1.]]);

    let ans = GeneralMatrix::new_row_major([[7., 7., 7.], [7., 7., 7.]]);

    general_matrix_axpy(&mut m1, 1.0, &m2);

    assert_eq!(m1, ans);
}

#[test]
fn addition_lapack_f32() {
    let m1: GeneralMatrix<2, 3, f32> = GeneralMatrix::new_row_major([[1., 2., 3.], [4., 5., 6.]]);
    let m2: GeneralMatrix<2, 3, f32> = GeneralMatrix::new_row_major([[6., 5., 4.], [3., 2., 1.]]);

    let ans: GeneralMatrix<2, 3, f32> = GeneralMatrix::new_row_major([[7., 7., 7.], [7., 7., 7.]]);

    assert_eq!(m1 + m2, ans);
}

#[test]
fn addition_lapack_f64() {
    let m1: GeneralMatrix<2, 3, f64> = GeneralMatrix::new_row_major([[1., 2., 3.], [4., 5., 6.]]);
    let m2: GeneralMatrix<2, 3, f64> = GeneralMatrix::new_row_major([[6., 5., 4.], [3., 2., 1.]]);

    let ans: GeneralMatrix<2, 3, f64> = GeneralMatrix::new_row_major([[7., 7., 7.], [7., 7., 7.]]);

    assert_eq!(m1 + m2, ans);
}

#[test]
fn multiplication_primitive_rust() {
    let m1 = GeneralMatrix::new_col_major([[1, 4], [2, 5], [3, 6]]);
    let m2 = GeneralMatrix::new_col_major([[1, 3, 5], [2, 4, 6]]);

    let expect = GeneralMatrix::new_col_major([[22, 49], [28, 64]]);

    assert_eq!(m1 * m2, expect);
}

#[test]
fn mul_internal_impl_macro() {
    let m1 = GeneralMatrix::new_col_major([[1., 4.], [2., 5.], [3., 6.]]);
    let m2 = GeneralMatrix::new_col_major([[1., 3., 5.], [2., 4., 6.]]);
    let mut m3 = GeneralMatrix::new_col_major([[1., 1.], [1., 1.]]);

    general_matrix_gemm(&m1, &m2, &mut m3, 1., 2.);

    let ans = GeneralMatrix::new_col_major([[24., 51.], [30., 66.]]);
    assert_eq!(m3, ans);
}

#[test]
fn multiplication_lapack_f32() {
    let m1: GeneralMatrix<2, 3, f32> = GeneralMatrix::new_col_major([[1., 4.], [2., 5.], [3., 6.]]);
    let m2 = GeneralMatrix::new_col_major([[1., 3., 5.], [2., 4., 6.]]);

    let ans = GeneralMatrix::new_col_major([[22., 49.], [28., 64.]]);

    assert_eq!(m1 * m2, ans);
}

#[test]
fn multiplication_lapack_f64() {
    let m1: GeneralMatrix<2, 3, f64> = GeneralMatrix::new_col_major([[1., 4.], [2., 5.], [3., 6.]]);
    let m2 = GeneralMatrix::new_col_major([[1., 3., 5.], [2., 4., 6.]]);

    let ans = GeneralMatrix::new_col_major([[22., 49.], [28., 64.]]);

    assert_eq!(m1 * m2, ans);
}

#[test]
fn test_matrix_addition_f32() {
    let left = GeneralMatrix::<3, 2, f32>::new_col_major([[1., 2., 3.], [4., 5., 6.]]);
    let right = GeneralMatrix::new_col_major([[6., 5., 4.], [3., 2., 1.]]);
    let expect = GeneralMatrix::new_col_major([[7., 7., 7.], [7., 7., 7.]]);

    assert_eq!(left + right, expect);
}

#[test]
fn test_matrix_addition_f64() {
    let left = GeneralMatrix::<3, 2, f64>::new_col_major([[1., 2., 3.], [4., 5., 6.]]);
    let right = GeneralMatrix::new_col_major([[6., 5., 4.], [3., 2., 1.]]);
    let expect = GeneralMatrix::new_col_major([[7., 7., 7.], [7., 7., 7.]]);

    assert_eq!(left + right, expect);
}

#[test]
fn test_matrix_addition_rust_imple() {
    let left = GeneralMatrix::<3, 2, i32>::new_col_major([[1, 2, 3], [4, 5, 6]]);
    let right = GeneralMatrix::new_col_major([[6, 5, 4], [3, 2, 1]]);
    let expect = GeneralMatrix::new_col_major([[7, 7, 7], [7, 7, 7]]);

    assert_eq!(left + right, expect);
}

#[test]
fn test_matrix_multiple_f32() {
    let l = GeneralMatrix::<2, 3, f32>::new_col_major([[1., 4.], [2., 5.], [3., 6.]]);
    let r = GeneralMatrix::<3, 2, f32>::new_col_major([[1., 3., 5.], [2., 4., 6.]]);

    // 1 2 3       1 2       22  28
    //         *   3 4   =
    // 4 5 6       5 6       49  64

    let expect = GeneralMatrix::<2, 2, f32>::new_col_major([[22., 49.], [28., 64.]]);

    assert_eq!(l * r, expect);
}

#[test]
fn test_matrix_multiple_f64() {
    let l = GeneralMatrix::<2, 3, f64>::new_col_major([[1., 4.], [2., 5.], [3., 6.]]);
    let r = GeneralMatrix::<3, 2, f64>::new_col_major([[1., 3., 5.], [2., 4., 6.]]);

    let expect = GeneralMatrix::<2, 2, f64>::new_col_major([[22., 49.], [28., 64.]]);

    assert_eq!(l * r, expect);
}

#[test]
fn test_matrix_multiple_rust_imple() {
    let l = GeneralMatrix::<2, 3, _>::new_col_major([[1, 4], [2, 5], [3, 6]]);
    let r = GeneralMatrix::<3, 2, _>::new_col_major([[1, 3, 5], [2, 4, 6]]);

    let expect = GeneralMatrix::<2, 2, i32>::new_col_major([[22, 49], [28, 64]]);

    assert_eq!(l * r, expect);
}

#[test]
fn mixed_element_types_add() {
    let l = GeneralMatrix::new_row_major([[std::num::Wrapping(250u8), std::num::Wrapping(1)]]);
    let r = GeneralMatrix::new_row_major([[std::num::Wrapping(10u8), std::num::Wrapping(2)]]);
    let s = l + r;
    assert_eq!(s.inner(), &[std::num::Wrapping(4u8), std::num::Wrapping(3)]);
}

#[test]
fn add_consumes_owned_elements() {
    let l = GeneralMatrix::new_row_major([[String::from("a"), String::from("b")]]);
    let r = GeneralMatrix::new_row_major([["x", "y"]]);
    let s = l + r;
    assert_eq!(s.inner(), &[String::from("ax"), String::from("by")]);
}

#[test]
fn product_with_empty_inner_dimension_is_zero() {
    let l: GeneralMatrix<2, 0, i64> = GeneralMatrix::new_col_major([]);
    let r: GeneralMatrix<0, 3, i64> = GeneralMatrix::new_col_major([[], [], []]);
    let p = l * r;
    assert_eq!(p, GeneralMatrix::by_value(0i64));
}

#[test]
fn product_shape_follows_operands() {
    let l = GeneralMatrix::new_row_major([[1, 2], [3, 4], [5, 6]]);
    let r = GeneralMatrix::new_row_major([[7, 8, 9, 10], [11, 12, 13, 14]]);
    let p: GeneralMatrix<3, 4, i32> = l * r;
    let expect = GeneralMatrix::new_row_major([
        [29, 32, 35, 38],
        [65, 72, 79, 86],
        [101, 112, 123, 134],
    ]);
    assert_eq!(p, expect);
}

#[test]
fn gemm_integers() {
    let a = GeneralMatrix::new_row_major([[1, 2], [3, 4]]);
    let b = GeneralMatrix::new_row_major([[5, 6], [7, 8]]);
    let mut c = GeneralMatrix::new_row_major([[1, 0], [0, 1]]);
    general_matrix_gemm(&a, &b, &mut c, 2, -3);
    // 2 * [[19, 22], [43, 50]] - 3 * I
    assert_eq!(c, GeneralMatrix::new_row_major([[35, 44], [86, 97]]));
}

#[test]
fn axpy_scales_and_accumulates() {
    let mut y = GeneralMatrix::new_row_major([[1, 2], [3, 4]]);
    let x = GeneralMatrix::new_row_major([[10, 20], [30, 40]]);
    general_matrix_axpy(&mut y, -2, &x);
    assert_eq!(y, GeneralMatrix::new_row_major([[-19, -38], [-57, -76]]));
}

#[test]
fn subtraction_elementwise() {
    let m1 = GeneralMatrix::new_row_major([[7, 7, 7], [7, 7, 7]]);
    let m2 = GeneralMatrix::new_row_major([[6, 5, 4], [3, 2, 1]]);
    assert_eq!(m1 - m2, GeneralMatrix::new_row_major([[1, 2, 3], [4, 5, 6]]));
}

#[test]
fn subtraction_f64() {
    let m1: GeneralMatrix<2, 2, f64> = GeneralMatrix::new_row_major([[1.5, 2.], [3., 4.]]);
    let m2 = GeneralMatrix::new_row_major([[0.5, 2.], [-1., 4.]]);
    assert_eq!(m1 - m2, GeneralMatrix::new_row_major([[1., 0.], [4., 0.]]));
}
