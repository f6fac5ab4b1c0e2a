use neural_network::error::Error;
use neural_network::matrix::output_extent;
use neural_network::matrix::resolve_index;
use neural_network::matrix::Matrix;
use neural_network::scalar::Scalar;

fn grid(values: Vec<i64>, rows: usize, cols: usize) -> Matrix<i64> {
    Matrix::from_vec(values, rows, cols).unwrap()
}

#[test]
fn new_is_zero_filled() {
    let m: Matrix<i64> = Matrix::new(2, 3);
    assert_eq!(m.get_num_rows(), 2);
    assert_eq!(m.get_num_cols(), 3);
    assert_eq!(m.get_data(), &vec![0; 6]);
}

#[test]
fn new_of_no_cells_is_empty() {
    let m: Matrix<i64> = Matrix::new(0, 5);
    assert_eq!(m.get_data().len(), 0);
    assert!(m.is_well_formed());
}

#[test]
fn from_vec_keeps_the_buffer() {
    let m = grid(vec![1, 2, 3, 4, 5, 6], 2, 3);
    assert_eq!(m.get(0, 0), 1);
    assert_eq!(m.get(0, 2), 3);
    assert_eq!(m.get(1, 0), 4);
    assert_eq!(m.get(1, 2), 6);
}

#[test]
fn from_vec_rejects_a_wrong_length() {
    let short: Result<Matrix<i64>, Error> = Matrix::from_vec(vec![1, 2, 3], 2, 2);
    assert!(matches!(short, Err(Error::LengthMismatch)));
    let long: Result<Matrix<i64>, Error> = Matrix::from_vec(vec![1, 2, 3, 4, 5], 2, 2);
    assert!(matches!(long, Err(Error::LengthMismatch)));
    let huge: Result<Matrix<i64>, Error> = Matrix::from_vec(vec![], usize::MAX, 2);
    assert!(matches!(huge, Err(Error::LengthMismatch)));
}

#[test]
fn from_nested_vec_lays_rows_end_to_end() {
    let m = Matrix::from_nested_vec(vec![vec![1i64, 2], vec![3, 4], vec![5, 6]]).unwrap();
    assert_eq!(m.get_num_rows(), 3);
    assert_eq!(m.get_num_cols(), 2);
    assert_eq!(m.get_data(), &vec![1, 2, 3, 4, 5, 6]);
}

#[test]
fn from_nested_vec_rejects_no_rows_and_ragged_rows() {
    let none: Result<Matrix<i64>, Error> = Matrix::from_nested_vec(vec![]);
    assert!(matches!(none, Err(Error::LengthMismatch)));
    let ragged = Matrix::from_nested_vec(vec![vec![1i64, 2], vec![3]]);
    assert!(matches!(ragged, Err(Error::LengthMismatch)));
}

#[test]
fn set_writes_one_cell_and_chains() {
    let mut m: Matrix<i64> = Matrix::new(2, 2);
    m.set(0, 1, 7).set(1, 0, 9);
    assert_eq!(m.get_data(), &vec![0, 7, 9, 0]);
}

#[test]
fn get_data_mut_reaches_the_cells() {
    let mut m = grid(vec![1, 2, 3, 4], 2, 2);
    m.get_data_mut()[3] = 40;
    assert_eq!(m.get(1, 1), 40);
    m.get_data_mut().push(5);
    assert!(!m.is_well_formed());
}

#[test]
fn add_matrix_adds_cell_by_cell() {
    let mut a = grid(vec![1, 2, 3, 4], 2, 2);
    let b = grid(vec![10, 20, 30, 40], 2, 2);
    a.add_matrix(&b).unwrap();
    assert_eq!(a.get_data(), &vec![11, 22, 33, 44]);
    assert_eq!(b.get_data(), &vec![10, 20, 30, 40]);
}

#[test]
fn sub_matrix_subtracts_cell_by_cell() {
    let mut a = grid(vec![1, 2, 3, 4], 2, 2);
    let b = grid(vec![10, 20, 30, 40], 2, 2);
    a.sub_matrix(&b).unwrap();
    assert_eq!(a.get_data(), &vec![-9, -18, -27, -36]);
}

#[test]
fn elementwise_mul_multiplies_cell_by_cell() {
    let mut a = grid(vec![1, 2, 3, 4], 2, 2);
    let b = grid(vec![10, 20, 30, 40], 2, 2);
    a.elementwise_mul(&b).unwrap();
    assert_eq!(a.get_data(), &vec![10, 40, 90, 160]);
}

#[test]
fn elementwise_operations_reject_other_shapes() {
    let wide = grid(vec![1, 2, 3, 4, 5, 6], 2, 3);
    let tall = grid(vec![1, 2, 3, 4, 5, 6], 3, 2);
    let mut a = grid(vec![1, 2, 3, 4, 5, 6], 2, 3);
    assert!(matches!(a.add_matrix(&tall), Err(Error::ShapeMismatch)));
    assert!(matches!(a.sub_matrix(&tall), Err(Error::ShapeMismatch)));
    assert!(matches!(a.elementwise_mul(&tall), Err(Error::ShapeMismatch)));
    let row = grid(vec![1, 2, 3], 1, 3);
    assert!(matches!(a.add_matrix(&row), Err(Error::ShapeMismatch)));
    assert!(a.equals(&wide));
}

#[test]
fn elementwise_results_chain() {
    let mut a = grid(vec![1, 2], 1, 2);
    let b = grid(vec![3, 4], 1, 2);
    let c = a.add_matrix(&b).unwrap().mul_scalar(2).clone();
    assert_eq!(c.get_data(), &vec![8, 12]);
    assert_eq!(a.get_data(), &vec![8, 12]);
}

#[test]
fn scalar_operations_touch_every_cell() {
    let mut m = grid(vec![1, 2, 3, 4], 2, 2);
    m.add_scalar(10);
    assert_eq!(m.get_data(), &vec![11, 12, 13, 14]);
    m.sub_scalar(1);
    assert_eq!(m.get_data(), &vec![10, 11, 12, 13]);
    m.mul_scalar(-2);
    assert_eq!(m.get_data(), &vec![-20, -22, -24, -26]);
}

#[test]
fn transpose_swaps_rows_and_columns() {
    let m = grid(vec![1, 2, 3, 4, 5, 6], 2, 3);
    let t = Matrix::transpose(&m);
    assert_eq!(t.get_num_rows(), 3);
    assert_eq!(t.get_num_cols(), 2);
    assert_eq!(t.get_data(), &vec![1, 4, 2, 5, 3, 6]);
    assert_eq!(m.get_data(), &vec![1, 2, 3, 4, 5, 6]);
}

#[test]
fn transpose_twice_is_the_matrix() {
    for (rows, cols) in [(1usize, 1usize), (1, 5), (5, 1), (3, 4), (4, 3), (0, 3), (2, 0)] {
        let values: Vec<i64> = (0..(rows * cols) as i64).map(|v| v * 7 - 3).collect();
        let m = grid(values, rows, cols);
        let back = Matrix::transpose(&Matrix::transpose(&m));
        assert_eq!(back.get_num_rows(), rows);
        assert_eq!(back.get_num_cols(), cols);
        assert_eq!(back.get_data(), m.get_data());
    }
}

#[test]
fn mul_is_the_matrix_product() {
    let a = grid(vec![1, 2, 3, 4, 5, 6], 2, 3);
    let b = grid(vec![7, 8, 9, 10, 11, 12], 3, 2);
    let p = Matrix::mul(&a, &b).unwrap();
    assert_eq!(p.get_num_rows(), 2);
    assert_eq!(p.get_num_cols(), 2);
    assert_eq!(p.get_data(), &vec![58, 64, 139, 154]);
}

#[test]
fn mul_has_the_rows_of_the_first_and_the_columns_of_the_second() {
    for (n, k, m) in [(1usize, 1usize, 1usize), (1, 4, 3), (3, 2, 5), (2, 0, 2), (0, 3, 2)] {
        let a: Matrix<i64> = Matrix::new(n, k);
        let b: Matrix<i64> = Matrix::new(k, m);
        let p = Matrix::mul(&a, &b).unwrap();
        assert_eq!(p.get_num_rows(), n);
        assert_eq!(p.get_num_cols(), m);
        assert_eq!(p.get_data().len(), n * m);
    }
}

#[test]
fn mul_rejects_inner_dimensions_that_differ() {
    for (n, k, l, m) in [(2usize, 3usize, 2usize, 3usize), (1, 1, 2, 1), (3, 2, 3, 2), (2, 2, 0, 2)] {
        let a: Matrix<i64> = Matrix::new(n, k);
        let b: Matrix<i64> = Matrix::new(l, m);
        assert!(matches!(Matrix::mul(&a, &b), Err(Error::ShapeMismatch)));
    }
}

#[test]
fn convolve_has_the_shape_of_the_formula() {
    for rows in 1usize..6 {
        for cols in 1usize..6 {
            for kernel in 1usize..4 {
                for stride in 1usize..4 {
                    for padding in 0usize..3 {
                        if kernel > rows + 2 * padding || kernel > cols + 2 * padding {
                            continue;
                        }
                        let input: Matrix<i64> = Matrix::new(rows, cols);
                        let weights: Matrix<i64> = Matrix::new(kernel, kernel);
                        let out = Matrix::convolve(&input, &weights, stride, padding);
                        assert_eq!(out.get_num_rows(), (rows + 2 * padding - kernel) / stride + 1);
                        assert_eq!(out.get_num_cols(), (cols + 2 * padding - kernel) / stride + 1);
                        assert!(out.is_well_formed());
                    }
                }
            }
        }
    }
}

#[test]
fn convolve_with_stride_and_padding() {
    let input = grid(vec![1, 2, 3, 4, 5, 6, 7, 8, 9], 3, 3);
    let kernel = grid(vec![1, 2, 3, 4], 2, 2);
    let out = Matrix::convolve(&input, &kernel, 2, 1);
    assert_eq!(out.get_num_rows(), 2);
    assert_eq!(out.get_num_cols(), 2);
    assert_eq!(out.get_data(), &vec![4, 18, 36, 77]);
}

#[test]
fn convolve_with_a_kernel_that_is_not_square() {
    let input = grid(vec![1, 2, 3, 4, 5, 6], 2, 3);
    let kernel = grid(vec![1, -1], 1, 2);
    let out = Matrix::convolve(&input, &kernel, 1, 0);
    assert_eq!(out.get_num_rows(), 2);
    assert_eq!(out.get_num_cols(), 2);
    assert_eq!(out.get_data(), &vec![-1, -1, -1, -1]);
}

#[test]
fn output_extent_follows_the_formula_or_refuses() {
    assert_eq!(output_extent(3, 2, 1, 0), Some(2));
    assert_eq!(output_extent(2, 2, 1, 1), Some(3));
    assert_eq!(output_extent(4, 2, 2, 0), Some(2));
    assert_eq!(output_extent(5, 3, 2, 0), Some(2));
    assert_eq!(output_extent(2, 5, 1, 1), None);
    assert_eq!(output_extent(2, 4, 1, 1), Some(1));
    assert_eq!(output_extent(3, 2, 0, 0), None);
    assert_eq!(output_extent(usize::MAX, 1, 1, 1), None);
    assert_eq!(output_extent(usize::MAX, 0, 1, 0), None);
}

#[test]
fn resolve_index_skips_the_padding() {
    assert_eq!(resolve_index(0, 0, 1, 1, 3), None);
    assert_eq!(resolve_index(0, 1, 1, 1, 3), Some(0));
    assert_eq!(resolve_index(2, 1, 1, 1, 3), Some(2));
    assert_eq!(resolve_index(3, 1, 1, 1, 3), None);
    assert_eq!(resolve_index(1, 1, 2, 0, 4), Some(3));
    assert_eq!(resolve_index(2, 0, 2, 0, 4), None);
}

#[test]
fn equals_compares_shape_and_cells() {
    let a = grid(vec![1, 2, 3, 4], 2, 2);
    assert!(a.equals(&grid(vec![1, 2, 3, 4], 2, 2)));
    assert!(!a.equals(&grid(vec![1, 2, 3, 5], 2, 2)));
    assert!(!a.equals(&grid(vec![1, 2, 3, 4], 1, 4)));
    assert!(!a.equals(&grid(vec![1, 2, 3, 4], 4, 1)));
}

#[test]
fn clone_has_storage_of_its_own() {
    let a = grid(vec![1, 2, 3, 4], 2, 2);
    let mut b = a.clone();
    b.set(0, 0, 100);
    assert_eq!(a.get(0, 0), 1);
    assert_eq!(b.get(0, 0), 100);
    assert_eq!(b.get_num_rows(), 2);
    assert_eq!(b.get_num_cols(), 2);
}

#[test]
fn reshape_keeps_the_cells() {
    let a = grid(vec![1, 2, 3, 4, 5, 6], 2, 3);
    let b = a.reshape(1, 6);
    assert_eq!(b.get_num_rows(), 1);
    assert_eq!(b.get_num_cols(), 6);
    assert_eq!(b.get_data(), a.get_data());
}

#[test]
fn from_samples_maps_each_word() {
    let words: Vec<u64> = vec![0, 1, 2, 3, 4, 5];
    let m: Matrix<i64> = Matrix::from_samples(&words, 2, 3).unwrap();
    assert_eq!(m.get_data(), &vec![-1, 0, 1, -1, 0, 1]);
    let short: Result<Matrix<i64>, Error> = Matrix::from_samples(&words, 2, 2);
    assert!(matches!(short, Err(Error::LengthMismatch)));
}

#[test]
fn new_random_fills_the_shape_from_the_unit_range() {
    let m: Matrix<i64> = Matrix::new_random(8, 16);
    assert_eq!(m.get_num_rows(), 8);
    assert_eq!(m.get_num_cols(), 16);
    assert!(m.is_well_formed());
    assert!(m.get_data().iter().all(|v| -1 <= *v && *v <= 1));
    let first = m.get(0, 0);
    assert!(m.get_data().iter().any(|v| *v != first));
}

#[test]
fn integers_saturate() {
    assert_eq!(i64::MAX.plus(1), i64::MAX);
    assert_eq!(i64::MIN.minus(1), i64::MIN);
    assert_eq!(i64::MAX.times(2), i64::MAX);
    assert_eq!(i64::MIN.times(2), i64::MIN);
    assert_eq!(i64::MIN.times(-1), i64::MAX);
    assert_eq!(i64::MIN.over(-1), i64::MAX);
    assert_eq!(3i64.plus(4), 7);
    assert_eq!(3i64.minus(4), -1);
    assert_eq!(3i64.times(-4), -12);
}

#[test]
fn integers_divide_toward_zero() {
    assert_eq!(7i64.over(2), 3);
    assert_eq!((-7i64).over(2), -3);
    assert_eq!(7i64.over(-2), -3);
    assert_eq!((-7i64).over(-2), 3);
    assert_eq!(7i64.over(0), 0);
    assert_eq!(0i64.over(5), 0);
}

#[test]
fn integers_from_counts_and_samples() {
    assert_eq!(<i64 as Scalar>::zero(), 0);
    assert_eq!(<i64 as Scalar>::one(), 1);
    assert_eq!(<i64 as Scalar>::from_count(12), 12);
    assert_eq!(<i64 as Scalar>::from_count(usize::MAX), i64::MAX);
    assert_eq!(<i64 as Scalar>::from_sample(9), -1);
    assert_eq!(<i64 as Scalar>::from_sample(10), 0);
    assert_eq!(<i64 as Scalar>::from_sample(11), 1);
    assert!(5i64.is_positive());
    assert!(!0i64.is_positive());
    assert!(!(-5i64).is_positive());
    assert!(5i64.equals(5));
    assert!(!5i64.equals(6));
}
