use clrs_algorithms::matrix_multiplication::naive::naive_matrix_multiply;
use clrs_algorithms::matrix_multiplication::{Matrix, MatrixDimensions, MatrixError, MatrixIndex};
use quickcheck::TestResult;

fn dims(width: usize, height: usize) -> MatrixDimensions {
    MatrixDimensions { width, height }
}

fn from_rows(rows: &[&[i64]]) -> Matrix<i64> {
    let height = rows.len();
    let width = rows.first().map_or(0, |r| r.len());
    let data: Vec<i64> = rows.iter().flat_map(|r| r.iter().copied()).collect();
    Matrix::from_iterator(dims(width, height), data).unwrap()
}

fn identity(n: usize) -> Matrix<i64> {
    Matrix::from_generator(dims(n, n), |MatrixIndex { x, y }| if x == y { 1 } else { 0 })
}

#[test]
fn trivial_multiplications() {
    let m_1 = Matrix::from_iterator(dims(1, 1), vec![1]).unwrap();
    let m_2 = Matrix::from_generator(dims(5, 1), |MatrixIndex { x, y }| (x + y) as i64);

    assert_eq!(naive_matrix_multiply(&m_1, &m_2), Ok(m_2));
}

#[test]
fn short_iterator() {
    assert_eq!(
        Matrix::from_iterator(dims(10, 10), (0..2).collect::<Vec<i32>>()),
        Err(MatrixError::InsufficientData)
    );
}

#[test]
fn surplus_elements_are_dropped() {
    let m = Matrix::from_iterator(dims(2, 1), vec![7, 8, 9]).unwrap();
    assert_eq!(m.data(), &[7, 8]);
    assert_eq!(m.dimensions(), dims(2, 1));
}

#[test]
fn exact_iterator() {
    let m = Matrix::from_iterator(dims(3, 2), (0..6).collect::<Vec<usize>>()).unwrap();
    assert_eq!(m.get(MatrixIndex { x: 2, y: 1 }), Ok(&5));
    assert_eq!(m.get(MatrixIndex { x: 0, y: 1 }), Ok(&3));
}

#[test]
fn from_generator() {
    fn prop(width: u8, height: u8) -> TestResult {
        let width = width as usize;
        let height = height as usize;
        if width == 0 || height == 0 {
            return TestResult::discard();
        }
        let generator = |MatrixIndex { x, y }| x + width * y;
        let matrix = Matrix::from_generator(dims(width, height), generator);
        let expected = Matrix::from_iterator(dims(width, height), (0..width * height).collect()).unwrap();
        TestResult::from_bool(matrix == expected)
    }
    quickcheck::quickcheck(prop as fn(u8, u8) -> TestResult);
}

#[test]
fn from_iterator() {
    fn prop(width: u8, height: u8) -> TestResult {
        let width = width as usize;
        let height = height as usize;
        if width == 0 || height == 0 {
            return TestResult::discard();
        }
        let matrix = Matrix::from_iterator(dims(width, height), (0..width * height).collect()).unwrap();
        TestResult::from_bool(matrix.data() == (0..width * height).collect::<Vec<usize>>().as_slice())
    }
    quickcheck::quickcheck(prop as fn(u8, u8) -> TestResult);
}

#[test]
fn generator_round_trip() {
    let g = |MatrixIndex { x, y }: MatrixIndex| (10 * y + x) as i64;
    let m = Matrix::from_generator(dims(4, 3), g);
    for y in 0..3 {
        for x in 0..4 {
            assert_eq!(m.get(MatrixIndex { x, y }), Ok(&g(MatrixIndex { x, y })));
        }
    }
}

#[test]
fn from_value_and_new() {
    let m = Matrix::from_value(dims(3, 2), 7i64);
    assert_eq!(m.data(), &[7; 6]);
    let d: Matrix<i64> = Matrix::new(dims(2, 2));
    assert_eq!(d.data(), &[0; 4]);
    assert_eq!(d.dimensions(), dims(2, 2));
}

#[test]
fn from_fn_calls_once_per_cell() {
    let m = Matrix::from_fn(dims(2, 3), || 4u8);
    assert_eq!(m.data(), &[4; 6]);
}

#[test]
fn get_and_set() {
    let mut m = Matrix::from_value(dims(2, 2), 0i64);
    assert_eq!(m.set(MatrixIndex { x: 1, y: 0 }, 5), Ok(()));
    assert_eq!(m.get(MatrixIndex { x: 1, y: 0 }), Ok(&5));
    assert_eq!(m.data(), &[0, 5, 0, 0]);
    assert_eq!(m.set(MatrixIndex { x: 2, y: 0 }, 5), Err(MatrixError::IndexOutOfRange));
    assert_eq!(m.get(MatrixIndex { x: 0, y: 2 }), Err(MatrixError::IndexOutOfRange));
    assert_eq!(m.data(), &[0, 5, 0, 0]);
}

#[test]
fn multiply_rectangular() {
    let a = from_rows(&[&[1, 2, 3], &[4, 5, 6]]);
    let b = from_rows(&[&[7, 8], &[9, 10], &[11, 12]]);
    let c = naive_matrix_multiply(&a, &b).unwrap();
    assert_eq!(c.dimensions(), dims(2, 2));
    assert_eq!(c.data(), &[58, 64, 139, 154]);
    let d = naive_matrix_multiply(&b, &a).unwrap();
    assert_eq!(d.dimensions(), dims(3, 3));
    assert_eq!(d.data(), &[39, 54, 69, 49, 68, 87, 59, 82, 105]);
}

#[test]
fn multiply_by_identity() {
    let a = from_rows(&[&[1, -2, 3], &[4, 5, -6]]);
    assert_eq!(naive_matrix_multiply(&a, &identity(3)), Ok(a.clone()));
    assert_eq!(naive_matrix_multiply(&identity(2), &a), Ok(a));
}

#[test]
fn multiply_dimension_mismatch() {
    let a = from_rows(&[&[1, 2], &[3, 4]]);
    let b = from_rows(&[&[1, 2, 3]]);
    assert_eq!(naive_matrix_multiply(&a, &b), Err(MatrixError::DimensionMismatch));
}

#[test]
fn add_and_sub() {
    let a = from_rows(&[&[1, 2], &[3, 4]]);
    let b = from_rows(&[&[10, -20], &[30, 40]]);
    assert_eq!(a.add(&b), Ok(from_rows(&[&[11, -18], &[33, 44]])));
    assert_eq!(a.add(&b), b.add(&a));
    assert_eq!(a.sub(&b), Ok(from_rows(&[&[-9, 22], &[-27, -36]])));
    assert_eq!(a.add(&b).unwrap().sub(&b), Ok(a.clone()));
}

#[test]
fn add_is_associative() {
    let a = from_rows(&[&[1, 2, 3]]);
    let b = from_rows(&[&[4, -5, 6]]);
    let c = from_rows(&[&[-7, 8, 9]]);
    assert_eq!(a.add(&b).unwrap().add(&c), a.add(&b.add(&c).unwrap()));
}

#[test]
fn add_and_sub_in_place() {
    let mut a = from_rows(&[&[1, 2], &[3, 4]]);
    let b = from_rows(&[&[5, 6], &[7, 8]]);
    assert_eq!(a.add_assign(&b), Ok(()));
    assert_eq!(a.data(), &[6, 8, 10, 12]);
    assert_eq!(a.sub_assign(&b), Ok(()));
    assert_eq!(a.data(), &[1, 2, 3, 4]);
}

#[test]
fn add_and_sub_dimension_mismatch() {
    let mut a = from_rows(&[&[1, 2], &[3, 4]]);
    let b = from_rows(&[&[1, 2, 3, 4]]);
    assert_eq!(a.add(&b), Err(MatrixError::DimensionMismatch));
    assert_eq!(a.sub(&b), Err(MatrixError::DimensionMismatch));
    assert_eq!(a.add_assign(&b), Err(MatrixError::DimensionMismatch));
    assert_eq!(a.sub_assign(&b), Err(MatrixError::DimensionMismatch));
    assert_eq!(a.data(), &[1, 2, 3, 4]);
}

#[test]
fn huge_dimensions_are_insufficient_data() {
    assert_eq!(
        Matrix::from_iterator(dims(usize::MAX, 2), vec![1u8]),
        Err(MatrixError::InsufficientData)
    );
}
