use neural_network::matrix::Matrix;
use neural_network::scalar::Scalar;

#[derive(Clone, Copy, Debug, PartialEq)]
struct Real(f64);

impl Scalar for Real {
    fn null() -> Real {
        Real::zero()
    }

    fn unit() -> Real {
        Real::one()
    }

    fn count(n: usize) -> Real {
        Real::from_count(n)
    }

    fn sample(word: u64) -> Real {
        Real::from_sample(word)
    }

    fn sum(self, rhs: Real) -> Real {
        self.plus(rhs)
    }

    fn diff(self, rhs: Real) -> Real {
        self.minus(rhs)
    }

    fn prod(self, rhs: Real) -> Real {
        self.times(rhs)
    }

    fn quot(self, rhs: Real) -> Real {
        self.over(rhs)
    }

    fn same(self, rhs: Real) -> bool {
        self.equals(rhs)
    }

    fn positive(self) -> bool {
        self.is_positive()
    }

    fn zero() -> Real {
        Real(0.0)
    }

    fn one() -> Real {
        Real(1.0)
    }

    fn from_count(n: usize) -> Real {
        Real(n as f64)
    }

    fn from_sample(word: u64) -> Real {
        Real((word >> 11) as f64 * (1.0 / 9007199254740992.0) * 2.0 - 1.0)
    }

    fn plus(self, rhs: Real) -> Real {
        Real(self.0 + rhs.0)
    }

    fn minus(self, rhs: Real) -> Real {
        Real(self.0 - rhs.0)
    }

    fn times(self, rhs: Real) -> Real {
        Real(self.0 * rhs.0)
    }

    fn over(self, rhs: Real) -> Real {
        Real(self.0 / rhs.0)
    }

    fn equals(self, rhs: Real) -> bool {
        self.0 == rhs.0
    }

    fn is_positive(self) -> bool {
        self.0 > 0.0
    }
}

fn reals(values: Vec<f64>) -> Vec<Real> {
    values.into_iter().map(Real).collect()
}

#[test]
fn test_basic() {
    let matrix = Matrix::from_vec((1..10).map(|i| Real(i as f64)).collect(), 3, 3).unwrap();
    let kernel = Matrix::from_vec((10..14).map(|i| Real(i as f64)).collect(), 2, 2).unwrap();
    let result = Matrix::convolve(&matrix, &kernel, 1, 0);
    let expected = Matrix::from_vec(reals(vec![145.0, 191.0, 283.0, 329.0]), 2, 2).unwrap();
    assert!(result.equals(&expected));
}

#[test]
fn test_padding() {
    let matrix = Matrix::from_vec(reals(vec![5.0, 4.0, 1.0, 2.0, 3.0, 4.0]), 2, 3).unwrap();
    let kernel = Matrix::from_vec(reals(vec![1.0, 2.0, 3.0, 4.0]), 2, 2).unwrap();
    let result = Matrix::convolve(&matrix, &kernel, 1, 1);
    let expected = Matrix::from_vec(
        reals(vec![20.0, 31.0, 16.0, 3.0, 18.0, 31.0, 31.0, 13.0, 4.0, 8.0, 11.0, 4.0]),
        3,
        4,
    )
    .unwrap();
    assert!(result.equals(&expected));
}

#[test]
fn test_stride() {
    let matrix = Matrix::from_vec((0..16).map(|i| Real(i as f64)).collect(), 4, 4).unwrap();
    let kernel = Matrix::from_vec((0..4).map(|i| Real(i as f64)).collect(), 2, 2).unwrap();
    let result = Matrix::convolve(&matrix, &kernel, 2, 0);
    let expected = Matrix::from_vec(reals(vec![24.0, 36.0, 72.0, 84.0]), 2, 2).unwrap();
    assert!(result.equals(&expected));
}

#[test]
fn convolution_of_integers() {
    let matrix: Matrix<i64> = Matrix::from_vec((1..10).collect(), 3, 3).unwrap();
    let kernel: Matrix<i64> = Matrix::from_vec((10..14).collect(), 2, 2).unwrap();
    let result = Matrix::convolve(&matrix, &kernel, 1, 0);
    assert_eq!(result.get_data(), &vec![145, 191, 283, 329]);
}
