use neural_network::activation_function::ActivationFunction;
use neural_network::activation_function::ReLU;
use neural_network::activation_function::Sigmoid;
use neural_network::activation_function::Tanh;
use neural_network::error::Error;
use neural_network::layers::activation_layer::ActivationLayer;
use neural_network::layers::any_layer::AnyLayer;
use neural_network::layers::dense_layer::DenseLayer;
use neural_network::layers::layer_interface::Layer;
use neural_network::matrix::Matrix;
use neural_network::neural_network::NN;
use neural_network::scalar::Scalar;

#[derive(Clone, Copy, Debug, PartialEq)]
struct Real(f64);

impl Scalar for Real {
    fn null() -> Real {
        Real::zero()
    }

    fn unit() -> Real {
        Real::one()
    }

    fn count(n: usize) -> Real {
        Real::from_count(n)
    }

    fn sample(word: u64) -> Real {
        Real::from_sample(word)
    }

    fn sum(self, rhs: Real) -> Real {
        self.plus(rhs)
    }

    fn diff(self, rhs: Real) -> Real {
        self.minus(rhs)
    }

    fn prod(self, rhs: Real) -> Real {
        self.times(rhs)
    }

    fn quot(self, rhs: Real) -> Real {
        self.over(rhs)
    }

    fn same(self, rhs: Real) -> bool {
        self.equals(rhs)
    }

    fn positive(self) -> bool {
        self.is_positive()
    }

    fn zero() -> Real {
        Real(0.0)
    }

    fn one() -> Real {
        Real(1.0)
    }

    fn from_count(n: usize) -> Real {
        Real(n as f64)
    }

    fn from_sample(word: u64) -> Real {
        Real((word >> 11) as f64 * (1.0 / 9007199254740992.0) * 2.0 - 1.0)
    }

    fn plus(self, rhs: Real) -> Real {
        Real(self.0 + rhs.0)
    }

    fn minus(self, rhs: Real) -> Real {
        Real(self.0 - rhs.0)
    }

    fn times(self, rhs: Real) -> Real {
        Real(self.0 * rhs.0)
    }

    fn over(self, rhs: Real) -> Real {
        Real(self.0 / rhs.0)
    }

    fn equals(self, rhs: Real) -> bool {
        self.0 == rhs.0
    }

    fn is_positive(self) -> bool {
        self.0 > 0.0
    }
}

impl ActivationFunction<Real> for Sigmoid {
    fn value(&self, x: Real) -> Real {
        self.function(x)
    }

    fn slope(&self, x: Real) -> Real {
        self.derivative(x)
    }

    fn function(&self, x: Real) -> Real {
        Sigmoid::function_from(Real((-x.0).exp()))
    }

    fn derivative(&self, x: Real) -> Real {
        Sigmoid::derivative_from(self.function(x))
    }
}

impl ActivationFunction<Real> for Tanh {
    fn value(&self, x: Real) -> Real {
        self.function(x)
    }

    fn slope(&self, x: Real) -> Real {
        self.derivative(x)
    }

    fn function(&self, x: Real) -> Real {
        Real(x.0.tanh())
    }

    fn derivative(&self, x: Real) -> Real {
        Tanh::derivative_from(self.function(x))
    }
}

fn row(values: &[f64]) -> Matrix<Real> {
    Matrix::from_vec(values.iter().map(|v| Real(*v)).collect(), 1, values.len()).unwrap()
}

#[test]
fn xor_network_learns() {
    let mut net: NN<Real, AnyLayer<Real, Sigmoid>> = NN::new([1, 2], Real(0.5));
    net.add(AnyLayer::Dense(DenseLayer::new(4)));
    net.add(AnyLayer::Activation(ActivationLayer::new(Sigmoid)));
    net.add(AnyLayer::Dense(DenseLayer::new(1)));
    net.add(AnyLayer::Activation(ActivationLayer::new(Sigmoid)));
    let x_train = vec![row(&[0.0, 0.0]), row(&[0.0, 1.0]), row(&[1.0, 0.0]), row(&[1.0, 1.0])];
    let y_train = vec![row(&[0.0]), row(&[1.0]), row(&[1.0]), row(&[0.0])];
    let losses = net.train(&x_train, &y_train, 5000).unwrap();
    assert_eq!(losses.len(), 5000);
    let early: f64 = losses[..100].iter().map(|l| l.0).sum::<f64>() / 100.0;
    let late: f64 = losses[4900..].iter().map(|l| l.0).sum::<f64>() / 100.0;
    assert!(late <= early + 0.01);
}

#[test]
fn train_rejects_unequal_counts() {
    let mut net: NN<Real, AnyLayer<Real, ReLU>> = NN::new([1, 2], Real(0.1));
    net.add(AnyLayer::Dense(DenseLayer::new(1)));
    let x_train = vec![row(&[0.0, 0.0]), row(&[0.0, 1.0])];
    let y_train = vec![row(&[0.0])];
    assert_eq!(net.train(&x_train, &y_train, 3), Err(Error::DatasetSizeMismatch));
}

#[test]
fn dense_layer_reports_its_size() {
    let mut layer: DenseLayer<Real> = DenseLayer::new(3);
    layer.initialize([1, 5]);
    assert_eq!(layer.get_size(), [1, 3]);
    assert_eq!(layer.get_weights().get_num_rows(), 5);
    assert_eq!(layer.get_weights().get_num_cols(), 3);
}

#[test]
fn xor_network_tells_the_classes_apart() {
    let mut best = f64::INFINITY;
    let mut outputs = vec![0.0; 4];
    for _ in 0..8 {
        let mut net: NN<Real, AnyLayer<Real, Sigmoid>> = NN::new([1, 2], Real(0.5));
        net.add(AnyLayer::Dense(DenseLayer::new(4)));
        net.add(AnyLayer::Activation(ActivationLayer::new(Sigmoid)));
        net.add(AnyLayer::Dense(DenseLayer::new(1)));
        net.add(AnyLayer::Activation(ActivationLayer::new(Sigmoid)));
        let x_train = vec![row(&[0.0, 0.0]), row(&[0.0, 1.0]), row(&[1.0, 0.0]), row(&[1.0, 1.0])];
        let y_train = vec![row(&[0.0]), row(&[1.0]), row(&[1.0]), row(&[0.0])];
        let losses = net.train(&x_train, &y_train, 5000).unwrap();
        let last = losses[losses.len() - 1].0;
        if last < best {
            best = last;
            outputs = x_train.iter().map(|x| net.predict(x).get(0, 0).0).collect();
        }
    }
    assert!(outputs[1] > outputs[0]);
    assert!(outputs[1] > outputs[3]);
    assert!(outputs[2] > outputs[0]);
    assert!(outputs[2] > outputs[3]);
}

fn mean_squared_error(x: &Matrix<Real>, w: &Matrix<Real>, b: &Matrix<Real>, y: &[f64]) -> f64 {
    let mut out = Matrix::mul(x, w).unwrap();
    out.add_matrix(b).unwrap();
    let mut total = 0.0;
    for j in 0..y.len() {
        let d = y[j] - out.get(0, j).0;
        total += d * d;
    }
    total / y.len() as f64
}

#[test]
fn dense_gradient_matches_the_slope_of_the_loss() {
    let mut layer: DenseLayer<Real> = DenseLayer::new(2);
    layer.initialize([1, 3]);
    let w = layer.get_weights().clone();
    let b = layer.get_biases().clone();
    let x = row(&[0.5, -0.3, 0.8]);
    let y = [0.2, 0.7];
    let out = layer.forward(&x);
    let gradient = row(&[
        -2.0 * (y[0] - out.get(0, 0).0) / 2.0,
        -2.0 * (y[1] - out.get(0, 1).0) / 2.0,
    ]);
    let rate = 0.125;
    layer.backwards(&gradient, Real(rate));
    let epsilon = 1e-6;
    for i in 0..3 {
        for j in 0..2 {
            let analytic = (w.get(i, j).0 - layer.get_weights().get(i, j).0) / rate;
            let mut up = w.clone();
            up.set(i, j, Real(w.get(i, j).0 + epsilon));
            let mut down = w.clone();
            down.set(i, j, Real(w.get(i, j).0 - epsilon));
            let numeric = (mean_squared_error(&x, &up, &b, &y) - mean_squared_error(&x, &down, &b, &y))
                / (2.0 * epsilon);
            assert!((analytic - numeric).abs() < 1e-6);
        }
    }
}

#[test]
fn loss_is_the_sum_of_the_squared_differences() {
    let mut net: NN<Real, AnyLayer<Real, Sigmoid>> = NN::new([1, 2], Real(0.0));
    net.add(AnyLayer::Dense(DenseLayer::new(2)));
    let x = row(&[0.25, -1.5]);
    let p = net.predict(&x);
    let y = [0.5, -2.0];
    let expected = (y[0] - p.get(0, 0).0) * (y[0] - p.get(0, 0).0)
        + (y[1] - p.get(0, 1).0) * (y[1] - p.get(0, 1).0);
    let losses = net.train(&vec![x], &vec![row(&y)], 2).unwrap();
    assert_eq!(losses, vec![Real(0.0 + expected), Real(0.0 + expected)]);
}

#[test]
fn random_weights_lie_in_the_unit_range() {
    let m: Matrix<Real> = Matrix::new_random(10, 10);
    assert!(m.get_data().iter().all(|v| -1.0 <= v.0 && v.0 < 1.0));
    let first = m.get(0, 0);
    assert!(m.get_data().iter().any(|v| *v != first));
}

#[test]
fn sigmoid_is_one_half_at_zero() {
    assert_eq!(Sigmoid.function(Real(0.0)), Real(0.5));
    assert_eq!(Sigmoid.derivative(Real(0.0)), Real(0.25));
    let s = 1.0 / (1.0 + (-2.0f64).exp());
    assert_eq!(Sigmoid.function(Real(2.0)), Real(s));
    assert_eq!(Sigmoid.derivative(Real(2.0)), Real(s * (1.0 - s)));
}

#[test]
fn tanh_has_slope_one_at_zero() {
    assert_eq!(Tanh.function(Real(0.0)), Real(0.0));
    assert_eq!(Tanh.derivative(Real(0.0)), Real(1.0));
    let t = 0.5f64.tanh();
    assert_eq!(Tanh.derivative(Real(0.5)), Real(1.0 - t * t));
}

#[test]
fn tanh_layer_passes_gradients_back() {
    let mut layer: ActivationLayer<Real, Tanh> = ActivationLayer::new(Tanh);
    layer.initialize([1, 2]);
    let out = layer.forward(&row(&[0.0, 0.5]));
    assert_eq!(out.get(0, 0), Real(0.0));
    assert_eq!(out.get(0, 1), Real(0.5f64.tanh()));
    let back = layer.backwards(&row(&[3.0, 2.0]), Real(0.1));
    let t = 0.5f64.tanh();
    assert_eq!(back.get(0, 0), Real(3.0));
    assert_eq!(back.get(0, 1), Real((1.0 - t * t) * 2.0));
}

#[test]
fn dense_layer_steps_by_the_learning_rate() {
    let mut layer: DenseLayer<Real> = DenseLayer::new(2);
    layer.initialize([1, 2]);
    let weights = Matrix::from_vec(vec![Real(1.0), Real(2.0), Real(3.0), Real(4.0)], 2, 2).unwrap();
    layer.set_parameters(weights, row(&[5.0, 6.0])).unwrap();
    let out = layer.forward(&row(&[2.0, -1.0]));
    assert_eq!(out.get_data(), &vec![Real(4.0), Real(6.0)]);
    let back = layer.backwards(&row(&[1.0, 3.0]), Real(0.5));
    assert_eq!(back.get_data(), &vec![Real(7.0), Real(15.0)]);
    assert_eq!(layer.get_weights().get_data(), &vec![Real(0.0), Real(-1.0), Real(3.5), Real(5.5)]);
    assert_eq!(layer.get_biases().get_data(), &vec![Real(4.5), Real(4.5)]);
}
