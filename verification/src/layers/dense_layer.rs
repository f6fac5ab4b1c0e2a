//! The fully connected layer: a row vector times a weight matrix, plus a bias.
use crate::error::Error;
use crate::grid::Grid;
use crate::layers::layer_interface::shape_of;
use crate::layers::layer_interface::Layer;
use crate::matrix::Matrix;
use crate::scalar::Scalar;
use vstd::prelude::*;

verus! {

/// The state of a dense layer.
pub struct DenseModel<T> {
    /// The shape of the output: one row of as many cells as the layer has units.
    pub size: (nat, nat),
    /// The shape of the input.
    pub input: (nat, nat),
    pub weights: Grid<T>,
    pub biases: Grid<T>,
    pub last_input: Grid<T>,
}

/// A fully connected layer.
pub struct DenseLayer<T> {
    size: [usize; 2],
    input_size: [usize; 2],
    weights: Matrix<T>,
    biases: Matrix<T>,
    last_input: Matrix<T>,
}

impl<T> View for DenseLayer<T> {
    type V = DenseModel<T>;

    closed spec fn view(&self) -> DenseModel<T> {
        DenseModel {
            size: shape_of(self.size),
            input: shape_of(self.input_size),
            weights: self.weights@,
            biases: self.biases@,
            last_input: self.last_input@,
        }
    }
}

impl<T: Scalar> DenseLayer<T> {
    /// A layer of `size` units that is yet to be initialized.
    pub fn new(size: usize) -> (layer: DenseLayer<T>)
        ensures
            layer@ == (DenseModel {
                size: (1, size as nat),
                input: (0, 0),
                weights: Grid::<T>::zeros(0, 0),
                biases: Grid::<T>::zeros(0, 0),
                last_input: Grid::<T>::zeros(0, 0),
            }),
    {
        DenseLayer {
            size: [1, size],
            input_size: [0, 0],
            weights: Matrix::new(0, 0),
            biases: Matrix::new(0, 0),
            last_input: Matrix::new(0, 0),
        }
    }

    /// Puts the given parameters in place of the layer's own, where they have
    /// the shapes of the layer's own: as many rows of weights as the input
    /// has cells, and a column of weights and a bias for each unit.
    pub fn set_parameters(&mut self, weights: Matrix<T>, biases: Matrix<T>) -> (result: Result<
        (),
        Error,
    >)
        ensures
            match result {
                Ok(_) => {
                    &&& Self::fits(old(self)@, weights@, biases@)
                    &&& final(self)@ == (DenseModel { weights: weights@, biases: biases@, ..old(self)@ })
                },
                Err(e) => {
                    &&& !Self::fits(old(self)@, weights@, biases@)
                    &&& e == Error::ShapeMismatch
                    &&& final(self)@ == old(self)@
                },
            },
    {
        if weights.is_well_formed() && biases.is_well_formed() && weights.get_num_rows()
            == self.input_size[1] && weights.get_num_cols() == self.size[1] && biases.get_num_rows()
            == 1 && biases.get_num_cols() == self.size[1] {
            self.weights = weights;
            self.biases = biases;
            Ok(())
        } else {
            Err(Error::ShapeMismatch)
        }
    }

    /// Whether the parameters have the shapes that the layer's shapes ask for.
    pub open spec fn fits(state: DenseModel<T>, weights: Grid<T>, biases: Grid<T>) -> bool {
        &&& weights.wf()
        &&& weights.rows == state.input.1
        &&& weights.cols == state.size.1
        &&& biases.wf()
        &&& biases.rows == 1
        &&& biases.cols == state.size.1
    }

    /// The weight matrix, one row per input cell and one column per unit.
    pub fn get_weights(&self) -> (weights: &Matrix<T>)
        ensures
            weights@ == self@.weights,
    {
        &self.weights
    }

    /// The bias, a row of one cell per unit.
    pub fn get_biases(&self) -> (biases: &Matrix<T>)
        ensures
            biases@ == self@.biases,
    {
        &self.biases
    }
}

impl<T: Scalar> Layer<T> for DenseLayer<T> {
    open spec fn accepts(state: DenseModel<T>, input: (nat, nat)) -> bool {
        input.0 == 1 && state.size.0 == 1
    }

    open spec fn initializes(before: DenseModel<T>, input: (nat, nat), after: DenseModel<T>) -> bool {
        &&& after.size == before.size
        &&& after.input == input
        &&& after.last_input == before.last_input
        &&& exists|words: Seq<u64>|
            words.len() == input.1 * before.size.1 && after.weights == Grid::<T>::sampled(
                words,
                input.1,
                before.size.1,
            )
        &&& exists|words: Seq<u64>|
            words.len() == 1 * before.size.1 && after.biases == Grid::<T>::sampled(
                words,
                1,
                before.size.1,
            )
    }

    open spec fn ready(state: DenseModel<T>) -> bool {
        &&& state.size.0 == 1
        &&& state.input.0 == 1
        &&& Self::fits(state, state.weights, state.biases)
    }

    open spec fn input_shape(state: DenseModel<T>) -> (nat, nat) {
        state.input
    }

    open spec fn output_shape(state: DenseModel<T>) -> (nat, nat) {
        state.size
    }

    open spec fn primed(state: DenseModel<T>) -> bool {
        &&& state.last_input.wf()
        &&& state.last_input.rows == state.input.0
        &&& state.last_input.cols == state.input.1
    }

    open spec fn forward_model(state: DenseModel<T>, input: Grid<T>) -> (DenseModel<T>, Grid<T>) {
        (
            DenseModel { last_input: input, ..state },
            input.product(state.weights).plus(state.biases),
        )
    }

    open spec fn backward_model(state: DenseModel<T>, gradient: Grid<T>, rate: T) -> (
        DenseModel<T>,
        Grid<T>,
    ) {
        let weights_gradient = state.last_input.transposed().product(gradient);
        (
            DenseModel {
                weights: state.weights.minus(weights_gradient.times_scalar(rate)),
                biases: state.biases.minus(gradient.times_scalar(rate)),
                ..state
            },
            gradient.product(state.weights.transposed()),
        )
    }

    fn accepts_size(&self, input_size: [usize; 2]) -> (ok: bool) {
        input_size[0] == 1 && self.size[0] == 1
    }

    fn initialize(&mut self, input_size: [usize; 2]) {
        self.input_size = input_size;
        self.weights = Matrix::new_random(self.input_size[1], self.size[1]);
        self.biases = Matrix::new_random(1, self.size[1]);
    }

    fn forward(&mut self, inputs: &Matrix<T>) -> (output: Matrix<T>) {
        self.last_input = inputs.clone();
        let mut output = Matrix::mul(inputs, &self.weights).unwrap();
        output.add_matrix(&self.biases).unwrap();
        output
    }

    fn backwards(&mut self, output_error: &Matrix<T>, learning_rate: T) -> (input_error: Matrix<T>) {
        let input_error = Matrix::mul(output_error, &Matrix::transpose(&self.weights)).unwrap();
        let mut weights_error = Matrix::mul(&Matrix::transpose(&self.last_input), output_error).unwrap();
        weights_error.mul_scalar(learning_rate);
        self.weights.sub_matrix(&weights_error).unwrap();
        let mut biases_error = output_error.clone();
        biases_error.mul_scalar(learning_rate);
        self.biases.sub_matrix(&biases_error).unwrap();
        input_error
    }

    fn get_size(&self) -> (size: [usize; 2]) {
        self.size
    }
}

} // verus!
