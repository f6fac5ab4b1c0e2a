//! The layer that applies a scalar function to every cell.
use crate::activation_function::ActivationFunction;
use crate::grid::Grid;
use crate::layers::layer_interface::shape_of;
use crate::layers::layer_interface::Layer;
use crate::matrix::Matrix;
use crate::scalar::Scalar;
use vstd::prelude::*;

verus! {

/// The state of an activation layer.
pub struct ActivationModel<T, A> {
    pub function: A,
    pub last_input: Grid<T>,
    /// The shape of the input, which is that of the output.
    pub size: (nat, nat),
}

/// A layer that applies the function `A` to every cell.
pub struct ActivationLayer<T, A> {
    activation_function: A,
    last_input: Matrix<T>,
    size: [usize; 2],
}

impl<T, A> View for ActivationLayer<T, A> {
    type V = ActivationModel<T, A>;

    closed spec fn view(&self) -> ActivationModel<T, A> {
        ActivationModel {
            function: self.activation_function,
            last_input: self.last_input@,
            size: shape_of(self.size),
        }
    }
}

impl<T: Scalar, A: ActivationFunction<T>> ActivationLayer<T, A> {
    /// A layer for `activation_function` that is yet to be initialized.
    pub fn new(activation_function: A) -> (layer: ActivationLayer<T, A>)
        ensures
            layer@ == (ActivationModel {
                function: activation_function,
                last_input: Grid::<T>::zeros(0, 0),
                size: (0, 0),
            }),
    {
        ActivationLayer { activation_function, last_input: Matrix::new(0, 0), size: [0, 0] }
    }

    /// The input of the last forward pass.
    pub fn get_last_input(&self) -> (input: &Matrix<T>)
        ensures
            input@ == self@.last_input,
    {
        &self.last_input
    }
}

impl<T: Scalar, A: ActivationFunction<T>> Layer<T> for ActivationLayer<T, A> {
    open spec fn accepts(state: ActivationModel<T, A>, input: (nat, nat)) -> bool {
        true
    }

    open spec fn initializes(
        before: ActivationModel<T, A>,
        input: (nat, nat),
        after: ActivationModel<T, A>,
    ) -> bool {
        after == (ActivationModel { size: input, ..before })
    }

    open spec fn ready(state: ActivationModel<T, A>) -> bool {
        true
    }

    open spec fn input_shape(state: ActivationModel<T, A>) -> (nat, nat) {
        state.size
    }

    open spec fn output_shape(state: ActivationModel<T, A>) -> (nat, nat) {
        state.size
    }

    open spec fn primed(state: ActivationModel<T, A>) -> bool {
        &&& state.last_input.wf()
        &&& state.last_input.rows == state.size.0
        &&& state.last_input.cols == state.size.1
    }

    open spec fn forward_model(state: ActivationModel<T, A>, input: Grid<T>) -> (
        ActivationModel<T, A>,
        Grid<T>,
    ) {
        (
            ActivationModel { last_input: input, ..state },
            input.mapped(|x: T| state.function.value(x)),
        )
    }

    open spec fn backward_model(state: ActivationModel<T, A>, gradient: Grid<T>, rate: T) -> (
        ActivationModel<T, A>,
        Grid<T>,
    ) {
        (state, state.last_input.mapped(|x: T| state.function.slope(x)).hadamard(gradient))
    }

    fn accepts_size(&self, input_size: [usize; 2]) -> (ok: bool) {
        true
    }

    fn initialize(&mut self, input_size: [usize; 2]) {
        self.size = input_size;
    }

    fn forward(&mut self, inputs: &Matrix<T>) -> (output: Matrix<T>) {
        self.last_input = inputs.clone();
        let output = self.activation_function.forward(inputs);
        proof {
            assert(output@.cells =~= inputs@.mapped(|x: T| self@.function.value(x)).cells);
        }
        output
    }

    fn backwards(&mut self, output_error: &Matrix<T>, _learning_rate: T) -> (input_error: Matrix<T>) {
        let mut input_error = self.activation_function.backwards(&self.last_input);
        proof {
            assert(input_error@.cells =~= self@.last_input.mapped(
                |x: T| self@.function.slope(x),
            ).cells);
        }
        input_error.elementwise_mul(output_error).unwrap();
        input_error
    }

    fn get_size(&self) -> (size: [usize; 2]) {
        self.size
    }
}

} // verus!
