//! The layer that lays a matrix out as a single row.
use crate::grid::Grid;
use crate::layers::layer_interface::shape_of;
use crate::layers::layer_interface::Layer;
use crate::matrix::Matrix;
use crate::scalar::Scalar;
use vstd::prelude::*;

verus! {

/// The state of a flatten layer: the two shapes between which it moves cells.
pub struct FlattenModel {
    pub input: (nat, nat),
    pub output: (nat, nat),
}

/// A layer that lays its input out as one row.
pub struct FlattenLayer {
    input_size: [usize; 2],
    output_size: [usize; 2],
}

impl View for FlattenLayer {
    type V = FlattenModel;

    closed spec fn view(&self) -> FlattenModel {
        FlattenModel { input: shape_of(self.input_size), output: shape_of(self.output_size) }
    }
}

impl FlattenLayer {
    /// A layer that is yet to be initialized.
    pub fn new() -> (layer: FlattenLayer)
        ensures
            layer@ == (FlattenModel { input: (0, 0), output: (0, 0) }),
    {
        FlattenLayer { input_size: [0, 0], output_size: [0, 0] }
    }
}

impl<T: Scalar> Layer<T> for FlattenLayer {
    open spec fn accepts(state: FlattenModel, input: (nat, nat)) -> bool {
        input.0 * input.1 <= usize::MAX
    }

    open spec fn initializes(before: FlattenModel, input: (nat, nat), after: FlattenModel) -> bool {
        after == (FlattenModel { input, output: (1, input.0 * input.1) })
    }

    open spec fn ready(state: FlattenModel) -> bool {
        state.output == (1nat, state.input.0 * state.input.1)
    }

    open spec fn input_shape(state: FlattenModel) -> (nat, nat) {
        state.input
    }

    open spec fn output_shape(state: FlattenModel) -> (nat, nat) {
        state.output
    }

    open spec fn primed(state: FlattenModel) -> bool {
        true
    }

    open spec fn forward_model(state: FlattenModel, input: Grid<T>) -> (FlattenModel, Grid<T>) {
        (state, input.reshaped(state.output.0, state.output.1))
    }

    open spec fn backward_model(state: FlattenModel, gradient: Grid<T>, rate: T) -> (
        FlattenModel,
        Grid<T>,
    ) {
        (state, gradient.reshaped(state.input.0, state.input.1))
    }

    fn accepts_size(&self, input_size: [usize; 2]) -> (ok: bool) {
        input_size[0].checked_mul(input_size[1]).is_some()
    }

    fn initialize(&mut self, input_size: [usize; 2]) {
        self.input_size = input_size;
        self.output_size = [1, input_size[0] * input_size[1]];
    }

    fn forward(&mut self, inputs: &Matrix<T>) -> (output: Matrix<T>) {
        proof {
            let cells = inputs@.rows * inputs@.cols;
            assert(1 * cells == cells) by (nonlinear_arith);
        }
        inputs.reshape(self.output_size[0], self.output_size[1])
    }

    fn backwards(&mut self, output_error: &Matrix<T>, _learning_rate: T) -> (input_error: Matrix<T>) {
        proof {
            let cells = self@.input.0 * self@.input.1;
            assert(1 * cells == cells) by (nonlinear_arith);
        }
        output_error.reshape(self.input_size[0], self.input_size[1])
    }

    fn get_size(&self) -> (size: [usize; 2]) {
        self.output_size
    }
}

} // verus!
