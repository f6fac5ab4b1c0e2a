//! What every stage of a network offers: a forward pass, a backward pass,
//! and an initialization against the shape that precedes it.
use crate::grid::Grid;
use crate::matrix::Matrix;
use crate::scalar::Scalar;
use vstd::prelude::*;

verus! {

/// A shape as a pair of numbers: rows, then columns.
pub open spec fn shape_of(size: [usize; 2]) -> (nat, nat) {
    (size[0] as nat, size[1] as nat)
}

/// A stage of a network. Its view is its mathematical state: the shapes it
/// was set up with, its parameters, and the input it saw last. The
/// specification functions say, over that state, what the passes compute.
pub trait Layer<T: Scalar>: View + Sized {
    /// Whether the layer can follow a stage whose output has the shape `input`.
    spec fn accepts(state: Self::V, input: (nat, nat)) -> bool;

    /// Whether `after` is a state that initializing `before` against the
    /// shape `input` may lead to.
    spec fn initializes(before: Self::V, input: (nat, nat), after: Self::V) -> bool;

    /// Whether the layer has been initialized and its parameters fit its shapes.
    spec fn ready(state: Self::V) -> bool;

    /// The shape of the inputs that the layer takes.
    spec fn input_shape(state: Self::V) -> (nat, nat);

    /// The shape of the outputs that the layer gives.
    spec fn output_shape(state: Self::V) -> (nat, nat);

    /// Whether the layer remembers an input of its input shape.
    spec fn primed(state: Self::V) -> bool;

    /// The state after a forward pass on `input`, and the output of that pass.
    spec fn forward_model(state: Self::V, input: Grid<T>) -> (Self::V, Grid<T>);

    /// The state after a backward pass on `gradient`, the gradient of the
    /// loss in the layer's last output, and the gradient in its last input.
    spec fn backward_model(state: Self::V, gradient: Grid<T>, rate: T) -> (Self::V, Grid<T>);

    /// Whether the layer can follow a stage whose output has the shape
    /// `input_size`.
    fn accepts_size(&self, input_size: [usize; 2]) -> (ok: bool)
        ensures
            ok == Self::accepts(self@, shape_of(input_size)),
    ;

    /// Fixes the input shape and sets up the parameters and the output shape.
    fn initialize(&mut self, input_size: [usize; 2])
        requires
            Self::accepts(old(self)@, shape_of(input_size)),
        ensures
            Self::initializes(old(self)@, shape_of(input_size), final(self)@),
            Self::ready(final(self)@),
            Self::input_shape(final(self)@) == shape_of(input_size),
    ;

    /// The output for `inputs`, which the layer remembers from now on.
    fn forward(&mut self, inputs: &Matrix<T>) -> (output: Matrix<T>)
        requires
            Self::ready(old(self)@),
            inputs.wf(),
            (inputs@.rows, inputs@.cols) == Self::input_shape(old(self)@),
        ensures
            (final(self)@, output@) == Self::forward_model(old(self)@, inputs@),
            Self::ready(final(self)@),
            Self::primed(final(self)@),
            Self::input_shape(final(self)@) == Self::input_shape(old(self)@),
            Self::output_shape(final(self)@) == Self::output_shape(old(self)@),
            output.wf(),
            (output@.rows, output@.cols) == Self::output_shape(old(self)@),
    ;

    /// Moves the parameters one step of length `learning_rate` against their
    /// gradient, and hands back the gradient of the loss in the last input.
    fn backwards(&mut self, output_error: &Matrix<T>, learning_rate: T) -> (input_error: Matrix<T>)
        requires
            Self::ready(old(self)@),
            Self::primed(old(self)@),
            output_error.wf(),
            (output_error@.rows, output_error@.cols) == Self::output_shape(old(self)@),
        ensures
            (final(self)@, input_error@) == Self::backward_model(
                old(self)@,
                output_error@,
                learning_rate,
            ),
            Self::ready(final(self)@),
            Self::primed(final(self)@),
            Self::input_shape(final(self)@) == Self::input_shape(old(self)@),
            Self::output_shape(final(self)@) == Self::output_shape(old(self)@),
            input_error.wf(),
            (input_error@.rows, input_error@.cols) == Self::input_shape(old(self)@),
    ;

    /// The shape of the outputs.
    fn get_size(&self) -> (size: [usize; 2])
        ensures
            shape_of(size) == Self::output_shape(self@),
    ;
}

} // verus!
