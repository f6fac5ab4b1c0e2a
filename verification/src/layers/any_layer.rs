//! The closed union of the layers, for networks that mix them.
use crate::activation_function::ActivationFunction;
use crate::grid::Grid;
use crate::layers::activation_layer::ActivationLayer;
use crate::layers::activation_layer::ActivationModel;
use crate::layers::convolution_layer::ConvolutionModel;
use crate::layers::convolution_layer::ConvolutionalLayer;
use crate::layers::dense_layer::DenseLayer;
use crate::layers::dense_layer::DenseModel;
use crate::layers::flatten_layer::FlattenLayer;
use crate::layers::flatten_layer::FlattenModel;
use crate::layers::layer_interface::Layer;
use crate::matrix::Matrix;
use crate::scalar::Scalar;
use vstd::prelude::*;

verus! {

/// The state of any one of the layers.
pub enum AnyModel<T, A> {
    Dense(DenseModel<T>),
    Convolutional(ConvolutionModel<T>),
    Activation(ActivationModel<T, A>),
    Flatten(FlattenModel),
}

/// Any one of the layers. Each operation is that of the layer inside.
pub enum AnyLayer<T, A> {
    Dense(DenseLayer<T>),
    Convolutional(ConvolutionalLayer<T>),
    Activation(ActivationLayer<T, A>),
    Flatten(FlattenLayer),
}

impl<T, A> View for AnyLayer<T, A> {
    type V = AnyModel<T, A>;

    open spec fn view(&self) -> AnyModel<T, A> {
        match self {
            AnyLayer::Dense(layer) => AnyModel::Dense(layer@),
            AnyLayer::Convolutional(layer) => AnyModel::Convolutional(layer@),
            AnyLayer::Activation(layer) => AnyModel::Activation(layer@),
            AnyLayer::Flatten(layer) => AnyModel::Flatten(layer@),
        }
    }
}

impl<T: Scalar, A: ActivationFunction<T>> Layer<T> for AnyLayer<T, A> {
    open spec fn accepts(state: AnyModel<T, A>, input: (nat, nat)) -> bool {
        match state {
            AnyModel::Dense(m) => <DenseLayer<T> as Layer<T>>::accepts(m, input),
            AnyModel::Convolutional(m) => <ConvolutionalLayer<T> as Layer<T>>::accepts(m, input),
            AnyModel::Activation(m) => <ActivationLayer<T, A> as Layer<T>>::accepts(m, input),
            AnyModel::Flatten(m) => <FlattenLayer as Layer<T>>::accepts(m, input),
        }
    }

    open spec fn initializes(before: AnyModel<T, A>, input: (nat, nat), after: AnyModel<T, A>) -> bool {
        match (before, after) {
            (AnyModel::Dense(m), AnyModel::Dense(n)) => <DenseLayer<T> as Layer<T>>::initializes(
                m,
                input,
                n,
            ),
            (
                AnyModel::Convolutional(m),
                AnyModel::Convolutional(n),
            ) => <ConvolutionalLayer<T> as Layer<T>>::initializes(m, input, n),
            (
                AnyModel::Activation(m),
                AnyModel::Activation(n),
            ) => <ActivationLayer<T, A> as Layer<T>>::initializes(m, input, n),
            (AnyModel::Flatten(m), AnyModel::Flatten(n)) => <FlattenLayer as Layer<T>>::initializes(
                m,
                input,
                n,
            ),
            _ => false,
        }
    }

    open spec fn ready(state: AnyModel<T, A>) -> bool {
        match state {
            AnyModel::Dense(m) => <DenseLayer<T> as Layer<T>>::ready(m),
            AnyModel::Convolutional(m) => <ConvolutionalLayer<T> as Layer<T>>::ready(m),
            AnyModel::Activation(m) => <ActivationLayer<T, A> as Layer<T>>::ready(m),
            AnyModel::Flatten(m) => <FlattenLayer as Layer<T>>::ready(m),
        }
    }

    open spec fn input_shape(state: AnyModel<T, A>) -> (nat, nat) {
        match state {
            AnyModel::Dense(m) => <DenseLayer<T> as Layer<T>>::input_shape(m),
            AnyModel::Convolutional(m) => <ConvolutionalLayer<T> as Layer<T>>::input_shape(m),
            AnyModel::Activation(m) => <ActivationLayer<T, A> as Layer<T>>::input_shape(m),
            AnyModel::Flatten(m) => <FlattenLayer as Layer<T>>::input_shape(m),
        }
    }

    open spec fn output_shape(state: AnyModel<T, A>) -> (nat, nat) {
        match state {
            AnyModel::Dense(m) => <DenseLayer<T> as Layer<T>>::output_shape(m),
            AnyModel::Convolutional(m) => <ConvolutionalLayer<T> as Layer<T>>::output_shape(m),
            AnyModel::Activation(m) => <ActivationLayer<T, A> as Layer<T>>::output_shape(m),
            AnyModel::Flatten(m) => <FlattenLayer as Layer<T>>::output_shape(m),
        }
    }

    open spec fn primed(state: AnyModel<T, A>) -> bool {
        match state {
            AnyModel::Dense(m) => <DenseLayer<T> as Layer<T>>::primed(m),
            AnyModel::Convolutional(m) => <ConvolutionalLayer<T> as Layer<T>>::primed(m),
            AnyModel::Activation(m) => <ActivationLayer<T, A> as Layer<T>>::primed(m),
            AnyModel::Flatten(m) => <FlattenLayer as Layer<T>>::primed(m),
        }
    }

    open spec fn forward_model(state: AnyModel<T, A>, input: Grid<T>) -> (AnyModel<T, A>, Grid<T>) {
        match state {
            AnyModel::Dense(m) => {
                let (next, output) = <DenseLayer<T> as Layer<T>>::forward_model(m, input);
                (AnyModel::Dense(next), output)
            },
            AnyModel::Convolutional(m) => {
                let (next, output) = <ConvolutionalLayer<T> as Layer<T>>::forward_model(m, input);
                (AnyModel::Convolutional(next), output)
            },
            AnyModel::Activation(m) => {
                let (next, output) = <ActivationLayer<T, A> as Layer<T>>::forward_model(m, input);
                (AnyModel::Activation(next), output)
            },
            AnyModel::Flatten(m) => {
                let (next, output) = <FlattenLayer as Layer<T>>::forward_model(m, input);
                (AnyModel::Flatten(next), output)
            },
        }
    }

    open spec fn backward_model(state: AnyModel<T, A>, gradient: Grid<T>, rate: T) -> (
        AnyModel<T, A>,
        Grid<T>,
    ) {
        match state {
            AnyModel::Dense(m) => {
                let (next, back) = <DenseLayer<T> as Layer<T>>::backward_model(m, gradient, rate);
                (AnyModel::Dense(next), back)
            },
            AnyModel::Convolutional(m) => {
                let (next, back) = <ConvolutionalLayer<T> as Layer<T>>::backward_model(
                    m,
                    gradient,
                    rate,
                );
                (AnyModel::Convolutional(next), back)
            },
            AnyModel::Activation(m) => {
                let (next, back) = <ActivationLayer<T, A> as Layer<T>>::backward_model(
                    m,
                    gradient,
                    rate,
                );
                (AnyModel::Activation(next), back)
            },
            AnyModel::Flatten(m) => {
                let (next, back) = <FlattenLayer as Layer<T>>::backward_model(m, gradient, rate);
                (AnyModel::Flatten(next), back)
            },
        }
    }

    fn accepts_size(&self, input_size: [usize; 2]) -> (ok: bool) {
        match self {
            AnyLayer::Dense(layer) => layer.accepts_size(input_size),
            AnyLayer::Convolutional(layer) => layer.accepts_size(input_size),
            AnyLayer::Activation(layer) => layer.accepts_size(input_size),
            AnyLayer::Flatten(layer) => <FlattenLayer as Layer<T>>::accepts_size(layer, input_size),
        }
    }

    fn initialize(&mut self, input_size: [usize; 2]) {
        match self {
            AnyLayer::Dense(layer) => layer.initialize(input_size),
            AnyLayer::Convolutional(layer) => layer.initialize(input_size),
            AnyLayer::Activation(layer) => layer.initialize(input_size),
            AnyLayer::Flatten(layer) => <FlattenLayer as Layer<T>>::initialize(layer, input_size),
        }
    }

    fn forward(&mut self, inputs: &Matrix<T>) -> (output: Matrix<T>) {
        match self {
            AnyLayer::Dense(layer) => layer.forward(inputs),
            AnyLayer::Convolutional(layer) => layer.forward(inputs),
            AnyLayer::Activation(layer) => layer.forward(inputs),
            AnyLayer::Flatten(layer) => layer.forward(inputs),
        }
    }

    fn backwards(&mut self, output_error: &Matrix<T>, learning_rate: T) -> (input_error: Matrix<T>) {
        match self {
            AnyLayer::Dense(layer) => layer.backwards(output_error, learning_rate),
            AnyLayer::Convolutional(layer) => layer.backwards(output_error, learning_rate),
            AnyLayer::Activation(layer) => layer.backwards(output_error, learning_rate),
            AnyLayer::Flatten(layer) => layer.backwards(output_error, learning_rate),
        }
    }

    fn get_size(&self) -> (size: [usize; 2]) {
        match self {
            AnyLayer::Dense(layer) => layer.get_size(),
            AnyLayer::Convolutional(layer) => layer.get_size(),
            AnyLayer::Activation(layer) => layer.get_size(),
            AnyLayer::Flatten(layer) => <FlattenLayer as Layer<T>>::get_size(layer),
        }
    }
}

} // verus!
