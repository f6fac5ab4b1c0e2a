//! The network: an ordered chain of layers, inference through it, and
//! training by gradient descent on the squared error, one sample at a time.
use crate::error::Error;
use crate::grid::Grid;
use crate::layers::layer_interface::shape_of;
use crate::layers::layer_interface::Layer;
use crate::matrix::Matrix;
use crate::scalar::Scalar;
use vstd::prelude::*;

verus! {

/// The state of a network: the states of its layers in order, the learning
/// rate, and the chain of shapes, which starts at the shape of the input and
/// has the output shape of each layer after it.
pub struct NetModel<T, M> {
    pub layers: Seq<M>,
    pub learning_rate: T,
    pub shapes: Seq<(nat, nat)>,
}

/// The states of the layers after a forward pass through all of them in
/// order, and the output of the last.
pub open spec fn feed<T: Scalar, L: Layer<T>>(layers: Seq<L::V>, input: Grid<T>) -> (
    Seq<L::V>,
    Grid<T>,
)
    decreases layers.len(),
{
    if layers.len() == 0 {
        (layers, input)
    } else {
        let (front, middle) = feed::<T, L>(layers.drop_last(), input);
        let (last, output) = L::forward_model(layers.last(), middle);
        (front.push(last), output)
    }
}

/// The states of the layers after a backward pass through all of them in
/// reverse order, and the gradient that the first hands back.
pub open spec fn feed_back<T: Scalar, L: Layer<T>>(layers: Seq<L::V>, gradient: Grid<T>, rate: T) -> (
    Seq<L::V>,
    Grid<T>,
)
    decreases layers.len(),
{
    if layers.len() == 0 {
        (layers, gradient)
    } else {
        let (last, middle) = L::backward_model(layers.last(), gradient, rate);
        let (front, input_gradient) = feed_back::<T, L>(layers.drop_last(), middle, rate);
        (front.push(last), input_gradient)
    }
}

/// The sum of the squared differences of the first `n` cells of `target` and
/// `prediction`.
pub open spec fn squared_error<T: Scalar>(target: Grid<T>, prediction: Grid<T>, n: nat) -> T
    decreases n,
{
    if n == 0 {
        T::null()
    } else {
        let difference = target.cells[n - 1].diff(prediction.cells[n - 1]);
        squared_error(target, prediction, (n - 1) as nat).sum(difference.prod(difference))
    }
}

/// The factor of the loss gradient: minus two over `size`.
pub open spec fn gradient_factor<T: Scalar>(size: T) -> T {
    T::null().diff(T::count(2)).quot(size)
}

/// The gradient of the mean squared error in the prediction: minus two times
/// the difference of target and prediction, over the number of output cells.
pub open spec fn loss_gradient<T: Scalar>(target: Grid<T>, prediction: Grid<T>) -> Grid<T> {
    target.minus(prediction).times_scalar(
        gradient_factor(T::count(prediction.cells.len() as usize)),
    )
}

/// The states of the layers after one step of training on one sample, and
/// the loss on that sample before the step.
pub open spec fn learn<T: Scalar, L: Layer<T>>(
    layers: Seq<L::V>,
    input: Grid<T>,
    target: Grid<T>,
    rate: T,
) -> (Seq<L::V>, T) {
    let (fed, prediction) = feed::<T, L>(layers, input);
    let (trained, _) = feed_back::<T, L>(fed, loss_gradient(target, prediction), rate);
    (trained, squared_error(target, prediction, prediction.cells.len()))
}

/// The states of the layers after training on the first `n` samples in
/// order, and the sum of the losses on them.
pub open spec fn pass<T: Scalar, L: Layer<T>>(
    layers: Seq<L::V>,
    inputs: Seq<Grid<T>>,
    targets: Seq<Grid<T>>,
    rate: T,
    n: nat,
) -> (Seq<L::V>, T)
    decreases n,
{
    if n == 0 {
        (layers, T::null())
    } else {
        let (before, total) = pass::<T, L>(layers, inputs, targets, rate, (n - 1) as nat);
        let (after, loss) = learn::<T, L>(before, inputs[n - 1], targets[n - 1], rate);
        (after, total.sum(loss))
    }
}

/// The states of the layers after `epochs` passes over all the samples, and
/// the mean loss of each pass.
pub open spec fn training<T: Scalar, L: Layer<T>>(
    layers: Seq<L::V>,
    inputs: Seq<Grid<T>>,
    targets: Seq<Grid<T>>,
    rate: T,
    epochs: nat,
) -> (Seq<L::V>, Seq<T>)
    decreases epochs,
{
    if epochs == 0 {
        (layers, Seq::empty())
    } else {
        let (before, history) = training::<T, L>(layers, inputs, targets, rate, (epochs - 1) as nat);
        let (after, total) = pass::<T, L>(before, inputs, targets, rate, inputs.len());
        (after, history.push(total.quot(T::count(inputs.len() as usize))))
    }
}

/// What each matrix of a sequence holds.
pub open spec fn views<T>(matrices: Seq<Matrix<T>>) -> Seq<Grid<T>> {
    Seq::new(matrices.len(), |i: int| matrices[i]@)
}

/// Each matrix is well formed and has the given shape.
pub open spec fn all_shaped<T: Scalar>(matrices: Seq<Matrix<T>>, shape: (nat, nat)) -> bool {
    forall|i: int|
        0 <= i < matrices.len() ==> (#[trigger] matrices[i]).wf() && (matrices[i]@.rows, matrices[i]@.cols)
            == shape
}

/// The layers are ready, and each takes what the one before it gives.
pub open spec fn chained<T: Scalar, L: Layer<T>>(net: NetModel<T, L::V>) -> bool {
    &&& net.shapes.len() == net.layers.len() + 1
    &&& forall|i: int|
        0 <= i < net.layers.len() ==> {
            &&& L::ready(#[trigger] net.layers[i])
            &&& L::input_shape(net.layers[i]) == net.shapes[i]
            &&& L::output_shape(net.layers[i]) == net.shapes[i + 1]
        }
}

/// Each layer remembers an input.
pub open spec fn all_primed<T: Scalar, L: Layer<T>>(layers: Seq<L::V>) -> bool {
    forall|i: int| 0 <= i < layers.len() ==> L::primed(#[trigger] layers[i])
}

/// A network of layers of the type `L` over scalars of the type `T`.
pub struct NN<T, L> {
    layers: Vec<L>,
    learning_rate: T,
    layer_sizes: Vec<[usize; 2]>,
}

impl<T: Scalar, L: Layer<T>> View for NN<T, L> {
    type V = NetModel<T, L::V>;

    closed spec fn view(&self) -> NetModel<T, L::V> {
        NetModel {
            layers: Seq::new(self.layers@.len(), |i: int| self.layers@[i]@),
            learning_rate: self.learning_rate,
            shapes: Seq::new(self.layer_sizes@.len(), |i: int| shape_of(self.layer_sizes@[i])),
        }
    }
}

/// The sum of the squared differences of target and prediction.
pub fn mse<T: Scalar>(y_true: &Matrix<T>, y_pred: &Matrix<T>) -> (loss: T)
    requires
        y_true@.cells.len() == y_pred@.cells.len(),
    ensures
        loss == squared_error(y_true@, y_pred@, y_pred@.cells.len()),
{
    let targets = y_true.get_data();
    let predictions = y_pred.get_data();
    let n: usize = predictions.len();
    let mut loss: T = T::zero();
    let mut i: usize = 0;
    while i < n
        invariant
            targets@ == y_true@.cells,
            predictions@ == y_pred@.cells,
            n == predictions@.len(),
            n == targets@.len(),
            i <= n,
            loss == squared_error(y_true@, y_pred@, i as nat),
        decreases n - i,
    {
        let difference = targets[i].minus(predictions[i]);
        loss = loss.plus(difference.times(difference));
        i += 1;
    }
    loss
}

/// Turns `y_true` into the gradient of the loss in the prediction, minus
/// two over `size` times the difference of target and prediction, and
/// returns a copy of it.
pub fn mse_derivative<T: Scalar>(y_true: &mut Matrix<T>, y_pred: &Matrix<T>, size: T) -> (gradient:
    Matrix<T>)
    requires
        old(y_true).wf(),
        y_pred.wf(),
        old(y_true)@.same_shape(y_pred@),
    ensures
        gradient.wf(),
        gradient@ == old(y_true)@.minus(y_pred@).times_scalar(gradient_factor(size)),
        final(y_true)@ == gradient@,
{
    let factor = T::zero().minus(T::from_count(2)).over(size);
    y_true.sub_matrix(y_pred).unwrap().mul_scalar(factor).clone()
}

impl<T: Scalar, L: Layer<T>> NN<T, L> {
    /// The invariant of the type: the layers are ready and chained.
    pub open spec fn wf(&self) -> bool {
        chained::<T, L>(self@)
    }

    /// A network without layers, for inputs of the shape `input_size`.
    pub fn new(input_size: [usize; 2], learning_rate: T) -> (net: NN<T, L>)
        ensures
            net.wf(),
            net@ == (NetModel::<T, L::V> {
                layers: Seq::empty(),
                learning_rate,
                shapes: seq![shape_of(input_size)],
            }),
    {
        let mut layer_sizes: Vec<[usize; 2]> = Vec::new();
        layer_sizes.push(input_size);
        let net = NN { layers: Vec::new(), learning_rate, layer_sizes };
        proof {
            assert(net@.layers =~= Seq::empty());
            assert(net@.shapes =~= seq![shape_of(input_size)]);
        }
        net
    }

    /// The layers, in order.
    pub fn get_layers(&self) -> (layers: &Vec<L>)
        ensures
            layers@.len() == self@.layers.len(),
            forall|i: int| 0 <= i < layers@.len() ==> (#[trigger] layers@[i])@ == self@.layers[i],
    {
        &self.layers
    }

    /// The shape of the inputs that the network takes.
    pub fn get_input_size(&self) -> (size: [usize; 2])
        requires
            self.wf(),
        ensures
            shape_of(size) == self@.shapes[0],
    {
        self.layer_sizes[0]
    }

    /// The shape of the outputs that the network gives.
    pub fn get_output_size(&self) -> (size: [usize; 2])
        requires
            self.wf(),
        ensures
            shape_of(size) == self@.shapes.last(),
    {
        self.layer_sizes[self.layer_sizes.len() - 1]
    }

    /// Initializes `layer` against the output shape of the layer before it,
    /// and appends it.
    pub fn add(&mut self, layer: L)
        requires
            old(self).wf(),
            L::accepts(layer@, old(self)@.shapes.last()),
        ensures
            final(self).wf(),
            final(self)@.learning_rate == old(self)@.learning_rate,
            final(self)@.layers.len() == old(self)@.layers.len() + 1,
            final(self)@.layers.drop_last() == old(self)@.layers,
            L::initializes(layer@, old(self)@.shapes.last(), final(self)@.layers.last()),
            final(self)@.shapes == old(self)@.shapes.push(L::output_shape(final(self)@.layers.last())),
    {
        let mut layer = layer;
        let last: usize = self.layer_sizes.len() - 1;
        layer.initialize(self.layer_sizes[last]);
        self.layer_sizes.push(layer.get_size());
        self.layers.push(layer);
        proof {
            assert(self@.layers.drop_last() =~= old(self)@.layers);
            assert(self@.shapes =~= old(self)@.shapes.push(L::output_shape(self@.layers.last())));
            assert forall|i: int| 0 <= i < self@.layers.len() implies {
                &&& L::ready(#[trigger] self@.layers[i])
                &&& L::input_shape(self@.layers[i]) == self@.shapes[i]
                &&& L::output_shape(self@.layers[i]) == self@.shapes[i + 1]
            } by {
                if i < old(self)@.layers.len() {
                    assert(self@.layers[i] == old(self)@.layers[i]);
                }
            }
        }
    }

    /// Appends `layer` as `add` does, unless it cannot follow the layer
    /// before it: then the network stays as it is.
    pub fn try_add(&mut self, layer: L) -> (result: Result<(), Error>)
        requires
            old(self).wf(),
        ensures
            final(self).wf(),
            match result {
                Ok(_) => {
                    &&& L::accepts(layer@, old(self)@.shapes.last())
                    &&& final(self)@.learning_rate == old(self)@.learning_rate
                    &&& final(self)@.layers.len() == old(self)@.layers.len() + 1
                    &&& final(self)@.layers.drop_last() == old(self)@.layers
                    &&& L::initializes(layer@, old(self)@.shapes.last(), final(self)@.layers.last())
                    &&& final(self)@.shapes == old(self)@.shapes.push(
                        L::output_shape(final(self)@.layers.last()),
                    )
                },
                Err(e) => {
                    &&& !L::accepts(layer@, old(self)@.shapes.last())
                    &&& e == Error::StructuralPrecondition
                    &&& final(self)@ == old(self)@
                },
            },
    {
        let last: usize = self.layer_sizes.len() - 1;
        if layer.accepts_size(self.layer_sizes[last]) {
            self.add(layer);
            Ok(())
        } else {
            Err(Error::StructuralPrecondition)
        }
    }

    /// The output of the network for `inputs`.
    pub fn predict(&mut self, inputs: &Matrix<T>) -> (outputs: Matrix<T>)
        requires
            old(self).wf(),
            inputs.wf(),
            (inputs@.rows, inputs@.cols) == old(self)@.shapes[0],
        ensures
            final(self).wf(),
            (final(self)@.layers, outputs@) == feed::<T, L>(old(self)@.layers, inputs@),
            final(self)@.learning_rate == old(self)@.learning_rate,
            final(self)@.shapes == old(self)@.shapes,
            all_primed::<T, L>(final(self)@.layers),
            outputs.wf(),
            (outputs@.rows, outputs@.cols) == old(self)@.shapes.last(),
    {
        let mut outputs = inputs.clone();
        let n: usize = self.layers.len();
        let mut i: usize = 0;
        while i < n
            invariant
                self.wf(),
                n == self.layers@.len(),
                i <= n,
                self@.learning_rate == old(self)@.learning_rate,
                self@.shapes == old(self)@.shapes,
                self@.layers.len() == old(self)@.layers.len(),
                self@.layers.skip(i as int) == old(self)@.layers.skip(i as int),
                (self@.layers.take(i as int), outputs@) == feed::<T, L>(
                    old(self)@.layers.take(i as int),
                    inputs@,
                ),
                all_primed::<T, L>(self@.layers.take(i as int)),
                outputs.wf(),
                (outputs@.rows, outputs@.cols) == self@.shapes[i as int],
            decreases n - i,
        {
            let ghost before = self@;
            proof {
                assert(before.layers[i as int] == before.layers.skip(i as int)[0]);
                assert(old(self)@.layers[i as int] == old(self)@.layers.skip(i as int)[0]);
                assert(old(self)@.layers.take(i + 1).drop_last() =~= old(self)@.layers.take(i as int));
            }
            outputs = self.layers[i].forward(&outputs);
            proof {
                assert(self@.layers =~= before.layers.update(i as int, self@.layers[i as int]));
                assert(self@.shapes =~= before.shapes);
                assert(self@.layers.take(i + 1) =~= before.layers.take(i as int).push(
                    self@.layers[i as int],
                ));
                let ahead = self@.layers.skip(i + 1);
                let ahead_before = old(self)@.layers.skip(i + 1);
                assert(ahead =~= ahead_before) by {
                    assert forall|k: int| 0 <= k < ahead.len() implies #[trigger] ahead[k]
                        == ahead_before[k] by {
                        assert(before.layers.skip(i as int)[k + 1] == old(self)@.layers.skip(i as int)[k
                            + 1]);
                    }
                }
                let done = self@.layers.take(i + 1);
                assert forall|k: int| 0 <= k < done.len() implies L::primed(#[trigger] done[k]) by {
                    if k < i {
                        assert(done[k] == before.layers.take(i as int)[k]);
                    }
                }
            }
            i += 1;
        }
        proof {
            assert(self@.layers.take(n as int) =~= self@.layers);
            assert(old(self)@.layers.take(n as int) =~= old(self)@.layers);
        }
        outputs
    }

    /// Hands `gradient`, the gradient of the loss in the last output, back
    /// through the layers in reverse order. Each layer moves its parameters
    /// one step against their gradient.
    fn propagate_back(&mut self, gradient: Matrix<T>) -> (input_gradient: Matrix<T>)
        requires
            old(self).wf(),
            all_primed::<T, L>(old(self)@.layers),
            gradient.wf(),
            (gradient@.rows, gradient@.cols) == old(self)@.shapes.last(),
        ensures
            final(self).wf(),
            all_primed::<T, L>(final(self)@.layers),
            (final(self)@.layers, input_gradient@) == feed_back::<T, L>(
                old(self)@.layers,
                gradient@,
                old(self)@.learning_rate,
            ),
            final(self)@.learning_rate == old(self)@.learning_rate,
            final(self)@.shapes == old(self)@.shapes,
    {
        let mut error = gradient;
        let n: usize = self.layers.len();
        let rate: T = self.learning_rate;
        let mut i: usize = n;
        proof {
            assert(old(self)@.layers.take(n as int) =~= old(self)@.layers);
            let whole = feed_back::<T, L>(old(self)@.layers, gradient@, rate);
            assert(whole.0 + self@.layers.skip(n as int) =~= whole.0);
        }
        while i > 0
            invariant
                self.wf(),
                all_primed::<T, L>(self@.layers),
                n == self.layers@.len(),
                i <= n,
                rate == old(self)@.learning_rate,
                self@.learning_rate == old(self)@.learning_rate,
                self@.shapes == old(self)@.shapes,
                self@.layers.len() == old(self)@.layers.len(),
                self@.layers.take(i as int) == old(self)@.layers.take(i as int),
                error.wf(),
                (error@.rows, error@.cols) == self@.shapes[i as int],
                feed_back::<T, L>(old(self)@.layers, gradient@, rate) == (
                    feed_back::<T, L>(old(self)@.layers.take(i as int), error@, rate).0
                        + self@.layers.skip(i as int),
                    feed_back::<T, L>(old(self)@.layers.take(i as int), error@, rate).1,
                ),
            decreases i,
        {
            let ghost before = self@;
            let ghost incoming = error@;
            let j: usize = i - 1;
            proof {
                assert(before.layers[j as int] == before.layers.take(i as int)[j as int]);
                assert(old(self)@.layers[j as int] == old(self)@.layers.take(i as int)[j as int]);
                assert(old(self)@.layers.take(i as int).drop_last() =~= old(self)@.layers.take(j as int));
            }
            error = self.layers[j].backwards(&error, rate);
            proof {
                assert(self@.layers =~= before.layers.update(j as int, self@.layers[j as int]));
                assert(self@.shapes =~= before.shapes);
                let behind = self@.layers.take(j as int);
                let behind_before = old(self)@.layers.take(j as int);
                assert(behind =~= behind_before) by {
                    assert forall|k: int| 0 <= k < behind.len() implies #[trigger] behind[k]
                        == behind_before[k] by {
                        assert(before.layers.take(i as int)[k] == old(self)@.layers.take(i as int)[k]);
                    }
                }
                let rest = feed_back::<T, L>(old(self)@.layers.take(j as int), error@, rate);
                assert(rest.0.push(self@.layers[j as int]) + before.layers.skip(i as int) =~= rest.0
                    + self@.layers.skip(j as int));
                assert forall|k: int| 0 <= k < n implies L::primed(#[trigger] self@.layers[k]) by {
                    if k != j {
                        assert(self@.layers[k] == before.layers[k]);
                    }
                }
            }
            i = j;
        }
        proof {
            assert(old(self)@.layers.take(0) =~= Seq::empty());
            assert(self@.layers.skip(0) =~= self@.layers);
            assert(Seq::<L::V>::empty() + self@.layers =~= self@.layers);
        }
        error
    }

    /// Trains the network on the samples, `epochs` times over, and returns
    /// the mean loss of each pass.
    pub fn train(&mut self, x_train: &Vec<Matrix<T>>, y_train: &Vec<Matrix<T>>, epochs: u64) -> (result:
        Result<Vec<T>, Error>)
        requires
            old(self).wf(),
            x_train@.len() == y_train@.len() ==> all_shaped(x_train@, old(self)@.shapes[0])
                && all_shaped(y_train@, old(self)@.shapes.last()),
        ensures
            final(self).wf(),
            final(self)@.learning_rate == old(self)@.learning_rate,
            final(self)@.shapes == old(self)@.shapes,
            match result {
                Ok(losses) => {
                    &&& x_train@.len() == y_train@.len()
                    &&& losses@.len() == epochs
                    &&& (final(self)@.layers, losses@) == training::<T, L>(
                        old(self)@.layers,
                        views(x_train@),
                        views(y_train@),
                        old(self)@.learning_rate,
                        epochs as nat,
                    )
                },
                Err(e) => {
                    &&& x_train@.len() != y_train@.len()
                    &&& e == Error::DatasetSizeMismatch
                    &&& final(self)@.layers == old(self)@.layers
                },
            },
    {
        if x_train.len() != y_train.len() {
            return Err(Error::DatasetSizeMismatch);
        }
        let samples: usize = x_train.len();
        let rate: T = self.learning_rate;
        let ghost inputs = views(x_train@);
        let ghost targets = views(y_train@);
        let mut errors: Vec<T> = Vec::new();
        let mut epoch: u64 = 0;
        while epoch < epochs
            invariant
                self.wf(),
                samples == x_train@.len(),
                samples == y_train@.len(),
                inputs == views(x_train@),
                targets == views(y_train@),
                all_shaped(x_train@, self@.shapes[0]),
                all_shaped(y_train@, self@.shapes.last()),
                rate == old(self)@.learning_rate,
                self@.learning_rate == old(self)@.learning_rate,
                self@.shapes == old(self)@.shapes,
                epoch <= epochs,
                errors@.len() == epoch,
                (self@.layers, errors@) == training::<T, L>(
                    old(self)@.layers,
                    inputs,
                    targets,
                    rate,
                    epoch as nat,
                ),
            decreases epochs - epoch,
        {
            let ghost start = self@.layers;
            let mut err: T = T::zero();
            let mut i: usize = 0;
            while i < samples
                invariant
                    self.wf(),
                    samples == x_train@.len(),
                    samples == y_train@.len(),
                    inputs == views(x_train@),
                    targets == views(y_train@),
                    all_shaped(x_train@, self@.shapes[0]),
                    all_shaped(y_train@, self@.shapes.last()),
                    rate == old(self)@.learning_rate,
                    self@.learning_rate == old(self)@.learning_rate,
                    self@.shapes == old(self)@.shapes,
                    i <= samples,
                    (self@.layers, err) == pass::<T, L>(
                        start,
                        inputs,
                        targets,
                        rate,
                        i as nat,
                    ),
                decreases samples - i,
            {
                let outputs = self.predict(&x_train[i]);
                let mut y_true = y_train[i].clone();
                err = err.plus(mse(&y_true, &outputs));
                let size = T::from_count(outputs.get_data().len());
                let error = mse_derivative(&mut y_true, &outputs, size);
                self.propagate_back(error);
                i += 1;
            }
            errors.push(err.over(T::from_count(samples)));
            epoch += 1;
        }
        Ok(errors)
    }
}

} // verus!
