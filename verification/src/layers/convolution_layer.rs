//! The layer that convolves its input with a kernel that it learns.
use crate::grid::conv_defined;
use crate::grid::conv_shape;
use crate::grid::lemma_cell_index;
use crate::grid::lemma_index_cell;
use crate::grid::Grid;
use crate::layers::layer_interface::shape_of;
use crate::layers::layer_interface::Layer;
use crate::matrix::output_extent;
use crate::matrix::resolve_index;
use crate::matrix::Matrix;
use crate::scalar::Scalar;
use vstd::prelude::*;

verus! {

/// The state of a convolutional layer.
pub struct ConvolutionModel<T> {
    pub kernel: Grid<T>,
    pub stride: nat,
    pub padding: nat,
    /// The shape of the input.
    pub input: (nat, nat),
    /// The shape of the output.
    pub output: (nat, nat),
    pub last_input: Grid<T>,
}

impl<T> ConvolutionModel<T> {
    /// The kernel can be laid on inputs of the input shape.
    pub open spec fn fits(self) -> bool {
        &&& self.kernel.wf()
        &&& conv_defined(
            self.input,
            (self.kernel.rows, self.kernel.cols),
            self.stride as int,
            self.padding as int,
        )
    }
}

impl<T> ConvolutionModel<T> {
    /// The layer is set up, remembers an input, and `gradient` has the shape
    /// of its output.
    pub open spec fn takes(self, gradient: Grid<T>) -> bool {
        &&& self.fits()
        &&& self.output == conv_shape(
            self.input,
            (self.kernel.rows, self.kernel.cols),
            self.stride as int,
            self.padding as int,
        )
        &&& self.last_input.wf()
        &&& (self.last_input.rows, self.last_input.cols) == self.input
        &&& gradient.wf()
        &&& (gradient.rows, gradient.cols) == self.output
    }
}

/// A layer that convolves its input with one kernel.
pub struct ConvolutionalLayer<T> {
    kernel: Matrix<T>,
    stride: usize,
    padding: usize,
    input_size: [usize; 2],
    output_size: [usize; 2],
    last_input: Matrix<T>,
}

impl<T> View for ConvolutionalLayer<T> {
    type V = ConvolutionModel<T>;

    closed spec fn view(&self) -> ConvolutionModel<T> {
        ConvolutionModel {
            kernel: self.kernel@,
            stride: self.stride as nat,
            padding: self.padding as nat,
            input: shape_of(self.input_size),
            output: shape_of(self.output_size),
            last_input: self.last_input@,
        }
    }
}

impl<T: Scalar> ConvolutionalLayer<T> {
    /// A layer with the given kernel that is yet to be initialized.
    pub fn new(kernel: Matrix<T>, stride: usize, padding: usize) -> (layer: ConvolutionalLayer<T>)
        ensures
            layer@ == (ConvolutionModel {
                kernel: kernel@,
                stride: stride as nat,
                padding: padding as nat,
                input: (0, 0),
                output: (0, 0),
                last_input: Grid::<T>::zeros(0, 0),
            }),
    {
        ConvolutionalLayer {
            kernel,
            stride,
            padding,
            input_size: [0, 0],
            output_size: [0, 0],
            last_input: Matrix::new(0, 0),
        }
    }

    /// The kernel.
    pub fn get_kernel(&self) -> (kernel: &Matrix<T>)
        ensures
            kernel@ == self@.kernel,
    {
        &self.kernel
    }

    /// One cell of the kernel's gradient.
    fn weight_error_cell(&self, output_error: &Matrix<T>, k: usize, l: usize) -> (sum: T)
        requires
            self@.takes(output_error@),
            k < self@.kernel.rows,
            l < self@.kernel.cols,
        ensures
            sum == self@.last_input.kernel_gradient_partial(
                output_error@,
                self@.stride as int,
                self@.padding as int,
                k as int,
                l as int,
                output_error@.rows * output_error@.cols,
            ),
    {
        let rows: usize = output_error.get_num_rows();
        let cols: usize = output_error.get_num_cols();
        let mut sum: T = T::zero();
        let mut i: usize = 0;
        while i < rows
            invariant
                self@.takes(output_error@),
                k < self@.kernel.rows,
                l < self@.kernel.cols,
                rows == output_error@.rows,
                cols == output_error@.cols,
                i <= rows,
                sum == self@.last_input.kernel_gradient_partial(
                    output_error@,
                    self@.stride as int,
                    self@.padding as int,
                    k as int,
                    l as int,
                    (i * cols) as nat,
                ),
            decreases rows - i,
        {
            let mut j: usize = 0;
            while j < cols
                invariant
                    self@.takes(output_error@),
                    k < self@.kernel.rows,
                    l < self@.kernel.cols,
                    rows == output_error@.rows,
                    cols == output_error@.cols,
                    i < rows,
                    j <= cols,
                    sum == self@.last_input.kernel_gradient_partial(
                        output_error@,
                        self@.stride as int,
                        self@.padding as int,
                        k as int,
                        l as int,
                        (i * cols + j) as nat,
                    ),
                decreases cols - j,
            {
                proof {
                    lemma_cell_index(rows as int, cols as int, i as int, j as int);
                }
                let row = resolve_index(i, k, self.stride, self.padding, self.last_input.get_num_rows());
                let col = resolve_index(j, l, self.stride, self.padding, self.last_input.get_num_cols());
                match (row, col) {
                    (Some(r), Some(c)) => {
                        sum = sum.plus(self.last_input.get(r, c).times(output_error.get(i, j)));
                    },
                    _ => {},
                }
                j += 1;
            }
            proof {
                assert((i + 1) * cols == i * cols + cols) by (nonlinear_arith);
            }
            i += 1;
        }
        sum
    }

    /// The kernel's gradient, times the learning rate.
    fn get_weight_error(&self, output_error: &Matrix<T>, learning_rate: T) -> (m: Matrix<T>)
        requires
            self@.takes(output_error@),
        ensures
            m.wf(),
            m@ == self@.last_input.kernel_gradient(
                output_error@,
                self@.kernel.rows,
                self@.kernel.cols,
                self@.stride as int,
                self@.padding as int,
            ).times_scalar(learning_rate),
    {
        let rows: usize = self.kernel.get_num_rows();
        let cols: usize = self.kernel.get_num_cols();
        let mut result: Vec<T> = Vec::new();
        let mut k: usize = 0;
        while k < rows
            invariant
                self@.takes(output_error@),
                rows == self@.kernel.rows,
                cols == self@.kernel.cols,
                k <= rows,
                result@.len() == k * cols,
                forall|x: int|
                    0 <= x < result@.len() ==> result@[x] == self@.last_input.kernel_gradient_partial(
                        output_error@,
                        self@.stride as int,
                        self@.padding as int,
                        x / (cols as int),
                        x % (cols as int),
                        output_error@.rows * output_error@.cols,
                    ),
            decreases rows - k,
        {
            let mut l: usize = 0;
            while l < cols
                invariant
                    self@.takes(output_error@),
                    rows == self@.kernel.rows,
                    cols == self@.kernel.cols,
                    k < rows,
                    l <= cols,
                    result@.len() == k * cols + l,
                    forall|x: int|
                        0 <= x < result@.len() ==> result@[x]
                            == self@.last_input.kernel_gradient_partial(
                            output_error@,
                            self@.stride as int,
                            self@.padding as int,
                            x / (cols as int),
                            x % (cols as int),
                            output_error@.rows * output_error@.cols,
                        ),
                decreases cols - l,
            {
                let sum: T = self.weight_error_cell(output_error, k, l);
                proof {
                    lemma_cell_index(rows as int, cols as int, k as int, l as int);
                }
                result.push(sum);
                l += 1;
            }
            proof {
                assert((k + 1) * cols == k * cols + cols) by (nonlinear_arith);
            }
            k += 1;
        }
        proof {
            assert(result@ =~= self@.last_input.kernel_gradient(
                output_error@,
                self@.kernel.rows,
                self@.kernel.cols,
                self@.stride as int,
                self@.padding as int,
            ).cells);
        }
        let mut m = Matrix::from_vec(result, rows, cols).unwrap();
        m.mul_scalar(learning_rate);
        m
    }

    /// Hands the gradient of output cell (`i`, `j`) back to the input cells
    /// that the kernel lay on when it computed that cell.
    fn scatter_cell(&self, result: &mut Matrix<T>, output_error: &Matrix<T>, i: usize, j: usize)
        requires
            self@.takes(output_error@),
            old(result).wf(),
            (old(result)@.rows, old(result)@.cols) == self@.input,
            i < output_error@.rows,
            j < output_error@.cols,
        ensures
            final(result).wf(),
            (final(result)@.rows, final(result)@.cols) == self@.input,
            forall|x: int|
                0 <= x < final(result)@.cells.len() ==> #[trigger] final(result)@.cells[x]
                    == self@.kernel.scattered(
                    output_error@,
                    self@.stride as int,
                    self@.padding as int,
                    self@.input,
                    i as int,
                    j as int,
                    x / (self@.input.1 as int),
                    x % (self@.input.1 as int),
                    old(result)@.cells[x],
                    self@.kernel.rows * self@.kernel.cols,
                ),
    {
        let rows: usize = self.kernel.get_num_rows();
        let cols: usize = self.kernel.get_num_cols();
        let mut k: usize = 0;
        while k < rows
            invariant
                self@.takes(output_error@),
                result.wf(),
                (result@.rows, result@.cols) == self@.input,
                i < output_error@.rows,
                j < output_error@.cols,
                rows == self@.kernel.rows,
                cols == self@.kernel.cols,
                k <= rows,
                forall|x: int|
                    0 <= x < result@.cells.len() ==> #[trigger] result@.cells[x]
                        == self@.kernel.scattered(
                        output_error@,
                        self@.stride as int,
                        self@.padding as int,
                        self@.input,
                        i as int,
                        j as int,
                        x / (self@.input.1 as int),
                        x % (self@.input.1 as int),
                        old(result)@.cells[x],
                        (k * cols) as nat,
                    ),
            decreases rows - k,
        {
            let mut l: usize = 0;
            while l < cols
                invariant
                    self@.takes(output_error@),
                    result.wf(),
                    (result@.rows, result@.cols) == self@.input,
                    i < output_error@.rows,
                    j < output_error@.cols,
                    rows == self@.kernel.rows,
                    cols == self@.kernel.cols,
                    k < rows,
                    l <= cols,
                    forall|x: int|
                        0 <= x < result@.cells.len() ==> #[trigger] result@.cells[x]
                            == self@.kernel.scattered(
                            output_error@,
                            self@.stride as int,
                            self@.padding as int,
                            self@.input,
                            i as int,
                            j as int,
                            x / (self@.input.1 as int),
                            x % (self@.input.1 as int),
                            old(result)@.cells[x],
                            (k * cols + l) as nat,
                        ),
                decreases cols - l,
            {
                proof {
                    lemma_cell_index(rows as int, cols as int, k as int, l as int);
                }
                let ghost before = result@;
                let row = resolve_index(i, k, self.stride, self.padding, result.get_num_rows());
                let col = resolve_index(j, l, self.stride, self.padding, result.get_num_cols());
                match (row, col) {
                    (Some(r), Some(c)) => {
                        let held: T = result.get(r, c);
                        result.set(r, c, held.plus(self.kernel.get(k, l).times(output_error.get(i, j))));
                        proof {
                            lemma_cell_index(
                                self@.input.0 as int,
                                self@.input.1 as int,
                                r as int,
                                c as int,
                            );
                        }
                    },
                    _ => {},
                }
                proof {
                    let width = self@.input.1 as int;
                    assert forall|x: int| 0 <= x < result@.cells.len() implies #[trigger] result@.cells[x]
                        == self@.kernel.scattered(
                        output_error@,
                        self@.stride as int,
                        self@.padding as int,
                        self@.input,
                        i as int,
                        j as int,
                        x / width,
                        x % width,
                        old(result)@.cells[x],
                        (k * cols + l + 1) as nat,
                    ) by {
                        lemma_index_cell(self@.input.0 as int, width, x);
                        assert(before.cells[x] == self@.kernel.scattered(
                            output_error@,
                            self@.stride as int,
                            self@.padding as int,
                            self@.input,
                            i as int,
                            j as int,
                            x / width,
                            x % width,
                            old(result)@.cells[x],
                            (k * cols + l) as nat,
                        ));
                    }
                }
                l += 1;
            }
            proof {
                assert((k + 1) * cols == k * cols + cols) by (nonlinear_arith);
            }
            k += 1;
        }
    }

    /// The gradient of the loss in the last input.
    fn get_input_error(&self, output_error: &Matrix<T>) -> (m: Matrix<T>)
        requires
            self@.takes(output_error@),
        ensures
            m.wf(),
            m@ == self@.kernel.input_gradient(
                output_error@,
                self@.stride as int,
                self@.padding as int,
                self@.input,
            ),
    {
        let rows: usize = output_error.get_num_rows();
        let cols: usize = output_error.get_num_cols();
        let mut result: Matrix<T> = Matrix::new(
            self.last_input.get_num_rows(),
            self.last_input.get_num_cols(),
        );
        let mut i: usize = 0;
        while i < rows
            invariant
                self@.takes(output_error@),
                result.wf(),
                (result@.rows, result@.cols) == self@.input,
                rows == output_error@.rows,
                cols == output_error@.cols,
                i <= rows,
                forall|x: int|
                    0 <= x < result@.cells.len() ==> #[trigger] result@.cells[x]
                        == self@.kernel.input_gradient_partial(
                        output_error@,
                        self@.stride as int,
                        self@.padding as int,
                        self@.input,
                        x / (self@.input.1 as int),
                        x % (self@.input.1 as int),
                        (i * cols) as nat,
                    ),
            decreases rows - i,
        {
            let mut j: usize = 0;
            while j < cols
                invariant
                    self@.takes(output_error@),
                    result.wf(),
                    (result@.rows, result@.cols) == self@.input,
                    rows == output_error@.rows,
                    cols == output_error@.cols,
                    i < rows,
                    j <= cols,
                    forall|x: int|
                        0 <= x < result@.cells.len() ==> #[trigger] result@.cells[x]
                            == self@.kernel.input_gradient_partial(
                            output_error@,
                            self@.stride as int,
                            self@.padding as int,
                            self@.input,
                            x / (self@.input.1 as int),
                            x % (self@.input.1 as int),
                            (i * cols + j) as nat,
                        ),
                decreases cols - j,
            {
                proof {
                    lemma_cell_index(rows as int, cols as int, i as int, j as int);
                }
                self.scatter_cell(&mut result, output_error, i, j);
                j += 1;
            }
            proof {
                assert((i + 1) * cols == i * cols + cols) by (nonlinear_arith);
            }
            i += 1;
        }
        proof {
            assert(result@.cells =~= self@.kernel.input_gradient(
                output_error@,
                self@.stride as int,
                self@.padding as int,
                self@.input,
            ).cells);
        }
        result
    }
}

impl<T: Scalar> Layer<T> for ConvolutionalLayer<T> {
    open spec fn accepts(state: ConvolutionModel<T>, input: (nat, nat)) -> bool {
        &&& state.kernel.wf()
        &&& conv_defined(
            input,
            (state.kernel.rows, state.kernel.cols),
            state.stride as int,
            state.padding as int,
        )
    }

    open spec fn initializes(
        before: ConvolutionModel<T>,
        input: (nat, nat),
        after: ConvolutionModel<T>,
    ) -> bool {
        after == (ConvolutionModel {
            input,
            output: conv_shape(
                input,
                (before.kernel.rows, before.kernel.cols),
                before.stride as int,
                before.padding as int,
            ),
            ..before
        })
    }

    open spec fn ready(state: ConvolutionModel<T>) -> bool {
        &&& state.fits()
        &&& state.output == conv_shape(
            state.input,
            (state.kernel.rows, state.kernel.cols),
            state.stride as int,
            state.padding as int,
        )
    }

    open spec fn input_shape(state: ConvolutionModel<T>) -> (nat, nat) {
        state.input
    }

    open spec fn output_shape(state: ConvolutionModel<T>) -> (nat, nat) {
        state.output
    }

    open spec fn primed(state: ConvolutionModel<T>) -> bool {
        &&& state.last_input.wf()
        &&& (state.last_input.rows, state.last_input.cols) == state.input
    }

    open spec fn forward_model(state: ConvolutionModel<T>, input: Grid<T>) -> (
        ConvolutionModel<T>,
        Grid<T>,
    ) {
        (
            ConvolutionModel { last_input: input, ..state },
            input.convolved(state.kernel, state.stride as int, state.padding as int),
        )
    }

    open spec fn backward_model(state: ConvolutionModel<T>, gradient: Grid<T>, rate: T) -> (
        ConvolutionModel<T>,
        Grid<T>,
    ) {
        let step = state.last_input.kernel_gradient(
            gradient,
            state.kernel.rows,
            state.kernel.cols,
            state.stride as int,
            state.padding as int,
        ).times_scalar(rate);
        (
            ConvolutionModel { kernel: state.kernel.minus(step), ..state },
            state.kernel.input_gradient(
                gradient,
                state.stride as int,
                state.padding as int,
                state.input,
            ),
        )
    }

    fn accepts_size(&self, input_size: [usize; 2]) -> (ok: bool) {
        if !self.kernel.is_well_formed() {
            return false;
        }
        let rows = output_extent(input_size[0], self.kernel.get_num_rows(), self.stride, self.padding);
        let cols = output_extent(input_size[1], self.kernel.get_num_cols(), self.stride, self.padding);
        rows.is_some() && cols.is_some()
    }

    fn initialize(&mut self, input_size: [usize; 2]) {
        let output_num_rows: usize = (input_size[0] + 2 * self.padding - self.kernel.get_num_rows())
            / self.stride + 1;
        let output_num_cols: usize = (input_size[1] + 2 * self.padding - self.kernel.get_num_cols())
            / self.stride + 1;
        self.input_size = input_size;
        self.output_size = [output_num_rows, output_num_cols];
    }

    fn forward(&mut self, inputs: &Matrix<T>) -> (output: Matrix<T>) {
        self.last_input = inputs.clone();
        Matrix::convolve(inputs, &self.kernel, self.stride, self.padding)
    }

    fn backwards(&mut self, output_error: &Matrix<T>, learning_rate: T) -> (input_error: Matrix<T>) {
        let weight_error = self.get_weight_error(output_error, learning_rate);
        let input_error = self.get_input_error(output_error);
        self.kernel.sub_matrix(&weight_error).unwrap();
        input_error
    }

    fn get_size(&self) -> (size: [usize; 2]) {
        self.output_size
    }
}

} // verus!
