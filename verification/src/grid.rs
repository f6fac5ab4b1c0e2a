//! The mathematics of matrices: what each operation of the engine computes,
//! stated over a shape and a sequence of cells.
//!
//! Sums are written as left folds that start at the additive identity, so
//! that a contract fixes the order of the additions as well as their terms.
use crate::scalar::Scalar;
use vstd::arithmetic::div_mod::lemma_fundamental_div_mod;
use vstd::arithmetic::div_mod::lemma_fundamental_div_mod_converse;
use vstd::prelude::*;

verus! {

/// What a matrix is, mathematically: a shape and its cells in row-major order.
pub struct Grid<T> {
    pub rows: nat,
    pub cols: nat,
    pub cells: Seq<T>,
}

/// The position of cell (`r`, `c`) in a row-major buffer stays inside it.
pub proof fn lemma_cell_index(rows: int, cols: int, r: int, c: int)
    requires
        0 <= r < rows,
        0 <= c < cols,
    ensures
        0 <= r * cols + c < rows * cols,
        (r * cols + c) / cols == r,
        (r * cols + c) % cols == c,
{
    assert(r * cols + cols == (r + 1) * cols) by (nonlinear_arith);
    assert((r + 1) * cols <= rows * cols) by (nonlinear_arith)
        requires
            r + 1 <= rows,
            0 <= cols,
    ;
    assert(0 <= r * cols) by (nonlinear_arith)
        requires
            0 <= r,
            0 <= cols,
    ;
    lemma_fundamental_div_mod_converse(r * cols + c, cols, r, c);
}

/// A position inside a row-major buffer names exactly one cell.
pub proof fn lemma_index_cell(rows: int, cols: int, i: int)
    requires
        0 <= rows,
        0 <= cols,
        0 <= i < rows * cols,
    ensures
        0 < cols,
        0 <= i / cols < rows,
        0 <= i % cols < cols,
        (i / cols) * cols + i % cols == i,
{
    assert(cols != 0) by (nonlinear_arith)
        requires
            0 <= i < rows * cols,
    ;
    lemma_fundamental_div_mod(i, cols);
    let q = i / cols;
    assert(cols * q == q * cols) by (nonlinear_arith);
    assert(0 <= q) by (nonlinear_arith)
        requires
            0 <= i,
            0 < cols,
            q == i / cols,
    ;
    assert(q < rows) by (nonlinear_arith)
        requires
            q * cols + i % cols == i,
            0 <= i % cols,
            i < rows * cols,
            0 < cols,
    ;
}

/// Where output position `out` and kernel offset `offset` land on an axis of
/// length `extent` that has `padding` implicit cells before it, or `None`
/// where they land in the padding.
pub open spec fn resolve(out: int, offset: int, stride: int, padding: int, extent: int) -> Option<
    int,
> {
    let at = out * stride + offset;
    if at < padding || at - padding >= extent {
        None
    } else {
        Some(at - padding)
    }
}

/// The length of a convolution's output along an axis: the number of kernel
/// positions, `stride` apart, that fit into the padded input.
pub open spec fn conv_extent(extent: int, kernel: int, stride: int, padding: int) -> int {
    (extent + 2 * padding - kernel) / stride + 1
}

/// Whether a kernel of length `kernel` can be laid at least once on an axis
/// of length `extent` with `padding` cells on either side, in steps of
/// `stride`.
pub open spec fn conv_fits(extent: int, kernel: int, stride: int, padding: int) -> bool {
    stride >= 1 && kernel <= extent + 2 * padding
}

/// Whether a convolution of an input of shape `input` with a kernel of shape
/// `kernel` is defined, and its lengths fit the machine's word.
pub open spec fn conv_defined(input: (nat, nat), kernel: (nat, nat), stride: int, padding: int) -> bool {
    &&& conv_fits(input.0 as int, kernel.0 as int, stride, padding)
    &&& conv_fits(input.1 as int, kernel.1 as int, stride, padding)
    &&& input.0 + 2 * padding <= usize::MAX
    &&& input.1 + 2 * padding <= usize::MAX
    &&& conv_extent(input.0 as int, kernel.0 as int, stride, padding) <= usize::MAX
    &&& conv_extent(input.1 as int, kernel.1 as int, stride, padding) <= usize::MAX
}

/// The shape of a convolution's output.
pub open spec fn conv_shape(input: (nat, nat), kernel: (nat, nat), stride: int, padding: int) -> (
    nat,
    nat,
) {
    (
        conv_extent(input.0 as int, kernel.0 as int, stride, padding) as nat,
        conv_extent(input.1 as int, kernel.1 as int, stride, padding) as nat,
    )
}

impl<T> Grid<T> {
    /// There are as many cells as the shape asks for.
    pub open spec fn wf(self) -> bool {
        self.cells.len() == self.rows * self.cols
    }

    /// The cell in row `r` and column `c`.
    pub open spec fn at(self, r: int, c: int) -> T {
        self.cells[r * self.cols + c]
    }

    /// Whether two grids have the same number of rows and of columns.
    pub open spec fn same_shape(self, other: Grid<T>) -> bool {
        self.rows == other.rows && self.cols == other.cols
    }

    /// The same cells under another shape.
    pub open spec fn reshaped(self, rows: nat, cols: nat) -> Grid<T> {
        Grid { rows, cols, cells: self.cells }
    }

    /// The grid that has `f`'s value at each cell in that cell's place.
    pub open spec fn mapped(self, f: spec_fn(T) -> T) -> Grid<T> {
        Grid {
            rows: self.rows,
            cols: self.cols,
            cells: Seq::new(self.cells.len(), |i: int| f(self.cells[i])),
        }
    }

    /// Rows and columns exchanged.
    pub open spec fn transposed(self) -> Grid<T> {
        Grid {
            rows: self.cols,
            cols: self.rows,
            cells: Seq::new(
                self.rows * self.cols,
                |i: int| self.at(i % (self.rows as int), i / (self.rows as int)),
            ),
        }
    }
}

/// Cell (`c`, `r`) of the transpose is cell (`r`, `c`) of the grid.
pub proof fn lemma_transposed_at<T>(grid: Grid<T>, r: int, c: int)
    requires
        grid.wf(),
        0 <= r < grid.rows,
        0 <= c < grid.cols,
    ensures
        grid.transposed().at(c, r) == grid.at(r, c),
{
    lemma_cell_index(grid.cols as int, grid.rows as int, c, r);
    assert(grid.rows * grid.cols == grid.cols * grid.rows) by (nonlinear_arith);
}

/// Transposing twice gives the grid back, cell for cell.
pub proof fn lemma_transpose_involution<T>(grid: Grid<T>)
    requires
        grid.wf(),
    ensures
        grid.transposed().transposed() == grid,
{
    let once = grid.transposed();
    let twice = once.transposed();
    assert(grid.rows * grid.cols == grid.cols * grid.rows) by (nonlinear_arith);
    assert forall|i: int| 0 <= i < grid.cells.len() implies twice.cells[i] == grid.cells[i] by {
        lemma_index_cell(grid.rows as int, grid.cols as int, i);
        let r = i / (grid.cols as int);
        let c = i % (grid.cols as int);
        lemma_transposed_at(grid, r, c);
    }
    assert(twice.cells =~= grid.cells);
}

impl<T: Scalar> Grid<T> {
    /// The grid of the given shape whose cells are all the additive identity.
    pub open spec fn zeros(rows: nat, cols: nat) -> Grid<T> {
        Grid { rows, cols, cells: Seq::new(rows * cols, |i: int| T::null()) }
    }

    /// The grid of the given shape whose cells are picked by the random words.
    pub open spec fn sampled(words: Seq<u64>, rows: nat, cols: nat) -> Grid<T> {
        Grid { rows, cols, cells: Seq::new(words.len(), |i: int| T::sample(words[i])) }
    }

    /// Same shape, and each cell numerically equal to the cell in its place.
    pub open spec fn equal(self, other: Grid<T>) -> bool {
        &&& self.same_shape(other)
        &&& forall|i: int| 0 <= i < self.cells.len() ==> #[trigger] self.cells[i].same(other.cells[i])
    }

    /// Cell by cell, `self` plus `other`.
    pub open spec fn plus(self, other: Grid<T>) -> Grid<T> {
        Grid {
            rows: self.rows,
            cols: self.cols,
            cells: Seq::new(self.cells.len(), |i: int| self.cells[i].sum(other.cells[i])),
        }
    }

    /// Cell by cell, `self` minus `other`.
    pub open spec fn minus(self, other: Grid<T>) -> Grid<T> {
        Grid {
            rows: self.rows,
            cols: self.cols,
            cells: Seq::new(self.cells.len(), |i: int| self.cells[i].diff(other.cells[i])),
        }
    }

    /// Cell by cell, `self` times `other`.
    pub open spec fn hadamard(self, other: Grid<T>) -> Grid<T> {
        Grid {
            rows: self.rows,
            cols: self.cols,
            cells: Seq::new(self.cells.len(), |i: int| self.cells[i].prod(other.cells[i])),
        }
    }

    /// Each cell plus `k`.
    pub open spec fn plus_scalar(self, k: T) -> Grid<T> {
        Grid {
            rows: self.rows,
            cols: self.cols,
            cells: Seq::new(self.cells.len(), |i: int| self.cells[i].sum(k)),
        }
    }

    /// Each cell minus `k`.
    pub open spec fn minus_scalar(self, k: T) -> Grid<T> {
        Grid {
            rows: self.rows,
            cols: self.cols,
            cells: Seq::new(self.cells.len(), |i: int| self.cells[i].diff(k)),
        }
    }

    /// Each cell times `k`.
    pub open spec fn times_scalar(self, k: T) -> Grid<T> {
        Grid {
            rows: self.rows,
            cols: self.cols,
            cells: Seq::new(self.cells.len(), |i: int| self.cells[i].prod(k)),
        }
    }

    /// The first `n` terms of the dot product of row `r` of `self` with
    /// column `c` of `other`, added from left to right.
    pub open spec fn dot(self, other: Grid<T>, r: int, c: int, n: nat) -> T
        decreases n,
    {
        if n == 0 {
            T::null()
        } else {
            self.dot(other, r, c, (n - 1) as nat).sum(
                self.at(r, n - 1).prod(other.at(n - 1, c)),
            )
        }
    }

    /// The matrix product of `self` and `other`.
    pub open spec fn product(self, other: Grid<T>) -> Grid<T> {
        Grid {
            rows: self.rows,
            cols: other.cols,
            cells: Seq::new(
                self.rows * other.cols,
                |i: int| self.dot(other, i / (other.cols as int), i % (other.cols as int), self.cols),
            ),
        }
    }

    /// The sum that output cell (`i`, `j`) of a convolution has gathered after
    /// the first `n` kernel cells, taken in row-major order. A kernel cell
    /// whose place on the input lies in the padding adds nothing.
    pub open spec fn conv_partial(
        self,
        kernel: Grid<T>,
        stride: int,
        padding: int,
        i: int,
        j: int,
        n: nat,
    ) -> T
        decreases n,
    {
        if n == 0 {
            T::null()
        } else {
            let before = self.conv_partial(kernel, stride, padding, i, j, (n - 1) as nat);
            let k = (n - 1) / (kernel.cols as int);
            let l = (n - 1) % (kernel.cols as int);
            match (
                resolve(i, k, stride, padding, self.rows as int),
                resolve(j, l, stride, padding, self.cols as int),
            ) {
                (Some(r), Some(c)) => before.sum(self.at(r, c).prod(kernel.at(k, l))),
                _ => before,
            }
        }
    }

    /// The cross-correlation of `self` with `kernel`, over an input that is
    /// padded with `padding` zero cells on every side.
    pub open spec fn convolved(self, kernel: Grid<T>, stride: int, padding: int) -> Grid<T> {
        let (rows, cols) = conv_shape(
            (self.rows, self.cols),
            (kernel.rows, kernel.cols),
            stride,
            padding,
        );
        Grid {
            rows,
            cols,
            cells: Seq::new(
                rows * cols,
                |x: int|
                    self.conv_partial(
                        kernel,
                        stride,
                        padding,
                        x / (cols as int),
                        x % (cols as int),
                        kernel.rows * kernel.cols,
                    ),
            ),
        }
    }

    /// For a grid that was the input of a convolution: the sum that cell
    /// (`k`, `l`) of the kernel's gradient has gathered after the first `n`
    /// output cells, taken in row-major order. An output cell adds the
    /// product of its gradient and the input cell that the kernel cell lay
    /// on, and nothing where that was padding.
    pub open spec fn kernel_gradient_partial(
        self,
        gradient: Grid<T>,
        stride: int,
        padding: int,
        k: int,
        l: int,
        n: nat,
    ) -> T
        decreases n,
    {
        if n == 0 {
            T::null()
        } else {
            let before = self.kernel_gradient_partial(gradient, stride, padding, k, l, (n - 1) as nat);
            let i = (n - 1) / (gradient.cols as int);
            let j = (n - 1) % (gradient.cols as int);
            match (
                resolve(i, k, stride, padding, self.rows as int),
                resolve(j, l, stride, padding, self.cols as int),
            ) {
                (Some(r), Some(c)) => before.sum(self.at(r, c).prod(gradient.at(i, j))),
                _ => before,
            }
        }
    }

    /// For a grid that was the input of a convolution with a kernel of the
    /// given shape: the gradient of the loss in the kernel, given the
    /// gradient of the loss in the convolution's output.
    pub open spec fn kernel_gradient(
        self,
        gradient: Grid<T>,
        rows: nat,
        cols: nat,
        stride: int,
        padding: int,
    ) -> Grid<T> {
        Grid {
            rows,
            cols,
            cells: Seq::new(
                rows * cols,
                |x: int|
                    self.kernel_gradient_partial(
                        gradient,
                        stride,
                        padding,
                        x / (cols as int),
                        x % (cols as int),
                        gradient.rows * gradient.cols,
                    ),
            ),
        }
    }

    /// For a kernel: what input cell (`a`, `b`) holds after output cell
    /// (`i`, `j`) has handed its gradient back through the first `n` kernel
    /// cells, having held `held` before. A kernel cell that lay on (`a`, `b`)
    /// adds the product of its weight and the output cell's gradient.
    pub open spec fn scattered(
        self,
        gradient: Grid<T>,
        stride: int,
        padding: int,
        shape: (nat, nat),
        i: int,
        j: int,
        a: int,
        b: int,
        held: T,
        n: nat,
    ) -> T
        decreases n,
    {
        if n == 0 {
            held
        } else {
            let before = self.scattered(
                gradient,
                stride,
                padding,
                shape,
                i,
                j,
                a,
                b,
                held,
                (n - 1) as nat,
            );
            let k = (n - 1) / (self.cols as int);
            let l = (n - 1) % (self.cols as int);
            if resolve(i, k, stride, padding, shape.0 as int) == Some(a) && resolve(
                j,
                l,
                stride,
                padding,
                shape.1 as int,
            ) == Some(b) {
                before.sum(self.at(k, l).prod(gradient.at(i, j)))
            } else {
                before
            }
        }
    }

    /// For a kernel: what input cell (`a`, `b`) holds after the first `n`
    /// output cells, taken in row-major order, have handed their gradients
    /// back through the whole kernel.
    pub open spec fn input_gradient_partial(
        self,
        gradient: Grid<T>,
        stride: int,
        padding: int,
        shape: (nat, nat),
        a: int,
        b: int,
        n: nat,
    ) -> T
        decreases n,
    {
        if n == 0 {
            T::null()
        } else {
            self.scattered(
                gradient,
                stride,
                padding,
                shape,
                (n - 1) / (gradient.cols as int),
                (n - 1) % (gradient.cols as int),
                a,
                b,
                self.input_gradient_partial(gradient, stride, padding, shape, a, b, (n - 1) as nat),
                self.rows * self.cols,
            )
        }
    }

    /// For a kernel: the gradient of the loss in a convolution's input of
    /// the given shape, given the gradient of the loss in its output.
    pub open spec fn input_gradient(
        self,
        gradient: Grid<T>,
        stride: int,
        padding: int,
        shape: (nat, nat),
    ) -> Grid<T> {
        Grid {
            rows: shape.0,
            cols: shape.1,
            cells: Seq::new(
                shape.0 * shape.1,
                |x: int|
                    self.input_gradient_partial(
                        gradient,
                        stride,
                        padding,
                        shape,
                        x / (shape.1 as int),
                        x % (shape.1 as int),
                        gradient.rows * gradient.cols,
                    ),
            ),
        }
    }
}

} // verus!
