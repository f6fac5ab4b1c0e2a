//! A dense row-major matrix and its linear algebra.
use crate::error::Error;
use crate::grid::conv_defined;
use crate::grid::conv_extent;
use crate::grid::conv_fits;
use crate::grid::lemma_cell_index;
use crate::grid::resolve;
use crate::grid::Grid;
use crate::scalar::Scalar;
use vstd::prelude::*;

verus! {

/// A dense matrix: a shape, and a buffer of its cells in row-major order.
pub struct Matrix<T> {
    rows: usize,
    cols: usize,
    data: Vec<T>,
}

impl<T> View for Matrix<T> {
    type V = Grid<T>;

    closed spec fn view(&self) -> Grid<T> {
        Grid { rows: self.rows as nat, cols: self.cols as nat, cells: self.data@ }
    }
}

/// One word from the generator that `rand::thread_rng` hands to the calling
/// thread, drawn with `RngCore::next_u64`. Nothing is claimed of the word.
#[verifier::external_body]
fn random_word() -> (word: u64) {
    rand::RngCore::next_u64(&mut rand::thread_rng())
}

/// Where output position `out` and kernel offset `offset` land on an input
/// axis of length `extent`, or `None` where they land in the padding.
pub fn resolve_index(out: usize, offset: usize, stride: usize, padding: usize, extent: usize) -> (at:
    Option<usize>)
    ensures
        match at {
            Some(x) => resolve(out as int, offset as int, stride as int, padding as int, extent as int)
                == Some(x as int),
            None => resolve(out as int, offset as int, stride as int, padding as int, extent as int)
                .is_none(),
        },
{
    assert(0 <= out * stride <= 0xffff_ffff_ffff_ffff * 0xffff_ffff_ffff_ffff) by (nonlinear_arith)
        requires
            0 <= out <= 0xffff_ffff_ffff_ffff,
            0 <= stride <= 0xffff_ffff_ffff_ffff,
    ;
    let padded: u128 = (out as u128) * (stride as u128) + (offset as u128);
    if padded < padding as u128 {
        None
    } else if padded - padding as u128 >= extent as u128 {
        None
    } else {
        Some((padded - padding as u128) as usize)
    }
}

/// The length of a convolution's output along one axis, or `None` where the
/// kernel does not fit the padded input, the stride is zero, or a length
/// does not fit the machine's word.
pub fn output_extent(extent: usize, kernel: usize, stride: usize, padding: usize) -> (n: Option<
    usize,
>)
    ensures
        match n {
            Some(x) => {
                &&& conv_fits(extent as int, kernel as int, stride as int, padding as int)
                &&& extent + 2 * padding <= usize::MAX
                &&& x == conv_extent(extent as int, kernel as int, stride as int, padding as int)
            },
            None => {
                ||| !conv_fits(extent as int, kernel as int, stride as int, padding as int)
                ||| extent + 2 * padding > usize::MAX
                ||| conv_extent(extent as int, kernel as int, stride as int, padding as int)
                    > usize::MAX
            },
        },
{
    if stride == 0 {
        return None;
    }
    let both: usize = match padding.checked_mul(2) {
        Some(b) => b,
        None => {
            return None;
        },
    };
    let padded: usize = match extent.checked_add(both) {
        Some(p) => p,
        None => {
            return None;
        },
    };
    if kernel > padded {
        return None;
    }
    let steps: usize = (padded - kernel) / stride;
    steps.checked_add(1)
}

impl<T: Scalar> Matrix<T> {
    /// The invariant of the type: the buffer holds one value per cell.
    pub open spec fn wf(&self) -> bool {
        self@.wf()
    }

    /// A matrix of the given shape whose cells are all zero.
    pub fn new(rows: usize, cols: usize) -> (m: Matrix<T>)
        ensures
            m.wf(),
            m@ == Grid::<T>::zeros(rows as nat, cols as nat),
    {
        let mut data: Vec<T> = Vec::new();
        let mut r: usize = if cols == 0 {
            rows
        } else {
            0
        };
        assert(r * cols == 0) by (nonlinear_arith)
            requires
                r == 0 || cols == 0,
        ;
        while r < rows
            invariant
                r <= rows,
                data@.len() == r * cols,
                forall|k: int| 0 <= k < data@.len() ==> data@[k] == T::null(),
            decreases rows - r,
        {
            let mut c: usize = 0;
            while c < cols
                invariant
                    c <= cols,
                    data@.len() == r * cols + c,
                    forall|k: int| 0 <= k < data@.len() ==> data@[k] == T::null(),
                decreases cols - c,
            {
                data.push(T::zero());
                c += 1;
            }
            proof {
                assert((r + 1) * cols == r * cols + cols) by (nonlinear_arith);
            }
            r += 1;
        }
        assert(data@ =~= Grid::<T>::zeros(rows as nat, cols as nat).cells);
        Matrix { rows, cols, data }
    }

    /// Whether `other` has the shape of this matrix and, cell by cell, values
    /// that are numerically equal to its own.
    pub fn equals(&self, other: &Matrix<T>) -> (same: bool)
        requires
            self.wf(),
            other.wf(),
        ensures
            same == self@.equal(other@),
    {
        if self.rows != other.rows || self.cols != other.cols {
            return false;
        }
        let n: usize = self.data.len();
        let mut i: usize = 0;
        while i < n
            invariant
                n == self.data@.len(),
                n == other.data@.len(),
                i <= n,
                forall|k: int| 0 <= k < i ==> #[trigger] self.data@[k].same(other.data@[k]),
            decreases n - i,
        {
            if !self.data[i].equals(other.data[i]) {
                assert(!self@.cells[i as int].same(other@.cells[i as int]));
                return false;
            }
            i += 1;
        }
        true
    }

    /// Whether the buffer holds one value per cell.
    pub fn is_well_formed(&self) -> (ok: bool)
        ensures
            ok == self.wf(),
    {
        let held: usize = self.data.len();
        match self.rows.checked_mul(self.cols) {
            Some(cells) => held == cells,
            None => false,
        }
    }

    /// The number of rows.
    pub fn get_num_rows(&self) -> (n: usize)
        ensures
            n == self@.rows,
    {
        self.rows
    }

    /// The number of columns.
    pub fn get_num_cols(&self) -> (n: usize)
        ensures
            n == self@.cols,
    {
        self.cols
    }

    /// A matrix of the given shape over the given buffer of cells in
    /// row-major order, which must hold one value per cell.
    pub fn from_vec(data: Vec<T>, rows: usize, cols: usize) -> (result: Result<Matrix<T>, Error>)
        ensures
            match result {
                Ok(m) => data@.len() == rows * cols && m.wf() && m@ == (Grid {
                    rows: rows as nat,
                    cols: cols as nat,
                    cells: data@,
                }),
                Err(e) => data@.len() != rows * cols && e == Error::LengthMismatch,
            },
    {
        match rows.checked_mul(cols) {
            Some(cells) => {
                if data.len() == cells {
                    Ok(Matrix { rows, cols, data })
                } else {
                    Err(Error::LengthMismatch)
                }
            },
            None => {
                assert(data@.len() == data.len());
                Err(Error::LengthMismatch)
            },
        }
    }

    /// A matrix of the given shape whose cells are picked, in row-major
    /// order, by the given words of random bits.
    pub fn from_samples(words: &Vec<u64>, rows: usize, cols: usize) -> (result: Result<
        Matrix<T>,
        Error,
    >)
        ensures
            match result {
                Ok(m) => words@.len() == rows * cols && m.wf() && m@ == Grid::<T>::sampled(
                    words@,
                    rows as nat,
                    cols as nat,
                ),
                Err(e) => words@.len() != rows * cols && e == Error::LengthMismatch,
            },
    {
        let n: usize = words.len();
        match rows.checked_mul(cols) {
            Some(cells) => {
                if n != cells {
                    return Err(Error::LengthMismatch);
                }
            },
            None => {
                return Err(Error::LengthMismatch);
            },
        }
        let mut data: Vec<T> = Vec::new();
        let mut i: usize = 0;
        while i < n
            invariant
                n == words@.len(),
                i <= n,
                data@.len() == i,
                forall|k: int| 0 <= k < i ==> data@[k] == T::sample(words@[k]),
            decreases n - i,
        {
            data.push(T::from_sample(words[i]));
            i += 1;
        }
        assert(data@ =~= Grid::<T>::sampled(words@, rows as nat, cols as nat).cells);
        Ok(Matrix { rows, cols, data })
    }

    /// A matrix of the given shape whose cells are drawn independently from
    /// the symmetric unit range, with the calling thread's random generator.
    pub fn new_random(rows: usize, cols: usize) -> (m: Matrix<T>)
        ensures
            m.wf(),
            exists|words: Seq<u64>|
                words.len() == rows * cols && m@ == Grid::<T>::sampled(words, rows as nat, cols as nat),
    {
        let ghost mut words: Seq<u64> = Seq::empty();
        let mut data: Vec<T> = Vec::new();
        let mut r: usize = if cols == 0 {
            rows
        } else {
            0
        };
        assert(r * cols == 0) by (nonlinear_arith)
            requires
                r == 0 || cols == 0,
        ;
        while r < rows
            invariant
                r <= rows,
                data@.len() == r * cols,
                words.len() == data@.len(),
                forall|k: int| 0 <= k < data@.len() ==> data@[k] == T::sample(words[k]),
            decreases rows - r,
        {
            let mut c: usize = 0;
            while c < cols
                invariant
                    c <= cols,
                    data@.len() == r * cols + c,
                    words.len() == data@.len(),
                    forall|k: int| 0 <= k < data@.len() ==> data@[k] == T::sample(words[k]),
                decreases cols - c,
            {
                let word: u64 = random_word();
                data.push(T::from_sample(word));
                proof {
                    words = words.push(word);
                }
                c += 1;
            }
            proof {
                assert((r + 1) * cols == r * cols + cols) by (nonlinear_arith);
            }
            r += 1;
        }
        let m = Matrix { rows, cols, data };
        assert(m@.cells =~= Grid::<T>::sampled(words, rows as nat, cols as nat).cells);
        m
    }

    /// A matrix from its rows, which must be at least one and of one length.
    pub fn from_nested_vec(data: Vec<Vec<T>>) -> (result: Result<Matrix<T>, Error>)
        ensures
            match result {
                Ok(m) => {
                    &&& data@.len() > 0
                    &&& m.wf()
                    &&& m@.rows == data@.len()
                    &&& m@.cols == data@[0]@.len()
                    &&& forall|r: int| 0 <= r < data@.len() ==> (#[trigger] data@[r])@.len() == m@.cols
                    &&& forall|r: int, c: int|
                        0 <= r < m@.rows && 0 <= c < m@.cols ==> m@.at(r, c) == #[trigger] data@[r]@[c]
                },
                Err(e) => {
                    &&& e == Error::LengthMismatch
                    &&& data@.len() == 0 || exists|r: int|
                        0 <= r < data@.len() && (#[trigger] data@[r])@.len() != data@[0]@.len()
                },
            },
    {
        let rows: usize = data.len();
        if rows == 0 {
            return Err(Error::LengthMismatch);
        }
        let cols: usize = data[0].len();
        let mut values: Vec<T> = Vec::new();
        let mut r: usize = 0;
        while r < rows
            invariant
                rows == data@.len(),
                rows > 0,
                cols == data@[0]@.len(),
                r <= rows,
                values@.len() == r * cols,
                forall|k: int| 0 <= k < r ==> (#[trigger] data@[k])@.len() == cols,
                forall|a: int, b: int|
                    0 <= a < r && 0 <= b < cols ==> values@[a * cols + b] == #[trigger] data@[a]@[b],
            decreases rows - r,
        {
            let row: &Vec<T> = &data[r];
            if row.len() != cols {
                return Err(Error::LengthMismatch);
            }
            let mut c: usize = 0;
            while c < cols
                invariant
                    row == data@[r as int],
                    row@.len() == cols,
                    rows == data@.len(),
                    r < rows,
                    c <= cols,
                    values@.len() == r * cols + c,
                    forall|a: int, b: int|
                        0 <= a < r && 0 <= b < cols ==> values@[a * cols + b] == #[trigger] data@[a]@[b],
                    forall|b: int| 0 <= b < c ==> values@[r * cols + b] == #[trigger] row@[b],
                decreases cols - c,
            {
                let ghost before = values@;
                values.push(row[c]);
                proof {
                    assert forall|a: int, b: int| 0 <= a < r && 0 <= b < cols implies values@[a
                        * cols + b] == #[trigger] data@[a]@[b] by {
                        lemma_cell_index(r as int, cols as int, a, b);
                        assert(values@[a * cols + b] == before[a * cols + b]);
                    }
                }
                c += 1;
            }
            proof {
                assert((r + 1) * cols == r * cols + cols) by (nonlinear_arith);
            }
            r += 1;
        }
        assert(values@.len() == values.len());
        Ok(Matrix { rows, cols, data: values })
    }

    /// A copy with storage of its own.
    pub fn clone(&self) -> (m: Matrix<T>)
        ensures
            m@ == self@,
    {
        let n: usize = self.data.len();
        let mut data: Vec<T> = Vec::new();
        let mut i: usize = 0;
        while i < n
            invariant
                n == self.data@.len(),
                i <= n,
                data@.len() == i,
                forall|k: int| 0 <= k < i ==> data@[k] == self.data@[k],
            decreases n - i,
        {
            data.push(self.data[i]);
            i += 1;
        }
        assert(data@ =~= self.data@);
        Matrix { rows: self.rows, cols: self.cols, data }
    }

    /// A copy of the cells under another shape of as many cells.
    pub fn reshape(&self, rows: usize, cols: usize) -> (m: Matrix<T>)
        requires
            self.wf(),
            rows * cols == self@.rows * self@.cols,
        ensures
            m.wf(),
            m@ == self@.reshaped(rows as nat, cols as nat),
    {
        let copy = self.clone();
        Matrix { rows, cols, data: copy.data }
    }

    /// The cell in row `row` and column `col`.
    pub fn get(&self, row: usize, col: usize) -> (value: T)
        requires
            self.wf(),
            row < self@.rows,
            col < self@.cols,
        ensures
            value == self@.at(row as int, col as int),
    {
        proof {
            lemma_cell_index(self.rows as int, self.cols as int, row as int, col as int);
            assert(self.data@.len() == self.data.len());
        }
        self.data[row * self.cols + col]
    }

    /// The cells, in row-major order.
    pub fn get_data(&self) -> (data: &Vec<T>)
        ensures
            data@ == self@.cells,
    {
        &self.data
    }

    /// The cells, in row-major order, to be written to. The matrix is well
    /// formed afterwards if their number is left as it is.
    pub fn get_data_mut(&mut self) -> (data: &mut Vec<T>)
        ensures
            data@ == old(self)@.cells,
            final(self)@ == (Grid { rows: old(self)@.rows, cols: old(self)@.cols, cells: final(data)@ }),
    {
        &mut self.data
    }

    /// Writes `value` to the cell in row `row` and column `col`.
    pub fn set(&mut self, row: usize, col: usize, value: T) -> (this: &mut Matrix<T>)
        requires
            old(self).wf(),
            row < old(self)@.rows,
            col < old(self)@.cols,
        ensures
            this.wf(),
            this@ == (Grid {
                rows: old(self)@.rows,
                cols: old(self)@.cols,
                cells: old(self)@.cells.update(row * old(self)@.cols + col, value),
            }),
            *final(self) == *final(this),
    {
        proof {
            lemma_cell_index(self.rows as int, self.cols as int, row as int, col as int);
            assert(self.data@.len() == self.data.len());
        }
        self.data.set(row * self.cols + col, value);
        self
    }

    /// Adds `other` to this matrix cell by cell, in place.
    pub fn add_matrix(&mut self, other: &Matrix<T>) -> (result: Result<&mut Matrix<T>, Error>)
        requires
            old(self).wf(),
            other.wf(),
        ensures
            match result {
                Ok(this) => {
                    &&& old(self)@.same_shape(other@)
                    &&& this.wf()
                    &&& this@ == old(self)@.plus(other@)
                    &&& *final(self) == *final(this)
                },
                Err(e) => {
                    &&& !old(self)@.same_shape(other@)
                    &&& e == Error::ShapeMismatch
                    &&& *final(self) == *old(self)
                },
            },
    {
        if self.rows != other.rows || self.cols != other.cols {
            return Err(Error::ShapeMismatch);
        }
        let n: usize = self.data.len();
        let mut i: usize = 0;
        while i < n
            invariant
                n == self.data@.len(),
                n == other.data@.len(),
                self.rows == old(self).rows,
                self.cols == old(self).cols,
                i <= n,
                forall|k: int| 0 <= k < i ==> self.data@[k] == old(self).data@[k].sum(other.data@[k]),
                forall|k: int| i <= k < n ==> self.data@[k] == old(self).data@[k],
            decreases n - i,
        {
            let v = self.data[i].plus(other.data[i]);
            self.data.set(i, v);
            i += 1;
        }
        assert(self@.cells =~= old(self)@.plus(other@).cells);
        Ok(self)
    }

    /// Subtracts `other` from this matrix cell by cell, in place.
    pub fn sub_matrix(&mut self, other: &Matrix<T>) -> (result: Result<&mut Matrix<T>, Error>)
        requires
            old(self).wf(),
            other.wf(),
        ensures
            match result {
                Ok(this) => {
                    &&& old(self)@.same_shape(other@)
                    &&& this.wf()
                    &&& this@ == old(self)@.minus(other@)
                    &&& *final(self) == *final(this)
                },
                Err(e) => {
                    &&& !old(self)@.same_shape(other@)
                    &&& e == Error::ShapeMismatch
                    &&& *final(self) == *old(self)
                },
            },
    {
        if self.rows != other.rows || self.cols != other.cols {
            return Err(Error::ShapeMismatch);
        }
        let n: usize = self.data.len();
        let mut i: usize = 0;
        while i < n
            invariant
                n == self.data@.len(),
                n == other.data@.len(),
                self.rows == old(self).rows,
                self.cols == old(self).cols,
                i <= n,
                forall|k: int| 0 <= k < i ==> self.data@[k] == old(self).data@[k].diff(other.data@[k]),
                forall|k: int| i <= k < n ==> self.data@[k] == old(self).data@[k],
            decreases n - i,
        {
            let v = self.data[i].minus(other.data[i]);
            self.data.set(i, v);
            i += 1;
        }
        assert(self@.cells =~= old(self)@.minus(other@).cells);
        Ok(self)
    }

    /// Adds `scalar` to every cell, in place.
    pub fn add_scalar(&mut self, scalar: T) -> (this: &mut Matrix<T>)
        ensures
            old(self).wf() ==> this.wf(),
            this@ == old(self)@.plus_scalar(scalar),
            *final(self) == *final(this),
    {
        let n: usize = self.data.len();
        let mut i: usize = 0;
        while i < n
            invariant
                n == self.data@.len(),
                n == old(self).data@.len(),
                self.rows == old(self).rows,
                self.cols == old(self).cols,
                i <= n,
                forall|k: int| 0 <= k < i ==> self.data@[k] == old(self).data@[k].sum(scalar),
                forall|k: int| i <= k < n ==> self.data@[k] == old(self).data@[k],
            decreases n - i,
        {
            let v = self.data[i].plus(scalar);
            self.data.set(i, v);
            i += 1;
        }
        assert(self@.cells =~= old(self)@.plus_scalar(scalar).cells);
        self
    }

    /// Subtracts `scalar` from every cell, in place.
    pub fn sub_scalar(&mut self, scalar: T) -> (this: &mut Matrix<T>)
        ensures
            old(self).wf() ==> this.wf(),
            this@ == old(self)@.minus_scalar(scalar),
            *final(self) == *final(this),
    {
        let n: usize = self.data.len();
        let mut i: usize = 0;
        while i < n
            invariant
                n == self.data@.len(),
                n == old(self).data@.len(),
                self.rows == old(self).rows,
                self.cols == old(self).cols,
                i <= n,
                forall|k: int| 0 <= k < i ==> self.data@[k] == old(self).data@[k].diff(scalar),
                forall|k: int| i <= k < n ==> self.data@[k] == old(self).data@[k],
            decreases n - i,
        {
            let v = self.data[i].minus(scalar);
            self.data.set(i, v);
            i += 1;
        }
        assert(self@.cells =~= old(self)@.minus_scalar(scalar).cells);
        self
    }

    /// Multiplies every cell by `scalar`, in place.
    pub fn mul_scalar(&mut self, scalar: T) -> (this: &mut Matrix<T>)
        ensures
            old(self).wf() ==> this.wf(),
            this@ == old(self)@.times_scalar(scalar),
            *final(self) == *final(this),
    {
        let n: usize = self.data.len();
        let mut i: usize = 0;
        while i < n
            invariant
                n == self.data@.len(),
                n == old(self).data@.len(),
                self.rows == old(self).rows,
                self.cols == old(self).cols,
                i <= n,
                forall|k: int| 0 <= k < i ==> self.data@[k] == old(self).data@[k].prod(scalar),
                forall|k: int| i <= k < n ==> self.data@[k] == old(self).data@[k],
            decreases n - i,
        {
            let v = self.data[i].times(scalar);
            self.data.set(i, v);
            i += 1;
        }
        assert(self@.cells =~= old(self)@.times_scalar(scalar).cells);
        self
    }

    /// Multiplies this matrix by `other` cell by cell, in place.
    pub fn elementwise_mul(&mut self, other: &Matrix<T>) -> (result: Result<&mut Matrix<T>, Error>)
        requires
            old(self).wf(),
            other.wf(),
        ensures
            match result {
                Ok(this) => {
                    &&& old(self)@.same_shape(other@)
                    &&& this.wf()
                    &&& this@ == old(self)@.hadamard(other@)
                    &&& *final(self) == *final(this)
                },
                Err(e) => {
                    &&& !old(self)@.same_shape(other@)
                    &&& e == Error::ShapeMismatch
                    &&& *final(self) == *old(self)
                },
            },
    {
        if self.rows != other.rows || self.cols != other.cols {
            return Err(Error::ShapeMismatch);
        }
        let n: usize = self.data.len();
        let mut i: usize = 0;
        while i < n
            invariant
                n == self.data@.len(),
                n == other.data@.len(),
                self.rows == old(self).rows,
                self.cols == old(self).cols,
                i <= n,
                forall|k: int| 0 <= k < i ==> self.data@[k] == old(self).data@[k].prod(other.data@[k]),
                forall|k: int| i <= k < n ==> self.data@[k] == old(self).data@[k],
            decreases n - i,
        {
            let v = self.data[i].times(other.data[i]);
            self.data.set(i, v);
            i += 1;
        }
        assert(self@.cells =~= old(self)@.hadamard(other@).cells);
        Ok(self)
    }

    /// The transpose of `matrix`, as a new matrix.
    pub fn transpose(matrix: &Matrix<T>) -> (m: Matrix<T>)
        requires
            matrix.wf(),
        ensures
            m.wf(),
            m@ == matrix@.transposed(),
    {
        let rows: usize = matrix.rows;
        let cols: usize = matrix.cols;
        let mut data: Vec<T> = Vec::new();
        let mut j: usize = 0;
        while j < cols
            invariant
                matrix.wf(),
                rows == matrix.rows,
                cols == matrix.cols,
                j <= cols,
                data@.len() == j * rows,
                forall|x: int|
                    0 <= x < data@.len() ==> data@[x] == matrix@.at(x % (rows as int), x / (rows as int)),
            decreases cols - j,
        {
            let mut i: usize = 0;
            while i < rows
                invariant
                    matrix.wf(),
                    rows == matrix.rows,
                    cols == matrix.cols,
                    j < cols,
                    i <= rows,
                    data@.len() == j * rows + i,
                    forall|x: int|
                        0 <= x < data@.len() ==> data@[x] == matrix@.at(
                            x % (rows as int),
                            x / (rows as int),
                        ),
                decreases rows - i,
            {
                proof {
                    lemma_cell_index(cols as int, rows as int, j as int, i as int);
                }
                data.push(matrix.get(i, j));
                i += 1;
            }
            proof {
                assert((j + 1) * rows == j * rows + rows) by (nonlinear_arith);
            }
            j += 1;
        }
        proof {
            assert(cols * rows == rows * cols) by (nonlinear_arith);
            assert(data@ =~= matrix@.transposed().cells);
        }
        Matrix { rows: cols, cols: rows, data }
    }

    /// The matrix product of `matrix_1` and `matrix_2`.
    pub fn mul(matrix_1: &Matrix<T>, matrix_2: &Matrix<T>) -> (result: Result<Matrix<T>, Error>)
        requires
            matrix_1.wf(),
            matrix_2.wf(),
        ensures
            match result {
                Ok(m) => {
                    &&& matrix_1@.cols == matrix_2@.rows
                    &&& m.wf()
                    &&& m@.rows == matrix_1@.rows
                    &&& m@.cols == matrix_2@.cols
                    &&& m@ == matrix_1@.product(matrix_2@)
                },
                Err(e) => matrix_1@.cols != matrix_2@.rows && e == Error::ShapeMismatch,
            },
    {
        if matrix_1.cols != matrix_2.rows {
            return Err(Error::ShapeMismatch);
        }
        let rows: usize = matrix_1.rows;
        let cols: usize = matrix_2.cols;
        let inner: usize = matrix_1.cols;
        let mut data: Vec<T> = Vec::new();
        let mut row: usize = 0;
        while row < rows
            invariant
                matrix_1.wf(),
                matrix_2.wf(),
                rows == matrix_1.rows,
                cols == matrix_2.cols,
                inner == matrix_1.cols,
                inner == matrix_2.rows,
                row <= rows,
                data@.len() == row * cols,
                forall|x: int|
                    0 <= x < data@.len() ==> data@[x] == matrix_1@.dot(
                        matrix_2@,
                        x / (cols as int),
                        x % (cols as int),
                        inner as nat,
                    ),
            decreases rows - row,
        {
            let mut col: usize = 0;
            while col < cols
                invariant
                    matrix_1.wf(),
                    matrix_2.wf(),
                    rows == matrix_1.rows,
                    cols == matrix_2.cols,
                    inner == matrix_1.cols,
                    inner == matrix_2.rows,
                    row < rows,
                    col <= cols,
                    data@.len() == row * cols + col,
                    forall|x: int|
                        0 <= x < data@.len() ==> data@[x] == matrix_1@.dot(
                            matrix_2@,
                            x / (cols as int),
                            x % (cols as int),
                            inner as nat,
                        ),
                decreases cols - col,
            {
                let mut elem: T = T::zero();
                let mut i: usize = 0;
                while i < inner
                    invariant
                        matrix_1.wf(),
                        matrix_2.wf(),
                        inner == matrix_1.cols,
                        inner == matrix_2.rows,
                        row < matrix_1.rows,
                        col < matrix_2.cols,
                        i <= inner,
                        elem == matrix_1@.dot(matrix_2@, row as int, col as int, i as nat),
                    decreases inner - i,
                {
                    elem = elem.plus(matrix_1.get(row, i).times(matrix_2.get(i, col)));
                    i += 1;
                }
                proof {
                    lemma_cell_index(rows as int, cols as int, row as int, col as int);
                }
                data.push(elem);
                col += 1;
            }
            proof {
                assert((row + 1) * cols == row * cols + cols) by (nonlinear_arith);
            }
            row += 1;
        }
        proof {
            assert(data@ =~= matrix_1@.product(matrix_2@).cells);
        }
        Ok(Matrix { rows, cols, data })
    }

    /// The cross-correlation of `matrix` with `kernel`: the kernel is laid on
    /// the input every `stride` cells, the input being padded with `padding`
    /// zero cells on every side, and each output cell is the sum of the
    /// products of the cells that lie on one another.
    pub fn convolve(matrix: &Matrix<T>, kernel: &Matrix<T>, stride: usize, padding: usize) -> (m:
        Matrix<T>)
        requires
            matrix.wf(),
            kernel.wf(),
            conv_defined(
                (matrix@.rows, matrix@.cols),
                (kernel@.rows, kernel@.cols),
                stride as int,
                padding as int,
            ),
        ensures
            m.wf(),
            m@.rows == (matrix@.rows + 2 * padding - kernel@.rows) / (stride as int) + 1,
            m@.cols == (matrix@.cols + 2 * padding - kernel@.cols) / (stride as int) + 1,
            m@ == matrix@.convolved(kernel@, stride as int, padding as int),
    {
        let rows: usize = (matrix.rows + 2 * padding - kernel.rows) / stride + 1;
        let cols: usize = (matrix.cols + 2 * padding - kernel.cols) / stride + 1;
        let mut data: Vec<T> = Vec::new();
        let mut i: usize = 0;
        while i < rows
            invariant
                matrix.wf(),
                kernel.wf(),
                i <= rows,
                data@.len() == i * cols,
                forall|x: int|
                    0 <= x < data@.len() ==> data@[x] == matrix@.conv_partial(
                        kernel@,
                        stride as int,
                        padding as int,
                        x / (cols as int),
                        x % (cols as int),
                        kernel@.rows * kernel@.cols,
                    ),
            decreases rows - i,
        {
            let mut j: usize = 0;
            while j < cols
                invariant
                    matrix.wf(),
                    kernel.wf(),
                    i < rows,
                    j <= cols,
                    data@.len() == i * cols + j,
                    forall|x: int|
                        0 <= x < data@.len() ==> data@[x] == matrix@.conv_partial(
                            kernel@,
                            stride as int,
                            padding as int,
                            x / (cols as int),
                            x % (cols as int),
                            kernel@.rows * kernel@.cols,
                        ),
                decreases cols - j,
            {
                let sum: T = Self::convolve_cell(matrix, kernel, stride, padding, i, j);
                proof {
                    lemma_cell_index(rows as int, cols as int, i as int, j as int);
                }
                data.push(sum);
                j += 1;
            }
            proof {
                assert((i + 1) * cols == i * cols + cols) by (nonlinear_arith);
            }
            i += 1;
        }
        proof {
            assert(data@ =~= matrix@.convolved(kernel@, stride as int, padding as int).cells);
        }
        Matrix { rows, cols, data }
    }

    /// One output cell of a convolution.
    fn convolve_cell(
        matrix: &Matrix<T>,
        kernel: &Matrix<T>,
        stride: usize,
        padding: usize,
        i: usize,
        j: usize,
    ) -> (sum: T)
        requires
            matrix.wf(),
            kernel.wf(),
        ensures
            sum == matrix@.conv_partial(
                kernel@,
                stride as int,
                padding as int,
                i as int,
                j as int,
                kernel@.rows * kernel@.cols,
            ),
    {
        let mut sum: T = T::zero();
        let mut k: usize = 0;
        while k < kernel.rows
            invariant
                matrix.wf(),
                kernel.wf(),
                k <= kernel.rows,
                sum == matrix@.conv_partial(
                    kernel@,
                    stride as int,
                    padding as int,
                    i as int,
                    j as int,
                    (k * kernel.cols) as nat,
                ),
            decreases kernel.rows - k,
        {
            let mut l: usize = 0;
            while l < kernel.cols
                invariant
                    matrix.wf(),
                    kernel.wf(),
                    k < kernel.rows,
                    l <= kernel.cols,
                    sum == matrix@.conv_partial(
                        kernel@,
                        stride as int,
                        padding as int,
                        i as int,
                        j as int,
                        (k * kernel.cols + l) as nat,
                    ),
                decreases kernel.cols - l,
            {
                proof {
                    lemma_cell_index(kernel.rows as int, kernel.cols as int, k as int, l as int);
                }
                let row = resolve_index(i, k, stride, padding, matrix.rows);
                let col = resolve_index(j, l, stride, padding, matrix.cols);
                match (row, col) {
                    (Some(r), Some(c)) => {
                        sum = sum.plus(matrix.get(r, c).times(kernel.get(k, l)));
                    },
                    _ => {},
                }
                l += 1;
            }
            proof {
                assert((k + 1) * kernel.cols == k * kernel.cols + kernel.cols) by (nonlinear_arith);
            }
            k += 1;
        }
        sum
    }
}

} // verus!
