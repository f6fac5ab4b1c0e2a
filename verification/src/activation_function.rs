//! Scalar functions with their derivatives, and how they act on a matrix.
use crate::matrix::Matrix;
use crate::scalar::Scalar;
use vstd::prelude::*;

verus! {

/// A scalar function and its derivative.
pub trait ActivationFunction<T: Scalar>: Sized {
    /// The function's value at `x`.
    spec fn value(&self, x: T) -> T;

    /// The derivative's value at `x`.
    spec fn slope(&self, x: T) -> T;

    /// The function's value at `x`.
    fn function(&self, x: T) -> (y: T)
        ensures
            y == self.value(x),
    ;

    /// The derivative's value at `x`.
    fn derivative(&self, x: T) -> (y: T)
        ensures
            y == self.slope(x),
    ;

    /// The function applied to every cell of `input`.
    fn forward(&self, input: &Matrix<T>) -> (output: Matrix<T>)
        ensures
            output@ == input@.mapped(|x: T| self.value(x)),
    {
        let mut output = input.clone();
        let output_data = output.get_data_mut();
        let n: usize = output_data.len();
        let mut i: usize = 0;
        while i < n
            invariant
                n == output_data@.len(),
                n == input@.cells.len(),
                i <= n,
                forall|k: int| 0 <= k < i ==> output_data@[k] == self.value(input@.cells[k]),
                forall|k: int| i <= k < n ==> output_data@[k] == input@.cells[k],
            decreases n - i,
        {
            let y = self.function(output_data[i]);
            output_data.set(i, y);
            i += 1;
        }
        assert(output_data@ =~= input@.mapped(|x: T| self.value(x)).cells);
        output
    }

    /// The derivative applied to every cell of `input`.
    fn backwards(&self, input: &Matrix<T>) -> (output: Matrix<T>)
        ensures
            output@ == input@.mapped(|x: T| self.slope(x)),
    {
        let mut output = input.clone();
        let output_data = output.get_data_mut();
        let n: usize = output_data.len();
        let mut i: usize = 0;
        while i < n
            invariant
                n == output_data@.len(),
                n == input@.cells.len(),
                i <= n,
                forall|k: int| 0 <= k < i ==> output_data@[k] == self.slope(input@.cells[k]),
                forall|k: int| i <= k < n ==> output_data@[k] == input@.cells[k],
            decreases n - i,
        {
            let y = self.derivative(output_data[i]);
            output_data.set(i, y);
            i += 1;
        }
        assert(output_data@ =~= input@.mapped(|x: T| self.slope(x)).cells);
        output
    }
}

/// The rectifier: the identity above zero, and zero elsewhere.
pub struct ReLU;

impl<T: Scalar> ActivationFunction<T> for ReLU {
    open spec fn value(&self, x: T) -> T {
        if x.positive() {
            x
        } else {
            T::null()
        }
    }

    open spec fn slope(&self, x: T) -> T {
        if x.positive() {
            T::unit()
        } else {
            T::null()
        }
    }

    fn function(&self, x: T) -> (y: T) {
        if x.is_positive() {
            x
        } else {
            T::zero()
        }
    }

    fn derivative(&self, x: T) -> (y: T) {
        if x.is_positive() {
            T::one()
        } else {
            T::zero()
        }
    }
}

/// The rectifier with a slope of `alpha` at and below zero.
pub struct LeakyReLU<T> {
    alpha: T,
}

impl<T: Scalar> LeakyReLU<T> {
    /// The slope at and below zero.
    pub closed spec fn leak(&self) -> T {
        self.alpha
    }

    /// The rectifier that leaks with the slope `alpha`.
    pub fn new(alpha: T) -> (f: LeakyReLU<T>)
        ensures
            f.leak() == alpha,
    {
        LeakyReLU { alpha }
    }
}

impl<T: Scalar> ActivationFunction<T> for LeakyReLU<T> {
    open spec fn value(&self, x: T) -> T {
        if x.positive() {
            x
        } else {
            self.leak().prod(x)
        }
    }

    open spec fn slope(&self, x: T) -> T {
        if x.positive() {
            T::unit()
        } else {
            self.leak()
        }
    }

    fn function(&self, x: T) -> (y: T) {
        if x.is_positive() {
            x
        } else {
            self.alpha.times(x)
        }
    }

    fn derivative(&self, x: T) -> (y: T) {
        if x.is_positive() {
            T::one()
        } else {
            self.alpha
        }
    }
}

/// The logistic function, one over one plus the exponential of minus `x`.
///
/// The exponential is not an operation of a scalar, so the type has no
/// implementation of [`ActivationFunction`] here. One for a scalar that has
/// an exponential takes it, and leaves the rest to these two functions.
pub struct Sigmoid;

impl Sigmoid {
    /// The function's value at `x`, given the exponential of minus `x`.
    pub fn function_from<T: Scalar>(exponential: T) -> (y: T)
        ensures
            y == T::unit().quot(T::unit().sum(exponential)),
    {
        T::one().over(T::one().plus(exponential))
    }

    /// The derivative's value at `x`, given the function's value at `x`: the
    /// value times one minus the value.
    pub fn derivative_from<T: Scalar>(value: T) -> (y: T)
        ensures
            y == value.prod(T::unit().diff(value)),
    {
        value.times(T::one().minus(value))
    }
}

/// The hyperbolic tangent.
///
/// The tangent is not an operation of a scalar, so the type has no
/// implementation of [`ActivationFunction`] here. One for a scalar that has
/// a hyperbolic tangent takes it, and leaves the derivative to this function.
pub struct Tanh;

impl Tanh {
    /// The derivative's value at `x`, given the function's value at `x`: one
    /// minus the square of the value.
    pub fn derivative_from<T: Scalar>(value: T) -> (y: T)
        ensures
            y == T::unit().diff(value.prod(value)),
    {
        T::one().minus(value.times(value))
    }
}

} // verus!
