use vstd::prelude::*;

use crate::num::Num;

verus! {

/// `max(0, x)` over the named scalar operations: zero when `x` is below
/// zero, else `x` itself.
pub open spec fn relu_value_spec<T: Num>(x: T) -> T {
    if x.lt_spec(T::zero_spec()) {
        T::zero_spec()
    } else {
        x
    }
}

/// The rectifier's slope: one for arguments strictly above zero, else zero.
pub open spec fn relu_slope_spec<T: Num>(x: T) -> T {
    if T::zero_spec().lt_spec(x) {
        T::one_spec()
    } else {
        T::zero_spec()
    }
}

/// The exponential linear unit: `e^x - 1` when `x` is below zero, else `x`.
pub open spec fn elu_value_spec<T: Num>(x: T) -> T {
    if x.lt_spec(T::zero_spec()) {
        x.exp_spec().sub_spec(T::one_spec())
    } else {
        x
    }
}

/// The exponential linear unit's slope: `e^x` when `x` is below zero, else
/// one.
pub open spec fn elu_slope_spec<T: Num>(x: T) -> T {
    if x.lt_spec(T::zero_spec()) {
        x.exp_spec()
    } else {
        T::one_spec()
    }
}

/// The logistic sigmoid: `1 / (1 + e^-x)`.
pub open spec fn sigmoid_value_spec<T: Num>(x: T) -> T {
    T::one_spec().div_spec(T::one_spec().add_spec(x.neg_spec().exp_spec()))
}

/// The sigmoid's slope in terms of its own output `y`: `y * (1 - y)`.
pub open spec fn sigmoid_slope_spec<T: Num>(y: T) -> T {
    y.mul_spec(T::one_spec().sub_spec(y))
}

/// The activation capability: a pure pair of scalar functions, the activation
/// itself and the slope used by the backward pass.
///
/// Different activators can be used to train neural networks; they all share
/// the same shape, so they are defined as a trait. All of them are stateless.
/// Each implementation names its two functions at the specification level
/// and promises its executable methods return exactly those values.
pub trait Activator<T: Num> {
    /// The activation value at `x`, as this activator defines it.
    spec fn activate_spec(&self, x: T) -> T;

    /// The slope at `x`, as this activator defines it.
    spec fn derived_spec(&self, x: T) -> T;

    /// The activation value at `x`.
    fn activate(&self, x: T) -> (r: T)
        ensures
            r == self.activate_spec(x),
    ;

    /// The local slope the backward pass multiplies the error with.
    ///
    /// The training step evaluates this on a layer's *post-activation*
    /// output for every activator uniformly. That is exact for the sigmoid
    /// (whose derivative is expressible in its own output) and is kept as the
    /// uniform rule here; see [`crate::network::Network::train`].
    fn derived(&self, x: T) -> (r: T)
        ensures
            r == self.derived_spec(x),
    ;
}

/// Rectified linear unit: `max(0, x)`; slope `1` for positive arguments,
/// `0` otherwise.
pub struct Relu;

impl<T: Num> Activator<T> for Relu {
    open spec fn activate_spec(&self, x: T) -> T {
        relu_value_spec(x)
    }

    open spec fn derived_spec(&self, x: T) -> T {
        relu_slope_spec(x)
    }

    fn activate(&self, x: T) -> (r: T) {
        if x.less_than(&T::zero()) {
            T::zero()
        } else {
            x
        }
    }

    fn derived(&self, x: T) -> (r: T) {
        if T::zero().less_than(&x) {
            T::one()
        } else {
            T::zero()
        }
    }
}

/// Exponential linear unit: `x` for `x >= 0`, else `e^x - 1`; slope `1` for
/// `x >= 0`, else `e^x`.
pub struct Elu;

impl<T: Num> Activator<T> for Elu {
    open spec fn activate_spec(&self, x: T) -> T {
        elu_value_spec(x)
    }

    open spec fn derived_spec(&self, x: T) -> T {
        elu_slope_spec(x)
    }

    fn activate(&self, x: T) -> (r: T) {
        if x.less_than(&T::zero()) {
            x.exp().minus(&T::one())
        } else {
            x
        }
    }

    fn derived(&self, x: T) -> (r: T) {
        if x.less_than(&T::zero()) {
            x.exp()
        } else {
            T::one()
        }
    }
}

/// Logistic sigmoid: `1 / (1 + e^-x)`. Its slope is evaluated on the
/// already-activated output `y` as `y * (1 - y)`, which is exact for this
/// activator.
pub struct Sigmoid;

impl<T: Num> Activator<T> for Sigmoid {
    open spec fn activate_spec(&self, x: T) -> T {
        sigmoid_value_spec(x)
    }

    open spec fn derived_spec(&self, x: T) -> T {
        sigmoid_slope_spec(x)
    }

    fn activate(&self, x: T) -> (r: T) {
        T::one().div_by(&T::one().plus(&x.negate().exp()))
    }

    fn derived(&self, x: T) -> (r: T) {
        x.times(&T::one().minus(&x))
    }
}

/// The closed set of activators a layer can be bound to, as a tagged value a
/// layer can store and dispatch on.
#[derive(Clone, Copy, PartialEq, Eq, Structural, Debug)]
pub enum Activation {
    Sigmoid,
    Relu,
    Elu,
}

impl Activation {
    /// The activation value the selected activator gives at `x`.
    pub open spec fn activate_spec<T: Num>(self, x: T) -> T {
        match self {
            Activation::Sigmoid => sigmoid_value_spec(x),
            Activation::Relu => relu_value_spec(x),
            Activation::Elu => elu_value_spec(x),
        }
    }

    /// The slope the selected activator gives at `x`.
    pub open spec fn derived_spec<T: Num>(self, x: T) -> T {
        match self {
            Activation::Sigmoid => sigmoid_slope_spec(x),
            Activation::Relu => relu_slope_spec(x),
            Activation::Elu => elu_slope_spec(x),
        }
    }

    /// Dispatches [`Activator::activate`] for the selected activator.
    pub fn activate<T: Num>(&self, x: T) -> (r: T)
        ensures
            r == self.activate_spec(x),
    {
        match self {
            Activation::Sigmoid => Sigmoid.activate(x),
            Activation::Relu => Relu.activate(x),
            Activation::Elu => Elu.activate(x),
        }
    }

    /// Dispatches [`Activator::derived`] for the selected activator.
    pub fn derived<T: Num>(&self, x: T) -> (r: T)
        ensures
            r == self.derived_spec(x),
    {
        match self {
            Activation::Sigmoid => Sigmoid.derived(x),
            Activation::Relu => Relu.derived(x),
            Activation::Elu => Elu.derived(x),
        }
    }
}

} // verus!
