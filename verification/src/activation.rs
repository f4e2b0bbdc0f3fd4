use vstd::prelude::*;

use crate::numeric::{Numeric, Real};

verus! {

/// An elementwise nonlinearity, chosen once per layer.
///
/// `Softmax` here is elementwise, `e^x / (1 + e^x)` per value with no
/// normalization across the row — a deliberate simplification kept under
/// the traditional name.
#[derive(Debug, Clone, Copy, PartialEq, Eq, Structural)]
pub enum Activation {
    Sigmoid,
    ReLU,
    LeakyReLU,
    Tanh,
    Softmax,
    Linear,
}

impl Activation {
    /// What `activate` returns: the variant's curve at `x`, clamped into
    /// the scalar type's finite working band.
    pub open spec fn activate_spec<T: Real>(self, x: T) -> T {
        match self {
            Activation::Sigmoid => T::one_spec().div_spec(
                T::one_spec().add_spec(x.neg_spec().exp_spec()),
            ).clamp_spec(),
            Activation::ReLU => x.max_spec(T::zero_spec()).clamp_spec(),
            Activation::LeakyReLU => x.max_spec(T::small_slope_spec().mul_spec(x)).clamp_spec(),
            Activation::Tanh => x.tanh_spec().clamp_spec(),
            Activation::Softmax => x.exp_spec().div_spec(
                T::one_spec().add_spec(x.exp_spec()),
            ).clamp_spec(),
            Activation::Linear => x.clamp_spec(),
        }
    }

    /// What `deactivate` returns at an already-activated output `x`: the
    /// variant's local derivative expressed in terms of the output. The
    /// sigmoid and the elementwise softmax share one curve, so they share
    /// one output-based derivative, `x * (1 - x)`.
    pub open spec fn deactivate_spec<T: Real>(self, x: T) -> T {
        match self {
            Activation::Sigmoid => x.mul_spec(T::one_spec().sub_spec(x)).clamp_spec(),
            Activation::Softmax => x.mul_spec(T::one_spec().sub_spec(x)).clamp_spec(),
            Activation::ReLU => if T::zero_spec().lt_spec(x) {
                T::one_spec()
            } else {
                T::zero_spec()
            },
            Activation::LeakyReLU => if T::zero_spec().lt_spec(x) {
                T::one_spec()
            } else {
                T::small_slope_spec()
            },
            Activation::Tanh => T::one_spec().sub_spec(x.mul_spec(x)).clamp_spec(),
            Activation::Linear => T::one_spec(),
        }
    }

    /// Maps a pre-activation value to the post-activation value.
    pub fn activate<T: Real>(&self, x: T) -> (r: T)
        ensures
            r == self.activate_spec(x),
    {
        match self {
            Activation::Sigmoid => T::one().div(T::one().add(x.neg().exp())).clamp_finite(),
            Activation::ReLU => x.max_with(T::zero()).clamp_finite(),
            Activation::LeakyReLU => x.max_with(T::small_slope().mul(x)).clamp_finite(),
            Activation::Tanh => x.tanh().clamp_finite(),
            Activation::Softmax => {
                let exp_x = x.exp();
                exp_x.div(T::one().add(exp_x)).clamp_finite()
            },
            Activation::Linear => x.clamp_finite(),
        }
    }

    /// Maps a layer's already-activated output to the local derivative.
    /// Callers must hand back the activated output, not the pre-activation
    /// value: the formulas are written in terms of the output.
    pub fn deactivate<T: Real>(&self, x: T) -> (r: T)
        ensures
            r == self.deactivate_spec(x),
    {
        match self {
            Activation::Sigmoid => x.mul(T::one().sub(x)).clamp_finite(),
            Activation::Softmax => x.mul(T::one().sub(x)).clamp_finite(),
            Activation::ReLU => {
                if T::zero().lt(x) {
                    T::one()
                } else {
                    T::zero()
                }
            },
            Activation::LeakyReLU => {
                if T::zero().lt(x) {
                    T::one()
                } else {
                    T::small_slope()
                }
            },
            Activation::Tanh => T::one().sub(x.mul(x)).clamp_finite(),
            Activation::Linear => T::one(),
        }
    }
}

/// The sigmoid derivative, taken at the sigmoid's own output: for every
/// pre-activation `x`, `deactivate(activate(x))` is `s * (1 - s)` (clamped)
/// where `s` is the activated value `σ(x)`.
pub proof fn lemma_sigmoid_deactivate<T: Real>(x: T)
    ensures
        ({
            let s = Activation::Sigmoid.activate_spec::<T>(x);
            Activation::Sigmoid.deactivate_spec::<T>(s) == s.mul_spec(
                T::one_spec().sub_spec(s),
            ).clamp_spec()
        }),
{
}

} // verus!
