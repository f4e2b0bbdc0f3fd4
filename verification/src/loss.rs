use vstd::prelude::*;

use crate::error::AxisError;
use crate::numeric::{Numeric, Real};

verus! {

/// An elementwise error measure between a target and a prediction.
///
/// The variants are not all shaped alike: `MSE` returns the gradient of the
/// squared error, `2 * (prediction - target)`, ready to feed straight into
/// backpropagation, while the other variants return the loss value itself.
/// The asymmetry is kept as the training driver expects it.
#[derive(Debug, Clone, Copy, PartialEq, Eq, Structural)]
pub enum Loss {
    MSE,
    CrossEntropy,
    BinaryCrossEntropy,
    Difference,
    Hinge,
    Huber,
}

impl Loss {
    /// The variant's value for one (target, prediction) pair.
    pub open spec fn apply_elem_spec<T: Real>(self, t: T, p: T) -> T {
        match self {
            Loss::MSE => p.sub_spec(t).double_spec(),
            Loss::CrossEntropy => t.neg_spec().mul_spec(p.ln_spec()).sub_spec(
                T::one_spec().sub_spec(t).mul_spec(T::one_spec().sub_spec(p).ln_spec()),
            ),
            Loss::BinaryCrossEntropy => t.neg_spec().mul_spec(p.ln_spec()).sub_spec(
                T::one_spec().sub_spec(t).mul_spec(T::one_spec().sub_spec(p).ln_spec()),
            ),
            Loss::Difference => t.sub_spec(p).abs_spec(),
            Loss::Hinge => T::one_spec().sub_spec(t.mul_spec(p)).max_spec(T::zero_spec()),
            Loss::Huber => {
                let error = t.sub_spec(p).abs_spec();
                if error.le_spec(T::one_spec()) {
                    error.mul_spec(error).half_spec()
                } else {
                    T::one_spec().mul_spec(error.sub_spec(T::one_spec().half_spec()))
                }
            },
        }
    }

    /// The variant applied pairwise along two sequences of equal length.
    pub open spec fn apply_spec<T: Real>(self, t: Seq<T>, p: Seq<T>) -> Seq<T> {
        Seq::new(t.len(), |k: int| self.apply_elem_spec(t[k], p[k]))
    }

    /// The elementwise loss between matched sequences, or `ShapeMismatch`
    /// exactly when the lengths differ — values are never silently dropped.
    pub fn apply<T: Real>(&self, y_true: &Vec<T>, y_pred: &Vec<T>) -> (r: Result<
        Vec<T>,
        AxisError,
    >)
        ensures
            match r {
                Ok(v) => y_true@.len() == y_pred@.len() && v@ == self.apply_spec(
                    y_true@,
                    y_pred@,
                ),
                Err(e) => e == AxisError::ShapeMismatch && y_true@.len() != y_pred@.len(),
            },
    {
        if y_true.len() != y_pred.len() {
            return Err(AxisError::ShapeMismatch);
        }
        let n = y_true.len();
        let mut out: Vec<T> = Vec::new();
        let mut k: usize = 0;
        while k < n
            invariant
                0 <= k <= n,
                n == y_true@.len(),
                n == y_pred@.len(),
                out@.len() == k,
                forall|m: int|
                    0 <= m < k ==> out@[m] == self.apply_elem_spec(
                        y_true@[m],
                        #[trigger] y_pred@[m],
                    ),
            decreases n - k,
        {
            let t = y_true[k];
            let p = y_pred[k];
            let e = match self {
                Loss::MSE => p.sub(t).double(),
                Loss::CrossEntropy => t.neg().mul(p.ln()).sub(
                    T::one().sub(t).mul(T::one().sub(p).ln()),
                ),
                Loss::BinaryCrossEntropy => t.neg().mul(p.ln()).sub(
                    T::one().sub(t).mul(T::one().sub(p).ln()),
                ),
                Loss::Difference => t.sub(p).abs(),
                Loss::Hinge => T::one().sub(t.mul(p)).max_with(T::zero()),
                Loss::Huber => {
                    let error = t.sub(p).abs();
                    if error.le(T::one()) {
                        error.mul(error).half()
                    } else {
                        T::one().mul(error.sub(T::one().half()))
                    }
                },
            };
            out.push(e);
            k = k + 1;
        }
        proof {
            assert(out@ =~= self.apply_spec(y_true@, y_pred@));
        }
        Ok(out)
    }
}

} // verus!
