use vstd::prelude::*;

use crate::error::AxisError;
use crate::matrix::{Matrix, MatrixView};
use crate::numeric::Numeric;

verus! {

/// An in-place parameter update rule.
///
/// `SGD` holds the learning rate and is implemented; `Adam` is declared
/// with its hyperparameters but not implemented, and invoking it reports
/// `UnimplementedOptimizer`.
pub enum Optimizer<T> {
    SGD(T),
    Adam { learning_rate: T, beta1: T, beta2: T, epsilon: T },
}

/// What one SGD step leaves in the parameter buffer: each element less the
/// learning rate times the matching gradient.
pub open spec fn sgd_step_view<T: Numeric>(
    lr: T,
    w: MatrixView<T>,
    g: MatrixView<T>,
) -> MatrixView<T> {
    MatrixView {
        rows: w.rows,
        cols: w.cols,
        data: Seq::new(w.data.len(), |k: int| w.data[k].sub_spec(lr.mul_spec(g.data[k]))),
    }
}

impl<T: Numeric> Optimizer<T> {
    /// One update step: SGD subtracts `learning_rate * gradient` from
    /// every parameter. The optimizer clears no state: the gradient buffer
    /// leaves exactly as it came, and resetting it is the caller's
    /// separate step. It succeeds exactly for `SGD` on buffers of one
    /// shape; `Adam` reports `UnimplementedOptimizer` and mismatched
    /// shapes `ShapeMismatch`, and on any failure the weights too are left
    /// as they were.
    pub fn update(&self, weights: &mut Matrix<T>, gradients: &mut Matrix<T>) -> (r: Result<
        (),
        AxisError,
    >)
        requires
            old(weights)@.wf(),
            old(gradients)@.wf(),
        ensures
            final(weights)@.wf(),
            final(gradients)@.wf(),
            match r {
                Ok(()) => match *self {
                    Optimizer::SGD(lr) => old(weights)@.same_shape(old(gradients)@)
                        && final(weights)@ == sgd_step_view(lr, old(weights)@, old(gradients)@)
                        && final(gradients)@ == old(gradients)@,
                    Optimizer::Adam { .. } => false,
                },
                Err(e) => final(weights)@ == old(weights)@ && final(gradients)@ == old(gradients)@
                    && match *self {
                    Optimizer::SGD(_) => e == AxisError::ShapeMismatch && !old(weights)@.same_shape(old(gradients)@),
                    Optimizer::Adam { .. } => e == AxisError::UnimplementedOptimizer,
                },
            },
    {
        let lr = match self {
            Optimizer::SGD(lr) => *lr,
            Optimizer::Adam { .. } => {
                return Err(AxisError::UnimplementedOptimizer);
            },
        };
        let (rows, cols) = weights.shape();
        let (grows, gcols) = gradients.shape();
        if rows != grows || cols != gcols {
            return Err(AxisError::ShapeMismatch);
        }
        let n = weights.len();
        let wv = weights.values();
        let gv = gradients.values();
        let mut new_w: Vec<T> = Vec::new();
        let mut k: usize = 0;
        while k < n
            invariant
                0 <= k <= n,
                n == wv@.len(),
                n == gv@.len(),
                new_w@.len() == k,
                forall|m: int|
                    0 <= m < k ==> new_w@[m] == wv@[m].sub_spec(lr.mul_spec(#[trigger] gv@[m])),
            decreases n - k,
        {
            new_w.push(wv[k].sub(lr.mul(gv[k])));
            k = k + 1;
        }
        proof {
            assert(new_w@ =~= sgd_step_view(lr, weights@, gradients@).data);
        }
        *weights = Matrix::from_parts(new_w, rows, cols);
        proof {
            assert(weights@ =~= sgd_step_view(lr, old(weights)@, old(gradients)@));
        }
        Ok(())
    }
}

} // verus!
