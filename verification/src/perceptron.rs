use vstd::prelude::*;

use crate::dense::{
    bp_err, bp_ok, bp_step, ff_ok, ff_out, ff_step, upd_step, Dense, DenseView,
};
use crate::error::AxisError;
use crate::loss::Loss;
use crate::matrix::{Matrix, MatrixView};
use crate::numeric::{Numeric, Real};
use crate::optimizer::Optimizer;

verus! {

/// Every layer in the stack obeys its own shape discipline.
pub open spec fn layers_wf<T>(ls: Seq<DenseView<T>>) -> bool {
    forall|k: int| 0 <= k < ls.len() ==> (#[trigger] ls[k]).wf()
}

/// The views of a sequence of matrices.
pub open spec fn mat_views<T>(ms: Seq<Matrix<T>>) -> Seq<MatrixView<T>> {
    ms.map_values(|m: Matrix<T>| m@)
}

/// The views of a sequence of layers.
pub open spec fn dense_views<T>(v: Seq<Dense<T>>) -> Seq<DenseView<T>> {
    v.map_values(|l: Dense<T>| l@)
}

/// Whether an input flows through the whole stack: each layer in order
/// accepts what the one before it produced.
pub open spec fn forward_ok<T: Real>(ls: Seq<DenseView<T>>, x: MatrixView<T>) -> bool
    decreases ls.len(),
{
    if ls.len() == 0 {
        true
    } else {
        ff_ok(ls[0], x) && forward_ok(ls.skip(1), ff_out(ls[0], x))
    }
}

/// The stack's output: the input folded through every layer's forward
/// arithmetic in order.
pub open spec fn forward_final<T: Real>(ls: Seq<DenseView<T>>, x: MatrixView<T>) -> MatrixView<T>
    decreases ls.len(),
{
    if ls.len() == 0 {
        x
    } else {
        forward_final(ls.skip(1), ff_out(ls[0], x))
    }
}

/// The stack after a caching forward pass: every layer stepped on the
/// value that reached it.
pub open spec fn forward_steps<T: Real>(ls: Seq<DenseView<T>>, x: MatrixView<T>) -> Seq<
    DenseView<T>,
>
    decreases ls.len(),
{
    if ls.len() == 0 {
        ls
    } else {
        seq![ff_step(ls[0], x)] + forward_steps(ls.skip(1), ff_out(ls[0], x))
    }
}

/// The output-layer error a training pass starts from: the loss between
/// the target and the stack's output, as a single row.
pub open spec fn err0<T: Real>(
    ls: Seq<DenseView<T>>,
    x: MatrixView<T>,
    t: MatrixView<T>,
    loss: Loss,
) -> MatrixView<T> {
    MatrixView::row_of(loss.apply_spec(t.data, forward_final(ls, x).data))
}

/// Whether an error signal flows back through the whole stack: walking the
/// layers in reverse, each accepts the error the one after it produced.
pub open spec fn backward_ok<T: Real>(ls: Seq<DenseView<T>>, e: MatrixView<T>) -> bool
    decreases ls.len(),
{
    if ls.len() == 0 {
        true
    } else {
        bp_ok(ls.last(), e) && backward_ok(ls.drop_last(), bp_err(ls.last(), e))
    }
}

/// The stack after a backward pass: every layer stepped, in reverse order,
/// on the error that reached it.
pub open spec fn backward_steps<T: Real>(ls: Seq<DenseView<T>>, e: MatrixView<T>) -> Seq<
    DenseView<T>,
>
    decreases ls.len(),
{
    if ls.len() == 0 {
        ls
    } else {
        backward_steps(ls.drop_last(), bp_err(ls.last(), e)).push(bp_step(ls.last(), e))
    }
}

/// Whether one training sample goes through cleanly: the forward pass
/// fits, the target matches the output element for element, and the error
/// chain flows all the way back.
pub open spec fn sample_ok<T: Real>(
    ls: Seq<DenseView<T>>,
    x: MatrixView<T>,
    t: MatrixView<T>,
    loss: Loss,
) -> bool {
    &&& forward_ok(ls, x)
    &&& t.data.len() == forward_final(ls, x).data.len()
    &&& backward_ok(forward_steps(ls, x), err0(ls, x, t, loss))
}

/// The stack after one training sample: forward with caching, then the
/// loss error propagated back through every layer.
pub open spec fn sample_step<T: Real>(
    ls: Seq<DenseView<T>>,
    x: MatrixView<T>,
    t: MatrixView<T>,
    loss: Loss,
) -> Seq<DenseView<T>> {
    backward_steps(forward_steps(ls, x), err0(ls, x, t, loss))
}

/// Whether every (input, target) pair of a batch goes through cleanly,
/// each against the state the previous pair left behind. The pairing stops
/// at the shorter of the two lists.
pub open spec fn fit_samples_ok<T: Real>(
    ls: Seq<DenseView<T>>,
    xs: Seq<MatrixView<T>>,
    ts: Seq<MatrixView<T>>,
    loss: Loss,
) -> bool
    decreases xs.len(),
{
    if xs.len() == 0 || ts.len() == 0 {
        true
    } else {
        sample_ok(ls, xs[0], ts[0], loss) && fit_samples_ok(
            sample_step(ls, xs[0], ts[0], loss),
            xs.skip(1),
            ts.skip(1),
            loss,
        )
    }
}

/// The stack after a whole batch of training samples, gradients
/// accumulating throughout.
pub open spec fn fit_samples<T: Real>(
    ls: Seq<DenseView<T>>,
    xs: Seq<MatrixView<T>>,
    ts: Seq<MatrixView<T>>,
    loss: Loss,
) -> Seq<DenseView<T>>
    decreases xs.len(),
{
    if xs.len() == 0 || ts.len() == 0 {
        ls
    } else {
        fit_samples(sample_step(ls, xs[0], ts[0], loss), xs.skip(1), ts.skip(1), loss)
    }
}

/// Every layer given one optimizer step: parameters moved, gradients
/// cleared.
pub open spec fn update_all<T: Real>(ls: Seq<DenseView<T>>, lr: T) -> Seq<DenseView<T>> {
    ls.map_values(|d: DenseView<T>| upd_step(d, lr))
}

/// An ordered stack of dense layers driven as one network: `predict` runs
/// the forward pass without caching, `fit` trains on a batch with one
/// parameter update at the end.
pub struct MultiLayerPerceptron<T> {
    layers: Vec<Dense<T>>,
}

impl<T> View for MultiLayerPerceptron<T> {
    type V = Seq<DenseView<T>>;

    closed spec fn view(&self) -> Seq<DenseView<T>> {
        dense_views(self.layers@)
    }
}

impl<T: Real> MultiLayerPerceptron<T> {
    /// A network with no layers yet.
    pub fn new() -> (r: Self)
        ensures
            r@ == Seq::<DenseView<T>>::empty(),
            layers_wf(r@),
    {
        let r = MultiLayerPerceptron { layers: Vec::new() };
        proof {
            assert(r@ =~= Seq::<DenseView<T>>::empty());
        }
        r
    }

    /// The network with one more layer appended at the output end.
    pub fn layer(self, layer: Dense<T>) -> (r: Self)
        requires
            layers_wf(self@),
            layer@.wf(),
        ensures
            r@ == self@.push(layer@),
            layers_wf(r@),
    {
        let mut layers = self.layers;
        let ghost before = dense_views(layers@);
        layers.push(layer);
        let r = MultiLayerPerceptron { layers };
        proof {
            assert(r@ =~= before.push(layer@));
        }
        r
    }

    /// The stack's output for an input, computed without caching: the
    /// network is left exactly as it was, so two calls with the same input
    /// return the same value. It succeeds exactly when the input flows
    /// through every layer, and otherwise reports `ShapeMismatch`.
    pub fn predict(&self, input: &Matrix<T>) -> (r: Result<Matrix<T>, AxisError>)
        requires
            layers_wf(self@),
            input@.wf(),
        ensures
            match r {
                Ok(out) => forward_ok(self@, input@) && out@.wf() && out@ == forward_final(
                    self@,
                    input@,
                ),
                Err(e) => e == AxisError::ShapeMismatch && !forward_ok(self@, input@),
            },
    {
        let n = self.layers.len();
        let mut current = input.duplicate();
        proof {
            assert(self@.skip(0) =~= self@);
        }
        let mut i: usize = 0;
        while i < n
            invariant
                0 <= i <= n,
                n == self@.len(),
                layers_wf(self@),
                current@.wf(),
                forward_ok(self@, input@) == forward_ok(self@.skip(i as int), current@),
                forward_ok(self@, input@) ==> forward_final(self@, input@) == forward_final(
                    self@.skip(i as int),
                    current@,
                ),
            decreases n - i,
        {
            proof {
                assert(self@.skip(i as int)[0] == self@[i as int]);
                assert(self@.skip(i as int).skip(1) =~= self@.skip(i as int + 1));
            }
            match self.layers[i].predict(&current) {
                Ok(out) => {
                    current = out;
                },
                Err(e) => {
                    return Err(e);
                },
            }
            i = i + 1;
        }
        proof {
            assert(self@.skip(n as int) =~= Seq::<DenseView<T>>::empty());
        }
        Ok(current)
    }
}

impl<T: Real> MultiLayerPerceptron<T> {
    /// Trains on a batch: for each (input, target) pair — the pairing
    /// stops at the shorter list — one cached forward pass, the loss
    /// against the target, and a backward pass through every layer in
    /// reverse, each call's returned error feeding the layer before it.
    /// Gradients accumulate across the whole batch; then every layer gets
    /// exactly one optimizer step. It succeeds exactly for an implemented
    /// optimizer and cleanly flowing samples; on any failure
    /// (`UnimplementedOptimizer` for `Adam`, `ShapeMismatch` for a sample
    /// that does not fit) the network is left exactly as it was.
    pub fn fit(
        &mut self,
        input: &Vec<Matrix<T>>,
        target: &Vec<Matrix<T>>,
        optimizer: &Optimizer<T>,
        loss: &Loss,
    ) -> (r: Result<(), AxisError>)
        requires
            layers_wf(old(self)@),
            forall|k: int| 0 <= k < input@.len() ==> (#[trigger] input@[k])@.wf(),
            forall|k: int| 0 <= k < target@.len() ==> (#[trigger] target@[k])@.wf(),
        ensures
            layers_wf(final(self)@),
            match r {
                Ok(()) => match *optimizer {
                    Optimizer::SGD(lr) => fit_samples_ok(
                        old(self)@,
                        mat_views(input@),
                        mat_views(target@),
                        *loss,
                    ) && final(self)@ == update_all(
                        fit_samples(old(self)@, mat_views(input@), mat_views(target@), *loss),
                        lr,
                    ),
                    Optimizer::Adam { .. } => false,
                },
                Err(e) => final(self)@ == old(self)@ && match *optimizer {
                    Optimizer::SGD(_) => e == AxisError::ShapeMismatch && !fit_samples_ok(
                        old(self)@,
                        mat_views(input@),
                        mat_views(target@),
                        *loss,
                    ),
                    Optimizer::Adam { .. } => e == AxisError::UnimplementedOptimizer,
                },
            },
    {
        let ghost ls0 = self@;
        let ghost xs = mat_views(input@);
        let ghost ts = mat_views(target@);
        let lr_val: T = match optimizer {
            Optimizer::SGD(l) => *l,
            Optimizer::Adam { .. } => {
                return Err(AxisError::UnimplementedOptimizer);
            },
        };
        // Work on a copy: a sample that does not fit abandons the copy and
        // leaves the network untouched.
        let mut work: Vec<Dense<T>> = Vec::new();
        let nl = self.layers.len();
        let mut li: usize = 0;
        while li < nl
            invariant
                0 <= li <= nl,
                nl == self@.len(),
                work@.len() == li,
                forall|k: int| 0 <= k < li ==> (#[trigger] work@[k])@ == self@[k],
            decreases nl - li,
        {
            work.push(self.layers[li].duplicate());
            li = li + 1;
        }
        proof {
            assert(dense_views(work@) =~= ls0);
            assert(xs.skip(0) =~= xs);
            assert(ts.skip(0) =~= ts);
        }
        let n = if input.len() < target.len() {
            input.len()
        } else {
            target.len()
        };
        let mut s: usize = 0;
        while s < n
            invariant
                0 <= s <= n,
                n <= xs.len(),
                n <= ts.len(),
                xs.len() == n || ts.len() == n,
                xs == mat_views(input@),
                ts == mat_views(target@),
                forall|k: int| 0 <= k < input@.len() ==> (#[trigger] input@[k])@.wf(),
                forall|k: int| 0 <= k < target@.len() ==> (#[trigger] target@[k])@.wf(),
                self@ == ls0,
                ls0 == old(self)@,
                layers_wf(ls0),
                *optimizer == Optimizer::SGD(lr_val),
                forall|k: int| 0 <= k < work@.len() ==> (#[trigger] work@[k])@.wf(),
                fit_samples_ok(ls0, xs, ts, *loss) == fit_samples_ok(
                    dense_views(work@),
                    xs.skip(s as int),
                    ts.skip(s as int),
                    *loss,
                ),
                fit_samples_ok(ls0, xs, ts, *loss) ==> fit_samples(ls0, xs, ts, *loss)
                    == fit_samples(dense_views(work@), xs.skip(s as int), ts.skip(s as int), *loss),
            decreases n - s,
        {
            let ghost start = dense_views(work@);
            let ghost xv = xs[s as int];
            let ghost tv = ts[s as int];
            proof {
                assert(xs.skip(s as int)[0] == xv);
                assert(ts.skip(s as int)[0] == tv);
                assert(xs.skip(s as int).skip(1) =~= xs.skip(s as int + 1));
                assert(ts.skip(s as int).skip(1) =~= ts.skip(s as int + 1));
                assert(xv == input@[s as int]@);
                assert(tv == target@[s as int]@);
            }
            // Forward pass, caching in every layer.
            let mut current = input[s].duplicate();
            let mut rest = work;
            let mut done: Vec<Dense<T>> = Vec::new();
            proof {
                assert(dense_views(done@) =~= Seq::<DenseView<T>>::empty());
                assert(Seq::<DenseView<T>>::empty() + forward_steps(dense_views(rest@), current@)
                    =~= forward_steps(dense_views(rest@), current@));
            }
            while rest.len() > 0
                invariant
                    self@ == ls0,
                    ls0 == old(self)@,
                    layers_wf(ls0),
                    xs == mat_views(input@),
                    ts == mat_views(target@),
                    *optimizer == Optimizer::SGD(lr_val),
                    0 <= s,
                    xs.skip(s as int).len() > 0,
                    ts.skip(s as int).len() > 0,
                    xv == xs.skip(s as int)[0],
                    tv == ts.skip(s as int)[0],
                    fit_samples_ok(ls0, xs, ts, *loss) == fit_samples_ok(
                        start,
                        xs.skip(s as int),
                        ts.skip(s as int),
                        *loss,
                    ),
                    layers_wf(start),
                    xv.wf(),
                    current@.wf(),
                    forall|k: int| 0 <= k < rest@.len() ==> (#[trigger] rest@[k])@.wf(),
                    forall|k: int| 0 <= k < done@.len() ==> (#[trigger] done@[k])@.wf(),
                    forward_ok(start, xv) == forward_ok(dense_views(rest@), current@),
                    forward_ok(start, xv) ==> forward_steps(start, xv) == dense_views(done@)
                        + forward_steps(dense_views(rest@), current@),
                    forward_ok(start, xv) ==> forward_final(start, xv) == forward_final(
                        dense_views(rest@),
                        current@,
                    ),
                decreases rest@.len(),
            {
                let ghost rv0 = dense_views(rest@);
                let ghost rbefore = rest@;
                let mut l = rest.remove(0);
                proof {
                    assert(l@ == rv0[0]);
                    assert(rest@ =~= rbefore.skip(1));
                    assert(dense_views(rest@) =~= rv0.skip(1));
                }
                match l.feed_forward(&current) {
                    Ok(out) => {
                        let ghost dv = dense_views(done@);
                        done.push(l);
                        proof {
                            assert(dense_views(done@) =~= dv.push(ff_step(rv0[0], current@)));
                            assert(forward_steps(rv0, current@) =~= seq![
                                ff_step(rv0[0], current@),
                            ] + forward_steps(rv0.skip(1), ff_out(rv0[0], current@)));
                            assert(dv + forward_steps(rv0, current@) =~= dv.push(
                                ff_step(rv0[0], current@),
                            ) + forward_steps(rv0.skip(1), ff_out(rv0[0], current@)));
                        }
                        current = out;
                    },
                    Err(_) => {
                        proof {
                            assert(!forward_ok(rv0, current@));
                            assert(!sample_ok(start, xv, tv, *loss));
                            assert(!fit_samples_ok(start, xs.skip(s as int), ts.skip(s as int), *loss));
                        }
                        return Err(AxisError::ShapeMismatch);
                    },
                }
            }
            proof {
                assert(dense_views(rest@) =~= Seq::<DenseView<T>>::empty());
                assert(forward_ok(start, xv));
                assert(forward_steps(start, xv) == dense_views(done@) + Seq::<
                    DenseView<T>,
                >::empty());
                assert(dense_views(done@) + Seq::<DenseView<T>>::empty() =~= dense_views(done@));
                assert(forward_final(start, xv) == current@);
            }
            // The output-layer error from the loss.
            let err_vec = match loss.apply(target[s].values(), current.values()) {
                Ok(v) => v,
                Err(_) => {
                    proof {
                        assert(tv.data.len() != forward_final(start, xv).data.len());
                        assert(!sample_ok(start, xv, tv, *loss));
                        assert(!fit_samples_ok(start, xs.skip(s as int), ts.skip(s as int), *loss));
                    }
                    return Err(AxisError::ShapeMismatch);
                },
            };
            let mut err_mat = Matrix::from(err_vec);
            let ghost fs = dense_views(done@);
            let ghost e0v = err_mat@;
            proof {
                assert(e0v == err0(start, xv, tv, *loss));
            }
            // Backward pass, most recent layer first, chaining the error.
            let mut rem = done;
            let mut out_done: Vec<Dense<T>> = Vec::new();
            proof {
                assert(backward_steps(dense_views(rem@), err_mat@) + dense_views(out_done@)
                    =~= backward_steps(dense_views(rem@), err_mat@));
            }
            while rem.len() > 0
                invariant
                    self@ == ls0,
                    ls0 == old(self)@,
                    layers_wf(ls0),
                    xs == mat_views(input@),
                    ts == mat_views(target@),
                    *optimizer == Optimizer::SGD(lr_val),
                    0 <= s,
                    xs.skip(s as int).len() > 0,
                    ts.skip(s as int).len() > 0,
                    xv == xs.skip(s as int)[0],
                    tv == ts.skip(s as int)[0],
                    fit_samples_ok(ls0, xs, ts, *loss) == fit_samples_ok(
                        start,
                        xs.skip(s as int),
                        ts.skip(s as int),
                        *loss,
                    ),
                    fs == forward_steps(start, xv),
                    e0v == err0(start, xv, tv, *loss),
                    forward_ok(start, xv),
                    tv.data.len() == forward_final(start, xv).data.len(),
                    err_mat@.wf(),
                    forall|k: int| 0 <= k < rem@.len() ==> (#[trigger] rem@[k])@.wf(),
                    forall|k: int| 0 <= k < out_done@.len() ==> (#[trigger] out_done@[k])@.wf(),
                    backward_ok(fs, e0v) == backward_ok(dense_views(rem@), err_mat@),
                    backward_ok(fs, e0v) ==> backward_steps(fs, e0v) == backward_steps(
                        dense_views(rem@),
                        err_mat@,
                    ) + dense_views(out_done@),
                decreases rem@.len(),
            {
                let ghost rv0 = dense_views(rem@);
                let ghost rembefore = rem@;
                let mut l = match rem.pop() {
                    Some(l) => l,
                    None => {
                        proof {
                            assert(false);
                        }
                        return Err(AxisError::ShapeMismatch);
                    },
                };
                proof {
                    assert(l@ == rv0.last());
                    assert(rem@ =~= rembefore.drop_last());
                    assert(dense_views(rem@) =~= rv0.drop_last());
                }
                match l.backpropagate(&err_mat) {
                    Ok(e2) => {
                        let ghost ov = dense_views(out_done@);
                        out_done.insert(0, l);
                        proof {
                            assert(dense_views(out_done@) =~= seq![bp_step(rv0.last(), err_mat@)]
                                + ov);
                            assert(backward_steps(rv0, err_mat@) =~= backward_steps(
                                rv0.drop_last(),
                                bp_err(rv0.last(), err_mat@),
                            ).push(bp_step(rv0.last(), err_mat@)));
                            assert(backward_steps(rv0, err_mat@) + ov =~= backward_steps(
                                rv0.drop_last(),
                                bp_err(rv0.last(), err_mat@),
                            ) + (seq![bp_step(rv0.last(), err_mat@)] + ov));
                        }
                        err_mat = e2;
                    },
                    Err(_) => {
                        proof {
                            assert(!backward_ok(rv0, err_mat@));
                            assert(!sample_ok(start, xv, tv, *loss));
                            assert(!fit_samples_ok(start, xs.skip(s as int), ts.skip(s as int), *loss));
                        }
                        return Err(AxisError::ShapeMismatch);
                    },
                }
            }
            work = out_done;
            proof {
                assert(dense_views(rem@) =~= Seq::<DenseView<T>>::empty());
                assert(backward_ok(fs, e0v));
                assert(sample_ok(start, xv, tv, *loss));
                assert(backward_steps(fs, e0v) == Seq::<DenseView<T>>::empty() + dense_views(
                    work@,
                ));
                assert(Seq::<DenseView<T>>::empty() + dense_views(work@) =~= dense_views(work@));
                assert(dense_views(work@) == sample_step(start, xv, tv, *loss));
            }
            s = s + 1;
        }
        proof {
            assert(xs.skip(n as int).len() == 0 || ts.skip(n as int).len() == 0);
            assert(fit_samples_ok(ls0, xs, ts, *loss));
            assert(fit_samples(ls0, xs, ts, *loss) == dense_views(work@));
        }
        // One optimizer step per layer, exactly once for the whole batch.
        let ghost trained = dense_views(work@);
        let mut updated: Vec<Dense<T>> = Vec::new();
        proof {
            assert(dense_views(work@) =~= trained.skip(0));
            assert(dense_views(updated@) =~= update_all(trained.take(0), lr_val));
        }
        while work.len() > 0
            invariant
                self@ == ls0,
                ls0 == old(self)@,
                updated@.len() + work@.len() == trained.len(),
                forall|k: int| 0 <= k < work@.len() ==> (#[trigger] work@[k])@.wf(),
                forall|k: int| 0 <= k < updated@.len() ==> (#[trigger] updated@[k])@.wf(),
                dense_views(work@) =~= trained.skip(updated@.len() as int),
                dense_views(updated@) =~= update_all(trained.take(updated@.len() as int), lr_val),
                *optimizer == Optimizer::SGD(lr_val),
            decreases work@.len(),
        {
            let ghost i = updated@.len() as int;
            let ghost uv = dense_views(updated@);
            let ghost wv0 = dense_views(work@);
            let ghost wbefore = work@;
            let mut l = work.remove(0);
            proof {
                assert(l@ == wv0[0]);
                assert(wv0[0] == trained[i]);
                assert(work@ =~= wbefore.skip(1));
                assert(dense_views(work@) =~= wv0.skip(1));
                assert(wv0.skip(1) =~= trained.skip(i + 1));
            }
            match l.update(optimizer) {
                Ok(()) => {},
                Err(_) => {
                    proof {
                        assert(false);
                    }
                    return Err(AxisError::ShapeMismatch);
                },
            }
            updated.push(l);
            proof {
                assert(dense_views(updated@) =~= uv.push(upd_step(trained[i], lr_val)));
                assert(trained.take(i + 1) =~= trained.take(i).push(trained[i]));
                assert(dense_views(updated@) =~= update_all(trained.take(i + 1), lr_val));
            }
        }
        self.layers = updated;
        proof {
            assert(trained.take(trained.len() as int) =~= trained);
            assert(self@ =~= update_all(trained, lr_val));
        }
        Ok(())
    }
}

/// `predict` is a pure function of the network and the input: any two
/// results computed from the same state and the same input are the same
/// value, so repeating a prediction neither changes the network nor the
/// answer.
pub proof fn lemma_predict_deterministic<T: Real>(
    ls: Seq<DenseView<T>>,
    input: MatrixView<T>,
    r1: MatrixView<T>,
    r2: MatrixView<T>,
)
    requires
        r1 == forward_final(ls, input),
        r2 == forward_final(ls, input),
    ensures
        r1 == r2,
{
}

} // verus!
