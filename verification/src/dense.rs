use vstd::prelude::*;

use crate::activation::Activation;
use crate::error::AxisError;
use crate::matrix::{lemma_offset_in_bounds, lemma_view_ext, Matrix, MatrixView};
use crate::numeric::{Numeric, Real};
use crate::optimizer::{sgd_step_view, Optimizer};
use crate::random_provider::RandomSource;

verus! {

/// The mathematical state of a dense layer: the activation choice, the
/// parameter and gradient buffers, and the queues of inputs and outputs
/// cached by forward passes and not yet consumed by backward passes.
#[verifier::ext_equal]
pub struct DenseView<T> {
    pub act: Activation,
    pub w: MatrixView<T>,
    pub b: MatrixView<T>,
    pub wg: MatrixView<T>,
    pub bg: MatrixView<T>,
    pub ins: Seq<MatrixView<T>>,
    pub outs: Seq<MatrixView<T>>,
}

impl<T> DenseView<T> {
    /// How many values the layer consumes.
    pub open spec fn in_dim(self) -> nat {
        self.w.cols
    }

    /// How many values the layer produces.
    pub open spec fn out_dim(self) -> nat {
        self.w.rows
    }

    /// The layer's shape discipline: weights `(out, in)`, biases and both
    /// gradient buffers matching, and the two queues of equal length
    /// holding single rows of the right widths.
    pub open spec fn wf(self) -> bool {
        &&& self.w.wf()
        &&& self.b.wf() && self.b.rows == 1 && self.b.cols == self.out_dim()
        &&& self.wg.wf() && self.wg.rows == self.w.rows && self.wg.cols == self.w.cols
        &&& self.bg.wf() && self.bg.rows == 1 && self.bg.cols == self.out_dim()
        &&& self.ins.len() == self.outs.len()
        &&& forall|k: int|
            0 <= k < self.ins.len() ==> (#[trigger] self.ins[k]).wf() && self.ins[k].rows == 1
                && self.ins[k].cols == self.in_dim()
        &&& forall|k: int|
            0 <= k < self.outs.len() ==> (#[trigger] self.outs[k]).wf() && self.outs[k].rows == 1
                && self.outs[k].cols == self.out_dim()
    }
}

/// Every element lies in `[-1, 1)`, whenever that range is non-empty for
/// the scalar type — the band fresh parameters are drawn from.
pub open spec fn unit_range<T: Numeric>(m: MatrixView<T>) -> bool {
    T::one_spec().neg_spec().lt_spec(T::one_spec()) ==> forall|k: int|
        0 <= k < m.data.len() ==> T::one_spec().neg_spec().le_spec(#[trigger] m.data[k])
            && m.data[k].lt_spec(T::one_spec())
}

/// The pre-activation sum for output unit `j`, folded from the left over
/// the first `n` input units: the bias, then `input[k] * w[j,k]` term by
/// term.
pub open spec fn ff_acc<T: Real>(
    w: MatrixView<T>,
    b: MatrixView<T>,
    input: MatrixView<T>,
    j: int,
    n: int,
) -> T
    decreases n,
{
    if n <= 0 {
        b.ent(0, j)
    } else {
        ff_acc(w, b, input, j, n - 1).add_spec(input.ent(0, n - 1).mul_spec(w.ent(j, n - 1)))
    }
}

/// Whether a forward pass accepts the input: a single row of the layer's
/// input width.
pub open spec fn ff_ok<T: Real>(d: DenseView<T>, input: MatrixView<T>) -> bool {
    input.rows == 1 && input.cols == d.in_dim()
}

/// What a forward pass produces: one row, each unit the activation of its
/// pre-activation sum.
pub open spec fn ff_out<T: Real>(d: DenseView<T>, input: MatrixView<T>) -> MatrixView<T> {
    MatrixView {
        rows: 1,
        cols: d.out_dim(),
        data: Seq::new(
            d.out_dim(),
            |j: int| d.act.activate_spec(ff_acc(d.w, d.b, input, j, d.in_dim() as int)),
        ),
    }
}

/// What a forward pass leaves behind: the same parameters, with the input
/// and its output pushed onto the queues.
pub open spec fn ff_step<T: Real>(d: DenseView<T>, input: MatrixView<T>) -> DenseView<T> {
    DenseView { ins: d.ins.push(input), outs: d.outs.push(ff_out(d, input)), ..d }
}

/// The error signal scaled by the local derivative at output unit `j`.
pub open spec fn delta_spec<T: Real>(
    act: Activation,
    prev_out: MatrixView<T>,
    error: MatrixView<T>,
    j: int,
) -> T {
    act.deactivate_spec(prev_out.ent(0, j)).mul_spec(error.ent(0, j))
}

/// Whether a backward pass accepts the error: a pending forward pass
/// exists and the error is a single row of the layer's output width.
pub open spec fn bp_ok<T: Real>(d: DenseView<T>, error: MatrixView<T>) -> bool {
    d.ins.len() > 0 && error.rows == 1 && error.cols == d.out_dim()
}

/// The bias-gradient buffer after one backward pass: each unit's delta
/// added in.
pub open spec fn bg_step<T: Real>(
    act: Activation,
    bg: MatrixView<T>,
    prev_out: MatrixView<T>,
    error: MatrixView<T>,
) -> MatrixView<T> {
    MatrixView {
        rows: bg.rows,
        cols: bg.cols,
        data: Seq::new(
            bg.data.len(),
            |j: int| bg.data[j].add_spec(delta_spec(act, prev_out, error, j)),
        ),
    }
}

/// The weight-gradient buffer after one backward pass: entry `(j, k)`
/// grows by `delta_j * input[k]`.
pub open spec fn wg_step<T: Real>(
    act: Activation,
    wg: MatrixView<T>,
    prev_in: MatrixView<T>,
    prev_out: MatrixView<T>,
    error: MatrixView<T>,
) -> MatrixView<T> {
    MatrixView {
        rows: wg.rows,
        cols: wg.cols,
        data: Seq::new(
            wg.data.len(),
            |p: int| wg.data[p].add_spec(
                delta_spec(act, prev_out, error, p / wg.cols as int).mul_spec(
                    prev_in.ent(0, p % wg.cols as int),
                ),
            ),
        ),
    }
}

/// Entry `(j, k)` of the stepped weight-gradient buffer really grows by
/// `delta_j * input[k]`.
pub proof fn lemma_wg_step_ent<T: Real>(
    act: Activation,
    wg: MatrixView<T>,
    prev_in: MatrixView<T>,
    prev_out: MatrixView<T>,
    error: MatrixView<T>,
    j: int,
    k: int,
)
    requires
        wg.wf(),
        0 <= j < wg.rows,
        0 <= k < wg.cols,
    ensures
        wg_step(act, wg, prev_in, prev_out, error).ent(j, k) == wg.ent(j, k).add_spec(
            delta_spec(act, prev_out, error, j).mul_spec(prev_in.ent(0, k)),
        ),
{
    let c = wg.cols as int;
    let p = j * c + k;
    lemma_offset_in_bounds(j, k, wg.rows as int, c);
    vstd::arithmetic::div_mod::lemma_fundamental_div_mod_converse(p, c, j, k);
}

/// The error handed to the previous layer, by the chain rule: one row
/// over the input units, unit `k` the fold over the output units `j` of
/// `delta_j * w[j,k]`, each delta the derivative-scaled error signal.
pub open spec fn bp_err_acc<T: Real>(
    act: Activation,
    w: MatrixView<T>,
    prev_out: MatrixView<T>,
    error: MatrixView<T>,
    k: int,
    n: int,
) -> T
    decreases n,
{
    if n <= 0 {
        T::zero_spec()
    } else {
        bp_err_acc(act, w, prev_out, error, k, n - 1).add_spec(
            delta_spec(act, prev_out, error, n - 1).mul_spec(w.ent(n - 1, k)),
        )
    }
}

/// The full upstream error row of a backward pass, taken at the most
/// recent cached output.
pub open spec fn bp_err<T: Real>(d: DenseView<T>, error: MatrixView<T>) -> MatrixView<T> {
    MatrixView {
        rows: 1,
        cols: d.in_dim(),
        data: Seq::new(
            d.in_dim(),
            |k: int| bp_err_acc(d.act, d.w, d.outs.last(), error, k, d.out_dim() as int),
        ),
    }
}

/// What a backward pass leaves behind: the most recent cached pair
/// consumed, both gradient buffers grown, parameters untouched.
pub open spec fn bp_step<T: Real>(d: DenseView<T>, error: MatrixView<T>) -> DenseView<T> {
    DenseView {
        wg: wg_step(d.act, d.wg, d.ins.last(), d.outs.last(), error),
        bg: bg_step(d.act, d.bg, d.outs.last(), error),
        ins: d.ins.drop_last(),
        outs: d.outs.drop_last(),
        ..d
    }
}

/// What an update leaves behind: one SGD step on the weights and the
/// biases, both gradient buffers zeroed, queues untouched.
pub open spec fn upd_step<T: Real>(d: DenseView<T>, lr: T) -> DenseView<T> {
    DenseView {
        w: sgd_step_view(lr, d.w, d.wg),
        wg: MatrixView::filled(d.wg.rows, d.wg.cols, T::zero_spec()),
        b: sgd_step_view(lr, d.b, d.bg),
        bg: MatrixView::filled(d.bg.rows, d.bg.cols, T::zero_spec()),
        ..d
    }
}

/// The trainable unit of the network: weights of shape `(out, in)`, biases
/// of shape `(1, out)`, matching zero-initialized gradient accumulators,
/// and the queues of cached forward passes. A backward pass consumes the
/// most recent still-unconsumed forward pass.
#[derive(Debug, Clone, PartialEq)]
pub struct Dense<T> {
    activation: Activation,
    weights: Matrix<T>,
    biases: Matrix<T>,
    weight_gradient: Matrix<T>,
    bias_gradient: Matrix<T>,
    inputs: Vec<Matrix<T>>,
    outputs: Vec<Matrix<T>>,
}

impl<T> View for Dense<T> {
    type V = DenseView<T>;

    closed spec fn view(&self) -> DenseView<T> {
        DenseView {
            act: self.activation,
            w: self.weights@,
            b: self.biases@,
            wg: self.weight_gradient@,
            bg: self.bias_gradient@,
            ins: self.inputs@.map_values(|m: Matrix<T>| m@),
            outs: self.outputs@.map_values(|m: Matrix<T>| m@),
        }
    }
}

/// An element-for-element copy of a queue of cached matrices.
fn duplicate_queue<T: Numeric>(v: &Vec<Matrix<T>>) -> (r: Vec<Matrix<T>>)
    ensures
        r@.map_values(|m: Matrix<T>| m@) == v@.map_values(|m: Matrix<T>| m@),
{
    let mut out: Vec<Matrix<T>> = Vec::new();
    let mut i: usize = 0;
    while i < v.len()
        invariant
            0 <= i <= v@.len(),
            out@.len() == i,
            forall|k: int| 0 <= k < i ==> (#[trigger] out@[k])@ == v@[k]@,
        decreases v@.len() - i,
    {
        out.push(v[i].duplicate());
        i = i + 1;
    }
    proof {
        assert(out@.map_values(|m: Matrix<T>| m@) =~= v@.map_values(|m: Matrix<T>| m@));
    }
    out
}

impl<T: Real> Dense<T> {
    /// A copy whose mathematical state is the original's, element for
    /// element.
    pub fn duplicate(&self) -> (r: Self)
        ensures
            r@ == self@,
    {
        let r = Dense {
            activation: self.activation,
            weights: self.weights.duplicate(),
            biases: self.biases.duplicate(),
            weight_gradient: self.weight_gradient.duplicate(),
            bias_gradient: self.bias_gradient.duplicate(),
            inputs: duplicate_queue(&self.inputs),
            outputs: duplicate_queue(&self.outputs),
        };
        proof {
            assert(r@ =~= self@);
        }
        r
    }

    /// A layer taking `shape.0` values to `shape.1` values, with weights
    /// and biases drawn from `-1..1` and zeroed gradients; the weight
    /// count must fit the machine.
    pub fn new(shape: (usize, usize), activation: Activation, source: &mut RandomSource) -> (r:
        Self)
        requires
            shape.0 * shape.1 <= usize::MAX,
        ensures
            r@.wf(),
            r@.act == activation,
            r@.in_dim() == shape.0,
            r@.out_dim() == shape.1,
            unit_range(r@.w),
            unit_range(r@.b),
            r@.wg == MatrixView::filled(shape.1 as nat, shape.0 as nat, T::zero_spec()),
            r@.bg == MatrixView::filled(1, shape.1 as nat, T::zero_spec()),
            r@.ins == Seq::<MatrixView<T>>::empty(),
            r@.outs == Seq::<MatrixView<T>>::empty(),
    {
        proof {
            assert(shape.1 * shape.0 == shape.0 * shape.1) by (nonlinear_arith);
            assert(1 * shape.1 == shape.1) by (nonlinear_arith);
        }
        let weight_shape = (shape.1, shape.0);
        let bias_shape = (1, shape.1);
        let lo = T::one().neg();
        let hi = T::one();
        let r = Dense {
            activation,
            weights: Matrix::random(weight_shape, lo, hi, source),
            biases: Matrix::random(bias_shape, lo, hi, source),
            weight_gradient: Matrix::new(weight_shape),
            bias_gradient: Matrix::new(bias_shape),
            inputs: Vec::new(),
            outputs: Vec::new(),
        };
        proof {
            assert(r@.ins =~= Seq::<MatrixView<T>>::empty());
            assert(r@.outs =~= Seq::<MatrixView<T>>::empty());
        }
        r
    }

    /// The forward arithmetic shared by `feed_forward` and `predict`: the
    /// output row's values.
    fn forward_data(&self, input: &Matrix<T>) -> (r: Vec<T>)
        requires
            self@.wf(),
            input@.wf(),
            ff_ok(self@, input@),
        ensures
            r@ == ff_out(self@, input@).data,
    {
        let out_dim = self.weights.rows();
        let in_dim = self.weights.cols();
        let mut data: Vec<T> = Vec::new();
        let mut j: usize = 0;
        while j < out_dim
            invariant
                0 <= j <= out_dim,
                self@.wf(),
                input@.wf(),
                ff_ok(self@, input@),
                out_dim == self@.out_dim(),
                in_dim == self@.in_dim(),
                data@.len() == j,
                forall|m: int|
                    0 <= m < j ==> data@[m] == self@.act.activate_spec(
                        #[trigger] ff_acc(self@.w, self@.b, input@, m, in_dim as int),
                    ),
            decreases out_dim - j,
        {
            let mut sum = self.biases.at(0, j);
            let mut k: usize = 0;
            while k < in_dim
                invariant
                    0 <= j < out_dim,
                    0 <= k <= in_dim,
                    self@.wf(),
                    input@.wf(),
                    ff_ok(self@, input@),
                    out_dim == self@.out_dim(),
                    in_dim == self@.in_dim(),
                    sum == ff_acc(self@.w, self@.b, input@, j as int, k as int),
                decreases in_dim - k,
            {
                sum = sum.add(input.at(0, k).mul(self.weights.at(j, k)));
                k = k + 1;
            }
            data.push(self.activation.activate(sum));
            j = j + 1;
        }
        proof {
            assert(data@ =~= ff_out(self@, input@).data);
        }
        data
    }

    /// A training forward pass: computes the output row and caches the
    /// (input, output) pair for a later backward pass. It succeeds exactly
    /// on a single-row input of the layer's input width and otherwise
    /// reports `ShapeMismatch`, changing nothing.
    pub fn feed_forward(&mut self, input: &Matrix<T>) -> (r: Result<Matrix<T>, AxisError>)
        requires
            old(self)@.wf(),
            input@.wf(),
        ensures
            final(self)@.wf(),
            match r {
                Ok(out) => ff_ok(old(self)@, input@) && out@ == ff_out(old(self)@, input@)
                    && final(self)@ == ff_step(old(self)@, input@),
                Err(e) => e == AxisError::ShapeMismatch && !ff_ok(old(self)@, input@) && final(self)@ == old(self)@,
            },
    {
        let out_dim = self.weights.rows();
        let in_dim = self.weights.cols();
        if input.rows() != 1 || input.cols() != in_dim {
            return Err(AxisError::ShapeMismatch);
        }
        let data = self.forward_data(input);
        proof {
            assert(1 * (out_dim as nat) == out_dim as nat) by (nonlinear_arith);
        }
        let out = Matrix::from_parts(data, 1, out_dim);
        self.inputs.push(input.duplicate());
        self.outputs.push(out.duplicate());
        proof {
            assert(out@ =~= ff_out(old(self)@, input@));
            assert(self@.ins =~= old(self)@.ins.push(input@));
            assert(self@.outs =~= old(self)@.outs.push(ff_out(old(self)@, input@)));
            assert(self@ =~= ff_step(old(self)@, input@));
        }
        Ok(out)
    }

    /// An inference forward pass: the same arithmetic as `feed_forward`,
    /// with no caching and no other effect on the layer.
    pub fn predict(&self, input: &Matrix<T>) -> (r: Result<Matrix<T>, AxisError>)
        requires
            self@.wf(),
            input@.wf(),
        ensures
            match r {
                Ok(out) => ff_ok(self@, input@) && out@ == ff_out(self@, input@),
                Err(e) => e == AxisError::ShapeMismatch && !ff_ok(self@, input@),
            },
    {
        let out_dim = self.weights.rows();
        let in_dim = self.weights.cols();
        if input.rows() != 1 || input.cols() != in_dim {
            return Err(AxisError::ShapeMismatch);
        }
        let data = self.forward_data(input);
        proof {
            assert(1 * (out_dim as nat) == out_dim as nat) by (nonlinear_arith);
        }
        let out = Matrix::from_parts(data, 1, out_dim);
        proof {
            assert(out@ =~= ff_out(self@, input@));
        }
        Ok(out)
    }

    /// A backward pass: consumes the most recent cached (input, output)
    /// pair, accumulates both gradients, and returns the error for the
    /// preceding layer. With no pending forward pass it reports
    /// `EmptyQueue`; with an error row of the wrong shape,
    /// `ShapeMismatch`; either way nothing changes.
    pub fn backpropagate(&mut self, error: &Matrix<T>) -> (r: Result<Matrix<T>, AxisError>)
        requires
            old(self)@.wf(),
            error@.wf(),
        ensures
            final(self)@.wf(),
            match r {
                Ok(out_err) => bp_ok(old(self)@, error@) && out_err@ == bp_err(old(self)@, error@)
                    && final(self)@ == bp_step(old(self)@, error@),
                Err(e) => final(self)@ == old(self)@ && (if old(self)@.ins.len() == 0 {
                    e == AxisError::EmptyQueue
                } else {
                    e == AxisError::ShapeMismatch && !(error@.rows == 1 && error@.cols == old(self)@.out_dim())
                }),
            },
    {
        let out_dim = self.weights.rows();
        let in_dim = self.weights.cols();
        if self.inputs.len() == 0 {
            return Err(AxisError::EmptyQueue);
        }
        if error.rows() != 1 || error.cols() != out_dim {
            return Err(AxisError::ShapeMismatch);
        }
        let prev_input = match self.inputs.pop() {
            Some(m) => m,
            None => {
                proof {
                    assert(false);
                }
                return Err(AxisError::EmptyQueue);
            },
        };
        let prev_output = match self.outputs.pop() {
            Some(m) => m,
            None => {
                proof {
                    assert(false);
                }
                return Err(AxisError::EmptyQueue);
            },
        };
        let ghost d0 = old(self)@;
        proof {
            assert(prev_input@ == d0.ins.last());
            assert(prev_output@ == d0.outs.last());
            assert(self@.ins =~= d0.ins.drop_last());
            assert(self@.outs =~= d0.outs.drop_last());
        }
        // The per-unit deltas: the local derivative at the cached output,
        // scaled by the incoming error.
        let mut deltas: Vec<T> = Vec::new();
        let mut j: usize = 0;
        while j < out_dim
            invariant
                0 <= j <= out_dim,
                d0.wf(),
                error@.wf(),
                out_dim == d0.out_dim(),
                prev_output@.wf(),
                prev_output@.rows == 1,
                prev_output@.cols == d0.out_dim(),
                error@.rows == 1,
                error@.cols == d0.out_dim(),
                deltas@.len() == j,
                forall|m: int|
                    0 <= m < j ==> deltas@[m] == delta_spec(d0.act, prev_output@, error@, m),
                self.activation == d0.act,
            decreases out_dim - j,
        {
            let dv = self.activation.deactivate(prev_output.at(0, j)).mul(error.at(0, j));
            deltas.push(dv);
            j = j + 1;
        }
        // Bias gradients grow by the deltas.
        let mut bg_data: Vec<T> = Vec::new();
        let mut j2: usize = 0;
        while j2 < out_dim
            invariant
                0 <= j2 <= out_dim,
                d0.wf(),
                out_dim == d0.out_dim(),
                deltas@.len() == out_dim,
                forall|m: int|
                    0 <= m < out_dim ==> deltas@[m] == delta_spec(d0.act, prev_output@, error@, m),
                self@.bg == d0.bg,
                bg_data@.len() == j2,
                forall|m: int|
                    0 <= m < j2 ==> #[trigger] bg_data@[m] == d0.bg.data[m].add_spec(
                        delta_spec(d0.act, prev_output@, error@, m),
                    ),
            decreases out_dim - j2,
        {
            proof {
                assert(d0.bg.ent(0, j2 as int) == d0.bg.data[j2 as int]);
            }
            bg_data.push(self.bias_gradient.at(0, j2).add(deltas[j2]));
            j2 = j2 + 1;
        }
        proof {
            assert(1 * (out_dim as nat) == out_dim as nat) by (nonlinear_arith);
            assert(bg_data@ =~= bg_step(d0.act, d0.bg, prev_output@, error@).data);
        }
        self.bias_gradient = Matrix::from_parts(bg_data, 1, out_dim);
        proof {
            assert(self@.bg =~= bg_step(d0.act, d0.bg, prev_output@, error@));
        }
        // Weight gradients grow by delta_j * input_k, row by row.
        let mut wg_data: Vec<T> = Vec::new();
        let mut wj: usize = 0;
        while wj < out_dim
            invariant
                0 <= wj <= out_dim,
                d0.wf(),
                out_dim == d0.out_dim(),
                in_dim == d0.in_dim(),
                prev_input@.wf(),
                prev_input@.rows == 1,
                prev_input@.cols == d0.in_dim(),
                deltas@.len() == out_dim,
                forall|m: int|
                    0 <= m < out_dim ==> deltas@[m] == delta_spec(d0.act, prev_output@, error@, m),
                self@.wg == d0.wg,
                wg_data@.len() == wj * in_dim,
                forall|a: int, b: int|
                    0 <= a < wj && 0 <= b < in_dim ==> wg_data@[a * in_dim + b] == d0.wg.ent(
                        a,
                        b,
                    ).add_spec(
                        delta_spec(d0.act, prev_output@, error@, a).mul_spec(
                            prev_input@.ent(0, b),
                        ),
                    ),
            decreases out_dim - wj,
        {
            let mut wk: usize = 0;
            while wk < in_dim
                invariant
                    0 <= wj < out_dim,
                    0 <= wk <= in_dim,
                    d0.wf(),
                    out_dim == d0.out_dim(),
                    in_dim == d0.in_dim(),
                    prev_input@.wf(),
                    prev_input@.rows == 1,
                    prev_input@.cols == d0.in_dim(),
                    deltas@.len() == out_dim,
                    forall|m: int|
                        0 <= m < out_dim ==> deltas@[m] == delta_spec(
                            d0.act,
                            prev_output@,
                            error@,
                            m,
                        ),
                    self@.wg == d0.wg,
                    wg_data@.len() == wj * in_dim + wk,
                    forall|a: int, b: int|
                        0 <= a < wj && 0 <= b < in_dim ==> wg_data@[a * in_dim + b] == d0.wg.ent(
                            a,
                            b,
                        ).add_spec(
                            delta_spec(d0.act, prev_output@, error@, a).mul_spec(
                                prev_input@.ent(0, b),
                            ),
                        ),
                    forall|b: int|
                        0 <= b < wk ==> wg_data@[wj * in_dim + b] == d0.wg.ent(
                            wj as int,
                            b,
                        ).add_spec(
                            delta_spec(d0.act, prev_output@, error@, wj as int).mul_spec(
                                prev_input@.ent(0, b),
                            ),
                        ),
                decreases in_dim - wk,
            {
                proof {
                    assert forall|a: int, b: int|
                        0 <= a < wj && 0 <= b < in_dim implies #[trigger] (a * in_dim + b) < wj
                        * in_dim + wk by {
                        lemma_offset_in_bounds(a, b, wj as int, in_dim as int);
                    }
                }
                let gv = self.weight_gradient.at(wj, wk).add(
                    deltas[wj].mul(prev_input.at(0, wk)),
                );
                wg_data.push(gv);
                wk = wk + 1;
            }
            proof {
                assert((wj + 1) * in_dim == wj * in_dim + in_dim) by (nonlinear_arith);
            }
            wj = wj + 1;
        }
        let new_wg = Matrix::from_parts(wg_data, out_dim, in_dim);
        proof {
            let target = wg_step(d0.act, d0.wg, prev_input@, prev_output@, error@);
            assert(target.data.len() == target.rows * target.cols);
            assert forall|a: int, b: int|
                0 <= a < new_wg@.rows && 0 <= b < new_wg@.cols implies new_wg@.ent(a, b)
                == #[trigger] target.ent(a, b) by {
                lemma_wg_step_ent(d0.act, d0.wg, prev_input@, prev_output@, error@, a, b);
                lemma_offset_in_bounds(a, b, out_dim as int, in_dim as int);
            }
            lemma_view_ext(new_wg@, target);
        }
        self.weight_gradient = new_wg;
        // The upstream error: for each input unit, the fold over output
        // units of delta times weight.
        let mut err_data: Vec<T> = Vec::new();
        let mut ek: usize = 0;
        while ek < in_dim
            invariant
                0 <= ek <= in_dim,
                d0.wf(),
                out_dim == d0.out_dim(),
                in_dim == d0.in_dim(),
                error@.wf(),
                error@.rows == 1,
                error@.cols == d0.out_dim(),
                self@.w == d0.w,
                deltas@.len() == out_dim,
                forall|m: int|
                    0 <= m < out_dim ==> deltas@[m] == delta_spec(d0.act, prev_output@, error@, m),
                err_data@.len() == ek,
                forall|m: int|
                    0 <= m < ek ==> #[trigger] err_data@[m] == bp_err_acc(
                        d0.act,
                        d0.w,
                        prev_output@,
                        error@,
                        m,
                        out_dim as int,
                    ),
            decreases in_dim - ek,
        {
            let mut acc = T::zero();
            let mut ej: usize = 0;
            while ej < out_dim
                invariant
                    0 <= ek < in_dim,
                    0 <= ej <= out_dim,
                    d0.wf(),
                    out_dim == d0.out_dim(),
                    in_dim == d0.in_dim(),
                    error@.wf(),
                    error@.rows == 1,
                    error@.cols == d0.out_dim(),
                    self@.w == d0.w,
                    deltas@.len() == out_dim,
                    forall|m: int|
                        0 <= m < out_dim ==> deltas@[m] == delta_spec(
                            d0.act,
                            prev_output@,
                            error@,
                            m,
                        ),
                    acc == bp_err_acc(d0.act, d0.w, prev_output@, error@, ek as int, ej as int),
                decreases out_dim - ej,
            {
                acc = acc.add(deltas[ej].mul(self.weights.at(ej, ek)));
                ej = ej + 1;
            }
            err_data.push(acc);
            ek = ek + 1;
        }
        proof {
            assert(1 * (in_dim as nat) == in_dim as nat) by (nonlinear_arith);
            assert(err_data@ =~= bp_err(d0, error@).data);
        }
        let out_err = Matrix::from_parts(err_data, 1, in_dim);
        proof {
            assert(out_err@ =~= bp_err(d0, error@));
            assert(self@ =~= bp_step(d0, error@));
        }
        Ok(out_err)
    }

    /// One optimizer step on the weights and the biases from the
    /// accumulated gradients; the layer then resets both gradient buffers
    /// to zero — the optimizer itself clears nothing. It succeeds exactly
    /// for an implemented optimizer; `Adam` reports
    /// `UnimplementedOptimizer` and nothing changes.
    pub fn update(&mut self, optimizer: &Optimizer<T>) -> (r: Result<(), AxisError>)
        requires
            old(self)@.wf(),
        ensures
            final(self)@.wf(),
            match r {
                Ok(()) => match *optimizer {
                    Optimizer::SGD(lr) => final(self)@ == upd_step(old(self)@, lr),
                    Optimizer::Adam { .. } => false,
                },
                Err(e) => e == AxisError::UnimplementedOptimizer && ((*optimizer) matches Optimizer::Adam { .. })
                    && final(self)@ == old(self)@,
            },
    {
        match optimizer.update(&mut self.weights, &mut self.weight_gradient) {
            Ok(()) => {},
            Err(_) => {
                return Err(AxisError::UnimplementedOptimizer);
            },
        }
        match optimizer.update(&mut self.biases, &mut self.bias_gradient) {
            Ok(()) => {},
            Err(_) => {
                proof {
                    assert(false);
                }
                return Err(AxisError::UnimplementedOptimizer);
            },
        }
        let (grows, gcols) = self.weight_gradient.shape();
        self.weight_gradient = Matrix::new((grows, gcols));
        let (brows, bcols) = self.bias_gradient.shape();
        self.bias_gradient = Matrix::new((brows, bcols));
        proof {
            if let Optimizer::SGD(lr) = *optimizer {
                assert(self@ =~= upd_step(old(self)@, lr));
            }
        }
        Ok(())
    }
}

} // verus!
