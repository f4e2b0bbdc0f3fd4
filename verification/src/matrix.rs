use vstd::prelude::*;

use crate::error::AxisError;
use crate::numeric::Numeric;
use crate::random_provider::RandomSource;

verus! {

/// The mathematical value of a matrix: a shape and the flat, row-major
/// contents. Entry `(i, j)` lives at offset `i * cols + j`.
#[verifier::ext_equal]
pub struct MatrixView<T> {
    pub rows: nat,
    pub cols: nat,
    pub data: Seq<T>,
}

impl<T> MatrixView<T> {
    /// The shape invariant: the buffer holds exactly `rows * cols` elements.
    pub open spec fn wf(self) -> bool {
        self.data.len() == self.rows * self.cols
    }

    /// The entry in row `i`, column `j`.
    pub open spec fn ent(self, i: int, j: int) -> T {
        self.data[i * self.cols + j]
    }

    /// A matrix of one repeated value.
    pub open spec fn filled(rows: nat, cols: nat, v: T) -> Self {
        MatrixView { rows, cols, data: Seq::new(rows * cols, |k: int| v) }
    }

    /// A single row holding the given sequence.
    pub open spec fn row_of(data: Seq<T>) -> Self {
        MatrixView { rows: 1, cols: data.len(), data }
    }

    /// The same buffer read under another shape.
    pub open spec fn reshaped(self, rows: nat, cols: nat) -> Self {
        MatrixView { rows, cols, data: self.data }
    }

    /// The mirror image over the diagonal: entry `(i, j)` of the result is
    /// entry `(j, i)` of `self`.
    pub open spec fn transpose_view(self) -> Self {
        MatrixView {
            rows: self.cols,
            cols: self.rows,
            data: Seq::new(
                self.cols * self.rows,
                |k: int| self.data[(k % self.rows as int) * self.cols + k / self.rows as int],
            ),
        }
    }

    pub open spec fn same_shape(self, other: Self) -> bool {
        self.rows == other.rows && self.cols == other.cols
    }
}

impl<T: Numeric> MatrixView<T> {
    /// The elementwise sum.
    pub open spec fn add_view(self, other: Self) -> Self {
        MatrixView {
            rows: self.rows,
            cols: self.cols,
            data: Seq::new(self.data.len(), |k: int| self.data[k].add_spec(other.data[k])),
        }
    }

    /// The elementwise difference.
    pub open spec fn sub_view(self, other: Self) -> Self {
        MatrixView {
            rows: self.rows,
            cols: self.cols,
            data: Seq::new(self.data.len(), |k: int| self.data[k].sub_spec(other.data[k])),
        }
    }

    /// The elementwise product.
    pub open spec fn mul_view(self, other: Self) -> Self {
        MatrixView {
            rows: self.rows,
            cols: self.cols,
            data: Seq::new(self.data.len(), |k: int| self.data[k].mul_spec(other.data[k])),
        }
    }

    /// The elementwise quotient.
    pub open spec fn div_view(self, other: Self) -> Self {
        MatrixView {
            rows: self.rows,
            cols: self.cols,
            data: Seq::new(self.data.len(), |k: int| self.data[k].div_spec(other.data[k])),
        }
    }

    /// One value added to every element.
    pub open spec fn add_scalar_view(self, v: T) -> Self {
        MatrixView {
            rows: self.rows,
            cols: self.cols,
            data: Seq::new(self.data.len(), |k: int| self.data[k].add_spec(v)),
        }
    }

    /// One value subtracted from every element.
    pub open spec fn sub_scalar_view(self, v: T) -> Self {
        MatrixView {
            rows: self.rows,
            cols: self.cols,
            data: Seq::new(self.data.len(), |k: int| self.data[k].sub_spec(v)),
        }
    }

    /// Every element scaled by one value.
    pub open spec fn mul_scalar_view(self, v: T) -> Self {
        MatrixView {
            rows: self.rows,
            cols: self.cols,
            data: Seq::new(self.data.len(), |k: int| self.data[k].mul_spec(v)),
        }
    }

    /// Every element divided by one value.
    pub open spec fn div_scalar_view(self, v: T) -> Self {
        MatrixView {
            rows: self.rows,
            cols: self.cols,
            data: Seq::new(self.data.len(), |k: int| self.data[k].div_spec(v)),
        }
    }

    /// The matrix-product sum for entry `(i, j)`, folded from the left over
    /// the first `n` terms: `zero + self[i,0]*other[0,j] + ...`.
    pub open spec fn dot_acc(self, other: Self, i: int, j: int, n: int) -> T
        decreases n,
    {
        if n <= 0 {
            T::zero_spec()
        } else {
            self.dot_acc(other, i, j, n - 1).add_spec(
                self.ent(i, n - 1).mul_spec(other.ent(n - 1, j)),
            )
        }
    }

    /// The matrix product: shape `(self.rows, other.cols)`, entry `(i, j)`
    /// the sum over `k` of `self[i,k] * other[k,j]`.
    pub open spec fn dot_view(self, other: Self) -> Self {
        MatrixView {
            rows: self.rows,
            cols: other.cols,
            data: Seq::new(
                self.rows * other.cols,
                |k: int| self.dot_acc(
                    other,
                    k / other.cols as int,
                    k % other.cols as int,
                    self.cols as int,
                ),
            ),
        }
    }
}

/// The product's entries really are the fold: entry `(i, j)` of
/// `a.dot_view(b)` is the sum over `k` of `a[i,k] * b[k,j]`.
pub proof fn lemma_dot_view_ent<T: Numeric>(a: MatrixView<T>, b: MatrixView<T>, i: int, j: int)
    requires
        0 <= i < a.rows,
        0 <= j < b.cols,
    ensures
        a.dot_view(b).ent(i, j) == a.dot_acc(b, i, j, a.cols as int),
{
    let oc = b.cols as int;
    let k = i * oc + j;
    lemma_offset_in_bounds(i, j, a.rows as int, oc);
    vstd::arithmetic::div_mod::lemma_fundamental_div_mod_converse(k, oc, i, j);
}

/// The transpose's entries really are the mirror image: entry `(i, j)` of
/// `m.transpose_view()` is entry `(j, i)` of `m`.
pub proof fn lemma_transpose_ent<T>(m: MatrixView<T>, i: int, j: int)
    requires
        0 <= i < m.cols,
        0 <= j < m.rows,
    ensures
        m.transpose_view().ent(i, j) == m.ent(j, i),
{
    let r = m.rows as int;
    let k = i * r + j;
    lemma_offset_in_bounds(i, j, m.cols as int, r);
    vstd::arithmetic::div_mod::lemma_fundamental_div_mod_converse(k, r, i, j);
}

/// Two well-formed views of the same shape and the same entries are the
/// same view.
pub proof fn lemma_view_ext<T>(a: MatrixView<T>, b: MatrixView<T>)
    requires
        a.wf(),
        b.wf(),
        a.rows == b.rows,
        a.cols == b.cols,
        forall|i: int, j: int|
            0 <= i < a.rows && 0 <= j < a.cols ==> a.ent(i, j) == #[trigger] b.ent(i, j),
    ensures
        a == b,
{
    let r = a.rows as int;
    let c = a.cols as int;
    if c == 0 {
        assert(r * c == 0) by (nonlinear_arith)
            requires
                c == 0,
        ;
        assert(a.data =~= b.data);
    } else {
        assert forall|k: int| 0 <= k < a.data.len() implies a.data[k] == b.data[k] by {
            let i = k / c;
            let j = k % c;
            vstd::arithmetic::div_mod::lemma_fundamental_div_mod(k, c);
            vstd::arithmetic::div_mod::lemma_mod_bound(k, c);
            assert(0 <= i && i < r && i * c + j == k) by (nonlinear_arith)
                requires
                    0 <= k < r * c,
                    c > 0,
                    k == c * i + j,
                    0 <= j < c,
            ;
            assert(a.ent(i, j) == b.ent(i, j));
        }
        assert(a.data =~= b.data);
    }
}

/// A row-major offset stays inside a well-formed buffer.
pub proof fn lemma_offset_in_bounds(i: int, j: int, rows: int, cols: int)
    requires
        0 <= i < rows,
        0 <= j < cols,
    ensures
        0 <= i * cols + j < rows * cols,
        i * cols + j <= (rows - 1) * cols + (cols - 1),
{
    assert(0 <= i * cols + j < rows * cols && i * cols + j <= (rows - 1) * cols + (cols - 1))
        by (nonlinear_arith)
        requires
            0 <= i < rows,
            0 <= j < cols,
    ;
}

/// A dense two-dimensional buffer in row-major order, generic over the
/// scalar type. The shape invariant `MatrixView::wf` holds for every value
/// the public operations hand out.
#[derive(Debug, Clone, PartialEq)]
pub struct Matrix<T> {
    data: Vec<T>,
    rows: usize,
    cols: usize,
}

impl<T> View for Matrix<T> {
    type V = MatrixView<T>;

    closed spec fn view(&self) -> MatrixView<T> {
        MatrixView { rows: self.rows as nat, cols: self.cols as nat, data: self.data@ }
    }
}

/// A vector of `n` copies of one value.
fn repeated<T: Numeric>(n: usize, v: T) -> (r: Vec<T>)
    ensures
        r@ == Seq::new(n as nat, |k: int| v),
{
    let mut out: Vec<T> = Vec::new();
    let mut i: usize = 0;
    while i < n
        invariant
            0 <= i <= n,
            out@.len() == i,
            forall|k: int| 0 <= k < i ==> out@[k] == v,
        decreases n - i,
    {
        out.push(v);
        i = i + 1;
    }
    proof {
        assert(out@ =~= Seq::new(n as nat, |k: int| v));
    }
    out
}

impl<T: Numeric> Matrix<T> {
    /// A matrix of zeros; the element count must fit the machine.
    pub fn new(shape: (usize, usize)) -> (r: Self)
        requires
            shape.0 * shape.1 <= usize::MAX,
        ensures
            r@.wf(),
            r@ == MatrixView::filled(shape.0 as nat, shape.1 as nat, T::zero_spec()),
    {
        let n = shape.0 * shape.1;
        Matrix { data: repeated(n, T::zero()), rows: shape.0, cols: shape.1 }
    }

    /// A matrix of zeros; the element count must fit the machine.
    pub fn zeros(shape: (usize, usize)) -> (r: Self)
        requires
            shape.0 * shape.1 <= usize::MAX,
        ensures
            r@.wf(),
            r@ == MatrixView::filled(shape.0 as nat, shape.1 as nat, T::zero_spec()),
    {
        Matrix::new(shape)
    }

    /// A matrix of ones; the element count must fit the machine.
    pub fn ones(shape: (usize, usize)) -> (r: Self)
        requires
            shape.0 * shape.1 <= usize::MAX,
        ensures
            r@.wf(),
            r@ == MatrixView::filled(shape.0 as nat, shape.1 as nat, T::one_spec()),
    {
        let n = shape.0 * shape.1;
        Matrix { data: repeated(n, T::one()), rows: shape.0, cols: shape.1 }
    }

    /// A matrix of draws from `lo..hi`: when the range is non-empty every
    /// element lies within it; which values come is the source's affair.
    pub fn random(shape: (usize, usize), lo: T, hi: T, source: &mut RandomSource) -> (r: Self)
        requires
            shape.0 * shape.1 <= usize::MAX,
        ensures
            r@.wf(),
            r@.rows == shape.0,
            r@.cols == shape.1,
            lo.lt_spec(hi) ==> forall|k: int|
                0 <= k < r@.data.len() ==> lo.le_spec(#[trigger] r@.data[k]) && r@.data[
                    k
                ].lt_spec(hi),
    {
        let n = shape.0 * shape.1;
        let mut data: Vec<T> = Vec::new();
        let mut i: usize = 0;
        while i < n
            invariant
                0 <= i <= n,
                data@.len() == i,
                lo.lt_spec(hi) ==> forall|k: int|
                    0 <= k < i ==> lo.le_spec(#[trigger] data@[k]) && data@[k].lt_spec(hi),
            decreases n - i,
        {
            data.push(T::rand_range(lo, hi, source));
            i = i + 1;
        }
        Matrix { data, rows: shape.0, cols: shape.1 }
    }

    pub fn rows(&self) -> (r: usize)
        ensures
            r == self@.rows,
    {
        self.rows
    }

    pub fn cols(&self) -> (r: usize)
        ensures
            r == self@.cols,
    {
        self.cols
    }

    pub fn shape(&self) -> (r: (usize, usize))
        ensures
            r.0 == self@.rows,
            r.1 == self@.cols,
            self@.wf() ==> r.0 * r.1 <= usize::MAX,
    {
        proof {
            assert(self@.data.len() == self.data.len());
        }
        (self.rows, self.cols)
    }

    pub fn len(&self) -> (r: usize)
        ensures
            r == self@.data.len(),
    {
        self.data.len()
    }

    pub fn is_empty(&self) -> (r: bool)
        ensures
            r == (self@.data.len() == 0),
    {
        self.data.len() == 0
    }

    /// A borrow of the flat row-major contents.
    pub fn values(&self) -> (r: &Vec<T>)
        ensures
            r@ == self@.data,
    {
        &self.data
    }

    /// A matrix assembled from a flat buffer that already has the right
    /// element count.
    pub(crate) fn from_parts(data: Vec<T>, rows: usize, cols: usize) -> (r: Self)
        requires
            data@.len() == rows * cols,
        ensures
            r@.wf(),
            r@ == (MatrixView { rows: rows as nat, cols: cols as nat, data: data@ }),
    {
        Matrix { data, rows, cols }
    }

    /// The entry at `(row, col)`, which must lie in the shape.
    pub(crate) fn at(&self, row: usize, col: usize) -> (r: T)
        requires
            self@.wf(),
            row < self@.rows,
            col < self@.cols,
        ensures
            r == self@.ent(row as int, col as int),
    {
        proof {
            assert(self@.data.len() == self.data.len());
            lemma_offset_in_bounds(row as int, col as int, self@.rows as int, self@.cols as int);
        }
        self.data[row * self.cols + col]
    }

    /// An element-for-element copy that the contracts can see through.
    pub fn duplicate(&self) -> (r: Self)
        ensures
            r@ == self@,
    {
        let mut data: Vec<T> = Vec::new();
        let mut i: usize = 0;
        let n = self.data.len();
        while i < n
            invariant
                0 <= i <= n,
                n == self.data@.len(),
                data@ =~= self.data@.take(i as int),
            decreases n - i,
        {
            data.push(self.data[i]);
            i = i + 1;
        }
        proof {
            assert(data@ =~= self.data@);
        }
        Matrix { data, rows: self.rows, cols: self.cols }
    }

    /// The entry at `(row, col)`, or `OutOfBounds` exactly when either
    /// coordinate leaves the shape.
    pub fn get(&self, row: usize, col: usize) -> (r: Result<T, AxisError>)
        requires
            self@.wf(),
        ensures
            match r {
                Ok(v) => row < self@.rows && col < self@.cols && v == self@.ent(
                    row as int,
                    col as int,
                ),
                Err(e) => e == AxisError::OutOfBounds && (row >= self@.rows || col >= self@.cols),
            },
    {
        if row >= self.rows || col >= self.cols {
            return Err(AxisError::OutOfBounds);
        }
        proof {
            assert(self@.data.len() == self.data.len());
            lemma_offset_in_bounds(row as int, col as int, self@.rows as int, self@.cols as int);
        }
        Ok(self.data[row * self.cols + col])
    }

    /// Replaces the entry at `(row, col)`, or reports `OutOfBounds` exactly
    /// when either coordinate leaves the shape, changing nothing.
    pub fn set(&mut self, row: usize, col: usize, value: T) -> (r: Result<(), AxisError>)
        requires
            old(self)@.wf(),
        ensures
            final(self)@.wf(),
            match r {
                Ok(()) => row < old(self)@.rows && col < old(self)@.cols && final(self)@ == (
                MatrixView {
                    data: old(self)@.data.update(row as int * old(self)@.cols as int + col, value),
                    ..old(self)@
                }),
                Err(e) => e == AxisError::OutOfBounds && (row >= old(self)@.rows || col >= old(self)@.cols) && final(self)@ == old(self)@,
            },
    {
        if row >= self.rows || col >= self.cols {
            return Err(AxisError::OutOfBounds);
        }
        proof {
            assert(self@.data.len() == self.data.len());
            lemma_offset_in_bounds(row as int, col as int, self@.rows as int, self@.cols as int);
        }
        let idx = row * self.cols + col;
        self.data.set(idx, value);
        Ok(())
    }

    /// The same elements under a new shape, or `ShapeMismatch` exactly when
    /// the new shape does not account for every element.
    pub fn reshape(self, shape: (usize, usize)) -> (r: Result<Self, AxisError>)
        requires
            self@.wf(),
        ensures
            match r {
                Ok(m) => m@.wf() && shape.0 * shape.1 == self@.data.len() && m@ == self@.reshaped(
                    shape.0 as nat,
                    shape.1 as nat,
                ),
                Err(e) => e == AxisError::ShapeMismatch && shape.0 * shape.1 != self@.data.len(),
            },
    {
        let len = self.data.len();
        let ok = match shape.0.checked_mul(shape.1) {
            Some(n) => n == len,
            None => false,
        };
        if !ok {
            return Err(AxisError::ShapeMismatch);
        }
        Ok(Matrix { data: self.data, rows: shape.0, cols: shape.1 })
    }

    /// The elementwise sum, or `ShapeMismatch` exactly when the shapes
    /// differ; the result keeps the operands' shape.
    pub fn add(&self, other: &Matrix<T>) -> (r: Result<Self, AxisError>)
        requires
            self@.wf(),
            other@.wf(),
        ensures
            match r {
                Ok(m) => self@.same_shape(other@) && m@.wf() && m@ == self@.add_view(other@),
                Err(e) => e == AxisError::ShapeMismatch && !self@.same_shape(other@),
            },
    {
        if self.rows != other.rows || self.cols != other.cols {
            return Err(AxisError::ShapeMismatch);
        }
        let n = self.data.len();
        let mut data: Vec<T> = Vec::new();
        let mut k: usize = 0;
        while k < n
            invariant
                0 <= k <= n,
                n == self.data@.len(),
                n == other.data@.len(),
                data@.len() == k,
                forall|m: int|
                    0 <= m < k ==> data@[m] == self.data@[m].add_spec(#[trigger] other.data@[m]),
            decreases n - k,
        {
            data.push(self.data[k].add(other.data[k]));
            k = k + 1;
        }
        let out = Matrix { data, rows: self.rows, cols: self.cols };
        proof {
            assert(out@ =~= self@.add_view(other@));
        }
        Ok(out)
    }

    /// The elementwise difference, or `ShapeMismatch` exactly when the
    /// shapes differ; the result keeps the operands' shape.
    pub fn sub(&self, other: &Matrix<T>) -> (r: Result<Self, AxisError>)
        requires
            self@.wf(),
            other@.wf(),
        ensures
            match r {
                Ok(m) => self@.same_shape(other@) && m@.wf() && m@ == self@.sub_view(other@),
                Err(e) => e == AxisError::ShapeMismatch && !self@.same_shape(other@),
            },
    {
        if self.rows != other.rows || self.cols != other.cols {
            return Err(AxisError::ShapeMismatch);
        }
        let n = self.data.len();
        let mut data: Vec<T> = Vec::new();
        let mut k: usize = 0;
        while k < n
            invariant
                0 <= k <= n,
                n == self.data@.len(),
                n == other.data@.len(),
                data@.len() == k,
                forall|m: int|
                    0 <= m < k ==> data@[m] == self.data@[m].sub_spec(#[trigger] other.data@[m]),
            decreases n - k,
        {
            data.push(self.data[k].sub(other.data[k]));
            k = k + 1;
        }
        let out = Matrix { data, rows: self.rows, cols: self.cols };
        proof {
            assert(out@ =~= self@.sub_view(other@));
        }
        Ok(out)
    }

    /// The elementwise product, or `ShapeMismatch` exactly when the shapes
    /// differ; the result keeps the operands' shape.
    pub fn mul(&self, other: &Matrix<T>) -> (r: Result<Self, AxisError>)
        requires
            self@.wf(),
            other@.wf(),
        ensures
            match r {
                Ok(m) => self@.same_shape(other@) && m@.wf() && m@ == self@.mul_view(other@),
                Err(e) => e == AxisError::ShapeMismatch && !self@.same_shape(other@),
            },
    {
        if self.rows != other.rows || self.cols != other.cols {
            return Err(AxisError::ShapeMismatch);
        }
        let n = self.data.len();
        let mut data: Vec<T> = Vec::new();
        let mut k: usize = 0;
        while k < n
            invariant
                0 <= k <= n,
                n == self.data@.len(),
                n == other.data@.len(),
                data@.len() == k,
                forall|m: int|
                    0 <= m < k ==> data@[m] == self.data@[m].mul_spec(#[trigger] other.data@[m]),
            decreases n - k,
        {
            data.push(self.data[k].mul(other.data[k]));
            k = k + 1;
        }
        let out = Matrix { data, rows: self.rows, cols: self.cols };
        proof {
            assert(out@ =~= self@.mul_view(other@));
        }
        Ok(out)
    }

    /// The elementwise quotient, or `ShapeMismatch` exactly when the shapes
    /// differ; the result keeps the operands' shape.
    pub fn div(&self, other: &Matrix<T>) -> (r: Result<Self, AxisError>)
        requires
            self@.wf(),
            other@.wf(),
        ensures
            match r {
                Ok(m) => self@.same_shape(other@) && m@.wf() && m@ == self@.div_view(other@),
                Err(e) => e == AxisError::ShapeMismatch && !self@.same_shape(other@),
            },
    {
        if self.rows != other.rows || self.cols != other.cols {
            return Err(AxisError::ShapeMismatch);
        }
        let n = self.data.len();
        let mut data: Vec<T> = Vec::new();
        let mut k: usize = 0;
        while k < n
            invariant
                0 <= k <= n,
                n == self.data@.len(),
                n == other.data@.len(),
                data@.len() == k,
                forall|m: int|
                    0 <= m < k ==> data@[m] == self.data@[m].div_spec(#[trigger] other.data@[m]),
            decreases n - k,
        {
            data.push(self.data[k].div(other.data[k]));
            k = k + 1;
        }
        let out = Matrix { data, rows: self.rows, cols: self.cols };
        proof {
            assert(out@ =~= self@.div_view(other@));
        }
        Ok(out)
    }

    /// One value added to every element; the shape is kept.
    pub fn add_scalar(&self, v: T) -> (r: Self)
        requires
            self@.wf(),
        ensures
            r@.wf(),
            r@ == self@.add_scalar_view(v),
    {
        let n = self.data.len();
        let mut data: Vec<T> = Vec::new();
        let mut k: usize = 0;
        while k < n
            invariant
                0 <= k <= n,
                n == self.data@.len(),
                data@.len() == k,
                forall|m: int| 0 <= m < k ==> data@[m] == (#[trigger] self.data@[m]).add_spec(v),
            decreases n - k,
        {
            data.push(self.data[k].add(v));
            k = k + 1;
        }
        let out = Matrix { data, rows: self.rows, cols: self.cols };
        proof {
            assert(out@ =~= self@.add_scalar_view(v));
        }
        out
    }

    /// One value subtracted from every element; the shape is kept.
    pub fn sub_scalar(&self, v: T) -> (r: Self)
        requires
            self@.wf(),
        ensures
            r@.wf(),
            r@ == self@.sub_scalar_view(v),
    {
        let n = self.data.len();
        let mut data: Vec<T> = Vec::new();
        let mut k: usize = 0;
        while k < n
            invariant
                0 <= k <= n,
                n == self.data@.len(),
                data@.len() == k,
                forall|m: int| 0 <= m < k ==> data@[m] == (#[trigger] self.data@[m]).sub_spec(v),
            decreases n - k,
        {
            data.push(self.data[k].sub(v));
            k = k + 1;
        }
        let out = Matrix { data, rows: self.rows, cols: self.cols };
        proof {
            assert(out@ =~= self@.sub_scalar_view(v));
        }
        out
    }

    /// Every element scaled by one value; the shape is kept.
    pub fn mul_scalar(&self, v: T) -> (r: Self)
        requires
            self@.wf(),
        ensures
            r@.wf(),
            r@ == self@.mul_scalar_view(v),
    {
        let n = self.data.len();
        let mut data: Vec<T> = Vec::new();
        let mut k: usize = 0;
        while k < n
            invariant
                0 <= k <= n,
                n == self.data@.len(),
                data@.len() == k,
                forall|m: int| 0 <= m < k ==> data@[m] == (#[trigger] self.data@[m]).mul_spec(v),
            decreases n - k,
        {
            data.push(self.data[k].mul(v));
            k = k + 1;
        }
        let out = Matrix { data, rows: self.rows, cols: self.cols };
        proof {
            assert(out@ =~= self@.mul_scalar_view(v));
        }
        out
    }

    /// Every element divided by one value; the shape is kept.
    pub fn div_scalar(&self, v: T) -> (r: Self)
        requires
            self@.wf(),
        ensures
            r@.wf(),
            r@ == self@.div_scalar_view(v),
    {
        let n = self.data.len();
        let mut data: Vec<T> = Vec::new();
        let mut k: usize = 0;
        while k < n
            invariant
                0 <= k <= n,
                n == self.data@.len(),
                data@.len() == k,
                forall|m: int| 0 <= m < k ==> data@[m] == (#[trigger] self.data@[m]).div_spec(v),
            decreases n - k,
        {
            data.push(self.data[k].div(v));
            k = k + 1;
        }
        let out = Matrix { data, rows: self.rows, cols: self.cols };
        proof {
            assert(out@ =~= self@.div_scalar_view(v));
        }
        out
    }

    /// The same elements as a single row.
    pub fn flatten(self) -> (r: Self)
        requires
            self@.wf(),
        ensures
            r@.wf(),
            r@ == self@.reshaped(1, self@.data.len()),
    {
        let len = self.data.len();
        Matrix { data: self.data, rows: 1, cols: len }
    }

    /// The matrix product, or `ShapeMismatch` exactly when the inner
    /// dimensions disagree. The result has shape `(self.rows, other.cols)`
    /// and entry `(i, j)` is the sum over `k` of `self[i,k] * other[k,j]`.
    pub fn dot(&self, other: &Matrix<T>) -> (r: Result<Self, AxisError>)
        requires
            self@.wf(),
            other@.wf(),
            self@.rows * other@.cols <= usize::MAX,
        ensures
            match r {
                Ok(m) => self@.cols == other@.rows && m@.wf() && m@ == self@.dot_view(other@),
                Err(e) => e == AxisError::ShapeMismatch && self@.cols != other@.rows,
            },
    {
        if self.cols != other.rows {
            return Err(AxisError::ShapeMismatch);
        }
        let rows = self.rows;
        let inner = self.cols;
        let ocols = other.cols;
        let mut data: Vec<T> = Vec::new();
        let mut i: usize = 0;
        while i < rows
            invariant
                0 <= i <= rows,
                rows == self@.rows,
                inner == self@.cols,
                ocols == other@.cols,
                inner == other@.rows,
                self@.wf(),
                other@.wf(),
                data@.len() == i * ocols,
                forall|a: int, b: int|
                    0 <= a < i && 0 <= b < ocols ==> data@[a * ocols + b] == self@.dot_acc(
                        other@,
                        a,
                        b,
                        inner as int,
                    ),
            decreases rows - i,
        {
            let mut j: usize = 0;
            while j < ocols
                invariant
                    0 <= i < rows,
                    0 <= j <= ocols,
                    rows == self@.rows,
                    inner == self@.cols,
                    ocols == other@.cols,
                    inner == other@.rows,
                    self@.wf(),
                    other@.wf(),
                    data@.len() == i * ocols + j,
                    forall|a: int, b: int|
                        0 <= a < i && 0 <= b < ocols ==> data@[a * ocols + b] == self@.dot_acc(
                            other@,
                            a,
                            b,
                            inner as int,
                        ),
                    forall|b: int|
                        0 <= b < j ==> data@[i * ocols + b] == self@.dot_acc(
                            other@,
                            i as int,
                            b,
                            inner as int,
                        ),
                decreases ocols - j,
            {
                let mut sum = T::zero();
                let mut k: usize = 0;
                while k < inner
                    invariant
                        0 <= i < rows,
                        0 <= j < ocols,
                        0 <= k <= inner,
                        rows == self@.rows,
                        inner == self@.cols,
                        ocols == other@.cols,
                        inner == other@.rows,
                        self@.wf(),
                        other@.wf(),
                        sum == self@.dot_acc(other@, i as int, j as int, k as int),
                    decreases inner - k,
                {
                    proof {
                        assert(self@.data.len() == self.data.len());
                        assert(other@.data.len() == other.data.len());
                        lemma_offset_in_bounds(i as int, k as int, rows as int, inner as int);
                        lemma_offset_in_bounds(k as int, j as int, inner as int, ocols as int);
                    }
                    sum = sum.add(self.data[i * inner + k].mul(other.data[k * ocols + j]));
                    k = k + 1;
                }
                proof {
                    assert forall|a: int, b: int|
                        0 <= a < i && 0 <= b < ocols implies #[trigger] (a * ocols + b) < i * ocols
                        + j by {
                        lemma_offset_in_bounds(a, b, i as int, ocols as int);
                    }
                }
                data.push(sum);
                j = j + 1;
            }
            proof {
                assert((i + 1) * ocols == i * ocols + ocols) by (nonlinear_arith);
            }
            i = i + 1;
        }
        let out = Matrix { data, rows, cols: ocols };
        proof {
            let dv = self@.dot_view(other@);
            assert forall|a: int, b: int|
                0 <= a < out@.rows && 0 <= b < out@.cols implies out@.ent(a, b) == #[trigger] dv.ent(
                a,
                b,
            ) by {
                lemma_dot_view_ent(self@, other@, a, b);
                lemma_offset_in_bounds(a, b, rows as int, ocols as int);
            }
            lemma_view_ext(out@, dv);
        }
        Ok(out)
    }

    /// The mirror image over the diagonal: shape swapped, entry `(j, i)`
    /// copied from entry `(i, j)`.
    pub fn transpose(&self) -> (r: Self)
        requires
            self@.wf(),
        ensures
            r@.wf(),
            r@ == self@.transpose_view(),
    {
        let rows = self.rows;
        let cols = self.cols;
        let mut data: Vec<T> = Vec::new();
        let mut j: usize = 0;
        while j < cols
            invariant
                0 <= j <= cols,
                rows == self@.rows,
                cols == self@.cols,
                self@.wf(),
                data@.len() == j * rows,
                forall|a: int, b: int|
                    0 <= a < j && 0 <= b < rows ==> data@[a * rows + b] == self@.ent(b, a),
            decreases cols - j,
        {
            let mut i: usize = 0;
            while i < rows
                invariant
                    0 <= j < cols,
                    0 <= i <= rows,
                    rows == self@.rows,
                    cols == self@.cols,
                    self@.wf(),
                    data@.len() == j * rows + i,
                    forall|a: int, b: int|
                        0 <= a < j && 0 <= b < rows ==> data@[a * rows + b] == self@.ent(b, a),
                    forall|b: int| 0 <= b < i ==> data@[j * rows + b] == self@.ent(b, j as int),
                decreases rows - i,
            {
                proof {
                    assert(self@.data.len() == self.data.len());
                    lemma_offset_in_bounds(i as int, j as int, rows as int, cols as int);
                    assert forall|a: int, b: int|
                        0 <= a < j && 0 <= b < rows implies #[trigger] (a * rows + b) < j * rows
                        + i by {
                        lemma_offset_in_bounds(a, b, j as int, rows as int);
                    }
                }
                data.push(self.data[i * cols + j]);
                i = i + 1;
            }
            proof {
                assert((j + 1) * rows == j * rows + rows) by (nonlinear_arith);
            }
            j = j + 1;
        }
        let out = Matrix { data, rows: cols, cols: rows };
        proof {
            let tv = self@.transpose_view();
            assert(tv.data.len() == tv.rows * tv.cols);
            assert forall|a: int, b: int|
                0 <= a < out@.rows && 0 <= b < out@.cols implies out@.ent(a, b) == #[trigger] tv.ent(
                a,
                b,
            ) by {
                lemma_transpose_ent(self@, a, b);
                lemma_offset_in_bounds(a, b, cols as int, rows as int);
            }
            lemma_view_ext(out@, tv);
        }
        out
    }
}

/// Transposing twice gives the original matrix back, for every well-formed
/// matrix.
pub proof fn lemma_transpose_involution<T>(m: MatrixView<T>)
    requires
        m.wf(),
    ensures
        m.transpose_view().wf(),
        m.transpose_view().transpose_view() == m,
{
    let t = m.transpose_view();
    let tt = t.transpose_view();
    assert forall|i: int, j: int|
        0 <= i < m.rows && 0 <= j < m.cols implies tt.ent(i, j) == #[trigger] m.ent(i, j) by {
        lemma_transpose_ent(t, i, j);
        lemma_transpose_ent(m, j, i);
    }
    lemma_view_ext(tt, m);
}

/// The values `start, start + step, ...` that lie below `end`, in order.
pub open spec fn arange_seq(start: int, end: int, step: int) -> Seq<i32>
    decreases (if start < end { end - start } else { 0 }) when step >= 1
{
    if start >= end || step < 1 {
        Seq::empty()
    } else {
        seq![start as i32] + arange_seq(start + step, end, step)
    }
}

impl Matrix<i32> {
    /// The increasing values in `[start, end)` taken `step` apart, as a
    /// single row. The step must be positive: the sequence would otherwise
    /// never reach `end`.
    pub fn arange(start: i32, end: i32, step: i32) -> (r: Self)
        requires
            step >= 1,
        ensures
            r@.wf(),
            r@ == MatrixView::row_of(arange_seq(start as int, end as int, step as int)),
    {
        let ghost full = arange_seq(start as int, end as int, step as int);
        let mut data: Vec<i32> = Vec::new();
        let mut current: i32 = start;
        while current < end
            invariant
                step >= 1,
                full == arange_seq(start as int, end as int, step as int),
                full =~= data@ + arange_seq(current as int, end as int, step as int),
            decreases end - current,
        {
            proof {
                assert(arange_seq(current as int, end as int, step as int) =~= seq![current]
                    + arange_seq(current as int + step as int, end as int, step as int));
                assert(full =~= data@.push(current) + arange_seq(
                    current as int + step as int,
                    end as int,
                    step as int,
                ));
            }
            data.push(current);
            match current.checked_add(step) {
                Some(next) => {
                    if next < end {
                        current = next;
                    } else {
                        proof {
                            assert(arange_seq(next as int, end as int, step as int) =~= arange_seq(
                                end as int,
                                end as int,
                                step as int,
                            ));
                        }
                        current = end;
                    }
                },
                None => {
                    proof {
                        assert(arange_seq(current as int + step as int, end as int, step as int)
                            =~= arange_seq(end as int, end as int, step as int));
                    }
                    current = end;
                },
            }
        }
        proof {
            assert(arange_seq(current as int, end as int, step as int) =~= Seq::<i32>::empty());
            assert(full =~= data@);
        }
        let n = data.len();
        Matrix { data, rows: 1, cols: n }
    }
}

impl<T: Numeric> Matrix<T> {
    /// A matrix assembled from nested rows, or `ShapeMismatch` exactly
    /// when there is no row or some row's width differs from the first's:
    /// a matrix never holds a lopsided buffer.
    pub fn from_rows(rows: Vec<Vec<T>>) -> (r: Result<Self, AxisError>)
        ensures
            match r {
                Ok(m) => rows@.len() > 0 && (forall|i: int|
                    0 <= i < rows@.len() ==> (#[trigger] rows@[i])@.len() == rows@[0]@.len())
                    && m@.wf() && m@.rows == rows@.len() && m@.cols == rows@[0]@.len() && (forall|
                    i: int,
                    j: int,
                |
                    0 <= i < rows@.len() && 0 <= j < rows@[0]@.len() ==> m@.ent(i, j)
                        == rows@[i]@[j]),
                Err(e) => e == AxisError::ShapeMismatch && (rows@.len() == 0 || exists|i: int|
                    0 <= i < rows@.len() && (#[trigger] rows@[i])@.len() != rows@[0]@.len()),
            },
    {
        let n = rows.len();
        if n == 0 {
            return Err(AxisError::ShapeMismatch);
        }
        let cols = rows[0].len();
        let mut i: usize = 0;
        while i < n
            invariant
                0 <= i <= n,
                n == rows@.len(),
                cols == rows@[0]@.len(),
                forall|k: int| 0 <= k < i ==> (#[trigger] rows@[k])@.len() == cols,
            decreases n - i,
        {
            if rows[i].len() != cols {
                return Err(AxisError::ShapeMismatch);
            }
            i = i + 1;
        }
        let mut data: Vec<T> = Vec::new();
        let mut a: usize = 0;
        while a < n
            invariant
                0 <= a <= n,
                n == rows@.len(),
                cols == rows@[0]@.len(),
                forall|k: int| 0 <= k < n ==> (#[trigger] rows@[k])@.len() == cols,
                data@.len() == a * cols,
                forall|p: int, q: int|
                    0 <= p < a && 0 <= q < cols ==> #[trigger] data@[p * cols + q] == rows@[p]@[q],
            decreases n - a,
        {
            let mut b: usize = 0;
            while b < cols
                invariant
                    0 <= a < n,
                    0 <= b <= cols,
                    n == rows@.len(),
                    cols == rows@[0]@.len(),
                    forall|k: int| 0 <= k < n ==> (#[trigger] rows@[k])@.len() == cols,
                    data@.len() == a * cols + b,
                    forall|p: int, q: int|
                        0 <= p < a && 0 <= q < cols ==> #[trigger] data@[p * cols + q]
                            == rows@[p]@[q],
                    forall|q: int| 0 <= q < b ==> data@[a * cols + q] == rows@[a as int]@[q],
                decreases cols - b,
            {
                proof {
                    assert forall|p: int, q: int|
                        0 <= p < a && 0 <= q < cols implies #[trigger] (p * cols + q) < a * cols
                        + b by {
                        lemma_offset_in_bounds(p, q, a as int, cols as int);
                    }
                }
                data.push(rows[a][b]);
                b = b + 1;
            }
            proof {
                assert((a + 1) * cols == a * cols + cols) by (nonlinear_arith);
            }
            a = a + 1;
        }
        let m = Matrix::from_parts(data, n, cols);
        proof {
            assert forall|i2: int, j2: int|
                0 <= i2 < rows@.len() && 0 <= j2 < rows@[0]@.len() implies m@.ent(i2, j2)
                == rows@[i2]@[j2] by {
                lemma_offset_in_bounds(i2, j2, n as int, cols as int);
            }
        }
        Ok(m)
    }
}

impl<T: Numeric> From<Vec<T>> for Matrix<T> {
    /// A single row holding the given values.
    fn from(data: Vec<T>) -> (r: Matrix<T>)
        ensures
            r@.wf(),
            r@ == MatrixView::row_of(data@),
    {
        let len = data.len();
        Matrix { data, rows: 1, cols: len }
    }
}

impl<T: Numeric> vstd::std_specs::convert::FromSpecImpl<Vec<T>> for Matrix<T> {
    open spec fn obeys_from_spec() -> bool {
        true
    }

    closed spec fn from_spec(data: Vec<T>) -> Matrix<T> {
        Matrix { data, rows: 1usize, cols: (data@.len() as usize) }
    }
}

} // verus!
