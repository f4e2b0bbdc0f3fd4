use vstd::prelude::*;

use crate::numeric::Numeric;
use crate::shape::{dims_product, Shape};

verus! {

/// The product of the dimensions from position `k` on: the stride of axis
/// `k - 1` in a dense row-major buffer.
pub open spec fn suffix_product(dims: Seq<usize>, k: int) -> int
    decreases dims.len() - k when k >= 0
{
    if k >= dims.len() {
        1
    } else {
        dims[k] * suffix_product(dims, k + 1)
    }
}

/// An n-dimensional dense buffer: a flat vector, a shape, and the stride of
/// each axis.
pub struct Tensor<T> {
    pub data: Vec<T>,
    pub shape: Shape,
    pub strides: Vec<usize>,
}

impl<T: Numeric> Tensor<T> {
    /// A zero-filled buffer for the shape, with row-major strides: the last
    /// axis has stride 1 and each axis's stride is the next axis's stride
    /// times that axis's extent. The shape must have at least one axis, and
    /// the running products must fit the machine.
    pub fn new(shape: Shape) -> (r: Self)
        requires
            shape.dims@.len() >= 1,
            forall|k: int|
                0 <= k <= shape.dims@.len() ==> dims_product(#[trigger] shape.dims@.take(k))
                    <= usize::MAX,
            forall|k: int|
                0 <= k <= shape.dims@.len() ==> suffix_product(shape.dims@, k) <= usize::MAX,
        ensures
            r.shape == shape,
            r.data@.len() == dims_product(shape.dims@),
            forall|k: int| 0 <= k < r.data@.len() ==> r.data@[k] == T::zero_spec(),
            r.strides@.len() == shape.dims@.len(),
            forall|k: int|
                0 <= k < r.strides@.len() ==> r.strides@[k] == suffix_product(shape.dims@, k + 1),
    {
        let rank = shape.dims.len();
        let mut strides: Vec<usize> = Vec::new();
        let mut k: usize = 0;
        while k < rank
            invariant
                0 <= k <= rank,
                strides@.len() == k,
                forall|m: int| 0 <= m < k ==> strides@[m] == 1,
            decreases rank - k,
        {
            strides.push(1);
            k = k + 1;
        }
        let mut i: usize = rank - 1;
        proof {
            assert(suffix_product(shape.dims@, rank as int) == 1);
        }
        while i > 0
            invariant
                0 <= i <= rank - 1,
                rank == shape.dims@.len(),
                strides@.len() == rank,
                forall|k: int|
                    0 <= k <= shape.dims@.len() ==> suffix_product(shape.dims@, k) <= usize::MAX,
                forall|m: int|
                    i <= m < rank ==> strides@[m] == suffix_product(shape.dims@, m + 1),
            decreases i,
        {
            let next = strides[i];
            let d = shape.dims[i];
            proof {
                assert(suffix_product(shape.dims@, i as int) == d * suffix_product(
                    shape.dims@,
                    i as int + 1,
                ));
            }
            let s = d * next;
            strides.set(i - 1, s);
            i = i - 1;
        }
        let size = shape.size();
        let mut data: Vec<T> = Vec::new();
        let mut j: usize = 0;
        while j < size
            invariant
                0 <= j <= size,
                data@.len() == j,
                forall|m: int| 0 <= m < j ==> data@[m] == T::zero_spec(),
            decreases size - j,
        {
            data.push(T::zero());
            j = j + 1;
        }
        Tensor { data, shape, strides }
    }

    /// The element at the flat offset; the offset must lie in the buffer.
    pub fn at(&self, index: usize) -> (r: T)
        requires
            index < self.data@.len(),
        ensures
            r == self.data@[index as int],
    {
        self.data[index]
    }

    /// Replaces the element at the flat offset, which must lie in the
    /// buffer.
    pub fn put(&mut self, index: usize, value: T)
        requires
            index < old(self).data@.len(),
        ensures
            final(self).data@ == old(self).data@.update(index as int, value),
            final(self).shape == old(self).shape,
            final(self).strides == old(self).strides,
    {
        self.data.set(index, value);
    }

    /// The element at `(i, j)` under the first two strides; the computed
    /// offset must lie in the buffer.
    pub fn get2(&self, i: usize, j: usize) -> (r: T)
        requires
            self.strides@.len() >= 2,
            i * self.strides@[0] + j * self.strides@[1] < self.data@.len(),
        ensures
            r == self.data@[i * self.strides@[0] + j * self.strides@[1]],
    {
        proof {
            assert(self.data@.len() == self.data.len());
        }
        self.data[i * self.strides[0] + j * self.strides[1]]
    }

    /// Replaces the element at `(i, j)` under the first two strides; the
    /// computed offset must lie in the buffer.
    pub fn set2(&mut self, i: usize, j: usize, value: T)
        requires
            old(self).strides@.len() >= 2,
            i * old(self).strides@[0] + j * old(self).strides@[1] < old(self).data@.len(),
        ensures
            final(self).data@ == old(self).data@.update(
                i * old(self).strides@[0] + j * old(self).strides@[1],
                value,
            ),
            final(self).shape == old(self).shape,
            final(self).strides == old(self).strides,
    {
        proof {
            assert(self.data@.len() == self.data.len());
        }
        let idx = i * self.strides[0] + j * self.strides[1];
        self.data.set(idx, value);
    }

    /// The element at `(i, j, k)` under the first three strides; the
    /// computed offset must lie in the buffer.
    pub fn get3(&self, i: usize, j: usize, k: usize) -> (r: T)
        requires
            self.strides@.len() >= 3,
            i * self.strides@[0] + j * self.strides@[1] + k * self.strides@[2]
                < self.data@.len(),
        ensures
            r == self.data@[i * self.strides@[0] + j * self.strides@[1] + k * self.strides@[2]],
    {
        proof {
            assert(self.data@.len() == self.data.len());
        }
        self.data[i * self.strides[0] + j * self.strides[1] + k * self.strides[2]]
    }

    /// Replaces the element at `(i, j, k)` under the first three strides;
    /// the computed offset must lie in the buffer.
    pub fn set3(&mut self, i: usize, j: usize, k: usize, value: T)
        requires
            old(self).strides@.len() >= 3,
            i * old(self).strides@[0] + j * old(self).strides@[1] + k * old(self).strides@[2]
                < old(self).data@.len(),
        ensures
            final(self).data@ == old(self).data@.update(
                i * old(self).strides@[0] + j * old(self).strides@[1] + k * old(
                    self,
                ).strides@[2],
                value,
            ),
            final(self).shape == old(self).shape,
            final(self).strides == old(self).strides,
    {
        proof {
            assert(self.data@.len() == self.data.len());
        }
        let idx = i * self.strides[0] + j * self.strides[1] + k * self.strides[2];
        self.data.set(idx, value);
    }
}

} // verus!
