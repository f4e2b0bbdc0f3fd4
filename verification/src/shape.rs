use vstd::prelude::*;

verus! {

/// The product of a sequence of dimensions, folded from the left as the
/// executable loop computes it.
pub open spec fn dims_product(dims: Seq<usize>) -> int
    decreases dims.len(),
{
    if dims.len() == 0 {
        1
    } else {
        dims_product(dims.drop_last()) * dims.last()
    }
}

/// The dimensions of an n-dimensional buffer.
#[derive(Debug, Clone, PartialEq, Eq)]
pub struct Shape {
    pub dims: Vec<usize>,
}

impl Shape {
    pub fn new(dims: Vec<usize>) -> (s: Self)
        ensures
            s.dims == dims,
    {
        Shape { dims }
    }

    /// The number of elements a buffer of this shape holds: the product of
    /// all dimensions. Every prefix product must fit in `usize`, a machine
    /// limit of the running product.
    pub fn size(&self) -> (r: usize)
        requires
            forall|k: int|
                0 <= k <= self.dims@.len() ==> dims_product(#[trigger] self.dims@.take(k))
                    <= usize::MAX,
        ensures
            r == dims_product(self.dims@),
    {
        let mut acc: usize = 1;
        let mut i: usize = 0;
        proof {
            assert(self.dims@.take(0) =~= Seq::<usize>::empty());
        }
        while i < self.dims.len()
            invariant
                0 <= i <= self.dims@.len(),
                acc == dims_product(self.dims@.take(i as int)),
                forall|k: int|
                    0 <= k <= self.dims@.len() ==> dims_product(#[trigger] self.dims@.take(k))
                        <= usize::MAX,
            decreases self.dims@.len() - i,
        {
            proof {
                assert(self.dims@.take(i + 1).drop_last() =~= self.dims@.take(i as int));
                assert(self.dims@.take(i + 1).last() == self.dims@[i as int]);
                assert(dims_product(self.dims@.take(i + 1)) <= usize::MAX);
            }
            acc = acc * self.dims[i];
            i = i + 1;
        }
        proof {
            assert(self.dims@.take(self.dims@.len() as int) =~= self.dims@);
        }
        acc
    }

    /// The extent along one axis; the axis must exist.
    pub fn dim(&self, index: usize) -> (r: usize)
        requires
            index < self.dims@.len(),
        ensures
            r == self.dims@[index as int],
    {
        self.dims[index]
    }

    pub fn rank(&self) -> (r: usize)
        ensures
            r == self.dims@.len(),
    {
        self.dims.len()
    }

    pub fn is_empty(&self) -> (r: bool)
        ensures
            r == (self.dims@.len() == 0),
    {
        self.dims.len() == 0
    }

    pub fn is_scalar(&self) -> (r: bool)
        ensures
            r == (self.dims@.len() == 1 && self.dims@[0] == 1),
    {
        self.dims.len() == 1 && self.dims[0] == 1
    }

    pub fn is_vector(&self) -> (r: bool)
        ensures
            r == (self.dims@.len() == 1),
    {
        self.dims.len() == 1
    }

    pub fn is_matrix(&self) -> (r: bool)
        ensures
            r == (self.dims@.len() == 2),
    {
        self.dims.len() == 2
    }

    pub fn is_tensor(&self) -> (r: bool)
        ensures
            r == (self.dims@.len() > 2),
    {
        self.dims.len() > 2
    }

    pub fn is_square(&self) -> (r: bool)
        ensures
            r == (self.dims@.len() == 2 && self.dims@[0] == self.dims@[1]),
    {
        self.dims.len() == 2 && self.dims[0] == self.dims[1]
    }
}

} // verus!
