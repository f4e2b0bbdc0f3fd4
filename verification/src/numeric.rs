use vstd::prelude::*;

use crate::random_provider::RandomSource;

verus! {

/// The scalar operations the matrix arithmetic is built from. Each
/// executable operation returns exactly what its spec function names, so a
/// contract over matrices of any `Numeric` type pins every element down.
///
/// Overflow never panics: an instance on a bounded representation picks a
/// total semantics (the `i32` instance wraps) and its spec functions say so.
pub trait Numeric: Copy + Sized {
    spec fn zero_spec() -> Self;

    spec fn one_spec() -> Self;

    spec fn add_spec(self, other: Self) -> Self;

    spec fn sub_spec(self, other: Self) -> Self;

    spec fn mul_spec(self, other: Self) -> Self;

    spec fn div_spec(self, other: Self) -> Self;

    spec fn neg_spec(self) -> Self;

    spec fn abs_spec(self) -> Self;

    spec fn double_spec(self) -> Self;

    spec fn half_spec(self) -> Self;

    spec fn lt_spec(self, other: Self) -> bool;

    spec fn le_spec(self, other: Self) -> bool;

    spec fn max_spec(self, other: Self) -> Self;

    fn zero() -> (r: Self)
        ensures
            r == Self::zero_spec(),
    ;

    fn one() -> (r: Self)
        ensures
            r == Self::one_spec(),
    ;

    fn add(self, other: Self) -> (r: Self)
        ensures
            r == self.add_spec(other),
    ;

    fn sub(self, other: Self) -> (r: Self)
        ensures
            r == self.sub_spec(other),
    ;

    fn mul(self, other: Self) -> (r: Self)
        ensures
            r == self.mul_spec(other),
    ;

    fn div(self, other: Self) -> (r: Self)
        ensures
            r == self.div_spec(other),
    ;

    fn neg(self) -> (r: Self)
        ensures
            r == self.neg_spec(),
    ;

    fn abs(self) -> (r: Self)
        ensures
            r == self.abs_spec(),
    ;

    /// Twice the value, as the instance understands doubling.
    fn double(self) -> (r: Self)
        ensures
            r == self.double_spec(),
    ;

    /// Half the value, as the instance understands halving.
    fn half(self) -> (r: Self)
        ensures
            r == self.half_spec(),
    ;

    fn lt(self, other: Self) -> (r: bool)
        ensures
            r == self.lt_spec(other),
    ;

    fn le(self, other: Self) -> (r: bool)
        ensures
            r == self.le_spec(other),
    ;

    /// The greater of the two, as the instance understands order.
    fn max_with(self, other: Self) -> (r: Self)
        ensures
            r == self.max_spec(other),
    ;

    /// A draw from `lo..hi`: which value comes is the source's affair, but
    /// it lies within the range whenever the range is non-empty, and an
    /// empty range must not panic.
    fn rand_range(lo: Self, hi: Self, source: &mut RandomSource) -> (r: Self)
        ensures
            lo.lt_spec(hi) ==> lo.le_spec(r) && r.lt_spec(hi),
    ;
}

/// The scalar operations of the nonlinearities: what an activation or a
/// loss needs beyond ring arithmetic. The transcendentals are abstract per
/// instance; their spec functions are the only thing contracts rely on.
pub trait Real: Numeric {
    spec fn exp_spec(self) -> Self;

    spec fn ln_spec(self) -> Self;

    spec fn tanh_spec(self) -> Self;

    /// The slope a leaky rectifier keeps on its negative side.
    spec fn small_slope_spec() -> Self;

    /// The value clamped into the finite working band, with any
    /// non-comparable value (a float NaN) sent to zero.
    spec fn clamp_spec(self) -> Self;

    fn exp(self) -> (r: Self)
        ensures
            r == self.exp_spec(),
    ;

    fn ln(self) -> (r: Self)
        ensures
            r == self.ln_spec(),
    ;

    fn tanh(self) -> (r: Self)
        ensures
            r == self.tanh_spec(),
    ;

    fn small_slope() -> (r: Self)
        ensures
            r == Self::small_slope_spec(),
    ;

    fn clamp_finite(self) -> (r: Self)
        ensures
            r == self.clamp_spec(),
    ;
}

impl Numeric for i32 {
    open spec fn zero_spec() -> i32 {
        0
    }

    open spec fn one_spec() -> i32 {
        1
    }

    open spec fn add_spec(self, other: i32) -> i32 {
        self.wrapping_add(other)
    }

    open spec fn sub_spec(self, other: i32) -> i32 {
        self.wrapping_sub(other)
    }

    open spec fn mul_spec(self, other: i32) -> i32 {
        self.wrapping_mul(other)
    }

    open spec fn div_spec(self, other: i32) -> i32 {
        match self.checked_div(other) {
            Some(v) => v,
            None => if other == 0 {
                0
            } else {
                i32::MIN
            },
        }
    }

    open spec fn neg_spec(self) -> i32 {
        (0i32).wrapping_sub(self)
    }

    open spec fn abs_spec(self) -> i32 {
        if self < 0 {
            (0i32).wrapping_sub(self)
        } else {
            self
        }
    }

    open spec fn double_spec(self) -> i32 {
        self.wrapping_add(self)
    }

    open spec fn half_spec(self) -> i32 {
        self.div_spec(2)
    }

    open spec fn lt_spec(self, other: i32) -> bool {
        self < other
    }

    open spec fn le_spec(self, other: i32) -> bool {
        self <= other
    }

    open spec fn max_spec(self, other: i32) -> i32 {
        if self < other {
            other
        } else {
            self
        }
    }

    fn zero() -> i32 {
        0
    }

    fn one() -> i32 {
        1
    }

    fn add(self, other: i32) -> i32 {
        self.wrapping_add(other)
    }

    fn sub(self, other: i32) -> i32 {
        self.wrapping_sub(other)
    }

    fn mul(self, other: i32) -> i32 {
        self.wrapping_mul(other)
    }

    fn div(self, other: i32) -> i32 {
        match self.checked_div(other) {
            Some(v) => v,
            None => if other == 0 {
                0
            } else {
                i32::MIN
            },
        }
    }

    fn neg(self) -> i32 {
        (0i32).wrapping_sub(self)
    }

    fn abs(self) -> i32 {
        if self < 0 {
            (0i32).wrapping_sub(self)
        } else {
            self
        }
    }

    fn double(self) -> i32 {
        self.wrapping_add(self)
    }

    fn half(self) -> i32 {
        match self.checked_div(2) {
            Some(v) => v,
            None => 0,
        }
    }

    fn lt(self, other: i32) -> bool {
        self < other
    }

    fn le(self, other: i32) -> bool {
        self <= other
    }

    fn max_with(self, other: i32) -> i32 {
        if self < other {
            other
        } else {
            self
        }
    }

    fn rand_range(lo: i32, hi: i32, source: &mut RandomSource) -> i32 {
        if lo < hi {
            source.range_i32(lo, hi)
        } else {
            lo
        }
    }
}

} // verus!
