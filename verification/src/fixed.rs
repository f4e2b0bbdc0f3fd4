use vstd::prelude::*;

use crate::numeric::{Numeric, Real};
use crate::random_provider::RandomSource;

verus! {

/// The number of raw units per whole unit: four decimal places.
pub const FIX_SCALE: i64 = 10_000;

/// The raw magnitude of the finite working band's edge: the value `1e10`.
pub const FIX_CLAMP: i64 = 100_000_000_000_000;

/// The bottom of the finite working band: the value `-1e10`.
pub const FIX_CLAMP_NEG: i64 = -100_000_000_000_000;

/// The raw image of the value `-1`.
pub const FIX_SCALE_NEG: i64 = -10_000;

/// A fixed-point scalar with four decimal places: the value is `raw /
/// 10_000`. Arithmetic saturates at the representation's edges instead of
/// overflowing, and the transcendentals are deliberately coarse piecewise
/// stand-ins — the trait's spec functions pin down exactly these
/// semantics, nothing finer.
#[derive(Debug, Clone, Copy, PartialEq, Eq, Structural)]
pub struct Fix {
    pub raw: i64,
}

/// An integer clipped into the `i64` range.
pub open spec fn sat64(x: int) -> i64 {
    if x > i64::MAX {
        i64::MAX
    } else if x < i64::MIN {
        i64::MIN
    } else {
        x as i64
    }
}

impl Fix {
    /// The fixed-point image of a small integer.
    pub fn from_int(v: i64) -> (r: Fix)
        requires
            -100_000 <= v <= 100_000,
        ensures
            r.raw == v * FIX_SCALE,
    {
        Fix { raw: v * FIX_SCALE }
    }
}

impl Numeric for Fix {
    open spec fn zero_spec() -> Fix {
        Fix { raw: 0 }
    }

    open spec fn one_spec() -> Fix {
        Fix { raw: FIX_SCALE }
    }

    open spec fn add_spec(self, other: Fix) -> Fix {
        Fix { raw: sat64(self.raw + other.raw) }
    }

    open spec fn sub_spec(self, other: Fix) -> Fix {
        Fix { raw: sat64(self.raw - other.raw) }
    }

    open spec fn mul_spec(self, other: Fix) -> Fix {
        match self.raw.checked_mul(other.raw) {
            Some(p) => match p.checked_div(FIX_SCALE) {
                Some(q) => Fix { raw: q },
                None => Fix { raw: 0 },
            },
            None => if (self.raw > 0) == (other.raw > 0) {
                Fix { raw: i64::MAX }
            } else {
                Fix { raw: i64::MIN }
            },
        }
    }

    open spec fn div_spec(self, other: Fix) -> Fix {
        match self.raw.checked_mul(FIX_SCALE) {
            Some(p) => match p.checked_div(other.raw) {
                Some(q) => Fix { raw: q },
                None => if other.raw == 0 {
                    Fix { raw: 0 }
                } else {
                    Fix { raw: i64::MAX }
                },
            },
            None => if (self.raw > 0) == (other.raw > 0) {
                Fix { raw: i64::MAX }
            } else {
                Fix { raw: i64::MIN }
            },
        }
    }

    open spec fn neg_spec(self) -> Fix {
        if self.raw == i64::MIN {
            Fix { raw: i64::MAX }
        } else {
            Fix { raw: -self.raw as i64 }
        }
    }

    open spec fn abs_spec(self) -> Fix {
        if self.raw < 0 {
            self.neg_spec()
        } else {
            self
        }
    }

    open spec fn double_spec(self) -> Fix {
        Fix { raw: sat64(self.raw + self.raw) }
    }

    open spec fn half_spec(self) -> Fix {
        match self.raw.checked_div(2) {
            Some(q) => Fix { raw: q },
            None => Fix { raw: 0 },
        }
    }

    open spec fn lt_spec(self, other: Fix) -> bool {
        self.raw < other.raw
    }

    open spec fn le_spec(self, other: Fix) -> bool {
        self.raw <= other.raw
    }

    open spec fn max_spec(self, other: Fix) -> Fix {
        if self.raw < other.raw {
            other
        } else {
            self
        }
    }

    fn zero() -> Fix {
        Fix { raw: 0 }
    }

    fn one() -> Fix {
        Fix { raw: FIX_SCALE }
    }

    fn add(self, other: Fix) -> Fix {
        match self.raw.checked_add(other.raw) {
            Some(v) => Fix { raw: v },
            None => if self.raw > 0 {
                Fix { raw: i64::MAX }
            } else {
                Fix { raw: i64::MIN }
            },
        }
    }

    fn sub(self, other: Fix) -> Fix {
        match self.raw.checked_sub(other.raw) {
            Some(v) => Fix { raw: v },
            None => if other.raw < 0 {
                Fix { raw: i64::MAX }
            } else {
                Fix { raw: i64::MIN }
            },
        }
    }

    fn mul(self, other: Fix) -> Fix {
        match self.raw.checked_mul(other.raw) {
            Some(p) => match p.checked_div(FIX_SCALE) {
                Some(q) => Fix { raw: q },
                None => Fix { raw: 0 },
            },
            None => if (self.raw > 0) == (other.raw > 0) {
                Fix { raw: i64::MAX }
            } else {
                Fix { raw: i64::MIN }
            },
        }
    }

    fn div(self, other: Fix) -> Fix {
        match self.raw.checked_mul(FIX_SCALE) {
            Some(p) => match p.checked_div(other.raw) {
                Some(q) => Fix { raw: q },
                None => if other.raw == 0 {
                    Fix { raw: 0 }
                } else {
                    Fix { raw: i64::MAX }
                },
            },
            None => if (self.raw > 0) == (other.raw > 0) {
                Fix { raw: i64::MAX }
            } else {
                Fix { raw: i64::MIN }
            },
        }
    }

    fn neg(self) -> Fix {
        if self.raw == i64::MIN {
            Fix { raw: i64::MAX }
        } else {
            Fix { raw: -self.raw }
        }
    }

    fn abs(self) -> Fix {
        if self.raw < 0 {
            if self.raw == i64::MIN {
                Fix { raw: i64::MAX }
            } else {
                Fix { raw: -self.raw }
            }
        } else {
            self
        }
    }

    fn double(self) -> Fix {
        match self.raw.checked_add(self.raw) {
            Some(v) => Fix { raw: v },
            None => if self.raw > 0 {
                Fix { raw: i64::MAX }
            } else {
                Fix { raw: i64::MIN }
            },
        }
    }

    fn half(self) -> Fix {
        match self.raw.checked_div(2) {
            Some(q) => Fix { raw: q },
            None => Fix { raw: 0 },
        }
    }

    fn lt(self, other: Fix) -> bool {
        self.raw < other.raw
    }

    fn le(self, other: Fix) -> bool {
        self.raw <= other.raw
    }

    fn max_with(self, other: Fix) -> Fix {
        if self.raw < other.raw {
            other
        } else {
            self
        }
    }

    fn rand_range(lo: Fix, hi: Fix, source: &mut RandomSource) -> Fix {
        let l: i64 = if lo.raw < FIX_CLAMP_NEG {
            FIX_CLAMP_NEG
        } else {
            lo.raw
        };
        let h: i64 = if hi.raw > FIX_CLAMP {
            FIX_CLAMP
        } else {
            hi.raw
        };
        if l >= h {
            // The range misses the working band entirely; its lower end is
            // still a value within it.
            return lo;
        }
        let span = (h - l) as u64;
        let draw = source.next_u64() % span;
        Fix { raw: l + (draw as i64) }
    }
}

impl Real for Fix {
    /// A coarse stand-in for the exponential: `max(1 + x, 0.0001)` —
    /// positive, increasing, and one at zero.
    open spec fn exp_spec(self) -> Fix {
        Fix { raw: FIX_SCALE }.add_spec(self).max_spec(Fix { raw: 1 })
    }

    /// A coarse stand-in for the natural logarithm: `x - 1` on positive
    /// values, the bottom of the working band elsewhere.
    open spec fn ln_spec(self) -> Fix {
        if self.raw > 0 {
            self.sub_spec(Fix { raw: FIX_SCALE })
        } else {
            Fix { raw: FIX_CLAMP_NEG }
        }
    }

    /// A coarse stand-in for the hyperbolic tangent: the value clipped
    /// into `[-1, 1]`.
    open spec fn tanh_spec(self) -> Fix {
        if self.raw > FIX_SCALE {
            Fix { raw: FIX_SCALE }
        } else if self.raw < FIX_SCALE_NEG {
            Fix { raw: FIX_SCALE_NEG }
        } else {
            self
        }
    }

    open spec fn small_slope_spec() -> Fix {
        Fix { raw: 100 }
    }

    open spec fn clamp_spec(self) -> Fix {
        if self.raw > FIX_CLAMP {
            Fix { raw: FIX_CLAMP }
        } else if self.raw < FIX_CLAMP_NEG {
            Fix { raw: FIX_CLAMP_NEG }
        } else {
            self
        }
    }

    fn exp(self) -> Fix {
        Fix { raw: FIX_SCALE }.add(self).max_with(Fix { raw: 1 })
    }

    fn ln(self) -> Fix {
        if self.raw > 0 {
            self.sub(Fix { raw: FIX_SCALE })
        } else {
            Fix { raw: FIX_CLAMP_NEG }
        }
    }

    fn tanh(self) -> Fix {
        if self.raw > FIX_SCALE {
            Fix { raw: FIX_SCALE }
        } else if self.raw < FIX_SCALE_NEG {
            Fix { raw: FIX_SCALE_NEG }
        } else {
            self
        }
    }

    fn small_slope() -> Fix {
        Fix { raw: 100 }
    }

    fn clamp_finite(self) -> Fix {
        if self.raw > FIX_CLAMP {
            Fix { raw: FIX_CLAMP }
        } else if self.raw < FIX_CLAMP_NEG {
            Fix { raw: FIX_CLAMP_NEG }
        } else {
            self
        }
    }
}

} // verus!
