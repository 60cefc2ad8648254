use vstd::prelude::*;

verus! {

/// An exact non-negative rational number.
///
/// Scale factors are kept as fractions instead of floating-point values, so
/// that comparisons and the cap at one are exact and reproducible.
#[derive(Clone, Copy, Debug, PartialEq, Eq, Structural)]
pub struct Ratio {
    pub num: u64,
    pub den: u64,
}

impl Ratio {
    /// A ratio is meaningful only with a positive denominator.
    pub open spec fn wf(self) -> bool {
        self.den > 0
    }

    /// `self <= other` as values, by cross multiplication.
    pub open spec fn spec_le(self, other: Ratio) -> bool {
        self.num * other.den <= other.num * self.den
    }

    /// `self < other` as values, by cross multiplication.
    pub open spec fn spec_lt(self, other: Ratio) -> bool {
        self.num * other.den < other.num * self.den
    }

    /// The value is at most one.
    pub open spec fn spec_at_most_one(self) -> bool {
        self.num <= self.den
    }

    pub fn le(self, other: Ratio) -> (r: bool)
        ensures
            r == self.spec_le(other),
    {
        widening_product(self.num, other.den) <= widening_product(other.num, self.den)
    }

    pub fn lt(self, other: Ratio) -> (r: bool)
        ensures
            r == self.spec_lt(other),
    {
        widening_product(self.num, other.den) < widening_product(other.num, self.den)
    }
}

/// The exact product of two 64-bit values, which always fits in 128 bits.
pub fn widening_product(a: u64, b: u64) -> (r: u128)
    ensures
        r == a as int * b as int,
{
    proof {
        assert(a as int * b as int <= u64::MAX as int * u64::MAX as int) by (nonlinear_arith)
            requires
                a as int <= u64::MAX as int,
                b as int <= u64::MAX as int,
                0 <= a as int,
                0 <= b as int,
        ;
    }
    (a as u128) * (b as u128)
}

} // verus!
