use vstd::prelude::*;

verus! {

/// An exact non-negative rational number, used as a gain multiplier.
///
/// A gain of `num / den` scales a raw oscillator sample; the driver that
/// owns the sample loop performs that multiplication. Keeping gains as
/// integer fractions lets every envelope value be stated exactly.
#[derive(Copy, Clone, Debug, PartialEq, Eq, Structural)]
pub struct Ratio {
    pub num: u64,
    pub den: u64,
}

impl Ratio {
    /// A ratio denotes a value only when its denominator is positive.
    pub open spec fn wf(self) -> bool {
        self.den > 0
    }

    /// The ratio equals `n / d` as a rational number (cross multiplication).
    pub open spec fn is_frac(self, n: int, d: int) -> bool {
        self.num * d == n * self.den
    }

    /// The ratio is at most one.
    pub open spec fn le_one(self) -> bool {
        self.num <= self.den
    }

    pub fn new(num: u64, den: u64) -> (r: Ratio)
        ensures
            r == (Ratio { num, den }),
    {
        Ratio { num, den }
    }

    /// Whether this ratio equals `n / d` as a rational number.
    pub fn eq_frac(&self, n: u64, d: u64) -> (b: bool)
        ensures
            b == self.is_frac(n as int, d as int),
    {
        proof {
            assert(self.num * d <= u64::MAX * u64::MAX) by (nonlinear_arith)
                requires
                    self.num <= u64::MAX,
                    d <= u64::MAX,
            ;
            assert(n * self.den <= u64::MAX * u64::MAX) by (nonlinear_arith)
                requires
                    n <= u64::MAX,
                    self.den <= u64::MAX,
            ;
        }
        (self.num as u128) * (d as u128) == (n as u128) * (self.den as u128)
    }
}

} // verus!
