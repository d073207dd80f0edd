use vstd::prelude::*;

verus! {

/// An exact, unreduced fraction `num / den`.
///
/// A zero denominator stands for a result that is not a number: it is what
/// a ratio whose denominator counts the positions of an empty input gives.
#[derive(Clone, Copy, Debug, PartialEq, Eq, Structural)]
pub struct Ratio {
    pub num: u128,
    pub den: u128,
}

/// A fraction is viewed as its numerator and denominator, as integers.
impl View for Ratio {
    type V = (int, int);

    open spec fn view(&self) -> (int, int) {
        (self.num as int, self.den as int)
    }
}

impl Ratio {
    /// True when the fraction names a number.
    pub open spec fn spec_is_defined(self) -> bool {
        self.den != 0
    }

    /// The value zero, written as `0 / 1`.
    pub fn zero() -> (r: Ratio)
        ensures
            r@ == (0int, 1int),
    {
        Ratio { num: 0, den: 1 }
    }

    pub fn new(num: u128, den: u128) -> (r: Ratio)
        ensures
            r.num == num,
            r.den == den,
    {
        Ratio { num, den }
    }

    /// Whether the fraction names a number (its denominator is not zero).
    pub fn is_defined(&self) -> (r: bool)
        ensures
            r == self.spec_is_defined(),
    {
        self.den != 0
    }
}

} // verus!
