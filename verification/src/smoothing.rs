use vstd::prelude::*;

verus! {

/// Degree of the local polynomial that a smoother fits.
#[derive(Clone, Copy, Debug, PartialEq, Eq, Structural)]
pub enum Degree {
    /// Degree 0: a locally weighted mean.
    Constant,
    /// Degree 1: a locally weighted line.
    Linear,
}

impl Degree {
    /// The degree as a number, 0 or 1.
    pub open spec fn order(self) -> int {
        match self {
            Degree::Constant => 0,
            Degree::Linear => 1,
        }
    }

    /// The degree with the given number, if there is one.
    pub open spec fn of(order: int) -> Option<Degree> {
        if order == 0 {
            Some(Degree::Constant)
        } else if order == 1 {
            Some(Degree::Linear)
        } else {
            None
        }
    }

    /// Reads a degree from its number; only 0 and 1 name one.
    pub fn from_order(order: i32) -> (r: Option<Degree>)
        ensures
            r == Degree::of(order as int),
    {
        if order == 0 {
            Some(Degree::Constant)
        } else if order == 1 {
            Some(Degree::Linear)
        } else {
            None
        }
    }

    /// The degree as a number.
    pub fn to_order(self) -> (r: i32)
        ensures
            r == self.order(),
    {
        match self {
            Degree::Constant => 0,
            Degree::Linear => 1,
        }
    }
}

/// How one smoothing stage runs: its window, its polynomial and its stride.
#[derive(Clone, Copy, Debug, PartialEq, Eq, Structural)]
pub struct SmoothingSpec {
    /// Number of neighbouring observations that a fit looks at.
    pub length: usize,
    /// Degree of the fitted polynomial.
    pub degree: Degree,
    /// Distance between positions that are fitted exactly; those between are interpolated.
    pub jump: usize,
}

impl SmoothingSpec {
    /// A usable stage looks at one observation or more and moves forward.
    pub open spec fn wf(self) -> bool {
        self.length >= 1 && self.jump >= 1
    }

    /// Tests whether the stage is usable.
    pub fn is_valid(&self) -> (r: bool)
        ensures
            r == self.wf(),
    {
        self.length >= 1 && self.jump >= 1
    }
}

} // verus!
