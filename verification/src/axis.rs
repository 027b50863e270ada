//! The components of a vector, and the numbers by which they are addressed.

use vstd::prelude::*;

verus! {

/// One of the three components of a vector.
#[derive(Clone, Copy, Debug, PartialEq, Eq, Structural)]
pub enum Axis {
    X,
    Y,
    Z,
}

/// The failure of addressing a component by a number other than 0, 1 or 2.
#[derive(Clone, Copy, Debug, PartialEq, Eq, Structural)]
pub struct OutOfRange {
    /// The number that was asked for.
    pub index: usize,
}

impl Axis {
    /// The number of the component: 0 for `X`, 1 for `Y`, 2 for `Z`.
    pub open spec fn number(self) -> int {
        match self {
            Axis::X => 0,
            Axis::Y => 1,
            Axis::Z => 2,
        }
    }

    /// The component with the number `index`. Any number above 2 is
    /// handed back as the failure.
    pub fn from_index(index: usize) -> (found: Result<Axis, OutOfRange>)
        ensures
            found.is_ok() <==> index < 3,
            found.is_ok() ==> found.unwrap().number() == index,
            found.is_err() ==> found.unwrap_err() == (OutOfRange { index }),
    {
        match index {
            0 => Ok(Axis::X),
            1 => Ok(Axis::Y),
            2 => Ok(Axis::Z),
            _ => Err(OutOfRange { index }),
        }
    }
}

} // verus!
