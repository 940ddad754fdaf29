//! The basic measurement units of the desk.

use vstd::prelude::*;

verus! {

/// A height in centimeters.
///
/// Heights fit in a byte: the desk's physical range is well below 255 cm,
/// and interpolation saturates into this range rather than overflowing.
#[derive(Clone, Copy, Debug, PartialEq, Eq, Structural)]
pub struct Centimeter(pub u8);

impl Centimeter {
    /// The raw centimeter count.
    pub fn into_inner(self) -> (r: u8)
        ensures
            r == self.0,
    {
        self.0
    }
}

} // verus!
