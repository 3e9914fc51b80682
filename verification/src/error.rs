//! Why an operation on images can fail.

use vstd::prelude::*;

verus! {

/// The reasons for which an operation refuses its input.
#[derive(Clone, Copy, Debug, PartialEq, Eq, Structural)]
pub enum StegoError {
    /// An image without pixels was given where pixels are needed: there is
    /// nothing to resample a non-empty image from.
    InvalidImage,
    /// Two images that must have the same width and height do not.
    InvalidInput,
    /// An image of the size asked for cannot be held in memory on this
    /// machine.
    TooLarge,
}

} // verus!
