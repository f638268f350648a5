//! The error kinds that the toolkit reports to its callers.

use vstd::prelude::*;

verus! {

/// Why a call was refused. Dimension and topology errors are caller
/// mistakes and are reported synchronously, never coerced into a
/// truncation and never allowed to abort the process.
#[derive(Clone, Copy, Debug, PartialEq, Eq, Structural)]
pub enum Error {
    /// The requested topology has fewer than two layers, a zero-sized
    /// layer, or a layer too large for the machine.
    InvalidTopology,
    /// An input or target vector does not match the declared topology
    /// at the relevant layer.
    DimensionMismatch,
    /// A weight access past an allocated matrix.
    IndexOutOfBounds,
    /// A handle that was never created or was already destroyed.
    UseAfterDestroy,
}

impl Error {
    /// A short human-readable name for the error kind.
    pub fn describe(&self) -> (r: &'static str)
    {
        match self {
            Error::InvalidTopology => "invalid topology",
            Error::DimensionMismatch => "dimension mismatch",
            Error::IndexOutOfBounds => "index out of bounds",
            Error::UseAfterDestroy => "use after destroy",
        }
    }
}

} // verus!
