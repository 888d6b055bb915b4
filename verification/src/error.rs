//! The single failure mode of the library.
//!
//! Abbreviation never fails except when the requested width makes the marker
//! itself unrepresentable; that configuration error is reported as
//! [`UtilsError::InvalidArgument`] carrying a human-readable message.

use vstd::prelude::*;

verus! {

/// Error raised when a caller asks for something the arguments cannot
/// satisfy, such as an abbreviation width with no room for any content
/// beside the marker.
#[derive(Debug)]
pub enum UtilsError {
    /// The arguments were structurally valid but infeasible; the payload is a
    /// human-readable description of the constraint that was violated.
    InvalidArgument(String),
}

impl UtilsError {
    /// The human-readable description carried by this error.
    pub fn message(&self) -> (r: &str)
        ensures
            self matches UtilsError::InvalidArgument(m) && r@ == m@,
    {
        match self {
            UtilsError::InvalidArgument(m) => m.as_str(),
        }
    }
}

/// Shorthand for a result whose error side is [`UtilsError`].
pub type UtilsResult<T> = Result<T, UtilsError>;

} // verus!
