//! Error values surfaced by the build core.

use vstd::prelude::*;

verus! {

/// An error surfaced by the build core.
///
/// `Internal` errors are invariant violations by the surrounding driver or
/// unparseable output of an external tool; `Human` errors are meant for the
/// user.
#[derive(Debug)]
pub enum CargoError {
    Internal { desc: String },
    Human { desc: String },
}

/// Result type used throughout the build core.
pub type CargoResult<T> = Result<T, CargoError>;

/// Wraps a description as an internal error.
pub fn internal(desc: String) -> (r: CargoError)
    ensures
        r == (CargoError::Internal { desc }),
{
    CargoError::Internal { desc }
}

/// Wraps a description as a user-facing error.
pub fn human(desc: String) -> (r: CargoError)
    ensures
        r == (CargoError::Human { desc }),
{
    CargoError::Human { desc }
}

impl CargoError {
    /// The error's description.
    pub fn description(&self) -> (r: &String)
        ensures
            *self matches CargoError::Internal { desc } ==> r == desc,
            *self matches CargoError::Human { desc } ==> r == desc,
    {
        match self {
            CargoError::Internal { desc } => desc,
            CargoError::Human { desc } => desc,
        }
    }
}

} // verus!
