//! The error taxonomy shared by the library's public operations.

use vstd::prelude::*;

verus! {

/// Errors surfaced by the relay's core operations.
///
/// `Unauthorized` terminates a credential check or an upgrade attempt;
/// `Error` carries a human-readable description of any other failure.
#[derive(Clone, Debug, PartialEq, Eq)]
pub enum AppError {
    Error(String),
    Unauthorized,
}

impl AppError {
    /// A textual description of the error, in place of `Display`.
    pub fn describe(&self) -> (r: String)
        ensures
            self matches AppError::Error(m) ==> r@ == "error: "@ + m@,
            self is Unauthorized ==> r@ == "Unauthorized"@,
    {
        match self {
            AppError::Error(m) => {
                let prefix = String::from_str("error: ");
                prefix.concat(m.as_str())
            },
            AppError::Unauthorized => String::from_str("Unauthorized"),
        }
    }

    /// Whether the error denies access rather than reporting a fault.
    pub fn is_unauthorized(&self) -> (r: bool)
        ensures
            r == (self is Unauthorized),
    {
        match self {
            AppError::Unauthorized => true,
            AppError::Error(_) => false,
        }
    }
}

} // verus!
