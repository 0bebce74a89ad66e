//! The library's error values.

use vstd::prelude::*;

verus! {

/// An error reported to the reader interface as a stable code.
#[derive(Debug, PartialEq, Eq)]
pub enum AppError {
    /// A request or data error.
    Other(String),
    /// An error in a reply from an AI provider.
    Ai(String),
}

impl AppError {
    /// The code or message carried by the error.
    pub open spec fn message_view(&self) -> Seq<char> {
        match self {
            AppError::Other(m) => m@,
            AppError::Ai(m) => m@,
        }
    }

    /// The text shown for the error: its code or message.
    pub fn to_string(&self) -> (r: String)
        ensures
            r@ == self.message_view(),
    {
        match self {
            AppError::Other(m) => m.clone(),
            AppError::Ai(m) => m.clone(),
        }
    }
}

/// Builds `AppError::Other` from a code.
pub fn other(code: &str) -> (e: AppError)
    ensures
        e is Other,
        e.message_view() == code@,
{
    AppError::Other(code.to_string())
}

/// Builds `AppError::Ai` from a code.
pub fn ai(code: &str) -> (e: AppError)
    ensures
        e is Ai,
        e.message_view() == code@,
{
    AppError::Ai(code.to_string())
}

} // verus!
