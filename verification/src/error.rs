//! The library's error type.
use vstd::prelude::*;

verus! {

/// What went wrong, by subsystem, with a human-readable message.
#[derive(Debug, Clone)]
pub enum AppError {
    Config(String),
    Dict(String),
    Capture(String),
    Hotkey(String),
    Tray(String),
    Other(String),
}

impl AppError {
    /// The message the error carries.
    pub fn message(&self) -> (m: &String)
        ensures
            m@ == self.message_view(),
    {
        match self {
            AppError::Config(m) => m,
            AppError::Dict(m) => m,
            AppError::Capture(m) => m,
            AppError::Hotkey(m) => m,
            AppError::Tray(m) => m,
            AppError::Other(m) => m,
        }
    }

    /// The message as characters.
    pub open spec fn message_view(&self) -> Seq<char> {
        match self {
            AppError::Config(m) => m@,
            AppError::Dict(m) => m@,
            AppError::Capture(m) => m@,
            AppError::Hotkey(m) => m@,
            AppError::Tray(m) => m@,
            AppError::Other(m) => m@,
        }
    }
}

} // verus!
