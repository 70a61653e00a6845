use vstd::prelude::*;

use crate::text::append_str;

verus! {

/// Errors that can end a search-and-install run.
#[derive(Debug)]
pub enum FiError {
    /// The package manager reported a failed installation.
    InstallationFailed(String),
    /// No package manager carries the name recorded on the chosen package.
    BackendNotFound(String),
    /// The terminal interface failed.
    TuiError(String),
    /// The run could not start with what it was given.
    InvalidArguments(String),
}

/// The message that reports `e` to the user.
pub open spec fn error_text(e: FiError) -> Seq<char> {
    match e {
        FiError::InstallationFailed(m) => "Installation failed: "@ + m@,
        FiError::BackendNotFound(b) => "Backend not found: "@ + b@,
        FiError::TuiError(m) => "TUI error: "@ + m@,
        FiError::InvalidArguments(m) => "Invalid arguments: "@ + m@,
    }
}

impl FiError {
    /// The message that reports this error to the user.
    pub fn message(&self) -> (r: String)
        ensures
            r@ == error_text(*self),
    {
        let (head, detail) = match self {
            FiError::InstallationFailed(m) => ("Installation failed: ", m),
            FiError::BackendNotFound(b) => ("Backend not found: ", b),
            FiError::TuiError(m) => ("TUI error: ", m),
            FiError::InvalidArguments(m) => ("Invalid arguments: ", m),
        };
        let mut s = head.to_string();
        append_str(&mut s, detail.as_str());
        s
    }
}

} // verus!
