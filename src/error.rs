use vstd::prelude::*;

verus! {

/// Errors surfaced to the host.
///
/// Unknown tab ids are never an error: commands on a tab that does not
/// exist (or no longer exists) are silent no-ops.
#[derive(Clone, Debug, PartialEq, Eq)]
pub enum AppError {
    /// An I/O failure, with its message.
    Io(String),
    FileNotFound(String),
    InvalidPath(String),
    FileExists(String),
    /// A tab with this id is already live.
    AlreadyExists(String),
    /// The browser engine failed to carry out an operation on this tab.
    BackendError(String),
    /// The text is not an absolute URL.
    InvalidUrl(String),
}

} // verus!
