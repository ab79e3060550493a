//! The failures that end an invocation.

use vstd::prelude::*;

verus! {

/// A file that the invocation depends on could not be read or written.
#[derive(Clone, Copy, Debug, PartialEq, Eq, Structural)]
pub enum IoError {
    /// The prompt file could not be read as text.
    PromptFileUnreadable,
    /// The session file that was to be loaded does not exist.
    SessionMissing,
    /// The session file exists, but could not be read or decoded.
    SessionUnreadable,
    /// The session could not be written.
    SessionNotSaved,
}

} // verus!
