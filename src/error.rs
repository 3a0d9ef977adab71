//! Errors that the library reports.
use vstd::prelude::*;

verus! {

/// What went wrong.
#[derive(Debug, Clone, Copy, PartialEq, Eq, Structural)]
pub enum Error {
    /// A buffer could not be read as text at all.
    Parse,
    /// An argument was unusable, such as an empty email to match on.
    InvalidArgument,
    /// The repository could not supply one of its mailmap sources.
    RepositoryAccess,
    /// A resolved identity cannot be written into a signature.
    InvalidSignature,
}

} // verus!
