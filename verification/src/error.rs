//! The failures that the repository reports to its caller.

use crate::identifier::Identifier;
use vstd::prelude::*;

verus! {

/// A failure of one repository operation. None of them is fatal: the caller
/// gets the value back and decides what to do.
#[derive(Debug, PartialEq, Eq)]
pub enum RepositoryError {
    /// The text is not an identifier. Carries the offending text.
    InvalidIdentifier(String),
    /// A dog was requested for an owner whose identifier is not one. Carries
    /// the offending text.
    InvalidOwnerReference(String),
    /// A record with this identifier is already stored in the collection.
    DuplicateKey(Identifier),
}

} // verus!
