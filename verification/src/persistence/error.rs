//! Failures of the challenge store.
use vstd::prelude::*;

verus! {

#[derive(Debug, PartialEq, Eq, Structural, Clone, Copy)]
pub enum Error {
    /// The key is not present: expired, deleted, or never written.
    NotFound,
    /// No store location is configured.
    NoLocation,
    /// The store could not be reached.
    Connection,
    /// The stored payload could not be read back as a record.
    Json,
}

} // verus!
