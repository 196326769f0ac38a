//! Errors of the registries, the counters and the reference parsers.

use vstd::prelude::*;

verus! {

/// Why an operation on the registries failed. Every failing operation
/// leaves the stores as they were, except where its contract says otherwise.
#[derive(Debug, Clone, PartialEq, Eq)]
pub enum StoreError {
    /// A client reference (the text given) resolved to no client.
    ClientNotFound(String),
    /// A project reference (the text given) resolved to no project.
    ProjectNotFound(String),
    /// A project reference that is not of the form `P-XXX-YY`.
    InvalidReferenceFormat(String),
    /// The client still owns this many projects and cannot be deleted.
    HasDependentProjects(usize),
    /// A counter name outside the known set.
    InvalidCounterName(String),
    /// The named counter, or the id sequence, has reached the largest value
    /// it can hold.
    Exhausted(String),
    /// The system clock could not be read as a time to stamp a record with.
    ClockUnavailable,
    /// A loaded collection holds two records with this id.
    DuplicateId(i64),
}

} // verus!
