use vstd::prelude::*;

verus! {

/// The ways an operation of the tracker can fail.
#[derive(Clone, Copy, Debug, PartialEq, Eq, Structural)]
pub enum TaskError {
    /// A command or one of its arguments is missing or malformed.
    InvalidInput,
    /// No task carries the identifier that was asked for.
    NotFound,
    /// The stored tasks do not form a valid collection.
    CorruptState,
    /// The stored tasks could not be read or written.
    IoFailure,
}

} // verus!
