//! The error kinds a transition can fail with.

use vstd::prelude::*;

verus! {

/// Why a transition was rejected. On any of these the record buffers are
/// left exactly as they were.
#[derive(Debug, Clone, Copy, PartialEq, Eq, Structural)]
pub enum Error {
    /// The instruction is not exactly nine bytes long, or its action tag is
    /// not one of the three known actions.
    InvalidInstruction,
    /// The battlefield buffer's recorded controller is not the invoking
    /// program identity.
    WrongOwner,
    /// A record buffer is shorter than its record's fixed width.
    MalformedRecord,
}

} // verus!
