use vstd::prelude::*;

verus! {

/// Why an operation on the sounds did not go through.
#[derive(Clone, Copy, Debug, PartialEq, Eq, Structural)]
pub enum ErrorTypes {
    /// The uploaded file could not be turned into a sound.
    InvalidFile,
    /// The relational store refused the write.
    StoreError,
}

} // verus!
