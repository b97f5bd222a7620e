//! Error taxonomy of the compilation pipeline.

use vstd::prelude::*;

verus! {

/// What went wrong. `Parse` is malformed SQL text; `Semantic` an unresolved
/// identifier, a type mismatch, or a non-deterministic / non-evaluable
/// expression where one is required; `BadDataValueType` a wrong count or
/// shape of values; `InvalidClusterKeys` a clustering-key constraint
/// violation; `Internal` an invariant violation; `Evaluation` a failure while
/// computing a constant.
#[derive(Clone, Copy, PartialEq, Eq, Structural, Debug)]
pub enum ErrorKind {
    Parse,
    Semantic,
    BadDataValueType,
    InvalidClusterKeys,
    Internal,
    Evaluation,
}

/// An error returned to the immediate caller; nothing in this crate retries
/// or silently drops one.
#[derive(Debug)]
pub struct ErrorCode {
    pub kind: ErrorKind,
    pub message: String,
}

impl ErrorCode {
    pub fn new(kind: ErrorKind, message: String) -> (r: ErrorCode)
        ensures
            r.kind == kind,
            r.message@ == message@,
    {
        ErrorCode { kind, message }
    }

    pub fn kind(&self) -> (r: ErrorKind)
        ensures
            r == self.kind,
    {
        self.kind
    }

    /// The human-readable description of the failure.
    pub fn message(&self) -> (r: String)
        ensures
            r@ == self.message@,
    {
        self.message.clone()
    }
}

} // verus!
