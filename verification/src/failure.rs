//! Retry classification shared by every module.

use vstd::prelude::*;

verus! {

/// Whether a failed operation is worth repeating.
#[derive(Clone, Copy, Debug, PartialEq, Eq, Structural, Hash)]
pub enum FailureKind {
    /// The same operation may succeed later.
    Transient,

    /// Repeating the operation is not expected to succeed.
    Permanent,

    /// A classification that this library does not know. It is never retried.
    Unknown,
}

/// The stable label of a classification.
pub open spec fn failure_text(kind: FailureKind) -> Seq<char> {
    match kind {
        FailureKind::Transient => "transient"@,
        FailureKind::Permanent => "permanent"@,
        FailureKind::Unknown => "unknown"@,
    }
}

impl FailureKind {
    /// Returns whether a failure of this kind may be retried.
    pub fn is_retryable(self) -> (retryable: bool)
        ensures
            retryable == (self is Transient),
    {
        matches!(self, FailureKind::Transient)
    }

    /// Returns the stable label used in telemetry.
    pub fn as_str(self) -> (text: &'static str)
        ensures
            text@ == failure_text(self),
    {
        match self {
            FailureKind::Transient => "transient",
            FailureKind::Permanent => "permanent",
            FailureKind::Unknown => "unknown",
        }
    }
}

} // verus!
