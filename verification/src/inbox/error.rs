//! Inbox validation errors.

use crate::failure::FailureKind;
use vstd::prelude::*;

verus! {

/// Invalid [`crate::inbox::record::InboxScope`] input.
#[derive(Clone, Copy, Debug, PartialEq, Eq, Structural)]
#[non_exhaustive]
pub enum InboxScopeError {
    /// The scope was empty.
    Empty,

    /// The scope exceeded its bounded UTF-8 representation.
    TooLong,

    /// The scope contained an ASCII control character or DEL.
    InvalidCharacter,
}

/// The rendering of a scope error.
pub open spec fn scope_error_text(error: InboxScopeError) -> Seq<char> {
    match error {
        InboxScopeError::Empty => "inbox scope must not be empty"@,
        InboxScopeError::TooLong => "inbox scope exceeds the maximum byte length"@,
        InboxScopeError::InvalidCharacter => "inbox scope contains a forbidden control character"@,
    }
}

impl InboxScopeError {
    /// An invalid scope stays invalid: every scope error is permanent.
    pub fn classify(&self) -> (failure: FailureKind)
        ensures
            failure == FailureKind::Permanent,
    {
        FailureKind::Permanent
    }

    /// Renders the error without the scope.
    pub fn to_string(&self) -> (text: String)
        ensures
            text@ == scope_error_text(*self),
    {
        match self {
            InboxScopeError::Empty => "inbox scope must not be empty".to_owned(),
            InboxScopeError::TooLong => "inbox scope exceeds the maximum byte length".to_owned(),
            InboxScopeError::InvalidCharacter => {
                "inbox scope contains a forbidden control character".to_owned()
            },
        }
    }
}

/// Invalid [`crate::inbox::settings::InboxSettings`] configuration.
#[derive(Clone, Copy, Debug, PartialEq, Eq, Structural)]
#[non_exhaustive]
pub enum InboxSettingsError {
    /// The provider's signed database attempt representation cannot hold the configured limit.
    MaxAttemptsNotRepresentable,
}

impl InboxSettingsError {
    /// An unrepresentable limit stays so: the error is permanent.
    pub fn classify(&self) -> (failure: FailureKind)
        ensures
            failure == FailureKind::Permanent,
    {
        FailureKind::Permanent
    }

    /// Renders the error.
    pub fn to_string(&self) -> (text: String)
        ensures
            text@ == "inbox max attempts exceeds the provider-supported limit"@,
    {
        "inbox max attempts exceeds the provider-supported limit".to_owned()
    }
}

/// No two scope errors render alike.
pub proof fn law_scope_errors_render_apart(left: InboxScopeError, right: InboxScopeError)
    ensures
        scope_error_text(left) == scope_error_text(right) <==> left == right,
{
    reveal_strlit("inbox scope must not be empty");
    reveal_strlit("inbox scope exceeds the maximum byte length");
    reveal_strlit("inbox scope contains a forbidden control character");

    let l = scope_error_text(left);
    let r = scope_error_text(right);
    assert(left != right ==> l.len() != r.len());
}

} // verus!
