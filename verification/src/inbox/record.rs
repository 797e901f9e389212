//! Inbox identities and the record presented to a provider.

use crate::envelope::{MessageId, Metadata, SerializedEnvelope};
use crate::ids::{parsed_uuid, render_uuid, uuid_text, uuid_value};
use crate::inbox::error::InboxScopeError;
use crate::text::bytes_of;
use std::str::FromStr;
use uuid::Uuid;
use vstd::prelude::*;

verus! {

/// Maximum accepted UTF-8 byte length of an inbox scope.
pub const MAX_INBOX_SCOPE_BYTES: usize = 128;

/// A validated consumer namespace used with a message identity for deduplication.
#[derive(Debug, PartialEq, Eq, PartialOrd, Ord, Hash)]
pub struct InboxScope {
    text: String,
}

/// An ASCII control byte or DEL.
pub open spec fn is_control(byte: u8) -> bool {
    byte < 0x20 || byte == 0x7f
}

/// Bytes of which one is a control byte.
pub open spec fn has_control(bytes: Seq<u8>) -> bool {
    exists|i: int| 0 <= i < bytes.len() && is_control(#[trigger] bytes[i])
}

/// What is wrong with a scope, if anything is.
pub open spec fn scope_error(text: Seq<char>) -> Option<InboxScopeError> {
    if text.len() == 0 {
        Some(InboxScopeError::Empty)
    } else if bytes_of(text).len() > MAX_INBOX_SCOPE_BYTES {
        Some(InboxScopeError::TooLong)
    } else if has_control(bytes_of(text)) {
        Some(InboxScopeError::InvalidCharacter)
    } else {
        None
    }
}

impl View for InboxScope {
    type V = Seq<char>;

    closed spec fn view(&self) -> Seq<char> {
        self.text@
    }
}

impl Clone for InboxScope {
    fn clone(&self) -> (copy: Self)
        ensures
            copy@ == self@,
    {
        proof {
            use_type_invariant(self);
        }
        InboxScope { text: self.text.clone() }
    }
}

impl InboxScope {
    #[verifier::type_invariant]
    spec fn wf(&self) -> bool {
        scope_error(self.text@) is None
    }

    /// Validates and owns an application-selected scope.
    ///
    /// Accepts non-empty UTF-8 text of at most 128 encoded bytes. Rejects empty or excessive text,
    /// ASCII control bytes, and DEL so the value is safe for the persisted scope boundary.
    pub fn new(value: &str) -> (scope: Result<Self, InboxScopeError>)
        ensures
            match scope {
                Ok(scope) => scope@ == value@ && scope_error(value@) is None,
                Err(error) => scope_error(value@) == Some(error),
            },
    {
        if value.is_empty() {
            return Err(InboxScopeError::Empty);
        }

        let bytes = value.as_bytes();

        if bytes.len() > MAX_INBOX_SCOPE_BYTES {
            return Err(InboxScopeError::TooLong);
        }

        let mut i: usize = 0;

        while i < bytes.len()
            invariant
                i <= bytes@.len(),
                bytes@ == bytes_of(value@),
                value@.len() > 0,
                bytes@.len() <= MAX_INBOX_SCOPE_BYTES,
                forall|k: int| 0 <= k < i ==> !is_control(#[trigger] bytes@[k]),
            decreases bytes@.len() - i,
        {
            if bytes[i] < 0x20 || bytes[i] == 0x7f {
                assert(is_control(bytes@[i as int]));
                return Err(InboxScopeError::InvalidCharacter);
            }
            i = i + 1;
        }

        Ok(InboxScope { text: value.to_owned() })
    }

    /// Borrows the validated scope text.
    pub fn as_str(&self) -> (text: &str)
        ensures
            text@ == self@,
            scope_error(text@) is None,
    {
        proof {
            use_type_invariant(self);
        }
        self.text.as_str()
    }

    /// Returns the validated scope text.
    pub fn into_string(self) -> (text: String)
        ensures
            text@ == self@,
            scope_error(text@) is None,
    {
        proof {
            use_type_invariant(&self);
        }
        self.text
    }
}

impl AsRef<str> for InboxScope {
    fn as_ref(&self) -> (text: &str)
        ensures
            text@ == self@,
    {
        self.as_str()
    }
}

impl FromStr for InboxScope {
    type Err = InboxScopeError;

    fn from_str(value: &str) -> (scope: Result<Self, InboxScopeError>)
        ensures
            match scope {
                Ok(scope) => scope@ == value@ && scope_error(value@) is None,
                Err(error) => scope_error(value@) == Some(error),
            },
    {
        InboxScope::new(value)
    }
}

/// A persistence-provider-minted durable inbox receipt identity.
#[derive(Clone, Copy, Debug, PartialEq, Eq, PartialOrd, Ord, Hash)]
pub struct InboxId {
    value: Uuid,
}

impl View for InboxId {
    type V = u128;

    closed spec fn view(&self) -> u128 {
        uuid_value(self.value)
    }
}

impl InboxId {
    /// Reconstructs an identity minted by the persistence provider.
    pub fn from_uuid(value: Uuid) -> (id: Self)
        ensures
            id@ == uuid_value(value),
    {
        InboxId { value }
    }

    /// Borrows the underlying UUID.
    pub fn as_uuid(&self) -> (value: &Uuid)
        ensures
            uuid_value(*value) == self@,
    {
        &self.value
    }

    /// Returns the underlying UUID.
    pub fn into_uuid(self) -> (value: Uuid)
        ensures
            uuid_value(value) == self@,
    {
        self.value
    }

    /// Writes the identity as a hyphenated UUID.
    pub fn to_string(&self) -> (text: String)
        ensures
            text@ == uuid_text(self@),
    {
        render_uuid(self.value.as_u128())
    }
}

impl FromStr for InboxId {
    type Err = uuid::Error;

    fn from_str(value: &str) -> (id: Result<Self, uuid::Error>)
        ensures
            match id {
                Ok(id) => parsed_uuid(value@) == Some(id@),
                Err(_) => parsed_uuid(value@) is None,
            },
    {
        match Uuid::parse_str(value) {
            Ok(value) => Ok(InboxId { value }),
            Err(error) => Err(error),
        }
    }
}

/// Identity and diagnostics persisted when a delivery first reaches the inbox.
#[derive(Clone, Debug, PartialEq, Eq)]
pub struct InboxRecord {
    /// Deliberately selected consumer namespace for this deduplication domain.
    pub scope: InboxScope,

    /// Stable logical identity of the delivered message.
    pub message_id: MessageId,

    /// Stable message contract identity.
    pub message_type: String,

    /// Stable message contract version.
    pub version: u32,

    /// Additive metadata retained for diagnostics and trace continuity.
    pub metadata: Metadata,
}

impl InboxRecord {
    /// The record of a delivered message in a consumer's scope.
    pub fn of(scope: &InboxScope, envelope: &SerializedEnvelope) -> (record: Self)
        ensures
            record.scope@ == scope@,
            record.message_id == envelope.message_id,
            record.message_type@ == envelope.message_type@,
            record.version == envelope.message_version,
            record.metadata@ == envelope.metadata@,
    {
        InboxRecord {
            scope: scope.clone(),
            message_id: envelope.message_id,
            message_type: envelope.message_type.clone(),
            version: envelope.message_version,
            metadata: envelope.metadata.clone(),
        }
    }
}

/// A scope is accepted exactly if it is not empty, is at most 128 bytes long, and has neither an
/// ASCII control byte nor DEL in it. A refusal names what is wrong.
pub proof fn law_scopes_are_refused_for_cause(text: Seq<char>)
    ensures
        match scope_error(text) {
            None => {
                &&& text.len() > 0
                &&& bytes_of(text).len() <= 128
                &&& forall|i: int|
                    0 <= i < bytes_of(text).len() ==> 0x20 <= #[trigger] bytes_of(text)[i]
                        && bytes_of(text)[i] != 0x7f
            },
            Some(InboxScopeError::Empty) => text.len() == 0,
            Some(InboxScopeError::TooLong) => bytes_of(text).len() > 128,
            Some(InboxScopeError::InvalidCharacter) => {
                &&& bytes_of(text).len() <= 128
                &&& exists|i: int|
                    0 <= i < bytes_of(text).len() && (#[trigger] bytes_of(text)[i] < 0x20
                        || bytes_of(text)[i] == 0x7f)
            },
        },
{
    if scope_error(text) is None {
        assert forall|i: int| 0 <= i < bytes_of(text).len() implies 0x20 <= #[trigger] bytes_of(
            text,
        )[i] && bytes_of(text)[i] != 0x7f by {
            assert(!is_control(bytes_of(text)[i]));
        }
    } else if scope_error(text) == Some(InboxScopeError::InvalidCharacter) {
        let i = choose|i: int|
            0 <= i < bytes_of(text).len() && is_control(#[trigger] bytes_of(text)[i]);
        assert(bytes_of(text)[i] < 0x20 || bytes_of(text)[i] == 0x7f);
    }
}

} // verus!
