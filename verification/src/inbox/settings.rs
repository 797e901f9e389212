//! Inbox failure-recording settings.

use crate::inbox::error::InboxSettingsError;
use crate::nonzero::NonZeroU32;
use vstd::prelude::*;

verus! {

/// Largest attempt limit that the supported providers can represent.
pub const MAX_ATTEMPTS_LIMIT: u32 = 2_147_483_647;

/// Portable bound on recorded handler failures before a transient failure becomes terminal.
#[derive(Clone, Copy, Debug, PartialEq, Eq, Structural)]
pub struct InboxSettings {
    max_attempts: NonZeroU32,
}

impl View for InboxSettings {
    type V = u32;

    closed spec fn view(&self) -> u32 {
        self.max_attempts@
    }
}

impl InboxSettings {
    #[verifier::type_invariant]
    spec fn wf(self) -> bool {
        self.max_attempts@ <= MAX_ATTEMPTS_LIMIT
    }

    /// Validates an attempt limit representable by the supported provider contract.
    pub fn new(max_attempts: NonZeroU32) -> (settings: Result<Self, InboxSettingsError>)
        ensures
            settings is Ok <==> max_attempts@ <= MAX_ATTEMPTS_LIMIT,
            settings matches Ok(settings) ==> settings@ == max_attempts@,
            settings matches Err(error) ==> error
                == InboxSettingsError::MaxAttemptsNotRepresentable,
    {
        if max_attempts.get() > MAX_ATTEMPTS_LIMIT {
            return Err(InboxSettingsError::MaxAttemptsNotRepresentable);
        }

        Ok(InboxSettings { max_attempts })
    }

    /// Returns the validated maximum recorded failures allowed for one receipt.
    pub fn max_attempts(&self) -> (max_attempts: NonZeroU32)
        ensures
            max_attempts@ == self@,
            max_attempts@ <= MAX_ATTEMPTS_LIMIT,
    {
        proof {
            use_type_invariant(self);
        }
        self.max_attempts
    }
}

impl Default for InboxSettings {
    fn default() -> (settings: Self)
        ensures
            settings@ == 10,
    {
        InboxSettings { max_attempts: NonZeroU32::new(10).unwrap() }
    }
}

} // verus!
