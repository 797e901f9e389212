//! Shared-envelope projection into Iggy messages.

pub mod decode;
pub mod decode_laws;
pub mod encode;
pub mod encode_laws;
pub mod framework;
pub mod normalize;
pub mod order;
pub mod record;
pub mod round_trip;

use crate::envelope::{EnvelopeModel, SerializedEnvelope};
use crate::headers::HeaderLimits;
use crate::provider::error::IggyMappingError;
use decode::decoded;
use encode::encoded;
use normalize::HeaderVerdict;
use record::{IggyRecord, WireRecord};
use vstd::prelude::*;

verus! {

/// Maps a serialized envelope to Iggy headers and back.
#[derive(Clone, Copy, Debug)]
pub struct IggyEnvelopeMapper;

impl IggyEnvelopeMapper {
    /// Projects an envelope into an Iggy record.
    pub fn encode(&self, envelope: &SerializedEnvelope) -> (record: Result<
        IggyRecord,
        IggyMappingError,
    >)
        ensures
            match record {
                Ok(record) => encoded(envelope@) == Ok::<_, IggyMappingError>(record@),
                Err(error) => encoded(envelope@) == Err::<WireRecord, _>(error),
            },
    {
        encode::encode(envelope)
    }

    /// Reads the envelope of an Iggy record, given what the shared envelope contract says of each
    /// of its headers.
    pub fn decode(
        &self,
        wire: IggyRecord,
        verdicts: &Vec<HeaderVerdict>,
        limits: HeaderLimits,
    ) -> (envelope: Result<SerializedEnvelope, IggyMappingError>)
        requires
            verdicts@.len() == wire.headers@.len(),
        ensures
            match envelope {
                Ok(envelope) => decoded(wire@, verdicts@, limits) == Ok::<_, IggyMappingError>(
                    envelope@,
                ),
                Err(error) => decoded(wire@, verdicts@, limits) == Err::<EnvelopeModel, _>(error),
            },
    {
        decode::decode(wire, verdicts, limits)
    }
}

} // verus!
