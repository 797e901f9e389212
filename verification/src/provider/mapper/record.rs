//! The Iggy-specific wire representation of an envelope.

use vstd::prelude::*;

verus! {

/// An owned Iggy header used by [`IggyRecord`].
///
/// The value is always a concrete byte string: Iggy's header format has no representation for a
/// null value.
#[derive(Clone, Debug, PartialEq, Eq)]
pub struct IggyHeader {
    /// Header name as projected on the Iggy message.
    pub name: String,

    /// Header value bytes.
    pub value: Vec<u8>,
}

/// The Iggy-specific wire representation of a serialized envelope.
#[derive(Clone, Debug, PartialEq, Eq)]
pub struct IggyRecord {
    /// Stable message identity projected as the SDK's `u128` message id.
    pub id: u128,

    /// Serialized message body.
    pub payload: Vec<u8>,

    /// Framework and application headers in deterministic order.
    pub headers: Vec<IggyHeader>,

    /// Ordering key bytes used as the Iggy messages-key partitioning input, when present.
    pub key: Option<Vec<u8>>,
}

/// An [`IggyHeader`] as mathematical values.
pub struct WireHeader {
    pub name: Seq<char>,
    pub value: Seq<u8>,
}

impl View for IggyHeader {
    type V = WireHeader;

    open spec fn view(&self) -> WireHeader {
        WireHeader { name: self.name@, value: self.value@ }
    }
}

/// An [`IggyRecord`] as mathematical values.
#[verifier::ext_equal]
pub struct WireRecord {
    pub id: u128,
    pub payload: Seq<u8>,
    pub headers: Seq<WireHeader>,
    pub key: Option<Seq<u8>>,
}

/// A list of headers as mathematical values.
pub open spec fn wire_headers(headers: Seq<IggyHeader>) -> Seq<WireHeader> {
    headers.map_values(|header: IggyHeader| header@)
}

/// Optional bytes as a mathematical value.
pub open spec fn optional_bytes(bytes: Option<Vec<u8>>) -> Option<Seq<u8>> {
    match bytes {
        Some(bytes) => Some(bytes@),
        None => None,
    }
}

impl View for IggyRecord {
    type V = WireRecord;

    open spec fn view(&self) -> WireRecord {
        WireRecord {
            id: self.id,
            payload: self.payload@,
            headers: wire_headers(self.headers@),
            key: optional_bytes(self.key),
        }
    }
}

} // verus!
