//! The identities under which the wire and its payloads are known.
use vstd::prelude::*;

use crate::wire::ArrowWire;

verus! {

/// Literal form of the provisional local/experimental selected-wire identity.
pub const ARROW_WIRE_LITERAL_ID: &'static str =
    "org.eclipse.uprotocol.wire.arrow-ipc-stream.experimental";

/// Compact form of the selected-wire identity, which is not globally registered.
pub const ARROW_WIRE_COMPACT_ID: u16 = 0xA201;

/// Literal form of the provisional local/experimental payload-family identity.
pub const ARROW_PAYLOAD_FAMILY_LITERAL_ID: &'static str =
    "org.eclipse.uprotocol.payload.arrow-ipc-stream.experimental";

/// Compact form of the payload-family identity, which is not globally registered.
pub const ARROW_PAYLOAD_FAMILY_COMPACT_ID: u16 = 0xA202;

/// Payload encoding identifier carried in frame metadata.
pub const ARROW_ENCODING_ID: &'static str = "up.arrow-ipc-stream";

/// MIME media type for an Arrow IPC stream.
pub const ARROW_CONTENT_TYPE: &'static str = "application/vnd.apache.arrow.stream";

/// An identity on the wire, in a literal and in a compact form.
#[derive(Clone, Copy, Debug, PartialEq, Eq)]
pub struct WireIdentity {
    /// The literal form.
    pub literal_id: &'static str,
    /// The compact form.
    pub compact_id: u16,
}

impl WireIdentity {
    /// The literal form.
    pub fn literal_id(&self) -> (id: &'static str)
        ensures
            id == self.literal_id,
    {
        self.literal_id
    }

    /// The compact form.
    pub fn compact_id(&self) -> (id: u16)
        ensures
            id == self.compact_id,
    {
        self.compact_id
    }

    /// Whether the compact form is of the local/experimental range.
    pub open spec fn experimental(self) -> bool {
        0x8000 <= self.compact_id <= 0xFFFE
    }
}

/// How a payload is encoded, as frame metadata says it.
#[derive(Clone, Copy, Debug, PartialEq, Eq)]
pub struct PayloadEncoding {
    /// The encoding identifier.
    pub encoding_id: &'static str,
    /// The media type.
    pub content_type: &'static str,
}

impl ArrowWire {
    /// The selected-wire identity.
    pub fn wire_id() -> (identity: WireIdentity)
        ensures
            identity.literal_id@ == ARROW_WIRE_LITERAL_ID@,
            identity.compact_id == ARROW_WIRE_COMPACT_ID,
            identity.experimental(),
            identity.compact_id != ARROW_PAYLOAD_FAMILY_COMPACT_ID,
    {
        WireIdentity { literal_id: ARROW_WIRE_LITERAL_ID, compact_id: ARROW_WIRE_COMPACT_ID }
    }

    /// The payload-family identity.
    pub fn payload_family_id() -> (identity: WireIdentity)
        ensures
            identity.literal_id@ == ARROW_PAYLOAD_FAMILY_LITERAL_ID@,
            identity.compact_id == ARROW_PAYLOAD_FAMILY_COMPACT_ID,
            identity.experimental(),
            identity.compact_id != ARROW_WIRE_COMPACT_ID,
    {
        WireIdentity {
            literal_id: ARROW_PAYLOAD_FAMILY_LITERAL_ID,
            compact_id: ARROW_PAYLOAD_FAMILY_COMPACT_ID,
        }
    }

    /// The name of the payload format.
    pub fn name() -> (name: &'static str)
        ensures
            name@ == "arrow-ipc-stream"@,
    {
        "arrow-ipc-stream"
    }

    /// The payload encoding.
    pub fn encoding() -> (encoding: PayloadEncoding)
        ensures
            encoding.encoding_id@ == ARROW_ENCODING_ID@,
            encoding.content_type@ == ARROW_CONTENT_TYPE@,
    {
        PayloadEncoding { encoding_id: ARROW_ENCODING_ID, content_type: ARROW_CONTENT_TYPE }
    }
}

} // verus!
