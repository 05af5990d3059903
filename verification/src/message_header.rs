//! The fixed part of every message, and its place on the wire.

use crate::agent_id::AgentId;
use crate::error::DecodeError;
use crate::request_id::RequestId;
use crate::wire::{get_u32_le, get_u64_le, put_u32_le, put_u64_le};
use crate::wire::{lemma_u32_le_round_trip, lemma_u32_le_unique};
use crate::wire::{lemma_u64_le_round_trip, lemma_u64_le_unique};
use crate::wire::{u32_from_le, u32_le, u64_from_le, u64_le};
use vstd::prelude::*;

verus! {

/// Who sent a message, whom it is for, and the sender's correlation token.
///
/// On the wire a header is 16 bytes, every integer little-endian:
/// the source at offset 0 (4 bytes), the destination at offset 4 (4 bytes),
/// the request token at offset 8 (8 bytes).
#[derive(Clone, Copy, Debug, PartialEq, Eq, Structural)]
pub struct MessageHeader {
    pub src_agent_id: AgentId,
    pub dst_agent_id: AgentId,
    pub request_id: RequestId,
}

impl MessageHeader {
    /// The number of bytes of a header on the wire.
    pub const SIZE: usize = 16;

    /// The 16 bytes of this header.
    pub open spec fn spec_encode(self) -> Seq<u8> {
        u32_le(self.src_agent_id.0) + u32_le(self.dst_agent_id.0) + u64_le(self.request_id.0)
    }

    /// The header that the first 16 bytes of `bytes` carry.
    pub open spec fn spec_decode(bytes: Seq<u8>) -> MessageHeader
        recommends
            bytes.len() >= 16,
    {
        MessageHeader {
            src_agent_id: AgentId(u32_from_le(bytes.subrange(0, 4))),
            dst_agent_id: AgentId(u32_from_le(bytes.subrange(4, 8))),
            request_id: RequestId(u64_from_le(bytes.subrange(8, 16))),
        }
    }

    /// A header is always 16 bytes, and whatever follows them, reading them
    /// back gives the header again.
    pub proof fn lemma_decode_encode(self, rest: Seq<u8>)
        ensures
            self.spec_encode().len() == 16,
            Self::spec_decode(self.spec_encode() + rest) == self,
    {
        let bytes = self.spec_encode() + rest;
        lemma_u32_le_round_trip(self.src_agent_id.0);
        lemma_u32_le_round_trip(self.dst_agent_id.0);
        lemma_u64_le_round_trip(self.request_id.0);
        assert(bytes.subrange(0, 4) =~= u32_le(self.src_agent_id.0));
        assert(bytes.subrange(4, 8) =~= u32_le(self.dst_agent_id.0));
        assert(bytes.subrange(8, 16) =~= u64_le(self.request_id.0));
    }

    /// Writing a header that was read gives the 16 bytes it was read from.
    pub proof fn lemma_encode_decode(bytes: Seq<u8>)
        requires
            bytes.len() >= 16,
        ensures
            Self::spec_decode(bytes).spec_encode() == bytes.subrange(0, 16),
    {
        lemma_u32_le_unique(bytes.subrange(0, 4));
        lemma_u32_le_unique(bytes.subrange(4, 8));
        lemma_u64_le_unique(bytes.subrange(8, 16));
        assert(bytes.subrange(0, 4) + bytes.subrange(4, 8) + bytes.subrange(8, 16)
            =~= bytes.subrange(0, 16));
    }

    /// The bytes of this header as they go on the wire.
    pub fn encode(&self) -> (bytes: Vec<u8>)
        ensures
            bytes@ == self.spec_encode(),
            bytes@.len() == 16,
    {
        let mut bytes: Vec<u8> = Vec::new();
        put_u32_le(&mut bytes, self.src_agent_id.0);
        put_u32_le(&mut bytes, self.dst_agent_id.0);
        put_u64_le(&mut bytes, self.request_id.0);
        assert(bytes@ =~= self.spec_encode());
        bytes
    }

    /// Reads a header from the first 16 bytes of `bytes`; what follows them
    /// is not looked at. Fails exactly when there are fewer than 16 bytes.
    pub fn decode(bytes: &[u8]) -> (r: Result<MessageHeader, DecodeError>)
        ensures
            bytes@.len() < 16 <==> r == Err::<MessageHeader, DecodeError>(
                DecodeError::FrameTooShort,
            ),
            bytes@.len() >= 16 <==> r == Ok::<MessageHeader, DecodeError>(
                Self::spec_decode(bytes@),
            ),
    {
        if bytes.len() < Self::SIZE {
            return Err(DecodeError::FrameTooShort);
        }
        let src: u32 = get_u32_le(bytes, 0);
        let dst: u32 = get_u32_le(bytes, 4);
        let request: u64 = get_u64_le(bytes, 8);
        Ok(
            MessageHeader {
                src_agent_id: AgentId(src),
                dst_agent_id: AgentId(dst),
                request_id: RequestId(request),
            },
        )
    }
}

} // verus!
