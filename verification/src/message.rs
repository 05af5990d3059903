//! Messages and their frames.

use crate::agent_id::AgentId;
use crate::error::DecodeError;
use crate::message_header::MessageHeader;
use crate::request_id::RequestId;
use vstd::prelude::*;

verus! {

/// One unit of traffic: a header and an opaque body. One transport frame
/// carries one message: the header's 16 bytes, then the body up to the end of
/// the frame.
#[derive(Clone, Debug, PartialEq, Eq)]
pub struct Message {
    pub header: MessageHeader,
    pub body: Vec<u8>,
}

/// What a message is: its header and the bytes of its body.
pub struct MessageView {
    pub header: MessageHeader,
    pub body: Seq<u8>,
}

impl View for Message {
    type V = MessageView;

    open spec fn view(&self) -> MessageView {
        MessageView { header: self.header, body: self.body@ }
    }
}

/// What each of `s` is, in the same order.
pub open spec fn views(s: Seq<Message>) -> Seq<MessageView> {
    Seq::new(s.len(), |i: int| s[i]@)
}

impl MessageView {
    /// A handshake is addressed to the router itself.
    pub open spec fn is_handshake(self) -> bool {
        self.header.dst_agent_id == AgentId::router()
    }

    /// The frame that carries this message.
    pub open spec fn encode(self) -> Seq<u8> {
        self.header.spec_encode() + self.body
    }

    /// The message that a frame of at least 16 bytes carries.
    pub open spec fn decode(frame: Seq<u8>) -> MessageView
        recommends
            frame.len() >= 16,
    {
        MessageView {
            header: MessageHeader::spec_decode(frame),
            body: frame.subrange(16, frame.len() as int),
        }
    }

    /// The handshake that announces `id`: from `id`, to the router, no body.
    pub open spec fn handshake(id: AgentId) -> MessageView {
        MessageView {
            header: MessageHeader {
                src_agent_id: id,
                dst_agent_id: AgentId::router(),
                request_id: RequestId(0),
            },
            body: Seq::empty(),
        }
    }

    /// The answer that `from` gives to this message: back to its sender,
    /// under the same request token.
    pub open spec fn reply(self, from: AgentId, body: Seq<u8>) -> MessageView {
        MessageView {
            header: MessageHeader {
                src_agent_id: from,
                dst_agent_id: self.header.src_agent_id,
                request_id: self.header.request_id,
            },
            body,
        }
    }
}

/// A frame is never shorter than a header, and reading a frame that was
/// written gives the message again.
pub proof fn lemma_decode_encode(m: MessageView)
    ensures
        m.encode().len() == 16 + m.body.len(),
        MessageView::decode(m.encode()) == m,
{
    m.header.lemma_decode_encode(m.body);
    assert(m.encode().subrange(16, m.encode().len() as int) =~= m.body);
}

/// Writing a message that was read gives the frame it was read from.
pub proof fn lemma_encode_decode(frame: Seq<u8>)
    requires
        frame.len() >= 16,
    ensures
        MessageView::decode(frame).encode() == frame,
{
    MessageHeader::lemma_encode_decode(frame);
    assert(frame.subrange(0, 16) + frame.subrange(16, frame.len() as int) =~= frame);
}

impl Message {
    /// The frame that carries this message. Never fails.
    pub fn encode(&self) -> (frame: Vec<u8>)
        ensures
            frame@ == self@.encode(),
    {
        let mut frame: Vec<u8> = self.header.encode();
        let ghost head: Seq<u8> = frame@;
        let mut i: usize = 0;
        while i < self.body.len()
            invariant
                i <= self.body@.len(),
                frame@ == head + self.body@.subrange(0, i as int),
            decreases self.body@.len() - i,
        {
            frame.push(self.body[i]);
            i = i + 1;
        }
        assert(self.body@.subrange(0, i as int) =~= self.body@);
        frame
    }

    /// Reads a message from one frame: the header from its first 16 bytes,
    /// the body from all that follow, unexamined. Fails exactly when the
    /// frame has fewer than 16 bytes.
    pub fn decode(frame: &[u8]) -> (r: Result<Message, DecodeError>)
        ensures
            match r {
                Ok(m) => frame@.len() >= 16 && m@ == MessageView::decode(frame@),
                Err(e) => frame@.len() < 16 && e == DecodeError::FrameTooShort,
            },
    {
        match MessageHeader::decode(frame) {
            Err(e) => Err(e),
            Ok(header) => {
                let mut body: Vec<u8> = Vec::new();
                let mut i: usize = MessageHeader::SIZE;
                while i < frame.len()
                    invariant
                        16 <= i <= frame@.len(),
                        body@ == frame@.subrange(16, i as int),
                    decreases frame@.len() - i,
                {
                    body.push(frame[i]);
                    i = i + 1;
                }
                Ok(Message { header, body })
            },
        }
    }

    /// Whether this message is a handshake: addressed to the router itself.
    pub fn is_handshake(&self) -> (r: bool)
        ensures
            r == self@.is_handshake(),
    {
        self.header.dst_agent_id.is_router()
    }

    /// The handshake that announces `id` to the router.
    pub fn handshake(id: AgentId) -> (m: Message)
        ensures
            m@ == MessageView::handshake(id),
            m@.is_handshake(),
    {
        Message {
            header: MessageHeader {
                src_agent_id: id,
                dst_agent_id: AgentId(0),
                request_id: RequestId(0),
            },
            body: Vec::new(),
        }
    }

    /// The answer that `from` gives to this message, with the given body.
    pub fn reply(&self, from: AgentId, body: Vec<u8>) -> (m: Message)
        ensures
            m@ == self@.reply(from, body@),
    {
        Message {
            header: MessageHeader {
                src_agent_id: from,
                dst_agent_id: self.header.src_agent_id,
                request_id: self.header.request_id,
            },
            body,
        }
    }
}

} // verus!
