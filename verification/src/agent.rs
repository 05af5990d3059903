//! The agent's side: one connection to the router, kept up through every
//! failure, and two buffers between it and the agent's owner.

use crate::agent_id::AgentId;
use crate::message::{lemma_decode_encode, views, Message, MessageView};
use std::collections::VecDeque;
use vstd::prelude::*;

verus! {

/// How long an agent pauses before it dials again after a failure, in
/// milliseconds.
pub const BACKOFF_MS: u64 = 1000;

/// How long an agent pauses before it reads again, in milliseconds.
pub const POLL_INTERVAL_MS: u64 = 10;

/// What the transport reports to an agent.
#[derive(Clone, Debug, PartialEq, Eq)]
pub enum AgentEvent {
    /// The connection to the router stands.
    Connected,
    /// The router could not be reached.
    ConnectFailed,
    /// A read found nothing.
    Idle,
    /// A read gave something that calls for nothing: text, or a pong.
    Other,
    /// A read gave one binary frame.
    Frame(Vec<u8>),
    /// A read gave a ping with this payload.
    Ping(Vec<u8>),
    /// The router closed the connection.
    Closed,
    /// A read failed.
    Failed,
    /// What was handed out last was sent.
    Sent,
    /// What was handed out last could not be sent.
    SendFailed,
}

/// What an event is: the event, with the bytes that it carries.
pub enum AgentEventView {
    Connected,
    ConnectFailed,
    Idle,
    Other,
    Frame(Seq<u8>),
    Ping(Seq<u8>),
    Closed,
    Failed,
    Sent,
    SendFailed,
}

impl View for AgentEvent {
    type V = AgentEventView;

    open spec fn view(&self) -> AgentEventView {
        match *self {
            AgentEvent::Connected => AgentEventView::Connected,
            AgentEvent::ConnectFailed => AgentEventView::ConnectFailed,
            AgentEvent::Idle => AgentEventView::Idle,
            AgentEvent::Other => AgentEventView::Other,
            AgentEvent::Frame(bytes) => AgentEventView::Frame(bytes@),
            AgentEvent::Ping(payload) => AgentEventView::Ping(payload@),
            AgentEvent::Closed => AgentEventView::Closed,
            AgentEvent::Failed => AgentEventView::Failed,
            AgentEvent::Sent => AgentEventView::Sent,
            AgentEvent::SendFailed => AgentEventView::SendFailed,
        }
    }
}

/// What an agent asks of the transport next.
#[derive(Clone, Debug, PartialEq, Eq)]
pub enum AgentAction {
    /// Dial the router at once.
    Connect,
    /// Pause for the backoff interval, then dial the router.
    Backoff,
    /// Send this binary frame, then report `Sent` or `SendFailed`.
    Send(Vec<u8>),
    /// Send a pong with this payload, then report `Sent` or `SendFailed`.
    Pong(Vec<u8>),
    /// Pause for the poll interval, then read.
    Wait,
}

/// What an action is: the action, with the bytes that it carries.
pub enum AgentActionView {
    Connect,
    Backoff,
    Send(Seq<u8>),
    Pong(Seq<u8>),
    Wait,
}

impl View for AgentAction {
    type V = AgentActionView;

    open spec fn view(&self) -> AgentActionView {
        match *self {
            AgentAction::Connect => AgentActionView::Connect,
            AgentAction::Backoff => AgentActionView::Backoff,
            AgentAction::Send(bytes) => AgentActionView::Send(bytes@),
            AgentAction::Pong(payload) => AgentActionView::Pong(payload@),
            AgentAction::Wait => AgentActionView::Wait,
        }
    }
}

/// What an agent is: its identity, the address of its router, what it has
/// received and not yet handed to its owner, and what its owner gave it and
/// it has not yet sent; both oldest first.
pub struct AgentView {
    pub id: AgentId,
    pub router_url: Seq<char>,
    pub inbound: Seq<MessageView>,
    pub outbound: Seq<MessageView>,
}

impl AgentView {
    /// The agent after `frame` came in: the message it carries joins the
    /// inbound buffer, unless the frame is too short for a header or the
    /// message is a handshake.
    pub open spec fn received(self, frame: Seq<u8>) -> AgentView {
        if frame.len() >= 16 && !MessageView::decode(frame).is_handshake() {
            AgentView { inbound: self.inbound.push(MessageView::decode(frame)), ..self }
        } else {
            self
        }
    }

    /// The oldest outbound message goes out, if there is one; else a pause.
    pub open spec fn flushed(self) -> (AgentView, AgentActionView) {
        if self.outbound.len() > 0 {
            (
                AgentView { outbound: self.outbound.drop_first(), ..self },
                AgentActionView::Send(self.outbound[0].encode()),
            )
        } else {
            (self, AgentActionView::Wait)
        }
    }

    /// One step of an agent.
    ///
    /// On a new connection the handshake goes out before anything else. A
    /// failure to connect, to read or to send is answered by a backoff and a
    /// new dial; a connection that the router closed by a new dial at once.
    /// A ping is answered by a pong with the same payload. A frame is taken
    /// in. In every other case, and after a frame was taken in, the outbound
    /// buffer is sent, one message a step, oldest first.
    pub open spec fn step(self, event: AgentEventView) -> (AgentView, AgentActionView) {
        match event {
            AgentEventView::Connected => (
                self,
                AgentActionView::Send(MessageView::handshake(self.id).encode()),
            ),
            AgentEventView::ConnectFailed
            | AgentEventView::Failed
            | AgentEventView::SendFailed => (self, AgentActionView::Backoff),
            AgentEventView::Closed => (self, AgentActionView::Connect),
            AgentEventView::Ping(payload) => (self, AgentActionView::Pong(payload)),
            AgentEventView::Idle | AgentEventView::Other | AgentEventView::Sent => self.flushed(),
            AgentEventView::Frame(frame) => self.received(frame).flushed(),
        }
    }
}

impl AgentView {
    /// The agent after `n` more of its frames were sent, one after another.
    pub open spec fn after_sent(self, n: nat) -> AgentView
        decreases n,
    {
        if n == 0 {
            self
        } else {
            self.after_sent((n - 1) as nat).step(AgentEventView::Sent).0
        }
    }

    /// The agent after each of `frames` came in, in order.
    pub open spec fn after_frames(self, frames: Seq<Seq<u8>>) -> AgentView
        decreases frames.len(),
    {
        if frames.len() == 0 {
            self
        } else {
            self.after_frames(frames.drop_last()).step(AgentEventView::Frame(frames.last())).0
        }
    }
}

/// The frame of each of `ms`, in the same order.
pub open spec fn frames_of(ms: Seq<MessageView>) -> Seq<Seq<u8>> {
    Seq::new(ms.len(), |i: int| ms[i].encode())
}

/// Outbound order: what the owner pushed goes out in the order in which it
/// was pushed. The `k`-th send of a row hands out the message that was
/// `k`-th in the buffer, and the inbound buffer is not touched.
pub proof fn lemma_outbound_in_order(a: AgentView, k: nat)
    requires
        k < a.outbound.len(),
    ensures
        a.after_sent(k).outbound == a.outbound.skip(k as int),
        a.after_sent(k).inbound == a.inbound,
        a.after_sent(k).step(AgentEventView::Sent).1 == AgentActionView::Send(
            a.outbound[k as int].encode(),
        ),
    decreases k,
{
    if k == 0 {
        assert(a.outbound.skip(0) =~= a.outbound);
    } else {
        lemma_outbound_in_order(a, (k - 1) as nat);
        assert(a.outbound.skip(k - 1).drop_first() =~= a.outbound.skip(k as int));
    }
}

/// Inbound order: with nothing to send, the messages that come in, none of
/// them a handshake, reach the owner's buffer in the order in which they
/// came, behind what waited there.
pub proof fn lemma_inbound_in_order(a: AgentView, ms: Seq<MessageView>)
    requires
        a.outbound.len() == 0,
        forall|i: int| 0 <= i < ms.len() ==> !(#[trigger] ms[i]).is_handshake(),
    ensures
        a.after_frames(frames_of(ms)).inbound == a.inbound + ms,
        a.after_frames(frames_of(ms)).outbound == a.outbound,
    decreases ms.len(),
{
    if ms.len() == 0 {
        assert(a.inbound + ms =~= a.inbound);
    } else {
        lemma_inbound_in_order(a, ms.drop_last());
        assert(frames_of(ms).drop_last() =~= frames_of(ms.drop_last()));
        assert(frames_of(ms).last() == ms.last().encode());
        lemma_decode_encode(ms.last());
        assert((a.inbound + ms.drop_last()).push(ms.last()) =~= a.inbound + ms);
    }
}

/// The agent's side of a connection to the router. Its owner talks to it
/// through `push`, `pop` and `peek` alone; `on_event` drives the connection.
pub struct Agent {
    id: AgentId,
    router_url: String,
    inbound_queue: VecDeque<Message>,
    outbound_queue: VecDeque<Message>,
}

impl View for Agent {
    type V = AgentView;

    closed spec fn view(&self) -> AgentView {
        AgentView {
            id: self.id,
            router_url: self.router_url@,
            inbound: views(self.inbound_queue@),
            outbound: views(self.outbound_queue@),
        }
    }
}

impl Agent {
    /// An agent with identity `id` for the router at `router_url`, with
    /// nothing in its buffers.
    pub fn new(id: AgentId, router_url: &str) -> (a: Self)
        ensures
            a@ == (AgentView {
                id,
                router_url: router_url@,
                inbound: Seq::empty(),
                outbound: Seq::empty(),
            }),
    {
        let a = Agent {
            id,
            router_url: router_url.to_owned(),
            inbound_queue: VecDeque::new(),
            outbound_queue: VecDeque::new(),
        };
        assert(a@.inbound =~= Seq::empty());
        assert(a@.outbound =~= Seq::empty());
        a
    }

    /// The identity of this agent.
    pub fn id(&self) -> (id: AgentId)
        ensures
            id == self@.id,
    {
        self.id
    }

    /// The address of the router.
    pub fn router_url(&self) -> (url: &str)
        ensures
            url@ == self@.router_url,
    {
        self.router_url.as_str()
    }

    /// Puts `message` at the tail of the outbound buffer.
    pub fn push(&mut self, message: Message)
        ensures
            final(self)@ == (AgentView {
                outbound: old(self)@.outbound.push(message@),
                ..old(self)@
            }),
    {
        let ghost before: Seq<Message> = self.outbound_queue@;
        self.outbound_queue.push_back(message);
        assert(views(self.outbound_queue@) =~= views(before).push(message@));
    }

    /// Takes the oldest message out of the inbound buffer, if there is one.
    pub fn pop(&mut self) -> (r: Option<Message>)
        ensures
            match r {
                Some(m) => {
                    &&& old(self)@.inbound.len() > 0
                    &&& m@ == old(self)@.inbound[0]
                    &&& final(self)@ == (AgentView {
                        inbound: old(self)@.inbound.drop_first(),
                        ..old(self)@
                    })
                },
                None => old(self)@.inbound.len() == 0 && final(self)@ == old(self)@,
            },
    {
        let ghost before: Seq<Message> = self.inbound_queue@;
        let head: Option<Message> = self.inbound_queue.pop_front();
        assert(before.len() > 0 ==> views(self.inbound_queue@) =~= views(before).drop_first());
        head
    }

    /// The oldest message of the inbound buffer, if there is one; it stays
    /// in the buffer.
    pub fn peek(&self) -> (r: Option<&Message>)
        ensures
            match r {
                Some(m) => self@.inbound.len() > 0 && m@ == self@.inbound[0],
                None => self@.inbound.len() == 0,
            },
    {
        if self.inbound_queue.len() > 0 {
            Some(&self.inbound_queue[0])
        } else {
            None
        }
    }

    /// Takes in one frame that the router sent.
    fn receive(&mut self, frame: &[u8])
        ensures
            final(self)@ == old(self)@.received(frame@),
    {
        match Message::decode(frame) {
            Err(_) => {},
            Ok(message) => {
                if !message.is_handshake() {
                    let ghost before: Seq<Message> = self.inbound_queue@;
                    self.inbound_queue.push_back(message);
                    assert(views(self.inbound_queue@) =~= views(before).push(message@));
                }
            },
        }
    }

    /// Hands out the oldest outbound message, if there is one.
    fn flush(&mut self) -> (action: AgentAction)
        ensures
            (final(self)@, action@) == old(self)@.flushed(),
    {
        let ghost before: Seq<Message> = self.outbound_queue@;
        match self.outbound_queue.pop_front() {
            Some(message) => {
                assert(views(self.outbound_queue@) =~= views(before).drop_first());
                AgentAction::Send(message.encode())
            },
            None => AgentAction::Wait,
        }
    }

    /// One step of driving the connection: takes the transport's report
    /// `event` and says what the transport is to do next. The step is
    /// exactly [`AgentView::step`].
    pub fn on_event(&mut self, event: AgentEvent) -> (action: AgentAction)
        ensures
            (final(self)@, action@) == old(self)@.step(event@),
    {
        match event {
            AgentEvent::Connected => AgentAction::Send(Message::handshake(self.id).encode()),
            AgentEvent::ConnectFailed | AgentEvent::Failed | AgentEvent::SendFailed => {
                AgentAction::Backoff
            },
            AgentEvent::Closed => AgentAction::Connect,
            AgentEvent::Ping(payload) => AgentAction::Pong(payload),
            AgentEvent::Idle | AgentEvent::Other | AgentEvent::Sent => self.flush(),
            AgentEvent::Frame(frame) => {
                self.receive(frame.as_slice());
                self.flush()
            },
        }
    }
}

} // verus!
