//! The router: the mailboxes, the sessions that work on them, and the
//! listening endpoint.

use crate::agent_id::AgentId;
use crate::message::Message;
use crate::message_queues::{no_mail, well_routed, Mailboxes, MessageQueues};
use crate::session::{drained, handshake_free, lemma_step_keeps_order, received, step, turn};
use crate::session::{Session, SessionAction, SessionEvent, SessionState, Step};
use vstd::prelude::*;

verus! {

/// How long the router pauses before it listens again after its accept loop
/// failed, in milliseconds.
pub const RESTART_DELAY_MS: u64 = 1000;

/// What the listening endpoint reports to the router.
#[derive(Clone, Copy, Debug, PartialEq, Eq, Structural)]
pub enum ListenerEvent {
    /// The endpoint is bound and listens.
    Bound,
    /// The endpoint could not be bound.
    BindFailed,
    /// A connection was accepted and stands ready to be served.
    Accepted,
    /// One incoming connection failed before it could be served.
    ConnectionFailed,
    /// Accepting itself failed.
    AcceptFailed,
    /// The router is being shut down.
    Cancelled,
}

/// What the router asks of the listening endpoint next.
#[derive(Clone, Copy, Debug, PartialEq, Eq, Structural)]
pub enum ListenerAction {
    /// Wait for the next connection.
    Accept,
    /// Start a session of its own for the accepted connection, and wait for
    /// the next one.
    Serve,
    /// Pause for the restart delay, then bind the endpoint again.
    Rebind,
    /// Stop listening: the router was shut down.
    Stop,
    /// Stop listening and report the failure to the caller.
    Fail,
}

/// What the router does on a report of its listening endpoint. A failure to
/// bind is fatal and goes to the caller. A failed connection costs that
/// connection alone; a failed accept loop is started again after a pause.
/// Apart from a failure to bind, only a shutdown stops the router.
pub open spec fn listen(event: ListenerEvent) -> ListenerAction {
    match event {
        ListenerEvent::Bound => ListenerAction::Accept,
        ListenerEvent::BindFailed => ListenerAction::Fail,
        ListenerEvent::Accepted => ListenerAction::Serve,
        ListenerEvent::ConnectionFailed => ListenerAction::Accept,
        ListenerEvent::AcceptFailed => ListenerAction::Rebind,
        ListenerEvent::Cancelled => ListenerAction::Stop,
    }
}

/// The broker: it owns the mailboxes and serves every accepted connection,
/// step by step, out of them.
pub struct Router {
    port: u16,
    message_queues: MessageQueues,
}

impl View for Router {
    type V = Mailboxes;

    closed spec fn view(&self) -> Mailboxes {
        self.message_queues@
    }
}

/// Takes in one frame of a connection.
fn receive(mail: &mut MessageQueues, session: &mut Session, frame: &[u8])
    ensures
        (final(mail)@, final(session)@.state) == received(old(mail)@, old(session)@.state, frame@),
        final(session)@.last_ping == old(session)@.last_ping,
{
    match Message::decode(frame) {
        Err(_) => {},
        Ok(message) => {
            match session.state() {
                SessionState::Unregistered => {
                    if message.is_handshake() {
                        session.register(message.header.src_agent_id);
                    }
                },
                SessionState::Registered(_) => {
                    if !message.is_handshake() {
                        mail.push(message);
                    }
                },
                SessionState::Closed => {},
            }
        },
    }
}

/// Looks into the session's own mailbox.
fn drain(mail: &mut MessageQueues, session: &Session) -> (action: SessionAction)
    ensures
        drained(old(mail)@, session@) == (Step {
            mail: final(mail)@,
            session: session@,
            action: action@,
        }),
{
    match session.state() {
        SessionState::Registered(id) => match mail.pop(id) {
            Some(message) => SessionAction::Send(message.encode()),
            None => SessionAction::Wait,
        },
        _ => SessionAction::Wait,
    }
}

/// Starts a turn after a read.
fn take_turn(mail: &mut MessageQueues, session: &mut Session, now: u64) -> (action: SessionAction)
    ensures
        turn(old(mail)@, old(session)@, now) == (Step {
            mail: final(mail)@,
            session: final(session)@,
            action: action@,
        }),
{
    if session.ping_due(now) {
        session.pinged(now);
        SessionAction::Ping
    } else {
        drain(mail, session)
    }
}

/// One step of the session of a connection over the mailboxes `mail`.
fn serve(mail: &mut MessageQueues, session: &mut Session, event: SessionEvent, now: u64) -> (action:
    SessionAction)
    ensures
        step(old(mail)@, old(session)@, event@, now) == (Step {
            mail: final(mail)@,
            session: final(session)@,
            action: action@,
        }),
{
    if session.is_closed() {
        return SessionAction::Close;
    }
    match event {
        SessionEvent::Closed
        | SessionEvent::Failed
        | SessionEvent::SendFailed
        | SessionEvent::Cancelled => {
            session.close();
            SessionAction::Close
        },
        SessionEvent::Sent => drain(mail, session),
        SessionEvent::Idle | SessionEvent::Other => take_turn(mail, session, now),
        SessionEvent::Frame(frame) => {
            receive(mail, session, frame.as_slice());
            take_turn(mail, session, now)
        },
    }
}

impl Router {
    /// Every message waits in the mailbox of its destination, and none for
    /// the router's control address.
    #[verifier::type_invariant]
    spec fn in_order(&self) -> bool {
        well_routed(self.message_queues@) && handshake_free(self.message_queues@)
    }

    /// The port that the router listens on.
    pub closed spec fn spec_port(&self) -> u16 {
        self.port
    }

    /// A router for `port`, with nothing in its mailboxes.
    pub fn new(port: u16) -> (r: Self)
        ensures
            r@ == no_mail(),
            r.spec_port() == port,
    {
        Router { port, message_queues: MessageQueues::new() }
    }

    /// The port that the router listens on.
    pub fn port(&self) -> (p: u16)
        ensures
            p == self.spec_port(),
    {
        self.port
    }

    /// How many messages wait for `agent_id`. The router sets no bound on
    /// this number; it is for its operator to watch.
    pub fn pending(&self, agent_id: AgentId) -> (n: usize)
        ensures
            n == self@[agent_id].len(),
    {
        self.message_queues.pending(agent_id)
    }

    /// What to do on a report of the listening endpoint.
    pub fn on_listener_event(&self, event: ListenerEvent) -> (action: ListenerAction)
        ensures
            action == listen(event),
    {
        match event {
            ListenerEvent::Bound => ListenerAction::Accept,
            ListenerEvent::BindFailed => ListenerAction::Fail,
            ListenerEvent::Accepted => ListenerAction::Serve,
            ListenerEvent::ConnectionFailed => ListenerAction::Accept,
            ListenerEvent::AcceptFailed => ListenerAction::Rebind,
            ListenerEvent::Cancelled => ListenerAction::Stop,
        }
    }

    /// One step of serving a connection: takes the transport's report
    /// `event`, which came at time `now`, for the connection whose state is
    /// `session`, and says what the transport is to do next.
    ///
    /// The step is exactly [`step`]. After it, as before it, every message
    /// waits in the mailbox of its destination and none for the router's
    /// control address.
    pub fn on_session_event(
        &mut self,
        session: &mut Session,
        event: SessionEvent,
        now: u64,
    ) -> (action: SessionAction)
        ensures
            step(old(self)@, old(session)@, event@, now) == (Step {
                mail: final(self)@,
                session: final(session)@,
                action: action@,
            }),
            well_routed(final(self)@),
            handshake_free(final(self)@),
    {
        proof {
            use_type_invariant(&*self);
            lemma_step_keeps_order(self@, session@, event@, now);
        }
        // The mailboxes are worked on outside the router and put back whole.
        let mut mail: MessageQueues = MessageQueues::new();
        std::mem::swap(&mut self.message_queues, &mut mail);
        let action: SessionAction = serve(&mut mail, session, event, now);
        self.message_queues = mail;
        action
    }
}

} // verus!
