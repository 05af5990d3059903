//! The router's side of one connection: what it has registered, when it last
//! pinged, and the rule that says what to do on each report of the transport.

use crate::agent_id::AgentId;
use crate::message::{lemma_decode_encode, MessageView};
use crate::message_queues::{collected, delivered, lemma_well_routed, well_routed, Mailboxes};
use vstd::prelude::*;

verus! {

/// A session pings once more than this many seconds have passed since its
/// last ping.
pub const KEEPALIVE_THRESHOLD: u64 = 5;

/// How long a session pauses before it reads again, in milliseconds.
pub const POLL_INTERVAL_MS: u64 = 10;

/// Where a connection stands. It starts unregistered, is registered by its
/// first handshake and stays with that identity, and once closed stays
/// closed.
#[derive(Clone, Copy, Debug, PartialEq, Eq, Structural)]
pub enum SessionState {
    Unregistered,
    Registered(AgentId),
    Closed,
}

/// The state of one accepted connection. Only the router's steps change it.
/// Times are readings of one monotonic clock, in whole seconds.
#[derive(Clone, Copy, Debug, PartialEq, Eq)]
pub struct Session {
    state: SessionState,
    last_ping: u64,
}

/// What a session is: where the connection stands, and when it last pinged.
pub struct SessionView {
    pub state: SessionState,
    pub last_ping: u64,
}

impl View for Session {
    type V = SessionView;

    closed spec fn view(&self) -> SessionView {
        SessionView { state: self.state, last_ping: self.last_ping }
    }
}

/// What the transport reports to a session.
#[derive(Clone, Debug, PartialEq, Eq)]
pub enum SessionEvent {
    /// A read found nothing.
    Idle,
    /// A read gave something that is no binary frame.
    Other,
    /// A read gave one binary frame.
    Frame(Vec<u8>),
    /// The peer is gone.
    Closed,
    /// A read failed: the transport broke, or the peer broke its rules.
    Failed,
    /// The frame handed out last was sent.
    Sent,
    /// A frame or a ping could not be sent.
    SendFailed,
    /// The router shuts this session down.
    Cancelled,
}

/// What an event is: the event, with the bytes that it carries.
pub enum SessionEventView {
    Idle,
    Other,
    Frame(Seq<u8>),
    Closed,
    Failed,
    Sent,
    SendFailed,
    Cancelled,
}

impl View for SessionEvent {
    type V = SessionEventView;

    open spec fn view(&self) -> SessionEventView {
        match *self {
            SessionEvent::Idle => SessionEventView::Idle,
            SessionEvent::Other => SessionEventView::Other,
            SessionEvent::Frame(bytes) => SessionEventView::Frame(bytes@),
            SessionEvent::Closed => SessionEventView::Closed,
            SessionEvent::Failed => SessionEventView::Failed,
            SessionEvent::Sent => SessionEventView::Sent,
            SessionEvent::SendFailed => SessionEventView::SendFailed,
            SessionEvent::Cancelled => SessionEventView::Cancelled,
        }
    }
}

/// What a session asks of the transport next.
#[derive(Clone, Debug, PartialEq, Eq)]
pub enum SessionAction {
    /// Send this frame, then report `Sent` or `SendFailed`.
    Send(Vec<u8>),
    /// Send a ping, then read again at once.
    Ping,
    /// Pause for the poll interval, then read again.
    Wait,
    /// Release the transport: the session is over.
    Close,
}

/// What an action is: the action, with the bytes that it carries.
pub enum SessionActionView {
    Send(Seq<u8>),
    Ping,
    Wait,
    Close,
}

impl View for SessionAction {
    type V = SessionActionView;

    open spec fn view(&self) -> SessionActionView {
        match *self {
            SessionAction::Send(bytes) => SessionActionView::Send(bytes@),
            SessionAction::Ping => SessionActionView::Ping,
            SessionAction::Wait => SessionActionView::Wait,
            SessionAction::Close => SessionActionView::Close,
        }
    }
}

/// The outcome of one step: the mailboxes and the session after it, and what
/// the session asks for.
pub struct Step {
    pub mail: Mailboxes,
    pub session: SessionView,
    pub action: SessionActionView,
}

impl SessionState {
    /// The identity that the connection has registered, if any.
    pub open spec fn identity(self) -> Option<AgentId> {
        match self {
            SessionState::Registered(id) => Some(id),
            _ => None,
        }
    }

    /// The state after message `m` came in. Only the first handshake
    /// registers; nothing else changes the state.
    pub open spec fn after(self, m: MessageView) -> SessionState {
        if self is Unregistered && m.is_handshake() {
            SessionState::Registered(m.header.src_agent_id)
        } else {
            self
        }
    }

    /// Whether message `m` that came in is put into a mailbox: a registered
    /// connection's messages are, but for handshakes.
    pub open spec fn forwards(self, m: MessageView) -> bool {
        self is Registered && !m.is_handshake()
    }
}

impl SessionEventView {
    /// Whether the event ends the session: the peer is gone, a read or a
    /// send failed, or the router shuts the session down.
    pub open spec fn is_final(self) -> bool {
        self is Closed || self is Failed || self is SendFailed || self is Cancelled
    }

    /// Whether the event is the outcome of a read that did not fail.
    pub open spec fn is_read(self) -> bool {
        self is Idle || self is Other || self is Frame
    }
}

impl SessionView {
    /// The seconds since the last ping; none where the clock reads less than
    /// it did then.
    pub open spec fn idle_time(self, now: u64) -> int {
        if now >= self.last_ping {
            now - self.last_ping
        } else {
            0
        }
    }

    /// Whether a ping is due at `now`.
    pub open spec fn keepalive_due(self, now: u64) -> bool {
        self.idle_time(now) > KEEPALIVE_THRESHOLD
    }
}

/// The mailboxes and the state after `frame` came in. A frame too short for
/// a header is dropped.
pub open spec fn received(mail: Mailboxes, state: SessionState, frame: Seq<u8>) -> (
    Mailboxes,
    SessionState,
) {
    if frame.len() < 16 {
        (mail, state)
    } else {
        let m = MessageView::decode(frame);
        (
            if state.forwards(m) {
                delivered(mail, m)
            } else {
                mail
            },
            state.after(m),
        )
    }
}

/// One message out of the session's own mailbox, if it is registered and one
/// waits; else a pause.
pub open spec fn drained(mail: Mailboxes, session: SessionView) -> Step {
    match session.state {
        SessionState::Registered(id) => if mail[id].len() > 0 {
            Step {
                mail: collected(mail, id),
                session,
                action: SessionActionView::Send(mail[id][0].encode()),
            }
        } else {
            Step { mail, session, action: SessionActionView::Wait }
        },
        _ => Step { mail, session, action: SessionActionView::Wait },
    }
}

/// What follows a read: a ping where one is due, which resets the timer and
/// takes the place of the mailbox for this turn; else the mailbox.
pub open spec fn turn(mail: Mailboxes, session: SessionView, now: u64) -> Step {
    if session.keepalive_due(now) {
        Step {
            mail,
            session: SessionView { state: session.state, last_ping: now },
            action: SessionActionView::Ping,
        }
    } else {
        drained(mail, session)
    }
}

/// One step of a session at time `now`.
///
/// A closed session stays closed. The loss of the peer, a failed read, a
/// failed send and a shutdown close it; its mailbox stays. After a frame was
/// sent the mailbox is looked at again. Every read starts a turn, a frame
/// after it was taken in.
pub open spec fn step(mail: Mailboxes, session: SessionView, event: SessionEventView, now: u64) -> Step {
    if session.state is Closed {
        Step { mail, session, action: SessionActionView::Close }
    } else if event.is_final() {
        Step {
            mail,
            session: SessionView { state: SessionState::Closed, last_ping: session.last_ping },
            action: SessionActionView::Close,
        }
    } else {
        match event {
            SessionEventView::Sent => drained(mail, session),
            SessionEventView::Frame(frame) => {
                let (mail, state) = received(mail, session.state, frame);
                turn(mail, SessionView { state, last_ping: session.last_ping }, now)
            },
            _ => turn(mail, session, now),
        }
    }
}

/// No message waits for the router's own control address.
pub open spec fn handshake_free(mail: Mailboxes) -> bool {
    mail[AgentId::router()].len() == 0
}

/// Handshake exclusion: a handshake that comes in on a connection reaches no
/// mailbox, whatever the state of the connection.
pub proof fn lemma_handshake_excluded(mail: Mailboxes, state: SessionState, frame: Seq<u8>)
    requires
        frame.len() >= 16,
        MessageView::decode(frame).is_handshake(),
    ensures
        received(mail, state, frame).0 == mail,
{
}

/// No step of any session breaks the order of the mailboxes: every message
/// stays in the mailbox of its destination, and the mailbox of the router's
/// control address stays empty.
pub proof fn lemma_step_keeps_order(
    mail: Mailboxes,
    session: SessionView,
    event: SessionEventView,
    now: u64,
)
    requires
        well_routed(mail),
        handshake_free(mail),
    ensures
        well_routed(step(mail, session, event, now).mail),
        handshake_free(step(mail, session, event, now).mail),
{
    let after = match event {
        SessionEventView::Frame(frame) => received(mail, session.state, frame),
        _ => (mail, session.state),
    };
    if let SessionEventView::Frame(frame) = event {
        lemma_well_routed(mail, MessageView::decode(frame), AgentId::router());
    }
    assert(well_routed(after.0) && handshake_free(after.0));
    if let SessionState::Registered(id) = after.1 {
        lemma_well_routed(after.0, MessageView::handshake(id), id);
    }
    if let SessionState::Registered(id) = session.state {
        lemma_well_routed(mail, MessageView::handshake(id), id);
    }
}

/// Identity isolation: whatever a session hands out to its connection is the
/// frame of a message for the identity that the session has registered.
pub proof fn lemma_sends_to_owner_only(
    mail: Mailboxes,
    session: SessionView,
    event: SessionEventView,
    now: u64,
    frame: Seq<u8>,
)
    requires
        well_routed(mail),
        step(mail, session, event, now).action == SessionActionView::Send(frame),
    ensures
        frame.len() >= 16,
        step(mail, session, event, now).session.state == SessionState::Registered(
            MessageView::decode(frame).header.dst_agent_id,
        ),
{
    let after = match event {
        SessionEventView::Frame(incoming) => received(mail, session.state, incoming),
        _ => (mail, session.state),
    };
    if let SessionEventView::Frame(incoming) = event {
        lemma_well_routed(mail, MessageView::decode(incoming), AgentId::router());
    }
    assert(well_routed(after.0));
    let id = after.1->Registered_0;
    assert(after.1 is Registered);
    let m = after.0[id][0];
    assert(frame == m.encode());
    lemma_decode_encode(m);
}

/// A connection registers at most once: a registered session keeps its
/// identity until it closes, and a closed session stays closed.
pub proof fn lemma_identity_is_final(
    mail: Mailboxes,
    session: SessionView,
    event: SessionEventView,
    now: u64,
)
    ensures
        session.state is Registered ==> {
            let next = step(mail, session, event, now).session.state;
            next == session.state || next is Closed
        },
        session.state is Closed ==> step(mail, session, event, now) == (Step {
            mail,
            session,
            action: SessionActionView::Close,
        }),
{
}

/// The end of a connection takes nothing out of any mailbox: what waits for
/// its identity waits on for the connection that registers that identity
/// next.
pub proof fn lemma_close_keeps_mail(
    mail: Mailboxes,
    session: SessionView,
    event: SessionEventView,
    now: u64,
)
    requires
        event.is_final(),
    ensures
        step(mail, session, event, now).mail == mail,
        step(mail, session, event, now).session.state is Closed,
        step(mail, session, event, now).action is Close,
{
}

/// Mail outlives connections: a step of a session takes nothing out of the
/// mailbox of an identity that is not the session's own. What waited there
/// still waits, in the same order, before anything that the step added.
pub proof fn lemma_mail_waits_for_its_owner(
    mail: Mailboxes,
    session: SessionView,
    event: SessionEventView,
    now: u64,
    id: AgentId,
)
    requires
        step(mail, session, event, now).session.state != SessionState::Registered(id),
    ensures
        mail[id].is_prefix_of(step(mail, session, event, now).mail[id]),
{
}

/// A ping goes out exactly on a read of an open session at which one is due.
/// It resets the timer to the time of the read, and nothing else moves the
/// timer.
pub proof fn lemma_ping_when_due(
    mail: Mailboxes,
    session: SessionView,
    event: SessionEventView,
    now: u64,
)
    ensures
        step(mail, session, event, now).action is Ping <==> {
            &&& session.state !is Closed
            &&& event.is_read()
            &&& session.keepalive_due(now)
        },
        step(mail, session, event, now).action is Ping ==> step(
            mail,
            session,
            event,
            now,
        ).session.last_ping == now,
        step(mail, session, event, now).action !is Ping ==> step(
            mail,
            session,
            event,
            now,
        ).session.last_ping == session.last_ping,
{
}

/// One report as a session meets it: the mailboxes as they stand at that
/// moment, what the transport reports, and the reading of the clock.
pub struct Report {
    pub mail: Mailboxes,
    pub event: SessionEventView,
    pub now: u64,
}

/// The session after the first `n` of `reports`.
pub open spec fn session_after(start: SessionView, reports: Seq<Report>, n: nat) -> SessionView
    decreases n,
{
    if n == 0 {
        start
    } else {
        let r = reports[n - 1];
        step(r.mail, session_after(start, reports, (n - 1) as nat), r.event, r.now).session
    }
}

/// What the session asks for on report `i`.
pub open spec fn action_at(start: SessionView, reports: Seq<Report>, i: int) -> SessionActionView {
    let r = reports[i];
    step(r.mail, session_after(start, reports, i as nat), r.event, r.now).action
}

/// The clock never runs backwards from one report to a later one.
pub open spec fn clock_is_monotonic(reports: Seq<Report>) -> bool {
    forall|i: int, j: int|
        0 <= i <= j < reports.len() ==> (#[trigger] reports[i]).now <= (#[trigger] reports[j]).now
}

/// After a ping the timer never reads less than the time of that ping.
proof fn lemma_timer_after_ping(start: SessionView, reports: Seq<Report>, i: int, n: nat)
    requires
        clock_is_monotonic(reports),
        0 <= i < n <= reports.len(),
        action_at(start, reports, i) is Ping,
    ensures
        session_after(start, reports, n).last_ping >= reports[i].now,
    decreases n,
{
    let r = reports[n - 1];
    let before = session_after(start, reports, (n - 1) as nat);
    lemma_ping_when_due(r.mail, before, r.event, r.now);
    if n - 1 > i {
        lemma_timer_after_ping(start, reports, i, (n - 1) as nat);
        assert(reports[i].now <= reports[n - 1].now);
    }
}

/// Keepalive: over the whole life of a session, and whatever else happens
/// meanwhile, any two of its pings are more than the threshold apart: never
/// more than one ping in one threshold interval.
pub proof fn lemma_pings_are_spaced(start: SessionView, reports: Seq<Report>, i: int, j: int)
    requires
        clock_is_monotonic(reports),
        0 <= i < j < reports.len(),
        action_at(start, reports, i) is Ping,
        action_at(start, reports, j) is Ping,
    ensures
        reports[j].now - reports[i].now > KEEPALIVE_THRESHOLD,
{
    lemma_timer_after_ping(start, reports, i, j as nat);
    let r = reports[j];
    lemma_ping_when_due(r.mail, session_after(start, reports, j as nat), r.event, r.now);
}

impl Session {
    /// The session of a connection accepted at `now`: unregistered, its
    /// keepalive timer started.
    pub fn new(now: u64) -> (s: Session)
        ensures
            s@ == (SessionView { state: SessionState::Unregistered, last_ping: now }),
    {
        Session { state: SessionState::Unregistered, last_ping: now }
    }

    /// Where the connection stands.
    pub fn state(&self) -> (r: SessionState)
        ensures
            r == self@.state,
    {
        self.state
    }

    /// When the session last pinged, or when it began if it never did.
    pub fn last_ping(&self) -> (r: u64)
        ensures
            r == self@.last_ping,
    {
        self.last_ping
    }

    /// The identity that the connection has registered, if any.
    pub fn registered_identity(&self) -> (r: Option<AgentId>)
        ensures
            r == self@.state.identity(),
    {
        match self.state {
            SessionState::Registered(id) => Some(id),
            _ => None,
        }
    }

    /// Whether the session is over.
    pub fn is_closed(&self) -> (r: bool)
        ensures
            r == (self@.state is Closed),
    {
        match self.state {
            SessionState::Closed => true,
            _ => false,
        }
    }

    /// Whether a ping is due at `now`.
    pub fn ping_due(&self, now: u64) -> (r: bool)
        ensures
            r == self@.keepalive_due(now),
    {
        now >= self.last_ping && now - self.last_ping > KEEPALIVE_THRESHOLD
    }

    /// Registers `id`, if nothing is registered yet and the session is open.
    pub(crate) fn register(&mut self, id: AgentId)
        ensures
            final(self)@.last_ping == old(self)@.last_ping,
            final(self)@.state == if old(self)@.state is Unregistered {
                SessionState::Registered(id)
            } else {
                old(self)@.state
            },
    {
        match self.state {
            SessionState::Unregistered => {
                self.state = SessionState::Registered(id);
            },
            _ => {},
        }
    }

    /// Ends the session.
    pub(crate) fn close(&mut self)
        ensures
            final(self)@ == (SessionView {
                state: SessionState::Closed,
                last_ping: old(self)@.last_ping,
            }),
    {
        self.state = SessionState::Closed;
    }

    /// Restarts the keepalive timer at `now`.
    pub(crate) fn pinged(&mut self, now: u64)
        ensures
            final(self)@ == (SessionView { state: old(self)@.state, last_ping: now }),
    {
        self.last_ping = now;
    }
}

} // verus!
