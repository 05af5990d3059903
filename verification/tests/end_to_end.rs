use std::collections::VecDeque;
use ws_rpc::{Agent, AgentAction, AgentEvent, AgentId, Message, MessageHeader, RequestId};
use ws_rpc::{Router, Session, SessionAction, SessionEvent, SessionState};

/// One connection between an agent and the router, held in memory.
struct Link {
    session: Session,
    to_router: VecDeque<Vec<u8>>,
    to_agent: VecDeque<Vec<u8>>,
    next: AgentAction,
}

fn dial(now: u64) -> Link {
    Link {
        session: Session::new(now),
        to_router: VecDeque::new(),
        to_agent: VecDeque::new(),
        next: AgentAction::Connect,
    }
}

/// Runs the agent until it pauses to read with nothing to read.
fn run_agent(agent: &mut Agent, link: &mut Link) {
    loop {
        let event = match link.next.clone() {
            AgentAction::Connect | AgentAction::Backoff => AgentEvent::Connected,
            AgentAction::Send(frame) => {
                link.to_router.push_back(frame);
                AgentEvent::Sent
            }
            AgentAction::Pong(_) => AgentEvent::Sent,
            AgentAction::Wait => match link.to_agent.pop_front() {
                Some(frame) => AgentEvent::Frame(frame),
                None => {
                    let action = agent.on_event(AgentEvent::Idle);
                    if action == AgentAction::Wait {
                        link.next = action;
                        return;
                    }
                    link.next = action;
                    continue;
                }
            },
        };
        link.next = agent.on_event(event);
    }
}

/// Runs the router's session of a link until it pauses with nothing to read.
fn run_session(router: &mut Router, link: &mut Link, now: u64) {
    loop {
        let event = match link.to_router.pop_front() {
            Some(frame) => SessionEvent::Frame(frame),
            None => SessionEvent::Idle,
        };
        let quiet = event == SessionEvent::Idle;
        let mut action = router.on_session_event(&mut link.session, event, now);
        let mut sent = false;
        while let SessionAction::Send(frame) = action {
            link.to_agent.push_back(frame);
            sent = true;
            action = router.on_session_event(&mut link.session, SessionEvent::Sent, now);
        }
        assert_ne!(action, SessionAction::Close);
        if quiet && !sent && action == SessionAction::Wait {
            return;
        }
    }
}

fn settle(router: &mut Router, peers: &mut [(&mut Agent, &mut Link)], now: u64) {
    for _ in 0..4 {
        for (agent, link) in peers.iter_mut() {
            run_agent(agent, link);
            run_session(router, link, now);
            run_agent(agent, link);
        }
    }
}

fn hello() -> Message {
    Message {
        header: MessageHeader {
            src_agent_id: AgentId(2),
            dst_agent_id: AgentId(1),
            request_id: RequestId(123),
        },
        body: b"hello world".to_vec(),
    }
}

#[test]
fn a_request_and_its_reply_cross_the_router() {
    let mut router = Router::new(8080);
    let mut a = Agent::new(AgentId(2), "ws://127.0.0.1:8080");
    let mut b = Agent::new(AgentId(1), "ws://127.0.0.1:8080");
    let mut link_a = dial(0);
    let mut link_b = dial(0);
    settle(&mut router, &mut [(&mut a, &mut link_a), (&mut b, &mut link_b)], 0);
    assert_eq!(link_a.session.state(), SessionState::Registered(AgentId(2)));
    assert_eq!(link_b.session.state(), SessionState::Registered(AgentId(1)));

    a.push(hello());
    settle(&mut router, &mut [(&mut a, &mut link_a), (&mut b, &mut link_b)], 1);
    let request = b.pop().unwrap();
    assert_eq!(request, hello());
    assert_eq!(request.header.src_agent_id, AgentId(2));
    assert_eq!(request.header.dst_agent_id, AgentId(1));
    assert_eq!(request.header.request_id, RequestId(123));
    assert_eq!(request.body, b"hello world".to_vec());
    assert_eq!(b.pop(), None);
    assert_eq!(a.pop(), None);

    b.push(request.reply(b.id(), b"I got request: 123".to_vec()));
    settle(&mut router, &mut [(&mut a, &mut link_a), (&mut b, &mut link_b)], 2);
    let reply = a.pop().unwrap();
    assert_eq!(reply.header.src_agent_id, AgentId(1));
    assert_eq!(reply.header.dst_agent_id, AgentId(2));
    assert_eq!(reply.header.request_id, RequestId(123));
    assert_eq!(reply.body, b"I got request: 123".to_vec());
    assert_eq!(a.pop(), None);
    assert_eq!(b.pop(), None);
}

#[test]
fn mail_waits_for_an_agent_that_is_away() {
    let mut router = Router::new(8080);
    let mut a = Agent::new(AgentId(2), "ws://127.0.0.1:8080");
    let mut b = Agent::new(AgentId(1), "ws://127.0.0.1:8080");
    let mut link_a = dial(0);
    let mut link_b = dial(0);
    settle(&mut router, &mut [(&mut a, &mut link_a), (&mut b, &mut link_b)], 0);

    assert_eq!(
        router.on_session_event(&mut link_b.session, SessionEvent::Closed, 1),
        SessionAction::Close
    );
    assert_eq!(b.on_event(AgentEvent::Closed), AgentAction::Connect);

    a.push(hello());
    settle(&mut router, &mut [(&mut a, &mut link_a)], 2);
    assert_eq!(b.pop(), None);

    let mut link_b = dial(3);
    settle(&mut router, &mut [(&mut a, &mut link_a), (&mut b, &mut link_b)], 3);
    assert_eq!(link_b.session.state(), SessionState::Registered(AgentId(1)));
    assert_eq!(b.pop(), Some(hello()));
    assert_eq!(b.pop(), None);
}

#[test]
fn mail_sent_before_the_first_connection_of_its_owner_waits_too() {
    let mut router = Router::new(8080);
    let mut a = Agent::new(AgentId(2), "ws://127.0.0.1:8080");
    let mut link_a = dial(0);
    a.push(hello());
    settle(&mut router, &mut [(&mut a, &mut link_a)], 0);

    let mut b = Agent::new(AgentId(1), "ws://127.0.0.1:8080");
    let mut link_b = dial(40);
    settle(&mut router, &mut [(&mut b, &mut link_b)], 40);
    assert_eq!(b.pop(), Some(hello()));
}
