use ws_rpc::{AgentId, Message, MessageHeader, MessageQueues, RequestId};

fn to(dst: u32, request: u64) -> Message {
    Message {
        header: MessageHeader {
            src_agent_id: AgentId(9),
            dst_agent_id: AgentId(dst),
            request_id: RequestId(request),
        },
        body: vec![request as u8],
    }
}

#[test]
fn pop_on_a_new_store_gives_nothing() {
    let mut store = MessageQueues::new();
    assert_eq!(store.pop(AgentId(1)), None);
    assert_eq!(store.pop(AgentId(0)), None);
    assert_eq!(store.pop(AgentId(u32::MAX)), None);
}

#[test]
fn three_messages_come_out_in_the_order_they_went_in() {
    let mut store = MessageQueues::new();
    store.push(to(1, 1));
    store.push(to(1, 2));
    store.push(to(1, 3));
    assert_eq!(store.pop(AgentId(1)), Some(to(1, 1)));
    assert_eq!(store.pop(AgentId(1)), Some(to(1, 2)));
    assert_eq!(store.pop(AgentId(1)), Some(to(1, 3)));
    assert_eq!(store.pop(AgentId(1)), None);
}

#[test]
fn a_drained_mailbox_takes_messages_again() {
    let mut store = MessageQueues::new();
    store.push(to(4, 1));
    assert_eq!(store.pop(AgentId(4)), Some(to(4, 1)));
    assert_eq!(store.pop(AgentId(4)), None);
    store.push(to(4, 2));
    store.push(to(4, 3));
    assert_eq!(store.pop(AgentId(4)), Some(to(4, 2)));
    store.push(to(4, 4));
    assert_eq!(store.pop(AgentId(4)), Some(to(4, 3)));
    assert_eq!(store.pop(AgentId(4)), Some(to(4, 4)));
    assert_eq!(store.pop(AgentId(4)), None);
}

#[test]
fn a_message_is_never_given_to_another_identity() {
    let mut store = MessageQueues::new();
    store.push(to(1, 10));
    store.push(to(2, 20));
    store.push(to(1, 11));
    assert_eq!(store.pop(AgentId(3)), None);
    assert_eq!(store.pop(AgentId(2)), Some(to(2, 20)));
    assert_eq!(store.pop(AgentId(2)), None);
    assert_eq!(store.pop(AgentId(1)), Some(to(1, 10)));
    assert_eq!(store.pop(AgentId(1)), Some(to(1, 11)));
    assert_eq!(store.pop(AgentId(1)), None);
}

#[test]
fn every_popped_message_is_for_the_identity_asked() {
    let mut store = MessageQueues::new();
    for request in 0..60u64 {
        store.push(to((request % 5) as u32, request));
    }
    for id in 0..5u32 {
        let mut expected = id as u64;
        while let Some(m) = store.pop(AgentId(id)) {
            assert_eq!(m.header.dst_agent_id, AgentId(id));
            assert_eq!(m.header.request_id, RequestId(expected));
            expected += 5;
        }
        assert_eq!(expected, 60 + id as u64);
    }
}

#[test]
fn the_store_itself_holds_whatever_it_is_given() {
    let mut store = MessageQueues::new();
    store.push(to(0, 1));
    assert_eq!(store.pop(AgentId(1)), None);
    assert_eq!(store.pop(AgentId(0)), Some(to(0, 1)));
}

#[test]
fn pending_counts_what_waits() {
    let mut store = MessageQueues::new();
    assert_eq!(store.pending(AgentId(1)), 0);
    store.push(to(1, 1));
    store.push(to(1, 2));
    store.push(to(2, 3));
    assert_eq!(store.pending(AgentId(1)), 2);
    assert_eq!(store.pending(AgentId(2)), 1);
    assert_eq!(store.pending(AgentId(3)), 0);
    store.pop(AgentId(1));
    assert_eq!(store.pending(AgentId(1)), 1);
    store.pop(AgentId(1));
    store.pop(AgentId(1));
    assert_eq!(store.pending(AgentId(1)), 0);
    assert_eq!(store.pending(AgentId(2)), 1);
}
