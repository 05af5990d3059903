//! The mailbox store: what waits for whom, first in, first out.

use crate::agent_id::AgentId;
use crate::message::{views, Message, MessageView};
use std::collections::{HashMap, VecDeque};
use vstd::prelude::*;

verus! {

broadcast use vstd::std_specs::hash::group_hash_axioms;

/// For every identity the messages that wait for it, oldest first. Every
/// identity has a mailbox; one that never got a message has the empty one.
pub type Mailboxes = Map<AgentId, Seq<MessageView>>;

/// The mailboxes in which nothing waits for anybody.
pub open spec fn no_mail() -> Mailboxes {
    Map::total(|id: AgentId| Seq::<MessageView>::empty())
}

/// `mail` with `m` at the tail of the mailbox of its destination.
pub open spec fn delivered(mail: Mailboxes, m: MessageView) -> Mailboxes {
    mail.insert(m.header.dst_agent_id, mail[m.header.dst_agent_id].push(m))
}

/// `mail` without the oldest message that waits for `id`; `mail` itself
/// where none waits.
pub open spec fn collected(mail: Mailboxes, id: AgentId) -> Mailboxes {
    if mail[id].len() > 0 {
        mail.insert(id, mail[id].drop_first())
    } else {
        mail
    }
}

/// Every identity has a mailbox, and every message waits in the mailbox of
/// its own destination.
pub open spec fn well_routed(mail: Mailboxes) -> bool {
    &&& forall|id: AgentId| #[trigger] mail.contains_key(id)
    &&& forall|id: AgentId, i: int|
        0 <= i < mail[id].len() ==> (#[trigger] mail[id][i]).header.dst_agent_id == id
}

/// The mailbox store of a router.
pub struct MessageQueues {
    queues: HashMap<u32, VecDeque<Message>>,
}

impl View for MessageQueues {
    type V = Mailboxes;

    closed spec fn view(&self) -> Mailboxes {
        Map::total(|id: AgentId| self.queue(id))
    }
}

impl MessageQueues {
    /// The messages that wait for `id`: those of its queue, none where it
    /// has no queue yet.
    spec fn queue(&self, id: AgentId) -> Seq<MessageView> {
        if self.queues@.contains_key(id.0) {
            views(self.queues@[id.0]@)
        } else {
            Seq::empty()
        }
    }

    /// Every message is held in the queue of its own destination.
    #[verifier::type_invariant]
    spec fn sorted_by_destination(&self) -> bool {
        forall|key: u32, i: int|
            self.queues@.contains_key(key) && 0 <= i < self.queues@[key]@.len() ==> (
            #[trigger] self.queues@[key]@[i]).header.dst_agent_id == AgentId(key)
    }

    /// A store in which nothing waits for anybody.
    pub fn new() -> (s: Self)
        ensures
            s@ == no_mail(),
    {
        let s = MessageQueues { queues: HashMap::new() };
        assert(s@ =~= no_mail());
        s
    }

    /// Puts `message` at the tail of the mailbox of its destination. No other
    /// mailbox changes.
    pub fn push(&mut self, message: Message)
        ensures
            final(self)@ == delivered(old(self)@, message@),
            well_routed(final(self)@),
    {
        proof {
            use_type_invariant(&*self);
        }
        let key: u32 = message.header.dst_agent_id.0;
        // The table is worked on outside the store and put back whole.
        let mut queues: HashMap<u32, VecDeque<Message>> = HashMap::new();
        std::mem::swap(&mut self.queues, &mut queues);
        let mut queue: VecDeque<Message> = match queues.remove(&key) {
            Some(queue) => queue,
            None => VecDeque::new(),
        };
        let ghost before: Seq<Message> = queue@;
        queue.push_back(message);
        assert(views(queue@) =~= views(before).push(message@));
        queues.insert(key, queue);
        self.queues = queues;
        proof {
            assert forall|id: AgentId| #[trigger]
                self@[id] == delivered(old(self)@, message@)[id] by {
                assert(id != message.header.dst_agent_id ==> id.0 != key);
            }
            assert(self@ =~= delivered(old(self)@, message@));
        }
    }

    /// How many messages wait for `agent_id`. The store sets no bound on
    /// this number; it is for its owner to watch.
    pub fn pending(&self, agent_id: AgentId) -> (n: usize)
        ensures
            n == self@[agent_id].len(),
    {
        match self.queues.get(&agent_id.0) {
            Some(queue) => queue.len(),
            None => 0,
        }
    }

    /// Takes the oldest message that waits for `agent_id`, if there is one.
    /// No other mailbox changes. Never waits.
    pub fn pop(&mut self, agent_id: AgentId) -> (r: Option<Message>)
        ensures
            match r {
                Some(m) => {
                    &&& old(self)@[agent_id].len() > 0
                    &&& m@ == old(self)@[agent_id][0]
                    &&& m.header.dst_agent_id == agent_id
                    &&& final(self)@ == collected(old(self)@, agent_id)
                },
                None => {
                    &&& old(self)@[agent_id].len() == 0
                    &&& final(self)@ == old(self)@
                },
            },
            well_routed(final(self)@),
    {
        proof {
            use_type_invariant(&*self);
        }
        let key: u32 = agent_id.0;
        let mut queues: HashMap<u32, VecDeque<Message>> = HashMap::new();
        std::mem::swap(&mut self.queues, &mut queues);
        let head: Option<Message> = match queues.remove(&key) {
            None => None,
            Some(queue) => {
                let mut queue: VecDeque<Message> = queue;
                let ghost before: Seq<Message> = queue@;
                let head: Option<Message> = queue.pop_front();
                assert(before.len() > 0 ==> views(queue@) =~= views(before).drop_first());
                queues.insert(key, queue);
                head
            },
        };
        self.queues = queues;
        proof {
            let expected: Mailboxes = if head is Some {
                collected(old(self)@, agent_id)
            } else {
                old(self)@
            };
            assert forall|id: AgentId| #[trigger] self@[id] == expected[id] by {
                assert(id != agent_id ==> id.0 != key);
            }
            assert(self@ =~= expected);
        }
        head
    }
}

/// In well-routed mailboxes no message for `a` waits in the mailbox of
/// another identity `b`: taking from `b` never gives a message for `a`.
pub proof fn lemma_isolation(mail: Mailboxes, a: AgentId, b: AgentId, i: int)
    requires
        well_routed(mail),
        a != b,
        0 <= i < mail[b].len(),
    ensures
        mail[b][i].header.dst_agent_id != a,
{
}

/// Empty mailboxes are well routed, and putting in and taking out keep
/// mailboxes well routed.
pub proof fn lemma_well_routed(mail: Mailboxes, m: MessageView, id: AgentId)
    requires
        well_routed(mail),
    ensures
        well_routed(no_mail()),
        well_routed(delivered(mail, m)),
        well_routed(collected(mail, id)),
{
    let d = delivered(mail, m);
    assert forall|x: AgentId, i: int| 0 <= i < d[x].len() implies (
    #[trigger] d[x][i]).header.dst_agent_id == x by {
        if x == m.header.dst_agent_id && i < mail[x].len() {
            assert(d[x][i] == mail[x][i]);
        }
    }
    let c = collected(mail, id);
    assert forall|x: AgentId, i: int| 0 <= i < c[x].len() implies (
    #[trigger] c[x][i]).header.dst_agent_id == x by {
        if x == id {
            assert(c[x][i] == mail[x][i + 1]);
        }
    }
}

/// `mail` after each of `ms` was put in, in order.
pub open spec fn delivered_all(mail: Mailboxes, ms: Seq<MessageView>) -> Mailboxes
    decreases ms.len(),
{
    if ms.len() == 0 {
        mail
    } else {
        delivered(delivered_all(mail, ms.drop_last()), ms.last())
    }
}

/// `mail` after the `n` oldest messages for `id` were taken out.
pub open spec fn collected_n(mail: Mailboxes, id: AgentId, n: nat) -> Mailboxes
    decreases n,
{
    if n == 0 {
        mail
    } else {
        collected(collected_n(mail, id, (n - 1) as nat), id)
    }
}

/// First in, first out: messages put in for one destination wait there in
/// the order in which they were put in, behind what waited before.
pub proof fn lemma_fifo_push(mail: Mailboxes, ms: Seq<MessageView>, dst: AgentId)
    requires
        forall|i: int| 0 <= i < ms.len() ==> (#[trigger] ms[i]).header.dst_agent_id == dst,
    ensures
        delivered_all(mail, ms)[dst] == mail[dst] + ms,
        forall|id: AgentId| id != dst ==> #[trigger] delivered_all(mail, ms)[id] == mail[id],
    decreases ms.len(),
{
    if ms.len() == 0 {
        assert(mail[dst] + ms =~= mail[dst]);
    } else {
        lemma_fifo_push(mail, ms.drop_last(), dst);
        assert(ms.last().header.dst_agent_id == dst);
        assert((mail[dst] + ms.drop_last()).push(ms.last()) =~= mail[dst] + ms);
    }
}

/// First in, first out: the `k`-th take from a mailbox gives the message
/// that was `k`-th in it, and after `n` takes the first `n` are gone.
pub proof fn lemma_fifo_pop(mail: Mailboxes, id: AgentId, n: nat)
    requires
        n <= mail[id].len(),
    ensures
        collected_n(mail, id, n)[id] == mail[id].skip(n as int),
        n < mail[id].len() ==> collected_n(mail, id, n)[id][0] == mail[id][n as int],
        forall|other: AgentId|
            other != id ==> #[trigger] collected_n(mail, id, n)[other] == mail[other],
    decreases n,
{
    if n == 0 {
        assert(mail[id].skip(0) =~= mail[id]);
    } else {
        lemma_fifo_pop(mail, id, (n - 1) as nat);
        assert(mail[id].skip(n - 1).drop_first() =~= mail[id].skip(n as int));
    }
}

} // verus!
