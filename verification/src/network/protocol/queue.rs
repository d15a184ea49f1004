use vstd::prelude::*;
use super::{PrioritizedMessage, ProtocolMessage, FLOW_CONTROL_WINDOW, MAX_INFLIGHT_MESSAGES};

verus! {

/// Position `i` holds a message of the highest priority in `s`, and no earlier
/// position holds one of that priority: it is the message served next.
pub open spec fn is_next_served(s: Seq<PrioritizedMessage>, i: int) -> bool {
    &&& 0 <= i < s.len()
    &&& forall|j: int| 0 <= j < s.len() ==> s[j].priority <= s[i].priority
    &&& forall|j: int| 0 <= j < i ==> s[j].priority < s[i].priority
}

/// Messages waiting to be served, highest priority first and, among equal
/// priorities, in the order they arrived.
struct PriorityQueue {
    items: Vec<PrioritizedMessage>,
}

impl PriorityQueue {
    fn new() -> (q: Self)
        ensures
            q.items@ == Seq::<PrioritizedMessage>::empty(),
    {
        PriorityQueue { items: Vec::new() }
    }

    fn push(&mut self, item: PrioritizedMessage)
        ensures
            final(self).items@ == old(self).items@.push(item),
    {
        self.items.push(item);
    }

    fn pop(&mut self) -> (r: Option<PrioritizedMessage>)
        ensures
            old(self).items@.len() == 0 ==> r is None && final(self).items@ == old(self).items@,
            old(self).items@.len() > 0 ==> exists|i: int|
                is_next_served(old(self).items@, i) && r == Some(old(self).items@[i])
                    && final(self).items@ == old(self).items@.remove(i),
    {
        if self.items.len() == 0 {
            return None;
        }
        let mut best: usize = 0;
        let mut k: usize = 1;
        while k < self.items.len()
            invariant
                0 <= best < k <= self.items@.len(),
                forall|j: int| 0 <= j < k ==> self.items@[j].priority <= self.items@[best as int].priority,
                forall|j: int| 0 <= j < best ==> self.items@[j].priority < self.items@[best as int].priority,
            decreases self.items@.len() - k,
        {
            if self.items[k].priority > self.items[best].priority {
                best = k;
            }
            k = k + 1;
        }
        let item = self.items.remove(best);
        assert(is_next_served(old(self).items@, best as int));
        Some(item)
    }

    fn len(&self) -> (n: usize)
        ensures
            n == self.items@.len(),
    {
        self.items.len()
    }
}

/// Outbound and inbound message queues with credit-based flow control.
///
/// An outbound message is accepted only while credit remains, and each accepted
/// message uses one credit; credit granted by the peer adds to it. Inbound
/// messages are accepted up to the flow-control window.
pub struct MessageQueue {
    outbound: PriorityQueue,
    inbound: PriorityQueue,
    outbound_credit: usize,
    inbound_window: usize,
}

impl MessageQueue {
    /// The outbound messages, in arrival order.
    pub closed spec fn outbound_spec(&self) -> Seq<PrioritizedMessage> {
        self.outbound.items@
    }

    /// The inbound messages, in arrival order.
    pub closed spec fn inbound_spec(&self) -> Seq<PrioritizedMessage> {
        self.inbound.items@
    }

    /// How many more outbound messages may be queued.
    pub closed spec fn credit_spec(&self) -> nat {
        self.outbound_credit as nat
    }

    /// How many inbound messages the queue holds at most.
    pub closed spec fn window_spec(&self) -> nat {
        self.inbound_window as nat
    }

    /// Empty queues, with the full in-flight credit and the standard window.
    pub fn new() -> (q: Self)
        ensures
            q.outbound_spec() == Seq::<PrioritizedMessage>::empty(),
            q.inbound_spec() == Seq::<PrioritizedMessage>::empty(),
            q.credit_spec() == MAX_INFLIGHT_MESSAGES,
            q.window_spec() == FLOW_CONTROL_WINDOW,
    {
        MessageQueue {
            outbound: PriorityQueue::new(),
            inbound: PriorityQueue::new(),
            outbound_credit: MAX_INFLIGHT_MESSAGES,
            inbound_window: FLOW_CONTROL_WINDOW,
        }
    }

    /// Queues a message for sending if credit remains, using one credit;
    /// without credit the message is dropped.
    pub fn enqueue_outbound(&mut self, message: ProtocolMessage, priority: u8)
        ensures
            old(self).credit_spec() > 0 ==> final(self).outbound_spec() == old(self).outbound_spec().push(
                PrioritizedMessage { priority, message },
            ) && final(self).credit_spec() == old(self).credit_spec() - 1,
            old(self).credit_spec() == 0 ==> final(self).outbound_spec() == old(self).outbound_spec()
                && final(self).credit_spec() == 0,
            final(self).inbound_spec() == old(self).inbound_spec(),
            final(self).window_spec() == old(self).window_spec(),
    {
        if self.outbound_credit > 0 {
            self.outbound.push(PrioritizedMessage { priority, message });
            self.outbound_credit = self.outbound_credit - 1;
        }
    }

    /// Takes the next outbound message to send: one of highest priority,
    /// the earliest among those.
    pub fn dequeue_outbound(&mut self) -> (r: Option<ProtocolMessage>)
        ensures
            old(self).outbound_spec().len() == 0 ==> r is None
                && final(self).outbound_spec() == old(self).outbound_spec(),
            old(self).outbound_spec().len() > 0 ==> exists|i: int|
                is_next_served(old(self).outbound_spec(), i)
                    && r == Some(old(self).outbound_spec()[i].message)
                    && final(self).outbound_spec() == old(self).outbound_spec().remove(i),
            final(self).inbound_spec() == old(self).inbound_spec(),
            final(self).credit_spec() == old(self).credit_spec(),
            final(self).window_spec() == old(self).window_spec(),
    {
        match self.outbound.pop() {
            Some(p) => Some(p.message),
            None => None,
        }
    }

    /// Accepts an inbound message. Once the window is full, the credit left in
    /// the window (none, at that point) is offered back to the sender.
    pub fn enqueue_inbound(&mut self, message: ProtocolMessage, priority: u8)
        requires
            old(self).inbound_spec().len() < old(self).window_spec(),
        ensures
            final(self).inbound_spec() == old(self).inbound_spec().push(PrioritizedMessage { priority, message }),
            final(self).outbound_spec() == old(self).outbound_spec(),
            final(self).credit_spec() == old(self).credit_spec(),
            final(self).window_spec() == old(self).window_spec(),
    {
        self.inbound.push(PrioritizedMessage { priority, message });
        if self.inbound.len() >= self.inbound_window {
            self.send_flow_control();
        }
    }

    /// Takes the next inbound message to handle: one of highest priority,
    /// the earliest among those.
    pub fn dequeue_inbound(&mut self) -> (r: Option<ProtocolMessage>)
        ensures
            old(self).inbound_spec().len() == 0 ==> r is None
                && final(self).inbound_spec() == old(self).inbound_spec(),
            old(self).inbound_spec().len() > 0 ==> exists|i: int|
                is_next_served(old(self).inbound_spec(), i)
                    && r == Some(old(self).inbound_spec()[i].message)
                    && final(self).inbound_spec() == old(self).inbound_spec().remove(i),
            final(self).outbound_spec() == old(self).outbound_spec(),
            final(self).credit_spec() == old(self).credit_spec(),
            final(self).window_spec() == old(self).window_spec(),
    {
        match self.inbound.pop() {
            Some(p) => Some(p.message),
            None => None,
        }
    }

    /// Offers the room left in the inbound window to the sender as credit.
    fn send_flow_control(&mut self)
        requires
            old(self).inbound.items@.len() <= old(self).inbound_window,
        ensures
            old(self).inbound_window - old(self).inbound.items@.len() > 0 && old(self).outbound_credit > 0
                ==> final(self).outbound.items@ == old(self).outbound.items@.push(PrioritizedMessage {
                    priority: 0,
                    message: ProtocolMessage::FlowControlCredit {
                        credit: (old(self).inbound_window - old(self).inbound.items@.len()) as usize,
                    },
                }) && final(self).outbound_credit == old(self).outbound_credit - 1,
            !(old(self).inbound_window - old(self).inbound.items@.len() > 0 && old(self).outbound_credit > 0)
                ==> final(self).outbound.items@ == old(self).outbound.items@
                && final(self).outbound_credit == old(self).outbound_credit,
            final(self).inbound.items@ == old(self).inbound.items@,
            final(self).inbound_window == old(self).inbound_window,
    {
        let credit = self.inbound_window - self.inbound.len();
        if credit > 0 {
            self.enqueue_outbound(ProtocolMessage::FlowControlCredit { credit }, 0);
        }
    }

    /// Adds credit granted by the peer.
    pub fn receive_flow_control(&mut self, credit: usize)
        requires
            old(self).credit_spec() + credit <= usize::MAX,
        ensures
            final(self).credit_spec() == old(self).credit_spec() + credit,
            final(self).outbound_spec() == old(self).outbound_spec(),
            final(self).inbound_spec() == old(self).inbound_spec(),
            final(self).window_spec() == old(self).window_spec(),
    {
        self.outbound_credit = self.outbound_credit + credit;
    }
}

} // verus!
