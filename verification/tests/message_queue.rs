use zephyrchain::network::protocol::{MessageQueue, ProtocolMessage, FLOW_CONTROL_WINDOW, MAX_INFLIGHT_MESSAGES};

fn credit(n: usize) -> ProtocolMessage {
    ProtocolMessage::FlowControlCredit { credit: n }
}

#[test]
fn outbound_serves_highest_priority_first() {
    let mut q = MessageQueue::new();
    q.enqueue_outbound(ProtocolMessage::Ping, 1);
    q.enqueue_outbound(ProtocolMessage::Pong, 5);
    q.enqueue_outbound(ProtocolMessage::FlowControlAck, 3);
    assert_eq!(q.dequeue_outbound(), Some(ProtocolMessage::Pong));
    assert_eq!(q.dequeue_outbound(), Some(ProtocolMessage::FlowControlAck));
    assert_eq!(q.dequeue_outbound(), Some(ProtocolMessage::Ping));
    assert_eq!(q.dequeue_outbound(), None);
}

#[test]
fn equal_priorities_leave_in_arrival_order() {
    let mut q = MessageQueue::new();
    q.enqueue_outbound(credit(1), 2);
    q.enqueue_outbound(credit(2), 2);
    q.enqueue_outbound(credit(3), 2);
    assert_eq!(q.dequeue_outbound(), Some(credit(1)));
    assert_eq!(q.dequeue_outbound(), Some(credit(2)));
    assert_eq!(q.dequeue_outbound(), Some(credit(3)));
}

#[test]
fn outbound_stops_when_credit_runs_out() {
    let mut q = MessageQueue::new();
    for i in 0..MAX_INFLIGHT_MESSAGES + 5 {
        q.enqueue_outbound(credit(i), 0);
    }
    let mut served = 0;
    while let Some(m) = q.dequeue_outbound() {
        assert_eq!(m, credit(served));
        served += 1;
    }
    assert_eq!(served, MAX_INFLIGHT_MESSAGES);
}

#[test]
fn granted_credit_allows_more_messages() {
    let mut q = MessageQueue::new();
    for i in 0..MAX_INFLIGHT_MESSAGES {
        q.enqueue_outbound(credit(i), 0);
    }
    q.enqueue_outbound(ProtocolMessage::Ping, 9);
    q.receive_flow_control(1);
    q.enqueue_outbound(ProtocolMessage::Pong, 9);
    assert_eq!(q.dequeue_outbound(), Some(ProtocolMessage::Pong));
    assert_eq!(q.dequeue_outbound(), Some(credit(0)));
}

#[test]
fn inbound_serves_highest_priority_first() {
    let mut q = MessageQueue::new();
    q.enqueue_inbound(ProtocolMessage::Ping, 0);
    q.enqueue_inbound(ProtocolMessage::Pong, 200);
    assert_eq!(q.dequeue_inbound(), Some(ProtocolMessage::Pong));
    assert_eq!(q.dequeue_inbound(), Some(ProtocolMessage::Ping));
    assert_eq!(q.dequeue_inbound(), None);
}

#[test]
fn filling_the_inbound_window_sends_no_credit() {
    let mut q = MessageQueue::new();
    for i in 0..FLOW_CONTROL_WINDOW {
        q.enqueue_inbound(credit(i), 1);
    }
    assert_eq!(q.dequeue_outbound(), None);
    assert_eq!(q.dequeue_inbound(), Some(credit(0)));
}

#[test]
fn inbound_and_outbound_are_separate() {
    let mut q = MessageQueue::new();
    q.enqueue_inbound(ProtocolMessage::Ping, 1);
    assert_eq!(q.dequeue_outbound(), None);
    q.enqueue_outbound(ProtocolMessage::Pong, 1);
    assert_eq!(q.dequeue_inbound(), Some(ProtocolMessage::Ping));
    assert_eq!(q.dequeue_inbound(), None);
    assert_eq!(q.dequeue_outbound(), Some(ProtocolMessage::Pong));
}
