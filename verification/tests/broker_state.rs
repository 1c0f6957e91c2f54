//! The broker's correlation state and the listener's slot table, driven
//! through the same sequences of events the server loop would feed them.
use wssrock::broker::Broker;
use wssrock::request::command::Origin;
use wssrock::request::{EventType, Request};
use wssrock::slots::{PeerAddr, SlotError, Slots};

fn command_with_id(id: u128) -> Request {
    let mut request = Request::command(String::from("say hi"), Origin::Player);
    match &mut request {
        Request::Command(c) => c.header.request_id = id,
        _ => unreachable!(),
    }
    request
}

#[test]
fn correlation_uniqueness_scenario() {
    // Two concurrent commands with distinct identifiers: each response is
    // delivered to the channel that submitted that identifier, and only once.
    let mut broker = Broker::new();
    broker.on_client_request(&command_with_id(7), 101);
    broker.on_client_request(&command_with_id(9), 202);
    assert_eq!(broker.on_response(9), Some(202));
    assert_eq!(broker.on_response(7), Some(101));
    assert_eq!(broker.on_response(7), None);
    assert_eq!(broker.on_response(9), None);
}

#[test]
fn orphan_response_is_dropped() {
    // A response whose identifier matches no waiter is reported as such and
    // leaves the state unchanged.
    let mut broker = Broker::new();
    broker.on_client_request(&command_with_id(7), 101);
    assert_eq!(broker.on_response(8), None);
    assert_eq!(broker.on_response(7), Some(101));
}

#[test]
fn fan_out_order_and_exclusivity() {
    let mut broker = Broker::new();
    broker.on_client_request(&Request::subscribe(EventType::PlayerMessage), 1);
    broker.on_client_request(&Request::subscribe(EventType::PlayerMessage), 2);
    broker.on_client_request(&Request::subscribe(EventType::PlayerMessage), 3);
    // No connection closed: every subscriber gets the event, in
    // registration order.
    let live = broker.on_event(EventType::PlayerMessage, &vec![]);
    assert_eq!(live, vec![1, 2, 3]);
    // A command waiter is not a subscriber: it receives no event.
    broker.on_client_request(&command_with_id(7), 99);
    let live = broker.on_event(EventType::PlayerMessage, &vec![]);
    assert!(!live.contains(&99));
    assert_eq!(broker.on_response(7), Some(99));
}

#[test]
fn pruning_removes_closed_subscribers() {
    let mut broker = Broker::new();
    broker.on_client_request(&Request::subscribe(EventType::PlayerMessage), 1);
    broker.on_client_request(&Request::subscribe(EventType::PlayerMessage), 2);
    broker.on_client_request(&Request::subscribe(EventType::PlayerMessage), 3);
    let live = broker.on_event(EventType::PlayerMessage, &vec![2]);
    assert_eq!(live, vec![1, 3]);
    // Repeated notification cycles with the same closed set reach a fixed
    // point: the list does not grow and stays pruned.
    let live = broker.on_event(EventType::PlayerMessage, &vec![2]);
    assert_eq!(live, vec![1, 3]);
    let live = broker.on_event(EventType::PlayerMessage, &vec![1, 3]);
    assert_eq!(live, Vec::<u64>::new());
    let live = broker.on_event(EventType::PlayerMessage, &vec![]);
    assert_eq!(live, Vec::<u64>::new());
}

#[test]
fn address_slot_exclusivity() {
    let mut slots = Slots::new();
    let addr = PeerAddr { ip: 0x7f000001, port: 40000 };
    assert_eq!(slots.accept(addr), Ok(()));
    // A second connection from the same address while the first handler
    // lives is the fatal listener condition.
    assert_eq!(slots.accept(addr), Err(SlotError::AddressOccupied));
    // Once the handler is observed finished and pruned, the address may
    // connect again.
    slots.prune(&vec![addr]);
    assert_eq!(slots.accept(addr), Ok(()));
}

#[test]
fn slot_pruning_keeps_other_slots() {
    let mut slots = Slots::new();
    let a = PeerAddr { ip: 1, port: 1 };
    let b = PeerAddr { ip: 2, port: 2 };
    assert_eq!(slots.accept(a), Ok(()));
    assert_eq!(slots.accept(b), Ok(()));
    slots.prune(&vec![a]);
    assert_eq!(slots.accept(a), Ok(()));
    assert_eq!(slots.accept(b), Err(SlotError::AddressOccupied));
}

#[test]
fn subscribe_then_command_state_is_independent() {
    let mut broker = Broker::new();
    broker.on_client_request(&Request::subscribe(EventType::PlayerMessage), 5);
    broker.on_client_request(&command_with_id(42), 5);
    // The response consumes the waiter but leaves the subscription alone.
    assert_eq!(broker.on_response(42), Some(5));
    let live = broker.on_event(EventType::PlayerMessage, &vec![]);
    assert_eq!(live, vec![5]);
}
