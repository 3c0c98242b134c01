use sd_rust::event::{EventData, EventType};
use sd_rust::protocol::{protocol, InternalRoute, Outcome, ProtocolError, Request, Subscriptions};

#[test]
fn protocol_reads_subscribe_and_unsubscribe() {
    assert_eq!(protocol(&[0, 2]), Ok(Request::Subscribe(EventType::PointerDown)));
    assert_eq!(protocol(&[1, 4]), Ok(Request::Unsubscribe(EventType::PointerMove)));
    assert_eq!(protocol(&[0, 0, 99]), Ok(Request::Subscribe(EventType::PointerConnected)));
}

#[test]
fn protocol_refuses_unknown_event() {
    assert_eq!(protocol(&[0, 5]), Err(ProtocolError::InvalidFrame));
    assert_eq!(protocol(&[7, 9]), Err(ProtocolError::InvalidFrame));
}

#[test]
fn protocol_refuses_unknown_opcode() {
    assert_eq!(protocol(&[2, 1]), Err(ProtocolError::InvalidFrame));
    assert_eq!(protocol(&[0xff, 0]), Err(ProtocolError::InvalidFrame));
}

#[test]
fn subscriptions_add_once() {
    let mut s = Subscriptions::new();
    assert_eq!(s.apply(&[0, 3]), Outcome::Added(EventType::PointerUp));
    assert_eq!(s.apply(&[0, 3]), Outcome::AlreadySubscribed(EventType::PointerUp));
    assert_eq!(s.apply(&[0, 1]), Outcome::Added(EventType::PointerDisconnected));
    assert_eq!(s.events(), &vec![EventType::PointerUp, EventType::PointerDisconnected]);
    assert!(s.contains(EventType::PointerUp));
    assert!(!s.contains(EventType::PointerDown));
}

#[test]
fn subscriptions_remove_keeps_order() {
    let mut s = Subscriptions::new();
    s.apply(&[0, 0]);
    s.apply(&[0, 2]);
    s.apply(&[0, 4]);
    assert_eq!(s.apply(&[1, 2]), Outcome::Removed(EventType::PointerDown));
    assert_eq!(s.events(), &vec![EventType::PointerConnected, EventType::PointerMove]);
    assert_eq!(s.apply(&[1, 2]), Outcome::Removed(EventType::PointerDown));
    assert_eq!(s.events(), &vec![EventType::PointerConnected, EventType::PointerMove]);
}

#[test]
fn subscriptions_reject_bad_frame() {
    let mut s = Subscriptions::new();
    s.apply(&[0, 1]);
    assert_eq!(s.apply(&[3, 1]), Outcome::Rejected(ProtocolError::InvalidFrame));
    assert_eq!(s.apply(&[0, 8]), Outcome::Rejected(ProtocolError::InvalidFrame));
    assert_eq!(s.events(), &vec![EventType::PointerDisconnected]);
}

#[test]
fn subscribe_then_unsubscribe_restores() {
    let mut s = Subscriptions::new();
    s.apply(&[0, 4]);
    let before = s.events().clone();
    s.apply(&[0, 0]);
    s.apply(&[1, 0]);
    assert_eq!(s.events(), &before);
}

#[test]
fn route_cases() {
    let mut s = Subscriptions::new();
    s.apply(&[0, 2]);
    assert_eq!(s.route(&[]), InternalRoute::Empty);
    assert_eq!(s.route(&[0]), InternalRoute::Quit);
    assert_eq!(s.route(&[0, 9, 9]), InternalRoute::Quit);
    assert_eq!(s.route(&[5]), InternalRoute::Malformed);
    assert_eq!(s.route(&[5, 9]), InternalRoute::Malformed);
    assert_eq!(s.route(&[3, 2, 0]), InternalRoute::Forward(EventType::PointerDown));
    assert_eq!(s.route(&[3, 4, 0]), InternalRoute::NotSubscribed(EventType::PointerMove));
}

#[test]
fn route_follows_subscriptions() {
    let mut s = Subscriptions::new();
    let msg = [8u8, 1, 0];
    assert_eq!(s.route(&msg), InternalRoute::NotSubscribed(EventType::PointerDisconnected));
    s.apply(&[0, 1]);
    assert_eq!(s.route(&msg), InternalRoute::Forward(EventType::PointerDisconnected));
    s.apply(&[1, 1]);
    assert_eq!(s.route(&msg), InternalRoute::NotSubscribed(EventType::PointerDisconnected));
}

#[test]
fn published_events_are_filed_as_pointer_up() {
    let mut s = Subscriptions::new();
    let d = EventData::PointerDown { pointer: 0, button: 0, x: 16, y: 16 }.bytes();
    assert_eq!(s.route(&d[..]), InternalRoute::NotSubscribed(EventType::PointerUp));
    s.apply(&[0, 3]);
    assert_eq!(s.route(&d[..]), InternalRoute::Forward(EventType::PointerUp));
    let c = EventData::PointerConnected(0).bytes();
    assert_eq!(s.route(&c[..]), InternalRoute::Forward(EventType::PointerUp));
}
