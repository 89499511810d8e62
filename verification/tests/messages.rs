use door_node::door::{door_state_of_level, transition_event, DoorState, NotificationEvent};
use door_node::message::{decode_payload, payload_bytes};

#[test]
fn opened_payload_is_the_exact_literal() {
    assert_eq!(payload_bytes(NotificationEvent::DoorOpened), b"door_opened".to_vec());
}

#[test]
fn closed_payload_is_the_exact_literal() {
    assert_eq!(payload_bytes(NotificationEvent::DoorClosed), b"door_closed".to_vec());
}

#[test]
fn closed_to_open_round_trips_over_the_wire() {
    let ev = transition_event(DoorState::Closed, DoorState::Open);
    assert_eq!(ev, Some(NotificationEvent::DoorOpened));
    let bytes = payload_bytes(ev.unwrap());
    assert_eq!(decode_payload(&bytes), Some(NotificationEvent::DoorOpened));
}

#[test]
fn open_to_closed_round_trips_over_the_wire() {
    let ev = transition_event(DoorState::Open, DoorState::Closed);
    assert_eq!(ev, Some(NotificationEvent::DoorClosed));
    let bytes = payload_bytes(ev.unwrap());
    assert_eq!(decode_payload(&bytes), Some(NotificationEvent::DoorClosed));
}

#[test]
fn unchanged_state_has_no_event() {
    assert_eq!(transition_event(DoorState::Open, DoorState::Open), None);
    assert_eq!(transition_event(DoorState::Closed, DoorState::Closed), None);
}

#[test]
fn levels_map_to_door_states() {
    assert_eq!(door_state_of_level(true), DoorState::Open);
    assert_eq!(door_state_of_level(false), DoorState::Closed);
}

#[test]
fn foreign_bytes_do_not_decode() {
    assert_eq!(decode_payload(&Vec::new()), None);
    assert_eq!(decode_payload(&b"door_open".to_vec()), None);
    assert_eq!(decode_payload(&b"door_opened!".to_vec()), None);
    assert_eq!(decode_payload(&b"DOOR_OPENED".to_vec()), None);
    assert_eq!(decode_payload(&b"door_closet".to_vec()), None);
}
