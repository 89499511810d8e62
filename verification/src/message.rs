//! The fixed wire payloads of the notification stream.
//!
//! A notification is a single unframed ASCII literal, sent as raw bytes
//! with nothing before or after it: `door_opened` for a transition to
//! the open state, `door_closed` for a transition to the closed state.

use vstd::prelude::*;
use crate::door::NotificationEvent;

verus! {

/// The exact bytes of the `door_opened` payload, as ASCII codes.
pub open spec fn spec_opened_payload() -> Seq<u8> {
    seq![100u8, 111u8, 111u8, 114u8, 95u8, 111u8, 112u8, 101u8, 110u8, 101u8, 100u8]
}

/// The exact bytes of the `door_closed` payload, as ASCII codes.
pub open spec fn spec_closed_payload() -> Seq<u8> {
    seq![100u8, 111u8, 111u8, 114u8, 95u8, 99u8, 108u8, 111u8, 115u8, 101u8, 100u8]
}

/// The payload that announces one notification event.
pub open spec fn spec_payload(ev: NotificationEvent) -> Seq<u8> {
    match ev {
        NotificationEvent::DoorOpened => spec_opened_payload(),
        NotificationEvent::DoorClosed => spec_closed_payload(),
    }
}

/// What a received payload means: the event whose payload it is, byte for
/// byte, or nothing when it is neither payload.
pub open spec fn spec_decode(bytes: Seq<u8>) -> Option<NotificationEvent> {
    if bytes == spec_opened_payload() {
        Some(NotificationEvent::DoorOpened)
    } else if bytes == spec_closed_payload() {
        Some(NotificationEvent::DoorClosed)
    } else {
        None
    }
}

/// Builds the payload bytes for one notification event.
pub fn payload_bytes(ev: NotificationEvent) -> (b: Vec<u8>)
    ensures
        b@ == spec_payload(ev),
{
    let mut b: Vec<u8> = Vec::new();
    b.push(100u8);
    b.push(111u8);
    b.push(111u8);
    b.push(114u8);
    b.push(95u8);
    match ev {
        NotificationEvent::DoorOpened => {
            b.push(111u8);
            b.push(112u8);
            b.push(101u8);
            b.push(110u8);
            b.push(101u8);
            b.push(100u8);
            assert(b@ =~= spec_opened_payload());
        }
        NotificationEvent::DoorClosed => {
            b.push(99u8);
            b.push(108u8);
            b.push(111u8);
            b.push(115u8);
            b.push(101u8);
            b.push(100u8);
            assert(b@ =~= spec_closed_payload());
        }
    }
    b
}

/// Compares two byte vectors for equality of their contents.
fn bytes_equal(a: &Vec<u8>, b: &Vec<u8>) -> (r: bool)
    ensures
        r == (a@ == b@),
{
    if a.len() != b.len() {
        return false;
    }
    let mut i: usize = 0;
    while i < a.len()
        invariant
            a@.len() == b@.len(),
            0 <= i <= a@.len(),
            forall|j: int| 0 <= j < i ==> a@[j] == b@[j],
        decreases a@.len() - i,
    {
        if a[i] != b[i] {
            return false;
        }
        i = i + 1;
    }
    proof {
        assert(a@ =~= b@);
    }
    true
}

/// Decodes a received payload back to the event it announces.
pub fn decode_payload(bytes: &Vec<u8>) -> (r: Option<NotificationEvent>)
    ensures
        r == spec_decode(bytes@),
{
    let opened = payload_bytes(NotificationEvent::DoorOpened);
    let closed = payload_bytes(NotificationEvent::DoorClosed);
    if bytes_equal(bytes, &opened) {
        Some(NotificationEvent::DoorOpened)
    } else if bytes_equal(bytes, &closed) {
        Some(NotificationEvent::DoorClosed)
    } else {
        None
    }
}

/// The two payloads differ, so a payload decodes to the one event that
/// produced it.
pub proof fn lemma_payloads_distinct()
    ensures
        spec_opened_payload() != spec_closed_payload(),
{
    assert(spec_opened_payload()[5] == 111u8);
    assert(spec_closed_payload()[5] == 99u8);
}

/// Round trip: the payload built for an event decodes back to exactly
/// that event, with no bytes before or after the literal.
pub proof fn lemma_payload_round_trip(ev: NotificationEvent)
    ensures
        spec_decode(spec_payload(ev)) == Some(ev),
{
    lemma_payloads_distinct();
}

} // verus!
