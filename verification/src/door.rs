//! The two-state model of the monitored door and the events that report
//! its transitions.

use vstd::prelude::*;

verus! {

/// State of the door, derived from the digital level of the single
/// monitored input: a logically high level means the door is open,
/// a low level means it is closed.
#[derive(Clone, Copy, Debug, PartialEq, Eq, Structural)]
pub enum DoorState {
    Open,
    Closed,
}

/// A notification sent to the remote listener when the latched door
/// state changes. Each variant maps to one fixed wire payload.
#[derive(Clone, Copy, Debug, PartialEq, Eq, Structural)]
pub enum NotificationEvent {
    DoorOpened,
    DoorClosed,
}

/// The door state that a raw digital reading denotes.
pub open spec fn spec_door_state_of_level(high: bool) -> DoorState {
    if high {
        DoorState::Open
    } else {
        DoorState::Closed
    }
}

/// Interprets one raw digital reading as a door state.
pub fn door_state_of_level(high: bool) -> (s: DoorState)
    ensures
        s == spec_door_state_of_level(high),
{
    if high {
        DoorState::Open
    } else {
        DoorState::Closed
    }
}

/// The event that reports a change from one door state to another:
/// none when the state is unchanged, `DoorOpened` when the new state is
/// `Open`, `DoorClosed` when it is `Closed`.
pub open spec fn spec_transition_event(from: DoorState, to: DoorState) -> Option<NotificationEvent> {
    if from == to {
        None
    } else if to == DoorState::Open {
        Some(NotificationEvent::DoorOpened)
    } else {
        Some(NotificationEvent::DoorClosed)
    }
}

/// Computes the event that reports a transition between two door states.
pub fn transition_event(from: DoorState, to: DoorState) -> (ev: Option<NotificationEvent>)
    ensures
        ev == spec_transition_event(from, to),
{
    if from == to {
        None
    } else if to == DoorState::Open {
        Some(NotificationEvent::DoorOpened)
    } else {
        Some(NotificationEvent::DoorClosed)
    }
}

} // verus!
