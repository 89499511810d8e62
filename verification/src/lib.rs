//! Logic of a door-state sensor node: a latched edge detector over a polled
//! digital input, the fixed wire payloads it reports on each transition, and
//! the linear state machine that brings the wireless link up at boot.

pub mod connectivity;
pub mod door;
pub mod message;
pub mod notifier;
