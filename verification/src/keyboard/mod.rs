//! Keyboard input: the event state machine and its delivery.

pub mod activation;
pub mod behaviour;
pub mod delivery;
pub mod dispatch;
pub mod hook;
pub mod state;
