//! Reliable, ordered message channels over Reticulum links, with their
//! behaviour stated in contracts and proved.
//!
//! The library decides; it does not wait, send or receive. What arrives from
//! the outside (a payload, a delivery proof, an expired timer, the state of the
//! link) is handed in as a plain value, and what has to happen outside (a
//! packet to send, a timer to start, a message to pass on) comes back as one.

pub mod channel;
pub mod error;
pub mod hash;
pub mod link_map;
pub mod time;
