//! Channels.
//!
//! A channel is an abstraction on top of a link, primarily for reliable
//! delivery of messages. Each message that is sent through a channel is answered
//! with a receipt, so the sender knows it has been delivered.
//!
//! If the receipt does not arrive in time, the message is sent again. If the
//! receipt still does not arrive after a fixed number of tries, the link is
//! closed.
//!
//! A channel hands messages on in the order in which they were sent.

pub mod envelope;
pub mod message;
pub mod params;
pub mod inbound;
pub mod delivery;
pub mod outbound;
pub mod events;
pub mod reliability;
pub mod calls;
pub mod text;
