//! The message model of a channel.

use vstd::prelude::*;

use crate::error::RnsError;

verus! {

/// Message model for a channel.
///
/// Each channel has a type for its messages. The client opening the channel
/// defines it by implementing this trait. A typical implementation will be an
/// `enum` that has the message types as variants.
///
/// Nothing is taken for granted of an implementation: what the channel does is
/// stated for whatever these functions return.
pub trait Message: Clone + Send + Sized + Sync + 'static {
    /// Reconstruct a message the channel has received.
    fn unpack(packed: &[u8], message_type: u16) -> Result<Self, RnsError>;

    /// The payload of the message as it should be sent over the channel.
    fn pack(&self) -> Vec<u8>;

    /// The type information that the channel puts in the message envelope.
    ///
    /// The range `0xff00` to `0xffff` is reserved for "system messages".
    /// Although the range is not actually used, we recommend keeping the
    /// convention and not assigning numbers in that range to user-defined
    /// message types.
    fn message_type(&self) -> u16;
}

/// A message as it goes over the wire, without its envelope.
pub struct PackedMessage {
    pub payload: Seq<u8>,
    pub message_type: u16,
}

/// Whether `packed` is what `pack` and `message_type` may return for a message.
pub open spec fn packs_to<M: Message>(message: M, packed: PackedMessage) -> bool {
    &&& exists|payload: Vec<u8>| #[trigger]
        call_ensures(M::pack, (&message,), payload) && payload@ == packed.payload
    &&& call_ensures(M::message_type, (&message,), packed.message_type)
}

/// Whether `result` is what `unpack` may return for a packed message.
pub open spec fn unpacks_to<M: Message>(
    packed: PackedMessage,
    result: Result<M, RnsError>,
) -> bool {
    exists|payload: &[u8]| #[trigger]
        call_ensures(M::unpack, (payload, packed.message_type), result) && payload@
            == packed.payload
}

/// A message is packed as what `pack` returns, with the type that `message_type`
/// returns, and with nothing else.
pub proof fn packed_is_what_the_message_returned<M: Message>(message: M, packed: PackedMessage)
    requires
        packs_to(message, packed),
    ensures
        call_ensures(M::message_type, (&message,), packed.message_type),
        exists|payload: Vec<u8>| #[trigger]
            call_ensures(M::pack, (&message,), payload) && payload@ == packed.payload,
{
}

} // verus!
