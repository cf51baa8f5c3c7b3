//! The error type of the library.

use vstd::prelude::*;

verus! {

/// What can go wrong in Reticulum.
#[derive(Debug, Clone, Copy, PartialEq, Eq, Structural)]
pub enum RnsError {
    OutOfMemory,
    InvalidArgument,
    IncorrectSignature,
    IncorrectHash,
    CryptoError,
    PacketError,
    ConnectionError,
    LinkClosed,
    ChannelError,
    ChannelLinkNotReady,
    ChannelMessageTooBig,
    ChannelUnknownMessageType,
}

} // verus!
