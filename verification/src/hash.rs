//! Identifiers: the hash of a packet and the shorter address hash.

use vstd::prelude::*;

verus! {

/// A 16 byte address hash, read as a big-endian integer.
#[derive(Debug, Clone, Copy, PartialEq, Eq, Structural)]
pub struct AddressHash {
    pub value: u128,
}

/// The identifier of a link.
pub type LinkId = AddressHash;

impl AddressHash {
    /// The integer by which maps order and find an address.
    pub open spec fn key(self) -> u128 {
        self.value
    }
}

/// A 32 byte hash, read as two big-endian integers.
#[derive(Debug, Clone, Copy, PartialEq, Eq, Structural)]
pub struct PacketHash {
    pub high: u128,
    pub low: u128,
}

impl PacketHash {
    /// The pair of integers by which maps order and find a hash.
    pub open spec fn key(self) -> (u128, u128) {
        (self.high, self.low)
    }
}

} // verus!
