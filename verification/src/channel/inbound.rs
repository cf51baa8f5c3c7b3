//! The receiving side of a channel: messages are held back until all that were
//! sent before them have come in.

use std::collections::BTreeMap;

use vstd::prelude::*;

use crate::channel::envelope::{
    envelope_content, envelope_fields, Envelope, ENVELOPE_HEADER,
};
use crate::channel::message::{unpacks_to, Message};
use crate::channel::params::WINDOW_MAX;
use crate::error::RnsError;
use crate::hash::LinkId;

verus! {

broadcast use vstd::laws_cmp::group_laws_cmp;

/// How many sequence numbers there are.
pub const SEQUENCE_COUNT: u32 = 65536;

/// The sequence number `offset` places after `start`, counting round.
pub open spec fn sequence_at(start: u16, offset: int) -> u16 {
    ((start + offset) % (SEQUENCE_COUNT as int)) as u16
}

/// How many places `sequence` comes after `start`, counting round.
pub open spec fn sequence_offset(start: u16, sequence: u16) -> int {
    (sequence - start) % (SEQUENCE_COUNT as int)
}

/// Whether a message with this sequence number counts as one that has come in
/// before: its number is at most one window behind the next one, counting round.
pub open spec fn behind_window(sequence: u16, next: u16) -> bool {
    1 <= sequence_offset(sequence, next) <= WINDOW_MAX
}

/// The first offset, from `from` on, at which no message is held.
pub open spec fn first_gap<M>(on_hold: Map<u16, M>, next: u16, from: nat) -> nat
    decreases SEQUENCE_COUNT - from,
{
    if from < SEQUENCE_COUNT && on_hold.contains_key(sequence_at(next, from as int)) {
        first_gap(on_hold, next, from + 1)
    } else {
        from
    }
}

/// The first `count` messages from `next` on, in order.
pub open spec fn in_order<M>(on_hold: Map<u16, M>, next: u16, count: nat) -> Seq<M> {
    Seq::new(count, |i: int| on_hold[sequence_at(next, i)])
}

/// What is held apart from the first `count` messages from `next` on.
pub open spec fn held_after<M>(on_hold: Map<u16, M>, next: u16, count: nat) -> Map<u16, M> {
    Map::new(
        |sequence: u16|
            on_hold.contains_key(sequence) && sequence_offset(next, sequence) >= count,
        |sequence: u16| on_hold[sequence],
    )
}

/// What the receiving side knows.
#[verifier::ext_equal]
pub struct InboundState<M> {
    /// The messages that came in too early, by sequence number.
    pub on_hold: Map<u16, M>,
    /// The sequence number of the message to be handed on next.
    pub sequence: u16,
}

impl<M> InboundState<M> {
    /// The receiving side of a channel that has just been opened.
    pub open spec fn initial() -> Self {
        InboundState { on_hold: Map::empty(), sequence: 0 }
    }

    /// The state after all messages that are now in order were handed on, and
    /// these messages.
    pub open spec fn drained(self) -> (Self, Seq<M>) {
        let count = first_gap(self.on_hold, self.sequence, 0);
        (
            InboundState {
                on_hold: held_after(self.on_hold, self.sequence, count),
                sequence: sequence_at(self.sequence, count as int),
            },
            in_order(self.on_hold, self.sequence, count),
        )
    }

    /// The state after a message came in, and the messages handed on with it.
    ///
    /// A message that counts as received before changes nothing. Any other is
    /// held, in place of one with the same number, and then all that is in order
    /// is handed on.
    pub open spec fn accepted(self, sequence: u16, message: M) -> (Self, Seq<M>) {
        if behind_window(sequence, self.sequence) {
            (self, Seq::empty())
        } else {
            InboundState {
                on_hold: self.on_hold.insert(sequence, message),
                sequence: self.sequence,
            }.drained()
        }
    }

    /// The state after a payload came in that was read back as `unpacked`, and
    /// the messages handed on with it.
    pub open spec fn received(self, raw: Seq<u8>, unpacked: Result<M, RnsError>) -> (Self, Seq<M>) {
        match unpacked {
            Ok(message) => self.accepted(envelope_fields(raw).1, message),
            Err(_) => (self, Seq::empty()),
        }
    }
}

/// The receiving side of a channel.
pub struct Inbound<M: Message> {
    on_hold: BTreeMap<u16, M>,
    sequence: u16,
    link_id: LinkId,
}

impl<M: Message> View for Inbound<M> {
    type V = InboundState<M>;

    closed spec fn view(&self) -> InboundState<M> {
        InboundState { on_hold: self.on_hold@, sequence: self.sequence }
    }
}

impl<M: Message> Inbound<M> {
    /// The link over which the messages come in.
    pub closed spec fn link(self) -> LinkId {
        self.link_id
    }

    /// The receiving side of a channel over `link_id`.
    pub fn new(link_id: LinkId) -> (inbound: Self)
        ensures
            inbound@ == InboundState::<M>::initial(),
            inbound.link() == link_id,
    {
        Inbound { on_hold: BTreeMap::new(), sequence: 0, link_id }
    }

    /// The link over which the messages come in.
    pub fn link_id(&self) -> (link_id: LinkId)
        ensures
            link_id == self.link(),
    {
        self.link_id
    }

    /// Take in a message, and hand on all that are now in order.
    pub fn accept(&mut self, envelope: Envelope<M>) -> (delivered: Vec<M>)
        ensures
            (final(self)@, delivered@) == old(self)@.accepted(envelope.sequence, envelope.message),
            final(self).link() == old(self).link(),
    {
        let Envelope { message, sequence } = envelope;
        let mut delivered: Vec<M> = Vec::new();

        let behind: u16 = self.sequence.wrapping_sub(sequence);

        if 1 <= behind && behind <= WINDOW_MAX {
            return delivered;
        }
        self.on_hold.insert(sequence, message);

        let ghost held = self.on_hold@;
        let ghost start = self.sequence;
        let ghost link_id = self.link_id;
        proof {
            assert(held_after(held, start, 0) =~= held);
        }
        loop
            invariant
                delivered@ =~= in_order(held, start, delivered@.len()),
                delivered@.len() <= SEQUENCE_COUNT,
                self.sequence == sequence_at(start, delivered@.len() as int),
                self.on_hold@ =~= held_after(held, start, delivered@.len()),
                first_gap(held, start, delivered@.len()) == first_gap(held, start, 0),
                self.link_id == link_id,
            ensures
                delivered@.len() == first_gap(held, start, 0),
            decreases SEQUENCE_COUNT - delivered@.len(),
        {
            let ghost count = delivered@.len();
            proof {
                lemma_offset_of_sequence_at(start, count as int);
            }
            match self.on_hold.remove(&self.sequence) {
                Some(message) => {
                    delivered.push(message);
                    self.sequence = self.sequence.wrapping_add(1);
                    proof {
                        lemma_held_after_step(held, start, count);
                    }
                },
                None => {
                    break;
                },
            }
        }
        delivered
    }

    /// Take in a payload, and hand on all messages that are now in order.
    ///
    /// Fails, and leaves everything as it is, if the payload is no envelope or if
    /// the message in it cannot be read.
    pub fn receive(&mut self, raw: &[u8]) -> (result: Result<Vec<M>, RnsError>)
        ensures
            raw@.len() < ENVELOPE_HEADER ==> {
                &&& final(self)@ == old(self)@
                &&& result == Err::<Vec<M>, RnsError>(RnsError::ChannelError)
            },
            raw@.len() >= ENVELOPE_HEADER ==> exists|unpacked: Result<M, RnsError>|
                {
                    &&& #[trigger] unpacks_to(envelope_content(raw@), unpacked)
                    &&& final(self)@ == old(self)@.received(raw@, unpacked).0
                    &&& match result {
                        Ok(delivered) => unpacked is Ok && delivered@ == old(self)@.received(
                            raw@,
                            unpacked,
                        ).1,
                        Err(error) => unpacked == Err::<M, RnsError>(error),
                    }
                },
            final(self).link() == old(self).link(),
    {
        match Envelope::<M>::unpack(raw) {
            Ok(envelope) => Ok(self.accept(envelope)),
            Err(error) => Err(error),
        }
    }
}

proof fn lemma_offset_of_sequence_at(start: u16, offset: int)
    requires
        0 <= offset <= SEQUENCE_COUNT,
    ensures
        offset < SEQUENCE_COUNT ==> sequence_offset(start, sequence_at(start, offset)) == offset,
        offset == SEQUENCE_COUNT ==> sequence_at(start, offset) == start,
        sequence_at(start, offset + 1) == sequence_at(sequence_at(start, offset), 1),
{
}

proof fn lemma_sequence_at_offset(start: u16, sequence: u16)
    ensures
        0 <= sequence_offset(start, sequence) < SEQUENCE_COUNT,
        sequence_at(start, sequence_offset(start, sequence)) == sequence,
{
}

proof fn lemma_held_after_step<M>(on_hold: Map<u16, M>, next: u16, count: nat)
    requires
        count < SEQUENCE_COUNT,
    ensures
        held_after(on_hold, next, count).remove(sequence_at(next, count as int)) == held_after(
            on_hold,
            next,
            count + 1,
        ),
{
    assert forall|sequence: u16| #[trigger] sequence_offset(next, sequence) == count implies sequence
        == sequence_at(next, count as int) by {
        lemma_sequence_at_offset(next, sequence);
    }
    lemma_offset_of_sequence_at(next, count as int);
    assert(held_after(on_hold, next, count).remove(sequence_at(next, count as int)) =~= held_after(
        on_hold,
        next,
        count + 1,
    ));
}

} // verus!
