//! The sending side of a channel: which messages may be sent, which await their
//! receipt, how often each was sent, and what to do when a receipt comes or does
//! not come in time.

use std::collections::{BTreeMap, BTreeSet};

use vstd::prelude::*;

use crate::channel::envelope::{envelope_raw, message_bytes};
use crate::channel::inbound::sequence_at;
use crate::channel::message::{packs_to, Message, PackedMessage};
use crate::channel::params::{adjust_params, is_slow, starts_slow, ChannelParams};
use crate::channel::params::{WINDOW, WINDOW_MAX_SLOW, WINDOW_MIN};
use crate::error::RnsError;
use crate::hash::{PacketHash, LinkId};

verus! {

broadcast use vstd::laws_cmp::group_laws_cmp;

/// Status of a message.
#[derive(Debug, Clone, Copy, PartialEq, Eq, Structural)]
pub enum MessageStatus {
    /// No message of this hash is known.
    Unknown,
    /// The message has been queued for sending but could not yet be sent.
    Waiting,
    /// The message has been sent the specified number of times, but we have not
    /// received a delivery proof yet.
    Sent(u16),
    /// We have received proof that the message has been delivered.
    Delivered,
}

/// A message that was accepted and awaits its receipt.
pub struct SentMessage<P, D> {
    /// The packet that carries the message.
    pub packet: P,
    /// Where to report that the message was delivered.
    pub delivered: D,
    /// How many tries there were to send the message, whether it went out or not.
    /// The first one counts only if it went out.
    pub tries: u16,
    /// How often the message went out.
    pub times_sent: u16,
}

/// What is known of the way out at the moment at which it is asked for.
#[derive(Debug, Clone, Copy, PartialEq, Eq, Structural)]
pub struct Outlet {
    /// Whether the transport still exists.
    pub transport_available: bool,
    /// Whether the link is active.
    pub link_active: bool,
    /// Whether the work of the channel was cancelled.
    pub cancelled: bool,
}

impl Outlet {
    /// Whether a packet that is to be sent again goes out.
    pub open spec fn passes(self) -> bool {
        self.link_active && self.transport_available
    }
}

/// A timer to be started for a message: how long it runs depends on how many
/// messages await their receipt and on the number of tries.
#[derive(Debug, Clone, Copy, PartialEq, Eq, Structural)]
pub struct Timer {
    pub packet_hash: PacketHash,
    pub ring_len: usize,
    pub tries: u16,
}

/// What to do when no receipt came in time.
#[derive(Debug, PartialEq, Eq)]
pub enum TimeoutAction<P> {
    /// Nothing: the message is not known, or has been delivered.
    Unknown,
    /// Close the link: there were tries enough.
    Teardown,
    /// Send the packet once more, and start the timer.
    Resend { packet: P, timer: Timer },
    /// Only start the timer: the packet does not go out now.
    Postpone { timer: Timer },
}

/// What the sending side knows.
#[verifier::ext_equal]
pub struct OutboundState<P, D> {
    pub link_id: LinkId,
    /// How many bytes fit in a packet.
    pub packet_mdu: usize,
    /// The messages that await their receipt.
    pub sent_messages: Map<PacketHash, SentMessage<P, D>>,
    /// The messages whose receipt has come.
    pub delivered: Set<PacketHash>,
    /// The sequence number of the next message.
    pub next_sequence: u16,
    pub params: ChannelParams,
}

impl<P, D> OutboundState<P, D> {
    /// What holds of the sending side of every channel: no more messages than
    /// fit in the window await their receipt, and for none of them were there too
    /// many tries, or fewer than the times that it went out.
    pub open spec fn wf(self) -> bool {
        &&& self.params.wf()
        &&& self.sent_messages.dom().finite()
        &&& self.sent_messages.len() <= self.params.window
        &&& forall|hash: PacketHash| #[trigger]
            self.sent_messages.contains_key(hash) ==> self.sent_messages[hash].times_sent
                <= self.sent_messages[hash].tries <= self.params.max_tries
    }

    /// Whether one more message fits in the window.
    pub open spec fn has_room(self) -> bool {
        self.sent_messages.len() < self.params.window
    }

    /// Whether a message can be sent now.
    pub open spec fn ready(self, outlet: Outlet) -> bool {
        &&& !outlet.cancelled
        &&& outlet.link_active
        &&& self.has_room()
    }

    /// Whether the message can be handed to the link now. One that is too big is
    /// refused only when it would be its turn.
    pub open spec fn takes_turn(self, outlet: Outlet) -> bool {
        outlet.transport_available && self.ready(outlet)
    }

    /// The state after a message was to be sent. Only one that is accepted takes a
    /// sequence number.
    pub open spec fn after_send(self, packed: PackedMessage, outlet: Outlet) -> Self {
        if self.send_result(packed, outlet) is Ok {
            OutboundState { next_sequence: sequence_at(self.next_sequence, 1), ..self }
        } else {
            self
        }
    }

    /// The bytes to hand to the link for a message, or why it is refused.
    pub open spec fn send_result(self, packed: PackedMessage, outlet: Outlet) -> Result<
        Seq<u8>,
        RnsError,
    > {
        let raw = message_bytes(packed, Some(self.next_sequence));
        if !self.takes_turn(outlet) {
            Err(RnsError::ChannelLinkNotReady)
        } else if raw.len() > self.packet_mdu {
            Err(RnsError::ChannelMessageTooBig)
        } else {
            Ok(raw)
        }
    }

    /// The state after the link took the bytes of a message, and sent them or could
    /// not send them yet.
    pub open spec fn after_recording(
        self,
        packet_hash: PacketHash,
        packet: P,
        delivered: D,
        sent: bool,
    ) -> Self {
        OutboundState {
            sent_messages: self.sent_messages.insert(
                packet_hash,
                SentMessage {
                    packet,
                    delivered,
                    tries: if sent { 1 } else { 0 },
                    times_sent: if sent { 1 } else { 0 },
                },
            ),
            ..self
        }
    }

    /// The timer of a message that awaits its receipt.
    pub open spec fn timer(self, packet_hash: PacketHash) -> Timer {
        Timer {
            packet_hash,
            ring_len: self.sent_messages.len() as usize,
            tries: self.sent_messages[packet_hash].tries,
        }
    }

    /// The state after a receipt came in.
    pub open spec fn after_proof(self, packet_hash: PacketHash, rtt_nanos: u128) -> Self {
        if self.sent_messages.contains_key(packet_hash) {
            OutboundState {
                sent_messages: self.sent_messages.remove(packet_hash),
                delivered: self.delivered.insert(packet_hash),
                params: self.params.adjusted(rtt_nanos),
                ..self
            }
        } else {
            self
        }
    }

    /// What to do when no receipt came in time. The timer for the next try runs
    /// as long as that for the try that failed.
    pub open spec fn timeout_action(self, packet_hash: PacketHash, outlet: Outlet) -> TimeoutAction<
        P,
    > {
        if !self.sent_messages.contains_key(packet_hash) {
            TimeoutAction::Unknown
        } else if self.sent_messages[packet_hash].tries >= self.params.max_tries {
            TimeoutAction::Teardown
        } else if outlet.passes() {
            TimeoutAction::Resend {
                packet: self.sent_messages[packet_hash].packet,
                timer: self.timer(packet_hash),
            }
        } else {
            TimeoutAction::Postpone { timer: self.timer(packet_hash) }
        }
    }

    /// The state after no receipt came in time: unless it is too late, one more
    /// try is counted, and one more time that the message went out if it does.
    pub open spec fn after_timeout(self, packet_hash: PacketHash, outlet: Outlet) -> Self {
        let action = self.timeout_action(packet_hash, outlet);
        if action is Resend || action is Postpone {
            let message = self.sent_messages[packet_hash];
            OutboundState {
                sent_messages: self.sent_messages.insert(
                    packet_hash,
                    SentMessage {
                        packet: message.packet,
                        delivered: message.delivered,
                        tries: (message.tries + 1) as u16,
                        times_sent: if action is Resend {
                            (message.times_sent + 1) as u16
                        } else {
                            message.times_sent
                        },
                    },
                ),
                ..self
            }
        } else {
            self
        }
    }

    /// The status of a message.
    pub open spec fn status(self, packet_hash: PacketHash) -> MessageStatus {
        if self.sent_messages.contains_key(packet_hash) {
            let times_sent = self.sent_messages[packet_hash].times_sent;
            if times_sent == 0 {
                MessageStatus::Waiting
            } else {
                MessageStatus::Sent(times_sent)
            }
        } else if self.delivered.contains(packet_hash) {
            MessageStatus::Delivered
        } else {
            MessageStatus::Unknown
        }
    }
}

/// Whether a result is the expected one, byte for byte.
pub open spec fn same_outcome(
    result: Result<Vec<u8>, RnsError>,
    expected: Result<Seq<u8>, RnsError>,
) -> bool {
    match (result, expected) {
        (Ok(raw), Ok(bytes)) => raw@ == bytes,
        (Err(error), Err(reason)) => error == reason,
        _ => false,
    }
}

/// The entries of a map under the hashes whose keys they stand under.
spec fn by_hash<V>(entries: Map<(u128, u128), V>) -> Map<PacketHash, V> {
    Map::new(
        |hash: PacketHash| entries.contains_key(hash.key()),
        |hash: PacketHash| entries[hash.key()],
    )
}

proof fn lemma_by_hash_len<V>(entries: Map<(u128, u128), V>)
    requires
        entries.dom().finite(),
    ensures
        by_hash(entries).dom().finite(),
        by_hash(entries).len() == entries.len(),
{
    let to_hash = |key: (u128, u128)| PacketHash { high: key.0, low: key.1 };
    assert(entries.dom().map(to_hash) =~= by_hash(entries).dom()) by {
        assert forall|hash: PacketHash| by_hash(entries).dom().contains(hash) implies entries.dom().map(
            to_hash,
        ).contains(hash) by {
            assert(to_hash(hash.key()) == hash);
        }
    }
    vstd::set_lib::lemma_map_size(entries.dom(), by_hash(entries).dom(), to_hash);
}

/// The sending side of a channel. `P` is the type of the packets, `D` that of
/// the place where the delivery of a message is reported.
pub struct Outbound<P, D> {
    link_id: LinkId,
    packet_mdu: usize,
    sent_messages: BTreeMap<(u128, u128), SentMessage<P, D>>,
    delivered: BTreeSet<(u128, u128)>,
    next_sequence: u16,
    params: ChannelParams,
}

impl<P, D> View for Outbound<P, D> {
    type V = OutboundState<P, D>;

    closed spec fn view(&self) -> OutboundState<P, D> {
        OutboundState {
            link_id: self.link_id,
            packet_mdu: self.packet_mdu,
            sent_messages: by_hash(self.sent_messages@),
            delivered: Set::new(|hash: PacketHash| self.delivered@.contains(hash.key())),
            next_sequence: self.next_sequence,
            params: self.params,
        }
    }
}

impl<P, D> Outbound<P, D> {
    /// The sending side of a channel over a link with this round trip time, in
    /// whose packets `packet_mdu` bytes fit.
    pub fn new(link_id: LinkId, rtt_nanos: u128, packet_mdu: usize) -> (outbound: Self)
        ensures
            outbound@.wf(),
            outbound@.link_id == link_id,
            outbound@.packet_mdu == packet_mdu,
            outbound@.sent_messages == Map::<PacketHash, SentMessage<P, D>>::empty(),
            outbound@.delivered == Set::<PacketHash>::empty(),
            outbound@.next_sequence == 0,
            outbound@.params.fast_rate_rounds == 0,
            outbound@.params.medium_rate_rounds == 0,
            outbound@.params.window == (if starts_slow(rtt_nanos) { 1 } else { WINDOW }),
            outbound@.params.window_max == (if starts_slow(rtt_nanos) {
                1
            } else {
                WINDOW_MAX_SLOW
            }),
            outbound@.params.window_min == (if starts_slow(rtt_nanos) { 1 } else { WINDOW_MIN }),
    {
        let outbound = Outbound {
            link_id,
            packet_mdu,
            sent_messages: BTreeMap::new(),
            delivered: BTreeSet::new(),
            next_sequence: 0,
            params: ChannelParams::new(is_slow(rtt_nanos)),
        };
        assert(outbound@.sent_messages =~= Map::<PacketHash, SentMessage<P, D>>::empty());
        assert(outbound@.delivered =~= Set::<PacketHash>::empty());
        outbound
    }

    /// The link over which the messages go out.
    pub fn link_id(&self) -> (link_id: LinkId)
        ensures
            link_id == self@.link_id,
    {
        self.link_id
    }

    /// The parameters of the channel.
    pub fn params(&self) -> (params: ChannelParams)
        ensures
            params == self@.params,
    {
        self.params
    }

    /// How many messages await their receipt.
    pub fn outstanding(&self) -> (count: usize)
        ensures
            count == self@.sent_messages.len(),
    {
        proof {
            lemma_by_hash_len(self.sent_messages@);
        }
        self.sent_messages.len()
    }

    /// Whether a message can be sent now: the link is active, the channel was not
    /// cancelled, and the window is not full.
    pub fn is_ready_to_send(&self, outlet: Outlet) -> (ready: bool)
        ensures
            ready == self@.ready(outlet),
    {
        if outlet.cancelled {
            return false;
        }
        if !outlet.link_active {
            return false;
        }
        let outstanding: usize = self.outstanding();
        let window: usize = self.params.window as usize;

        outstanding < window
    }

    /// Give a packed message its sequence number and its envelope.
    ///
    /// Returns the bytes that the link has to send. Fails if the channel is not
    /// ready to send, or if the message is too big for a packet; then everything
    /// stays as it is, and no number is used up.
    pub fn send_packed(&mut self, payload: &[u8], message_type: u16, outlet: Outlet) -> (result:
        Result<Vec<u8>, RnsError>)
        requires
            old(self)@.wf(),
        ensures
            final(self)@.wf(),
            final(self)@ == old(self)@.after_send(
                PackedMessage { payload: payload@, message_type },
                outlet,
            ),
            same_outcome(
                result,
                old(self)@.send_result(PackedMessage { payload: payload@, message_type }, outlet),
            ),
    {
        if !outlet.transport_available {
            return Err(RnsError::ChannelLinkNotReady);
        }
        if !self.is_ready_to_send(outlet) {
            return Err(RnsError::ChannelLinkNotReady);
        }
        let raw = envelope_raw(payload, message_type, Some(self.next_sequence));

        if raw.len() > self.packet_mdu {
            return Err(RnsError::ChannelMessageTooBig);
        }
        self.next_sequence = self.next_sequence.wrapping_add(1);
        Ok(raw)
    }

    /// Pack a message, and give it its sequence number and its envelope.
    ///
    /// Returns the bytes that the link has to send. Fails if the channel is not
    /// ready to send; then the message is not even packed. Fails, too, if the
    /// message is too big for a packet. Either way everything stays as it is.
    pub fn send<M: Message>(&mut self, message: &M, outlet: Outlet) -> (result: Result<
        Vec<u8>,
        RnsError,
    >)
        requires
            old(self)@.wf(),
        ensures
            final(self)@.wf(),
            !old(self)@.takes_turn(outlet) ==> {
                &&& final(self)@ == old(self)@
                &&& result == Err::<Vec<u8>, RnsError>(RnsError::ChannelLinkNotReady)
            },
            old(self)@.takes_turn(outlet) ==> exists|packed: PackedMessage|
                {
                    &&& #[trigger] packs_to(*message, packed)
                    &&& final(self)@ == old(self)@.after_send(packed, outlet)
                    &&& same_outcome(result, old(self)@.send_result(packed, outlet))
                },
    {
        if !outlet.transport_available || !self.is_ready_to_send(outlet) {
            return Err(RnsError::ChannelLinkNotReady);
        }
        let payload = message.pack();
        let message_type: u16 = message.message_type();
        proof {
            assert(call_ensures(M::pack, (message,), payload));
            assert(packs_to(*message, PackedMessage { payload: payload@, message_type }));
        }
        self.send_packed(payload.as_slice(), message_type, outlet)
    }

    /// Note that the link took the bytes of a message: whether it sent them at
    /// once, in which packet, and where the delivery is to be reported.
    ///
    /// A message that could not be sent yet waits: it is tried again when its timer
    /// expires. Returns the timer to be started.
    pub fn record_send(&mut self, packet_hash: PacketHash, packet: P, delivered: D, sent: bool) -> (timer:
        Timer)
        requires
            old(self)@.wf(),
            old(self)@.has_room(),
        ensures
            final(self)@.wf(),
            final(self)@ == old(self)@.after_recording(packet_hash, packet, delivered, sent),
            timer == final(self)@.timer(packet_hash),
            timer.packet_hash == packet_hash,
            timer.ring_len == final(self)@.sent_messages.len(),
            timer.tries == (if sent { 1u16 } else { 0u16 }),
    {
        let tries: u16 = if sent { 1 } else { 0 };
        let sent_message = SentMessage { packet, delivered, tries, times_sent: tries };
        self.sent_messages.insert((packet_hash.high, packet_hash.low), sent_message);
        assert(self@ =~= old(self)@.after_recording(packet_hash, packet, delivered, sent));

        let ring_len: usize = self.outstanding();

        Timer { packet_hash, ring_len, tries }
    }

    /// Take note of the receipt of a message.
    ///
    /// Returns the message if it awaited its receipt, so that its delivery can be
    /// reported. The receipt of any other message is ignored.
    pub fn handle_proof(&mut self, packet_hash: PacketHash, rtt_nanos: u128) -> (message: Option<
        SentMessage<P, D>,
    >)
        requires
            old(self)@.wf(),
            old(self)@.sent_messages.contains_key(packet_hash)
                ==> old(self)@.params.has_round_left(rtt_nanos),
        ensures
            final(self)@.wf(),
            final(self)@ == old(self)@.after_proof(packet_hash, rtt_nanos),
            message == (if old(self)@.sent_messages.contains_key(packet_hash) {
                Some(old(self)@.sent_messages[packet_hash])
            } else {
                None
            }),
    {
        let key = (packet_hash.high, packet_hash.low);
        let sent_message = match self.sent_messages.remove(&key) {
            Some(sent_message) => sent_message,
            None => {
                assert(self@ =~= old(self)@);
                return None;
            },
        };
        adjust_params(&mut self.params, rtt_nanos);
        self.delivered.insert(key);

        assert(self@ =~= old(self)@.after_proof(packet_hash, rtt_nanos));
        Some(sent_message)
    }

    /// Decide what to do when the receipt of a message did not come in time, and
    /// count the new try if there is one.
    ///
    /// A message goes out again only if the link is active and the transport still
    /// exists. If it does not go out, that is a try, too, but the message does not
    /// count as sent once more.
    pub fn handle_timeout(&mut self, packet_hash: PacketHash, outlet: Outlet) -> (action:
        TimeoutAction<P>) where P: Copy
        requires
            old(self)@.wf(),
        ensures
            final(self)@.wf(),
            final(self)@ == old(self)@.after_timeout(packet_hash, outlet),
            action == old(self)@.timeout_action(packet_hash, outlet),
    {
        let key = (packet_hash.high, packet_hash.low);
        let packet: P;
        let tries: u16;
        match self.sent_messages.get(&key) {
            Some(entry) => {
                tries = entry.tries;
                if tries >= self.params.max_tries {
                    return TimeoutAction::Teardown;
                }
                packet = entry.packet;
            },
            None => {
                return TimeoutAction::Unknown;
            },
        }
        let sent = outlet.link_active && outlet.transport_available;
        let timer = self.schedule_timeout(packet_hash);
        match self.sent_messages.remove(&key) {
            Some(entry) => {
                let again = SentMessage {
                    packet: entry.packet,
                    delivered: entry.delivered,
                    tries: tries + 1,
                    times_sent: if sent { entry.times_sent + 1 } else { entry.times_sent },
                };
                self.sent_messages.insert(key, again);
            },
            None => {},
        }
        assert(self@ =~= old(self)@.after_timeout(packet_hash, outlet));
        if sent {
            TimeoutAction::Resend { packet, timer }
        } else {
            TimeoutAction::Postpone { timer }
        }
    }

    /// The timer of a message that awaits its receipt.
    pub fn schedule_timeout(&self, packet_hash: PacketHash) -> (timer: Timer)
        requires
            self@.sent_messages.contains_key(packet_hash),
        ensures
            timer == self@.timer(packet_hash),
            timer.packet_hash == packet_hash,
            timer.ring_len == self@.sent_messages.len(),
            timer.tries == self@.sent_messages[packet_hash].tries,
    {
        let key = (packet_hash.high, packet_hash.low);
        let tries: u16 = match self.sent_messages.get(&key) {
            Some(sent_message) => sent_message.tries,
            None => 0,
        };
        let ring_len: usize = self.outstanding();

        Timer { packet_hash, ring_len, tries }
    }

    /// Where the delivery of a message will be reported, if the message awaits
    /// its receipt.
    pub fn watch_delivery(&self, packet_hash: PacketHash) -> (delivered: Option<&D>)
        ensures
            match delivered {
                Some(place) => {
                    &&& self@.sent_messages.contains_key(packet_hash)
                    &&& *place == self@.sent_messages[packet_hash].delivered
                },
                None => !self@.sent_messages.contains_key(packet_hash),
            },
    {
        match self.sent_messages.get(&(packet_hash.high, packet_hash.low)) {
            Some(sent_message) => Some(&sent_message.delivered),
            None => None,
        }
    }

    /// The status of a message.
    pub fn get_status(&self, packet_hash: &PacketHash) -> (status: MessageStatus)
        ensures
            status == self@.status(*packet_hash),
    {
        let key = (packet_hash.high, packet_hash.low);
        match self.sent_messages.get(&key) {
            Some(sent_message) => {
                let times_sent: u16 = sent_message.times_sent;
                if times_sent == 0 {
                    MessageStatus::Waiting
                } else {
                    MessageStatus::Sent(times_sent)
                }
            },
            None => {
                if self.delivered.contains(&key) {
                    MessageStatus::Delivered
                } else {
                    MessageStatus::Unknown
                }
            },
        }
    }
}

} // verus!
