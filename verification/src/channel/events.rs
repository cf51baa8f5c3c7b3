//! What the tasks of a channel do with each event that they wait for.
//!
//! A channel has one task that watches the sending side, one that receives, and
//! one for each try of a message. The tasks wait; what an event leads to is
//! decided here.

use vstd::prelude::*;

use crate::channel::envelope::{envelope_content, ENVELOPE_HEADER};
use crate::channel::inbound::Inbound;
use crate::channel::message::{unpacks_to, Message};
use crate::channel::outbound::{
    Outbound, OutboundState, Outlet, SentMessage, TimeoutAction, Timer,
};
use crate::error::RnsError;
use crate::hash::{AddressHash, LinkId, PacketHash};

verus! {

/// What can happen on a link.
#[derive(Debug, Clone)]
pub enum LinkEvent {
    Activated,
    Closed,
    Data(Vec<u8>),
    /// The receipt of a packet has come.
    Proof(PacketHash),
}

/// An event, and the link on which it happened.
#[derive(Debug, Clone)]
pub struct LinkEventData {
    pub id: LinkId,
    pub address_hash: AddressHash,
    pub event: LinkEvent,
}

/// What the task that watches the sending side waits for.
pub enum OutboundEvent {
    /// Something happened on a link.
    Link(LinkEventData),
    /// Events of links were missed; others will come.
    LinkEventsMissed,
    /// No events of links will come any more.
    LinkEventsEnded,
    /// The timer of a message has expired, or no timer will expire any more.
    TimedOut(Option<PacketHash>),
    /// The work of the channel was cancelled.
    Cancelled,
}

/// What the task that watches the sending side has to do.
pub enum OutboundAction<P, D> {
    /// Nothing.
    Ignore,
    /// Nothing, any more.
    Stop,
    /// Report that this message was delivered.
    Deliver(SentMessage<P, D>),
    /// Nothing: there was a receipt of a message that awaits none.
    UnknownProof(PacketHash),
    /// Send the packet once more, and start the timer.
    Resend { packet: P, timer: Timer },
    /// Only start the timer: the packet does not go out now.
    Postpone { timer: Timer },
    /// Close the link: for a message there were tries enough without a receipt.
    Teardown,
    /// Nothing: there was a timer of a message that awaits no receipt.
    UnknownTimeout(PacketHash),
}

/// The message whose receipt an event brings, if it brings one over this link.
pub open spec fn proven_by(event: OutboundEvent, link_id: LinkId) -> Option<PacketHash> {
    match event {
        OutboundEvent::Link(data) => match data.event {
            LinkEvent::Proof(hash) => if data.id == link_id {
                Some(hash)
            } else {
                None
            },
            _ => None,
        },
        _ => None,
    }
}

/// Whether the counters of rounds have room for what an event brings, at this
/// round trip time.
pub open spec fn has_round_for<P, D>(
    state: OutboundState<P, D>,
    event: OutboundEvent,
    rtt_nanos: u128,
) -> bool {
    proven_by(event, state.link_id) matches Some(hash) ==> state.sent_messages.contains_key(hash)
        ==> state.params.has_round_left(rtt_nanos)
}

/// Whether an event can be decided on, at this round trip time: the counters of
/// rounds have sixteen bits.
pub fn can_take_event<P, D>(
    outbound: &Outbound<P, D>,
    event: &OutboundEvent,
    rtt_nanos: u128,
) -> (can: bool)
    ensures
        can == has_round_for(outbound@, *event, rtt_nanos),
{
    match event {
        OutboundEvent::Link(data) => match &data.event {
            LinkEvent::Proof(hash) => {
                data.id != outbound.link_id() || outbound.watch_delivery(*hash).is_none()
                    || outbound.params().can_adjust(rtt_nanos)
            },
            _ => true,
        },
        _ => true,
    }
}

/// Decide on an event for the sending side, at the round trip time that the link
/// has now and with what is known of the way out.
///
/// Receipts of this link are taken note of, and expired timers dealt with.
/// Everything else that happens on links is ignored. If events were missed, some
/// receipts may be among them; their messages are sent again.
pub fn outbound_step<P: Copy, D>(
    outbound: &mut Outbound<P, D>,
    event: OutboundEvent,
    outlet: Outlet,
    rtt_nanos: u128,
) -> (action: OutboundAction<P, D>)
    requires
        old(outbound)@.wf(),
        has_round_for(old(outbound)@, event, rtt_nanos),
    ensures
        final(outbound)@.wf(),
        match (proven_by(event, old(outbound)@.link_id), event) {
            (Some(hash), _) => {
                &&& final(outbound)@ == old(outbound)@.after_proof(hash, rtt_nanos)
                &&& action == (if old(outbound)@.sent_messages.contains_key(hash) {
                    OutboundAction::Deliver(old(outbound)@.sent_messages[hash])
                } else {
                    OutboundAction::UnknownProof(hash)
                })
            },
            (None, OutboundEvent::TimedOut(Some(hash))) => {
                &&& final(outbound)@ == old(outbound)@.after_timeout(hash, outlet)
                &&& action == (match old(outbound)@.timeout_action(hash, outlet) {
                    TimeoutAction::Unknown => OutboundAction::<P, D>::UnknownTimeout(hash),
                    TimeoutAction::Teardown => OutboundAction::Teardown,
                    TimeoutAction::Resend { packet, timer } => OutboundAction::Resend {
                        packet,
                        timer,
                    },
                    TimeoutAction::Postpone { timer } => OutboundAction::Postpone { timer },
                })
            },
            (None, other) => {
                &&& final(outbound)@ == old(outbound)@
                &&& action == (match other {
                    OutboundEvent::LinkEventsEnded | OutboundEvent::Cancelled =>
                        OutboundAction::<P, D>::Stop,
                    _ => OutboundAction::<P, D>::Ignore,
                })
            },
        },
{
    match event {
        OutboundEvent::Link(data) => {
            if data.id != outbound.link_id() {
                return OutboundAction::Ignore;
            }
            match data.event {
                LinkEvent::Proof(hash) => {
                    match outbound.handle_proof(hash, rtt_nanos) {
                        Some(message) => OutboundAction::Deliver(message),
                        None => OutboundAction::UnknownProof(hash),
                    }
                },
                _ => OutboundAction::Ignore,
            }
        },
        OutboundEvent::LinkEventsMissed => OutboundAction::Ignore,
        OutboundEvent::LinkEventsEnded => OutboundAction::Stop,
        OutboundEvent::TimedOut(Some(hash)) => {
            match outbound.handle_timeout(hash, outlet) {
                TimeoutAction::Unknown => OutboundAction::UnknownTimeout(hash),
                TimeoutAction::Teardown => OutboundAction::Teardown,
                TimeoutAction::Resend { packet, timer } => OutboundAction::Resend {
                    packet,
                    timer,
                },
                TimeoutAction::Postpone { timer } => OutboundAction::Postpone { timer },
            }
        },
        OutboundEvent::TimedOut(None) => OutboundAction::Ignore,
        OutboundEvent::Cancelled => OutboundAction::Stop,
    }
}

/// What the task that receives waits for.
pub enum ReceiverEvent {
    /// A payload came in over the link.
    Payload(Vec<u8>),
    /// Payloads were missed, or none will come any more.
    PayloadsLost,
    /// The work of the channel was cancelled.
    Cancelled,
}

/// What the task that receives has to do.
pub enum ReceiverAction<M> {
    /// Hand on these messages, in this order.
    Deliver(Vec<M>),
    /// Nothing: the payload could not be read.
    Reject(RnsError),
    /// Nothing.
    Ignore,
    /// Nothing, any more.
    Stop,
}

/// Decide on an event for the receiving side.
pub fn receiver_step<M: Message>(inbound: &mut Inbound<M>, event: ReceiverEvent) -> (action:
    ReceiverAction<M>)
    ensures
        final(inbound).link() == old(inbound).link(),
        match event {
            ReceiverEvent::Payload(raw) => if raw@.len() < ENVELOPE_HEADER {
                &&& final(inbound)@ == old(inbound)@
                &&& action == ReceiverAction::<M>::Reject(RnsError::ChannelError)
            } else {
                exists|unpacked: Result<M, RnsError>|
                    {
                        &&& #[trigger] unpacks_to(envelope_content(raw@), unpacked)
                        &&& final(inbound)@ == old(inbound)@.received(raw@, unpacked).0
                        &&& match unpacked {
                            Ok(_) => action is Deliver && action->Deliver_0@ == old(
                                inbound,
                            )@.received(raw@, unpacked).1,
                            Err(error) => action == ReceiverAction::<M>::Reject(error),
                        }
                    }
            },
            ReceiverEvent::PayloadsLost => {
                &&& final(inbound)@ == old(inbound)@
                &&& action == ReceiverAction::<M>::Ignore
            },
            ReceiverEvent::Cancelled => {
                &&& final(inbound)@ == old(inbound)@
                &&& action == ReceiverAction::<M>::Stop
            },
        },
{
    match event {
        ReceiverEvent::Payload(raw) => match inbound.receive(raw.as_slice()) {
            Ok(delivered) => ReceiverAction::Deliver(delivered),
            Err(error) => ReceiverAction::Reject(error),
        },
        ReceiverEvent::PayloadsLost => ReceiverAction::Ignore,
        ReceiverEvent::Cancelled => ReceiverAction::Stop,
    }
}

/// What the task that watches one try of a message waits for.
#[derive(Debug, Clone, Copy, PartialEq, Eq, Structural)]
pub enum WatchEvent {
    /// The receipt did not come in time.
    Expired,
    /// Whether the message was delivered; nothing if the report was missed.
    Reported(Option<bool>),
    /// The work of the channel was cancelled.
    Cancelled,
}

/// What the task that watches one try of a message has to do.
#[derive(Debug, Clone, Copy, PartialEq, Eq, Structural)]
pub enum WatchAction {
    /// Wait on.
    Wait,
    /// Pass on that the receipt did not come in time, and stop.
    PassOnTimeout,
    /// Nothing, any more.
    Stop,
}

/// Decide on an event for one try of a message: the watch ends when the message
/// was delivered, when time is up, or when the channel was cancelled.
pub fn watch_step(event: WatchEvent) -> (action: WatchAction)
    ensures
        action == WatchAction::PassOnTimeout <==> event == WatchEvent::Expired,
        action == WatchAction::Stop <==> event == WatchEvent::Cancelled || event
            == WatchEvent::Reported(Some(true)),
{
    match event {
        WatchEvent::Expired => WatchAction::PassOnTimeout,
        WatchEvent::Reported(Some(delivered)) => if delivered {
            WatchAction::Stop
        } else {
            WatchAction::Wait
        },
        WatchEvent::Reported(None) => WatchAction::Wait,
        WatchEvent::Cancelled => WatchAction::Stop,
    }
}

/// Only a proof that came over the channel's own link is a receipt, and it is that
/// of the packet whose hash it bears.
pub proof fn receipts_come_over_the_own_link(
    data: LinkEventData,
    link_id: LinkId,
    timed_out: Option<PacketHash>,
)
    ensures
        proven_by(OutboundEvent::Link(data), link_id) == (if data.id == link_id {
            match data.event {
                LinkEvent::Proof(hash) => Some(hash),
                _ => None,
            }
        } else {
            None
        }),
        proven_by(OutboundEvent::LinkEventsMissed, link_id) is None,
        proven_by(OutboundEvent::LinkEventsEnded, link_id) is None,
        proven_by(OutboundEvent::TimedOut(timed_out), link_id) is None,
        proven_by(OutboundEvent::Cancelled, link_id) is None,
{
}

/// An event can always be decided on as long as no counter of rounds is full.
pub proof fn event_can_be_taken_with_room_in_the_counters<P, D>(
    state: OutboundState<P, D>,
    event: OutboundEvent,
    rtt_nanos: u128,
)
    requires
        state.params.fast_rate_rounds < 65535,
        state.params.medium_rate_rounds < 65535,
    ensures
        has_round_for(state, event, rtt_nanos),
{
}

/// The watch of a try ends when time is up, and this is passed on; it ends without
/// more when the message was delivered or the channel was cancelled; else it goes
/// on.
pub proof fn watch_ends_once(event: WatchEvent, action: WatchAction)
    requires
        call_ensures(watch_step, (event,), action),
    ensures
        match event {
            WatchEvent::Expired => action == WatchAction::PassOnTimeout,
            WatchEvent::Reported(Some(delivered)) => action == (if delivered {
                WatchAction::Stop
            } else {
                WatchAction::Wait
            }),
            WatchEvent::Reported(None) => action == WatchAction::Wait,
            WatchEvent::Cancelled => action == WatchAction::Stop,
        },
{
}

} // verus!
