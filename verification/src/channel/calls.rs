//! What holds of one call, by what goes in and what comes out, and between calls
//! that follow one another.

use vstd::prelude::*;

use crate::channel::delivery::{
    message_is_held_or_handed_on, next_message_is_handed_on_at_once,
    payload_is_taken_in_by_its_number,
};
use crate::channel::envelope::{
    envelope_content, envelope_is_unpacked_whole, opened_envelope, opened_envelope_has_its_number,
    packed_message_in_its_envelope, Envelope,
};
use crate::channel::events::{
    outbound_step, receiver_step, LinkEvent, OutboundAction, OutboundEvent, ReceiverAction,
    ReceiverEvent,
};
use crate::channel::inbound::Inbound;
use crate::channel::message::{packs_to, unpacks_to, Message, PackedMessage};
use crate::channel::outbound::{
    same_outcome, MessageStatus, Outbound, Outlet, SentMessage, TimeoutAction, Timer,
};
use crate::channel::params::ChannelParams;
use crate::channel::reliability::{
    message_is_accepted_iff_it_fits, outcome_is_byte_for_byte, receipt_adjusts_the_window,
    recording_keeps_the_message, status_says_what_is_known, timeout_leads_to_one_more_try,
    timer_is_that_of_the_message,
};
use crate::error::RnsError;
use crate::hash::{LinkId, PacketHash};

verus! {

/// A new channel sends to its link with the packet size that it was given, starts
/// with number 0, knows no message, and has a window of 2 up to 5, or of 1 if the
/// round trip takes too long.
pub proof fn new_channel<P, D>(
    link_id: LinkId,
    rtt_nanos: u128,
    packet_mdu: usize,
    outbound: Outbound<P, D>,
    hash: PacketHash,
    status: MessageStatus,
)
    requires
        call_ensures(Outbound::<P, D>::new, (link_id, rtt_nanos, packet_mdu), outbound),
        call_ensures(Outbound::<P, D>::get_status, (&outbound, &hash), status),
    ensures
        outbound@.wf(),
        outbound@.link_id == link_id,
        outbound@.packet_mdu == packet_mdu,
        outbound@.next_sequence == 0,
        outbound@.sent_messages.len() == 0,
        status == MessageStatus::Unknown,
        ({
            let params = outbound@.params;
            &&& params.max_tries == 5
            &&& params.fast_rate_rounds == 0
            &&& params.medium_rate_rounds == 0
            &&& rtt_nanos > 1_450_000_111 ==> params.window == 1 && params.window_max == 1
                && params.window_min == 1
            &&& rtt_nanos <= 1_450_000_111 ==> params.window == 2 && params.window_max == 5
                && params.window_min == 2
        }),
{
    status_says_what_is_known(outbound@, hash, 1);
}

/// Sending a packed message: it is accepted exactly if the channel is ready, the
/// transport is there and the payload fits in a packet with six bytes to spare. What
/// is to be sent are the type, the next number and the length, two bytes each with
/// the higher one first, and the payload. An accepted message takes the number, and
/// one that is refused takes nothing.
pub proof fn packed_message_is_sent<P, D>(
    outbound: &mut Outbound<P, D>,
    payload: &[u8],
    message_type: u16,
    outlet: Outlet,
    result: Result<Vec<u8>, RnsError>,
)
    requires
        old(outbound)@.wf(),
        call_ensures(
            Outbound::<P, D>::send_packed,
            (outbound, payload, message_type, outlet),
            result,
        ),
    ensures
        ({
            let (before, after) = (old(outbound)@, final(outbound)@);
            let ready = outlet.transport_available && outlet.link_active && !outlet.cancelled
                && before.sent_messages.len() < before.params.window;
            let fits = payload@.len() + 6 <= before.packet_mdu;
            &&& result is Ok <==> ready && fits
            &&& !ready ==> result == Err::<Vec<u8>, RnsError>(RnsError::ChannelLinkNotReady)
            &&& ready && !fits ==> result == Err::<Vec<u8>, RnsError>(
                RnsError::ChannelMessageTooBig,
            )
            &&& result matches Ok(raw) ==> {
                &&& raw@.len() == payload@.len() + 6
                &&& raw@[0] * 256 + raw@[1] == message_type
                &&& raw@[2] * 256 + raw@[3] == before.next_sequence
                &&& raw@[4] * 256 + raw@[5] == payload@.len() as int % 65536
                &&& raw@.subrange(6, raw@.len() as int) == payload@
                &&& after.next_sequence == (before.next_sequence + 1) % 65536
            }
            &&& result is Err ==> after.next_sequence == before.next_sequence
            &&& after.link_id == before.link_id
            &&& after.packet_mdu == before.packet_mdu
            &&& after.sent_messages == before.sent_messages
            &&& after.delivered == before.delivered
            &&& after.params == before.params
        }),
{
    let packed = PackedMessage { payload: payload@, message_type };
    message_is_accepted_iff_it_fits(old(outbound)@, packed, outlet);
    outcome_is_byte_for_byte(result, old(outbound)@.send_result(packed, outlet));
}

/// Sending a message: as sending it packed, with the payload that its `pack` and the
/// type that its `message_type` returned; only when the channel is not ready is it
/// not packed.
pub proof fn message_is_sent_as_packed<M: Message, P, D>(
    outbound: &mut Outbound<P, D>,
    message: &M,
    outlet: Outlet,
    result: Result<Vec<u8>, RnsError>,
)
    requires
        old(outbound)@.wf(),
        call_ensures(Outbound::<P, D>::send::<M>, (outbound, message, outlet), result),
    ensures
        ({
            let (before, after) = (old(outbound)@, final(outbound)@);
            let ready = outlet.transport_available && outlet.link_active && !outlet.cancelled
                && before.sent_messages.len() < before.params.window;
            &&& !ready ==> {
                &&& result == Err::<Vec<u8>, RnsError>(RnsError::ChannelLinkNotReady)
                &&& after == before
            }
            &&& ready ==> exists|payload: Vec<u8>, message_type: u16|
                {
                    &&& #[trigger] call_ensures(M::pack, (message,), payload)
                    &&& #[trigger] call_ensures(M::message_type, (message,), message_type)
                    &&& match result {
                        Ok(raw) => {
                            &&& payload@.len() + 6 <= before.packet_mdu
                            &&& raw@.len() == payload@.len() + 6
                            &&& raw@[0] * 256 + raw@[1] == message_type
                            &&& raw@[2] * 256 + raw@[3] == before.next_sequence
                            &&& raw@[4] * 256 + raw@[5] == payload@.len() as int % 65536
                            &&& raw@.subrange(6, raw@.len() as int) == payload@
                            &&& after.next_sequence == (before.next_sequence + 1) % 65536
                        },
                        Err(error) => {
                            &&& payload@.len() + 6 > before.packet_mdu
                            &&& error == RnsError::ChannelMessageTooBig
                            &&& after.next_sequence == before.next_sequence
                        },
                    }
                }
            &&& after.link_id == before.link_id
            &&& after.packet_mdu == before.packet_mdu
            &&& after.sent_messages == before.sent_messages
            &&& after.delivered == before.delivered
            &&& after.params == before.params
        }),
{
    let before = old(outbound)@;
    if before.takes_turn(outlet) {
        let packed = choose|packed: PackedMessage|
            {
                &&& #[trigger] packs_to(*message, packed)
                &&& final(outbound)@ == before.after_send(packed, outlet)
                &&& same_outcome(result, before.send_result(packed, outlet))
            };
        message_is_accepted_iff_it_fits(before, packed, outlet);
        outcome_is_byte_for_byte(result, before.send_result(packed, outlet));
        packed_message_in_its_envelope(*message, packed, before.next_sequence);
    } else {
        message_is_accepted_iff_it_fits(
            before,
            PackedMessage { payload: Seq::empty(), message_type: 0 },
            outlet,
        );
    }
}

/// A channel that says it is ready accepts what fits, and one that says it is not
/// refuses everything.
pub proof fn ready_channel_accepts_what_fits<P, D>(
    outbound: &mut Outbound<P, D>,
    before: &Outbound<P, D>,
    payload: &[u8],
    message_type: u16,
    outlet: Outlet,
    ready: bool,
    result: Result<Vec<u8>, RnsError>,
)
    requires
        old(outbound)@.wf(),
        *before == *old(outbound),
        outlet.transport_available,
        call_ensures(Outbound::<P, D>::is_ready_to_send, (before, outlet), ready),
        call_ensures(
            Outbound::<P, D>::send_packed,
            (outbound, payload, message_type, outlet),
            result,
        ),
    ensures
        !ready ==> result == Err::<Vec<u8>, RnsError>(RnsError::ChannelLinkNotReady),
        ready ==> (result is Ok <==> payload@.len() + 6 <= before@.packet_mdu),
        ready <==> !outlet.cancelled && outlet.link_active && before@.sent_messages.len()
            < before@.params.window,
{
    packed_message_is_sent(outbound, payload, message_type, outlet, result);
}

/// A recorded message is known under its hash: its status is that it was sent once,
/// or that it waits; its delivery is reported where it was said; and its timer is
/// the one that was returned, with its own hash. The status of every other message
/// is what it was.
pub proof fn recorded_message_is_known<P, D>(
    outbound: &mut Outbound<P, D>,
    before: &Outbound<P, D>,
    after: &Outbound<P, D>,
    packet_hash: PacketHash,
    packet: P,
    delivered: D,
    sent: bool,
    timer: Timer,
    status: MessageStatus,
    place: Option<&D>,
    scheduled: Timer,
    other: PacketHash,
    other_before: MessageStatus,
    other_after: MessageStatus,
)
    requires
        old(outbound)@.wf(),
        old(outbound)@.sent_messages.len() < old(outbound)@.params.window,
        *before == *old(outbound),
        *after == *final(outbound),
        call_ensures(
            Outbound::<P, D>::record_send,
            (outbound, packet_hash, packet, delivered, sent),
            timer,
        ),
        call_ensures(Outbound::<P, D>::get_status, (after, &packet_hash), status),
        call_ensures(Outbound::<P, D>::watch_delivery, (after, packet_hash), place),
        call_ensures(Outbound::<P, D>::schedule_timeout, (after, packet_hash), scheduled),
        call_ensures(Outbound::<P, D>::get_status, (before, &other), other_before),
        call_ensures(Outbound::<P, D>::get_status, (after, &other), other_after),
    ensures
        status == (if sent {
            MessageStatus::Sent(1)
        } else {
            MessageStatus::Waiting
        }),
        place is Some,
        *place->0 == delivered,
        timer.packet_hash == packet_hash,
        timer.tries == (if sent { 1int } else { 0int }),
        timer.ring_len == after@.sent_messages.len(),
        scheduled == timer,
        other != packet_hash ==> other_after == other_before,
        final(outbound)@.wf(),
{
    let state = old(outbound)@;
    recording_keeps_the_message(state, packet_hash, packet, delivered, sent);
    status_says_what_is_known(after@, packet_hash, 1);
    timer_is_that_of_the_message(
        after@,
        packet_hash,
        Outlet { transport_available: true, link_active: true, cancelled: false },
    );
    if other != packet_hash {
        assert(before@.sent_messages.remove(packet_hash).contains_key(other)
            == after@.sent_messages.remove(packet_hash).contains_key(other));
        assert(before@.sent_messages.remove(packet_hash)[other] == after@.sent_messages.remove(
            packet_hash,
        )[other]);
    }
}

/// When the timer that was returned for a recorded message expires, it is that
/// message whose packet is sent again, or put off if it cannot go out, and the timer
/// for the next try is again its own.
pub proof fn expired_timer_leads_to_its_message<P: Copy, D>(
    outbound: &mut Outbound<P, D>,
    later: &mut Outbound<P, D>,
    packet_hash: PacketHash,
    packet: P,
    delivered: D,
    sent: bool,
    timer: Timer,
    outlet: Outlet,
    action: TimeoutAction<P>,
    after: &Outbound<P, D>,
    status: MessageStatus,
)
    requires
        old(outbound)@.wf(),
        old(outbound)@.sent_messages.len() < old(outbound)@.params.window,
        call_ensures(
            Outbound::<P, D>::record_send,
            (outbound, packet_hash, packet, delivered, sent),
            timer,
        ),
        *old(later) == *final(outbound),
        call_ensures(
            Outbound::<P, D>::handle_timeout,
            (later, timer.packet_hash, outlet),
            action,
        ),
        *after == *final(later),
        call_ensures(Outbound::<P, D>::get_status, (after, &packet_hash), status),
    ensures
        outlet.link_active && outlet.transport_available ==> {
            &&& action == (TimeoutAction::Resend { packet, timer })
            &&& status == MessageStatus::Sent(if sent { 2 } else { 1 })
        },
        !(outlet.link_active && outlet.transport_available) ==> {
            &&& action == (TimeoutAction::<P>::Postpone { timer })
            &&& status == (if sent { MessageStatus::Sent(1) } else { MessageStatus::Waiting })
        },
{
    let state = final(outbound)@;
    recording_keeps_the_message(old(outbound)@, packet_hash, packet, delivered, sent);
    timer_is_that_of_the_message(state, packet_hash, outlet);
    timeout_leads_to_one_more_try(state, packet_hash, outlet);
    status_says_what_is_known(after@, packet_hash, 1);
    status_says_what_is_known(after@, packet_hash, 2);
}

/// A timeout, whatever the message: nothing if it awaits no receipt, the end after
/// five tries, and else one more try, with a timer of its own hash and as many tries
/// as there were before.
pub proof fn timeout_is_dealt_with<P: Copy, D>(
    outbound: &mut Outbound<P, D>,
    packet_hash: PacketHash,
    outlet: Outlet,
    action: TimeoutAction<P>,
)
    requires
        old(outbound)@.wf(),
        call_ensures(
            Outbound::<P, D>::handle_timeout,
            (outbound, packet_hash, outlet),
            action,
        ),
    ensures
        ({
            let (before, after) = (old(outbound)@, final(outbound)@);
            let entry = before.sent_messages[packet_hash];
            let again = after.sent_messages[packet_hash];
            if !before.sent_messages.contains_key(packet_hash) {
                &&& action == TimeoutAction::<P>::Unknown
                &&& after == before
            } else if entry.tries >= 5 {
                &&& action == TimeoutAction::<P>::Teardown
                &&& after == before
            } else {
                let timer = Timer {
                    packet_hash,
                    ring_len: before.sent_messages.len() as usize,
                    tries: entry.tries,
                };
                &&& action == (if outlet.link_active && outlet.transport_available {
                    TimeoutAction::Resend { packet: entry.packet, timer }
                } else {
                    TimeoutAction::Postpone { timer }
                })
                &&& again.tries == entry.tries + 1
                &&& again.times_sent == entry.times_sent + (if outlet.link_active
                    && outlet.transport_available {
                    1int
                } else {
                    0int
                })
                &&& again.packet == entry.packet
                &&& again.delivered == entry.delivered
                &&& after.sent_messages.contains_key(packet_hash)
                &&& after.sent_messages.remove(packet_hash) == before.sent_messages.remove(
                    packet_hash,
                )
                &&& after.delivered == before.delivered
                &&& after.next_sequence == before.next_sequence
                &&& after.params == before.params
            }
        }),
{
    timeout_leads_to_one_more_try(old(outbound)@, packet_hash, outlet);
}

/// A receipt: the message is delivered and handed back as it was kept, the place in
/// the window is free again, and the parameters follow the round trip time. Without
/// a message that awaits it, a receipt changes nothing.
pub proof fn receipt_is_taken_note_of<P, D>(
    outbound: &mut Outbound<P, D>,
    after: &Outbound<P, D>,
    packet_hash: PacketHash,
    rtt_nanos: u128,
    message: Option<SentMessage<P, D>>,
    status: MessageStatus,
    params: ChannelParams,
)
    requires
        old(outbound)@.wf(),
        *after == *final(outbound),
        0 < rtt_nanos <= 180_000_008 ==> old(outbound)@.params.fast_rate_rounds < 65535,
        180_000_008 < rtt_nanos <= 750_000_032 ==> old(outbound)@.params.medium_rate_rounds < 65535,
        call_ensures(Outbound::<P, D>::handle_proof, (outbound, packet_hash, rtt_nanos), message),
        call_ensures(Outbound::<P, D>::get_status, (after, &packet_hash), status),
        call_ensures(Outbound::<P, D>::params, (after,), params),
    ensures
        ({
            let (before, later) = (old(outbound)@, final(outbound)@);
            if before.sent_messages.contains_key(packet_hash) {
                &&& message == Some(before.sent_messages[packet_hash])
                &&& status == MessageStatus::Delivered
                &&& later.sent_messages == before.sent_messages.remove(packet_hash)
                &&& later.delivered == before.delivered.insert(packet_hash)
                &&& later.next_sequence == before.next_sequence
                &&& before.params.window < before.params.window_max ==> params.window
                    == before.params.window + 1
                &&& before.params.window >= before.params.window_max ==> params.window
                    == before.params.window
                &&& params.fast_rate_rounds == (if rtt_nanos == 0 {
                    before.params.fast_rate_rounds as int
                } else if rtt_nanos <= 180_000_008 {
                    before.params.fast_rate_rounds + 1
                } else {
                    0
                })
                &&& params.medium_rate_rounds == (if rtt_nanos <= 180_000_008 {
                    before.params.medium_rate_rounds as int
                } else if rtt_nanos <= 750_000_032 {
                    before.params.medium_rate_rounds + 1
                } else {
                    0
                })
                &&& (params.window_max, params.window_min) == (if 0 < rtt_nanos <= 180_000_008
                    && params.fast_rate_rounds == 10 && before.params.window_max < 48 {
                    (48u16, 16u16)
                } else if 180_000_008 < rtt_nanos <= 750_000_032 && params.medium_rate_rounds == 10
                    && before.params.window_max < 12 {
                    (12u16, 5u16)
                } else {
                    (before.params.window_max, before.params.window_min)
                })
            } else {
                &&& message is None
                &&& later == before
            }
        }),
{
    let before = old(outbound)@;
    if before.sent_messages.contains_key(packet_hash) {
        receipt_adjusts_the_window(before, packet_hash, rtt_nanos);
        status_says_what_is_known(after@, packet_hash, 1);
        assert(final(outbound)@.sent_messages =~= before.sent_messages.remove(packet_hash));
    }
}

/// The sending side acts on an event: a proof over its own link is a receipt, an
/// expired timer a timeout; when no link events will come or the channel was
/// cancelled it stops; and everything else leaves it as it is.
pub proof fn event_is_acted_on<P: Copy, D>(
    outbound: &mut Outbound<P, D>,
    receiving: &mut Outbound<P, D>,
    timing: &mut Outbound<P, D>,
    event: OutboundEvent,
    outlet: Outlet,
    rtt_nanos: u128,
    hash: PacketHash,
    action: OutboundAction<P, D>,
    message: Option<SentMessage<P, D>>,
    timeout: TimeoutAction<P>,
)
    requires
        old(outbound)@.wf(),
        *old(receiving) == *old(outbound),
        *old(timing) == *old(outbound),
        call_ensures(outbound_step::<P, D>, (outbound, event, outlet, rtt_nanos), action),
        call_ensures(Outbound::<P, D>::handle_proof, (receiving, hash, rtt_nanos), message),
        call_ensures(Outbound::<P, D>::handle_timeout, (timing, hash, outlet), timeout),
    ensures
        match event {
            OutboundEvent::Link(data) => {
                if data.id == old(outbound)@.link_id && data.event == LinkEvent::Proof(hash) {
                    &&& final(outbound)@ == final(receiving)@
                    &&& message matches Some(delivered) ==> action == OutboundAction::<P, D>::Deliver(
                        delivered,
                    )
                    &&& message is None ==> action == OutboundAction::<P, D>::UnknownProof(hash)
                } else {
                    data.id != old(outbound)@.link_id || data.event !is Proof ==> {
                        &&& final(outbound)@ == old(outbound)@
                        &&& action == OutboundAction::<P, D>::Ignore
                    }
                }
            },
            OutboundEvent::TimedOut(Some(expired)) => expired == hash ==> {
                &&& final(outbound)@ == final(timing)@
                &&& action == (match timeout {
                    TimeoutAction::Unknown => OutboundAction::<P, D>::UnknownTimeout(hash),
                    TimeoutAction::Teardown => OutboundAction::<P, D>::Teardown,
                    TimeoutAction::Resend { packet, timer } => OutboundAction::<P, D>::Resend {
                        packet,
                        timer,
                    },
                    TimeoutAction::Postpone { timer } => OutboundAction::<P, D>::Postpone { timer },
                })
            },
            OutboundEvent::TimedOut(None) | OutboundEvent::LinkEventsMissed => {
                &&& final(outbound)@ == old(outbound)@
                &&& action == OutboundAction::<P, D>::Ignore
            },
            OutboundEvent::LinkEventsEnded | OutboundEvent::Cancelled => {
                &&& final(outbound)@ == old(outbound)@
                &&& action == OutboundAction::<P, D>::Stop
            },
        },
{
}

/// Taking in a message whose number is next hands it on at once, before any other;
/// one whose number is one to 48 behind, counting round, changes nothing; and what
/// is handed on of the others is what was held under the numbers that follow.
pub proof fn message_is_taken_in<M: Message>(
    inbound: &mut Inbound<M>,
    envelope: Envelope<M>,
    delivered: Vec<M>,
)
    requires
        call_ensures(Inbound::<M>::accept, (inbound, envelope), delivered),
    ensures
        ({
            let (before, after) = (old(inbound)@, final(inbound)@);
            let behind = (before.sequence - envelope.sequence) % 65536;
            let held = before.on_hold.insert(envelope.sequence, envelope.message);
            &&& envelope.sequence == before.sequence ==> delivered@.len() >= 1 && delivered@[0]
                == envelope.message
            &&& if 1 <= behind <= 48 {
                &&& after == before
                &&& delivered@.len() == 0
            } else {
                &&& after.sequence == (before.sequence + delivered@.len()) % 65536
                &&& forall|i: int|
                    0 <= i < delivered@.len() ==> held.contains_pair(
                        ((before.sequence + i) % 65536) as u16,
                        #[trigger] delivered@[i],
                    )
                &&& delivered@.len() < 65536 ==> !held.contains_key(after.sequence)
                &&& forall|number: u16| #[trigger]
                    after.on_hold.contains_key(number) <==> held.contains_key(number) && (number
                        - before.sequence) % 65536 >= delivered@.len()
                &&& forall|number: u16| #[trigger]
                    after.on_hold.contains_key(number) ==> after.on_hold[number] == held[number]
            }
        }),
{
    message_is_held_or_handed_on(old(inbound)@, envelope.sequence, envelope.message);
    next_message_is_handed_on_at_once(old(inbound)@, envelope.message);
}

/// Receiving a payload: fewer than six bytes are refused; else the bytes from the
/// seventh on are read as a message of the type in the first two, and if that
/// succeeds, the message is taken in under the number in the third and fourth.
/// Whatever cannot be read is refused with its own error and changes nothing.
pub proof fn payload_is_received<M: Message>(
    inbound: &mut Inbound<M>,
    raw: &[u8],
    result: Result<Vec<M>, RnsError>,
)
    requires
        call_ensures(Inbound::<M>::receive, (inbound, raw), result),
    ensures
        raw@.len() < 6 ==> {
            &&& result == Err::<Vec<M>, RnsError>(RnsError::ChannelError)
            &&& final(inbound)@ == old(inbound)@
        },
        raw@.len() >= 6 ==> exists|payload: &[u8], message_type: u16, unpacked: Result<M, RnsError>|
            {
                &&& #[trigger] call_ensures(M::unpack, (payload, message_type), unpacked)
                &&& payload@ == raw@.subrange(6, raw@.len() as int)
                &&& message_type == raw@[0] * 256 + raw@[1]
                &&& match unpacked {
                    Ok(message) => {
                        let number = (raw@[2] * 256 + raw@[3]) as u16;
                        &&& result is Ok
                        &&& (final(inbound)@, result->Ok_0@) == old(inbound)@.accepted(
                            number,
                            message,
                        )
                    },
                    Err(error) => {
                        &&& result == Err::<Vec<M>, RnsError>(error)
                        &&& final(inbound)@ == old(inbound)@
                    },
                }
            },
{
    if raw@.len() >= 6 {
        let before = old(inbound)@;
        let unpacked = choose|unpacked: Result<M, RnsError>|
            {
                &&& #[trigger] unpacks_to(envelope_content(raw@), unpacked)
                &&& final(inbound)@ == before.received(raw@, unpacked).0
                &&& match result {
                    Ok(delivered) => unpacked is Ok && delivered@ == before.received(
                        raw@,
                        unpacked,
                    ).1,
                    Err(error) => unpacked == Err::<M, RnsError>(error),
                }
            };
        envelope_is_unpacked_whole(raw@, unpacked);
        payload_is_taken_in_by_its_number(
            before,
            raw@,
            unpacked,
            (raw@[2] * 256 + raw@[3]) as u16,
        );
    }
}

/// The receiving side acts on an event: it hands on what is in order with a payload
/// that it can read, and nothing of one that it cannot, goes on when payloads were
/// missed, and stops when the channel was cancelled.
pub proof fn received_event_is_acted_on<M: Message>(
    inbound: &mut Inbound<M>,
    event: ReceiverEvent,
    action: ReceiverAction<M>,
)
    requires
        call_ensures(receiver_step::<M>, (inbound, event), action),
    ensures
        match event {
            ReceiverEvent::Payload(raw) => if raw@.len() < 6 {
                &&& action == ReceiverAction::<M>::Reject(RnsError::ChannelError)
                &&& final(inbound)@ == old(inbound)@
            } else {
                exists|payload: &[u8], message_type: u16, unpacked: Result<M, RnsError>|
                    {
                        &&& #[trigger] call_ensures(M::unpack, (payload, message_type), unpacked)
                        &&& payload@ == raw@.subrange(6, raw@.len() as int)
                        &&& message_type == raw@[0] * 256 + raw@[1]
                        &&& match unpacked {
                            Ok(message) => {
                                let number = (raw@[2] * 256 + raw@[3]) as u16;
                                &&& action is Deliver
                                &&& (final(inbound)@, action->Deliver_0@) == old(
                                    inbound,
                                )@.accepted(number, message)
                            },
                            Err(error) => {
                                &&& action == ReceiverAction::<M>::Reject(error)
                                &&& final(inbound)@ == old(inbound)@
                            },
                        }
                    }
            },
            ReceiverEvent::PayloadsLost => {
                &&& action == ReceiverAction::<M>::Ignore
                &&& final(inbound)@ == old(inbound)@
            },
            ReceiverEvent::Cancelled => {
                &&& action == ReceiverAction::<M>::Stop
                &&& final(inbound)@ == old(inbound)@
            },
        },
{
    if event is Payload && event->Payload_0@.len() >= 6 {
        let raw = event->Payload_0@;
        let before = old(inbound)@;
        let unpacked = choose|unpacked: Result<M, RnsError>|
            {
                &&& #[trigger] unpacks_to(envelope_content(raw), unpacked)
                &&& final(inbound)@ == before.received(raw, unpacked).0
                &&& match unpacked {
                    Ok(_) => action is Deliver && action->Deliver_0@ == before.received(
                        raw,
                        unpacked,
                    ).1,
                    Err(error) => action == ReceiverAction::<M>::Reject(error),
                }
            };
        envelope_is_unpacked_whole(raw, unpacked);
        payload_is_taken_in_by_its_number(before, raw, unpacked, (raw[2] * 256 + raw[3]) as u16);
    }
}

/// A new receiving side belongs to its link, holds nothing and awaits number 0.
pub proof fn new_receiving_side<M: Message>(
    link_id: LinkId,
    inbound: Inbound<M>,
    said: LinkId,
    number: u16,
)
    requires
        call_ensures(Inbound::<M>::new, (link_id,), inbound),
        call_ensures(Inbound::<M>::link_id, (&inbound,), said),
    ensures
        said == link_id,
        inbound@.sequence == 0,
        !inbound@.on_hold.contains_key(number),
{
}

/// The delivery of a message is reported exactly as long as it awaits its receipt,
/// and where it was said when it was recorded; the status says the same.
pub proof fn awaited_messages_can_be_watched<P, D>(
    outbound: &Outbound<P, D>,
    packet_hash: PacketHash,
    place: Option<&D>,
    status: MessageStatus,
    count: usize,
)
    requires
        call_ensures(Outbound::<P, D>::watch_delivery, (outbound, packet_hash), place),
        call_ensures(Outbound::<P, D>::get_status, (outbound, &packet_hash), status),
        call_ensures(Outbound::<P, D>::outstanding, (outbound,), count),
    ensures
        place is Some <==> outbound@.sent_messages.contains_key(packet_hash),
        place matches Some(place) ==> *place == outbound@.sent_messages[packet_hash].delivered,
        place is Some <==> status == MessageStatus::Waiting || status is Sent,
        status is Sent ==> status->Sent_0 == outbound@.sent_messages[packet_hash].times_sent,
        count == outbound@.sent_messages.len(),
{
    if outbound@.sent_messages.contains_key(packet_hash) {
        status_says_what_is_known(
            outbound@,
            packet_hash,
            outbound@.sent_messages[packet_hash].times_sent,
        );
    }
    status_says_what_is_known(outbound@, packet_hash, 0);
}

/// Reading an envelope: fewer than six bytes are refused; else the bytes from the
/// seventh on are read as a message of the type in the first two, and it has the
/// number in the third and fourth.
pub proof fn envelope_is_opened<M: Message>(raw: &[u8], result: Result<Envelope<M>, RnsError>)
    requires
        call_ensures(Envelope::<M>::unpack, (raw,), result),
    ensures
        raw@.len() < 6 ==> result == Err::<Envelope<M>, RnsError>(RnsError::ChannelError),
        raw@.len() >= 6 ==> exists|payload: &[u8], message_type: u16, unpacked: Result<M, RnsError>|
            {
                &&& #[trigger] call_ensures(M::unpack, (payload, message_type), unpacked)
                &&& payload@ == raw@.subrange(6, raw@.len() as int)
                &&& message_type == raw@[0] * 256 + raw@[1]
                &&& match unpacked {
                    Ok(message) => result is Ok && result->Ok_0.message == message
                        && result->Ok_0.sequence == raw@[2] * 256 + raw@[3],
                    Err(error) => result == Err::<Envelope<M>, RnsError>(error),
                }
            },
{
    if raw@.len() >= 6 {
        let unpacked = choose|unpacked: Result<M, RnsError>|
            {
                &&& #[trigger] unpacks_to(envelope_content(raw@), unpacked)
                &&& result == opened_envelope(raw@, unpacked)
            };
        envelope_is_unpacked_whole(raw@, unpacked);
        opened_envelope_has_its_number(raw@, unpacked);
    }
}

} // verus!
