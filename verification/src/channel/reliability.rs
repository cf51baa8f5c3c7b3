//! What the sending side of a channel guarantees over many steps, and what both
//! sides guarantee together.

use vstd::prelude::*;

use crate::channel::delivery::{
    after_arrivals, all_may_come_in, carries, delivery_is_faithful, delivery_is_in_order, has_arrived,
    reads_back, reads_back_same, sequence_of, Arrival,
};
use crate::channel::envelope::{envelope_content, message_bytes, message_layout};
use crate::channel::message::{packs_to, unpacks_to, Message, PackedMessage};
use crate::channel::outbound::{
    same_outcome, MessageStatus, OutboundState, Outlet, TimeoutAction, Timer,
};
use crate::channel::params::{
    adjusting_widens_within_bounds, delivery_adjusts_parameters, MAX_TRIES, WINDOW_MAX,
};
use crate::error::RnsError;
use crate::hash::PacketHash;

verus! {

/// What can be asked of the sending side of a channel.
pub enum Step<P, D> {
    /// A message is to be sent.
    Send { packed: PackedMessage, outlet: Outlet },
    /// The link took the bytes of a message, and sent them or could not yet.
    Record { packet_hash: PacketHash, packet: P, delivered: D, sent: bool },
    /// A receipt came in.
    Proof { packet_hash: PacketHash, rtt_nanos: u128 },
    /// No receipt came in time.
    Timeout { packet_hash: PacketHash, outlet: Outlet },
}

/// Whether the step can be taken: a packet is recorded only when there is room in
/// the window, and the counters of rounds do not run over.
pub open spec fn can_step<P, D>(state: OutboundState<P, D>, step: Step<P, D>) -> bool {
    match step {
        Step::Record { .. } => state.has_room(),
        Step::Proof { packet_hash, rtt_nanos } => state.sent_messages.contains_key(packet_hash)
            ==> state.params.has_round_left(rtt_nanos),
        _ => true,
    }
}

/// The state after a step.
pub open spec fn after_step<P, D>(
    state: OutboundState<P, D>,
    step: Step<P, D>,
) -> OutboundState<P, D> {
    match step {
        Step::Send { packed, outlet } => state.after_send(packed, outlet),
        Step::Record { packet_hash, packet, delivered, sent } => state.after_recording(
            packet_hash,
            packet,
            delivered,
            sent,
        ),
        Step::Proof { packet_hash, rtt_nanos } => state.after_proof(packet_hash, rtt_nanos),
        Step::Timeout { packet_hash, outlet } => state.after_timeout(packet_hash, outlet),
    }
}

/// The state after several steps, one after the other.
pub open spec fn after_steps<P, D>(
    start: OutboundState<P, D>,
    steps: Seq<Step<P, D>>,
) -> OutboundState<P, D>
    decreases steps.len(),
{
    if steps.len() == 0 {
        start
    } else {
        after_step(after_steps(start, steps.drop_last()), steps.last())
    }
}

/// Whether each step can be taken when it is its turn.
pub open spec fn can_take_steps<P, D>(
    start: OutboundState<P, D>,
    steps: Seq<Step<P, D>>,
) -> bool
    decreases steps.len(),
{
    steps.len() == 0 || {
        &&& can_take_steps(start, steps.drop_last())
        &&& can_step(after_steps(start, steps.drop_last()), steps.last())
    }
}

/// The messages that were accepted in these steps, and the bytes handed to the
/// link for each.
pub open spec fn accepted<P, D>(
    start: OutboundState<P, D>,
    steps: Seq<Step<P, D>>,
) -> (Seq<PackedMessage>, Seq<Seq<u8>>)
    decreases steps.len(),
{
    if steps.len() == 0 {
        (Seq::empty(), Seq::empty())
    } else {
        let (messages, raws) = accepted(start, steps.drop_last());
        match steps.last() {
            Step::Send { packed, outlet } => match after_steps(
                start,
                steps.drop_last(),
            ).send_result(packed, outlet) {
                Ok(raw) => (messages.push(packed), raws.push(raw)),
                Err(_) => (messages, raws),
            },
            _ => (messages, raws),
        }
    }
}

/// Every step keeps the sending side valid.
pub proof fn step_keeps_valid<P, D>(state: OutboundState<P, D>, step: Step<P, D>)
    requires
        state.wf(),
        can_step(state, step),
    ensures
        after_step(state, step).wf(),
{
    match step {
        Step::Proof { packet_hash, rtt_nanos } => {
            if state.sent_messages.contains_key(packet_hash) {
                adjusting_widens_within_bounds(state.params, rtt_nanos);
            }
        },
        _ => {},
    }
}

/// Whatever steps are taken, the sending side stays valid, no more messages await
/// their receipt than the window allows, the window never shrinks, and what was
/// delivered is never forgotten.
pub proof fn steps_keep_window_and_deliveries<P, D>(
    start: OutboundState<P, D>,
    steps: Seq<Step<P, D>>,
)
    requires
        start.wf(),
        can_take_steps(start, steps),
    ensures
        ({
            let end = after_steps(start, steps);
            &&& end.wf()
            &&& end.sent_messages.len() <= end.params.window <= WINDOW_MAX
            &&& start.params.window <= end.params.window
            &&& start.delivered.subset_of(end.delivered)
        }),
    decreases steps.len(),
{
    if steps.len() > 0 {
        let before = after_steps(start, steps.drop_last());
        steps_keep_window_and_deliveries(start, steps.drop_last());
        step_keeps_valid(before, steps.last());
        match steps.last() {
            Step::Proof { packet_hash, rtt_nanos } => {
                if before.sent_messages.contains_key(packet_hash) {
                    adjusting_widens_within_bounds(before.params, rtt_nanos);
                }
            },
            _ => {},
        }
    }
}

/// A message that is refused, for whatever reason, leaves no trace: the next one
/// that is accepted carries the number that the refused one would have carried.
pub proof fn refused_message_is_not_sent<P, D>(
    state: OutboundState<P, D>,
    refused: PackedMessage,
    outlet: Outlet,
    next: PackedMessage,
    next_outlet: Outlet,
)
    requires
        state.send_result(refused, outlet) is Err,
    ensures
        state.after_send(refused, outlet) == state,
        state.after_send(refused, outlet).send_result(next, next_outlet) matches Ok(raw) ==> raw
            == message_bytes(next, Some(state.next_sequence)),
        state.send_result(refused, outlet) == Err::<Seq<u8>, RnsError>(
            RnsError::ChannelMessageTooBig,
        ) <==> state.takes_turn(outlet),
{
}

/// A message that is accepted can be recorded: there is room for it in the window,
/// whether its packet has been sent or could not be sent yet, and it is known from
/// then on.
pub proof fn accepted_message_can_be_recorded<P, D>(
    state: OutboundState<P, D>,
    message: PackedMessage,
    outlet: Outlet,
    packet_hash: PacketHash,
    packet: P,
    delivered: D,
    sent: bool,
)
    requires
        state.wf(),
        state.send_result(message, outlet) is Ok,
    ensures
        state.after_send(message, outlet).has_room(),
        ({
            let recorded = state.after_send(message, outlet).after_recording(
                packet_hash,
                packet,
                delivered,
                sent,
            );
            &&& recorded.wf()
            &&& recorded.status(packet_hash) == (if sent {
                MessageStatus::Sent(1)
            } else {
                MessageStatus::Waiting
            })
        }),
{
    step_keeps_valid(
        state.after_send(message, outlet),
        Step::Record { packet_hash, packet, delivered, sent },
    );
}

/// A full window refuses every message; a receipt makes room for the next one.
pub proof fn receipt_makes_room<P, D>(
    state: OutboundState<P, D>,
    packet_hash: PacketHash,
    rtt_nanos: u128,
    packed: PackedMessage,
    outlet: Outlet,
)
    requires
        state.wf(),
        state.sent_messages.contains_key(packet_hash),
        state.params.has_round_left(rtt_nanos),
    ensures
        !state.has_room() ==> state.send_result(packed, outlet) == Err::<Seq<u8>, RnsError>(
            RnsError::ChannelLinkNotReady,
        ),
        state.after_proof(packet_hash, rtt_nanos).has_room(),
        outlet.link_active && !outlet.cancelled ==> state.after_proof(
            packet_hash,
            rtt_nanos,
        ).ready(outlet),
{
    adjusting_widens_within_bounds(state.params, rtt_nanos);
}

/// A message whose packet was sent at once has been sent once; one whose packet
/// could not be sent yet is waiting. No other message changes its status.
pub proof fn recording_counts_one_try<P, D>(
    state: OutboundState<P, D>,
    packet_hash: PacketHash,
    packet: P,
    delivered: D,
    sent: bool,
    other: PacketHash,
)
    ensures
        state.after_recording(packet_hash, packet, delivered, sent).status(packet_hash) == (if sent {
            MessageStatus::Sent(1)
        } else {
            MessageStatus::Waiting
        }),
        other != packet_hash ==> state.after_recording(
            packet_hash,
            packet,
            delivered,
            sent,
        ).status(other) == state.status(other),
{
}

/// The receipt of a message that was sent makes it delivered, and no other
/// message changes its status. A second receipt, or that of an unknown message,
/// changes nothing.
pub proof fn receipt_marks_delivered<P, D>(
    state: OutboundState<P, D>,
    packet_hash: PacketHash,
    rtt_nanos: u128,
    other: PacketHash,
    later_rtt_nanos: u128,
)
    ensures
        state.sent_messages.contains_key(packet_hash) ==> state.after_proof(
            packet_hash,
            rtt_nanos,
        ).status(packet_hash) == MessageStatus::Delivered,
        other != packet_hash ==> state.after_proof(packet_hash, rtt_nanos).status(other)
            == state.status(other),
        !state.sent_messages.contains_key(packet_hash) ==> state.after_proof(packet_hash, rtt_nanos)
            == state,
        state.after_proof(packet_hash, rtt_nanos).after_proof(packet_hash, later_rtt_nanos)
            == state.after_proof(packet_hash, rtt_nanos),
{
}

/// A timer that expires after the receipt has come leads to nothing.
pub proof fn timeout_after_receipt_is_ignored<P, D>(
    state: OutboundState<P, D>,
    packet_hash: PacketHash,
    rtt_nanos: u128,
    outlet: Outlet,
)
    ensures
        state.after_proof(packet_hash, rtt_nanos).timeout_action(packet_hash, outlet)
            == TimeoutAction::<P>::Unknown,
        state.after_proof(packet_hash, rtt_nanos).after_timeout(packet_hash, outlet)
            == state.after_proof(packet_hash, rtt_nanos),
{
}

/// Whether a step is about the message with this hash.
pub open spec fn concerns<P, D>(step: Step<P, D>, packet_hash: PacketHash) -> bool {
    match step {
        Step::Send { .. } => false,
        Step::Record { packet_hash: hash, .. } => hash == packet_hash,
        Step::Proof { packet_hash: hash, .. } => hash == packet_hash,
        Step::Timeout { packet_hash: hash, .. } => hash == packet_hash,
    }
}

/// Steps that are about other messages do not change the status of a message.
pub proof fn status_is_independent<P, D>(
    start: OutboundState<P, D>,
    steps: Seq<Step<P, D>>,
    packet_hash: PacketHash,
)
    requires
        forall|i: int| 0 <= i < steps.len() ==> !concerns(#[trigger] steps[i], packet_hash),
    ensures
        after_steps(start, steps).status(packet_hash) == start.status(packet_hash),
    decreases steps.len(),
{
    if steps.len() > 0 {
        let before = steps.drop_last();
        assert forall|i: int| 0 <= i < before.len() implies !concerns(
            #[trigger] before[i],
            packet_hash,
        ) by {
            assert(before[i] == steps[i]);
        }
        status_is_independent(start, before, packet_hash);
        assert(!concerns(steps[steps.len() - 1], packet_hash));
    }
}

/// A message that was delivered stays delivered, unless a packet with the same
/// hash is recorded anew.
pub proof fn delivered_stays_delivered<P, D>(
    start: OutboundState<P, D>,
    steps: Seq<Step<P, D>>,
    packet_hash: PacketHash,
)
    requires
        start.status(packet_hash) == MessageStatus::Delivered,
        forall|i: int|
            0 <= i < steps.len() && (#[trigger] steps[i]) is Record
                ==> steps[i]->Record_packet_hash != packet_hash,
    ensures
        after_steps(start, steps).status(packet_hash) == MessageStatus::Delivered,
    decreases steps.len(),
{
    if steps.len() > 0 {
        let before = steps.drop_last();
        assert forall|i: int|
            0 <= i < before.len() && (#[trigger] before[i]) is Record implies before[i]->Record_packet_hash
            != packet_hash by {
            assert(before[i] == steps[i]);
        }
        delivered_stays_delivered(start, before, packet_hash);
        assert(steps.last() == steps[steps.len() - 1]);
    }
}

/// Whether a step is that the timer of this message expires.
pub open spec fn times_out<P, D>(step: Step<P, D>, packet_hash: PacketHash) -> bool {
    step is Timeout && step->Timeout_packet_hash == packet_hash
}

/// How often the timer of a message has expired in these steps.
pub open spec fn timeouts_of<P, D>(steps: Seq<Step<P, D>>, packet_hash: PacketHash) -> nat
    decreases steps.len(),
{
    if steps.len() == 0 {
        0
    } else {
        timeouts_of(steps.drop_last(), packet_hash) + (if times_out(steps.last(), packet_hash) {
            1nat
        } else {
            0nat
        })
    }
}

/// How often a message was sent again in these steps.
pub open spec fn resends_of<P, D>(
    start: OutboundState<P, D>,
    steps: Seq<Step<P, D>>,
    packet_hash: PacketHash,
) -> nat
    decreases steps.len(),
{
    if steps.len() == 0 {
        0
    } else {
        resends_of(start, steps.drop_last(), packet_hash) + (if times_out(steps.last(), packet_hash)
            && after_steps(start, steps.drop_last()).timeout_action(
            packet_hash,
            steps.last()->Timeout_outlet,
        ) is Resend {
            1nat
        } else {
            0nat
        })
    }
}

/// If no receipt comes for a message, whatever comes for others, one more try is
/// made each time that its timer expires, with the same packet, until as many were
/// made as are allowed; then the link is to be closed.
pub proof fn gives_up_after_max_tries<P, D>(
    start: OutboundState<P, D>,
    steps: Seq<Step<P, D>>,
    packet_hash: PacketHash,
    outlet: Outlet,
)
    requires
        start.wf(),
        can_take_steps(start, steps),
        start.sent_messages.contains_key(packet_hash),
        forall|i: int|
            0 <= i < steps.len() && concerns(#[trigger] steps[i], packet_hash)
                ==> steps[i] is Timeout,
    ensures
        ({
            let tries = start.sent_messages[packet_hash].tries + timeouts_of(steps, packet_hash);
            let later = after_steps(start, steps);
            &&& later.sent_messages.contains_key(packet_hash)
            &&& later.sent_messages[packet_hash].packet == start.sent_messages[packet_hash].packet
            &&& later.sent_messages[packet_hash].tries == (if tries < MAX_TRIES {
                tries
            } else {
                MAX_TRIES as int
            })
            &&& later.timeout_action(packet_hash, outlet) == (if tries >= MAX_TRIES {
                TimeoutAction::Teardown
            } else if outlet.passes() {
                TimeoutAction::Resend {
                    packet: start.sent_messages[packet_hash].packet,
                    timer: later.timer(packet_hash),
                }
            } else {
                TimeoutAction::Postpone { timer: later.timer(packet_hash) }
            })
        }),
    decreases steps.len(),
{
    steps_keep_window_and_deliveries(start, steps);
    if steps.len() > 0 {
        lemma_only_timeouts_before(steps, packet_hash);
        gives_up_after_max_tries(start, steps.drop_last(), packet_hash, outlet);
        assert(steps.last() == steps[steps.len() - 1]);
    }
}

/// The status of a message without a receipt says how often it went out, and that
/// it waits if it never did: a try in which it does not go out does not count.
pub proof fn status_counts_what_went_out<P, D>(
    start: OutboundState<P, D>,
    steps: Seq<Step<P, D>>,
    packet_hash: PacketHash,
)
    requires
        start.wf(),
        can_take_steps(start, steps),
        start.sent_messages.contains_key(packet_hash),
        forall|i: int|
            0 <= i < steps.len() && concerns(#[trigger] steps[i], packet_hash)
                ==> steps[i] is Timeout,
    ensures
        ({
            let times = start.sent_messages[packet_hash].times_sent + resends_of(
                start,
                steps,
                packet_hash,
            );
            let later = after_steps(start, steps);
            &&& later.sent_messages.contains_key(packet_hash)
            &&& later.sent_messages[packet_hash].times_sent == times
            &&& later.status(packet_hash) == (if times == 0 {
                MessageStatus::Waiting
            } else {
                MessageStatus::Sent(times as u16)
            })
        }),
    decreases steps.len(),
{
    steps_keep_window_and_deliveries(start, steps);
    if steps.len() > 0 {
        lemma_only_timeouts_before(steps, packet_hash);
        steps_keep_window_and_deliveries(start, steps.drop_last());
        status_counts_what_went_out(start, steps.drop_last(), packet_hash);
        assert(steps.last() == steps[steps.len() - 1]);
    }
}

/// If the packet goes out at every try, a message without a receipt is sent exactly
/// as often as tries are allowed.
pub proof fn every_try_is_a_send_over_an_active_link<P, D>(
    start: OutboundState<P, D>,
    steps: Seq<Step<P, D>>,
    packet_hash: PacketHash,
)
    requires
        start.wf(),
        can_take_steps(start, steps),
        start.status(packet_hash) == MessageStatus::Sent(1),
        start.sent_messages[packet_hash].tries == 1,
        forall|i: int|
            0 <= i < steps.len() && concerns(#[trigger] steps[i], packet_hash)
                ==> steps[i] is Timeout && steps[i]->Timeout_outlet.passes(),
    ensures
        ({
            let sends = 1 + timeouts_of(steps, packet_hash);
            after_steps(start, steps).status(packet_hash) == MessageStatus::Sent(
                (if sends < MAX_TRIES { sends } else { MAX_TRIES as nat }) as u16,
            )
        }),
    decreases steps.len(),
{
    let outlet = Outlet { transport_available: true, link_active: true, cancelled: false };
    gives_up_after_max_tries(start, steps, packet_hash, outlet);
    status_counts_what_went_out(start, steps, packet_hash);
    if steps.len() > 0 {
        let before = steps.drop_last();
        assert forall|i: int|
            0 <= i < before.len() && concerns(
                #[trigger] before[i],
                packet_hash,
            ) implies before[i] is Timeout && before[i]->Timeout_outlet.passes() by {
            assert(before[i] == steps[i]);
        }
        every_try_is_a_send_over_an_active_link(start, before, packet_hash);
        gives_up_after_max_tries(start, before, packet_hash, outlet);
        status_counts_what_went_out(start, before, packet_hash);
        assert(steps.last() == steps[steps.len() - 1]);
    }
}

proof fn lemma_only_timeouts_before<P, D>(steps: Seq<Step<P, D>>, packet_hash: PacketHash)
    requires
        steps.len() > 0,
        forall|i: int|
            0 <= i < steps.len() && concerns(#[trigger] steps[i], packet_hash)
                ==> steps[i] is Timeout,
    ensures
        forall|i: int|
            0 <= i < steps.len() - 1 && concerns(
                #[trigger] steps.drop_last()[i],
                packet_hash,
            ) ==> steps.drop_last()[i] is Timeout,
{
    assert forall|i: int|
        0 <= i < steps.len() - 1 && concerns(
            #[trigger] steps.drop_last()[i],
            packet_hash,
        ) implies steps.drop_last()[i] is Timeout by {
        assert(steps.drop_last()[i] == steps[i]);
    }
}

/// Once the link is not active any more, or the channel was cancelled, no message
/// is sent, and none leaves a trace.
pub proof fn closed_link_refuses_messages<P, D>(
    state: OutboundState<P, D>,
    packed: PackedMessage,
    outlet: Outlet,
)
    requires
        !outlet.link_active || outlet.cancelled,
    ensures
        !state.ready(outlet),
        state.send_result(packed, outlet) == Err::<Seq<u8>, RnsError>(
            RnsError::ChannelLinkNotReady,
        ),
        state.after_send(packed, outlet) == state,
{
}

/// The messages accepted one after the other carry sequence numbers that follow
/// one another, whatever messages are refused in between.
pub proof fn messages_are_numbered_in_order<P, D>(
    start: OutboundState<P, D>,
    steps: Seq<Step<P, D>>,
    first: nat,
)
    requires
        start.next_sequence == sequence_of(first),
    ensures
        ({
            let (messages, raws) = accepted(start, steps);
            &&& messages.len() == raws.len()
            &&& after_steps(start, steps).next_sequence == sequence_of(first + messages.len())
            &&& forall|i: int|
                0 <= i < raws.len() ==> #[trigger] raws[i] == message_bytes(
                    messages[i],
                    Some(sequence_of((first + i) as nat)),
                )
        }),
    decreases steps.len(),
{
    if steps.len() > 0 {
        let before = after_steps(start, steps.drop_last());
        let (messages_before, raws_before) = accepted(start, steps.drop_last());
        let (messages, raws) = accepted(start, steps);
        messages_are_numbered_in_order(start, steps.drop_last(), first);
        let index = first + messages_before.len();
        match steps.last() {
            Step::Send { packed, outlet } => {
                lemma_send_takes_number(before, packed, outlet, index);
                if before.send_result(packed, outlet) is Ok {
                    assert forall|i: int| 0 <= i < raws.len() implies #[trigger] raws[i]
                        == message_bytes(messages[i], Some(sequence_of((first + i) as nat))) by {
                        if i < raws_before.len() {
                            assert(raws[i] == raws_before[i]);
                        }
                    }
                }
            },
            _ => {},
        }
    }
}

proof fn lemma_send_takes_number<P, D>(
    state: OutboundState<P, D>,
    packed: PackedMessage,
    outlet: Outlet,
    index: nat,
)
    requires
        state.next_sequence == sequence_of(index),
    ensures
        state.after_send(packed, outlet).next_sequence == sequence_of(
            if state.send_result(packed, outlet) is Ok {
                index + 1
            } else {
                index
            },
        ),
        state.send_result(packed, outlet) matches Ok(raw) ==> raw == message_bytes(
            packed,
            Some(sequence_of(index)),
        ),
{
}

/// Whether the arrival, if it could be read, brings bytes that were handed to the
/// link.
pub open spec fn comes_from<M: Message>(arrival: Arrival<M>, raws: Seq<Seq<u8>>) -> bool {
    arrival.unpacked is Ok ==> {
        &&& arrival.index < raws.len()
        &&& arrival.raw == raws[arrival.index as int]
        &&& unpacks_to(envelope_content(arrival.raw), arrival.unpacked)
    }
}

/// Reliable, ordered delivery from end to end. Let messages be sent through a
/// new channel, with whatever refusals, receipts and timeouts in between, and let
/// the bytes that were handed to the link come in at the other end, in any order
/// and any number of times, among others that cannot be read. Then the messages
/// handed on there are those that were sent, in the order in which they were sent,
/// up to the first that has not come in.
pub proof fn channel_delivers_in_order<M: Message, P, D>(
    start: OutboundState<P, D>,
    steps: Seq<Step<P, D>>,
    arrivals: Seq<Arrival<M>>,
)
    requires
        start.next_sequence == 0,
        all_may_come_in(arrivals),
        forall|i: int|
            0 <= i < arrivals.len() ==> comes_from(
                #[trigger] arrivals[i],
                accepted(start, steps).1,
            ),
    ensures
        ({
            let messages = accepted(start, steps).0;
            let delivered = after_arrivals(arrivals).1;
            &&& delivered.len() <= messages.len()
            &&& forall|index: nat|
                index < delivered.len() ==> #[trigger] has_arrived(arrivals, index)
            &&& !has_arrived(arrivals, delivered.len())
            &&& forall|i: int|
                0 <= i < delivered.len() ==> reads_back(messages, i, #[trigger] delivered[i])
        }),
{
    let (messages, raws) = accepted(start, steps);
    messages_are_numbered_in_order(start, steps, 0);
    assert forall|i: int| 0 <= i < arrivals.len() implies carries(
        #[trigger] arrivals[i],
        messages,
    ) by {
        assert(comes_from(arrivals[i], raws));
        if arrivals[i].unpacked is Ok {
            assert(raws[arrivals[i].index as int] == arrivals[i].raw);
        }
    }
    delivery_is_in_order(arrivals, messages);
}

/// What is sent through a new channel is what comes out at the other end: if every
/// message is read back the same as it was, by whatever measure, the messages
/// handed on are the same as the first ones that were sent, under the conditions
/// of `channel_delivers_in_order`.
pub proof fn channel_delivers_what_was_sent<M: Message, P, D>(
    start: OutboundState<P, D>,
    steps: Seq<Step<P, D>>,
    arrivals: Seq<Arrival<M>>,
    messages: Seq<M>,
    same: spec_fn(M, M) -> bool,
)
    requires
        start.next_sequence == 0,
        all_may_come_in(arrivals),
        forall|i: int|
            0 <= i < arrivals.len() ==> comes_from(
                #[trigger] arrivals[i],
                accepted(start, steps).1,
            ),
        messages.len() == accepted(start, steps).0.len(),
        forall|i: int|
            0 <= i < messages.len() ==> packs_to(
                messages[i],
                #[trigger] accepted(start, steps).0[i],
            ),
        reads_back_same(same),
    ensures
        after_arrivals(arrivals).1.len() <= messages.len(),
        forall|i: int|
            0 <= i < after_arrivals(arrivals).1.len() ==> same(
                messages[i],
                #[trigger] after_arrivals(arrivals).1[i],
            ),
{
    let (sent, raws) = accepted(start, steps);
    messages_are_numbered_in_order(start, steps, 0);
    assert forall|i: int| 0 <= i < arrivals.len() implies carries(#[trigger] arrivals[i], sent) by {
        assert(comes_from(arrivals[i], raws));
        if arrivals[i].unpacked is Ok {
            assert(raws[arrivals[i].index as int] == arrivals[i].raw);
        }
    }
    delivery_is_faithful(arrivals, messages, sent, same);
}

/// When a message is accepted: exactly if the transport is there, the link active,
/// the channel not cancelled, the window not full, and the payload no longer than
/// the packet size less six. It is then sent in an envelope of its own with the
/// number that was next, and the number after it is next, counting round; nothing
/// else changes. If the channel is ready but the payload too long, it is refused for
/// its size, and else because the channel is not ready.
pub proof fn message_is_accepted_iff_it_fits<P, D>(
    state: OutboundState<P, D>,
    packed: PackedMessage,
    outlet: Outlet,
)
    ensures
        ({
            let ready = outlet.transport_available && outlet.link_active && !outlet.cancelled
                && state.sent_messages.len() < state.params.window;
            let fits = packed.payload.len() + 6 <= state.packet_mdu;
            let result = state.send_result(packed, outlet);
            let after = state.after_send(packed, outlet);
            &&& result is Ok <==> ready && fits
            &&& !ready ==> result == Err::<Seq<u8>, RnsError>(RnsError::ChannelLinkNotReady)
            &&& ready && !fits ==> result == Err::<Seq<u8>, RnsError>(
                RnsError::ChannelMessageTooBig,
            )
            &&& result matches Ok(raw) ==> {
                &&& raw.len() == packed.payload.len() + 6
                &&& raw[0] * 256 + raw[1] == packed.message_type
                &&& raw[2] * 256 + raw[3] == state.next_sequence
                &&& raw[4] * 256 + raw[5] == packed.payload.len() as int % 65536
                &&& raw.subrange(6, raw.len() as int) == packed.payload
                &&& after.next_sequence == (state.next_sequence + 1) % 65536
            }
            &&& result is Err ==> after.next_sequence == state.next_sequence
            &&& after.link_id == state.link_id
            &&& after.packet_mdu == state.packet_mdu
            &&& after.sent_messages == state.sent_messages
            &&& after.delivered == state.delivered
            &&& after.params == state.params
        }),
{
    message_layout(packed, state.next_sequence);
}

/// What is returned is what was worked out: success for success with the same
/// bytes, failure for failure with the same error.
pub proof fn outcome_is_byte_for_byte(
    result: Result<Vec<u8>, RnsError>,
    expected: Result<Seq<u8>, RnsError>,
)
    ensures
        same_outcome(result, expected) <==> {
            ||| result is Ok && expected is Ok && result->Ok_0@ == expected->Ok_0
            ||| result is Err && expected is Err && result->Err_0 == expected->Err_0
        },
{
}

/// A channel is ready exactly if it was not cancelled, the link is active, and
/// fewer messages await their receipt than the window allows.
pub proof fn ready_iff_open_and_room<P, D>(state: OutboundState<P, D>, outlet: Outlet)
    ensures
        state.ready(outlet) <==> !outlet.cancelled && outlet.link_active
            && state.sent_messages.len() < state.params.window,
        state.has_room() <==> state.sent_messages.len() < state.params.window,
{
}

/// What recording a message does: it is kept under its hash with its packet and the
/// place to report to, with one try if it was sent and none if not; all other
/// messages, and all else, stay as they are.
pub proof fn recording_keeps_the_message<P, D>(
    state: OutboundState<P, D>,
    packet_hash: PacketHash,
    packet: P,
    delivered: D,
    sent: bool,
)
    ensures
        ({
            let after = state.after_recording(packet_hash, packet, delivered, sent);
            let entry = after.sent_messages[packet_hash];
            &&& after.sent_messages.contains_key(packet_hash)
            &&& entry.packet == packet
            &&& entry.delivered == delivered
            &&& sent ==> entry.tries == 1 && entry.times_sent == 1
            &&& !sent ==> entry.tries == 0 && entry.times_sent == 0
            &&& after.sent_messages.remove(packet_hash) == state.sent_messages.remove(packet_hash)
            &&& after.link_id == state.link_id
            &&& after.packet_mdu == state.packet_mdu
            &&& after.delivered == state.delivered
            &&& after.next_sequence == state.next_sequence
            &&& after.params == state.params
        }),
{
    let after = state.after_recording(packet_hash, packet, delivered, sent);
    assert(after.sent_messages.remove(packet_hash) =~= state.sent_messages.remove(packet_hash));
}

/// The timer of a message bears the hash of that message, the number of messages
/// that await their receipt and the number of tries of that message. So, when it
/// expires, it is that very message that is tried again, or given up.
pub proof fn timer_is_that_of_the_message<P, D>(
    state: OutboundState<P, D>,
    packet_hash: PacketHash,
    outlet: Outlet,
)
    requires
        state.wf(),
        state.sent_messages.contains_key(packet_hash),
    ensures
        ({
            let timer = state.timer(packet_hash);
            let action = state.timeout_action(timer.packet_hash, outlet);
            &&& timer.packet_hash == packet_hash
            &&& timer.ring_len == state.sent_messages.len()
            &&& timer.tries == state.sent_messages[packet_hash].tries
            &&& action !is Unknown
            &&& action matches TimeoutAction::Resend { packet, timer: next } ==> packet
                == state.sent_messages[packet_hash].packet && next.packet_hash == packet_hash
            &&& action matches TimeoutAction::Postpone { timer: next } ==> next.packet_hash
                == packet_hash
        }),
{
}

/// What is done when no receipt came in time. Nothing, if the message awaits none;
/// the link is closed, if there were five tries; else the packet is sent again if
/// the link is active and the transport there, and put off if not. Sent or put off,
/// one more try is counted, and the timer is that of the message; sent, one more
/// send is counted. Nothing else changes.
pub proof fn timeout_leads_to_one_more_try<P, D>(
    state: OutboundState<P, D>,
    packet_hash: PacketHash,
    outlet: Outlet,
)
    requires
        state.wf(),
    ensures
        ({
            let entry = state.sent_messages[packet_hash];
            let action = state.timeout_action(packet_hash, outlet);
            let after = state.after_timeout(packet_hash, outlet);
            let again = after.sent_messages[packet_hash];
            if !state.sent_messages.contains_key(packet_hash) {
                &&& action == TimeoutAction::<P>::Unknown
                &&& after == state
            } else if entry.tries >= 5 {
                &&& action == TimeoutAction::<P>::Teardown
                &&& after == state
            } else {
                let timer = Timer {
                    packet_hash,
                    ring_len: state.sent_messages.len() as usize,
                    tries: entry.tries,
                };
                &&& outlet.link_active && outlet.transport_available ==> action
                    == (TimeoutAction::Resend { packet: entry.packet, timer }) && again.times_sent
                    == entry.times_sent + 1
                &&& !(outlet.link_active && outlet.transport_available) ==> action == (
                TimeoutAction::<P>::Postpone { timer }) && again.times_sent == entry.times_sent
                &&& after.sent_messages.contains_key(packet_hash)
                &&& again.packet == entry.packet
                &&& again.delivered == entry.delivered
                &&& again.tries == entry.tries + 1
                &&& after.sent_messages.remove(packet_hash) == state.sent_messages.remove(
                    packet_hash,
                )
                &&& after.link_id == state.link_id
                &&& after.packet_mdu == state.packet_mdu
                &&& after.delivered == state.delivered
                &&& after.next_sequence == state.next_sequence
                &&& after.params == state.params
            }
        }),
{
    let after = state.after_timeout(packet_hash, outlet);
    assert(after.sent_messages.remove(packet_hash) =~= state.sent_messages.remove(packet_hash));
}

/// What a receipt does: the message that awaited it is delivered and awaits it no
/// longer, the window is larger by one unless it was at its limit, and the counters
/// of rounds and the limits are those that the round trip time calls for. All other
/// messages, and all else, stay as they are.
pub proof fn receipt_adjusts_the_window<P, D>(
    state: OutboundState<P, D>,
    packet_hash: PacketHash,
    rtt_nanos: u128,
)
    requires
        state.sent_messages.contains_key(packet_hash),
        0 < rtt_nanos <= 180_000_008 ==> state.params.fast_rate_rounds < 65535,
        180_000_008 < rtt_nanos <= 750_000_032 ==> state.params.medium_rate_rounds < 65535,
    ensures
        ({
            let after = state.after_proof(packet_hash, rtt_nanos);
            let before = state.params;
            let params = after.params;
            &&& !after.sent_messages.contains_key(packet_hash)
            &&& after.sent_messages.insert(packet_hash, state.sent_messages[packet_hash])
                == state.sent_messages
            &&& after.delivered == state.delivered.insert(packet_hash)
            &&& after.link_id == state.link_id
            &&& after.packet_mdu == state.packet_mdu
            &&& after.next_sequence == state.next_sequence
            &&& params.max_tries == before.max_tries
            &&& before.window < before.window_max ==> params.window == before.window + 1
            &&& before.window >= before.window_max ==> params.window == before.window
            &&& params.fast_rate_rounds == (if rtt_nanos == 0 {
                before.fast_rate_rounds as int
            } else if rtt_nanos <= 180_000_008 {
                before.fast_rate_rounds + 1
            } else {
                0
            })
            &&& params.medium_rate_rounds == (if rtt_nanos <= 180_000_008 {
                before.medium_rate_rounds as int
            } else if rtt_nanos <= 750_000_032 {
                before.medium_rate_rounds + 1
            } else {
                0
            })
            &&& (params.window_max, params.window_min) == (if 0 < rtt_nanos <= 180_000_008
                && params.fast_rate_rounds == 10 && before.window_max < 48 {
                (48u16, 16u16)
            } else if 180_000_008 < rtt_nanos <= 750_000_032 && params.medium_rate_rounds == 10
                && before.window_max < 12 {
                (12u16, 5u16)
            } else {
                (before.window_max, before.window_min)
            })
        }),
{
    let after = state.after_proof(packet_hash, rtt_nanos);
    delivery_adjusts_parameters(state.params, rtt_nanos);
    assert(after.sent_messages.insert(packet_hash, state.sent_messages[packet_hash])
        =~= state.sent_messages);
}

/// The receipt of a message that awaits none changes nothing.
pub proof fn stray_receipt_changes_nothing<P, D>(
    state: OutboundState<P, D>,
    packet_hash: PacketHash,
    rtt_nanos: u128,
)
    requires
        !state.sent_messages.contains_key(packet_hash),
    ensures
        state.after_proof(packet_hash, rtt_nanos) == state,
{
}

/// The round trip times at which receipts of awaited messages came in these steps.
pub open spec fn receipts_in<P, D>(
    start: OutboundState<P, D>,
    steps: Seq<Step<P, D>>,
) -> Seq<u128>
    decreases steps.len(),
{
    if steps.len() == 0 {
        Seq::empty()
    } else {
        let before = receipts_in(start, steps.drop_last());
        match steps.last() {
            Step::Proof { packet_hash, rtt_nanos } => if after_steps(
                start,
                steps.drop_last(),
            ).sent_messages.contains_key(packet_hash) {
                before.push(rtt_nanos)
            } else {
                before
            },
            _ => before,
        }
    }
}

/// Only receipts change the parameters: after any steps the window is larger by the
/// number of receipts that came, as long as these do not reach the limit that it
/// had at the start, and without a receipt everything is as it was.
pub proof fn window_grows_with_receipts<P, D>(
    start: OutboundState<P, D>,
    steps: Seq<Step<P, D>>,
)
    requires
        start.wf(),
        can_take_steps(start, steps),
    ensures
        ({
            let end = after_steps(start, steps).params;
            let count = receipts_in(start, steps).len();
            &&& count == 0 ==> end == start.params
            &&& start.params.window + count <= start.params.window_max ==> end.window
                == start.params.window + count
            &&& end.window_max >= start.params.window_max
            &&& end.window <= start.params.window + count
        }),
    decreases steps.len(),
{
    if steps.len() > 0 {
        let before = after_steps(start, steps.drop_last());
        window_grows_with_receipts(start, steps.drop_last());
        match steps.last() {
            Step::Proof { packet_hash, rtt_nanos } => {
                if before.sent_messages.contains_key(packet_hash) {
                    receipt_adjusts_the_window(before, packet_hash, rtt_nanos);
                } else {
                    stray_receipt_changes_nothing(before, packet_hash, rtt_nanos);
                }
            },
            _ => {},
        }
    }
}

/// Ten receipts in a row at a medium round trip time raise the limits of a new
/// channel to 12 and 5, and ten at a fast one to 48 and 16, whatever else happens
/// in between.
pub proof fn ten_receipts_raise_the_limits<P, D>(
    start: OutboundState<P, D>,
    steps: Seq<Step<P, D>>,
)
    requires
        start.wf(),
        can_take_steps(start, steps),
        start.params.fast_rate_rounds == 0,
        start.params.medium_rate_rounds == 0,
        start.params.window_max <= 5,
        receipts_in(start, steps).len() <= 10,
    ensures
        ({
            let rtts = receipts_in(start, steps);
            let end = after_steps(start, steps).params;
            &&& (forall|i: int|
                0 <= i < rtts.len() ==> 180_000_008 < #[trigger] rtts[i] <= 750_000_032) ==> {
                &&& end.medium_rate_rounds == rtts.len()
                &&& rtts.len() < 10 ==> end.window_max == start.params.window_max
                &&& rtts.len() == 10 ==> end.window_max == 12 && end.window_min == 5
            }
            &&& (forall|i: int| 0 <= i < rtts.len() ==> 0 < #[trigger] rtts[i] <= 180_000_008) ==> {
                &&& end.fast_rate_rounds == rtts.len()
                &&& rtts.len() < 10 ==> end.window_max == start.params.window_max
                &&& rtts.len() == 10 ==> end.window_max == 48 && end.window_min == 16
            }
        }),
    decreases steps.len(),
{
    if steps.len() > 0 {
        let before = after_steps(start, steps.drop_last());
        let rtts = receipts_in(start, steps);
        let rtts_before = receipts_in(start, steps.drop_last());
        ten_receipts_raise_the_limits(start, steps.drop_last());
        match steps.last() {
            Step::Proof { packet_hash, rtt_nanos } => {
                if before.sent_messages.contains_key(packet_hash) {
                    assert(rtts.drop_last() =~= rtts_before);
                    assert(rtts[rtts.len() - 1] == rtt_nanos);
                    assert(forall|i: int| 0 <= i < rtts_before.len() ==> rtts[i] == rtts_before[i]);
                    assert(before.params.has_round_left(rtt_nanos));
                    receipt_adjusts_the_window(before, packet_hash, rtt_nanos);
                } else {
                    stray_receipt_changes_nothing(before, packet_hash, rtt_nanos);
                }
            },
            _ => {},
        }
    }
}

/// What the status of a message says, by what is kept of it.
pub proof fn status_says_what_is_known<P, D>(
    state: OutboundState<P, D>,
    packet_hash: PacketHash,
    times: u16,
)
    ensures
        state.status(packet_hash) == MessageStatus::Unknown <==> !state.sent_messages.contains_key(
            packet_hash,
        ) && !state.delivered.contains(packet_hash),
        state.status(packet_hash) == MessageStatus::Delivered
            <==> !state.sent_messages.contains_key(packet_hash) && state.delivered.contains(
            packet_hash,
        ),
        state.status(packet_hash) == MessageStatus::Waiting <==> state.sent_messages.contains_key(
            packet_hash,
        ) && state.sent_messages[packet_hash].times_sent == 0,
        times > 0 ==> (state.status(packet_hash) == MessageStatus::Sent(times)
            <==> state.sent_messages.contains_key(packet_hash)
            && state.sent_messages[packet_hash].times_sent == times),
        state.status(packet_hash) != MessageStatus::Sent(0),
{
}

} // verus!
