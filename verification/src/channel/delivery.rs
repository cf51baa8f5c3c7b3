//! What the receiving side of a channel guarantees over many messages: they are
//! handed on in the order in which they were sent, without gaps, whatever the
//! order in which they came in.

use vstd::prelude::*;

use crate::channel::envelope::{
    envelope_content, envelope_is_read_by_position, envelope_reads_back, message_bytes,
};
use crate::channel::inbound::{
    behind_window, first_gap, sequence_at, sequence_offset, InboundState, SEQUENCE_COUNT,
};
use crate::channel::message::{packs_to, unpacks_to, Message, PackedMessage};
use crate::channel::params::WINDOW_MAX;
use crate::error::RnsError;

verus! {

/// The sequence number of the message with this index, counting from 0 all
/// messages that were ever sent through the channel.
pub open spec fn sequence_of(index: nat) -> u16 {
    (index % (SEQUENCE_COUNT as nat)) as u16
}

/// Whether the receiving side is right about a message that comes in when `count`
/// messages have been handed on.
///
/// Sequence numbers repeat. The receiving side takes a number that is at most one
/// window behind the next one for that of a message which was handed on, and
/// every other number for that of the next message which bears it.
pub open spec fn may_come_in(count: nat, index: nat) -> bool {
    if behind_window(sequence_of(index), sequence_of(count)) {
        index < count
    } else {
        count <= index < count + SEQUENCE_COUNT
    }
}

/// A payload that came in: which message it carries, its bytes, and what the
/// message was read back as. If it could not be read, it carries nothing.
pub struct Arrival<M> {
    pub index: nat,
    pub raw: Seq<u8>,
    pub unpacked: Result<M, RnsError>,
}

/// The state of the receiving side, and all messages it has handed on, after
/// these arrivals.
pub open spec fn after_arrivals<M>(arrivals: Seq<Arrival<M>>) -> (InboundState<M>, Seq<M>)
    decreases arrivals.len(),
{
    if arrivals.len() == 0 {
        (InboundState::initial(), Seq::empty())
    } else {
        let (before, delivered) = after_arrivals(arrivals.drop_last());
        let (after, more) = before.received(arrivals.last().raw, arrivals.last().unpacked);
        (after, delivered + more)
    }
}

/// Whether the receiving side was right about each arrival that it could read,
/// when it came.
pub open spec fn all_may_come_in<M>(arrivals: Seq<Arrival<M>>) -> bool
    decreases arrivals.len(),
{
    arrivals.len() == 0 || {
        &&& all_may_come_in(arrivals.drop_last())
        &&& arrivals.last().unpacked is Ok ==> may_come_in(
            after_arrivals(arrivals.drop_last()).1.len(),
            arrivals.last().index,
        )
    }
}

/// Whether the arrival, if it could be read, carries one of the messages in
/// `sent`, unchanged.
pub open spec fn carries<M: Message>(arrival: Arrival<M>, sent: Seq<PackedMessage>) -> bool {
    arrival.unpacked is Ok ==> {
        &&& arrival.index < sent.len()
        &&& arrival.raw == message_bytes(
            sent[arrival.index as int],
            Some(sequence_of(arrival.index)),
        )
        &&& unpacks_to(envelope_content(arrival.raw), arrival.unpacked)
    }
}

/// Whether the message with this index has come in and could be read.
pub open spec fn has_arrived<M>(arrivals: Seq<Arrival<M>>, index: nat) -> bool {
    exists|i: int|
        0 <= i < arrivals.len() && (#[trigger] arrivals[i]).index == index
            && arrivals[i].unpacked is Ok
}

/// Whether `message` is what the one with this index in `sent` may be read back
/// as.
pub open spec fn reads_back<M: Message>(
    sent: Seq<PackedMessage>,
    index: int,
    message: M,
) -> bool {
    unpacks_to(sent[index], Ok::<M, RnsError>(message))
}

/// Whether whatever a packed message is read back as is the same as the message
/// that was packed, by the measure `same`.
pub open spec fn reads_back_same<M: Message>(same: spec_fn(M, M) -> bool) -> bool {
    forall|message: M, packed: PackedMessage, copy: M|
        #![trigger packs_to(message, packed), unpacks_to(packed, Ok::<M, RnsError>(copy))]
        packs_to(message, packed) && unpacks_to(packed, Ok::<M, RnsError>(copy)) ==> same(
            message,
            copy,
        )
}

/// The index of the held message with this sequence number, when `count`
/// messages have been handed on.
spec fn held_index(count: nat, sequence: u16) -> nat {
    (count + sequence_offset(sequence_of(count), sequence)) as nat
}

/// What is held are messages that came in, as they were read back.
#[verifier::opaque]
spec fn held_have_arrived<M: Message>(
    on_hold: Map<u16, M>,
    count: nat,
    arrivals: Seq<Arrival<M>>,
    sent: Seq<PackedMessage>,
) -> bool {
    forall|sequence: u16| #[trigger]
        on_hold.contains_key(sequence) ==> {
            &&& has_arrived(arrivals, held_index(count, sequence))
            &&& held_index(count, sequence) < sent.len()
            &&& reads_back(sent, held_index(count, sequence) as int, on_hold[sequence])
        }
}

/// Messages that came in and were not handed on are held.
#[verifier::opaque]
spec fn arrived_are_held<M: Message>(
    on_hold: Map<u16, M>,
    count: nat,
    arrivals: Seq<Arrival<M>>,
) -> bool {
    forall|index: nat| #[trigger]
        has_arrived(arrivals, index) && index >= count ==> {
            &&& index < count + SEQUENCE_COUNT
            &&& on_hold.contains_key(sequence_of(index))
        }
}

/// What was handed on had come in.
#[verifier::opaque]
spec fn delivered_have_arrived<M: Message>(count: nat, arrivals: Seq<Arrival<M>>) -> bool {
    forall|index: nat| index < count ==> #[trigger] has_arrived(arrivals, index)
}

/// What the messages held at any moment mean for the messages in `sent`.
spec fn holds<M: Message>(
    on_hold: Map<u16, M>,
    count: nat,
    arrivals: Seq<Arrival<M>>,
    sent: Seq<PackedMessage>,
) -> bool {
    &&& held_have_arrived(on_hold, count, arrivals, sent)
    &&& arrived_are_held(on_hold, count, arrivals)
    &&& delivered_have_arrived(count, arrivals)
}

/// What the state of the receiving side means for the messages in `sent`.
spec fn tracks<M: Message>(
    state: InboundState<M>,
    count: nat,
    arrivals: Seq<Arrival<M>>,
    sent: Seq<PackedMessage>,
) -> bool {
    &&& state.sequence == sequence_of(count)
    &&& holds(state.on_hold, count, arrivals, sent)
    &&& !state.on_hold.contains_key(state.sequence)
}

proof fn lemma_sequence_of(count: nat, index: nat)
    requires
        count <= index < count + SEQUENCE_COUNT,
    ensures
        sequence_offset(sequence_of(count), sequence_of(index)) == index - count,
        sequence_at(sequence_of(count), index - count) == sequence_of(index),
        held_index(count, sequence_of(index)) == index,
{
}

/// The messages before the first gap are held, and none is held at it, unless
/// one is held for every sequence number.
pub proof fn first_gap_is_first<M>(on_hold: Map<u16, M>, next: u16, from: nat)
    requires
        from <= SEQUENCE_COUNT,
    ensures
        from <= first_gap(on_hold, next, from) <= SEQUENCE_COUNT,
        forall|i: int|
            from <= i < first_gap(on_hold, next, from) ==> on_hold.contains_key(
                #[trigger] sequence_at(next, i),
            ),
        first_gap(on_hold, next, from) < SEQUENCE_COUNT ==> !on_hold.contains_key(
            sequence_at(next, first_gap(on_hold, next, from) as int),
        ),
    decreases SEQUENCE_COUNT - from,
{
    if from < SEQUENCE_COUNT && on_hold.contains_key(sequence_at(next, from as int)) {
        first_gap_is_first(on_hold, next, from + 1);
    }
}

proof fn lemma_arrived_step<M>(arrivals: Seq<Arrival<M>>, index: nat)
    requires
        arrivals.len() > 0,
    ensures
        has_arrived(arrivals, index) <==> has_arrived(arrivals.drop_last(), index) || (
        arrivals.last().index == index && arrivals.last().unpacked is Ok),
{
    let before = arrivals.drop_last();
    if has_arrived(arrivals, index) {
        let i = choose|i: int|
            0 <= i < arrivals.len() && (#[trigger] arrivals[i]).index == index
                && arrivals[i].unpacked is Ok;
        if i < before.len() {
            assert(before[i].index == index);
        }
    }
    if has_arrived(before, index) {
        let i = choose|i: int|
            0 <= i < before.len() && (#[trigger] before[i]).index == index
                && before[i].unpacked is Ok;
        assert(arrivals[i].index == index);
    }
    if arrivals.last().index == index && arrivals.last().unpacked is Ok {
        assert(arrivals[arrivals.len() - 1].index == index);
    }
}

/// If the same messages have arrived, the same state tracks them.
proof fn lemma_same_arrived<M: Message>(
    state: InboundState<M>,
    count: nat,
    before: Seq<Arrival<M>>,
    arrivals: Seq<Arrival<M>>,
    sent: Seq<PackedMessage>,
)
    requires
        tracks(state, count, before, sent),
        forall|index: nat| #[trigger] has_arrived(arrivals, index) == has_arrived(before, index),
    ensures
        tracks(state, count, arrivals, sent),
{
    assert(held_have_arrived(state.on_hold, count, arrivals, sent)) by {
        reveal(held_have_arrived);
    }
    assert(arrived_are_held(state.on_hold, count, arrivals)) by {
        reveal(arrived_are_held);
    }
    assert(delivered_have_arrived(count, arrivals)) by {
        reveal(delivered_have_arrived);
    }
}

/// A payload that could not be read changes nothing.
proof fn lemma_unreadable_arrival<M: Message>(
    state: InboundState<M>,
    count: nat,
    arrivals: Seq<Arrival<M>>,
    sent: Seq<PackedMessage>,
)
    requires
        arrivals.len() > 0,
        tracks(state, count, arrivals.drop_last(), sent),
        arrivals.last().unpacked is Err,
    ensures
        state.received(arrivals.last().raw, arrivals.last().unpacked) == (state, Seq::<M>::empty()),
        tracks(state, count, arrivals, sent),
{
    let before = arrivals.drop_last();
    assert forall|index: nat| #[trigger]
        has_arrived(arrivals, index) == has_arrived(before, index) by {
        lemma_arrived_step(arrivals, index);
    }
    lemma_same_arrived(state, count, before, arrivals, sent);
}

/// A message that was received before changes nothing.
proof fn lemma_late_arrival<M: Message>(
    state: InboundState<M>,
    count: nat,
    arrivals: Seq<Arrival<M>>,
    sent: Seq<PackedMessage>,
)
    requires
        arrivals.len() > 0,
        tracks(state, count, arrivals.drop_last(), sent),
        arrivals.last().unpacked is Ok,
        carries(arrivals.last(), sent),
        may_come_in(count, arrivals.last().index),
        arrivals.last().index < count,
    ensures
        state.received(arrivals.last().raw, arrivals.last().unpacked) == (state, Seq::<M>::empty()),
        tracks(state, count, arrivals, sent),
{
    let arrival = arrivals.last();
    let before = arrivals.drop_last();
    let message = sent[arrival.index as int];
    envelope_reads_back(message, sequence_of(arrival.index));
    assert(behind_window(sequence_of(arrival.index), state.sequence));
    assert(has_arrived(before, arrival.index)) by {
        reveal(delivered_have_arrived);
    }
    assert forall|index: nat| #[trigger]
        has_arrived(arrivals, index) == has_arrived(before, index) by {
        lemma_arrived_step(arrivals, index);
    }
    lemma_same_arrived(state, count, before, arrivals, sent);
}

/// A message that has not been handed on yet is held.
proof fn lemma_hold<M: Message>(
    state: InboundState<M>,
    count: nat,
    arrivals: Seq<Arrival<M>>,
    sent: Seq<PackedMessage>,
)
    requires
        arrivals.len() > 0,
        state.sequence == sequence_of(count),
        holds(state.on_hold, count, arrivals.drop_last(), sent),
        arrivals.last().unpacked is Ok,
        carries(arrivals.last(), sent),
        may_come_in(count, arrivals.last().index),
        arrivals.last().index >= count,
    ensures
        ({
            let held = InboundState {
                on_hold: state.on_hold.insert(
                    sequence_of(arrivals.last().index),
                    arrivals.last().unpacked->Ok_0,
                ),
                sequence: state.sequence,
            };
            &&& holds(held.on_hold, count, arrivals, sent)
            &&& state.received(arrivals.last().raw, arrivals.last().unpacked) == held.drained()
        }),
{
    let arrival = arrivals.last();
    let message = sent[arrival.index as int];
    let sequence = sequence_of(arrival.index);
    let held = state.on_hold.insert(sequence, arrival.unpacked->Ok_0);
    envelope_reads_back(message, sequence);
    lemma_sequence_of(count, arrival.index);
    assert(!behind_window(sequence, state.sequence));

    assert(held_have_arrived(held, count, arrivals, sent)) by {
        reveal(held_have_arrived);
        assert forall|s: u16| #[trigger] held.contains_key(s) implies has_arrived(
            arrivals,
            held_index(count, s),
        ) && held_index(count, s) < sent.len() && reads_back(
            sent,
            held_index(count, s) as int,
            held[s],
        ) by {
            lemma_arrived_step(arrivals, held_index(count, s));
            if s != sequence {
                assert(state.on_hold.contains_key(s));
            }
        }
    }
    assert(arrived_are_held(held, count, arrivals)) by {
        reveal(arrived_are_held);
        assert forall|index: nat| #[trigger]
            has_arrived(arrivals, index) && index >= count implies index < count + SEQUENCE_COUNT
            && held.contains_key(sequence_of(index)) by {
            lemma_arrived_step(arrivals, index);
        }
    }
    assert(delivered_have_arrived(count, arrivals)) by {
        reveal(delivered_have_arrived);
        assert forall|index: nat| index < count implies #[trigger] has_arrived(arrivals, index) by {
            lemma_arrived_step(arrivals, index);
        }
    }
}

/// All that is in order is handed on, as it was sent.
proof fn lemma_drain<M: Message>(
    held: InboundState<M>,
    count: nat,
    arrivals: Seq<Arrival<M>>,
    sent: Seq<PackedMessage>,
)
    requires
        held.sequence == sequence_of(count),
        holds(held.on_hold, count, arrivals, sent),
    ensures
        ({
            let (after, more) = held.drained();
            &&& tracks(after, count + more.len(), arrivals, sent)
            &&& more.len() > 0 ==> count + more.len() <= sent.len()
            &&& forall|i: int|
                0 <= i < more.len() ==> reads_back(sent, count + i, #[trigger] more[i])
        }),
{
    let next = held.sequence;
    let (after, more) = held.drained();
    let gap = more.len();
    let count_after = count + gap;
    first_gap_is_first(held.on_hold, next, 0);

    assert forall|i: int| 0 <= i < gap implies has_arrived(
        arrivals,
        (count + i) as nat,
    ) && count + i < sent.len() && reads_back(sent, count + i, #[trigger] more[i]) by {
        lemma_sequence_of(count, (count + i) as nat);
        assert(held.on_hold.contains_key(sequence_at(next, i)));
        reveal(held_have_arrived);
    }
    if gap > 0 {
        assert(reads_back(sent, count + (gap - 1), more[gap - 1]));
    }
    assert(after.sequence == sequence_of(count_after));
    assert(held_have_arrived(after.on_hold, count_after, arrivals, sent)) by {
        reveal(held_have_arrived);
        assert forall|s: u16| #[trigger] after.on_hold.contains_key(s) implies has_arrived(
            arrivals,
            held_index(count_after, s),
        ) && held_index(count_after, s) < sent.len() && reads_back(
            sent,
            held_index(count_after, s) as int,
            after.on_hold[s],
        ) by {
            assert(held.on_hold.contains_key(s));
            lemma_held_index_kept(count, gap, s);
        }
    }
    assert(arrived_are_held(after.on_hold, count_after, arrivals)) by {
        reveal(arrived_are_held);
        assert forall|index: nat| #[trigger]
            has_arrived(arrivals, index) && index >= count_after implies index < count_after
            + SEQUENCE_COUNT && after.on_hold.contains_key(sequence_of(index)) by {
            lemma_sequence_of(count, index);
        }
    }
    assert(delivered_have_arrived(count_after, arrivals)) by {
        reveal(delivered_have_arrived);
        assert forall|index: nat| index < count_after implies #[trigger] has_arrived(
            arrivals,
            index,
        ) by {
            if index >= count {
                assert(reads_back(sent, count + (index - count), more[index - count]));
            }
        }
    }
    assert(!after.on_hold.contains_key(after.sequence)) by {
        if gap < SEQUENCE_COUNT {
            assert(!held.on_hold.contains_key(sequence_at(next, gap as int)));
        }
    }
}

proof fn lemma_held_index_kept(count: nat, gap: nat, sequence: u16)
    requires
        gap <= SEQUENCE_COUNT,
        sequence_offset(sequence_of(count), sequence) >= gap,
    ensures
        held_index(count + gap, sequence) == held_index(count, sequence),
{
}

proof fn lemma_tracks<M: Message>(arrivals: Seq<Arrival<M>>, sent: Seq<PackedMessage>)
    requires
        forall|i: int| 0 <= i < arrivals.len() ==> carries(#[trigger] arrivals[i], sent),
        all_may_come_in(arrivals),
    ensures
        ({
            let (state, delivered) = after_arrivals(arrivals);
            &&& tracks(state, delivered.len(), arrivals, sent)
            &&& delivered.len() <= sent.len()
            &&& forall|i: int|
                0 <= i < delivered.len() ==> reads_back(sent, i, #[trigger] delivered[i])
        }),
    decreases arrivals.len(),
{
    let (state, delivered) = after_arrivals(arrivals);
    if arrivals.len() == 0 {
        reveal(held_have_arrived);
        reveal(arrived_are_held);
        reveal(delivered_have_arrived);
    } else {
        let before = arrivals.drop_last();
        assert forall|i: int| 0 <= i < before.len() implies carries(#[trigger] before[i], sent) by {
            assert(before[i] == arrivals[i]);
        }
        lemma_tracks(before, sent);
        assert(carries(arrivals[arrivals.len() - 1], sent));
        let (state_before, delivered_before) = after_arrivals(before);
        let more = state_before.received(arrivals.last().raw, arrivals.last().unpacked).1;
        if arrivals.last().unpacked is Err {
            lemma_unreadable_arrival(state_before, delivered_before.len(), arrivals, sent);
        } else if arrivals.last().index < delivered_before.len() {
            lemma_late_arrival(state_before, delivered_before.len(), arrivals, sent);
        } else {
            let arrival = arrivals.last();
            let held = InboundState {
                on_hold: state_before.on_hold.insert(
                    sequence_of(arrival.index),
                    arrival.unpacked->Ok_0,
                ),
                sequence: state_before.sequence,
            };
            lemma_hold(state_before, delivered_before.len(), arrivals, sent);
            lemma_drain(held, delivered_before.len(), arrivals, sent);
        }
        assert forall|i: int| 0 <= i < delivered.len() implies reads_back(
            sent,
            i,
            #[trigger] delivered[i],
        ) by {
            if i < delivered_before.len() {
                assert(reads_back(sent, i, delivered_before[i]));
            } else {
                let j = i - delivered_before.len();
                assert(reads_back(sent, delivered_before.len() + j, more[j]));
            }
        }
    }
}

/// However the messages that were sent come in, early, late or more than once, and
/// whatever comes in between that cannot be read, they are handed on in the order
/// in which they were sent, as long as the receiving side is not misled by the
/// repetition of sequence numbers: the messages handed on are those up to the
/// first that has not come in, each once and as it was read back.
pub proof fn delivery_is_in_order<M: Message>(arrivals: Seq<Arrival<M>>, sent: Seq<PackedMessage>)
    requires
        forall|i: int| 0 <= i < arrivals.len() ==> carries(#[trigger] arrivals[i], sent),
        all_may_come_in(arrivals),
    ensures
        ({
            let delivered = after_arrivals(arrivals).1;
            &&& delivered.len() <= sent.len()
            &&& forall|index: nat|
                index < delivered.len() ==> #[trigger] has_arrived(arrivals, index)
            &&& !has_arrived(arrivals, delivered.len())
            &&& forall|i: int|
                0 <= i < delivered.len() ==> reads_back(sent, i, #[trigger] delivered[i])
        }),
{
    let (state, delivered) = after_arrivals(arrivals);
    lemma_tracks(arrivals, sent);
    reveal(arrived_are_held);
    reveal(delivered_have_arrived);
}

/// The receiving side is right about every message that was handed on at most one
/// window ago, and about every message that is to come, up to one window short of
/// all sequence numbers ahead.
pub proof fn nearby_messages_may_come_in(count: nat, index: nat)
    requires
        count - WINDOW_MAX <= index < count + SEQUENCE_COUNT - WINDOW_MAX,
    ensures
        may_come_in(count, index),
{
}

/// If every message is read back the same as it was, by whatever measure, the
/// messages handed on are the same as the first ones that were sent.
pub proof fn delivery_is_faithful<M: Message>(
    arrivals: Seq<Arrival<M>>,
    messages: Seq<M>,
    sent: Seq<PackedMessage>,
    same: spec_fn(M, M) -> bool,
)
    requires
        messages.len() == sent.len(),
        forall|i: int| 0 <= i < sent.len() ==> packs_to(messages[i], #[trigger] sent[i]),
        reads_back_same(same),
        forall|i: int| 0 <= i < arrivals.len() ==> carries(#[trigger] arrivals[i], sent),
        all_may_come_in(arrivals),
    ensures
        after_arrivals(arrivals).1.len() <= messages.len(),
        forall|i: int|
            0 <= i < after_arrivals(arrivals).1.len() ==> same(
                messages[i],
                #[trigger] after_arrivals(arrivals).1[i],
            ),
{
    let delivered = after_arrivals(arrivals).1;
    delivery_is_in_order(arrivals, sent);
    assert forall|i: int| 0 <= i < delivered.len() implies same(
        messages[i],
        #[trigger] delivered[i],
    ) by {
        assert(reads_back(sent, i, delivered[i]));
        assert(packs_to(messages[i], sent[i]));
    }
}

/// What taking in a message does. If its number is one to 48 behind the next one,
/// counting round, nothing changes and nothing is handed on. Otherwise the message
/// is held under its number, in place of any other; then all messages are handed on
/// that are held under the next number and those that follow it, up to the first
/// number under which none is held; these are held no longer, all others still are,
/// and that number is the next one.
pub proof fn message_is_held_or_handed_on<M>(
    state: InboundState<M>,
    sequence: u16,
    message: M,
)
    ensures
        ({
            let (after, delivered) = state.accepted(sequence, message);
            let behind = (state.sequence - sequence) % 65536;
            let held = state.on_hold.insert(sequence, message);
            if 1 <= behind <= 48 {
                &&& after == state
                &&& delivered.len() == 0
            } else {
                &&& delivered.len() <= 65536
                &&& after.sequence == (state.sequence + delivered.len()) % 65536
                &&& forall|i: int|
                    0 <= i < delivered.len() ==> held.contains_pair(
                        ((state.sequence + i) % 65536) as u16,
                        #[trigger] delivered[i],
                    )
                &&& delivered.len() < 65536 ==> !held.contains_key(after.sequence)
                &&& forall|number: u16| #[trigger]
                    after.on_hold.contains_key(number) <==> held.contains_key(number) && (number
                        - state.sequence) % 65536 >= delivered.len()
                &&& forall|number: u16| #[trigger]
                    after.on_hold.contains_key(number) ==> after.on_hold[number] == held[number]
            }
        }),
{
    if !behind_window(sequence, state.sequence) {
        let held = state.on_hold.insert(sequence, message);
        let (after, delivered) = state.accepted(sequence, message);
        first_gap_is_first(held, state.sequence, 0);
        assert forall|i: int| 0 <= i < delivered.len() implies held.contains_pair(
            ((state.sequence + i) % 65536) as u16,
            #[trigger] delivered[i],
        ) by {
            assert(held.contains_key(sequence_at(state.sequence, i)));
        }
    }
}

/// The message with the next number is handed on at once, before all others.
pub proof fn next_message_is_handed_on_at_once<M>(state: InboundState<M>, message: M)
    ensures
        state.accepted(state.sequence, message).1.len() >= 1,
        state.accepted(state.sequence, message).1[0] == message,
{
    message_is_held_or_handed_on(state, state.sequence, message);
    let after = state.accepted(state.sequence, message).0;
    let held = state.on_hold.insert(state.sequence, message);
    assert(held.contains_key(state.sequence));
    if state.accepted(state.sequence, message).1.len() == 0 {
        assert(after.sequence == state.sequence);
    }
}

/// A payload is taken in as the message that it was read back as, under the number
/// in its third and fourth byte; one that could not be read changes nothing.
pub proof fn payload_is_taken_in_by_its_number<M>(
    state: InboundState<M>,
    raw: Seq<u8>,
    unpacked: Result<M, RnsError>,
    number: u16,
)
    requires
        raw.len() >= 6,
        number == raw[2] * 256 + raw[3],
    ensures
        unpacked matches Ok(message) ==> state.received(raw, unpacked) == state.accepted(
            number,
            message,
        ),
        unpacked is Err ==> {
            &&& state.received(raw, unpacked).0 == state
            &&& state.received(raw, unpacked).1.len() == 0
        },
{
    envelope_is_read_by_position(raw);
}

/// A new receiving side holds nothing and awaits the message with number 0.
pub proof fn receiving_starts_with_number_zero<M>()
    ensures
        InboundState::<M>::initial().sequence == 0,
        forall|number: u16| !#[trigger] InboundState::<M>::initial().on_hold.contains_key(number),
{
}

} // verus!
