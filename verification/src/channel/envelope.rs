//! The envelope around each message: its type, its sequence number and the
//! length of its payload, followed by the payload.

use vstd::prelude::*;

use crate::channel::message::{packs_to, unpacks_to, Message, PackedMessage};
use crate::error::RnsError;

verus! {

/// How many bytes stand before the payload.
pub const ENVELOPE_HEADER: usize = 6;

/// `value` as two bytes, the higher one first.
pub open spec fn be_bytes(value: u16) -> Seq<u8> {
    seq![(value / 256) as u8, (value % 256) as u8]
}

/// The number that two bytes stand for, the higher one first.
pub open spec fn be_value(high: u8, low: u8) -> u16 {
    (high * 256 + low) as u16
}

/// The bytes of an envelope around `data`.
///
/// The length field holds the lower sixteen bits of the length; a message
/// without a sequence number carries 0.
pub open spec fn envelope_bytes(
    data: Seq<u8>,
    message_type: u16,
    sequence: Option<u16>,
) -> Seq<u8> {
    be_bytes(message_type) + be_bytes(sequence.unwrap_or(0)) + be_bytes(
        (data.len() % 65536) as u16,
    ) + data
}

/// Message type, sequence number and length field of an envelope.
pub open spec fn envelope_fields(raw: Seq<u8>) -> (u16, u16, u16) {
    (be_value(raw[0], raw[1]), be_value(raw[2], raw[3]), be_value(raw[4], raw[5]))
}

/// The message in an envelope: its type, and all that follows the header, whatever
/// the length field says.
pub open spec fn envelope_content(raw: Seq<u8>) -> PackedMessage {
    PackedMessage {
        payload: raw.skip(ENVELOPE_HEADER as int),
        message_type: envelope_fields(raw).0,
    }
}

/// The bytes that carry a packed message under a sequence number.
pub open spec fn message_bytes(packed: PackedMessage, sequence: Option<u16>) -> Seq<u8> {
    envelope_bytes(packed.payload, packed.message_type, sequence)
}

/// The largest payload that fits, in its envelope, in a packet with room for
/// `packet_mdu` bytes.
pub fn channel_mdu(packet_mdu: usize) -> (mdu: usize)
    requires
        packet_mdu >= ENVELOPE_HEADER,
    ensures
        mdu == packet_mdu - ENVELOPE_HEADER,
{
    packet_mdu - ENVELOPE_HEADER
}

fn push_be_bytes(bytes: &mut Vec<u8>, value: u16)
    ensures
        final(bytes)@ == old(bytes)@ + be_bytes(value),
{
    bytes.push((value / 256) as u8);
    bytes.push((value % 256) as u8);
}

fn read_be_value(high: u8, low: u8) -> (value: u16)
    ensures
        value == be_value(high, low),
{
    high as u16 * 256 + low as u16
}

/// Put `data` in an envelope.
pub fn envelope_raw(data: &[u8], message_type: u16, sequence: Option<u16>) -> (enveloped: Vec<u8>)
    ensures
        enveloped@ == envelope_bytes(data@, message_type, sequence),
{
    let mut enveloped: Vec<u8> = Vec::new();

    push_be_bytes(&mut enveloped, message_type);
    push_be_bytes(&mut enveloped, sequence.unwrap_or(0));
    push_be_bytes(&mut enveloped, (data.len() % 65536) as u16);
    enveloped.extend_from_slice(data);

    assert(enveloped@ =~= envelope_bytes(data@, message_type, sequence));
    enveloped
}

/// Read the message type, the sequence number and the length field of an
/// envelope.
pub fn deenvelope_raw(data: &[u8]) -> (fields: Result<(u16, u16, u16), RnsError>)
    ensures
        fields == (if data@.len() < ENVELOPE_HEADER {
            Err::<(u16, u16, u16), RnsError>(RnsError::ChannelError)
        } else {
            Ok(envelope_fields(data@))
        }),
{
    if data.len() < ENVELOPE_HEADER {
        return Err(RnsError::ChannelError);
    }
    let message_type: u16 = read_be_value(data[0], data[1]);
    let sequence: u16 = read_be_value(data[2], data[3]);
    let size: u16 = read_be_value(data[4], data[5]);

    Ok((message_type, sequence, size))
}

/// Pack a message and put it in an envelope.
pub fn message_raw<M: Message>(message: &M, sequence: Option<u16>) -> (raw: Vec<u8>)
    ensures
        exists|packed: PackedMessage| #[trigger]
            packs_to(*message, packed) && raw@ == message_bytes(packed, sequence),
{
    let payload = message.pack();
    let message_type: u16 = message.message_type();

    proof {
        assert(call_ensures(M::pack, (message,), payload));
        assert(packs_to(*message, PackedMessage { payload: payload@, message_type }));
    }
    envelope_raw(payload.as_slice(), message_type, sequence)
}

/// A message together with its sequence number.
pub struct Envelope<M: Message> {
    pub message: M,
    pub sequence: u16,
}

/// What comes of an envelope whose payload was read back as `unpacked`.
pub open spec fn opened_envelope<M: Message>(
    raw: Seq<u8>,
    unpacked: Result<M, RnsError>,
) -> Result<Envelope<M>, RnsError> {
    match unpacked {
        Ok(message) => Ok(Envelope { message, sequence: envelope_fields(raw).1 }),
        Err(error) => Err(error),
    }
}

impl<M: Message> Envelope<M> {
    pub fn new(message: M, sequence: u16) -> (envelope: Self)
        ensures
            envelope.message == message,
            envelope.sequence == sequence,
    {
        Envelope { message, sequence }
    }

    /// Read an envelope and the message in it.
    ///
    /// The length field is ignored; the payload is all that follows the header.
    pub fn unpack(raw: &[u8]) -> (result: Result<Self, RnsError>)
        ensures
            raw@.len() < ENVELOPE_HEADER ==> result == Err::<Self, RnsError>(
                RnsError::ChannelError,
            ),
            raw@.len() >= ENVELOPE_HEADER ==> exists|unpacked: Result<M, RnsError>|
                {
                    &&& #[trigger] unpacks_to(envelope_content(raw@), unpacked)
                    &&& result == opened_envelope(raw@, unpacked)
                },
    {
        let (message_type, sequence, _size) = match deenvelope_raw(raw) {
            Ok(fields) => fields,
            Err(error) => return Err(error),
        };
        let payload = vstd::slice::slice_subrange(raw, ENVELOPE_HEADER, raw.len());
        assert(message_type == envelope_content(raw@).message_type);
        assert(payload@ =~= envelope_content(raw@).payload);

        let unpacked = M::unpack(payload, message_type);
        proof {
            assert(call_ensures(M::unpack, (payload, message_type), unpacked));
            assert(unpacks_to(envelope_content(raw@), unpacked));
        }
        match unpacked {
            Ok(message) => Ok(Envelope::new(message, sequence)),
            Err(error) => Err(error),
        }
    }
}

/// Two bytes stand for the number that they were made of.
pub proof fn be_bytes_read_back(value: u16)
    ensures
        be_bytes(value).len() == 2,
        be_value(be_bytes(value)[0], be_bytes(value)[1]) == value,
{
}

/// An envelope gives back the message, the sequence number and the lower sixteen
/// bits of the payload's length that it was made of.
pub proof fn envelope_reads_back(packed: PackedMessage, sequence: u16)
    ensures
        message_bytes(packed, Some(sequence)).len() == ENVELOPE_HEADER + packed.payload.len(),
        envelope_fields(message_bytes(packed, Some(sequence))) == (
            packed.message_type,
            sequence,
            (packed.payload.len() % 65536) as u16,
        ),
        envelope_content(message_bytes(packed, Some(sequence))) == packed,
{
    let raw = message_bytes(packed, Some(sequence));
    be_bytes_read_back(packed.message_type);
    be_bytes_read_back(sequence);
    be_bytes_read_back((packed.payload.len() % 65536) as u16);
    assert(envelope_content(raw).payload =~= packed.payload);
}

/// A message fits in a packet exactly if its payload is no longer than the
/// channel's limit.
pub proof fn message_fits_iff_payload_fits(
    packed: PackedMessage,
    sequence: Option<u16>,
    packet_mdu: nat,
)
    requires
        packet_mdu >= ENVELOPE_HEADER,
    ensures
        message_bytes(packed, sequence).len() <= packet_mdu <==> packed.payload.len() <= packet_mdu
            - ENVELOPE_HEADER,
{
}

/// What stands where in an envelope: the message type in the first two bytes, the
/// sequence number in the next two, the length of the payload in the two after
/// that, each with the higher byte first, and from then on the payload itself.
pub proof fn envelope_layout(data: Seq<u8>, message_type: u16, sequence: Option<u16>)
    ensures
        ({
            let raw = envelope_bytes(data, message_type, sequence);
            &&& raw.len() == data.len() + 6
            &&& raw[0] * 256 + raw[1] == message_type
            &&& sequence matches Some(number) ==> raw[2] * 256 + raw[3] == number
            &&& sequence is None ==> raw[2] == 0 && raw[3] == 0
            &&& raw[4] * 256 + raw[5] == data.len() as int % 65536
            &&& forall|i: int| 0 <= i < data.len() ==> raw[i + 6] == #[trigger] data[i]
        }),
{
}

/// The same of the bytes that carry a packed message.
pub proof fn message_layout(packed: PackedMessage, sequence: u16)
    ensures
        ({
            let raw = message_bytes(packed, Some(sequence));
            &&& raw.len() == packed.payload.len() + 6
            &&& raw[0] * 256 + raw[1] == packed.message_type
            &&& raw[2] * 256 + raw[3] == sequence
            &&& raw[4] * 256 + raw[5] == packed.payload.len() as int % 65536
            &&& raw.subrange(6, raw.len() as int) == packed.payload
        }),
{
    let raw = message_bytes(packed, Some(sequence));
    envelope_layout(packed.payload, packed.message_type, Some(sequence));
    assert(raw.subrange(6, raw.len() as int) =~= packed.payload);
}

/// What is read from where: whatever the bytes of an envelope are, the message type
/// is the number in the first two, the sequence number that in the next two, the
/// length field that in the two after that, and the payload is the rest.
pub proof fn envelope_is_read_by_position(raw: Seq<u8>)
    requires
        raw.len() >= 6,
    ensures
        envelope_fields(raw).0 == raw[0] * 256 + raw[1],
        envelope_fields(raw).1 == raw[2] * 256 + raw[3],
        envelope_fields(raw).2 == raw[4] * 256 + raw[5],
        envelope_content(raw).message_type == raw[0] * 256 + raw[1],
        envelope_content(raw).payload == raw.subrange(6, raw.len() as int),
{
    assert(envelope_content(raw).payload =~= raw.subrange(6, raw.len() as int));
}

/// What `envelope_raw` returns, byte for byte.
pub proof fn written_envelope(
    data: &[u8],
    message_type: u16,
    sequence: Option<u16>,
    enveloped: Vec<u8>,
)
    requires
        call_ensures(envelope_raw, (data, message_type, sequence), enveloped),
    ensures
        enveloped@.len() == data@.len() + 6,
        enveloped@[0] * 256 + enveloped@[1] == message_type,
        sequence matches Some(number) ==> enveloped@[2] * 256 + enveloped@[3] == number,
        sequence is None ==> enveloped@[2] == 0 && enveloped@[3] == 0,
        enveloped@[4] * 256 + enveloped@[5] == data@.len() as int % 65536,
        forall|i: int| 0 <= i < data@.len() ==> enveloped@[i + 6] == #[trigger] data@[i],
{
    envelope_layout(data@, message_type, sequence);
}

/// What `deenvelope_raw` returns: it fails on fewer than six bytes, and else reads
/// three numbers, the higher byte of each first, whatever follows.
pub proof fn read_envelope(data: &[u8], fields: Result<(u16, u16, u16), RnsError>)
    requires
        call_ensures(deenvelope_raw, (data,), fields),
    ensures
        data@.len() < 6 ==> fields == Err::<(u16, u16, u16), RnsError>(RnsError::ChannelError),
        data@.len() >= 6 ==> {
            &&& fields is Ok
            &&& fields->Ok_0.0 == data@[0] * 256 + data@[1]
            &&& fields->Ok_0.1 == data@[2] * 256 + data@[3]
            &&& fields->Ok_0.2 == data@[4] * 256 + data@[5]
        },
{
    if data@.len() >= 6 {
        envelope_is_read_by_position(data@);
    }
}

/// What comes of an envelope: the message that was read back, with the number in
/// the third and fourth byte, or the error with which it could not be read.
pub proof fn opened_envelope_has_its_number<M: Message>(
    raw: Seq<u8>,
    unpacked: Result<M, RnsError>,
)
    requires
        raw.len() >= 6,
    ensures
        match unpacked {
            Ok(message) => {
                &&& opened_envelope(raw, unpacked) is Ok
                &&& opened_envelope(raw, unpacked)->Ok_0.message == message
                &&& opened_envelope(raw, unpacked)->Ok_0.sequence == raw[2] * 256 + raw[3]
            },
            Err(error) => opened_envelope(raw, unpacked) == Err::<Envelope<M>, RnsError>(error),
        },
{
    envelope_is_read_by_position(raw);
}

/// Packing a message and putting it in an envelope keeps both what `pack` and what
/// `message_type` returned.
pub proof fn packed_message_in_its_envelope<M: Message>(
    message: M,
    packed: PackedMessage,
    sequence: u16,
)
    requires
        packs_to(message, packed),
    ensures
        ({
            let raw = message_bytes(packed, Some(sequence));
            &&& exists|payload: Vec<u8>| #[trigger]
                call_ensures(M::pack, (&message,), payload) && payload@ == raw.subrange(
                    6,
                    raw.len() as int,
                )
            &&& exists|message_type: u16| #[trigger]
                call_ensures(M::message_type, (&message,), message_type) && message_type == raw[0]
                    * 256 + raw[1]
        }),
{
    message_layout(packed, sequence);
}

/// What is read of an envelope is what `unpack` returns for the type in its first
/// two bytes and the bytes after its header.
pub proof fn envelope_is_unpacked_whole<M: Message>(raw: Seq<u8>, unpacked: Result<M, RnsError>)
    requires
        raw.len() >= 6,
        unpacks_to(envelope_content(raw), unpacked),
    ensures
        exists|payload: &[u8], message_type: u16| #[trigger]
            call_ensures(M::unpack, (payload, message_type), unpacked) && payload@ == raw.subrange(
                6,
                raw.len() as int,
            ) && message_type == raw[0] * 256 + raw[1],
{
    envelope_is_read_by_position(raw);
}

} // verus!
