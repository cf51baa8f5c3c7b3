//! A message type: a text with the time at which it was written.

use vstd::prelude::*;
use vstd::utf8::{decode_utf8, encode_utf8, valid_utf8};

use crate::channel::delivery::reads_back_same;
use crate::channel::message::{packs_to, unpacks_to, Message, PackedMessage};
use crate::error::RnsError;

verus! {

/// The type number of text messages.
pub const MESSAGE_TYPE_TEXT: u16 = 0x0101;

/// How many bytes stand around the text.
pub const TEXT_FRAME: usize = 12;

/// Time stamps are kept to this limit, that is, to their lower 34 bits.
pub const TIMESTAMP_LIMIT: u64 = 0x4_0000_0000;

/// `value` in `count` bytes, the highest one first.
pub open spec fn number_bytes(value: nat, count: nat) -> Seq<u8>
    decreases count,
{
    if count == 0 {
        Seq::empty()
    } else {
        number_bytes(value / 256, (count - 1) as nat).push((value % 256) as u8)
    }
}

/// The number that bytes stand for, the highest one first.
pub open spec fn bytes_number(bytes: Seq<u8>) -> nat
    decreases bytes.len(),
{
    if bytes.len() == 0 {
        0
    } else {
        bytes_number(bytes.drop_last()) * 256 + bytes.last() as nat
    }
}

/// How many numbers there are of `count` bytes.
pub open spec fn number_limit(count: nat) -> nat
    decreases count,
{
    if count == 0 {
        1
    } else {
        256 * number_limit((count - 1) as nat)
    }
}

/// A text and the time at which it was written, on the wire.
pub open spec fn text_bytes(text: Seq<char>, timestamp: u64) -> Seq<u8> {
    seq![0x92u8, 0xa3u8] + encode_utf8(text) + seq![0xd7u8, 0xffu8] + number_bytes(
        timestamp as nat,
        8,
    )
}

/// The bytes of the text in a payload.
pub open spec fn text_part(raw: Seq<u8>) -> Seq<u8> {
    raw.subrange(2, raw.len() - 10)
}

/// Whether a payload holds a text. An empty one is not accepted.
pub open spec fn holds_text(raw: Seq<u8>) -> bool {
    raw.len() > TEXT_FRAME && valid_utf8(text_part(raw))
}

/// The time in a payload.
pub open spec fn timestamp_part(raw: Seq<u8>) -> u64 {
    (bytes_number(raw.subrange(raw.len() - 8, raw.len() as int)) % (TIMESTAMP_LIMIT as nat)) as u64
}

/// A text with the time at which it was written, as a UNIX time in seconds.
#[derive(Debug, Clone)]
pub struct TextPayload {
    pub text: String,
    pub timestamp: u64,
}

impl TextPayload {
    pub fn new(text: String, timestamp: u64) -> (payload: Self)
        ensures
            payload.text == text,
            payload.timestamp == timestamp,
    {
        TextPayload { text, timestamp }
    }

    /// The payload on the wire.
    pub fn pack(&self) -> (raw: Vec<u8>)
        ensures
            raw@ == text_bytes(self.text@, self.timestamp),
    {
        let mut raw: Vec<u8> = Vec::new();

        raw.push(0x92);
        raw.push(0xa3);
        raw.extend_from_slice(self.text.as_str().as_bytes());
        assert(raw@ =~= seq![0x92u8, 0xa3u8] + encode_utf8(self.text@));
        raw.push(0xd7);
        raw.push(0xff);
        push_number(&mut raw, self.timestamp, 8);

        assert(raw@ =~= text_bytes(self.text@, self.timestamp));
        raw
    }

    /// Read a payload.
    pub fn unpack(raw: &[u8]) -> (result: Result<Self, RnsError>)
        ensures
            match result {
                Ok(payload) => {
                    &&& holds_text(raw@)
                    &&& payload.text@ == decode_utf8(text_part(raw@))
                    &&& payload.timestamp == timestamp_part(raw@)
                },
                Err(error) => !holds_text(raw@) && error == RnsError::ChannelError,
            },
    {
        if raw.len() <= TEXT_FRAME {
            return Err(RnsError::ChannelError);
        }
        let part = vstd::slice::slice_subrange(raw, 2, raw.len() - 10);
        match string_from_utf8(vstd::slice::slice_to_vec(part)) {
            Some(text) => {
                let timestamp: u64 = unpack_timestamp(
                    vstd::slice::slice_subrange(raw, raw.len() - 8, raw.len()),
                );
                Ok(TextPayload::new(text, timestamp))
            },
            None => Err(RnsError::ChannelError),
        }
    }
}

/// `String::from_utf8`: the bytes are taken for UTF-8 and become a text, if they
/// are valid UTF-8.
#[verifier::external_body]
fn string_from_utf8(bytes: Vec<u8>) -> (text: Option<String>)
    ensures
        text is Some <==> valid_utf8(bytes@),
        text matches Some(text) ==> text@ == decode_utf8(bytes@),
{
    String::from_utf8(bytes).ok()
}

fn push_number(raw: &mut Vec<u8>, value: u64, count: usize)
    ensures
        final(raw)@ == old(raw)@ + number_bytes(value as nat, count as nat),
    decreases count,
{
    if count > 0 {
        push_number(raw, value / 256, count - 1);
        raw.push((value % 256) as u8);
    }
    assert(raw@ =~= old(raw)@ + number_bytes(value as nat, count as nat));
}

fn unpack_timestamp(bytes: &[u8]) -> (timestamp: u64)
    requires
        bytes@.len() == 8,
    ensures
        timestamp == bytes_number(bytes@) % (TIMESTAMP_LIMIT as nat),
{
    let mut number: u64 = 0;
    let mut i: usize = 0;
    while i < 8
        invariant
            i <= 8,
            bytes@.len() == 8,
            number == bytes_number(bytes@.take(i as int)),
        decreases 8 - i,
    {
        proof {
            assert(bytes@.take(i + 1).drop_last() =~= bytes@.take(i as int));
            lemma_bytes_number_bound(bytes@.take(i + 1));
            lemma_eight_bytes(i + 1);
        }
        number = number * 256 + bytes[i] as u64;
        i = i + 1;
    }
    assert(bytes@.take(8) =~= bytes@);
    assert(number & 0x3ffffffffu64 == number % 0x400000000u64) by (bit_vector);
    number & 0x3ffffffff
}

proof fn lemma_bytes_number_bound(bytes: Seq<u8>)
    ensures
        bytes_number(bytes) < number_limit(bytes.len()),
    decreases bytes.len(),
{
    if bytes.len() > 0 {
        lemma_bytes_number_bound(bytes.drop_last());
    }
}

proof fn lemma_eight_bytes(count: int)
    requires
        0 <= count <= 8,
    ensures
        number_limit(count as nat) <= u64::MAX + 1,
        number_limit(8) == u64::MAX + 1,
{
    reveal_with_fuel(number_limit, 9);
}

proof fn lemma_number_reads_back(value: nat, count: nat)
    requires
        value < number_limit(count),
    ensures
        number_bytes(value, count).len() == count,
        bytes_number(number_bytes(value, count)) == value,
    decreases count,
{
    if count > 0 {
        lemma_number_reads_back(value / 256, (count - 1) as nat);
        assert(number_bytes(value, count).drop_last() =~= number_bytes(
            value / 256,
            (count - 1) as nat,
        ));
    }
}

/// A text that is not empty is read back as it was packed, and so is the time, up
/// to the limit of time stamps.
pub proof fn text_reads_back(text: Seq<char>, timestamp: u64)
    requires
        text.len() > 0,
    ensures
        holds_text(text_bytes(text, timestamp)),
        decode_utf8(text_part(text_bytes(text, timestamp))) == text,
        timestamp_part(text_bytes(text, timestamp)) == timestamp % TIMESTAMP_LIMIT,
{
    let raw = text_bytes(text, timestamp);
    let number = number_bytes(timestamp as nat, 8);
    lemma_eight_bytes(8);
    lemma_number_reads_back(timestamp as nat, 8);
    vstd::utf8::encode_utf8_valid_utf8(text);
    vstd::utf8::encode_utf8_decode_utf8(text);
    assert(encode_utf8(text).len() > 0) by {
        if encode_utf8(text).len() == 0 {
            assert(decode_utf8(encode_utf8(text)).len() == 0);
        }
    }
    assert(text_part(raw) =~= encode_utf8(text));
    assert(raw.subrange(raw.len() - 8, raw.len() as int) =~= number);
}

/// The messages of a channel that carries texts.
#[derive(Debug, Clone)]
pub enum ExampleMessage {
    Text(TextPayload),
}

impl ExampleMessage {
    pub fn new_text(text: &str, timestamp: u64) -> (message: Self)
        ensures
            message->Text_0.text@ == text@,
            message->Text_0.timestamp == timestamp,
    {
        ExampleMessage::Text(TextPayload::new(text.to_owned(), timestamp))
    }
}

impl Message for ExampleMessage {
    fn unpack(packed: &[u8], message_type: u16) -> (result: Result<Self, RnsError>)
        ensures
            match result {
                Ok(ExampleMessage::Text(payload)) => {
                    &&& message_type == MESSAGE_TYPE_TEXT
                    &&& holds_text(packed@)
                    &&& payload.text@ == decode_utf8(text_part(packed@))
                    &&& payload.timestamp == timestamp_part(packed@)
                },
                Err(error) => if message_type == MESSAGE_TYPE_TEXT {
                    !holds_text(packed@) && error == RnsError::ChannelError
                } else {
                    error == RnsError::ChannelUnknownMessageType
                },
            },
    {
        if message_type == MESSAGE_TYPE_TEXT {
            match TextPayload::unpack(packed) {
                Ok(payload) => Ok(ExampleMessage::Text(payload)),
                Err(error) => Err(error),
            }
        } else {
            Err(RnsError::ChannelUnknownMessageType)
        }
    }

    fn pack(&self) -> (packed: Vec<u8>)
        ensures
            packed@ == text_bytes(self->Text_0.text@, self->Text_0.timestamp),
    {
        match self {
            ExampleMessage::Text(payload) => payload.pack(),
        }
    }

    fn message_type(&self) -> (message_type: u16)
        ensures
            message_type == MESSAGE_TYPE_TEXT,
    {
        MESSAGE_TYPE_TEXT
    }
}

/// A message whose text is not empty is read back with the same text, and with the
/// same time up to the limit of time stamps.
pub proof fn text_message_reads_back(
    message: ExampleMessage,
    packed: PackedMessage,
    result: Result<ExampleMessage, RnsError>,
)
    requires
        message->Text_0.text@.len() > 0,
        packs_to(message, packed),
        unpacks_to(packed, result),
    ensures
        result is Ok,
        result->Ok_0->Text_0.text@ == message->Text_0.text@,
        result->Ok_0->Text_0.timestamp == message->Text_0.timestamp % TIMESTAMP_LIMIT,
{
    text_reads_back(message->Text_0.text@, message->Text_0.timestamp);
}

/// Whether a message has the same text as the one that was sent, unless that was
/// empty, and the same time up to the limit of time stamps.
pub open spec fn same_text(message: ExampleMessage, copy: ExampleMessage) -> bool {
    message->Text_0.text@.len() > 0 ==> {
        &&& copy->Text_0.text@ == message->Text_0.text@
        &&& copy->Text_0.timestamp == message->Text_0.timestamp % TIMESTAMP_LIMIT
    }
}

/// Texts are read back the same, as a channel needs it to deliver what was sent.
pub proof fn texts_read_back_same()
    ensures
        reads_back_same(|message: ExampleMessage, copy: ExampleMessage| same_text(message, copy)),
{
    assert forall|message: ExampleMessage, packed: PackedMessage, copy: ExampleMessage|
        #![trigger packs_to(message, packed), unpacks_to(packed, Ok::<ExampleMessage, RnsError>(copy))]
        packs_to(message, packed) && unpacks_to(
            packed,
            Ok::<ExampleMessage, RnsError>(copy),
        ) implies same_text(message, copy) by {
        if message->Text_0.text@.len() > 0 {
            text_message_reads_back(message, packed, Ok(copy));
        }
    }
}

proof fn lemma_eight_bytes_value(bytes: Seq<u8>)
    requires
        bytes.len() == 8,
    ensures
        bytes_number(bytes) == bytes[0] * 0x100_0000_0000_0000 + bytes[1] * 0x1_0000_0000_0000
            + bytes[2] * 0x100_0000_0000 + bytes[3] * 0x1_0000_0000 + bytes[4] * 0x100_0000
            + bytes[5] * 0x1_0000 + bytes[6] * 0x100 + bytes[7],
{
    reveal_with_fuel(bytes_number, 9);
    assert(bytes.drop_last() =~= bytes.take(7));
    assert(bytes.take(7).drop_last() =~= bytes.take(6));
    assert(bytes.take(6).drop_last() =~= bytes.take(5));
    assert(bytes.take(5).drop_last() =~= bytes.take(4));
    assert(bytes.take(4).drop_last() =~= bytes.take(3));
    assert(bytes.take(3).drop_last() =~= bytes.take(2));
    assert(bytes.take(2).drop_last() =~= bytes.take(1));
    assert(bytes.take(1).drop_last() =~= bytes.take(0));
}

/// What stands where in a text on the wire: two marks, the text in UTF-8, two more
/// marks, and the time in eight bytes, the highest first.
pub proof fn text_layout(text: Seq<char>, timestamp: u64)
    ensures
        ({
            let raw = text_bytes(text, timestamp);
            let end = raw.len() - 10;
            &&& raw.len() == encode_utf8(text).len() + 12
            &&& raw[0] == 0x92 && raw[1] == 0xa3
            &&& raw.subrange(2, end) == encode_utf8(text)
            &&& raw[end] == 0xd7 && raw[end + 1] == 0xff
            &&& timestamp == raw[end + 2] * 0x100_0000_0000_0000 + raw[end + 3] * 0x1_0000_0000_0000
                + raw[end + 4] * 0x100_0000_0000 + raw[end + 5] * 0x1_0000_0000 + raw[end + 6]
                * 0x100_0000 + raw[end + 7] * 0x1_0000 + raw[end + 8] * 0x100 + raw[end + 9]
        }),
{
    let raw = text_bytes(text, timestamp);
    let number = number_bytes(timestamp as nat, 8);
    lemma_eight_bytes(8);
    lemma_number_reads_back(timestamp as nat, 8);
    lemma_eight_bytes_value(number);
    assert(raw.subrange(2, raw.len() - 10) =~= encode_utf8(text));
}

/// What is read from where: whatever the bytes are, there is a text in them exactly
/// if there are more than twelve and those after the first two and before the last
/// ten are UTF-8; the text is what these stand for, and the time is the number in
/// the last eight bytes, the highest first, of which the lower 34 bits count.
pub proof fn text_is_read_by_position(raw: Seq<u8>)
    ensures
        raw.len() <= 12 ==> !holds_text(raw),
        raw.len() > 12 ==> {
            let end = raw.len() - 10;
            let number = raw[end + 2] * 0x100_0000_0000_0000 + raw[end + 3] * 0x1_0000_0000_0000
                + raw[end + 4] * 0x100_0000_0000 + raw[end + 5] * 0x1_0000_0000 + raw[end + 6]
                * 0x100_0000 + raw[end + 7] * 0x1_0000 + raw[end + 8] * 0x100 + raw[end + 9];
            &&& holds_text(raw) <==> valid_utf8(raw.subrange(2, end))
            &&& text_part(raw) == raw.subrange(2, end)
            &&& timestamp_part(raw) == number % 0x4_0000_0000
        },
{
    if raw.len() > 12 {
        let last = raw.subrange(raw.len() - 8, raw.len() as int);
        lemma_eight_bytes_value(last);
    }
}

/// A text that was packed is unpacked with the same letters, and with the same time
/// up to its lower 34 bits, unless it was empty; that is refused.
pub proof fn packed_text_is_unpacked(
    payload: &TextPayload,
    raw: Vec<u8>,
    bytes: &[u8],
    result: Result<TextPayload, RnsError>,
)
    requires
        call_ensures(TextPayload::pack, (payload,), raw),
        bytes@ == raw@,
        call_ensures(TextPayload::unpack, (bytes,), result),
    ensures
        payload.text@.len() > 0 ==> {
            &&& result is Ok
            &&& result->Ok_0.text@ == payload.text@
            &&& result->Ok_0.timestamp == payload.timestamp % 0x4_0000_0000
        },
        payload.text@.len() == 0 ==> result == Err::<TextPayload, RnsError>(RnsError::ChannelError),
{
    text_layout(payload.text@, payload.timestamp);
    text_is_read_by_position(raw@);
    if payload.text@.len() > 0 {
        text_reads_back(payload.text@, payload.timestamp);
    }
}

/// What a text message returns to the channel: the text between its marks with the
/// time behind it, under the type number 0x0101; and what the channel gets when it
/// reads one: an error of its own for every other type number, and a text where
/// there is one.
pub proof fn text_message_on_the_wire(
    message: &ExampleMessage,
    packed: Vec<u8>,
    message_type: u16,
    raw: &[u8],
    read_type: u16,
    result: Result<ExampleMessage, RnsError>,
)
    requires
        call_ensures(ExampleMessage::pack, (message,), packed),
        call_ensures(ExampleMessage::message_type, (message,), message_type),
        call_ensures(ExampleMessage::unpack, (raw, read_type), result),
    ensures
        message_type == 0x0101,
        packed@.len() == encode_utf8(message->Text_0.text@).len() + 12,
        packed@.subrange(2, packed@.len() - 10) == encode_utf8(message->Text_0.text@),
        read_type != 0x0101 ==> result == Err::<ExampleMessage, RnsError>(
            RnsError::ChannelUnknownMessageType,
        ),
        read_type == 0x0101 && (raw@.len() <= 12 || !valid_utf8(raw@.subrange(2, raw@.len() - 10)))
            ==> result == Err::<ExampleMessage, RnsError>(RnsError::ChannelError),
        read_type == 0x0101 && raw@.len() > 12 && valid_utf8(raw@.subrange(2, raw@.len() - 10)) ==> {
            &&& result is Ok
            &&& result->Ok_0->Text_0.text@ == decode_utf8(raw@.subrange(2, raw@.len() - 10))
        },
{
    text_layout(message->Text_0.text@, message->Text_0.timestamp);
    text_is_read_by_position(raw@);
}

} // verus!
