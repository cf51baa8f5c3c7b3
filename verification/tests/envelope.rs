use reticulum::channel::envelope::{
    channel_mdu, deenvelope_raw, envelope_raw, message_raw, Envelope,
};
use reticulum::channel::message::Message;
use reticulum::error::RnsError;

#[derive(Clone, Debug, PartialEq)]
struct Bytes {
    kind: u16,
    content: Vec<u8>,
}

impl Message for Bytes {
    fn unpack(packed: &[u8], message_type: u16) -> Result<Self, RnsError> {
        if message_type == 0xffff {
            return Err(RnsError::ChannelUnknownMessageType);
        }
        Ok(Bytes {
            kind: message_type,
            content: packed.to_vec(),
        })
    }

    fn pack(&self) -> Vec<u8> {
        self.content.clone()
    }

    fn message_type(&self) -> u16 {
        self.kind
    }
}

#[test]
fn test_envelope_raw() {
    let data = vec![0x43, 0x11, 0x00];
    let env = envelope_raw(data.as_slice(), 0x1000, Some(10));

    assert_eq!(
        env,
        vec![0x10, 0x00, 0x00, 0x0a, 0x00, 0x03, 0x43, 0x11, 0x00]
    );
}

#[test]
fn envelope_without_sequence_carries_zero() {
    assert_eq!(envelope_raw(&[], 0x0102, None), vec![1, 2, 0, 0, 0, 0]);
}

#[test]
fn envelope_keeps_lower_bits_of_the_length() {
    let data = vec![7u8; 65536 + 258];
    let env = envelope_raw(&data, 1, Some(0xabcd));
    assert_eq!(env.len(), 6 + 65536 + 258);
    assert_eq!(&env[..6], &[0, 1, 0xab, 0xcd, 1, 2]);
}

#[test]
fn deenvelope_reads_fields() {
    let raw = envelope_raw(&[9, 8, 7], 0xfedc, Some(0x1234));
    assert_eq!(deenvelope_raw(&raw), Ok((0xfedc, 0x1234, 3)));
    assert_eq!(deenvelope_raw(&raw[..6]), Ok((0xfedc, 0x1234, 3)));
}

#[test]
fn deenvelope_rejects_short_input() {
    for len in 0..6 {
        assert_eq!(
            deenvelope_raw(&vec![1u8; len]),
            Err(RnsError::ChannelError)
        );
    }
}

#[test]
fn message_is_read_back_from_its_envelope() {
    let message = Bytes {
        kind: 0x0203,
        content: vec![1, 2, 3, 4],
    };
    let raw = message_raw(&message, Some(65535));
    assert_eq!(raw, vec![2, 3, 255, 255, 0, 4, 1, 2, 3, 4]);

    let envelope = Envelope::<Bytes>::unpack(&raw).ok().unwrap();
    assert_eq!(envelope.sequence, 65535);
    assert_eq!(envelope.message, message);
}

#[test]
fn unpack_ignores_the_length_field() {
    let raw = [0, 1, 0, 5, 0xff, 0xff, 42];
    let envelope = Envelope::<Bytes>::unpack(&raw).ok().unwrap();
    assert_eq!(envelope.sequence, 5);
    assert_eq!(envelope.message.content, vec![42]);
}

#[test]
fn unpack_passes_errors_on() {
    assert_eq!(
        Envelope::<Bytes>::unpack(&[0, 1, 2, 3, 4]).err(),
        Some(RnsError::ChannelError)
    );
    assert_eq!(
        Envelope::<Bytes>::unpack(&[0xff, 0xff, 0, 0, 0, 0]).err(),
        Some(RnsError::ChannelUnknownMessageType)
    );
}

#[test]
fn channel_mdu_leaves_room_for_the_header() {
    let mdu = channel_mdu(500);
    assert_eq!(mdu, 494);
    let fits = Bytes {
        kind: 1,
        content: vec![0; mdu],
    };
    assert_eq!(message_raw(&fits, None).len(), 500);
}
