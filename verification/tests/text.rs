use reticulum::channel::message::Message;
use reticulum::channel::text::{ExampleMessage, TextPayload, MESSAGE_TYPE_TEXT};
use reticulum::error::RnsError;

fn text_of(message: &ExampleMessage) -> (&str, u64) {
    match message {
        ExampleMessage::Text(payload) => (payload.text.as_str(), payload.timestamp),
    }
}

#[test]
fn text_is_packed_between_its_marks() {
    let message = ExampleMessage::new_text("foo", 0x0102_0304);
    assert_eq!(message.message_type(), 0x0101);
    assert_eq!(
        message.pack(),
        vec![0x92, 0xa3, b'f', b'o', b'o', 0xd7, 0xff, 0, 0, 0, 0, 1, 2, 3, 4]
    );
}

#[test]
fn text_is_read_back() {
    let message = ExampleMessage::new_text("gr\u{fc}n \u{1f34f}", 1_700_000_000);
    let back = ExampleMessage::unpack(&message.pack(), MESSAGE_TYPE_TEXT).unwrap();
    assert_eq!(text_of(&back), ("gr\u{fc}n \u{1f34f}", 1_700_000_000));
}

#[test]
fn time_stamps_keep_34_bits() {
    let message = ExampleMessage::new_text("x", u64::MAX);
    let back = ExampleMessage::unpack(&message.pack(), MESSAGE_TYPE_TEXT).unwrap();
    assert_eq!(text_of(&back), ("x", 0x3_ffff_ffff));
}

#[test]
fn empty_text_is_not_accepted() {
    let packed = TextPayload::new(String::new(), 1).pack();
    assert_eq!(packed.len(), 12);
    assert_eq!(
        TextPayload::unpack(&packed).err(),
        Some(RnsError::ChannelError)
    );
}

#[test]
fn text_must_be_valid() {
    let mut packed = TextPayload::new("abc".to_string(), 1).pack();
    packed[3] = 0xff;
    assert_eq!(
        ExampleMessage::unpack(&packed, MESSAGE_TYPE_TEXT).err(),
        Some(RnsError::ChannelError)
    );
}

#[test]
fn other_message_types_are_unknown() {
    let packed = ExampleMessage::new_text("foo", 1).pack();
    assert_eq!(
        ExampleMessage::unpack(&packed, 0x0102).err(),
        Some(RnsError::ChannelUnknownMessageType)
    );
}
