use reticulum::channel::envelope::{envelope_raw, Envelope};
use reticulum::channel::events::{receiver_step, ReceiverAction, ReceiverEvent};
use reticulum::channel::inbound::Inbound;
use reticulum::channel::message::Message;
use reticulum::error::RnsError;
use reticulum::hash::AddressHash;

#[derive(Clone, Debug, PartialEq)]
struct Letter(u8);

impl Message for Letter {
    fn unpack(packed: &[u8], message_type: u16) -> Result<Self, RnsError> {
        if message_type != 3 {
            return Err(RnsError::ChannelUnknownMessageType);
        }
        match packed {
            [letter] => Ok(Letter(*letter)),
            _ => Err(RnsError::InvalidArgument),
        }
    }

    fn pack(&self) -> Vec<u8> {
        vec![self.0]
    }

    fn message_type(&self) -> u16 {
        3
    }
}

fn inbound() -> Inbound<Letter> {
    Inbound::new(AddressHash { value: 12 })
}

fn letters(text: &str) -> Vec<Letter> {
    text.bytes().map(Letter).collect()
}

fn accept(inbound: &mut Inbound<Letter>, sequence: u16, letter: char) -> Vec<Letter> {
    inbound.accept(Envelope::new(Letter(letter as u8), sequence))
}

/// A receiving side that has handed on this many messages.
fn inbound_after(count: u32) -> Inbound<Letter> {
    let mut inbound = inbound();
    for i in 0..count {
        assert_eq!(accept(&mut inbound, i as u16, '.'), letters("."));
    }
    inbound
}

#[test]
fn inbound_knows_its_link() {
    assert_eq!(inbound().link_id(), AddressHash { value: 12 });
}

#[test]
fn messages_in_order_are_handed_on_at_once() {
    let mut inbound = inbound();
    assert_eq!(accept(&mut inbound, 0, 'a'), letters("a"));
    assert_eq!(accept(&mut inbound, 1, 'b'), letters("b"));
}

#[test]
fn early_messages_wait_for_the_missing_one() {
    let mut inbound = inbound();
    assert_eq!(accept(&mut inbound, 2, 'c'), letters(""));
    assert_eq!(accept(&mut inbound, 1, 'b'), letters(""));
    assert_eq!(accept(&mut inbound, 4, 'e'), letters(""));
    assert_eq!(accept(&mut inbound, 0, 'a'), letters("abc"));
    assert_eq!(accept(&mut inbound, 3, 'd'), letters("de"));
}

#[test]
fn held_message_is_replaced_by_a_later_one() {
    let mut inbound = inbound();
    assert_eq!(accept(&mut inbound, 1, 'x'), letters(""));
    assert_eq!(accept(&mut inbound, 1, 'b'), letters(""));
    assert_eq!(accept(&mut inbound, 0, 'a'), letters("ab"));
}

#[test]
fn message_received_before_is_dropped() {
    let mut inbound = inbound_after(100);
    assert_eq!(accept(&mut inbound, 99, 'x'), letters(""));
    assert_eq!(accept(&mut inbound, 52, 'x'), letters(""));
    assert_eq!(accept(&mut inbound, 100, 'a'), letters("a"));
}

#[test]
fn number_far_behind_is_that_of_a_message_to_come() {
    let mut inbound = inbound_after(100);
    // One more than the largest window behind: held until the numbers start over.
    assert_eq!(accept(&mut inbound, 51, 'z'), letters(""));
    for i in 100..65_536u32 + 50 {
        assert_eq!(accept(&mut inbound, i as u16, '.'), letters("."));
    }
    assert_eq!(accept(&mut inbound, 50, 'y'), letters("yz"));
}

#[test]
fn numbers_start_over() {
    let mut inbound = inbound_after(65_535);
    assert_eq!(accept(&mut inbound, 0, 'b'), letters(""));
    assert_eq!(accept(&mut inbound, 1, 'c'), letters(""));
    assert_eq!(accept(&mut inbound, 65_535, 'a'), letters("abc"));
    assert_eq!(accept(&mut inbound, 2, 'd'), letters("d"));
}

#[test]
fn message_received_before_the_numbers_started_over_is_dropped() {
    let mut inbound = inbound_after(65_536);
    assert_eq!(accept(&mut inbound, 65_535, 'x'), letters(""));
    assert_eq!(accept(&mut inbound, 65_488, 'x'), letters(""));
    for i in 65_536..2 * 65_536u32 {
        assert_eq!(accept(&mut inbound, i as u16, '.'), letters("."));
    }
    assert_eq!(accept(&mut inbound, 0, 'a'), letters("a"));
}

#[test]
fn payload_is_read_and_taken_in() {
    let mut inbound = inbound();
    assert_eq!(
        inbound.receive(&envelope_raw(b"b", 3, Some(1))),
        Ok(letters(""))
    );
    assert_eq!(
        inbound.receive(&envelope_raw(b"a", 3, Some(0))),
        Ok(letters("ab"))
    );
}

#[test]
fn unreadable_payload_changes_nothing() {
    let mut inbound = inbound();
    assert_eq!(
        inbound.receive(&[0, 3, 0, 0, 0]),
        Err(RnsError::ChannelError)
    );
    assert_eq!(
        inbound.receive(&envelope_raw(b"a", 4, Some(0))),
        Err(RnsError::ChannelUnknownMessageType)
    );
    assert_eq!(
        inbound.receive(&envelope_raw(b"ab", 3, Some(0))),
        Err(RnsError::InvalidArgument)
    );
    assert_eq!(
        inbound.receive(&envelope_raw(b"a", 3, Some(0))),
        Ok(letters("a"))
    );
}

#[test]
fn receiver_acts_on_events() {
    let mut inbound = inbound();

    let early = ReceiverEvent::Payload(envelope_raw(b"b", 3, Some(1)));
    assert!(matches!(
        receiver_step(&mut inbound, early),
        ReceiverAction::Deliver(messages) if messages.is_empty()
    ));

    let rejected = ReceiverEvent::Payload(vec![1, 2, 3]);
    assert!(matches!(
        receiver_step(&mut inbound, rejected),
        ReceiverAction::Reject(RnsError::ChannelError)
    ));

    assert!(matches!(
        receiver_step(&mut inbound, ReceiverEvent::PayloadsLost),
        ReceiverAction::Ignore
    ));

    let first = ReceiverEvent::Payload(envelope_raw(b"a", 3, Some(0)));
    assert!(matches!(
        receiver_step(&mut inbound, first),
        ReceiverAction::Deliver(messages) if messages == letters("ab")
    ));

    assert!(matches!(
        receiver_step(&mut inbound, ReceiverEvent::Cancelled),
        ReceiverAction::Stop
    ));
}
