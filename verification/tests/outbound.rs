use reticulum::channel::envelope::channel_mdu;
use reticulum::channel::events::{
    can_take_event, outbound_step, watch_step, LinkEvent, LinkEventData, OutboundAction,
    OutboundEvent, WatchAction, WatchEvent,
};
use reticulum::channel::message::Message;
use reticulum::channel::outbound::{MessageStatus, Outbound, Outlet, TimeoutAction, Timer};
use reticulum::error::RnsError;
use reticulum::hash::{AddressHash, PacketHash};

#[derive(Clone)]
struct Blob(Vec<u8>);

impl Message for Blob {
    fn unpack(packed: &[u8], _message_type: u16) -> Result<Self, RnsError> {
        Ok(Blob(packed.to_vec()))
    }

    fn pack(&self) -> Vec<u8> {
        self.0.clone()
    }

    fn message_type(&self) -> u16 {
        0x0a0b
    }
}

/// A message that must not be packed.
#[derive(Clone)]
struct Untouchable;

impl Message for Untouchable {
    fn unpack(_packed: &[u8], _message_type: u16) -> Result<Self, RnsError> {
        Ok(Untouchable)
    }

    fn pack(&self) -> Vec<u8> {
        panic!("packed")
    }

    fn message_type(&self) -> u16 {
        0
    }
}

const OPEN: Outlet = Outlet {
    transport_available: true,
    link_active: true,
    cancelled: false,
};

const FAST: u128 = 20_000_000;

fn hash(low: u128) -> PacketHash {
    PacketHash { high: 1, low }
}

fn outbound() -> Outbound<u32, &'static str> {
    Outbound::new(AddressHash { value: 5 }, FAST, 20)
}

fn proof_of(id: u128, packet_hash: PacketHash) -> OutboundEvent {
    OutboundEvent::Link(LinkEventData {
        id: AddressHash { value: id },
        address_hash: AddressHash { value: 0 },
        event: LinkEvent::Proof(packet_hash),
    })
}

#[test]
fn new_channel_follows_the_round_trip_time() {
    let quick = outbound();
    assert_eq!(quick.link_id(), AddressHash { value: 5 });
    assert_eq!(quick.outstanding(), 0);
    assert_eq!(quick.params().max_tries, 5);
    assert_eq!(
        (quick.params().window, quick.params().window_max, quick.params().window_min),
        (2, 5, 2)
    );

    let slow: Outbound<u32, ()> = Outbound::new(AddressHash { value: 5 }, 1_500_000_000, 20);
    assert_eq!(
        (slow.params().window, slow.params().window_max, slow.params().window_min),
        (1, 1, 1)
    );
}

#[test]
fn messages_are_enveloped_and_numbered() {
    let mut outbound = outbound();
    assert_eq!(
        outbound.send(&Blob(vec![7, 8]), OPEN),
        Ok(vec![0x0a, 0x0b, 0, 0, 0, 2, 7, 8])
    );
    assert_eq!(
        outbound.send(&Blob(vec![]), OPEN),
        Ok(vec![0x0a, 0x0b, 0, 1, 0, 0])
    );
    assert_eq!(
        outbound.send_packed(&[9], 0x1234, OPEN),
        Ok(vec![0x12, 0x34, 0, 2, 0, 1, 9])
    );
}

#[test]
fn message_must_fit_in_a_packet() {
    let mut outbound = outbound();
    let largest = Blob(vec![1; channel_mdu(20)]);
    assert_eq!(outbound.send(&largest, OPEN).map(|raw| raw.len()), Ok(20));

    let too_big = Blob(vec![1; channel_mdu(20) + 1]);
    assert_eq!(
        outbound.send(&too_big, OPEN),
        Err(RnsError::ChannelMessageTooBig)
    );
    assert_eq!(outbound.outstanding(), 0);

    // The next message carries the number that the refused one would have had.
    assert_eq!(
        outbound.send(&Blob(vec![]), OPEN),
        Ok(vec![0x0a, 0x0b, 0, 1, 0, 0])
    );
}

#[test]
fn message_is_refused_if_the_channel_is_not_ready() {
    let mut outbound = outbound();
    let closed = [
        Outlet { transport_available: false, ..OPEN },
        Outlet { link_active: false, ..OPEN },
        Outlet { cancelled: true, ..OPEN },
    ];
    for outlet in closed {
        assert_eq!(
            outbound.send(&Untouchable, outlet),
            Err(RnsError::ChannelLinkNotReady)
        );
        assert_eq!(
            outbound.send_packed(&[1; 100], 0, outlet),
            Err(RnsError::ChannelLinkNotReady)
        );
    }
    assert!(outbound.is_ready_to_send(closed[0]));
    assert!(!outbound.is_ready_to_send(closed[1]));
    assert!(!outbound.is_ready_to_send(closed[2]));
    assert_eq!(
        outbound.send(&Blob(vec![]), OPEN),
        Ok(vec![0x0a, 0x0b, 0, 0, 0, 0])
    );
}

#[test]
fn sent_message_gets_a_timer() {
    let mut outbound = outbound();
    assert_eq!(
        outbound.record_send(hash(1), 11, "first", true),
        Timer { packet_hash: hash(1), ring_len: 1, tries: 1 }
    );
    assert_eq!(
        outbound.record_send(hash(2), 12, "second", false),
        Timer { packet_hash: hash(2), ring_len: 2, tries: 0 }
    );
    assert_eq!(outbound.get_status(&hash(1)), MessageStatus::Sent(1));
    assert_eq!(outbound.get_status(&hash(2)), MessageStatus::Waiting);
    assert_eq!(outbound.get_status(&hash(3)), MessageStatus::Unknown);
    assert_eq!(outbound.watch_delivery(hash(1)), Some(&"first"));
    assert_eq!(outbound.watch_delivery(hash(2)), Some(&"second"));
    assert_eq!(outbound.watch_delivery(hash(3)), None);
    assert_eq!(
        outbound.schedule_timeout(hash(1)),
        Timer { packet_hash: hash(1), ring_len: 2, tries: 1 }
    );
}

#[test]
fn waiting_message_is_sent_when_its_timer_expires() {
    let mut outbound = outbound();
    outbound.record_send(hash(1), 11, "first", false);
    for tries in 0..5 {
        assert_eq!(
            outbound.handle_timeout(hash(1), OPEN),
            TimeoutAction::Resend {
                packet: 11,
                timer: Timer { packet_hash: hash(1), ring_len: 1, tries },
            }
        );
        assert_eq!(outbound.get_status(&hash(1)), MessageStatus::Sent(tries + 1));
    }
    assert_eq!(outbound.handle_timeout(hash(1), OPEN), TimeoutAction::Teardown);
    assert!(outbound.handle_proof(hash(1), FAST).is_some());
    assert_eq!(outbound.get_status(&hash(1)), MessageStatus::Delivered);
}

#[test]
fn failed_try_does_not_count_as_sent() {
    let mut outbound = outbound();
    let closed = [
        Outlet { link_active: false, ..OPEN },
        Outlet { transport_available: false, ..OPEN },
    ];
    outbound.record_send(hash(1), 11, "first", false);
    for (tries, outlet) in closed.into_iter().enumerate() {
        let tries = tries as u16;
        assert_eq!(
            outbound.handle_timeout(hash(1), outlet),
            TimeoutAction::Postpone {
                timer: Timer { packet_hash: hash(1), ring_len: 1, tries },
            }
        );
        assert_eq!(outbound.get_status(&hash(1)), MessageStatus::Waiting);
    }
    for sends in 1..4 {
        assert!(matches!(
            outbound.handle_timeout(hash(1), OPEN),
            TimeoutAction::Resend { packet: 11, .. }
        ));
        assert_eq!(outbound.get_status(&hash(1)), MessageStatus::Sent(sends));
    }
    // There were five tries in all, though the message went out three times.
    assert_eq!(outbound.handle_timeout(hash(1), closed[0]), TimeoutAction::Teardown);
    assert_eq!(outbound.handle_timeout(hash(1), OPEN), TimeoutAction::Teardown);
    assert_eq!(outbound.get_status(&hash(1)), MessageStatus::Sent(3));
}

#[test]
fn message_is_postponed_while_the_link_is_down() {
    let mut outbound = outbound();
    let down = Outlet { link_active: false, ..OPEN };
    outbound.record_send(hash(1), 11, "first", true);
    assert!(matches!(
        outbound_step(&mut outbound, OutboundEvent::TimedOut(Some(hash(1))), down, FAST),
        OutboundAction::Postpone { timer } if timer.tries == 1
    ));
    assert_eq!(outbound.get_status(&hash(1)), MessageStatus::Sent(1));
    assert!(matches!(
        outbound_step(&mut outbound, OutboundEvent::TimedOut(Some(hash(1))), OPEN, FAST),
        OutboundAction::Resend { timer, .. } if timer.tries == 2
    ));
    assert_eq!(outbound.get_status(&hash(1)), MessageStatus::Sent(2));
}

#[test]
fn event_is_taken_unless_a_counter_is_full() {
    let mut outbound = outbound();
    for i in 0..65_535u128 {
        outbound.record_send(hash(i), 11, "first", true);
        assert!(can_take_event(&outbound, &proof_of(5, hash(i)), FAST));
        outbound.handle_proof(hash(i), FAST);
    }
    outbound.record_send(hash(70_000), 11, "last", true);
    assert!(!can_take_event(&outbound, &proof_of(5, hash(70_000)), FAST));
    assert!(can_take_event(&outbound, &proof_of(5, hash(70_000)), 800_000_000));
    assert!(can_take_event(&outbound, &proof_of(6, hash(70_000)), FAST));
    assert!(can_take_event(&outbound, &proof_of(5, hash(70_001)), FAST));
    assert!(can_take_event(&outbound, &OutboundEvent::TimedOut(Some(hash(70_000))), FAST));
}

#[test]
fn waiting_messages_fill_the_window() {
    let mut outbound = outbound();
    outbound.record_send(hash(1), 11, "first", false);
    outbound.record_send(hash(2), 12, "second", false);
    assert!(!outbound.is_ready_to_send(OPEN));
}

#[test]
fn full_window_has_room_after_a_receipt() {
    let mut outbound = outbound();
    outbound.record_send(hash(1), 11, "first", true);
    assert!(outbound.is_ready_to_send(OPEN));
    outbound.record_send(hash(2), 12, "second", true);
    assert!(!outbound.is_ready_to_send(OPEN));
    assert_eq!(
        outbound.send(&Blob(vec![]), OPEN),
        Err(RnsError::ChannelLinkNotReady)
    );

    let message = outbound.handle_proof(hash(1), FAST).unwrap();
    assert_eq!((message.packet, message.delivered, message.tries), (11, "first", 1));
    assert!(outbound.is_ready_to_send(OPEN));
    assert_eq!(outbound.params().window, 3);
    assert_eq!(outbound.params().fast_rate_rounds, 1);
}

#[test]
fn receipt_marks_the_message_delivered_once() {
    let mut outbound = outbound();
    outbound.record_send(hash(1), 11, "first", true);
    outbound.record_send(hash(2), 12, "second", true);
    assert!(outbound.handle_proof(hash(3), FAST).is_none());
    assert_eq!(outbound.params().window, 2);
    assert!(outbound.handle_proof(hash(1), FAST).is_some());
    assert!(outbound.handle_proof(hash(1), FAST).is_none());
    assert_eq!(outbound.params().window, 3);
    assert_eq!(outbound.get_status(&hash(1)), MessageStatus::Delivered);
    assert_eq!(outbound.get_status(&hash(2)), MessageStatus::Sent(1));
    assert_eq!(outbound.get_status(&hash(3)), MessageStatus::Unknown);
    assert_eq!(outbound.watch_delivery(hash(1)), None);
    assert_eq!(outbound.handle_timeout(hash(1), OPEN), TimeoutAction::Unknown);
    assert_eq!(outbound.get_status(&hash(1)), MessageStatus::Delivered);
}

#[test]
fn message_without_receipt_is_sent_five_times() {
    let mut outbound = outbound();
    outbound.record_send(hash(1), 11, "first", true);
    outbound.record_send(hash(2), 12, "second", true);
    for tries in 1..5 {
        assert_eq!(outbound.get_status(&hash(1)), MessageStatus::Sent(tries));
        assert_eq!(
            outbound.handle_timeout(hash(1), OPEN),
            TimeoutAction::Resend {
                packet: 11,
                timer: Timer { packet_hash: hash(1), ring_len: 2, tries },
            }
        );
    }
    assert_eq!(outbound.get_status(&hash(1)), MessageStatus::Sent(5));
    assert_eq!(outbound.handle_timeout(hash(1), OPEN), TimeoutAction::Teardown);
    assert_eq!(outbound.handle_timeout(hash(1), OPEN), TimeoutAction::Teardown);
    assert_eq!(outbound.get_status(&hash(1)), MessageStatus::Sent(5));
    assert_eq!(outbound.get_status(&hash(2)), MessageStatus::Sent(1));
    assert_eq!(outbound.watch_delivery(hash(1)), Some(&"first"));
}

#[test]
fn packet_that_is_sent_anew_awaits_its_receipt_again() {
    let mut outbound = outbound();
    outbound.record_send(hash(1), 11, "first", true);
    outbound.handle_proof(hash(1), FAST);
    outbound.record_send(hash(1), 11, "again", true);
    assert_eq!(outbound.get_status(&hash(1)), MessageStatus::Sent(1));
    assert_eq!(outbound.watch_delivery(hash(1)), Some(&"again"));
}

#[test]
fn outbound_acts_on_receipts_of_its_link() {
    let mut outbound = outbound();
    outbound.record_send(hash(1), 11, "first", true);

    assert!(matches!(
        outbound_step(&mut outbound, proof_of(6, hash(1)), OPEN, FAST),
        OutboundAction::Ignore
    ));
    assert_eq!(outbound.get_status(&hash(1)), MessageStatus::Sent(1));

    assert!(matches!(
        outbound_step(&mut outbound, proof_of(5, hash(2)), OPEN, FAST),
        OutboundAction::UnknownProof(unknown) if unknown == hash(2)
    ));
    assert!(matches!(
        outbound_step(&mut outbound, proof_of(5, hash(1)), OPEN, FAST),
        OutboundAction::Deliver(message) if message.delivered == "first"
    ));
    assert_eq!(outbound.get_status(&hash(1)), MessageStatus::Delivered);
}

#[test]
fn outbound_ignores_other_events_of_its_link() {
    let mut outbound = outbound();
    outbound.record_send(hash(1), 11, "first", true);
    let events = vec![
        LinkEvent::Activated,
        LinkEvent::Closed,
        LinkEvent::Data(vec![1, 2]),
    ];
    for event in events {
        let data = LinkEventData {
            id: AddressHash { value: 5 },
            address_hash: AddressHash { value: 0 },
            event,
        };
        assert!(matches!(
            outbound_step(&mut outbound, OutboundEvent::Link(data), OPEN, FAST),
            OutboundAction::Ignore
        ));
    }
    assert_eq!(outbound.get_status(&hash(1)), MessageStatus::Sent(1));
}

#[test]
fn outbound_acts_on_timers() {
    let mut outbound = outbound();
    outbound.record_send(hash(1), 11, "first", true);
    assert!(matches!(
        outbound_step(&mut outbound, OutboundEvent::TimedOut(None), OPEN, FAST),
        OutboundAction::Ignore
    ));
    assert!(matches!(
        outbound_step(&mut outbound, OutboundEvent::TimedOut(Some(hash(2))), OPEN, FAST),
        OutboundAction::UnknownTimeout(unknown) if unknown == hash(2)
    ));
    for _ in 0..4 {
        assert!(matches!(
            outbound_step(&mut outbound, OutboundEvent::TimedOut(Some(hash(1))), OPEN, FAST),
            OutboundAction::Resend { packet: 11, .. }
        ));
    }
    assert!(matches!(
        outbound_step(&mut outbound, OutboundEvent::TimedOut(Some(hash(1))), OPEN, FAST),
        OutboundAction::Teardown
    ));
}

#[test]
fn outbound_resends_after_missed_events() {
    let mut outbound = outbound();
    outbound.record_send(hash(1), 11, "first", true);
    assert!(matches!(
        outbound_step(&mut outbound, OutboundEvent::LinkEventsMissed, OPEN, FAST),
        OutboundAction::Ignore
    ));
    assert!(matches!(
        outbound_step(&mut outbound, OutboundEvent::TimedOut(Some(hash(1))), OPEN, FAST),
        OutboundAction::Resend { packet: 11, .. }
    ));
    assert_eq!(outbound.get_status(&hash(1)), MessageStatus::Sent(2));
}

#[test]
fn outbound_stops_when_cancelled_or_cut_off() {
    let mut outbound = outbound();
    assert!(matches!(
        outbound_step(&mut outbound, OutboundEvent::LinkEventsEnded, OPEN, FAST),
        OutboundAction::Stop
    ));
    assert!(matches!(
        outbound_step(&mut outbound, OutboundEvent::Cancelled, OPEN, FAST),
        OutboundAction::Stop
    ));
}

#[test]
fn watch_ends_with_delivery_timeout_or_cancellation() {
    assert_eq!(watch_step(WatchEvent::Expired), WatchAction::PassOnTimeout);
    assert_eq!(watch_step(WatchEvent::Reported(Some(true))), WatchAction::Stop);
    assert_eq!(watch_step(WatchEvent::Reported(Some(false))), WatchAction::Wait);
    assert_eq!(watch_step(WatchEvent::Reported(None)), WatchAction::Wait);
    assert_eq!(watch_step(WatchEvent::Cancelled), WatchAction::Stop);
}
