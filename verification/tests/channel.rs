//! Two ends of a channel, with the links and the clock played by the tests.

use std::cell::RefCell;
use std::rc::Rc;

use reticulum::channel::events::{
    outbound_step, receiver_step, LinkEvent, LinkEventData, OutboundAction, OutboundEvent,
    ReceiverAction, ReceiverEvent,
};
use reticulum::channel::inbound::Inbound;
use reticulum::channel::message::Message;
use reticulum::channel::outbound::{MessageStatus, Outbound, Outlet, Timer};
use reticulum::error::RnsError;
use reticulum::hash::{AddressHash, LinkId, PacketHash};

const PACKET_MDU: usize = 64;

#[derive(Clone, Debug, PartialEq)]
enum TestMessage {
    Long(u64),
    Short(u32),
}

impl Message for TestMessage {
    fn unpack(packed: &[u8], message_type: u16) -> Result<Self, RnsError> {
        if message_type == 1 {
            if let Ok(a) = <[u8; 8]>::try_from(packed) {
                return Ok(Self::Long(u64::from_le_bytes(a)));
            }
        } else if message_type == 2 {
            if let Ok(a) = <[u8; 4]>::try_from(packed) {
                return Ok(Self::Short(u32::from_le_bytes(a)));
            }
        }

        Err(RnsError::ChannelUnknownMessageType)
    }

    fn pack(&self) -> Vec<u8> {
        match self {
            Self::Long(x) => x.to_le_bytes().to_vec(),
            Self::Short(x) => x.to_le_bytes().to_vec(),
        }
    }

    fn message_type(&self) -> u16 {
        match self {
            Self::Long(_) => 1,
            Self::Short(_) => 2,
        }
    }
}

#[derive(Clone, Copy, Debug, PartialEq)]
struct Packet {
    data: [u8; PACKET_MDU],
    len: usize,
    id: LinkId,
}

impl Packet {
    fn new(raw: &[u8], id: LinkId) -> Self {
        let mut data = [0; PACKET_MDU];
        data[..raw.len()].copy_from_slice(raw);
        Packet {
            data,
            len: raw.len(),
            id,
        }
    }

    fn hash(&self) -> PacketHash {
        let mut low: u128 = 7;
        for byte in &self.data[..self.len] {
            low = low.wrapping_mul(1_000_003).wrapping_add(*byte as u128);
        }
        PacketHash {
            high: self.len as u128,
            low,
        }
    }

    fn payload(&self) -> Vec<u8> {
        self.data[..self.len].to_vec()
    }

    fn prove(&self) -> LinkEventData {
        LinkEventData {
            id: self.id,
            address_hash: AddressHash { value: 0 },
            event: LinkEvent::Proof(self.hash()),
        }
    }
}

#[derive(PartialEq, Debug)]
enum LinkStatus {
    Pending,
    Active,
    Closed,
}

type Reports = Rc<RefCell<Vec<bool>>>;

struct Channel {
    id: LinkId,
    status: LinkStatus,
    rtt_nanos: u128,
    packets: Vec<Packet>,
    timers: Vec<Timer>,
    outbound: Outbound<Packet, Reports>,
    inbound: Inbound<TestMessage>,
    incoming: Vec<TestMessage>,
}

impl Channel {
    fn new(id: u128, status: LinkStatus) -> Self {
        let id = AddressHash { value: id };
        let rtt_nanos = 20_000_000;
        Channel {
            id,
            status,
            rtt_nanos,
            packets: Vec::new(),
            timers: Vec::new(),
            outbound: Outbound::new(id, rtt_nanos, PACKET_MDU),
            inbound: Inbound::new(id),
            incoming: Vec::new(),
        }
    }

    fn outlet(&self) -> Outlet {
        Outlet {
            transport_available: true,
            link_active: self.status == LinkStatus::Active,
            cancelled: false,
        }
    }

    fn is_ready(&self) -> bool {
        self.outbound.is_ready_to_send(self.outlet())
    }

    fn send(&mut self, message: &TestMessage) -> Result<PacketHash, RnsError> {
        let outlet = self.outlet();
        let raw = self.outbound.send(message, outlet)?;
        let packet = Packet::new(&raw, self.id);
        self.packets.push(packet);
        let timer = self
            .outbound
            .record_send(packet.hash(), packet, Reports::default(), true);
        self.timers.push(timer);
        Ok(packet.hash())
    }

    fn watch_message_delivery(&self, hash: PacketHash) -> Option<Reports> {
        self.outbound.watch_delivery(hash).cloned()
    }

    fn status(&self, hash: &PacketHash) -> MessageStatus {
        self.outbound.get_status(hash)
    }

    fn link_event(&mut self, data: LinkEventData) {
        self.step(OutboundEvent::Link(data));
    }

    /// Let all timers expire that run now.
    fn expire(&mut self) {
        for timer in std::mem::take(&mut self.timers) {
            self.step(OutboundEvent::TimedOut(Some(timer.packet_hash)));
        }
    }

    fn step(&mut self, event: OutboundEvent) {
        let outlet = self.outlet();
        match outbound_step(&mut self.outbound, event, outlet, self.rtt_nanos) {
            OutboundAction::Deliver(message) => message.delivered.borrow_mut().push(true),
            OutboundAction::Resend { packet, timer } => {
                self.packets.push(packet);
                self.timers.push(timer);
            }
            OutboundAction::Postpone { timer } => self.timers.push(timer),
            OutboundAction::Teardown => self.status = LinkStatus::Closed,
            _ => {}
        }
    }

    fn receive(&mut self, payload: Vec<u8>) {
        let event = ReceiverEvent::Payload(payload);
        if let ReceiverAction::Deliver(messages) = receiver_step(&mut self.inbound, event) {
            self.incoming.extend(messages);
        }
    }
}

fn fixture() -> (Channel, Channel) {
    (
        Channel::new(0xa, LinkStatus::Active),
        Channel::new(0xb, LinkStatus::Active),
    )
}

#[test]
fn test_message_delivery() {
    let (mut channel_a, mut channel_b) = fixture();

    let packet_hash = channel_a.send(&TestMessage::Short(1377)).unwrap();

    assert_eq!(channel_a.packets.len(), 1);

    let packet = channel_a.packets[0];

    assert_eq!(channel_a.status(&packet_hash), MessageStatus::Sent(1));

    let delivered = channel_a
        .watch_message_delivery(packet_hash)
        .expect("message not found in channel a");

    channel_b.receive(packet.payload());

    let incoming = channel_b
        .incoming
        .first()
        .expect("expected incoming message");
    assert_eq!(*incoming, TestMessage::Short(1377));

    assert!(delivered.borrow().is_empty());

    channel_a.link_event(packet.prove());

    assert!(delivered.borrow()[0]);

    channel_a.expire();

    assert_eq!(channel_a.status(&packet_hash), MessageStatus::Delivered);
}

#[test]
fn test_message_failure() {
    let (mut channel_a, _) = fixture();

    let packet_hash = channel_a.send(&TestMessage::Short(1)).unwrap();

    let delivered = channel_a
        .watch_message_delivery(packet_hash)
        .expect("message not found in channel a");

    for _ in 0..10 {
        channel_a.expire();
    }

    assert_eq!(channel_a.packets.len(), 5);

    assert_eq!(channel_a.status, LinkStatus::Closed);

    assert!(delivered.borrow().is_empty());

    assert!(!channel_a.is_ready());
}

#[test]
fn test_channel_not_ready() {
    let mut channel_a = Channel::new(0xa, LinkStatus::Pending);

    assert!(!channel_a.is_ready());

    let result = channel_a.send(&TestMessage::Short(0));
    assert_eq!(result, Err(RnsError::ChannelLinkNotReady));

    channel_a.status = LinkStatus::Active;

    assert!(channel_a.is_ready());

    channel_a.send(&TestMessage::Short(1)).unwrap();
    channel_a.send(&TestMessage::Short(2)).unwrap();

    assert_eq!(channel_a.packets.len(), 2);

    // now the channel should again not be ready as the window is full
    // (too many messages already awaiting delivery)
    assert!(!channel_a.is_ready());

    let result = channel_a.send(&TestMessage::Short(3));
    assert_eq!(result, Err(RnsError::ChannelLinkNotReady));
}

#[test]
fn test_messages_ordering() {
    let (mut channel_a, mut channel_b) = fixture();

    channel_a.send(&TestMessage::Short(1)).unwrap();

    let first = channel_a.packets[0];
    channel_b.receive(first.payload());

    assert_eq!(channel_b.incoming, vec![TestMessage::Short(1)]);

    channel_a.link_event(first.prove());
    channel_a.expire();

    channel_a.send(&TestMessage::Short(2)).unwrap();
    channel_a.send(&TestMessage::Short(3)).unwrap();

    let packets = channel_a.packets.clone();
    channel_b.incoming.clear();
    channel_b.receive(packets[2].payload());

    // packets have been sent in wrong order:
    // third packet will be on hold until the second one has been received.
    assert!(channel_b.incoming.is_empty());

    channel_b.receive(packets[1].payload());

    assert_eq!(channel_b.incoming.len(), 2);
    assert_eq!(channel_b.incoming[0], TestMessage::Short(2));
    assert_eq!(channel_b.incoming[1], TestMessage::Short(3));

    channel_a.link_event(packets[1].prove());

    channel_a.send(&TestMessage::Short(4)).unwrap();

    let fourth = channel_a.packets[3];
    channel_b.receive(fourth.payload());

    assert_eq!(channel_b.incoming[2], TestMessage::Short(4));
}

#[test]
fn test_missing_message() {
    let (mut channel_a, mut channel_b) = fixture();

    channel_a.send(&TestMessage::Long(50)).unwrap();
    channel_a.send(&TestMessage::Long(50)).unwrap();

    let packets = channel_a.packets.clone();

    channel_b.receive(packets[1].payload());

    for _ in 0..10 {
        channel_a.expire();
    }

    assert!(channel_b.incoming.is_empty());
}

#[test]
fn messages_arrive_in_order_over_a_bad_link() {
    let (mut channel_a, mut channel_b) = fixture();
    let mut sent: u32 = 0;
    let mut round: u32 = 0;

    while channel_b.incoming.len() < 200 {
        while channel_a.is_ready() && sent < 200 {
            channel_a.send(&TestMessage::Short(sent)).unwrap();
            sent += 1;
        }
        // Of the packets that went out in this round every third is lost; the
        // others come in from the last to the first, and every other one twice.
        let packets = std::mem::take(&mut channel_a.packets);
        for (i, packet) in packets.iter().enumerate().rev() {
            round += 1;
            if round % 3 == 0 {
                continue;
            }
            channel_b.receive(packet.payload());
            if i % 2 == 0 {
                channel_b.receive(packet.payload());
            }
            channel_a.link_event(packet.prove());
        }
        channel_a.expire();
        assert_eq!(channel_a.status, LinkStatus::Active);
    }

    let expected: Vec<TestMessage> = (0..200).map(TestMessage::Short).collect();
    assert_eq!(channel_b.incoming, expected);
    // The link was fast all the time, so the window has grown.
    assert_eq!(channel_a.outbound.params().window_max, 48);
    assert!(channel_a.outbound.params().window > 5);
}

#[test]
fn sequence_numbers_start_over() {
    let (mut channel_a, mut channel_b) = fixture();

    for i in 0..65_600u32 {
        channel_a.rtt_nanos = 800_000_000;
        channel_a.send(&TestMessage::Short(i)).unwrap();
        let packet = channel_a.packets.pop().unwrap();
        assert_eq!(packet.data[2..4], (i as u16).to_be_bytes());
        channel_b.receive(packet.payload());
        channel_a.link_event(packet.prove());
        channel_a.timers.clear();
        assert_eq!(channel_b.incoming.pop(), Some(TestMessage::Short(i)));
    }
}

#[test]
fn message_after_a_refused_one_is_delivered() {
    let (mut channel_a, mut channel_b) = fixture();
    let outlet = channel_a.outlet();

    assert_eq!(
        channel_a.outbound.send_packed(&[0; PACKET_MDU], 1, outlet),
        Err(RnsError::ChannelMessageTooBig)
    );
    channel_a.send(&TestMessage::Short(7)).unwrap();
    let packet = channel_a.packets[0];
    channel_b.receive(packet.payload());

    assert_eq!(channel_b.incoming, vec![TestMessage::Short(7)]);
}
