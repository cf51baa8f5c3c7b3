# reticulum

Reliable, ordered message channels over Reticulum links, written in Rust and
verified with Verus.

A channel answers each message with a receipt, sends a message again if the
receipt does not come in time, gives up after a fixed number of tries, and hands
messages on in the order in which they were sent. How many messages may await
their receipt follows the round trip time of the link.

## Layout

- `src/` is the library. It decides and does not wait: events go in as plain
  values, and what has to be done comes out as plain values.
  - `channel/envelope.rs`: the bytes of a message on the wire.
  - `channel/message.rs`: the trait that a channel's messages implement.
  - `channel/params.rs`: the window and how it follows the round trip time.
  - `channel/inbound.rs`: the receiving side.
  - `channel/outbound.rs`: the sending side.
  - `channel/events.rs`: what the tasks of a channel do with each event.
  - `channel/delivery.rs`, `channel/reliability.rs`: what holds over many steps
    and from end to end.
  - `channel/text.rs`: a message type for texts.
  - `link_map.rs`, `hash.rs`, `error.rs`, `time.rs`: links by address,
    identifiers, errors, and the time of a device without a clock.
- `app/` holds the tasks, timers and clocks around the library.
- `tests/` runs the library.

## What is taken on trust

- `time.rs`: the clock and the tick rate of `embassy_time`.
- `channel/text.rs`: `String::from_utf8`.
- That the types which implement `Message` do what they should is not taken on
  trust: the contracts hold for whatever these types return.
