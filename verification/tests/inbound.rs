use udp_relay::address::Address;
use udp_relay::channel::{BroadcastChannel, ChannelRead};
use udp_relay::failure::Fatal;
use udp_relay::inbound::{capture, on_inbound, Arrival, InboundAction, InboundEvent, Presence};
use udp_relay::registry::ClientRegistry;

#[test]
fn capture_takes_the_reported_bytes() {
    let buffer = [b'h', b'e', b'l', b'l', b'o', 0, 0, 0];
    assert_eq!(capture(&buffer, 5), b"hello".to_vec());
    assert_eq!(capture(&buffer, 0), Vec::<u8>::new());
    assert_eq!(capture(&buffer, 8), buffer.to_vec());
}

#[test]
fn capture_never_reads_past_the_buffer() {
    let buffer = [1u8, 2, 3, 4];
    assert_eq!(capture(&buffer, 5), vec![1, 2, 3, 4]);
    assert_eq!(capture(&buffer, usize::MAX), vec![1, 2, 3, 4]);
    assert_eq!(capture(&[], 3), Vec::<u8>::new());
}

#[test]
fn a_first_datagram_connects_its_source() {
    let mut registry = ClientRegistry::new();
    let mut channel = BroadcastChannel::new(8);
    let a = Address::from_octets(10, 0, 0, 1, 5000);
    let mut buffer = [0u8; 16];
    buffer[..5].copy_from_slice(b"hello");
    let action = on_inbound(
        &mut registry,
        &mut channel,
        InboundEvent::Datagram { source: a, size: 5 },
        &buffer,
        42,
    );
    assert_eq!(
        action,
        InboundAction::Continue(Arrival { source: a, presence: Presence::Connected, length: 5 })
    );
    assert!(registry.contains(a));
    assert_eq!(registry.last_seen(a), Some(42));
    assert_eq!(channel.consume(), ChannelRead::Payload(b"hello".to_vec()));
}

#[test]
fn a_later_datagram_updates_its_source() {
    let mut registry = ClientRegistry::new();
    let mut channel = BroadcastChannel::new(8);
    let a = Address::from_octets(10, 0, 0, 1, 5000);
    let buffer = *b"abcdefgh";
    on_inbound(&mut registry, &mut channel, InboundEvent::Datagram { source: a, size: 3 }, &buffer, 1);
    let action = on_inbound(
        &mut registry,
        &mut channel,
        InboundEvent::Datagram { source: a, size: 8 },
        &buffer,
        9,
    );
    assert_eq!(
        action,
        InboundAction::Continue(Arrival { source: a, presence: Presence::Updated, length: 8 })
    );
    assert_eq!(registry.len(), 1);
    assert_eq!(registry.last_seen(a), Some(9));
    assert_eq!(channel.consume(), ChannelRead::Payload(b"abc".to_vec()));
    assert_eq!(channel.consume(), ChannelRead::Payload(b"abcdefgh".to_vec()));
}

#[test]
fn an_oversized_datagram_is_cut_to_the_buffer() {
    let mut registry = ClientRegistry::new();
    let mut channel = BroadcastChannel::new(8);
    let a = Address::from_octets(10, 0, 0, 1, 5000);
    let buffer = [7u8; 4];
    let action = on_inbound(
        &mut registry,
        &mut channel,
        InboundEvent::Datagram { source: a, size: 9000 },
        &buffer,
        0,
    );
    assert_eq!(
        action,
        InboundAction::Continue(Arrival { source: a, presence: Presence::Connected, length: 4 })
    );
    assert_eq!(channel.consume(), ChannelRead::Payload(vec![7, 7, 7, 7]));
}

#[test]
fn a_receive_error_stops_the_loop_and_touches_nothing() {
    let mut registry = ClientRegistry::new();
    let mut channel = BroadcastChannel::new(8);
    let action =
        on_inbound(&mut registry, &mut channel, InboundEvent::ReceiveFailed, &[1, 2, 3], 5);
    assert_eq!(action, InboundAction::Stop { fatal: Fatal::ReceiveFailed, arrival: None });
    assert!(registry.is_empty());
    assert!(channel.is_empty());
}

#[test]
fn a_closed_medium_stops_the_loop_after_the_source_is_registered() {
    let mut registry = ClientRegistry::new();
    let mut channel = BroadcastChannel::new(8);
    channel.close();
    let a = Address::from_octets(10, 0, 0, 1, 5000);
    let action = on_inbound(
        &mut registry,
        &mut channel,
        InboundEvent::Datagram { source: a, size: 2 },
        &[1, 2, 3],
        5,
    );
    assert_eq!(
        action,
        InboundAction::Stop {
            fatal: Fatal::PublishFailed,
            arrival: Some(Arrival { source: a, presence: Presence::Connected, length: 2 }),
        }
    );
    assert!(registry.contains(a));
    assert_eq!(registry.last_seen(a), Some(5));
    assert!(channel.is_empty());
}

#[test]
fn a_closed_medium_still_reports_a_known_source_as_updated() {
    let mut registry = ClientRegistry::new();
    let mut channel = BroadcastChannel::new(8);
    let a = Address::from_octets(10, 0, 0, 1, 5000);
    let action = on_inbound(
        &mut registry,
        &mut channel,
        InboundEvent::Datagram { source: a, size: 1 },
        &[9, 9, 9],
        1,
    );
    assert_eq!(
        action,
        InboundAction::Continue(Arrival { source: a, presence: Presence::Connected, length: 1 })
    );
    channel.close();
    let action = on_inbound(
        &mut registry,
        &mut channel,
        InboundEvent::Datagram { source: a, size: 7 },
        &[9, 9, 9],
        8,
    );
    assert_eq!(
        action,
        InboundAction::Stop {
            fatal: Fatal::PublishFailed,
            arrival: Some(Arrival { source: a, presence: Presence::Updated, length: 3 }),
        }
    );
    assert_eq!(registry.last_seen(a), Some(8));
    assert_eq!(channel.len(), 1);
}

#[test]
fn a_full_medium_still_takes_the_datagram() {
    let mut registry = ClientRegistry::new();
    let mut channel = BroadcastChannel::new(1);
    let a = Address::from_octets(10, 0, 0, 1, 5000);
    on_inbound(&mut registry, &mut channel, InboundEvent::Datagram { source: a, size: 1 }, &[1], 0);
    let action =
        on_inbound(&mut registry, &mut channel, InboundEvent::Datagram { source: a, size: 1 }, &[2], 1);
    assert_eq!(
        action,
        InboundAction::Continue(Arrival { source: a, presence: Presence::Updated, length: 1 })
    );
    assert_eq!(channel.consume(), ChannelRead::Lagged(1));
    assert_eq!(channel.consume(), ChannelRead::Payload(vec![2]));
}
