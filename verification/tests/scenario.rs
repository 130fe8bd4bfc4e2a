use udp_relay::address::Address;
use udp_relay::channel::{BroadcastChannel, CHANNEL_CAPACITY};
use udp_relay::config::{Config, LogLevel, SWEEP_PERIOD_SECS};
use udp_relay::failure::Fatal;
use udp_relay::inbound::{on_inbound, Arrival, InboundAction, InboundEvent, Presence};
use udp_relay::lifecycle::{LifecycleEvent, Outcome, Phase};
use udp_relay::outbound::{Outbound, OutboundAction, OutboundEvent};
use udp_relay::registry::{ClientRegistry, NANOS_PER_SEC};

fn send(
    registry: &mut ClientRegistry,
    channel: &mut BroadcastChannel,
    buffer_size: usize,
    source: Address,
    text: &[u8],
    now: u64,
) -> InboundAction {
    let mut buffer = vec![0u8; buffer_size];
    let size = text.len().min(buffer_size);
    buffer[..size].copy_from_slice(&text[..size]);
    on_inbound(registry, channel, InboundEvent::Datagram { source, size: text.len() }, &buffer, now)
}

fn deliveries(
    outbound: &mut Outbound,
    channel: &mut BroadcastChannel,
    registry: &ClientRegistry,
) -> Vec<(Address, Vec<u8>)> {
    let mut sent = Vec::new();
    loop {
        match outbound.step(OutboundEvent::Ready, channel, registry) {
            OutboundAction::Send(target) => sent.push((target, outbound.payload().clone())),
            OutboundAction::NoRecipients => {}
            OutboundAction::Wait => break,
            OutboundAction::Stop(fatal) => panic!("the relay stopped: {:?}", fatal),
        }
    }
    sent.sort_by_key(|(target, _)| target.key());
    sent
}

#[test]
fn echo_then_broadcast_then_eviction() {
    let config = Config {
        bind: Address::from_octets(127, 0, 0, 1, 3000),
        timeout_secs: 2,
        buffer_size: 1024,
        log_level: LogLevel::Info,
    };
    let mut registry = ClientRegistry::new();
    let mut channel = BroadcastChannel::new(CHANNEL_CAPACITY);
    let mut outbound = Outbound::new();
    let a = Address::from_octets(127, 0, 0, 1, 40001);
    let b = Address::from_octets(127, 0, 0, 1, 40002);

    let action = send(&mut registry, &mut channel, config.buffer_size, a, b"hello", 0);
    assert_eq!(
        action,
        InboundAction::Continue(Arrival { source: a, presence: Presence::Connected, length: 5 })
    );
    assert_eq!(
        deliveries(&mut outbound, &mut channel, &registry),
        vec![(a, b"hello".to_vec())]
    );

    let action = send(&mut registry, &mut channel, config.buffer_size, b, b"hi", NANOS_PER_SEC);
    assert_eq!(
        action,
        InboundAction::Continue(Arrival { source: b, presence: Presence::Connected, length: 2 })
    );
    assert_eq!(
        deliveries(&mut outbound, &mut channel, &registry),
        vec![(a, b"hi".to_vec()), (b, b"hi".to_vec())]
    );

    let mut tick = 0;
    let mut evicted = Vec::new();
    while tick < 3 * NANOS_PER_SEC {
        tick += SWEEP_PERIOD_SECS * NANOS_PER_SEC;
        let gone = registry.sweep(tick, config.timeout_secs);
        if tick <= 2 * NANOS_PER_SEC {
            assert_eq!(gone, vec![]);
        }
        evicted.extend(gone);
    }
    assert_eq!(evicted, vec![a]);
    assert!(!registry.contains(a));
    assert!(registry.contains(b));

    let action =
        send(&mut registry, &mut channel, config.buffer_size, b, b"ping", 3 * NANOS_PER_SEC + 1);
    assert_eq!(
        action,
        InboundAction::Continue(Arrival { source: b, presence: Presence::Updated, length: 4 })
    );
    assert_eq!(
        deliveries(&mut outbound, &mut channel, &registry),
        vec![(b, b"ping".to_vec())]
    );
}

#[test]
fn a_silent_sender_is_swept_before_its_own_payload_is_read() {
    let mut registry = ClientRegistry::new();
    let mut channel = BroadcastChannel::new(CHANNEL_CAPACITY);
    let mut outbound = Outbound::new();
    let a = Address::from_octets(127, 0, 0, 1, 40001);
    send(&mut registry, &mut channel, 1024, a, b"late", 0);
    assert_eq!(registry.sweep(NANOS_PER_SEC, 0), vec![a]);
    assert_eq!(
        outbound.step(OutboundEvent::Ready, &mut channel, &registry),
        OutboundAction::NoRecipients
    );
    assert_eq!(outbound.step(OutboundEvent::Ready, &mut channel, &registry), OutboundAction::Wait);
}

#[test]
fn a_datagram_longer_than_the_buffer_is_broadcast_cut() {
    let mut registry = ClientRegistry::new();
    let mut channel = BroadcastChannel::new(CHANNEL_CAPACITY);
    let mut outbound = Outbound::new();
    let a = Address::from_octets(127, 0, 0, 1, 40001);
    let action = send(&mut registry, &mut channel, 4, a, b"truncated", 0);
    assert_eq!(
        action,
        InboundAction::Continue(Arrival { source: a, presence: Presence::Connected, length: 4 })
    );
    assert_eq!(
        deliveries(&mut outbound, &mut channel, &registry),
        vec![(a, b"trun".to_vec())]
    );
}

#[test]
fn more_than_255_unread_datagrams_end_the_relay() {
    let mut registry = ClientRegistry::new();
    let mut channel = BroadcastChannel::new(CHANNEL_CAPACITY);
    let mut outbound = Outbound::new();
    let a = Address::from_octets(127, 0, 0, 1, 40001);
    for n in 0..256u64 {
        let action = send(&mut registry, &mut channel, 1024, a, b"flood", n);
        assert!(matches!(action, InboundAction::Continue(_)));
    }
    let action = outbound.step(OutboundEvent::Ready, &mut channel, &registry);
    assert_eq!(action, OutboundAction::Stop(Fatal::Lagged(1)));
    let phase = Phase::Starting.advance(LifecycleEvent::Bound);
    let phase = match action {
        OutboundAction::Stop(fatal) => phase.advance(LifecycleEvent::LoopEnded(fatal)),
        _ => phase,
    };
    assert_eq!(phase.outcome(), Some(Outcome::Failed(Fatal::Lagged(1))));
}

#[test]
fn exactly_255_unread_datagrams_are_all_delivered() {
    let mut registry = ClientRegistry::new();
    let mut channel = BroadcastChannel::new(CHANNEL_CAPACITY);
    let mut outbound = Outbound::new();
    let a = Address::from_octets(127, 0, 0, 1, 40001);
    for n in 0..255u64 {
        send(&mut registry, &mut channel, 1024, a, &n.to_be_bytes(), n);
    }
    let delivered = deliveries(&mut outbound, &mut channel, &registry);
    assert_eq!(delivered.len(), 255);
    for (n, (target, payload)) in delivered.iter().enumerate() {
        assert_eq!(*target, a);
        assert_eq!(payload, &(n as u64).to_be_bytes().to_vec());
    }
}
