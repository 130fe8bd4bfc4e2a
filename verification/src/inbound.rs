//! The inbound loop: what the relay does with each datagram it receives.

use vstd::prelude::*;
use crate::address::Address;
use crate::channel::BroadcastChannel;
use crate::failure::Fatal;
use crate::registry::ClientRegistry;

verus! {

/// What a receive on the socket came back with. The bytes of a datagram are
/// in the receive buffer, which is handed over beside the event.
#[derive(Clone, Copy, Debug, PartialEq, Eq, Structural)]
pub enum InboundEvent {
    /// A datagram from `source`, of which the transport reported `size`
    /// bytes.
    Datagram { source: Address, size: usize },
    /// The socket reported an error.
    ReceiveFailed,
}

/// Whether a datagram came from an address that was already registered.
#[derive(Clone, Copy, Debug, PartialEq, Eq, Structural)]
pub enum Presence {
    /// The address was absent before this datagram.
    Connected,
    /// The address was present and has been refreshed.
    Updated,
}

/// A datagram whose source has been registered: what there is to report of
/// it, whether or not its payload could then be published.
#[derive(Clone, Copy, Debug, PartialEq, Eq, Structural)]
pub struct Arrival {
    /// Where the datagram came from.
    pub source: Address,
    /// Whether the source was registered before.
    pub presence: Presence,
    /// How many bytes of the buffer make up its payload.
    pub length: usize,
}

/// What the inbound loop does next.
#[derive(Clone, Copy, Debug, PartialEq, Eq, Structural)]
pub enum InboundAction {
    /// The datagram was taken in: report it and receive again.
    Continue(Arrival),
    /// The loop ends on `fatal`. Where a datagram had arrived and its source
    /// was registered before the loop ended, `arrival` is that datagram:
    /// report it first.
    Stop { fatal: Fatal, arrival: Option<Arrival> },
}

/// The payload of a datagram of which `size` bytes were reported into
/// `buffer`: the first `size` bytes, or the whole buffer if it is shorter.
pub open spec fn captured(buffer: Seq<u8>, size: nat) -> Seq<u8> {
    if size <= buffer.len() {
        buffer.take(size as int)
    } else {
        buffer
    }
}

/// What `presence` a datagram from `source` has in `clients`.
pub open spec fn presence_of(clients: Map<Address, u64>, source: Address) -> Presence {
    if clients.contains_key(source) {
        Presence::Updated
    } else {
        Presence::Connected
    }
}

/// Copies the payload of a datagram out of the receive buffer.
pub fn capture(buffer: &[u8], size: usize) -> (payload: Vec<u8>)
    ensures
        payload@ == captured(buffer@, size as nat),
{
    let length: usize = if size <= buffer.len() {
        size
    } else {
        buffer.len()
    };
    let mut payload: Vec<u8> = Vec::new();
    let mut i: usize = 0;
    while i < length
        invariant
            0 <= i <= length <= buffer@.len(),
            payload@ == buffer@.take(i as int),
        decreases length - i,
    {
        payload.push(buffer[i]);
        assert(buffer@.take(i + 1) =~= buffer@.take(i as int).push(buffer@[i as int]));
        i += 1;
    }
    assert(buffer@.take(buffer@.len() as int) =~= buffer@);
    payload
}

/// The arrival of a datagram from `source` of which `size` bytes were
/// reported into `buffer`, on a registry that held `clients` before.
pub open spec fn arrival_of(
    clients: Map<Address, u64>,
    source: Address,
    buffer: Seq<u8>,
    size: nat,
) -> Arrival {
    Arrival {
        source,
        presence: presence_of(clients, source),
        length: captured(buffer, size).len() as usize,
    }
}

/// One turn of the inbound loop. A datagram registers its source as seen at
/// `now`, and only then is its payload published; a receive error, or a
/// medium that takes nothing any more, ends the loop. Every datagram is
/// reported with the presence of its source, also the one whose payload the
/// medium did not take.
pub fn on_inbound(
    registry: &mut ClientRegistry,
    channel: &mut BroadcastChannel,
    event: InboundEvent,
    buffer: &[u8],
    now: u64,
) -> (action: InboundAction)
    ensures
        match event {
            InboundEvent::ReceiveFailed => {
                &&& action == (InboundAction::Stop {
                    fatal: Fatal::ReceiveFailed,
                    arrival: None,
                })
                &&& final(registry)@ == old(registry)@
                &&& final(channel)@ == old(channel)@
            },
            InboundEvent::Datagram { source, size } => {
                let arrival = arrival_of(old(registry)@, source, buffer@, size as nat);
                &&& final(registry)@ == old(registry)@.insert(source, now)
                &&& final(registry)@.contains_key(source)
                &&& final(channel)@ == old(channel)@.published(captured(buffer@, size as nat))
                &&& action == if old(channel)@.closed {
                    InboundAction::Stop { fatal: Fatal::PublishFailed, arrival: Some(arrival) }
                } else {
                    InboundAction::Continue(arrival)
                }
            },
        },
{
    match event {
        InboundEvent::ReceiveFailed => InboundAction::Stop {
            fatal: Fatal::ReceiveFailed,
            arrival: None,
        },
        InboundEvent::Datagram { source, size } => {
            let is_new = registry.upsert(source, now);
            let presence = if is_new {
                Presence::Connected
            } else {
                Presence::Updated
            };
            let payload = capture(buffer, size);
            let arrival = Arrival { source, presence, length: payload.len() };
            match channel.publish(payload) {
                Ok(()) => InboundAction::Continue(arrival),
                Err(_) => InboundAction::Stop {
                    fatal: Fatal::PublishFailed,
                    arrival: Some(arrival),
                },
            }
        },
    }
}

} // verus!
