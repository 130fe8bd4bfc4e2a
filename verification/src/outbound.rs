//! The outbound loop: what the relay does with each payload it reads from
//! the medium. A payload goes to every address registered at the moment it is
//! read, one send after the other, and the next payload is not read before
//! the last of those sends.

use vstd::prelude::*;
use crate::address::Address;
use crate::channel::{BroadcastChannel, ChannelRead, ChannelState, Reading};
use crate::failure::Fatal;
use crate::registry::{is_snapshot, lemma_snapshot_lists_each_once, ClientRegistry};

verus! {

/// What the outbound loop is woken with.
#[derive(Clone, Copy, Debug, PartialEq, Eq, Structural)]
pub enum OutboundEvent {
    /// The last action is done: the send went out, or the wait is over.
    Ready,
    /// The socket reported an error on the send to this address.
    SendFailed(Address),
}

/// What the outbound loop does next.
#[derive(Clone, Copy, Debug, PartialEq, Eq, Structural)]
pub enum OutboundAction {
    /// Nothing is pending: suspend until something is published.
    Wait,
    /// Send the payload of the round to this address.
    Send(Address),
    /// A payload was read while no address was registered: it goes nowhere.
    NoRecipients,
    /// The loop ends.
    Stop(Fatal),
}

/// A round of delivery as a mathematical value.
pub struct RoundState {
    /// The payload of the round.
    pub payload: Seq<u8>,
    /// The addresses the payload has yet to be sent to, next first.
    pub remaining: Seq<Address>,
}

/// The outbound loop's state: the payload being delivered and the addresses
/// it has yet to go to.
pub struct Outbound {
    payload: Vec<u8>,
    targets: Vec<Address>,
    cursor: usize,
}

impl View for Outbound {
    type V = RoundState;

    closed spec fn view(&self) -> RoundState {
        RoundState { payload: self.payload@, remaining: self.targets@.skip(self.cursor as int) }
    }
}

impl Outbound {
    #[verifier::type_invariant]
    spec fn cursor_in_range(self) -> bool {
        self.cursor <= self.targets@.len()
    }

    /// A loop that has delivered nothing yet.
    pub fn new() -> (outbound: Outbound)
        ensures
            outbound@.payload == Seq::<u8>::empty(),
            outbound@.remaining == Seq::<Address>::empty(),
    {
        let outbound = Outbound { payload: Vec::new(), targets: Vec::new(), cursor: 0 };
        assert(outbound@.remaining =~= Seq::<Address>::empty());
        outbound
    }

    /// The payload of the round.
    pub fn payload(&self) -> (payload: &Vec<u8>)
        ensures
            payload@ == self@.payload,
    {
        &self.payload
    }

    /// How many sends the round still owes.
    pub fn pending_sends(&self) -> (count: usize)
        ensures
            count == self@.remaining.len(),
    {
        proof {
            use_type_invariant(self);
        }
        self.targets.len() - self.cursor
    }

    /// One turn of the outbound loop.
    ///
    /// A failed send ends the loop at once, whatever is left of the round.
    /// Otherwise, while the round owes sends, the next one is due and the
    /// medium is left alone. Once the round is through, the medium is read: a
    /// lag or a closed medium ends the loop, an empty one suspends it, and a
    /// payload starts a round to the addresses registered at this moment.
    pub fn step(
        &mut self,
        event: OutboundEvent,
        channel: &mut BroadcastChannel,
        registry: &ClientRegistry,
    ) -> (action: OutboundAction)
        ensures
            match event {
                OutboundEvent::SendFailed(target) => {
                    &&& action == OutboundAction::Stop(Fatal::SendFailed(target))
                    &&& final(self)@ == old(self)@
                    &&& final(channel)@ == old(channel)@
                },
                OutboundEvent::Ready => if old(self)@.remaining.len() > 0 {
                    &&& action == OutboundAction::Send(old(self)@.remaining[0])
                    &&& final(self)@.payload == old(self)@.payload
                    &&& final(self)@.remaining == old(self)@.remaining.drop_first()
                    &&& final(channel)@ == old(channel)@
                } else {
                    &&& final(channel)@ == old(channel)@.after_read()
                    &&& match old(channel)@.reading() {
                        Reading::Lagged(missed) => {
                            &&& action == OutboundAction::Stop(Fatal::Lagged(missed as u64))
                            &&& final(self)@ == old(self)@
                        },
                        Reading::Closed => {
                            &&& action == OutboundAction::Stop(Fatal::ChannelClosed)
                            &&& final(self)@ == old(self)@
                        },
                        Reading::Empty => {
                            &&& action == OutboundAction::Wait
                            &&& final(self)@ == old(self)@
                        },
                        Reading::Payload(payload) => {
                            &&& final(self)@.payload == payload
                            &&& match action {
                                OutboundAction::Send(first) => is_snapshot(
                                    seq![first] + final(self)@.remaining,
                                    registry@,
                                ),
                                OutboundAction::NoRecipients => {
                                    &&& registry@ == Map::<Address, u64>::empty()
                                    &&& final(self)@.remaining == Seq::<Address>::empty()
                                },
                                _ => false,
                            }
                        },
                    }
                },
            },
    {
        proof {
            use_type_invariant(&*self);
        }
        match event {
            OutboundEvent::SendFailed(target) => OutboundAction::Stop(Fatal::SendFailed(target)),
            OutboundEvent::Ready => {
                if self.cursor < self.targets.len() {
                    let target = self.targets[self.cursor];
                    assert(self.targets@.skip(self.cursor + 1) =~= self.targets@.skip(
                        self.cursor as int,
                    ).drop_first());
                    self.cursor = self.cursor + 1;
                    return OutboundAction::Send(target);
                }
                match channel.consume() {
                    ChannelRead::Lagged(missed) => OutboundAction::Stop(Fatal::Lagged(missed)),
                    ChannelRead::Closed => OutboundAction::Stop(Fatal::ChannelClosed),
                    ChannelRead::Empty => OutboundAction::Wait,
                    ChannelRead::Payload(payload) => {
                        let targets = registry.snapshot();
                        self.cursor = 0;
                        self.payload = payload;
                        if targets.len() == 0 {
                            proof {
                                assert(registry@.dom() =~= Set::<Address>::empty());
                                assert(registry@ =~= Map::<Address, u64>::empty());
                                assert(targets@.skip(0) =~= Seq::<Address>::empty());
                            }
                            self.targets = targets;
                            OutboundAction::NoRecipients
                        } else {
                            let first = targets[0];
                            assert(seq![first] + targets@.skip(1) =~= targets@);
                            self.targets = targets;
                            self.cursor = 1;
                            OutboundAction::Send(first)
                        }
                    },
                }
            },
        }
    }
}

/// A datagram reaches every registered address exactly once, its own sender
/// among them. Once `source` has been registered and `payload` published,
/// the payload is pending behind what was pending before; with nothing else
/// to read it is what the next read yields. A round to the addresses
/// registered at that moment sends to `source` once, to every other
/// registered address once, and to no address that is not registered.
pub proof fn lemma_datagram_reaches_each_client_once(
    clients: Map<Address, u64>,
    channel: ChannelState,
    source: Address,
    payload: Seq<u8>,
    now: u64,
    round: Seq<Address>,
    address: Address,
)
    requires
        is_snapshot(round, clients.insert(source, now)),
    ensures
        !channel.closed && channel.pending.len() < channel.capacity ==> channel.published(
            payload,
        ).pending == channel.pending.push(payload),
        !channel.closed && channel.pending.len() == 0 && channel.missed == 0 && channel.capacity
            > 0 ==> channel.published(payload).reading() == Reading::Payload(payload),
        round.to_multiset().count(source) == 1,
        round.to_multiset().count(address) == if address == source || clients.contains_key(
            address,
        ) {
            1nat
        } else {
            0nat
        },
{
    lemma_snapshot_lists_each_once(round, clients.insert(source, now), source);
    lemma_snapshot_lists_each_once(round, clients.insert(source, now), address);
}

} // verus!
