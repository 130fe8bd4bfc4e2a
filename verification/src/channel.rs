//! The broadcast medium: a bounded queue of payloads between the loop that
//! captures datagrams and the loop that delivers them. A consumer that falls
//! behind by more than the capacity is told so on its next read; nothing is
//! skipped in silence.

use std::collections::VecDeque;
use vstd::prelude::*;

verus! {

/// How many payloads the relay's medium holds before the oldest is given up.
pub const CHANNEL_CAPACITY: usize = 255;

/// What a read of the medium yields, as a mathematical value.
pub enum Reading {
    /// The oldest pending payload.
    Payload(Seq<u8>),
    /// Nothing is pending and more may come.
    Empty,
    /// So many payloads were given up before the consumer read them.
    Lagged(nat),
    /// Nothing is pending and nothing more will come.
    Closed,
}

/// The medium as a mathematical value.
pub struct ChannelState {
    /// The most payloads that can be pending.
    pub capacity: nat,
    /// The pending payloads, oldest first.
    pub pending: Seq<Seq<u8>>,
    /// How many payloads were given up since the consumer was last told.
    pub missed: nat,
    /// Whether the medium has been torn down.
    pub closed: bool,
}

impl ChannelState {
    /// An open medium with nothing pending and nothing missed.
    pub open spec fn fresh(capacity: nat) -> ChannelState {
        ChannelState { capacity, pending: Seq::empty(), missed: 0, closed: false }
    }

    /// The count of missed payloads after one more was given up. The count
    /// stops at `u64::MAX`.
    pub open spec fn one_more_missed(self) -> nat {
        if self.missed < u64::MAX {
            self.missed + 1
        } else {
            self.missed
        }
    }

    /// The medium after `payload` was published. A closed medium takes
    /// nothing; a full one gives up its oldest payload to make room.
    pub open spec fn published(self, payload: Seq<u8>) -> ChannelState {
        if self.closed {
            self
        } else if self.pending.len() < self.capacity {
            ChannelState { pending: self.pending.push(payload), ..self }
        } else {
            ChannelState {
                pending: self.pending.push(payload).drop_first(),
                missed: self.one_more_missed(),
                ..self
            }
        }
    }

    /// The medium after each of `payloads` was published in turn.
    pub open spec fn published_all(self, payloads: Seq<Seq<u8>>) -> ChannelState
        decreases payloads.len(),
    {
        if payloads.len() == 0 {
            self
        } else {
            self.published_all(payloads.drop_last()).published(payloads.last())
        }
    }

    /// What the next read yields.
    pub open spec fn reading(self) -> Reading {
        if self.missed > 0 {
            Reading::Lagged(self.missed)
        } else if self.pending.len() > 0 {
            Reading::Payload(self.pending[0])
        } else if self.closed {
            Reading::Closed
        } else {
            Reading::Empty
        }
    }

    /// The medium after the next read.
    pub open spec fn after_read(self) -> ChannelState {
        if self.missed > 0 {
            ChannelState { missed: 0, ..self }
        } else if self.pending.len() > 0 {
            ChannelState { pending: self.pending.drop_first(), ..self }
        } else {
            self
        }
    }

    /// The medium after it was torn down.
    pub open spec fn shut(self) -> ChannelState {
        ChannelState { closed: true, ..self }
    }

    /// What holds of every medium: no more is pending than fits, and the
    /// count of missed payloads fits a `u64`.
    pub open spec fn well_formed(self) -> bool {
        &&& self.pending.len() <= self.capacity
        &&& self.missed <= u64::MAX
    }
}

/// By how much `total` payloads exceed `capacity`.
pub open spec fn excess(total: nat, capacity: nat) -> nat {
    if total > capacity {
        (total - capacity) as nat
    } else {
        0
    }
}

/// A count of missed payloads, which stops at `u64::MAX`.
pub open spec fn saturated(count: nat) -> nat {
    if count > u64::MAX {
        u64::MAX as nat
    } else {
        count
    }
}

/// Publishing `payloads` one after the other to an open medium keeps the
/// newest payloads that fit, in the order they were published, and counts
/// every older one as missed. Nothing is merged and nothing is reordered.
pub proof fn lemma_published_all(state: ChannelState, payloads: Seq<Seq<u8>>)
    requires
        state.well_formed(),
        !state.closed,
    ensures
        ({
            let over = excess(state.pending.len() + payloads.len(), state.capacity);
            let after = state.published_all(payloads);
            &&& after.well_formed()
            &&& after.capacity == state.capacity
            &&& !after.closed
            &&& after.pending == (state.pending + payloads).skip(over as int)
            &&& after.missed == saturated(state.missed + over)
        }),
    decreases payloads.len(),
{
    if payloads.len() == 0 {
        assert((state.pending + payloads).skip(0) =~= state.pending);
    } else {
        let earlier = payloads.drop_last();
        let newest = payloads.last();
        lemma_published_all(state, earlier);
        let before = state.published_all(earlier);
        let over_before = excess(state.pending.len() + earlier.len(), state.capacity);
        let over = excess(state.pending.len() + payloads.len(), state.capacity);
        let after = before.published(newest);
        assert(state.pending + payloads =~= (state.pending + earlier).push(newest));
        if before.pending.len() < before.capacity {
            assert(after.pending =~= (state.pending + payloads).skip(over as int));
        } else {
            assert(over == over_before + 1);
            assert(after.pending =~= (state.pending + payloads).skip(over as int));
        }
    }
}

/// Capacity boundary: once more payloads have been published to an open
/// medium than it holds, with no read in between, the next read reports a
/// lag. The count it reports is every payload that was given up, those
/// missed before included; on a fresh medium that is the number of payloads
/// past the capacity.
pub proof fn lemma_overflow_is_reported(state: ChannelState, payloads: Seq<Seq<u8>>)
    requires
        state.well_formed(),
        !state.closed,
        payloads.len() > state.capacity,
    ensures
        state.published_all(payloads).reading() == Reading::Lagged(
            saturated(
                state.missed + excess(state.pending.len() + payloads.len(), state.capacity),
            ),
        ),
        state == ChannelState::fresh(state.capacity) ==> state.published_all(payloads).reading()
            == Reading::Lagged(saturated((payloads.len() - state.capacity) as nat)),
{
    lemma_published_all(state, payloads);
}

/// While there is room an open medium gives nothing up: what is published
/// joins what was pending, in the order it was published, and the count of
/// missed payloads stays as it was.
pub proof fn lemma_within_capacity_nothing_is_missed(state: ChannelState, payloads: Seq<Seq<u8>>)
    requires
        state.well_formed(),
        !state.closed,
        state.pending.len() + payloads.len() <= state.capacity,
    ensures
        state.published_all(payloads).pending == state.pending + payloads,
        state.published_all(payloads).missed == state.missed,
{
    lemma_published_all(state, payloads);
    assert((state.pending + payloads).skip(0) =~= state.pending + payloads);
}

/// No deduplication: a payload published twice is pending twice, as the two
/// newest payloads of the medium, and so is read twice. Where there was room
/// for both, nothing else changes; on a medium with nothing else to read, the
/// next two reads yield the payload and the third finds the medium empty.
pub proof fn lemma_same_payload_is_read_twice(state: ChannelState, payload: Seq<u8>)
    requires
        state.well_formed(),
        !state.closed,
        state.capacity >= 2,
    ensures
        ({
            let twice = state.published(payload).published(payload);
            &&& twice.pending.len() >= 2
            &&& twice.pending[twice.pending.len() - 1] == payload
            &&& twice.pending[twice.pending.len() - 2] == payload
            &&& state.pending.len() + 2 <= state.capacity ==> {
                &&& twice.pending == state.pending.push(payload).push(payload)
                &&& twice.missed == state.missed
            }
            &&& state.missed == 0 && state.pending.len() == 0 ==> {
                &&& twice.reading() == Reading::Payload(payload)
                &&& twice.after_read().reading() == Reading::Payload(payload)
                &&& twice.after_read().after_read().reading() == Reading::Empty
            }
        }),
{
}

/// What a read of the medium yields.
#[derive(Debug, PartialEq, Eq)]
pub enum ChannelRead {
    /// The oldest pending payload.
    Payload(Vec<u8>),
    /// Nothing is pending and more may come.
    Empty,
    /// So many payloads were given up before the consumer read them.
    Lagged(u64),
    /// Nothing is pending and nothing more will come.
    Closed,
}

impl View for ChannelRead {
    type V = Reading;

    open spec fn view(&self) -> Reading {
        match *self {
            ChannelRead::Payload(payload) => Reading::Payload(payload@),
            ChannelRead::Empty => Reading::Empty,
            ChannelRead::Lagged(missed) => Reading::Lagged(missed as nat),
            ChannelRead::Closed => Reading::Closed,
        }
    }
}

/// The bytes of each payload of `queue`, oldest first.
pub open spec fn contents(queue: Seq<Vec<u8>>) -> Seq<Seq<u8>> {
    queue.map_values(|payload: Vec<u8>| payload@)
}

/// The broadcast medium between one producer and one consumer.
pub struct BroadcastChannel {
    capacity: usize,
    pending: VecDeque<Vec<u8>>,
    missed: u64,
    closed: bool,
}

impl View for BroadcastChannel {
    type V = ChannelState;

    closed spec fn view(&self) -> ChannelState {
        ChannelState {
            capacity: self.capacity as nat,
            pending: contents(self.pending@),
            missed: self.missed as nat,
            closed: self.closed,
        }
    }
}

impl BroadcastChannel {
    #[verifier::type_invariant]
    spec fn within_capacity(self) -> bool {
        self.pending@.len() <= self.capacity
    }

    /// An open medium that holds up to `capacity` payloads.
    pub fn new(capacity: usize) -> (channel: BroadcastChannel)
        ensures
            channel@ == ChannelState::fresh(capacity as nat),
            channel@.well_formed(),
    {
        let channel = BroadcastChannel {
            capacity,
            pending: VecDeque::new(),
            missed: 0,
            closed: false,
        };
        assert(channel@.pending =~= Seq::<Seq<u8>>::empty());
        channel
    }

    /// Publishes `payload`. A closed medium hands it back; a full one gives
    /// up its oldest payload and counts it as missed.
    pub fn publish(&mut self, payload: Vec<u8>) -> (outcome: Result<(), Vec<u8>>)
        ensures
            final(self)@ == old(self)@.published(payload@),
            final(self)@.well_formed(),
            outcome is Err == old(self)@.closed,
            outcome matches Err(returned) ==> returned@ == payload@,
    {
        proof {
            use_type_invariant(&*self);
        }
        if self.closed {
            return Err(payload);
        }
        let mut pending: VecDeque<Vec<u8>> = VecDeque::new();
        std::mem::swap(&mut self.pending, &mut pending);
        let ghost before = pending@;
        if pending.len() < self.capacity {
            pending.push_back(payload);
            assert(contents(pending@) =~= contents(before).push(payload@));
        } else {
            let oldest = pending.pop_front();
            if oldest.is_some() {
                pending.push_back(payload);
            }
            if self.missed < u64::MAX {
                self.missed = self.missed + 1;
            }
            assert(contents(pending@) =~= contents(before).push(payload@).drop_first());
        }
        self.pending = pending;
        Ok(())
    }

    /// Reads the medium: a count of missed payloads first if there is one,
    /// else the oldest pending payload, else whether more may come.
    pub fn consume(&mut self) -> (read: ChannelRead)
        ensures
            read@ == old(self)@.reading(),
            final(self)@ == old(self)@.after_read(),
            final(self)@.well_formed(),
    {
        proof {
            use_type_invariant(&*self);
        }
        if self.missed > 0 {
            let missed = self.missed;
            self.missed = 0;
            return ChannelRead::Lagged(missed);
        }
        let mut pending: VecDeque<Vec<u8>> = VecDeque::new();
        std::mem::swap(&mut self.pending, &mut pending);
        let ghost before = pending@;
        let oldest = pending.pop_front();
        proof {
            if before.len() > 0 {
                assert(contents(pending@) =~= contents(before).drop_first());
            } else {
                assert(contents(pending@) =~= contents(before));
            }
        }
        self.pending = pending;
        match oldest {
            Some(payload) => ChannelRead::Payload(payload),
            None => if self.closed {
                ChannelRead::Closed
            } else {
                ChannelRead::Empty
            },
        }
    }

    /// Tears the medium down: nothing more is taken, and what is pending can
    /// still be read.
    pub fn close(&mut self)
        ensures
            final(self)@ == old(self)@.shut(),
            final(self)@.well_formed(),
    {
        proof {
            use_type_invariant(&*self);
        }
        self.closed = true;
    }

    /// The most payloads that can be pending.
    pub fn capacity(&self) -> (capacity: usize)
        ensures
            capacity == self@.capacity,
    {
        self.capacity
    }

    /// How many payloads are pending.
    pub fn len(&self) -> (count: usize)
        ensures
            count == self@.pending.len(),
            self@.well_formed(),
    {
        proof {
            use_type_invariant(self);
        }
        self.pending.len()
    }

    /// Whether nothing is pending.
    pub fn is_empty(&self) -> (empty: bool)
        ensures
            empty == (self@.pending.len() == 0),
    {
        self.pending.len() == 0
    }

    /// How many payloads were given up since the consumer was last told.
    pub fn missed(&self) -> (missed: u64)
        ensures
            missed == self@.missed,
    {
        self.missed
    }

    /// Whether the medium has been torn down.
    pub fn is_closed(&self) -> (closed: bool)
        ensures
            closed == self@.closed,
    {
        self.closed
    }
}

} // verus!
