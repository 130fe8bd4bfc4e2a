//! The conditions that end the relay.

use vstd::prelude::*;
use crate::address::Address;

verus! {

/// A condition that no loop recovers from: whichever loop meets one stops,
/// and the relay ends with it.
#[derive(Clone, Copy, Debug, PartialEq, Eq, Structural)]
pub enum Fatal {
    /// The socket could not be bound.
    BindFailed,
    /// The socket reported an error on receive.
    ReceiveFailed,
    /// A payload could not be published: the medium had been torn down.
    PublishFailed,
    /// The socket reported an error on a send to this address.
    SendFailed(Address),
    /// The consumer fell behind and this many payloads were given up.
    Lagged(u64),
    /// The medium was torn down and nothing is left to deliver.
    ChannelClosed,
    /// The interrupt listener could not be set up.
    SignalFailed,
}

} // verus!
