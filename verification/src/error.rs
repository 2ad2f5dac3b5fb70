//! The errors of the cache and of the bus.

use vstd::prelude::*;

use crate::wire::WireError;

verus! {

/// Which of the tiers below memory failed.
#[derive(Clone, Copy, Debug, PartialEq, Eq, Structural)]
pub enum Tier {
    /// The local durable store of this instance.
    Disk,
    /// The store that the fleet shares.
    Durable,
}

/// An error of the cache or of the bus.
#[derive(Clone, Copy, Debug, PartialEq, Eq, Structural)]
pub enum LayerDbError {
    /// An activity that had to be a rebase request is of another kind.
    ActivityRebase,
    /// The channel that an activity had to be forwarded on is closed.
    ActivitySend,
    /// The bytes of a message or of a stored value are malformed.
    Decode(WireError),
    /// The bus could not be reached, or refused the message.
    NatsPublish,
    /// The bus did not acknowledge the message.
    NatsPublishAck,
    /// A tier could not be read.
    TierRead(Tier),
    /// A tier could not be written.
    TierWrite(Tier),
}

pub type LayerDbResult<T> = Result<T, LayerDbError>;

} // verus!
