//! The identity of a shard and the stages of its connection.

use vstd::prelude::*;

verus! {

/// The index of one shard within its fleet.
#[derive(Clone, Copy, Debug, PartialEq, Eq, Hash, Structural)]
pub struct ShardId(pub u32);

/// A shard together with the size of the fleet it was configured for.
///
/// The fleet size travels with the shard, so a retried boot uses the size the
/// shard was first asked to start with.
#[derive(Clone, Copy, Debug, PartialEq, Eq, Hash, Structural)]
pub struct ShardInfo {
    pub id: ShardId,
    pub total: u32,
}

impl ShardInfo {
    pub fn new(id: ShardId, total: u32) -> (info: Self)
        ensures
            info == (ShardInfo { id, total }),
    {
        ShardInfo { id, total }
    }
}

/// How far a shard has come in connecting to the gateway.
#[derive(Clone, Copy, Debug, PartialEq, Eq, Hash, Structural)]
pub enum ConnectionStage {
    /// The handshake is done and events are flowing.
    Connected,
    /// The socket is being opened.
    Connecting,
    /// No connection is open.
    Disconnected,
    /// The socket is open and the gateway's greeting is awaited.
    Handshake,
    /// The shard has sent its credentials and awaits the answer.
    Identifying,
    /// The shard has asked to take up an earlier session.
    Resuming,
}

} // verus!
