use vstd::prelude::*;

verus! {

/// Violations of the wire protocol by a peer.
#[derive(Debug, Clone, Copy, PartialEq, Eq, Structural)]
pub enum ProtocolError {
    /// A message carries more items than the protocol allows.
    MessageTooLarge,
    /// A header list does not link up, or does not connect to the local chain.
    DisconnectedHeaders,
    /// A block arrived that was not requested from this peer.
    UnsolicitedBlock,
    /// The peer asked for a block that is not on the local best chain.
    UnknownBlockRequested,
    /// A requested block did not arrive in time.
    Stalling,
}

/// Ban score of each protocol violation.
pub open spec fn protocol_ban_score(e: ProtocolError) -> u32 {
    match e {
        ProtocolError::MessageTooLarge => 20,
        ProtocolError::DisconnectedHeaders => 20,
        ProtocolError::UnsolicitedBlock => 20,
        ProtocolError::UnknownBlockRequested => 20,
        ProtocolError::Stalling => 0,
    }
}

impl ProtocolError {
    pub fn ban_score(&self) -> (r: u32)
        ensures
            r == protocol_ban_score(*self),
    {
        match self {
            ProtocolError::MessageTooLarge => 20,
            ProtocolError::DisconnectedHeaders => 20,
            ProtocolError::UnsolicitedBlock => 20,
            ProtocolError::UnknownBlockRequested => 20,
            ProtocolError::Stalling => 0,
        }
    }

    /// A stalled peer is disconnected rather than scored.
    pub fn disconnects(&self) -> (r: bool)
        ensures
            r == (*self == ProtocolError::Stalling),
    {
        match self {
            ProtocolError::Stalling => true,
            _ => false,
        }
    }
}

/// Something a peer did wrong, as reported to the peer manager.
#[derive(Debug, Clone, Copy, PartialEq, Eq, Structural)]
pub enum Misbehavior {
    Protocol(ProtocolError),
    /// Chainstate refused a header or block; the score is chainstate's own.
    Chainstate(u32),
}

impl Misbehavior {
    pub open spec fn score(self) -> u32 {
        match self {
            Misbehavior::Protocol(e) => protocol_ban_score(e),
            Misbehavior::Chainstate(s) => s,
        }
    }

    pub fn ban_score(&self) -> (r: u32)
        ensures
            r == self.score(),
    {
        match self {
            Misbehavior::Protocol(e) => e.ban_score(),
            Misbehavior::Chainstate(s) => *s,
        }
    }
}

/// How a task of the sync core ended.
#[derive(Debug, Clone, Copy, PartialEq, Eq, Structural)]
pub enum TaskExit {
    /// It stopped because the node is shutting down.
    Clean,
    /// It stopped on an error that must be surfaced.
    Failed,
}

/// A closed channel is a clean stop while the shutdown flag is set, and a failure otherwise;
/// any other error is a failure.
pub fn classify_exit(channel_closed: bool, shutdown_flag: bool) -> (r: TaskExit)
    ensures
        r == (if channel_closed && shutdown_flag {
            TaskExit::Clean
        } else {
            TaskExit::Failed
        }),
{
    if channel_closed && shutdown_flag {
        TaskExit::Clean
    } else {
        TaskExit::Failed
    }
}

} // verus!
