use vstd::prelude::*;

verus! {

/// Protocol limits and timeouts that govern block synchronisation.
#[derive(Debug, Clone, Copy, PartialEq, Eq, Structural)]
pub struct SyncConfig {
    /// Largest number of blocks requested from one peer at a time.
    pub max_request_blocks_count: usize,
    /// Largest number of headers in one header list.
    pub msg_header_count_limit: usize,
    /// Largest number of ids in a locator, genesis not counted.
    pub msg_max_locator_count: usize,
    /// Largest number of transaction announcements queued for one peer.
    pub max_peer_tx_announcements: usize,
    /// How many lone unconnected headers a V1 peer may send before it is penalised.
    pub max_singular_unconnected_headers: u32,
    /// How long a requested block may take to arrive.
    pub sync_stalling_timeout: u64,
}

/// Largest header list the sync core accepts, whatever the configuration says.
pub const MAX_HEADER_LIST_LIMIT: usize = 4294967295;

impl SyncConfig {
    pub open spec fn wf(&self) -> bool {
        self.msg_header_count_limit <= MAX_HEADER_LIST_LIMIT
    }

    /// The limits used on the network by default.
    pub fn new() -> (r: SyncConfig)
        ensures
            r.wf(),
            r.max_request_blocks_count == 500,
            r.msg_header_count_limit == 2000,
            r.msg_max_locator_count == 100,
            r.max_peer_tx_announcements == 5000,
            r.max_singular_unconnected_headers == 10,
            r.sync_stalling_timeout == 25,
    {
        SyncConfig {
            max_request_blocks_count: 500,
            msg_header_count_limit: 2000,
            msg_max_locator_count: 100,
            max_peer_tx_announcements: 5000,
            max_singular_unconnected_headers: 10,
            sync_stalling_timeout: 25,
        }
    }
}

/// Settings of the peer-to-peer subsystem.
#[derive(Debug)]
pub struct P2pConfig {
    /// Address to bind P2P to.
    pub address: String,
    /// The score threshold after which a peer is banned.
    pub ban_threshold: u32,
    /// The timeout value in seconds.
    pub timeout: u64,
}

impl P2pConfig {
    /// The default settings.
    pub fn new() -> (r: P2pConfig)
        ensures
            r.address@ == "/ip6/::1/tcp/3031"@,
            r.ban_threshold == 100,
            r.timeout == 10,
    {
        P2pConfig { address: String::from_str("/ip6/::1/tcp/3031"), ban_threshold: 100, timeout: 10 }
    }
}

} // verus!
