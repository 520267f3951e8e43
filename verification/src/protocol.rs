//! The parts of the ergvein wire protocol that the indexer's decisions read
//! and write: versions, currencies, the version message of the handshake,
//! and the filters request and response.

use vstd::prelude::*;

verus! {

/// Amount of seconds a connection stays open after the handshake.
pub const CONNECTION_DROP_TIMEOUT: u64 = 1200;

/// Limit to the amount of filters that one request can obtain.
pub const MAX_FILTERS_REQ: u32 = 2000;

/// A protocol version.
#[derive(Clone, Copy, Debug, PartialEq, Eq, Structural)]
pub struct Version {
    pub major: u32,
    pub minor: u32,
    pub patch: u32,
}

/// A currency of the protocol: Bitcoin, or another one by its protocol code.
#[derive(Clone, Copy, Debug, PartialEq, Eq, Structural)]
pub enum Currency {
    Btc,
    Other(u32),
}

/// What the indexer tells about its scan of one currency.
#[derive(Clone, Copy, Debug)]
pub struct ScanBlock {
    pub currency: Currency,
    pub version: Version,
    /// Height up to which filters are available.
    pub scan_height: u64,
    /// Height of the chain as the indexer knows it.
    pub height: u64,
}

/// The version message that opens the handshake.
pub struct VersionMessage {
    pub version: Version,
    /// Standard UNIX timestamp in seconds.
    pub time: u64,
    /// Random nonce, generated anew for every version message; a peer that
    /// answers with the same nonce is this node itself.
    pub nonce: [u8; 8],
    pub scan_blocks: Vec<ScanBlock>,
}

/// A request for the filters of `amount` consecutive blocks from `start`.
#[derive(Clone, Copy, Debug)]
pub struct GetFiltersRequest {
    pub currency: Currency,
    pub start: u64,
    pub amount: u32,
}

/// The filter of one block.
pub struct Filter {
    pub block_id: Vec<u8>,
    pub filter: Vec<u8>,
}

/// The answer to a filters request.
pub struct FiltersResponse {
    pub currency: Currency,
    pub filters: Vec<Filter>,
}

/// Why serving a client stopped.
#[derive(Clone, Copy, Debug, PartialEq, Eq, Structural)]
pub enum IndexerError {
    HandshakeSendError,
    HandshakeTimeout,
    HandshakeRecv,
    HandshakeViolation,
    HandshakeNonceIdentical,
    NotCompatible(Version),
    NotSupportedCurrency(Currency),
}

} // verus!
