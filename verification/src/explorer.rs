//! The public block explorer that tells the height of the Bitcoin chain, and
//! the check of how far the indexer's scan lags behind it.

use vstd::prelude::*;

verus! {

/// Greatest lag, in blocks, of the scanned height behind the explorer's
/// height that the sync tolerates.
pub const MAX_DISCREPANCY: i64 = 4;

/// The explorer's base address for the main network or for the test network.
pub open spec fn explorer_base(is_testnet: bool) -> Seq<char> {
    if is_testnet {
        "https://blockstream.info/testnet/"@
    } else {
        "https://blockstream.info/"@
    }
}

/// The path of the explorer's chain tip height.
pub open spec fn actual_height_path() -> Seq<char> {
    "api/blocks/tip/height"@
}

/// The address of `relative_url` at the explorer of the chosen network.
pub fn explorer_url(is_testnet: bool, relative_url: &str) -> (res: String)
    ensures
        res@ == explorer_base(is_testnet) + relative_url@,
{
    let base: &str = if is_testnet {
        "https://blockstream.info/testnet/"
    } else {
        "https://blockstream.info/"
    };
    let mut url = String::from_str(base);
    url.append(relative_url);
    url
}

/// The address that gives the height of the chain tip.
pub fn actual_height_url(is_testnet: bool) -> (res: String)
    ensures
        res@ == explorer_base(is_testnet) + actual_height_path(),
{
    explorer_url(is_testnet, "api/blocks/tip/height")
}

/// Whether the scanned height lags more than `MAX_DISCREPANCY` blocks
/// behind the explorer's height, which ends the watch and restarts the sync.
pub fn discrepancy_exceeded(actual_height: i64, scanned_height: u32) -> (res: bool)
    requires
        actual_height - scanned_height >= i64::MIN,
    ensures
        res == (actual_height - scanned_height > MAX_DISCREPANCY),
{
    actual_height - (scanned_height as i64) > MAX_DISCREPANCY
}

} // verus!
