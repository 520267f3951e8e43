//! The cache of recommended Bitcoin fees, refreshed from a fee service.

use vstd::prelude::*;

verus! {

/// Recommended Bitcoin fees, in satoshi per byte.
#[derive(Clone, Copy, Debug)]
pub struct BtcFee {
    pub fastest_fee: u32,
    pub half_hour_fee: u32,
    pub hour_fee: u32,
}

/// The fees last obtained.
#[derive(Clone, Copy, Debug)]
pub struct FeesCache {
    pub btc: BtcFee,
}

impl Default for BtcFee {
    /// No fee known yet: all zero.
    fn default() -> (res: BtcFee)
        ensures
            res.fastest_fee == 0,
            res.half_hour_fee == 0,
            res.hour_fee == 0,
    {
        BtcFee { fastest_fee: 0, half_hour_fee: 0, hour_fee: 0 }
    }
}

impl Default for FeesCache {
    /// A cache that holds the default (all zero) Bitcoin fees.
    fn default() -> (res: FeesCache)
        ensures
            res.btc.fastest_fee == 0,
            res.btc.half_hour_fee == 0,
            res.btc.hour_fee == 0,
    {
        FeesCache { btc: BtcFee::default() }
    }
}

impl FeesCache {
    /// Takes the outcome of one request to the fee service: fees that were
    /// obtained replace the cached ones; a failed request leaves the cache
    /// as it was.
    pub fn apply_response(&mut self, response: Option<BtcFee>)
        ensures
            match response {
                Some(fee) => final(self).btc == fee,
                None => *final(self) == *old(self),
            },
    {
        match response {
            Some(fee) => {
                self.btc = fee;
            },
            None => {},
        }
    }
}

} // verus!
