//! The coin record kept for every unspent output while filters are built:
//! only its locking script, stored in Bitcoin's consensus encoding.

use vstd::prelude::*;

verus! {

/// The largest vector that Bitcoin's consensus decoding accepts.
pub const MAX_VEC_SIZE: usize = 4_000_000;

/// `256` to the power `k`.
pub open spec fn pow256(k: nat) -> nat
    decreases k,
{
    if k == 0 {
        1
    } else {
        256 * pow256((k - 1) as nat)
    }
}

/// The `k` little-endian bytes of `n` (taken modulo `256^k`).
pub open spec fn le_bytes(n: nat, k: nat) -> Seq<u8>
    decreases k,
{
    if k == 0 {
        Seq::empty()
    } else {
        seq![(n % 256) as u8] + le_bytes(n / 256, (k - 1) as nat)
    }
}

/// The number that `b` spells in little-endian order.
pub open spec fn le_value(b: Seq<u8>) -> nat
    decreases b.len(),
{
    if b.len() == 0 {
        0
    } else {
        b[0] as nat + 256 * le_value(b.drop_first())
    }
}

/// Bitcoin's variable-length integer ("compact size") encoding of `n`.
pub open spec fn compact_size(n: nat) -> Seq<u8> {
    if n <= 0xFC {
        seq![n as u8]
    } else if n <= 0xFFFF {
        seq![0xFDu8] + le_bytes(n, 2)
    } else if n <= 0xFFFF_FFFF {
        seq![0xFEu8] + le_bytes(n, 4)
    } else {
        seq![0xFFu8] + le_bytes(n, 8)
    }
}

/// Decoding a compact size at the start of `d`: the value and the number of
/// bytes it takes, or `None` where `d` is too short or the encoding is not
/// the shortest one for its value.
pub open spec fn parse_compact_size(d: Seq<u8>) -> Option<(nat, nat)> {
    if d.len() < 1 {
        None
    } else if d[0] == 0xFF {
        if d.len() < 9 {
            None
        } else if le_value(d.subrange(1, 9)) < 0x1_0000_0000 {
            None
        } else {
            Some((le_value(d.subrange(1, 9)), 9))
        }
    } else if d[0] == 0xFE {
        if d.len() < 5 {
            None
        } else if le_value(d.subrange(1, 5)) < 0x10000 {
            None
        } else {
            Some((le_value(d.subrange(1, 5)), 5))
        }
    } else if d[0] == 0xFD {
        if d.len() < 3 {
            None
        } else if le_value(d.subrange(1, 3)) < 0xFD {
            None
        } else {
            Some((le_value(d.subrange(1, 3)), 3))
        }
    } else {
        Some((d[0] as nat, 1))
    }
}

/// Decoding a script at the start of `d`: a compact-size length (read as a
/// `usize`), at most `MAX_VEC_SIZE`, then that many bytes. The result is the
/// script and the number of bytes consumed.
pub open spec fn parse_script(d: Seq<u8>) -> Option<(Seq<u8>, nat)> {
    match parse_compact_size(d) {
        None => None,
        Some((x, k)) => {
            let len = ((x as u64) as usize) as nat;
            if len > MAX_VEC_SIZE || d.len() < k + len {
                None
            } else {
                Some((d.subrange(k as int, (k + len) as int), k + len))
            }
        },
    }
}

/// The consensus encoding of a script: its length as a compact size, then its bytes.
pub open spec fn script_encoding(script: Seq<u8>) -> Seq<u8> {
    compact_size(script.len()) + script
}

/// Little-endian bytes read back give the number they were written from.
proof fn lemma_le_roundtrip(n: nat, k: nat)
    requires
        n < pow256(k),
    ensures
        le_bytes(n, k).len() == k,
        le_value(le_bytes(n, k)) == n,
    decreases k,
{
    if k > 0 {
        let p = pow256((k - 1) as nat);
        assert(n / 256 < p) by (nonlinear_arith)
            requires
                n < 256 * p,
        ;
        lemma_le_roundtrip(n / 256, (k - 1) as nat);
        let b = le_bytes(n, k);
        assert(b.drop_first() =~= le_bytes(n / 256, (k - 1) as nat));
        assert(b[0] as nat == n % 256);
        assert(n == n % 256 + 256 * (n / 256)) by (nonlinear_arith);
    }
}

/// A compact size followed by anything decodes to the value it encodes.
proof fn lemma_compact_size_roundtrip(n: nat, rest: Seq<u8>)
    requires
        n <= u64::MAX,
    ensures
        parse_compact_size(compact_size(n) + rest) == Some((n, compact_size(n).len())),
{
    let d = compact_size(n) + rest;
    assert(pow256(2) == 0x10000) by {
        reveal_with_fuel(pow256, 3);
    }
    assert(pow256(4) == 0x1_0000_0000) by {
        reveal_with_fuel(pow256, 5);
    }
    assert(pow256(8) == 0x1_0000_0000_0000_0000) by {
        reveal_with_fuel(pow256, 9);
    }
    if n <= 0xFC {
        assert(d[0] == n as u8);
    } else if n <= 0xFFFF {
        lemma_le_roundtrip(n, 2);
        assert(d.subrange(1, 3) =~= le_bytes(n, 2));
    } else if n <= 0xFFFF_FFFF {
        lemma_le_roundtrip(n, 4);
        assert(d.subrange(1, 5) =~= le_bytes(n, 4));
    } else {
        lemma_le_roundtrip(n, 8);
        assert(d.subrange(1, 9) =~= le_bytes(n, 8));
    }
}

/// Decoding a stored coin gives back the coin that was encoded, whatever
/// follows it, for every script no longer than `MAX_VEC_SIZE`.
pub proof fn lemma_coin_roundtrip(script: Seq<u8>, rest: Seq<u8>)
    requires
        script.len() <= MAX_VEC_SIZE,
    ensures
        parse_script(script_encoding(script) + rest) == Some((script, script_encoding(script).len())),
{
    let n = script.len();
    lemma_compact_size_roundtrip(n, script + rest);
    assert(script_encoding(script) + rest =~= compact_size(n) + (script + rest));
    let k = compact_size(n).len();
    let d = script_encoding(script) + rest;
    assert(d.subrange(k as int, (k + n) as int) =~= script);
}

#[verifier::external_type_specification]
#[verifier::external_body]
pub struct ExEncodeError(bitcoin::consensus::encode::Error);

/// `bitcoin::consensus::encode::serialize` of a `Script` built from the
/// bytes: the compact-size length followed by the bytes.
#[verifier::external_body]
fn serialize_script(script: &Vec<u8>) -> (res: Vec<u8>)
    ensures
        res@ == script_encoding(script@),
{
    bitcoin::consensus::encode::serialize(&bitcoin::Script::from(script.clone()))
}

/// `bitcoin::consensus::encode::deserialize_partial::<Script>`: decodes a
/// script at the start of `data` and reports how many bytes it consumed; it
/// fails exactly where the compact-size length is truncated or not minimal,
/// exceeds `MAX_VEC_SIZE`, or announces more bytes than `data` holds.
#[verifier::external_body]
fn deserialize_partial_script(data: &[u8]) -> (res: Result<(Vec<u8>, usize), bitcoin::consensus::encode::Error>)
    ensures
        match parse_script(data@) {
            None => res is Err,
            Some((s, n)) => res matches Ok((v, m)) && v@ == s && m == n,
        },
{
    match bitcoin::consensus::encode::deserialize_partial::<bitcoin::Script>(data) {
        Ok((script, consumed)) => Ok((script.into_bytes(), consumed)),
        Err(e) => Err(e),
    }
}

/// Why a stored coin could not be decoded.
pub enum CoinDecodeError {
    /// The consensus decoding of the script failed.
    Consensus(bitcoin::consensus::encode::Error),
}

/// The state kept for an unspent output: its locking script.
pub struct FilterCoin {
    pub script: Vec<u8>,
}

/// The locking script of a coin.
pub fn coin_script(fc: &FilterCoin) -> (res: Vec<u8>)
    ensures
        res@ == fc.script@,
{
    fc.script.clone()
}

impl FilterCoin {
    /// The coin for output `vout` of a transaction whose outputs have the
    /// given locking scripts.
    pub fn new_utxo(output_scripts: &Vec<Vec<u8>>, vout: u32) -> (res: FilterCoin)
        requires
            vout < output_scripts@.len(),
        ensures
            res.script@ == output_scripts@[vout as int]@,
    {
        FilterCoin { script: output_scripts[vout as usize].clone() }
    }

    /// The consensus encoding of the coin: that of its script.
    pub fn consensus_encode(&self) -> (res: Vec<u8>)
        ensures
            res@ == script_encoding(self.script@),
    {
        serialize_script(&self.script)
    }

    /// Decodes a coin at the start of `data`, with the number of bytes it
    /// took; fails exactly where the script's consensus decoding fails.
    pub fn consensus_decode(data: &[u8]) -> (res: Result<(FilterCoin, usize), CoinDecodeError>)
        ensures
            match parse_script(data@) {
                None => res is Err,
                Some((s, n)) => res matches Ok((c, m)) && c.script@ == s && m == n,
            },
    {
        match deserialize_partial_script(data) {
            Ok((script, consumed)) => Ok((FilterCoin { script }, consumed)),
            Err(e) => Err(CoinDecodeError::Consensus(e)),
        }
    }
}

} // verus!
