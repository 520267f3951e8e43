//! Big-endian encoding of block heights, as stored under the `height` key of
//! the filters column family.

use byteorder::{BigEndian, ByteOrder};
use vstd::prelude::*;

verus! {

/// The four big-endian bytes of `n`, most significant first.
pub open spec fn be_bytes(n: u32) -> Seq<u8> {
    seq![
        (n / 0x1000000) as u8,
        ((n / 0x10000) % 0x100) as u8,
        ((n / 0x100) % 0x100) as u8,
        (n % 0x100) as u8,
    ]
}

/// The number that the first four bytes of `b` spell in big-endian order.
pub open spec fn be_value(b: Seq<u8>) -> int {
    b[0] * 0x1000000 + b[1] * 0x10000 + b[2] * 0x100 + b[3]
}

/// `BigEndian::write_u32` of byteorder: it stores `n.to_be_bytes()` into the
/// first four bytes of the buffer, which here has exactly four.
#[verifier::external_body]
fn write_u32_be(buf: &mut [u8; 4], n: u32)
    ensures
        final(buf)@ == be_bytes(n),
{
    BigEndian::write_u32(buf, n)
}

/// `BigEndian::read_u32` of byteorder: `u32::from_be_bytes` of the first four
/// bytes; it panics on a buffer shorter than four bytes, which `requires` rules out.
#[verifier::external_body]
fn read_u32_be(buf: &[u8]) -> (res: u32)
    requires
        buf@.len() >= 4,
    ensures
        res == be_value(buf@),
{
    BigEndian::read_u32(buf)
}

/// The value stored under the `height` key for filters height `h`.
pub fn height_value(h: u32) -> (res: [u8; 4])
    ensures
        res@ == be_bytes(h),
{
    let mut buf: [u8; 4] = [0u8; 4];
    write_u32_be(&mut buf, h);
    buf
}

/// The filters height that a stored `height` entry denotes: zero when the
/// entry is absent, else the big-endian number in its first four bytes.
pub open spec fn stored_height(stored: Option<Seq<u8>>) -> int {
    match stored {
        None => 0,
        Some(b) => be_value(b),
    }
}

/// A stored `height` entry can be decoded: absent, or at least four bytes long.
pub open spec fn stored_height_readable(stored: Option<Seq<u8>>) -> bool {
    match stored {
        None => true,
        Some(b) => b.len() >= 4,
    }
}

/// The view of an optional byte vector.
pub open spec fn opt_bytes(o: Option<Vec<u8>>) -> Option<Seq<u8>> {
    match o {
        None => None,
        Some(v) => Some(v@),
    }
}

/// Decodes the filters height from what the filters column family holds
/// under its `height` key; no entry means that no filter was stored yet.
pub fn filters_height_from_stored(stored: &Option<Vec<u8>>) -> (res: u32)
    requires
        stored_height_readable(opt_bytes(*stored)),
    ensures
        res == stored_height(opt_bytes(*stored)),
{
    match stored {
        None => 0,
        Some(bs) => read_u32_be(bs.as_slice()),
    }
}

/// Reading back the stored encoding of a height gives that height.
pub proof fn lemma_height_roundtrip(h: u32)
    ensures
        be_bytes(h).len() == 4,
        be_value(be_bytes(h)) == h,
        stored_height(Some(be_bytes(h))) == h,
{
    let b = be_bytes(h);
    assert(b[0] == h / 0x1000000);
    assert(b[1] == (h / 0x10000) % 0x100);
    assert(b[2] == (h / 0x100) % 0x100);
    assert(b[3] == h % 0x100);
}

} // verus!
