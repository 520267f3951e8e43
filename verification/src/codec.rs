//! Framing of protocol messages over a byte stream: a message is decoded
//! from the front of the receive buffer once all of its bytes arrived, and
//! an encoded message is appended to the send buffer.

use bytes::BytesMut;
use vstd::prelude::*;

verus! {

#[verifier::external_type_specification]
#[verifier::external_body]
pub struct ExBytesMut(bytes::BytesMut);

/// The bytes a `BytesMut` buffer holds.
pub uninterp spec fn buffer_bytes(b: BytesMut) -> Seq<u8>;

/// `BytesMut::is_empty`: whether the buffer holds no bytes.
#[verifier::external_body]
fn buffer_is_empty(b: &BytesMut) -> (res: bool)
    ensures
        res == (buffer_bytes(*b).len() == 0),
{
    b.is_empty()
}

/// `<BytesMut as AsRef<[u8]>>::as_ref`: the bytes the buffer holds.
#[verifier::external_body]
fn buffer_slice(b: &BytesMut) -> (res: &[u8])
    ensures
        res@ == buffer_bytes(*b),
{
    b.as_ref()
}

/// `BytesMut::split_to`, with the front part dropped: removes the first
/// `at` bytes; it panics when `at` exceeds the length, which `requires`
/// rules out.
#[verifier::external_body]
fn buffer_drop_front(b: &mut BytesMut, at: usize)
    requires
        at <= buffer_bytes(*old(b)).len(),
    ensures
        buffer_bytes(*final(b)) == buffer_bytes(*old(b)).skip(at as int),
{
    let _ = b.split_to(at);
}

/// `BytesMut::reserve`: makes room for `additional` more bytes without
/// changing the contents; it panics when the new capacity overflows, which
/// `requires` rules out (an allocation stays within `isize::MAX` bytes).
#[verifier::external_body]
fn buffer_reserve(b: &mut BytesMut, additional: usize)
    requires
        buffer_bytes(*old(b)).len() + additional <= isize::MAX,
    ensures
        buffer_bytes(*final(b)) == buffer_bytes(*old(b)),
{
    b.reserve(additional)
}

/// `<BytesMut as BufMut>::put` of a byte slice: appends the bytes, growing
/// the buffer as needed (within `isize::MAX` bytes, which `requires` keeps).
#[verifier::external_body]
fn buffer_put(b: &mut BytesMut, data: &[u8])
    requires
        buffer_bytes(*old(b)).len() + data@.len() <= isize::MAX,
    ensures
        buffer_bytes(*final(b)) == buffer_bytes(*old(b)) + data@,
{
    bytes::BufMut::put(b, data)
}

/// What parsing a message from the front of the received bytes gave.
pub enum PartialParse<M, E> {
    /// The bytes end before the message does: wait for more.
    Incomplete,
    /// The bytes do not hold a valid message.
    Invalid(E),
    /// A message, and the number of bytes it took.
    Parsed(M, usize),
}

/// A parse result never claims more bytes than it was given.
pub open spec fn parse_fits<M, E>(p: PartialParse<M, E>, len: nat) -> bool {
    p matches PartialParse::Parsed(_, n) ==> n <= len
}

/// The outcome of decoding once the parser gave `p` for the buffer that
/// held `before`: the message with its bytes removed from the front of the
/// buffer, no message yet, or the parse error, with the buffer untouched.
pub open spec fn decoded<M, E>(
    p: PartialParse<M, E>,
    res: Result<Option<M>, E>,
    before: Seq<u8>,
    after: Seq<u8>,
) -> bool {
    match p {
        PartialParse::Incomplete => res == Ok::<Option<M>, E>(None) && after == before,
        PartialParse::Invalid(e) => res == Err::<Option<M>, E>(e) && after == before,
        PartialParse::Parsed(m, n) => res == Ok::<Option<M>, E>(Some(m)) && after == before.skip(n as int),
    }
}

/// Decoding after a parse: an incomplete parse gives no message and keeps
/// the buffer; an invalid one gives its error and keeps the buffer; a parsed
/// message is returned and exactly its bytes leave the front of the buffer.
pub proof fn lemma_decoded<M, E>(p: PartialParse<M, E>, res: Result<Option<M>, E>, before: Seq<u8>, after: Seq<u8>)
    ensures
        (p is Incomplete) ==> (decoded(p, res, before, after) <==> (res matches Ok(None) && after
            == before)),
        (p is Invalid) ==> (decoded(p, res, before, after) <==> (res == Err::<Option<M>, E>(p->Invalid_0)
            && after == before)),
        (p is Parsed) ==> (decoded(p, res, before, after) <==> (res == Ok::<Option<M>, E>(
            Some(p->Parsed_0),
        ) && after == before.skip(p->Parsed_1 as int))),
{
}

/// The codec of protocol messages over a byte stream.
#[derive(Clone, Copy, Debug, PartialEq, Eq, PartialOrd, Ord, Hash)]
pub struct MessageCodec;

impl Default for MessageCodec {
    fn default() -> (res: MessageCodec)
        ensures
            res == MessageCodec,
    {
        MessageCodec
    }
}

impl MessageCodec {
    /// Decodes one message from the front of `buf` with `parse`, which reads
    /// a message at the start of the bytes given: an empty buffer yields no
    /// message and is not parsed; otherwise the parse result decides.
    pub fn decode<M, E, F: Fn(&[u8]) -> PartialParse<M, E>>(&mut self, buf: &mut BytesMut, parse: F) -> (res:
        Result<Option<M>, E>)
        requires
            forall|s: &[u8]| call_requires(parse, (s,)),
            forall|s: &[u8], p: PartialParse<M, E>|
                #[trigger] call_ensures(parse, (s,), p) ==> parse_fits(p, s@.len()),
        ensures
            buffer_bytes(*old(buf)).len() == 0 ==> (res matches Ok(None) && buffer_bytes(*final(buf))
                == buffer_bytes(*old(buf))),
            buffer_bytes(*old(buf)).len() > 0 ==> exists|s: &[u8], p: PartialParse<M, E>|
                s@ == buffer_bytes(*old(buf)) && #[trigger] call_ensures(parse, (s,), p) && decoded(
                    p,
                    res,
                    buffer_bytes(*old(buf)),
                    buffer_bytes(*final(buf)),
                ),
    {
        if buffer_is_empty(buf) {
            return Ok(None);
        }
        let ghost before = buffer_bytes(*buf);
        let s = buffer_slice(buf);
        let p = parse(s);
        let ghost gp = p;
        let ghost gs = s;
        assert(call_ensures(parse, (gs,), gp));
        assert(parse_fits(gp, gs@.len()));
        match p {
            PartialParse::Incomplete => Ok(None),
            PartialParse::Invalid(e) => Err(e),
            PartialParse::Parsed(m, n) => {
                buffer_drop_front(buf, n);
                Ok(Some(m))
            },
        }
    }

    /// Appends an encoded message to `buf`.
    pub fn encode(&mut self, message: &[u8], buf: &mut BytesMut)
        requires
            buffer_bytes(*old(buf)).len() + message@.len() <= isize::MAX,
        ensures
            buffer_bytes(*final(buf)) == buffer_bytes(*old(buf)) + message@,
    {
        buffer_reserve(buf, message.len());
        buffer_put(buf, message);
    }
}

} // verus!
