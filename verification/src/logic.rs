//! The decisions of a client connection: the version message the indexer
//! sends, the handshake that must complete before anything else, and the
//! answer to each filters request.

use crate::protocol::{
    Currency, Filter, FiltersResponse, GetFiltersRequest, IndexerError, ScanBlock, Version,
    VersionMessage, MAX_FILTERS_REQ,
};
use crate::store::{array_to_vec, BlockHash};
use vstd::prelude::*;

verus! {

/// The version of the Bitcoin scan that the indexer announces.
pub open spec fn btc_scan_version() -> Version {
    Version { major: 1, minor: 0, patch: 0 }
}

/// The version message the indexer opens a client handshake with: the
/// current protocol version, the time and nonce given, and one scan block
/// that reports the Bitcoin filters height and chain height.
pub fn build_version_message(
    current: Version,
    timestamp: u64,
    nonce: [u8; 8],
    filters_height: u32,
    chain_height: u32,
) -> (res: VersionMessage)
    ensures
        res.version == current,
        res.time == timestamp,
        res.nonce == nonce,
        res.scan_blocks@.len() == 1,
        res.scan_blocks@[0].currency == Currency::Btc,
        res.scan_blocks@[0].version == btc_scan_version(),
        res.scan_blocks@[0].version.major == 1,
        res.scan_blocks@[0].version.minor == 0,
        res.scan_blocks@[0].version.patch == 0,
        res.scan_blocks@[0].scan_height == filters_height,
        res.scan_blocks@[0].height == chain_height,
{
    let mut scan_blocks: Vec<ScanBlock> = Vec::new();
    scan_blocks.push(
        ScanBlock {
            currency: Currency::Btc,
            version: Version { major: 1, minor: 0, patch: 0 },
            scan_height: filters_height as u64,
            height: chain_height as u64,
        },
    );
    VersionMessage { version: current, time: timestamp, nonce, scan_blocks }
}

/// The version message a connection sends on its own: the current protocol
/// version, the time and nonce given, and no scan blocks.
pub fn build_client_version_message(current: Version, timestamp: u64, nonce: [u8; 8]) -> (res: VersionMessage)
    ensures
        res.version == current,
        res.time == timestamp,
        res.nonce == nonce,
        res.scan_blocks@.len() == 0,
{
    VersionMessage { version: current, time: timestamp, nonce, scan_blocks: Vec::new() }
}

/// Whether the indexer serves filters of the currency: only Bitcoin.
pub fn is_supported_currency(currency: &Currency) -> (res: bool)
    ensures
        res == (*currency == Currency::Btc),
{
    match currency {
        Currency::Btc => true,
        Currency::Other(_) => false,
    }
}

/// What happened while waiting for the handshake.
pub enum HandshakeEvent {
    /// The handshake deadline passed.
    Timeout,
    /// The client's message channel closed.
    Closed,
    /// The client's version message; `compatible` says whether the current
    /// protocol version accepts the client's version.
    Version { version: Version, nonce: [u8; 8], compatible: bool },
    /// The client acknowledged the indexer's version.
    VersionAck,
    /// Any other message.
    Other,
}

/// Progress of the handshake: which of the two expected messages arrived.
#[derive(Clone, Copy, Debug, PartialEq, Eq, Structural)]
pub struct Handshake {
    pub got_version: bool,
    pub got_ack: bool,
}

/// The handshake state after one event, or the error that ends it.
pub open spec fn handshake_next(s: Handshake, own_nonce: Seq<u8>, ev: HandshakeEvent) -> Result<
    Handshake,
    IndexerError,
> {
    match ev {
        HandshakeEvent::Timeout => Err(IndexerError::HandshakeTimeout),
        HandshakeEvent::Closed => Err(IndexerError::HandshakeRecv),
        HandshakeEvent::Version { version, nonce, compatible } => {
            if !compatible {
                Err(IndexerError::NotCompatible(version))
            } else if nonce@ == own_nonce {
                Err(IndexerError::HandshakeNonceIdentical)
            } else {
                Ok(Handshake { got_version: true, got_ack: s.got_ack })
            }
        },
        HandshakeEvent::VersionAck => Ok(Handshake { got_version: s.got_version, got_ack: true }),
        HandshakeEvent::Other => Err(IndexerError::HandshakeViolation),
    }
}

/// Whether two nonces are equal.
fn nonce_eq(a: &[u8; 8], b: &[u8; 8]) -> (res: bool)
    ensures
        res == (a@ == b@),
{
    let mut i: usize = 0;
    while i < 8
        invariant
            i <= 8,
            forall|j: int| 0 <= j < i ==> a@[j] == b@[j],
        decreases 8 - i,
    {
        if a[i] != b[i] {
            return false;
        }
        i = i + 1;
    }
    assert(a@ =~= b@);
    true
}

impl Handshake {
    /// Nothing received yet.
    pub fn new() -> (res: Handshake)
        ensures
            !res.got_version,
            !res.got_ack,
    {
        Handshake { got_version: false, got_ack: false }
    }

    /// The handshake is complete once both the client's version and its
    /// acknowledgement arrived.
    pub fn is_done(&self) -> (res: bool)
        ensures
            res == (self.got_version && self.got_ack),
    {
        self.got_version && self.got_ack
    }

    /// One event of the handshake, with `own_nonce` the nonce of the
    /// indexer's own version message: a deadline, a closed channel or any
    /// message other than a version or an acknowledgement ends it; a version
    /// is refused when incompatible, then when it carries the indexer's own
    /// nonce.
    pub fn step(&self, own_nonce: &[u8; 8], ev: HandshakeEvent) -> (res: Result<Handshake, IndexerError>)
        ensures
            res == handshake_next(*self, own_nonce@, ev),
            (ev is Timeout) ==> (res == Err::<Handshake, IndexerError>(IndexerError::HandshakeTimeout)),
            (ev is Closed) ==> (res == Err::<Handshake, IndexerError>(IndexerError::HandshakeRecv)),
            (ev is Other) ==> (res == Err::<Handshake, IndexerError>(IndexerError::HandshakeViolation)),
            (ev is VersionAck) ==> (res matches Ok(next) && next.got_ack && next.got_version
                == self.got_version),
            (ev is Version && !ev->compatible) ==> (res == Err::<Handshake, IndexerError>(
                IndexerError::NotCompatible(ev->version),
            )),
            (ev is Version && ev->compatible && ev->nonce@ == own_nonce@) ==> (res == Err::<
                Handshake,
                IndexerError,
            >(IndexerError::HandshakeNonceIdentical)),
            (ev is Version && ev->compatible && ev->nonce@ != own_nonce@) ==> (res matches Ok(next)
                && next.got_version && next.got_ack == self.got_ack),
    {
        match ev {
            HandshakeEvent::Timeout => Err(IndexerError::HandshakeTimeout),
            HandshakeEvent::Closed => Err(IndexerError::HandshakeRecv),
            HandshakeEvent::Version { version, nonce, compatible } => {
                if !compatible {
                    Err(IndexerError::NotCompatible(version))
                } else if nonce_eq(&nonce, own_nonce) {
                    Err(IndexerError::HandshakeNonceIdentical)
                } else {
                    Ok(Handshake { got_version: true, got_ack: self.got_ack })
                }
            },
            HandshakeEvent::VersionAck => Ok(Handshake { got_version: self.got_version, got_ack: true }),
            HandshakeEvent::Other => Err(IndexerError::HandshakeViolation),
        }
    }
}

/// A version message that the handshake accepts: compatible, and not
/// carrying the indexer's own nonce.
pub open spec fn accepted_version(ev: HandshakeEvent, own_nonce: Seq<u8>) -> bool {
    ev matches HandshakeEvent::Version { nonce, compatible, .. } && compatible && nonce@ != own_nonce
}

/// An event that lets the handshake go on.
pub open spec fn accepted_event(ev: HandshakeEvent, own_nonce: Seq<u8>) -> bool {
    accepted_version(ev, own_nonce) || ev is VersionAck
}

/// The handshake loop from state `s` over the events `evs`, in order: it
/// stops as soon as both messages arrived, with the number of events it
/// consumed, or at the first event that ends it, with that error; `None`
/// while it still waits for more events.
pub open spec fn handshake_run(s: Handshake, own_nonce: Seq<u8>, evs: Seq<HandshakeEvent>) -> Option<
    Result<nat, IndexerError>,
>
    decreases evs.len(),
{
    if s.got_version && s.got_ack {
        Some(Ok(0))
    } else if evs.len() == 0 {
        None
    } else {
        match handshake_next(s, own_nonce, evs[0]) {
            Err(e) => Some(Err(e)),
            Ok(next) => match handshake_run(next, own_nonce, evs.drop_first()) {
                Some(Ok(k)) => Some(Ok(k + 1)),
                other => other,
            },
        }
    }
}

/// A handshake that completes consumed only accepted versions and
/// acknowledgements, and received (or had already received) both an accepted
/// version and an acknowledgement.
pub proof fn lemma_handshake_sound(s: Handshake, own_nonce: Seq<u8>, evs: Seq<HandshakeEvent>, k: nat)
    requires
        handshake_run(s, own_nonce, evs) == Some(Ok::<nat, IndexerError>(k)),
    ensures
        k <= evs.len(),
        forall|i: int| 0 <= i < k ==> accepted_event(#[trigger] evs[i], own_nonce),
        s.got_version || exists|i: int| 0 <= i < k && accepted_version(#[trigger] evs[i], own_nonce),
        s.got_ack || exists|i: int| 0 <= i < k && (#[trigger] evs[i]) is VersionAck,
    decreases evs.len(),
{
    if s.got_version && s.got_ack {
    } else {
        let next = handshake_next(s, own_nonce, evs[0])->Ok_0;
        let rest = evs.drop_first();
        let k1 = (k - 1) as nat;
        assert(handshake_run(next, own_nonce, rest) == Some(Ok::<nat, IndexerError>(k1)));
        lemma_handshake_sound(next, own_nonce, rest, k1);
        assert forall|i: int| 0 <= i < k implies accepted_event(#[trigger] evs[i], own_nonce) by {
            if i > 0 {
                assert(evs[i] == rest[i - 1]);
            }
        }
        if !s.got_version {
            if accepted_version(evs[0], own_nonce) {
            } else {
                let i = choose|i: int| 0 <= i < k1 && accepted_version(#[trigger] rest[i], own_nonce);
                assert(evs[i + 1] == rest[i]);
            }
        }
        if !s.got_ack {
            if evs[0] is VersionAck {
            } else {
                let i = choose|i: int| 0 <= i < k1 && (#[trigger] rest[i]) is VersionAck;
                assert(evs[i + 1] == rest[i]);
            }
        }
    }
}

/// A handshake whose first `k` events are all accepted versions or
/// acknowledgements, among them at least one of each, completes within
/// those `k` events.
pub proof fn lemma_handshake_complete(s: Handshake, own_nonce: Seq<u8>, evs: Seq<HandshakeEvent>, k: nat)
    requires
        k <= evs.len(),
        forall|i: int| 0 <= i < k ==> accepted_event(#[trigger] evs[i], own_nonce),
        s.got_version || exists|i: int| 0 <= i < k && accepted_version(#[trigger] evs[i], own_nonce),
        s.got_ack || exists|i: int| 0 <= i < k && (#[trigger] evs[i]) is VersionAck,
    ensures
        handshake_run(s, own_nonce, evs) matches Some(Ok(j)) && j <= k,
    decreases evs.len(),
{
    if s.got_version && s.got_ack {
    } else {
        assert(k > 0);
        assert(accepted_event(evs[0], own_nonce));
        let next = handshake_next(s, own_nonce, evs[0])->Ok_0;
        let rest = evs.drop_first();
        let k1 = (k - 1) as nat;
        assert forall|i: int| 0 <= i < k1 implies accepted_event(#[trigger] rest[i], own_nonce) by {
            assert(rest[i] == evs[i + 1]);
        }
        if !next.got_version {
            let i = choose|i: int| 0 <= i < k && accepted_version(#[trigger] evs[i], own_nonce);
            assert(i != 0);
            assert(rest[i - 1] == evs[i]);
        }
        if !next.got_ack {
            let i = choose|i: int| 0 <= i < k && (#[trigger] evs[i]) is VersionAck;
            assert(i != 0);
            assert(rest[i - 1] == evs[i]);
        }
        lemma_handshake_complete(next, own_nonce, rest, k1);
    }
}

/// The error that an event the handshake cannot accept ends it with.
pub open spec fn rejection(ev: HandshakeEvent) -> IndexerError {
    match ev {
        HandshakeEvent::Timeout => IndexerError::HandshakeTimeout,
        HandshakeEvent::Closed => IndexerError::HandshakeRecv,
        HandshakeEvent::Version { version, compatible, .. } => if !compatible {
            IndexerError::NotCompatible(version)
        } else {
            IndexerError::HandshakeNonceIdentical
        },
        _ => IndexerError::HandshakeViolation,
    }
}

/// A handshake that fails does so at the first event it cannot accept,
/// before completing, and with that event's error; all events before it
/// were accepted versions or acknowledgements.
pub proof fn lemma_handshake_failure(s: Handshake, own_nonce: Seq<u8>, evs: Seq<HandshakeEvent>, e: IndexerError)
    requires
        handshake_run(s, own_nonce, evs) == Some(Err::<nat, IndexerError>(e)),
    ensures
        exists|i: int|
            0 <= i < evs.len() && !accepted_event(#[trigger] evs[i], own_nonce) && e == rejection(evs[i])
                && forall|j: int| 0 <= j < i ==> accepted_event(#[trigger] evs[j], own_nonce),
    decreases evs.len(),
{
    let rest = evs.drop_first();
    match handshake_next(s, own_nonce, evs[0]) {
        Err(e0) => {
            assert(!accepted_event(evs[0], own_nonce) && e == rejection(evs[0]));
        },
        Ok(next) => {
            assert(handshake_run(next, own_nonce, rest) == Some(Err::<nat, IndexerError>(e)));
            lemma_handshake_failure(next, own_nonce, rest, e);
            let i = choose|i: int|
                0 <= i < rest.len() && !accepted_event(#[trigger] rest[i], own_nonce) && e == rejection(rest[i])
                    && forall|j: int| 0 <= j < i ==> accepted_event(#[trigger] rest[j], own_nonce);
            assert(evs[i + 1] == rest[i]);
            assert forall|j: int| 0 <= j < i + 1 implies accepted_event(#[trigger] evs[j], own_nonce) by {
                if j > 0 {
                    assert(evs[j] == rest[j - 1]);
                }
            }
        },
    }
}

/// How the indexer answers a filters request.
#[derive(Clone, Copy, Debug)]
pub enum FiltersReply {
    /// Reject the request (an internal error for an unsupported currency)
    /// and stop serving the client.
    Reject { currency: Currency },
    /// Answer with no filters: the request starts above the filters height.
    Empty { currency: Currency },
    /// Read the filters of `amount` heights from `start` and answer with them.
    Read { currency: Currency, start: u32, amount: u32 },
}

/// The answer to a request when the filters height is `filters_height`.
pub open spec fn filters_reply(req: GetFiltersRequest, filters_height: u32) -> FiltersReply {
    if req.currency != Currency::Btc {
        FiltersReply::Reject { currency: req.currency }
    } else if req.start > filters_height {
        FiltersReply::Empty { currency: req.currency }
    } else {
        FiltersReply::Read {
            currency: req.currency,
            start: req.start as u32,
            amount: if req.amount < MAX_FILTERS_REQ {
                req.amount
            } else {
                MAX_FILTERS_REQ
            },
        }
    }
}

/// The answer to a filters request: a request for another currency than
/// Bitcoin is rejected; a Bitcoin request gets no filters exactly when it
/// starts above the filters height, and otherwise reads from its start the
/// smaller of the amount asked and `MAX_FILTERS_REQ` filters.
pub proof fn lemma_filters_reply(req: GetFiltersRequest, filters_height: u32)
    ensures
        (filters_reply(req, filters_height) is Reject) <==> (req.currency != Currency::Btc),
        (filters_reply(req, filters_height) is Empty) <==> (req.currency == Currency::Btc
            && req.start > filters_height),
        (filters_reply(req, filters_height) is Read) <==> (req.currency == Currency::Btc
            && req.start <= filters_height),
        (filters_reply(req, filters_height) is Read) ==> (filters_reply(req, filters_height)->Read_start
            == req.start),
        (filters_reply(req, filters_height) is Read && req.amount < MAX_FILTERS_REQ) ==> (filters_reply(
            req,
            filters_height,
        )->Read_amount == req.amount),
        (filters_reply(req, filters_height) is Read && req.amount >= MAX_FILTERS_REQ) ==> (filters_reply(
            req,
            filters_height,
        )->Read_amount == MAX_FILTERS_REQ),
{
}

/// Decides the answer to a filters request: requests for another currency
/// than Bitcoin are rejected; a start above the filters height gets no
/// filters; otherwise at most `MAX_FILTERS_REQ` filters from `start` are read.
pub fn plan_filters_reply(req: &GetFiltersRequest, filters_height: u32) -> (res: FiltersReply)
    ensures
        res == filters_reply(*req, filters_height),
        res is Reject <==> req.currency != Currency::Btc,
        (res is Empty) <==> (req.currency == Currency::Btc && req.start > filters_height),
        (res is Read) <==> (req.currency == Currency::Btc && req.start <= filters_height),
        (res is Reject) ==> (res->Reject_currency == req.currency),
        (res is Empty) ==> (res->Empty_currency == req.currency),
        (res is Read) ==> (res->Read_currency == req.currency),
        (res is Read) ==> (res->Read_start == req.start),
        (res is Read && req.amount < MAX_FILTERS_REQ) ==> (res->Read_amount == req.amount),
        (res is Read && req.amount >= MAX_FILTERS_REQ) ==> (res->Read_amount == MAX_FILTERS_REQ),
        res matches FiltersReply::Read { start, amount, currency } ==> {
            &&& start == req.start
            &&& start <= filters_height
            &&& amount <= MAX_FILTERS_REQ
            &&& amount <= req.amount
            &&& currency == req.currency
        },
{
    if !is_supported_currency(&req.currency) {
        return FiltersReply::Reject { currency: req.currency };
    }
    if req.start > filters_height as u64 {
        FiltersReply::Empty { currency: req.currency }
    } else {
        let amount = if req.amount < MAX_FILTERS_REQ {
            req.amount
        } else {
            MAX_FILTERS_REQ
        };
        FiltersReply::Read { currency: req.currency, start: req.start as u32, amount }
    }
}

/// Whether serving goes on after a reply: a reject ends it with the
/// unsupported currency as the reason; any other reply lets it go on.
pub fn serve_outcome(reply: &FiltersReply) -> (res: Result<(), IndexerError>)
    ensures
        match *reply {
            FiltersReply::Reject { currency } => res == Err::<(), IndexerError>(
                IndexerError::NotSupportedCurrency(currency),
            ),
            _ => res is Ok,
        },
{
    match reply {
        FiltersReply::Reject { currency } => Err(IndexerError::NotSupportedCurrency(*currency)),
        _ => Ok(()),
    }
}

/// The view of one filter of a response: block id and filter bytes.
pub open spec fn filter_view(f: Filter) -> (Seq<u8>, Seq<u8>) {
    (f.block_id@, f.filter@)
}

/// The response that carries the filters read: one entry per block, in the
/// order read, with the block hash as block id.
pub fn filters_response(currency: Currency, filters: Vec<(BlockHash, Vec<u8>)>) -> (res: FiltersResponse)
    ensures
        res.currency == currency,
        res.filters@.map_values(|f: Filter| filter_view(f)) == filters@.map_values(
            |p: (BlockHash, Vec<u8>)| (p.0@, p.1@),
        ),
{
    let mut out: Vec<Filter> = Vec::new();
    let mut i: usize = 0;
    while i < filters.len()
        invariant
            i <= filters.len(),
            out@.map_values(|f: Filter| filter_view(f)) == filters@.map_values(
                |p: (BlockHash, Vec<u8>)| (p.0@, p.1@),
            ).take(i as int),
        decreases filters.len() - i,
    {
        let block_id = array_to_vec(&filters[i].0);
        let filter = filters[i].1.clone();
        assert(filter@ == filters@[i as int].1@);
        let ghost before = out@;
        out.push(Filter { block_id, filter });
        assert(out@.map_values(|f: Filter| filter_view(f)) =~= before.map_values(|f: Filter| filter_view(f)).push(
            (filters@[i as int].0@, filters@[i as int].1@),
        ));
        i = i + 1;
        assert(out@.map_values(|f: Filter| filter_view(f)) =~= filters@.map_values(
            |p: (BlockHash, Vec<u8>)| (p.0@, p.1@),
        ).take(i as int));
    }
    assert(filters@.map_values(|p: (BlockHash, Vec<u8>)| (p.0@, p.1@)).take(filters.len() as int)
        =~= filters@.map_values(|p: (BlockHash, Vec<u8>)| (p.0@, p.1@)));
    FiltersResponse { currency, filters: out }
}

} // verus!
