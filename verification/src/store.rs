//! Layout of the filters column family: one entry per block, keyed by the
//! block hash and holding the filter bytes, and one `height` entry holding
//! the greatest height whose filter was stored.

use crate::height::{be_bytes, filters_height_from_stored, height_value, lemma_height_roundtrip, opt_bytes, stored_height, stored_height_readable};
use vstd::prelude::*;

verus! {

/// A block hash: 32 bytes.
pub type BlockHash = [u8; 32];

/// One write of a batch: `value` goes under `key`.
pub struct Put {
    pub key: Vec<u8>,
    pub value: Vec<u8>,
}

/// The key of the filters height entry: the ASCII bytes of `height`.
pub open spec fn height_key() -> Seq<u8> {
    seq![0x68u8, 0x65u8, 0x69u8, 0x67u8, 0x68u8, 0x74u8]
}

/// What the column family holds under `k`, if anything.
pub open spec fn entry(m: Map<Seq<u8>, Seq<u8>>, k: Seq<u8>) -> Option<Seq<u8>> {
    if m.contains_key(k) {
        Some(m[k])
    } else {
        None
    }
}

/// The filters height that the column family records.
pub open spec fn recorded_height(m: Map<Seq<u8>, Seq<u8>>) -> int {
    stored_height(entry(m, height_key()))
}

/// The writes of a batch, as pairs of key and value.
pub open spec fn puts_view(puts: Seq<Put>) -> Seq<(Seq<u8>, Seq<u8>)> {
    puts.map_values(|p: Put| (p.key@, p.value@))
}

/// The column family after the writes of a batch, in their order.
pub open spec fn apply_puts(m: Map<Seq<u8>, Seq<u8>>, puts: Seq<(Seq<u8>, Seq<u8>)>) -> Map<
    Seq<u8>,
    Seq<u8>,
>
    decreases puts.len(),
{
    if puts.len() == 0 {
        m
    } else {
        apply_puts(m.insert(puts[0].0, puts[0].1), puts.drop_first())
    }
}

/// The batch that stores `filter` for the block `hash` at `height`, given
/// the filters height recorded so far: the filter entry, then a new height
/// entry when `height` is above the recorded one.
pub open spec fn store_filter_puts(current: int, hash: Seq<u8>, height: u32, filter: Seq<u8>) -> Seq<
    (Seq<u8>, Seq<u8>),
> {
    if height > current {
        seq![(hash, filter), (height_key(), be_bytes(height))]
    } else {
        seq![(hash, filter)]
    }
}

/// The ASCII bytes of `height`.
pub fn height_key_bytes() -> (res: Vec<u8>)
    ensures
        res@ == height_key(),
{
    let res: Vec<u8> = vec![0x68u8, 0x65u8, 0x69u8, 0x67u8, 0x68u8, 0x74u8];
    assert(res@ =~= height_key());
    res
}

/// The bytes of an array, in a vector.
pub(crate) fn array_to_vec<const N: usize>(a: &[u8; N]) -> (res: Vec<u8>)
    ensures
        res@ == a@,
{
    let mut res: Vec<u8> = Vec::new();
    let mut i: usize = 0;
    while i < N
        invariant
            i <= N,
            a@.len() == N,
            res@ == a@.take(i as int),
        decreases N - i,
    {
        res.push(a[i]);
        i = i + 1;
        assert(res@ =~= a@.take(i as int));
    }
    assert(a@.take(N as int) =~= a@);
    res
}

/// The batch that `store_filter` writes: the filter under the block hash and,
/// when `height` exceeds the filters height decoded from `current`
/// (what the `height` key holds now), the new height.
pub fn plan_store_filter(
    current: &Option<Vec<u8>>,
    hash: &BlockHash,
    height: u32,
    filter: Vec<u8>,
) -> (res: Vec<Put>)
    requires
        stored_height_readable(opt_bytes(*current)),
    ensures
        puts_view(res@) == store_filter_puts(
            stored_height(opt_bytes(*current)),
            hash@,
            height,
            filter@,
        ),
        res@.len() >= 1,
        res@[0].key@ == hash@,
        res@[0].value@ == filter@,
        (height > stored_height(opt_bytes(*current))) ==> (res@.len() == 2 && res@[1].key@ == height_key()
            && res@[1].value@ == be_bytes(height)),
        (height <= stored_height(opt_bytes(*current))) ==> (res@.len() == 1),
{
    let curh = filters_height_from_stored(current);
    let ghost filter_view = filter@;
    let mut batch: Vec<Put> = Vec::new();
    batch.push(Put { key: array_to_vec(hash), value: filter });
    if height > curh {
        let hv = height_value(height);
        batch.push(Put { key: height_key_bytes(), value: array_to_vec(&hv) });
    }
    assert(puts_view(batch@) =~= store_filter_puts(curh as int, hash@, height, filter_view));
    assert(puts_view(batch@)[0] == (batch@[0].key@, batch@[0].value@));
    if batch.len() == 2 {
        assert(puts_view(batch@)[1] == (batch@[1].key@, batch@[1].value@));
    }
    batch
}

/// The view of what one height yields when reading filters: the block hash
/// at that height, if known, and the filter stored under it, if any.
pub open spec fn lookup_view(l: (Option<BlockHash>, Option<Vec<u8>>)) -> (Option<Seq<u8>>, Option<Seq<u8>>) {
    (
        match l.0 {
            None => None,
            Some(h) => Some(h@),
        },
        opt_bytes(l.1),
    )
}

/// The filters that a read returns from the lookups of consecutive heights:
/// in height order, each block that has both a known hash and a stored filter.
pub open spec fn collected(lookups: Seq<(Option<Seq<u8>>, Option<Seq<u8>>)>) -> Seq<(Seq<u8>, Seq<u8>)>
    decreases lookups.len(),
{
    if lookups.len() == 0 {
        Seq::empty()
    } else {
        let rest = collected(lookups.drop_last());
        match lookups.last() {
            (Some(h), Some(f)) => rest.push((h, f)),
            _ => rest,
        }
    }
}

/// The lookups that a read of the column family `m` makes for blocks with
/// the given hashes (`None` where no block is known at that height).
pub open spec fn lookups_in(m: Map<Seq<u8>, Seq<u8>>, hashes: Seq<Option<Seq<u8>>>) -> Seq<
    (Option<Seq<u8>>, Option<Seq<u8>>),
> {
    hashes.map_values(
        |h: Option<Seq<u8>>|
            match h {
                None => (None, None),
                Some(k) => (Some(k), entry(m, k)),
            },
    )
}

/// The filters that `read_filters` returns, from what it looked up for each
/// height of the requested range: pairs of block hash and filter, in height
/// order, for the heights whose block hash and filter were both found.
pub fn collect_filters(lookups: Vec<(Option<BlockHash>, Option<Vec<u8>>)>) -> (res: Vec<(BlockHash, Vec<u8>)>)
    ensures
        res@.map_values(|p: (BlockHash, Vec<u8>)| (p.0@, p.1@)) == collected(
            lookups@.map_values(|l: (Option<BlockHash>, Option<Vec<u8>>)| lookup_view(l)),
        ),
{
    let ghost lv = lookups@.map_values(|l: (Option<BlockHash>, Option<Vec<u8>>)| lookup_view(l));
    let mut res: Vec<(BlockHash, Vec<u8>)> = Vec::new();
    let mut i: usize = 0;
    while i < lookups.len()
        invariant
            i <= lookups.len(),
            lv == lookups@.map_values(|l: (Option<BlockHash>, Option<Vec<u8>>)| lookup_view(l)),
            res@.map_values(|p: (BlockHash, Vec<u8>)| (p.0@, p.1@)) == collected(lv.take(i as int)),
        decreases lookups.len() - i,
    {
        let ghost before = res@;
        assert(lv.take(i + 1).drop_last() =~= lv.take(i as int));
        match &lookups[i] {
            (Some(h), Some(f)) => {
                let fc = f.clone();
                assert(fc@ == f@);
                res.push((*h, fc));
                assert(res@.map_values(|p: (BlockHash, Vec<u8>)| (p.0@, p.1@)) =~= before.map_values(
                    |p: (BlockHash, Vec<u8>)| (p.0@, p.1@),
                ).push((h@, f@)));
            },
            _ => {},
        }
        i = i + 1;
    }
    assert(lv.take(lookups.len() as int) =~= lv);
    res
}

/// Storing a filter: afterwards the block hash maps to that filter, the
/// recorded filters height is the greater of the former one and the block's
/// height (so it never decreases), the height entry stays readable, and no
/// other entry changes.
pub proof fn lemma_store_filter(m: Map<Seq<u8>, Seq<u8>>, hash: Seq<u8>, height: u32, filter: Seq<u8>)
    requires
        hash.len() == 32,
        stored_height_readable(entry(m, height_key())),
    ensures
        ({
            let after = apply_puts(m, store_filter_puts(recorded_height(m), hash, height, filter));
            &&& entry(after, hash) == Some(filter)
            &&& recorded_height(after) == if height > recorded_height(m) {
                height as int
            } else {
                recorded_height(m)
            }
            &&& recorded_height(after) >= recorded_height(m)
            &&& stored_height_readable(entry(after, height_key()))
            &&& forall|k: Seq<u8>|
                k != hash && k != height_key() ==> #[trigger] entry(after, k) == entry(m, k)
        }),
{
    assert(hash != height_key()) by {
        assert(hash.len() != height_key().len());
    }
    let puts = store_filter_puts(recorded_height(m), hash, height, filter);
    let m1 = m.insert(hash, filter);
    if height > recorded_height(m) {
        let m2 = m1.insert(height_key(), be_bytes(height));
        assert(puts.drop_first().drop_first() =~= Seq::<(Seq<u8>, Seq<u8>)>::empty());
        assert(apply_puts(m, puts) == apply_puts(m1, puts.drop_first()));
        assert(apply_puts(m1, puts.drop_first()) == apply_puts(m2, puts.drop_first().drop_first()));
        assert(apply_puts(m, puts) == m2);
        lemma_height_roundtrip(height);
    } else {
        assert(puts.drop_first() =~= Seq::<(Seq<u8>, Seq<u8>)>::empty());
        assert(apply_puts(m, puts) == apply_puts(m1, puts.drop_first()));
        assert(apply_puts(m, puts) == m1);
    }
}

/// The filters read for consecutive heights: none for no heights, and one
/// more height appends, at the end, the pair of its block hash and filter
/// when both were found, and nothing otherwise.
pub proof fn lemma_collected_push(
    lookups: Seq<(Option<Seq<u8>>, Option<Seq<u8>>)>,
    l: (Option<Seq<u8>>, Option<Seq<u8>>),
)
    ensures
        collected(Seq::empty()) == Seq::<(Seq<u8>, Seq<u8>)>::empty(),
        collected(lookups.push(l)) == match l {
            (Some(h), Some(f)) => collected(lookups).push((h, f)),
            _ => collected(lookups),
        },
{
    assert(lookups.push(l).drop_last() =~= lookups);
    assert(lookups.push(l).last() == l);
}

/// What a lookup tells, as plain bytes: the block hash when it is known,
/// and the filter when one is stored.
pub proof fn lemma_lookup_view(l: (Option<BlockHash>, Option<Vec<u8>>))
    ensures
        lookup_view(l).0 == match l.0 {
            None => None,
            Some(h) => Some(h@),
        },
        lookup_view(l).1 == match l.1 {
            None => None,
            Some(f) => Some(f@),
        },
{
}

/// Collecting keeps every pair whose hash and filter were both found.
proof fn lemma_collected_contains(lookups: Seq<(Option<Seq<u8>>, Option<Seq<u8>>)>, i: int)
    requires
        0 <= i < lookups.len(),
        lookups[i].0 is Some,
        lookups[i].1 is Some,
    ensures
        collected(lookups).contains((lookups[i].0->0, lookups[i].1->0)),
    decreases lookups.len(),
{
    let rest = collected(lookups.drop_last());
    if i == lookups.len() - 1 {
        assert(collected(lookups) == rest.push((lookups[i].0->0, lookups[i].1->0)));
        assert(collected(lookups)[rest.len() as int] == (lookups[i].0->0, lookups[i].1->0));
    } else {
        assert(lookups.drop_last()[i] == lookups[i]);
        lemma_collected_contains(lookups.drop_last(), i);
        let w = choose|j: int| 0 <= j < rest.len() && rest[j] == (lookups[i].0->0, lookups[i].1->0);
        match lookups.last() {
            (Some(h), Some(f)) => {
                assert(collected(lookups) == rest.push((h, f)));
                assert(collected(lookups)[w] == rest[w]);
            },
            _ => {},
        }
    }
}

/// A read gives back what a write wrote: once a filter is stored for a
/// block, reading filters over any range of heights at which that block's
/// hash is known returns the pair of that hash and that filter.
pub proof fn lemma_read_after_store(
    m: Map<Seq<u8>, Seq<u8>>,
    hashes: Seq<Option<Seq<u8>>>,
    hash: Seq<u8>,
    height: u32,
    filter: Seq<u8>,
)
    requires
        hash.len() == 32,
        stored_height_readable(entry(m, height_key())),
        hashes.contains(Some(hash)),
    ensures
        collected(
            lookups_in(
                apply_puts(m, store_filter_puts(recorded_height(m), hash, height, filter)),
                hashes,
            ),
        ).contains((hash, filter)),
{
    lemma_store_filter(m, hash, height, filter);
    let after = apply_puts(m, store_filter_puts(recorded_height(m), hash, height, filter));
    let i = choose|i: int| 0 <= i < hashes.len() && hashes[i] == Some(hash);
    let ls = lookups_in(after, hashes);
    assert(ls[i] == (Some(hash), entry(after, hash)));
    lemma_collected_contains(ls, i);
}

} // verus!
