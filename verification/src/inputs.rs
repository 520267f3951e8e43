//! The spent outputs a block's filter needs: a BIP158 script filter covers the
//! scripts of the outputs that the block's transactions spend, so before a
//! filter is built, the coin of every input that is not a coinbase input must
//! be at hand.

use vstd::prelude::*;

verus! {

/// A reference to a transaction output: the transaction id and the index of
/// the output in that transaction.
#[derive(Clone, Copy)]
pub struct OutPoint {
    pub txid: [u8; 32],
    pub vout: u32,
}

/// The outputs that the inputs of one transaction spend, in input order.
pub struct TxInputs {
    pub prevouts: Vec<OutPoint>,
}

/// The null outpoint that a coinbase input refers to: an all-zero
/// transaction id and the greatest output index.
pub open spec fn is_null(op: OutPoint) -> bool {
    &&& forall|i: int| 0 <= i < 32 ==> op.txid@[i] == 0u8
    &&& op.vout == u32::MAX
}

/// `bitcoin::OutPoint::is_null`: whether the outpoint equals
/// `OutPoint::null()`, whose txid is `Default` (all zero bytes) and whose
/// output index is `u32::max_value()`.
#[verifier::external_body]
fn outpoint_is_null(op: &OutPoint) -> (res: bool)
    ensures
        res == is_null(*op),
{
    let txid: bitcoin::Txid = bitcoin::hashes::Hash::from_inner(op.txid);
    bitcoin::OutPoint { txid, vout: op.vout }.is_null()
}

/// A transaction is a coinbase when it has exactly one input and that input
/// spends the null outpoint.
pub open spec fn is_coin_base_spec(prevouts: Seq<OutPoint>) -> bool {
    prevouts.len() == 1 && is_null(prevouts[0])
}

/// Whether the transaction is a coinbase.
pub fn is_coin_base(tx: &TxInputs) -> (res: bool)
    ensures
        res == is_coin_base_spec(tx.prevouts@),
        res == (tx.prevouts@.len() == 1 && is_null(tx.prevouts@[0])),
{
    tx.prevouts.len() == 1 && outpoint_is_null(&tx.prevouts[0])
}

/// The outpoints a filter needs coins for: the inputs of every
/// non-coinbase transaction, in block order and then input order.
pub open spec fn needed_outpoints(txs: Seq<Seq<OutPoint>>) -> Seq<OutPoint>
    decreases txs.len(),
{
    if txs.len() == 0 {
        Seq::empty()
    } else if is_coin_base_spec(txs.last()) {
        needed_outpoints(txs.drop_last())
    } else {
        needed_outpoints(txs.drop_last()) + txs.last()
    }
}

/// The inputs of a block, transaction by transaction.
pub open spec fn block_inputs(txs: Seq<TxInputs>) -> Seq<Seq<OutPoint>> {
    txs.map_values(|t: TxInputs| t.prevouts@)
}

/// The outpoints whose coins `generate_filter` waits for before it builds a
/// block's filter.
pub fn outpoints_to_resolve(txs: &Vec<TxInputs>) -> (res: Vec<OutPoint>)
    ensures
        res@ == needed_outpoints(block_inputs(txs@)),
{
    let ghost all = block_inputs(txs@);
    let mut res: Vec<OutPoint> = Vec::new();
    let mut t: usize = 0;
    while t < txs.len()
        invariant
            t <= txs.len(),
            all == block_inputs(txs@),
            res@ == needed_outpoints(all.take(t as int)),
        decreases txs.len() - t,
    {
        assert(all.take(t + 1).drop_last() =~= all.take(t as int));
        let tx = &txs[t];
        if !is_coin_base(tx) {
            let ghost before = res@;
            let mut i: usize = 0;
            while i < tx.prevouts.len()
                invariant
                    i <= tx.prevouts.len(),
                    res@ == before + tx.prevouts@.take(i as int),
                decreases tx.prevouts.len() - i,
            {
                res.push(tx.prevouts[i]);
                i = i + 1;
                assert(res@ =~= before + tx.prevouts@.take(i as int));
            }
            assert(tx.prevouts@.take(i as int) =~= tx.prevouts@);
        }
        t = t + 1;
    }
    assert(all.take(txs.len() as int) =~= all);
    res
}

/// Whether two outpoints are the same.
pub fn outpoint_eq(a: &OutPoint, b: &OutPoint) -> (res: bool)
    ensures
        res == (*a == *b),
{
    if a.vout != b.vout {
        return false;
    }
    let mut i: usize = 0;
    while i < 32
        invariant
            i <= 32,
            forall|j: int| 0 <= j < i ==> a.txid[j] == b.txid[j],
        decreases 32 - i,
    {
        if a.txid[i] != b.txid[i] {
            assert(a.txid@[i as int] != b.txid@[i as int]);
            return false;
        }
        i = i + 1;
    }
    assert(a.txid =~= b.txid);
    true
}

/// The script that the coins gathered for a block give for `out`: coins are
/// gathered in input order, and a later coin for the same outpoint replaces
/// an earlier one.
pub open spec fn script_for(coins: Seq<(OutPoint, Seq<u8>)>, out: OutPoint) -> Option<Seq<u8>>
    decreases coins.len(),
{
    if coins.len() == 0 {
        None
    } else if coins.last().0 == out {
        Some(coins.last().1)
    } else {
        script_for(coins.drop_last(), out)
    }
}

/// The lookup that the filter construction makes for a spent output: its
/// script, or the outpoint itself as the missing coin.
pub fn lookup_script(coins: &Vec<(OutPoint, Vec<u8>)>, out: &OutPoint) -> (res: Result<Vec<u8>, OutPoint>)
    ensures
        match script_for(coins@.map_values(|c: (OutPoint, Vec<u8>)| (c.0, c.1@)), *out) {
            Some(s) => res matches Ok(v) && v@ == s,
            None => res == Err::<Vec<u8>, OutPoint>(*out),
        },
        res matches Ok(v) ==> exists|j: int|
            0 <= j < coins@.len() && coins@[j].0 == *out && v@ == coins@[j].1@ && forall|k: int|
                j < k < coins@.len() ==> (#[trigger] coins@[k]).0 != *out,
        res is Err ==> res == Err::<Vec<u8>, OutPoint>(*out) && forall|j: int|
            0 <= j < coins@.len() ==> (#[trigger] coins@[j]).0 != *out,
{
    let ghost cv = coins@.map_values(|c: (OutPoint, Vec<u8>)| (c.0, c.1@));
    let mut i: usize = coins.len();
    assert(cv.take(i as int) =~= cv);
    while i > 0
        invariant
            i <= coins.len(),
            cv == coins@.map_values(|c: (OutPoint, Vec<u8>)| (c.0, c.1@)),
            script_for(cv, *out) == script_for(cv.take(i as int), *out),
            forall|k: int| i <= k < coins@.len() ==> (#[trigger] coins@[k]).0 != *out,
        decreases i,
    {
        let ghost prefix = cv.take(i as int);
        assert(prefix.drop_last() =~= cv.take(i - 1));
        if outpoint_eq(&coins[i - 1].0, out) {
            let s = coins[i - 1].1.clone();
            assert(s@ == coins@[i - 1].1@);
            return Ok(s);
        }
        i = i - 1;
    }
    Err(*out)
}

/// The lookup of an outpoint among the coins gathered for a block: no coin
/// gives no script, and a coin gathered last answers for exactly its own
/// outpoint (same transaction id and output index), every other outpoint
/// being answered as before it was gathered.
pub proof fn lemma_script_for_push(coins: Seq<(OutPoint, Seq<u8>)>, o: OutPoint, s: Seq<u8>, out: OutPoint)
    ensures
        script_for(Seq::empty(), out) == None::<Seq<u8>>,
        script_for(coins.push((o, s)), out) == if o.txid@ == out.txid@ && o.vout == out.vout {
            Some(s)
        } else {
            script_for(coins, out)
        },
{
    assert(coins.push((o, s)).drop_last() =~= coins);
    if o.txid@ == out.txid@ && o.vout == out.vout {
        assert(o.txid =~= out.txid);
        assert(o == out);
    }
}

/// The inputs of a block: for each transaction, in order, the outputs its
/// inputs spend.
pub proof fn lemma_block_inputs(txs: Seq<TxInputs>)
    ensures
        block_inputs(txs).len() == txs.len(),
        forall|t: int| 0 <= t < txs.len() ==> #[trigger] block_inputs(txs)[t] == txs[t].prevouts@,
{
}

/// The outpoints a block's filter waits for: none for an empty block, and
/// appending a transaction to a block appends nothing when it is a coinbase
/// (one input, spending the null outpoint) and its inputs, in order, when
/// it is not.
pub proof fn lemma_needed_outpoints_push(txs: Seq<Seq<OutPoint>>, tx: Seq<OutPoint>)
    ensures
        needed_outpoints(Seq::empty()) == Seq::<OutPoint>::empty(),
        needed_outpoints(txs.push(tx)) == if tx.len() == 1 && (forall|i: int|
            0 <= i < 32 ==> tx[0].txid@[i] == 0u8) && tx[0].vout == u32::MAX {
            needed_outpoints(txs)
        } else {
            needed_outpoints(txs) + tx
        },
{
    assert(txs.push(tx).drop_last() =~= txs);
    assert(txs.push(tx).last() == tx);
}

/// Every outpoint a block's filter waits for is spent by an input of a
/// transaction of the block that is not a coinbase.
pub proof fn lemma_needed_outpoints_sound(txs: Seq<Seq<OutPoint>>, k: int)
    requires
        0 <= k < needed_outpoints(txs).len(),
    ensures
        exists|t: int, i: int|
            0 <= t < txs.len() && 0 <= i < txs[t].len() && !(txs[t].len() == 1 && is_null(txs[t][0]))
                && #[trigger] txs[t][i] == needed_outpoints(txs)[k],
    decreases txs.len(),
{
    let rest = needed_outpoints(txs.drop_last());
    let t = txs.len() - 1;
    if k < rest.len() {
        assert(needed_outpoints(txs)[k] == rest[k]);
        lemma_needed_outpoints_sound(txs.drop_last(), k);
        let (t0, i0) = choose|t0: int, i0: int|
            0 <= t0 < txs.drop_last().len() && 0 <= i0 < txs.drop_last()[t0].len() && !(
            txs.drop_last()[t0].len() == 1 && is_null(txs.drop_last()[t0][0]))
                && #[trigger] txs.drop_last()[t0][i0] == rest[k];
        assert(txs[t0] == txs.drop_last()[t0]);
        assert(txs[t0][i0] == needed_outpoints(txs)[k]);
    } else {
        assert(needed_outpoints(txs) == rest + txs.last());
        let i = k - rest.len();
        assert(txs[t][i] == needed_outpoints(txs)[k]);
    }
}

/// A lookup finds a script for an outpoint that some gathered coin is for.
proof fn lemma_script_for_found(coins: Seq<(OutPoint, Seq<u8>)>, out: OutPoint, j: int)
    requires
        0 <= j < coins.len(),
        coins[j].0 == out,
    ensures
        script_for(coins, out) is Some,
    decreases coins.len(),
{
    if coins.last().0 != out {
        assert(j != coins.len() - 1);
        assert(coins.drop_last()[j] == coins[j]);
        lemma_script_for_found(coins.drop_last(), out, j);
    }
}

/// Every outpoint of a non-coinbase transaction is among those that are resolved.
proof fn lemma_needed_contains(txs: Seq<Seq<OutPoint>>, t: int, i: int)
    requires
        0 <= t < txs.len(),
        !is_coin_base_spec(txs[t]),
        0 <= i < txs[t].len(),
    ensures
        needed_outpoints(txs).contains(txs[t][i]),
    decreases txs.len(),
{
    let rest = needed_outpoints(txs.drop_last());
    if t == txs.len() - 1 {
        assert(needed_outpoints(txs) == rest + txs.last());
        assert(needed_outpoints(txs)[rest.len() + i] == txs[t][i]);
    } else {
        assert(txs.drop_last()[t] == txs[t]);
        lemma_needed_contains(txs.drop_last(), t, i);
        let w = choose|w: int| 0 <= w < rest.len() && rest[w] == txs[t][i];
        if is_coin_base_spec(txs.last()) {
        } else {
            assert(needed_outpoints(txs) == rest + txs.last());
            assert(needed_outpoints(txs)[w] == rest[w]);
        }
    }
}

/// Once a coin was gathered for each outpoint that `outpoints_to_resolve`
/// lists, the filter construction finds a script for every output that a
/// non-coinbase transaction of the block spends: no coin is missing.
pub proof fn lemma_resolved_coins_suffice(
    txs: Seq<Seq<OutPoint>>,
    coins: Seq<(OutPoint, Seq<u8>)>,
    t: int,
    i: int,
)
    requires
        coins.map_values(|c: (OutPoint, Seq<u8>)| c.0) == needed_outpoints(txs),
        0 <= t < txs.len(),
        !is_coin_base_spec(txs[t]),
        0 <= i < txs[t].len(),
    ensures
        script_for(coins, txs[t][i]) is Some,
{
    lemma_needed_contains(txs, t, i);
    let needed = needed_outpoints(txs);
    let j = choose|j: int| 0 <= j < needed.len() && needed[j] == txs[t][i];
    assert(coins.map_values(|c: (OutPoint, Seq<u8>)| c.0)[j] == coins[j].0);
    lemma_script_for_found(coins, txs[t][i], j);
}

} // verus!
