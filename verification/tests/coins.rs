use ergvein_rusty::coin::{coin_script, FilterCoin};
use ergvein_rusty::inputs::{is_coin_base, lookup_script, outpoint_eq, outpoints_to_resolve, OutPoint, TxInputs};

fn op(b: u8, vout: u32) -> OutPoint {
    OutPoint { txid: [b; 32], vout }
}

fn null() -> OutPoint {
    OutPoint { txid: [0; 32], vout: u32::MAX }
}

#[test]
fn coin_script_returns_the_script() {
    let c = FilterCoin { script: vec![0x76, 0xa9, 0x14] };
    assert_eq!(coin_script(&c), vec![0x76, 0xa9, 0x14]);
}

#[test]
fn new_utxo_takes_the_script_of_the_output() {
    let scripts = vec![vec![1], vec![2, 2], vec![3]];
    assert_eq!(FilterCoin::new_utxo(&scripts, 1).script, vec![2, 2]);
}

#[test]
fn encode_short_script() {
    let c = FilterCoin { script: vec![0xaa, 0xbb, 0xcc] };
    assert_eq!(c.consensus_encode(), vec![3, 0xaa, 0xbb, 0xcc]);
    let empty = FilterCoin { script: vec![] };
    assert_eq!(empty.consensus_encode(), vec![0]);
}

#[test]
fn encode_uses_compact_size_prefixes() {
    let c = FilterCoin { script: vec![7; 252] };
    assert_eq!(c.consensus_encode()[0], 252);
    let c = FilterCoin { script: vec![7; 253] };
    let enc = c.consensus_encode();
    assert_eq!(&enc[..3], &[0xFD, 0xFD, 0x00]);
    assert_eq!(enc.len(), 256);
    let c = FilterCoin { script: vec![1; 0x10000] };
    let enc = c.consensus_encode();
    assert_eq!(&enc[..5], &[0xFE, 0x00, 0x00, 0x01, 0x00]);
}

#[test]
fn decode_roundtrip_with_trailing_bytes() {
    for len in [0usize, 1, 252, 253, 300, 0x10000] {
        let c = FilterCoin { script: (0..len).map(|i| i as u8).collect() };
        let mut enc = c.consensus_encode();
        let n = enc.len();
        enc.extend_from_slice(&[9, 9, 9]);
        match FilterCoin::consensus_decode(&enc) {
            Ok((d, used)) => {
                assert_eq!(d.script, c.script);
                assert_eq!(used, n);
            }
            Err(_) => panic!("decoding failed"),
        }
    }
}

#[test]
fn decode_rejects_truncated_and_non_minimal() {
    assert!(FilterCoin::consensus_decode(&[]).is_err());
    assert!(FilterCoin::consensus_decode(&[3, 1, 2]).is_err());
    assert!(FilterCoin::consensus_decode(&[0xFD, 0x01]).is_err());
    // 1 written with three bytes is not the shortest encoding.
    assert!(FilterCoin::consensus_decode(&[0xFD, 0x01, 0x00, 0xaa]).is_err());
}

#[test]
fn decode_rejects_oversized_length() {
    // 4_000_001 = 0x003D0901
    let data = [0xFE, 0x01, 0x09, 0x3D, 0x00];
    assert!(FilterCoin::consensus_decode(&data).is_err());
}

#[test]
fn coinbase_detection() {
    assert!(is_coin_base(&TxInputs { prevouts: vec![null()] }));
    assert!(!is_coin_base(&TxInputs { prevouts: vec![null(), op(1, 0)] }));
    assert!(!is_coin_base(&TxInputs { prevouts: vec![op(0, 0)] }));
    assert!(!is_coin_base(&TxInputs { prevouts: vec![op(1, u32::MAX)] }));
    assert!(!is_coin_base(&TxInputs { prevouts: vec![] }));
}

#[test]
fn coinbase_inputs_are_not_resolved() {
    let txs = vec![
        TxInputs { prevouts: vec![null()] },
        TxInputs { prevouts: vec![op(1, 0), op(2, 1)] },
        TxInputs { prevouts: vec![op(3, 5)] },
    ];
    let res = outpoints_to_resolve(&txs);
    assert_eq!(res.len(), 3);
    assert!(outpoint_eq(&res[0], &op(1, 0)));
    assert!(outpoint_eq(&res[1], &op(2, 1)));
    assert!(outpoint_eq(&res[2], &op(3, 5)));
}

#[test]
fn lookup_finds_latest_coin_or_reports_missing() {
    let coins = vec![(op(1, 0), vec![1]), (op(2, 0), vec![2]), (op(1, 0), vec![3])];
    assert_eq!(lookup_script(&coins, &op(1, 0)).ok(), Some(vec![3]));
    assert_eq!(lookup_script(&coins, &op(2, 0)).ok(), Some(vec![2]));
    match lookup_script(&coins, &op(2, 1)) {
        Err(missing) => assert!(outpoint_eq(&missing, &op(2, 1))),
        Ok(_) => panic!("found a coin that was not gathered"),
    }
}

#[test]
fn outpoint_equality() {
    assert!(outpoint_eq(&op(1, 2), &op(1, 2)));
    assert!(!outpoint_eq(&op(1, 2), &op(1, 3)));
    let mut other = op(1, 2);
    other.txid[31] = 0;
    assert!(!outpoint_eq(&op(1, 2), &other));
}

#[test]
fn resolved_coins_cover_every_spent_output() {
    let txs = vec![
        TxInputs { prevouts: vec![null()] },
        TxInputs { prevouts: vec![op(1, 0), op(2, 1)] },
        TxInputs { prevouts: vec![op(3, 5), op(1, 0)] },
    ];
    let coins: Vec<(OutPoint, Vec<u8>)> = outpoints_to_resolve(&txs)
        .into_iter()
        .map(|o| (o, vec![o.txid[0], o.vout as u8]))
        .collect();
    for tx in txs.iter().skip(1) {
        for p in &tx.prevouts {
            assert_eq!(lookup_script(&coins, p).ok(), Some(vec![p.txid[0], p.vout as u8]));
        }
    }
}
