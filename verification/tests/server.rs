use bytes::BytesMut;
use ergvein_rusty::codec::{MessageCodec, PartialParse};
use ergvein_rusty::explorer::{actual_height_url, discrepancy_exceeded, explorer_url};
use ergvein_rusty::fee::{BtcFee, FeesCache};
use ergvein_rusty::logic::{
    build_client_version_message, build_version_message, filters_response, is_supported_currency,
    plan_filters_reply, serve_outcome, FiltersReply, Handshake, HandshakeEvent,
};
use ergvein_rusty::protocol::{Currency, GetFiltersRequest, IndexerError, Version, MAX_FILTERS_REQ};
use ergvein_rusty::sync::{filters_height_changed, restart_after, SyncEnd};

const OWN: [u8; 8] = [1, 2, 3, 4, 5, 6, 7, 8];
const V: Version = Version { major: 1, minor: 0, patch: 0 };

fn version(nonce: [u8; 8], compatible: bool) -> HandshakeEvent {
    HandshakeEvent::Version { version: V, nonce, compatible }
}

fn run(events: Vec<HandshakeEvent>) -> Result<usize, IndexerError> {
    let mut s = Handshake::new();
    let mut used = 0;
    for ev in events {
        if s.is_done() {
            break;
        }
        s = s.step(&OWN, ev)?;
        used += 1;
    }
    assert!(s.is_done());
    Ok(used)
}

#[test]
fn handshake_completes_in_either_order() {
    assert_eq!(run(vec![version([9; 8], true), HandshakeEvent::VersionAck]), Ok(2));
    assert_eq!(run(vec![HandshakeEvent::VersionAck, version([9; 8], true), HandshakeEvent::Other]), Ok(2));
}

#[test]
fn handshake_errors() {
    let s = Handshake::new();
    assert_eq!(s.step(&OWN, HandshakeEvent::Timeout), Err(IndexerError::HandshakeTimeout));
    assert_eq!(s.step(&OWN, HandshakeEvent::Closed), Err(IndexerError::HandshakeRecv));
    assert_eq!(s.step(&OWN, HandshakeEvent::Other), Err(IndexerError::HandshakeViolation));
    assert_eq!(s.step(&OWN, version([9; 8], false)), Err(IndexerError::NotCompatible(V)));
    assert_eq!(s.step(&OWN, version(OWN, true)), Err(IndexerError::HandshakeNonceIdentical));
    // Compatibility is checked before the nonce.
    assert_eq!(s.step(&OWN, version(OWN, false)), Err(IndexerError::NotCompatible(V)));
}

#[test]
fn other_message_before_completion_is_a_violation() {
    let s = Handshake::new().step(&OWN, version([9; 8], true)).unwrap();
    assert!(!s.is_done());
    assert_eq!(s.step(&OWN, HandshakeEvent::Other), Err(IndexerError::HandshakeViolation));
}

#[test]
fn version_message_reports_heights() {
    let m = build_version_message(V, 1_600_000_000, OWN, 680_000, 680_010);
    assert_eq!(m.version, V);
    assert_eq!(m.time, 1_600_000_000);
    assert_eq!(m.nonce, OWN);
    assert_eq!(m.scan_blocks.len(), 1);
    let sb = m.scan_blocks[0];
    assert_eq!(sb.currency, Currency::Btc);
    assert_eq!(sb.version, Version { major: 1, minor: 0, patch: 0 });
    assert_eq!(sb.scan_height, 680_000);
    assert_eq!(sb.height, 680_010);
    let c = build_client_version_message(V, 5, OWN);
    assert!(c.scan_blocks.is_empty());
    assert_eq!(c.time, 5);
}

#[test]
fn only_bitcoin_is_supported() {
    assert!(is_supported_currency(&Currency::Btc));
    assert!(!is_supported_currency(&Currency::Other(2)));
}

#[test]
fn unsupported_currency_is_rejected() {
    let req = GetFiltersRequest { currency: Currency::Other(3), start: 0, amount: 10 };
    match plan_filters_reply(&req, 100) {
        FiltersReply::Reject { currency } => assert_eq!(currency, Currency::Other(3)),
        _ => panic!("expected a reject"),
    }
}

#[test]
fn start_above_height_gets_no_filters() {
    let req = GetFiltersRequest { currency: Currency::Btc, start: 101, amount: 10 };
    match plan_filters_reply(&req, 100) {
        FiltersReply::Empty { currency } => assert_eq!(currency, Currency::Btc),
        _ => panic!("expected an empty answer"),
    }
}

#[test]
fn amount_is_capped() {
    let req = GetFiltersRequest { currency: Currency::Btc, start: 100, amount: 5000 };
    match plan_filters_reply(&req, 100) {
        FiltersReply::Read { start, amount, .. } => {
            assert_eq!(start, 100);
            assert_eq!(amount, MAX_FILTERS_REQ);
        }
        _ => panic!("expected a read"),
    }
    let req = GetFiltersRequest { currency: Currency::Btc, start: 3, amount: 7 };
    match plan_filters_reply(&req, 100) {
        FiltersReply::Read { start, amount, .. } => {
            assert_eq!(start, 3);
            assert_eq!(amount, 7);
        }
        _ => panic!("expected a read"),
    }
}

#[test]
fn filters_response_keeps_order() {
    let r = filters_response(Currency::Btc, vec![([1; 32], vec![10]), ([2; 32], vec![20, 21])]);
    assert_eq!(r.currency, Currency::Btc);
    assert_eq!(r.filters.len(), 2);
    assert_eq!(r.filters[0].block_id, vec![1u8; 32]);
    assert_eq!(r.filters[0].filter, vec![10]);
    assert_eq!(r.filters[1].block_id, vec![2u8; 32]);
    assert_eq!(r.filters[1].filter, vec![20, 21]);
}

fn parse_len_prefixed(s: &[u8]) -> PartialParse<Vec<u8>, String> {
    let n = s[0] as usize;
    if n == 0 {
        PartialParse::Invalid("empty message".to_string())
    } else if s.len() < 1 + n {
        PartialParse::Incomplete
    } else {
        PartialParse::Parsed(s[1..1 + n].to_vec(), 1 + n)
    }
}

#[test]
fn decode_empty_buffer_yields_nothing() {
    let mut codec = MessageCodec::default();
    let mut buf = BytesMut::new();
    assert_eq!(codec.decode(&mut buf, parse_len_prefixed), Ok(None));
}

#[test]
fn decode_takes_message_from_front() {
    let mut codec = MessageCodec::default();
    let mut buf = BytesMut::from(&[2u8, 7, 8, 3, 1][..]);
    assert_eq!(codec.decode(&mut buf, parse_len_prefixed), Ok(Some(vec![7, 8])));
    assert_eq!(&buf[..], &[3, 1]);
    assert_eq!(codec.decode(&mut buf, parse_len_prefixed), Ok(None));
    assert_eq!(&buf[..], &[3, 1]);
    let mut bad = BytesMut::from(&[0u8, 1][..]);
    assert_eq!(codec.decode(&mut bad, parse_len_prefixed), Err("empty message".to_string()));
    assert_eq!(&bad[..], &[0, 1]);
}

#[test]
fn encode_appends() {
    let mut codec = MessageCodec::default();
    let mut buf = BytesMut::from(&[1u8][..]);
    codec.encode(&[2, 3], &mut buf);
    assert_eq!(&buf[..], &[1, 2, 3]);
    codec.encode(&[2, 5, 6], &mut buf);
    assert_eq!(codec.decode(&mut buf, parse_len_prefixed), Ok(Some(vec![2])));
}

#[test]
fn fees_default_and_update() {
    let mut cache = FeesCache::default();
    assert_eq!(cache.btc.fastest_fee, 0);
    assert_eq!(cache.btc.half_hour_fee, 0);
    assert_eq!(cache.btc.hour_fee, 0);
    let fee = BtcFee { fastest_fee: 30, half_hour_fee: 20, hour_fee: 10 };
    cache.apply_response(Some(fee));
    assert_eq!(cache.btc.fastest_fee, 30);
    cache.apply_response(None);
    assert_eq!(cache.btc.half_hour_fee, 20);
    assert_eq!(cache.btc.hour_fee, 10);
    let d = BtcFee::default();
    assert_eq!((d.fastest_fee, d.half_hour_fee, d.hour_fee), (0, 0, 0));
}

#[test]
fn explorer_addresses() {
    assert_eq!(explorer_url(false, "x"), "https://blockstream.info/x");
    assert_eq!(explorer_url(true, "x"), "https://blockstream.info/testnet/x");
    assert_eq!(actual_height_url(false), "https://blockstream.info/api/blocks/tip/height");
    assert_eq!(actual_height_url(true), "https://blockstream.info/testnet/api/blocks/tip/height");
}

#[test]
fn discrepancy_threshold() {
    assert!(!discrepancy_exceeded(104, 100));
    assert!(discrepancy_exceeded(105, 100));
    assert!(!discrepancy_exceeded(90, 100));
}

#[test]
fn sync_restart_decisions() {
    assert!(restart_after(SyncEnd::DiscrepancyDetected));
    assert!(restart_after(SyncEnd::Failed));
    assert!(!restart_after(SyncEnd::Aborted));
    assert!(!restart_after(SyncEnd::Finished));
}

#[test]
fn height_change_detection() {
    assert_eq!(filters_height_changed(5, 5), None);
    assert_eq!(filters_height_changed(5, 6), Some(6));
    assert_eq!(filters_height_changed(5, 4), Some(4));
}

#[test]
fn reject_ends_serving_with_the_currency() {
    let reply = plan_filters_reply(&GetFiltersRequest { currency: Currency::Other(4), start: 0, amount: 1 }, 10);
    assert_eq!(serve_outcome(&reply), Err(IndexerError::NotSupportedCurrency(Currency::Other(4))));
    let reply = plan_filters_reply(&GetFiltersRequest { currency: Currency::Btc, start: 0, amount: 1 }, 10);
    assert_eq!(serve_outcome(&reply), Ok(()));
}
