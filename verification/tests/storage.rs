use ergvein_rusty::height::{filters_height_from_stored, height_value};
use ergvein_rusty::store::{collect_filters, height_key_bytes, plan_store_filter, BlockHash};

fn hash(b: u8) -> BlockHash {
    [b; 32]
}

#[test]
fn height_value_is_big_endian() {
    assert_eq!(height_value(0x0102_0304), [1, 2, 3, 4]);
    assert_eq!(height_value(0), [0, 0, 0, 0]);
    assert_eq!(height_value(u32::MAX), [255, 255, 255, 255]);
}

#[test]
fn absent_height_entry_means_zero() {
    assert_eq!(filters_height_from_stored(&None), 0);
}

#[test]
fn stored_height_is_read_big_endian_from_first_four_bytes() {
    assert_eq!(filters_height_from_stored(&Some(vec![0, 0, 1, 0])), 256);
    assert_eq!(filters_height_from_stored(&Some(vec![0, 0, 0, 7, 99, 99])), 7);
}

#[test]
fn height_roundtrip() {
    for h in [0u32, 1, 255, 256, 680_000, u32::MAX] {
        assert_eq!(filters_height_from_stored(&Some(height_value(h).to_vec())), h);
    }
}

#[test]
fn height_key_is_ascii_height() {
    assert_eq!(height_key_bytes(), b"height".to_vec());
}

#[test]
fn first_filter_also_records_height() {
    let puts = plan_store_filter(&None, &hash(7), 5, vec![1, 2, 3]);
    assert_eq!(puts.len(), 2);
    assert_eq!(puts[0].key, vec![7u8; 32]);
    assert_eq!(puts[0].value, vec![1, 2, 3]);
    assert_eq!(puts[1].key, b"height".to_vec());
    assert_eq!(puts[1].value, vec![0, 0, 0, 5]);
}

#[test]
fn lower_or_equal_height_keeps_recorded_height() {
    let current = Some(height_value(10).to_vec());
    let puts = plan_store_filter(&current, &hash(1), 5, vec![9]);
    assert_eq!(puts.len(), 1);
    assert_eq!(puts[0].key, vec![1u8; 32]);
    assert_eq!(puts[0].value, vec![9]);
    let puts = plan_store_filter(&current, &hash(1), 10, vec![9]);
    assert_eq!(puts.len(), 1);
}

#[test]
fn higher_height_is_recorded() {
    let current = Some(height_value(10).to_vec());
    let puts = plan_store_filter(&current, &hash(2), 11, vec![]);
    assert_eq!(puts.len(), 2);
    assert_eq!(puts[1].value, vec![0, 0, 0, 11]);
}

#[test]
fn store_then_read_gives_the_filter_back() {
    // A column family modelled by a vector of entries, written by the batch.
    let mut cf: Vec<(Vec<u8>, Vec<u8>)> = Vec::new();
    for (h, b) in [(1u32, 1u8), (2, 2), (3, 3)] {
        let current = cf.iter().find(|(k, _)| k == b"height").map(|(_, v)| v.clone());
        for put in plan_store_filter(&current, &hash(b), h, vec![b, b]) {
            cf.retain(|(k, _)| *k != put.key);
            cf.push((put.key, put.value));
        }
    }
    let get = |k: &[u8]| cf.iter().find(|(key, _)| key == k).map(|(_, v)| v.clone());
    assert_eq!(filters_height_from_stored(&get(b"height")), 3);
    let lookups = vec![
        (Some(hash(1)), get(&hash(1))),
        (None, None),
        (Some(hash(3)), get(&hash(3))),
        (Some(hash(9)), get(&hash(9))),
    ];
    let read = collect_filters(lookups);
    assert_eq!(read, vec![(hash(1), vec![1, 1]), (hash(3), vec![3, 3])]);
}

#[test]
fn collect_keeps_only_found_pairs_in_order() {
    let lookups = vec![
        (Some(hash(4)), Some(vec![4])),
        (Some(hash(5)), None),
        (None, Some(vec![6])),
        (Some(hash(7)), Some(vec![7])),
    ];
    assert_eq!(collect_filters(lookups), vec![(hash(4), vec![4]), (hash(7), vec![7])]);
    assert_eq!(collect_filters(vec![]), vec![]);
}
