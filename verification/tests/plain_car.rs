//! Tests of the plain CAR blockstore over synthesized archive images.

use forest_car::error::CarError;
use forest_car::cids::Cid;
use forest_car::plain::PlainCar;

/// A small CID: CIDv1, raw codec, identity multihash over four bytes.
fn cid_bytes(tag: u8) -> Vec<u8> {
    vec![0x01, 0x55, 0x00, 0x04, tag, tag, tag, tag]
}

/// The dag-cbor body of a CARv1 header with the given roots and version.
fn header_body(roots: &[Vec<u8>], version: u8) -> Vec<u8> {
    let mut body = vec![0xa2];
    body.push(0x65);
    body.extend_from_slice(b"roots");
    assert!(roots.len() < 24);
    body.push(0x80 + roots.len() as u8);
    for root in roots {
        body.push(0xd8);
        body.push(0x2a);
        assert!(root.len() + 1 < 24);
        body.push(0x40 + (root.len() + 1) as u8);
        body.push(0x00);
        body.extend_from_slice(root);
    }
    body.push(0x67);
    body.extend_from_slice(b"version");
    assert!(version < 24);
    body.push(version);
    body
}

/// A whole varint frame: the body length (always short here), then the body.
fn frame(body: &[u8]) -> Vec<u8> {
    assert!(body.len() < 128);
    let mut f = vec![body.len() as u8];
    f.extend_from_slice(body);
    f
}

/// A CARv1 image with one root and the given blocks.
fn car_v1(blocks: &[(Vec<u8>, Vec<u8>)]) -> Vec<u8> {
    let root = cid_bytes(0xaa);
    let mut car = frame(&header_body(&[root], 1));
    for (cid, data) in blocks {
        let mut body = cid.clone();
        body.extend_from_slice(data);
        car.extend_from_slice(&frame(&body));
    }
    car
}

/// Wraps a CARv1 image in a CARv2 envelope.
fn car_v2(v1: &[u8]) -> Vec<u8> {
    let mut car = vec![10, 0xa1, 0x67, 0x76, 0x65, 0x72, 0x73, 0x69, 0x6f, 0x6e, 0x02];
    car.extend_from_slice(&[0u8; 16]);
    car.extend_from_slice(&51u64.to_le_bytes());
    car.extend_from_slice(&(v1.len() as u64).to_le_bytes());
    car.extend_from_slice(&0u64.to_le_bytes());
    car.extend_from_slice(v1);
    car
}

fn sample_blocks() -> Vec<(Vec<u8>, Vec<u8>)> {
    vec![
        (cid_bytes(1), b"first block".to_vec()),
        (cid_bytes(2), b"second".to_vec()),
        (cid_bytes(3), b"third block payload".to_vec()),
    ]
}

#[test]
fn test_uncompressed_v1() {
    let blocks = sample_blocks();
    let car = car_v1(&blocks);
    let mut car_backed = PlainCar::new(car).unwrap();

    assert_eq!(car_backed.version(), 1);
    assert_eq!(car_backed.roots().len(), 1);
    assert_eq!(car_backed.cids().len(), 3);

    for (cid, data) in &blocks {
        let actual = car_backed.get(&Cid::from_bytes(cid.clone()));
        assert_eq!(actual, Some(data.clone()));
    }
}

#[test]
fn test_uncompressed_v2() {
    let blocks = sample_blocks();
    let v1 = car_v1(&blocks);
    let car = car_v2(&v1);
    let mut car_backed = PlainCar::new(car).unwrap();

    assert_eq!(car_backed.version(), 2);
    assert_eq!(car_backed.roots().len(), 1);
    assert_eq!(car_backed.cids().len(), 3);

    for (cid, data) in &blocks {
        let actual = car_backed.get(&Cid::from_bytes(cid.clone()));
        assert_eq!(actual, Some(data.clone()));
    }
}

#[test]
fn absent_cid_reports_absent() {
    let car = car_v1(&sample_blocks());
    let mut car_backed = PlainCar::new(car).unwrap();
    assert_eq!(car_backed.get(&Cid::from_bytes(cid_bytes(0x77))), None);
}

#[test]
fn duplicate_cid_first_occurrence_wins() {
    let blocks = vec![
        (cid_bytes(1), b"the first".to_vec()),
        (cid_bytes(1), b"a repeat".to_vec()),
        (cid_bytes(2), b"other".to_vec()),
    ];
    let car = car_v1(&blocks);
    let mut car_backed = PlainCar::new(car).unwrap();
    assert_eq!(car_backed.cids().len(), 2);
    assert_eq!(
        car_backed.get(&Cid::from_bytes(cid_bytes(1))),
        Some(b"the first".to_vec())
    );
}

#[test]
fn empty_image_is_invalid() {
    assert_eq!(PlainCar::new(Vec::new()).unwrap_err(), CarError::InvalidData);
}

#[test]
fn zero_blocks_is_invalid() {
    let car = car_v1(&[]);
    assert_eq!(PlainCar::new(car).unwrap_err(), CarError::InvalidData);
}

#[test]
fn empty_roots_is_invalid() {
    let mut car = frame(&header_body(&[], 1));
    let mut body = cid_bytes(1);
    body.extend_from_slice(b"payload");
    car.extend_from_slice(&frame(&body));
    assert_eq!(PlainCar::new(car).unwrap_err(), CarError::InvalidData);
}

#[test]
fn other_version_is_unsupported() {
    let root = cid_bytes(0xaa);
    let mut car = frame(&header_body(&[root], 2));
    let mut body = cid_bytes(1);
    body.extend_from_slice(b"payload");
    car.extend_from_slice(&frame(&body));
    assert_eq!(
        PlainCar::new(car).unwrap_err(),
        CarError::UnsupportedCarVersion(2)
    );
}

#[test]
fn truncated_frame_is_invalid() {
    let mut car = car_v1(&sample_blocks());
    car.truncate(car.len() - 3);
    assert_eq!(PlainCar::new(car).unwrap_err(), CarError::InvalidData);
}

#[test]
fn negative_v2_index_offset_is_invalid() {
    let v1 = car_v1(&sample_blocks());
    let mut car = vec![10, 0xa1, 0x67, 0x76, 0x65, 0x72, 0x73, 0x69, 0x6f, 0x6e, 0x02];
    car.extend_from_slice(&[0u8; 16]);
    car.extend_from_slice(&51u64.to_le_bytes());
    car.extend_from_slice(&(v1.len() as u64).to_le_bytes());
    car.extend_from_slice(&(-1i64).to_le_bytes());
    car.extend_from_slice(&v1);
    assert_eq!(PlainCar::new(car).unwrap_err(), CarError::InvalidData);
}

#[test]
fn negative_v2_offset_is_invalid() {
    let v1 = car_v1(&sample_blocks());
    let mut car = vec![10, 0xa1, 0x67, 0x76, 0x65, 0x72, 0x73, 0x69, 0x6f, 0x6e, 0x02];
    car.extend_from_slice(&[0u8; 16]);
    car.extend_from_slice(&(-51i64).to_le_bytes());
    car.extend_from_slice(&(v1.len() as u64).to_le_bytes());
    car.extend_from_slice(&0u64.to_le_bytes());
    car.extend_from_slice(&v1);
    assert_eq!(PlainCar::new(car).unwrap_err(), CarError::InvalidData);
}

#[test]
fn write_cache_serves_new_blocks() {
    let car = car_v1(&sample_blocks());
    let mut car_backed = PlainCar::new(car).unwrap();
    let new_cid = Cid::from_bytes(cid_bytes(0x99));
    car_backed.put_keyed(&new_cid, b"fresh bytes");
    assert_eq!(
        car_backed.get(&Cid::from_bytes(cid_bytes(0x99))),
        Some(b"fresh bytes".to_vec())
    );
}

#[test]
fn put_keyed_twice_with_identical_bytes_is_a_no_op() {
    let car = car_v1(&sample_blocks());
    let mut car_backed = PlainCar::new(car).unwrap();
    let new_cid = Cid::from_bytes(cid_bytes(0x99));
    car_backed.put_keyed(&new_cid, b"fresh bytes");
    assert!(!car_backed.put_conflicts(&new_cid, b"fresh bytes"));
    car_backed.put_keyed(&new_cid, b"fresh bytes");
    assert_eq!(
        car_backed.get(&Cid::from_bytes(cid_bytes(0x99))),
        Some(b"fresh bytes".to_vec())
    );
}

#[test]
fn put_keyed_with_different_bytes_is_a_conflict() {
    let car = car_v1(&sample_blocks());
    let mut car_backed = PlainCar::new(car).unwrap();
    let new_cid = Cid::from_bytes(cid_bytes(0x99));
    car_backed.put_keyed(&new_cid, b"fresh bytes");
    // the corrupting second write: callers abort the process here
    assert!(car_backed.put_conflicts(&new_cid, b"other bytes"));
}

#[test]
fn put_keyed_of_an_indexed_cid_is_a_no_op() {
    let blocks = sample_blocks();
    let car = car_v1(&blocks);
    let mut car_backed = PlainCar::new(car).unwrap();
    let cid = Cid::from_bytes(blocks[0].0.clone());
    // not a conflict, and the on-disk bytes still win
    assert!(!car_backed.put_conflicts(&cid, b"anything at all"));
    car_backed.put_keyed(&cid, b"anything at all");
    assert_eq!(car_backed.get(&cid), Some(blocks[0].0.clone()).map(|_| blocks[0].1.clone()));
}

#[test]
fn heaviest_tipset_key_is_the_root_set() {
    let car = car_v1(&sample_blocks());
    let car_backed = PlainCar::new(car).unwrap();
    let key = car_backed.heaviest_tipset_key();
    assert_eq!(key.len(), 1);
    assert_eq!(key[0], Cid::from_bytes(cid_bytes(0xaa)));
}

#[test]
fn v2_data_size_limits_the_indexed_frames() {
    let blocks = sample_blocks();
    let v1 = car_v1(&blocks);
    // Count the first two block frames only.
    let third_len = 1 + cid_bytes(3).len() + b"third block payload".len();
    let limited = (v1.len() - third_len) as u64;
    let mut car = vec![10, 0xa1, 0x67, 0x76, 0x65, 0x72, 0x73, 0x69, 0x6f, 0x6e, 0x02];
    car.extend_from_slice(&[0u8; 16]);
    car.extend_from_slice(&51u64.to_le_bytes());
    car.extend_from_slice(&limited.to_le_bytes());
    car.extend_from_slice(&0u64.to_le_bytes());
    car.extend_from_slice(&v1);
    let mut car_backed = PlainCar::new(car).unwrap();
    assert_eq!(car_backed.version(), 2);
    assert_eq!(car_backed.cids().len(), 2);
    assert_eq!(car_backed.get(&Cid::from_bytes(cid_bytes(3))), None);
    assert_eq!(
        car_backed.get(&Cid::from_bytes(cid_bytes(2))),
        Some(b"second".to_vec())
    );
}

#[test]
fn header_with_extra_map_entries_is_invalid() {
    // {"roots": [...], "version": 1, "extra": 0} — three entries.
    let root = cid_bytes(0xaa);
    let mut body = vec![0xa3, 0x65];
    body.extend_from_slice(b"roots");
    body.extend_from_slice(&[0x81, 0xd8, 0x2a, 0x49, 0x00]);
    body.extend_from_slice(&root);
    body.push(0x67);
    body.extend_from_slice(b"version");
    body.push(0x01);
    body.push(0x65);
    body.extend_from_slice(b"extra");
    body.push(0x00);
    let mut car = frame(&body);
    let mut block = cid_bytes(1);
    block.extend_from_slice(b"payload");
    car.extend_from_slice(&frame(&block));
    assert_eq!(PlainCar::new(car).unwrap_err(), CarError::InvalidData);
}
