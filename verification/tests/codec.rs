//! Tests of the frame codec: varints, the CARv2 header probe, the CARv1
//! header body, and the forest-car envelope helpers.

use forest_car::error::CarError;
use forest_car::forest::{
    is_forest_car_name, is_temp_forest_car_name, locations_within, starts_with_skippable_frame,
    write_skip_frame_header,
};
use forest_car::cids::Cid;
use forest_car::header::{decode_v1_header, read_v2_header};
use forest_car::plain::{CompressedBlockDataLocation, UncompressedBlockDataLocation};
use forest_car::varint::{read_varint_u32, read_varint_u64};

#[test]
fn varint_decodes_single_and_multi_byte_values() {
    assert_eq!(read_varint_u64(&[0x00], 0), Ok((0, 1)));
    assert_eq!(read_varint_u64(&[0x7f], 0), Ok((127, 1)));
    assert_eq!(read_varint_u64(&[0x80, 0x01], 0), Ok((128, 2)));
    assert_eq!(read_varint_u64(&[0xac, 0x02], 0), Ok((300, 2)));
    assert_eq!(
        read_varint_u64(
            &[0xff, 0xff, 0xff, 0xff, 0xff, 0xff, 0xff, 0xff, 0xff, 0x01],
            0
        ),
        Ok((u64::MAX, 10))
    );
    // An unterminated varint is malformed.
    assert_eq!(read_varint_u64(&[0x80], 0), Err(CarError::InvalidData));
    // A value beyond 64 bits is rejected.
    assert_eq!(
        read_varint_u64(
            &[0xff, 0xff, 0xff, 0xff, 0xff, 0xff, 0xff, 0xff, 0xff, 0x02],
            0
        ),
        Err(CarError::InvalidData)
    );
}

#[test]
fn varint_u32_rejects_what_overflows_a_length_field() {
    assert_eq!(
        read_varint_u32(&[0xff, 0xff, 0xff, 0xff, 0x0f], 0),
        Ok((u32::MAX, 5))
    );
    assert_eq!(
        read_varint_u32(&[0x80, 0x80, 0x80, 0x80, 0x10], 0),
        Err(CarError::InvalidData)
    );
}

#[test]
fn v2_header_probe_reads_the_fixed_layout() {
    let mut bytes = vec![10, 0xa1, 0x67, 0x76, 0x65, 0x72, 0x73, 0x69, 0x6f, 0x6e, 0x02];
    bytes.extend_from_slice(&[7u8; 16]);
    bytes.extend_from_slice(&51i64.to_le_bytes());
    bytes.extend_from_slice(&1000i64.to_le_bytes());
    bytes.extend_from_slice(&1051i64.to_le_bytes());
    let header = read_v2_header(&bytes).unwrap().unwrap();
    assert_eq!(header.characteristics, vec![7u8; 16]);
    assert_eq!(header.data_offset, 51);
    assert_eq!(header.data_size, 1000);
    assert_eq!(header.index_offset, 1051);
}

#[test]
fn v2_header_with_a_negative_offset_is_malformed() {
    // Any of the three signed offsets decoding negative is rejected.
    for slot in 0..3 {
        let mut offsets = [51i64, 1000, 1051];
        offsets[slot] = -1;
        let mut bytes = vec![10, 0xa1, 0x67, 0x76, 0x65, 0x72, 0x73, 0x69, 0x6f, 0x6e, 0x02];
        bytes.extend_from_slice(&[0u8; 16]);
        for o in offsets {
            bytes.extend_from_slice(&o.to_le_bytes());
        }
        assert_eq!(read_v2_header(&bytes).unwrap_err(), CarError::InvalidData);
    }
}

#[test]
fn v2_header_probe_passes_other_streams_through() {
    // Not the pragma length byte: a CARv1 header frame starts here.
    assert!(read_v2_header(&[0x19, 0xa2]).unwrap().is_none());
    // The length byte fits but the blob differs.
    let bytes = vec![10, 0xa1, 0x67, 0x76, 0x65, 0x72, 0x73, 0x69, 0x6f, 0x6e, 0x03];
    assert!(read_v2_header(&bytes).unwrap().is_none());
    // The pragma begins but the stream ends inside the header.
    let bytes = vec![10, 0xa1, 0x67, 0x76, 0x65, 0x72, 0x73, 0x69, 0x6f, 0x6e, 0x02, 0x00];
    assert_eq!(read_v2_header(&bytes).unwrap_err(), CarError::InvalidData);
}

#[test]
fn v1_header_decodes_in_either_field_order() {
    // {"roots": [tag42(0x00 ++ cid)], "version": 1}
    let cid = [0x01u8, 0x55, 0x00, 0x04, 9, 9, 9, 9];
    let mut roots_first = vec![0xa2, 0x65];
    roots_first.extend_from_slice(b"roots");
    roots_first.extend_from_slice(&[0x81, 0xd8, 0x2a, 0x49, 0x00]);
    roots_first.extend_from_slice(&cid);
    roots_first.push(0x67);
    roots_first.extend_from_slice(b"version");
    roots_first.push(0x01);
    let h = decode_v1_header(&roots_first).unwrap();
    assert_eq!(h.version, 1);
    assert_eq!(h.roots.len(), 1);
    assert_eq!(h.roots[0], Cid::from_bytes(cid.to_vec()));

    let mut version_first = vec![0xa2, 0x67];
    version_first.extend_from_slice(b"version");
    version_first.push(0x01);
    version_first.push(0x65);
    version_first.extend_from_slice(b"roots");
    version_first.extend_from_slice(&[0x81, 0xd8, 0x2a, 0x49, 0x00]);
    version_first.extend_from_slice(&cid);
    let h = decode_v1_header(&version_first).unwrap();
    assert_eq!(h.version, 1);
    assert_eq!(h.roots.len(), 1);
}

#[test]
fn v1_header_rejects_trailing_bytes() {
    let cid = [0x01u8, 0x55, 0x00, 0x04, 9, 9, 9, 9];
    let mut body = vec![0xa2, 0x65];
    body.extend_from_slice(b"roots");
    body.extend_from_slice(&[0x81, 0xd8, 0x2a, 0x49, 0x00]);
    body.extend_from_slice(&cid);
    body.push(0x67);
    body.extend_from_slice(b"version");
    body.push(0x01);
    body.push(0x00);
    assert_eq!(decode_v1_header(&body).unwrap_err(), CarError::InvalidData);
}

#[test]
fn skip_frame_header_is_magic_then_length() {
    let mut out = Vec::new();
    write_skip_frame_header(&mut out, 0x0102_0304);
    assert_eq!(out, vec![0x50, 0x2a, 0x4d, 0x18, 0x04, 0x03, 0x02, 0x01]);
    assert!(starts_with_skippable_frame(&out));
    assert!(!starts_with_skippable_frame(&[0x50, 0x2a, 0x4d]));
    assert!(!starts_with_skippable_frame(&[0u8; 8]));
}

#[test]
fn forest_car_names_are_recognized_by_suffix() {
    assert!(is_forest_car_name(b"1712345678901.forest.car.zst"));
    assert!(!is_forest_car_name(b"1712345678901.forest.car.zst.tmp"));
    assert!(!is_forest_car_name(b"archive.car"));
    assert!(is_temp_forest_car_name(b"1712345678901.forest.car.zst.tmp"));
    assert!(!is_temp_forest_car_name(b"1712345678901.forest.car.zst"));
    assert!(!is_temp_forest_car_name(b".tmp"));
}

#[test]
fn embedded_index_locations_are_checked_against_the_file_length() {
    let loc = |off: u64| CompressedBlockDataLocation {
        zstd_frame_offset: off,
        location_in_frame: UncompressedBlockDataLocation {
            offset: 0,
            length: 10,
        },
    };
    let entries = vec![
        (Cid::from_bytes(vec![1]), loc(8)),
        (Cid::from_bytes(vec![2]), loc(99)),
    ];
    assert!(locations_within(&entries, 100));
    assert!(!locations_within(&entries, 99));
}
