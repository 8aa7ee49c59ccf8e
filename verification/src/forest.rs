//! The forest-car envelope: the zstd skippable-frame marker that carries an
//! embedded index, the managed-directory file suffixes, and the
//! self-consistency check of an embedded index.
//!
//! A forest car is a zstd-skippable frame holding a serialized index,
//! followed by zstd frames whose concatenated decompression is a CARv1
//! stream. Compression itself is a collaborator's work; what the engine
//! owns is the framing and the checks.

use vstd::prelude::*;

verus! {

use crate::cids::Cid;
use crate::plain::CompressedBlockDataLocation;

/// The 8-byte header of a zstd skippable frame: the magic
/// `50 2a 4d 18`, then the payload length as a little-endian 32-bit value.
pub open spec fn skip_frame_header_bytes(data_len: u32) -> Seq<u8> {
    seq![
        0x50u8,
        0x2a,
        0x4d,
        0x18,
        (data_len % 0x100) as u8,
        ((data_len / 0x100) % 0x100) as u8,
        ((data_len / 0x1_0000) % 0x100) as u8,
        ((data_len / 0x100_0000) % 0x100) as u8,
    ]
}

/// Appends the header of a zstd skippable frame of `data_len` payload
/// bytes.
pub fn write_skip_frame_header(out: &mut Vec<u8>, data_len: u32)
    ensures
        final(out)@ == old(out)@ + skip_frame_header_bytes(data_len),
{
    let ghost before = out@;
    out.push(0x50);
    out.push(0x2a);
    out.push(0x4d);
    out.push(0x18);
    out.push((data_len % 0x100) as u8);
    out.push(((data_len / 0x100) % 0x100) as u8);
    out.push(((data_len / 0x1_0000) % 0x100) as u8);
    out.push(((data_len / 0x100_0000) % 0x100) as u8);
    proof {
        assert(out@ =~= before + skip_frame_header_bytes(data_len));
    }
}


/// A stream that begins with a freshly written skippable-frame header is
/// recognized by the prefix check, whatever follows.
pub proof fn lemma_skip_frame_header_recognized(data_len: u32, rest: Seq<u8>)
    ensures
        has_skippable_prefix(skip_frame_header_bytes(data_len) + rest),
{
    let s = skip_frame_header_bytes(data_len) + rest;
    assert(s[0] == 0x50);
    assert(s[1] == 0x2a);
    assert(s[2] == 0x4d);
    assert(s[3] == 0x18);
}

/// `s` begins with the zstd skippable-frame magic. Opening a forest car
/// checks this before trusting the embedded index.
pub open spec fn has_skippable_prefix(s: Seq<u8>) -> bool {
    &&& s.len() >= 8
    &&& s[0] == 0x50
    &&& s[1] == 0x2a
    &&& s[2] == 0x4d
    &&& s[3] == 0x18
}

/// Whether the file image begins with a zstd skippable frame header.
pub fn starts_with_skippable_frame(bytes: &[u8]) -> (r: bool)
    ensures
        r == has_skippable_prefix(bytes@),
{
    bytes.len() >= 8 && bytes[0] == 0x50 && bytes[1] == 0x2a && bytes[2] == 0x4d && bytes[3]
        == 0x18
}

/// `name` ends in `.forest.car.zst`, the suffix of a live archive in the
/// managed directory.
pub open spec fn has_forest_car_ext(name: Seq<u8>) -> bool {
    let l = name.len() as int;
    &&& l >= 15
    &&& name[l - 15] == 0x2eu8
    &&& name[l - 14] == 0x66u8
    &&& name[l - 13] == 0x6fu8
    &&& name[l - 12] == 0x72u8
    &&& name[l - 11] == 0x65u8
    &&& name[l - 10] == 0x73u8
    &&& name[l - 9] == 0x74u8
    &&& name[l - 8] == 0x2eu8
    &&& name[l - 7] == 0x63u8
    &&& name[l - 6] == 0x61u8
    &&& name[l - 5] == 0x72u8
    &&& name[l - 4] == 0x2eu8
    &&& name[l - 3] == 0x7au8
    &&& name[l - 2] == 0x73u8
    &&& name[l - 1] == 0x74u8
}

/// `name` ends in `.forest.car.zst.tmp`, the suffix of an in-progress
/// write that a boot-time sweep may delete.
pub open spec fn has_temp_forest_car_ext(name: Seq<u8>) -> bool {
    let l = name.len() as int;
    &&& l >= 19
    &&& has_forest_car_ext(name.take(l - 4))
    &&& name[l - 4] == 0x2eu8
    &&& name[l - 3] == 0x74u8
    &&& name[l - 2] == 0x6du8
    &&& name[l - 1] == 0x70u8
}

/// Whether a file name (as bytes) ends in `.forest.car.zst`.
pub fn is_forest_car_name(name: &[u8]) -> (r: bool)
    ensures
        r == has_forest_car_ext(name@),
{
    let l = name.len();
    l >= 15 && name[l - 15] == 0x2e && name[l - 14] == 0x66 && name[l - 13] == 0x6f && name[l - 12]
        == 0x72 && name[l - 11] == 0x65 && name[l - 10] == 0x73 && name[l - 9] == 0x74 && name[l
        - 8] == 0x2e && name[l - 7] == 0x63 && name[l - 6] == 0x61 && name[l - 5] == 0x72 && name[l
        - 4] == 0x2e && name[l - 3] == 0x7a && name[l - 2] == 0x73 && name[l - 1] == 0x74
}

/// Whether a file name (as bytes) ends in `.forest.car.zst.tmp`.
pub fn is_temp_forest_car_name(name: &[u8]) -> (r: bool)
    ensures
        r == has_temp_forest_car_ext(name@),
{
    let l = name.len();
    if l < 19 {
        return false;
    }
    if !(name[l - 4] == 0x2e && name[l - 3] == 0x74 && name[l - 2] == 0x6d && name[l - 1] == 0x70) {
        return false;
    }
    let head = &name[0..l - 4];
    proof {
        assert(head@ == name@.take(l - 4));
    }
    is_forest_car_name(head)
}

/// Whether every entry of an embedded forest-car index points at a zstd
/// frame inside a file of `file_len` bytes: the self-consistency check an
/// opened forest car makes before trusting its index.
pub fn locations_within(entries: &Vec<(Cid, CompressedBlockDataLocation)>, file_len: u64) -> (r:
    bool)
    ensures
        r == forall|i: int|
            0 <= i < entries@.len() ==> (#[trigger] entries@[i]).1.zstd_frame_offset < file_len,
{
    let n = entries.len();
    for i in 0..n
        invariant
            n == entries@.len(),
            forall|m: int| 0 <= m < i ==> (#[trigger] entries@[m]).1.zstd_frame_offset < file_len,
    {
        if entries[i].1.zstd_frame_offset >= file_len {
            return false;
        }
    }
    true
}

} // verus!
