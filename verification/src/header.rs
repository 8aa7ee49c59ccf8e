//! CAR header frames: the CARv2 pragma and fixed-width header, and the
//! dag-cbor body of the CARv1 header frame.
//!
//! A CARv2 stream begins with an 11-byte pragma (a one-byte length prefix
//! and a fixed 10-byte dag-cbor blob meaning `{version: 2}`), followed by a
//! 40-byte header: 16 characteristic bytes and three little-endian signed
//! 64-bit integers. A CARv1 stream begins directly with its header frame,
//! whose body is a dag-cbor map with the fields `roots` (a non-empty array
//! of tagged CIDs) and `version`.

use vstd::prelude::*;

verus! {

use crate::cids::Cid;
use crate::error::CarError;

/// `s` begins with the one-byte length `10` and the fixed CARv2 pragma
/// `a1 67 76 65 72 73 69 6f 6e 02`.
pub open spec fn has_v2_pragma(s: Seq<u8>) -> bool {
    &&& s.len() >= 11
    &&& s[0] == 10
    &&& s[1] == 0xa1
    &&& s[2] == 0x67
    &&& s[3] == 0x76
    &&& s[4] == 0x65
    &&& s[5] == 0x72
    &&& s[6] == 0x73
    &&& s[7] == 0x69
    &&& s[8] == 0x6f
    &&& s[9] == 0x6e
    &&& s[10] == 0x02
}

/// The unsigned little-endian 64-bit value at `pos`.
pub open spec fn le64_at(s: Seq<u8>, pos: int) -> nat
    recommends
        0 <= pos,
        pos + 8 <= s.len(),
{
    (s[pos] + 0x100 * s[pos + 1] + 0x1_0000 * s[pos + 2] + 0x100_0000 * s[pos + 3]
        + 0x1_0000_0000 * s[pos + 4] + 0x100_0000_0000 * s[pos + 5] + 0x1_0000_0000_0000 * s[pos
        + 6] + 0x100_0000_0000_0000 * s[pos + 7]) as nat
}

/// The signed little-endian 64-bit value at `pos`, in two's complement.
pub open spec fn i64_le_at(s: Seq<u8>, pos: int) -> int {
    if le64_at(s, pos) < 0x8000_0000_0000_0000 {
        le64_at(s, pos) as int
    } else {
        le64_at(s, pos) - 0x1_0000_0000_0000_0000
    }
}

/// What probing a stream for the CARv2 pragma and header yields.
pub enum V2Scan {
    /// The stream does not open with the pragma; it may still be a CARv1.
    NoPragma,
    /// The stream opens with the pragma (or its first length byte) but ends
    /// before the header is complete.
    Truncated,
    /// The pragma is present but one of the three offsets is negative;
    /// the offsets are kept signed to match the wire format, and a
    /// negative value is malformed.
    Malformed,
    /// The pragma and the 40-byte header are present, with non-negative
    /// offsets.
    Header { data_offset: int, data_size: int, index_offset: int },
}

/// Probes the front of `s` for the CARv2 pragma and header.
pub open spec fn v2_scan(s: Seq<u8>) -> V2Scan {
    if s.len() < 1 {
        V2Scan::Truncated
    } else if s[0] != 10 {
        V2Scan::NoPragma
    } else if s.len() < 11 {
        V2Scan::Truncated
    } else if !has_v2_pragma(s) {
        V2Scan::NoPragma
    } else if s.len() < 51 {
        V2Scan::Truncated
    } else if i64_le_at(s, 27) < 0 || i64_le_at(s, 35) < 0 || i64_le_at(s, 43) < 0 {
        V2Scan::Malformed
    } else {
        V2Scan::Header {
            data_offset: i64_le_at(s, 27),
            data_size: i64_le_at(s, 35),
            index_offset: i64_le_at(s, 43),
        }
    }
}

/// The fixed-width header that follows the CARv2 pragma.
///
/// The three offsets are kept signed to match the wire format; a header
/// with a negative offset is malformed and never returned.
#[derive(Debug)]
pub struct CarV2Header {
    /// The 16 characteristic bytes (always 16).
    pub characteristics: Vec<u8>,
    /// Where the embedded CARv1 stream begins, from the start of the file.
    pub data_offset: i64,
    /// The length in bytes of the embedded CARv1 stream.
    pub data_size: i64,
    /// Where the optional CARv2 index begins; not consumed by this engine.
    pub index_offset: i64,
}

/// Copies `bytes[start..start + n]` into a fresh vector.
pub fn copy_range(bytes: &[u8], start: usize, n: usize) -> (r: Vec<u8>)
    requires
        start + n <= bytes@.len(),
    ensures
        r@ == bytes@.subrange(start as int, start as int + n),
{
    let mut r: Vec<u8> = Vec::new();
    let len = bytes.len();
    for i in 0..n
        invariant
            start + n <= len,
            len == bytes@.len(),
            r@.len() == i,
            forall|m: int| 0 <= m < i ==> r@[m] == bytes@[start + m],
    {
        r.push(bytes[start + i]);
    }
    proof {
        assert(r@ =~= bytes@.subrange(start as int, start as int + n));
    }
    r
}

/// Reads the unsigned little-endian 64-bit value at `pos`.
fn read_le_u64(bytes: &[u8], pos: usize) -> (r: u64)
    requires
        pos + 8 <= bytes@.len(),
    ensures
        r == le64_at(bytes@, pos as int),
{
    bytes[pos] as u64 + 0x100 * (bytes[pos + 1] as u64) + 0x1_0000 * (bytes[pos + 2] as u64)
        + 0x100_0000 * (bytes[pos + 3] as u64) + 0x1_0000_0000 * (bytes[pos + 4] as u64)
        + 0x100_0000_0000 * (bytes[pos + 5] as u64) + 0x1_0000_0000_0000 * (bytes[pos + 6] as u64)
        + 0x100_0000_0000_0000 * (bytes[pos + 7] as u64)
}

/// Reinterprets an unsigned 64-bit value as signed, in two's complement.
fn u64_as_i64(v: u64) -> (r: i64)
    ensures
        r as int == if v < 0x8000_0000_0000_0000 {
            v as int
        } else {
            v - 0x1_0000_0000_0000_0000
        },
{
    if v < 0x8000_0000_0000_0000 {
        v as i64
    } else {
        let d = u64::MAX - v;
        -(d as i64) - 1
    }
}

/// Reads the signed little-endian 64-bit value at `pos`.
fn read_le_i64(bytes: &[u8], pos: usize) -> (r: i64)
    requires
        pos + 8 <= bytes@.len(),
    ensures
        r as int == i64_le_at(bytes@, pos as int),
{
    u64_as_i64(read_le_u64(bytes, pos))
}

/// Probes the front of the stream for the CARv2 pragma; when it is there,
/// reads the CARv2 header that follows. A header with a negative offset
/// is malformed.
pub fn read_v2_header(bytes: &[u8]) -> (r: Result<Option<CarV2Header>, CarError>)
    ensures
        match r {
            Ok(Some(h)) => {
                &&& v2_scan(bytes@) == (V2Scan::Header {
                    data_offset: h.data_offset as int,
                    data_size: h.data_size as int,
                    index_offset: h.index_offset as int,
                })
                &&& h.data_offset >= 0
                &&& h.data_size >= 0
                &&& h.index_offset >= 0
                &&& h.characteristics@ == bytes@.subrange(11, 27)
                &&& h.characteristics@.len() == 16
            },
            Ok(None) => v2_scan(bytes@) is NoPragma,
            Err(e) => e == CarError::InvalidData && (v2_scan(bytes@) is Truncated || v2_scan(
                bytes@,
            ) is Malformed),
        },
{
    if bytes.len() < 1 {
        return Err(CarError::InvalidData);
    }
    if bytes[0] != 10 {
        return Ok(None);
    }
    if bytes.len() < 11 {
        return Err(CarError::InvalidData);
    }
    if !(bytes[1] == 0xa1 && bytes[2] == 0x67 && bytes[3] == 0x76 && bytes[4] == 0x65 && bytes[5]
        == 0x72 && bytes[6] == 0x73 && bytes[7] == 0x69 && bytes[8] == 0x6f && bytes[9] == 0x6e
        && bytes[10] == 0x02) {
        return Ok(None);
    }
    if bytes.len() < 51 {
        return Err(CarError::InvalidData);
    }
    let characteristics = copy_range(bytes, 11, 16);
    let data_offset = read_le_i64(bytes, 27);
    let data_size = read_le_i64(bytes, 35);
    let index_offset = read_le_i64(bytes, 43);
    if data_offset < 0 || data_size < 0 || index_offset < 0 {
        return Err(CarError::InvalidData);
    }
    Ok(Some(CarV2Header { characteristics, data_offset, data_size, index_offset }))
}

/// The head of a dag-cbor item at `pos`, when its major type is `major`:
/// the argument value and the position after the head. Heads with the
/// additional-information values 28 to 31 (reserved or indefinite) are not
/// accepted.
pub open spec fn cbor_head(s: Seq<u8>, pos: int, major: int) -> Option<(nat, int)> {
    if !(0 <= pos < s.len()) {
        None
    } else if s[pos] / 32 != major {
        None
    } else {
        let ai = s[pos] % 32;
        if ai < 24 {
            Some((ai as nat, pos + 1))
        } else if ai == 24 {
            if pos + 2 <= s.len() {
                Some((s[pos + 1] as nat, pos + 2))
            } else {
                None
            }
        } else if ai == 25 {
            if pos + 3 <= s.len() {
                Some(((0x100 * s[pos + 1] + s[pos + 2]) as nat, pos + 3))
            } else {
                None
            }
        } else if ai == 26 {
            if pos + 5 <= s.len() {
                Some((
                    (0x100_0000 * s[pos + 1] + 0x1_0000 * s[pos + 2] + 0x100 * s[pos + 3] + s[pos
                        + 4]) as nat,
                    pos + 5,
                ))
            } else {
                None
            }
        } else if ai == 27 {
            if pos + 9 <= s.len() {
                Some(
                    (
                        (0x100_0000_0000_0000 * s[pos + 1] + 0x1_0000_0000_0000 * s[pos + 2]
                            + 0x100_0000_0000 * s[pos + 3] + 0x1_0000_0000 * s[pos + 4]
                            + 0x100_0000 * s[pos + 5] + 0x1_0000 * s[pos + 6] + 0x100 * s[pos + 7]
                            + s[pos + 8]) as nat,
                        pos + 9,
                    ),
                )
            } else {
                None
            }
        } else {
            None
        }
    }
}

/// The position after the text key `"roots"` at `pos`, if that is what
/// stands there.
pub open spec fn roots_key_at(s: Seq<u8>, pos: int) -> Option<int> {
    match cbor_head(s, pos, 3) {
        Some((klen, p)) => if klen == 5 && p + 5 <= s.len() && s[p] == 0x72 && s[p + 1] == 0x6f
            && s[p + 2] == 0x6f && s[p + 3] == 0x74 && s[p + 4] == 0x73 {
            Some(p + 5)
        } else {
            None
        },
        None => None,
    }
}

/// The position after the text key `"version"` at `pos`, if that is what
/// stands there.
pub open spec fn version_key_at(s: Seq<u8>, pos: int) -> Option<int> {
    match cbor_head(s, pos, 3) {
        Some((klen, p)) => if klen == 7 && p + 7 <= s.len() && s[p] == 0x76 && s[p + 1] == 0x65
            && s[p + 2] == 0x72 && s[p + 3] == 0x73 && s[p + 4] == 0x69 && s[p + 5] == 0x6f && s[p
            + 6] == 0x6e {
            Some(p + 7)
        } else {
            None
        },
        None => None,
    }
}

/// One root entry at `pos`: tag 42, then a byte string holding the
/// multibase identity prefix `0x00` and the CID bytes. Yields the CID bytes
/// and the position after the entry.
pub open spec fn cbor_cid_item(s: Seq<u8>, pos: int) -> Option<(Seq<u8>, int)> {
    match cbor_head(s, pos, 6) {
        Some((tag, p)) => if tag == 42 {
            match cbor_head(s, p, 2) {
                Some((blen, p2)) => if blen >= 1 && p2 + blen <= s.len() && s[p2] == 0 {
                    Some((s.subrange(p2 + 1, p2 + blen), p2 + blen))
                } else {
                    None
                },
                None => None,
            }
        } else {
            None
        },
        None => None,
    }
}

/// `n` root entries starting at `pos`.
pub open spec fn cbor_root_items(s: Seq<u8>, pos: int, n: nat) -> Option<(Seq<Seq<u8>>, int)>
    decreases n,
{
    if n == 0 {
        Some((Seq::empty(), pos))
    } else {
        match cbor_cid_item(s, pos) {
            Some((c, p)) => match cbor_root_items(s, p, (n - 1) as nat) {
                Some((cs, p2)) => Some((seq![c] + cs, p2)),
                None => None,
            },
            None => None,
        }
    }
}

/// The value of the `roots` field at `pos`: a definite-length array of
/// tagged CIDs.
pub open spec fn cbor_roots_at(s: Seq<u8>, pos: int) -> Option<(Seq<Seq<u8>>, int)> {
    match cbor_head(s, pos, 4) {
        Some((n, p)) => cbor_root_items(s, p, n),
        None => None,
    }
}

/// Decodes a CARv1 header frame body: a dag-cbor map of exactly the fields
/// `roots` and `version`, in either order, with nothing after the map.
/// Yields the version and the root CIDs' bytes.
pub open spec fn v1_header_decode(s: Seq<u8>) -> Option<(nat, Seq<Seq<u8>>)> {
    match cbor_head(s, 0, 5) {
        Some((n, p0)) => if n == 2 {
            match roots_key_at(s, p0) {
                Some(p1) => match cbor_roots_at(s, p1) {
                    Some((roots, p2)) => match version_key_at(s, p2) {
                        Some(p3) => match cbor_head(s, p3, 0) {
                            Some((v, p4)) => if p4 == s.len() {
                                Some((v, roots))
                            } else {
                                None
                            },
                            None => None,
                        },
                        None => None,
                    },
                    None => None,
                },
                None => match version_key_at(s, p0) {
                    Some(p1) => match cbor_head(s, p1, 0) {
                        Some((v, p2)) => match roots_key_at(s, p2) {
                            Some(p3) => match cbor_roots_at(s, p3) {
                                Some((roots, p4)) => if p4 == s.len() {
                                    Some((v, roots))
                                } else {
                                    None
                                },
                                None => None,
                            },
                            None => None,
                        },
                        None => None,
                    },
                    None => None,
                },
            }
        } else {
            None
        },
        None => None,
    }
}

/// The decoded CARv1 header: the version field and the root CIDs.
#[derive(Debug)]
pub struct CarV1Header {
    /// The version field; always 1 on a header this engine accepts.
    pub version: u64,
    /// The root CIDs, in header order; never empty on an accepted archive.
    pub roots: Vec<Cid>,
}

/// The views of a vector of CIDs, in order.
pub open spec fn cid_views(roots: Seq<Cid>) -> Seq<Seq<u8>> {
    roots.map(|i: int, c: Cid| c@)
}

/// Reads the head of the dag-cbor item at `pos` when its major type is
/// `major`.
fn read_cbor_head(bytes: &[u8], pos: usize, major: u8) -> (r: Option<(u64, usize)>)
    requires
        major < 8,
    ensures
        match r {
            Some(p) => {
                &&& cbor_head(bytes@, pos as int, major as int) == Some((p.0 as nat, p.1 as int))
                &&& pos < p.1 <= bytes@.len()
            },
            None => cbor_head(bytes@, pos as int, major as int) is None,
        },
{
    if pos >= bytes.len() {
        return None;
    }
    let b = bytes[pos];
    if b / 32 != major {
        return None;
    }
    let ai = b % 32;
    if ai < 24 {
        Some((ai as u64, pos + 1))
    } else if ai == 24 {
        if bytes.len() - pos >= 2 {
            Some((bytes[pos + 1] as u64, pos + 2))
        } else {
            None
        }
    } else if ai == 25 {
        if bytes.len() - pos >= 3 {
            Some((0x100 * (bytes[pos + 1] as u64) + bytes[pos + 2] as u64, pos + 3))
        } else {
            None
        }
    } else if ai == 26 {
        if bytes.len() - pos >= 5 {
            Some((
                0x100_0000 * (bytes[pos + 1] as u64) + 0x1_0000 * (bytes[pos + 2] as u64) + 0x100
                    * (bytes[pos + 3] as u64) + bytes[pos + 4] as u64,
                pos + 5,
            ))
        } else {
            None
        }
    } else if ai == 27 {
        if bytes.len() - pos >= 9 {
            Some((
                0x100_0000_0000_0000 * (bytes[pos + 1] as u64) + 0x1_0000_0000_0000 * (bytes[pos
                    + 2] as u64) + 0x100_0000_0000 * (bytes[pos + 3] as u64) + 0x1_0000_0000
                    * (bytes[pos + 4] as u64) + 0x100_0000 * (bytes[pos + 5] as u64) + 0x1_0000
                    * (bytes[pos + 6] as u64) + 0x100 * (bytes[pos + 7] as u64) + bytes[pos
                    + 8] as u64,
                pos + 9,
            ))
        } else {
            None
        }
    } else {
        None
    }
}

/// Reads the text key `"roots"` at `pos`.
fn read_roots_key(bytes: &[u8], pos: usize) -> (r: Option<usize>)
    ensures
        match r {
            Some(p) => roots_key_at(bytes@, pos as int) == Some(p as int) && p <= bytes@.len(),
            None => roots_key_at(bytes@, pos as int) is None,
        },
{
    match read_cbor_head(bytes, pos, 3) {
        Some((klen, p)) => {
            if klen == 5 && bytes.len() - p >= 5 && bytes[p] == 0x72 && bytes[p + 1] == 0x6f
                && bytes[p + 2] == 0x6f && bytes[p + 3] == 0x74 && bytes[p + 4] == 0x73 {
                Some(p + 5)
            } else {
                None
            }
        }
        None => None,
    }
}

/// Reads the text key `"version"` at `pos`.
fn read_version_key(bytes: &[u8], pos: usize) -> (r: Option<usize>)
    ensures
        match r {
            Some(p) => version_key_at(bytes@, pos as int) == Some(p as int) && p <= bytes@.len(),
            None => version_key_at(bytes@, pos as int) is None,
        },
{
    match read_cbor_head(bytes, pos, 3) {
        Some((klen, p)) => {
            if klen == 7 && bytes.len() - p >= 7 && bytes[p] == 0x76 && bytes[p + 1] == 0x65
                && bytes[p + 2] == 0x72 && bytes[p + 3] == 0x73 && bytes[p + 4] == 0x69 && bytes[p
                + 5] == 0x6f && bytes[p + 6] == 0x6e {
                Some(p + 7)
            } else {
                None
            }
        }
        None => None,
    }
}

/// Reads one tagged root CID at `pos`.
fn read_cid_item(bytes: &[u8], pos: usize) -> (r: Option<(Cid, usize)>)
    ensures
        match r {
            Some(p) => {
                &&& cbor_cid_item(bytes@, pos as int) == Some((p.0@, p.1 as int))
                &&& pos < p.1 <= bytes@.len()
            },
            None => cbor_cid_item(bytes@, pos as int) is None,
        },
{
    match read_cbor_head(bytes, pos, 6) {
        Some((tag, p)) => {
            if tag != 42 {
                return None;
            }
            match read_cbor_head(bytes, p, 2) {
                Some((blen, p2)) => {
                    if blen >= 1 && blen <= (bytes.len() - p2) as u64 && bytes[p2] == 0 {
                        let blen_u = blen as usize;
                        let c = Cid::from_bytes(copy_range(bytes, p2 + 1, blen_u - 1));
                        Some((c, p2 + blen_u))
                    } else {
                        None
                    }
                }
                None => None,
            }
        }
        None => None,
    }
}

/// Reads the `roots` array at `pos`.
#[verifier::rlimit(50)]
fn read_roots(bytes: &[u8], pos: usize) -> (r: Option<(Vec<Cid>, usize)>)
    ensures
        match r {
            Some(p) => {
                &&& cbor_roots_at(bytes@, pos as int) == Some((cid_views(p.0@), p.1 as int))
                &&& p.1 <= bytes@.len()
            },
            None => cbor_roots_at(bytes@, pos as int) is None,
        },
{
    match read_cbor_head(bytes, pos, 4) {
        Some((n, p0)) => {
            let mut roots: Vec<Cid> = Vec::new();
            let mut p = p0;
            let mut j: u64 = 0;
            proof {
                assert(cid_views(roots@) =~= Seq::<Seq<u8>>::empty());
                match cbor_root_items(bytes@, p0 as int, n as nat) {
                    Some(t) => {
                        assert(cid_views(roots@) + t.0 =~= t.0);
                    }
                    None => {}
                }
            }
            loop
                invariant
                    cbor_head(bytes@, pos as int, 4) == Some((n as nat, p0 as int)),
                    j <= n,
                    p <= bytes@.len(),
                    roots@.len() == j,
                    cbor_root_items(bytes@, p0 as int, n as nat) == match cbor_root_items(
                        bytes@,
                        p as int,
                        (n - j) as nat,
                    ) {
                        Some(t) => Some((cid_views(roots@) + t.0, t.1)),
                        None => None::<(Seq<Seq<u8>>, int)>,
                    },
                decreases n - j,
            {
                if j == n {
                    proof {
                        assert(cbor_root_items(bytes@, p as int, 0) == Some((
                            Seq::<Seq<u8>>::empty(),
                            p as int,
                        )));
                        assert(cid_views(roots@) + Seq::<Seq<u8>>::empty() =~= cid_views(roots@));
                    }
                    return Some((roots, p));
                }
                let ghost m = (n - j) as nat;
                match read_cid_item(bytes, p) {
                    Some((c, p2)) => {
                        let ghost old_roots = roots@;
                        roots.push(c);
                        proof {
                            assert(cid_views(roots@) =~= cid_views(old_roots) + seq![c@]);
                            match cbor_root_items(bytes@, p2 as int, (m - 1) as nat) {
                                Some(t) => {
                                    assert(cbor_root_items(bytes@, p as int, m) == Some((
                                        seq![c@] + t.0,
                                        t.1,
                                    )));
                                    assert(cid_views(old_roots) + (seq![c@] + t.0) =~= cid_views(
                                        roots@,
                                    ) + t.0);
                                }
                                None => {
                                    assert(cbor_root_items(bytes@, p as int, m) is None);
                                }
                            }
                        }
                        p = p2;
                        j = j + 1;
                    }
                    None => {
                        proof {
                            assert(cbor_root_items(bytes@, p as int, m) is None);
                        }
                        return None;
                    }
                }
            }
        }
        None => None,
    }
}

/// Decodes a CARv1 header frame body. Empty roots are malformed; a header
/// that decodes with a version other than 1 is unsupported rather than
/// malformed.
#[verifier::rlimit(100)]
pub fn decode_v1_header(bytes: &[u8]) -> (r: Result<CarV1Header, CarError>)
    ensures
        match v1_header_decode(bytes@) {
            None => r == Err::<CarV1Header, CarError>(CarError::InvalidData),
            Some((v, roots)) => {
                if roots.len() == 0 {
                    r == Err::<CarV1Header, CarError>(CarError::InvalidData)
                } else if v != 1 {
                    v <= u64::MAX && r == Err::<CarV1Header, CarError>(
                        CarError::UnsupportedCarVersion(v as u64),
                    )
                } else {
                    match r {
                        Ok(h) => {
                            &&& h.version == 1
                            &&& cid_views(h.roots@) == roots
                            &&& h.roots@.len() >= 1
                        },
                        Err(_) => false,
                    }
                }
            },
        },
{
    match read_cbor_head(bytes, 0, 5) {
        Some((n, p0)) => {
            if n != 2 {
                return Err(CarError::InvalidData);
            }
            match read_roots_key(bytes, p0) {
                Some(p1) => {
                    let (roots, p2) = match read_roots(bytes, p1) {
                        Some(x) => x,
                        None => {
                            return Err(CarError::InvalidData);
                        }
                    };
                    let p3 = match read_version_key(bytes, p2) {
                        Some(x) => x,
                        None => {
                            return Err(CarError::InvalidData);
                        }
                    };
                    match read_cbor_head(bytes, p3, 0) {
                        Some((v, p4)) => {
                            if p4 != bytes.len() {
                                Err(CarError::InvalidData)
                            } else if roots.len() == 0 {
                                Err(CarError::InvalidData)
                            } else if v != 1 {
                                Err(CarError::UnsupportedCarVersion(v))
                            } else {
                                Ok(CarV1Header { version: v, roots })
                            }
                        }
                        None => Err(CarError::InvalidData),
                    }
                }
                None => {
                    let p1 = match read_version_key(bytes, p0) {
                        Some(x) => x,
                        None => {
                            return Err(CarError::InvalidData);
                        }
                    };
                    match read_cbor_head(bytes, p1, 0) {
                        Some((v, p2)) => {
                            let p3 = match read_roots_key(bytes, p2) {
                                Some(x) => x,
                                None => {
                                    return Err(CarError::InvalidData);
                                }
                            };
                            match read_roots(bytes, p3) {
                                Some((roots, p4)) => {
                                    if p4 != bytes.len() {
                                        Err(CarError::InvalidData)
                                    } else if roots.len() == 0 {
                                        Err(CarError::InvalidData)
                                    } else if v != 1 {
                                        Err(CarError::UnsupportedCarVersion(v))
                                    } else {
                                        Ok(CarV1Header { version: v, roots })
                                    }
                                }
                                None => Err(CarError::InvalidData),
                            }
                        }
                        None => Err(CarError::InvalidData),
                    }
                }
            }
        }
        None => Err(CarError::InvalidData),
    }
}

} // verus!
