//! A blockstore over an uncompressed CARv1 or CARv2 byte image.
//!
//! A CAR is a concatenation of varint frames: each frame is the body length
//! as an unsigned LEB128 varint, then the frame body. The first frame is the
//! header; every later frame is a block frame, whose body is a CID followed
//! by the block payload addressed by that CID.
//!
//! On creation, [`PlainCar`] walks the frames and builds an in-memory index
//! from CID to the payload's byte window, without ever reading payload
//! bytes. Reads slice the archive image at the indexed window; writes of new
//! blocks are absorbed by an in-memory cache with at-most-once insertion.

use vstd::prelude::*;

verus! {

use crate::cid_map::CidVecMap;
use crate::cids::{Cid, cid_scan, read_cid_prefix};
use crate::error::CarError;
use crate::header::{
    CarV1Header,
    CarV2Header,
    V2Scan,
    cid_views,
    copy_range,
    decode_v1_header,
    has_v2_pragma,
    read_v2_header,
    v1_header_decode,
    v2_scan,
};
use crate::varint::{lemma_leb128_bounded_len, read_varint_u32, varint_at};

/// If you seek to `offset` (from the start of the archive) and read `length`
/// bytes, you get the payload addressed by a CID (but not the CID itself).
#[derive(Debug, Clone, Copy, PartialEq, Eq, Structural)]
pub struct UncompressedBlockDataLocation {
    /// Byte offset of the payload from the start of the archive.
    pub offset: u64,
    /// Byte length of the payload.
    pub length: u32,
}

/// A block's payload window inside a zstd-compressed archive: the enclosing
/// frame, and the window inside that frame once decompressed.
#[derive(Debug, Clone, Copy, PartialEq, Eq, Structural)]
pub struct CompressedBlockDataLocation {
    /// Byte offset of the enclosing zstd frame inside the archive file.
    pub zstd_frame_offset: u64,
    /// The payload window inside the decompressed frame.
    pub location_in_frame: UncompressedBlockDataLocation,
}

/// One block frame of the stream: the CID's bytes and the payload window.
pub ghost struct BlockFrame {
    /// The canonical bytes of the frame's CID.
    pub cid: Seq<u8>,
    /// Where the payload begins, from the start of the stream.
    pub data_offset: int,
    /// The payload's length in bytes.
    pub data_len: int,
}

/// Parses the single block frame at `pos`: the frame, and the position of
/// the next frame.
pub open spec fn frame_step(s: Seq<u8>, pos: int) -> Option<(BlockFrame, int)> {
    match varint_at(s, pos) {
        None => None,
        Some((len, n)) => {
            if len > u32::MAX {
                None
            } else {
                let body = pos + n;
                if body + len > s.len() {
                    None
                } else {
                    match cid_scan(s.subrange(body, s.len() as int)) {
                        None => None,
                        Some((c, rem)) => {
                            let cl = s.len() - body - rem;
                            if cl > len {
                                None
                            } else {
                                Some(
                                    (
                                        BlockFrame {
                                            cid: c,
                                            data_offset: body + cl,
                                            data_len: len - cl,
                                        },
                                        body + len,
                                    ),
                                )
                            }
                        }
                    }
                }
            }
        }
    }
}

/// A parsed frame begins after `pos` and ends within the stream.
pub proof fn lemma_frame_step_bounds(s: Seq<u8>, pos: int)
    ensures
        frame_step(s, pos) matches Some(p) ==> pos < p.1 <= s.len(),
{
    if 0 <= pos <= s.len() {
        lemma_leb128_bounded_len(s.skip(pos), 10);
    }
}

/// Parses every block frame from `pos` on. Parsing stops cleanly at `limit`
/// or at the end of the stream; a malformed or truncated frame yields
/// `None`.
pub open spec fn frames_from(s: Seq<u8>, pos: int, limit: int) -> Option<Seq<BlockFrame>>
    decreases s.len() - pos,
        when true
    via frames_from_dec
{
    if pos >= limit || pos >= s.len() {
        Some(Seq::empty())
    } else {
        match frame_step(s, pos) {
            None => None,
            Some((f, next)) => match frames_from(s, next, limit) {
                None => None,
                Some(rest) => Some(seq![f] + rest),
            },
        }
    }
}

#[via_fn]
proof fn frames_from_dec(s: Seq<u8>, pos: int, limit: int) {
    lemma_frame_step_bounds(s, pos);
}

/// The first frame carrying CID `k`, if any: on duplicate CIDs the first
/// occurrence wins.
pub open spec fn first_frame_with(frames: Seq<BlockFrame>, k: Seq<u8>) -> Option<BlockFrame>
    decreases frames.len(),
{
    if frames.len() == 0 {
        None
    } else if frames[0].cid == k {
        Some(frames[0])
    } else {
        first_frame_with(frames.skip(1), k)
    }
}

/// Every frame's payload window has machine-sized bounds and lies inside
/// the stream.
pub open spec fn frames_bounded(s: Seq<u8>, frames: Seq<BlockFrame>) -> bool {
    forall|j: int|
        0 <= j < frames.len() ==> {
            &&& (#[trigger] frames[j]).data_offset >= 0
            &&& frames[j].data_offset <= u64::MAX
            &&& frames[j].data_len >= 0
            &&& frames[j].data_len <= u32::MAX
            &&& frames[j].data_offset + frames[j].data_len <= s.len()
        }
}

/// The indexed location of a frame.
pub open spec fn frame_loc_of(f: Option<BlockFrame>) -> Option<UncompressedBlockDataLocation> {
    match f {
        Some(f) => Some(
            UncompressedBlockDataLocation { offset: f.data_offset as u64, length: f.data_len as u32 },
        ),
        None => None,
    }
}

/// The CARv2 header fields a valid archive was opened with.
pub ghost struct V2Model {
    pub data_offset: int,
    pub data_size: int,
    pub index_offset: int,
    pub characteristics: Seq<u8>,
}

/// Everything a valid archive image denotes: version, roots, block frames,
/// and the CARv2 header when one is present.
pub ghost struct CarModel {
    /// 1 or 2.
    pub version: int,
    /// The root CIDs' bytes, in header order; never empty.
    pub roots: Seq<Seq<u8>>,
    /// The block frames, in stream order.
    pub frames: Seq<BlockFrame>,
    /// The CARv2 header, when the stream begins with the pragma.
    pub v2: Option<V2Model>,
}

/// What scanning a whole archive image yields.
pub enum CarScan {
    /// The image is a well-formed archive denoting this model.
    Valid(CarModel),
    /// The image does not follow the CAR grammar, has no blocks, or has
    /// empty roots.
    Invalid,
    /// The image's CARv1 header decodes, but with this version field
    /// instead of 1.
    Unsupported(nat),
}

/// What decoding the CARv1 header frame at `start` yields.
pub ghost enum V1Head {
    /// Malformed: no varint, truncated frame, undecodable body, or empty
    /// roots.
    Bad,
    /// The header decodes, but with this version field instead of 1.
    Unsup(nat),
    /// The header decodes with version 1: the root CIDs' bytes and the
    /// position of the first block frame.
    Head { roots: Seq<Seq<u8>>, pos0: int },
}

/// Decodes the CARv1 header frame at `start`.
pub open spec fn v1_head_scan(s: Seq<u8>, start: int) -> V1Head {
    match varint_at(s, start) {
        None => V1Head::Bad,
        Some((hlen, hn)) => {
            if hlen >= 0x1_0000_0000_0000_0000 {
                V1Head::Bad
            } else {
                let hbody = start + hn;
                if hbody + hlen > s.len() {
                    V1Head::Bad
                } else {
                    match v1_header_decode(s.subrange(hbody, hbody + hlen)) {
                        None => V1Head::Bad,
                        Some((ver, roots)) => {
                            if roots.len() == 0 {
                                V1Head::Bad
                            } else if ver != 1 {
                                V1Head::Unsup(ver)
                            } else {
                                V1Head::Head { roots, pos0: hbody + hlen }
                            }
                        }
                    }
                }
            }
        }
    }
}

/// Scans the CARv1 stream of an archive: the header frame at `start`, then
/// block frames up to `limit`.
pub open spec fn car_scan_v1(
    s: Seq<u8>,
    start: int,
    limit: int,
    version: int,
    v2: Option<V2Model>,
) -> CarScan {
    match v1_head_scan(s, start) {
        V1Head::Bad => CarScan::Invalid,
        V1Head::Unsup(v) => CarScan::Unsupported(v),
        V1Head::Head { roots, pos0 } => match frames_from(s, pos0, limit) {
            None => CarScan::Invalid,
            Some(frames) => {
                if frames.len() == 0 {
                    CarScan::Invalid
                } else {
                    CarScan::Valid(CarModel { version, roots, frames, v2 })
                }
            }
        },
    }
}

/// Scans a whole archive image: the CARv2 probe, then the CARv1 stream at
/// the position the probe directs to.
pub open spec fn car_scan(s: Seq<u8>) -> CarScan {
    match v2_scan(s) {
        V2Scan::Truncated => CarScan::Invalid,
        V2Scan::Malformed => CarScan::Invalid,
        V2Scan::NoPragma => car_scan_v1(s, 0, s.len() as int, 1, None),
        V2Scan::Header { data_offset, data_size, index_offset } => car_scan_v1(
            s,
            data_offset,
            data_offset + data_size,
            2,
            Some(
                V2Model {
                    data_offset,
                    data_size,
                    index_offset,
                    characteristics: s.subrange(11, 27),
                },
            ),
        ),
    }
}

/// A reader position that keeps track of how many bytes it has handed out.
///
/// This is how the indexer learns a CID's byte length without a second
/// seek: the CID is parsed through a counting position, and the count is
/// the CID's length inside the frame.
pub struct CountRead<ReadT> {
    inner: ReadT,
    count: usize,
}

impl<ReadT> CountRead<ReadT> {
    /// The wrapped value.
    pub closed spec fn spec_inner(self) -> ReadT {
        self.inner
    }

    /// How many bytes have been recorded as read.
    pub closed spec fn spec_count(self) -> nat {
        self.count as nat
    }

    /// Wraps `inner` with a zeroed count.
    pub fn new(inner: ReadT) -> (r: CountRead<ReadT>)
        ensures
            r.spec_inner() == inner,
            r.spec_count() == 0,
    {
        CountRead { inner, count: 0 }
    }

    /// Records that `n` more bytes were read.
    pub fn consume(&mut self, n: usize)
        requires
            old(self).spec_count() + n <= usize::MAX,
        ensures
            final(self).spec_inner() == old(self).spec_inner(),
            final(self).spec_count() == old(self).spec_count() + n,
    {
        self.count = self.count + n;
    }

    /// The number of bytes read so far.
    pub fn bytes_read(&self) -> (r: usize)
        ensures
            r == self.spec_count(),
    {
        self.count
    }

    /// Unwraps the inner value.
    pub fn into_inner(self) -> (r: ReadT)
        ensures
            r == self.spec_inner(),
    {
        self.inner
    }
}

/// Reads the body length of the varint frame at `pos`, or reports a clean
/// end of stream when `pos` is at or past the end.
pub fn read_varint_body_length_or_eof(bytes: &[u8], pos: usize) -> (r: Result<
    Option<(u32, usize)>,
    CarError,
>)
    ensures
        match r {
            Ok(Some(p)) => {
                &&& pos < bytes@.len()
                &&& varint_at(bytes@, pos as int) == Some((p.0 as nat, p.1 as nat))
                &&& 1 <= p.1 <= 10
                &&& pos + p.1 <= bytes@.len()
            },
            Ok(None) => pos >= bytes@.len(),
            Err(e) => {
                &&& e == CarError::InvalidData
                &&& pos < bytes@.len()
                &&& match varint_at(bytes@, pos as int) {
                    Some(p) => p.0 > u32::MAX,
                    None => true,
                }
            },
        },
{
    if pos >= bytes.len() {
        return Ok(None);
    }
    match read_varint_u32(bytes, pos) {
        Ok(p) => Ok(Some(p)),
        Err(e) => Err(e),
    }
}

/// Reads the block frame at `pos`: its CID, its payload location, and the
/// position of the next frame. `Ok(None)` at `limit` or at the end of the
/// stream. The payload is never read; the CID is parsed through a counting
/// reader so that its length is known without a second pass.
pub fn read_block_data_location_and_skip(bytes: &[u8], pos: usize, limit: u64) -> (r: Result<
    Option<(Cid, UncompressedBlockDataLocation, usize)>,
    CarError,
>)
    ensures
        match r {
            Ok(Some(p)) => {
                &&& !(pos as int >= limit || pos >= bytes@.len())
                &&& frame_step(bytes@, pos as int) matches Some(q) && q.0 == (BlockFrame {
                    cid: p.0@,
                    data_offset: p.1.offset as int,
                    data_len: p.1.length as int,
                }) && q.1 == p.2 as int
                &&& pos < p.2 <= bytes@.len()
                &&& p.1.offset + p.1.length <= bytes@.len()
            },
            Ok(None) => pos as int >= limit || pos >= bytes@.len(),
            Err(e) => {
                &&& e == CarError::InvalidData
                &&& !(pos as int >= limit || pos >= bytes@.len())
                &&& frame_step(bytes@, pos as int) is None
            },
        },
{
    if pos as u64 >= limit || pos >= bytes.len() {
        return Ok(None);
    }
    let (body_length, n) = match read_varint_body_length_or_eof(bytes, pos) {
        Ok(Some(p)) => p,
        Ok(None) => {
            return Ok(None);
        }
        Err(e) => {
            return Err(e);
        }
    };
    let frame_body_offset = pos + n;
    if body_length as u64 > (bytes.len() - frame_body_offset) as u64 {
        return Err(CarError::InvalidData);
    }
    let suffix = &bytes[frame_body_offset..bytes.len()];
    let mut counter = CountRead::new(frame_body_offset);
    let (cid, rem) = match read_cid_prefix(suffix) {
        Ok(p) => p,
        Err(e) => {
            return Err(e);
        }
    };
    counter.consume(suffix.len() - rem);
    let cid_length = counter.bytes_read();
    if cid_length as u64 > body_length as u64 {
        return Err(CarError::InvalidData);
    }
    let block_data_offset = counter.into_inner() + cid_length;
    let block_data_length = body_length - cid_length as u32;
    let next_frame_offset = frame_body_offset + body_length as usize;
    proof {
        assert(suffix@ == bytes@.subrange(frame_body_offset as int, bytes@.len() as int));
    }
    Ok(
        Some(
            (
                cid,
                UncompressedBlockDataLocation {
                    offset: block_data_offset as u64,
                    length: block_data_length,
                },
                next_frame_offset,
            ),
        ),
    )
}

/// A blockstore backed by the byte image of a CARv1 or CARv2 archive.
///
/// The index maps each CID to the byte window of its payload; on duplicate
/// CIDs in the stream, the first occurrence wins. The write cache holds
/// blocks written after the archive was opened; a CID in the index is never
/// inserted into the cache.
#[derive(Debug)]
pub struct PlainCar {
    bytes: Vec<u8>,
    write_cache: CidVecMap<Vec<u8>>,
    index: CidVecMap<UncompressedBlockDataLocation>,
    version: u64,
    header_v1: CarV1Header,
    header_v2: Option<CarV2Header>,
}

impl PlainCar {
    /// The archive image.
    pub closed spec fn spec_bytes(self) -> Seq<u8> {
        self.bytes@
    }

    /// The indexed payload window of CID `k`, if any.
    pub closed spec fn index_at(self, k: Seq<u8>) -> Option<UncompressedBlockDataLocation> {
        self.index.spec_get(k)
    }

    /// The cached bytes written under CID `k`, if any.
    pub closed spec fn cache_at(self, k: Seq<u8>) -> Option<Seq<u8>> {
        match self.write_cache.spec_get(k) {
            Some(v) => Some(v@),
            None => None,
        }
    }

    /// The archive's version: 1 or 2.
    pub closed spec fn spec_version(self) -> int {
        self.version as int
    }

    /// The root CIDs' bytes, in header order.
    pub closed spec fn spec_roots(self) -> Seq<Seq<u8>> {
        cid_views(self.header_v1.roots@)
    }

    /// The CARv2 header triple (`data_offset`, `data_size`,
    /// `index_offset`), when the archive is a CARv2.
    pub closed spec fn spec_v2(self) -> Option<(int, int, int)> {
        match self.header_v2 {
            Some(h) => Some((h.data_offset as int, h.data_size as int, h.index_offset as int)),
            None => None,
        }
    }

    /// The CARv2 characteristic bytes, when the archive is a CARv2.
    pub closed spec fn spec_v2_characteristics(self) -> Option<Seq<u8>> {
        match self.header_v2 {
            Some(h) => Some(h.characteristics@),
            None => None,
        }
    }

    /// The steady state of the handle: a CID in the write cache is never
    /// also in the index. Opening establishes it (the cache starts
    /// empty), writes keep it (an indexed CID is never cached), and reads
    /// keep it too — the eviction row of the read matrix exists to
    /// restore it if a concurrent window ever let both sides hold a CID.
    /// It is stated apart from [`Self::wf`] so that the eviction rule
    /// itself does not become vacuous.
    pub open spec fn steady_state(self) -> bool {
        forall|k: Seq<u8>| #[trigger] self.cache_at(k) is Some ==> self.index_at(k) is None
    }

    /// Internal consistency: the maps are well-formed, every indexed window
    /// lies inside the image, the version is 1 or 2, and the roots are not
    /// empty.
    pub closed spec fn wf(self) -> bool {
        &&& self.index.wf()
        &&& self.write_cache.wf()
        &&& forall|k: Seq<u8>|
            #[trigger] self.index.spec_get(k) matches Some(loc) ==> loc.offset + loc.length
                <= self.bytes@.len()
        &&& (self.version == 1 || self.version == 2)
        &&& self.header_v1.roots@.len() >= 1
    }

    /// `self` is the archive handle that a valid image denoting `m` opens
    /// to: same image, same version and roots, the index is the first-wins
    /// map over the frames, and the cache is empty.
    pub open spec fn models(self, s: Seq<u8>, m: CarModel) -> bool {
        &&& self.wf()
        &&& self.spec_bytes() == s
        &&& self.spec_version() == m.version
        &&& self.spec_roots() == m.roots
        &&& frames_bounded(s, m.frames)
        &&& forall|k: Seq<u8>| #[trigger]
            self.index_at(k) == frame_loc_of(first_frame_with(m.frames, k))
        &&& forall|k: Seq<u8>| #[trigger] self.cache_at(k) is None
        &&& self.steady_state()
        &&& self.spec_v2() == match m.v2 {
            Some(i) => Some((i.data_offset, i.data_size, i.index_offset)),
            None => None::<(int, int, int)>,
        }
        &&& self.spec_v2_characteristics() == match m.v2 {
            Some(i) => Some(i.characteristics),
            None => None::<Seq<u8>>,
        }
    }

    /// Opens an archive image: probes for the CARv2 pragma, decodes the
    /// CARv1 header, and indexes every block frame. An image with no block
    /// frames, empty roots, or any malformed frame is invalid; a header
    /// with a version other than 1 is unsupported.
    pub fn new(bytes: Vec<u8>) -> (r: Result<PlainCar, CarError>)
        ensures
            match car_scan(bytes@) {
                CarScan::Valid(m) => match r {
                    Ok(car) => car.models(bytes@, m),
                    Err(_) => false,
                },
                CarScan::Invalid => r == Err::<PlainCar, CarError>(CarError::InvalidData),
                CarScan::Unsupported(v) => v <= u64::MAX && r == Err::<PlainCar, CarError>(
                    CarError::UnsupportedCarVersion(v as u64),
                ),
            },
    {
        let ghost s = bytes@;
        let (header_v1, header_v2, pos0, limit, version) = match open_headers(bytes.as_slice()) {
            Ok(h) => h,
            Err(e) => {
                return Err(e);
            }
        };
        let index = match build_index(bytes.as_slice(), pos0, limit) {
            Ok(ix) => ix,
            Err(e) => {
                return Err(e);
            }
        };
        if index.len() == 0 {
            return Err(CarError::InvalidData);
        }
        let car = PlainCar {
            bytes,
            write_cache: CidVecMap::new(),
            index,
            version,
            header_v1,
            header_v2,
        };
        Ok(car)
    }
}

/// The model of a CARv2 header value.
pub open spec fn v2_model_of(h2: Option<CarV2Header>) -> Option<V2Model> {
    match h2 {
        Some(h) => Some(
            V2Model {
                data_offset: h.data_offset as int,
                data_size: h.data_size as int,
                index_offset: h.index_offset as int,
                characteristics: h.characteristics@,
            },
        ),
        None => None,
    }
}

/// Probes for the CARv2 pragma and decodes the CARv1 header, yielding the
/// two headers, the position of the first block frame, the stream limit,
/// and the version.
#[verifier::rlimit(100)]
fn open_headers(bytes: &[u8]) -> (r: Result<
    (CarV1Header, Option<CarV2Header>, usize, u64, u64),
    CarError,
>)
    ensures
        match r {
            Ok((h1, h2, pos0, limit, version)) => {
                &&& pos0 <= bytes@.len()
                &&& h1.roots@.len() >= 1
                &&& (version == 1 || version == 2)
                &&& match frames_from(bytes@, pos0 as int, limit as int) {
                    None => car_scan(bytes@) == CarScan::Invalid,
                    Some(frames) => car_scan(bytes@) == if frames.len() == 0 {
                        CarScan::Invalid
                    } else {
                        CarScan::Valid(
                            CarModel {
                                version: version as int,
                                roots: cid_views(h1.roots@),
                                frames,
                                v2: v2_model_of(h2),
                            },
                        )
                    },
                }
            },
            Err(e) => match car_scan(bytes@) {
                CarScan::Valid(_) => false,
                CarScan::Invalid => e == CarError::InvalidData,
                CarScan::Unsupported(v) => v <= u64::MAX && e == CarError::UnsupportedCarVersion(
                    v as u64,
                ),
            },
        },
{
    let ghost s = bytes@;
    let header_v2 = match read_v2_header(bytes) {
        Ok(h) => h,
        Err(e) => {
            return Err(e);
        }
    };
    let (start, limit, version): (usize, u64, u64) = match &header_v2 {
        Some(h) => {
            let doff = h.data_offset as u64;
            let dsize = h.data_size as u64;
            if doff > bytes.len() as u64 {
                proof {
                    assert(varint_at(s, h.data_offset as int) is None);
                }
                return Err(CarError::InvalidData);
            }
            (doff as usize, doff + dsize, 2)
        }
        None => (0, bytes.len() as u64, 1),
    };
    let (header_v1, pos0) = match read_v1_head(bytes, start) {
        Ok(p) => p,
        Err(e) => {
            return Err(e);
        }
    };
    Ok((header_v1, header_v2, pos0, limit, version))
}

/// Reads and decodes the CARv1 header frame at `start`: the header and the
/// position of the first block frame.
#[verifier::rlimit(50)]
fn read_v1_head(bytes: &[u8], start: usize) -> (r: Result<(CarV1Header, usize), CarError>)
    requires
        start <= bytes@.len(),
    ensures
        match r {
            Ok((h1, pos0)) => {
                &&& v1_head_scan(bytes@, start as int) == (V1Head::Head {
                    roots: cid_views(h1.roots@),
                    pos0: pos0 as int,
                })
                &&& h1.roots@.len() >= 1
                &&& h1.version == 1
                &&& pos0 <= bytes@.len()
            },
            Err(CarError::InvalidData) => v1_head_scan(bytes@, start as int) is Bad,
            Err(CarError::UnsupportedCarVersion(v)) => v1_head_scan(bytes@, start as int)
                == V1Head::Unsup(v as nat),
        },
{
    let ghost s = bytes@;
    let len = bytes.len();
    let (hlen, hn) = match crate::varint::read_varint_u64(bytes, start) {
        Ok(p) => p,
        Err(e) => {
            return Err(e);
        }
    };
    proof {
        assert(start + hn <= len);
    }
    let hbody = start + hn;
    if hlen > (len - hbody) as u64 {
        return Err(CarError::InvalidData);
    }
    let hlen_u = hlen as usize;
    let header_v1 = match decode_v1_header(&bytes[hbody..hbody + hlen_u]) {
        Ok(h) => h,
        Err(e) => {
            return Err(e);
        }
    };
    proof {
        assert(bytes@.subrange(hbody as int, hbody as int + hlen_u as int) == s.subrange(
            hbody as int,
            hbody + hlen,
        ));
    }
    Ok((header_v1, hbody + hlen_u))
}

/// Walks the block frames from `pos0` up to `limit` and builds the index:
/// each CID maps to its payload window, first occurrence winning.
fn build_index(bytes: &[u8], pos0: usize, limit: u64) -> (r: Result<
    CidVecMap<UncompressedBlockDataLocation>,
    CarError,
>)
    requires
        pos0 <= bytes@.len(),
    ensures
        match frames_from(bytes@, pos0 as int, limit as int) {
            None => r == Err::<CidVecMap<UncompressedBlockDataLocation>, CarError>(
                CarError::InvalidData,
            ),
            Some(frames) => match r {
                Ok(index) => {
                    &&& index.wf()
                    &&& frames_bounded(bytes@, frames)
                    &&& forall|k: Seq<u8>|
                        #[trigger] index.spec_get(k) matches Some(loc) ==> loc.offset + loc.length
                            <= bytes@.len()
                    &&& forall|k: Seq<u8>| #[trigger]
                        index.spec_get(k) == frame_loc_of(first_frame_with(frames, k))
                    &&& (index.spec_len() == 0 <==> frames.len() == 0)
                },
                Err(_) => false,
            },
        },
{
    let ghost s = bytes@;
    let mut index: CidVecMap<UncompressedBlockDataLocation> = CidVecMap::new();
    let mut pos = pos0;
    let mut done_tracker: Ghost<Seq<BlockFrame>> = Ghost(Seq::empty());
    proof {
        if frames_from(s, pos0 as int, limit as int) is Some {
            let rest = frames_from(s, pos0 as int, limit as int)->Some_0;
            assert(done_tracker@ + rest =~= rest);
        }
        assert forall|k: Seq<u8>| #[trigger] first_frame_with(done_tracker@, k) is None by {}
    }
    loop
        invariant
            s == bytes@,
            pos <= bytes@.len(),
            index.wf(),
            forall|k: Seq<u8>|
                #[trigger] index.spec_get(k) matches Some(loc) ==> loc.offset + loc.length
                    <= s.len(),
            forall|k: Seq<u8>| #[trigger]
                index.spec_get(k) == frame_loc_of(first_frame_with(done_tracker@, k)),
            index.spec_len() == 0 <==> done_tracker@.len() == 0,
            frames_bounded(s, done_tracker@),
            match frames_from(s, pos as int, limit as int) {
                Some(rest) => frames_from(s, pos0 as int, limit as int) == Some(
                    done_tracker@ + rest,
                ),
                None => frames_from(s, pos0 as int, limit as int) is None,
            },
        ensures
            pos as int >= limit || pos as int >= bytes@.len(),
        decreases bytes@.len() - pos,
    {
        match read_block_data_location_and_skip(bytes, pos, limit) {
            Ok(None) => {
                break ;
            }
            Err(e) => {
                return Err(CarError::InvalidData);
            }
            Ok(Some((cid, location, next))) => {
                let ghost f = BlockFrame {
                    cid: cid@,
                    data_offset: location.offset as int,
                    data_len: location.length as int,
                };
                let ghost old_done = done_tracker@;
                proof {
                    done_tracker@ = old_done.push(f);
                }
                if !index.contains_key(&cid) {
                    index.insert(cid, location);
                }
                proof {
                    assert(frames_from(s, pos as int, limit as int) == match frames_from(
                        s,
                        next as int,
                        limit as int,
                    ) {
                        None => None::<Seq<BlockFrame>>,
                        Some(rest) => Some(seq![f] + rest),
                    });
                    if frames_from(s, next as int, limit as int) is Some {
                        let rest2 = frames_from(s, next as int, limit as int)->Some_0;
                        assert(old_done + (seq![f] + rest2) =~= done_tracker@ + rest2);
                    }
                    assert forall|j: int| 0 <= j < done_tracker@.len() implies {
                        &&& (#[trigger] done_tracker@[j]).data_offset >= 0
                        &&& done_tracker@[j].data_offset <= u64::MAX
                        &&& done_tracker@[j].data_len >= 0
                        &&& done_tracker@[j].data_len <= u32::MAX
                        &&& done_tracker@[j].data_offset + done_tracker@[j].data_len <= s.len()
                    } by {
                        if j < old_done.len() {
                            assert(done_tracker@[j] == old_done[j]);
                        } else {
                            assert(done_tracker@[j] == f);
                        }
                    }
                    assert forall|k: Seq<u8>| #[trigger]
                        first_frame_with(done_tracker@, k) == match first_frame_with(
                        old_done,
                        k,
                    ) {
                        Some(g) => Some(g),
                        None => if f.cid == k {
                            Some(f)
                        } else {
                            None
                        },
                    } by {
                        lemma_first_frame_push(old_done, f, k);
                    }
                }
                pos = next;
            }
        }
    }
    proof {
        assert(frames_from(s, pos as int, limit as int) == Some(Seq::<BlockFrame>::empty()));
        assert(done_tracker@ + Seq::<BlockFrame>::empty() =~= done_tracker@);
    }
    Ok(index)
}


/// `a` and `b` hold the same bytes.
fn bytes_eq(a: &[u8], b: &[u8]) -> (r: bool)
    ensures
        r == (a@ == b@),
{
    if a.len() != b.len() {
        proof {
            assert(a@ != b@);
        }
        return false;
    }
    let n = a.len();
    for i in 0..n
        invariant
            n == a@.len(),
            n == b@.len(),
            forall|m: int| 0 <= m < i ==> a@[m] == b@[m],
    {
        if a[i] != b[i] {
            return false;
        }
    }
    proof {
        assert(a@ =~= b@);
    }
    true
}

impl PlainCar {
    /// What a read of CID `k` returns, under the behavior matrix: a cached
    /// block wins over nothing, the indexed on-disk window wins over
    /// nothing, and when both are present the cached bytes are handed back
    /// while the cache entry is evicted.
    pub open spec fn get_result(self, k: Seq<u8>) -> Option<Seq<u8>> {
        match (self.index_at(k), self.cache_at(k)) {
            (Some(loc), Some(c)) => Some(c),
            (Some(loc), None) => Some(
                self.spec_bytes().subrange(loc.offset as int, loc.offset + loc.length),
            ),
            (None, Some(c)) => Some(c),
            (None, None) => None,
        }
    }

    /// How a read of CID `k` changes the handle: nothing changes but the
    /// cache entry of `k`, which is evicted exactly when `k` is in both the
    /// index and the cache (the on-disk copy is authoritative).
    pub open spec fn get_post(pre: PlainCar, post: PlainCar, k: Seq<u8>) -> bool {
        &&& post.wf()
        &&& post.spec_bytes() == pre.spec_bytes()
        &&& post.spec_version() == pre.spec_version()
        &&& post.spec_roots() == pre.spec_roots()
        &&& post.spec_v2() == pre.spec_v2()
        &&& post.spec_v2_characteristics() == pre.spec_v2_characteristics()
        &&& forall|k2: Seq<u8>| #[trigger] post.index_at(k2) == pre.index_at(k2)
        &&& forall|k2: Seq<u8>| k2 != k ==> #[trigger] post.cache_at(k2) == pre.cache_at(k2)
        &&& post.cache_at(k) == if pre.index_at(k) is Some && pre.cache_at(k) is Some {
            None::<Seq<u8>>
        } else {
            pre.cache_at(k)
        }
        &&& pre.steady_state() ==> post.steady_state()
    }

    /// Serves a read by CID.
    ///
    /// | index | cache | action                                   |
    /// |-------|-------|------------------------------------------|
    /// | hit   | hit   | evict from cache, return the cached bytes |
    /// | hit   | miss  | slice the image at the indexed window     |
    /// | miss  | hit   | return a copy of the cached bytes         |
    /// | miss  | miss  | `None`                                    |
    pub fn get(&mut self, k: &Cid) -> (r: Option<Vec<u8>>)
        requires
            old(self).wf(),
        ensures
            PlainCar::get_post(*old(self), *final(self), k@),
            match r {
                Some(v) => old(self).get_result(k@) == Some(v@),
                None => old(self).get_result(k@) is None,
            },
    {
        let location: Option<UncompressedBlockDataLocation> = match self.index.get(k) {
            Some(loc) => Some(*loc),
            None => None,
        };
        let cached: Option<Vec<u8>> = match self.write_cache.get(k) {
            Some(v) => Some(copy_range(v.as_slice(), 0, v.len())),
            None => None,
        };
        proof {
            match self.write_cache.spec_get(k@) {
                Some(v) => {
                    assert(v@.subrange(0, v@.len() as int) =~= v@);
                }
                None => {}
            }
        }
        match (location, cached) {
            (Some(_), Some(_)) => {
                // the on-disk copy is authoritative: evict, hand back the bytes
                match self.write_cache.remove(k) {
                    Some(v) => Some(v),
                    None => None,
                }
            }
            (Some(loc), None) => {
                let len = self.bytes.len();
                proof {
                    assert(self.index.spec_get(k@) matches Some(l) && l == loc);
                    assert(loc.offset + loc.length <= len);
                }
                Some(copy_range(self.bytes.as_slice(), loc.offset as usize, loc.length as usize))
            }
            (None, Some(v)) => Some(v),
            (None, None) => None,
        }
    }

    /// The caller's obligation on a write: a CID absent from the index and
    /// already cached must carry the same bytes. The store aborts the
    /// process on a violation (content addressing makes it corruption);
    /// its callers test [`Self::put_conflicts`] first.
    pub open spec fn put_allowed(self, k: Seq<u8>, block: Seq<u8>) -> bool {
        self.index_at(k) is None && self.cache_at(k) is Some ==> self.cache_at(k) == Some(block)
    }

    /// How a write of `block` under CID `k` changes the handle: nothing
    /// changes but the cache entry of `k`, which is created exactly when
    /// `k` is in neither the index nor the cache. A repeated identical
    /// write, and a write of an indexed CID, change nothing.
    pub open spec fn put_post(pre: PlainCar, post: PlainCar, k: Seq<u8>, block: Seq<u8>) -> bool {
        &&& post.wf()
        &&& post.spec_bytes() == pre.spec_bytes()
        &&& post.spec_version() == pre.spec_version()
        &&& post.spec_roots() == pre.spec_roots()
        &&& post.spec_v2() == pre.spec_v2()
        &&& post.spec_v2_characteristics() == pre.spec_v2_characteristics()
        &&& forall|k2: Seq<u8>| #[trigger] post.index_at(k2) == pre.index_at(k2)
        &&& forall|k2: Seq<u8>| k2 != k ==> #[trigger] post.cache_at(k2) == pre.cache_at(k2)
        &&& (pre.index_at(k) is Some || pre.cache_at(k) is Some ==> post.cache_at(k)
            == pre.cache_at(k))
        &&& (pre.index_at(k) is None && pre.cache_at(k) is None ==> post.cache_at(k) == Some(
            block,
        ))
        &&& pre.steady_state() ==> post.steady_state()
    }

    /// Whether a write of `block` under CID `k` would be the corrupting
    /// second write: `k` absent from the index, cached with different
    /// bytes. Callers abort the process when this holds.
    pub fn put_conflicts(&self, k: &Cid, block: &[u8]) -> (r: bool)
        requires
            self.wf(),
        ensures
            r == !self.put_allowed(k@, block@),
    {
        if self.index.contains_key(k) {
            return false;
        }
        match self.write_cache.get(k) {
            Some(v) => !bytes_eq(v.as_slice(), block),
            None => false,
        }
    }

    /// Absorbs a write. An indexed CID is a no-op; a CID cached with the
    /// same bytes is a no-op; otherwise the block enters the cache.
    pub fn put_keyed(&mut self, k: &Cid, block: &[u8])
        requires
            old(self).wf(),
            old(self).put_allowed(k@, block@),
        ensures
            PlainCar::put_post(*old(self), *final(self), k@, block@),
    {
        handle_write_cache(&mut self.write_cache, &self.index, k, block);
        proof {
            if old(self).steady_state() {
                assert forall|k2: Seq<u8>| #[trigger] self.cache_at(k2) is Some implies self.index_at(
                    k2,
                ) is None by {
                    if k2 == k@ && old(self).index_at(k@) is Some {
                        assert(self.cache_at(k@) == old(self).cache_at(k@));
                        assert(old(self).index_at(k@) is None);
                    }
                }
            }
        }
    }

    /// Absorbs a write through the persistent-store entry point; the plain
    /// store persists nothing beyond [`Self::put_keyed`].
    pub fn put_keyed_persistent(&mut self, k: &Cid, block: &[u8])
        requires
            old(self).wf(),
            old(self).put_allowed(k@, block@),
        ensures
            PlainCar::put_post(*old(self), *final(self), k@, block@),
    {
        self.put_keyed(k, block);
    }

    /// The root CIDs from the CARv1 header.
    pub fn roots(&self) -> (r: &Vec<Cid>)
        ensures
            cid_views(r@) == self.spec_roots(),
            self.wf() ==> r@.len() >= 1,
    {
        &self.header_v1.roots
    }

    /// The archive's version: 1 or 2.
    pub fn version(&self) -> (r: u64)
        ensures
            r as int == self.spec_version(),
    {
        self.version
    }

    /// The key of the heaviest tipset this archive identifies: its root
    /// CIDs, in header order.
    pub fn heaviest_tipset_key(&self) -> (r: Vec<Cid>)
        ensures
            cid_views(r@) == self.spec_roots(),
    {
        let mut r: Vec<Cid> = Vec::new();
        let n = self.header_v1.roots.len();
        for i in 0..n
            invariant
                n == self.header_v1.roots@.len(),
                r@.len() == i,
                forall|m: int| 0 <= m < i ==> r@[m]@ == self.header_v1.roots@[m]@,
        {
            r.push(self.header_v1.roots[i].dup());
        }
        proof {
            assert(cid_views(r@) =~= cid_views(self.header_v1.roots@));
        }
        r
    }

    /// The indexed CIDs' bytes, in index order.
    pub closed spec fn index_keys(self) -> Seq<Seq<u8>> {
        self.index.spec_keys()
    }

    /// A CID is indexed exactly when it occurs among the index keys.
    pub proof fn lemma_index_keys_contains(self, k: Seq<u8>)
        ensures
            self.index_at(k) is Some <==> self.index_keys().contains(k),
    {
        self.index.lemma_contains_keys(k);
    }

    /// The indexed CIDs, in an arbitrary (index) order.
    pub fn cids(&self) -> (r: Vec<Cid>)
        ensures
            r@.len() == self.index_keys().len(),
            forall|i: int| 0 <= i < r@.len() ==> r@[i]@ == self.index_keys()[i],
    {
        self.index.keys()
    }
}

/// Decides one write against the index and the write cache, as
/// [`PlainCar::put_keyed`] describes. The index is never written; the cache
/// gains at most one entry.
pub fn handle_write_cache<V>(
    write_cache: &mut CidVecMap<Vec<u8>>,
    index: &CidVecMap<V>,
    k: &Cid,
    block: &[u8],
)
    requires
        old(write_cache).wf(),
        index.spec_get(k@) is None && old(write_cache).spec_get(k@) is Some
            ==> (match old(write_cache).spec_get(k@) {
            Some(v) => v@ == block@,
            None => false,
        }),
    ensures
        final(write_cache).wf(),
        forall|k2: Seq<u8>| k2 != k@
            ==> #[trigger] final(write_cache).spec_get(k2) == old(write_cache).spec_get(k2),
        index.spec_get(k@) is Some || old(write_cache).spec_get(k@) is Some
            ==> final(write_cache).spec_get(k@) == old(write_cache).spec_get(k@),
        index.spec_get(k@) is None && old(write_cache).spec_get(k@) is None ==> {
            &&& (match final(write_cache).spec_get(k@) {
                Some(v) => v@ == block@,
                None => false,
            })
            &&& final(write_cache).spec_len() == old(write_cache).spec_len() + 1
        },
{
    if index.contains_key(k) {
        // already on disk
        return ;
    }
    if write_cache.contains_key(k) {
        // already in cache, with the same bytes by the caller's obligation
        return ;
    }
    let data = copy_range(block, 0, block.len());
    proof {
        assert(data@ =~= block@);
    }
    write_cache.insert(k.dup(), data);
}

/// Appending a frame changes the first-wins view only for its CID, and for
/// that CID only when it was absent.
proof fn lemma_first_frame_push(frames: Seq<BlockFrame>, f: BlockFrame, k: Seq<u8>)
    ensures
        first_frame_with(frames.push(f), k) == match first_frame_with(frames, k) {
            Some(g) => Some(g),
            None => if f.cid == k {
                Some(f)
            } else {
                None
            },
        },
    decreases frames.len(),
{
    if frames.len() == 0 {
        assert(frames.push(f)[0] == f);
        assert(frames.push(f).skip(1) =~= Seq::<BlockFrame>::empty());
        assert(first_frame_with(Seq::<BlockFrame>::empty(), k) is None);
    } else {
        assert(frames.push(f)[0] == frames[0]);
        assert(frames.push(f).skip(1) =~= frames.skip(1).push(f));
        lemma_first_frame_push(frames.skip(1), f, k);
    }
}


/// The first frame carrying a CID exists whenever some frame carries it.
pub proof fn lemma_first_frame_exists(frames: Seq<BlockFrame>, i: int)
    requires
        0 <= i < frames.len(),
    ensures
        first_frame_with(frames, frames[i].cid) is Some,
    decreases frames.len(),
{
    if frames[0].cid != frames[i].cid {
        lemma_first_frame_exists(frames.skip(1), i - 1);
    }
}

/// The first frame carrying a CID is one of the frames, and no earlier
/// frame carries that CID.
pub proof fn lemma_first_frame_member(frames: Seq<BlockFrame>, k: Seq<u8>)
    requires
        first_frame_with(frames, k) is Some,
    ensures
        exists|j: int|
            0 <= j < frames.len() && frames[j] == first_frame_with(frames, k)->Some_0
                && frames[j].cid == k,
    decreases frames.len(),
{
    if frames.len() > 0 && frames[0].cid != k {
        lemma_first_frame_member(frames.skip(1), k);
        let j = choose|j: int|
            0 <= j < frames.skip(1).len() && frames.skip(1)[j] == first_frame_with(
                frames.skip(1),
                k,
            )->Some_0 && frames.skip(1)[j].cid == k;
        assert(frames[j + 1] == frames.skip(1)[j]);
    }
}

/// A CID that no frame carries has no first frame.
pub proof fn lemma_first_frame_absent(frames: Seq<BlockFrame>, k: Seq<u8>)
    requires
        forall|j: int| 0 <= j < frames.len() ==> (#[trigger] frames[j]).cid != k,
    ensures
        first_frame_with(frames, k) is None,
    decreases frames.len(),
{
    if frames.len() > 0 {
        assert(frames.skip(1).len() == frames.len() - 1);
        assert forall|j: int| 0 <= j < frames.skip(1).len() implies (#[trigger] frames.skip(1)[j]).cid
            != k by {
            assert(frames.skip(1)[j] == frames[j + 1]);
        }
        lemma_first_frame_absent(frames.skip(1), k);
    }
}

/// Round-trip: on a handle opened from a valid archive image, a read of any
/// frame's CID returns exactly the payload bytes of the first frame in the
/// stream that carries that CID. On an archive without duplicate CIDs that
/// is the frame's own payload.
pub proof fn lemma_round_trip(car: PlainCar, s: Seq<u8>, m: CarModel, i: int)
    requires
        car.models(s, m),
        0 <= i < m.frames.len(),
    ensures
        first_frame_with(m.frames, m.frames[i].cid) matches Some(f) && car.get_result(
            m.frames[i].cid,
        ) == Some(s.subrange(f.data_offset, f.data_offset + f.data_len)),
{
    let k = m.frames[i].cid;
    lemma_first_frame_exists(m.frames, i);
    lemma_first_frame_member(m.frames, k);
    let f = first_frame_with(m.frames, k)->Some_0;
    let j = choose|j: int| 0 <= j < m.frames.len() && m.frames[j] == f && m.frames[j].cid == k;
    assert(f.data_offset >= 0 && f.data_offset + f.data_len <= s.len());
    assert(car.index_at(k) == frame_loc_of(Some(f)));
    assert(car.cache_at(k) is None);
}


/// In a stream whose frames carry pairwise distinct CIDs, the first frame
/// with a frame's CID is that frame itself.
pub proof fn lemma_first_frame_distinct(frames: Seq<BlockFrame>, i: int)
    requires
        0 <= i < frames.len(),
        forall|a: int, b: int| 0 <= a < b < frames.len() ==> frames[a].cid != frames[b].cid,
    ensures
        first_frame_with(frames, frames[i].cid) == Some(frames[i]),
    decreases i,
{
    if i > 0 {
        assert(frames[0].cid != frames[i].cid);
        assert forall|a: int, b: int| 0 <= a < b < frames.skip(1).len() implies frames.skip(1)[a].cid
            != frames.skip(1)[b].cid by {
            assert(frames.skip(1)[a] == frames[a + 1]);
            assert(frames.skip(1)[b] == frames[b + 1]);
        }
        assert(frames.skip(1)[i - 1] == frames[i]);
        lemma_first_frame_distinct(frames.skip(1), i - 1);
    }
}

/// Round-trip on an archive without duplicate CIDs: a read of any frame's
/// CID returns exactly that frame's own payload bytes.
pub proof fn lemma_round_trip_distinct(car: PlainCar, s: Seq<u8>, m: CarModel, i: int)
    requires
        car.models(s, m),
        0 <= i < m.frames.len(),
        forall|a: int, b: int| 0 <= a < b < m.frames.len() ==> m.frames[a].cid != m.frames[b].cid,
    ensures
        car.get_result(m.frames[i].cid) == Some(
            s.subrange(m.frames[i].data_offset, m.frames[i].data_offset + m.frames[i].data_len),
        ),
{
    lemma_first_frame_distinct(m.frames, i);
    lemma_round_trip(car, s, m, i);
}

/// Version detection: a valid archive whose image begins with the CARv2
/// pragma has version 2; any other valid image has version 1.
pub proof fn lemma_version_detection(s: Seq<u8>, m: CarModel)
    requires
        car_scan(s) == CarScan::Valid(m),
    ensures
        m.version == if has_v2_pragma(s) {
            2int
        } else {
            1int
        },
{
}

/// Index completeness: on a handle opened from a valid archive image,
/// every frame's CID is indexed, and a CID carried by no frame is not.
pub proof fn lemma_index_complete(car: PlainCar, s: Seq<u8>, m: CarModel)
    requires
        car.models(s, m),
    ensures
        forall|i: int|
            0 <= i < m.frames.len() ==> car.index_at((#[trigger] m.frames[i]).cid) is Some,
        forall|k: Seq<u8>|
            (forall|i: int| 0 <= i < m.frames.len() ==> (#[trigger] m.frames[i]).cid != k)
                ==> #[trigger] car.index_at(k) is None,
{
    assert forall|i: int| 0 <= i < m.frames.len() implies car.index_at(
        (#[trigger] m.frames[i]).cid,
    ) is Some by {
        lemma_first_frame_exists(m.frames, i);
    }
    assert forall|k: Seq<u8>|
        (forall|i: int| 0 <= i < m.frames.len() ==> (#[trigger] m.frames[i]).cid != k)
            implies #[trigger] car.index_at(k) is None by {
        lemma_first_frame_absent(m.frames, k);
    }
}

/// Write-cache idempotence: writing the same block under the same CID a
/// second time changes no observable state.
pub proof fn lemma_put_keyed_idempotent(
    pre: PlainCar,
    mid: PlainCar,
    post: PlainCar,
    k: Seq<u8>,
    block: Seq<u8>,
)
    requires
        pre.wf(),
        pre.put_allowed(k, block),
        PlainCar::put_post(pre, mid, k, block),
        PlainCar::put_post(mid, post, k, block),
    ensures
        mid.put_allowed(k, block),
        forall|k2: Seq<u8>| #[trigger] post.cache_at(k2) == mid.cache_at(k2),
        forall|k2: Seq<u8>| #[trigger] post.index_at(k2) == mid.index_at(k2),
        post.spec_bytes() == mid.spec_bytes(),
{
    assert forall|k2: Seq<u8>| #[trigger] post.cache_at(k2) == mid.cache_at(k2) by {
        if k2 == k {
            assert(mid.index_at(k) == pre.index_at(k));
        }
    }
}

/// Write-cache content safety: a second write under a CID absent from
/// the index, carrying bytes different from the cached ones, is exactly
/// the condition [`PlainCar::put_conflicts`] reports and the store's
/// callers abort the process on; it is excluded from
/// [`PlainCar::put_keyed`] by its precondition, so no verified execution
/// reaches it. The abort itself is the callers' (content addressing makes
/// the mismatch corruption).
pub proof fn lemma_conflicting_write_is_excluded(
    car: PlainCar,
    k: Seq<u8>,
    b1: Seq<u8>,
    b2: Seq<u8>,
)
    requires
        car.wf(),
        car.index_at(k) is None,
        car.cache_at(k) == Some(b1),
        b1 != b2,
    ensures
        !car.put_allowed(k, b2),
{
}

/// Eviction correctness: after a read of a CID present in both the index
/// and the cache, the cache no longer holds the CID, and a second read
/// returns the on-disk bytes.
pub proof fn lemma_eviction(pre: PlainCar, post: PlainCar, k: Seq<u8>)
    requires
        pre.wf(),
        pre.index_at(k) is Some,
        pre.cache_at(k) is Some,
        PlainCar::get_post(pre, post, k),
    ensures
        post.cache_at(k) is None,
        pre.index_at(k) matches Some(loc) && post.get_result(k) == Some(
            pre.spec_bytes().subrange(loc.offset as int, loc.offset + loc.length),
        ),
{
}

} // verus!
