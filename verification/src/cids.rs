//! Content identifiers, held as their canonical byte serialization.
//!
//! The engine treats CIDs as values: it parses them out of block frames,
//! compares them, and never rewrites them. Parsing is the `cid` crate's work;
//! the library holds the resulting bytes.

use vstd::prelude::*;

verus! {

use crate::error::CarError;

/// A content identifier: the canonical byte serialization of a CID.
///
/// Equality is byte equality. The view of a [`Cid`] is its byte sequence.
#[derive(Debug, Clone, Eq)]
pub struct Cid {
    bytes: Vec<u8>,
}

impl View for Cid {
    type V = Seq<u8>;

    closed spec fn view(&self) -> Seq<u8> {
        self.bytes@
    }
}

impl Cid {
    /// Wraps already-serialized CID bytes.
    pub fn from_bytes(bytes: Vec<u8>) -> (r: Cid)
        ensures
            r@ == bytes@,
    {
        Cid { bytes }
    }

    /// The canonical byte serialization.
    pub fn to_bytes(&self) -> (r: Vec<u8>)
        ensures
            r@ == self@,
    {
        let r = self.bytes.clone();
        proof {
            assert(r@ =~= self.bytes@);
        }
        r
    }

    /// A copy of this CID.
    pub fn dup(&self) -> (r: Cid)
        ensures
            r@ == self@,
    {
        Cid { bytes: self.to_bytes() }
    }
}

impl PartialEq for Cid {
    fn eq(&self, other: &Cid) -> (r: bool) {
        let r = self.bytes == other.bytes;
        proof {
            if self.bytes@ =~= other.bytes@ {
                assert(self.bytes@ == other.bytes@);
            }
        }
        r
    }
}

impl vstd::std_specs::cmp::PartialEqSpecImpl for Cid {
    open spec fn obeys_eq_spec() -> bool {
        true
    }

    open spec fn eq_spec(&self, other: &Cid) -> bool {
        self@ == other@
    }
}

/// What parsing a CID from the front of a byte stream yields: the CID's
/// canonical bytes, and how many input bytes are left after it. The parse
/// is a function of the input bytes alone.
pub uninterp spec fn cid_scan(s: Seq<u8>) -> Option<(Seq<u8>, nat)>;

/// Relies on `cid::Cid::read_bytes`: it parses one CID from the front of the
/// stream (version varint, codec varint, multihash) and is a function of the
/// bytes alone; on success at least one byte has been consumed. The returned
/// CID carries `cid::Cid::to_bytes`, its canonical serialization.
#[verifier::external_body]
pub(crate) fn read_cid_prefix(bytes: &[u8]) -> (r: Result<(Cid, usize), CarError>)
    ensures
        match r {
            Ok(p) => {
                &&& cid_scan(bytes@) == Some((p.0@, p.1 as nat))
                &&& p.1 < bytes@.len()
            },
            Err(e) => e == CarError::InvalidData && cid_scan(bytes@) is None,
        },
{
    let mut rest = bytes;
    match cid::Cid::read_bytes(&mut rest) {
        Ok(c) => Ok((Cid { bytes: c.to_bytes() }, rest.len())),
        Err(_) => Err(CarError::InvalidData),
    }
}

/// What parsing a CID from its multibase text form yields: the CID's
/// canonical bytes. The parse is a function of the text alone.
pub uninterp spec fn cid_of_text(s: Seq<u8>) -> Option<Seq<u8>>;

/// Relies on `cid::Cid::from_str`: it decodes the multibase text form of a
/// CID and is a function of the text alone. Text that is not UTF-8 is not a
/// CID. The returned CID carries `cid::Cid::to_bytes`.
#[verifier::external_body]
pub fn parse_cid_text(text: &[u8]) -> (r: Option<Cid>)
    ensures
        match r {
            Some(c) => cid_of_text(text@) == Some(c@),
            None => cid_of_text(text@) is None,
        },
{
    match core::str::from_utf8(text) {
        Ok(s) => match <cid::Cid as core::str::FromStr>::from_str(s) {
            Ok(c) => Some(Cid { bytes: c.to_bytes() }),
            Err(_) => None,
        },
        Err(_) => None,
    }
}

} // verus!
