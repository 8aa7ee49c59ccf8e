//! Unsigned LEB128 varints, the length prefixes of every CAR frame.

use vstd::prelude::*;

verus! {

use crate::error::CarError;

/// Decodes an unsigned LEB128 varint from the front of `s`, reading at most
/// `fuel` bytes: the value and the number of bytes it occupies. Each byte
/// contributes its low seven bits, least significant group first; a clear
/// high bit ends the varint.
pub open spec fn leb128_bounded(s: Seq<u8>, fuel: nat) -> Option<(nat, nat)>
    decreases fuel,
{
    if fuel == 0 || s.len() == 0 {
        None
    } else if s[0] < 0x80 {
        Some((s[0] as nat, 1))
    } else {
        match leb128_bounded(s.skip(1), (fuel - 1) as nat) {
            Some(p) => Some((((s[0] - 0x80) + 128 * p.0) as nat, p.1 + 1)),
            None => None,
        }
    }
}

/// The varint starting at byte `pos` of `s`, if any. A varint is read over
/// at most ten bytes, the canonical bound for 64-bit values.
pub open spec fn varint_at(s: Seq<u8>, pos: int) -> Option<(nat, nat)> {
    if 0 <= pos <= s.len() {
        leb128_bounded(s.skip(pos), 10)
    } else {
        None
    }
}

/// There is no varint at `pos` that a 64-bit reader accepts: either the
/// bytes decode to nothing, or the value does not fit in 64 bits.
pub open spec fn no_u64_varint_at(s: Seq<u8>, pos: int) -> bool {
    match varint_at(s, pos) {
        Some(p) => p.0 >= 0x10000000000000000,
        None => true,
    }
}

/// A decoded varint occupies between one byte and `fuel` bytes, and no more
/// than the input holds.
pub proof fn lemma_leb128_bounded_len(s: Seq<u8>, fuel: nat)
    ensures
        leb128_bounded(s, fuel) matches Some(p) ==> 1 <= p.1 <= fuel && p.1 <= s.len(),
    decreases fuel,
{
    if fuel > 0 && s.len() > 0 && s[0] >= 0x80 {
        lemma_leb128_bounded_len(s.skip(1), (fuel - 1) as nat);
    }
}

fn read_varint_u64_rec(bytes: &[u8], pos: usize, fuel: usize) -> (r: Option<(u64, usize)>)
    requires
        pos <= bytes@.len(),
        fuel <= 10,
    ensures
        match r {
            Some(p) => {
                &&& leb128_bounded(bytes@.skip(pos as int), fuel as nat)
                    == Some((p.0 as nat, p.1 as nat))
                &&& pos + p.1 <= bytes@.len()
            },
            None => match leb128_bounded(bytes@.skip(pos as int), fuel as nat) {
                Some(p) => p.0 >= 0x10000000000000000,
                None => true,
            },
        },
    decreases fuel,
{
    if fuel == 0 || pos >= bytes.len() {
        return None;
    }
    let b = bytes[pos];
    if b < 0x80 {
        Some((b as u64, 1))
    } else {
        assert(bytes@.skip(pos as int).skip(1) =~= bytes@.skip(pos as int + 1));
        match read_varint_u64_rec(bytes, pos + 1, fuel - 1) {
            Some((v, n)) => {
                if v >= 0x0200_0000_0000_0000 {
                    None
                } else {
                    Some(((b - 0x80) as u64 + 128 * v, n + 1))
                }
            }
            None => None,
        }
    }
}

/// Reads the varint at `pos`, rejecting values that do not fit in 64 bits.
pub fn read_varint_u64(bytes: &[u8], pos: usize) -> (r: Result<(u64, usize), CarError>)
    requires
        pos <= bytes@.len(),
    ensures
        match r {
            Ok(p) => {
                &&& varint_at(bytes@, pos as int) == Some((p.0 as nat, p.1 as nat))
                &&& 1 <= p.1 <= 10
                &&& pos + p.1 <= bytes@.len()
            },
            Err(e) => e == CarError::InvalidData && no_u64_varint_at(bytes@, pos as int),
        },
{
    proof {
        lemma_leb128_bounded_len(bytes@.skip(pos as int), 10);
    }
    match read_varint_u64_rec(bytes, pos, 10) {
        Some(p) => Ok(p),
        None => Err(CarError::InvalidData),
    }
}

/// There is no varint at `pos` that a reader of 32-bit lengths accepts.
pub open spec fn no_u32_varint_at(s: Seq<u8>, pos: int) -> bool {
    match varint_at(s, pos) {
        Some(p) => p.0 > u32::MAX,
        None => true,
    }
}

/// Reads the varint at `pos`, rejecting values that do not fit in 32 bits;
/// body lengths of block frames are bounded this way.
pub fn read_varint_u32(bytes: &[u8], pos: usize) -> (r: Result<(u32, usize), CarError>)
    requires
        pos <= bytes@.len(),
    ensures
        match r {
            Ok(p) => {
                &&& varint_at(bytes@, pos as int) == Some((p.0 as nat, p.1 as nat))
                &&& 1 <= p.1 <= 10
                &&& pos + p.1 <= bytes@.len()
            },
            Err(e) => e == CarError::InvalidData && no_u32_varint_at(bytes@, pos as int),
        },
{
    match read_varint_u64(bytes, pos) {
        Ok((v, n)) => {
            if v > u32::MAX as u64 {
                Err(CarError::InvalidData)
            } else {
                Ok((v as u32, n))
            }
        }
        Err(e) => Err(e),
    }
}

} // verus!
