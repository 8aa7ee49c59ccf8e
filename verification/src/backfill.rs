//! The backfill range of the Ethereum RPC mappings.
//!
//! The node backfills its Ethereum-hash columns from the chain head down
//! to a starting epoch. An environment override gives how many epochs back
//! from the head to go; the range is clamped to the epoch where Ethereum
//! support begins, and never reaches further back than that. Walking the
//! chain is the runner's work; this module decides the starting epoch.

use vstd::prelude::*;

verus! {

use crate::f3::parse_i64_spec;

/// The starting epoch the override text selects: the head minus the
/// overridden number of epochs (saturating), clamped up to `hygge`, the
/// epoch where Ethereum support begins; without a parsable override, just
/// `hygge`.
pub open spec fn backfill_from_epoch_spec(env: Option<Seq<u8>>, head: int, hygge: int) -> int {
    match env {
        Some(s) => match parse_i64_spec(s) {
            Some(n) => {
                let back = if head - n < i64::MIN {
                    i64::MIN as int
                } else if head - n > i64::MAX {
                    i64::MAX as int
                } else {
                    head - n
                };
                if back > hygge {
                    back
                } else {
                    hygge
                }
            },
            None => hygge,
        },
        None => hygge,
    }
}

/// Decides where the Ethereum-mappings backfill starts, from the override
/// text, the head epoch and the Ethereum-support epoch.
pub fn backfill_from_epoch(env: Option<&Vec<u8>>, head_epoch: i64, hygge: i64) -> (r: i64)
    ensures
        r as int == backfill_from_epoch_spec(
            match env {
                Some(v) => Some(v@),
                None => None,
            },
            head_epoch as int,
            hygge as int,
        ),
{
    match env {
        Some(text) => match crate::f3::parse_i64(text.as_slice()) {
            Some(n) => {
                let back = match head_epoch.checked_sub(n) {
                    Some(d) => d,
                    None => {
                        if n > 0 {
                            i64::MIN
                        } else {
                            i64::MAX
                        }
                    }
                };
                if back > hygge {
                    back
                } else {
                    hygge
                }
            }
            None => hygge,
        },
        None => hygge,
    }
}

} // verus!
