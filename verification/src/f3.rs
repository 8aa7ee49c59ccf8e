//! The F3 sidecar's configuration logic.
//!
//! The sidecar's parameters come from environment overrides with chain
//! configuration defaults behind them. Reading the environment is the
//! runner's work; this module decides, from the override texts and the
//! defaults, what the parameters are: finality (a positive integer, or the
//! default), the initial power table CID (an override, unset by an empty
//! text), and the bootstrap epoch.

use vstd::prelude::*;

verus! {

use crate::cids::{Cid, cid_of_text, parse_cid_text};

/// The decimal value of a digit string, most significant digit first.
pub open spec fn dec_value(s: Seq<u8>) -> nat
    decreases s.len(),
{
    if s.len() == 0 {
        0
    } else {
        (dec_value(s.drop_last()) * 10 + (s.last() - 48)) as nat
    }
}

/// Every byte is an ASCII digit, and there is at least one.
pub open spec fn is_digits(s: Seq<u8>) -> bool {
    s.len() >= 1 && forall|i: int| 0 <= i < s.len() ==> 48 <= #[trigger] s[i] <= 57
}

/// What parsing a signed 64-bit integer from text yields: an optional
/// leading sign, then one or more digits, with the value in range.
pub open spec fn parse_i64_spec(s: Seq<u8>) -> Option<int> {
    if s.len() == 0 {
        None
    } else {
        let negative = s[0] == 45;
        let digits = if s[0] == 43 || s[0] == 45 {
            s.skip(1)
        } else {
            s
        };
        if !is_digits(digits) {
            None
        } else {
            let v = if negative {
                -(dec_value(digits) as int)
            } else {
                dec_value(digits) as int
            };
            if -0x8000_0000_0000_0000 <= v <= 0x7fff_ffff_ffff_ffff {
                Some(v)
            } else {
                None
            }
        }
    }
}

/// A longer digit string is worth at least as much as its prefix.
proof fn lemma_dec_value_prefix(s: Seq<u8>, i: int)
    requires
        0 <= i <= s.len(),
        forall|j: int| 0 <= j < s.len() ==> 48 <= #[trigger] s[j] <= 57,
    ensures
        dec_value(s) >= dec_value(s.take(i)),
    decreases s.len() - i,
{
    if i < s.len() {
        assert(s.take(i + 1).drop_last() =~= s.take(i));
        assert(s.take(i + 1).last() == s[i]);
        assert(dec_value(s.take(i + 1)) == dec_value(s.take(i)) * 10 + (s[i] - 48));
        lemma_dec_value_prefix(s, i + 1);
        assert(s.take(s.len() as int) =~= s);
    } else {
        assert(s.take(s.len() as int) =~= s);
    }
}

/// Parses a signed 64-bit integer from decimal text, as the environment
/// hands it over: an optional `+` or `-`, then digits.
pub fn parse_i64(text: &[u8]) -> (r: Option<i64>)
    ensures
        match r {
            Some(v) => parse_i64_spec(text@) == Some(v as int),
            None => parse_i64_spec(text@) is None,
        },
{
    if text.len() == 0 {
        return None;
    }
    let negative = text[0] == 45;
    let start: usize = if text[0] == 43 || text[0] == 45 {
        1
    } else {
        0
    };
    let ghost digits = if text@[0] == 43 || text@[0] == 45 {
        text@.skip(1)
    } else {
        text@
    };
    let n = text.len();
    if start >= n {
        return None;
    }
    let limit: u64 = if negative {
        0x8000_0000_0000_0000
    } else {
        0x7fff_ffff_ffff_ffff
    };
    let mut acc: u64 = 0;
    let mut over = false;
    let mut i = start;
    proof {
        assert(digits.take(0) =~= Seq::<u8>::empty());
    }
    while i < n
        invariant
            start <= i <= n,
            n == text@.len(),
            start == 0 || start == 1,
            digits == text@.skip(start as int),
            digits == if text@[0] == 43 || text@[0] == 45 {
                text@.skip(1)
            } else {
                text@
            },
            digits.len() == n - start,
            forall|j: int| 0 <= j < i - start ==> 48 <= #[trigger] digits[j] <= 57,
            limit == if negative {
                0x8000_0000_0000_0000u64
            } else {
                0x7fff_ffff_ffff_ffffu64
            },
            !over ==> acc == dec_value(digits.take(i - start)) && acc <= limit,
            over ==> dec_value(digits.take(i - start)) > limit,
        decreases n - i,
    {
        let b = text[i];
        if b < 48 || b > 57 {
            proof {
                assert(digits[i - start] == text@[i as int]);
                assert(!is_digits(digits));
            }
            return None;
        }
        proof {
            assert(digits[i - start] == text@[i as int]);
            assert(digits.take(i - start + 1).drop_last() =~= digits.take(i - start));
            assert(digits.take(i - start + 1).last() == digits[i - start]);
        }
        let d = (b - 48) as u64;
        if over {
        } else if acc > limit / 10 {
            over = true;
        } else {
            let acc10 = acc * 10;
            if d > limit - acc10 {
                over = true;
            } else {
                acc = acc10 + d;
            }
        }
        i = i + 1;
    }
    proof {
        assert(digits.take(n - start) =~= digits);
        assert(is_digits(digits));
    }
    if over {
        return None;
    }
    if negative {
        if acc == 0x8000_0000_0000_0000 {
            Some(i64::MIN)
        } else {
            Some(-(acc as i64))
        }
    } else {
        Some(acc as i64)
    }
}

/// The F3 sidecar's parameters.
#[derive(Debug, PartialEq, Eq, Clone)]
pub struct F3Options {
    /// The chain finality, in epochs; always positive.
    pub chain_finality: i64,
    /// The epoch at which F3 bootstraps.
    pub bootstrap_epoch: i64,
    /// The CID of the initial power table, when one is pinned.
    pub initial_power_table: Option<Cid>,
}

/// The chain-configuration defaults the environment can override.
#[derive(Debug, Clone)]
pub struct F3ChainConfig {
    /// The policy's chain finality, in epochs.
    pub chain_finality: i64,
    /// The default bootstrap epoch.
    pub f3_bootstrap_epoch: i64,
    /// The default initial power table CID, if any.
    pub f3_initial_power_table: Option<Cid>,
    /// Whether F3 is enabled by the chain configuration.
    pub f3_enabled: bool,
}

/// The view of an optional CID.
pub open spec fn opt_cid_view(o: Option<Cid>) -> Option<Seq<u8>> {
    match o {
        Some(c) => Some(c@),
        None => None,
    }
}

/// The finality an override text selects: a positive parsed value wins,
/// anything else falls back to the default.
pub open spec fn finality_of(env: Option<Seq<u8>>, default: int) -> int {
    match env {
        Some(s) => match parse_i64_spec(s) {
            Some(f) => if f > 0 {
                f
            } else {
                default
            },
            None => default,
        },
        None => default,
    }
}

/// The bootstrap epoch an override text selects: any parsed value wins.
pub open spec fn bootstrap_of(env: Option<Seq<u8>>, default: int) -> int {
    match env {
        Some(s) => match parse_i64_spec(s) {
            Some(e) => e,
            None => default,
        },
        None => default,
    }
}

/// The initial power table an override text selects: an empty text unsets
/// it, a valid CID text pins it, anything else falls back to the default.
pub open spec fn power_table_of(env: Option<Seq<u8>>, default: Option<Seq<u8>>) -> Option<
    Seq<u8>,
> {
    match env {
        Some(s) => {
            if s.len() == 0 {
                None
            } else {
                match cid_of_text(s) {
                    Some(c) => Some(c),
                    None => default,
                }
            }
        }
        None => default,
    }
}

/// The view of an optional byte vector.
pub open spec fn opt_bytes_view(o: Option<&Vec<u8>>) -> Option<Seq<u8>> {
    match o {
        Some(v) => Some(v@),
        None => None,
    }
}

/// Resolves the sidecar's parameters from the three environment override
/// texts and the chain-configuration defaults.
pub fn get_f3_sidecar_params(
    config: &F3ChainConfig,
    finality_env: Option<&Vec<u8>>,
    power_table_env: Option<&Vec<u8>>,
    bootstrap_env: Option<&Vec<u8>>,
) -> (r: F3Options)
    ensures
        r.chain_finality as int == finality_of(
            opt_bytes_view(finality_env),
            config.chain_finality as int,
        ),
        r.bootstrap_epoch as int == bootstrap_of(
            opt_bytes_view(bootstrap_env),
            config.f3_bootstrap_epoch as int,
        ),
        opt_cid_view(r.initial_power_table) == power_table_of(
            opt_bytes_view(power_table_env),
            opt_cid_view(config.f3_initial_power_table),
        ),
{
    let chain_finality: i64 = match finality_env {
        Some(text) => match parse_i64(text.as_slice()) {
            Some(f) => {
                if f > 0 {
                    f
                } else {
                    config.chain_finality
                }
            }
            None => config.chain_finality,
        },
        None => config.chain_finality,
    };
    let initial_power_table: Option<Cid> = match power_table_env {
        Some(text) => {
            if text.len() == 0 {
                None
            } else {
                match parse_cid_text(text.as_slice()) {
                    Some(c) => Some(c),
                    None => match &config.f3_initial_power_table {
                        Some(c) => Some(c.dup()),
                        None => None,
                    },
                }
            }
        }
        None => match &config.f3_initial_power_table {
            Some(c) => Some(c.dup()),
            None => None,
        },
    };
    let bootstrap_epoch: i64 = match bootstrap_env {
        Some(text) => match parse_i64(text.as_slice()) {
            Some(e) => e,
            None => config.f3_bootstrap_epoch,
        },
        None => config.f3_bootstrap_epoch,
    };
    F3Options { chain_finality, bootstrap_epoch, initial_power_table }
}

/// Whether the F3 sidecar runs over FFI: the environment override when
/// set, the chain configuration otherwise — and only in a binary compiled
/// with the sidecar.
pub fn is_sidecar_ffi_enabled(
    config: &F3ChainConfig,
    env_enabled: Option<bool>,
    compiled_with_sidecar: bool,
) -> (r: bool)
    ensures
        r == (compiled_with_sidecar && match env_enabled {
            Some(b) => b,
            None => config.f3_enabled,
        }),
{
    let enabled = match env_enabled {
        Some(b) => b,
        None => config.f3_enabled,
    };
    compiled_with_sidecar && enabled
}

/// Whether the runner should start the F3 sidecar service: exactly when
/// the sidecar is enabled over FFI.
pub fn run_f3_sidecar_if_enabled(
    config: &F3ChainConfig,
    env_enabled: Option<bool>,
    compiled_with_sidecar: bool,
) -> (r: bool)
    ensures
        r == (compiled_with_sidecar && match env_enabled {
            Some(b) => b,
            None => config.f3_enabled,
        }),
{
    is_sidecar_ffi_enabled(config, env_enabled, compiled_with_sidecar)
}

} // verus!
