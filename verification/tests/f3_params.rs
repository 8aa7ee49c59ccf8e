//! Tests of the F3 sidecar parameter resolution.

use forest_car::cids::{parse_cid_text, Cid};
use forest_car::backfill::backfill_from_epoch;
use forest_car::f3::{
    get_f3_sidecar_params, is_sidecar_ffi_enabled, parse_i64, run_f3_sidecar_if_enabled,
    F3ChainConfig, F3Options,
};

const POWER_TABLE_CID: &[u8] = b"bafyreicmaj5hhoy5mgqvamfhgexxyergw7hdeshizghodwkjg6qmpoco7i";

fn calibnet_like_config() -> F3ChainConfig {
    F3ChainConfig {
        chain_finality: 900,
        f3_bootstrap_epoch: 2_081_674,
        f3_initial_power_table: parse_cid_text(POWER_TABLE_CID),
        f3_enabled: true,
    }
}

fn power_table() -> Option<Cid> {
    let cid = parse_cid_text(POWER_TABLE_CID);
    assert!(cid.is_some());
    cid
}

#[test]
fn test_get_f3_sidecar_params() {
    let chain_config = calibnet_like_config();
    // No environment variable overrides.
    assert_eq!(
        get_f3_sidecar_params(&chain_config, None, None, None),
        F3Options {
            chain_finality: chain_config.chain_finality,
            bootstrap_epoch: chain_config.f3_bootstrap_epoch,
            initial_power_table: power_table(),
        }
    );

    // All three overridden.
    let finality = b"100".to_vec();
    let table = POWER_TABLE_CID.to_vec();
    let bootstrap = b"100".to_vec();
    assert_eq!(
        get_f3_sidecar_params(&chain_config, Some(&finality), Some(&table), Some(&bootstrap)),
        F3Options {
            chain_finality: 100,
            bootstrap_epoch: 100,
            initial_power_table: power_table(),
        }
    );

    // An empty override unsets the initial power table.
    let empty = Vec::new();
    assert_eq!(
        get_f3_sidecar_params(&chain_config, Some(&finality), Some(&empty), Some(&bootstrap)),
        F3Options {
            chain_finality: 100,
            bootstrap_epoch: 100,
            initial_power_table: None,
        }
    );
}

#[test]
fn invalid_finality_falls_back_to_config() {
    let chain_config = calibnet_like_config();
    for bad in [&b"-5"[..], b"0", b"ten", b""] {
        let env = bad.to_vec();
        let params = get_f3_sidecar_params(&chain_config, Some(&env), None, None);
        assert_eq!(params.chain_finality, chain_config.chain_finality);
    }
}

#[test]
fn invalid_power_table_falls_back_to_config() {
    let chain_config = calibnet_like_config();
    let env = b"not a cid".to_vec();
    let params = get_f3_sidecar_params(&chain_config, None, Some(&env), None);
    assert_eq!(params.initial_power_table, power_table());
}

#[test]
fn parse_i64_matches_decimal_grammar() {
    assert_eq!(parse_i64(b"0"), Some(0));
    assert_eq!(parse_i64(b"100"), Some(100));
    assert_eq!(parse_i64(b"+42"), Some(42));
    assert_eq!(parse_i64(b"-42"), Some(-42));
    assert_eq!(parse_i64(b"9223372036854775807"), Some(i64::MAX));
    assert_eq!(parse_i64(b"-9223372036854775808"), Some(i64::MIN));
    assert_eq!(parse_i64(b"9223372036854775808"), None);
    assert_eq!(parse_i64(b"-9223372036854775809"), None);
    assert_eq!(parse_i64(b""), None);
    assert_eq!(parse_i64(b"+"), None);
    assert_eq!(parse_i64(b"12a"), None);
    assert_eq!(parse_i64(b"007"), Some(7));
}

#[test]
fn sidecar_runs_only_when_compiled_and_enabled() {
    let config = calibnet_like_config();
    assert!(is_sidecar_ffi_enabled(&config, None, true));
    assert!(!is_sidecar_ffi_enabled(&config, None, false));
    assert!(!is_sidecar_ffi_enabled(&config, Some(false), true));
    assert!(is_sidecar_ffi_enabled(&config, Some(true), true));
    assert!(run_f3_sidecar_if_enabled(&config, Some(true), true));
    assert!(!run_f3_sidecar_if_enabled(&config, Some(true), false));
}

#[test]
fn backfill_range_is_clamped_to_the_ethereum_epoch() {
    let hygge = 322_354;
    // No override: start at the Ethereum-support epoch.
    assert_eq!(backfill_from_epoch(None, 4_000_000, hygge), hygge);
    // A small range stays near the head.
    let small = b"100".to_vec();
    assert_eq!(backfill_from_epoch(Some(&small), 4_000_000, hygge), 3_999_900);
    // A huge range is clamped to the Ethereum-support epoch.
    let huge = b"9000000".to_vec();
    assert_eq!(backfill_from_epoch(Some(&huge), 4_000_000, hygge), hygge);
    // An unparsable override falls back entirely.
    let bad = b"many".to_vec();
    assert_eq!(backfill_from_epoch(Some(&bad), 4_000_000, hygge), hygge);
}
