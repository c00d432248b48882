//! Resolution precedence, key normalization and the record codec.

use polymarket_wallet::codec::{encode_config, parse_config, u64_to_dec};
use polymarket_wallet::config::{config_path, resolve_key, save_private_key, KeySource};
use polymarket_wallet::hexkey::hex_key;
use polymarket_wallet::wallet::normalize_key;
use polymarket_wallet::WalletError;

#[test]
fn precedence_flag_wins() {
    let content = encode_config("0xCC", 137);
    let (key, source) = resolve_key(Some("0xAA"), Some("0xBB"), Some(content.as_str()));
    assert_eq!(key.as_deref(), Some("0xAA"));
    assert_eq!(source, KeySource::Flag);
}

#[test]
fn precedence_env_over_file() {
    let content = encode_config("0xCC", 137);
    let (key, source) = resolve_key(None, Some("0xBB"), Some(content.as_str()));
    assert_eq!(key.as_deref(), Some("0xBB"));
    assert_eq!(source, KeySource::EnvVar);
}

#[test]
fn precedence_empty_env_falls_through_to_file() {
    let content = encode_config("0xCC", 137);
    let (key, source) = resolve_key(None, Some(""), Some(content.as_str()));
    assert_eq!(key.as_deref(), Some("0xCC"));
    assert_eq!(source, KeySource::ConfigFile);
}

#[test]
fn precedence_nothing_configured() {
    let (key, source) = resolve_key(None, None, None);
    assert_eq!(key, None);
    assert_eq!(source, KeySource::Absent);
}

#[test]
fn precedence_malformed_file_reads_as_absent() {
    let (key, source) = resolve_key(None, None, Some("not a record"));
    assert_eq!(key, None);
    assert_eq!(source, KeySource::Absent);
}

#[test]
fn normalize_idempotence_scenario() {
    let bare = "ab".repeat(32);
    let prefixed = format!("0x{bare}");
    assert_eq!(normalize_key(&bare), prefixed);
    assert_eq!(normalize_key(&prefixed), prefixed);
}

#[test]
fn normalize_keeps_uppercase_prefix() {
    assert_eq!(normalize_key("0Xab"), "0Xab");
}

#[test]
fn normalize_prepends_prefix() {
    assert_eq!(normalize_key("ab"), "0xab");
    assert_eq!(normalize_key(""), "0x");
}

#[test]
fn encode_exact_text() {
    assert_eq!(
        encode_config("0xab", 137),
        "{\n  \"private_key\": \"0xab\",\n  \"chain_id\": 137\n}"
    );
}

#[test]
fn decimal_rendering_exact() {
    assert_eq!(u64_to_dec(0), "0");
    assert_eq!(u64_to_dec(137), "137");
    assert_eq!(u64_to_dec(u64::MAX), "18446744073709551615");
}

#[test]
fn round_trip_record() {
    let key = format!("0x{}", "ab".repeat(32));
    let content = encode_config(&key, 137);
    let config = parse_config(&content).expect("a written record must parse");
    assert_eq!(config.private_key, key);
    assert_eq!(config.chain_id, 137);
}

#[test]
fn parse_accepts_free_whitespace() {
    let config = parse_config("  {  \"private_key\"  :  \"k\"  ,  \"chain_id\"  :  5  }  ")
        .expect("whitespace between tokens is fine");
    assert_eq!(config.private_key, "k");
    assert_eq!(config.chain_id, 5);
}

#[test]
fn parse_rejects_malformed() {
    assert!(parse_config("").is_none());
    assert!(parse_config("{}").is_none());
    assert!(parse_config("not json").is_none());
    assert!(parse_config("{\n  \"private_key\": \"k\",\n  \"chain_id\": \n}").is_none());
    assert!(parse_config("{\n  \"private_key\": \"k\",\n  \"chain_id\": 5\n} x").is_none());
}

#[test]
fn parse_number_bounds() {
    let at_max = parse_config("{\"private_key\": \"k\", \"chain_id\": 18446744073709551615}");
    assert_eq!(at_max.expect("u64::MAX fits").chain_id, u64::MAX);
    let over = parse_config("{\"private_key\": \"k\", \"chain_id\": 18446744073709551616}");
    assert!(over.is_none());
}

#[test]
fn hex_key_exact() {
    assert_eq!(hex_key(&vec![0u8, 255u8, 16u8]), "0x00ff10");
    assert_eq!(hex_key(&vec![]), "0x");
}

#[test]
fn config_path_location() {
    let p = config_path().expect("the home directory is known here");
    assert!(p.ends_with("/.config/polymarket/config.json"));
}

#[test]
fn save_plan_round_trips() {
    let key = format!("0x{}", "ab".repeat(32));
    let plan = save_private_key(&key, 42).expect("the home directory is known here");
    let config = parse_config(&plan.content).expect("a planned record must parse");
    assert_eq!(config.private_key, key);
    assert_eq!(config.chain_id, 42);
    assert_eq!(plan.path, format!("{}/config.json", plan.dir));
    assert!(plan.dir.ends_with("/.config/polymarket"));
}

#[test]
fn save_plan_carries_permission_modes() {
    let key = format!("0x{}", "ab".repeat(32));
    let plan = save_private_key(&key, 137).expect("the home directory is known here");
    assert_eq!(plan.dir_mode, 0o700);
    assert_eq!(plan.file_mode, 0o600);
}

#[test]
fn parse_accepts_either_member_order() {
    let swapped = "{\n  \"chain_id\": 137,\n  \"private_key\": \"0xCC\"\n}";
    let config = parse_config(swapped).expect("reversed member order is valid JSON");
    assert_eq!(config.private_key, "0xCC");
    assert_eq!(config.chain_id, 137);
}

#[test]
fn resolution_reads_reversed_record() {
    let swapped = "{ \"chain_id\": 137, \"private_key\": \"0xCC\" }";
    let (key, source) = resolve_key(None, None, Some(swapped));
    assert_eq!(key.as_deref(), Some("0xCC"));
    assert_eq!(source, KeySource::ConfigFile);
}

#[test]
fn parse_decodes_string_escapes() {
    let config = parse_config("{\"private_key\": \"a\\\"b\\\\c\\n\", \"chain_id\": 1}")
        .expect("escaped quote, backslash and newline are valid");
    assert_eq!(config.private_key, "a\"b\\c\n");
    let unicode = parse_config("{\"private_key\": \"\\u0041\\u00e9\", \"chain_id\": 1}")
        .expect("unicode escapes are valid");
    assert_eq!(unicode.private_key, "A\u{e9}");
}

#[test]
fn parse_rejects_bad_escapes_and_controls() {
    assert!(parse_config("{\"private_key\": \"a\\x\", \"chain_id\": 1}").is_none());
    assert!(parse_config("{\"private_key\": \"a\\ud800\", \"chain_id\": 1}").is_none());
    assert!(parse_config("{\"private_key\": \"a\nb\", \"chain_id\": 1}").is_none());
}

#[test]
fn parse_rejects_leading_zero_numbers() {
    assert!(parse_config("{\"private_key\": \"k\", \"chain_id\": 007}").is_none());
    let zero = parse_config("{\"private_key\": \"k\", \"chain_id\": 0}");
    assert_eq!(zero.expect("a lone zero is valid").chain_id, 0);
}

#[test]
fn source_labels() {
    assert_eq!(KeySource::Flag.label(), "--private-key flag");
    assert_eq!(KeySource::EnvVar.label(), "POLYMARKET_PRIVATE_KEY env var");
    assert_eq!(KeySource::ConfigFile.label(), "config file");
    assert_eq!(KeySource::Absent.label(), "not configured");
}

#[test]
fn error_messages() {
    assert_eq!(
        WalletError::NoWalletConfigured.message(),
        "No wallet configured. Run `polymarket wallet create` or `polymarket wallet import <key>`"
    );
    assert_eq!(
        WalletError::OverwriteRefused { path: String::from("/tmp/c.json") }.message(),
        "A wallet already exists at /tmp/c.json. Use --force to overwrite."
    );
    assert_eq!(
        WalletError::InvalidKeyFormat { cause: String::from("boom") }.message(),
        "Invalid private key: boom"
    );
}
