//! The wallet operations: overwrite guarding, address derivation, show.

use polymarket_wallet::codec::{encode_config, parse_config};
use polymarket_wallet::config::KeySource;
use polymarket_wallet::wallet::{
    cmd_address, cmd_create, cmd_import, cmd_show, execute, ExecOutcome, WalletArgs, WalletCommand,
};
use polymarket_wallet::WalletError;

fn valid_key() -> String {
    format!("0x{}", "ab".repeat(32))
}

#[test]
fn create_refuses_overwrite() {
    let r = cmd_create(false, true);
    assert!(matches!(r, Err(WalletError::OverwriteRefused { .. })));
}

#[test]
fn import_refuses_overwrite() {
    let r = cmd_import(&valid_key(), false, true);
    assert!(matches!(r, Err(WalletError::OverwriteRefused { .. })));
}

#[test]
fn force_overrides_existing_record() {
    let imported = cmd_import(&valid_key(), true, true);
    assert!(imported.is_ok());
    let created = cmd_create(true, true);
    assert!(created.is_ok());
}

#[test]
fn create_plans_a_valid_record() {
    let setup = match cmd_create(false, false) {
        Ok(s) => s,
        Err(_) => panic!("create must succeed on a fresh profile"),
    };
    let config = parse_config(&setup.plan.content).expect("created record must parse");
    assert_eq!(config.chain_id, 137);
    assert!(config.private_key.starts_with("0x"));
    assert_eq!(config.private_key.len(), 66);
    assert!(setup.plan.path.ends_with("/.config/polymarket/config.json"));
    assert!(setup.plan.dir.ends_with("/.config/polymarket"));
    // re-deriving from the planned key gives the reported address
    let again = cmd_address(Some(&config.private_key), None, None).expect("generated key is valid");
    assert_eq!(again, setup.address);
}

#[test]
fn import_normalizes_before_saving() {
    let bare = "ab".repeat(32);
    let setup = match cmd_import(&bare, false, false) {
        Ok(s) => s,
        Err(_) => panic!("import of a valid key must succeed"),
    };
    let config = parse_config(&setup.plan.content).expect("imported record must parse");
    assert_eq!(config.private_key, valid_key());
    assert_eq!(config.chain_id, 137);
}

#[test]
fn import_rejects_invalid_key() {
    match cmd_import("zz", false, false) {
        Err(WalletError::InvalidKeyFormat { cause }) => assert!(!cause.is_empty()),
        _ => panic!("import must refuse an unparsable key and carry the cause"),
    }
}

#[test]
fn import_rejects_zero_key() {
    let zero = "00".repeat(32);
    let r = cmd_import(&zero, false, false);
    assert!(matches!(r, Err(WalletError::InvalidKeyFormat { .. })));
}

#[test]
fn address_requires_a_wallet() {
    let r = cmd_address(None, None, None);
    assert!(matches!(r, Err(WalletError::NoWalletConfigured)));
}

#[test]
fn address_rejects_invalid_key() {
    let r = cmd_address(Some("nothex"), None, None);
    assert!(matches!(r, Err(WalletError::InvalidKeyFormat { .. })));
}

#[test]
fn address_known_value() {
    let key = "0x0000000000000000000000000000000000000000000000000000000000000001";
    let a = cmd_address(Some(key), None, None).expect("key one is valid");
    assert_eq!(a, "0x7E5F4552091A69125d5DfCb7b8C2659029395Bdf");
}

#[test]
fn address_is_deterministic() {
    let key = valid_key();
    let a1 = cmd_address(Some(&key), None, None).expect("valid key");
    let a2 = cmd_address(Some(&key), None, None).expect("valid key");
    assert_eq!(a1, a2);
}

#[test]
fn address_reads_the_stored_record() {
    let content = encode_config(&valid_key(), 137);
    let via_file = cmd_address(None, None, Some(&content)).expect("stored key is valid");
    let via_flag = cmd_address(Some(&valid_key()), None, None).expect("valid key");
    assert_eq!(via_file, via_flag);
}

#[test]
fn show_degrades_on_missing_record() {
    let o = cmd_show(None, None, None).expect("show must not fail without a wallet");
    assert_eq!(o.address, None);
    assert!(!o.configured);
    assert_eq!(o.source, KeySource::Absent);
}

#[test]
fn show_degrades_on_corrupt_record() {
    let o = cmd_show(None, None, Some("{corrupt")).expect("show must not fail on corruption");
    assert_eq!(o.address, None);
    assert!(!o.configured);
    assert_eq!(o.source, KeySource::Absent);
}

#[test]
fn show_degrades_on_invalid_stored_key() {
    let content = encode_config("0xzz", 137);
    let o = cmd_show(None, None, Some(&content)).expect("show must not fail on a bad key");
    assert_eq!(o.address, None);
    assert!(!o.configured);
    assert_eq!(o.source, KeySource::ConfigFile);
}

#[test]
fn show_reports_a_configured_wallet() {
    let content = encode_config(&valid_key(), 137);
    let o = cmd_show(None, None, Some(&content)).expect("show succeeds");
    assert!(o.configured);
    assert_eq!(o.source, KeySource::ConfigFile);
    let addr = o.address.expect("a valid stored key has an address");
    assert!(addr.starts_with("0x"));
    assert!(o.config_path.ends_with("/.config/polymarket/config.json"));
}

#[test]
fn execute_dispatches_import() {
    let args = WalletArgs {
        command: WalletCommand::Import { key: valid_key(), force: false },
    };
    let r = execute(args, None, None, None, false);
    assert!(matches!(r, Ok(ExecOutcome::Imported(_))));
}

#[test]
fn execute_dispatches_address_with_flag() {
    let args = WalletArgs { command: WalletCommand::Address };
    let key = valid_key();
    match execute(args, Some(&key), None, None, false) {
        Ok(ExecOutcome::Address(a)) => assert!(a.starts_with("0x")),
        _ => panic!("address must resolve through the flag"),
    }
}

#[test]
fn execute_dispatches_show() {
    let args = WalletArgs { command: WalletCommand::Show };
    match execute(args, None, None, None, false) {
        Ok(ExecOutcome::Shown(o)) => assert_eq!(o.source, KeySource::Absent),
        _ => panic!("show must succeed without a wallet"),
    }
}

#[test]
fn execute_honors_overwrite_guard() {
    let args = WalletArgs { command: WalletCommand::Create { force: false } };
    let r = execute(args, None, None, None, true);
    assert!(matches!(r, Err(WalletError::OverwriteRefused { .. })));
}
