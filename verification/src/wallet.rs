//! The wallet operations: create, import, address and show.

use vstd::prelude::*;
use vstd::string::{StrSliceExecFns, StringExecFns};
use crate::codec;
use crate::config::{
    self, KeySource, SavePlan, spec_config_path, spec_plan_ok, spec_resolve, view_opt_str,
};
use crate::hexkey::{self, spec_hex_key};
use crate::signer::{self, address_of, key_parses};
use crate::{POLYGON, WalletError};

verus! {

/// The wallet subcommands.
pub enum WalletCommand {
    /// Generate a new random wallet and save it to the config file.
    Create { force: bool },
    /// Import an existing private key.
    Import { key: String, force: bool },
    /// Show the address of the configured wallet.
    Address,
    /// Show wallet info: address, config path and key source.
    Show,
}

/// The wallet command-line arguments.
pub struct WalletArgs {
    pub command: WalletCommand,
}

/// What `normalize_key` returns: a key already carrying a `0x` or `0X`
/// prefix is kept, any other gets `0x` prepended.
pub open spec fn spec_normalize(k: Seq<char>) -> Seq<char> {
    if k.len() >= 2 && k[0] == '0' && (k[1] == 'x' || k[1] == 'X') {
        k
    } else {
        seq!['0', 'x'] + k
    }
}

/// Normalization is idempotent: normalizing a normalized key changes
/// nothing.
pub proof fn lemma_normalize_idempotent(k: Seq<char>)
    ensures
        spec_normalize(spec_normalize(k)) == spec_normalize(k),
{
}

/// Canonicalizes a hex key to a `0x`-prefixed form.
pub fn normalize_key(key: &str) -> (r: String)
    ensures
        r@ == spec_normalize(key@),
{
    let n = key.unicode_len();
    if n >= 2 {
        let c0 = key.get_char(0);
        let c1 = key.get_char(1);
        if c0 == '0' && (c1 == 'x' || c1 == 'X') {
            return String::from_str(key);
        }
    }
    let mut s = String::from_str("0x");
    s.append(key);
    proof {
        reveal_strlit("0x");
        assert(s@ =~= spec_normalize(key@));
    }
    s
}

/// Whether an operation may proceed against an existing record.
pub open spec fn spec_guard_ok(force: bool, record_exists: bool) -> bool {
    force || !record_exists
}

/// Overwrite guard: refuses when a record exists and overwriting was not
/// forced, naming the existing path.
pub fn guard_overwrite(force: bool, record_exists: bool) -> (r: Result<(), WalletError>)
    ensures
        (r is Ok) == spec_guard_ok(force, record_exists),
        r matches Err(e) ==> e is OverwriteRefused || e is PathResolution,
        r matches Err(e) ==> (e matches WalletError::OverwriteRefused { path } ==> exists|
            h: Seq<char>,
        | path@ == spec_config_path(h)),
{
    if !force && record_exists {
        match config::config_path() {
            Ok(p) => Err(WalletError::OverwriteRefused { path: p }),
            Err(e) => Err(e),
        }
    } else {
        Ok(())
    }
}

/// What a create or import decides: the derived address and the record
/// write to carry out.
pub struct WalletSetup {
    pub address: String,
    pub plan: SavePlan,
}

/// The contract of `cmd_create`.
pub open spec fn spec_create_post(
    force: bool,
    record_exists: bool,
    r: Result<WalletSetup, WalletError>,
) -> bool {
    &&& !spec_guard_ok(force, record_exists) ==> r is Err
    &&& r matches Ok(o) ==> spec_guard_ok(force, record_exists) && (exists|b: Seq<u8>|
        {
            &&& b.len() == 32
            &&& key_parses(spec_hex_key(b))
            &&& o.address@ == address_of(spec_hex_key(b))
            &&& spec_plan_ok(o.plan, spec_hex_key(b), POLYGON)
        })
    &&& r matches Err(e) ==> match e {
        WalletError::OverwriteRefused { path } => !spec_guard_ok(force, record_exists) && (exists|
            h: Seq<char>,
        | path@ == spec_config_path(h)),
        WalletError::PathResolution => true,
        _ => false,
    }
}

/// Create: guard against overwriting, generate a fresh key, derive its
/// address, and plan the record write for the fixed network.
pub fn cmd_create(force: bool, record_exists: bool) -> (r: Result<WalletSetup, WalletError>)
    ensures
        spec_create_post(force, record_exists, r),
{
    if let Err(e) = guard_overwrite(force, record_exists) {
        return Err(e);
    }
    let (bytes, address) = signer::random_wallet();
    let key_hex = hexkey::hex_key(&bytes);
    match config::save_private_key(key_hex.as_str(), POLYGON) {
        Ok(plan) => Ok(WalletSetup { address, plan }),
        Err(e) => Err(e),
    }
}

/// The contract of `cmd_import`.
pub open spec fn spec_import_post(
    key: Seq<char>,
    force: bool,
    record_exists: bool,
    r: Result<WalletSetup, WalletError>,
) -> bool {
    let nk = spec_normalize(key);
    &&& !spec_guard_ok(force, record_exists) ==> r is Err
    &&& (spec_guard_ok(force, record_exists) && !key_parses(nk)) ==> (r matches Err(e) && e
        is InvalidKeyFormat)
    &&& r matches Ok(o) ==> {
        &&& spec_guard_ok(force, record_exists)
        &&& key_parses(nk)
        &&& o.address@ == address_of(nk)
        &&& spec_plan_ok(o.plan, nk, POLYGON)
    }
    &&& r matches Err(e) ==> match e {
        WalletError::OverwriteRefused { path } => !spec_guard_ok(force, record_exists) && (exists|
            h: Seq<char>,
        | path@ == spec_config_path(h)),
        WalletError::InvalidKeyFormat { cause } => spec_guard_ok(force, record_exists)
            && !key_parses(nk),
        WalletError::PathResolution => true,
        WalletError::NoWalletConfigured => false,
    }
}

/// Import: guard against overwriting, normalize the key, validate it by
/// building a signer, and plan the record write for the fixed network.
pub fn cmd_import(key: &str, force: bool, record_exists: bool) -> (r: Result<
    WalletSetup,
    WalletError,
>)
    ensures
        spec_import_post(key@, force, record_exists, r),
{
    if let Err(e) = guard_overwrite(force, record_exists) {
        return Err(e);
    }
    let normalized = normalize_key(key);
    let address = match signer::derive_address(normalized.as_str()) {
        Ok(a) => a,
        Err(cause) => {
            return Err(WalletError::InvalidKeyFormat { cause });
        },
    };
    match config::save_private_key(normalized.as_str(), POLYGON) {
        Ok(plan) => Ok(WalletSetup { address, plan }),
        Err(e) => Err(e),
    }
}

/// Overwrite guard law: with an existing record and no force, neither
/// create nor import can succeed.
pub proof fn lemma_overwrite_guard(
    key: Seq<char>,
    rc: Result<WalletSetup, WalletError>,
    ri: Result<WalletSetup, WalletError>,
)
    requires
        spec_create_post(false, true, rc),
        spec_import_post(key, false, true, ri),
    ensures
        rc is Err,
        ri is Err,
{
}

/// The contract of `cmd_address`.
pub open spec fn spec_address_post(
    flag: Option<Seq<char>>,
    env: Option<Seq<char>>,
    file: Option<Seq<char>>,
    r: Result<String, WalletError>,
) -> bool {
    match spec_resolve(flag, env, file).0 {
        Some(k) => if key_parses(k) {
            r matches Ok(a) && a@ == address_of(k)
        } else {
            r matches Err(e) && e is InvalidKeyFormat
        },
        Option::None => r matches Err(e) && e is NoWalletConfigured,
    }
}

/// Address: resolve the key and derive its address; fails exactly when no
/// key is configured or the resolved key is malformed.
pub fn cmd_address(cli_flag: Option<&str>, env_val: Option<&str>, file_content: Option<&str>) -> (r:
    Result<String, WalletError>)
    ensures
        spec_address_post(
            view_opt_str(cli_flag),
            view_opt_str(env_val),
            view_opt_str(file_content),
            r,
        ),
{
    let (key, _source) = config::resolve_key(cli_flag, env_val, file_content);
    let key = match key {
        Some(k) => k,
        None => {
            return Err(WalletError::NoWalletConfigured);
        },
    };
    match signer::derive_address(key.as_str()) {
        Ok(a) => Ok(a),
        Err(cause) => Err(WalletError::InvalidKeyFormat { cause }),
    }
}

/// What `cmd_show` reports.
pub struct ShowOutcome {
    pub address: Option<String>,
    pub config_path: String,
    pub source: KeySource,
    pub configured: bool,
}

/// The contract of `cmd_show`.
pub open spec fn spec_show_post(
    flag: Option<Seq<char>>,
    env: Option<Seq<char>>,
    file: Option<Seq<char>>,
    r: Result<ShowOutcome, WalletError>,
) -> bool {
    let m = spec_resolve(flag, env, file);
    &&& r matches Err(e) ==> e is PathResolution
    &&& r matches Ok(o) ==> {
        &&& o.source == m.1
        &&& match m.0 {
            Some(k) => if key_parses(k) {
                o.address matches Some(a) && a@ == address_of(k)
            } else {
                o.address is None
            },
            Option::None => o.address is None,
        }
        &&& o.configured == (o.address is Some)
        &&& exists|h: Seq<char>| o.config_path@ == spec_config_path(h)
    }
}

/// Show: best-effort diagnostics. Never fails because no wallet is
/// configured or the stored record is malformed; the only failure is an
/// undeterminable config path.
pub fn cmd_show(cli_flag: Option<&str>, env_val: Option<&str>, file_content: Option<&str>) -> (r:
    Result<ShowOutcome, WalletError>)
    ensures
        spec_show_post(
            view_opt_str(cli_flag),
            view_opt_str(env_val),
            view_opt_str(file_content),
            r,
        ),
{
    let (key, source) = config::resolve_key(cli_flag, env_val, file_content);
    let address = match key {
        Some(k) => signer::derive_address(k.as_str()).ok(),
        None => None,
    };
    let config_path = match config::config_path() {
        Ok(p) => p,
        Err(e) => {
            return Err(e);
        },
    };
    let configured = address.is_some();
    Ok(ShowOutcome { address, config_path, source, configured })
}

/// The decision of one wallet operation, for the caller to carry out.
pub enum ExecOutcome {
    Created(WalletSetup),
    Imported(WalletSetup),
    Address(String),
    Shown(ShowOutcome),
}

/// Dispatches a wallet command over the ambient inputs: the global
/// `--private-key` flag, the environment value, the stored record text and
/// whether a record file is present.
pub fn execute(
    args: WalletArgs,
    private_key_flag: Option<&str>,
    env_val: Option<&str>,
    file_content: Option<&str>,
    record_exists: bool,
) -> (r: Result<ExecOutcome, WalletError>)
    ensures
        ({
            let flag = view_opt_str(private_key_flag);
            let env = view_opt_str(env_val);
            let file = view_opt_str(file_content);
            match args.command {
                WalletCommand::Create { force } => match r {
                    Ok(o) => o matches ExecOutcome::Created(s) && spec_create_post(
                        force,
                        record_exists,
                        Ok(s),
                    ),
                    Err(e) => spec_create_post(force, record_exists, Err(e)),
                },
                WalletCommand::Import { key, force } => match r {
                    Ok(o) => o matches ExecOutcome::Imported(s) && spec_import_post(
                        key@,
                        force,
                        record_exists,
                        Ok(s),
                    ),
                    Err(e) => spec_import_post(key@, force, record_exists, Err(e)),
                },
                WalletCommand::Address => match r {
                    Ok(o) => o matches ExecOutcome::Address(a) && spec_address_post(
                        flag,
                        env,
                        file,
                        Ok(a),
                    ),
                    Err(e) => spec_address_post(flag, env, file, Err(e)),
                },
                WalletCommand::Show => match r {
                    Ok(o) => o matches ExecOutcome::Shown(s) && spec_show_post(
                        flag,
                        env,
                        file,
                        Ok(s),
                    ),
                    Err(e) => spec_show_post(flag, env, file, Err(e)),
                },
            }
        }),
{
    match args.command {
        WalletCommand::Create { force } => match cmd_create(force, record_exists) {
            Ok(s) => Ok(ExecOutcome::Created(s)),
            Err(e) => Err(e),
        },
        WalletCommand::Import { key, force } => match cmd_import(
            key.as_str(),
            force,
            record_exists,
        ) {
            Ok(s) => Ok(ExecOutcome::Imported(s)),
            Err(e) => Err(e),
        },
        WalletCommand::Address => match cmd_address(private_key_flag, env_val, file_content) {
            Ok(a) => Ok(ExecOutcome::Address(a)),
            Err(e) => Err(e),
        },
        WalletCommand::Show => match cmd_show(private_key_flag, env_val, file_content) {
            Ok(s) => Ok(ExecOutcome::Shown(s)),
            Err(e) => Err(e),
        },
    }
}

} // verus!
