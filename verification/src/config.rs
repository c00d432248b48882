//! The credential record, its location on disk, and key resolution.

use vstd::prelude::*;
use vstd::string::StringExecFns;
use crate::codec;
use crate::WalletError;

verus! {

/// The persisted credential record: a hex private key (canonically
/// `0x`-prefixed) and the chain id of the target network.
pub struct Config {
    pub private_key: String,
    pub chain_id: u64,
}

/// Which source supplied the active key; diagnostic only.
#[derive(Clone, Copy, PartialEq, Eq, Structural, Debug)]
pub enum KeySource {
    Flag,
    EnvVar,
    ConfigFile,
    Absent,
}

impl KeySource {
    /// What `label` returns for each variant.
    pub open spec fn spec_label(&self) -> Seq<char> {
        match self {
            KeySource::Flag => "--private-key flag"@,
            KeySource::EnvVar => "POLYMARKET_PRIVATE_KEY env var"@,
            KeySource::ConfigFile => "config file"@,
            KeySource::Absent => "not configured"@,
        }
    }

    /// A human-readable name for the source.
    pub fn label(&self) -> (r: &'static str)
        ensures
            r@ == self.spec_label(),
    {
        match self {
            KeySource::Flag => "--private-key flag",
            KeySource::EnvVar => "POLYMARKET_PRIVATE_KEY env var",
            KeySource::ConfigFile => "config file",
            KeySource::Absent => "not configured",
        }
    }
}

/// Relies on `dirs::home_dir`: the user's home directory, if one can be
/// determined; its value depends on the environment, so nothing more is
/// assumed of it.
#[verifier::external_body]
fn home_dir_string() -> (r: Option<String>) {
    match dirs::home_dir() {
        Some(p) => Some(p.to_string_lossy().into_owned()),
        None => None,
    }
}

/// The fixed record directory below a given home directory.
pub open spec fn spec_config_dir(home: Seq<char>) -> Seq<char> {
    home + "/.config/polymarket"@
}

/// The fixed record path below a given home directory.
pub open spec fn spec_config_path(home: Seq<char>) -> Seq<char> {
    spec_config_dir(home) + "/config.json"@
}

/// The record path as a pure function of the home directory.
pub fn config_path_in(home: &str) -> (r: String)
    ensures
        r@ == spec_config_path(home@),
{
    let mut s = String::from_str(home);
    s.append("/.config/polymarket");
    s.append("/config.json");
    s
}

/// Computes the record path under the current user's home directory; fails
/// exactly when no home directory can be determined.
pub fn config_path() -> (r: Result<String, WalletError>)
    ensures
        r matches Ok(p) ==> exists|h: Seq<char>| p@ == spec_config_path(h),
        r matches Err(e) ==> e is PathResolution,
{
    match home_dir_string() {
        Some(h) => {
            let p = config_path_in(h.as_str());
            Ok(p)
        },
        None => Err(WalletError::PathResolution),
    }
}

/// The directory and file a record lives in, the exact text to write, and
/// the permission modes to force where the platform has them: everything a
/// caller needs to persist the record.
pub struct SavePlan {
    pub dir: String,
    pub path: String,
    pub content: String,
    pub dir_mode: u32,
    pub file_mode: u32,
}

/// Whether a plan puts the canonical record for `key` and `chain_id` at the
/// fixed location under some home directory.
pub open spec fn spec_plan_ok(plan: SavePlan, key: Seq<char>, chain_id: u64) -> bool {
    &&& exists|h: Seq<char>|
        plan.dir@ == spec_config_dir(h) && plan.path@ == spec_config_path(h)
    &&& plan.content@ == codec::spec_encode(key, chain_id)
    &&& plan.dir_mode == 0o700
    &&& plan.file_mode == 0o600
}

/// Plans the record write: the config directory, the file path, and the
/// serialized record; fails exactly when no home directory can be
/// determined. Carrying out the write is the caller's part.
pub fn save_private_key(key: &str, chain_id: u64) -> (r: Result<SavePlan, WalletError>)
    ensures
        r matches Ok(p) ==> spec_plan_ok(p, key@, chain_id),
        r matches Err(e) ==> e is PathResolution,
{
    match home_dir_string() {
        Some(h) => {
            let mut dir = String::from_str(h.as_str());
            dir.append("/.config/polymarket");
            let mut path = dir.clone();
            path.append("/config.json");
            let content = codec::encode_config(key, chain_id);
            proof {
                assert(dir@ == spec_config_dir(h@));
                assert(path@ == spec_config_path(h@));
            }
            Ok(SavePlan { dir, path, content, dir_mode: 0o700, file_mode: 0o600 })
        },
        None => Err(WalletError::PathResolution),
    }
}

/// The view of an optional string.
pub open spec fn view_opt_str(s: Option<&str>) -> Option<Seq<char>> {
    match s {
        Some(x) => Some(x@),
        Option::None => Option::None,
    }
}

/// What stored record text reads as: absent when the file is missing or
/// its content is malformed, never an error.
pub open spec fn spec_load(content: Option<Seq<char>>) -> Option<(Seq<char>, u64)> {
    match content {
        Some(s) => codec::spec_parse(s),
        Option::None => Option::None,
    }
}

/// Reads a record out of the file text, treating malformed content as
/// absent.
pub fn load_config(content: Option<&str>) -> (r: Option<Config>)
    ensures
        match spec_load(view_opt_str(content)) {
            Some((k, v)) => r matches Some(c) && c.private_key@ == k && c.chain_id == v,
            Option::None => r is None,
        },
{
    match content {
        Some(s) => codec::parse_config(s),
        None => None,
    }
}

/// The stored private key, if a record can be read.
pub fn load_private_key(content: Option<&str>) -> (r: Option<String>)
    ensures
        match spec_load(view_opt_str(content)) {
            Some((k, v)) => r matches Some(x) && x@ == k,
            Option::None => r is None,
        },
{
    match load_config(content) {
        Some(c) => Some(c.private_key),
        None => None,
    }
}

/// The resolved key and its source: the flag first, then a non-empty
/// environment value, then a loadable record, else absent.
pub open spec fn spec_resolve(
    flag: Option<Seq<char>>,
    env: Option<Seq<char>>,
    file: Option<Seq<char>>,
) -> (Option<Seq<char>>, KeySource) {
    if flag is Some {
        (flag, KeySource::Flag)
    } else if env matches Some(e) && e.len() > 0 {
        (env, KeySource::EnvVar)
    } else {
        match spec_load(file) {
            Some((k, v)) => (Some(k), KeySource::ConfigFile),
            Option::None => (Option::None, KeySource::Absent),
        }
    }
}

/// Priority: CLI flag > env var > config file. An environment value that is
/// set but empty counts as unset; a malformed record counts as absent.
pub fn resolve_key(cli_flag: Option<&str>, env_val: Option<&str>, file_content: Option<&str>) -> (r:
    (Option<String>, KeySource))
    ensures
        ({
            let m = spec_resolve(
                view_opt_str(cli_flag),
                view_opt_str(env_val),
                view_opt_str(file_content),
            );
            &&& match (r.0, m.0) {
                (Some(a), Some(b)) => a@ == b,
                (Option::None, Option::None) => true,
                _ => false,
            }
            &&& r.1 == m.1
        }),
{
    if let Some(k) = cli_flag {
        return (Some(String::from_str(k)), KeySource::Flag);
    }
    if let Some(e) = env_val {
        if !e.is_empty() {
            return (Some(String::from_str(e)), KeySource::EnvVar);
        }
    }
    match load_private_key(file_content) {
        Some(k) => (Some(k), KeySource::ConfigFile),
        None => (None, KeySource::Absent),
    }
}

/// Precedence law: the flag always wins; otherwise a non-empty environment
/// value; otherwise a loadable record; otherwise resolution is absent.
pub proof fn lemma_resolution_precedence(
    flag: Option<Seq<char>>,
    env: Option<Seq<char>>,
    file: Option<Seq<char>>,
)
    ensures
        flag matches Some(k) ==> spec_resolve(flag, env, file) == (Some(k), KeySource::Flag),
        flag is None && (env matches Some(e) && e.len() > 0) ==> spec_resolve(flag, env, file) == (
            env,
            KeySource::EnvVar,
        ),
        flag is None && !(env matches Some(e) && e.len() > 0) ==> spec_resolve(flag, env, file)
            == (match spec_load(file) {
            Some((k, v)) => (Some(k), KeySource::ConfigFile),
            Option::None => (Option::<Seq<char>>::None, KeySource::Absent),
        }),
{
}

/// Round trip: a record planned by `save_private_key` loads back with the
/// same key and chain id, for any key free of quote, backslash and
/// control characters (normalized hex keys always are).
pub proof fn lemma_save_load_round_trip(key: Seq<char>, chain_id: u64)
    requires
        forall|i: int|
            0 <= i < key.len() ==> key[i] != '"' && key[i] != '\\' && (key[i] as u32) >= 32,
    ensures
        spec_load(Some(codec::spec_encode(key, chain_id))) == Some((key, chain_id)),
{
    codec::lemma_parse_encode(key, chain_id);
}

} // verus!
