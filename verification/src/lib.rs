//! Credential resolution and persistence for a wallet-backed trading CLI.
//!
//! The library owns the logic of the wallet subsystem: normalizing and
//! validating private keys, resolving the active key from flag, environment
//! and config file by strict precedence, encoding and parsing the on-disk
//! credential record, and the create/import/address/show operations.
//! File and environment access, argument parsing and printing live outside
//! the library and hand it plain values.

use vstd::prelude::*;
use vstd::string::StringExecFns;

pub mod codec;
pub mod config;
pub mod hexkey;
pub mod signer;
pub mod wallet;

verus! {

/// Chain id of the fixed target network.
pub const POLYGON: u64 = 137;

/// Everything that can go wrong inside the wallet subsystem.
///
/// Filesystem failures while executing a save plan happen outside the
/// library and are surfaced there; the library itself only ever reports
/// these four conditions.
#[derive(Debug)]
pub enum WalletError {
    /// The user's home directory could not be determined.
    PathResolution,
    /// A credential record already exists and overwriting was not forced;
    /// carries the path of the existing record.
    OverwriteRefused { path: String },
    /// The supplied or resolved key does not parse into valid key
    /// material; carries the signer's own account of the refusal.
    InvalidKeyFormat { cause: String },
    /// No key was found in any source.
    NoWalletConfigured,
}

impl WalletError {
    /// A short human-readable description of the error.
    pub fn message(&self) -> (r: String)
        ensures
            r@ == self.spec_message(),
    {
        match self {
            WalletError::PathResolution => String::from_str(
                "Could not determine home directory",
            ),
            WalletError::OverwriteRefused { path } => {
                let mut m = String::from_str("A wallet already exists at ");
                m.append(path.as_str());
                m.append(". Use --force to overwrite.");
                m
            },
            WalletError::InvalidKeyFormat { cause } => {
                let mut m = String::from_str("Invalid private key: ");
                m.append(cause.as_str());
                m
            },
            WalletError::NoWalletConfigured => String::from_str(
                "No wallet configured. Run `polymarket wallet create` or `polymarket wallet import <key>`",
            ),
        }
    }

    /// What `message` returns for each variant.
    pub open spec fn spec_message(&self) -> Seq<char> {
        match self {
            WalletError::PathResolution => "Could not determine home directory"@,
            WalletError::OverwriteRefused { path } => "A wallet already exists at "@ + path@
                + ". Use --force to overwrite."@,
            WalletError::InvalidKeyFormat { cause } => "Invalid private key: "@ + cause@,
            WalletError::NoWalletConfigured => "No wallet configured. Run `polymarket wallet create` or `polymarket wallet import <key>`"@,
        }
    }
}

} // verus!
