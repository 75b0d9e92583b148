//! What the command line sets.

use crate::miner::MiningConfig;
use crate::primitives::Address;
use vstd::prelude::*;

verus! {

/// What the command line sets beyond what every node has.
#[derive(Debug)]
pub struct BscCliArgs {
    /// Make blocks.
    pub mining_enabled: bool,
    /// Make blocks with keys that are generated.
    pub mining_dev: bool,
    /// The signing key in hexadecimal.
    pub private_key: Option<String>,
    /// Where the file with the signing key is.
    pub keystore_path: Option<String>,
    /// The password of that file.
    pub keystore_password: Option<String>,
    /// Where the file with the genesis block is.
    pub genesis_file: Option<String>,
    /// Run a chain of its own with validators that are generated.
    pub dev_mode: bool,
    /// The hash that the genesis block should have.
    pub genesis_hash: Option<String>,
    /// Where the file with the key for votes is.
    pub bls_keystore_path: Option<String>,
    /// The password of that file.
    pub bls_keystore_password: Option<String>,
    /// The key for votes in hexadecimal.
    pub bls_private_key: Option<String>,
}

/// Where the key for votes comes from.
#[derive(Debug)]
pub enum BlsKeySource {
    /// A file.
    Keystore {
        /// Where it is.
        path: String,
        /// Its password.
        password: String,
    },
    /// The command line, in hexadecimal.
    Hex(String),
    /// The environment.
    Environment,
}

/// A value of the command line, else the one that was there.
pub open spec fn overridden(arg: Option<String>, base: Option<String>) -> Option<String> {
    match arg {
        Some(_) => arg,
        None => base,
    }
}

fn override_with(arg: &Option<String>, base: Option<String>) -> (r: Option<String>)
    ensures
        r == overridden(*arg, base),
{
    match arg {
        Some(s) => Some(s.clone()),
        None => base,
    }
}

impl BscCliArgs {
    /// What the command line makes of a mining configuration. `derived` is the account of the
    /// signing key on the command line, where there is one and it could be read.
    pub fn apply_to(&self, base: MiningConfig, derived: Option<Address>) -> (r: MiningConfig)
        ensures
            r.enabled == (self.mining_enabled || base.enabled),
            r.private_key_hex == overridden(self.private_key, base.private_key_hex),
            r.validator_address == if self.private_key is Some && derived is Some {
                derived
            } else {
                base.validator_address
            },
            r.keystore_path == overridden(self.keystore_path, base.keystore_path),
            r.keystore_password == overridden(self.keystore_password, base.keystore_password),
            r.use_sparse_trie_state_root == base.use_sparse_trie_state_root,
            self.private_key is None ==> r.validator_address == base.validator_address
                && r.private_key_hex == base.private_key_hex,
            self.private_key is Some ==> r.private_key_hex == self.private_key && (derived is Some
                ==> r.validator_address == derived),
            self.keystore_path is Some ==> r.keystore_path == self.keystore_path,
            self.keystore_path is None ==> r.keystore_path == base.keystore_path,
    {
        let validator_address = if self.private_key.is_some() && derived.is_some() {
            derived
        } else {
            base.validator_address
        };
        MiningConfig {
            enabled: self.mining_enabled || base.enabled,
            validator_address,
            private_key_hex: override_with(&self.private_key, base.private_key_hex),
            keystore_path: override_with(&self.keystore_path, base.keystore_path),
            keystore_password: override_with(&self.keystore_password, base.keystore_password),
            use_sparse_trie_state_root: base.use_sparse_trie_state_root,
        }
    }

    /// Where the key for votes comes from: a file comes before a key on the command line, and both
    /// before the environment. A file without a password has the empty one.
    pub fn bls_key_source(&self) -> (r: BlsKeySource)
        ensures
            match (self.bls_keystore_path, self.bls_private_key) {
                (Some(p), _) => {
                    &&& r matches BlsKeySource::Keystore { path, password }
                    &&& path == p
                    &&& match self.bls_keystore_password {
                        Some(pw) => password == pw,
                        None => password@ == Seq::<char>::empty(),
                    }
                },
                (None, Some(hex)) => r == BlsKeySource::Hex(hex),
                (None, None) => r == BlsKeySource::Environment,
            },
            r is Keystore <==> self.bls_keystore_path is Some,
            r is Environment <==> self.bls_keystore_path is None && self.bls_private_key is None,
    {
        match &self.bls_keystore_path {
            Some(path) => {
                let password = match &self.bls_keystore_password {
                    Some(password) => password.clone(),
                    None => String::new(),
                };
                BlsKeySource::Keystore { path: path.clone(), password }
            },
            None => match &self.bls_private_key {
                Some(hex) => BlsKeySource::Hex(hex.clone()),
                None => BlsKeySource::Environment,
            },
        }
    }
}

/// What the command line sets is taken; what it leaves open stays as it was, and setting it twice
/// is setting it once.
pub proof fn law_command_line_comes_first(arg: String, base: Option<String>)
    ensures
        overridden(Some(arg), base) == Some(arg),
        overridden(None, base) == base,
        overridden(Some(arg), overridden(Some(arg), base)) == overridden(Some(arg), base),
{
}

} // verus!
