//! Encrypted credentials storage.
use vstd::prelude::*;

verus! {

/// Secrets store.
#[derive(Clone, Copy, Debug, PartialEq, Eq, Structural)]
pub struct SecretsStore;

impl SecretsStore {
    /// Create a new secrets store.
    pub fn new() -> (r: Self)
        ensures
            r == SecretsStore,
    {
        SecretsStore
    }
}

impl Default for SecretsStore {
    fn default() -> (r: Self)
        ensures
            r == SecretsStore,
    {
        SecretsStore::new()
    }
}

} // verus!
