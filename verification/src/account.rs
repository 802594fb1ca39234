use vstd::prelude::*;

use crate::text::text_of;

verus! {

/// The BitSong account collection contract (`bs721-accounts`), as the
/// deployment scripts upload and instantiate it.
#[derive(Debug, Clone, Copy, PartialEq, Eq)]
pub struct BitsongAccountCollection;

/// The name of the collection's wasm artifact.
pub open spec fn account_artifact_name() -> Seq<char> {
    seq!['b', 's', '7', '2', '1', '_', 'a', 'c', 'c', 'o', 'u', 'n', 't', 's']
}

impl BitsongAccountCollection {
    /// The name under which the contract's wasm file is looked up in the
    /// workspace's artifacts directory.
    pub fn wasm_artifact_name() -> (name: String)
        ensures
            name@ == account_artifact_name(),
    {
        text_of(&['b', 's', '7', '2', '1', '_', 'a', 'c', 'c', 'o', 'u', 'n', 't', 's'])
    }
}

} // verus!
