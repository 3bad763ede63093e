//! The combined-JSON output container: a pre-shaped result the caller
//! hands in, whose pre-present fields are overwritten and whose absent
//! fields stay absent.

use vstd::prelude::*;

verus! {

/// One contract's slot of the combined-JSON output. A field that is `None`
/// was not asked for and is never introduced by the adapters: only
/// pre-present fields are filled.
#[derive(Debug, Clone, PartialEq, Eq)]
pub struct CombinedJsonContract {
    /// The metadata text.
    pub metadata: Option<String>,
    /// The zkEVM assembly text.
    pub assembly: Option<String>,
    /// The deploy bytecode, hexadecimal.
    pub bin: Option<String>,
    /// The runtime bytecode, hexadecimal; this backend emits the same code
    /// for both.
    pub bin_runtime: Option<String>,
    /// The factory dependencies: content hash to contract path.
    pub factory_deps: Option<Vec<(String, String)>>,
}

/// Whether no two slots share a key: what the front-end's keyed map
/// gives, kept as an invariant of the list that replaces it. The adapters
/// fold each slot independently, so a duplicate key would only repeat a
/// fold, never mix two contracts.
pub open spec fn spec_combined_keys_unique(contracts: Seq<(String, CombinedJsonContract)>) -> bool {
    forall|i: int, j: int|
        0 <= i < j < contracts.len() ==> (#[trigger] contracts[i]).0@ != (
        #[trigger] contracts[j]).0@
}

/// The combined-JSON output: one slot per contract, keyed by the
/// front-end's contract key, in the order handed in, each key once
/// (`spec_combined_keys_unique`), plus version information.
#[derive(Debug, Clone, PartialEq, Eq)]
pub struct CombinedJson {
    /// The per-contract slots, keyed by contract identifier, each key
    /// once.
    pub contracts: Vec<(String, CombinedJsonContract)>,
    /// The front-end compiler version text.
    pub version: Option<String>,
    /// This compiler's version text.
    pub zk_version: Option<String>,
}

} // verus!
