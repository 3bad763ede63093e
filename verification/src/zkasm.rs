//! The contract zkEVM assembly source code.

use vstd::prelude::*;

verus! {

/// A contract's hand-written zkEVM assembly source: consumed with no further
/// lowering, only assembled.
#[derive(Debug, Clone, PartialEq, Eq)]
pub struct ZKASM {
    /// The zkEVM assembly file path.
    pub path: String,
    /// The zkEVM assembly source code.
    pub source: String,
}

impl ZKASM {
    /// A shortcut constructor.
    pub fn new(path: String, source: String) -> (r: Self)
        ensures
            r.path@ == path@,
            r.source@ == source@,
    {
        Self { path, source }
    }
}

} // verus!
