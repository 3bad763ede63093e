//! The standard-JSON output of the front-end: per-contract results,
//! front-end diagnostics, and version information. After compiling, the
//! per-contract slots carry the zkEVM build.

use vstd::prelude::*;

use crate::error::Error;
use crate::error::InputError;
use crate::evm_output::EVM;
use crate::strutil::str_eq;

verus! {

/// One diagnostic the front-end reported.
#[derive(Debug, Clone, PartialEq, Eq)]
pub struct OutputError {
    /// The severity text; `error` is fatal.
    pub severity: String,
    /// The formatted message, surfaced verbatim.
    pub formatted_message: String,
}

/// Whether a front-end diagnostic is fatal.
pub open spec fn spec_is_fatal(e: OutputError) -> bool {
    e.severity@ == "error"@
}

/// One contract's slot of the standard-JSON output.
#[derive(Debug, Clone, PartialEq, Eq)]
pub struct OutputContract {
    /// The metadata text.
    pub metadata: Option<String>,
    /// The EVM data; replaced by the zkEVM equivalents after compiling.
    pub evm: Option<EVM>,
    /// The factory dependencies: content hash to contract path.
    pub factory_dependencies: Option<Vec<(String, String)>>,
    /// The bytecode content hash.
    pub hash: Option<String>,
    /// The optimized structured IR text.
    pub ir_optimized: Option<String>,
}

/// Whether the nested contract slots are keyed like the front-end's maps:
/// each file path once, and within a file each contract name once. The
/// adapters fold each slot independently, in the order handed in.
pub open spec fn spec_contract_keys_unique(
    contracts: Seq<(String, Vec<(String, OutputContract)>)>,
) -> bool {
    &&& forall|i: int, j: int|
        0 <= i < j < contracts.len() ==> (#[trigger] contracts[i]).0@ != (
        #[trigger] contracts[j]).0@
    &&& forall|f: int, i: int, j: int|
        0 <= f < contracts.len() && 0 <= i < j < (#[trigger] contracts[f]).1@.len() ==> (
        #[trigger] contracts[f].1@[i]).0@ != (#[trigger] contracts[f].1@[j]).0@
}

/// The standard-JSON output of the front-end. A value that came from the
/// front-end's keyed maps holds each key once
/// (`spec_contract_keys_unique`).
#[derive(Debug, Clone, PartialEq, Eq)]
pub struct Output {
    /// The per-contract slots: file path to contract name to contract,
    /// each key once.
    pub contracts: Vec<(String, Vec<(String, OutputContract)>)>,
    /// The diagnostics the front-end reported.
    pub errors: Option<Vec<OutputError>>,
    /// The front-end version text.
    pub version: Option<String>,
    /// This compiler's version text.
    pub zk_version: Option<String>,
}

/// Whether the front-end reported at least one fatal diagnostic.
pub open spec fn spec_has_fatal_errors(output: Output) -> bool {
    match output.errors {
        Some(es) => exists|i: int| 0 <= i < es@.len() && spec_is_fatal(#[trigger] es@[i]),
        None => false,
    }
}

impl Output {
    /// Decides whether the front-end reported a fatal diagnostic: such a
    /// run aborts before any backend work.
    pub fn has_fatal_errors(&self) -> (r: bool)
        ensures
            r == spec_has_fatal_errors(*self),
    {
        match &self.errors {
            Some(es) => {
                let mut i: usize = 0;
                while i < es.len()
                    invariant
                        self.errors matches Some(v) && v@ == es@,
                        0 <= i <= es@.len(),
                        forall|j: int| 0 <= j < i ==> !spec_is_fatal(#[trigger] es@[j]),
                    decreases es@.len() - i,
                {
                    if str_eq(es[i].severity.as_str(), "error") {
                        proof {
                            assert(spec_is_fatal(es@[i as int]));
                        }
                        return true;
                    }
                    i += 1;
                }
                false
            },
            None => false,
        }
    }

    /// Refuses to go on past front-end-reported semantic errors: such a
    /// run aborts before any backend work, and the diagnostics are
    /// surfaced verbatim by the caller.
    pub fn ensure_no_fatal_errors(&self) -> (r: Result<(), Error>)
        ensures
            r is Ok <==> !spec_has_fatal_errors(*self),
            r matches Err(e) ==> e == Error::InputAcquisition(InputError::FrontEndErrors),
    {
        if self.has_fatal_errors() {
            Err(Error::InputAcquisition(InputError::FrontEndErrors))
        } else {
            Ok(())
        }
    }
}

} // verus!
