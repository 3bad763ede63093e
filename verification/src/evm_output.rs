//! The front-end's per-contract EVM output data. After compiling it is
//! replaced by the zkEVM equivalents.

use vstd::prelude::*;

use crate::evmla::Assembly;

verus! {

/// A contract's bytecode as hexadecimal text.
#[derive(Debug, Clone, PartialEq, Eq)]
pub struct Bytecode {
    /// The bytecode text.
    pub object: String,
}

impl Bytecode {
    /// A shortcut constructor.
    pub fn new(object: String) -> (r: Self)
        ensures
            r.object@ == object@,
    {
        Self { object }
    }
}

/// The per-contract EVM output data of the front-end.
#[derive(Debug, Clone, PartialEq, Eq)]
pub struct EVM {
    /// The contract's legacy assembly, as the front-end produced it;
    /// cleared once the zkEVM build replaces it.
    pub assembly: Option<Assembly>,
    /// The contract's zkEVM assembly text.
    pub assembly_text: Option<String>,
    /// The contract's bytecode; reset to the zkEVM bytecode before the
    /// compiled project artifacts are yielded.
    pub bytecode: Option<Bytecode>,
    /// The contract's function signatures.
    pub method_identifiers: Option<Vec<(String, String)>>,
}

impl EVM {
    /// Installs the zkEVM assembly text and bytecode, clearing the legacy
    /// assembly and keeping the method identifiers.
    pub fn modify(&mut self, assembly_text: String, bytecode: String)
        ensures
            final(self).assembly is None,
            final(self).assembly_text matches Some(t) && t@ == assembly_text@,
            final(self).bytecode matches Some(b) && b.object@ == bytecode@,
            final(self).method_identifiers == old(self).method_identifiers,
    {
        self.assembly = None;
        self.assembly_text = Some(assembly_text);
        self.bytecode = Some(Bytecode::new(bytecode));
    }
}

} // verus!
