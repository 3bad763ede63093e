//! The project: one contract entity per translation unit, each holding its
//! IR variant and its build state, plus the cross-cutting library address
//! bindings.

use vstd::prelude::*;

use crate::artifacts;
use crate::error::Error;
use crate::error::InputError;
use crate::evmla::Assembly;
use crate::settings::LibraryBinding;
use crate::strutil::str_eq;
use crate::zkasm::ZKASM;

verus! {

/// One named object of the structured IR: raw instruction text with an
/// optional nested inner object.
#[derive(Debug, PartialEq, Eq)]
pub struct YulObject {
    /// The object name, visible to the backend as a symbol.
    pub identifier: String,
    /// The raw instruction text.
    pub code: String,
    /// The nested inner object, if any.
    pub inner: Option<Box<YulObject>>,
}

/// A contract's structured-IR source.
#[derive(Debug, PartialEq, Eq)]
pub struct Yul {
    /// The source file path.
    pub path: String,
    /// The root object.
    pub object: YulObject,
}

/// A contract's legacy-assembly source.
#[derive(Debug, PartialEq, Eq)]
pub struct EVMLA {
    /// The source file path.
    pub path: String,
    /// The flat legacy assembly.
    pub assembly: Assembly,
}

/// A contract's backend-native IR text, consumed near-verbatim.
#[derive(Debug, PartialEq, Eq)]
pub struct LLVMIR {
    /// The source file path.
    pub path: String,
    /// The IR text.
    pub source: String,
}

/// The IR variant: each contract's source is in exactly one of four forms,
/// chosen at construction and immutable.
#[derive(Debug, PartialEq, Eq)]
pub enum IR {
    /// Structured IR.
    Yul(Yul),
    /// Legacy assembly, needing control-flow reconstruction.
    EVMLA(EVMLA),
    /// Backend-native IR text.
    LLVMIR(LLVMIR),
    /// Hand-written target assembly text.
    ZKASM(ZKASM),
}

/// A contract's build state: a linear progression, no cycles, no skipping.
#[derive(Debug, PartialEq, Eq)]
pub enum State {
    /// The IR is present, not yet submitted to the backend.
    Unbuilt,
    /// Submitted; the backend invocation is outstanding.
    InProgress,
    /// The backend returned a completed machine build. Terminal.
    Built(artifacts::Contract),
}

/// The rank of a build state in the linear progression.
pub open spec fn spec_state_rank(s: State) -> int {
    match s {
        State::Unbuilt => 0,
        State::InProgress => 1,
        State::Built(_) => 2,
    }
}

/// The two legal state transitions: submission and completion.
pub open spec fn spec_transition(pre: State, post: State) -> bool {
    ||| (pre is Unbuilt && post is InProgress)
    ||| (pre is InProgress && post is Built)
}

/// State monotonicity: a legal transition advances the rank by exactly
/// one, so a contract passes `Unbuilt`, `InProgress`, `Built` in order,
/// each state exactly once, and never revisits or skips a state.
pub proof fn lemma_state_monotonicity(pre: State, post: State)
    requires
        spec_transition(pre, post),
    ensures
        spec_state_rank(post) == spec_state_rank(pre) + 1,
{
}

/// One compilation unit: identity, IR variant, and build state.
#[derive(Debug, PartialEq, Eq)]
pub struct Contract {
    /// The source file path; need not be unique within a project.
    pub path: String,
    /// The identifier, unique within a project.
    pub identifier: String,
    /// The source IR, set at construction and immutable.
    pub ir: IR,
    /// The build state.
    pub state: State,
}

impl Contract {
    /// A shortcut constructor: a fresh contract is unbuilt.
    pub fn new(path: String, identifier: String, ir: IR) -> (r: Self)
        ensures
            r.path@ == path@,
            r.identifier@ == identifier@,
            r.ir == ir,
            r.state is Unbuilt,
    {
        Self { path, identifier, ir, state: State::Unbuilt }
    }

    /// Submits the contract: the one legal step out of `Unbuilt`.
    pub fn start(&mut self)
        requires
            old(self).state is Unbuilt,
        ensures
            final(self).state is InProgress,
            spec_transition(old(self).state, final(self).state),
            final(self).path == old(self).path,
            final(self).identifier == old(self).identifier,
            final(self).ir == old(self).ir,
    {
        self.state = State::InProgress;
    }

    /// Completes the contract: the one legal step out of `InProgress`,
    /// into the terminal state.
    pub fn finish(&mut self, build: artifacts::Contract)
        requires
            old(self).state is InProgress,
        ensures
            final(self).state matches State::Built(b) && b == build,
            spec_transition(old(self).state, final(self).state),
            final(self).path == old(self).path,
            final(self).identifier == old(self).identifier,
            final(self).ir == old(self).ir,
    {
        self.state = State::Built(build);
    }
}

/// Whether every contract of the list has an identifier of its own.
pub open spec fn spec_identifiers_unique(contracts: Seq<Contract>) -> bool {
    forall|i: int, j: int|
        0 <= i < j < contracts.len() ==> (#[trigger] contracts[i]).identifier@ != (
        #[trigger] contracts[j]).identifier@
}

/// The full set of contracts for one compilation run, plus the library
/// address bindings.
#[derive(Debug, PartialEq, Eq)]
pub struct Project {
    /// The contracts, in the run's stable output order; identifiers are
    /// unique.
    pub contracts: Vec<Contract>,
    /// The library address bindings.
    pub libraries: Vec<LibraryBinding>,
}

impl Project {
    /// The project invariant: contract identifiers are unique.
    pub open spec fn wf(&self) -> bool {
        spec_identifiers_unique(self.contracts@)
    }

    /// Builds a project, refusing two contracts with one identifier.
    pub fn try_new(contracts: Vec<Contract>, libraries: Vec<LibraryBinding>) -> (r: Result<
        Self,
        Error,
    >)
        ensures
            r is Ok <==> spec_identifiers_unique(contracts@),
            r matches Ok(p) ==> p.wf() && p.contracts@ == contracts@ && p.libraries@ == libraries@,
            r matches Err(e) ==> {
                &&& e matches Error::InputAcquisition(InputError::DuplicateContract(id))
                &&& exists|i: int, j: int|
                    0 <= i < j < contracts@.len() && (#[trigger] contracts@[i]).identifier@ == (
                    #[trigger] contracts@[j]).identifier@ && contracts@[j].identifier@ == id@
            },
    {
        let mut i: usize = 0;
        while i < contracts.len()
            invariant
                0 <= i <= contracts@.len(),
                forall|a: int, b: int|
                    0 <= a < b < i ==> (#[trigger] contracts@[a]).identifier@ != (
                    #[trigger] contracts@[b]).identifier@,
            decreases contracts@.len() - i,
        {
            let mut j: usize = 0;
            while j < i
                invariant
                    0 <= j <= i < contracts@.len(),
                    forall|a: int|
                        0 <= a < j ==> (#[trigger] contracts@[a]).identifier@ != contracts@[i as int].identifier@,
                decreases i - j,
            {
                if str_eq(contracts[j].identifier.as_str(), contracts[i].identifier.as_str()) {
                    return Err(
                        Error::InputAcquisition(
                            InputError::DuplicateContract(contracts[i].identifier.clone()),
                        ),
                    );
                }
                j += 1;
            }
            i += 1;
        }
        Ok(Self { contracts, libraries })
    }

    /// A project of one structured-IR contract, identified by its path.
    pub fn try_from_yul_source(path: String, object: YulObject) -> (r: Self)
        ensures
            r.wf(),
            r.contracts@.len() == 1,
            r.contracts@[0].path@ == path@,
            r.contracts@[0].identifier@ == path@,
            r.contracts@[0].ir matches IR::Yul(y) && y.path@ == path@ && y.object == object,
            r.contracts@[0].state is Unbuilt,
            r.libraries@.len() == 0,
    {
        let identifier = path.clone();
        let ir = IR::Yul(Yul { path: path.clone(), object });
        let contract = Contract::new(path, identifier, ir);
        let mut contracts: Vec<Contract> = Vec::new();
        contracts.push(contract);
        Self { contracts, libraries: Vec::new() }
    }

    /// A project of one native-IR contract, identified by its path.
    pub fn try_from_llvm_ir_source(path: String, source: String) -> (r: Self)
        ensures
            r.wf(),
            r.contracts@.len() == 1,
            r.contracts@[0].path@ == path@,
            r.contracts@[0].identifier@ == path@,
            r.contracts@[0].ir matches IR::LLVMIR(l) && l.path@ == path@ && l.source@ == source@,
            r.contracts@[0].state is Unbuilt,
            r.libraries@.len() == 0,
    {
        let identifier = path.clone();
        let ir = IR::LLVMIR(LLVMIR { path: path.clone(), source });
        let contract = Contract::new(path, identifier, ir);
        let mut contracts: Vec<Contract> = Vec::new();
        contracts.push(contract);
        Self { contracts, libraries: Vec::new() }
    }

    /// A project of one target-assembly contract, identified by its path.
    pub fn try_from_zkasm_source(path: String, source: String) -> (r: Self)
        ensures
            r.wf(),
            r.contracts@.len() == 1,
            r.contracts@[0].path@ == path@,
            r.contracts@[0].identifier@ == path@,
            r.contracts@[0].ir matches IR::ZKASM(z) && z.path@ == path@ && z.source@ == source@,
            r.contracts@[0].state is Unbuilt,
            r.libraries@.len() == 0,
    {
        let identifier = path.clone();
        let ir = IR::ZKASM(ZKASM::new(path.clone(), source));
        let contract = Contract::new(path, identifier, ir);
        let mut contracts: Vec<Contract> = Vec::new();
        contracts.push(contract);
        Self { contracts, libraries: Vec::new() }
    }
}

/// Selects the single input file of a single-file run mode: none is an
/// error, more than one is an error carrying the count.
pub fn select_single_input(input_files: &Vec<String>) -> (r: Result<&String, Error>)
    ensures
        input_files@.len() == 1 <==> r is Ok,
        r matches Ok(p) ==> p@ == input_files@[0]@,
        r matches Err(e) ==> {
            &&& input_files@.len() == 0 ==> e == Error::InputAcquisition(InputError::NoInputFile)
            &&& input_files@.len() > 1 ==> e == Error::InputAcquisition(
                InputError::TooManyInputFiles(input_files@.len() as usize),
            )
        },
{
    if input_files.len() == 1 {
        Ok(&input_files[0])
    } else if input_files.len() == 0 {
        Err(Error::InputAcquisition(InputError::NoInputFile))
    } else {
        Err(Error::InputAcquisition(InputError::TooManyInputFiles(input_files.len())))
    }
}

} // verus!
