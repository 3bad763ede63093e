//! The standard-JSON input settings: library address bindings, output
//! selection, optimizer and metadata settings.

use vstd::prelude::*;

use crate::error::Error;
use crate::error::InputError;
use crate::strutil::find_char;
use crate::strutil::seg_before;
use crate::strutil::after_first;
use crate::strutil::spec_find_char;
use crate::strutil::spec_seg_before;
use crate::strutil::spec_after_first;
use crate::strutil::str_eq;
use crate::version::Pipeline;

verus! {

/// One library address binding: the contract `name` defined in `file` is
/// pre-deployed at `address`.
#[derive(Debug, Clone, PartialEq, Eq)]
pub struct LibraryBinding {
    /// The defining source file.
    pub file: String,
    /// The library contract name.
    pub name: String,
    /// The target address the library is bound to.
    pub address: String,
}

/// The address bound to `(file, name)`, if any; a later binding for the
/// same pair overrides an earlier one.
pub open spec fn spec_lookup_library(
    bindings: Seq<LibraryBinding>,
    file: Seq<char>,
    name: Seq<char>,
) -> Option<Seq<char>>
    decreases bindings.len(),
{
    if bindings.len() == 0 {
        None
    } else if bindings.last().file@ == file && bindings.last().name@ == name {
        Some(bindings.last().address@)
    } else {
        spec_lookup_library(bindings.drop_last(), file, name)
    }
}

/// The outcome of parsing one `file:name=address` library specifier.
pub enum LibraryEntry {
    /// The specifier is well-formed.
    Parsed { file: Seq<char>, name: Seq<char>, address: Seq<char> },
    /// The part before `=` holds no `:`, so the contract name is missing.
    MissingName { path: Seq<char> },
    /// The specifier holds no `=`, so the address is missing.
    MissingAddress { path: Seq<char> },
}

/// Parses one library specifier `file:name=address`: the path is the part
/// before the first `=`, the file the part of the path before the first
/// `:`, the name the path segment after that `:`, and the address the
/// segment after the `=`. Surplus `:`- and `=`-separated segments are
/// ignored.
pub open spec fn spec_parse_library_entry(s: Seq<char>) -> LibraryEntry {
    let path = spec_seg_before(s, '=');
    if spec_find_char(path, ':') is None {
        LibraryEntry::MissingName { path }
    } else if spec_find_char(s, '=') is None {
        LibraryEntry::MissingAddress { path }
    } else {
        LibraryEntry::Parsed {
            file: spec_seg_before(path, ':'),
            name: spec_seg_before(spec_after_first(path, ':'), ':'),
            address: spec_seg_before(spec_after_first(s, '='), '='),
        }
    }
}

/// Whether every specifier of the list is well-formed.
pub open spec fn spec_libraries_wf(input: Seq<String>) -> bool {
    forall|i: int|
        0 <= i < input.len() ==> #[trigger] spec_parse_library_entry(input[i]@) is Parsed
}

/// Whether `bindings` is, entry for entry, the parse of `input`.
pub open spec fn spec_parsed_bindings(input: Seq<String>, bindings: Seq<LibraryBinding>) -> bool {
    &&& bindings.len() == input.len()
    &&& forall|i: int|
        0 <= i < input.len() ==> {
            &&& #[trigger] spec_parse_library_entry(input[i]@) matches LibraryEntry::Parsed {
                file,
                name,
                address,
            }
            &&& bindings[i].file@ == file
            &&& bindings[i].name@ == name
            &&& bindings[i].address@ == address
        }
}

/// Whether `e` is the error of the first malformed specifier of `input`.
pub open spec fn spec_library_parse_error(input: Seq<String>, e: Error) -> bool {
    exists|i: int|
        #![trigger spec_parse_library_entry(input[i]@)]
        {
            &&& 0 <= i < input.len()
            &&& forall|j: int|
                0 <= j < i ==> #[trigger] spec_parse_library_entry(input[j]@) is Parsed
            &&& match spec_parse_library_entry(input[i]@) {
                LibraryEntry::MissingName { path } => e matches Error::InputAcquisition(
                    InputError::LibraryContractNameMissing(p),
                ) && p@ == path,
                LibraryEntry::MissingAddress { path } => e matches Error::InputAcquisition(
                    InputError::LibraryAddressMissing(p),
                ) && p@ == path,
                LibraryEntry::Parsed { .. } => false,
            }
        }
}

/// The optimizer settings passed through to the front-end.
#[derive(Debug, Clone, PartialEq, Eq, Structural)]
pub struct Optimizer {
    /// Whether the optimizer is enabled.
    pub enabled: bool,
    /// The optimization mode character, if overridden.
    pub mode: Option<char>,
}

impl Optimizer {
    /// A shortcut constructor.
    pub fn new(enabled: bool, mode: Option<char>) -> (r: Self)
        ensures
            r.enabled == enabled,
            r.mode == mode,
    {
        Self { enabled, mode }
    }
}

/// The scheme of the metadata hash embedded at the end of the bytecode.
#[derive(Debug, Clone, Copy, PartialEq, Eq, Structural)]
pub enum MetadataHash {
    /// No metadata hash is embedded.
    NoHash,
    /// The Keccak-256 digest of the metadata is embedded.
    Keccak256,
}

/// The metadata settings.
#[derive(Debug, Clone, Copy, PartialEq, Eq, Structural)]
pub struct Metadata {
    /// The bytecode hash scheme, if set.
    pub bytecode_hash: Option<MetadataHash>,
}

impl Metadata {
    /// A shortcut constructor.
    pub fn new(bytecode_hash: Option<MetadataHash>) -> (r: Self)
        ensures
            r.bytecode_hash == bytecode_hash,
    {
        Self { bytecode_hash }
    }
}

/// Whether a metadata hash is to be embedded in the final bytecode: only an
/// explicit `NoHash` setting switches it off.
pub open spec fn spec_include_metadata_hash(metadata: Option<Metadata>) -> bool {
    match metadata {
        Some(m) => m.bytecode_hash != Some(MetadataHash::NoHash),
        None => true,
    }
}

/// Decides from the metadata settings whether a metadata hash is embedded
/// in the final bytecode.
pub fn include_metadata_hash(metadata: &Option<Metadata>) -> (r: bool)
    ensures
        r == spec_include_metadata_hash(*metadata),
{
    match metadata {
        Some(m) => !(m.bytecode_hash == Some(MetadataHash::NoHash)),
        None => true,
    }
}

/// The backend optimizer configuration, shared read-only by every worker
/// of one run.
#[derive(Debug, Clone, Copy, PartialEq, Eq, Structural)]
pub struct OptimizerSettings {
    /// The middle-end optimization level, `0` to `3`.
    pub level_middle_end: u32,
    /// The back-end optimization level, `0` to `3`.
    pub level_back_end: u32,
    /// Whether to optimize for size.
    pub is_size_fallback: bool,
}

impl OptimizerSettings {
    /// No optimizations.
    pub fn none() -> (r: Self)
        ensures
            r == (OptimizerSettings {
                level_middle_end: 0u32,
                level_back_end: 0u32,
                is_size_fallback: false,
            }),
    {
        Self { level_middle_end: 0, level_back_end: 0, is_size_fallback: false }
    }
}

/// The shared, reusable backend target configuration of one run, applied
/// uniformly to all contracts and immutable once built.
#[derive(Debug, Clone, Copy, PartialEq, Eq, Structural)]
pub struct CompilerSettings {
    /// The optimizer settings.
    pub optimizer: OptimizerSettings,
    /// Whether the system-contract mode is on.
    pub is_system_mode: bool,
    /// Whether a metadata hash is embedded at the end of the bytecode.
    pub include_metadata_hash: bool,
}

impl CompilerSettings {
    /// A shortcut constructor.
    pub fn new(
        optimizer: OptimizerSettings,
        is_system_mode: bool,
        include_metadata_hash: bool,
    ) -> (r: Self)
        ensures
            r.optimizer == optimizer,
            r.is_system_mode == is_system_mode,
            r.include_metadata_hash == include_metadata_hash,
    {
        Self { optimizer, is_system_mode, include_metadata_hash }
    }

    /// The fixed configuration of the target-assembly mode: no
    /// optimizations and no system mode; only the metadata-hash flag is
    /// the caller's choice.
    pub fn zkasm_mode(include_metadata_hash: bool) -> (r: Self)
        ensures
            r.optimizer == (OptimizerSettings {
                level_middle_end: 0u32,
                level_back_end: 0u32,
                is_size_fallback: false,
            }),
            !r.is_system_mode,
            r.include_metadata_hash == include_metadata_hash,
    {
        Self {
            optimizer: OptimizerSettings::none(),
            is_system_mode: false,
            include_metadata_hash,
        }
    }
}

/// One output item the caller asks the front-end for.
#[derive(Debug, Clone, Copy, PartialEq, Eq, Structural)]
pub enum SelectionFlag {
    /// The optimized structured IR.
    Yul,
    /// The legacy assembly.
    EVMLA,
    /// The metadata.
    Metadata,
    /// The ABI description.
    ABI,
}

/// The output selection filters.
#[derive(Debug, Clone, PartialEq, Eq)]
pub struct Selection {
    /// The flags requested for every file.
    pub flags: Vec<SelectionFlag>,
}

/// The output item a pipeline requires from the front-end.
pub open spec fn spec_required_flag(pipeline: Pipeline) -> SelectionFlag {
    match pipeline {
        Pipeline::Yul => SelectionFlag::Yul,
        Pipeline::EVMLA => SelectionFlag::EVMLA,
    }
}

/// Whether the flag list holds `f`.
fn has_flag(flags: &Vec<SelectionFlag>, f: SelectionFlag) -> (r: bool)
    ensures
        r == flags@.contains(f),
{
    let mut i: usize = 0;
    while i < flags.len()
        invariant
            0 <= i <= flags@.len(),
            forall|j: int| 0 <= j < i ==> flags@[j] != f,
        decreases flags@.len() - i,
    {
        if flags[i] == f {
            return true;
        }
        i += 1;
    }
    false
}

impl Selection {
    /// The selection a pipeline requires: its IR output and the metadata.
    pub fn new_required(pipeline: Pipeline) -> (r: Self)
        ensures
            r.flags@ == seq![spec_required_flag(pipeline), SelectionFlag::Metadata],
    {
        let ir_flag = match pipeline {
            Pipeline::Yul => SelectionFlag::Yul,
            Pipeline::EVMLA => SelectionFlag::EVMLA,
        };
        let mut flags: Vec<SelectionFlag> = Vec::new();
        flags.push(ir_flag);
        flags.push(SelectionFlag::Metadata);
        proof {
            assert(flags@ =~= seq![spec_required_flag(pipeline), SelectionFlag::Metadata]);
        }
        Self { flags }
    }

    /// Adds the flags a pipeline requires, keeping those already present:
    /// first the pipeline's IR output, then the metadata, each appended
    /// only when absent.
    pub fn extend_with_required(&mut self, pipeline: Pipeline)
        ensures
            final(self).flags@ == old(self).flags@ + (if old(self).flags@.contains(
                spec_required_flag(pipeline),
            ) {
                Seq::<SelectionFlag>::empty()
            } else {
                seq![spec_required_flag(pipeline)]
            }) + (if old(self).flags@.contains(SelectionFlag::Metadata) {
                Seq::<SelectionFlag>::empty()
            } else {
                seq![SelectionFlag::Metadata]
            }),
    {
        let ir_flag = match pipeline {
            Pipeline::Yul => SelectionFlag::Yul,
            Pipeline::EVMLA => SelectionFlag::EVMLA,
        };
        let had_metadata = has_flag(&self.flags, SelectionFlag::Metadata);
        if !has_flag(&self.flags, ir_flag) {
            self.flags.push(ir_flag);
        }
        if !had_metadata {
            self.flags.push(SelectionFlag::Metadata);
        }
        proof {
            assert(self.flags@ =~= old(self).flags@ + (if old(self).flags@.contains(
                spec_required_flag(pipeline),
            ) {
                Seq::<SelectionFlag>::empty()
            } else {
                seq![spec_required_flag(pipeline)]
            }) + (if old(self).flags@.contains(SelectionFlag::Metadata) {
                Seq::<SelectionFlag>::empty()
            } else {
                seq![SelectionFlag::Metadata]
            }));
        }
    }
}

/// The standard-JSON input settings.
#[derive(Debug, Clone, PartialEq, Eq)]
pub struct Settings {
    /// The linker library address bindings.
    pub libraries: Option<Vec<LibraryBinding>>,
    /// The output selection filters.
    pub output_selection: Option<Selection>,
    /// The optimizer settings.
    pub optimizer: Optimizer,
    /// The metadata settings.
    pub metadata: Option<Metadata>,
    /// Whether to compile through the structured IR.
    pub via_ir: Option<bool>,
}

impl Settings {
    /// A shortcut constructor.
    pub fn new(
        libraries: Vec<LibraryBinding>,
        output_selection: Selection,
        optimizer: Optimizer,
        metadata: Option<Metadata>,
        via_ir: bool,
    ) -> (r: Self)
        ensures
            r.libraries matches Some(l) && l@ == libraries@,
            r.output_selection matches Some(s) && s == output_selection,
            r.optimizer == optimizer,
            r.metadata == metadata,
            r.via_ir == if via_ir {
                Some(true)
            } else {
                None::<bool>
            },
    {
        Self {
            libraries: Some(libraries),
            output_selection: Some(output_selection),
            optimizer,
            metadata,
            via_ir: if via_ir {
                Some(true)
            } else {
                None
            },
        }
    }

    /// Parses the library specifier list into the list of bindings, in
    /// order. The first malformed specifier aborts the parse: a path
    /// without `:` yields `LibraryContractNameMissing`, one without `=`
    /// yields `LibraryAddressMissing`.
    pub fn parse_libraries(input: Vec<String>) -> (r: Result<Vec<LibraryBinding>, Error>)
        ensures
            r is Ok <==> spec_libraries_wf(input@),
            match r {
                Ok(bindings) => spec_parsed_bindings(input@, bindings@),
                Err(e) => spec_library_parse_error(input@, e),
            },
    {
        let mut bindings: Vec<LibraryBinding> = Vec::new();
        let mut k: usize = 0;
        while k < input.len()
            invariant
                0 <= k <= input@.len(),
                bindings@.len() == k,
                forall|i: int|
                    0 <= i < k ==> {
                        &&& #[trigger] spec_parse_library_entry(input@[i]@)
                            matches LibraryEntry::Parsed { file, name, address }
                        &&& bindings@[i].file@ == file
                        &&& bindings@[i].name@ == name
                        &&& bindings@[i].address@ == address
                    },
            decreases input@.len() - k,
        {
            let entry: &String = &input[k];
            let path: String = seg_before(entry.as_str(), '=');
            match find_char(path.as_str(), ':') {
                None => {
                    proof {
                        assert(spec_parse_library_entry(input@[k as int]@)
                            matches LibraryEntry::MissingName { path: p } && p == path@);
                    }
                    return Err(
                        Error::InputAcquisition(InputError::LibraryContractNameMissing(path)),
                    );
                },
                Some(_) => {},
            }
            match find_char(entry.as_str(), '=') {
                None => {
                    proof {
                        assert(spec_parse_library_entry(input@[k as int]@)
                            matches LibraryEntry::MissingAddress { path: p } && p == path@);
                    }
                    return Err(Error::InputAcquisition(InputError::LibraryAddressMissing(path)));
                },
                Some(_) => {},
            }
            let file: String = seg_before(path.as_str(), ':');
            let name_rest: String = after_first(path.as_str(), ':');
            let name: String = seg_before(name_rest.as_str(), ':');
            let address_rest: String = after_first(entry.as_str(), '=');
            let address: String = seg_before(address_rest.as_str(), '=');
            proof {
                assert(spec_parse_library_entry(input@[k as int]@)
                    matches LibraryEntry::Parsed { file: f, name: n, address: a } && f == file@ && n
                    == name@ && a == address@);
            }
            bindings.push(LibraryBinding { file, name, address });
            k += 1;
        }
        Ok(bindings)
    }
}

/// One library reference after resolution: either bound to an address or
/// left as a recognizable placeholder for a later external linking step.
#[derive(Debug, Clone, PartialEq, Eq)]
pub enum LibraryLink {
    /// The reference is bound: its call sites are patched to the address.
    Resolved {
        /// The defining source file.
        file: String,
        /// The library contract name.
        name: String,
        /// The bound address.
        address: String,
    },
    /// The reference is unbound: its call sites keep an unlinked
    /// placeholder, which is valid output, not an error.
    Placeholder {
        /// The defining source file.
        file: String,
        /// The library contract name.
        name: String,
    },
}

/// Looks up the address bound to `(file, name)`, the latest binding
/// winning.
pub fn lookup_library(bindings: &Vec<LibraryBinding>, file: &str, name: &str) -> (r: Option<
    String,
>)
    ensures
        match r {
            Some(a) => spec_lookup_library(bindings@, file@, name@) matches Some(addr) && a@
                == addr,
            None => spec_lookup_library(bindings@, file@, name@) is None,
        },
{
    let mut j: usize = bindings.len();
    proof {
        assert(bindings@.take(bindings@.len() as int) =~= bindings@);
    }
    while j > 0
        invariant
            0 <= j <= bindings@.len(),
            spec_lookup_library(bindings@, file@, name@) == spec_lookup_library(
                bindings@.take(j as int),
                file@,
                name@,
            ),
        decreases j,
    {
        proof {
            assert(bindings@.take(j as int).last() == bindings@[j - 1]);
            assert(bindings@.take(j as int).drop_last() =~= bindings@.take(j - 1));
        }
        if str_eq(bindings[j - 1].file.as_str(), file) && str_eq(
            bindings[j - 1].name.as_str(),
            name,
        ) {
            return Some(bindings[j - 1].address.clone());
        }
        j -= 1;
    }
    None
}

/// Resolves a list of library references against the bindings: a bound
/// reference becomes its address and leaves no placeholder; an unbound one
/// is kept as a placeholder, never silently zeroed.
pub fn resolve_libraries(refs: &Vec<(String, String)>, bindings: &Vec<LibraryBinding>) -> (r: Vec<
    LibraryLink,
>)
    ensures
        r@.len() == refs@.len(),
        forall|i: int|
            0 <= i < refs@.len() ==> match spec_lookup_library(
                bindings@,
                (#[trigger] refs@[i]).0@,
                refs@[i].1@,
            ) {
                Some(addr) => r@[i] matches LibraryLink::Resolved { file, name, address } && file@
                    == refs@[i].0@ && name@ == refs@[i].1@ && address@ == addr,
                None => r@[i] matches LibraryLink::Placeholder { file, name } && file@
                    == refs@[i].0@ && name@ == refs@[i].1@,
            },
{
    let mut r: Vec<LibraryLink> = Vec::new();
    let mut i: usize = 0;
    while i < refs.len()
        invariant
            0 <= i <= refs@.len(),
            r@.len() == i,
            forall|k: int|
                0 <= k < i ==> match spec_lookup_library(
                    bindings@,
                    (#[trigger] refs@[k]).0@,
                    refs@[k].1@,
                ) {
                    Some(addr) => r@[k] matches LibraryLink::Resolved { file, name, address }
                        && file@ == refs@[k].0@ && name@ == refs@[k].1@ && address@ == addr,
                    None => r@[k] matches LibraryLink::Placeholder { file, name } && file@
                        == refs@[k].0@ && name@ == refs@[k].1@,
                },
        decreases refs@.len() - i,
    {
        let file = refs[i].0.clone();
        let name = refs[i].1.clone();
        match lookup_library(bindings, file.as_str(), name.as_str()) {
            Some(address) => {
                r.push(LibraryLink::Resolved { file, name, address });
            },
            None => {
                r.push(LibraryLink::Placeholder { file, name });
            },
        }
        i += 1;
    }
    r
}

} // verus!
