//! The standard-JSON input handed to the front-end: language, source code
//! files and settings.

use vstd::prelude::*;

use crate::error::Error;
use crate::settings::LibraryBinding;
use crate::settings::Metadata;
use crate::settings::Optimizer;
use crate::settings::Selection;
use crate::settings::Settings;
use crate::settings::spec_libraries_wf;
use crate::settings::spec_library_parse_error;
use crate::settings::spec_parsed_bindings;
use crate::settings::spec_required_flag;
use crate::settings::SelectionFlag;
use crate::version::Pipeline;

verus! {

/// The input language.
#[derive(Debug, Clone, Copy, PartialEq, Eq, Structural)]
pub enum Language {
    /// Solidity source code.
    Solidity,
    /// Structured-IR source code.
    Yul,
}

/// One source code file.
#[derive(Debug, Clone, PartialEq, Eq)]
pub struct Source {
    /// The source code text.
    pub content: String,
}

impl Source {
    /// A shortcut constructor.
    pub fn new(content: String) -> (r: Self)
        ensures
            r.content@ == content@,
    {
        Self { content }
    }
}

/// Whether no two source entries share a path: what a path-keyed map
/// gives, kept as an invariant of the list that replaces it.
pub open spec fn spec_source_keys_unique(sources: Seq<(String, Source)>) -> bool {
    forall|i: int, j: int|
        0 <= i < j < sources.len() ==> (#[trigger] sources[i]).0@ != (#[trigger] sources[j]).0@
}

/// The standard-JSON input: sources are kept keyed by path, in the order
/// handed in. A container that came from the front-end's path-keyed map
/// holds each path once (`spec_source_keys_unique`).
#[derive(Debug, Clone, PartialEq, Eq)]
pub struct Input {
    /// The input language.
    pub language: Language,
    /// The source code files, keyed by path, each path once.
    pub sources: Vec<(String, Source)>,
    /// The compiler settings.
    pub settings: Settings,
}

impl Input {
    /// A shortcut constructor from paths whose contents the caller has
    /// already read: each entry pairs a path with the file's text. The
    /// library specifiers are parsed; the first malformed one aborts the
    /// construction.
    pub fn try_from_paths(
        language: Language,
        paths: Vec<(String, String)>,
        library_map: Vec<String>,
        output_selection: Selection,
        optimizer: Optimizer,
        metadata: Option<Metadata>,
        via_ir: bool,
    ) -> (r: Result<Self, Error>)
        ensures
            r is Ok <==> spec_libraries_wf(library_map@),
            r matches Ok(input) ==> {
                &&& input.language == language
                &&& input.sources@.len() == paths@.len()
                &&& forall|i: int|
                    0 <= i < paths@.len() ==> (#[trigger] input.sources@[i]).0@ == paths@[i].0@
                        && input.sources@[i].1.content@ == paths@[i].1@
                &&& input.settings.libraries matches Some(bs) && spec_parsed_bindings(
                    library_map@,
                    bs@,
                )
                &&& input.settings.output_selection == Some(output_selection)
                &&& input.settings.optimizer == optimizer
                &&& input.settings.metadata == metadata
                &&& input.settings.via_ir == if via_ir {
                    Some(true)
                } else {
                    None::<bool>
                }
            },
            r matches Err(e) ==> spec_library_parse_error(library_map@, e),
    {
        let libraries: Vec<LibraryBinding> = match Settings::parse_libraries(library_map) {
            Ok(libraries) => libraries,
            Err(e) => {
                return Err(e);
            },
        };
        let mut sources: Vec<(String, Source)> = Vec::new();
        let mut i: usize = 0;
        while i < paths.len()
            invariant
                0 <= i <= paths@.len(),
                sources@.len() == i,
                forall|k: int|
                    0 <= k < i ==> (#[trigger] sources@[k]).0@ == paths@[k].0@
                        && sources@[k].1.content@ == paths@[k].1@,
            decreases paths@.len() - i,
        {
            let path: String = paths[i].0.clone();
            let content: String = paths[i].1.clone();
            sources.push((path, Source { content }));
            i += 1;
        }
        Ok(
            Self {
                language,
                sources,
                settings: Settings::new(libraries, output_selection, optimizer, metadata, via_ir),
            },
        )
    }

    /// A shortcut constructor from in-memory source code, for a run whose
    /// library bindings are already parsed. The language is always
    /// Solidity.
    pub fn try_from_sources(
        sources: Vec<(String, String)>,
        libraries: Vec<LibraryBinding>,
        output_selection: Selection,
        optimizer: Optimizer,
        metadata: Option<Metadata>,
        via_ir: bool,
    ) -> (r: Result<Self, Error>)
        ensures
            r matches Ok(input) ==> {
                &&& input.language == Language::Solidity
                &&& input.sources@.len() == sources@.len()
                &&& forall|i: int|
                    0 <= i < sources@.len() ==> (#[trigger] input.sources@[i]).0@ == sources@[i].0@
                        && input.sources@[i].1.content@ == sources@[i].1@
                &&& input.settings.libraries matches Some(bs) && bs@ == libraries@
                &&& input.settings.output_selection == Some(output_selection)
                &&& input.settings.optimizer == optimizer
                &&& input.settings.metadata == metadata
                &&& input.settings.via_ir == if via_ir {
                    Some(true)
                } else {
                    None::<bool>
                }
            },
            r is Ok,
    {
        let mut converted: Vec<(String, Source)> = Vec::new();
        let mut i: usize = 0;
        while i < sources.len()
            invariant
                0 <= i <= sources@.len(),
                converted@.len() == i,
                forall|k: int|
                    0 <= k < i ==> (#[trigger] converted@[k]).0@ == sources@[k].0@
                        && converted@[k].1.content@ == sources@[k].1@,
            decreases sources@.len() - i,
        {
            let path: String = sources[i].0.clone();
            let content: String = sources[i].1.clone();
            converted.push((path, Source { content }));
            i += 1;
        }
        Ok(
            Self {
                language: Language::Solidity,
                sources: converted,
                settings: Settings::new(libraries, output_selection, optimizer, metadata, via_ir),
            },
        )
    }

    /// Shapes a request read from the protocol stream: the output
    /// selection receives the flags the pipeline requires, starting from
    /// an empty selection when the request declared none, and the
    /// structured-IR flag is set exactly as asked.
    pub fn extend_with_required(&mut self, pipeline: Pipeline, via_ir: bool)
        ensures
            final(self).language == old(self).language,
            final(self).sources == old(self).sources,
            final(self).settings.libraries == old(self).settings.libraries,
            final(self).settings.optimizer == old(self).settings.optimizer,
            final(self).settings.metadata == old(self).settings.metadata,
            final(self).settings.via_ir == if via_ir {
                Some(true)
            } else {
                None::<bool>
            },
            final(self).settings.output_selection matches Some(sel) && {
                let base = match old(self).settings.output_selection {
                    Some(prior) => prior.flags@,
                    None => Seq::<SelectionFlag>::empty(),
                };
                sel.flags@ == base + (if base.contains(spec_required_flag(pipeline)) {
                    Seq::<SelectionFlag>::empty()
                } else {
                    seq![spec_required_flag(pipeline)]
                }) + (if base.contains(SelectionFlag::Metadata) {
                    Seq::<SelectionFlag>::empty()
                } else {
                    seq![SelectionFlag::Metadata]
                })
            },
    {
        let mut selection: Selection = match self.settings.output_selection.take() {
            Some(prior) => prior,
            None => Selection { flags: Vec::new() },
        };
        selection.extend_with_required(pipeline);
        self.settings.output_selection = Some(selection);
        self.settings.via_ir = if via_ir {
            Some(true)
        } else {
            None
        };
    }
}

} // verus!
