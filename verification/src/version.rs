//! The front-end compiler version and the code-generation pipeline choice.

use vstd::prelude::*;

verus! {

/// A front-end compiler version as numeric components.
#[derive(Debug, Clone, Copy, PartialEq, Eq, Structural)]
pub struct SolcVersion {
    /// The major component.
    pub major: u64,
    /// The minor component.
    pub minor: u64,
    /// The patch component.
    pub patch: u64,
}

/// Lexicographic order on version components: `a` is at least `b`.
pub open spec fn spec_version_ge(a: SolcVersion, b: SolcVersion) -> bool {
    ||| a.major > b.major
    ||| (a.major == b.major && a.minor > b.minor)
    ||| (a.major == b.major && a.minor == b.minor && a.patch >= b.patch)
}

/// The numeric components of a semantic version text, when well-formed.
pub uninterp spec fn semver_parts_of(s: Seq<char>) -> Option<(u64, u64, u64)>;

/// Relies on `semver::Version::parse`: a well-formed semantic version text
/// yields its numeric components; the result depends on the text alone.
#[verifier::external_body]
fn parse_semver(s: &str) -> (r: Option<(u64, u64, u64)>)
    ensures
        r == semver_parts_of(s@),
{
    match semver::Version::parse(s) {
        Ok(v) => Some((v.major, v.minor, v.patch)),
        Err(_) => None,
    }
}

impl SolcVersion {
    /// A shortcut constructor.
    pub fn new(major: u64, minor: u64, patch: u64) -> (r: Self)
        ensures
            r == (SolcVersion { major, minor, patch }),
    {
        Self { major, minor, patch }
    }

    /// The first front-end version able to emit the structured IR.
    pub fn first_yul_version() -> (r: Self)
        ensures
            r == (SolcVersion { major: 0u64, minor: 8u64, patch: 0u64 }),
    {
        Self { major: 0, minor: 8, patch: 0 }
    }

    /// Parses a semantic version text into its components.
    pub fn try_from_text(text: &str) -> (r: Option<Self>)
        ensures
            match r {
                Some(v) => semver_parts_of(text@) == Some((v.major, v.minor, v.patch)),
                None => semver_parts_of(text@) is None,
            },
    {
        match parse_semver(text) {
            Some((major, minor, patch)) => Some(Self { major, minor, patch }),
            None => None,
        }
    }

    /// Whether this version is at least `other`.
    pub fn ge(&self, other: &Self) -> (r: bool)
        ensures
            r == spec_version_ge(*self, *other),
    {
        self.major > other.major || (self.major == other.major && (self.minor > other.minor || (
        self.minor == other.minor && self.patch >= other.patch)))
    }
}

/// The code-generation pipeline the front-end output is taken through.
#[derive(Debug, Clone, Copy, PartialEq, Eq, Structural)]
pub enum Pipeline {
    /// The structured-IR pipeline.
    Yul,
    /// The legacy-assembly pipeline, with control-flow reconstruction.
    EVMLA,
}

/// The pipeline chosen for a front-end version: the structured IR is used
/// exactly when the version can emit it and the caller does not force the
/// legacy assembly.
pub open spec fn spec_pipeline(version: SolcVersion, force_evmla: bool) -> Pipeline {
    if spec_version_ge(version, SolcVersion { major: 0u64, minor: 8u64, patch: 0u64 })
        && !force_evmla {
        Pipeline::Yul
    } else {
        Pipeline::EVMLA
    }
}

impl Pipeline {
    /// Chooses the pipeline for a front-end version.
    pub fn new(version: &SolcVersion, force_evmla: bool) -> (r: Self)
        ensures
            r == spec_pipeline(*version, force_evmla),
    {
        let first_yul = SolcVersion::first_yul_version();
        if version.ge(&first_yul) && !force_evmla {
            Pipeline::Yul
        } else {
            Pipeline::EVMLA
        }
    }
}

/// Whether the front-end is asked to compile through the structured IR:
/// exactly when the version supports it and the legacy assembly is not
/// forced.
pub fn use_via_ir(version: &SolcVersion, force_evmla: bool) -> (r: bool)
    ensures
        r == (spec_version_ge(
            *version,
            SolcVersion { major: 0u64, minor: 8u64, patch: 0u64 },
        ) && !force_evmla),
{
    let first_yul = SolcVersion::first_yul_version();
    version.ge(&first_yul) && !force_evmla
}

} // verus!
