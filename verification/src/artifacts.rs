//! The build artifacts: one finished machine build per contract, the
//! project-level aggregate, and the adapters that fold it into the
//! caller-supplied output containers.

use vstd::prelude::*;

use crate::combined_json::CombinedJson;
use crate::combined_json::CombinedJsonContract;
use crate::error::Error;
use crate::hexenc::hex_encode;
use crate::hexenc::spec_hex;
use crate::solc_output::Output;
use crate::solc_output::OutputContract;
use crate::strutil::str_eq;

verus! {

/// The index of the last occurrence of `c` in `s`, if any.
pub open spec fn spec_rfind_char(s: Seq<char>, c: char) -> Option<int>
    decreases s.len(),
{
    if s.len() == 0 {
        None
    } else if s.last() == c {
        Some(s.len() - 1)
    } else {
        spec_rfind_char(s.drop_last(), c)
    }
}

/// `spec_rfind_char` returns the greatest index holding `c`, or `None`
/// when no index holds it.
pub proof fn lemma_rfind_char_props(s: Seq<char>, c: char)
    ensures
        match spec_rfind_char(s, c) {
            Some(i) => 0 <= i < s.len() && s[i] == c && (forall|j: int|
                i < j < s.len() ==> s[j] != c),
            None => forall|j: int| 0 <= j < s.len() ==> s[j] != c,
        },
    decreases s.len(),
{
    if s.len() == 0 {
    } else if s.last() == c {
    } else {
        lemma_rfind_char_props(s.drop_last(), c);
        assert(forall|j: int| 0 <= j < s.len() - 1 ==> s.drop_last()[j] == s[j]);
    }
}

/// The greatest index holding `c` is what `spec_rfind_char` returns.
pub proof fn lemma_rfind_char_at(s: Seq<char>, c: char, i: int)
    requires
        0 <= i < s.len(),
        s[i] == c,
        forall|j: int| i < j < s.len() ==> s[j] != c,
    ensures
        spec_rfind_char(s, c) == Some(i),
{
    lemma_rfind_char_props(s, c);
    match spec_rfind_char(s, c) {
        Some(k) => {
            if k < i {
                assert(s[i] != c);
            } else if k > i {
                assert(s[k] != c);
            }
        },
        None => {
            assert(s[i] != c);
        },
    }
}

/// The short form of a contract path: the part after the last `/`, or the
/// whole path when it holds no `/`.
pub open spec fn spec_short_path(path: Seq<char>) -> Seq<char> {
    match spec_rfind_char(path, '/') {
        Some(i) => path.skip(i + 1),
        None => path,
    }
}

/// A contract's finished machine build, as the code-generation backend
/// returns it: bytecode, its text assembly, the resolved factory
/// dependencies and the bytecode content hash.
#[derive(Debug, Clone, PartialEq, Eq)]
pub struct MachineBuild {
    /// The text assembly.
    pub assembly_text: String,
    /// The machine bytecode.
    pub bytecode: Vec<u8>,
    /// The bytecode content hash.
    pub bytecode_hash: String,
    /// The factory dependencies: content hash to contract path.
    pub factory_dependencies: Vec<(String, String)>,
}

/// One contract's build artifact.
#[derive(Debug, Clone, PartialEq, Eq)]
pub struct Contract {
    /// The contract path.
    pub path: String,
    /// The auxiliary identifier, disambiguating translation units that
    /// share a path.
    pub identifier: String,
    /// The machine build.
    pub build: MachineBuild,
    /// The metadata, serialized.
    pub metadata: String,
}

/// Whether `post` is `pre` with this contract's build folded in, in the
/// combined-JSON dialect: each pre-present field is overwritten and each
/// absent field stays absent, so a caller that asked for a subset gets
/// exactly that subset back. The runtime-bytecode field receives the same
/// code as the deploy field: this backend does not distinguish the two.
pub open spec fn spec_combined_folded(
    pre: CombinedJsonContract,
    post: CombinedJsonContract,
    b: Contract,
) -> bool {
    &&& (pre.metadata is Some ==> (post.metadata matches Some(m) && m@ == b.metadata@))
    &&& (pre.metadata is None ==> post.metadata is None)
    &&& (pre.assembly is Some ==> (post.assembly matches Some(a) && a@ == b.build.assembly_text@))
    &&& (pre.assembly is None ==> post.assembly is None)
    &&& (pre.bin is Some ==> (post.bin matches Some(x) && x@ == spec_hex(b.build.bytecode@)))
    &&& (pre.bin is None ==> post.bin is None)
    &&& (pre.bin_runtime is Some ==> (post.bin_runtime matches Some(x) && x@ == spec_hex(
        b.build.bytecode@,
    )))
    &&& (pre.bin_runtime is None ==> post.bin_runtime is None)
    &&& (pre.factory_deps is Some ==> (post.factory_deps matches Some(fd) && fd@
        == b.build.factory_dependencies@))
    &&& (pre.factory_deps is None ==> post.factory_deps is None)
}

/// Whether `post` is `pre` with this contract's build folded in, in the
/// standard-JSON dialect: the metadata, factory dependencies and content
/// hash are installed, the EVM data (when present) has its legacy fields
/// replaced by the zkEVM equivalents, and everything else is kept.
pub open spec fn spec_standard_folded(pre: OutputContract, post: OutputContract, b: Contract) -> bool {
    &&& post.metadata matches Some(m) && m@ == b.metadata@
    &&& (pre.evm matches Some(e0) ==> (post.evm matches Some(e) && {
        &&& e.assembly is None
        &&& e.assembly_text matches Some(t) && t@ == b.build.assembly_text@
        &&& e.bytecode matches Some(bc) && bc.object@ == spec_hex(b.build.bytecode@)
        &&& e.method_identifiers == e0.method_identifiers
    }))
    &&& (pre.evm is None ==> post.evm is None)
    &&& post.factory_dependencies matches Some(fd) && fd@ == b.build.factory_dependencies@
    &&& post.hash matches Some(h) && h@ == b.build.bytecode_hash@
    &&& post.ir_optimized == pre.ir_optimized
}

/// Copies a list of string pairs.
pub(crate) fn clone_pairs(v: &Vec<(String, String)>) -> (r: Vec<(String, String)>)
    ensures
        r@ == v@,
{
    let mut r: Vec<(String, String)> = Vec::new();
    let mut i: usize = 0;
    while i < v.len()
        invariant
            0 <= i <= v@.len(),
            r@.len() == i,
            forall|k: int| 0 <= k < i ==> r@[k] == v@[k],
        decreases v@.len() - i,
    {
        r.push((v[i].0.clone(), v[i].1.clone()));
        i += 1;
    }
    proof {
        assert(r@ =~= v@);
    }
    r
}

/// The content of one planned output file.
#[derive(Debug, Clone, PartialEq, Eq)]
pub enum FileContent {
    /// Text assembly.
    Text(String),
    /// Binary bytecode.
    Binary(Vec<u8>),
}

/// One output file the directory adapter plans: a name under the chosen
/// directory and the bytes to write.
#[derive(Debug, Clone, PartialEq, Eq)]
pub struct PlannedFile {
    /// The file name, derived from the contract's short path.
    pub name: String,
    /// The content to write.
    pub content: FileContent,
}

/// Whether a planned file may be written over the target: an absent target
/// may always be written, a present one only under the overwrite flag.
/// Refusing is a per-file diagnostic, never a fatal error.
pub fn should_write(present: bool, overwrite: bool) -> (r: bool)
    ensures
        r == (!present || overwrite),
{
    !present || overwrite
}

impl Contract {
    /// A shortcut constructor.
    pub fn new(path: String, identifier: String, build: MachineBuild, metadata: String) -> (r: Self)
        ensures
            r.path@ == path@,
            r.identifier@ == identifier@,
            r.build == build,
            r.metadata@ == metadata@,
    {
        Self { path, identifier, build, metadata }
    }

    /// Converts the full contract path to its short form: the part after
    /// the last `/`.
    pub fn short_path(path: &str) -> (r: &str)
        ensures
            r@ == spec_short_path(path@),
    {
        let n: usize = path.unicode_len();
        let mut j: usize = n;
        while j > 0
            invariant
                0 <= j <= n,
                n == path@.len(),
                forall|k: int| j <= k < n ==> path@[k] != '/',
            decreases j,
        {
            if path.get_char(j - 1) == '/' {
                proof {
                    lemma_rfind_char_at(path@, '/', j - 1);
                }
                let part = path.substring_char(j, n);
                proof {
                    assert(part@ =~= path@.skip(j as int));
                }
                return part;
            }
            j -= 1;
        }
        proof {
            match spec_rfind_char(path@, '/') {
                Some(k) => {
                    lemma_rfind_char_props(path@, '/');
                    assert(path@[k] != '/');
                },
                None => {},
            }
        }
        path
    }

    /// Plans the directory output: the text assembly under
    /// `<shortPath>.zasm` and the bytecode under `<shortPath>.zbin`, each
    /// only when asked for.
    pub fn directory_plan(&self, output_assembly: bool, output_binary: bool) -> (r: Vec<
        PlannedFile,
    >)
        ensures
            r@.len() == (if output_assembly {
                1int
            } else {
                0int
            }) + (if output_binary {
                1int
            } else {
                0int
            }),
            output_assembly ==> ({
                &&& r@[0].name@ == spec_short_path(self.path@) + ".zasm"@
                &&& r@[0].content matches FileContent::Text(t) && t@ == self.build.assembly_text@
            }),
            output_binary ==> {
                let idx = if output_assembly {
                    1int
                } else {
                    0int
                };
                ({
                    &&& r@[idx].name@ == spec_short_path(self.path@) + ".zbin"@
                    &&& r@[idx].content matches FileContent::Binary(b) && b@
                        == self.build.bytecode@
                })
            },
    {
        let mut r: Vec<PlannedFile> = Vec::new();
        if output_assembly {
            let base = Self::short_path(self.path.as_str()).to_owned();
            let name = base.concat(".zasm");
            r.push(PlannedFile { name, content: FileContent::Text(self.build.assembly_text.clone()) });
        }
        if output_binary {
            let base = Self::short_path(self.path.as_str()).to_owned();
            let name = base.concat(".zbin");
            r.push(PlannedFile { name, content: FileContent::Binary(self.build.bytecode.clone()) });
        }
        r
    }

    /// Folds this contract's build into its combined-JSON slot,
    /// overwriting exactly the fields the caller declared.
    pub fn write_to_combined_json(&self, c: &mut CombinedJsonContract) -> (r: Result<(), Error>)
        ensures
            r is Ok,
            spec_combined_folded(*old(c), *final(c), *self),
    {
        if c.metadata.is_some() {
            c.metadata = Some(self.metadata.clone());
        }
        if c.assembly.is_some() {
            c.assembly = Some(self.build.assembly_text.clone());
        }
        let hexadecimal_bytecode = hex_encode(&self.build.bytecode);
        if c.bin.is_some() {
            c.bin = Some(hexadecimal_bytecode.clone());
        }
        if c.bin_runtime.is_some() {
            c.bin_runtime = Some(hexadecimal_bytecode);
        }
        if c.factory_deps.is_some() {
            c.factory_deps = Some(clone_pairs(&self.build.factory_dependencies));
        }
        Ok(())
    }

    /// Folds this contract's build into its standard-JSON slot: installs
    /// the metadata, factory dependencies and content hash, and replaces
    /// the EVM data's legacy fields by the zkEVM equivalents.
    pub fn write_to_standard_json(&self, c: &mut OutputContract) -> (r: Result<(), Error>)
        ensures
            r is Ok,
            spec_standard_folded(*old(c), *final(c), *self),
    {
        c.metadata = Some(self.metadata.clone());
        let assembly_text = self.build.assembly_text.clone();
        let bytecode = hex_encode(&self.build.bytecode);
        match &mut c.evm {
            Some(evm) => {
                evm.modify(assembly_text, bytecode);
            },
            None => {},
        }
        c.factory_dependencies = Some(clone_pairs(&self.build.factory_dependencies));
        c.hash = Some(self.build.bytecode_hash.clone());
        Ok(())
    }
}

/// The contract build of `contracts` whose identifier is `id`: the first
/// match, though the project invariant keeps identifiers unique.
pub open spec fn spec_find_build(contracts: Seq<(String, Contract)>, id: Seq<char>) -> Option<
    Contract,
>
    decreases contracts.len(),
{
    if contracts.len() == 0 {
        None
    } else if contracts.first().0@ == id {
        Some(contracts.first().1)
    } else {
        spec_find_build(contracts.skip(1), id)
    }
}

/// The project-level build artifact: every contract's build, in the
/// project's stable order. Produced exactly once per run, then handed to
/// the output adapters, which also record the version texts.
#[derive(Debug, Clone, PartialEq, Eq)]
pub struct Build {
    /// The per-contract builds, keyed by contract identifier.
    pub contracts: Vec<(String, Contract)>,
}

impl Build {
    /// A shortcut constructor.
    pub fn new(contracts: Vec<(String, Contract)>) -> (r: Self)
        ensures
            r.contracts@ == contracts@,
    {
        Self { contracts }
    }

    /// The build of the contract with this identifier, if any.
    pub fn find(&self, id: &str) -> (r: Option<&Contract>)
        ensures
            match r {
                Some(b) => spec_find_build(self.contracts@, id@) == Some(*b),
                None => spec_find_build(self.contracts@, id@) is None,
            },
    {
        let mut i: usize = 0;
        proof {
            assert(self.contracts@.skip(0int) =~= self.contracts@);
        }
        while i < self.contracts.len()
            invariant
                0 <= i <= self.contracts@.len(),
                spec_find_build(self.contracts@, id@) == spec_find_build(
                    self.contracts@.skip(i as int),
                    id@,
                ),
            decreases self.contracts@.len() - i,
        {
            proof {
                assert(self.contracts@.skip(i as int).first() == self.contracts@[i as int]);
                assert(self.contracts@.skip(i as int).skip(1) =~= self.contracts@.skip(i + 1));
            }
            if str_eq(self.contracts[i].0.as_str(), id) {
                return Some(&self.contracts[i].1);
            }
            i += 1;
        }
        proof {
            assert(self.contracts@.skip(self.contracts@.len() as int) =~= Seq::<(
                String,
                Contract,
            )>::empty());
        }
        None
    }
}

/// Whether `post` is `pre` with the build's contracts folded in, slot by
/// slot: a slot whose key matches a finished contract receives that
/// contract's build in its pre-present fields; any other slot is
/// untouched.
pub open spec fn spec_combined_contracts_folded(
    pre: Seq<(String, CombinedJsonContract)>,
    post: Seq<(String, CombinedJsonContract)>,
    builds: Seq<(String, Contract)>,
) -> bool {
    &&& post.len() == pre.len()
    &&& forall|k: int|
        0 <= k < pre.len() ==> {
            &&& (#[trigger] post[k]).0 == pre[k].0
            &&& match spec_find_build(builds, pre[k].0@) {
                Some(b) => spec_combined_folded(pre[k].1, post[k].1, b),
                None => post[k].1 == pre[k].1,
            }
        }
}

impl Build {
    /// Folds every contract's build into the combined-JSON container: each
    /// slot whose key is a finished contract's identifier is overwritten
    /// field by field, the rest stay as the caller shaped them, and the
    /// compiler's version is recorded.
    #[verifier::loop_isolation(false)]
    pub fn write_to_combined_json(&self, json: &mut CombinedJson, zk_version: String) -> (r:
        Result<(), Error>)
        ensures
            r is Ok,
            spec_combined_contracts_folded(
                old(json).contracts@,
                final(json).contracts@,
                self.contracts@,
            ),
            final(json).version == old(json).version,
            final(json).zk_version matches Some(v) && v@ == zk_version@,
    {
        let ghost orig = json.contracts@;
        let total: usize = json.contracts.len();
        let mut folded: Vec<(String, CombinedJsonContract)> = Vec::new();
        let mut done: usize = 0;
        proof {
            assert(orig.skip(0int) =~= orig);
        }
        while json.contracts.len() > 0
            invariant
                total == orig.len(),
                json.version == old(json).version,
                0 <= done <= orig.len(),
                json.contracts@ == orig.skip(done as int),
                folded@.len() == done,
                forall|k: int|
                    0 <= k < done ==> {
                        &&& (#[trigger] folded@[k]).0 == orig[k].0
                        &&& match spec_find_build(self.contracts@, orig[k].0@) {
                            Some(b) => spec_combined_folded(orig[k].1, folded@[k].1, b),
                            None => folded@[k].1 == orig[k].1,
                        }
                    },
            decreases json.contracts@.len(),
        {
            proof {
                assert(json.contracts@[0] == orig[done as int]);
                assert(orig.skip(done as int).skip(1) =~= orig.skip(done + 1));
            }
            let kv = json.contracts.remove(0);
            let key = kv.0;
            let mut slot = kv.1;
            match self.find(key.as_str()) {
                Some(b) => {
                    match b.write_to_combined_json(&mut slot) {
                        Ok(()) => {},
                        Err(e) => {
                            proof {
                                assert(false);
                            }
                            return Err(e);
                        },
                    }
                },
                None => {},
            }
            folded.push((key, slot));
            done += 1;
        }
        json.contracts = folded;
        json.zk_version = Some(zk_version);
        proof {
            assert(orig.skip(orig.len() as int) =~= Seq::<(String, CombinedJsonContract)>::empty());
        }
        Ok(())
    }

    /// Folds every contract's build into the standard-JSON output: within
    /// each file's slots, the contract keyed `file:name` receives its
    /// build; the version texts are recorded; everything else is kept.
    #[verifier::loop_isolation(false)]
    pub fn write_to_standard_json(
        &self,
        out: &mut Output,
        version: String,
        zk_version: String,
    ) -> (r: Result<(), Error>)
        ensures
            r is Ok,
            final(out).contracts@.len() == old(out).contracts@.len(),
            forall|f: int|
                0 <= f < old(out).contracts@.len() ==> {
                    &&& (#[trigger] final(out).contracts@[f]).0 == old(out).contracts@[f].0
                    &&& final(out).contracts@[f].1@.len() == old(out).contracts@[f].1@.len()
                    &&& forall|k: int|
                        0 <= k < old(out).contracts@[f].1@.len() ==> {
                            &&& (#[trigger] final(out).contracts@[f].1@[k]).0 == old(
                                out,
                            ).contracts@[f].1@[k].0
                            &&& match spec_find_build(
                                self.contracts@,
                                old(out).contracts@[f].0@ + ":"@ + old(
                                    out,
                                ).contracts@[f].1@[k].0@,
                            ) {
                                Some(b) => spec_standard_folded(
                                    old(out).contracts@[f].1@[k].1,
                                    final(out).contracts@[f].1@[k].1,
                                    b,
                                ),
                                None => final(out).contracts@[f].1@[k].1 == old(
                                    out,
                                ).contracts@[f].1@[k].1,
                            }
                        }
                },
            final(out).errors == old(out).errors,
            final(out).version matches Some(v) && v@ == version@,
            final(out).zk_version matches Some(v) && v@ == zk_version@,
    {
        let ghost orig = out.contracts@;
        let total: usize = out.contracts.len();
        let mut folded_files: Vec<(String, Vec<(String, OutputContract)>)> = Vec::new();
        let mut fdone: usize = 0;
        proof {
            assert(orig.skip(0int) =~= orig);
        }
        while out.contracts.len() > 0
            invariant
                total == orig.len(),
                out.errors == old(out).errors,
                0 <= fdone <= orig.len(),
                out.contracts@ == orig.skip(fdone as int),
                folded_files@.len() == fdone,
                forall|f: int|
                    0 <= f < fdone ==> {
                        &&& (#[trigger] folded_files@[f]).0 == orig[f].0
                        &&& folded_files@[f].1@.len() == orig[f].1@.len()
                        &&& forall|k: int|
                            0 <= k < orig[f].1@.len() ==> {
                                &&& (#[trigger] folded_files@[f].1@[k]).0 == orig[f].1@[k].0
                                &&& match spec_find_build(
                                    self.contracts@,
                                    orig[f].0@ + ":"@ + orig[f].1@[k].0@,
                                ) {
                                    Some(b) => spec_standard_folded(
                                        orig[f].1@[k].1,
                                        folded_files@[f].1@[k].1,
                                        b,
                                    ),
                                    None => folded_files@[f].1@[k].1 == orig[f].1@[k].1,
                                }
                            }
                    },
            decreases out.contracts@.len(),
        {
            proof {
                assert(out.contracts@[0] == orig[fdone as int]);
                assert(orig.skip(fdone as int).skip(1) =~= orig.skip(fdone + 1));
            }
            let fv = out.contracts.remove(0);
            let file = fv.0;
            let mut entries = fv.1;
            let ghost entries0 = entries@;
            let etotal: usize = entries.len();
            let mut folded_entries: Vec<(String, OutputContract)> = Vec::new();
            let mut kdone: usize = 0;
            proof {
                assert(entries0.skip(0int) =~= entries0);
            }
            while entries.len() > 0
                invariant
                    etotal == entries0.len(),
                    0 <= kdone <= entries0.len(),
                    entries@ == entries0.skip(kdone as int),
                    folded_entries@.len() == kdone,
                    forall|k: int|
                        0 <= k < kdone ==> {
                            &&& (#[trigger] folded_entries@[k]).0 == entries0[k].0
                            &&& match spec_find_build(
                                self.contracts@,
                                file@ + ":"@ + entries0[k].0@,
                            ) {
                                Some(b) => spec_standard_folded(
                                    entries0[k].1,
                                    folded_entries@[k].1,
                                    b,
                                ),
                                None => folded_entries@[k].1 == entries0[k].1,
                            }
                        },
                decreases entries@.len(),
            {
                proof {
                    assert(entries@[0] == entries0[kdone as int]);
                    assert(entries0.skip(kdone as int).skip(1) =~= entries0.skip(kdone + 1));
                }
                let kv = entries.remove(0);
                let name = kv.0;
                let mut slot = kv.1;
                let mut key = file.clone();
                key.append(":");
                key.append(name.as_str());
                match self.find(key.as_str()) {
                    Some(b) => {
                        match b.write_to_standard_json(&mut slot) {
                            Ok(()) => {},
                            Err(e) => {
                                proof {
                                    assert(false);
                                }
                                return Err(e);
                            },
                        }
                    },
                    None => {},
                }
                folded_entries.push((name, slot));
                kdone += 1;
            }
            proof {
                assert(entries0.skip(entries0.len() as int) =~= Seq::<(
                    String,
                    OutputContract,
                )>::empty());
            }
            folded_files.push((file, folded_entries));
            fdone += 1;
        }
        proof {
            assert(orig.skip(orig.len() as int) =~= Seq::<(
                String,
                Vec<(String, OutputContract)>,
            )>::empty());
        }
        out.contracts = folded_files;
        out.version = Some(version);
        out.zk_version = Some(zk_version);
        Ok(())
    }
}

/// Whether two optional texts agree character for character, including in
/// their absence.
pub open spec fn spec_opt_text_equal(a: Option<String>, b: Option<String>) -> bool {
    match (a, b) {
        (Some(x), Some(y)) => x@ == y@,
        (None, None) => true,
        _ => false,
    }
}

/// Determinism of the combined fold, slot level: one container slot and
/// one contract build (given byte for byte) admit only one folded result.
/// The premises are exactly what the driver's determinism law yields for
/// two runs on one source, so together they fix every character of the
/// serialized combined output, regardless of completion order.
pub proof fn lemma_combined_fold_deterministic(
    pre: CombinedJsonContract,
    post1: CombinedJsonContract,
    post2: CombinedJsonContract,
    b1: Contract,
    b2: Contract,
)
    requires
        spec_combined_folded(pre, post1, b1),
        spec_combined_folded(pre, post2, b2),
        b1.metadata@ == b2.metadata@,
        b1.build.assembly_text@ == b2.build.assembly_text@,
        b1.build.bytecode@ == b2.build.bytecode@,
        b1.build.factory_dependencies@.len() == b2.build.factory_dependencies@.len(),
        forall|k: int|
            0 <= k < b1.build.factory_dependencies@.len() ==> (
            #[trigger] b1.build.factory_dependencies@[k]).0@
                == b2.build.factory_dependencies@[k].0@ && b1.build.factory_dependencies@[k].1@
                == b2.build.factory_dependencies@[k].1@,
    ensures
        spec_opt_text_equal(post1.metadata, post2.metadata),
        spec_opt_text_equal(post1.assembly, post2.assembly),
        spec_opt_text_equal(post1.bin, post2.bin),
        spec_opt_text_equal(post1.bin_runtime, post2.bin_runtime),
        match (post1.factory_deps, post2.factory_deps) {
            (Some(f1), Some(f2)) => f1@.len() == f2@.len() && (forall|k: int|
                0 <= k < f1@.len() ==> (#[trigger] f1@[k]).0@ == f2@[k].0@ && f1@[k].1@
                    == f2@[k].1@),
            (None, None) => true,
            _ => false,
        },
{
}

/// Determinism of the combined fold, container level: folding two
/// byte-identical builds into one caller-shaped container gives two
/// containers that agree slot for slot and character for character.
pub proof fn lemma_combined_container_deterministic(
    pre: Seq<(String, CombinedJsonContract)>,
    post1: Seq<(String, CombinedJsonContract)>,
    post2: Seq<(String, CombinedJsonContract)>,
    builds1: Seq<(String, Contract)>,
    builds2: Seq<(String, Contract)>,
)
    requires
        spec_combined_contracts_folded(pre, post1, builds1),
        spec_combined_contracts_folded(pre, post2, builds2),
        forall|id: Seq<char>| #[trigger] spec_find_build(builds1, id) == spec_find_build(
            builds2,
            id,
        ),
    ensures
        post1.len() == post2.len(),
        forall|k: int|
            0 <= k < pre.len() ==> {
                &&& (#[trigger] post1[k]).0 == post2[k].0
                &&& spec_opt_text_equal(post1[k].1.metadata, post2[k].1.metadata)
                &&& spec_opt_text_equal(post1[k].1.assembly, post2[k].1.assembly)
                &&& spec_opt_text_equal(post1[k].1.bin, post2[k].1.bin)
                &&& spec_opt_text_equal(post1[k].1.bin_runtime, post2[k].1.bin_runtime)
                &&& match (post1[k].1.factory_deps, post2[k].1.factory_deps) {
                    (Some(f1), Some(f2)) => f1@.len() == f2@.len() && (forall|m: int|
                        0 <= m < f1@.len() ==> (#[trigger] f1@[m]).0@ == f2@[m].0@ && f1@[m].1@
                            == f2@[m].1@),
                    (None, None) => true,
                    _ => false,
                }
            },
{
    assert forall|k: int|
        0 <= k < pre.len() implies {
        &&& (#[trigger] post1[k]).0 == post2[k].0
        &&& spec_opt_text_equal(post1[k].1.metadata, post2[k].1.metadata)
        &&& spec_opt_text_equal(post1[k].1.assembly, post2[k].1.assembly)
        &&& spec_opt_text_equal(post1[k].1.bin, post2[k].1.bin)
        &&& spec_opt_text_equal(post1[k].1.bin_runtime, post2[k].1.bin_runtime)
        &&& match (post1[k].1.factory_deps, post2[k].1.factory_deps) {
            (Some(f1), Some(f2)) => f1@.len() == f2@.len() && (forall|m: int|
                0 <= m < f1@.len() ==> (#[trigger] f1@[m]).0@ == f2@[m].0@ && f1@[m].1@
                    == f2@[m].1@),
            (None, None) => true,
            _ => false,
        }
    } by {
        assert(spec_find_build(builds1, pre[k].0@) == spec_find_build(builds2, pre[k].0@));
        match spec_find_build(builds1, pre[k].0@) {
            Some(b) => {
                lemma_combined_fold_deterministic(pre[k].1, post1[k].1, post2[k].1, b, b);
            },
            None => {},
        }
    }
}

} // verus!
