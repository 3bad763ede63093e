//! The compilation driver: normalizes each contract's IR into a
//! backend-ready module, fans the backend work out over a worker pool,
//! collects the outcomes, resolves factory dependencies across contracts,
//! and assembles the deterministic project-level build artifact.

use vstd::prelude::*;

use rayon::iter::IntoParallelRefIterator;
use rayon::iter::ParallelIterator;

use crate::artifacts;
use crate::artifacts::Build;
use crate::artifacts::MachineBuild;
use crate::error::Error;
use crate::evmla::Block;
use crate::evmla::reconstruct;
use crate::evmla::spec_jumps_resolvable;
use crate::evmla::spec_reconstructed;
use crate::evmla::spec_tags_unique;
use crate::project::Contract;
use crate::project::IR;
use crate::project::Project;
use crate::project::YulObject;
use crate::strutil::str_eq;

verus! {

/// The flattening of a structured-IR object chain: each object's name and
/// raw text, root first.
pub open spec fn spec_yul_flatten(obj: YulObject) -> Seq<(Seq<char>, Seq<char>)>
    decreases obj,
{
    match obj.inner {
        Some(inner) => seq![(obj.identifier@, obj.code@)] + spec_yul_flatten(*inner),
        None => seq![(obj.identifier@, obj.code@)],
    }
}

/// Flattens a structured-IR object chain onto `out`, root first.
fn flatten_yul(obj: &YulObject, out: &mut Vec<(String, String)>)
    ensures
        final(out)@.len() == old(out)@.len() + spec_yul_flatten(*obj).len(),
        forall|i: int| 0 <= i < old(out)@.len() ==> final(out)@[i] == old(out)@[i],
        forall|i: int|
            0 <= i < spec_yul_flatten(*obj).len() ==> ((#[trigger] final(out)@[old(out)@.len()
                + i]).0@, final(out)@[old(out)@.len() + i].1@) == spec_yul_flatten(*obj)[i],
    decreases *obj,
{
    let ghost pre = out@;
    out.push((obj.identifier.clone(), obj.code.clone()));
    let ghost mid = out@;
    match &obj.inner {
        Some(inner) => {
            flatten_yul(inner, out);
        },
        None => {},
    }
    proof {
        assert(mid == pre.push((out@[pre.len() as int].0, out@[pre.len() as int].1)));
        match &obj.inner {
            Some(inner) => {
                assert(spec_yul_flatten(*obj) =~= seq![(obj.identifier@, obj.code@)]
                    + spec_yul_flatten(**inner));
                assert forall|i: int| 0 <= i < spec_yul_flatten(*obj).len() implies ((
                #[trigger] out@[pre.len() + i]).0@, out@[pre.len() + i].1@) == spec_yul_flatten(
                    *obj,
                )[i] by {
                    if i == 0 {
                        assert(out@[pre.len() as int] == mid[pre.len() as int]);
                        assert(spec_yul_flatten(*obj)[0] == (obj.identifier@, obj.code@));
                    } else {
                        assert(spec_yul_flatten(*obj)[i] == spec_yul_flatten(**inner)[i - 1]);
                        assert(pre.len() + i == mid.len() + (i - 1));
                    }
                }
            },
            None => {
                assert(spec_yul_flatten(*obj) =~= seq![(obj.identifier@, obj.code@)]);
                assert(out@[pre.len() as int] == mid[pre.len() as int]);
            },
        }
    }
}

/// The backend-ready form of one contract's IR.
#[derive(Debug, PartialEq, Eq)]
pub enum ModuleContent {
    /// Structured IR: each object's name and raw text, root first; the
    /// names become backend-visible symbols.
    Yul(Vec<(String, String)>),
    /// Reconstructed legacy assembly: the deployment blocks and the
    /// runtime blocks.
    Flow(Vec<Block>, Vec<Block>),
    /// Native IR text, consumed near-verbatim.
    LlvmText(String),
    /// Target assembly text, only assembled.
    ZkasmText(String),
}

/// One backend-ready module, bound to its contract's identifier, with the
/// forward-referenced dependency identifiers its IR declares.
#[derive(Debug, PartialEq, Eq)]
pub struct Module {
    /// The contract identifier the module is bound to.
    pub identifier: String,
    /// The backend-ready content.
    pub content: ModuleContent,
    /// The sub-contract identifiers the IR forward-references; the
    /// backend may discover more during codegen.
    pub factory_refs: Vec<String>,
}

/// Whether a contract's IR normalizes: the legacy assembly must have
/// unique tags and resolvable jumps in both its streams; the other three
/// forms always normalize.
pub open spec fn spec_normalizable(ir: IR) -> bool {
    match ir {
        IR::EVMLA(e) => spec_tags_unique(e.assembly.code@) && spec_jumps_resolvable(
            e.assembly.code@,
        ) && spec_tags_unique(e.assembly.runtime_code@) && spec_jumps_resolvable(
            e.assembly.runtime_code@,
        ),
        _ => true,
    }
}

/// Whether `m` is the normalization of contract `c`.
pub open spec fn spec_module_of(m: Module, c: Contract) -> bool {
    &&& m.identifier@ == c.identifier@
    &&& match c.ir {
        IR::Yul(y) => {
            &&& m.content matches ModuleContent::Yul(objs) && objs@.len() == spec_yul_flatten(
                y.object,
            ).len() && (forall|i: int|
                0 <= i < objs@.len() ==> ((#[trigger] objs@[i]).0@, objs@[i].1@)
                    == spec_yul_flatten(y.object)[i])
            &&& m.factory_refs@.len() == 0
        },
        IR::EVMLA(e) => {
            &&& m.content matches ModuleContent::Flow(d, rt) && spec_reconstructed(
                d@,
                e.assembly.code@,
            ) && spec_reconstructed(rt@, e.assembly.runtime_code@)
            &&& m.factory_refs@.len() == e.assembly.data@.len()
            &&& forall|i: int|
                0 <= i < e.assembly.data@.len() ==> (#[trigger] m.factory_refs@[i])@
                    == e.assembly.data@[i]@
        },
        IR::LLVMIR(l) => {
            &&& m.content matches ModuleContent::LlvmText(t) && t@ == l.source@
            &&& m.factory_refs@.len() == 0
        },
        IR::ZKASM(z) => {
            &&& m.content matches ModuleContent::ZkasmText(t) && t@ == z.source@
            &&& m.factory_refs@.len() == 0
        },
    }
}

/// Copies a list of strings.
fn clone_strings(v: &Vec<String>) -> (r: Vec<String>)
    ensures
        r@.len() == v@.len(),
        forall|i: int| 0 <= i < v@.len() ==> (#[trigger] r@[i])@ == v@[i]@,
{
    let mut r: Vec<String> = Vec::new();
    let mut i: usize = 0;
    while i < v.len()
        invariant
            0 <= i <= v@.len(),
            r@.len() == i,
            forall|k: int| 0 <= k < i ==> (#[trigger] r@[k])@ == v@[k]@,
        decreases v@.len() - i,
    {
        r.push(v[i].clone());
        i += 1;
    }
    r
}

/// Copies a byte string.
fn clone_bytes(v: &Vec<u8>) -> (r: Vec<u8>)
    ensures
        r@ == v@,
{
    let mut r: Vec<u8> = Vec::new();
    let mut i: usize = 0;
    while i < v.len()
        invariant
            0 <= i <= v@.len(),
            r@.len() == i,
            forall|k: int| 0 <= k < i ==> r@[k] == v@[k],
        decreases v@.len() - i,
    {
        r.push(v[i]);
        i += 1;
    }
    proof {
        assert(r@ =~= v@);
    }
    r
}

/// Normalizes one contract's IR into a backend-ready module: a total
/// translation over the four IR forms. Only the legacy assembly can fail,
/// with a fatal translation error.
pub fn normalize_contract(c: &Contract) -> (r: Result<Module, Error>)
    ensures
        r is Ok <==> spec_normalizable(c.ir),
        r matches Ok(m) ==> spec_module_of(m, *c),
        r matches Err(e) ==> e is Translation,
{
    let identifier = c.identifier.clone();
    match &c.ir {
        IR::Yul(y) => {
            let mut objs: Vec<(String, String)> = Vec::new();
            flatten_yul(&y.object, &mut objs);
            proof {
                assert forall|i: int|
                    0 <= i < objs@.len() implies ((#[trigger] objs@[i]).0@, objs@[i].1@)
                    == spec_yul_flatten(y.object)[i] by {
                    assert(objs@[0 + i] == objs@[i]);
                }
            }
            Ok(Module { identifier, content: ModuleContent::Yul(objs), factory_refs: Vec::new() })
        },
        IR::EVMLA(e) => {
            let deploy: Vec<Block> = match reconstruct(&e.assembly.code) {
                Ok(blocks) => blocks,
                Err(err) => {
                    return Err(err);
                },
            };
            let runtime: Vec<Block> = match reconstruct(&e.assembly.runtime_code) {
                Ok(blocks) => blocks,
                Err(err) => {
                    return Err(err);
                },
            };
            Ok(
                Module {
                    identifier,
                    content: ModuleContent::Flow(deploy, runtime),
                    factory_refs: clone_strings(&e.assembly.data),
                },
            )
        },
        IR::LLVMIR(l) => {
            Ok(
                Module {
                    identifier,
                    content: ModuleContent::LlvmText(l.source.clone()),
                    factory_refs: Vec::new(),
                },
            )
        },
        IR::ZKASM(z) => {
            Ok(
                Module {
                    identifier,
                    content: ModuleContent::ZkasmText(z.source.clone()),
                    factory_refs: Vec::new(),
                },
            )
        },
    }
}

/// Relies on rayon's parallel iterator: the map over the contracts runs on
/// a bounded worker pool, each element independently, and `collect`
/// returns the results in input order; each element is the verified
/// normalization of the contract at the same index.
#[verifier::external_body]
fn normalize_contracts_par(contracts: &Vec<Contract>) -> (r: Vec<Result<Module, Error>>)
    ensures
        r@.len() == contracts@.len(),
        forall|i: int|
            0 <= i < contracts@.len() ==> match #[trigger] r@[i] {
                Ok(m) => spec_normalizable(contracts@[i].ir) && spec_module_of(m, contracts@[i]),
                Err(e) => !spec_normalizable(contracts@[i].ir) && e is Translation,
            },
{
    contracts.par_iter().map(|c| normalize_contract(c)).collect()
}

/// Collects the normalization results of a whole project: every module,
/// in order, when each contract translated, else the first translation
/// error. No partial module list is ever handed on: one failed contract
/// aborts the run.
#[verifier::loop_isolation(false)]
pub fn collect_modules(mut results: Vec<Result<Module, Error>>) -> (r: Result<Vec<Module>, Error>)
    ensures
        r is Ok <==> (forall|i: int| 0 <= i < results@.len() ==> (#[trigger] results@[i]) is Ok),
        r matches Ok(modules) ==> {
            &&& modules@.len() == results@.len()
            &&& forall|i: int|
                0 <= i < results@.len() ==> ((#[trigger] results@[i]) matches Ok(m) && modules@[i]
                    == m)
        },
        r matches Err(e) ==> exists|i: int|
            {
                &&& 0 <= i < results@.len()
                &&& (#[trigger] results@[i]) matches Err(e2) && e2 == e
                &&& forall|j: int| 0 <= j < i ==> (#[trigger] results@[j]) is Ok
            },
{
    let ghost results0 = results@;
    let mut modules: Vec<Module> = Vec::new();
    let mut done: usize = 0;
    let total: usize = results.len();
    proof {
        assert(results0.skip(0int) =~= results0);
    }
    while results.len() > 0
        invariant
            total == results0.len(),
            0 <= done <= results0.len(),
            results@ == results0.skip(done as int),
            modules@.len() == done,
            forall|i: int|
                0 <= i < done ==> ((#[trigger] results0[i]) matches Ok(m) && modules@[i] == m),
        decreases results@.len(),
    {
        proof {
            assert(results@[0] == results0[done as int]);
            assert(results0.skip(done as int).skip(1) =~= results0.skip(done + 1));
        }
        match results.remove(0) {
            Ok(module) => {
                modules.push(module);
            },
            Err(e) => {
                return Err(e);
            },
        }
        done += 1;
    }
    proof {
        assert(results0.skip(results0.len() as int) =~= Seq::<Result<Module, Error>>::empty());
    }
    Ok(modules)
}

/// One outcome of the code-generation backend for one module: the machine
/// bytecode, its text assembly, its content hash, the factory dependencies
/// discovered during codegen (as contract identifiers), and the metadata.
#[derive(Debug, PartialEq, Eq)]
pub struct BackendOutput {
    /// The text assembly.
    pub assembly_text: String,
    /// The machine bytecode.
    pub bytecode: Vec<u8>,
    /// The bytecode content hash.
    pub bytecode_hash: String,
    /// The contract identifiers of the factory dependencies.
    pub factory_refs: Vec<String>,
    /// The metadata, serialized.
    pub metadata: String,
}

/// The backend outcome recorded for identifier `id`, if any: the first
/// entry with that key.
pub open spec fn spec_find_output(
    outputs: Seq<(String, Result<BackendOutput, String>)>,
    id: Seq<char>,
) -> Option<Result<BackendOutput, String>>
    decreases outputs.len(),
{
    if outputs.len() == 0 {
        None
    } else if outputs.first().0@ == id {
        Some(outputs.first().1)
    } else {
        spec_find_output(outputs.skip(1), id)
    }
}

/// The contract of `contracts` with identifier `id`, if any: the first
/// match, the only one under the project invariant.
pub open spec fn spec_find_contract(contracts: Seq<Contract>, id: Seq<char>) -> Option<Contract>
    decreases contracts.len(),
{
    if contracts.len() == 0 {
        None
    } else if contracts.first().identifier@ == id {
        Some(contracts.first())
    } else {
        spec_find_contract(contracts.skip(1), id)
    }
}

/// Whether every contract has a successful backend outcome.
pub open spec fn spec_all_outputs_ok(
    contracts: Seq<Contract>,
    outputs: Seq<(String, Result<BackendOutput, String>)>,
) -> bool {
    forall|i: int|
        0 <= i < contracts.len() ==> (spec_find_output(
            outputs,
            (#[trigger] contracts[i]).identifier@,
        ) matches Some(o) && o is Ok)
}

/// Whether every factory reference of every successful outcome names a
/// contract of the project.
pub open spec fn spec_all_refs_known(
    contracts: Seq<Contract>,
    outputs: Seq<(String, Result<BackendOutput, String>)>,
) -> bool {
    forall|i: int|
        0 <= i < contracts.len() ==> match spec_find_output(
            outputs,
            (#[trigger] contracts[i]).identifier@,
        ) {
            Some(o) => match o {
                Ok(bo) => forall|k: int|
                    0 <= k < bo.factory_refs@.len() ==> spec_find_contract(
                        contracts,
                        (#[trigger] bo.factory_refs@[k])@,
                    ) is Some,
                Err(_) => true,
            },
            None => true,
        }
}

/// Whether `deps` resolves `refs`: entry for entry, the referenced
/// contract's content hash paired with its path.
pub open spec fn spec_resolved_deps(
    refs: Seq<String>,
    deps: Seq<(String, String)>,
    contracts: Seq<Contract>,
    outputs: Seq<(String, Result<BackendOutput, String>)>,
) -> bool {
    &&& deps.len() == refs.len()
    &&& forall|k: int|
        0 <= k < refs.len() ==> {
            &&& spec_find_contract(contracts, (#[trigger] refs[k])@) matches Some(dep)
                && deps[k].1@ == dep.path@
            &&& spec_find_output(outputs, refs[k]@) matches Some(o) && o matches Ok(bo)
                && deps[k].0@ == bo.bytecode_hash@
        }
}

/// Whether `entry` is the finished build of contract `c`: identity kept,
/// backend outcome installed, factory references resolved to hashes.
pub open spec fn spec_built_entry(
    entry: (String, artifacts::Contract),
    c: Contract,
    contracts: Seq<Contract>,
    outputs: Seq<(String, Result<BackendOutput, String>)>,
) -> bool {
    match spec_find_output(outputs, c.identifier@) {
        Some(o) => match o {
            Ok(bo) => {
                &&& entry.0@ == c.identifier@
                &&& entry.1.path@ == c.path@
                &&& entry.1.identifier@ == c.identifier@
                &&& entry.1.metadata@ == bo.metadata@
                &&& entry.1.build.assembly_text@ == bo.assembly_text@
                &&& entry.1.build.bytecode@ == bo.bytecode@
                &&& entry.1.build.bytecode_hash@ == bo.bytecode_hash@
                &&& spec_resolved_deps(
                    bo.factory_refs@,
                    entry.1.build.factory_dependencies@,
                    contracts,
                    outputs,
                )
            },
            Err(_) => false,
        },
        None => false,
    }
}

/// Whether the outcome `o` lists `id` among its factory references.
pub open spec fn spec_ref_listed(o: Option<Result<BackendOutput, String>>, id: Seq<char>) -> bool {
    match o {
        Some(res) => match res {
            Ok(bo) => exists|k: int|
                0 <= k < bo.factory_refs@.len() && (#[trigger] bo.factory_refs@[k])@ == id,
            Err(_) => false,
        },
        None => false,
    }
}

/// Whether some contract's outcome lists `id` among its factory
/// references.
pub open spec fn spec_some_ref_to(
    contracts: Seq<Contract>,
    outputs: Seq<(String, Result<BackendOutput, String>)>,
    id: Seq<char>,
) -> bool {
    exists|i: int|
        0 <= i < contracts.len() && spec_ref_listed(
            spec_find_output(outputs, (#[trigger] contracts[i]).identifier@),
            id,
        )
}

/// Whether some contract has no recorded outcome, `m` being its
/// identifier.
pub open spec fn spec_missing_output(
    contracts: Seq<Contract>,
    outputs: Seq<(String, Result<BackendOutput, String>)>,
    m: Seq<char>,
) -> bool {
    exists|i: int|
        0 <= i < contracts.len() && spec_find_output(
            outputs,
            (#[trigger] contracts[i]).identifier@,
        ) is None && m == contracts[i].identifier@
}

/// Whether `o` is a failed outcome whose message is `m`.
pub open spec fn spec_failed_with(o: Option<Result<BackendOutput, String>>, m: Seq<char>) -> bool {
    match o {
        Some(res) => match res {
            Ok(_) => false,
            Err(msg) => msg@ == m,
        },
        None => false,
    }
}

/// Whether some contract's outcome failed with message `m`.
pub open spec fn spec_failed_output(
    contracts: Seq<Contract>,
    outputs: Seq<(String, Result<BackendOutput, String>)>,
    m: Seq<char>,
) -> bool {
    exists|i: int|
        0 <= i < contracts.len() && spec_failed_with(
            spec_find_output(outputs, (#[trigger] contracts[i]).identifier@),
            m,
        )
}

/// Whether `e` is a fault the compile run reports: a contract without a
/// backend outcome, a backend failure, or a factory reference to a
/// contract the project does not hold.
pub open spec fn spec_compile_error(
    e: Error,
    contracts: Seq<Contract>,
    outputs: Seq<(String, Result<BackendOutput, String>)>,
) -> bool {
    match e {
        Error::Backend(m) => spec_missing_output(contracts, outputs, m@) || spec_failed_output(
            contracts,
            outputs,
            m@,
        ),
        Error::UnknownDependency(id) => spec_find_contract(contracts, id@) is None
            && spec_some_ref_to(contracts, outputs, id@),
        _ => false,
    }
}

/// Finds the backend outcome recorded for `id`.
fn find_output<'a>(
    outputs: &'a Vec<(String, Result<BackendOutput, String>)>,
    id: &str,
) -> (r: Option<&'a Result<BackendOutput, String>>)
    ensures
        match r {
            Some(o) => spec_find_output(outputs@, id@) == Some(*o),
            None => spec_find_output(outputs@, id@) is None,
        },
{
    let mut i: usize = 0;
    proof {
        assert(outputs@.skip(0int) =~= outputs@);
    }
    while i < outputs.len()
        invariant
            0 <= i <= outputs@.len(),
            spec_find_output(outputs@, id@) == spec_find_output(outputs@.skip(i as int), id@),
        decreases outputs@.len() - i,
    {
        proof {
            assert(outputs@.skip(i as int).first() == outputs@[i as int]);
            assert(outputs@.skip(i as int).skip(1) =~= outputs@.skip(i + 1));
        }
        if str_eq(outputs[i].0.as_str(), id) {
            return Some(&outputs[i].1);
        }
        i += 1;
    }
    proof {
        assert(outputs@.skip(outputs@.len() as int) =~= Seq::<(
            String,
            Result<BackendOutput, String>,
        )>::empty());
    }
    None
}

/// Finds, among the recorded identifier-and-path pairs, the first whose
/// identifier is `id`.
fn find_pair(pairs: &Vec<(String, String)>, id: &str) -> (r: Option<usize>)
    ensures
        match r {
            Some(i) => 0 <= i < pairs@.len() && pairs@[i as int].0@ == id@ && (forall|j: int|
                0 <= j < i ==> (#[trigger] pairs@[j]).0@ != id@),
            None => forall|j: int| 0 <= j < pairs@.len() ==> (#[trigger] pairs@[j]).0@ != id@,
        },
{
    let mut i: usize = 0;
    while i < pairs.len()
        invariant
            0 <= i <= pairs@.len(),
            forall|j: int| 0 <= j < i ==> (#[trigger] pairs@[j]).0@ != id@,
        decreases pairs@.len() - i,
    {
        if str_eq(pairs[i].0.as_str(), id) {
            return Some(i);
        }
        i += 1;
    }
    None
}

/// The first contract whose identifier is `id` is what
/// `spec_find_contract` returns.
proof fn lemma_find_contract_at(contracts: Seq<Contract>, id: Seq<char>, i: int)
    requires
        0 <= i < contracts.len(),
        contracts[i].identifier@ == id,
        forall|j: int| 0 <= j < i ==> (#[trigger] contracts[j]).identifier@ != id,
    ensures
        spec_find_contract(contracts, id) == Some(contracts[i]),
    decreases contracts.len(),
{
    if i == 0 {
    } else {
        assert(contracts[0].identifier@ != id);
        assert(forall|j: int|
            0 <= j < i - 1 ==> contracts.skip(1)[j] == #[trigger] contracts[j + 1]);
        lemma_find_contract_at(contracts.skip(1), id, i - 1);
    }
}

/// A contract list in which no identifier is `id` has no contract for it.
proof fn lemma_find_contract_none(contracts: Seq<Contract>, id: Seq<char>)
    requires
        forall|j: int| 0 <= j < contracts.len() ==> (#[trigger] contracts[j]).identifier@ != id,
    ensures
        spec_find_contract(contracts, id) is None,
    decreases contracts.len(),
{
    if contracts.len() > 0 {
        assert(contracts[0].identifier@ != id);
        assert(forall|j: int|
            0 <= j < contracts.len() - 1 ==> contracts.skip(1)[j] == #[trigger] contracts[j + 1]);
        lemma_find_contract_none(contracts.skip(1), id);
    }
}

/// Builds one contract's finished artifact from its backend outcome and
/// its resolved dependencies.
fn make_contract_build(
    c_path: &String,
    c_id: &String,
    bo: &BackendOutput,
    deps: &Vec<(String, String)>,
) -> (r: artifacts::Contract)
    ensures
        r.path@ == c_path@,
        r.identifier@ == c_id@,
        r.metadata@ == bo.metadata@,
        r.build.assembly_text@ == bo.assembly_text@,
        r.build.bytecode@ == bo.bytecode@,
        r.build.bytecode_hash@ == bo.bytecode_hash@,
        r.build.factory_dependencies@ == deps@,
{
    artifacts::Contract::new(
        c_path.clone(),
        c_id.clone(),
        MachineBuild {
            assembly_text: bo.assembly_text.clone(),
            bytecode: clone_bytes(&bo.bytecode),
            bytecode_hash: bo.bytecode_hash.clone(),
            factory_dependencies: crate::artifacts::clone_pairs(deps),
        },
        bo.metadata.clone(),
    )
}

impl Project {
    /// Normalizes every contract of the project: the independent units of
    /// work are fanned out over a worker pool and the results come back in
    /// the project's stable order.
    pub fn normalize_all(&self) -> (r: Vec<Result<Module, Error>>)
        ensures
            r@.len() == self.contracts@.len(),
            forall|i: int|
                0 <= i < self.contracts@.len() ==> match #[trigger] r@[i] {
                    Ok(m) => spec_normalizable(self.contracts@[i].ir) && spec_module_of(
                        m,
                        self.contracts@[i],
                    ),
                    Err(e) => !spec_normalizable(self.contracts@[i].ir) && e is Translation,
                },
    {
        normalize_contracts_par(&self.contracts)
    }

    /// Compiles the whole project from the backend outcomes, consuming it.
    /// Every contract is advanced `Unbuilt` to `InProgress` to `Built`
    /// exactly once; then, in a second pass over finished hashes, each
    /// factory reference is resolved to the referenced contract's content
    /// hash, which lets a contract reference itself or any other contract
    /// regardless of completion order. Any missing or failed outcome, or a
    /// reference to an identifier outside the project, aborts the run with
    /// no artifact at all.
    pub fn compile_all(self, outputs: &Vec<(String, Result<BackendOutput, String>)>) -> (r: Result<
        Build,
        Error,
    >)
        requires
            self.wf(),
            forall|i: int|
                0 <= i < self.contracts@.len() ==> (#[trigger] self.contracts@[i]).state
                    is Unbuilt,
        ensures
            r is Ok <==> spec_all_outputs_ok(self.contracts@, outputs@) && spec_all_refs_known(
                self.contracts@,
                outputs@,
            ),
            r matches Ok(build) ==> {
                &&& build.contracts@.len() == self.contracts@.len()
                &&& forall|i: int|
                    0 <= i < self.contracts@.len() ==> spec_built_entry(
                        #[trigger] build.contracts@[i],
                        self.contracts@[i],
                        self.contracts@,
                        outputs@,
                    )
            },
            r matches Err(e) ==> spec_compile_error(e, self.contracts@, outputs@),
    {
        compile_contracts(self.contracts, outputs)
    }
}

/// Compiles a contract list from the backend outcomes: the working core of
/// the driver's collection stage.
#[verifier::loop_isolation(false)]
pub fn compile_contracts(
    mut contracts: Vec<Contract>,
    outputs: &Vec<(String, Result<BackendOutput, String>)>,
) -> (r: Result<Build, Error>)
    requires
        forall|i: int|
            0 <= i < contracts@.len() ==> (#[trigger] contracts@[i]).state is Unbuilt,
    ensures
        r is Ok <==> spec_all_outputs_ok(contracts@, outputs@) && spec_all_refs_known(
            contracts@,
            outputs@,
        ),
        r matches Ok(build) ==> {
            &&& build.contracts@.len() == contracts@.len()
            &&& forall|i: int|
                0 <= i < contracts@.len() ==> spec_built_entry(
                    #[trigger] build.contracts@[i],
                    contracts@[i],
                    contracts@,
                    outputs@,
                )
        },
        r matches Err(e) ==> spec_compile_error(e, contracts@, outputs@),
{
    {
        let ghost contracts0 = contracts@;
        let ghost n = contracts0.len();
        let mut id_paths: Vec<(String, String)> = Vec::new();
        let mut i: usize = 0;
        while i < contracts.len()
            invariant
                0 <= i <= n,
                n == contracts0.len(),
                contracts@ == contracts0,
                id_paths@.len() == i,
                forall|k: int|
                    0 <= k < i ==> (#[trigger] id_paths@[k]).0@ == contracts0[k].identifier@
                        && id_paths@[k].1@ == contracts0[k].path@,
            decreases n - i,
        {
            id_paths.push((contracts[i].identifier.clone(), contracts[i].path.clone()));
            i += 1;
        }
        let mut j: usize = 0;
        while j < contracts.len()
            invariant
                0 <= j <= n,
                n == contracts0.len(),
                contracts@ == contracts0,
                forall|k: int|
                    0 <= k < j ==> (spec_find_output(
                        outputs@,
                        (#[trigger] contracts0[k]).identifier@,
                    ) matches Some(o) && o is Ok),
            decreases n - j,
        {
            match find_output(outputs, contracts[j].identifier.as_str()) {
                Some(res) => match res {
                    Ok(_) => {},
                    Err(msg) => {
                        proof {
                            assert(spec_failed_with(
                                spec_find_output(outputs@, contracts0[j as int].identifier@),
                                msg@,
                            ));
                            assert(spec_failed_output(contracts0, outputs@, msg@));
                        }
                        return Err(Error::Backend(msg.clone()));
                    },
                },
                None => {
                    proof {
                        assert(spec_find_output(outputs@, contracts0[j as int].identifier@)
                            is None);
                        assert(spec_missing_output(
                            contracts0,
                            outputs@,
                            contracts0[j as int].identifier@,
                        ));
                    }
                    return Err(Error::Backend(contracts[j].identifier.clone()));
                },
            }
            j += 1;
        }
        proof {
            assert(spec_all_outputs_ok(contracts0, outputs@));
        }
        let total: usize = id_paths.len();
        let mut result: Vec<(String, artifacts::Contract)> = Vec::new();
        let mut done: usize = 0;
        while contracts.len() > 0
            invariant
                0 <= done <= n,
                n == contracts0.len(),
                total == n,
                contracts@ == contracts0.skip(done as int),
                id_paths@.len() == n,
                forall|k: int|
                    0 <= k < n ==> (#[trigger] id_paths@[k]).0@ == contracts0[k].identifier@
                        && id_paths@[k].1@ == contracts0[k].path@,
                spec_all_outputs_ok(contracts0, outputs@),
                forall|k: int| 0 <= k < n ==> (#[trigger] contracts0[k]).state is Unbuilt,
                result@.len() == done,
                forall|k: int|
                    0 <= k < done ==> spec_built_entry(
                        #[trigger] result@[k],
                        contracts0[k],
                        contracts0,
                        outputs@,
                    ),
            decreases contracts@.len(),
        {
            let ghost ci = done as int;
            proof {
                assert(contracts@[0] == contracts0[ci]);
                assert(contracts0.skip(ci).skip(1) =~= contracts0.skip(ci + 1));
            }
            let mut c: Contract = contracts.remove(0);
            proof {
                assert(c == contracts0[ci]);
                assert(contracts@ =~= contracts0.skip(ci + 1));
            }
            c.start();
            let bo: &BackendOutput = match find_output(outputs, c.identifier.as_str()) {
                Some(res) => match res {
                    Ok(bo) => bo,
                    Err(_) => {
                        proof {
                            assert(false);
                        }
                        return Err(Error::Backend(String::new()));
                    },
                },
                None => {
                    proof {
                        assert(false);
                    }
                    return Err(Error::Backend(String::new()));
                },
            };
            let mut deps: Vec<(String, String)> = Vec::new();
            let mut k: usize = 0;
            while k < bo.factory_refs.len()
                invariant
                    0 <= k <= bo.factory_refs@.len(),
                    n == contracts0.len(),
                    0 <= ci < n,
                    id_paths@.len() == n,
                    forall|m: int|
                        0 <= m < n ==> (#[trigger] id_paths@[m]).0@ == contracts0[m].identifier@
                            && id_paths@[m].1@ == contracts0[m].path@,
                    spec_all_outputs_ok(contracts0, outputs@),
                    spec_find_output(outputs@, contracts0[ci].identifier@) matches Some(o) && o
                        matches Ok(b0) && b0 == *bo,
                    deps@.len() == k,
                    forall|m: int|
                        0 <= m < k ==> {
                            &&& spec_find_contract(
                                contracts0,
                                (#[trigger] bo.factory_refs@[m])@,
                            ) matches Some(dep) && deps@[m].1@ == dep.path@
                            &&& spec_find_output(outputs@, bo.factory_refs@[m]@) matches Some(o2)
                                && o2 matches Ok(b2) && deps@[m].0@ == b2.bytecode_hash@
                        },
                decreases bo.factory_refs@.len() - k,
            {
                let rid: &String = &bo.factory_refs[k];
                match find_pair(&id_paths, rid.as_str()) {
                    Some(p) => {
                        proof {
                            assert(contracts0[p as int].identifier@ == rid@);
                            assert forall|q: int|
                                0 <= q < p implies (#[trigger] contracts0[q]).identifier@
                                != rid@ by {
                                assert(id_paths@[q].0@ == contracts0[q].identifier@);
                            }
                            lemma_find_contract_at(contracts0, rid@, p as int);
                        }
                        let dep_path: String = id_paths[p].1.clone();
                        let hash: String = match find_output(outputs, rid.as_str()) {
                            Some(res) => match res {
                                Ok(dep_bo) => dep_bo.bytecode_hash.clone(),
                                Err(_) => {
                                    proof {
                                        assert(false);
                                    }
                                    String::new()
                                },
                            },
                            None => {
                                proof {
                                    assert(false);
                                }
                                String::new()
                            },
                        };
                        deps.push((hash, dep_path));
                    },
                    None => {
                        proof {
                            assert forall|q: int|
                                0 <= q < n implies (#[trigger] contracts0[q]).identifier@
                                != rid@ by {
                                assert(id_paths@[q].0@ == contracts0[q].identifier@);
                            }
                            lemma_find_contract_none(contracts0, rid@);
                            assert(spec_find_output(outputs@, contracts0[ci].identifier@)
                                matches Some(o) && o matches Ok(b0) && b0 == *bo);
                            assert((#[trigger] bo.factory_refs@[k as int])@ == rid@);
                            assert(spec_ref_listed(
                                spec_find_output(outputs@, contracts0[ci].identifier@),
                                rid@,
                            ));
                            assert(spec_some_ref_to(contracts0, outputs@, rid@));
                            assert(!spec_all_refs_known(contracts0, outputs@)) by {
                                if spec_all_refs_known(contracts0, outputs@) {
                                    assert(0 <= ci < contracts0.len());
                                    assert(spec_find_contract(
                                        contracts0,
                                        bo.factory_refs@[k as int]@,
                                    ) is Some);
                                }
                            }
                        }
                        return Err(Error::UnknownDependency(rid.clone()));
                    },
                }
                k += 1;
            }
            // Built twice rather than cloned: a derived clone carries no
            // specification, so only a second construction keeps the
            // artifact's contents provable.
            let build_for_state = make_contract_build(&c.path, &c.identifier, bo, &deps);
            c.finish(build_for_state);
            let entry_build = make_contract_build(&c.path, &c.identifier, bo, &deps);
            result.push((c.identifier.clone(), entry_build));
            proof {
                assert(spec_built_entry(result@[ci], contracts0[ci], contracts0, outputs@));
            }
            done += 1;
        }
        proof {
            assert(done == n);
            assert forall|i2: int| 0 <= i2 < n implies match spec_find_output(
                outputs@,
                (#[trigger] contracts0[i2]).identifier@,
            ) {
                Some(o) => match o {
                    Ok(bo) => forall|k2: int|
                        0 <= k2 < bo.factory_refs@.len() ==> spec_find_contract(
                            contracts0,
                            (#[trigger] bo.factory_refs@[k2])@,
                        ) is Some,
                    Err(_) => true,
                },
                None => true,
            } by {
                assert(spec_built_entry(result@[i2], contracts0[i2], contracts0, outputs@));
            }
            assert(spec_all_refs_known(contracts0, outputs@));
        }
        Ok(Build::new(result))
    }
}

/// Whether the two string-view fields and every byte of two build entries
/// agree: the artifacts are indistinguishable output for output.
pub open spec fn spec_entry_views_equal(
    a: (String, artifacts::Contract),
    b: (String, artifacts::Contract),
) -> bool {
    &&& a.0@ == b.0@
    &&& a.1.path@ == b.1.path@
    &&& a.1.identifier@ == b.1.identifier@
    &&& a.1.metadata@ == b.1.metadata@
    &&& a.1.build.assembly_text@ == b.1.build.assembly_text@
    &&& a.1.build.bytecode@ == b.1.build.bytecode@
    &&& a.1.build.bytecode_hash@ == b.1.build.bytecode_hash@
    &&& a.1.build.factory_dependencies@.len() == b.1.build.factory_dependencies@.len()
    &&& forall|k: int|
        0 <= k < a.1.build.factory_dependencies@.len() ==> (
        #[trigger] a.1.build.factory_dependencies@[k]).0@ == b.1.build.factory_dependencies@[k].0@
            && a.1.build.factory_dependencies@[k].1@ == b.1.build.factory_dependencies@[k].1@
}

/// Determinism: for one contract list and one set of backend outcomes, any
/// two artifacts the driver accepts are byte-identical, entry for entry:
/// the build is a function of source and settings alone.
pub proof fn lemma_determinism(
    b1: Build,
    b2: Build,
    contracts: Seq<Contract>,
    outputs: Seq<(String, Result<BackendOutput, String>)>,
)
    requires
        b1.contracts@.len() == contracts.len(),
        b2.contracts@.len() == contracts.len(),
        forall|i: int|
            0 <= i < contracts.len() ==> spec_built_entry(
                #[trigger] b1.contracts@[i],
                contracts[i],
                contracts,
                outputs,
            ),
        forall|i: int|
            0 <= i < contracts.len() ==> spec_built_entry(
                #[trigger] b2.contracts@[i],
                contracts[i],
                contracts,
                outputs,
            ),
    ensures
        forall|i: int|
            0 <= i < contracts.len() ==> spec_entry_views_equal(
                #[trigger] b1.contracts@[i],
                b2.contracts@[i],
            ),
{
    assert forall|i: int|
        0 <= i < contracts.len() implies spec_entry_views_equal(
        #[trigger] b1.contracts@[i],
        b2.contracts@[i],
    ) by {
        assert(spec_built_entry(b1.contracts@[i], contracts[i], contracts, outputs));
        assert(spec_built_entry(b2.contracts@[i], contracts[i], contracts, outputs));
        let e1 = b1.contracts@[i];
        let e2 = b2.contracts@[i];
        let o0 = spec_find_output(outputs, contracts[i].identifier@);
        match o0 {
            Some(r0) => {
                match r0 {
                    Ok(bo0) => {
                        assert(spec_resolved_deps(
                            bo0.factory_refs@,
                            e1.1.build.factory_dependencies@,
                            contracts,
                            outputs,
                        ));
                        assert(spec_resolved_deps(
                            bo0.factory_refs@,
                            e2.1.build.factory_dependencies@,
                            contracts,
                            outputs,
                        ));
                        assert forall|k: int|
                            0 <= k < e1.1.build.factory_dependencies@.len() implies (
                        #[trigger] e1.1.build.factory_dependencies@[k]).0@
                            == e2.1.build.factory_dependencies@[k].0@
                            && e1.1.build.factory_dependencies@[k].1@
                            == e2.1.build.factory_dependencies@[k].1@ by {
                            assert(0 <= k < bo0.factory_refs@.len());
                            assert(spec_find_contract(contracts, bo0.factory_refs@[k]@)
                                matches Some(dep) && e1.1.build.factory_dependencies@[k].1@
                                == dep.path@ && e2.1.build.factory_dependencies@[k].1@
                                == dep.path@);
                            assert(spec_find_output(outputs, bo0.factory_refs@[k]@)
                                matches Some(o2) && o2 matches Ok(b2)
                                && e1.1.build.factory_dependencies@[k].0@ == b2.bytecode_hash@
                                && e2.1.build.factory_dependencies@[k].0@ == b2.bytecode_hash@);
                        }
                    },
                    Err(_) => {
                        assert(false);
                    },
                }
            },
            None => {
                assert(false);
            },
        }
    }
}

/// Whether no two recorded backend outcomes share a contract identifier.
pub open spec fn spec_output_keys_unique(
    outputs: Seq<(String, Result<BackendOutput, String>)>,
) -> bool {
    forall|i: int, j: int|
        0 <= i < j < outputs.len() ==> (#[trigger] outputs[i]).0@ != (#[trigger] outputs[j]).0@
}

/// The recorded outcome is the entry of the first matching key; with no
/// matching key there is none.
proof fn lemma_find_output_props(
    outputs: Seq<(String, Result<BackendOutput, String>)>,
    id: Seq<char>,
)
    ensures
        match spec_find_output(outputs, id) {
            Some(res) => exists|i: int|
                0 <= i < outputs.len() && (#[trigger] outputs[i]).0@ == id && outputs[i].1 == res,
            None => forall|i: int| 0 <= i < outputs.len() ==> (#[trigger] outputs[i]).0@ != id,
        },
    decreases outputs.len(),
{
    if outputs.len() == 0 {
    } else if outputs.first().0@ == id {
        assert(outputs[0].0@ == id && outputs[0].1 == outputs.first().1);
    } else {
        lemma_find_output_props(outputs.skip(1), id);
        assert(forall|j: int|
            0 <= j < outputs.len() - 1 ==> outputs.skip(1)[j] == #[trigger] outputs[j + 1]);
        match spec_find_output(outputs.skip(1), id) {
            Some(res) => {
                let i = choose|i: int|
                    0 <= i < outputs.skip(1).len() && (#[trigger] outputs.skip(1)[i]).0@ == id
                        && outputs.skip(1)[i].1 == res;
                assert(outputs.skip(1)[i] == outputs[i + 1]);
                assert(0 <= i + 1 < outputs.len() && (#[trigger] outputs[i + 1]).0@ == id
                    && outputs[i + 1].1 == res);
            },
            None => {
                assert forall|i2: int|
                    0 <= i2 < outputs.len() implies (#[trigger] outputs[i2]).0@ != id by {
                    if i2 > 0 {
                        assert(outputs[i2] == outputs.skip(1)[i2 - 1]);
                    }
                }
            },
        }
    }
}

/// An entry whose key matches is what `spec_find_output` returns, under
/// unique keys.
proof fn lemma_find_output_matches(
    outputs: Seq<(String, Result<BackendOutput, String>)>,
    id: Seq<char>,
    i: int,
)
    requires
        spec_output_keys_unique(outputs),
        0 <= i < outputs.len(),
        outputs[i].0@ == id,
    ensures
        spec_find_output(outputs, id) == Some(outputs[i].1),
    decreases outputs.len(),
{
    lemma_find_output_props(outputs, id);
    match spec_find_output(outputs, id) {
        Some(res) => {
            let j = choose|j: int|
                0 <= j < outputs.len() && (#[trigger] outputs[j]).0@ == id && outputs[j].1 == res;
            if i < j {
                assert(outputs[i].0@ != outputs[j].0@);
            } else if j < i {
                assert(outputs[j].0@ != outputs[i].0@);
            }
        },
        None => {
            assert(outputs[i].0@ != id);
        },
    }
}

/// Order independence of the recorded outcomes: two lists of outcomes
/// holding the same entries, each keyed once, record the same outcome for
/// every identifier.
pub proof fn lemma_find_output_order_independent(
    o1: Seq<(String, Result<BackendOutput, String>)>,
    o2: Seq<(String, Result<BackendOutput, String>)>,
    id: Seq<char>,
)
    requires
        spec_output_keys_unique(o1),
        spec_output_keys_unique(o2),
        o1.to_multiset() == o2.to_multiset(),
    ensures
        spec_find_output(o1, id) == spec_find_output(o2, id),
{
    broadcast use vstd::seq_lib::group_to_multiset_ensures;

    lemma_find_output_props(o1, id);
    lemma_find_output_props(o2, id);
    match spec_find_output(o1, id) {
        Some(res) => {
            let i = choose|i: int|
                0 <= i < o1.len() && (#[trigger] o1[i]).0@ == id && o1[i].1 == res;
            let e = o1[i];
            assert(o1.contains(e));
            assert(o1.to_multiset().count(e) > 0);
            assert(o2.to_multiset().count(e) > 0);
            assert(o2.contains(e));
            let j = choose|j: int| 0 <= j < o2.len() && o2[j] == e;
            lemma_find_output_matches(o2, id, j);
        },
        None => {
            match spec_find_output(o2, id) {
                Some(res2) => {
                    let j = choose|j: int|
                        0 <= j < o2.len() && (#[trigger] o2[j]).0@ == id && o2[j].1 == res2;
                    let e = o2[j];
                    assert(o2.contains(e));
                    assert(o2.to_multiset().count(e) > 0);
                    assert(o1.to_multiset().count(e) > 0);
                    assert(o1.contains(e));
                    let i = choose|i: int| 0 <= i < o1.len() && o1[i] == e;
                    assert(o1[i].0@ != id);
                },
                None => {},
            }
        },
    }
}

/// Order independence of the parallel phase: shuffling the backend
/// outcomes changes neither which runs are accepted nor one byte of an
/// accepted artifact, whose entries are fixed by identifier, never by
/// completion order.
pub proof fn lemma_shuffle_outputs(
    contracts: Seq<Contract>,
    o1: Seq<(String, Result<BackendOutput, String>)>,
    o2: Seq<(String, Result<BackendOutput, String>)>,
    entry: (String, artifacts::Contract),
    c: Contract,
)
    requires
        spec_output_keys_unique(o1),
        spec_output_keys_unique(o2),
        o1.to_multiset() == o2.to_multiset(),
    ensures
        spec_all_outputs_ok(contracts, o1) == spec_all_outputs_ok(contracts, o2),
        spec_all_refs_known(contracts, o1) == spec_all_refs_known(contracts, o2),
        spec_built_entry(entry, c, contracts, o1) == spec_built_entry(entry, c, contracts, o2),
{
    assert forall|id: Seq<char>| #[trigger] spec_find_output(o1, id) == spec_find_output(
        o2,
        id,
    ) by {
        lemma_find_output_order_independent(o1, o2, id);
    }
    assert(spec_all_outputs_ok(contracts, o1) == spec_all_outputs_ok(contracts, o2)) by {
        assert forall|i: int| 0 <= i < contracts.len() implies spec_find_output(
            o1,
            (#[trigger] contracts[i]).identifier@,
        ) == spec_find_output(o2, contracts[i].identifier@) by {
            lemma_find_output_order_independent(o1, o2, contracts[i].identifier@);
        }
    }
    assert(spec_all_refs_known(contracts, o1) ==> spec_all_refs_known(contracts, o2)) by {
        if spec_all_refs_known(contracts, o1) {
            assert forall|i: int| 0 <= i < contracts.len() implies match spec_find_output(
                o2,
                (#[trigger] contracts[i]).identifier@,
            ) {
                Some(o) => match o {
                    Ok(bo) => forall|k: int|
                        0 <= k < bo.factory_refs@.len() ==> spec_find_contract(
                            contracts,
                            (#[trigger] bo.factory_refs@[k])@,
                        ) is Some,
                    Err(_) => true,
                },
                None => true,
            } by {
                lemma_find_output_order_independent(o1, o2, contracts[i].identifier@);
            }
        }
    }
    assert(spec_all_refs_known(contracts, o2) ==> spec_all_refs_known(contracts, o1)) by {
        if spec_all_refs_known(contracts, o2) {
            assert forall|i: int| 0 <= i < contracts.len() implies match spec_find_output(
                o1,
                (#[trigger] contracts[i]).identifier@,
            ) {
                Some(o) => match o {
                    Ok(bo) => forall|k: int|
                        0 <= k < bo.factory_refs@.len() ==> spec_find_contract(
                            contracts,
                            (#[trigger] bo.factory_refs@[k])@,
                        ) is Some,
                    Err(_) => true,
                },
                None => true,
            } by {
                lemma_find_output_order_independent(o1, o2, contracts[i].identifier@);
            }
        }
    }
    assert(spec_built_entry(entry, c, contracts, o1) ==> spec_built_entry(
        entry,
        c,
        contracts,
        o2,
    )) by {
        if spec_built_entry(entry, c, contracts, o1) {
            lemma_find_output_order_independent(o1, o2, c.identifier@);
            let bo = spec_find_output(o1, c.identifier@).unwrap().unwrap();
            assert forall|k: int| 0 <= k < bo.factory_refs@.len() implies (spec_find_output(
                o2,
                (#[trigger] bo.factory_refs@[k])@,
            ) matches Some(o) && o matches Ok(b2)
                && entry.1.build.factory_dependencies@[k].0@ == b2.bytecode_hash@) by {
                lemma_find_output_order_independent(o1, o2, bo.factory_refs@[k]@);
            }
        }
    }
    assert(spec_built_entry(entry, c, contracts, o2) ==> spec_built_entry(
        entry,
        c,
        contracts,
        o1,
    )) by {
        if spec_built_entry(entry, c, contracts, o2) {
            lemma_find_output_order_independent(o1, o2, c.identifier@);
            let bo = spec_find_output(o2, c.identifier@).unwrap().unwrap();
            assert forall|k: int| 0 <= k < bo.factory_refs@.len() implies (spec_find_output(
                o1,
                (#[trigger] bo.factory_refs@[k])@,
            ) matches Some(o) && o matches Ok(b2)
                && entry.1.build.factory_dependencies@[k].0@ == b2.bytecode_hash@) by {
                lemma_find_output_order_independent(o1, o2, bo.factory_refs@[k]@);
            }
        }
    }
}

/// Self-referential factory dependency: a contract listing itself among
/// its factory references compiles, and its own content hash stands in its
/// own dependency set, with no further build needed.
pub proof fn lemma_self_reference(
    entry: (String, artifacts::Contract),
    c: Contract,
    contracts: Seq<Contract>,
    outputs: Seq<(String, Result<BackendOutput, String>)>,
    i: int,
    k: int,
)
    requires
        spec_built_entry(entry, c, contracts, outputs),
        0 <= i < contracts.len(),
        contracts[i] == c,
        spec_find_contract(contracts, c.identifier@) == Some(c),
        ({
            let bo = spec_find_output(outputs, c.identifier@).unwrap().unwrap();
            0 <= k < bo.factory_refs@.len() && bo.factory_refs@[k]@ == c.identifier@
        }),
    ensures
        entry.1.build.factory_dependencies@[k].0@ == entry.1.build.bytecode_hash@,
        entry.1.build.factory_dependencies@[k].1@ == c.path@,
{
    let bo = spec_find_output(outputs, c.identifier@).unwrap().unwrap();
    assert(bo.factory_refs@[k]@ == c.identifier@);
}

} // verus!
