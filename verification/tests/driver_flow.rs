use zksolc::driver::BackendOutput;
use zksolc::driver::Module;
use zksolc::driver::ModuleContent;
use zksolc::driver::compile_contracts;
use zksolc::driver::normalize_contract;
use zksolc::error::Error;
use zksolc::error::InputError;
use zksolc::error::TranslationError;
use zksolc::evmla::Assembly;
use zksolc::evmla::FlowInstruction;
use zksolc::evmla::Instruction;
use zksolc::evmla::reconstruct;
use zksolc::project::Contract;
use zksolc::project::IR;
use zksolc::project::LLVMIR;
use zksolc::project::Project;
use zksolc::project::State;
use zksolc::project::YulObject;
use zksolc::project::select_single_input;
use zksolc::zkasm::ZKASM;

fn zkasm_contract(id: &str) -> Contract {
    Contract::new(
        id.to_string(),
        id.to_string(),
        IR::ZKASM(ZKASM::new(id.to_string(), format!("text of {}", id))),
    )
}

fn output_for(id: &str, hash: &str, refs: Vec<String>) -> (String, Result<BackendOutput, String>) {
    (
        id.to_string(),
        Ok(BackendOutput {
            assembly_text: format!("asmtext {}", id),
            bytecode: vec![0x01, 0xff],
            bytecode_hash: hash.to_string(),
            factory_refs: refs,
            metadata: format!("meta {}", id),
        }),
    )
}

#[test]
fn reconstruct_splits_blocks_and_resolves_jumps() {
    let code = vec![
        Instruction::Push("0".to_string()),
        Instruction::Jump(7),
        Instruction::Tag(5),
        Instruction::Other("STOP".to_string()),
        Instruction::Tag(7),
        Instruction::JumpI(5),
    ];
    let blocks = reconstruct(&code).unwrap();
    assert_eq!(blocks.len(), 3);
    assert_eq!(blocks[0].tag, None);
    assert_eq!(blocks[1].tag, Some(5));
    assert_eq!(blocks[2].tag, Some(7));
    assert_eq!(
        blocks[0].code,
        vec![FlowInstruction::Push("0".to_string()), FlowInstruction::Jump(2)]
    );
    assert_eq!(blocks[1].code, vec![FlowInstruction::Other("STOP".to_string())]);
    assert_eq!(blocks[2].code, vec![FlowInstruction::JumpI(1)]);
}

#[test]
fn reconstruct_rejects_unresolved_jump() {
    let code = vec![Instruction::Tag(1), Instruction::Jump(9)];
    let err = reconstruct(&code).unwrap_err();
    assert_eq!(err, Error::Translation(TranslationError::UnresolvedJumpTarget(9)));
}

#[test]
fn reconstruct_rejects_duplicate_tag() {
    let code = vec![Instruction::Tag(3), Instruction::Tag(3)];
    let err = reconstruct(&code).unwrap_err();
    assert_eq!(err, Error::Translation(TranslationError::DuplicateTag(3)));
}

#[test]
fn normalize_each_ir_form() {
    let yul = Contract::new(
        "a.yul".to_string(),
        "a.yul".to_string(),
        IR::Yul(zksolc::project::Yul {
            path: "a.yul".to_string(),
            object: YulObject {
                identifier: "A".to_string(),
                code: "{}".to_string(),
                inner: Some(Box::new(YulObject {
                    identifier: "A_deployed".to_string(),
                    code: "{ }".to_string(),
                    inner: None,
                })),
            },
        }),
    );
    let m: Module = normalize_contract(&yul).unwrap();
    assert_eq!(m.identifier, "a.yul");
    match m.content {
        ModuleContent::Yul(objs) => {
            assert_eq!(objs.len(), 2);
            assert_eq!(objs[0].0, "A");
            assert_eq!(objs[1].0, "A_deployed");
        },
        _ => panic!("expected structured IR content"),
    }

    let evmla = Contract::new(
        "b.sol".to_string(),
        "b.sol".to_string(),
        IR::EVMLA(zksolc::project::EVMLA {
            path: "b.sol".to_string(),
            assembly: Assembly {
                code: vec![Instruction::Push("0".to_string())],
                runtime_code: vec![Instruction::Other("STOP".to_string())],
                data: vec!["child.sol".to_string()],
            },
        }),
    );
    let m2 = normalize_contract(&evmla).unwrap();
    assert_eq!(m2.factory_refs, vec!["child.sol".to_string()]);
    assert!(matches!(m2.content, ModuleContent::Flow(_, _)));

    let llvm = Contract::new(
        "c.ll".to_string(),
        "c.ll".to_string(),
        IR::LLVMIR(LLVMIR { path: "c.ll".to_string(), source: "define void @f()".to_string() }),
    );
    let m3 = normalize_contract(&llvm).unwrap();
    assert!(matches!(m3.content, ModuleContent::LlvmText(t) if t == "define void @f()"));

    let zk = zkasm_contract("d.zasm");
    let m4 = normalize_contract(&zk).unwrap();
    assert!(matches!(m4.content, ModuleContent::ZkasmText(t) if t == "text of d.zasm"));
}

#[test]
fn normalize_fails_on_malformed_control_flow() {
    let evmla = Contract::new(
        "bad.sol".to_string(),
        "bad.sol".to_string(),
        IR::EVMLA(zksolc::project::EVMLA {
            path: "bad.sol".to_string(),
            assembly: Assembly {
                code: vec![Instruction::Jump(42)],
                runtime_code: Vec::new(),
                data: Vec::new(),
            },
        }),
    );
    let err = normalize_contract(&evmla).unwrap_err();
    assert_eq!(err, Error::Translation(TranslationError::UnresolvedJumpTarget(42)));
}

#[test]
fn normalize_all_preserves_order() {
    let project = Project::try_new(
        vec![zkasm_contract("one"), zkasm_contract("two"), zkasm_contract("three")],
        Vec::new(),
    )
    .unwrap();
    let modules = project.normalize_all();
    assert_eq!(modules.len(), 3);
    assert_eq!(modules[0].as_ref().unwrap().identifier, "one");
    assert_eq!(modules[1].as_ref().unwrap().identifier, "two");
    assert_eq!(modules[2].as_ref().unwrap().identifier, "three");
}

#[test]
fn state_machine_advances_in_order() {
    let mut c = zkasm_contract("s");
    assert!(matches!(c.state, State::Unbuilt));
    c.start();
    assert!(matches!(c.state, State::InProgress));
    let build = zksolc::artifacts::Contract::new(
        "s".to_string(),
        "s".to_string(),
        zksolc::artifacts::MachineBuild {
            assembly_text: String::new(),
            bytecode: Vec::new(),
            bytecode_hash: "0x0".to_string(),
            factory_dependencies: Vec::new(),
        },
        String::new(),
    );
    c.finish(build);
    assert!(matches!(c.state, State::Built(_)));
}

#[test]
fn project_rejects_duplicate_identifiers() {
    let err =
        Project::try_new(vec![zkasm_contract("dup"), zkasm_contract("dup")], Vec::new())
            .unwrap_err();
    assert_eq!(
        err,
        Error::InputAcquisition(InputError::DuplicateContract("dup".to_string()))
    );
}

#[test]
fn single_input_selection() {
    let none: Vec<String> = Vec::new();
    assert_eq!(
        select_single_input(&none).unwrap_err(),
        Error::InputAcquisition(InputError::NoInputFile)
    );
    let two = vec!["a".to_string(), "b".to_string()];
    assert_eq!(
        select_single_input(&two).unwrap_err(),
        Error::InputAcquisition(InputError::TooManyInputFiles(2))
    );
    let one = vec!["only".to_string()];
    assert_eq!(select_single_input(&one).unwrap(), "only");
}

#[test]
fn compile_single_contract() {
    let project = Project::try_new(vec![zkasm_contract("main.zasm")], Vec::new()).unwrap();
    let outputs = vec![output_for("main.zasm", "0xhash", Vec::new())];
    let build = project.compile_all(&outputs).unwrap();
    assert_eq!(build.contracts.len(), 1);
    let (id, cb) = &build.contracts[0];
    assert_eq!(id, "main.zasm");
    assert_eq!(cb.build.bytecode, vec![0x01, 0xff]);
    assert_eq!(cb.build.bytecode_hash, "0xhash");
    assert_eq!(cb.metadata, "meta main.zasm");
    assert!(cb.build.factory_dependencies.is_empty());
}

#[test]
fn compile_resolves_self_referential_factory_dependency() {
    let project = Project::try_new(vec![zkasm_contract("fact")], Vec::new()).unwrap();
    let outputs = vec![output_for("fact", "0xselfhash", vec!["fact".to_string()])];
    let build = project.compile_all(&outputs).unwrap();
    let (_, cb) = &build.contracts[0];
    assert_eq!(
        cb.build.factory_dependencies,
        vec![("0xselfhash".to_string(), "fact".to_string())]
    );
    assert_eq!(cb.build.bytecode_hash, "0xselfhash");
}

#[test]
fn compile_resolves_cross_references_regardless_of_order() {
    let project = Project::try_new(
        vec![zkasm_contract("parent"), zkasm_contract("child")],
        Vec::new(),
    )
    .unwrap();
    let outputs = vec![
        output_for("child", "0xchild", Vec::new()),
        output_for("parent", "0xparent", vec!["child".to_string()]),
    ];
    let build = project.compile_all(&outputs).unwrap();
    assert_eq!(build.contracts[0].0, "parent");
    assert_eq!(
        build.contracts[0].1.build.factory_dependencies,
        vec![("0xchild".to_string(), "child".to_string())]
    );
}

#[test]
fn compile_is_deterministic_and_order_independent() {
    let make_project = || {
        Project::try_new(
            vec![zkasm_contract("a"), zkasm_contract("b")],
            Vec::new(),
        )
        .unwrap()
    };
    let o1 = vec![
        output_for("a", "0xa", vec!["b".to_string()]),
        output_for("b", "0xb", Vec::new()),
    ];
    let o2 = vec![
        output_for("b", "0xb", Vec::new()),
        output_for("a", "0xa", vec!["b".to_string()]),
    ];
    let b1 = make_project().compile_all(&o1).unwrap();
    let b2 = make_project().compile_all(&o1).unwrap();
    let b3 = make_project().compile_all(&o2).unwrap();
    assert_eq!(b1, b2);
    assert_eq!(b1, b3);
}

#[test]
fn compile_aborts_whole_run_on_one_unknown_dependency() {
    let mut contracts = Vec::new();
    let mut outputs = Vec::new();
    for i in 0..10 {
        let id = format!("c{}", i);
        contracts.push(zkasm_contract(&id));
        let refs = if i == 7 { vec!["nowhere".to_string()] } else { Vec::new() };
        outputs.push(output_for(&id, &format!("0x{}", i), refs));
    }
    let project = Project::try_new(contracts, Vec::new()).unwrap();
    let err = project.compile_all(&outputs).unwrap_err();
    assert_eq!(err, Error::UnknownDependency("nowhere".to_string()));
}

#[test]
fn compile_aborts_on_backend_failure_and_missing_output() {
    let project = Project::try_new(vec![zkasm_contract("x")], Vec::new()).unwrap();
    let failed = vec![("x".to_string(), Err::<BackendOutput, String>("boom".to_string()))];
    assert_eq!(project.compile_all(&failed).unwrap_err(), Error::Backend("boom".to_string()));

    let project2 = Project::try_new(vec![zkasm_contract("y")], Vec::new()).unwrap();
    let empty: Vec<(String, Result<BackendOutput, String>)> = Vec::new();
    assert_eq!(project2.compile_all(&empty).unwrap_err(), Error::Backend("y".to_string()));
}

#[test]
fn collect_modules_aborts_on_first_translation_error() {
    let ok = normalize_contract(&zkasm_contract("good")).unwrap();
    let results = vec![
        Ok(ok),
        Err(Error::Translation(TranslationError::UnresolvedJumpTarget(3))),
        Err(Error::Translation(TranslationError::DuplicateTag(1))),
    ];
    let err = zksolc::driver::collect_modules(results).unwrap_err();
    assert_eq!(err, Error::Translation(TranslationError::UnresolvedJumpTarget(3)));

    let all_ok = vec![
        Ok(normalize_contract(&zkasm_contract("a")).unwrap()),
        Ok(normalize_contract(&zkasm_contract("b")).unwrap()),
    ];
    let modules = zksolc::driver::collect_modules(all_ok).unwrap();
    assert_eq!(modules.len(), 2);
    assert_eq!(modules[0].identifier, "a");
}

#[test]
fn compile_contracts_directly() {
    let outputs = vec![output_for("solo", "0xs", Vec::new())];
    let build = compile_contracts(vec![zkasm_contract("solo")], &outputs).unwrap();
    assert_eq!(build.contracts[0].1.identifier, "solo");
}

#[test]
fn single_contract_projects_from_sources() {
    let p = Project::try_from_zkasm_source("m.zasm".to_string(), "code".to_string());
    assert_eq!(p.contracts.len(), 1);
    assert!(matches!(&p.contracts[0].ir, IR::ZKASM(z) if z.source == "code"));

    let p2 = Project::try_from_llvm_ir_source("m.ll".to_string(), "ir".to_string());
    assert!(matches!(&p2.contracts[0].ir, IR::LLVMIR(l) if l.source == "ir"));

    let p3 = Project::try_from_yul_source(
        "m.yul".to_string(),
        YulObject { identifier: "M".to_string(), code: "{}".to_string(), inner: None },
    );
    assert!(matches!(&p3.contracts[0].ir, IR::Yul(_)));
    assert_eq!(p3.contracts[0].identifier, "m.yul");
}
