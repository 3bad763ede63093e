use zksolc::artifacts::Build;
use zksolc::artifacts::Contract;
use zksolc::artifacts::FileContent;
use zksolc::artifacts::MachineBuild;
use zksolc::artifacts::should_write;
use zksolc::combined_json::CombinedJson;
use zksolc::combined_json::CombinedJsonContract;
use zksolc::evm_output::Bytecode;
use zksolc::evm_output::EVM;
use zksolc::solc_output::Output;
use zksolc::solc_output::OutputContract;
use zksolc::solc_output::OutputError;

fn sample_build(path: &str, identifier: &str) -> Contract {
    Contract::new(
        path.to_string(),
        identifier.to_string(),
        MachineBuild {
            assembly_text: "add r1, r2".to_string(),
            bytecode: vec![0x01, 0x2a, 0xff],
            bytecode_hash: "0xdeadhash".to_string(),
            factory_dependencies: vec![("0xchild".to_string(), "Child.sol".to_string())],
        },
        "{\"solc\":\"0.8.21\"}".to_string(),
    )
}

#[test]
fn short_path_takes_last_segment() {
    assert_eq!(Contract::short_path("contracts/token/Foo.sol"), "Foo.sol");
    assert_eq!(Contract::short_path("Foo.sol"), "Foo.sol");
    assert_eq!(Contract::short_path("dir/"), "");
}

#[test]
fn directory_plan_names_and_contents() {
    let b = sample_build("contracts/Foo.sol", "contracts/Foo.sol:Foo");
    let plan = b.directory_plan(true, true);
    assert_eq!(plan.len(), 2);
    assert_eq!(plan[0].name, "Foo.sol.zasm");
    assert_eq!(plan[0].content, FileContent::Text("add r1, r2".to_string()));
    assert_eq!(plan[1].name, "Foo.sol.zbin");
    assert_eq!(plan[1].content, FileContent::Binary(vec![0x01, 0x2a, 0xff]));

    let only_binary = b.directory_plan(false, true);
    assert_eq!(only_binary.len(), 1);
    assert_eq!(only_binary[0].name, "Foo.sol.zbin");
}

#[test]
fn non_clobber_decision() {
    assert!(should_write(false, false));
    assert!(should_write(false, true));
    assert!(!should_write(true, false));
    assert!(should_write(true, true));
}

#[test]
fn combined_json_fills_only_declared_fields() {
    let b = sample_build("Foo.sol", "Foo.sol:Foo");
    let mut slot = CombinedJsonContract {
        metadata: Some(String::new()),
        assembly: None,
        bin: Some(String::new()),
        bin_runtime: None,
        factory_deps: None,
    };
    b.write_to_combined_json(&mut slot).unwrap();
    assert_eq!(slot.metadata, Some("{\"solc\":\"0.8.21\"}".to_string()));
    assert_eq!(slot.assembly, None);
    assert_eq!(slot.bin, Some("012aff".to_string()));
    assert_eq!(slot.bin_runtime, None);
    assert_eq!(slot.factory_deps, None);

    let mut with_deps = CombinedJsonContract {
        metadata: None,
        assembly: None,
        bin: None,
        bin_runtime: None,
        factory_deps: Some(Vec::new()),
    };
    b.write_to_combined_json(&mut with_deps).unwrap();
    assert_eq!(
        with_deps.factory_deps,
        Some(vec![("0xchild".to_string(), "Child.sol".to_string())])
    );
    assert_eq!(with_deps.bin, None);
}

#[test]
fn combined_json_sets_runtime_to_same_code() {
    let b = sample_build("Foo.sol", "Foo.sol:Foo");
    let mut slot = CombinedJsonContract {
        metadata: None,
        assembly: Some(String::new()),
        bin: Some(String::new()),
        bin_runtime: Some(String::new()),
        factory_deps: None,
    };
    b.write_to_combined_json(&mut slot).unwrap();
    assert_eq!(slot.metadata, None);
    assert_eq!(slot.assembly, Some("add r1, r2".to_string()));
    assert_eq!(slot.bin, Some("012aff".to_string()));
    assert_eq!(slot.bin_runtime, Some("012aff".to_string()));
}

#[test]
fn standard_json_slot_replaces_legacy_fields() {
    let b = sample_build("Foo.sol", "Foo.sol:Foo");
    let mut slot = OutputContract {
        metadata: None,
        evm: Some(EVM {
            assembly: None,
            assembly_text: None,
            bytecode: Some(Bytecode::new("old".to_string())),
            method_identifiers: Some(vec![("f()".to_string(), "26121ff0".to_string())]),
        }),
        factory_dependencies: None,
        hash: None,
        ir_optimized: Some("object".to_string()),
    };
    b.write_to_standard_json(&mut slot).unwrap();
    let evm = slot.evm.unwrap();
    assert_eq!(evm.assembly_text, Some("add r1, r2".to_string()));
    assert_eq!(evm.bytecode, Some(Bytecode::new("012aff".to_string())));
    assert_eq!(
        evm.method_identifiers,
        Some(vec![("f()".to_string(), "26121ff0".to_string())])
    );
    assert_eq!(slot.hash, Some("0xdeadhash".to_string()));
    assert_eq!(slot.ir_optimized, Some("object".to_string()));
    assert_eq!(
        slot.factory_dependencies,
        Some(vec![("0xchild".to_string(), "Child.sol".to_string())])
    );
}

#[test]
fn evm_modify_clears_legacy_assembly() {
    let mut evm = EVM {
        assembly: None,
        assembly_text: None,
        bytecode: None,
        method_identifiers: None,
    };
    evm.modify("text".to_string(), "aabb".to_string());
    assert_eq!(evm.assembly_text, Some("text".to_string()));
    assert_eq!(evm.bytecode, Some(Bytecode::new("aabb".to_string())));
    assert!(evm.assembly.is_none());
}

#[test]
fn build_folds_matching_combined_json_slots() {
    let build = Build::new(vec![(
        "Foo.sol:Foo".to_string(),
        sample_build("Foo.sol", "Foo.sol:Foo"),
    )]);
    let mut json = CombinedJson {
        contracts: vec![
            (
                "Foo.sol:Foo".to_string(),
                CombinedJsonContract {
                    metadata: None,
                    assembly: None,
                    bin: Some(String::new()),
                    bin_runtime: None,
                    factory_deps: None,
                },
            ),
            (
                "Bar.sol:Bar".to_string(),
                CombinedJsonContract {
                    metadata: None,
                    assembly: None,
                    bin: Some("untouched".to_string()),
                    bin_runtime: None,
                    factory_deps: None,
                },
            ),
        ],
        version: Some("0.8.21".to_string()),
        zk_version: None,
    };
    build.write_to_combined_json(&mut json, "1.3.0".to_string()).unwrap();
    assert_eq!(json.contracts[0].1.bin, Some("012aff".to_string()));
    assert_eq!(json.contracts[1].1.bin, Some("untouched".to_string()));
    assert_eq!(json.version, Some("0.8.21".to_string()));
    assert_eq!(json.zk_version, Some("1.3.0".to_string()));
}

#[test]
fn build_folds_standard_json_by_file_and_name() {
    let build = Build::new(vec![(
        "Foo.sol:Foo".to_string(),
        sample_build("Foo.sol", "Foo.sol:Foo"),
    )]);
    let mut out = Output {
        contracts: vec![(
            "Foo.sol".to_string(),
            vec![
                (
                    "Foo".to_string(),
                    OutputContract {
                        metadata: None,
                        evm: None,
                        factory_dependencies: None,
                        hash: None,
                        ir_optimized: None,
                    },
                ),
                (
                    "Unmatched".to_string(),
                    OutputContract {
                        metadata: Some("keep".to_string()),
                        evm: None,
                        factory_dependencies: None,
                        hash: None,
                        ir_optimized: None,
                    },
                ),
            ],
        )],
        errors: None,
        version: None,
        zk_version: None,
    };
    build.write_to_standard_json(&mut out, "0.8.21".to_string(), "1.3.0".to_string()).unwrap();
    let entries = &out.contracts[0].1;
    assert_eq!(entries[0].1.hash, Some("0xdeadhash".to_string()));
    assert_eq!(entries[1].1.metadata, Some("keep".to_string()));
    assert_eq!(entries[1].1.hash, None);
    assert_eq!(out.version, Some("0.8.21".to_string()));
    assert_eq!(out.zk_version, Some("1.3.0".to_string()));
}

#[test]
fn fatal_front_end_errors_abort_the_run() {
    let out = Output {
        contracts: Vec::new(),
        errors: Some(vec![OutputError {
            severity: "error".to_string(),
            formatted_message: "boom".to_string(),
        }]),
        version: None,
        zk_version: None,
    };
    assert_eq!(
        out.ensure_no_fatal_errors().unwrap_err(),
        zksolc::error::Error::InputAcquisition(zksolc::error::InputError::FrontEndErrors)
    );
    let clean = Output { contracts: Vec::new(), errors: None, version: None, zk_version: None };
    assert!(clean.ensure_no_fatal_errors().is_ok());
}

#[test]
fn fatal_front_end_errors_detected() {
    let out = Output {
        contracts: Vec::new(),
        errors: Some(vec![
            OutputError {
                severity: "warning".to_string(),
                formatted_message: "unused variable".to_string(),
            },
            OutputError {
                severity: "error".to_string(),
                formatted_message: "type mismatch".to_string(),
            },
        ]),
        version: None,
        zk_version: None,
    };
    assert!(out.has_fatal_errors());

    let warnings_only = Output {
        contracts: Vec::new(),
        errors: Some(vec![OutputError {
            severity: "warning".to_string(),
            formatted_message: "w".to_string(),
        }]),
        version: None,
        zk_version: None,
    };
    assert!(!warnings_only.has_fatal_errors());
}
