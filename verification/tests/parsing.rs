use zksolc::error::Error;
use zksolc::error::InputError;
use zksolc::settings::LibraryBinding;
use zksolc::settings::LibraryLink;
use zksolc::settings::Metadata;
use zksolc::settings::MetadataHash;
use zksolc::settings::Optimizer;
use zksolc::settings::Selection;
use zksolc::settings::SelectionFlag;
use zksolc::settings::Settings;
use zksolc::settings::include_metadata_hash;
use zksolc::settings::lookup_library;
use zksolc::settings::resolve_libraries;
use zksolc::solc_input::Input;
use zksolc::solc_input::Language;
use zksolc::version::Pipeline;
use zksolc::version::SolcVersion;
use zksolc::version::use_via_ir;

#[test]
fn parse_libraries_single_entry() {
    let input = vec!["File.sol:Lib=0xabc".to_string()];
    let bindings = Settings::parse_libraries(input).unwrap();
    assert_eq!(bindings.len(), 1);
    assert_eq!(bindings[0].file, "File.sol");
    assert_eq!(bindings[0].name, "Lib");
    assert_eq!(bindings[0].address, "0xabc");
}

#[test]
fn parse_libraries_surplus_segments_ignored() {
    let input = vec!["a.sol:L:extra=0x1=trailing".to_string()];
    let bindings = Settings::parse_libraries(input).unwrap();
    assert_eq!(bindings[0].file, "a.sol");
    assert_eq!(bindings[0].name, "L");
    assert_eq!(bindings[0].address, "0x1");
}

#[test]
fn parse_libraries_missing_contract_name() {
    let input = vec!["File.sol=0xabc".to_string()];
    let err = Settings::parse_libraries(input).unwrap_err();
    assert_eq!(
        err,
        Error::InputAcquisition(InputError::LibraryContractNameMissing("File.sol".to_string()))
    );
}

#[test]
fn parse_libraries_missing_address() {
    let input = vec!["File.sol:Lib".to_string()];
    let err = Settings::parse_libraries(input).unwrap_err();
    assert_eq!(
        err,
        Error::InputAcquisition(InputError::LibraryAddressMissing("File.sol:Lib".to_string()))
    );
}

#[test]
fn parse_libraries_first_error_wins() {
    let input = vec![
        "ok.sol:A=0x1".to_string(),
        "bad.sol=0x2".to_string(),
        "alsobad".to_string(),
    ];
    let err = Settings::parse_libraries(input).unwrap_err();
    assert!(matches!(
        err,
        Error::InputAcquisition(InputError::LibraryContractNameMissing(_))
    ));
}

#[test]
fn lookup_library_last_binding_wins() {
    let bindings = vec![
        LibraryBinding {
            file: "f.sol".to_string(),
            name: "L".to_string(),
            address: "0x1".to_string(),
        },
        LibraryBinding {
            file: "f.sol".to_string(),
            name: "L".to_string(),
            address: "0x2".to_string(),
        },
    ];
    assert_eq!(lookup_library(&bindings, "f.sol", "L"), Some("0x2".to_string()));
    assert_eq!(lookup_library(&bindings, "f.sol", "M"), None);
}

#[test]
fn resolve_libraries_bound_and_unbound() {
    let bindings = vec![LibraryBinding {
        file: "File.sol".to_string(),
        name: "Lib".to_string(),
        address: "0xabc".to_string(),
    }];
    let refs = vec![
        ("File.sol".to_string(), "Lib".to_string()),
        ("Other.sol".to_string(), "Missing".to_string()),
    ];
    let links = resolve_libraries(&refs, &bindings);
    assert_eq!(links.len(), 2);
    assert_eq!(
        links[0],
        LibraryLink::Resolved {
            file: "File.sol".to_string(),
            name: "Lib".to_string(),
            address: "0xabc".to_string(),
        }
    );
    assert_eq!(
        links[1],
        LibraryLink::Placeholder { file: "Other.sol".to_string(), name: "Missing".to_string() }
    );
}

#[test]
fn pipeline_choice_follows_version_and_flag() {
    let old_version = SolcVersion::new(0, 7, 6);
    let new_version = SolcVersion::new(0, 8, 21);
    assert_eq!(Pipeline::new(&old_version, false), Pipeline::EVMLA);
    assert_eq!(Pipeline::new(&new_version, false), Pipeline::Yul);
    assert_eq!(Pipeline::new(&new_version, true), Pipeline::EVMLA);
    assert!(use_via_ir(&new_version, false));
    assert!(!use_via_ir(&new_version, true));
    assert!(!use_via_ir(&old_version, false));
}

#[test]
fn version_parse_components() {
    let v = SolcVersion::try_from_text("0.8.21").unwrap();
    assert_eq!((v.major, v.minor, v.patch), (0, 8, 21));
    assert!(SolcVersion::try_from_text("not a version").is_none());
}

#[test]
fn metadata_hash_inclusion() {
    assert!(include_metadata_hash(&None));
    assert!(include_metadata_hash(&Some(Metadata::new(None))));
    assert!(include_metadata_hash(&Some(Metadata::new(Some(MetadataHash::Keccak256)))));
    assert!(!include_metadata_hash(&Some(Metadata::new(Some(MetadataHash::NoHash)))));
}

#[test]
fn selection_required_flags() {
    let s = Selection::new_required(Pipeline::Yul);
    assert_eq!(s.flags, vec![SelectionFlag::Yul, SelectionFlag::Metadata]);

    let mut s2 = Selection { flags: vec![SelectionFlag::Metadata, SelectionFlag::ABI] };
    s2.extend_with_required(Pipeline::EVMLA);
    assert_eq!(
        s2.flags,
        vec![SelectionFlag::Metadata, SelectionFlag::ABI, SelectionFlag::EVMLA]
    );
}

#[test]
fn input_from_paths_builds_settings() {
    let paths = vec![("a.sol".to_string(), "contract A {}".to_string())];
    let libraries = vec!["File.sol:Lib=0xabc".to_string()];
    let input = Input::try_from_paths(
        Language::Solidity,
        paths,
        libraries,
        Selection::new_required(Pipeline::Yul),
        Optimizer::new(true, None),
        None,
        true,
    )
    .unwrap();
    assert_eq!(input.language, Language::Solidity);
    assert_eq!(input.sources.len(), 1);
    assert_eq!(input.sources[0].0, "a.sol");
    assert_eq!(input.sources[0].1.content, "contract A {}");
    let bindings = input.settings.libraries.unwrap();
    assert_eq!(bindings[0].address, "0xabc");
    assert_eq!(input.settings.via_ir, Some(true));
}

#[test]
fn input_from_paths_rejects_bad_library() {
    let paths = vec![("a.sol".to_string(), String::new())];
    let libraries = vec!["nocolon=0x1".to_string()];
    let err = Input::try_from_paths(
        Language::Solidity,
        paths,
        libraries,
        Selection::new_required(Pipeline::Yul),
        Optimizer::new(false, None),
        None,
        false,
    )
    .unwrap_err();
    assert!(matches!(
        err,
        Error::InputAcquisition(InputError::LibraryContractNameMissing(_))
    ));
}

#[test]
fn stdin_request_receives_required_selection() {
    let mut input = Input::try_from_sources(
        vec![("c.sol".to_string(), String::new())],
        Vec::new(),
        Selection { flags: vec![SelectionFlag::ABI] },
        Optimizer::new(false, None),
        None,
        false,
    )
    .unwrap();
    input.extend_with_required(Pipeline::Yul, true);
    let selection = input.settings.output_selection.clone().unwrap();
    assert_eq!(
        selection.flags,
        vec![SelectionFlag::ABI, SelectionFlag::Yul, SelectionFlag::Metadata]
    );
    assert_eq!(input.settings.via_ir, Some(true));
}

#[test]
fn input_from_sources_is_solidity() {
    let sources = vec![("b.sol".to_string(), "contract B {}".to_string())];
    let input = Input::try_from_sources(
        sources,
        Vec::new(),
        Selection::new_required(Pipeline::EVMLA),
        Optimizer::new(false, Some('z')),
        Some(Metadata::new(Some(MetadataHash::Keccak256))),
        false,
    )
    .unwrap();
    assert_eq!(input.language, Language::Solidity);
    assert_eq!(input.settings.via_ir, None);
    assert_eq!(input.settings.optimizer.mode, Some('z'));
}
