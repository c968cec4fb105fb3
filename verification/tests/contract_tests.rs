use noirc_driver::abi::{Abi, AbiParameter, AbiType, AbiVisibility};
use noirc_driver::compile_contract;
use noirc_driver::compile_no_check;
use noirc_driver::context::{
    Context, Contract, ContractFunctionMeta, ContractVisibility, CrateAnalysis, CrateDefMap,
    FuncId, FunctionModifiers, FunctionRecord, LoweredArtifact, StructId, StructRecord,
};
use noirc_driver::contract::ContractFunctionType;
use noirc_driver::debug::DebugInfo;
use noirc_driver::diagnostics::{CustomDiagnostic, DiagnosticKind, FileDiagnostic, FileId,
    RuntimeError};
use noirc_driver::prepare_crate;
use noirc_driver::CompileOptions;

fn new_context() -> Context {
    Context::new("0.10.3+test".to_string())
}

fn options() -> CompileOptions {
    CompileOptions {
        show_ssa: false,
        show_brillig: false,
        print_acir: false,
        deny_warnings: false,
        silence_warnings: false,
    }
}

fn empty_abi() -> Abi {
    Abi {
        parameters: Vec::new(),
        return_type: None,
    }
}

fn lowered(circuit: &[u8], debug_files: &[usize]) -> LoweredArtifact {
    LoweredArtifact {
        circuit: circuit.to_vec(),
        debug: DebugInfo {
            file_ids: debug_files.iter().map(|id| FileId { id: *id }).collect(),
        },
        abi: empty_abi(),
        warnings: Vec::new(),
    }
}

fn contract_fn(
    name: &str,
    visibility: ContractVisibility,
    is_unconstrained: bool,
    lowering: Result<LoweredArtifact, RuntimeError>,
) -> FunctionRecord {
    FunctionRecord {
        name: name.to_string(),
        monomorphized: name.as_bytes().to_vec(),
        lowering,
        abi: empty_abi(),
        modifiers: FunctionModifiers {
            contract_function_type: Some(visibility),
            is_unconstrained,
            is_internal: None,
        },
    }
}

fn analysis_with_contracts(
    functions: Vec<FunctionRecord>,
    structs: Vec<StructRecord>,
    contracts: Vec<Contract>,
) -> CrateAnalysis {
    CrateAnalysis {
        errors: Vec::new(),
        functions,
        structs,
        def_map: CrateDefMap {
            main_function: None,
            contracts,
        },
    }
}

fn entry(idx: usize) -> ContractFunctionMeta {
    ContractFunctionMeta {
        function_id: FuncId { idx },
        is_entry_point: true,
    }
}

#[test]
fn a_crate_without_contracts_is_refused() {
    let mut context = new_context();
    let crate_id = prepare_crate(&mut context, "contract.nr".to_string());
    let analysis = analysis_with_contracts(Vec::new(), Vec::new(), Vec::new());
    let errors = compile_contract(&mut context, crate_id, &options(), analysis)
        .expect_err("no contract to compile");
    assert_eq!(errors.len(), 1);
    assert_eq!(
        errors[0].diagnostic.message,
        "cannot compile crate into a contract as it does not contain any contracts"
    );
    assert_eq!(errors[0].file_id, FileId { id: 0 });
}

#[test]
fn a_crate_with_two_contracts_is_refused() {
    let mut context = new_context();
    let crate_id = prepare_crate(&mut context, "contract.nr".to_string());
    let functions = vec![contract_fn(
        "transfer",
        ContractVisibility::Secret,
        false,
        Ok(lowered(&[1], &[1])),
    )];
    let contracts = vec![
        Contract {
            name: "Token".to_string(),
            functions: vec![entry(0)],
            events: Vec::new(),
        },
        Contract {
            name: "Vault".to_string(),
            functions: Vec::new(),
            events: Vec::new(),
        },
    ];
    let analysis = analysis_with_contracts(functions, Vec::new(), contracts);
    let errors = compile_contract(&mut context, crate_id, &options(), analysis)
        .expect_err("two contracts are one too many");
    assert_eq!(errors.len(), 1);
    assert_eq!(
        errors[0].diagnostic.message,
        "Packages are limited to a single contract"
    );
}

#[test]
fn a_single_contract_compiles_to_its_entry_points() {
    let mut context = new_context();
    let crate_id = prepare_crate(&mut context, "contract.nr".to_string());
    let functions = vec![
        contract_fn(
            "transfer",
            ContractVisibility::Secret,
            false,
            Ok(lowered(&[1, 1], &[1])),
        ),
        contract_fn(
            "total_supply",
            ContractVisibility::Open,
            false,
            Ok(lowered(&[2, 2], &[1])),
        ),
        contract_fn(
            "simulate",
            ContractVisibility::Open,
            true,
            Ok(lowered(&[3, 3], &[1])),
        ),
    ];
    let structs = vec![StructRecord {
        name: "Transfer".to_string(),
        fields: vec![AbiParameter {
            name: "amount".to_string(),
            typ: AbiType::Field,
            visibility: AbiVisibility::Public,
        }],
    }];
    let contracts = vec![Contract {
        name: "Token".to_string(),
        functions: vec![entry(0), entry(1), entry(2)],
        events: vec![StructId { idx: 0 }],
    }];
    let analysis = analysis_with_contracts(functions, structs, contracts);
    let (contract, warnings) = compile_contract(&mut context, crate_id, &options(), analysis)
        .expect("the contract must compile");
    assert!(warnings.is_empty());
    assert_eq!(contract.name, "Token");
    assert_eq!(contract.noir_version, "0.10.3+test");
    assert_eq!(contract.functions.len(), 3);
    assert_eq!(contract.functions[0].name, "transfer");
    assert_eq!(
        contract.functions[0].function_type,
        ContractFunctionType::Secret
    );
    assert!(!contract.functions[0].is_internal);
    assert_eq!(contract.functions[0].bytecode, vec![1, 1]);
    assert_eq!(
        contract.functions[1].function_type,
        ContractFunctionType::Open
    );
    // an unconstrained function is tagged as such whatever its visibility
    assert_eq!(
        contract.functions[2].function_type,
        ContractFunctionType::Unconstrained
    );
    assert_eq!(contract.events.len(), 1);
    assert_eq!(contract.events[0].name, "Transfer");
    assert_eq!(contract.events[0].fields[0].name, "amount");
    assert_eq!(contract.file_map.len(), 1);
    assert_eq!(contract.file_map[0].path, "contract.nr");
}

#[test]
fn one_failing_function_reports_its_error_without_stopping_the_others() {
    let mut context = new_context();
    let crate_id = prepare_crate(&mut context, "contract.nr".to_string());
    let functions = vec![
        contract_fn(
            "works_a",
            ContractVisibility::Secret,
            false,
            Ok(lowered(&[1], &[1])),
        ),
        contract_fn(
            "breaks",
            ContractVisibility::Secret,
            false,
            Err(RuntimeError {
                message: "division by zero".to_string(),
                file_id: FileId { id: 1 },
            }),
        ),
        contract_fn(
            "works_b",
            ContractVisibility::Open,
            false,
            Ok(lowered(&[2], &[1])),
        ),
    ];
    let contracts = vec![Contract {
        name: "Token".to_string(),
        functions: vec![entry(0), entry(1), entry(2)],
        events: Vec::new(),
    }];
    let analysis = analysis_with_contracts(functions, Vec::new(), contracts);
    let errors = compile_contract(&mut context, crate_id, &options(), analysis)
        .expect_err("one failing entry point fails the contract");
    assert_eq!(errors.len(), 1);
    assert_eq!(errors[0].diagnostic.message, "division by zero");
    assert_eq!(errors[0].diagnostic.kind, DiagnosticKind::Error);

    // the failure of one did not prevent the others: each compiles on its
    // own against the same resolved definitions
    for idx in [0usize, 2] {
        let program = compile_no_check(&context, &options(), FuncId { idx }, None, true)
            .expect("the sibling function compiles independently");
        assert!(!program.circuit.is_empty());
    }
}

#[test]
fn a_function_that_is_no_entry_point_is_skipped_silently() {
    let mut context = new_context();
    let crate_id = prepare_crate(&mut context, "contract.nr".to_string());
    let functions = vec![
        contract_fn(
            "transfer",
            ContractVisibility::Secret,
            false,
            Ok(lowered(&[1], &[1])),
        ),
        // a helper that would fail to compile standalone
        contract_fn(
            "helper",
            ContractVisibility::Secret,
            false,
            Err(RuntimeError {
                message: "unbounded loop".to_string(),
                file_id: FileId { id: 1 },
            }),
        ),
    ];
    let contracts = vec![Contract {
        name: "Token".to_string(),
        functions: vec![
            entry(0),
            ContractFunctionMeta {
                function_id: FuncId { idx: 1 },
                is_entry_point: false,
            },
        ],
        events: Vec::new(),
    }];
    let analysis = analysis_with_contracts(functions, Vec::new(), contracts);
    let (contract, warnings) = compile_contract(&mut context, crate_id, &options(), analysis)
        .expect("the broken helper is skipped entirely");
    assert!(warnings.is_empty());
    assert_eq!(contract.functions.len(), 1);
    assert_eq!(contract.functions[0].name, "transfer");
}

#[test]
fn check_failures_stop_contract_compilation() {
    let mut context = new_context();
    let crate_id = prepare_crate(&mut context, "contract.nr".to_string());
    let mut analysis = analysis_with_contracts(Vec::new(), Vec::new(), Vec::new());
    analysis.errors.push((
        CustomDiagnostic {
            message: "mismatched types".to_string(),
            kind: DiagnosticKind::Error,
        },
        FileId { id: 1 },
    ));
    let errors = compile_contract(&mut context, crate_id, &options(), analysis)
        .expect_err("a check error stops the contract");
    assert_eq!(errors.len(), 1);
    assert_eq!(errors[0].diagnostic.message, "mismatched types");
}

#[test]
fn function_warnings_live_in_the_contract_artifact() {
    let mut context = new_context();
    let crate_id = prepare_crate(&mut context, "contract.nr".to_string());
    let mut artifact = lowered(&[1], &[1]);
    artifact.warnings.push(FileDiagnostic {
        file_id: FileId { id: 1 },
        diagnostic: CustomDiagnostic {
            message: "unused witness".to_string(),
            kind: DiagnosticKind::Warning,
        },
    });
    let functions = vec![contract_fn(
        "transfer",
        ContractVisibility::Secret,
        false,
        Ok(artifact),
    )];
    let contracts = vec![Contract {
        name: "Token".to_string(),
        functions: vec![entry(0)],
        events: Vec::new(),
    }];
    let mut analysis = analysis_with_contracts(functions, Vec::new(), contracts);
    analysis.errors.push((
        CustomDiagnostic {
            message: "unused import".to_string(),
            kind: DiagnosticKind::Warning,
        },
        FileId { id: 1 },
    ));
    let (contract, warnings) = compile_contract(&mut context, crate_id, &options(), analysis)
        .expect("warnings alone stop nothing");
    // check warnings come back to the caller; the functions' own warnings
    // ride inside the artifact
    assert_eq!(warnings.len(), 1);
    assert_eq!(warnings[0].diagnostic.message, "unused import");
    assert_eq!(contract.warnings.len(), 1);
    assert_eq!(contract.warnings[0].diagnostic.message, "unused witness");
}

#[test]
fn partial_failure_errors_follow_the_check_warnings() {
    let mut context = new_context();
    let crate_id = prepare_crate(&mut context, "contract.nr".to_string());
    let functions = vec![contract_fn(
        "breaks",
        ContractVisibility::Secret,
        false,
        Err(RuntimeError {
            message: "division by zero".to_string(),
            file_id: FileId { id: 1 },
        }),
    )];
    let contracts = vec![Contract {
        name: "Token".to_string(),
        functions: vec![entry(0)],
        events: Vec::new(),
    }];
    let mut analysis = analysis_with_contracts(functions, Vec::new(), contracts);
    analysis.errors.push((
        CustomDiagnostic {
            message: "unused import".to_string(),
            kind: DiagnosticKind::Warning,
        },
        FileId { id: 1 },
    ));
    let errors = compile_contract(&mut context, crate_id, &options(), analysis)
        .expect_err("the failing entry point fails the contract");
    // the accumulated list holds the check warnings first, then the
    // per-function failures
    assert_eq!(errors.len(), 2);
    assert_eq!(errors[0].diagnostic.message, "unused import");
    assert_eq!(errors[1].diagnostic.message, "division by zero");
}
