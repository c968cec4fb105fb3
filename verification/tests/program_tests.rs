use noirc_driver::abi::{Abi, AbiParameter, AbiType, AbiVisibility};
use noirc_driver::cached_version_mismatch;
use noirc_driver::compile_file;
use noirc_driver::compile_main;
use noirc_driver::compile_no_check;
use noirc_driver::compute_function_abi;
use noirc_driver::context::{
    Context, CrateAnalysis, CrateDefMap, FuncId, FunctionModifiers, FunctionRecord,
    LoweredArtifact,
};
use noirc_driver::debug::DebugInfo;
use noirc_driver::diagnostics::{CustomDiagnostic, DiagnosticKind, FileId, RuntimeError};
use noirc_driver::prepare_crate;
use noirc_driver::CompileOptions;

fn new_context() -> Context {
    Context::new("0.10.3+test".to_string())
}

fn options() -> CompileOptions {
    CompileOptions {
        show_ssa: false,
        show_brillig: false,
        print_acir: false,
        deny_warnings: false,
        silence_warnings: false,
    }
}

fn simple_abi() -> Abi {
    Abi {
        parameters: vec![AbiParameter {
            name: "x".to_string(),
            typ: AbiType::Field,
            visibility: AbiVisibility::Private,
        }],
        return_type: Some(AbiType::Field),
    }
}

fn lowered(circuit: &[u8], debug_files: &[usize]) -> LoweredArtifact {
    LoweredArtifact {
        circuit: circuit.to_vec(),
        debug: DebugInfo {
            file_ids: debug_files.iter().map(|id| FileId { id: *id }).collect(),
        },
        abi: simple_abi(),
        warnings: Vec::new(),
    }
}

fn main_record(mono: &[u8], lowering: Result<LoweredArtifact, RuntimeError>) -> FunctionRecord {
    FunctionRecord {
        name: "main".to_string(),
        monomorphized: mono.to_vec(),
        lowering,
        abi: simple_abi(),
        modifiers: FunctionModifiers {
            contract_function_type: None,
            is_unconstrained: false,
            is_internal: None,
        },
    }
}

fn analysis_for_main(record: FunctionRecord) -> CrateAnalysis {
    CrateAnalysis {
        errors: Vec::new(),
        functions: vec![record],
        structs: Vec::new(),
        def_map: CrateDefMap {
            main_function: Some(FuncId { idx: 0 }),
            contracts: Vec::new(),
        },
    }
}

#[test]
fn missing_main_is_a_terminal_error() {
    let mut context = new_context();
    let crate_id = prepare_crate(&mut context, "main.nr".to_string());
    let analysis = CrateAnalysis {
        errors: Vec::new(),
        functions: Vec::new(),
        structs: Vec::new(),
        def_map: CrateDefMap {
            main_function: None,
            contracts: Vec::new(),
        },
    };
    let errors = compile_main(&mut context, crate_id, &options(), None, false, analysis)
        .expect_err("a crate without `main` must not compile as a program");
    assert_eq!(errors.len(), 1);
    assert_eq!(
        errors[0].diagnostic.message,
        "cannot compile crate into a program as it does not contain a `main` function"
    );
    assert_eq!(errors[0].diagnostic.kind, DiagnosticKind::Error);
    assert_eq!(errors[0].file_id, FileId { id: 0 });
}

#[test]
fn compile_main_assembles_the_artifact() {
    let mut context = new_context();
    let crate_id = prepare_crate(&mut context, "main.nr".to_string());
    let code = vec![1u8, 2, 3];
    let analysis = analysis_for_main(main_record(&code, Ok(lowered(&[9, 9], &[1]))));
    let (program, warnings) =
        compile_main(&mut context, crate_id, &options(), None, false, analysis)
            .expect("the program must compile");
    assert!(warnings.is_empty());
    assert_eq!(program.hash, fxhash::hash64(code.as_slice()));
    assert_eq!(program.circuit, vec![9, 9]);
    assert_eq!(program.noir_version, "0.10.3+test");
    assert_eq!(program.abi.parameters.len(), 1);
    assert_eq!(program.abi.parameters[0].name, "x");
    // only the root file is referenced; the stdlib file is filtered out
    assert_eq!(program.file_map.len(), 1);
    assert_eq!(program.file_map[0].file_id, FileId { id: 1 });
    assert_eq!(program.file_map[0].path, "main.nr");
}

#[test]
fn recompiling_an_unchanged_function_serves_the_cache() {
    let mut context = new_context();
    let crate_id = prepare_crate(&mut context, "main.nr".to_string());
    let analysis = analysis_for_main(main_record(&[1, 2, 3], Ok(lowered(&[9, 9], &[1]))));
    let (first, _) = compile_main(&mut context, crate_id, &options(), None, true, analysis)
        .expect("the first compilation must succeed");
    let main = context
        .get_main_function(&crate_id)
        .expect("main was installed");
    let second = compile_no_check(&context, &options(), main, Some(first.duplicate()), false)
        .expect("the second compilation must succeed");
    assert_eq!(second.hash, first.hash);
    assert_eq!(second.circuit, first.circuit);
}

#[test]
fn the_cache_hit_returns_the_cached_program_unchanged() {
    let mut context = new_context();
    let crate_id = prepare_crate(&mut context, "main.nr".to_string());
    let analysis = analysis_for_main(main_record(&[1, 2, 3], Ok(lowered(&[9, 9], &[1]))));
    let (fresh, _) = compile_main(&mut context, crate_id, &options(), None, true, analysis)
        .expect("compilation must succeed");
    let main = context.get_main_function(&crate_id).unwrap();

    // a cached artifact with the right hash but different bytes: the cache
    // trusts the hash and hands the artifact back as it is
    let mut stale = fresh.duplicate();
    stale.circuit = vec![7];
    let served = compile_no_check(&context, &options(), main, Some(stale), false).unwrap();
    assert_eq!(served.circuit, vec![7]);

    // forcing compilation ignores the cache
    let mut stale = fresh.duplicate();
    stale.circuit = vec![7];
    let forced = compile_no_check(&context, &options(), main, Some(stale), true).unwrap();
    assert_eq!(forced.circuit, vec![9, 9]);

    // a trace flag ignores the cache too
    let mut stale = fresh.duplicate();
    stale.circuit = vec![7];
    let mut tracing = options();
    tracing.print_acir = true;
    let traced = compile_no_check(&context, &tracing, main, Some(stale), false).unwrap();
    assert_eq!(traced.circuit, vec![9, 9]);
}

#[test]
fn a_cached_program_with_another_hash_is_not_served() {
    let mut context = new_context();
    let crate_id = prepare_crate(&mut context, "main.nr".to_string());
    let analysis = analysis_for_main(main_record(&[1, 2, 3], Ok(lowered(&[9, 9], &[1]))));
    let (fresh, _) = compile_main(&mut context, crate_id, &options(), None, true, analysis)
        .expect("compilation must succeed");
    let main = context.get_main_function(&crate_id).unwrap();
    let mut stale = fresh.duplicate();
    stale.hash = fresh.hash.wrapping_add(1);
    stale.circuit = vec![7];
    let recompiled = compile_no_check(&context, &options(), main, Some(stale), false).unwrap();
    assert_eq!(recompiled.circuit, vec![9, 9]);
}

#[test]
fn changing_the_monomorphized_form_changes_the_hash() {
    let mut context1 = new_context();
    let crate1 = prepare_crate(&mut context1, "main.nr".to_string());
    let analysis1 = analysis_for_main(main_record(&[1, 2, 3], Ok(lowered(&[9, 9], &[1]))));
    let (p1, _) = compile_main(&mut context1, crate1, &options(), None, true, analysis1).unwrap();

    // e.g. a generic size resolved to another constant
    let mut context2 = new_context();
    let crate2 = prepare_crate(&mut context2, "main.nr".to_string());
    let analysis2 = analysis_for_main(main_record(&[1, 2, 4], Ok(lowered(&[9, 9], &[1]))));
    let (p2, _) = compile_main(&mut context2, crate2, &options(), None, true, analysis2).unwrap();

    assert_ne!(p1.hash, p2.hash);
}

#[test]
fn the_hash_ignores_everything_but_the_monomorphized_form() {
    let mut context1 = new_context();
    let crate1 = prepare_crate(&mut context1, "main.nr".to_string());
    let analysis1 = analysis_for_main(main_record(&[1, 2, 3], Ok(lowered(&[9, 9], &[1]))));
    let (p1, _) = compile_main(&mut context1, crate1, &options(), None, true, analysis1).unwrap();

    // a differently named function with another ABI but the same resolved
    // body hashes alike: formatting and naming never enter the hash
    let mut context2 = new_context();
    let crate2 = prepare_crate(&mut context2, "other.nr".to_string());
    let mut record = main_record(&[1, 2, 3], Ok(lowered(&[5], &[1])));
    record.name = "main_reformatted".to_string();
    record.abi.parameters.clear();
    let analysis2 = analysis_for_main(record);
    let (p2, _) = compile_main(&mut context2, crate2, &options(), None, true, analysis2).unwrap();

    assert_eq!(p1.hash, p2.hash);
}

#[test]
fn a_lowering_failure_aborts_the_compilation() {
    let mut context = new_context();
    let crate_id = prepare_crate(&mut context, "main.nr".to_string());
    let failure = RuntimeError {
        message: "index out of bounds".to_string(),
        file_id: FileId { id: 1 },
    };
    let analysis = analysis_for_main(main_record(&[1, 2, 3], Err(failure)));
    let errors = compile_main(&mut context, crate_id, &options(), None, false, analysis)
        .expect_err("a lowering failure must abort");
    assert_eq!(errors.len(), 1);
    assert_eq!(errors[0].diagnostic.message, "index out of bounds");
    assert_eq!(errors[0].diagnostic.kind, DiagnosticKind::Error);
    assert_eq!(errors[0].file_id, FileId { id: 1 });
}

#[test]
fn compilation_warnings_are_fatal_only_when_denied() {
    let warning = CustomDiagnostic {
        message: "unused witness".to_string(),
        kind: DiagnosticKind::Warning,
    };
    let mut artifact = lowered(&[9, 9], &[1]);
    artifact.warnings.push(noirc_driver::diagnostics::FileDiagnostic {
        file_id: FileId { id: 1 },
        diagnostic: warning,
    });

    let mut context = new_context();
    let crate_id = prepare_crate(&mut context, "main.nr".to_string());
    let analysis = analysis_for_main(main_record(&[1, 2, 3], Ok(artifact)));
    let (_, warnings) = compile_main(&mut context, crate_id, &options(), None, false, analysis)
        .expect("warnings alone must not abort");
    assert_eq!(warnings.len(), 1);
    assert_eq!(warnings[0].diagnostic.message, "unused witness");

    let warning = CustomDiagnostic {
        message: "unused witness".to_string(),
        kind: DiagnosticKind::Warning,
    };
    let mut artifact = lowered(&[9, 9], &[1]);
    artifact.warnings.push(noirc_driver::diagnostics::FileDiagnostic {
        file_id: FileId { id: 1 },
        diagnostic: warning,
    });
    let mut context = new_context();
    let crate_id = prepare_crate(&mut context, "main.nr".to_string());
    let analysis = analysis_for_main(main_record(&[1, 2, 3], Ok(artifact)));
    let mut denying = options();
    denying.deny_warnings = true;
    let errors = compile_main(&mut context, crate_id, &denying, None, false, analysis)
        .expect_err("denied compilation warnings must abort");
    assert_eq!(errors.len(), 1);
    assert_eq!(errors[0].diagnostic.message, "unused witness");
}

#[test]
fn compute_function_abi_reads_the_resolved_signature() {
    let mut context = new_context();
    let crate_id = prepare_crate(&mut context, "main.nr".to_string());
    assert!(compute_function_abi(&context, &crate_id).is_none());
    let analysis = analysis_for_main(main_record(&[1, 2, 3], Ok(lowered(&[9, 9], &[1]))));
    compile_main(&mut context, crate_id, &options(), None, false, analysis).unwrap();
    let (parameters, return_type) =
        compute_function_abi(&context, &crate_id).expect("main is resolved now");
    assert_eq!(parameters.len(), 1);
    assert_eq!(parameters[0].name, "x");
    assert_eq!(return_type, Some(AbiType::Field));
}

#[test]
fn a_version_mismatch_forces_recompilation() {
    let mut context = new_context();
    let crate_id = prepare_crate(&mut context, "main.nr".to_string());
    let analysis = analysis_for_main(main_record(&[1, 2, 3], Ok(lowered(&[9, 9], &[1]))));
    let (program, _) =
        compile_main(&mut context, crate_id, &options(), None, true, analysis).unwrap();
    let current = "0.10.3+test".to_string();
    let older = "0.10.2+other".to_string();
    assert!(!cached_version_mismatch(Some(&program), &current));
    assert!(cached_version_mismatch(Some(&program), &older));
    assert!(!cached_version_mismatch(None, &current));
}

#[test]
fn compile_file_compiles_a_single_root_file() {
    let mut context = new_context();
    let analysis = analysis_for_main(main_record(&[4, 5], Ok(lowered(&[1], &[1]))));
    let (program, warnings) = compile_file(&mut context, "main.nr".to_string(), analysis)
        .expect("the file must compile");
    assert!(warnings.is_empty());
    assert_eq!(program.circuit, vec![1]);
    assert_eq!(program.hash, fxhash::hash64([4u8, 5].as_slice()));
}
