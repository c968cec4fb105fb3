use noirc_driver::check_crate;
use noirc_driver::context::{Context, CrateAnalysis, CrateDefMap};
use noirc_driver::diagnostics::{CustomDiagnostic, DiagnosticKind, FileId};
use noirc_driver::prepare_crate;

fn new_context() -> Context {
    Context::new("0.10.3+test".to_string())
}

fn diagnostic(message: &str, kind: DiagnosticKind) -> CustomDiagnostic {
    CustomDiagnostic {
        message: message.to_string(),
        kind,
    }
}

fn analysis_with(errors: Vec<(CustomDiagnostic, FileId)>) -> CrateAnalysis {
    CrateAnalysis {
        errors,
        functions: Vec::new(),
        structs: Vec::new(),
        def_map: CrateDefMap {
            main_function: None,
            contracts: Vec::new(),
        },
    }
}

fn two_warnings() -> Vec<(CustomDiagnostic, FileId)> {
    vec![
        (
            diagnostic("unused variable `x`", DiagnosticKind::Warning),
            FileId { id: 1 },
        ),
        (
            diagnostic("unused import", DiagnosticKind::Warning),
            FileId { id: 1 },
        ),
    ]
}

#[test]
fn clean_crate_checks_without_warnings() {
    let mut context = new_context();
    let crate_id = prepare_crate(&mut context, "main.nr".to_string());
    let result = check_crate(&mut context, crate_id, false, analysis_with(Vec::new()));
    let (_, warnings) = result.expect("a clean crate must pass the check");
    assert!(warnings.is_empty());
}

#[test]
fn warnings_pass_through_under_the_lenient_policy() {
    let mut context = new_context();
    let crate_id = prepare_crate(&mut context, "main.nr".to_string());
    let result = check_crate(&mut context, crate_id, false, analysis_with(two_warnings()));
    let (_, warnings) = result.expect("warnings alone must not fail the check");
    assert_eq!(warnings.len(), 2);
    assert_eq!(warnings[0].diagnostic.message, "unused variable `x`");
    assert_eq!(warnings[1].diagnostic.message, "unused import");
}

#[test]
fn warnings_become_fatal_when_denied() {
    let mut context = new_context();
    let crate_id = prepare_crate(&mut context, "main.nr".to_string());
    let result = check_crate(&mut context, crate_id, true, analysis_with(two_warnings()));
    let errors = result.expect_err("denied warnings must fail the check");
    // the failure payload is the identical list
    assert_eq!(errors.len(), 2);
    assert_eq!(errors[0].diagnostic.message, "unused variable `x`");
    assert_eq!(errors[0].diagnostic.kind, DiagnosticKind::Warning);
    assert_eq!(errors[1].diagnostic.message, "unused import");
    assert_eq!(errors[0].file_id, FileId { id: 1 });
}

#[test]
fn an_error_fails_the_check_under_either_policy() {
    for deny_warnings in [false, true] {
        let mut context = new_context();
        let crate_id = prepare_crate(&mut context, "main.nr".to_string());
        let errors = vec![
            (
                diagnostic("unused variable `x`", DiagnosticKind::Warning),
                FileId { id: 1 },
            ),
            (
                diagnostic("cannot find `foo` in this scope", DiagnosticKind::Error),
                FileId { id: 2 },
            ),
        ];
        let result = check_crate(&mut context, crate_id, deny_warnings, analysis_with(errors));
        let reported = result.expect_err("an error must fail the check");
        // the full list comes back, warnings included
        assert_eq!(reported.len(), 2);
        assert_eq!(
            reported[1].diagnostic.message,
            "cannot find `foo` in this scope"
        );
        assert_eq!(reported[1].file_id, FileId { id: 2 });
    }
}
