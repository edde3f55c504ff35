use code_verifier::model::{Contract, Severity, CheckStatus, VerifyRequest, VerifyResponse};
use code_verifier::orchestrator::MyVerifier;
use code_verifier::sandbox::{WasmSandbox, SandboxFailure, classify_interpreter_output,
    execution_issue};
use code_verifier::formal::SmtVerifier;

fn req(code: &str, language: &str, checks: &[&str], contracts: &[&str]) -> VerifyRequest {
    VerifyRequest {
        code: code.to_owned(),
        language: language.to_owned(),
        checks: checks.iter().map(|c| (*c).to_owned()).collect(),
        contracts: contracts
            .iter()
            .map(|e| Contract { id: String::new(), expression: (*e).to_owned() })
            .collect(),
    }
}

fn run(code: &str, language: &str, checks: &[&str], contracts: &[&str]) -> VerifyResponse {
    MyVerifier::default().verify(req(code, language, checks, contracts))
}

#[test]
fn test_sandbox_execution() {
    let sandbox = WasmSandbox::new().unwrap();
    let result = sandbox.execute(b"mock_code", 1000).unwrap();
    assert!(result.output.contains("Execution successful"));
    assert_eq!(result.fuel_consumed, 500);
}

#[test]
fn undocumented_function_fails_coverage() {
    let r = run("def f():\n    return 1\n", "", &["docstrings"], &[]);
    assert!(!r.valid);
    assert_eq!(r.issues.len(), 2);
    assert_eq!(r.issues[0].code, "DOCSTRING_MISSING");
    assert_eq!(r.issues[0].severity, Severity::Warning);
    assert_eq!(r.issues[0].message, "Low docstring coverage: 0/1 (0%)");
    assert_eq!(r.issues[1].code, "DOCSTRING_MISSING");
    assert_eq!(r.issues[1].message, "'f' lacks a docstring");
    assert_eq!(r.score, 1000);
    assert_eq!(r.results.len(), 0);
}

#[test]
fn parse_error_yields_one_syntax_issue() {
    let r = run("def f(:\n", "", &[], &[]);
    assert!(!r.valid);
    assert_eq!(r.issues.len(), 1);
    assert_eq!(r.issues[0].code, "SYNTAX_ERROR");
    assert_eq!(r.issues[0].severity, Severity::Error);
}

#[test]
fn parse_error_with_docstrings_requested_still_one_issue() {
    let r = run("def f(:\n", "", &["docstrings"], &[]);
    assert!(!r.valid);
    assert_eq!(r.issues.len(), 1);
    assert_eq!(r.issues[0].code, "SYNTAX_ERROR");
}

#[test]
fn documented_function_passes() {
    let r = run(
        "\"\"\"doc\"\"\"\ndef f():\n    \"\"\"doc\"\"\"\n    return 1\n",
        "",
        &["docstrings"],
        &[],
    );
    assert!(r.valid);
    assert_eq!(r.issues.len(), 0);
    assert_eq!(r.score, 1000);
}

#[test]
fn contradictory_contracts_halve_the_score() {
    let r = run("", "", &[], &["x > 0", "x < 0"]);
    assert!(!r.valid);
    assert_eq!(r.score, 500);
    assert_eq!(r.results.len(), 1);
    assert_eq!(r.results[0].check_name, "constraint_solver");
    assert_eq!(r.results[0].status, CheckStatus::Failed);
    assert_eq!(r.results[0].tier, 3);
}

#[test]
fn zero_definitions_emit_no_coverage_issue() {
    let r = run("x = 1\ny = x + 1\n", "", &["docstrings"], &[]);
    assert!(r.valid);
    assert_eq!(r.issues.len(), 0);
}

#[test]
fn half_coverage_emits_nothing() {
    let code = "def a():\n    \"\"\"d\"\"\"\n    return 1\n\ndef b():\n    return 2\n";
    let r = run(code, "", &["docstrings"], &[]);
    assert!(r.valid);
    assert_eq!(r.issues.len(), 0);
}

#[test]
fn per_definition_warnings_truncate_after_five() {
    let code = "def d1():\n    return 1\ndef d2():\n    return 1\ndef d3():\n    return 1\n\
                def d4():\n    return 1\ndef d5():\n    return 1\ndef d6():\n    return 1\n\
                def d7():\n    return 1\n";
    let r = run(code, "", &["docstrings"], &[]);
    assert!(!r.valid);
    assert_eq!(r.issues.len(), 6);
    assert_eq!(r.issues[0].message, "Low docstring coverage: 0/7 (0%)");
    for (k, name) in ["d1", "d2", "d3", "d4", "d5"].iter().enumerate() {
        assert_eq!(r.issues[k + 1].message, format!("'{}' lacks a docstring", name));
    }
}

#[test]
fn nested_definitions_are_counted_in_preorder() {
    let code = "class C:\n    def m(self):\n        \"\"\"doc\"\"\"\n        return 1\n\
                \n    def n(self):\n        return 2\n";
    let r = run(code, "", &["docstrings"], &[]);
    assert!(!r.valid);
    assert_eq!(r.issues.len(), 3);
    assert_eq!(r.issues[0].message, "Low docstring coverage: 1/3 (33%)");
    assert_eq!(r.issues[1].message, "'C' lacks a docstring");
    assert_eq!(r.issues[2].message, "'n' lacks a docstring");
}

#[test]
fn unsupported_language_skips_static_analysis() {
    let r = run("def f(:\n", "rust", &["docstrings"], &[]);
    assert!(r.valid);
    assert_eq!(r.issues.len(), 0);
}

#[test]
fn language_match_is_case_insensitive() {
    let r = run("def f(:\n", "Python", &[], &[]);
    assert!(!r.valid);
    assert_eq!(r.issues[0].code, "SYNTAX_ERROR");
    let r = run("def f(:\n", "PYTHON", &[], &[]);
    assert!(!r.valid);
}

#[test]
fn execution_check_reports_a_passed_tier_two_result() {
    let r = run("print(1)\n", "", &["execution"], &[]);
    assert!(r.valid);
    assert_eq!(r.issues.len(), 0);
    assert_eq!(r.results.len(), 1);
    assert_eq!(r.results[0].check_name, "execution");
    assert_eq!(r.results[0].status, CheckStatus::Passed);
    assert_eq!(r.results[0].tier, 2);
    assert!(r.results[0].message.contains("Execution successful"));
}

#[test]
fn unrecognized_checks_are_ignored() {
    let r = run("x = 1\n", "", &["linting", "spellcheck"], &[]);
    assert!(r.valid);
    assert_eq!(r.score, 1000);
    assert_eq!(r.issues.len(), 0);
    assert_eq!(r.results.len(), 0);
}

#[test]
fn empty_contract_list_is_satisfiable() {
    let solver = SmtVerifier::new();
    assert!(solver.verify_constraints(Vec::new()));
}

#[test]
fn direct_contradiction_is_unsatisfiable() {
    let solver = SmtVerifier::new();
    let cs = vec!["x".to_owned(), "not x".to_owned()];
    assert!(!solver.verify_constraints(cs));
}

#[test]
fn contradiction_markers_are_unsatisfiable() {
    let solver = SmtVerifier::new();
    assert!(!solver.verify_constraints(vec!["should_fail".to_owned()]));
    assert!(!solver.verify_constraints(vec!["x == false".to_owned()]));
}

#[test]
fn interval_constraints_are_decided() {
    let solver = SmtVerifier::new();
    assert!(solver.verify_constraints(vec!["x > 0".to_owned(), "x < 5".to_owned()]));
    assert!(!solver.verify_constraints(vec!["x >= 3".to_owned(), "x <= 2".to_owned()]));
    assert!(!solver.verify_constraints(vec!["x == 5".to_owned(), "x > 10".to_owned()]));
    assert!(solver.verify_constraints(vec!["x == 5".to_owned(), "x > 4".to_owned()]));
    assert!(!solver.verify_constraints(vec!["not x".to_owned(), "x > 0".to_owned()]));
    assert!(solver.verify_constraints(vec!["y".to_owned(), "y >= 0".to_owned()]));
}

#[test]
fn negative_bounds_are_parsed() {
    let solver = SmtVerifier::new();
    assert!(solver.verify_constraints(vec!["x > -5".to_owned(), "x < 0".to_owned()]));
    assert!(!solver.verify_constraints(vec!["x < -5".to_owned(), "x > 5".to_owned()]));
}

#[test]
fn spawn_failure_is_classified() {
    let out = classify_interpreter_output(false, &String::new(), &String::new());
    let f = out.err().unwrap();
    let issue = execution_issue(&f);
    assert_eq!(issue.code, "EXECUTION_SPAWN_FAIL");
    assert_eq!(issue.severity, Severity::Error);
}

#[test]
fn runtime_error_line_is_surfaced() {
    let stdout = "some output\n__EXECUTION_ERROR__: ValueError: boom\nmore\n".to_owned();
    let out = classify_interpreter_output(true, &stdout, &String::new());
    let f = out.err().unwrap();
    let issue = execution_issue(&f);
    assert_eq!(issue.code, "EXECUTION_ERROR");
    assert_eq!(issue.message, "__EXECUTION_ERROR__: ValueError: boom");
}

#[test]
fn missing_sentinel_is_an_execution_failure() {
    let stdout = "garbled".to_owned();
    let stderr = "trace".to_owned();
    let out = classify_interpreter_output(true, &stdout, &stderr);
    let f = out.err().unwrap();
    let issue = execution_issue(&f);
    assert_eq!(issue.code, "EXECUTION_FAIL");
    assert_eq!(issue.message, "Execution failed or no output. Stderr: trace");
}

#[test]
fn success_sentinel_yields_captured_output() {
    let stdout = "hello\n__EXECUTION_SUCCESS__\n".to_owned();
    let out = classify_interpreter_output(true, &stdout, &String::new());
    let res = out.ok().unwrap();
    assert_eq!(res.output, stdout);
}

#[test]
fn timeout_and_fuel_failures_have_their_own_codes() {
    let t = execution_issue(&SandboxFailure::Timeout);
    assert_eq!(t.code, "EXECUTION_TIMEOUT");
    assert_eq!(t.severity, Severity::Error);
    let f = execution_issue(&SandboxFailure::FuelExhausted);
    assert_eq!(f.code, "EXECUTION_FUEL_EXHAUSTED");
}

#[test]
fn execution_failure_invalidates_but_later_tiers_still_run() {
    let verifier = MyVerifier::default();
    let request = req("x = 1\n", "", &["execution"], &["x > 0"]);
    let outcome = Some(Err(SandboxFailure::Timeout));
    let r = verifier.verify_with_execution(&request, outcome);
    assert!(!r.valid);
    assert_eq!(r.issues.len(), 1);
    assert_eq!(r.issues[0].code, "EXECUTION_TIMEOUT");
    assert_eq!(r.results.len(), 2);
    assert_eq!(r.results[0].check_name, "execution");
    assert_eq!(r.results[0].status, CheckStatus::Failed);
    assert_eq!(r.results[0].tier, 2);
    assert_eq!(r.results[1].check_name, "constraint_solver");
    assert_eq!(r.results[1].status, CheckStatus::Passed);
    assert_eq!(r.results[1].tier, 3);
    assert_eq!(r.score, 1000);
}

#[test]
fn satisfiable_contracts_keep_full_score() {
    let r = run("", "", &[], &["x > 0"]);
    assert!(r.valid);
    assert_eq!(r.score, 1000);
    assert_eq!(r.results.len(), 1);
    assert_eq!(r.results[0].status, CheckStatus::Passed);
}
