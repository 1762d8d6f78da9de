use rupair::validator::{ExecutionTrace, RunOutcome, ValidationResult, Validator};

fn trace(stdout: &str, stderr: &str, exit_code: i32) -> ExecutionTrace {
    ExecutionTrace {
        stdout: stdout.to_string(),
        stderr: stderr.to_string(),
        exit_code,
    }
}

#[test]
fn test_validation() {
    // the original program and its repaired form print the same output and
    // both exit cleanly
    let validator = Validator::new("original.rs".to_string(), "fixed.rs".to_string());
    let original = RunOutcome::Completed(trace("Buffer[5] = 42\n", "", 0));
    let fixed = RunOutcome::Completed(trace("Buffer[5] = 42\n", "", 0));

    let result: ValidationResult = validator.validate(original, fixed);
    assert!(result.success);
}

#[test]
fn scenario_e_identical_stdout_and_exit() {
    let validator = Validator::new("a.rs".to_string(), "b.rs".to_string());
    let original = RunOutcome::Completed(trace("hello\n", "", 0));
    let fixed = RunOutcome::Completed(trace("hello\n", "warning: guarded access\n", 0));

    let result = validator.validate(original, fixed);
    assert!(result.success); // stderr is recorded but never compared
    assert_eq!(result.execution_traces.len(), 2);
    assert_eq!(
        result.message,
        "Validation successful: Fixed code maintains semantic equivalence"
    );
}

#[test]
fn different_stdout_fails() {
    let validator = Validator::new("a.rs".to_string(), "b.rs".to_string());
    let original = RunOutcome::Completed(trace("hello\n", "", 0));
    let fixed = RunOutcome::Completed(trace("goodbye\n", "", 0));

    let result = validator.validate(original, fixed);
    assert!(!result.success);
    assert_eq!(
        result.message,
        "Validation failed: Fixed code shows different behavior"
    );
}

#[test]
fn different_exit_code_fails() {
    let validator = Validator::new("a.rs".to_string(), "b.rs".to_string());
    let original = RunOutcome::Completed(trace("hello\n", "", 0));
    let fixed = RunOutcome::Completed(trace("hello\n", "", 101));

    let result = validator.validate(original, fixed);
    assert!(!result.success);
}

#[test]
fn compile_failure_fails_without_traces() {
    let validator = Validator::new("a.rs".to_string(), "b.rs".to_string());
    let original = RunOutcome::CompileFailed;
    let fixed = RunOutcome::Completed(trace("hello\n", "", 0));

    let result = validator.validate(original, fixed);
    assert!(!result.success);
    assert!(result.execution_traces.is_empty());
    assert_eq!(result.message, "One or both versions failed to compile");
}

#[test]
fn timeout_is_a_distinct_failure() {
    let validator = Validator::new("a.rs".to_string(), "b.rs".to_string());
    let original = RunOutcome::Completed(trace("hello\n", "", 0));
    let fixed = RunOutcome::TimedOut;

    let result = validator.validate(original, fixed);
    assert!(!result.success);
    assert_eq!(result.message, "Validation failed: execution timed out");
}

#[test]
fn compare_traces_ignores_stderr() {
    let validator = Validator::new("a.rs".to_string(), "b.rs".to_string());
    let a = trace("same\n", "noise\n", 0);
    let b = trace("same\n", "other noise\n", 0);
    assert!(validator.compare_traces(&a, &b));

    let c = trace("same\n", "", 1);
    assert!(!validator.compare_traces(&a, &c));
}
