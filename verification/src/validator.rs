//! Differential validation: given the outcomes of compiling and running an
//! original program and its rectified counterpart, decide whether the repair
//! preserved the program's observable behaviour.
//!
//! Compilation and process execution happen outside this crate; the caller
//! hands in one [`RunOutcome`] per program and this module renders the
//! verdict. Standard output and exit status must agree for the validation to
//! succeed; standard error is recorded but never compared, since a rectified
//! program is expected to emit extra overflow-prevention diagnostics.

use vstd::prelude::*;
use vstd::string::StringExecFns;

verus! {

/// Observable behaviour captured from one program execution.
pub struct ExecutionTrace {
    pub stdout: String,
    pub stderr: String,
    pub exit_code: i32,
}

/// What happened when one program source was compiled and executed.
pub enum RunOutcome {
    /// The compiler rejected the source; nothing was executed.
    CompileFailed,
    /// The program was stopped after exceeding its time budget.
    TimedOut,
    /// The program compiled and ran to completion.
    Completed(ExecutionTrace),
}

/// Verdict of one differential validation run.
pub struct ValidationResult {
    pub success: bool,
    pub message: String,
    pub execution_traces: Vec<ExecutionTrace>,
}

/// Two traces are equivalent when their standard output and exit status
/// agree; standard error is deliberately left out of the comparison.
pub open spec fn traces_equivalent(a: ExecutionTrace, b: ExecutionTrace) -> bool {
    a.stdout@ == b.stdout@ && a.exit_code == b.exit_code
}

/// The trace of an outcome whose program ran to completion.
pub open spec fn run_trace(o: RunOutcome) -> Option<ExecutionTrace> {
    match o {
        RunOutcome::Completed(t) => Some(t),
        _ => None,
    }
}

/// Compares the behaviour of an original and a rectified program. The two
/// paths name the programs under comparison.
pub struct Validator {
    original_path: String,
    fixed_path: String,
}

impl View for Validator {
    type V = (Seq<char>, Seq<char>);

    closed spec fn view(&self) -> (Seq<char>, Seq<char>) {
        (self.original_path@, self.fixed_path@)
    }
}

impl Validator {
    pub fn new(original_path: String, fixed_path: String) -> (v: Validator)
        ensures
            v@ == (original_path@, fixed_path@),
    {
        Validator { original_path, fixed_path }
    }

    /// True exactly when standard output and exit status agree.
    pub fn compare_traces(&self, original: &ExecutionTrace, fixed: &ExecutionTrace) -> (r: bool)
        ensures
            r == traces_equivalent(*original, *fixed),
    {
        original.stdout == fixed.stdout && original.exit_code == fixed.exit_code
    }

    /// Renders the validation verdict from the two run outcomes. Equivalence
    /// is certified only when both programs compiled, both ran to
    /// completion, and their traces agree; a compilation failure or a
    /// timeout is a validation failure with its own distinct message.
    pub fn validate(&self, original: RunOutcome, fixed: RunOutcome) -> (r: ValidationResult)
        ensures
            r.success <==> (run_trace(original) is Some && run_trace(fixed) is Some
                && traces_equivalent(run_trace(original)->0, run_trace(fixed)->0)),
            (run_trace(original) is Some && run_trace(fixed) is Some)
                ==> r.execution_traces@ == seq![run_trace(original)->0, run_trace(fixed)->0],
            !(run_trace(original) is Some && run_trace(fixed) is Some)
                ==> r.execution_traces@ == Seq::<ExecutionTrace>::empty(),
            (original is CompileFailed || fixed is CompileFailed)
                ==> r.message@ == "One or both versions failed to compile"@,
            r.success ==> r.message@
                == "Validation successful: Fixed code maintains semantic equivalence"@,
            (run_trace(original) is Some && run_trace(fixed) is Some && !r.success)
                ==> r.message@ == "Validation failed: Fixed code shows different behavior"@,
    {
        match (original, fixed) {
            (RunOutcome::Completed(a), RunOutcome::Completed(b)) => {
                let matched = self.compare_traces(&a, &b);
                let message = if matched {
                    String::from_str("Validation successful: Fixed code maintains semantic equivalence")
                } else {
                    String::from_str("Validation failed: Fixed code shows different behavior")
                };
                let mut execution_traces: Vec<ExecutionTrace> = Vec::new();
                execution_traces.push(a);
                execution_traces.push(b);
                ValidationResult { success: matched, message, execution_traces }
            },
            (RunOutcome::CompileFailed, _) | (_, RunOutcome::CompileFailed) => {
                ValidationResult {
                    success: false,
                    message: String::from_str("One or both versions failed to compile"),
                    execution_traces: Vec::new(),
                }
            },
            _ => {
                ValidationResult {
                    success: false,
                    message: String::from_str("Validation failed: execution timed out"),
                    execution_traces: Vec::new(),
                }
            },
        }
    }
}

} // verus!
