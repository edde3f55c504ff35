//! Dynamic tier: sandboxed execution of untrusted code.
//!
//! Execution is bounded by two independent budgets, a wall-clock timeout
//! and a fuel budget, and every outcome is classified: success with
//! captured output, a runtime error inside the sandboxed code, one of the
//! two budget exhaustions, a run that produced no recognizable output, or
//! the failure to start the isolated unit at all. The isolated runtime
//! itself is stood in for by a simulation that completes at once; the
//! classification of interpreter output, used when an external interpreter
//! runs the code, is verified here as well.

use vstd::prelude::*;
use crate::model::{Issue, IssueView, Severity};
use crate::text::{contains_seq, contains_str, split_on, split_on_exec, first_with,
    first_piece_with};

verus! {

/// The simulated run's reported duration, in milliseconds.
pub const SIMULATED_DURATION_MS: u64 = 10;

/// The simulated run's reported fuel use.
pub const SIMULATED_FUEL: u64 = 500;

/// What a completed sandboxed execution produced.
#[derive(Debug)]
pub struct ExecutionResult {
    pub output: String,
    pub duration_ms: u128,
    pub fuel_consumed: u64,
}

/// Why a sandboxed execution did not complete.
#[derive(Debug)]
pub enum SandboxFailure {
    Timeout,
    FuelExhausted,
    SpawnFail,
    Runtime { message: String },
    NoOutput { stderr: String },
}

/// Mathematical model of a [`SandboxFailure`].
pub enum SandboxFailureV {
    Timeout,
    FuelExhausted,
    SpawnFail,
    Runtime(Seq<char>),
    NoOutput(Seq<char>),
}

impl View for SandboxFailure {
    type V = SandboxFailureV;

    open spec fn view(&self) -> SandboxFailureV {
        match *self {
            SandboxFailure::Timeout => SandboxFailureV::Timeout,
            SandboxFailure::FuelExhausted => SandboxFailureV::FuelExhausted,
            SandboxFailure::SpawnFail => SandboxFailureV::SpawnFail,
            SandboxFailure::Runtime { message } => SandboxFailureV::Runtime(message@),
            SandboxFailure::NoOutput { stderr } => SandboxFailureV::NoOutput(stderr@),
        }
    }
}

/// The finding one execution failure yields, each kind under its own code.
pub open spec fn execution_issue_view(f: SandboxFailureV) -> IssueView {
    match f {
        SandboxFailureV::Timeout => IssueView {
            code: "EXECUTION_TIMEOUT"@,
            message: "Execution timed out"@,
            severity: Severity::Error,
            line: 0,
            column: 0,
        },
        SandboxFailureV::FuelExhausted => IssueView {
            code: "EXECUTION_FUEL_EXHAUSTED"@,
            message: "Execution exhausted its fuel budget"@,
            severity: Severity::Error,
            line: 0,
            column: 0,
        },
        SandboxFailureV::SpawnFail => IssueView {
            code: "EXECUTION_SPAWN_FAIL"@,
            message: "Failed to spawn python interpreter"@,
            severity: Severity::Error,
            line: 0,
            column: 0,
        },
        SandboxFailureV::Runtime(message) => IssueView {
            code: "EXECUTION_ERROR"@,
            message: message,
            severity: Severity::Error,
            line: 0,
            column: 0,
        },
        SandboxFailureV::NoOutput(stderr) => IssueView {
            code: "EXECUTION_FAIL"@,
            message: "Execution failed or no output. Stderr: "@ + stderr,
            severity: Severity::Error,
            line: 0,
            column: 0,
        },
    }
}

/// Builds the finding for one execution failure.
pub fn execution_issue(f: &SandboxFailure) -> (i: Issue)
    ensures
        i@ == execution_issue_view(f@),
{
    match f {
        SandboxFailure::Timeout => Issue {
            code: "EXECUTION_TIMEOUT".to_owned(),
            message: "Execution timed out".to_owned(),
            severity: Severity::Error,
            line: 0,
            column: 0,
        },
        SandboxFailure::FuelExhausted => Issue {
            code: "EXECUTION_FUEL_EXHAUSTED".to_owned(),
            message: "Execution exhausted its fuel budget".to_owned(),
            severity: Severity::Error,
            line: 0,
            column: 0,
        },
        SandboxFailure::SpawnFail => Issue {
            code: "EXECUTION_SPAWN_FAIL".to_owned(),
            message: "Failed to spawn python interpreter".to_owned(),
            severity: Severity::Error,
            line: 0,
            column: 0,
        },
        SandboxFailure::Runtime { message } => Issue {
            code: "EXECUTION_ERROR".to_owned(),
            message: message.clone(),
            severity: Severity::Error,
            line: 0,
            column: 0,
        },
        SandboxFailure::NoOutput { stderr } => {
            let mut m: String = "Execution failed or no output. Stderr: ".to_owned();
            m.append(stderr.as_str());
            Issue {
                code: "EXECUTION_FAIL".to_owned(),
                message: m,
                severity: Severity::Error,
                line: 0,
                column: 0,
            }
        },
    }
}

/// The line reported for a runtime error: the first output line holding
/// the error sentinel, or a fixed text when none is found.
pub open spec fn error_line_of(stdout: Seq<char>) -> Seq<char> {
    match first_with(split_on(stdout, '\n'), "__EXECUTION_ERROR__"@) {
        Some(l) => l,
        None => "Unknown execution error"@,
    }
}

/// Classifies what an external interpreter run of the code produced, by
/// the sentinel markers the execution harness prints: the success sentinel
/// means a completed run with the captured output; the error sentinel
/// means a runtime error carrying its first sentinel line; output with
/// neither sentinel counts as a failed run; a run that could not be
/// spawned is its own failure kind. Duration and fuel are not observable
/// on this path and are reported as zero.
pub fn classify_interpreter_output(spawned: bool, stdout: &String, stderr: &String) -> (r: Result<
    ExecutionResult,
    SandboxFailure,
>)
    ensures
        !spawned ==> (r matches Err(f) && f@ == SandboxFailureV::SpawnFail),
        spawned && contains_seq(stdout@, "__EXECUTION_SUCCESS__"@) ==> (r matches Ok(res)
            && res.output@ == stdout@ && res.duration_ms == 0 && res.fuel_consumed == 0),
        spawned && !contains_seq(stdout@, "__EXECUTION_SUCCESS__"@) && contains_seq(
            stdout@,
            "__EXECUTION_ERROR__"@,
        ) ==> (r matches Err(f) && f@ == SandboxFailureV::Runtime(error_line_of(stdout@))),
        spawned && !contains_seq(stdout@, "__EXECUTION_SUCCESS__"@) && !contains_seq(
            stdout@,
            "__EXECUTION_ERROR__"@,
        ) ==> (r matches Err(f) && f@ == SandboxFailureV::NoOutput(stderr@)),
{
    if !spawned {
        return Err(SandboxFailure::SpawnFail);
    }
    if contains_str(stdout.as_str(), "__EXECUTION_SUCCESS__") {
        return Ok(ExecutionResult { output: stdout.clone(), duration_ms: 0, fuel_consumed: 0 });
    }
    if contains_str(stdout.as_str(), "__EXECUTION_ERROR__") {
        let lines = split_on_exec(stdout.as_str(), '\n');
        let message = match first_piece_with(&lines, "__EXECUTION_ERROR__") {
            Some(line) => line,
            None => "Unknown execution error".to_owned(),
        };
        return Err(SandboxFailure::Runtime { message });
    }
    Err(SandboxFailure::NoOutput { stderr: stderr.clone() })
}

/// An isolated execution unit with a wall-clock timeout and a fuel budget.
/// The real runtime is stood in for by a simulation.
pub struct WasmSandbox {}

impl WasmSandbox {
    /// Sets up the isolated unit; the simulation always succeeds.
    pub fn new() -> (r: Result<Self, SandboxFailure>)
        ensures
            r is Ok,
    {
        Ok(WasmSandbox {  })
    }

    /// Executes code under the two budgets. The simulated run completes at
    /// once with the success signature, a fixed duration and a fixed fuel
    /// use, whatever the code and timeout are.
    pub fn execute(&self, code: &[u8], timeout_ms: u64) -> (r: Result<
        ExecutionResult,
        SandboxFailure,
    >)
        ensures
            r matches Ok(res) && res.output@ == "Execution successful (Simulated WASM Sandbox)"@
                && res.duration_ms == SIMULATED_DURATION_MS && res.fuel_consumed == SIMULATED_FUEL,
    {
        let _ = code;
        let _ = timeout_ms;
        Ok(
            ExecutionResult {
                output: "Execution successful (Simulated WASM Sandbox)".to_owned(),
                duration_ms: SIMULATED_DURATION_MS as u128,
                fuel_consumed: SIMULATED_FUEL,
            },
        )
    }
}

} // verus!
