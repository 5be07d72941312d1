//! What a run of an outside tool came to, and the errors of the gateway.
use vstd::prelude::*;

verus! {

/// The errors that a request to the gateway can end in.
#[derive(Debug, PartialEq, Eq)]
pub enum GatewayError {
    /// The tool could not be started; the text says why.
    SpawnFailure(String),
    /// The tool ran and failed; the text is what it wrote to stderr.
    ToolFailure(String),
    /// An import of this id is still running.
    Conflict(u128),
    /// The shared state could not be locked.
    LockFailure,
}

} // verus!

verus! {

/// What a finished tool run left behind.
#[derive(Debug)]
pub struct ProcessOutput {
    /// Whether the tool exited with status zero.
    pub success: bool,
    pub stdout: String,
    pub stderr: String,
}

/// A tool run: its output, or why it could not be started.
pub type RunOutcome = Result<ProcessOutput, String>;

/// The result that a run comes to: its output when the tool succeeded, the
/// tool's stderr when it failed, and the launch error when it never ran.
pub open spec fn run_result(outcome: RunOutcome) -> Result<ProcessOutput, GatewayError> {
    match outcome {
        Ok(out) => if out.success {
            Ok(out)
        } else {
            Err(GatewayError::ToolFailure(out.stderr))
        },
        Err(reason) => Err(GatewayError::SpawnFailure(reason)),
    }
}

/// Classifies a finished run by its exit status.
pub fn check_output(outcome: RunOutcome) -> (r: Result<ProcessOutput, GatewayError>)
    ensures
        r == run_result(outcome),
{
    match outcome {
        Ok(out) => {
            if out.success {
                Ok(out)
            } else {
                Err(GatewayError::ToolFailure(out.stderr))
            }
        },
        Err(reason) => Err(GatewayError::SpawnFailure(reason)),
    }
}

/// The text that a failed run leaves: the tool's stderr, or the launch
/// error.
pub open spec fn failure_text(e: GatewayError) -> Seq<char> {
    match e {
        GatewayError::SpawnFailure(t) => t@,
        GatewayError::ToolFailure(t) => t@,
        GatewayError::Conflict(_) => Seq::empty(),
        GatewayError::LockFailure => Seq::empty(),
    }
}

} // verus!
