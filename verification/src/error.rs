//! The failure taxonomy. None of these are retried or recovered: the
//! first one encountered aborts the run, and already-performed side
//! effects are left for a later run to detect and reuse.

use vstd::prelude::*;
use vstd::string::*;

verus! {

/// Why a run aborted.
#[derive(Clone, Copy, Debug, PartialEq, Eq, Structural)]
pub enum StackError {
    /// A collaborator process could not be started.
    ExternalToolInvocation,
    /// A collaborator ran but failed, or did not deliver what it had
    /// promised.
    ExternalToolFailure,
    /// A collaborator's output was not in the expected shape.
    Parse,
    /// An entry requires a bookmark that is missing.
    Config,
    /// The editing step exited with a failure.
    EditAbort,
}

impl StackError {
    /// A short description of the failure, for the error stream.
    pub fn message(&self) -> (r: String)
        ensures
            r@ == match self {
                StackError::ExternalToolInvocation => "failed to start an external tool"@,
                StackError::ExternalToolFailure => "an external tool failed"@,
                StackError::Parse => "unexpected output from an external tool"@,
                StackError::Config => "entry requires a bookmark but none is set"@,
                StackError::EditAbort => "editor exited with non-zero status"@,
            },
    {
        let m = match self {
            StackError::ExternalToolInvocation => "failed to start an external tool",
            StackError::ExternalToolFailure => "an external tool failed",
            StackError::Parse => "unexpected output from an external tool",
            StackError::Config => "entry requires a bookmark but none is set",
            StackError::EditAbort => "editor exited with non-zero status",
        };
        proof {
            reveal_strlit("failed to start an external tool");
            reveal_strlit("an external tool failed");
            reveal_strlit("unexpected output from an external tool");
            reveal_strlit("entry requires a bookmark but none is set");
            reveal_strlit("editor exited with non-zero status");
        }
        String::from_str(m)
    }
}

} // verus!
