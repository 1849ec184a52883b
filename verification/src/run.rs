//! Running a container through the node agent: the runtime first creates
//! the container, then starts it. The decisions between those two runtime
//! steps live here; the runtime calls themselves are the caller's.
//!
//! Running is deliberately not idempotent: creating a second container
//! under an existing name must surface the runtime's name-conflict failure,
//! never silently succeed.

use vstd::prelude::*;

verus! {

/// What a successful run returns: the created container's id.
#[derive(Debug, Clone, PartialEq, Eq)]
pub struct RunContainerResult {
    pub id: String,
}

/// The run command's body: the instance name and the image to run.
#[derive(Debug, Clone, PartialEq, Eq)]
pub struct RunContainerCommand {
    pub name: String,
    pub image: String,
}

/// Where a run command stands between the runtime's create and start steps.
#[derive(Debug, PartialEq, Eq)]
pub enum RunProgress {
    /// The container was created under this id; start comes next.
    Starting { id: String },
    /// Create and start both succeeded.
    Done { result: RunContainerResult },
    /// The runtime refused a step; the run is over.
    Failed { error: String },
}

/// Decides what follows the runtime's create step: a created container is
/// started next, a refusal (name conflict, unknown image, unreachable
/// runtime) ends the run with that failure.
pub fn on_create_result(outcome: Result<String, String>) -> (r: RunProgress)
    ensures
        (match outcome {
            Ok(id) => r == (RunProgress::Starting { id }),
            Err(e) => r == (RunProgress::Failed { error: e }),
        }),
{
    match outcome {
        Ok(id) => RunProgress::Starting { id },
        Err(e) => RunProgress::Failed { error: e },
    }
}

/// Decides what follows the runtime's start step: success completes the run
/// with the created id, a refusal ends it with that failure.
pub fn on_start_result(id: String, outcome: Result<(), String>) -> (r: RunProgress)
    ensures
        (match outcome {
            Ok(_) => r == (RunProgress::Done { result: RunContainerResult { id } }),
            Err(e) => r == (RunProgress::Failed { error: e }),
        }),
{
    match outcome {
        Ok(_) => RunProgress::Done { result: RunContainerResult { id } },
        Err(e) => RunProgress::Failed { error: e },
    }
}

} // verus!
