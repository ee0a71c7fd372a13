//! Judging how the run of the plotting tool ended.

use vstd::prelude::*;

verus! {

/// How the attempt to run the plotting tool ended.
#[derive(Debug)]
pub enum ToolEvent {
    /// The tool could not be started, for this reason.
    NotStarted(String),
    /// The tool ran and ended with this exit code.
    Exited(i32),
    /// The tool was stopped before it could end by itself.
    Stopped,
}

/// Why no image was produced.
#[derive(Debug)]
pub enum RenderError {
    /// The plotting tool could not be started.
    ToolMissing { reason: String },
    /// The plotting tool ended with an exit code other than 0.
    ToolFailed { code: i32 },
    /// The plotting tool was stopped before it could end by itself.
    ToolStopped,
}

/// Only a run that ended with exit code 0 has produced the image; each other
/// ending is the error of its kind, with the reason or the code it came with.
pub fn judge_tool(event: ToolEvent) -> (r: Result<(), RenderError>)
    ensures
        r.is_ok() <==> (event matches ToolEvent::Exited(code) && code == 0),
        event matches ToolEvent::NotStarted(why) ==> (r matches Err(
            RenderError::ToolMissing { reason },
        ) && reason == why),
        event matches ToolEvent::Exited(code) ==> (code != 0 ==> r == Err::<(), RenderError>(
            RenderError::ToolFailed { code },
        )),
        event is Stopped ==> r == Err::<(), RenderError>(RenderError::ToolStopped),
{
    match event {
        ToolEvent::NotStarted(reason) => Err(RenderError::ToolMissing { reason }),
        ToolEvent::Exited(code) => {
            if code == 0 {
                Ok(())
            } else {
                Err(RenderError::ToolFailed { code })
            }
        },
        ToolEvent::Stopped => Err(RenderError::ToolStopped),
    }
}

} // verus!
