//! The processor that runs jobs on the caller's own task.

use vstd::prelude::*;

verus! {

/// Why a queue of jobs could not be processed.
#[derive(Clone, Copy, Debug, PartialEq, Eq, Structural)]
pub enum JobQueueProcessorError {
    /// The queue could not be reached.
    Transport,
}

pub type JobQueueProcessorResult<T> = Result<T, JobQueueProcessorError>;

/// A processor that executes each job inline, without handing it to a queue
/// or a messaging service. It keeps no state.
#[derive(Clone, Debug, Default)]
pub struct SyncProcessor {}

impl SyncProcessor {
    /// The processor.
    pub fn new() -> (processor: SyncProcessor)
        ensures
            processor == (SyncProcessor {  }),
    {
        SyncProcessor {  }
    }

    /// Processes the queue. There is none: every job has run when it was
    /// enqueued, so this always succeeds.
    pub fn process_queue(&self) -> (r: JobQueueProcessorResult<()>)
        ensures
            r is Ok,
    {
        Ok(())
    }
}

} // verus!
