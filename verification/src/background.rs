//! The background transfer manager: a stub collaborator. The engines spawn
//! their tasks independently; every operation here reports that.

use vstd::prelude::*;

verus! {

use crate::errors::ErrorKind;
use crate::errors::SpError;
use crate::errors::SpResult;
use crate::errors::err_not_implemented;

/// The kind of a queued task.
#[derive(Clone, Copy, Debug, PartialEq, Eq, Structural)]
pub enum TaskKind {
    Upload,
    Download,
}

/// A task submission.
#[derive(Clone, Debug)]
pub struct TaskSpec {
    pub kind: TaskKind,
    pub id: String,
    pub priority: i32,
}

/// Concurrency caps for the scheduler.
#[derive(Clone, Copy, Debug, PartialEq, Eq, Structural)]
pub struct ConcurrencyLimits {
    pub per_task_parts: u8,
    pub global_active_tasks: u8,
}

/// A transfer-rate cap.
#[derive(Clone, Copy, Debug, PartialEq, Eq, Structural)]
pub struct RateLimitConfig {
    pub max_bytes_per_sec: Option<u64>,
}

/// The stub manager.
pub struct BackgroundManager;

impl BackgroundManager {
    /// Submitting a task is a stub.
    pub fn submit(_task: TaskSpec, now: i64) -> (r: SpResult<()>)
        ensures
            r matches Err(e) && e.kind == ErrorKind::NotImplemented,
    {
        Err(err_not_implemented("bg.submit not implemented", now))
    }

    /// Setting limits is a stub.
    pub fn set_limits(_limits: ConcurrencyLimits, _rate: RateLimitConfig, now: i64) -> (r: SpResult<
        (),
    >)
        ensures
            r matches Err(e) && e.kind == ErrorKind::NotImplemented,
    {
        Err(err_not_implemented("bg.set_limits not implemented", now))
    }

    /// Pausing everything is a stub.
    pub fn global_pause(now: i64) -> (r: SpResult<()>)
        ensures
            r matches Err(e) && e.kind == ErrorKind::NotImplemented,
    {
        Err(err_not_implemented("bg.global_pause not implemented", now))
    }

    /// Resuming everything is a stub.
    pub fn global_resume(now: i64) -> (r: SpResult<()>)
        ensures
            r matches Err(e) && e.kind == ErrorKind::NotImplemented,
    {
        Err(err_not_implemented("bg.global_resume not implemented", now))
    }

    /// Clearing finished tasks is a stub.
    pub fn clear_completed(now: i64) -> (r: SpResult<()>)
        ensures
            r matches Err(e) && e.kind == ErrorKind::NotImplemented,
    {
        Err(err_not_implemented("bg.clear_completed not implemented", now))
    }
}

} // verus!
