//! Execution of computational tasks on a worker node.
//!
//! The executor tracks which tasks are in flight, refuses new work past a
//! concurrency bound, and counts completed executions.

use crate::shared::error::ProtocolError;
use crate::shared::utils::{str_eq, timestamp_millis};
use vstd::prelude::*;

verus! {

/// Status of one task execution.
#[derive(Clone, Copy, Debug, PartialEq, Eq, Structural)]
pub enum TaskStatus {
    /// Accepted, not yet started.
    Pending,
    /// Currently executing.
    Running,
    /// Finished successfully.
    Completed,
    /// Finished with an error.
    Failed,
    /// Stopped before finishing.
    Cancelled,
}

/// Result of one task execution.
#[derive(Debug)]
pub struct ExecutionResult {
    /// The executed task.
    pub task_id: String,
    /// How the execution ended.
    pub status: TaskStatus,
    /// Output bytes, if any.
    pub output: Option<Vec<u8>>,
    /// Error message, if the execution failed.
    pub error: Option<String>,
    /// How long the execution took, milliseconds.
    pub execution_time_ms: u64,
}

/// Configuration for task execution.
#[derive(Clone, Copy, Debug, PartialEq, Eq, Structural)]
pub struct ExecutionConfig {
    /// Longest execution tolerated, milliseconds.
    pub max_execution_time_ms: u64,
    /// How many times a failed task may be retried.
    pub retry_attempts: u32,
    /// Resource budget granted to one execution, bytes.
    pub resource_limit: u64,
}

impl Default for ExecutionConfig {
    /// One minute of execution, three retries, one gigabyte.
    fn default() -> (r: Self)
        ensures
            r.max_execution_time_ms == 60000,
            r.retry_attempts == 3,
            r.resource_limit == 1073741824,
    {
        ExecutionConfig {
            max_execution_time_ms: 60000,
            retry_attempts: 3,
            resource_limit: 1073741824,
        }
    }
}

/// Most tasks the executor has in flight at once.
pub const MAX_CONCURRENT_TASKS: usize = 10;

/// The identifiers of `s` other than `id`.
pub open spec fn without_task(s: Seq<String>, id: Seq<char>) -> Seq<String> {
    s.filter(|t: String| t@ != id)
}

proof fn lemma_without_push(s: Seq<String>, x: String, id: Seq<char>)
    ensures
        x@ != id ==> without_task(s.push(x), id) == without_task(s, id).push(x),
        x@ == id ==> without_task(s.push(x), id) == without_task(s, id),
{
    reveal_with_fuel(Seq::filter, 2);
    assert(s.push(x).drop_last() =~= s);
}

/// Executes computational tasks and tracks what is in flight.
pub struct TaskExecutor {
    config: ExecutionConfig,
    active_tasks: Vec<String>,
    completed_count: u64,
}

impl TaskExecutor {
    /// The configuration the executor was created with.
    pub closed spec fn config_spec(self) -> ExecutionConfig {
        self.config
    }

    /// The identifiers of the tasks currently in flight.
    pub closed spec fn active_seq(self) -> Seq<String> {
        self.active_tasks@
    }

    /// How many executions have completed.
    pub closed spec fn completed_spec(self) -> u64 {
        self.completed_count
    }

    /// Creates an executor with no tasks in flight.
    pub fn new(config: ExecutionConfig) -> (r: Self)
        ensures
            r.config_spec() == config,
            r.active_seq() == Seq::<String>::empty(),
            r.completed_spec() == 0,
    {
        TaskExecutor { config, active_tasks: Vec::new(), completed_count: 0 }
    }

    /// Executes a task: the payload is processed and returned as the output
    /// of a completed execution, any in-flight entry under the same
    /// identifier is retired, and the completion counter grows by one
    /// (saturating).
    pub fn execute_task(&mut self, task_id: String, payload: Vec<u8>) -> (r: ExecutionResult)
        ensures
            final(self).config_spec() == old(self).config_spec(),
            final(self).active_seq() == without_task(old(self).active_seq(), task_id@),
            final(self).completed_spec() == (if old(self).completed_spec() == u64::MAX {
                u64::MAX
            } else {
                (old(self).completed_spec() + 1) as u64
            }),
            r.task_id == task_id,
            r.status == TaskStatus::Completed,
            r.output == Some(payload),
            r.error is None,
    {
        let start = timestamp_millis();
        let ghost orig = self.active_tasks@;
        let mut i: usize = 0;
        let ghost mut k: int = 0;
        while i < self.active_tasks.len()
            invariant
                self.config == old(self).config_spec(),
                self.completed_count == old(self).completed_spec(),
                0 <= k <= orig.len(),
                i as int == without_task(orig.subrange(0, k), task_id@).len(),
                self.active_tasks@ == without_task(orig.subrange(0, k), task_id@) + orig.subrange(
                    k,
                    orig.len() as int,
                ),
            decreases orig.len() - k,
        {
            proof {
                assert(self.active_tasks@[i as int] == orig[k]);
                assert(orig.subrange(0, k + 1) =~= orig.subrange(0, k).push(orig[k]));
                lemma_without_push(orig.subrange(0, k), orig[k], task_id@);
            }
            if str_eq(self.active_tasks[i].as_str(), task_id.as_str()) {
                let ghost before = self.active_tasks@;
                self.active_tasks.remove(i);
                proof {
                    k = k + 1;
                    assert(self.active_tasks@ =~= without_task(orig.subrange(0, k), task_id@)
                        + orig.subrange(k, orig.len() as int));
                }
            } else {
                i = i + 1;
                proof {
                    k = k + 1;
                    assert(self.active_tasks@ =~= without_task(orig.subrange(0, k), task_id@)
                        + orig.subrange(k, orig.len() as int));
                }
            }
        }
        proof {
            assert(orig.subrange(0, orig.len() as int) =~= orig);
            assert(self.active_tasks@ =~= without_task(orig, task_id@));
        }
        if self.completed_count < u64::MAX {
            self.completed_count = self.completed_count + 1;
        }
        let end = timestamp_millis();
        let execution_time_ms = if end >= start {
            end - start
        } else {
            0
        };
        ExecutionResult {
            task_id,
            status: TaskStatus::Completed,
            output: Some(payload),
            error: None,
            execution_time_ms,
        }
    }

    /// Notes that a task has been handed to the executor and is in flight.
    pub fn begin_task(&mut self, task_id: String)
        ensures
            final(self).config_spec() == old(self).config_spec(),
            final(self).completed_spec() == old(self).completed_spec(),
            final(self).active_seq() == old(self).active_seq().push(task_id),
    {
        self.active_tasks.push(task_id);
    }

    /// Cancels the first in-flight entry under `task_id`; fails with
    /// `NotFound` when no such task is in flight, changing nothing.
    pub fn cancel_task(&mut self, task_id: &str) -> (r: Result<(), ProtocolError>)
        ensures
            final(self).config_spec() == old(self).config_spec(),
            final(self).completed_spec() == old(self).completed_spec(),
            (forall|i: int|
                0 <= i < old(self).active_seq().len() ==> (#[trigger] old(self).active_seq()[i])@
                    != task_id@) ==> r == Err::<(), ProtocolError>(ProtocolError::NotFound)
                && *final(self) == *old(self),
            (exists|i: int|
                0 <= i < old(self).active_seq().len() && (#[trigger] old(self).active_seq()[i])@
                    == task_id@) ==> r == Ok::<(), ProtocolError>(()) && exists|i: int|
                {
                    &&& 0 <= i < old(self).active_seq().len()
                    &&& (#[trigger] old(self).active_seq()[i])@ == task_id@
                    &&& (forall|k: int|
                        0 <= k < i ==> (#[trigger] old(self).active_seq()[k])@ != task_id@)
                    &&& final(self).active_seq() == old(self).active_seq().remove(i)
                },
    {
        let n = self.active_tasks.len();
        for i in 0..n
            invariant
                *self == *old(self),
                n == self.active_tasks@.len(),
                forall|k: int| 0 <= k < i ==> (#[trigger] self.active_tasks@[k])@ != task_id@,
        {
            if str_eq(self.active_tasks[i].as_str(), task_id) {
                proof {
                    let gi = i as int;
                    assert(0 <= gi < old(self).active_seq().len() && (old(self).active_seq()[gi])@
                        == task_id@);
                }
                self.active_tasks.remove(i);
                return Ok(());
            }
        }
        Err(ProtocolError::NotFound)
    }

    /// The identifiers of the tasks currently in flight.
    pub fn get_active_tasks(&self) -> (r: Vec<String>)
        ensures
            r@ == self.active_seq(),
    {
        let n = self.active_tasks.len();
        let mut out: Vec<String> = Vec::new();
        for i in 0..n
            invariant
                n == self.active_tasks@.len(),
                out@.len() == i,
                forall|k: int| 0 <= k < i ==> #[trigger] out@[k] == self.active_tasks@[k],
        {
            out.push(self.active_tasks[i].clone());
        }
        proof {
            assert(out@ =~= self.active_tasks@);
        }
        out
    }

    /// How many executions have completed.
    pub fn get_completed_count(&self) -> (r: u64)
        ensures
            r == self.completed_spec(),
    {
        self.completed_count
    }

    /// Whether the executor has room for another task.
    pub fn can_accept_task(&self) -> (r: bool)
        ensures
            r == (self.active_seq().len() < MAX_CONCURRENT_TASKS),
    {
        self.active_tasks.len() < MAX_CONCURRENT_TASKS
    }
}

} // verus!
