//! Bounded, priority-ordered admission queue for tasks.
//!
//! Tasks are served highest priority first and first-in first-out within a
//! priority band. A requeued task goes to the *front* of its band, so it is
//! not starved by newly submitted tasks of the same priority, and its retry
//! count grows until the retry budget is exhausted.

use crate::shared::error::ProtocolError;
use crate::shared::types::{Priority, Task, TaskStatus};
use vstd::prelude::*;

verus! {

/// Priority-ordered, bounded task queue.
pub struct TaskScheduler {
    critical: Vec<Task>,
    high: Vec<Task>,
    normal: Vec<Task>,
    low: Vec<Task>,
    max_queue_size: usize,
}

/// The task as `requeue` reinserts it: back to `Pending`, one more retry on
/// the counter.
pub open spec fn requeued_task(t: Task) -> Task {
    Task { status: TaskStatus::Pending, retry_count: (t.retry_count + 1) as u32, ..t }
}

impl TaskScheduler {
    /// The queued tasks of one priority band, front first.
    pub closed spec fn band(self, p: Priority) -> Seq<Task> {
        match p {
            Priority::Critical => self.critical@,
            Priority::High => self.high@,
            Priority::Normal => self.normal@,
            Priority::Low => self.low@,
        }
    }

    /// How many tasks the queue will hold at most.
    pub closed spec fn capacity_spec(self) -> nat {
        self.max_queue_size as nat
    }

    /// How many tasks are queued over all bands.
    pub open spec fn total(self) -> nat {
        self.band(Priority::Critical).len() + self.band(Priority::High).len() + self.band(
            Priority::Normal,
        ).len() + self.band(Priority::Low).len()
    }

    /// The queue never holds more tasks than its capacity.
    pub open spec fn wf(self) -> bool {
        self.total() <= self.capacity_spec()
    }

    /// The highest priority that has a queued task; `Low` when empty.
    pub open spec fn top_priority(self) -> Priority {
        if self.band(Priority::Critical).len() > 0 {
            Priority::Critical
        } else if self.band(Priority::High).len() > 0 {
            Priority::High
        } else if self.band(Priority::Normal).len() > 0 {
            Priority::Normal
        } else {
            Priority::Low
        }
    }

    /// Creates an empty queue that holds at most `max_queue_size` tasks.
    pub fn new(max_queue_size: usize) -> (r: Self)
        ensures
            r.wf(),
            r.capacity_spec() == max_queue_size,
            forall|p: Priority| #[trigger] r.band(p) == Seq::<Task>::empty(),
    {
        TaskScheduler {
            critical: Vec::new(),
            high: Vec::new(),
            normal: Vec::new(),
            low: Vec::new(),
            max_queue_size,
        }
    }

    /// Admits a task at the back of its priority band; refuses with
    /// `QueueFull` instead of blocking when the queue is at capacity.
    pub fn schedule_task(&mut self, task: Task) -> (r: Result<(), ProtocolError>)
        requires
            old(self).wf(),
        ensures
            final(self).wf(),
            final(self).capacity_spec() == old(self).capacity_spec(),
            old(self).total() >= old(self).capacity_spec() ==> r == Err::<(), ProtocolError>(
                ProtocolError::QueueFull,
            ) && *final(self) == *old(self),
            old(self).total() < old(self).capacity_spec() ==> r == Ok::<(), ProtocolError>(())
                && final(self).band(task.priority) == old(self).band(task.priority).push(task)
                && (forall|p: Priority|
                p != task.priority ==> #[trigger] final(self).band(p) == old(self).band(p)),
    {
        if self.pending_task_count() >= self.max_queue_size {
            return Err(ProtocolError::QueueFull);
        }
        match task.priority {
            Priority::Critical => self.critical.push(task),
            Priority::High => self.high.push(task),
            Priority::Normal => self.normal.push(task),
            Priority::Low => self.low.push(task),
        }
        Ok(())
    }

    /// Reinserts a task at the *front* of its priority band with its retry
    /// count incremented, or refuses with `MaxRetriesExceeded` once the
    /// incremented count would reach `max_retries` (the task's last allowed
    /// attempt has failed), signalling the caller to dead-letter it.
    pub fn requeue(&mut self, task: Task, max_retries: u32) -> (r: Result<(), ProtocolError>)
        requires
            old(self).wf(),
        ensures
            final(self).wf(),
            final(self).capacity_spec() == old(self).capacity_spec(),
            task.retry_count + 1 >= max_retries ==> r == Err::<(), ProtocolError>(
                ProtocolError::MaxRetriesExceeded,
            ) && *final(self) == *old(self),
            task.retry_count + 1 < max_retries && old(self).total() >= old(self).capacity_spec()
                ==> r == Err::<(), ProtocolError>(ProtocolError::QueueFull) && *final(self) == *old(
                self,
            ),
            task.retry_count + 1 < max_retries && old(self).total() < old(self).capacity_spec()
                ==> r == Ok::<(), ProtocolError>(()) && final(self).band(task.priority) == old(
                self,
            ).band(task.priority).insert(0, requeued_task(task)) && (forall|p: Priority|
                p != task.priority ==> #[trigger] final(self).band(p) == old(self).band(p)),
    {
        if max_retries == 0 || task.retry_count >= max_retries - 1 {
            return Err(ProtocolError::MaxRetriesExceeded);
        }
        if self.pending_task_count() >= self.max_queue_size {
            return Err(ProtocolError::QueueFull);
        }
        let requeued = Task {
            status: TaskStatus::Pending,
            retry_count: task.retry_count + 1,
            ..task
        };
        match requeued.priority {
            Priority::Critical => self.critical.insert(0, requeued),
            Priority::High => self.high.insert(0, requeued),
            Priority::Normal => self.normal.insert(0, requeued),
            Priority::Low => self.low.insert(0, requeued),
        }
        Ok(())
    }

    /// Takes the task at the front of the highest non-empty priority band,
    /// or `None` when the queue is empty; never blocks.
    pub fn get_next_task(&mut self) -> (r: Option<Task>)
        requires
            old(self).wf(),
        ensures
            final(self).wf(),
            final(self).capacity_spec() == old(self).capacity_spec(),
            old(self).total() == 0 ==> r is None && *final(self) == *old(self),
            old(self).total() > 0 ==> {
                let p = old(self).top_priority();
                r == Some(old(self).band(p)[0]) && final(self).band(p) == old(self).band(p).remove(
                    0,
                ) && (forall|q: Priority|
                    q != p ==> #[trigger] final(self).band(q) == old(self).band(q))
            },
    {
        if !self.critical.is_empty() {
            Some(self.critical.remove(0))
        } else if !self.high.is_empty() {
            Some(self.high.remove(0))
        } else if !self.normal.is_empty() {
            Some(self.normal.remove(0))
        } else if !self.low.is_empty() {
            Some(self.low.remove(0))
        } else {
            None
        }
    }

    /// The number of tasks currently queued, over all priority bands.
    pub fn pending_task_count(&self) -> (r: usize)
        requires
            self.wf(),
        ensures
            r == self.total(),
    {
        self.critical.len() + self.high.len() + self.normal.len() + self.low.len()
    }
}

} // verus!
