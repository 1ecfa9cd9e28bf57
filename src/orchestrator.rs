//! Joint termination of the pipeline's tasks: one shared shutdown signal,
//! triggered by an external request or by the first task that fails, and a
//! record of every task's terminal outcome.

use vstd::prelude::*;

verus! {

/// How a task ended.
#[derive(Clone, Copy, Debug, PartialEq, Eq, Structural)]
pub enum TaskOutcome {
    Clean,
    Failed,
}

/// The outcomes of a group of tasks that share one shutdown signal.
pub struct TaskGroup {
    outcomes: Vec<Option<TaskOutcome>>,
    shutdown: bool,
    first_failure: Option<usize>,
}

impl TaskGroup {
    /// The terminal outcome of each task, `None` while it runs.
    pub closed spec fn outcomes(&self) -> Seq<Option<TaskOutcome>> {
        self.outcomes@
    }

    /// Whether the shared shutdown signal has been triggered.
    pub closed spec fn shutdown_triggered(&self) -> bool {
        self.shutdown
    }

    /// The first task that failed, in the order outcomes were reported.
    pub closed spec fn first_failure(&self) -> Option<usize> {
        self.first_failure
    }

    /// The first failure, if any, is a task recorded as failed.
    pub closed spec fn wf(&self) -> bool {
        &&& (self.first_failure matches Some(t) ==> t < self.outcomes@.len()
            && self.outcomes@[t as int] == Some(TaskOutcome::Failed) && self.shutdown)
        &&& (self.first_failure.is_none() ==> forall|i: int|
            0 <= i < self.outcomes@.len() ==> #[trigger] self.outcomes@[i] != Some(
                TaskOutcome::Failed,
            ))
    }

    /// A group of `n` running tasks, with the signal not triggered.
    pub fn new(n: usize) -> (r: TaskGroup)
        ensures
            r.wf(),
            r.outcomes() == Seq::new(n as nat, |i: int| None::<TaskOutcome>),
            !r.shutdown_triggered(),
            r.first_failure().is_none(),
    {
        let mut outcomes: Vec<Option<TaskOutcome>> = Vec::new();
        let mut i: usize = 0;
        while i < n
            invariant
                i <= n,
                outcomes@ == Seq::new(i as nat, |k: int| None::<TaskOutcome>),
            decreases n - i,
        {
            outcomes.push(None);
            i = i + 1;
            assert(outcomes@ =~= Seq::new(i as nat, |k: int| None::<TaskOutcome>));
        }
        TaskGroup { outcomes, shutdown: false, first_failure: None }
    }

    /// Records that a shutdown was requested from outside.
    pub fn request_shutdown(&mut self)
        requires
            old(self).wf(),
        ensures
            final(self).wf(),
            final(self).shutdown_triggered(),
            final(self).outcomes() == old(self).outcomes(),
            final(self).first_failure() == old(self).first_failure(),
    {
        self.shutdown = true;
    }

    /// Whether the shared shutdown signal has been triggered.
    pub fn is_shutdown(&self) -> (r: bool)
        ensures
            r == self.shutdown_triggered(),
    {
        self.shutdown
    }

    /// Records how task `task` ended. Returns whether this report is the one
    /// that triggers the shared signal: a failure while the signal was still
    /// down. The first failure is kept to be reported.
    pub fn record(&mut self, task: usize, outcome: TaskOutcome) -> (r: bool)
        requires
            old(self).wf(),
            task < old(self).outcomes().len(),
            old(self).outcomes()[task as int].is_none(),
        ensures
            final(self).wf(),
            final(self).outcomes() == old(self).outcomes().update(task as int, Some(outcome)),
            r == (outcome == TaskOutcome::Failed && !old(self).shutdown_triggered()),
            final(self).shutdown_triggered() == (old(self).shutdown_triggered() || outcome
                == TaskOutcome::Failed),
            final(self).first_failure() == (if old(self).first_failure().is_none() && outcome
                == TaskOutcome::Failed {
                Some(task)
            } else {
                old(self).first_failure()
            }),
    {
        let ghost prev = self.outcomes@;
        self.outcomes.set(task, Some(outcome));
        let mut triggers = false;
        if outcome == TaskOutcome::Failed {
            if self.first_failure.is_none() {
                self.first_failure = Some(task);
            }
            triggers = !self.shutdown;
            self.shutdown = true;
        }
        proof {
            if self.first_failure.is_none() {
                assert forall|i: int| 0 <= i < self.outcomes@.len() implies #[trigger] self.outcomes@[i]
                    != Some(TaskOutcome::Failed) by {
                    if i != task {
                        assert(self.outcomes@[i] == prev[i]);
                    }
                }
            }
        }
        triggers
    }

    /// Whether every task has reported its outcome.
    pub fn all_done(&self) -> (r: bool)
        ensures
            r == forall|i: int| 0 <= i < self.outcomes().len() ==> #[trigger] self.outcomes()[i].is_some(),
    {
        let mut i: usize = 0;
        while i < self.outcomes.len()
            invariant
                i <= self.outcomes@.len(),
                forall|k: int| 0 <= k < i ==> #[trigger] self.outcomes@[k].is_some(),
            decreases self.outcomes@.len() - i,
        {
            if self.outcomes[i].is_none() {
                assert(!self.outcomes()[i as int].is_some());
                return false;
            }
            i = i + 1;
        }
        true
    }

    /// The group's result: the first task that failed, or success if none did.
    pub fn result(&self) -> (r: Result<(), usize>)
        requires
            self.wf(),
        ensures
            r is Ok <==> forall|i: int| 0 <= i < self.outcomes().len() ==> #[trigger] self.outcomes()[i]
                != Some(TaskOutcome::Failed),
            r matches Err(t) ==> self.first_failure() == Some(t) && self.outcomes()[t as int]
                == Some(TaskOutcome::Failed),
    {
        match self.first_failure {
            Some(t) => Err(t),
            None => Ok(()),
        }
    }
}

} // verus!
