//! The coordinator: the order in which the stages of the pipeline are
//! started and waited for.
//!
//! The coordinator starts the source, then the workers, then the sink. It
//! then gives up its own handle on the sending side of the convergence
//! queue, so that the queue closes when the last worker is done. After that
//! it waits for the source, for each worker, and last for the sink. A task
//! that did not finish in order ends the run: the coordinator hands out
//! nothing more.

use crate::config::Config;
use vstd::prelude::*;

verus! {

/// A stage of the pipeline that runs on its own.
#[derive(Debug, Clone, Copy, PartialEq, Eq)]
pub enum Task {
    /// The source that feeds the work queue.
    Source,
    /// The worker with this number, counted from zero.
    Worker(usize),
    /// The sink that drains the convergence queue.
    Sink,
}

/// One thing for the coordinator to do.
#[derive(Debug, Clone, Copy, PartialEq, Eq)]
pub enum Directive {
    /// Start the task.
    Spawn(Task),
    /// Give up the coordinator's sending handle of the convergence queue.
    ReleaseResults,
    /// Wait until the task has finished.
    Join(Task),
}

/// The directive at place `k` of the plan for `workers` workers.
pub open spec fn directive_at(workers: nat, k: int) -> Directive {
    if k == 0 {
        Directive::Spawn(Task::Source)
    } else if k <= workers {
        Directive::Spawn(Task::Worker((k - 1) as usize))
    } else if k == workers + 1 {
        Directive::Spawn(Task::Sink)
    } else if k == workers + 2 {
        Directive::ReleaseResults
    } else if k == workers + 3 {
        Directive::Join(Task::Source)
    } else if k <= 2 * workers + 3 {
        Directive::Join(Task::Worker((k - workers - 4) as usize))
    } else {
        Directive::Join(Task::Sink)
    }
}

/// The plan for `workers` workers: every directive, in the order in which
/// the coordinator carries them out.
pub open spec fn plan(workers: nat) -> Seq<Directive> {
    Seq::new(2 * workers + 5, |k: int| directive_at(workers, k))
}

/// Where the coordinator stands in its plan.
#[derive(Debug, Clone, Copy, PartialEq, Eq)]
enum Stage {
    SpawnSource,
    SpawnWorker(usize),
    SpawnSink,
    Release,
    JoinSource,
    JoinWorker(usize),
    JoinSink,
    Finished,
}

/// Hands out the directives of a plan one by one, until the plan is done or
/// the run is given up.
#[derive(Debug)]
pub struct Coordinator {
    workers: usize,
    stage: Stage,
    failed: Option<Task>,
}

impl Coordinator {
    #[verifier::type_invariant]
    spec fn stage_is_in_plan(self) -> bool {
        &&& self.workers >= 1
        &&& match self.stage {
            Stage::SpawnWorker(i) => i < self.workers,
            Stage::JoinWorker(i) => i < self.workers,
            _ => true,
        }
    }

    /// The number of workers of the plan.
    pub closed spec fn workers(self) -> nat {
        self.workers as nat
    }

    /// The number of directives handed out so far.
    pub closed spec fn issued(self) -> nat {
        match self.stage {
            Stage::SpawnSource => 0,
            Stage::SpawnWorker(i) => 1 + i as nat,
            Stage::SpawnSink => self.workers as nat + 1,
            Stage::Release => self.workers as nat + 2,
            Stage::JoinSource => self.workers as nat + 3,
            Stage::JoinWorker(i) => self.workers as nat + 4 + i as nat,
            Stage::JoinSink => 2 * self.workers as nat + 4,
            Stage::Finished => 2 * self.workers as nat + 5,
        }
    }

    /// The task whose failure ended the run, if the run was given up.
    pub closed spec fn failure(self) -> Option<Task> {
        self.failed
    }

    /// A coordinator at the start of the plan for the workers of `config`.
    pub fn new(config: &Config) -> (c: Coordinator)
        ensures
            c.workers() == config@.workers,
            c.issued() == 0,
            c.failure() is None,
    {
        Coordinator { workers: config.workers(), stage: Stage::SpawnSource, failed: None }
    }

    /// Gives the run up because `task` did not finish in order. The first
    /// task reported stays the one that ended the run.
    pub fn give_up(&mut self, task: Task)
        ensures
            final(self).workers() == old(self).workers(),
            final(self).issued() == old(self).issued(),
            final(self).failure() == match old(self).failure() {
                Some(first) => Some(first),
                None => Some(task),
            },
    {
        proof {
            use_type_invariant(&*self);
        }
        if self.failed.is_none() {
            self.failed = Some(task);
        }
    }

    /// The task whose failure ended the run, if the run was given up.
    pub fn failed(&self) -> (task: Option<Task>)
        ensures
            task == self.failure(),
    {
        self.failed
    }

    /// The next directive of the plan; none when the plan is done or the
    /// run was given up.
    pub fn next(&mut self) -> (d: Option<Directive>)
        ensures
            final(self).workers() == old(self).workers(),
            final(self).failure() == old(self).failure(),
            d is Some <==> old(self).failure() is None && old(self).issued() < plan(
                old(self).workers(),
            ).len(),
            match d {
                Some(directive) => {
                    &&& directive == plan(old(self).workers())[old(self).issued() as int]
                    &&& final(self).issued() == old(self).issued() + 1
                },
                None => final(self).issued() == old(self).issued(),
            },
    {
        proof {
            use_type_invariant(&*self);
        }
        if self.failed.is_some() {
            return None;
        }
        let last: usize = self.workers - 1;
        match self.stage {
            Stage::SpawnSource => {
                self.stage = Stage::SpawnWorker(0);
                Some(Directive::Spawn(Task::Source))
            },
            Stage::SpawnWorker(i) => {
                self.stage = if i < last {
                    Stage::SpawnWorker(i + 1)
                } else {
                    Stage::SpawnSink
                };
                Some(Directive::Spawn(Task::Worker(i)))
            },
            Stage::SpawnSink => {
                self.stage = Stage::Release;
                Some(Directive::Spawn(Task::Sink))
            },
            Stage::Release => {
                self.stage = Stage::JoinSource;
                Some(Directive::ReleaseResults)
            },
            Stage::JoinSource => {
                self.stage = Stage::JoinWorker(0);
                Some(Directive::Join(Task::Source))
            },
            Stage::JoinWorker(i) => {
                self.stage = if i < last {
                    Stage::JoinWorker(i + 1)
                } else {
                    Stage::JoinSink
                };
                Some(Directive::Join(Task::Worker(i)))
            },
            Stage::JoinSink => {
                self.stage = Stage::Finished;
                Some(Directive::Join(Task::Sink))
            },
            Stage::Finished => None,
        }
    }
}

/// The order of a plan. No directive occurs twice. Every start comes
/// before the release of the coordinator's handle of the convergence queue,
/// and the release before every wait: so each task is started before it is
/// waited for. The source is waited for first, the sink last.
pub proof fn lemma_plan_order(workers: nat, j: int, k: int)
    requires
        0 <= j < plan(workers).len(),
        0 <= k < plan(workers).len(),
        workers <= usize::MAX,
    ensures
        plan(workers)[j] == plan(workers)[k] ==> j == k,
        plan(workers)[j] is Spawn && plan(workers)[k] is ReleaseResults ==> j < k,
        plan(workers)[j] is ReleaseResults && plan(workers)[k] is Join ==> j < k,
        plan(workers)[j] == Directive::Join(Task::Source) && plan(workers)[k] is Join ==> j <= k,
        plan(workers)[j] is Join && plan(workers)[k] == Directive::Join(Task::Sink) ==> j <= k,
{
}

/// Every task of a plan has its start and its wait in the plan, and the
/// plan holds the release.
pub proof fn lemma_plan_is_complete(workers: nat, i: usize)
    requires
        i < workers,
    ensures
        plan(workers).contains(Directive::Spawn(Task::Source)),
        plan(workers).contains(Directive::Spawn(Task::Worker(i))),
        plan(workers).contains(Directive::Spawn(Task::Sink)),
        plan(workers).contains(Directive::ReleaseResults),
        plan(workers).contains(Directive::Join(Task::Source)),
        plan(workers).contains(Directive::Join(Task::Worker(i))),
        plan(workers).contains(Directive::Join(Task::Sink)),
{
    let p = plan(workers);
    let w = workers as int;
    assert(p[0] == Directive::Spawn(Task::Source));
    assert(p[1 + i] == Directive::Spawn(Task::Worker(i)));
    assert(p[w + 1] == Directive::Spawn(Task::Sink));
    assert(p[w + 2] == Directive::ReleaseResults);
    assert(p[w + 3] == Directive::Join(Task::Source));
    assert(p[w + 4 + i] == Directive::Join(Task::Worker(i)));
    assert(p[2 * w + 4] == Directive::Join(Task::Sink));
}

} // verus!
