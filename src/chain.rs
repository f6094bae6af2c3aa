//! The decisions that launch a pipeline of processes, one stage after the
//! other from left to right, each reading the output of the one before it.
//! Whoever drives the processes asks for the next action, performs it, and
//! reports how a launch went.
use vstd::prelude::*;

verus! {

/// What the driver of a pipeline does next.
#[derive(Debug, Clone, Copy, PartialEq, Eq, Structural)]
pub enum Action {
    /// Start the process of stage `stage`. Where `piped_input` holds, its
    /// input is the unread output of stage `stage - 1`, handed over whole;
    /// else it reads nothing from the pipeline. Its output is always captured.
    Spawn { stage: usize, piped_input: bool },
    /// Wait for the last stage, `stage`, and take its captured output.
    Collect { stage: usize },
    /// A launch failed: stop the `spawned` stages that were started, and
    /// report the failure.
    Abort { spawned: usize },
}

/// The progress of launching a pipeline.
pub struct ChainRun {
    stages: usize,
    spawned: usize,
    failed: bool,
}

impl ChainRun {
    /// The number of stages of the pipeline.
    pub closed spec fn stage_count(&self) -> nat {
        self.stages as nat
    }

    /// The number of stages started so far.
    pub closed spec fn spawned_count(&self) -> nat {
        self.spawned as nat
    }

    /// Whether a launch has failed.
    pub closed spec fn has_failed(&self) -> bool {
        self.failed
    }

    /// A run has at least one stage and never starts more than it has.
    pub closed spec fn wf(&self) -> bool {
        1 <= self.stages && self.spawned <= self.stages
    }

    /// The action that the state of a run calls for.
    pub open spec fn action_spec(&self) -> Action {
        if self.has_failed() {
            Action::Abort { spawned: self.spawned_count() as usize }
        } else if self.spawned_count() < self.stage_count() {
            Action::Spawn {
                stage: self.spawned_count() as usize,
                piped_input: self.spawned_count() > 0,
            }
        } else {
            Action::Collect { stage: (self.stage_count() - 1) as usize }
        }
    }

    /// Stages start strictly left to right: the stage started next is the
    /// first one not yet started, and it reads the output of the one before
    /// it whenever there is one; the last stage is collected only once every
    /// stage has started.
    pub proof fn lemma_launch_order(&self)
        requires
            self.wf(),
            !self.has_failed(),
        ensures
            self.action_spec() matches Action::Spawn { stage, piped_input } ==> {
                &&& stage == self.spawned_count()
                &&& stage < self.stage_count()
                &&& piped_input <==> stage > 0
            },
            self.action_spec() matches Action::Collect { stage } ==> {
                &&& self.spawned_count() == self.stage_count()
                &&& stage + 1 == self.stage_count()
            },
            !(self.action_spec() is Abort),
    {
    }

    /// A run of a pipeline of `stages` stages, none started yet.
    pub fn new(stages: usize) -> (r: ChainRun)
        requires
            stages >= 1,
        ensures
            r.wf(),
            r.stage_count() == stages,
            r.spawned_count() == 0,
            !r.has_failed(),
    {
        ChainRun { stages, spawned: 0, failed: false }
    }

    /// The next action: start the first stage not yet started, reading the
    /// output of the one before it; once all are started, collect the last;
    /// after a failed launch, abort.
    pub fn next_action(&self) -> (r: Action)
        requires
            self.wf(),
        ensures
            r == self.action_spec(),
    {
        if self.failed {
            Action::Abort { spawned: self.spawned }
        } else if self.spawned < self.stages {
            Action::Spawn { stage: self.spawned, piped_input: self.spawned > 0 }
        } else {
            Action::Collect { stage: self.stages - 1 }
        }
    }

    /// Records how the launch of the stage that `next_action` named went.
    pub fn record_spawn(&mut self, started: bool)
        requires
            old(self).wf(),
            !old(self).has_failed(),
            old(self).spawned_count() < old(self).stage_count(),
        ensures
            final(self).wf(),
            final(self).stage_count() == old(self).stage_count(),
            started ==> final(self).spawned_count() == old(self).spawned_count() + 1
                && !final(self).has_failed(),
            !started ==> final(self).spawned_count() == old(self).spawned_count()
                && final(self).has_failed(),
    {
        if started {
            self.spawned = self.spawned + 1;
        } else {
            self.failed = true;
        }
    }
}

} // verus!
