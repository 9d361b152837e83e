//! How the stages of a pipeline are wired together, and the bookkeeping
//! of spawning them one by one.
//!
//! Stages are spawned strictly in pipeline order.  Every stage but the
//! head reads from the pipe its predecessor writes; the head's input is
//! whatever the embedding program's policy says.  Every stage but the
//! tail writes into a fresh pipe handed to its successor; the tail's
//! output is inherited from the supervisor.  Each stage's standard error
//! goes to its own log file under the pipeline's logging directory.

use vstd::prelude::*;

use crate::errors::PipelineError;
use crate::paths::stderr_log_path;
use crate::paths::stderr_log_in;
use crate::tokenizer::PipelineCommand;

verus! {

/// What the head stage reads from: the supervisor's own standard
/// input, or nothing at all.
#[derive(PartialEq, Eq, Structural, Clone, Copy, Debug)]
pub enum HeadStdinPolicy {
    Inherit,
    Null,
}

/// Where a stage's standard input comes from.
pub enum StdinWire {
    /// The head stage: input follows the configured policy.
    Head(HeadStdinPolicy),
    /// Any later stage: the read end of the pipe its predecessor writes.
    FromPrevStage,
}

/// Where a stage's standard output goes.
pub enum StdoutWire {
    /// Any stage before the tail: a fresh pipe whose read end is handed
    /// to the next stage.
    ToNextStage,
    /// The tail stage: the supervisor's own standard output.
    Inherit,
}

/// The three stream connections of one stage.
pub struct StageWiring {
    pub stdin: StdinWire,
    pub stdout: StdoutWire,
    pub stderr_log: String,
}

/// The full wiring contract of a chain: one entry per stage, the head
/// on the policy input, each interior boundary a pipe, the tail writing
/// through, and every stage logging its standard error under its own
/// name.
pub open spec fn wiring_ok(
    stages: Seq<PipelineCommand>,
    logging_dir: Seq<char>,
    head_stdin: HeadStdinPolicy,
    plan: Seq<StageWiring>,
) -> bool {
    &&& plan.len() == stages.len()
    &&& forall|i: int|
        0 <= i < plan.len() ==> {
            &&& ((#[trigger] plan[i]).stdin == StdinWire::Head(head_stdin) <==> i == 0)
            &&& (plan[i].stdin is FromPrevStage <==> i > 0)
            &&& (plan[i].stdout is Inherit <==> i == plan.len() - 1)
            &&& (plan[i].stdout is ToNextStage <==> i < plan.len() - 1)
            &&& plan[i].stderr_log@ == stderr_log_path(logging_dir, stages[i].name@)
        }
}

/// Plans the stream wiring of every stage of a pipeline.
pub fn plan_chain(
    stages: &Vec<PipelineCommand>,
    logging_dir: &str,
    head_stdin: HeadStdinPolicy,
) -> (plan: Vec<StageWiring>)
    requires
        stages@.len() > 0,
    ensures
        wiring_ok(stages@, logging_dir@, head_stdin, plan@),
{
    let n = stages.len();
    let mut plan: Vec<StageWiring> = Vec::new();
    let mut i: usize = 0;
    while i < n
        invariant
            0 <= i <= n,
            n == stages@.len(),
            plan@.len() == i,
            forall|k: int|
                0 <= k < i ==> {
                    &&& ((#[trigger] plan@[k]).stdin == StdinWire::Head(head_stdin) <==> k == 0)
                    &&& (plan@[k].stdin is FromPrevStage <==> k > 0)
                    &&& (plan@[k].stdout is Inherit <==> k == n - 1)
                    &&& (plan@[k].stdout is ToNextStage <==> k < n - 1)
                    &&& plan@[k].stderr_log@ == stderr_log_path(logging_dir@, stages@[k].name@)
                },
        decreases n - i,
    {
        let stdin = if i == 0 {
            StdinWire::Head(head_stdin)
        } else {
            StdinWire::FromPrevStage
        };
        let stdout = if i == n - 1 {
            StdoutWire::Inherit
        } else {
            StdoutWire::ToNextStage
        };
        let stderr_log = stderr_log_in(logging_dir, stages[i].name.as_str());
        plan.push(StageWiring { stdin, stdout, stderr_log });
        i = i + 1;
    }
    plan
}

/// The spawn sequencing of a chain: stages are started head first, and a
/// stage that fails to start aborts the attempt with an error naming the
/// failing stage — nothing is rolled back, and nothing is waited on.
pub struct ChainBuilder {
    names: Vec<String>,
    pids: Vec<u32>,
}

impl ChainBuilder {
    /// The executable names of the stages this builder is starting, in
    /// pipeline order.
    pub closed spec fn names_view(self) -> Seq<String> {
        self.names@
    }

    /// The identifiers of the stages started so far, in pipeline order.
    pub closed spec fn pids_view(self) -> Seq<u32> {
        self.pids@
    }

    pub open spec fn wf(self) -> bool {
        &&& self.names_view().len() > 0
        &&& self.pids_view().len() <= self.names_view().len()
    }

    /// Every stage has been started.
    pub open spec fn complete(self) -> bool {
        self.pids_view().len() == self.names_view().len()
    }

    pub fn new(names: Vec<String>) -> (b: ChainBuilder)
        requires
            names@.len() > 0,
        ensures
            b.wf(),
            b.names_view() == names@,
            b.pids_view().len() == 0,
    {
        ChainBuilder { names, pids: Vec::new() }
    }

    /// The index of the next stage to start, while one is left.
    pub fn next_stage(&self) -> (r: Option<usize>)
        requires
            self.wf(),
        ensures
            r is Some <==> !self.complete(),
            r matches Some(i) ==> i == self.pids_view().len(),
    {
        if self.pids.len() < self.names.len() {
            Some(self.pids.len())
        } else {
            None
        }
    }

    /// Records that the next stage started, under the given process
    /// identifier.
    pub fn on_spawned(&mut self, pid: u32)
        requires
            old(self).wf(),
            !old(self).complete(),
        ensures
            final(self).wf(),
            final(self).names_view() == old(self).names_view(),
            final(self).pids_view() == old(self).pids_view() + seq![pid],
    {
        self.pids.push(pid);
    }

    /// Records that the next stage could not be started: the whole
    /// attempt fails with an error naming the failing stage's index and
    /// executable, before anything is waited on.
    pub fn on_spawn_failed(&self) -> (e: PipelineError)
        requires
            self.wf(),
            !self.complete(),
        ensures
            e matches PipelineError::SpawnError { stage_index, name } && stage_index
                == self.pids_view().len() && name == self.names_view()[
                self.pids_view().len() as int
            ],
    {
        let i = self.pids.len();
        PipelineError::SpawnError { stage_index: i, name: self.names[i].clone() }
    }

    /// Hands the started chain over, head first, once every stage runs.
    pub fn finish(self) -> (pids: Vec<u32>)
        requires
            self.wf(),
            self.complete(),
        ensures
            pids@ == self.pids_view(),
            pids@.len() == self.names_view().len(),
    {
        self.pids
    }
}

} // verus!
