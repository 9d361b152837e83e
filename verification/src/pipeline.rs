//! A named pipeline: the parsed stages of one expression, the derived
//! file-system locations, and — once spawned — the identifiers of its
//! live processes.

use vstd::prelude::*;

use crate::chain::ChainBuilder;
use crate::chain::HeadStdinPolicy;
use crate::chain::StageWiring;
use crate::chain::plan_chain;
use crate::chain::wiring_ok;
use crate::errors::PipelineError;
use crate::paths::LOGGING_DIR;
use crate::paths::METADATA_DIR;
use crate::paths::joined;
use crate::paths::logging_dir_for;
use crate::paths::metadata_dir_for;
use crate::paths::pid_file_in;
use crate::paths::pid_record_path;
use crate::pidstr::decimal_digits;
use crate::pidstr::digits_value;
use crate::pidstr::format_pid;
use crate::pidstr::is_digits;
use crate::pidstr::parse_pid;
use crate::supervisor::Supervisor;
use crate::tokenizer::PipelineCommand;
use crate::tokenizer::lemma_split_pipe_len;
use crate::tokenizer::parse_ok;
use crate::tokenizer::parse_raw_pipeline;
use crate::tokenizer::parsed_pipeline;

verus! {

/// A named instance of a parsed pipeline expression.
pub struct Pipeline {
    /// The unique name of this instance: it keys every path and every
    /// metadata record.
    pub name: String,
    /// The original expression, kept for diagnostics.
    pub raw_pipeline: String,
    /// The parsed stages, head first; immutable after parse.
    pub commands: Vec<PipelineCommand>,
    /// The identifiers of the spawned processes, one per stage and in
    /// stage order; empty until the chain is spawned.
    pub jobs: Vec<u32>,
    /// Where this pipeline's head-pid record lives.
    pub metadata_dir: String,
    /// Where this pipeline's stages log their standard error.
    pub logging_dir: String,
}

impl Pipeline {
    /// What every constructor establishes and every method preserves:
    /// the stages are exactly what the expression parses to, the two
    /// directories are the deterministic ones of the name, and the
    /// process list is empty or full.
    pub open spec fn wf(self) -> bool {
        &&& parse_ok(self.raw_pipeline@)
        &&& parsed_pipeline(self.raw_pipeline@, self.commands@)
        &&& self.commands@.len() > 0
        &&& self.metadata_dir@ == joined(METADATA_DIR@, self.name@)
        &&& self.logging_dir@ == joined(LOGGING_DIR@, self.name@)
        &&& self.jobs@.len() == 0 || self.jobs@.len() == self.commands@.len()
    }

    /// Whether every stage has been spawned and recorded.
    pub open spec fn spawned(self) -> bool {
        self.jobs@.len() == self.commands@.len()
    }

    /// Builds a pipeline from its name and its raw expression.  Succeeds
    /// exactly when the expression parses: every pipe-separated segment
    /// yields at least one shell word.  The embedding program creates
    /// the two directories this names.
    pub fn new(name: String, raw_pipeline: String) -> (r: Result<Pipeline, PipelineError>)
        ensures
            r is Ok <==> parse_ok(raw_pipeline@),
            r matches Ok(p) ==> {
                &&& p.wf()
                &&& p.name@ == name@
                &&& p.raw_pipeline@ == raw_pipeline@
                &&& p.jobs@.len() == 0
                &&& parsed_pipeline(raw_pipeline@, p.commands@)
            },
            r matches Err(e) ==> e is ParseError,
    {
        let commands = match parse_raw_pipeline(raw_pipeline.as_str()) {
            Ok(c) => c,
            Err(e) => { return Err(e); },
        };
        let metadata_dir = metadata_dir_for(name.as_str());
        let logging_dir = logging_dir_for(name.as_str());
        proof {
            lemma_split_pipe_len(raw_pipeline@);
        }
        Ok(
            Pipeline {
                name,
                raw_pipeline,
                commands,
                jobs: Vec::new(),
                metadata_dir,
                logging_dir,
            },
        )
    }

    pub fn get_name(&self) -> (r: String)
        ensures
            r@ == self.name@,
    {
        self.name.clone()
    }

    /// The head stage's process identifier, in the decimal form the
    /// head-pid record stores.
    pub fn get_first_pid(&self) -> (r: String)
        requires
            self.jobs@.len() > 0,
        ensures
            r@ == decimal_digits(self.jobs@[0] as nat),
    {
        format_pid(self.jobs[0])
    }

    /// The stream wiring of this pipeline's stages, under the given
    /// policy for the head stage's input.
    pub fn plan(&self, head_stdin: HeadStdinPolicy) -> (plan: Vec<StageWiring>)
        requires
            self.wf(),
        ensures
            wiring_ok(self.commands@, self.logging_dir@, head_stdin, plan@),
    {
        plan_chain(&self.commands, self.logging_dir.as_str(), head_stdin)
    }

    /// A spawn-sequencing builder over this pipeline's stages.
    pub fn make_builder(&self) -> (b: ChainBuilder)
        requires
            self.wf(),
        ensures
            b.wf(),
            b.names_view().len() == self.commands@.len(),
            forall|i: int|
                0 <= i < self.commands@.len() ==> b.names_view()[i] == self.commands@[i].name,
            b.pids_view().len() == 0,
    {
        let n = self.commands.len();
        let mut names: Vec<String> = Vec::new();
        let mut i: usize = 0;
        while i < n
            invariant
                0 <= i <= n,
                n == self.commands@.len(),
                names@.len() == i,
                forall|k: int| 0 <= k < i ==> names@[k] == self.commands@[k].name,
            decreases n - i,
        {
            names.push(self.commands[i].name.clone());
            i = i + 1;
        }
        ChainBuilder::new(names)
    }

    /// Records the spawned chain, head first.
    pub fn record_jobs(&mut self, jobs: Vec<u32>)
        requires
            old(self).wf(),
            old(self).jobs@.len() == 0,
            jobs@.len() == old(self).commands@.len(),
        ensures
            final(self).wf(),
            final(self).spawned(),
            final(self).jobs@ == jobs@,
            final(self).name == old(self).name,
            final(self).raw_pipeline == old(self).raw_pipeline,
            final(self).commands == old(self).commands,
            final(self).metadata_dir == old(self).metadata_dir,
            final(self).logging_dir == old(self).logging_dir,
    {
        self.jobs = jobs;
    }

    /// A supervisor owning this pipeline's spawned chain.
    pub fn make_supervisor(&self) -> (sup: Supervisor)
        requires
            self.wf(),
            self.spawned(),
        ensures
            sup.wf(),
            sup.pids_view() == self.jobs@,
            sup.waited_count() == 0,
            !sup.shutdown_requested(),
            !sup.head_signaled(),
    {
        let n = self.jobs.len();
        let mut pids: Vec<u32> = Vec::new();
        let mut i: usize = 0;
        while i < n
            invariant
                0 <= i <= n,
                n == self.jobs@.len(),
                pids@.len() == i,
                forall|k: int| 0 <= k < i ==> pids@[k] == self.jobs@[k],
            decreases n - i,
        {
            pids.push(self.jobs[i]);
            i = i + 1;
        }
        proof {
            assert(pids@ =~= self.jobs@);
        }
        Supervisor::new(pids)
    }

    /// The path of this pipeline's head-pid record.
    pub fn pid_file(&self) -> (r: String)
        ensures
            r@ == pid_record_path(self.metadata_dir@),
    {
        pid_file_in(self.metadata_dir.as_str())
    }

    /// Decides a stop request from what reading the head-pid record
    /// yielded.  An absent record means the pipeline is not running:
    /// `NotFound`, the documented, expected outcome.  A present record
    /// must hold a decimal process identifier; the returned identifier
    /// is the one the termination signal is to be sent to.  A record
    /// that does not parse is a corrupt store: an I/O failure.
    pub fn stop_target(record: Option<&str>) -> (r: Result<u32, PipelineError>)
        ensures
            record is None ==> (r matches Err(e) && e is NotFound),
            record matches Some(s) ==> {
                &&& (r is Ok <==> is_digits(s@) && digits_value(s@) <= u32::MAX)
                &&& (r matches Ok(pid) ==> pid as nat == digits_value(s@))
                &&& (r matches Err(e) ==> e is IoError)
            },
    {
        match record {
            None => Err(PipelineError::NotFound),
            Some(s) => match parse_pid(s) {
                Some(pid) => Ok(pid),
                None => Err(PipelineError::IoError),
            },
        }
    }
}

} // verus!
