//! Post-install and pre-remove scripts declared in a rice's `pipeline.toml`.

use vstd::prelude::*;
use vstd::string::StringExecFns;
use crate::config::Paths;
use crate::error::RiceForgeError;
use crate::paths::{join, path_join};

verus! {

/// When a step runs.
#[derive(Clone, Copy, Debug, PartialEq, Eq, Structural)]
pub enum PipelineWhen {
    Install,
    Remove,
    Always,
}

impl Default for PipelineWhen {
    /// Steps run at every phase unless they say otherwise.
    fn default() -> (r: PipelineWhen)
        ensures
            r == PipelineWhen::Always,
    {
        PipelineWhen::Always
    }
}

/// One shell command of a pipeline.
#[derive(Clone, Debug, PartialEq)]
pub struct PipelineStep {
    pub name: String,
    pub run: String,
    pub when: PipelineWhen,
}

/// The steps of a rice's pipeline, in order.
#[derive(Clone, Debug, PartialEq)]
pub struct Pipeline {
    pub steps: Vec<PipelineStep>,
}

/// A step runs at `phase` when it runs always or at that phase.
pub open spec fn runs_at(when: PipelineWhen, phase: PipelineWhen) -> bool {
    when == PipelineWhen::Always || when == phase
}

/// `order` lists, in increasing order, exactly the positions of the steps
/// that run at `phase`.
pub open spec fn selected_steps(order: Seq<usize>, steps: Seq<PipelineStep>, phase: PipelineWhen) -> bool {
    &&& forall|k: int| 0 <= k < order.len() ==> order[k] < steps.len() && runs_at(steps[order[k] as int].when, phase)
    &&& forall|k: int, l: int| 0 <= k < l < order.len() ==> order[k] < order[l]
    &&& forall|j: int| 0 <= j < steps.len() && runs_at(steps[j].when, phase) ==> order.contains(j as usize)
}

/// Law: the steps a phase runs are, in pipeline order, exactly those marked
/// to run always and those marked for that phase.
pub proof fn lemma_selected_steps_by_marking(order: Seq<usize>, steps: Seq<PipelineStep>, phase: PipelineWhen)
    requires
        selected_steps(order, steps, phase),
    ensures
        forall|k: int| 0 <= k < order.len() ==> (#[trigger] steps[order[k] as int]).when == PipelineWhen::Always
            || steps[order[k] as int].when == phase,
        forall|j: int|
            0 <= j < steps.len() && ((#[trigger] steps[j]).when == PipelineWhen::Always || steps[j].when == phase)
                ==> order.contains(j as usize),
        forall|k: int, l: int| 0 <= k < l < order.len() ==> order[k] < order[l],
{
}

/// Running pipelines.
pub struct PipelineManager;

impl PipelineManager {
    /// Where a rice's pipeline file is, given the rices directory:
    /// `<rices_dir>/<rice_id>/pipeline.toml`.
    pub fn pipeline_path_in(rices_dir: &str, rice_id: &str) -> (r: String)
        ensures
            r@ == path_join(path_join(rices_dir@, rice_id@), "pipeline.toml"@),
    {
        let dir = join(rices_dir, rice_id);
        join(dir.as_str(), "pipeline.toml")
    }

    /// The directory steps run in, given the rices directory: the rice's
    /// repository, `<rices_dir>/<rice_id>`.
    pub fn work_dir_in(rices_dir: &str, rice_id: &str) -> (r: String)
        ensures
            r@ == path_join(rices_dir@, rice_id@),
    {
        join(rices_dir, rice_id)
    }

    /// Where a rice's pipeline file is: `pipeline.toml` in its repository.
    pub fn pipeline_path(rice_id: &str) -> (r: String)
        ensures
            exists|base: Option<Seq<char>>|
                r@ == path_join(
                    path_join(path_join(crate::config::app_dir_under(base), "rices"@), rice_id@),
                    "pipeline.toml"@,
                ),
    {
        let root = Paths::rices_dir();
        Self::pipeline_path_in(root.as_str(), rice_id)
    }

    /// The directory steps run in: the rice's repository.
    pub fn work_dir(rice_id: &str) -> (r: String)
        ensures
            exists|base: Option<Seq<char>>|
                r@ == path_join(path_join(crate::config::app_dir_under(base), "rices"@), rice_id@),
    {
        let root = Paths::rices_dir();
        Self::work_dir_in(root.as_str(), rice_id)
    }

    /// Whether a step runs at `phase`.
    pub fn should_run(step: &PipelineStep, phase: &PipelineWhen) -> (r: bool)
        ensures
            r == runs_at(step.when, *phase),
    {
        !(step.when != PipelineWhen::Always && step.when != *phase)
    }

    /// The positions of the steps that run at `phase`, in order.
    pub fn run_steps(pipeline: &Pipeline, phase: &PipelineWhen) -> (r: Vec<usize>)
        ensures
            selected_steps(r@, pipeline.steps@, *phase),
    {
        let mut r: Vec<usize> = Vec::new();
        let mut i: usize = 0;
        while i < pipeline.steps.len()
            invariant
                i <= pipeline.steps@.len(),
                forall|k: int| 0 <= k < r@.len() ==> r@[k] < i && runs_at(pipeline.steps@[r@[k] as int].when, *phase),
                forall|k: int, l: int| 0 <= k < l < r@.len() ==> r@[k] < r@[l],
                forall|j: int| 0 <= j < i && runs_at(pipeline.steps@[j].when, *phase) ==> r@.contains(j as usize),
            decreases pipeline.steps@.len() - i,
        {
            if Self::should_run(&pipeline.steps[i], phase) {
                let ghost r0 = r@;
                r.push(i);
                assert forall|j: int| 0 <= j < i + 1 && runs_at(pipeline.steps@[j].when, *phase) implies r@.contains(j as usize) by {
                    if j < i {
                        assert(r0.contains(j as usize));
                        let k = choose|k: int| 0 <= k < r0.len() && r0[k] == j as usize;
                        assert(r@[k] == j as usize);
                    } else {
                        assert(r@[r@.len() - 1] == j as usize);
                    }
                }
            }
            i = i + 1;
        }
        r
    }

    /// The error for a step whose shell could not be started.
    pub fn launch_error(step: &PipelineStep, detail: &str) -> (r: RiceForgeError)
        ensures
            r matches RiceForgeError::Pipeline(m) && m@ == "step '"@ + step.name@ + "' failed to launch: "@ + detail@,
    {
        RiceForgeError::Pipeline(
            String::from_str("step '").concat(step.name.as_str()).concat("' failed to launch: ").concat(detail),
        )
    }

    /// The error for a step that exited unsuccessfully.
    pub fn exit_error(step: &PipelineStep, status: &str) -> (r: RiceForgeError)
        ensures
            r matches RiceForgeError::Pipeline(m) && m@ == "step '"@ + step.name@ + "' exited with "@ + status@,
    {
        RiceForgeError::Pipeline(
            String::from_str("step '").concat(step.name.as_str()).concat("' exited with ").concat(status),
        )
    }
}

/// Running a pipeline's steps for one phase, in order, stopping at the
/// first step that cannot be started or exits unsuccessfully. `order` holds
/// the positions of the steps to run (as `run_steps` gives them), `done`
/// how many have succeeded, and `failure` the error that stopped the run.
pub struct PipelineRun {
    pub order: Vec<usize>,
    pub done: usize,
    pub failure: Option<RiceForgeError>,
}

impl PipelineRun {
    /// The run of `pipeline` at `phase`, before any step.
    pub fn start(pipeline: &Pipeline, phase: &PipelineWhen) -> (r: PipelineRun)
        ensures
            selected_steps(r.order@, pipeline.steps@, *phase),
            r.done == 0,
            r.failure is None,
    {
        let order = PipelineManager::run_steps(pipeline, phase);
        PipelineRun { order, done: 0, failure: None }
    }

    /// The position of the next step to run; `None` once every step has
    /// succeeded or one has failed.
    pub fn next(&self) -> (r: Option<usize>)
        ensures
            r == if self.failure is None && self.done < self.order@.len() {
                Some(self.order@[self.done as int])
            } else {
                None
            },
    {
        if self.failure.is_none() && self.done < self.order.len() {
            Some(self.order[self.done])
        } else {
            None
        }
    }

    /// The run after the outcome of its next step, `step`: `launch` is why
    /// its shell could not be started, if it could not; `status` describes
    /// how it exited. A run that is over is left as it is.
    pub fn record(self, step: &PipelineStep, launch: Option<String>, success: bool, status: &str) -> (r: PipelineRun)
        ensures
            r.order == self.order,
            !(self.failure is None && self.done < self.order@.len()) ==> r == self,
            self.failure is None && self.done < self.order@.len() ==> match launch {
                Some(d) => r.done == self.done && (r.failure matches Some(RiceForgeError::Pipeline(m))
                    && m@ == "step '"@ + step.name@ + "' failed to launch: "@ + d@),
                None => if success {
                    r.done == self.done + 1 && r.failure is None
                } else {
                    r.done == self.done && (r.failure matches Some(RiceForgeError::Pipeline(m))
                        && m@ == "step '"@ + step.name@ + "' exited with "@ + status@)
                },
            },
    {
        if !(self.failure.is_none() && self.done < self.order.len()) {
            return self;
        }
        match launch {
            Some(d) => {
                let e = PipelineManager::launch_error(step, d.as_str());
                PipelineRun { failure: Some(e), ..self }
            },
            None => {
                if success {
                    let done = self.done + 1;
                    PipelineRun { done, ..self }
                } else {
                    let e = PipelineManager::exit_error(step, status);
                    PipelineRun { failure: Some(e), ..self }
                }
            },
        }
    }

    /// The result of a finished run: the error that stopped it, or success.
    pub fn finish(self) -> (r: Result<(), RiceForgeError>)
        ensures
            match self.failure {
                Some(e) => r == Err::<(), RiceForgeError>(e),
                None => r is Ok,
            },
    {
        match self.failure {
            Some(e) => Err(e),
            None => Ok(()),
        }
    }
}

} // verus!
