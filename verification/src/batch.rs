//! Laying out a batch run.
//!
//! A run takes every resolved input image in order, derives its output
//! path, and applies the one resolved style set to it at the one target
//! size. The planner fixes that shape up front: one job per input, in
//! input order, all jobs sharing the style set and the dimensions.

use vstd::prelude::*;
use crate::outpath::{output_path_of, derive_output_path};
use crate::config::Dims;

verus! {

/// One synthesis job: transform the image at `input`, writing the result
/// to `output`.
#[derive(Debug)]
pub struct Job {
    pub input: String,
    pub output: String,
}

/// `jobs` is the batch laid out for `inputs`: one job per input, in input
/// order, each writing to the input's derived output path.
pub open spec fn jobs_match_plan(jobs: Seq<Job>, inputs: Seq<Seq<char>>) -> bool {
    &&& jobs.len() == inputs.len()
    &&& forall|i: int|
        0 <= i < inputs.len() ==> (#[trigger] jobs[i]).input@ == inputs[i] && jobs[i].output@
            == output_path_of(inputs[i])
}

/// Lay out one job per input image, in order.
pub fn plan_jobs(inputs: &Vec<String>) -> (jobs: Vec<Job>)
    ensures
        jobs_match_plan(jobs@, inputs.deep_view()),
{
    let mut jobs: Vec<Job> = Vec::new();
    let n: usize = inputs.len();
    for k in 0..n
        invariant
            n == inputs@.len(),
            jobs@.len() == k,
            forall|i: int|
                0 <= i < k ==> (#[trigger] jobs@[i]).input@ == inputs.deep_view()[i]
                    && jobs@[i].output@ == output_path_of(inputs.deep_view()[i]),
    {
        let input = inputs[k].clone();
        let output = derive_output_path(input.as_str());
        jobs.push(Job { input, output });
    }
    jobs
}

/// A whole run, ready to execute: the style set resolved once, the target
/// dimensions, and the jobs in input order.
#[derive(Debug)]
pub struct RunPlan {
    pub styles: Vec<String>,
    pub dims: Dims,
    pub jobs: Vec<Job>,
}

/// Assemble the plan of a run: the one style set and the one target size
/// are shared by every job, and the jobs follow the input order.
pub fn plan_run(styles: Vec<String>, inputs: &Vec<String>, dims: Dims) -> (plan: RunPlan)
    ensures
        plan.styles == styles,
        plan.dims == dims,
        jobs_match_plan(plan.jobs@, inputs.deep_view()),
{
    let jobs = plan_jobs(inputs);
    RunPlan { styles, dims, jobs }
}

/// Running the batch twice over identical inputs writes the same output
/// paths again: any two layouts for the same inputs agree, job for job, on
/// input and output path, so a second run overwrites rather than adding.
pub proof fn lemma_rerun_overwrites_same_outputs(
    inputs: Seq<Seq<char>>,
    first: Seq<Job>,
    second: Seq<Job>,
)
    requires
        jobs_match_plan(first, inputs),
        jobs_match_plan(second, inputs),
    ensures
        first.len() == second.len(),
        forall|i: int|
            0 <= i < first.len() ==> (#[trigger] first[i]).input@ == second[i].input@
                && first[i].output@ == second[i].output@,
{
}

} // verus!
