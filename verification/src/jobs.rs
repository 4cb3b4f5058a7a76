//! Job generation: one rendering job per sample index.

use vstd::prelude::*;

verus! {

/// One unit of work: render the sample with this index into an image.
///
/// The simulated time of the job is `index` multiplied by the run's
/// per-sample time step; that product is floating point and is computed
/// by the caller when the plotting script is assembled.
#[derive(Clone, Copy, Debug, PartialEq, Eq, Structural)]
pub struct RenderJob {
    pub index: usize,
}

/// Produce the ordered batch of jobs for sample indices `0..=sample_count`.
///
/// The batch always holds exactly `sample_count + 1` jobs, with index `i`
/// at position `i`: no gaps and no duplicates.
pub fn generate_jobs(sample_count: usize) -> (jobs: Vec<RenderJob>)
    requires
        sample_count < usize::MAX,
    ensures
        jobs@.len() == sample_count + 1,
        forall|i: int| 0 <= i < jobs@.len() ==> jobs@[i].index == i,
{
    let mut jobs: Vec<RenderJob> = Vec::new();
    let mut i: usize = 0;
    while i <= sample_count
        invariant
            sample_count < usize::MAX,
            i <= sample_count + 1,
            jobs@.len() == i,
            forall|k: int| 0 <= k < jobs@.len() ==> jobs@[k].index == k,
        decreases sample_count + 1 - i,
    {
        jobs.push(RenderJob { index: i });
        i = i + 1;
    }
    jobs
}

} // verus!
