//! Worker-pool sizing: an explicit override, else the machine's own
//! parallelism.

use vstd::prelude::*;

verus! {

/// Relies on `num_cpus::get`: the number of available CPUs of the current
/// system, which is always at least one.
#[verifier::external_body]
fn available_cpus() -> (n: usize)
    ensures
        n >= 1,
{
    num_cpus::get()
}

/// The size of the worker pool: the explicit override when one was given,
/// else the machine's reported parallelism, which is never zero.
pub fn resolve_worker_count(explicit: Option<usize>) -> (w: usize)
    ensures
        match explicit {
            Some(n) => w == n,
            None => w >= 1,
        },
{
    match explicit {
        Some(n) => n,
        None => available_cpus(),
    }
}

} // verus!
