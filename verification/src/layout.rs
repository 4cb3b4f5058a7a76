//! The input directory's layout: where the run's metadata files live.
//! The per-sample data and image paths, and the video paths, are built
//! where they are used, in the plotting script and the encoder arguments.

use vstd::prelude::*;
use vstd::string::StringExecFns;

verus! {

/// The file holding the run's sample count.
pub fn sample_count_path(directory: &str) -> (p: String)
    ensures
        p@ == directory@ + "/_sample.txt"@,
{
    let mut p = directory.to_owned();
    p.append("/_sample.txt");
    p
}

/// The file holding the run's per-sample time step.
pub fn time_step_path(directory: &str) -> (p: String)
    ensures
        p@ == directory@ + "/_time.txt"@,
{
    let mut p = directory.to_owned();
    p.append("/_time.txt");
    p
}

/// The file holding the run's coordinate bounds.
pub fn bounds_file_path(directory: &str) -> (p: String)
    ensures
        p@ == directory@ + "/_bounds.dat"@,
{
    let mut p = directory.to_owned();
    p.append("/_bounds.dat");
    p
}

} // verus!
