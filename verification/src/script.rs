//! Script generation: the plotting script one worker feeds its child
//! process for one job, and the argument list of the single video-encoding
//! invocation.  Both are built exactly, character for character, from the
//! resolved configuration; the caller only spawns the processes.

use vstd::prelude::*;
use vstd::string::StringExecFns;

use crate::bounds::Bounds;
use crate::text::spec_dec;
use crate::text::usize_to_dec;
use crate::text::views_of;

verus! {

/// The shared, read-only plotting configuration every worker captures.
#[derive(Clone, Debug, PartialEq, Eq)]
pub struct PlotConfig {
    /// The directory holding the per-sample data files and receiving the
    /// rendered images, as text.
    pub directory: String,
    /// The image size, in the plotting tool's own notation.
    pub size: String,
    /// The point style passed through to the plotting tool.
    pub point_type: String,
}

/// The viewport ranges of the plot command, one `[min:max] ` piece per
/// dimension, for the first `d` dimensions.
pub open spec fn spec_ranges(min: Seq<Seq<char>>, max: Seq<Seq<char>>, d: int) -> Seq<char>
    decreases d,
{
    if d <= 0 {
        Seq::empty()
    } else {
        spec_ranges(min, max, d - 1) + "["@ + min[d - 1] + ":"@ + max[d - 1] + "] "@
    }
}

/// The line that fixes the output image of one job.
pub open spec fn spec_output_line(dir: Seq<char>, index: nat) -> Seq<char> {
    "set output \""@ + dir + "/"@ + spec_dec(index) + ".png\""@
}

/// The plot command of one job: 2-D or 3-D mode, the viewport ranges, the
/// job's data file, its title with the simulated time, and the point style.
pub open spec fn spec_plot_line(
    dir: Seq<char>,
    point_type: Seq<char>,
    min: Seq<Seq<char>>,
    max: Seq<Seq<char>>,
    index: nat,
    time_label: Seq<char>,
) -> Seq<char> {
    (if min.len() == 2 {
        "plot "@
    } else {
        "splot "@
    }) + spec_ranges(min, max, min.len() as int) + "\""@ + dir + "/"@ + spec_dec(index)
        + ".dat\" title 'time = "@ + time_label + " s' pointtype "@ + point_type
}

/// The whole script for one job, line by line.
pub open spec fn spec_plot_script(
    dir: Seq<char>,
    size: Seq<char>,
    point_type: Seq<char>,
    min: Seq<Seq<char>>,
    max: Seq<Seq<char>>,
    index: nat,
    time_label: Seq<char>,
    view_label: Seq<char>,
) -> Seq<Seq<char>> {
    seq![
        "set terminal pngcairo size "@ + size + " enhanced font 'Verdana,10'"@,
        "set view equal xyz"@,
        "set xyplane relative 0"@,
        spec_output_line(dir, index),
        "set view 60,"@ + view_label,
        spec_plot_line(dir, point_type, min, max, index, time_label),
    ]
}

fn build_ranges(bounds: &Bounds) -> (s: String)
    requires
        bounds.wf(),
    ensures
        s@ == spec_ranges(
            views_of(bounds.min@),
            views_of(bounds.max@),
            bounds.min@.len() as int,
        ),
{
    let ghost mv = views_of(bounds.min@);
    let ghost xv = views_of(bounds.max@);
    let mut s = String::new();
    let mut d: usize = 0;
    let dim = bounds.dimension();
    while d < dim
        invariant
            bounds.wf(),
            d <= dim,
            dim == bounds.min@.len(),
            mv == views_of(bounds.min@),
            xv == views_of(bounds.max@),
            s@ == spec_ranges(mv, xv, d as int),
        decreases dim - d,
    {
        s.append("[");
        s.append(bounds.min[d].as_str());
        s.append(":");
        s.append(bounds.max[d].as_str());
        s.append("] ");
        proof {
            assert(mv[d as int] == bounds.min@[d as int]@);
            assert(xv[d as int] == bounds.max@[d as int]@);
            assert(s@ =~= spec_ranges(mv, xv, d + 1));
        }
        d = d + 1;
    }
    s
}

/// Build the plotting script for one job: the configuration and bounds are
/// shared by all jobs; the index, the formatted simulated time and the
/// formatted view angle are the job's own.
pub fn plot_script(
    cfg: &PlotConfig,
    bounds: &Bounds,
    index: usize,
    time_label: &str,
    view_label: &str,
) -> (lines: Vec<String>)
    requires
        bounds.wf(),
    ensures
        views_of(lines@) == spec_plot_script(
            cfg.directory@,
            cfg.size@,
            cfg.point_type@,
            views_of(bounds.min@),
            views_of(bounds.max@),
            index as nat,
            time_label@,
            view_label@,
        ),
{
    let idx = usize_to_dec(index);
    let mut lines: Vec<String> = Vec::new();

    let mut terminal = String::from_str("set terminal pngcairo size ");
    terminal.append(cfg.size.as_str());
    terminal.append(" enhanced font 'Verdana,10'");
    proof {
        assert(terminal@ =~= "set terminal pngcairo size "@ + cfg.size@
            + " enhanced font 'Verdana,10'"@);
    }
    lines.push(terminal);

    lines.push(String::from_str("set view equal xyz"));
    lines.push(String::from_str("set xyplane relative 0"));

    let mut output = String::from_str("set output \"");
    output.append(cfg.directory.as_str());
    output.append("/");
    output.append(idx.as_str());
    output.append(".png\"");
    proof {
        assert(output@ =~= spec_output_line(cfg.directory@, index as nat));
    }
    lines.push(output);

    let mut view = String::from_str("set view 60,");
    view.append(view_label);
    lines.push(view);

    let mut plot = if bounds.dimension() == 2 {
        String::from_str("plot ")
    } else {
        String::from_str("splot ")
    };
    let ranges = build_ranges(bounds);
    plot.append(ranges.as_str());
    plot.append("\"");
    plot.append(cfg.directory.as_str());
    plot.append("/");
    plot.append(idx.as_str());
    plot.append(".dat\" title 'time = ");
    plot.append(time_label);
    plot.append(" s' pointtype ");
    plot.append(cfg.point_type.as_str());
    proof {
        assert(plot@ =~= spec_plot_line(
            cfg.directory@,
            cfg.point_type@,
            views_of(bounds.min@),
            views_of(bounds.max@),
            index as nat,
            time_label@,
        ));
    }
    lines.push(plot);

    proof {
        assert(views_of(lines@) =~= spec_plot_script(
            cfg.directory@,
            cfg.size@,
            cfg.point_type@,
            views_of(bounds.min@),
            views_of(bounds.max@),
            index as nat,
            time_label@,
            view_label@,
        ));
    }
    lines
}

/// The encoder's argument list: overwrite, the frame rate, the input
/// pattern over the contiguous integer-indexed images, the codec, and the
/// output video path.
pub open spec fn spec_encoder_args(dir: Seq<char>, frame_rate: Seq<char>) -> Seq<Seq<char>> {
    seq![
        "-y"@,
        "-r"@,
        frame_rate,
        "-i"@,
        dir + "/%d.png"@,
        "-c:v"@,
        "libx264"@,
        dir + "/_video.mp4"@,
    ]
}

/// Build the argument list for the single video-encoding invocation.
pub fn encoder_args(directory: &str, frame_rate: &str) -> (args: Vec<String>)
    ensures
        views_of(args@) == spec_encoder_args(directory@, frame_rate@),
{
    let mut args: Vec<String> = Vec::new();
    args.push(String::from_str("-y"));
    args.push(String::from_str("-r"));
    args.push(frame_rate.to_owned());
    args.push(String::from_str("-i"));
    let mut pattern = directory.to_owned();
    pattern.append("/%d.png");
    args.push(pattern);
    args.push(String::from_str("-c:v"));
    args.push(String::from_str("libx264"));
    let mut out = directory.to_owned();
    out.append("/_video.mp4");
    args.push(out);
    proof {
        assert(views_of(args@) =~= spec_encoder_args(directory@, frame_rate@));
    }
    args
}

} // verus!
