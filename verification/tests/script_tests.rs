use nbody_viewer::bounds::resolve_bounds_lines;
use nbody_viewer::config::{parse_count, parse_worker_override, validate_time_token};
use nbody_viewer::errors::ConfigError;
use nbody_viewer::generate_jobs;
use nbody_viewer::layout::{bounds_file_path, sample_count_path, time_step_path};
use nbody_viewer::script::{encoder_args, plot_script, PlotConfig};
use nbody_viewer::text::{parse_usize, usize_to_dec};
use nbody_viewer::workers::resolve_worker_count;

fn config() -> PlotConfig {
    PlotConfig {
        directory: "./n-body-output".to_string(),
        size: "1920,1080".to_string(),
        point_type: "1".to_string(),
    }
}

#[test]
fn plot_script_two_dims_exact() {
    let bounds = resolve_bounds_lines("-1 -1", "1 1").unwrap();
    let lines = plot_script(&config(), &bounds, 1, "0.5000000000000000000", "45.1");
    assert_eq!(
        lines,
        vec![
            "set terminal pngcairo size 1920,1080 enhanced font 'Verdana,10'".to_string(),
            "set view equal xyz".to_string(),
            "set xyplane relative 0".to_string(),
            "set output \"./n-body-output/1.png\"".to_string(),
            "set view 60,45.1".to_string(),
            "plot [-1:1] [-1:1] \"./n-body-output/1.dat\" title 'time = 0.5000000000000000000 s' pointtype 1"
                .to_string(),
        ]
    );
}

#[test]
fn plot_script_three_dims_uses_splot() {
    let bounds = resolve_bounds_lines("0 0 0", "5 5 5").unwrap();
    let lines = plot_script(&config(), &bounds, 12, "6", "46.2");
    assert_eq!(lines[3], "set output \"./n-body-output/12.png\"".to_string());
    assert_eq!(
        lines[5],
        "splot [0:5] [0:5] [0:5] \"./n-body-output/12.dat\" title 'time = 6 s' pointtype 1"
            .to_string()
    );
}

#[test]
fn encoder_args_exact() {
    assert_eq!(
        encoder_args("./n-body-output", "30"),
        vec![
            "-y".to_string(),
            "-r".to_string(),
            "30".to_string(),
            "-i".to_string(),
            "./n-body-output/%d.png".to_string(),
            "-c:v".to_string(),
            "libx264".to_string(),
            "./n-body-output/_video.mp4".to_string(),
        ]
    );
}

#[test]
fn job_generation_counts_and_indices() {
    let jobs = generate_jobs(2);
    let indices: Vec<usize> = jobs.iter().map(|j| j.index).collect();
    assert_eq!(indices, vec![0, 1, 2]);

    // The boundary: a run with sample count zero still renders one frame.
    let single = generate_jobs(0);
    assert_eq!(single.len(), 1);
    assert_eq!(single[0].index, 0);

    let many = generate_jobs(10);
    assert_eq!(many.len(), 11);
    assert_eq!(many[10].index, 10);
}

#[test]
fn decimal_formatting_exact() {
    assert_eq!(usize_to_dec(0), "0".to_string());
    assert_eq!(usize_to_dec(7), "7".to_string());
    assert_eq!(usize_to_dec(42), "42".to_string());
    assert_eq!(usize_to_dec(1234567890), "1234567890".to_string());
}

#[test]
fn parse_usize_grammar_and_overflow() {
    assert_eq!(parse_usize("0"), Some(0));
    assert_eq!(parse_usize("+7"), Some(7));
    assert_eq!(parse_usize("00123"), Some(123));
    assert_eq!(parse_usize(""), None);
    assert_eq!(parse_usize("+"), None);
    assert_eq!(parse_usize("-1"), None);
    assert_eq!(parse_usize("4 "), None);
    assert_eq!(parse_usize("99999999999999999999999999"), None);
}

#[test]
fn parse_count_trims_file_contents() {
    assert_eq!(parse_count("3\n"), Ok(3));
    assert_eq!(parse_count("  42  "), Ok(42));
    assert_eq!(parse_count("abc"), Err(ConfigError::ParseInt));
    assert_eq!(parse_count(""), Err(ConfigError::ParseInt));
}

#[test]
fn worker_override_is_read_untrimmed() {
    assert_eq!(parse_worker_override("4"), Ok(4));
    assert_eq!(parse_worker_override(" 4"), Err(ConfigError::ParseInt));
}

#[test]
fn time_token_is_trimmed_and_validated() {
    assert_eq!(validate_time_token("0.5\n"), Ok("0.5".to_string()));
    assert_eq!(validate_time_token("1e-2"), Ok("1e-2".to_string()));
    assert_eq!(validate_time_token("soon"), Err(ConfigError::ParseFloat));
}

#[test]
fn worker_count_resolution() {
    assert_eq!(resolve_worker_count(Some(5)), 5);
    assert_eq!(resolve_worker_count(Some(1)), 1);
    assert!(resolve_worker_count(None) >= 1);
}

#[test]
fn metadata_paths_follow_the_directory() {
    assert_eq!(sample_count_path("./run"), "./run/_sample.txt".to_string());
    assert_eq!(time_step_path("./run"), "./run/_time.txt".to_string());
    assert_eq!(bounds_file_path("./run"), "./run/_bounds.dat".to_string());
}

#[test]
fn config_error_messages() {
    assert_eq!(ConfigError::ParseInt.message(), "failed to parse int number".to_string());
    assert_eq!(ConfigError::ParseFloat.message(), "failed to parse float number".to_string());
    assert_eq!(ConfigError::MissingMinBounds.message(), "min bounds line missing".to_string());
    assert_eq!(ConfigError::MissingMaxBounds.message(), "max bounds line missing".to_string());
}
