use nbody_viewer::bounds::{read_bounds, resolve_bounds, resolve_bounds_file, resolve_bounds_lines};
use nbody_viewer::errors::ConfigError;
use nbody_viewer::floatlit::float_literal;
use nbody_viewer::text::{split_spaces, trim};

fn strings(items: &[&str]) -> Vec<String> {
    items.iter().map(|s| s.to_string()).collect()
}

#[test]
fn bounds_file_round_trip_two_dims() {
    let lines = strings(&["-1 -1", "1 1"]);
    let b = resolve_bounds_file(&lines).unwrap();
    assert_eq!(b.dimension(), 2);
    assert_eq!(b.min, strings(&["-1", "-1"]));
    assert_eq!(b.max, strings(&["1", "1"]));
}

#[test]
fn bounds_file_round_trip_three_dims_with_comment_and_blank() {
    let lines = strings(&["# comment", "", "0 0 0", "5 5 5"]);
    let b = resolve_bounds_file(&lines).unwrap();
    assert_eq!(b.dimension(), 3);
    assert_eq!(b.min, strings(&["0", "0", "0"]));
    assert_eq!(b.max, strings(&["5", "5", "5"]));
}

#[test]
fn explicit_override_ignores_file_contents() {
    let explicit = Some(("-1 -1".to_string(), "1 1".to_string()));
    let file_a = strings(&["9 9 9", "8 8 8"]);
    let file_b = strings(&["# nothing useful"]);
    let from_a = resolve_bounds(&explicit, &file_a).unwrap();
    let from_b = resolve_bounds(&explicit, &file_b).unwrap();
    assert_eq!(from_a, from_b);
    assert_eq!(from_a.min, strings(&["-1", "-1"]));
    assert_eq!(from_a.max, strings(&["1", "1"]));
}

#[test]
fn without_override_the_file_is_used() {
    let lines = strings(&["2 2", "3 3"]);
    let b = resolve_bounds(&None, &lines).unwrap();
    assert_eq!(b.min, strings(&["2", "2"]));
    assert_eq!(b.max, strings(&["3", "3"]));
}

#[test]
fn missing_min_bounds_line() {
    let lines = strings(&["# only a comment", "   "]);
    assert_eq!(resolve_bounds_file(&lines), Err(ConfigError::MissingMinBounds));
}

#[test]
fn missing_max_bounds_line() {
    let lines = strings(&["# header", "1 1"]);
    assert_eq!(resolve_bounds_file(&lines), Err(ConfigError::MissingMaxBounds));
}

#[test]
fn dimension_mismatch_is_rejected() {
    assert_eq!(
        resolve_bounds_lines("0 0", "1 1 1"),
        Err(ConfigError::DimensionMismatch)
    );
}

#[test]
fn unsupported_dimensions_are_rejected() {
    assert_eq!(
        resolve_bounds_lines("1", "2"),
        Err(ConfigError::UnsupportedDimension)
    );
    assert_eq!(
        resolve_bounds_lines("1 2 3 4", "5 6 7 8"),
        Err(ConfigError::UnsupportedDimension)
    );
}

#[test]
fn bad_coordinate_is_a_parse_float_error() {
    assert_eq!(
        resolve_bounds_lines("abc def", "1 1"),
        Err(ConfigError::ParseFloat)
    );
    assert_eq!(
        resolve_bounds_lines("1 1", "1 x"),
        Err(ConfigError::ParseFloat)
    );
}

#[test]
fn read_bounds_accepts_float_forms() {
    let tokens = read_bounds("1e3 -2.5E-4 .5 5. inf NaN +infinity").unwrap();
    assert_eq!(
        tokens,
        strings(&["1e3", "-2.5E-4", ".5", "5.", "inf", "NaN", "+infinity"])
    );
}

#[test]
fn read_bounds_trims_and_drops_empty_pieces() {
    let tokens = read_bounds("  -1   -1  ").unwrap();
    assert_eq!(tokens, strings(&["-1", "-1"]));
}

#[test]
fn read_bounds_rejects_malformed_tokens() {
    assert_eq!(read_bounds("1e"), Err(ConfigError::ParseFloat));
    assert_eq!(read_bounds("1.2.3"), Err(ConfigError::ParseFloat));
    assert_eq!(read_bounds("."), Err(ConfigError::ParseFloat));
    assert_eq!(read_bounds("--1"), Err(ConfigError::ParseFloat));
    assert_eq!(read_bounds("1 2 x"), Err(ConfigError::ParseFloat));
}

#[test]
fn whitespace_only_line_has_no_tokens_and_zero_dimensions_are_rejected() {
    assert_eq!(read_bounds("   "), Ok(Vec::new()));
    assert_eq!(
        resolve_bounds_lines("", ""),
        Err(ConfigError::UnsupportedDimension)
    );
}

#[test]
fn float_literal_grammar() {
    for ok in ["0", "-1", "+1", "3.25", ".5", "5.", "1e9", "1E-9", "-2.5e+10", "inf", "INF", "Infinity", "nan", "-inf"] {
        assert!(float_literal(ok), "{} should parse", ok);
    }
    for bad in ["", "+", "-", ".", "e5", "1e", "1e+", "1.2.3", "in", "nanx", "infinit", "1 2"] {
        assert!(!float_literal(bad), "{} should not parse", bad);
    }
}

#[test]
fn trim_strips_both_ends_only() {
    assert_eq!(trim("  a b\t"), "a b".to_string());
    assert_eq!(trim("\r\n"), String::new());
    assert_eq!(trim("x"), "x".to_string());
}

#[test]
fn split_spaces_keeps_empty_pieces() {
    assert_eq!(split_spaces("a  b"), strings(&["a", "", "b"]));
    assert_eq!(split_spaces(""), strings(&[""]));
    assert_eq!(split_spaces(" a "), strings(&["", "a", ""]));
}
