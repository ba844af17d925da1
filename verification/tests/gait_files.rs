use oni2_assets::gait::{parse_gait, GaitNormalize};

#[test]
fn parses_root_normalize() {
    let g = parse_gait("Axis: 2\nNormalize: 2\n", "test.gait").unwrap();
    assert_eq!(g.normalize, GaitNormalize::Root);
    assert_eq!(g.axis, 2);
    assert!(g.normalize.should_strip_root());
}

#[test]
fn parses_none() {
    let g = parse_gait("Axis: 0\nNormalize: 0\n", "test.gait").unwrap();
    assert_eq!(g.normalize, GaitNormalize::NoProcessing);
    assert!(!g.normalize.should_strip_root());
}

#[test]
fn parses_deprecated_walk() {
    let g = parse_gait("Axis: 0\nNormalize: 1\n", "test.gait").unwrap();
    assert_eq!(g.normalize, GaitNormalize::Walk);
    assert!(!g.normalize.should_strip_root());
}

#[test]
fn parses_deprecated_tracker() {
    let g = parse_gait("Axis: 0\nNormalize: 3\n", "test.gait").unwrap();
    assert_eq!(g.normalize, GaitNormalize::Tracker);
}

#[test]
fn case_insensitive_keys() {
    let g = parse_gait("axis: 0\nnormalize: 2\n", "test.gait").unwrap();
    assert_eq!(g.normalize, GaitNormalize::Root);
}

#[test]
fn missing_normalize_defaults_to_none() {
    let g = parse_gait("Axis: 1\n", "test.gait").unwrap();
    assert_eq!(g.normalize, GaitNormalize::NoProcessing);
    assert_eq!(g.axis, 1);
}

#[test]
fn empty_content_returns_none() {
    assert!(parse_gait("", "test.gait").is_none());
}

#[test]
fn unknown_normalize_value_is_no_processing() {
    let g = parse_gait("  Normalize :  7  \n", "x.gait").unwrap();
    assert_eq!(g.normalize, GaitNormalize::NoProcessing);
    assert_eq!(g.axis, 0);
}

#[test]
fn later_unparsable_value_clears_earlier_one() {
    // the second Axis line resets the value; with no Normalize either,
    // nothing was read
    assert!(parse_gait("Axis: 4\nAxis: four\n", "x.gait").is_none());
    assert!(parse_gait("no colon here\n", "x.gait").is_none());
}

#[test]
fn gait_is_none_exactly_without_a_readable_key() {
    assert!(parse_gait("", "test.gait").is_none());
    assert!(parse_gait("speed: 3\n", "test.gait").is_none());
    // The last Normalize line decides, and it is not a number.
    assert!(parse_gait("Normalize: 2\nnormalize: fast\n", "test.gait").is_none());
    assert!(parse_gait("AXIS: 1\n", "test.gait").is_some());
}
