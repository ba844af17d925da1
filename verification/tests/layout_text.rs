use oni2_assets::layout::{
    line_floats, parse_environment, parse_layout_fog, parse_layout_paths, parse_lights_file,
};

fn texts(v: &[String]) -> Vec<&str> {
    v.iter().map(|s| s.as_str()).collect()
}

#[test]
fn line_numbers_skip_words_that_are_not_floats() {
    let r = line_floats(&"  1.5 x -2 3e2 nan?  ".chars().collect::<Vec<char>>());
    assert_eq!(texts(&r), vec!["1.5", "-2", "3e2"]);
}

#[test]
fn environment_defaults_without_keys() {
    let env = parse_environment("version: 2\n");
    assert_eq!(texts(&env.light_direction), vec!["0.5", "-0.7", "0.5"]);
    assert_eq!(texts(&env.light_color), vec!["0.4", "0.4", "0.4"]);
    assert_eq!(texts(&env.ambient_color), vec!["0.2", "0.2", "0.2"]);
    assert_eq!(texts(&env.fog_color), vec!["0.5", "0.5", "0.5", "1.0"]);
    assert_eq!(env.fog_start, "0.0");
    assert_eq!(env.fog_end, "100.0");
}

#[test]
fn environment_reads_light_rows_and_fog_values() {
    let content = "lightDirection:\n  0.1 -0.9 0.3\nlightColor:\n 0.8 0.7 0.6\n 0 0 0\n 0 0 0\n 0.25 0.3 0.35\n  fogColor: 0.1 0.2 0.3 0.4\nfogStart: 12.5\nfogEnd: far\n";
    let env = parse_environment(content);
    assert_eq!(texts(&env.light_direction), vec!["0.1", "-0.9", "0.3"]);
    assert_eq!(texts(&env.light_color), vec!["0.8", "0.7", "0.6"]);
    assert_eq!(texts(&env.ambient_color), vec!["0.25", "0.3", "0.35"]);
    assert_eq!(texts(&env.fog_color), vec!["0.1", "0.2", "0.3", "0.4"]);
    assert_eq!(env.fog_start, "12.5");
    // Not a number: the default.
    assert_eq!(env.fog_end, "100.0");
}

#[test]
fn environment_keeps_defaults_for_short_rows() {
    let env = parse_environment("lightDirection:\n1 2\nlightColor:\n0.9 0.9 0.9\n");
    assert_eq!(texts(&env.light_direction), vec!["0.5", "-0.7", "0.5"]);
    assert_eq!(texts(&env.light_color), vec!["0.9", "0.9", "0.9"]);
    // No fourth row after lightColor.
    assert_eq!(texts(&env.ambient_color), vec!["0.2", "0.2", "0.2"]);
}

#[test]
fn fog_file_reads_fog_line_and_lights() {
    let content = "version: 1\n1 10 250 0.5 0.6 0.7 1\n1 0 5 100 1\n1 0 -1 0 1 1 1\n0 1 0 0 0.5 0.5 0.5\nbad line\n";
    let fog = parse_layout_fog(content).expect("fog");
    assert_eq!(fog.enabled, "1");
    assert_eq!(fog.start, "10");
    assert_eq!(fog.end, "250");
    assert_eq!(texts(&fog.color), vec!["0.5", "0.6", "0.7"]);
    assert_eq!(fog.lights.len(), 2);
    assert_eq!(fog.lights[0].enabled, "1");
    assert_eq!(texts(&fog.lights[0].direction), vec!["0", "-1", "0"]);
    assert_eq!(texts(&fog.lights[0].color), vec!["1", "1", "1"]);
    assert_eq!(fog.lights[1].enabled, "0");
    assert_eq!(texts(&fog.lights[1].direction), vec!["1", "0", "0"]);
}

#[test]
fn fog_file_too_short_or_fog_line_incomplete_is_none() {
    assert!(parse_layout_fog("version: 1\n1 10 250 0.5 0.6 0.7 1\n").is_none());
    assert!(parse_layout_fog("v\n1 10 250 0.5 0.6 0.7\na\nb\nc\nd\n").is_none());
}

#[test]
fn paths_are_named_before_the_bracket() {
    let content = "walk[3] {\n 1 2 3\n 4 5\n 7 8 9 10\n}\nempty[0] {\n}\nnot a path\nloop[1] {\n -1 0 2\n";
    let paths = parse_layout_paths(content);
    assert_eq!(paths.len(), 2);
    assert_eq!(paths[0].name, "walk");
    assert_eq!(paths[0].points.len(), 2);
    assert_eq!(texts(&paths[0].points[0]), vec!["1", "2", "3"]);
    assert_eq!(texts(&paths[0].points[1]), vec!["7", "8", "9"]);
    // Unterminated at the end of the file: still read.
    assert_eq!(paths[1].name, "loop");
    assert_eq!(texts(&paths[1].points[0]), vec!["-1", "0", "2"]);
}

#[test]
fn path_head_without_brace_is_skipped() {
    let paths = parse_layout_paths("a[2]\n1 2 3\nb[1] {\n4 5 6\n}\n");
    assert_eq!(paths.len(), 1);
    assert_eq!(paths[0].name, "b");
}

#[test]
fn lights_read_their_fields() {
    let content = "Light lamp01 {\n  Type spot\n  Position 1 2 3\n  Intensity 2.5\n  Direction 0 -1 0\n  SpotAngle 30\n  Color 1 0.5 0.25 1\n}\nLight odd\nIntensity x\n}\n";
    let lights = parse_lights_file(content);
    assert_eq!(lights.len(), 2);
    let l = &lights[0];
    assert_eq!(l.name, "lamp01");
    assert_eq!(l.light_type, "spot");
    assert_eq!(texts(&l.positions), vec!["1 2 3"]);
    assert_eq!(l.intensity, "2.5");
    assert_eq!(texts(&l.directions), vec!["0 -1 0"]);
    assert_eq!(l.spot_angle, "30");
    assert_eq!(texts(&l.color), vec!["1", "0.5", "0.25", "1"]);
    let d = &lights[1];
    assert_eq!(d.name, "unknown");
    assert_eq!(d.light_type, "point");
    assert!(d.positions.is_empty());
    assert_eq!(d.intensity, "0.0");
    assert_eq!(d.spot_angle, "45.0");
    assert_eq!(texts(&d.color), vec!["1.0", "1.0", "1.0", "1.0"]);
}
