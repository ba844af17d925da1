use oni2_assets::atdt::{parse_atdt_content, AttackClass, AttackStrength, AttackTarget};

fn f(text: &str) -> f32 {
    text.parse::<f32>().expect("float text")
}

/// Rotates the forward vector (0, 0, -1) about +Y by `angle` radians,
/// counter-clockwise seen from above, and returns (x, y, z).
fn rotate_forward_about_y(angle: f32) -> (f32, f32, f32) {
    let (s, c) = angle.sin_cos();
    // (x, z) -> (x cos + z sin, -x sin + z cos) with x = 0, z = -1
    (-s, 0.0, -c)
}

const NOTCH_RADIANS: f32 = std::f32::consts::FRAC_PI_4;

#[test]
fn parses_all_three_classes() {
    let src = "targetclass 2\nstrengthclass 3\nattackclass 2\ndamage 10\n";
    let d = parse_atdt_content(src);
    assert_eq!(d.target_class, Some(AttackTarget::Body));
    assert_eq!(d.strength_class, Some(AttackStrength::Super));
    assert_eq!(d.attack_class, Some(AttackClass::Kick));
    assert_eq!(f(&d.damage), 10.0);
}

#[test]
fn none_value_maps_to_option_none() {
    let src = "targetclass 0\nstrengthclass 0\nattackclass 0\n";
    let d = parse_atdt_content(src);
    assert_eq!(d.target_class, None);
    assert_eq!(d.strength_class, None);
    assert_eq!(d.attack_class, None);
}

#[test]
fn gun_variants_fold_to_ranged_shot() {
    for gun_val in [4, 5] {
        let src = format!("attackclass {}\n", gun_val);
        let d = parse_atdt_content(&src);
        assert_eq!(d.attack_class, Some(AttackClass::RangedShot));
    }
}

#[test]
fn head_legs_round_trip() {
    let d = parse_atdt_content("targetclass 1\n");
    assert_eq!(d.target_class, Some(AttackTarget::Head));
    let d = parse_atdt_content("targetclass 3\n");
    assert_eq!(d.target_class, Some(AttackTarget::Legs));
}

#[test]
fn endrotationnotches_passes_through_unchanged_negative() {
    let src = r#"
strike {
    framenum 0
    frameduration 1
    endrotationnotches -2
}
"#;
    let data = parse_atdt_content(src);
    let strike = data.strike.expect("strike block should parse");
    assert_eq!(strike.end_rotation_notches, -2);
}

#[test]
fn endrotationnotches_passes_through_unchanged_positive() {
    let src = "strike {\n    framenum 0\n    frameduration 1\n    endrotationnotches 3\n}";
    let data = parse_atdt_content(src);
    let strike = data.strike.expect("strike block should parse");
    assert_eq!(strike.end_rotation_notches, 3);
}

#[test]
fn endrotationnotches_zero_is_zero() {
    let src = "strike {\n    framenum 0\n    frameduration 1\n    endrotationnotches 0\n}";
    let data = parse_atdt_content(src);
    let strike = data.strike.expect("strike block should parse");
    assert_eq!(strike.end_rotation_notches, 0);
}

#[test]
fn negative_notches_rotate_visually_right_in_bevy() {
    let notches: i32 = -2;
    let (x, _, _) = rotate_forward_about_y(notches as f32 * NOTCH_RADIANS);
    // dot with +X
    assert!(x > 0.99, "got x={}", x);
}

#[test]
fn positive_notches_rotate_visually_left_in_bevy() {
    let notches: i32 = 2;
    let (x, _, _) = rotate_forward_about_y(notches as f32 * NOTCH_RADIANS);
    // dot with -X
    assert!(-x > 0.99, "got x={}", x);
}

#[test]
fn elbow_spin_right_end_rotation_lands_visually_right() {
    let src = "strike {\n    framenum 0\n    frameduration 1\n    endrotationnotches -2\n}";
    let strike = parse_atdt_content(src).strike.unwrap();
    let (x, _, _) = rotate_forward_about_y(strike.end_rotation_notches as f32 * NOTCH_RADIANS);
    assert!(x > 0.99, "got x={}", x);
}

#[test]
fn sweep_right_end_rotation_lands_visually_left() {
    let src = "strike {\n    framenum 0\n    frameduration 1\n    endrotationnotches 3\n}";
    let strike = parse_atdt_content(src).strike.unwrap();
    let (x, _, z) = rotate_forward_about_y(strike.end_rotation_notches as f32 * NOTCH_RADIANS);
    assert!(x < -0.5, "got x={}", x);
    assert!(z > 0.5, "got z={}", z);
}

#[test]
fn strike_block_keeps_frame_texts_and_defaults() {
    let src = "strike {\n framenum 4\n frameduration 2.5\n}\ndamage 12.5\nblockreaction 3\n";
    let d = parse_atdt_content(src);
    let s = d.strike.expect("strike");
    assert_eq!(f(&s.framenum), 4.0);
    assert_eq!(f(&s.frameduration), 2.5);
    assert_eq!(s.end_rotation_notches, 0);
    assert_eq!(f(&d.damage), 12.5);
    assert_eq!(d.block_reaction, 3);
    assert_eq!(d.enemy_block_anim, -1);
    assert!(d.grab.is_none());
}

#[test]
fn empty_atdt_has_defaults() {
    let d = parse_atdt_content("");
    assert!(d.strike.is_none());
    assert!(d.grab.is_none());
    assert_eq!(f(&d.damage), 0.0);
    assert_eq!(d.enemy_block_anim, -1);
    assert_eq!(d.target_class, None);
}
