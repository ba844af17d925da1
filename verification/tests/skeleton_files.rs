use oni2_assets::skeleton::{parse_skel, skel_would_fault};

fn f(text: &str) -> f32 {
    text.parse::<f32>().expect("float text")
}

/// A rotation limit as `[min, max]`.
fn limit(l: &Option<[String; 2]>) -> Option<[f32; 2]> {
    l.as_ref().map(|[a, b]| {
        let (a, b) = (f(a), f(b));
        [a.min(b), a.max(b)]
    })
}

/// The world position: the offsets added in order from zero.
fn position(terms: &[[String; 3]]) -> [f32; 3] {
    let mut p = [0.0f32; 3];
    for t in terms {
        p = [p[0] + f(&t[0]), p[1] + f(&t[1]), p[2] + f(&t[2])];
    }
    p
}

#[test]
fn test_parse_skel_limits() {
    let content = r#"
Version: 101
NumBones 2
bone root {
	offset 0.000000 0.000000 0.000000
	transX 
	transY 
	transZ 
	rotX 
	rotY 
	rotZ 
	bone arm_01 {
		offset 0.000000 0.214873 0.000000
		rotX limit 0.244 -2.424
		rotY 
		rotZ limit 0.000 0.000
	}
}
"#;
    assert!(!skel_would_fault(content));
    let skel = parse_skel(content);
    assert_eq!(skel.names[1], "arm_01");

    let l0 = &skel.rot_limits[0];
    assert_eq!(limit(&l0.x), None);
    assert_eq!(limit(&l0.y), None);
    assert_eq!(limit(&l0.z), None);

    let ch1 = &skel.channels[1];
    assert!(ch1.has_rot_x);
    assert!(ch1.has_rot_y);
    assert!(ch1.has_rot_z);
    let l1 = &skel.rot_limits[1];
    assert_eq!(limit(&l1.x), Some([-2.424, 0.244]));
    assert_eq!(limit(&l1.y), None);
    assert_eq!(limit(&l1.z), Some([0.0, 0.0]));
}

#[test]
fn skeleton_parents_positions_and_channel_map() {
    let content = "bone root {\noffset 1 2 3\ntransX\nrotY lock\nrotZ\nbone a {\noffset 0.5 0 0\n}\nbone b {\n}\n}\n";
    let skel = parse_skel(content);
    assert_eq!(skel.names, vec!["root", "a", "b"]);
    assert_eq!(skel.parent_indices, vec![None, Some(0), Some(0)]);
    assert_eq!(position(&skel.positions[0]), [1.0, 2.0, 3.0]);
    assert_eq!(position(&skel.positions[1]), [1.5, 2.0, 3.0]);
    // a bone without an offset sits at its parent's position
    assert_eq!(position(&skel.positions[2]), [1.0, 2.0, 3.0]);
    assert_eq!(f(&skel.local_offsets[1][0]), 0.5);
    assert!(skel.channels[0].has_trans_x);
    assert!(!skel.channels[0].has_rot_y);
    assert!(skel.channels[0].has_rot_z);
    assert_eq!(skel.channel_is_rot, vec![false, true]);
}

#[test]
fn bone_line_without_space_before_brace_faults() {
    assert!(skel_would_fault("bone x{\n"));
    assert!(!skel_would_fault("bone x {\n}\n"));
}

#[test]
fn bones_come_before_their_children() {
    let s = parse_skel("bone root {\n bone spine {\n  bone head {\n  }\n }\n bone leg {\n }\n}\n");
    assert_eq!(s.names, vec!["root", "spine", "head", "leg"]);
    assert_eq!(s.parent_indices, vec![None, Some(0), Some(1), Some(0)]);
    assert_eq!(s.positions.len(), 4);
    assert_eq!(s.channels.len(), 4);
    for (i, p) in s.parent_indices.iter().enumerate() {
        if let Some(j) = p {
            assert!(*j < i);
        }
    }
}
