use oni2_assets::entity_type::{parse_drawable_type, parse_entity_type, Oni2EntityType};

fn parsed(content: &str) -> Oni2EntityType {
    parse_entity_type(content)
}

fn f(text: &str) -> f32 {
    text.parse::<f32>().expect("float text")
}

#[test]
fn parses_flat_format_with_missing_extensions() {
    let text = r#"
        {
            BASICENTITY kno
                LOD     kno_LODs0
                SKEL    kno_skel
                BOUND   Bound
                RADIUS  42.5
        }
        "#;

    let parsed = parsed(text);
    assert_eq!(parsed.model_file.as_deref(), Some("kno_LODs0.mod"));
    assert_eq!(parsed.skel_file.as_deref(), Some("kno_skel.skel"));
    assert_eq!(parsed.bound_file.as_deref(), Some("Bound"));
    assert!((f(&parsed.lod_radius) - 42.5).abs() < f32::EPSILON);
}

#[test]
fn prefers_high_over_followup_lod_entries() {
    let text = r#"
        LodGroup {
            high    HeroShape0        9999
            lod     HeroFallback      200
            radius  38.739
        }
        "#;

    let parsed = parsed(text);
    assert_eq!(parsed.model_file.as_deref(), Some("HeroShape0.mod"));
    assert!((f(&parsed.lod_radius) - 38.739).abs() < f32::EPSILON);
}

#[test]
fn ignores_none_entries_and_preserves_extensions() {
    let text = r#"
        version: 101
        renderable {
            LodGroup {
                high    none    0
                lod     gadgetShape1.mod 0
                radius  15
            }
            skel    none
        }
        physics {
            bound   none
        }
        "#;

    let parsed = parsed(text);
    assert_eq!(parsed.model_file.as_deref(), Some("gadgetShape1.mod"));
    assert!(parsed.skel_file.is_none());
    assert!(parsed.bound_file.is_none());
}

#[test]
fn drawable_type_preserves_explicit_mesh_extension() {
    let text = r#"
LodGroup {
    high 	blast_fire.mesh	9999
    med  	none	9999
    low  	none	9999
    vlow 	none	9999
    radius	13
}
skel 	none
edge 	none
"#;

    let raw = parse_drawable_type(text);
    assert_eq!(raw.mesh_name.as_deref(), Some("blast_fire.mesh"));
    assert!(raw.skel_name.is_none());
    assert!(raw.bound_name.is_none());
    assert!(raw.edge_name.is_none());
    assert!((f(&raw.lod_radius) - 13.0).abs() < f32::EPSILON);
}

#[test]
fn unset_or_bad_radius_is_zero() {
    assert_eq!(f(&parse_drawable_type("high a\n").lod_radius), 0.0);
    assert_eq!(f(&parse_drawable_type("radius wide\n").lod_radius), 0.0);
    assert_eq!(parse_drawable_type("EDGE Ridge\n").edge_name.as_deref(), Some("Ridge"));
}

#[test]
fn first_high_entry_gives_the_mesh() {
    let d = oni2_assets::entity_type::parse_drawable_type("HIGH first\nHIGH second\n");
    assert_eq!(d.mesh_name.as_deref(), Some("first"));
    // HIGH still wins over an earlier LOD; a `none` HIGH leaves the mesh open.
    let d = oni2_assets::entity_type::parse_drawable_type("LOD low\nHIGH none\nHIGH high\nHIGH later\n");
    assert_eq!(d.mesh_name.as_deref(), Some("high"));
}
