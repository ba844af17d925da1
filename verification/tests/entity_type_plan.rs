use oni2_assets::entity_plan::{anim_library_source, plan_entity_type, LibrarySource};
use oni2_assets::registry::NameTable;
use oni2_assets::spawn::MaterialPasses;
use oni2_assets::types::Oni2MaterialPass;

fn pass(tex: &str, slides: Option<&str>) -> Oni2MaterialPass {
    let mut p = Oni2MaterialPass::with_texture(Some(tex.to_string()));
    p.slides = slides.map(|s| s.to_string());
    p
}

#[test]
fn one_material_list_and_animator_list_per_model_material() {
    let mats = vec![
        MaterialPasses { texture_name: Some("skin".into()), passes: vec![] },
        MaterialPasses {
            texture_name: None,
            passes: vec![pass("a", Some("sawtooth 0.5")), pass("b", None)],
        },
    ];
    let plan = plan_entity_type("door", Some(&mats), None, None, &vec![]);
    assert_eq!(plan.name, "door");
    assert_eq!(plan.materials.len(), 2);
    assert_eq!(plan.material_animators.len(), 2);
    assert_eq!(plan.materials[0].len(), 1);
    assert_eq!(plan.materials[0][0].texture_name.as_deref(), Some("skin"));
    assert_eq!(plan.material_animators[0].len(), 1);
    assert_eq!(plan.material_animators[0][0].slides_speed, "0");
    assert_eq!(plan.materials[1].len(), 2);
    assert_eq!(plan.material_animators[1][0].slides_speed, "0.5");
    assert!(!plan.skinned);
    assert!(plan_entity_type("x", None, None, None, &vec![]).materials.is_empty());
}

#[test]
fn skinned_only_with_skeleton_and_animations() {
    assert!(plan_entity_type("a", None, Some(20), Some(3), &vec![]).skinned);
    assert!(!plan_entity_type("a", None, Some(20), Some(0), &vec![]).skinned);
    assert!(!plan_entity_type("a", None, None, Some(3), &vec![]).keeps_library);
}

#[test]
fn panels_ride_the_bone_after_their_index() {
    // Three sub-bounds on a four-bone skeleton.
    let plan = plan_entity_type("gate", None, Some(4), Some(1), &vec![1, 1, 1]);
    assert_eq!(plan.bone_colliders, vec![(1, true), (2, true), (3, true)]);
    // Other counts use the nearest bone.
    let plan = plan_entity_type("gate", None, Some(6), None, &vec![5, 2]);
    assert_eq!(plan.bone_colliders, vec![(5, true), (2, true)]);
    // A single sub-bound, or no skeleton: bone 0, unchanged.
    let plan = plan_entity_type("box", None, Some(6), None, &vec![3]);
    assert_eq!(plan.bone_colliders, vec![(0, false)]);
    let plan = plan_entity_type("box", None, None, None, &vec![0, 0]);
    assert_eq!(plan.bone_colliders, vec![(0, false), (0, false)]);
}

#[test]
fn cached_library_is_used_and_a_missing_one_loaded() {
    let mut libs: NameTable<u32> = NameTable::new();
    assert_eq!(anim_library_source(&libs, "dir/kno", true), LibrarySource::Load);
    libs.insert("dir/kno".to_string(), 7);
    assert_eq!(anim_library_source(&libs, "dir/kno", true), LibrarySource::Cached);
    assert_eq!(anim_library_source(&libs, "dir/kno", false), LibrarySource::NoSkeleton);
}
