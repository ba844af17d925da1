use oni2_assets::colliders::{
    collider_triangles, joint_names, plan_colliders, BodyKind, BuiltCollider, ColliderTarget,
};

fn built(bone: usize, bound_type: Option<&str>) -> BuiltCollider {
    BuiltCollider {
        bone,
        bound_type: bound_type.map(|s| s.to_string()),
    }
}

fn child_name(t: &ColliderTarget) -> Option<&str> {
    match t {
        ColliderTarget::Child(n) => Some(n.as_str()),
        _ => None,
    }
}

#[test]
fn quads_split_into_two_triangles_before_the_triangles() {
    let quads = vec![[0u32, 1, 2, 3], [4, 5, 6, 7]];
    let tris = vec![[8u32, 9, 10]];
    let r = collider_triangles(&quads, &tris);
    assert_eq!(
        r,
        vec![[0, 1, 2], [0, 2, 3], [4, 5, 6], [4, 6, 7], [8, 9, 10]]
    );
    assert!(collider_triangles(&Vec::new(), &Vec::new()).is_empty());
}

#[test]
fn joints_are_named_after_bones_then_numbered() {
    let bones = vec!["root".to_string(), "head".to_string()];
    let names = joint_names("guard", &bones, 4);
    assert_eq!(
        names,
        vec!["guard::root", "guard::head", "guard::bone_2", "guard::bone_3"]
    );
    assert!(joint_names("guard", &bones, 0).is_empty());
}

#[test]
fn skinned_entity_on_root_bone_gets_colliders_on_itself() {
    let cs = vec![built(0, Some("OCTREE")), built(0, None)];
    let plan = plan_colliders("door", &cs, true, true, true, 3);
    assert_eq!(plan.body, BodyKind::Kinematic);
    assert_eq!(plan.placements.len(), 2);
    assert!(matches!(plan.placements[0].target, ColliderTarget::Parent));
    assert!(matches!(plan.placements[1].target, ColliderTarget::Parent));
    assert!(plan.placements[0].octree);
    assert!(!plan.placements[1].octree);
}

#[test]
fn skinned_entity_with_panels_puts_each_on_its_joint() {
    let cs = vec![built(1, Some("box")), built(2, Some("octree")), built(7, None)];
    let plan = plan_colliders("gate", &cs, true, true, true, 3);
    assert_eq!(plan.body, BodyKind::Kinematic);
    assert!(matches!(plan.placements[0].target, ColliderTarget::Joint(1)));
    assert!(matches!(plan.placements[1].target, ColliderTarget::Joint(2)));
    // No joint for bone 7: the entity itself.
    assert!(matches!(plan.placements[2].target, ColliderTarget::Parent));
    assert!(!plan.placements[0].octree);
    assert!(plan.placements[1].octree);
}

#[test]
fn static_entity_gets_one_child_per_collider() {
    let cs = vec![built(0, Some("Octree")), built(3, Some("polygon"))];
    let plan = plan_colliders("crate_a", &cs, true, false, false, 0);
    assert_eq!(plan.body, BodyKind::Static);
    assert_eq!(child_name(&plan.placements[0].target), Some("crate_a::collider_0"));
    assert_eq!(child_name(&plan.placements[1].target), Some("crate_a::collider_1"));
    assert!(plan.placements[0].octree);
    assert!(!plan.placements[1].octree);
}

#[test]
fn skeleton_without_library_has_no_body_but_child_colliders() {
    let cs = vec![built(0, None)];
    let plan = plan_colliders("lamp", &cs, true, true, false, 0);
    assert_eq!(plan.body, BodyKind::NoBody);
    assert_eq!(child_name(&plan.placements[0].target), Some("lamp::collider_0"));
}

#[test]
fn static_body_even_when_no_collider_could_be_built() {
    let plan = plan_colliders("rock", &Vec::new(), true, false, false, 0);
    assert_eq!(plan.body, BodyKind::Static);
    assert!(plan.placements.is_empty());
    let plan = plan_colliders("npc", &Vec::new(), true, true, true, 5);
    assert_eq!(plan.body, BodyKind::NoBody);
    let plan = plan_colliders("ghost", &Vec::new(), false, false, false, 0);
    assert_eq!(plan.body, BodyKind::NoBody);
}
