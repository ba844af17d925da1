use oni2_assets::ammo::parse_ammo_content;
use oni2_assets::bsp::{parse_bsp_file, BspChild, BspStep, ParsedBspTree};
use oni2_assets::expl::parse_expl;
use oni2_assets::registry::NameTable;
use oni2_assets::spawn::{
    load_oni2_entity_type, model_world_space, spawn_oni2_entity, sub_bound_bone, use_gpu_skinning,
    JustGroundSnapped, PlatformRider, GROUND_SNAP_HOLD_FRAMES,
};
use oni2_assets::testanim::{
    setup_testanim_scene, testanim_input_system, update_testanim_hud, AnimPlayback, TestAnimKeys,
    TestAnimMode,
};

fn f(text: &str) -> f32 {
    text.parse::<f32>().expect("float text")
}

/// The room of a point: descends from the root, taking the positive side
/// where the point's distance to the (right-handed) plane is positive.
fn room_of_point(tree: &ParsedBspTree, p: [f32; 3]) -> Option<String> {
    if tree.nodes.is_empty() {
        return None;
    }
    let mut cur = 0usize;
    loop {
        let pl = &tree.nodes[cur].plane;
        let normal = [-f(&pl[0]), f(&pl[1]), -f(&pl[2])];
        let dist = normal[0] * p[0] + normal[1] * p[1] + normal[2] * p[2] + f(&pl[3]);
        match tree.room_step(cur, dist > 0.0) {
            BspStep::Node(n) => cur = n,
            BspStep::Room(name) => return Some(name),
            BspStep::Outside => return None,
        }
    }
}

#[test]
fn test_parse_bsp() {
    let content = "2\n\
        1.0 0.0 0.0 -10.0\n\
        room Start\n\
        node 1\n\
        0.0 1.0 0.0 5.0\n\
        room Invalid\n\
        room Room1\n";

    let parsed = parse_bsp_file(content).unwrap();
    assert_eq!(parsed.nodes.len(), 2);

    let pl = &parsed.nodes[0].plane;
    assert_eq!([-f(&pl[0]), f(&pl[1]), -f(&pl[2]), f(&pl[3])], [-1.0, 0.0, -0.0, -10.0]);
    assert_eq!(parsed.nodes[0].negative, BspChild::Room("Start".to_string()));
    assert_eq!(parsed.nodes[0].positive, BspChild::Node(1));

    assert_eq!(room_of_point(&parsed, [-15.0, -10.0, 0.0]).as_deref(), Some("Invalid"));
    assert_eq!(room_of_point(&parsed, [-15.0, 10.0, 0.0]).as_deref(), Some("Room1"));
    assert_eq!(room_of_point(&parsed, [5.0, 0.0, 0.0]).as_deref(), Some("Start"));
}

#[test]
fn bsp_rejects_bad_children_and_short_files() {
    assert!(parse_bsp_file("").is_none());
    assert!(parse_bsp_file("1\n0 0 0 0\nleaf A\nroom B\n").is_none());
    assert!(parse_bsp_file("2\n0 0 0 0\nroom A\nroom B\n").is_none());
    assert!(parse_bsp_file("1\nx 0 0 0\nroom A\nroom B\n").is_none());
}

#[test]
fn bsp_child_past_the_tree_is_outside() {
    let t = parse_bsp_file("1\n0 1 0 0\nnode 7\nroom A\n").unwrap();
    assert_eq!(t.room_step(0, false), BspStep::Outside);
    assert_eq!(t.room_step(0, true), BspStep::Room("A".to_string()));
}

#[test]
fn name_table_insert_then_get_and_overwrite() {
    let mut t: NameTable<u32> = NameTable::new();
    assert_eq!(t.len(), 0);
    t.insert("pistol".to_string(), 1);
    t.insert("rifle".to_string(), 2);
    assert_eq!(t.get("pistol"), Some(&1));
    assert_eq!(t.get("rifle"), Some(&2));
    assert_eq!(t.get("cannon"), None);
    t.insert("pistol".to_string(), 3);
    assert_eq!(t.len(), 2);
    assert_eq!(t.get("pistol"), Some(&3));
}

#[test]
fn ammo_types_are_keyed_by_lower_case_name() {
    let src = "{\nAMMO Bullet\n{\ndamage 12.5\nhittype 2\ndisplay \"Nine mil\"\n}\nAMMO Rocket\n{\n}\n}\n";
    let t = parse_ammo_content(src);
    assert_eq!(t.len(), 2);
    let b = t.get("bullet").expect("bullet");
    assert_eq!(b.name, "Bullet");
    assert_eq!(f(&b.damage), 12.5);
    assert_eq!(b.hit_type, 2);
    assert_eq!(b.display, "Nine mil");
    let r = t.get("rocket").expect("rocket");
    assert_eq!(f(&r.damage), 0.0);
    assert_eq!(r.hit_type, 0);
    assert!(t.get("Bullet").is_none());
}

#[test]
fn ammo_later_definition_replaces_earlier() {
    let src = "AMMO Shell\n{\ndamage 1\n}\nAMMO shell\n{\ndamage 2\n}\n";
    let t = parse_ammo_content(src);
    assert_eq!(t.len(), 1);
    assert_eq!(f(&t.get("shell").unwrap().damage), 2.0);
}

#[test]
fn testanim_scene_names_entity_from_file() {
    let scene = setup_testanim_scene(&TestAnimMode("Entity/kno/kno_walk.anim".to_string()));
    assert_eq!(scene.entity_name, "kno");
    assert_eq!(scene.entity_dir, "Entity/kno");
    assert_eq!(scene.anim_file, "Entity/kno/kno_walk.anim");
    assert_eq!(scene.hud_text, "Frame: 0/0  FPS: 20  PLAYING  LOOP");
}

#[test]
fn testanim_hud_text() {
    assert_eq!(update_testanim_hud(12, 40, 30, true, false), "Frame: 12/40  FPS: 30  PAUSED  ONCE");
}

#[test]
fn testanim_keys_toggle_and_step() {
    let mut anim = AnimPlayback { paused: false, pending_step: 0, looping: true };
    let keys = TestAnimKeys {
        space: true,
        arrow_right: true,
        arrow_left: false,
        arrow_up: true,
        arrow_down: false,
        key_l: true,
    };
    let fps = testanim_input_system(&keys, &mut anim);
    assert!(anim.paused);
    assert_eq!(anim.pending_step, 1);
    assert!(!anim.looping);
    assert!(fps.raise && !fps.lower);
    let keys = TestAnimKeys {
        space: false,
        arrow_right: true,
        arrow_left: true,
        arrow_up: false,
        arrow_down: true,
        key_l: false,
    };
    let fps = testanim_input_system(&keys, &mut anim);
    assert_eq!(anim.pending_step, -1);
    assert!(!fps.raise && fps.lower);
}

#[test]
fn platform_rider_carries_only_on_the_same_platform() {
    let mut r = PlatformRider::new();
    assert!(!r.moving_platform_step(Some(4)));
    assert!(r.moving_platform_step(Some(4)));
    assert!(!r.moving_platform_step(Some(5)));
    assert!(!r.moving_platform_step(None));
    assert_eq!(r.platform, None);
    assert_eq!(JustGroundSnapped::after_snap().0, GROUND_SNAP_HOLD_FRAMES);
}

#[test]
fn spawn_request_and_entity_files() {
    let req = spawn_oni2_entity("Entity/kno", "kno");
    assert_eq!(req.entity_dir, "Entity/kno");
    assert!(!req.rotated);
    assert!(req.anim_path.is_none());
    let files = load_oni2_entity_type("Entity/kno", "kno", None, Some("kno_LODs.mod"), Some("kno.skel"));
    assert_eq!(files.type_path, "Entity/kno/Entity.type");
    assert_eq!(files.skel_path.as_deref(), Some("Entity/kno/kno.skel"));
    let m = files.model.expect("model lookup");
    assert_eq!(m.primary, "Entity/kno/kno_LODs.mod");
    assert_eq!(m.zero_fallback.as_deref(), Some("Entity/kno/kno_LODs0.mod"));
    assert_eq!(m.text_model, "Entity/kno/kno.mod");
    assert_eq!(m.win32_model, "Entity/kno/win32_kno_LODs.mod");
    assert_eq!(files.bound_path, "Entity/kno/Bound.bnd");
    assert_eq!(files.anim_cache_key, "Entity/kno/kno");
}

#[test]
fn model_space_skinning_and_sub_bound_bones() {
    assert!(model_world_space(true, None));
    assert!(model_world_space(true, Some(10)));
    assert!(!model_world_space(true, Some(11)));
    assert!(!model_world_space(false, None));
    assert!(use_gpu_skinning(true, true));
    assert!(!use_gpu_skinning(true, false));
    assert_eq!(sub_bound_bone(0, 3, 4, 2), (1, true));
    assert_eq!(sub_bound_bone(5, 3, 4, 2), (3, true));
    assert_eq!(sub_bound_bone(0, 3, 8, 5), (5, true));
    assert_eq!(sub_bound_bone(0, 1, 8, 5), (0, false));
}

#[test]
fn explosion_blocks_with_fx_and_damage() {
    let src = "BASICEXPLOSION Boom\n{\n  explodefx\n  {\n    fxtype Fire\n    offset 1 2 3\n    delay 0.5\n  }\n  ellipsoid\n  {\n    maxdamage 40\n    continuousdamage 1\n  }\n}\n";
    let defs = parse_expl(src);
    assert_eq!(defs.len(), 1);
    let d = &defs[0];
    assert_eq!(d.name, "Boom");
    assert_eq!(d.fx.len(), 1);
    assert_eq!(d.fx[0].fx_type, "Fire");
    assert_eq!(f(&d.fx[0].offset[2]), 3.0);
    assert_eq!(f(&d.fx[0].delay), 0.5);
    let e = d.ellipsoid.as_ref().expect("ellipsoid");
    assert_eq!(f(&e.max_damage), 40.0);
    assert!(e.continuous_damage);
    assert_eq!(f(&e.max_radii[0]), 1.0);
    assert!(d.box_damage.is_none());
}

#[test]
fn later_ammo_definition_with_same_name_wins() {
    let t = parse_ammo_content("AMMO A { damage 1 } AMMO a { damage 2 }");
    assert_eq!(t.len(), 1);
    let a = t.get("a").expect("a");
    assert_eq!(a.name, "a");
    assert_eq!(a.damage, "2");
}
