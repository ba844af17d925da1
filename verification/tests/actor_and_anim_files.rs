use oni2_assets::actor_xml::{
    find_component_tags, is_known_component, unhandled_component_tags, SoundPlayMode,
};
use oni2_assets::animation::{anim_would_fault, parse_anim};
use oni2_assets::registries::{ptx_fallback_file, DrawableLibrary};

#[test]
fn component_tags_need_a_name_attribute() {
    let xml = "<Actor><Creature name=\"c\"><Speed value=\"1\"/></Creature>\
        <lower name=\"x\"/><Sound_2 name=\"s\" ><Eye name=\"e\"/></Actor>";
    assert_eq!(find_component_tags(xml), vec!["Creature", "Sound_2", "Eye"]);
    assert!(find_component_tags("<Broken name=\"x\"").is_empty());
}

#[test]
fn unknown_components_are_reported_once() {
    let chain = vec![
        "<Mystery name=\"schema\"/>".to_string(),
        "<Creature name=\"a\"/><Gadget name=\"g\"/>".to_string(),
        "<Gadget name=\"again\"/><Widget name=\"w\"/>".to_string(),
    ];
    assert_eq!(unhandled_component_tags(&chain, true), vec!["Gadget", "Widget"]);
    assert_eq!(
        unhandled_component_tags(&chain, false),
        vec!["Mystery", "Gadget", "Widget"]
    );
    assert!(is_known_component("FightAi"));
    assert!(!is_known_component("fightai"));
}

#[test]
fn looped_play_modes() {
    assert!(SoundPlayMode::FullLoop.is_looped());
    assert!(SoundPlayMode::CurrentOneLooped.is_looped());
    assert!(!SoundPlayMode::NextOne.is_looped());
}

fn word(v: u32) -> [u8; 4] {
    v.to_le_bytes()
}

#[test]
fn ani0_frames_skip_leading_deltas() {
    let mut d = Vec::new();
    d.extend_from_slice(b"ani\0");
    d.extend_from_slice(&word(2)); // flags: leading deltas, z-only stride
    d.extend_from_slice(&word(1)); // frames
    d.extend_from_slice(&word(2)); // channels
    d.extend_from_slice(&1.5f32.to_le_bytes()); // stride z
    d.push(1); // loop
    d.extend_from_slice(&[0u8; 12]); // delta
    d.extend_from_slice(&2.0f32.to_le_bytes());
    d.extend_from_slice(&(-1.0f32).to_le_bytes());
    assert!(!anim_would_fault(&d));
    let a = parse_anim(&d).unwrap();
    assert_eq!((a.num_frames, a.num_channels), (1, 2));
    assert_eq!(f32::from_bits(a.stride_z), 1.5);
    assert!(a.is_loop);
    assert_eq!(a.frames, vec![vec![2.0f32.to_bits(), (-1.0f32).to_bits()]]);
}

#[test]
fn ani1_frames_and_truncation() {
    let mut d = Vec::new();
    d.extend_from_slice(b"ANI1");
    d.extend_from_slice(&word(0x8000_0001)); // loop, trailing deltas
    d.extend_from_slice(&word(2));
    d.extend_from_slice(&word(1));
    d.extend_from_slice(&[0u8; 8]);
    d.extend_from_slice(&3.0f32.to_le_bytes());
    for v in [1.0f32, 0.0, 0.0, 0.0, 2.0, 0.0, 0.0, 0.0] {
        d.extend_from_slice(&v.to_le_bytes());
    }
    let a = parse_anim(&d).unwrap();
    assert!(a.is_loop);
    assert_eq!(a.frames[1], vec![2.0f32.to_bits()]);
    d.pop();
    assert!(parse_anim(&d).is_none());
    assert!(parse_anim(b"xxxxxxxxxxxxxxxxxxxx").is_none());
}

#[test]
fn drawables_register_each_key_once() {
    let mut lib: DrawableLibrary<u32> = DrawableLibrary::new();
    assert!(lib.register("fx:spark#0".to_string(), "spark".to_string(), 7, Vec::new()));
    assert!(!lib.register("fx:spark#0".to_string(), "other".to_string(), 8, Vec::new()));
    assert!(lib.register("entity:a#1".to_string(), "a".to_string(), 9, Vec::new()));
    assert_eq!(lib.entries.len(), 2);
    assert_eq!(lib.entries[0].mesh, 7);
}

#[test]
fn ptx_fallback_matches_case_insensitively() {
    assert_eq!(
        ptx_fallback_file("Settings/Sparks.PTX", "sparks"),
        Some("Sparks.PTX".to_string())
    );
    assert_eq!(ptx_fallback_file("Settings/xsparks.ptx", "sparks"), None);
}
