use oni2_assets::anims::{apkg_aliases, apkg_location, parse_anims_content, AnimsItem};
use oni2_assets::audiopackages::parse_audiopackages;
use oni2_assets::jump::parse_jump_content;
use oni2_assets::particle::parse_ptx;
use oni2_assets::rct::{animreact_name, parse_rct_content, ANIMDIE_GENERAL_INDEX};
use oni2_assets::td::{parse_td_file, td_sound_entries};

#[test]
fn react_names_follow_the_enum() {
    assert_eq!(animreact_name(0), Some("ANIMREACT_REGULAR"));
    assert_eq!(animreact_name(18), Some("ANIMREACT_BLOCKED"));
    assert_eq!(animreact_name(ANIMDIE_GENERAL_INDEX), Some("ANIMDIE_GENERAL"));
    assert_eq!(animreact_name(57), None);
    assert_eq!(animreact_name(-1), None);
}

#[test]
fn rct_fields() {
    let text = "# reaction\n\
        SoundPackage hitsnd\n\
        InvulnerabilityStartPhase 0.25\n\
        GetUpAnim \"getup_fwd\"\n\
        EndRotationNotches -2\n\
        SoundFrame x\n\
        CanBeDieAnimation 1\n\
        // SoundFrame 9\n";
    let d = parse_rct_content(text);
    assert_eq!(d.sound_package, "hitsnd");
    assert_eq!(d.invulnerability_start_phase, Some("0.25".to_string()));
    assert_eq!(d.get_up_anim, "getup_fwd");
    assert_eq!(d.end_rotation_notches, -2);
    assert_eq!(d.sound_frame, 0);
    assert!(d.can_be_die_animation);
    assert_eq!(d.can_follow_with_wall_react, 0);
}

#[test]
fn audio_packages_and_nuggets() {
    let text = "PACKAGE \"Gun\"\n\
        PROBABILITY 0.5\n\
        NUGGET\n\
        {\n\
        SOUND \"gun01\"\n\
        volume 0.8\n\
        PITCH abc\n\
        }\n\
        NUGGET\n\
        SOUND \"gun 02\"\n\
        PACKAGE Quiet\n\
        // nothing\n\
        PACKAGE \"Gun\"\n\
        NUGGET\n";
    let dir = parse_audiopackages(text);
    assert_eq!(dir.len(), 2);
    let gun = dir.get("Gun").unwrap();
    assert_eq!(gun.nuggets.len(), 1);
    assert_eq!(gun.nuggets[0].sound, "");
    assert_eq!(gun.probability, None);
    let quiet = dir.get("Quiet").unwrap();
    assert!(quiet.nuggets.is_empty());
}

#[test]
fn audio_first_package_keeps_its_nuggets() {
    let text = "PACKAGE A\nPROBABILITY 0.25\nNUGGET\nSOUND \"a b\"\nVOLUME 0.9\nRANDOM_MAX_DELAY 2\n}\n";
    let dir = parse_audiopackages(text);
    let a = dir.get("A").unwrap();
    assert_eq!(a.probability, Some("0.25".to_string()));
    assert_eq!(a.nuggets.len(), 1);
    assert_eq!(a.nuggets[0].sound, "a b");
    assert_eq!(a.nuggets[0].volume, Some("0.9".to_string()));
    assert_eq!(a.nuggets[0].random_max_delay, Some("2".to_string()));
    assert_eq!(a.nuggets[0].pitch, None);
}

#[test]
fn ptx_fields_after_particle() {
    let text = "type: a\nParticle {\n  TextureName \"spark\"\n  Life 2.5\n  Velocity 1 2 x\n  \
        NumTextureTilesX 4\n  ColorBirth 0.5 0.25 1 0\n  RotatePtx 1\n  Bogus 3\n}\n";
    let d = parse_ptx(text, "sparks".to_string()).unwrap();
    assert_eq!(d.name, "sparks");
    assert_eq!(d.texture_name, Some("spark".to_string()));
    assert_eq!(d.life, "2.5");
    assert_eq!(d.velocity, ["1".to_string(), "2".to_string(), "0".to_string()]);
    assert_eq!(d.color_birth[0], "0.5");
    assert_eq!(d.color_birth[1], "0.25");
    assert_eq!(d.color_birth[3], "0");
    assert_eq!(d.grid_x, 4);
    assert_eq!(d.grid_y, 1);
    assert!(d.rotate_ptx);
    assert_eq!(d.rotate_speed, "5");
    assert!(parse_ptx("Emitter { Life 1 }", "x".to_string()).is_none());
}

#[test]
fn jumps_in_order() {
    let text = "jumpdata {\n height 2.0 gravity_factor 1.5 length 3 type \"high\"\n \
        junk height 1 gravity_factor 2 length 4 heading_adjust 0.5\n}\n";
    let c = parse_jump_content(text);
    assert_eq!(c.jumps.len(), 2);
    assert_eq!(c.jumps[0].height, "2.0");
    assert_eq!(c.jumps[0].jump_type, "high");
    assert_eq!(c.jumps[0].heading_adjust, "0");
    assert_eq!(c.jumps[1].length, "4");
    assert_eq!(c.jumps[1].heading_adjust, "0.5");
    assert!(parse_jump_content("height 1").jumps.is_empty());
}

#[test]
fn td_program_and_splits() {
    let text = "PROGRAM voice_bank // bank\n\nNUMSPLT 2\nhello\n3\n4\n1\nbye\nx\n";
    let p = parse_td_file(text).unwrap();
    assert_eq!(p.name, "voice_bank");
    assert_eq!(p.splits.len(), 2);
    assert_eq!(p.splits[0].name, "hello");
    assert_eq!(p.splits[0].vag_index, 3);
    assert_eq!(p.splits[0].parm_index, 4);
    assert!(p.splits[0].loop_flag);
    assert_eq!(p.splits[1].name, "bye");
    assert_eq!(p.splits[1].vag_index, 0);
    assert!(!p.splits[1].loop_flag);
    let e = td_sound_entries(&p, "bank1");
    assert_eq!(e[0], ("voice_bank:hello".to_string(), "bank1".to_string(), 3));
    assert!(parse_td_file("NUMSPLT 1\na\n").is_none());
}

#[test]
fn anims_items_and_packages() {
    let text = "package animpkg.nav.kno\nlocopkg foo\nAnims {\n  walk_fwd.anim WALK\n  # x\n}\n  run.anim RUN\n";
    let items = parse_anims_content(text);
    assert_eq!(items.len(), 2);
    assert!(matches!(&items[0], AnimsItem::Package(p) if p == "animpkg.nav.kno"));
    assert!(matches!(&items[1], AnimsItem::Alias { alias, anim } if alias == "WALK" && anim == "walk_fwd.anim"));
    assert_eq!(
        apkg_location("animpkg.nav.kno"),
        Some(("entity.tune/animpkg/nav".to_string(), "kno.apkg".to_string()))
    );
    assert_eq!(apkg_location("nodots"), None);
    let a = apkg_aliases("Anims {\nidle.anim IDLE\n}\nskip.anim SKIP\n");
    assert_eq!(a, vec![("IDLE".to_string(), "idle.anim".to_string())]);
}
