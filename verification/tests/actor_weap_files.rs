use oni2_assets::actor_weap::parse_actor_weap;

#[test]
fn mounts_are_read_per_weapon_type() {
    let content = "NUMWEAPONS 2\n{\n \"Pistol\" {\n  OUT { parentbone 11 gripoffset 0 0.1 0 }\n  away { parentbone 3 gripeulers 1 2 3 }\n }\n rifle\n junk { }\n}\n";
    let t = parse_actor_weap(content);
    assert_eq!(t.len(), 2);
    let p = t.get("pistol").expect("pistol");
    assert_eq!(p.out.parent_bone, Some(11));
    let o = p.out.offset.as_ref().expect("offset");
    assert_eq!((o[0].as_str(), o[1].as_str(), o[2].as_str()), ("0", "0.1", "0"));
    assert!(p.out.rot.is_none());
    assert_eq!(p.away.parent_bone, Some(3));
    let r = p.away.rot.as_ref().expect("rot");
    assert_eq!((r[0].as_str(), r[1].as_str(), r[2].as_str()), ("1", "2", "3"));
    // A name without a block is skipped; an empty block keeps defaults.
    assert!(t.get("rifle").is_none());
    let j = t.get("junk").expect("junk");
    assert!(j.out.parent_bone.is_none());
}

#[test]
fn no_weapons_block_means_no_mounts() {
    assert_eq!(parse_actor_weap("NUMWEAPONS 0").len(), 0);
    assert_eq!(parse_actor_weap("").len(), 0);
}
