use oni2_assets::camera::parse_campacknew;

#[test]
fn packages_register_at_their_closing_brace() {
    let content = "CAMERANEW_PACKAGE \"Hall\"\n{\n  Navigation \"HALL_FOLLOW\"\n  FightModeRadius 6\n  FightModeRunningAwayTime soon\n}\nCAMERANEW_PACKAGE Open\n{\n  Targeting T\n";
    let t = parse_campacknew(content);
    // The default package plus Hall; Open is never closed.
    assert_eq!(t.len(), 2);
    let d = t.get("DEFAULT_PACKAGE").expect("default");
    assert_eq!(d.navigation, "DEFAULT_FOLLOW");
    assert_eq!(d.fight_mode_radius, "5.0");
    let h = t.get("Hall").expect("hall");
    assert_eq!(h.navigation, "HALL_FOLLOW");
    assert_eq!(h.targeting, "");
    assert_eq!(h.fight_mode_radius, "6");
    assert_eq!(h.fight_mode_running_away_time, "0.0");
    assert!(t.get("Open").is_none());
}

#[test]
fn a_package_may_replace_the_default() {
    let t = parse_campacknew("CAMERANEW_PACKAGE DEFAULT_PACKAGE\n{\nFighting F\n}\n");
    assert_eq!(t.len(), 1);
    let d = t.get("DEFAULT_PACKAGE").expect("default");
    assert_eq!(d.fighting, "F");
    assert_eq!(d.navigation, "");
}
