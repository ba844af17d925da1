use oni2_assets::weap::{parse_weap_content, Aimer, HoldType, TrigHoldMode};

fn texts(v: &[String; 3]) -> Vec<&str> {
    v.iter().map(|s| s.as_str()).collect()
}

const PISTOL: &str = r#"
{
BASEWEAPON "Pistol01"
{
    OpMode
    {
        AmmoSlot 1
        AmmoType "bullet"
        WeaponAnimation 3
        ChamberTime 0.5
        AutoFireDelay 0.1
        Throw 0
        TrigHoldMode Auto
        Aimer 2
        HoldType Pistol
        ShooterStandardRange 30
        AIParameters
        {
            MinimumRange 2
            MaximumRange 40
            FireDelay 0.3
        }
        MinChargeTime 0.25
        Projectile
        {
            ProjectileType "slug"
            MuzzleOffset 0 0.1 0.5
            Speed 90
        }
        FiringFX { FXType "flash" Offset 0 0 1 Delay 0.05 }
        FiringFX { FXType "smoke" }
    }
}
}
"#;

#[test]
fn weapon_op_mode_fields_are_read_in_order() {
    let table = parse_weap_content(PISTOL);
    assert_eq!(table.len(), 1);
    let w = table.get("pistol01").expect("weapon");
    assert_eq!(w.name, "Pistol01");
    assert_eq!(w.op_modes.len(), 1);
    let m = &w.op_modes[0];
    assert_eq!(m.ammo_slot, 1);
    assert_eq!(m.ammo_type.as_deref(), Some("bullet"));
    assert_eq!(m.chamber_time, "0.5");
    assert_eq!(m.auto_fire_delay, "0.1");
    assert!(!m.throws_weapon);
    assert_eq!(m.trig_hold_mode, TrigHoldMode::Auto);
    assert_eq!(m.aimer, Aimer::Ballistic);
    assert_eq!(m.hold_type, HoldType::Pistol);
    assert_eq!(m.shooter_standard_range, "30");
    let ai = m.ai_params.as_ref().expect("ai");
    assert_eq!(ai.minimum_range.as_deref(), Some("2"));
    assert_eq!(ai.maximum_range.as_deref(), Some("40"));
    assert_eq!(ai.desired_range, None);
    assert_eq!(ai.fire_delay.as_deref(), Some("0.3"));
    assert_eq!(ai.fire_delay_randomness, None);
    assert_eq!(m.first_state.min_charge_time, "0.25");
    assert_eq!(m.first_state.projectiles.len(), 1);
    let pr = &m.first_state.projectiles[0];
    assert_eq!(pr.projectile_name, "slug");
    assert_eq!(texts(&pr.muzzle_offset), vec!["0", "0.1", "0.5"]);
    assert_eq!(texts(&pr.muzzle_eulers), vec!["0", "0", "0"]);
    assert_eq!(pr.speed, "90");
    assert_eq!(pr.delay, "0.0");
    assert_eq!(pr.acc_target_range, "0.0");
    assert_eq!(m.first_state.firing_fx.len(), 2);
    assert_eq!(m.first_state.firing_fx[0].fx_name, "flash");
    assert_eq!(texts(&m.first_state.firing_fx[0].offset), vec!["0", "0", "1"]);
    assert_eq!(m.first_state.firing_fx[0].delay, "0.05");
    assert_eq!(m.first_state.firing_fx[1].fx_name, "smoke");
    assert_eq!(m.first_state.firing_fx[1].delay, "0.0");
    assert!(m.first_state.charging_fx.is_empty());
    assert!(m.charge_states.is_empty());
    assert!(w.entity_type.is_none());
    assert!(w.grip_offset.is_none());
}

#[test]
fn op_mode_defaults_when_fields_are_missing() {
    let table = parse_weap_content("BASEWEAPON Club { OpMode { HoldType Pipe } }");
    let w = table.get("club").expect("weapon");
    let m = &w.op_modes[0];
    assert_eq!(m.ammo_slot, 0);
    assert!(m.ammo_type.is_none());
    assert_eq!(m.chamber_time, "0.0");
    assert_eq!(m.auto_fire_delay, "0.2");
    assert_eq!(m.trig_hold_mode, TrigHoldMode::Single);
    assert_eq!(m.aimer, Aimer::Simple);
    assert_eq!(m.hold_type, HoldType::Pipe);
    assert_eq!(m.shooter_standard_range, "25.0");
    // The search for AIParameters ran to the end.
    assert!(m.ai_params.is_none());
    assert!(m.first_state.projectiles.is_empty());
}

#[test]
fn firing_effect_search_swallows_what_follows() {
    let content = "BASEWEAPON a { OpMode { AIParameters { } Projectile { } FiringFX { FXType f1 } ChargeStates { { MinChargeTime 2 } } } }\nBASEWEAPON b { }";
    let table = parse_weap_content(content);
    // The second weapon and the charge states are consumed by the
    // search for one more FiringFX.
    assert_eq!(table.len(), 1);
    let m = &table.get("a").expect("a").op_modes[0];
    assert_eq!(m.first_state.firing_fx.len(), 1);
    assert!(m.charge_states.is_empty());
}

#[test]
fn weapons_without_bodies_and_repeated_names() {
    let table = parse_weap_content("junk BASEWEAPON Alpha BASEWEAPON beta BASEWEAPON ALPHA { }");
    assert_eq!(table.len(), 2);
    // The later ALPHA replaced Alpha.
    assert_eq!(table.get("alpha").expect("alpha").name, "ALPHA");
    assert_eq!(table.get("beta").expect("beta").name, "beta");
    assert!(table.get("Alpha").is_none());
}

#[test]
fn trigger_and_hold_names_fall_back() {
    let table = parse_weap_content(
        "BASEWEAPON w { OpMode { TrigHoldMode FirstAndCharge Aimer 7 HoldType Sword } }",
    );
    let m = &table.get("w").expect("w").op_modes[0];
    assert_eq!(m.trig_hold_mode, TrigHoldMode::FirstAndCharge);
    assert_eq!(m.aimer, Aimer::Simple);
    assert_eq!(m.hold_type, HoldType::Invalid);
}
