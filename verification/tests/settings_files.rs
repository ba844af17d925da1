use oni2_assets::effect::{parse_effect, EffectDef};
use oni2_assets::projectile::{
    explosion_matrix_from, parse_projectile, ExplosionMatrix, HitType, ProjectileDef,
};
use oni2_assets::settings::{parse_settings, parse_settings_file, Number, SettingsValue};

const PROJ: &str = "BASICPROJECTILE \"Bullet\" {\n\
    LifeTime 2.5\n\
    GravityFactor 0\n\
    Color 1.0 0.5 0.25 0\n\
    FlightFX \"Tracer\"\n\
    ImpactEvent \"Spark\"\n\
    ExplodeOnImpact 0\n\
    ExplosionMatrix \"Flat\"\n\
    Damage\n\
    {\n\
        HitPoints 10\n\
        HitType 16\n\
    }\n\
}\n\
ROCKET \"Rpg\"\n\
{\n\
    Thrust 20\n\
    BurnFX \"Smoke\" // the trail\n\
    {\n\
        ModelName \"rocket_mdl\"\n\
        {\n\
            LifeTime 4\n\
            Damage { \n\
            }\n\
        }\n\
    }\n\
}\n";

#[test]
fn settings_definitions_and_blocks() {
    let defs = parse_settings(PROJ);
    assert_eq!(defs.len(), 2);
    assert_eq!(defs[0].def_type, "BASICPROJECTILE");
    assert_eq!(defs[0].name, "Bullet");
    let b = &defs[0].block;
    assert!(matches!(b.get("LifeTime"), Some(SettingsValue::Float(t)) if t == "2.5"));
    assert!(matches!(b.get("GravityFactor"), Some(SettingsValue::Int(0))));
    assert_eq!(
        b.get_floats("Color"),
        Some(vec!["1.0".to_string(), "0.5".to_string(), "0.25".to_string(), "0".to_string()])
    );
    assert_eq!(b.get_string("FlightFX"), Some("Tracer".to_string()));
    assert!(!b.get_bool("ExplodeOnImpact", true));
    assert!(b.get_bool("Missing", true));
    let dmg = b.get_block("Damage").unwrap();
    assert!(matches!(dmg.get_number("HitPoints"), Some(Number::Int(10))));
    assert!(b.get("Nothing").is_none());

    assert_eq!(defs[1].name, "Rpg");
    let r = &defs[1].block;
    assert_eq!(r.children.len(), 1);
    assert_eq!(r.get_string("BurnFX"), Some("Smoke".to_string()));
    assert_eq!(r.children[0].children.len(), 1);
}

#[test]
fn later_entries_replace_earlier_ones() {
    let defs = parse_settings("T \"x\" {\nA 1\nA \"two\"\n}\n");
    assert_eq!(defs.len(), 1);
    assert_eq!(defs[0].block.get_string("A"), Some("two".to_string()));
    assert!(defs[0].block.get_number("A").is_none());
}

#[test]
fn stray_lines_between_definitions_are_skipped() {
    let defs = parse_settings("junk line here\n}\nSFX Boom\n{\nAudioPackage \"boom\"\n}\n");
    assert_eq!(defs.len(), 1);
    assert_eq!(defs[0].def_type, "SFX");
    assert_eq!(defs[0].name, "Boom");
}

#[test]
fn flat_token_entry_point_finds_nothing() {
    assert!(parse_settings_file(PROJ).is_empty());
}

#[test]
fn basic_projectile_reads_its_block() {
    let defs = parse_settings(PROJ);
    let p = parse_projectile(&defs[0].def_type, &defs[0].name, &defs[0].block).unwrap();
    match &p {
        ProjectileDef::Basic(d) => {
            assert_eq!(d.name, "Bullet");
            assert!(matches!(&d.life_time, Some(Number::Float(t)) if t == "2.5"));
            assert_eq!(d.explosion_fx, Some("Spark".to_string()));
            assert!(!d.explode_on_impact);
            assert!(d.explode_on_time_out);
            assert_eq!(d.explosion_matrix, ExplosionMatrix::Flat);
            assert!(matches!(d.damage.hit_type, Some(Number::Int(16))));
            assert!(d.damage.impulse.is_none());
        }
        _ => panic!("expected a basic projectile"),
    }
    assert_eq!(p.proj_class(), "BasicProjectile");
    assert_eq!(p.flight_fx(), Some("Tracer".to_string()));
    assert_eq!(p.explode_fx(), Some("Spark".to_string()));
    assert!(p.explode_on_timeout());
}

#[test]
fn rocket_reads_nested_blocks() {
    let defs = parse_settings(PROJ);
    let p = parse_projectile("ROCKET", "Rpg", &defs[1].block).unwrap();
    match &p {
        ProjectileDef::Rocket(d) => {
            assert_eq!(d.inner_def.name, "Rpg_inner");
            assert_eq!(d.model_name, "rocket_mdl");
            assert!(matches!(d.thrust, Some(Number::Int(20))));
            assert!(matches!(d.inner_def.life_time, Some(Number::Int(4))));
            assert!(d.inner_def.damage.hit_points.is_none());
            assert!(d.inner_def.flight_fx.is_none());
        }
        _ => panic!("expected a rocket"),
    }
    assert_eq!(p.flight_fx(), Some("Smoke".to_string()));
    assert!(!p.explode_on_timeout());
    assert!(parse_projectile("NOTAPROJECTILE", "x", &defs[1].block).is_none());
}

#[test]
fn hit_types_and_matrices() {
    assert_eq!(HitType::from(12), HitType::Blunt);
    assert_eq!(HitType::from(16), HitType::Ballistic);
    assert_eq!(HitType::from(3), HitType::Unknown);
    assert_eq!(explosion_matrix_from("Align z with velocity"), ExplosionMatrix::Velocity);
    assert_eq!(explosion_matrix_from(""), ExplosionMatrix::Identity);
}

#[test]
fn effects_by_type() {
    let text = "LASER \"Beam\" {\nWidth 0.2\nHeadTexture \"None\"\nTailTexture \"beam_tail\"\n}\n\
        PARTICLEEFFECT \"Puff\" {\nBirthRate 3\n}\n\
        HEALTHINDICATOR \"Hp\" {\n{\nDuration 2\n{\nParticleSystem \"hp_ptx\"\nNumInitialParticles 5\n}\n}\nMidPercentage 40\n}\n";
    let defs = parse_settings(text);
    assert_eq!(defs.len(), 3);
    match parse_effect(&defs[0].def_type, &defs[0].name, &defs[0].block) {
        Some(EffectDef::Laser(l)) => {
            assert_eq!(l.head_texture, "None");
            assert!(!l.load_head_texture);
            assert!(l.load_tail_texture);
            assert!(matches!(l.width, Some(Number::Float(ref t)) if t == "0.2"));
        }
        _ => panic!("expected a laser"),
    }
    assert!(parse_effect(&defs[1].def_type, &defs[1].name, &defs[1].block).is_none());
    match parse_effect(&defs[2].def_type, &defs[2].name, &defs[2].block) {
        Some(EffectDef::HealthIndicator(h)) => {
            assert_eq!(h.system.system_name, "hp_ptx");
            assert!(matches!(h.system.num_initial_particles, Some(Number::Int(5))));
            assert!(matches!(h.duration, Some(Number::Int(2))));
            assert!(matches!(h.mid_percentage, Some(Number::Int(40))));
        }
        _ => panic!("expected a health indicator"),
    }
    assert!(parse_effect("UNKNOWN", "x", &defs[0].block).is_none());
}
