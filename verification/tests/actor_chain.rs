use oni2_assets::actor::{actor_from_chain, base_template};

const COMPONENTS: &str = r#"<components>
  <Creature name="Creature"><Player value="0"/><Faction value="None"/></Creature>
  <FX name="FX"><StartActive value="0"/></FX>
</components>"#;

const TEMPLATE: &str = r#"<actor>
  <EntityType value="guard_base"/>
  <Position value="1 2 3"/>
  <Creature name="Creature">
    <Faction value="Syndicate"/>
  </Creature>
  <Health name="Health"><MaxHitPoints value="100"/><DestroyTime value="soon"/></Health>
  <Inventory name="Inventory"><WeaponString value="pistol"/></Inventory>
  <Behavior name="Behavior"><Pad_FSM value=" player.fsm "/></Behavior>
</actor>"#;

const ACTOR: &str = r#"<actor base="Guard">
  <EntityType value="NONE"/>
  <Position value="4 5 6"/>
  <Creature name="Creature">
    <Faction value="TCTF"/>
    <Player value="1"/>
  </Creature>
  <Health name="Health"><MaxHitPoints value="250"/></Health>
  <FightAI name="FightAI"><Table value="guard.atk"/></FightAI>
</actor>"#;

fn chain(files: &[&str]) -> Vec<String> {
    files.iter().map(|s| s.to_string()).collect()
}

#[test]
fn actor_values_override_template_values() {
    let a = actor_from_chain(&chain(&[COMPONENTS, TEMPLATE, ACTOR]), true).expect("actor");
    // `NONE` does not override the template's entity type.
    assert_eq!(a.entity_type, "guard_base");
    assert_eq!(a.positions, vec!["1 2 3", "4 5 6"]);
    assert!(a.is_creature);
    assert!(a.is_player);
    assert_eq!(a.faction.as_deref(), Some("TCTF"));
    assert_eq!(a.max_hitpoints.as_deref(), Some("250"));
    // Not a number: none.
    assert_eq!(a.destroy_time, None);
    assert_eq!(a.weapon_string.as_deref(), Some("pistol"));
    assert_eq!(a.pad_fsm.as_deref(), Some("player"));
    assert!(a.has_fight_ai);
    assert_eq!(a.attack_table.as_deref(), Some("guard.atk"));
    // FX is declared only by components.xml: the actor does not have it.
    assert_eq!(a.fx_type, None);
    assert!(a.fx_start_active);
    assert_eq!(a.curve_speed, "0.0");
}

#[test]
fn components_xml_alone_declares_nothing() {
    let a = actor_from_chain(&chain(&[COMPONENTS, "<actor/>"]), true).expect("actor");
    assert!(!a.is_creature);
    assert!(!a.is_player);
    assert_eq!(a.faction, None);
    assert_eq!(a.entity_type, "IconTrigger");
    // Without the master file, its declarations count.
    let b = actor_from_chain(&chain(&[COMPONENTS]), false).expect("actor");
    assert!(b.is_creature);
    assert_eq!(b.faction.as_deref(), Some("None"));
    assert!(!b.fx_start_active);
}

#[test]
fn an_empty_chain_is_no_actor() {
    assert!(actor_from_chain(&Vec::new(), false).is_none());
    assert!(actor_from_chain(&chain(&[COMPONENTS]), true).is_none());
}

#[test]
fn base_template_is_the_first_base_attribute() {
    assert_eq!(base_template(r#"<actor base="Guard" x="1">"#).as_deref(), Some("Guard"));
    assert_eq!(base_template("<actor>"), None);
    assert_eq!(base_template(r#"<actor base="open"#), None);
}
