use oni2_assets::inventory::{parse_inventory_content, ItemEffect};

const INV: &str = "ITEM_TYPE Medkit
    weight 1.5
    useable 1
    restore_health 50
    color_icon 255 0 x 128
    model foo
end
WEAPON_TYPE Pistol
    max_ammo 60
    initial_ammo 12
    ammo_type bullet
    auto_use 1
end
";

#[test]
fn items_and_weapons_are_read_by_kind() {
    let (items, weapons) = parse_inventory_content(INV);
    assert_eq!(items.len(), 1);
    assert_eq!(weapons.len(), 1);
    let m = items.get("medkit").expect("medkit");
    assert_eq!(m.base.name, "Medkit");
    assert_eq!(m.base.weight.as_deref(), Some("1.5"));
    assert_eq!(m.usable, Some(true));
    assert_eq!(m.auto_use_on_pickup, None);
    assert_eq!(m.effects.len(), 1);
    assert!(matches!(&m.effects[0], ItemEffect::RestoreHealth { amount } if amount == "50"));
    let c = m.base.icon_color.as_ref().expect("color");
    assert_eq!(c[0].as_deref(), Some("255"));
    assert_eq!(c[1].as_deref(), Some("0"));
    assert_eq!(c[2], None);
    assert_eq!(c[3].as_deref(), Some("128"));
    assert!(m.base.line_color_start.is_none());
    let w = weapons.get("pistol").expect("pistol");
    assert_eq!(w.max_ammo.as_deref(), Some("60"));
    assert_eq!(w.initial_ammo.as_deref(), Some("12"));
    assert_eq!(w.ammo_type_name.as_deref(), Some("bullet"));
    assert_eq!(w.weapon_type_name, None);
}

#[test]
fn a_closing_brace_ends_the_file_and_names_lower_case() {
    let (items, weapons) = parse_inventory_content("item_type A end } ITEM_TYPE b end");
    assert_eq!(items.len(), 1);
    assert!(items.get("a").is_some());
    assert!(weapons.get("b").is_none());
    let (items, _) = parse_inventory_content("ITEM_TYPE");
    assert_eq!(items.len(), 0);
}
