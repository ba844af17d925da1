//! Inventory files: consumable item types and weapon item types.
//!
//! ```text
//! ITEM_TYPE medkit
//!     weight 1.5  useable 1  restore_health 50
//!     color_icon 255 0 0 255
//! end
//! WEAPON_TYPE pistol
//!     max_ammo 60  initial_ammo 12  ammo_type bullet
//! end
//! ```
//!
//! Keys match case-insensitively; a body ends at `end`, a `}` or the end
//! of the tokens; unknown keys are skipped.  A field no key set is `None`
//! and keeps its type's default.  Colors are four channel texts out of
//! 255, a missing or non-number channel being full; numbers stay texts.
//! Types are registered under their lower-cased name.
use crate::block_parser::{
    advance, sp_endblock, sp_read_float_opt, sp_read_i32_opt, sp_read_rgba, sp_read_string_opt,
    BlockParser,
};
use crate::registry::{assoc_insert, lemma_insert_map, map_entries, NameTable};
use crate::text::{lowercase, str_is, to_lowercase};
use crate::tokenizer::spec_tokens;
use vstd::prelude::*;

verus! {

/// What an item does when used.
pub enum ItemEffect {
    RestoreHealth { amount: String },
    RestoreSuperMeter { amount: String },
}

/// A color as four channel texts out of 255 (`None`: full).
pub type ChannelTexts = Vec<Option<String>>;

/// Fields both kinds of item have.
pub struct ItemBase {
    pub name: String,
    pub spawn_template: Option<String>,
    pub icon_color: Option<ChannelTexts>,
    pub line_color_start: Option<ChannelTexts>,
    pub line_color_end: Option<ChannelTexts>,
    pub weight: Option<String>,
}

pub struct ConsumableItemType {
    pub base: ItemBase,
    pub auto_use_on_pickup: Option<bool>,
    pub usable: Option<bool>,
    pub effects: Vec<ItemEffect>,
}

pub struct WeaponItemType {
    pub base: ItemBase,
    pub max_ammo: Option<String>,
    pub initial_ammo: Option<String>,
    pub weapon_type_name: Option<String>,
    pub ammo_type_name: Option<String>,
}

// ---------------------------------------------------------------------
// Views
// ---------------------------------------------------------------------

pub open spec fn ov(o: Option<String>) -> Option<Seq<char>> {
    match o {
        Some(s) => Some(s@),
        None => None,
    }
}

pub open spec fn channels_view(c: Seq<Option<String>>) -> Seq<Option<Seq<char>>> {
    c.map_values(|o: Option<String>| ov(o))
}

pub open spec fn color_view(c: Option<ChannelTexts>) -> Option<Seq<Option<Seq<char>>>> {
    match c {
        Some(v) => Some(channels_view(v@)),
        None => None,
    }
}

pub ghost enum EffectView {
    RestoreHealth(Seq<char>),
    RestoreSuperMeter(Seq<char>),
}

pub open spec fn effect_view(e: ItemEffect) -> EffectView {
    match e {
        ItemEffect::RestoreHealth { amount } => EffectView::RestoreHealth(amount@),
        ItemEffect::RestoreSuperMeter { amount } => EffectView::RestoreSuperMeter(amount@),
    }
}

pub ghost struct ItemView {
    pub name: Seq<char>,
    pub spawn_template: Option<Seq<char>>,
    pub icon_color: Option<Seq<Option<Seq<char>>>>,
    pub line_color_start: Option<Seq<Option<Seq<char>>>>,
    pub line_color_end: Option<Seq<Option<Seq<char>>>>,
    pub weight: Option<Seq<char>>,
    pub auto_use_on_pickup: Option<bool>,
    pub usable: Option<bool>,
    pub effects: Seq<EffectView>,
    pub max_ammo: Option<Seq<char>>,
    pub initial_ammo: Option<Seq<char>>,
    pub weapon_type_name: Option<Seq<char>>,
    pub ammo_type_name: Option<Seq<char>>,
}

pub open spec fn base_into(b: ItemBase, v: ItemView) -> ItemView {
    ItemView {
        name: b.name@,
        spawn_template: ov(b.spawn_template),
        icon_color: color_view(b.icon_color),
        line_color_start: color_view(b.line_color_start),
        line_color_end: color_view(b.line_color_end),
        weight: ov(b.weight),
        ..v
    }
}

/// An item with only its name.
pub open spec fn item_init(name: Seq<char>) -> ItemView {
    ItemView {
        name,
        spawn_template: None,
        icon_color: None,
        line_color_start: None,
        line_color_end: None,
        weight: None,
        auto_use_on_pickup: None,
        usable: None,
        effects: Seq::empty(),
        max_ammo: None,
        initial_ammo: None,
        weapon_type_name: None,
        ammo_type_name: None,
    }
}

pub open spec fn consumable_view(c: ConsumableItemType) -> ItemView {
    base_into(
        c.base,
        ItemView {
            auto_use_on_pickup: c.auto_use_on_pickup,
            usable: c.usable,
            effects: c.effects@.map_values(|e: ItemEffect| effect_view(e)),
            ..item_init(Seq::empty())
        },
    )
}

pub open spec fn weapon_item_view(w: WeaponItemType) -> ItemView {
    base_into(
        w.base,
        ItemView {
            max_ammo: ov(w.max_ammo),
            initial_ammo: ov(w.initial_ammo),
            weapon_type_name: ov(w.weapon_type_name),
            ammo_type_name: ov(w.ammo_type_name),
            ..item_init(Seq::empty())
        },
    )
}

// ---------------------------------------------------------------------
// The reading, as functions of the tokens and a position
// ---------------------------------------------------------------------

pub open spec fn or_text(v: Option<Seq<char>>, default: Seq<char>) -> Seq<char> {
    match v {
        Some(x) => x,
        None => default,
    }
}

pub open spec fn i32_or(v: Option<i32>, default: i32) -> i32 {
    match v {
        Some(x) => x,
        None => default,
    }
}

/// A color key's channels; white when the key is not found.
pub open spec fn rgba_or_white(v: Option<Seq<Option<Seq<char>>>>) -> Seq<Option<Seq<char>>> {
    match v {
        Some(cs) => cs,
        None => seq![None, None, None, None],
    }
}

/// The fields of a body from `p` applied to `d`, up to `end`, a `}` or
/// the end of the tokens; `weapon` selects the weapon keys.
pub open spec fn item_body(ts: Seq<Seq<char>>, p: int, d: ItemView, weapon: bool) -> (ItemView, int)
    decreases ts.len() - p,
    via item_body_decreases
{
    let (end, q) = sp_endblock(ts, p);
    if end || p < 0 {
        (d, q)
    } else {
        let tok = ts[p];
        let key = lowercase(tok);
        if key == "end"@ {
            (d, p + 1)
        } else if key == "spawn_template"@ {
            let (v, q2) = sp_read_string_opt(ts, p, tok);
            item_body(ts, q2, ItemView { spawn_template: v, ..d }, weapon)
        } else if key == "edge_model"@ || key == "model"@ {
            item_body(ts, advance(ts, advance(ts, p)), d, weapon)
        } else if key == "color_icon"@ {
            let (v, q2) = sp_read_rgba(ts, p, tok);
            item_body(ts, q2, ItemView { icon_color: Some(rgba_or_white(v)), ..d }, weapon)
        } else if key == "color_line_start"@ {
            let (v, q2) = sp_read_rgba(ts, p, tok);
            item_body(ts, q2, ItemView { line_color_start: Some(rgba_or_white(v)), ..d }, weapon)
        } else if key == "color_line_end"@ {
            let (v, q2) = sp_read_rgba(ts, p, tok);
            item_body(ts, q2, ItemView { line_color_end: Some(rgba_or_white(v)), ..d }, weapon)
        } else if key == "weight"@ {
            let (v, q2) = sp_read_float_opt(ts, p, tok);
            item_body(ts, q2, ItemView { weight: Some(or_text(v, "0.0"@)), ..d }, weapon)
        } else if !weapon && key == "auto_use"@ {
            let (v, q2) = sp_read_i32_opt(ts, p, tok);
            item_body(ts, q2, ItemView { auto_use_on_pickup: Some(i32_or(v, 0) != 0), ..d }, weapon)
        } else if !weapon && (key == "useable"@ || key == "usable"@) {
            let (v, q2) = sp_read_i32_opt(ts, p, tok);
            item_body(ts, q2, ItemView { usable: Some(i32_or(v, 0) != 0), ..d }, weapon)
        } else if !weapon && key == "restore_health"@ {
            let (v, q2) = sp_read_float_opt(ts, p, tok);
            item_body(
                ts,
                q2,
                ItemView { effects: d.effects.push(EffectView::RestoreHealth(or_text(v, "0.0"@))), ..d },
                weapon,
            )
        } else if !weapon && key == "restore_super_meter"@ {
            let (v, q2) = sp_read_float_opt(ts, p, tok);
            item_body(
                ts,
                q2,
                ItemView {
                    effects: d.effects.push(EffectView::RestoreSuperMeter(or_text(v, "0.0"@))),
                    ..d
                },
                weapon,
            )
        } else if weapon && key == "max_ammo"@ {
            let (v, q2) = sp_read_float_opt(ts, p, tok);
            item_body(ts, q2, ItemView { max_ammo: Some(or_text(v, "0.0"@)), ..d }, weapon)
        } else if weapon && key == "initial_ammo"@ {
            let (v, q2) = sp_read_float_opt(ts, p, tok);
            item_body(ts, q2, ItemView { initial_ammo: Some(or_text(v, "0.0"@)), ..d }, weapon)
        } else if weapon && key == "weapon_type"@ {
            let (v, q2) = sp_read_string_opt(ts, p, tok);
            item_body(ts, q2, ItemView { weapon_type_name: Some(or_text(v, Seq::empty())), ..d }, weapon)
        } else if weapon && key == "ammo_type"@ {
            let (v, q2) = sp_read_string_opt(ts, p, tok);
            item_body(ts, q2, ItemView { ammo_type_name: Some(or_text(v, Seq::empty())), ..d }, weapon)
        } else {
            item_body(ts, p + 1, d, weapon)
        }
    }
}

/// Every key of a body is consumed: reading it moves past `p`.
pub proof fn lemma_key_read_advances(ts: Seq<Seq<char>>, p: int)
    requires
        0 <= p < ts.len(),
    ensures
        p < sp_read_string_opt(ts, p, ts[p]).1 <= ts.len(),
        p < sp_read_float_opt(ts, p, ts[p]).1 <= ts.len(),
        p < sp_read_i32_opt(ts, p, ts[p]).1 <= ts.len(),
        p < sp_read_rgba(ts, p, ts[p]).1 <= ts.len(),
        p < advance(ts, advance(ts, p)) <= ts.len(),
{
    assert(crate::text::eq_ic(ts[p], ts[p]));
    assert(crate::block_parser::rgba_scan(ts, p, ts[p]) == p);
}

#[via_fn]
proof fn item_body_decreases(ts: Seq<Seq<char>>, p: int, d: ItemView, weapon: bool) {
    let (end, q) = sp_endblock(ts, p);
    if !(end || p < 0) {
        lemma_key_read_advances(ts, p);
    }
}

pub proof fn lemma_item_body_advances(ts: Seq<Seq<char>>, p: int, d: ItemView, weapon: bool)
    requires
        0 <= p <= ts.len(),
    ensures
        p <= item_body(ts, p, d, weapon).1 <= ts.len(),
    decreases ts.len() - p,
{
    let (end, q) = sp_endblock(ts, p);
    if !(end || p < 0) {
        lemma_key_read_advances(ts, p);
        let tok = ts[p];
        let key = lowercase(tok);
        if key == "end"@ {
        } else if key == "spawn_template"@ {
            let (v, q2) = sp_read_string_opt(ts, p, tok);
            lemma_item_body_advances(ts, q2, ItemView { spawn_template: v, ..d }, weapon);
        } else if key == "edge_model"@ || key == "model"@ {
            lemma_item_body_advances(ts, advance(ts, advance(ts, p)), d, weapon);
        } else if key == "color_icon"@ {
            let (v, q2) = sp_read_rgba(ts, p, tok);
            lemma_item_body_advances(ts, q2, ItemView { icon_color: Some(rgba_or_white(v)), ..d }, weapon);
        } else if key == "color_line_start"@ {
            let (v, q2) = sp_read_rgba(ts, p, tok);
            lemma_item_body_advances(
                ts,
                q2,
                ItemView { line_color_start: Some(rgba_or_white(v)), ..d },
                weapon,
            );
        } else if key == "color_line_end"@ {
            let (v, q2) = sp_read_rgba(ts, p, tok);
            lemma_item_body_advances(ts, q2, ItemView { line_color_end: Some(rgba_or_white(v)), ..d }, weapon);
        } else if key == "weight"@ {
            let (v, q2) = sp_read_float_opt(ts, p, tok);
            lemma_item_body_advances(ts, q2, ItemView { weight: Some(or_text(v, "0.0"@)), ..d }, weapon);
        } else if !weapon && key == "auto_use"@ {
            let (v, q2) = sp_read_i32_opt(ts, p, tok);
            lemma_item_body_advances(
                ts,
                q2,
                ItemView { auto_use_on_pickup: Some(i32_or(v, 0) != 0), ..d },
                weapon,
            );
        } else if !weapon && (key == "useable"@ || key == "usable"@) {
            let (v, q2) = sp_read_i32_opt(ts, p, tok);
            lemma_item_body_advances(ts, q2, ItemView { usable: Some(i32_or(v, 0) != 0), ..d }, weapon);
        } else if !weapon && key == "restore_health"@ {
            let (v, q2) = sp_read_float_opt(ts, p, tok);
            lemma_item_body_advances(
                ts,
                q2,
                ItemView { effects: d.effects.push(EffectView::RestoreHealth(or_text(v, "0.0"@))), ..d },
                weapon,
            );
        } else if !weapon && key == "restore_super_meter"@ {
            let (v, q2) = sp_read_float_opt(ts, p, tok);
            lemma_item_body_advances(
                ts,
                q2,
                ItemView {
                    effects: d.effects.push(EffectView::RestoreSuperMeter(or_text(v, "0.0"@))),
                    ..d
                },
                weapon,
            );
        } else if weapon && key == "max_ammo"@ {
            let (v, q2) = sp_read_float_opt(ts, p, tok);
            lemma_item_body_advances(ts, q2, ItemView { max_ammo: Some(or_text(v, "0.0"@)), ..d }, weapon);
        } else if weapon && key == "initial_ammo"@ {
            let (v, q2) = sp_read_float_opt(ts, p, tok);
            lemma_item_body_advances(ts, q2, ItemView { initial_ammo: Some(or_text(v, "0.0"@)), ..d }, weapon);
        } else if weapon && key == "weapon_type"@ {
            let (v, q2) = sp_read_string_opt(ts, p, tok);
            lemma_item_body_advances(
                ts,
                q2,
                ItemView { weapon_type_name: Some(or_text(v, Seq::empty())), ..d },
                weapon,
            );
        } else if weapon && key == "ammo_type"@ {
            let (v, q2) = sp_read_string_opt(ts, p, tok);
            lemma_item_body_advances(
                ts,
                q2,
                ItemView { ammo_type_name: Some(or_text(v, Seq::empty())), ..d },
                weapon,
            );
        } else {
            lemma_item_body_advances(ts, p + 1, d, weapon);
        }
    }
}

/// A weapon body leaves the consumable fields as they were, and a
/// consumable body the weapon fields.
proof fn lemma_item_body_keeps(ts: Seq<Seq<char>>, p: int, d: ItemView, weapon: bool)
    ensures
        weapon ==> ({
            let r = item_body(ts, p, d, weapon).0;
            &&& r.auto_use_on_pickup == d.auto_use_on_pickup
            &&& r.usable == d.usable
            &&& r.effects == d.effects
        }),
        !weapon ==> ({
            let r = item_body(ts, p, d, weapon).0;
            &&& r.max_ammo == d.max_ammo
            &&& r.initial_ammo == d.initial_ammo
            &&& r.weapon_type_name == d.weapon_type_name
            &&& r.ammo_type_name == d.ammo_type_name
        }),
    decreases ts.len() - p,
{
    let (end, q) = sp_endblock(ts, p);
    if !(end || p < 0) {
        lemma_key_read_advances(ts, p);
        let tok = ts[p];
        let key = lowercase(tok);
        if key == "end"@ {
        } else if key == "spawn_template"@ {
            let (v, q2) = sp_read_string_opt(ts, p, tok);
            lemma_item_body_keeps(ts, q2, ItemView { spawn_template: v, ..d }, weapon);
        } else if key == "edge_model"@ || key == "model"@ {
            lemma_item_body_keeps(ts, advance(ts, advance(ts, p)), d, weapon);
        } else if key == "color_icon"@ {
            let (v, q2) = sp_read_rgba(ts, p, tok);
            lemma_item_body_keeps(ts, q2, ItemView { icon_color: Some(rgba_or_white(v)), ..d }, weapon);
        } else if key == "color_line_start"@ {
            let (v, q2) = sp_read_rgba(ts, p, tok);
            lemma_item_body_keeps(ts, q2, ItemView { line_color_start: Some(rgba_or_white(v)), ..d }, weapon);
        } else if key == "color_line_end"@ {
            let (v, q2) = sp_read_rgba(ts, p, tok);
            lemma_item_body_keeps(ts, q2, ItemView { line_color_end: Some(rgba_or_white(v)), ..d }, weapon);
        } else if key == "weight"@ {
            let (v, q2) = sp_read_float_opt(ts, p, tok);
            lemma_item_body_keeps(ts, q2, ItemView { weight: Some(or_text(v, "0.0"@)), ..d }, weapon);
        } else if !weapon && key == "auto_use"@ {
            let (v, q2) = sp_read_i32_opt(ts, p, tok);
            lemma_item_body_keeps(ts, q2, ItemView { auto_use_on_pickup: Some(i32_or(v, 0) != 0), ..d }, weapon);
        } else if !weapon && (key == "useable"@ || key == "usable"@) {
            let (v, q2) = sp_read_i32_opt(ts, p, tok);
            lemma_item_body_keeps(ts, q2, ItemView { usable: Some(i32_or(v, 0) != 0), ..d }, weapon);
        } else if !weapon && key == "restore_health"@ {
            let (v, q2) = sp_read_float_opt(ts, p, tok);
            lemma_item_body_keeps(
                ts,
                q2,
                ItemView { effects: d.effects.push(EffectView::RestoreHealth(or_text(v, "0.0"@))), ..d },
                weapon,
            );
        } else if !weapon && key == "restore_super_meter"@ {
            let (v, q2) = sp_read_float_opt(ts, p, tok);
            lemma_item_body_keeps(
                ts,
                q2,
                ItemView {
                    effects: d.effects.push(EffectView::RestoreSuperMeter(or_text(v, "0.0"@))),
                    ..d
                },
                weapon,
            );
        } else if weapon && key == "max_ammo"@ {
            let (v, q2) = sp_read_float_opt(ts, p, tok);
            lemma_item_body_keeps(ts, q2, ItemView { max_ammo: Some(or_text(v, "0.0"@)), ..d }, weapon);
        } else if weapon && key == "initial_ammo"@ {
            let (v, q2) = sp_read_float_opt(ts, p, tok);
            lemma_item_body_keeps(ts, q2, ItemView { initial_ammo: Some(or_text(v, "0.0"@)), ..d }, weapon);
        } else if weapon && key == "weapon_type"@ {
            let (v, q2) = sp_read_string_opt(ts, p, tok);
            lemma_item_body_keeps(ts, q2, ItemView { weapon_type_name: Some(or_text(v, Seq::empty())), ..d }, weapon);
        } else if weapon && key == "ammo_type"@ {
            let (v, q2) = sp_read_string_opt(ts, p, tok);
            lemma_item_body_keeps(ts, q2, ItemView { ammo_type_name: Some(or_text(v, Seq::empty())), ..d }, weapon);
        } else {
            lemma_item_body_keeps(ts, p + 1, d, weapon);
        }
    }
}

pub type InvTables = (Seq<(Seq<char>, ItemView)>, Seq<(Seq<char>, ItemView)>);

/// The two tables after scanning the top level from `p`: `ITEM_TYPE` and
/// `WEAPON_TYPE` (any case) open a type named by the next token; other
/// tokens are skipped; a `}` ends the file.
pub open spec fn inv_scan(ts: Seq<Seq<char>>, p: int, t: InvTables) -> InvTables
    decreases ts.len() - p,
    via inv_scan_decreases
{
    let (end, q) = sp_endblock(ts, p);
    if end || p < 0 {
        t
    } else {
        let key = lowercase(ts[p]);
        let weapon = key == "weapon_type"@;
        if key == "item_type"@ || weapon {
            if p + 1 < ts.len() {
                let name = ts[p + 1];
                let (d, q2) = item_body(ts, p + 2, item_init(name), weapon);
                inv_scan(
                    ts,
                    q2,
                    if weapon {
                        (t.0, assoc_insert(t.1, lowercase(name), d))
                    } else {
                        (assoc_insert(t.0, lowercase(name), d), t.1)
                    },
                )
            } else {
                t
            }
        } else {
            inv_scan(ts, p + 1, t)
        }
    }
}

#[via_fn]
proof fn inv_scan_decreases(ts: Seq<Seq<char>>, p: int, t: InvTables) {
    let (end, q) = sp_endblock(ts, p);
    if !(end || p < 0) && p + 1 < ts.len() {
        let key = lowercase(ts[p]);
        lemma_item_body_advances(ts, p + 2, item_init(ts[p + 1]), key == "weapon_type"@);
    }
}

/// The consumable and weapon item tables of an inventory text.
pub open spec fn spec_parse_inventory(content: Seq<char>) -> InvTables {
    inv_scan(spec_tokens(content), 0, (Seq::empty(), Seq::empty()))
}

// ---------------------------------------------------------------------
// Reading
// ---------------------------------------------------------------------

/// An item being read.
struct Fields {
    base: ItemBase,
    auto_use_on_pickup: Option<bool>,
    usable: Option<bool>,
    effects: Vec<ItemEffect>,
    max_ammo: Option<String>,
    initial_ammo: Option<String>,
    weapon_type_name: Option<String>,
    ammo_type_name: Option<String>,
}

spec fn fields_view(f: Fields) -> ItemView {
    base_into(
        f.base,
        ItemView {
            auto_use_on_pickup: f.auto_use_on_pickup,
            usable: f.usable,
            effects: f.effects@.map_values(|e: ItemEffect| effect_view(e)),
            max_ammo: ov(f.max_ammo),
            initial_ammo: ov(f.initial_ammo),
            weapon_type_name: ov(f.weapon_type_name),
            ammo_type_name: ov(f.ammo_type_name),
            ..item_init(Seq::empty())
        },
    )
}

fn read_color(p: &mut BlockParser, key: &str) -> (r: ChannelTexts)
    ensures
        final(p).tokens() == old(p).tokens(),
        ({
            let (v, q) = sp_read_rgba(old(p).tokens(), old(p).position(), key@);
            &&& final(p).position() == q
            &&& channels_view(r@) == rgba_or_white(v)
        }),
{
    let ghost ts = p.tokens();
    let ghost p0 = p.position();
    match p.read_rgba(key) {
        Some(cs) => {
            assert(channels_view(cs@) =~= rgba_or_white(sp_read_rgba(ts, p0, key@).0));
            cs
        },
        None => {
            let cs: Vec<Option<String>> = vec![None, None, None, None];
            assert(channels_view(cs@) =~= seq![None, None, None, None]);
            cs
        },
    }
}

fn read_item_body(p: &mut BlockParser, f: &mut Fields, weapon: bool)
    requires
        0 <= old(p).position() <= old(p).tokens().len(),
    ensures
        final(p).tokens() == old(p).tokens(),
        (fields_view(*final(f)), final(p).position()) == item_body(
            old(p).tokens(),
            old(p).position(),
            fields_view(*old(f)),
            weapon,
        ),
    decreases old(p).tokens().len() - old(p).position(),
{
    let ghost ts = p.tokens();
    let ghost p0 = p.position();
    let ghost f0 = fields_view(*f);
    if p.endblock() {
        return;
    }
    let a_key: String = match p.peek() {
        Some(t) => t.to_owned(),
        None => String::new(),
    };
    proof {
        lemma_key_read_advances(ts, p0);
        reveal_strlit("");
        assert(""@ =~= Seq::<char>::empty());
    }
    let key = to_lowercase(a_key.as_str());
    let k = key.as_str();
    if str_is(k, "end") {
        p.next();
        return;
    }
    if str_is(k, "spawn_template") {
        f.base.spawn_template = p.read_string_opt(a_key.as_str());
    } else if str_is(k, "edge_model") || str_is(k, "model") {
        p.next();
        p.next();
    } else if str_is(k, "color_icon") {
        f.base.icon_color = Some(read_color(p, a_key.as_str()));
    } else if str_is(k, "color_line_start") {
        f.base.line_color_start = Some(read_color(p, a_key.as_str()));
    } else if str_is(k, "color_line_end") {
        f.base.line_color_end = Some(read_color(p, a_key.as_str()));
    } else if str_is(k, "weight") {
        f.base.weight = Some(p.read_float(a_key.as_str(), "0.0"));
    } else if !weapon && str_is(k, "auto_use") {
        f.auto_use_on_pickup = Some(p.read_i32(a_key.as_str(), 0) != 0);
    } else if !weapon && (str_is(k, "useable") || str_is(k, "usable")) {
        f.usable = Some(p.read_i32(a_key.as_str(), 0) != 0);
    } else if !weapon && str_is(k, "restore_health") {
        let amount = p.read_float(a_key.as_str(), "0.0");
        let ghost o = f.effects@.map_values(|e: ItemEffect| effect_view(e));
        let e = ItemEffect::RestoreHealth { amount };
        let ghost ev = effect_view(e);
        f.effects.push(e);
        assert(f.effects@.map_values(|e: ItemEffect| effect_view(e)) =~= o.push(ev));
    } else if !weapon && str_is(k, "restore_super_meter") {
        let amount = p.read_float(a_key.as_str(), "0.0");
        let ghost o = f.effects@.map_values(|e: ItemEffect| effect_view(e));
        let e = ItemEffect::RestoreSuperMeter { amount };
        let ghost ev = effect_view(e);
        f.effects.push(e);
        assert(f.effects@.map_values(|e: ItemEffect| effect_view(e)) =~= o.push(ev));
    } else if weapon && str_is(k, "max_ammo") {
        f.max_ammo = Some(p.read_float(a_key.as_str(), "0.0"));
    } else if weapon && str_is(k, "initial_ammo") {
        f.initial_ammo = Some(p.read_float(a_key.as_str(), "0.0"));
    } else if weapon && str_is(k, "weapon_type") {
        f.weapon_type_name = Some(p.read_string(a_key.as_str(), ""));
    } else if weapon && str_is(k, "ammo_type") {
        f.ammo_type_name = Some(p.read_string(a_key.as_str(), ""));
    } else {
        p.next();
    }
    let ghost q = p.position();
    let ghost d = fields_view(*f);
    assert(item_body(ts, p0, f0, weapon) == item_body(ts, q, d, weapon));
    read_item_body(p, f, weapon);
}

/// The consumable and weapon item tables of a view pair.
pub open spec fn inv_view(t: (NameTable<ConsumableItemType>, NameTable<WeaponItemType>)) -> InvTables {
    (
        map_entries(t.0.entries(), |c: ConsumableItemType| consumable_view(c)),
        map_entries(t.1.entries(), |w: WeaponItemType| weapon_item_view(w)),
    )
}

/// Parses an inventory text into its consumable and weapon item types.
pub fn parse_inventory_content(content: &str) -> (r: (NameTable<ConsumableItemType>, NameTable<WeaponItemType>))
    ensures
        inv_view(r) == spec_parse_inventory(content@),
{
    let mut items: NameTable<ConsumableItemType> = NameTable::new();
    let mut weapons: NameTable<WeaponItemType> = NameTable::new();
    let mut p = BlockParser::new(content);
    let ghost ts = p.tokens();
    assert(map_entries(items.entries(), |c: ConsumableItemType| consumable_view(c)) =~= Seq::<
        (Seq<char>, ItemView),
    >::empty());
    assert(map_entries(weapons.entries(), |w: WeaponItemType| weapon_item_view(w)) =~= Seq::<
        (Seq<char>, ItemView),
    >::empty());
    loop
        invariant_except_break
            p.tokens() == ts,
            ts == spec_tokens(content@),
            0 <= p.position() <= ts.len(),
            spec_parse_inventory(content@) == inv_scan(ts, p.position(), inv_view((items, weapons))),
        ensures
            spec_parse_inventory(content@) == inv_view((items, weapons)),
        decreases ts.len() - p.position(),
    {
        let ghost pos0 = p.position();
        if p.endblock() {
            break;
        }
        let a_key: String = match p.peek() {
            Some(t) => t.to_owned(),
            None => String::new(),
        };
        let key = to_lowercase(a_key.as_str());
        let weapon = str_is(key.as_str(), "weapon_type");
        if !(str_is(key.as_str(), "item_type") || weapon) {
            p.next();
            continue;
        }
        p.next();
        let name = match p.next() {
            Some(n) => n,
            None => {
                break;
            },
        };
        let ghost name_v = name@;
        assert(name_v == ts[pos0 + 1]);
        let mut f = Fields {
            base: ItemBase {
                name: name.clone(),
                spawn_template: None,
                icon_color: None,
                line_color_start: None,
                line_color_end: None,
                weight: None,
            },
            auto_use_on_pickup: None,
            usable: None,
            effects: Vec::new(),
            max_ammo: None,
            initial_ammo: None,
            weapon_type_name: None,
            ammo_type_name: None,
        };
        assert(f.effects@.map_values(|e: ItemEffect| effect_view(e)) =~= Seq::<EffectView>::empty());
        assert(fields_view(f) == item_init(name_v));
        proof {
            lemma_item_body_advances(ts, pos0 + 2, item_init(name_v), weapon);
        }
        read_item_body(&mut p, &mut f, weapon);
        proof {
            lemma_item_body_keeps(ts, pos0 + 2, item_init(name_v), weapon);
        }
        let ghost dv = fields_view(f);
        assert(lowercase(ts[pos0]) == key@);
        let lname = to_lowercase(name.as_str());
        if weapon {
            let w = WeaponItemType {
                base: f.base,
                max_ammo: f.max_ammo,
                initial_ammo: f.initial_ammo,
                weapon_type_name: f.weapon_type_name,
                ammo_type_name: f.ammo_type_name,
            };
            assert(weapon_item_view(w) == dv);
            proof {
                lemma_insert_map(weapons.entries(), lname@, w, |w: WeaponItemType| weapon_item_view(w));
            }
            weapons.insert(lname, w);
        } else {
            let c = ConsumableItemType {
                base: f.base,
                auto_use_on_pickup: f.auto_use_on_pickup,
                usable: f.usable,
                effects: f.effects,
            };
            assert(consumable_view(c) == dv);
            proof {
                lemma_insert_map(items.entries(), lname@, c, |c: ConsumableItemType| consumable_view(c));
            }
            items.insert(lname, c);
        }
    }
    (items, weapons)
}

} // verus!
