//! `.weap` files: weapon types with their operational modes, the
//! projectiles and effects each mode fires, and its charge states.
//!
//! ```text
//! BASEWEAPON <name>
//! {
//!     OpMode { AmmoSlot 0 AmmoType <t> ChamberTime <f> ...
//!              AIParameters { ... }  Projectile { ... }  FiringFX { ... }
//!              ChargeStates { { MinChargeTime <f> Projectile { ... } ... } } }
//! }
//! ```
//!
//! Each field is read in a fixed order and only where it stands next;
//! blocks are closed by skipping to their `}`.  Numbers stay the texts of
//! the file (the default's text where a value is missing).  Weapon types
//! are registered under their lower-cased name.
use crate::block_parser::{
    advance, lemma_find_tok_bounds, skip_open_brace, sp_endblock, sp_read_float_opt,
    sp_read_floats_opt, sp_read_i32_opt, sp_read_string_opt, sp_start, sp_start_anonymous,
    tok_at, BlockParser,
};
use crate::expl::{vec3_view, zero3};
use crate::registry::{assoc_insert, lemma_insert_map, map_entries, NameTable};
use crate::text::{lowercase, str_is, to_lowercase};
use crate::tokenizer::spec_tokens;
use vstd::prelude::*;

verus! {

// ---------------------------------------------------------------------
// Types
// ---------------------------------------------------------------------

/// How holding the trigger fires.
#[derive(Debug, Clone, Copy, PartialEq, Eq, Structural)]
pub enum TrigHoldMode {
    Single,
    Auto,
    Charge,
    FirstAndCharge,
}

/// How a mode aims.
#[derive(Debug, Clone, Copy, PartialEq, Eq, Structural)]
pub enum Aimer {
    Simple,
    Ballistic,
}

/// How the weapon is held.
#[derive(Debug, Clone, Copy, PartialEq, Eq, Structural)]
pub enum HoldType {
    Rifle,
    Pipe,
    Pistol,
    Invalid,
}

/// A projectile a mode fires.
pub struct ProjectileInfo {
    pub projectile_name: String,
    pub muzzle_offset: [String; 3],
    pub muzzle_eulers: [String; 3],
    pub acc_target_range: String,
    pub acc_target_hit_prob: String,
    pub speed: String,
    pub delay: String,
    pub ammo_use: String,
}

/// An effect played when firing or charging.
pub struct EffectInfo {
    pub fx_name: String,
    pub offset: [String; 3],
    pub delay: String,
}

/// What a mode fires once charged for at least `min_charge_time`.
pub struct ChargeState {
    pub min_charge_time: String,
    pub projectiles: Vec<ProjectileInfo>,
    pub firing_fx: Vec<EffectInfo>,
    pub charging_fx: Vec<EffectInfo>,
}

/// The AI tuning of a mode. A value the block does not give (or gives as
/// a non-number) is `None` and keeps the tuning's default.
pub struct AiParameters {
    pub minimum_range: Option<String>,
    pub maximum_range: Option<String>,
    pub desired_range: Option<String>,
    pub burst_duration: Option<String>,
    pub burst_duration_randomness: Option<String>,
    pub min_aim_time: Option<String>,
    pub maximum_damage_range: Option<String>,
    pub damage_cone_angle: Option<String>,
    pub fire_delay: Option<String>,
    pub fire_delay_randomness: Option<String>,
}

/// One operational mode of a weapon.
pub struct OperationalMode {
    pub ammo_slot: i32,
    pub ammo_type: Option<String>,
    pub chamber_time: String,
    pub auto_fire_delay: String,
    pub throws_weapon: bool,
    pub trig_hold_mode: TrigHoldMode,
    pub aimer: Aimer,
    pub hold_type: HoldType,
    pub shooter_standard_range: String,
    /// `None` without an `AIParameters` block.
    pub ai_params: Option<AiParameters>,
    /// What the mode fires uncharged.
    pub first_state: ChargeState,
    pub charge_states: Vec<ChargeState>,
}

/// A weapon type.
pub struct WeaponTypeData {
    /// Empty when `BASEWEAPON` names nothing.
    pub name: String,
    pub op_modes: Vec<OperationalMode>,
    /// `None` unless given.
    pub entity_type: Option<String>,
    /// `None` unless given.
    pub grip_offset: Option<[String; 3]>,
    /// `None` unless given.
    pub grip_eulers: Option<[String; 3]>,
}

// ---------------------------------------------------------------------
// Views
// ---------------------------------------------------------------------

pub open spec fn opt_view(o: Option<String>) -> Option<Seq<char>> {
    match o {
        Some(s) => Some(s@),
        None => None,
    }
}

pub open spec fn opt_vec3_view(o: Option<[String; 3]>) -> Option<Seq<Seq<char>>> {
    match o {
        Some(v) => Some(vec3_view(v)),
        None => None,
    }
}

pub ghost struct ProjectileView {
    pub projectile_name: Seq<char>,
    pub muzzle_offset: Seq<Seq<char>>,
    pub muzzle_eulers: Seq<Seq<char>>,
    pub acc_target_range: Seq<char>,
    pub acc_target_hit_prob: Seq<char>,
    pub speed: Seq<char>,
    pub delay: Seq<char>,
    pub ammo_use: Seq<char>,
}

impl View for ProjectileInfo {
    type V = ProjectileView;

    open spec fn view(&self) -> ProjectileView {
        ProjectileView {
            projectile_name: self.projectile_name@,
            muzzle_offset: vec3_view(self.muzzle_offset),
            muzzle_eulers: vec3_view(self.muzzle_eulers),
            acc_target_range: self.acc_target_range@,
            acc_target_hit_prob: self.acc_target_hit_prob@,
            speed: self.speed@,
            delay: self.delay@,
            ammo_use: self.ammo_use@,
        }
    }
}

pub ghost struct EffectView {
    pub fx_name: Seq<char>,
    pub offset: Seq<Seq<char>>,
    pub delay: Seq<char>,
}

impl View for EffectInfo {
    type V = EffectView;

    open spec fn view(&self) -> EffectView {
        EffectView { fx_name: self.fx_name@, offset: vec3_view(self.offset), delay: self.delay@ }
    }
}

pub open spec fn projectiles_view(v: Seq<ProjectileInfo>) -> Seq<ProjectileView> {
    v.map_values(|p: ProjectileInfo| p@)
}

pub open spec fn effects_view(v: Seq<EffectInfo>) -> Seq<EffectView> {
    v.map_values(|e: EffectInfo| e@)
}

pub ghost struct ChargeStateView {
    pub min_charge_time: Seq<char>,
    pub projectiles: Seq<ProjectileView>,
    pub firing_fx: Seq<EffectView>,
    pub charging_fx: Seq<EffectView>,
}

impl View for ChargeState {
    type V = ChargeStateView;

    open spec fn view(&self) -> ChargeStateView {
        ChargeStateView {
            min_charge_time: self.min_charge_time@,
            projectiles: projectiles_view(self.projectiles@),
            firing_fx: effects_view(self.firing_fx@),
            charging_fx: effects_view(self.charging_fx@),
        }
    }
}

pub open spec fn charge_states_view(v: Seq<ChargeState>) -> Seq<ChargeStateView> {
    v.map_values(|c: ChargeState| c@)
}

pub ghost struct AiView {
    pub minimum_range: Option<Seq<char>>,
    pub maximum_range: Option<Seq<char>>,
    pub desired_range: Option<Seq<char>>,
    pub burst_duration: Option<Seq<char>>,
    pub burst_duration_randomness: Option<Seq<char>>,
    pub min_aim_time: Option<Seq<char>>,
    pub maximum_damage_range: Option<Seq<char>>,
    pub damage_cone_angle: Option<Seq<char>>,
    pub fire_delay: Option<Seq<char>>,
    pub fire_delay_randomness: Option<Seq<char>>,
}

impl View for AiParameters {
    type V = AiView;

    open spec fn view(&self) -> AiView {
        AiView {
            minimum_range: opt_view(self.minimum_range),
            maximum_range: opt_view(self.maximum_range),
            desired_range: opt_view(self.desired_range),
            burst_duration: opt_view(self.burst_duration),
            burst_duration_randomness: opt_view(self.burst_duration_randomness),
            min_aim_time: opt_view(self.min_aim_time),
            maximum_damage_range: opt_view(self.maximum_damage_range),
            damage_cone_angle: opt_view(self.damage_cone_angle),
            fire_delay: opt_view(self.fire_delay),
            fire_delay_randomness: opt_view(self.fire_delay_randomness),
        }
    }
}

pub ghost struct OpModeView {
    pub ammo_slot: i32,
    pub ammo_type: Option<Seq<char>>,
    pub chamber_time: Seq<char>,
    pub auto_fire_delay: Seq<char>,
    pub throws_weapon: bool,
    pub trig_hold_mode: TrigHoldMode,
    pub aimer: Aimer,
    pub hold_type: HoldType,
    pub shooter_standard_range: Seq<char>,
    pub ai_params: Option<AiView>,
    pub first_state: ChargeStateView,
    pub charge_states: Seq<ChargeStateView>,
}

impl View for OperationalMode {
    type V = OpModeView;

    open spec fn view(&self) -> OpModeView {
        OpModeView {
            ammo_slot: self.ammo_slot,
            ammo_type: opt_view(self.ammo_type),
            chamber_time: self.chamber_time@,
            auto_fire_delay: self.auto_fire_delay@,
            throws_weapon: self.throws_weapon,
            trig_hold_mode: self.trig_hold_mode,
            aimer: self.aimer,
            hold_type: self.hold_type,
            shooter_standard_range: self.shooter_standard_range@,
            ai_params: match self.ai_params {
                Some(a) => Some(a@),
                None => None,
            },
            first_state: self.first_state@,
            charge_states: charge_states_view(self.charge_states@),
        }
    }
}

pub open spec fn op_modes_view(v: Seq<OperationalMode>) -> Seq<OpModeView> {
    v.map_values(|m: OperationalMode| m@)
}

pub ghost struct WeaponView {
    pub name: Seq<char>,
    pub op_modes: Seq<OpModeView>,
    pub entity_type: Option<Seq<char>>,
    pub grip_offset: Option<Seq<Seq<char>>>,
    pub grip_eulers: Option<Seq<Seq<char>>>,
}

impl View for WeaponTypeData {
    type V = WeaponView;

    open spec fn view(&self) -> WeaponView {
        WeaponView {
            name: self.name@,
            op_modes: op_modes_view(self.op_modes@),
            entity_type: opt_view(self.entity_type),
            grip_offset: opt_vec3_view(self.grip_offset),
            grip_eulers: opt_vec3_view(self.grip_eulers),
        }
    }
}

/// The view of a table of weapon types.
pub open spec fn weap_table_view(t: NameTable<WeaponTypeData>) -> Seq<(Seq<char>, WeaponView)> {
    map_entries(t.entries(), |w: WeaponTypeData| w@)
}

// ---------------------------------------------------------------------
// The reading, as functions of the tokens and a position
// ---------------------------------------------------------------------

/// The value, or the default's text.
pub open spec fn or_text(v: Option<Seq<char>>, default: Seq<char>) -> Seq<char> {
    match v {
        Some(x) => x,
        None => default,
    }
}

pub open spec fn or_zero3(v: Option<Seq<Seq<char>>>) -> Seq<Seq<char>> {
    match v {
        Some(x) => x,
        None => zero3(),
    }
}

/// `while !endblock() { next() }`: the position after the first `}` at
/// or after `p`, or the end.
pub open spec fn skip_rest(ts: Seq<Seq<char>>, p: int) -> int
    decreases ts.len() - p,
{
    let (end, q) = sp_endblock(ts, p);
    if end || !(0 <= p < ts.len()) {
        q
    } else {
        skip_rest(ts, p + 1)
    }
}

pub proof fn lemma_skip_rest(ts: Seq<Seq<char>>, p: int)
    requires
        0 <= p <= ts.len(),
    ensures
        p <= skip_rest(ts, p) <= ts.len(),
    decreases ts.len() - p,
{
    let (end, q) = sp_endblock(ts, p);
    if !(end || !(0 <= p < ts.len())) {
        lemma_skip_rest(ts, p + 1);
    }
}

/// `start(name)` ends at or after `p`, and past `p` when it succeeds.
pub proof fn lemma_start(ts: Seq<Seq<char>>, p: int, name: Seq<char>)
    requires
        0 <= p <= ts.len(),
    ensures
        p <= sp_start(ts, p, name).1 <= ts.len(),
        sp_start(ts, p, name).0 ==> p < sp_start(ts, p, name).1,
{
    lemma_find_tok_bounds(ts, p, name);
}

/// A `Projectile` block after its header: its fields, then the rest of
/// the block skipped.
pub open spec fn proj_block(ts: Seq<Seq<char>>, p: int) -> (ProjectileView, int) {
    let (name, p1) = sp_read_string_opt(ts, p, "ProjectileType"@);
    let (mo, p2) = sp_read_floats_opt(ts, p1, "MuzzleOffset"@, 3);
    let (me, p3) = sp_read_floats_opt(ts, p2, "MuzzleEulers"@, 3);
    let (r, p4) = sp_read_float_opt(ts, p3, "AccTargetRange"@);
    let (h, p5) = sp_read_float_opt(ts, p4, "AccTargetHitProb"@);
    let (s, p6) = sp_read_float_opt(ts, p5, "Speed"@);
    let (d, p7) = sp_read_float_opt(ts, p6, "Delay"@);
    let (a, p8) = sp_read_float_opt(ts, p7, "AmmoUse"@);
    (
        ProjectileView {
            projectile_name: or_text(name, Seq::empty()),
            muzzle_offset: or_zero3(mo),
            muzzle_eulers: or_zero3(me),
            acc_target_range: or_text(r, "0.0"@),
            acc_target_hit_prob: or_text(h, "0.0"@),
            speed: or_text(s, "0.0"@),
            delay: or_text(d, "0.0"@),
            ammo_use: or_text(a, "0.0"@),
        },
        skip_rest(ts, p8),
    )
}

pub proof fn lemma_proj_block(ts: Seq<Seq<char>>, p: int)
    requires
        0 <= p <= ts.len(),
    ensures
        p <= proj_block(ts, p).1 <= ts.len(),
{
    let (name, p1) = sp_read_string_opt(ts, p, "ProjectileType"@);
    let (mo, p2) = sp_read_floats_opt(ts, p1, "MuzzleOffset"@, 3);
    let (me, p3) = sp_read_floats_opt(ts, p2, "MuzzleEulers"@, 3);
    let (r, p4) = sp_read_float_opt(ts, p3, "AccTargetRange"@);
    let (h, p5) = sp_read_float_opt(ts, p4, "AccTargetHitProb"@);
    let (s, p6) = sp_read_float_opt(ts, p5, "Speed"@);
    let (d, p7) = sp_read_float_opt(ts, p6, "Delay"@);
    let (a, p8) = sp_read_float_opt(ts, p7, "AmmoUse"@);
    lemma_skip_rest(ts, p8);
}

/// An effect block after its header.
pub open spec fn fx_block(ts: Seq<Seq<char>>, p: int) -> (EffectView, int) {
    let (name, p1) = sp_read_string_opt(ts, p, "FXType"@);
    let (o, p2) = sp_read_floats_opt(ts, p1, "Offset"@, 3);
    let (d, p3) = sp_read_float_opt(ts, p2, "Delay"@);
    (
        EffectView { fx_name: or_text(name, Seq::empty()), offset: or_zero3(o), delay: or_text(d, "0.0"@) },
        skip_rest(ts, p3),
    )
}

pub proof fn lemma_fx_block(ts: Seq<Seq<char>>, p: int)
    requires
        0 <= p <= ts.len(),
    ensures
        p <= fx_block(ts, p).1 <= ts.len(),
{
    let (name, p1) = sp_read_string_opt(ts, p, "FXType"@);
    let (o, p2) = sp_read_floats_opt(ts, p1, "Offset"@, 3);
    let (d, p3) = sp_read_float_opt(ts, p2, "Delay"@);
    lemma_skip_rest(ts, p3);
}

/// `while start(name) { effect }`: the effects of the blocks named
/// `name`, each found by skipping ahead to it; the search for one more
/// consumes the rest of the tokens.
pub open spec fn fx_loop(ts: Seq<Seq<char>>, p: int, name: Seq<char>) -> (Seq<EffectView>, int)
    decreases ts.len() - p,
    via fx_loop_decreases
{
    let (ok, q) = sp_start(ts, p, name);
    if !ok || !(0 <= p <= ts.len()) {
        (Seq::empty(), q)
    } else {
        let (fx, r) = fx_block(ts, q);
        let (rest, s) = fx_loop(ts, r, name);
        (seq![fx] + rest, s)
    }
}

#[via_fn]
proof fn fx_loop_decreases(ts: Seq<Seq<char>>, p: int, name: Seq<char>) {
    let (ok, q) = sp_start(ts, p, name);
    if ok && 0 <= p <= ts.len() {
        lemma_start(ts, p, name);
        lemma_fx_block(ts, q);
    }
}

pub proof fn lemma_fx_loop(ts: Seq<Seq<char>>, p: int, name: Seq<char>)
    requires
        0 <= p <= ts.len(),
    ensures
        p <= fx_loop(ts, p, name).1 <= ts.len(),
    decreases ts.len() - p,
{
    let (ok, q) = sp_start(ts, p, name);
    lemma_start(ts, p, name);
    if ok {
        lemma_fx_block(ts, q);
        let (fx, r) = fx_block(ts, q);
        lemma_fx_loop(ts, r, name);
    }
}

/// An `AIParameters` block after its header.
pub open spec fn ai_block(ts: Seq<Seq<char>>, p: int) -> (AiView, int) {
    let (a, p1) = sp_read_float_opt(ts, p, "MinimumRange"@);
    let (b, p2) = sp_read_float_opt(ts, p1, "MaximumRange"@);
    let (c, p3) = sp_read_float_opt(ts, p2, "DesiredRange"@);
    let (d, p4) = sp_read_float_opt(ts, p3, "BurstDuration"@);
    let (e, p5) = sp_read_float_opt(ts, p4, "BurstDurationRandomness"@);
    let (f, p6) = sp_read_float_opt(ts, p5, "MinAimTime"@);
    let (g, p7) = sp_read_float_opt(ts, p6, "MaximumDamageRange"@);
    let (h, p8) = sp_read_float_opt(ts, p7, "DamageConeAngle"@);
    let (i, p9) = sp_read_float_opt(ts, p8, "FireDelay"@);
    let (j, p10) = sp_read_float_opt(ts, p9, "FireDelayRandomness"@);
    (
        AiView {
            minimum_range: a,
            maximum_range: b,
            desired_range: c,
            burst_duration: d,
            burst_duration_randomness: e,
            min_aim_time: f,
            maximum_damage_range: g,
            damage_cone_angle: h,
            fire_delay: i,
            fire_delay_randomness: j,
        },
        skip_rest(ts, p10),
    )
}

pub proof fn lemma_ai_block(ts: Seq<Seq<char>>, p: int)
    requires
        0 <= p <= ts.len(),
    ensures
        p <= ai_block(ts, p).1 <= ts.len(),
{
    let (a, p1) = sp_read_float_opt(ts, p, "MinimumRange"@);
    let (b, p2) = sp_read_float_opt(ts, p1, "MaximumRange"@);
    let (c, p3) = sp_read_float_opt(ts, p2, "DesiredRange"@);
    let (d, p4) = sp_read_float_opt(ts, p3, "BurstDuration"@);
    let (e, p5) = sp_read_float_opt(ts, p4, "BurstDurationRandomness"@);
    let (f, p6) = sp_read_float_opt(ts, p5, "MinAimTime"@);
    let (g, p7) = sp_read_float_opt(ts, p6, "MaximumDamageRange"@);
    let (h, p8) = sp_read_float_opt(ts, p7, "DamageConeAngle"@);
    let (i, p9) = sp_read_float_opt(ts, p8, "FireDelay"@);
    let (j, p10) = sp_read_float_opt(ts, p9, "FireDelayRandomness"@);
    lemma_skip_rest(ts, p10);
}

/// An optional `Projectile` block found by skipping ahead: its projectile,
/// if found.
pub open spec fn opt_proj(ts: Seq<Seq<char>>, p: int) -> (Seq<ProjectileView>, int) {
    let (ok, q) = sp_start(ts, p, "Projectile"@);
    if ok {
        let (pr, r) = proj_block(ts, q);
        (seq![pr], r)
    } else {
        (Seq::empty(), q)
    }
}

pub proof fn lemma_opt_proj(ts: Seq<Seq<char>>, p: int)
    requires
        0 <= p <= ts.len(),
    ensures
        p <= opt_proj(ts, p).1 <= ts.len(),
{
    lemma_start(ts, p, "Projectile"@);
    let (ok, q) = sp_start(ts, p, "Projectile"@);
    if ok {
        lemma_proj_block(ts, q);
    }
}

/// A charge state's anonymous block after its `{`.
pub open spec fn charge_state_block(ts: Seq<Seq<char>>, p: int) -> (ChargeStateView, int) {
    let (mct, p1) = sp_read_float_opt(ts, p, "MinChargeTime"@);
    let (projs, p2) = opt_proj(ts, p1);
    let (ffx, p3) = fx_loop(ts, p2, "FiringFX"@);
    let (cfx, p4) = fx_loop(ts, p3, "ChargingFX"@);
    (
        ChargeStateView {
            min_charge_time: or_text(mct, "0.0"@),
            projectiles: projs,
            firing_fx: ffx,
            charging_fx: cfx,
        },
        skip_rest(ts, p4),
    )
}

pub proof fn lemma_charge_state_block(ts: Seq<Seq<char>>, p: int)
    requires
        0 <= p <= ts.len(),
    ensures
        p <= charge_state_block(ts, p).1 <= ts.len(),
{
    let (mct, p1) = sp_read_float_opt(ts, p, "MinChargeTime"@);
    lemma_opt_proj(ts, p1);
    let (projs, p2) = opt_proj(ts, p1);
    lemma_fx_loop(ts, p2, "FiringFX"@);
    let (ffx, p3) = fx_loop(ts, p2, "FiringFX"@);
    lemma_fx_loop(ts, p3, "ChargingFX"@);
    let (cfx, p4) = fx_loop(ts, p3, "ChargingFX"@);
    lemma_skip_rest(ts, p4);
}

/// The body of a `ChargeStates` block: each anonymous block is a charge
/// state; other tokens are skipped.
pub open spec fn charge_states_loop(ts: Seq<Seq<char>>, p: int) -> (Seq<ChargeStateView>, int)
    decreases ts.len() - p,
    via charge_states_loop_decreases
{
    let (end, q) = sp_endblock(ts, p);
    if end || !(0 <= p < ts.len()) {
        (Seq::empty(), q)
    } else {
        let (anon, q1) = sp_start_anonymous(ts, p);
        if anon {
            let (cs, r) = charge_state_block(ts, q1);
            let (rest, s) = charge_states_loop(ts, r);
            (seq![cs] + rest, s)
        } else {
            charge_states_loop(ts, p + 1)
        }
    }
}

#[via_fn]
proof fn charge_states_loop_decreases(ts: Seq<Seq<char>>, p: int) {
    let (end, q) = sp_endblock(ts, p);
    if !(end || !(0 <= p < ts.len())) {
        let (anon, q1) = sp_start_anonymous(ts, p);
        if anon {
            lemma_charge_state_block(ts, q1);
        }
    }
}

pub proof fn lemma_charge_states_loop(ts: Seq<Seq<char>>, p: int)
    requires
        0 <= p <= ts.len(),
    ensures
        p <= charge_states_loop(ts, p).1 <= ts.len(),
    decreases ts.len() - p,
{
    let (end, q) = sp_endblock(ts, p);
    if !(end || !(0 <= p < ts.len())) {
        let (anon, q1) = sp_start_anonymous(ts, p);
        if anon {
            lemma_charge_state_block(ts, q1);
            let (cs, r) = charge_state_block(ts, q1);
            lemma_charge_states_loop(ts, r);
        } else {
            lemma_charge_states_loop(ts, p + 1);
        }
    }
}

pub open spec fn trig_hold_of(s: Seq<char>) -> TrigHoldMode {
    if s == "Auto"@ {
        TrigHoldMode::Auto
    } else if s == "Charge"@ {
        TrigHoldMode::Charge
    } else if s == "FirstAndCharge"@ {
        TrigHoldMode::FirstAndCharge
    } else {
        TrigHoldMode::Single
    }
}

pub open spec fn aimer_of(v: i32) -> Aimer {
    if v == 2 {
        Aimer::Ballistic
    } else {
        Aimer::Simple
    }
}

pub open spec fn hold_type_of(s: Seq<char>) -> HoldType {
    if s == "Rifle"@ {
        HoldType::Rifle
    } else if s == "Pipe"@ {
        HoldType::Pipe
    } else if s == "Pistol"@ {
        HoldType::Pistol
    } else {
        HoldType::Invalid
    }
}

pub open spec fn i32_or(v: Option<i32>, default: i32) -> i32 {
    match v {
        Some(x) => x,
        None => default,
    }
}

/// The fields of an operational mode before its blocks, read in order;
/// the weapon animation is read and dropped.
pub open spec fn opmode_head(ts: Seq<Seq<char>>, p: int) -> (OpModeView, int) {
    let (slot, p1) = sp_read_i32_opt(ts, p, "AmmoSlot"@);
    let (ammo, p2) = sp_read_string_opt(ts, p1, "AmmoType"@);
    let (anim, p3) = sp_read_i32_opt(ts, p2, "WeaponAnimation"@);
    let (ct, p4) = sp_read_float_opt(ts, p3, "ChamberTime"@);
    let (afd, p5) = sp_read_float_opt(ts, p4, "AutoFireDelay"@);
    let (thr, p6) = sp_read_i32_opt(ts, p5, "Throw"@);
    let (trig, p7) = sp_read_string_opt(ts, p6, "TrigHoldMode"@);
    let (aim, p8) = sp_read_i32_opt(ts, p7, "Aimer"@);
    let (hold, p9) = sp_read_string_opt(ts, p8, "HoldType"@);
    let (ssr, p10) = sp_read_float_opt(ts, p9, "ShooterStandardRange"@);
    (
        OpModeView {
            ammo_slot: i32_or(slot, 0),
            ammo_type: ammo,
            chamber_time: or_text(ct, "0.0"@),
            auto_fire_delay: or_text(afd, "0.2"@),
            throws_weapon: i32_or(thr, 0) != 0,
            trig_hold_mode: trig_hold_of(or_text(trig, Seq::empty())),
            aimer: aimer_of(i32_or(aim, 1)),
            hold_type: hold_type_of(or_text(hold, Seq::empty())),
            shooter_standard_range: or_text(ssr, "25.0"@),
            ai_params: None,
            first_state: ChargeStateView {
                min_charge_time: "0.0"@,
                projectiles: Seq::empty(),
                firing_fx: Seq::empty(),
                charging_fx: Seq::empty(),
            },
            charge_states: Seq::empty(),
        },
        p10,
    )
}

/// An `OpMode` block after its header: its fields, then an optional
/// `AIParameters` block, the minimum charge time, an optional projectile,
/// its firing effects and its charge states; then the rest is skipped.
/// Each optional block is found by skipping ahead to its name.
pub open spec fn opmode_block(ts: Seq<Seq<char>>, p: int) -> (OpModeView, int) {
    let (head, p10) = opmode_head(ts, p);
    let (has_ai, p11) = sp_start(ts, p10, "AIParameters"@);
    let (ai, p12) = if has_ai {
        let (a, q) = ai_block(ts, p11);
        (Some(a), q)
    } else {
        (None, p11)
    };
    let (mct, p13) = sp_read_float_opt(ts, p12, "MinChargeTime"@);
    let (projs, p14) = opt_proj(ts, p13);
    let (ffx, p15) = fx_loop(ts, p14, "FiringFX"@);
    let (has_cs, p16) = sp_start(ts, p15, "ChargeStates"@);
    let (css, p17) = if has_cs {
        charge_states_loop(ts, p16)
    } else {
        (Seq::empty(), p16)
    };
    (
        OpModeView {
            ai_params: ai,
            first_state: ChargeStateView {
                min_charge_time: or_text(mct, "0.0"@),
                projectiles: projs,
                firing_fx: ffx,
                charging_fx: Seq::empty(),
            },
            charge_states: css,
            ..head
        },
        skip_rest(ts, p17),
    )
}

pub proof fn lemma_opmode_block(ts: Seq<Seq<char>>, p: int)
    requires
        0 <= p <= ts.len(),
    ensures
        p <= opmode_block(ts, p).1 <= ts.len(),
{
    let (head, p10) = opmode_head(ts, p);
    lemma_start(ts, p10, "AIParameters"@);
    let (has_ai, p11) = sp_start(ts, p10, "AIParameters"@);
    if has_ai {
        lemma_ai_block(ts, p11);
    }
    let (ai, p12) = if has_ai {
        let (a, q) = ai_block(ts, p11);
        (Some(a), q)
    } else {
        (None, p11)
    };
    let (mct, p13) = sp_read_float_opt(ts, p12, "MinChargeTime"@);
    lemma_opt_proj(ts, p13);
    let (projs, p14) = opt_proj(ts, p13);
    lemma_fx_loop(ts, p14, "FiringFX"@);
    let (ffx, p15) = fx_loop(ts, p14, "FiringFX"@);
    lemma_start(ts, p15, "ChargeStates"@);
    let (has_cs, p16) = sp_start(ts, p15, "ChargeStates"@);
    if has_cs {
        lemma_charge_states_loop(ts, p16);
    }
    let (css, p17) = if has_cs {
        charge_states_loop(ts, p16)
    } else {
        (Seq::empty(), p16)
    };
    lemma_skip_rest(ts, p17);
}

/// The body of a weapon from `p`: each `OpMode` found by skipping ahead
/// adds a mode; where none follows, the search has consumed the rest, so
/// `EntityType`, `GripOffset` and `GripEulers` are read only at a token
/// the search stopped on.
pub open spec fn weapon_body(ts: Seq<Seq<char>>, p: int, w: WeaponView) -> (WeaponView, int)
    decreases ts.len() - p,
    via weapon_body_decreases
{
    let (end, q) = sp_endblock(ts, p);
    if end || !(0 <= p < ts.len()) {
        (w, q)
    } else {
        let (op, q1) = sp_start(ts, p, "OpMode"@);
        if op {
            let (m, r) = opmode_block(ts, q1);
            weapon_body(ts, r, WeaponView { op_modes: w.op_modes.push(m), ..w })
        } else if tok_at(ts, q1) == Some("EntityType"@) {
            let (e, r) = sp_read_string_opt(ts, q1, "EntityType"@);
            weapon_body(ts, r, WeaponView { entity_type: e, ..w })
        } else if tok_at(ts, q1) == Some("GripOffset"@) {
            let (v, r) = sp_read_floats_opt(ts, q1, "GripOffset"@, 3);
            weapon_body(ts, r, WeaponView { grip_offset: Some(or_zero3(v)), ..w })
        } else if tok_at(ts, q1) == Some("GripEulers"@) {
            let (v, r) = sp_read_floats_opt(ts, q1, "GripEulers"@, 3);
            weapon_body(ts, r, WeaponView { grip_eulers: Some(or_zero3(v)), ..w })
        } else {
            weapon_body(ts, advance(ts, q1), w)
        }
    }
}

#[via_fn]
proof fn weapon_body_decreases(ts: Seq<Seq<char>>, p: int, w: WeaponView) {
    let (end, q) = sp_endblock(ts, p);
    if !(end || !(0 <= p < ts.len())) {
        lemma_start(ts, p, "OpMode"@);
        let (op, q1) = sp_start(ts, p, "OpMode"@);
        if op {
            lemma_opmode_block(ts, q1);
        } else {
            lemma_find_tok_bounds(ts, p, "OpMode"@);
        }
    }
}

pub proof fn lemma_weapon_body(ts: Seq<Seq<char>>, p: int, w: WeaponView)
    requires
        0 <= p <= ts.len(),
    ensures
        p <= weapon_body(ts, p, w).1 <= ts.len(),
    decreases ts.len() - p,
{
    let (end, q) = sp_endblock(ts, p);
    if !(end || !(0 <= p < ts.len())) {
        lemma_start(ts, p, "OpMode"@);
        let (op, q1) = sp_start(ts, p, "OpMode"@);
        if op {
            lemma_opmode_block(ts, q1);
            let (m, r) = opmode_block(ts, q1);
            lemma_weapon_body(ts, r, WeaponView { op_modes: w.op_modes.push(m), ..w });
        } else {
            lemma_find_tok_bounds(ts, p, "OpMode"@);
            lemma_weapon_body(ts, advance(ts, q1), w);
        }
    }
}

/// The search for one more firing effect always runs to the end of the
/// tokens.
pub proof fn lemma_fx_loop_reaches_end(ts: Seq<Seq<char>>, p: int, name: Seq<char>)
    requires
        0 <= p <= ts.len(),
    ensures
        fx_loop(ts, p, name).1 == ts.len(),
    decreases ts.len() - p,
{
    let (ok, q) = sp_start(ts, p, name);
    lemma_start(ts, p, name);
    if ok {
        lemma_fx_block(ts, q);
        let (fx, r) = fx_block(ts, q);
        lemma_fx_loop_reaches_end(ts, r, name);
    }
}

/// An operational mode is read to the end of the tokens and never gets
/// charge states: its firing effects are searched for up to the end
/// before `ChargeStates` could be found.
pub proof fn lemma_opmode_reads_to_end(ts: Seq<Seq<char>>, p: int)
    requires
        0 <= p <= ts.len(),
    ensures
        opmode_block(ts, p).1 == ts.len(),
        opmode_block(ts, p).0.charge_states.len() == 0,
{
    let (head, p10) = opmode_head(ts, p);
    lemma_start(ts, p10, "AIParameters"@);
    let (has_ai, p11) = sp_start(ts, p10, "AIParameters"@);
    if has_ai {
        lemma_ai_block(ts, p11);
    }
    let (ai, p12) = if has_ai {
        let (a, q) = ai_block(ts, p11);
        (Some(a), q)
    } else {
        (None, p11)
    };
    let (mct, p13) = sp_read_float_opt(ts, p12, "MinChargeTime"@);
    lemma_opt_proj(ts, p13);
    let (projs, p14) = opt_proj(ts, p13);
    lemma_fx_loop_reaches_end(ts, p14, "FiringFX"@);
    let (ffx, p15) = fx_loop(ts, p14, "FiringFX"@);
    lemma_find_tok_bounds(ts, p15, "ChargeStates"@);
}

/// A weapon before its body: its name and nothing else.
pub open spec fn weapon_init(name: Seq<char>) -> WeaponView {
    WeaponView {
        name,
        op_modes: Seq::empty(),
        entity_type: None,
        grip_offset: None,
        grip_eulers: None,
    }
}

/// A `BASEWEAPON` definition at `p`.
pub open spec fn weapon_def(ts: Seq<Seq<char>>, p: int) -> (WeaponView, int) {
    let (name, q1) = sp_read_string_opt(ts, p, "BASEWEAPON"@);
    let w0 = weapon_init(or_text(name, Seq::empty()));
    let (anon, q2) = sp_start_anonymous(ts, q1);
    if anon {
        weapon_body(ts, q2, w0)
    } else {
        (w0, q2)
    }
}

pub proof fn lemma_weapon_def(ts: Seq<Seq<char>>, p: int)
    requires
        0 <= p < ts.len(),
        ts[p] == "BASEWEAPON"@,
    ensures
        p < weapon_def(ts, p).1 <= ts.len(),
{
    let (name, q1) = sp_read_string_opt(ts, p, "BASEWEAPON"@);
    let w0 = weapon_init(or_text(name, Seq::empty()));
    let (anon, q2) = sp_start_anonymous(ts, q1);
    if anon {
        lemma_weapon_body(ts, q2, w0);
    }
}

/// The table after scanning the top level from `p`: tokens other than
/// `BASEWEAPON` are skipped; each weapon is stored under its lower-cased
/// name, replacing an earlier one of that name.
pub open spec fn weap_scan(ts: Seq<Seq<char>>, p: int, table: Seq<(Seq<char>, WeaponView)>) -> Seq<
    (Seq<char>, WeaponView),
>
    decreases ts.len() - p,
    via weap_scan_decreases
{
    let (end, q) = sp_endblock(ts, p);
    if end || !(0 <= p < ts.len()) {
        table
    } else if ts[p] != "BASEWEAPON"@ {
        weap_scan(ts, p + 1, table)
    } else {
        let (w, q3) = weapon_def(ts, p);
        weap_scan(ts, q3, assoc_insert(table, lowercase(w.name), w))
    }
}

#[via_fn]
proof fn weap_scan_decreases(ts: Seq<Seq<char>>, p: int, table: Seq<(Seq<char>, WeaponView)>) {
    let (end, q) = sp_endblock(ts, p);
    if !(end || !(0 <= p < ts.len())) && ts[p] == "BASEWEAPON"@ {
        lemma_weapon_def(ts, p);
    }
}

/// The weapon table of a `.weap` text (after an optional outer `{`).
pub open spec fn spec_parse_weap(content: Seq<char>) -> Seq<(Seq<char>, WeaponView)> {
    let ts = spec_tokens(content);
    weap_scan(ts, skip_open_brace(ts, 0), Seq::empty())
}

// ---------------------------------------------------------------------
// Reading
// ---------------------------------------------------------------------

fn zero_vec3() -> (r: [String; 3])
    ensures
        vec3_view(r) == zero3(),
{
    proof {
        reveal_strlit("0");
        assert("0"@ =~= seq!['0']);
    }
    let r = ["0".to_owned(), "0".to_owned(), "0".to_owned()];
    assert(vec3_view(r) =~= zero3());
    r
}

/// `read_vec3(key, ZERO)`.
fn read_vec3_or_zero(p: &mut BlockParser, key: &str) -> (r: [String; 3])
    ensures
        final(p).tokens() == old(p).tokens(),
        ({
            let (v, q) = sp_read_floats_opt(old(p).tokens(), old(p).position(), key@, 3);
            &&& final(p).position() == q
            &&& vec3_view(r) == or_zero3(v)
        }),
{
    let ghost ts = p.tokens();
    let ghost p0 = p.position();
    let z = zero_vec3();
    let r = p.read_vec3(key, z);
    proof {
        let (v, q) = sp_read_floats_opt(ts, p0, key@, 3);
        if let Some(ys) = v {
            assert(vec3_view(r) =~= ys);
        }
    }
    r
}

/// Skips to just past the block's closing `}` (or the end).
fn skip_rest_of_block(p: &mut BlockParser)
    requires
        0 <= old(p).position() <= old(p).tokens().len(),
    ensures
        final(p).tokens() == old(p).tokens(),
        final(p).position() == skip_rest(old(p).tokens(), old(p).position()),
{
    let ghost ts = p.tokens();
    let ghost p0 = p.position();
    loop
        invariant_except_break
            p.tokens() == ts,
            0 <= p.position() <= ts.len(),
            skip_rest(ts, p0) == skip_rest(ts, p.position()),
        ensures
            p.tokens() == ts,
            p.position() == skip_rest(ts, p0),
        decreases ts.len() - p.position(),
    {
        if p.endblock() {
            break;
        }
        p.next();
    }
}

fn read_projectile(p: &mut BlockParser) -> (r: ProjectileInfo)
    requires
        0 <= old(p).position() <= old(p).tokens().len(),
    ensures
        final(p).tokens() == old(p).tokens(),
        (r@, final(p).position()) == proj_block(old(p).tokens(), old(p).position()),
{
    proof {
        reveal_strlit("");
    }
    let projectile_name = p.read_string("ProjectileType", "");
    let muzzle_offset = read_vec3_or_zero(p, "MuzzleOffset");
    let muzzle_eulers = read_vec3_or_zero(p, "MuzzleEulers");
    let acc_target_range = p.read_float("AccTargetRange", "0.0");
    let acc_target_hit_prob = p.read_float("AccTargetHitProb", "0.0");
    let speed = p.read_float("Speed", "0.0");
    let delay = p.read_float("Delay", "0.0");
    let ammo_use = p.read_float("AmmoUse", "0.0");
    skip_rest_of_block(p);
    let r = ProjectileInfo {
        projectile_name,
        muzzle_offset,
        muzzle_eulers,
        acc_target_range,
        acc_target_hit_prob,
        speed,
        delay,
        ammo_use,
    };
    assert(r@.projectile_name =~= proj_block(old(p).tokens(), old(p).position()).0.projectile_name);
    r
}

fn read_effect(p: &mut BlockParser) -> (r: EffectInfo)
    requires
        0 <= old(p).position() <= old(p).tokens().len(),
    ensures
        final(p).tokens() == old(p).tokens(),
        (r@, final(p).position()) == fx_block(old(p).tokens(), old(p).position()),
{
    proof {
        reveal_strlit("");
    }
    let fx_name = p.read_string("FXType", "");
    let offset = read_vec3_or_zero(p, "Offset");
    let delay = p.read_float("Delay", "0.0");
    skip_rest_of_block(p);
    let r = EffectInfo { fx_name, offset, delay };
    assert(r@.fx_name =~= fx_block(old(p).tokens(), old(p).position()).0.fx_name);
    r
}

/// `while start(name) { effect }`.
fn read_effects(p: &mut BlockParser, name: &str) -> (r: Vec<EffectInfo>)
    requires
        0 <= old(p).position() <= old(p).tokens().len(),
    ensures
        final(p).tokens() == old(p).tokens(),
        (effects_view(r@), final(p).position()) == fx_loop(old(p).tokens(), old(p).position(), name@),
{
    let ghost ts = p.tokens();
    let ghost p0 = p.position();
    let mut out: Vec<EffectInfo> = Vec::new();
    assert(fx_loop(ts, p0, name@).0 =~= effects_view(out@) + fx_loop(ts, p0, name@).0);
    loop
        invariant_except_break
            p.tokens() == ts,
            0 <= p.position() <= ts.len(),
            fx_loop(ts, p0, name@).0 == effects_view(out@) + fx_loop(ts, p.position(), name@).0,
            fx_loop(ts, p0, name@).1 == fx_loop(ts, p.position(), name@).1,
        ensures
            p.tokens() == ts,
            fx_loop(ts, p0, name@).0 == effects_view(out@),
            fx_loop(ts, p0, name@).1 == p.position(),
        decreases ts.len() - p.position(),
    {
        let ghost pos = p.position();
        proof {
            lemma_start(ts, pos, name@);
        }
        if !p.start(name) {
            assert(effects_view(out@) + Seq::<EffectView>::empty() =~= effects_view(out@));
            break;
        }
        let ghost q = p.position();
        proof {
            lemma_fx_block(ts, q);
        }
        let fx = read_effect(p);
        let ghost o = effects_view(out@);
        out.push(fx);
        assert(effects_view(out@) =~= o.push(fx@));
        assert(o + (seq![fx@] + fx_loop(ts, p.position(), name@).0) =~= effects_view(out@) + fx_loop(
            ts,
            p.position(),
            name@,
        ).0);
    }
    out
}

fn read_ai(p: &mut BlockParser) -> (r: AiParameters)
    requires
        0 <= old(p).position() <= old(p).tokens().len(),
    ensures
        final(p).tokens() == old(p).tokens(),
        (r@, final(p).position()) == ai_block(old(p).tokens(), old(p).position()),
{
    let minimum_range = p.read_float_opt("MinimumRange");
    let maximum_range = p.read_float_opt("MaximumRange");
    let desired_range = p.read_float_opt("DesiredRange");
    let burst_duration = p.read_float_opt("BurstDuration");
    let burst_duration_randomness = p.read_float_opt("BurstDurationRandomness");
    let min_aim_time = p.read_float_opt("MinAimTime");
    let maximum_damage_range = p.read_float_opt("MaximumDamageRange");
    let damage_cone_angle = p.read_float_opt("DamageConeAngle");
    let fire_delay = p.read_float_opt("FireDelay");
    let fire_delay_randomness = p.read_float_opt("FireDelayRandomness");
    skip_rest_of_block(p);
    AiParameters {
        minimum_range,
        maximum_range,
        desired_range,
        burst_duration,
        burst_duration_randomness,
        min_aim_time,
        maximum_damage_range,
        damage_cone_angle,
        fire_delay,
        fire_delay_randomness,
    }
}

/// An optional `Projectile` block, found by skipping ahead.
fn read_opt_projectile(p: &mut BlockParser) -> (r: Vec<ProjectileInfo>)
    requires
        0 <= old(p).position() <= old(p).tokens().len(),
    ensures
        final(p).tokens() == old(p).tokens(),
        (projectiles_view(r@), final(p).position()) == opt_proj(old(p).tokens(), old(p).position()),
{
    let ghost ts = p.tokens();
    let ghost p0 = p.position();
    proof {
        lemma_start(ts, p0, "Projectile"@);
    }
    let mut out: Vec<ProjectileInfo> = Vec::new();
    if p.start("Projectile") {
        let pr = read_projectile(p);
        out.push(pr);
        assert(projectiles_view(out@) =~= seq![pr@]);
    } else {
        assert(projectiles_view(out@) =~= Seq::<ProjectileView>::empty());
    }
    out
}

fn read_charge_state(p: &mut BlockParser) -> (r: ChargeState)
    requires
        0 <= old(p).position() <= old(p).tokens().len(),
    ensures
        final(p).tokens() == old(p).tokens(),
        (r@, final(p).position()) == charge_state_block(old(p).tokens(), old(p).position()),
{
    let ghost ts = p.tokens();
    let ghost p0 = p.position();
    let min_charge_time = p.read_float("MinChargeTime", "0.0");
    let ghost p1 = p.position();
    proof {
        lemma_opt_proj(ts, p1);
    }
    let projectiles = read_opt_projectile(p);
    let ghost p2 = p.position();
    proof {
        lemma_fx_loop(ts, p2, "FiringFX"@);
    }
    let firing_fx = read_effects(p, "FiringFX");
    let ghost p3 = p.position();
    proof {
        lemma_fx_loop(ts, p3, "ChargingFX"@);
    }
    let charging_fx = read_effects(p, "ChargingFX");
    skip_rest_of_block(p);
    ChargeState { min_charge_time, projectiles, firing_fx, charging_fx }
}

/// The body of a `ChargeStates` block.
fn read_charge_states(p: &mut BlockParser) -> (r: Vec<ChargeState>)
    requires
        0 <= old(p).position() <= old(p).tokens().len(),
    ensures
        final(p).tokens() == old(p).tokens(),
        (charge_states_view(r@), final(p).position()) == charge_states_loop(
            old(p).tokens(),
            old(p).position(),
        ),
{
    let ghost ts = p.tokens();
    let ghost p0 = p.position();
    let mut out: Vec<ChargeState> = Vec::new();
    assert(charge_states_loop(ts, p0).0 =~= charge_states_view(out@) + charge_states_loop(ts, p0).0);
    loop
        invariant_except_break
            p.tokens() == ts,
            0 <= p.position() <= ts.len(),
            charge_states_loop(ts, p0).0 == charge_states_view(out@) + charge_states_loop(
                ts,
                p.position(),
            ).0,
            charge_states_loop(ts, p0).1 == charge_states_loop(ts, p.position()).1,
        ensures
            p.tokens() == ts,
            charge_states_loop(ts, p0).0 == charge_states_view(out@),
            charge_states_loop(ts, p0).1 == p.position(),
        decreases ts.len() - p.position(),
    {
        let ghost pos = p.position();
        if p.endblock() {
            assert(charge_states_view(out@) + Seq::<ChargeStateView>::empty() =~= charge_states_view(
                out@,
            ));
            break;
        }
        if p.start_anonymous() {
            let ghost q = p.position();
            proof {
                lemma_charge_state_block(ts, q);
            }
            let cs = read_charge_state(p);
            let ghost o = charge_states_view(out@);
            out.push(cs);
            assert(charge_states_view(out@) =~= o.push(cs@));
            assert(o + (seq![cs@] + charge_states_loop(ts, p.position()).0) =~= charge_states_view(
                out@,
            ) + charge_states_loop(ts, p.position()).0);
        } else {
            p.next();
        }
    }
    out
}

fn trig_hold_mode_of(s: &str) -> (r: TrigHoldMode)
    ensures
        r == trig_hold_of(s@),
{
    if str_is(s, "Auto") {
        TrigHoldMode::Auto
    } else if str_is(s, "Charge") {
        TrigHoldMode::Charge
    } else if str_is(s, "FirstAndCharge") {
        TrigHoldMode::FirstAndCharge
    } else {
        TrigHoldMode::Single
    }
}

fn hold_type_of_str(s: &str) -> (r: HoldType)
    ensures
        r == hold_type_of(s@),
{
    if str_is(s, "Rifle") {
        HoldType::Rifle
    } else if str_is(s, "Pipe") {
        HoldType::Pipe
    } else if str_is(s, "Pistol") {
        HoldType::Pistol
    } else {
        HoldType::Invalid
    }
}

fn empty_state(min_charge_time: String) -> (r: ChargeState)
    ensures
        r@ == (ChargeStateView {
            min_charge_time: min_charge_time@,
            projectiles: Seq::empty(),
            firing_fx: Seq::empty(),
            charging_fx: Seq::empty(),
        }),
{
    let r = ChargeState {
        min_charge_time,
        projectiles: Vec::new(),
        firing_fx: Vec::new(),
        charging_fx: Vec::new(),
    };
    assert(projectiles_view(r.projectiles@) =~= Seq::<ProjectileView>::empty());
    assert(effects_view(r.firing_fx@) =~= Seq::<EffectView>::empty());
    assert(effects_view(r.charging_fx@) =~= Seq::<EffectView>::empty());
    r
}

fn read_opmode_head(p: &mut BlockParser) -> (r: OperationalMode)
    ensures
        final(p).tokens() == old(p).tokens(),
        (r@, final(p).position()) == opmode_head(old(p).tokens(), old(p).position()),
{
    proof {
        reveal_strlit("");
    }
    let ammo_slot = p.read_i32("AmmoSlot", 0);
    let ammo_type = p.read_string_opt("AmmoType");
    let _weapon_animation = p.read_i32("WeaponAnimation", -1);
    let chamber_time = p.read_float("ChamberTime", "0.0");
    let auto_fire_delay = p.read_float("AutoFireDelay", "0.2");
    let throws_weapon = p.read_i32("Throw", 0) != 0;
    let trig = p.read_string("TrigHoldMode", "");
    let aimer_code = p.read_i32("Aimer", 1);
    let hold = p.read_string("HoldType", "");
    let shooter_standard_range = p.read_float("ShooterStandardRange", "25.0");
    let trig_hold_mode = trig_hold_mode_of(trig.as_str());
    let aimer = if aimer_code == 2 {
        Aimer::Ballistic
    } else {
        Aimer::Simple
    };
    let hold_type = hold_type_of_str(hold.as_str());
    let first_state = empty_state("0.0".to_string());
    let r = OperationalMode {
        ammo_slot,
        ammo_type,
        chamber_time,
        auto_fire_delay,
        throws_weapon,
        trig_hold_mode,
        aimer,
        hold_type,
        shooter_standard_range,
        ai_params: None,
        first_state,
        charge_states: Vec::new(),
    };
    assert(charge_states_view(r.charge_states@) =~= Seq::<ChargeStateView>::empty());
    assert(trig@ =~= or_text(sp_read_string_opt(old(p).tokens(), opmode_head_pos6(old(p).tokens(), old(p).position()), "TrigHoldMode"@).0, Seq::empty()));
    assert(hold@ =~= or_text(sp_read_string_opt(old(p).tokens(), opmode_head_pos8(old(p).tokens(), old(p).position()), "HoldType"@).0, Seq::empty()));
    r
}

/// Position before `TrigHoldMode` in an operational mode's head.
spec fn opmode_head_pos6(ts: Seq<Seq<char>>, p: int) -> int {
    let (slot, p1) = sp_read_i32_opt(ts, p, "AmmoSlot"@);
    let (ammo, p2) = sp_read_string_opt(ts, p1, "AmmoType"@);
    let (anim, p3) = sp_read_i32_opt(ts, p2, "WeaponAnimation"@);
    let (ct, p4) = sp_read_float_opt(ts, p3, "ChamberTime"@);
    let (afd, p5) = sp_read_float_opt(ts, p4, "AutoFireDelay"@);
    let (thr, p6) = sp_read_i32_opt(ts, p5, "Throw"@);
    p6
}

/// Position before `HoldType` in an operational mode's head.
spec fn opmode_head_pos8(ts: Seq<Seq<char>>, p: int) -> int {
    let p6 = opmode_head_pos6(ts, p);
    let (trig, p7) = sp_read_string_opt(ts, p6, "TrigHoldMode"@);
    let (aim, p8) = sp_read_i32_opt(ts, p7, "Aimer"@);
    p8
}

fn read_opmode(p: &mut BlockParser) -> (r: OperationalMode)
    requires
        0 <= old(p).position() <= old(p).tokens().len(),
    ensures
        final(p).tokens() == old(p).tokens(),
        (r@, final(p).position()) == opmode_block(old(p).tokens(), old(p).position()),
{
    let ghost ts = p.tokens();
    let ghost p0 = p.position();
    let mut mode = read_opmode_head(p);
    let ghost p10 = p.position();
    proof {
        lemma_start(ts, p10, "AIParameters"@);
    }
    if p.start("AIParameters") {
        let ai = read_ai(p);
        mode.ai_params = Some(ai);
    }
    let ghost p12 = p.position();
    proof {
        let (has_ai, p11) = sp_start(ts, p10, "AIParameters"@);
        if has_ai {
            lemma_ai_block(ts, p11);
        }
    }
    let mct = p.read_float("MinChargeTime", "0.0");
    mode.first_state.min_charge_time = mct;
    let ghost p13 = p.position();
    proof {
        lemma_opt_proj(ts, p13);
    }
    let projs = read_opt_projectile(p);
    mode.first_state.projectiles = projs;
    let ghost p14 = p.position();
    proof {
        lemma_fx_loop(ts, p14, "FiringFX"@);
    }
    let ffx = read_effects(p, "FiringFX");
    mode.first_state.firing_fx = ffx;
    let ghost p15 = p.position();
    proof {
        lemma_start(ts, p15, "ChargeStates"@);
    }
    if p.start("ChargeStates") {
        let css = read_charge_states(p);
        mode.charge_states = css;
    }
    let ghost p17 = p.position();
    proof {
        let (has_cs, p16) = sp_start(ts, p15, "ChargeStates"@);
        if has_cs {
            lemma_charge_states_loop(ts, p16);
        }
    }
    skip_rest_of_block(p);
    mode
}

fn peek_is(p: &BlockParser, lit: &str) -> (r: bool)
    ensures
        r == (tok_at(p.tokens(), p.position()) == Some(lit@)),
{
    match p.peek() {
        Some(t) => str_is(t, lit),
        None => false,
    }
}

/// Reads a weapon's body into `w`.
fn read_weapon_body(p: &mut BlockParser, w: &mut WeaponTypeData)
    requires
        0 <= old(p).position() <= old(p).tokens().len(),
    ensures
        final(p).tokens() == old(p).tokens(),
        (final(w)@, final(p).position()) == weapon_body(old(p).tokens(), old(p).position(), old(w)@),
{
    let ghost ts = p.tokens();
    let ghost p0 = p.position();
    let ghost w0 = w@;
    loop
        invariant_except_break
            p.tokens() == ts,
            0 <= p.position() <= ts.len(),
            weapon_body(ts, p0, w0) == weapon_body(ts, p.position(), w@),
        ensures
            p.tokens() == ts,
            weapon_body(ts, p0, w0) == (w@, p.position()),
        decreases ts.len() - p.position(),
    {
        let ghost pos = p.position();
        let ghost wv = w@;
        if p.endblock() {
            break;
        }
        proof {
            lemma_start(ts, pos, "OpMode"@);
            lemma_find_tok_bounds(ts, pos, "OpMode"@);
        }
        if p.start("OpMode") {
            let ghost q1 = p.position();
            proof {
                lemma_opmode_block(ts, q1);
            }
            let m = read_opmode(p);
            let ghost o = op_modes_view(w.op_modes@);
            w.op_modes.push(m);
            assert(op_modes_view(w.op_modes@) =~= o.push(m@));
            assert(w@ == WeaponView { op_modes: wv.op_modes.push(m@), ..wv });
        } else if peek_is(p, "EntityType") {
            w.entity_type = p.read_string_opt("EntityType");
        } else if peek_is(p, "GripOffset") {
            let v = read_vec3_or_zero(p, "GripOffset");
            w.grip_offset = Some(v);
        } else if peek_is(p, "GripEulers") {
            let v = read_vec3_or_zero(p, "GripEulers");
            w.grip_eulers = Some(v);
        } else {
            p.next();
        }
    }
}

/// Parses a `.weap` text into its table of weapon types.
pub fn parse_weap_content(content: &str) -> (r: NameTable<WeaponTypeData>)
    ensures
        weap_table_view(r) == spec_parse_weap(content@),
{
    let mut table: NameTable<WeaponTypeData> = NameTable::new();
    let mut p = BlockParser::new(content);
    let ghost ts = p.tokens();
    if p.start_anonymous() {
    }
    assert(weap_table_view(table) =~= Seq::<(Seq<char>, WeaponView)>::empty());
    loop
        invariant_except_break
            p.tokens() == ts,
            ts == spec_tokens(content@),
            0 <= p.position() <= ts.len(),
            spec_parse_weap(content@) == weap_scan(ts, p.position(), weap_table_view(table)),
        ensures
            spec_parse_weap(content@) == weap_table_view(table),
        decreases ts.len() - p.position(),
    {
        let ghost pos0 = p.position();
        if p.endblock() {
            break;
        }
        if !peek_is(&p, "BASEWEAPON") {
            p.next();
            continue;
        }
        proof {
            reveal_strlit("");
            lemma_weapon_def(ts, pos0);
        }
        let name = match p.read_string_opt("BASEWEAPON") {
            Some(n) => n,
            None => String::new(),
        };
        let mut w = WeaponTypeData {
            name,
            op_modes: Vec::new(),
            entity_type: None,
            grip_offset: None,
            grip_eulers: None,
        };
        assert(op_modes_view(w.op_modes@) =~= Seq::<OpModeView>::empty());
        if p.start_anonymous() {
            read_weapon_body(&mut p, &mut w);
        }
        assert(weapon_def(ts, pos0) == (w@, p.position()));
        let key = to_lowercase(w.name.as_str());
        proof {
            lemma_insert_map(table.entries(), key@, w, |x: WeaponTypeData| x@);
        }
        table.insert(key, w);
    }
    table
}

} // verus!
