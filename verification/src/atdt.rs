//! `.atdt`: attack data of an animation.
//!
//! ```text
//! strike { FrameNum <f> ... EndRotationNotches <i> ... }
//! grab { RemovesWeapon <0|1>  RemovesWeaponPhase <f>  ReactAnim <name>  DamagePhase <f> }
//! Damage <f>  BlockReaction <i>  EnemyBlockAnim <i>  GuardType <i>
//! TargetClass <i>  StrengthClass <i>  AttackClass <i>
//! ```
//!
//! Keys match case-insensitively.  Inside a block a missing or malformed
//! value keeps the field's current value.  Each `strike` or `grab` block
//! starts from the defaults and replaces an earlier one; `BlockReaction`
//! and `EnemyBlockAnim` may also appear inside `strike`.
//!
//! Floats are kept as their text.  The three slice angles stay in the
//! file's yaw convention and in the order written: the caller converts
//! them to its own yaw convention and orders start before end.
use crate::block_parser::{
    sp_read_float_opt, sp_read_i32_opt, sp_start_anonymous, BlockParser,
};
use crate::fields::{
    copy_vec3, field_block, lemma_field_block_advances, read_field_block, same_shape, schema_fits,
    FieldKind, FieldSpec, FieldValues, FieldValuesView,
};
use crate::text::{lowercase, str_is, to_lowercase};
use crate::tokenizer::spec_tokens;
use vstd::prelude::*;

verus! {

/// How `crStrikeReact` moves the struck actor.
pub const REACT_TRANSLATE_MODE_PUSH: u8 = 0;
pub const REACT_TRANSLATE_MODE_SET: u8 = 1;
pub const REACT_TRANSLATE_MODE_TELEPORT: u8 = 2;

/// The body zone an attack targets.
#[derive(Debug, Clone, Copy, PartialEq, Eq, Structural)]
pub enum AttackTarget {
    Head,
    Body,
    Legs,
}

/// The strength tier of an attack.
#[derive(Debug, Clone, Copy, PartialEq, Eq, Structural)]
pub enum AttackStrength {
    Low,
    High,
    Super,
}

/// The category of an attack.
#[derive(Debug, Clone, Copy, PartialEq, Eq, Structural)]
pub enum AttackClass {
    Punch,
    Kick,
    Grab,
    RangedShot,
}

/// `targetclass`: 1 head, 2 body, 3 legs; anything else (0 is `NONE`) is
/// no class.
pub open spec fn spec_target_from_int(v: i32) -> Option<AttackTarget> {
    if v == 1 {
        Some(AttackTarget::Head)
    } else if v == 2 {
        Some(AttackTarget::Body)
    } else if v == 3 {
        Some(AttackTarget::Legs)
    } else {
        None
    }
}

/// `strengthclass`: 1 low, 2 high, 3 super; anything else is no class.
pub open spec fn spec_strength_from_int(v: i32) -> Option<AttackStrength> {
    if v == 1 {
        Some(AttackStrength::Low)
    } else if v == 2 {
        Some(AttackStrength::High)
    } else if v == 3 {
        Some(AttackStrength::Super)
    } else {
        None
    }
}

/// `attackclass`: 1 punch, 2 kick, 3 grab, 4 and 5 (gun shot and gun
/// strike) ranged; anything else is no class.
pub open spec fn spec_attack_class_from_int(v: i32) -> Option<AttackClass> {
    if v == 1 {
        Some(AttackClass::Punch)
    } else if v == 2 {
        Some(AttackClass::Kick)
    } else if v == 3 {
        Some(AttackClass::Grab)
    } else if v == 4 || v == 5 {
        Some(AttackClass::RangedShot)
    } else {
        None
    }
}

fn target_from_int(v: i32) -> (r: Option<AttackTarget>)
    ensures
        r == spec_target_from_int(v),
{
    match v {
        1 => Some(AttackTarget::Head),
        2 => Some(AttackTarget::Body),
        3 => Some(AttackTarget::Legs),
        _ => None,
    }
}

/// The legacy ordinal of a target zone: 1 head, 2 body, 3 legs (0 is
/// `NONE`).
pub open spec fn target_ordinal(t: AttackTarget) -> i32 {
    match t {
        AttackTarget::Head => 1,
        AttackTarget::Body => 2,
        AttackTarget::Legs => 3,
    }
}

/// The legacy ordinal of a strength tier, in rising strength: 1 low,
/// 2 high, 3 super (0 is `NONE`).
pub open spec fn strength_ordinal(s: AttackStrength) -> i32 {
    match s {
        AttackStrength::Low => 1,
        AttackStrength::High => 2,
        AttackStrength::Super => 3,
    }
}

/// The legacy ordinals of an attack class: 1 punch, 2 kick, 3 grab, 4 gun
/// shot and 5 gun strike (both ranged).
pub open spec fn class_has_ordinal(c: AttackClass, v: i32) -> bool {
    match c {
        AttackClass::Punch => v == 1,
        AttackClass::Kick => v == 2,
        AttackClass::Grab => v == 3,
        AttackClass::RangedShot => v == 4 || v == 5,
    }
}

/// A `targetclass` value names the zone whose legacy ordinal it is, and
/// no zone when it is no zone's ordinal.
pub proof fn lemma_target_class_ordinals(v: i32, t: AttackTarget)
    ensures
        spec_target_from_int(v) is Some <==> 1 <= v <= 3,
        spec_target_from_int(v) matches Some(u) ==> target_ordinal(u) == v,
        spec_target_from_int(target_ordinal(t)) == Some(t),
{
}

/// A `strengthclass` value names the tier whose legacy ordinal it is, and
/// no tier when it is no tier's ordinal: larger values are stronger.
pub proof fn lemma_strength_class_ordinals(v: i32, s: AttackStrength)
    ensures
        spec_strength_from_int(v) is Some <==> 1 <= v <= 3,
        spec_strength_from_int(v) matches Some(u) ==> strength_ordinal(u) == v,
        spec_strength_from_int(strength_ordinal(s)) == Some(s),
{
}

/// An `attackclass` value names the class with that legacy ordinal, and
/// no class when it is no class's ordinal.
pub proof fn lemma_attack_class_ordinals(v: i32, c: AttackClass)
    ensures
        spec_attack_class_from_int(v) is Some <==> 1 <= v <= 5,
        spec_attack_class_from_int(v) matches Some(u) ==> class_has_ordinal(u, v),
        class_has_ordinal(c, v) ==> spec_attack_class_from_int(v) == Some(c),
{
}

fn strength_from_int(v: i32) -> (r: Option<AttackStrength>)
    ensures
        r == spec_strength_from_int(v),
{
    match v {
        1 => Some(AttackStrength::Low),
        2 => Some(AttackStrength::High),
        3 => Some(AttackStrength::Super),
        _ => None,
    }
}

fn attack_class_from_int(v: i32) -> (r: Option<AttackClass>)
    ensures
        r == spec_attack_class_from_int(v),
{
    match v {
        1 => Some(AttackClass::Punch),
        2 => Some(AttackClass::Kick),
        3 => Some(AttackClass::Grab),
        4 | 5 => Some(AttackClass::RangedShot),
        _ => None,
    }
}

/// One active window of an attack.
#[derive(Debug, Clone)]
pub struct AtdtStrike {
    pub framenum: String,
    pub frameduration: String,
    pub reactdiskradius: String,
    pub minreactdiskradius: String,
    pub reactdiskheight: String,
    pub reactdiskheighttolerance: String,
    pub vanishingpoint: String,
    pub minradiusframe: String,
    pub maxradiusframe: String,
    pub slicestartradians: String,
    pub sliceendradians: String,
    pub sliceheadingradiansb: String,
    pub minradiusphase: String,
    pub maxradiusphase: String,
    pub stop_track_frame: String,
    pub sliderphase: [String; 4],
    pub hitspeed: [String; 4],
    pub reactphase: [String; 4],
    pub reactdistance: [String; 4],
    pub opp2_q_start: String,
    pub opp2_begin_redirect: String,
    pub opp2_do_start: String,
    pub opp2_crit_start: String,
    pub opp2_do_crit_start: String,
    pub opp2_do_end: String,
    pub opp3_q_start: String,
    pub opp3_do_start: String,
    pub opening: String,
    pub soundframe: String,
    pub spin: String,
    pub holdduration: String,
    pub react_sliderphase: [[String; 4]; 4],
    pub react_speed: [[String; 4]; 4],
    pub headingnotlockedtotarget: bool,
    pub sweepheading: i32,
    pub use_expanding_radius: bool,
    pub fire: bool,
    pub can_redirect: bool,
    pub end_rotation_notches: i32,
    pub hittype: u8,
    pub reactanim: [i32; 4],
    pub face_with_react: [bool; 4],
    pub set_distance_mode: [u8; 4],
    pub queue_next_attack: bool,
    pub guardtype: u8,
    pub sound: i32,
}

pub open spec fn flag_int(b: bool) -> i32 {
    if b {
        1
    } else {
        0
    }
}

/// Strike slots: texts 39 float fields read from the file, then 36
/// constant ones; integers 20 fields read from the file (flags as 0/1,
/// bytes as their value), `guardtype`, `sound`.
impl View for AtdtStrike {
    type V = FieldValuesView;

    open spec fn view(&self) -> FieldValuesView {
        FieldValuesView {
            texts: seq![
                self.framenum@,
                self.frameduration@,
                self.reactdiskradius@,
                self.minreactdiskradius@,
                self.reactdiskheight@,
                self.reactdiskheighttolerance@,
                self.vanishingpoint@,
                self.minradiusframe@,
                self.maxradiusframe@,
                self.slicestartradians@,
                self.sliceendradians@,
                self.sliceheadingradiansb@,
                self.minradiusphase@,
                self.maxradiusphase@,
                self.stop_track_frame@,
                self.sliderphase[0]@,
                self.sliderphase[1]@,
                self.sliderphase[2]@,
                self.sliderphase[3]@,
                self.hitspeed[0]@,
                self.hitspeed[1]@,
                self.hitspeed[2]@,
                self.hitspeed[3]@,
                self.reactphase[0]@,
                self.reactphase[1]@,
                self.reactphase[2]@,
                self.reactphase[3]@,
                self.reactdistance[0]@,
                self.reactdistance[1]@,
                self.reactdistance[2]@,
                self.reactdistance[3]@,
                self.opp2_q_start@,
                self.opp2_begin_redirect@,
                self.opp2_do_start@,
                self.opp2_crit_start@,
                self.opp2_do_crit_start@,
                self.opp2_do_end@,
                self.opp3_q_start@,
                self.opp3_do_start@,
                self.opening@,
                self.soundframe@,
                self.spin@,
                self.holdduration@,
                self.react_sliderphase[0][0]@,
                self.react_sliderphase[0][1]@,
                self.react_sliderphase[0][2]@,
                self.react_sliderphase[0][3]@,
                self.react_sliderphase[1][0]@,
                self.react_sliderphase[1][1]@,
                self.react_sliderphase[1][2]@,
                self.react_sliderphase[1][3]@,
                self.react_sliderphase[2][0]@,
                self.react_sliderphase[2][1]@,
                self.react_sliderphase[2][2]@,
                self.react_sliderphase[2][3]@,
                self.react_sliderphase[3][0]@,
                self.react_sliderphase[3][1]@,
                self.react_sliderphase[3][2]@,
                self.react_sliderphase[3][3]@,
                self.react_speed[0][0]@,
                self.react_speed[0][1]@,
                self.react_speed[0][2]@,
                self.react_speed[0][3]@,
                self.react_speed[1][0]@,
                self.react_speed[1][1]@,
                self.react_speed[1][2]@,
                self.react_speed[1][3]@,
                self.react_speed[2][0]@,
                self.react_speed[2][1]@,
                self.react_speed[2][2]@,
                self.react_speed[2][3]@,
                self.react_speed[3][0]@,
                self.react_speed[3][1]@,
                self.react_speed[3][2]@,
                self.react_speed[3][3]@,
            ],
            vecs: Seq::empty(),
            ints: seq![
                flag_int(self.headingnotlockedtotarget),
                self.sweepheading,
                flag_int(self.use_expanding_radius),
                flag_int(self.fire),
                flag_int(self.can_redirect),
                self.end_rotation_notches,
                self.hittype as i32,
                self.reactanim[0],
                self.reactanim[1],
                self.reactanim[2],
                self.reactanim[3],
                flag_int(self.face_with_react[0]),
                flag_int(self.face_with_react[1]),
                flag_int(self.face_with_react[2]),
                flag_int(self.face_with_react[3]),
                self.set_distance_mode[0] as i32,
                self.set_distance_mode[1] as i32,
                self.set_distance_mode[2] as i32,
                self.set_distance_mode[3] as i32,
                flag_int(self.queue_next_attack),
                self.guardtype as i32,
                self.sound,
            ],
        }
    }
}

/// Slot of `BlockReaction` in strike values.
pub const BLOCK_REACTION_SLOT: usize = 22;

/// Slot of `EnemyBlockAnim` in strike values.
pub const ENEMY_BLOCK_ANIM_SLOT: usize = 23;

pub open spec fn sticky(key: &'static str, kind: FieldKind, slot: usize) -> FieldSpec {
    FieldSpec { key, kind, slot, sticky: true }
}

fn sticky_field(key: &'static str, kind: FieldKind, slot: usize) -> (f: FieldSpec)
    ensures
        f == sticky(key, kind, slot),
{
    FieldSpec { key, kind, slot, sticky: true }
}

/// The keys of a `strike` block and their slots.
pub open spec fn strike_schema() -> Seq<FieldSpec> {
    seq![
        sticky("framenum", FieldKind::Float, 0),
        sticky("frameduration", FieldKind::Float, 1),
        sticky("reactdiskradius", FieldKind::Float, 2),
        sticky("minreactdiskradius", FieldKind::Float, 3),
        sticky("reactdiskheight", FieldKind::Float, 4),
        sticky("reactdiskheighttolerance", FieldKind::Float, 5),
        sticky("vanishingpoint", FieldKind::Float, 6),
        sticky("minradiusframe", FieldKind::Float, 7),
        sticky("maxradiusframe", FieldKind::Float, 8),
        sticky("slicestartradians", FieldKind::Float, 9),
        sticky("sliceendradians", FieldKind::Float, 10),
        sticky("sliceheadingradiansb", FieldKind::Float, 11),
        sticky("minradiusphase", FieldKind::Float, 12),
        sticky("maxradiusphase", FieldKind::Float, 13),
        sticky("stoptrackframe", FieldKind::Float, 14),
        sticky("sliderphase0", FieldKind::Float, 15),
        sticky("sliderphase1", FieldKind::Float, 16),
        sticky("sliderphase2", FieldKind::Float, 17),
        sticky("sliderphase3", FieldKind::Float, 18),
        sticky("hitspeed0", FieldKind::Float, 19),
        sticky("hitspeed1", FieldKind::Float, 20),
        sticky("hitspeed2", FieldKind::Float, 21),
        sticky("hitspeed3", FieldKind::Float, 22),
        sticky("reactphase0", FieldKind::Float, 23),
        sticky("reactphase1", FieldKind::Float, 24),
        sticky("reactphase2", FieldKind::Float, 25),
        sticky("reactphase3", FieldKind::Float, 26),
        sticky("reactdistance0", FieldKind::Float, 27),
        sticky("reactdistance1", FieldKind::Float, 28),
        sticky("reactdistance2", FieldKind::Float, 29),
        sticky("reactdistance3", FieldKind::Float, 30),
        sticky("atknoqueuethreshold", FieldKind::Float, 31),
        sticky("atkbeginredirectthreshold", FieldKind::Float, 32),
        sticky("atkendredirectthreshold", FieldKind::Float, 33),
        sticky("opp2critstart", FieldKind::Float, 34),
        sticky("opp2docritstart", FieldKind::Float, 35),
        sticky("atkendredirectlimit", FieldKind::Float, 36),
        sticky("opp3qstart", FieldKind::Float, 37),
        sticky("opp3dostart", FieldKind::Float, 38),
        sticky("headingnotlockedtotarget", FieldKind::Int, 0),
        sticky("sweepheading", FieldKind::Int, 1),
        sticky("useexpandingradius", FieldKind::Int, 2),
        sticky("fire", FieldKind::Int, 3),
        sticky("canredirect", FieldKind::Int, 4),
        sticky("endrotationnotches", FieldKind::Int, 5),
        sticky("hittype", FieldKind::Int, 6),
        sticky("reactanim0", FieldKind::Int, 7),
        sticky("reactanim1", FieldKind::Int, 8),
        sticky("reactanim2", FieldKind::Int, 9),
        sticky("reactanim3", FieldKind::Int, 10),
        sticky("facewithreact0", FieldKind::Int, 11),
        sticky("facewithreact1", FieldKind::Int, 12),
        sticky("facewithreact2", FieldKind::Int, 13),
        sticky("facewithreact3", FieldKind::Int, 14),
        sticky("setdistfromatkr0", FieldKind::Int, 15),
        sticky("setdistfromatkr1", FieldKind::Int, 16),
        sticky("setdistfromatkr2", FieldKind::Int, 17),
        sticky("setdistfromatkr3", FieldKind::Int, 18),
        sticky("queuenextattack", FieldKind::Int, 19),
        sticky("blockreaction", FieldKind::Int, 22),
        sticky("enemyblockanim", FieldKind::Int, 23),
    ]
}

fn strike_schema_vec() -> (v: Vec<FieldSpec>)
    ensures
        v@ == strike_schema(),
{
    let v = vec![
        sticky_field("framenum", FieldKind::Float, 0),
        sticky_field("frameduration", FieldKind::Float, 1),
        sticky_field("reactdiskradius", FieldKind::Float, 2),
        sticky_field("minreactdiskradius", FieldKind::Float, 3),
        sticky_field("reactdiskheight", FieldKind::Float, 4),
        sticky_field("reactdiskheighttolerance", FieldKind::Float, 5),
        sticky_field("vanishingpoint", FieldKind::Float, 6),
        sticky_field("minradiusframe", FieldKind::Float, 7),
        sticky_field("maxradiusframe", FieldKind::Float, 8),
        sticky_field("slicestartradians", FieldKind::Float, 9),
        sticky_field("sliceendradians", FieldKind::Float, 10),
        sticky_field("sliceheadingradiansb", FieldKind::Float, 11),
        sticky_field("minradiusphase", FieldKind::Float, 12),
        sticky_field("maxradiusphase", FieldKind::Float, 13),
        sticky_field("stoptrackframe", FieldKind::Float, 14),
        sticky_field("sliderphase0", FieldKind::Float, 15),
        sticky_field("sliderphase1", FieldKind::Float, 16),
        sticky_field("sliderphase2", FieldKind::Float, 17),
        sticky_field("sliderphase3", FieldKind::Float, 18),
        sticky_field("hitspeed0", FieldKind::Float, 19),
        sticky_field("hitspeed1", FieldKind::Float, 20),
        sticky_field("hitspeed2", FieldKind::Float, 21),
        sticky_field("hitspeed3", FieldKind::Float, 22),
        sticky_field("reactphase0", FieldKind::Float, 23),
        sticky_field("reactphase1", FieldKind::Float, 24),
        sticky_field("reactphase2", FieldKind::Float, 25),
        sticky_field("reactphase3", FieldKind::Float, 26),
        sticky_field("reactdistance0", FieldKind::Float, 27),
        sticky_field("reactdistance1", FieldKind::Float, 28),
        sticky_field("reactdistance2", FieldKind::Float, 29),
        sticky_field("reactdistance3", FieldKind::Float, 30),
        sticky_field("atknoqueuethreshold", FieldKind::Float, 31),
        sticky_field("atkbeginredirectthreshold", FieldKind::Float, 32),
        sticky_field("atkendredirectthreshold", FieldKind::Float, 33),
        sticky_field("opp2critstart", FieldKind::Float, 34),
        sticky_field("opp2docritstart", FieldKind::Float, 35),
        sticky_field("atkendredirectlimit", FieldKind::Float, 36),
        sticky_field("opp3qstart", FieldKind::Float, 37),
        sticky_field("opp3dostart", FieldKind::Float, 38),
        sticky_field("headingnotlockedtotarget", FieldKind::Int, 0),
        sticky_field("sweepheading", FieldKind::Int, 1),
        sticky_field("useexpandingradius", FieldKind::Int, 2),
        sticky_field("fire", FieldKind::Int, 3),
        sticky_field("canredirect", FieldKind::Int, 4),
        sticky_field("endrotationnotches", FieldKind::Int, 5),
        sticky_field("hittype", FieldKind::Int, 6),
        sticky_field("reactanim0", FieldKind::Int, 7),
        sticky_field("reactanim1", FieldKind::Int, 8),
        sticky_field("reactanim2", FieldKind::Int, 9),
        sticky_field("reactanim3", FieldKind::Int, 10),
        sticky_field("facewithreact0", FieldKind::Int, 11),
        sticky_field("facewithreact1", FieldKind::Int, 12),
        sticky_field("facewithreact2", FieldKind::Int, 13),
        sticky_field("facewithreact3", FieldKind::Int, 14),
        sticky_field("setdistfromatkr0", FieldKind::Int, 15),
        sticky_field("setdistfromatkr1", FieldKind::Int, 16),
        sticky_field("setdistfromatkr2", FieldKind::Int, 17),
        sticky_field("setdistfromatkr3", FieldKind::Int, 18),
        sticky_field("queuenextattack", FieldKind::Int, 19),
        sticky_field("blockreaction", FieldKind::Int, 22),
        sticky_field("enemyblockanim", FieldKind::Int, 23),
    ];
    assert(v@ =~= strike_schema());
    v
}

/// The values a `strike` block starts from: the strike defaults, with the
/// current `BlockReaction` and `EnemyBlockAnim`.
pub open spec fn strike_init(block_reaction: i32, enemy_block_anim: i32) -> FieldValuesView {
    FieldValuesView {
        texts: seq![
            seq!['0'],
            seq!['0'],
            seq!['0'],
            seq!['0'],
            seq!['1', '.', '0'],
            seq!['0', '.', '1'],
            seq!['0'],
            seq!['0'],
            seq!['0'],
            seq!['0'],
            seq!['0'],
            seq!['0'],
            seq!['0'],
            seq!['1', '.', '0'],
            seq!['0'],
            seq!['0'],
            seq!['0'],
            seq!['0'],
            seq!['0'],
            seq!['0'],
            seq!['0'],
            seq!['0'],
            seq!['0'],
            seq!['0'],
            seq!['0'],
            seq!['0'],
            seq!['0'],
            seq!['0'],
            seq!['0'],
            seq!['0'],
            seq!['0'],
            seq!['0'],
            seq!['0'],
            seq!['0', '.', '7', '5'],
            seq!['0', '.', '7', '5'],
            seq!['0', '.', '7', '5'],
            seq!['0', '.', '9', '5'],
            seq!['0', '.', '9', '7', '5'],
            seq!['1', '.', '0'],
            seq!['0'],
            seq!['0'],
            seq!['0'],
            seq!['0'],
            seq!['0'],
            seq!['0'],
            seq!['0'],
            seq!['0'],
            seq!['0'],
            seq!['0'],
            seq!['0'],
            seq!['0'],
            seq!['0'],
            seq!['0'],
            seq!['0'],
            seq!['0'],
            seq!['0'],
            seq!['0'],
            seq!['0'],
            seq!['0'],
            seq!['0'],
            seq!['0'],
            seq!['0'],
            seq!['0'],
            seq!['0'],
            seq!['0'],
            seq!['0'],
            seq!['0'],
            seq!['0'],
            seq!['0'],
            seq!['0'],
            seq!['0'],
            seq!['0'],
            seq!['0'],
            seq!['0'],
            seq!['0'],
        ],
        vecs: Seq::empty(),
        ints: seq![
            0i32,
            0i32,
            0i32,
            0i32,
            0i32,
            0i32,
            0i32,
            0i32,
            0i32,
            0i32,
            0i32,
            0i32,
            0i32,
            0i32,
            0i32,
            0i32,
            0i32,
            0i32,
            0i32,
            1i32,
            0i32,
            0i32,
            block_reaction,
            enemy_block_anim,
        ],
    }
}

/// Integer slot `i` of a strike as the struct holds it: flags as 0/1,
/// bytes truncated to `u8`.
pub open spec fn strike_int(i: int, v: i32) -> i32 {
    if i == 0 || i == 2 || i == 3 || i == 4 || i == 11 || i == 12 || i == 13 || i == 14 || i == 19 {
        flag_int(v != 0)
    } else if i == 6 || i == 15 || i == 16 || i == 17 || i == 18 || i == 20 {
        (v as u8) as i32
    } else {
        v
    }
}

/// The strike a block's values give (without the data-level slots).
pub open spec fn strike_of(v: FieldValuesView) -> FieldValuesView {
    FieldValuesView {
        texts: v.texts,
        vecs: v.vecs,
        ints: Seq::new(22, |i: int| strike_int(i, v.ints[i])),
    }
}

fn text(s: &str) -> (t: String)
    ensures
        t@ == s@,
{
    s.to_owned()
}

fn strike_init_values(block_reaction: i32, enemy_block_anim: i32) -> (v: FieldValues)
    ensures
        v@ == strike_init(block_reaction, enemy_block_anim),
{
    proof {
        reveal_strlit("0");
        assert("0"@ =~= seq!['0']);
        reveal_strlit("0.1");
        assert("0.1"@ =~= seq!['0', '.', '1']);
        reveal_strlit("0.75");
        assert("0.75"@ =~= seq!['0', '.', '7', '5']);
        reveal_strlit("0.95");
        assert("0.95"@ =~= seq!['0', '.', '9', '5']);
        reveal_strlit("0.975");
        assert("0.975"@ =~= seq!['0', '.', '9', '7', '5']);
        reveal_strlit("1.0");
        assert("1.0"@ =~= seq!['1', '.', '0']);
    }
    let v = FieldValues {
        texts: vec![
            text("0"),
            text("0"),
            text("0"),
            text("0"),
            text("1.0"),
            text("0.1"),
            text("0"),
            text("0"),
            text("0"),
            text("0"),
            text("0"),
            text("0"),
            text("0"),
            text("1.0"),
            text("0"),
            text("0"),
            text("0"),
            text("0"),
            text("0"),
            text("0"),
            text("0"),
            text("0"),
            text("0"),
            text("0"),
            text("0"),
            text("0"),
            text("0"),
            text("0"),
            text("0"),
            text("0"),
            text("0"),
            text("0"),
            text("0"),
            text("0.75"),
            text("0.75"),
            text("0.75"),
            text("0.95"),
            text("0.975"),
            text("1.0"),
            text("0"),
            text("0"),
            text("0"),
            text("0"),
            text("0"),
            text("0"),
            text("0"),
            text("0"),
            text("0"),
            text("0"),
            text("0"),
            text("0"),
            text("0"),
            text("0"),
            text("0"),
            text("0"),
            text("0"),
            text("0"),
            text("0"),
            text("0"),
            text("0"),
            text("0"),
            text("0"),
            text("0"),
            text("0"),
            text("0"),
            text("0"),
            text("0"),
            text("0"),
            text("0"),
            text("0"),
            text("0"),
            text("0"),
            text("0"),
            text("0"),
            text("0"),
        ],
        vecs: Vec::new(),
        ints: vec![
            0,
            0,
            0,
            0,
            0,
            0,
            0,
            0,
            0,
            0,
            0,
            0,
            0,
            0,
            0,
            0,
            0,
            0,
            0,
            1,
            0,
            0,
            block_reaction,
            enemy_block_anim,
        ],
    };
    assert(v@.texts =~= strike_init(block_reaction, enemy_block_anim).texts);
    assert(v@.vecs =~= strike_init(block_reaction, enemy_block_anim).vecs);
    assert(v@.ints =~= strike_init(block_reaction, enemy_block_anim).ints);
    v
}

fn strike_from(v: &FieldValues) -> (s: AtdtStrike)
    requires
        same_shape(strike_init(0, 0), v@),
    ensures
        s@ == strike_of(v@),
{
    let s = AtdtStrike {
        framenum: v.texts[0].clone(),
        frameduration: v.texts[1].clone(),
        reactdiskradius: v.texts[2].clone(),
        minreactdiskradius: v.texts[3].clone(),
        reactdiskheight: v.texts[4].clone(),
        reactdiskheighttolerance: v.texts[5].clone(),
        vanishingpoint: v.texts[6].clone(),
        minradiusframe: v.texts[7].clone(),
        maxradiusframe: v.texts[8].clone(),
        slicestartradians: v.texts[9].clone(),
        sliceendradians: v.texts[10].clone(),
        sliceheadingradiansb: v.texts[11].clone(),
        minradiusphase: v.texts[12].clone(),
        maxradiusphase: v.texts[13].clone(),
        stop_track_frame: v.texts[14].clone(),
        sliderphase: [v.texts[15].clone(), v.texts[16].clone(), v.texts[17].clone(), v.texts[18].clone()],
        hitspeed: [v.texts[19].clone(), v.texts[20].clone(), v.texts[21].clone(), v.texts[22].clone()],
        reactphase: [v.texts[23].clone(), v.texts[24].clone(), v.texts[25].clone(), v.texts[26].clone()],
        reactdistance: [v.texts[27].clone(), v.texts[28].clone(), v.texts[29].clone(), v.texts[30].clone()],
        opp2_q_start: v.texts[31].clone(),
        opp2_begin_redirect: v.texts[32].clone(),
        opp2_do_start: v.texts[33].clone(),
        opp2_crit_start: v.texts[34].clone(),
        opp2_do_crit_start: v.texts[35].clone(),
        opp2_do_end: v.texts[36].clone(),
        opp3_q_start: v.texts[37].clone(),
        opp3_do_start: v.texts[38].clone(),
        opening: v.texts[39].clone(),
        soundframe: v.texts[40].clone(),
        spin: v.texts[41].clone(),
        holdduration: v.texts[42].clone(),
        react_sliderphase: [
            [v.texts[43].clone(), v.texts[44].clone(), v.texts[45].clone(), v.texts[46].clone()],
            [v.texts[47].clone(), v.texts[48].clone(), v.texts[49].clone(), v.texts[50].clone()],
            [v.texts[51].clone(), v.texts[52].clone(), v.texts[53].clone(), v.texts[54].clone()],
            [v.texts[55].clone(), v.texts[56].clone(), v.texts[57].clone(), v.texts[58].clone()],
        ],
        react_speed: [
            [v.texts[59].clone(), v.texts[60].clone(), v.texts[61].clone(), v.texts[62].clone()],
            [v.texts[63].clone(), v.texts[64].clone(), v.texts[65].clone(), v.texts[66].clone()],
            [v.texts[67].clone(), v.texts[68].clone(), v.texts[69].clone(), v.texts[70].clone()],
            [v.texts[71].clone(), v.texts[72].clone(), v.texts[73].clone(), v.texts[74].clone()],
        ],
        headingnotlockedtotarget: v.ints[0] != 0,
        sweepheading: v.ints[1],
        use_expanding_radius: v.ints[2] != 0,
        fire: v.ints[3] != 0,
        can_redirect: v.ints[4] != 0,
        end_rotation_notches: v.ints[5],
        hittype: v.ints[6] as u8,
        reactanim: [v.ints[7], v.ints[8], v.ints[9], v.ints[10]],
        face_with_react: [v.ints[11] != 0, v.ints[12] != 0, v.ints[13] != 0, v.ints[14] != 0],
        set_distance_mode: [v.ints[15] as u8, v.ints[16] as u8, v.ints[17] as u8, v.ints[18] as u8],
        queue_next_attack: v.ints[19] != 0,
        guardtype: v.ints[20] as u8,
        sound: v.ints[21],
    };
    assert(s@.texts =~= strike_of(v@).texts);
    assert(s@.ints =~= strike_of(v@).ints);
    assert(s@.vecs =~= strike_of(v@).vecs);
    s
}

/// The disarm part of a grab attack.
#[derive(Debug, Clone)]
pub struct AtdtGrab {
    pub removes_weapon: bool,
    pub removes_weapon_phase: String,
    pub react_anim: String,
    pub damage_phase: String,
}

/// Grab slots: texts `RemovesWeaponPhase`, `ReactAnim`, `DamagePhase`;
/// integer `RemovesWeapon` (0/1).
impl View for AtdtGrab {
    type V = FieldValuesView;

    open spec fn view(&self) -> FieldValuesView {
        FieldValuesView {
            texts: seq![self.removes_weapon_phase@, self.react_anim@, self.damage_phase@],
            vecs: Seq::empty(),
            ints: seq![flag_int(self.removes_weapon)],
        }
    }
}

/// The keys of a `grab` block and their slots.
pub open spec fn grab_schema() -> Seq<FieldSpec> {
    seq![
        sticky("removesweapon", FieldKind::Int, 0),
        sticky("removesweaponphase", FieldKind::Float, 0),
        sticky("reactanim", FieldKind::Text, 1),
        sticky("damagephase", FieldKind::Float, 2),
    ]
}

fn grab_schema_vec() -> (v: Vec<FieldSpec>)
    ensures
        v@ == grab_schema(),
{
    let v = vec![
        sticky_field("removesweapon", FieldKind::Int, 0),
        sticky_field("removesweaponphase", FieldKind::Float, 0),
        sticky_field("reactanim", FieldKind::Text, 1),
        sticky_field("damagephase", FieldKind::Float, 2),
    ];
    assert(v@ =~= grab_schema());
    v
}

/// A `grab` block starts with no disarm, phases 0 and no react animation.
pub open spec fn grab_init() -> FieldValuesView {
    FieldValuesView { texts: seq![seq!['0'], Seq::empty(), seq!['0']], vecs: Seq::empty(), ints: seq![0i32] }
}

pub open spec fn grab_of(v: FieldValuesView) -> FieldValuesView {
    FieldValuesView { ints: seq![flag_int(v.ints[0] != 0)], ..v }
}

fn grab_init_values() -> (v: FieldValues)
    ensures
        v@ == grab_init(),
{
    proof {
        reveal_strlit("0");
        reveal_strlit("");
        assert("0"@ =~= seq!['0']);
        assert(""@ =~= Seq::<char>::empty());
    }
    let v = FieldValues { texts: vec![text("0"), text(""), text("0")], vecs: Vec::new(), ints: vec![0] };
    assert(v@.texts =~= grab_init().texts);
    assert(v@.vecs =~= grab_init().vecs);
    assert(v@.ints =~= grab_init().ints);
    v
}

fn grab_from(v: &FieldValues) -> (g: AtdtGrab)
    requires
        same_shape(grab_init(), v@),
    ensures
        g@ == grab_of(v@),
{
    let g = AtdtGrab {
        removes_weapon: v.ints[0] != 0,
        removes_weapon_phase: v.texts[0].clone(),
        react_anim: v.texts[1].clone(),
        damage_phase: v.texts[2].clone(),
    };
    assert(g@.texts =~= grab_of(v@).texts);
    assert(g@.ints =~= grab_of(v@).ints);
    assert(g@.vecs =~= grab_of(v@).vecs);
    g
}

/// The attack data of one animation.
#[derive(Debug, Clone)]
pub struct AtdtData {
    pub strike: Option<AtdtStrike>,
    pub grab: Option<AtdtGrab>,
    pub damage: String,
    pub block_reaction: i32,
    /// Block animation played on a defender who blocks; -1 leaves the
    /// choice to the defender's block definition.
    pub enemy_block_anim: i32,
    pub guardtype: u8,
    pub target_class: Option<AttackTarget>,
    pub strength_class: Option<AttackStrength>,
    pub attack_class: Option<AttackClass>,
}

/// Mathematical view of [`AtdtData`].
pub struct AtdtDataView {
    pub strike: Option<FieldValuesView>,
    pub grab: Option<FieldValuesView>,
    pub damage: Seq<char>,
    pub block_reaction: i32,
    pub enemy_block_anim: i32,
    pub guardtype: u8,
    pub target_class: Option<AttackTarget>,
    pub strength_class: Option<AttackStrength>,
    pub attack_class: Option<AttackClass>,
}

impl View for AtdtData {
    type V = AtdtDataView;

    open spec fn view(&self) -> AtdtDataView {
        AtdtDataView {
            strike: match self.strike {
                Some(s) => Some(s@),
                None => None,
            },
            grab: match self.grab {
                Some(g) => Some(g@),
                None => None,
            },
            damage: self.damage@,
            block_reaction: self.block_reaction,
            enemy_block_anim: self.enemy_block_anim,
            guardtype: self.guardtype,
            target_class: self.target_class,
            strength_class: self.strength_class,
            attack_class: self.attack_class,
        }
    }
}

/// Before any key: no blocks, no damage, no class, `EnemyBlockAnim` -1.
pub open spec fn atdt_init() -> AtdtDataView {
    AtdtDataView {
        strike: None,
        grab: None,
        damage: seq!['0'],
        block_reaction: 0,
        enemy_block_anim: -1i32,
        guardtype: 0,
        target_class: None,
        strength_class: None,
        attack_class: None,
    }
}

/// An `i32` value after the key at `p`, or `fallback`.
pub open spec fn int_or(ts: Seq<Seq<char>>, p: int, fallback: i32) -> (i32, int) {
    let (v, q) = sp_read_i32_opt(ts, p, ts[p]);
    (
        match v {
            Some(x) => x,
            None => fallback,
        },
        q,
    )
}

/// A block after the key at `p`: its values, when its `{` follows.
pub open spec fn atdt_block(ts: Seq<Seq<char>>, p: int, schema: Seq<FieldSpec>, init: FieldValuesView) -> (Option<FieldValuesView>, int) {
    let (open, q1) = sp_start_anonymous(ts, p + 1);
    if open {
        let (v, q2) = field_block(ts, q1, schema, init, init);
        (Some(v), q2)
    } else {
        (None, q1)
    }
}

proof fn lemma_atdt_block_advances(ts: Seq<Seq<char>>, p: int, schema: Seq<FieldSpec>, init: FieldValuesView)
    requires
        0 <= p < ts.len(),
    ensures
        p < atdt_block(ts, p, schema, init).1 <= ts.len(),
{
    let (open, q1) = sp_start_anonymous(ts, p + 1);
    if open {
        lemma_field_block_advances(ts, q1, schema, init, init);
    }
}

/// One top-level step at `p`: the data after it and the next position.
pub open spec fn atdt_step(ts: Seq<Seq<char>>, p: int, d: AtdtDataView) -> (AtdtDataView, int) {
    let tok = ts[p];
    let key = lowercase(tok);
    if key == "strike"@ {
        let init = strike_init(d.block_reaction, d.enemy_block_anim);
        let (v, q) = atdt_block(ts, p, strike_schema(), init);
        match v {
            Some(x) => (
                AtdtDataView {
                    strike: Some(strike_of(x)),
                    block_reaction: x.ints[BLOCK_REACTION_SLOT as int],
                    enemy_block_anim: x.ints[ENEMY_BLOCK_ANIM_SLOT as int],
                    ..d
                },
                q,
            ),
            None => (d, q),
        }
    } else if key == "grab"@ {
        let (v, q) = atdt_block(ts, p, grab_schema(), grab_init());
        match v {
            Some(x) => (AtdtDataView { grab: Some(grab_of(x)), ..d }, q),
            None => (d, q),
        }
    } else if key == "damage"@ {
        let (v, q) = sp_read_float_opt(ts, p, tok);
        (
            AtdtDataView {
                damage: match v {
                    Some(x) => x,
                    None => d.damage,
                },
                ..d
            },
            q,
        )
    } else if key == "blockreaction"@ {
        let (v, q) = int_or(ts, p, d.block_reaction);
        (AtdtDataView { block_reaction: v, ..d }, q)
    } else if key == "enemyblockanim"@ {
        let (v, q) = int_or(ts, p, d.enemy_block_anim);
        (AtdtDataView { enemy_block_anim: v, ..d }, q)
    } else if key == "guardtype"@ {
        let (v, q) = int_or(ts, p, d.guardtype as i32);
        (AtdtDataView { guardtype: v as u8, ..d }, q)
    } else if key == "targetclass"@ {
        let (v, q) = int_or(ts, p, 0);
        (AtdtDataView { target_class: spec_target_from_int(v), ..d }, q)
    } else if key == "strengthclass"@ {
        let (v, q) = int_or(ts, p, 0);
        (AtdtDataView { strength_class: spec_strength_from_int(v), ..d }, q)
    } else if key == "attackclass"@ {
        let (v, q) = int_or(ts, p, 0);
        (AtdtDataView { attack_class: spec_attack_class_from_int(v), ..d }, q)
    } else {
        (d, p + 1)
    }
}

proof fn lemma_atdt_step_advances(ts: Seq<Seq<char>>, p: int, d: AtdtDataView)
    requires
        0 <= p < ts.len(),
    ensures
        p < atdt_step(ts, p, d).1 <= ts.len(),
{
    lemma_atdt_block_advances(ts, p, strike_schema(), strike_init(d.block_reaction, d.enemy_block_anim));
    lemma_atdt_block_advances(ts, p, grab_schema(), grab_init());
}

/// The data after reading every key from `p` to the end of the tokens
/// (a stray `}` is skipped like an unknown key).
pub open spec fn atdt_scan(ts: Seq<Seq<char>>, p: int, d: AtdtDataView) -> AtdtDataView
    decreases ts.len() - p,
    via atdt_scan_decreases
{
    if p < 0 || p >= ts.len() {
        d
    } else {
        let (d2, q) = atdt_step(ts, p, d);
        atdt_scan(ts, q, d2)
    }
}

#[via_fn]
proof fn atdt_scan_decreases(ts: Seq<Seq<char>>, p: int, d: AtdtDataView) {
    if 0 <= p < ts.len() {
        lemma_atdt_step_advances(ts, p, d);
    }
}

/// The attack data of an `.atdt` text (after an optional outer `{`).
pub open spec fn spec_parse_atdt(content: Seq<char>) -> AtdtDataView {
    let ts = spec_tokens(content);
    atdt_scan(ts, crate::block_parser::skip_open_brace(ts, 0), atdt_init())
}

fn read_atdt_block(p: &mut BlockParser, schema: &Vec<FieldSpec>, init: &FieldValues) -> (r: Option<FieldValues>)
    requires
        0 <= old(p).position() < old(p).tokens().len(),
        schema_fits(schema@, init@),
        same_shape(init@, init@),
    ensures
        final(p).tokens() == old(p).tokens(),
        ({
            let (v, q) = atdt_block(old(p).tokens(), old(p).position(), schema@, init@);
            &&& final(p).position() == q
            &&& match r {
                Some(x) => v == Some(x@) && same_shape(init@, x@),
                None => v is None,
            }
        }),
{
    p.next();
    if p.start_anonymous() {
        let mut values = init.duplicate();
        read_field_block(p, schema, init, &mut values);
        Some(values)
    } else {
        None
    }
}

proof fn lemma_strike_fits(br: i32, eba: i32)
    ensures
        schema_fits(strike_schema(), strike_init(br, eba)),
        same_shape(strike_init(0, 0), strike_init(br, eba)),
        same_shape(strike_init(br, eba), strike_init(br, eba)),
{
}

proof fn lemma_grab_fits()
    ensures
        schema_fits(grab_schema(), grab_init()),
        same_shape(grab_init(), grab_init()),
{
}

/// One top-level step (see [`atdt_step`]).
fn parse_atdt_step(p: &mut BlockParser, data: &mut AtdtData)
    requires
        0 <= old(p).position() < old(p).tokens().len(),
    ensures
        final(p).tokens() == old(p).tokens(),
        (final(data)@, final(p).position()) == atdt_step(
            old(p).tokens(),
            old(p).position(),
            old(data)@,
        ),
{
    let tok: String = match p.peek() {
        Some(t) => t.to_owned(),
        None => String::new(),
    };
    let key = to_lowercase(tok.as_str());
    let k = key.as_str();
    if str_is(k, "strike") {
        let schema = strike_schema_vec();
        let init = strike_init_values(data.block_reaction, data.enemy_block_anim);
        proof {
            lemma_strike_fits(data.block_reaction, data.enemy_block_anim);
        }
        if let Some(v) = read_atdt_block(p, &schema, &init) {
            data.strike = Some(strike_from(&v));
            data.block_reaction = v.ints[BLOCK_REACTION_SLOT];
            data.enemy_block_anim = v.ints[ENEMY_BLOCK_ANIM_SLOT];
        }
    } else if str_is(k, "grab") {
        let schema = grab_schema_vec();
        let init = grab_init_values();
        proof {
            lemma_grab_fits();
        }
        if let Some(v) = read_atdt_block(p, &schema, &init) {
            data.grab = Some(grab_from(&v));
        }
    } else if str_is(k, "damage") {
        let current = data.damage.clone();
        data.damage = p.read_float(tok.as_str(), current.as_str());
    } else if str_is(k, "blockreaction") {
        data.block_reaction = p.read_i32(tok.as_str(), data.block_reaction);
    } else if str_is(k, "enemyblockanim") {
        data.enemy_block_anim = p.read_i32(tok.as_str(), data.enemy_block_anim);
    } else if str_is(k, "guardtype") {
        data.guardtype = p.read_i32(tok.as_str(), data.guardtype as i32) as u8;
    } else if str_is(k, "targetclass") {
        data.target_class = target_from_int(p.read_i32(tok.as_str(), 0));
    } else if str_is(k, "strengthclass") {
        data.strength_class = strength_from_int(p.read_i32(tok.as_str(), 0));
    } else if str_is(k, "attackclass") {
        data.attack_class = attack_class_from_int(p.read_i32(tok.as_str(), 0));
    } else {
        p.next();
    }
}

/// Parses an `.atdt` text into the attack data of its animation.
pub fn parse_atdt_content(content: &str) -> (r: AtdtData)
    ensures
        r@ == spec_parse_atdt(content@),
{
    proof {
        reveal_strlit("0");
        assert("0"@ =~= seq!['0']);
    }
    let mut data = AtdtData {
        strike: None,
        grab: None,
        damage: text("0"),
        block_reaction: 0,
        enemy_block_anim: -1,
        guardtype: 0,
        target_class: None,
        strength_class: None,
        attack_class: None,
    };
    let mut p = BlockParser::new(content);
    let ghost ts = p.tokens();
    if p.start_anonymous() {
    }
    while p.peek().is_some()
        invariant
            p.tokens() == ts,
            ts == spec_tokens(content@),
            0 <= p.position() <= ts.len(),
            spec_parse_atdt(content@) == atdt_scan(ts, p.position(), data@),
        decreases ts.len() - p.position(),
    {
        let ghost pos0 = p.position();
        proof {
            lemma_atdt_step_advances(ts, pos0, data@);
        }
        parse_atdt_step(&mut p, &mut data);
    }
    data
}

} // verus!
