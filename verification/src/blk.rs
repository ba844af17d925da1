//! `.blk` block-data files (`entity.tune/<actor>/ANIMBLOCK_*.blk`).
//!
//! The schema is order-strict; each optional field only matches when its
//! name is literally the next token:
//!
//! ```text
//! StartPhase EndPhase Rate HeadingDegrees WidthDegrees     (required)
//! AnimMidPoint [AnimMidPointEnd] HoldButton                (optional group)
//! BlockableGuardTypes                                      (optional u32)
//! ReactAnim0 .. ReactAnim15                                (optional ints)
//! CounterAtk <name>                                        (optional, "" = none)
//! AtkNoQueueThreshold .. Opp3QStart                        (optional 8-float block)
//! SuccessfulBlockAnim <name>                               (optional, "" = none)
//! ComboCountBeforeCausingReact                             (optional int)
//! AutoCounter                                              (optional 0/1)
//! ```
//!
//! Float fields are returned as the text of their token (a valid `f32`
//! literal); angles stay in degrees as written.
use crate::block_parser::{
    peek_is_ic, sp_match_float, sp_read_i32_opt, sp_read_string_opt, BlockParser,
};
use crate::text::{
    chars_eq_ic, chars_of, decimal, eq_ic, push_decimal, push_str, string_from_chars,
    trim_quote_chars, trim_quotes,
};
use crate::tokenizer::spec_tokens;
use vstd::prelude::*;

verus! {

/// Number of hit types; every authored `.blk` writes `ReactAnim0..ReactAnim15`.
pub const NUM_HIT_TYPES: usize = 16;

/// `ANIMREACT_INVALID`: no failed-block react configured for a hit type.
pub const ANIMREACT_INVALID: i32 = -1;

/// Blockable hit-type mask when `BlockableGuardTypes` is absent: all types.
pub const DEFAULT_BLOCKABLE_HIT_TYPES: u32 = 0xFFFF_FFFF;

/// Number of `animBlockEnum` names.
pub const NUM_ANIMBLOCK_NAMES: usize = 6;

/// The `animBlockEnum` name table (index = enum value).
pub open spec fn animblock_names() -> Seq<Seq<char>> {
    seq![
        "ANIMBLOCK_NORMAL"@,
        "ANIMBLOCK_SLOT_0"@,
        "ANIMBLOCK_SLOT_1"@,
        "ANIMBLOCK_SLOT_2"@,
        "ANIMBLOCK_SLOT_3"@,
        "ANIMBLOCK_SLOT_4"@,
    ]
}

/// The `animBlockEnum` name with index `i`.
pub fn animblock_name(i: usize) -> (r: &'static str)
    requires
        i < NUM_ANIMBLOCK_NAMES,
    ensures
        r@ == animblock_names()[i as int],
{
    if i == 0 {
        "ANIMBLOCK_NORMAL"
    } else if i == 1 {
        "ANIMBLOCK_SLOT_0"
    } else if i == 2 {
        "ANIMBLOCK_SLOT_1"
    } else if i == 3 {
        "ANIMBLOCK_SLOT_2"
    } else if i == 4 {
        "ANIMBLOCK_SLOT_3"
    } else {
        "ANIMBLOCK_SLOT_4"
    }
}

/// Reverse lookup: block alias (ASCII case-insensitive) to `animBlockEnum`
/// index; `None` for aliases that name no block.
pub fn block_index_for_alias(alias: &str) -> (r: Option<i32>)
    ensures
        match r {
            Some(i) => 0 <= i < 6 && eq_ic(animblock_names()[i as int], alias@) && forall|j: int|
                0 <= j < i ==> !eq_ic(#[trigger] animblock_names()[j], alias@),
            None => forall|j: int| 0 <= j < 6 ==> !eq_ic(#[trigger] animblock_names()[j], alias@),
        },
{
    let a = chars_of(alias);
    let mut i: usize = 0;
    while i < NUM_ANIMBLOCK_NAMES
        invariant
            i <= 6,
            a@ == alias@,
            forall|j: int| 0 <= j < i ==> !eq_ic(#[trigger] animblock_names()[j], alias@),
        decreases 6 - i,
    {
        let n = chars_of(animblock_name(i));
        if chars_eq_ic(n.as_slice(), a.as_slice()) {
            return Some(i as i32);
        }
        i = i + 1;
    }
    None
}

/// The eight-float window-of-opportunity block (`crAtkAnimCtrlBlock`).
#[derive(Debug, Clone, PartialEq, Eq)]
pub struct AnimControlBlock {
    pub opp1_do_end: String,
    pub opp2_q_start: String,
    pub opp2_do_start: String,
    pub opp2_q_crit_start: String,
    pub opp2_do_crit_start: String,
    pub opp2_do_end: String,
    pub opp3_q_start: String,
    pub opp3_do_start: String,
}

/// The model of an [`AnimControlBlock`]: the text of each field.
pub struct AnimControlBlockView {
    pub opp1_do_end: Seq<char>,
    pub opp2_q_start: Seq<char>,
    pub opp2_do_start: Seq<char>,
    pub opp2_q_crit_start: Seq<char>,
    pub opp2_do_crit_start: Seq<char>,
    pub opp2_do_end: Seq<char>,
    pub opp3_q_start: Seq<char>,
    pub opp3_do_start: Seq<char>,
}

impl View for AnimControlBlock {
    type V = AnimControlBlockView;

    open spec fn view(&self) -> AnimControlBlockView {
        AnimControlBlockView {
            opp1_do_end: self.opp1_do_end@,
            opp2_q_start: self.opp2_q_start@,
            opp2_do_start: self.opp2_do_start@,
            opp2_q_crit_start: self.opp2_q_crit_start@,
            opp2_do_crit_start: self.opp2_do_crit_start@,
            opp2_do_end: self.opp2_do_end@,
            opp3_q_start: self.opp3_q_start@,
            opp3_do_start: self.opp3_do_start@,
        }
    }
}

/// One parsed `.blk` file.
#[derive(Debug, Clone, PartialEq, Eq)]
pub struct BlockDef {
    pub anim_index: i32,
    /// `HeadingDegrees`, in degrees.
    pub heading_degrees: String,
    /// `WidthDegrees`, in degrees.
    pub width_degrees: String,
    pub start_phase: String,
    pub end_phase: String,
    pub rate: String,
    pub anim_mid_point: String,
    pub anim_mid_point_end: String,
    pub max_hold_button: String,
    pub blockable_hit_types: u32,
    pub combo_count_before_react: i32,
    pub auto_counter: bool,
    pub failed_block_react_anims: Vec<i32>,
    pub counter_atk: Option<String>,
    pub successful_block_anim: Option<String>,
    /// `None` when the file has no `AtkNoQueueThreshold` block.
    pub anim_control_block: Option<AnimControlBlock>,
}

/// The model of a [`BlockDef`].
pub struct BlockDefView {
    pub anim_index: i32,
    pub heading_degrees: Seq<char>,
    pub width_degrees: Seq<char>,
    pub start_phase: Seq<char>,
    pub end_phase: Seq<char>,
    pub rate: Seq<char>,
    pub anim_mid_point: Seq<char>,
    pub anim_mid_point_end: Seq<char>,
    pub max_hold_button: Seq<char>,
    pub blockable_hit_types: u32,
    pub combo_count_before_react: i32,
    pub auto_counter: bool,
    pub failed_block_react_anims: Seq<i32>,
    pub counter_atk: Option<Seq<char>>,
    pub successful_block_anim: Option<Seq<char>>,
    pub anim_control_block: Option<AnimControlBlockView>,
}

pub open spec fn opt_view(s: Option<String>) -> Option<Seq<char>> {
    match s {
        Some(x) => Some(x@),
        None => None,
    }
}

impl View for BlockDef {
    type V = BlockDefView;

    open spec fn view(&self) -> BlockDefView {
        BlockDefView {
            anim_index: self.anim_index,
            heading_degrees: self.heading_degrees@,
            width_degrees: self.width_degrees@,
            start_phase: self.start_phase@,
            end_phase: self.end_phase@,
            rate: self.rate@,
            anim_mid_point: self.anim_mid_point@,
            anim_mid_point_end: self.anim_mid_point_end@,
            max_hold_button: self.max_hold_button@,
            blockable_hit_types: self.blockable_hit_types,
            combo_count_before_react: self.combo_count_before_react,
            auto_counter: self.auto_counter,
            failed_block_react_anims: self.failed_block_react_anims@,
            counter_atk: opt_view(self.counter_atk),
            successful_block_anim: opt_view(self.successful_block_anim),
            anim_control_block: match self.anim_control_block {
                Some(a) => Some(a@),
                None => None,
            },
        }
    }
}

/// A name field: quotes trimmed, the empty name meaning "none".
pub open spec fn name_field(v: Option<Seq<char>>) -> Option<Seq<char>> {
    match v {
        Some(s) => if trim_quotes(s).len() == 0 {
            None
        } else {
            Some(trim_quotes(s))
        },
        None => None,
    }
}

/// `ReactAnim<i>`.
pub open spec fn react_key(i: int) -> Seq<char> {
    "ReactAnim"@ + decimal(i as nat)
}

/// The `ReactAnim<i>..ReactAnim15` readers from position `p`: the values
/// (`ANIMREACT_INVALID` where absent) and the position after them.
pub open spec fn react_from(ts: Seq<Seq<char>>, p: int, i: int) -> (Seq<i32>, int)
    decreases 16 - i,
{
    if i >= 16 || i < 0 {
        (seq![], p)
    } else {
        let (v, q) = sp_read_i32_opt(ts, p, react_key(i));
        let (rest, r) = react_from(ts, q, i + 1);
        (
            seq![
                match v {
                    Some(x) => x,
                    None => ANIMREACT_INVALID,
                },
            ] + rest,
            r,
        )
    }
}

/// The eight-float block read from position `p`.
pub open spec fn spec_anim_control_block(ts: Seq<Seq<char>>, p: int) -> Option<
    (AnimControlBlockView, int),
> {
    let (a, p1) = sp_match_float(ts, p, "AtkNoQueueThreshold"@);
    let (b, p2) = sp_match_float(ts, p1, "AtkBeginRedirectThreshold"@);
    let (c, p3) = sp_match_float(ts, p2, "AtkEndRedirectThreshold"@);
    let (d, p4) = sp_match_float(ts, p3, "Opp2CritStart"@);
    let (e, p5) = sp_match_float(ts, p4, "Opp2DoCritStart"@);
    let (f, p6) = sp_match_float(ts, p5, "AtkEndRedirectLimit"@);
    let (g, p7) = sp_match_float(ts, p6, "Opp3DoStart"@);
    let (h, p8) = sp_match_float(ts, p7, "Opp3QStart"@);
    if a is Some && b is Some && c is Some && d is Some && e is Some && f is Some && g is Some
        && h is Some {
        Some(
            (
                AnimControlBlockView {
                    opp2_q_start: a.unwrap(),
                    opp1_do_end: b.unwrap(),
                    opp2_do_start: c.unwrap(),
                    opp2_q_crit_start: d.unwrap(),
                    opp2_do_crit_start: e.unwrap(),
                    opp2_do_end: f.unwrap(),
                    opp3_do_start: g.unwrap(),
                    opp3_q_start: h.unwrap(),
                },
                p8,
            ),
        )
    } else {
        None
    }
}

/// The optional `AnimMidPoint [AnimMidPointEnd] HoldButton` group read from
/// position `p`; without it the values are `0.5`, `0.5`, `0.0`.
pub open spec fn spec_mid_group(ts: Seq<Seq<char>>, p: int) -> Option<
    ((Seq<char>, Seq<char>, Seq<char>), int),
> {
    if peek_is_ic(ts, p, "AnimMidPoint"@) {
        let (mp, q1) = sp_match_float(ts, p, "AnimMidPoint"@);
        match mp {
            None => None,
            Some(m) => {
                let (mpe, q2) = if peek_is_ic(ts, q1, "AnimMidPointEnd"@) {
                    sp_match_float(ts, q1, "AnimMidPointEnd"@)
                } else {
                    (Some(m), q1)
                };
                match mpe {
                    None => None,
                    Some(e) => {
                        let (hb, q3) = sp_match_float(ts, q2, "HoldButton"@);
                        match hb {
                            None => None,
                            Some(h) => Some(((m, e, h), q3)),
                        }
                    },
                }
            },
        }
    } else {
        Some(((seq!['0', '.', '5'], seq!['0', '.', '5'], seq!['0', '.', '0']), p))
    }
}

/// The `BlockDef` that the token sequence `ts` describes, if any.
pub open spec fn spec_parse_blk(ts: Seq<Seq<char>>, anim_index: i32) -> Option<BlockDefView> {
    let (sp, p1) = sp_match_float(ts, 0, "StartPhase"@);
    let (ep, p2) = sp_match_float(ts, p1, "EndPhase"@);
    let (rate, p3) = sp_match_float(ts, p2, "Rate"@);
    let (hd, p4) = sp_match_float(ts, p3, "HeadingDegrees"@);
    let (wd, p5) = sp_match_float(ts, p4, "WidthDegrees"@);
    if sp is None || ep is None || rate is None || hd is None || wd is None {
        None
    } else {
        match spec_mid_group(ts, p5) {
            None => None,
            Some((mid, p6)) => {
                let (bg, p7) = sp_read_i32_opt(ts, p6, "BlockableGuardTypes"@);
                let (reacts, p8) = react_from(ts, p7, 0);
                let (ca, p9) = sp_read_string_opt(ts, p8, "CounterAtk"@);
                let acb = if peek_is_ic(ts, p9, "AtkNoQueueThreshold"@) {
                    match spec_anim_control_block(ts, p9) {
                        Some((a, q)) => Some((Some(a), q)),
                        None => None,
                    }
                } else {
                    Some((None, p9))
                };
                match acb {
                    None => None,
                    Some((acb_v, p10)) => {
                        let (sba, p11) = sp_read_string_opt(ts, p10, "SuccessfulBlockAnim"@);
                        let (combo, p12) = sp_read_i32_opt(
                            ts,
                            p11,
                            "ComboCountBeforeCausingReact"@,
                        );
                        let (auto, p13) = sp_read_i32_opt(ts, p12, "AutoCounter"@);
                        Some(
                            BlockDefView {
                                anim_index,
                                heading_degrees: hd.unwrap(),
                                width_degrees: wd.unwrap(),
                                start_phase: sp.unwrap(),
                                end_phase: ep.unwrap(),
                                rate: rate.unwrap(),
                                anim_mid_point: mid.0,
                                anim_mid_point_end: mid.1,
                                max_hold_button: mid.2,
                                blockable_hit_types: match bg {
                                    Some(v) => v as u32,
                                    None => DEFAULT_BLOCKABLE_HIT_TYPES,
                                },
                                combo_count_before_react: match combo {
                                    Some(v) => v,
                                    None => 0,
                                },
                                auto_counter: match auto {
                                    Some(v) => v != 0,
                                    None => false,
                                },
                                failed_block_react_anims: reacts,
                                counter_atk: name_field(ca),
                                successful_block_anim: name_field(sba),
                                anim_control_block: acb_v,
                            },
                        )
                    },
                }
            },
        }
    }
}

/// `String` from a character literal.
fn text_of(c: &[char]) -> (r: String)
    ensures
        r@ == c@,
{
    string_from_chars(c)
}

/// A name field: quotes trimmed, the empty name meaning "none".
fn name_of(v: Option<String>) -> (r: Option<String>)
    ensures
        opt_view(r) == name_field(opt_view(v)),
{
    match v {
        Some(s) => {
            let c = chars_of(s.as_str());
            let t = trim_quote_chars(c.as_slice());
            if t.len() == 0 {
                None
            } else {
                Some(string_from_chars(t.as_slice()))
            }
        },
        None => None,
    }
}

/// Parse the eight-float `AnimControlBlock`.
fn parse_anim_control_block(p: &mut BlockParser) -> (r: Option<AnimControlBlock>)
    ensures
        final(p).tokens() == old(p).tokens(),
        match spec_anim_control_block(old(p).tokens(), old(p).position()) {
            Some((v, q)) => r matches Some(a) && a@ == v && final(p).position() == q,
            None => r is None,
        },
{
    let opp2_q_start = match p.match_float("AtkNoQueueThreshold") {
        Ok(v) => v,
        Err(_) => return None,
    };
    let opp1_do_end = match p.match_float("AtkBeginRedirectThreshold") {
        Ok(v) => v,
        Err(_) => return None,
    };
    let opp2_do_start = match p.match_float("AtkEndRedirectThreshold") {
        Ok(v) => v,
        Err(_) => return None,
    };
    let opp2_q_crit_start = match p.match_float("Opp2CritStart") {
        Ok(v) => v,
        Err(_) => return None,
    };
    let opp2_do_crit_start = match p.match_float("Opp2DoCritStart") {
        Ok(v) => v,
        Err(_) => return None,
    };
    let opp2_do_end = match p.match_float("AtkEndRedirectLimit") {
        Ok(v) => v,
        Err(_) => return None,
    };
    let opp3_do_start = match p.match_float("Opp3DoStart") {
        Ok(v) => v,
        Err(_) => return None,
    };
    let opp3_q_start = match p.match_float("Opp3QStart") {
        Ok(v) => v,
        Err(_) => return None,
    };
    Some(
        AnimControlBlock {
            opp1_do_end,
            opp2_q_start,
            opp2_do_start,
            opp2_q_crit_start,
            opp2_do_crit_start,
            opp2_do_end,
            opp3_q_start,
            opp3_do_start,
        },
    )
}

/// Read the optional `AnimMidPoint` group.
fn parse_mid_group(p: &mut BlockParser) -> (r: Option<(String, String, String)>)
    ensures
        final(p).tokens() == old(p).tokens(),
        match spec_mid_group(old(p).tokens(), old(p).position()) {
            Some((v, q)) => r matches Some(t) && t.0@ == v.0 && t.1@ == v.1 && t.2@ == v.2
                && final(p).position() == q,
            None => r is None,
        },
{
    let has_mid = match p.peek() {
        Some(t) => {
            let c = chars_of(t);
            let k = chars_of("AnimMidPoint");
            chars_eq_ic(c.as_slice(), k.as_slice())
        },
        None => false,
    };
    if has_mid {
        let mp = match p.match_float("AnimMidPoint") {
            Ok(v) => v,
            Err(_) => return None,
        };
        let has_end = match p.peek() {
            Some(t) => {
                let c = chars_of(t);
                let k = chars_of("AnimMidPointEnd");
                chars_eq_ic(c.as_slice(), k.as_slice())
            },
            None => false,
        };
        let mpe = if has_end {
            match p.match_float("AnimMidPointEnd") {
                Ok(v) => v,
                Err(_) => return None,
            }
        } else {
            mp.clone()
        };
        let hb = match p.match_float("HoldButton") {
            Ok(v) => v,
            Err(_) => return None,
        };
        Some((mp, mpe, hb))
    } else {
        let half: [char; 3] = ['0', '.', '5'];
        let zero: [char; 3] = ['0', '.', '0'];
        assert(half@ =~= seq!['0', '.', '5']);
        assert(zero@ =~= seq!['0', '.', '0']);
        Some((text_of(&half), text_of(&half), text_of(&zero)))
    }
}

/// Parse a `.blk` file. `anim_index` is the `animBlockEnum` value the file
/// was loaded for. `None` when a required field (or a field of an entered
/// group) is missing or not a number.
pub fn parse_blk_content(content: &str, anim_index: i32) -> (r: Option<BlockDef>)
    ensures
        match spec_parse_blk(spec_tokens(content@), anim_index) {
            Some(v) => r matches Some(d) && d@ == v,
            None => r is None,
        },
{
    let mut p = BlockParser::new(content);
    let ghost ts = p.tokens();
    let start_phase = match p.match_float("StartPhase") {
        Ok(v) => v,
        Err(_) => return None,
    };
    let end_phase = match p.match_float("EndPhase") {
        Ok(v) => v,
        Err(_) => return None,
    };
    let rate = match p.match_float("Rate") {
        Ok(v) => v,
        Err(_) => return None,
    };
    let heading_degrees = match p.match_float("HeadingDegrees") {
        Ok(v) => v,
        Err(_) => return None,
    };
    let width_degrees = match p.match_float("WidthDegrees") {
        Ok(v) => v,
        Err(_) => return None,
    };
    let (anim_mid_point, anim_mid_point_end, max_hold_button) = match parse_mid_group(&mut p) {
        Some(t) => t,
        None => return None,
    };
    let blockable_hit_types = match p.read_i32_opt("BlockableGuardTypes") {
        Some(v) => v as u32,
        None => DEFAULT_BLOCKABLE_HIT_TYPES,
    };
    let ghost p7 = p.position();
    let mut failed_block_react_anims: Vec<i32> = Vec::new();
    let mut i: usize = 0;
    while i < NUM_HIT_TYPES
        invariant
            i <= 16,
            p.tokens() == ts,
            failed_block_react_anims@ + react_from(ts, p.position(), i as int).0 == react_from(
                ts,
                p7,
                0,
            ).0,
            react_from(ts, p.position(), i as int).1 == react_from(ts, p7, 0).1,
        decreases 16 - i,
    {
        let mut key: Vec<char> = Vec::new();
        push_str(&mut key, "ReactAnim");
        push_decimal(&mut key, i as u64);
        let ghost before = failed_block_react_anims@;
        let ghost q = p.position();
        let v = match p.read_i32_opt_chars(key.as_slice()) {
            Some(v) => v,
            None => ANIMREACT_INVALID,
        };
        failed_block_react_anims.push(v);
        proof {
            let (rest, r) = react_from(ts, p.position(), i + 1);
            assert(react_from(ts, q, i as int) == (seq![v] + rest, r));
            assert(failed_block_react_anims@ + react_from(ts, p.position(), i + 1).0
                =~= before + react_from(ts, q, i as int).0);
        }
        i = i + 1;
    }
    assert(failed_block_react_anims@ =~= react_from(ts, p7, 0).0);
    let counter_atk = name_of(p.read_string_opt("CounterAtk"));
    let has_acb = match p.peek() {
        Some(t) => {
            let c = chars_of(t);
            let k = chars_of("AtkNoQueueThreshold");
            chars_eq_ic(c.as_slice(), k.as_slice())
        },
        None => false,
    };
    let anim_control_block = if has_acb {
        match parse_anim_control_block(&mut p) {
            Some(a) => Some(a),
            None => return None,
        }
    } else {
        None
    };
    let successful_block_anim = name_of(p.read_string_opt("SuccessfulBlockAnim"));
    let combo_count_before_react = p.read_i32("ComboCountBeforeCausingReact", 0);
    let auto_counter = p.read_i32("AutoCounter", 0) != 0;
    Some(
        BlockDef {
            anim_index,
            heading_degrees,
            width_degrees,
            start_phase,
            end_phase,
            rate,
            anim_mid_point,
            anim_mid_point_end,
            max_hold_button,
            blockable_hit_types,
            combo_count_before_react,
            auto_counter,
            failed_block_react_anims,
            counter_atk,
            successful_block_anim,
            anim_control_block,
        },
    )
}

} // verus!
