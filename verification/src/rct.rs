//! Reaction animations: the `animReactEnum` name table and `.rct` files.
//!
//! A `.rct` file is a list of `Key value` lines (blank lines and lines
//! starting with `#` or `//` are skipped); only the keys below are read,
//! each line with a known key setting its field anew.
use crate::text::{
    chars_of, has_prefix, is_float_text, float_text, lines, parse_i32, replace_all, replace_str,
    spec_lines, spec_parse_i32, spec_trim, spec_words, split_whitespace, starts_with,
    string_from_chars, str_is, trim,
};
use vstd::prelude::*;

verus! {

/// Index of `ANIMDIE_GENERAL` among the reaction names: the death
/// animation used when the killing blow's reaction cannot be one.
pub const ANIMDIE_GENERAL_INDEX: i32 = 56;

/// The reaction animation names by `animReactEnum` value.
pub open spec fn animreact_spec(i: int) -> Option<Seq<char>> {
    if i == 0 {
        Some("ANIMREACT_REGULAR"@)
    } else if i == 1 {
        Some("ANIMREACT_FIGHTSTANCE"@)
    } else if i == 2 {
        Some("ANIMREACT_FROMBACK"@)
    } else if i == 3 {
        Some("ANIMREACT_GRAPPLE_SHOT"@)
    } else if i == 4 {
        Some("ANIMREACT_KNOCKDOWN"@)
    } else if i == 5 {
        Some("ANIMREACT_GRAPPLE"@)
    } else if i == 6 {
        Some("ANIMREACT_GENERAL_SLOT_0"@)
    } else if i == 7 {
        Some("ANIMREACT_GENERAL_SLOT_1"@)
    } else if i == 8 {
        Some("ANIMREACT_GENERAL_SLOT_2"@)
    } else if i == 9 {
        Some("ANIMREACT_GENERAL_SLOT_3"@)
    } else if i == 10 {
        Some("ANIMREACT_GENERAL_SLOT_4"@)
    } else if i == 11 {
        Some("ANIMREACT_GENERAL_SLOT_5"@)
    } else if i == 12 {
        Some("ANIMREACT_GENERAL_SLOT_6"@)
    } else if i == 13 {
        Some("ANIMREACT_GENERAL_SLOT_7"@)
    } else if i == 14 {
        Some("ANIMREACT_GENERAL_SLOT_8"@)
    } else if i == 15 {
        Some("ANIMREACT_GENERAL_SLOT_9"@)
    } else if i == 16 {
        Some("ANIMREACT_GENERAL_SLOT_10"@)
    } else if i == 17 {
        Some("ANIMREACT_GENERAL_SLOT_11"@)
    } else if i == 18 {
        Some("ANIMREACT_BLOCKED"@)
    } else if i == 19 {
        Some("ANIMREACT_ATK_ATTACK_1_MASH"@)
    } else if i == 20 {
        Some("ANIMREACT_ATK_ATTACK_1_SKILL"@)
    } else if i == 21 {
        Some("ANIMREACT_ATK_ATTACK_2_MASH"@)
    } else if i == 22 {
        Some("ANIMREACT_ATK_ATTACK_2_SKILL"@)
    } else if i == 23 {
        Some("ANIMREACT_ATK_CROUCHING"@)
    } else if i == 24 {
        Some("ANIMREACT_ATK_STANDING_JUMP"@)
    } else if i == 25 {
        Some("ANIMREACT_ATK_RUNNING_JUMP"@)
    } else if i == 26 {
        Some("ANIMREACT_ATK_RUNNING_ATTACK"@)
    } else if i == 27 {
        Some("ANIMREACT_ATK_GRAPPLE"@)
    } else if i == 28 {
        Some("ANIMREACT_ATK_SWEEP"@)
    } else if i == 29 {
        Some("ANIMREACT_ATK_SWEEP_CHRYSALIS"@)
    } else if i == 30 {
        Some("ANIMREACT_GA_SLOT_0"@)
    } else if i == 31 {
        Some("ANIMREACT_GA_SLOT_1"@)
    } else if i == 32 {
        Some("ANIMREACT_GA_SLOT_2"@)
    } else if i == 33 {
        Some("ANIMREACT_GA_SLOT_3"@)
    } else if i == 34 {
        Some("ANIMREACT_GA_SLOT_4"@)
    } else if i == 35 {
        Some("ANIMREACT_GA_SLOT_5"@)
    } else if i == 36 {
        Some("ANIMREACT_GA_SLOT_6"@)
    } else if i == 37 {
        Some("ANIMREACT_GA_SLOT_7"@)
    } else if i == 38 {
        Some("ANIMREACT_COUNTER_SLOT_0"@)
    } else if i == 39 {
        Some("ANIMREACT_COUNTER_SLOT_1"@)
    } else if i == 40 {
        Some("ANIMREACT_COUNTER_SLOT_2"@)
    } else if i == 41 {
        Some("ANIMREACT_COUNTER_SLOT_3"@)
    } else if i == 42 {
        Some("ANIMREACT_COUNTER_SLOT_4"@)
    } else if i == 43 {
        Some("ANIMREACT_COUNTER_SLOT_5"@)
    } else if i == 44 {
        Some("ANIMREACT_COUNTER_SLOT_6"@)
    } else if i == 45 {
        Some("ANIMREACT_COUNTER_SLOT_7"@)
    } else if i == 46 {
        Some("ANIMREACT_WALL"@)
    } else if i == 47 {
        Some("ANIMREACT_WALL_GETUP"@)
    } else if i == 48 {
        Some("ANIMREACT_CRANESTRUGGLE"@)
    } else if i == 49 {
        Some("ANIMREACT_FROMBACK_STAND_SFT"@)
    } else if i == 50 {
        Some("ANIMREACT_FROMBACK_STAND_MED"@)
    } else if i == 51 {
        Some("ANIMREACT_FROMBACK_STAND_HRD"@)
    } else if i == 52 {
        Some("ANIMREACT_FROMBACK_RUN_SFT"@)
    } else if i == 53 {
        Some("ANIMREACT_FROMBACK_RUN_MED"@)
    } else if i == 54 {
        Some("ANIMREACT_FROMBACK_RUN_HRD"@)
    } else if i == 55 {
        Some("ANIMREACT_FROM_ABOVE"@)
    } else if i == 56 {
        Some("ANIMDIE_GENERAL"@)
    } else {
        None
    }
}

/// The reaction animation name of `animReactEnum` value `i` (0 to 56;
/// `ANIMDIE_GENERAL` shares the sequence as its last entry).
pub fn animreact_name(i: i32) -> (r: Option<&'static str>)
    ensures
        match animreact_spec(i as int) {
            Some(n) => r matches Some(s) && s@ == n,
            None => r is None,
        },
{
    match i {
        0 => Some("ANIMREACT_REGULAR"),
        1 => Some("ANIMREACT_FIGHTSTANCE"),
        2 => Some("ANIMREACT_FROMBACK"),
        3 => Some("ANIMREACT_GRAPPLE_SHOT"),
        4 => Some("ANIMREACT_KNOCKDOWN"),
        5 => Some("ANIMREACT_GRAPPLE"),
        6 => Some("ANIMREACT_GENERAL_SLOT_0"),
        7 => Some("ANIMREACT_GENERAL_SLOT_1"),
        8 => Some("ANIMREACT_GENERAL_SLOT_2"),
        9 => Some("ANIMREACT_GENERAL_SLOT_3"),
        10 => Some("ANIMREACT_GENERAL_SLOT_4"),
        11 => Some("ANIMREACT_GENERAL_SLOT_5"),
        12 => Some("ANIMREACT_GENERAL_SLOT_6"),
        13 => Some("ANIMREACT_GENERAL_SLOT_7"),
        14 => Some("ANIMREACT_GENERAL_SLOT_8"),
        15 => Some("ANIMREACT_GENERAL_SLOT_9"),
        16 => Some("ANIMREACT_GENERAL_SLOT_10"),
        17 => Some("ANIMREACT_GENERAL_SLOT_11"),
        18 => Some("ANIMREACT_BLOCKED"),
        19 => Some("ANIMREACT_ATK_ATTACK_1_MASH"),
        20 => Some("ANIMREACT_ATK_ATTACK_1_SKILL"),
        21 => Some("ANIMREACT_ATK_ATTACK_2_MASH"),
        22 => Some("ANIMREACT_ATK_ATTACK_2_SKILL"),
        23 => Some("ANIMREACT_ATK_CROUCHING"),
        24 => Some("ANIMREACT_ATK_STANDING_JUMP"),
        25 => Some("ANIMREACT_ATK_RUNNING_JUMP"),
        26 => Some("ANIMREACT_ATK_RUNNING_ATTACK"),
        27 => Some("ANIMREACT_ATK_GRAPPLE"),
        28 => Some("ANIMREACT_ATK_SWEEP"),
        29 => Some("ANIMREACT_ATK_SWEEP_CHRYSALIS"),
        30 => Some("ANIMREACT_GA_SLOT_0"),
        31 => Some("ANIMREACT_GA_SLOT_1"),
        32 => Some("ANIMREACT_GA_SLOT_2"),
        33 => Some("ANIMREACT_GA_SLOT_3"),
        34 => Some("ANIMREACT_GA_SLOT_4"),
        35 => Some("ANIMREACT_GA_SLOT_5"),
        36 => Some("ANIMREACT_GA_SLOT_6"),
        37 => Some("ANIMREACT_GA_SLOT_7"),
        38 => Some("ANIMREACT_COUNTER_SLOT_0"),
        39 => Some("ANIMREACT_COUNTER_SLOT_1"),
        40 => Some("ANIMREACT_COUNTER_SLOT_2"),
        41 => Some("ANIMREACT_COUNTER_SLOT_3"),
        42 => Some("ANIMREACT_COUNTER_SLOT_4"),
        43 => Some("ANIMREACT_COUNTER_SLOT_5"),
        44 => Some("ANIMREACT_COUNTER_SLOT_6"),
        45 => Some("ANIMREACT_COUNTER_SLOT_7"),
        46 => Some("ANIMREACT_WALL"),
        47 => Some("ANIMREACT_WALL_GETUP"),
        48 => Some("ANIMREACT_CRANESTRUGGLE"),
        49 => Some("ANIMREACT_FROMBACK_STAND_SFT"),
        50 => Some("ANIMREACT_FROMBACK_STAND_MED"),
        51 => Some("ANIMREACT_FROMBACK_STAND_HRD"),
        52 => Some("ANIMREACT_FROMBACK_RUN_SFT"),
        53 => Some("ANIMREACT_FROMBACK_RUN_MED"),
        54 => Some("ANIMREACT_FROMBACK_RUN_HRD"),
        55 => Some("ANIMREACT_FROM_ABOVE"),
        56 => Some("ANIMDIE_GENERAL"),
        _ => None,
    }
}

/// What a `.rct` file sets.  `invulnerability_start_phase` is the text of
/// the phase (a float), `None` for 0.
pub struct ReactData {
    pub sound_package: String,
    pub invulnerability_start_phase: Option<String>,
    pub get_up_anim: String,
    pub end_rotation_notches: i32,
    pub does_not_take_damage_after_phase: i32,
    pub can_follow_with_wall_react: i32,
    pub sound_frame: i32,
    /// Whether the reaction may serve as the death animation.
    pub can_be_die_animation: bool,
}

pub struct ReactModel {
    pub sound_package: Seq<char>,
    pub invulnerability_start_phase: Option<Seq<char>>,
    pub get_up_anim: Seq<char>,
    pub end_rotation_notches: i32,
    pub does_not_take_damage_after_phase: i32,
    pub can_follow_with_wall_react: i32,
    pub sound_frame: i32,
    pub can_be_die_animation: bool,
}

pub open spec fn react_model(d: ReactData) -> ReactModel {
    ReactModel {
        sound_package: d.sound_package@,
        invulnerability_start_phase: match d.invulnerability_start_phase {
            Some(t) => Some(t@),
            None => None,
        },
        get_up_anim: d.get_up_anim@,
        end_rotation_notches: d.end_rotation_notches,
        does_not_take_damage_after_phase: d.does_not_take_damage_after_phase,
        can_follow_with_wall_react: d.can_follow_with_wall_react,
        sound_frame: d.sound_frame,
        can_be_die_animation: d.can_be_die_animation,
    }
}

pub open spec fn react_default() -> ReactModel {
    ReactModel {
        sound_package: Seq::empty(),
        invulnerability_start_phase: None,
        get_up_anim: Seq::empty(),
        end_rotation_notches: 0,
        does_not_take_damage_after_phase: 0,
        can_follow_with_wall_react: 0,
        sound_frame: 0,
        can_be_die_animation: false,
    }
}

/// An `i32` value, 0 when the text is not one.
pub open spec fn int_or_zero(v: Seq<char>) -> i32 {
    match spec_parse_i32(v) {
        Some(i) => i,
        None => 0,
    }
}

/// Whether a trimmed line is skipped: empty, or a `#` or `//` comment.
pub open spec fn rct_skipped(t: Seq<char>) -> bool {
    t.len() == 0 || t[0] == '#' || has_prefix(t, "//"@)
}

/// One line applied to what was read so far.
pub open spec fn rct_line(d: ReactModel, line: Seq<char>) -> ReactModel {
    let t = spec_trim(line);
    let parts = spec_words(t);
    if rct_skipped(t) || parts.len() == 0 {
        d
    } else {
        let key = parts[0];
        let val = if parts.len() > 1 {
            parts[1]
        } else {
            Seq::empty()
        };
        if key == "SoundPackage"@ {
            ReactModel { sound_package: val, ..d }
        } else if key == "InvulnerabilityStartPhase"@ {
            ReactModel {
                invulnerability_start_phase: if is_float_text(val) {
                    Some(val)
                } else {
                    None
                },
                ..d
            }
        } else if key == "GetUpAnim"@ {
            ReactModel { get_up_anim: replace_all(val, seq!['"'], Seq::empty()), ..d }
        } else if key == "EndRotationNotches"@ {
            ReactModel { end_rotation_notches: int_or_zero(val), ..d }
        } else if key == "DoesNotTakeDamageAfterPhase"@ {
            ReactModel { does_not_take_damage_after_phase: int_or_zero(val), ..d }
        } else if key == "CanFollowWithWallReact"@ {
            ReactModel { can_follow_with_wall_react: int_or_zero(val), ..d }
        } else if key == "SoundFrame"@ {
            ReactModel { sound_frame: int_or_zero(val), ..d }
        } else if key == "CanBeDieAnimation"@ {
            ReactModel {
                can_be_die_animation: match spec_parse_i32(val) {
                    Some(n) => n != 0,
                    None => false,
                },
                ..d
            }
        } else {
            d
        }
    }
}

/// What the first `k` lines set.
pub open spec fn rct_upto(ls: Seq<Seq<char>>, k: nat) -> ReactModel
    decreases k,
{
    if k == 0 {
        react_default()
    } else {
        rct_line(rct_upto(ls, (k - 1) as nat), ls[k - 1])
    }
}

fn int_or_zero_of(v: &[char]) -> (r: i32)
    ensures
        r == int_or_zero(v@),
{
    match parse_i32(v) {
        Some(i) => i,
        None => 0,
    }
}

/// Reads a `.rct` file.
pub fn parse_rct_content(content: &str) -> (r: ReactData)
    ensures
        react_model(r) == rct_upto(spec_lines(content@), spec_lines(content@).len()),
{
    let chars = chars_of(content);
    let ls = lines(chars.as_slice());
    let ghost lv = ls@.map_values(|l: Vec<char>| l@);
    assert(lv =~= spec_lines(content@));
    let mut d = ReactData {
        sound_package: String::new(),
        invulnerability_start_phase: None,
        get_up_anim: String::new(),
        end_rotation_notches: 0,
        does_not_take_damage_after_phase: 0,
        can_follow_with_wall_react: 0,
        sound_frame: 0,
        can_be_die_animation: false,
    };
    let comment: [char; 2] = ['/', '/'];
    let quote: [char; 1] = ['"'];
    let nothing: [char; 0] = [];
    proof {
        reveal_strlit("//");
        assert(comment@ =~= "//"@);
        assert(quote@ =~= seq!['"']);
        assert(nothing@ =~= Seq::<char>::empty());
    }
    let mut k: usize = 0;
    while k < ls.len()
        invariant
            k <= ls@.len(),
            lv == ls@.map_values(|l: Vec<char>| l@),
            react_model(d) == rct_upto(lv, k as nat),
            comment@ == "//"@,
            quote@ == seq!['"'],
            nothing@ == Seq::<char>::empty(),
        decreases ls@.len() - k,
    {
        assert(lv[k as int] == ls@[k as int]@);
        let t = trim(ls[k].as_slice());
        let parts = split_whitespace(t.as_slice());
        let ghost pv = parts@.map_values(|w: Vec<char>| w@);
        assert(pv =~= spec_words(t@));
        let skipped = t.len() == 0 || t[0] == '#' || starts_with(t.as_slice(), &comment);
        if !skipped && parts.len() > 0 {
            assert(pv[0] == parts@[0]@);
            let key = string_from_chars(parts[0].as_slice());
            let val: Vec<char> = if parts.len() > 1 {
                assert(pv[1] == parts@[1]@);
                parts[1].clone()
            } else {
                Vec::new()
            };
            assert(val@ == if pv.len() > 1 {
                pv[1]
            } else {
                Seq::<char>::empty()
            });
            if str_is(key.as_str(), "SoundPackage") {
                d.sound_package = string_from_chars(val.as_slice());
            } else if str_is(key.as_str(), "InvulnerabilityStartPhase") {
                d.invulnerability_start_phase = if float_text(val.as_slice()) {
                    Some(string_from_chars(val.as_slice()))
                } else {
                    None
                };
            } else if str_is(key.as_str(), "GetUpAnim") {
                let g = replace_str(val.as_slice(), &quote, &nothing);
                d.get_up_anim = string_from_chars(g.as_slice());
            } else if str_is(key.as_str(), "EndRotationNotches") {
                d.end_rotation_notches = int_or_zero_of(val.as_slice());
            } else if str_is(key.as_str(), "DoesNotTakeDamageAfterPhase") {
                d.does_not_take_damage_after_phase = int_or_zero_of(val.as_slice());
            } else if str_is(key.as_str(), "CanFollowWithWallReact") {
                d.can_follow_with_wall_react = int_or_zero_of(val.as_slice());
            } else if str_is(key.as_str(), "SoundFrame") {
                d.sound_frame = int_or_zero_of(val.as_slice());
            } else if str_is(key.as_str(), "CanBeDieAnimation") {
                d.can_be_die_animation = match parse_i32(val.as_slice()) {
                    Some(n) => n != 0,
                    None => false,
                };
            }
        }
        k = k + 1;
    }
    d
}

} // verus!
