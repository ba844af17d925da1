//! `.gait` files: how an animation's root motion is conditioned.
//!
//! ```text
//! Axis: <int>        orientation hint, not consulted
//! Normalize: <int>   0 none, 1 walk (deprecated), 2 root, 3 tracker (deprecated)
//! ```
use crate::text::{
    chars_eq_ic, chars_of, copy_range, eq_ic, first_index_of, lemma_first_index_of, lines,
    parse_i32, spec_lines, spec_parse_i32, spec_trim, trim,
};
use vstd::prelude::*;

verus! {

/// Root-motion conditioning declared by a `.gait` file.
#[derive(Debug, Clone, Copy, PartialEq, Eq, Structural)]
pub enum GaitNormalize {
    /// No processing.
    NoProcessing,
    /// Deprecated: no longer handled by the engine.
    Walk,
    /// Remove the root's horizontal movement from the channel data.
    Root,
    /// Deprecated: a dead path in the engine.
    Tracker,
}

/// 0 none, 1 walk, 2 root, 3 tracker; any other value is none.
pub open spec fn normalize_of(v: i32) -> GaitNormalize {
    if v == 1 {
        GaitNormalize::Walk
    } else if v == 2 {
        GaitNormalize::Root
    } else if v == 3 {
        GaitNormalize::Tracker
    } else {
        GaitNormalize::NoProcessing
    }
}

/// The `Normalize` code of a mode: 0 none, 1 walk, 2 root, 3 tracker.
pub open spec fn normalize_code(g: GaitNormalize) -> i32 {
    match g {
        GaitNormalize::NoProcessing => 0,
        GaitNormalize::Walk => 1,
        GaitNormalize::Root => 2,
        GaitNormalize::Tracker => 3,
    }
}

/// A `Normalize` value selects the mode whose code it is, and no
/// processing when it is no mode's code.
pub proof fn lemma_normalize_codes(v: i32, g: GaitNormalize)
    ensures
        normalize_of(normalize_code(g)) == g,
        0 <= v <= 3 ==> normalize_code(normalize_of(v)) == v,
        !(0 <= v <= 3) ==> normalize_of(v) == GaitNormalize::NoProcessing,
{
}

impl GaitNormalize {
    /// The mode a `Normalize` value selects; `filename` only names the file
    /// the value came from.
    pub fn from_int(v: i32, filename: &str) -> (g: Self)
        ensures
            g == normalize_of(v),
    {
        match v {
            1 => GaitNormalize::Walk,
            2 => GaitNormalize::Root,
            3 => GaitNormalize::Tracker,
            _ => GaitNormalize::NoProcessing,
        }
    }

    /// Only `Root` removes root movement during playback.
    pub fn should_strip_root(self) -> (b: bool)
        ensures
            b == (self == GaitNormalize::Root),
    {
        match self {
            GaitNormalize::Root => true,
            _ => false,
        }
    }
}

/// A parsed `.gait` file.
#[derive(Debug, Clone, Copy, PartialEq, Eq, Structural)]
pub struct GaitData {
    pub normalize: GaitNormalize,
    /// Orientation hint, kept but not consulted.
    pub axis: i32,
}

/// The key and value of a trimmed line: the trimmed text before and after
/// its first `:`, when it has one.
pub open spec fn key_value(t: Seq<char>) -> Option<(Seq<char>, Seq<char>)> {
    let k = first_index_of(t, ':');
    if k >= t.len() {
        None
    } else {
        Some((spec_trim(t.take(k)), spec_trim(t.skip(k + 1))))
    }
}

/// One line applied to the `Axis` and `Normalize` values read so far:
/// each key, case-insensitively, sets its value to the parsed integer, or
/// to none when the value is not one.
pub open spec fn gait_line(axis: Option<i32>, norm: Option<i32>, line: Seq<char>) -> (Option<i32>, Option<i32>) {
    let t = spec_trim(line);
    if t.len() == 0 {
        (axis, norm)
    } else {
        match key_value(t) {
            None => (axis, norm),
            Some((key, value)) => if eq_ic(key, "Axis"@) {
                (spec_parse_i32(value), norm)
            } else if eq_ic(key, "Normalize"@) {
                (axis, spec_parse_i32(value))
            } else {
                (axis, norm)
            },
        }
    }
}

/// The values after the first `k` lines.
pub open spec fn gait_state(ls: Seq<Seq<char>>, k: nat) -> (Option<i32>, Option<i32>)
    decreases k,
{
    if k == 0 {
        (None, None)
    } else {
        let (a, n) = gait_state(ls, (k - 1) as nat);
        gait_line(a, n, ls[k - 1])
    }
}

/// A `.gait` text: `None` when neither value was read; a missing
/// `Normalize` is none and a missing `Axis` is 0.
pub open spec fn spec_parse_gait(content: Seq<char>) -> Option<GaitData> {
    let ls = spec_lines(content);
    let (axis, norm) = gait_state(ls, ls.len());
    if axis is None && norm is None {
        None
    } else {
        Some(
            GaitData {
                normalize: match norm {
                    Some(v) => normalize_of(v),
                    None => GaitNormalize::NoProcessing,
                },
                axis: match axis {
                    Some(a) => a,
                    None => 0,
                },
            },
        )
    }
}

/// Line `line` sets key `key` (case ignored), to this value text.
pub open spec fn key_line(line: Seq<char>, key: Seq<char>) -> Option<Seq<char>> {
    let t = spec_trim(line);
    if t.len() == 0 {
        None
    } else {
        match key_value(t) {
            Some((k, v)) => if eq_ic(k, key) {
                Some(v)
            } else {
                None
            },
            None => None,
        }
    }
}

/// The value of `key` after the first `k` lines: the last line setting it
/// decides, and a value that is not an `i32` reads as none.
pub open spec fn last_key(ls: Seq<Seq<char>>, k: nat, key: Seq<char>) -> Option<i32>
    decreases k,
{
    if k == 0 {
        None
    } else {
        match key_line(ls[k - 1], key) {
            Some(v) => spec_parse_i32(v),
            None => last_key(ls, (k - 1) as nat, key),
        }
    }
}

proof fn lemma_gait_state_keys(ls: Seq<Seq<char>>, k: nat)
    requires
        k <= ls.len(),
    ensures
        gait_state(ls, k) == (last_key(ls, k, "Axis"@), last_key(ls, k, "Normalize"@)),
    decreases k,
{
    reveal_strlit("Axis");
    reveal_strlit("Normalize");
    if k > 0 {
        lemma_gait_state_keys(ls, (k - 1) as nat);
        let t = spec_trim(ls[k - 1]);
        if t.len() > 0 {
            if let Some((kk, v)) = key_value(t) {
                if eq_ic(kk, "Axis"@) {
                    assert(!eq_ic(kk, "Normalize"@));
                }
            }
        }
    }
}

/// A `.gait` text gives no data exactly when neither `Axis` nor
/// `Normalize` is readable: no line sets the key (case ignored, before a
/// line's first `:`), or the last line that sets it has a value that is
/// not an `i32`.
pub proof fn lemma_gait_none_iff_no_readable_key(content: Seq<char>)
    ensures
        spec_parse_gait(content) is None <==> ({
            let ls = spec_lines(content);
            &&& last_key(ls, ls.len(), "Axis"@) is None
            &&& last_key(ls, ls.len(), "Normalize"@) is None
        }),
{
    let ls = spec_lines(content);
    lemma_gait_state_keys(ls, ls.len());
}

fn apply_gait_line(axis: &mut Option<i32>, norm: &mut Option<i32>, line: &[char])
    ensures
        (*final(axis), *final(norm)) == gait_line(*old(axis), *old(norm), line@),
{
    let t = trim(line);
    if t.len() == 0 {
        return;
    }
    proof {
        lemma_first_index_of(t@, ':');
    }
    let mut k: usize = 0;
    while k < t.len() && t[k] != ':'
        invariant
            k <= t@.len(),
            forall|j: int| 0 <= j < k ==> t@[j] != ':',
            0 <= first_index_of(t@, ':') <= t@.len(),
            first_index_of(t@, ':') < t@.len() ==> t@[first_index_of(t@, ':')] == ':',
            forall|j: int| 0 <= j < first_index_of(t@, ':') ==> t@[j] != ':',
        decreases t@.len() - k,
    {
        k = k + 1;
    }
    assert(k == first_index_of(t@, ':'));
    if k >= t.len() {
        return;
    }
    let key_raw = copy_range(t.as_slice(), 0, k);
    let value_raw = copy_range(t.as_slice(), k + 1, t.len());
    assert(key_raw@ =~= t@.take(k as int));
    assert(value_raw@ =~= t@.skip(k + 1));
    let key = trim(key_raw.as_slice());
    let value = trim(value_raw.as_slice());
    let axis_key = chars_of("Axis");
    let norm_key = chars_of("Normalize");
    if chars_eq_ic(key.as_slice(), axis_key.as_slice()) {
        *axis = parse_i32(value.as_slice());
    } else if chars_eq_ic(key.as_slice(), norm_key.as_slice()) {
        *norm = parse_i32(value.as_slice());
    }
}

/// Reads a `.gait` text; `filename` only names the file it came from.
pub fn parse_gait(content: &str, filename: &str) -> (r: Option<GaitData>)
    ensures
        r == spec_parse_gait(content@),
{
    let chars = chars_of(content);
    let ls = lines(chars.as_slice());
    let ghost lv = ls@.map_values(|l: Vec<char>| l@);
    assert(lv =~= spec_lines(content@));
    let mut axis: Option<i32> = None;
    let mut norm: Option<i32> = None;
    let mut i: usize = 0;
    while i < ls.len()
        invariant
            i <= ls@.len(),
            lv == ls@.map_values(|l: Vec<char>| l@),
            (axis, norm) == gait_state(lv, i as nat),
        decreases ls@.len() - i,
    {
        assert(lv[i as int] == ls@[i as int]@);
        apply_gait_line(&mut axis, &mut norm, ls[i].as_slice());
        i = i + 1;
    }
    if axis.is_none() && norm.is_none() {
        return None;
    }
    let normalize = match norm {
        Some(v) => GaitNormalize::from_int(v, filename),
        None => GaitNormalize::NoProcessing,
    };
    Some(GaitData {
        normalize,
        axis: match axis {
            Some(a) => a,
            None => 0,
        },
    })
}

} // verus!
