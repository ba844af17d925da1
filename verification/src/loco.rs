//! Locomotion controllers (`.loco`).
//!
//! Inside `locodata {` blocks, `<anim> {` (or `<anim>` then `{`) opens a
//! blend gait: a forward gait at the first nesting level, a strafe gait
//! deeper.  Outside them the same opens a transition for the event it
//! names.  A `}` closes the open gait, else the open transition (added to
//! its event's list), else a `locodata` level.  Blank lines and `#` or
//! `//` comments are skipped.  Animations are kept by name; throttles as
//! their text (`"0"` when they do not parse).
use crate::registry::key_index;
use crate::text::{
    chars_of, copy_range, float_text, has_prefix, has_suffix, is_float_text, lemma_last_index_of,
    lines, parse_u32, spec_lines, spec_parse_unsigned, spec_trim, spec_words, split_whitespace,
    starts_with, ends_with, str_is, string_from_chars, trim,
};
use vstd::prelude::*;

verus! {

/// A gait of a blend: the throttle range it covers and its animation.
pub struct LocoBlendGait {
    pub min_throttle: String,
    pub max_throttle: String,
    pub ideal_throttle: String,
    pub independent_phase: bool,
    pub anim: String,
}

/// A transition taken on an event.
pub struct LocoTransition {
    pub channel: String,
    pub transition_anim: Option<String>,
    pub final_anim: Option<String>,
    pub num_channels_disabled: u32,
    pub stack_action: Option<String>,
}

/// Gaits in file order, and the transitions of each event in file order
/// (events in order of their first transition).
pub struct LocomotionController {
    pub forward_gaits: Vec<LocoBlendGait>,
    pub strafe_gaits: Vec<LocoBlendGait>,
    pub transitions: Vec<(String, Vec<LocoTransition>)>,
}

pub struct GaitModel {
    pub min_throttle: Seq<char>,
    pub max_throttle: Seq<char>,
    pub ideal_throttle: Seq<char>,
    pub independent_phase: bool,
    pub anim: Seq<char>,
}

pub struct TransModel {
    pub channel: Seq<char>,
    pub transition_anim: Option<Seq<char>>,
    pub final_anim: Option<Seq<char>>,
    pub num_channels_disabled: u32,
    pub stack_action: Option<Seq<char>>,
}

pub open spec fn ov(t: Option<String>) -> Option<Seq<char>> {
    match t {
        Some(s) => Some(s@),
        None => None,
    }
}

pub open spec fn gait_model(g: LocoBlendGait) -> GaitModel {
    GaitModel {
        min_throttle: g.min_throttle@,
        max_throttle: g.max_throttle@,
        ideal_throttle: g.ideal_throttle@,
        independent_phase: g.independent_phase,
        anim: g.anim@,
    }
}

pub open spec fn trans_model(t: LocoTransition) -> TransModel {
    TransModel {
        channel: t.channel@,
        transition_anim: ov(t.transition_anim),
        final_anim: ov(t.final_anim),
        num_channels_disabled: t.num_channels_disabled,
        stack_action: ov(t.stack_action),
    }
}

pub open spec fn gaits_model(v: Seq<LocoBlendGait>) -> Seq<GaitModel> {
    v.map_values(|g: LocoBlendGait| gait_model(g))
}

pub open spec fn transs_model(v: Seq<LocoTransition>) -> Seq<TransModel> {
    v.map_values(|t: LocoTransition| trans_model(t))
}

pub open spec fn groups_model(v: Seq<(String, Vec<LocoTransition>)>) -> Seq<(Seq<char>, Seq<TransModel>)> {
    v.map_values(|e: (String, Vec<LocoTransition>)| (e.0@, transs_model(e.1@)))
}

/// `t` added to the list of event `k`.
pub open spec fn group_push(s: Seq<(Seq<char>, Seq<TransModel>)>, k: Seq<char>, t: TransModel) -> Seq<
    (Seq<char>, Seq<TransModel>),
> {
    let i = key_index(s, k);
    if i >= 0 {
        s.update(i, (k, s[i].1.push(t)))
    } else {
        s.push((k, seq![t]))
    }
}

pub open spec fn gait_default(anim: Seq<char>) -> GaitModel {
    GaitModel {
        min_throttle: seq!['0'],
        max_throttle: seq!['0'],
        ideal_throttle: seq!['0'],
        independent_phase: false,
        anim,
    }
}

pub open spec fn trans_default() -> TransModel {
    TransModel {
        channel: Seq::empty(),
        transition_anim: None,
        final_anim: None,
        num_channels_disabled: 0,
        stack_action: None,
    }
}

pub open spec fn float_or_zero(t: Seq<char>) -> Seq<char> {
    if is_float_text(t) {
        t
    } else {
        seq!['0']
    }
}

/// The reading state.
pub struct LocoScan {
    pub forward: Seq<GaitModel>,
    pub strafe: Seq<GaitModel>,
    pub groups: Seq<(Seq<char>, Seq<TransModel>)>,
    pub depth: int,
    pub gait_depth: int,
    pub gait: Option<GaitModel>,
    pub event: Option<Seq<char>>,
    pub trans: Option<TransModel>,
    pub pending: Option<Seq<char>>,
}

/// `s` without trailing `{`s.
pub open spec fn without_open_braces(s: Seq<char>) -> Seq<char>
    decreases s.len(),
{
    if s.len() > 0 && s[s.len() - 1] == '{' {
        without_open_braces(s.drop_last())
    } else {
        s
    }
}

pub open spec fn gait_key(g: GaitModel, key: Seq<char>, val: Seq<char>) -> GaitModel {
    if key == "min_throttle"@ {
        GaitModel { min_throttle: float_or_zero(val), ..g }
    } else if key == "max_throttle"@ {
        GaitModel { max_throttle: float_or_zero(val), ..g }
    } else if key == "ideal_throttle"@ {
        GaitModel { ideal_throttle: float_or_zero(val), ..g }
    } else if key == "independant_phase"@ {
        GaitModel { independent_phase: val == "1"@, ..g }
    } else {
        g
    }
}

pub open spec fn trans_key(t: TransModel, key: Seq<char>, val: Seq<char>) -> TransModel {
    if key == "channel"@ {
        TransModel { channel: val, ..t }
    } else if key == "transition_anim"@ {
        TransModel { transition_anim: Some(val), ..t }
    } else if key == "final_anim"@ {
        TransModel { final_anim: Some(val), ..t }
    } else if key == "numchannelsdisabled"@ {
        TransModel {
            num_channels_disabled: match spec_parse_unsigned(val, u32::MAX as int) {
                Some(v) => v as u32,
                None => 0,
            },
            ..t
        }
    } else if key == "stackaction"@ {
        TransModel { stack_action: Some(val), ..t }
    } else {
        t
    }
}

pub open spec fn loco_line(st: LocoScan, line: Seq<char>) -> LocoScan {
    let t = spec_trim(line);
    if t.len() == 0 || t[0] == '#' || has_prefix(t, "//"@) {
        st
    } else if t == "locodata {"@ {
        LocoScan { depth: st.depth + 1, ..st }
    } else if t == "transitiondata {"@ {
        st
    } else if t == "{"@ || has_suffix(t, "{"@) {
        let is_open = t == "{"@;
        let name = if is_open {
            match st.pending {
                Some(n) => n,
                None => Seq::empty(),
            }
        } else {
            spec_trim(without_open_braces(t))
        };
        let st1 = if is_open {
            LocoScan { pending: None, ..st }
        } else {
            st
        };
        if name.len() == 0 {
            st1
        } else if st1.depth > 0 {
            LocoScan { gait: Some(gait_default(name)), gait_depth: st1.depth, ..st1 }
        } else {
            LocoScan { event: Some(name), trans: Some(trans_default()), ..st1 }
        }
    } else if t == "}"@ {
        match st.gait {
            Some(g) => if st.gait_depth == 1 {
                LocoScan { forward: st.forward.push(g), gait: None, ..st }
            } else {
                LocoScan { strafe: st.strafe.push(g), gait: None, ..st }
            },
            None => match st.trans {
                Some(tr) => match st.event {
                    Some(e) => LocoScan {
                        groups: group_push(st.groups, e, tr),
                        trans: None,
                        event: None,
                        ..st
                    },
                    None => LocoScan { trans: None, ..st },
                },
                None => if st.depth > 0 {
                    LocoScan { depth: st.depth - 1, ..st }
                } else {
                    st
                },
            },
        }
    } else {
        let parts = spec_words(t);
        if parts.len() == 1 {
            LocoScan { pending: Some(parts[0]), ..st }
        } else if parts.len() < 2 {
            st
        } else if st.depth > 0 && st.gait is Some {
            LocoScan { gait: Some(gait_key(st.gait->Some_0, parts[0], parts[1])), ..st }
        } else if st.trans is Some {
            LocoScan { trans: Some(trans_key(st.trans->Some_0, parts[0], parts[1])), ..st }
        } else {
            st
        }
    }
}

pub open spec fn loco_upto(ls: Seq<Seq<char>>, k: nat) -> LocoScan
    decreases k,
{
    if k == 0 {
        LocoScan {
            forward: Seq::empty(),
            strafe: Seq::empty(),
            groups: Seq::empty(),
            depth: 0,
            gait_depth: 0,
            gait: None,
            event: None,
            trans: None,
            pending: None,
        }
    } else {
        loco_line(loco_upto(ls, (k - 1) as nat), ls[k - 1])
    }
}

proof fn lemma_loco_depth(ls: Seq<Seq<char>>, k: nat)
    ensures
        0 <= loco_upto(ls, k).depth <= k,
        0 <= loco_upto(ls, k).gait_depth <= k,
    decreases k,
{
    if k > 0 {
        lemma_loco_depth(ls, (k - 1) as nat);
    }
}

fn text_zero() -> (r: String)
    ensures
        r@ == seq!['0'],
{
    let z: [char; 1] = ['0'];
    assert(z@ =~= seq!['0']);
    string_from_chars(&z)
}

fn float_or_zero_of(v: &Vec<char>) -> (r: String)
    ensures
        r@ == float_or_zero(v@),
{
    if float_text(v.as_slice()) {
        string_from_chars(v.as_slice())
    } else {
        text_zero()
    }
}

fn new_gait(anim: String) -> (g: LocoBlendGait)
    ensures
        gait_model(g) == gait_default(anim@),
{
    LocoBlendGait {
        min_throttle: text_zero(),
        max_throttle: text_zero(),
        ideal_throttle: text_zero(),
        independent_phase: false,
        anim,
    }
}

fn new_transition() -> (t: LocoTransition)
    ensures
        trans_model(t) == trans_default(),
{
    LocoTransition {
        channel: String::new(),
        transition_anim: None,
        final_anim: None,
        num_channels_disabled: 0,
        stack_action: None,
    }
}

fn apply_gait_key(g: &mut LocoBlendGait, key: &Vec<char>, val: &Vec<char>)
    ensures
        gait_model(*final(g)) == gait_key(gait_model(*old(g)), key@, val@),
{
    let k = string_from_chars(key.as_slice());
    if str_is(k.as_str(), "min_throttle") {
        g.min_throttle = float_or_zero_of(val);
    } else if str_is(k.as_str(), "max_throttle") {
        g.max_throttle = float_or_zero_of(val);
    } else if str_is(k.as_str(), "ideal_throttle") {
        g.ideal_throttle = float_or_zero_of(val);
    } else if str_is(k.as_str(), "independant_phase") {
        g.independent_phase = str_is(string_from_chars(val.as_slice()).as_str(), "1");
    }
}

fn apply_trans_key(t: &mut LocoTransition, key: &Vec<char>, val: &Vec<char>)
    ensures
        trans_model(*final(t)) == trans_key(trans_model(*old(t)), key@, val@),
{
    let k = string_from_chars(key.as_slice());
    if str_is(k.as_str(), "channel") {
        t.channel = string_from_chars(val.as_slice());
    } else if str_is(k.as_str(), "transition_anim") {
        t.transition_anim = Some(string_from_chars(val.as_slice()));
    } else if str_is(k.as_str(), "final_anim") {
        t.final_anim = Some(string_from_chars(val.as_slice()));
    } else if str_is(k.as_str(), "numchannelsdisabled") {
        t.num_channels_disabled = match parse_u32(val.as_slice()) {
            Some(v) => v,
            None => 0,
        };
    } else if str_is(k.as_str(), "stackaction") {
        t.stack_action = Some(string_from_chars(val.as_slice()));
    }
}

/// Adds `t` to the list of event `e`.
fn push_transition(groups: &mut Vec<(String, Vec<LocoTransition>)>, e: String, t: LocoTransition)
    ensures
        groups_model(final(groups)@) == group_push(groups_model(old(groups)@), e@, trans_model(t)),
{
    let ghost g0 = groups_model(groups@);
    let mut i = groups.len();
    let mut found = false;
    assert(g0.take(i as int) =~= g0);
    while i > 0
        invariant_except_break
            i <= groups@.len(),
            groups@ == old(groups)@,
            g0 == groups_model(groups@),
            !found,
            key_index(g0, e@) == key_index(g0.take(i as int), e@),
        ensures
            groups@ == old(groups)@,
            g0 == groups_model(groups@),
            found ==> 0 < i <= groups@.len() && key_index(g0, e@) == i - 1,
            !found ==> key_index(g0, e@) == -1,
        decreases i,
    {
        assert(g0.take(i as int).drop_last() =~= g0.take(i - 1));
        assert(g0[i - 1].0 == groups@[i - 1].0@);
        assert(g0.take(i as int).last() == g0[i - 1]);
        if str_is(groups[i - 1].0.as_str(), e.as_str()) {
            found = true;
            break;
        }
        i = i - 1;
    }
    if found {
        let j = i - 1;
        assert(key_index(g0, e@) == j);
        let ghost before = groups@;
        proof {
            crate::registry::lemma_key_index(g0, e@);
        }
        assert(g0[j as int].0 == before[j as int].0@);
        let (k, mut v) = groups.remove(j);
        assert(k@ == e@);
        let ghost tv = transs_model(v@);
        assert(tv == g0[j as int].1);
        v.push(t);
        assert(transs_model(v@) =~= tv.push(trans_model(t)));
        let ghost nv = v;
        groups.insert(j, (k, v));
        assert(groups@ =~= before.update(j as int, (k, nv)));
        assert(groups_model(groups@) =~= g0.update(j as int, (e@, g0[j as int].1.push(trans_model(t)))));
    } else {
        let mut v: Vec<LocoTransition> = Vec::new();
        v.push(t);
        assert(transs_model(v@) =~= seq![trans_model(t)]);
        groups.push((e, v));
        assert(groups_model(groups@) =~= g0.push((e@, seq![trans_model(t)])));
    }
}

/// Reads a `.loco` text (see the module documentation).
pub fn parse_loco_content(content: &str) -> (r: LocomotionController)
    ensures
        ({
            let ls = spec_lines(content@);
            let st = loco_upto(ls, ls.len());
            &&& gaits_model(r.forward_gaits@) == st.forward
            &&& gaits_model(r.strafe_gaits@) == st.strafe
            &&& groups_model(r.transitions@) == st.groups
        }),
{
    let chars = chars_of(content);
    let ls = lines(chars.as_slice());
    let ghost lv = ls@.map_values(|l: Vec<char>| l@);
    assert(lv =~= spec_lines(content@));
    let mut c = LocomotionController {
        forward_gaits: Vec::new(),
        strafe_gaits: Vec::new(),
        transitions: Vec::new(),
    };
    let mut depth: usize = 0;
    let mut gait_depth: usize = 0;
    let mut gait: Option<LocoBlendGait> = None;
    let mut event: Option<String> = None;
    let mut trans: Option<LocoTransition> = None;
    let mut pending: Option<String> = None;
    let comment: [char; 2] = ['/', '/'];
    let brace: [char; 1] = ['{'];
    proof {
        reveal_strlit("//");
        reveal_strlit("{");
        assert(comment@ =~= "//"@);
        assert(brace@ =~= "{"@);
    }
    assert(gaits_model(c.forward_gaits@) =~= Seq::<GaitModel>::empty());
    assert(gaits_model(c.strafe_gaits@) =~= Seq::<GaitModel>::empty());
    assert(groups_model(c.transitions@) =~= Seq::<(Seq<char>, Seq<TransModel>)>::empty());
    let mut k: usize = 0;
    while k < ls.len()
        invariant
            k <= ls@.len(),
            lv == ls@.map_values(|l: Vec<char>| l@),
            comment@ == "//"@,
            brace@ == "{"@,
            ({
                let st = loco_upto(lv, k as nat);
                &&& gaits_model(c.forward_gaits@) == st.forward
                &&& gaits_model(c.strafe_gaits@) == st.strafe
                &&& groups_model(c.transitions@) == st.groups
                &&& depth as int == st.depth
                &&& gait_depth as int == st.gait_depth
                &&& match gait {
                    Some(g) => st.gait == Some(gait_model(g)),
                    None => st.gait is None,
                }
                &&& ov(event) == st.event
                &&& match trans {
                    Some(t) => st.trans == Some(trans_model(t)),
                    None => st.trans is None,
                }
                &&& ov(pending) == st.pending
            }),
        decreases ls@.len() - k,
    {
        proof {
            lemma_loco_depth(lv, k as nat);
        }
        assert(lv[k as int] == ls@[k as int]@);
        let t = trim(ls[k].as_slice());
        let ts = string_from_chars(t.as_slice());
        if t.len() == 0 || t[0] == '#' || starts_with(t.as_slice(), &comment) {
        } else if str_is(ts.as_str(), "locodata {") {
            depth = depth + 1;
        } else if str_is(ts.as_str(), "transitiondata {") {
        } else if str_is(ts.as_str(), "{") || ends_with(t.as_slice(), &brace) {
            let is_open = str_is(ts.as_str(), "{");
            let name: String = if is_open {
                match pending.take() {
                    Some(n) => n,
                    None => String::new(),
                }
            } else {
                let mut e = t.len();
                assert(t@.take(e as int) =~= t@);
                while e > 0 && t[e - 1] == '{'
                    invariant
                        e <= t@.len(),
                        without_open_braces(t@) == without_open_braces(t@.take(e as int)),
                    decreases e,
                {
                    assert(t@.take(e as int).drop_last() =~= t@.take(e - 1));
                    e = e - 1;
                }
                assert(t@.take(t@.len() as int) =~= t@);
                let head = copy_range(t.as_slice(), 0, e);
                assert(head@ =~= t@.take(e as int));
                string_from_chars(trim(head.as_slice()).as_slice())
            };
            if name.as_str().is_empty() {
            } else if depth > 0 {
                gait = Some(new_gait(name));
                gait_depth = depth;
            } else {
                event = Some(name);
                trans = Some(new_transition());
            }
        } else if str_is(ts.as_str(), "}") {
            match gait.take() {
                Some(g) => {
                    if gait_depth == 1 {
                        let ghost b = gaits_model(c.forward_gaits@);
                        c.forward_gaits.push(g);
                        assert(gaits_model(c.forward_gaits@) =~= b.push(gait_model(g)));
                    } else {
                        let ghost b = gaits_model(c.strafe_gaits@);
                        c.strafe_gaits.push(g);
                        assert(gaits_model(c.strafe_gaits@) =~= b.push(gait_model(g)));
                    }
                },
                None => match trans.take() {
                    Some(tr) => match event.take() {
                        Some(e) => {
                            push_transition(&mut c.transitions, e, tr);
                        },
                        None => {},
                    },
                    None => {
                        if depth > 0 {
                            depth = depth - 1;
                        }
                    },
                },
            }
        } else {
            let parts = split_whitespace(t.as_slice());
            let ghost pv = parts@.map_values(|w: Vec<char>| w@);
            assert(pv =~= spec_words(t@));
            if parts.len() == 1 {
                assert(pv[0] == parts@[0]@);
                pending = Some(string_from_chars(parts[0].as_slice()));
            } else if parts.len() >= 2 {
                assert(pv[0] == parts@[0]@);
                assert(pv[1] == parts@[1]@);
                if depth > 0 && gait.is_some() {
                    match gait.as_mut() {
                        Some(g) => apply_gait_key(g, &parts[0], &parts[1]),
                        None => {},
                    }
                } else if trans.is_some() {
                    match trans.as_mut() {
                        Some(tr) => apply_trans_key(tr, &parts[0], &parts[1]),
                        None => {},
                    }
                }
            }
        }
        k = k + 1;
    }
    c
}

} // verus!
