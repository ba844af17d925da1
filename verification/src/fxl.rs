//! `.fxl` files: named bundles of fight effects.
//!
//! ```text
//! FX_LIST <name>
//! {
//!     FX { SFX    { AudioPackage "<package>" } }
//!     FX { FLASH  { <key> <values...> ... } }
//!     FX { STRIKE { <key> <values...> ... } }
//! }
//! ```
//!
//! The walk follows brace depth over the token lines and ignores the `FX`
//! wrappers: each `SFX`/`FLASH`/`STRIKE` block belongs to the enclosing
//! `FX_LIST`.  A block's properties (key and value tokens, a later key
//! replacing an earlier one) are collected and, when the block closes,
//! stored on the list's entry: the audio package of an `SFX` block, the
//! raw properties of a `FLASH` or `STRIKE` block.
use crate::registry::{assoc_get, assoc_insert, lemma_key_index, key_index};
use crate::effect::{effect_from, parse_effect, EffectDef};
use crate::settings::{
    block_model, children_model, line_value, line_views, props_model, spec_tokenize_lines,
    token_views, tokenize_lines, values_value, BlockModel, SettingsBlock, SettingsValue, ValueModel,
};
use crate::text::{chars_eq_ic, chars_of, eq_ic, string_from_chars, to_uppercase, trim_quote_chars, trim_quotes, uppercase};
use vstd::prelude::*;

verus! {

/// Properties of an effect block: each key with its value tokens.
#[derive(Debug, Clone)]
pub struct FxProps {
    pub entries: Vec<(String, Vec<String>)>,
}

pub open spec fn props_view(p: Seq<(String, Vec<String>)>) -> Seq<(Seq<char>, Seq<Seq<char>>)> {
    p.map_values(|e: (String, Vec<String>)| (e.0@, token_views(e.1@)))
}

/// One `FX_LIST`.
#[derive(Debug, Clone)]
pub struct FxlEntry {
    pub name: String,
    /// The first `AudioPackage` value of an `SFX` block, unquoted.
    pub sfx_audio_package: Option<String>,
    pub flash: Option<FxProps>,
    pub strike: Option<FxProps>,
}

/// Mathematical view of an [`FxlEntry`].
pub struct FxlEntryView {
    pub name: Seq<char>,
    pub sfx_audio_package: Option<Seq<char>>,
    pub flash: Option<Seq<(Seq<char>, Seq<Seq<char>>)>>,
    pub strike: Option<Seq<(Seq<char>, Seq<Seq<char>>)>>,
}

pub open spec fn opt_props(p: Option<FxProps>) -> Option<Seq<(Seq<char>, Seq<Seq<char>>)>> {
    match p {
        Some(x) => Some(props_view(x.entries@)),
        None => None,
    }
}

impl View for FxlEntry {
    type V = FxlEntryView;

    open spec fn view(&self) -> FxlEntryView {
        FxlEntryView {
            name: self.name@,
            sfx_audio_package: match self.sfx_audio_package {
                Some(s) => Some(s@),
                None => None,
            },
            flash: opt_props(self.flash),
            strike: opt_props(self.strike),
        }
    }
}

/// A closed effect block stored on its entry.
pub open spec fn finalize(e: FxlEntryView, typ: Seq<char>, props: Seq<(Seq<char>, Seq<Seq<char>>)>) -> FxlEntryView {
    if typ == "SFX"@ {
        match assoc_get(props, "AudioPackage"@) {
            Some(vals) => if vals.len() > 0 {
                FxlEntryView { sfx_audio_package: Some(trim_quotes(vals[0])), ..e }
            } else {
                e
            },
            None => e,
        }
    } else if typ == "FLASH"@ {
        FxlEntryView { flash: Some(props), ..e }
    } else if typ == "STRIKE"@ {
        FxlEntryView { strike: Some(props), ..e }
    } else {
        e
    }
}

/// The walk's state.
pub struct FxlState {
    pub entries: Seq<FxlEntryView>,
    pub depth: int,
    /// The open `FX_LIST` entry and the depth below which it closes.
    pub list: Option<int>,
    pub list_depth: int,
    /// The open effect block's type and the depth below which it closes.
    pub typ: Option<Seq<char>>,
    pub type_depth: int,
    pub props: Seq<(Seq<char>, Seq<Seq<char>>)>,
}

pub open spec fn is_effect_type(u: Seq<char>) -> bool {
    u == "SFX"@ || u == "FLASH"@ || u == "STRIKE"@
}

/// One token line of the walk.
pub open spec fn fxl_line(st: FxlState, line: Seq<Seq<char>>) -> FxlState {
    if line.len() == 0 {
        st
    } else if line.len() == 1 && line[0] == "{"@ {
        FxlState { depth: st.depth + 1, ..st }
    } else if line.len() == 1 && line[0] == "}"@ {
        let d = st.depth - 1;
        let closes_type = st.typ is Some && d < st.type_depth;
        let s1 = if closes_type {
            match st.list {
                Some(i) => if 0 <= i < st.entries.len() {
                    FxlState {
                        entries: st.entries.update(i, finalize(st.entries[i], st.typ->Some_0, st.props)),
                        props: Seq::empty(),
                        typ: None,
                        ..st
                    }
                } else {
                    FxlState { typ: None, ..st }
                },
                None => FxlState { typ: None, ..st },
            }
        } else {
            st
        };
        FxlState {
            depth: d,
            list: if s1.list is Some && d < s1.list_depth {
                None
            } else {
                s1.list
            },
            ..s1
        }
    } else if line.len() >= 2 && eq_ic(line[0], "FX_LIST"@) {
        FxlState {
            entries: st.entries.push(
                FxlEntryView { name: trim_quotes(line[1]), sfx_audio_package: None, flash: None, strike: None },
            ),
            list: Some(st.entries.len() as int),
            list_depth: st.depth + 1,
            ..st
        }
    } else if line.len() == 1 && st.list is Some && is_effect_type(uppercase(line[0])) {
        FxlState { typ: Some(uppercase(line[0])), type_depth: st.depth + 1, props: Seq::empty(), ..st }
    } else if st.typ is Some && line.len() >= 2 {
        FxlState { props: assoc_insert(st.props, line[0], line.subrange(1, line.len() as int)), ..st }
    } else {
        st
    }
}

pub open spec fn fxl_start() -> FxlState {
    FxlState {
        entries: Seq::empty(),
        depth: 0,
        list: None,
        list_depth: 0,
        typ: None,
        type_depth: 0,
        props: Seq::empty(),
    }
}

/// The walk after the first `k` token lines.
pub open spec fn fxl_walk(ls: Seq<Seq<Seq<char>>>, k: nat) -> FxlState
    decreases k,
{
    if k == 0 {
        fxl_start()
    } else {
        fxl_line(fxl_walk(ls, (k - 1) as nat), ls[k - 1])
    }
}

/// The entries of an `.fxl` text.
pub open spec fn spec_parse_fxl(content: Seq<char>) -> Seq<FxlEntryView> {
    let ls = spec_tokenize_lines(content);
    fxl_walk(ls, ls.len()).entries
}

// ---------------------------------------------------------------------
// Reading
// ---------------------------------------------------------------------

fn same_text(a: &str, b: &str) -> (r: bool)
    ensures
        r == (a@ == b@),
{
    let x = chars_of(a);
    let y = chars_of(b);
    crate::text::chars_eq(x.as_slice(), y.as_slice())
}

fn copy_tokens(v: &Vec<String>) -> (r: Vec<String>)
    ensures
        token_views(r@) == token_views(v@),
{
    let mut r: Vec<String> = Vec::new();
    let mut i: usize = 0;
    while i < v.len()
        invariant
            i <= v@.len(),
            token_views(r@) == token_views(v@).subrange(0, i as int),
        decreases v@.len() - i,
    {
        let ghost before = token_views(r@);
        r.push(v[i].clone());
        assert(token_views(r@) =~= before.push(v@[i as int]@));
        i = i + 1;
        assert(token_views(r@) =~= token_views(v@).subrange(0, i as int));
    }
    assert(token_views(r@) =~= token_views(v@));
    r
}

/// Sets `key` to `vals`, replacing an earlier value of the key.
fn props_insert(p: &mut Vec<(String, Vec<String>)>, key: String, vals: Vec<String>)
    ensures
        props_view(final(p)@) == assoc_insert(props_view(old(p)@), key@, token_views(vals@)),
{
    let ghost pv = props_view(p@);
    proof {
        lemma_key_index(pv, key@);
    }
    let mut i = p.len();
    while i > 0
        invariant
            i <= p@.len(),
            p@ == old(p)@,
            pv == props_view(p@),
            forall|j: int| i <= j < p@.len() ==> (#[trigger] pv[j]).0 != key@,
            key_index(pv, key@) < i,
            -1 <= key_index(pv, key@),
            key_index(pv, key@) >= 0 ==> pv[key_index(pv, key@)].0 == key@,
        decreases i,
    {
        if same_text(p[i - 1].0.as_str(), key.as_str()) {
            assert(pv[i - 1].0 == key@);
            proof {
                lemma_last_match(pv, key@, i - 1);
            }
            let ghost tv = token_views(vals@);
            let ghost kv = key@;
            assert(assoc_insert(pv, kv, tv) == pv.update(i - 1, (kv, tv)));
            p.set(i - 1, (key, vals));
            assert(props_view(p@) =~= pv.update(i - 1, (kv, tv)));
            return;
        }
        i = i - 1;
    }
    assert(key_index(pv, key@) == -1);
    let ghost kv = key@;
    let ghost tv = token_views(vals@);
    p.push((key, vals));
    assert(props_view(p@) =~= pv.push((kv, tv)));
}

/// The last index holding key `k` is not before one that does.
proof fn lemma_last_match(s: Seq<(Seq<char>, Seq<Seq<char>>)>, k: Seq<char>, m: int)
    requires
        0 <= m < s.len(),
        s[m].0 == k,
        forall|j: int| m < j < s.len() ==> (#[trigger] s[j]).0 != k,
    ensures
        key_index(s, k) == m,
    decreases s.len(),
{
    if m < s.len() - 1 {
        assert(s.drop_last()[m] == s[m]);
        assert forall|j: int| m < j < s.drop_last().len() implies (#[trigger] s.drop_last()[j]).0 != k by {
            assert(s.drop_last()[j] == s[j]);
        }
        lemma_last_match(s.drop_last(), k, m);
    }
}

fn props_get<'a>(p: &'a Vec<(String, Vec<String>)>, key: &str) -> (r: Option<&'a Vec<String>>)
    ensures
        match r {
            Some(v) => assoc_get(props_view(p@), key@) == Some(token_views(v@)),
            None => assoc_get(props_view(p@), key@) is None,
        },
{
    let ghost pv = props_view(p@);
    proof {
        lemma_key_index(pv, key@);
    }
    let mut i = p.len();
    while i > 0
        invariant
            i <= p@.len(),
            pv == props_view(p@),
            forall|j: int| i <= j < p@.len() ==> (#[trigger] pv[j]).0 != key@,
            key_index(pv, key@) < i,
            -1 <= key_index(pv, key@),
            key_index(pv, key@) >= 0 ==> pv[key_index(pv, key@)].0 == key@,
        decreases i,
    {
        if same_text(p[i - 1].0.as_str(), key) {
            assert(pv[i - 1].0 == key@);
            proof {
                lemma_last_match(pv, key@, i - 1);
            }
            return Some(&p[i - 1].1);
        }
        i = i - 1;
    }
    None
}

fn finalize_entry(e: FxlEntry, typ: &String, props: Vec<(String, Vec<String>)>) -> (r: FxlEntry)
    ensures
        r@ == finalize(e@, typ@, props_view(props@)),
{
    let mut e = e;
    if same_text(typ.as_str(), "SFX") {
        match props_get(&props, "AudioPackage") {
            Some(vals) => {
                if vals.len() > 0 {
                    let c = chars_of(vals[0].as_str());
                    let q = trim_quote_chars(c.as_slice());
                    e.sfx_audio_package = Some(string_from_chars(q.as_slice()));
                }
            },
            None => {},
        }
    } else if same_text(typ.as_str(), "FLASH") {
        e.flash = Some(FxProps { entries: props });
    } else if same_text(typ.as_str(), "STRIKE") {
        e.strike = Some(FxProps { entries: props });
    }
    e
}

pub open spec fn entry_views(es: Seq<FxlEntry>) -> Seq<FxlEntryView> {
    es.map_values(|e: FxlEntry| e@)
}

pub open spec fn opt_int(o: Option<usize>) -> Option<int> {
    match o {
        Some(i) => Some(i as int),
        None => None,
    }
}

pub open spec fn opt_text(o: Option<String>) -> Option<Seq<char>> {
    match o {
        Some(s) => Some(s@),
        None => None,
    }
}

/// Reads the `FX_LIST` entries of an `.fxl` text.
#[verifier::rlimit(60)]
pub fn parse_fxl_content(content: &str) -> (r: Vec<FxlEntry>)
    ensures
        entry_views(r@) == spec_parse_fxl(content@),
{
    let ls = tokenize_lines(content);
    let ghost lv = line_views(ls@);
    let mut entries: Vec<FxlEntry> = Vec::new();
    let mut depth: i128 = 0;
    let mut list: Option<usize> = None;
    let mut list_depth: i128 = 0;
    let mut typ: Option<String> = None;
    let mut type_depth: i128 = 0;
    let mut props: Vec<(String, Vec<String>)> = Vec::new();
    let mut i: usize = 0;
    proof {
        assert(entry_views(entries@) =~= Seq::<FxlEntryView>::empty());
        assert(props_view(props@) =~= Seq::<(Seq<char>, Seq<Seq<char>>)>::empty());
    }
    while i < ls.len()
        invariant
            i <= ls@.len(),
            lv == line_views(ls@),
            lv == spec_tokenize_lines(content@),
            -(i as int) <= depth <= i,
            -(i as int) <= list_depth <= i + 1,
            -(i as int) <= type_depth <= i + 1,
            list matches Some(x) ==> x < entries@.len(),
            fxl_walk(lv, i as nat) == (FxlState {
                entries: entry_views(entries@),
                depth: depth as int,
                list: opt_int(list),
                list_depth: list_depth as int,
                typ: opt_text(typ),
                type_depth: type_depth as int,
                props: props_view(props@),
            }),
        decreases ls@.len() - i,
    {
        let line = &ls[i];
        assert(lv[i as int] == token_views(line@));
        if line.len() == 0 {
        } else if line.len() == 1 && same_text(line[0].as_str(), "{") {
            depth = depth + 1;
        } else if line.len() == 1 && same_text(line[0].as_str(), "}") {
            let d = depth - 1;
            if typ.is_some() && d < type_depth {
                match list {
                    Some(idx) => {
                        let t = typ.unwrap();
                        let mut taken: Vec<(String, Vec<String>)> = Vec::new();
                        std::mem::swap(&mut taken, &mut props);
                        let ghost before = entry_views(entries@);
                        let e = entries.remove(idx);
                        let e2 = finalize_entry(e, &t, taken);
                        let ghost ev = e2@;
                        entries.insert(idx, e2);
                        assert(entry_views(entries@) =~= before.update(idx as int, ev));
                        assert(props_view(props@) =~= Seq::<(Seq<char>, Seq<Seq<char>>)>::empty());
                        typ = None;
                    },
                    None => {
                        typ = None;
                    },
                }
            }
            depth = d;
            if list.is_some() && d < list_depth {
                list = None;
            }
        } else if line.len() >= 2 && {
            let a = chars_of(line[0].as_str());
            let b = chars_of("FX_LIST");
            chars_eq_ic(a.as_slice(), b.as_slice())
        } {
            let c = chars_of(line[1].as_str());
            let q = trim_quote_chars(c.as_slice());
            let ghost before = entry_views(entries@);
            let ent = FxlEntry {
                name: string_from_chars(q.as_slice()),
                sfx_audio_package: None,
                flash: None,
                strike: None,
            };
            let ghost ev = ent@;
            entries.push(ent);
            assert(entry_views(entries@) =~= before.push(ev));
            list = Some(entries.len() - 1);
            list_depth = depth + 1;
        } else {
            let mut handled = false;
            if line.len() == 1 && list.is_some() {
                let up = to_uppercase(line[0].as_str());
                if same_text(up.as_str(), "SFX") || same_text(up.as_str(), "FLASH") || same_text(
                    up.as_str(),
                    "STRIKE",
                ) {
                    typ = Some(up);
                    type_depth = depth + 1;
                    props = Vec::new();
                    assert(props_view(props@) =~= Seq::<(Seq<char>, Seq<Seq<char>>)>::empty());
                    handled = true;
                }
            }
            if !handled && typ.is_some() && line.len() >= 2 {
                let key = line[0].clone();
                let mut vals: Vec<String> = Vec::new();
                let mut k: usize = 1;
                while k < line.len()
                    invariant
                        1 <= k <= line@.len(),
                        token_views(vals@) == token_views(line@).subrange(1, k as int),
                    decreases line@.len() - k,
                {
                    let ghost before = token_views(vals@);
                    vals.push(line[k].clone());
                    assert(token_views(vals@) =~= before.push(line@[k as int]@));
                    k = k + 1;
                    assert(token_views(vals@) =~= token_views(line@).subrange(1, k as int));
                }
                props_insert(&mut props, key, vals);
            }
        }
        i = i + 1;
    }
    entries
}

/// The block a set of properties stands for: each key's value read as on
/// a settings line, a later key replacing an earlier one.
pub open spec fn props_block(p: Seq<(Seq<char>, Seq<Seq<char>>)>) -> Map<Seq<char>, ValueModel>
    decreases p.len(),
{
    if p.len() == 0 {
        Map::empty()
    } else {
        props_block(p.drop_last()).insert(p[p.len() - 1].0, line_value(p[p.len() - 1].1))
    }
}

/// A settings block holding `props` (see [`props_block`]).
pub fn props_to_settings_block(props: &FxProps) -> (b: SettingsBlock)
    ensures
        block_model(b) == (BlockModel { props: props_block(props_view(props.entries@)), children: Seq::empty() }),
{
    let ghost pv = props_view(props.entries@);
    let mut properties: Vec<(String, SettingsValue)> = Vec::new();
    let mut i: usize = 0;
    while i < props.entries.len()
        invariant
            i <= props.entries@.len(),
            pv == props_view(props.entries@),
            props_model(properties@) == props_block(pv.take(i as int)),
        decreases props.entries@.len() - i,
    {
        let e = &props.entries[i];
        let v = values_value(&e.1);
        let entry = (e.0.clone(), v);
        let ghost before = properties@;
        properties.push(entry);
        assert(properties@.drop_last() =~= before);
        assert(pv.take(i + 1).drop_last() =~= pv.take(i as int));
        assert(pv.take(i + 1)[i as int] == pv[i as int]);
        assert(pv[i as int] == (e.0@, token_views(e.1@)));
        i = i + 1;
    }
    assert(pv.take(pv.len() as int) =~= pv);
    let b = SettingsBlock { properties, children: Vec::new() };
    assert(children_model(b.children@) =~= Seq::<BlockModel>::empty());
    b
}

/// The flash effect a `FLASH` block of the list `name` defines.
pub fn flash_effect(name: &str, props: &FxProps) -> (r: Option<EffectDef>)
    ensures
        effect_from(
            r,
            "FLASH"@,
            name@,
            (BlockModel { props: props_block(props_view(props.entries@)), children: Seq::empty() }),
        ),
{
    let b = props_to_settings_block(props);
    parse_effect("FLASH", name, &b)
}

} // verus!
