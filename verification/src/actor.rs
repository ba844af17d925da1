//! Actor XML files read across their template chain.
//!
//! An actor file names a base template, which may name its own; the chain
//! runs from the most basic file to the actor itself, optionally after the
//! master `components.xml`.  Template values are the base and each later
//! file overrides them.
//!
//! ```text
//! <actor base="Guard">
//!   <Creature name="Creature">
//!     <Player value="1"/>
//!     <Faction value="TCTF"/>
//!   </Creature>
//!   <EntityType value="kno"/>
//! </actor>
//! ```
//!
//! A component is declared by an opening tag `<Tag name="...">` and runs
//! to its `</Tag>`; a value is `<Key value="..."/>`, and within one text
//! the last such value counts.  Numbers stay the texts the files give.
use crate::actor_xml::find_from;
use crate::text::{chars_of, eq_ic, parse_i32, spec_parse_i32, spec_trim, string_from_chars};
use vstd::prelude::*;

verus! {

// ---------------------------------------------------------------------
// Text searches
// ---------------------------------------------------------------------

/// `p` occurs in `s` at `i`.
pub open spec fn occurs_at(s: Seq<char>, i: int, p: Seq<char>) -> bool {
    0 <= i && i + p.len() <= s.len() && s.subrange(i, i + p.len()) == p
}

/// First occurrence of `p` at or after `i`, or `s.len()`.
pub open spec fn first_occ(s: Seq<char>, p: Seq<char>, i: int) -> int
    decreases s.len() - i,
{
    if i < 0 || i >= s.len() {
        s.len() as int
    } else if occurs_at(s, i, p) {
        i
    } else {
        first_occ(s, p, i + 1)
    }
}

pub proof fn lemma_first_occ(s: Seq<char>, p: Seq<char>, i: int)
    requires
        0 <= i <= s.len(),
    ensures
        i <= first_occ(s, p, i) <= s.len(),
    decreases s.len() - i,
{
    if i < s.len() && !occurs_at(s, i, p) {
        lemma_first_occ(s, p, i + 1);
    }
}

/// `<key value="`.
pub open spec fn value_pattern(key: Seq<char>) -> Seq<char> {
    "<"@ + key + " value=\""@
}

/// The value of the element at `i` matching `p`: what follows the pattern
/// up to the next `"`, when both are there.
pub open spec fn value_at(s: Seq<char>, i: int, p: Seq<char>) -> Option<Seq<char>> {
    let a = i + p.len();
    let q = find_from(s, a, '"');
    if occurs_at(s, i, p) && q < s.len() {
        Some(s.subrange(a, q))
    } else {
        None
    }
}

/// The last value matching `p` at or after `i`.
pub open spec fn last_value_from(s: Seq<char>, p: Seq<char>, i: int) -> Option<Seq<char>>
    decreases s.len() - i,
{
    if i < 0 || i >= s.len() {
        None
    } else {
        match last_value_from(s, p, i + 1) {
            Some(v) => Some(v),
            None => value_at(s, i, p),
        }
    }
}

/// The last `<key value="..."/>` value of a text.
pub open spec fn last_value(s: Seq<char>, key: Seq<char>) -> Option<Seq<char>> {
    last_value_from(s, value_pattern(key), 0)
}

/// `<tag name="`.
pub open spec fn block_pattern(tag: Seq<char>) -> Seq<char> {
    "<"@ + tag + " name=\""@
}

/// `</tag>`.
pub open spec fn close_pattern(tag: Seq<char>) -> Seq<char> {
    "</"@ + tag + ">"@
}

/// The first declaration of component `tag` in a text, up to its closing
/// tag (or the end of the text).
pub open spec fn block_in(s: Seq<char>, tag: Seq<char>) -> Option<Seq<char>> {
    let b = first_occ(s, block_pattern(tag), 0);
    if b >= s.len() {
        None
    } else {
        let e = first_occ(s, close_pattern(tag), b);
        Some(s.subrange(b, if b <= e <= s.len() { e } else { s.len() as int }))
    }
}

fn matches_at(s: &Vec<char>, i: usize, p: &Vec<char>) -> (r: bool)
    ensures
        r == occurs_at(s@, i as int, p@),
{
    if i > s.len() || p.len() > s.len() - i {
        return false;
    }
    let n = s.len();
    let mut k: usize = 0;
    while k < p.len()
        invariant
            n == s@.len(),
            i + p@.len() <= s@.len(),
            k <= p@.len(),
            forall|j: int| 0 <= j < k ==> s@[i + j] == p@[j],
        decreases p.len() - k,
    {
        if s[i + k] != p[k] {
            assert(s@.subrange(i as int, i + p@.len())[k as int] != p@[k as int]);
            return false;
        }
        k = k + 1;
    }
    assert(s@.subrange(i as int, i + p@.len()) =~= p@);
    true
}

fn first_occ_exec(s: &Vec<char>, p: &Vec<char>, i: usize) -> (r: usize)
    requires
        i <= s@.len(),
    ensures
        r == first_occ(s@, p@, i as int),
        i <= r <= s@.len(),
{
    proof {
        lemma_first_occ(s@, p@, i as int);
    }
    let mut j = i;
    while j < s.len() && !matches_at(s, j, p)
        invariant
            i <= j <= s@.len(),
            first_occ(s@, p@, i as int) == first_occ(s@, p@, j as int),
        decreases s@.len() - j,
    {
        j = j + 1;
    }
    j
}

fn find_quote(s: &Vec<char>, i: usize) -> (r: usize)
    requires
        i <= s@.len(),
    ensures
        r == find_from(s@, i as int, '"'),
        i <= r <= s@.len(),
{
    let mut j = i;
    while j < s.len() && s[j] != '"'
        invariant
            i <= j <= s@.len(),
            find_from(s@, i as int, '"') == find_from(s@, j as int, '"'),
        decreases s@.len() - j,
    {
        j = j + 1;
    }
    j
}

fn pattern(open: &str, name: &str, tail: &str) -> (r: Vec<char>)
    ensures
        r@ == open@ + name@ + tail@,
{
    let mut v = chars_of(open);
    crate::text::push_str(&mut v, name);
    crate::text::push_str(&mut v, tail);
    v
}

/// The last `<key value="..."/>` value of `s`.
fn last_value_of(s: &Vec<char>, key: &str) -> (r: Option<Vec<char>>)
    ensures
        match r {
            Some(v) => last_value(s@, key@) == Some(v@),
            None => last_value(s@, key@) is None,
        },
{
    let p = pattern("<", key, " value=\"");
    assert(p@ == value_pattern(key@));
    let n = s.len();
    let mut i = s.len();
    while i > 0
        invariant
            n == s@.len(),
            i <= s@.len(),
            p@ == value_pattern(key@),
            last_value_from(s@, p@, i as int) is None,
        decreases i,
    {
        i = i - 1;
        if matches_at(s, i, &p) {
            let a = i + p.len();
            let q = find_quote(s, a);
            if q < s.len() {
                let v = crate::text::copy_range(s.as_slice(), a, q);
                assert(value_at(s@, i as int, p@) == Some(v@));
                proof {
                    lemma_last_value_none_below(s@, p@, i as int, 0);
                }
                return Some(v);
            }
        }
    }
    proof {
        assert(last_value_from(s@, p@, 0) is None);
    }
    None
}

/// Where nothing matches at or after `i`, the last value from any `k <= i`
/// is the one found between `k` and `i`.
proof fn lemma_last_value_none_below(s: Seq<char>, p: Seq<char>, i: int, k: int)
    requires
        0 <= k <= i < s.len(),
        last_value_from(s, p, i + 1) is None,
        value_at(s, i, p) is Some,
    ensures
        last_value_from(s, p, k) == value_at(s, i, p),
    decreases i - k,
{
    if k < i {
        lemma_last_value_none_below(s, p, i, k + 1);
    }
}

/// The first declaration of component `tag` in `s`.
fn block_of(s: &Vec<char>, tag: &str) -> (r: Option<Vec<char>>)
    ensures
        match r {
            Some(v) => block_in(s@, tag@) == Some(v@),
            None => block_in(s@, tag@) is None,
        },
{
    let bp = pattern("<", tag, " name=\"");
    assert(bp@ == block_pattern(tag@));
    let b = first_occ_exec(s, &bp, 0);
    if b >= s.len() {
        return None;
    }
    let cp = pattern("</", tag, ">");
    assert(cp@ == close_pattern(tag@));
    let e = first_occ_exec(s, &cp, b);
    Some(crate::text::copy_range(s.as_slice(), b, e))
}

// ---------------------------------------------------------------------
// Values across the chain
// ---------------------------------------------------------------------

/// Where a value is looked up in one file: in the declaration of a
/// component, or (`None`) anywhere in the file.
pub open spec fn source(f: Seq<char>, tag: Option<Seq<char>>) -> Option<Seq<char>> {
    match tag {
        Some(t) => block_in(f, t),
        None => Some(f),
    }
}

/// The value `key` has in one file.
pub open spec fn file_value(f: Seq<char>, tag: Option<Seq<char>>, key: Seq<char>) -> Option<Seq<char>> {
    match source(f, tag) {
        Some(b) => last_value(b, key),
        None => None,
    }
}

/// The value of `key` over the chain: that of the last file giving it.
pub open spec fn chain_value(files: Seq<Seq<char>>, tag: Option<Seq<char>>, key: Seq<char>) -> Option<Seq<char>>
    decreases files.len(),
{
    if files.len() == 0 {
        None
    } else {
        match file_value(files.last(), tag, key) {
            Some(v) => Some(v),
            None => chain_value(files.drop_last(), tag, key),
        }
    }
}

/// The values of `key` given anywhere in each file, in chain order.
pub open spec fn chain_values(files: Seq<Seq<char>>, key: Seq<char>) -> Seq<Seq<char>>
    decreases files.len(),
{
    if files.len() == 0 {
        Seq::empty()
    } else {
        let rest = chain_values(files.drop_last(), key);
        match last_value(files.last(), key) {
            Some(v) => rest.push(v),
            None => rest,
        }
    }
}

/// The entity type: the last file's `EntityType` that is not `none` (in
/// any case).
pub open spec fn chain_entity_type(files: Seq<Seq<char>>) -> Option<Seq<char>>
    decreases files.len(),
{
    if files.len() == 0 {
        None
    } else {
        match last_value(files.last(), "EntityType"@) {
            Some(v) => if !eq_ic(v, "none"@) {
                Some(v)
            } else {
                chain_entity_type(files.drop_last())
            },
            None => chain_entity_type(files.drop_last()),
        }
    }
}

/// Component `tag` is declared by one of the files from index `skip` on
/// (the master `components.xml`, when present, declares every component
/// without the actor asking for it).
pub open spec fn declared(files: Seq<Seq<char>>, skip: int, tag: Seq<char>) -> bool {
    exists|i: int| skip <= i < files.len() && (#[trigger] block_in(files[i], tag)) is Some
}

/// Template values are the base and a later file overrides them: adding a
/// file that gives `key` makes its value the chain's, and adding one that
/// does not leaves the chain's value as it was.
pub proof fn lemma_later_file_wins(files: Seq<Seq<char>>, f: Seq<char>, tag: Option<Seq<char>>, key: Seq<char>)
    ensures
        chain_value(files.push(f), tag, key) == match file_value(f, tag, key) {
            Some(v) => Some(v),
            None => chain_value(files, tag, key),
        },
{
    assert(files.push(f).drop_last() =~= files);
}

pub open spec fn files_view(files: Seq<String>) -> Seq<Seq<char>> {
    files.map_values(|f: String| f@)
}

fn to_chars(files: &Vec<String>) -> (r: Vec<Vec<char>>)
    ensures
        r@.map_values(|v: Vec<char>| v@) == files_view(files@),
{
    let mut out: Vec<Vec<char>> = Vec::new();
    let mut i: usize = 0;
    while i < files.len()
        invariant
            i <= files@.len(),
            out@.map_values(|v: Vec<char>| v@) == files_view(files@).take(i as int),
        decreases files.len() - i,
    {
        let ghost o = out@.map_values(|v: Vec<char>| v@);
        out.push(chars_of(files[i].as_str()));
        assert(out@.map_values(|v: Vec<char>| v@) =~= o.push(files@[i as int]@));
        assert(files_view(files@).take(i + 1) =~= files_view(files@).take(i as int).push(files@[i as int]@));
        i = i + 1;
    }
    assert(files_view(files@).take(files@.len() as int) =~= files_view(files@));
    out
}

pub open spec fn chars_view(fs: Seq<Vec<char>>) -> Seq<Seq<char>> {
    fs.map_values(|v: Vec<char>| v@)
}

fn file_value_of(f: &Vec<char>, tag: Option<&str>, key: &str) -> (r: Option<Vec<char>>)
    ensures
        match r {
            Some(v) => file_value(f@, match tag {
                Some(t) => Some(t@),
                None => None,
            }, key@) == Some(v@),
            None => file_value(f@, match tag {
                Some(t) => Some(t@),
                None => None,
            }, key@) is None,
        },
{
    match tag {
        Some(t) => match block_of(f, t) {
            Some(b) => last_value_of(&b, key),
            None => None,
        },
        None => last_value_of(f, key),
    }
}

/// The value of `key` over the chain (see [`chain_value`]).
fn chain_value_of(fs: &Vec<Vec<char>>, tag: Option<&str>, key: &str) -> (r: Option<String>)
    ensures
        match r {
            Some(v) => chain_value(chars_view(fs@), match tag {
                Some(t) => Some(t@),
                None => None,
            }, key@) == Some(v@),
            None => chain_value(chars_view(fs@), match tag {
                Some(t) => Some(t@),
                None => None,
            }, key@) is None,
        },
{
    let ghost tv = match tag {
        Some(t) => Some(t@),
        None => None,
    };
    let ghost all = chars_view(fs@);
    assert(all.take(all.len() as int) =~= all);
    let mut i = fs.len();
    while i > 0
        invariant
            i <= fs@.len(),
            all == chars_view(fs@),
            tv == match tag {
                Some(t) => Some(t@),
                None => None,
            },
            chain_value(all, tv, key@) == chain_value(all.take(i as int), tv, key@),
        decreases i,
    {
        i = i - 1;
        assert(all.take(i + 1).drop_last() =~= all.take(i as int));
        assert(all.take(i + 1).last() == fs@[i as int]@);
        let ghost t1 = all.take(i + 1);
        assert(chain_value(t1, tv, key@) == match file_value(t1.last(), tv, key@) {
            Some(v) => Some(v),
            None => chain_value(t1.drop_last(), tv, key@),
        });
        match file_value_of(&fs[i], tag, key) {
            Some(v) => {
                return Some(string_from_chars(v.as_slice()));
            },
            None => {},
        }
    }
    assert(all.take(0) =~= Seq::<Seq<char>>::empty());
    None
}

/// Whether a file from index `skip` on declares component `tag`.
fn declared_of(fs: &Vec<Vec<char>>, skip: usize, tag: &str) -> (r: bool)
    ensures
        r == declared(chars_view(fs@), skip as int, tag@),
{
    let ghost all = chars_view(fs@);
    let mut i = skip;
    while i < fs.len()
        invariant
            skip <= i,
            all == chars_view(fs@),
            forall|j: int| skip <= j < i && j < all.len() ==> (#[trigger] block_in(all[j], tag@)) is None,
        decreases fs.len() - i,
    {
        assert(all[i as int] == fs@[i as int]@);
        if block_of(&fs[i], tag).is_some() {
            assert(block_in(all[i as int], tag@) is Some);
            return true;
        }
        i = i + 1;
    }
    false
}

// ---------------------------------------------------------------------
// The actor
// ---------------------------------------------------------------------

/// An actor read across its template chain.
pub struct LayoutActorText {
    /// The last `EntityType` that is not `none`; `IconTrigger` without one.
    pub entity_type: String,
    /// The `Position` values of the files, in chain order: the last that
    /// reads as a vector places the actor.
    pub positions: Vec<String>,
    /// The `Orientation` values (Euler degrees), read like the positions.
    pub orientations: Vec<String>,
    pub parent_actor: Option<String>,
    pub parent_bone: Option<String>,
    /// `AnimatorType` of the `Animator` component.
    pub animator_type: Option<String>,
    /// `FighterType` of the `Fighter` component.
    pub fighter_type: Option<String>,
    /// It has a `Creature` component.
    pub is_creature: bool,
    /// Its creature's `Player` is `1`.
    pub is_player: bool,
    pub faction: Option<String>,
    pub curve_name: Option<String>,
    pub curve_fixed_orientation: bool,
    pub curve_look_xz: bool,
    pub curve_ping_pong: bool,
    /// A float text; `0.0` when not given or not a number.
    pub curve_speed: String,
    pub script_filename: Option<String>,
    pub script_main: Option<String>,
    /// Float texts; `None` when not given or not a number.
    pub broadcast_radius: Option<String>,
    pub has_fight_ai: bool,
    /// `AttackTable` (else `Table`) of the fight AI, when not empty.
    pub attack_table: Option<String>,
    pub checkpoint_index: Option<i32>,
    pub checkpoint_radius: Option<String>,
    pub max_hitpoints: Option<String>,
    pub destroy_time: Option<String>,
    /// The inventory's `WeaponString`, when not empty.
    pub weapon_string: Option<String>,
    /// The behaviour's `Pad_FSM`, trimmed and without a `.fsm`/`.FSM`
    /// ending, when not empty.
    pub pad_fsm: Option<String>,
    pub fx_type: Option<String>,
    /// `StartActive` of the `FX` component is `1`; on without one.
    pub fx_start_active: bool,
    pub ptx_name: Option<String>,
}

pub ghost struct ActorView {
    pub entity_type: Seq<char>,
    pub positions: Seq<Seq<char>>,
    pub orientations: Seq<Seq<char>>,
    pub parent_actor: Option<Seq<char>>,
    pub parent_bone: Option<Seq<char>>,
    pub animator_type: Option<Seq<char>>,
    pub fighter_type: Option<Seq<char>>,
    pub is_creature: bool,
    pub is_player: bool,
    pub faction: Option<Seq<char>>,
    pub curve_name: Option<Seq<char>>,
    pub curve_fixed_orientation: bool,
    pub curve_look_xz: bool,
    pub curve_ping_pong: bool,
    pub curve_speed: Seq<char>,
    pub script_filename: Option<Seq<char>>,
    pub script_main: Option<Seq<char>>,
    pub broadcast_radius: Option<Seq<char>>,
    pub has_fight_ai: bool,
    pub attack_table: Option<Seq<char>>,
    pub checkpoint_index: Option<i32>,
    pub checkpoint_radius: Option<Seq<char>>,
    pub max_hitpoints: Option<Seq<char>>,
    pub destroy_time: Option<Seq<char>>,
    pub weapon_string: Option<Seq<char>>,
    pub pad_fsm: Option<Seq<char>>,
    pub fx_type: Option<Seq<char>>,
    pub fx_start_active: bool,
    pub ptx_name: Option<Seq<char>>,
}

pub open spec fn ov(o: Option<String>) -> Option<Seq<char>> {
    match o {
        Some(s) => Some(s@),
        None => None,
    }
}

impl View for LayoutActorText {
    type V = ActorView;

    open spec fn view(&self) -> ActorView {
        ActorView {
            entity_type: self.entity_type@,
            positions: files_view(self.positions@),
            orientations: files_view(self.orientations@),
            parent_actor: ov(self.parent_actor),
            parent_bone: ov(self.parent_bone),
            animator_type: ov(self.animator_type),
            fighter_type: ov(self.fighter_type),
            is_creature: self.is_creature,
            is_player: self.is_player,
            faction: ov(self.faction),
            curve_name: ov(self.curve_name),
            curve_fixed_orientation: self.curve_fixed_orientation,
            curve_look_xz: self.curve_look_xz,
            curve_ping_pong: self.curve_ping_pong,
            curve_speed: self.curve_speed@,
            script_filename: ov(self.script_filename),
            script_main: ov(self.script_main),
            broadcast_radius: ov(self.broadcast_radius),
            has_fight_ai: self.has_fight_ai,
            attack_table: ov(self.attack_table),
            checkpoint_index: self.checkpoint_index,
            checkpoint_radius: ov(self.checkpoint_radius),
            max_hitpoints: ov(self.max_hitpoints),
            destroy_time: ov(self.destroy_time),
            weapon_string: ov(self.weapon_string),
            pad_fsm: ov(self.pad_fsm),
            fx_type: ov(self.fx_type),
            fx_start_active: self.fx_start_active,
            ptx_name: ov(self.ptx_name),
        }
    }
}

/// The value `key` of component `tag`, when the component is declared
/// (by a file from `skip` on); its value then comes from every file's
/// declaration, the master one included.
pub open spec fn comp(files: Seq<Seq<char>>, skip: int, tag: Seq<char>, key: Seq<char>) -> Option<Seq<char>> {
    if declared(files, skip, tag) {
        chain_value(files, Some(tag), key)
    } else {
        None
    }
}

/// The value is `1`.
pub open spec fn is_one(v: Option<Seq<char>>) -> bool {
    v == Some("1"@)
}

/// A value that reads as `f32`.
pub open spec fn float_val(v: Option<Seq<char>>) -> Option<Seq<char>> {
    crate::block_parser::as_float(v)
}

pub open spec fn non_empty(v: Option<Seq<char>>) -> Option<Seq<char>> {
    match v {
        Some(x) => if x.len() > 0 {
            Some(x)
        } else {
            None
        },
        None => None,
    }
}

/// A trimmed FSM name without its `.fsm` or `.FSM` ending.
pub open spec fn fsm_name(v: Seq<char>) -> Option<Seq<char>> {
    let t = spec_trim(v);
    if t.len() == 0 {
        None
    } else if crate::text::has_suffix(t, ".fsm"@) || crate::text::has_suffix(t, ".FSM"@) {
        Some(t.take(t.len() - 4))
    } else {
        Some(t)
    }
}

/// The fight AI component: `FightAI`, else `FightAi`.
pub open spec fn fight_tag(files: Seq<Seq<char>>, skip: int) -> Seq<char> {
    if declared(files, skip, "FightAI"@) {
        "FightAI"@
    } else {
        "FightAi"@
    }
}

/// The actor of a chain of file texts, from the most basic to the actor
/// itself, after the master `components.xml` when `has_components_xml`.
pub open spec fn spec_actor_from_chain(files: Seq<Seq<char>>, has_components_xml: bool) -> Option<ActorView> {
    let skip: int = if has_components_xml { 1 } else { 0 };
    if files.len() <= skip {
        None
    } else {
        let ft = fight_tag(files, skip);
        let fsm = comp(files, skip, "Behavior"@, "Pad_FSM"@);
        Some(
            ActorView {
                entity_type: match chain_entity_type(files) {
                    Some(t) => t,
                    None => "IconTrigger"@,
                },
                positions: chain_values(files, "Position"@),
                orientations: chain_values(files, "Orientation"@),
                parent_actor: chain_value(files, None, "ParentActor"@),
                parent_bone: chain_value(files, None, "ParentBone"@),
                animator_type: comp(files, skip, "Animator"@, "AnimatorType"@),
                fighter_type: comp(files, skip, "Fighter"@, "FighterType"@),
                is_creature: declared(files, skip, "Creature"@),
                is_player: is_one(comp(files, skip, "Creature"@, "Player"@)),
                faction: comp(files, skip, "Creature"@, "Faction"@),
                curve_name: comp(files, skip, "Curve"@, "CurveName"@),
                curve_fixed_orientation: is_one(comp(files, skip, "Curve"@, "FixedOrientation"@)),
                curve_look_xz: is_one(comp(files, skip, "Curve"@, "LookAlongXZPlane"@)),
                curve_ping_pong: is_one(comp(files, skip, "Curve"@, "PingPong"@)),
                curve_speed: match float_val(comp(files, skip, "Curve"@, "Speed"@)) {
                    Some(v) => v,
                    None => "0.0"@,
                },
                script_filename: comp(files, skip, "ScrOni"@, "Filename"@),
                script_main: comp(files, skip, "ScrOni"@, "MainScript"@),
                broadcast_radius: float_val(comp(files, skip, "BroadcastTrigger"@, "Radius"@)),
                has_fight_ai: declared(files, skip, "FightAI"@) || declared(files, skip, "FightAi"@),
                attack_table: non_empty(
                    match comp(files, skip, ft, "AttackTable"@) {
                        Some(v) => Some(v),
                        None => comp(files, skip, ft, "Table"@),
                    },
                ),
                checkpoint_index: match comp(files, skip, "CheckpointTrigger"@, "CheckpointIndex"@) {
                    Some(v) => spec_parse_i32(v),
                    None => None,
                },
                checkpoint_radius: float_val(comp(files, skip, "CheckpointTrigger"@, "Radius"@)),
                max_hitpoints: float_val(comp(files, skip, "Health"@, "MaxHitPoints"@)),
                destroy_time: float_val(comp(files, skip, "Health"@, "DestroyTime"@)),
                weapon_string: non_empty(comp(files, skip, "Inventory"@, "WeaponString"@)),
                pad_fsm: match fsm {
                    Some(v) => fsm_name(v),
                    None => None,
                },
                fx_type: comp(files, skip, "FX"@, "FXType"@),
                fx_start_active: match comp(files, skip, "FX"@, "StartActive"@) {
                    Some(v) => v == "1"@,
                    None => true,
                },
                ptx_name: comp(files, skip, "FX"@, "ParticlesType"@),
            },
        )
    }
}

fn comp_of(fs: &Vec<Vec<char>>, skip: usize, tag: &str, key: &str) -> (r: Option<String>)
    ensures
        ov(r) == comp(chars_view(fs@), skip as int, tag@, key@),
{
    if declared_of(fs, skip, tag) {
        chain_value_of(fs, Some(tag), key)
    } else {
        None
    }
}

fn is_one_of(v: &Option<String>) -> (r: bool)
    ensures
        r == is_one(ov(*v)),
{
    match v {
        Some(s) => crate::text::str_is(s.as_str(), "1"),
        None => false,
    }
}

fn float_val_of(v: Option<String>) -> (r: Option<String>)
    ensures
        ov(r) == float_val(ov(v)),
{
    match v {
        Some(s) => {
            let c = chars_of(s.as_str());
            if crate::text::float_text(c.as_slice()) {
                Some(s)
            } else {
                None
            }
        },
        None => None,
    }
}

fn non_empty_of(v: Option<String>) -> (r: Option<String>)
    ensures
        ov(r) == non_empty(ov(v)),
{
    match v {
        Some(s) => {
            let c = chars_of(s.as_str());
            if c.len() > 0 {
                Some(s)
            } else {
                None
            }
        },
        None => None,
    }
}

fn fsm_name_of(v: &String) -> (r: Option<String>)
    ensures
        ov(r) == fsm_name(v@),
{
    let c = chars_of(v.as_str());
    let t = crate::text::trim(c.as_slice());
    if t.len() == 0 {
        return None;
    }
    let lo = chars_of(".fsm");
    let hi = chars_of(".FSM");
    proof {
        reveal_strlit(".fsm");
        reveal_strlit(".FSM");
    }
    if crate::text::ends_with(t.as_slice(), lo.as_slice()) || crate::text::ends_with(
        t.as_slice(),
        hi.as_slice(),
    ) {
        let s = crate::text::copy_range(t.as_slice(), 0, t.len() - 4);
        assert(s@ =~= t@.take(t@.len() - 4));
        Some(string_from_chars(s.as_slice()))
    } else {
        Some(string_from_chars(t.as_slice()))
    }
}

/// The values of `key` given anywhere in each file, in chain order.
fn chain_values_of(fs: &Vec<Vec<char>>, key: &str) -> (r: Vec<String>)
    ensures
        files_view(r@) == chain_values(chars_view(fs@), key@),
{
    let ghost all = chars_view(fs@);
    let mut out: Vec<String> = Vec::new();
    let mut i: usize = 0;
    assert(all.take(0) =~= Seq::<Seq<char>>::empty());
    while i < fs.len()
        invariant
            i <= fs@.len(),
            all == chars_view(fs@),
            files_view(out@) == chain_values(all.take(i as int), key@),
        decreases fs.len() - i,
    {
        let ghost t1 = all.take(i + 1);
        assert(t1.drop_last() =~= all.take(i as int));
        assert(t1.last() == fs@[i as int]@);
        let ghost o = files_view(out@);
        match last_value_of(&fs[i], key) {
            Some(v) => {
                out.push(string_from_chars(v.as_slice()));
                assert(files_view(out@) =~= o.push(v@));
            },
            None => {},
        }
        i = i + 1;
    }
    assert(all.take(all.len() as int) =~= all);
    out
}

/// The entity type over the chain (see [`chain_entity_type`]).
fn chain_entity_type_of(fs: &Vec<Vec<char>>) -> (r: Option<String>)
    ensures
        ov(r) == chain_entity_type(chars_view(fs@)),
{
    let ghost all = chars_view(fs@);
    assert(all.take(all.len() as int) =~= all);
    let mut i = fs.len();
    while i > 0
        invariant
            i <= fs@.len(),
            all == chars_view(fs@),
            chain_entity_type(all) == chain_entity_type(all.take(i as int)),
        decreases i,
    {
        i = i - 1;
        let ghost t1 = all.take(i + 1);
        assert(t1.drop_last() =~= all.take(i as int));
        assert(t1.last() == fs@[i as int]@);
        match last_value_of(&fs[i], "EntityType") {
            Some(v) => {
                if !crate::text::chars_eq_ic(v.as_slice(), chars_of("none").as_slice()) {
                    return Some(string_from_chars(v.as_slice()));
                }
            },
            None => {},
        }
    }
    assert(all.take(0) =~= Seq::<Seq<char>>::empty());
    None
}

/// Reads an actor from the texts of its template chain, from the most
/// basic file to the actor itself, after the master `components.xml`
/// when `has_components_xml`; `None` when the chain holds no actor file.
pub fn actor_from_chain(chain: &Vec<String>, has_components_xml: bool) -> (r: Option<LayoutActorText>)
    ensures
        match r {
            Some(a) => spec_actor_from_chain(files_view(chain@), has_components_xml) == Some(a@),
            None => spec_actor_from_chain(files_view(chain@), has_components_xml) is None,
        },
{
    let skip: usize = if has_components_xml {
        1
    } else {
        0
    };
    if chain.len() <= skip {
        return None;
    }
    let fs = to_chars(chain);
    let ghost files = files_view(chain@);
    assert(chars_view(fs@) == files);
    let entity_type = match chain_entity_type_of(&fs) {
        Some(t) => t,
        None => "IconTrigger".to_string(),
    };
    let fight_tag = if declared_of(&fs, skip, "FightAI") {
        "FightAI"
    } else {
        "FightAi"
    };
    let attack = match comp_of(&fs, skip, fight_tag, "AttackTable") {
        Some(v) => Some(v),
        None => comp_of(&fs, skip, fight_tag, "Table"),
    };
    let checkpoint_index = match comp_of(&fs, skip, "CheckpointTrigger", "CheckpointIndex") {
        Some(v) => parse_i32(chars_of(v.as_str()).as_slice()),
        None => None,
    };
    let pad_fsm = match comp_of(&fs, skip, "Behavior", "Pad_FSM") {
        Some(v) => fsm_name_of(&v),
        None => None,
    };
    let fx_start_active = match comp_of(&fs, skip, "FX", "StartActive") {
        Some(v) => crate::text::str_is(v.as_str(), "1"),
        None => true,
    };
    let curve_speed = match float_val_of(comp_of(&fs, skip, "Curve", "Speed")) {
        Some(v) => v,
        None => "0.0".to_string(),
    };
    let a = LayoutActorText {
        entity_type,
        positions: chain_values_of(&fs, "Position"),
        orientations: chain_values_of(&fs, "Orientation"),
        parent_actor: chain_value_of(&fs, None, "ParentActor"),
        parent_bone: chain_value_of(&fs, None, "ParentBone"),
        animator_type: comp_of(&fs, skip, "Animator", "AnimatorType"),
        fighter_type: comp_of(&fs, skip, "Fighter", "FighterType"),
        is_creature: declared_of(&fs, skip, "Creature"),
        is_player: is_one_of(&comp_of(&fs, skip, "Creature", "Player")),
        faction: comp_of(&fs, skip, "Creature", "Faction"),
        curve_name: comp_of(&fs, skip, "Curve", "CurveName"),
        curve_fixed_orientation: is_one_of(&comp_of(&fs, skip, "Curve", "FixedOrientation")),
        curve_look_xz: is_one_of(&comp_of(&fs, skip, "Curve", "LookAlongXZPlane")),
        curve_ping_pong: is_one_of(&comp_of(&fs, skip, "Curve", "PingPong")),
        curve_speed,
        script_filename: comp_of(&fs, skip, "ScrOni", "Filename"),
        script_main: comp_of(&fs, skip, "ScrOni", "MainScript"),
        broadcast_radius: float_val_of(comp_of(&fs, skip, "BroadcastTrigger", "Radius")),
        has_fight_ai: declared_of(&fs, skip, "FightAI") || declared_of(&fs, skip, "FightAi"),
        attack_table: non_empty_of(attack),
        checkpoint_index,
        checkpoint_radius: float_val_of(comp_of(&fs, skip, "CheckpointTrigger", "Radius")),
        max_hitpoints: float_val_of(comp_of(&fs, skip, "Health", "MaxHitPoints")),
        destroy_time: float_val_of(comp_of(&fs, skip, "Health", "DestroyTime")),
        weapon_string: non_empty_of(comp_of(&fs, skip, "Inventory", "WeaponString")),
        pad_fsm,
        fx_type: comp_of(&fs, skip, "FX", "FXType"),
        fx_start_active,
        ptx_name: comp_of(&fs, skip, "FX", "ParticlesType"),
    };
    Some(a)
}

/// The template an actor file builds on: its first `base="..."`
/// attribute, when the value is closed.
pub open spec fn spec_base_template(s: Seq<char>) -> Option<Seq<char>> {
    let p = "base=\""@;
    let i = first_occ(s, p, 0);
    if i >= s.len() {
        None
    } else {
        let a = i + p.len();
        let q = find_from(s, a, '"');
        if q < s.len() {
            Some(s.subrange(a, q))
        } else {
            None
        }
    }
}

/// The template named by an actor file (see [`spec_base_template`]).
pub fn base_template(content: &str) -> (r: Option<String>)
    ensures
        ov(r) == spec_base_template(content@),
{
    let s = chars_of(content);
    let p = chars_of("base=\"");
    proof {
        reveal_strlit("base=\"");
    }
    let i = first_occ_exec(&s, &p, 0);
    if i >= s.len() {
        return None;
    }
    proof {
        assert(occurs_at(s@, i as int, p@)) by {
            lemma_first_occ_found(s@, p@, 0, i as int);
        }
    }
    let a = i + p.len();
    let q = find_quote(&s, a);
    if q < s.len() {
        let v = crate::text::copy_range(s.as_slice(), a, q);
        Some(string_from_chars(v.as_slice()))
    } else {
        None
    }
}

proof fn lemma_first_occ_found(s: Seq<char>, p: Seq<char>, i: int, r: int)
    requires
        0 <= i <= s.len(),
        r == first_occ(s, p, i),
        r < s.len(),
    ensures
        occurs_at(s, r, p),
    decreases s.len() - i,
{
    if i < s.len() && !occurs_at(s, i, p) {
        lemma_first_occ_found(s, p, i + 1, r);
    }
}

} // verus!
