//! Actor weapon mounts: where each weapon type sits on an actor when out
//! and when put away.
//!
//! ```text
//! NUMWEAPONS 1
//! {
//!     "Pistol" {
//!         out  { parentbone 11 gripoffset 0 0.1 0 gripeulers 0 1.57 0 }
//!         away { parentbone 3 }
//!     }
//! }
//! ```
//!
//! Keys match case-insensitively; a mount no key set keeps its type's
//! defaults (`None`).  Offsets and Euler angles stay the file's texts in
//! its left-handed frame; the bone stays the written integer.  Mounts are
//! registered under the weapon type's lower-cased name.
use crate::block_parser::{
    advance, sp_endblock, sp_read_floats_opt, sp_read_i32_opt, sp_start_anonymous, tok_at,
    BlockParser,
};
use crate::expl::{vec3_view, zero3};
use crate::registry::{assoc_insert, lemma_insert_map, map_entries, NameTable};
use crate::text::{lowercase, str_is, to_lowercase, trim_quote_chars, trim_quotes};
use crate::tokenizer::spec_tokens;
use vstd::prelude::*;

verus! {

/// Where a weapon sits in one state.
pub struct WeaponMount {
    pub parent_bone: Option<i32>,
    pub offset: Option<[String; 3]>,
    pub rot: Option<[String; 3]>,
}

/// A weapon's mounts when out and when put away.
pub struct MountPair {
    pub out: WeaponMount,
    pub away: WeaponMount,
}

pub ghost struct MountView {
    pub parent_bone: Option<i32>,
    pub offset: Option<Seq<Seq<char>>>,
    pub rot: Option<Seq<Seq<char>>>,
}

pub open spec fn opt_vec(o: Option<[String; 3]>) -> Option<Seq<Seq<char>>> {
    match o {
        Some(v) => Some(vec3_view(v)),
        None => None,
    }
}

pub open spec fn mount_view(m: WeaponMount) -> MountView {
    MountView { parent_bone: m.parent_bone, offset: opt_vec(m.offset), rot: opt_vec(m.rot) }
}

pub open spec fn pair_view(p: MountPair) -> (MountView, MountView) {
    (mount_view(p.out), mount_view(p.away))
}

pub open spec fn mount_init() -> MountView {
    MountView { parent_bone: None, offset: None, rot: None }
}

pub open spec fn or_zero3(v: Option<Seq<Seq<char>>>) -> Seq<Seq<char>> {
    match v {
        Some(x) => x,
        None => zero3(),
    }
}

/// The keys of a mount block from `p` applied to `m`, up to its `}`.
pub open spec fn mount_body(ts: Seq<Seq<char>>, p: int, m: MountView) -> (MountView, int)
    decreases ts.len() - p,
    via mount_body_decreases
{
    let (end, q) = sp_endblock(ts, p);
    if end || p < 0 {
        (m, q)
    } else {
        let tok = ts[p];
        let key = lowercase(tok);
        if key == "parentbone"@ {
            let (v, q2) = sp_read_i32_opt(ts, p, tok);
            mount_body(
                ts,
                q2,
                MountView {
                    parent_bone: Some(
                        match v {
                            Some(x) => x,
                            None => 0,
                        },
                    ),
                    ..m
                },
            )
        } else if key == "gripoffset"@ {
            let (v, q2) = sp_read_floats_opt(ts, p, tok, 3);
            mount_body(ts, q2, MountView { offset: Some(or_zero3(v)), ..m })
        } else if key == "gripeulers"@ {
            let (v, q2) = sp_read_floats_opt(ts, p, tok, 3);
            mount_body(ts, q2, MountView { rot: Some(or_zero3(v)), ..m })
        } else {
            mount_body(ts, p + 1, m)
        }
    }
}

proof fn lemma_reads_advance(ts: Seq<Seq<char>>, p: int)
    requires
        0 <= p < ts.len(),
    ensures
        p < sp_read_i32_opt(ts, p, ts[p]).1 <= ts.len(),
        p < sp_read_floats_opt(ts, p, ts[p], 3).1 <= ts.len(),
{
}

#[via_fn]
proof fn mount_body_decreases(ts: Seq<Seq<char>>, p: int, m: MountView) {
    let (end, q) = sp_endblock(ts, p);
    if !(end || p < 0) {
        lemma_reads_advance(ts, p);
    }
}

pub proof fn lemma_mount_body(ts: Seq<Seq<char>>, p: int, m: MountView)
    requires
        0 <= p <= ts.len(),
    ensures
        p <= mount_body(ts, p, m).1 <= ts.len(),
    decreases ts.len() - p,
{
    let (end, q) = sp_endblock(ts, p);
    if !(end || p < 0) {
        lemma_reads_advance(ts, p);
        let tok = ts[p];
        let key = lowercase(tok);
        if key == "parentbone"@ {
            let (v, q2) = sp_read_i32_opt(ts, p, tok);
            lemma_mount_body(
                ts,
                q2,
                MountView {
                    parent_bone: Some(
                        match v {
                            Some(x) => x,
                            None => 0,
                        },
                    ),
                    ..m
                },
            );
        } else if key == "gripoffset"@ {
            let (v, q2) = sp_read_floats_opt(ts, p, tok, 3);
            lemma_mount_body(ts, q2, MountView { offset: Some(or_zero3(v)), ..m });
        } else if key == "gripeulers"@ {
            let (v, q2) = sp_read_floats_opt(ts, p, tok, 3);
            lemma_mount_body(ts, q2, MountView { rot: Some(or_zero3(v)), ..m });
        } else {
            lemma_mount_body(ts, p + 1, m);
        }
    }
}

/// An `out` or `away` key at `p`: the key is consumed and, when a `{`
/// follows, the block updates `m`.
pub open spec fn mount_block(ts: Seq<Seq<char>>, p: int, m: MountView) -> (MountView, int) {
    let (anon, q) = sp_start_anonymous(ts, p + 1);
    if anon {
        mount_body(ts, q, m)
    } else {
        (m, q)
    }
}

/// A weapon's block from `p`: `out` and `away` mount blocks, other tokens
/// skipped, up to its `}`.
pub open spec fn weapon_mounts(ts: Seq<Seq<char>>, p: int, out: MountView, away: MountView) -> (
    MountView,
    MountView,
    int,
)
    decreases ts.len() - p,
    via weapon_mounts_decreases
{
    let (end, q) = sp_endblock(ts, p);
    if end || p < 0 {
        (out, away, q)
    } else {
        let key = lowercase(ts[p]);
        if key == "out"@ {
            let (m, r) = mount_block(ts, p, out);
            weapon_mounts(ts, r, m, away)
        } else if key == "away"@ {
            let (m, r) = mount_block(ts, p, away);
            weapon_mounts(ts, r, out, m)
        } else {
            weapon_mounts(ts, p + 1, out, away)
        }
    }
}

#[via_fn]
proof fn weapon_mounts_decreases(ts: Seq<Seq<char>>, p: int, out: MountView, away: MountView) {
    let (end, q) = sp_endblock(ts, p);
    if !(end || p < 0) {
        let key = lowercase(ts[p]);
        let (anon, q) = sp_start_anonymous(ts, p + 1);
        if key == "out"@ && anon {
            lemma_mount_body(ts, q, out);
        } else if key == "away"@ && anon {
            lemma_mount_body(ts, q, away);
        }
    }
}

pub proof fn lemma_weapon_mounts(ts: Seq<Seq<char>>, p: int, out: MountView, away: MountView)
    requires
        0 <= p <= ts.len(),
    ensures
        p <= weapon_mounts(ts, p, out, away).2 <= ts.len(),
    decreases ts.len() - p,
{
    let (end, q) = sp_endblock(ts, p);
    if !(end || p < 0) {
        let key = lowercase(ts[p]);
        let (anon, q1) = sp_start_anonymous(ts, p + 1);
        if key == "out"@ {
            if anon {
                lemma_mount_body(ts, q1, out);
            }
            let (m, r) = mount_block(ts, p, out);
            lemma_weapon_mounts(ts, r, m, away);
        } else if key == "away"@ {
            if anon {
                lemma_mount_body(ts, q1, away);
            }
            let (m, r) = mount_block(ts, p, away);
            lemma_weapon_mounts(ts, r, out, m);
        } else {
            lemma_weapon_mounts(ts, p + 1, out, away);
        }
    }
}

/// The mounts of the weapons from `p`: each token names a weapon type
/// (quotes removed) whose `{` block gives its mounts; a name without a
/// block is skipped.
pub open spec fn mounts_scan(ts: Seq<Seq<char>>, p: int, t: Seq<(Seq<char>, (MountView, MountView))>) -> Seq<
    (Seq<char>, (MountView, MountView)),
>
    decreases ts.len() - p,
    via mounts_scan_decreases
{
    let (end, q) = sp_endblock(ts, p);
    if end || p < 0 {
        t
    } else {
        let name = trim_quotes(ts[p]);
        let (anon, q2) = sp_start_anonymous(ts, p + 1);
        if anon {
            let (o, a, r) = weapon_mounts(ts, q2, mount_init(), mount_init());
            mounts_scan(ts, r, assoc_insert(t, lowercase(name), (o, a)))
        } else {
            mounts_scan(ts, q2, t)
        }
    }
}

#[via_fn]
proof fn mounts_scan_decreases(ts: Seq<Seq<char>>, p: int, t: Seq<(Seq<char>, (MountView, MountView))>) {
    let (end, q) = sp_endblock(ts, p);
    if !(end || p < 0) {
        let (anon, q2) = sp_start_anonymous(ts, p + 1);
        if anon {
            lemma_weapon_mounts(ts, q2, mount_init(), mount_init());
        }
    }
}

/// The mounts of an actor's weapon file: after an optional `NUMWEAPONS n`,
/// the weapons' block (none without one).
pub open spec fn spec_parse_actor_weap(content: Seq<char>) -> Seq<(Seq<char>, (MountView, MountView))> {
    let ts = spec_tokens(content);
    let p0 = if tok_at(ts, 0) == Some("NUMWEAPONS"@) {
        advance(ts, advance(ts, 0))
    } else {
        0
    };
    let (anon, q) = sp_start_anonymous(ts, p0);
    if anon {
        mounts_scan(ts, q, Seq::empty())
    } else {
        Seq::empty()
    }
}

pub open spec fn mounts_view(t: NameTable<MountPair>) -> Seq<(Seq<char>, (MountView, MountView))> {
    map_entries(t.entries(), |m: MountPair| pair_view(m))
}

// ---------------------------------------------------------------------
// Reading
// ---------------------------------------------------------------------

fn zero_vec3() -> (r: [String; 3])
    ensures
        vec3_view(r) == zero3(),
{
    proof {
        reveal_strlit("0");
        assert("0"@ =~= seq!['0']);
    }
    let r = ["0".to_owned(), "0".to_owned(), "0".to_owned()];
    assert(vec3_view(r) =~= zero3());
    r
}

fn read_vec3_or_zero(p: &mut BlockParser, key: &str) -> (r: [String; 3])
    ensures
        final(p).tokens() == old(p).tokens(),
        ({
            let (v, q) = sp_read_floats_opt(old(p).tokens(), old(p).position(), key@, 3);
            &&& final(p).position() == q
            &&& vec3_view(r) == or_zero3(v)
        }),
{
    let ghost ts = p.tokens();
    let ghost p0 = p.position();
    let z = zero_vec3();
    let r = p.read_vec3(key, z);
    proof {
        let (v, q) = sp_read_floats_opt(ts, p0, key@, 3);
        if let Some(ys) = v {
            assert(vec3_view(r) =~= ys);
        }
    }
    r
}

fn read_mount_body(p: &mut BlockParser, m: &mut WeaponMount)
    requires
        0 <= old(p).position() <= old(p).tokens().len(),
    ensures
        final(p).tokens() == old(p).tokens(),
        (mount_view(*final(m)), final(p).position()) == mount_body(
            old(p).tokens(),
            old(p).position(),
            mount_view(*old(m)),
        ),
    decreases old(p).tokens().len() - old(p).position(),
{
    let ghost ts = p.tokens();
    let ghost p0 = p.position();
    let ghost m0 = mount_view(*m);
    if p.endblock() {
        return;
    }
    let a_key: String = match p.peek() {
        Some(t) => t.to_owned(),
        None => String::new(),
    };
    proof {
        lemma_reads_advance(ts, p0);
    }
    let key = to_lowercase(a_key.as_str());
    if str_is(key.as_str(), "parentbone") {
        m.parent_bone = Some(p.read_i32(a_key.as_str(), 0));
    } else if str_is(key.as_str(), "gripoffset") {
        m.offset = Some(read_vec3_or_zero(p, a_key.as_str()));
    } else if str_is(key.as_str(), "gripeulers") {
        m.rot = Some(read_vec3_or_zero(p, a_key.as_str()));
    } else {
        p.next();
    }
    let ghost q = p.position();
    let ghost d = mount_view(*m);
    assert(mount_body(ts, p0, m0) == mount_body(ts, q, d));
    read_mount_body(p, m);
}

fn read_weapon_mounts(p: &mut BlockParser, pair: &mut MountPair)
    requires
        0 <= old(p).position() <= old(p).tokens().len(),
    ensures
        final(p).tokens() == old(p).tokens(),
        ({
            let (o, a, q) = weapon_mounts(
                old(p).tokens(),
                old(p).position(),
                mount_view(old(pair).out),
                mount_view(old(pair).away),
            );
            &&& pair_view(*final(pair)) == (o, a)
            &&& final(p).position() == q
        }),
    decreases old(p).tokens().len() - old(p).position(),
{
    let ghost ts = p.tokens();
    let ghost p0 = p.position();
    let ghost o0 = mount_view(pair.out);
    let ghost a0 = mount_view(pair.away);
    if p.endblock() {
        return;
    }
    let a_key: String = match p.peek() {
        Some(t) => t.to_owned(),
        None => String::new(),
    };
    let key = to_lowercase(a_key.as_str());
    let is_out = str_is(key.as_str(), "out");
    let is_away = str_is(key.as_str(), "away");
    if is_out || is_away {
        p.next();
        let ghost q1 = p.position();
        if p.start_anonymous() {
            let ghost q = p.position();
            if is_out {
                proof {
                    lemma_mount_body(ts, q, o0);
                }
                read_mount_body(p, &mut pair.out);
            } else {
                proof {
                    lemma_mount_body(ts, q, a0);
                }
                read_mount_body(p, &mut pair.away);
            }
        }
    } else {
        p.next();
    }
    let ghost r = p.position();
    assert(weapon_mounts(ts, p0, o0, a0) == weapon_mounts(
        ts,
        r,
        mount_view(pair.out),
        mount_view(pair.away),
    ));
    read_weapon_mounts(p, pair);
}

/// Parses an actor's weapon file into its mounts per weapon type.
pub fn parse_actor_weap(content: &str) -> (r: NameTable<MountPair>)
    ensures
        mounts_view(r) == spec_parse_actor_weap(content@),
{
    let mut table: NameTable<MountPair> = NameTable::new();
    let mut p = BlockParser::new(content);
    let ghost ts = p.tokens();
    assert(mounts_view(table) =~= Seq::<(Seq<char>, (MountView, MountView))>::empty());
    let is_num = match p.peek() {
        Some(t) => str_is(t, "NUMWEAPONS"),
        None => false,
    };
    if is_num {
        p.next();
        p.next();
    }
    if !p.start_anonymous() {
        return table;
    }
    loop
        invariant_except_break
            p.tokens() == ts,
            ts == spec_tokens(content@),
            0 <= p.position() <= ts.len(),
            spec_parse_actor_weap(content@) == mounts_scan(ts, p.position(), mounts_view(table)),
        ensures
            spec_parse_actor_weap(content@) == mounts_view(table),
        decreases ts.len() - p.position(),
    {
        let ghost pos0 = p.position();
        if p.endblock() {
            break;
        }
        let tok = match p.next() {
            Some(t) => t,
            None => {
                break;
            },
        };
        let name_chars = trim_quote_chars(crate::text::chars_of(tok.as_str()).as_slice());
        let name = crate::text::string_from_chars(name_chars.as_slice());
        if p.start_anonymous() {
            let ghost q2 = p.position();
            proof {
                lemma_weapon_mounts(ts, q2, mount_init(), mount_init());
            }
            let mut pair = MountPair {
                out: WeaponMount { parent_bone: None, offset: None, rot: None },
                away: WeaponMount { parent_bone: None, offset: None, rot: None },
            };
            read_weapon_mounts(&mut p, &mut pair);
            let key = to_lowercase(name.as_str());
            proof {
                lemma_insert_map(table.entries(), key@, pair, |m: MountPair| pair_view(m));
            }
            table.insert(key, pair);
        }
    }
    table
}

} // verus!
