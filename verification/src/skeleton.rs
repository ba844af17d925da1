//! `.skel` skeletons.
//!
//! ```text
//! bone <name> {
//!     offset <x> <y> <z>
//!     transX | rotY limit <a> <b> | rotZ lock | ...
//!     bone <child> { ... }
//! }
//! ```
//!
//! Bones are numbered in depth-first pre-order.  A bone's world position
//! is the sum of the offsets from the top of its chain down to itself; it
//! is kept as that list of offsets (each the texts of three floats), to be
//! added in order starting from zero.
use crate::model_text::{float_or, texts};
use crate::text::{
    chars_eq, chars_of, float_text, has_prefix, has_suffix, lines, spec_lines, spec_trim,
    spec_words, split_whitespace, starts_with, ends_with, string_from_chars, trim, copy_range,
};
use crate::types::{build_channel_map, channel_map, Oni2BoneChannels};
use vstd::prelude::*;

verus! {

/// Rotation limits of a bone, each the two bound texts as written
/// (unordered).
#[derive(Debug, Clone)]
pub struct BoneRotLimits {
    pub x: Option<[String; 2]>,
    pub y: Option<[String; 2]>,
    pub z: Option<[String; 2]>,
}

/// Mathematical view of [`BoneRotLimits`].
pub struct RotLimitsView {
    pub x: Option<Seq<Seq<char>>>,
    pub y: Option<Seq<Seq<char>>>,
    pub z: Option<Seq<Seq<char>>>,
}

pub open spec fn limit_view(l: Option<[String; 2]>) -> Option<Seq<Seq<char>>> {
    match l {
        Some(a) => Some(texts(a)),
        None => None,
    }
}

impl View for BoneRotLimits {
    type V = RotLimitsView;

    open spec fn view(&self) -> RotLimitsView {
        RotLimitsView { x: limit_view(self.x), y: limit_view(self.y), z: limit_view(self.z) }
    }
}

/// A parsed skeleton.
#[derive(Debug, Clone)]
pub struct Oni2Skeleton {
    /// Per bone, the offsets whose sum is its world position.
    pub positions: Vec<Vec<[String; 3]>>,
    pub parent_indices: Vec<Option<usize>>,
    pub names: Vec<String>,
    /// Per bone, its offset from its parent.
    pub local_offsets: Vec<[String; 3]>,
    pub channels: Vec<Oni2BoneChannels>,
    pub rot_limits: Vec<BoneRotLimits>,
    /// The channel kinds of all bones in animation order (`true` for a
    /// rotation).
    pub channel_is_rot: Vec<bool>,
}

impl Oni2Skeleton {
    /// The number of animation channels the skeleton's bones define.
    pub fn expected_anim_channels(&self) -> (n: usize)
        ensures
            n == self.channel_is_rot@.len(),
    {
        self.channel_is_rot.len()
    }
}

pub open spec fn terms_view(t: Seq<[String; 3]>) -> Seq<Seq<Seq<char>>> {
    t.map_values(|a: [String; 3]| texts(a))
}

/// What the lines of a skeleton have given so far.
pub struct SkelState {
    pub positions: Seq<Seq<Seq<Seq<char>>>>,
    pub parents: Seq<Option<usize>>,
    pub names: Seq<Seq<char>>,
    pub offsets: Seq<Seq<Seq<char>>>,
    pub channels: Seq<Oni2BoneChannels>,
    pub limits: Seq<RotLimitsView>,
    /// Open bones, innermost last: each one's position and index; the
    /// bottom entry stands for the file's top level.
    pub stack: Seq<(Seq<Seq<Seq<char>>>, Option<usize>)>,
    /// A `bone` line does not end in ` {`.
    pub fault: bool,
}

pub open spec fn no_limits() -> RotLimitsView {
    RotLimitsView { x: None, y: None, z: None }
}

pub open spec fn no_channels() -> Oni2BoneChannels {
    Oni2BoneChannels {
        has_trans_x: false,
        has_trans_y: false,
        has_trans_z: false,
        has_rot_x: false,
        has_rot_y: false,
        has_rot_z: false,
    }
}

/// A `bone <name> {` line (one without ` {` after the name is a fault): a
/// new bone at the end, child of the innermost
/// open bone, placed at that bone's position until its offset is read.
pub open spec fn bone_line(s: SkelState, t: Seq<char>) -> SkelState {
    if !(t.len() >= 7 && has_suffix(t, " {"@)) {
        SkelState { fault: true, ..s }
    } else {
        let name = spec_trim(t.subrange(5, t.len() - 2));
        let top = if s.stack.len() > 0 {
            s.stack.last()
        } else {
            (Seq::empty(), None)
        };
        let idx = s.positions.len();
        SkelState {
            positions: s.positions.push(top.0),
            parents: s.parents.push(top.1),
            names: s.names.push(name),
            offsets: s.offsets.push(seq![seq!['0'], seq!['0'], seq!['0']]),
            channels: s.channels.push(no_channels()),
            limits: s.limits.push(no_limits()),
            stack: s.stack.push((top.0, Some(idx as usize))),
            ..s
        }
    }
}

/// An `offset x y z` line: the last bone's offset; its position, and the
/// innermost open entry's, become the next entry out's position plus the
/// offset.
pub open spec fn offset_line(s: SkelState, ws: Seq<Seq<char>>) -> SkelState {
    if ws.len() < 4 {
        s
    } else {
        let o = seq![float_or(ws[1], seq!['0']), float_or(ws[2], seq!['0']), float_or(ws[3], seq!['0'])];
        let parent_pos = if s.stack.len() >= 2 {
            s.stack[s.stack.len() - 2].0
        } else {
            Seq::empty()
        };
        let world = parent_pos.push(o);
        SkelState {
            offsets: if s.offsets.len() > 0 {
                s.offsets.update(s.offsets.len() - 1, o)
            } else {
                s.offsets
            },
            positions: if s.positions.len() > 0 {
                s.positions.update(s.positions.len() - 1, world)
            } else {
                s.positions
            },
            stack: if s.stack.len() > 0 {
                s.stack.update(s.stack.len() - 1, (world, s.stack.last().1))
            } else {
                s.stack
            },
            ..s
        }
    }
}

/// A `trans...`/`rot...` line: unless locked, the channel named by its
/// first word is set on the last bone; a rotation with `limit a b` also
/// records the two bounds.
pub open spec fn channel_line(s: SkelState, ws: Seq<Seq<char>>) -> SkelState {
    if ws.len() > 1 && ws[1] == "lock"@ {
        s
    } else if s.channels.len() == 0 || ws.len() == 0 {
        s
    } else {
        let has_limit = ws.len() >= 4 && ws[1] == "limit"@;
        let lim = if has_limit {
            Some(seq![float_or(ws[2], seq!['0']), float_or(ws[3], seq!['0'])])
        } else {
            None
        };
        let k = s.channels.len() - 1;
        let c = s.channels[k];
        let l = s.limits[k];
        let w = ws[0];
        if w == "transX"@ {
            SkelState { channels: s.channels.update(k, Oni2BoneChannels { has_trans_x: true, ..c }), ..s }
        } else if w == "transY"@ {
            SkelState { channels: s.channels.update(k, Oni2BoneChannels { has_trans_y: true, ..c }), ..s }
        } else if w == "transZ"@ {
            SkelState { channels: s.channels.update(k, Oni2BoneChannels { has_trans_z: true, ..c }), ..s }
        } else if w == "rotX"@ {
            SkelState {
                channels: s.channels.update(k, Oni2BoneChannels { has_rot_x: true, ..c }),
                limits: if has_limit { s.limits.update(k, RotLimitsView { x: lim, ..l }) } else { s.limits },
                ..s
            }
        } else if w == "rotY"@ {
            SkelState {
                channels: s.channels.update(k, Oni2BoneChannels { has_rot_y: true, ..c }),
                limits: if has_limit { s.limits.update(k, RotLimitsView { y: lim, ..l }) } else { s.limits },
                ..s
            }
        } else if w == "rotZ"@ {
            SkelState {
                channels: s.channels.update(k, Oni2BoneChannels { has_rot_z: true, ..c }),
                limits: if has_limit { s.limits.update(k, RotLimitsView { z: lim, ..l }) } else { s.limits },
                ..s
            }
        } else {
            s
        }
    }
}

/// One line of a skeleton.
pub open spec fn skel_line(s: SkelState, line: Seq<char>) -> SkelState {
    let t = spec_trim(line);
    let ws = spec_words(t);
    if has_prefix(t, "bone "@) && t.len() > 0 && t.last() == '{' {
        bone_line(s, t)
    } else if has_prefix(t, "offset "@) {
        offset_line(s, ws)
    } else if has_prefix(t, "trans"@) || has_prefix(t, "rot"@) {
        channel_line(s, ws)
    } else if t == "}"@ {
        SkelState { stack: if s.stack.len() > 0 { s.stack.drop_last() } else { s.stack }, ..s }
    } else {
        s
    }
}

pub open spec fn skel_start() -> SkelState {
    SkelState {
        positions: Seq::empty(),
        parents: Seq::empty(),
        names: Seq::empty(),
        offsets: Seq::empty(),
        channels: Seq::empty(),
        limits: Seq::empty(),
        stack: seq![(Seq::<Seq<Seq<char>>>::empty(), None::<usize>)],
        fault: false,
    }
}

/// The state after the first `k` lines.
pub open spec fn skel_state(ls: Seq<Seq<char>>, k: nat) -> SkelState
    decreases k,
{
    if k == 0 {
        skel_start()
    } else {
        skel_line(skel_state(ls, (k - 1) as nat), ls[k - 1])
    }
}

pub open spec fn spec_parse_skel(content: Seq<char>) -> SkelState {
    let ls = spec_lines(content);
    skel_state(ls, ls.len())
}

/// The arrays of a skeleton state have one entry per bone, each bone's
/// parent comes before it, and every open bone is a bone already read.
pub open spec fn skel_shape(s: SkelState) -> bool {
    &&& s.parents.len() == s.positions.len()
    &&& s.names.len() == s.positions.len()
    &&& s.offsets.len() == s.positions.len()
    &&& s.channels.len() == s.positions.len()
    &&& s.limits.len() == s.positions.len()
    &&& forall|i: int|
        0 <= i < s.parents.len() ==> match #[trigger] s.parents[i] {
            Some(j) => j < i,
            None => true,
        }
    &&& forall|k: int|
        0 <= k < s.stack.len() ==> match (#[trigger] s.stack[k]).1 {
            Some(j) => j < s.positions.len(),
            None => true,
        }
}

proof fn lemma_skel_line_shape(s: SkelState, line: Seq<char>)
    requires
        skel_shape(s),
    ensures
        skel_shape(skel_line(s, line)),
{
    let t = spec_trim(line);
    let ws = spec_words(t);
    if has_prefix(t, "bone "@) && t.len() > 0 && t.last() == '{' {
        let r = bone_line(s, t);
        if t.len() >= 7 && has_suffix(t, " {"@) {
            let top = if s.stack.len() > 0 { s.stack.last() } else { (Seq::empty(), None) };
            assert forall|i: int| 0 <= i < r.parents.len() implies match #[trigger] r.parents[i] {
                Some(j) => j < i,
                None => true,
            } by {
                if i < s.parents.len() {
                    assert(r.parents[i] == s.parents[i]);
                } else if s.stack.len() > 0 {
                    assert(top == s.stack[s.stack.len() - 1]);
                }
            }
            assert forall|k: int| 0 <= k < r.stack.len() implies match (#[trigger] r.stack[k]).1 {
                Some(j) => j < r.positions.len(),
                None => true,
            } by {
                if k < s.stack.len() {
                    assert(r.stack[k] == s.stack[k]);
                }
            }
        }
    } else if has_prefix(t, "offset "@) {
        let r = offset_line(s, ws);
        if ws.len() >= 4 && s.stack.len() > 0 {
            assert forall|k: int| 0 <= k < r.stack.len() implies match (#[trigger] r.stack[k]).1 {
                Some(j) => j < r.positions.len(),
                None => true,
            } by {
                if k < s.stack.len() - 1 {
                    assert(r.stack[k] == s.stack[k]);
                }
            }
        }
    } else if has_prefix(t, "trans"@) || has_prefix(t, "rot"@) {
    } else if t == "}"@ {
        let r = skel_line(s, line);
        assert forall|k: int| 0 <= k < r.stack.len() implies match (#[trigger] r.stack[k]).1 {
            Some(j) => j < r.positions.len(),
            None => true,
        } by {
            assert(r.stack[k] == s.stack[k]);
        }
    }
}

proof fn lemma_skel_state_shape(ls: Seq<Seq<char>>, k: nat)
    requires
        k <= ls.len(),
    ensures
        skel_shape(skel_state(ls, k)),
    decreases k,
{
    if k > 0 {
        lemma_skel_state_shape(ls, (k - 1) as nat);
        lemma_skel_line_shape(skel_state(ls, (k - 1) as nat), ls[k - 1]);
    }
}

/// A skeleton's positions, parents, names, offsets, channels and limits
/// have one entry per bone, and bones come in depth-first order: each
/// bone's parent is a bone before it.
pub proof fn lemma_skel_bones_in_order(content: Seq<char>)
    ensures
        skel_shape(spec_parse_skel(content)),
{
    let ls = spec_lines(content);
    lemma_skel_state_shape(ls, ls.len());
}

// ---------------------------------------------------------------------
// Reading
// ---------------------------------------------------------------------

struct SkelBuild {
    positions: Vec<Vec<[String; 3]>>,
    parents: Vec<Option<usize>>,
    names: Vec<String>,
    offsets: Vec<[String; 3]>,
    channels: Vec<Oni2BoneChannels>,
    limits: Vec<BoneRotLimits>,
    stack: Vec<(Vec<[String; 3]>, Option<usize>)>,
    fault: bool,
}

spec fn build_view(b: SkelBuild) -> SkelState {
    SkelState {
        positions: b.positions@.map_values(|t: Vec<[String; 3]>| terms_view(t@)),
        parents: b.parents@,
        names: b.names@.map_values(|n: String| n@),
        offsets: b.offsets@.map_values(|a: [String; 3]| texts(a)),
        channels: b.channels@,
        limits: b.limits@.map_values(|l: BoneRotLimits| l@),
        stack: b.stack@.map_values(|e: (Vec<[String; 3]>, Option<usize>)| (terms_view(e.0@), e.1)),
        fault: b.fault,
    }
}

fn copy_triple(a: &[String; 3]) -> (r: [String; 3])
    ensures
        texts(r) == texts(*a),
{
    let r = [a[0].clone(), a[1].clone(), a[2].clone()];
    assert(texts(r) =~= texts(*a));
    r
}

fn copy_terms(v: &Vec<[String; 3]>) -> (r: Vec<[String; 3]>)
    ensures
        terms_view(r@) == terms_view(v@),
{
    let mut r: Vec<[String; 3]> = Vec::new();
    let mut i: usize = 0;
    while i < v.len()
        invariant
            i <= v@.len(),
            terms_view(r@) == terms_view(v@).subrange(0, i as int),
        decreases v@.len() - i,
    {
        let t = copy_triple(&v[i]);
        let ghost before = terms_view(r@);
        r.push(t);
        assert(terms_view(r@) =~= before.push(texts(t)));
        i = i + 1;
        assert(terms_view(r@) =~= terms_view(v@).subrange(0, i as int));
    }
    assert(terms_view(r@) =~= terms_view(v@));
    r
}

fn zero_triple() -> (r: [String; 3])
    ensures
        texts(r) == seq![seq!['0'], seq!['0'], seq!['0']],
{
    proof {
        reveal_strlit("0");
    }
    let r = ["0".to_string(), "0".to_string(), "0".to_string()];
    assert("0"@ =~= seq!['0']);
    assert(texts(r) =~= seq![seq!['0'], seq!['0'], seq!['0']]);
    r
}

fn float_or_zero(t: &[char]) -> (r: String)
    ensures
        r@ == float_or(t@, seq!['0']),
{
    if float_text(t) {
        string_from_chars(t)
    } else {
        proof {
            reveal_strlit("0");
        }
        let z = "0".to_string();
        assert(z@ =~= seq!['0']);
        z
    }
}

fn apply_bone_line(b: &mut SkelBuild, t: &[char])
    requires
        has_prefix(t@, "bone "@),
    ensures
        build_view(*final(b)) == bone_line(build_view(*old(b)), t@),
        old(b).limits@.len() == old(b).channels@.len() ==> final(b).limits@.len() == final(b).channels@.len(),
{
    let suffix = chars_of(" {");
    if !(t.len() >= 7 && ends_with(t, suffix.as_slice())) {
        b.fault = true;
        return;
    }
    let ghost s0 = build_view(*b);
    let raw = copy_range(t, 5, t.len() - 2);
    let name_chars = trim(raw.as_slice());
    let (top_pos, top_idx) = if b.stack.len() > 0 {
        let last = b.stack.len() - 1;
        (copy_terms(&b.stack[last].0), b.stack[last].1)
    } else {
        (Vec::new(), None)
    };
    assert(terms_view(top_pos@) == (if s0.stack.len() > 0 {
        s0.stack.last()
    } else {
        (Seq::<Seq<Seq<char>>>::empty(), None::<usize>)
    }).0);
    let idx = b.positions.len();
    let pos_copy = copy_terms(&top_pos);
    b.positions.push(top_pos);
    b.parents.push(top_idx);
    b.names.push(string_from_chars(name_chars.as_slice()));
    b.offsets.push(zero_triple());
    b.channels.push(Oni2BoneChannels {
        has_trans_x: false,
        has_trans_y: false,
        has_trans_z: false,
        has_rot_x: false,
        has_rot_y: false,
        has_rot_z: false,
    });
    b.limits.push(BoneRotLimits { x: None, y: None, z: None });
    b.stack.push((pos_copy, Some(idx)));
    proof {
        let s1 = build_view(*b);
        let e = bone_line(s0, t@);
        assert(s1.positions =~= e.positions);
        assert(s1.parents =~= e.parents);
        assert(s1.names =~= e.names);
        assert(s1.offsets =~= e.offsets);
        assert(s1.channels =~= e.channels);
        assert(s1.limits =~= e.limits);
        assert(s1.stack =~= e.stack);
    }
}

fn apply_offset_line(b: &mut SkelBuild, ws: &Vec<Vec<char>>)
    ensures
        build_view(*final(b)) == offset_line(build_view(*old(b)), ws@.map_values(|w: Vec<char>| w@)),
        final(b).limits@.len() == old(b).limits@.len(),
        final(b).channels@.len() == old(b).channels@.len(),
{
    let ghost wv = ws@.map_values(|w: Vec<char>| w@);
    if ws.len() < 4 {
        return;
    }
    let ghost s0 = build_view(*b);
    assert(wv[1] == ws@[1]@ && wv[2] == ws@[2]@ && wv[3] == ws@[3]@);
    let o = [float_or_zero(ws[1].as_slice()), float_or_zero(ws[2].as_slice()), float_or_zero(ws[3].as_slice())];
    let ghost ov = texts(o);
    assert(ov =~= seq![float_or(wv[1], seq!['0']), float_or(wv[2], seq!['0']), float_or(wv[3], seq!['0'])]);
    let mut world: Vec<[String; 3]> = if b.stack.len() >= 2 {
        copy_terms(&b.stack[b.stack.len() - 2].0)
    } else {
        Vec::new()
    };
    let ghost wbefore = terms_view(world@);
    proof {
        if s0.stack.len() >= 2 {
            assert(s0.stack[s0.stack.len() - 2].0 == terms_view(b.stack@[b.stack@.len() - 2].0@));
        } else {
            assert(wbefore =~= Seq::<Seq<Seq<char>>>::empty());
        }
    }
    world.push(copy_triple(&o));
    let ghost wview = terms_view(world@);
    assert(wview =~= wbefore.push(ov));
    if b.offsets.len() > 0 {
        let k = b.offsets.len() - 1;
        b.offsets.set(k, o);
    }
    if b.positions.len() > 0 {
        let k = b.positions.len() - 1;
        let ghost before = b.positions@;
        let wc = copy_terms(&world);
        b.positions.set(k, wc);
        assert(b.positions@.map_values(|t: Vec<[String; 3]>| terms_view(t@)) =~= before.map_values(
            |t: Vec<[String; 3]>| terms_view(t@),
        ).update(k as int, wview));
    }
    if b.stack.len() > 0 {
        let k = b.stack.len() - 1;
        let idx = b.stack[k].1;
        let ghost before = b.stack@;
        b.stack.set(k, (world, idx));
        assert(b.stack@.map_values(|e: (Vec<[String; 3]>, Option<usize>)| (terms_view(e.0@), e.1)) =~= before.map_values(
            |e: (Vec<[String; 3]>, Option<usize>)| (terms_view(e.0@), e.1),
        ).update(k as int, (wview, idx)));
    }
    proof {
        let s1 = build_view(*b);
        let e = offset_line(s0, wv);
        assert(s1.positions =~= e.positions);
        assert(s1.offsets =~= e.offsets);
        assert(s1.stack =~= e.stack);
        assert(s1.names =~= e.names);
        assert(s1.limits =~= e.limits);
    }
}

fn word_is(w: &Vec<char>, lit: &str) -> (r: bool)
    ensures
        r == (w@ == lit@),
{
    let l = chars_of(lit);
    chars_eq(w.as_slice(), l.as_slice())
}

fn copy_limit(o: &Option<[String; 2]>) -> (r: Option<[String; 2]>)
    ensures
        limit_view(r) == limit_view(*o),
{
    match o {
        Some(a) => {
            let c = [a[0].clone(), a[1].clone()];
            assert(texts(c) =~= texts(*a));
            Some(c)
        },
        None => None,
    }
}

fn limit_pair(ws: &Vec<Vec<char>>) -> (r: Option<[String; 2]>)
    requires
        ws@.len() >= 4,
    ensures
        ({
            let wv = ws@.map_values(|w: Vec<char>| w@);
            limit_view(r) == Some(seq![float_or(wv[2], seq!['0']), float_or(wv[3], seq!['0'])])
        }),
{
    let ghost wv = ws@.map_values(|w: Vec<char>| w@);
    assert(wv[2] == ws@[2]@ && wv[3] == ws@[3]@);
    let a = [float_or_zero(ws[2].as_slice()), float_or_zero(ws[3].as_slice())];
    assert(texts(a) =~= seq![float_or(wv[2], seq!['0']), float_or(wv[3], seq!['0'])]);
    Some(a)
}

fn apply_channel_line(b: &mut SkelBuild, ws: &Vec<Vec<char>>)
    requires
        old(b).limits@.len() == old(b).channels@.len(),
    ensures
        final(b).limits@.len() == final(b).channels@.len(),
        build_view(*final(b)) == channel_line(build_view(*old(b)), ws@.map_values(|w: Vec<char>| w@)),
{
    let ghost wv = ws@.map_values(|w: Vec<char>| w@);
    let ghost s0 = build_view(*b);
    if ws.len() > 1 {
        assert(wv[1] == ws@[1]@);
        if word_is(&ws[1], "lock") {
            return;
        }
    }
    if b.channels.len() == 0 || ws.len() == 0 {
        return;
    }
    let has_limit = ws.len() >= 4 && {
        assert(wv[1] == ws@[1]@);
        word_is(&ws[1], "limit")
    };
    let k = b.channels.len() - 1;
    let c = b.channels[k];
    assert(wv[0] == ws@[0]@);
    let w = &ws[0];
    if word_is(w, "transX") {
        b.channels.set(k, Oni2BoneChannels { has_trans_x: true, ..c });
    } else if word_is(w, "transY") {
        b.channels.set(k, Oni2BoneChannels { has_trans_y: true, ..c });
    } else if word_is(w, "transZ") {
        b.channels.set(k, Oni2BoneChannels { has_trans_z: true, ..c });
    } else if word_is(w, "rotX") {
        b.channels.set(k, Oni2BoneChannels { has_rot_x: true, ..c });
        if has_limit {
            let l = limit_pair(ws);
            let old_l = &b.limits[k];
            let nl = BoneRotLimits { x: l, y: copy_limit(&old_l.y), z: copy_limit(&old_l.z) };
            b.limits.set(k, nl);
        }
    } else if word_is(w, "rotY") {
        b.channels.set(k, Oni2BoneChannels { has_rot_y: true, ..c });
        if has_limit {
            let l = limit_pair(ws);
            let old_l = &b.limits[k];
            let nl = BoneRotLimits { x: copy_limit(&old_l.x), y: l, z: copy_limit(&old_l.z) };
            b.limits.set(k, nl);
        }
    } else if word_is(w, "rotZ") {
        b.channels.set(k, Oni2BoneChannels { has_rot_z: true, ..c });
        if has_limit {
            let l = limit_pair(ws);
            let old_l = &b.limits[k];
            let nl = BoneRotLimits { x: copy_limit(&old_l.x), y: copy_limit(&old_l.y), z: l };
            b.limits.set(k, nl);
        }
    }
    proof {
        let s1 = build_view(*b);
        let e = channel_line(s0, wv);
        assert(s1.channels =~= e.channels);
        assert(s1.limits =~= e.limits);
    }
}

fn read_skel(content: &str) -> (r: SkelBuild)
    ensures
        build_view(r) == spec_parse_skel(content@),
        r.limits@.len() == r.channels@.len(),
{
    let chars = chars_of(content);
    let ls = lines(chars.as_slice());
    let ghost lv = ls@.map_values(|l: Vec<char>| l@);
    assert(lv =~= spec_lines(content@));
    let mut stack: Vec<(Vec<[String; 3]>, Option<usize>)> = Vec::new();
    stack.push((Vec::new(), None));
    let mut b = SkelBuild {
        positions: Vec::new(),
        parents: Vec::new(),
        names: Vec::new(),
        offsets: Vec::new(),
        channels: Vec::new(),
        limits: Vec::new(),
        stack,
        fault: false,
    };
    proof {
        let v = build_view(b);
        let e = skel_start();
        assert(v.positions =~= e.positions);
        assert(v.names =~= e.names);
        assert(v.offsets =~= e.offsets);
        assert(v.limits =~= e.limits);
        assert(v.stack =~= e.stack);
    }
    let mut i: usize = 0;
    while i < ls.len()
        invariant
            i <= ls@.len(),
            lv == ls@.map_values(|l: Vec<char>| l@),
            build_view(b) == skel_state(lv, i as nat),
            b.limits@.len() == b.channels@.len(),
        decreases ls@.len() - i,
    {
        assert(lv[i as int] == ls@[i as int]@);
        let t = trim(ls[i].as_slice());
        let ws = split_whitespace(t.as_slice());
        let ghost wv = ws@.map_values(|w: Vec<char>| w@);
        assert(wv =~= spec_words(t@));
        let ghost s0 = build_view(b);
        if starts_with(t.as_slice(), chars_of("bone ").as_slice()) && t.len() > 0 && t[t.len() - 1] == '{' {
            apply_bone_line(&mut b, t.as_slice());
        } else if starts_with(t.as_slice(), chars_of("offset ").as_slice()) {
            apply_offset_line(&mut b, &ws);
        } else if starts_with(t.as_slice(), chars_of("trans").as_slice()) || starts_with(
            t.as_slice(),
            chars_of("rot").as_slice(),
        ) {
            apply_channel_line(&mut b, &ws);
        } else if word_is(&t, "}") {
            if b.stack.len() > 0 {
                let ghost before = b.stack@;
                let _ = b.stack.pop();
                assert(b.stack@.map_values(|e: (Vec<[String; 3]>, Option<usize>)| (terms_view(e.0@), e.1)) =~= before.map_values(
                    |e: (Vec<[String; 3]>, Option<usize>)| (terms_view(e.0@), e.1),
                ).drop_last());
            }
        }
        assert(build_view(b) == skel_line(s0, lv[i as int]));
        i = i + 1;
    }
    b
}

/// Whether `parse_skel` must not be given `content`: a line starting with
/// `bone ` and ending with `{` has no ` {` after the name.
pub fn skel_would_fault(content: &str) -> (r: bool)
    ensures
        r == spec_parse_skel(content@).fault,
{
    read_skel(content).fault
}

/// Reads a `.skel` text.
pub fn parse_skel(content: &str) -> (r: Oni2Skeleton)
    requires
        !spec_parse_skel(content@).fault,
    ensures
        ({
            let s = spec_parse_skel(content@);
            &&& r.positions@.map_values(|t: Vec<[String; 3]>| terms_view(t@)) == s.positions
            &&& r.parent_indices@ == s.parents
            &&& r.names@.map_values(|n: String| n@) == s.names
            &&& r.local_offsets@.map_values(|a: [String; 3]| texts(a)) == s.offsets
            &&& r.channels@ == s.channels
            &&& r.rot_limits@.map_values(|l: BoneRotLimits| l@) == s.limits
            &&& r.channel_is_rot@ == channel_map(s.channels, s.channels.len())
        }),
{
    let b = read_skel(content);
    let channel_is_rot = build_channel_map(&b.channels);
    Oni2Skeleton {
        positions: b.positions,
        parent_indices: b.parents,
        names: b.names,
        local_offsets: b.offsets,
        channels: b.channels,
        rot_limits: b.limits,
        channel_is_rot,
    }
}

} // verus!
