//! Collision bounds (`.bnd`).
//!
//! A file holds one bound, or several after `bound:` headers; geometry
//! before the first header goes to a bound opened on demand.  Lines:
//!
//! ```text
//! type: <t>                the bound's type, then its material type
//! v x y z                  a vertex
//! centroid: x y z          the first one is the whole file's centroid;
//!                          each also sets the current bound's
//! edge a b ...             an edge
//! quad a b c d [m] ...     a quad using material m of this bound
//! tri a b c [m] ...        a triangle using material m
//! mtl <name> { ... }       a physics material (Conveyor:, ConveyorSpeed:)
//! ```
//!
//! Floats are kept as their text (`"0"` when they do not parse) in the
//! file's left-handed coordinates; indices that do not parse read as 0.  A
//! polygon whose material is a conveyor records that material's speed; the
//! bound's conveyor speed is the largest positive one.
use crate::text::{
    before_first, before_first_char, chars_of, copy_range, float_text, has_prefix, is_float_text,
    lines, parse_i32, parse_u32, parse_usize, spec_lines, spec_parse_i32, spec_parse_unsigned,
    spec_trim, spec_words, split_whitespace, starts_with, string_from_chars, trim,
};
use vstd::prelude::*;

verus! {

/// One bound of a file.
pub struct Oni2SubBound {
    pub bound_type: Option<String>,
    pub material_type: Option<String>,
    pub vertices: Vec<[String; 3]>,
    pub centroid: [String; 3],
    pub edges: Vec<[u32; 2]>,
    pub quads: Vec<[u32; 4]>,
    pub tris: Vec<[u32; 3]>,
    /// The speeds of the conveyor materials its polygons use, in order.
    pub conveyor_speeds: Vec<String>,
}

/// The bounds of a file and its overall centroid.
pub struct Oni2Bound {
    pub sub_bounds: Vec<Oni2SubBound>,
    pub centroid: [String; 3],
}

pub struct SubModel {
    pub bound_type: Option<Seq<char>>,
    pub material_type: Option<Seq<char>>,
    pub vertices: Seq<Seq<Seq<char>>>,
    pub centroid: Seq<Seq<char>>,
    pub edges: Seq<Seq<u32>>,
    pub quads: Seq<Seq<u32>>,
    pub tris: Seq<Seq<u32>>,
    pub conveyor_speeds: Seq<Seq<char>>,
}

pub open spec fn ov(t: Option<String>) -> Option<Seq<char>> {
    match t {
        Some(s) => Some(s@),
        None => None,
    }
}

pub open spec fn t3(a: [String; 3]) -> Seq<Seq<char>> {
    a@.map_values(|t: String| t@)
}

pub open spec fn sub_model(s: Oni2SubBound) -> SubModel {
    SubModel {
        bound_type: ov(s.bound_type),
        material_type: ov(s.material_type),
        vertices: s.vertices@.map_values(|v: [String; 3]| t3(v)),
        centroid: t3(s.centroid),
        edges: s.edges@.map_values(|e: [u32; 2]| e@),
        quads: s.quads@.map_values(|q: [u32; 4]| q@),
        tris: s.tris@.map_values(|t: [u32; 3]| t@),
        conveyor_speeds: s.conveyor_speeds@.map_values(|t: String| t@),
    }
}

pub open spec fn subs_model(v: Seq<Oni2SubBound>) -> Seq<SubModel> {
    v.map_values(|s: Oni2SubBound| sub_model(s))
}

pub open spec fn zeros() -> Seq<Seq<char>> {
    seq![seq!['0'], seq!['0'], seq!['0']]
}

pub open spec fn sub_default() -> SubModel {
    SubModel {
        bound_type: None,
        material_type: None,
        vertices: Seq::empty(),
        centroid: zeros(),
        edges: Seq::empty(),
        quads: Seq::empty(),
        tris: Seq::empty(),
        conveyor_speeds: Seq::empty(),
    }
}

pub open spec fn fz(t: Seq<char>) -> Seq<char> {
    if is_float_text(t) {
        t
    } else {
        seq!['0']
    }
}

pub open spec fn uz(t: Seq<char>) -> u32 {
    match spec_parse_unsigned(t, u32::MAX as int) {
        Some(v) => v as u32,
        None => 0,
    }
}

/// The reading state.
pub struct BoundScan {
    pub subs: Seq<SubModel>,
    pub current: Option<SubModel>,
    pub centroid: Seq<Seq<char>>,
    pub first_centroid: bool,
    /// The materials of the current bound: a conveyor's speed, or none.
    pub materials: Seq<Option<Seq<char>>>,
    pub in_mtl: bool,
    pub mtl_conveyor: bool,
    pub mtl_speed: Seq<char>,
}

/// The current bound, opened when there is none.
pub open spec fn cur(st: BoundScan) -> SubModel {
    match st.current {
        Some(s) => s,
        None => sub_default(),
    }
}

/// The speed a polygon using material `m` (when given) records.
pub open spec fn poly_speed(mats: Seq<Option<Seq<char>>>, m: Option<Seq<char>>) -> Option<Seq<char>> {
    match m {
        Some(t) => match spec_parse_unsigned(t, usize::MAX as int) {
            Some(i) => if 0 <= i < mats.len() {
                mats[i]
            } else {
                None
            },
            None => None,
        },
        None => None,
    }
}

pub open spec fn add_speed(s: Seq<Seq<char>>, v: Option<Seq<char>>) -> Seq<Seq<char>> {
    match v {
        Some(x) => s.push(x),
        None => s,
    }
}

pub open spec fn bound_line(st: BoundScan, line: Seq<char>) -> BoundScan {
    let t = spec_trim(line);
    let ws = spec_words(t);
    if st.in_mtl {
        if t.len() > 0 && t[0] == '}' {
            BoundScan {
                materials: st.materials.push(
                    if st.mtl_conveyor {
                        Some(st.mtl_speed)
                    } else {
                        None
                    },
                ),
                in_mtl: false,
                ..st
            }
        } else if has_prefix(t, "Conveyor:"@) {
            BoundScan {
                mtl_conveyor: match spec_parse_i32(spec_trim(t.skip(9))) {
                    Some(v) => v != 0,
                    None => false,
                },
                ..st
            }
        } else if has_prefix(t, "ConveyorSpeed:"@) {
            BoundScan { mtl_speed: fz(spec_trim(t.skip(14))), ..st }
        } else {
            st
        }
    } else if has_prefix(t, "mtl "@) {
        BoundScan { in_mtl: true, mtl_conveyor: false, mtl_speed: seq!['0'], ..st }
    } else if has_prefix(t, "type:"@) {
        let ty = spec_trim(before_first(t.skip(5), ':'));
        let s = cur(st);
        let s2 = if s.bound_type is None {
            SubModel { bound_type: Some(ty), ..s }
        } else if s.material_type is None {
            SubModel { material_type: Some(ty), ..s }
        } else {
            s
        };
        BoundScan { current: Some(s2), ..st }
    } else if has_prefix(t, "bound:"@) {
        BoundScan {
            subs: match st.current {
                Some(s) => st.subs.push(s),
                None => st.subs,
            },
            current: Some(sub_default()),
            materials: Seq::empty(),
            ..st
        }
    } else if has_prefix(t, "v "@) {
        if ws.len() >= 4 {
            let s = cur(st);
            BoundScan {
                current: Some(
                    SubModel {
                        vertices: s.vertices.push(seq![fz(ws[1]), fz(ws[2]), fz(ws[3])]),
                        ..s
                    },
                ),
                ..st
            }
        } else {
            st
        }
    } else if has_prefix(t, "centroid:"@) {
        if ws.len() >= 4 {
            let c = seq![fz(ws[1]), fz(ws[2]), fz(ws[3])];
            BoundScan {
                centroid: if st.first_centroid {
                    c
                } else {
                    st.centroid
                },
                first_centroid: false,
                current: match st.current {
                    Some(s) => Some(SubModel { centroid: c, ..s }),
                    None => None,
                },
                ..st
            }
        } else {
            st
        }
    } else if has_prefix(t, "edge "@) {
        if ws.len() >= 3 {
            let s = cur(st);
            BoundScan {
                current: Some(SubModel { edges: s.edges.push(seq![uz(ws[1]), uz(ws[2])]), ..s }),
                ..st
            }
        } else {
            st
        }
    } else if has_prefix(t, "quad "@) {
        if ws.len() >= 5 {
            let s = cur(st);
            let m = if ws.len() > 5 {
                Some(ws[5])
            } else {
                None
            };
            BoundScan {
                current: Some(
                    SubModel {
                        quads: s.quads.push(seq![uz(ws[1]), uz(ws[2]), uz(ws[3]), uz(ws[4])]),
                        conveyor_speeds: add_speed(s.conveyor_speeds, poly_speed(st.materials, m)),
                        ..s
                    },
                ),
                ..st
            }
        } else {
            st
        }
    } else if has_prefix(t, "tri "@) {
        if ws.len() >= 4 {
            let s = cur(st);
            let m = if ws.len() > 4 {
                Some(ws[4])
            } else {
                None
            };
            BoundScan {
                current: Some(
                    SubModel {
                        tris: s.tris.push(seq![uz(ws[1]), uz(ws[2]), uz(ws[3])]),
                        conveyor_speeds: add_speed(s.conveyor_speeds, poly_speed(st.materials, m)),
                        ..s
                    },
                ),
                ..st
            }
        } else {
            st
        }
    } else {
        st
    }
}

pub open spec fn bound_upto(ls: Seq<Seq<char>>, k: nat) -> BoundScan
    decreases k,
{
    if k == 0 {
        BoundScan {
            subs: Seq::empty(),
            current: None,
            centroid: zeros(),
            first_centroid: true,
            materials: Seq::empty(),
            in_mtl: false,
            mtl_conveyor: false,
            mtl_speed: seq!['0'],
        }
    } else {
        bound_line(bound_upto(ls, (k - 1) as nat), ls[k - 1])
    }
}

/// The bounds of a `.bnd` text and its centroid.
pub open spec fn spec_parse_bound(content: Seq<char>) -> (Seq<SubModel>, Seq<Seq<char>>) {
    let ls = spec_lines(content);
    let st = bound_upto(ls, ls.len());
    (
        match st.current {
            Some(s) => st.subs.push(s),
            None => st.subs,
        },
        st.centroid,
    )
}

fn zero() -> (r: String)
    ensures
        r@ == seq!['0'],
{
    let z: [char; 1] = ['0'];
    assert(z@ =~= seq!['0']);
    string_from_chars(&z)
}

fn zeros3() -> (r: [String; 3])
    ensures
        t3(r) == zeros(),
{
    let r = [zero(), zero(), zero()];
    assert(t3(r) =~= zeros());
    r
}

fn new_sub() -> (s: Oni2SubBound)
    ensures
        sub_model(s) == sub_default(),
{
    let s = Oni2SubBound {
        bound_type: None,
        material_type: None,
        vertices: Vec::new(),
        centroid: zeros3(),
        edges: Vec::new(),
        quads: Vec::new(),
        tris: Vec::new(),
        conveyor_speeds: Vec::new(),
    };
    assert(sub_model(s).vertices =~= Seq::<Seq<Seq<char>>>::empty());
    assert(sub_model(s).edges =~= Seq::<Seq<u32>>::empty());
    assert(sub_model(s).quads =~= Seq::<Seq<u32>>::empty());
    assert(sub_model(s).tris =~= Seq::<Seq<u32>>::empty());
    assert(sub_model(s).conveyor_speeds =~= Seq::<Seq<char>>::empty());
    s
}

fn fz_of(t: &Vec<char>) -> (r: String)
    ensures
        r@ == fz(t@),
{
    if float_text(t.as_slice()) {
        string_from_chars(t.as_slice())
    } else {
        zero()
    }
}

fn uz_of(t: &Vec<char>) -> (r: u32)
    ensures
        r == uz(t@),
{
    match parse_u32(t.as_slice()) {
        Some(v) => v,
        None => 0,
    }
}

fn xyz(ws: &Vec<Vec<char>>) -> (r: [String; 3])
    requires
        ws@.len() >= 4,
    ensures
        t3(r) == seq![
            fz(ws@[1]@),
            fz(ws@[2]@),
            fz(ws@[3]@),
        ],
{
    let r = [fz_of(&ws[1]), fz_of(&ws[2]), fz_of(&ws[3])];
    assert(t3(r) =~= seq![fz(ws@[1]@), fz(ws@[2]@), fz(ws@[3]@)]);
    r
}

/// The speed a polygon with material text `m` records.
fn speed_of(mats: &Vec<Option<String>>, m: Option<&Vec<char>>) -> (r: Option<String>)
    ensures
        ov(r) == poly_speed(
            mats@.map_values(|o: Option<String>| ov(o)),
            match m {
                Some(t) => Some(t@),
                None => None,
            },
        ),
{
    match m {
        Some(t) => match parse_usize(t.as_slice()) {
            Some(i) => if i < mats.len() {
                assert(mats@.map_values(|o: Option<String>| ov(o))[i as int] == ov(mats@[i as int]));
                mats[i].clone()
            } else {
                None
            },
            None => None,
        },
        None => None,
    }
}

fn push_speed(s: &mut Vec<String>, v: Option<String>)
    ensures
        final(s)@.map_values(|t: String| t@) == add_speed(old(s)@.map_values(|t: String| t@), ov(v)),
{
    let ghost b = s@.map_values(|t: String| t@);
    match v {
        Some(x) => {
            let ghost xv = x@;
            s.push(x);
            assert(s@.map_values(|t: String| t@) =~= b.push(xv));
        },
        None => {},
    }
}

/// Reads a `.bnd` text (see the module documentation).
pub fn parse_bound(content: &str) -> (r: Oni2Bound)
    ensures
        (subs_model(r.sub_bounds@), t3(r.centroid)) == spec_parse_bound(content@),
{
    let chars = chars_of(content);
    let ls = lines(chars.as_slice());
    let ghost lv = ls@.map_values(|l: Vec<char>| l@);
    assert(lv =~= spec_lines(content@));
    let mut subs: Vec<Oni2SubBound> = Vec::new();
    let mut current: Option<Oni2SubBound> = None;
    let mut centroid = zeros3();
    let mut first_centroid = true;
    let mut materials: Vec<Option<String>> = Vec::new();
    let mut in_mtl = false;
    let mut mtl_conveyor = false;
    let mut mtl_speed = zero();
    let p_conv = chars_of("Conveyor:");
    let p_speed = chars_of("ConveyorSpeed:");
    let p_mtl = chars_of("mtl ");
    let p_type = chars_of("type:");
    let p_bound = chars_of("bound:");
    let p_v = chars_of("v ");
    let p_centroid = chars_of("centroid:");
    let p_edge = chars_of("edge ");
    let p_quad = chars_of("quad ");
    let p_tri = chars_of("tri ");
    proof {
        reveal_strlit("Conveyor:");
        reveal_strlit("ConveyorSpeed:");
        reveal_strlit("type:");
    }
    assert(subs_model(subs@) =~= Seq::<SubModel>::empty());
    assert(materials@.map_values(|o: Option<String>| ov(o)) =~= Seq::<Option<Seq<char>>>::empty());
    let mut k: usize = 0;
    while k < ls.len()
        invariant
            k <= ls@.len(),
            lv == ls@.map_values(|l: Vec<char>| l@),
            p_conv@ == "Conveyor:"@,
            "Conveyor:"@.len() == 9,
            p_speed@ == "ConveyorSpeed:"@,
            "ConveyorSpeed:"@.len() == 14,
            p_mtl@ == "mtl "@,
            p_type@ == "type:"@,
            "type:"@.len() == 5,
            p_bound@ == "bound:"@,
            p_v@ == "v "@,
            p_centroid@ == "centroid:"@,
            p_edge@ == "edge "@,
            p_quad@ == "quad "@,
            p_tri@ == "tri "@,
            ({
                let st = bound_upto(lv, k as nat);
                &&& subs_model(subs@) == st.subs
                &&& match current {
                    Some(s) => st.current == Some(sub_model(s)),
                    None => st.current is None,
                }
                &&& t3(centroid) == st.centroid
                &&& first_centroid == st.first_centroid
                &&& materials@.map_values(|o: Option<String>| ov(o)) == st.materials
                &&& in_mtl == st.in_mtl
                &&& mtl_conveyor == st.mtl_conveyor
                &&& mtl_speed@ == st.mtl_speed
            }),
        decreases ls@.len() - k,
    {
        assert(lv[k as int] == ls@[k as int]@);
        let t = trim(ls[k].as_slice());
        let ws = split_whitespace(t.as_slice());
        let ghost wv = ws@.map_values(|w: Vec<char>| w@);
        assert(wv =~= spec_words(t@));
        assert(forall|i: int| 0 <= i < ws@.len() ==> wv[i] == #[trigger] ws@[i]@);
        if in_mtl {
            if t.len() > 0 && t[0] == '}' {
                let m = if mtl_conveyor {
                    Some(mtl_speed.clone())
                } else {
                    None
                };
                let ghost b = materials@.map_values(|o: Option<String>| ov(o));
                materials.push(m);
                assert(materials@.map_values(|o: Option<String>| ov(o)) =~= b.push(ov(m)));
                in_mtl = false;
            } else if starts_with(t.as_slice(), p_conv.as_slice()) {
                let rest = copy_range(t.as_slice(), 9, t.len());
                assert(rest@ =~= t@.skip(9));
                mtl_conveyor = match parse_i32(trim(rest.as_slice()).as_slice()) {
                    Some(v) => v != 0,
                    None => false,
                };
            } else if starts_with(t.as_slice(), p_speed.as_slice()) {
                let rest = copy_range(t.as_slice(), 14, t.len());
                assert(rest@ =~= t@.skip(14));
                mtl_speed = fz_of(&trim(rest.as_slice()));
            }
        } else if starts_with(t.as_slice(), p_mtl.as_slice()) {
            in_mtl = true;
            mtl_conveyor = false;
            mtl_speed = zero();
        } else if starts_with(t.as_slice(), p_type.as_slice()) {
            let rest = copy_range(t.as_slice(), 5, t.len());
            assert(rest@ =~= t@.skip(5));
            let ty = string_from_chars(trim(before_first_char(rest.as_slice(), ':').as_slice()).as_slice());
            let mut s = match current.take() {
                Some(s) => s,
                None => new_sub(),
            };
            if s.bound_type.is_none() {
                s.bound_type = Some(ty);
            } else if s.material_type.is_none() {
                s.material_type = Some(ty);
            }
            current = Some(s);
        } else if starts_with(t.as_slice(), p_bound.as_slice()) {
            match current.take() {
                Some(s) => {
                    let ghost b = subs_model(subs@);
                    subs.push(s);
                    assert(subs_model(subs@) =~= b.push(sub_model(s)));
                },
                None => {},
            }
            current = Some(new_sub());
            materials = Vec::new();
            assert(materials@.map_values(|o: Option<String>| ov(o)) =~= Seq::<
                Option<Seq<char>>,
            >::empty());
        } else if starts_with(t.as_slice(), p_v.as_slice()) {
            if ws.len() >= 4 {
                let v = xyz(&ws);
                let mut s = match current.take() {
                    Some(s) => s,
                    None => new_sub(),
                };
                let ghost b = sub_model(s).vertices;
                s.vertices.push(v);
                assert(sub_model(s).vertices =~= b.push(t3(v)));
                current = Some(s);
            }
        } else if starts_with(t.as_slice(), p_centroid.as_slice()) {
            if ws.len() >= 4 {
                if first_centroid {
                    centroid = xyz(&ws);
                    first_centroid = false;
                }
                match current.as_mut() {
                    Some(s) => {
                        s.centroid = xyz(&ws);
                    },
                    None => {},
                }
            }
        } else if starts_with(t.as_slice(), p_edge.as_slice()) {
            if ws.len() >= 3 {
                let e: [u32; 2] = [uz_of(&ws[1]), uz_of(&ws[2])];
                let mut s = match current.take() {
                    Some(s) => s,
                    None => new_sub(),
                };
                let ghost b = sub_model(s).edges;
                s.edges.push(e);
                assert(e@ =~= seq![uz(wv[1]), uz(wv[2])]);
                assert(sub_model(s).edges =~= b.push(e@));
                current = Some(s);
            }
        } else if starts_with(t.as_slice(), p_quad.as_slice()) {
            if ws.len() >= 5 {
                let q: [u32; 4] = [uz_of(&ws[1]), uz_of(&ws[2]), uz_of(&ws[3]), uz_of(&ws[4])];
                let sp = if ws.len() > 5 {
                    speed_of(&materials, Some(&ws[5]))
                } else {
                    speed_of(&materials, None)
                };
                let mut s = match current.take() {
                    Some(s) => s,
                    None => new_sub(),
                };
                let ghost b = sub_model(s).quads;
                s.quads.push(q);
                assert(q@ =~= seq![uz(wv[1]), uz(wv[2]), uz(wv[3]), uz(wv[4])]);
                assert(sub_model(s).quads =~= b.push(q@));
                push_speed(&mut s.conveyor_speeds, sp);
                current = Some(s);
            }
        } else if starts_with(t.as_slice(), p_tri.as_slice()) {
            if ws.len() >= 4 {
                let tr: [u32; 3] = [uz_of(&ws[1]), uz_of(&ws[2]), uz_of(&ws[3])];
                let sp = if ws.len() > 4 {
                    speed_of(&materials, Some(&ws[4]))
                } else {
                    speed_of(&materials, None)
                };
                let mut s = match current.take() {
                    Some(s) => s,
                    None => new_sub(),
                };
                let ghost b = sub_model(s).tris;
                s.tris.push(tr);
                assert(tr@ =~= seq![uz(wv[1]), uz(wv[2]), uz(wv[3])]);
                assert(sub_model(s).tris =~= b.push(tr@));
                push_speed(&mut s.conveyor_speeds, sp);
                current = Some(s);
            }
        }
        k = k + 1;
    }
    match current {
        Some(s) => {
            let ghost b = subs_model(subs@);
            subs.push(s);
            assert(subs_model(subs@) =~= b.push(sub_model(s)));
        },
        None => {},
    }
    Oni2Bound { sub_bounds: subs, centroid }
}

} // verus!
