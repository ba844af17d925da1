//! Effect meshes (`.mesh`).
//!
//! A mesh text starts with `{` and holds sections `<Name> <count> {`:
//! `Pos`, `Nrm` (3 floats a row), `Cpv` (4), `Tex0` and `Tex1` (2), `Adj`
//! (adjuncts of four `P`/`N`/`C0`/`T0 <index>` lines) and `Mtl` (material
//! blocks with `Name`, `Prim` and `Idx <k> { i0 i1 ... }` strips).  Other
//! lines are skipped.  Floats are kept as their text (`"0"` when they do
//! not parse); every material becomes one packet over all adjuncts.  The
//! model is unskinned: one bone at the origin with the identity rotation.
use crate::model_text::{texts, Oni2TextMaterial, TextMaterialView};
use crate::text::{
    chars_of, float_text, is_float_text, lines, parse_i64, parse_u32, parse_usize, spec_lines,
    spec_parse_i64, spec_parse_unsigned, spec_trim, spec_words, split_whitespace, str_is,
    string_from_chars, trim, trim_quote_chars, trim_quotes,
};
use crate::types::{Oni2Adjunct, Oni2Packet, PacketView};
use vstd::prelude::*;

verus! {

/// A mesh: attribute rows as float texts, materials and packets, and its
/// one bone.
pub struct Oni2MeshModel {
    pub vertices: Vec<[String; 3]>,
    pub normals: Vec<[String; 3]>,
    pub colors: Vec<[String; 4]>,
    pub tex_coords: Vec<[String; 2]>,
    pub materials: Vec<Oni2TextMaterial>,
    pub packets: Vec<Oni2Packet>,
    pub bone_world_positions: Vec<[String; 3]>,
    pub bone_rotations: Vec<[String; 4]>,
    /// Meshes are in bone-local space: always false.
    pub world_space_verts: bool,
}

/// The trimmed lines of a text.
pub open spec fn trimmed_lines(content: Seq<char>) -> Seq<Seq<char>> {
    spec_lines(content).map_values(|l: Seq<char>| spec_trim(l))
}

pub open spec fn fz(t: Seq<char>) -> Seq<char> {
    if is_float_text(t) {
        t
    } else {
        seq!['0']
    }
}

pub open spec fn is_line(t: Seq<char>, c: char) -> bool {
    t == seq![c]
}

/// The first line from `i` that is not blank.
pub open spec fn skip_blank(ts: Seq<Seq<char>>, i: int) -> int
    decreases ts.len() - i,
{
    if i < 0 || i >= ts.len() || ts[i].len() > 0 {
        i
    } else {
        skip_blank(ts, i + 1)
    }
}

/// The line after the next `}` line from `i` (or the end).
pub open spec fn drain(ts: Seq<Seq<char>>, i: int) -> int
    decreases ts.len() - i,
{
    if i < 0 || i >= ts.len() {
        i
    } else if is_line(ts[i], '}') {
        i + 1
    } else {
        drain(ts, i + 1)
    }
}

/// The first `fields` values of a row.
pub open spec fn row_of(parts: Seq<Seq<char>>, fields: int) -> Seq<Seq<char>> {
    Seq::new(fields as nat, |k: int| fz(parts[k]))
}

/// Rows of `fields` floats from line `i`, up to `count` rows or a `}`
/// line; lines with fewer values are skipped.
pub open spec fn rows_from(ts: Seq<Seq<char>>, i: int, count: int, fields: int, rows: Seq<
    Seq<Seq<char>>,
>) -> (int, Seq<Seq<Seq<char>>>)
    decreases ts.len() - i,
{
    if i < 0 || i >= ts.len() || rows.len() >= count {
        (drain(ts, i), rows)
    } else if is_line(ts[i], '}') {
        (i + 1, rows)
    } else {
        let parts = spec_words(ts[i]);
        rows_from(
            ts,
            i + 1,
            count,
            fields,
            if parts.len() >= fields {
                rows.push(row_of(parts, fields))
            } else {
                rows
            },
        )
    }
}

pub open spec fn read_rows(ts: Seq<Seq<char>>, start: int, count: int, fields: int) -> (
    int,
    Seq<Seq<Seq<char>>>,
) {
    rows_from(ts, skip_blank(ts, start), count, fields, Seq::empty())
}

/// The vertex, normal, colour and texture indices of one adjunct.
pub struct AdjFields {
    pub p: u32,
    pub n: u32,
    pub c: u32,
    pub t: i32,
}

/// Up to four attribute lines from `i` (blank, `}` and one-word lines do
/// not count).
pub open spec fn adj_fill(ts: Seq<Seq<char>>, i: int, filled: int, a: AdjFields) -> (int, AdjFields)
    decreases ts.len() - i,
{
    if i < 0 || i >= ts.len() || filled >= 4 {
        (i, a)
    } else if is_line(ts[i], '}') || ts[i].len() == 0 || spec_words(ts[i]).len() < 2 {
        adj_fill(ts, i + 1, filled, a)
    } else {
        let parts = spec_words(ts[i]);
        let v: i64 = match spec_parse_i64(parts[1]) {
            Some(x) => x,
            None => 0,
        };
        let a2 = if parts[0] == "P"@ {
            AdjFields { p: v as u32, ..a }
        } else if parts[0] == "N"@ {
            AdjFields { n: v as u32, ..a }
        } else if parts[0] == "C0"@ {
            AdjFields { c: v as u32, ..a }
        } else if parts[0] == "T0"@ {
            AdjFields { t: v as i32, ..a }
        } else {
            a
        };
        adj_fill(ts, i + 1, filled + 1, a2)
    }
}

pub open spec fn adj_of(a: AdjFields) -> Oni2Adjunct {
    Oni2Adjunct { vertex_idx: a.p, normal_idx: a.n, color_idx: a.c, tex1_idx: a.t, bone_idx: 0 }
}

/// The first word of an adjunct line.
pub open spec fn line_head(l: Seq<char>) -> Seq<char> {
    spec_words(l)[0]
}

/// The number on an adjunct line (0 when it is not one).
pub open spec fn line_number(l: Seq<char>) -> i64 {
    match spec_parse_i64(spec_words(l)[1]) {
        Some(x) => x,
        None => 0,
    }
}

/// A line that counts as one of an adjunct's four attribute lines.
pub open spec fn attribute_line(l: Seq<char>) -> bool {
    !is_line(l, '}') && l.len() > 0 && spec_words(l).len() >= 2
}

/// In an adjunct block of four attribute lines headed `P`, `N`, `C0` and
/// `T0`, in whatever order, each line's number goes to its own field: `P`
/// to the vertex, `N` to the normal, `C0` to the colour and `T0` to the
/// texture coordinate, whatever the other lines hold.
pub proof fn lemma_adjunct_lines(
    ts: Seq<Seq<char>>,
    i: int,
    a: AdjFields,
    kp: int,
    kn: int,
    kc: int,
    kt: int,
)
    requires
        0 <= i,
        i + 4 <= ts.len(),
        forall|k: int| 0 <= k < 4 ==> attribute_line(#[trigger] ts[i + k]),
        0 <= kp < 4,
        0 <= kn < 4,
        0 <= kc < 4,
        0 <= kt < 4,
        kp != kn && kp != kc && kp != kt && kn != kc && kn != kt && kc != kt,
        line_head(ts[i + kp]) == "P"@,
        line_head(ts[i + kn]) == "N"@,
        line_head(ts[i + kc]) == "C0"@,
        line_head(ts[i + kt]) == "T0"@,
    ensures
        ({
            let r = adj_of(adj_fill(ts, i, 0, a).1);
            &&& r.vertex_idx == line_number(ts[i + kp]) as u32
            &&& r.normal_idx == line_number(ts[i + kn]) as u32
            &&& r.color_idx == line_number(ts[i + kc]) as u32
            &&& r.tex1_idx == line_number(ts[i + kt]) as i32
        }),
{
    reveal_strlit("P");
    reveal_strlit("N");
    reveal_strlit("C0");
    reveal_strlit("T0");
    assert(attribute_line(ts[i + 0]) && attribute_line(ts[i + 1]) && attribute_line(ts[i + 2])
        && attribute_line(ts[i + 3]));
    let h0 = line_head(ts[i]);
    let h1 = line_head(ts[i + 1]);
    let h2 = line_head(ts[i + 2]);
    let h3 = line_head(ts[i + 3]);
    let a1 = adj_fill(ts, i + 1, 1, adj_fill_step(a, ts[i])).1;
    assert(adj_fill(ts, i, 0, a) == adj_fill(ts, i + 1, 1, adj_fill_step(a, ts[i])));
    let b1 = adj_fill_step(a, ts[i]);
    let b2 = adj_fill_step(b1, ts[i + 1]);
    let b3 = adj_fill_step(b2, ts[i + 2]);
    let b4 = adj_fill_step(b3, ts[i + 3]);
    assert(adj_fill(ts, i + 1, 1, b1) == adj_fill(ts, i + 2, 2, b2));
    assert(adj_fill(ts, i + 2, 2, b2) == adj_fill(ts, i + 3, 3, b3));
    assert(adj_fill(ts, i + 3, 3, b3) == adj_fill(ts, i + 4, 4, b4));
    assert(adj_fill(ts, i + 4, 4, b4) == (i + 4, b4));
    assert("P"@ != "N"@ && "P"@ != "C0"@ && "P"@ != "T0"@ && "N"@ != "C0"@ && "N"@ != "T0"@ && "C0"@
        != "T0"@) by {
        assert("P"@[0] != "N"@[0]);
        assert("C0"@.len() != "N"@.len());
        assert("C0"@.len() != "P"@.len());
        assert("T0"@.len() != "N"@.len());
        assert("T0"@.len() != "P"@.len());
        assert("C0"@[0] != "T0"@[0]);
    }
    let hd = |j: int|
        if j == kp {
            "P"@
        } else if j == kn {
            "N"@
        } else if j == kc {
            "C0"@
        } else {
            "T0"@
        };
    assert(h0 == hd(0) && h1 == hd(1) && h2 == hd(2) && h3 == hd(3));
    assert(b4.p == line_number(ts[i + kp]) as u32);
    assert(b4.n == line_number(ts[i + kn]) as u32);
    assert(b4.c == line_number(ts[i + kc]) as u32);
    assert(b4.t == line_number(ts[i + kt]) as i32);
}

/// One attribute line applied to an adjunct's fields.
pub open spec fn adj_fill_step(a: AdjFields, l: Seq<char>) -> AdjFields {
    let parts = spec_words(l);
    let v: i64 = match spec_parse_i64(parts[1]) {
        Some(x) => x,
        None => 0,
    };
    if parts[0] == "P"@ {
        AdjFields { p: v as u32, ..a }
    } else if parts[0] == "N"@ {
        AdjFields { n: v as u32, ..a }
    } else if parts[0] == "C0"@ {
        AdjFields { c: v as u32, ..a }
    } else if parts[0] == "T0"@ {
        AdjFields { t: v as i32, ..a }
    } else {
        a
    }
}

/// Up to `count` adjuncts from line `i`, then past the closing `}`.
pub open spec fn adjs_from(ts: Seq<Seq<char>>, i: int, count: int, adjs: Seq<Oni2Adjunct>) -> (
    int,
    Seq<Oni2Adjunct>,
)
    decreases ts.len() - i,
{
    if i < 0 || i >= ts.len() || adjs.len() >= count {
        (drain(ts, i), adjs)
    } else {
        let (j, a) = adj_fill(ts, i, 0, AdjFields { p: 0, n: 0, c: 0, t: -1i32 });
        if i < j <= ts.len() {
            adjs_from(ts, j, count, adjs.push(adj_of(a)))
        } else {
            (drain(ts, j), adjs.push(adj_of(a)))
        }
    }
}

pub open spec fn u32_of(t: Seq<char>) -> Option<u32> {
    match spec_parse_unsigned(t, u32::MAX as int) {
        Some(v) => Some(v as u32),
        None => None,
    }
}

/// Indices on an `Idx` line from word `k`: those after its `{`, up to a
/// `}`.
pub open spec fn idx_first(toks: Seq<Seq<char>>, k: int, started: bool, acc: Seq<u32>) -> Seq<u32>
    decreases toks.len() - k,
{
    if k < 0 || k >= toks.len() {
        acc
    } else if is_line(toks[k], '{') {
        idx_first(toks, k + 1, true, acc)
    } else if is_line(toks[k], '}') {
        acc
    } else {
        idx_first(
            toks,
            k + 1,
            started,
            if started && u32_of(toks[k]) is Some {
                acc.push(u32_of(toks[k])->Some_0)
            } else {
                acc
            },
        )
    }
}

/// The indices among the words of a line.
pub open spec fn word_u32s(ws: Seq<Seq<char>>, k: int, acc: Seq<u32>) -> Seq<u32>
    decreases ws.len() - k,
{
    if k < 0 || k >= ws.len() {
        acc
    } else {
        word_u32s(
            ws,
            k + 1,
            if !is_line(ws[k], '{') && !is_line(ws[k], '}') && u32_of(ws[k]) is Some {
                acc.push(u32_of(ws[k])->Some_0)
            } else {
                acc
            },
        )
    }
}

/// Indices on the lines from `i`, until `count` are read or a `}` line.
pub open spec fn idx_more(ts: Seq<Seq<char>>, i: int, count: int, acc: Seq<u32>) -> (int, Seq<u32>)
    decreases ts.len() - i,
{
    if i < 0 || i >= ts.len() || acc.len() >= count || is_line(ts[i], '}') {
        (i, acc)
    } else {
        idx_more(ts, i + 1, count, word_u32s(spec_words(ts[i]), 0, acc))
    }
}

/// What a material body has given.
pub struct MatBody {
    pub name: Seq<char>,
    pub prim: u32,
    pub strips: Seq<Seq<u32>>,
    pub depth: int,
}

/// The `Idx` strip at line `i`: the strip and the line after it.
pub open spec fn idx_at(ts: Seq<Seq<char>>, i: int) -> (int, Seq<u32>) {
    let toks = spec_words(ts[i]);
    let n: int = if toks.len() > 1 {
        match spec_parse_unsigned(toks[1], usize::MAX as int) {
            Some(v) => v,
            None => 0,
        }
    } else {
        0
    };
    let (j, a) = idx_more(ts, i + 1, n, idx_first(toks, 2, false, Seq::empty()));
    (
        if 0 <= j < ts.len() && is_line(ts[j], '}') {
            j + 1
        } else {
            j
        },
        a,
    )
}

/// A material body from line `i` up to its closing `}`.
pub open spec fn body_from(ts: Seq<Seq<char>>, i: int, st: MatBody) -> (int, MatBody)
    decreases ts.len() - i,
{
    if i < 0 || i >= ts.len() {
        (i, st)
    } else {
        let t = ts[i];
        let toks = spec_words(t);
        if is_line(t, '}') {
            if st.depth == 0 {
                (i + 1, st)
            } else {
                body_from(ts, i + 1, MatBody { depth: st.depth - 1, ..st })
            }
        } else if is_line(t, '{') {
            body_from(ts, i + 1, MatBody { depth: st.depth + 1, ..st })
        } else if toks.len() == 0 {
            body_from(ts, i + 1, st)
        } else if toks[0] == "Name"@ {
            body_from(
                ts,
                i + 1,
                if toks.len() > 1 {
                    MatBody { name: trim_quotes(toks[1]), ..st }
                } else {
                    st
                },
            )
        } else if toks[0] == "Prim"@ {
            let prim: u32 = if toks.len() > 1 {
                match u32_of(toks[1]) {
                    Some(v) => v,
                    None => 0,
                }
            } else {
                0
            };
            let j = if !is_line(toks[toks.len() - 1], '{') && i + 1 < ts.len() && is_line(
                ts[i + 1],
                '{',
            ) {
                i + 1
            } else {
                i
            };
            body_from(ts, j + 1, MatBody { prim, depth: st.depth + 1, ..st })
        } else if toks[0] == "Idx"@ {
            let (j, a) = idx_at(ts, i);
            let nx = if i < j <= ts.len() {
                j
            } else {
                i + 1
            };
            body_from(ts, nx, MatBody { strips: st.strips.push(a), ..st })
        } else {
            body_from(ts, i + 1, st)
        }
    }
}

/// The material a body gives.
pub open spec fn mat_of(b: MatBody) -> TextMaterialView {
    TextMaterialView {
        name: b.name,
        diffuse: seq![seq!['1'], seq!['1'], seq!['1']],
        texture_name: None,
        primitive_count: b.prim,
        packet_count: 1,
        passes: Seq::empty(),
    }
}

/// The packet of material `idx` over `adjs`.
pub open spec fn packet_of(b: MatBody, adjs: Seq<Oni2Adjunct>, idx: int) -> PacketView {
    PacketView {
        adjuncts: adjs,
        strips: b.strips,
        strip_types: Seq::new(b.strips.len(), |k: int| 1u32),
        material_index: idx as usize,
        bone_map: Seq::empty(),
    }
}

/// Up to `count` materials from line `i`, each `{ body }`; a `}` line
/// ends them.
pub open spec fn mats_from(
    ts: Seq<Seq<char>>,
    i: int,
    count: int,
    adjs: Seq<Oni2Adjunct>,
    mats: Seq<TextMaterialView>,
    pks: Seq<PacketView>,
) -> (int, Seq<TextMaterialView>, Seq<PacketView>)
    decreases ts.len() - i,
{
    if i < 0 || i >= ts.len() || mats.len() >= count {
        (i, mats, pks)
    } else if is_line(ts[i], '}') {
        (i + 1, mats, pks)
    } else if is_line(ts[i], '{') {
        let (j, b) = body_from(ts, i + 1, MatBody { name: Seq::empty(), prim: 0, strips: Seq::empty(), depth: 0 });
        let nx = if i < j <= ts.len() {
            j
        } else {
            i + 1
        };
        mats_from(ts, nx, count, adjs, mats.push(mat_of(b)), pks.push(packet_of(b, adjs, mats.len() as int)))
    } else {
        mats_from(ts, i + 1, count, adjs, mats, pks)
    }
}

/// What the sections have given.
pub struct MeshScan {
    pub vertices: Seq<Seq<Seq<char>>>,
    pub normals: Seq<Seq<Seq<char>>>,
    pub colors: Seq<Seq<Seq<char>>>,
    pub tex_coords: Seq<Seq<Seq<char>>>,
    pub adjuncts: Seq<Oni2Adjunct>,
    pub materials: Seq<TextMaterialView>,
    pub packets: Seq<PacketView>,
}

pub open spec fn clamp_next(ts: Seq<Seq<char>>, i: int, j: int) -> int {
    if i < j <= ts.len() {
        j
    } else {
        i + 1
    }
}

/// The sections from line `i` on.
pub open spec fn mesh_from(ts: Seq<Seq<char>>, i: int, st: MeshScan) -> MeshScan
    decreases ts.len() - i,
{
    if i < 0 || i >= ts.len() {
        st
    } else {
        let toks = spec_words(ts[i]);
        if toks.len() == 0 || is_line(toks[0], '{') || is_line(toks[0], '}') {
            mesh_from(ts, i + 1, st)
        } else {
            let count: int = if toks.len() > 1 {
                match spec_parse_unsigned(toks[1], usize::MAX as int) {
                    Some(v) => v,
                    None => 0,
                }
            } else {
                0
            };
            let sec = toks[0];
            if sec == "Pos"@ {
                let (j, rows) = read_rows(ts, i + 1, count, 3);
                mesh_from(ts, clamp_next(ts, i, j), MeshScan { vertices: st.vertices + rows, ..st })
            } else if sec == "Nrm"@ {
                let (j, rows) = read_rows(ts, i + 1, count, 3);
                mesh_from(ts, clamp_next(ts, i, j), MeshScan { normals: st.normals + rows, ..st })
            } else if sec == "Cpv"@ {
                let (j, rows) = read_rows(ts, i + 1, count, 4);
                mesh_from(ts, clamp_next(ts, i, j), MeshScan { colors: st.colors + rows, ..st })
            } else if sec == "Tex0"@ {
                let (j, rows) = read_rows(ts, i + 1, count, 2);
                mesh_from(
                    ts,
                    clamp_next(ts, i, j),
                    MeshScan { tex_coords: st.tex_coords + rows, ..st },
                )
            } else if sec == "Tex1"@ {
                if count > 0 {
                    let (j, rows) = read_rows(ts, i + 1, count, 2);
                    mesh_from(ts, clamp_next(ts, i, j), st)
                } else {
                    mesh_from(ts, i + 1, st)
                }
            } else if sec == "Adj"@ {
                let (j, a) = adjs_from(ts, skip_blank(ts, i + 1), count, Seq::empty());
                mesh_from(ts, clamp_next(ts, i, j), MeshScan { adjuncts: a, ..st })
            } else if sec == "Mtl"@ {
                let (j, m, p) = mats_from(
                    ts,
                    skip_blank(ts, i + 1),
                    count,
                    st.adjuncts,
                    Seq::empty(),
                    Seq::empty(),
                );
                mesh_from(ts, clamp_next(ts, i, j), MeshScan { materials: m, packets: p, ..st })
            } else {
                mesh_from(ts, i + 1, st)
            }
        }
    }
}

/// A mesh text: `None` unless its first character that is not white space
/// is `{`.
pub open spec fn spec_parse_mesh(content: Seq<char>) -> Option<MeshScan> {
    let s = spec_trim(content);
    if s.len() > 0 && s[0] == '{' {
        Some(
            mesh_from(
                trimmed_lines(content),
                0,
                MeshScan {
                    vertices: Seq::empty(),
                    normals: Seq::empty(),
                    colors: Seq::empty(),
                    tex_coords: Seq::empty(),
                    adjuncts: Seq::empty(),
                    materials: Seq::empty(),
                    packets: Seq::empty(),
                },
            ),
        )
    } else {
        None
    }
}

// ---------------------------------------------------------------------
// Reading
// ---------------------------------------------------------------------

pub open spec fn lv(ts: Seq<Vec<char>>) -> Seq<Seq<char>> {
    ts.map_values(|l: Vec<char>| l@)
}

pub open spec fn rows_view(r: Seq<Vec<String>>) -> Seq<Seq<Seq<char>>> {
    r.map_values(|v: Vec<String>| v@.map_values(|t: String| t@))
}

fn is_brace_line(t: &Vec<char>, c: char) -> (r: bool)
    ensures
        r == is_line(t@, c),
{
    if t.len() == 1 && t[0] == c {
        assert(t@ =~= seq![c]);
        true
    } else {
        false
    }
}

fn skip_blank_exec(ts: &Vec<Vec<char>>, start: usize) -> (r: usize)
    requires
        start <= ts@.len(),
    ensures
        r == skip_blank(lv(ts@), start as int),
        start <= r <= ts@.len(),
{
    let mut i = start;
    while i < ts.len() && ts[i].len() == 0
        invariant
            start <= i <= ts@.len(),
            skip_blank(lv(ts@), start as int) == skip_blank(lv(ts@), i as int),
        decreases ts@.len() - i,
    {
        assert(lv(ts@)[i as int] == ts@[i as int]@);
        i = i + 1;
    }
    if i < ts.len() {
        assert(lv(ts@)[i as int] == ts@[i as int]@);
    }
    i
}

fn drain_exec(ts: &Vec<Vec<char>>, start: usize) -> (r: usize)
    requires
        start <= ts@.len(),
    ensures
        r == drain(lv(ts@), start as int),
        start <= r <= ts@.len(),
{
    let mut i = start;
    while i < ts.len()
        invariant
            start <= i <= ts@.len(),
            drain(lv(ts@), start as int) == drain(lv(ts@), i as int),
        decreases ts@.len() - i,
    {
        assert(lv(ts@)[i as int] == ts@[i as int]@);
        if is_brace_line(&ts[i], '}') {
            return i + 1;
        }
        i = i + 1;
    }
    i
}

fn fz_of(t: &Vec<char>) -> (r: String)
    ensures
        r@ == fz(t@),
{
    if float_text(t.as_slice()) {
        string_from_chars(t.as_slice())
    } else {
        let z: [char; 1] = ['0'];
        assert(z@ =~= seq!['0']);
        string_from_chars(&z)
    }
}

fn read_rows_exec(ts: &Vec<Vec<char>>, start: usize, count: usize, fields: usize) -> (r: (
    usize,
    Vec<Vec<String>>,
))
    requires
        start <= ts@.len(),
    ensures
        (r.0 as int, rows_view(r.1@)) == read_rows(lv(ts@), start as int, count as int, fields as int),
        start <= r.0 <= ts@.len(),
        forall|k: int| 0 <= k < r.1@.len() ==> (#[trigger] r.1@[k])@.len() == fields,
{
    let ghost tv = lv(ts@);
    let mut i = skip_blank_exec(ts, start);
    let mut rows: Vec<Vec<String>> = Vec::new();
    assert(rows_view(rows@) =~= Seq::<Seq<Seq<char>>>::empty());
    loop
        invariant_except_break
            start <= i <= ts@.len(),
            tv == lv(ts@),
            rows_from(tv, i as int, count as int, fields as int, rows_view(rows@)) == read_rows(
                tv,
                start as int,
                count as int,
                fields as int,
            ),
            forall|k: int| 0 <= k < rows@.len() ==> (#[trigger] rows@[k])@.len() == fields,
        ensures
            start <= i <= ts@.len(),
            (i as int, rows_view(rows@)) == read_rows(tv, start as int, count as int, fields as int),
            forall|k: int| 0 <= k < rows@.len() ==> (#[trigger] rows@[k])@.len() == fields,
        decreases ts@.len() - i,
    {
        if i >= ts.len() || rows.len() >= count {
            i = drain_exec(ts, i);
            break;
        }
        assert(tv[i as int] == ts@[i as int]@);
        if is_brace_line(&ts[i], '}') {
            i = i + 1;
            break;
        }
        let parts = split_whitespace(ts[i].as_slice());
        let ghost pv = parts@.map_values(|w: Vec<char>| w@);
        assert(pv =~= spec_words(tv[i as int]));
        if parts.len() >= fields {
            let mut row: Vec<String> = Vec::new();
            let mut k: usize = 0;
            while k < fields
                invariant
                    k <= fields <= parts@.len(),
                    pv == parts@.map_values(|w: Vec<char>| w@),
                    row@.len() == k,
                    forall|m: int| 0 <= m < k ==> (#[trigger] row@[m])@ == fz(pv[m]),
                decreases fields - k,
            {
                assert(pv[k as int] == parts@[k as int]@);
                row.push(fz_of(&parts[k]));
                k = k + 1;
            }
            let ghost before = rows_view(rows@);
            assert(row@.map_values(|t: String| t@) =~= row_of(pv, fields as int));
            rows.push(row);
            assert(rows_view(rows@) =~= before.push(row_of(pv, fields as int)));
        }
        i = i + 1;
    }
    (i, rows)
}

fn adj_fill_exec(ts: &Vec<Vec<char>>, start: usize) -> (r: (usize, Oni2Adjunct))
    requires
        start < ts@.len(),
    ensures
        ({
            let (j, a) = adj_fill(lv(ts@), start as int, 0, AdjFields { p: 0, n: 0, c: 0, t: -1i32 });
            r.0 == j && r.1 == adj_of(a)
        }),
        start < r.0 <= ts@.len(),
{
    let ghost tv = lv(ts@);
    let mut i = start;
    let mut filled: usize = 0;
    let mut p: u32 = 0;
    let mut n: u32 = 0;
    let mut c: u32 = 0;
    let mut t: i32 = -1;
    while i < ts.len() && filled < 4
        invariant
            start <= i <= ts@.len(),
            filled <= 4,
            tv == lv(ts@),
            i == start ==> filled == 0,
            adj_fill(tv, i as int, filled as int, AdjFields { p, n, c, t }) == adj_fill(
                tv,
                start as int,
                0,
                AdjFields { p: 0, n: 0, c: 0, t: -1i32 },
            ),
        decreases ts@.len() - i,
    {
        assert(tv[i as int] == ts@[i as int]@);
        let parts = split_whitespace(ts[i].as_slice());
        let ghost pv = parts@.map_values(|w: Vec<char>| w@);
        assert(pv =~= spec_words(tv[i as int]));
        if is_brace_line(&ts[i], '}') || ts[i].len() == 0 || parts.len() < 2 {
            i = i + 1;
            continue;
        }
        assert(pv[0] == parts@[0]@);
        assert(pv[1] == parts@[1]@);
        let v: i64 = match parse_i64(parts[1].as_slice()) {
            Some(x) => x,
            None => 0,
        };
        let key = string_from_chars(parts[0].as_slice());
        if str_is(key.as_str(), "P") {
            p = v as u32;
        } else if str_is(key.as_str(), "N") {
            n = v as u32;
        } else if str_is(key.as_str(), "C0") {
            c = v as u32;
        } else if str_is(key.as_str(), "T0") {
            t = v as i32;
        }
        filled = filled + 1;
        i = i + 1;
    }
    (i, Oni2Adjunct { vertex_idx: p, normal_idx: n, color_idx: c, tex1_idx: t, bone_idx: 0 })
}

fn read_adjs_exec(ts: &Vec<Vec<char>>, start: usize, count: usize) -> (r: (usize, Vec<Oni2Adjunct>))
    requires
        start <= ts@.len(),
    ensures
        (r.0 as int, r.1@) == adjs_from(lv(ts@), start as int, count as int, Seq::empty()),
        start <= r.0 <= ts@.len(),
{
    let ghost tv = lv(ts@);
    let mut i = start;
    let mut adjs: Vec<Oni2Adjunct> = Vec::new();
    loop
        invariant_except_break
            start <= i <= ts@.len(),
            tv == lv(ts@),
            adjs_from(tv, i as int, count as int, adjs@) == adjs_from(
                tv,
                start as int,
                count as int,
                Seq::empty(),
            ),
        ensures
            start <= i <= ts@.len(),
            (i as int, adjs@) == adjs_from(tv, start as int, count as int, Seq::empty()),
        decreases ts@.len() - i,
    {
        if i >= ts.len() || adjs.len() >= count {
            i = drain_exec(ts, i);
            break;
        }
        let (j, a) = adj_fill_exec(ts, i);
        adjs.push(a);
        i = j;
    }
    (i, adjs)
}

fn word_u32s_exec(ws: &Vec<Vec<char>>, acc: &mut Vec<u32>)
    ensures
        final(acc)@ == word_u32s(ws@.map_values(|w: Vec<char>| w@), 0, old(acc)@),
{
    let ghost wv = ws@.map_values(|w: Vec<char>| w@);
    let mut k: usize = 0;
    while k < ws.len()
        invariant
            k <= ws@.len(),
            wv == ws@.map_values(|w: Vec<char>| w@),
            word_u32s(wv, k as int, acc@) == word_u32s(wv, 0, old(acc)@),
        decreases ws@.len() - k,
    {
        assert(wv[k as int] == ws@[k as int]@);
        if !is_brace_line(&ws[k], '{') && !is_brace_line(&ws[k], '}') {
            match parse_u32(ws[k].as_slice()) {
                Some(v) => {
                    acc.push(v);
                },
                None => {},
            }
        }
        k = k + 1;
    }
}

fn idx_exec(ts: &Vec<Vec<char>>, i: usize) -> (r: (usize, Vec<u32>))
    requires
        i < ts@.len(),
    ensures
        (r.0 as int, r.1@) == idx_at(lv(ts@), i as int),
        i < r.0 <= ts@.len(),
{
    let ghost tv = lv(ts@);
    assert(tv[i as int] == ts@[i as int]@);
    let toks = split_whitespace(ts[i].as_slice());
    let ghost kv = toks@.map_values(|w: Vec<char>| w@);
    assert(kv =~= spec_words(tv[i as int]));
    let n: usize = if toks.len() > 1 {
        assert(kv[1] == toks@[1]@);
        match parse_usize(toks[1].as_slice()) {
            Some(v) => v,
            None => 0,
        }
    } else {
        0
    };
    let mut acc: Vec<u32> = Vec::new();
    let mut started = false;
    let mut k: usize = 2;
    loop
        invariant_except_break
            2 <= k,
            kv == toks@.map_values(|w: Vec<char>| w@),
            idx_first(kv, k as int, started, acc@) == idx_first(kv, 2, false, Seq::empty()),
        ensures
            acc@ == idx_first(kv, 2, false, Seq::empty()),
        decreases toks@.len() - k,
    {
        if k >= toks.len() {
            break;
        }
        assert(kv[k as int] == toks@[k as int]@);
        if is_brace_line(&toks[k], '{') {
            started = true;
        } else if is_brace_line(&toks[k], '}') {
            break;
        } else if started {
            match parse_u32(toks[k].as_slice()) {
                Some(v) => {
                    acc.push(v);
                },
                None => {},
            }
        }
        k = k + 1;
    }
    let ghost a0 = acc@;
    let tlen = ts.len();
    let mut j = i + 1;
    loop
        invariant_except_break
            i < j <= ts@.len(),
            tv == lv(ts@),
            idx_more(tv, j as int, n as int, acc@) == idx_more(tv, i + 1, n as int, a0),
        ensures
            i < j <= ts@.len(),
            (j as int, acc@) == idx_more(tv, i + 1, n as int, a0),
        decreases ts@.len() - j,
    {
        if j >= ts.len() || acc.len() >= n {
            break;
        }
        assert(tv[j as int] == ts@[j as int]@);
        if is_brace_line(&ts[j], '}') {
            break;
        }
        let ws = split_whitespace(ts[j].as_slice());
        assert(ws@.map_values(|w: Vec<char>| w@) =~= spec_words(tv[j as int]));
        word_u32s_exec(&ws, &mut acc);
        j = j + 1;
    }
    if j < ts.len() {
        assert(tv[j as int] == ts@[j as int]@);
    }
    if j < ts.len() && is_brace_line(&ts[j], '}') {
        j = j + 1;
    }
    (j, acc)
}

fn body_exec(ts: &Vec<Vec<char>>, start: usize) -> (r: (usize, String, u32, Vec<Vec<u32>>))
    requires
        start <= ts@.len(),
    ensures
        ({
            let (j, b) = body_from(
                lv(ts@),
                start as int,
                MatBody { name: Seq::empty(), prim: 0, strips: Seq::empty(), depth: 0 },
            );
            r.0 == j && r.1@ == b.name && r.2 == b.prim && r.3@.map_values(|s: Vec<u32>| s@)
                == b.strips
        }),
        start <= r.0 <= ts@.len(),
{
    let ghost tv = lv(ts@);
    let ghost init = MatBody { name: Seq::empty(), prim: 0, strips: Seq::empty(), depth: 0 };
    let mut i = start;
    let mut name: Vec<char> = Vec::new();
    let mut prim: u32 = 0;
    let mut strips: Vec<Vec<u32>> = Vec::new();
    let mut depth: usize = 0;
    assert(strips@.map_values(|s: Vec<u32>| s@) =~= Seq::<Seq<u32>>::empty());
    loop
        invariant_except_break
            start <= i <= ts@.len(),
            depth <= i,
            tv == lv(ts@),
            body_from(
                tv,
                i as int,
                MatBody {
                    name: name@,
                    prim,
                    strips: strips@.map_values(|s: Vec<u32>| s@),
                    depth: depth as int,
                },
            ) == body_from(tv, start as int, init),
        ensures
            start <= i <= ts@.len(),
            ({
                let (j, b) = body_from(tv, start as int, init);
                i == j && name@ == b.name && prim == b.prim && strips@.map_values(
                    |s: Vec<u32>| s@,
                ) == b.strips
            }),
        decreases ts@.len() - i,
    {
        if i >= ts.len() {
            break;
        }
        assert(tv[i as int] == ts@[i as int]@);
        let toks = split_whitespace(ts[i].as_slice());
        let ghost kv = toks@.map_values(|w: Vec<char>| w@);
        assert(kv =~= spec_words(tv[i as int]));
        if is_brace_line(&ts[i], '}') {
            if depth == 0 {
                i = i + 1;
                break;
            }
            depth = depth - 1;
            i = i + 1;
        } else if is_brace_line(&ts[i], '{') {
            depth = depth + 1;
            i = i + 1;
        } else if toks.len() == 0 {
            i = i + 1;
        } else {
            assert(kv[0] == toks@[0]@);
            let key = string_from_chars(toks[0].as_slice());
            if str_is(key.as_str(), "Name") {
                if toks.len() > 1 {
                    assert(kv[1] == toks@[1]@);
                    name = trim_quote_chars(toks[1].as_slice());
                }
                i = i + 1;
            } else if str_is(key.as_str(), "Prim") {
                prim = if toks.len() > 1 {
                    assert(kv[1] == toks@[1]@);
                    match parse_u32(toks[1].as_slice()) {
                        Some(v) => v,
                        None => 0,
                    }
                } else {
                    0
                };
                let last = toks.len() - 1;
                assert(kv[last as int] == toks@[last as int]@);
                if !is_brace_line(&toks[last], '{') && i + 1 < ts.len() {
                    assert(tv[i + 1] == ts@[i + 1]@);
                    if is_brace_line(&ts[i + 1], '{') {
                        i = i + 1;
                    }
                }
                depth = depth + 1;
                i = i + 1;
            } else if str_is(key.as_str(), "Idx") {
                let (j, a) = idx_exec(ts, i);
                let ghost before = strips@.map_values(|s: Vec<u32>| s@);
                strips.push(a);
                assert(strips@.map_values(|s: Vec<u32>| s@) =~= before.push(a@));
                i = j;
            } else {
                i = i + 1;
            }
        }
    }
    (i, string_from_chars(name.as_slice()), prim, strips)
}

fn ones(n: usize) -> (r: Vec<u32>)
    ensures
        r@ == Seq::new(n as nat, |k: int| 1u32),
{
    let mut r: Vec<u32> = Vec::new();
    let mut k: usize = 0;
    while k < n
        invariant
            k <= n,
            r@ == Seq::new(k as nat, |m: int| 1u32),
        decreases n - k,
    {
        r.push(1);
        k = k + 1;
        assert(r@ =~= Seq::new(k as nat, |m: int| 1u32));
    }
    r
}

fn copy_adjs(a: &Vec<Oni2Adjunct>) -> (r: Vec<Oni2Adjunct>)
    ensures
        r@ == a@,
{
    let mut r: Vec<Oni2Adjunct> = Vec::new();
    let mut k: usize = 0;
    while k < a.len()
        invariant
            k <= a@.len(),
            r@ == a@.take(k as int),
        decreases a@.len() - k,
    {
        r.push(a[k]);
        k = k + 1;
        assert(r@ =~= a@.take(k as int));
    }
    assert(a@.take(a@.len() as int) =~= a@);
    r
}

fn read_mats_exec(ts: &Vec<Vec<char>>, start: usize, count: usize, adjs: &Vec<Oni2Adjunct>) -> (r: (
    usize,
    Vec<Oni2TextMaterial>,
    Vec<Oni2Packet>,
))
    requires
        start <= ts@.len(),
    ensures
        (r.0 as int, r.1@.map_values(|m: Oni2TextMaterial| m@), r.2@.map_values(
            |p: Oni2Packet| p@,
        )) == mats_from(lv(ts@), start as int, count as int, adjs@, Seq::empty(), Seq::empty()),
        start <= r.0 <= ts@.len(),
{
    let ghost tv = lv(ts@);
    let mut i = start;
    let mut mats: Vec<Oni2TextMaterial> = Vec::new();
    let mut pks: Vec<Oni2Packet> = Vec::new();
    assert(mats@.map_values(|m: Oni2TextMaterial| m@) =~= Seq::<TextMaterialView>::empty());
    assert(pks@.map_values(|p: Oni2Packet| p@) =~= Seq::<PacketView>::empty());
    loop
        invariant_except_break
            start <= i <= ts@.len(),
            tv == lv(ts@),
            mats@.len() == pks@.len(),
            mats_from(
                tv,
                i as int,
                count as int,
                adjs@,
                mats@.map_values(|m: Oni2TextMaterial| m@),
                pks@.map_values(|p: Oni2Packet| p@),
            ) == mats_from(tv, start as int, count as int, adjs@, Seq::empty(), Seq::empty()),
        ensures
            start <= i <= ts@.len(),
            (i as int, mats@.map_values(|m: Oni2TextMaterial| m@), pks@.map_values(
                |p: Oni2Packet| p@,
            )) == mats_from(tv, start as int, count as int, adjs@, Seq::empty(), Seq::empty()),
        decreases ts@.len() - i,
    {
        if i >= ts.len() || mats.len() >= count {
            break;
        }
        assert(tv[i as int] == ts@[i as int]@);
        if is_brace_line(&ts[i], '}') {
            i = i + 1;
            break;
        }
        if is_brace_line(&ts[i], '{') {
            let (j, name, prim, strips) = body_exec(ts, i + 1);
            let idx = mats.len();
            let one = {
                let o: [char; 1] = ['1'];
                assert(o@ =~= seq!['1']);
                o
            };
            let diffuse = [
                string_from_chars(&one),
                string_from_chars(&one),
                string_from_chars(&one),
            ];
            let m = Oni2TextMaterial {
                name,
                diffuse,
                texture_name: None,
                primitive_count: prim,
                packet_count: 1,
                passes: Vec::new(),
            };
            assert(texts(m.diffuse) =~= seq![seq!['1'], seq!['1'], seq!['1']]);
            assert(m.passes@ =~= Seq::<crate::types::Oni2MaterialPass>::empty());
            let st = ones(strips.len());
            let pk = Oni2Packet {
                adjuncts: copy_adjs(adjs),
                strips,
                strip_types: st,
                material_index: idx,
                bone_map: Vec::new(),
            };
            assert(pk.bone_map@ =~= Seq::<u32>::empty());
            let ghost mb = mats@.map_values(|m: Oni2TextMaterial| m@);
            let ghost pb = pks@.map_values(|p: Oni2Packet| p@);
            mats.push(m);
            pks.push(pk);
            assert(mats@.map_values(|m: Oni2TextMaterial| m@) =~= mb.push(m@));
            assert(pks@.map_values(|p: Oni2Packet| p@) =~= pb.push(pk@));
            i = j;
        } else {
            i = i + 1;
        }
    }
    (i, mats, pks)
}

fn to_arrays3(rows: Vec<Vec<String>>, out: &mut Vec<[String; 3]>)
    requires
        forall|k: int| 0 <= k < rows@.len() ==> (#[trigger] rows@[k])@.len() == 3,
    ensures
        final(out)@.map_values(|a: [String; 3]| texts(a)) == old(out)@.map_values(
            |a: [String; 3]| texts(a),
        ) + rows_view(rows@),
{
    let ghost o0 = out@.map_values(|a: [String; 3]| texts(a));
    let ghost rv = rows_view(rows@);
    let mut rows = rows;
    let mut k: usize = 0;
    let n = rows.len();
    let ghost r0 = rows@;
    while k < n
        invariant
            k <= n,
            n == rows@.len(),
            rows@.len() == r0.len(),
            forall|m: int| k <= m < n ==> #[trigger] rows@[m] == r0[m],
            forall|m: int| 0 <= m < n ==> (#[trigger] r0[m])@.len() == 3,
            rv == rows_view(r0),
            out@.map_values(|a: [String; 3]| texts(a)) == o0 + rv.take(k as int),
        decreases n - k,
    {
        let mut row: Vec<String> = Vec::new();
        std::mem::swap(&mut row, &mut rows[k]);
        assert(row@ == r0[k as int]@);
        let c = row.pop().unwrap();
        let b = row.pop().unwrap();
        let a = row.pop().unwrap();
        let arr = [a, b, c];
        assert(texts(arr) =~= rv[k as int]);
        let ghost before = out@.map_values(|a: [String; 3]| texts(a));
        out.push(arr);
        assert(out@.map_values(|a: [String; 3]| texts(a)) =~= before.push(texts(arr)));
        assert(rv.take(k + 1) =~= rv.take(k as int).push(rv[k as int]));
        k = k + 1;
    }
    assert(rv.take(n as int) =~= rv);
}


fn to_arrays4(rows: Vec<Vec<String>>, out: &mut Vec<[String; 4]>)
    requires
        forall|k: int| 0 <= k < rows@.len() ==> (#[trigger] rows@[k])@.len() == 4,
    ensures
        final(out)@.map_values(|a: [String; 4]| texts(a)) == old(out)@.map_values(
            |a: [String; 4]| texts(a),
        ) + rows_view(rows@),
{
    let ghost o0 = out@.map_values(|a: [String; 4]| texts(a));
    let ghost rv = rows_view(rows@);
    let mut rows = rows;
    let mut k: usize = 0;
    let n = rows.len();
    let ghost r0 = rows@;
    while k < n
        invariant
            k <= n,
            n == rows@.len(),
            rows@.len() == r0.len(),
            forall|m: int| k <= m < n ==> #[trigger] rows@[m] == r0[m],
            forall|m: int| 0 <= m < n ==> (#[trigger] r0[m])@.len() == 4,
            rv == rows_view(r0),
            out@.map_values(|a: [String; 4]| texts(a)) == o0 + rv.take(k as int),
        decreases n - k,
    {
        let mut row: Vec<String> = Vec::new();
        std::mem::swap(&mut row, &mut rows[k]);
        assert(row@ == r0[k as int]@);
        let d = row.pop().unwrap();
        let c = row.pop().unwrap();
        let b = row.pop().unwrap();
        let a = row.pop().unwrap();
        let arr = [a, b, c, d];
        assert(texts(arr) =~= rv[k as int]);
        let ghost before = out@.map_values(|a: [String; 4]| texts(a));
        out.push(arr);
        assert(out@.map_values(|a: [String; 4]| texts(a)) =~= before.push(texts(arr)));
        assert(rv.take(k + 1) =~= rv.take(k as int).push(rv[k as int]));
        k = k + 1;
    }
    assert(rv.take(n as int) =~= rv);
}


fn to_arrays2(rows: Vec<Vec<String>>, out: &mut Vec<[String; 2]>)
    requires
        forall|k: int| 0 <= k < rows@.len() ==> (#[trigger] rows@[k])@.len() == 2,
    ensures
        final(out)@.map_values(|a: [String; 2]| texts(a)) == old(out)@.map_values(
            |a: [String; 2]| texts(a),
        ) + rows_view(rows@),
{
    let ghost o0 = out@.map_values(|a: [String; 2]| texts(a));
    let ghost rv = rows_view(rows@);
    let mut rows = rows;
    let mut k: usize = 0;
    let n = rows.len();
    let ghost r0 = rows@;
    while k < n
        invariant
            k <= n,
            n == rows@.len(),
            rows@.len() == r0.len(),
            forall|m: int| k <= m < n ==> #[trigger] rows@[m] == r0[m],
            forall|m: int| 0 <= m < n ==> (#[trigger] r0[m])@.len() == 2,
            rv == rows_view(r0),
            out@.map_values(|a: [String; 2]| texts(a)) == o0 + rv.take(k as int),
        decreases n - k,
    {
        let mut row: Vec<String> = Vec::new();
        std::mem::swap(&mut row, &mut rows[k]);
        assert(row@ == r0[k as int]@);
        let b = row.pop().unwrap();
        let a = row.pop().unwrap();
        let arr = [a, b];
        assert(texts(arr) =~= rv[k as int]);
        let ghost before = out@.map_values(|a: [String; 2]| texts(a));
        out.push(arr);
        assert(out@.map_values(|a: [String; 2]| texts(a)) =~= before.push(texts(arr)));
        assert(rv.take(k + 1) =~= rv.take(k as int).push(rv[k as int]));
        k = k + 1;
    }
    assert(rv.take(n as int) =~= rv);
}


/// The mesh a reading state describes (its last adjunct section only
/// feeds the packets).
pub open spec fn mesh_matches(m: Oni2MeshModel, st: MeshScan) -> bool {
    &&& m.vertices@.map_values(|x: [String; 3]| texts(x)) == st.vertices
    &&& m.normals@.map_values(|x: [String; 3]| texts(x)) == st.normals
    &&& m.colors@.map_values(|x: [String; 4]| texts(x)) == st.colors
    &&& m.tex_coords@.map_values(|x: [String; 2]| texts(x)) == st.tex_coords
    &&& m.materials@.map_values(|x: Oni2TextMaterial| x@) == st.materials
    &&& m.packets@.map_values(|x: Oni2Packet| x@) == st.packets
}

/// The one bone of a mesh: at the origin, with the identity rotation.
pub open spec fn identity_bone(m: Oni2MeshModel) -> bool {
    &&& m.bone_world_positions@.map_values(|x: [String; 3]| texts(x)) == seq![
        seq![seq!['0'], seq!['0'], seq!['0']],
    ]
    &&& m.bone_rotations@.map_values(|x: [String; 4]| texts(x)) == seq![
        seq![seq!['0'], seq!['0'], seq!['0'], seq!['1']],
    ]
    &&& !m.world_space_verts
}

fn digit(c: char) -> (r: String)
    ensures
        r@ == seq![c],
{
    let a: [char; 1] = [c];
    assert(a@ =~= seq![c]);
    string_from_chars(&a)
}

/// Reads a `.mesh` text (see the module documentation); `None` unless it
/// starts with `{`.  The entity directory only names where the file is.
pub fn parse_mesh(content: &str, _entity_dir: &str) -> (r: Option<Oni2MeshModel>)
    ensures
        match spec_parse_mesh(content@) {
            Some(st) => r matches Some(m) && mesh_matches(m, st) && identity_bone(m),
            None => r is None,
        },
{
    let c = chars_of(content);
    let t = trim(c.as_slice());
    if !(t.len() > 0 && t[0] == '{') {
        return None;
    }
    let raw = lines(c.as_slice());
    let ghost rv = raw@.map_values(|l: Vec<char>| l@);
    assert(rv =~= spec_lines(content@));
    let mut ts: Vec<Vec<char>> = Vec::new();
    let mut q: usize = 0;
    while q < raw.len()
        invariant
            q <= raw@.len(),
            rv == raw@.map_values(|l: Vec<char>| l@),
            lv(ts@) == rv.take(q as int).map_values(|l: Seq<char>| spec_trim(l)),
        decreases raw@.len() - q,
    {
        assert(rv[q as int] == raw@[q as int]@);
        let ghost before = lv(ts@);
        ts.push(trim(raw[q].as_slice()));
        assert(lv(ts@) =~= before.push(spec_trim(rv[q as int])));
        assert(rv.take(q + 1).map_values(|l: Seq<char>| spec_trim(l)) =~= rv.take(q as int).map_values(
            |l: Seq<char>| spec_trim(l),
        ).push(spec_trim(rv[q as int])));
        q = q + 1;
    }
    assert(rv.take(rv.len() as int) =~= rv);
    let ghost tv = lv(ts@);
    assert(tv == trimmed_lines(content@));
    let mut vertices: Vec<[String; 3]> = Vec::new();
    let mut normals: Vec<[String; 3]> = Vec::new();
    let mut colors: Vec<[String; 4]> = Vec::new();
    let mut tex_coords: Vec<[String; 2]> = Vec::new();
    let mut adjuncts: Vec<Oni2Adjunct> = Vec::new();
    let mut materials: Vec<Oni2TextMaterial> = Vec::new();
    let mut packets: Vec<Oni2Packet> = Vec::new();
    let ghost init = MeshScan {
        vertices: Seq::empty(),
        normals: Seq::empty(),
        colors: Seq::empty(),
        tex_coords: Seq::empty(),
        adjuncts: Seq::empty(),
        materials: Seq::empty(),
        packets: Seq::empty(),
    };
    assert(vertices@.map_values(|x: [String; 3]| texts(x)) =~= Seq::<Seq<Seq<char>>>::empty());
    assert(normals@.map_values(|x: [String; 3]| texts(x)) =~= Seq::<Seq<Seq<char>>>::empty());
    assert(colors@.map_values(|x: [String; 4]| texts(x)) =~= Seq::<Seq<Seq<char>>>::empty());
    assert(tex_coords@.map_values(|x: [String; 2]| texts(x)) =~= Seq::<Seq<Seq<char>>>::empty());
    assert(materials@.map_values(|x: Oni2TextMaterial| x@) =~= Seq::<TextMaterialView>::empty());
    assert(packets@.map_values(|x: Oni2Packet| x@) =~= Seq::<PacketView>::empty());
    let mut i: usize = 0;
    while i < ts.len()
        invariant
            i <= ts@.len(),
            tv == lv(ts@),
            mesh_from(
                tv,
                i as int,
                MeshScan {
                    vertices: vertices@.map_values(|x: [String; 3]| texts(x)),
                    normals: normals@.map_values(|x: [String; 3]| texts(x)),
                    colors: colors@.map_values(|x: [String; 4]| texts(x)),
                    tex_coords: tex_coords@.map_values(|x: [String; 2]| texts(x)),
                    adjuncts: adjuncts@,
                    materials: materials@.map_values(|x: Oni2TextMaterial| x@),
                    packets: packets@.map_values(|x: Oni2Packet| x@),
                },
            ) == mesh_from(tv, 0, init),
        decreases ts@.len() - i,
    {
        assert(tv[i as int] == ts@[i as int]@);
        let toks = split_whitespace(ts[i].as_slice());
        let ghost kv = toks@.map_values(|w: Vec<char>| w@);
        assert(kv =~= spec_words(tv[i as int]));
        if toks.len() == 0 {
            i = i + 1;
            continue;
        }
        assert(kv[0] == toks@[0]@);
        if is_brace_line(&toks[0], '{') || is_brace_line(&toks[0], '}') {
            i = i + 1;
            continue;
        }
        let count: usize = if toks.len() > 1 {
            assert(kv[1] == toks@[1]@);
            match parse_usize(toks[1].as_slice()) {
                Some(v) => v,
                None => 0,
            }
        } else {
            0
        };
        let sec = string_from_chars(toks[0].as_slice());
        let s = sec.as_str();
        if str_is(s, "Pos") {
            let (j, rows) = read_rows_exec(&ts, i + 1, count, 3);
            to_arrays3(rows, &mut vertices);
            i = j;
        } else if str_is(s, "Nrm") {
            let (j, rows) = read_rows_exec(&ts, i + 1, count, 3);
            to_arrays3(rows, &mut normals);
            i = j;
        } else if str_is(s, "Cpv") {
            let (j, rows) = read_rows_exec(&ts, i + 1, count, 4);
            to_arrays4(rows, &mut colors);
            i = j;
        } else if str_is(s, "Tex0") {
            let (j, rows) = read_rows_exec(&ts, i + 1, count, 2);
            to_arrays2(rows, &mut tex_coords);
            i = j;
        } else if str_is(s, "Tex1") {
            if count > 0 {
                let (j, rows) = read_rows_exec(&ts, i + 1, count, 2);
                i = j;
            } else {
                i = i + 1;
            }
        } else if str_is(s, "Adj") {
            let b = skip_blank_exec(&ts, i + 1);
            let (j, a) = read_adjs_exec(&ts, b, count);
            adjuncts = a;
            i = if i < j {
                j
            } else {
                i + 1
            };
        } else if str_is(s, "Mtl") {
            let b = skip_blank_exec(&ts, i + 1);
            let (j, m, p) = read_mats_exec(&ts, b, count, &adjuncts);
            materials = m;
            packets = p;
            i = if i < j {
                j
            } else {
                i + 1
            };
        } else {
            i = i + 1;
        }
    }
    let origin = [digit('0'), digit('0'), digit('0')];
    let identity = [digit('0'), digit('0'), digit('0'), digit('1')];
    assert(texts(origin) =~= seq![seq!['0'], seq!['0'], seq!['0']]);
    assert(texts(identity) =~= seq![seq!['0'], seq!['0'], seq!['0'], seq!['1']]);
    let mut bone_world_positions: Vec<[String; 3]> = Vec::new();
    bone_world_positions.push(origin);
    let mut bone_rotations: Vec<[String; 4]> = Vec::new();
    bone_rotations.push(identity);
    let m = Oni2MeshModel {
        vertices,
        normals,
        colors,
        tex_coords,
        materials,
        packets,
        bone_world_positions,
        bone_rotations,
        world_space_verts: false,
    };
    assert(m.bone_world_positions@.map_values(|x: [String; 3]| texts(x)) =~= seq![
        seq![seq!['0'], seq!['0'], seq!['0']],
    ]);
    assert(m.bone_rotations@.map_values(|x: [String; 4]| texts(x)) =~= seq![
        seq![seq!['0'], seq!['0'], seq!['0'], seq!['1']],
    ]);
    Some(m)
}

/// Every material of a mesh gets one packet: packet `k` draws material
/// `k` over all the adjuncts, with one winding entry per strip.
pub proof fn lemma_one_packet_per_material(
    ts: Seq<Seq<char>>,
    i: int,
    count: int,
    adjs: Seq<Oni2Adjunct>,
    mats: Seq<TextMaterialView>,
    pks: Seq<PacketView>,
)
    requires
        count <= usize::MAX,
        mats.len() == pks.len(),
        forall|k: int|
            0 <= k < pks.len() ==> (#[trigger] pks[k]).material_index == k && pks[k].adjuncts
                == adjs && pks[k].strip_types.len() == pks[k].strips.len(),
    ensures
        ({
            let (j, m, p) = mats_from(ts, i, count, adjs, mats, pks);
            &&& m.len() == p.len()
            &&& forall|k: int|
                0 <= k < p.len() ==> (#[trigger] p[k]).material_index == k && p[k].adjuncts
                    == adjs && p[k].strip_types.len() == p[k].strips.len()
        }),
    decreases ts.len() - i,
{
    if i < 0 || i >= ts.len() || mats.len() >= count {
    } else if is_line(ts[i], '}') {
    } else if is_line(ts[i], '{') {
        let (j, b) = body_from(
            ts,
            i + 1,
            MatBody { name: Seq::empty(), prim: 0, strips: Seq::empty(), depth: 0 },
        );
        let nx = if i < j <= ts.len() {
            j
        } else {
            i + 1
        };
        let pk = packet_of(b, adjs, mats.len() as int);
        assert(pk.material_index == mats.len());
        assert forall|k: int| 0 <= k < pks.push(pk).len() implies (#[trigger] pks.push(
            pk,
        )[k]).material_index == k && pks.push(pk)[k].adjuncts == adjs && pks.push(
            pk,
        )[k].strip_types.len() == pks.push(pk)[k].strips.len() by {
            if k < pks.len() {
                assert(pks.push(pk)[k] == pks[k]);
            }
        }
        lemma_one_packet_per_material(ts, nx, count, adjs, mats.push(mat_of(b)), pks.push(pk));
    } else {
        lemma_one_packet_per_material(ts, i + 1, count, adjs, mats, pks);
    }
}

} // verus!
