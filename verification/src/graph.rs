//! Navigation graphs of a layout (`layout.graphs` and `<name>.graph`).
//!
//! `layout.graphs` holds a count and then one graph name per non-blank
//! line.  A `.graph` file lists points after `NumPoints` and edges after
//! `NumEdges`, one `{ ... }` line each, up to `PreCalcData`:
//!
//! ```text
//! { x y z _ flags ["name"] }      a point
//! { a b cost _ flags [subgraph] } an edge
//! ```
//!
//! Lines with fewer than five values are skipped.  Floats are kept as
//! their text (`"0"` when they do not parse), in the file's left-handed
//! coordinates; integers that do not parse read as 0.
use crate::audiopackages::join_words;
use crate::text::{
    chars_of, copy_range, float_text, has_prefix, is_float_text, lines, parse_u32, parse_usize,
    spec_lines, spec_parse_unsigned, spec_trim, spec_words, split_whitespace, starts_with,
    str_is, string_from_chars, trim, trim_quote_chars, trim_quotes,
};
use vstd::prelude::*;

verus! {

/// A point of the graph.
pub struct GraphPoint {
    pub position: [String; 3],
    pub flags: u32,
    pub name: String,
}

/// An edge between points `a` and `b`.
pub struct GraphEdge {
    pub a: usize,
    pub b: usize,
    pub cost: String,
    pub flags: u32,
    pub subgraph: u32,
}

pub struct LayoutGraph {
    pub name: String,
    pub points: Vec<GraphPoint>,
    pub edges: Vec<GraphEdge>,
}

pub struct PointModel {
    pub position: Seq<Seq<char>>,
    pub flags: u32,
    pub name: Seq<char>,
}

pub struct EdgeModel {
    pub a: int,
    pub b: int,
    pub cost: Seq<char>,
    pub flags: u32,
    pub subgraph: u32,
}

pub open spec fn point_model(p: GraphPoint) -> PointModel {
    PointModel { position: p.position@.map_values(|t: String| t@), flags: p.flags, name: p.name@ }
}

pub open spec fn edge_model(e: GraphEdge) -> EdgeModel {
    EdgeModel { a: e.a as int, b: e.b as int, cost: e.cost@, flags: e.flags, subgraph: e.subgraph }
}

pub open spec fn points_model(v: Seq<GraphPoint>) -> Seq<PointModel> {
    v.map_values(|p: GraphPoint| point_model(p))
}

pub open spec fn edges_model(v: Seq<GraphEdge>) -> Seq<EdgeModel> {
    v.map_values(|e: GraphEdge| edge_model(e))
}

/// A float text, or `"0"`.
pub open spec fn float_or_zero(t: Seq<char>) -> Seq<char> {
    if is_float_text(t) {
        t
    } else {
        seq!['0']
    }
}

pub open spec fn u32_or_zero(t: Seq<char>) -> u32 {
    match spec_parse_unsigned(t, u32::MAX as int) {
        Some(v) => v as u32,
        None => 0,
    }
}

pub open spec fn usize_or_zero(t: Seq<char>) -> int {
    match spec_parse_unsigned(t, usize::MAX as int) {
        Some(v) => v,
        None => 0,
    }
}

/// Index of the first character at or after `i` that is not `c`.
pub open spec fn skip_char_from(s: Seq<char>, i: int, c: char) -> int
    decreases s.len() - i,
{
    if i < 0 || i >= s.len() {
        s.len() as int
    } else if s[i] == c {
        skip_char_from(s, i + 1, c)
    } else {
        i
    }
}

/// One past the last character before `j` that is not `c`.
pub open spec fn end_char_before(s: Seq<char>, j: int, c: char) -> int
    decreases j,
{
    if j <= 0 {
        0
    } else if s[j - 1] == c {
        end_char_before(s, j - 1, c)
    } else {
        j
    }
}

/// The values of a `{ ... }` line: without its leading `{`s and trailing
/// `}`s, trimmed, split at whitespace.
pub open spec fn braced_parts(t: Seq<char>) -> Seq<Seq<char>> {
    let a = t.skip(skip_char_from(t, 0, '{'));
    let b = a.take(end_char_before(a, a.len() as int, '}'));
    spec_words(spec_trim(b))
}

pub open spec fn point_of(parts: Seq<Seq<char>>) -> PointModel {
    PointModel {
        position: seq![float_or_zero(parts[0]), float_or_zero(parts[1]), float_or_zero(parts[2])],
        flags: u32_or_zero(parts[4]),
        name: if parts.len() >= 6 {
            trim_quotes(join_words(parts.skip(5)))
        } else {
            Seq::empty()
        },
    }
}

pub open spec fn edge_of(parts: Seq<Seq<char>>) -> EdgeModel {
    EdgeModel {
        a: usize_or_zero(parts[0]),
        b: usize_or_zero(parts[1]),
        cost: float_or_zero(parts[2]),
        flags: u32_or_zero(parts[4]),
        subgraph: if parts.len() >= 6 {
            u32_or_zero(parts[5])
        } else {
            0
        },
    }
}

/// Points, edges, and which list is being read (0 none, 1 points, 2 edges).
pub struct GraphScan {
    pub points: Seq<PointModel>,
    pub edges: Seq<EdgeModel>,
    pub mode: int,
    pub done: bool,
}

pub open spec fn graph_line(st: GraphScan, line: Seq<char>) -> GraphScan {
    let t = spec_trim(line);
    if st.done || t.len() == 0 || t == "{"@ || t == "}"@ {
        st
    } else if has_prefix(t, "PreCalcData"@) {
        GraphScan { done: true, ..st }
    } else if has_prefix(t, "NumPoints"@) {
        GraphScan { mode: 1, ..st }
    } else if has_prefix(t, "NumEdges"@) {
        GraphScan { mode: 2, ..st }
    } else if t[0] == '{' && braced_parts(t).len() >= 5 {
        let parts = braced_parts(t);
        if st.mode == 1 {
            GraphScan { points: st.points.push(point_of(parts)), ..st }
        } else if st.mode == 2 {
            GraphScan { edges: st.edges.push(edge_of(parts)), ..st }
        } else {
            st
        }
    } else {
        st
    }
}

pub open spec fn graph_upto(ls: Seq<Seq<char>>, k: nat) -> GraphScan
    decreases k,
{
    if k == 0 {
        GraphScan { points: Seq::empty(), edges: Seq::empty(), mode: 0, done: false }
    } else {
        graph_line(graph_upto(ls, (k - 1) as nat), ls[k - 1])
    }
}

/// The graph names of a `layout.graphs` text: its non-blank lines,
/// trimmed, after the first (the count).
pub open spec fn names_upto(ls: Seq<Seq<char>>, k: nat) -> Seq<Seq<char>>
    decreases k,
{
    if k == 0 {
        Seq::empty()
    } else {
        let r = names_upto(ls, (k - 1) as nat);
        let t = spec_trim(ls[k - 1]);
        if t.len() > 0 {
            r.push(t)
        } else {
            r
        }
    }
}

pub open spec fn spec_graph_names(content: Seq<char>) -> Seq<Seq<char>> {
    let ls = spec_lines(content);
    let all = names_upto(ls, ls.len());
    if all.len() == 0 {
        all
    } else {
        all.skip(1)
    }
}

/// The graph names listed in a `layout.graphs` text.
pub fn graph_names(content: &str) -> (r: Vec<String>)
    ensures
        r@.map_values(|s: String| s@) == spec_graph_names(content@),
{
    let chars = chars_of(content);
    let ls = lines(chars.as_slice());
    let ghost lv = ls@.map_values(|l: Vec<char>| l@);
    assert(lv =~= spec_lines(content@));
    let mut all: Vec<String> = Vec::new();
    let mut k: usize = 0;
    assert(all@.map_values(|s: String| s@) =~= Seq::<Seq<char>>::empty());
    while k < ls.len()
        invariant
            k <= ls@.len(),
            lv == ls@.map_values(|l: Vec<char>| l@),
            all@.map_values(|s: String| s@) == names_upto(lv, k as nat),
        decreases ls@.len() - k,
    {
        assert(lv[k as int] == ls@[k as int]@);
        let t = trim(ls[k].as_slice());
        if t.len() > 0 {
            let ghost before = all@.map_values(|s: String| s@);
            all.push(string_from_chars(t.as_slice()));
            assert(all@.map_values(|s: String| s@) =~= before.push(t@));
        }
        k = k + 1;
    }
    let ghost av = all@.map_values(|s: String| s@);
    if all.len() == 0 {
        return all;
    }
    let mut out: Vec<String> = Vec::new();
    let mut i: usize = 1;
    assert(out@.map_values(|s: String| s@) =~= av.skip(1).take(0));
    while i < all.len()
        invariant
            1 <= i <= all@.len(),
            av == all@.map_values(|s: String| s@),
            out@.map_values(|s: String| s@) == av.skip(1).take(i - 1),
        decreases all@.len() - i,
    {
        let ghost before = out@.map_values(|s: String| s@);
        let c = all[i].clone();
        assert(c@ == av[i as int]);
        out.push(c);
        assert(av.skip(1).take(i as int) =~= before.push(av[i as int]));
        assert(out@.map_values(|s: String| s@) =~= before.push(c@));
        i = i + 1;
    }
    assert(av.skip(1).take(av.skip(1).len() as int) =~= av.skip(1));
    out
}

fn float_or_zero_text(t: &Vec<char>) -> (r: String)
    ensures
        r@ == float_or_zero(t@),
{
    if float_text(t.as_slice()) {
        string_from_chars(t.as_slice())
    } else {
        let z: [char; 1] = ['0'];
        assert(z@ =~= seq!['0']);
        string_from_chars(&z)
    }
}

fn u32_or_zero_of(t: &Vec<char>) -> (r: u32)
    ensures
        r == u32_or_zero(t@),
{
    match parse_u32(t.as_slice()) {
        Some(v) => v,
        None => 0,
    }
}

fn usize_or_zero_of(t: &Vec<char>) -> (r: usize)
    ensures
        r as int == usize_or_zero(t@),
{
    match parse_usize(t.as_slice()) {
        Some(v) => v,
        None => 0,
    }
}

fn braced_values(t: &Vec<char>) -> (r: Vec<Vec<char>>)
    ensures
        r@.map_values(|w: Vec<char>| w@) == braced_parts(t@),
{
    let mut a: usize = 0;
    while a < t.len() && t[a] == '{'
        invariant
            a <= t@.len(),
            skip_char_from(t@, 0, '{') == skip_char_from(t@, a as int, '{'),
        decreases t@.len() - a,
    {
        a = a + 1;
    }
    let s = copy_range(t.as_slice(), a, t.len());
    assert(s@ =~= t@.skip(skip_char_from(t@, 0, '{')));
    let mut b = s.len();
    while b > 0 && s[b - 1] == '}'
        invariant
            b <= s@.len(),
            end_char_before(s@, s@.len() as int, '}') == end_char_before(s@, b as int, '}'),
        decreases b,
    {
        b = b - 1;
    }
    let inner = copy_range(s.as_slice(), 0, b);
    assert(inner@ =~= s@.take(end_char_before(s@, s@.len() as int, '}')));
    let tr = trim(inner.as_slice());
    let parts = split_whitespace(tr.as_slice());
    assert(parts@.map_values(|w: Vec<char>| w@) =~= spec_words(tr@));
    parts
}

fn join_from(parts: &Vec<Vec<char>>, start: usize) -> (r: Vec<char>)
    requires
        start < parts@.len(),
    ensures
        r@ == join_words(parts@.map_values(|w: Vec<char>| w@).skip(start as int)),
{
    let ghost pv = parts@.map_values(|w: Vec<char>| w@);
    let n = parts.len();
    let mut out: Vec<char> = parts[start].clone();
    assert(pv[start as int] == parts@[start as int]@);
    assert(pv.skip(start as int).take(1) =~= seq![pv[start as int]]);
    let mut i: usize = start + 1;
    while i < parts.len()
        invariant
            start < i <= parts@.len(),
            pv == parts@.map_values(|w: Vec<char>| w@),
            out@ == join_words(pv.skip(start as int).take(i - start)),
        decreases parts@.len() - i,
    {
        let ghost before = out@;
        assert(pv[i as int] == parts@[i as int]@);
        out.push(' ');
        let w = &parts[i];
        let mut j: usize = 0;
        while j < w.len()
            invariant
                j <= w@.len(),
                out@ == before + seq![' '] + w@.take(j as int),
            decreases w@.len() - j,
        {
            out.push(w[j]);
            j = j + 1;
            assert(out@ =~= before + seq![' '] + w@.take(j as int));
        }
        assert(w@.take(w@.len() as int) =~= w@);
        let ghost sq = pv.skip(start as int).take(i + 1 - start);
        assert(sq.drop_last() =~= pv.skip(start as int).take(i - start));
        assert(sq[sq.len() - 1] == pv[i as int]);
        i = i + 1;
    }
    assert(pv.skip(start as int).take(parts@.len() - start) =~= pv.skip(start as int));
    out
}

/// Reads the points and edges of the graph `name` from its `.graph` text
/// (see the module documentation).
pub fn parse_graph_content(name: &str, content: &str) -> (r: LayoutGraph)
    ensures
        r.name@ == name@,
        ({
            let ls = spec_lines(content@);
            let st = graph_upto(ls, ls.len());
            points_model(r.points@) == st.points && edges_model(r.edges@) == st.edges
        }),
{
    let chars = chars_of(content);
    let ls = lines(chars.as_slice());
    let ghost lv = ls@.map_values(|l: Vec<char>| l@);
    assert(lv =~= spec_lines(content@));
    let mut points: Vec<GraphPoint> = Vec::new();
    let mut edges: Vec<GraphEdge> = Vec::new();
    let mut mode: u8 = 0;
    let mut done = false;
    let precalc = chars_of("PreCalcData");
    let numpoints = chars_of("NumPoints");
    let numedges = chars_of("NumEdges");
    assert(points_model(points@) =~= Seq::<PointModel>::empty());
    assert(edges_model(edges@) =~= Seq::<EdgeModel>::empty());
    let mut k: usize = 0;
    while k < ls.len()
        invariant
            k <= ls@.len(),
            lv == ls@.map_values(|l: Vec<char>| l@),
            precalc@ == "PreCalcData"@,
            numpoints@ == "NumPoints"@,
            numedges@ == "NumEdges"@,
            graph_upto(lv, k as nat) == (GraphScan {
                points: points_model(points@),
                edges: edges_model(edges@),
                mode: mode as int,
                done,
            }),
        decreases ls@.len() - k,
    {
        assert(lv[k as int] == ls@[k as int]@);
        let t = trim(ls[k].as_slice());
        let ts = string_from_chars(t.as_slice());
        if done || t.len() == 0 || str_is(ts.as_str(), "{") || str_is(ts.as_str(), "}") {
        } else if starts_with(t.as_slice(), precalc.as_slice()) {
            done = true;
        } else if starts_with(t.as_slice(), numpoints.as_slice()) {
            mode = 1;
        } else if starts_with(t.as_slice(), numedges.as_slice()) {
            mode = 2;
        } else if t[0] == '{' {
            let parts = braced_values(&t);
            let ghost pv = parts@.map_values(|w: Vec<char>| w@);
            if parts.len() >= 5 {
                assert(pv[0] == parts@[0]@);
                assert(pv[1] == parts@[1]@);
                assert(pv[2] == parts@[2]@);
                assert(pv[4] == parts@[4]@);
                if mode == 1 {
                    let pname = if parts.len() >= 6 {
                        let j = join_from(&parts, 5);
                        string_from_chars(trim_quote_chars(j.as_slice()).as_slice())
                    } else {
                        String::new()
                    };
                    let position = [
                        float_or_zero_text(&parts[0]),
                        float_or_zero_text(&parts[1]),
                        float_or_zero_text(&parts[2]),
                    ];
                    let pt = GraphPoint { position, flags: u32_or_zero_of(&parts[4]), name: pname };
                    assert(point_model(pt).position =~= point_of(pv).position);
                    let ghost before = points_model(points@);
                    points.push(pt);
                    assert(points_model(points@) =~= before.push(point_of(pv)));
                } else if mode == 2 {
                    let subgraph = if parts.len() >= 6 {
                        assert(pv[5] == parts@[5]@);
                        u32_or_zero_of(&parts[5])
                    } else {
                        0
                    };
                    let e = GraphEdge {
                        a: usize_or_zero_of(&parts[0]),
                        b: usize_or_zero_of(&parts[1]),
                        cost: float_or_zero_text(&parts[2]),
                        flags: u32_or_zero_of(&parts[4]),
                        subgraph,
                    };
                    let ghost before = edges_model(edges@);
                    edges.push(e);
                    assert(edges_model(edges@) =~= before.push(edge_of(pv)));
                }
            }
        }
        k = k + 1;
    }
    let mut nm: Vec<char> = Vec::new();
    crate::text::push_str(&mut nm, name);
    assert(nm@ =~= name@);
    LayoutGraph { name: string_from_chars(nm.as_slice()), points, edges }
}

} // verus!
