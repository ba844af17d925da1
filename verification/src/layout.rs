//! Layout text files: the environment lighting, the fog file, the named
//! paths and the lights of a layout.
//!
//! Numbers stay the texts the file writes, and coordinates stay in the
//! file's left-handed frame; turning them into `f32` values and into the
//! right-handed frame (negating x and z) is the caller's.
use crate::model_text::float_or;
use crate::settings::{float_texts, token_views};
use crate::text::{
    chars_of, copy_range, float_text, has_prefix, lines, spec_lines, spec_trim, spec_words,
    split_whitespace, starts_with, string_from_chars, trim,
};
use vstd::prelude::*;

verus! {

// ---------------------------------------------------------------------
// Numbers of a line
// ---------------------------------------------------------------------

/// The number texts of a line: its whitespace-separated words that parse
/// as `f32`, in order.
pub open spec fn nums(l: Seq<char>) -> Seq<Seq<char>> {
    float_texts(spec_words(l))
}

pub fn line_floats(line: &[char]) -> (r: Vec<String>)
    ensures
        token_views(r@) == nums(line@),
{
    let ws = split_whitespace(line);
    let ghost w = spec_words(line@);
    let mut out: Vec<String> = Vec::new();
    let mut j: usize = 0;
    assert(w.subrange(0, 0) =~= Seq::<Seq<char>>::empty());
    while j < ws.len()
        invariant
            j <= ws@.len(),
            ws@.len() == w.len(),
            w == spec_words(line@),
            forall|k: int| 0 <= k < ws@.len() ==> #[trigger] ws@[k]@ == w[k],
            token_views(out@) == float_texts(w.subrange(0, j as int)),
        decreases ws.len() - j,
    {
        assert(w.subrange(0, j + 1).drop_last() =~= w.subrange(0, j as int));
        assert(ws@[j as int]@ == w[j as int]);
        if float_text(ws[j].as_slice()) {
            let ghost o = token_views(out@);
            out.push(string_from_chars(ws[j].as_slice()));
            assert(token_views(out@) =~= o.push(w[j as int]));
        }
        j = j + 1;
    }
    assert(w.subrange(0, w.len() as int) =~= w);
    out
}

/// The first `n` texts of `p` (`p.len() >= n`).
fn first_texts(p: &Vec<String>, n: usize) -> (r: Vec<String>)
    requires
        n <= p@.len(),
    ensures
        token_views(r@) == token_views(p@).take(n as int),
{
    let mut out: Vec<String> = Vec::new();
    let mut i: usize = 0;
    while i < n
        invariant
            i <= n <= p@.len(),
            token_views(out@) == token_views(p@).take(i as int),
        decreases n - i,
    {
        let ghost o = token_views(out@);
        out.push(p[i].clone());
        assert(token_views(out@) =~= o.push(p@[i as int]@));
        assert(token_views(p@).take(i + 1) =~= token_views(p@).take(i as int).push(p@[i as int]@));
        i = i + 1;
    }
    out
}

fn text_vec(a: &str, b: &str, c: &str) -> (r: Vec<String>)
    ensures
        token_views(r@) == seq![a@, b@, c@],
{
    let mut out: Vec<String> = Vec::new();
    out.push(a.to_string());
    out.push(b.to_string());
    out.push(c.to_string());
    assert(token_views(out@) =~= seq![a@, b@, c@]);
    out
}

fn text_vec4(a: &str, b: &str, c: &str, d: &str) -> (r: Vec<String>)
    ensures
        token_views(r@) == seq![a@, b@, c@, d@],
{
    let mut out = text_vec(a, b, c);
    let ghost o = token_views(out@);
    out.push(d.to_string());
    assert(token_views(out@) =~= o.push(d@));
    out
}

fn float_or_text(t: &[char], default: &str) -> (r: String)
    ensures
        r@ == float_or(t@, default@),
{
    if float_text(t) {
        string_from_chars(t)
    } else {
        default.to_string()
    }
}

// ---------------------------------------------------------------------
// default.environment
// ---------------------------------------------------------------------

/// The lighting of a layout's environment file.
pub struct LayoutEnvironment {
    /// The primary light's direction (three texts).
    pub light_direction: Vec<String>,
    /// The primary light's color (three texts).
    pub light_color: Vec<String>,
    /// The ambient color (three texts).
    pub ambient_color: Vec<String>,
    /// The fog color (four texts).
    pub fog_color: Vec<String>,
    pub fog_start: String,
    pub fog_end: String,
}

pub struct EnvModel {
    pub light_direction: Seq<Seq<char>>,
    pub light_color: Seq<Seq<char>>,
    pub ambient_color: Seq<Seq<char>>,
    pub fog_color: Seq<Seq<char>>,
    pub fog_start: Seq<char>,
    pub fog_end: Seq<char>,
}

pub open spec fn env_model(e: LayoutEnvironment) -> EnvModel {
    EnvModel {
        light_direction: token_views(e.light_direction@),
        light_color: token_views(e.light_color@),
        ambient_color: token_views(e.ambient_color@),
        fog_color: token_views(e.fog_color@),
        fog_start: e.fog_start@,
        fog_end: e.fog_end@,
    }
}

/// What an environment file without any of the keys gives.
pub open spec fn default_env() -> EnvModel {
    EnvModel {
        light_direction: seq!["0.5"@, "-0.7"@, "0.5"@],
        light_color: seq!["0.4"@, "0.4"@, "0.4"@],
        ambient_color: seq!["0.2"@, "0.2"@, "0.2"@],
        fog_color: seq!["0.5"@, "0.5"@, "0.5"@, "1.0"@],
        fog_start: "0.0"@,
        fog_end: "100.0"@,
    }
}

/// The first three numbers of line `j`, when it exists and has them.
pub open spec fn triple_at(ls: Seq<Seq<char>>, j: int) -> Option<Seq<Seq<char>>> {
    if 0 <= j < ls.len() && nums(ls[j]).len() >= 3 {
        Some(nums(ls[j]).take(3))
    } else {
        None
    }
}

/// Line `i` applied to `e`: `lightDirection:` takes the direction from
/// the next line; `lightColor:` the light color from the next line and
/// the ambient color from the fourth line after it; `fogColor:`,
/// `fogStart:` and `fogEnd:` take the rest of their own line.
pub open spec fn env_step(e: EnvModel, ls: Seq<Seq<char>>, i: int) -> EnvModel {
    let t = spec_trim(ls[i]);
    if t == "lightDirection:"@ {
        match triple_at(ls, i + 1) {
            Some(p) => EnvModel { light_direction: p, ..e },
            None => e,
        }
    } else if t == "lightColor:"@ {
        let e1 = match triple_at(ls, i + 1) {
            Some(p) => EnvModel { light_color: p, ..e },
            None => e,
        };
        match triple_at(ls, i + 4) {
            Some(p) => EnvModel { ambient_color: p, ..e1 },
            None => e1,
        }
    } else if has_prefix(t, "fogColor:"@) {
        let p = nums(t.skip(9));
        if p.len() >= 4 {
            EnvModel { fog_color: p.take(4), ..e }
        } else {
            e
        }
    } else if has_prefix(t, "fogStart:"@) {
        EnvModel { fog_start: float_or(spec_trim(t.skip(9)), "0.0"@), ..e }
    } else if has_prefix(t, "fogEnd:"@) {
        EnvModel { fog_end: float_or(spec_trim(t.skip(7)), "100.0"@), ..e }
    } else {
        e
    }
}

/// The environment after the first `k` lines.
pub open spec fn env_upto(ls: Seq<Seq<char>>, k: int) -> EnvModel
    decreases k,
{
    if k <= 0 {
        default_env()
    } else {
        env_step(env_upto(ls, k - 1), ls, k - 1)
    }
}

pub open spec fn spec_parse_environment(content: Seq<char>) -> EnvModel {
    env_upto(spec_lines(content), spec_lines(content).len() as int)
}

/// The first three numbers of line `j`, when it exists and has them.
fn triple_of(ls: &Vec<Vec<char>>, j: usize) -> (r: Option<Vec<String>>)
    ensures
        match triple_at(ls@.map_values(|l: Vec<char>| l@), j as int) {
            Some(p) => r matches Some(v) && token_views(v@) == p,
            None => r is None,
        },
{
    let ghost lv = ls@.map_values(|l: Vec<char>| l@);
    if j < ls.len() {
        assert(lv[j as int] == ls@[j as int]@);
        let p = line_floats(ls[j].as_slice());
        if p.len() >= 3 {
            return Some(first_texts(&p, 3));
        }
    }
    None
}

/// Parses a layout's `default.environment` text.
pub fn parse_environment(content: &str) -> (env: LayoutEnvironment)
    ensures
        env_model(env) == spec_parse_environment(content@),
{
    let cs = chars_of(content);
    let ls = lines(cs.as_slice());
    let ghost lv = ls@.map_values(|l: Vec<char>| l@);
    assert(lv =~= spec_lines(content@));
    let mut env = LayoutEnvironment {
        light_direction: text_vec("0.5", "-0.7", "0.5"),
        light_color: text_vec("0.4", "0.4", "0.4"),
        ambient_color: text_vec("0.2", "0.2", "0.2"),
        fog_color: text_vec4("0.5", "0.5", "0.5", "1.0"),
        fog_start: "0.0".to_string(),
        fog_end: "100.0".to_string(),
    };
    let mut i: usize = 0;
    while i < ls.len()
        invariant
            i <= ls@.len(),
            lv == ls@.map_values(|l: Vec<char>| l@),
            lv.len() == ls@.len(),
            env_model(env) == env_upto(lv, i as int),
        decreases ls.len() - i,
    {
        assert(lv[i as int] == ls@[i as int]@);
        let t = trim(ls[i].as_slice());
        let ghost e = env_model(env);
        proof {
            reveal_strlit("fogColor:");
            reveal_strlit("fogStart:");
            reveal_strlit("fogEnd:");
        }
        if chars_is(&t, "lightDirection:") {
            match triple_of(&ls, i + 1) {
                Some(p) => {
                    env.light_direction = p;
                },
                None => {},
            }
        } else if chars_is(&t, "lightColor:") {
            match triple_of(&ls, i + 1) {
                Some(p) => {
                    env.light_color = p;
                },
                None => {},
            }
            if i < usize::MAX - 4 {
                match triple_of(&ls, i + 4) {
                    Some(p) => {
                        env.ambient_color = p;
                    },
                    None => {},
                }
            }
        } else if starts_with(t.as_slice(), chars_of("fogColor:").as_slice()) {
            let rest = copy_range(t.as_slice(), 9, t.len());
            assert(rest@ =~= t@.skip(9));
            let p = line_floats(rest.as_slice());
            if p.len() >= 4 {
                env.fog_color = first_texts(&p, 4);
            }
        } else if starts_with(t.as_slice(), chars_of("fogStart:").as_slice()) {
            let rest = copy_range(t.as_slice(), 9, t.len());
            assert(rest@ =~= t@.skip(9));
            let v = trim(rest.as_slice());
            env.fog_start = float_or_text(v.as_slice(), "0.0");
        } else if starts_with(t.as_slice(), chars_of("fogEnd:").as_slice()) {
            let rest = copy_range(t.as_slice(), 7, t.len());
            assert(rest@ =~= t@.skip(7));
            let v = trim(rest.as_slice());
            env.fog_end = float_or_text(v.as_slice(), "100.0");
        }
        assert(env_model(env) == env_step(e, lv, i as int));
        i = i + 1;
    }
    env
}

// ---------------------------------------------------------------------
// layout.fog
// ---------------------------------------------------------------------

/// One of the lights of a fog file.
pub struct LayoutFogLight {
    /// The on flag as written: on when its value, truncated to an
    /// integer, is not zero.
    pub enabled: String,
    /// Three texts.
    pub direction: Vec<String>,
    /// Three texts.
    pub color: Vec<String>,
}

/// A layout's fog file.
pub struct LayoutFogFile {
    /// The on flag as written, read like a light's.
    pub enabled: String,
    pub start: String,
    pub end: String,
    /// Three texts.
    pub color: Vec<String>,
    pub lights: Vec<LayoutFogLight>,
}

pub struct FogLightModel {
    pub enabled: Seq<char>,
    pub direction: Seq<Seq<char>>,
    pub color: Seq<Seq<char>>,
}

pub struct FogModel {
    pub enabled: Seq<char>,
    pub start: Seq<char>,
    pub end: Seq<char>,
    pub color: Seq<Seq<char>>,
    pub lights: Seq<FogLightModel>,
}

pub open spec fn fog_light_model(l: LayoutFogLight) -> FogLightModel {
    FogLightModel { enabled: l.enabled@, direction: token_views(l.direction@), color: token_views(l.color@) }
}

pub open spec fn fog_model(f: LayoutFogFile) -> FogModel {
    FogModel {
        enabled: f.enabled@,
        start: f.start@,
        end: f.end@,
        color: token_views(f.color@),
        lights: f.lights@.map_values(|l: LayoutFogLight| fog_light_model(l)),
    }
}

/// A light line's numbers: flag, direction, color.
pub open spec fn fog_light_of(p: Seq<Seq<char>>) -> FogLightModel {
    FogLightModel { enabled: p[0], direction: p.subrange(1, 4), color: p.subrange(4, 7) }
}

/// The lights among lines `3..k` (those with at least seven numbers).
pub open spec fn fog_lights_upto(ls: Seq<Seq<char>>, k: int) -> Seq<FogLightModel>
    decreases k,
{
    if k <= 3 {
        Seq::empty()
    } else {
        let p = nums(ls[k - 1]);
        if p.len() >= 7 {
            fog_lights_upto(ls, k - 1).push(fog_light_of(p))
        } else {
            fog_lights_upto(ls, k - 1)
        }
    }
}

/// A fog file has at least six lines; its second line holds the flag,
/// start, end and color of the fog (at least seven numbers); lines four
/// to six hold its lights.
pub open spec fn spec_parse_layout_fog(content: Seq<char>) -> Option<FogModel> {
    let ls = spec_lines(content);
    if ls.len() < 6 {
        None
    } else {
        let p = nums(ls[1]);
        if p.len() < 7 {
            None
        } else {
            Some(
                FogModel {
                    enabled: p[0],
                    start: p[1],
                    end: p[2],
                    color: p.subrange(3, 6),
                    lights: fog_lights_upto(ls, 6),
                },
            )
        }
    }
}

fn texts_range(p: &Vec<String>, a: usize, b: usize) -> (r: Vec<String>)
    requires
        a <= b <= p@.len(),
    ensures
        token_views(r@) == token_views(p@).subrange(a as int, b as int),
{
    let mut out: Vec<String> = Vec::new();
    let mut i: usize = a;
    while i < b
        invariant
            a <= i <= b <= p@.len(),
            token_views(out@) == token_views(p@).subrange(a as int, i as int),
        decreases b - i,
    {
        let ghost o = token_views(out@);
        out.push(p[i].clone());
        assert(token_views(out@) =~= o.push(p@[i as int]@));
        assert(token_views(p@).subrange(a as int, i + 1) =~= token_views(p@).subrange(a as int, i as int).push(p@[i as int]@));
        i = i + 1;
    }
    out
}

/// Parses a layout's `layout.fog` text; `None` when it is too short or
/// its fog line has too few numbers.
pub fn parse_layout_fog(content: &str) -> (r: Option<LayoutFogFile>)
    ensures
        match spec_parse_layout_fog(content@) {
            Some(m) => r matches Some(f) && fog_model(f) == m,
            None => r is None,
        },
{
    let cs = chars_of(content);
    let ls = lines(cs.as_slice());
    let ghost lv = ls@.map_values(|l: Vec<char>| l@);
    assert(lv =~= spec_lines(content@));
    if ls.len() < 6 {
        return None;
    }
    assert(lv[1] == ls@[1]@);
    let p = line_floats(ls[1].as_slice());
    if p.len() < 7 {
        return None;
    }
    let mut lights: Vec<LayoutFogLight> = Vec::new();
    let mut k: usize = 3;
    while k < 6
        invariant
            3 <= k <= 6,
            6 <= ls@.len(),
            lv == ls@.map_values(|l: Vec<char>| l@),
            lights@.map_values(|l: LayoutFogLight| fog_light_model(l)) == fog_lights_upto(lv, k as int),
        decreases 6 - k,
    {
        assert(lv[k as int] == ls@[k as int]@);
        let q = line_floats(ls[k].as_slice());
        if q.len() >= 7 {
            let ghost o = lights@.map_values(|l: LayoutFogLight| fog_light_model(l));
            let light = LayoutFogLight {
                enabled: q[0].clone(),
                direction: texts_range(&q, 1, 4),
                color: texts_range(&q, 4, 7),
            };
            assert(fog_light_model(light) == fog_light_of(nums(lv[k as int])));
            lights.push(light);
            assert(lights@.map_values(|l: LayoutFogLight| fog_light_model(l)) =~= o.push(fog_light_model(light)));
        }
        k = k + 1;
    }
    let f = LayoutFogFile {
        enabled: p[0].clone(),
        start: p[1].clone(),
        end: p[2].clone(),
        color: texts_range(&p, 3, 6),
        lights,
    };
    Some(f)
}

// ---------------------------------------------------------------------
// layout.paths
// ---------------------------------------------------------------------

/// A named path of a layout: its points, three texts each.
pub struct LayoutPath {
    pub name: String,
    pub points: Vec<Vec<String>>,
}

pub open spec fn path_model(p: LayoutPath) -> (Seq<char>, Seq<Seq<Seq<char>>>) {
    (p.name@, p.points@.map_values(|q: Vec<String>| token_views(q@)))
}

pub open spec fn paths_model(ps: Seq<LayoutPath>) -> Seq<(Seq<char>, Seq<Seq<Seq<char>>>)> {
    ps.map_values(|p: LayoutPath| path_model(p))
}

/// Index of the first line at or after `j` that is just `}` once
/// trimmed, or the number of lines.
pub open spec fn close_line(ls: Seq<Seq<char>>, j: int) -> int
    decreases ls.len() - j,
{
    if j < 0 || j >= ls.len() {
        ls.len() as int
    } else if spec_trim(ls[j]) == "}"@ {
        j
    } else {
        close_line(ls, j + 1)
    }
}

pub proof fn lemma_close_line(ls: Seq<Seq<char>>, a: int, k: int)
    requires
        0 <= a <= k <= ls.len(),
        forall|m: int| a <= m < k ==> spec_trim(#[trigger] ls[m]) != "}"@,
        k == ls.len() || spec_trim(ls[k]) == "}"@,
    ensures
        close_line(ls, a) == k,
    decreases k - a,
{
    if a < k {
        lemma_close_line(ls, a + 1, k);
    }
}

/// The points of lines `s..k`: the first three numbers of each line that
/// has three.
pub open spec fn points_upto(ls: Seq<Seq<char>>, s: int, k: int) -> Seq<Seq<Seq<char>>>
    decreases k - s,
{
    if k <= s {
        Seq::empty()
    } else {
        let p = nums(ls[k - 1]);
        if p.len() >= 3 {
            points_upto(ls, s, k - 1).push(p.take(3))
        } else {
            points_upto(ls, s, k - 1)
        }
    }
}

/// A line that opens a path: it holds a `[` and ends with `{`.
pub open spec fn path_head(t: Seq<char>) -> bool {
    crate::text::first_index_of(t, '[') < t.len() && crate::text::has_suffix(t, "{"@)
}

/// The paths of lines `i..`: a head line names a path by what precedes
/// its `[`; the lines up to the closing `}` are its points; paths without
/// points are left out.
pub open spec fn paths_from(ls: Seq<Seq<char>>, i: int) -> Seq<(Seq<char>, Seq<Seq<Seq<char>>>)>
    decreases ls.len() - i,
{
    if i < 0 || i >= ls.len() {
        Seq::empty()
    } else {
        let t = spec_trim(ls[i]);
        if path_head(t) {
            let j0 = close_line(ls, i + 1);
            let j = if i < j0 <= ls.len() { j0 } else { ls.len() as int };
            let pts = points_upto(ls, i + 1, j);
            let rest = if j < ls.len() { paths_from(ls, j + 1) } else { Seq::empty() };
            if pts.len() > 0 {
                seq![(crate::text::before_first(t, '['), pts)] + rest
            } else {
                rest
            }
        } else {
            paths_from(ls, i + 1)
        }
    }
}

pub open spec fn spec_parse_layout_paths(content: Seq<char>) -> Seq<(Seq<char>, Seq<Seq<Seq<char>>>)> {
    paths_from(spec_lines(content), 0)
}

/// Parses a layout's `layout.paths` text into its named paths, in order.
pub fn parse_layout_paths(content: &str) -> (r: Vec<LayoutPath>)
    ensures
        paths_model(r@) == spec_parse_layout_paths(content@),
{
    let cs = chars_of(content);
    let ls = lines(cs.as_slice());
    let ghost lv = ls@.map_values(|l: Vec<char>| l@);
    assert(lv =~= spec_lines(content@));
    let ghost all = paths_from(lv, 0);
    let mut out: Vec<LayoutPath> = Vec::new();
    let mut i: usize = 0;
    let close = chars_of("}");
    let open = chars_of("{");
    proof {
        reveal_strlit("}");
        reveal_strlit("{");
    }
    while i < ls.len()
        invariant
            i <= ls@.len(),
            lv == ls@.map_values(|l: Vec<char>| l@),
            lv.len() == ls@.len(),
            close@ == "}"@,
            open@ == "{"@,
            paths_model(out@) + paths_from(lv, i as int) == all,
        decreases ls.len() - i,
    {
        assert(lv[i as int] == ls@[i as int]@);
        let t = trim(ls[i].as_slice());
        let name = crate::text::before_first_char(t.as_slice(), '[');
        let has_bracket = name.len() < t.len();
        proof {
            crate::text::lemma_first_index_of(t@, '[');
        }
        if has_bracket && crate::text::ends_with(t.as_slice(), open.as_slice()) {
            assert(path_head(t@));
            let mut pts: Vec<Vec<String>> = Vec::new();
            let mut k: usize = i + 1;
            let ghost s = i + 1;
            loop
                invariant_except_break
                    s == i + 1,
                    s <= k <= ls@.len(),
                    lv == ls@.map_values(|l: Vec<char>| l@),
                    lv.len() == ls@.len(),
                    close@ == "}"@,
                    forall|m: int| s <= m < k ==> spec_trim(#[trigger] lv[m]) != "}"@,
                    pts@.map_values(|q: Vec<String>| token_views(q@)) == points_upto(lv, s, k as int),
                ensures
                    s <= k <= ls@.len(),
                    forall|m: int| s <= m < k ==> spec_trim(#[trigger] lv[m]) != "}"@,
                    k == ls@.len() || spec_trim(lv[k as int]) == "}"@,
                    pts@.map_values(|q: Vec<String>| token_views(q@)) == points_upto(lv, s, k as int),
                decreases ls.len() - k,
            {
                if k >= ls.len() {
                    break;
                }
                assert(lv[k as int] == ls@[k as int]@);
                let pt = trim(ls[k].as_slice());
                if crate::text::chars_eq(pt.as_slice(), close.as_slice()) {
                    break;
                }
                let q = line_floats(ls[k].as_slice());
                let ghost o = pts@.map_values(|q: Vec<String>| token_views(q@));
                if q.len() >= 3 {
                    pts.push(first_texts(&q, 3));
                    assert(pts@.map_values(|q: Vec<String>| token_views(q@)) =~= o.push(nums(lv[k as int]).take(3)));
                }
                k = k + 1;
            }
            proof {
                lemma_close_line(lv, s, k as int);
            }
            let ghost rest = if k < ls@.len() { paths_from(lv, k + 1) } else { Seq::empty() };
            if pts.len() > 0 {
                let ghost o = paths_model(out@);
                out.push(LayoutPath { name: string_from_chars(name.as_slice()), points: pts });
                assert(paths_model(out@) =~= o.push((crate::text::before_first(t@, '['), points_upto(lv, s, k as int))));
                assert(paths_model(out@) + rest =~= o + paths_from(lv, i as int));
            } else {
                assert(paths_from(lv, i as int) == rest);
            }
            if k < ls.len() {
                i = k + 1;
            } else {
                assert(paths_from(lv, ls@.len() as int) =~= Seq::<(Seq<char>, Seq<Seq<Seq<char>>>)>::empty());
                assert(paths_model(out@) + paths_from(lv, ls@.len() as int) =~= paths_model(out@));
                i = ls.len();
            }
        } else {
            i = i + 1;
        }
    }
    assert(paths_model(out@) + paths_from(lv, ls@.len() as int) =~= paths_model(out@));
    out
}

// ---------------------------------------------------------------------
// layout.lights
// ---------------------------------------------------------------------

/// A light of a layout.
pub struct LayoutLight {
    pub name: String,
    pub light_type: String,
    /// The values of its `Position` lines, trimmed, in order: the last one
    /// that reads as a vector places the light, at the origin without one.
    pub positions: Vec<String>,
    pub intensity: String,
    /// The values of its `Direction` lines, read like the positions; the
    /// direction is +Y without one.
    pub directions: Vec<String>,
    pub spot_angle: String,
    /// Four texts.
    pub color: Vec<String>,
}

pub struct LightModel {
    pub name: Seq<char>,
    pub light_type: Seq<char>,
    pub positions: Seq<Seq<char>>,
    pub intensity: Seq<char>,
    pub directions: Seq<Seq<char>>,
    pub spot_angle: Seq<char>,
    pub color: Seq<Seq<char>>,
}

pub open spec fn light_model(l: LayoutLight) -> LightModel {
    LightModel {
        name: l.name@,
        light_type: l.light_type@,
        positions: token_views(l.positions@),
        intensity: l.intensity@,
        directions: token_views(l.directions@),
        spot_angle: l.spot_angle@,
        color: token_views(l.color@),
    }
}

pub open spec fn lights_model(ls: Seq<LayoutLight>) -> Seq<LightModel> {
    ls.map_values(|l: LayoutLight| light_model(l))
}

/// A light before any of its fields: a white point light of intensity 0
/// and spot angle 45.
pub open spec fn light_default(name: Seq<char>) -> LightModel {
    LightModel {
        name,
        light_type: "point"@,
        positions: Seq::empty(),
        intensity: "0.0"@,
        directions: Seq::empty(),
        spot_angle: "45.0"@,
        color: seq!["1.0"@, "1.0"@, "1.0"@, "1.0"@],
    }
}

/// A (trimmed) field line applied to a light.
pub open spec fn light_field(l: LightModel, f: Seq<char>) -> LightModel {
    if has_prefix(f, "Type "@) {
        LightModel { light_type: spec_trim(f.skip(5)), ..l }
    } else if has_prefix(f, "Position "@) {
        LightModel { positions: l.positions.push(spec_trim(f.skip(9))), ..l }
    } else if has_prefix(f, "Intensity "@) {
        LightModel { intensity: float_or(spec_trim(f.skip(10)), "0.0"@), ..l }
    } else if has_prefix(f, "Direction "@) {
        LightModel { directions: l.directions.push(spec_trim(f.skip(10))), ..l }
    } else if has_prefix(f, "SpotAngle "@) {
        LightModel { spot_angle: float_or(spec_trim(f.skip(10)), "45.0"@), ..l }
    } else if has_prefix(f, "Color "@) {
        let p = nums(f.skip(6));
        if p.len() >= 4 {
            LightModel { color: p.take(4), ..l }
        } else {
            l
        }
    } else {
        l
    }
}

/// `l` after the field lines `s..k`.
pub open spec fn light_fields(ls: Seq<Seq<char>>, s: int, k: int, l: LightModel) -> LightModel
    decreases k - s,
{
    if k <= s {
        l
    } else {
        light_field(light_fields(ls, s, k - 1, l), spec_trim(ls[k - 1]))
    }
}

/// The name in a trimmed `Light <name> {` line, or `unknown` when it does
/// not end with ` {`.
pub open spec fn light_name(t: Seq<char>) -> Seq<char> {
    let r = t.skip(6);
    if crate::text::has_suffix(r, " {"@) {
        r.take(r.len() - 2)
    } else {
        "unknown"@
    }
}

/// The lights of lines `i..`: each line starting with `Light ` opens one,
/// whose fields run to the closing `}`.
pub open spec fn lights_from(ls: Seq<Seq<char>>, i: int) -> Seq<LightModel>
    decreases ls.len() - i,
{
    if i < 0 || i >= ls.len() {
        Seq::empty()
    } else {
        let t = spec_trim(ls[i]);
        if has_prefix(t, "Light "@) {
            let j0 = close_line(ls, i + 1);
            let j = if i < j0 <= ls.len() { j0 } else { ls.len() as int };
            let l = light_fields(ls, i + 1, j, light_default(light_name(t)));
            let rest = if j < ls.len() { lights_from(ls, j + 1) } else { Seq::empty() };
            seq![l] + rest
        } else {
            lights_from(ls, i + 1)
        }
    }
}

pub open spec fn spec_parse_lights_file(content: Seq<char>) -> Seq<LightModel> {
    lights_from(spec_lines(content), 0)
}

fn rest_trimmed(f: &Vec<char>, n: usize) -> (r: Vec<char>)
    requires
        n <= f@.len(),
    ensures
        r@ == spec_trim(f@.skip(n as int)),
{
    let rest = copy_range(f.as_slice(), n, f.len());
    assert(rest@ =~= f@.skip(n as int));
    trim(rest.as_slice())
}

/// Applies one trimmed field line to a light.
fn apply_light_field(l: &mut LayoutLight, f: &Vec<char>)
    ensures
        light_model(*final(l)) == light_field(light_model(*old(l)), f@),
{
    proof {
        reveal_strlit("Type ");
        reveal_strlit("Position ");
        reveal_strlit("Intensity ");
        reveal_strlit("Direction ");
        reveal_strlit("SpotAngle ");
        reveal_strlit("Color ");
    }
    if starts_with(f.as_slice(), chars_of("Type ").as_slice()) {
        let v = rest_trimmed(f, 5);
        l.light_type = string_from_chars(v.as_slice());
    } else if starts_with(f.as_slice(), chars_of("Position ").as_slice()) {
        let v = rest_trimmed(f, 9);
        let ghost o = token_views(l.positions@);
        l.positions.push(string_from_chars(v.as_slice()));
        assert(token_views(l.positions@) =~= o.push(v@));
    } else if starts_with(f.as_slice(), chars_of("Intensity ").as_slice()) {
        let v = rest_trimmed(f, 10);
        l.intensity = float_or_text(v.as_slice(), "0.0");
    } else if starts_with(f.as_slice(), chars_of("Direction ").as_slice()) {
        let v = rest_trimmed(f, 10);
        let ghost o = token_views(l.directions@);
        l.directions.push(string_from_chars(v.as_slice()));
        assert(token_views(l.directions@) =~= o.push(v@));
    } else if starts_with(f.as_slice(), chars_of("SpotAngle ").as_slice()) {
        let v = rest_trimmed(f, 10);
        l.spot_angle = float_or_text(v.as_slice(), "45.0");
    } else if starts_with(f.as_slice(), chars_of("Color ").as_slice()) {
        let rest = copy_range(f.as_slice(), 6, f.len());
        assert(rest@ =~= f@.skip(6));
        let p = line_floats(rest.as_slice());
        if p.len() >= 4 {
            l.color = first_texts(&p, 4);
        }
    }
}

fn light_name_of(t: &Vec<char>) -> (r: String)
    requires
        6 <= t@.len(),
    ensures
        r@ == light_name(t@),
{
    let r = copy_range(t.as_slice(), 6, t.len());
    assert(r@ =~= t@.skip(6));
    let tail = chars_of(" {");
    proof {
        reveal_strlit(" {");
    }
    if crate::text::ends_with(r.as_slice(), tail.as_slice()) {
        let n = copy_range(r.as_slice(), 0, r.len() - 2);
        assert(n@ =~= r@.take(r@.len() - 2));
        string_from_chars(n.as_slice())
    } else {
        "unknown".to_string()
    }
}

/// Parses a layout's `layout.lights` text into its lights, in order.
pub fn parse_lights_file(content: &str) -> (r: Vec<LayoutLight>)
    ensures
        lights_model(r@) == spec_parse_lights_file(content@),
{
    let cs = chars_of(content);
    let ls = lines(cs.as_slice());
    let ghost lv = ls@.map_values(|l: Vec<char>| l@);
    assert(lv =~= spec_lines(content@));
    let ghost all = lights_from(lv, 0);
    let mut out: Vec<LayoutLight> = Vec::new();
    let mut i: usize = 0;
    let close = chars_of("}");
    let head = chars_of("Light ");
    proof {
        reveal_strlit("}");
        reveal_strlit("Light ");
    }
    while i < ls.len()
        invariant
            i <= ls@.len(),
            lv == ls@.map_values(|l: Vec<char>| l@),
            lv.len() == ls@.len(),
            close@ == "}"@,
            head@ == "Light "@,
            head@.len() == 6,
            lights_model(out@) + lights_from(lv, i as int) == all,
        decreases ls.len() - i,
    {
        assert(lv[i as int] == ls@[i as int]@);
        let t = trim(ls[i].as_slice());
        if starts_with(t.as_slice(), head.as_slice()) {
            let mut light = LayoutLight {
                name: light_name_of(&t),
                light_type: "point".to_string(),
                positions: Vec::new(),
                intensity: "0.0".to_string(),
                directions: Vec::new(),
                spot_angle: "45.0".to_string(),
                color: text_vec4("1.0", "1.0", "1.0", "1.0"),
            };
            let ghost l0 = light_default(light_name(t@));
            assert(token_views(light.positions@) =~= Seq::<Seq<char>>::empty());
            assert(token_views(light.directions@) =~= Seq::<Seq<char>>::empty());
            assert(light_model(light) == l0);
            let mut k: usize = i + 1;
            let ghost s = i + 1;
            loop
                invariant_except_break
                    s == i + 1,
                    s <= k <= ls@.len(),
                    lv == ls@.map_values(|l: Vec<char>| l@),
                    lv.len() == ls@.len(),
                    close@ == "}"@,
                    forall|m: int| s <= m < k ==> spec_trim(#[trigger] lv[m]) != "}"@,
                    light_model(light) == light_fields(lv, s, k as int, l0),
                ensures
                    s <= k <= ls@.len(),
                    forall|m: int| s <= m < k ==> spec_trim(#[trigger] lv[m]) != "}"@,
                    k == ls@.len() || spec_trim(lv[k as int]) == "}"@,
                    light_model(light) == light_fields(lv, s, k as int, l0),
                decreases ls.len() - k,
            {
                if k >= ls.len() {
                    break;
                }
                assert(lv[k as int] == ls@[k as int]@);
                let f = trim(ls[k].as_slice());
                if crate::text::chars_eq(f.as_slice(), close.as_slice()) {
                    break;
                }
                apply_light_field(&mut light, &f);
                k = k + 1;
            }
            proof {
                lemma_close_line(lv, s, k as int);
            }
            let ghost rest = if k < ls@.len() { lights_from(lv, k + 1) } else { Seq::empty() };
            let ghost o = lights_model(out@);
            out.push(light);
            assert(lights_model(out@) =~= o.push(light_fields(lv, s, k as int, l0)));
            assert(lights_model(out@) + rest =~= o + lights_from(lv, i as int));
            if k < ls.len() {
                i = k + 1;
            } else {
                assert(lights_model(out@) + lights_from(lv, ls@.len() as int) =~= lights_model(out@));
                i = ls.len();
            }
        } else {
            i = i + 1;
        }
    }
    assert(lights_model(out@) + lights_from(lv, ls@.len() as int) =~= lights_model(out@));
    out
}

/// `t` is the literal `lit`.
fn chars_is(t: &Vec<char>, lit: &str) -> (r: bool)
    ensures
        r == (t@ == lit@),
{
    let l = chars_of(lit);
    crate::text::chars_eq(t.as_slice(), l.as_slice())
}

} // verus!
