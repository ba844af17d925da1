//! `.type` manifests: which mesh, skeleton, bound and edge files a
//! drawable uses, and its LOD switch radius.
//!
//! Both the flat form (`HIGH`/`LOD`/`SKEL`/`BOUND`/`RADIUS` lines) and the
//! `LodGroup { ... }` form are read line by line; keywords are matched on
//! the upper-cased line, and a name of `none` (any case) is no file.
use crate::text::{
    chars_eq, chars_of, float_text, has_prefix, has_suffix, is_float_text, lines, lowercase,
    spec_lines, spec_trim, spec_words, split_whitespace, starts_with, ends_with, string_from_chars,
    to_lowercase, to_uppercase, trim, uppercase,
};
use vstd::prelude::*;

verus! {

/// The files of a `.type` manifest, as written.
#[derive(Debug, Clone)]
pub struct DrawableType {
    /// From the first `HIGH` entry that is not `none`, else the first such
    /// `LOD` entry.
    pub mesh_name: Option<String>,
    pub skel_name: Option<String>,
    pub bound_name: Option<String>,
    pub edge_name: Option<String>,
    /// LOD switch radius: the text of a float, `0` when unset.
    pub lod_radius: String,
}

/// Mathematical view of a [`DrawableType`].
pub struct DrawableTypeView {
    pub mesh_name: Option<Seq<char>>,
    pub skel_name: Option<Seq<char>>,
    pub bound_name: Option<Seq<char>>,
    pub edge_name: Option<Seq<char>>,
    pub lod_radius: Seq<char>,
}

pub open spec fn opt_view(o: Option<String>) -> Option<Seq<char>> {
    match o {
        Some(s) => Some(s@),
        None => None,
    }
}

impl View for DrawableType {
    type V = DrawableTypeView;

    open spec fn view(&self) -> DrawableTypeView {
        DrawableTypeView {
            mesh_name: opt_view(self.mesh_name),
            skel_name: opt_view(self.skel_name),
            bound_name: opt_view(self.bound_name),
            edge_name: opt_view(self.edge_name),
            lod_radius: self.lod_radius@,
        }
    }
}

/// The second word of a line when it is not `none` in any case.
pub open spec fn named_file(ws: Seq<Seq<char>>) -> Option<Seq<char>> {
    if ws.len() >= 2 && lowercase(ws[1]) != "none"@ {
        Some(ws[1])
    } else {
        None
    }
}

/// One line applied to the manifest read so far, where `high` tells
/// whether a `HIGH` line has set the mesh.  The first `HIGH` line with a
/// file sets the mesh (over one a `LOD` line set); a `LOD` line (not
/// `LODGROUP`) sets it only while none is set; `SKEL`, `BOUND`, `EDGE` set
/// their files; `RADIUS` sets the radius (0 when its value is not a
/// float).
pub open spec fn type_line(d: DrawableTypeView, high: bool, line: Seq<char>) -> (DrawableTypeView, bool) {
    let t = spec_trim(line);
    let up = uppercase(t);
    let ws = spec_words(t);
    if has_prefix(up, "HIGH"@) {
        match named_file(ws) {
            Some(n) => if high {
                (d, high)
            } else {
                (DrawableTypeView { mesh_name: Some(n), ..d }, true)
            },
            None => (d, high),
        }
    } else if has_prefix(up, "LOD"@) && !has_prefix(up, "LODGROUP"@) {
        if d.mesh_name is None {
            match named_file(ws) {
                Some(n) => (DrawableTypeView { mesh_name: Some(n), ..d }, high),
                None => (d, high),
            }
        } else {
            (d, high)
        }
    } else if has_prefix(up, "SKEL"@) {
        match named_file(ws) {
            Some(n) => (DrawableTypeView { skel_name: Some(n), ..d }, high),
            None => (d, high),
        }
    } else if has_prefix(up, "BOUND"@) {
        match named_file(ws) {
            Some(n) => (DrawableTypeView { bound_name: Some(n), ..d }, high),
            None => (d, high),
        }
    } else if has_prefix(up, "EDGE"@) {
        match named_file(ws) {
            Some(n) => (DrawableTypeView { edge_name: Some(n), ..d }, high),
            None => (d, high),
        }
    } else if has_prefix(up, "RADIUS"@) {
        if ws.len() >= 2 {
            (
                DrawableTypeView {
                    lod_radius: if is_float_text(ws[1]) {
                        ws[1]
                    } else {
                        seq!['0']
                    },
                    ..d
                },
                high,
            )
        } else {
            (d, high)
        }
    } else {
        (d, high)
    }
}

pub open spec fn empty_type() -> DrawableTypeView {
    DrawableTypeView {
        mesh_name: None,
        skel_name: None,
        bound_name: None,
        edge_name: None,
        lod_radius: seq!['0'],
    }
}

/// The manifest after the first `k` lines, and whether a `HIGH` line
/// has set its mesh.
pub open spec fn type_state(ls: Seq<Seq<char>>, k: nat) -> (DrawableTypeView, bool)
    decreases k,
{
    if k == 0 {
        (empty_type(), false)
    } else {
        let (d, high) = type_state(ls, (k - 1) as nat);
        type_line(d, high, ls[k - 1])
    }
}

pub open spec fn spec_parse_drawable_type(content: Seq<char>) -> DrawableTypeView {
    let ls = spec_lines(content);
    type_state(ls, ls.len()).0
}

fn named_file_exec(ws: &Vec<Vec<char>>) -> (r: Option<String>)
    ensures
        opt_view(r) == named_file(ws@.map_values(|w: Vec<char>| w@)),
{
    let ghost wv = ws@.map_values(|w: Vec<char>| w@);
    if ws.len() < 2 {
        return None;
    }
    assert(wv[1] == ws@[1]@);
    let name = string_from_chars(ws[1].as_slice());
    let low = to_lowercase(name.as_str());
    let low_chars = chars_of(low.as_str());
    let none_chars = chars_of("none");
    if chars_eq(low_chars.as_slice(), none_chars.as_slice()) {
        None
    } else {
        Some(name)
    }
}

fn apply_type_line(d: &mut DrawableType, high: &mut bool, line: &[char])
    ensures
        (final(d)@, *final(high)) == type_line(old(d)@, *old(high), line@),
{
    let t = trim(line);
    let t_str = string_from_chars(t.as_slice());
    let up_str = to_uppercase(t_str.as_str());
    let up = chars_of(up_str.as_str());
    let ws = split_whitespace(t.as_slice());
    let ghost wv = ws@.map_values(|w: Vec<char>| w@);
    assert(wv =~= spec_words(t@));
    if starts_with(up.as_slice(), chars_of("HIGH").as_slice()) {
        let n = named_file_exec(&ws);
        if n.is_some() && !*high {
            d.mesh_name = n;
            *high = true;
        }
    } else if starts_with(up.as_slice(), chars_of("LOD").as_slice()) && !starts_with(
        up.as_slice(),
        chars_of("LODGROUP").as_slice(),
    ) {
        if d.mesh_name.is_none() {
            let n = named_file_exec(&ws);
            if n.is_some() {
                d.mesh_name = n;
            }
        }
    } else if starts_with(up.as_slice(), chars_of("SKEL").as_slice()) {
        let n = named_file_exec(&ws);
        if n.is_some() {
            d.skel_name = n;
        }
    } else if starts_with(up.as_slice(), chars_of("BOUND").as_slice()) {
        let n = named_file_exec(&ws);
        if n.is_some() {
            d.bound_name = n;
        }
    } else if starts_with(up.as_slice(), chars_of("EDGE").as_slice()) {
        let n = named_file_exec(&ws);
        if n.is_some() {
            d.edge_name = n;
        }
    } else if starts_with(up.as_slice(), chars_of("RADIUS").as_slice()) {
        if ws.len() >= 2 {
            assert(wv[1] == ws@[1]@);
            if float_text(ws[1].as_slice()) {
                d.lod_radius = string_from_chars(ws[1].as_slice());
            } else {
                proof {
                    reveal_strlit("0");
                }
                d.lod_radius = "0".to_string();
                assert(d.lod_radius@ =~= seq!['0']);
            }
        }
    }
}

/// Reads a `.type` manifest; names are kept as written, without adding
/// extensions.
pub fn parse_drawable_type(content: &str) -> (r: DrawableType)
    ensures
        r@ == spec_parse_drawable_type(content@),
{
    let chars = chars_of(content);
    let ls = lines(chars.as_slice());
    let ghost lv = ls@.map_values(|l: Vec<char>| l@);
    assert(lv =~= spec_lines(content@));
    proof {
        reveal_strlit("0");
    }
    let mut d = DrawableType {
        mesh_name: None,
        skel_name: None,
        bound_name: None,
        edge_name: None,
        lod_radius: "0".to_string(),
    };
    assert(d@.lod_radius =~= seq!['0']);
    let mut high = false;
    let mut i: usize = 0;
    while i < ls.len()
        invariant
            i <= ls@.len(),
            lv == ls@.map_values(|l: Vec<char>| l@),
            (d@, high) == type_state(lv, i as nat),
        decreases ls@.len() - i,
    {
        assert(lv[i as int] == ls@[i as int]@);
        apply_type_line(&mut d, &mut high, ls[i].as_slice());
        i = i + 1;
    }
    d
}

/// The files of an entity's `Entity.type`.
#[derive(Debug, Clone)]
pub struct Oni2EntityType {
    pub model_file: Option<String>,
    pub bound_file: Option<String>,
    pub skel_file: Option<String>,
    /// The text of a float.
    pub lod_radius: String,
}

/// `name`, with `ext` appended unless it already ends with it.
pub open spec fn with_extension(name: Seq<char>, ext: Seq<char>) -> Seq<char> {
    if has_suffix(name, ext) {
        name
    } else {
        name + ext
    }
}

pub open spec fn opt_with_extension(o: Option<Seq<char>>, ext: Seq<char>) -> Option<Seq<char>> {
    match o {
        Some(n) => Some(with_extension(n, ext)),
        None => None,
    }
}

fn add_extension(name: String, ext: &str) -> (r: String)
    ensures
        r@ == with_extension(name@, ext@),
{
    let n = chars_of(name.as_str());
    let e = chars_of(ext);
    if ends_with(n.as_slice(), e.as_slice()) {
        name
    } else {
        let mut out = n;
        let mut i: usize = 0;
        let ghost start = out@;
        while i < e.len()
            invariant
                i <= e@.len(),
                out@ == start + e@.subrange(0, i as int),
            decreases e@.len() - i,
        {
            out.push(e[i]);
            i = i + 1;
            assert(out@ =~= start + e@.subrange(0, i as int));
        }
        assert(e@.subrange(0, e@.len() as int) =~= e@);
        string_from_chars(out.as_slice())
    }
}

/// Reads an `Entity.type`: the model gets `.mod` and the skeleton `.skel`
/// when their names lack them; the bound name is kept as written.
pub fn parse_entity_type(content: &str) -> (r: Oni2EntityType)
    ensures
        ({
            let d = spec_parse_drawable_type(content@);
            &&& opt_view(r.model_file) == opt_with_extension(d.mesh_name, ".mod"@)
            &&& opt_view(r.skel_file) == opt_with_extension(d.skel_name, ".skel"@)
            &&& opt_view(r.bound_file) == d.bound_name
            &&& r.lod_radius@ == d.lod_radius
        }),
{
    let raw = parse_drawable_type(content);
    let model_file = match raw.mesh_name {
        Some(n) => Some(add_extension(n, ".mod")),
        None => None,
    };
    let skel_file = match raw.skel_name {
        Some(n) => Some(add_extension(n, ".skel")),
        None => None,
    };
    Oni2EntityType { model_file, bound_file: raw.bound_name, skel_file, lod_radius: raw.lod_radius }
}

} // verus!
