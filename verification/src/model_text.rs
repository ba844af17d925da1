//! `.mod` models in the text layout.
//!
//! ```text
//! v <x> <y> <z>            vertex
//! n <x> <y> <z>            normal
//! c <r> <g> <b> <a>        colour
//! t1 <u> <v>               texture coordinate
//! mtl <name> {             material: diffuse:, texture:, primitives:,
//!   ...                    packets: lines up to `}`
//! }
//! packet ... {             packet: adj, str/stp/tri and mtx lines up to `}`
//!   ...
//! }
//! ```
//!
//! Float fields are kept as their text when it is a valid `f32` literal,
//! and as the text of the field's default otherwise.
use crate::text::{
    chars_of, float_text, has_prefix, is_float_text, lines, parse_i32, parse_u32, parse_usize,
    spec_lines, spec_parse_i32, spec_parse_unsigned, spec_trim, spec_words, split_whitespace,
    starts_with, string_from_chars, trim, trim_quote_chars, trim_quotes,
};
use crate::types::{Oni2Adjunct, Oni2MaterialPass, Oni2Packet, PacketView};
use vstd::prelude::*;

verus! {

// ---------------------------------------------------------------------
// Data model
// ---------------------------------------------------------------------

/// A material of a text model.
#[derive(Debug, Clone)]
pub struct Oni2TextMaterial {
    pub name: String,
    /// Diffuse colour texts, red, green, blue.
    pub diffuse: [String; 3],
    pub texture_name: Option<String>,
    pub primitive_count: u32,
    /// 0 for text models (they give packet counts per material separately);
    /// 1 for meshes (one packet per material).
    pub packet_count: u32,
    /// Passes of the material's `.shader` file, which the caller reads.
    pub passes: Vec<Oni2MaterialPass>,
}

/// Mathematical view of an [`Oni2TextMaterial`].
pub struct TextMaterialView {
    pub name: Seq<char>,
    pub diffuse: Seq<Seq<char>>,
    pub texture_name: Option<Seq<char>>,
    pub primitive_count: u32,
    pub packet_count: u32,
    pub passes: Seq<Oni2MaterialPass>,
}

pub open spec fn texts<const N: usize>(a: [String; N]) -> Seq<Seq<char>> {
    a@.map_values(|s: String| s@)
}

impl View for Oni2TextMaterial {
    type V = TextMaterialView;

    open spec fn view(&self) -> TextMaterialView {
        TextMaterialView {
            name: self.name@,
            diffuse: texts(self.diffuse),
            texture_name: match self.texture_name {
                Some(t) => Some(t@),
                None => None,
            },
            primitive_count: self.primitive_count,
            packet_count: self.packet_count,
            passes: self.passes@,
        }
    }
}

/// A model read from a text `.mod` file.
#[derive(Debug, Clone)]
pub struct Oni2TextModel {
    pub vertices: Vec<[String; 3]>,
    pub normals: Vec<[String; 3]>,
    pub colors: Vec<[String; 4]>,
    pub tex_coords: Vec<[String; 2]>,
    pub materials: Vec<Oni2TextMaterial>,
    pub packets: Vec<Oni2Packet>,
    /// Text models are in bone-local space: always false.
    pub world_space_verts: bool,
}

/// What the lines of a text model have given so far.
pub struct TextModelView {
    pub vertices: Seq<Seq<Seq<char>>>,
    pub normals: Seq<Seq<Seq<char>>>,
    pub colors: Seq<Seq<Seq<char>>>,
    pub tex_coords: Seq<Seq<Seq<char>>>,
    pub materials: Seq<TextMaterialView>,
    pub packets: Seq<PacketView>,
    /// A strip line names more indices than it has.
    pub fault: bool,
}

impl View for Oni2TextModel {
    type V = TextModelView;

    open spec fn view(&self) -> TextModelView {
        TextModelView {
            vertices: self.vertices@.map_values(|a: [String; 3]| texts(a)),
            normals: self.normals@.map_values(|a: [String; 3]| texts(a)),
            colors: self.colors@.map_values(|a: [String; 4]| texts(a)),
            tex_coords: self.tex_coords@.map_values(|a: [String; 2]| texts(a)),
            materials: self.materials@.map_values(|m: Oni2TextMaterial| m@),
            packets: self.packets@.map_values(|p: Oni2Packet| p@),
            fault: false,
        }
    }
}

// ---------------------------------------------------------------------
// Fields
// ---------------------------------------------------------------------

/// `t` when it is a valid `f32` literal, else the default's text.
pub open spec fn float_or(t: Seq<char>, default: Seq<char>) -> Seq<char> {
    if is_float_text(t) {
        t
    } else {
        default
    }
}

pub open spec fn u32_or(t: Seq<char>, default: u32) -> u32 {
    match spec_parse_unsigned(t, u32::MAX as int) {
        Some(n) => n as u32,
        None => default,
    }
}

pub open spec fn i32_or(t: Seq<char>, default: i32) -> i32 {
    match spec_parse_i32(t) {
        Some(n) => n,
        None => default,
    }
}

/// The words that parse as `u32`, in order (others dropped).
pub open spec fn parsed_u32s(ws: Seq<Seq<char>>) -> Seq<u32>
    decreases ws.len(),
{
    if ws.len() == 0 {
        Seq::empty()
    } else {
        parsed_u32s(ws.drop_last()) + match spec_parse_unsigned(ws.last(), u32::MAX as int) {
            Some(n) => seq![n as u32],
            None => Seq::empty(),
        }
    }
}

/// `k` float fields from word 1 on, each defaulting to `default`.
pub open spec fn float_fields(ws: Seq<Seq<char>>, k: int, default: Seq<char>) -> Seq<Seq<char>> {
    Seq::new(k as nat, |j: int| float_or(ws[j + 1], default))
}

// ---------------------------------------------------------------------
// Lines
// ---------------------------------------------------------------------

pub open spec fn is_record(t: Seq<char>, tag: Seq<char>) -> bool {
    has_prefix(t, tag + seq!['\t']) || has_prefix(t, tag + seq![' '])
}

pub open spec fn opens_block(t: Seq<char>, head: Seq<char>) -> bool {
    has_prefix(t, head) && t.contains('{')
}

/// A line inside a `mtl` block.
pub open spec fn mtl_line(m: TextMaterialView, t: Seq<char>) -> TextMaterialView {
    let ws = spec_words(t);
    if has_prefix(t, "diffuse:"@) {
        if ws.len() >= 4 {
            TextMaterialView { diffuse: float_fields(ws, 3, "0.8"@), ..m }
        } else {
            m
        }
    } else if has_prefix(t, "texture:"@) {
        if ws.len() >= 3 {
            TextMaterialView { texture_name: Some(trim_quotes(ws[2])), ..m }
        } else {
            m
        }
    } else if has_prefix(t, "primitives:"@) {
        if ws.len() >= 2 {
            TextMaterialView { primitive_count: u32_or(ws[1], 0), ..m }
        } else {
            m
        }
    } else {
        m
    }
}

/// The material built from the lines from `i` up to a `}` line, and the
/// index of that line (or the end).
pub open spec fn mtl_scan(ls: Seq<Seq<char>>, i: int, m: TextMaterialView) -> (TextMaterialView, int)
    decreases ls.len() - i,
{
    if i >= ls.len() || spec_trim(ls[i]) == "}"@ {
        (m, i)
    } else {
        mtl_scan(ls, i + 1, mtl_line(m, spec_trim(ls[i])))
    }
}

/// A packet being read and whether a strip line has overrun its words.
pub struct PacketScan {
    pub packet: PacketView,
    pub fault: bool,
}

/// A line inside a `packet` block.
pub open spec fn packet_line(s: PacketScan, t: Seq<char>) -> PacketScan {
    let ws = spec_words(t);
    let p = s.packet;
    if has_prefix(t, "adj"@) {
        if ws.len() >= 5 {
            let a = Oni2Adjunct {
                vertex_idx: u32_or(ws[1], 0),
                normal_idx: u32_or(ws[2], 0),
                color_idx: u32_or(ws[3], 0),
                tex1_idx: i32_or(ws[4], -1i32),
                bone_idx: if ws.len() >= 7 {
                    u32_or(ws[6], 0)
                } else {
                    0
                },
            };
            PacketScan { packet: PacketView { adjuncts: p.adjuncts.push(a), ..p }, ..s }
        } else {
            s
        }
    } else if has_prefix(t, "stp"@) || has_prefix(t, "str"@) || has_prefix(t, "tri"@) {
        if has_prefix(t, "tri"@) {
            if ws.len() >= 4 {
                PacketScan {
                    packet: PacketView {
                        strips: p.strips.push(parsed_u32s(ws.subrange(1, 4))),
                        strip_types: p.strip_types.push(1),
                        ..p
                    },
                    ..s
                }
            } else {
                s
            }
        } else if ws.len() >= 2 {
            let count = match spec_parse_unsigned(ws[1], usize::MAX as int) {
                Some(n) => n,
                None => 0,
            };
            if 2 + count > ws.len() {
                PacketScan { fault: true, ..s }
            } else {
                PacketScan {
                    packet: PacketView {
                        strips: p.strips.push(parsed_u32s(ws.subrange(2, 2 + count))),
                        strip_types: p.strip_types.push(if has_prefix(t, "stp"@) { 2 } else { 1 }),
                        ..p
                    },
                    ..s
                }
            }
        } else {
            s
        }
    } else if has_prefix(t, "mtx"@) && !has_prefix(t, "mtxv"@) && !has_prefix(t, "mtxn"@) {
        PacketScan {
            packet: PacketView {
                bone_map: if ws.len() >= 1 {
                    parsed_u32s(ws.subrange(1, ws.len() as int))
                } else {
                    Seq::empty()
                },
                ..p
            },
            ..s
        }
    } else {
        s
    }
}

/// The packet built from the lines from `i` up to a `}` line, and the
/// index of that line (or the end).
pub open spec fn packet_scan(ls: Seq<Seq<char>>, i: int, s: PacketScan) -> (PacketScan, int)
    decreases ls.len() - i,
{
    if i >= ls.len() || spec_trim(ls[i]) == "}"@ {
        (s, i)
    } else {
        packet_scan(ls, i + 1, packet_line(s, spec_trim(ls[i])))
    }
}

pub open spec fn empty_packet() -> PacketView {
    PacketView {
        adjuncts: Seq::empty(),
        strips: Seq::empty(),
        strip_types: Seq::empty(),
        material_index: 0,
        bone_map: Seq::empty(),
    }
}

/// The name a `mtl` line gives: its second word.
pub open spec fn mtl_name(ws: Seq<Seq<char>>) -> Seq<char> {
    if ws.len() >= 2 {
        ws[1]
    } else {
        Seq::empty()
    }
}

pub open spec fn new_material(name: Seq<char>) -> TextMaterialView {
    TextMaterialView {
        name,
        diffuse: seq!["0.8"@, "0.8"@, "0.8"@],
        texture_name: None,
        primitive_count: 0,
        packet_count: 0,
        passes: Seq::empty(),
    }
}

/// The slot a packet takes when it is read: its own position, but no
/// further than the last material read so far.
pub open spec fn read_slot(n_packets: int, n_materials: int) -> usize {
    if n_materials == 0 {
        0
    } else if n_packets < n_materials - 1 {
        n_packets as usize
    } else {
        (n_materials - 1) as usize
    }
}

proof fn lemma_mtl_scan_bounds(ls: Seq<Seq<char>>, i: int, m: TextMaterialView)
    ensures
        mtl_scan(ls, i, m).1 >= i,
        i <= ls.len() ==> mtl_scan(ls, i, m).1 <= ls.len(),
    decreases ls.len() - i,
{
    if !(i >= ls.len() || spec_trim(ls[i]) == "}"@) {
        lemma_mtl_scan_bounds(ls, i + 1, mtl_line(m, spec_trim(ls[i])));
    }
}

proof fn lemma_packet_scan_bounds(ls: Seq<Seq<char>>, i: int, s: PacketScan)
    ensures
        packet_scan(ls, i, s).1 >= i,
        i <= ls.len() ==> packet_scan(ls, i, s).1 <= ls.len(),
    decreases ls.len() - i,
{
    if !(i >= ls.len() || spec_trim(ls[i]) == "}"@) {
        lemma_packet_scan_bounds(ls, i + 1, packet_line(s, spec_trim(ls[i])));
    }
}

#[via_fn]
proof fn mod_lines_decreases(ls: Seq<Seq<char>>, i: int, st: TextModelView) {
    if i < ls.len() {
        let t = spec_trim(ls[i]);
        let ws = spec_words(t);
        lemma_mtl_scan_bounds(ls, i + 1, new_material(mtl_name(ws)));
        lemma_packet_scan_bounds(ls, i + 1, PacketScan { packet: empty_packet(), fault: false });
    }
}

/// The model after lines `i..` given what the earlier ones gave.
pub open spec fn mod_lines(ls: Seq<Seq<char>>, i: int, st: TextModelView) -> TextModelView
    decreases ls.len() + 1 - i,
    via mod_lines_decreases
{
    if i >= ls.len() {
        st
    } else {
        let t = spec_trim(ls[i]);
        let ws = spec_words(t);
        if is_record(t, seq!['v']) {
            mod_lines(
                ls,
                i + 1,
                if ws.len() >= 4 {
                    TextModelView { vertices: st.vertices.push(float_fields(ws, 3, "0"@)), ..st }
                } else {
                    st
                },
            )
        } else if is_record(t, seq!['n']) {
            mod_lines(
                ls,
                i + 1,
                if ws.len() >= 4 {
                    TextModelView { normals: st.normals.push(float_fields(ws, 3, "0"@)), ..st }
                } else {
                    st
                },
            )
        } else if is_record(t, seq!['c']) {
            mod_lines(
                ls,
                i + 1,
                if ws.len() >= 5 {
                    TextModelView { colors: st.colors.push(float_fields(ws, 4, "1"@)), ..st }
                } else {
                    st
                },
            )
        } else if is_record(t, seq!['t', '1']) {
            mod_lines(
                ls,
                i + 1,
                if ws.len() >= 3 {
                    TextModelView { tex_coords: st.tex_coords.push(float_fields(ws, 2, "0"@)), ..st }
                } else {
                    st
                },
            )
        } else if opens_block(t, "mtl "@) {
            let (m, j) = mtl_scan(ls, i + 1, new_material(mtl_name(ws)));
            mod_lines(ls, j + 1, TextModelView { materials: st.materials.push(m), ..st })
        } else if opens_block(t, "packet "@) {
            let (s, j) = packet_scan(ls, i + 1, PacketScan { packet: empty_packet(), fault: false });
            let p = PacketView {
                material_index: read_slot(st.packets.len() as int, st.materials.len() as int),
                ..s.packet
            };
            mod_lines(
                ls,
                j + 1,
                TextModelView { packets: st.packets.push(p), fault: st.fault || s.fault, ..st },
            )
        } else {
            mod_lines(ls, i + 1, st)
        }
    }
}

// ---------------------------------------------------------------------
// Packet counts per material
// ---------------------------------------------------------------------

/// `needle` occurs in `hay`.
pub open spec fn has_infix(hay: Seq<char>, needle: Seq<char>) -> bool {
    exists|k: int| 0 <= k <= hay.len() - needle.len() && #[trigger] hay.subrange(k, k + needle.len()) == needle
}

/// The `packets:` count of material `name` from line `i` on: the first
/// `packets:` line inside a `mtl` block whose opening line mentions
/// `name`, its second word as a count (1 when missing or not a number);
/// 1 when there is none.
pub open spec fn packets_from_line(ls: Seq<Seq<char>>, i: int, inside: bool, name: Seq<char>) -> int
    decreases ls.len() - i,
{
    if i >= ls.len() {
        1
    } else {
        let t = spec_trim(ls[i]);
        if opens_block(t, "mtl "@) && has_infix(t, name) {
            packets_from_line(ls, i + 1, true, name)
        } else if inside && has_prefix(t, "packets:"@) {
            let ws = spec_words(t);
            if ws.len() >= 2 {
                match spec_parse_unsigned(ws[1], usize::MAX as int) {
                    Some(n) => n,
                    None => 1,
                }
            } else {
                1
            }
        } else if inside && t == "}"@ {
            packets_from_line(ls, i + 1, false, name)
        } else {
            packets_from_line(ls, i + 1, inside, name)
        }
    }
}

/// The material that packet `k` is reassigned to when materials take
/// runs of packets, `counts[m]` each, from material `m` on; past the
/// last, `counts.len()`.
pub open spec fn run_owner(counts: Seq<int>, m: int, k: int) -> int
    decreases counts.len() - m,
{
    if m >= counts.len() || k < counts[m] {
        m
    } else {
        run_owner(counts, m + 1, k - counts[m])
    }
}

/// The packet counts of the materials, as their `packets:` lines give.
pub open spec fn material_packet_counts(ls: Seq<Seq<char>>, ms: Seq<TextMaterialView>) -> Seq<int> {
    ms.map_values(|m: TextMaterialView| packets_from_line(ls, 0, false, m.name))
}

/// Packets reassigned to the materials that own them by count; a packet
/// past all the counts keeps the slot it was read with.
pub open spec fn reassign(ps: Seq<PacketView>, counts: Seq<int>) -> Seq<PacketView> {
    Seq::new(
        ps.len(),
        |k: int|
            if run_owner(counts, 0, k) < counts.len() {
                PacketView { material_index: run_owner(counts, 0, k) as usize, ..ps[k] }
            } else {
                ps[k]
            },
    )
}

pub open spec fn empty_text_model() -> TextModelView {
    TextModelView {
        vertices: Seq::empty(),
        normals: Seq::empty(),
        colors: Seq::empty(),
        tex_coords: Seq::empty(),
        materials: Seq::empty(),
        packets: Seq::empty(),
        fault: false,
    }
}

/// What a text `.mod` file holds.
pub open spec fn spec_parse_mod(content: Seq<char>) -> TextModelView {
    let ls = spec_lines(content);
    let st = mod_lines(ls, 0, empty_text_model());
    TextModelView { packets: reassign(st.packets, material_packet_counts(ls, st.materials)), ..st }
}

// ---------------------------------------------------------------------
// Reading
// ---------------------------------------------------------------------

fn float_or_text(t: &[char], default: &str) -> (r: String)
    ensures
        r@ == float_or(t@, default@),
{
    if float_text(t) {
        string_from_chars(t)
    } else {
        default.to_string()
    }
}

fn u32_or_exec(t: &[char], default: u32) -> (r: u32)
    ensures
        r == u32_or(t@, default),
{
    match parse_u32(t) {
        Some(n) => n,
        None => default,
    }
}

fn words_of(t: &[char]) -> (r: Vec<Vec<char>>)
    ensures
        r@.map_values(|w: Vec<char>| w@) == spec_words(t@),
{
    let ws = split_whitespace(t);
    assert(ws@.map_values(|w: Vec<char>| w@) =~= spec_words(t@));
    ws
}

/// The words `ws[from..to]` that parse as `u32`.
fn parsed_u32_range(ws: &Vec<Vec<char>>, from: usize, to: usize) -> (r: Vec<u32>)
    requires
        from <= to <= ws@.len(),
    ensures
        r@ == parsed_u32s(ws@.map_values(|w: Vec<char>| w@).subrange(from as int, to as int)),
{
    let ghost wv = ws@.map_values(|w: Vec<char>| w@);
    let mut r: Vec<u32> = Vec::new();
    let mut k = from;
    while k < to
        invariant
            from <= k <= to <= ws@.len(),
            wv == ws@.map_values(|w: Vec<char>| w@),
            r@ == parsed_u32s(wv.subrange(from as int, k as int)),
        decreases to - k,
    {
        assert(wv.subrange(from as int, k + 1).drop_last() =~= wv.subrange(from as int, k as int));
        assert(wv.subrange(from as int, k + 1).last() == ws@[k as int]@);
        match parse_u32(ws[k].as_slice()) {
            Some(n) => {
                r.push(n);
            },
            None => {},
        }
        k = k + 1;
        assert(r@ =~= parsed_u32s(wv.subrange(from as int, k as int)));
    }
    r
}

fn new_text_material(name: &[char]) -> (m: Oni2TextMaterial)
    ensures
        m@ == new_material(name@),
{
    proof {
        reveal_strlit("0.8");
    }
    let m = Oni2TextMaterial {
        name: string_from_chars(name),
        diffuse: ["0.8".to_string(), "0.8".to_string(), "0.8".to_string()],
        texture_name: None,
        primitive_count: 0,
        packet_count: 0,
        passes: Vec::new(),
    };
    assert(texts(m.diffuse) =~= seq!["0.8"@, "0.8"@, "0.8"@]);
    assert(m@.passes =~= Seq::<Oni2MaterialPass>::empty());
    m
}

fn apply_mtl_line(m: &mut Oni2TextMaterial, t: &[char])
    ensures
        final(m)@ == mtl_line(old(m)@, t@),
{
    let ws = words_of(t);
    let ghost wv = ws@.map_values(|w: Vec<char>| w@);
    if starts_with(t, chars_of("diffuse:").as_slice()) {
        if ws.len() >= 4 {
            assert(wv[1] == ws@[1]@ && wv[2] == ws@[2]@ && wv[3] == ws@[3]@);
            m.diffuse = [
                float_or_text(ws[1].as_slice(), "0.8"),
                float_or_text(ws[2].as_slice(), "0.8"),
                float_or_text(ws[3].as_slice(), "0.8"),
            ];
            assert(texts(m.diffuse) =~= float_fields(wv, 3, "0.8"@));
        }
    } else if starts_with(t, chars_of("texture:").as_slice()) {
        if ws.len() >= 3 {
            assert(wv[2] == ws@[2]@);
            let q = trim_quote_chars(ws[2].as_slice());
            m.texture_name = Some(string_from_chars(q.as_slice()));
        }
    } else if starts_with(t, chars_of("primitives:").as_slice()) {
        if ws.len() >= 2 {
            assert(wv[1] == ws@[1]@);
            m.primitive_count = u32_or_exec(ws[1].as_slice(), 0);
        }
    }
}

fn line_is(t: &[char], lit: &str) -> (r: bool)
    ensures
        r == (t@ == lit@),
{
    let l = chars_of(lit);
    crate::text::chars_eq(t, l.as_slice())
}

fn scan_mtl(ls: &Vec<Vec<char>>, start: usize, name: &[char]) -> (r: (Oni2TextMaterial, usize))
    requires
        start <= ls@.len(),
    ensures
        ({
            let s = mtl_scan(ls@.map_values(|l: Vec<char>| l@), start as int, new_material(name@));
            r.0@ == s.0 && r.1 == s.1
        }),
        r.1 <= ls@.len(),
{
    let ghost lv = ls@.map_values(|l: Vec<char>| l@);
    let mut m = new_text_material(name);
    let mut i = start;
    while i < ls.len()
        invariant_except_break
            start <= i <= ls@.len(),
            lv == ls@.map_values(|l: Vec<char>| l@),
            mtl_scan(lv, i as int, m@) == mtl_scan(lv, start as int, new_material(name@)),
        ensures
            i <= ls@.len(),
            mtl_scan(lv, start as int, new_material(name@)) == (m@, i as int),
        decreases ls@.len() - i,
    {
        assert(lv[i as int] == ls@[i as int]@);
        let t = trim(ls[i].as_slice());
        if line_is(t.as_slice(), "}") {
            break;
        }
        apply_mtl_line(&mut m, t.as_slice());
        i = i + 1;
    }
    (m, i)
}

fn new_packet() -> (p: Oni2Packet)
    ensures
        p@ == empty_packet(),
{
    let p = Oni2Packet {
        adjuncts: Vec::new(),
        strips: Vec::new(),
        strip_types: Vec::new(),
        material_index: 0,
        bone_map: Vec::new(),
    };
    assert(p@.strips =~= Seq::<Seq<u32>>::empty());
    p
}

fn apply_packet_line(p: &mut Oni2Packet, fault: &mut bool, t: &[char])
    ensures
        ({
            let s = packet_line(PacketScan { packet: old(p)@, fault: *old(fault) }, t@);
            final(p)@ == s.packet && *final(fault) == s.fault
        }),
{
    let ws = words_of(t);
    let ghost wv = ws@.map_values(|w: Vec<char>| w@);
    let ghost p0 = p@;
    if starts_with(t, chars_of("adj").as_slice()) {
        if ws.len() >= 5 {
            assert(wv[1] == ws@[1]@ && wv[2] == ws@[2]@ && wv[3] == ws@[3]@ && wv[4] == ws@[4]@);
            let bone_idx = if ws.len() >= 7 {
                assert(wv[6] == ws@[6]@);
                u32_or_exec(ws[6].as_slice(), 0)
            } else {
                0
            };
            let tex1_idx = match parse_i32(ws[4].as_slice()) {
                Some(n) => n,
                None => -1,
            };
            let a = Oni2Adjunct {
                vertex_idx: u32_or_exec(ws[1].as_slice(), 0),
                normal_idx: u32_or_exec(ws[2].as_slice(), 0),
                color_idx: u32_or_exec(ws[3].as_slice(), 0),
                tex1_idx,
                bone_idx,
            };
            p.adjuncts.push(a);
            assert(p@.strips =~= p0.strips);
        }
    } else if starts_with(t, chars_of("stp").as_slice()) || starts_with(t, chars_of("str").as_slice())
        || starts_with(t, chars_of("tri").as_slice()) {
        if starts_with(t, chars_of("tri").as_slice()) {
            if ws.len() >= 4 {
                let idx = parsed_u32_range(&ws, 1, 4);
                let ghost iv = idx@;
                p.strips.push(idx);
                p.strip_types.push(1);
                assert(p@.strips =~= p0.strips.push(iv));
            }
        } else if ws.len() >= 2 {
            assert(wv[1] == ws@[1]@);
            let count: usize = match parse_usize(ws[1].as_slice()) {
                Some(n) => n,
                None => 0,
            };
            if count > ws.len() - 2 {
                *fault = true;
            } else {
                let idx = parsed_u32_range(&ws, 2, 2 + count);
                let ghost iv = idx@;
                p.strips.push(idx);
                let st: u32 = if starts_with(t, chars_of("stp").as_slice()) {
                    2
                } else {
                    1
                };
                p.strip_types.push(st);
                assert(p@.strips =~= p0.strips.push(iv));
            }
        }
    } else if starts_with(t, chars_of("mtx").as_slice()) && !starts_with(t, chars_of("mtxv").as_slice())
        && !starts_with(t, chars_of("mtxn").as_slice()) {
        let n = ws.len();
        if n >= 1 {
            p.bone_map = parsed_u32_range(&ws, 1, n);
        } else {
            p.bone_map = Vec::new();
        }
    }
}

fn scan_packet(ls: &Vec<Vec<char>>, start: usize) -> (r: (Oni2Packet, bool, usize))
    requires
        start <= ls@.len(),
    ensures
        ({
            let s = packet_scan(
                ls@.map_values(|l: Vec<char>| l@),
                start as int,
                PacketScan { packet: empty_packet(), fault: false },
            );
            r.0@ == s.0.packet && r.1 == s.0.fault && r.2 == s.1
        }),
        r.2 <= ls@.len(),
{
    let ghost lv = ls@.map_values(|l: Vec<char>| l@);
    let mut p = new_packet();
    let mut fault = false;
    let mut i = start;
    while i < ls.len()
        invariant_except_break
            start <= i <= ls@.len(),
            lv == ls@.map_values(|l: Vec<char>| l@),
            packet_scan(lv, i as int, PacketScan { packet: p@, fault }) == packet_scan(
                lv,
                start as int,
                PacketScan { packet: empty_packet(), fault: false },
            ),
        ensures
            i <= ls@.len(),
            packet_scan(lv, start as int, PacketScan { packet: empty_packet(), fault: false }) == (
            PacketScan { packet: p@, fault }, i as int),
        decreases ls@.len() - i,
    {
        assert(lv[i as int] == ls@[i as int]@);
        let t = trim(ls[i].as_slice());
        if line_is(t.as_slice(), "}") {
            break;
        }
        apply_packet_line(&mut p, &mut fault, t.as_slice());
        i = i + 1;
    }
    (p, fault, i)
}

fn has_infix_exec(hay: &[char], needle: &[char]) -> (r: bool)
    ensures
        r == has_infix(hay@, needle@),
{
    if needle.len() > hay.len() {
        assert(!has_infix(hay@, needle@)) by {
            if has_infix(hay@, needle@) {
                let k = choose|k: int|
                    0 <= k <= hay@.len() - needle@.len() && #[trigger] hay@.subrange(k, k + needle@.len())
                        == needle@;
            }
        }
        return false;
    }
    let last = hay.len() - needle.len();
    let hl = hay.len();
    let mut k: usize = 0;
    loop
        invariant_except_break
            hl == hay@.len(),
            last == hay@.len() - needle@.len(),
            k <= last,
            forall|j: int| 0 <= j < k ==> #[trigger] hay@.subrange(j, j + needle@.len()) != needle@,
        ensures
            forall|j: int| 0 <= j <= last ==> #[trigger] hay@.subrange(j, j + needle@.len()) != needle@,
        decreases last - k,
    {
        let piece = &hay[k..k + needle.len()];
        if crate::text::chars_eq(piece, needle) {
            assert(hay@.subrange(k as int, k + needle@.len()) == needle@);
            return true;
        }
        if k == last {
            assert forall|j: int| 0 <= j <= last implies #[trigger] hay@.subrange(j, j + needle@.len()) != needle@ by {
                if j == k {
                } else {
                    assert(j < k);
                }
            }
            break;
        }
        k = k + 1;
    }
    assert(!has_infix(hay@, needle@)) by {
        if has_infix(hay@, needle@) {
            let j = choose|j: int|
                0 <= j <= hay@.len() - needle@.len() && #[trigger] hay@.subrange(j, j + needle@.len())
                    == needle@;
            assert(hay@.subrange(j, j + needle@.len()) != needle@);
        }
    }
    false
}

fn contains_char(t: &[char], c: char) -> (r: bool)
    ensures
        r == t@.contains(c),
{
    let mut i: usize = 0;
    while i < t.len()
        invariant
            i <= t@.len(),
            forall|j: int| 0 <= j < i ==> t@[j] != c,
        decreases t@.len() - i,
    {
        if t[i] == c {
            assert(t@[i as int] == c);
            return true;
        }
        i = i + 1;
    }
    false
}

fn opens_block_exec(t: &[char], head: &str) -> (r: bool)
    ensures
        r == opens_block(t@, head@),
{
    let h = chars_of(head);
    starts_with(t, h.as_slice()) && contains_char(t, '{')
}

fn is_record_exec(t: &[char], tag: &[char]) -> (r: bool)
    ensures
        r == is_record(t@, tag@),
{
    let mut a: Vec<char> = Vec::new();
    let mut i: usize = 0;
    while i < tag.len()
        invariant
            i <= tag@.len(),
            a@ == tag@.subrange(0, i as int),
        decreases tag@.len() - i,
    {
        a.push(tag[i]);
        i = i + 1;
        assert(a@ =~= tag@.subrange(0, i as int));
    }
    assert(a@ =~= tag@);
    let mut b = a.clone();
    assert(b@ == a@);
    a.push('\t');
    b.push(' ');
    assert(a@ =~= tag@ + seq!['\t']);
    assert(b@ =~= tag@ + seq![' ']);
    starts_with(t, a.as_slice()) || starts_with(t, b.as_slice())
}

/// The `packets:` count of material `name`.
fn packets_of(ls: &Vec<Vec<char>>, name: &[char]) -> (r: usize)
    ensures
        r == packets_from_line(ls@.map_values(|l: Vec<char>| l@), 0, false, name@),
{
    let ghost lv = ls@.map_values(|l: Vec<char>| l@);
    let mut inside = false;
    let mut i: usize = 0;
    while i < ls.len()
        invariant
            i <= ls@.len(),
            lv == ls@.map_values(|l: Vec<char>| l@),
            packets_from_line(lv, i as int, inside, name@) == packets_from_line(lv, 0, false, name@),
        decreases ls@.len() - i,
    {
        assert(lv[i as int] == ls@[i as int]@);
        let t = trim(ls[i].as_slice());
        if opens_block_exec(t.as_slice(), "mtl ") && has_infix_exec(t.as_slice(), name) {
            inside = true;
        } else if inside && starts_with(t.as_slice(), chars_of("packets:").as_slice()) {
            let ws = words_of(t.as_slice());
            let ghost wv = ws@.map_values(|w: Vec<char>| w@);
            if ws.len() >= 2 {
                assert(wv[1] == ws@[1]@);
                return match parse_usize(ws[1].as_slice()) {
                    Some(n) => n,
                    None => 1,
                };
            }
            return 1;
        } else if inside && line_is(t.as_slice(), "}") {
            inside = false;
        }
        i = i + 1;
    }
    1
}

fn run_owner_exec(counts: &Vec<usize>, k: usize) -> (r: usize)
    ensures
        r == run_owner(counts@.map_values(|c: usize| c as int), 0, k as int),
        r <= counts@.len(),
{
    let ghost cv = counts@.map_values(|c: usize| c as int);
    let mut m: usize = 0;
    let mut rem = k;
    while m < counts.len() && rem >= counts[m]
        invariant
            m <= counts@.len(),
            cv == counts@.map_values(|c: usize| c as int),
            run_owner(cv, m as int, rem as int) == run_owner(cv, 0, k as int),
        decreases counts@.len() - m,
    {
        rem = rem - counts[m];
        m = m + 1;
    }
    m
}

pub open spec fn text_model_of(
    vs: Seq<[String; 3]>,
    ns: Seq<[String; 3]>,
    cs: Seq<[String; 4]>,
    ts: Seq<[String; 2]>,
    ms: Seq<Oni2TextMaterial>,
    ps: Seq<Oni2Packet>,
    fault: bool,
) -> TextModelView {
    TextModelView {
        vertices: vs.map_values(|a: [String; 3]| texts(a)),
        normals: ns.map_values(|a: [String; 3]| texts(a)),
        colors: cs.map_values(|a: [String; 4]| texts(a)),
        tex_coords: ts.map_values(|a: [String; 2]| texts(a)),
        materials: ms.map_values(|m: Oni2TextMaterial| m@),
        packets: ps.map_values(|p: Oni2Packet| p@),
        fault,
    }
}

fn float_triple(ws: &Vec<Vec<char>>, default: &str) -> (r: [String; 3])
    requires
        ws@.len() >= 4,
    ensures
        texts(r) == float_fields(ws@.map_values(|w: Vec<char>| w@), 3, default@),
{
    let ghost wv = ws@.map_values(|w: Vec<char>| w@);
    assert(wv[1] == ws@[1]@ && wv[2] == ws@[2]@ && wv[3] == ws@[3]@);
    let r = [
        float_or_text(ws[1].as_slice(), default),
        float_or_text(ws[2].as_slice(), default),
        float_or_text(ws[3].as_slice(), default),
    ];
    assert(texts(r) =~= float_fields(wv, 3, default@));
    r
}

fn float_quad(ws: &Vec<Vec<char>>, default: &str) -> (r: [String; 4])
    requires
        ws@.len() >= 5,
    ensures
        texts(r) == float_fields(ws@.map_values(|w: Vec<char>| w@), 4, default@),
{
    let ghost wv = ws@.map_values(|w: Vec<char>| w@);
    assert(wv[1] == ws@[1]@ && wv[2] == ws@[2]@ && wv[3] == ws@[3]@ && wv[4] == ws@[4]@);
    let r = [
        float_or_text(ws[1].as_slice(), default),
        float_or_text(ws[2].as_slice(), default),
        float_or_text(ws[3].as_slice(), default),
        float_or_text(ws[4].as_slice(), default),
    ];
    assert(texts(r) =~= float_fields(wv, 4, default@));
    r
}

fn float_pair(ws: &Vec<Vec<char>>, default: &str) -> (r: [String; 2])
    requires
        ws@.len() >= 3,
    ensures
        texts(r) == float_fields(ws@.map_values(|w: Vec<char>| w@), 2, default@),
{
    let ghost wv = ws@.map_values(|w: Vec<char>| w@);
    assert(wv[1] == ws@[1]@ && wv[2] == ws@[2]@);
    let r = [float_or_text(ws[1].as_slice(), default), float_or_text(ws[2].as_slice(), default)];
    assert(texts(r) =~= float_fields(wv, 2, default@));
    r
}

#[verifier::rlimit(40)]
fn read_model_lines(ls: &Vec<Vec<char>>) -> (r: (
    Vec<[String; 3]>,
    Vec<[String; 3]>,
    Vec<[String; 4]>,
    Vec<[String; 2]>,
    Vec<Oni2TextMaterial>,
    Vec<Oni2Packet>,
    bool,
))
    ensures
        text_model_of(r.0@, r.1@, r.2@, r.3@, r.4@, r.5@, r.6) == mod_lines(
            ls@.map_values(|l: Vec<char>| l@),
            0,
            empty_text_model(),
        ),
{
    let ghost lv = ls@.map_values(|l: Vec<char>| l@);
    let mut vs: Vec<[String; 3]> = Vec::new();
    let mut ns: Vec<[String; 3]> = Vec::new();
    let mut cs: Vec<[String; 4]> = Vec::new();
    let mut ts: Vec<[String; 2]> = Vec::new();
    let mut ms: Vec<Oni2TextMaterial> = Vec::new();
    let mut ps: Vec<Oni2Packet> = Vec::new();
    let mut fault = false;
    let mut i: usize = 0;
    proof {
        let e = text_model_of(vs@, ns@, cs@, ts@, ms@, ps@, fault);
        assert(e.vertices =~= empty_text_model().vertices);
        assert(e.normals =~= empty_text_model().normals);
        assert(e.colors =~= empty_text_model().colors);
        assert(e.tex_coords =~= empty_text_model().tex_coords);
        assert(e.materials =~= empty_text_model().materials);
        assert(e.packets =~= empty_text_model().packets);
    }
    while i < ls.len()
        invariant
            i <= ls@.len(),
            lv == ls@.map_values(|l: Vec<char>| l@),
            mod_lines(lv, i as int, text_model_of(vs@, ns@, cs@, ts@, ms@, ps@, fault)) == mod_lines(
                lv,
                0,
                empty_text_model(),
            ),
        decreases ls@.len() - i,
    {
        let ghost before = text_model_of(vs@, ns@, cs@, ts@, ms@, ps@, fault);
        let ghost i0 = i as int;
        assert(lv[i as int] == ls@[i as int]@);
        let t = trim(ls[i].as_slice());
        let ws = words_of(t.as_slice());
        let ghost wv = ws@.map_values(|w: Vec<char>| w@);
        assert(seq!['v'] =~= ['v']@);
        assert(seq!['n'] =~= ['n']@);
        assert(seq!['c'] =~= ['c']@);
        assert(seq!['t', '1'] =~= ['t', '1']@);
        if is_record_exec(t.as_slice(), &['v']) {
            if ws.len() >= 4 {
                let rec = float_triple(&ws, "0");
                vs.push(rec);
                assert(text_model_of(vs@, ns@, cs@, ts@, ms@, ps@, fault).vertices =~= before.vertices.push(
                    texts(rec),
                ));
            }
            i = i + 1;
            assert(mod_lines(lv, i0, before) == mod_lines(lv, i as int, text_model_of(vs@, ns@, cs@, ts@, ms@, ps@, fault)));
        } else if is_record_exec(t.as_slice(), &['n']) {
            if ws.len() >= 4 {
                let rec = float_triple(&ws, "0");
                ns.push(rec);
                assert(text_model_of(vs@, ns@, cs@, ts@, ms@, ps@, fault).normals =~= before.normals.push(
                    texts(rec),
                ));
            }
            i = i + 1;
        } else if is_record_exec(t.as_slice(), &['c']) {
            if ws.len() >= 5 {
                let rec = float_quad(&ws, "1");
                cs.push(rec);
                assert(text_model_of(vs@, ns@, cs@, ts@, ms@, ps@, fault).colors =~= before.colors.push(
                    texts(rec),
                ));
            }
            i = i + 1;
        } else if is_record_exec(t.as_slice(), &['t', '1']) {
            if ws.len() >= 3 {
                let rec = float_pair(&ws, "0");
                ts.push(rec);
                assert(text_model_of(vs@, ns@, cs@, ts@, ms@, ps@, fault).tex_coords =~= before.tex_coords.push(
                    texts(rec),
                ));
            }
            i = i + 1;
        } else if opens_block_exec(t.as_slice(), "mtl ") {
            let name: Vec<char> = if ws.len() >= 2 {
                assert(wv[1] == ws@[1]@);
                ws[1].clone()
            } else {
                Vec::new()
            };
            assert(name@ == mtl_name(wv));
            let (m, j) = scan_mtl(ls, i + 1, name.as_slice());
            proof {
                lemma_mtl_scan_bounds(lv, i + 1, new_material(name@));
            }
            let ghost mv = m@;
            ms.push(m);
            assert(text_model_of(vs@, ns@, cs@, ts@, ms@, ps@, fault).materials =~= before.materials.push(mv));
            i = if j < ls.len() {
                j + 1
            } else {
                ls.len()
            };
            assert(mod_lines(lv, i0, before) == mod_lines(lv, j + 1, text_model_of(vs@, ns@, cs@, ts@, ms@, ps@, fault)));
            proof {
                if j >= ls.len() {
                    assert(mod_lines(lv, j + 1, text_model_of(vs@, ns@, cs@, ts@, ms@, ps@, fault)) == text_model_of(
                        vs@,
                        ns@,
                        cs@,
                        ts@,
                        ms@,
                        ps@,
                        fault,
                    ));
                }
            }
        } else if opens_block_exec(t.as_slice(), "packet ") {
            let (mut p, pf, j) = scan_packet(ls, i + 1);
            proof {
                lemma_packet_scan_bounds(lv, i + 1, PacketScan { packet: empty_packet(), fault: false });
            }
            let slot: usize = if ms.len() == 0 {
                0
            } else if ps.len() < ms.len() - 1 {
                ps.len()
            } else {
                ms.len() - 1
            };
            p.material_index = slot;
            let ghost pv = p@;
            ps.push(p);
            fault = fault || pf;
            assert(text_model_of(vs@, ns@, cs@, ts@, ms@, ps@, fault).packets =~= before.packets.push(pv));
            i = if j < ls.len() {
                j + 1
            } else {
                ls.len()
            };
            assert(mod_lines(lv, i0, before) == mod_lines(lv, j + 1, text_model_of(vs@, ns@, cs@, ts@, ms@, ps@, fault)));
        } else {
            i = i + 1;
        }
    }
    (vs, ns, cs, ts, ms, ps, fault)
}

/// The packets with their slots reassigned by the counts.
fn reassign_packets(ps: Vec<Oni2Packet>, counts: &Vec<usize>) -> (r: Vec<Oni2Packet>)
    ensures
        r@.map_values(|p: Oni2Packet| p@) == reassign(
            ps@.map_values(|p: Oni2Packet| p@),
            counts@.map_values(|c: usize| c as int),
        ),
{
    let ghost orig = ps@.map_values(|p: Oni2Packet| p@);
    let ghost cv = counts@.map_values(|c: usize| c as int);
    let mut rev: Vec<Oni2Packet> = Vec::new();
    let mut src = ps;
    let n = src.len();
    while src.len() > 0
        invariant
            src@.len() + rev@.len() == n,
            n == orig.len(),
            forall|k: int| 0 <= k < src@.len() ==> (#[trigger] src@[k])@ == orig[k],
            forall|k: int| 0 <= k < rev@.len() ==> (#[trigger] rev@[k])@ == orig[n - 1 - k],
        decreases src@.len(),
    {
        let p = src.pop().unwrap();
        rev.push(p);
    }
    let mut out: Vec<Oni2Packet> = Vec::new();
    while rev.len() > 0
        invariant
            rev@.len() + out@.len() == n,
            n == orig.len(),
            cv == counts@.map_values(|c: usize| c as int),
            forall|k: int| 0 <= k < rev@.len() ==> (#[trigger] rev@[k])@ == orig[n - 1 - k],
            forall|k: int|
                0 <= k < out@.len() ==> (#[trigger] out@[k])@ == reassign(orig, cv)[k],
        decreases rev@.len(),
    {
        let mut p = rev.pop().unwrap();
        let k = out.len();
        let owner = run_owner_exec(counts, k);
        if owner < counts.len() {
            p.material_index = owner;
        }
        out.push(p);
    }
    assert(out@.map_values(|p: Oni2Packet| p@) =~= reassign(orig, cv));
    out
}

fn read_text_model(content: &str) -> (r: (Oni2TextModel, bool))
    ensures
        (TextModelView { fault: r.1, ..r.0@ }) == spec_parse_mod(content@),
        !r.0.world_space_verts,
{
    let chars = chars_of(content);
    let ls = lines(chars.as_slice());
    let ghost lv = ls@.map_values(|l: Vec<char>| l@);
    assert(lv =~= spec_lines(content@));
    let (vs, ns, cs, ts, ms, ps, fault) = read_model_lines(&ls);
    let mut counts: Vec<usize> = Vec::new();
    let mut m: usize = 0;
    while m < ms.len()
        invariant
            m <= ms@.len(),
            lv == ls@.map_values(|l: Vec<char>| l@),
            counts@.map_values(|c: usize| c as int) == material_packet_counts(
                lv,
                ms@.map_values(|x: Oni2TextMaterial| x@),
            ).subrange(0, m as int),
        decreases ms@.len() - m,
    {
        let name = chars_of(ms[m].name.as_str());
        let c = packets_of(&ls, name.as_slice());
        assert(ms@.map_values(|x: Oni2TextMaterial| x@)[m as int].name == name@);
        assert(c == material_packet_counts(lv, ms@.map_values(|x: Oni2TextMaterial| x@))[m as int]);
        let ghost before = counts@.map_values(|c: usize| c as int);
        counts.push(c);
        assert(counts@.map_values(|c: usize| c as int) =~= before.push(c as int));
        m = m + 1;
        assert(counts@.map_values(|c: usize| c as int) =~= material_packet_counts(
            lv,
            ms@.map_values(|x: Oni2TextMaterial| x@),
        ).subrange(0, m as int));
    }
    assert(counts@.map_values(|c: usize| c as int) =~= material_packet_counts(
        lv,
        ms@.map_values(|x: Oni2TextMaterial| x@),
    ));
    let packets = reassign_packets(ps, &counts);
    let model = Oni2TextModel {
        vertices: vs,
        normals: ns,
        colors: cs,
        tex_coords: ts,
        materials: ms,
        packets,
        world_space_verts: false,
    };
    (model, fault)
}

/// Whether `parse_mod` must not be given `content`: a `str` or `stp` line
/// of a packet names more indices than the line holds.
pub fn mod_text_would_fault(content: &str) -> (r: bool)
    ensures
        r == spec_parse_mod(content@).fault,
{
    let (_, fault) = read_text_model(content);
    fault
}

/// Reads a text `.mod` file.  Material passes are left empty: they come
/// from each material's `<name>.shader` file, which the caller reads and
/// parses with `parse_shader`.
pub fn parse_mod(content: &str) -> (r: Oni2TextModel)
    requires
        !spec_parse_mod(content@).fault,
    ensures
        r@ == spec_parse_mod(content@),
        !r.world_space_verts,
{
    let (model, _) = read_text_model(content);
    model
}

} // verus!
