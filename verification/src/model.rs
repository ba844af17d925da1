//! `.mod` models in the binary `version: 2.10` layout, and the `.shader`
//! files that give their materials' passes.
//!
//! ```text
//! 0     "version: 2.10" and a NUL
//! 14    eleven u32 counts: verts, normals, colors, tex1s, tex2s, tangents,
//!       materials, adjuncts, primitives, matrices, reskins
//! 58    verts × 3 f32, normals × 3 f32, colors × 4 f32, tex1s × 2 f32,
//!       tex2s × 2 f32 (skipped), tangents × 3 f32 (skipped)
//!       materials, one variable-length record each
//!       packets, up to the `mtxv` marker near the end of the file
//! ```
//!
//! Every multi-byte field is little-endian.  Float fields are kept as their
//! IEEE-754 bit patterns (`f32::from_bits` turns one into a number).
use crate::hd_bd::u32_le;
use crate::text::{
    chars_of, lines, lowercase, parse_u32, spec_lines, spec_parse_unsigned, spec_trim, spec_words,
    split_whitespace, string_from_chars, to_lowercase, trim, trim_quote_chars, trim_quotes,
};
use crate::types::{empty_pass, Oni2Adjunct, Oni2MaterialPass, Oni2Packet, PacketView, PassView};
use vstd::prelude::*;

verus! {

// ---------------------------------------------------------------------
// Bytes
// ---------------------------------------------------------------------

/// The little-endian `u32` at `off`.
pub open spec fn le32(d: Seq<u8>, off: int) -> u32 {
    u32_le(d, off) as u32
}

pub(crate) fn le32_at(data: &[u8], off: usize) -> (r: u32)
    requires
        off + 4 <= data@.len(),
    ensures
        r == le32(data@, off as int),
{
    data[off] as u32 + 256 * data[off + 1] as u32 + 65536 * data[off + 2] as u32 + 16777216
        * data[off + 3] as u32
}

/// What std `str::from_utf8` gives for `bytes`: the decoded characters,
/// or `None` when they are not valid UTF-8.
pub uninterp spec fn utf8_decode(bytes: Seq<u8>) -> Option<Seq<char>>;

pub open spec fn all_ascii(bytes: Seq<u8>) -> bool {
    forall|i: int| 0 <= i < bytes.len() ==> bytes[i] < 0x80
}

/// The characters of ASCII bytes, one each.
pub open spec fn ascii_chars(bytes: Seq<u8>) -> Seq<char> {
    bytes.map_values(|b: u8| b as char)
}

/// std `str::from_utf8`, its text copied into a `String`.  The result is
/// named by `utf8_decode`; the one fact stated of it is the documented one
/// that ASCII bytes are valid UTF-8 and decode to one character each.
#[verifier::external_body]
fn decode_utf8(bytes: &[u8]) -> (r: Option<String>)
    ensures
        r matches Some(s) ==> utf8_decode(bytes@) == Some(s@),
        r is None ==> utf8_decode(bytes@) is None,
        all_ascii(bytes@) ==> r is Some && r->Some_0@ == ascii_chars(bytes@),
{
    match std::str::from_utf8(bytes) {
        Ok(s) => Some(s.to_string()),
        Err(_) => None,
    }
}

/// `from_utf8(bytes).unwrap_or("")`.
pub open spec fn utf8_or_empty(bytes: Seq<u8>) -> Seq<char> {
    match utf8_decode(bytes) {
        Some(s) => s,
        None => Seq::empty(),
    }
}

fn text_of_bytes(data: &[u8], start: usize, end: usize) -> (r: Vec<char>)
    requires
        start <= end <= data@.len(),
    ensures
        r@ == utf8_or_empty(data@.subrange(start as int, end as int)),
{
    let slice = &data[start..end];
    match decode_utf8(slice) {
        Some(s) => chars_of(s.as_str()),
        None => Vec::new(),
    }
}

// ---------------------------------------------------------------------
// Fixed-size records
// ---------------------------------------------------------------------

/// `k` consecutive little-endian `u32`s from `off`.
pub open spec fn words(d: Seq<u8>, off: int, k: int) -> Seq<u32> {
    Seq::new(k as nat, |j: int| le32(d, off + 4 * j))
}

/// How many records of `width` bytes, up to `n`, fit one after another
/// between `off` and `len`.
pub open spec fn records_fit(len: int, off: int, n: int, width: int) -> int {
    if off > len {
        0
    } else if (len - off) / width < n {
        (len - off) / width
    } else {
        n
    }
}

fn read_vec3s(data: &[u8], off: usize, n: u32) -> (r: (Vec<[u32; 3]>, usize))
    requires
        off <= data@.len(),
    ensures
        r.0@.len() == records_fit(data@.len() as int, off as int, n as int, 12),
        forall|i: int|
            0 <= i < r.0@.len() ==> (#[trigger] r.0@[i])@ == words(data@, off + 12 * i, 3),
        r.1 == off + 12 * r.0@.len(),
{
    let mut v: Vec<[u32; 3]> = Vec::new();
    let mut p = off;
    let mut k: u32 = 0;
    while k < n
        invariant_except_break
            k <= n,
            off <= p <= data@.len(),
            p == off + 12 * k,
            v@.len() == k,
            forall|i: int| 0 <= i < v@.len() ==> (#[trigger] v@[i])@ == words(data@, off + 12 * i, 3),
        ensures
            off <= p <= data@.len(),
            p == off + 12 * v@.len(),
            v@.len() == records_fit(data@.len() as int, off as int, n as int, 12),
            forall|i: int| 0 <= i < v@.len() ==> (#[trigger] v@[i])@ == words(data@, off + 12 * i, 3),
        decreases n - k,
    {
        if data.len() - p < 12 {
            assert((data@.len() - off) / 12 == k as int) by (nonlinear_arith)
                requires
                    p == off + 12 * k,
                    data@.len() - p < 12,
                    p <= data@.len(),
            ;
            break;
        }
        let rec = [le32_at(data, p), le32_at(data, p + 4), le32_at(data, p + 8)];
        assert(rec@ =~= words(data@, p as int, 3));
        v.push(rec);
        p = p + 12;
        k = k + 1;
        proof {
            if k == n {
                assert((data@.len() - off) / 12 >= n as int) by (nonlinear_arith)
                    requires
                        p == off + 12 * n,
                        p <= data@.len(),
                ;
            }
        }
    }
    (v, p)
}

fn read_vec4s(data: &[u8], off: usize, n: u32) -> (r: (Vec<[u32; 4]>, usize))
    requires
        off <= data@.len(),
    ensures
        r.0@.len() == records_fit(data@.len() as int, off as int, n as int, 16),
        forall|i: int|
            0 <= i < r.0@.len() ==> (#[trigger] r.0@[i])@ == words(data@, off + 16 * i, 4),
        r.1 == off + 16 * r.0@.len(),
{
    let mut v: Vec<[u32; 4]> = Vec::new();
    let mut p = off;
    let mut k: u32 = 0;
    while k < n
        invariant_except_break
            k <= n,
            off <= p <= data@.len(),
            p == off + 16 * k,
            v@.len() == k,
            forall|i: int| 0 <= i < v@.len() ==> (#[trigger] v@[i])@ == words(data@, off + 16 * i, 4),
        ensures
            off <= p <= data@.len(),
            p == off + 16 * v@.len(),
            v@.len() == records_fit(data@.len() as int, off as int, n as int, 16),
            forall|i: int| 0 <= i < v@.len() ==> (#[trigger] v@[i])@ == words(data@, off + 16 * i, 4),
        decreases n - k,
    {
        if data.len() - p < 16 {
            assert((data@.len() - off) / 16 == k as int) by (nonlinear_arith)
                requires
                    p == off + 16 * k,
                    data@.len() - p < 16,
                    p <= data@.len(),
            ;
            break;
        }
        let rec = [le32_at(data, p), le32_at(data, p + 4), le32_at(data, p + 8), le32_at(data, p + 12)];
        assert(rec@ =~= words(data@, p as int, 4));
        v.push(rec);
        p = p + 16;
        k = k + 1;
        proof {
            if k == n {
                assert((data@.len() - off) / 16 >= n as int) by (nonlinear_arith)
                    requires
                        p == off + 16 * n,
                        p <= data@.len(),
                ;
            }
        }
    }
    (v, p)
}

fn read_vec2s(data: &[u8], off: usize, n: u32) -> (r: (Vec<[u32; 2]>, usize))
    requires
        off <= data@.len(),
    ensures
        r.0@.len() == records_fit(data@.len() as int, off as int, n as int, 8),
        forall|i: int|
            0 <= i < r.0@.len() ==> (#[trigger] r.0@[i])@ == words(data@, off + 8 * i, 2),
        r.1 == off + 8 * r.0@.len(),
{
    let mut v: Vec<[u32; 2]> = Vec::new();
    let mut p = off;
    let mut k: u32 = 0;
    while k < n
        invariant_except_break
            k <= n,
            off <= p <= data@.len(),
            p == off + 8 * k,
            v@.len() == k,
            forall|i: int| 0 <= i < v@.len() ==> (#[trigger] v@[i])@ == words(data@, off + 8 * i, 2),
        ensures
            off <= p <= data@.len(),
            p == off + 8 * v@.len(),
            v@.len() == records_fit(data@.len() as int, off as int, n as int, 8),
            forall|i: int| 0 <= i < v@.len() ==> (#[trigger] v@[i])@ == words(data@, off + 8 * i, 2),
        decreases n - k,
    {
        if data.len() - p < 8 {
            assert((data@.len() - off) / 8 == k as int) by (nonlinear_arith)
                requires
                    p == off + 8 * k,
                    data@.len() - p < 8,
                    p <= data@.len(),
            ;
            break;
        }
        let rec = [le32_at(data, p), le32_at(data, p + 4)];
        assert(rec@ =~= words(data@, p as int, 2));
        v.push(rec);
        p = p + 8;
        k = k + 1;
        proof {
            if k == n {
                assert((data@.len() - off) / 8 >= n as int) by (nonlinear_arith)
                    requires
                        p == off + 8 * n,
                        p <= data@.len(),
                ;
            }
        }
    }
    (v, p)
}

// ---------------------------------------------------------------------
// Materials
// ---------------------------------------------------------------------

/// A material of a model.
#[derive(Debug, Clone)]
pub struct Oni2Material {
    pub name: String,
    /// Diffuse colour, red, green, blue, as `f32` bit patterns.
    pub diffuse: [u32; 3],
    pub texture_name: Option<String>,
    pub primitive_count: u32,
    pub packet_count: u32,
    /// Passes of the material's `.shader` file, which the caller reads.
    pub passes: Vec<Oni2MaterialPass>,
}

/// Mathematical view of an [`Oni2Material`].
pub struct MaterialView {
    pub name: Seq<char>,
    pub diffuse: Seq<u32>,
    pub texture_name: Option<Seq<char>>,
    pub primitive_count: u32,
    pub packet_count: u32,
    pub passes: Seq<Oni2MaterialPass>,
}

impl View for Oni2Material {
    type V = MaterialView;

    open spec fn view(&self) -> MaterialView {
        MaterialView {
            name: self.name@,
            diffuse: self.diffuse@,
            texture_name: match self.texture_name {
                Some(t) => Some(t@),
                None => None,
            },
            primitive_count: self.primitive_count,
            packet_count: self.packet_count,
            passes: self.passes@,
        }
    }
}

pub open spec fn is_ascii_letter(b: u8) -> bool {
    (97 <= b <= 122) || (65 <= b <= 90)
}

/// The first index from `i` that holds a space or a NUL, or the end.
pub open spec fn name_end(d: Seq<u8>, i: int) -> int
    decreases d.len() - i,
{
    if i >= d.len() || d[i] == 0x20 || d[i] == 0 {
        i
    } else {
        name_end(d, i + 1)
    }
}

/// The first index from `i` that holds a NUL, or the end.
pub open spec fn nul_index(d: Seq<u8>, i: int) -> int
    decreases d.len() - i,
{
    if i >= d.len() || d[i] == 0 {
        i
    } else {
        nul_index(d, i + 1)
    }
}

/// From `i`, in steps of four bytes, the first index whose byte is an
/// ASCII letter, or the first from which four bytes no longer fit.
pub open spec fn letter_index(d: Seq<u8>, i: int) -> int
    decreases d.len() - i,
{
    if i + 4 > d.len() || is_ascii_letter(d[i]) {
        i
    } else {
        letter_index(d, i + 4)
    }
}

/// The first index from `i` that does not hold a NUL, or the end.
pub open spec fn skip_nuls(d: Seq<u8>, i: int) -> int
    decreases d.len() - i,
{
    if i >= d.len() || d[i] != 0 {
        i
    } else {
        skip_nuls(d, i + 1)
    }
}

/// The material record at `p` and the offset after it; `None` with the
/// offset reached when the file ends inside its fixed fields:
///
/// name up to a space or NUL (one terminator skipped), packet count,
/// primitive count, texture count, illumination, ambient × 3, diffuse × 3,
/// specular × 3, then 4-byte words up to one starting with a letter, the
/// texture name up to a NUL (trimmed; empty is none), and NUL padding.
pub open spec fn spec_material(d: Seq<u8>, p: int) -> (Option<MaterialView>, int) {
    let ne = name_end(d, p);
    let p1 = if ne < d.len() {
        ne + 1
    } else {
        ne
    };
    if p1 + 16 > d.len() {
        (None, p1)
    } else if p1 + 52 > d.len() {
        (None, p1 + 16)
    } else {
        let p3 = letter_index(d, p1 + 52);
        let te = nul_index(d, p3);
        let tex = spec_trim(utf8_or_empty(d.subrange(p3, te)));
        (
            Some(
                MaterialView {
                    name: utf8_or_empty(d.subrange(p, ne)),
                    diffuse: words(d, p1 + 28, 3),
                    texture_name: if tex.len() == 0 {
                        None
                    } else {
                        Some(tex)
                    },
                    primitive_count: le32(d, p1 + 4),
                    packet_count: le32(d, p1),
                    passes: Seq::empty(),
                },
            ),
            skip_nuls(d, te),
        )
    }
}

/// Up to `n` material records from `p`, stopping at the first that does
/// not fit, and the offset reached.
pub open spec fn materials_from(d: Seq<u8>, p: int, n: nat) -> (Seq<MaterialView>, int)
    decreases n,
{
    if n == 0 {
        (Seq::empty(), p)
    } else {
        match spec_material(d, p) {
            (None, q) => (Seq::empty(), q),
            (Some(m), q) => {
                let (rest, r) = materials_from(d, q, (n - 1) as nat);
                (seq![m] + rest, r)
            },
        }
    }
}

proof fn lemma_name_end(d: Seq<u8>, i: int)
    requires
        0 <= i <= d.len(),
    ensures
        i <= name_end(d, i) <= d.len(),
        forall|k: int| i <= k < name_end(d, i) ==> d[k] != 0x20 && d[k] != 0,
        name_end(d, i) < d.len() ==> d[name_end(d, i)] == 0x20 || d[name_end(d, i)] == 0,
    decreases d.len() - i,
{
    if i < d.len() && d[i] != 0x20 && d[i] != 0 {
        lemma_name_end(d, i + 1);
    }
}

fn find_name_end(data: &[u8], start: usize) -> (r: usize)
    requires
        start <= data@.len(),
    ensures
        r == name_end(data@, start as int),
{
    let mut i = start;
    while i < data.len() && data[i] != 0x20 && data[i] != 0
        invariant
            start <= i <= data@.len(),
            name_end(data@, i as int) == name_end(data@, start as int),
        decreases data@.len() - i,
    {
        i = i + 1;
    }
    i
}

fn find_nul(data: &[u8], start: usize) -> (r: usize)
    requires
        start <= data@.len(),
    ensures
        r == nul_index(data@, start as int),
        start <= r <= data@.len(),
{
    let mut i = start;
    while i < data.len() && data[i] != 0
        invariant
            start <= i <= data@.len(),
            nul_index(data@, i as int) == nul_index(data@, start as int),
        decreases data@.len() - i,
    {
        i = i + 1;
    }
    i
}

fn find_letter(data: &[u8], start: usize) -> (r: usize)
    requires
        start <= data@.len(),
    ensures
        r == letter_index(data@, start as int),
        start <= r <= data@.len(),
{
    let mut i = start;
    while data.len() - i >= 4 && !((97 <= data[i] && data[i] <= 122) || (65 <= data[i] && data[i] <= 90))
        invariant
            start <= i <= data@.len(),
            letter_index(data@, i as int) == letter_index(data@, start as int),
        decreases data@.len() - i,
    {
        i = i + 4;
    }
    i
}

fn skip_nul_bytes(data: &[u8], start: usize) -> (r: usize)
    requires
        start <= data@.len(),
    ensures
        r == skip_nuls(data@, start as int),
        start <= r <= data@.len(),
{
    let mut i = start;
    while i < data.len() && data[i] == 0
        invariant
            start <= i <= data@.len(),
            skip_nuls(data@, i as int) == skip_nuls(data@, start as int),
        decreases data@.len() - i,
    {
        i = i + 1;
    }
    i
}

fn parse_material(data: &[u8], p: usize) -> (r: (Option<Oni2Material>, usize))
    requires
        p <= data@.len(),
    ensures
        r.1 == spec_material(data@, p as int).1,
        r.1 <= data@.len(),
        match spec_material(data@, p as int).0 {
            Some(m) => r.0 matches Some(x) && x@ == m,
            None => r.0 is None,
        },
{
    proof {
        lemma_name_end(data@, p as int);
    }
    let ne = find_name_end(data, p);
    let name_chars = text_of_bytes(data, p, ne);
    let p1 = if ne < data.len() {
        ne + 1
    } else {
        ne
    };
    if data.len() - p1 < 16 {
        return (None, p1);
    }
    if data.len() - p1 < 52 {
        return (None, p1 + 16);
    }
    let packet_count = le32_at(data, p1);
    let primitive_count = le32_at(data, p1 + 4);
    let diffuse = [le32_at(data, p1 + 28), le32_at(data, p1 + 32), le32_at(data, p1 + 36)];
    assert(diffuse@ =~= words(data@, p1 + 28, 3));
    let p3 = find_letter(data, p1 + 52);
    let te = find_nul(data, p3);
    let raw = text_of_bytes(data, p3, te);
    let tex = trim(raw.as_slice());
    let texture_name = if tex.len() == 0 {
        None
    } else {
        Some(string_from_chars(tex.as_slice()))
    };
    let end = skip_nul_bytes(data, te);
    let m = Oni2Material {
        name: string_from_chars(name_chars.as_slice()),
        diffuse,
        texture_name,
        primitive_count,
        packet_count,
        passes: Vec::new(),
    };
    assert(m@.passes =~= Seq::<Oni2MaterialPass>::empty());
    (Some(m), end)
}

/// The material views of `ms`.
pub open spec fn material_views(ms: Seq<Oni2Material>) -> Seq<MaterialView> {
    ms.map_values(|m: Oni2Material| m@)
}

fn parse_materials(data: &[u8], p: usize, n: u32) -> (r: (Vec<Oni2Material>, usize))
    requires
        p <= data@.len(),
    ensures
        (material_views(r.0@), r.1 as int) == materials_from(data@, p as int, n as nat),
        r.1 <= data@.len(),
{
    let mut ms: Vec<Oni2Material> = Vec::new();
    let mut q = p;
    let mut k: u32 = 0;
    while k < n
        invariant_except_break
            k <= n,
            q <= data@.len(),
            materials_from(data@, p as int, n as nat) == ({
                let (rest, r) = materials_from(data@, q as int, (n - k) as nat);
                (material_views(ms@) + rest, r)
            }),
        ensures
            q <= data@.len(),
            materials_from(data@, p as int, n as nat) == (material_views(ms@), q as int),
        decreases n - k,
    {
        let (m, next) = parse_material(data, q);
        match m {
            Some(x) => {
                let ghost before = material_views(ms@);
                ms.push(x);
                assert(material_views(ms@) =~= before + seq![x@]);
                q = next;
                k = k + 1;
                proof {
                    let (rest, r) = materials_from(data@, q as int, (n - k) as nat);
                    assert(before + (seq![x@] + rest) =~= material_views(ms@) + rest);
                }
            },
            None => {
                q = next;
                assert(material_views(ms@) + Seq::<MaterialView>::empty() =~= material_views(ms@));
                break;
            },
        }
    }
    proof {
        if k == n {
            assert(material_views(ms@) + Seq::<MaterialView>::empty() =~= material_views(ms@));
        }
    }
    (ms, q)
}

// ---------------------------------------------------------------------
// Packets
// ---------------------------------------------------------------------

/// Slack beyond the end of the packet region that a packet's skipped
/// records can carry the offset to.
pub const PACKET_SLACK: u64 = 0x20_0000_0000;

/// The adjunct record (6 × u32) at `q`: vertex, normal, colour, texture
/// coordinate (signed), second texture coordinate (unused), bone.
pub open spec fn spec_adjunct(d: Seq<u8>, q: int) -> Oni2Adjunct {
    Oni2Adjunct {
        vertex_idx: le32(d, q),
        normal_idx: le32(d, q + 4),
        color_idx: le32(d, q + 8),
        tex1_idx: le32(d, q + 12) as i32,
        bone_idx: le32(d, q + 20),
    }
}

/// Up to `n` adjunct records from `q` that end by `end`.
pub open spec fn adjuncts_at(d: Seq<u8>, q: int, end: int, n: int) -> Seq<Oni2Adjunct> {
    Seq::new(records_fit(end, q, n, 24) as nat, |i: int| spec_adjunct(d, q + 24 * i))
}

/// A `u32` keeps its value as an `int`, and as `i32` it is the two's
/// complement value of its bits.
proof fn lemma_u32_as_i32(u: u32)
    ensures
        (u as i32) as int == if u >= 0x8000_0000 {
            u as int - 0x1_0000_0000
        } else {
            u as int
        },
{
    if u >= 0x8000_0000 {
        assert((u as i32) as int == u as int - 0x1_0000_0000) by (bit_vector)
            requires
                u >= 0x8000_0000u32,
        ;
    } else {
        assert((u as i32) as int == u as int) by (bit_vector)
            requires
                u < 0x8000_0000u32,
        ;
    }
}

/// Four bytes read little-endian fit a `u32`.
proof fn lemma_u32_le_range(d: Seq<u8>, off: int)
    ensures
        0 <= u32_le(d, off) < 0x1_0000_0000,
{
}

/// Record `i` read from `q` lies inside the bytes `q..end`.
proof fn lemma_adjunct_in_range(d: Seq<u8>, q: int, end: int, n: int, i: int)
    requires
        0 <= n,
        0 <= i < adjuncts_at(d, q, end, n).len(),
    ensures
        q + 24 * i + 24 <= end,
{
    let c = adjuncts_at(d, q, end, n).len() as int;
    assert(c == records_fit(end, q, n, 24) as nat);
    assert(q <= end);
    let w = (end - q) / 24;
    assert(w >= 0) by (nonlinear_arith)
        requires
            q <= end,
            w == (end - q) / 24,
    ;
    if w < n {
        assert(c == w);
    } else {
        assert(c == n as nat);
    }
    assert(c <= (end - q) / 24);
    assert(q + 24 * i + 24 <= end) by (nonlinear_arith)
        requires
            0 <= i < c,
            c <= (end - q) / 24,
            q <= end,
    ;
}

/// Each adjunct record is six little-endian words, read as they stand:
/// the first is the vertex, the second the normal, the third the colour,
/// the fourth (bytes 12..16) the texture coordinate as a signed value,
/// and the sixth the bone.
pub proof fn lemma_adjunct_record_words(d: Seq<u8>, q: int, end: int, n: int, i: int)
    requires
        0 <= i < adjuncts_at(d, q, end, n).len(),
    ensures
        ({
            let a = adjuncts_at(d, q, end, n)[i];
            let r = q + 24 * i;
            &&& a.vertex_idx as int == u32_le(d, r)
            &&& a.normal_idx as int == u32_le(d, r + 4)
            &&& a.color_idx as int == u32_le(d, r + 8)
            &&& a.tex1_idx as int == crate::hd_bd::i32_le(d, r + 12)
            &&& a.bone_idx as int == u32_le(d, r + 20)
        }),
{
    let r = q + 24 * i;
    lemma_u32_le_range(d, r);
    lemma_u32_le_range(d, r + 4);
    lemma_u32_le_range(d, r + 8);
    lemma_u32_le_range(d, r + 12);
    lemma_u32_le_range(d, r + 20);
    lemma_u32_as_i32(le32(d, r + 12));
}

/// The fifth word of an adjunct record (bytes 16..20, the second texture
/// coordinate) is read into no field: records that differ only there
/// read alike.
pub proof fn lemma_adjunct_ignores_fifth_word(d1: Seq<u8>, d2: Seq<u8>, q: int, end: int, n: int, i: int)
    requires
        0 <= n,
        d1.len() == d2.len(),
        0 <= q,
        end <= d1.len(),
        0 <= i < adjuncts_at(d1, q, end, n).len(),
        forall|k: int|
            0 <= k < d1.len() && !(q + 24 * i + 16 <= k < q + 24 * i + 20) ==> d1[k] == d2[k],
    ensures
        adjuncts_at(d1, q, end, n).len() == adjuncts_at(d2, q, end, n).len(),
        adjuncts_at(d1, q, end, n)[i] == adjuncts_at(d2, q, end, n)[i],
{
    lemma_adjunct_in_range(d1, q, end, n, i);
    let r = q + 24 * i;
    assert(d1[r] == d2[r] && d1[r + 1] == d2[r + 1] && d1[r + 2] == d2[r + 2] && d1[r + 3] == d2[r + 3]);
    assert(d1[r + 4] == d2[r + 4] && d1[r + 5] == d2[r + 5] && d1[r + 6] == d2[r + 6] && d1[r + 7] == d2[r + 7]);
    assert(d1[r + 8] == d2[r + 8] && d1[r + 9] == d2[r + 9] && d1[r + 10] == d2[r + 10] && d1[r + 11] == d2[r + 11]);
    assert(d1[r + 12] == d2[r + 12] && d1[r + 13] == d2[r + 13] && d1[r + 14] == d2[r + 14] && d1[r + 15] == d2[r + 15]);
    assert(d1[r + 20] == d2[r + 20] && d1[r + 21] == d2[r + 21] && d1[r + 22] == d2[r + 22] && d1[r + 23] == d2[r + 23]);
}

/// Up to `n` strips from `q` (u32 type, u32 count, count × u32 indices),
/// stopping at the first whose header or indices pass `end`, and the
/// offset reached (past the header of a strip whose indices do not fit).
pub open spec fn strips_from(d: Seq<u8>, q: int, end: int, n: nat) -> (Seq<(u32, Seq<u32>)>, int)
    decreases n,
{
    if n == 0 || q + 8 > end {
        (Seq::empty(), q)
    } else {
        let count = le32(d, q + 4) as int;
        if q + 8 + 4 * count > end {
            (Seq::empty(), q + 8)
        } else {
            let (rest, r) = strips_from(d, q + 8 + 4 * count, end, (n - 1) as nat);
            (seq![(le32(d, q), words(d, q + 8, count))] + rest, r)
        }
    }
}

/// The packet at `off` in a region ending at `end`, for material slot
/// `mi`, and the offset after it; `None` when its 16-byte header does not
/// fit.  Header: adjunct, strip, matrix and reskin counts; then the
/// adjuncts, the reskin records (24 bytes each, skipped), the strips, and
/// the bone map when it fits whole.
pub open spec fn spec_packet(d: Seq<u8>, off: int, end: int, mi: usize) -> Option<(PacketView, int)> {
    if off + 16 > end {
        None
    } else {
        let adjs = adjuncts_at(d, off + 16, end, le32(d, off) as int);
        let q2 = off + 16 + 24 * adjs.len() + 24 * le32(d, off + 12);
        let (strips, q3) = strips_from(d, q2, end, le32(d, off + 4) as nat);
        let mtx = le32(d, off + 8) as int;
        let (bone_map, q4) = if q3 + 4 * mtx <= end {
            (words(d, q3, mtx), q3 + 4 * mtx)
        } else {
            (Seq::<u32>::empty(), q3)
        };
        Some(
            (
                PacketView {
                    adjuncts: adjs,
                    strips: strips.map_values(|s: (u32, Seq<u32>)| s.1),
                    strip_types: strips.map_values(|s: (u32, Seq<u32>)| s.0),
                    material_index: mi,
                    bone_map,
                },
                q4,
            ),
        )
    }
}

/// The material that packet `j` belongs to, counting from material `m`:
/// materials own consecutive runs of packets, `counts[m]` each; past the
/// last material, `counts.len()`.
pub open spec fn packet_owner(counts: Seq<u32>, m: int, j: int) -> int
    decreases counts.len() - m,
{
    if m >= counts.len() || j < counts[m] {
        m
    } else {
        packet_owner(counts, m + 1, j - counts[m])
    }
}

/// The material slot of packet `j`: its owner, or the last material.
pub open spec fn material_slot(counts: Seq<u32>, j: int) -> usize {
    if counts.len() == 0 {
        0
    } else if packet_owner(counts, 0, j) < counts.len() - 1 {
        packet_owner(counts, 0, j) as usize
    } else {
        (counts.len() - 1) as usize
    }
}

/// Packets `j..total` from `off`, stopping at the first whose header does
/// not fit.
pub open spec fn packets_from(d: Seq<u8>, off: int, end: int, counts: Seq<u32>, j: nat, total: nat) -> Seq<PacketView>
    decreases total - j,
{
    if j >= total {
        Seq::empty()
    } else {
        match spec_packet(d, off, end, material_slot(counts, j as int)) {
            None => Seq::empty(),
            Some((p, q)) => seq![p] + packets_from(d, q, end, counts, j + 1, total),
        }
    }
}

/// Sum of the packet counts.
pub open spec fn count_sum(counts: Seq<u32>) -> int
    decreases counts.len(),
{
    if counts.len() == 0 {
        0
    } else {
        count_sum(counts.drop_last()) + counts.last()
    }
}

fn le32_at64(data: &[u8], off: u64) -> (r: u32)
    requires
        off + 4 <= data@.len(),
    ensures
        r == le32(data@, off as int),
{
    let len = data.len();
    let o = off as usize;
    assert(o == off);
    le32_at(data, o)
}

fn parse_adjuncts(data: &[u8], q: u64, end: u64, n: u32) -> (r: (Vec<Oni2Adjunct>, u64))
    requires
        q <= end <= data@.len(),
    ensures
        r.0@ == adjuncts_at(data@, q as int, end as int, n as int),
        r.1 == q + 24 * r.0@.len(),
        r.1 <= end,
{
    let mut v: Vec<Oni2Adjunct> = Vec::new();
    let mut p = q;
    let mut k: u32 = 0;
    while k < n
        invariant_except_break
            k <= n,
            end <= data@.len(),
            q <= p <= end,
            p == q + 24 * k,
            v@.len() == k,
            forall|i: int| 0 <= i < v@.len() ==> v@[i] == spec_adjunct(data@, q + 24 * i),
        ensures
            end <= data@.len(),
            q <= p <= end,
            p == q + 24 * v@.len(),
            v@.len() == records_fit(end as int, q as int, n as int, 24),
            forall|i: int| 0 <= i < v@.len() ==> v@[i] == spec_adjunct(data@, q + 24 * i),
        decreases n - k,
    {
        if end - p < 24 {
            assert((end - q) / 24 == k as int) by (nonlinear_arith)
                requires
                    p == q + 24 * k,
                    end - p < 24,
                    p <= end,
            ;
            break;
        }
        let a = Oni2Adjunct {
            vertex_idx: le32_at64(data, p),
            normal_idx: le32_at64(data, p + 4),
            color_idx: le32_at64(data, p + 8),
            tex1_idx: #[verifier::truncate] (le32_at64(data, p + 12) as i32),
            bone_idx: le32_at64(data, p + 20),
        };
        v.push(a);
        p = p + 24;
        k = k + 1;
        proof {
            if k == n {
                assert((end - q) / 24 >= n as int) by (nonlinear_arith)
                    requires
                        p == q + 24 * n,
                        p <= end,
                ;
            }
        }
    }
    assert(v@ =~= adjuncts_at(data@, q as int, end as int, n as int));
    (v, p)
}

pub(crate) fn read_words(data: &[u8], q: u64, k: u32) -> (r: Vec<u32>)
    requires
        q + 4 * k <= data@.len(),
    ensures
        r@ == words(data@, q as int, k as int),
{
    let mut v: Vec<u32> = Vec::new();
    let mut j: u32 = 0;
    let len = data.len();
    while j < k
        invariant
            j <= k,
            len == data@.len(),
            q + 4 * k <= data@.len(),
            v@ == words(data@, q as int, j as int),
        decreases k - j,
    {
        assert(q + 4 * j < q + 4 * k <= len);
        let x = le32_at64(data, q + 4 * (j as u64));
        v.push(x);
        j = j + 1;
        assert(v@ =~= words(data@, q as int, j as int));
    }
    v
}

/// The strips' index lists.
pub open spec fn strip_lists(s: Seq<(u32, Seq<u32>)>) -> Seq<Seq<u32>> {
    s.map_values(|x: (u32, Seq<u32>)| x.1)
}

/// The strips' types.
pub open spec fn strip_kinds(s: Seq<(u32, Seq<u32>)>) -> Seq<u32> {
    s.map_values(|x: (u32, Seq<u32>)| x.0)
}

fn parse_strips(data: &[u8], q: u64, end: u64, n: u32) -> (r: (Vec<Vec<u32>>, Vec<u32>, u64))
    requires
        end <= data@.len(),
        q <= end + PACKET_SLACK,
        data@.len() <= isize::MAX,
    ensures
        r.0@.map_values(|s: Vec<u32>| s@) == strip_lists(strips_from(data@, q as int, end as int, n as nat).0),
        r.1@ == strip_kinds(strips_from(data@, q as int, end as int, n as nat).0),
        r.2 == strips_from(data@, q as int, end as int, n as nat).1,
        r.2 <= end + PACKET_SLACK,
{
    let mut lists: Vec<Vec<u32>> = Vec::new();
    let mut kinds: Vec<u32> = Vec::new();
    let mut p = q;
    let mut k: u32 = 0;
    while k < n
        invariant_except_break
            k <= n,
            end <= data@.len(),
            data@.len() <= isize::MAX,
            p <= end + PACKET_SLACK,
            lists@.len() == kinds@.len(),
            ({
                let total = strips_from(data@, q as int, end as int, n as nat);
                let rest = strips_from(data@, p as int, end as int, (n - k) as nat);
                &&& strip_lists(total.0) == lists@.map_values(|s: Vec<u32>| s@) + strip_lists(rest.0)
                &&& strip_kinds(total.0) == kinds@ + strip_kinds(rest.0)
                &&& total.1 == rest.1
            }),
        ensures
            p <= end + PACKET_SLACK,
            ({
                let total = strips_from(data@, q as int, end as int, n as nat);
                &&& strip_lists(total.0) == lists@.map_values(|s: Vec<u32>| s@)
                &&& strip_kinds(total.0) == kinds@
                &&& total.1 == p
            }),
        decreases n - k,
    {
        if p > end || end - p < 8 {
            assert(strip_lists(Seq::<(u32, Seq<u32>)>::empty()) =~= Seq::<Seq<u32>>::empty());
            assert(strip_kinds(Seq::<(u32, Seq<u32>)>::empty()) =~= Seq::<u32>::empty());
            assert(lists@.map_values(|s: Vec<u32>| s@) + Seq::<Seq<u32>>::empty() =~= lists@.map_values(|s: Vec<u32>| s@));
            assert(kinds@ + Seq::<u32>::empty() =~= kinds@);
            break;
        }
        let stype = le32_at64(data, p);
        let count = le32_at64(data, p + 4);
        p = p + 8;
        if end - p < 4 * count as u64 {
            assert(strip_lists(Seq::<(u32, Seq<u32>)>::empty()) =~= Seq::<Seq<u32>>::empty());
            assert(strip_kinds(Seq::<(u32, Seq<u32>)>::empty()) =~= Seq::<u32>::empty());
            assert(lists@.map_values(|s: Vec<u32>| s@) + Seq::<Seq<u32>>::empty() =~= lists@.map_values(|s: Vec<u32>| s@));
            assert(kinds@ + Seq::<u32>::empty() =~= kinds@);
            break;
        }
        let idx = read_words(data, p, count);
        let ghost before_l = lists@.map_values(|s: Vec<u32>| s@);
        let ghost before_k = kinds@;
        let ghost p0 = (p - 8) as int;
        lists.push(idx);
        kinds.push(stype);
        p = p + 4 * count as u64;
        k = k + 1;
        proof {
            let rest = strips_from(data@, p as int, end as int, (n - k) as nat);
            let one = seq![(stype, words(data@, p0 + 8, count as int))];
            assert(strip_lists(one + rest.0) =~= seq![words(data@, p0 + 8, count as int)] + strip_lists(rest.0));
            assert(strip_kinds(one + rest.0) =~= seq![stype] + strip_kinds(rest.0));
            assert(lists@.map_values(|s: Vec<u32>| s@) =~= before_l.push(words(data@, p0 + 8, count as int)));
            assert(kinds@ =~= before_k.push(stype));
            assert(before_l + (seq![words(data@, p0 + 8, count as int)] + strip_lists(rest.0)) =~= lists@.map_values(|s: Vec<u32>| s@) + strip_lists(rest.0));
            assert(before_k + (seq![stype] + strip_kinds(rest.0)) =~= kinds@ + strip_kinds(rest.0));
        }
    }
    proof {
        if k == n {
            assert(strip_lists(Seq::<(u32, Seq<u32>)>::empty()) =~= Seq::<Seq<u32>>::empty());
            assert(strip_kinds(Seq::<(u32, Seq<u32>)>::empty()) =~= Seq::<u32>::empty());
            assert(lists@.map_values(|s: Vec<u32>| s@) + Seq::<Seq<u32>>::empty() =~= lists@.map_values(|s: Vec<u32>| s@));
            assert(kinds@ + Seq::<u32>::empty() =~= kinds@);
        }
    }
    (lists, kinds, p)
}

fn parse_packet(data: &[u8], off: u64, end: u64, mi: usize) -> (r: Option<(Oni2Packet, u64)>)
    requires
        end <= data@.len(),
        off <= end + PACKET_SLACK,
        data@.len() <= isize::MAX,
    ensures
        match spec_packet(data@, off as int, end as int, mi) {
            None => r is None,
            Some((pv, q)) => r matches Some((pk, q2)) && pk@ == pv && q2 == q && q2 <= end + PACKET_SLACK,
        },
{
    if off > end || end - off < 16 {
        return None;
    }
    let adj_count = le32_at64(data, off);
    let strip_count = le32_at64(data, off + 4);
    let mtx_count = le32_at64(data, off + 8);
    let mw_count = le32_at64(data, off + 12);
    let (adjuncts, q1) = parse_adjuncts(data, off + 16, end, adj_count);
    let q2 = q1 + 24 * (mw_count as u64);
    let (strips, strip_types, q3) = parse_strips(data, q2, end, strip_count);
    let mut bone_map: Vec<u32> = Vec::new();
    let mut q4 = q3;
    if q3 <= end && end - q3 >= 4 * (mtx_count as u64) {
        bone_map = read_words(data, q3, mtx_count);
        q4 = q3 + 4 * (mtx_count as u64);
    }
    let pk = Oni2Packet { adjuncts, strips, strip_types, material_index: mi, bone_map };
    proof {
        let (st, _) = strips_from(data@, q2 as int, end as int, strip_count as nat);
        assert(pk@.strips =~= st.map_values(|x: (u32, Seq<u32>)| x.1));
        assert(pk@.strip_types =~= st.map_values(|x: (u32, Seq<u32>)| x.0));
        if !(q3 + 4 * mtx_count <= end) {
            assert(pk@.bone_map =~= Seq::<u32>::empty());
        }
    }
    Some((pk, q4))
}

fn owner_of(counts: &Vec<u32>, j: u64) -> (r: usize)
    ensures
        r == material_slot(counts@, j as int),
{
    let mut m: usize = 0;
    let mut rem = j;
    while m < counts.len() && rem >= counts[m] as u64
        invariant
            m <= counts@.len(),
            packet_owner(counts@, m as int, rem as int) == packet_owner(counts@, 0, j as int),
        decreases counts@.len() - m,
    {
        rem = rem - counts[m] as u64;
        m = m + 1;
    }
    if counts.len() == 0 {
        0
    } else if m < counts.len() - 1 {
        m
    } else {
        counts.len() - 1
    }
}

fn parse_packets(data: &[u8], off: u64, end: u64, counts: &Vec<u32>, total: u32) -> (r: Vec<Oni2Packet>)
    requires
        end <= data@.len(),
        off <= end + PACKET_SLACK,
        data@.len() <= isize::MAX,
    ensures
        r@.map_values(|p: Oni2Packet| p@) == packets_from(data@, off as int, end as int, counts@, 0, total as nat),
{
    let mut packets: Vec<Oni2Packet> = Vec::new();
    let mut p = off;
    let mut j: u32 = 0;
    while j < total
        invariant_except_break
            j <= total,
            end <= data@.len(),
            data@.len() <= isize::MAX,
            p <= end + PACKET_SLACK,
            packets_from(data@, off as int, end as int, counts@, 0, total as nat) == packets@.map_values(
                |x: Oni2Packet| x@,
            ) + packets_from(data@, p as int, end as int, counts@, j as nat, total as nat),
        ensures
            packets_from(data@, off as int, end as int, counts@, 0, total as nat) == packets@.map_values(
                |x: Oni2Packet| x@,
            ),
        decreases total - j,
    {
        let mi = owner_of(counts, j as u64);
        match parse_packet(data, p, end, mi) {
            None => {
                assert(packets@.map_values(|x: Oni2Packet| x@) + Seq::<PacketView>::empty() =~= packets@.map_values(
                    |x: Oni2Packet| x@,
                ));
                break;
            },
            Some((pk, q)) => {
                let ghost before = packets@.map_values(|x: Oni2Packet| x@);
                let ghost pv = pk@;
                packets.push(pk);
                p = q;
                j = j + 1;
                proof {
                    let rest = packets_from(data@, p as int, end as int, counts@, j as nat, total as nat);
                    assert(packets@.map_values(|x: Oni2Packet| x@) =~= before.push(pv));
                    assert(before + (seq![pv] + rest) =~= packets@.map_values(|x: Oni2Packet| x@) + rest);
                }
            },
        }
    }
    proof {
        if j == total {
            assert(packets@.map_values(|x: Oni2Packet| x@) + Seq::<PacketView>::empty() =~= packets@.map_values(
                |x: Oni2Packet| x@,
            ));
        }
    }
    packets
}

// ---------------------------------------------------------------------
// The whole file
// ---------------------------------------------------------------------

/// A model read from a binary `.mod` file.
#[derive(Debug, Clone)]
pub struct Oni2Model {
    /// Positions, x y z, as `f32` bit patterns.
    pub vertices: Vec<[u32; 3]>,
    pub normals: Vec<[u32; 3]>,
    /// Vertex colours, r g b a.
    pub colors: Vec<[u32; 4]>,
    /// Texture coordinates, u v.
    pub tex_coords: Vec<[u32; 2]>,
    pub materials: Vec<Oni2Material>,
    pub packets: Vec<Oni2Packet>,
    /// The vertices are in world space (true of every binary model).
    pub world_space_verts: bool,
}

/// Mathematical view of an [`Oni2Model`].
pub struct ModelView {
    pub vertices: Seq<Seq<u32>>,
    pub normals: Seq<Seq<u32>>,
    pub colors: Seq<Seq<u32>>,
    pub tex_coords: Seq<Seq<u32>>,
    pub materials: Seq<MaterialView>,
    pub packets: Seq<PacketView>,
    pub world_space_verts: bool,
}

impl View for Oni2Model {
    type V = ModelView;

    open spec fn view(&self) -> ModelView {
        ModelView {
            vertices: self.vertices@.map_values(|a: [u32; 3]| a@),
            normals: self.normals@.map_values(|a: [u32; 3]| a@),
            colors: self.colors@.map_values(|a: [u32; 4]| a@),
            tex_coords: self.tex_coords@.map_values(|a: [u32; 2]| a@),
            materials: material_views(self.materials@),
            packets: self.packets@.map_values(|p: Oni2Packet| p@),
            world_space_verts: self.world_space_verts,
        }
    }
}

/// `version: 2.10`
pub open spec fn mod_magic() -> Seq<u8> {
    seq![118u8, 101, 114, 115, 105, 111, 110, 58, 32, 50, 46, 49, 48]
}

/// The `k`-th count of the header: verts, normals, colors, tex1s, tex2s,
/// tangents, materials, adjuncts, primitives, matrices, reskins.
pub open spec fn mod_count(d: Seq<u8>, k: int) -> u32 {
    le32(d, 14 + 4 * k)
}

pub open spec fn mod_header_ok(d: Seq<u8>) -> bool {
    d.len() >= 58 && d.subrange(0, 13) == mod_magic()
}

/// `n` records of `width` bytes from `off`, each `width / 4` words, as
/// many as fit.
pub open spec fn word_records(d: Seq<u8>, off: int, n: int, width: int) -> Seq<Seq<u32>> {
    Seq::new(records_fit(d.len() as int, off, n, width) as nat, |i: int| words(d, off + width * i, width / 4))
}

/// Where the normals start.
pub open spec fn normals_offset(d: Seq<u8>) -> int {
    58 + 12 * records_fit(d.len() as int, 58, mod_count(d, 0) as int, 12)
}

pub open spec fn colors_offset(d: Seq<u8>) -> int {
    normals_offset(d) + 12 * records_fit(d.len() as int, normals_offset(d), mod_count(d, 1) as int, 12)
}

pub open spec fn tex_offset(d: Seq<u8>) -> int {
    colors_offset(d) + 16 * records_fit(d.len() as int, colors_offset(d), mod_count(d, 2) as int, 16)
}

/// Where the materials start: after the texture coordinates that fit and
/// the declared second texture coordinates and tangents.
pub open spec fn materials_offset(d: Seq<u8>) -> int {
    tex_offset(d) + 8 * records_fit(d.len() as int, tex_offset(d), mod_count(d, 3) as int, 8) + 8
        * mod_count(d, 4) + 12 * mod_count(d, 5)
}

/// `mtxv`
pub open spec fn mtxv_magic() -> Seq<u8> {
    seq![109u8, 116, 120, 118]
}

/// The first index from `p` where `mtxv` starts, or the end.
pub open spec fn mtxv_from(d: Seq<u8>, p: int) -> int
    decreases d.len() - p,
{
    if p + 4 > d.len() {
        d.len() as int
    } else if d.subrange(p, p + 4) == mtxv_magic() {
        p
    } else {
        mtxv_from(d, p + 1)
    }
}

/// The end of the packet region: the first `mtxv` within the last 500
/// bytes, or the end of the file.
pub open spec fn packet_region_end(d: Seq<u8>) -> int {
    mtxv_from(d, if d.len() > 500 { d.len() - 500 } else { 0 })
}

/// The materials a well-formed file yields.
pub open spec fn mod_materials(d: Seq<u8>) -> (Seq<MaterialView>, int) {
    if mod_count(d, 6) == 0 {
        (Seq::empty(), materials_offset(d))
    } else {
        materials_from(d, materials_offset(d), mod_count(d, 6) as nat)
    }
}

/// The packet counts of materials.
pub open spec fn packet_counts(ms: Seq<MaterialView>) -> Seq<u32> {
    ms.map_values(|m: MaterialView| m.packet_count)
}

/// Files on which reading stops short: the materials are declared to
/// start past the end of the file, or their packet counts add up past
/// `u32::MAX`.
pub open spec fn mod_binary_faults(d: Seq<u8>) -> bool {
    mod_header_ok(d) && ((mod_count(d, 6) > 0 && materials_offset(d) > d.len()) || (!(mod_count(
        d,
        6,
    ) > 0 && materials_offset(d) > d.len()) && count_sum(packet_counts(mod_materials(d).0))
        > u32::MAX))
}

/// What a binary `.mod` file holds; `None` for a file shorter than the
/// 58-byte header or without the `version: 2.10` magic.
pub open spec fn spec_parse_mod_binary(d: Seq<u8>) -> Option<ModelView> {
    if !mod_header_ok(d) {
        None
    } else {
        let (mats, moff) = mod_materials(d);
        let counts = packet_counts(mats);
        Some(
            ModelView {
                vertices: word_records(d, 58, mod_count(d, 0) as int, 12),
                normals: word_records(d, normals_offset(d), mod_count(d, 1) as int, 12),
                colors: word_records(d, colors_offset(d), mod_count(d, 2) as int, 16),
                tex_coords: word_records(d, tex_offset(d), mod_count(d, 3) as int, 8),
                materials: mats,
                packets: packets_from(d, moff, packet_region_end(d), counts, 0, count_sum(counts) as nat),
                world_space_verts: true,
            },
        )
    }
}

fn find_mtxv(data: &[u8]) -> (r: usize)
    ensures
        r == packet_region_end(data@),
        r <= data@.len(),
        r + 500 >= data@.len(),
{
    let mut p: usize = if data.len() > 500 {
        data.len() - 500
    } else {
        0
    };
    while data.len() - p >= 4
        invariant
            p <= data@.len(),
            p + 500 >= data@.len(),
            mtxv_from(data@, p as int) == packet_region_end(data@),
        decreases data@.len() - p,
    {
        if data[p] == 109 && data[p + 1] == 116 && data[p + 2] == 120 && data[p + 3] == 118 {
            assert(data@.subrange(p as int, p + 4) =~= mtxv_magic());
            return p;
        }
        assert(data@.subrange(p as int, p + 4) != mtxv_magic()) by {
            if data@.subrange(p as int, p + 4) == mtxv_magic() {
                assert(data@.subrange(p as int, p + 4)[0] == data@[p as int]);
                assert(data@.subrange(p as int, p + 4)[1] == data@[p + 1]);
                assert(data@.subrange(p as int, p + 4)[2] == data@[p + 2]);
                assert(data@.subrange(p as int, p + 4)[3] == data@[p + 3]);
            }
        }
        p = p + 1;
    }
    data.len()
}

fn has_mod_magic(data: &[u8]) -> (r: bool)
    requires
        data@.len() >= 13,
    ensures
        r == (data@.subrange(0, 13) == mod_magic()),
{
    let magic: [u8; 13] = [118, 101, 114, 115, 105, 111, 110, 58, 32, 50, 46, 49, 48];
    assert(magic@ =~= mod_magic());
    let mut i: usize = 0;
    while i < 13
        invariant
            i <= 13,
            data@.len() >= 13,
            magic@ == mod_magic(),
            forall|k: int| 0 <= k < i ==> data@[k] == mod_magic()[k],
        decreases 13 - i,
    {
        if data[i] != magic[i] {
            assert(data@.subrange(0, 13)[i as int] != mod_magic()[i as int]);
            return false;
        }
        i = i + 1;
    }
    assert(data@.subrange(0, 13) =~= mod_magic());
    true
}

proof fn lemma_count_sum_push(c: Seq<u32>, x: u32)
    ensures
        count_sum(c.push(x)) == count_sum(c) + x,
{
    assert(c.push(x).drop_last() =~= c);
}

proof fn lemma_count_sum_nonneg(c: Seq<u32>)
    ensures
        count_sum(c) >= 0,
    decreases c.len(),
{
    if c.len() > 0 {
        lemma_count_sum_nonneg(c.drop_last());
    }
}

/// The packet counts of `ms` and their sum, or `None` past `u32::MAX`.
fn packet_totals(ms: &Vec<Oni2Material>) -> (r: (Vec<u32>, Option<u32>))
    ensures
        r.0@ == packet_counts(material_views(ms@)),
        match r.1 {
            Some(t) => t == count_sum(r.0@),
            None => count_sum(r.0@) > u32::MAX,
        },
{
    let mut counts: Vec<u32> = Vec::new();
    let mut sum: u64 = 0;
    let mut over = false;
    let mut i: usize = 0;
    while i < ms.len()
        invariant
            i <= ms@.len(),
            counts@ == packet_counts(material_views(ms@)).subrange(0, i as int),
            !over ==> sum == count_sum(counts@) && sum <= u32::MAX,
            over ==> count_sum(counts@) > u32::MAX,
        decreases ms@.len() - i,
    {
        let c = ms[i].packet_count;
        proof {
            lemma_count_sum_push(counts@, c);
            lemma_count_sum_nonneg(counts@);
        }
        counts.push(c);
        if !over {
            sum = sum + c as u64;
            if sum > 0xffff_ffff {
                over = true;
            }
        }
        i = i + 1;
        assert(counts@ =~= packet_counts(material_views(ms@)).subrange(0, i as int));
    }
    assert(counts@ =~= packet_counts(material_views(ms@)));
    if over {
        (counts, None)
    } else {
        (counts, Some(sum as u32))
    }
}

#[verifier::rlimit(60)]
fn read_geometry(data: &[u8]) -> (r: (Vec<[u32; 3]>, Vec<[u32; 3]>, Vec<[u32; 4]>, Vec<[u32; 2]>, u64))
    requires
        mod_header_ok(data@),
    ensures
        r.0@.map_values(|a: [u32; 3]| a@) == word_records(data@, 58, mod_count(data@, 0) as int, 12),
        r.1@.map_values(|a: [u32; 3]| a@) == word_records(data@, normals_offset(data@), mod_count(data@, 1) as int, 12),
        r.2@.map_values(|a: [u32; 4]| a@) == word_records(data@, colors_offset(data@), mod_count(data@, 2) as int, 16),
        r.3@.map_values(|a: [u32; 2]| a@) == word_records(data@, tex_offset(data@), mod_count(data@, 3) as int, 8),
        r.4 == materials_offset(data@),
{
    let n_verts = le32_at(data, 14);
    let n_normals = le32_at(data, 18);
    let n_colors = le32_at(data, 22);
    let n_tex1s = le32_at(data, 26);
    let n_tex2s = le32_at(data, 30);
    let n_tangents = le32_at(data, 34);
    let (vertices, o1) = read_vec3s(data, 58, n_verts);
    let (normals, o2) = read_vec3s(data, o1, n_normals);
    let (colors, o3) = read_vec4s(data, o2, n_colors);
    let (tex_coords, o4) = read_vec2s(data, o3, n_tex1s);
    assert(vertices@.map_values(|a: [u32; 3]| a@) =~= word_records(data@, 58, n_verts as int, 12));
    assert(normals@.map_values(|a: [u32; 3]| a@) =~= word_records(data@, o1 as int, n_normals as int, 12));
    assert(colors@.map_values(|a: [u32; 4]| a@) =~= word_records(data@, o2 as int, n_colors as int, 16));
    assert(tex_coords@.map_values(|a: [u32; 2]| a@) =~= word_records(data@, o3 as int, n_tex1s as int, 8));
    let moff: u64 = o4 as u64 + 8 * (n_tex2s as u64) + 12 * (n_tangents as u64);
    (vertices, normals, colors, tex_coords, moff)
}

proof fn lemma_owner_at_least(counts: Seq<u32>, m: int, j: int)
    ensures
        packet_owner(counts, m, j) >= m,
    decreases counts.len() - m,
{
    if !(m >= counts.len() || j < counts[m]) {
        lemma_owner_at_least(counts, m + 1, j - counts[m]);
    }
}

proof fn lemma_packets_in_slots(d: Seq<u8>, off: int, end: int, counts: Seq<u32>, j: nat, total: nat)
    ensures
        packets_from(d, off, end, counts, j, total).len() <= total - j || j >= total,
        forall|i: int|
            0 <= i < packets_from(d, off, end, counts, j, total).len() && counts.len() > 0 ==> (#[trigger] packets_from(
                d,
                off,
                end,
                counts,
                j,
                total,
            )[i]).material_index < counts.len(),
    decreases total - j,
{
    if j < total {
        match spec_packet(d, off, end, material_slot(counts, j as int)) {
            None => {},
            Some((p, q)) => {
                lemma_packets_in_slots(d, q, end, counts, j + 1, total);
                let rest = packets_from(d, q, end, counts, j + 1, total);
                assert forall|i: int|
                    0 <= i < packets_from(d, off, end, counts, j, total).len() && counts.len()
                        > 0 implies (#[trigger] packets_from(d, off, end, counts, j, total)[i]).material_index
                    < counts.len() by {
                    if i > 0 {
                        assert(packets_from(d, off, end, counts, j, total)[i] == rest[i - 1]);
                    } else {
                        lemma_owner_at_least(counts, 0, j as int);
                        assert(p.material_index == material_slot(counts, j as int));
                    }
                }
            },
        }
    }
}

/// Every packet of a binary model names one of its materials, and there
/// are no more packets than the materials' packet counts add up to.
pub proof fn lemma_mod_binary_packets_name_materials(d: Seq<u8>)
    requires
        spec_parse_mod_binary(d) is Some,
    ensures
        ({
            let m = spec_parse_mod_binary(d)->Some_0;
            &&& m.packets.len() <= count_sum(packet_counts(m.materials))
            &&& forall|i: int|
                0 <= i < m.packets.len() ==> (#[trigger] m.packets[i]).material_index < m.materials.len()
        }),
{
    let m = spec_parse_mod_binary(d)->Some_0;
    let (mats, moff) = mod_materials(d);
    let counts = packet_counts(mats);
    lemma_count_sum_nonneg(counts);
    lemma_packets_in_slots(d, moff, packet_region_end(d), counts, 0, count_sum(counts) as nat);
    if mats.len() == 0 {
        assert(counts =~= Seq::<u32>::empty());
        assert(count_sum(counts) == 0);
    }
}

/// Reads a binary `.mod` file.  Material passes are left empty: they come
/// from each material's `<name>.shader` file, which the caller reads and
/// parses with `parse_shader`.
pub fn parse_mod_binary(data: &[u8]) -> (r: Option<Oni2Model>)
    requires
        !mod_binary_faults(data@),
        data@.len() <= isize::MAX,
    ensures
        match spec_parse_mod_binary(data@) {
            None => r is None,
            Some(m) => r matches Some(x) && x@ == m,
        },
{
    if data.len() < 58 {
        return None;
    }
    if !has_mod_magic(data) {
        return None;
    }
    let n_materials = le32_at(data, 38);
    let (vertices, normals, colors, tex_coords, moff) = read_geometry(data);
    let mut materials: Vec<Oni2Material> = Vec::new();
    let mut poff: u64 = moff;
    if n_materials > 0 {
        let (ms, q) = parse_materials(data, moff as usize, n_materials);
        materials = ms;
        poff = q as u64;
    }
    let (counts, total) = packet_totals(&materials);
    let total = match total {
        Some(t) => t,
        None => {
            return None;
        },
    };
    let end = find_mtxv(data);
    let packets = if n_materials > 0 {
        parse_packets(data, poff, end as u64, &counts, total)
    } else {
        Vec::new()
    };
    let m = Oni2Model {
        vertices,
        normals,
        colors,
        tex_coords,
        materials,
        packets,
        world_space_verts: true,
    };
    proof {
        let spec = spec_parse_mod_binary(data@)->Some_0;
        if n_materials == 0 {
            assert(m@.materials =~= spec.materials);
            assert(count_sum(counts@) == 0);
            assert(m@.packets =~= spec.packets);
        }
    }
    Some(m)
}

/// How many records of `width` bytes, up to `n`, fit from `off`, and the
/// offset after them.
fn records_after(data: &[u8], off: usize, n: u32, width: usize) -> (r: (u64, usize))
    requires
        off <= data@.len(),
        0 < width <= 16,
    ensures
        r.0 == records_fit(data@.len() as int, off as int, n as int, width as int),
        r.1 == off + width * r.0,
        r.1 <= data@.len(),
{
    let avail = (data.len() - off) / width;
    let k: u64 = if (avail as u64) < (n as u64) {
        avail as u64
    } else {
        n as u64
    };
    assert(width * k <= data@.len() - off) by (nonlinear_arith)
        requires
            avail == (data@.len() - off) / (width as int),
            k <= avail,
            0 < width,
            off <= data@.len(),
    ;
    (k, off + width * (k as usize))
}

/// Whether `parse_mod_binary` must not be given `data`: its materials are
/// declared to start past the end of the file, or their packet counts add
/// up past `u32::MAX`.
pub fn mod_binary_would_fault(data: &[u8]) -> (r: bool)
    ensures
        r == mod_binary_faults(data@),
{
    if data.len() < 58 || !has_mod_magic(data) {
        return false;
    }
    let n_verts = le32_at(data, 14);
    let n_normals = le32_at(data, 18);
    let n_colors = le32_at(data, 22);
    let n_tex1s = le32_at(data, 26);
    let n_tex2s = le32_at(data, 30);
    let n_tangents = le32_at(data, 34);
    let n_materials = le32_at(data, 38);
    let (_, o1) = records_after(data, 58, n_verts, 12);
    let (_, o2) = records_after(data, o1, n_normals, 12);
    let (_, o3) = records_after(data, o2, n_colors, 16);
    let (_, o4) = records_after(data, o3, n_tex1s, 8);
    let moff: u64 = o4 as u64 + 8 * (n_tex2s as u64) + 12 * (n_tangents as u64);
    if n_materials == 0 {
        return false;
    }
    if moff > data.len() as u64 {
        return true;
    }
    let (ms, _) = parse_materials(data, moff as usize, n_materials);
    let (_, total) = packet_totals(&ms);
    total.is_none()
}

// ---------------------------------------------------------------------
// Shaders
// ---------------------------------------------------------------------

/// One line of a `.shader` file applied to the pass being built and the
/// passes done: `nextpass` closes the pass; otherwise the first word,
/// case-insensitively, names a field that takes the second word
/// (`texture` without quotes, `texsrc` as a `u32` or none).
pub open spec fn shader_line(done: Seq<PassView>, cur: PassView, line: Seq<char>) -> (Seq<PassView>, PassView) {
    let t = spec_trim(line);
    let ws = spec_words(t);
    if t.len() == 0 {
        (done, cur)
    } else if t == "nextpass"@ {
        (done.push(cur), empty_pass())
    } else if ws.len() < 2 {
        (done, cur)
    } else {
        let key = lowercase(ws[0]);
        let v = ws[1];
        if key == "texture"@ {
            (done, PassView { texture_name: Some(trim_quotes(v)), ..cur })
        } else if key == "lighting"@ {
            (done, PassView { lighting: Some(v), ..cur })
        } else if key == "blendset"@ {
            (done, PassView { blendset: Some(v), ..cur })
        } else if key == "texcombine"@ {
            (done, PassView { texcombine: Some(v), ..cur })
        } else if key == "texsrc"@ {
            (
                done,
                PassView {
                    texsrc: match spec_parse_unsigned(v, u32::MAX as int) {
                        Some(n) => Some(n as u32),
                        None => None,
                    },
                    ..cur
                },
            )
        } else if key == "alphafunc"@ {
            (done, PassView { alphafunc: Some(v), ..cur })
        } else {
            (done, cur)
        }
    }
}

/// The passes done and the pass being built after the first `k` lines.
pub open spec fn shader_state(ls: Seq<Seq<char>>, k: nat) -> (Seq<PassView>, PassView)
    decreases k,
{
    if k == 0 {
        (Seq::empty(), empty_pass())
    } else {
        let (done, cur) = shader_state(ls, (k - 1) as nat);
        shader_line(done, cur, ls[k - 1])
    }
}

/// The passes of a `.shader` text: every `nextpass` line ends one, and the
/// last is always included.
pub open spec fn spec_parse_shader(content: Seq<char>) -> Seq<PassView> {
    let ls = spec_lines(content);
    let (done, cur) = shader_state(ls, ls.len());
    done.push(cur)
}

fn new_pass() -> (p: Oni2MaterialPass)
    ensures
        p@ == empty_pass(),
{
    Oni2MaterialPass {
        texture_name: None,
        lighting: None,
        blendset: None,
        texcombine: None,
        texsrc: None,
        alphafunc: None,
        slides: None,
        slidet: None,
        rotate: None,
        scalet: None,
        texgen: None,
    }
}

pub open spec fn pass_views(ps: Seq<Oni2MaterialPass>) -> Seq<PassView> {
    ps.map_values(|p: Oni2MaterialPass| p@)
}

fn apply_shader_line(done: &mut Vec<Oni2MaterialPass>, cur: &mut Oni2MaterialPass, line: &[char])
    ensures
        (pass_views(final(done)@), final(cur)@) == shader_line(pass_views(old(done)@), old(cur)@, line@),
{
    let t = trim(line);
    if t.len() == 0 {
        return;
    }
    let nextpass = chars_of("nextpass");
    proof {
        reveal_strlit("nextpass");
    }
    if crate::text::chars_eq(t.as_slice(), nextpass.as_slice()) {
        let mut fresh = new_pass();
        std::mem::swap(cur, &mut fresh);
        let ghost before = pass_views(done@);
        done.push(fresh);
        assert(pass_views(done@) =~= before.push(old(cur)@));
        return;
    }
    let ws = split_whitespace(t.as_slice());
    let ghost wv = ws@.map_values(|w: Vec<char>| w@);
    assert(wv =~= spec_words(t@));
    if ws.len() < 2 {
        return;
    }
    assert(wv[0] == ws@[0]@ && wv[1] == ws@[1]@);
    let key_text = string_from_chars(ws[0].as_slice());
    let key = to_lowercase(key_text.as_str());
    let v = &ws[1];
    if crate::text::str_is(key.as_str(), "texture") {
        let q = trim_quote_chars(v.as_slice());
        cur.texture_name = Some(string_from_chars(q.as_slice()));
    } else if crate::text::str_is(key.as_str(), "lighting") {
        cur.lighting = Some(string_from_chars(v.as_slice()));
    } else if crate::text::str_is(key.as_str(), "blendset") {
        cur.blendset = Some(string_from_chars(v.as_slice()));
    } else if crate::text::str_is(key.as_str(), "texcombine") {
        cur.texcombine = Some(string_from_chars(v.as_slice()));
    } else if crate::text::str_is(key.as_str(), "texsrc") {
        cur.texsrc = parse_u32(v.as_slice());
    } else if crate::text::str_is(key.as_str(), "alphafunc") {
        cur.alphafunc = Some(string_from_chars(v.as_slice()));
    }
}

/// Reads the passes of a `.shader` text.
pub fn parse_shader(content: &str) -> (r: Vec<Oni2MaterialPass>)
    ensures
        pass_views(r@) == spec_parse_shader(content@),
{
    let chars = chars_of(content);
    let ls = lines(chars.as_slice());
    let ghost lv = ls@.map_values(|l: Vec<char>| l@);
    assert(lv =~= spec_lines(content@));
    let mut done: Vec<Oni2MaterialPass> = Vec::new();
    let mut cur = new_pass();
    let mut i: usize = 0;
    while i < ls.len()
        invariant
            i <= ls@.len(),
            lv == ls@.map_values(|l: Vec<char>| l@),
            lv == spec_lines(content@),
            (pass_views(done@), cur@) == shader_state(lv, i as nat),
        decreases ls@.len() - i,
    {
        assert(lv[i as int] == ls@[i as int]@);
        apply_shader_line(&mut done, &mut cur, ls[i].as_slice());
        i = i + 1;
    }
    let ghost before = pass_views(done@);
    let ghost last = cur@;
    done.push(cur);
    assert(pass_views(done@) =~= before.push(last));
    done
}

} // verus!
