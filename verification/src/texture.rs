//! Textures: the native `.tex` format, TGA files, and the order in which
//! a texture's files are tried.
//!
//! A `.tex` file starts with width, height and type (u16 each, little
//! endian) at 0, 2 and 4; pixel data follows a 14-byte header (after a
//! palette for the indexed types), bottom row first:
//!
//! ```text
//! 0x01, 0x0E  8-bit indices, BGRA palette of 256 entries at 0x0E, pixels at 0x40E
//! 0x0F, 0x10  4-bit indices (low nibble first), BGRA palette of 16 at 0x0E, pixels at 0x4E
//! 0x11        RGB888
//! 0x12        RGBA8888
//! 0x06        RGBA4444 (little-endian u16: red in the low nibble)
//! ```
//!
//! Decoding gives RGBA8 rows top row first and whether any pixel is not
//! opaque.
use crate::hd_bd::u16_le;
use crate::text::{
    chars_of, ends_with, has_prefix, has_suffix, lines, push_str, spec_lines, spec_trim,
    spec_words, split_whitespace, starts_with, string_from_chars, trim, trim_quote_chars,
    trim_quotes,
};
use vstd::prelude::*;

verus! {

/// Width, height and type of a `.tex` header.
pub open spec fn tex_width(d: Seq<u8>) -> int {
    u16_le(d, 0)
}

pub open spec fn tex_height(d: Seq<u8>) -> int {
    u16_le(d, 2)
}

pub open spec fn tex_type(d: Seq<u8>) -> int {
    u16_le(d, 4)
}

/// The bytes the pixel data of type `t` needs, for `w × h` pixels; `None`
/// for an unknown type.
pub open spec fn tex_needed(t: int, w: int, h: int) -> Option<int> {
    if t == 0x01 || t == 0x0E {
        Some(0x40E + w * h)
    } else if t == 0x0F || t == 0x10 {
        Some(0x4E + (w * h) / 2)
    } else if t == 0x11 {
        Some(0x0E + w * h * 3)
    } else if t == 0x12 {
        Some(0x0E + w * h * 4)
    } else if t == 0x06 {
        Some(0x0E + w * h * 2)
    } else {
        None
    }
}

/// Palette entry `idx` (BGRA at `0x0E + 4 idx`) as RGBA.
pub open spec fn palette_rgba(d: Seq<u8>, idx: int) -> Seq<u8> {
    let c = 0x0E + 4 * idx;
    seq![d[c + 2], d[c + 1], d[c], d[c + 3]]
}

/// A 4-bit channel scaled to 8 bits.
pub open spec fn widen4(v: int) -> u8 {
    (v * 17) as u8
}

/// The RGBA of output pixel (`x`, `y`) (top row first) of type `t`.
pub open spec fn tex_pixel(d: Seq<u8>, t: int, w: int, h: int, x: int, y: int) -> Seq<u8> {
    let row = h - 1 - y;
    if t == 0x01 || t == 0x0E {
        palette_rgba(d, d[0x40E + row * w + x] as int)
    } else if t == 0x0F || t == 0x10 {
        let p = d[0x4E + (row * w) / 2 + x / 2] as int;
        palette_rgba(d, if x % 2 == 0 { p % 16 } else { p / 16 })
    } else if t == 0x11 {
        let s = 0x0E + (row * w + x) * 3;
        seq![d[s], d[s + 1], d[s + 2], 255u8]
    } else if t == 0x12 {
        let s = 0x0E + (row * w + x) * 4;
        seq![d[s], d[s + 1], d[s + 2], d[s + 3]]
    } else {
        let p = u16_le(d, 0x0E + (row * w + x) * 2);
        seq![widen4(p % 16), widen4((p / 16) % 16), widen4((p / 256) % 16), widen4(p / 4096)]
    }
}

/// Files on which decoding stops short: 4-bit textures of odd width,
/// whose last nibble lands one pixel past the end of the image.
pub open spec fn tex_faults(d: Seq<u8>) -> bool {
    d.len() >= 14 && 0 < tex_width(d) <= 4096 && 0 < tex_height(d) <= 4096 && (tex_type(d) == 0x0F
        || tex_type(d) == 0x10) && tex_width(d) % 2 == 1 && d.len() >= 0x4E + (tex_width(d)
        * tex_height(d)) / 2
}

/// A `.tex` file decodes when its header is complete, its size is 1 to
/// 4096 each way, its type is known and its data is all there.
pub open spec fn tex_decodes(d: Seq<u8>) -> bool {
    &&& d.len() >= 14
    &&& 0 < tex_width(d) <= 4096
    &&& 0 < tex_height(d) <= 4096
    &&& tex_needed(tex_type(d), tex_width(d), tex_height(d)) is Some
    &&& d.len() >= tex_needed(tex_type(d), tex_width(d), tex_height(d))->Some_0
}

/// Pixel `q` in row-major order: column `q % w` of row `q / w`.
pub open spec fn pixel_q(d: Seq<u8>, w: int, h: int, q: int) -> Seq<u8> {
    tex_pixel(d, tex_type(d), w, h, q % w, q / w)
}

/// The decoded pixels of a `.tex` file are as `tex_pixel` gives, and it
/// has alpha exactly when some pixel's alpha is below 255.
pub open spec fn tex_result(d: Seq<u8>, w: u32, h: u32, rgba: Seq<u8>, has_alpha: bool) -> bool {
    &&& w == tex_width(d)
    &&& h == tex_height(d)
    &&& rgba.len() == w * h * 4
    &&& forall|q: int, c: int|
        0 <= q < w * h && 0 <= c < 4 ==> #[trigger] rgba[q * 4 + c] == pixel_q(d, w as int, h as int, q)[c]
    &&& has_alpha == exists|q: int| 0 <= q < w * h && #[trigger] pixel_q(d, w as int, h as int, q)[3] < 255
}

proof fn lemma_pixel_index(w: int, h: int, q: int)
    by (nonlinear_arith)
    requires
        0 < w,
        0 < h,
        0 <= q < w * h,
    ensures
        0 <= q / w < h,
        0 <= q % w < w,
        0 <= (h - 1 - q / w) * w + q % w < w * h,
        0 <= (h - 1 - q / w) * w,
{
}

proof fn lemma_nibble_index(w: int, h: int, row: int, x: int)
    requires
        0 < w,
        0 < h,
        w % 2 == 0,
        0 <= row < h,
        0 <= x < w,
    ensures
        (row * w) / 2 + x / 2 < (w * h) / 2,
        0 <= (row * w) / 2 + x / 2,
{
    let k = w / 2;
    assert(w == 2 * k);
    assert(row * w == 2 * (row * k)) by (nonlinear_arith)
        requires
            w == 2 * k,
    ;
    assert(w * h == 2 * (k * h)) by (nonlinear_arith)
        requires
            w == 2 * k,
    ;
    assert(row * k <= (h - 1) * k) by (nonlinear_arith)
        requires
            row <= h - 1,
            0 < k,
    ;
    assert((h - 1) * k == k * h - k) by (nonlinear_arith);
    assert(0 <= row * k) by (nonlinear_arith)
        requires
            0 <= row,
            0 < k,
    ;
}

fn pixel_at(data: &[u8], t: u16, w: usize, h: usize, q: usize) -> (r: [u8; 4])
    requires
        0 < w <= 4096,
        0 < h <= 4096,
        q < w * h,
        t == tex_type(data@),
        data@.len() >= 14,
        tex_needed(t as int, w as int, h as int) is Some,
        data@.len() >= tex_needed(t as int, w as int, h as int)->Some_0,
        (t == 0x0F || t == 0x10) ==> w % 2 == 0,
    ensures
        r@ == tex_pixel(data@, t as int, w as int, h as int, (q % w) as int, (q / w) as int),
{
    proof {
        lemma_pixel_index(w as int, h as int, q as int);
    }
    let x = q % w;
    let y = q / w;
    let row = h - 1 - y;
    assert(row * w + x < w * h);
    assert(w * h <= 4096 * 4096) by (nonlinear_arith)
        requires
            0 < w <= 4096,
            0 < h <= 4096,
    ;
    let r = if t == 0x01 || t == 0x0E {
        let idx = data[0x40E + row * w + x] as usize;
        let c = 0x0E + 4 * idx;
        [data[c + 2], data[c + 1], data[c], data[c + 3]]
    } else if t == 0x0F || t == 0x10 {
        proof {
            lemma_nibble_index(w as int, h as int, row as int, x as int);
        }
        let p = data[0x4E + (row * w) / 2 + x / 2] as usize;
        let idx = if x % 2 == 0 {
            p % 16
        } else {
            p / 16
        };
        let c = 0x0E + 4 * idx;
        [data[c + 2], data[c + 1], data[c], data[c + 3]]
    } else if t == 0x11 {
        let s = 0x0E + (row * w + x) * 3;
        [data[s], data[s + 1], data[s + 2], 255u8]
    } else if t == 0x12 {
        let s = 0x0E + (row * w + x) * 4;
        [data[s], data[s + 1], data[s + 2], data[s + 3]]
    } else {
        let s = 0x0E + (row * w + x) * 2;
        let p: u32 = data[s] as u32 + 256 * data[s + 1] as u32;
        [
            ((p % 16) * 17) as u8,
            (((p / 16) % 16) * 17) as u8,
            (((p / 256) % 16) * 17) as u8,
            ((p / 4096) * 17) as u8,
        ]
    };
    assert(r@ =~= tex_pixel(data@, t as int, w as int, h as int, x as int, y as int));
    r
}

/// Decodes a `.tex` file into its width, height, RGBA8 pixels (top row
/// first) and whether any pixel is not opaque; `None` when it does not
/// decode (see [`tex_decodes`]).
pub fn decode_tex(data: &[u8]) -> (r: Option<(u32, u32, Vec<u8>, bool)>)
    requires
        !tex_faults(data@),
    ensures
        match r {
            Some((w, h, px, a)) => tex_decodes(data@) && tex_result(data@, w, h, px@, a),
            None => !tex_decodes(data@),
        },
{
    if data.len() < 14 {
        return None;
    }
    let w = (data[0] as u32 + 256 * data[1] as u32) as usize;
    let h = (data[2] as u32 + 256 * data[3] as u32) as usize;
    let t: u16 = data[4] as u16 + 256 * data[5] as u16;
    if w == 0 || h == 0 || w > 4096 || h > 4096 {
        return None;
    }
    assert(w * h <= 4096 * 4096) by (nonlinear_arith)
        requires
            0 < w <= 4096,
            0 < h <= 4096,
    ;
    let needed: usize = if t == 0x01 || t == 0x0E {
        0x40E + w * h
    } else if t == 0x0F || t == 0x10 {
        0x4E + (w * h) / 2
    } else if t == 0x11 {
        0x0E + w * h * 3
    } else if t == 0x12 {
        0x0E + w * h * 4
    } else if t == 0x06 {
        0x0E + w * h * 2
    } else {
        return None;
    };
    if data.len() < needed {
        return None;
    }
    assert(tex_decodes(data@));
    let n = w * h;
    let mut px: Vec<u8> = Vec::new();
    let mut has_alpha = false;
    let mut q: usize = 0;
    while q < n
        invariant
            0 < w <= 4096,
            0 < h <= 4096,
            n == w * h,
            w == tex_width(data@),
            h == tex_height(data@),
            t == tex_type(data@),
            data@.len() >= 14,
            tex_needed(t as int, w as int, h as int) is Some,
            data@.len() >= tex_needed(t as int, w as int, h as int)->Some_0,
            (t == 0x0F || t == 0x10) ==> w % 2 == 0,
            q <= n,
            px@.len() == q * 4,
            forall|p: int, c: int|
                0 <= p < q && 0 <= c < 4 ==> #[trigger] px@[p * 4 + c] == pixel_q(data@, w as int, h as int, p)[c],
            has_alpha == exists|p: int| 0 <= p < q && #[trigger] pixel_q(data@, w as int, h as int, p)[3] < 255,
        decreases n - q,
    {
        let p = pixel_at(data, t, w, h, q);
        assert(p@ == pixel_q(data@, w as int, h as int, q as int));
        let ghost before = px@;
        px.push(p[0]);
        px.push(p[1]);
        px.push(p[2]);
        px.push(p[3]);
        assert forall|pp: int, c: int| 0 <= pp < q + 1 && 0 <= c < 4 implies #[trigger] px@[pp * 4 + c]
            == pixel_q(data@, w as int, h as int, pp)[c] by {
            if pp < q {
                assert(pp * 4 + c < q * 4) by (nonlinear_arith)
                    requires
                        pp < q,
                        c < 4,
                ;
                assert(px@[pp * 4 + c] == before[pp * 4 + c]);
            } else {
                assert(pp * 4 + c == q * 4 + c);
            }
        }
        if p[3] < 255 {
            has_alpha = true;
        }
        q = q + 1;
    }
    let w32 = w as u32;
    let h32 = h as u32;
    assert(w32 as int == w && h32 as int == h);
    assert(tex_decodes(data@));
    assert(px@.len() == w32 * h32 * 4);
    assert(tex_result(data@, w32, h32, px@, has_alpha));
    Some((w32, h32, px, has_alpha))
}

/// Whether `decode_tex` must not be given `data` (see [`tex_faults`]).
pub fn tex_would_fault(data: &[u8]) -> (r: bool)
    ensures
        r == tex_faults(data@),
{
    if data.len() < 14 {
        return false;
    }
    let w = data[0] as usize + 256 * data[1] as usize;
    let h = data[2] as usize + 256 * data[3] as usize;
    let t: usize = data[4] as usize + 256 * data[5] as usize;
    if w == 0 || h == 0 || w > 4096 || h > 4096 {
        return false;
    }
    assert(w * h <= 4096 * 4096) by (nonlinear_arith)
        requires
            0 < w <= 4096,
            0 < h <= 4096,
    ;
    (t == 0x0F || t == 0x10) && w % 2 == 1 && data.len() >= 0x4E + (w * h) / 2
}

// ---------------------------------------------------------------------
// TGA
// ---------------------------------------------------------------------

/// What the `image` crate decodes from TGA bytes: width, height and RGBA8
/// pixels, or `None` when the bytes are not a TGA image it can read.
pub uninterp spec fn tga_rgba(bytes: Seq<u8>) -> Option<(u32, u32, Seq<u8>)>;

/// `image::load_from_memory_with_format(bytes, ImageFormat::Tga)`, then
/// `DynamicImage::to_rgba8`, `ImageBuffer::dimensions` and `into_raw`.
/// The result is named by `tga_rgba`; the one fact stated of it is the
/// image buffer's invariant that its pixel data holds at least four bytes
/// per pixel.
#[verifier::external_body]
fn decode_tga_rgba(bytes: &[u8]) -> (r: Option<(u32, u32, Vec<u8>)>)
    ensures
        r matches Some((w, h, px)) ==> tga_rgba(bytes@) == Some((w, h, px@)) && px@.len() >= 4 * w * h,
        r is None ==> tga_rgba(bytes@) is None,
{
    match image::load_from_memory_with_format(bytes, image::ImageFormat::Tga) {
        Ok(img) => {
            let rgba = img.to_rgba8();
            let (w, h) = rgba.dimensions();
            Some((w, h, rgba.into_raw()))
        },
        Err(_) => None,
    }
}

/// Some of the first `n` pixels of `px` is not opaque.
pub open spec fn any_translucent(px: Seq<u8>, n: int) -> bool {
    exists|k: int| 0 <= k < n && #[trigger] px[4 * k + 3] < 255
}

/// Decodes a TGA image into width, height, RGBA8 pixels and whether any
/// pixel is not opaque.
pub fn decode_tga(bytes: &[u8]) -> (r: Option<(u32, u32, Vec<u8>, bool)>)
    ensures
        match tga_rgba(bytes@) {
            None => r is None,
            Some((w, h, px)) => r matches Some((w2, h2, px2, a)) && w2 == w && h2 == h && px2@ == px
                && a == any_translucent(px, w * h),
        },
{
    match decode_tga_rgba(bytes) {
        None => None,
        Some((w, h, px)) => {
            let len = px.len();
            assert((w as u64) * (h as u64) <= u64::MAX) by (nonlinear_arith);
            let n: u64 = w as u64 * h as u64;
            let mut k: u64 = 0;
            while k < n
                invariant
                    n == w * h,
                    tga_rgba(bytes@) == Some((w, h, px@)),
                    len == px@.len(),
                    px@.len() >= 4 * w * h,
                    k <= n,
                    forall|j: int| 0 <= j < k ==> #[trigger] px@[4 * j + 3] >= 255,
                decreases n - k,
            {
                assert(4 * k + 3 < px@.len()) by (nonlinear_arith)
                    requires
                        k < n,
                        n == w * h,
                        px@.len() >= 4 * w * h,
                ;
                let idx = (4 * k + 3) as usize;
                if px[idx] < 255 {
                    assert(any_translucent(px@, w * h)) by {
                        assert(px@[4 * (k as int) + 3] < 255);
                    }
                    return Some((w, h, px, true));
                }
                k = k + 1;
            }
            assert(!any_translucent(px@, w * h));
            Some((w, h, px, false))
        },
    }
}

// ---------------------------------------------------------------------
// Which files a texture comes from
// ---------------------------------------------------------------------

/// `t` without all trailing `.tex` (`str::trim_end_matches`).
pub open spec fn without_tex_suffix(t: Seq<char>) -> Seq<char>
    decreases t.len(),
{
    if t.len() >= 4 && has_suffix(t, ".tex"@) {
        without_tex_suffix(t.take(t.len() - 4))
    } else {
        t
    }
}

/// The first `texture <name>` line of a shader, scanning lines `k..`.
pub open spec fn redirect_from(ls: Seq<Seq<char>>, k: int) -> Option<Seq<char>>
    decreases ls.len() - k,
{
    if k >= ls.len() || k < 0 {
        None
    } else {
        let t = spec_trim(ls[k]);
        let ws = spec_words(t);
        if has_prefix(t, "texture "@) && ws.len() >= 2 {
            Some(without_tex_suffix(trim_quotes(ws[1])))
        } else {
            redirect_from(ls, k + 1)
        }
    }
}

/// The texture a `<name>.shader` file redirects to: the name on its first
/// `texture` line, without quotes or `.tex`.
pub fn shader_texture_redirect(shader: &str) -> (r: Option<String>)
    ensures
        match redirect_from(spec_lines(shader@), 0) {
            Some(n) => r matches Some(s) && s@ == n,
            None => r is None,
        },
{
    let chars = chars_of(shader);
    let ls = lines(chars.as_slice());
    let ghost lv = ls@.map_values(|l: Vec<char>| l@);
    assert(lv =~= spec_lines(shader@));
    let mut k: usize = 0;
    while k < ls.len()
        invariant
            k <= ls@.len(),
            lv == ls@.map_values(|l: Vec<char>| l@),
            lv == spec_lines(shader@),
            redirect_from(lv, k as int) == redirect_from(lv, 0),
        decreases ls@.len() - k,
    {
        assert(lv[k as int] == ls@[k as int]@);
        let t = trim(ls[k].as_slice());
        let ws = split_whitespace(t.as_slice());
        let ghost wv = ws@.map_values(|w: Vec<char>| w@);
        assert(wv =~= spec_words(t@));
        if starts_with(t.as_slice(), chars_of("texture ").as_slice()) && ws.len() >= 2 {
            assert(wv[1] == ws@[1]@);
            let mut name = trim_quote_chars(ws[1].as_slice());
            let suffix = chars_of(".tex");
            proof {
                reveal_strlit(".tex");
            }
            while name.len() >= 4 && ends_with(name.as_slice(), suffix.as_slice())
                invariant
                    suffix@ == ".tex"@,
                    ".tex"@.len() == 4,
                    without_tex_suffix(name@) == without_tex_suffix(trim_quotes(wv[1])),
                decreases name@.len(),
            {
                let cut = name.len() - 4;
                let ghost before = name@;
                name.truncate(cut);
                assert(name@ =~= before.take(cut as int));
            }
            return Some(string_from_chars(name.as_slice()));
        }
        k = k + 1;
    }
    None
}

/// The name with `ext` appended.
fn with_extension(name: &str, ext: &str) -> (r: String)
    ensures
        r@ == name@ + ext@,
{
    let mut v: Vec<char> = Vec::new();
    push_str(&mut v, name);
    push_str(&mut v, ext);
    assert(v@ =~= name@ + ext@);
    string_from_chars(v.as_slice())
}

/// The files a texture named `name` is looked for in, in the order they
/// are tried: the native `name.tex`, then `name.shader` (whose `texture`
/// line names another texture, see [`shader_texture_redirect`]), then the
/// converted `name.tex.tga`, then `name.tga`.
pub fn texture_file_names(name: &str) -> (r: Vec<String>)
    ensures
        r@.len() == 4,
        r@[0]@ == name@ + ".tex"@,
        r@[1]@ == name@ + ".shader"@,
        r@[2]@ == name@ + ".tex.tga"@,
        r@[3]@ == name@ + ".tga"@,
{
    let mut r: Vec<String> = Vec::new();
    r.push(with_extension(name, ".tex"));
    r.push(with_extension(name, ".shader"));
    r.push(with_extension(name, ".tex.tga"));
    r.push(with_extension(name, ".tga"));
    r
}

} // verus!
