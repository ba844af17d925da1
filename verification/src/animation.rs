//! Binary animations (`.anim`).
//!
//! Two variants, told apart by the first little-endian word:
//!
//! ```text
//! 'ani0'  flags, frames, channels (u32 each at 4, 8, 12); then the stride:
//!         x y z (flags bit 0) or z alone; a loop byte; per frame 3 delta
//!         floats (flags bit 1) and then the channel floats
//! 'ANI1'  flags, frames, channels; stride x y z at 16; per frame the
//!         channel floats, then 3 delta floats (flags bit 31); loop = bit 0
//! ```
//!
//! Floats are kept as their IEEE-754 bits.
use crate::model::{le32, le32_at};
use vstd::prelude::*;

verus! {

/// A decoded animation: `frames[f][c]` is channel `c` of frame `f`.
pub struct Oni2Animation {
    pub num_frames: u32,
    pub num_channels: u32,
    /// Forward stride per cycle (bits of an `f32`).
    pub stride_z: u32,
    pub is_loop: bool,
    pub frames: Vec<Vec<u32>>,
}

/// `ani0` in a little-endian word.
pub open spec fn magic_ani0() -> u32 {
    0x00696E61
}

/// `ANI1` in a little-endian word.
pub open spec fn magic_ani1() -> u32 {
    0x31494E41
}

/// The frames read from `base`: `per` floats a frame, the channels after
/// `lead` of them.
pub open spec fn frame_values(d: Seq<u8>, base: int, per: int, lead: int, nf: int, nc: int) -> Seq<
    Seq<u32>,
> {
    Seq::new(nf as nat, |f: int| Seq::new(nc as nat, |c: int| le32(d, base + 4 * (f * per + lead + c))))
}

/// Where the frames of a file start, how many floats a frame has and how
/// many come before its channels; `None` when the header is short.
pub open spec fn anim_layout(d: Seq<u8>) -> Option<(int, int, int)> {
    let id = le32(d, 0);
    let flags = le32(d, 4);
    let nc = le32(d, 12) as int;
    if d.len() < 17 {
        None
    } else if id == magic_ani0() {
        let off: int = if flags % 2 == 1 {
            28
        } else {
            20
        };
        let lead: int = if (flags / 2) % 2 == 1 {
            3
        } else {
            0
        };
        if d.len() < 20 || off >= d.len() {
            None
        } else {
            Some((off + 1, lead + nc, lead))
        }
    } else if id == magic_ani1() {
        if d.len() < 28 {
            None
        } else {
            Some(
                (
                    28,
                    nc + if flags >= 0x8000_0000 {
                        3int
                    } else {
                        0int
                    },
                    0,
                ),
            )
        }
    } else {
        None
    }
}

/// The bytes the frames of a file reach to.
pub open spec fn anim_needed(d: Seq<u8>, base: int, per: int) -> int {
    base + (le32(d, 8) as int) * per * 4
}

/// Files whose frame size computation overflows a `usize`.
pub open spec fn anim_faults(d: Seq<u8>) -> bool {
    match anim_layout(d) {
        Some((base, per, lead)) => anim_needed(d, base, per) > usize::MAX,
        None => false,
    }
}

/// The animation of a file: `None` for an unknown format, a short header
/// or frames that run past the end.
pub open spec fn spec_parse_anim(d: Seq<u8>) -> Option<(u32, u32, u32, bool, Seq<Seq<u32>>)> {
    match anim_layout(d) {
        Some((base, per, lead)) => if anim_needed(d, base, per) > d.len() {
            None
        } else {
            let id = le32(d, 0);
            let flags = le32(d, 4);
            let nf = le32(d, 8);
            let nc = le32(d, 12);
            let stride = if id == magic_ani0() {
                if flags % 2 == 1 {
                    le32(d, 24)
                } else {
                    le32(d, 16)
                }
            } else {
                le32(d, 24)
            };
            let is_loop = if id == magic_ani0() {
                d[base - 1] != 0
            } else {
                flags % 2 == 1
            };
            Some((nf, nc, stride, is_loop, frame_values(d, base, per, lead, nf as int, nc as int)))
        },
        None => None,
    }
}

/// Whether `parse_anim` must not be given `data` (see [`anim_faults`]).
pub fn anim_would_fault(data: &[u8]) -> (r: bool)
    ensures
        r == anim_faults(data@),
{
    match layout(data) {
        Some((base, per, lead)) => {
            let nf = le32_at(data, 8) as u128;
            assert(nf * (per as u128) * 4 <= 0x1_0000_0000 * 0x1_0000_0003 * 4) by (nonlinear_arith)
                requires
                    nf <= 0xFFFF_FFFF,
                    per <= 0x1_0000_0002,
            ;
            (base as u128) + nf * (per as u128) * 4 > usize::MAX as u128
        },
        None => false,
    }
}

fn layout(data: &[u8]) -> (r: Option<(u64, u64, u64)>)
    ensures
        match anim_layout(data@) {
            Some((b, p, l)) => r matches Some((b2, p2, l2)) && b2 == b && p2 == p && l2 == l
                && data@.len() >= 17 && b <= 29 && l <= 3 && p <= u32::MAX + 3 && p >= l,
            None => r is None,
        },
{
    if data.len() < 17 {
        return None;
    }
    let id = le32_at(data, 0);
    let flags = le32_at(data, 4);
    let nc = le32_at(data, 12) as u64;
    if id == 0x00696E61 {
        let off: u64 = if flags % 2 == 1 {
            28
        } else {
            20
        };
        let lead: u64 = if (flags / 2) % 2 == 1 {
            3
        } else {
            0
        };
        if data.len() < 20 || off >= data.len() as u64 {
            None
        } else {
            Some((off + 1, lead + nc, lead))
        }
    } else if id == 0x31494E41 {
        if data.len() < 28 {
            None
        } else {
            let t: u64 = if flags >= 0x8000_0000 {
                3
            } else {
                0
            };
            Some((28, nc + t, 0))
        }
    } else {
        None
    }
}

proof fn lemma_frame_bounds(f: int, per: int, lead: int, c: int, nf: int, nc: int)
    by (nonlinear_arith)
    requires
        0 <= f < nf,
        0 <= c < nc,
        lead + nc <= per,
        0 <= lead,
    ensures
        4 * (f * per + lead + c) + 4 <= nf * per * 4,
        0 <= 4 * (f * per + lead + c),
{
    assert(f * per + per <= nf * per);
}

/// Decodes a binary animation (see [`spec_parse_anim`]).
pub fn parse_anim(data: &[u8]) -> (r: Option<Oni2Animation>)
    requires
        !anim_faults(data@),
    ensures
        match spec_parse_anim(data@) {
            Some((nf, nc, stride, lp, frames)) => r matches Some(a) && a.num_frames == nf
                && a.num_channels == nc && a.stride_z == stride && a.is_loop == lp
                && a.frames@.map_values(|v: Vec<u32>| v@) == frames,
            None => r is None,
        },
{
    let (base, per, lead) = match layout(data) {
        Some(l) => l,
        None => {
            return None;
        },
    };
    let nf = le32_at(data, 8);
    let nc = le32_at(data, 12);
    let flags = le32_at(data, 4);
    let id = le32_at(data, 0);
    assert((nf as u128) * (per as u128) * 4 <= 0x1_0000_0000 * 0x1_0000_0003 * 4) by (nonlinear_arith)
        requires
            nf <= 0xFFFF_FFFF,
            per <= 0x1_0000_0002,
    ;
    let needed: u128 = (base as u128) + (nf as u128) * (per as u128) * 4;
    assert(needed == anim_needed(data@, base as int, per as int));
    if needed > data.len() as u128 {
        return None;
    }
    let stride = if id == 0x00696E61 {
        if flags % 2 == 1 {
            le32_at(data, 24)
        } else {
            le32_at(data, 16)
        }
    } else {
        le32_at(data, 24)
    };
    let is_loop = if id == 0x00696E61 {
        data[(base - 1) as usize] != 0
    } else {
        flags % 2 == 1
    };
    let ghost target = frame_values(data@, base as int, per as int, lead as int, nf as int, nc as int);
    let mut frames: Vec<Vec<u32>> = Vec::new();
    let mut f: u32 = 0;
    while f < nf
        invariant
            f <= nf,
            nf == le32(data@, 8),
            base + (nf as int) * (per as int) * 4 <= data@.len(),
            lead + nc <= per,
            per <= 0x1_0000_0002,
            frames@.len() == f,
            forall|g: int| 0 <= g < f ==> (#[trigger] frames@[g])@ == target[g],
            target == frame_values(data@, base as int, per as int, lead as int, nf as int, nc as int),
        decreases nf - f,
    {
        let mut ch: Vec<u32> = Vec::new();
        let mut c: u32 = 0;
        while c < nc
            invariant
                f < nf,
                c <= nc,
                base + (nf as int) * (per as int) * 4 <= data@.len(),
                lead + nc <= per,
                per <= 0x1_0000_0002,
                ch@.len() == c,
                forall|k: int| 0 <= k < c ==> #[trigger] ch@[k] == target[f as int][k],
                target == frame_values(data@, base as int, per as int, lead as int, nf as int, nc as int),
            decreases nc - c,
        {
            proof {
                lemma_frame_bounds(f as int, per as int, lead as int, c as int, nf as int, nc as int);
            }
            assert((f as int) * (per as int) <= 0xFFFF_FFFF * 0x1_0000_0002) by (nonlinear_arith)
                requires
                    f <= 0xFFFF_FFFF,
                    per <= 0x1_0000_0002,
            ;
            let fp: u128 = (f as u128) * (per as u128);
            assert(fp <= (nf as int) * (per as int)) by (nonlinear_arith)
                requires
                    f < nf,
                    fp == (f as int) * (per as int),
            ;
            assert(4 * (fp + lead + c) + 4 <= (nf as int) * (per as int) * 4);
            let pos128: u128 = (base as u128) + 4 * (fp + (lead as u128) + (c as u128));
            assert(pos128 + 4 <= data@.len());
            let dl = data.len();
            assert(pos128 <= dl);
            let pos: usize = pos128 as usize;
            assert(pos as int == base + 4 * ((f as int) * (per as int) + lead + c));
            assert(target[f as int][c as int] == le32(data@, pos as int));
            ch.push(le32_at(data, pos));
            c = c + 1;
        }
        assert(ch@ =~= target[f as int]);
        frames.push(ch);
        f = f + 1;
    }
    assert(frames@.map_values(|v: Vec<u32>| v@) =~= target);
    Some(Oni2Animation { num_frames: nf, num_channels: nc, stride_z: stride, is_loop, frames })
}

} // verus!
