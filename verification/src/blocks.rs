//! The block structure of a binary `.mod` packet region.
//!
//! Each block is laid out as
//!
//! ```text
//! A, B, C, D           header, 4 × u32
//! A × 24 bytes         table 1: packet entries (6 × u32)
//! D × 24 bytes         bounds (6 × f32)
//! B bone-map groups    u32 type, u32 count, count × u32 bone indices
//! C + 4 u32            sub-header: C values, table-2 count, table-2 group
//!                      count, trailing value, bone-bound count
//! table 2              packet entries
//! table-2 groups       bone-map groups
//! bone bounds          24-byte records
//! trailing groups      bone-map groups up to the next block
//! zero padding
//! ```
//!
//! A walk over the region reads block after block, resynchronising on
//! what looks like the next block header when a header is implausible.
//! Float fields are kept as their bit patterns.
use crate::model::{le32, le32_at, read_words, records_fit, words};
use vstd::prelude::*;

verus! {

// ---------------------------------------------------------------------
// Records
// ---------------------------------------------------------------------

/// A 24-byte packet entry: vertex, normal, colour (0), texture coordinate,
/// second texture coordinate (0), local bone.
#[derive(Debug, Clone, Copy, PartialEq, Eq, Structural)]
pub struct PacketEntry {
    pub f0: u32,
    pub f1: u32,
    pub f2: u32,
    pub f3: u32,
    pub f4: u32,
    pub f5: u32,
}

/// A bone-map group.
#[derive(Debug, Clone)]
pub struct BoneMapGroup {
    pub group_type: u32,
    pub bone_indices: Vec<u32>,
}

/// A block of the packet region.
#[derive(Debug, Clone)]
pub struct ParsedBlock {
    pub offset: usize,
    /// A, B, C, D.
    pub header: [u32; 4],
    pub table1: Vec<PacketEntry>,
    /// 6 × f32 each, as bit patterns.
    pub bounds: Vec<[u32; 6]>,
    pub bone_groups: Vec<BoneMapGroup>,
    pub table2: Vec<PacketEntry>,
    pub sub_header: Vec<u32>,
    /// u32 bone, u32 sub-index, 4 × f32, as bit patterns.
    pub bone_bounds: Vec<[u32; 6]>,
    pub end_offset: usize,
}

/// Mathematical view of a [`ParsedBlock`].
pub struct BlockView {
    pub offset: int,
    pub header: Seq<u32>,
    pub table1: Seq<PacketEntry>,
    pub bounds: Seq<Seq<u32>>,
    pub bone_groups: Seq<(u32, Seq<u32>)>,
    pub table2: Seq<PacketEntry>,
    pub sub_header: Seq<u32>,
    pub bone_bounds: Seq<Seq<u32>>,
    pub end_offset: int,
}

pub open spec fn group_views(gs: Seq<BoneMapGroup>) -> Seq<(u32, Seq<u32>)> {
    gs.map_values(|g: BoneMapGroup| (g.group_type, g.bone_indices@))
}

impl View for ParsedBlock {
    type V = BlockView;

    open spec fn view(&self) -> BlockView {
        BlockView {
            offset: self.offset as int,
            header: self.header@,
            table1: self.table1@,
            bounds: self.bounds@.map_values(|b: [u32; 6]| b@),
            bone_groups: group_views(self.bone_groups@),
            table2: self.table2@,
            sub_header: self.sub_header@,
            bone_bounds: self.bone_bounds@.map_values(|b: [u32; 6]| b@),
            end_offset: self.end_offset as int,
        }
    }
}

/// The packet entry at `o`.
pub open spec fn entry_at(d: Seq<u8>, o: int) -> PacketEntry {
    PacketEntry {
        f0: le32(d, o),
        f1: le32(d, o + 4),
        f2: le32(d, o + 8),
        f3: le32(d, o + 12),
        f4: le32(d, o + 16),
        f5: le32(d, o + 20),
    }
}

/// Up to `n` packet entries from `o` that end by `end`.
pub open spec fn entries_at(d: Seq<u8>, o: int, end: int, n: int) -> Seq<PacketEntry> {
    Seq::new(records_fit(end, o, n, 24) as nat, |i: int| entry_at(d, o + 24 * i))
}

/// Up to `n` records of six words from `o` that end by `end`.
pub open spec fn sixes_at(d: Seq<u8>, o: int, end: int, n: int) -> Seq<Seq<u32>> {
    Seq::new(records_fit(end, o, n, 24) as nat, |i: int| words(d, o + 24 * i, 6))
}

pub open spec fn entry_clean(e: PacketEntry) -> bool {
    e.f2 == 0 && e.f4 == 0
}

/// A header that could start a block.
pub open spec fn plausible(a: u32, b: u32, c: u32, dd: u32) -> bool {
    0 < a < 200 && b < 100 && c < 100 && dd < 200
}

pub open spec fn header_plausible(d: Seq<u8>, o: int) -> bool {
    plausible(le32(d, o), le32(d, o + 4), le32(d, o + 8), le32(d, o + 12))
}

/// `o` holds a plausible header followed by a clean first entry, all
/// before `end`.
pub open spec fn starts_block(d: Seq<u8>, o: int, end: int) -> bool {
    o + 40 <= end && header_plausible(d, o) && entry_clean(entry_at(d, o + 16))
}

/// Looks like a table-2 entry: clean, with small vertex and normal.
pub open spec fn looks_like_entry(d: Seq<u8>, o: int) -> bool {
    o + 24 <= d.len() && entry_clean(entry_at(d, o)) && le32(d, o) < 10000 && le32(d, o + 4) < 10000
}

/// The bone-map group at `o` and the bytes it takes: type at most 16,
/// 1 to 64 indices, each at most `max`, all within the file.
pub open spec fn group_at(d: Seq<u8>, o: int, max: u32) -> Option<((u32, Seq<u32>), int)> {
    if o + 8 > d.len() {
        None
    } else {
        let t = le32(d, o);
        let n = le32(d, o + 4) as int;
        if t > 16 || n == 0 || n > 64 || o + 8 + 4 * n > d.len() {
            None
        } else if !(forall|i: int| 0 <= i < n ==> #[trigger] le32(d, o + 8 + 4 * i) <= max) {
            None
        } else {
            Some(((t, words(d, o + 8, n)), 8 + 4 * n))
        }
    }
}

/// Up to `n` groups from `o`: the groups read, the offset reached, and
/// whether all `n` were read.
pub open spec fn groups_from(d: Seq<u8>, o: int, n: nat, max: u32) -> (Seq<(u32, Seq<u32>)>, int, bool)
    decreases n,
{
    if n == 0 {
        (Seq::empty(), o, true)
    } else {
        match group_at(d, o, max) {
            None => (Seq::empty(), o, false),
            Some((g, c)) => {
                let (rest, r, ok) = groups_from(d, o + c, (n - 1) as nat, max);
                (seq![g] + rest, r, ok)
            },
        }
    }
}

/// Table-2 entries read while they look like entries.
pub open spec fn scan_entries(d: Seq<u8>, o: int, end: int) -> (Seq<PacketEntry>, int)
    decreases end - o,
{
    if o + 24 > end || !looks_like_entry(d, o) {
        (Seq::empty(), o)
    } else {
        let (rest, r) = scan_entries(d, o + 24, end);
        (seq![entry_at(d, o)] + rest, r)
    }
}

/// The offset after the trailing groups: groups (indices up to 512) are
/// read, at most 200 in all (`k` so far), until the next block starts or
/// no group can be read.
pub open spec fn trailing_end(d: Seq<u8>, o: int, end: int, k: nat) -> int
    decreases 200 - k,
{
    if k >= 200 || starts_block(d, o, end) {
        o
    } else {
        match group_at(d, o, 512) {
            None => o,
            Some((_, c)) => trailing_end(d, o + c, end, k + 1),
        }
    }
}

/// Past the zero words from `o`.
pub open spec fn skip_zero_words(d: Seq<u8>, o: int, end: int) -> int
    decreases end - o,
{
    if o + 4 > end || le32(d, o) != 0 {
        o
    } else {
        skip_zero_words(d, o + 4, end)
    }
}

/// From `s` in steps of 4, the first offset below `limit` (16 bytes
/// fitting) that starts a block.
pub open spec fn rescan_from(d: Seq<u8>, s: int, limit: int, end: int) -> Option<int>
    decreases limit - s,
{
    if s + 16 > limit {
        None
    } else if starts_block(d, s, end) {
        Some(s)
    } else {
        rescan_from(d, s + 4, limit, end)
    }
}

/// What the walk does at one offset.
pub enum BlockStepView {
    /// The walk ends.
    Stop,
    /// Nothing is read; the walk goes on at this offset.
    Skip(int),
    /// A block, and where the walk goes on.
    Block(BlockView, int),
}

/// The part of a block after its bone groups, from `o`: sub-header,
/// table 2, table-2 groups, bone bounds, trailing groups and padding.
pub open spec fn block_tail(d: Seq<u8>, o: int, end: int, c: int) -> (Seq<u32>, Seq<PacketEntry>, Seq<Seq<u32>>, int) {
    let sh = words(d, o, records_fit(end, o, c + 4, 4));
    let o2 = o + 4 * sh.len();
    let t2c = if sh.len() >= c + 2 { sh[c] as int } else { 0 };
    let t2g = if sh.len() >= c + 2 { sh[c + 1] as int } else { 0 };
    let (table2, o3) = if 0 < t2c < 500 {
        let t = entries_at(d, o2, end, t2c);
        (t, o2 + 24 * t.len())
    } else {
        scan_entries(d, o2, end)
    };
    let o4 = groups_from(d, o3, t2g as nat, 512).1;
    let bbc = if sh.len() >= c + 4 { sh[c + 3] as int } else { 0 };
    let (bone_bounds, o5) = if 0 < bbc < 500 {
        let b = sixes_at(d, o4, end, bbc);
        (b, o4 + 24 * b.len())
    } else {
        (Seq::empty(), o4)
    };
    (sh, table2, bone_bounds, skip_zero_words(d, trailing_end(d, o5, end, 0), end))
}

/// One step of the walk at `off` (with 16 bytes before `end`).
///
/// An implausible header sends the walk to the next offset, 4 to 252
/// bytes on, that starts a block, or ends it.  A plausible header whose
/// first entry is not clean is skipped by 4 bytes, as is a block whose
/// bone groups do not all read or whose table 1 has an unclean entry.  A
/// block whose table 1 and bounds run past `end` ends the walk.
pub open spec fn block_step(d: Seq<u8>, off: int, end: int) -> BlockStepView {
    let a = le32(d, off);
    let b = le32(d, off + 4);
    let c = le32(d, off + 8);
    let dd = le32(d, off + 12);
    if !plausible(a, b, c, dd) {
        match rescan_from(d, off + 4, if off + 256 < end { off + 256 } else { end }, end) {
            Some(s) => BlockStepView::Skip(s),
            None => BlockStepView::Stop,
        }
    } else if off + 40 <= end && !entry_clean(entry_at(d, off + 16)) {
        BlockStepView::Skip(off + 4)
    } else if off + 16 + 24 * a + 24 * dd > end {
        BlockStepView::Stop
    } else {
        let table1 = entries_at(d, off + 16, end, a as int);
        let bounds = sixes_at(d, off + 16 + 24 * a, end, dd as int);
        let goff0 = off + 16 + 24 * a + 24 * dd;
        let (groups, goff, ok) = groups_from(d, goff0, b as nat, 255);
        let clean = forall|i: int| 0 <= i < table1.len() ==> entry_clean(#[trigger] table1[i]);
        if !ok || !clean {
            BlockStepView::Skip(off + 4)
        } else {
            let (sh, table2, bone_bounds, block_end) = block_tail(d, goff, end, c as int);
            BlockStepView::Block(
                BlockView {
                    offset: off,
                    header: seq![a, b, c, dd],
                    table1,
                    bounds,
                    bone_groups: groups,
                    table2,
                    sub_header: sh,
                    bone_bounds,
                    end_offset: block_end,
                },
                block_end,
            )
        }
    }
}

proof fn lemma_groups_from_bounds(d: Seq<u8>, o: int, n: nat, max: u32)
    ensures
        groups_from(d, o, n, max).1 >= o,
        o <= d.len() ==> groups_from(d, o, n, max).1 <= d.len(),
    decreases n,
{
    if n > 0 {
        match group_at(d, o, max) {
            None => {},
            Some((g, c)) => {
                lemma_groups_from_bounds(d, o + c, (n - 1) as nat, max);
            },
        }
    }
}

proof fn lemma_scan_entries_bounds(d: Seq<u8>, o: int, end: int)
    ensures
        scan_entries(d, o, end).1 >= o,
        o <= end ==> scan_entries(d, o, end).1 <= end,
    decreases end - o,
{
    if !(o + 24 > end || !looks_like_entry(d, o)) {
        lemma_scan_entries_bounds(d, o + 24, end);
    }
}

proof fn lemma_trailing_end_bounds(d: Seq<u8>, o: int, end: int, k: nat)
    ensures
        trailing_end(d, o, end, k) >= o,
        o <= d.len() ==> trailing_end(d, o, end, k) <= d.len(),
    decreases 200 - k,
{
    if !(k >= 200 || starts_block(d, o, end)) {
        match group_at(d, o, 512) {
            None => {},
            Some((_, c)) => {
                lemma_trailing_end_bounds(d, o + c, end, k + 1);
            },
        }
    }
}

proof fn lemma_skip_zero_bounds(d: Seq<u8>, o: int, end: int)
    ensures
        skip_zero_words(d, o, end) >= o,
        o <= end ==> skip_zero_words(d, o, end) <= end,
    decreases end - o,
{
    if !(o + 4 > end || le32(d, o) != 0) {
        lemma_skip_zero_bounds(d, o + 4, end);
    }
}

proof fn lemma_rescan_bounds(d: Seq<u8>, s: int, limit: int, end: int)
    ensures
        rescan_from(d, s, limit, end) matches Some(x) ==> s <= x && x + 16 <= limit,
    decreases limit - s,
{
    if !(s + 16 > limit) && !starts_block(d, s, end) {
        lemma_rescan_bounds(d, s + 4, limit, end);
    }
}

proof fn lemma_block_tail_bounds(d: Seq<u8>, o: int, end: int, c: int)
    requires
        0 <= c,
        end <= d.len(),
        o <= d.len(),
    ensures
        o <= block_tail(d, o, end, c).3 <= d.len(),
{
    let sh = words(d, o, records_fit(end, o, c + 4, 4));
    let o2 = o + 4 * sh.len();
    assert(o2 <= d.len()) by (nonlinear_arith)
        requires
            o2 == o + 4 * records_fit(end, o, c + 4, 4),
            records_fit(end, o, c + 4, 4) == (if o > end {
                0
            } else if (end - o) / 4 < c + 4 {
                (end - o) / 4
            } else {
                c + 4
            }),
            end <= d.len(),
            o <= d.len(),
            0 <= c,
    ;
    let t2c = if sh.len() >= c + 2 { sh[c] as int } else { 0 };
    let t2g = if sh.len() >= c + 2 { sh[c + 1] as int } else { 0 };
    let o3 = if 0 < t2c < 500 {
        o2 + 24 * entries_at(d, o2, end, t2c).len()
    } else {
        scan_entries(d, o2, end).1
    };
    if 0 < t2c < 500 {
        assert(o3 <= d.len()) by (nonlinear_arith)
            requires
                o3 == o2 + 24 * records_fit(end, o2, t2c, 24),
                records_fit(end, o2, t2c, 24) == (if o2 > end {
                    0
                } else if (end - o2) / 24 < t2c {
                    (end - o2) / 24
                } else {
                    t2c
                }),
                end <= d.len(),
                o2 <= d.len(),
                0 < t2c,
        ;
    } else {
        lemma_scan_entries_bounds(d, o2, end);
    }
    lemma_groups_from_bounds(d, o3, t2g as nat, 512);
    let o4 = groups_from(d, o3, t2g as nat, 512).1;
    let bbc = if sh.len() >= c + 4 { sh[c + 3] as int } else { 0 };
    let o5 = if 0 < bbc < 500 {
        o4 + 24 * sixes_at(d, o4, end, bbc).len()
    } else {
        o4
    };
    if 0 < bbc < 500 {
        assert(o5 <= d.len()) by (nonlinear_arith)
            requires
                o5 == o4 + 24 * records_fit(end, o4, bbc, 24),
                records_fit(end, o4, bbc, 24) == (if o4 > end {
                    0
                } else if (end - o4) / 24 < bbc {
                    (end - o4) / 24
                } else {
                    bbc
                }),
                end <= d.len(),
                o4 <= d.len(),
                0 < bbc,
        ;
    }
    lemma_trailing_end_bounds(d, o5, end, 0);
    lemma_skip_zero_bounds(d, trailing_end(d, o5, end, 0), end);
}

/// A step of the walk from `off` moves forward and stays in the file.
proof fn lemma_block_step_advances(d: Seq<u8>, off: int, end: int)
    requires
        0 <= off,
        off + 16 <= end <= d.len(),
    ensures
        block_step(d, off, end) matches BlockStepView::Skip(q) ==> off < q <= d.len(),
        block_step(d, off, end) matches BlockStepView::Block(_, q) ==> off < q <= d.len(),
{
    let a = le32(d, off);
    let b = le32(d, off + 4);
    let c = le32(d, off + 8);
    let dd = le32(d, off + 12);
    if !plausible(a, b, c, dd) {
        lemma_rescan_bounds(d, off + 4, if off + 256 < end { off + 256 } else { end }, end);
    } else if off + 40 <= end && !entry_clean(entry_at(d, off + 16)) {
    } else if off + 16 + 24 * a + 24 * dd > end {
    } else {
        let goff0 = off + 16 + 24 * a + 24 * dd;
        lemma_groups_from_bounds(d, goff0, b as nat, 255);
        let goff = groups_from(d, goff0, b as nat, 255).1;
        lemma_block_tail_bounds(d, goff, end, c as int);
    }
}

#[via_fn]
proof fn walk_decreases(d: Seq<u8>, off: int, end: int, n: nat) {
    if off >= 0 && end <= d.len() && off + 16 <= end {
        lemma_block_step_advances(d, off, end);
    }
}

/// The blocks the walk reads from `off`, `n` blocks having been read
/// before; it ends after 51 blocks in all.
pub open spec fn walk_from(d: Seq<u8>, off: int, end: int, n: nat) -> Seq<BlockView>
    decreases d.len() - off,
    when 0 <= off && end <= d.len()
    via walk_decreases
{
    if off + 16 > end {
        Seq::empty()
    } else {
        match block_step(d, off, end) {
            BlockStepView::Stop => Seq::empty(),
            BlockStepView::Skip(q) => walk_from(d, q, end, n),
            BlockStepView::Block(b, q) => if n + 1 > 50 {
                seq![b]
            } else {
                seq![b] + walk_from(d, q, end, n + 1)
            },
        }
    }
}

/// A block as the walk reads it: a plausible header `[A, B, C, D]`, a
/// clean table 1 of `A` entries, `D` bounds and `B` bone groups, with
/// table 1 and the bounds before `end`, and its end past its start.
pub open spec fn block_ok(b: BlockView, end: int) -> bool {
    &&& b.header.len() == 4
    &&& plausible(b.header[0], b.header[1], b.header[2], b.header[3])
    &&& b.table1.len() == b.header[0]
    &&& forall|i: int| 0 <= i < b.table1.len() ==> entry_clean(#[trigger] b.table1[i])
    &&& b.bounds.len() == b.header[3]
    &&& b.bone_groups.len() == b.header[1]
    &&& b.offset + 16 + 24 * b.header[0] + 24 * b.header[3] <= end
    &&& b.offset < b.end_offset
}

/// The blocks of a walk from `off`: each well formed and at or after
/// `off`, each ending at or before the next one starts.
pub open spec fn walk_ok(w: Seq<BlockView>, off: int, end: int) -> bool {
    &&& forall|i: int| 0 <= i < w.len() ==> block_ok(#[trigger] w[i], end) && off <= w[i].offset
    &&& forall|i: int| 0 <= i < w.len() - 1 ==> (#[trigger] w[i]).end_offset <= w[i + 1].offset
}

proof fn lemma_groups_ok_len(d: Seq<u8>, o: int, n: nat, max: u32)
    ensures
        groups_from(d, o, n, max).2 ==> groups_from(d, o, n, max).0.len() == n,
    decreases n,
{
    if n > 0 {
        match group_at(d, o, max) {
            None => {},
            Some((g, c)) => {
                lemma_groups_ok_len(d, o + c, (n - 1) as nat, max);
            },
        }
    }
}

proof fn lemma_block_step_ok(d: Seq<u8>, off: int, end: int)
    requires
        0 <= off,
        off + 16 <= end <= d.len(),
    ensures
        block_step(d, off, end) matches BlockStepView::Block(b, q) ==> block_ok(b, end) && b.offset
            == off && q == b.end_offset,
{
    lemma_block_step_advances(d, off, end);
    let a = le32(d, off);
    let b = le32(d, off + 4);
    let c = le32(d, off + 8);
    let dd = le32(d, off + 12);
    if plausible(a, b, c, dd) && !(off + 40 <= end && !entry_clean(entry_at(d, off + 16))) && !(off
        + 16 + 24 * a + 24 * dd > end) {
        let ai = a as int;
        let di = dd as int;
        assert(records_fit(end, off + 16, ai, 24) == ai) by (nonlinear_arith)
            requires
                off + 16 + 24 * ai + 24 * di <= end,
                0 <= ai,
                0 <= di,
                records_fit(end, off + 16, ai, 24) == (if off + 16 > end {
                    0
                } else if (end - (off + 16)) / 24 < ai {
                    (end - (off + 16)) / 24
                } else {
                    ai
                }),
        ;
        assert(records_fit(end, off + 16 + 24 * ai, di, 24) == di) by (nonlinear_arith)
            requires
                off + 16 + 24 * ai + 24 * di <= end,
                0 <= ai,
                0 <= di,
                records_fit(end, off + 16 + 24 * ai, di, 24) == (if off + 16 + 24 * ai > end {
                    0
                } else if (end - (off + 16 + 24 * ai)) / 24 < di {
                    (end - (off + 16 + 24 * ai)) / 24
                } else {
                    di
                }),
        ;
        let goff0 = off + 16 + 24 * a + 24 * dd;
        lemma_groups_ok_len(d, goff0, b as nat, 255);
    }
}

proof fn lemma_walk_ok(d: Seq<u8>, off: int, end: int, n: nat)
    requires
        0 <= off,
        end <= d.len(),
        n <= 50,
    ensures
        walk_ok(walk_from(d, off, end, n), off, end),
        walk_from(d, off, end, n).len() <= 51 - n,
    decreases d.len() - off,
{
    if off + 16 <= end {
        lemma_block_step_advances(d, off, end);
        lemma_block_step_ok(d, off, end);
        match block_step(d, off, end) {
            BlockStepView::Stop => {},
            BlockStepView::Skip(q) => {
                lemma_walk_ok(d, q, end, n);
            },
            BlockStepView::Block(b, q) => {
                if n + 1 <= 50 {
                    lemma_walk_ok(d, q, end, n + 1);
                    let rest = walk_from(d, q, end, n + 1);
                    let w = seq![b] + rest;
                    assert(w =~= walk_from(d, off, end, n));
                    assert forall|i: int| 0 <= i < w.len() implies block_ok(#[trigger] w[i], end)
                        && off <= w[i].offset by {
                        if i > 0 {
                            assert(w[i] == rest[i - 1]);
                        }
                    }
                    assert forall|i: int| 0 <= i < w.len() - 1 implies (#[trigger] w[i]).end_offset
                        <= w[i + 1].offset by {
                        if i > 0 {
                            assert(w[i] == rest[i - 1]);
                            assert(w[i + 1] == rest[i]);
                        } else {
                            assert(w[1] == rest[0]);
                        }
                    }
                }
            },
        }
    }
}

/// Every block the walk of `start..end` reads has a plausible header
/// `[A, B, C, D]` (0 < A < 200, B < 100, C < 100, D < 200), a clean table
/// 1 of `A` entries, `D` bounds and `B` bone groups; it starts at or
/// after `start` with table 1 and the bounds before `end`; each block
/// ends at or before the next one starts; and there are at most 51.
pub proof fn lemma_packet_blocks_well_formed(d: Seq<u8>, start: int, end: int)
    requires
        0 <= start <= end <= d.len(),
    ensures
        walk_ok(walk_from(d, start, end, 0), start, end),
        walk_from(d, start, end, 0).len() <= 51,
{
    lemma_walk_ok(d, start, end, 0);
}

proof fn lemma_groups_aligned(d: Seq<u8>, o: int, n: nat, max: u32)
    ensures
        (groups_from(d, o, n, max).1 - o) % 4 == 0,
    decreases n,
{
    if n > 0 {
        match group_at(d, o, max) {
            None => {},
            Some((g, c)) => {
                lemma_groups_aligned(d, o + c, (n - 1) as nat, max);
                let r = groups_from(d, o + c, (n - 1) as nat, max).1;
                let k = le32(d, o + 4) as int;
                assert(c == 8 + 4 * k);
                assert((r - o) % 4 == 0) by (nonlinear_arith)
                    requires
                        (r - (o + c)) % 4 == 0,
                        c == 8 + 4 * k,
                ;
            },
        }
    }
}

proof fn lemma_scan_entries_aligned(d: Seq<u8>, o: int, end: int)
    ensures
        (scan_entries(d, o, end).1 - o) % 4 == 0,
    decreases end - o,
{
    if !(o + 24 > end || !looks_like_entry(d, o)) {
        lemma_scan_entries_aligned(d, o + 24, end);
    }
}

proof fn lemma_trailing_aligned(d: Seq<u8>, o: int, end: int, k: nat)
    ensures
        (trailing_end(d, o, end, k) - o) % 4 == 0,
    decreases 200 - k,
{
    if !(k >= 200 || starts_block(d, o, end)) {
        match group_at(d, o, 512) {
            None => {},
            Some((_, c)) => {
                lemma_trailing_aligned(d, o + c, end, k + 1);
                let r = trailing_end(d, o + c, end, k + 1);
                let n = le32(d, o + 4) as int;
                assert((r - o) % 4 == 0) by (nonlinear_arith)
                    requires
                        (r - (o + c)) % 4 == 0,
                        c == 8 + 4 * n,
                ;
            },
        }
    }
}

proof fn lemma_skip_zero_aligned(d: Seq<u8>, o: int, end: int)
    ensures
        (skip_zero_words(d, o, end) - o) % 4 == 0,
    decreases end - o,
{
    if !(o + 4 > end || le32(d, o) != 0) {
        lemma_skip_zero_aligned(d, o + 4, end);
    }
}

proof fn lemma_rescan_aligned(d: Seq<u8>, s: int, limit: int, end: int)
    ensures
        rescan_from(d, s, limit, end) matches Some(x) ==> (x - s) % 4 == 0,
    decreases limit - s,
{
    if !(s + 16 > limit) && !starts_block(d, s, end) {
        lemma_rescan_aligned(d, s + 4, limit, end);
    }
}

proof fn lemma_block_tail_aligned(d: Seq<u8>, o: int, end: int, c: int)
    requires
        0 <= c,
    ensures
        (block_tail(d, o, end, c).3 - o) % 4 == 0,
{
    let sh = words(d, o, records_fit(end, o, c + 4, 4));
    let o2 = o + 4 * sh.len();
    let t2c = if sh.len() >= c + 2 { sh[c] as int } else { 0 };
    let t2g = if sh.len() >= c + 2 { sh[c + 1] as int } else { 0 };
    let o3 = if 0 < t2c < 500 {
        o2 + 24 * entries_at(d, o2, end, t2c).len()
    } else {
        scan_entries(d, o2, end).1
    };
    if !(0 < t2c < 500) {
        lemma_scan_entries_aligned(d, o2, end);
    }
    lemma_groups_aligned(d, o3, t2g as nat, 512);
    let o4 = groups_from(d, o3, t2g as nat, 512).1;
    let bbc = if sh.len() >= c + 4 { sh[c + 3] as int } else { 0 };
    let o5 = if 0 < bbc < 500 {
        o4 + 24 * sixes_at(d, o4, end, bbc).len()
    } else {
        o4
    };
    lemma_trailing_aligned(d, o5, end, 0);
    let o6 = trailing_end(d, o5, end, 0);
    lemma_skip_zero_aligned(d, o6, end);
    let o7 = skip_zero_words(d, o6, end);
    let l1 = sh.len() as int;
    let l2 = entries_at(d, o2, end, t2c).len() as int;
    let l3 = sixes_at(d, o4, end, bbc).len() as int;
    assert((o3 - o) % 4 == 0) by (nonlinear_arith)
        requires
            o2 == o + 4 * l1,
            (0 < t2c < 500) ==> o3 == o2 + 24 * l2,
            !(0 < t2c < 500) ==> (o3 - o2) % 4 == 0,
    ;
    assert((o7 - o) % 4 == 0) by (nonlinear_arith)
        requires
            (o3 - o) % 4 == 0,
            (o4 - o3) % 4 == 0,
            (0 < bbc < 500) ==> o5 == o4 + 24 * l3,
            !(0 < bbc < 500) ==> o5 == o4,
            (o6 - o5) % 4 == 0,
            (o7 - o6) % 4 == 0,
    ;
}

proof fn lemma_block_step_aligned(d: Seq<u8>, off: int, end: int)
    requires
        0 <= off,
        off + 16 <= end <= d.len(),
    ensures
        block_step(d, off, end) matches BlockStepView::Skip(q) ==> (q - off) % 4 == 0,
        block_step(d, off, end) matches BlockStepView::Block(_, q) ==> (q - off) % 4 == 0,
{
    let a = le32(d, off);
    let b = le32(d, off + 4);
    let c = le32(d, off + 8);
    let dd = le32(d, off + 12);
    if !plausible(a, b, c, dd) {
        lemma_rescan_aligned(d, off + 4, if off + 256 < end { off + 256 } else { end }, end);
    } else if off + 40 <= end && !entry_clean(entry_at(d, off + 16)) {
    } else if off + 16 + 24 * a + 24 * dd > end {
    } else {
        let goff0 = off + 16 + 24 * a + 24 * dd;
        lemma_groups_aligned(d, goff0, b as nat, 255);
        let goff = groups_from(d, goff0, b as nat, 255).1;
        lemma_block_tail_aligned(d, goff, end, c as int);
        let q = block_tail(d, goff, end, c as int).3;
        let ai = a as int;
        let di = dd as int;
        assert((q - off) % 4 == 0) by (nonlinear_arith)
            requires
                goff0 == off + 16 + 24 * ai + 24 * di,
                (goff - goff0) % 4 == 0,
                (q - goff) % 4 == 0,
        ;
    }
}

proof fn lemma_walk_aligned(d: Seq<u8>, off: int, end: int, n: nat, start: int)
    requires
        0 <= off,
        end <= d.len(),
        (off - start) % 4 == 0,
    ensures
        forall|i: int|
            0 <= i < walk_from(d, off, end, n).len() ==> (#[trigger] walk_from(d, off, end, n)[i].offset
                - start) % 4 == 0,
    decreases d.len() - off,
{
    if off + 16 <= end {
        lemma_block_step_advances(d, off, end);
        lemma_block_step_aligned(d, off, end);
        lemma_block_step_ok(d, off, end);
        match block_step(d, off, end) {
            BlockStepView::Stop => {},
            BlockStepView::Skip(q) => {
                assert((q - start) % 4 == 0) by (nonlinear_arith)
                    requires
                        (q - off) % 4 == 0,
                        (off - start) % 4 == 0,
                ;
                lemma_walk_aligned(d, q, end, n, start);
                assert(walk_from(d, off, end, n) == walk_from(d, q, end, n));
            },
            BlockStepView::Block(b, q) => {
                if n + 1 <= 50 {
                    assert((q - start) % 4 == 0) by (nonlinear_arith)
                        requires
                            (q - off) % 4 == 0,
                            (off - start) % 4 == 0,
                    ;
                    lemma_walk_aligned(d, q, end, n + 1, start);
                    let rest = walk_from(d, q, end, n + 1);
                    let w = seq![b] + rest;
                    assert(w =~= walk_from(d, off, end, n));
                    assert forall|i: int| 0 <= i < w.len() implies (#[trigger] w[i].offset - start) % 4
                        == 0 by {
                        if i > 0 {
                            assert(w[i] == rest[i - 1]);
                        }
                    }
                } else {
                    assert(walk_from(d, off, end, n) =~= seq![b]);
                    assert(b.offset == off);
                }
            },
        }
    }
}

/// Every block the walk of `start..end` reads starts a multiple of 4
/// bytes after `start`.
pub proof fn lemma_packet_blocks_aligned(d: Seq<u8>, start: int, end: int)
    requires
        0 <= start <= end <= d.len(),
    ensures
        forall|i: int|
            0 <= i < walk_from(d, start, end, 0).len() ==> (#[trigger] walk_from(d, start, end, 0)[i].offset
                - start) % 4 == 0,
{
    lemma_walk_aligned(d, start, end, 0, start);
}

// ---------------------------------------------------------------------
// Reading
// ---------------------------------------------------------------------

fn read_entry(data: &[u8], o: usize) -> (e: PacketEntry)
    requires
        o + 24 <= data@.len(),
    ensures
        e == entry_at(data@, o as int),
{
    let len = data.len();
    PacketEntry {
        f0: le32_at(data, o),
        f1: le32_at(data, o + 4),
        f2: le32_at(data, o + 8),
        f3: le32_at(data, o + 12),
        f4: le32_at(data, o + 16),
        f5: le32_at(data, o + 20),
    }
}

fn read_entries(data: &[u8], o: usize, end: usize, n: u32) -> (r: (Vec<PacketEntry>, usize))
    requires
        end <= data@.len(),
        o <= data@.len(),
    ensures
        r.0@ == entries_at(data@, o as int, end as int, n as int),
        r.1 == o + 24 * r.0@.len(),
        r.1 <= data@.len(),
{
    let mut v: Vec<PacketEntry> = Vec::new();
    if o > end {
        assert(v@ =~= entries_at(data@, o as int, end as int, n as int));
        return (v, o);
    }
    let mut p = o;
    let mut k: u32 = 0;
    while k < n
        invariant_except_break
            k <= n,
            end <= data@.len(),
            o <= p <= end,
            p == o + 24 * k,
            v@.len() == k,
            forall|i: int| 0 <= i < v@.len() ==> v@[i] == entry_at(data@, o + 24 * i),
        ensures
            o <= p <= end,
            p == o + 24 * v@.len(),
            v@.len() == records_fit(end as int, o as int, n as int, 24),
            forall|i: int| 0 <= i < v@.len() ==> v@[i] == entry_at(data@, o + 24 * i),
        decreases n - k,
    {
        if end - p < 24 {
            assert((end - o) / 24 == k as int) by (nonlinear_arith)
                requires
                    p == o + 24 * k,
                    end - p < 24,
                    p <= end,
            ;
            break;
        }
        v.push(read_entry(data, p));
        p = p + 24;
        k = k + 1;
        proof {
            if k == n {
                assert((end - o) / 24 >= n as int) by (nonlinear_arith)
                    requires
                        p == o + 24 * n,
                        p <= end,
                ;
            }
        }
    }
    assert(v@ =~= entries_at(data@, o as int, end as int, n as int));
    (v, p)
}

fn read_sixes(data: &[u8], o: usize, end: usize, n: u32) -> (r: (Vec<[u32; 6]>, usize))
    requires
        end <= data@.len(),
        o <= data@.len(),
    ensures
        r.0@.map_values(|b: [u32; 6]| b@) == sixes_at(data@, o as int, end as int, n as int),
        r.1 == o + 24 * r.0@.len(),
        r.1 <= data@.len(),
{
    let mut v: Vec<[u32; 6]> = Vec::new();
    if o > end {
        assert(v@.map_values(|b: [u32; 6]| b@) =~= sixes_at(data@, o as int, end as int, n as int));
        return (v, o);
    }
    let mut p = o;
    let mut k: u32 = 0;
    while k < n
        invariant_except_break
            k <= n,
            end <= data@.len(),
            o <= p <= end,
            p == o + 24 * k,
            v@.len() == k,
            forall|i: int| 0 <= i < v@.len() ==> (#[trigger] v@[i])@ == words(data@, o + 24 * i, 6),
        ensures
            o <= p <= end,
            p == o + 24 * v@.len(),
            v@.len() == records_fit(end as int, o as int, n as int, 24),
            forall|i: int| 0 <= i < v@.len() ==> (#[trigger] v@[i])@ == words(data@, o + 24 * i, 6),
        decreases n - k,
    {
        if end - p < 24 {
            assert((end - o) / 24 == k as int) by (nonlinear_arith)
                requires
                    p == o + 24 * k,
                    end - p < 24,
                    p <= end,
            ;
            break;
        }
        let rec = [
            le32_at(data, p),
            le32_at(data, p + 4),
            le32_at(data, p + 8),
            le32_at(data, p + 12),
            le32_at(data, p + 16),
            le32_at(data, p + 20),
        ];
        assert(rec@ =~= words(data@, p as int, 6));
        v.push(rec);
        p = p + 24;
        k = k + 1;
        proof {
            if k == n {
                assert((end - o) / 24 >= n as int) by (nonlinear_arith)
                    requires
                        p == o + 24 * n,
                        p <= end,
                ;
            }
        }
    }
    assert(v@.map_values(|b: [u32; 6]| b@) =~= sixes_at(data@, o as int, end as int, n as int));
    (v, p)
}

fn read_group(data: &[u8], o: usize, max: u32) -> (r: Option<(BoneMapGroup, usize)>)
    requires
        o <= data@.len(),
    ensures
        match group_at(data@, o as int, max) {
            None => r is None,
            Some((g, c)) => r matches Some((x, c2)) && x.group_type == g.0 && x.bone_indices@ == g.1
                && c2 == c,
        },
        r matches Some((_, c)) ==> o + c <= data@.len(),
{
    let len = data.len();
    if data.len() - o < 8 {
        return None;
    }
    let t = le32_at(data, o);
    let n = le32_at(data, o + 4);
    if t > 16 || n == 0 || n > 64 || data.len() - o - 8 < 4 * n as usize {
        return None;
    }
    let mut v: Vec<u32> = Vec::new();
    let mut i: u32 = 0;
    while i < n
        invariant
            i <= n <= 64,
            0 < n,
            t <= 16,
            t == le32(data@, o as int),
            n == le32(data@, o + 4),
            o + 8 <= data@.len(),
            len == data@.len(),
            o + 8 + 4 * n <= data@.len(),
            v@ == words(data@, o + 8, i as int),
            forall|j: int| 0 <= j < i ==> #[trigger] le32(data@, o + 8 + 4 * j) <= max,
        decreases n - i,
    {
        assert(o + 8 + 4 * i < len);
        let x = le32_at(data, o + 8 + 4 * (i as usize));
        if x > max {
            assert(le32(data@, o + 8 + 4 * (i as int)) > max);
            assert(!(forall|j: int| 0 <= j < n ==> #[trigger] le32(data@, o + 8 + 4 * j) <= max));
            assert(group_at(data@, o as int, max) is None);
            return None;
        }
        v.push(x);
        i = i + 1;
        assert(v@ =~= words(data@, o + 8, i as int));
    }
    Some((BoneMapGroup { group_type: t, bone_indices: v }, 8 + 4 * n as usize))
}

fn read_groups(data: &[u8], o: usize, n: u32, max: u32) -> (r: (Vec<BoneMapGroup>, usize, bool))
    requires
        o <= data@.len(),
    ensures
        (group_views(r.0@), r.1 as int, r.2) == groups_from(data@, o as int, n as nat, max),
        r.1 <= data@.len(),
{
    let mut gs: Vec<BoneMapGroup> = Vec::new();
    let mut p = o;
    let mut k: u32 = 0;
    let len = data.len();
    while k < n
        invariant_except_break
            k <= n,
            len == data@.len(),
            p <= data@.len(),
            ({
                let total = groups_from(data@, o as int, n as nat, max);
                let rest = groups_from(data@, p as int, (n - k) as nat, max);
                &&& total.0 == group_views(gs@) + rest.0
                &&& total.1 == rest.1
                &&& total.2 == rest.2
            }),
        ensures
            p <= data@.len(),
            ({
                let total = groups_from(data@, o as int, n as nat, max);
                &&& total.0 == group_views(gs@)
                &&& total.1 == p
                &&& total.2 == (k == n)
            }),
        decreases n - k,
    {
        match read_group(data, p, max) {
            None => {
                assert(group_views(gs@) + Seq::<(u32, Seq<u32>)>::empty() =~= group_views(gs@));
                break;
            },
            Some((g, c)) => {
                let ghost before = group_views(gs@);
                let ghost gv = (g.group_type, g.bone_indices@);
                gs.push(g);
                p = p + c;
                k = k + 1;
                proof {
                    let rest = groups_from(data@, p as int, (n - k) as nat, max);
                    assert(group_views(gs@) =~= before.push(gv));
                    assert(before + (seq![gv] + rest.0) =~= group_views(gs@) + rest.0);
                }
            },
        }
    }
    proof {
        if k == n {
            assert(group_views(gs@) + Seq::<(u32, Seq<u32>)>::empty() =~= group_views(gs@));
        }
    }
    (gs, p, k == n)
}

fn scan_table2(data: &[u8], o: usize, end: usize) -> (r: (Vec<PacketEntry>, usize))
    requires
        end <= data@.len(),
        o <= data@.len(),
    ensures
        (r.0@, r.1 as int) == scan_entries(data@, o as int, end as int),
        r.1 <= data@.len(),
{
    let mut v: Vec<PacketEntry> = Vec::new();
    let mut p = o;
    loop
        invariant_except_break
            end <= data@.len(),
            p <= data@.len(),
            ({
                let total = scan_entries(data@, o as int, end as int);
                let rest = scan_entries(data@, p as int, end as int);
                total.0 == v@ + rest.0 && total.1 == rest.1
            }),
        ensures
            p <= data@.len(),
            scan_entries(data@, o as int, end as int) == (v@, p as int),
        decreases end - p,
    {
        if p > end || end - p < 24 {
            assert(v@ + Seq::<PacketEntry>::empty() =~= v@);
            break;
        }
        let e = read_entry(data, p);
        if !(e.f2 == 0 && e.f4 == 0 && e.f0 < 10000 && e.f1 < 10000) {
            assert(v@ + Seq::<PacketEntry>::empty() =~= v@);
            break;
        }
        let ghost before = v@;
        v.push(e);
        p = p + 24;
        proof {
            let rest = scan_entries(data@, p as int, end as int);
            assert(before + (seq![e] + rest.0) =~= v@ + rest.0);
        }
    }
    (v, p)
}

fn starts_block_at(data: &[u8], o: usize, end: usize) -> (r: bool)
    requires
        end <= data@.len(),
    ensures
        r == starts_block(data@, o as int, end as int),
{
    if o > end || end - o < 40 {
        return false;
    }
    let a = le32_at(data, o);
    let b = le32_at(data, o + 4);
    let c = le32_at(data, o + 8);
    let d = le32_at(data, o + 12);
    if !(0 < a && a < 200 && b < 100 && c < 100 && d < 200) {
        return false;
    }
    let e = read_entry(data, o + 16);
    e.f2 == 0 && e.f4 == 0
}

fn trailing_groups_end(data: &[u8], o: usize, end: usize) -> (r: usize)
    requires
        end <= data@.len(),
        o <= data@.len(),
    ensures
        r == trailing_end(data@, o as int, end as int, 0),
        r <= data@.len(),
{
    let mut p = o;
    let mut k: u32 = 0;
    let len = data.len();
    while k < 200
        invariant_except_break
            k <= 200,
            len == data@.len(),
            end <= data@.len(),
            p <= data@.len(),
            trailing_end(data@, p as int, end as int, k as nat) == trailing_end(data@, o as int, end as int, 0),
        ensures
            p <= data@.len(),
            p == trailing_end(data@, o as int, end as int, 0),
        decreases 200 - k,
    {
        if starts_block_at(data, p, end) {
            break;
        }
        match read_group(data, p, 512) {
            None => {
                break;
            },
            Some((_, c)) => {
                p = p + c;
                k = k + 1;
            },
        }
    }
    p
}

fn skip_zero(data: &[u8], o: usize, end: usize) -> (r: usize)
    requires
        end <= data@.len(),
        o <= data@.len(),
    ensures
        r == skip_zero_words(data@, o as int, end as int),
        r <= data@.len(),
{
    let mut p = o;
    while p <= end && end - p >= 4 && le32_at(data, p) == 0
        invariant
            end <= data@.len(),
            p <= data@.len(),
            skip_zero_words(data@, p as int, end as int) == skip_zero_words(data@, o as int, end as int),
        decreases end - p,
    {
        p = p + 4;
    }
    p
}

fn rescan(data: &[u8], off: usize, end: usize) -> (r: Option<usize>)
    requires
        end <= data@.len(),
        off + 16 <= end,
    ensures
        r == (match rescan_from(
            data@,
            off + 4,
            if off + 256 < end {
                off + 256
            } else {
                end as int
            },
            end as int,
        ) {
            Some(x) => Some(x as usize),
            None => None::<usize>,
        }),
{
    let limit = if end - off > 256 {
        off + 256
    } else {
        end
    };
    assert(limit as int == (if off + 256 < end {
        off + 256
    } else {
        end as int
    }));
    let mut s = off + 4;
    while s <= limit && limit - s >= 16
        invariant
            limit as int == (if off + 256 < end {
                off + 256
            } else {
                end as int
            }),
            end <= data@.len(),
            limit <= end,
            off + 4 <= s,
            rescan_from(data@, s as int, limit as int, end as int) == rescan_from(
                data@,
                off + 4,
                limit as int,
                end as int,
            ),
        decreases limit - s,
    {
        if starts_block_at(data, s, end) {
            assert(rescan_from(data@, s as int, limit as int, end as int) == Some(s as int));
            return Some(s);
        }
        s = s + 4;
    }
    assert(rescan_from(data@, s as int, limit as int, end as int) is None);
    None
}

fn read_tail(data: &[u8], o: usize, end: usize, c: u32) -> (r: (Vec<u32>, Vec<PacketEntry>, Vec<[u32; 6]>, usize))
    requires
        end <= data@.len(),
        o <= data@.len(),
        c < 100,
    ensures
        ({
            let t = block_tail(data@, o as int, end as int, c as int);
            &&& r.0@ == t.0
            &&& r.1@ == t.1
            &&& r.2@.map_values(|b: [u32; 6]| b@) == t.2
            &&& r.3 == t.3
        }),
        r.3 <= data@.len(),
{
    let len = data.len();
    let avail: usize = if o > end {
        0
    } else {
        (end - o) / 4
    };
    let shn: u32 = if avail < (c + 4) as usize {
        avail as u32
    } else {
        c + 4
    };
    assert(shn == records_fit(end as int, o as int, c + 4, 4));
    assert(o + 4 * shn <= data@.len()) by (nonlinear_arith)
        requires
            shn <= avail,
            avail == (if o > end { 0 } else { (end - o) / 4 }),
            end <= data@.len(),
            o <= data@.len(),
            o > end ==> shn == 0,
    ;
    let sh = read_words(data, o as u64, shn);
    let o2 = o + 4 * (shn as usize);
    let ci = c as usize;
    let t2c: u32 = if sh.len() >= ci + 2 {
        sh[ci]
    } else {
        0
    };
    let t2g: u32 = if sh.len() >= ci + 2 {
        sh[ci + 1]
    } else {
        0
    };
    let (table2, o3) = if 0 < t2c && t2c < 500 {
        read_entries(data, o2, end, t2c)
    } else {
        scan_table2(data, o2, end)
    };
    let (_, o4, _) = read_groups(data, o3, t2g, 512);
    let bbc: u32 = if sh.len() >= ci + 4 {
        sh[ci + 3]
    } else {
        0
    };
    let mut bone_bounds: Vec<[u32; 6]> = Vec::new();
    let mut o5 = o4;
    if 0 < bbc && bbc < 500 {
        let (b, q) = read_sixes(data, o4, end, bbc);
        bone_bounds = b;
        o5 = q;
    }
    let o6 = trailing_groups_end(data, o5, end);
    let o7 = skip_zero(data, o6, end);
    proof {
        if !(0 < bbc < 500) {
            assert(bone_bounds@.map_values(|b: [u32; 6]| b@) =~= Seq::<Seq<u32>>::empty());
        }
    }
    (sh, table2, bone_bounds, o7)
}

/// One step of the walk.
pub enum BlockStep {
    Stop,
    Skip(usize),
    Block(ParsedBlock, usize),
}

fn all_clean(t: &Vec<PacketEntry>) -> (r: bool)
    ensures
        r == (forall|i: int| 0 <= i < t@.len() ==> entry_clean(#[trigger] t@[i])),
{
    let mut i: usize = 0;
    while i < t.len()
        invariant
            i <= t@.len(),
            forall|j: int| 0 <= j < i ==> entry_clean(#[trigger] t@[j]),
        decreases t@.len() - i,
    {
        if !(t[i].f2 == 0 && t[i].f4 == 0) {
            assert(!entry_clean(t@[i as int]));
            return false;
        }
        i = i + 1;
    }
    true
}

#[verifier::rlimit(30)]
fn read_block_step(data: &[u8], off: usize, end: usize) -> (r: BlockStep)
    requires
        end <= data@.len(),
        off + 16 <= end,
    ensures
        match block_step(data@, off as int, end as int) {
            BlockStepView::Stop => r is Stop,
            BlockStepView::Skip(q) => r matches BlockStep::Skip(x) && x == q,
            BlockStepView::Block(b, q) => r matches BlockStep::Block(x, y) && x@ == b && y == q,
        },
{
    let a = le32_at(data, off);
    let b = le32_at(data, off + 4);
    let c = le32_at(data, off + 8);
    let d = le32_at(data, off + 12);
    if !(0 < a && a < 200 && b < 100 && c < 100 && d < 200) {
        proof {
            lemma_rescan_bounds(data@, off + 4, if off + 256 < end { off + 256 } else { end as int }, end as int);
        }
        return match rescan(data, off, end) {
            Some(s) => BlockStep::Skip(s),
            None => BlockStep::Stop,
        };
    }
    if end - off >= 40 {
        let e = read_entry(data, off + 16);
        if !(e.f2 == 0 && e.f4 == 0) {
            return BlockStep::Skip(off + 4);
        }
    }
    let room = end - off - 16;
    if room < 24 * (a as usize) || room - 24 * (a as usize) < 24 * (d as usize) {
        return BlockStep::Stop;
    }
    assert((end - (off + 16)) / 24 >= a as int) by (nonlinear_arith)
        requires
            room == end - off - 16,
            room >= 24 * a,
    ;
    assert((end - (off + 16 + 24 * a)) / 24 >= d as int) by (nonlinear_arith)
        requires
            room == end - off - 16,
            room - 24 * a >= 24 * d,
    ;
    let (table1, p1) = read_entries(data, off + 16, end, a);
    assert(table1@.len() == a);
    assert(p1 == off + 16 + 24 * a);
    assert(p1 <= end);
    let (bounds, p2) = read_sixes(data, p1, end, d);
    assert(bounds@.map_values(|x: [u32; 6]| x@).len() == bounds@.len());
    assert(bounds@.len() == d);
    assert(p2 == off + 16 + 24 * a + 24 * d);
    let (groups, goff, ok) = read_groups(data, p2, b, 255);
    let clean = all_clean(&table1);
    if !ok || !clean {
        return BlockStep::Skip(off + 4);
    }
    let (sh, table2, bone_bounds, block_end) = read_tail(data, goff, end, c);
    let blk = ParsedBlock {
        offset: off,
        header: [a, b, c, d],
        table1,
        bounds,
        bone_groups: groups,
        table2,
        sub_header: sh,
        bone_bounds,
        end_offset: block_end,
    };
    assert(blk@.header =~= seq![a, b, c, d]);
    BlockStep::Block(blk, block_end)
}

pub open spec fn block_views(bs: Seq<ParsedBlock>) -> Seq<BlockView> {
    bs.map_values(|b: ParsedBlock| b@)
}

/// Walks the packet region `start..end` block by block (at most 51
/// blocks).
pub fn parse_blocks(data: &[u8], start: usize, end: usize) -> (r: Vec<ParsedBlock>)
    requires
        start <= end <= data@.len(),
    ensures
        block_views(r@) == walk_from(data@, start as int, end as int, 0),
{
    let mut blocks: Vec<ParsedBlock> = Vec::new();
    let mut off = start;
    let mut n: usize = 0;
    loop
        invariant_except_break
            end <= data@.len(),
            off <= data@.len(),
            n == blocks@.len(),
            n <= 50,
            walk_from(data@, start as int, end as int, 0) == block_views(blocks@) + walk_from(
                data@,
                off as int,
                end as int,
                n as nat,
            ),
        ensures
            walk_from(data@, start as int, end as int, 0) == block_views(blocks@),
        decreases data@.len() - off,
    {
        if off > end || end - off < 16 {
            assert(block_views(blocks@) + Seq::<BlockView>::empty() =~= block_views(blocks@));
            break;
        }
        proof {
            lemma_block_step_advances(data@, off as int, end as int);
        }
        match read_block_step(data, off, end) {
            BlockStep::Stop => {
                assert(block_views(blocks@) + Seq::<BlockView>::empty() =~= block_views(blocks@));
                break;
            },
            BlockStep::Skip(q) => {
                off = q;
            },
            BlockStep::Block(b, q) => {
                let ghost before = block_views(blocks@);
                let ghost bv = b@;
                blocks.push(b);
                assert(block_views(blocks@) =~= before.push(bv));
                off = q;
                n = n + 1;
                if n > 50 {
                    assert(before + seq![bv] =~= block_views(blocks@));
                    break;
                }
                proof {
                    let rest = walk_from(data@, off as int, end as int, n as nat);
                    assert(before + (seq![bv] + rest) =~= block_views(blocks@) + rest);
                }
            },
        }
    }
    blocks
}

} // verus!
