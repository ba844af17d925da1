//! HD/BD audio banks ("DAVE" banks).
//!
//! The `.HD` header lists the subsongs stored in the matching `.BD` body:
//! a `VersSCEI` chunk at 0, a `HeadSCEI` chunk at 0x10 (sizes of both files
//! and the offset of the `VagiSCEI` chunk), then the `VagiSCEI` chunk with a
//! table of offsets to one info record per subsong.  The body is PSX ADPCM:
//! 16-byte blocks, each decoding to 28 samples.
//!
//! All multi-byte fields are little-endian.
use crate::wav::{encode_pcm16, wav_file_bytes, wav_layout, wav_request_ok, WavError};
use vstd::arithmetic::div_mod::{lemma_div_by_multiple, lemma_hoist_over_denominator};
use vstd::prelude::*;

verus! {

// ---------------------------------------------------------------------
// Data model
// ---------------------------------------------------------------------

/// One subsong of a bank: where its ADPCM stream lies in the `.BD` file and
/// how to play it.
#[derive(Debug, Clone, Copy, PartialEq, Eq, Structural)]
pub struct SubsongInfo {
    /// 1-based position in the bank.
    pub index: usize,
    pub stream_offset: u32,
    pub stream_size: u32,
    pub sample_rate: u16,
    pub channels: u16,
    pub loop_flag: bool,
    pub num_samples: u32,
    pub flags: u8,
}

/// The parsed `.HD` header.
#[derive(Debug)]
pub struct HdHeader {
    pub hd_size: u32,
    pub bd_size: u32,
    pub vagi_offset: u32,
    pub total_subsongs: i32,
    pub subsongs: Vec<SubsongInfo>,
}

/// Mathematical view of an [`HdHeader`].
pub ghost struct HdHeaderView {
    pub hd_size: u32,
    pub bd_size: u32,
    pub vagi_offset: u32,
    pub total_subsongs: i32,
    pub subsongs: Seq<SubsongInfo>,
}

impl View for HdHeader {
    type V = HdHeaderView;

    open spec fn view(&self) -> HdHeaderView {
        HdHeaderView {
            hd_size: self.hd_size,
            bd_size: self.bd_size,
            vagi_offset: self.vagi_offset,
            total_subsongs: self.total_subsongs,
            subsongs: self.subsongs@,
        }
    }
}

/// Width of a field whose read ran past the end of the file.
#[derive(Debug, Clone, Copy, PartialEq, Eq, Structural)]
pub enum ReadWidth {
    U8,
    U16,
    U32,
    I32,
}

/// Why an `.HD` file was rejected.
#[derive(Debug, Clone, Copy, PartialEq, Eq, Structural)]
pub enum HdError {
    /// Shorter than the 0x24 bytes of the fixed chunks.
    FileTooSmall,
    /// No `IECSsreV` at offset 0.
    MissingVersionMagic,
    /// No `IECSdaeH` at offset 0x10.
    MissingHeadMagic,
    /// The file ends inside the 16-byte `VagiSCEI` chunk header.
    TruncatedBeforeVagi,
    /// No `IECSigaV` at the offset the head chunk gives.
    MissingVagiMagic,
    /// A field at `offset` extends past the end of the file.
    UnexpectedEof { width: ReadWidth, offset: u64 },
    /// The subsong count is zero or negative.
    NoSubsongs,
    /// The stream of subsong `subsong` (1-based) would end before it starts.
    InvalidNextOffset { subsong: usize },
}

// ---------------------------------------------------------------------
// Little-endian fields
// ---------------------------------------------------------------------

/// Unsigned value of the four bytes at `off`.
pub open spec fn u32_le(s: Seq<u8>, off: int) -> int {
    s[off] as int + 256 * s[off + 1] as int + 65536 * s[off + 2] as int + 16777216 * s[off
        + 3] as int
}

/// Two's complement value of the four bytes at `off`.
pub open spec fn i32_le(s: Seq<u8>, off: int) -> int {
    let u = u32_le(s, off);
    if u >= 0x8000_0000 {
        u - 0x1_0000_0000
    } else {
        u
    }
}

/// Unsigned value of the two bytes at `off`.
pub open spec fn u16_le(s: Seq<u8>, off: int) -> int {
    s[off] as int + 256 * s[off + 1] as int
}

pub open spec fn eof(width: ReadWidth, off: int) -> HdError {
    HdError::UnexpectedEof { width, offset: off as u64 }
}

proof fn lemma_u32_le_bounds(s: Seq<u8>, off: int)
    requires
        0 <= off,
        off + 4 <= s.len(),
    ensures
        0 <= u32_le(s, off) <= u32::MAX,
{
}

fn read_u32le(data: &[u8], offset: u64) -> (r: Result<u32, HdError>)
    ensures
        r == (if offset + 4 <= data@.len() {
            Ok::<u32, HdError>(u32_le(data@, offset as int) as u32)
        } else {
            Err(eof(ReadWidth::U32, offset as int))
        }),
{
    let len = data.len() as u64;
    if offset > len || len - offset < 4 {
        return Err(HdError::UnexpectedEof { width: ReadWidth::U32, offset });
    }
    let i = offset as usize;
    let v: u32 = data[i] as u32 + 256 * data[i + 1] as u32 + 65536 * data[i + 2] as u32
        + 16777216 * data[i + 3] as u32;
    Ok(v)
}

fn read_s32le(data: &[u8], offset: u64) -> (r: Result<i32, HdError>)
    ensures
        r == (if offset + 4 <= data@.len() {
            Ok::<i32, HdError>(i32_le(data@, offset as int) as i32)
        } else {
            Err(eof(ReadWidth::I32, offset as int))
        }),
{
    let len = data.len() as u64;
    if offset > len || len - offset < 4 {
        return Err(HdError::UnexpectedEof { width: ReadWidth::I32, offset });
    }
    let i = offset as usize;
    let u: u32 = data[i] as u32 + 256 * data[i + 1] as u32 + 65536 * data[i + 2] as u32
        + 16777216 * data[i + 3] as u32;
    if u >= 0x8000_0000 {
        let low: i32 = (u - 0x8000_0000) as i32;
        Ok(low - 0x7fff_ffff - 1)
    } else {
        Ok(u as i32)
    }
}

fn read_u16le(data: &[u8], offset: u64) -> (r: Result<u16, HdError>)
    ensures
        r == (if offset + 2 <= data@.len() {
            Ok::<u16, HdError>(u16_le(data@, offset as int) as u16)
        } else {
            Err(eof(ReadWidth::U16, offset as int))
        }),
{
    let len = data.len() as u64;
    if offset > len || len - offset < 2 {
        return Err(HdError::UnexpectedEof { width: ReadWidth::U16, offset });
    }
    let i = offset as usize;
    let v: u16 = data[i] as u16 + 256 * data[i + 1] as u16;
    Ok(v)
}

fn read_u8(data: &[u8], offset: u64) -> (r: Result<u8, HdError>)
    ensures
        r == (if offset < data@.len() {
            Ok::<u8, HdError>(data@[offset as int])
        } else {
            Err(eof(ReadWidth::U8, offset as int))
        }),
{
    if offset >= data.len() as u64 {
        return Err(HdError::UnexpectedEof { width: ReadWidth::U8, offset });
    }
    Ok(data[offset as usize])
}

// ---------------------------------------------------------------------
// The header format
// ---------------------------------------------------------------------

/// `IECSsreV`: the byte-reversed `VersSCEI` tag.
pub open spec fn version_magic() -> Seq<u8> {
    seq![0x49u8, 0x45u8, 0x43u8, 0x53u8, 0x73u8, 0x72u8, 0x65u8, 0x56u8]
}

/// `IECSdaeH`: the byte-reversed `HeadSCEI` tag.
pub open spec fn head_magic() -> Seq<u8> {
    seq![0x49u8, 0x45u8, 0x43u8, 0x53u8, 0x64u8, 0x61u8, 0x65u8, 0x48u8]
}

/// `IECSigaV`: the byte-reversed `VagiSCEI` tag.
pub open spec fn vagi_magic() -> Seq<u8> {
    seq![0x49u8, 0x45u8, 0x43u8, 0x53u8, 0x69u8, 0x67u8, 0x61u8, 0x56u8]
}

pub open spec fn magic_at(s: Seq<u8>, off: int, magic: Seq<u8>) -> bool {
    s.subrange(off, off + 8) == magic
}

/// Offset of entry `k` (0-based) of the subsong table of the chunk at `v`.
pub open spec fn table_pos(v: int, k: int) -> int {
    v + 0x10 + 4 * k
}

/// The stored count, plus one when the word after the table is non-zero
/// (some banks count their last subsong only through that word).
pub open spec fn count_with_trailer(s: Seq<u8>, v: int, stored: int) -> int {
    let pos = table_pos(v, stored);
    if pos + 4 <= s.len() && u32_le(s, pos) != 0 {
        stored + 1
    } else {
        stored
    }
}

/// The count, less one when the last table entry points at a record whose
/// stream offset is the body size (an end marker, not a subsong).
pub open spec fn count_without_end_marker(s: Seq<u8>, v: int, bd: int, count: int) -> Result<
    int,
    HdError,
> {
    if count > 0 {
        let pos = table_pos(v, count - 1);
        if pos + 4 > s.len() {
            Err(eof(ReadWidth::U32, pos))
        } else {
            let last = u32_le(s, pos);
            let at = v + last;
            if last > 0 && at + 4 <= s.len() && u32_le(s, at) == bd {
                Ok(count - 1)
            } else {
                Ok(count)
            }
        }
    } else {
        Ok(count)
    }
}

/// Offset in the `.BD` body where subsong `k` (1-based, of `n`) ends: the
/// next subsong's stream offset, or the body size for the last one.
pub open spec fn stream_end(s: Seq<u8>, v: int, bd: int, n: int, k: int) -> Result<int, HdError> {
    if k == n {
        Ok(bd)
    } else {
        let pos = table_pos(v, k);
        if pos + 4 > s.len() {
            Err(eof(ReadWidth::U32, pos))
        } else {
            let info = v + u32_le(s, pos);
            if info + 4 > s.len() {
                Err(eof(ReadWidth::U32, info))
            } else {
                Ok(u32_le(s, info))
            }
        }
    }
}

/// PSX ADPCM packs 28 samples in each 16-byte block (mono).
pub open spec fn adpcm_samples_for(bytes: int) -> int {
    (bytes / 16) * 28
}

/// Info record of subsong `k` (1-based) of `n`: the table entry gives the
/// record's offset from the chunk; the record holds the stream offset
/// (u32), the sample rate (u16) and the flags byte (bit 0: loops).
#[verifier::opaque]
pub open spec fn subsong_entry(s: Seq<u8>, v: int, bd: int, n: int, k: int) -> Result<
    SubsongInfo,
    HdError,
> {
    let pos = table_pos(v, k - 1);
    if pos + 4 > s.len() {
        Err(eof(ReadWidth::U32, pos))
    } else {
        let info = v + u32_le(s, pos);
        if info + 4 > s.len() {
            Err(eof(ReadWidth::U32, info))
        } else if info + 6 > s.len() {
            Err(eof(ReadWidth::U16, info + 4))
        } else if info + 7 > s.len() {
            Err(eof(ReadWidth::U8, info + 6))
        } else {
            let start = u32_le(s, info);
            match stream_end(s, v, bd, n, k) {
                Err(e) => Err(e),
                Ok(end) => if end < start {
                    Err(HdError::InvalidNextOffset { subsong: k as usize })
                } else {
                    Ok(
                        SubsongInfo {
                            index: k as usize,
                            stream_offset: start as u32,
                            stream_size: (end - start) as u32,
                            sample_rate: u16_le(s, info + 4) as u16,
                            channels: 1,
                            loop_flag: s[info + 6] % 2 == 1,
                            num_samples: adpcm_samples_for(end - start) as u32,
                            flags: s[info + 6],
                        },
                    )
                },
            }
        }
    }
}

/// The sample count of subsong `k` does not fit in `u32`.
pub open spec fn entry_overflows(s: Seq<u8>, v: int, bd: int, n: int, k: int) -> bool {
    subsong_entry(s, v, bd, n, k) matches Ok(info) && adpcm_samples_for(info.stream_size as int)
        > u32::MAX
}

/// Subsongs `1..=k` of `n`, read in order; the first failure wins.
pub open spec fn subsongs_upto(s: Seq<u8>, v: int, bd: int, n: int, k: nat) -> Result<
    Seq<SubsongInfo>,
    HdError,
>
    decreases k,
{
    if k == 0 {
        Ok(Seq::empty())
    } else {
        match subsongs_upto(s, v, bd, n, (k - 1) as nat) {
            Err(e) => Err(e),
            Ok(done) => match subsong_entry(s, v, bd, n, k as int) {
                Err(e) => Err(e),
                Ok(info) => Ok(done.push(info)),
            },
        }
    }
}

/// Reading subsongs `1..=k` reaches one whose sample count overflows.
pub open spec fn overflow_upto(s: Seq<u8>, v: int, bd: int, n: int, k: nat) -> bool
    decreases k,
{
    k > 0 && (overflow_upto(s, v, bd, n, (k - 1) as nat) || (subsongs_upto(
        s,
        v,
        bd,
        n,
        (k - 1) as nat,
    ) is Ok && entry_overflows(s, v, bd, n, k as int)))
}

/// The fixed chunks: `(hd_size, bd_size, vagi_offset)` once the size, the
/// three magics and the `VagiSCEI` chunk header are found in place.
pub open spec fn spec_chunks(s: Seq<u8>) -> Result<(int, int, int), HdError> {
    if s.len() < 0x24 {
        Err(HdError::FileTooSmall)
    } else if !magic_at(s, 0, version_magic()) {
        Err(HdError::MissingVersionMagic)
    } else if !magic_at(s, 0x10, head_magic()) {
        Err(HdError::MissingHeadMagic)
    } else if s.len() < 0x34 {
        Err(eof(ReadWidth::U32, 0x30))
    } else {
        let v = u32_le(s, 0x30);
        if s.len() < v + 0x10 {
            Err(HdError::TruncatedBeforeVagi)
        } else if !magic_at(s, v, vagi_magic()) {
            Err(HdError::MissingVagiMagic)
        } else {
            Ok((u32_le(s, 0x1c), u32_le(s, 0x20), v))
        }
    }
}

/// The count stored in the `VagiSCEI` chunk at `v`.
pub open spec fn stored_count(s: Seq<u8>, v: int) -> int {
    i32_le(s, v + 0x0c)
}

/// The subsong count of the chunk at `v` (see [`parse_hd`]).
pub open spec fn spec_count(s: Seq<u8>, v: int, bd: int) -> Result<int, HdError> {
    count_without_end_marker(s, v, bd, count_with_trailer(s, v, stored_count(s, v)))
}

/// The count arithmetic stays in range: the stored count is not negative
/// and the trailer word does not raise `i32::MAX`.
pub open spec fn count_in_range(s: Seq<u8>, v: int) -> bool {
    let stored = stored_count(s, v);
    stored >= 0 && !(stored == i32::MAX && count_with_trailer(s, v, stored) != stored)
}

/// Files on which the count arithmetic of the format overflows: a negative
/// stored count, a stored count of `i32::MAX` that the trailer word would
/// raise, or a subsong with more than `u32::MAX` samples.
pub open spec fn hd_overflows(s: Seq<u8>) -> bool {
    spec_chunks(s) matches Ok((hd, bd, v)) && (!count_in_range(s, v) || (spec_count(s, v, bd) matches Ok(
        n,
    ) && n > 0 && overflow_upto(s, v, bd, n, n as nat)))
}

/// The header once the subsongs have been read (or have failed).
pub open spec fn header_from(
    hd_size: u32,
    bd_size: u32,
    vagi_offset: u32,
    total_subsongs: i32,
    subsongs: Result<Seq<SubsongInfo>, HdError>,
) -> Result<HdHeaderView, HdError> {
    match subsongs {
        Err(e) => Err(e),
        Ok(subsongs) => Ok(HdHeaderView { hd_size, bd_size, vagi_offset, total_subsongs, subsongs }),
    }
}

/// What parsing `.HD` bytes yields.
pub open spec fn spec_parse_hd(s: Seq<u8>) -> Result<HdHeaderView, HdError> {
    match spec_chunks(s) {
        Err(e) => Err(e),
        Ok((hd, bd, v)) => match spec_count(s, v, bd) {
            Err(e) => Err(e),
            Ok(n) => if n <= 0 {
                Err(HdError::NoSubsongs)
            } else {
                header_from(
                    hd as u32,
                    bd as u32,
                    v as u32,
                    n as i32,
                    subsongs_upto(s, v, bd, n, n as nat),
                )
            },
        },
    }
}

/// The parse result seen through views.
pub open spec fn hd_result_view(r: Result<HdHeader, HdError>) -> Result<HdHeaderView, HdError> {
    match r {
        Ok(h) => Ok(h@),
        Err(e) => Err(e),
    }
}

// ---------------------------------------------------------------------
// Facts about the header spec
// ---------------------------------------------------------------------

proof fn lemma_upto_len(s: Seq<u8>, v: int, bd: int, n: int, k: nat)
    ensures
        subsongs_upto(s, v, bd, n, k) matches Ok(done) ==> done.len() == k,
    decreases k,
{
    if k > 0 {
        lemma_upto_len(s, v, bd, n, (k - 1) as nat);
    }
}

/// Once reading the subsongs has failed, reading more keeps that failure.
proof fn lemma_upto_error_persists(s: Seq<u8>, v: int, bd: int, n: int, k: nat, m: nat)
    requires
        k <= m,
        subsongs_upto(s, v, bd, n, k) is Err,
    ensures
        subsongs_upto(s, v, bd, n, m) == subsongs_upto(s, v, bd, n, k),
    decreases m - k,
{
    if k < m {
        lemma_upto_error_persists(s, v, bd, n, k, (m - 1) as nat);
    }
}

proof fn lemma_overflow_monotone(s: Seq<u8>, v: int, bd: int, n: int, k: nat, m: nat)
    requires
        k <= m,
        overflow_upto(s, v, bd, n, k),
    ensures
        overflow_upto(s, v, bd, n, m),
    decreases m - k,
{
    if k < m {
        lemma_overflow_monotone(s, v, bd, n, k, (m - 1) as nat);
    }
}

/// Nothing overflows after reading has failed.
proof fn lemma_no_overflow_after_error(s: Seq<u8>, v: int, bd: int, n: int, k: nat, m: nat)
    requires
        1 <= k <= m,
        subsongs_upto(s, v, bd, n, (k - 1) as nat) is Ok,
        subsong_entry(s, v, bd, n, k as int) is Err,
    ensures
        overflow_upto(s, v, bd, n, m) == overflow_upto(s, v, bd, n, (k - 1) as nat),
    decreases m - k,
{
    if k < m {
        lemma_no_overflow_after_error(s, v, bd, n, k, (m - 1) as nat);
        lemma_upto_error_persists(s, v, bd, n, k, (m - 1) as nat);
    }
}

// ---------------------------------------------------------------------
// Parsing
// ---------------------------------------------------------------------

fn magic_matches(data: &[u8], off: u64, magic: &[u8; 8]) -> (b: bool)
    requires
        off + 8 <= data@.len(),
    ensures
        b == (data@.subrange(off as int, off + 8) == magic@),
{
    let len = data.len();
    assert(off < len);
    let start = off as usize;
    let mut i: usize = 0;
    while i < 8
        invariant
            start == off,
            len == data@.len(),
            start + 8 <= data@.len(),
            magic@.len() == 8,
            i <= 8,
            forall|j: int| 0 <= j < i ==> data@[start + j] == magic@[j],
        decreases 8 - i,
    {
        if data[start + i] != magic[i] {
            assert(data@.subrange(start as int, start + 8)[i as int] != magic@[i as int]);
            return false;
        }
        i = i + 1;
    }
    assert(data@.subrange(start as int, start + 8) =~= magic@);
    true
}

fn read_subsong(sf: &[u8], v: u64, bd: u32, n: u64, k: u64) -> (r: Result<SubsongInfo, HdError>)
    requires
        1 <= k <= n <= i32::MAX,
        v <= u32::MAX,
    ensures
        r == subsong_entry(sf@, v as int, bd as int, n as int, k as int),
{
    reveal(subsong_entry);
    let rel = read_u32le(sf, v + 0x10 + 4 * (k - 1))?;
    let info = v + rel as u64;
    let stream_offset = read_u32le(sf, info)?;
    let sample_rate = read_u16le(sf, info + 4)?;
    let flags = read_u8(sf, info + 6)?;
    let next_offset = if k == n {
        bd
    } else {
        let next_rel = read_u32le(sf, v + 0x10 + 4 * k)?;
        read_u32le(sf, v + next_rel as u64)?
    };
    if next_offset < stream_offset {
        return Err(HdError::InvalidNextOffset { subsong: k as usize });
    }
    let stream_size = next_offset - stream_offset;
    let num_samples = ((stream_size / 16) as u64 * 28) as u32;
    Ok(
        SubsongInfo {
            index: k as usize,
            stream_offset,
            stream_size,
            sample_rate,
            channels: 1,
            loop_flag: flags % 2 == 1,
            num_samples,
            flags,
        },
    )
}

/// Finds the fixed chunks: `(hd_size, bd_size, vagi_offset)`.
fn read_chunks(sf: &[u8]) -> (r: Result<(u32, u32, u64), HdError>)
    ensures
        match r {
            Ok((hd, bd, v)) => spec_chunks(sf@) == Ok::<(int, int, int), HdError>(
                (hd as int, bd as int, v as int),
            ) && v <= u32::MAX,
            Err(e) => spec_chunks(sf@) == Err::<(int, int, int), HdError>(e),
        },
{
    if sf.len() < 0x24 {
        return Err(HdError::FileTooSmall);
    }
    let version: [u8; 8] = [0x49, 0x45, 0x43, 0x53, 0x73, 0x72, 0x65, 0x56];
    assert(version@ =~= version_magic());
    if !magic_matches(sf, 0, &version) {
        return Err(HdError::MissingVersionMagic);
    }
    let head: [u8; 8] = [0x49, 0x45, 0x43, 0x53, 0x64, 0x61, 0x65, 0x48];
    assert(head@ =~= head_magic());
    if !magic_matches(sf, 0x10, &head) {
        return Err(HdError::MissingHeadMagic);
    }
    let hd_size = read_u32le(sf, 0x1c)?;
    let bd_size = read_u32le(sf, 0x20)?;
    let vagi_offset = read_u32le(sf, 0x30)? as u64;
    if (sf.len() as u64) < vagi_offset + 0x10 {
        return Err(HdError::TruncatedBeforeVagi);
    }
    let vagi: [u8; 8] = [0x49, 0x45, 0x43, 0x53, 0x69, 0x67, 0x61, 0x56];
    assert(vagi@ =~= vagi_magic());
    if !magic_matches(sf, vagi_offset, &vagi) {
        return Err(HdError::MissingVagiMagic);
    }
    Ok((hd_size, bd_size, vagi_offset))
}

/// The stored count of the chunk at `v`.
fn read_stored_count(sf: &[u8], v: u64) -> (c: i32)
    requires
        v <= u32::MAX,
        v + 0x10 <= sf@.len(),
    ensures
        c == stored_count(sf@, v as int),
{
    match read_s32le(sf, v + 0x0c) {
        Ok(c) => c,
        Err(_) => 0,
    }
}

/// The subsong count of the chunk at `v`: the stored count adjusted for
/// the trailer word and the end marker.
fn read_count(sf: &[u8], v: u64, bd: u32) -> (r: Result<i32, HdError>)
    requires
        v <= u32::MAX,
        v + 0x10 <= sf@.len(),
        count_in_range(sf@, v as int),
    ensures
        match r {
            Ok(n) => spec_count(sf@, v as int, bd as int) == Ok::<int, HdError>(n as int),
            Err(e) => spec_count(sf@, v as int, bd as int) == Err::<int, HdError>(e),
        },
{
    let stored = read_stored_count(sf, v);
    let len = sf.len() as u64;
    let mut total: i32 = stored;
    let trailer_pos = v + 0x10 + 4 * (stored as u64);
    if trailer_pos + 4 <= len {
        let trailer = read_u32le(sf, trailer_pos)?;
        if trailer != 0 {
            total = total + 1;
        }
    }
    assert(total == count_with_trailer(sf@, v as int, stored as int));
    if total > 0 {
        let last_offset = read_u32le(sf, v + 0x10 + 4 * ((total - 1) as u64))?;
        if last_offset > 0 {
            let at = v + last_offset as u64;
            if at + 4 <= len {
                if read_u32le(sf, at)? == bd {
                    total = total - 1;
                }
            }
        }
    }
    Ok(total)
}

/// Parses the `.HD` header of a bank and lists its subsongs.
///
/// The subsong count is the stored count, plus one when the word after
/// the offset table is non-zero, less one when the last entry is only an
/// end marker (its record's stream offset equals the `.BD` size).  Each
/// subsong's stream runs to the next one's start, the last one's to the
/// end of the body; streams are mono and hold 28 samples per 16 bytes.
pub fn parse_hd(sf: &[u8]) -> (r: Result<HdHeader, HdError>)
    requires
        !hd_overflows(sf@),
    ensures
        hd_result_view(r) == spec_parse_hd(sf@),
{
    let (hd_size, bd_size, vagi_offset) = read_chunks(sf)?;
    let ghost s = sf@;
    let ghost v = vagi_offset as int;
    let ghost bd = bd_size as int;
    let total = read_count(sf, vagi_offset, bd_size)?;
    if total <= 0 {
        return Err(HdError::NoSubsongs);
    }
    let n = total as u64;
    let mut subsongs: Vec<SubsongInfo> = Vec::new();
    let mut k: u64 = 1;
    while k <= n
        invariant
            s == sf@,
            v == vagi_offset,
            bd == bd_size,
            1 <= k <= n + 1,
            n <= i32::MAX,
            n == total,
            vagi_offset <= u32::MAX,
            subsongs_upto(s, v, bd, n as int, (k - 1) as nat) == Ok::<Seq<SubsongInfo>, HdError>(
                subsongs@,
            ),
            !overflow_upto(s, v, bd, n as int, n as nat),
            spec_parse_hd(s) == header_from(
                hd_size,
                bd_size,
                vagi_offset as u32,
                total,
                subsongs_upto(s, v, bd, n as int, n as nat),
            ),
        decreases n + 1 - k,
    {
        match read_subsong(sf, vagi_offset, bd_size, n, k) {
            Err(e) => {
                proof {
                    assert(subsongs_upto(s, v, bd, n as int, k as nat) == Err::<
                        Seq<SubsongInfo>,
                        HdError,
                    >(e));
                    lemma_upto_error_persists(s, v, bd, n as int, k as nat, n as nat);
                }
                return Err(e);
            },
            Ok(info) => {
                subsongs.push(info);
            },
        }
        k = k + 1;
    }
    Ok(
        HdHeader {
            hd_size,
            bd_size,
            vagi_offset: vagi_offset as u32,
            total_subsongs: total,
            subsongs,
        },
    )
}

/// Whether parsing `sf` would overflow the format's count arithmetic
/// (see [`hd_overflows`]); [`parse_hd`] is meant for the other files.
pub fn hd_count_overflows(sf: &[u8]) -> (b: bool)
    ensures
        b == hd_overflows(sf@),
{
    let (_, bd_size, vagi_offset) = match read_chunks(sf) {
        Ok(c) => c,
        Err(_) => {
            return false;
        },
    };
    let ghost s = sf@;
    let ghost v = vagi_offset as int;
    let ghost bd = bd_size as int;
    let stored = read_stored_count(sf, vagi_offset);
    if stored < 0 {
        return true;
    }
    if stored == i32::MAX {
        let trailer_pos = vagi_offset + 0x10 + 4 * (stored as u64);
        if trailer_pos + 4 <= sf.len() as u64 {
            match read_u32le(sf, trailer_pos) {
                Ok(trailer) => {
                    if trailer != 0 {
                        return true;
                    }
                },
                Err(_) => {},
            }
        }
    }
    assert(count_in_range(s, v));
    let total = match read_count(sf, vagi_offset, bd_size) {
        Ok(t) => t,
        Err(_) => {
            return false;
        },
    };
    if total <= 0 {
        return false;
    }
    let n = total as u64;
    let mut k: u64 = 1;
    while k <= n
        invariant
            s == sf@,
            v == vagi_offset,
            bd == bd_size,
            1 <= k <= n + 1,
            n <= i32::MAX,
            vagi_offset <= u32::MAX,
            subsongs_upto(s, v, bd, n as int, (k - 1) as nat) is Ok,
            !overflow_upto(s, v, bd, n as int, (k - 1) as nat),
            hd_overflows(s) == overflow_upto(s, v, bd, n as int, n as nat),
        decreases n + 1 - k,
    {
        match read_subsong(sf, vagi_offset, bd_size, n, k) {
            Err(e) => {
                proof {
                    lemma_no_overflow_after_error(s, v, bd, n as int, k as nat, n as nat);
                }
                return false;
            },
            Ok(info) => {
                if (info.stream_size / 16) as u64 * 28 > 0xffff_ffff {
                    proof {
                        assert(overflow_upto(s, v, bd, n as int, k as nat));
                        lemma_overflow_monotone(s, v, bd, n as int, k as nat, n as nat);
                    }
                    return true;
                }
            },
        }
        k = k + 1;
    }
    false
}
// ---------------------------------------------------------------------
// PSX ADPCM
// ---------------------------------------------------------------------

pub open spec fn pow2(n: nat) -> int
    decreases n,
{
    if n == 0 {
        1
    } else {
        2 * pow2((n - 1) as nat)
    }
}

/// A 4-bit two's complement nibble.
pub open spec fn nibble_value(n: int) -> int {
    if n >= 8 {
        n - 16
    } else {
        n
    }
}

/// A nibble is read as a signed 4-bit number: its value lies in -8..8
/// and agrees with the nibble modulo 16.
pub proof fn lemma_nibble_value_signed(n: int)
    requires
        0 <= n < 16,
    ensures
        -8 <= nibble_value(n) < 8,
        (nibble_value(n) - n) % 16 == 0,
{
}

/// The nibbles of a block's data byte `k` (byte `2 + k`) are nibble
/// `2k`, its low four bits, then nibble `2k + 1`, its high four bits.
pub proof fn lemma_block_nibble_order(block: Seq<u8>, k: int)
    requires
        0 <= k < 14,
        2 + k < block.len(),
    ensures
        block_nibble(block, 2 * k) + 16 * block_nibble(block, 2 * k + 1) == block[2 + k] as int,
        0 <= block_nibble(block, 2 * k) < 16,
        0 <= block_nibble(block, 2 * k + 1) < 16,
{
    assert((2 * k) / 2 == k && (2 * k) % 2 == 0 && (2 * k + 1) / 2 == k && (2 * k + 1) % 2 == 1)
        by (nonlinear_arith)
        requires
            0 <= k,
    ;
    let b = block[2 + k];
    assert((b % 16) as int + 16 * (b / 16) as int == b as int) by (nonlinear_arith);
}

/// The filter of a block: the high nibble of its header byte; the five
/// known filters are 0..=4, any other value decodes as filter 0.
pub open spec fn block_filter(header: u8) -> int {
    if header / 16 >= 5 {
        0
    } else {
        (header / 16) as int
    }
}

/// The shift of a block: the low nibble of its header byte.
pub open spec fn block_shift(header: u8) -> int {
    (header % 16) as int
}

/// The filter's prediction from the two previous samples, in 1/64 units:
/// coefficients (0, 0), (60, 0), (115, -52), (98, -55), (122, -60).
pub open spec fn prediction(filter: int, h1: int, h2: int) -> int {
    if filter == 1 {
        60 * h1
    } else if filter == 2 {
        115 * h1 - 52 * h2
    } else if filter == 3 {
        98 * h1 - 55 * h2
    } else if filter == 4 {
        122 * h1 - 60 * h2
    } else {
        0
    }
}

/// The PSX ADPCM filter coefficient pairs, in 1/64 units, on the previous
/// sample and the one before it.
pub open spec fn psx_coefficients() -> Seq<(int, int)> {
    seq![(0int, 0int), (60int, 0int), (115int, -52int), (98int, -55int), (122int, -60int)]
}

/// A filter's prediction is linear in the two previous samples with the
/// filter's PSX coefficient pair: it is zero from silence, one more
/// previous sample adds the first coefficient and one more older sample
/// adds the second (so filter 2 weights the older sample by -52/64).
pub proof fn lemma_prediction_coefficients(f: int, h1: int, h2: int)
    requires
        0 <= f < 5,
    ensures
        prediction(f, 0, 0) == 0,
        prediction(f, h1 + 1, h2) - prediction(f, h1, h2) == psx_coefficients()[f].0,
        prediction(f, h1, h2 + 1) - prediction(f, h1, h2) == psx_coefficients()[f].1,
{
}

pub open spec fn clamp_i16(x: int) -> int {
    if x < -32768 {
        -32768
    } else if x > 32767 {
        32767
    } else {
        x
    }
}

/// One decoded sample: the nibble scaled to 16 bits and shifted right
/// (rounding down), plus the rounded-down prediction, clamped to `i16`.
#[verifier::opaque]
pub open spec fn adpcm_sample(nibble: int, shift: int, filter: int, h1: int, h2: int) -> int {
    clamp_i16(
        (nibble_value(nibble) * 4096) / pow2(shift as nat) + (prediction(filter, h1, h2) + 32) / 64,
    )
}

/// Nibble `j` (0..28) of a block: bytes 2..16 hold two each, low nibble
/// first.
pub open spec fn block_nibble(block: Seq<u8>, j: int) -> int {
    let b = block[2 + j / 2];
    if j % 2 == 0 {
        (b % 16) as int
    } else {
        (b / 16) as int
    }
}

/// Decoding the first `j` nibbles of `block` from history `(h1, h2)`:
/// the samples and the new history.
pub open spec fn block_after(block: Seq<u8>, j: nat, h1: int, h2: int) -> (Seq<i16>, int, int)
    decreases j,
{
    if j == 0 {
        (Seq::empty(), h1, h2)
    } else {
        let (out, a, b) = block_after(block, (j - 1) as nat, h1, h2);
        let p = adpcm_sample(
            block_nibble(block, j - 1),
            block_shift(block[0]),
            block_filter(block[0]),
            a,
            b,
        );
        (out.push(p as i16), p, a)
    }
}

/// Block `k` of a stream.
pub open spec fn adpcm_block(data: Seq<u8>, k: int) -> Seq<u8> {
    data.subrange(16 * k, 16 * k + 16)
}

/// Decoding the first `k` whole blocks of `data`, history starting at 0.
pub open spec fn stream_after(data: Seq<u8>, k: nat) -> (Seq<i16>, int, int)
    decreases k,
{
    if k == 0 {
        (Seq::empty(), 0, 0)
    } else {
        let (out, a, b) = stream_after(data, (k - 1) as nat);
        let (more, a2, b2) = block_after(adpcm_block(data, k - 1), 28, a, b);
        (out + more, a2, b2)
    }
}

/// The samples of a PSX ADPCM stream: every whole 16-byte block decoded
/// in order (a trailing partial block is ignored), cut to `expected`.
pub open spec fn spec_decode_psx_adpcm(data: Seq<u8>, expected: u32) -> Seq<i16> {
    let all = stream_after(data, (data.len() / 16) as nat).0;
    if expected <= all.len() {
        all.take(expected as int)
    } else {
        all
    }
}

proof fn lemma_block_after_step(block: Seq<u8>, j: nat, h1: int, h2: int)
    ensures
        block_after(block, j + 1, h1, h2) == ({
            let (out, a, b) = block_after(block, j, h1, h2);
            let p = adpcm_sample(
                block_nibble(block, j as int),
                block_shift(block[0]),
                block_filter(block[0]),
                a,
                b,
            );
            (out.push(p as i16), p, a)
        }),
{
}

proof fn lemma_pow2_split(a: nat, b: nat)
    ensures
        pow2(a + b) == pow2(a) * pow2(b),
    decreases a,
{
    if a > 0 {
        lemma_pow2_split((a - 1) as nat, b);
        assert(pow2(a + b) == 2 * pow2((a - 1 + b) as nat));
        assert(2 * (pow2((a - 1) as nat) * pow2(b)) == (2 * pow2((a - 1) as nat)) * pow2(b))
            by (nonlinear_arith);
    }
}

proof fn lemma_pow2_15()
    ensures
        pow2(15) == 32768,
{
    reveal_with_fuel(pow2, 16);
}

proof fn lemma_pow2_monotone(a: nat, b: nat)
    requires
        a <= b,
    ensures
        pow2(a) <= pow2(b),
    decreases b,
{
    if a < b {
        lemma_pow2_monotone(a, (b - 1) as nat);
        lemma_pow2_pos((b - 1) as nat);
    }
}

proof fn lemma_pow2_pos(n: nat)
    ensures
        pow2(n) >= 1,
    decreases n,
{
    if n > 0 {
        lemma_pow2_pos((n - 1) as nat);
    }
}

/// `2^shift` for a block's shift.
fn shift_divisor(shift: u8) -> (d: u32)
    requires
        shift < 16,
    ensures
        d == pow2(shift as nat),
        1 <= d <= 32768,
{
    let mut d: u32 = 1;
    let mut i: u8 = 0;
    while i < shift
        invariant
            i <= shift < 16,
            d == pow2(i as nat),
        decreases shift - i,
    {
        proof {
            lemma_pow2_monotone((i + 1) as nat, 15);
            lemma_pow2_15();
        }
        d = d * 2;
        i = i + 1;
    }
    proof {
        lemma_pow2_pos(shift as nat);
        lemma_pow2_monotone(shift as nat, 15);
        lemma_pow2_15();
    }
    d
}

/// One decoded sample (see [`adpcm_sample`]).
fn decode_sample(nibble: u8, shift: u8, divisor: u32, filter: u8, h1: i32, h2: i32) -> (p: i32)
    requires
        nibble < 16,
        shift < 16,
        divisor == pow2(shift as nat),
        filter < 5,
        -32768 <= h1 <= 32767,
        -32768 <= h2 <= 32767,
    ensures
        p == adpcm_sample(nibble as int, shift as int, filter as int, h1 as int, h2 as int),
        -32768 <= p <= 32767,
{
    reveal(adpcm_sample);
    let nv: i32 = if nibble >= 8 {
        nibble as i32 - 16
    } else {
        nibble as i32
    };
    // Floor division of the scaled nibble by 2^shift, through an offset
    // that makes the dividend non-negative: 32768 is a multiple of 2^shift.
    let scaled: i32 = nv * 4096;
    let base: u32 = (scaled + 32768) as u32;
    proof {
        lemma_pow2_pos(shift as nat);
    }
    let sample: i32 = (base / divisor) as i32 - (32768 / divisor) as i32;
    proof {
        lemma_pow2_split(shift as nat, (15 - shift) as nat);
        lemma_pow2_15();
        lemma_pow2_pos((15 - shift) as nat);
        let j = pow2((15 - shift) as nat);
        lemma_div_by_multiple(j, divisor as int);
        assert(32768int / (divisor as int) == j);
        vstd::arithmetic::mul::lemma_mul_is_commutative(j, divisor as int);
        lemma_hoist_over_denominator(scaled as int, j, divisor as nat);
    }
    let pred: i32 = if filter == 1 {
        60 * h1
    } else if filter == 2 {
        115 * h1 - 52 * h2
    } else if filter == 3 {
        98 * h1 - 55 * h2
    } else if filter == 4 {
        122 * h1 - 60 * h2
    } else {
        0
    };
    // Floor division by 64 through the offset 2^23 (a multiple of 64).
    let shifted: i32 = (((pred + 32 + 8388608) as u32) / 64) as i32 - 131072;
    proof {
        lemma_hoist_over_denominator(pred + 32, 131072, 64);
    }
    let p: i32 = sample + shifted;
    if p < -32768 {
        -32768
    } else if p > 32767 {
        32767
    } else {
        p
    }
}

/// Decodes a mono PSX ADPCM stream into at most `expected_samples` 16-bit
/// samples.
///
/// Each 16-byte block starts with a header byte (shift in the low nibble,
/// filter in the high nibble) and a flags byte, then 14 bytes of 4-bit
/// samples, low nibble first.  The two most recent samples feed the
/// filter's prediction across block boundaries.
pub fn decode_psx_adpcm(data: &[u8], expected_samples: u32) -> (r: Result<Vec<i16>, HdError>)
    ensures
        r matches Ok(out) && out@ == spec_decode_psx_adpcm(data@, expected_samples),
{
    let mut out: Vec<i16> = Vec::new();
    let mut hist1: i32 = 0;
    let mut hist2: i32 = 0;
    let len = data.len();
    let nblocks = len / 16;
    let mut k: usize = 0;
    while k < nblocks
        invariant
            len == data@.len(),
            k <= nblocks,
            nblocks == data@.len() / 16,
            (out@, hist1 as int, hist2 as int) == stream_after(data@, k as nat),
            -32768 <= hist1 <= 32767,
            -32768 <= hist2 <= 32767,
        decreases nblocks - k,
    {
        assert(16 * k + 16 <= data@.len()) by (nonlinear_arith)
            requires
                k < nblocks,
                nblocks == data@.len() / 16,
        ;
        let base = 16 * k;
        let header = data[base];
        let shift = header % 16;
        let filter = if header / 16 >= 5 {
            0
        } else {
            header / 16
        };
        let divisor = shift_divisor(shift);
        let ghost block = adpcm_block(data@, k as int);
        let ghost out0 = out@;
        let ghost h1 = hist1 as int;
        let ghost h2 = hist2 as int;
        assert(block[0] == header);
        let mut j: usize = 0;
        while j < 28
            invariant
                k < nblocks,
                nblocks == data@.len() / 16,
                base == 16 * k,
                16 * k + 16 <= data@.len(),
                block == adpcm_block(data@, k as int),
                header == block[0],
                shift == block_shift(header),
                filter == block_filter(header),
                divisor == pow2(shift as nat),
                j <= 28,
                (out0, h1, h2) == stream_after(data@, k as nat),
                out@ == out0 + block_after(block, j as nat, h1, h2).0,
                hist1 == block_after(block, j as nat, h1, h2).1,
                hist2 == block_after(block, j as nat, h1, h2).2,
                -32768 <= hist1 <= 32767,
                -32768 <= hist2 <= 32767,
            decreases 28 - j,
        {
            let byte = data[base + 2 + j / 2];
            assert(block[2 + j / 2] == byte);
            let nibble = if j % 2 == 0 {
                byte % 16
            } else {
                byte / 16
            };
            let p = decode_sample(nibble, shift, divisor, filter, hist1, hist2);
            proof {
                lemma_block_after_step(block, j as nat, h1, h2);
            }
            hist2 = hist1;
            hist1 = p;
            out.push(p as i16);
            proof {
                assert(out@ =~= out0 + block_after(block, (j + 1) as nat, h1, h2).0);
            }
            j = j + 1;
        }
        proof {
            assert(out@ =~= stream_after(data@, (k + 1) as nat).0);
        }
        k = k + 1;
    }
    out.truncate(expected_samples as usize);
    Ok(out)
}

/// A WAVE file (16-bit integer PCM) holding interleaved `samples`.
///
/// Fails with `UnfinishedSample` exactly when the sample count is not a
/// multiple of `channels`.
pub fn create_wav_bytes(samples: &[i16], sample_rate: u16, channels: u16) -> (r: Result<
    Vec<u8>,
    WavError,
>)
    requires
        wav_request_ok(samples@.len() as int, sample_rate as u32, channels),
    ensures
        match r {
            Ok(bytes) => {
                &&& (samples@.len() as int) % (channels as int) == 0
                &&& bytes@ == wav_file_bytes(samples@, sample_rate as u32, channels)
                &&& wav_layout(samples@, channels, bytes@)
            },
            Err(e) => (samples@.len() as int) % (channels as int) != 0 && e
                == WavError::UnfinishedSample,
        },
{
    match encode_pcm16(samples, sample_rate as u32, channels) {
        Ok(bytes) => Ok(bytes),
        Err(_) => Err(WavError::UnfinishedSample),
    }
}

// ---------------------------------------------------------------------
// Laws
// ---------------------------------------------------------------------

proof fn lemma_block_after_len(block: Seq<u8>, j: nat, h1: int, h2: int)
    ensures
        block_after(block, j, h1, h2).0.len() == j,
    decreases j,
{
    if j > 0 {
        lemma_block_after_len(block, (j - 1) as nat, h1, h2);
    }
}

proof fn lemma_stream_after_len(data: Seq<u8>, k: nat)
    ensures
        stream_after(data, k).0.len() == 28 * k,
    decreases k,
{
    if k > 0 {
        lemma_stream_after_len(data, (k - 1) as nat);
        let (_, a, b) = stream_after(data, (k - 1) as nat);
        lemma_block_after_len(adpcm_block(data, k - 1), 28, a, b);
    }
}

/// A PSX ADPCM stream decodes to 28 samples per whole 16-byte block, cut
/// to the expected count.
pub proof fn lemma_decode_psx_adpcm_len(data: Seq<u8>, expected: u32)
    ensures
        spec_decode_psx_adpcm(data, expected).len() == if expected <= 28 * (data.len() / 16) {
            expected as int
        } else {
            28 * (data.len() / 16) as int
        },
{
    lemma_stream_after_len(data, (data.len() / 16) as nat);
}

/// Asking for fewer samples gives a prefix of what asking for more gives.
pub proof fn lemma_decode_psx_adpcm_prefix(data: Seq<u8>, fewer: u32, more: u32)
    requires
        fewer <= more,
    ensures
        spec_decode_psx_adpcm(data, fewer) == spec_decode_psx_adpcm(data, more).take(
            spec_decode_psx_adpcm(data, fewer).len() as int,
        ),
{
    lemma_decode_psx_adpcm_len(data, fewer);
    lemma_decode_psx_adpcm_len(data, more);
    let all = stream_after(data, (data.len() / 16) as nat).0;
    assert(spec_decode_psx_adpcm(data, fewer) =~= spec_decode_psx_adpcm(data, more).take(
        spec_decode_psx_adpcm(data, fewer).len() as int,
    ));
}

proof fn lemma_upto_entries(s: Seq<u8>, v: int, bd: int, n: int, k: nat)
    requires
        subsongs_upto(s, v, bd, n, k) is Ok,
    ensures
        forall|i: int|
            0 <= i < k ==> subsong_entry(s, v, bd, n, i + 1) == Ok::<SubsongInfo, HdError>(
                #[trigger] subsongs_upto(s, v, bd, n, k)->Ok_0[i],
            ),
    decreases k,
{
    if k > 0 {
        lemma_upto_entries(s, v, bd, n, (k - 1) as nat);
        lemma_upto_len(s, v, bd, n, (k - 1) as nat);
    }
}

/// The subsongs of a parsed header are numbered 1, 2, ... in order, there
/// are `total_subsongs` of them, and their streams tile the `.BD` body from
/// the first stream offset on: each stream ends where the next begins and
/// the last ends at `bd_size`.  Every stream is mono, its sample count is
/// 28 per whole 16 bytes, and it loops when bit 0 of its flags is set.
pub proof fn lemma_parse_hd_subsongs(s: Seq<u8>)
    requires
        !hd_overflows(s),
        spec_parse_hd(s) is Ok,
    ensures
        ({
            let h = spec_parse_hd(s)->Ok_0;
            &&& h.total_subsongs > 0
            &&& h.subsongs.len() == h.total_subsongs
            &&& forall|i: int|
                #![trigger h.subsongs[i]]
                0 <= i < h.subsongs.len() ==> {
                    &&& h.subsongs[i].index == i + 1
                    &&& h.subsongs[i].channels == 1
                    &&& h.subsongs[i].num_samples == adpcm_samples_for(
                        h.subsongs[i].stream_size as int,
                    )
                    &&& h.subsongs[i].loop_flag == (h.subsongs[i].flags % 2 == 1)
                    &&& if i + 1 < h.subsongs.len() {
                        h.subsongs[i].stream_offset + h.subsongs[i].stream_size
                            == h.subsongs[i + 1].stream_offset
                    } else {
                        h.subsongs[i].stream_offset + h.subsongs[i].stream_size == h.bd_size
                    }
                }
        }),
{
    reveal(subsong_entry);
    let (hd, bd, v) = spec_chunks(s)->Ok_0;
    let n = spec_count(s, v, bd)->Ok_0;
    let subs = subsongs_upto(s, v, bd, n, n as nat)->Ok_0;
    lemma_upto_len(s, v, bd, n, n as nat);
    lemma_upto_entries(s, v, bd, n, n as nat);
    assert forall|i: int| 0 <= i < subs.len() implies !entry_overflows(s, v, bd, n, i + 1)
        && #[trigger] subs[i] == subs[i] by {
        if entry_overflows(s, v, bd, n, i + 1) {
            lemma_upto_error_or_ok_prefix(s, v, bd, n, (i + 1) as nat, n as nat);
            assert(overflow_upto(s, v, bd, n, (i + 1) as nat));
            lemma_overflow_monotone(s, v, bd, n, (i + 1) as nat, n as nat);
        }
    }
    assert forall|i: int| 0 <= i < subs.len() && i + 1 < subs.len() implies #[trigger] subs[i].stream_offset
        + subs[i].stream_size == subs[i + 1].stream_offset by {
        assert(subsong_entry(s, v, bd, n, i + 1) == Ok::<SubsongInfo, HdError>(subs[i]));
        assert(subsong_entry(s, v, bd, n, i + 2) == Ok::<SubsongInfo, HdError>(subs[i + 1]));
    }
}

/// A prefix of a successful read succeeded too.
proof fn lemma_upto_error_or_ok_prefix(s: Seq<u8>, v: int, bd: int, n: int, k: nat, m: nat)
    requires
        k <= m,
        subsongs_upto(s, v, bd, n, m) is Ok,
    ensures
        subsongs_upto(s, v, bd, n, k) is Ok,
    decreases m - k,
{
    if k < m {
        lemma_upto_error_or_ok_prefix(s, v, bd, n, k + 1, m);
    }
}

} // verus!
