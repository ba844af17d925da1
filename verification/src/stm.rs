//! `.stm` streaming audio (`STMA` containers).
//!
//! A 0x800-byte header (little-endian `STMA` or big-endian `AMTS`) is
//! followed by the audio: 16-bit PCM, or 4-bit IMA ADPCM in blocks of 0x40
//! bytes (0x80 when the interleave field is 0xc000), one block per channel
//! per frame.
use crate::hd_bd::{clamp_i16, u32_le};
use crate::wav::{encode_pcm16, wav_file_bytes, wav_layout, wav_request_ok, WavError};
use vstd::prelude::*;

verus! {

/// Offset of the audio data.
pub const START_OFFSET: usize = 0x800;

/// IMA block size per channel.
pub const IMA_DEFAULT_BLOCK: usize = 0x40;

/// IMA block size per channel when the interleave field is 0xc000.
pub const IMA_ALT_BLOCK: usize = 0x80;

/// A decoded stream.
#[derive(Debug)]
pub struct StmDecoded {
    pub sample_rate: u32,
    pub channels: u16,
    /// Interleaved samples.
    pub samples: Vec<i16>,
    pub loop_start: Option<u32>,
    pub loop_end: Option<u32>,
}

/// Mathematical view of a [`StmDecoded`].
pub ghost struct StmDecodedView {
    pub sample_rate: u32,
    pub channels: u16,
    pub samples: Seq<i16>,
    pub loop_start: Option<u32>,
    pub loop_end: Option<u32>,
}

impl View for StmDecoded {
    type V = StmDecodedView;

    open spec fn view(&self) -> StmDecodedView {
        StmDecodedView {
            sample_rate: self.sample_rate,
            channels: self.channels,
            samples: self.samples@,
            loop_start: self.loop_start,
            loop_end: self.loop_end,
        }
    }
}

/// Why a `.stm` file could not be decoded.
#[derive(Debug, Clone, Copy, PartialEq, Eq, Structural)]
pub enum StmError {
    /// Shorter than the 0x800-byte header.
    TooSmall,
    /// Neither `STMA` nor `AMTS` at offset 0.
    NotStm,
    /// The header's data size reaches past the end of the file.
    AudioPastEnd,
    /// PCM data of odd length.
    PcmNotAligned,
    /// The PCM sample count is not a multiple of the channel count.
    PcmChannelMismatch,
    /// IMA blocks must hold at least their 4-byte header.
    ImaBlockTooSmall,
    /// The IMA data is not a whole number of frames.
    ImaMisaligned,
    /// Big-endian 4-bit streams are GameCube DSP, which is not decoded.
    GcDspUnsupported,
    /// Any other sample width.
    UnsupportedEncoding { bps: u32, big_endian: bool },
}

// ---------------------------------------------------------------------
// Header fields
// ---------------------------------------------------------------------

pub open spec fn u32_be(s: Seq<u8>, off: int) -> int {
    16777216 * s[off] as int + 65536 * s[off + 1] as int + 256 * s[off + 2] as int + s[off
        + 3] as int
}

/// A header word in the file's byte order.
pub open spec fn stm_u32(s: Seq<u8>, big_endian: bool, off: int) -> int {
    if big_endian {
        u32_be(s, off)
    } else {
        u32_le(s, off)
    }
}

/// `STMA`.
pub open spec fn stma_magic() -> Seq<u8> {
    seq![0x53u8, 0x54u8, 0x4du8, 0x41u8]
}

/// `AMTS`, the big-endian form.
pub open spec fn amts_magic() -> Seq<u8> {
    seq![0x41u8, 0x4du8, 0x54u8, 0x53u8]
}

/// Channel count: the low 16 bits of the word at 0x14.
pub open spec fn stm_channels(s: Seq<u8>, be: bool) -> u16 {
    (stm_u32(s, be, 0x14) % 65536) as u16
}

fn read_u32(data: &[u8], big_endian: bool, offset: usize) -> (v: u32)
    requires
        offset + 4 <= data@.len(),
    ensures
        v == stm_u32(data@, big_endian, offset as int),
{
    if big_endian {
        16777216 * data[offset] as u32 + 65536 * data[offset + 1] as u32 + 256 * data[offset
            + 2] as u32 + data[offset + 3] as u32
    } else {
        data[offset] as u32 + 256 * data[offset + 1] as u32 + 65536 * data[offset + 2] as u32
            + 16777216 * data[offset + 3] as u32
    }
}

// ---------------------------------------------------------------------
// PCM
// ---------------------------------------------------------------------

/// The `i16` stored in bytes `lo`, `hi` (two's complement).
pub open spec fn i16_of(lo: u8, hi: u8) -> i16 {
    let u = lo as int + 256 * hi as int;
    (if u >= 32768 {
        u - 65536
    } else {
        u
    }) as i16
}

/// Sample `i` of 16-bit PCM data.
pub open spec fn pcm_sample(data: Seq<u8>, big_endian: bool, i: int) -> i16 {
    if big_endian {
        i16_of(data[2 * i + 1], data[2 * i])
    } else {
        i16_of(data[2 * i], data[2 * i + 1])
    }
}

pub open spec fn spec_decode_pcm(data: Seq<u8>, channels: int, big_endian: bool) -> Result<
    Seq<i16>,
    StmError,
> {
    if data.len() % 2 != 0 {
        Err(StmError::PcmNotAligned)
    } else if (data.len() / 2) as int % channels != 0 {
        Err(StmError::PcmChannelMismatch)
    } else {
        Ok(Seq::new(data.len() / 2, |i: int| pcm_sample(data, big_endian, i)))
    }
}

fn i16_from_bytes(lo: u8, hi: u8) -> (v: i16)
    ensures
        v == i16_of(lo, hi),
{
    let u: u32 = lo as u32 + 256 * hi as u32;
    if u >= 32768 {
        (u as i32 - 65536) as i16
    } else {
        u as i16
    }
}

fn decode_pcm(data: &[u8], channels: usize, big_endian: bool) -> (r: Result<Vec<i16>, StmError>)
    requires
        data@.len() % 2 == 0 ==> channels > 0,
    ensures
        match r {
            Ok(v) => spec_decode_pcm(data@, channels as int, big_endian) == Ok::<
                Seq<i16>,
                StmError,
            >(v@),
            Err(e) => spec_decode_pcm(data@, channels as int, big_endian) == Err::<
                Seq<i16>,
                StmError,
            >(e),
        },
{
    if data.len() % 2 != 0 {
        return Err(StmError::PcmNotAligned);
    }
    let mut samples: Vec<i16> = Vec::new();
    let len = data.len();
    let n = len / 2;
    let mut i: usize = 0;
    while i < n
        invariant
            len == data@.len(),
            n == data@.len() / 2,
            data@.len() % 2 == 0,
            i <= n,
            samples@ =~= Seq::new(i as nat, |k: int| pcm_sample(data@, big_endian, k)),
        decreases n - i,
    {
        let sample = if big_endian {
            i16_from_bytes(data[2 * i + 1], data[2 * i])
        } else {
            i16_from_bytes(data[2 * i], data[2 * i + 1])
        };
        samples.push(sample);
        i = i + 1;
    }
    if samples.len() % channels != 0 {
        return Err(StmError::PcmChannelMismatch);
    }
    Ok(samples)
}

/// Loop sample of a PCM stream: the bytes from the data start to the loop
/// offset, counted in frames of `bps * channels` bits (0 before the start
/// or for a zero width).
pub open spec fn spec_pcm_loop_sample(loop_end_offset: int, channels: int, start_offset: int, bps: int) -> u32 {
    if loop_end_offset <= start_offset || bps == 0 {
        0
    } else {
        ((loop_end_offset - start_offset) * 8 / (bps * channels)) as u32
    }
}

fn pcm_loop_sample(loop_end_offset: u64, channels: u16, start_offset: u64, bps: u64) -> (r: u32)
    requires
        loop_end_offset <= u32::MAX,
        bps <= u32::MAX,
        loop_end_offset > start_offset && bps != 0 ==> channels > 0,
    ensures
        r == spec_pcm_loop_sample(loop_end_offset as int, channels as int, start_offset as int, bps as int),
{
    if loop_end_offset <= start_offset || bps == 0 {
        return 0;
    }
    assert((bps as int) * (channels as int) <= 0xffff_ffff * 0xffff) by (nonlinear_arith)
        requires
            bps <= u32::MAX,
            channels <= 0xffff,
    ;
    assert((bps as int) * (channels as int) > 0) by (nonlinear_arith)
        requires
            bps > 0,
            channels > 0,
    ;
    ((loop_end_offset - start_offset) * 8 / (bps * channels as u64)) as u32
}

// ---------------------------------------------------------------------
// IMA ADPCM
// ---------------------------------------------------------------------

/// The IMA ADPCM step sizes.
pub open spec fn ima_step_table() -> Seq<i32> {
    seq![
        7i32, 8, 9, 10, 11, 12, 13, 14, 16, 17, 19, 21, 23, 25, 28, 31, 34, 37, 41, 45, 50, 55, 60,
        66, 73, 80, 88, 97, 107, 118, 130, 143, 157, 173, 190, 209, 230, 253, 279, 307, 337, 371,
        408, 449, 494, 544, 598, 658, 724, 796, 876, 963, 1060, 1166, 1282, 1411, 1552, 1707, 1878,
        2066, 2272, 2499, 2749, 3024, 3327, 3660, 4026, 4428, 4871, 5358, 5894, 6484, 7132, 7845,
        8630, 9493, 10442, 11487, 12635, 13899, 15289, 16818, 18500, 20350, 22385, 24623, 27086,
        29794, 32767,
    ]
}

/// How each nibble moves the step index.
pub open spec fn ima_index_table() -> Seq<i32> {
    seq![-1i32, -1i32, -1i32, -1i32, 2i32, 4i32, 6i32, 8i32, -1i32, -1i32, -1i32, -1i32, 2i32, 4i32, 6i32, 8i32]
}

/// The magnitude a nibble adds: step/8, plus step/4, step/2 and step for
/// its bits 0, 1 and 2 (each division rounding down).
pub open spec fn ima_diff(nibble: int, step: int) -> int {
    step / 8 + (if nibble % 2 == 1 {
        step / 4
    } else {
        0
    }) + (if (nibble / 2) % 2 == 1 {
        step / 2
    } else {
        0
    }) + (if (nibble / 4) % 2 == 1 {
        step
    } else {
        0
    })
}

pub open spec fn clamp_index(i: int) -> int {
    if i < 0 {
        0
    } else if i > 88 {
        88
    } else {
        i
    }
}

/// The predictor and step index after one nibble (bit 3 is the sign).
pub open spec fn ima_next(nibble: int, predictor: int, index: int) -> (int, int) {
    let d = ima_diff(nibble, ima_step_table()[index] as int);
    (
        clamp_i16(
            if nibble >= 8 {
                predictor - d
            } else {
                predictor + d
            },
        ),
        clamp_index(index + ima_index_table()[nibble] as int),
    )
}

/// Bit 3 of an IMA nibble is its sign.  A nibble `n` below 8 never lowers
/// the predictor and `n + 8` never raises it; where neither result meets
/// an `i16` limit they move it by the same amount in opposite
/// directions; and both move the step index alike.
pub proof fn lemma_ima_sign_bit(n: int, p: int, idx: int)
    requires
        0 <= n < 8,
        -32768 <= p <= 32767,
        0 <= idx <= 88,
    ensures
        ima_next(n, p, idx).0 >= p,
        ima_next(n + 8, p, idx).0 <= p,
        ima_next(n, p, idx).1 == ima_next(n + 8, p, idx).1,
        (-32768 < ima_next(n, p, idx).0 < 32767 && -32768 < ima_next(n + 8, p, idx).0 < 32767) ==> ima_next(
            n,
            p,
            idx,
        ).0 - p == p - ima_next(n + 8, p, idx).0,
{
    assert(forall|i: int| 0 <= i < 89 ==> 7 <= #[trigger] ima_step_table()[i] <= 32767);
    let step = ima_step_table()[idx] as int;
    assert(step >= 7);
    assert(step / 8 >= 0 && step / 4 >= 0 && step / 2 >= 0) by (nonlinear_arith)
        requires
            step >= 7,
    ;
    if n == 0 {
        assert(ima_diff(8, step) == ima_diff(0, step));
    } else if n == 1 {
        assert(ima_diff(9, step) == ima_diff(1, step));
    } else if n == 2 {
        assert(ima_diff(10, step) == ima_diff(2, step));
    } else if n == 3 {
        assert(ima_diff(11, step) == ima_diff(3, step));
    } else if n == 4 {
        assert(ima_diff(12, step) == ima_diff(4, step));
    } else if n == 5 {
        assert(ima_diff(13, step) == ima_diff(5, step));
    } else if n == 6 {
        assert(ima_diff(14, step) == ima_diff(6, step));
    } else {
        assert(ima_diff(15, step) == ima_diff(7, step));
    }
    assert(ima_diff(n, step) >= 0);
    assert(ima_index_table()[n] == ima_index_table()[n + 8]);
}

/// Nibble `j` of an IMA block's body (bytes 4..), low nibble first.
pub open spec fn ima_nibble(block: Seq<u8>, j: int) -> int {
    let b = block[4 + j / 2];
    if j % 2 == 0 {
        (b % 16) as int
    } else {
        (b / 16) as int
    }
}

/// The nibbles of an IMA block's body byte `k` (byte `4 + k`) are
/// nibble `2k`, its low four bits, then nibble `2k + 1`, its high four
/// bits.
pub proof fn lemma_ima_nibble_order(block: Seq<u8>, k: int)
    requires
        0 <= k,
        4 + k < block.len(),
    ensures
        ima_nibble(block, 2 * k) + 16 * ima_nibble(block, 2 * k + 1) == block[4 + k] as int,
        0 <= ima_nibble(block, 2 * k) < 16,
        0 <= ima_nibble(block, 2 * k + 1) < 16,
{
    assert((2 * k) / 2 == k && (2 * k) % 2 == 0 && (2 * k + 1) / 2 == k && (2 * k + 1) % 2 == 1)
        by (nonlinear_arith)
        requires
            0 <= k,
    ;
    let b = block[4 + k];
    assert((b % 16) as int + 16 * (b / 16) as int == b as int) by (nonlinear_arith);
}

/// The block's initial predictor (bytes 0-1) and step index (byte 2,
/// capped at 88).
pub open spec fn ima_initial(block: Seq<u8>) -> (int, int) {
    (i16_of(block[0], block[1]) as int, if block[2] > 88 {
        88
    } else {
        block[2] as int
    })
}

/// Samples of an IMA block after its first `j` body nibbles: the initial
/// predictor, then one sample per nibble; with the decoder state.
pub open spec fn ima_block_after(block: Seq<u8>, j: nat) -> (Seq<i16>, int, int)
    decreases j,
{
    if j == 0 {
        let (p, i) = ima_initial(block);
        (seq![p as i16], p, i)
    } else {
        let (out, p, i) = ima_block_after(block, (j - 1) as nat);
        let (p2, i2) = ima_next(ima_nibble(block, j - 1), p, i);
        (out.push(p2 as i16), p2, i2)
    }
}

/// The samples of one IMA block: `2 * (len - 4) + 1` of them.
pub open spec fn ima_block_samples(block: Seq<u8>) -> Seq<i16> {
    ima_block_after(block, (2 * (block.len() - 4)) as nat).0
}

/// The block of channel `c` in frame `f`.
pub open spec fn ima_frame_block(data: Seq<u8>, channels: int, block_size: int, f: int, c: int) -> Seq<u8> {
    data.subrange(f * channels * block_size + c * block_size, f * channels * block_size + (c + 1) * block_size)
}

/// Channel `c` decoded over the first `frames` frames.
pub open spec fn ima_channel(data: Seq<u8>, channels: int, block_size: int, c: int, frames: nat) -> Seq<i16>
    decreases frames,
{
    if frames == 0 {
        Seq::empty()
    } else {
        ima_channel(data, channels, block_size, c, (frames - 1) as nat) + ima_block_after(
            ima_frame_block(data, channels, block_size, frames - 1, c),
            (2 * (block_size - 4)) as nat,
        ).0
    }
}

/// Samples per channel per frame.
pub open spec fn ima_block_len(block_size: int) -> int {
    2 * (block_size - 4) + 1
}

pub open spec fn spec_decode_ima(data: Seq<u8>, channels: int, block_size: int) -> Result<
    Seq<i16>,
    StmError,
> {
    if block_size < 4 {
        Err(StmError::ImaBlockTooSmall)
    } else if (data.len() as int) % (block_size * channels) != 0 {
        Err(StmError::ImaMisaligned)
    } else {
        let frames = ((data.len() as int) / (block_size * channels)) as nat;
        Ok(
            Seq::new(
                (frames * ima_block_len(block_size) * channels) as nat,
                |i: int| ima_channel(data, channels, block_size, i % channels, frames)[i / channels],
            ),
        )
    }
}

fn ima_step(index: i32) -> (step: i32)
    requires
        0 <= index <= 88,
    ensures
        step == ima_step_table()[index as int],
        7 <= step <= 32767,
{
    let table: [i32; 89] = [
        7, 8, 9, 10, 11, 12, 13, 14, 16, 17, 19, 21, 23, 25, 28, 31, 34, 37, 41, 45, 50, 55, 60,
        66, 73, 80, 88, 97, 107, 118, 130, 143, 157, 173, 190, 209, 230, 253, 279, 307, 337, 371,
        408, 449, 494, 544, 598, 658, 724, 796, 876, 963, 1060, 1166, 1282, 1411, 1552, 1707, 1878,
        2066, 2272, 2499, 2749, 3024, 3327, 3660, 4026, 4428, 4871, 5358, 5894, 6484, 7132, 7845,
        8630, 9493, 10442, 11487, 12635, 13899, 15289, 16818, 18500, 20350, 22385, 24623, 27086,
        29794, 32767,
    ];
    assert(table@ =~= ima_step_table());
    assert(forall|i: int| 0 <= i < 89 ==> 7 <= #[trigger] ima_step_table()[i] <= 32767);
    table[index as usize]
}

fn ima_index_delta(nibble: u8) -> (d: i32)
    requires
        nibble < 16,
    ensures
        d == ima_index_table()[nibble as int],
{
    let table: [i32; 16] = [-1, -1, -1, -1, 2, 4, 6, 8, -1, -1, -1, -1, 2, 4, 6, 8];
    assert(table@ =~= ima_index_table());
    table[nibble as usize]
}

#[derive(Clone, Copy)]
struct ImaState {
    predictor: i32,
    step_index: i32,
}

/// Decodes one nibble, advancing `state` (see [`ima_next`]).
fn decode_ima_nibble(nibble: u8, state: &mut ImaState) -> (sample: i16)
    requires
        nibble < 16,
        -32768 <= old(state).predictor <= 32767,
        0 <= old(state).step_index <= 88,
    ensures
        (final(state).predictor as int, final(state).step_index as int) == ima_next(
            nibble as int,
            old(state).predictor as int,
            old(state).step_index as int,
        ),
        -32768 <= final(state).predictor <= 32767,
        0 <= final(state).step_index <= 88,
        sample == final(state).predictor,
{
    let step = ima_step(state.step_index);
    let mut diff = step / 8;
    if nibble % 2 == 1 {
        diff += step / 4;
    }
    if (nibble / 2) % 2 == 1 {
        diff += step / 2;
    }
    if (nibble / 4) % 2 == 1 {
        diff += step;
    }
    if nibble >= 8 {
        state.predictor = state.predictor - diff;
    } else {
        state.predictor = state.predictor + diff;
    }
    if state.predictor < -32768 {
        state.predictor = -32768;
    } else if state.predictor > 32767 {
        state.predictor = 32767;
    }
    state.step_index = state.step_index + ima_index_delta(nibble);
    if state.step_index < 0 {
        state.step_index = 0;
    } else if state.step_index > 88 {
        state.step_index = 88;
    }
    state.predictor as i16
}

fn decode_ima_block(block: &[u8]) -> (r: Result<Vec<i16>, StmError>)
    ensures
        block@.len() < 4 ==> r == Err::<Vec<i16>, StmError>(StmError::ImaBlockTooSmall),
        block@.len() >= 4 ==> (r matches Ok(v) && v@ == ima_block_samples(block@)),
{
    if block.len() < 4 {
        return Err(StmError::ImaBlockTooSmall);
    }
    let mut state = ImaState {
        predictor: i16_from_bytes(block[0], block[1]) as i32,
        step_index: if block[2] > 88 {
            88
        } else {
            block[2] as i32
        },
    };
    let mut samples: Vec<i16> = Vec::new();
    samples.push(state.predictor as i16);
    let len = block.len();
    let body = len - 4;
    let mut b: usize = 0;
    while b < body
        invariant
            len == block@.len(),
            len >= 4,
            body == len - 4,
            b <= body,
            (samples@, state.predictor as int, state.step_index as int) == ima_block_after(
                block@,
                (2 * b) as nat,
            ),
            -32768 <= state.predictor <= 32767,
            0 <= state.step_index <= 88,
        decreases body - b,
    {
        let byte = block[4 + b];
        assert(ima_nibble(block@, 2 * b as int) == byte % 16);
        let low = decode_ima_nibble(byte % 16, &mut state);
        samples.push(low);
        assert(samples@ =~= ima_block_after(block@, (2 * b + 1) as nat).0);
        assert(ima_nibble(block@, 2 * b + 1) == byte / 16);
        let high = decode_ima_nibble(byte / 16, &mut state);
        samples.push(high);
        assert(samples@ =~= ima_block_after(block@, (2 * b + 2) as nat).0);
        b = b + 1;
    }
    Ok(samples)
}

proof fn lemma_ima_block_after_len(block: Seq<u8>, j: nat)
    ensures
        ima_block_after(block, j).0.len() == j + 1,
    decreases j,
{
    if j > 0 {
        lemma_ima_block_after_len(block, (j - 1) as nat);
    }
}

proof fn lemma_ima_channel_len(data: Seq<u8>, channels: int, block_size: int, c: int, frames: nat)
    requires
        block_size >= 4,
    ensures
        ima_channel(data, channels, block_size, c, frames).len() == frames * ima_block_len(
            block_size,
        ),
    decreases frames,
{
    if frames > 0 {
        lemma_ima_channel_len(data, channels, block_size, c, (frames - 1) as nat);
        let block = ima_frame_block(data, channels, block_size, frames - 1, c);
        lemma_ima_block_after_len(block, (2 * (block_size - 4)) as nat);
        let l = ima_block_len(block_size);
        assert(ima_block_after(block, (2 * (block_size - 4)) as nat).0.len() == l);
        assert((frames - 1) * l + l == frames * l) by (nonlinear_arith);
        assert(ima_channel(data, channels, block_size, c, frames) == ima_channel(
            data,
            channels,
            block_size,
            c,
            (frames - 1) as nat,
        ) + ima_block_after(block, (2 * (block_size - 4)) as nat).0);
    } else {
        assert(frames * ima_block_len(block_size) == 0) by (nonlinear_arith)
            requires
                frames == 0,
        ;
    }
}

/// Position `i * channels + ch` of an interleaved stream is sample `i` of
/// channel `ch`.
proof fn lemma_interleave_index(i: int, channels: int, ch: int)
    requires
        0 <= ch < channels,
    ensures
        (i * channels + ch) % channels == ch,
        (i * channels + ch) / channels == i,
{
    vstd::arithmetic::div_mod::lemma_fundamental_div_mod_converse(i * channels + ch, channels, i, ch);
}

fn decode_ima(data: &[u8], channels: usize, block_size: usize) -> (r: Result<Vec<i16>, StmError>)
    requires
        channels > 0,
        block_size * channels <= usize::MAX,
    ensures
        match r {
            Ok(v) => spec_decode_ima(data@, channels as int, block_size as int) == Ok::<
                Seq<i16>,
                StmError,
            >(v@),
            Err(e) => spec_decode_ima(data@, channels as int, block_size as int) == Err::<
                Seq<i16>,
                StmError,
            >(e),
        },
{
    if block_size < 4 {
        return Err(StmError::ImaBlockTooSmall);
    }
    let frame_size = block_size * channels;
    assert(frame_size > 0) by (nonlinear_arith)
        requires
            frame_size == block_size * channels,
            block_size >= 4,
            channels > 0,
    ;
    if data.len() % frame_size != 0 {
        return Err(StmError::ImaMisaligned);
    }
    let len = data.len();
    let frames = len / frame_size;
    let ghost cs = channels as int;
    let ghost bs = block_size as int;
    let ghost nf = frames as nat;
    assert(frames * frame_size == len) by (nonlinear_arith)
        requires
            frames == len / frame_size,
            len % frame_size == 0,
            frame_size > 0,
    ;
    let mut per_channel: Vec<Vec<i16>> = Vec::new();
    let mut c: usize = 0;
    while c < channels
        invariant
            block_size >= 4,
            frame_size == block_size * channels,
            len == data@.len(),
            frames * frame_size == len,
            cs == channels,
            bs == block_size,
            nf == frames,
            c <= channels,
            per_channel@.len() == c,
            forall|k: int|
                0 <= k < c ==> (#[trigger] per_channel@[k])@ == ima_channel(data@, cs, bs, k, nf),
        decreases channels - c,
    {
        let mut chan: Vec<i16> = Vec::new();
        let mut f: usize = 0;
        while f < frames
            invariant
                block_size >= 4,
                frame_size == block_size * channels,
                len == data@.len(),
                frames * frame_size == len,
                cs == channels,
                bs == block_size,
                c < channels,
                f <= frames,
                chan@ == ima_channel(data@, cs, bs, c as int, f as nat),
            decreases frames - f,
        {
            assert(f * frame_size + c * block_size + block_size <= len && f * frame_size == f * cs
                * bs && (c + 1) * bs == c * bs + bs) by (nonlinear_arith)
                requires
                    f < frames,
                    c < channels,
                    frame_size == block_size * channels,
                    frames * frame_size == len,
                    cs == channels,
                    bs == block_size,
            ;
            let start = f * frame_size + c * block_size;
            let block = &data[start..start + block_size];
            assert(block@ == ima_frame_block(data@, cs, bs, f as int, c as int));
            let mut decoded = match decode_ima_block(block) {
                Ok(d) => d,
                Err(e) => {
                    return Err(e);
                },
            };
            chan.append(&mut decoded);
            f = f + 1;
        }
        per_channel.push(chan);
        c = c + 1;
    }
    let expected = per_channel[0].len();
    proof {
        assert forall|k: int| 0 <= k < cs implies (#[trigger] per_channel@[k])@.len()
            == expected by {
            lemma_ima_channel_len(data@, cs, bs, k, nf);
            lemma_ima_channel_len(data@, cs, bs, 0, nf);
        }
        lemma_ima_channel_len(data@, cs, bs, 0, nf);
    }
    let mut interleaved: Vec<i16> = Vec::new();
    let mut i: usize = 0;
    while i < expected
        invariant
            per_channel@.len() == channels,
            cs == channels,
            cs > 0,
            forall|k: int|
                0 <= k < cs ==> (#[trigger] per_channel@[k])@ == ima_channel(data@, cs, bs, k, nf),
            forall|k: int| 0 <= k < cs ==> (#[trigger] per_channel@[k])@.len() == expected,
            i <= expected,
            interleaved@ =~= Seq::new(
                (i * cs) as nat,
                |n: int| ima_channel(data@, cs, bs, n % cs, nf)[n / cs],
            ),
        decreases expected - i,
    {
        let mut ch: usize = 0;
        while ch < channels
            invariant
                per_channel@.len() == channels,
                cs == channels,
                forall|k: int|
                    0 <= k < cs ==> (#[trigger] per_channel@[k])@ == ima_channel(
                        data@,
                        cs,
                        bs,
                        k,
                        nf,
                    ),
                forall|k: int| 0 <= k < cs ==> (#[trigger] per_channel@[k])@.len() == expected,
                i < expected,
                ch <= channels,
                interleaved@ =~= Seq::new(
                    (i * cs + ch) as nat,
                    |n: int| ima_channel(data@, cs, bs, n % cs, nf)[n / cs],
                ),
            decreases channels - ch,
        {
            proof {
                lemma_interleave_index(i as int, cs, ch as int);
            }
            interleaved.push(per_channel[ch][i]);
            ch = ch + 1;
        }
        assert((i * cs + cs) == (i + 1) * cs) by (nonlinear_arith);
        i = i + 1;
    }
    proof {
        lemma_ima_channel_len(data@, cs, bs, 0, nf);
        assert(nf == (data@.len() as int) / (bs * cs));
    }
    Ok(interleaved)
}

/// Loop sample of an IMA stream: the bytes from the data start to the loop
/// offset, per channel, in whole blocks of `2 * (block - 4) + 1` samples
/// (0 before the start or for blocks without a body).
pub open spec fn spec_ima_loop_sample(loop_end_offset: int, channels: int, start_offset: int, block_size: int) -> u32 {
    if loop_end_offset <= start_offset || block_size <= 4 {
        0
    } else {
        (((loop_end_offset - start_offset) / channels / block_size) * ima_block_len(block_size)) as u32
    }
}

fn ima_loop_sample(loop_end_offset: u64, channels: u16, start_offset: u64, block_size: u64) -> (r: u32)
    requires
        loop_end_offset <= u32::MAX,
        block_size <= u32::MAX,
        loop_end_offset > start_offset ==> channels > 0,
    ensures
        r == spec_ima_loop_sample(
            loop_end_offset as int,
            channels as int,
            start_offset as int,
            block_size as int,
        ),
{
    if loop_end_offset <= start_offset {
        return 0;
    }
    let bytes = loop_end_offset - start_offset;
    let per_channel = bytes / channels as u64;
    if block_size <= 4 {
        return 0;
    }
    let samples_per_block = (block_size - 4) * 2 + 1;
    let blocks = per_channel / block_size;
    assert(blocks * samples_per_block <= 2 * per_channel) by (nonlinear_arith)
        requires
            blocks == per_channel / block_size,
            samples_per_block == (block_size - 4) * 2 + 1,
            block_size > 4,
    ;
    (blocks * samples_per_block) as u32
}

// ---------------------------------------------------------------------
// The container
// ---------------------------------------------------------------------

/// `Some(false)` for a little-endian `STMA` file, `Some(true)` for a
/// big-endian `AMTS` one.
pub open spec fn stm_byte_order(s: Seq<u8>) -> Option<bool> {
    if s.subrange(0, 4) == stma_magic() {
        Some(false)
    } else if s.subrange(0, 4) == amts_magic() {
        Some(true)
    } else {
        None
    }
}

/// The decoded stream once the samples are decoded (or have failed).
pub open spec fn stm_result(
    sample_rate: int,
    channels: u16,
    samples: Result<Seq<i16>, StmError>,
    loop_start: Option<u32>,
    loop_end: Option<u32>,
) -> Result<StmDecodedView, StmError> {
    match samples {
        Err(e) => Err(e),
        Ok(samples) => Ok(
            StmDecodedView {
                sample_rate: sample_rate as u32,
                channels,
                samples,
                loop_start,
                loop_end,
            },
        ),
    }
}

/// What decoding `.stm` bytes yields.
///
/// Little-endian 4-bit streams are IMA (loop start from 0x24 when the word
/// at 0x20 is 1, loop end from the loop offset at 0x1c); little-endian
/// 16-bit streams are PCM (loop start from 0x24, loop end from the loop
/// offset); big-endian 16-bit streams are PCM whose loop offset gives the
/// loop start and no loop end.
pub open spec fn spec_decode_stm(s: Seq<u8>) -> Result<StmDecodedView, StmError> {
    if s.len() < START_OFFSET {
        Err(StmError::TooSmall)
    } else {
        match stm_byte_order(s) {
            None => Err(StmError::NotStm),
            Some(be) => {
                let interleave = stm_u32(s, be, 0x08);
                let rate = stm_u32(s, be, 0x0c);
                let bps = stm_u32(s, be, 0x10);
                let ch = stm_channels(s, be);
                let size = stm_u32(s, be, 0x18);
                let loop_end_offset = stm_u32(s, be, 0x1c);
                let start = START_OFFSET as int;
                if start + size > s.len() {
                    Err(StmError::AudioPastEnd)
                } else {
                    let audio = s.subrange(start, start + size);
                    if !be && bps == 4 {
                        let block = if interleave == 0xc000 {
                            IMA_ALT_BLOCK as int
                        } else {
                            IMA_DEFAULT_BLOCK as int
                        };
                        stm_result(
                            rate,
                            ch,
                            spec_decode_ima(audio, ch as int, block),
                            if stm_u32(s, be, 0x20) == 1 {
                                Some(stm_u32(s, be, 0x24) as u32)
                            } else {
                                None
                            },
                            Some(spec_ima_loop_sample(loop_end_offset, ch as int, start, block)),
                        )
                    } else if !be && bps == 16 {
                        stm_result(
                            rate,
                            ch,
                            spec_decode_pcm(audio, ch as int, false),
                            Some(stm_u32(s, be, 0x24) as u32),
                            Some(spec_pcm_loop_sample(loop_end_offset, ch as int, start, bps)),
                        )
                    } else if be && bps == 16 {
                        stm_result(
                            rate,
                            ch,
                            spec_decode_pcm(audio, ch as int, true),
                            Some(spec_pcm_loop_sample(loop_end_offset, ch as int, start, bps)),
                            None,
                        )
                    } else if be && bps == 4 {
                        Err(StmError::GcDspUnsupported)
                    } else {
                        Err(StmError::UnsupportedEncoding { bps: bps as u32, big_endian: be })
                    }
                }
            },
        }
    }
}

/// Files whose decoding divides by a zero channel count: a supported
/// encoding with 0 channels, except a PCM stream that is rejected as
/// unaligned before its channels are used.
pub open spec fn stm_divides_by_zero(s: Seq<u8>) -> bool {
    &&& s.len() >= START_OFFSET
    &&& stm_byte_order(s) matches Some(be)
    &&& START_OFFSET + stm_u32(s, be, 0x18) <= s.len()
    &&& stm_channels(s, be) == 0
    &&& {
        let bps = stm_u32(s, be, 0x10);
        ||| !be && bps == 4
        ||| bps == 16 && (stm_u32(s, be, 0x1c) > START_OFFSET || stm_u32(s, be, 0x18) % 2 == 0)
    }
}

/// Which byte order the magic at 0 announces.
fn byte_order(data: &[u8]) -> (r: Option<bool>)
    requires
        data@.len() >= 4,
    ensures
        r == stm_byte_order(data@),
{
    let m = (data[0], data[1], data[2], data[3]);
    if m.0 == 0x53 && m.1 == 0x54 && m.2 == 0x4d && m.3 == 0x41 {
        assert(data@.subrange(0, 4) =~= stma_magic());
        Some(false)
    } else if m.0 == 0x41 && m.1 == 0x4d && m.2 == 0x54 && m.3 == 0x53 {
        assert(data@.subrange(0, 4) =~= amts_magic());
        Some(true)
    } else {
        assert(data@.subrange(0, 4)[0] == data@[0]);
        assert(data@.subrange(0, 4)[1] == data@[1]);
        assert(data@.subrange(0, 4)[2] == data@[2]);
        assert(data@.subrange(0, 4)[3] == data@[3]);
        None
    }
}

/// Decodes an `.stm` file into interleaved 16-bit samples (see
/// [`spec_decode_stm`]).
pub fn decode_stm(data: &[u8]) -> (r: Result<StmDecoded, StmError>)
    requires
        !stm_divides_by_zero(data@),
    ensures
        match r {
            Ok(d) => spec_decode_stm(data@) == Ok::<StmDecodedView, StmError>(d@),
            Err(e) => spec_decode_stm(data@) == Err::<StmDecodedView, StmError>(e),
        },
{
    if data.len() < START_OFFSET {
        return Err(StmError::TooSmall);
    }
    let big_endian = match byte_order(data) {
        Some(be) => be,
        None => {
            return Err(StmError::NotStm);
        },
    };
    let interleave = read_u32(data, big_endian, 0x08);
    let sample_rate = read_u32(data, big_endian, 0x0c);
    let bps = read_u32(data, big_endian, 0x10);
    let channels = (read_u32(data, big_endian, 0x14) % 65536) as u16;
    let data_size = read_u32(data, big_endian, 0x18) as usize;
    let loop_end_offset = read_u32(data, big_endian, 0x1c) as u64;
    if data_size > data.len() - START_OFFSET {
        return Err(StmError::AudioPastEnd);
    }
    let audio = &data[START_OFFSET..START_OFFSET + data_size];
    let start = START_OFFSET as u64;
    if !big_endian && bps == 4 {
        let block = if interleave == 0xc000 {
            IMA_ALT_BLOCK
        } else {
            IMA_DEFAULT_BLOCK
        };
        let loop_start = if read_u32(data, big_endian, 0x20) == 1 {
            Some(read_u32(data, big_endian, 0x24))
        } else {
            None
        };
        let loop_end = Some(ima_loop_sample(loop_end_offset, channels, start, block as u64));
        let samples = decode_ima(audio, channels as usize, block)?;
        Ok(StmDecoded { sample_rate, channels, samples, loop_start, loop_end })
    } else if !big_endian && bps == 16 {
        let loop_start = Some(read_u32(data, big_endian, 0x24));
        let loop_end = Some(pcm_loop_sample(loop_end_offset, channels, start, bps as u64));
        let samples = decode_pcm(audio, channels as usize, false)?;
        Ok(StmDecoded { sample_rate, channels, samples, loop_start, loop_end })
    } else if big_endian && bps == 16 {
        let loop_start = Some(pcm_loop_sample(loop_end_offset, channels, start, bps as u64));
        let samples = decode_pcm(audio, channels as usize, true)?;
        Ok(StmDecoded { sample_rate, channels, samples, loop_start, loop_end: None })
    } else if big_endian && bps == 4 {
        Err(StmError::GcDspUnsupported)
    } else {
        Err(StmError::UnsupportedEncoding { bps, big_endian })
    }
}

/// Whether decoding `data` would divide by a zero channel count (see
/// [`stm_divides_by_zero`]); [`decode_stm`] is meant for the other files.
pub fn stm_zero_channel_fault(data: &[u8]) -> (b: bool)
    ensures
        b == stm_divides_by_zero(data@),
{
    if data.len() < START_OFFSET {
        return false;
    }
    let big_endian = match byte_order(data) {
        Some(be) => be,
        None => {
            return false;
        },
    };
    let bps = read_u32(data, big_endian, 0x10);
    let channels = read_u32(data, big_endian, 0x14) % 65536;
    let data_size = read_u32(data, big_endian, 0x18);
    let loop_end_offset = read_u32(data, big_endian, 0x1c);
    if data_size as usize > data.len() - START_OFFSET || channels != 0 {
        return false;
    }
    (!big_endian && bps == 4) || (bps == 16 && (loop_end_offset as usize > START_OFFSET
        || data_size % 2 == 0))
}

/// A WAVE file (16-bit integer PCM) holding a decoded stream.
///
/// Fails with `UnfinishedSample` exactly when the sample count is not a
/// multiple of the channel count.
pub fn create_wav_bytes(decoded: &StmDecoded) -> (r: Result<Vec<u8>, WavError>)
    requires
        wav_request_ok(decoded.samples@.len() as int, decoded.sample_rate, decoded.channels),
    ensures
        match r {
            Ok(bytes) => {
                &&& (decoded.samples@.len() as int) % (decoded.channels as int) == 0
                &&& bytes@ == wav_file_bytes(decoded.samples@, decoded.sample_rate, decoded.channels)
                &&& wav_layout(decoded.samples@, decoded.channels, bytes@)
            },
            Err(e) => (decoded.samples@.len() as int) % (decoded.channels as int) != 0 && e
                == WavError::UnfinishedSample,
        },
{
    match encode_pcm16(decoded.samples.as_slice(), decoded.sample_rate, decoded.channels) {
        Ok(bytes) => Ok(bytes),
        Err(_) => Err(WavError::UnfinishedSample),
    }
}

// ---------------------------------------------------------------------
// Laws
// ---------------------------------------------------------------------

/// IMA data of `frames` whole frames decodes to `2 * (block - 4) + 1`
/// samples per block, interleaved over the channels.
pub proof fn lemma_decode_ima_len(data: Seq<u8>, channels: int, block_size: int)
    requires
        channels > 0,
        spec_decode_ima(data, channels, block_size) is Ok,
    ensures
        spec_decode_ima(data, channels, block_size)->Ok_0.len() == ((data.len() as int) / (
            block_size * channels)) * ima_block_len(block_size) * channels,
{
    let frames = ((data.len() as int) / (block_size * channels)) as nat;
    assert(block_size * channels > 0) by (nonlinear_arith)
        requires
            block_size >= 4,
            channels > 0,
    ;
    assert(frames * ima_block_len(block_size) * channels >= 0) by (nonlinear_arith)
        requires
            block_size >= 4,
            channels > 0,
    ;
}

/// A decoded stream has at least one channel and a whole number of frames,
/// so it can always be written as a WAVE file whose frames are complete.
pub proof fn lemma_decoded_stm_whole_frames(s: Seq<u8>)
    requires
        !stm_divides_by_zero(s),
        spec_decode_stm(s) is Ok,
    ensures
        spec_decode_stm(s)->Ok_0.channels > 0,
        (spec_decode_stm(s)->Ok_0.samples.len() as int) % (spec_decode_stm(s)->Ok_0.channels as int)
            == 0,
{
    let be = stm_byte_order(s)->Some_0;
    let ch = stm_channels(s, be) as int;
    let bps = stm_u32(s, be, 0x10);
    let d = spec_decode_stm(s)->Ok_0;
    if !be && bps == 4 {
        let size = stm_u32(s, be, 0x18);
        let audio = s.subrange(START_OFFSET as int, START_OFFSET + size);
        let block = if stm_u32(s, be, 0x08) == 0xc000 {
            IMA_ALT_BLOCK as int
        } else {
            IMA_DEFAULT_BLOCK as int
        };
        let k = ((audio.len() as int) / (block * ch)) * ima_block_len(block);
        lemma_decode_ima_len(audio, ch, block);
        assert(d.samples.len() == k * ch);
        assert((k * ch) % ch == 0) by (nonlinear_arith)
            requires
                ch > 0,
        ;
    }
}

} // verus!
