//! 16-bit PCM WAVE files, written by `hound`.
//!
//! Both audio decoders of the library (HD/BD banks and STM streams) end by
//! wrapping their samples in a WAVE container; this module holds the one
//! place where the library hands samples to `hound`.
use vstd::prelude::*;

verus! {

#[verifier::external_type_specification]
#[verifier::external_body]
pub struct ExHoundError(hound::Error);

/// Error of a WAVE encoding request.
#[derive(Debug, Clone, Copy, PartialEq, Eq, Structural)]
pub enum WavError {
    /// The number of samples is not a multiple of the channel count, so the
    /// last frame is incomplete.
    UnfinishedSample,
}

/// The bytes of the WAVE file that `hound` writes for interleaved 16-bit
/// integer `samples` at `sample_rate` with `channels` channels.
pub uninterp spec fn wav_file_bytes(samples: Seq<i16>, sample_rate: u32, channels: u16) -> Seq<u8>;

/// Length of the RIFF/fmt/data header that `hound` writes: the short
/// `PCMWAVEFORMAT` form for up to two channels, `WAVEFORMATEXTENSIBLE`
/// above that.
pub open spec fn wav_header_len(channels: u16) -> int {
    if channels > 2 {
        68
    } else {
        44
    }
}

/// The unsigned 16-bit pattern of a sample (two's complement).
pub open spec fn sample_bits(x: i16) -> int {
    if x < 0 {
        x + 65536
    } else {
        x as int
    }
}

/// Requests on which `hound` neither divides by zero nor overflows its
/// 32-bit size fields: at least one channel, a non-zero rate, a byte rate
/// and a file size that fit in `u32`.
pub open spec fn wav_request_ok(n_samples: int, sample_rate: u32, channels: u16) -> bool {
    &&& channels >= 1
    &&& sample_rate >= 1
    &&& sample_rate * 2 * channels <= u32::MAX
    &&& 2 * n_samples + 60 <= u32::MAX
}

/// Layout of an encoded file: the header, then two bytes per sample, each
/// sample stored little-endian.
pub open spec fn wav_layout(samples: Seq<i16>, channels: u16, bytes: Seq<u8>) -> bool {
    &&& bytes.len() == wav_header_len(channels) + 2 * samples.len()
    &&& forall|i: int|
        0 <= i < samples.len() ==> bytes[wav_header_len(channels) + 2 * i] as int + 256
            * bytes[wav_header_len(channels) + 2 * i + 1] as int == sample_bits(
            #[trigger] samples[i],
        )
}

/// Writes `samples` through `hound::WavWriter::new` (16 bits, integer
/// format) on an in-memory cursor, `write_sample` for each sample, then
/// `finalize`.
///
/// Claimed of `hound` 3.5.1: the header is 44 bytes (68 for more than two
/// channels) and is followed by each sample as two little-endian bytes;
/// `finalize` fails exactly when the sample count is not a multiple of the
/// channel count (`update_header`), nothing else fails on a memory cursor.
/// The header's contents are only named, by `wav_file_bytes`.
#[verifier::external_body]
pub(crate) fn encode_pcm16(samples: &[i16], sample_rate: u32, channels: u16) -> (r: Result<Vec<u8>, hound::Error>)
    requires
        wav_request_ok(samples@.len() as int, sample_rate, channels),
    ensures
        r is Ok <==> (samples@.len() as int) % (channels as int) == 0,
        r matches Ok(bytes) ==> bytes@ == wav_file_bytes(samples@, sample_rate, channels),
        r matches Ok(bytes) ==> wav_layout(samples@, channels, bytes@),
{
    let spec = hound::WavSpec {
        channels,
        sample_rate,
        bits_per_sample: 16,
        sample_format: hound::SampleFormat::Int,
    };
    let mut buffer = std::io::Cursor::new(Vec::new());
    let mut writer = hound::WavWriter::new(&mut buffer, spec)?;
    for sample in samples {
        writer.write_sample(*sample)?;
    }
    writer.finalize()?;
    Ok(buffer.into_inner())
}

} // verus!
