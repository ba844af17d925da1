use oni2_assets::hd_bd::{
    create_wav_bytes, decode_psx_adpcm, hd_count_overflows, parse_hd, HdError,
};
use oni2_assets::stm::{decode_stm, stm_zero_channel_fault, StmError};
use oni2_assets::wav::WavError;

fn put_u32(v: &mut [u8], off: usize, x: u32) {
    v[off..off + 4].copy_from_slice(&x.to_le_bytes());
}

/// A bank with two subsongs: 32 bytes at 22050 Hz (looping), then 64
/// bytes at 11025 Hz.
fn sample_hd() -> Vec<u8> {
    let mut v = vec![0u8; 0x70];
    v[0..8].copy_from_slice(b"IECSsreV");
    v[0x10..0x18].copy_from_slice(b"IECSdaeH");
    put_u32(&mut v, 0x1c, 0x70);
    put_u32(&mut v, 0x20, 96);
    put_u32(&mut v, 0x30, 0x40);
    v[0x40..0x48].copy_from_slice(b"IECSigaV");
    put_u32(&mut v, 0x4c, 2);
    put_u32(&mut v, 0x50, 0x20);
    put_u32(&mut v, 0x54, 0x28);
    // first record
    put_u32(&mut v, 0x60, 0);
    v[0x64..0x66].copy_from_slice(&22050u16.to_le_bytes());
    v[0x66] = 1;
    // second record
    put_u32(&mut v, 0x68, 32);
    v[0x6c..0x6e].copy_from_slice(&11025u16.to_le_bytes());
    v[0x6e] = 0;
    v
}

#[test]
fn hd_lists_subsongs_with_sizes_and_loop_flags() {
    let hd = sample_hd();
    assert!(!hd_count_overflows(&hd));
    let h = parse_hd(&hd).expect("header");
    assert_eq!(h.bd_size, 96);
    assert_eq!(h.vagi_offset, 0x40);
    assert_eq!(h.total_subsongs, 2);
    assert_eq!(h.subsongs.len(), 2);
    let a = h.subsongs[0];
    assert_eq!(a.index, 1);
    assert_eq!(a.stream_offset, 0);
    assert_eq!(a.stream_size, 32);
    assert_eq!(a.sample_rate, 22050);
    assert_eq!(a.channels, 1);
    assert!(a.loop_flag);
    assert_eq!(a.num_samples, 56);
    let b = h.subsongs[1];
    assert_eq!(b.index, 2);
    assert_eq!(b.stream_offset, 32);
    assert_eq!(b.stream_size, 64);
    assert!(!b.loop_flag);
    assert_eq!(b.num_samples, 112);
}

#[test]
fn hd_end_marker_is_not_a_subsong() {
    let mut hd = sample_hd();
    // second record's stream offset equals the body size: an end marker
    put_u32(&mut hd, 0x68, 96);
    let h = parse_hd(&hd).expect("header");
    assert_eq!(h.total_subsongs, 1);
    assert_eq!(h.subsongs.len(), 1);
    assert_eq!(h.subsongs[0].stream_size, 96);
}

#[test]
fn hd_errors() {
    assert_eq!(parse_hd(&[0u8; 0x20]).unwrap_err(), HdError::FileTooSmall);
    let mut hd = sample_hd();
    hd[0] = b'X';
    assert_eq!(parse_hd(&hd).unwrap_err(), HdError::MissingVersionMagic);
    let mut hd = sample_hd();
    hd[0x10] = b'X';
    assert_eq!(parse_hd(&hd).unwrap_err(), HdError::MissingHeadMagic);
    let mut hd = sample_hd();
    put_u32(&mut hd, 0x30, 0x200);
    assert_eq!(parse_hd(&hd).unwrap_err(), HdError::TruncatedBeforeVagi);
    let mut hd = sample_hd();
    hd[0x40] = b'X';
    assert_eq!(parse_hd(&hd).unwrap_err(), HdError::MissingVagiMagic);
    let mut hd = sample_hd();
    put_u32(&mut hd, 0x4c, 0);
    put_u32(&mut hd, 0x50, 0);
    assert_eq!(parse_hd(&hd).unwrap_err(), HdError::NoSubsongs);
    let mut hd = sample_hd();
    // second stream starts after the body ends
    put_u32(&mut hd, 0x68, 200);
    assert_eq!(parse_hd(&hd).unwrap_err(), HdError::InvalidNextOffset { subsong: 2 });
}

#[test]
fn hd_negative_count_is_an_overflow() {
    let mut hd = sample_hd();
    put_u32(&mut hd, 0x4c, 0xffff_ffff);
    assert!(hd_count_overflows(&hd));
}

#[test]
fn psx_adpcm_decodes_shift_and_filter() {
    let mut data = vec![0u8; 32];
    // block 1: shift 0, filter 0; the last nibble is 1
    data[0] = 0x00;
    data[15] = 0x10;
    // block 2: shift 0, filter 1 (60/64 of the previous sample)
    data[16] = 0x10;
    let out = decode_psx_adpcm(&data, 30).expect("decoded");
    assert_eq!(out.len(), 30);
    assert!(out[..27].iter().all(|&s| s == 0));
    assert_eq!(out[27], 4096);
    assert_eq!(out[28], 3840);
    assert_eq!(out[29], 3600);
}

#[test]
fn psx_adpcm_small_shift_is_the_nibble() {
    let mut data = vec![0u8; 16];
    data[0] = 0x0c;
    data[2] = 0x21;
    let out = decode_psx_adpcm(&data, 1000).expect("decoded");
    assert_eq!(out.len(), 28);
    assert_eq!(out[0], 1);
    assert_eq!(out[1], 2);
    assert_eq!(out[2], 0);
}

#[test]
fn psx_adpcm_negative_nibble_and_partial_block() {
    let mut data = vec![0u8; 20];
    data[0] = 0x0c;
    data[2] = 0x0f;
    let out = decode_psx_adpcm(&data, 1000).expect("decoded");
    assert_eq!(out.len(), 28);
    assert_eq!(out[0], -1);
}

#[test]
fn wav_bytes_hold_header_and_samples() {
    let bytes = create_wav_bytes(&[1, -2], 8000, 1).expect("wav");
    assert_eq!(&bytes[0..4], b"RIFF");
    assert_eq!(&bytes[8..12], b"WAVE");
    assert_eq!(bytes.len(), 48);
    assert_eq!(&bytes[44..48], &[1, 0, 0xfe, 0xff]);
}

#[test]
fn wav_bytes_reject_unfinished_frames() {
    assert_eq!(create_wav_bytes(&[1, 2, 3], 8000, 2).unwrap_err(), WavError::UnfinishedSample);
}

fn stm_header(magic: &[u8; 4], bps: u32, channels: u32, size: u32) -> Vec<u8> {
    let mut v = vec![0u8; 0x800];
    v[0..4].copy_from_slice(magic);
    put_u32(&mut v, 0x0c, 22050);
    put_u32(&mut v, 0x10, bps);
    put_u32(&mut v, 0x14, channels);
    put_u32(&mut v, 0x18, size);
    v
}

#[test]
fn stm_pcm_little_endian_stereo() {
    let mut v = stm_header(b"STMA", 16, 2, 8);
    put_u32(&mut v, 0x1c, 0x808);
    put_u32(&mut v, 0x24, 1);
    v.extend_from_slice(&[1, 0, 0xff, 0xff, 0, 1, 2, 0]);
    assert!(!stm_zero_channel_fault(&v));
    let d = decode_stm(&v).expect("decoded");
    assert_eq!(d.sample_rate, 22050);
    assert_eq!(d.channels, 2);
    assert_eq!(d.samples, vec![1, -1, 256, 2]);
    assert_eq!(d.loop_start, Some(1));
    assert_eq!(d.loop_end, Some(2));
}

#[test]
fn stm_errors() {
    assert_eq!(decode_stm(&[0u8; 16]).unwrap_err(), StmError::TooSmall);
    let v = stm_header(b"XXXX", 16, 1, 0);
    assert_eq!(decode_stm(&v).unwrap_err(), StmError::NotStm);
    let v = stm_header(b"STMA", 16, 1, 4);
    assert_eq!(decode_stm(&v).unwrap_err(), StmError::AudioPastEnd);
    let mut v = stm_header(b"STMA", 16, 1, 3);
    v.extend_from_slice(&[0, 0, 0]);
    assert_eq!(decode_stm(&v).unwrap_err(), StmError::PcmNotAligned);
    let mut v = stm_header(b"STMA", 16, 2, 6);
    v.extend_from_slice(&[0; 6]);
    assert_eq!(decode_stm(&v).unwrap_err(), StmError::PcmChannelMismatch);
    let mut v = stm_header(b"STMA", 4, 1, 10);
    v.extend_from_slice(&[0; 10]);
    assert_eq!(decode_stm(&v).unwrap_err(), StmError::ImaMisaligned);
    let mut v = vec![0u8; 0x800];
    v[0..4].copy_from_slice(b"AMTS");
    v[0x10..0x14].copy_from_slice(&4u32.to_be_bytes());
    v[0x14..0x18].copy_from_slice(&1u32.to_be_bytes());
    assert_eq!(decode_stm(&v).unwrap_err(), StmError::GcDspUnsupported);
    let v = stm_header(b"STMA", 8, 1, 0);
    assert_eq!(
        decode_stm(&v).unwrap_err(),
        StmError::UnsupportedEncoding { bps: 8, big_endian: false }
    );
}

#[test]
fn stm_zero_channels_is_a_fault() {
    let mut v = stm_header(b"STMA", 16, 0, 2);
    v.extend_from_slice(&[0, 0]);
    assert!(stm_zero_channel_fault(&v));
}

#[test]
fn stm_ima_block_decodes_to_samples() {
    let mut v = stm_header(b"STMA", 4, 1, 0x40);
    v.extend_from_slice(&[0u8; 0x40]);
    let d = decode_stm(&v).expect("decoded");
    assert_eq!(d.channels, 1);
    assert!(d.samples.iter().all(|&s| s == 0));
    assert!(!d.samples.is_empty());
}
