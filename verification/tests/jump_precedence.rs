//! A position jump and a pattern break on one row add up: the row of the one
//! in the order of the other. The length of the song shows which rows play.

use oxideav_s3m::decoder::{
    DecoderState, OutputMode, S3mDecoder, CHUNK_FRAMES, OUTPUT_SAMPLE_RATE,
};

/// Write `data` at `off`, growing the buffer as needed.
fn put(buf: &mut Vec<u8>, off: usize, data: &[u8]) {
    if buf.len() < off + data.len() {
        buf.resize(off + data.len(), 0);
    }
    buf[off..off + data.len()].copy_from_slice(data);
}

/// One authored cell: `(channel, note, instrument, volume, command, info)`.
type PatCell = (u8, u8, u8, u8, u8, u8);

/// Pack rows into the S3M packed-pattern stream (2-byte length prefix +
/// records + per-row `0x00` terminator). Rows past the authored ones are
/// left empty by the unpacker.
fn pack_pattern(rows: &[&[PatCell]]) -> Vec<u8> {
    let mut body = Vec::new();
    for row in rows {
        for &(channel, note, instrument, volume, command, info) in row.iter() {
            body.push((channel & 0x1F) | 0x20 | 0x40 | 0x80);
            body.push(note);
            body.push(instrument);
            body.push(volume);
            body.push(command);
            body.push(info);
        }
        body.push(0x00);
    }
    let length = (2 + body.len()) as u16;
    let mut out = length.to_le_bytes().to_vec();
    out.extend_from_slice(&body);
    out
}

/// Build a two-channel module: order `[pat0, pat1, end]`, one 16-byte PCM
/// instrument, pattern 0 row 0 carrying the caller's cells, pattern 1
/// fully empty. Speed 6, tempo 125.
fn build_jump_module(row0: &[PatCell]) -> Vec<u8> {
    let mut b = vec![0u8; 0x60];
    put(&mut b, 0x00, b"JUMP-FIXTURE");
    b[0x1C] = 0x1A;
    b[0x1D] = 0x10;
    put(&mut b, 0x20, &4u16.to_le_bytes());
    put(&mut b, 0x22, &1u16.to_le_bytes());
    put(&mut b, 0x24, &2u16.to_le_bytes());
    put(&mut b, 0x26, &0u16.to_le_bytes());
    put(&mut b, 0x28, &0x1320u16.to_le_bytes());
    put(&mut b, 0x2A, &2u16.to_le_bytes());
    put(&mut b, 0x2C, b"SCRM");
    b[0x30] = 64;
    b[0x31] = 6;
    b[0x32] = 125;
    b[0x33] = 0x80 | 48;
    for i in 0..32 {
        b[0x40 + i] = 0xFF;
    }
    b[0x40] = 0x00;
    b[0x41] = 0x01;

    put(&mut b, 0x60, &[0x00, 0x01, 0xFF, 0xFF]);
    put(&mut b, 0x64, &0x0008u16.to_le_bytes());
    put(&mut b, 0x66, &0x0010u16.to_le_bytes());
    put(&mut b, 0x68, &0x0020u16.to_le_bytes());

    let ins = 0x80;
    b.resize(ins + 80, 0);
    b[ins] = 1;
    put(&mut b, ins + 0x0E, &0x000Eu16.to_le_bytes());
    put(&mut b, ins + 0x10, &16u32.to_le_bytes());
    b[ins + 0x1C] = 64;
    put(&mut b, ins + 0x20, &8363u32.to_le_bytes());
    put(&mut b, ins + 0x4C, b"SCRS");
    let smp = 0xE0;
    b.resize(smp + 16, 0);
    for i in 0..16 {
        b[smp + i] = (i as u8).wrapping_mul(8);
    }

    put(&mut b, 0x100, &pack_pattern(&[row0]));
    put(&mut b, 0x200, &pack_pattern(&[]));

    b
}

/// Total frames the decoder has for `bytes`.
fn total_frames(bytes: Vec<u8>) -> u64 {
    let mut dec = S3mDecoder::new(OutputMode::MixedStereo);
    dec.send_packet(&bytes).expect("fixture must parse");
    let pcm = vec![0i16; CHUNK_FRAMES as usize * 2];
    let mut total = 0u64;
    loop {
        let produced = match &mut dec.state {
            DecoderState::Playing { player, .. } => player.advance(CHUNK_FRAMES as usize),
            _ => 0,
        };
        match dec.deliver(&pcm, produced as u32) {
            Ok(chunk) => {
                assert_eq!(chunk.pts, total as i64);
                total += chunk.samples as u64;
            }
            Err(_) => return total,
        }
    }
}

/// Frames for `rows` pattern rows at speed 6 / tempo 125: each row is 6
/// ticks of `rate * 2.5 / bpm` frames.
fn frames_for_rows(rows: u64) -> u64 {
    let per_tick = (OUTPUT_SAMPLE_RATE as f32 * 2.5 / 125.0) as u64;
    rows * 6 * per_tick
}

#[test]
fn bxx_then_cxx_lands_on_row_of_named_order() {
    let m = build_jump_module(&[
        (0, 0x40, 1, 0xFF, 2, 0x01),
        (1, 0xFF, 0, 0xFF, 3, 0x60),
    ]);
    assert_eq!(total_frames(m), frames_for_rows(5));
}

#[test]
fn cxx_then_bxx_renders_the_same_song_length() {
    let m = build_jump_module(&[
        (0, 0x40, 1, 0xFF, 3, 0x60),
        (1, 0xFF, 0, 0xFF, 2, 0x01),
    ]);
    assert_eq!(total_frames(m), frames_for_rows(5));
}

#[test]
fn bare_bxx_plays_the_named_order_from_row_zero() {
    let m = build_jump_module(&[(0, 0x40, 1, 0xFF, 2, 0x01)]);
    assert_eq!(total_frames(m), frames_for_rows(1 + 64));
}

#[test]
fn bare_cxx_breaks_into_the_next_order() {
    let m = build_jump_module(&[(0, 0x40, 1, 0xFF, 3, 0x60)]);
    assert_eq!(total_frames(m), frames_for_rows(5));
}
