//! Whatever a file holds, decoding ends in an error or in a bounded, silent
//! song: never in a panic, a read out of bounds or a hang.

use oxideav_s3m::decoder::{
    Chunk, DecodeError, DecoderState, OutputMode, S3mDecoder, CHUNK_FRAMES,
};
use oxideav_s3m::header::parse_header;
use oxideav_s3m::pattern::unpack_all;
use oxideav_s3m::player::{Gate, NoteOp, PlayerState};
use oxideav_s3m::samples::extract_samples;

const OUT_RATE: u32 = 44_100;

/// Splitmix64-style deterministic PRNG so the corpora are reproducible
/// across runs and platforms (no dependency on `rand`).
struct Rng(u64);

impl Rng {
    fn new(seed: u64) -> Self {
        Rng(seed)
    }
    fn next_u32(&mut self) -> u32 {
        self.0 = self
            .0
            .wrapping_mul(6_364_136_223_846_793_005)
            .wrapping_add(1_442_695_040_888_963_407);
        (self.0 >> 33) as u32
    }
    fn below(&mut self, bound: u32) -> u32 {
        if bound == 0 {
            0
        } else {
            self.next_u32() % bound
        }
    }
}

fn put(buf: &mut Vec<u8>, off: usize, data: &[u8]) {
    if buf.len() < off + data.len() {
        buf.resize(off + data.len(), 0);
    }
    buf[off..off + data.len()].copy_from_slice(data);
}

/// Build a minimal but genuinely valid single-channel S3M module: one PCM
/// instrument (16 sample bytes), one pattern with a single note-on, and an
/// order table that terminates cleanly. This is the seed the truncation and
/// mutation corpora derive from.
fn build_valid_module() -> Vec<u8> {
    let mut b = vec![0u8; 0x60];
    put(&mut b, 0x00, b"HOSTILE-SEED");
    b[0x1C] = 0x1A;
    b[0x1D] = 0x10;
    put(&mut b, 0x20, &2u16.to_le_bytes());
    put(&mut b, 0x22, &1u16.to_le_bytes());
    put(&mut b, 0x24, &1u16.to_le_bytes());
    put(&mut b, 0x26, &0u16.to_le_bytes());
    put(&mut b, 0x28, &0x1320u16.to_le_bytes());
    put(&mut b, 0x2A, &2u16.to_le_bytes());
    put(&mut b, 0x2C, b"SCRM");
    b[0x30] = 64;
    b[0x31] = 6;
    b[0x32] = 125;
    b[0x33] = 0x80 | 48;
    b[0x35] = 0x00;
    for i in 0..32 {
        b[0x40 + i] = 0xFF;
    }
    b[0x40] = 0x00;

    put(&mut b, 0x60, &[0x00, 0xFF]);
    put(&mut b, 0x62, &0x0008u16.to_le_bytes());
    put(&mut b, 0x64, &0x0010u16.to_le_bytes());

    let ins = 0x80;
    b.resize(ins + 80, 0);
    b[ins] = 1;
    b[ins + 0x0D] = 0x00;
    put(&mut b, ins + 0x0E, &0x000Eu16.to_le_bytes());
    put(&mut b, ins + 0x10, &16u32.to_le_bytes());
    put(&mut b, ins + 0x14, &0u32.to_le_bytes());
    put(&mut b, ins + 0x18, &0u32.to_le_bytes());
    b[ins + 0x1C] = 64;
    b[ins + 0x1E] = 0;
    b[ins + 0x1F] = 0;
    put(&mut b, ins + 0x20, &8363u32.to_le_bytes());
    put(&mut b, ins + 0x4C, b"SCRS");

    let smp = 0xE0;
    b.resize(smp + 16, 0);
    for i in 0..16 {
        b[smp + i] = (i as u8).wrapping_mul(8);
    }

    let pat = 0x100;
    let body = [0x20u8, 0x40, 0x01, 0x00];
    let length = (2 + body.len()) as u16;
    put(&mut b, pat, &length.to_le_bytes());
    put(&mut b, pat + 2, &body);

    b
}

/// One authored pattern cell: `(channel, note, instrument, volume, command,
/// info)`. `0xFF` note / vol means "no change"; a `0` command means "no
/// effect".
type PatCell = (u8, u8, u8, u8, u8, u8);

/// Pack a list of pattern rows into the S3M packed-pattern byte stream
/// (2-byte length prefix + records + per-row `0x00` terminator). Every
/// record is emitted with all three optional field groups present so the
/// unpacker's flag-driven length arithmetic is exercised.
fn pack_pattern(rows: &[&[PatCell]]) -> Vec<u8> {
    let mut body = Vec::new();
    for row in rows {
        for &(channel, note, instrument, volume, command, info) in row.iter() {
            let flags = (channel & 0x1F) | 0x20 | 0x40 | 0x80;
            body.push(flags);
            body.push(note);
            body.push(instrument);
            body.push(volume);
            body.push(command);
            body.push(info);
        }
        body.push(0x00);
    }
    let length = (2 + body.len()) as u16;
    let mut out = length.to_le_bytes().to_vec();
    out.extend_from_slice(&body);
    out
}

/// Build a feature-rich but valid module: four channels (two left / two
/// right PCM), one looped 8-bit mono instrument, one true-stereo 16-bit
/// instrument, one `DP30ADPCM` delta-packed instrument (pack byte = 1),
/// an explicit 32-byte pan block, Amiga-limits + fast-slides flags, an
/// order table carrying a `0xFE` marker, and two patterns whose rows
/// spread vibrato / porta / arpeggio / retrigger / tremolo / tremor /
/// combined-slide / sample-offset / extended / global-volume / tempo /
/// same-row position-jump + pattern-break effects across the channels.
/// Fuzzing mutations of this exercises the stereo sample decoder, the
/// ADPCM depacker, the pan-block parser, the Amiga clamp, and every
/// per-tick effect kernel — far deeper than the minimal seed reaches.
fn build_rich_module() -> Vec<u8> {
    let mut b = vec![0u8; 0x60];
    put(&mut b, 0x00, b"RICH-SEED");
    b[0x1C] = 0x1A;
    b[0x1D] = 0x10;
    put(&mut b, 0x20, &4u16.to_le_bytes());
    put(&mut b, 0x22, &3u16.to_le_bytes());
    put(&mut b, 0x24, &2u16.to_le_bytes());
    put(&mut b, 0x26, &((1u16 << 4) | (1u16 << 6)).to_le_bytes());
    put(&mut b, 0x28, &0x1320u16.to_le_bytes());
    put(&mut b, 0x2A, &2u16.to_le_bytes());
    put(&mut b, 0x2C, b"SCRM");
    b[0x30] = 48;
    b[0x31] = 6;
    b[0x32] = 125;
    b[0x33] = 0x80 | 48;
    b[0x35] = 0xFC;
    for i in 0..32 {
        b[0x40 + i] = 0xFF;
    }
    b[0x40] = 0x00;
    b[0x41] = 0x01;
    b[0x42] = 0x08;
    b[0x43] = 0x09;

    put(&mut b, 0x60, &[0x00, 0xFE, 0x01, 0xFF]);
    put(&mut b, 0x64, &0x0010u16.to_le_bytes());
    put(&mut b, 0x66, &0x0018u16.to_le_bytes());
    put(&mut b, 0x68, &0x001Du16.to_le_bytes());
    put(&mut b, 0x6A, &0x0040u16.to_le_bytes());
    put(&mut b, 0x6C, &0x0050u16.to_le_bytes());
    b.resize(0x6E + 32, 0);
    for i in 0..32 {
        b[0x6E + i] = 0x20 | ((i as u8 * 3) & 0x0F);
    }

    let i1 = 0x100;
    b.resize(i1 + 80, 0);
    b[i1] = 1;
    put(&mut b, i1 + 0x0E, &0x0020u16.to_le_bytes());
    put(&mut b, i1 + 0x10, &32u32.to_le_bytes());
    put(&mut b, i1 + 0x14, &8u32.to_le_bytes());
    put(&mut b, i1 + 0x18, &24u32.to_le_bytes());
    b[i1 + 0x1C] = 64;
    b[i1 + 0x1F] = 0x01;
    put(&mut b, i1 + 0x20, &8363u32.to_le_bytes());
    put(&mut b, i1 + 0x4C, b"SCRS");
    let i2 = 0x180;
    b.resize(i2 + 80, 0);
    b[i2] = 1;
    put(&mut b, i2 + 0x0E, &0x0030u16.to_le_bytes());
    put(&mut b, i2 + 0x10, &12u32.to_le_bytes());
    b[i2 + 0x1C] = 48;
    b[i2 + 0x1F] = 0x02 | 0x04;
    put(&mut b, i2 + 0x20, &8363u32.to_le_bytes());
    put(&mut b, i2 + 0x4C, b"SCRS");
    let i3 = 0x1D0;
    b.resize(i3 + 80, 0);
    b[i3] = 1;
    put(&mut b, i3 + 0x0E, &0x0038u16.to_le_bytes());
    put(&mut b, i3 + 0x10, &16u32.to_le_bytes());
    b[i3 + 0x1C] = 40;
    b[i3 + 0x1E] = 1;
    put(&mut b, i3 + 0x20, &8363u32.to_le_bytes());
    put(&mut b, i3 + 0x4C, b"SCRS");
    let s1 = 0x200;
    b.resize(s1 + 32, 0);
    for i in 0..32 {
        b[s1 + i] = (i as u8).wrapping_mul(7);
    }
    let s2 = 0x300;
    b.resize(s2 + 48, 0);
    for i in 0..48 {
        b[s2 + i] = (i as u8).wrapping_mul(5).wrapping_add(3);
    }
    let s3 = 0x380;
    b.resize(s3 + 24, 0);
    b[s3 + 1] = 2;
    for i in 0..8 {
        b[s3 + 16 + i] = 0x11;
    }

    let pat0 = pack_pattern(&[
        &[
            (0, 0x40, 1, 0xFF, 8, 0x42),
            (1, 0x48, 2, 40, 0, 0),
            (2, 0x40, 1, 0xFF, 10, 0x37),
            (3, 0x50, 2, 0xFF, 17, 0x83),
        ],
        &[
            (0, 0xFF, 0, 0xFF, 4, 0x40),
            (1, 0x50, 2, 0xFF, 7, 0x04),
            (2, 0xFF, 0, 0xFF, 18, 0x42),
            (3, 0xFF, 0, 0xFF, 19, 0x31),
        ],
        &[
            (0, 0xFF, 0, 0xFF, 21, 0x21),
            (1, 0xFF, 0, 0xFF, 11, 0x40),
            (2, 0xFF, 0, 0xFF, 9, 0x24),
            (3, 0x50, 2, 0xFF, 15, 0x02),
        ],
        &[
            (0, 0xFF, 0, 0xFF, 22, 0x20),
            (1, 0xFF, 0, 0xFF, 20, 0x50),
            (2, 0xFF, 0, 0xFF, 19, 0xE1),
            (3, 0xFE, 0, 0xFF, 0, 0),
        ],
    ]);
    put(&mut b, 0x400, &pat0);

    let pat1 = pack_pattern(&[
        &[
            (0, 0x44, 1, 0xFF, 0, 0),
            (1, 0x40, 3, 0xFF, 0, 0),
        ],
        &[
            (0, 0xFF, 0, 0xFF, 3, 0x02),
            (1, 0xFF, 0, 0xFF, 2, 0x02),
        ],
    ]);
    put(&mut b, 0x500, &pat1);

    b
}

/// Play up to `frames` frames, reading the samples that the voices would.
fn render(player: &mut PlayerState, frames: usize) -> usize {
    let mut produced = 0;
    while produced < frames {
        let n = player.begin_frames(frames - produced);
        if n == 0 {
            break;
        }
        for ch in &player.channels {
            assert!(ch.volume <= 63 && ch.stored_volume <= 63 && ch.pan < 16);
            if ch.gate(&player.samples) == Gate::Heard {
                let body = &player.samples[ch.instrument as usize - 1];
                let start = match ch.note_op {
                    NoteOp::Start { offset, .. } => offset,
                    _ => 0,
                };
                if let Some(tap) = body.locate(start) {
                    let _ = (body.pcm[tap.here], body.pcm[tap.next]);
                    if let Some(right) = &body.pcm_right {
                        let _ = (right[tap.here], right[tap.next]);
                    }
                }
            }
        }
        player.finish_frames(n);
        produced += n;
    }
    produced
}

/// Run the whole pipeline against `bytes`. Any panic here is the test
/// failing. Playback is frame-bounded so a looping module returns.
fn drive_pipeline(bytes: &[u8]) {
    let Ok(header) = parse_header(bytes) else {
        return;
    };
    let samples = extract_samples(&header, bytes);
    let patterns = unpack_all(&header, bytes);
    let mut player = PlayerState::new(&header, samples, patterns, OUT_RATE);
    for _ in 0..10 {
        if render(&mut player, 1024) == 0 {
            break;
        }
    }
}

/// Drive the decoder over `bytes` in both modes: one packet, then chunks.
fn drive_decoder_api(bytes: &[u8]) {
    for mode in [OutputMode::MixedStereo, OutputMode::PerChannel] {
        let mut dec = S3mDecoder::new(mode);
        if dec.send_packet(bytes).is_err() {
            continue;
        }
        for _ in 0..3 {
            if receive(&mut dec).is_err() {
                break;
            }
        }
    }
}

/// Render one silent chunk.
fn receive(dec: &mut S3mDecoder) -> Result<Chunk, DecodeError> {
    let stride = dec.stride() as usize;
    let pcm = vec![0i16; CHUNK_FRAMES as usize * stride];
    let produced = match &mut dec.state {
        DecoderState::Playing { player, .. } => render(player, CHUNK_FRAMES as usize),
        _ => 0,
    };
    dec.deliver(&pcm, produced as u32)
}

#[test]
fn seed_module_decodes_cleanly() {
    let m = build_valid_module();
    let header = parse_header(&m).expect("seed module must parse");
    assert_eq!(header.ord_num, 2);
    assert_eq!(header.ins_num, 1);
    assert_eq!(header.pat_num, 1);
    let samples = extract_samples(&header, &m);
    assert_eq!(samples.len(), 1);
    assert_eq!(samples[0].pcm.len(), 16);
    let patterns = unpack_all(&header, &m);
    let mut player = PlayerState::new(&header, samples, patterns, OUT_RATE);
    let produced = render(&mut player, 2048);
    assert!(produced > 0, "seed module must render at least one frame");
}

#[test]
fn rich_module_decodes_cleanly() {
    let m = build_rich_module();
    let header = parse_header(&m).expect("rich module must parse");
    assert_eq!(header.ins_num, 3);
    assert_eq!(header.pat_num, 2);
    assert_eq!(header.enabled_channels, 4);
    let samples = extract_samples(&header, &m);
    assert_eq!(samples.len(), 3);
    assert_eq!(samples[0].pcm.len(), 32);
    assert!(samples[0].is_looped());
    assert_eq!(samples[1].pcm.len(), 12);
    assert!(samples[1].pcm_right.is_some());
    let ramp: Vec<i16> = (1..=16).map(|i| i * 2 * 256).collect();
    assert_eq!(samples[2].pcm, ramp);
    assert!(samples[2].pcm_right.is_none());
    let patterns = unpack_all(&header, &m);
    let mut player = PlayerState::new(&header, samples, patterns, OUT_RATE);
    let mut total = 0usize;
    for _ in 0..32 {
        let n = render(&mut player, 4096);
        total += n;
        if n == 0 {
            break;
        }
    }
    assert!(total > 0, "rich module must render audio");
}

#[test]
fn rich_module_truncation_prefixes_never_panic() {
    let m = build_rich_module();
    for len in 0..=m.len() {
        drive_pipeline(&m[..len]);
    }
}

#[test]
fn registered_decoder_api_survives_truncation_and_mutation() {
    for seed in [build_valid_module(), build_rich_module()] {
        let mut len = 0;
        while len <= seed.len() {
            drive_decoder_api(&seed[..len]);
            len += 8;
        }
    }

    let mut rng = Rng::new(0x0A11CE5E_ED0DDBAD);
    for seed in [build_valid_module(), build_rich_module()] {
        for _ in 0..600 {
            let mut m = seed.clone();
            let mutations = 1 + rng.below(8);
            for _ in 0..mutations {
                let idx = rng.below(m.len() as u32) as usize;
                m[idx] = rng.next_u32() as u8;
            }
            drive_decoder_api(&m);
        }
    }
}

#[test]
fn decoder_rejects_a_second_packet() {
    let m = build_valid_module();
    let mut dec = S3mDecoder::new(OutputMode::MixedStereo);
    dec.send_packet(&m).expect("first packet accepted");
    assert_eq!(
        dec.send_packet(&m),
        Err(DecodeError::SecondPacket),
        "a second packet must be rejected"
    );
}

#[test]
fn rich_module_byte_mutations_never_panic() {
    let seed = build_rich_module();
    let mut rng = Rng::new(0xC0FFEE11_5EED1234);
    for _ in 0..4000 {
        let mut m = seed.clone();
        let mutations = 1 + rng.below(10);
        for _ in 0..mutations {
            let idx = rng.below(m.len() as u32) as usize;
            m[idx] = rng.next_u32() as u8;
        }
        drive_pipeline(&m);
    }
}

#[test]
fn truncation_prefixes_never_panic() {
    let m = build_valid_module();
    for len in 0..=m.len() {
        drive_pipeline(&m[..len]);
    }
}

#[test]
fn random_buffers_never_panic() {
    let mut rng = Rng::new(0x0BADC0DE_5C4EA3D5);
    for _ in 0..4000 {
        let len = rng.below(600) as usize;
        let mut buf = vec![0u8; len];
        for byte in buf.iter_mut() {
            *byte = rng.next_u32() as u8;
        }
        if len >= 0x60 && rng.below(2) == 0 {
            buf[0x1D] = 0x10;
            buf[0x2C..0x30].copy_from_slice(b"SCRM");
        }
        drive_pipeline(&buf);
    }
}

#[test]
fn byte_mutations_of_valid_module_never_panic() {
    let seed = build_valid_module();
    let mut rng = Rng::new(0xDEADBEEF_C0DE600D);
    for _ in 0..4000 {
        let mut m = seed.clone();
        let mutations = 1 + rng.below(8);
        for _ in 0..mutations {
            let idx = rng.below(m.len() as u32) as usize;
            m[idx] = rng.next_u32() as u8;
        }
        drive_pipeline(&m);
    }
}

#[test]
fn appended_and_shrunk_lengths_never_panic() {
    let seed = build_valid_module();
    let mut rng = Rng::new(0xFACEFEED_C0FFEE00);
    for _ in 0..3000 {
        let mut m = seed.clone();
        match rng.below(3) {
            0 => {
                let extra = rng.below(256) as usize;
                for _ in 0..extra {
                    m.push(rng.next_u32() as u8);
                }
            }
            1 => {
                let cut = rng.below(m.len() as u32) as usize;
                m.truncate(m.len() - cut);
            }
            _ => {
                for off in [0x62usize, 0x63, 0x64, 0x65] {
                    m[off] = rng.next_u32() as u8;
                }
            }
        }
        drive_pipeline(&m);
    }
}
