use oxideav_s3m::error::S3mError;
use oxideav_s3m::header::{
    has_signature, parse_header, parse_instrument, CreatedWithTracker, Tracker, CHANNEL_COUNT,
    INSTRUMENT_HEADER_SIZE, S3M_SIGNATURE,
};


#[test]
fn rejects_wrong_signature() {
    let mut bytes = vec![0u8; 0x100];
    bytes[0x1D] = 0x10;
    assert!(parse_header(&bytes).is_err());
}

#[test]
fn rejects_wrong_type_byte() {
    let mut bytes = vec![0u8; 0x100];
    bytes[0x2C..0x30].copy_from_slice(S3M_SIGNATURE);
    bytes[0x1D] = 0x00;
    assert!(parse_header(&bytes).is_err());
}

fn build_min_header(channel_settings: [u8; CHANNEL_COUNT]) -> Vec<u8> {
    let mut b = vec![0u8; 0x60];
    b[0x1D] = 0x10;
    b[0x20..0x22].copy_from_slice(&1u16.to_le_bytes());
    b[0x22..0x24].copy_from_slice(&0u16.to_le_bytes());
    b[0x24..0x26].copy_from_slice(&0u16.to_le_bytes());
    b[0x2C..0x30].copy_from_slice(S3M_SIGNATURE);
    b[0x30] = 64;
    b[0x31] = 6;
    b[0x32] = 125;
    b[0x33] = 0x30;
    b[0x40..0x40 + CHANNEL_COUNT].copy_from_slice(&channel_settings);
    b.push(0xFF);
    b
}

#[test]
fn muted_flag_set_for_unused_slots() {
    let mut settings = [0xFFu8; CHANNEL_COUNT];
    settings[0] = 0x00;
    let bytes = build_min_header(settings);
    let h = parse_header(&bytes).unwrap();
    assert!(!h.muted[0], "channel 0 (type 0x00) must not be muted");
    for slot in 1..CHANNEL_COUNT {
        assert!(h.muted[slot], "unused slot {slot} must report muted");
    }
}

#[test]
fn muted_flag_set_for_plus128_disabled_channels() {
    let mut settings = [0xFFu8; CHANNEL_COUNT];
    settings[0] = 0x00;
    settings[1] = 0x01;
    settings[2] = 0x82;
    settings[3] = 0x83;
    let bytes = build_min_header(settings);
    let h = parse_header(&bytes).unwrap();
    assert!(!h.muted[0]);
    assert!(!h.muted[1]);
    assert!(h.muted[2], "+128 disabled channel must be muted");
    assert!(h.muted[3]);
    assert_eq!(h.enabled_channels, 2);
}

#[test]
fn tracker_from_cwt_v_documented_prefixes() {
    assert_eq!(Tracker::from_cwt_v(0x1300), Tracker::ScreamTracker);
    assert_eq!(Tracker::from_cwt_v(0x1301), Tracker::ScreamTracker);
    assert_eq!(Tracker::from_cwt_v(0x1303), Tracker::ScreamTracker);
    assert_eq!(Tracker::from_cwt_v(0x1320), Tracker::ScreamTracker);
    assert_eq!(Tracker::from_cwt_v(0x1321), Tracker::ScreamTracker);
    assert_eq!(Tracker::from_cwt_v(0x2000), Tracker::ImagoOrpheus);
    assert_eq!(Tracker::from_cwt_v(0x3215), Tracker::ImpulseTracker);
    assert_eq!(Tracker::from_cwt_v(0x4050), Tracker::SchismTracker);
    assert_eq!(Tracker::from_cwt_v(0x5104), Tracker::OpenMpt);
}

#[test]
fn tracker_from_cwt_v_undocumented_nibbles_preserve_id() {
    assert_eq!(Tracker::from_cwt_v(0x0123), Tracker::Other(0));
    assert_eq!(Tracker::from_cwt_v(0x6abc), Tracker::Other(6));
    assert_eq!(Tracker::from_cwt_v(0xF000), Tracker::Other(0xF));
}

#[test]
fn created_with_tracker_splits_top_nibble_and_low_12_bits() {
    let st320 = CreatedWithTracker::from_raw(0x1320);
    assert_eq!(st320.raw, 0x1320);
    assert_eq!(st320.tracker, Tracker::ScreamTracker);
    assert_eq!(st320.version, 0x320);
    assert!(
        !st320.is_st3_00(),
        "0x1320 must NOT trigger the 0x1300 fast-slides auto-arm"
    );

    let st300 = CreatedWithTracker::from_raw(0x1300);
    assert_eq!(st300.tracker, Tracker::ScreamTracker);
    assert_eq!(st300.version, 0x300);
    assert!(st300.is_st3_00());

    let mpt = CreatedWithTracker::from_raw(0x51AB);
    assert_eq!(mpt.tracker, Tracker::OpenMpt);
    assert_eq!(mpt.version, 0x1AB);
    assert!(!mpt.is_st3_00());
}

#[test]
fn header_created_with_tracker_round_trips_raw_word() {
    let mut settings = [0xFFu8; CHANNEL_COUNT];
    settings[0] = 0x00;
    let mut bytes = build_min_header(settings);
    bytes[0x28..0x2A].copy_from_slice(&0x1301u16.to_le_bytes());
    let h = parse_header(&bytes).unwrap();
    assert_eq!(h.tracker_version, 0x1301);
    let cwt = h.created_with_tracker();
    assert_eq!(cwt.raw, 0x1301);
    assert_eq!(cwt.tracker, Tracker::ScreamTracker);
    assert_eq!(cwt.version, 0x301);
    assert!(!cwt.is_st3_00(), "0x1301 is past the ST3.00 sentinel");
}

#[test]
fn muted_flag_set_for_adlib_slots() {
    let mut settings = [0xFFu8; CHANNEL_COUNT];
    settings[0] = 0x10;
    settings[1] = 0x18;
    settings[2] = 0x1D;
    let bytes = build_min_header(settings);
    let h = parse_header(&bytes).unwrap();
    assert!(h.muted[0]);
    assert!(h.muted[1]);
    assert!(h.muted[2]);
    assert_eq!(h.enabled_channels, 0);
}

fn fault(bytes: &[u8]) -> S3mError {
    parse_header(bytes).unwrap_err()
}

#[test]
fn every_fault_has_its_error() {
    let good = build_min_header([0u8; CHANNEL_COUNT]);
    assert!(parse_header(&good).is_ok());
    assert_eq!(fault(&good[..0x5F]), S3mError::ShortHeader);
    assert_eq!(fault(&good[..0x60]), S3mError::ShortOrderTable);

    let mut b = good.clone();
    b[0x2F] = b'X';
    b[0x1D] = 0;
    assert_eq!(fault(&b), S3mError::MissingSignature);

    let mut b = good.clone();
    b[0x1D] = 0x1A;
    assert_eq!(fault(&b), S3mError::WrongType(0x1A));

    let mut b = good.clone();
    b[0x22] = 1;
    assert_eq!(fault(&b), S3mError::ShortInstrumentTable);

    // An instrument header past the end counts before a short pattern table.
    b.extend_from_slice(&[0x10, 0x00]);
    b[0x24] = 1;
    assert_eq!(fault(&b), S3mError::ShortInstrument);

    let mut b = good.clone();
    b[0x24] = 1;
    assert_eq!(fault(&b), S3mError::ShortPatternTable);
}

#[test]
fn header_fields_are_read_in_place() {
    let mut b = build_min_header([0u8; CHANNEL_COUNT]);
    b[..12].copy_from_slice(b"SONG NAME \0x");
    b[0x20] = 3;
    b[0x24] = 2;
    b[0x26..0x28].copy_from_slice(&0x0150u16.to_le_bytes());
    b[0x28..0x2A].copy_from_slice(&0x1320u16.to_le_bytes());
    b[0x2A] = 2;
    b[0x33] = 0x80 | 0x30;
    b[0x35] = 0xFC;
    b.truncate(0x60);
    b.extend_from_slice(&[0x01, 0xFE, 0xFF]);
    b.extend_from_slice(&[0x20, 0x00, 0x00, 0x01]);
    let h = parse_header(&b).unwrap();
    assert_eq!(h.song_name, "SONG NAME");
    assert_eq!((h.ord_num, h.ins_num, h.pat_num), (3, 0, 2));
    assert_eq!(h.flags, 0x0150);
    assert_eq!(h.tracker_version, 0x1320);
    assert_eq!(h.ffi, 2);
    assert_eq!((h.global_volume, h.initial_speed, h.initial_tempo), (64, 6, 125));
    assert_eq!(h.master_volume, 0x30);
    assert!(h.stereo);
    assert_eq!(h.default_pan_flag, 0xFC);
    assert_eq!(h.order, vec![0x01, 0xFE, 0xFF]);
    assert_eq!(h.pattern_offsets, vec![0x200, 0x1000]);
    assert_eq!(h.enabled_channels, 32);
}

#[test]
fn text_fields_are_decoded_and_trimmed() {
    let mut b = build_min_header([0u8; CHANNEL_COUNT]);
    b[..6].copy_from_slice(b"ab \t \0");
    assert_eq!(parse_header(&b).unwrap().song_name, "ab");
    // A byte that is no UTF-8 becomes the replacement character.
    b[..4].copy_from_slice(&[b'a', 0xFF, b'b', 0]);
    assert_eq!(parse_header(&b).unwrap().song_name, "a\u{FFFD}b");
    b[..28].copy_from_slice(&[b'z'; 28]);
    assert_eq!(parse_header(&b).unwrap().song_name.len(), 28);
}

#[test]
fn default_pan_comes_from_block_bank_or_middle() {
    let mut settings = [0xFFu8; CHANNEL_COUNT];
    settings[0] = 0x00;
    settings[1] = 0x09;
    settings[2] = 0x02;
    let mut b = build_min_header(settings);
    let mono = parse_header(&b).unwrap();
    assert_eq!(mono.pans, [7u8; CHANNEL_COUNT]);
    b[0x33] |= 0x80;
    let stereo = parse_header(&b).unwrap();
    assert_eq!(&stereo.pans[..4], &[3, 12, 3, 8]);
    b[0x35] = 0xFC;
    let mut block = [0u8; CHANNEL_COUNT];
    block[2] = 0x2A;
    b.extend_from_slice(&block);
    let explicit = parse_header(&b).unwrap();
    assert_eq!(&explicit.pans[..4], &[3, 12, 10, 8]);
    // A block that is cut short does not count.
    b.pop();
    assert_eq!(&parse_header(&b).unwrap().pans[..4], &[3, 12, 3, 8]);
    // In a mono module every channel is in the middle.
    b.push(0);
    b[0x33] &= 0x7F;
    assert_eq!(parse_header(&b).unwrap().pans, [7u8; CHANNEL_COUNT]);
}

#[test]
fn instrument_header_is_decoded() {
    let off = 0x20;
    let mut b = vec![0u8; off + INSTRUMENT_HEADER_SIZE];
    b[off] = 1;
    b[off + 1..off + 9].copy_from_slice(b"KICK.SMP");
    b[off + 0x0D] = 0x01;
    b[off + 0x0E..off + 0x10].copy_from_slice(&0x0203u16.to_le_bytes());
    b[off + 0x10..off + 0x14].copy_from_slice(&0x0001_2345u32.to_le_bytes());
    b[off + 0x14..off + 0x18].copy_from_slice(&0x00FF_0010u32.to_le_bytes());
    b[off + 0x18..off + 0x1C].copy_from_slice(&0xFFFF_0020u32.to_le_bytes());
    b[off + 0x1C] = 200;
    b[off + 0x1E] = 1;
    b[off + 0x1F] = 0x05;
    b[off + 0x20..off + 0x24].copy_from_slice(&0x0002_20ABu32.to_le_bytes());
    b[off + 0x30..off + 0x34].copy_from_slice(b"kick");
    b[off + 0x4C..off + 0x50].copy_from_slice(b"SCRS");
    let inst = parse_instrument(&b, off).unwrap();
    assert!(inst.is_pcm());
    assert_eq!(inst.dos_name, "KICK.SMP");
    assert_eq!(inst.sample_parapointer, 0x0001_0203);
    assert_eq!(inst.sample_byte_offset(), 0x0010_2030);
    assert_eq!((inst.length, inst.loop_start, inst.loop_end), (0x2345, 0x10, 0x20));
    assert_eq!(inst.volume, 64);
    assert_eq!(inst.pack, 1);
    assert!(inst.is_looped() && inst.is_16bit() && !inst.is_stereo());
    assert_eq!(inst.c5_speed, 0x20AB);
    assert_eq!(inst.name, "kick");
    assert_eq!(&inst.tag, b"SCRS");
    assert_eq!(&inst.registers[..4], &0x0001_2345u32.to_le_bytes());

    // Offset 0 is an empty slot, and one past the end an error.
    assert!(parse_instrument(&b, 0).unwrap().name.is_empty());
    assert_eq!(parse_instrument(&b, off + 1).unwrap_err(), S3mError::ShortInstrument);
    assert_eq!(parse_instrument(&b, usize::MAX).unwrap_err(), S3mError::ShortInstrument);
}

#[test]
fn auto_fast_slides_holds_within_scream_tracker_only() {
    assert!(CreatedWithTracker::from_raw(0x1300).auto_fast_slides());
    assert!(CreatedWithTracker::from_raw(0x12FF).auto_fast_slides());
    assert!(!CreatedWithTracker::from_raw(0x1301).auto_fast_slides());
    assert!(!CreatedWithTracker::from_raw(0x0ABC).auto_fast_slides());
}

#[test]
fn the_signature_tells_a_module() {
    let b = build_min_header([0u8; CHANNEL_COUNT]);
    assert!(has_signature(&b));
    assert!(has_signature(&b[..0x30]));
    assert!(!has_signature(&b[..0x2F]));
    assert!(!has_signature(&[0u8; 0x60]));
}
