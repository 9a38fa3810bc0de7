//! Scream Tracker 3 Module (S3M) header parser.
//!
//! S3M is little-endian and locates its parts through "parapointers":
//! 16-bit values that count 16-byte paragraphs. The header layout:
//!
//! ```text
//! 0x00  28 bytes  Song name (null-padded ASCII)
//! 0x1C   1 byte   0x1A (end-of-text marker)
//! 0x1D   1 byte   Type (0x10 = S3M)
//! 0x1E   2 bytes  Reserved
//! 0x20   2 bytes  OrdNum   - entries in order table (even count)
//! 0x22   2 bytes  InsNum   - number of instruments
//! 0x24   2 bytes  PatNum   - number of patterns
//! 0x26   2 bytes  Flags
//! 0x28   2 bytes  CwtV     - created with tracker / version
//! 0x2A   2 bytes  FFI      - 1 = signed samples, 2 = unsigned samples
//! 0x2C   4 bytes  "SCRM"   - signature
//! 0x30   1 byte   GV       - global volume
//! 0x31   1 byte   IS       - initial speed (ticks per row)
//! 0x32   1 byte   IT       - initial tempo (BPM)
//! 0x33   1 byte   MV       - master volume (bit 7 = stereo)
//! 0x34   1 byte   UC       - ultra-click removal
//! 0x35   1 byte   DP       - default pan flag (0xFC = pan block present)
//! 0x36   8 bytes  Reserved
//! 0x3E   2 bytes  Special
//! 0x40  32 bytes  Channel settings - 0..=7 left, 8..=15 right,
//!                  16..=31 AdLib, bit 7 set = muted, 0xFF = unused
//! 0x60  OrdNum    Order table - 0xFE = marker, 0xFF = end
//! ...   InsNum*2  Instrument parapointer table
//! ...   PatNum*2  Pattern parapointer table
//! ...   (optional) 32 bytes of default pan values (if DP == 0xFC)
//! ```
//!
//! Each instrument is 80 bytes starting at its parapointer, and each
//! pattern starts with a 2-byte length followed by packed rows.

use vstd::prelude::*;
use vstd::slice::{slice_subrange, slice_to_vec};

use crate::bytes::{has_bit, padded_text, read_padded_ascii, read_u16_le, read_u32_le, u16_at, u32_at};
use crate::error::S3mError;

verus! {

pub const S3M_SIGNATURE: &'static [u8; 4] = &[0x53, 0x43, 0x52, 0x4D];
pub const PATTERN_ROWS: usize = 64;
pub const CHANNEL_COUNT: usize = 32;
pub const INSTRUMENT_HEADER_SIZE: usize = 80;

/// The program that wrote a module, from the top nibble of `Cwt/v`.
#[derive(Clone, Copy, Debug, PartialEq, Eq, Structural)]
pub enum Tracker {
    /// `0x1xyy` - Scream Tracker x.yy (the canonical writer).
    ScreamTracker,
    /// `0x2xyy` - Imago Orpheus.
    ImagoOrpheus,
    /// `0x3xyy` - Impulse Tracker.
    ImpulseTracker,
    /// `0x4xyy` - Schism Tracker, with its own version numbering.
    SchismTracker,
    /// `0x5xyy` - OpenMPT.
    OpenMpt,
    /// Any other writer, with its nibble (`0`, `6..=15`).
    Other(u8),
}

impl Tracker {
    /// The tracker whose ID is `nibble`.
    pub open spec fn of_nibble(nibble: int) -> Tracker {
        if nibble == 1 {
            Tracker::ScreamTracker
        } else if nibble == 2 {
            Tracker::ImagoOrpheus
        } else if nibble == 3 {
            Tracker::ImpulseTracker
        } else if nibble == 4 {
            Tracker::SchismTracker
        } else if nibble == 5 {
            Tracker::OpenMpt
        } else {
            Tracker::Other(nibble as u8)
        }
    }

    /// The ID nibble that stands for this tracker in `Cwt/v`.
    pub open spec fn nibble(self) -> int {
        match self {
            Tracker::ScreamTracker => 1,
            Tracker::ImagoOrpheus => 2,
            Tracker::ImpulseTracker => 3,
            Tracker::SchismTracker => 4,
            Tracker::OpenMpt => 5,
            Tracker::Other(n) => n as int,
        }
    }

    /// Decode the tracker ID from the top nibble of a raw `Cwt/v` word.
    pub fn from_cwt_v(cwt_v: u16) -> (r: Tracker)
        ensures
            r == Tracker::of_nibble(cwt_v as int / 4096),
    {
        let nibble: u8 = (cwt_v / 4096) as u8;
        match nibble {
            1 => Tracker::ScreamTracker,
            2 => Tracker::ImagoOrpheus,
            3 => Tracker::ImpulseTracker,
            4 => Tracker::SchismTracker,
            5 => Tracker::OpenMpt,
            other => Tracker::Other(other),
        }
    }
}

/// A `Cwt/v` ("created with tracker / version") word taken apart: a 4-bit
/// tracker ID and a 12-bit version number, beside the word itself.
#[derive(Clone, Copy, Debug, PartialEq, Eq, Structural)]
pub struct CreatedWithTracker {
    /// The word as stored in the file.
    pub raw: u16,
    /// Tracker ID (top nibble).
    pub tracker: Tracker,
    /// The tracker's own version number (low 12 bits).
    pub version: u16,
}

impl CreatedWithTracker {
    /// The decomposition of `raw`.
    pub open spec fn of_raw(raw: u16) -> CreatedWithTracker {
        CreatedWithTracker {
            raw,
            tracker: Tracker::of_nibble(raw as int / 4096),
            version: raw % 4096,
        }
    }

    /// Decompose a raw `Cwt/v` word.
    pub fn from_raw(raw: u16) -> (r: Self)
        ensures
            r == CreatedWithTracker::of_raw(raw),
    {
        CreatedWithTracker { raw, tracker: Tracker::from_cwt_v(raw), version: raw % 4096 }
    }

    /// Whether the file was written by the original Scream Tracker 3.00.
    pub fn is_st3_00(&self) -> (r: bool)
        ensures
            r == (self.raw == 0x1300),
    {
        self.raw == 0x1300
    }

    /// Whether the writer is a Scream Tracker no later than 3.00, whose
    /// volume slides always run on tick 0 as well. The bound holds only
    /// within the Scream Tracker family: a smaller word of another writer
    /// says nothing about slides.
    pub fn auto_fast_slides(&self) -> (r: bool)
        ensures
            r == (self.tracker == Tracker::ScreamTracker && self.raw <= 0x1300),
    {
        self.tracker == Tracker::ScreamTracker && self.raw <= 0x1300
    }
}

/// The two parts of a `Cwt/v` word give the word back.
pub proof fn law_cwt_parts_give_word_back(raw: u16)
    ensures
        CreatedWithTracker::of_raw(raw).tracker.nibble() * 4096
            + CreatedWithTracker::of_raw(raw).version == raw,
        CreatedWithTracker::of_raw(raw).version < 4096,
{
}

/// Instrument type codes.
pub const INST_TYPE_EMPTY: u8 = 0;
pub const INST_TYPE_PCM: u8 = 1;
/// First of the AdLib types; 3..=7 are AdLib drums.
pub const INST_TYPE_ADLIB_MELODY: u8 = 2;

/// Sample flag bits (byte 0x1F of an instrument header).
pub const SAMPLE_FLAG_LOOP: u8 = 0x01;
pub const SAMPLE_FLAG_STEREO: u8 = 0x02;
pub const SAMPLE_FLAG_16BIT: u8 = 0x04;

/// An S3M instrument / sample definition (80 bytes in the file).
#[derive(Clone, Debug)]
pub struct Instrument {
    /// 1 = PCM sample, 0 = empty, 2..=7 = AdLib.
    pub kind: u8,
    /// Original DOS filename (12 bytes).
    pub dos_name: String,
    /// Parapointer to sample data.
    pub sample_parapointer: u32,
    /// Length in samples.
    pub length: u32,
    /// Loop start in samples.
    pub loop_start: u32,
    /// Loop end in samples.
    pub loop_end: u32,
    /// Default volume 0..=64.
    pub volume: u8,
    /// Packing scheme: 0 = plain PCM, 1 = DP30ADPCM.
    pub pack: u8,
    /// Flags: bit 0 loop, bit 1 stereo, bit 2 16-bit.
    pub flags: u8,
    /// C5 (middle-C) playback rate in Hz.
    pub c5_speed: u32,
    /// Instrument display name (28 bytes).
    pub name: String,
    /// `SCRS` for PCM, `SCRI` for AdLib.
    pub tag: [u8; 4],
    /// The eleven bytes at offset 0x10, which hold the OPL2 registers of
    /// an AdLib instrument.
    pub registers: [u8; 11],
}

impl Instrument {
    /// The instrument of an unused slot: every field zero or empty.
    pub open spec fn is_blank(self) -> bool {
        &&& self.kind == 0
        &&& self.dos_name@ == Seq::<char>::empty()
        &&& self.sample_parapointer == 0
        &&& self.length == 0
        &&& self.loop_start == 0
        &&& self.loop_end == 0
        &&& self.volume == 0
        &&& self.pack == 0
        &&& self.flags == 0
        &&& self.c5_speed == 0
        &&& self.name@ == Seq::<char>::empty()
        &&& self.tag@ == Seq::new(4, |i: int| 0u8)
        &&& self.registers@ == Seq::new(11, |i: int| 0u8)
    }

    /// The instrument that the 80 bytes `h` describe. The length, loop and
    /// C5-speed fields count only their low 16 bits; the volume stops at 64.
    pub open spec fn decodes(self, h: Seq<u8>) -> bool {
        &&& self.kind == h[0]
        &&& self.dos_name@ == padded_text(h.subrange(0x01, 0x0D))
        &&& self.sample_parapointer == 65536 * h[0x0D] + u16_at(h, 0x0E)
        &&& self.length == u32_at(h, 0x10) % 65536
        &&& self.loop_start == u32_at(h, 0x14) % 65536
        &&& self.loop_end == u32_at(h, 0x18) % 65536
        &&& self.volume == if h[0x1C] < 64 {
            h[0x1C]
        } else {
            64
        }
        &&& self.pack == h[0x1E]
        &&& self.flags == h[0x1F]
        &&& self.c5_speed == u32_at(h, 0x20) % 65536
        &&& self.name@ == padded_text(h.subrange(0x30, 0x4C))
        &&& self.tag@ == h.subrange(0x4C, 0x50)
        &&& self.registers@ == h.subrange(0x10, 0x1B)
    }

    pub fn is_pcm(&self) -> (r: bool)
        ensures
            r == (self.kind == INST_TYPE_PCM),
    {
        self.kind == INST_TYPE_PCM
    }

    /// Whether the loop flag is set and the loop window holds something.
    pub open spec fn loops(self) -> bool {
        has_bit(self.flags as int, 1) && self.loop_end > self.loop_start
    }

    pub fn is_looped(&self) -> (r: bool)
        ensures
            r == self.loops(),
    {
        self.flags % 2 == 1 && self.loop_end > self.loop_start
    }

    pub fn is_16bit(&self) -> (r: bool)
        ensures
            r == has_bit(self.flags as int, 4),
    {
        (self.flags / SAMPLE_FLAG_16BIT) % 2 == 1
    }

    pub fn is_stereo(&self) -> (r: bool)
        ensures
            r == has_bit(self.flags as int, 2),
    {
        (self.flags / SAMPLE_FLAG_STEREO) % 2 == 1
    }

    /// Byte offset where sample bytes begin.
    pub fn sample_byte_offset(&self) -> (r: usize)
        requires
            self.sample_parapointer * 16 <= usize::MAX,
        ensures
            r == self.sample_parapointer * 16,
    {
        self.sample_parapointer as usize * 16
    }
}

impl Default for Instrument {
    fn default() -> (r: Self)
        ensures
            r.is_blank(),
    {
        let tag: [u8; 4] = [0u8; 4];
        let registers: [u8; 11] = [0u8; 11];
        assert(tag@ == Seq::new(4, |i: int| 0u8));
        assert(registers@ == Seq::new(11, |i: int| 0u8));
        Instrument {
            kind: INST_TYPE_EMPTY,
            dos_name: String::new(),
            sample_parapointer: 0,
            length: 0,
            loop_start: 0,
            loop_end: 0,
            volume: 0,
            pack: 0,
            flags: 0,
            c5_speed: 0,
            name: String::new(),
            tag,
            registers,
        }
    }
}

/// Whether an instrument header at `off` lies within `len` bytes; offset 0
/// stands for an empty slot.
pub open spec fn instrument_fits(len: int, off: int) -> bool {
    off == 0 || off + 80 <= len
}

/// Parse a single 80-byte instrument header starting at `off`.
///
/// ```text
/// 0x00   1 byte   Type (1 = PCM)
/// 0x01  12 bytes  DOS filename
/// 0x0D   1 byte   MemSeg hi
/// 0x0E   2 bytes  MemSeg lo (LE)  - (hi << 16) | lo = parapointer
/// 0x10   4 bytes  Length (LE)        } AdLib instruments keep
/// 0x14   4 bytes  Loop start (LE)    } their registers here
/// 0x18   4 bytes  Loop end (LE)      }
/// 0x1C   1 byte   Default volume
/// 0x1D   1 byte   Reserved
/// 0x1E   1 byte   Pack (0 = plain, 1 = DP30ADPCM)
/// 0x1F   1 byte   Flags
/// 0x20   4 bytes  C5 speed (LE)
/// 0x24  12 bytes  Reserved
/// 0x30  28 bytes  Sample name
/// 0x4C   4 bytes  "SCRS" / "SCRI" tag
/// ```
pub fn parse_instrument(bytes: &[u8], off: usize) -> (r: Result<Instrument, S3mError>)
    ensures
        r is Ok <==> instrument_fits(bytes@.len() as int, off as int),
        r matches Ok(inst) ==> if off == 0 {
            inst.is_blank()
        } else {
            inst.decodes(bytes@.subrange(off as int, off + 80))
        },
        r matches Err(e) ==> e == S3mError::ShortInstrument,
{
    if off == 0 {
        return Ok(Instrument::default());
    }
    if off > bytes.len() || bytes.len() - off < INSTRUMENT_HEADER_SIZE {
        return Err(S3mError::ShortInstrument);
    }
    let h = slice_subrange(bytes, off, off + INSTRUMENT_HEADER_SIZE);
    let dos_name = read_padded_ascii(slice_subrange(h, 0x01, 0x0D));
    let name = read_padded_ascii(slice_subrange(h, 0x30, 0x4C));
    let mut tag: [u8; 4] = [0u8; 4];
    tag[0] = h[0x4C];
    tag[1] = h[0x4D];
    tag[2] = h[0x4E];
    tag[3] = h[0x4F];
    assert(tag@ == h@.subrange(0x4C, 0x50));
    let mut registers: [u8; 11] = [0u8; 11];
    let mut i: usize = 0;
    while i < 11
        invariant
            i <= 11,
            h@.len() == 80,
            forall|j: int| 0 <= j < i ==> registers@[j] == h@[0x10 + j],
        decreases 11 - i,
    {
        registers[i] = h[0x10 + i];
        i = i + 1;
    }
    assert(registers@ == h@.subrange(0x10, 0x1B));
    Ok(
        Instrument {
            kind: h[0],
            dos_name,
            sample_parapointer: h[0x0D] as u32 * 65536 + read_u16_le(h, 0x0E) as u32,
            length: read_u32_le(h, 0x10) % 65536,
            loop_start: read_u32_le(h, 0x14) % 65536,
            loop_end: read_u32_le(h, 0x18) % 65536,
            volume: if h[0x1C] < 64 {
                h[0x1C]
            } else {
                64
            },
            pack: h[0x1E],
            flags: h[0x1F],
            c5_speed: read_u32_le(h, 0x20) % 65536,
            name,
            tag,
            registers,
        },
    )
}

/// Parsed S3M top-level header with its order table, parapointer tables,
/// channel settings and default pan.
#[derive(Clone, Debug)]
pub struct S3mHeader {
    pub song_name: String,
    pub ord_num: u16,
    pub ins_num: u16,
    pub pat_num: u16,
    pub flags: u16,
    pub tracker_version: u16,
    /// 1 = signed samples, 2 = unsigned samples.
    pub ffi: u16,
    pub global_volume: u8,
    pub initial_speed: u8,
    pub initial_tempo: u8,
    pub master_volume: u8,
    /// True if bit 7 of the master volume byte is set.
    pub stereo: bool,
    /// 0xFC means that the 32 pan bytes at the end of the header are valid.
    pub default_pan_flag: u8,
    /// Channel settings, 32 entries: 0xFF = slot unused; bit 7 set = muted,
    /// though its pattern data is still read; otherwise the channel type
    /// (0..=7 left PCM, 8..=15 right PCM, 16..=31 AdLib).
    pub channels: [u8; 32],
    /// Pan values for 32 channels (0..=15), from the default pan block or
    /// from `channels` (left/right bank split).
    pub pans: [u8; 32],
    /// Channels that produce no audio: unused, muted, and AdLib slots.
    pub muted: [bool; 32],
    /// Raw order list (0xFE marker and 0xFF end entries preserved).
    pub order: Vec<u8>,
    /// Per-instrument definitions (parsed from parapointers).
    pub instruments: Vec<Instrument>,
    /// Per-pattern byte offsets in the file.
    pub pattern_offsets: Vec<u32>,
    /// Number of PCM channels that the module uses.
    pub enabled_channels: u8,
}

/// Where the order table ends.
pub open spec fn orders_end(b: Seq<u8>) -> int {
    0x60 + u16_at(b, 0x20)
}

/// Where the instrument parapointer table ends.
pub open spec fn instruments_end(b: Seq<u8>) -> int {
    orders_end(b) + 2 * u16_at(b, 0x22)
}

/// Where the pattern parapointer table ends.
pub open spec fn patterns_end(b: Seq<u8>) -> int {
    instruments_end(b) + 2 * u16_at(b, 0x24)
}

/// Byte offset of the header of instrument `i`.
pub open spec fn instrument_offset(b: Seq<u8>, i: int) -> int {
    16 * u16_at(b, orders_end(b) + 2 * i)
}

/// Byte offset of pattern `i`.
pub open spec fn pattern_offset(b: Seq<u8>, i: int) -> int {
    16 * u16_at(b, instruments_end(b) + 2 * i)
}

/// Whether every instrument header lies within the file.
pub open spec fn instruments_fit(b: Seq<u8>) -> bool {
    forall|i: int|
        0 <= i < u16_at(b, 0x22) ==> instrument_fits(
            b.len() as int,
            #[trigger] instrument_offset(b, i),
        )
}

/// The first fault of the file `b`, if it has one.
pub open spec fn header_fault(b: Seq<u8>) -> Option<S3mError> {
    if b.len() < 0x60 {
        Some(S3mError::ShortHeader)
    } else if b.subrange(0x2C, 0x30) != S3M_SIGNATURE@ {
        Some(S3mError::MissingSignature)
    } else if b[0x1D] != 0x10 {
        Some(S3mError::WrongType(b[0x1D]))
    } else if b.len() < orders_end(b) {
        Some(S3mError::ShortOrderTable)
    } else if b.len() < instruments_end(b) {
        Some(S3mError::ShortInstrumentTable)
    } else if !instruments_fit(b) {
        Some(S3mError::ShortInstrument)
    } else if b.len() < patterns_end(b) {
        Some(S3mError::ShortPatternTable)
    } else {
        None
    }
}

/// The pan in the middle of the stereo image.
pub const CENTRE_PAN: u8 = 7;

/// The side of the stereo image that a channel belongs to.
#[derive(Clone, Copy, Debug, PartialEq, Eq, Structural)]
pub enum Bank {
    Left,
    Right,
    /// The slot is unused.
    Neither,
}

impl Bank {
    /// The bank of a channel with this setting.
    pub open spec fn of_setting(setting: u8) -> Bank {
        if setting == 0xFF {
            Bank::Neither
        } else if setting % 16 < 8 {
            Bank::Left
        } else {
            Bank::Right
        }
    }

    /// The pan of the bank: left at 3, right at 12, unused slots in the
    /// middle.
    pub open spec fn position(self) -> u8 {
        match self {
            Bank::Left => 3,
            Bank::Right => 12,
            Bank::Neither => 8,
        }
    }

    /// The bank on the other side.
    pub open spec fn opposite(self) -> Bank {
        match self {
            Bank::Left => Bank::Right,
            Bank::Right => Bank::Left,
            Bank::Neither => Bank::Neither,
        }
    }

    pub fn from_setting(setting: u8) -> (r: Self)
        ensures
            r == Bank::of_setting(setting),
    {
        if setting == 0xFF {
            Bank::Neither
        } else if setting % 16 < 8 {
            Bank::Left
        } else {
            Bank::Right
        }
    }

    /// The pan of the bank.
    pub fn pan(self) -> (r: u8)
        ensures
            r == self.position(),
    {
        match self {
            Bank::Left => 0x03,
            Bank::Right => 0x0C,
            Bank::Neither => 0x08,
        }
    }

    /// The bank on the other side.
    pub fn swapped(self) -> (r: Self)
        ensures
            r == self.opposite(),
    {
        match self {
            Bank::Left => Bank::Right,
            Bank::Right => Bank::Left,
            Bank::Neither => Bank::Neither,
        }
    }
}

/// The stereo pan of a channel that names none: that of its bank.
pub open spec fn bank_pan(setting: u8) -> u8 {
    Bank::of_setting(setting).position()
}

/// The pan of channel `i`: the centre in a mono module; in a stereo module the
/// position in the pan block where that gives one (bit 5), else that of the
/// channel's bank.
pub open spec fn pan_of(b: Seq<u8>, i: int) -> u8 {
    if b[0x33] < 128 {
        CENTRE_PAN
    } else if b[0x35] == 0xFC && b.len() >= patterns_end(b) + 32 && has_bit(
        b[patterns_end(b) + i] as int,
        32,
    ) {
        b[patterns_end(b) + i] % 16
    } else {
        bank_pan(b[0x40 + i])
    }
}

/// Whether a channel with this setting is silent: unused (0xFF), muted
/// (bit 7) or an AdLib slot.
pub open spec fn is_muted(setting: u8) -> bool {
    setting == 0xFF || has_bit(setting as int, 128) || setting % 128 >= 16
}

/// How many of the settings name a PCM channel.
pub open spec fn pcm_channels(settings: Seq<u8>) -> nat
    decreases settings.len(),
{
    if settings.len() == 0 {
        0
    } else {
        pcm_channels(settings.drop_last()) + if settings.last() < 16 {
            1nat
        } else {
            0
        }
    }
}

impl S3mHeader {
    /// The header of the file `b`.
    pub open spec fn decodes(self, b: Seq<u8>) -> bool {
        &&& self.song_name@ == padded_text(b.subrange(0, 0x1C))
        &&& self.ord_num == u16_at(b, 0x20)
        &&& self.ins_num == u16_at(b, 0x22)
        &&& self.pat_num == u16_at(b, 0x24)
        &&& self.flags == u16_at(b, 0x26)
        &&& self.tracker_version == u16_at(b, 0x28)
        &&& self.ffi == u16_at(b, 0x2A)
        &&& self.global_volume == b[0x30]
        &&& self.initial_speed == b[0x31]
        &&& self.initial_tempo == b[0x32]
        &&& self.master_volume == b[0x33] % 128
        &&& self.stereo == (b[0x33] >= 128)
        &&& self.default_pan_flag == b[0x35]
        &&& self.channels@ == b.subrange(0x40, 0x60)
        &&& self.pans@ == Seq::new(32, |i: int| pan_of(b, i))
        &&& self.muted@ == Seq::new(32, |i: int| is_muted(b[0x40 + i]))
        &&& self.order@ == b.subrange(0x60, orders_end(b))
        &&& self.instruments@.len() == u16_at(b, 0x22)
        &&& forall|i: int|
            0 <= i < self.instruments@.len() ==> if instrument_offset(b, i) == 0 {
                (#[trigger] self.instruments@[i]).is_blank()
            } else {
                self.instruments@[i].decodes(
                    b.subrange(instrument_offset(b, i), instrument_offset(b, i) + 80),
                )
            }
        &&& self.pattern_offsets@.len() == u16_at(b, 0x24)
        &&& forall|i: int|
            0 <= i < self.pattern_offsets@.len() ==> #[trigger] self.pattern_offsets@[i]
                == pattern_offset(b, i)
        &&& self.enabled_channels == pcm_channels(b.subrange(0x40, 0x60))
    }

    /// The `Cwt/v` field taken apart.
    pub fn created_with_tracker(&self) -> (r: CreatedWithTracker)
        ensures
            r == CreatedWithTracker::of_raw(self.tracker_version),
    {
        CreatedWithTracker::from_raw(self.tracker_version)
    }
}

/// The stereo pan that the channel's bank implies.
fn stereo_default_pan(setting: u8) -> (r: u8)
    ensures
        r == bank_pan(setting),
{
    Bank::from_setting(setting).pan()
}

/// The pan of every channel of a module whose pan block, if it has one,
/// starts at `pan_start`.
fn resolve_pans(bytes: &[u8], pan_start: usize) -> (r: [u8; 32])
    requires
        bytes@.len() >= 0x60,
        pan_start == patterns_end(bytes@),
        bytes@.len() >= pan_start,
    ensures
        r@ == Seq::new(32, |i: int| pan_of(bytes@, i)),
{
    let stereo = bytes[0x33] >= 128;
    let has_block = bytes[0x35] == 0xFC && bytes.len() - pan_start >= CHANNEL_COUNT;
    let mut pans: [u8; 32] = [0u8; 32];
    let mut i: usize = 0;
    while i < 32
        invariant
            i <= 32,
            bytes@.len() >= 0x60,
            pan_start == patterns_end(bytes@),
            bytes@.len() >= pan_start,
            stereo == (bytes@[0x33] >= 128),
            has_block == (bytes@[0x35] == 0xFC && bytes@.len() >= pan_start + 32),
            forall|j: int| 0 <= j < i ==> pans@[j] == pan_of(bytes@, j),
        decreases 32 - i,
    {
        if !stereo {
            pans[i] = CENTRE_PAN;
        } else if has_block && (bytes[pan_start + i] / 0x20) % 2 == 1 {
            pans[i] = bytes[pan_start + i] % 16;
        } else {
            pans[i] = stereo_default_pan(bytes[0x40 + i]);
        }
        i = i + 1;
    }
    assert(pans@ == Seq::new(32, |i: int| pan_of(bytes@, i)));
    pans
}

/// The channel settings, the mute flag of each channel, and the number of
/// PCM channels.
fn read_channels(bytes: &[u8]) -> (r: ([u8; 32], [bool; 32], u8))
    requires
        bytes@.len() >= 0x60,
    ensures
        r.0@ == bytes@.subrange(0x40, 0x60),
        r.1@ == Seq::new(32, |i: int| is_muted(bytes@[0x40 + i])),
        r.2 == pcm_channels(bytes@.subrange(0x40, 0x60)),
{
    let mut channels: [u8; 32] = [0u8; 32];
    let mut muted: [bool; 32] = [false; 32];
    let mut enabled: u8 = 0;
    let mut i: usize = 0;
    while i < 32
        invariant
            i <= 32,
            bytes@.len() >= 0x60,
            enabled <= i,
            enabled == pcm_channels(bytes@.subrange(0x40, 0x40 + i)),
            forall|j: int| 0 <= j < i ==> channels@[j] == bytes@[0x40 + j],
            forall|j: int| 0 <= j < i ==> muted@[j] == is_muted(bytes@[0x40 + j]),
        decreases 32 - i,
    {
        let setting: u8 = bytes[0x40 + i];
        channels[i] = setting;
        muted[i] = setting == 0xFF || (setting / 128) % 2 == 1 || setting % 128 >= 16;
        if setting < 16 {
            enabled = enabled + 1;
        }
        assert(bytes@.subrange(0x40, 0x40 + i + 1).drop_last() == bytes@.subrange(0x40, 0x40 + i));
        i = i + 1;
    }
    assert(channels@ == bytes@.subrange(0x40, 0x60));
    assert(muted@ == Seq::new(32, |i: int| is_muted(bytes@[0x40 + i])));
    (channels, muted, enabled)
}

/// Whether the signature stands at offset 0x2C, which is how an S3M file is
/// told from others.
pub fn has_signature(bytes: &[u8]) -> (r: bool)
    ensures
        r == (bytes@.len() >= 0x30 && bytes@.subrange(0x2C, 0x30) == S3M_SIGNATURE@),
{
    if bytes.len() < 0x30 {
        return false;
    }
    let r = bytes[0x2C] == S3M_SIGNATURE[0] && bytes[0x2D] == S3M_SIGNATURE[1] && bytes[0x2E]
        == S3M_SIGNATURE[2] && bytes[0x2F] == S3M_SIGNATURE[3];
    proof {
        let found = bytes@.subrange(0x2C, 0x30);
        assert(forall|k: int| 0 <= k < 4 ==> found[k] == bytes@[0x2C + k]);
        if r {
            assert(found == S3M_SIGNATURE@);
        } else {
            assert(found[0] != S3M_SIGNATURE@[0] || found[1] != S3M_SIGNATURE@[1] || found[2]
                != S3M_SIGNATURE@[2] || found[3] != S3M_SIGNATURE@[3]);
        }
    }
    r
}

/// Parse the instruments that the parapointer table at `table` names.
fn parse_instruments(bytes: &[u8], table: usize, count: usize) -> (r: Result<
    Vec<Instrument>,
    S3mError,
>)
    requires
        bytes@.len() >= 0x60,
        table == orders_end(bytes@),
        count == u16_at(bytes@, 0x22),
        bytes@.len() >= instruments_end(bytes@),
    ensures
        r is Ok <==> instruments_fit(bytes@),
        r matches Ok(list) ==> list@.len() == count && forall|i: int|
            0 <= i < list@.len() ==> if instrument_offset(bytes@, i) == 0 {
                (#[trigger] list@[i]).is_blank()
            } else {
                list@[i].decodes(
                    bytes@.subrange(
                        instrument_offset(bytes@, i),
                        instrument_offset(bytes@, i) + 80,
                    ),
                )
            },
        r matches Err(e) ==> e == S3mError::ShortInstrument,
{
    let mut list: Vec<Instrument> = Vec::new();
    let mut i: usize = 0;
    while i < count
        invariant
            i <= count,
            bytes@.len() >= 0x60,
            table == orders_end(bytes@),
            count == u16_at(bytes@, 0x22),
            bytes@.len() >= instruments_end(bytes@),
            list@.len() == i,
            forall|j: int|
                0 <= j < i ==> instrument_fits(
                    bytes@.len() as int,
                    #[trigger] instrument_offset(bytes@, j),
                ),
            forall|j: int|
                0 <= j < i ==> if instrument_offset(bytes@, j) == 0 {
                    (#[trigger] list@[j]).is_blank()
                } else {
                    list@[j].decodes(
                        bytes@.subrange(
                            instrument_offset(bytes@, j),
                            instrument_offset(bytes@, j) + 80,
                        ),
                    )
                },
        decreases count - i,
    {
        let off: usize = read_u16_le(bytes, table + 2 * i) as usize * 16;
        assert(off == instrument_offset(bytes@, i as int));
        match parse_instrument(bytes, off) {
            Ok(inst) => {
                list.push(inst);
            },
            Err(e) => {
                return Err(e);
            },
        }
        i = i + 1;
    }
    Ok(list)
}

/// The byte offsets that the pattern parapointer table at `table` names.
fn read_pattern_offsets(bytes: &[u8], table: usize, count: usize) -> (r: Vec<u32>)
    requires
        bytes@.len() >= 0x60,
        table == instruments_end(bytes@),
        count == u16_at(bytes@, 0x24),
        bytes@.len() >= patterns_end(bytes@),
    ensures
        r@.len() == count,
        forall|i: int| 0 <= i < r@.len() ==> #[trigger] r@[i] == pattern_offset(bytes@, i),
{
    let mut offsets: Vec<u32> = Vec::new();
    let mut i: usize = 0;
    while i < count
        invariant
            i <= count,
            bytes@.len() >= 0x60,
            table == instruments_end(bytes@),
            count == u16_at(bytes@, 0x24),
            bytes@.len() >= patterns_end(bytes@),
            offsets@.len() == i,
            forall|j: int| 0 <= j < i ==> #[trigger] offsets@[j] == pattern_offset(bytes@, j),
        decreases count - i,
    {
        offsets.push(read_u16_le(bytes, table + 2 * i) as u32 * 16);
        i = i + 1;
    }
    offsets
}

/// Validate the S3M signature and parse the full header.
pub fn parse_header(bytes: &[u8]) -> (r: Result<S3mHeader, S3mError>)
    ensures
        r matches Ok(h) ==> header_fault(bytes@) is None && h.decodes(bytes@),
        r matches Err(e) ==> header_fault(bytes@) == Some(e),
{
    if bytes.len() < 0x60 {
        return Err(S3mError::ShortHeader);
    }
    if !has_signature(bytes) {
        return Err(S3mError::MissingSignature);
    }
    if bytes[0x1D] != 0x10 {
        return Err(S3mError::WrongType(bytes[0x1D]));
    }
    let song_name = read_padded_ascii(slice_subrange(bytes, 0x00, 0x1C));
    let ord_num: u16 = read_u16_le(bytes, 0x20);
    let ins_num: u16 = read_u16_le(bytes, 0x22);
    let pat_num: u16 = read_u16_le(bytes, 0x24);
    let master_volume_raw: u8 = bytes[0x33];

    let ord_end: usize = 0x60 + ord_num as usize;
    if bytes.len() < ord_end {
        return Err(S3mError::ShortOrderTable);
    }
    let order = slice_to_vec(slice_subrange(bytes, 0x60, ord_end));

    let ins_table_end: usize = ord_end + ins_num as usize * 2;
    if bytes.len() < ins_table_end {
        return Err(S3mError::ShortInstrumentTable);
    }
    let instruments = match parse_instruments(bytes, ord_end, ins_num as usize) {
        Ok(list) => list,
        Err(e) => {
            return Err(e);
        },
    };

    let pat_table_end: usize = ins_table_end + pat_num as usize * 2;
    if bytes.len() < pat_table_end {
        return Err(S3mError::ShortPatternTable);
    }
    let pattern_offsets = read_pattern_offsets(bytes, ins_table_end, pat_num as usize);
    let pans = resolve_pans(bytes, pat_table_end);
    let (channels, muted, enabled_channels) = read_channels(bytes);

    Ok(
        S3mHeader {
            song_name,
            ord_num,
            ins_num,
            pat_num,
            flags: read_u16_le(bytes, 0x26),
            tracker_version: read_u16_le(bytes, 0x28),
            ffi: read_u16_le(bytes, 0x2A),
            global_volume: bytes[0x30],
            initial_speed: bytes[0x31],
            initial_tempo: bytes[0x32],
            master_volume: master_volume_raw % 128,
            stereo: master_volume_raw >= 128,
            default_pan_flag: bytes[0x35],
            channels,
            pans,
            muted,
            order,
            instruments,
            pattern_offsets,
            enabled_channels,
        },
    )
}

/// The muted channels are those that do not count as enabled.
pub proof fn law_muted_iff_not_pcm(setting: u8)
    ensures
        is_muted(setting) <==> setting >= 16,
        pcm_channels(seq![setting]) == if is_muted(setting) {
            0nat
        } else {
            1
        },
{
    reveal_with_fuel(pcm_channels, 2);
}

/// Every channel pan is a 4-bit position, whatever the file holds.
pub proof fn law_pans_are_nibbles(b: Seq<u8>, i: int)
    ensures
        pan_of(b, i) < 16,
{
}

/// An instrument header that is written with these values reads back with
/// them, as far as the fields count: 24 bits of parapointer and 16 of
/// length, loop and C5 speed, the low bytes first.
pub proof fn law_instrument_reads_back(
    inst: Instrument,
    h: Seq<u8>,
    parapointer: int,
    length: int,
    loop_start: int,
    loop_end: int,
    c5_speed: int,
)
    requires
        inst.decodes(h),
        h.len() == 80,
        0 <= parapointer < 16777216,
        h[0x0D] == parapointer / 65536,
        h[0x0E] == parapointer % 256,
        h[0x0F] == (parapointer / 256) % 256,
        0 <= length < 65536,
        h[0x10] == length % 256,
        h[0x11] == length / 256,
        0 <= loop_start < 65536,
        h[0x14] == loop_start % 256,
        h[0x15] == loop_start / 256,
        0 <= loop_end < 65536,
        h[0x18] == loop_end % 256,
        h[0x19] == loop_end / 256,
        0 <= c5_speed < 65536,
        h[0x20] == c5_speed % 256,
        h[0x21] == c5_speed / 256,
    ensures
        inst.kind == h[0],
        inst.sample_parapointer == parapointer,
        inst.length == length,
        inst.loop_start == loop_start,
        inst.loop_end == loop_end,
        inst.c5_speed == c5_speed,
        inst.volume == h[0x1C] || h[0x1C] > 64 && inst.volume == 64,
        inst.pack == h[0x1E],
        inst.flags == h[0x1F],
        inst.registers@.len() == 11,
        forall|i: int| 0 <= i < 11 ==> #[trigger] inst.registers@[i] == h[0x10 + i],
        inst.tag@.len() == 4,
        forall|i: int| 0 <= i < 4 ==> #[trigger] inst.tag@[i] == h[0x4C + i],
        inst.dos_name@ == padded_text(h.subrange(1, 13)),
        inst.name@ == padded_text(h.subrange(0x30, 76)),
{
}

/// Of two instrument headers the one with the larger volume byte has the
/// larger default volume, and where both bytes are at most 64 the volumes
/// differ by as much as the bytes.
pub proof fn law_default_volume_follows_its_byte(
    a: Instrument,
    g: Seq<u8>,
    b: Instrument,
    h: Seq<u8>,
)
    requires
        a.decodes(g),
        b.decodes(h),
        g[0x1C] <= h[0x1C],
    ensures
        a.volume <= b.volume <= 64,
        h[0x1C] <= 64 ==> b.volume - a.volume == h[0x1C] - g[0x1C],
        g[0x1C] == 0 ==> a.volume == 0,
{
}

/// The flag bits of an instrument: bit 0 loops it, where the window holds
/// something, and the others have no say in that.
pub proof fn law_loop_flag(inst: Instrument)
    ensures
        inst.loops() <==> inst.flags % 2 == 1 && inst.loop_start < inst.loop_end,
        INST_TYPE_PCM == 1,
        INST_TYPE_EMPTY == 0,
        INST_TYPE_ADLIB_MELODY == 2,
{
}

/// The fields of a file header stand at fixed places, 16-bit words with the
/// low byte first.
pub proof fn law_header_fields(h: S3mHeader, b: Seq<u8>)
    requires
        h.decodes(b),
        b.len() >= 0x60,
    ensures
        h.song_name@ == padded_text(b.subrange(0, 28)),
        h.ord_num == b[0x20] + 256 * b[0x21],
        h.ins_num == b[0x22] + 256 * b[0x23],
        h.pat_num == b[0x24] + 256 * b[0x25],
        h.flags == b[0x26] + 256 * b[0x27],
        h.tracker_version == b[0x28] + 256 * b[0x29],
        h.ffi == b[0x2A] + 256 * b[0x2B],
        h.global_volume == b[0x30],
        h.initial_speed == b[0x31],
        h.initial_tempo == b[0x32],
        h.stereo <==> b[0x33] >= 128,
        h.master_volume + if h.stereo {
            128int
        } else {
            0
        } == b[0x33],
        h.default_pan_flag == b[0x35],
        h.channels@.len() == 32,
        forall|i: int| 0 <= i < 32 ==> #[trigger] h.channels@[i] == b[0x40 + i],
{
}

/// The three tables follow each other from 0x60 on: one byte per order, then
/// a word per instrument, then a word per pattern. A word counts paragraphs
/// of 16 bytes.
pub proof fn law_header_tables(h: S3mHeader, b: Seq<u8>, i: int)
    requires
        h.decodes(b),
        b.len() >= 0x60 + h.ord_num + 2 * h.ins_num + 2 * h.pat_num,
        0 <= i,
    ensures
        h.order@.len() == h.ord_num,
        i < h.ord_num ==> h.order@[i] == b[0x60 + i],
        h.instruments@.len() == h.ins_num,
        i < h.ins_num ==> ({
            let at = 0x60 + h.ord_num + 2 * i;
            let off = 16 * b[at] + 4096 * b[at + 1];
            if off == 0 {
                h.instruments@[i].kind == 0 && h.instruments@[i].length == 0
            } else {
                h.instruments@[i].decodes(b.subrange(off, off + 80))
            }
        }),
        h.pattern_offsets@.len() == h.pat_num,
        i < h.pat_num ==> ({
            let at = 0x60 + h.ord_num + 2 * h.ins_num + 2 * i;
            h.pattern_offsets@[i] == 16 * b[at] + 4096 * b[at + 1]
        }),
{
    if i < h.ins_num {
        let at = 0x60 + h.ord_num + 2 * i;
        assert(instrument_offset(b, i) == 16 * b[at] + 4096 * b[at + 1]);
        assert(if instrument_offset(b, i) == 0 {
            h.instruments@[i].is_blank()
        } else {
            h.instruments@[i].decodes(
                b.subrange(instrument_offset(b, i), instrument_offset(b, i) + 80),
            )
        });
    }
    if i < h.pat_num {
        assert(h.pattern_offsets@[i] == pattern_offset(b, i));
    }
}

/// The pan of a channel. A mono module has every channel at 7. A stereo one
/// takes the low nibble of the channel's byte in the pan block, where flag
/// and length say that there is one and the byte has 0x20 in it; otherwise
/// left slots are at 3 and right slots at 12.
pub proof fn law_channel_pans(h: S3mHeader, b: Seq<u8>, i: int)
    requires
        h.decodes(b),
        b.len() >= 0x60 + h.ord_num + 2 * h.ins_num + 2 * h.pat_num,
        0 <= i < 32,
    ensures
        !h.stereo ==> h.pans@[i] == 7,
        h.stereo ==> ({
            let block = 0x60 + h.ord_num + 2 * h.ins_num + 2 * h.pat_num;
            if b[0x35] == 0xFC && b.len() >= block + 32 && (b[block + i] / 32) % 2 == 1 {
                h.pans@[i] == b[block + i] % 16
            } else if b[0x40 + i] == 0xFF {
                h.pans@[i] == 8
            } else if b[0x40 + i] % 16 < 8 {
                h.pans@[i] == 3
            } else {
                h.pans@[i] == 12
            }
        }),
        h.pans@.len() == 32,
{
    assert(h.pans@[i] == pan_of(b, i));
}

/// A channel is muted exactly if its setting is not one of the sixteen PCM
/// slots, and those that are not muted are counted.
pub proof fn law_muted_channels(h: S3mHeader, b: Seq<u8>, i: int)
    requires
        h.decodes(b),
        b.len() >= 0x60,
        0 <= i < 32,
    ensures
        h.muted@[i] <==> b[0x40 + i] >= 16,
        h.enabled_channels <= 32,
        (forall|j: int| 0x40 <= j < 0x60 ==> b[j] >= 16) ==> h.enabled_channels == 0,
        (forall|j: int| 0x40 <= j < 0x60 ==> b[j] < 16) ==> h.enabled_channels == 32,
{
    let settings = b.subrange(0x40, 0x60);
    lemma_pcm_count(settings);
    if forall|j: int| 0x40 <= j < 0x60 ==> b[j] >= 16 {
        assert(forall|j: int| 0 <= j < 32 ==> settings[j] == b[0x40 + j]);
    }
    if forall|j: int| 0x40 <= j < 0x60 ==> b[j] < 16 {
        assert(forall|j: int| 0 <= j < 32 ==> settings[j] == b[0x40 + j]);
    }
}

proof fn lemma_pcm_count(settings: Seq<u8>)
    ensures
        pcm_channels(settings) <= settings.len(),
        (forall|j: int| 0 <= j < settings.len() ==> settings[j] >= 16) ==> pcm_channels(settings)
            == 0,
        (forall|j: int| 0 <= j < settings.len() ==> settings[j] < 16) ==> pcm_channels(settings)
            == settings.len(),
    decreases settings.len(),
{
    if settings.len() > 0 {
        lemma_pcm_count(settings.drop_last());
        if forall|j: int| 0 <= j < settings.len() ==> settings[j] >= 16 {
            assert(settings.last() >= 16);
        }
        if forall|j: int| 0 <= j < settings.len() ==> settings[j] < 16 {
            assert(settings.last() < 16);
        }
    }
}

/// Each more PCM slot adds one to the count of channels, wherever it stands.
pub proof fn law_each_pcm_slot_counts(before: Seq<u8>, setting: u8, after: Seq<u8>)
    ensures
        pcm_channels(before + seq![setting] + after) == pcm_channels(before + after)
            + if setting < 16 {
            1nat
        } else {
            0
        },
    decreases after.len(),
{
    if after.len() == 0 {
        assert(before + seq![setting] + after == before.push(setting));
        assert(before.push(setting).drop_last() == before);
        assert(before + after == before);
    } else {
        let rest = after.drop_last();
        law_each_pcm_slot_counts(before, setting, rest);
        assert((before + seq![setting] + after).drop_last() == before + seq![setting] + rest);
        assert((before + after).drop_last() == before + rest);
    }
}

/// A file is a module exactly if it is long enough for the header, has
/// "SCRM" at 0x2C and 0x10 at 0x1D, and holds its tables and the header of
/// every instrument that has one.
pub proof fn law_which_files_are_modules(b: Seq<u8>)
    ensures
        header_fault(b) is None <==> {
            &&& b.len() >= 0x60
            &&& b[0x2C] == 0x53 && b[0x2D] == 0x43 && b[0x2E] == 0x52 && b[0x2F] == 0x4D
            &&& b[0x1D] == 16
            &&& ({
                let orders = b[0x20] + 256 * b[0x21];
                let count = b[0x22] + 256 * b[0x23];
                &&& b.len() >= 0x60 + orders + 2 * count + 2 * (b[0x24] + 256 * b[0x25])
                &&& forall|i: int|
                    0 <= i < count ==> {
                        let off = #[trigger] instrument_offset(b, i);
                        &&& off == 16 * b[0x60 + orders + 2 * i] + 4096 * b[0x61 + orders + 2 * i]
                        &&& off == 0 || off + 80 <= b.len()
                    }
            })
        },
{
    if b.len() >= 0x60 {
        lemma_signature(b);
        let orders = b[0x20] + 256 * b[0x21];
        let count = b[0x22] + 256 * b[0x23];
        assert(orders_end(b) == 0x60 + orders);
        assert forall|i: int| 0 <= i < count implies #[trigger] instrument_offset(b, i) == 16 * b[0x60
            + orders + 2 * i] + 4096 * b[0x61 + orders + 2 * i] by {
            assert(b[0x60 + orders + 2 * i + 1] == b[0x61 + orders + 2 * i]);
        }
    }
}

proof fn lemma_signature(b: Seq<u8>)
    requires
        b.len() >= 0x60,
    ensures
        b.subrange(0x2C, 0x30) == S3M_SIGNATURE@ <==> b[0x2C] == 0x53 && b[0x2D] == 0x43 && b[0x2E]
            == 0x52 && b[0x2F] == 0x4D,
{
    let found = b.subrange(0x2C, 0x30);
    assert(found.len() == 4 && S3M_SIGNATURE@.len() == 4);
    assert(found[0] == b[0x2C] && found[1] == b[0x2D] && found[2] == b[0x2E] && found[3] == b[0x2F]);
    assert(S3M_SIGNATURE@[0] == 0x53 && S3M_SIGNATURE@[1] == 0x43 && S3M_SIGNATURE@[2] == 0x52
        && S3M_SIGNATURE@[3] == 0x4D);
    if b[0x2C] == 0x53 && b[0x2D] == 0x43 && b[0x2E] == 0x52 && b[0x2F] == 0x4D {
        assert(found =~= S3M_SIGNATURE@);
    }
}

/// What follows a module in a file does not make it less of one, and what is
/// missing at its end is named: the header first, then the signature, the
/// type, and the tables in their order.
pub proof fn law_faults(b: Seq<u8>, tail: Seq<u8>)
    ensures
        header_fault(b) is None ==> header_fault(b + tail) is None,
        b.len() < 0x60 <==> header_fault(b) == Some(S3mError::ShortHeader),
        b.len() >= 0x60 && b[0x2C] != 0x53 ==> header_fault(b) == Some(S3mError::MissingSignature),
        header_fault(b) == Some(S3mError::ShortOrderTable) ==> b.len() < 0x60 + b[0x20] + 256
            * b[0x21],
        header_fault(b) matches Some(S3mError::WrongType(t)) ==> t == b[0x1D] && t != 16,
{
    if b.len() >= 0x60 {
        lemma_signature(b);
    }
    if header_fault(b) is None {
        let c = b + tail;
        lemma_signature(c);
        assert(forall|i: int| 0 <= i < b.len() ==> #[trigger] c[i] == b[i]);
        assert(orders_end(c) == orders_end(b) && instruments_end(c) == instruments_end(b)
            && patterns_end(c) == patterns_end(b));
        assert forall|i: int| 0 <= i < u16_at(c, 0x22) implies instrument_fits(
            c.len() as int,
            #[trigger] instrument_offset(c, i),
        ) by {
            assert(instrument_offset(c, i) == instrument_offset(b, i));
            assert(instrument_fits(b.len() as int, instrument_offset(b, i)));
        }
    }
}

/// The banks lie opposite each other on both sides of the middle.
pub proof fn law_banks_are_opposite(setting: u8)
    ensures
        setting != 0xFF ==> Bank::of_setting(setting).position() + Bank::of_setting(
            setting,
        ).opposite().position() == 15,
        setting % 16 < 8 && setting != 0xFF ==> Bank::of_setting(setting).position() == 3,
        setting % 16 >= 8 && setting != 0xFF ==> Bank::of_setting(setting).position() == 12,
        Bank::of_setting(setting).opposite().opposite() == Bank::of_setting(setting),
{
}

/// The top nibble of the tracker word tells the writer, the same for every
/// version.
pub proof fn law_writer_is_top_nibble(raw: u16, version: u16)
    requires
        raw % 4096 == 0,
        version < 4096,
        raw + version <= 0xFFFF,
    ensures
        CreatedWithTracker::of_raw((raw + version) as u16).tracker == CreatedWithTracker::of_raw(
            raw,
        ).tracker,
        CreatedWithTracker::of_raw((raw + version) as u16).version == version,
        CreatedWithTracker::of_raw((raw + version) as u16).raw == raw + version,
        raw == 0x1000 <==> CreatedWithTracker::of_raw(raw).tracker == Tracker::ScreamTracker,
        raw == 0x2000 <==> CreatedWithTracker::of_raw(raw).tracker == Tracker::ImagoOrpheus,
        raw == 0x3000 <==> CreatedWithTracker::of_raw(raw).tracker == Tracker::ImpulseTracker,
        raw == 0x4000 <==> CreatedWithTracker::of_raw(raw).tracker == Tracker::SchismTracker,
        raw == 0x5000 <==> CreatedWithTracker::of_raw(raw).tracker == Tracker::OpenMpt,
{
}

/// An unused slot has no sample, no volume and no name.
pub proof fn law_unused_slot_is_empty(inst: Instrument)
    requires
        inst.is_blank(),
    ensures
        inst.kind == 0 && inst.volume == 0 && inst.flags == 0 && inst.pack == 0,
        inst.length == 0 && inst.loop_start == 0 && inst.loop_end == 0,
        inst.sample_parapointer == 0 && inst.c5_speed == 0,
        inst.name@.len() == 0 && inst.dos_name@.len() == 0,
        forall|i: int| 0 <= i < 11 ==> #[trigger] inst.registers@[i] == 0,
{
}

} // verus!
