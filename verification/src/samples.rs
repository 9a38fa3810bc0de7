//! Sample data extraction for S3M files.
//!
//! Each PCM instrument's sample body lives at 16 times its parapointer. S3M
//! samples can be:
//!
//! - **8-bit unsigned** (FFI = 2 in the header, the usual format).
//! - **8-bit signed** (FFI = 1, rare, older tools).
//! - **16-bit** (flag bit 2 set), little-endian.
//! - **Stereo** (flag bit 1 set), block-sequential: the whole left channel
//!   (`length` samples) is followed by the whole right channel.
//! - **DP30ADPCM** (pack byte 1), a table of 16 signed 8-bit deltas followed
//!   by one 4-bit code per sample, low nibble first. The 16-bit, stereo and
//!   FFI settings do not apply to packed data.
//!
//! Everything is converted to signed 16-bit.

use vstd::prelude::*;
use vstd::slice::slice_subrange;

use crate::bytes::{has_bit, u16_at};
use crate::header::{Instrument, S3mHeader, INST_TYPE_PCM};

verus! {

/// Pack byte of a DP30ADPCM sample.
pub const PACK_ADPCM: u8 = 1;

/// Decoded sample body ready for mixing.
#[derive(Clone, Debug)]
pub struct SampleBody {
    /// Signed 16-bit PCM; for stereo samples this is the left channel.
    /// Empty if the instrument had no data.
    pub pcm: Vec<i16>,
    /// Right channel for true-stereo samples, `None` for mono samples.
    pub pcm_right: Option<Vec<i16>>,
    /// Loop start in samples (0 if not looped).
    pub loop_start: u32,
    /// Loop end in samples (exclusive).
    pub loop_end: u32,
    /// Whether this sample should loop on playback.
    pub looped: bool,
    /// Default volume 0..=64.
    pub volume: u8,
    /// C5 (middle-C) playback rate in Hz.
    pub c5_speed: u32,
}

impl Default for SampleBody {
    fn default() -> (r: Self)
        ensures
            r.pcm@ == Seq::<i16>::empty(),
            r.pcm_right is None,
            r.loop_start == 0,
            r.loop_end == 0,
            !r.looped,
            r.volume == 0,
            r.c5_speed == 0,
    {
        SampleBody {
            pcm: Vec::new(),
            pcm_right: None,
            loop_start: 0,
            loop_end: 0,
            looped: false,
            volume: 0,
            c5_speed: 0,
        }
    }
}

/// The smaller of two numbers.
pub open spec fn least(a: int, b: int) -> int {
    if a < b {
        a
    } else {
        b
    }
}

/// A byte read as a two's-complement number.
pub open spec fn signed_byte(b: u8) -> int {
    if b < 128 {
        b as int
    } else {
        b - 256
    }
}

/// The 16-bit level of an 8-bit sample.
pub open spec fn level_of_byte(b: u8, signed: bool) -> int {
    if signed {
        256 * signed_byte(b)
    } else {
        256 * (b - 128)
    }
}

/// The level of a 16-bit sample.
pub open spec fn level_of_word(w: int, signed: bool) -> int {
    if !signed {
        w - 32768
    } else if w < 32768 {
        w
    } else {
        w - 65536
    }
}

/// The levels of the plain samples in `src`.
pub open spec fn levels(src: Seq<u8>, wide: bool, signed: bool) -> Seq<i16> {
    if wide {
        Seq::new(src.len() / 2, |i: int| level_of_word(u16_at(src, 2 * i), signed) as i16)
    } else {
        Seq::new(src.len(), |i: int| level_of_byte(src[i], signed) as i16)
    }
}

/// `right` cut or extended with silence to `n` samples.
pub open spec fn fitted(right: Seq<i16>, n: nat) -> Seq<i16> {
    Seq::new(
        n,
        |i: int|
            if i < right.len() {
                right[i]
            } else {
                0i16
            },
    )
}

/// The 4-bit code of packed sample `i`: low nibble first.
pub open spec fn code_at(codes: Seq<u8>, i: int) -> int {
    if i % 2 == 0 {
        codes[i / 2] as int % 16
    } else {
        codes[i / 2] as int / 16
    }
}

/// The sum of the deltas that the first `n` codes stand for.
pub open spec fn delta_sum(table: Seq<u8>, codes: Seq<u8>, n: int) -> int
    decreases n,
{
    if n <= 0 {
        0
    } else {
        delta_sum(table, codes, n - 1) + signed_byte(table[code_at(codes, n - 1)])
    }
}

/// `x` wrapped to the range of a signed byte.
pub open spec fn wrapped_byte(x: int) -> int {
    (x + 128) % 256 - 128
}

/// The levels of `n` packed samples: each adds its delta to a wrapping
/// signed byte.
pub open spec fn unpacked_levels(table: Seq<u8>, codes: Seq<u8>, n: nat) -> Seq<i16> {
    Seq::new(n, |i: int| (256 * wrapped_byte(delta_sum(table, codes, i + 1))) as i16)
}

/// What the file holds from an instrument's sample offset on, but no more
/// than `n` bytes.
pub open spec fn sample_bytes(inst: Instrument, b: Seq<u8>, n: int) -> Seq<u8> {
    let off = 16 * inst.sample_parapointer;
    if off >= b.len() {
        Seq::empty()
    } else {
        b.subrange(off, least(off + n, b.len() as int))
    }
}

impl Instrument {
    /// Whether the file holds at least one byte of this instrument's sample.
    pub open spec fn has_data(self, b: Seq<u8>) -> bool {
        self.kind == INST_TYPE_PCM && self.length > 0 && 16 * self.sample_parapointer < b.len()
    }

    /// Bytes per sample of one side.
    pub open spec fn sample_width(self) -> int {
        if has_bit(self.flags as int, 4) {
            2
        } else {
            1
        }
    }

    /// The bytes of the left (or only) side.
    pub open spec fn left_bytes(self, b: Seq<u8>) -> Seq<u8> {
        sample_bytes(self, b, self.length * self.sample_width())
    }

    /// The bytes of the right side of a stereo sample, which follow the left
    /// side at its declared length.
    pub open spec fn right_bytes(self, b: Seq<u8>) -> Seq<u8> {
        sample_bytes(self, b, 2 * self.length * self.sample_width()).skip(
            self.left_bytes(b).len() as int,
        )
    }

    /// The levels of the left (or only) side.
    pub open spec fn left_levels(self, b: Seq<u8>, signed: bool) -> Seq<i16> {
        if !self.has_data(b) {
            Seq::empty()
        } else if self.pack == PACK_ADPCM {
            let packed = b.skip(16 * self.sample_parapointer);
            if packed.len() < 16 {
                Seq::empty()
            } else {
                unpacked_levels(
                    packed.take(16),
                    packed.skip(16),
                    least(self.length as int, 2 * (packed.len() - 16)) as nat,
                )
            }
        } else {
            levels(self.left_bytes(b), has_bit(self.flags as int, 4), signed)
        }
    }

    /// The levels of the right side, as many as the left side has.
    pub open spec fn right_levels(self, b: Seq<u8>, signed: bool) -> Seq<i16> {
        fitted(
            levels(self.right_bytes(b), has_bit(self.flags as int, 4), signed),
            self.left_levels(b, signed).len(),
        )
    }

    /// Whether the sample has a right side of its own.
    pub open spec fn has_right(self, b: Seq<u8>) -> bool {
        self.has_data(b) && self.pack != PACK_ADPCM && has_bit(self.flags as int, 2)
    }
}

impl SampleBody {
    /// The body of `inst` in the file `b`.
    pub open spec fn decodes(self, inst: Instrument, b: Seq<u8>, signed: bool) -> bool {
        let n = self.pcm@.len() as int;
        &&& self.pcm@ == inst.left_levels(b, signed)
        &&& self.pcm_right is Some <==> inst.has_right(b)
        &&& self.pcm_right matches Some(right) ==> right@ == inst.right_levels(b, signed)
        &&& self.loop_start == least(inst.loop_start as int, n)
        &&& self.loop_end == least(inst.loop_end as int, n)
        &&& self.looped == (inst.loops() && self.loop_start < self.loop_end)
        &&& self.volume == inst.volume
        &&& self.c5_speed == if inst.c5_speed == 0 {
            1
        } else {
            inst.c5_speed
        }
    }

    /// Whether playback wraps inside the loop window.
    pub open spec fn loops(self) -> bool {
        self.looped && self.loop_end > self.loop_start
    }

    pub fn is_looped(&self) -> (r: bool)
        ensures
            r == self.loops(),
    {
        self.looped && self.loop_end > self.loop_start
    }

    pub fn loop_length(&self) -> (r: u32)
        ensures
            r == if self.loop_end > self.loop_start {
                self.loop_end - self.loop_start
            } else {
                0
            },
    {
        self.loop_end.saturating_sub(self.loop_start)
    }
}

/// Convert plain samples to 16-bit levels.
fn decode_levels(src: &[u8], wide: bool, signed: bool) -> (r: Vec<i16>)
    ensures
        r@ == levels(src@, wide, signed),
{
    let mut out: Vec<i16> = Vec::new();
    let len: usize = src.len();
    let n: usize = if wide {
        len / 2
    } else {
        len
    };
    let mut i: usize = 0;
    while i < n
        invariant
            i <= n,
            len == src@.len(),
            n == levels(src@, wide, signed).len(),
            out@.len() == i,
            forall|j: int| 0 <= j < i ==> out@[j] == levels(src@, wide, signed)[j],
        decreases n - i,
    {
        if wide {
            let w: i32 = src[2 * i] as i32 + 256 * (src[2 * i + 1] as i32);
            out.push(
                if !signed {
                    (w - 32768) as i16
                } else if w >= 32768 {
                    (w - 65536) as i16
                } else {
                    w as i16
                },
            );
        } else {
            let b: i32 = src[i] as i32;
            out.push(
                if !signed {
                    (256 * (b - 128)) as i16
                } else if b >= 128 {
                    (256 * (b - 256)) as i16
                } else {
                    (256 * b) as i16
                },
            );
        }
        i = i + 1;
    }
    assert(out@ == levels(src@, wide, signed));
    out
}

/// Cut or extend a right side to `n` samples.
fn fit(right: &Vec<i16>, n: usize) -> (r: Vec<i16>)
    ensures
        r@ == fitted(right@, n as nat),
{
    let mut out: Vec<i16> = Vec::new();
    let mut i: usize = 0;
    while i < n
        invariant
            i <= n,
            out@.len() == i,
            forall|j: int| 0 <= j < i ==> out@[j] == fitted(right@, n as nat)[j],
        decreases n - i,
    {
        if i < right.len() {
            out.push(right[i]);
        } else {
            out.push(0);
        }
        i = i + 1;
    }
    assert(out@ == fitted(right@, n as nat));
    out
}

/// Decode `n` DP30ADPCM samples.
fn unpack_adpcm(table: &[u8], codes: &[u8], n: usize) -> (r: Vec<i16>)
    requires
        table@.len() == 16,
        n <= 2 * codes@.len(),
    ensures
        r@ == unpacked_levels(table@, codes@, n as nat),
{
    let mut out: Vec<i16> = Vec::new();
    let mut level: i32 = 0;
    let mut i: usize = 0;
    while i < n
        invariant
            i <= n,
            table@.len() == 16,
            n <= 2 * codes@.len(),
            level == wrapped_byte(delta_sum(table@, codes@, i as int)),
            out@.len() == i,
            forall|j: int| 0 <= j < i ==> out@[j] == unpacked_levels(table@, codes@, n as nat)[j],
        decreases n - i,
    {
        let pair: u8 = codes[i / 2];
        let code: u8 = if i % 2 == 0 {
            pair % 16
        } else {
            pair / 16
        };
        let delta: u8 = table[code as usize];
        level = level + if delta < 128 {
            delta as i32
        } else {
            delta as i32 - 256
        };
        if level > 127 {
            level = level - 256;
        } else if level < -128 {
            level = level + 256;
        }
        i = i + 1;
        assert(level == wrapped_byte(delta_sum(table@, codes@, i as int)));
        out.push((256 * level) as i16);
    }
    assert(out@ == unpacked_levels(table@, codes@, n as nat));
    out
}

/// The sides of a sample that has data in the file.
fn decode_sides(inst: &Instrument, bytes: &[u8], signed_samples: bool) -> (r: (
    Vec<i16>,
    Option<Vec<i16>>,
))
    requires
        inst.has_data(bytes@),
    ensures
        r.0@ == inst.left_levels(bytes@, signed_samples),
        r.0@.len() <= u32::MAX,
        r.1 is Some <==> inst.has_right(bytes@),
        r.1 matches Some(right) ==> right@ == inst.right_levels(bytes@, signed_samples),
{
    let len: usize = bytes.len();
    let off: usize = inst.sample_byte_offset();
    let avail: usize = len - off;
    if inst.pack == PACK_ADPCM {
        let packed = slice_subrange(bytes, off, bytes.len());
        assert(packed@ == bytes@.skip(off as int));
        if avail < 16 {
            return (Vec::new(), None);
        }
        let table = slice_subrange(packed, 0, 16);
        let codes = slice_subrange(packed, 16, avail);
        assert(table@ == packed@.take(16));
        assert(codes@ == packed@.skip(16));
        let n: usize = if inst.length as u64 / 2 < (avail - 16) as u64 {
            inst.length as usize
        } else {
            2 * (avail - 16)
        };
        assert(n == least(inst.length as int, 2 * (packed@.len() - 16)));
        return (unpack_adpcm(table, codes, n), None);
    }
    let wide = inst.is_16bit();
    let side: u64 = inst.length as u64 * if wide {
        2
    } else {
        1
    };
    let left_end: usize = if side < avail as u64 {
        side as usize
    } else {
        avail
    };
    let left = slice_subrange(bytes, off, off + left_end);
    assert(left@ == inst.left_bytes(bytes@));
    let pcm = decode_levels(left, wide, signed_samples);
    if !inst.is_stereo() {
        return (pcm, None);
    }
    let right_end: usize = if 2 * side < avail as u64 {
        (2 * side) as usize
    } else {
        avail
    };
    let right = slice_subrange(bytes, off + left_end, off + right_end);
    assert(right@ == inst.right_bytes(bytes@));
    let fitting = fit(&decode_levels(right, wide, signed_samples), pcm.len());
    (pcm, Some(fitting))
}

/// Convert one instrument's raw bytes to a `SampleBody`.
///
/// `signed_samples` selects how to interpret plain PCM (FFI = 1 in the
/// file-format-info field).
pub fn decode_instrument(inst: &Instrument, bytes: &[u8], signed_samples: bool) -> (r: SampleBody)
    ensures
        r.decodes(*inst, bytes@, signed_samples),
{
    let c5_speed: u32 = if inst.c5_speed == 0 {
        1
    } else {
        inst.c5_speed
    };
    if !inst.is_pcm() || inst.length == 0 || inst.sample_parapointer as u64 * 16
        >= bytes.len() as u64 {
        return SampleBody { volume: inst.volume, c5_speed, ..Default::default() };
    }
    let (pcm, pcm_right) = decode_sides(inst, bytes, signed_samples);
    let n: u32 = pcm.len() as u32;
    let loop_start: u32 = if inst.loop_start < n {
        inst.loop_start
    } else {
        n
    };
    let loop_end: u32 = if inst.loop_end < n {
        inst.loop_end
    } else {
        n
    };
    let looped = inst.is_looped() && loop_end > loop_start;
    SampleBody { pcm, pcm_right, loop_start, loop_end, looped, volume: inst.volume, c5_speed }
}

/// Decode every instrument's sample body.
pub fn extract_samples(header: &S3mHeader, bytes: &[u8]) -> (r: Vec<SampleBody>)
    ensures
        r@.len() == header.instruments@.len(),
        forall|i: int|
            0 <= i < r@.len() ==> (#[trigger] r@[i]).decodes(
                header.instruments@[i],
                bytes@,
                header.ffi == 1,
            ),
{
    let signed_samples = header.ffi == 1;
    let mut bodies: Vec<SampleBody> = Vec::new();
    let mut i: usize = 0;
    while i < header.instruments.len()
        invariant
            i <= header.instruments@.len(),
            signed_samples == (header.ffi == 1),
            bodies@.len() == i,
            forall|j: int|
                0 <= j < i ==> (#[trigger] bodies@[j]).decodes(
                    header.instruments@[j],
                    bytes@,
                    header.ffi == 1,
                ),
        decreases header.instruments@.len() - i,
    {
        bodies.push(decode_instrument(&header.instruments[i], bytes, signed_samples));
        i = i + 1;
    }
    bodies
}

/// A right side is as long as the left one, and the loop window lies within
/// the samples, so one cursor serves both sides.
pub proof fn law_sides_and_loop_fit(body: SampleBody, inst: Instrument, b: Seq<u8>, signed: bool)
    requires
        body.decodes(inst, b, signed),
    ensures
        body.pcm_right matches Some(right) ==> right@.len() == body.pcm@.len(),
        body.loop_start <= body.pcm@.len(),
        body.loop_end <= body.pcm@.len(),
        body.loops() <==> body.looped,
        body.pcm@.len() <= inst.length,
        body.c5_speed >= 1,
{
    if inst.has_data(b) && inst.pack != PACK_ADPCM {
        assert(inst.left_bytes(b).len() <= inst.length * inst.sample_width());
        if has_bit(inst.flags as int, 4) {
            assert(inst.length * inst.sample_width() == 2 * inst.length);
        } else {
            assert(inst.length * inst.sample_width() == inst.length);
        }
    }
}

/// A packed sample does not depend on the 16-bit and stereo flags or on the
/// sign convention.
pub proof fn law_packed_data_ignores_format(
    inst: Instrument,
    other: Instrument,
    b: Seq<u8>,
    signed: bool,
    other_signed: bool,
)
    requires
        inst.pack == PACK_ADPCM,
        other == (Instrument { flags: other.flags, ..inst }),
    ensures
        inst.left_levels(b, signed) == other.left_levels(b, other_signed),
        !inst.has_right(b),
{
}

/// An 8-bit mono sample is as long as the instrument says, as far as the
/// file goes. Each byte of it becomes the high byte of a level: counted from
/// 128 where samples are unsigned, in two's complement where they are
/// signed.
pub proof fn law_bytes_become_levels(
    body: SampleBody,
    inst: Instrument,
    b: Seq<u8>,
    signed: bool,
    i: int,
)
    requires
        body.decodes(inst, b, signed),
        inst.kind == 1,
        inst.pack != 1,
        (inst.flags / 4) % 2 == 0,
        16 * inst.sample_parapointer < b.len(),
        0 <= i,
    ensures
        ({
            let off = 16 * inst.sample_parapointer;
            let n = body.pcm@.len();
            &&& n <= inst.length && off + n <= b.len()
            &&& n == inst.length || off + n == b.len()
            &&& i < n ==> if !signed {
                body.pcm@[i] == 256 * (b[off + i] - 128)
            } else if b[off + i] < 128 {
                body.pcm@[i] == 256 * b[off + i]
            } else {
                body.pcm@[i] == 256 * b[off + i] - 65536
            }
        }),
{
    assert(inst.length * inst.sample_width() == inst.length);
    if inst.length > 0 {
        let src = inst.left_bytes(b);
        assert(body.pcm@ == levels(src, false, signed));
        if i < body.pcm@.len() {
            assert(src[i] == b[16 * inst.sample_parapointer + i]);
        }
    }
}

/// A 16-bit mono sample takes two bytes per level, the low one first:
/// counted from 32768 where samples are unsigned, in two's complement where
/// they are signed.
pub proof fn law_words_become_levels(
    body: SampleBody,
    inst: Instrument,
    b: Seq<u8>,
    signed: bool,
    i: int,
)
    requires
        body.decodes(inst, b, signed),
        inst.kind == 1,
        inst.pack != 1,
        (inst.flags / 4) % 2 == 1,
        16 * inst.sample_parapointer < b.len(),
        0 <= i,
    ensures
        ({
            let off = 16 * inst.sample_parapointer;
            let n = body.pcm@.len();
            &&& n <= inst.length && off + 2 * n <= b.len()
            &&& n == inst.length || off + 2 * n + 2 > b.len()
            &&& i < n ==> ({
                let word = b[off + 2 * i] + 256 * b[off + 2 * i + 1];
                if !signed {
                    body.pcm@[i] == word - 32768
                } else if word < 32768 {
                    body.pcm@[i] == word
                } else {
                    body.pcm@[i] == word - 65536
                }
            })
        }),
{
    assert(inst.length * inst.sample_width() == 2 * inst.length);
    if inst.length > 0 {
        let src = inst.left_bytes(b);
        assert(body.pcm@ == levels(src, true, signed));
        if i < body.pcm@.len() {
            assert(src[2 * i] == b[16 * inst.sample_parapointer + 2 * i]);
            assert(src[2 * i + 1] == b[16 * inst.sample_parapointer + 2 * i + 1]);
        }
    }
}

/// The right side of an 8-bit stereo sample follows the left side at its
/// full length; where the file ends early it goes on in silence.
pub proof fn law_right_side_follows_left(
    body: SampleBody,
    inst: Instrument,
    b: Seq<u8>,
    signed: bool,
    i: int,
)
    requires
        body.decodes(inst, b, signed),
        inst.kind == 1,
        inst.pack != 1,
        (inst.flags / 4) % 2 == 0,
        inst.length > 0,
        16 * inst.sample_parapointer < b.len(),
        0 <= i < body.pcm@.len(),
    ensures
        body.pcm_right is Some <==> (inst.flags / 2) % 2 == 1,
        body.pcm_right matches Some(right) ==> ({
            let at = 16 * inst.sample_parapointer + inst.length + i;
            &&& right@.len() == body.pcm@.len()
            &&& at >= b.len() ==> right@[i] == 0
            &&& at < b.len() && !signed ==> right@[i] == 256 * (b[at] - 128)
            &&& at < b.len() && signed && b[at] < 128 ==> right@[i] == 256 * b[at]
            &&& at < b.len() && signed && b[at] >= 128 ==> right@[i] == 256 * b[at] - 65536
        }),
{
    let off = 16 * inst.sample_parapointer;
    assert(inst.length * inst.sample_width() == inst.length);
    assert(2 * inst.length * inst.sample_width() == 2 * inst.length);
    let left = inst.left_bytes(b);
    let right = inst.right_bytes(b);
    let both = sample_bytes(inst, b, 2 * inst.length);
    assert(right == both.skip(left.len() as int));
    if off + inst.length + i < b.len() {
        assert(left.len() == inst.length);
        assert(right[i] == b[off + inst.length + i]);
    }
}

/// The right side of a 16-bit stereo sample follows the left side at its
/// full length; where the file ends early it goes on in silence.
pub proof fn law_wide_right_side_follows_left(
    body: SampleBody,
    inst: Instrument,
    b: Seq<u8>,
    signed: bool,
    i: int,
)
    requires
        body.decodes(inst, b, signed),
        inst.kind == 1,
        inst.pack != 1,
        (inst.flags / 4) % 2 == 1,
        inst.length > 0,
        16 * inst.sample_parapointer < b.len(),
        0 <= i < body.pcm@.len(),
    ensures
        body.pcm_right is Some <==> (inst.flags / 2) % 2 == 1,
        body.pcm_right matches Some(right) ==> ({
            let at = 16 * inst.sample_parapointer + 2 * inst.length + 2 * i;
            let word = b[at] + 256 * b[at + 1];
            &&& right@.len() == body.pcm@.len()
            &&& at + 1 >= b.len() ==> right@[i] == 0
            &&& at + 1 < b.len() && !signed ==> right@[i] == word - 32768
            &&& at + 1 < b.len() && signed && word < 32768 ==> right@[i] == word
            &&& at + 1 < b.len() && signed && word >= 32768 ==> right@[i] == word - 65536
        }),
{
    let off = 16 * inst.sample_parapointer;
    assert(inst.length * inst.sample_width() == 2 * inst.length);
    assert(2 * inst.length * inst.sample_width() == 4 * inst.length);
    let left = inst.left_bytes(b);
    let right = inst.right_bytes(b);
    let both = sample_bytes(inst, b, 4 * inst.length);
    assert(right == both.skip(left.len() as int));
    let at = off + 2 * inst.length + 2 * i;
    if at + 1 < b.len() {
        assert(left.len() == 2 * inst.length);
        assert(right[2 * i] == b[at]);
        assert(right[2 * i + 1] == b[at + 1]);
    }
}

/// Packed samples run on: each level is the one before plus its delta, in
/// the high byte and wrapping, and the first is its own delta. The delta is
/// the table entry that a nibble names, the low nibble of a byte first; the
/// table takes the first 16 bytes.
pub proof fn law_packed_samples_run_on(
    body: SampleBody,
    inst: Instrument,
    b: Seq<u8>,
    signed: bool,
    i: int,
)
    requires
        body.decodes(inst, b, signed),
        inst.kind == 1,
        inst.pack == 1,
        16 * inst.sample_parapointer + 16 <= b.len(),
        inst.length > 0,
        0 <= i,
    ensures
        ({
            let off = 16 * inst.sample_parapointer;
            let n = body.pcm@.len();
            &&& n == inst.length || n == 2 * (b.len() - off - 16) && n < inst.length
            &&& i < n ==> ({
                let pair = b[off + 16 + i / 2];
                let delta = b[off + if i % 2 == 0 {
                    pair as int % 16
                } else {
                    pair as int / 16
                }];
                let before = if i == 0 {
                    0
                } else {
                    body.pcm@[i - 1] as int
                };
                (body.pcm@[i] - before - 256 * delta) % 65536 == 0 && body.pcm@[i] % 256 == 0
            })
        }),
{
    let off = 16 * inst.sample_parapointer;
    let packed = b.skip(off);
    let table = packed.take(16);
    let codes = packed.skip(16);
    let n = body.pcm@.len();
    assert(body.pcm@ == unpacked_levels(table, codes, n));
    if i < n {
        let pair = b[off + 16 + i / 2];
        assert(codes[i / 2] == pair);
        let code = code_at(codes, i);
        let delta = b[off + code];
        assert(table[code] == delta);
        assert(body.pcm@[i] == 256 * wrapped_byte(delta_sum(table, codes, i + 1)));
        assert(delta_sum(table, codes, i + 1) == delta_sum(table, codes, i) + signed_byte(delta));
        lemma_wrapping_sum(delta_sum(table, codes, i), delta);
        if i == 0 {
            assert(delta_sum(table, codes, 0) == 0);
        } else {
            assert(body.pcm@[i - 1] == 256 * wrapped_byte(delta_sum(table, codes, i - 1 + 1)));
        }
    }
}

proof fn lemma_wrapping_sum(sum: int, delta: u8)
    ensures
        (256 * wrapped_byte(sum + signed_byte(delta)) - 256 * wrapped_byte(sum) - 256 * delta)
            % 65536 == 0,
        -128 <= wrapped_byte(sum) <= 127,
{
    let a = (sum + 128) % 256;
    let d = signed_byte(delta);
    let c = (sum + d + 128) % 256;
    assert((c - a - d) % 256 == 0);
    let k = (c - a - d) / 256;
    assert(c - a - d == 256 * k);
    let e = if delta < 128 {
        0int
    } else {
        1
    };
    assert(d == delta - 256 * e);
    assert(256 * (c - 128) - 256 * (a - 128) - 256 * delta == 65536 * (k - e));
}

/// A sample keeps volume and C5 speed of its instrument, also where it has
/// no data, and the loop window as far as there is data. It loops exactly if
/// the instrument's flag says so and the window still holds something.
pub proof fn law_sample_keeps_settings(
    body: SampleBody,
    inst: Instrument,
    b: Seq<u8>,
    signed: bool,
)
    requires
        body.decodes(inst, b, signed),
    ensures
        body.volume == inst.volume,
        inst.c5_speed > 0 ==> body.c5_speed == inst.c5_speed,
        inst.c5_speed == 0 ==> body.c5_speed == 1,
        inst.loop_start <= body.pcm@.len() ==> body.loop_start == inst.loop_start,
        inst.loop_end <= body.pcm@.len() ==> body.loop_end == inst.loop_end,
        inst.loop_start > body.pcm@.len() ==> body.loop_start == body.pcm@.len(),
        inst.loop_end > body.pcm@.len() ==> body.loop_end == body.pcm@.len(),
        body.looped <==> inst.flags % 2 == 1 && body.loop_start < body.loop_end,
        inst.kind != 1 || inst.length == 0 || 16 * inst.sample_parapointer >= b.len()
            ==> body.pcm@.len() == 0 && body.pcm_right is None,
{
}

} // verus!
