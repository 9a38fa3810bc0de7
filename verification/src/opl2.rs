//! OPL2 (Yamaha YM3812) operator core for S3M AdLib instruments.
//!
//! Scream Tracker 3 modules can carry AdLib FM instruments (types 2..=7, tag
//! `SCRI`) beside PCM samples. Each stores the chip's per-operator register
//! bytes. This module decodes those bytes into operator parameters and
//! implements the integer side of the chip: the phase generator, the
//! log-sin / exponential waveform synthesis, the resolution of envelope
//! rates, and the stages that an envelope runs through.

use vstd::arithmetic::power2::{lemma2_to64, lemma_pow2_pos, lemma_pow2_unfold, pow2};
use vstd::bits::lemma_u32_shr_is_div;
use vstd::prelude::*;

use crate::bytes::has_bit;
use crate::header::{Instrument, INST_TYPE_ADLIB_MELODY};

verus! {

/// A full sine period is divided into this many phase steps.
pub const SINE_PERIOD: u32 = 1024;

/// The frequency multiplier (`MUL`) lookup. The duplicated 10/12/15 entries
/// are intrinsic to the OPL family; entry 0 stands for one half.
pub const MUL_TABLE: [u8; 16] = [1, 1, 2, 3, 4, 5, 6, 7, 8, 9, 10, 10, 12, 12, 15, 15];

/// `MUL` multiples times two, so that the half becomes 1.
pub const MUL_DOUBLED: [u8; 16] = [1, 2, 4, 6, 8, 10, 12, 14, 16, 18, 20, 20, 24, 24, 30, 30];

/// Feedback (`FB`) modulation index in units of pi/16. Index 0 disables
/// self-feedback.
pub const FB_PI_OVER_16: [u16; 8] = [0, 1, 2, 4, 8, 16, 32, 64];

/// First-quadrant log-sin ROM: entry `x` is
/// `round(-log2(sin((x + 1/2) * pi / 512)) * 256)`.
pub const LOGSIN_ROM: [u16; 256] = [
    2137, 1731, 1543, 1419, 1326, 1252, 1190, 1137, 1091, 1050, 1013, 979, 949, 920, 894, 869,
    846, 825, 804, 785, 767, 749, 732, 717, 701, 687, 672, 659, 646, 633, 621, 609, 598, 587,
    576, 566, 556, 546, 536, 527, 518, 509, 501, 492, 484, 476, 468, 461, 453, 446, 439, 432,
    425, 418, 411, 405, 399, 392, 386, 380, 375, 369, 363, 358, 352, 347, 341, 336, 331, 326,
    321, 316, 311, 307, 302, 297, 293, 289, 284, 280, 276, 271, 267, 263, 259, 255, 251, 248,
    244, 240, 236, 233, 229, 226, 222, 219, 215, 212, 209, 205, 202, 199, 196, 193, 190, 187,
    184, 181, 178, 175, 172, 169, 167, 164, 161, 159, 156, 153, 151, 148, 146, 143, 141, 138,
    136, 134, 131, 129, 127, 125, 122, 120, 118, 116, 114, 112, 110, 108, 106, 104, 102, 100,
    98, 96, 94, 92, 91, 89, 87, 85, 83, 82, 80, 78, 77, 75, 74, 72, 70, 69, 67, 66, 64, 63, 62,
    60, 59, 57, 56, 55, 53, 52, 51, 49, 48, 47, 46, 45, 43, 42, 41, 40, 39, 38, 37, 36, 35, 34,
    33, 32, 31, 30, 29, 28, 27, 26, 25, 24, 23, 23, 22, 21, 20, 20, 19, 18, 17, 17, 16, 15, 15,
    14, 13, 13, 12, 12, 11, 10, 10, 9, 9, 8, 8, 7, 7, 7, 6, 6, 5, 5, 5, 4, 4, 4, 3, 3, 3, 2, 2,
    2, 2, 1, 1, 1, 1, 1, 1, 1, 0, 0, 0, 0, 0, 0, 0, 0,
];

/// Exponential ROM: entry `x` is `round((2^(x/256) - 1) * 1024)`.
pub const EXP_ROM: [u16; 256] = [
    0, 3, 6, 8, 11, 14, 17, 20, 22, 25, 28, 31, 34, 37, 40, 42, 45, 48, 51, 54, 57, 60, 63, 66,
    69, 72, 75, 78, 81, 84, 87, 90, 93, 96, 99, 102, 105, 108, 111, 114, 117, 120, 123, 126,
    130, 133, 136, 139, 142, 145, 148, 152, 155, 158, 161, 164, 168, 171, 174, 177, 181, 184,
    187, 190, 194, 197, 200, 204, 207, 210, 214, 217, 220, 224, 227, 231, 234, 237, 241, 244,
    248, 251, 255, 258, 262, 265, 268, 272, 276, 279, 283, 286, 290, 293, 297, 300, 304, 308,
    311, 315, 318, 322, 326, 329, 333, 337, 340, 344, 348, 352, 355, 359, 363, 367, 370, 374,
    378, 382, 385, 389, 393, 397, 401, 405, 409, 412, 416, 420, 424, 428, 432, 436, 440, 444,
    448, 452, 456, 460, 464, 468, 472, 476, 480, 484, 488, 492, 496, 501, 505, 509, 513, 517,
    521, 526, 530, 534, 538, 542, 547, 551, 555, 560, 564, 568, 572, 577, 581, 585, 590, 594,
    599, 603, 607, 612, 616, 621, 625, 630, 634, 639, 643, 648, 652, 657, 661, 666, 670, 675,
    680, 684, 689, 693, 698, 703, 708, 712, 717, 722, 726, 731, 736, 741, 745, 750, 755, 760,
    765, 770, 774, 779, 784, 789, 794, 799, 804, 809, 814, 819, 824, 829, 834, 839, 844, 849,
    854, 859, 864, 869, 874, 880, 885, 890, 895, 900, 906, 911, 916, 921, 927, 932, 937, 942,
    948, 953, 959, 964, 969, 975, 980, 986, 991, 996, 1002, 1007, 1013, 1018,
];

/// Operator output waveform.
#[derive(Clone, Copy, Debug, PartialEq, Eq, Structural)]
pub enum Waveform {
    /// Full sine (WF = 0).
    Sine,
    /// Half-wave-rectified sine: the negative half is silenced (WF = 1).
    HalfSine,
}

/// One OPL2 operator's decoded register parameters.
#[derive(Clone, Copy, Debug, PartialEq, Eq, Structural)]
pub struct Operator {
    /// Amplitude modulation (tremolo) enable (`AM`, register `$2x` D7).
    pub am: bool,
    /// Vibrato enable (`VIB`, `$2x` D6).
    pub vib: bool,
    /// Envelope type: `true` = sustained, `false` = percussive (`$2x` D5).
    pub eg_sustained: bool,
    /// Key-scale-of-rate (`KSR`, `$2x` D4): speeds the envelope at higher
    /// pitch.
    pub ksr: bool,
    /// Frequency multiple (`MUL`, `$2x` D3..D0): index into [`MUL_TABLE`].
    pub mul: u8,
    /// Key-scale-level (`KSL`, `$4x` D7..D6): extra attenuation slope vs
    /// pitch.
    pub ksl: u8,
    /// Total level / base attenuation (`TL`, `$4x` D5..D0), 0 = loudest.
    pub total_level: u8,
    /// Attack rate (`AR`, `$6x` D7..D4).
    pub attack: u8,
    /// Decay rate (`DR`, `$6x` D3..D0).
    pub decay: u8,
    /// Sustain level (`SL`, `$8x` D7..D4).
    pub sustain: u8,
    /// Release rate (`RR`, `$8x` D3..D0).
    pub release: u8,
    /// Output waveform (`WS`, `$Ex` D1..D0).
    pub waveform: Waveform,
}

impl Operator {
    /// The operator whose five registers hold these bytes. Waveform
    /// selectors other than 1 give the full sine.
    pub open spec fn of_registers(
        reg_20: u8,
        reg_40: u8,
        reg_60: u8,
        reg_80: u8,
        reg_e0: u8,
    ) -> Operator {
        Operator {
            am: has_bit(reg_20 as int, 128),
            vib: has_bit(reg_20 as int, 64),
            eg_sustained: has_bit(reg_20 as int, 32),
            ksr: has_bit(reg_20 as int, 16),
            mul: reg_20 % 16,
            ksl: reg_40 / 64,
            total_level: reg_40 % 64,
            attack: reg_60 / 16,
            decay: reg_60 % 16,
            sustain: reg_80 / 16,
            release: reg_80 % 16,
            waveform: if reg_e0 % 4 == 1 {
                Waveform::HalfSine
            } else {
                Waveform::Sine
            },
        }
    }
}

/// A decoded 2-operator AdLib instrument (one modulator and one carrier).
#[derive(Clone, Copy, Debug, PartialEq, Eq, Structural)]
pub struct AdLibInstrument {
    /// The modulator operator (operator 1 in the FM chain).
    pub modulator: Operator,
    /// The carrier operator (operator 2; its output is the channel output).
    pub carrier: Operator,
    /// Modulator self-feedback (`FB`, `$Cx` D3..D1): index into
    /// [`FB_PI_OVER_16`].
    pub feedback: u8,
    /// Connection (`CNT`, `$Cx` D0): `false` = FM, `true` = additive.
    pub additive: bool,
}

/// Register byte `i`, or 0 where the block is too short to have it.
pub open spec fn register(regs: Seq<u8>, i: int) -> u8 {
    if i < regs.len() {
        regs[i]
    } else {
        0
    }
}

impl AdLibInstrument {
    /// The instrument that a register block describes:
    ///
    /// ```text
    /// byte 0: $20 modulator   byte 1: $20 carrier    AM VIB EGT KSR MUL
    /// byte 2: $40 modulator   byte 3: $40 carrier    KSL TL
    /// byte 4: $60 modulator   byte 5: $60 carrier    AR DR
    /// byte 6: $80 modulator   byte 7: $80 carrier    SL RR
    /// byte 8: $E0 modulator   byte 9: $E0 carrier    WS
    /// byte 10: $C0                                   FB CNT
    /// ```
    pub open spec fn of_registers(regs: Seq<u8>) -> AdLibInstrument {
        AdLibInstrument {
            modulator: Operator::of_registers(
                register(regs, 0),
                register(regs, 2),
                register(regs, 4),
                register(regs, 6),
                register(regs, 8),
            ),
            carrier: Operator::of_registers(
                register(regs, 1),
                register(regs, 3),
                register(regs, 5),
                register(regs, 7),
                register(regs, 9),
            ),
            feedback: (register(regs, 10) / 2) % 8,
            additive: has_bit(register(regs, 10) as int, 1),
        }
    }

    /// Decode an AdLib instrument from its register bytes. Registers that
    /// are missing decode as zero.
    pub fn from_registers(regs: &[u8]) -> (r: Self)
        ensures
            r == AdLibInstrument::of_registers(regs@),
    {
        let modulator = decode_operator(
            register_byte(regs, 0),
            register_byte(regs, 2),
            register_byte(regs, 4),
            register_byte(regs, 6),
            register_byte(regs, 8),
        );
        let carrier = decode_operator(
            register_byte(regs, 1),
            register_byte(regs, 3),
            register_byte(regs, 5),
            register_byte(regs, 7),
            register_byte(regs, 9),
        );
        let cx: u8 = register_byte(regs, 10);
        AdLibInstrument { modulator, carrier, feedback: (cx / 2) % 8, additive: cx % 2 == 1 }
    }
}

/// Register byte `i`, or 0 where the block is too short to have it.
fn register_byte(regs: &[u8], i: usize) -> (r: u8)
    ensures
        r == register(regs@, i as int),
{
    if i < regs.len() {
        regs[i]
    } else {
        0
    }
}

/// Decode one operator from its five register bytes `$2x $4x $6x $8x $Ex`.
pub fn decode_operator(reg_20: u8, reg_40: u8, reg_60: u8, reg_80: u8, reg_e0: u8) -> (r: Operator)
    ensures
        r == Operator::of_registers(reg_20, reg_40, reg_60, reg_80, reg_e0),
{
    Operator {
        am: (reg_20 / 128) % 2 == 1,
        vib: (reg_20 / 64) % 2 == 1,
        eg_sustained: (reg_20 / 32) % 2 == 1,
        ksr: (reg_20 / 16) % 2 == 1,
        mul: reg_20 % 16,
        ksl: reg_40 / 64,
        total_level: reg_40 % 64,
        attack: reg_60 / 16,
        decay: reg_60 % 16,
        sustain: reg_80 / 16,
        release: reg_80 % 16,
        waveform: if reg_e0 % 4 == 1 {
            Waveform::HalfSine
        } else {
            Waveform::Sine
        },
    }
}

impl Instrument {
    /// The OPL2 voice of an AdLib instrument (types 2..=7).
    pub open spec fn adlib_voice(self) -> Option<AdLibInstrument> {
        if 2 <= self.kind <= 7 {
            Some(AdLibInstrument::of_registers(self.registers@))
        } else {
            None
        }
    }

    /// The OPL2 voice of an AdLib instrument (types 2..=7); other
    /// instruments have none.
    pub fn adlib_instrument(&self) -> (r: Option<AdLibInstrument>)
        ensures
            r == if 2 <= self.kind <= 7 {
                Some(AdLibInstrument::of_registers(self.registers@))
            } else {
                None
            },
            r == self.adlib_voice(),
    {
        if self.kind >= INST_TYPE_ADLIB_MELODY && self.kind <= 7 {
            let regs: &[u8] = self.registers.as_slice();
            Some(AdLibInstrument::from_registers(regs))
        } else {
            None
        }
    }
}

/// The YM3812 operator core: the two ROM tables plus the lookup logic that
/// turns a 10-bit phase and an attenuation into a signed output sample.
#[derive(Clone)]
pub struct OperatorCore {
    /// First-quadrant log-sin ROM: `-log2(sin)` scaled by 256 (12-bit).
    pub logsin: [u16; 256],
    /// Exponential ROM significand: `(2^(x/256) - 1) * 1024` (10-bit).
    pub exp: [u16; 256],
}

/// The attenuation of the sine at a phase: quadrants 2 and 4 mirror the
/// stored first quadrant.
pub open spec fn sine_attenuation(phase: int) -> int {
    let p = phase % 1024;
    if (p / 256) % 2 == 1 {
        LOGSIN_ROM[255 - p % 256] as int
    } else {
        LOGSIN_ROM[p % 256] as int
    }
}

/// Whether a phase lies in the lower half of the period.
pub open spec fn is_lower_half(phase: int) -> bool {
    phase % 1024 >= 512
}

/// The magnitude that is left of full scale at an attenuation in 1/256ths
/// of an octave: whole octaves halve it.
pub open spec fn magnitude(atten: int) -> int {
    let octaves = if atten / 256 < 31 {
        atten / 256
    } else {
        31
    };
    (1024 + EXP_ROM[255 - atten % 256]) / pow2(octaves as nat) as int
}

/// The sample that an operator puts out.
pub open spec fn operator_output(phase: int, atten: int, waveform: Waveform) -> int {
    let level = magnitude(sine_attenuation(phase) + atten);
    if !is_lower_half(phase) {
        level
    } else if waveform == Waveform::HalfSine {
        0
    } else {
        -level
    }
}

/// The step of the phase accumulator per output sample.
pub open spec fn phase_increment(fnum: int, block: int, mul: int) -> int {
    (fnum * MUL_DOUBLED[mul % 16] * pow2((block % 8) as nat)) / 2
}

/// The integer phase of an accumulator with 9 fractional bits.
pub open spec fn phase_of(accumulator: int) -> int {
    (accumulator / 512) % 1024
}

impl Default for OperatorCore {
    fn default() -> (r: Self)
        ensures
            r.wf(),
    {
        Self::new()
    }
}

impl OperatorCore {
    /// Whether the core holds the ROM contents.
    pub open spec fn wf(self) -> bool {
        self.logsin == LOGSIN_ROM && self.exp == EXP_ROM
    }

    /// Build the operator core.
    pub fn new() -> (r: Self)
        ensures
            r.wf(),
    {
        OperatorCore { logsin: LOGSIN_ROM, exp: EXP_ROM }
    }

    /// Read the log-sin value for a phase, and whether the sine is negative
    /// there.
    pub fn logsin_lookup(&self, phase: u32) -> (r: (u16, bool))
        requires
            self.wf(),
        ensures
            r.0 == sine_attenuation(phase as int),
            r.1 == is_lower_half(phase as int),
    {
        let p: usize = (phase % SINE_PERIOD) as usize;
        let negative = p >= 512;
        let mirror = (p / 256) % 2 == 1;
        let idx: usize = p % 256;
        let table_idx: usize = if mirror {
            255 - idx
        } else {
            idx
        };
        (self.logsin[table_idx], negative)
    }

    /// Convert an attenuation in the log domain (8 fractional bits) back to
    /// a linear magnitude.
    pub fn exp_lookup(&self, atten: u32) -> (r: u32)
        requires
            self.wf(),
        ensures
            r == magnitude(atten as int),
            r < 2048,
    {
        let frac: usize = (atten % 256) as usize;
        let octaves: u32 = if atten / 256 < 31 {
            atten / 256
        } else {
            31
        };
        let significand: u32 = 1024 + self.exp[255 - frac] as u32;
        proof {
            lemma_u32_shr_is_div(significand, octaves);
            lemma_pow2_pos(octaves as nat);
            let d = pow2(octaves as nat) as int;
            assert(0 <= significand as int / d <= significand) by (nonlinear_arith)
                requires
                    d >= 1,
                    significand >= 0,
            ;
        }
        significand >> octaves
    }

    /// Compute one operator sample for the given phase and total
    /// attenuation, which adds to that of the sine.
    pub fn operator_sample(&self, phase: u32, atten: u32, waveform: Waveform) -> (r: i32)
        requires
            self.wf(),
            waveform == Waveform::HalfSine && is_lower_half(phase as int) || sine_attenuation(
                phase as int,
            ) + atten <= u32::MAX,
        ensures
            r == operator_output(phase as int, atten as int, waveform),
    {
        if waveform == Waveform::HalfSine && phase % SINE_PERIOD >= 512 {
            return 0;
        }
        let (logsin, negative) = self.logsin_lookup(phase);
        let level: i32 = self.exp_lookup(logsin as u32 + atten) as i32;
        if negative {
            -level
        } else {
            level
        }
    }

    /// The phase accumulator's step per output sample for a note:
    /// `((fnum * mlTab[ML]) << block) >> 1`, with 9 fractional bits.
    pub fn phase_step(fnum: u16, block: u8, mul: u8) -> (r: u32)
        ensures
            r == phase_increment(fnum as int, block as int, mul as int),
    {
        let ml: u32 = MUL_DOUBLED[(mul % 16) as usize] as u32;
        let octave: u8 = block % 8;
        let factor: u32 = match octave {
            0 => 1,
            1 => 2,
            2 => 4,
            3 => 8,
            4 => 16,
            5 => 32,
            6 => 64,
            _ => 128,
        };
        proof {
            lemma2_to64();
            assert(factor == pow2(octave as nat));
            assert(0 <= fnum * ml <= 65535 * 30) by (nonlinear_arith)
                requires
                    0 <= fnum <= 65535,
                    0 <= ml <= 30,
            ;
            let base = fnum * ml;
            assert(0 <= base * factor <= 65535 * 30 * 128) by (nonlinear_arith)
                requires
                    0 <= base <= 65535 * 30,
                    0 <= factor <= 128,
            ;
        }
        (fnum as u32 * ml * factor) / 2
    }

    /// The integer phase (0..1024) of a fixed-point accumulator.
    pub fn phase_int(accumulator: u32) -> (r: u32)
        ensures
            r == phase_of(accumulator as int),
    {
        (accumulator / 512) % SINE_PERIOD
    }
}

/// Key-scale rate offset, indexed `[KSR][key_scale_number]`.
pub const KSR_RATE_OFFSET: [[u8; 16]; 2] = [
    [0, 0, 0, 0, 1, 1, 1, 1, 2, 2, 2, 2, 3, 3, 3, 3],
    [0, 1, 2, 3, 4, 5, 6, 7, 8, 9, 10, 11, 12, 13, 14, 15],
];

/// Upper bound of the envelope-rate domain.
pub const RATE_MAX: u8 = 63;

/// The key-scale offset of a rate: the key-scale number, or a quarter of it
/// where the `KSR` bit is clear.
pub open spec fn rate_offset(ksr: bool, key_scale_number: int) -> int {
    if ksr {
        key_scale_number % 16
    } else {
        (key_scale_number % 16) / 4
    }
}

/// The rate that an envelope runs at for register nibble `r`: four times
/// the nibble plus the key-scale offset, but at most 63; nibble 0 freezes
/// the envelope.
pub open spec fn envelope_rate(r: int, ksr: bool, key_scale_number: int) -> int {
    if r % 16 == 0 {
        0
    } else if 4 * (r % 16) + rate_offset(ksr, key_scale_number) < 63 {
        4 * (r % 16) + rate_offset(ksr, key_scale_number)
    } else {
        63
    }
}

/// The key-scale offset for one operator ([`KSR_RATE_OFFSET`]).
pub fn key_scale_offset(ksr: bool, key_scale_number: u8) -> (r: u8)
    ensures
        r == rate_offset(ksr, key_scale_number as int),
        r == KSR_RATE_OFFSET[if ksr {
            1
        } else {
            0
        }][key_scale_number as int % 16],
{
    let row: usize = if ksr {
        1
    } else {
        0
    };
    let n: u8 = key_scale_number % 16;
    KSR_RATE_OFFSET[row][n as usize]
}

/// Resolve a 4-bit register nibble into the envelope rate.
pub fn effective_rate(r: u8, ksr: bool, key_scale_number: u8) -> (rate: u8)
    ensures
        rate == envelope_rate(r as int, ksr, key_scale_number as int),
{
    let nibble: u8 = r % 16;
    if nibble == 0 {
        return 0;
    }
    let rate: u8 = 4 * nibble + key_scale_offset(ksr, key_scale_number);
    if rate < RATE_MAX {
        rate
    } else {
        RATE_MAX
    }
}

/// ADSR stage of one operator's envelope.
#[derive(Clone, Copy, Debug, PartialEq, Eq, Structural)]
pub enum EgStage {
    /// Attenuation ramps from its current value down toward 0 dB.
    Attack,
    /// Attenuation ramps up toward the sustain level.
    Decay,
    /// Holding at the sustain level (sustained instruments, key still on).
    Sustain,
    /// Attenuation ramps up toward the floor.
    Release,
    /// Past the floor: the operator is silent and finished.
    Off,
}

/// What the attenuation of an envelope does over one output sample.
#[derive(Clone, Copy, Debug, PartialEq, Eq, Structural)]
pub enum EgMove {
    /// It stays where it is.
    Hold,
    /// It falls by the attack slope, to 0 dB at the lowest.
    Attack,
    /// It rises by the decay slope, to the sustain level at the highest.
    Decay,
    /// It rises by the release slope, to the floor at the highest.
    Release,
}

/// The stages and rates of one operator's envelope. The attenuation itself,
/// in dB, is the caller's: it asks [`EnvelopeStages::advance`] what to do
/// with it and reports an end of the scale to [`EnvelopeStages::arrive`].
#[derive(Clone, Copy, Debug, PartialEq, Eq, Structural)]
pub struct EnvelopeStages {
    pub stage: EgStage,
    pub attack_rate: u8,
    pub decay_rate: u8,
    pub release_rate: u8,
    /// Sustain level nibble.
    pub sustain: u8,
    /// `true` holds at the sustain level until key-off; `false`
    /// (percussive) releases through it immediately.
    pub sustained: bool,
}

impl EnvelopeStages {
    /// The envelope of `op`, keyed on at `key_scale_number`.
    pub open spec fn keyed(op: Operator, key_scale_number: int) -> EnvelopeStages {
        EnvelopeStages {
            stage: EgStage::Attack,
            attack_rate: envelope_rate(op.attack as int, op.ksr, key_scale_number) as u8,
            decay_rate: envelope_rate(op.decay as int, op.ksr, key_scale_number) as u8,
            release_rate: envelope_rate(op.release as int, op.ksr, key_scale_number) as u8,
            sustain: op.sustain % 16,
            sustained: op.eg_sustained,
        }
    }

    /// What the attenuation does next. `at_sustain` says that it is at the
    /// sustain level or above.
    pub open spec fn next_move(self, at_sustain: bool) -> EgMove {
        if self.stage == EgStage::Attack && self.attack_rate != 0 {
            EgMove::Attack
        } else if self.stage == EgStage::Decay && !at_sustain && self.decay_rate != 0 {
            EgMove::Decay
        } else if self.stage == EgStage::Release && self.release_rate != 0 {
            EgMove::Release
        } else {
            EgMove::Hold
        }
    }

    /// The stages after one output sample. A decay that is at the sustain
    /// level ends: a sustained envelope holds, a percussive one releases.
    pub open spec fn advanced(self, at_sustain: bool) -> EnvelopeStages {
        if self.stage == EgStage::Decay && at_sustain {
            EnvelopeStages {
                stage: if self.sustained {
                    EgStage::Sustain
                } else {
                    EgStage::Release
                },
                ..self
            }
        } else {
            self
        }
    }

    /// The stages once the attenuation has come to the end of the scale:
    /// the attack gives way to the decay, and the release to silence.
    pub open spec fn arrived(self) -> EnvelopeStages {
        EnvelopeStages {
            stage: match self.stage {
                EgStage::Attack => EgStage::Decay,
                EgStage::Release => EgStage::Off,
                other => other,
            },
            ..self
        }
    }

    /// The stages after key-off.
    pub open spec fn keyed_off(self) -> EnvelopeStages {
        EnvelopeStages {
            stage: if self.stage == EgStage::Off {
                EgStage::Off
            } else {
                EgStage::Release
            },
            ..self
        }
    }

    /// The envelope of `op`, keyed on at `key_scale_number`.
    pub fn new(op: &Operator, key_scale_number: u8) -> (r: Self)
        ensures
            r == EnvelopeStages::keyed(*op, key_scale_number as int),
    {
        EnvelopeStages {
            stage: EgStage::Attack,
            attack_rate: effective_rate(op.attack, op.ksr, key_scale_number),
            decay_rate: effective_rate(op.decay, op.ksr, key_scale_number),
            release_rate: effective_rate(op.release, op.ksr, key_scale_number),
            sustain: op.sustain % 16,
            sustained: op.eg_sustained,
        }
    }

    /// Restart the attack from wherever the attenuation is.
    pub fn key_on(&mut self)
        ensures
            *final(self) == (EnvelopeStages { stage: EgStage::Attack, ..*old(self) }),
    {
        self.stage = EgStage::Attack;
    }

    /// Enter the release. An envelope past the floor stays off.
    pub fn key_off(&mut self)
        ensures
            *final(self) == old(self).keyed_off(),
    {
        if self.stage != EgStage::Off {
            self.stage = EgStage::Release;
        }
    }

    /// Whether the envelope has run past the floor.
    pub fn is_off(&self) -> (r: bool)
        ensures
            r == (self.stage == EgStage::Off),
    {
        self.stage == EgStage::Off
    }

    /// Advance one output sample: what the attenuation does now.
    pub fn advance(&mut self, at_sustain: bool) -> (r: EgMove)
        ensures
            r == old(self).next_move(at_sustain),
            *final(self) == old(self).advanced(at_sustain),
    {
        match self.stage {
            EgStage::Attack => if self.attack_rate != 0 {
                EgMove::Attack
            } else {
                EgMove::Hold
            },
            EgStage::Decay => {
                if at_sustain {
                    self.stage = if self.sustained {
                        EgStage::Sustain
                    } else {
                        EgStage::Release
                    };
                    EgMove::Hold
                } else if self.decay_rate != 0 {
                    EgMove::Decay
                } else {
                    EgMove::Hold
                }
            },
            EgStage::Release => if self.release_rate != 0 {
                EgMove::Release
            } else {
                EgMove::Hold
            },
            EgStage::Sustain => EgMove::Hold,
            EgStage::Off => EgMove::Hold,
        }
    }

    /// The attenuation has come to 0 dB in an attack or to the floor in a
    /// release.
    pub fn arrive(&mut self)
        ensures
            *final(self) == old(self).arrived(),
    {
        match self.stage {
            EgStage::Attack => {
                self.stage = EgStage::Decay;
            },
            EgStage::Release => {
                self.stage = EgStage::Off;
            },
            _ => {},
        }
    }
}

/// The lower half of the sine is the negated upper half.
pub proof fn law_sine_halves_are_opposite(phase: int, atten: int)
    requires
        0 <= phase,
    ensures
        operator_output(phase + 512, atten, Waveform::Sine) == -operator_output(
            phase,
            atten,
            Waveform::Sine,
        ),
{
    let p = phase % 1024;
    assert((phase + 512) % 1024 == if p < 512 {
        p + 512
    } else {
        p - 512
    });
}

/// Within the upper half the sine is symmetric about its peak.
pub proof fn law_sine_mirrors_at_the_quarter(d: int, atten: int)
    requires
        0 <= d < 512,
    ensures
        operator_output(511 - d, atten, Waveform::Sine) == operator_output(
            d,
            atten,
            Waveform::Sine,
        ),
{
    let e = 511 - d;
    if d < 256 {
        assert(d % 1024 == d && (d / 256) % 2 == 0 && d % 256 == d);
        assert(e % 1024 == e && (e / 256) % 2 == 1 && e % 256 == 255 - d);
    } else {
        assert(d % 1024 == d && (d / 256) % 2 == 1 && d % 256 == d - 256);
        assert(e % 1024 == e && (e / 256) % 2 == 0 && e % 256 == e);
    }
    assert(sine_attenuation(d) == sine_attenuation(e));
    assert(!is_lower_half(d) && !is_lower_half(e));
}

/// The half sine is silent in the lower half of the period and the full
/// sine elsewhere.
pub proof fn law_half_sine_is_rectified_sine(phase: int, atten: int)
    ensures
        operator_output(phase, atten, Waveform::HalfSine) == if is_lower_half(phase) {
            0
        } else {
            operator_output(phase, atten, Waveform::Sine)
        },
{
}

/// An operator repeats after one period.
pub proof fn law_operator_is_periodic(phase: int, atten: int, waveform: Waveform)
    ensures
        operator_output(phase + 1024, atten, waveform) == operator_output(phase, atten, waveform),
{
    assert((phase + 1024) % 1024 == phase % 1024);
}

/// Every attenuation of the sine is at most 2137, and every output is within
/// 2042 of zero.
pub proof fn law_output_is_bounded(phase: int, atten: int, waveform: Waveform)
    requires
        0 <= atten,
    ensures
        0 <= sine_attenuation(phase) <= 2137,
        -2042 <= operator_output(phase, atten, waveform) <= 2042,
        !is_lower_half(phase) ==> 0 <= operator_output(phase, atten, waveform),
{
    let p = phase % 1024;
    let idx = if (p / 256) % 2 == 1 {
        255 - p % 256
    } else {
        p % 256
    };
    lemma_rom_bounds(idx);
    lemma_magnitude_bounds(sine_attenuation(phase) + atten);
}

#[verifier::spinoff_prover]
proof fn lemma_rom_bounds(i: int)
    requires
        0 <= i < 256,
    ensures
        0 <= LOGSIN_ROM[i] <= 2137,
        0 <= EXP_ROM[i] <= 1018,
{
}

proof fn lemma_magnitude_bounds(atten: int)
    requires
        0 <= atten,
    ensures
        0 <= magnitude(atten) <= 2042,
{
    let octaves = if atten / 256 < 31 {
        atten / 256
    } else {
        31
    };
    lemma_rom_bounds(255 - atten % 256);
    lemma_pow2_pos(octaves as nat);
    let significand = 1024 + EXP_ROM[255 - atten % 256];
    let d = pow2(octaves as nat) as int;
    assert(0 <= significand / d <= significand) by (nonlinear_arith)
        requires
            d >= 1,
            significand >= 0,
    ;
}

/// The shape of both waveforms over a period, at any attenuation. The sine
/// is symmetric about its peak and not below zero in the upper half, and the
/// lower half is its negative. The half sine is the sine in the upper half
/// and silent in the lower. Both repeat after 1024 steps of the phase.
pub proof fn law_operator_waveforms(p: int, whole: int, atten: int)
    requires
        0 <= p < 512,
        0 <= atten,
    ensures
        operator_output(p + 512, atten, Waveform::Sine) == -operator_output(
            p,
            atten,
            Waveform::Sine,
        ),
        operator_output(511 - p, atten, Waveform::Sine) == operator_output(
            p,
            atten,
            Waveform::Sine,
        ),
        operator_output(p, atten, Waveform::Sine) >= 0,
        operator_output(p, atten, Waveform::HalfSine) == operator_output(p, atten, Waveform::Sine),
        operator_output(p + 512, atten, Waveform::HalfSine) == 0,
        operator_output(whole % 1024, atten, Waveform::Sine) == operator_output(
            whole,
            atten,
            Waveform::Sine,
        ),
        operator_output(whole % 1024, atten, Waveform::HalfSine) == operator_output(
            whole,
            atten,
            Waveform::HalfSine,
        ),
        -2042 <= operator_output(whole, atten, Waveform::Sine) <= 2042,
{
    law_sine_halves_are_opposite(p, atten);
    law_sine_mirrors_at_the_quarter(p, atten);
    law_half_sine_is_rectified_sine(p, atten);
    law_half_sine_is_rectified_sine(p + 512, atten);
    law_output_is_bounded(p, atten, Waveform::Sine);
    law_output_is_bounded(whole, atten, Waveform::Sine);
    assert((whole % 1024) % 1024 == whole % 1024);
}

/// 256 more units of attenuation halve the magnitude.
pub proof fn law_octave_of_attenuation_halves(atten: int)
    requires
        0 <= atten,
    ensures
        magnitude(atten + 256) == magnitude(atten) / 2,
{
    let o = if atten / 256 < 31 {
        atten / 256
    } else {
        31
    };
    let significand = 1024 + EXP_ROM[255 - atten % 256];
    assert((atten + 256) % 256 == atten % 256);
    assert((atten + 256) / 256 == atten / 256 + 1);
    lemma_pow2_pos(o as nat);
    let d = pow2(o as nat) as int;
    if o < 31 {
        lemma_pow2_unfold((o + 1) as nat);
        vstd::arithmetic::div_mod::lemma_div_denominator(significand, d, 2);
        assert(d * 2 == pow2((o + 1) as nat));
    } else {
        lemma2_to64();
        assert(significand < d);
        vstd::arithmetic::div_mod::lemma_basic_div(significand, d);
    }
}

/// Accumulators that differ by a whole period have the same phase.
pub proof fn law_phase_wraps_at_period(accumulator: int)
    ensures
        phase_of(accumulator + 1024 * 512) == phase_of(accumulator),
        0 <= phase_of(accumulator) < SINE_PERIOD,
{
    assert((accumulator + 1024 * 512) / 512 == accumulator / 512 + 1024);
}

/// Each block is an octave: from block 1 on, where nothing is rounded, the
/// next block doubles the step.
pub proof fn law_block_is_an_octave(fnum: int, block: int, mul: int)
    requires
        0 <= fnum,
        1 <= block < 7,
        0 <= mul,
    ensures
        phase_increment(fnum, block + 1, mul) == 2 * phase_increment(fnum, block, mul),
{
    lemma_pow2_unfold((block + 1) as nat);
    lemma_pow2_unfold(block as nat);
    let base = fnum * MUL_DOUBLED[mul % 16];
    let p = pow2((block - 1) as nat) as int;
    assert(base * (2 * p) == 2 * (base * p)) by (nonlinear_arith);
    assert(base * (2 * (2 * p)) == 4 * (base * p)) by (nonlinear_arith);
}

/// The sine rises through its first quadrant, so its attenuation falls, and
/// the exponential rises.
#[verifier::spinoff_prover]
pub proof fn law_rom_tables_are_monotone(i: int)
    requires
        0 <= i < 255,
    ensures
        LOGSIN_ROM[i + 1] <= LOGSIN_ROM[i],
        EXP_ROM[i] < EXP_ROM[i + 1],
        LOGSIN_ROM[255] == 0,
        EXP_ROM[255] < 1024,
{
}

/// The doubled multiplier table is the table times two, with the half at
/// index 0 promoted to 1.
pub proof fn law_mul_doubled(i: int)
    requires
        0 <= i < 16,
    ensures
        MUL_DOUBLED[i] == if i == 0 {
            1
        } else {
            2 * MUL_TABLE[i]
        },
{
}

/// The rates an envelope can run at are 0 and 4..=63; a higher key or a
/// higher nibble never slows it.
#[verifier::spinoff_prover]
pub proof fn law_rates(r: int, higher_r: int, ksr: bool, key: int, higher_key: int)
    requires
        0 <= r <= higher_r < 16,
        0 <= key <= higher_key < 16,
    ensures
        envelope_rate(r, ksr, key) == 0 || 4 <= envelope_rate(r, ksr, key) <= RATE_MAX,
        envelope_rate(r, ksr, key) == 0 <==> r == 0,
        envelope_rate(r, ksr, key) <= envelope_rate(higher_r, ksr, higher_key),
        envelope_rate(r, false, key) <= envelope_rate(r, true, key),
{
}

/// A stage that runs at rate 0 never changes: the attenuation holds and the
/// stage stays until the key is pressed or released.
pub proof fn law_rate_zero_freezes(e: EnvelopeStages, at_sustain: bool)
    requires
        e.stage == EgStage::Attack && e.attack_rate == 0 || e.stage == EgStage::Decay
            && e.decay_rate == 0 && !at_sustain || e.stage == EgStage::Release && e.release_rate
            == 0,
    ensures
        e.next_move(at_sustain) == EgMove::Hold,
        e.advanced(at_sustain) == e,
{
}

/// A percussive envelope never holds: it goes from the decay straight to
/// the release.
pub proof fn law_percussive_releases_through_sustain(e: EnvelopeStages, at_sustain: bool)
    requires
        !e.sustained,
        e.stage != EgStage::Sustain,
    ensures
        e.advanced(at_sustain).stage != EgStage::Sustain,
        e.stage == EgStage::Decay && at_sustain ==> e.advanced(at_sustain).stage
            == EgStage::Release,
{
}

/// A sustained envelope that has reached its sustain level holds it until
/// key-off.
pub proof fn law_sustain_holds_until_key_off(e: EnvelopeStages, at_sustain: bool)
    requires
        e.stage == EgStage::Sustain,
    ensures
        e.next_move(at_sustain) == EgMove::Hold,
        e.advanced(at_sustain) == e,
        e.arrived() == e,
        e.keyed_off().stage == EgStage::Release,
{
}

/// The stages only move on: a sample leaves everything but the stage alone,
/// and takes the stage from the decay to the sustain or the release at most.
/// The end of the scale takes the attack to the decay and the release to
/// silence. The attenuation falls only in the attack and rises only in the
/// decay and the release, and what is off or sustains stays so.
pub proof fn law_stages_move_on(e: EnvelopeStages, at_sustain: bool)
    ensures
        e.advanced(at_sustain) == (EnvelopeStages { stage: e.advanced(at_sustain).stage, ..e }),
        e.arrived() == (EnvelopeStages { stage: e.arrived().stage, ..e }),
        e.advanced(at_sustain).stage != e.stage ==> e.stage == EgStage::Decay && at_sustain
            && e.advanced(at_sustain).stage == if e.sustained {
            EgStage::Sustain
        } else {
            EgStage::Release
        } && e.next_move(at_sustain) == EgMove::Hold,
        e.arrived().stage != e.stage ==> e.stage == EgStage::Attack && e.arrived().stage
            == EgStage::Decay || e.stage == EgStage::Release && e.arrived().stage == EgStage::Off,
        e.next_move(at_sustain) == EgMove::Attack ==> e.stage == EgStage::Attack,
        e.next_move(at_sustain) == EgMove::Decay ==> e.stage == EgStage::Decay,
        e.next_move(at_sustain) == EgMove::Release ==> e.stage == EgStage::Release,
        e.stage == EgStage::Sustain || e.stage == EgStage::Off ==> e.next_move(at_sustain)
            == EgMove::Hold && e.advanced(at_sustain) == e && e.arrived() == e,
{
}

/// An operator whose attack nibble is 0 never leaves the attack: each sample
/// holds the attenuation and changes nothing.
pub proof fn law_attack_zero_never_sounds(op: Operator, key_scale_number: int, at_sustain: bool)
    requires
        op.attack % 16 == 0,
    ensures
        EnvelopeStages::keyed(op, key_scale_number).next_move(at_sustain) == EgMove::Hold,
        EnvelopeStages::keyed(op, key_scale_number).advanced(at_sustain) == EnvelopeStages::keyed(
            op,
            key_scale_number,
        ),
{
}

/// The parameters of an operator make up its registers again; the waveform
/// register counts for its two low bits.
#[verifier::spinoff_prover]
pub proof fn law_operator_gives_registers_back(
    reg_20: u8,
    reg_40: u8,
    reg_60: u8,
    reg_80: u8,
    reg_e0: u8,
)
    ensures
        from_registers(
            Operator::of_registers(reg_20, reg_40, reg_60, reg_80, reg_e0),
            reg_20,
            reg_40,
            reg_60,
            reg_80,
            reg_e0,
        ),
{
}

/// The even bytes of a register block are the modulator's and the odd ones
/// the carrier's, in the order of their registers.
pub proof fn law_instrument_gives_registers_back(regs: Seq<u8>)
    requires
        regs.len() == 11,
    ensures
        ({
            let inst = AdLibInstrument::of_registers(regs);
            &&& from_registers(inst.modulator, regs[0], regs[2], regs[4], regs[6], regs[8])
            &&& from_registers(inst.carrier, regs[1], regs[3], regs[5], regs[7], regs[9])
        }),
{
    law_operator_gives_registers_back(regs[0], regs[2], regs[4], regs[6], regs[8]);
    law_operator_gives_registers_back(regs[1], regs[3], regs[5], regs[7], regs[9]);
}

/// Whether an operator's parameters make up these registers.
pub open spec fn from_registers(
    op: Operator,
    reg_20: u8,
    reg_40: u8,
    reg_60: u8,
    reg_80: u8,
    reg_e0: u8,
) -> bool {
    &&& reg_20 as int % 16 == op.mul
    &&& op.am <==> reg_20 >= 128
    &&& op.vib <==> reg_20 as int % 128 >= 64
    &&& op.eg_sustained <==> reg_20 as int % 64 >= 32
    &&& op.ksr <==> reg_20 as int % 32 >= 16
    &&& 64 * op.ksl + op.total_level == reg_40
    &&& 16 * op.attack + op.decay == reg_60
    &&& 16 * op.sustain + op.release == reg_80
    &&& op.total_level < 64 && op.decay < 16 && op.release < 16
    &&& op.waveform == Waveform::HalfSine <==> reg_e0 % 4 == 1
}

/// The eleventh byte of a register block holds the connection in its lowest
/// bit and the feedback in the three above.
pub proof fn law_feedback_and_connection(regs: Seq<u8>)
    requires
        regs.len() == 11,
    ensures
        ({
            let inst = AdLibInstrument::of_registers(regs);
            &&& inst.additive <==> regs[10] as int % 2 == 1
            &&& 2 * inst.feedback <= regs[10] as int % 16 < 2 * inst.feedback + 2
        }),
{
    let cx = regs[10] as int;
    assert(register(regs, 10) == cx);
    assert(2 * ((cx / 2) % 8) <= cx % 16 < 2 * ((cx / 2) % 8) + 2);
}

/// A block that is cut short reads as if it went on in zeros.
pub proof fn law_short_block_reads_as_zeros(regs: Seq<u8>, zeros: Seq<u8>)
    requires
        forall|i: int| 0 <= i < zeros.len() ==> #[trigger] zeros[i] == 0,
    ensures
        AdLibInstrument::of_registers(regs + zeros) == AdLibInstrument::of_registers(regs),
{
    assert forall|i: int| 0 <= i implies #[trigger] register(regs + zeros, i) == register(
        regs,
        i,
    ) by {
        if regs.len() <= i < regs.len() + zeros.len() {
            assert((regs + zeros)[i] == zeros[i - regs.len()]);
        }
    }
}

/// Four steps of rate per nibble, plus the key scale number where the
/// operator scales rates and a quarter of it where it does not, up to 63;
/// nibble 0 stands still.
pub proof fn law_rates_count_in_fours(r: int, ksr: bool, key: int)
    requires
        0 < r < 16,
        0 <= key < 16,
    ensures
        envelope_rate(0, ksr, key) == 0,
        envelope_rate(r, true, key) == 4 * r + key || 4 * r + key > 63 && envelope_rate(r, true, key)
            == 63,
        envelope_rate(r, false, key) == 4 * r + key / 4,
{
}

/// The exponential rises from entry to entry by a steady little, from 0 to
/// 1018, and is at the root of two in the middle.
#[verifier::spinoff_prover]
pub proof fn law_exponential_rises_steadily(i: int)
    requires
        0 <= i < 255,
    ensures
        EXP_ROM[i + 1] <= EXP_ROM[i] + 6,
        EXP_ROM[0] == 0,
        EXP_ROM[255] == 1018,
        EXP_ROM[128] == 424,
{
}

/// The log-sin falls from 2137 to 0, and is half an octave in the middle.
#[verifier::spinoff_prover]
pub proof fn law_log_sine_falls(i: int)
    requires
        0 <= i < 255,
    ensures
        0 <= LOGSIN_ROM[i] - LOGSIN_ROM[i + 1] <= 406,
        LOGSIN_ROM[0] == 2137,
        LOGSIN_ROM[128] == 127,
        LOGSIN_ROM[255] == 0,
{
}

/// At no attenuation the peak of the sine is at full scale, and more
/// attenuation never makes an operator louder.
pub proof fn law_attenuation_quietens(atten: int, more: int)
    requires
        0 <= atten,
        0 <= more,
    ensures
        magnitude(0) == 2042,
        magnitude(atten + 256 * more) <= magnitude(atten),
    decreases more,
{
    lemma2_to64();
    assert(magnitude(0) == (1024 + EXP_ROM[255]) / 1);
    lemma_rom_bounds(255);
    law_exponential_rises_steadily(0);
    if more > 0 {
        law_attenuation_quietens(atten, more - 1);
        law_octave_of_attenuation_halves(atten + 256 * (more - 1));
        lemma_magnitude_bounds(atten + 256 * (more - 1));
    }
}

/// A note an octave up, or with twice the multiple, steps twice as far
/// through the sine, and the step is proportional to the frequency number.
pub proof fn law_step_follows_frequency(fnum: int, more: int, mul: int)
    requires
        0 <= fnum,
        0 <= more,
        0 <= mul < 16,
    ensures
        phase_increment(fnum + more, 1, mul) == phase_increment(fnum, 1, mul) + phase_increment(
            more,
            1,
            mul,
        ),
        phase_increment(fnum, 1, 0) == fnum,
        mul > 0 ==> phase_increment(fnum, 1, mul) == 2 * fnum * MUL_TABLE[mul],
{
    lemma2_to64();
    law_mul_doubled(mul);
    law_mul_doubled(0);
    assert(phase_increment(fnum, 1, 0) == (fnum * 1 * 2) / 2);
    let m = MUL_DOUBLED[mul] as int;
    assert((fnum + more) * m == fnum * m + more * m) by (nonlinear_arith);
    assert(mul % 16 == mul);
    let a = fnum * m;
    let b = more * m;
    assert(phase_increment(fnum, 1, mul) == (a * 2) / 2);
    assert(phase_increment(more, 1, mul) == (b * 2) / 2);
    assert(phase_increment(fnum + more, 1, mul) == ((a + b) * 2) / 2);
    if mul > 0 {
        let t = MUL_TABLE[mul] as int;
        assert(fnum * (2 * t) == 2 * fnum * t) by (nonlinear_arith);
    }
}

/// The multiples are whole numbers that never fall, 1 to 15 in all but the
/// doubled places, and feedback doubles from step to step.
pub proof fn law_multiples_and_feedback(i: int)
    requires
        0 < i < 16,
    ensures
        i <= 10 || i == 12 || i == 15 ==> MUL_TABLE[i] == i,
        i == 11 || i == 13 || i == 14 ==> MUL_TABLE[i - 1] <= MUL_TABLE[i] <= MUL_TABLE[i + 1],
        MUL_TABLE[11] == 10 && MUL_TABLE[13] == 12 && MUL_TABLE[14] == 15,
        FB_PI_OVER_16[0] == 0,
        FB_PI_OVER_16[1] == 1,
        1 < i < 8 ==> FB_PI_OVER_16[i] == 2 * FB_PI_OVER_16[i - 1],
{
}

/// A key pressed and released: an envelope that is keyed starts in the
/// attack with the rates of its operator, and goes to the release from
/// wherever it is but silence.
pub proof fn law_keys_move_stages(op: Operator, key: int, e: EnvelopeStages)
    requires
        op.attack < 16,
        op.decay < 16,
        op.release < 16,
        op.sustain < 16,
        0 <= key < 16,
    ensures
        EnvelopeStages::keyed(op, key).stage == EgStage::Attack,
        EnvelopeStages::keyed(op, key).sustain == op.sustain,
        EnvelopeStages::keyed(op, key).sustained == op.eg_sustained,
        op.attack > 0 && !op.ksr ==> EnvelopeStages::keyed(op, key).attack_rate == 4 * op.attack
            + key / 4,
        op.decay > 0 && !op.ksr ==> EnvelopeStages::keyed(op, key).decay_rate == 4 * op.decay
            + key / 4,
        op.release > 0 && !op.ksr ==> EnvelopeStages::keyed(op, key).release_rate == 4 * op.release
            + key / 4,
        e.stage != EgStage::Off ==> e.keyed_off().stage == EgStage::Release,
        e.stage == EgStage::Off ==> e.keyed_off() == e,
        e.keyed_off() == (EnvelopeStages { stage: e.keyed_off().stage, ..e }),
{
}

/// Melody and drum instruments have a voice, and no others; the carrier and
/// the modulator of it come from the instrument's registers.
pub proof fn law_adlib_kinds_have_a_voice(inst: Instrument)
    ensures
        inst.kind < 2 || inst.kind > 7 ==> inst.adlib_voice() is None,
        2 <= inst.kind && inst.kind <= 7 ==> (inst.adlib_voice() matches Some(voice)
            && from_registers(
            voice.modulator,
            inst.registers@[0],
            inst.registers@[2],
            inst.registers@[4],
            inst.registers@[6],
            inst.registers@[8],
        ) && from_registers(
            voice.carrier,
            inst.registers@[1],
            inst.registers@[3],
            inst.registers@[5],
            inst.registers@[7],
            inst.registers@[9],
        )),
{
    law_instrument_gives_registers_back(inst.registers@);
}

} // verus!
