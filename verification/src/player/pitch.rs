//! Pitch in Amiga periods, finetune, and sample offsets.
//!
//! A period counts clock cycles per sample frame, so the playback rate is
//! [`AMIGA_CLOCK_HZ`] divided by it.

use vstd::prelude::*;

verus! {

/// Base clock in Hz: 8363 * 1712.
pub const AMIGA_CLOCK_HZ: u32 = 14_317_456;

/// Shortest and longest period under the header's "Amiga limits" flag.
pub const AMIGA_LIMIT_PERIOD_MIN: u32 = 113;

pub const AMIGA_LIMIT_PERIOD_MAX: u32 = 856;

/// C5 speeds that S2x selects.
pub const S2X_FINETUNE_TABLE: [u32; 16] = [
    7895, 7941, 7985, 8046, 8107, 8169, 8232, 8280, 8363, 8413, 8463, 8529, 8581, 8651, 8723, 8757,
];

/// Periods of nine octaves of notes at a C5 speed of 8363 Hz.
pub const PERIOD_TABLE: [u32; 108] = [
    27392, 25856, 24384, 23040, 21696, 20480, 19328, 18240, 17216, 16256, 15360, 14496,
    13696, 12928, 12192, 11520, 10848, 10240, 9664, 9120, 8608, 8128, 7680, 7248,
    6848, 6464, 6096, 5760, 5424, 5120, 4832, 4560, 4304, 4064, 3840, 3624,
    3424, 3232, 3048, 2880, 2712, 2560, 2416, 2280, 2152, 2032, 1920, 1812,
    1712, 1616, 1524, 1440, 1356, 1280, 1208, 1140, 1076, 1016, 960, 906,
    856, 808, 762, 720, 678, 640, 604, 570, 538, 508, 480, 453,
    428, 404, 381, 360, 339, 320, 302, 285, 269, 254, 240, 226,
    214, 202, 190, 180, 170, 160, 151, 143, 135, 127, 120, 113,
    107, 101, 95, 90, 85, 80, 75, 71, 67, 63, 60, 56,
];

/// Index of the note that plays at the C5 speed: note byte 0x40.
pub const C5_NOTE_INDEX: u32 = 48;

/// The index of a note byte: octave in the high nibble, semitone in the low.
pub open spec fn note_index(note: int) -> int {
    12 * (note / 16) + note % 16
}

/// The period of the note with index `n` at a C5 speed. Notes above B-8
/// play B-8.
pub open spec fn period_of(n: int, c5_speed: int) -> int {
    let entry = PERIOD_TABLE[if n < 108 {
        n
    } else {
        107
    }];
    let period = (8363 * entry) / if c5_speed < 1 {
        1
    } else {
        c5_speed
    };
    if period < 1 {
        1
    } else {
        period
    }
}

/// `period` kept to the Amiga's range where the module asks for it.
pub open spec fn limited(period: int, amiga_limits: bool) -> int {
    if !amiga_limits {
        period
    } else if period < 113 {
        113
    } else if period > 856 {
        856
    } else {
        period
    }
}

/// The period of a note byte.
pub open spec fn note_period(note: int, c5_speed: int, amiga_limits: bool) -> int {
    limited(period_of(note_index(note), c5_speed), amiga_limits)
}

/// The period of the note with index `n` at a C5 speed.
pub fn note_index_to_period(n: u32, c5_speed: u32, amiga_limits: bool) -> (r: u32)
    ensures
        r == limited(period_of(n as int, c5_speed as int), amiga_limits),
        1 <= r <= 229079296,
{
    let i: usize = if n < 108 {
        n as usize
    } else {
        107
    };
    let c5: u32 = if c5_speed < 1 {
        1
    } else {
        c5_speed
    };
    let entry: u32 = PERIOD_TABLE[i];
    proof {
        lemma_table_range(i as int);
        assert((8363 * entry) / c5 as int <= 8363 * entry) by (nonlinear_arith)
            requires
                c5 >= 1,
                entry >= 0,
        ;
    }
    let quotient: u32 = 8363 * entry / c5;
    let period: u32 = if quotient < 1 {
        1
    } else {
        quotient
    };
    limit_period(period, amiga_limits)
}

/// The period of a note byte at a C5 speed.
pub fn note_to_period(note: u8, c5_speed: u32, amiga_limits: bool) -> (r: u32)
    ensures
        r == note_period(note as int, c5_speed as int, amiga_limits),
        1 <= r <= 229079296,
{
    note_index_to_period(12 * (note / 16) as u32 + (note % 16) as u32, c5_speed, amiga_limits)
}

/// Keep a period to the Amiga's range where the module asks for it.
pub fn limit_period(period: u32, amiga_limits: bool) -> (r: u32)
    ensures
        r == limited(period as int, amiga_limits),
{
    if !amiga_limits {
        period
    } else if period < AMIGA_LIMIT_PERIOD_MIN {
        AMIGA_LIMIT_PERIOD_MIN
    } else if period > AMIGA_LIMIT_PERIOD_MAX {
        AMIGA_LIMIT_PERIOD_MAX
    } else {
        period
    }
}

/// The sample frame that an offset stands for. In a looped sample an offset
/// past the loop end counts as if the sample had looped; a loop window that
/// is empty or reaches past the data is disregarded.
pub open spec fn offset_frame(
    offset: int,
    loop_start: int,
    loop_end: int,
    pcm_len: int,
    looped: bool,
) -> int {
    if looped && loop_start < loop_end <= pcm_len && offset >= loop_end {
        loop_start + (offset - loop_start) % (loop_end - loop_start)
    } else {
        offset
    }
}

/// Resolve an Oxx sample offset against a sample's loop.
pub fn resolve_sample_offset(
    offset_samples: u64,
    loop_start: u32,
    loop_end: u32,
    pcm_len: usize,
    looped: bool,
) -> (r: u64)
    ensures
        r == offset_frame(
            offset_samples as int,
            loop_start as int,
            loop_end as int,
            pcm_len as int,
            looped,
        ),
{
    if !looped || loop_end <= loop_start || loop_end as u64 > pcm_len as u64 {
        return offset_samples;
    }
    if offset_samples < loop_end as u64 {
        return offset_samples;
    }
    let start: u64 = loop_start as u64;
    let span: u64 = loop_end as u64 - start;
    proof {
        let over = offset_samples - start;
        let width = span as int;
        assert(0 <= over % width < width) by (nonlinear_arith)
            requires
                width > 0,
        ;
    }
    start + (offset_samples - start) % span
}

proof fn lemma_table_range(i: int)
    requires
        0 <= i < 108,
    ensures
        56 <= PERIOD_TABLE[i] <= 27392,
{
}

/// An octave up halves the period, up to rounding.
pub proof fn law_octave_halves_table_period(n: int)
    requires
        0 <= n < 96,
    ensures
        -1 <= 2 * PERIOD_TABLE[n + 12] - PERIOD_TABLE[n] <= 1,
{
}

/// A higher note has a shorter period.
pub proof fn law_table_descends(n: int)
    requires
        0 <= n < 107,
    ensures
        PERIOD_TABLE[n + 1] < PERIOD_TABLE[n],
{
}

/// The C-5 note plays at the instrument's C5 speed: its period is the clock
/// divided by that speed, without the fraction.
pub proof fn law_c5_plays_at_c5_speed(c5_speed: int)
    requires
        1 <= c5_speed <= AMIGA_CLOCK_HZ,
    ensures
        note_index(0x40) == C5_NOTE_INDEX,
        period_of(C5_NOTE_INDEX as int, c5_speed) * c5_speed <= AMIGA_CLOCK_HZ,
        AMIGA_CLOCK_HZ < (period_of(C5_NOTE_INDEX as int, c5_speed) + 1) * c5_speed,
{
    let clock = AMIGA_CLOCK_HZ as int;
    let period = clock / c5_speed;
    vstd::arithmetic::div_mod::lemma_fundamental_div_mod(clock, c5_speed);
    assert(period >= 1 && period * c5_speed <= clock < (period + 1) * c5_speed) by (nonlinear_arith)
        requires
            clock == c5_speed * period + clock % c5_speed,
            0 <= clock % c5_speed < c5_speed,
            1 <= c5_speed <= clock,
    ;
    assert(period_of(48, c5_speed) == period);
}

/// Under Amiga limits every note's period lies within them.
pub proof fn law_amiga_limits_hold(note: int, c5_speed: int)
    ensures
        AMIGA_LIMIT_PERIOD_MIN <= note_period(note, c5_speed, true) <= AMIGA_LIMIT_PERIOD_MAX,
{
}

/// A folded offset lies in the loop window, and an offset before the loop
/// end is taken as it is.
pub proof fn law_offset_lands_before_loop_end(
    offset: int,
    loop_start: int,
    loop_end: int,
    pcm_len: int,
)
    requires
        0 <= offset,
        0 <= loop_start < loop_end <= pcm_len,
    ensures
        0 <= offset_frame(offset, loop_start, loop_end, pcm_len, true) < loop_end,
        offset < loop_end ==> offset_frame(offset, loop_start, loop_end, pcm_len, true) == offset,
        offset >= loop_end ==> offset_frame(offset, loop_start, loop_end, pcm_len, true)
            >= loop_start,
{
    let span = loop_end - loop_start;
    assert(0 <= (offset - loop_start) % span < span) by (nonlinear_arith)
        requires
            span > 0,
    ;
}

/// Neighbouring notes are a semitone apart, the ratio of their periods
/// between 1.05 and 1.072, and four octaves up the note at the C5 speed of
/// 8363 Hz plays at the base clock.
pub proof fn law_semitones_are_even(n: int)
    requires
        0 <= n < 107,
    ensures
        1050 * PERIOD_TABLE[n + 1] <= 1000 * PERIOD_TABLE[n] <= 1072 * PERIOD_TABLE[n + 1],
        8363 * PERIOD_TABLE[C5_NOTE_INDEX as int] == AMIGA_CLOCK_HZ,
        C5_NOTE_INDEX == 4 * 12,
{
}

/// The period of a note is the largest one at which the sample does not play
/// slower than the note asks: the period times the C5 speed comes up to 8363
/// times the note's table entry, and one more exceeds it. No period is below
/// 1, and notes above the table play its last one.
pub proof fn law_period_follows_c5_speed(octave: int, semitone: int, c5_speed: int)
    requires
        0 <= octave < 16,
        0 <= semitone < 16,
        1 <= c5_speed,
    ensures
        ({
            let n = if 12 * octave + semitone < 108 {
                12 * octave + semitone
            } else {
                107
            };
            let period = note_period(16 * octave + semitone, c5_speed, false);
            &&& period >= 1
            &&& period * c5_speed <= 8363 * PERIOD_TABLE[n] || period == 1
            &&& 8363 * PERIOD_TABLE[n] < (period + 1) * c5_speed
        }),
{
    let n = if 12 * octave + semitone < 108 {
        12 * octave + semitone
    } else {
        107
    };
    let note = 16 * octave + semitone;
    assert(note / 16 == octave && note % 16 == semitone);
    lemma_floor(8363 * PERIOD_TABLE[n], c5_speed);
    let q = (8363 * PERIOD_TABLE[n]) / c5_speed;
    if q < 1 {
        assert(8363 * PERIOD_TABLE[n] < 2 * c5_speed) by (nonlinear_arith)
            requires
                8363 * PERIOD_TABLE[n] < (q + 1) * c5_speed,
                q < 1,
                c5_speed >= 1,
        ;
    }
}

proof fn lemma_floor(a: int, d: int)
    requires
        0 <= a,
        1 <= d,
    ensures
        a / d >= 0,
        (a / d) * d <= a < (a / d + 1) * d,
{
    let q = a / d;
    vstd::arithmetic::div_mod::lemma_fundamental_div_mod(a, d);
    assert(q >= 0 && q * d <= a < (q + 1) * d) by (nonlinear_arith)
        requires
            a == d * q + a % d,
            0 <= a % d < d,
            0 <= a,
            1 <= d,
            q == a / d,
    ;
}

/// A higher C5 speed never makes a note longer, and a higher note never has
/// a longer period.
pub proof fn law_pitch_rises(octave: int, semitone: int, c5_speed: int, faster: int, limits: bool)
    requires
        0 <= octave < 9,
        0 <= semitone < 11,
        1 <= c5_speed <= faster,
    ensures
        note_period(16 * octave + semitone, faster, limits) <= note_period(
            16 * octave + semitone,
            c5_speed,
            limits,
        ),
        note_period(16 * octave + semitone + 1, c5_speed, limits) <= note_period(
            16 * octave + semitone,
            c5_speed,
            limits,
        ),
{
    let n = 12 * octave + semitone;
    let note = 16 * octave + semitone;
    assert(note / 16 == octave && note % 16 == semitone);
    assert((note + 1) / 16 == octave && (note + 1) % 16 == semitone + 1);
    law_table_descends(n);
    lemma_table_range(n);
    lemma_table_range(n + 1);
    vstd::arithmetic::div_mod::lemma_div_is_ordered_by_denominator(
        8363 * PERIOD_TABLE[n],
        c5_speed,
        faster,
    );
    vstd::arithmetic::div_mod::lemma_div_is_ordered(
        8363 * PERIOD_TABLE[n + 1],
        8363 * PERIOD_TABLE[n],
        c5_speed,
    );
}

/// The Amiga limits leave a period between 113 and 856 alone and move any
/// other to the nearer of the two.
pub proof fn law_amiga_limits_clamp(note: int, c5_speed: int)
    ensures
        ({
            let free = note_period(note, c5_speed, false);
            let kept = note_period(note, c5_speed, true);
            &&& 113 <= free <= 856 ==> kept == free
            &&& free < 113 ==> kept == 113
            &&& free > 856 ==> kept == 856
        }),
{
}

/// The finetunes of S2x rise with their number, and number 8 is the rate at
/// which the period table is written.
pub proof fn law_finetunes_rise(i: int)
    requires
        0 <= i < 15,
    ensures
        S2X_FINETUNE_TABLE[i] < S2X_FINETUNE_TABLE[i + 1] <= S2X_FINETUNE_TABLE[i] + 83,
        S2X_FINETUNE_TABLE[8] == 8363,
        S2X_FINETUNE_TABLE[0] == 7895,
{
}

/// An offset into a sample that does not loop is taken as it is; in a looped
/// one it moves by whole loops only.
pub proof fn law_offset_moves_by_whole_loops(
    offset: int,
    loop_start: int,
    loop_end: int,
    pcm_len: int,
)
    requires
        0 <= offset,
        0 <= loop_start < loop_end <= pcm_len,
    ensures
        offset_frame(offset, loop_start, loop_end, pcm_len, false) == offset,
        (offset - offset_frame(offset, loop_start, loop_end, pcm_len, true)) % (loop_end
            - loop_start) == 0,
{
    let span = loop_end - loop_start;
    let over = offset - loop_start;
    if offset >= loop_end {
        vstd::arithmetic::div_mod::lemma_fundamental_div_mod(over, span);
        vstd::arithmetic::div_mod::lemma_mod_multiples_basic(over / span, span);
        assert(over - over % span == (over / span) * span) by (nonlinear_arith)
            requires
                over == span * (over / span) + over % span,
        ;
    } else {
        vstd::arithmetic::div_mod::lemma_small_mod(0, span as nat);
    }
}

} // verus!
