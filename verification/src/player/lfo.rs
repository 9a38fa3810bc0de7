//! Vibrato and tremolo waveforms.

use vstd::prelude::*;

verus! {

/// Vibrato / tremolo waveform selector (S3x / S4x parameter low nibble).
#[derive(Clone, Copy, Debug, PartialEq, Eq, Structural)]
pub enum Waveform {
    /// Sine of 64 positions, which selector 3 gives as well.
    Sine,
    /// Linear ramp from +max down to -max over the period.
    RampDown,
    /// +max / -max square (no in-between values).
    Square,
    /// Random value per tick, from a 32-bit generator so that the output is
    /// reproducible. No selector gives it.
    Random,
}

impl Default for Waveform {
    fn default() -> (r: Self)
        ensures
            r == Waveform::Sine,
    {
        Waveform::Sine
    }
}

impl Waveform {
    /// The waveform that the low two bits of `x` select: 0 is the sine, 1 the
    /// ramp, 2 the square, and 3 the sine again.
    pub open spec fn of_nibble(x: int) -> Waveform {
        if x % 4 == 1 {
            Waveform::RampDown
        } else if x % 4 == 2 {
            Waveform::Square
        } else {
            Waveform::Sine
        }
    }

    pub fn from_nibble(x: u8) -> (r: Self)
        ensures
            r == Waveform::of_nibble(x as int),
    {
        match x % 4 {
            1 => Waveform::RampDown,
            2 => Waveform::Square,
            _ => Waveform::Sine,
        }
    }
}

/// The ProTracker half-sine: half a period, from 0 up to 255 and back.
pub const PROTRACKER_SINE: [u8; 32] = [
    0, 24, 49, 74, 97, 120, 141, 161, 180, 197, 212, 224, 235, 244, 250, 253, 255, 253, 250, 244, 235,
    224, 212, 197, 180, 161, 141, 120, 97, 74, 49, 24,
];

/// The sine at a table position: a quarter of the half-sine, above zero in
/// positions 0..=31 and below it in 32..=63.
pub open spec fn sine_value(pos: int) -> int {
    let level = PROTRACKER_SINE[pos % 32] as int / 4;
    if pos % 64 < 32 {
        level
    } else {
        -level
    }
}

/// `a / b` without its fraction.
pub open spec fn truncated(a: int, b: int) -> int {
    if a >= 0 {
        a / b
    } else {
        -((-a) / b)
    }
}

/// The generator state that follows `x`.
pub open spec fn next_random(x: int) -> int {
    (x * 1664525 + 1013904223) % 4294967296
}

/// The top byte of a generator state, read as a signed number.
pub open spec fn top_byte_signed(x: int) -> int {
    if x / 16777216 < 128 {
        x / 16777216
    } else {
        x / 16777216 - 256
    }
}

/// The value of a waveform at a table position, in -64..=64. `rng` is the
/// generator state before the sample.
pub open spec fn lfo_value(wf: Waveform, pos: int, rng: int) -> int {
    match wf {
        Waveform::Sine => sine_value(pos),
        Waveform::RampDown => 64 - 2 * (pos % 64),
        Waveform::Square => if pos % 64 < 32 {
            64
        } else {
            -64
        },
        Waveform::Random => truncated(top_byte_signed(next_random(rng)), 2),
    }
}

/// The generator state after a waveform is sampled: only the random one
/// steps it.
pub open spec fn lfo_random(wf: Waveform, rng: int) -> int {
    if wf == Waveform::Random {
        next_random(rng)
    } else {
        rng
    }
}

/// Sample the selected waveform at table position `pos`. `Random` consumes
/// one step of the channel's generator.
pub fn waveform_sample(wf: Waveform, pos: u8, rng: &mut u32) -> (r: i32)
    ensures
        r == lfo_value(wf, pos as int, *old(rng) as int),
        *final(rng) == lfo_random(wf, *old(rng) as int),
        -64 <= r <= 64,
{
    match wf {
        Waveform::Sine => {
            let level: i32 = (PROTRACKER_SINE[(pos % 32) as usize] / 4) as i32;
            if pos % 64 < 32 {
                level
            } else {
                -level
            }
        },
        Waveform::RampDown => 64 - 2 * ((pos % 64) as i32),
        Waveform::Square => if pos % 64 < 32 {
            64
        } else {
            -64
        },
        Waveform::Random => {
            *rng = ((*rng as u64 * 1664525 + 1013904223) % 4294967296) as u32;
            let top: i32 = (*rng / 16777216) as i32;
            let signed: i32 = if top < 128 {
                top
            } else {
                top - 256
            };
            signed / 2
        },
    }
}

/// Every waveform stays within 64 of zero, and the sine within 63.
pub proof fn law_waveforms_are_bounded(wf: Waveform, pos: int, rng: int)
    requires
        0 <= rng < 4294967296,
    ensures
        -64 <= lfo_value(wf, pos, rng) <= 64,
        wf == Waveform::Sine ==> -63 <= lfo_value(wf, pos, rng) <= 63,
        0 <= lfo_random(wf, rng) < 4294967296,
{
}

/// The half-sine starts at zero and is symmetric about its peak of 255 in
/// the middle.
pub proof fn law_half_sine_is_symmetric(i: int)
    requires
        0 < i < 32,
    ensures
        PROTRACKER_SINE[0] == 0,
        PROTRACKER_SINE[16] == 255,
        PROTRACKER_SINE[i] == PROTRACKER_SINE[32 - i],
        i != 16 ==> PROTRACKER_SINE[i] < 255,
{
}

/// No selector gives the random waveform, so none makes a channel use its
/// generator.
pub proof fn law_selectors_leave_generator(x: int, rng: int)
    ensures
        lfo_random(Waveform::of_nibble(x), rng) == rng,
{
}

/// The sine and the square change sign half a period on.
pub proof fn law_sine_and_square_are_odd(pos: int, rng: int)
    requires
        0 <= pos,
    ensures
        lfo_value(Waveform::Sine, pos + 32, rng) == -lfo_value(Waveform::Sine, pos, rng),
        lfo_value(Waveform::Square, pos + 32, rng) == -lfo_value(Waveform::Square, pos, rng),
{
    let p = pos % 64;
    assert((pos + 32) % 64 == if p < 32 {
        p + 32
    } else {
        p - 32
    });
    assert((pos + 32) % 32 == pos % 32);
}

/// A quarter period apart the half-sine and itself make up a circle: their
/// squares add up to that of the peak, within a hundredth.
pub proof fn law_half_sine_is_a_sine(i: int)
    requires
        0 <= i <= 16,
    ensures
        64500 <= PROTRACKER_SINE[i] * PROTRACKER_SINE[i] + PROTRACKER_SINE[16 - i]
            * PROTRACKER_SINE[16 - i] <= 65025,
        i < 16 ==> PROTRACKER_SINE[i] < PROTRACKER_SINE[i + 1],
{
    lemma_half_sine_squares(i);
}

proof fn lemma_half_sine_squares(i: int)
    requires
        0 <= i <= 16,
    ensures
        64500 <= PROTRACKER_SINE[i] * PROTRACKER_SINE[i] + PROTRACKER_SINE[16 - i]
            * PROTRACKER_SINE[16 - i] <= 65025,
{
    let a = PROTRACKER_SINE[i] as int;
    let b = PROTRACKER_SINE[16 - i] as int;
    assert((a == 0 && b == 255) || (a == 24 && b == 253) || (a == 49 && b == 250) || (a == 74 && b
        == 244) || (a == 97 && b == 235) || (a == 120 && b == 224) || (a == 141 && b == 212) || (a
        == 161 && b == 197) || (a == 180 && b == 180) || (a == 197 && b == 161) || (a == 212 && b
        == 141) || (a == 224 && b == 120) || (a == 235 && b == 97) || (a == 244 && b == 74) || (a
        == 250 && b == 49) || (a == 253 && b == 24) || (a == 255 && b == 0));
}

/// The sine is above zero in the first half of its period and below it in
/// the second, zero only where the halves meet, and a quarter of the
/// half-sine without its fraction.
pub proof fn law_sine_swings_both_ways(pos: int, rng: int)
    requires
        0 <= pos < 64,
    ensures
        pos == 0 || pos == 32 ==> lfo_value(Waveform::Sine, pos, rng) == 0,
        0 < pos < 32 ==> lfo_value(Waveform::Sine, pos, rng) > 0,
        32 < pos < 64 ==> lfo_value(Waveform::Sine, pos, rng) < 0,
        pos < 32 ==> 4 * lfo_value(Waveform::Sine, pos, rng) <= PROTRACKER_SINE[pos],
        pos < 32 ==> PROTRACKER_SINE[pos] < 4 * lfo_value(Waveform::Sine, pos, rng) + 4,
        pos >= 32 ==> lfo_value(Waveform::Sine, pos, rng) == -lfo_value(
            Waveform::Sine,
            pos - 32,
            rng,
        ),
{
    law_half_sine_is_a_sine(
        if pos % 32 <= 16 {
            pos % 32
        } else {
            32 - pos % 32
        },
    );
}

/// The ramp starts at 64 and loses 2 with every position of its period; the
/// square is 64 for the first half and -64 for the second.
pub proof fn law_ramp_falls_and_square_flips(pos: int, rng: int)
    requires
        0 <= pos < 64,
    ensures
        lfo_value(Waveform::RampDown, 0, rng) == 64,
        pos < 63 ==> lfo_value(Waveform::RampDown, pos + 1, rng) == lfo_value(
            Waveform::RampDown,
            pos,
            rng,
        ) - 2,
        lfo_value(Waveform::Square, pos, rng) == if pos < 32 {
            64int
        } else {
            -64
        },
{
}

/// Every waveform but the random one repeats after 64 positions and does not
/// look at the generator.
pub proof fn law_waveforms_repeat(wf: Waveform, pos: int, rng: int, other: int)
    requires
        wf != Waveform::Random,
    ensures
        lfo_value(wf, pos + 64, rng) == lfo_value(wf, pos, other),
        lfo_random(wf, rng) == rng,
{
    assert((pos + 64) % 64 == pos % 64);
    assert((pos + 64) % 32 == pos % 32);
}

/// The selector goes by its two low bits: those of bit 2 and above make no
/// difference, and the three shapes are told apart.
pub proof fn law_selector_goes_by_low_bits(x: int)
    requires
        0 <= x,
    ensures
        Waveform::of_nibble(x + 4) == Waveform::of_nibble(x),
        Waveform::of_nibble(x) == Waveform::RampDown <==> x % 4 == 1,
        Waveform::of_nibble(x) == Waveform::Square <==> x % 4 == 2,
        Waveform::of_nibble(x) == Waveform::Sine <==> x % 4 == 0 || x % 4 == 3,
{
}

/// The generator steps as a linear congruence of 32 bits does, and the value
/// drawn from it is half its top byte read as a signed number.
pub proof fn law_random_waveform(rng: int, pos: int)
    requires
        0 <= rng < 4294967295,
    ensures
        next_random(0) == 1013904223,
        (next_random(rng + 1) - next_random(rng)) % 4294967296 == 1664525,
        lfo_random(Waveform::Random, rng) == next_random(rng),
        next_random(rng) < 2147483648 ==> 0 <= next_random(rng) - 33554432 * lfo_value(
            Waveform::Random,
            pos,
            rng,
        ) < 33554432,
        next_random(rng) >= 2147483648 ==> lfo_value(Waveform::Random, pos, rng) <= 0,
{
    let a = rng * 1664525 + 1013904223;
    assert((rng + 1) * 1664525 + 1013904223 == a + 1664525);
    assert(((a + 1664525) % 4294967296 - a % 4294967296) % 4294967296 == 1664525) by {
        let m = a % 4294967296;
        assert((a + 1664525) % 4294967296 == if m + 1664525 < 4294967296 {
            m + 1664525
        } else {
            m + 1664525 - 4294967296
        });
    }
}

} // verus!
