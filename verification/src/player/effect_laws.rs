//! What each effect is heard to do, tick by tick.

use vstd::prelude::*;

use crate::header::Bank;
use crate::pattern::Cell;
use crate::player::channel::{Channel, Mode, NoteOp, PitchOp};
use crate::player::lfo::{Waveform, PROTRACKER_SINE};
use crate::player::note_laws::{clamped, plays_note};
use crate::player::pitch::{
    law_period_follows_c5_speed, period_of, PERIOD_TABLE, S2X_FINETUNE_TABLE,
};
use crate::player::volume::{law_volume_slides, slid};
use crate::samples::SampleBody;

verus! {

/// A later tick of a channel that holds no note back: the effect alone.
proof fn lemma_tick_is_effect(c: Channel, tick: int, samples: Seq<SampleBody>, mode: Mode)
    requires
        c.pending_delay is None,
        c.command != 19,
    ensures
        c.ticked(tick, samples, mode) == (Channel {
            note_op: NoteOp::Idle,
            pitch_op: PitchOp::Idle,
            ..c
        }).affected(tick, mode),
{
    let rested = c.rested();
    assert(rested.fired(tick, samples, mode) == rested);
    assert(rested.cut(tick) == rested);
}

/// The first tick of a row without note, instrument and volume: the effect
/// alone.
proof fn lemma_first_tick_is_effect(
    c: Channel,
    cell: Cell,
    samples: Seq<SampleBody>,
    mode: Mode,
)
    requires
        cell.note == 0xFF,
        cell.instrument == 0,
        cell.volume == 0xFF,
        cell.command != 7,
        cell.command != 12,
    ensures
        c.entered(cell, samples, mode) == c.armed(cell).affected_on_tick_zero(mode),
        c.armed(cell).command == cell.command,
        c.armed(cell) == (Channel {
            command: cell.command,
            info: c.armed(cell).info,
            frozen: c.armed(cell).frozen,
            effect_memory: c.armed(cell).effect_memory,
            retrig_counter: c.armed(cell).retrig_counter,
            pending_delay: c.armed(cell).pending_delay,
            note_op: NoteOp::Idle,
            pitch_op: PitchOp::Idle,
            ..c
        }),
        cell.info != 0 ==> c.armed(cell).info == cell.info,
{
    let armed = c.armed(cell);
    assert(armed.loaded(0, samples, mode) == armed);
    assert(armed.noted(0xFF, samples, mode) == armed);
    assert(armed.columned(0xFF, mode) == armed);
}

/// A channel without a command, or with one that only the player heeds,
/// plays on unchanged on every later tick.
pub proof fn law_no_effect_no_change(c: Channel, tick: int, samples: Seq<SampleBody>, mode: Mode)
    requires
        c.pending_delay is None,
        c.command <= 3 || c.command == 15 || c.command == 20 || c.command == 22 || c.command == 24
            || c.command > 24,
    ensures
        c.ticked(tick, samples, mode) == (Channel {
            note_op: NoteOp::Idle,
            pitch_op: PitchOp::Idle,
            ..c
        }),
{
    lemma_tick_is_effect(c, tick, samples, mode);
}

/// How far off the note a waveform takes the pitch at a position: its value
/// there, of -64 to 64, times the depth, by the divisor and without the
/// fraction.
pub open spec fn swings(delta: int, wf: Waveform, pos: int, depth: int, divisor: int) -> bool {
    match wf {
        Waveform::Sine => {
            let level = PROTRACKER_SINE[pos % 32] as int / 4;
            if pos < 32 {
                delta == (level * depth) / divisor
            } else {
                delta == -((level * depth) / divisor)
            }
        },
        Waveform::RampDown => if pos <= 32 {
            delta == ((64 - 2 * pos) * depth) / divisor
        } else {
            delta == -(((2 * pos - 64) * depth) / divisor)
        },
        Waveform::Square => if pos < 32 {
            delta == (64 * depth) / divisor
        } else {
            delta == -((64 * depth) / divisor)
        },
        Waveform::Random => true,
    }
}

/// Hxy moves the phase by four times `x`, round a cycle of 64, and takes the
/// pitch off the note by the waveform there times `y`, up where it is above
/// zero and down where it is below. Nothing else of the channel changes.
pub proof fn law_vibrato(c: Channel, tick: int, samples: Seq<SampleBody>, mode: Mode)
    requires
        c.command == 8,
        c.info != 0,
        c.targeted,
        c.pending_delay is None,
    ensures
        ({
            let r = c.ticked(tick, samples, mode);
            let pos = (c.vibrato_pos + 4 * (c.info as int / 16)) % 64;
            &&& r.pitch_op matches PitchOp::Vibrato { delta } && swings(
                delta as int,
                c.vibrato_waveform,
                pos,
                c.info as int % 16,
                128,
            )
            &&& r == (Channel {
                vibrato_pos: pos as u8,
                random_state: r.random_state,
                pitched: true,
                note_op: NoteOp::Idle,
                pitch_op: r.pitch_op,
                ..c
            })
            &&& c.vibrato_waveform != Waveform::Random ==> r.random_state == c.random_state
        }),
{
    lemma_tick_is_effect(c, tick, samples, mode);
    let rested = Channel { note_op: NoteOp::Idle, pitch_op: PitchOp::Idle, ..c };
    lemma_vibrated(rested, c.info as int / 16, c.info as int % 16, false);
}

/// Uxy does as Hxy at a quarter of the depth.
pub proof fn law_fine_vibrato(c: Channel, tick: int, samples: Seq<SampleBody>, mode: Mode)
    requires
        c.command == 21,
        c.info != 0,
        c.targeted,
        c.pending_delay is None,
    ensures
        ({
            let r = c.ticked(tick, samples, mode);
            let pos = (c.vibrato_pos + 4 * (c.info as int / 16)) % 64;
            &&& r.pitch_op matches PitchOp::Vibrato { delta } && swings(
                delta as int,
                c.vibrato_waveform,
                pos,
                c.info as int % 16,
                512,
            )
            &&& r == (Channel {
                vibrato_pos: pos as u8,
                random_state: r.random_state,
                pitched: true,
                note_op: NoteOp::Idle,
                pitch_op: r.pitch_op,
                ..c
            })
        }),
{
    lemma_tick_is_effect(c, tick, samples, mode);
    let rested = Channel { note_op: NoteOp::Idle, pitch_op: PitchOp::Idle, ..c };
    lemma_vibrated(rested, c.info as int / 16, c.info as int % 16, true);
}

proof fn lemma_vibrated(c: Channel, speed: int, depth: int, fine: bool)
    requires
        0 <= speed < 16,
        0 <= depth < 16,
        speed + depth > 0,
        c.targeted,
    ensures
        ({
            let r = c.vibrated(speed, depth, fine);
            let pos = (c.vibrato_pos + 4 * speed) % 64;
            &&& r.pitch_op matches PitchOp::Vibrato { delta } && swings(
                delta as int,
                c.vibrato_waveform,
                pos,
                depth,
                if fine {
                    512
                } else {
                    128
                },
            )
            &&& r == (Channel {
                vibrato_pos: pos as u8,
                random_state: r.random_state,
                pitched: true,
                pitch_op: r.pitch_op,
                ..c
            })
            &&& c.vibrato_waveform != Waveform::Random ==> r.random_state == c.random_state
        }),
{
    let pos = (c.vibrato_pos + 4 * speed) % 64;
    let level = PROTRACKER_SINE[pos % 32] as int / 4;
    assert(0 <= level * depth <= 63 * 15 && (-level) * depth == -(level * depth))
        by (nonlinear_arith)
        requires
            0 <= level <= 63,
            0 <= depth <= 15,
    ;
    let ramp = 64 - 2 * pos;
    let fall = 2 * pos - 64;
    assert(ramp * depth == -(fall * depth) && -960 <= ramp * depth <= 960) by (nonlinear_arith)
        requires
            ramp == -fall,
            -64 <= ramp <= 64,
            0 <= depth <= 15,
    ;
    assert((-64) * depth == -(64 * depth));
    assert(ramp >= 0 ==> ramp * depth >= 0) by (nonlinear_arith)
        requires
            0 <= depth,
    ;
    assert(fall >= 0 ==> fall * depth >= 0) by (nonlinear_arith)
        requires
            0 <= depth,
    ;
    assert(pos % 64 == pos);
}

/// Vibrato swings evenly round the note. Half a period on, sine and square
/// take the pitch as far down as they took it up; in the second half of the
/// sine it is never above the note, and at the trough well below.
pub proof fn law_vibrato_swings_evenly(
    c: Channel,
    later: Channel,
    tick: int,
    samples: Seq<SampleBody>,
    mode: Mode,
)
    requires
        c.command == 8,
        c.info != 0,
        c.targeted,
        c.pending_delay is None,
        c.vibrato_waveform == Waveform::Sine || c.vibrato_waveform == Waveform::Square,
        c.vibrato_pos < 64,
        later == (Channel { vibrato_pos: ((c.vibrato_pos + 32) % 64) as u8, ..c }),
    ensures
        ({
            let r = c.ticked(tick, samples, mode);
            let s = later.ticked(tick, samples, mode);
            &&& r.pitch_op matches PitchOp::Vibrato { delta: up } && s.pitch_op
                matches PitchOp::Vibrato { delta: down } && up == -down && (r.vibrato_pos >= 32
                ==> up <= 0) && (r.vibrato_pos < 32 ==> up >= 0) && (r.vibrato_pos == 48 && c.info
                % 16 >= 3 ==> up < 0) && (r.vibrato_pos == 16 && c.info % 16 >= 3 ==> up > 0)
            &&& s.vibrato_pos == (r.vibrato_pos + 32) % 64
        }),
{
    law_vibrato(c, tick, samples, mode);
    law_vibrato(later, tick, samples, mode);
    let speed = c.info as int / 16;
    let r = c.ticked(tick, samples, mode);
    let s = later.ticked(tick, samples, mode);
    let pos = (c.vibrato_pos + 4 * speed) % 64;
    lemma_half_period_on(c.vibrato_pos as int, speed);
    lemma_opposite_swings(
        r.pitch_op->delta as int,
        s.pitch_op->delta as int,
        c.vibrato_waveform,
        pos,
        c.info as int % 16,
    );
}

proof fn lemma_half_period_on(at: int, speed: int)
    requires
        0 <= at < 64,
        0 <= speed < 16,
    ensures
        ((at + 32) % 64 + 4 * speed) % 64 == ((at + 4 * speed) % 64 + 32) % 64,
{
    let k = at + 4 * speed;
    assert((at + 32) % 64 == if at < 32 {
        at + 32
    } else {
        at - 32
    });
    assert(k % 64 == if k < 64 {
        k
    } else {
        k - 64
    });
}

proof fn lemma_opposite_swings(up: int, down: int, wf: Waveform, pos: int, depth: int)
    requires
        wf == Waveform::Sine || wf == Waveform::Square,
        0 <= pos < 64,
        0 <= depth < 16,
        swings(up, wf, pos, depth, 128),
        swings(down, wf, (pos + 32) % 64, depth, 128),
    ensures
        up == -down,
        pos >= 32 ==> up <= 0,
        pos < 32 ==> up >= 0,
        pos == 48 && depth >= 3 ==> up < 0,
        pos == 16 && depth >= 3 ==> up > 0,
{
    let half = (pos + 32) % 64;
    assert(half == if pos < 32 {
        pos + 32
    } else {
        pos - 32
    });
    let i = if pos < 32 {
        pos
    } else {
        pos - 32
    };
    assert(pos % 32 == i && half % 32 == i);
    let level = PROTRACKER_SINE[i] as int / 4;
    let product = level * depth;
    assert(0 <= product) by (nonlinear_arith)
        requires
            0 <= level,
            0 <= depth,
            product == level * depth,
    ;
    if i == 16 {
        assert(level == 63);
        assert(product == 63 * depth);
        assert(depth >= 3 ==> product >= 189);
    }
}

/// Without a parameter or a note to swing round, vibrato does nothing.
pub proof fn law_vibrato_needs_a_note(c: Channel, tick: int, samples: Seq<SampleBody>, mode: Mode)
    requires
        c.command == 8 || c.command == 21,
        c.info == 0 || !c.targeted,
        c.pending_delay is None,
    ensures
        c.ticked(tick, samples, mode) == (Channel {
            note_op: NoteOp::Idle,
            pitch_op: PitchOp::Idle,
            ..c
        }),
{
    lemma_tick_is_effect(c, tick, samples, mode);
}

/// Whether `after` is the volume that a slide of `x` up or `y` down makes of
/// `before`, between 0 and 63.
pub open spec fn slides(after: int, before: int, x: int, y: int) -> bool {
    &&& x > 0 && y == 0 ==> after == before + x || before + x > 63 && after == 63
    &&& y > 0 ==> after == before - y || before < y && after == 0
    &&& x == 0 && y == 0 ==> after == before
}

proof fn lemma_with_slide(c: Channel, before: u8, x: int, y: int, mode: Mode)
    requires
        0 <= x < 16,
        0 <= y < 16,
        !(x == 15 && y != 0),
        !(y == 15 && x != 0),
        c.volume == before,
        before <= 63,
    ensures
        ({
            let r = c.with_slide(slid(before as int, x, y), mode);
            &&& slides(r.volume as int, before as int, x, y)
            &&& r == (Channel { volume: r.volume, latched_global: r.latched_global, ..c })
        }),
{
    law_volume_slides(before as int, x, y);
}

/// Kxy goes on with the vibrato that H was last given and slides the volume
/// as Dxy does; nothing else changes.
pub proof fn law_vibrato_with_slide(c: Channel, tick: int, samples: Seq<SampleBody>, mode: Mode)
    requires
        c.command == 11,
        c.pending_delay is None,
        !(c.info / 16 == 15 && c.info % 16 != 0),
        !(c.info % 16 == 15 && c.info / 16 != 0),
        c.effect_memory[8] != 0,
        c.targeted,
        c.volume <= 63,
    ensures
        ({
            let r = c.ticked(tick, samples, mode);
            let pos = (c.vibrato_pos + 4 * (c.effect_memory[8] as int / 16)) % 64;
            &&& r.pitch_op matches PitchOp::Vibrato { delta } && swings(
                delta as int,
                c.vibrato_waveform,
                pos,
                c.effect_memory[8] as int % 16,
                128,
            )
            &&& slides(r.volume as int, c.volume as int, c.info as int / 16, c.info as int % 16)
            &&& r == (Channel {
                vibrato_pos: pos as u8,
                random_state: r.random_state,
                pitched: true,
                volume: r.volume,
                latched_global: r.latched_global,
                note_op: NoteOp::Idle,
                pitch_op: r.pitch_op,
                ..c
            })
        }),
{
    let rested = Channel { note_op: NoteOp::Idle, pitch_op: PitchOp::Idle, ..c };
    let m = c.effect_memory[8] as int;
    let x = c.info as int / 16;
    let y = c.info as int % 16;
    let v = rested.vibrated(m / 16, m % 16, false);
    lemma_tick_is_effect(c, tick, samples, mode);
    lemma_vibrato_and_slide(rested, tick, mode);
    lemma_vibrated(rested, m / 16, m % 16, false);
    lemma_with_slide(v, c.volume, x, y, mode);
}

proof fn lemma_vibrato_and_slide(c: Channel, tick: int, mode: Mode)
    requires
        c.command == 11,
        !(c.info / 16 == 15 && c.info % 16 != 0),
        !(c.info % 16 == 15 && c.info / 16 != 0),
    ensures
        c.affected(tick, mode) == c.vibrated(
            c.effect_memory[8] as int / 16,
            c.effect_memory[8] as int % 16,
            false,
        ).with_slide(slid(c.volume as int, c.info as int / 16, c.info as int % 16), mode),
{
}

/// Lxy goes on with the portamento that G was last given and slides the
/// volume as Dxy does; nothing else changes.
pub proof fn law_portamento_with_slide(c: Channel, tick: int, samples: Seq<SampleBody>, mode: Mode)
    requires
        c.command == 12,
        c.pending_delay is None,
        !(c.info / 16 == 15 && c.info % 16 != 0),
        !(c.info % 16 == 15 && c.info / 16 != 0),
        c.volume <= 63,
    ensures
        ({
            let r = c.ticked(tick, samples, mode);
            &&& slides(r.volume as int, c.volume as int, c.info as int / 16, c.info as int % 16)
            &&& r == (Channel {
                volume: r.volume,
                latched_global: r.latched_global,
                note_op: NoteOp::Idle,
                pitch_op: if c.targeted && c.effect_memory[7] != 0 {
                    PitchOp::TonePorta { step: c.effect_memory[7] }
                } else {
                    PitchOp::Idle
                },
                ..c
            })
        }),
{
    let rested = Channel { note_op: NoteOp::Idle, pitch_op: PitchOp::Idle, ..c };
    let v = rested.gliding(c.effect_memory[7]);
    let r = v.with_slide(slid(c.volume as int, c.info as int / 16, c.info as int % 16), mode);
    assert(c.ticked(tick, samples, mode) == r) by {
        lemma_tick_is_effect(c, tick, samples, mode);
        lemma_glide_and_slide(rested, tick, mode);
    }
    lemma_glide_sets_order(rested, c.effect_memory[7]);
    lemma_with_slide(v, c.volume, c.info as int / 16, c.info as int % 16, mode);
}

proof fn lemma_glide_sets_order(c: Channel, step: u8)
    requires
        c.pitch_op == PitchOp::Idle,
    ensures
        c.gliding(step) == (Channel {
            pitch_op: if c.targeted && step != 0 {
                PitchOp::TonePorta { step }
            } else {
                PitchOp::Idle
            },
            ..c
        }),
{
}

proof fn lemma_glide_and_slide(c: Channel, tick: int, mode: Mode)
    requires
        c.command == 12,
        !(c.info / 16 == 15 && c.info % 16 != 0),
        !(c.info % 16 == 15 && c.info / 16 != 0),
    ensures
        c.affected(tick, mode) == c.gliding(c.effect_memory[7]).with_slide(
            slid(c.volume as int, c.info as int / 16, c.info as int % 16),
            mode,
        ),
{
}

/// Gxx moves the pitch by `xx` toward the target on every tick but the
/// first, as long as there is one, and changes nothing else.
pub proof fn law_tone_portamento(c: Channel, tick: int, samples: Seq<SampleBody>, mode: Mode)
    requires
        c.command == 7,
        c.pending_delay is None,
    ensures
        c.ticked(tick, samples, mode) == (Channel {
            note_op: NoteOp::Idle,
            pitch_op: if c.targeted && c.info != 0 {
                PitchOp::TonePorta { step: c.info }
            } else {
                PitchOp::Idle
            },
            ..c
        }),
{
    lemma_tick_is_effect(c, tick, samples, mode);
}

/// Exx slides the pitch down by four units a step on every tick but the
/// first. Its fine forms, from 0xE0 on, do nothing there.
pub proof fn law_slide_down(c: Channel, tick: int, samples: Seq<SampleBody>, mode: Mode)
    requires
        c.command == 5,
        c.pending_delay is None,
    ensures
        0 < c.info < 0xE0 ==> c.ticked(tick, samples, mode) == (Channel {
            note_op: NoteOp::Idle,
            pitch_op: PitchOp::Slide { units: (0 - 4 * c.info) as i32 },
            ..c
        }),
        c.info == 0 || c.info >= 0xE0 ==> c.ticked(tick, samples, mode) == (Channel {
            note_op: NoteOp::Idle,
            pitch_op: PitchOp::Idle,
            ..c
        }),
{
    lemma_tick_is_effect(c, tick, samples, mode);
    assert(-4 * c.info == 0 - 4 * c.info);
}

/// Fxx slides the pitch up by four units a step on every tick but the first.
/// Its fine forms, from 0xE0 on, do nothing there.
pub proof fn law_slide_up(c: Channel, tick: int, samples: Seq<SampleBody>, mode: Mode)
    requires
        c.command == 6,
        c.pending_delay is None,
    ensures
        0 < c.info < 0xE0 ==> c.ticked(tick, samples, mode) == (Channel {
            note_op: NoteOp::Idle,
            pitch_op: PitchOp::Slide { units: (4 * c.info) as i32 },
            ..c
        }),
        c.info == 0 || c.info >= 0xE0 ==> c.ticked(tick, samples, mode) == (Channel {
            note_op: NoteOp::Idle,
            pitch_op: PitchOp::Idle,
            ..c
        }),
{
    lemma_tick_is_effect(c, tick, samples, mode);
}

/// The fine forms of Exx and Fxx slide the pitch on the first tick: EFx and
/// FFx by four units a step, EEx and FEx by one. The others wait.
pub proof fn law_fine_pitch_slides(c: Channel, cell: Cell, samples: Seq<SampleBody>, mode: Mode)
    requires
        cell.command == 5 || cell.command == 6,
        cell.info != 0,
        cell.note == 0xFF,
        cell.instrument == 0,
        cell.volume == 0xFF,
    ensures
        ({
            let r = c.entered(cell, samples, mode);
            let steps = if cell.info < 0xF0 {
                cell.info - 0xE0
            } else {
                4 * (cell.info - 0xF0)
            };
            &&& cell.info < 0xE0 ==> r.pitch_op == PitchOp::Idle
            &&& cell.info >= 0xE0 ==> (r.pitch_op matches PitchOp::Slide { units } && units == if cell.command
                == 5 {
                -steps
            } else {
                steps
            })
            &&& r.volume == c.volume && r.note_op == NoteOp::Idle && r.active == c.active
        }),
{
    lemma_first_tick_is_effect(c, cell, samples, mode);
    let armed = c.armed(cell);
    assert(armed.x() == cell.info as int / 16 && armed.y() == cell.info as int % 16);
}

/// Jxy plays the last note on every third tick, `x` semitones above it on
/// the one after and `y` above it on the one after that.
pub proof fn law_arpeggio(c: Channel, tick: int, samples: Seq<SampleBody>, mode: Mode)
    requires
        c.command == 10,
        c.info != 0,
        c.last_note != 0,
        c.pending_delay is None,
        c.c5_speed >= 1,
        !mode.amiga_limits,
    ensures
        ({
            let r = c.ticked(tick, samples, mode);
            let above = if tick % 3 == 0 {
                0
            } else if tick % 3 == 1 {
                c.info as int / 16
            } else {
                c.info as int % 16
            };
            let n = 12 * (c.last_note as int / 16) + c.last_note as int % 16 + above;
            let entry = 8363 * PERIOD_TABLE[if n < 108 {
                n
            } else {
                107
            }];
            &&& r.pitch_op matches PitchOp::Arpeggio { period } && period >= 1 && (period
                * c.c5_speed <= entry || period == 1) && entry < (period + 1) * c.c5_speed
            &&& r == (Channel {
                pitched: true,
                note_op: NoteOp::Idle,
                pitch_op: r.pitch_op,
                ..c
            })
        }),
{
    lemma_tick_is_effect(c, tick, samples, mode);
    lemma_arpeggiated(c.rested(), tick, mode);
}

proof fn lemma_arpeggiated(c: Channel, tick: int, mode: Mode)
    requires
        c.info != 0,
        c.last_note != 0,
        c.c5_speed >= 1,
    ensures
        ({
            let r = c.arpeggiated(tick, mode);
            let above = if tick % 3 == 0 {
                0
            } else if tick % 3 == 1 {
                c.info as int / 16
            } else {
                c.info as int % 16
            };
            let n = 12 * (c.last_note as int / 16) + c.last_note as int % 16 + above;
            let entry = 8363 * PERIOD_TABLE[if n < 108 {
                n
            } else {
                107
            }];
            let free = period_of(n, c.c5_speed as int);
            &&& 1 <= free <= 229079296
            &&& free * c.c5_speed <= entry || free == 1
            &&& entry < (free + 1) * c.c5_speed
            &&& r == (Channel { pitched: true, pitch_op: r.pitch_op, ..c })
            &&& r.pitch_op matches PitchOp::Arpeggio { period } && (!mode.amiga_limits ==> period
                == free) && (mode.amiga_limits ==> clamped(period as int, free))
        }),
{
    let above = if tick % 3 == 0 {
        0
    } else if tick % 3 == 1 {
        c.info as int / 16
    } else {
        c.info as int % 16
    };
    let n = 12 * (c.last_note as int / 16) + c.last_note as int % 16 + above;
    lemma_period_of_index(n, c.c5_speed as int);
}

proof fn lemma_period_of_index(n: int, c5_speed: int)
    requires
        0 <= n,
        1 <= c5_speed,
    ensures
        ({
            let entry = 8363 * PERIOD_TABLE[if n < 108 {
                n
            } else {
                107
            }];
            let free = period_of(n, c5_speed);
            &&& 1 <= free <= 229079296
            &&& free * c5_speed <= entry || free == 1
            &&& entry < (free + 1) * c5_speed
        }),
{
    let octave = if n < 108 {
        n / 12
    } else {
        9
    };
    let semitone = if n < 108 {
        n % 12
    } else {
        0
    };
    law_period_follows_c5_speed(octave, semitone, c5_speed);
    let note = 16 * octave + semitone;
    assert(note / 16 == octave && note % 16 == semitone);
    let entry = PERIOD_TABLE[if n < 108 {
        n
    } else {
        107
    }] as int;
    assert(56 <= entry <= 27392);
    assert((8363 * entry) / c5_speed <= 8363 * entry) by (nonlinear_arith)
        requires
            c5_speed >= 1,
            entry >= 0,
    ;
}

/// Dxy on every tick but the first: Dx0 up by `x` to 63 at most, D0y and Dxy
/// down by `y` to 0 at least, and nothing for the fine forms. The volume in
/// store is left alone.
pub proof fn law_volume_slide(c: Channel, tick: int, samples: Seq<SampleBody>, mode: Mode)
    requires
        c.command == 4,
        c.pending_delay is None,
        c.volume <= 63,
    ensures
        ({
            let r = c.ticked(tick, samples, mode);
            let x = c.info as int / 16;
            let y = c.info as int % 16;
            &&& !(x == 15 && y > 0 || y == 15 && x > 0) ==> slides(
                r.volume as int,
                c.volume as int,
                x,
                y,
            )
            &&& x == 15 && y > 0 || y == 15 && x > 0 ==> r.volume == c.volume
            &&& r == (Channel {
                volume: r.volume,
                latched_global: r.latched_global,
                note_op: NoteOp::Idle,
                pitch_op: PitchOp::Idle,
                ..c
            })
        }),
{
    let rested = Channel { note_op: NoteOp::Idle, pitch_op: PitchOp::Idle, ..c };
    let x = c.info as int / 16;
    let y = c.info as int % 16;
    lemma_tick_is_effect(c, tick, samples, mode);
    lemma_slide_alone(rested, tick, mode);
    if !(x == 15 && y > 0 || y == 15 && x > 0) {
        lemma_with_slide(rested, c.volume, x, y, mode);
    } else {
        law_volume_slides(c.volume as int, x, y);
        assert(rested.with_slide(slid(c.volume as int, x, y), mode) == rested);
    }
}

proof fn lemma_slide_alone(c: Channel, tick: int, mode: Mode)
    requires
        c.command == 4,
    ensures
        c.affected(tick, mode) == c.with_slide(
            slid(c.volume as int, c.info as int / 16, c.info as int % 16),
            mode,
        ),
{
}

/// Dxy on the first tick: DxF up by `x`, DFy down by `y`, DF0 and D0F as on
/// any other tick. The rest waits, unless slides are fast.
pub proof fn law_volume_slide_on_first_tick(
    c: Channel,
    cell: Cell,
    samples: Seq<SampleBody>,
    mode: Mode,
)
    requires
        cell.command == 4,
        cell.info != 0,
        cell.note == 0xFF,
        cell.instrument == 0,
        cell.volume == 0xFF,
        c.volume <= 63,
    ensures
        ({
            let r = c.entered(cell, samples, mode);
            let x = cell.info as int / 16;
            let y = cell.info as int % 16;
            &&& y == 15 && x > 0 ==> r.volume == c.volume + x || c.volume + x > 63 && r.volume == 63
            &&& x == 15 && 0 < y < 15 ==> r.volume == c.volume - y || c.volume < y && r.volume == 0
            &&& x == 15 && y == 0 ==> r.volume == c.volume + 15 || c.volume > 48 && r.volume == 63
            &&& x == 0 && y == 15 ==> r.volume == c.volume - 15 || c.volume < 15 && r.volume == 0
            &&& x < 15 && y < 15 && !mode.fast_slides ==> r.volume == c.volume
            &&& 0 < x < 15 && y == 0 && mode.fast_slides ==> r.volume == c.volume + x || c.volume + x
                > 63 && r.volume == 63
            &&& x < 15 && 0 < y < 15 && mode.fast_slides ==> r.volume == c.volume - y || c.volume < y
                && r.volume == 0
            &&& r.stored_volume == c.stored_volume && r.note_op == NoteOp::Idle && r.active
                == c.active && r.pan == c.pan
        }),
{
    lemma_first_tick_is_effect(c, cell, samples, mode);
    law_volume_slides(c.volume as int, cell.info as int / 16, cell.info as int % 16);
}

/// Qxy counts ticks and starts the sample over each time the count comes to
/// `y`, with the volume changed as `x` says; in between only the count
/// moves.
pub proof fn law_retrigger(c: Channel, tick: int, samples: Seq<SampleBody>, mode: Mode)
    requires
        c.command == 17,
        c.pending_delay is None,
        c.info % 16 != 0,
        c.volume <= 63,
        c.retrig_counter < 255,
    ensures
        ({
            let r = c.ticked(tick, samples, mode);
            let x = c.info as int / 16;
            &&& c.retrig_counter + 1 < c.info % 16 ==> r == (Channel {
                retrig_counter: (c.retrig_counter + 1) as u8,
                note_op: NoteOp::Idle,
                pitch_op: PitchOp::Idle,
                ..c
            })
            &&& c.retrig_counter + 1 >= c.info % 16 ==> r == (Channel {
                retrig_counter: 0,
                volume: r.volume,
                latched_global: mode.global_volume,
                note_op: NoteOp::Idle,
                pitch_op: PitchOp::Restart,
                ..c
            })
            &&& c.retrig_counter + 1 >= c.info % 16 ==> {
                &&& x == 0 || x == 8 ==> r.volume == c.volume
                &&& x == 1 ==> r.volume == c.volume - 1 || c.volume == 0 && r.volume == 0
                &&& x == 5 ==> r.volume == c.volume - 16 || c.volume < 16 && r.volume == 0
                &&& x == 7 ==> r.volume == c.volume / 2
                &&& x == 9 ==> r.volume == c.volume + 1 || c.volume == 63 && r.volume == 63
                &&& x == 13 ==> r.volume == c.volume + 16 || c.volume > 47 && r.volume == 63
                &&& x == 15 ==> r.volume == 2 * c.volume || c.volume > 31 && r.volume == 63
            }
        }),
{
    lemma_tick_is_effect(c, tick, samples, mode);
    assert(c.x() == c.info as int / 16 && c.y() == c.info as int % 16);
}

/// Rxy moves the phase by four times `x`, round a cycle of 256, and sets the
/// volume off the stored one by the waveform there times `y`: above it in
/// the first half of the sine and the square, below it in the second. The
/// stored volume stays.
pub proof fn law_tremolo(c: Channel, tick: int, samples: Seq<SampleBody>, mode: Mode)
    requires
        c.command == 18,
        c.pending_delay is None,
        c.info != 0,
        c.stored_volume != 0,
        c.stored_volume <= 63,
    ensures
        ({
            let r = c.ticked(tick, samples, mode);
            let pos = (c.tremolo_pos + 4 * (c.info as int / 16)) % 256;
            let depth = c.info as int % 16;
            let level = PROTRACKER_SINE[(pos / 4) % 32] as int / 4;
            let swing = (4 * depth * level) / 128;
            &&& r == (Channel {
                tremolo_pos: pos as u8,
                random_state: r.random_state,
                volume: r.volume,
                latched_global: mode.global_volume,
                note_op: NoteOp::Idle,
                pitch_op: PitchOp::Idle,
                ..c
            })
            &&& c.tremolo_waveform == Waveform::Sine && pos < 128 ==> r.volume == c.stored_volume
                + swing || c.stored_volume + swing > 63 && r.volume == 63
            &&& c.tremolo_waveform == Waveform::Sine && pos >= 128 ==> r.volume == c.stored_volume
                - swing || c.stored_volume < swing && r.volume == 0
            &&& c.tremolo_waveform == Waveform::Square && pos < 128 ==> r.volume == c.stored_volume
                + 2 * depth || c.stored_volume + 2 * depth > 63 && r.volume == 63
            &&& c.tremolo_waveform == Waveform::Square && pos >= 128 ==> r.volume == c.stored_volume
                - 2 * depth || c.stored_volume < 2 * depth && r.volume == 0
            &&& c.tremolo_waveform == Waveform::RampDown && pos < 128 ==> r.volume
                >= c.stored_volume
            &&& c.tremolo_waveform == Waveform::RampDown && pos >= 128 ==> r.volume
                <= c.stored_volume
        }),
{
    lemma_tick_is_effect(c, tick, samples, mode);
    let pos = (c.tremolo_pos + 4 * (c.info as int / 16)) % 256;
    let depth = c.info as int % 16;
    let level = PROTRACKER_SINE[(pos / 4) % 32] as int / 4;
    assert(4 * depth * (-level) == -(4 * depth * level) && 0 <= 4 * depth * level <= 3780)
        by (nonlinear_arith)
        requires
            0 <= level <= 63,
            0 <= depth <= 15,
    ;
    assert((pos / 4) % 64 == pos / 4);
    assert(4 * depth * 64 == 2 * depth * 128);
    assert(4 * depth * (-64) == -(4 * depth * 64));
    let ramp = 64 - 2 * (pos / 4);
    assert(ramp >= 0 ==> 4 * depth * ramp >= 0) by (nonlinear_arith)
        requires
            0 <= depth,
    ;
    assert(ramp <= 0 ==> 4 * depth * ramp <= 0) by (nonlinear_arith)
        requires
            0 <= depth,
    ;
    assert(-3840 <= 4 * depth * ramp <= 3840) by (nonlinear_arith)
        requires
            -64 <= ramp <= 64,
            0 <= depth <= 15,
    ;
}

/// Ixy on a channel that no tremor has touched yet: the volume in store is
/// heard, for `x + 1` ticks.
pub proof fn law_tremor_starts_on(c: Channel, tick: int, samples: Seq<SampleBody>, mode: Mode)
    requires
        c.command == 9,
        c.pending_delay is None,
        c.info != 0,
        c.stored_volume <= 63,
    ensures
        ({
            let r = c.ticked(tick, samples, mode);
            &&& c.tremor_on_counter == 0 && c.tremor_off_counter <= 1 ==> r.volume
                == c.stored_volume && r.tremor_on_counter == c.info / 16 + 1
            &&& c.tremor_on_counter == 1 ==> r.volume == 0 && r.tremor_off_counter == c.info % 16
                + 1
            &&& c.tremor_on_counter > 1 ==> r.volume == c.volume && r.tremor_on_counter
                == c.tremor_on_counter - 1
            &&& c.tremor_on_counter == 0 && c.tremor_off_counter > 1 ==> r.volume == c.volume
                && r.tremor_off_counter == c.tremor_off_counter - 1
            &&& r == (Channel {
                tremor_on_counter: r.tremor_on_counter,
                tremor_off_counter: r.tremor_off_counter,
                volume: r.volume,
                latched_global: r.latched_global,
                note_op: NoteOp::Idle,
                pitch_op: PitchOp::Idle,
                ..c
            })
        }),
{
    lemma_tick_is_effect(c, tick, samples, mode);
}

/// Xxx spreads 0 to 0x80 over the sixteen pans, 0 hard left and 0x80 and all
/// above it hard right.
pub proof fn law_wide_pan(c: Channel, cell: Cell, samples: Seq<SampleBody>, mode: Mode)
    requires
        cell.command == 24,
        cell.info != 0,
        cell.note == 0xFF,
        cell.instrument == 0,
        cell.volume == 0xFF,
    ensures
        ({
            let r = c.entered(cell, samples, mode);
            &&& r.pan <= 15
            &&& cell.info >= 0x80 ==> r.pan == 15
            &&& cell.info < 0x80 ==> 128 * r.pan <= 15 * cell.info < 128 * (r.pan + 1)
            &&& r.volume == c.volume && r.active == c.active && r.note_op == NoteOp::Idle
        }),
{
    lemma_first_tick_is_effect(c, cell, samples, mode);
}

/// The first tick of an `S` command in a row without a note: what it sets,
/// beside command, parameter and memory.
proof fn lemma_extended_sets(c: Channel, cell: Cell, samples: Seq<SampleBody>, mode: Mode)
    requires
        cell.command == 19,
        cell.info != 0,
        cell.info / 16 != 0xD,
        cell.note == 0xFF,
        cell.instrument == 0,
        cell.volume == 0xFF,
    ensures
        ({
            let r = c.entered(cell, samples, mode);
            let armed = Channel {
                command: 19,
                info: cell.info,
                effect_memory: r.effect_memory,
                retrig_counter: 0,
                pending_delay: None,
                note_op: NoteOp::Idle,
                pitch_op: PitchOp::Idle,
                ..c
            };
            r == armed.extended(mode)
        }),
{
    lemma_first_tick_is_effect(c, cell, samples, mode);
    let armed = c.armed(cell);
    assert(armed.affected_on_tick_zero(mode) == armed.extended(mode));
    assert(armed.extended(mode).effect_memory == armed.effect_memory);
    assert(armed == (Channel {
        command: 19,
        info: cell.info,
        effect_memory: armed.effect_memory,
        retrig_counter: 0,
        pending_delay: None,
        note_op: NoteOp::Idle,
        pitch_op: PitchOp::Idle,
        ..c
    }));
}

/// S1x turns glissando on and off, and does nothing else.
pub proof fn law_glissando_switch(c: Channel, cell: Cell, samples: Seq<SampleBody>, mode: Mode)
    requires
        cell.command == 19,
        cell.info / 16 == 1,
        cell.note == 0xFF,
        cell.instrument == 0,
        cell.volume == 0xFF,
    ensures
        ({
            let r = c.entered(cell, samples, mode);
            r == (Channel {
                glissando: cell.info % 16 != 0,
                command: 19,
                info: cell.info,
                effect_memory: r.effect_memory,
                retrig_counter: 0,
                pending_delay: None,
                note_op: NoteOp::Idle,
                pitch_op: PitchOp::Idle,
                ..c
            })
        }),
{
    lemma_extended_sets(c, cell, samples, mode);
}

/// The waveform that the low bits of `p` stand for, and whether notes keep
/// the phase.
pub open spec fn selects(wf: Waveform, keeps: bool, p: int) -> bool {
    &&& wf == if p % 4 == 1 {
        Waveform::RampDown
    } else if p % 4 == 2 {
        Waveform::Square
    } else {
        Waveform::Sine
    }
    &&& keeps <==> p % 8 >= 4
}

/// S3x selects the vibrato waveform and whether notes keep its phase, S4x
/// the same for the tremolo. Neither touches the other or anything else.
#[verifier::spinoff_prover]
pub proof fn law_waveform_selection(c: Channel, cell: Cell, samples: Seq<SampleBody>, mode: Mode)
    requires
        cell.command == 19,
        cell.info / 16 == 3 || cell.info / 16 == 4,
        cell.note == 0xFF,
        cell.instrument == 0,
        cell.volume == 0xFF,
    ensures
        ({
            let r = c.entered(cell, samples, mode);
            let p = cell.info as int % 16;
            let armed = Channel {
                command: 19,
                info: cell.info,
                effect_memory: r.effect_memory,
                retrig_counter: 0,
                pending_delay: None,
                note_op: NoteOp::Idle,
                pitch_op: PitchOp::Idle,
                ..c
            };
            &&& cell.info / 16 == 3 ==> selects(
                r.vibrato_waveform,
                r.keep_vibrato_pos_on_new_note,
                p,
            ) && r == (Channel {
                vibrato_waveform: r.vibrato_waveform,
                keep_vibrato_pos_on_new_note: r.keep_vibrato_pos_on_new_note,
                ..armed
            })
            &&& cell.info / 16 == 4 ==> selects(
                r.tremolo_waveform,
                r.keep_tremolo_pos_on_new_note,
                p,
            ) && r == (Channel {
                tremolo_waveform: r.tremolo_waveform,
                keep_tremolo_pos_on_new_note: r.keep_tremolo_pos_on_new_note,
                ..armed
            })
        }),
{
    lemma_extended_sets(c, cell, samples, mode);
}

/// S8x sets the pan, and SAx sets it by the bank: 0 and 2 to the channel's
/// own side, 1 and 3 to the other, 4 to 7 to the middle. Nothing else
/// changes.
pub proof fn law_pan_commands(c: Channel, cell: Cell, samples: Seq<SampleBody>, mode: Mode)
    requires
        cell.command == 19,
        cell.info / 16 == 8 || cell.info / 16 == 0xA,
        cell.note == 0xFF,
        cell.instrument == 0,
        cell.volume == 0xFF,
    ensures
        ({
            let r = c.entered(cell, samples, mode);
            let p = cell.info as int % 16;
            &&& cell.info / 16 == 8 ==> r.pan == p
            &&& cell.info / 16 == 0xA ==> {
                &&& c.bank == Bank::Left && (p == 0 || p == 2) ==> r.pan == 3
                &&& c.bank == Bank::Left && (p == 1 || p == 3) ==> r.pan == 12
                &&& c.bank == Bank::Right && (p == 0 || p == 2) ==> r.pan == 12
                &&& c.bank == Bank::Right && (p == 1 || p == 3) ==> r.pan == 3
                &&& 4 <= p < 8 ==> r.pan == 7
                &&& 8 <= p ==> r.pan == c.pan
            }
            &&& r == (Channel {
                pan: r.pan,
                command: 19,
                info: cell.info,
                effect_memory: r.effect_memory,
                retrig_counter: 0,
                pending_delay: None,
                note_op: NoteOp::Idle,
                pitch_op: PitchOp::Idle,
                ..c
            })
        }),
{
    lemma_extended_sets(c, cell, samples, mode);
}

/// The other `S` commands leave the channel alone on the first tick.
pub proof fn law_other_settings_do_nothing(
    c: Channel,
    cell: Cell,
    samples: Seq<SampleBody>,
    mode: Mode,
)
    requires
        cell.command == 19,
        cell.info != 0,
        cell.info / 16 == 0 || 5 <= cell.info / 16 <= 7 || cell.info / 16 == 9 || cell.info / 16
            == 0xB || cell.info / 16 == 0xC || cell.info / 16 >= 0xE,
        cell.note == 0xFF,
        cell.instrument == 0,
        cell.volume == 0xFF,
    ensures
        ({
            let r = c.entered(cell, samples, mode);
            r == (Channel {
                command: 19,
                info: cell.info,
                effect_memory: r.effect_memory,
                retrig_counter: 0,
                pending_delay: None,
                note_op: NoteOp::Idle,
                pitch_op: PitchOp::Idle,
                ..c
            })
        }),
{
    lemma_extended_sets(c, cell, samples, mode);
}

/// S2x plays the last note on at the rate that the finetune table gives.
pub proof fn law_finetune(c: Channel, cell: Cell, samples: Seq<SampleBody>, mode: Mode)
    requires
        cell.command == 19,
        cell.info / 16 == 2,
        cell.note == 0xFF,
        cell.instrument == 0,
        cell.volume == 0xFF,
        !mode.amiga_limits,
    ensures
        ({
            let r = c.entered(cell, samples, mode);
            let c5 = S2X_FINETUNE_TABLE[cell.info as int % 16];
            &&& c.last_note != 0 ==> r.c5_speed == c5 && r.pitched && r.targeted && (r.pitch_op
                matches PitchOp::Retune { period } && plays_note(
                period as int,
                c.last_note as int,
                c5 as int,
            ))
            &&& c.last_note == 0 ==> r.pitch_op == PitchOp::Idle && r.c5_speed == c.c5_speed
            &&& r.last_note == c.last_note && r.volume == c.volume && r.note_op == NoteOp::Idle
        }),
{
    lemma_first_tick_is_effect(c, cell, samples, mode);
    let armed = c.armed(cell);
    assert(armed.x() == 2 && armed.y() == cell.info as int % 16);
    let note = c.last_note as int;
    assert(note == 16 * (note / 16) + note % 16);
    let c5 = S2X_FINETUNE_TABLE[cell.info as int % 16];
    assert(c5 >= 7895);
    law_period_follows_c5_speed(note / 16, note % 16, c5 as int);
}

/// SCx freezes the voice on tick `x` and on no other, and leaves everything
/// else as it is, so that it can go on from there.
pub proof fn law_note_cut_freezes(c: Channel, tick: int, samples: Seq<SampleBody>, mode: Mode)
    requires
        c.command == 19,
        c.pending_delay is None,
    ensures
        c.ticked(tick, samples, mode) == (Channel {
            frozen: c.frozen || c.info / 16 == 0xC && c.info % 16 == tick,
            note_op: NoteOp::Idle,
            pitch_op: PitchOp::Idle,
            ..c
        }),
{
    let rested = c.rested();
    assert(rested.fired(tick, samples, mode) == rested);
    assert(rested.x() == c.info as int / 16 && rested.y() == c.info as int % 16);
}

/// Exactly the commands that move the pitch thaw a frozen voice: E, F, G, H,
/// J, K, L and U.
pub proof fn law_pitch_commands_thaw(c: Channel, cell: Cell)
    requires
        c.frozen,
    ensures
        !c.armed(cell).frozen <==> cell.command == 5 || cell.command == 6 || cell.command == 7
            || cell.command == 8 || cell.command == 10 || cell.command == 11 || cell.command == 12
            || cell.command == 21,
{
}

/// Vibrato, arpeggio, tremolo and the combined slides wait for the second
/// tick: on the first one nothing of the channel changes.
pub proof fn law_running_effects_wait(
    c: Channel,
    cell: Cell,
    samples: Seq<SampleBody>,
    mode: Mode,
)
    requires
        cell.command == 8 || cell.command == 10 || cell.command == 11 || cell.command == 18
            || cell.command == 21,
        cell.note == 0xFF,
        cell.instrument == 0,
        cell.volume == 0xFF,
    ensures
        ({
            let r = c.entered(cell, samples, mode);
            r == (Channel {
                command: cell.command,
                info: r.info,
                frozen: r.frozen,
                effect_memory: r.effect_memory,
                retrig_counter: 0,
                pending_delay: None,
                note_op: NoteOp::Idle,
                pitch_op: PitchOp::Idle,
                ..c
            })
        }),
{
    lemma_first_tick_is_effect(c, cell, samples, mode);
}

/// Qxy counts the first tick of a row like any other, and goes on with the
/// count of the row before.
pub proof fn law_retrigger_counts_first_tick(
    c: Channel,
    cell: Cell,
    samples: Seq<SampleBody>,
    mode: Mode,
)
    requires
        cell.command == 17,
        cell.info % 16 != 0,
        cell.note == 0xFF,
        cell.instrument == 0,
        cell.volume == 0xFF,
        c.retrig_counter < 255,
    ensures
        ({
            let r = c.entered(cell, samples, mode);
            &&& c.retrig_counter + 1 < cell.info % 16 ==> r.retrig_counter == c.retrig_counter + 1
                && r.pitch_op == PitchOp::Idle && r.volume == c.volume
            &&& c.retrig_counter + 1 >= cell.info % 16 ==> r.retrig_counter == 0 && r.pitch_op
                == PitchOp::Restart
        }),
{
    lemma_first_tick_is_effect(c, cell, samples, mode);
    let armed = c.armed(cell);
    assert(armed.y() == cell.info as int % 16);
}

/// Ixy counts the first tick of a row like any other.
pub proof fn law_tremor_counts_first_tick(
    c: Channel,
    cell: Cell,
    samples: Seq<SampleBody>,
    mode: Mode,
)
    requires
        cell.command == 9,
        cell.info != 0,
        cell.note == 0xFF,
        cell.instrument == 0,
        cell.volume == 0xFF,
        c.stored_volume <= 63,
    ensures
        ({
            let r = c.entered(cell, samples, mode);
            &&& c.tremor_on_counter == 0 && c.tremor_off_counter <= 1 ==> r.volume
                == c.stored_volume && r.tremor_on_counter == cell.info / 16 + 1
            &&& c.tremor_on_counter == 1 ==> r.volume == 0 && r.tremor_off_counter == cell.info % 16
                + 1
            &&& c.tremor_on_counter > 1 ==> r.volume == c.volume && r.tremor_on_counter
                == c.tremor_on_counter - 1
            &&& c.tremor_on_counter == 0 && c.tremor_off_counter > 1 ==> r.volume == c.volume
                && r.tremor_off_counter == c.tremor_off_counter - 1
        }),
{
    lemma_first_tick_is_effect(c, cell, samples, mode);
    let armed = c.armed(cell);
    assert(armed.affected_on_tick_zero(mode) == armed.tremored(
        cell.info as int / 16,
        cell.info as int % 16,
        mode,
    ));
}

/// Effects that lack what they need do nothing: tremolo without a volume in
/// store or a parameter, arpeggio without a note or a parameter, tremor
/// without a parameter, retrigger without an interval.
pub proof fn law_effects_without_means(c: Channel, tick: int, samples: Seq<SampleBody>, mode: Mode)
    requires
        c.pending_delay is None,
        c.command == 18 && (c.info == 0 || c.stored_volume == 0) || c.command == 10 && (c.info == 0
            || c.last_note == 0) || c.command == 9 && c.info == 0 || c.command == 17 && c.info % 16
            == 0,
    ensures
        c.ticked(tick, samples, mode) == (Channel {
            note_op: NoteOp::Idle,
            pitch_op: PitchOp::Idle,
            ..c
        }),
{
    lemma_tick_is_effect(c, tick, samples, mode);
}

/// The combined effects leave everything alone where their slide is a fine
/// one.
pub proof fn law_combined_effects_skip_fine_slides(
    c: Channel,
    tick: int,
    samples: Seq<SampleBody>,
    mode: Mode,
)
    requires
        c.pending_delay is None,
        c.command == 11 || c.command == 12,
        c.info / 16 == 15 && c.info % 16 != 0 || c.info % 16 == 15 && c.info / 16 != 0,
    ensures
        c.ticked(tick, samples, mode) == (Channel {
            note_op: NoteOp::Idle,
            pitch_op: PitchOp::Idle,
            ..c
        }),
{
    lemma_tick_is_effect(c, tick, samples, mode);
}

/// The Amiga limits keep the periods of an arpeggio between 113 and 856 and
/// change nothing else about it.
pub proof fn law_amiga_limits_on_arpeggio(
    c: Channel,
    tick: int,
    samples: Seq<SampleBody>,
    free: Mode,
    kept: Mode,
)
    requires
        c.command == 10,
        c.info != 0,
        c.last_note != 0,
        c.pending_delay is None,
        c.c5_speed >= 1,
        !free.amiga_limits,
        kept == (Mode { amiga_limits: true, ..free }),
    ensures
        c.ticked(tick, samples, free).pitch_op matches PitchOp::Arpeggio { period } && (c.ticked(
            tick,
            samples,
            kept,
        ).pitch_op matches PitchOp::Arpeggio { period: p } && clamped(p as int, period as int)),
{
    lemma_tick_is_effect(c, tick, samples, free);
    lemma_tick_is_effect(c, tick, samples, kept);
    lemma_arpeggiated(c.rested(), tick, free);
    lemma_arpeggiated(c.rested(), tick, kept);
}

} // verus!
