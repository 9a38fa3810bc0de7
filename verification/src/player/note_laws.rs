//! What notes, instruments and volume columns do to a channel.

use vstd::prelude::*;

use crate::pattern::Cell;
use crate::player::channel::{Channel, Mode, NoteOp, PitchOp};
use crate::player::cmd;
use crate::player::pitch::{
    law_amiga_limits_clamp, law_offset_moves_by_whole_loops, law_period_follows_c5_speed, note_period,
    PERIOD_TABLE,
};
use crate::samples::SampleBody;

verus! {

/// Commands are the letters of the alphabet, counted from 1.
pub proof fn law_commands_are_letters()
    ensures
        cmd::A_SET_SPEED == 1 && cmd::B_POS_JUMP == 2 && cmd::C_PAT_BREAK == 3 && cmd::D_VOL_SLIDE
            == 4,
        cmd::E_SLIDE_DOWN == 5 && cmd::F_SLIDE_UP == 6 && cmd::G_TONE_PORTA == 7 && cmd::H_VIBRATO
            == 8,
        cmd::I_TREMOR == 9 && cmd::J_ARPEGGIO == 10 && cmd::K_VIB_VOL == 11 && cmd::L_PORT_VOL == 12,
        cmd::O_SAMPLE_OFFSET == 15 && cmd::Q_RETRIGGER == 17 && cmd::R_TREMOLO == 18
            && cmd::S_EXTENDED == 19,
        cmd::T_SET_TEMPO == 20 && cmd::U_FINE_VIBRATO == 21 && cmd::V_GLOBAL_VOL == 22
            && cmd::X_SET_PAN == 24,
{
}

/// Whether `period` is the one at which note byte `note` plays a sample of
/// this C5 speed: as long as it can be without playing slower than 8363 Hz
/// times the C5 speed asks, by the note's entry in the period table.
pub open spec fn plays_note(period: int, note: int, c5_speed: int) -> bool {
    let n = if 12 * (note / 16) + note % 16 < 108 {
        12 * (note / 16) + note % 16
    } else {
        107
    };
    &&& period >= 1
    &&& period * c5_speed <= 8363 * PERIOD_TABLE[n] || period == 1
    &&& 8363 * PERIOD_TABLE[n] < (period + 1) * c5_speed
}

/// A note with an instrument starts that instrument's sample from the top,
/// at the pitch that the sample's own C5 speed gives, and makes the channel
/// sound. The volume is the sample's default, or that of the column, but at
/// most 63.
pub proof fn law_note_starts_its_sample(
    c: Channel,
    cell: Cell,
    samples: Seq<SampleBody>,
    mode: Mode,
)
    requires
        1 <= cell.note < 0xFE,
        1 <= cell.instrument <= samples.len(),
        samples[cell.instrument - 1].c5_speed >= 1,
        cell.command == 0,
    ensures
        ({
            let r = c.entered(cell, samples, mode);
            let body = samples[cell.instrument - 1];
            let v = if cell.volume == 0xFF {
                body.volume
            } else {
                cell.volume
            };
            &&& r.note_op matches NoteOp::Start { period, offset } && offset == 0 && (
            !mode.amiga_limits ==> plays_note(
                period as int,
                cell.note as int,
                body.c5_speed as int,
            )) && (mode.amiga_limits ==> 113 <= period <= 856)
            &&& r.pitch_op == PitchOp::Idle
            &&& r.active && r.pitched && r.targeted && !r.frozen
            &&& r.instrument == cell.instrument
            &&& r.last_note == cell.note
            &&& r.c5_speed == body.c5_speed
            &&& r.volume == v || v > 63 && r.volume == 63
            &&& r.stored_volume == r.volume
            &&& r.latched_global == mode.global_volume
            &&& r.vibrato_pos == if c.keep_vibrato_pos_on_new_note {
                c.vibrato_pos
            } else {
                0
            }
            &&& r.tremolo_pos == if c.keep_tremolo_pos_on_new_note {
                c.tremolo_pos
            } else {
                0
            }
            &&& r.pan == c.pan && r.bank == c.bank && r.muted == c.muted
            &&& r.effect_memory == c.effect_memory
            &&& r.vibrato_waveform == c.vibrato_waveform && r.tremolo_waveform == c.tremolo_waveform
            &&& r.glissando == c.glissando
            &&& r.pending_delay is None
        }),
{
    let note = cell.note as int;
    assert(note == 16 * (note / 16) + note % 16);
    law_period_follows_c5_speed(
        note / 16,
        note % 16,
        samples[cell.instrument - 1].c5_speed as int,
    );
}

/// A note that comes with any command but a tone portamento or an `S`
/// starts, and whatever the command its pitch is that of the sample's C5
/// speed.
pub proof fn law_note_starts_under_command(
    c: Channel,
    cell: Cell,
    samples: Seq<SampleBody>,
    mode: Mode,
)
    requires
        1 <= cell.note < 0xFE,
        1 <= cell.instrument <= samples.len(),
        samples[cell.instrument - 1].c5_speed >= 1,
        cell.command != 7,
        cell.command != 12,
        cell.command != 19,
        !mode.amiga_limits,
    ensures
        c.entered(cell, samples, mode).note_op matches NoteOp::Start { period, .. } && plays_note(
            period as int,
            cell.note as int,
            samples[cell.instrument - 1].c5_speed as int,
        ),
        c.entered(cell, samples, mode).active,
        c.entered(cell, samples, mode).instrument == cell.instrument,
        c.entered(cell, samples, mode).command == cell.command,
{
    let note = cell.note as int;
    assert(note == 16 * (note / 16) + note % 16);
    law_period_follows_c5_speed(
        note / 16,
        note % 16,
        samples[cell.instrument - 1].c5_speed as int,
    );
}

/// A note without an instrument plays the channel's own one again, and
/// leaves its volume alone unless the column sets it.
pub proof fn law_bare_note_keeps_instrument(
    c: Channel,
    cell: Cell,
    samples: Seq<SampleBody>,
    mode: Mode,
)
    requires
        1 <= cell.note < 0xFE,
        cell.instrument == 0,
        1 <= c.instrument <= samples.len(),
        samples[c.instrument - 1].c5_speed >= 1,
        cell.command == 0,
        cell.volume == 0xFF,
        !mode.amiga_limits,
    ensures
        ({
            let r = c.entered(cell, samples, mode);
            &&& r.note_op matches NoteOp::Start { period, offset } && offset == 0 && plays_note(
                period as int,
                cell.note as int,
                samples[c.instrument - 1].c5_speed as int,
            )
            &&& r.instrument == c.instrument
            &&& r.volume == c.volume && r.stored_volume == c.stored_volume
            &&& r.active && r.pitched && !r.frozen
            &&& r.last_note == cell.note
        }),
{
    let note = cell.note as int;
    assert(note == 16 * (note / 16) + note % 16);
    law_period_follows_c5_speed(
        note / 16,
        note % 16,
        samples[c.instrument - 1].c5_speed as int,
    );
}

/// A higher note of the same sample starts with a period that is not longer,
/// and C-5 itself plays at the sample's C5 speed.
pub proof fn law_c5_starts_at_c5_speed(
    c: Channel,
    cell: Cell,
    samples: Seq<SampleBody>,
    mode: Mode,
)
    requires
        cell.note == 0x40,
        1 <= cell.instrument <= samples.len(),
        1 <= samples[cell.instrument - 1].c5_speed <= 8363 * 1712,
        cell.command == 0,
        !mode.amiga_limits,
    ensures
        c.entered(cell, samples, mode).note_op matches NoteOp::Start { period, .. } && period
            * samples[cell.instrument - 1].c5_speed <= 8363 * 1712 && 8363 * 1712 < (period + 1)
            * samples[cell.instrument - 1].c5_speed,
{
    law_note_starts_its_sample(c, cell, samples, mode);
    let speed = samples[cell.instrument - 1].c5_speed as int;
    assert(1 * speed <= 8363 * 1712);
}

/// Oxx starts the note 256 frames further on for each step of its
/// parameter. In a looped sample what lies past the loop end moves back by
/// whole loops, into the window.
pub proof fn law_sample_offset_skips_ahead(
    c: Channel,
    cell: Cell,
    samples: Seq<SampleBody>,
    mode: Mode,
)
    requires
        1 <= cell.note < 0xFE,
        1 <= cell.instrument <= samples.len(),
        cell.command == 15,
        cell.info != 0,
    ensures
        ({
            let body = samples[cell.instrument - 1];
            let at = 256 * cell.info;
            c.entered(cell, samples, mode).note_op matches NoteOp::Start { offset, .. } && {
                &&& !body.looped ==> offset == at
                &&& body.loop_start < body.loop_end <= body.pcm@.len() && at < body.loop_end
                    ==> offset == at
                &&& body.looped && body.loop_start < body.loop_end <= body.pcm@.len() && at
                    >= body.loop_end ==> body.loop_start <= offset < body.loop_end && (at - offset)
                    % (body.loop_end - body.loop_start) == 0
            }
        }),
{
    let body = samples[cell.instrument - 1];
    let at = 256 * cell.info;
    if body.looped && body.loop_start < body.loop_end <= body.pcm@.len() {
        law_offset_moves_by_whole_loops(
            at as int,
            body.loop_start as int,
            body.loop_end as int,
            body.pcm@.len() as int,
        );
        let span = body.loop_end - body.loop_start;
        assert(0 <= (at - body.loop_start) % span < span) by (nonlinear_arith)
            requires
                span > 0,
        ;
    }
}

/// A note cut stops the voice and leaves instrument and volume alone.
pub proof fn law_note_cut_stops(c: Channel, cell: Cell, samples: Seq<SampleBody>, mode: Mode)
    requires
        cell.note == 0xFE,
        cell.instrument == 0,
        cell.volume == 0xFF,
        cell.command == 0,
    ensures
        ({
            let r = c.entered(cell, samples, mode);
            &&& !r.active && !r.pitched
            &&& r.note_op == NoteOp::Cut
            &&& r == (Channel {
                active: false,
                pitched: false,
                note_op: NoteOp::Cut,
                pitch_op: PitchOp::Idle,
                command: 0,
                info: cell.info,
                retrig_counter: 0,
                pending_delay: None,
                ..c
            })
        }),
{
}

/// A row that says nothing of a channel changes nothing of what it plays.
pub proof fn law_empty_cell_changes_nothing(
    c: Channel,
    cell: Cell,
    samples: Seq<SampleBody>,
    mode: Mode,
)
    requires
        cell.note == 0xFF || cell.note == 0,
        cell.instrument == 0,
        cell.volume == 0xFF,
        cell.command == 0,
    ensures
        c.entered(cell, samples, mode) == (Channel {
            note_op: NoteOp::Idle,
            pitch_op: PitchOp::Idle,
            command: 0,
            info: cell.info,
            retrig_counter: 0,
            pending_delay: None,
            ..c
        }),
{
}

/// An instrument without a note brings its default volume and is played by
/// the next note, but starts nothing.
pub proof fn law_bare_instrument_loads_volume(
    c: Channel,
    cell: Cell,
    samples: Seq<SampleBody>,
    mode: Mode,
)
    requires
        cell.note == 0xFF || cell.note == 0,
        1 <= cell.instrument <= samples.len(),
        cell.volume == 0xFF,
        cell.command == 0,
    ensures
        ({
            let r = c.entered(cell, samples, mode);
            let v = samples[cell.instrument - 1].volume;
            &&& r.instrument == cell.instrument
            &&& r.volume == v || v > 63 && r.volume == 63
            &&& r.stored_volume == r.volume
            &&& r.latched_global == mode.global_volume
            &&& r.note_op == NoteOp::Idle
            &&& r.active == c.active && r.pitched == c.pitched && r.last_note == c.last_note
        }),
{
}

/// An instrument that the module does not have is taken down, but brings no
/// volume and lets no note start.
pub proof fn law_missing_instrument_is_silent(
    c: Channel,
    cell: Cell,
    samples: Seq<SampleBody>,
    mode: Mode,
)
    requires
        cell.instrument > samples.len(),
        cell.note != 0xFE,
        cell.volume == 0xFF,
        cell.command == 0,
    ensures
        ({
            let r = c.entered(cell, samples, mode);
            &&& r.instrument == cell.instrument
            &&& r.note_op == NoteOp::Idle
            &&& r.volume == c.volume && r.active == c.active
        }),
{
}

/// A volume column sets the volume, as far as 63, and nothing else of what
/// the channel plays.
pub proof fn law_volume_column_sets_volume(
    c: Channel,
    cell: Cell,
    samples: Seq<SampleBody>,
    mode: Mode,
)
    requires
        cell.note == 0xFF,
        cell.instrument == 0,
        cell.volume != 0xFF,
        cell.command == 0,
    ensures
        ({
            let r = c.entered(cell, samples, mode);
            let v = if cell.volume <= 63 {
                cell.volume
            } else {
                63
            };
            r == (Channel {
                volume: v,
                stored_volume: v,
                latched_global: mode.global_volume,
                note_op: NoteOp::Idle,
                pitch_op: PitchOp::Idle,
                command: 0,
                info: cell.info,
                retrig_counter: 0,
                pending_delay: None,
                ..c
            })
        }),
{
    let armed = c.armed(cell);
    let loaded = armed.loaded(cell.instrument, samples, mode);
    assert(loaded == armed);
    let noted = loaded.noted(cell.note, samples, mode);
    assert(noted == armed);
    let v = if cell.volume <= 63 {
        cell.volume
    } else {
        63
    };
    let struck = noted.columned(cell.volume, mode);
    assert(struck == (Channel {
        volume: v,
        stored_volume: v,
        latched_global: mode.global_volume,
        ..armed
    }));
    assert(struck.affected_on_tick_zero(mode) == struck);
    assert(c.entered(cell, samples, mode) == struck);
}

/// Under a tone portamento a note on a sounding channel sets the pitch to
/// head for and starts nothing: the cursor and the phases go on.
pub proof fn law_portamento_heads_for_note(
    c: Channel,
    cell: Cell,
    samples: Seq<SampleBody>,
    mode: Mode,
)
    requires
        1 <= cell.note < 0xFE,
        cell.instrument == 0,
        1 <= c.instrument <= samples.len(),
        samples[c.instrument - 1].c5_speed >= 1,
        cell.command == 7 || cell.command == 12,
        c.pitched,
        cell.volume == 0xFF,
        !mode.amiga_limits,
    ensures
        ({
            let r = c.entered(cell, samples, mode);
            &&& r.note_op matches NoteOp::Aim { period } && plays_note(
                period as int,
                cell.note as int,
                samples[c.instrument - 1].c5_speed as int,
            )
            &&& r.targeted && r.last_note == cell.note
            &&& r.active == c.active && r.pitched
            &&& r.volume == c.volume && r.instrument == c.instrument
            &&& r.vibrato_pos == c.vibrato_pos && r.tremolo_pos == c.tremolo_pos
        }),
{
    let note = cell.note as int;
    assert(note == 16 * (note / 16) + note % 16);
    law_period_follows_c5_speed(
        note / 16,
        note % 16,
        samples[c.instrument - 1].c5_speed as int,
    );
}

/// SDx puts a row's note off: on tick `x` the channel does what the row would
/// have done at once without the command.
pub proof fn law_delayed_note_is_the_same_note(
    c: Channel,
    cell: Cell,
    samples: Seq<SampleBody>,
    mode: Mode,
)
    requires
        cell.command == 19,
        cell.info / 16 == 0xD,
        cell.info % 16 != 0,
    ensures
        ({
            let prompt = c.entered(Cell { command: 0, info: 0, ..cell }, samples, mode);
            let late = c.entered(cell, samples, mode).ticked(
                cell.info as int % 16,
                samples,
                mode,
            );
            late == (Channel {
                command: 19,
                info: cell.info,
                effect_memory: late.effect_memory,
                ..prompt
            })
        }),
{
    let plain = Cell { command: 0, info: 0, ..cell };
    let now = c.armed(plain);
    let due = Channel { pending_delay: None, ..c.armed(cell) };
    lemma_held_note(c, cell, cell.info as int % 16, samples, mode);
    lemma_plain_note(c, plain, samples, mode);
    assert(struck_alike(now, due));
    lemma_strikes_alike(now, due, cell.note, cell.instrument, cell.volume, samples, mode);
    lemma_strike_keeps_command(due, cell.note, cell.instrument, cell.volume, samples, mode);
}

/// SDx starts nothing on the first tick, nor on any but its own: until then
/// the channel plays on as it was.
pub proof fn law_delayed_note_waits(
    c: Channel,
    cell: Cell,
    tick: int,
    samples: Seq<SampleBody>,
    mode: Mode,
)
    requires
        cell.command == 19,
        cell.info / 16 == 0xD,
        cell.info % 16 != 0,
        0 < tick,
        tick != cell.info % 16,
    ensures
        ({
            let held = c.entered(cell, samples, mode);
            &&& held.ticked(tick, samples, mode) == held
            &&& held == (Channel {
                command: 19,
                info: cell.info,
                effect_memory: held.effect_memory,
                retrig_counter: 0,
                pending_delay: held.pending_delay,
                note_op: NoteOp::Idle,
                pitch_op: PitchOp::Idle,
                ..c
            })
        }),
{
    lemma_held_note(c, cell, tick, samples, mode);
}

/// A delayed note waits in the armed channel and is struck from there.
#[verifier::spinoff_prover]
proof fn lemma_held_note(
    c: Channel,
    cell: Cell,
    tick: int,
    samples: Seq<SampleBody>,
    mode: Mode,
)
    requires
        cell.command == 19,
        cell.info / 16 == 0xD,
        cell.info % 16 != 0,
        0 < tick,
    ensures
        ({
            let held = c.armed(cell);
            let due = Channel { pending_delay: None, ..held };
            &&& c.entered(cell, samples, mode) == held
            &&& tick == cell.info % 16 ==> held.ticked(tick, samples, mode) == due.struck(
                cell.note,
                cell.instrument,
                cell.volume,
                samples,
                mode,
            )
            &&& tick != cell.info % 16 ==> held.ticked(tick, samples, mode) == held
        }),
{
    let held = c.armed(cell);
    let due = Channel { pending_delay: None, ..held };
    assert(held.x() == 0xD && held.y() == cell.info % 16);
    assert(held.affected_on_tick_zero(mode) == held);
    assert(held.rested() == held);
    if tick == cell.info % 16 {
        let late = due.struck(cell.note, cell.instrument, cell.volume, samples, mode);
        lemma_strike_keeps_command(due, cell.note, cell.instrument, cell.volume, samples, mode);
        assert(held.fired(tick, samples, mode) == late);
        lemma_delay_is_idle(late, tick, mode);
    } else {
        assert(held.fired(tick, samples, mode) == held);
        lemma_delay_is_idle(held, tick, mode);
    }
}

proof fn lemma_delay_is_idle(c: Channel, tick: int, mode: Mode)
    requires
        c.command == 19,
        c.info / 16 == 0xD,
    ensures
        c.cut(tick).affected(tick, mode) == c,
{
    assert(c.x() == 0xD);
    assert(c.cut(tick) == c);
}

proof fn lemma_plain_note(c: Channel, plain: Cell, samples: Seq<SampleBody>, mode: Mode)
    requires
        plain.command == 0,
    ensures
        c.entered(plain, samples, mode) == c.armed(plain).struck(
            plain.note,
            plain.instrument,
            plain.volume,
            samples,
            mode,
        ),
{
    let now = c.armed(plain);
    lemma_strike_keeps_command(now, plain.note, plain.instrument, plain.volume, samples, mode);
}

proof fn lemma_strike_keeps_command(
    c: Channel,
    note: u8,
    instrument: u8,
    volume: u8,
    samples: Seq<SampleBody>,
    mode: Mode,
)
    ensures
        ({
            let r = c.struck(note, instrument, volume, samples, mode);
            &&& r.command == c.command && r.info == c.info && r.pending_delay == c.pending_delay
            &&& r.effect_memory == c.effect_memory && r.pitch_op == c.pitch_op
        }),
{
    let loaded = c.loaded(instrument, samples, mode);
    assert(loaded.command == c.command && loaded.info == c.info && loaded.pending_delay
        == c.pending_delay && loaded.effect_memory == c.effect_memory && loaded.pitch_op
        == c.pitch_op);
    let noted = loaded.noted(note, samples, mode);
    assert(noted.command == c.command && noted.info == c.info && noted.pending_delay
        == c.pending_delay && noted.effect_memory == c.effect_memory && noted.pitch_op
        == c.pitch_op);
}

/// Whether two channels differ in command, parameter and memory only, in a
/// way that has no say in how notes start.
spec fn struck_alike(a: Channel, b: Channel) -> bool {
    &&& b == (Channel { command: b.command, info: b.info, effect_memory: b.effect_memory, ..a })
    &&& a.command == 0
    &&& b.command == 19
}

proof fn lemma_loads_alike(
    a: Channel,
    b: Channel,
    instrument: u8,
    samples: Seq<SampleBody>,
    mode: Mode,
)
    requires
        struck_alike(a, b),
    ensures
        struck_alike(a.loaded(instrument, samples, mode), b.loaded(instrument, samples, mode)),
{
}

proof fn lemma_notes_alike(a: Channel, b: Channel, note: u8, samples: Seq<SampleBody>, mode: Mode)
    requires
        struck_alike(a, b),
    ensures
        struck_alike(a.noted(note, samples, mode), b.noted(note, samples, mode)),
{
    if note == 0xFE {
    } else if !a.has_sample(samples) || note == 0xFF || note == 0 {
        assert(a.noted(note, samples, mode) == a);
        assert(b.noted(note, samples, mode) == b);
    } else {
        assert(a.noted(note, samples, mode) == a.started(note, samples, mode));
        assert(b.noted(note, samples, mode) == b.started(note, samples, mode));
        assert(a.start_frame(samples) == b.start_frame(samples));
    }
}

proof fn lemma_columns_alike(a: Channel, b: Channel, volume: u8, mode: Mode)
    requires
        struck_alike(a, b),
    ensures
        struck_alike(a.columned(volume, mode), b.columned(volume, mode)),
{
}

proof fn lemma_strikes_alike(
    a: Channel,
    b: Channel,
    note: u8,
    instrument: u8,
    volume: u8,
    samples: Seq<SampleBody>,
    mode: Mode,
)
    requires
        struck_alike(a, b),
    ensures
        struck_alike(
            a.struck(note, instrument, volume, samples, mode),
            b.struck(note, instrument, volume, samples, mode),
        ),
{
    let la = a.loaded(instrument, samples, mode);
    let lb = b.loaded(instrument, samples, mode);
    lemma_loads_alike(a, b, instrument, samples, mode);
    lemma_notes_alike(la, lb, note, samples, mode);
    lemma_columns_alike(
        la.noted(note, samples, mode),
        lb.noted(note, samples, mode),
        volume,
        mode,
    );
}

/// A command recalls the parameter that it, or a command that shares its
/// memory, was last given; one that was given none yet runs with zero.
pub proof fn law_memory_is_per_command(c: Channel, cell: Cell, samples: Seq<SampleBody>, mode: Mode)
    requires
        4 <= cell.command <= 26,
        cell.command != 20,
        cell.command != 21,
        cell.command != 22,
    ensures
        ({
            let r = c.entered(cell, samples, mode);
            &&& cell.info != 0 ==> r.info == cell.info && r.effect_memory[cell.command as int]
                == cell.info
            &&& cell.info == 0 ==> r.info == c.effect_memory[cell.command as int] && r.effect_memory
                == c.effect_memory
            &&& forall|k: int|
                0 <= k < 27 && k != cell.command ==> #[trigger] r.effect_memory[k]
                    == c.effect_memory[k]
        }),
{
    let armed = c.armed(cell);
    let struck = armed.struck(cell.note, cell.instrument, cell.volume, samples, mode);
    let loaded = armed.loaded(cell.instrument, samples, mode);
    let noted = loaded.noted(cell.note, samples, mode);
    assert(loaded.info == armed.info && loaded.effect_memory == armed.effect_memory);
    assert(noted.info == armed.info && noted.effect_memory == armed.effect_memory);
    assert(struck.info == armed.info && struck.effect_memory == armed.effect_memory);
    lemma_tick_zero_keeps_command(armed, mode);
    lemma_tick_zero_keeps_command(struck, mode);
}

proof fn lemma_tick_zero_keeps_command(c: Channel, mode: Mode)
    ensures
        c.affected_on_tick_zero(mode).info == c.info,
        c.affected_on_tick_zero(mode).command == c.command,
        c.affected_on_tick_zero(mode).effect_memory == c.effect_memory,
{
}

/// Vibrato and fine vibrato have one memory between them.
pub proof fn law_vibratos_share_memory(c: Channel, cell: Cell)
    requires
        cell.command == 8 || cell.command == 21,
    ensures
        cell.info != 0 ==> c.armed(cell).effect_memory[8] == cell.info && c.armed(cell).info
            == cell.info,
        cell.info == 0 ==> c.armed(cell).info == c.effect_memory[8],
{
}

/// A note under a tone portamento starts after all where the channel does
/// not sound, and a row without a note has it head for the last one.
pub proof fn law_portamento_without_voice(
    c: Channel,
    cell: Cell,
    samples: Seq<SampleBody>,
    mode: Mode,
)
    requires
        cell.command == 7,
        cell.instrument == 0,
        cell.volume == 0xFF,
        1 <= c.instrument <= samples.len(),
        samples[c.instrument - 1].c5_speed >= 1,
        !mode.amiga_limits,
    ensures
        1 <= cell.note < 0xFE && !c.pitched ==> (c.entered(cell, samples, mode).note_op
            matches NoteOp::Start { period, offset } && offset == 0 && plays_note(
            period as int,
            cell.note as int,
            samples[c.instrument - 1].c5_speed as int,
        )),
        cell.note == 0xFF && c.last_note != 0 ==> (c.entered(cell, samples, mode).note_op
            matches NoteOp::Aim { period } && plays_note(
            period as int,
            c.last_note as int,
            samples[c.instrument - 1].c5_speed as int,
        )),
        cell.note == 0xFF && c.last_note == 0 ==> c.entered(cell, samples, mode).note_op
            == NoteOp::Idle,
{
    let note = if cell.note == 0xFF {
        c.last_note as int
    } else {
        cell.note as int
    };
    assert(note == 16 * (note / 16) + note % 16);
    law_period_follows_c5_speed(
        note / 16,
        note % 16,
        samples[c.instrument - 1].c5_speed as int,
    );
}

/// `period` kept between 113 and 856.
pub open spec fn clamped(kept: int, period: int) -> bool {
    &&& 113 <= period <= 856 ==> kept == period
    &&& period < 113 ==> kept == 113
    &&& period > 856 ==> kept == 856
}

/// The Amiga limits change nothing about a starting note but that its period
/// is kept between 113 and 856.
pub proof fn law_amiga_limits_on_notes(
    c: Channel,
    cell: Cell,
    samples: Seq<SampleBody>,
    free: Mode,
    kept: Mode,
)
    requires
        1 <= cell.note < 0xFE,
        1 <= cell.instrument <= samples.len(),
        cell.command == 0 || cell.command == 7,
        !free.amiga_limits,
        kept == (Mode { amiga_limits: true, ..free }),
    ensures
        ({
            let a = c.entered(cell, samples, free).note_op;
            let b = c.entered(cell, samples, kept).note_op;
            match a {
                NoteOp::Start { period, offset } => b matches NoteOp::Start {
                    period: p,
                    offset: o,
                } && clamped(p as int, period as int) && o == offset,
                NoteOp::Aim { period } => b matches NoteOp::Aim { period: p } && clamped(
                    p as int,
                    period as int,
                ),
                other => false,
            }
        }),
{
    let period = note_period(
        cell.note as int,
        samples[cell.instrument - 1].c5_speed as int,
        false,
    );
    law_amiga_limits_clamp(cell.note as int, samples[cell.instrument - 1].c5_speed as int);
    lemma_period_fits(cell.note, samples[cell.instrument - 1].c5_speed);
}

proof fn lemma_period_fits(note: u8, c5_speed: u32)
    ensures
        1 <= note_period(note as int, c5_speed as int, false) <= 229079296,
{
    let n = if 12 * (note as int / 16) + note as int % 16 < 108 {
        12 * (note as int / 16) + note as int % 16
    } else {
        107
    };
    let entry = PERIOD_TABLE[n] as int;
    let d = if c5_speed < 1 {
        1
    } else {
        c5_speed as int
    };
    assert(56 <= entry <= 27392);
    assert((8363 * entry) / d <= 8363 * entry) by (nonlinear_arith)
        requires
            d >= 1,
            entry >= 0,
    ;
}

/// An effect of the first tick works on what the row's own note and volume
/// have made of the channel: a fine slide starts from the new volume, and a
/// pan, waveform or pitch slide goes with the new note.
pub proof fn law_effect_follows_note(c: Channel, cell: Cell, samples: Seq<SampleBody>, mode: Mode)
    requires
        1 <= cell.note < 0xFE,
        1 <= cell.instrument <= samples.len(),
        cell.info != 0,
        cell.command == 4 || cell.command == 5 || cell.command == 6 || cell.command == 24,
    ensures
        ({
            let r = c.entered(cell, samples, mode);
            let b = c.entered(Cell { command: 0, info: 0, ..cell }, samples, mode);
            let x = cell.info as int / 16;
            let y = cell.info as int % 16;
            &&& r.note_op == b.note_op && r.active && r.instrument == b.instrument
            &&& r.stored_volume == b.stored_volume
            &&& cell.command != 4 ==> r.volume == b.volume
            &&& cell.command == 4 && y == 15 && x > 0 ==> r.volume == b.volume + x || b.volume + x
                > 63 && r.volume == 63
            &&& cell.command == 4 && x == 15 && 0 < y < 15 ==> r.volume == b.volume - y || b.volume
                < y && r.volume == 0
            &&& cell.command == 24 && cell.info >= 0x80 ==> r.pan == 15
            &&& (cell.command == 5 || cell.command == 6) && cell.info >= 0xE0 ==> r.pitch_op is Slide
        }),
{
    let plain = Cell { command: 0, info: 0, ..cell };
    let armed = c.armed(cell);
    let bare = c.armed(plain);
    let struck = armed.struck(cell.note, cell.instrument, cell.volume, samples, mode);
    let prompt = bare.struck(cell.note, cell.instrument, cell.volume, samples, mode);
    lemma_plain_note(c, plain, samples, mode);
    lemma_strike_keeps_command(armed, cell.note, cell.instrument, cell.volume, samples, mode);
    lemma_strikes_equal(armed, bare, cell.note, cell.instrument, cell.volume, samples, mode);
    assert(c.entered(cell, samples, mode) == struck.affected_on_tick_zero(mode));
}

proof fn lemma_strikes_equal(
    a: Channel,
    b: Channel,
    note: u8,
    instrument: u8,
    volume: u8,
    samples: Seq<SampleBody>,
    mode: Mode,
)
    requires
        1 <= note < 0xFE,
        1 <= instrument <= samples.len(),
        a.command != 7 && a.command != 12 && a.command != 15,
        b.command != 7 && b.command != 12 && b.command != 15,
    ensures
        ({
            let r = a.struck(note, instrument, volume, samples, mode);
            let s = b.struck(note, instrument, volume, samples, mode);
            &&& r.note_op == s.note_op && r.active && s.active && r.instrument == s.instrument
            &&& r.volume == s.volume && r.stored_volume == s.stored_volume && s.volume <= 63
        }),
{
    let la = a.loaded(instrument, samples, mode);
    let lb = b.loaded(instrument, samples, mode);
    assert(la.instrument == instrument && lb.instrument == instrument);
    assert(la.noted(note, samples, mode) == la.started(note, samples, mode));
    assert(lb.noted(note, samples, mode) == lb.started(note, samples, mode));
    assert(la.start_frame(samples) == 0 && lb.start_frame(samples) == 0);
}

/// A note beside an `S` command that is no delay starts like any other.
pub proof fn law_note_starts_beside_setting(
    c: Channel,
    cell: Cell,
    samples: Seq<SampleBody>,
    mode: Mode,
)
    requires
        1 <= cell.note < 0xFE,
        1 <= cell.instrument <= samples.len(),
        samples[cell.instrument - 1].c5_speed >= 1,
        cell.command == 19,
        cell.info != 0,
        cell.info / 16 != 0xD,
        !mode.amiga_limits,
    ensures
        c.entered(cell, samples, mode).note_op matches NoteOp::Start { period, offset } && offset
            == 0 && plays_note(
            period as int,
            cell.note as int,
            samples[cell.instrument - 1].c5_speed as int,
        ),
        c.entered(cell, samples, mode).active,
        c.entered(cell, samples, mode).instrument == cell.instrument,
{
    let note = cell.note as int;
    assert(note == 16 * (note / 16) + note % 16);
    law_period_follows_c5_speed(
        note / 16,
        note % 16,
        samples[cell.instrument - 1].c5_speed as int,
    );
    let armed = c.armed(cell);
    let struck = armed.struck(cell.note, cell.instrument, cell.volume, samples, mode);
    lemma_strike_keeps_command(armed, cell.note, cell.instrument, cell.volume, samples, mode);
    lemma_strikes_equal(armed, armed, cell.note, cell.instrument, cell.volume, samples, mode);
    assert(c.entered(cell, samples, mode) == struck.extended(mode));
    assert(struck.extended(mode).note_op == struck.note_op);
    let loaded = armed.loaded(cell.instrument, samples, mode);
    assert(loaded.instrument == cell.instrument);
    assert(struck.note_op == loaded.started(cell.note, samples, mode).note_op);
}

/// A tone portamento toward a note with another instrument heads for the
/// pitch that the new one's C5 speed gives, at its default volume, without
/// starting it.
pub proof fn law_portamento_takes_instrument(
    c: Channel,
    cell: Cell,
    samples: Seq<SampleBody>,
    mode: Mode,
)
    requires
        1 <= cell.note < 0xFE,
        1 <= cell.instrument <= samples.len(),
        samples[cell.instrument - 1].c5_speed >= 1,
        cell.command == 7,
        cell.volume == 0xFF,
        c.pitched,
        !mode.amiga_limits,
    ensures
        ({
            let r = c.entered(cell, samples, mode);
            let v = samples[cell.instrument - 1].volume;
            &&& r.note_op matches NoteOp::Aim { period } && plays_note(
                period as int,
                cell.note as int,
                samples[cell.instrument - 1].c5_speed as int,
            )
            &&& r.instrument == cell.instrument && r.c5_speed == samples[cell.instrument
                - 1].c5_speed
            &&& r.volume == v || v > 63 && r.volume == 63
            &&& r.active == c.active && r.last_note == cell.note
        }),
{
    let note = cell.note as int;
    assert(note == 16 * (note / 16) + note % 16);
    law_period_follows_c5_speed(
        note / 16,
        note % 16,
        samples[cell.instrument - 1].c5_speed as int,
    );
}

} // verus!
