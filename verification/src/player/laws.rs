//! What holds of the player as a whole.

use vstd::prelude::*;

use crate::header::{Bank, S3mHeader};
use crate::pattern::Cell;
use crate::player::channel::{memory_slot, remembers, resumes, Channel, Mode, NoteOp, PitchOp};
use crate::player::cmd;
use crate::player::frames::lemma_requests_are_sound;
use crate::player::sequencer::{
    break_row, past_markers, Jump, Playback, RowRequests,
};
use crate::player::volume::{capped, is_fine, modified, PCM_VOLUME_PEAK};
use crate::samples::SampleBody;

verus! {

impl Channel {
    /// Whether volumes, pan and phase are in their ranges.
    pub open spec fn in_range(self) -> bool {
        &&& self.volume <= PCM_VOLUME_PEAK
        &&& self.stored_volume <= PCM_VOLUME_PEAK
        &&& self.pan < 16
        &&& self.vibrato_pos < 64
        &&& self.latched_global <= 64
    }

    /// The channel after `n` ticks of Qxy.
    pub open spec fn retriggered_for(self, n: nat, mode: Mode) -> Channel
        decreases n,
    {
        if n == 0 {
            self
        } else {
            self.retriggered_for((n - 1) as nat, mode).retriggered(mode)
        }
    }

    /// The channel after `n` ticks of Ixy.
    pub open spec fn tremored_for(self, n: nat, x: int, y: int, mode: Mode) -> Channel
        decreases n,
    {
        if n == 0 {
            self
        } else {
            self.tremored_for((n - 1) as nat, x, y, mode).tremored(x, y, mode)
        }
    }
}

/// A channel starts in range.
pub proof fn law_silent_channel_in_range(pan: u8, bank: Bank, muted: bool, global_volume: u8)
    requires
        pan < 16,
        global_volume <= 64,
    ensures
        Channel::silent(pan, bank, muted, global_volume).in_range(),
{
}

/// SAx goes by the bank alone: whatever the pan was before, a parameter
/// below 8 gives the same, 0 and 1 give opposite sides, and nothing but the
/// pan changes. From 8 on nothing does.
pub proof fn law_stereo_control_goes_by_bank(c: Channel, before: int, p: int)
    requires
        0 <= p,
    ensures
        p < 8 ==> c.with_stereo_control(before).with_stereo_control(p) == c.with_stereo_control(p),
        p >= 8 ==> c.with_stereo_control(p) == c,
        c.with_stereo_control(p) == (Channel { pan: c.with_stereo_control(p).pan, ..c }),
        c.bank != Bank::Neither ==> c.with_stereo_control(0).pan + c.with_stereo_control(1).pan
            == 15,
{
}

/// No row and no tick moves a channel to another bank or mutes it.
pub proof fn law_bank_and_mute_stay(
    c: Channel,
    cell: Cell,
    tick: int,
    samples: Seq<SampleBody>,
    mode: Mode,
)
    ensures
        c.entered(cell, samples, mode).bank == c.bank,
        c.entered(cell, samples, mode).muted == c.muted,
        c.ticked(tick, samples, mode).bank == c.bank,
        c.ticked(tick, samples, mode).muted == c.muted,
{
    let armed = c.armed(cell);
    let struck = armed.struck(cell.note, cell.instrument, cell.volume, samples, mode);
    lemma_striking_keeps_bank(armed, cell.note, cell.instrument, cell.volume, samples, mode);
    lemma_effects_keep_bank(armed, 0, mode);
    lemma_effects_keep_bank(struck, 0, mode);
    let rested = c.rested();
    if let Some(p) = rested.pending_delay {
        lemma_striking_keeps_bank(
            Channel { pending_delay: None, ..rested },
            p.note,
            p.instrument,
            p.volume,
            samples,
            mode,
        );
    }
    lemma_effects_keep_bank(rested.fired(tick, samples, mode).cut(tick), tick, mode);
}

proof fn lemma_striking_keeps_bank(
    c: Channel,
    note: u8,
    instrument: u8,
    volume: u8,
    samples: Seq<SampleBody>,
    mode: Mode,
)
    ensures
        c.struck(note, instrument, volume, samples, mode).bank == c.bank,
        c.struck(note, instrument, volume, samples, mode).muted == c.muted,
{
    let loaded = c.loaded(instrument, samples, mode);
    assert(loaded.bank == c.bank && loaded.muted == c.muted);
    let noted = loaded.noted(note, samples, mode);
    assert(noted.bank == c.bank && noted.muted == c.muted);
}

proof fn lemma_effects_keep_bank(c: Channel, tick: int, mode: Mode)
    ensures
        c.affected_on_tick_zero(mode).bank == c.bank,
        c.affected_on_tick_zero(mode).muted == c.muted,
        c.affected(tick, mode).bank == c.bank,
        c.affected(tick, mode).muted == c.muted,
{
}

/// Whatever a cell holds, entering it keeps the channel in range: the
/// active volume never exceeds 63.
pub proof fn law_entering_keeps_range(c: Channel, cell: Cell, samples: Seq<SampleBody>, mode: Mode)
    requires
        c.in_range(),
        mode.global_volume <= 64,
    ensures
        c.entered(cell, samples, mode).in_range(),
{
    let armed = c.armed(cell);
    assert(armed.in_range());
    let struck = armed.struck(cell.note, cell.instrument, cell.volume, samples, mode);
    lemma_striking_keeps_range(armed, cell.note, cell.instrument, cell.volume, samples, mode);
    lemma_effects_keep_range(armed, 0, mode);
    lemma_effects_keep_range(struck, 0, mode);
}

/// Whatever effect is under way, a tick keeps the channel in range.
pub proof fn law_ticking_keeps_range(c: Channel, tick: int, samples: Seq<SampleBody>, mode: Mode)
    requires
        c.in_range(),
        mode.global_volume <= 64,
    ensures
        c.ticked(tick, samples, mode).in_range(),
{
    let rested = c.rested();
    if let Some(p) = rested.pending_delay {
        lemma_striking_keeps_range(
            Channel { pending_delay: None, ..rested },
            p.note,
            p.instrument,
            p.volume,
            samples,
            mode,
        );
    }
    lemma_effects_keep_range(rested.fired(tick, samples, mode).cut(tick), tick, mode);
}

proof fn lemma_striking_keeps_range(
    c: Channel,
    note: u8,
    instrument: u8,
    volume: u8,
    samples: Seq<SampleBody>,
    mode: Mode,
)
    requires
        c.in_range(),
        mode.global_volume <= 64,
    ensures
        c.struck(note, instrument, volume, samples, mode).in_range(),
{
    let loaded = c.loaded(instrument, samples, mode);
    assert(loaded.in_range());
    assert(loaded.noted(note, samples, mode).in_range());
}

#[verifier::spinoff_prover]
proof fn lemma_effects_keep_range(c: Channel, tick: int, mode: Mode)
    requires
        c.in_range(),
        mode.global_volume <= 64,
    ensures
        c.affected_on_tick_zero(mode).in_range(),
        c.affected(tick, mode).in_range(),
{
    assert(0 <= c.x() < 16 && 0 <= c.y() < 16);
    assert(c.retriggered(mode).in_range());
    assert(c.tremored(c.x(), c.y(), mode).in_range());
    assert(c.extended(mode).in_range());
    assert(c.tremoloed(mode).in_range());
}

/// Effects move the active volume only: the stored volume is what
/// instruments and volume columns left.
pub proof fn law_effects_keep_stored_volume(c: Channel, tick: int, mode: Mode)
    ensures
        c.affected(tick, mode).stored_volume == c.stored_volume,
        c.affected_on_tick_zero(mode).stored_volume == c.stored_volume,
{
}

/// An effect that changes the active volume takes over the global volume of
/// the moment.
pub proof fn law_volume_change_latches_global_volume(c: Channel, tick: int, mode: Mode)
    ensures
        c.affected(tick, mode).volume != c.volume ==> c.affected(tick, mode).latched_global
            == mode.global_volume,
        c.affected_on_tick_zero(mode).volume != c.volume ==> c.affected_on_tick_zero(
            mode,
        ).latched_global == mode.global_volume,
{
}

/// A channel whose volume no effect touches keeps the global volume it was
/// struck with, whatever the player's has become since.
pub proof fn law_sounding_voice_keeps_latched_volume(c: Channel, tick: int, mode: Mode)
    requires
        c.command != cmd::D_VOL_SLIDE,
        c.command != cmd::K_VIB_VOL,
        c.command != cmd::L_PORT_VOL,
        c.command != cmd::Q_RETRIGGER,
        c.command != cmd::R_TREMOLO,
        c.command != cmd::I_TREMOR,
    ensures
        c.affected(tick, mode).latched_global == c.latched_global,
        c.affected(tick, mode).volume == c.volume,
        c.affected_on_tick_zero(mode).latched_global == c.latched_global,
        c.affected_on_tick_zero(mode).volume == c.volume,
{
}

/// A new note takes over the global volume of the moment.
pub proof fn law_new_note_latches_global_volume(
    c: Channel,
    note: u8,
    samples: Seq<SampleBody>,
    mode: Mode,
)
    requires
        c.has_sample(samples),
        note != 0,
        note < 0xFE,
        !c.glides(),
    ensures
        c.noted(note, samples, mode).latched_global == mode.global_volume,
        c.noted(note, samples, mode).active,
        !c.noted(note, samples, mode).frozen,
        c.noted(note, samples, mode).note_op is Start,
{
}

/// Qxy fires on every `y`th tick: in between only the count moves.
pub proof fn law_retrigger_fires_every_y_ticks(c: Channel, n: nat, mode: Mode)
    requires
        c.y() > 0,
        c.retrig_counter == 0,
        n <= c.y(),
    ensures
        n < c.y() ==> c.retriggered_for(n, mode) == (Channel { retrig_counter: n as u8, ..c }),
        n == c.y() ==> c.retriggered_for(n, mode) == (Channel {
            retrig_counter: 0,
            pitch_op: PitchOp::Restart,
            ..c.with_active_volume(modified(c.volume as int, c.x()), mode)
        }),
    decreases n,
{
    if n > 0 {
        law_retrigger_fires_every_y_ticks(c, (n - 1) as nat, mode);
    }
}

/// Qx0 does nothing.
pub proof fn law_retrigger_without_interval_is_ignored(c: Channel, mode: Mode)
    requires
        c.y() == 0,
    ensures
        c.retriggered(mode) == c,
{
}

/// Ixy cycles: the volume that was restored lasts `x + 1` ticks, the silence
/// after it `y + 1`, and then the cycle starts over.
#[verifier::spinoff_prover]
pub proof fn law_tremor_cycle(c: Channel, n: nat, x: int, y: int, mode: Mode)
    requires
        0 <= x < 16,
        0 <= y < 16,
        c.tremor_on_counter == x + 1,
        c.tremor_off_counter == 0,
        c.volume == capped(c.stored_volume as int),
        c.latched_global == mode.global_volume,
        n <= x + y + 2,
    ensures
        n < x + 1 ==> c.tremored_for(n, x, y, mode) == (Channel {
            tremor_on_counter: (x + 1 - n) as u8,
            ..c
        }),
        x + 1 <= n < x + y + 2 ==> c.tremored_for(n, x, y, mode) == (Channel {
            volume: 0,
            tremor_on_counter: 0,
            tremor_off_counter: (x + y + 2 - n) as u8,
            ..c
        }),
        n == x + y + 2 ==> c.tremored_for(n, x, y, mode) == c,
    decreases n,
{
    if n > 0 {
        law_tremor_cycle(c, (n - 1) as nat, x, y, mode);
    }
}

/// Speed, jumps, tempo and global volume take their parameter as it stands,
/// and no row of theirs is remembered. So do bytes that are no command.
pub proof fn law_commands_without_memory(c: Channel, cell: Cell)
    requires
        cell.command == cmd::A_SET_SPEED || cell.command == cmd::B_POS_JUMP || cell.command
            == cmd::C_PAT_BREAK || cell.command == cmd::T_SET_TEMPO || cell.command
            == cmd::V_GLOBAL_VOL || cell.command > 26,
    ensures
        c.armed(cell).info == cell.info,
        c.armed(cell).effect_memory == c.effect_memory,
{
}

/// A parameter of zero repeats the latest nonzero one of its command;
/// vibrato and fine vibrato count as one command here.
pub proof fn law_zero_repeats_parameter(c: Channel, first: Cell, second: Cell)
    requires
        first.info != 0,
        second.info == 0,
        remembers(first.command),
        memory_slot(first.command) == memory_slot(second.command),
    ensures
        c.armed(first).armed(second).info == first.info,
        remembers(second.command),
{
    assert(memory_slot(first.command) < 27);
    assert(c.armed(first).effect_memory[memory_slot(first.command) as int] == first.info);
}

/// Commands that share no memory leave each other's alone.
pub proof fn law_memories_are_separate(c: Channel, cell: Cell, other: u8)
    requires
        remembers(other),
        memory_slot(cell.command) != memory_slot(other),
    ensures
        c.armed(cell).effect_memory[memory_slot(other) as int]
            == c.effect_memory[memory_slot(other) as int],
{
}

/// A fresh note delay strikes nothing on tick 0, but one that S00 recalls
/// strikes its note both then and on its tick.
#[verifier::spinoff_prover]
pub proof fn law_recalled_delay_strikes_twice(
    c: Channel,
    cell: Cell,
    samples: Seq<SampleBody>,
    mode: Mode,
)
    requires
        cell.command == cmd::S_EXTENDED,
        c.resolved_info(cell) / 16 == 0xD,
        c.resolved_info(cell) % 16 != 0,
        cell.note != 0,
        cell.note < 0xFE,
        1 <= cell.instrument <= samples.len(),
    ensures
        c.entered(cell, samples, mode).pending_delay matches Some(p) && p.fire_tick
            == c.resolved_info(cell) % 16 && p.note == cell.note,
        cell.info != 0 ==> c.entered(cell, samples, mode).note_op == NoteOp::Idle,
        cell.info == 0 ==> c.entered(cell, samples, mode).note_op is Start,
        c.entered(cell, samples, mode).ticked(
            (c.resolved_info(cell) % 16) as int,
            samples,
            mode,
        ).note_op is Start,
{
}

/// SCx freezes the channel on its tick and leaves volume and sample alone;
/// a resuming command thaws it.
#[verifier::spinoff_prover]
pub proof fn law_cut_freezes_until_resumed(
    c: Channel,
    cell: Cell,
    samples: Seq<SampleBody>,
    mode: Mode,
)
    requires
        c.command == cmd::S_EXTENDED,
        c.x() == 0xC,
        c.pending_delay is None,
        resumes(cell.command),
    ensures
        c.ticked(c.y(), samples, mode).frozen,
        c.ticked(c.y(), samples, mode).volume == c.volume,
        c.ticked(c.y(), samples, mode).active == c.active,
        !c.ticked(c.y(), samples, mode).entered(cell, samples, mode).frozen,
{
}

/// A tone portamento without a note heads for the last note that showed up,
/// and restarts nothing. Without such a note it has no target to set.
pub proof fn law_bare_portamento_heads_for_last_note(
    c: Channel,
    samples: Seq<SampleBody>,
    mode: Mode,
)
    requires
        c.glides(),
        c.has_sample(samples),
    ensures
        c.last_note != 0 ==> c.noted(0xFF, samples, mode) == c.aimed(c.last_note, samples, mode),
        c.last_note == 0 ==> c.noted(0xFF, samples, mode) == c,
        c.noted(0xFF, samples, mode).last_note == c.last_note,
        c.noted(0xFF, samples, mode).active == c.active,
        c.noted(0xFF, samples, mode).note_op !is Start || c.note_op is Start,
{
}

/// A note under a tone portamento is remembered as the last one, though a
/// sounding channel does not start it.
pub proof fn law_portamento_note_is_remembered(
    c: Channel,
    note: u8,
    samples: Seq<SampleBody>,
    mode: Mode,
)
    requires
        c.glides(),
        c.pitched,
        c.has_sample(samples),
        note != 0,
        note < 0xFE,
    ensures
        c.noted(note, samples, mode).last_note == note,
        c.noted(note, samples, mode).note_op is Aim,
        c.noted(note, samples, mode).vibrato_pos == c.vibrato_pos,
{
}

/// Only a row without Qxy clears the retrigger count, and no row clears the
/// tremor counters.
pub proof fn law_counters_persist_across_rows(c: Channel, cell: Cell)
    ensures
        c.armed(cell).retrig_counter == if cell.command == cmd::Q_RETRIGGER {
            c.retrig_counter
        } else {
            0
        },
        c.armed(cell).tremor_on_counter == c.tremor_on_counter,
        c.armed(cell).tremor_off_counter == c.tremor_off_counter,
        c.armed(cell).volume == c.volume,
        c.armed(cell).stored_volume == c.stored_volume,
{
}

/// A note that is held back past Vxx takes the new global volume.
pub proof fn law_delayed_note_takes_new_global_volume(s: Playback, i: int, g: u8)
    requires
        s.tick == 1,
        s.pending_global_vol == Some(g),
        0 <= i < s.channels.len(),
        s.channels[i].command == cmd::S_EXTENDED,
        s.channels[i].pending_delay matches Some(p) && p.fire_tick == 1 && p.note != 0 && p.note
            < 0xFE && 1 <= p.instrument <= s.samples.len(),
    ensures
        s.effects_applied().channels[i].latched_global == g,
        s.effects_applied().channels[i].note_op is Start,
{
    let d = s.volume_drained();
    assert(s.effects_applied().channels[i] == d.channels[i].ticked(1, d.samples, d.mode()));
}

/// Kxy and Lxy with a fine volume slide do nothing at all.
pub proof fn law_fine_slide_disables_combined_effects(c: Channel, tick: int, mode: Mode)
    requires
        c.command == cmd::K_VIB_VOL || c.command == cmd::L_PORT_VOL,
        is_fine(c.x(), c.y()),
    ensures
        c.affected(tick, mode) == c,
        c.affected_on_tick_zero(mode) == c,
{
}

/// SC0 cuts nothing: no tick after the first is tick 0.
pub proof fn law_cut_on_tick_zero_is_ignored(c: Channel, tick: int)
    requires
        c.x() == 0xC,
        c.y() == 0,
        tick > 0,
    ensures
        c.cut(tick) == c,
{
}

/// A00 and T00 ask for nothing, B00 for the first order, C00 for the top
/// row, and V00 for silence.
pub proof fn law_zero_parameters_are_literal(asked: RowRequests)
    ensures
        asked.and(cmd::A_SET_SPEED, 0) == asked,
        asked.and(cmd::T_SET_TEMPO, 0) == asked,
        asked.and(cmd::B_POS_JUMP, 0).order == Some(0u8),
        asked.and(cmd::C_PAT_BREAK, 0).row == Some(0u8),
        asked.and(cmd::V_GLOBAL_VOL, 0).global_volume == Some(0u8),
{
}

/// Bxx and Cxx on one row add up to the row of the one in the order of the
/// other, whichever stands to the left.
pub proof fn law_jump_and_break_merge(asked: RowRequests, order: u8, info: u8)
    requires
        break_row(info) < 64,
    ensures
        asked.and(cmd::B_POS_JUMP, order).and(cmd::C_PAT_BREAK, info) == asked.and(
            cmd::C_PAT_BREAK,
            info,
        ).and(cmd::B_POS_JUMP, order),
        asked.and(cmd::B_POS_JUMP, order).and(cmd::C_PAT_BREAK, info).jump() == Some(
            Jump { order: Some(order), row: break_row(info) as u8, within_pattern: false },
        ),
{
}

/// A break to a row that no pattern has is ignored.
pub proof fn law_break_out_of_range_is_ignored(asked: RowRequests, info: u8)
    requires
        break_row(info) >= 64,
    ensures
        asked.and(cmd::C_PAT_BREAK, info) == asked,
{
}

/// Of two jumps on one row the one to the right counts.
pub proof fn law_rightmost_jump_counts(asked: RowRequests, left: u8, right: u8)
    ensures
        asked.and(cmd::B_POS_JUMP, left).and(cmd::B_POS_JUMP, right) == asked.and(
            cmd::B_POS_JUMP,
            right,
        ),
        break_row(right) < 64 ==> asked.and(cmd::C_PAT_BREAK, left).and(cmd::C_PAT_BREAK, right)
            == asked.and(cmd::C_PAT_BREAK, right),
{
}

/// The way back of a pattern loop goes before any other jump of its row.
pub proof fn law_pattern_loop_goes_before_jumps(s: Playback, asked: RowRequests, x: u8)
    requires
        asked.pattern_loop == Some(x),
        x > 0,
        s.loop_count is None,
    ensures
        s.granted(asked).pending_jump == Some(
            Jump { order: Some(s.order_index), row: s.loop_start_row, within_pattern: true },
        ),
{
}

impl Playback {
    /// The player after its row has asked for the same `n` times.
    pub open spec fn granted_for(self, n: nat, asked: RowRequests) -> Playback
        decreases n,
    {
        if n == 0 {
            self
        } else {
            Playback { pending_jump: None, ..self.granted_for((n - 1) as nat, asked) }.granted(
                asked,
            )
        }
    }

    /// The player after `n` more passes over its row.
    pub open spec fn repeated(self, n: nat) -> Playback
        decreases n,
    {
        if n == 0 {
            self
        } else {
            self.repeated((n - 1) as nat).row_advanced().row_entered()
        }
    }

    /// Whether two players run the same course: they may differ in what
    /// their channels sound like, not in what moves the song on.
    pub open spec fn same_course(self, other: Playback) -> bool {
        &&& self == (Playback { channels: self.channels, ..other })
        &&& self.channels.len() == other.channels.len()
        &&& forall|i: int|
            0 <= i < self.channels.len() ==> (#[trigger] self.channels[i]).effect_memory
                == other.channels[i].effect_memory
    }
}

/// SBx goes back `x` times, and on the pass after that goes on.
pub proof fn law_pattern_loop_repeats(s: Playback, asked: RowRequests, x: u8, n: nat)
    requires
        asked == (RowRequests { pattern_loop: Some(x), ..RowRequests::nothing() }),
        0 < x < 16,
        s.loop_count is None,
        s.pending_jump is None,
        1 <= n <= x + 1,
    ensures
        n <= x ==> s.granted_for(n, asked).loop_count == Some((x + 1 - n) as u8),
        n <= x ==> s.granted_for(n, asked).pending_jump == Some(
            Jump { order: Some(s.order_index), row: s.loop_start_row, within_pattern: true },
        ),
        n == x + 1 ==> s.granted_for(n, asked).loop_count is None,
        n == x + 1 ==> s.granted_for(n, asked).pending_jump is None,
        s.granted_for(n, asked).order_index == s.order_index,
        s.granted_for(n, asked).loop_start_row == s.loop_start_row,
    decreases n,
{
    reveal_with_fuel(Playback::granted_for, 2);
    if n > 1 {
        law_pattern_loop_repeats(s, asked, x, (n - 1) as nat);
    }
}

/// A pattern loop cannot start before the pattern it is in: coming to
/// another pattern puts its start back to the top.
pub proof fn law_loop_start_stays_in_pattern(s: Playback)
    requires
        s.pattern_delay_remaining == 0 || s.pending_jump is Some,
        s.pending_jump matches Some(jump) ==> !jump.within_pattern,
        s.pending_jump is None ==> s.row >= 63,
    ensures
        s.row_advanced().loop_start_row == 0,
{
}

/// Markers in the order list are passed over, and nothing else is.
pub proof fn law_markers_are_passed_over(order: Seq<u8>, i: int)
    requires
        0 <= i <= 255,
    ensures
        i <= past_markers(order, i) <= 255,
        forall|j: int|
            i <= j < past_markers(order, i) ==> (#[trigger] order[j]) == 0xFE && j < order.len(),
        past_markers(order, i) < 255 && past_markers(order, i) < order.len()
            ==> order[past_markers(order, i)] != 0xFE,
        past_markers(order, past_markers(order, i)) == past_markers(order, i),
    decreases 255 - i,
{
    if i < 255 && i < order.len() && order[i] == 0xFE {
        law_markers_are_passed_over(order, i + 1);
    }
}

/// SEx holds its row: for as long as repetitions remain, each pass over the
/// row uses one up and stays on it.
pub proof fn law_delay_holds_row(s: Playback, n: nat)
    requires
        s.has_pattern(),
        s.order_index == s.order_position(),
        s.pending_jump is None,
        n <= s.pattern_delay_remaining,
    ensures
        s.repeated(n).row == s.row,
        s.repeated(n).order_index == s.order_index,
        s.repeated(n).pattern_delay_remaining == s.pattern_delay_remaining - n,
        s.repeated(n).pending_jump is None,
        s.repeated(n).ended == s.ended,
        s.repeated(n).has_pattern(),
        s.repeated(n).order == s.order,
        s.repeated(n).patterns == s.patterns,
        n == s.pattern_delay_remaining && s.row < 63 ==> s.repeated(n).row_advanced().row == s.row
            + 1,
    decreases n,
{
    law_markers_are_passed_over(s.order, s.order_index as int);
    if n > 0 {
        law_delay_holds_row(s, (n - 1) as nat);
        let t = s.repeated((n - 1) as nat).row_advanced();
        assert(t.replaying_for_pattern_delay);
        assert(t.has_pattern());
    }
}

/// A held row strikes no note again.
pub proof fn law_held_row_strikes_nothing(s: Playback, i: int)
    requires
        s.replaying_for_pattern_delay,
        s.has_pattern(),
        0 <= i < s.channels.len(),
    ensures
        s.row_entered().channels[i] == s.channels[i].rested(),
        s.row_entered().channels[i].note_op == NoteOp::Idle,
{
}

/// At speed 1 no tick is left for Vxx: the global volume never changes.
pub proof fn law_global_volume_needs_second_tick(s: Playback)
    requires
        s.wf(),
        s.speed == 1,
    ensures
        s.frame_begun().global_volume == s.global_volume,
{
}

/// Vxx leaves the row it stands on alone on tick 0: its notes take the
/// global volume from before.
pub proof fn law_global_volume_waits_for_tick_one(s: Playback)
    ensures
        s.row_entered().global_volume == s.global_volume,
        s.tick != 1 ==> s.effects_applied().global_volume == s.global_volume,
        s.tick == 1 && s.pending_global_vol is Some ==> s.effects_applied().global_volume
            == s.pending_global_vol->0,
{
}

/// A value that Vxx cannot take, above 64, is ignored.
pub proof fn law_global_volume_out_of_range_is_ignored(asked: RowRequests, info: u8)
    requires
        info > 0x40,
    ensures
        asked.and(cmd::V_GLOBAL_VOL, info) == asked,
{
}

proof fn lemma_striking_keeps_memory(
    c: Channel,
    note: u8,
    instrument: u8,
    volume: u8,
    samples: Seq<SampleBody>,
    mode: Mode,
)
    ensures
        c.struck(note, instrument, volume, samples, mode).effect_memory == c.effect_memory,
{
    let loaded = c.loaded(instrument, samples, mode);
    assert(loaded.effect_memory == c.effect_memory);
    assert(loaded.noted(note, samples, mode).effect_memory == c.effect_memory);
}

proof fn lemma_effects_keep_memory(c: Channel, tick: int, mode: Mode)
    ensures
        c.affected_on_tick_zero(mode).effect_memory == c.effect_memory,
        c.affected(tick, mode).effect_memory == c.effect_memory,
{
}

proof fn lemma_entering_arms_memory(c: Channel, cell: Cell, samples: Seq<SampleBody>, mode: Mode)
    ensures
        c.entered(cell, samples, mode).effect_memory == c.armed(cell).effect_memory,
{
    let armed = c.armed(cell);
    let struck = armed.struck(cell.note, cell.instrument, cell.volume, samples, mode);
    lemma_striking_keeps_memory(armed, cell.note, cell.instrument, cell.volume, samples, mode);
    lemma_effects_keep_memory(armed, 0, mode);
    lemma_effects_keep_memory(struck, 0, mode);
}

proof fn lemma_ticking_keeps_memory(c: Channel, tick: int, samples: Seq<SampleBody>, mode: Mode)
    ensures
        c.ticked(tick, samples, mode).effect_memory == c.effect_memory,
{
    let rested = c.rested();
    if let Some(p) = rested.pending_delay {
        lemma_striking_keeps_memory(
            Channel { pending_delay: None, ..rested },
            p.note,
            p.instrument,
            p.volume,
            samples,
            mode,
        );
    }
    lemma_effects_keep_memory(rested.fired(tick, samples, mode).cut(tick), tick, mode);
}

proof fn lemma_entered_channels_alike(s: Playback, t: Playback, cells: Seq<Cell>, i: int)
    requires
        s.channels.len() == t.channels.len(),
        0 <= i < s.channels.len(),
        s.channels[i].effect_memory == t.channels[i].effect_memory,
    ensures
        s.channels_entered(cells)[i].effect_memory == t.channels_entered(cells)[i].effect_memory,
{
    if i < cells.len() {
        lemma_entering_arms_memory(s.channels[i], cells[i], s.samples, s.mode());
        lemma_entering_arms_memory(t.channels[i], cells[i], t.samples, t.mode());
        assert(s.channels[i].armed(cells[i]).effect_memory == t.channels[i].armed(
            cells[i],
        ).effect_memory);
    }
}

proof fn lemma_requests_alike(s: Playback, t: Playback, cells: Seq<Cell>, n: int)
    requires
        s.same_course(t),
        n <= s.channels.len(),
    ensures
        s.requests(cells, n) == t.requests(cells, n),
    decreases n,
{
    if n > 0 {
        lemma_requests_alike(s, t, cells, n - 1);
        assert(s.channels[n - 1].effect_memory == t.channels[n - 1].effect_memory);
    }
}

#[verifier::spinoff_prover]
proof fn lemma_row_keeps_course(s: Playback, t: Playback)
    requires
        s.same_course(t),
    ensures
        s.row_entered().same_course(t.row_entered()),
{
    let cells = s.row_cells();
    assert(t.row_cells() == cells);
    lemma_requests_alike(s, t, cells, s.cells_used(cells));
    let a = s.row_entered();
    let b = t.row_entered();
    assert forall|i: int| 0 <= i < a.channels.len() implies (
    #[trigger] a.channels[i]).effect_memory == b.channels[i].effect_memory by {
        assert(s.channels[i].effect_memory == t.channels[i].effect_memory);
        lemma_entered_channels_alike(s, t, cells, i);
    }
}

proof fn lemma_effects_keep_course(s: Playback, t: Playback)
    requires
        s.same_course(t),
    ensures
        s.effects_applied().same_course(t.effects_applied()),
{
    let s1 = s.volume_drained();
    let t1 = t.volume_drained();
    let a = s.effects_applied();
    let b = t.effects_applied();
    assert forall|i: int| 0 <= i < a.channels.len() implies (
    #[trigger] a.channels[i]).effect_memory == b.channels[i].effect_memory by {
        assert(s.channels[i].effect_memory == t.channels[i].effect_memory);
        lemma_ticking_keeps_memory(s1.channels[i], s1.tick as int, s1.samples, s1.mode());
        lemma_ticking_keeps_memory(t1.channels[i], t1.tick as int, t1.samples, t1.mode());
    }
}

proof fn lemma_frames_keep_course(s: Playback, t: Playback, n: int)
    requires
        s.same_course(t),
    ensures
        s.frames_finished(n).same_course(t.frames_finished(n)),
{
    assert(s.tick_length() == t.tick_length());
    let a = Playback { tick_sample_cursor: 0, tick: 0, ..s };
    let b = Playback { tick_sample_cursor: 0, tick: 0, ..t };
    assert(a.same_course(b));
    assert(a.row_advanced().channels == a.channels);
    assert(b.row_advanced().channels == b.channels);
    assert(a.row_advanced().same_course(b.row_advanced()));
}

proof fn lemma_begun_frame_keeps_course(s: Playback, t: Playback)
    requires
        s.same_course(t),
    ensures
        s.frame_begun().same_course(t.frame_begun()),
{
    lemma_row_keeps_course(s, t);
    lemma_effects_keep_course(s, t);
}

/// What a song sounds like has no bearing on its course: however the voices
/// of two players differ, they go through the same rows and last equally
/// long.
pub proof fn law_voices_do_not_steer(s: Playback, t: Playback, n: nat)
    requires
        s.same_course(t),
    ensures
        s.frames_left(n) == t.frames_left(n),
        s.played(n).same_course(t.played(n)),
    decreases n,
{
    if n > 0 {
        lemma_begun_frame_keeps_course(s, t);
        lemma_frames_keep_course(s.frame_begun(), t.frame_begun(), 1);
        law_voices_do_not_steer(s.frame_played(), t.frame_played(), (n - 1) as nat);
    }
}

impl Playback {
    /// Whether global volume and channels are in their ranges.
    pub open spec fn in_range(self) -> bool {
        &&& self.global_volume <= 64
        &&& self.pending_global_vol matches Some(g) ==> g <= 64
        &&& forall|i: int| 0 <= i < self.channels.len() ==> (#[trigger] self.channels[i]).in_range()
    }
}

/// Every song starts in range.
pub proof fn law_opened_song_in_range(
    header: S3mHeader,
    samples: Seq<SampleBody>,
    patterns: Seq<Seq<Seq<Cell>>>,
    sample_rate: u32,
)
    ensures
        Playback::opened(header, samples, patterns, sample_rate).in_range(),
{
}

proof fn lemma_begun_frame_keeps_range(s: Playback)
    requires
        s.in_range(),
    ensures
        s.frame_begun().in_range(),
{
    let t = s.tick_advanced();
    if s.tick == 0 {
        let cells = s.row_cells();
        lemma_requests_are_sound(s, cells, s.cells_used(cells));
        assert forall|i: int| 0 <= i < t.channels.len() implies (
        #[trigger] t.channels[i]).in_range() by {
            assert(s.channels[i].in_range());
            law_entering_keeps_range(s.channels[i], cells[i], s.samples, s.mode());
        }
    } else {
        let d = s.volume_drained();
        assert forall|i: int| 0 <= i < t.channels.len() implies (
        #[trigger] t.channels[i]).in_range() by {
            assert(s.channels[i].in_range());
            law_ticking_keeps_range(d.channels[i], d.tick as int, d.samples, d.mode());
        }
    }
}

/// However long a song plays, and whatever it holds, no volume, pan or phase
/// leaves its range.
pub proof fn law_playing_keeps_range(s: Playback, n: nat)
    requires
        s.in_range(),
    ensures
        s.played(n).in_range(),
    decreases n,
{
    if n > 0 {
        lemma_begun_frame_keeps_range(s);
        let b = s.frame_begun();
        assert(b.frames_finished(1).channels == b.channels);
        law_playing_keeps_range(s.frame_played(), (n - 1) as nat);
    }
}

} // verus!
