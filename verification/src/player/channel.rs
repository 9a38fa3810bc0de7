//! Per-channel playback state and effects.
//!
//! A channel holds everything that a pattern can change, in integers. The
//! playback rate and the fractional read cursor belong to the voice that
//! renders the channel. On each tick the channel leaves two orders for it:
//! [`Channel::note_op`], then [`Channel::pitch_op`].

use vstd::array::spec_array_update;
use vstd::prelude::*;

use crate::header::Bank;
use crate::pattern::Cell;
use crate::player::cmd;
use crate::player::lfo::Waveform;
use crate::player::pitch::{note_period, note_to_period, offset_frame, resolve_sample_offset};
use crate::player::volume::{capped, clamp_pcm_volume};
use crate::samples::SampleBody;

verus! {

/// Note, instrument and volume held back by the SDx (note delay) effect.
#[derive(Clone, Copy, Debug, PartialEq, Eq, Structural)]
pub struct PendingTrigger {
    /// Tick on which to trigger.
    pub fire_tick: u8,
    /// Note byte (0xFF = none, 0xFE = cut).
    pub note: u8,
    /// 1-based instrument (0 = no change).
    pub instrument: u8,
    /// Volume 0..=64 or 0xFF = no change.
    pub volume: u8,
}

impl Default for PendingTrigger {
    fn default() -> (r: Self)
        ensures
            r == (PendingTrigger { fire_tick: 0, note: 0, instrument: 0, volume: 0 }),
    {
        PendingTrigger { fire_tick: 0, note: 0, instrument: 0, volume: 0 }
    }
}

/// What a tick does to the note that a voice plays.
#[derive(Clone, Copy, Debug, PartialEq, Eq, Structural)]
pub enum NoteOp {
    /// Nothing.
    Idle,
    /// The playback rate drops to zero.
    Cut,
    /// The voice starts over at this period, from this sample frame.
    Start { period: u32, offset: u64 },
    /// Tone portamento heads for this period from now on.
    Aim { period: u32 },
}

/// What a tick does to the pitch and cursor of a voice.
#[derive(Clone, Copy, Debug, PartialEq, Eq, Structural)]
pub enum PitchOp {
    /// Nothing.
    Idle,
    /// Rate and target move by this many 3072ths of an octave.
    Slide { units: i32 },
    /// The rate becomes the target's, off by this many 48ths of an octave.
    Vibrato { delta: i32 },
    /// The rate moves toward the target's by this many 768ths of an octave.
    TonePorta { step: u8 },
    /// The rate becomes that of this period; the target stays.
    Arpeggio { period: u32 },
    /// Rate and target become those of this period.
    Retune { period: u32 },
    /// The read cursor returns to the first frame.
    Restart,
}

/// The player-wide settings that effects consult.
#[derive(Clone, Copy, Debug, PartialEq, Eq, Structural)]
pub struct Mode {
    /// Global volume 0..=64, which a channel takes over whenever its volume
    /// is written.
    pub global_volume: u8,
    /// Whether volume slides also run on tick 0.
    pub fast_slides: bool,
    /// Whether periods are kept to the Amiga's range.
    pub amiga_limits: bool,
}

/// The effect memory of a channel that has seen no command.
pub const NO_MEMORY: [u8; 27] = [
    0, 0, 0, 0, 0, 0, 0, 0, 0, 0, 0, 0, 0, 0, 0, 0, 0, 0, 0, 0, 0, 0, 0, 0, 0, 0, 0,
];

/// Per-channel playback state.
#[derive(Clone, Copy, Debug)]
pub struct Channel {
    /// 1-based instrument index (0 = nothing triggered yet).
    pub instrument: u8,
    /// Whether the playback rate is above zero.
    pub pitched: bool,
    /// Active volume, 0..=63.
    pub volume: u8,
    /// Pan value 0..=15 (0 = hard left, 15 = hard right).
    pub pan: u8,
    /// The bank that the file puts the channel in, which SAx goes by.
    pub bank: Bank,
    /// Whether this channel is currently emitting sound.
    pub active: bool,
    /// Whether the tone-portamento target rate is above zero.
    pub targeted: bool,
    /// Current effect command 1..=26 (0 = none).
    pub command: u8,
    /// Effect parameter byte.
    pub info: u8,
    /// Vibrato phase in table units (0..=63).
    pub vibrato_pos: u8,
    /// Tremolo phase, 256 units to the cycle.
    pub tremolo_pos: u8,
    /// Last note byte that showed up on this channel (0 = none yet).
    pub last_note: u8,
    /// C5 speed that the last note was resolved with.
    pub c5_speed: u32,
    /// SDx: trigger held back until its tick.
    pub pending_delay: Option<PendingTrigger>,
    /// S1x: tone portamento moves in whole semitones.
    pub glissando: bool,
    /// S3x: vibrato waveform.
    pub vibrato_waveform: Waveform,
    /// S4x: tremolo waveform.
    pub tremolo_waveform: Waveform,
    /// State of the `Random` waveform.
    pub random_state: u32,
    /// Qxy tick counter. Only a row without Qxy clears it.
    pub retrig_counter: u8,
    /// Ixy "on" counter, which no row resets.
    pub tremor_on_counter: u8,
    /// Ixy "off" counter, which no row resets.
    pub tremor_off_counter: u8,
    /// The volume that instrument or volume column set last. Effects that
    /// move the active volume leave it alone.
    pub stored_volume: u8,
    /// Global volume at the last write of the active volume.
    pub latched_global: u8,
    /// S3x bit 2: a new note keeps the vibrato phase.
    pub keep_vibrato_pos_on_new_note: bool,
    /// S4x bit 2: a new note keeps the tremolo phase.
    pub keep_tremolo_pos_on_new_note: bool,
    /// Latest nonzero parameter per command.
    pub effect_memory: [u8; 27],
    /// Muted channels play silently.
    pub muted: bool,
    /// SCx: playback is frozen until a new note or a resuming command.
    pub frozen: bool,
    /// What this tick does to the note.
    pub note_op: NoteOp,
    /// What this tick does to the pitch.
    pub pitch_op: PitchOp,
}

impl Channel {
    /// A channel at the start of a song.
    pub open spec fn silent(pan: u8, bank: Bank, muted: bool, global_volume: u8) -> Channel {
        Channel {
            instrument: 0,
            pitched: false,
            volume: 0,
            pan,
            bank,
            active: false,
            targeted: false,
            command: 0,
            info: 0,
            vibrato_pos: 0,
            tremolo_pos: 0,
            last_note: 0,
            c5_speed: 0,
            pending_delay: None,
            glissando: false,
            vibrato_waveform: Waveform::Sine,
            tremolo_waveform: Waveform::Sine,
            random_state: 0x1234_5678,
            retrig_counter: 0,
            tremor_on_counter: 0,
            tremor_off_counter: 0,
            stored_volume: 0,
            latched_global: global_volume,
            keep_vibrato_pos_on_new_note: false,
            keep_tremolo_pos_on_new_note: false,
            effect_memory: NO_MEMORY,
            muted,
            frozen: false,
            note_op: NoteOp::Idle,
            pitch_op: PitchOp::Idle,
        }
    }

    /// A channel at the start of a song.
    pub fn new(pan: u8, bank: Bank, muted: bool, global_volume: u8) -> (r: Self)
        ensures
            r == Channel::silent(pan, bank, muted, global_volume),
    {
        Channel {
            instrument: 0,
            pitched: false,
            volume: 0,
            pan,
            bank,
            active: false,
            targeted: false,
            command: 0,
            info: 0,
            vibrato_pos: 0,
            tremolo_pos: 0,
            last_note: 0,
            c5_speed: 0,
            pending_delay: None,
            glissando: false,
            vibrato_waveform: Waveform::Sine,
            tremolo_waveform: Waveform::Sine,
            random_state: 0x1234_5678,
            retrig_counter: 0,
            tremor_on_counter: 0,
            tremor_off_counter: 0,
            stored_volume: 0,
            latched_global: global_volume,
            keep_vibrato_pos_on_new_note: false,
            keep_tremolo_pos_on_new_note: false,
            effect_memory: NO_MEMORY,
            muted,
            frozen: false,
            note_op: NoteOp::Idle,
            pitch_op: PitchOp::Idle,
        }
    }
}

impl Default for Channel {
    fn default() -> (r: Self)
        ensures
            r == Channel::silent(8, Bank::Neither, false, 64),
    {
        Channel::new(8, Bank::Neither, false, 64)
    }
}

/// Whether a command thaws a channel that SCx froze.
pub open spec fn resumes(command: u8) -> bool {
    command == cmd::E_SLIDE_DOWN || command == cmd::F_SLIDE_UP || command == cmd::G_TONE_PORTA
        || command == cmd::H_VIBRATO || command == cmd::J_ARPEGGIO || command == cmd::K_VIB_VOL
        || command == cmd::L_PORT_VOL || command == cmd::U_FINE_VIBRATO
}

/// Whether a command thaws a channel that SCx froze.
pub fn is_scx_resume_command(command: u8) -> (r: bool)
    ensures
        r == resumes(command),
{
    command == cmd::E_SLIDE_DOWN || command == cmd::F_SLIDE_UP || command == cmd::G_TONE_PORTA
        || command == cmd::H_VIBRATO || command == cmd::J_ARPEGGIO || command == cmd::K_VIB_VOL
        || command == cmd::L_PORT_VOL || command == cmd::U_FINE_VIBRATO
}

/// Whether a command with parameter 0 repeats its latest nonzero parameter.
/// Speed, jumps, tempo and global volume take a zero as it stands, and so
/// do bytes that are no command.
pub open spec fn remembers(command: u8) -> bool {
    1 <= command <= 26 && command != cmd::A_SET_SPEED && command != cmd::B_POS_JUMP && command
        != cmd::C_PAT_BREAK && command != cmd::T_SET_TEMPO && command != cmd::V_GLOBAL_VOL
}

/// The slot that holds a command's latest parameter: fine vibrato shares
/// that of vibrato.
pub open spec fn memory_slot(command: u8) -> u8 {
    if command == cmd::U_FINE_VIBRATO {
        cmd::H_VIBRATO
    } else {
        command
    }
}

/// Whether a command has an effect memory.
pub fn has_effect_memory(command: u8) -> (r: bool)
    ensures
        r == remembers(command),
{
    1 <= command && command <= 26 && command != cmd::A_SET_SPEED && command != cmd::B_POS_JUMP
        && command != cmd::C_PAT_BREAK && command != cmd::T_SET_TEMPO && command
        != cmd::V_GLOBAL_VOL
}

/// Map a command to its effect-memory slot.
pub fn effect_memory_slot(command: u8) -> (r: u8)
    ensures
        r == memory_slot(command),
{
    if command == cmd::U_FINE_VIBRATO {
        cmd::H_VIBRATO
    } else {
        command
    }
}

/// Whether a command and parameter hold the note back (SDx with x > 0).
pub open spec fn delays_note(command: u8, info: u8) -> bool {
    command == cmd::S_EXTENDED && info / 16 == 0xD && info % 16 != 0
}

impl Channel {
    /// The channel without orders for the voice.
    pub open spec fn rested(self) -> Channel {
        Channel { note_op: NoteOp::Idle, pitch_op: PitchOp::Idle, ..self }
    }

    /// The channel after a write of its active volume.
    pub open spec fn with_active_volume(self, v: int, mode: Mode) -> Channel {
        Channel { volume: v as u8, latched_global: mode.global_volume, ..self }
    }

    /// The channel after a write of its stored volume, which the active
    /// volume follows.
    pub open spec fn with_stored_volume(self, v: int, mode: Mode) -> Channel {
        Channel { stored_volume: v as u8, ..self.with_active_volume(v, mode) }
    }

    /// Whether the current instrument has a sample slot.
    pub open spec fn has_sample(self, samples: Seq<SampleBody>) -> bool {
        1 <= self.instrument <= samples.len()
    }

    /// The sample of the current instrument.
    pub open spec fn sample(self, samples: Seq<SampleBody>) -> SampleBody {
        samples[self.instrument - 1]
    }

    /// The parameter that a cell's command runs with.
    pub open spec fn resolved_info(self, cell: Cell) -> u8 {
        if cell.info == 0 && remembers(cell.command) {
            self.effect_memory[memory_slot(cell.command) as int]
        } else {
            cell.info
        }
    }

    /// The channel with the command of a new row: parameter recalled or
    /// remembered, a frozen voice thawed by a resuming command, the
    /// retrigger count cleared unless the row retriggers, and a delayed
    /// note put aside.
    pub open spec fn armed(self, cell: Cell) -> Channel {
        let info = self.resolved_info(cell);
        Channel {
            command: cell.command,
            info,
            frozen: self.frozen && !resumes(cell.command),
            effect_memory: if cell.info != 0 && remembers(cell.command) {
                spec_array_update(
                    self.effect_memory,
                    memory_slot(cell.command) as int,
                    cell.info,
                )
            } else {
                self.effect_memory
            },
            retrig_counter: if cell.command == cmd::Q_RETRIGGER {
                self.retrig_counter
            } else {
                0
            },
            pending_delay: if delays_note(cell.command, info) {
                Some(
                    PendingTrigger {
                        fire_tick: info % 16,
                        note: cell.note,
                        instrument: cell.instrument,
                        volume: cell.volume,
                    },
                )
            } else {
                None
            },
            ..self.rested()
        }
    }

    /// The channel after a new instrument, whose default volume is loaded.
    pub open spec fn loaded(self, instrument: u8, samples: Seq<SampleBody>, mode: Mode) -> Channel {
        let next = Channel { instrument, ..self };
        if instrument == 0 {
            self
        } else if next.has_sample(samples) {
            next.with_stored_volume(capped(next.sample(samples).volume as int), mode)
        } else {
            next
        }
    }

    /// Whether the command is a tone portamento, alone or with a slide.
    pub open spec fn glides(self) -> bool {
        self.command == cmd::G_TONE_PORTA || self.command == cmd::L_PORT_VOL
    }

    /// The channel after tone portamento is given a note to head for.
    pub open spec fn aimed(self, note: u8, samples: Seq<SampleBody>, mode: Mode) -> Channel {
        let c5 = self.sample(samples).c5_speed;
        Channel {
            targeted: true,
            last_note: note,
            c5_speed: c5,
            note_op: NoteOp::Aim {
                period: note_period(note as int, c5 as int, mode.amiga_limits) as u32,
            },
            ..self
        }
    }

    /// The sample frame that a new note starts from.
    pub open spec fn start_frame(self, samples: Seq<SampleBody>) -> int {
        let body = self.sample(samples);
        if self.command == cmd::O_SAMPLE_OFFSET {
            offset_frame(
                256 * self.info,
                body.loop_start as int,
                body.loop_end as int,
                body.pcm@.len() as int,
                body.loops(),
            )
        } else {
            0
        }
    }

    /// The channel after a note is triggered.
    pub open spec fn started(self, note: u8, samples: Seq<SampleBody>, mode: Mode) -> Channel {
        let c5 = self.sample(samples).c5_speed;
        Channel {
            pitched: true,
            targeted: true,
            active: true,
            frozen: false,
            vibrato_pos: if self.keep_vibrato_pos_on_new_note {
                self.vibrato_pos
            } else {
                0
            },
            tremolo_pos: if self.keep_tremolo_pos_on_new_note {
                self.tremolo_pos
            } else {
                0
            },
            last_note: note,
            c5_speed: c5,
            latched_global: mode.global_volume,
            note_op: NoteOp::Start {
                period: note_period(note as int, c5 as int, mode.amiga_limits) as u32,
                offset: self.start_frame(samples) as u64,
            },
            ..self
        }
    }

    /// The channel after a note byte. A note cut silences it. A note starts,
    /// unless a tone portamento on a sounding channel takes it for its
    /// target. A tone portamento without a note heads for the last one.
    pub open spec fn noted(self, note: u8, samples: Seq<SampleBody>, mode: Mode) -> Channel {
        if note == 0xFE {
            Channel { active: false, pitched: false, note_op: NoteOp::Cut, ..self }
        } else if !self.has_sample(samples) {
            self
        } else if note == 0xFF || note == 0 {
            if self.glides() && self.last_note != 0 {
                self.aimed(self.last_note, samples, mode)
            } else {
                self
            }
        } else if self.glides() && self.pitched {
            self.aimed(note, samples, mode)
        } else {
            self.started(note, samples, mode)
        }
    }

    /// The channel after a volume column.
    pub open spec fn columned(self, volume: u8, mode: Mode) -> Channel {
        if volume == 0xFF {
            self
        } else {
            self.with_stored_volume(capped(volume as int), mode)
        }
    }

    /// The channel after instrument, note and volume of a cell.
    pub open spec fn struck(
        self,
        note: u8,
        instrument: u8,
        volume: u8,
        samples: Seq<SampleBody>,
        mode: Mode,
    ) -> Channel {
        self.loaded(instrument, samples, mode).noted(note, samples, mode).columned(volume, mode)
    }

    pub(crate) fn rest(&mut self)
        ensures
            *final(self) == old(self).rested(),
    {
        self.note_op = NoteOp::Idle;
        self.pitch_op = PitchOp::Idle;
    }

    pub(crate) fn set_active_volume(&mut self, v: u8, mode: Mode)
        ensures
            *final(self) == old(self).with_active_volume(v as int, mode),
    {
        self.volume = v;
        self.latched_global = mode.global_volume;
    }

    fn set_stored_volume(&mut self, v: u8, mode: Mode)
        ensures
            *final(self) == old(self).with_stored_volume(v as int, mode),
    {
        self.set_active_volume(v, mode);
        self.stored_volume = v;
    }

    /// Recall or remember the parameter of a cell.
    fn recall(&mut self, cell: Cell) -> (r: u8)
        ensures
            r == old(self).resolved_info(cell),
            *final(self) == (Channel {
                effect_memory: old(self).armed(cell).effect_memory,
                ..*old(self)
            }),
    {
        if !has_effect_memory(cell.command) {
            return cell.info;
        }
        let slot: usize = effect_memory_slot(cell.command) as usize;
        if cell.info == 0 {
            self.effect_memory[slot]
        } else {
            self.effect_memory[slot] = cell.info;
            cell.info
        }
    }

    pub(crate) fn arm(&mut self, cell: Cell)
        ensures
            *final(self) == old(self).armed(cell),
    {
        let info: u8 = self.recall(cell);
        let delayed = cell.command == cmd::S_EXTENDED && info / 16 == 0xD && info % 16 != 0;
        let pending = PendingTrigger {
            fire_tick: info % 16,
            note: cell.note,
            instrument: cell.instrument,
            volume: cell.volume,
        };
        let frozen = self.frozen && !is_scx_resume_command(cell.command);
        let retrig_counter: u8 = if cell.command == cmd::Q_RETRIGGER {
            self.retrig_counter
        } else {
            0
        };
        *self = Channel {
            command: cell.command,
            info,
            frozen,
            retrig_counter,
            pending_delay: if delayed {
                Some(pending)
            } else {
                None
            },
            note_op: NoteOp::Idle,
            pitch_op: PitchOp::Idle,
            ..*self
        };
    }

    fn aim(&mut self, note: u8, samples: &Vec<SampleBody>, mode: Mode)
        requires
            old(self).has_sample(samples@),
        ensures
            *final(self) == old(self).aimed(note, samples@, mode),
    {
        let c5: u32 = samples[self.instrument as usize - 1].c5_speed;
        self.targeted = true;
        self.last_note = note;
        self.c5_speed = c5;
        self.note_op = NoteOp::Aim { period: note_to_period(note, c5, mode.amiga_limits) };
    }

    fn start(&mut self, note: u8, samples: &Vec<SampleBody>, mode: Mode)
        requires
            old(self).has_sample(samples@),
        ensures
            *final(self) == old(self).started(note, samples@, mode),
    {
        let body = &samples[self.instrument as usize - 1];
        let offset: u64 = if self.command == cmd::O_SAMPLE_OFFSET {
            resolve_sample_offset(
                256 * self.info as u64,
                body.loop_start,
                body.loop_end,
                body.pcm.len(),
                body.is_looped(),
            )
        } else {
            0
        };
        self.note_op = NoteOp::Start {
            period: note_to_period(note, body.c5_speed, mode.amiga_limits),
            offset,
        };
        self.pitched = true;
        self.targeted = true;
        self.active = true;
        self.frozen = false;
        if !self.keep_vibrato_pos_on_new_note {
            self.vibrato_pos = 0;
        }
        if !self.keep_tremolo_pos_on_new_note {
            self.tremolo_pos = 0;
        }
        self.last_note = note;
        self.c5_speed = body.c5_speed;
        self.latched_global = mode.global_volume;
    }

    fn load(&mut self, instrument: u8, samples: &Vec<SampleBody>, mode: Mode)
        ensures
            *final(self) == old(self).loaded(instrument, samples@, mode),
    {
        if instrument != 0 {
            self.instrument = instrument;
            if instrument as usize <= samples.len() {
                let v: u8 = clamp_pcm_volume(samples[instrument as usize - 1].volume as u16);
                self.set_stored_volume(v, mode);
            }
        }
    }

    fn play_note(&mut self, note: u8, samples: &Vec<SampleBody>, mode: Mode)
        ensures
            *final(self) == old(self).noted(note, samples@, mode),
    {
        let glides = self.command == cmd::G_TONE_PORTA || self.command == cmd::L_PORT_VOL;
        if note == 0xFE {
            self.active = false;
            self.pitched = false;
            self.note_op = NoteOp::Cut;
        } else if self.instrument > 0 && self.instrument as usize <= samples.len() {
            if note == 0xFF || note == 0 {
                if glides && self.last_note != 0 {
                    let target: u8 = self.last_note;
                    self.aim(target, samples, mode);
                }
            } else if glides && self.pitched {
                self.aim(note, samples, mode);
            } else {
                self.start(note, samples, mode);
            }
        }
    }

    pub(crate) fn strike(
        &mut self,
        note: u8,
        instrument: u8,
        volume: u8,
        samples: &Vec<SampleBody>,
        mode: Mode,
    )
        ensures
            *final(self) == old(self).struck(note, instrument, volume, samples@, mode),
    {
        self.load(instrument, samples, mode);
        self.play_note(note, samples, mode);
        if volume != 0xFF {
            let v: u8 = clamp_pcm_volume(volume as u16);
            self.set_stored_volume(v, mode);
        }
    }
}

} // verus!
