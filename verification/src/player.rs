//! ST3 (S3M) playback engine.
//!
//! [`PlayerState`] walks the order list row by row and tick by tick, and
//! keeps a [`Channel`] per slot of the file. Its state is all integers.
//! Playback rates and fractional sample cursors belong to whoever renders
//! the voices; the channels tell it on every tick what to do with them.
//!
//! - `speed` = ticks per row (default 6).
//! - `bpm` = tempo (default 125).
//! - frames per tick = `sample_rate * 2.5 / bpm`.

pub mod channel;
pub mod cmd;
pub mod effect_laws;
pub mod effects;
pub mod frames;
pub mod laws;
pub mod lfo;
pub mod mixer;
pub mod note_laws;
pub mod pitch;
pub mod sequencer;
pub mod song_laws;
pub mod volume;

pub use crate::player::channel::{
    effect_memory_slot, is_scx_resume_command, Channel, Mode, NoteOp, PendingTrigger, PitchOp,
};
pub use crate::player::lfo::{waveform_sample, Waveform, PROTRACKER_SINE};
pub use crate::player::mixer::{Gate, Reading, Tap};
pub use crate::player::pitch::{
    note_to_period, resolve_sample_offset, AMIGA_CLOCK_HZ, AMIGA_LIMIT_PERIOD_MAX,
    AMIGA_LIMIT_PERIOD_MIN, PERIOD_TABLE, S2X_FINETUNE_TABLE,
};
pub use crate::player::sequencer::{
    Jump, PlayerState, RowRequests, DEFAULT_BPM, DEFAULT_SPEED,
};
pub use crate::player::volume::{
    clamp_pcm_volume, is_fine_volslide, retrigger_volume, PCM_VOLUME_PEAK, Q_TWO_THIRDS,
};
