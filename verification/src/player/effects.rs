//! What each effect does to its channel, on the first tick of a row and on
//! those that follow.

use vstd::prelude::*;

use crate::bytes::has_bit;
use crate::header::CENTRE_PAN;
use crate::pattern::Cell;
use crate::player::channel::{delays_note, Channel, Mode, PitchOp};
use crate::player::cmd;
use crate::player::lfo::{lfo_random, lfo_value, truncated, waveform_sample, Waveform};
use crate::player::pitch::{
    limited, note_index, note_index_to_period, note_period, note_to_period, period_of,
    S2X_FINETUNE_TABLE,
};
use crate::player::volume::{
    capped, clamp_pcm_volume, fast_slide_volume, is_fine, is_fine_volslide, modified,
    retrigger_volume, slid, slid_fast, slid_on_tick_zero, slide_volume, slide_volume_on_tick_zero,
};
use crate::samples::SampleBody;

verus! {

/// How long a counter that is set for `n` runs: one tick more, as far as a
/// counter goes.
pub open spec fn counter_of(n: int) -> int {
    if n < 255 {
        n + 1
    } else {
        255
    }
}

impl Channel {
    /// The high nibble of the parameter.
    pub open spec fn x(self) -> int {
        self.info as int / 16
    }

    /// The low nibble of the parameter.
    pub open spec fn y(self) -> int {
        self.info as int % 16
    }

    /// The channel with the active volume `v`, where there is one to set.
    pub open spec fn with_slide(self, v: Option<int>, mode: Mode) -> Channel {
        match v {
            Some(v) => self.with_active_volume(v, mode),
            None => self,
        }
    }

    /// Qxy: the tick count goes up, and at `y` the sample starts over with
    /// its volume modified and the count at zero. `Qx0` does nothing.
    pub open spec fn retriggered(self, mode: Mode) -> Channel {
        let count = if self.retrig_counter < 255 {
            self.retrig_counter + 1
        } else {
            255
        };
        if self.y() == 0 {
            self
        } else if count >= self.y() {
            Channel { retrig_counter: 0, pitch_op: PitchOp::Restart, ..self }.with_active_volume(
                modified(self.volume as int, self.x()),
                mode,
            )
        } else {
            Channel { retrig_counter: count as u8, ..self }
        }
    }

    /// Ixy: while the "on" counter runs it counts down, and silences the
    /// channel for `y + 1` ticks when it is done. After that the "off"
    /// counter counts down, and restores the stored volume for `x + 1`
    /// ticks when it is done.
    pub open spec fn tremored(self, x: int, y: int, mode: Mode) -> Channel {
        if self.tremor_on_counter > 1 {
            Channel { tremor_on_counter: (self.tremor_on_counter - 1) as u8, ..self }
        } else if self.tremor_on_counter == 1 {
            Channel {
                tremor_on_counter: 0,
                tremor_off_counter: counter_of(y) as u8,
                ..self.with_active_volume(0, mode)
            }
        } else if self.tremor_off_counter > 1 {
            Channel { tremor_off_counter: (self.tremor_off_counter - 1) as u8, ..self }
        } else {
            Channel {
                tremor_on_counter: counter_of(x) as u8,
                tremor_off_counter: 0,
                ..self.with_active_volume(capped(self.stored_volume as int), mode)
            }
        }
    }

    /// Hxy and Uxy: the phase moves by four times the speed, and the pitch
    /// is off the target by the waveform there, times the depth. Nothing
    /// happens without a target, or with speed and depth both zero.
    pub open spec fn vibrated(self, speed: int, depth: int, fine: bool) -> Channel {
        let pos = (self.vibrato_pos + 4 * speed) % 64;
        let value = lfo_value(self.vibrato_waveform, pos, self.random_state as int);
        if speed == 0 && depth == 0 || !self.targeted {
            self
        } else {
            Channel {
                vibrato_pos: pos as u8,
                random_state: lfo_random(self.vibrato_waveform, self.random_state as int) as u32,
                pitched: true,
                pitch_op: PitchOp::Vibrato {
                    delta: truncated(
                        value * depth,
                        if fine {
                            512
                        } else {
                            128
                        },
                    ) as i32,
                },
                ..self
            }
        }
    }

    /// Rxy: the phase moves by four times the speed, 256 units to the cycle,
    /// and the active volume is off the stored one by the waveform there,
    /// times the depth. Nothing happens at stored volume 0 or without a
    /// parameter.
    pub open spec fn tremoloed(self, mode: Mode) -> Channel {
        let pos = (self.tremolo_pos + 4 * self.x()) % 256;
        let value = lfo_value(self.tremolo_waveform, pos / 4, self.random_state as int);
        if self.info == 0 || self.stored_volume == 0 {
            self
        } else {
            Channel {
                tremolo_pos: pos as u8,
                random_state: lfo_random(self.tremolo_waveform, self.random_state as int) as u32,
                ..self.with_active_volume(
                    capped(self.stored_volume + truncated(4 * self.y() * value, 128)),
                    mode,
                )
            }
        }
    }

    /// Gxx: the pitch moves toward the target, if there is one.
    pub open spec fn gliding(self, step: u8) -> Channel {
        if step == 0 || !self.targeted {
            self
        } else {
            Channel { pitch_op: PitchOp::TonePorta { step }, ..self }
        }
    }

    /// Jxy: ticks cycle through the last note, `x` semitones above it and
    /// `y` semitones above it.
    pub open spec fn arpeggiated(self, tick: int, mode: Mode) -> Channel {
        let semitones = if tick % 3 == 0 {
            0
        } else if tick % 3 == 1 {
            self.x()
        } else {
            self.y()
        };
        if self.info == 0 || self.last_note == 0 {
            self
        } else {
            Channel {
                pitched: true,
                pitch_op: PitchOp::Arpeggio {
                    period: limited(
                        period_of(
                            note_index(self.last_note as int) + semitones,
                            self.c5_speed as int,
                        ),
                        mode.amiga_limits,
                    ) as u32,
                },
                ..self
            }
        }
    }

    /// S2x: the last note sounds on at another C5 speed.
    pub open spec fn finetuned(self, c5: u32, mode: Mode) -> Channel {
        if self.last_note == 0 {
            self
        } else {
            Channel {
                c5_speed: c5,
                pitched: true,
                targeted: true,
                pitch_op: PitchOp::Retune {
                    period: note_period(
                        self.last_note as int,
                        c5 as int,
                        mode.amiga_limits,
                    ) as u32,
                },
                ..self
            }
        }
    }

    /// S3x: the vibrato waveform, and whether new notes keep its phase.
    pub open spec fn with_vibrato_waveform(self, p: int) -> Channel {
        Channel {
            vibrato_waveform: Waveform::of_nibble(p),
            keep_vibrato_pos_on_new_note: has_bit(p, 4),
            ..self
        }
    }

    /// S4x: the tremolo waveform, and whether new notes keep its phase.
    pub open spec fn with_tremolo_waveform(self, p: int) -> Channel {
        Channel {
            tremolo_waveform: Waveform::of_nibble(p),
            keep_tremolo_pos_on_new_note: has_bit(p, 4),
            ..self
        }
    }

    /// The pan that SAx gives: that of the channel's own bank for 0 and 2, of
    /// the other bank for 1 and 3, the centre for 4..=7. The rest keeps it.
    pub open spec fn controlled_pan(self, p: int) -> u8 {
        if p == 0 || p == 2 {
            self.bank.position()
        } else if p == 1 || p == 3 {
            self.bank.opposite().position()
        } else if p < 8 {
            CENTRE_PAN
        } else {
            self.pan
        }
    }

    /// SAx: pan by bank.
    pub open spec fn with_stereo_control(self, p: int) -> Channel {
        Channel { pan: self.controlled_pan(p), ..self }
    }

    /// Sxy on tick 0, as far as it concerns the channel: S1x glissando, S2x
    /// finetune of the last note, S3x and S4x waveforms, S8x pan, and SAx
    /// pan by bank.
    pub open spec fn extended(self, mode: Mode) -> Channel {
        if self.x() == 1 {
            Channel { glissando: self.y() != 0, ..self }
        } else if self.x() == 2 {
            self.finetuned(S2X_FINETUNE_TABLE[self.y()], mode)
        } else if self.x() == 3 {
            self.with_vibrato_waveform(self.y())
        } else if self.x() == 4 {
            self.with_tremolo_waveform(self.y())
        } else if self.x() == 8 {
            Channel { pan: self.y() as u8, ..self }
        } else if self.x() == 0xA {
            self.with_stereo_control(self.y())
        } else {
            self
        }
    }

    /// The fine slides of Exx and Fxx, in 3072ths of an octave: `F` forms
    /// count 768ths, `E` forms a quarter of that.
    pub open spec fn fine_units(self) -> int {
        if self.x() == 0xF {
            4 * self.y()
        } else {
            self.y()
        }
    }

    /// The pan that Xxx sets, which counts 0..=0x80.
    pub open spec fn wide_pan(self) -> int {
        if self.info * 15 / 128 < 15 {
            self.info * 15 / 128
        } else {
            15
        }
    }

    /// The channel after the effects of tick 0.
    pub open spec fn affected_on_tick_zero(self, mode: Mode) -> Channel {
        if self.command == cmd::D_VOL_SLIDE {
            self.with_slide(
                slid_on_tick_zero(self.volume as int, self.x(), self.y(), mode.fast_slides),
                mode,
            )
        } else if self.command == cmd::E_SLIDE_DOWN && self.info >= 0xE0 {
            Channel { pitch_op: PitchOp::Slide { units: -self.fine_units() as i32 }, ..self }
        } else if self.command == cmd::F_SLIDE_UP && self.info >= 0xE0 {
            Channel { pitch_op: PitchOp::Slide { units: self.fine_units() as i32 }, ..self }
        } else if self.command == cmd::Q_RETRIGGER {
            self.retriggered(mode)
        } else if self.command == cmd::I_TREMOR && self.info != 0 {
            self.tremored(self.x(), self.y(), mode)
        } else if self.command == cmd::S_EXTENDED {
            self.extended(mode)
        } else if self.command == cmd::X_SET_PAN {
            Channel { pan: self.wide_pan() as u8, ..self }
        } else {
            self
        }
    }

    /// The channel after tick 0 of a row with this cell. A delayed note is
    /// not struck, unless the delay was recalled by S00: then it is struck
    /// now and again on its tick.
    pub open spec fn entered(self, cell: Cell, samples: Seq<SampleBody>, mode: Mode) -> Channel {
        let armed = self.armed(cell);
        let struck = if delays_note(armed.command, armed.info) && cell.info != 0 {
            armed
        } else {
            armed.struck(cell.note, cell.instrument, cell.volume, samples, mode)
        };
        struck.affected_on_tick_zero(mode)
    }

    /// The channel after the effects of a later tick.
    pub open spec fn affected(self, tick: int, mode: Mode) -> Channel {
        let x = self.x();
        let y = self.y();
        let slide = slid(self.volume as int, x, y);
        if self.command == cmd::J_ARPEGGIO {
            self.arpeggiated(tick, mode)
        } else if self.command == cmd::K_VIB_VOL {
            if is_fine(x, y) {
                self
            } else {
                let h = self.effect_memory[cmd::H_VIBRATO as int] as int;
                self.vibrated(h / 16, h % 16, false).with_slide(slide, mode)
            }
        } else if self.command == cmd::L_PORT_VOL {
            if is_fine(x, y) {
                self
            } else {
                self.gliding(self.effect_memory[cmd::G_TONE_PORTA as int]).with_slide(slide, mode)
            }
        } else if self.command == cmd::Q_RETRIGGER {
            self.retriggered(mode)
        } else if self.command == cmd::R_TREMOLO {
            self.tremoloed(mode)
        } else if self.command == cmd::D_VOL_SLIDE {
            self.with_slide(slide, mode)
        } else if self.command == cmd::E_SLIDE_DOWN && 0 < self.info < 0xE0 {
            Channel { pitch_op: PitchOp::Slide { units: (-4 * self.info) as i32 }, ..self }
        } else if self.command == cmd::F_SLIDE_UP && 0 < self.info < 0xE0 {
            Channel { pitch_op: PitchOp::Slide { units: (4 * self.info) as i32 }, ..self }
        } else if self.command == cmd::G_TONE_PORTA {
            self.gliding(self.info)
        } else if self.command == cmd::H_VIBRATO {
            self.vibrated(x, y, false)
        } else if self.command == cmd::I_TREMOR && self.info != 0 {
            self.tremored(x, y, mode)
        } else if self.command == cmd::U_FINE_VIBRATO {
            self.vibrated(x, y, true)
        } else {
            self
        }
    }

    /// The channel after a held-back note, on the tick it was held back to.
    pub open spec fn fired(self, tick: int, samples: Seq<SampleBody>, mode: Mode) -> Channel {
        match self.pending_delay {
            Some(p) => if p.fire_tick == tick {
                Channel { pending_delay: None, ..self }.struck(
                    p.note,
                    p.instrument,
                    p.volume,
                    samples,
                    mode,
                )
            } else {
                self
            },
            None => self,
        }
    }

    /// The channel after SCx, which freezes it on tick `x`.
    pub open spec fn cut(self, tick: int) -> Channel {
        Channel {
            frozen: self.frozen || self.command == cmd::S_EXTENDED && self.x() == 0xC && self.y()
                == tick,
            ..self
        }
    }

    /// The channel after a tick other than the first of its row.
    pub open spec fn ticked(self, tick: int, samples: Seq<SampleBody>, mode: Mode) -> Channel {
        self.rested().fired(tick, samples, mode).cut(tick).affected(tick, mode)
    }

    fn apply_slide(&mut self, v: Option<u8>, mode: Mode)
        ensures
            *final(self) == old(self).with_slide(
                match v {
                    Some(v) => Some(v as int),
                    None => None,
                },
                mode,
            ),
    {
        match v {
            Some(v) => {
                self.set_active_volume(v, mode);
            },
            None => {},
        }
    }

    /// Dxy on a tick other than the first.
    pub fn apply_dxy(&mut self, x: u8, y: u8, mode: Mode)
        ensures
            *final(self) == old(self).with_slide(
                slid(old(self).volume as int, x as int, y as int),
                mode,
            ),
    {
        let v = slide_volume(self.volume, x, y);
        self.apply_slide(v, mode);
    }

    /// What fast slides add to Dxy on tick 0.
    pub fn apply_dxy_tick0_fast_slide(&mut self, x: u8, y: u8, mode: Mode)
        ensures
            *final(self) == old(self).with_slide(
                slid_fast(old(self).volume as int, x as int, y as int),
                mode,
            ),
    {
        let v = fast_slide_volume(self.volume, x, y);
        self.apply_slide(v, mode);
    }

    /// Dxy on tick 0.
    pub fn apply_dxy_on_tick_zero(&mut self, x: u8, y: u8, mode: Mode)
        ensures
            *final(self) == old(self).with_slide(
                slid_on_tick_zero(old(self).volume as int, x as int, y as int, mode.fast_slides),
                mode,
            ),
    {
        if x == 0xF || y == 0xF {
            let v = slide_volume_on_tick_zero(self.volume, x, y);
            self.apply_slide(v, mode);
        } else if mode.fast_slides {
            self.apply_dxy_tick0_fast_slide(x, y, mode);
        }
    }

    /// Qxy, which runs on every tick.
    pub fn apply_retrigger(&mut self, mode: Mode)
        ensures
            *final(self) == old(self).retriggered(mode),
    {
        let x: u8 = self.info / 16;
        let y: u8 = self.info % 16;
        if y == 0 {
            return;
        }
        let count: u8 = self.retrig_counter.saturating_add(1);
        if count >= y {
            let v: u8 = retrigger_volume(self.volume, x);
            self.retrig_counter = 0;
            self.pitch_op = PitchOp::Restart;
            self.set_active_volume(v, mode);
        } else {
            self.retrig_counter = count;
        }
    }

    /// Ixy, which runs on every tick.
    pub fn apply_tremor_step(&mut self, x: u8, y: u8, mode: Mode)
        ensures
            *final(self) == old(self).tremored(x as int, y as int, mode),
    {
        if self.tremor_on_counter > 0 {
            self.tremor_on_counter = self.tremor_on_counter - 1;
            if self.tremor_on_counter == 0 {
                self.set_active_volume(0, mode);
                self.tremor_off_counter = y.saturating_add(1);
            }
        } else {
            self.tremor_off_counter = self.tremor_off_counter.saturating_sub(1);
            if self.tremor_off_counter == 0 {
                let v: u8 = clamp_pcm_volume(self.stored_volume as u16);
                self.set_active_volume(v, mode);
                self.tremor_on_counter = x.saturating_add(1);
            }
        }
    }

    /// Remembered vibrato speed and depth, which Kxy continues with.
    pub fn vibrato_memory(&self) -> (r: (u8, u8))
        ensures
            r.0 == self.effect_memory[cmd::H_VIBRATO as int] / 16,
            r.1 == self.effect_memory[cmd::H_VIBRATO as int] % 16,
    {
        let info: u8 = self.effect_memory[cmd::H_VIBRATO as usize];
        (info / 16, info % 16)
    }

    /// Hxy, Uxy and the vibrato of Kxy. `fine` divides the depth by four.
    pub fn apply_vibrato(&mut self, speed: u8, depth: u8, fine: bool)
        requires
            speed < 64,
        ensures
            *final(self) == old(self).vibrated(speed as int, depth as int, fine),
    {
        if speed == 0 && depth == 0 {
            return;
        }
        if !self.targeted {
            return;
        }
        let pos: u8 = ((self.vibrato_pos as u16 + 4 * speed as u16) % 64) as u8;
        let mut rng: u32 = self.random_state;
        let s: i32 = waveform_sample(self.vibrato_waveform, pos, &mut rng);
        assert(-16320 <= s * depth <= 16320) by (nonlinear_arith)
            requires
                -64 <= s <= 64,
                0 <= depth <= 255,
        ;
        let delta: i32 = s * depth as i32 / if fine {
            512
        } else {
            128
        };
        *self = Channel {
            vibrato_pos: pos,
            random_state: rng,
            pitched: true,
            pitch_op: PitchOp::Vibrato { delta },
            ..*self
        };
    }

    /// Rxy.
    pub fn apply_tremolo(&mut self, mode: Mode)
        ensures
            *final(self) == old(self).tremoloed(mode),
    {
        if self.info == 0 || self.stored_volume == 0 {
            return;
        }
        let x: u8 = self.info / 16;
        let y: u8 = self.info % 16;
        let pos: u8 = ((self.tremolo_pos as u16 + 4 * x as u16) % 256) as u8;
        let mut rng: u32 = self.random_state;
        let s: i32 = waveform_sample(self.tremolo_waveform, pos / 4, &mut rng);
        let depth: i32 = 4 * y as i32;
        assert(-3840 <= depth * s <= 3840) by (nonlinear_arith)
            requires
                -64 <= s <= 64,
                0 <= depth <= 60,
        ;
        let sum: i32 = self.stored_volume as i32 + depth * s / 128;
        let v: u8 = if sum < 0 {
            0
        } else {
            clamp_pcm_volume(sum as u16)
        };
        self.set_active_volume(v, mode);
        self.tremolo_pos = pos;
        self.random_state = rng;
    }

    /// Gxx and the portamento of Lxy.
    pub fn apply_tone_porta(&mut self, step: u8)
        ensures
            *final(self) == old(self).gliding(step),
    {
        if step != 0 && self.targeted {
            self.pitch_op = PitchOp::TonePorta { step };
        }
    }

    /// Jxy.
    pub fn apply_arpeggio(&mut self, tick: u8, mode: Mode)
        ensures
            *final(self) == old(self).arpeggiated(tick as int, mode),
    {
        if self.info == 0 || self.last_note == 0 {
            return;
        }
        let semitones: u8 = match tick % 3 {
            0 => 0,
            1 => self.info / 16,
            _ => self.info % 16,
        };
        let n: u32 = 12 * (self.last_note / 16) as u32 + (self.last_note % 16) as u32
            + semitones as u32;
        let period: u32 = note_index_to_period(n, self.c5_speed, mode.amiga_limits);
        self.pitched = true;
        self.pitch_op = PitchOp::Arpeggio { period };
    }

    /// S2x.
    pub fn apply_finetune(&mut self, c5: u32, mode: Mode)
        ensures
            *final(self) == old(self).finetuned(c5, mode),
    {
        if self.last_note != 0 {
            let period: u32 = note_to_period(self.last_note, c5, mode.amiga_limits);
            *self = Channel {
                c5_speed: c5,
                pitched: true,
                targeted: true,
                pitch_op: PitchOp::Retune { period },
                ..*self
            };
        }
    }

    fn set_vibrato_waveform(&mut self, p: u8)
        ensures
            *final(self) == old(self).with_vibrato_waveform(p as int),
    {
        self.vibrato_waveform = Waveform::from_nibble(p);
        self.keep_vibrato_pos_on_new_note = (p / 4) % 2 == 1;
    }

    fn set_tremolo_waveform(&mut self, p: u8)
        ensures
            *final(self) == old(self).with_tremolo_waveform(p as int),
    {
        self.tremolo_waveform = Waveform::from_nibble(p);
        self.keep_tremolo_pos_on_new_note = (p / 4) % 2 == 1;
    }

    fn set_stereo_control(&mut self, p: u8)
        ensures
            *final(self) == old(self).with_stereo_control(p as int),
    {
        if p == 0 || p == 2 {
            self.pan = self.bank.pan();
        } else if p == 1 || p == 3 {
            self.pan = self.bank.swapped().pan();
        } else if p < 8 {
            self.pan = CENTRE_PAN;
        }
    }

    /// Sxy on tick 0.
    #[verifier::spinoff_prover]
    pub fn apply_extended(&mut self, mode: Mode)
        ensures
            *final(self) == old(self).extended(mode),
    {
        let p: u8 = self.info % 16;
        match self.info / 16 {
            0x1 => {
                self.glissando = p != 0;
            },
            0x2 => {
                self.apply_finetune(S2X_FINETUNE_TABLE[p as usize], mode);
            },
            0x3 => {
                self.set_vibrato_waveform(p);
            },
            0x4 => {
                self.set_tremolo_waveform(p);
            },
            0x8 => {
                self.pan = p;
            },
            0xA => {
                self.set_stereo_control(p);
            },
            _ => {},
        }
    }

    /// The effects of tick 0 that concern the channel.
    fn affect_on_tick_zero(&mut self, mode: Mode)
        ensures
            *final(self) == old(self).affected_on_tick_zero(mode),
    {
        let x: u8 = self.info / 16;
        let y: u8 = self.info % 16;
        let fine: i32 = if x == 0xF {
            4 * y as i32
        } else {
            y as i32
        };
        if self.command == cmd::D_VOL_SLIDE {
            self.apply_dxy_on_tick_zero(x, y, mode);
        } else if self.command == cmd::E_SLIDE_DOWN && self.info >= 0xE0 {
            self.pitch_op = PitchOp::Slide { units: -fine };
        } else if self.command == cmd::F_SLIDE_UP && self.info >= 0xE0 {
            self.pitch_op = PitchOp::Slide { units: fine };
        } else if self.command == cmd::Q_RETRIGGER {
            self.apply_retrigger(mode);
        } else if self.command == cmd::I_TREMOR && self.info != 0 {
            self.apply_tremor_step(x, y, mode);
        } else if self.command == cmd::S_EXTENDED {
            self.apply_extended(mode);
        } else if self.command == cmd::X_SET_PAN {
            let wide: u16 = self.info as u16 * 15 / 128;
            self.pan = if wide < 15 {
                wide as u8
            } else {
                15
            };
        }
    }

    /// Tick 0 of a row with this cell.
    pub fn enter(&mut self, cell: Cell, samples: &Vec<SampleBody>, mode: Mode)
        ensures
            *final(self) == old(self).entered(cell, samples@, mode),
    {
        self.arm(cell);
        let delayed = self.command == cmd::S_EXTENDED && self.info / 16 == 0xD && self.info % 16
            != 0;
        if !delayed || cell.info == 0 {
            self.strike(cell.note, cell.instrument, cell.volume, samples, mode);
        }
        self.affect_on_tick_zero(mode);
    }

    /// The effects of a tick other than the first.
    #[verifier::spinoff_prover]
    fn affect(&mut self, tick: u8, mode: Mode)
        ensures
            *final(self) == old(self).affected(tick as int, mode),
    {
        let x: u8 = self.info / 16;
        let y: u8 = self.info % 16;
        if self.command == cmd::J_ARPEGGIO {
            self.apply_arpeggio(tick, mode);
        } else if self.command == cmd::K_VIB_VOL {
            if !is_fine_volslide(x, y) {
                let (speed, depth) = self.vibrato_memory();
                self.apply_vibrato(speed, depth, false);
                self.apply_dxy(x, y, mode);
            }
        } else if self.command == cmd::L_PORT_VOL {
            if !is_fine_volslide(x, y) {
                let step: u8 = self.effect_memory[cmd::G_TONE_PORTA as usize];
                self.apply_tone_porta(step);
                self.apply_dxy(x, y, mode);
            }
        } else if self.command == cmd::Q_RETRIGGER {
            self.apply_retrigger(mode);
        } else if self.command == cmd::R_TREMOLO {
            self.apply_tremolo(mode);
        } else if self.command == cmd::D_VOL_SLIDE {
            self.apply_dxy(x, y, mode);
        } else if self.command == cmd::E_SLIDE_DOWN && self.info != 0 && self.info < 0xE0 {
            self.pitch_op = PitchOp::Slide { units: -4 * self.info as i32 };
        } else if self.command == cmd::F_SLIDE_UP && self.info != 0 && self.info < 0xE0 {
            self.pitch_op = PitchOp::Slide { units: 4 * self.info as i32 };
        } else if self.command == cmd::G_TONE_PORTA {
            let step: u8 = self.info;
            self.apply_tone_porta(step);
        } else if self.command == cmd::H_VIBRATO {
            self.apply_vibrato(x, y, false);
        } else if self.command == cmd::I_TREMOR && self.info != 0 {
            self.apply_tremor_step(x, y, mode);
        } else if self.command == cmd::U_FINE_VIBRATO {
            self.apply_vibrato(x, y, true);
        }
    }

    /// Strike a held-back note on its tick.
    fn fire(&mut self, tick: u8, samples: &Vec<SampleBody>, mode: Mode)
        ensures
            *final(self) == old(self).fired(tick as int, samples@, mode),
    {
        match self.pending_delay {
            Some(p) => {
                if p.fire_tick == tick {
                    self.pending_delay = None;
                    self.strike(p.note, p.instrument, p.volume, samples, mode);
                }
            },
            None => {},
        }
    }

    /// A tick other than the first of its row.
    #[verifier::spinoff_prover]
    pub fn tick(&mut self, tick: u8, samples: &Vec<SampleBody>, mode: Mode)
        ensures
            *final(self) == old(self).ticked(tick as int, samples@, mode),
    {
        self.rest();
        self.fire(tick, samples, mode);
        if self.command == cmd::S_EXTENDED && self.info / 16 == 0xC && self.info % 16 == tick {
            self.frozen = true;
        }
        self.affect(tick, mode);
    }
}

} // verus!
