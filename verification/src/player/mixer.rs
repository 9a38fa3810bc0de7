//! What a voice reads from its sample, and whether it is heard.

use vstd::prelude::*;

use crate::player::channel::Channel;
use crate::samples::SampleBody;

verus! {

/// Whether a voice is heard.
#[derive(Clone, Copy, Debug, PartialEq, Eq, Structural)]
pub enum Gate {
    /// It is silent and stands still.
    Silent,
    /// It is silent, but its cursor moves on until the end of the sample.
    Unheard,
    /// It plays.
    Heard,
}

/// Where a voice reads: two neighbouring frames that it interpolates
/// between.
#[derive(Clone, Copy, Debug, PartialEq, Eq, Structural)]
pub struct Tap {
    /// The whole part of the cursor, wrapped into the loop.
    pub frame: u64,
    /// Index of the frame at the cursor.
    pub here: usize,
    /// Index of the frame after it.
    pub next: usize,
}

/// What a voice reads for one output frame.
#[derive(Clone, Copy, Debug, PartialEq, Eq, Structural)]
pub struct Reading {
    /// Where it reads, and where its cursor moves on from.
    pub tap: Tap,
    /// Whether what it reads is put out.
    pub heard: bool,
}

impl Channel {
    /// Whether the voice of this channel is heard: it needs to be active,
    /// with a pitch and a sample that has data, and not frozen. A muted one
    /// goes on unheard.
    pub open spec fn gating(self, samples: Seq<SampleBody>) -> Gate {
        if !self.active || !self.pitched || self.frozen || !self.has_sample(samples)
            || self.sample(samples).pcm@.len() == 0 {
            Gate::Silent
        } else if self.muted {
            Gate::Unheard
        } else {
            Gate::Heard
        }
    }

    /// Whether the voice of this channel is heard.
    pub fn gate(&self, samples: &Vec<SampleBody>) -> (r: Gate)
        ensures
            r == self.gating(samples@),
    {
        if !self.active || !self.pitched || self.frozen {
            return Gate::Silent;
        }
        let idx: usize = self.instrument as usize;
        if idx == 0 || idx > samples.len() || samples[idx - 1].pcm.len() == 0 {
            Gate::Silent
        } else if self.muted {
            Gate::Unheard
        } else {
            Gate::Heard
        }
    }

    /// The frame that the voice reads with its cursor at `frame`; `None`
    /// where it stands still or its sample has ended.
    pub open spec fn frame_read(self, samples: Seq<SampleBody>, frame: int) -> Option<int> {
        if self.gating(samples) == Gate::Silent {
            None
        } else {
            self.sample(samples).frame_at(frame)
        }
    }

    /// The channel after its voice has read with its cursor at `frame`: past
    /// the end of the sample it is no longer active.
    pub open spec fn after_read(self, samples: Seq<SampleBody>, frame: int) -> Channel {
        if self.gating(samples) != Gate::Silent && self.sample(samples).frame_at(frame) is None {
            Channel { active: false, ..self }
        } else {
            self
        }
    }

    /// Read with the cursor at `frame`, for one output frame.
    pub fn read(&mut self, samples: &Vec<SampleBody>, frame: u64) -> (r: Option<Reading>)
        ensures
            *final(self) == old(self).after_read(samples@, frame as int),
            r is Some <==> old(self).frame_read(samples@, frame as int) is Some,
            r matches Some(reading) ==> {
                let body = old(self).sample(samples@);
                &&& reading.heard == !old(self).muted
                &&& Some(reading.tap.frame as int) == old(self).frame_read(samples@, frame as int)
                &&& reading.tap.here == body.within(reading.tap.frame as int)
                &&& reading.tap.next == body.within(body.frame_after(reading.tap.frame as int))
                &&& reading.tap.here < body.pcm@.len()
                &&& reading.tap.next < body.pcm@.len()
            },
    {
        let heard = match self.gate(samples) {
            Gate::Silent => {
                return None;
            },
            Gate::Unheard => false,
            Gate::Heard => true,
        };
        match samples[self.instrument as usize - 1].locate(frame) {
            Some(tap) => Some(Reading { tap, heard }),
            None => {
                self.active = false;
                None
            },
        }
    }
}

impl SampleBody {
    /// The frame that a cursor at `frame` reads, if there is one. A looped
    /// sample goes back to its loop start at its loop end, any other ends.
    pub open spec fn frame_at(self, frame: int) -> Option<int> {
        if self.loops() {
            if frame < self.loop_end {
                Some(frame)
            } else {
                Some(
                    self.loop_start + (frame - self.loop_start) % (self.loop_end
                        - self.loop_start),
                )
            }
        } else if frame < self.pcm@.len() {
            Some(frame)
        } else {
            None
        }
    }

    /// The frame after `frame`: past the loop end comes the loop start, past
    /// the end of the data nothing new.
    pub open spec fn frame_after(self, frame: int) -> int {
        if self.loops() {
            if frame + 1 < self.loop_end {
                frame + 1
            } else {
                self.loop_start as int
            }
        } else if frame + 1 < self.pcm@.len() {
            frame + 1
        } else {
            frame
        }
    }

    /// `frame`, or the last one where the data is too short to have it.
    pub open spec fn within(self, frame: int) -> int {
        if frame < self.pcm@.len() {
            frame
        } else {
            self.pcm@.len() - 1
        }
    }

    /// Where a voice with its cursor at `frame` reads; `None` when the
    /// sample has ended.
    pub fn locate(&self, frame: u64) -> (r: Option<Tap>)
        requires
            self.pcm@.len() > 0,
        ensures
            r is None <==> self.frame_at(frame as int) is None,
            r matches Some(tap) ==> {
                &&& Some(tap.frame as int) == self.frame_at(frame as int)
                &&& tap.here == self.within(tap.frame as int)
                &&& tap.next == self.within(self.frame_after(tap.frame as int))
                &&& tap.here < self.pcm@.len()
                &&& tap.next < self.pcm@.len()
            },
    {
        let n: usize = self.pcm.len();
        let looped = self.is_looped();
        let end: u64 = if looped {
            self.loop_end as u64
        } else {
            n as u64
        };
        let start: u64 = self.loop_start as u64;
        let mut at: u64 = frame;
        if frame >= end {
            if !looped {
                return None;
            }
            let span: u64 = end - start;
            proof {
                let over = frame - start;
                let width = span as int;
                assert(0 <= over % width < width) by (nonlinear_arith)
                    requires
                        width > 0,
                ;
            }
            at = start + (frame - start) % span;
        }
        assert(at < end);
        let after: u64 = if at + 1 < end {
            at + 1
        } else if looped {
            start
        } else {
            at
        };
        let here: usize = if at < n as u64 {
            at as usize
        } else {
            n - 1
        };
        let next: usize = if after < n as u64 {
            after as usize
        } else {
            n - 1
        };
        Some(Tap { frame: at, here, next })
    }
}

/// A looped voice never leaves what comes before the loop end, and from the
/// loop end on it stays in the loop.
pub proof fn law_looped_voice_stays_before_loop_end(body: SampleBody, frame: int)
    requires
        body.loops(),
        0 <= frame,
    ensures
        body.frame_at(frame) matches Some(f) && 0 <= f < body.loop_end && (frame >= body.loop_end
            ==> f >= body.loop_start) && 0 <= body.frame_after(f) < body.loop_end,
{
    let span = body.loop_end - body.loop_start;
    assert(0 <= (frame - body.loop_start) % span < span) by (nonlinear_arith)
        requires
            span > 0,
    ;
}

/// A loop repeats: a cursor one loop length further on reads the same.
pub proof fn law_loop_repeats(body: SampleBody, frame: int)
    requires
        body.loops(),
        body.loop_start <= frame,
    ensures
        body.frame_at(frame + (body.loop_end - body.loop_start)) == body.frame_at(frame),
{
    let span = body.loop_end - body.loop_start;
    let over = frame - body.loop_start;
    vstd::arithmetic::div_mod::lemma_mod_add_multiples_vanish(over, span);
    if frame < body.loop_end {
        vstd::arithmetic::div_mod::lemma_small_mod(over as nat, span as nat);
    }
}

/// A one-shot voice plays to the end of its data, and then ends.
pub proof fn law_one_shot_ends_with_data(body: SampleBody, frame: int)
    requires
        !body.loops(),
        0 <= frame,
    ensures
        body.frame_at(frame) is Some <==> frame < body.pcm@.len(),
        body.frame_at(frame) matches Some(f) ==> f == frame,
{
}

/// A frozen channel is silent and stands still, muted or not: its voice
/// reads nothing and no field of it changes.
pub proof fn law_frozen_channel_stands_still(c: Channel, samples: Seq<SampleBody>, frame: int)
    requires
        c.frozen,
    ensures
        c.gating(samples) == Gate::Silent,
        c.frame_read(samples, frame) is None,
        c.after_read(samples, frame) == c,
{
}

/// A muted voice keeps step with the same voice unmuted: its cursor moves on
/// from the same frame and its sample ends at the same time, but it is not
/// heard. As long as the sample goes on, no field of the channel changes.
pub proof fn law_muted_voice_keeps_step(c: Channel, samples: Seq<SampleBody>, frame: int)
    requires
        c.muted,
    ensures
        c.gating(samples) != Gate::Heard,
        c.frame_read(samples, frame) == (Channel { muted: false, ..c }).frame_read(samples, frame),
        c.after_read(samples, frame) == (Channel {
            muted: true,
            ..(Channel { muted: false, ..c }).after_read(samples, frame)
        }),
        c.frame_read(samples, frame) is Some ==> c.after_read(samples, frame) == c,
{
}

/// A cursor before the loop end reads the frame that it is on, so what comes
/// before the loop is heard once; the frame after it is the next one, and at
/// the loop end the loop start.
pub proof fn law_cursor_reads_its_frame(body: SampleBody, frame: int)
    requires
        body.looped,
        body.loop_start < body.loop_end,
        0 <= frame < body.loop_end,
    ensures
        body.frame_at(frame) == Some(frame),
        frame + 1 < body.loop_end ==> body.frame_after(frame) == frame + 1,
        frame + 1 == body.loop_end ==> body.frame_after(frame) == body.loop_start,
{
}

/// A cursor past the loop end reads a frame of the loop that is whole loop
/// lengths behind it.
pub proof fn law_cursor_folds_by_whole_loops(body: SampleBody, frame: int)
    requires
        body.looped,
        body.loop_start < body.loop_end,
        body.loop_end <= frame,
    ensures
        body.frame_at(frame) matches Some(f) && body.loop_start <= f < body.loop_end && (frame - f)
            % (body.loop_end - body.loop_start) == 0,
{
    let span = body.loop_end - body.loop_start;
    let over = frame - body.loop_start;
    vstd::arithmetic::div_mod::lemma_fundamental_div_mod(over, span);
    vstd::arithmetic::div_mod::lemma_mod_multiples_basic(over / span, span);
    assert(over - over % span == (over / span) * span) by (nonlinear_arith)
        requires
            over == span * (over / span) + over % span,
    ;
    law_looped_voice_stays_before_loop_end(body, frame);
}

/// A sample that does not loop is read frame by frame to its last one, which
/// is its own successor.
pub proof fn law_one_shot_reads_on(body: SampleBody, frame: int)
    requires
        !body.looped || body.loop_end <= body.loop_start,
        0 <= frame < body.pcm@.len(),
    ensures
        body.frame_at(frame) == Some(frame),
        body.frame_at(body.pcm@.len() as int) is None,
        frame + 1 < body.pcm@.len() ==> body.frame_after(frame) == frame + 1,
        frame + 1 == body.pcm@.len() ==> body.frame_after(frame) == frame,
        body.within(frame) == frame,
        body.within(body.pcm@.len() + frame) == body.pcm@.len() - 1,
{
}

/// A voice sounds exactly if its channel is active, pitched, neither frozen
/// nor muted, and its instrument number, counted from 1, is that of a sample
/// with data.
pub proof fn law_voice_sounds(c: Channel, samples: Seq<SampleBody>)
    ensures
        c.gating(samples) == Gate::Heard <==> c.active && c.pitched && !c.frozen && !c.muted && 1
            <= c.instrument && c.instrument <= samples.len() && samples[c.instrument
            - 1].pcm@.len() > 0,
        c.gating(samples) == Gate::Unheard <==> c.muted && (Channel { muted: false, ..c }).gating(
            samples,
        ) == Gate::Heard,
{
}

/// A voice reads the sample of its own instrument: the frame under the
/// cursor as long as there is one, and then the channel is no longer active.
pub proof fn law_voice_reads_own_sample(c: Channel, samples: Seq<SampleBody>, frame: int)
    requires
        c.gating(samples) != Gate::Silent,
        0 <= frame,
    ensures
        c.frame_read(samples, frame) == samples[c.instrument - 1].frame_at(frame),
        frame < samples[c.instrument - 1].pcm@.len() && !samples[c.instrument - 1].looped
            ==> c.frame_read(samples, frame) == Some(frame) && c.after_read(samples, frame) == c,
        frame >= samples[c.instrument - 1].pcm@.len() && !samples[c.instrument - 1].looped
            ==> c.frame_read(samples, frame) is None && c.after_read(samples, frame) == (Channel {
            active: false,
            ..c
        }),
        samples[c.instrument - 1].looped && samples[c.instrument - 1].loop_start < samples[
        c.instrument - 1].loop_end ==> c.frame_read(samples, frame) is Some && c.after_read(
            samples,
            frame,
        ) == c,
{
}

} // verus!
