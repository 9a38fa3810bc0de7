//! Frames: how a song runs from tick to tick as they are played.

use vstd::prelude::*;

use crate::header::PATTERN_ROWS;
use crate::pattern::Cell;
use crate::player::sequencer::{Playback, PlayerState};

verus! {

impl PlayerState {
    /// Whether playback can go on from this state. It always can in a player
    /// of whole patterns whose fields only playback has changed.
    pub fn can_play(&self) -> (r: bool)
        ensures
            r == self.wf(),
    {
        let mut i: usize = 0;
        while i < self.patterns.len()
            invariant
                i <= self.patterns@.len(),
                forall|j: int| 0 <= j < i ==> (#[trigger] self@.patterns[j]).len() == 64,
            decreases self.patterns@.len() - i,
        {
            assert(self@.patterns[i as int].len() == self.patterns@[i as int].rows@.len());
            if self.patterns[i].rows.len() != PATTERN_ROWS {
                return false;
            }
            i = i + 1;
        }
        let jump_row: u8 = match self.pending_jump {
            Some(jump) => jump.row,
            None => 0,
        };
        self.speed >= 1 && self.tick < self.speed && self.tick_sample_cursor < self.tick_len()
            && self.row < 64 && self.loop_start_row < 64 && jump_row < 64
    }

    /// How many frames, up to `wanted`, the voices may play before the next
    /// tick. At the start of a tick its effects are applied first, which
    /// leaves new orders in the channels. 0 means that the song is over, or
    /// that none are wanted.
    pub fn begin_frames(&mut self, wanted: usize) -> (r: usize)
        requires
            old(self).wf(),
        ensures
            final(self)@ == if wanted == 0 {
                old(self)@
            } else {
                old(self)@.frame_begun()
            },
            final(self).wf(),
            final(self).ended ==> r == 0,
            wanted > 0 && !final(self).ended ==> r > 0,
            !final(self).ended ==> {
                let rest = final(self)@.tick_length() - final(self)@.tick_sample_cursor;
                r == if wanted < rest {
                    wanted as int
                } else {
                    rest
                }
            },
    {
        if wanted == 0 {
            return 0;
        }
        proof {
            law_begun_frame_keeps_wf(self@);
        }
        if self.ended {
            return 0;
        }
        if self.tick_sample_cursor == 0 {
            self.advance_tick();
            if self.ended {
                return 0;
            }
        }
        let rest: u32 = self.tick_len() - self.tick_sample_cursor;
        if (wanted as u64) < rest as u64 {
            wanted
        } else {
            rest as usize
        }
    }

    /// `n` frames of the tick have been played. After the last one the
    /// player stands on the next tick, and after the last tick on the next
    /// row.
    pub fn finish_frames(&mut self, n: usize)
        requires
            old(self).wf(),
            old(self)@.tick_sample_cursor + n <= old(self)@.tick_length(),
        ensures
            final(self)@ == old(self)@.frames_finished(n as int),
            final(self).wf(),
    {
        proof {
            law_finished_frames_keep_wf(self@, n as int);
        }
        let ghost start = self@;
        let len: u32 = self.tick_len();
        self.tick_sample_cursor = self.tick_sample_cursor + n as u32;
        if self.tick_sample_cursor >= len {
            self.tick_sample_cursor = 0;
            if self.tick + 1 < self.speed {
                self.tick = self.tick + 1;
            } else {
                self.tick = 0;
                assert(self@ == (Playback { tick_sample_cursor: 0, tick: 0, ..start }));
                self.next_row();
            }
        }
        assert(self@ == start.frames_finished(n as int));
    }

    /// Let `frames` frames of the song pass unheard; how many there were.
    #[verifier::spinoff_prover]
    pub fn advance(&mut self, frames: usize) -> (r: usize)
        requires
            old(self).wf(),
        ensures
            final(self)@ == old(self)@.played(frames as nat),
            r == old(self)@.frames_left(frames as nat),
            r <= frames,
            r < frames ==> final(self).ended,
            final(self).wf(),
    {
        let ghost start = self@;
        proof {
            law_short_stretch_ends_song(start, frames as nat, 0);
        }
        let mut passed: usize = 0;
        while passed < frames
            invariant_except_break
                self.wf(),
                passed <= frames,
                start.played(frames as nat) == self@.played((frames - passed) as nat),
                start.frames_left(frames as nat) == passed + self@.frames_left(
                    (frames - passed) as nat,
                ),
            ensures
                self.wf(),
                self@ == start.played(frames as nat),
                passed == start.frames_left(frames as nat),
            decreases frames - passed,
        {
            let ghost before = self@;
            let n: usize = self.begin_frames(frames - passed);
            if n == 0 {
                proof {
                    assert(!before.has_frame());
                    lemma_ended_song_stays(before, (frames - passed) as nat);
                }
                break;
            }
            proof {
                lemma_frames_of_a_tick(before, n as nat);
                law_playing_in_chunks(before, n as nat, (frames - passed - n) as nat);
            }
            self.finish_frames(n);
            passed = passed + n;
        }
        passed
    }
}

/// At the end of the song nothing changes any more, once the end has been
/// noticed.
proof fn lemma_ended_song_stays(s: Playback, n: nat)
    requires
        !s.has_frame(),
        n > 0,
    ensures
        s.played(n) == s.frame_begun(),
        s.frames_left(n) == 0,
    decreases n,
{
    let t = s.frame_played();
    assert(t == s.frame_begun());
    reveal_with_fuel(Playback::played, 2);
    if n > 1 {
        lemma_ended_song_stays(t, (n - 1) as nat);
        assert(t.frame_begun() == t);
    }
}

/// The frames of a tick, played one by one, add up.
proof fn lemma_frames_of_a_tick(s: Playback, n: nat)
    requires
        s.has_frame(),
        1 <= n <= s.frame_begun().tick_length() - s.frame_begun().tick_sample_cursor,
    ensures
        s.played(n) == s.frame_begun().frames_finished(n as int),
        s.frames_left(n) == n,
    decreases n,
{
    let b = s.frame_begun();
    let t = s.frame_played();
    reveal_with_fuel(Playback::played, 2);
    reveal_with_fuel(Playback::frames_left, 2);
    if n > 1 {
        assert(t == (Playback { tick_sample_cursor: (b.tick_sample_cursor + 1) as u32, ..b }));
        assert(t.frame_begun() == t);
        lemma_frames_of_a_tick(t, (n - 1) as nat);
        assert(t.frames_finished(n - 1) == b.frames_finished(n as int));
    }
}

/// A stretch that comes out shorter than asked for has met the end of the
/// song, and past the end nothing comes any more and nothing changes.
pub proof fn law_short_stretch_ends_song(s: Playback, n: nat, later: nat)
    ensures
        s.frames_left(n) <= n,
        s.frames_left(n) < n ==> s.played(n).ended,
        s.frames_left(n) < n ==> s.played(n).frames_left(later) == 0,
        s.frames_left(n) < n ==> s.played(n).played(later) == s.played(n),
        s.ended ==> s.played(n) == s && s.frames_left(n) == 0,
    decreases n,
{
    if n > 0 {
        if s.has_frame() {
            law_short_stretch_ends_song(s.frame_played(), (n - 1) as nat, later);
        } else {
            lemma_ended_song_stays(s, n);
            let t = s.frame_begun();
            assert(t.ended && t.frame_begun() == t);
            if later > 0 {
                lemma_ended_song_stays(t, later);
            }
        }
    }
}

/// A song played in two stretches ends up where it does in one, and has as
/// many frames: how a caller cuts it into chunks does not matter.
pub proof fn law_playing_in_chunks(s: Playback, a: nat, b: nat)
    ensures
        s.played(a + b) == s.played(a).played(b),
        s.frames_left(a + b) == s.frames_left(a) + if s.frames_left(a) == a {
            s.played(a).frames_left(b)
        } else {
            0
        },
    decreases a,
{
    if a > 0 {
        law_playing_in_chunks(s.frame_played(), (a - 1) as nat, b);
        assert((a + b - 1) as nat == (a - 1) as nat + b);
        if !s.has_frame() {
            lemma_ended_song_stays(s, a);
            lemma_ended_song_stays(s, a + b);
        }
    }
}

pub(crate) proof fn lemma_requests_are_sound(s: Playback, cells: Seq<Cell>, n: int)
    ensures
        s.requests(cells, n).speed != Some(0u8),
        s.requests(cells, n).row matches Some(row) ==> row < 64,
        s.requests(cells, n).tempo matches Some(tempo) ==> tempo >= 32,
        s.requests(cells, n).global_volume matches Some(v) ==> v <= 64,
    decreases n,
{
    if n > 0 {
        lemma_requests_are_sound(s, cells, n - 1);
    }
}

/// However hostile the song, a tick leaves the player in a state that
/// playback can go on from.
pub proof fn law_begun_frame_keeps_wf(s: Playback)
    requires
        s.wf(),
    ensures
        s.frame_begun().wf(),
{
    if !s.ended && s.tick_sample_cursor == 0 && s.tick == 0 {
        let cells = s.row_cells();
        lemma_requests_are_sound(s, cells, s.cells_used(cells));
        assert(s.row_entered().tick_length() >= 1);
    }
}

/// However hostile the song, playing on leaves the player in a state that
/// playback can go on from.
pub proof fn law_finished_frames_keep_wf(s: Playback, n: int)
    requires
        s.wf(),
        0 <= n,
        s.tick_sample_cursor + n <= s.tick_length(),
    ensures
        s.frames_finished(n).wf(),
{
}

/// A well-formed player stays well-formed for as long as it plays.
pub proof fn law_playing_keeps_wf(s: Playback, n: nat)
    requires
        s.wf(),
    ensures
        s.played(n).wf(),
    decreases n,
{
    if n > 0 {
        law_begun_frame_keeps_wf(s);
        if s.has_frame() {
            law_finished_frames_keep_wf(s.frame_begun(), 1);
        }
        law_playing_keeps_wf(s.frame_played(), (n - 1) as nat);
    }
}

/// A tick plays as many frames as it lasts and is then followed by the next
/// tick of the row, or by the first one of another row.
pub proof fn law_tick_plays_its_frames(s: Playback)
    requires
        s.wf(),
        s.has_frame(),
        s.tick_sample_cursor == 0,
    ensures
        ({
            let begun = s.frame_begun();
            let n = begun.tick_length() as nat;
            &&& s.frames_left(n) == n
            &&& s.played(n).tick_sample_cursor == 0
            &&& begun.tick + 1 < begun.speed ==> s.played(n).tick == begun.tick + 1 && s.played(n).row
                == begun.row && s.played(n).channels == begun.channels
            &&& begun.tick + 1 == begun.speed ==> s.played(n).tick == 0 && s.played(n).row == (
            Playback { tick: 0, ..begun }).row_advanced().row
        }),
{
    law_begun_frame_keeps_wf(s);
    let begun = s.frame_begun();
    assert(begun.tick_sample_cursor == 0);
    lemma_frames_of_a_tick(s, begun.tick_length() as nat);
}

/// A song is played frame by frame, each counted once, until a tick finds
/// that it is over.
pub proof fn law_frames_count_up(s: Playback, n: nat)
    ensures
        s.has_frame() ==> s.frames_left(n + 1) == 1 + s.frame_played().frames_left(n),
        !s.has_frame() ==> s.frames_left(n + 1) == 0,
        s.played(n + 1) == s.frame_played().played(n),
        s.played(0) == s && s.frames_left(0) == 0,
        s.has_frame() <==> !s.ended && !s.frame_begun().ended,
{
}

} // verus!
