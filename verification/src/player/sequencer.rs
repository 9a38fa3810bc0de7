//! The order list, the rows and the ticks: which cells play when.
//!
//! A row lasts `speed` ticks and a tick `sample_rate * 2.5 / bpm` frames.
//! Tick 0 enters the row, the later ticks run its effects. The caller
//! renders: [`PlayerState::begin_frames`] says how many frames the voices
//! may play before the next tick, [`PlayerState::finish_frames`] takes note
//! that they have been played.

use vstd::prelude::*;

use crate::bytes::has_bit;
use crate::header::{Bank, CreatedWithTracker, S3mHeader, Tracker, CHANNEL_COUNT, PATTERN_ROWS};
use crate::pattern::{grids, Cell, Pattern};
use crate::player::channel::{Channel, Mode};
use crate::player::cmd;
use crate::samples::SampleBody;

verus! {

pub const DEFAULT_SPEED: u8 = 6;

pub const DEFAULT_BPM: u8 = 125;

/// Where playback goes after the current row.
#[derive(Clone, Copy, Debug, PartialEq, Eq, Structural)]
pub struct Jump {
    /// Order to go to; the next one where there is none.
    pub order: Option<u8>,
    /// Row to go to.
    pub row: u8,
    /// Whether this is the way back of a pattern loop, which does not leave
    /// the pattern.
    pub within_pattern: bool,
}

/// What the cells of a row ask of the whole player.
#[derive(Clone, Copy, Debug, PartialEq, Eq, Structural)]
pub struct RowRequests {
    /// Axx
    pub speed: Option<u8>,
    /// Txx
    pub tempo: Option<u8>,
    /// Bxx
    pub order: Option<u8>,
    /// Cxx
    pub row: Option<u8>,
    /// SBx
    pub pattern_loop: Option<u8>,
    /// SEx
    pub delay: Option<u8>,
    /// Vxx
    pub global_volume: Option<u8>,
}

/// The row that the parameter of Cxx names, in decimal digits.
pub open spec fn break_row(info: u8) -> int {
    10 * (info as int / 16) + info as int % 16
}

impl RowRequests {
    /// A row that asks for nothing.
    pub open spec fn nothing() -> RowRequests {
        RowRequests {
            speed: None,
            tempo: None,
            order: None,
            row: None,
            pattern_loop: None,
            delay: None,
            global_volume: None,
        }
    }

    /// These requests and, over them, what one more command asks for. A
    /// speed of 0, a tempo below 32, a row past the pattern and a global
    /// volume above 64 ask for nothing.
    pub open spec fn and(self, command: u8, info: u8) -> RowRequests {
        if command == cmd::A_SET_SPEED && info != 0 {
            RowRequests { speed: Some(info), ..self }
        } else if command == cmd::B_POS_JUMP {
            RowRequests { order: Some(info), ..self }
        } else if command == cmd::C_PAT_BREAK && break_row(info) < 64 {
            RowRequests { row: Some(break_row(info) as u8), ..self }
        } else if command == cmd::T_SET_TEMPO && info >= 0x20 {
            RowRequests { tempo: Some(info), ..self }
        } else if command == cmd::V_GLOBAL_VOL && info <= 0x40 {
            RowRequests { global_volume: Some(info), ..self }
        } else if command == cmd::S_EXTENDED && info / 16 == 0xB {
            RowRequests { pattern_loop: Some(info % 16), ..self }
        } else if command == cmd::S_EXTENDED && info / 16 == 0xE {
            RowRequests { delay: Some(info % 16), ..self }
        } else {
            self
        }
    }

    /// The jump that Bxx and Cxx add up to: the order of the one and the
    /// row of the other.
    pub open spec fn jump(self) -> Option<Jump> {
        if self.order is None && self.row is None {
            None
        } else {
            Some(
                Jump {
                    order: self.order,
                    row: match self.row {
                        Some(row) => row,
                        None => 0,
                    },
                    within_pattern: false,
                },
            )
        }
    }

    /// A row that asks for nothing.
    pub fn new() -> (r: Self)
        ensures
            r == RowRequests::nothing(),
    {
        RowRequests {
            speed: None,
            tempo: None,
            order: None,
            row: None,
            pattern_loop: None,
            delay: None,
            global_volume: None,
        }
    }

    /// Add what one more command asks for.
    pub fn add_command(&mut self, command: u8, info: u8)
        ensures
            *final(self) == old(self).and(command, info),
    {
        let row: u8 = 10 * (info / 16) + info % 16;
        if command == cmd::A_SET_SPEED && info != 0 {
            self.speed = Some(info);
        } else if command == cmd::B_POS_JUMP {
            self.order = Some(info);
        } else if command == cmd::C_PAT_BREAK && row < 64 {
            self.row = Some(row);
        } else if command == cmd::T_SET_TEMPO && info >= 0x20 {
            self.tempo = Some(info);
        } else if command == cmd::V_GLOBAL_VOL && info <= 0x40 {
            self.global_volume = Some(info);
        } else if command == cmd::S_EXTENDED && info / 16 == 0xB {
            self.pattern_loop = Some(info % 16);
        } else if command == cmd::S_EXTENDED && info / 16 == 0xE {
            self.delay = Some(info % 16);
        }
    }

    /// The jump that Bxx and Cxx add up to.
    pub fn to_jump(&self) -> (r: Option<Jump>)
        ensures
            r == self.jump(),
    {
        let row: u8 = match self.row {
            Some(row) => row,
            None => 0,
        };
        if self.order.is_none() && self.row.is_none() {
            None
        } else {
            Some(Jump { order: self.order, row, within_pattern: false })
        }
    }
}

/// What a player holds, as plain values.
#[verifier::ext_equal]
pub struct Playback {
    pub samples: Seq<SampleBody>,
    pub patterns: Seq<Seq<Seq<Cell>>>,
    pub order: Seq<u8>,
    pub channels: Seq<Channel>,
    pub initial_pan: Seq<u8>,
    pub speed: u8,
    pub bpm: u8,
    pub global_volume: u8,
    pub master_volume: u8,
    pub stereo: bool,
    pub active_channels: u8,
    pub fast_slides: bool,
    pub amiga_limits: bool,
    pub order_index: u8,
    pub row: u8,
    pub tick: u8,
    pub tick_sample_cursor: u32,
    pub sample_rate: u32,
    pub ended: bool,
    pub pending_jump: Option<Jump>,
    pub loop_start_row: u8,
    pub loop_count: Option<u8>,
    pub pattern_delay_remaining: u8,
    pub replaying_for_pattern_delay: bool,
    pub pending_global_vol: Option<u8>,
}

/// The order entry that plays when `i` is reached: markers (0xFE) are
/// passed over, up to the last entry that an index can name.
pub open spec fn past_markers(order: Seq<u8>, i: int) -> int
    decreases 255 - i,
{
    if i < 255 && i < order.len() && order[i] == 0xFE {
        past_markers(order, i + 1)
    } else {
        i
    }
}

/// The order after `i`; the last index that there is repeats.
pub open spec fn order_after(i: u8) -> u8 {
    if i < 255 {
        (i + 1) as u8
    } else {
        255
    }
}

impl Playback {
    /// The settings that effects consult.
    pub open spec fn mode(self) -> Mode {
        Mode {
            global_volume: self.global_volume,
            fast_slides: self.fast_slides,
            amiga_limits: self.amiga_limits,
        }
    }

    /// Frames per tick: `sample_rate * 2.5 / bpm` without its fraction.
    pub open spec fn tick_frames(self) -> int {
        let bpm = if self.bpm < 1 {
            1
        } else {
            self.bpm as int
        };
        let n = (5 * self.sample_rate) / (2 * bpm);
        if n > u32::MAX {
            u32::MAX as int
        } else {
            n
        }
    }

    /// Frames that a tick lasts, at least one.
    pub open spec fn tick_length(self) -> int {
        if self.tick_frames() < 1 {
            1
        } else {
            self.tick_frames()
        }
    }

    /// Whether the player is in a state that playback can go on from.
    pub open spec fn wf(self) -> bool {
        &&& self.speed >= 1
        &&& self.tick < self.speed
        &&& self.tick_sample_cursor < self.tick_length()
        &&& self.row < 64
        &&& self.loop_start_row < 64
        &&& self.pending_jump matches Some(jump) ==> jump.row < 64
        &&& forall|i: int| 0 <= i < self.patterns.len() ==> (#[trigger] self.patterns[i]).len()
            == 64
    }

    /// Where the order list stands once markers are passed over.
    pub open spec fn order_position(self) -> int {
        past_markers(self.order, self.order_index as int)
    }

    /// Whether the order list has a pattern to play.
    pub open spec fn has_pattern(self) -> bool {
        let at = self.order_position();
        at < self.order.len() && self.order[at] < 0xFE && self.order[at] < self.patterns.len()
    }

    /// Whether that pattern has the row that the player stands on.
    pub open spec fn has_row(self) -> bool {
        self.row < self.patterns[self.order[self.order_position()] as int].len()
    }

    /// The cells of the row that plays.
    pub open spec fn row_cells(self) -> Seq<Cell> {
        self.patterns[self.order[self.order_position()] as int][self.row as int]
    }

    /// What the first `n` cells of a row ask of the player, those further to
    /// the right over those further to the left.
    pub open spec fn requests(self, cells: Seq<Cell>, n: int) -> RowRequests
        decreases n,
    {
        if n <= 0 {
            RowRequests::nothing()
        } else {
            self.requests(cells, n - 1).and(
                cells[n - 1].command,
                self.channels[n - 1].resolved_info(cells[n - 1]),
            )
        }
    }

    /// How many cells of a row have a channel.
    pub open spec fn cells_used(self, cells: Seq<Cell>) -> int {
        if cells.len() < self.channels.len() {
            cells.len() as int
        } else {
            self.channels.len() as int
        }
    }

    /// The channels after tick 0 of a row; those that it has no cell for
    /// rest.
    pub open spec fn channels_entered(self, cells: Seq<Cell>) -> Seq<Channel> {
        Seq::new(
            self.channels.len(),
            |i: int|
                if i < cells.len() {
                    self.channels[i].entered(cells[i], self.samples, self.mode())
                } else {
                    self.channels[i].rested()
                },
        )
    }

    /// The channels of a row that is held: its cells are not entered again.
    pub open spec fn channels_rested(self) -> Seq<Channel> {
        Seq::new(self.channels.len(), |i: int| self.channels[i].rested())
    }

    /// How often SBx still goes back: `x` times when the loop is new.
    pub open spec fn loops_left(self, x: u8) -> u8 {
        match self.loop_count {
            None => x,
            Some(n) => if n == 0 {
                0
            } else {
                (n - 1) as u8
            },
        }
    }

    /// The jump that a row ends in, if it does. The way back of a pattern
    /// loop goes before any other jump.
    pub open spec fn jump_after(self, asked: RowRequests) -> Option<Jump> {
        match asked.pattern_loop {
            Some(x) => if x != 0 && self.loops_left(x) > 0 {
                Some(
                    Jump {
                        order: Some(self.order_index),
                        row: self.loop_start_row,
                        within_pattern: true,
                    },
                )
            } else {
                asked.jump()
            },
            None => asked.jump(),
        }
    }

    /// The player after what a row asks for.
    pub open spec fn granted(self, asked: RowRequests) -> Playback {
        Playback {
            speed: match asked.speed {
                Some(speed) => speed,
                None => self.speed,
            },
            bpm: match asked.tempo {
                Some(tempo) => tempo,
                None => self.bpm,
            },
            pending_global_vol: asked.global_volume,
            pattern_delay_remaining: match asked.delay {
                Some(n) => n,
                None => self.pattern_delay_remaining,
            },
            loop_start_row: if asked.pattern_loop == Some(0u8) {
                self.row
            } else {
                self.loop_start_row
            },
            loop_count: match asked.pattern_loop {
                Some(x) => if x == 0 {
                    self.loop_count
                } else if self.loops_left(x) > 0 {
                    Some(self.loops_left(x))
                } else {
                    None
                },
                None => self.loop_count,
            },
            pending_jump: match self.jump_after(asked) {
                Some(jump) => Some(jump),
                None => self.pending_jump,
            },
            ..self
        }
    }

    /// The player after tick 0 of the row it stands on. Without a pattern to
    /// play the song is over.
    pub open spec fn row_entered(self) -> Playback {
        let here = Playback { order_index: self.order_position() as u8, ..self };
        let cells = self.row_cells();
        if !self.has_pattern() {
            Playback { ended: true, ..here }
        } else if self.replaying_for_pattern_delay {
            Playback { pending_global_vol: None, channels: self.channels_rested(), ..here }
        } else {
            Playback { channels: self.channels_entered(cells), ..here }.granted(
                self.requests(cells, self.cells_used(cells)),
            )
        }
    }

    /// The player with a global volume that Vxx has set aside, on tick 1.
    pub open spec fn volume_drained(self) -> Playback {
        match self.pending_global_vol {
            Some(g) => if self.tick == 1 {
                Playback { global_volume: g, pending_global_vol: None, ..self }
            } else {
                self
            },
            None => self,
        }
    }

    /// The channels after a tick other than the first.
    pub open spec fn channels_ticked(self) -> Seq<Channel> {
        Seq::new(
            self.channels.len(),
            |i: int| self.channels[i].ticked(self.tick as int, self.samples, self.mode()),
        )
    }

    /// The player after the effects of a tick other than the first.
    pub open spec fn effects_applied(self) -> Playback {
        let s = self.volume_drained();
        Playback { channels: s.channels_ticked(), ..s }
    }

    /// The player after the tick it stands on.
    pub open spec fn tick_advanced(self) -> Playback {
        if self.tick == 0 {
            self.row_entered()
        } else {
            self.effects_applied()
        }
    }

    /// The player on the row that follows: the same one while it is held,
    /// else where the jump goes, else the next one. A pattern loop starts at
    /// the top of every pattern that is come to.
    pub open spec fn row_advanced(self) -> Playback {
        let s = match self.pending_jump {
            Some(jump) => Playback {
                order_index: match jump.order {
                    Some(order) => order,
                    None => order_after(self.order_index),
                },
                row: jump.row,
                loop_start_row: if jump.within_pattern {
                    self.loop_start_row
                } else {
                    0
                },
                ..self
            },
            None => if self.row < 63 {
                Playback { row: (self.row + 1) as u8, ..self }
            } else {
                Playback {
                    row: 0,
                    order_index: order_after(self.order_index),
                    loop_start_row: 0,
                    ..self
                }
            },
        };
        if self.pattern_delay_remaining > 0 && self.pending_jump is None {
            Playback {
                pattern_delay_remaining: (self.pattern_delay_remaining - 1) as u8,
                replaying_for_pattern_delay: true,
                ..self
            }
        } else {
            Playback {
                pattern_delay_remaining: 0,
                replaying_for_pattern_delay: false,
                pending_jump: None,
                ended: self.ended || s.order_index >= self.order.len(),
                ..s
            }
        }
    }

    /// The player when a frame is about to play: at the start of a tick, its
    /// effects have been applied.
    pub open spec fn frame_begun(self) -> Playback {
        if !self.ended && self.tick_sample_cursor == 0 {
            self.tick_advanced()
        } else {
            self
        }
    }

    /// The player after `n` frames of the tick that is under way.
    pub open spec fn frames_finished(self, n: int) -> Playback {
        let cursor = self.tick_sample_cursor + n;
        if cursor < self.tick_length() {
            Playback { tick_sample_cursor: cursor as u32, ..self }
        } else if self.tick + 1 < self.speed {
            Playback { tick_sample_cursor: 0, tick: (self.tick + 1) as u8, ..self }
        } else {
            Playback { tick_sample_cursor: 0, tick: 0, ..self }.row_advanced()
        }
    }

    /// Whether there is a frame to play.
    pub open spec fn has_frame(self) -> bool {
        !self.ended && !self.frame_begun().ended
    }

    /// The player after one frame, if there is one.
    pub open spec fn frame_played(self) -> Playback {
        if self.has_frame() {
            self.frame_begun().frames_finished(1)
        } else {
            self.frame_begun()
        }
    }

    /// The player after `n` frames, or as many as the song still has.
    pub open spec fn played(self, n: nat) -> Playback
        decreases n,
    {
        if n == 0 {
            self
        } else {
            self.frame_played().played((n - 1) as nat)
        }
    }

    /// How many of the next `n` frames the song still has.
    pub open spec fn frames_left(self, n: nat) -> nat
        decreases n,
    {
        if n == 0 || !self.has_frame() {
            0
        } else {
            1 + self.frame_played().frames_left((n - 1) as nat)
        }
    }
}

/// Top-level player state.
pub struct PlayerState {
    pub samples: Vec<SampleBody>,
    pub patterns: Vec<Pattern>,
    pub order: Vec<u8>,
    pub channels: Vec<Channel>,
    /// Initial pan values copied from the header (0..=15).
    pub initial_pan: Vec<u8>,
    /// Ticks per row.
    pub speed: u8,
    /// Tempo.
    pub bpm: u8,
    pub global_volume: u8,
    /// Master volume from the file header, kept to 16..=127.
    pub master_volume: u8,
    /// Whether the module is stereo, which raises the mixing volume by 11/8.
    pub stereo: bool,
    /// Number of channels that the file uses, at least one.
    pub active_channels: u8,
    /// Header flag bit 6, or a Scream Tracker no later than 3.00: volume
    /// slides run on tick 0 as well.
    pub fast_slides: bool,
    /// Header flag bit 4: periods are kept to 113..=856.
    pub amiga_limits: bool,
    pub order_index: u8,
    pub row: u8,
    pub tick: u8,
    /// Frames of the tick that have been played.
    pub tick_sample_cursor: u32,
    pub sample_rate: u32,
    pub ended: bool,
    pub pending_jump: Option<Jump>,
    /// SB0: where a pattern loop goes back to.
    pub loop_start_row: u8,
    /// SBx: how often the loop goes back, counted down; `None` outside one.
    pub loop_count: Option<u8>,
    /// SEx: how often the row still repeats.
    pub pattern_delay_remaining: u8,
    /// Whether the row is a repetition, whose cells are not entered again.
    pub replaying_for_pattern_delay: bool,
    /// Vxx: global volume set aside on tick 0 for tick 1.
    pub pending_global_vol: Option<u8>,
}

impl View for PlayerState {
    type V = Playback;

    open spec fn view(&self) -> Playback {
        Playback {
            samples: self.samples@,
            patterns: grids(self.patterns@),
            order: self.order@,
            channels: self.channels@,
            initial_pan: self.initial_pan@,
            speed: self.speed,
            bpm: self.bpm,
            global_volume: self.global_volume,
            master_volume: self.master_volume,
            stereo: self.stereo,
            active_channels: self.active_channels,
            fast_slides: self.fast_slides,
            amiga_limits: self.amiga_limits,
            order_index: self.order_index,
            row: self.row,
            tick: self.tick,
            tick_sample_cursor: self.tick_sample_cursor,
            sample_rate: self.sample_rate,
            ended: self.ended,
            pending_jump: self.pending_jump,
            loop_start_row: self.loop_start_row,
            loop_count: self.loop_count,
            pattern_delay_remaining: self.pattern_delay_remaining,
            replaying_for_pattern_delay: self.replaying_for_pattern_delay,
            pending_global_vol: self.pending_global_vol,
        }
    }
}

impl Playback {
    /// A song that is about to start. A speed of 0 or 255 and a tempo below
    /// 33 in the header stand for the defaults.
    pub open spec fn opened(
        header: S3mHeader,
        samples: Seq<SampleBody>,
        patterns: Seq<Seq<Seq<Cell>>>,
        sample_rate: u32,
    ) -> Playback {
        let global_volume = if header.global_volume < 64 {
            header.global_volume
        } else {
            64
        };
        let cwt = CreatedWithTracker::of_raw(header.tracker_version);
        Playback {
            samples,
            patterns,
            order: header.order@,
            channels: Seq::new(
                32,
                |i: int|
                    Channel::silent(
                        header.pans[i] % 16,
                        Bank::of_setting(header.channels[i]),
                        header.muted[i],
                        global_volume,
                    ),
            ),
            initial_pan: header.pans@,
            speed: if header.initial_speed == 0 || header.initial_speed == 0xFF {
                DEFAULT_SPEED
            } else {
                header.initial_speed
            },
            bpm: if header.initial_tempo < 33 {
                DEFAULT_BPM
            } else {
                header.initial_tempo
            },
            global_volume,
            master_volume: if header.master_volume < 16 {
                16
            } else if header.master_volume > 127 {
                127
            } else {
                header.master_volume
            },
            stereo: header.stereo,
            active_channels: if header.enabled_channels < 1 {
                1
            } else {
                header.enabled_channels
            },
            fast_slides: has_bit(header.flags as int, 64) || cwt.tracker == Tracker::ScreamTracker
                && cwt.raw <= 0x1300,
            amiga_limits: has_bit(header.flags as int, 16),
            order_index: 0,
            row: 0,
            tick: 0,
            tick_sample_cursor: 0,
            sample_rate,
            ended: false,
            pending_jump: None,
            loop_start_row: 0,
            loop_count: None,
            pattern_delay_remaining: 0,
            replaying_for_pattern_delay: false,
            pending_global_vol: None,
        }
    }
}

impl PlayerState {
    /// Whether playback can go on from this state.
    pub open spec fn wf(self) -> bool {
        self@.wf()
    }

    /// A player at the start of a song.
    pub fn new(
        header: &S3mHeader,
        samples: Vec<SampleBody>,
        patterns: Vec<Pattern>,
        sample_rate: u32,
    ) -> (r: Self)
        ensures
            r@ == Playback::opened(*header, samples@, grids(patterns@), sample_rate),
            (forall|i: int| 0 <= i < patterns@.len() ==> (#[trigger] grids(patterns@)[i]).len() == 64)
                ==> r.wf(),
    {
        let global_volume: u8 = if header.global_volume < 64 {
            header.global_volume
        } else {
            64
        };
        let speed: u8 = if header.initial_speed == 0 || header.initial_speed == 0xFF {
            DEFAULT_SPEED
        } else {
            header.initial_speed
        };
        let bpm: u8 = if header.initial_tempo < 33 {
            DEFAULT_BPM
        } else {
            header.initial_tempo
        };
        let fast_slides = (header.flags / 64) % 2 == 1
            || header.created_with_tracker().auto_fast_slides();
        let mut channels: Vec<Channel> = Vec::new();
        let mut initial_pan: Vec<u8> = Vec::new();
        let mut i: usize = 0;
        while i < CHANNEL_COUNT
            invariant
                i <= 32,
                channels@.len() == i,
                initial_pan@.len() == i,
                forall|j: int|
                    0 <= j < i ==> #[trigger] channels@[j] == Channel::silent(
                        header.pans[j] % 16,
                        Bank::of_setting(header.channels[j]),
                        header.muted[j],
                        global_volume,
                    ),
                forall|j: int| 0 <= j < i ==> #[trigger] initial_pan@[j] == header.pans[j],
            decreases 32 - i,
        {
            let bank = Bank::from_setting(header.channels[i]);
            channels.push(Channel::new(header.pans[i] % 16, bank, header.muted[i], global_volume));
            initial_pan.push(header.pans[i]);
            i = i + 1;
        }
        assert(initial_pan@ == header.pans@);
        let mut order: Vec<u8> = Vec::new();
        let mut j: usize = 0;
        while j < header.order.len()
            invariant
                j <= header.order@.len(),
                order@ == header.order@.take(j as int),
            decreases header.order@.len() - j,
        {
            order.push(header.order[j]);
            j = j + 1;
        }
        assert(order@ == header.order@);
        let r = PlayerState {
            samples,
            patterns,
            order,
            channels,
            initial_pan,
            speed,
            bpm,
            global_volume,
            master_volume: if header.master_volume < 16 {
                16
            } else if header.master_volume > 127 {
                127
            } else {
                header.master_volume
            },
            stereo: header.stereo,
            active_channels: if header.enabled_channels < 1 {
                1
            } else {
                header.enabled_channels
            },
            fast_slides,
            amiga_limits: (header.flags / 16) % 2 == 1,
            order_index: 0,
            row: 0,
            tick: 0,
            tick_sample_cursor: 0,
            sample_rate,
            ended: false,
            pending_jump: None,
            loop_start_row: 0,
            loop_count: None,
            pattern_delay_remaining: 0,
            replaying_for_pattern_delay: false,
            pending_global_vol: None,
        };
        assert(r@ == Playback::opened(*header, samples@, grids(patterns@), sample_rate));
        r
    }

    /// The settings that effects consult.
    pub fn mode(&self) -> (r: Mode)
        ensures
            r == self@.mode(),
    {
        Mode {
            global_volume: self.global_volume,
            fast_slides: self.fast_slides,
            amiga_limits: self.amiga_limits,
        }
    }

    /// Frames per tick.
    pub fn samples_per_tick(&self) -> (r: u32)
        ensures
            r == self@.tick_frames(),
    {
        let bpm: u64 = if self.bpm < 1 {
            1
        } else {
            self.bpm as u64
        };
        let n: u64 = 5 * self.sample_rate as u64 / (2 * bpm);
        if n > u32::MAX as u64 {
            u32::MAX
        } else {
            n as u32
        }
    }

    /// Frames that a tick lasts, at least one.
    pub(crate) fn tick_len(&self) -> (r: u32)
        ensures
            r == self@.tick_length(),
    {
        let n: u32 = self.samples_per_tick();
        if n < 1 {
            1
        } else {
            n
        }
    }

    /// Number of channels.
    pub fn channel_count(&self) -> (r: usize)
        ensures
            r == self.channels@.len(),
    {
        self.channels.len()
    }

    /// Pass over order markers; the pattern number of the entry that plays.
    fn find_next_playable_order(&mut self) -> (r: Option<u8>)
        ensures
            final(self)@ == (Playback {
                order_index: old(self)@.order_position() as u8,
                ..old(self)@
            }),
            r is Some <==> old(self)@.order_position() < old(self)@.order.len()
                && old(self)@.order[old(self)@.order_position()] < 0xFE,
            r matches Some(v) ==> v == old(self)@.order[old(self)@.order_position()],
    {
        let ghost start = self@;
        let mut i: u8 = self.order_index;
        while i < 255 && (i as usize) < self.order.len() && self.order[i as usize] == 0xFE
            invariant
                self@ == start,
                past_markers(start.order, start.order_index as int) == past_markers(
                    start.order,
                    i as int,
                ),
            decreases 255 - i,
        {
            i = i + 1;
        }
        self.order_index = i;
        assert(i == start.order_position());
        assert(self@ == (Playback { order_index: i, ..start }));
        if (i as usize) < self.order.len() && self.order[i as usize] < 0xFE {
            Some(self.order[i as usize])
        } else {
            None
        }
    }

    /// Enter a cell into channel `i`; the parameter that its command runs with.
    fn enter_channel(&mut self, i: usize, cell: Cell, mode: Mode) -> (info: u8)
        requires
            i < old(self).channels@.len(),
        ensures
            final(self).channels@ == old(self).channels@.update(
                i as int,
                old(self).channels@[i as int].entered(cell, old(self).samples@, mode),
            ),
            final(self).patterns@ == old(self).patterns@,
            final(self)@ == (Playback { channels: final(self).channels@, ..old(self)@ }),
            info == old(self).channels@[i as int].resolved_info(cell),
    {
        proof {
            self.channels@[i as int].lemma_entered_keeps_command(cell, self.samples@, mode);
        }
        self.channels[i].enter(cell, &self.samples, mode);
        self.channels[i].info
    }

    /// Enter the cells of row `self.row` of pattern `pat` into the channels;
    /// what they ask of the player.
    #[verifier::spinoff_prover]
    fn enter_cells(&mut self, pat: usize) -> (r: RowRequests)
        requires
            pat < old(self)@.patterns.len(),
            old(self).row < old(self)@.patterns[pat as int].len(),
        ensures
            ({
                let cells = old(self)@.patterns[pat as int][old(self).row as int];
                &&& final(self)@ == (Playback {
                    channels: old(self)@.channels_entered(cells),
                    ..old(self)@
                })
                &&& r == old(self)@.requests(cells, old(self)@.cells_used(cells))
            }),
    {
        let ghost start = self@;
        let ghost cells = start.patterns[pat as int][start.row as int];
        let row: usize = self.row as usize;
        let mode = self.mode();
        let n: usize = self.channels.len();
        let width: usize = self.patterns[pat].rows[row].len();
        assert(cells == self.patterns@[pat as int].rows@[row as int]@);
        let used: usize = if width < n {
            width
        } else {
            n
        };
        let mut asked = RowRequests::new();
        let mut i: usize = 0;
        while i < used
            invariant
                i <= used,
                used <= n,
                used <= cells.len(),
                n == start.channels.len(),
                n == self.channels@.len(),
                mode == start.mode(),
                pat < self.patterns@.len(),
                row < self.patterns@[pat as int].rows@.len(),
                cells == self.patterns@[pat as int].rows@[row as int]@,
                self@ == (Playback { channels: self.channels@, ..start }),
                asked == start.requests(cells, i as int),
                forall|j: int|
                    0 <= j < i ==> #[trigger] self.channels@[j] == start.channels[j].entered(
                        cells[j],
                        start.samples,
                        mode,
                    ),
                forall|j: int| i <= j < n ==> #[trigger] self.channels@[j] == start.channels[j],
            decreases used - i,
        {
            let cell: Cell = self.patterns[pat].rows[row][i];
            let info: u8 = self.enter_channel(i, cell, mode);
            asked.add_command(cell.command, info);
            i = i + 1;
        }
        let ghost entered = self.channels@;
        while i < n
            invariant
                used <= i <= n,
                n == entered.len(),
                n == self.channels@.len(),
                self@ == (Playback { channels: self.channels@, ..start }),
                forall|j: int| 0 <= j < used ==> #[trigger] self.channels@[j] == entered[j],
                forall|j: int| used <= j < i ==> #[trigger] self.channels@[j] == entered[j].rested(),
                forall|j: int| i <= j < n ==> #[trigger] self.channels@[j] == entered[j],
            decreases n - i,
        {
            self.channels[i].rest();
            i = i + 1;
        }
        assert(self.channels@ == start.channels_entered(cells)) by {
            assert(self.channels@.len() == start.channels_entered(cells).len());
            assert forall|j: int| 0 <= j < n implies self.channels@[j] == start.channels_entered(
                cells,
            )[j] by {
                assert(entered[j] == if j < used {
                    start.channels[j].entered(cells[j], start.samples, mode)
                } else {
                    start.channels[j]
                });
            }
        }
        asked
    }

    /// Rest every channel.
    fn rest_channels(&mut self)
        ensures
            final(self)@ == (Playback { channels: old(self)@.channels_rested(), ..old(self)@ }),
    {
        let ghost start = self@;
        let n: usize = self.channels.len();
        let mut i: usize = 0;
        while i < n
            invariant
                i <= n,
                n == start.channels.len(),
                n == self.channels@.len(),
                self@ == (Playback { channels: self.channels@, ..start }),
                forall|j: int|
                    0 <= j < i ==> #[trigger] self.channels@[j] == start.channels_rested()[j],
                forall|j: int| i <= j < n ==> #[trigger] self.channels@[j] == start.channels[j],
            decreases n - i,
        {
            let ghost before = self.channels@;
            self.channels[i].rest();
            assert(self.channels@ == before.update(i as int, start.channels[i as int].rested()));
            i = i + 1;
        }
        assert(self.channels@ == start.channels_rested());
    }

    /// Do what a row asks for.
    fn grant(&mut self, asked: RowRequests)
        ensures
            final(self)@ == old(self)@.granted(asked),
    {
        let ghost start = self@;
        let mut jump = asked.to_jump();
        match asked.pattern_loop {
            Some(x) => {
                if x == 0 {
                    self.loop_start_row = self.row;
                } else {
                    let left: u8 = match self.loop_count {
                        None => x,
                        Some(n) => n.saturating_sub(1),
                    };
                    if left > 0 {
                        self.loop_count = Some(left);
                        jump = Some(
                            Jump {
                                order: Some(self.order_index),
                                row: self.loop_start_row,
                                within_pattern: true,
                            },
                        );
                    } else {
                        self.loop_count = None;
                    }
                }
            },
            None => {},
        }
        match asked.speed {
            Some(speed) => {
                self.speed = speed;
            },
            None => {},
        }
        match asked.tempo {
            Some(tempo) => {
                self.bpm = tempo;
            },
            None => {},
        }
        match asked.delay {
            Some(n) => {
                self.pattern_delay_remaining = n;
            },
            None => {},
        }
        if jump.is_some() {
            self.pending_jump = jump;
        }
        self.pending_global_vol = asked.global_volume;
        assert(self@ == start.granted(asked));
    }

    /// Tick 0 of the row that the player stands on.
    pub fn enter_row(&mut self)
        requires
            old(self)@.has_pattern() ==> old(self)@.has_row(),
        ensures
            final(self)@ == old(self)@.row_entered(),
    {
        let ghost start = self@;
        let pat: usize = match self.find_next_playable_order() {
            Some(v) => v as usize,
            None => {
                self.ended = true;
                assert(self@ == start.row_entered());
                return;
            },
        };
        if pat >= self.patterns.len() {
            self.ended = true;
            assert(self@ == start.row_entered());
            return;
        }
        if self.replaying_for_pattern_delay {
            self.pending_global_vol = None;
            self.rest_channels();
            assert(self@ == start.row_entered());
            return;
        }
        let ghost here = self@;
        assert(here.channels_entered(start.row_cells()) == start.channels_entered(
            start.row_cells(),
        ));
        proof {
            here.lemma_requests_look_at_channels(
                start,
                start.row_cells(),
                start.cells_used(start.row_cells()),
            );
        }
        let asked = self.enter_cells(pat);
        self.grant(asked);
        assert(self@ == start.row_entered());
    }

    /// The effects of a tick other than the first of its row.
    pub fn apply_per_tick(&mut self)
        ensures
            final(self)@ == old(self)@.effects_applied(),
    {
        let ghost start = self@;
        if self.tick == 1 {
            match self.pending_global_vol {
                Some(g) => {
                    self.global_volume = g;
                    self.pending_global_vol = None;
                },
                None => {},
            }
        }
        let ghost drained = self@;
        assert(drained == start.volume_drained());
        let tick: u8 = self.tick;
        let mode = self.mode();
        let n: usize = self.channels.len();
        let mut i: usize = 0;
        while i < n
            invariant
                i <= n,
                n == drained.channels.len(),
                n == self.channels@.len(),
                tick == drained.tick,
                mode == drained.mode(),
                self@ == (Playback { channels: self.channels@, ..drained }),
                forall|j: int|
                    0 <= j < i ==> #[trigger] self.channels@[j] == drained.channels_ticked()[j],
                forall|j: int| i <= j < n ==> #[trigger] self.channels@[j] == drained.channels[j],
            decreases n - i,
        {
            let ghost before = self.channels@;
            self.channels[i].tick(tick, &self.samples, mode);
            assert(self.channels@ == before.update(
                i as int,
                drained.channels[i as int].ticked(tick as int, drained.samples, mode),
            ));
            i = i + 1;
        }
        assert(self.channels@ == drained.channels_ticked());
        assert(self@ == start.effects_applied());
    }

    /// The tick that the player stands on.
    pub fn advance_tick(&mut self)
        requires
            old(self).tick == 0 && old(self)@.has_pattern() ==> old(self)@.has_row(),
        ensures
            final(self)@ == old(self)@.tick_advanced(),
    {
        if self.tick == 0 {
            self.enter_row();
        } else {
            self.apply_per_tick();
        }
    }

    /// Go to the row that follows.
    pub fn next_row(&mut self)
        requires
            old(self).row < 255,
        ensures
            final(self)@ == old(self)@.row_advanced(),
    {
        let ghost start = self@;
        if self.pattern_delay_remaining > 0 && self.pending_jump.is_none() {
            self.pattern_delay_remaining = self.pattern_delay_remaining - 1;
            self.replaying_for_pattern_delay = true;
            assert(self@ == start.row_advanced());
            return;
        }
        self.pattern_delay_remaining = 0;
        self.replaying_for_pattern_delay = false;
        match self.pending_jump {
            Some(jump) => {
                self.order_index = match jump.order {
                    Some(order) => order,
                    None => self.order_index.saturating_add(1),
                };
                self.row = jump.row;
                if !jump.within_pattern {
                    self.loop_start_row = 0;
                }
                self.pending_jump = None;
            },
            None => {
                if self.row as usize + 1 < PATTERN_ROWS {
                    self.row = self.row + 1;
                } else {
                    self.row = 0;
                    self.order_index = self.order_index.saturating_add(1);
                    self.loop_start_row = 0;
                }
            },
        }
        if self.order_index as usize >= self.order.len() {
            self.ended = true;
        }
        assert(self@ == start.row_advanced());
    }
}

impl Playback {
    proof fn lemma_requests_look_at_channels(self, other: Playback, cells: Seq<Cell>, n: int)
        requires
            self.channels == other.channels,
        ensures
            self.requests(cells, n) == other.requests(cells, n),
        decreases n,
    {
        if n > 0 {
            self.lemma_requests_look_at_channels(other, cells, n - 1);
        }
    }
}

impl Channel {
    proof fn lemma_entered_keeps_command(self, cell: Cell, samples: Seq<SampleBody>, mode: Mode)
        ensures
            self.entered(cell, samples, mode).command == cell.command,
            self.entered(cell, samples, mode).info == self.resolved_info(cell),
    {
    }
}

} // verus!
