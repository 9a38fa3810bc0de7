//! What a song does as a whole: its rows, ticks, jumps and frames.

use vstd::prelude::*;

use crate::header::{Bank, S3mHeader};
use crate::pattern::Cell;
use crate::player::channel::{Channel, Mode, NoteOp, PitchOp};
use crate::player::sequencer::{past_markers, Playback, RowRequests};
use crate::samples::SampleBody;

verus! {

/// A song starts on the first row of its first order, at the speed, tempo
/// and volumes of the header where those are in range, and at 6 and 125
/// where speed and tempo are not.
pub proof fn law_song_opens(
    header: S3mHeader,
    samples: Seq<SampleBody>,
    patterns: Seq<Seq<Seq<Cell>>>,
    sample_rate: u32,
)
    ensures
        ({
            let s = Playback::opened(header, samples, patterns, sample_rate);
            &&& s.order == header.order@ && s.samples == samples && s.patterns == patterns
            &&& s.order_index == 0 && s.row == 0 && s.tick == 0 && s.tick_sample_cursor == 0
            &&& !s.ended && s.sample_rate == sample_rate
            &&& s.speed == if 0 < header.initial_speed < 255 {
                header.initial_speed
            } else {
                6
            }
            &&& s.bpm == if header.initial_tempo > 32 {
                header.initial_tempo
            } else {
                125
            }
            &&& s.global_volume == header.global_volume || header.global_volume > 64
                && s.global_volume == 64
            &&& 16 <= s.master_volume <= 127
            &&& 16 <= header.master_volume <= 127 ==> s.master_volume == header.master_volume
            &&& header.master_volume < 16 ==> s.master_volume == 16
            &&& s.stereo == header.stereo
            &&& s.active_channels == header.enabled_channels || header.enabled_channels == 0
                && s.active_channels == 1
            &&& s.amiga_limits <==> (header.flags / 16) % 2 == 1
            &&& s.fast_slides <==> (header.flags / 64) % 2 == 1 || 0x1000 <= header.tracker_version
                <= 0x1300
            &&& s.pending_jump is None && s.loop_start_row == 0 && s.loop_count is None
            &&& s.pattern_delay_remaining == 0 && !s.replaying_for_pattern_delay
            &&& s.pending_global_vol is None
        }),
{
}

/// Each of the 32 channels starts silent, on the pan and in the bank that
/// the header gives it.
pub proof fn law_channels_open(
    header: S3mHeader,
    samples: Seq<SampleBody>,
    patterns: Seq<Seq<Seq<Cell>>>,
    sample_rate: u32,
    i: int,
)
    requires
        0 <= i < 32,
        header.pans[i] < 16,
    ensures
        ({
            let s = Playback::opened(header, samples, patterns, sample_rate);
            let c = s.channels[i];
            &&& s.channels.len() == 32
            &&& s.initial_pan[i] == header.pans[i]
            &&& c.pan == header.pans[i] && c.muted == header.muted[i]
            &&& header.channels[i] == 0xFF ==> c.bank == Bank::Neither
            &&& header.channels[i] != 0xFF ==> c.bank == if (header.channels[i] / 8) % 2 == 0 {
                Bank::Left
            } else {
                Bank::Right
            }
            &&& !c.active && !c.pitched && !c.targeted && !c.frozen
            &&& c.instrument == 0 && c.volume == 0 && c.stored_volume == 0 && c.last_note == 0
            &&& c.latched_global == s.global_volume
            &&& c.vibrato_pos == 0 && c.tremolo_pos == 0 && c.pending_delay is None
            &&& c.tremor_on_counter == 0 && c.tremor_off_counter == 0 && c.retrig_counter == 0
            &&& forall|k: int| 0 <= k < 27 ==> #[trigger] c.effect_memory[k] == 0
            &&& c.note_op == NoteOp::Idle && c.pitch_op == PitchOp::Idle
        }),
{
}

/// Whether the order entry that the song stands on names a pattern.
pub open spec fn stands_on_pattern(s: Playback) -> bool {
    &&& s.order_index < s.order.len()
    &&& s.order[s.order_index as int] < 0xFE
    &&& s.order[s.order_index as int] < s.patterns.len()
}

/// The cells of the row that the song stands on.
pub open spec fn cells_of(s: Playback) -> Seq<Cell> {
    s.patterns[s.order[s.order_index as int] as int][s.row as int]
}

/// What effects go by: the player's global volume and the two flags.
pub open spec fn settings_of(s: Playback) -> Mode {
    Mode {
        global_volume: s.global_volume,
        fast_slides: s.fast_slides,
        amiga_limits: s.amiga_limits,
    }
}

/// The first tick of a row enters, in each channel, the cell that stands in
/// that channel's column, on that row, of the pattern that the order names.
/// Channels past the pattern's columns have nothing to enter.
pub proof fn law_row_enters_its_cells(s: Playback, i: int)
    requires
        stands_on_pattern(s),
        !s.replaying_for_pattern_delay,
        0 <= i < s.channels.len(),
    ensures
        s.row_entered().channels.len() == s.channels.len(),
        i < cells_of(s).len() ==> s.row_entered().channels[i] == s.channels[i].entered(
            cells_of(s)[i],
            s.samples,
            settings_of(s),
        ),
        i >= cells_of(s).len() ==> s.row_entered().channels[i] == (Channel {
            note_op: NoteOp::Idle,
            pitch_op: PitchOp::Idle,
            ..s.channels[i]
        }),
        s.row_entered().row == s.row,
        s.row_entered().order_index == s.order_index,
        s.row_entered().ended == s.ended,
        s.row_entered().samples == s.samples,
        s.row_entered().patterns == s.patterns,
        s.row_entered().order == s.order,
        s.row_entered().tick == s.tick,
{
    assert(s.row_cells() == cells_of(s));
}

/// A later tick runs the effect of each channel, with the tick's number.
pub proof fn law_tick_runs_each_effect(s: Playback, i: int)
    requires
        0 <= i < s.channels.len(),
        s.pending_global_vol is None || s.tick != 1,
    ensures
        s.effects_applied().channels[i] == s.channels[i].ticked(
            s.tick as int,
            s.samples,
            settings_of(s),
        ),
        s.effects_applied() == (Playback { channels: s.effects_applied().channels, ..s }),
        s.effects_applied().channels.len() == s.channels.len(),
{
}

/// On tick 1 a global volume that was set aside takes effect first, and the
/// channels run with it.
pub proof fn law_tick_one_sets_global_volume(s: Playback, i: int, g: u8)
    requires
        0 <= i < s.channels.len(),
        s.pending_global_vol == Some(g),
        s.tick == 1,
    ensures
        s.effects_applied().global_volume == g,
        s.effects_applied().pending_global_vol is None,
        s.effects_applied().channels[i] == s.channels[i].ticked(
            1,
            s.samples,
            Mode { global_volume: g, ..settings_of(s) },
        ),
{
}

/// Tick 0 enters the row and every other tick runs the effects, each once,
/// before the first frame of the tick; in the middle of a tick and after the
/// end nothing happens.
pub proof fn law_ticks_come_before_frames(s: Playback)
    ensures
        !s.ended && s.tick_sample_cursor == 0 && s.tick == 0 ==> s.frame_begun()
            == s.row_entered(),
        !s.ended && s.tick_sample_cursor == 0 && s.tick > 0 ==> s.frame_begun()
            == s.effects_applied(),
        s.ended || s.tick_sample_cursor > 0 ==> s.frame_begun() == s,
{
}

/// The song is over where the order list ends, at an end mark, or at a
/// pattern that the module does not have; on any other entry it goes on.
pub proof fn law_where_the_song_ends(s: Playback)
    requires
        s.order_index < s.order.len() ==> s.order[s.order_index as int] != 0xFE,
    ensures
        s.order_index >= s.order.len() ==> s.row_entered().ended,
        s.order_index < s.order.len() && s.order[s.order_index as int] == 0xFF
            ==> s.row_entered().ended,
        s.order_index < s.order.len() && s.order[s.order_index as int] >= s.patterns.len()
            ==> s.row_entered().ended,
        stands_on_pattern(s) ==> s.row_entered().ended == s.ended,
        s.row_entered().ended && !s.ended ==> s.row_entered() == (Playback { ended: true, ..s }),
{
}

/// A marker in the order list is passed over for the entry after it.
pub proof fn law_marker_is_skipped(s: Playback)
    requires
        s.order_index < s.order.len(),
        s.order_index < 254,
        s.order[s.order_index as int] == 0xFE,
        s.order_index + 1 < s.order.len(),
        s.order[s.order_index + 1] < 0xFE,
        s.order[s.order_index + 1] < s.patterns.len(),
    ensures
        s.row_entered().order_index == s.order_index + 1,
        s.row_entered() == (Playback { order_index: (s.order_index + 1) as u8, ..s }).row_entered(),
{
    let t = Playback { order_index: (s.order_index + 1) as u8, ..s };
    reveal_with_fuel(past_markers, 3);
    assert(s.order_position() == s.order_index + 1);
    assert(t.order_position() == s.order_index + 1);
    let cells = s.row_cells();
    assert(t.row_cells() == cells);
    lemma_requests_of_moved(s, t, cells, s.cells_used(cells));
    assert(s.channels_entered(cells) == t.channels_entered(cells));
    assert(s.channels_rested() == t.channels_rested());
}

proof fn lemma_requests_of_moved(s: Playback, t: Playback, cells: Seq<Cell>, n: int)
    requires
        s.channels == t.channels,
    ensures
        s.requests(cells, n) == t.requests(cells, n),
    decreases n,
{
    if n > 0 {
        lemma_requests_of_moved(s, t, cells, n - 1);
    }
}

/// What cells without a command ask for in its field is what those to the
/// left of them asked.
proof fn lemma_requests_pass(s: Playback, cells: Seq<Cell>, m: int, n: int, command: u8)
    requires
        0 <= m <= n,
        forall|j: int| m <= j < n ==> (#[trigger] cells[j]).command != command,
    ensures
        command == 1 ==> s.requests(cells, n).speed == s.requests(cells, m).speed,
        command == 20 ==> s.requests(cells, n).tempo == s.requests(cells, m).tempo,
        command == 2 ==> s.requests(cells, n).order == s.requests(cells, m).order,
        command == 3 ==> s.requests(cells, n).row == s.requests(cells, m).row,
        command == 22 ==> s.requests(cells, n).global_volume == s.requests(cells, m).global_volume,
        command == 19 ==> s.requests(cells, n).pattern_loop == s.requests(cells, m).pattern_loop,
        command == 19 ==> s.requests(cells, n).delay == s.requests(cells, m).delay,
    decreases n - m,
{
    if m < n {
        lemma_requests_pass(s, cells, m, n - 1, command);
        assert(cells[n - 1].command != command);
    }
}

/// What the row asks for on its first tick, as far as one command goes: what
/// the rightmost of its cells asks, or nothing.
proof fn lemma_row_asks(s: Playback, k: int, command: u8)
    requires
        stands_on_pattern(s),
        !s.replaying_for_pattern_delay,
        cells_of(s).len() <= s.channels.len(),
        -1 <= k < cells_of(s).len(),
        k >= 0 ==> cells_of(s)[k].command == command,
        forall|j: int| k < j < cells_of(s).len() ==> (#[trigger] cells_of(s)[j]).command != command,
    ensures
        ({
            let cells = cells_of(s);
            let n = cells.len() as int;
            let all = s.requests(cells, n);
            let one = if k < 0 {
                RowRequests::nothing()
            } else {
                s.requests(cells, k).and(command, s.channels[k].resolved_info(cells[k]))
            };
            &&& s.row_entered() == (Playback {
                channels: s.channels_entered(cells),
                ..s
            }).granted(all)
            &&& command == 1 ==> all.speed == one.speed
            &&& command == 20 ==> all.tempo == one.tempo
            &&& command == 2 ==> all.order == one.order
            &&& command == 3 ==> all.row == one.row
            &&& command == 22 ==> all.global_volume == one.global_volume
            &&& command == 19 ==> all.pattern_loop == one.pattern_loop && all.delay == one.delay
        }),
{
    let cells = cells_of(s);
    let n = cells.len() as int;
    assert(s.row_cells() == cells);
    assert(s.cells_used(cells) == n);
    lemma_requests_pass(s, cells, k + 1, n, command);
    if k >= 0 {
        assert(s.requests(cells, k + 1) == s.requests(cells, k).and(
            command,
            s.channels[k].resolved_info(cells[k]),
        ));
    }
}

/// Axx and Txx set speed and tempo to their parameter. Of several on a row
/// the rightmost counts; a row without them leaves both as they are.
pub proof fn law_speed_and_tempo(s: Playback, k: int)
    requires
        stands_on_pattern(s),
        !s.replaying_for_pattern_delay,
        cells_of(s).len() <= s.channels.len(),
        -1 <= k < cells_of(s).len(),
    ensures
        ({
            let cells = cells_of(s);
            let last = |command: u8|
                (k >= 0 ==> cells[k].command == command) && forall|j: int|
                    k < j < cells.len() ==> (#[trigger] cells[j]).command != command;
            &&& k >= 0 && last(1) && cells[k].info > 0 ==> s.row_entered().speed == cells[k].info
            &&& k >= 0 && last(20) && cells[k].info >= 32 ==> s.row_entered().bpm == cells[k].info
            &&& k < 0 && last(1) ==> s.row_entered().speed == s.speed
            &&& k < 0 && last(20) ==> s.row_entered().bpm == s.bpm
        }),
{
    let cells = cells_of(s);
    if (k >= 0 ==> cells[k].command == 1) && forall|j: int|
        k < j < cells.len() ==> (#[trigger] cells[j]).command != 1 {
        lemma_row_asks(s, k, 1);
    }
    if (k >= 0 ==> cells[k].command == 20) && forall|j: int|
        k < j < cells.len() ==> (#[trigger] cells[j]).command != 20 {
        lemma_row_asks(s, k, 20);
    }
}

/// Vxx sets its parameter aside for the next tick; the rightmost counts, and
/// a row without it sets nothing aside.
pub proof fn law_global_volume_is_set_aside(s: Playback, k: int)
    requires
        stands_on_pattern(s),
        !s.replaying_for_pattern_delay,
        cells_of(s).len() <= s.channels.len(),
        -1 <= k < cells_of(s).len(),
        k >= 0 ==> cells_of(s)[k].command == 22,
        forall|j: int| k < j < cells_of(s).len() ==> (#[trigger] cells_of(s)[j]).command != 22,
    ensures
        k >= 0 && cells_of(s)[k].info <= 64 ==> s.row_entered().pending_global_vol == Some(
            cells_of(s)[k].info,
        ),
        k < 0 ==> s.row_entered().pending_global_vol is None,
        s.row_entered().global_volume == s.global_volume,
{
    lemma_row_asks(s, k, 22);
}

/// Bxx goes on at the top of the order that it names, once its row is over;
/// with Cxx beside it, at the row whose decimal digits Cxx gives. Cxx alone
/// goes to that row of the order that comes next.
pub proof fn law_jumps_go_where_they_say(s: Playback, b: int, c: int)
    requires
        stands_on_pattern(s),
        !s.replaying_for_pattern_delay,
        s.pending_jump is None,
        cells_of(s).len() <= s.channels.len(),
        -1 <= b < cells_of(s).len(),
        -1 <= c < cells_of(s).len(),
        b >= 0 || c >= 0,
        b >= 0 ==> cells_of(s)[b].command == 2,
        c >= 0 ==> cells_of(s)[c].command == 3 && 10 * (cells_of(s)[c].info as int / 16)
            + cells_of(s)[c].info as int % 16 < 64,
        forall|j: int| b < j < cells_of(s).len() ==> (#[trigger] cells_of(s)[j]).command != 2,
        forall|j: int| c < j < cells_of(s).len() ==> (#[trigger] cells_of(s)[j]).command != 3,
        forall|j: int| 0 <= j < cells_of(s).len() ==> (#[trigger] cells_of(s)[j]).command != 19,
        s.order_index < 255,
    ensures
        ({
            let next = s.row_entered().row_advanced();
            &&& next.order_index == if b >= 0 {
                cells_of(s)[b].info as int
            } else {
                s.order_index + 1
            }
            &&& next.row == if c >= 0 {
                10 * (cells_of(s)[c].info as int / 16) + cells_of(s)[c].info as int % 16
            } else {
                0
            }
            &&& next.loop_start_row == 0
            &&& next.pending_jump is None
            &&& next.ended <==> s.ended || next.order_index >= s.order.len()
        }),
{
    lemma_row_asks(s, b, 2);
    lemma_row_asks(s, c, 3);
    lemma_row_asks(s, -1, 19);
}

/// Without a jump the next row comes next, and after the last row of a
/// pattern the first one of the next order. Past the last order the song is
/// over. A pattern starts with its loop start at the top.
pub proof fn law_rows_follow_each_other(s: Playback)
    requires
        s.pending_jump is None,
        s.pattern_delay_remaining == 0,
        s.row < 64,
        s.order_index < 255,
    ensures
        s.row < 63 ==> s.row_advanced().row == s.row + 1 && s.row_advanced().order_index
            == s.order_index && s.row_advanced().loop_start_row == s.loop_start_row,
        s.row == 63 ==> s.row_advanced().row == 0 && s.row_advanced().order_index == s.order_index
            + 1 && s.row_advanced().loop_start_row == 0,
        s.row_advanced().ended <==> s.ended || s.row_advanced().order_index >= s.order.len(),
        s.row_advanced() == (Playback {
            row: s.row_advanced().row,
            order_index: s.row_advanced().order_index,
            loop_start_row: s.row_advanced().loop_start_row,
            ended: s.row_advanced().ended,
            replaying_for_pattern_delay: false,
            ..s
        }),
{
}

/// A row without a command for the player leaves its course alone, and the
/// next row comes after it.
pub proof fn law_plain_row_goes_on(s: Playback)
    requires
        stands_on_pattern(s),
        !s.replaying_for_pattern_delay,
        s.pending_jump is None,
        s.pattern_delay_remaining == 0,
        s.row < 63,
        cells_of(s).len() <= s.channels.len(),
        forall|j: int|
            0 <= j < cells_of(s).len() ==> (#[trigger] cells_of(s)[j]).command != 2
                && cells_of(s)[j].command != 3 && cells_of(s)[j].command != 19,
    ensures
        s.row_entered().pending_jump is None,
        s.row_entered().pattern_delay_remaining == 0,
        s.row_entered().loop_start_row == s.loop_start_row,
        s.row_entered().loop_count == s.loop_count,
        s.row_entered().row_advanced().row == s.row + 1,
        s.row_entered().row_advanced().order_index == s.order_index,
{
    lemma_row_asks(s, -1, 2);
    lemma_row_asks(s, -1, 3);
    lemma_row_asks(s, -1, 19);
}

/// SB0 marks its row as the start of a loop and SEx holds its row `x` times;
/// SBx goes back to the start `x` times in all. S00 does what the channel's
/// last `S` did.
pub proof fn law_loop_and_delay_commands(s: Playback, k: int)
    requires
        stands_on_pattern(s),
        !s.replaying_for_pattern_delay,
        s.pending_jump is None,
        s.pattern_delay_remaining == 0,
        cells_of(s).len() <= s.channels.len(),
        0 <= k < cells_of(s).len(),
        cells_of(s)[k].command == 19,
        forall|j: int|
            0 <= j < cells_of(s).len() && j != k ==> (#[trigger] cells_of(s)[j]).command == 0,
    ensures
        ({
            let p = if cells_of(s)[k].info == 0 {
                s.channels[k].effect_memory[19]
            } else {
                cells_of(s)[k].info
            };
            let x = p as int / 16;
            let y = p as int % 16;
            let r = s.row_entered();
            &&& x == 0xB && y == 0 ==> r.loop_start_row == s.row && r.pending_jump is None
                && r.loop_count == s.loop_count
            &&& x == 0xB && y > 0 && s.loop_count is None ==> r.loop_count == Some(y as u8)
                && r.row_advanced().row == s.loop_start_row && r.row_advanced().order_index
                == s.order_index && r.row_advanced().loop_start_row == s.loop_start_row
            &&& x == 0xB && y > 0 && s.loop_count == Some(1u8) ==> r.loop_count is None
                && r.pending_jump is None
            &&& x == 0xB && y > 0 && (s.loop_count matches Some(left) && left > 1) ==> r.loop_count
                == Some((s.loop_count->0 - 1) as u8) && r.row_advanced().row == s.loop_start_row
            &&& x == 0xE ==> r.pattern_delay_remaining == y && r.pending_jump is None
            &&& x != 0xE ==> r.pattern_delay_remaining == 0
            &&& x != 0xB ==> r.loop_start_row == s.loop_start_row && r.loop_count == s.loop_count
                && r.pending_jump is None
        }),
{
    lemma_row_asks(s, k, 19);
    lemma_row_asks(s, -1, 2);
    lemma_row_asks(s, -1, 3);
    lemma_requests_pass(s, cells_of(s), 0, k, 19);
}

/// A tick lasts five seconds' worth of frames by twice the tempo, without
/// the fraction, but at least one frame.
pub proof fn law_tick_lasts_by_tempo(s: Playback)
    requires
        s.bpm >= 3,
    ensures
        s.tick_length() >= 1,
        s.tick_length() * (2 * s.bpm) <= 5 * s.sample_rate || s.tick_length() == 1,
        5 * s.sample_rate < (s.tick_length() + 1) * (2 * s.bpm),
{
    let a = 5 * s.sample_rate as int;
    let d = 2 * s.bpm as int;
    let q = a / d;
    vstd::arithmetic::div_mod::lemma_fundamental_div_mod(a, d);
    assert(q * d <= a < (q + 1) * d && q <= u32::MAX) by (nonlinear_arith)
        requires
            a == d * q + a % d,
            0 <= a % d < d,
            d >= 6,
            0 <= a <= 5 * 0xFFFF_FFFF,
    ;
    if q < 1 {
        assert(a < 2 * d) by (nonlinear_arith)
            requires
                a < (q + 1) * d,
                q < 1,
                d >= 6,
        ;
    }
}

/// Frames fill the tick; then the next tick comes, and after as many ticks
/// as the speed says the next row.
pub proof fn law_ticks_fill_rows(s: Playback, n: int)
    requires
        s.wf(),
        0 <= n,
        s.tick_sample_cursor + n <= s.tick_length(),
    ensures
        s.tick_sample_cursor + n < s.tick_length() ==> s.frames_finished(n) == (Playback {
            tick_sample_cursor: (s.tick_sample_cursor + n) as u32,
            ..s
        }),
        s.tick_sample_cursor + n == s.tick_length() && s.tick + 1 < s.speed ==> s.frames_finished(n)
            == (Playback { tick_sample_cursor: 0, tick: (s.tick + 1) as u8, ..s }),
        s.tick_sample_cursor + n == s.tick_length() && s.tick + 1 == s.speed ==> s.frames_finished(
            n,
        ) == (Playback { tick_sample_cursor: 0, tick: 0, ..s }).row_advanced(),
{
}

/// A row that is held does not enter its cells again and asks for nothing:
/// the channels only have no orders.
pub proof fn law_held_row_asks_nothing(s: Playback, i: int)
    requires
        stands_on_pattern(s),
        s.replaying_for_pattern_delay,
        0 <= i < s.channels.len(),
    ensures
        s.row_entered() == (Playback {
            channels: s.row_entered().channels,
            pending_global_vol: None,
            ..s
        }),
        s.row_entered().channels.len() == s.channels.len(),
        s.row_entered().channels[i] == (Channel {
            note_op: NoteOp::Idle,
            pitch_op: PitchOp::Idle,
            ..s.channels[i]
        }),
{
}

/// As long as a row is held, the next row is the same one, with one
/// repetition less to go.
pub proof fn law_held_row_comes_again(s: Playback)
    requires
        s.pending_jump is None,
        s.pattern_delay_remaining > 0,
    ensures
        s.row_advanced() == (Playback {
            pattern_delay_remaining: (s.pattern_delay_remaining - 1) as u8,
            replaying_for_pattern_delay: true,
            ..s
        }),
{
}

/// A jump leaves the row at once, held or not, and is then done with. One
/// within the pattern keeps the loop start, any other puts it to the top.
pub proof fn law_jump_leaves_row(s: Playback)
    requires
        s.pending_jump is Some,
        s.order_index < 255,
    ensures
        ({
            let jump = s.pending_jump->0;
            let r = s.row_advanced();
            &&& r.row == jump.row
            &&& r.order_index == match jump.order {
                Some(order) => order as int,
                None => s.order_index + 1,
            }
            &&& r.loop_start_row == if jump.within_pattern {
                s.loop_start_row
            } else {
                0
            }
            &&& r.ended <==> s.ended || r.order_index >= s.order.len()
            &&& r == (Playback {
                row: r.row,
                order_index: r.order_index,
                loop_start_row: r.loop_start_row,
                ended: r.ended,
                pending_jump: None,
                pattern_delay_remaining: 0,
                replaying_for_pattern_delay: false,
                ..s
            })
        }),
{
}

/// What is out of range asks for nothing and leaves what was asked to its
/// left: a speed of 0, a tempo below 32, a row from 64 on, a global volume
/// above 64. Commands other than A, B, C, S, T and V never ask for anything.
pub proof fn law_out_of_range_asks_nothing(asked: RowRequests, command: u8, info: u8)
    ensures
        command == 1 && info == 0 ==> asked.and(command, info) == asked,
        command == 20 && info < 32 ==> asked.and(command, info) == asked,
        command == 3 && 10 * (info as int / 16) + info as int % 16 >= 64 ==> asked.and(command, info)
            == asked,
        command == 22 && info > 64 ==> asked.and(command, info) == asked,
        command == 19 && info / 16 != 0xB && info / 16 != 0xE ==> asked.and(command, info) == asked,
        command == 0 || 4 <= command < 19 || command == 21 || command > 22 ==> asked.and(
            command,
            info,
        ) == asked,
{
}

/// Each command asks in its own field and leaves the others.
pub proof fn law_requests_are_separate(asked: RowRequests, command: u8, info: u8)
    ensures
        ({
            let r = asked.and(command, info);
            &&& command != 1 ==> r.speed == asked.speed
            &&& command != 20 ==> r.tempo == asked.tempo
            &&& command != 2 ==> r.order == asked.order
            &&& command != 3 ==> r.row == asked.row
            &&& command != 22 ==> r.global_volume == asked.global_volume
            &&& command != 19 ==> r.pattern_loop == asked.pattern_loop && r.delay == asked.delay
        }),
{
}

} // verus!
