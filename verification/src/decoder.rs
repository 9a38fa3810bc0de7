//! The life of a decoder: one packet in, chunks of PCM out.
//!
//! Two output modes exist:
//!
//! - mixed stereo: all channels are summed into one left/right pair;
//! - per channel: every channel slot has a stereo pair of its own,
//!   interleaved as `[ch0_L, ch0_R, ch1_L, ch1_R, ...]`.
//!
//! The decoder keeps the player and the clock. Rendering is the caller's:
//! it asks for the player, renders up to [`CHUNK_FRAMES`] frames with it,
//! and hands the samples to [`S3mDecoder::deliver`].

use vstd::prelude::*;

use crate::error::S3mError;
use crate::header::{
    header_fault, instrument_offset, law_header_fields, law_header_tables,
    law_which_files_are_modules, parse_header, Instrument, S3mHeader, CHANNEL_COUNT,
};
use crate::pattern::{
    grids, law_module_patterns, law_unpacked_pattern_is_complete, pattern_at, patterns_at,
    unpack_all,
};
use crate::player::sequencer::{Playback, PlayerState};
use crate::samples::{
    extract_samples, law_bytes_become_levels, law_sample_keeps_settings, SampleBody,
};

verus! {

/// Output sample rate in Hz.
pub const OUTPUT_SAMPLE_RATE: u32 = 44_100;

/// Frames per chunk.
pub const CHUNK_FRAMES: u32 = 1024;

/// How channels are put out.
#[derive(Clone, Copy, Debug, PartialEq, Eq, Structural)]
pub enum OutputMode {
    MixedStereo,
    PerChannel,
}

/// Why a decoder does not do what it is asked.
#[derive(Clone, Copy, Debug, PartialEq, Eq, Structural)]
pub enum DecodeError {
    /// The packet is no module.
    Invalid(S3mError),
    /// A second packet came; a song is one packet.
    SecondPacket,
    /// No packet has come yet.
    NeedMore,
    /// The song is over.
    Eof,
}

/// A chunk of rendered audio.
#[derive(Clone, Debug)]
pub struct Chunk {
    /// Number of frames.
    pub samples: u32,
    /// Interleaved samples per frame.
    pub channels: u16,
    /// Frames per second.
    pub sample_rate: u32,
    /// Position of the first frame in the song.
    pub pts: i64,
    /// The samples as signed 16-bit little-endian words.
    pub data: Vec<u8>,
}

/// Where a decoder stands.
pub enum DecoderState {
    AwaitingPacket,
    Playing { player: Box<PlayerState>, emit_pts: i64 },
    Done,
}

/// A decoder for one song.
pub struct S3mDecoder {
    pub mode: OutputMode,
    pub state: DecoderState,
}

/// How far a decoder has come.
pub enum Phase {
    /// No packet has come yet.
    Awaiting,
    /// A song plays, and this many frames of it have been delivered.
    Playing { position: int },
    /// The song is over.
    Done,
}

impl Phase {
    /// What a delivery of `produced` frames is answered: the position of its
    /// first frame, or why there is no chunk.
    pub open spec fn answer(self, produced: nat) -> Result<int, DecodeError> {
        match self {
            Phase::Awaiting => Err(DecodeError::NeedMore),
            Phase::Playing { position } => if produced == 0 {
                Err(DecodeError::Eof)
            } else {
                Ok(position)
            },
            Phase::Done => Err(DecodeError::Eof),
        }
    }

    /// The phase after a delivery of `produced` frames.
    pub open spec fn after(self, produced: nat) -> Phase {
        match self {
            Phase::Playing { position } => if produced == 0 {
                Phase::Done
            } else {
                Phase::Playing { position: position + produced }
            },
            other => other,
        }
    }

    /// The phase after a run of deliveries.
    pub open spec fn after_all(self, run: Seq<nat>) -> Phase
        decreases run.len(),
    {
        if run.len() == 0 {
            self
        } else {
            self.after_all(run.drop_last()).after(run.last())
        }
    }
}

/// The frames of a run of deliveries.
pub open spec fn total(run: Seq<nat>) -> nat
    decreases run.len(),
{
    if run.len() == 0 {
        0
    } else {
        total(run.drop_last()) + run.last()
    }
}

/// The low or high byte of a 16-bit sample.
pub open spec fn sample_byte(s: i16, high: bool) -> u8 {
    let word = if s < 0 {
        s + 65536
    } else {
        s as int
    };
    if high {
        (word / 256) as u8
    } else {
        (word % 256) as u8
    }
}

/// Samples as little-endian bytes.
pub open spec fn little_endian(pcm: Seq<i16>) -> Seq<u8> {
    Seq::new(2 * pcm.len(), |i: int| sample_byte(pcm[i / 2], i % 2 == 1))
}

/// The first `n` samples of `pcm` as little-endian bytes.
pub fn to_le_bytes(pcm: &Vec<i16>, n: usize) -> (r: Vec<u8>)
    requires
        n <= pcm@.len(),
    ensures
        r@ == little_endian(pcm@.take(n as int)),
{
    let ghost taken = pcm@.take(n as int);
    let mut out: Vec<u8> = Vec::new();
    let mut i: usize = 0;
    while i < n
        invariant
            i <= n,
            n <= pcm@.len(),
            taken == pcm@.take(n as int),
            out@.len() == 2 * i,
            forall|j: int| 0 <= j < 2 * i ==> #[trigger] out@[j] == little_endian(taken)[j],
        decreases n - i,
    {
        let s: i32 = pcm[i] as i32;
        let word: i32 = if s < 0 {
            s + 65536
        } else {
            s
        };
        out.push((word % 256) as u8);
        out.push((word / 256) as u8);
        assert(little_endian(taken)[2 * i] == sample_byte(taken[i as int], false));
        assert(little_endian(taken)[2 * i + 1] == sample_byte(taken[i as int], true));
        i = i + 1;
    }
    assert(out@ == little_endian(taken));
    out
}

/// The player of the song in `data`, at its start.
pub open spec fn is_opening(player: Playback, data: Seq<u8>) -> bool {
    exists|header: S3mHeader, samples: Seq<SampleBody>|
        {
            &&& #[trigger] header.decodes(data)
            &&& samples.len() == header.instruments@.len()
            &&& forall|i: int|
                0 <= i < samples.len() ==> (#[trigger] samples[i]).decodes(
                    header.instruments@[i],
                    data,
                    header.ffi == 1,
                )
            &&& player == #[trigger] Playback::opened(
                header,
                samples,
                patterns_at(data, header.pattern_offsets@),
                OUTPUT_SAMPLE_RATE,
            )
        }
}

impl S3mDecoder {
    /// Whether a song that is playing can go on.
    pub open spec fn wf(self) -> bool {
        self.state matches DecoderState::Playing { player, .. } ==> player.wf()
            && player.channels@.len() == CHANNEL_COUNT
    }

    /// How far the decoder has come.
    pub open spec fn phase(self) -> Phase {
        match self.state {
            DecoderState::AwaitingPacket => Phase::Awaiting,
            DecoderState::Playing { emit_pts, .. } => Phase::Playing { position: emit_pts as int },
            DecoderState::Done => Phase::Done,
        }
    }

    /// Samples per frame.
    pub open spec fn frame_width(self) -> int {
        match self.mode {
            OutputMode::MixedStereo => 2,
            OutputMode::PerChannel => 64,
        }
    }

    /// Samples per frame: one pair, or one for each channel slot.
    pub fn stride(&self) -> (r: u16)
        ensures
            r == self.frame_width(),
    {
        match self.mode {
            OutputMode::MixedStereo => 2,
            OutputMode::PerChannel => 2 * CHANNEL_COUNT as u16,
        }
    }

    /// A decoder that waits for its packet.
    pub fn new(mode: OutputMode) -> (r: Self)
        ensures
            r.mode == mode,
            r.state is AwaitingPacket,
            r.wf(),
    {
        S3mDecoder { mode, state: DecoderState::AwaitingPacket }
    }

    /// Take the packet that holds the song.
    pub fn send_packet(&mut self, data: &[u8]) -> (r: Result<(), DecodeError>)
        ensures
            old(self).wf() || r is Ok ==> final(self).wf(),
            final(self).mode == old(self).mode,
            r is Ok <==> old(self).state is AwaitingPacket && header_fault(data@) is None,
            r is Ok ==> (final(self).state matches DecoderState::Playing { player, emit_pts }
                && emit_pts == 0 && is_opening(player@, data@)),
            r is Ok ==> final(self).phase() == (Phase::Playing { position: 0 }),
            r matches Err(e) ==> final(self).state == old(self).state && e == if old(
                self,
            ).state is AwaitingPacket {
                DecodeError::Invalid(header_fault(data@)->0)
            } else {
                DecodeError::SecondPacket
            },
    {
        match self.state {
            DecoderState::AwaitingPacket => {},
            _ => {
                return Err(DecodeError::SecondPacket);
            },
        }
        let header = match parse_header(data) {
            Ok(header) => header,
            Err(e) => {
                return Err(DecodeError::Invalid(e));
            },
        };
        let samples = extract_samples(&header, data);
        let patterns = unpack_all(&header, data);
        proof {
            assert forall|i: int| 0 <= i < grids(patterns@).len() implies (#[trigger] grids(
                patterns@,
            )[i]).len() == 64 by {
                law_unpacked_pattern_is_complete(
                    data@,
                    header.pattern_offsets@[i] as int,
                    32,
                );
            }
        }
        let ghost bodies = samples@;
        let player = PlayerState::new(&header, samples, patterns, OUTPUT_SAMPLE_RATE);
        proof {
            assert(header.decodes(data@));
            assert(player@ == Playback::opened(
                header,
                bodies,
                patterns_at(data@, header.pattern_offsets@),
                OUTPUT_SAMPLE_RATE,
            ));
        }
        self.state = DecoderState::Playing { player: Box::new(player), emit_pts: 0 };
        Ok(())
    }

    /// Take a chunk that the caller has rendered with the player: `produced`
    /// frames, interleaved, at most [`CHUNK_FRAMES`]. A chunk without frames
    /// ends the song. While no song plays, what is handed in does not matter.
    pub fn deliver(&mut self, pcm: &Vec<i16>, produced: u32) -> (r: Result<Chunk, DecodeError>)
        requires
            old(self).state matches DecoderState::Playing { emit_pts, .. } ==> {
                &&& produced <= CHUNK_FRAMES
                &&& produced * old(self).frame_width() <= pcm@.len()
                &&& emit_pts + produced <= i64::MAX
            },
        ensures
            old(self).wf() ==> final(self).wf(),
            final(self).mode == old(self).mode,
            final(self).phase() == old(self).phase().after(produced as nat),
            r is Ok <==> old(self).phase().answer(produced as nat) is Ok,
            r matches Err(e) ==> old(self).phase().answer(produced as nat) == Err::<
                int,
                DecodeError,
            >(e),
            r matches Ok(chunk) ==> {
                &&& old(self).phase().answer(produced as nat) == Ok::<int, DecodeError>(
                    chunk.pts as int,
                )
                &&& 1 <= chunk.samples <= CHUNK_FRAMES
                &&& chunk.channels == old(self).frame_width()
                &&& chunk.sample_rate == OUTPUT_SAMPLE_RATE
                &&& chunk.data@.len() == 2 * (chunk.samples * chunk.channels)
            },
            match old(self).state {
                DecoderState::AwaitingPacket => {
                    r == Err::<Chunk, DecodeError>(DecodeError::NeedMore) && final(self).state
                        == old(self).state
                },
                DecoderState::Done => {
                    r == Err::<Chunk, DecodeError>(DecodeError::Eof) && final(self).state == old(
                        self,
                    ).state
                },
                DecoderState::Playing { player, emit_pts } => if produced == 0 {
                    r == Err::<Chunk, DecodeError>(DecodeError::Eof)
                        && final(self).state is Done
                } else {
                    &&& r matches Ok(chunk)
                    &&& chunk.samples == produced
                    &&& chunk.channels == old(self).frame_width()
                    &&& chunk.pts == emit_pts
                    &&& chunk.data@ == little_endian(pcm@.take(produced * old(self).frame_width()))
                    &&& final(self).state == (DecoderState::Playing {
                        player,
                        emit_pts: (emit_pts + produced) as i64,
                    })
                },
            },
    {
        let stride: u16 = self.stride();
        let len: usize = pcm.len();
        match &mut self.state {
            DecoderState::AwaitingPacket => {
                return Err(DecodeError::NeedMore);
            },
            DecoderState::Done => {
                return Err(DecodeError::Eof);
            },
            DecoderState::Playing { emit_pts, .. } => {
                if produced != 0 {
                    let pts: i64 = *emit_pts;
                    *emit_pts = pts + produced as i64;
                    assert(0 <= produced * stride <= len);
                    let n: usize = produced as usize * stride as usize;
                    let data = to_le_bytes(pcm, n);
                    return Ok(
                        Chunk {
                            samples: produced,
                            channels: stride,
                            sample_rate: OUTPUT_SAMPLE_RATE,
                            pts,
                            data,
                        },
                    );
                }
            },
        }
        self.state = DecoderState::Done;
        Err(DecodeError::Eof)
    }

    /// Forget the song and wait for its packet again.
    pub fn reset(&mut self)
        ensures
            final(self).state is AwaitingPacket,
            final(self).phase() == Phase::Awaiting,
            final(self).mode == old(self).mode,
            final(self).wf(),
    {
        self.state = DecoderState::AwaitingPacket;
    }
}

/// Positions add up from 0: each chunk starts where the frames delivered
/// before it end.
pub proof fn law_positions_add_up(run: Seq<nat>, produced: nat)
    requires
        forall|i: int| 0 <= i < run.len() ==> #[trigger] run[i] > 0,
        produced > 0,
    ensures
        (Phase::Playing { position: 0 }).after_all(run) == (Phase::Playing {
            position: total(run) as int,
        }),
        (Phase::Playing { position: 0 }).after_all(run).answer(produced) == Ok::<int, DecodeError>(
            total(run) as int,
        ),
    decreases run.len(),
{
    if run.len() > 0 {
        law_positions_add_up(run.drop_last(), produced);
    }
}

/// Once a delivery has been answered with the end of the song, every later
/// one is too.
pub proof fn law_end_stays_the_end(phase: Phase, last: nat, run: Seq<nat>, produced: nat)
    requires
        phase.answer(last) == Err::<int, DecodeError>(DecodeError::Eof),
    ensures
        phase.after(last).after_all(run) == Phase::Done,
        phase.after(last).after_all(run).answer(produced) == Err::<int, DecodeError>(
            DecodeError::Eof,
        ),
    decreases run.len(),
{
    if run.len() > 0 {
        law_end_stays_the_end(phase, last, run.drop_last(), produced);
    }
}

/// Until a packet comes, every delivery is answered that one is needed.
pub proof fn law_nothing_before_the_packet(run: Seq<nat>, produced: nat)
    ensures
        Phase::Awaiting.after_all(run) == Phase::Awaiting,
        Phase::Awaiting.after_all(run).answer(produced) == Err::<int, DecodeError>(
            DecodeError::NeedMore,
        ),
    decreases run.len(),
{
    if run.len() > 0 {
        law_nothing_before_the_packet(run.drop_last(), produced);
    }
}

/// Whether every delivery of a run has frames.
pub open spec fn goes_on(run: Seq<nat>) -> bool {
    forall|i: int| 0 <= i < run.len() ==> #[trigger] run[i] > 0
}

/// The life of a song: as long as every delivery since the packet has had
/// frames, each is answered with the position that the ones before it add
/// up to, and from the first one without frames on, each with the end.
pub proof fn law_life_of_a_song(run: Seq<nat>, i: int)
    requires
        0 <= i < run.len(),
    ensures
        (Phase::Playing { position: 0 }).after_all(run.take(i)).answer(run[i]) == if goes_on(
            run.take(i + 1),
        ) {
            Ok::<int, DecodeError>(total(run.take(i)) as int)
        } else {
            Err(DecodeError::Eof)
        },
{
    let start = Phase::Playing { position: 0 };
    let before = run.take(i);
    assert(run.take(i + 1) == before.push(run[i]));
    if goes_on(before) {
        law_positions_add_up(before, 1);
        assert(goes_on(run.take(i + 1)) <==> run[i] > 0) by {
            assert(run.take(i + 1)[i] == run[i]);
            assert forall|k: int| 0 <= k < i implies #[trigger] run.take(i + 1)[k] > 0 by {
                assert(before[k] > 0);
            }
        }
    } else {
        lemma_done_after_empty(start, before);
        assert(!goes_on(run.take(i + 1))) by {
            let k = choose|k: int| 0 <= k < i && !(#[trigger] before[k] > 0);
            assert(run.take(i + 1)[k] == before[k]);
        }
    }
}

proof fn lemma_done_after_empty(start: Phase, run: Seq<nat>)
    requires
        start is Playing,
        !goes_on(run),
    ensures
        start.after_all(run) == Phase::Done,
    decreases run.len(),
{
    let rest = run.drop_last();
    let k = choose|k: int| 0 <= k < run.len() && !(#[trigger] run[k] > 0);
    if goes_on(rest) {
        if k < rest.len() {
            assert(rest[k] > 0);
        }
        lemma_not_awaiting(start, rest);
    } else {
        lemma_done_after_empty(start, rest);
    }
}

proof fn lemma_not_awaiting(start: Phase, run: Seq<nat>)
    requires
        !(start is Awaiting),
    ensures
        !(start.after_all(run) is Awaiting),
    decreases run.len(),
{
    if run.len() > 0 {
        lemma_not_awaiting(start, run.drop_last());
    }
}

/// Each sample takes two bytes, the low one first, and negative samples wrap
/// round.
pub proof fn law_bytes_give_samples_back(pcm: Seq<i16>, i: int)
    requires
        0 <= i < pcm.len(),
    ensures
        little_endian(pcm).len() == 2 * pcm.len(),
        ({
            let word = little_endian(pcm)[2 * i] + 256 * little_endian(pcm)[2 * i + 1];
            pcm[i] == if word < 32768 {
                word
            } else {
                word - 65536
            }
        }),
{
    assert((2 * i) / 2 == i && (2 * i + 1) / 2 == i);
    assert((2 * i) % 2 == 0 && (2 * i + 1) % 2 == 1);
}

/// A frame has a pair of samples, or one for each of the 32 channel slots.
pub proof fn law_frames_are_pairs(dec: S3mDecoder)
    ensures
        dec.mode == OutputMode::MixedStereo ==> dec.frame_width() == 2,
        dec.mode == OutputMode::PerChannel ==> dec.frame_width() == 2 * 32,
        OUTPUT_SAMPLE_RATE == 44100,
        CHUNK_FRAMES == 1024,
{
}

/// The header and samples that a player was opened with.
proof fn lemma_opening(player: Playback, data: Seq<u8>) -> (r: (S3mHeader, Seq<SampleBody>))
    requires
        is_opening(player, data),
    ensures
        r.0.decodes(data),
        r.1.len() == r.0.instruments@.len(),
        forall|i: int|
            0 <= i < r.1.len() ==> (#[trigger] r.1[i]).decodes(
                r.0.instruments@[i],
                data,
                r.0.ffi == 1,
            ),
        player == Playback::opened(
            r.0,
            r.1,
            patterns_at(data, r.0.pattern_offsets@),
            OUTPUT_SAMPLE_RATE,
        ),
{
    choose|header: S3mHeader, samples: Seq<SampleBody>|
        {
            &&& #[trigger] header.decodes(data)
            &&& samples.len() == header.instruments@.len()
            &&& forall|i: int|
                0 <= i < samples.len() ==> (#[trigger] samples[i]).decodes(
                    header.instruments@[i],
                    data,
                    header.ffi == 1,
                )
            &&& player == #[trigger] Playback::opened(
                header,
                samples,
                patterns_at(data, header.pattern_offsets@),
                OUTPUT_SAMPLE_RATE,
            )
        }
}

/// The player that a packet opens has the order list of the file, speed,
/// tempo and volume of its header, and as many patterns, samples and
/// channels as that counts.
pub proof fn law_packet_opens_its_song(player: Playback, data: Seq<u8>)
    requires
        is_opening(player, data),
        data.len() >= 0x60,
    ensures
        player.sample_rate == 44100,
        player.order == data.subrange(0x60, 0x60 + data[0x20] + 256 * data[0x21]),
        player.samples.len() == data[0x22] + 256 * data[0x23],
        player.patterns.len() == data[0x24] + 256 * data[0x25],
        player.channels.len() == 32,
        0 < data[0x31] < 255 ==> player.speed == data[0x31],
        data[0x32] > 32 ==> player.bpm == data[0x32],
        data[0x30] <= 64 ==> player.global_volume == data[0x30],
        player.stereo <==> data[0x33] >= 128,
        player.order_index == 0 && player.row == 0 && player.tick == 0 && !player.ended,
{
    let (header, samples) = lemma_opening(player, data);
    law_header_fields(header, data);
}

/// The patterns of an opened song are those at the places that the file's
/// table names, of 64 rows and 32 channels each.
pub proof fn law_packet_opens_its_patterns(player: Playback, data: Seq<u8>, i: int)
    requires
        is_opening(player, data),
        header_fault(data) is None,
        0 <= i < player.patterns.len(),
    ensures
        player.patterns[i].len() == 64,
        forall|r: int| 0 <= r < 64 ==> (#[trigger] player.patterns[i][r]).len() == 32,
        ({
            let at = 0x60 + data[0x20] + 256 * data[0x21] + 2 * (data[0x22] + 256 * data[0x23]) + 2
                * i;
            let off = 16 * data[at] + 4096 * data[at + 1];
            off != 0 ==> player.patterns[i] == pattern_at(data, off, 32)
        }),
{
    let (header, samples) = lemma_opening(player, data);
    law_which_files_are_modules(data);
    law_header_fields(header, data);
    law_header_tables(header, data, i);
    law_module_patterns(data, header.pattern_offsets@, i, Seq::empty());
}

/// What an instrument of the header takes from the file, byte by byte.
proof fn lemma_instrument_bytes(header: S3mHeader, data: Seq<u8>, i: int)
    requires
        header.decodes(data),
        header_fault(data) is None,
        0 <= i < header.instruments@.len(),
    ensures
        ({
            let at = 0x60 + data[0x20] + 256 * data[0x21] + 2 * i;
            let off = 16 * data[at] + 4096 * data[at + 1];
            let inst = header.instruments@[i];
            &&& off == 0 ==> inst.kind == 0
            &&& off != 0 ==> {
                &&& inst.kind == data[off]
                &&& inst.sample_parapointer == 65536 * data[off + 0x0D] + data[off + 0x0E] + 256
                    * data[off + 0x0F]
                &&& data[off + 0x1C] <= 64 ==> inst.volume == data[off + 0x1C]
                &&& inst.pack == data[off + 0x1E]
                &&& inst.flags == data[off + 0x1F]
                &&& inst.c5_speed == data[off + 0x20] + 256 * data[off + 0x21]
            }
        }),
{
    law_which_files_are_modules(data);
    law_header_fields(header, data);
    law_header_tables(header, data, i);
    let at = 0x60 + data[0x20] + 256 * data[0x21] + 2 * i;
    let off = 16 * data[at] + 4096 * data[at + 1];
    if off != 0 {
        assert(off == instrument_offset(data, i));
        lemma_header_bytes(header.instruments@[i], data, off);
    }
}

proof fn lemma_header_bytes(inst: Instrument, data: Seq<u8>, off: int)
    requires
        0 <= off,
        off + 80 <= data.len(),
        inst.decodes(data.subrange(off, off + 80)),
    ensures
        inst.kind == data[off],
        inst.sample_parapointer == 65536 * data[off + 0x0D] + data[off + 0x0E] + 256 * data[off
            + 0x0F],
        data[off + 0x1C] <= 64 ==> inst.volume == data[off + 0x1C],
        inst.pack == data[off + 0x1E],
        inst.flags == data[off + 0x1F],
        inst.c5_speed == data[off + 0x20] + 256 * data[off + 0x21],
{
    let h = data.subrange(off, off + 80);
    assert(h[0x0D] == data[off + 0x0D] && h[0x0E] == data[off + 0x0E] && h[0x0F] == data[off + 0x0F]
        && h[0x1C] == data[off + 0x1C] && h[0x1E] == data[off + 0x1E] && h[0x1F] == data[off + 0x1F]
        && h[0x20] == data[off + 0x20] && h[0x21] == data[off + 0x21] && h[0] == data[off]);
}

/// The samples of an opened song are those of the file's instruments, each
/// with its default volume and C5 speed; slots without PCM data are empty.
pub proof fn law_packet_opens_its_samples(player: Playback, data: Seq<u8>, i: int)
    requires
        is_opening(player, data),
        header_fault(data) is None,
        0 <= i < player.samples.len(),
    ensures
        ({
            let at = 0x60 + data[0x20] + 256 * data[0x21] + 2 * i;
            let off = 16 * data[at] + 4096 * data[at + 1];
            let body = player.samples[i];
            &&& off == 0 ==> body.pcm@.len() == 0
            &&& off != 0 ==> {
                &&& data[off + 0x1C] <= 64 ==> body.volume == data[off + 0x1C]
                &&& data[off + 0x20] + data[off + 0x21] > 0 ==> body.c5_speed == data[off + 0x20]
                    + 256 * data[off + 0x21]
                &&& data[off] != 1 ==> body.pcm@.len() == 0
            }
        }),
{
    let (header, samples) = lemma_opening(player, data);
    let inst = header.instruments@[i];
    lemma_instrument_bytes(header, data, i);
    lemma_sample_settings(samples[i], inst, data, header.ffi == 1);
}

proof fn lemma_sample_settings(body: SampleBody, inst: Instrument, data: Seq<u8>, signed: bool)
    requires
        body.decodes(inst, data, signed),
    ensures
        body.volume == inst.volume,
        inst.c5_speed > 0 ==> body.c5_speed == inst.c5_speed,
        inst.kind != 1 ==> body.pcm@.len() == 0,
        body.pcm@.len() > 0 ==> inst.kind == 1 && 16 * inst.sample_parapointer < data.len(),
{
    law_sample_keeps_settings(body, inst, data, signed);
}

/// Whether samples count from zero or in two's complement is the file's
/// choice: only the word 1 at 0x2A makes them signed.
pub proof fn law_packet_tells_signs(player: Playback, data: Seq<u8>, i: int, j: int)
    requires
        is_opening(player, data),
        header_fault(data) is None,
        0 <= i < player.samples.len(),
        0 <= j < player.samples[i].pcm@.len(),
    ensures
        ({
            let at = 0x60 + data[0x20] + 256 * data[0x21] + 2 * i;
            let off = 16 * data[at] + 4096 * data[at + 1];
            let from = 16 * (65536 * data[off + 0x0D] + data[off + 0x0E] + 256 * data[off + 0x0F]);
            let signed = data[0x2A] == 1 && data[0x2B] == 0;
            off != 0 && data[off + 0x1E] != 1 && (data[off + 0x1F] / 4) % 2 == 0
                ==> player.samples[i].pcm@[j] == if signed && data[from + j] >= 128 {
                256 * data[from + j] - 65536
            } else if signed {
                256 * data[from + j]
            } else {
                256 * (data[from + j] - 128)
            }
        }),
{
    let (header, samples) = lemma_opening(player, data);
    let inst = header.instruments@[i];
    lemma_instrument_bytes(header, data, i);
    lemma_sample_settings(samples[i], inst, data, header.ffi == 1);
    law_which_files_are_modules(data);
    law_header_fields(header, data);
    assert(header.ffi == 1 <==> data[0x2A] == 1 && data[0x2B] == 0);
    if inst.pack != 1 && (inst.flags / 4) % 2 == 0 {
        law_bytes_become_levels(samples[i], inst, data, header.ffi == 1, j);
    }
}

} // verus!
