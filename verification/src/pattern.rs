//! S3M pattern unpacker.
//!
//! Unlike MOD's fixed-size rows, S3M packs patterns with a per-row
//! channel-mask scheme:
//!
//! ```text
//! pattern := 2-byte length  (includes the length word itself)
//!           { row }
//! row     := { record }  0x00
//! record  := flags_byte
//!            [ note, instrument ]    (if flags & 0x20)
//!            [ volume ]              (if flags & 0x40)  0..=64 or 0xFF
//!            [ command, info ]       (if flags & 0x80)  'A'..'Z' as 1..=26
//! ```
//!
//! The low 5 bits of the flags byte give the channel index 0..=31.

use vstd::prelude::*;
use vstd::slice::slice_subrange;

use crate::bytes::{has_bit, read_u16_le, u16_at};
use crate::header::{S3mHeader, CHANNEL_COUNT, PATTERN_ROWS};

verus! {

/// A decoded cell for one channel at one row.
#[derive(Clone, Copy, Debug, PartialEq, Eq, Structural)]
pub struct Cell {
    /// High nibble = octave, low nibble = semitone 0..=11.
    /// Special: 0x00 = no note, 0xFE = note cut, 0xFF = empty.
    pub note: u8,
    /// 1..=99 sample index; 0 = no change.
    pub instrument: u8,
    /// Volume 0..=64 or 0xFF = no change.
    pub volume: u8,
    /// Effect command as stored (1 = A, 2 = B, ... 26 = Z). 0 = no effect.
    pub command: u8,
    /// Effect parameter byte.
    pub info: u8,
}

impl Cell {
    /// The cell of a channel that a row says nothing of.
    pub open spec fn blank() -> Cell {
        Cell { note: 0xFF, instrument: 0, volume: 0xFF, command: 0, info: 0 }
    }

    /// The cell of a channel that a row says nothing of.
    pub fn empty() -> (r: Cell)
        ensures
            r == Cell::blank(),
    {
        Cell { note: 0xFF, instrument: 0, volume: 0xFF, command: 0, info: 0 }
    }

    /// Whether the cell holds a note or a note cut.
    pub open spec fn notes(self) -> bool {
        self.note != 0xFF && self.note != 0x00
    }

    pub fn has_note(&self) -> (r: bool)
        ensures
            r == self.notes(),
    {
        self.note != 0xFF && self.note != 0x00
    }

    pub fn note_is_cut(&self) -> (r: bool)
        ensures
            r == (self.note == 0xFE),
    {
        self.note == 0xFE
    }
}

impl Default for Cell {
    fn default() -> (r: Self)
        ensures
            r == (Cell { note: 0, instrument: 0, volume: 0, command: 0, info: 0 }),
    {
        Cell { note: 0, instrument: 0, volume: 0, command: 0, info: 0 }
    }
}

/// Decoded pattern: 64 rows of one cell per channel.
#[derive(Clone, Debug)]
pub struct Pattern {
    /// `rows[row][channel]`
    pub rows: Vec<Vec<Cell>>,
}

impl View for Pattern {
    type V = Seq<Seq<Cell>>;

    open spec fn view(&self) -> Seq<Seq<Cell>> {
        Seq::new(self.rows@.len(), |i: int| self.rows@[i]@)
    }
}

/// One row of `channels` empty cells.
pub open spec fn blank_row(channels: nat) -> Seq<Cell> {
    Seq::new(channels, |c: int| Cell::blank())
}

/// 64 empty rows.
pub open spec fn blank_pattern(channels: nat) -> Seq<Seq<Cell>> {
    Seq::new(64, |r: int| blank_row(channels))
}

/// Whether a pattern has 64 rows of `channels` cells each.
pub open spec fn has_shape(grid: Seq<Seq<Cell>>, channels: nat) -> bool {
    grid.len() == 64 && forall|r: int| 0 <= r < 64 ==> (#[trigger] grid[r]).len() == channels
}

/// How many bytes precede the volume of a record with these flags.
pub open spec fn volume_at(flags: u8) -> int {
    if has_bit(flags as int, 32) {
        3
    } else {
        1
    }
}

/// How many bytes precede the command of a record with these flags.
pub open spec fn command_at(flags: u8) -> int {
    volume_at(flags) + if has_bit(flags as int, 64) {
        1int
    } else {
        0
    }
}

/// How many bytes a record with these flags takes.
pub open spec fn record_len(flags: u8) -> int {
    command_at(flags) + if has_bit(flags as int, 128) {
        2int
    } else {
        0
    }
}

/// The cell that the record at the head of `rec` describes; what the record
/// leaves out is as in an empty cell.
pub open spec fn record_cell(rec: Seq<u8>) -> Cell {
    let flags = rec[0];
    Cell {
        note: if has_bit(flags as int, 32) {
            rec[1]
        } else {
            0xFF
        },
        instrument: if has_bit(flags as int, 32) {
            rec[2]
        } else {
            0
        },
        volume: if has_bit(flags as int, 64) {
            rec[volume_at(flags)]
        } else {
            0xFF
        },
        command: if has_bit(flags as int, 128) {
            rec[command_at(flags)]
        } else {
            0
        },
        info: if has_bit(flags as int, 128) {
            rec[command_at(flags) + 1]
        } else {
            0
        },
    }
}

/// `grid` with the cell at `row` and `channel` replaced; a channel past the
/// end of the row is ignored.
pub open spec fn with_cell(grid: Seq<Seq<Cell>>, row: int, channel: int, cell: Cell) -> Seq<
    Seq<Cell>,
> {
    if 0 <= row < grid.len() && channel < grid[row].len() {
        grid.update(row, grid[row].update(channel, cell))
    } else {
        grid
    }
}

/// The pattern `grid` after the packed rows in `body` are entered from
/// `row` on. Unpacking stops after row 63, at the end of the bytes, or at a
/// record that is cut short.
pub open spec fn with_packed_rows(grid: Seq<Seq<Cell>>, body: Seq<u8>, row: int) -> Seq<Seq<Cell>>
    decreases body.len(),
{
    if row >= 64 || body.len() == 0 {
        grid
    } else if body[0] == 0 {
        with_packed_rows(grid, body.skip(1), row + 1)
    } else if body.len() < record_len(body[0]) {
        grid
    } else {
        with_packed_rows(
            with_cell(grid, row, body[0] as int % 32, record_cell(body)),
            body.skip(record_len(body[0])),
            row,
        )
    }
}

/// The packed rows of the pattern at `offset`: what its length word covers,
/// as far as the file goes.
pub open spec fn packed_body(b: Seq<u8>, offset: int) -> Seq<u8> {
    if offset + 2 > b.len() {
        Seq::empty()
    } else {
        let end = if offset + u16_at(b, offset) < b.len() {
            offset + u16_at(b, offset)
        } else {
            b.len() as int
        };
        if end <= offset + 2 {
            Seq::empty()
        } else {
            b.subrange(offset + 2, end)
        }
    }
}

/// The pattern at `offset`.
pub open spec fn pattern_at(b: Seq<u8>, offset: int, channels: nat) -> Seq<Seq<Cell>> {
    with_packed_rows(blank_pattern(channels), packed_body(b, offset), 0)
}

impl Pattern {
    pub fn empty(channels: usize) -> (r: Self)
        ensures
            r@ == blank_pattern(channels as nat),
    {
        let mut rows: Vec<Vec<Cell>> = Vec::new();
        let mut row: usize = 0;
        while row < PATTERN_ROWS
            invariant
                row <= 64,
                rows@.len() == row,
                forall|i: int| 0 <= i < row ==> (#[trigger] rows@[i])@ == blank_row(channels as nat),
            decreases 64 - row,
        {
            let mut cells: Vec<Cell> = Vec::new();
            let mut channel: usize = 0;
            while channel < channels
                invariant
                    channel <= channels,
                    cells@.len() == channel,
                    forall|i: int| 0 <= i < channel ==> cells@[i] == Cell::blank(),
                decreases channels - channel,
            {
                cells.push(Cell::empty());
                channel = channel + 1;
            }
            assert(cells@ == blank_row(channels as nat));
            rows.push(cells);
            row = row + 1;
        }
        let r = Pattern { rows };
        assert(r@ == blank_pattern(channels as nat));
        r
    }

    /// Replace the cell at `row` and `channel`, where the row has it.
    fn put(&mut self, row: usize, channel: usize, cell: Cell)
        requires
            row < old(self)@.len(),
        ensures
            final(self)@ == with_cell(old(self)@, row as int, channel as int, cell),
    {
        let ghost before = self@;
        assert(before[row as int] == self.rows@[row as int]@);
        if channel < self.rows[row].len() {
            self.rows[row][channel] = cell;
        }
        assert(self@ == with_cell(before, row as int, channel as int, cell));
    }
}

/// The cell that the record at the head of `rec` describes.
fn read_record(rec: &[u8]) -> (r: Cell)
    requires
        rec@.len() > 0,
        rec@.len() >= record_len(rec@[0]),
    ensures
        r == record_cell(rec@),
{
    let flags: u8 = rec[0];
    let mut cell = Cell::empty();
    let mut pos: usize = 1;
    if (flags / 0x20) % 2 == 1 {
        cell.note = rec[pos];
        cell.instrument = rec[pos + 1];
        pos = pos + 2;
    }
    if (flags / 0x40) % 2 == 1 {
        cell.volume = rec[pos];
        pos = pos + 1;
    }
    if (flags / 0x80) % 2 == 1 {
        cell.command = rec[pos];
        cell.info = rec[pos + 1];
    }
    cell
}

/// How many bytes a record with these flags takes.
fn packed_record_len(flags: u8) -> (r: usize)
    ensures
        r == record_len(flags),
        1 <= r <= 6,
{
    let mut n: usize = 1;
    if (flags / 0x20) % 2 == 1 {
        n = n + 2;
    }
    if (flags / 0x40) % 2 == 1 {
        n = n + 1;
    }
    if (flags / 0x80) % 2 == 1 {
        n = n + 2;
    }
    n
}

/// Unpack one pattern from a byte buffer. `offset` points at the 2-byte
/// length word.
pub fn unpack_pattern(bytes: &[u8], offset: usize, channels: usize) -> (r: Pattern)
    ensures
        r@ == pattern_at(bytes@, offset as int, channels as nat),
{
    let mut pat = Pattern::empty(channels);
    if bytes.len() < 2 || offset > bytes.len() - 2 {
        return pat;
    }
    let length: usize = read_u16_le(bytes, offset) as usize;
    let end: usize = if length < bytes.len() - offset {
        offset + length
    } else {
        bytes.len()
    };
    if end <= offset + 2 {
        return pat;
    }
    let body = slice_subrange(bytes, offset + 2, end);
    assert(body@ == packed_body(bytes@, offset as int));
    let mut pos: usize = 0;
    let mut row: usize = 0;
    assert(body@.skip(0) == body@);
    while row < PATTERN_ROWS && pos < body.len()
        invariant_except_break
            row <= 64,
            pos <= body@.len(),
            pat@.len() == 64,
            with_packed_rows(pat@, body@.skip(pos as int), row as int) == with_packed_rows(
                blank_pattern(channels as nat),
                body@,
                0,
            ),
        ensures
            pat@ == with_packed_rows(blank_pattern(channels as nat), body@, 0),
        decreases body@.len() - pos,
    {
        let ghost rest = body@.skip(pos as int);
        let flags: u8 = body[pos];
        assert(rest[0] == flags);
        if flags == 0 {
            assert(rest.skip(1) == body@.skip(pos + 1));
            row = row + 1;
            pos = pos + 1;
        } else {
            let taken: usize = packed_record_len(flags);
            if taken > body.len() - pos {
                break;
            }
            let rec = slice_subrange(body, pos, body.len());
            assert(rec@ == rest);
            let cell = read_record(rec);
            pat.put(row, (flags % 32) as usize, cell);
            assert(rest.skip(taken as int) == body@.skip(pos + taken));
            pos = pos + taken;
        }
    }
    pat
}

/// The patterns of a module whose pattern table holds `offsets`. Offset 0
/// stands for a pattern that the file leaves out, and gives a blank one.
pub open spec fn patterns_at(b: Seq<u8>, offsets: Seq<u32>) -> Seq<Seq<Seq<Cell>>> {
    Seq::new(
        offsets.len(),
        |i: int|
            if offsets[i] == 0 {
                blank_pattern(32)
            } else {
                pattern_at(b, offsets[i] as int, 32)
            },
    )
}

/// The cells of each pattern of a list.
pub open spec fn grids(patterns: Seq<Pattern>) -> Seq<Seq<Seq<Cell>>> {
    Seq::new(patterns.len(), |i: int| patterns[i]@)
}

/// Unpack every pattern referenced by the header.
pub fn unpack_all(header: &S3mHeader, bytes: &[u8]) -> (r: Vec<Pattern>)
    ensures
        grids(r@) == patterns_at(bytes@, header.pattern_offsets@),
{
    let mut patterns: Vec<Pattern> = Vec::new();
    let mut i: usize = 0;
    while i < header.pattern_offsets.len()
        invariant
            i <= header.pattern_offsets@.len(),
            patterns@.len() == i,
            forall|j: int|
                0 <= j < i ==> (#[trigger] patterns@[j])@ == patterns_at(
                    bytes@,
                    header.pattern_offsets@,
                )[j],
        decreases header.pattern_offsets@.len() - i,
    {
        let off: u32 = header.pattern_offsets[i];
        if off == 0 {
            patterns.push(Pattern::empty(CHANNEL_COUNT));
        } else {
            patterns.push(unpack_pattern(bytes, off as usize, CHANNEL_COUNT));
        }
        i = i + 1;
    }
    assert(grids(patterns@) == patterns_at(bytes@, header.pattern_offsets@));
    patterns
}

proof fn lemma_packed_rows_keep_shape(
    grid: Seq<Seq<Cell>>,
    body: Seq<u8>,
    row: int,
    channels: nat,
)
    requires
        has_shape(grid, channels),
    ensures
        has_shape(with_packed_rows(grid, body, row), channels),
    decreases body.len(),
{
    if row >= 64 || body.len() == 0 {
    } else if body[0] == 0 {
        lemma_packed_rows_keep_shape(grid, body.skip(1), row + 1, channels);
    } else if body.len() >= record_len(body[0]) {
        lemma_packed_rows_keep_shape(
            with_cell(grid, row, body[0] as int % 32, record_cell(body)),
            body.skip(record_len(body[0])),
            row,
            channels,
        );
    }
}

/// Whatever the bytes, an unpacked pattern has 64 rows with a cell for
/// every channel.
pub proof fn law_unpacked_pattern_is_complete(b: Seq<u8>, offset: int, channels: nat)
    ensures
        has_shape(pattern_at(b, offset, channels), channels),
{
    lemma_packed_rows_keep_shape(blank_pattern(channels), packed_body(b, offset), 0, channels);
}

/// Entering packed rows from `row` on leaves the rows before it alone.
pub proof fn law_earlier_rows_stay(grid: Seq<Seq<Cell>>, body: Seq<u8>, row: int, r: int)
    requires
        0 <= r < row,
        r < grid.len(),
    ensures
        with_packed_rows(grid, body, row).len() == grid.len(),
        with_packed_rows(grid, body, row)[r] == grid[r],
    decreases body.len(),
{
    if row >= 64 || body.len() == 0 {
    } else if body[0] == 0 {
        law_earlier_rows_stay(grid, body.skip(1), row + 1, r);
    } else if body.len() >= record_len(body[0]) {
        law_earlier_rows_stay(
            with_cell(grid, row, body[0] as int % 32, record_cell(body)),
            body.skip(record_len(body[0])),
            row,
            r,
        );
    }
}

/// A record as a pattern is written with it: flags that say which fields
/// are there, and the cell that they make up.
pub struct PackedCell {
    pub flags: u8,
    pub cell: Cell,
}

impl PackedCell {
    /// The channel that the record is for.
    pub open spec fn channel(self) -> int {
        self.flags as int % 32
    }

    /// Whether the record can be written: its flags are not the end of a
    /// row, and the fields that it leaves out are as in an empty cell.
    pub open spec fn valid(self) -> bool {
        &&& self.flags != 0
        &&& !has_bit(self.flags as int, 32) ==> self.cell.note == 0xFF && self.cell.instrument == 0
        &&& !has_bit(self.flags as int, 64) ==> self.cell.volume == 0xFF
        &&& !has_bit(self.flags as int, 128) ==> self.cell.command == 0 && self.cell.info == 0
    }

    /// The bytes of the record.
    pub open spec fn packed(self) -> Seq<u8> {
        seq![self.flags] + (if has_bit(self.flags as int, 32) {
            seq![self.cell.note, self.cell.instrument]
        } else {
            Seq::empty()
        }) + (if has_bit(self.flags as int, 64) {
            seq![self.cell.volume]
        } else {
            Seq::empty()
        }) + (if has_bit(self.flags as int, 128) {
            seq![self.cell.command, self.cell.info]
        } else {
            Seq::empty()
        })
    }
}

/// The bytes of the records of a row.
pub open spec fn packed_records(records: Seq<PackedCell>) -> Seq<u8>
    decreases records.len(),
{
    if records.len() == 0 {
        Seq::empty()
    } else {
        records[0].packed() + packed_records(records.drop_first())
    }
}

/// The bytes of a list of rows, each closed by a zero.
pub open spec fn packed_rows(rows: Seq<Seq<PackedCell>>) -> Seq<u8>
    decreases rows.len(),
{
    if rows.len() == 0 {
        Seq::empty()
    } else {
        packed_records(rows[0]) + seq![0u8] + packed_rows(rows.drop_first())
    }
}

/// Whether every record of every row can be written, and no row names a
/// channel twice.
pub open spec fn writable(rows: Seq<Seq<PackedCell>>) -> bool {
    &&& rows.len() <= 64
    &&& forall|r: int, i: int|
        0 <= r < rows.len() && 0 <= i < rows[r].len() ==> (#[trigger] rows[r][i]).valid()
    &&& forall|r: int, i: int, j: int|
        0 <= r < rows.len() && 0 <= i < j < rows[r].len() ==> (#[trigger] rows[r][i]).channel()
            != (#[trigger] rows[r][j]).channel()
}

/// Whether a row has a record for a channel.
pub open spec fn names_channel(records: Seq<PackedCell>, channel: int) -> bool {
    exists|i: int| 0 <= i < records.len() && (#[trigger] records[i]).channel() == channel
}

/// Whether `grid` holds the records of `rows`, each at its row and channel,
/// and empty cells everywhere else. Records for channels that the grid does
/// not have leave no trace.
pub open spec fn holds_rows(grid: Seq<Seq<Cell>>, rows: Seq<Seq<PackedCell>>, channels: nat) -> bool {
    &&& has_shape(grid, channels)
    &&& forall|r: int, i: int|
        0 <= r < rows.len() && 0 <= i < rows[r].len() && rows[r][i].channel() < channels
            ==> grid[r][(#[trigger] rows[r][i]).channel()] == rows[r][i].cell
    &&& forall|r: int, c: int|
        0 <= r < 64 && 0 <= c < channels && (r >= rows.len() || !names_channel(rows[r], c))
            ==> #[trigger] grid[r][c] == Cell::blank()
}

/// `grid` with the records of a row entered one by one.
spec fn with_records(grid: Seq<Seq<Cell>>, records: Seq<PackedCell>, row: int) -> Seq<Seq<Cell>>
    decreases records.len(),
{
    if records.len() == 0 {
        grid
    } else {
        with_records(
            with_cell(grid, row, records[0].channel(), records[0].cell),
            records.drop_first(),
            row,
        )
    }
}

/// `grid` with rows of records entered from `row` on.
spec fn with_rows(grid: Seq<Seq<Cell>>, rows: Seq<Seq<PackedCell>>, row: int) -> Seq<Seq<Cell>>
    decreases rows.len(),
{
    if rows.len() == 0 {
        grid
    } else {
        with_rows(with_records(grid, rows[0], row), rows.drop_first(), row + 1)
    }
}

proof fn lemma_record_reads_back(record: PackedCell, tail: Seq<u8>)
    requires
        record.valid(),
    ensures
        (record.packed() + tail)[0] == record.flags,
        record.packed().len() == record_len(record.flags),
        record_cell(record.packed() + tail) == record.cell,
        (record.packed() + tail).skip(record_len(record.flags)) == tail,
{
    let body = record.packed() + tail;
    assert(body.skip(record_len(record.flags)) == tail);
}

proof fn lemma_records_read_back(
    grid: Seq<Seq<Cell>>,
    records: Seq<PackedCell>,
    tail: Seq<u8>,
    row: int,
)
    requires
        row < 64,
        forall|i: int| 0 <= i < records.len() ==> (#[trigger] records[i]).valid(),
    ensures
        with_packed_rows(grid, packed_records(records) + tail, row) == with_packed_rows(
            with_records(grid, records, row),
            tail,
            row,
        ),
    decreases records.len(),
{
    if records.len() == 0 {
        assert(packed_records(records) + tail == tail);
    } else {
        let first = records[0];
        let rest = records.drop_first();
        let after = packed_records(rest) + tail;
        assert(packed_records(records) + tail == first.packed() + after);
        lemma_record_reads_back(first, after);
        assert forall|i: int| 0 <= i < rest.len() implies (#[trigger] rest[i]).valid() by {
            assert(rest[i] == records[i + 1]);
        }
        lemma_records_read_back(
            with_cell(grid, row, first.channel(), first.cell),
            rest,
            tail,
            row,
        );
    }
}

proof fn lemma_rows_read_back(grid: Seq<Seq<Cell>>, rows: Seq<Seq<PackedCell>>, row: int)
    requires
        0 <= row,
        row + rows.len() <= 64,
        forall|r: int, i: int|
            0 <= r < rows.len() && 0 <= i < rows[r].len() ==> (#[trigger] rows[r][i]).valid(),
    ensures
        with_packed_rows(grid, packed_rows(rows), row) == with_rows(grid, rows, row),
    decreases rows.len(),
{
    if rows.len() > 0 {
        let rest = rows.drop_first();
        let tail = seq![0u8] + packed_rows(rest);
        let entered = with_records(grid, rows[0], row);
        assert(packed_rows(rows) == packed_records(rows[0]) + tail);
        assert forall|i: int| 0 <= i < rows[0].len() implies (#[trigger] rows[0][i]).valid() by {}
        lemma_records_read_back(grid, rows[0], tail, row);
        assert(tail[0] == 0);
        assert(tail.skip(1) == packed_rows(rest));
        assert forall|r: int, i: int|
            0 <= r < rest.len() && 0 <= i < rest[r].len() implies (#[trigger] rest[r][i]).valid() by {
            assert(rest[r][i] == rows[r + 1][i]);
        }
        lemma_rows_read_back(entered, rest, row + 1);
    }
}

/// What entering records leaves in the grid: each record's cell in its
/// channel, and everything else as it was.
proof fn lemma_records_land(
    grid: Seq<Seq<Cell>>,
    records: Seq<PackedCell>,
    row: int,
    channels: nat,
)
    requires
        has_shape(grid, channels),
        0 <= row < 64,
        forall|i: int, j: int|
            0 <= i < j < records.len() ==> (#[trigger] records[i]).channel() != (
            #[trigger] records[j]).channel(),
    ensures
        has_shape(with_records(grid, records, row), channels),
        forall|r: int|
            0 <= r < 64 && r != row ==> #[trigger] with_records(grid, records, row)[r] == grid[r],
        forall|i: int|
            0 <= i < records.len() && records[i].channel() < channels ==> with_records(
                grid,
                records,
                row,
            )[row][(#[trigger] records[i]).channel()] == records[i].cell,
        forall|c: int|
            0 <= c < channels && !names_channel(records, c) ==> #[trigger] with_records(
                grid,
                records,
                row,
            )[row][c] == grid[row][c],
    decreases records.len(),
{
    if records.len() > 0 {
        let first = records[0];
        let rest = records.drop_first();
        let next = with_cell(grid, row, first.channel(), first.cell);
        let end = with_records(next, rest, row);
        assert(has_shape(next, channels));
        assert forall|i: int, j: int| 0 <= i < j < rest.len() implies (
        #[trigger] rest[i]).channel() != (#[trigger] rest[j]).channel() by {
            assert(rest[i] == records[i + 1] && rest[j] == records[j + 1]);
        }
        lemma_records_land(next, rest, row, channels);
        assert(!names_channel(rest, first.channel())) by {
            if names_channel(rest, first.channel()) {
                let i = choose|i: int|
                    0 <= i < rest.len() && (#[trigger] rest[i]).channel() == first.channel();
                assert(rest[i] == records[i + 1]);
                assert(records[0].channel() != records[i + 1].channel());
            }
        }
        assert forall|i: int|
            0 <= i < records.len() && records[i].channel() < channels implies end[row][(
        #[trigger] records[i]).channel()] == records[i].cell by {
            if i == 0 {
                assert(end[row][first.channel()] == next[row][first.channel()]);
            } else {
                assert(rest[i - 1] == records[i]);
            }
        }
        assert forall|c: int|
            0 <= c < channels && !names_channel(records, c) implies #[trigger] end[row][c]
            == grid[row][c] by {
            assert(records[0].channel() != c);
            assert(!names_channel(rest, c)) by {
                if names_channel(rest, c) {
                    let i = choose|i: int|
                        0 <= i < rest.len() && (#[trigger] rest[i]).channel() == c;
                    assert(rest[i] == records[i + 1]);
                }
            }
        }
    }
}

proof fn lemma_rows_land(
    grid: Seq<Seq<Cell>>,
    rows: Seq<Seq<PackedCell>>,
    row: int,
    channels: nat,
)
    requires
        has_shape(grid, channels),
        0 <= row,
        row + rows.len() <= 64,
        forall|r: int, i: int, j: int|
            0 <= r < rows.len() && 0 <= i < j < rows[r].len() ==> (
            #[trigger] rows[r][i]).channel() != (#[trigger] rows[r][j]).channel(),
    ensures
        has_shape(with_rows(grid, rows, row), channels),
        forall|r: int|
            0 <= r < 64 && !(row <= r < row + rows.len()) ==> #[trigger] with_rows(
                grid,
                rows,
                row,
            )[r] == grid[r],
        forall|r: int|
            0 <= r < rows.len() ==> #[trigger] with_rows(grid, rows, row)[row + r]
                == with_records(grid, rows[r], row + r)[row + r],
    decreases rows.len(),
{
    if rows.len() > 0 {
        let rest = rows.drop_first();
        let next = with_records(grid, rows[0], row);
        let end = with_rows(next, rest, row + 1);
        lemma_records_land(grid, rows[0], row, channels);
        assert forall|r: int, i: int, j: int|
            0 <= r < rest.len() && 0 <= i < j < rest[r].len() implies (
        #[trigger] rest[r][i]).channel() != (#[trigger] rest[r][j]).channel() by {
            assert(rest[r][i] == rows[r + 1][i] && rest[r][j] == rows[r + 1][j]);
        }
        lemma_rows_land(next, rest, row + 1, channels);
        assert forall|r: int| 0 <= r < rows.len() implies #[trigger] end[row + r] == with_records(
            grid,
            rows[r],
            row + r,
        )[row + r] by {
            if r > 0 {
                assert(rest[r - 1] == rows[r]);
                assert(end[(row + 1) + (r - 1)] == with_records(
                    next,
                    rest[r - 1],
                    (row + 1) + (r - 1),
                )[(row + 1) + (r - 1)]);
                assert(next[row + r] == grid[row + r]);
                lemma_records_look_at_row(next, grid, rows[r], row + r);
            }
        }
    }
}

proof fn lemma_records_look_at_row(
    a: Seq<Seq<Cell>>,
    b: Seq<Seq<Cell>>,
    records: Seq<PackedCell>,
    row: int,
)
    requires
        a.len() == b.len(),
        0 <= row < a.len(),
        a[row] == b[row],
    ensures
        with_records(a, records, row)[row] == with_records(b, records, row)[row],
    decreases records.len(),
{
    if records.len() > 0 {
        lemma_records_look_at_row(
            with_cell(a, row, records[0].channel(), records[0].cell),
            with_cell(b, row, records[0].channel(), records[0].cell),
            records.drop_first(),
            row,
        );
    }
}

/// Rows that are written as packed records come back cell for cell: each
/// record's cell at its row and channel, and empty cells everywhere else.
pub proof fn law_packed_rows_read_back(rows: Seq<Seq<PackedCell>>, channels: nat)
    requires
        writable(rows),
    ensures
        holds_rows(
            with_packed_rows(blank_pattern(channels), packed_rows(rows), 0),
            rows,
            channels,
        ),
{
    let blank = blank_pattern(channels);
    let grid = with_rows(blank, rows, 0);
    lemma_rows_read_back(blank, rows, 0);
    lemma_rows_land(blank, rows, 0, channels);
    assert forall|r: int, i: int|
        0 <= r < rows.len() && 0 <= i < rows[r].len() && rows[r][i].channel()
            < channels implies grid[r][(#[trigger] rows[r][i]).channel()] == rows[r][i].cell by {
        lemma_row_of_law(rows, r, channels);
    }
    assert forall|r: int, c: int|
        0 <= r < 64 && 0 <= c < channels && (r >= rows.len() || !names_channel(
            rows[r],
            c,
        )) implies #[trigger] grid[r][c] == Cell::blank() by {
        assert(blank[r][c] == Cell::blank());
        if r < rows.len() {
            lemma_row_of_law(rows, r, channels);
        }
    }
}

proof fn lemma_row_of_law(rows: Seq<Seq<PackedCell>>, r: int, channels: nat)
    requires
        writable(rows),
        0 <= r < rows.len(),
    ensures
        ({
            let row = with_rows(blank_pattern(channels), rows, 0)[r];
            &&& forall|i: int|
                0 <= i < rows[r].len() && rows[r][i].channel() < channels ==> row[(
                #[trigger] rows[r][i]).channel()] == rows[r][i].cell
            &&& forall|c: int|
                0 <= c < channels && !names_channel(rows[r], c) ==> #[trigger] row[c]
                    == Cell::blank()
        }),
{
    let blank = blank_pattern(channels);
    lemma_rows_land(blank, rows, 0, channels);
    assert(with_rows(blank, rows, 0)[0 + r] == with_records(blank, rows[r], 0 + r)[0 + r]);
    lemma_records_land(blank, rows[r], r, channels);
}

/// A pattern whose length word covers packed rows holds those rows,
/// wherever in a file it stands.
pub proof fn law_packed_pattern_reads_back(
    b: Seq<u8>,
    offset: int,
    rows: Seq<Seq<PackedCell>>,
    channels: nat,
)
    requires
        writable(rows),
        0 <= offset,
        offset + 2 + packed_rows(rows).len() <= b.len(),
        u16_at(b, offset) == 2 + packed_rows(rows).len(),
        b.subrange(offset + 2, offset + 2 + packed_rows(rows).len()) == packed_rows(rows),
    ensures
        holds_rows(pattern_at(b, offset, channels), rows, channels),
{
    assert(packed_body(b, offset) == packed_rows(rows));
    law_packed_rows_read_back(rows, channels);
}

/// A pattern is what the bytes under its length word say: no other byte of
/// the file has a bearing on it.
pub proof fn law_pattern_rests_on_its_own_bytes(
    a: Seq<u8>,
    i: int,
    b: Seq<u8>,
    j: int,
    channels: nat,
)
    requires
        0 <= i,
        0 <= j,
        2 <= u16_at(a, i),
        i + u16_at(a, i) <= a.len(),
        j + u16_at(a, i) <= b.len(),
        a.subrange(i, i + u16_at(a, i)) == b.subrange(j, j + u16_at(a, i)),
    ensures
        pattern_at(a, i, channels) == pattern_at(b, j, channels),
{
    let n = u16_at(a, i);
    let x = a.subrange(i, i + n);
    let y = b.subrange(j, j + n);
    assert(x[0] == a[i] && x[1] == a[i + 1] && y[0] == b[j] && y[1] == b[j + 1]);
    assert(x.skip(2) == a.subrange(i + 2, i + n));
    assert(y.skip(2) == b.subrange(j + 2, j + n));
    assert(packed_body(a, i) == packed_body(b, j));
}

/// Every pattern of a module has 64 rows of 32 cells, and one at which
/// packed rows are written holds them on all 32 channels. A pattern that the
/// file leaves out is empty.
pub proof fn law_module_patterns(
    b: Seq<u8>,
    offsets: Seq<u32>,
    i: int,
    rows: Seq<Seq<PackedCell>>,
)
    requires
        0 <= i < offsets.len(),
    ensures
        patterns_at(b, offsets).len() == offsets.len(),
        patterns_at(b, offsets)[i].len() == 64,
        forall|r: int| 0 <= r < 64 ==> (#[trigger] patterns_at(b, offsets)[i][r]).len() == 32,
        offsets[i] == 0 ==> forall|r: int, c: int|
            0 <= r < 64 && 0 <= c < 32 ==> #[trigger] patterns_at(b, offsets)[i][r][c]
                == (Cell { note: 0xFF, instrument: 0, volume: 0xFF, command: 0, info: 0 }),
        writable(rows) && offsets[i] != 0 && offsets[i] + 2 + packed_rows(rows).len() <= b.len()
            && b[offsets[i] as int] + 256 * b[offsets[i] + 1] == 2 + packed_rows(rows).len()
            && b.subrange(offsets[i] + 2, offsets[i] + 2 + packed_rows(rows).len()) == packed_rows(
            rows,
        ) ==> holds_rows(patterns_at(b, offsets)[i], rows, 32),
{
    law_unpacked_pattern_is_complete(b, offsets[i] as int, 32);
    let grid = patterns_at(b, offsets)[i];
    assert(has_shape(grid, 32));
    assert(forall|r: int| 0 <= r < 64 ==> (#[trigger] grid[r]).len() == 32);
    if writable(rows) && offsets[i] != 0 && offsets[i] + 2 + packed_rows(rows).len() <= b.len()
        && b[offsets[i] as int] + 256 * b[offsets[i] + 1] == 2 + packed_rows(rows).len()
        && b.subrange(offsets[i] + 2, offsets[i] + 2 + packed_rows(rows).len()) == packed_rows(
        rows,
    ) {
        law_packed_pattern_reads_back(b, offsets[i] as int, rows, 32);
    }
}

/// A record of all six bytes, closed by the end of its row, puts note,
/// instrument, volume, command and parameter in this order into the cell of
/// the channel that its low five bits name, whatever comes after.
pub proof fn law_full_record_lands(
    grid: Seq<Seq<Cell>>,
    row: int,
    channel: int,
    fields: Seq<u8>,
    rest: Seq<u8>,
)
    requires
        0 <= row < 64,
        grid.len() == 64,
        0 <= channel < 32,
        channel < grid[row].len(),
        fields.len() == 5,
    ensures
        with_packed_rows(
            grid,
            seq![(0xE0 + channel) as u8] + fields + seq![0u8] + rest,
            row,
        )[row] == grid[row].update(
            channel,
            Cell {
                note: fields[0],
                instrument: fields[1],
                volume: fields[2],
                command: fields[3],
                info: fields[4],
            },
        ),
{
    let flags = (0xE0 + channel) as u8;
    let cell = Cell {
        note: fields[0],
        instrument: fields[1],
        volume: fields[2],
        command: fields[3],
        info: fields[4],
    };
    lemma_lone_record(grid, row, flags, fields, rest, cell);
}

/// A record without a field leaves it as in an empty cell and has the later
/// ones follow at once: 0x20 stands for note and instrument, 0x40 for the
/// volume, 0x80 for command and parameter.
pub proof fn law_partial_record_lands(
    grid: Seq<Seq<Cell>>,
    row: int,
    channel: int,
    fields: Seq<u8>,
    rest: Seq<u8>,
)
    requires
        0 <= row < 64,
        grid.len() == 64,
        0 < channel < 32,
        channel < grid[row].len(),
    ensures
        fields.len() == 2 ==> with_packed_rows(
            grid,
            seq![(0x20 + channel) as u8] + fields + seq![0u8] + rest,
            row,
        )[row] == grid[row].update(
            channel,
            Cell {
                note: fields[0],
                instrument: fields[1],
                volume: 0xFF,
                command: 0,
                info: 0,
            },
        ),
        fields.len() == 1 ==> with_packed_rows(
            grid,
            seq![(0x40 + channel) as u8] + fields + seq![0u8] + rest,
            row,
        )[row] == grid[row].update(
            channel,
            Cell { note: 0xFF, instrument: 0, volume: fields[0], command: 0, info: 0 },
        ),
        fields.len() == 2 ==> with_packed_rows(
            grid,
            seq![(0x80 + channel) as u8] + fields + seq![0u8] + rest,
            row,
        )[row] == grid[row].update(
            channel,
            Cell {
                note: 0xFF,
                instrument: 0,
                volume: 0xFF,
                command: fields[0],
                info: fields[1],
            },
        ),
        fields.len() == 3 ==> with_packed_rows(
            grid,
            seq![(0x60 + channel) as u8] + fields + seq![0u8] + rest,
            row,
        )[row] == grid[row].update(
            channel,
            Cell {
                note: fields[0],
                instrument: fields[1],
                volume: fields[2],
                command: 0,
                info: 0,
            },
        ),
        fields.len() == 4 ==> with_packed_rows(
            grid,
            seq![(0xA0 + channel) as u8] + fields + seq![0u8] + rest,
            row,
        )[row] == grid[row].update(
            channel,
            Cell {
                note: fields[0],
                instrument: fields[1],
                volume: 0xFF,
                command: fields[2],
                info: fields[3],
            },
        ),
        fields.len() == 3 ==> with_packed_rows(
            grid,
            seq![(0xC0 + channel) as u8] + fields + seq![0u8] + rest,
            row,
        )[row] == grid[row].update(
            channel,
            Cell {
                note: 0xFF,
                instrument: 0,
                volume: fields[0],
                command: fields[1],
                info: fields[2],
            },
        ),
        fields.len() == 0 ==> with_packed_rows(
            grid,
            seq![channel as u8] + fields + seq![0u8] + rest,
            row,
        )[row] == grid[row].update(
            channel,
            Cell { note: 0xFF, instrument: 0, volume: 0xFF, command: 0, info: 0 },
        ),
{
    let blank = Cell { note: 0xFF, instrument: 0, volume: 0xFF, command: 0, info: 0 };
    if fields.len() == 0 {
        lemma_lone_record(grid, row, channel as u8, fields, rest, blank);
    } else if fields.len() == 1 {
        lemma_lone_record(
            grid,
            row,
            (0x40 + channel) as u8,
            fields,
            rest,
            Cell { volume: fields[0], ..blank },
        );
    } else if fields.len() == 2 {
        lemma_lone_record(
            grid,
            row,
            (0x20 + channel) as u8,
            fields,
            rest,
            Cell { note: fields[0], instrument: fields[1], ..blank },
        );
        lemma_lone_record(
            grid,
            row,
            (0x80 + channel) as u8,
            fields,
            rest,
            Cell { command: fields[0], info: fields[1], ..blank },
        );
    } else if fields.len() == 3 {
        lemma_lone_record(
            grid,
            row,
            (0x60 + channel) as u8,
            fields,
            rest,
            Cell { note: fields[0], instrument: fields[1], volume: fields[2], ..blank },
        );
        lemma_lone_record(
            grid,
            row,
            (0xC0 + channel) as u8,
            fields,
            rest,
            Cell { volume: fields[0], command: fields[1], info: fields[2], ..blank },
        );
    } else if fields.len() == 4 {
        lemma_lone_record(
            grid,
            row,
            (0xA0 + channel) as u8,
            fields,
            rest,
            Cell {
                note: fields[0],
                instrument: fields[1],
                command: fields[2],
                info: fields[3],
                ..blank
            },
        );
    }
}

proof fn lemma_lone_record(
    grid: Seq<Seq<Cell>>,
    row: int,
    flags: u8,
    fields: Seq<u8>,
    rest: Seq<u8>,
    cell: Cell,
)
    requires
        0 <= row < 64,
        grid.len() == 64,
        flags != 0,
        flags as int % 32 < grid[row].len(),
        record_len(flags) == 1 + fields.len(),
        record_cell(seq![flags] + fields) == cell,
    ensures
        with_packed_rows(grid, seq![flags] + fields + seq![0u8] + rest, row)[row]
            == grid[row].update(flags as int % 32, cell),
{
    let body = seq![flags] + fields + seq![0u8] + rest;
    let head = seq![flags] + fields;
    let tail = seq![0u8] + rest;
    assert(forall|i: int| 0 <= i < head.len() ==> body[i] == head[i]);
    assert(record_cell(body) == cell);
    assert(body.skip(record_len(flags)) == tail);
    assert(tail.skip(1) == rest);
    let next = with_cell(grid, row, flags as int % 32, cell);
    assert(with_packed_rows(grid, body, row) == with_packed_rows(next, tail, row));
    assert(with_packed_rows(next, tail, row) == with_packed_rows(next, rest, row + 1));
    law_earlier_rows_stay(next, rest, row + 1, row);
}

/// A zero byte ends a row: what follows it is of the rows below.
pub proof fn law_zero_ends_row(grid: Seq<Seq<Cell>>, rest: Seq<u8>, row: int)
    requires
        0 <= row < 63,
        grid.len() == 64,
    ensures
        with_packed_rows(grid, seq![0u8] + rest, row) == with_packed_rows(grid, rest, row + 1),
        with_packed_rows(grid, seq![0u8] + rest, row)[row] == grid[row],
        with_packed_rows(grid, rest, 64) == grid,
{
    assert((seq![0u8] + rest).skip(1) == rest);
    law_earlier_rows_stay(grid, rest, row + 1, row);
}

/// A record that is cut short by the end of the bytes is dropped, and so is
/// one for a channel that the pattern does not have.
pub proof fn law_incomplete_records_are_dropped(
    grid: Seq<Seq<Cell>>,
    row: int,
    channel: int,
    fields: Seq<u8>,
    rest: Seq<u8>,
)
    requires
        0 <= row < 64,
        grid.len() == 64,
        0 <= channel < 32,
    ensures
        fields.len() < 5 ==> with_packed_rows(grid, seq![(0xE0 + channel) as u8] + fields, row)
            == grid,
        fields.len() == 5 && channel >= grid[row].len() ==> with_packed_rows(
            grid,
            seq![(0xE0 + channel) as u8] + fields + rest,
            row,
        ) == with_packed_rows(grid, rest, row),
{
    let flags = (0xE0 + channel) as u8;
    if fields.len() < 5 {
        let body = seq![flags] + fields;
        assert(body[0] == flags);
        assert(body.len() < record_len(flags));
    } else if fields.len() == 5 {
        let body = seq![flags] + fields + rest;
        assert(body[0] == flags);
        assert(record_len(flags) == 6);
        assert(body.skip(6) == rest);
    }
}

/// Of two records for one channel on a row the later one counts.
pub proof fn law_later_record_counts(
    grid: Seq<Seq<Cell>>,
    row: int,
    channel: int,
    first: Seq<u8>,
    second: Seq<u8>,
    rest: Seq<u8>,
)
    requires
        0 <= row < 64,
        grid.len() == 64,
        0 <= channel < 32,
        channel < grid[row].len(),
        first.len() == 5,
        second.len() == 5,
    ensures
        ({
            let flags = seq![(0xE0 + channel) as u8];
            let cell = with_packed_rows(
                grid,
                flags + first + (flags + second + seq![0u8] + rest),
                row,
            )[row][channel];
            &&& cell.note == second[0] && cell.instrument == second[1]
            &&& cell.volume == second[2] && cell.command == second[3] && cell.info == second[4]
        }),
{
    let flags = (0xE0 + channel) as u8;
    let tail = seq![flags] + second + seq![0u8] + rest;
    let body = seq![flags] + first + tail;
    assert(body[0] == flags);
    assert(record_len(flags) == 6);
    assert(body.skip(6) == tail);
    let next = with_cell(grid, row, channel, record_cell(body));
    assert(with_packed_rows(grid, body, row) == with_packed_rows(next, tail, row));
    law_full_record_lands(next, row, channel, second, rest);
}

} // verus!
