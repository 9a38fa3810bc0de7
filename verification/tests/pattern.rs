use oxideav_s3m::pattern::{unpack_pattern, Cell, Pattern};

#[test]
fn empty_row_terminator_is_skipped() {
    let mut buf = Vec::new();
    buf.extend_from_slice(&0u16.to_le_bytes());
    buf.push(0x00);
    buf.push(0x00);
    buf.push(0x60);
    buf.push(0x40);
    buf.push(1);
    buf.push(48);
    buf.push(0x00);
    let len = buf.len();
    buf[0..2].copy_from_slice(&(len as u16).to_le_bytes());

    let pat = unpack_pattern(&buf, 0, 32);
    assert_eq!(pat.rows.len(), 64);
    assert_eq!(pat.rows[2][0].note, 0x40);
    assert_eq!(pat.rows[2][0].instrument, 1);
    assert_eq!(pat.rows[2][0].volume, 48);
    assert_eq!(pat.rows[0][0].note, 0xFF);
}

#[test]
fn records_fill_the_cells_they_name() {
    // Channel 3 with everything, channel 5 with a command only, and a
    // channel that the pattern does not have.
    let body = [
        0xE3, 0x51, 2, 40, 4, 0x0F, 0x85, 1, 6, 0x7F, 0xFF, 1, 64, 0x00, 0x43, 12, 0x00,
    ];
    let mut buf = vec![0xAA, 0xAA];
    buf.extend_from_slice(&((2 + body.len()) as u16).to_le_bytes());
    buf.extend_from_slice(&body);
    let pat = unpack_pattern(&buf, 2, 8);
    let full = Cell { note: 0x51, instrument: 2, volume: 40, command: 4, info: 0x0F };
    assert_eq!(pat.rows[0][3], full);
    assert_eq!(pat.rows[0][5], Cell { command: 1, info: 6, ..Cell::empty() });
    assert_eq!(pat.rows[1][3], Cell { volume: 12, ..Cell::empty() });
    assert!(pat.rows.iter().all(|r| r.len() == 8));
}

#[test]
fn a_record_that_is_cut_short_ends_the_pattern() {
    let mut buf = vec![0u8; 2];
    buf.extend_from_slice(&[0x20, 0x40, 1, 0x00, 0xE0, 0x41, 2, 30]);
    let len = buf.len() as u16;
    buf[..2].copy_from_slice(&len.to_le_bytes());
    let pat = unpack_pattern(&buf, 0, 4);
    assert_eq!(pat.rows[0][0].note, 0x40);
    assert_eq!(pat.rows[1][0], Cell::empty());
}

#[test]
fn the_length_word_bounds_the_pattern() {
    // Length 2 covers nothing, and one past the file is cut to it.
    let none = unpack_pattern(&[2, 0, 0x20, 0x40, 1], 0, 4);
    assert_eq!(none.rows[0][0], Cell::empty());
    let cut = unpack_pattern(&[0xFF, 0xFF, 0x20, 0x40, 1], 0, 4);
    assert_eq!(cut.rows[0][0].note, 0x40);
    let past = unpack_pattern(&[2, 0], 1, 4);
    assert_eq!(past.rows.len(), 64);
    let far = unpack_pattern(&[], usize::MAX, 4);
    assert_eq!(far.rows[63][3], Cell::empty());
}

#[test]
fn rows_past_the_last_are_ignored() {
    let mut buf = vec![0u8; 2 + 64];
    buf.extend_from_slice(&[0x20, 0x40, 1]);
    let len = buf.len() as u16;
    buf[..2].copy_from_slice(&len.to_le_bytes());
    let pat = unpack_pattern(&buf, 0, 2);
    assert_eq!(pat.rows.len(), 64);
    assert!(pat.rows.iter().all(|r| r[0] == Cell::empty()));
}

#[test]
fn cells_tell_notes_from_cuts() {
    let mut cell = Cell::empty();
    assert!(!cell.has_note() && !cell.note_is_cut());
    cell.note = 0x40;
    assert!(cell.has_note() && !cell.note_is_cut());
    cell.note = 0xFE;
    assert!(cell.has_note() && cell.note_is_cut());
    cell.note = 0;
    assert!(!cell.has_note());
    assert_eq!(Cell::default().volume, 0);
    assert_eq!(Pattern::empty(3).rows[63].len(), 3);
}

#[test]
fn packed_rows_come_back_cell_for_cell() {
    let cell = |r: usize, c: usize| Cell {
        note: (r * 7 + c) as u8,
        instrument: c as u8,
        volume: r as u8,
        command: (r + c) as u8,
        info: (r * c) as u8,
    };
    // Rows of all 32 channels in turn, every third of them left out.
    let mut body = Vec::new();
    for r in 0..64 {
        for c in (0..32).rev() {
            if (r + c) % 3 != 0 {
                let x = cell(r, c);
                let flags = 0xE0 | c as u8;
                body.extend_from_slice(&[flags, x.note, x.instrument, x.volume, x.command, x.info]);
            }
        }
        body.push(0);
    }
    for (before, after) in [(0usize, 0usize), (5, 9)] {
        let mut buf = vec![0xEE; before];
        buf.extend_from_slice(&((2 + body.len()) as u16).to_le_bytes());
        buf.extend_from_slice(&body);
        buf.extend(vec![0x20u8; after]);
        for channels in [32usize, 10] {
            let pat = unpack_pattern(&buf, before, channels);
            for r in 0..64 {
                assert_eq!(pat.rows[r].len(), channels);
                for c in 0..channels {
                    let expected = if (r + c) % 3 != 0 { cell(r, c) } else { Cell::empty() };
                    assert_eq!(pat.rows[r][c], expected);
                }
            }
        }
    }
}
