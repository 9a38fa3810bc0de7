# oxideav-s3m

Scream Tracker 3 Module (S3M) decoding, verified with Verus.

`src/` is the verified library:

- `header` - file header, instruments, order and parapointer tables
- `pattern` - packed patterns
- `samples` - sample bodies: 8/16-bit, mono/stereo, DP30ADPCM
- `player` - channels, effects, order list, rows, ticks and frames
- `decoder` - one packet in, chunks of PCM out
- `opl2` - registers, operator core and envelope stages of the FM chip
- `bytes`, `error` - shared by the parsers

All of it is integer arithmetic. No function panics or reads out of bounds,
whatever bytes a file holds, and the contracts say what each one returns.
What holds across functions is stated by the `law_...` proof functions.

The player does not render. On each tick it leaves orders for the voices in
its channels (`NoteOp`, `PitchOp`); `app/` carries them out in floating
point, mixes, and registers container and codecs with oxideav.
