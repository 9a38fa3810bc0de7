//! Channel volumes: the 0..=63 range, the slides of Dxy, and the modifiers
//! of Qxy.

use vstd::prelude::*;

verus! {

/// Peak active volume of a PCM channel: setting the volume to 64 makes it
/// go to 63. The header's global volume keeps the full 0..=64 range.
pub const PCM_VOLUME_PEAK: u8 = 63;

/// The active volume that a candidate value gives.
pub open spec fn capped(v: int) -> int {
    if v < 0 {
        0
    } else if v > 63 {
        63
    } else {
        v
    }
}

/// Cap a candidate active volume to [`PCM_VOLUME_PEAK`].
pub fn clamp_pcm_volume(v: u16) -> (r: u8)
    ensures
        r == capped(v as int),
{
    if v > PCM_VOLUME_PEAK as u16 {
        PCM_VOLUME_PEAK
    } else {
        v as u8
    }
}

/// `vol` slid down by `amount`.
pub open spec fn lowered(vol: int, amount: int) -> int {
    if vol < amount {
        0
    } else {
        vol - amount
    }
}

/// Qxy "times 2/3" volume table (x == 6), which is not exactly `vol * 2 / 3`.
pub const Q_TWO_THIRDS: [u8; 64] = [
    0, 0, 1, 1, 2, 3, 3, 4, 5, 5, 6, 6, 7, 8, 8, 9, 10, 10, 11, 11, 12, 13, 13, 14, 15, 15, 16, 16,
    17, 18, 18, 19, 20, 20, 21, 21, 22, 23, 23, 24, 25, 25, 26, 26, 27, 28, 28, 29, 30, 30, 31, 31,
    32, 33, 33, 34, 35, 35, 36, 36, 37, 38, 38, 39,
];

/// The volume that modifier `x` of Qxy makes of `vol`: 1..=5 subtract, 6 and
/// 7 scale down, 9..=13 add, 14 and 15 scale up, 0 and 8 keep it.
pub open spec fn modified(vol: int, x: int) -> int {
    let v = capped(vol);
    if 1 <= x <= 5 {
        lowered(
            v,
            if x == 1 {
                1
            } else if x == 2 {
                2
            } else if x == 3 {
                4
            } else if x == 4 {
                8
            } else {
                16
            },
        )
    } else if x == 6 {
        Q_TWO_THIRDS[v] as int
    } else if x == 7 {
        v / 2
    } else if 9 <= x <= 13 {
        capped(
            v + if x == 9 {
                1
            } else if x == 10 {
                2
            } else if x == 11 {
                4
            } else if x == 12 {
                8
            } else {
                16int
            },
        )
    } else if x == 14 {
        capped(v * 3 / 2)
    } else if x == 15 {
        capped(v * 2)
    } else {
        v
    }
}

/// Apply the Qxy volume modifier `x` to an active volume.
pub fn retrigger_volume(vol: u8, x: u8) -> (r: u8)
    ensures
        r == modified(vol as int, x as int),
        r <= 63,
{
    let v: u8 = if vol < PCM_VOLUME_PEAK {
        vol
    } else {
        PCM_VOLUME_PEAK
    };
    match x {
        0x1 => v.saturating_sub(1),
        0x2 => v.saturating_sub(2),
        0x3 => v.saturating_sub(4),
        0x4 => v.saturating_sub(8),
        0x5 => v.saturating_sub(16),
        0x6 => Q_TWO_THIRDS[v as usize],
        0x7 => v / 2,
        0x9 => clamp_pcm_volume(v as u16 + 1),
        0xA => clamp_pcm_volume(v as u16 + 2),
        0xB => clamp_pcm_volume(v as u16 + 4),
        0xC => clamp_pcm_volume(v as u16 + 8),
        0xD => clamp_pcm_volume(v as u16 + 16),
        0xE => clamp_pcm_volume(v as u16 * 3 / 2),
        0xF => clamp_pcm_volume(v as u16 * 2),
        _ => v,
    }
}

/// Whether `(x, y)` is a fine volume slide (`DFy`, `DxF`, `DFF`), which runs
/// on tick 0 only. `D0F` and `DF0` slide on every tick and are not fine.
pub open spec fn is_fine(x: int, y: int) -> bool {
    x == 15 && y != 0 || y == 15 && x != 0
}

/// Whether `(x, y)` is a fine volume slide.
pub fn is_fine_volslide(x: u8, y: u8) -> (r: bool)
    ensures
        r == is_fine(x as int, y as int),
{
    (x == 0xF && y != 0) || (y == 0xF && x != 0)
}

/// The volume that Dxy sets on a tick after the first, if it sets one: `Dx0`
/// slides up; `D0y`, and `Dxy` with both nibbles set, slide down by `y`;
/// fine slides do nothing.
pub open spec fn slid(vol: int, x: int, y: int) -> Option<int> {
    if is_fine(x, y) || x == 0 && y == 0 {
        None
    } else if y == 0 {
        Some(capped(vol + x))
    } else {
        Some(lowered(vol, y))
    }
}

/// The volume that fast slides have Dxy set on tick 0, if it sets one. They
/// leave out whatever holds an `F`: fine slides, and `D0F` and `DF0`, which
/// slide on tick 0 in any case.
pub open spec fn slid_fast(vol: int, x: int, y: int) -> Option<int> {
    if x == 15 || y == 15 {
        None
    } else {
        slid(vol, x, y)
    }
}

/// The volume that Dxy sets on tick 0, if it sets one. Fine slides run here:
/// `DFF` and `DxF` up, `DFy` down. `DF0` and `D0F` slide on tick 0 as on any
/// other. The remaining slides do so only where slides are fast.
pub open spec fn slid_on_tick_zero(vol: int, x: int, y: int, fast: bool) -> Option<int> {
    if is_fine(x, y) {
        if y == 15 {
            Some(capped(vol + x))
        } else {
            Some(lowered(vol, y))
        }
    } else if x == 15 || y == 15 {
        slid(vol, x, y)
    } else if fast {
        slid_fast(vol, x, y)
    } else {
        None
    }
}

/// The volume that Dxy sets on a tick after the first, if it sets one.
pub fn slide_volume(vol: u8, x: u8, y: u8) -> (r: Option<u8>)
    ensures
        r is Some <==> slid(vol as int, x as int, y as int) is Some,
        r matches Some(v) ==> Some(v as int) == slid(vol as int, x as int, y as int),
{
    if is_fine_volslide(x, y) || (x == 0 && y == 0) {
        None
    } else if y == 0 {
        Some(clamp_pcm_volume(vol as u16 + x as u16))
    } else {
        Some(vol.saturating_sub(y))
    }
}

/// The volume that fast slides have Dxy set on tick 0, if it sets one.
pub fn fast_slide_volume(vol: u8, x: u8, y: u8) -> (r: Option<u8>)
    ensures
        r is Some <==> slid_fast(vol as int, x as int, y as int) is Some,
        r matches Some(v) ==> Some(v as int) == slid_fast(vol as int, x as int, y as int),
{
    if x == 0xF || y == 0xF {
        None
    } else {
        slide_volume(vol, x, y)
    }
}

/// The volume that Dxy sets on tick 0 where slides are not fast, if it sets
/// one.
pub fn slide_volume_on_tick_zero(vol: u8, x: u8, y: u8) -> (r: Option<u8>)
    ensures
        r is Some <==> slid_on_tick_zero(vol as int, x as int, y as int, false) is Some,
        r matches Some(v) ==> Some(v as int) == slid_on_tick_zero(
            vol as int,
            x as int,
            y as int,
            false,
        ),
{
    if is_fine_volslide(x, y) {
        if y == 0xF {
            Some(clamp_pcm_volume(vol as u16 + x as u16))
        } else {
            Some(vol.saturating_sub(y))
        }
    } else if x == 0xF || y == 0xF {
        slide_volume(vol, x, y)
    } else {
        None
    }
}

/// Whatever the modifier, a retriggered volume is an active volume.
pub proof fn law_modified_volume_in_range(vol: int, x: int)
    ensures
        0 <= modified(vol, x) <= PCM_VOLUME_PEAK,
{
}

/// A slide of an active volume gives an active volume.
pub proof fn law_slides_stay_in_range(vol: int, x: int, y: int, fast: bool)
    requires
        0 <= vol <= PCM_VOLUME_PEAK,
        0 <= x,
        0 <= y,
    ensures
        slid(vol, x, y) matches Some(v) ==> 0 <= v <= PCM_VOLUME_PEAK,
        slid_on_tick_zero(vol, x, y, fast) matches Some(v) ==> 0 <= v <= PCM_VOLUME_PEAK,
{
}

/// Fast slides change nothing for the fine slides or for `D0F` and `DF0`.
pub proof fn law_fast_slides_skip_fine_forms(vol: int, x: int, y: int)
    requires
        x == 15 || y == 15,
    ensures
        slid_fast(vol, x, y) is None,
        slid_on_tick_zero(vol, x, y, true) == slid_on_tick_zero(vol, x, y, false),
{
}

/// A fine slide moves the volume on tick 0 and on no other tick.
pub proof fn law_fine_slides_run_once(vol: int, x: int, y: int, fast: bool)
    requires
        is_fine(x, y),
    ensures
        slid_on_tick_zero(vol, x, y, fast) is Some,
        slid(vol, x, y) is None,
{
}

/// Dx0 raises the volume by `x`, as far as 63, and D0y lowers it by `y`, as
/// far as 0; both nibbles set lower it by `y` too. D00 does nothing.
pub proof fn law_volume_slides(vol: int, x: int, y: int)
    requires
        0 <= vol <= 63,
        0 <= x <= 15,
        0 <= y <= 15,
    ensures
        x > 0 && y == 0 ==> (slid(vol, x, y) matches Some(v) && vol <= v <= 63 && (v == vol + x
            || v == 63 && vol + x > 63)),
        y > 0 && (x == 0 || x < 15 && y < 15) ==> (slid(vol, x, y) matches Some(v) && 0 <= v <= vol
            && (v == vol - y || v == 0 && vol < y)),
        slid(vol, 0, 0) is None,
        x == 15 && y > 0 || y == 15 && x > 0 ==> slid(vol, x, y) is None,
{
}

/// On tick 0 DxF raises by `x` and DFy lowers by `y`, while a slide without
/// an F waits unless slides are fast; then it moves as on any other tick.
pub proof fn law_volume_slides_on_tick_zero(vol: int, x: int, y: int)
    requires
        0 <= vol <= 63,
        0 <= x <= 15,
        0 <= y <= 15,
    ensures
        y == 15 && x > 0 ==> (slid_on_tick_zero(vol, x, y, false) matches Some(v) && (v == vol + x
            || v == 63 && vol + x > 63)),
        x == 15 && 0 < y < 15 ==> (slid_on_tick_zero(vol, x, y, false) matches Some(v) && (v == vol
            - y || v == 0 && vol < y)),
        x < 15 && y < 15 ==> slid_on_tick_zero(vol, x, y, false) is None,
        x < 15 && y < 15 ==> slid_on_tick_zero(vol, x, y, true) == slid(vol, x, y),
        x == 15 && y == 0 ==> (slid_on_tick_zero(vol, x, y, false) matches Some(v) && (v == vol + 15
            || v == 63 && vol > 48)),
        x == 0 && y == 15 ==> (slid_on_tick_zero(vol, x, y, false) matches Some(v) && (v == vol - 15
            || v == 0 && vol < 15)),
{
}

/// The modifiers of Qxy: 1..=5 take away 1, 2, 4, 8 and 16, 9..=13 add as
/// much, 7 halves, 15 doubles, 14 makes it half as much again, 6 takes about
/// a third away, and 0 and 8 keep it; all between 0 and 63.
pub proof fn law_retrigger_modifiers(vol: int, down: int, up: int)
    requires
        0 <= vol <= 63,
        1 <= down <= 5,
        up == down + 8,
    ensures
        modified(vol, 1) == vol - 1 || vol == 0 && modified(vol, 1) == 0,
        down < 5 && modified(vol, down + 1) > 0 ==> vol - modified(vol, down + 1) == 2 * (vol
            - modified(vol, down)),
        modified(vol, down) > 0 ==> modified(modified(vol, down), up) == vol,
        modified(vol, up) < 63 ==> modified(modified(vol, up), down) == vol,
        modified(vol, 5) == 0 <==> vol <= 16,
        modified(vol, 13) == 63 <==> vol >= 47,
        vol - 1 <= 2 * modified(vol, 7) <= vol,
        modified(vol, 15) == 2 * vol || 2 * vol > 63 && modified(vol, 15) == 63,
        3 * vol - 1 <= 2 * modified(vol, 14) <= 3 * vol || 3 * vol > 126 && modified(vol, 14) == 63,
        2 * vol - 10 <= 3 * modified(vol, 6) <= 2 * vol,
        vol < 63 ==> modified(vol, 6) <= modified(vol + 1, 6) <= modified(vol, 6) + 1,
        modified(vol, 0) == vol,
        modified(vol, 8) == vol,
{
    lemma_two_thirds(vol);
}

proof fn lemma_two_thirds(v: int)
    requires
        0 <= v <= 63,
    ensures
        2 * v - 10 <= 3 * Q_TWO_THIRDS[v] <= 2 * v,
        v < 63 ==> Q_TWO_THIRDS[v] <= Q_TWO_THIRDS[v + 1] <= Q_TWO_THIRDS[v] + 1,
{
}

/// A volume between 0 and 63 is an active volume as it stands, and one above
/// gives 63.
pub proof fn law_volume_peaks_at_63(v: int)
    ensures
        0 <= v <= 63 ==> capped(v) == v,
        v > 63 ==> capped(v) == 63,
        v < 0 ==> capped(v) == 0,
        PCM_VOLUME_PEAK == 63,
{
}

/// What Qxy calls two thirds is five eighths of the volume, without the
/// fraction.
pub proof fn law_two_thirds_are_five_eighths(vol: int)
    requires
        0 <= vol <= 63,
    ensures
        8 * modified(vol, 6) <= 5 * vol < 8 * modified(vol, 6) + 8,
{
}

} // verus!
