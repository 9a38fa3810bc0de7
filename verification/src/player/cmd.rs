//! Effect command letters, stored as 1..=26 in the pattern data.

use vstd::prelude::*;

verus! {

pub const A_SET_SPEED: u8 = 1;

pub const B_POS_JUMP: u8 = 2;

pub const C_PAT_BREAK: u8 = 3;

pub const D_VOL_SLIDE: u8 = 4;

pub const E_SLIDE_DOWN: u8 = 5;

pub const F_SLIDE_UP: u8 = 6;

pub const G_TONE_PORTA: u8 = 7;

pub const H_VIBRATO: u8 = 8;

pub const I_TREMOR: u8 = 9;

pub const J_ARPEGGIO: u8 = 10;

pub const K_VIB_VOL: u8 = 11;

pub const L_PORT_VOL: u8 = 12;

pub const O_SAMPLE_OFFSET: u8 = 15;

pub const Q_RETRIGGER: u8 = 17;

pub const R_TREMOLO: u8 = 18;

pub const S_EXTENDED: u8 = 19;

pub const T_SET_TEMPO: u8 = 20;

pub const U_FINE_VIBRATO: u8 = 21;

pub const V_GLOBAL_VOL: u8 = 22;

pub const X_SET_PAN: u8 = 24;

} // verus!
