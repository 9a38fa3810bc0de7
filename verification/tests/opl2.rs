use oxideav_s3m::header::Instrument;
use oxideav_s3m::opl2::{
    decode_operator, effective_rate, key_scale_offset, AdLibInstrument, EgMove, EgStage,
    EnvelopeStages, Operator, OperatorCore, Waveform, EXP_ROM, FB_PI_OVER_16, KSR_RATE_OFFSET,
    LOGSIN_ROM, MUL_DOUBLED, MUL_TABLE, SINE_PERIOD,
};

const ATTACK_FULL_SCALE_MS_AT_RATE_4: f64 = 2826.24;
const DECAY_FULL_SCALE_MS_AT_RATE_4: f64 = 8212.48;
const EG_RANGE_DB: f64 = 96.0;
const SUSTAIN_DB_PER_STEP: f32 = 3.0;

fn full_scale_traversal_ms(base_ms_at_rate_4: f64, rate: u8) -> f64 {
    base_ms_at_rate_4 * (2.0f64).powf(-((rate as f64) - 4.0) / 4.0)
}

fn db_per_sample(rate: u8, base_ms_at_rate_4: f64, sample_rate: u32) -> f64 {
    if rate == 0 {
        return 0.0;
    }
    let ms = full_scale_traversal_ms(base_ms_at_rate_4, rate);
    EG_RANGE_DB / (ms / 1000.0 * sample_rate.max(1) as f64)
}

/// An envelope whose attenuation runs linearly in dB, with the stages of the
/// library.
struct Env {
    stages: EnvelopeStages,
    atten_db: f64,
    sample_rate: u32,
}

impl Env {
    fn new(op: &Operator, key_scale_number: u8, sample_rate: u32) -> Self {
        Env {
            stages: EnvelopeStages::new(op, key_scale_number),
            atten_db: EG_RANGE_DB,
            sample_rate,
        }
    }

    fn key_on(&mut self) {
        self.stages.key_on();
    }

    fn key_off(&mut self) {
        self.stages.key_off();
    }

    fn is_off(&self) -> bool {
        self.stages.is_off()
    }

    fn stage(&self) -> EgStage {
        self.stages.stage
    }

    fn attenuation_db(&self) -> f64 {
        self.atten_db
    }

    fn step(&mut self) {
        let sustain_db = self.stages.sustain as f64 * SUSTAIN_DB_PER_STEP as f64;
        let (attack, decay, release) = (
            self.stages.attack_rate,
            self.stages.decay_rate,
            self.stages.release_rate,
        );
        match self.stages.advance(self.atten_db >= sustain_db) {
            EgMove::Hold => {}
            EgMove::Attack => {
                self.atten_db -= db_per_sample(attack, ATTACK_FULL_SCALE_MS_AT_RATE_4, self.sample_rate);
                if self.atten_db <= 0.0 {
                    self.atten_db = 0.0;
                    self.stages.arrive();
                }
            }
            EgMove::Decay => {
                let slope = db_per_sample(decay, DECAY_FULL_SCALE_MS_AT_RATE_4, self.sample_rate);
                self.atten_db = (self.atten_db + slope).min(sustain_db);
            }
            EgMove::Release => {
                self.atten_db += db_per_sample(release, DECAY_FULL_SCALE_MS_AT_RATE_4, self.sample_rate);
                if self.atten_db >= EG_RANGE_DB {
                    self.atten_db = EG_RANGE_DB;
                    self.stages.arrive();
                }
            }
        }
    }
}

#[test]
fn logsin_table_matches_decapsulated_anchors() {
    let core = OperatorCore::new();
    assert_eq!(core.logsin[0], 2137);
    assert_eq!(core.logsin[1], 1731);
    assert_eq!(core.logsin[2], 1543);
    assert_eq!(core.logsin[128], 127);
    assert_eq!(core.logsin[255], 0);
}

#[test]
fn exp_table_matches_decapsulated_anchors() {
    let core = OperatorCore::new();
    assert_eq!(core.exp[0], 0);
    assert_eq!(core.exp[1], 3);
    assert_eq!(core.exp[2], 6);
    assert_eq!(core.exp[255], 1018);
    assert_eq!(core.exp[128], 424);
}

#[test]
fn full_sine_has_quadrant_symmetry() {
    let core = OperatorCore::new();
    let s = |p: u32| core.operator_sample(p, 0, Waveform::Sine);
    let peak = s(256);
    assert!(
        peak > 240,
        "peak amplitude near quarter period too low: {peak}"
    );
    for p in 0..512 {
        assert_eq!(s(p), -s(p + 512), "sign symmetry broken at phase {p}");
    }
    for d in 0..256 {
        assert_eq!(s(d), s(511 - d), "mirror symmetry broken at offset {d}");
    }
}

#[test]
fn half_sine_silences_negative_half() {
    let core = OperatorCore::new();
    for p in 512..1024 {
        assert_eq!(
            core.operator_sample(p, 0, Waveform::HalfSine),
            0,
            "half-sine should be silent at phase {p}"
        );
    }
    for p in 0..512 {
        assert_eq!(
            core.operator_sample(p, 0, Waveform::HalfSine),
            core.operator_sample(p, 0, Waveform::Sine)
        );
    }
}

#[test]
fn attenuation_halves_amplitude_per_volume_step() {
    let core = OperatorCore::new();
    let peak0 = core.operator_sample(256, 0, Waveform::Sine);
    let peak1 = core.operator_sample(256, 128, Waveform::Sine);
    let peak2 = core.operator_sample(256, 256, Waveform::Sine);
    let target = std::f64::consts::FRAC_1_SQRT_2;
    let ratio1 = peak1 as f64 / peak0 as f64;
    let ratio2 = peak2 as f64 / peak1 as f64;
    assert!((ratio1 - target).abs() < 0.05, "step 1 ratio {ratio1}");
    assert!((ratio2 - target).abs() < 0.05, "step 2 ratio {ratio2}");
}

#[test]
fn phase_step_matches_formula() {
    assert_eq!(OperatorCore::phase_step(512, 0, 1), 512);
    assert_eq!(OperatorCore::phase_step(512, 1, 1), 1024);
    assert_eq!(OperatorCore::phase_step(512, 0, 0), 256);
    assert_eq!(OperatorCore::phase_step(100, 0, 10), (100 * 20) >> 1);
}

#[test]
fn phase_accumulator_wraps_at_period() {
    let step = OperatorCore::phase_step(512, 0, 1);
    let mut acc = 0u32;
    let start = OperatorCore::phase_int(acc);
    for _ in 0..SINE_PERIOD {
        acc = acc.wrapping_add(step);
    }
    assert_eq!(OperatorCore::phase_int(acc), start);
}

#[test]
fn decode_operator_unpacks_register_fields() {
    let op = decode_operator(0xB5, 0x4E, 0xF3, 0x28, 0x01);
    assert!(op.am);
    assert!(!op.vib);
    assert!(op.eg_sustained);
    assert!(op.ksr);
    assert_eq!(op.mul, 5);
    assert_eq!(op.ksl, 1);
    assert_eq!(op.total_level, 14);
    assert_eq!(op.attack, 15);
    assert_eq!(op.decay, 3);
    assert_eq!(op.sustain, 2);
    assert_eq!(op.release, 8);
    assert_eq!(op.waveform, Waveform::HalfSine);
}

#[test]
fn adlib_instrument_decodes_two_operators_plus_feedback() {
    let regs = [
        0x21, 0x61, 0x1D, 0x07, 0x82, 0x81, 0x10, 0x07, 0x00, 0x00, 0x0D,
    ];
    let inst = AdLibInstrument::from_registers(&regs);
    assert_eq!(inst.modulator.mul, 1);
    assert_eq!(inst.carrier.mul, 1);
    assert_eq!(inst.feedback, 6);
    assert!(inst.additive);
    assert_eq!(inst.modulator.waveform, Waveform::Sine);
}

#[test]
fn adlib_instrument_tolerates_short_register_block() {
    let inst = AdLibInstrument::from_registers(&[0x01, 0x01]);
    assert_eq!(inst.modulator.mul, 1);
    assert_eq!(inst.carrier.mul, 1);
    assert_eq!(inst.feedback, 0);
    assert!(!inst.additive);
    assert_eq!(inst.carrier.waveform, Waveform::Sine);
}

fn test_op(
    attack: u8,
    decay: u8,
    sustain: u8,
    release: u8,
    ksr: bool,
    sustained: bool,
) -> Operator {
    Operator {
        am: false,
        vib: false,
        eg_sustained: sustained,
        ksr,
        mul: 1,
        ksl: 0,
        total_level: 0,
        attack,
        decay,
        sustain,
        release,
        waveform: Waveform::Sine,
    }
}

#[test]
fn ksr_rate_offset_matches_closed_form() {
    for n in 0..16u8 {
        assert_eq!(key_scale_offset(false, n), n >> 2);
        assert_eq!(key_scale_offset(true, n), n);
    }
}

#[test]
fn effective_rate_is_4r_plus_rks_with_r0_special_case() {
    assert_eq!(effective_rate(0, false, 0), 0);
    assert_eq!(effective_rate(0, true, 15), 0);
    assert_eq!(effective_rate(1, false, 0), 4);
    assert_eq!(effective_rate(15, false, 3), 60);
    assert_eq!(effective_rate(3, false, 13), 12 + 3);
    assert_eq!(effective_rate(3, true, 13), 12 + 13);
    for &ksr in &[false, true] {
        let mut prev = 0;
        for n in 0..16 {
            let r = effective_rate(5, ksr, n);
            assert!(r >= prev, "RATE not monotone at N={n}, KSR={ksr}");
            prev = r;
        }
    }
}

#[test]
fn effective_rate_saturates_at_63() {
    assert_eq!(effective_rate(15, true, 15), 63);
    assert_eq!(effective_rate(15, true, 12), 63);
    assert_eq!(effective_rate(15, true, 3), 63);
    assert_eq!(effective_rate(14, true, 7), 63);
    assert_eq!(effective_rate(14, true, 6), 62);
}

fn steps_until(env: &mut Env, limit: usize, pred: impl Fn(&Env) -> bool) -> usize {
    for i in 0..limit {
        if pred(env) {
            return i;
        }
        env.step();
    }
    panic!("predicate not reached within {limit} envelope steps");
}

const FS: u32 = 44_100;

#[test]
fn attack_traversal_matches_staged_anchor() {
    let mut env = Env::new(&test_op(1, 15, 0, 15, false, true), 0, FS);
    let n = steps_until(&mut env, 200_000, |e| e.stage() == EgStage::Decay);
    let expected = ATTACK_FULL_SCALE_MS_AT_RATE_4 / 1000.0 * FS as f64;
    assert!(
        (n as f64 - expected).abs() <= 2.0,
        "attack took {n} samples, expected ~{expected:.1}"
    );
}

#[test]
fn attack_rate_8_takes_half_the_time() {
    let mut env = Env::new(&test_op(2, 15, 0, 15, false, true), 0, FS);
    let n = steps_until(&mut env, 200_000, |e| e.stage() == EgStage::Decay);
    let expected = 1413.12 / 1000.0 * FS as f64;
    assert!(
        (n as f64 - expected).abs() <= 2.0,
        "attack took {n} samples, expected ~{expected:.1}"
    );
}

#[test]
fn release_traversal_matches_staged_decay_anchor() {
    let mut env = Env::new(&test_op(15, 15, 0, 1, false, true), 0, FS);
    steps_until(&mut env, 100_000, |e| e.stage() == EgStage::Sustain);
    assert_eq!(env.attenuation_db(), 0.0);
    env.key_off();
    let n = steps_until(&mut env, 800_000, |e| e.is_off());
    let expected = DECAY_FULL_SCALE_MS_AT_RATE_4 / 1000.0 * FS as f64;
    assert!(
        (n as f64 - expected).abs() <= 2.0,
        "release took {n} samples, expected ~{expected:.1}"
    );
}

#[test]
fn decay_slope_reaches_sustain_level_proportionally() {
    let mut env = Env::new(&test_op(15, 1, 15, 15, false, true), 0, FS);
    steps_until(&mut env, 1_000, |e| e.stage() == EgStage::Decay);
    let n = steps_until(&mut env, 800_000, |e| e.stage() == EgStage::Sustain);
    let expected = 45.0 / EG_RANGE_DB * DECAY_FULL_SCALE_MS_AT_RATE_4 / 1000.0 * FS as f64;
    assert!(
        (n as f64 - expected).abs() <= 3.0,
        "decay took {n} samples, expected ~{expected:.1}"
    );
    assert!((env.attenuation_db() - 45.0).abs() < 0.01);
}

#[test]
fn ksr_bit_speeds_the_envelope_at_high_notes() {
    let t = |ksr: bool| {
        let mut env = Env::new(&test_op(1, 15, 0, 15, ksr, true), 13, FS);
        steps_until(&mut env, 200_000, |e| e.stage() == EgStage::Decay)
    };
    let slow = t(false);
    let fast = t(true);
    let expect_slow =
        full_scale_traversal_ms(ATTACK_FULL_SCALE_MS_AT_RATE_4, 7) / 1000.0 * FS as f64;
    let expect_fast =
        full_scale_traversal_ms(ATTACK_FULL_SCALE_MS_AT_RATE_4, 17) / 1000.0 * FS as f64;
    assert!(
        (slow as f64 - expect_slow).abs() <= 2.0,
        "KSR=0 took {slow}"
    );
    assert!(
        (fast as f64 - expect_fast).abs() <= 2.0,
        "KSR=1 took {fast}"
    );
    assert!(fast < slow, "KSR must speed the envelope up");
}

#[test]
fn rate_zero_freezes_the_envelope() {
    let mut env = Env::new(&test_op(0, 15, 0, 15, false, true), 0, FS);
    for _ in 0..50_000 {
        env.step();
    }
    assert_eq!(env.stage(), EgStage::Attack);
    assert_eq!(env.attenuation_db(), EG_RANGE_DB);

    let mut env = Env::new(&test_op(15, 0, 15, 15, false, true), 0, FS);
    steps_until(&mut env, 1_000, |e| e.stage() == EgStage::Decay);
    for _ in 0..50_000 {
        env.step();
    }
    assert_eq!(env.stage(), EgStage::Decay);
    assert_eq!(env.attenuation_db(), 0.0);
    env.key_off();
    assert!(env.stage() == EgStage::Release);
}

#[test]
fn percussive_envelope_releases_through_the_sustain_level() {
    let mut env = Env::new(&test_op(15, 15, 4, 15, false, false), 0, FS);
    let n = steps_until(&mut env, 400_000, |e| e.is_off());
    assert!(n > 0);
    let mut held = Env::new(&test_op(15, 15, 4, 15, false, true), 0, FS);
    steps_until(&mut held, 400_000, |e| e.stage() == EgStage::Sustain);
    for _ in 0..10_000 {
        held.step();
    }
    assert_eq!(held.stage(), EgStage::Sustain);
    assert!((held.attenuation_db() - 4.0 * SUSTAIN_DB_PER_STEP as f64).abs() < 0.01);
}

#[test]
fn retrigger_attacks_from_current_attenuation() {
    let mut env = Env::new(&test_op(1, 15, 0, 2, false, true), 0, FS);
    for _ in 0..10_000 {
        env.step();
    }
    let mid = env.attenuation_db();
    assert!(mid > 0.0 && mid < EG_RANGE_DB);
    env.key_off();
    for _ in 0..1_000 {
        env.step();
    }
    let released = env.attenuation_db();
    env.key_on();
    assert_eq!(env.stage(), EgStage::Attack);
    assert_eq!(env.attenuation_db(), released);
    env.step();
    assert!(env.attenuation_db() < released);
}

#[test]
fn mul_doubled_is_mul_table_with_half_promoted() {
    assert_eq!(MUL_DOUBLED[0], 1);
    for i in 1..16 {
        assert_eq!(MUL_DOUBLED[i], MUL_TABLE[i] * 2, "mismatch at index {i}");
    }
}

#[test]
fn rom_tables_follow_their_formulas() {
    for i in 0..256 {
        let angle = (i as f64 + 0.5) * std::f64::consts::PI / 512.0;
        assert_eq!(LOGSIN_ROM[i], (-(angle.sin().log2()) * 256.0).round() as u16);
        let e = ((2f64.powf(i as f64 / 256.0) - 1.0) * 1024.0).round() as u16;
        assert_eq!(EXP_ROM[i], e);
    }
}

#[test]
fn operator_samples_exact_values() {
    let core = OperatorCore::default();
    assert_eq!(core.operator_sample(256, 0, Waveform::Sine), 2042);
    assert_eq!(core.operator_sample(768, 0, Waveform::Sine), -2042);
    assert_eq!(core.operator_sample(256, 256, Waveform::Sine), 1021);
    assert_eq!(core.operator_sample(768, 0, Waveform::HalfSine), 0);
    assert_eq!(core.operator_sample(256, 31 * 256, Waveform::Sine), 0);
    assert_eq!(core.operator_sample(256 + 1024, 0, Waveform::Sine), 2042);
}

#[test]
fn octave_of_attenuation_halves_magnitude() {
    let core = OperatorCore::new();
    for atten in 0..8192 {
        assert_eq!(core.exp_lookup(atten + 256), core.exp_lookup(atten) / 2);
    }
}

#[test]
fn phase_step_takes_all_register_values() {
    assert_eq!(OperatorCore::phase_step(65535, 7, 15), (65535 * 30 << 7) >> 1);
    assert_eq!(OperatorCore::phase_step(65535, 15, 31), (65535 * 30 << 7) >> 1);
    assert_eq!(OperatorCore::phase_int(0x7FFFF), 1023);
    assert_eq!(OperatorCore::phase_int(0x80000), 0);
}

#[test]
fn adlib_voice_of_instrument() {
    let regs = [
        0x21, 0x61, 0x1D, 0x07, 0x82, 0x81, 0x10, 0x07, 0x01, 0x00, 0x0D,
    ];
    let mut inst = Instrument {
        kind: 2,
        registers: regs,
        ..Instrument::default()
    };
    let voice = inst.adlib_instrument().unwrap();
    assert_eq!(voice, AdLibInstrument::from_registers(&regs));
    assert_eq!(voice.modulator.waveform, Waveform::HalfSine);
    assert_eq!(voice.carrier.total_level, 7);
    assert_eq!(FB_PI_OVER_16[voice.feedback as usize], 32);
    inst.kind = 7;
    assert!(inst.adlib_instrument().is_some());
    inst.kind = 1;
    assert!(inst.adlib_instrument().is_none());
    inst.kind = 8;
    assert!(inst.adlib_instrument().is_none());
}

#[test]
fn key_off_leaves_finished_envelope_off() {
    let mut e = EnvelopeStages::new(&test_op(15, 15, 0, 15, false, true), 0);
    e.key_off();
    assert_eq!(e.stage, EgStage::Release);
    assert_eq!(e.advance(false), EgMove::Release);
    e.arrive();
    assert!(e.is_off());
    e.key_off();
    assert!(e.is_off());
    assert_eq!(e.advance(true), EgMove::Hold);
    assert_eq!(KSR_RATE_OFFSET[1][15], 15);
}

#[test]
fn rectified_half_is_silent_at_any_attenuation() {
    let core = OperatorCore::new();
    assert_eq!(core.operator_sample(600, u32::MAX, Waveform::HalfSine), 0);
    assert_eq!(core.operator_sample(255, u32::MAX, Waveform::Sine), 0);
}

#[test]
fn operator_waveforms_at_any_attenuation() {
    let core = OperatorCore::new();
    for a in [0, 1, 255, 1000, 5000, u32::MAX - 2137] {
        let s = |p: u32| core.operator_sample(p, a, Waveform::Sine);
        let h = |p: u32| core.operator_sample(p, a, Waveform::HalfSine);
        for p in 0..512 {
            assert_eq!(s(p + 512), -s(p));
            assert_eq!(s(511 - p), s(p));
            assert!(0 <= s(p) && s(p) <= 2042);
            assert_eq!(h(p), s(p));
            assert_eq!(h(p + 512), 0);
            assert_eq!(s(p + 7 * 1024), s(p));
        }
    }
    assert_eq!(core.operator_sample(256, 0, Waveform::Sine), 2042);
}

#[test]
fn attack_nibble_zero_never_leaves_the_attack() {
    let op = decode_operator(0x20, 0, 0x0F, 0, 0);
    let keyed = EnvelopeStages::new(&op, 15);
    let mut e = keyed;
    for at_sustain in [false, true, false] {
        assert_eq!(e.advance(at_sustain), EgMove::Hold);
        assert_eq!(e, keyed);
    }
}
