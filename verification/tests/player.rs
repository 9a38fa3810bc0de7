use oxideav_s3m::header::S3mHeader;
use oxideav_s3m::pattern::{Cell, Pattern};
use oxideav_s3m::player::{
    clamp_pcm_volume, cmd, effect_memory_slot, is_fine_volslide, is_scx_resume_command,
    note_to_period, resolve_sample_offset, retrigger_volume, waveform_sample, Channel, Gate, Jump,
    Mode, NoteOp, PitchOp, PlayerState, Waveform, AMIGA_CLOCK_HZ, DEFAULT_BPM, DEFAULT_SPEED,
    PCM_VOLUME_PEAK, PERIOD_TABLE, PROTRACKER_SINE, Q_TWO_THIRDS, S2X_FINETUNE_TABLE,
};
use oxideav_s3m::samples::SampleBody;

fn mode() -> Mode {
    Mode {
        global_volume: 64,
        fast_slides: false,
        amiga_limits: false,
    }
}

/// Playback rate of a note in Hz.
fn note_to_frequency(note: u8, c5_speed: u32) -> f64 {
    AMIGA_CLOCK_HZ as f64 / note_to_period(note, c5_speed, false) as f64
}

#[test]
fn note_freq_st3_c5_is_c5_speed() {
    let f = note_to_frequency(0x40, 8363);
    assert!((f - 8363.0).abs() < 0.5, "got {}", f);
}

#[test]
fn note_freq_octave_doubles() {
    let f4 = note_to_frequency(0x40, 8363);
    let f5 = note_to_frequency(0x50, 8363);
    assert!((f5 / f4 - 2.0).abs() < 0.001);
}

#[test]
fn retrigger_counter_persists_and_fires_at_y() {
    let mut ch = Channel {
        info: 0x05,
        command: cmd::Q_RETRIGGER,
        volume: 32,
        ..Channel::default()
    };
    for expected in 1..5 {
        ch.apply_retrigger(mode());
        assert_eq!(ch.retrig_counter, expected);
        assert_eq!(ch.pitch_op, PitchOp::Idle, "no retrig before counter hits y");
    }
    ch.apply_retrigger(mode());
    assert_eq!(ch.retrig_counter, 0, "counter resets after firing");
    assert_eq!(ch.pitch_op, PitchOp::Restart, "sample retriggered to start");
}

#[test]
fn retrigger_y0_is_ignored() {
    let mut ch = Channel {
        info: 0x90,
        command: cmd::Q_RETRIGGER,
        volume: 32,
        ..Channel::default()
    };
    ch.apply_retrigger(mode());
    assert_eq!(ch.retrig_counter, 0);
    assert_eq!(ch.pitch_op, PitchOp::Idle);
}

#[test]
fn kxy_vibrato_uses_remembered_h_params() {
    let mut ch = Channel {
        pitched: true,
        targeted: true,
        ..Channel::default()
    };
    ch.effect_memory[cmd::H_VIBRATO as usize] = 0x24;
    let (h_speed, h_depth) = ch.vibrato_memory();
    assert_eq!((h_speed, h_depth), (2, 4));
    ch.apply_vibrato(h_speed, h_depth, false);
    assert_eq!(ch.vibrato_pos, 8);
    assert_eq!(
        ch.pitch_op,
        PitchOp::Vibrato { delta: 1 },
        "Kxy vibrato must move pitch using the remembered H depth"
    );
    let mut ch2 = Channel {
        pitched: true,
        targeted: true,
        ..Channel::default()
    };
    ch2.apply_vibrato(0, 2, false);
    assert_eq!(
        ch2.pitch_op,
        PitchOp::Vibrato { delta: 0 },
        "speed-0 vibrato leaves the pitch alone"
    );
}

#[test]
fn lxy_porta_uses_remembered_g_rate() {
    let mut ch = Channel {
        pitched: true,
        targeted: true,
        ..Channel::default()
    };
    ch.effect_memory[cmd::G_TONE_PORTA as usize] = 0x04;
    let g_rate = ch.effect_memory[cmd::G_TONE_PORTA as usize];
    ch.apply_tone_porta(g_rate);
    assert_eq!(ch.pitch_op, PitchOp::TonePorta { step: 4 });
    let mut ch0 = Channel {
        pitched: true,
        targeted: true,
        ..Channel::default()
    };
    ch0.apply_tone_porta(0);
    assert_eq!(ch0.pitch_op, PitchOp::Idle);
}

fn live_channel() -> Channel {
    Channel {
        instrument: 1,
        pitched: true,
        targeted: true,
        volume: 64,
        pan: 8,
        active: true,
        ..Channel::default()
    }
}

#[test]
fn muted_channel_emits_silence_in_mixer() {
    let samples = vec![dummy_sample(64)];
    let unmuted = live_channel();
    let mut muted = unmuted;
    muted.muted = true;
    assert_eq!(unmuted.gate(&samples), Gate::Heard);
    assert_ne!(muted.gate(&samples), Gate::Heard);
}

#[test]
fn muted_channel_still_advances_sample_position() {
    let samples = vec![dummy_sample(1024)];
    let mut muted = live_channel();
    muted.muted = true;
    assert_eq!(muted.gate(&samples), Gate::Unheard);
    let mut unmuted = live_channel();
    let read = unmuted.read(&samples, 0).unwrap();
    let silent = muted.read(&samples, 0).unwrap();
    assert_eq!(silent.tap, read.tap, "muted must move on from the same frame");
    assert!(read.heard && !silent.heard);
}

#[test]
fn muted_channel_silent_when_voice_inactive() {
    let samples = vec![dummy_sample(64)];
    let ch = Channel {
        instrument: 1,
        pitched: false,
        active: false,
        muted: true,
        ..Channel::default()
    };
    assert_eq!(ch.gate(&samples), Gate::Silent);
}

#[test]
fn frozen_channel_emits_silence_and_holds_position() {
    let samples = vec![dummy_sample(1024)];
    let mut thawed = live_channel();
    let mut frozen = thawed;
    frozen.frozen = true;
    assert_eq!(thawed.read(&samples, 100).unwrap().tap.frame, 100);
    assert!(frozen.read(&samples, 100).is_none(), "frozen must hold its position");
    assert_eq!(thawed.gate(&samples), Gate::Heard);
    assert_eq!(frozen.gate(&samples), Gate::Silent, "frozen must emit silence");
    assert_eq!(frozen.volume, 64);
    assert!(frozen.active && frozen.pitched);
}

#[test]
fn waveform_square_is_bipolar_constant() {
    let mut rng = 0u32;
    assert_eq!(waveform_sample(Waveform::Square, 0, &mut rng), 64);
    assert_eq!(waveform_sample(Waveform::Square, 31, &mut rng), 64);
    assert_eq!(waveform_sample(Waveform::Square, 32, &mut rng), -64);
    assert_eq!(waveform_sample(Waveform::Square, 63, &mut rng), -64);
}

#[test]
fn waveform_rampdown_decreases() {
    let mut rng = 0u32;
    let a = waveform_sample(Waveform::RampDown, 0, &mut rng);
    let b = waveform_sample(Waveform::RampDown, 16, &mut rng);
    let c = waveform_sample(Waveform::RampDown, 32, &mut rng);
    assert!(a > b && b > c, "ramp should be strictly decreasing");
    assert_eq!(a, 64);
    assert_eq!(c, 0);
}

#[test]
fn waveform_random_changes_state() {
    let mut rng = 0x1234_5678u32;
    let initial = rng;
    let _ = waveform_sample(Waveform::Random, 0, &mut rng);
    assert_ne!(rng, initial, "random must advance the LCG");
}

#[test]
fn q_two_thirds_table_endpoints_and_spread() {
    assert_eq!(Q_TWO_THIRDS[0], 0);
    assert_eq!(Q_TWO_THIRDS[1], 0);
    assert_eq!(Q_TWO_THIRDS[2], 1);
    assert_eq!(Q_TWO_THIRDS[3], 1);
    assert_eq!(Q_TWO_THIRDS[63], 39);
    for w in Q_TWO_THIRDS.windows(2) {
        assert!(w[1] >= w[0]);
    }
}

#[test]
fn retrigger_volume_modifiers_match_spec_table() {
    assert_eq!(retrigger_volume(32, 0x0), 32);
    assert_eq!(retrigger_volume(32, 0x1), 31);
    assert_eq!(retrigger_volume(32, 0x2), 30);
    assert_eq!(retrigger_volume(32, 0x3), 28);
    assert_eq!(retrigger_volume(32, 0x4), 24);
    assert_eq!(retrigger_volume(32, 0x5), 16);
    assert_eq!(retrigger_volume(32, 0x6), Q_TWO_THIRDS[32]);
    assert_eq!(retrigger_volume(32, 0x7), 16);
    assert_eq!(retrigger_volume(32, 0x8), 32); // "?" — no change
    assert_eq!(retrigger_volume(32, 0x9), 33);
    assert_eq!(retrigger_volume(32, 0xA), 34);
    assert_eq!(retrigger_volume(32, 0xB), 36);
    assert_eq!(retrigger_volume(32, 0xC), 40);
    assert_eq!(retrigger_volume(32, 0xD), 48);
    assert_eq!(retrigger_volume(32, 0xE), 48);
    assert_eq!(retrigger_volume(32, 0xF), PCM_VOLUME_PEAK);
    assert_eq!(retrigger_volume(4, 0x5), 0);
    assert_eq!(retrigger_volume(60, 0xF), PCM_VOLUME_PEAK);
}

#[test]
fn is_fine_volslide_matches_dxy_fine_forms() {
    assert!(is_fine_volslide(0xF, 0x3));
    assert!(is_fine_volslide(0x3, 0xF));
    assert!(is_fine_volslide(0xF, 0xF));
    assert!(!is_fine_volslide(0x0, 0xF));
    assert!(!is_fine_volslide(0xF, 0x0));
    assert!(!is_fine_volslide(0x2, 0x0));
    assert!(!is_fine_volslide(0x0, 0x4));
}

#[test]
fn vibrato_memory_reads_h_slot_not_k_nibbles() {
    let mut ch = Channel::default();
    ch.effect_memory[cmd::H_VIBRATO as usize] = 0x82;
    assert_eq!(ch.vibrato_memory(), (8, 2));
}

#[test]
fn s2x_table_endpoints_match_spec() {
    assert_eq!(S2X_FINETUNE_TABLE[0x0], 7895);
    assert_eq!(S2X_FINETUNE_TABLE[0x8], 8363);
    assert_eq!(S2X_FINETUNE_TABLE[0xF], 8757);
}

fn dummy_sample(len: usize) -> SampleBody {
    SampleBody {
        pcm: vec![16_000i16; len],
        pcm_right: None,
        loop_start: 0,
        loop_end: 0,
        looped: false,
        volume: 64,
        c5_speed: 8363,
    }
}

fn synth_header() -> S3mHeader {
    S3mHeader {
        song_name: String::new(),
        ord_num: 0,
        ins_num: 0,
        pat_num: 0,
        flags: 0,
        tracker_version: 0x1320,
        ffi: 2,
        global_volume: 64,
        initial_speed: 6,
        initial_tempo: 125,
        master_volume: 0x30,
        stereo: true,
        default_pan_flag: 0,
        channels: [0xFFu8; 32],
        pans: [8u8; 32],
        muted: [true; 32],
        order: vec![0xFF],
        instruments: Vec::new(),
        pattern_offsets: Vec::new(),
        enabled_channels: 1,
    }
}

#[test]
fn header_flag_bit_6_enables_fast_slides() {
    let mut h = synth_header();
    h.flags = 1 << 6;
    h.tracker_version = 0x1320;
    let player = PlayerState::new(&h, Vec::new(), Vec::new(), 44_100);
    assert!(player.fast_slides);
    assert!(!player.amiga_limits);
}

#[test]
fn header_tracker_version_0x1300_enables_fast_slides_automatically() {
    let mut h = synth_header();
    h.flags = 0;
    h.tracker_version = 0x1300;
    let player = PlayerState::new(&h, Vec::new(), Vec::new(), 44_100);
    assert!(player.fast_slides, "CwtV 0x1300 must auto-arm fast slides");
    let mut h2 = synth_header();
    h2.flags = 0;
    h2.tracker_version = 0x1301;
    let p2 = PlayerState::new(&h2, Vec::new(), Vec::new(), 44_100);
    assert!(!p2.fast_slides, "CwtV != 0x1300 must leave the flag off");
}

#[test]
fn header_pre_st3_00_version_below_0x1300_auto_arms_fast_slides() {
    let mut h = synth_header();
    h.flags = 0;
    h.tracker_version = 0x12FF;
    let player = PlayerState::new(&h, Vec::new(), Vec::new(), 44_100);
    assert!(
        player.fast_slides,
        "Scream Tracker CwtV 0x12FF (<= 0x1300) must auto-arm fast slides"
    );

    let mut h2 = synth_header();
    h2.flags = 0;
    h2.tracker_version = 0x0ABC;
    let p2 = PlayerState::new(&h2, Vec::new(), Vec::new(), 44_100);
    assert!(
        !p2.fast_slides,
        "non-Scream-Tracker CwtV 0x0ABC must not auto-arm despite < 0x1300"
    );
}

#[test]
fn header_flag_bit_4_enables_amiga_limits() {
    let mut h = synth_header();
    h.flags = 1 << 4;
    let player = PlayerState::new(&h, Vec::new(), Vec::new(), 44_100);
    assert!(player.amiga_limits);
    assert!(!player.fast_slides);
}

#[test]
fn initial_speed_0xff_falls_back_to_default() {
    let mut h = synth_header();
    h.initial_speed = 0xFF;
    let p = PlayerState::new(&h, Vec::new(), Vec::new(), 44_100);
    assert_eq!(p.speed, DEFAULT_SPEED);
    let mut h2 = synth_header();
    h2.initial_speed = 0;
    let p2 = PlayerState::new(&h2, Vec::new(), Vec::new(), 44_100);
    assert_eq!(p2.speed, DEFAULT_SPEED);
    let mut h3 = synth_header();
    h3.initial_speed = 9;
    let p3 = PlayerState::new(&h3, Vec::new(), Vec::new(), 44_100);
    assert_eq!(p3.speed, 9);
}

#[test]
fn initial_tempo_below_33_falls_back_to_default() {
    for bad in [0u8, 1, 16, 32] {
        let mut h = synth_header();
        h.initial_tempo = bad;
        let p = PlayerState::new(&h, Vec::new(), Vec::new(), 44_100);
        assert_eq!(
            p.bpm, DEFAULT_BPM,
            "tempo {bad} (< 33) must fall back to default"
        );
    }
    let mut h = synth_header();
    h.initial_tempo = 33;
    let p = PlayerState::new(&h, Vec::new(), Vec::new(), 44_100);
    assert_eq!(p.bpm, 33);
}

#[test]
fn fast_slides_dx0_fires_on_tick_0() {
    let mut ch = Channel {
        volume: 30,
        ..Channel::default()
    };
    ch.apply_dxy_tick0_fast_slide(0x4, 0x0, mode());
    assert_eq!(ch.volume, 34);
}

#[test]
fn fast_slides_d0y_fires_on_tick_0() {
    let mut ch = Channel {
        volume: 30,
        ..Channel::default()
    };
    ch.apply_dxy_tick0_fast_slide(0x0, 0x3, mode());
    assert_eq!(ch.volume, 27);
}

#[test]
fn fast_slides_tick0_leg_skips_fine_forms_and_d0f_df0() {
    for (x, y) in [
        (0xF, 0x3),
        (0x3, 0xF),
        (0xF, 0xF),
        (0x0, 0xF),
        (0xF, 0x0),
        (0x0, 0x0),
    ] {
        let mut ch = Channel {
            volume: 30,
            ..Channel::default()
        };
        ch.apply_dxy_tick0_fast_slide(x, y, mode());
        assert_eq!(
            ch.volume, 30,
            "fast-slides tick-0 leg must not act on D{x:X}{y:X}"
        );
    }
}

#[test]
fn fast_slides_st3_quirk_dxy_treats_as_down() {
    let mut ch = Channel {
        volume: 30,
        ..Channel::default()
    };
    ch.apply_dxy_tick0_fast_slide(0x3, 0x4, mode());
    assert_eq!(ch.volume, 26);
}

#[test]
fn is_scx_resume_command_covers_the_eight_resume_effects() {
    for c in [
        cmd::E_SLIDE_DOWN,
        cmd::F_SLIDE_UP,
        cmd::G_TONE_PORTA,
        cmd::H_VIBRATO,
        cmd::J_ARPEGGIO,
        cmd::K_VIB_VOL,
        cmd::L_PORT_VOL,
        cmd::U_FINE_VIBRATO,
    ] {
        assert!(
            is_scx_resume_command(c),
            "command {c} must thaw an SCx-frozen channel"
        );
    }
    for c in [
        0u8,
        cmd::A_SET_SPEED,
        cmd::B_POS_JUMP,
        cmd::C_PAT_BREAK,
        cmd::D_VOL_SLIDE,
        cmd::I_TREMOR,
        cmd::O_SAMPLE_OFFSET,
        cmd::Q_RETRIGGER,
        cmd::R_TREMOLO,
        cmd::S_EXTENDED,
        cmd::T_SET_TEMPO,
        cmd::V_GLOBAL_VOL,
        cmd::X_SET_PAN,
    ] {
        assert!(
            !is_scx_resume_command(c),
            "command {c} must NOT thaw a frozen channel"
        );
    }
}

fn vxx_test_player(vxx_param: u8, speed: u8) -> PlayerState {
    let mut h = synth_header();
    h.flags = 0;
    h.tracker_version = 0x1320;
    h.channels = [0xFFu8; 32];
    h.channels[0] = 0;
    h.muted = [true; 32];
    h.muted[0] = false;
    h.pans = [8u8; 32];
    h.global_volume = 64;
    h.initial_speed = speed;
    h.initial_tempo = 125;
    h.enabled_channels = 1;
    h.order = vec![0u8];

    let mut pat = Pattern::empty(1);
    pat.rows[0][0] = Cell {
        note: 0xFF,
        instrument: 0,
        volume: 0xFF,
        command: cmd::V_GLOBAL_VOL,
        info: vxx_param,
    };
    pat.rows[1][0] = Cell::empty();
    PlayerState::new(&h, Vec::new(), vec![pat], 44_100)
}

#[test]
fn vxx_param_above_0x40_is_ignored() {
    let mut p = vxx_test_player(0x41, 6);
    assert_eq!(p.global_volume, 64);
    p.enter_row();
    assert!(p.pending_global_vol.is_none());
    for t in 1..p.speed {
        p.tick = t;
        p.apply_per_tick();
    }
    assert_eq!(
        p.global_volume, 64,
        "V41 must be ignored — global volume must not move"
    );
}

#[test]
fn vxx_param_0xff_is_ignored() {
    let mut p = vxx_test_player(0xFF, 6);
    p.enter_row();
    assert!(p.pending_global_vol.is_none());
    for t in 1..p.speed {
        p.tick = t;
        p.apply_per_tick();
    }
    assert_eq!(p.global_volume, 64);
}

#[test]
fn vxx_param_0x40_is_the_upper_boundary() {
    let mut p = vxx_test_player(0x40, 6);
    p.global_volume = 30;
    p.enter_row();
    assert_eq!(p.pending_global_vol, Some(0x40));
    p.tick = 1;
    p.apply_per_tick();
    assert_eq!(p.global_volume, 0x40);
    assert!(p.pending_global_vol.is_none());
}

#[test]
fn vxx_applies_on_tick_1_not_tick_0() {
    let mut p = vxx_test_player(0x20, 6);
    p.global_volume = 64;
    p.enter_row();
    assert_eq!(
        p.global_volume, 64,
        "Vxx must NOT affect tick 0 — same-row notes see the old value"
    );
    assert_eq!(p.pending_global_vol, Some(0x20));
    p.tick = 1;
    p.apply_per_tick();
    assert_eq!(p.global_volume, 0x20, "Vxx must take effect on tick 1");
    assert!(
        p.pending_global_vol.is_none(),
        "pending stash must be drained after tick 1"
    );
}

#[test]
fn vxx_does_nothing_when_speed_is_1() {
    let mut p = vxx_test_player(0x20, 1);
    p.global_volume = 64;
    p.enter_row();
    assert_eq!(p.pending_global_vol, Some(0x20));
    p.row = 1;
    p.enter_row();
    assert!(
        p.pending_global_vol.is_none(),
        "speed-1 row must drop the stash without applying"
    );
    assert_eq!(
        p.global_volume, 64,
        "speed-1 row must NOT update global_volume"
    );
}

#[test]
fn master_volume_clamped_to_spec_range_16_127() {
    let mut h = synth_header();
    h.master_volume = 0;
    let p = PlayerState::new(&h, Vec::new(), Vec::new(), 44_100);
    assert_eq!(p.master_volume, 16, "MV=0 must clamp up to 16");

    h.master_volume = 15;
    let p = PlayerState::new(&h, Vec::new(), Vec::new(), 44_100);
    assert_eq!(p.master_volume, 16, "MV=15 must clamp up to 16");

    h.master_volume = 16;
    let p = PlayerState::new(&h, Vec::new(), Vec::new(), 44_100);
    assert_eq!(p.master_volume, 16);

    h.master_volume = 48;
    let p = PlayerState::new(&h, Vec::new(), Vec::new(), 44_100);
    assert_eq!(p.master_volume, 48);

    h.master_volume = 127;
    let p = PlayerState::new(&h, Vec::new(), Vec::new(), 44_100);
    assert_eq!(p.master_volume, 127);
}

#[test]
fn stereo_flag_mirrored_into_player_state() {
    let mut h = synth_header();
    h.stereo = true;
    let p = PlayerState::new(&h, Vec::new(), Vec::new(), 44_100);
    assert!(p.stereo, "stereo header flag must reach PlayerState");

    h.stereo = false;
    let p = PlayerState::new(&h, Vec::new(), Vec::new(), 44_100);
    assert!(!p.stereo, "mono header flag must reach PlayerState");
}

#[test]
fn vxx_stash_cleared_on_next_row_entry() {
    let mut p = vxx_test_player(0x30, 6);
    p.enter_row();
    p.tick = 1;
    p.apply_per_tick();
    assert_eq!(p.global_volume, 0x30);
    p.row = 1;
    p.enter_row();
    assert!(p.pending_global_vol.is_none());
    for t in 1..p.speed {
        p.tick = t;
        p.apply_per_tick();
    }
    assert_eq!(
        p.global_volume, 0x30,
        "row 1's empty cell must NOT touch the global volume"
    );
}

#[test]
fn oxy_offset_unlooped_is_raw_value() {
    assert_eq!(resolve_sample_offset(1024, 0, 0, 8192, false), 1024);
    assert_eq!(resolve_sample_offset(20_000, 0, 0, 8192, false), 20_000);
}

#[test]
fn oxy_offset_inside_loop_window_is_unchanged() {
    assert_eq!(
        resolve_sample_offset(512, 256, 1024, 4096, true),
        512,
        "offset inside the loop window must not be folded"
    );
    assert_eq!(
        resolve_sample_offset(100, 256, 1024, 4096, true),
        100,
        "offset before the loop window must not be folded"
    );
}

#[test]
fn oxy_offset_exceeding_loop_end_wraps_into_loop_window() {
    assert_eq!(
        resolve_sample_offset(1500, 200, 1000, 4096, true),
        700,
        "1500 with loop [200,1000) must fold to 700"
    );
    assert_eq!(
        resolve_sample_offset(1000, 200, 1000, 4096, true),
        200,
        "an offset exactly at loop_end must fold to loop_start"
    );
    assert_eq!(
        resolve_sample_offset(200 + 2 * 800 + 50, 200, 1000, 4096, true),
        250,
        "multi-loop overshoot must fold to (loop_start + remainder)"
    );
}

#[test]
fn oxy_offset_malformed_loop_falls_back_to_raw() {
    assert_eq!(
        resolve_sample_offset(2000, 500, 500, 4096, true),
        2000,
        "zero-span loop must fall back to raw offset"
    );
    assert_eq!(
        resolve_sample_offset(2000, 100, 9000, 4096, true),
        2000,
        "loop_end past pcm_len must fall back to raw offset"
    );
}

#[test]
fn tremor_step_initial_state_restores_volume_and_arms_on_counter() {
    let mut ch = Channel {
        stored_volume: 50,
        volume: 0,
        tremor_on_counter: 0,
        tremor_off_counter: 0,
        ..Channel::default()
    };
    ch.apply_tremor_step(2, 2, mode());
    assert_eq!(ch.volume, 50, "cold-start tick restores stored volume");
    assert_eq!(ch.tremor_on_counter, 3, "on_counter armed to x+1 = 3");
    assert_eq!(ch.tremor_off_counter, 0);
}

#[test]
fn tremor_step_on_phase_decrements_until_off_transition() {
    let mut ch = Channel {
        stored_volume: 50,
        volume: 50,
        tremor_on_counter: 3,
        tremor_off_counter: 0,
        ..Channel::default()
    };
    ch.apply_tremor_step(2, 2, mode());
    assert_eq!(ch.tremor_on_counter, 2);
    assert_eq!(ch.volume, 50);
    ch.apply_tremor_step(2, 2, mode());
    assert_eq!(ch.tremor_on_counter, 1);
    assert_eq!(ch.volume, 50);
    ch.apply_tremor_step(2, 2, mode());
    assert_eq!(ch.tremor_on_counter, 0);
    assert_eq!(ch.volume, 0);
    assert_eq!(ch.tremor_off_counter, 3, "off_counter armed to y+1 = 3");
}

#[test]
fn tremor_step_off_phase_returns_to_stored_volume() {
    let mut ch = Channel {
        stored_volume: 50,
        volume: 0,
        tremor_on_counter: 0,
        tremor_off_counter: 3,
        ..Channel::default()
    };
    ch.apply_tremor_step(2, 2, mode());
    assert_eq!(ch.tremor_off_counter, 2);
    assert_eq!(ch.volume, 0);
    ch.apply_tremor_step(2, 2, mode());
    assert_eq!(ch.tremor_off_counter, 1);
    assert_eq!(ch.volume, 0);
    ch.apply_tremor_step(2, 2, mode());
    assert_eq!(ch.tremor_off_counter, 0);
    assert_eq!(ch.volume, 50, "restore reads stored_volume");
    assert_eq!(ch.tremor_on_counter, 3);
}

#[test]
fn tremor_step_restore_reads_stored_volume_not_active() {
    let mut ch = Channel {
        stored_volume: 50,
        volume: 0,
        tremor_on_counter: 0,
        tremor_off_counter: 1,
        ..Channel::default()
    };
    ch.apply_tremor_step(2, 2, mode());
    assert_eq!(
        ch.volume, 50,
        "stored_volume drives the restore, not active volume"
    );
}

#[test]
fn tremor_step_caps_restore_to_pcm_volume_peak() {
    let mut ch = Channel {
        stored_volume: 200,
        volume: 0,
        tremor_on_counter: 0,
        tremor_off_counter: 0,
        ..Channel::default()
    };
    ch.apply_tremor_step(2, 2, mode());
    assert_eq!(ch.volume, PCM_VOLUME_PEAK);
}

#[test]
fn tremor_counters_persist_across_rows_without_ixy() {
    let mut h = synth_header();
    h.flags = 0;
    h.channels = [0xFFu8; 32];
    h.channels[0] = 0;
    h.muted = [true; 32];
    h.muted[0] = false;
    h.pans = [8u8; 32];
    h.enabled_channels = 1;
    h.order = vec![0u8];

    let mut pat = Pattern::empty(2);
    pat.rows[1][0] = Cell {
        note: 0xFF,
        instrument: 0,
        volume: 0xFF,
        command: 0,
        info: 0,
    };
    let mut p = PlayerState::new(&h, vec![], vec![pat], 44_100);
    p.channels[0].stored_volume = 40;
    p.channels[0].tremor_on_counter = 2;
    p.channels[0].tremor_off_counter = 0;
    p.channels[0].volume = 40;
    p.row = 1;
    p.enter_row();
    assert_eq!(
        p.channels[0].tremor_on_counter, 2,
        "row without Ixy must not reset on_counter"
    );
    assert_eq!(
        p.channels[0].tremor_off_counter, 0,
        "row without Ixy must not reset off_counter"
    );
}

#[test]
fn tremor_volume_stays_zero_when_no_ixy_on_next_row() {
    let mut h = synth_header();
    h.flags = 0;
    h.channels = [0xFFu8; 32];
    h.channels[0] = 0;
    h.muted = [true; 32];
    h.muted[0] = false;
    h.pans = [8u8; 32];
    h.enabled_channels = 1;
    h.order = vec![0u8];

    let mut pat = Pattern::empty(2);
    pat.rows[1][0] = Cell {
        note: 0xFF,
        instrument: 0,
        volume: 0xFF,
        command: 0,
        info: 0,
    };
    let mut p = PlayerState::new(&h, vec![], vec![pat], 44_100);
    p.channels[0].volume = 0;
    p.channels[0].stored_volume = 40;
    p.row = 1;
    p.enter_row();
    assert_eq!(
        p.channels[0].volume, 0,
        "row without Ixy must not restore from stored_volume"
    );
    assert_eq!(p.channels[0].stored_volume, 40, "stored_volume untouched");
}

#[test]
fn tremor_step_with_zero_params_is_guarded_at_callsite() {
    let mut ch = Channel {
        stored_volume: 50,
        volume: 0,
        tremor_on_counter: 0,
        tremor_off_counter: 0,
        ..Channel::default()
    };
    ch.apply_tremor_step(0, 0, mode());
    assert_eq!(ch.volume, 50);
    assert_eq!(ch.tremor_on_counter, 1);
}

#[test]
fn stored_volume_tracks_instrument_default_load() {
    let mut h = synth_header();
    h.flags = 0;
    h.channels = [0xFFu8; 32];
    h.channels[0] = 0;
    h.muted = [true; 32];
    h.muted[0] = false;
    h.pans = [8u8; 32];
    h.enabled_channels = 1;
    h.order = vec![0u8];

    let sample = SampleBody {
        pcm: vec![0i16; 16],
        pcm_right: None,
        loop_start: 0,
        loop_end: 16,
        looped: true,
        volume: 64,
        c5_speed: 8363,
    };

    let mut pat = Pattern::empty(1);
    pat.rows[0][0] = Cell {
        note: 0x50,
        instrument: 1,
        volume: 0xFF,
        command: 0,
        info: 0,
    };
    let mut p = PlayerState::new(&h, vec![sample], vec![pat], 44_100);
    p.enter_row();
    assert_eq!(p.channels[0].volume, PCM_VOLUME_PEAK);
    assert_eq!(p.channels[0].stored_volume, PCM_VOLUME_PEAK);
}

#[test]
fn stored_volume_tracks_explicit_volume_column() {
    let mut h = synth_header();
    h.flags = 0;
    h.channels = [0xFFu8; 32];
    h.channels[0] = 0;
    h.muted = [true; 32];
    h.muted[0] = false;
    h.pans = [8u8; 32];
    h.enabled_channels = 1;
    h.order = vec![0u8];

    let mut pat = Pattern::empty(1);
    pat.rows[0][0] = Cell {
        note: 0xFF,
        instrument: 0,
        volume: 0x20,
        command: 0,
        info: 0,
    };
    let mut p = PlayerState::new(&h, vec![], vec![pat], 44_100);
    p.enter_row();
    assert_eq!(p.channels[0].volume, 0x20);
    assert_eq!(p.channels[0].stored_volume, 0x20);
}

#[test]
fn ixy_fires_on_tick_zero_too() {
    let mut h = synth_header();
    h.flags = 0;
    h.channels = [0xFFu8; 32];
    h.channels[0] = 0;
    h.muted = [true; 32];
    h.muted[0] = false;
    h.pans = [8u8; 32];
    h.enabled_channels = 1;
    h.order = vec![0u8];

    let sample = SampleBody {
        pcm: vec![0i16; 16],
        pcm_right: None,
        loop_start: 0,
        loop_end: 16,
        looped: true,
        volume: 40,
        c5_speed: 8363,
    };

    let mut pat = Pattern::empty(1);
    pat.rows[0][0] = Cell {
        note: 0x50,
        instrument: 1,
        volume: 0xFF,
        command: cmd::I_TREMOR,
        info: 0x22,
    };
    let mut p = PlayerState::new(&h, vec![sample], vec![pat], 44_100);
    p.channels[0].tremor_on_counter = 0;
    p.channels[0].tremor_off_counter = 0;
    p.enter_row();
    assert_eq!(p.channels[0].volume, 40);
    assert_eq!(p.channels[0].stored_volume, 40);
    assert_eq!(p.channels[0].tremor_on_counter, 3);
}

#[test]
fn oxy_trigger_inside_looped_sample_lands_in_loop_window() {
    let mut h = synth_header();
    h.flags = 0;
    h.tracker_version = 0x1320;
    h.channels = [0xFFu8; 32];
    h.channels[0] = 0;
    h.muted = [true; 32];
    h.muted[0] = false;
    h.pans = [8u8; 32];
    h.enabled_channels = 1;
    h.order = vec![0u8];

    let sample = SampleBody {
        pcm: vec![0i16; 8192],
        pcm_right: None,
        loop_start: 1024,
        loop_end: 8192,
        looped: true,
        volume: 64,
        c5_speed: 8363,
    };

    let mut pat = Pattern::empty(1);
    pat.rows[0][0] = Cell {
        note: 0x50,
        instrument: 1,
        volume: 0xFF,
        command: cmd::O_SAMPLE_OFFSET,
        info: 0x40,
    };
    let mut p = PlayerState::new(&h, vec![sample], vec![pat], 44_100);
    p.enter_row();
    assert_eq!(
        p.channels[0].note_op,
        NoteOp::Start { period: 856, offset: 2048 },
        "Oxy on a looped sample must wrap into the loop window"
    );
}

fn s00_double_trigger_pattern(row0: Cell, row1: Cell) -> (S3mHeader, SampleBody, Pattern) {
    let mut h = synth_header();
    h.flags = 0;
    h.tracker_version = 0x1320;
    h.channels = [0xFFu8; 32];
    h.channels[0] = 0;
    h.muted = [true; 32];
    h.muted[0] = false;
    h.pans = [8u8; 32];
    h.enabled_channels = 1;
    h.order = vec![0u8];

    let sample = SampleBody {
        pcm: vec![0i16; 4096],
        pcm_right: None,
        loop_start: 0,
        loop_end: 0,
        looped: false,
        volume: 32,
        c5_speed: 8363,
    };

    let mut pat = Pattern::empty(2);
    pat.rows[0][0] = row0;
    pat.rows[1][0] = row1;
    (h, sample, pat)
}

#[test]
fn s00_repeating_sdx_double_triggers_at_tick_0_and_tick_x() {
    let row0 = Cell {
        note: 0x50,
        instrument: 1,
        volume: 0xFF,
        command: cmd::S_EXTENDED,
        info: 0xD3,
    };
    let row1 = Cell {
        note: 0x53,
        instrument: 1,
        volume: 0xFF,
        command: cmd::S_EXTENDED,
        info: 0x00,
    };
    let (h, sample, pat) = s00_double_trigger_pattern(row0, row1);
    let mut p = PlayerState::new(&h, vec![sample], vec![pat], 44_100);

    p.enter_row();
    assert!(
        !p.channels[0].active,
        "row-0 SD3 must defer; channel must not be active at tick 0"
    );
    assert_eq!(
        p.channels[0].pending_delay.map(|pd| pd.fire_tick),
        Some(3),
        "row-0 SD3 must stash fire_tick=3"
    );
    assert_eq!(p.channels[0].effect_memory[cmd::S_EXTENDED as usize], 0xD3);

    for t in 1..p.speed {
        p.tick = t;
        p.apply_per_tick();
    }
    assert_eq!(
        p.channels[0].last_note, 0x50,
        "SD3 must fire at tick 3 — row-0 note must be the last trigger"
    );

    p.row = 1;
    p.enter_row();
    assert!(
        p.channels[0].active,
        "S00→SDx tick-0 leg must trigger immediately (channel active)"
    );
    assert_eq!(
        p.channels[0].last_note, 0x53,
        "S00→SDx must trigger row-1's note at tick 0"
    );
    assert_eq!(
        p.channels[0].pending_delay.map(|pd| pd.fire_tick),
        Some(3),
        "S00→SDx must ALSO stash a deferred trigger for tick x"
    );
    assert_eq!(
        p.channels[0].pending_delay.map(|pd| pd.note),
        Some(0x53),
        "deferred trigger must carry the same row's note"
    );

    for t in 1..=3u8 {
        p.tick = t;
        p.apply_per_tick();
    }
    assert!(
        p.channels[0].pending_delay.is_none(),
        "deferred trigger must be cleared after firing"
    );
    assert!(
        matches!(p.channels[0].note_op, NoteOp::Start { offset: 0, .. }),
        "tick-3 SDx fire must retrigger the sample"
    );
}

#[test]
fn freshly_written_sdx_keeps_single_trigger() {
    let row0 = Cell {
        note: 0x50,
        instrument: 1,
        volume: 0xFF,
        command: cmd::S_EXTENDED,
        info: 0xD3,
    };
    let row1 = Cell::empty();
    let (h, sample, pat) = s00_double_trigger_pattern(row0, row1);
    let mut p = PlayerState::new(&h, vec![sample], vec![pat], 44_100);

    p.enter_row();
    assert!(
        !p.channels[0].active,
        "raw SD3 must NOT trigger at tick 0 (the single-trigger contract)"
    );
    assert_eq!(
        p.channels[0].pending_delay.map(|pd| pd.fire_tick),
        Some(3),
        "raw SD3 must stash the deferred trigger for tick 3"
    );
}

/// One channel, one pattern, and the cells of its first rows.
fn player_with_rows(cells: &[Cell]) -> PlayerState {
    let mut h = synth_header();
    h.muted[0] = false;
    h.order = vec![0u8];
    let mut pat = Pattern::empty(1);
    for (i, c) in cells.iter().enumerate() {
        pat.rows[i][0] = *c;
    }
    let mut sample = dummy_sample(512);
    sample.volume = 40;
    PlayerState::new(&h, vec![sample], vec![pat], 44_100)
}

fn effect(command: u8, info: u8) -> Cell {
    Cell {
        command,
        info,
        ..Cell::empty()
    }
}

fn note(note: u8, command: u8, info: u8) -> Cell {
    Cell {
        note,
        instrument: 1,
        volume: 0xFF,
        command,
        info,
    }
}

fn play_row(p: &mut PlayerState) {
    p.tick = 0;
    p.enter_row();
    for t in 1..p.speed {
        p.tick = t;
        p.apply_per_tick();
    }
    p.tick = 0;
}

#[test]
fn periods_follow_the_table() {
    assert_eq!(note_to_period(0x40, 8363, false), 1712);
    assert_eq!(note_to_period(0x50, 7895, false), 906);
    assert_eq!(note_to_period(0x8B, 8363, false), PERIOD_TABLE[107]);
    assert_eq!(note_to_period(0xFD, 8363, false), PERIOD_TABLE[107]);
    assert_eq!(note_to_period(0x40, 0, false), 8363 * 1712);
    assert_eq!(note_to_period(0x8B, u32::MAX, false), 1);
    assert_eq!(note_to_period(0x40, 8363, true), 856);
    assert_eq!(note_to_period(0x8B, 8363, true), 113);
    assert_eq!(note_to_period(0x60, 8363, true), 428);
}

#[test]
fn lfo_exact_values() {
    let mut rng = 7u32;
    let half = [
        0, 6, 12, 18, 24, 30, 35, 40, 45, 49, 53, 56, 58, 61, 62, 63, 63, 63, 62, 61, 58, 56, 53, 49,
        45, 40, 35, 30, 24, 18, 12, 6,
    ];
    for pos in 0..=255u8 {
        let level = half[pos as usize % 32];
        let expected = if pos % 64 < 32 { level } else { -level };
        assert_eq!(waveform_sample(Waveform::Sine, pos, &mut rng), expected);
    }
    assert_eq!(rng, 7);
    for i in 1..32 {
        assert_eq!(PROTRACKER_SINE[i], PROTRACKER_SINE[32 - i]);
    }
    assert_eq!((PROTRACKER_SINE[0], PROTRACKER_SINE[12], PROTRACKER_SINE[16]), (0, 235, 255));
    assert_eq!(waveform_sample(Waveform::RampDown, 63, &mut rng), -62);
    let mut rng = 0x1234_5678u32;
    let s = waveform_sample(Waveform::Random, 0, &mut rng);
    let next = 0x1234_5678u32.wrapping_mul(1_664_525).wrapping_add(1_013_904_223);
    assert_eq!(rng, next);
    assert_eq!(s, ((next >> 24) as u8 as i8 as i32) / 2);
    assert_eq!(Waveform::from_nibble(0xE), Waveform::Square);
    assert_eq!(Waveform::from_nibble(1), Waveform::RampDown);
    assert_eq!(Waveform::from_nibble(3), Waveform::Sine);
    assert_eq!(Waveform::from_nibble(7), Waveform::Sine);
    assert_eq!(Waveform::default(), Waveform::Sine);
}

#[test]
fn volumes_peak_at_63() {
    assert_eq!(clamp_pcm_volume(62), 62);
    assert_eq!(clamp_pcm_volume(64), 63);
    assert_eq!(clamp_pcm_volume(u16::MAX), 63);
    let mut cell = note(0x40, 0, 0);
    cell.volume = 64;
    let mut p = player_with_rows(&[cell]);
    p.enter_row();
    assert_eq!(p.channels[0].volume, 63);
}

#[test]
fn volume_slides_per_tick() {
    let slid = |info: u8, fast: bool| {
        let mut p = player_with_rows(&[note(0x40, cmd::D_VOL_SLIDE, info)]);
        p.fast_slides = fast;
        play_row(&mut p);
        p.channels[0].volume
    };
    // Volume 40, five ticks after the first.
    assert_eq!(slid(0x20, false), 50);
    assert_eq!(slid(0x02, false), 30);
    assert_eq!(slid(0x34, false), 20);
    assert_eq!(slid(0x20, true), 52);
    assert_eq!(slid(0x02, true), 28);
    assert_eq!(slid(0xF3, false), 37);
    assert_eq!(slid(0x3F, true), 43);
    assert_eq!(slid(0xFF, false), 55);
    assert_eq!(slid(0x0F, false), 0);
    assert_eq!(slid(0xF0, false), 63);
}

#[test]
fn pitch_slides_and_their_fine_forms() {
    let on = |command: u8, info: u8, tick: u8| {
        let mut p = player_with_rows(&[note(0x40, command, info)]);
        p.enter_row();
        for t in 1..=tick {
            p.tick = t;
            p.apply_per_tick();
        }
        p.channels[0].pitch_op
    };
    assert_eq!(on(cmd::E_SLIDE_DOWN, 0x10, 0), PitchOp::Idle);
    assert_eq!(on(cmd::E_SLIDE_DOWN, 0x10, 1), PitchOp::Slide { units: -64 });
    assert_eq!(on(cmd::F_SLIDE_UP, 0xDF, 2), PitchOp::Slide { units: 892 });
    assert_eq!(on(cmd::E_SLIDE_DOWN, 0xF3, 0), PitchOp::Slide { units: -12 });
    assert_eq!(on(cmd::F_SLIDE_UP, 0xE3, 0), PitchOp::Slide { units: 3 });
    assert_eq!(on(cmd::F_SLIDE_UP, 0xE3, 1), PitchOp::Idle);
}

#[test]
fn tone_portamento_aims_without_restarting() {
    let mut p = player_with_rows(&[
        note(0x40, 0, 0),
        note(0x44, cmd::G_TONE_PORTA, 0x08),
        effect(cmd::G_TONE_PORTA, 0),
        effect(cmd::L_PORT_VOL, 0x01),
    ]);
    p.enter_row();
    assert_eq!(p.channels[0].note_op, NoteOp::Start { period: 1712, offset: 0 });
    p.row = 1;
    p.enter_row();
    assert_eq!(p.channels[0].note_op, NoteOp::Aim { period: 1356 });
    assert_eq!(p.channels[0].last_note, 0x44);
    p.tick = 1;
    p.apply_per_tick();
    assert_eq!(p.channels[0].note_op, NoteOp::Idle);
    assert_eq!(p.channels[0].pitch_op, PitchOp::TonePorta { step: 8 });
    // Without a note the last one is the target again.
    p.row = 2;
    p.tick = 0;
    p.enter_row();
    assert_eq!(p.channels[0].note_op, NoteOp::Aim { period: 1356 });
    assert_eq!(p.channels[0].info, 8);
    p.row = 3;
    p.enter_row();
    p.tick = 1;
    p.apply_per_tick();
    assert_eq!(p.channels[0].pitch_op, PitchOp::TonePorta { step: 8 });
    assert_eq!(p.channels[0].volume, 39);
}

#[test]
fn tone_portamento_on_a_silent_channel_starts_the_note() {
    let mut p = player_with_rows(&[note(0x44, cmd::G_TONE_PORTA, 0x08)]);
    p.enter_row();
    assert!(matches!(p.channels[0].note_op, NoteOp::Start { .. }));
    let mut q = player_with_rows(&[effect(cmd::G_TONE_PORTA, 0x08)]);
    q.enter_row();
    assert_eq!(q.channels[0].note_op, NoteOp::Idle);
    assert!(!q.channels[0].targeted);
}

#[test]
fn arpeggio_cycles_through_the_chord() {
    let mut p = player_with_rows(&[note(0x40, cmd::J_ARPEGGIO, 0x47)]);
    p.enter_row();
    let mut periods = Vec::new();
    for t in 1..6 {
        p.tick = t;
        p.apply_per_tick();
        periods.push(p.channels[0].pitch_op);
    }
    let arp = |i: usize| PitchOp::Arpeggio { period: PERIOD_TABLE[48 + i] };
    assert_eq!(periods, vec![arp(4), arp(7), arp(0), arp(4), arp(7)]);
    p.channels[0].last_note = 0x8B;
    p.tick = 1;
    p.apply_per_tick();
    assert_eq!(p.channels[0].pitch_op, PitchOp::Arpeggio { period: PERIOD_TABLE[107] });
}

#[test]
fn vibrato_and_fine_vibrato_share_their_memory() {
    let mut p = player_with_rows(&[
        note(0x40, cmd::H_VIBRATO, 0x4F),
        effect(cmd::U_FINE_VIBRATO, 0),
    ]);
    p.enter_row();
    p.tick = 1;
    p.apply_per_tick();
    // Phase 16 is the peak: 63 * 15 / 128, and 63 * 15 / 512.
    assert_eq!(p.channels[0].pitch_op, PitchOp::Vibrato { delta: 7 });
    p.row = 1;
    p.tick = 0;
    p.channels[0].vibrato_pos = 0;
    p.enter_row();
    assert_eq!(p.channels[0].info, 0x4F);
    p.tick = 1;
    p.apply_per_tick();
    assert_eq!(p.channels[0].pitch_op, PitchOp::Vibrato { delta: 1 });
    assert_eq!(effect_memory_slot(cmd::U_FINE_VIBRATO), cmd::H_VIBRATO);
}

#[test]
fn tremolo_swings_around_the_stored_volume() {
    let mut p = player_with_rows(&[
        note(0x40, cmd::R_TREMOLO, 0xF4),
        effect(cmd::R_TREMOLO, 0),
    ]);
    p.enter_row();
    assert_eq!(p.channels[0].volume, 40);
    p.tick = 1;
    p.apply_per_tick();
    // Phase 60, table position 15: 63 * 16 / 128.
    assert_eq!(p.channels[0].tremolo_pos, 60);
    assert_eq!(p.channels[0].volume, 47);
    p.tick = 2;
    p.apply_per_tick();
    // Phase 120, table position 30: 12 * 16 / 128.
    assert_eq!(p.channels[0].volume, 41);
    p.tick = 3;
    p.apply_per_tick();
    p.tick = 4;
    p.apply_per_tick();
    p.tick = 5;
    p.apply_per_tick();
    // Phase 300 - 256, table position 11: 56 * 16 / 128.
    assert_eq!(p.channels[0].tremolo_pos, 44);
    assert_eq!(p.channels[0].volume, 47);
    assert_eq!(p.channels[0].stored_volume, 40);
    // Without a stored volume nothing moves.
    p.channels[0].stored_volume = 0;
    p.row = 1;
    play_row(&mut p);
    assert_eq!(p.channels[0].tremolo_pos, 44);
}

#[test]
fn note_cut_freezes_until_resumed() {
    let mut p = player_with_rows(&[
        note(0x40, cmd::S_EXTENDED, 0xC2),
        effect(cmd::V_GLOBAL_VOL, 0x40),
        effect(cmd::H_VIBRATO, 0x11),
    ]);
    p.enter_row();
    p.tick = 1;
    p.apply_per_tick();
    assert!(!p.channels[0].frozen);
    p.tick = 2;
    p.apply_per_tick();
    assert!(p.channels[0].frozen && p.channels[0].active);
    assert_eq!(p.channels[0].volume, 40);
    p.tick = 0;
    p.row = 1;
    p.enter_row();
    assert!(p.channels[0].frozen);
    p.row = 2;
    p.enter_row();
    assert!(!p.channels[0].frozen);
}

#[test]
fn extended_commands_set_up_the_channel() {
    let after = |info: u8| {
        let mut p = player_with_rows(&[note(0x40, cmd::S_EXTENDED, info)]);
        p.enter_row();
        p.channels[0]
    };
    assert!(after(0x11).glissando);
    assert!(!after(0x10).glissando);
    let tuned = after(0x20);
    assert_eq!(tuned.c5_speed, 7895);
    assert_eq!(tuned.pitch_op, PitchOp::Retune { period: 8363 * 1712 / 7895 });
    assert_eq!(after(0x36).vibrato_waveform, Waveform::Square);
    assert!(after(0x36).keep_vibrato_pos_on_new_note);
    assert_eq!(after(0x41).tremolo_waveform, Waveform::RampDown);
    assert!(!after(0x41).keep_tremolo_pos_on_new_note);
    assert_eq!(after(0x8C).pan, 12);
    assert_eq!(after(0x33).vibrato_waveform, Waveform::Sine);
    assert_eq!(after(0x43).tremolo_waveform, Waveform::Sine);
    let mut p = player_with_rows(&[effect(cmd::X_SET_PAN, 0x40)]);
    p.enter_row();
    assert_eq!(p.channels[0].pan, 7);
    let mut p = player_with_rows(&[effect(cmd::X_SET_PAN, 0xFF)]);
    p.enter_row();
    assert_eq!(p.channels[0].pan, 15);
}

#[test]
fn stereo_control_goes_by_the_bank() {
    for (setting, own, other) in [(0x02, 3, 12), (0x0B, 12, 3), (0x83, 3, 12), (0xFF, 8, 8)] {
        let after = |info: u8, pan: u8| {
            let mut h = synth_header();
            h.channels[0] = setting;
            h.order = vec![0];
            h.pans[0] = pan;
            let mut pattern = Pattern::empty(32);
            pattern.rows[0][0] = effect(cmd::S_EXTENDED, info);
            let mut p = PlayerState::new(&h, Vec::new(), vec![pattern], 44_100);
            p.enter_row();
            p.channels[0].pan
        };
        for pan in [0, 5, 15] {
            for info in 0xA0..=0xAF {
                let expected = match info {
                    0xA0 | 0xA2 => own,
                    0xA1 | 0xA3 => other,
                    0xA4..=0xA7 => 7,
                    _ => pan,
                };
                assert_eq!(after(info, pan), expected, "S{info:02X} on a channel set to {setting}");
            }
        }
    }
}

#[test]
fn stereo_control_can_be_undone() {
    let mut h = synth_header();
    h.channels[0] = 9;
    h.order = vec![0];
    let mut pattern = Pattern::empty(1);
    for (i, info) in [0xA1, 0xA5, 0xA2, 0x80, 0xAC, 0xA0].into_iter().enumerate() {
        pattern.rows[i][0] = effect(cmd::S_EXTENDED, info);
    }
    let mut p = PlayerState::new(&h, Vec::new(), vec![pattern], 44_100);
    let mut pans = Vec::new();
    for row in 0..6 {
        p.row = row;
        p.tick = 0;
        p.enter_row();
        p.tick = 1;
        p.apply_per_tick();
        pans.push(p.channels[0].pan);
    }
    assert_eq!(pans, vec![3, 7, 12, 0, 0, 12]);
}

#[test]
fn new_notes_reset_the_phases_unless_told_not_to() {
    let mut p = player_with_rows(&[note(0x40, 0, 0)]);
    p.channels[0].vibrato_pos = 9;
    p.channels[0].tremolo_pos = 99;
    p.channels[0].keep_tremolo_pos_on_new_note = true;
    p.enter_row();
    assert_eq!(p.channels[0].vibrato_pos, 0);
    assert_eq!(p.channels[0].tremolo_pos, 99);
}

#[test]
fn commands_without_memory_take_zero_as_it_stands() {
    let mut p = player_with_rows(&[
        effect(cmd::V_GLOBAL_VOL, 0x20),
        effect(cmd::V_GLOBAL_VOL, 0),
        effect(cmd::T_SET_TEMPO, 0x80),
        effect(cmd::T_SET_TEMPO, 0),
        effect(cmd::A_SET_SPEED, 3),
        effect(cmd::A_SET_SPEED, 0),
        effect(cmd::B_POS_JUMP, 7),
        effect(cmd::B_POS_JUMP, 0),
        effect(200, 9),
        effect(200, 0),
    ]);
    play_row(&mut p);
    assert_eq!(p.global_volume, 0x20);
    p.row = 1;
    play_row(&mut p);
    assert_eq!(p.global_volume, 0);
    p.row = 2;
    play_row(&mut p);
    p.row = 3;
    play_row(&mut p);
    assert_eq!(p.bpm, 0x80);
    p.row = 4;
    play_row(&mut p);
    p.row = 5;
    play_row(&mut p);
    assert_eq!(p.speed, 3);
    p.row = 7;
    play_row(&mut p);
    assert_eq!(p.pending_jump, Some(Jump { order: Some(0), row: 0, within_pattern: false }));
    p.row = 8;
    play_row(&mut p);
    p.row = 9;
    play_row(&mut p);
    assert_eq!(p.channels[0].info, 0);
}

#[test]
fn global_volume_is_latched_by_volume_writes() {
    let mut p = player_with_rows(&[
        note(0x40, cmd::V_GLOBAL_VOL, 0x10),
        effect(0, 0),
        effect(cmd::D_VOL_SLIDE, 0x01),
    ]);
    play_row(&mut p);
    assert_eq!((p.global_volume, p.channels[0].latched_global), (0x10, 64));
    p.row = 1;
    play_row(&mut p);
    assert_eq!(p.channels[0].latched_global, 64);
    p.row = 2;
    play_row(&mut p);
    assert_eq!(p.channels[0].latched_global, 0x10);
    // A note held back past tick 1 takes the new value.
    let mut cell = note(0x40, cmd::S_EXTENDED, 0xD2);
    cell.volume = 30;
    let mut q = player_with_rows(&[cell]);
    q.enter_row();
    q.pending_global_vol = Some(0x08);
    for t in 1..3 {
        q.tick = t;
        q.apply_per_tick();
    }
    assert_eq!(q.channels[0].latched_global, 0x08);
    assert_eq!(q.channels[0].volume, 30);
}

#[test]
fn a_zero_note_byte_is_no_note() {
    let mut p = player_with_rows(&[note(0x00, 0, 0)]);
    p.enter_row();
    assert_eq!(p.channels[0].note_op, NoteOp::Idle);
    assert_eq!(p.channels[0].volume, 40);
    let mut q = player_with_rows(&[note(0x40, 0, 0), note(0xFE, 0, 0)]);
    q.enter_row();
    q.row = 1;
    q.enter_row();
    assert_eq!(q.channels[0].note_op, NoteOp::Cut);
    assert!(!q.channels[0].active && !q.channels[0].pitched);
}

/// Rows in the order they are entered, as pairs of order and row.
fn course(p: &mut PlayerState, rows: usize) -> Vec<(u8, u8)> {
    let mut seen = Vec::new();
    while seen.len() < rows && !p.ended {
        p.enter_row();
        if p.ended {
            break;
        }
        seen.push((p.order_index, p.row));
        p.next_row();
    }
    seen
}

#[test]
fn pattern_loop_goes_back_x_times() {
    let mut p = player_with_rows(&[
        effect(0, 0),
        effect(cmd::S_EXTENDED, 0xB0),
        effect(cmd::S_EXTENDED, 0xB2),
        effect(0, 0),
    ]);
    let rows: Vec<u8> = course(&mut p, 9).iter().map(|r| r.1).collect();
    assert_eq!(rows, vec![0, 1, 2, 1, 2, 1, 2, 3, 4]);
}

#[test]
fn pattern_loop_without_start_goes_to_the_top() {
    let mut h = synth_header();
    h.order = vec![0, 1];
    let mut a = Pattern::empty(1);
    a.rows[5][0] = effect(cmd::S_EXTENDED, 0xB0);
    a.rows[6][0] = effect(cmd::C_PAT_BREAK, 0x00);
    let mut b = Pattern::empty(1);
    b.rows[1][0] = effect(cmd::S_EXTENDED, 0xB1);
    let mut p = PlayerState::new(&h, Vec::new(), vec![a, b], 44_100);
    let rows = course(&mut p, 12);
    assert_eq!(&rows[5..], &[(0, 5), (0, 6), (1, 0), (1, 1), (1, 0), (1, 1), (1, 2)]);
}

#[test]
fn pattern_delay_holds_the_row() {
    let mut p = player_with_rows(&[note(0x40, cmd::S_EXTENDED, 0xE2), effect(0, 0)]);
    p.enter_row();
    assert!(matches!(p.channels[0].note_op, NoteOp::Start { .. }));
    for _ in 0..2 {
        p.next_row();
        assert_eq!(p.row, 0);
        p.enter_row();
        assert_eq!(p.channels[0].note_op, NoteOp::Idle);
    }
    p.next_row();
    assert_eq!(p.row, 1);
}

#[test]
fn order_markers_are_passed_over() {
    let mut h = synth_header();
    h.order = vec![0xFE, 0xFE, 0, 0xFE, 0xFF, 0];
    let mut p = PlayerState::new(&h, Vec::new(), vec![Pattern::empty(1)], 44_100);
    let rows = course(&mut p, 1000);
    assert_eq!(rows.len(), 64);
    assert_eq!(rows[63], (2, 63));
    assert!(p.ended);
    // Markers to the very end of what an index can name end the song too.
    h.order = vec![0xFE; 300];
    let mut q = PlayerState::new(&h, Vec::new(), vec![Pattern::empty(1)], 44_100);
    assert_eq!(q.advance(10), 0);
    assert!(q.ended);
    // So does a pattern that the file does not have.
    h.order = vec![3];
    let mut r = PlayerState::new(&h, Vec::new(), vec![Pattern::empty(1)], 44_100);
    assert_eq!(r.advance(10), 0);
}

#[test]
fn jumps_merge_and_rightmost_counts() {
    let mut h = synth_header();
    h.order = vec![0, 1, 2];
    let mut a = Pattern::empty(4);
    a.rows[0][0] = effect(cmd::C_PAT_BREAK, 0x15);
    a.rows[0][1] = effect(cmd::B_POS_JUMP, 1);
    a.rows[0][2] = effect(cmd::B_POS_JUMP, 2);
    a.rows[0][3] = effect(cmd::C_PAT_BREAK, 0x64);
    let patterns = vec![a, Pattern::empty(4), Pattern::empty(4)];
    let mut p = PlayerState::new(&h, Vec::new(), patterns, 44_100);
    assert_eq!(course(&mut p, 2), vec![(0, 0), (2, 15)]);
}

#[test]
fn ticks_last_as_long_as_the_tempo_says() {
    let mut p = player_with_rows(&[]);
    assert_eq!(p.samples_per_tick(), 882);
    for rate in [8000u32, 22_050, 44_100, 48_000, 96_000] {
        p.sample_rate = rate;
        for bpm in 1..=255u8 {
            p.bpm = bpm;
            let float = ((rate as f32) * 2.5 / bpm as f32) as u32;
            assert_eq!(p.samples_per_tick(), float);
        }
    }
    p.bpm = 0;
    p.sample_rate = u32::MAX;
    assert_eq!(p.samples_per_tick(), u32::MAX);
}

#[test]
fn frames_stop_at_ticks_and_at_the_end() {
    let mut p = player_with_rows(&[note(0x40, 0, 0)]);
    assert_eq!(p.begin_frames(0), 0);
    assert_eq!(p.begin_frames(10), 10);
    assert!(matches!(p.channels[0].note_op, NoteOp::Start { .. }));
    p.finish_frames(10);
    assert_eq!(p.tick_sample_cursor, 10);
    assert_eq!(p.begin_frames(5000), 872);
    p.finish_frames(872);
    assert_eq!((p.tick, p.tick_sample_cursor), (1, 0));
    // 64 rows of 6 ticks of 882 frames.
    assert_eq!(p.advance(10_000_000), 64 * 6 * 882 - 882);
    assert!(p.ended);
    assert_eq!(p.begin_frames(10), 0);
}

#[test]
fn a_song_may_be_played_in_chunks() {
    let cells = [
        note(0x40, cmd::A_SET_SPEED, 3),
        note(0x42, cmd::T_SET_TEMPO, 0x60),
        effect(cmd::S_EXTENDED, 0xB3),
        effect(cmd::S_EXTENDED, 0xE2),
    ];
    let mut whole = player_with_rows(&cells);
    let total = whole.advance(usize::MAX);
    for chunk in [1usize, 7, 882, 1024, 5000] {
        let mut p = player_with_rows(&cells);
        let mut sum = 0;
        loop {
            let n = p.advance(chunk);
            sum += n;
            if n < chunk {
                break;
            }
        }
        assert_eq!(sum, total);
        assert_eq!((p.order_index, p.row, p.tick), (whole.order_index, whole.row, whole.tick));
    }
}

#[test]
fn voices_read_within_the_loop() {
    let mut body = dummy_sample(100);
    let tap = body.locate(99).unwrap();
    assert_eq!((tap.frame, tap.here, tap.next), (99, 99, 99));
    assert!(body.locate(100).is_none());
    body.looped = true;
    body.loop_start = 10;
    body.loop_end = 50;
    let tap = body.locate(49).unwrap();
    assert_eq!((tap.frame, tap.here, tap.next), (49, 49, 10));
    let tap = body.locate(50).unwrap();
    assert_eq!((tap.frame, tap.here, tap.next), (10, 10, 11));
    let tap = body.locate(10 + 40 * 7 + 3).unwrap();
    assert_eq!(tap.frame, 13);
    // A loop that reaches past the data reads its last frame.
    body.loop_end = 200;
    let tap = body.locate(150).unwrap();
    assert_eq!((tap.frame, tap.here, tap.next), (150, 99, 99));
}

#[test]
fn muted_voices_keep_step_with_heard_ones() {
    let mut looped = dummy_sample(100);
    looped.looped = true;
    looped.loop_start = 10;
    looped.loop_end = 50;
    let samples = vec![dummy_sample(100), looped];
    for instrument in [1, 2] {
        for frame in [0, 49, 50, 99, 100, 290] {
            let mut heard = live_channel();
            heard.instrument = instrument;
            let mut muted = heard;
            muted.muted = true;
            let a = heard.read(&samples, frame);
            let b = muted.read(&samples, frame);
            assert_eq!(a.map(|r| r.tap), b.map(|r| r.tap));
            assert_eq!((heard.active, heard.volume), (muted.active, muted.volume));
            assert_eq!(heard.active, instrument == 2 || frame < 100);
        }
    }
}

#[test]
fn silent_voices_have_no_sample_to_read() {
    let samples = vec![dummy_sample(0)];
    let mut ch = live_channel();
    assert_eq!(ch.gate(&samples), Gate::Silent);
    ch.instrument = 2;
    assert_eq!(ch.gate(&samples), Gate::Silent);
    ch.instrument = 0;
    assert_eq!(ch.gate(&samples), Gate::Silent);
}

#[test]
fn tremor_cycles_with_its_period() {
    let mut ch = Channel {
        stored_volume: 50,
        ..Channel::default()
    };
    let mut volumes = Vec::new();
    for _ in 0..11 {
        ch.apply_tremor_step(1, 2, mode());
        volumes.push(ch.volume);
    }
    assert_eq!(volumes, vec![50, 50, 0, 0, 0, 50, 50, 0, 0, 0, 50]);
    assert_eq!(ch.stored_volume, 50);
}

#[test]
fn pattern_loop_goes_before_other_jumps() {
    let mut h = synth_header();
    h.order = vec![0, 0];
    let mut a = Pattern::empty(2);
    a.rows[1][0] = effect(cmd::S_EXTENDED, 0xB1);
    a.rows[1][1] = effect(cmd::C_PAT_BREAK, 0x20);
    let mut p = PlayerState::new(&h, Vec::new(), vec![a], 44_100);
    assert_eq!(course(&mut p, 5), vec![(0, 0), (0, 1), (0, 0), (0, 1), (1, 20)]);
}

#[test]
fn retrigger_count_lasts_as_long_as_the_effect() {
    let mut p = player_with_rows(&[
        note(0x40, cmd::Q_RETRIGGER, 0x04),
        note(0x42, cmd::Q_RETRIGGER, 0x04),
        effect(0, 0),
    ]);
    play_row(&mut p);
    assert_eq!(p.channels[0].retrig_counter, 2);
    p.row = 1;
    p.enter_row();
    assert_eq!(p.channels[0].retrig_counter, 3);
    p.row = 2;
    p.enter_row();
    assert_eq!(p.channels[0].retrig_counter, 0);
}

#[test]
fn voices_have_no_bearing_on_the_course() {
    let cells = [
        note(0x40, cmd::G_TONE_PORTA, 3),
        effect(cmd::S_EXTENDED, 0xB2),
        note(0x42, cmd::S_EXTENDED, 0xE1),
        effect(cmd::S_EXTENDED, 0),
        effect(cmd::T_SET_TEMPO, 0x90),
    ];
    let mut quiet = player_with_rows(&cells);
    let mut loud = player_with_rows(&cells);
    let (mut a, mut b) = (0, 0);
    loop {
        let n = quiet.begin_frames(600);
        let m = loud.begin_frames(600);
        assert_eq!(n, m);
        if n == 0 {
            break;
        }
        for ch in &mut loud.channels {
            ch.pitched = !ch.pitched;
            ch.targeted = true;
            ch.active = !ch.active;
        }
        quiet.finish_frames(n);
        loud.finish_frames(m);
        a += n;
        b += m;
        assert_eq!((quiet.row, quiet.tick), (loud.row, loud.tick));
    }
    assert_eq!(a, b);
}

#[test]
fn mode_reflects_the_player() {
    let mut p = player_with_rows(&[]);
    p.global_volume = 12;
    p.amiga_limits = true;
    assert_eq!(
        p.mode(),
        Mode { global_volume: 12, fast_slides: false, amiga_limits: true }
    );
    p.channels[0] = live_channel();
    p.channels[0].last_note = 0x40;
    let mode = p.mode();
    p.channels[0].apply_finetune(8363, mode);
    assert_eq!(p.channels[0].pitch_op, PitchOp::Retune { period: 856 });
}

#[test]
fn fine_slides_disable_combined_effects() {
    for command in [cmd::K_VIB_VOL, cmd::L_PORT_VOL] {
        let mut p = player_with_rows(&[note(0x40, 0, 0), effect(command, 0xF3)]);
        p.channels[0].effect_memory[cmd::H_VIBRATO as usize] = 0x48;
        p.channels[0].effect_memory[cmd::G_TONE_PORTA as usize] = 0x08;
        play_row(&mut p);
        p.row = 1;
        play_row(&mut p);
        assert_eq!(p.channels[0].volume, 40);
        assert_eq!(p.channels[0].pitch_op, PitchOp::Idle);
    }
}

#[test]
fn a_cut_on_tick_zero_is_ignored() {
    let mut p = player_with_rows(&[note(0x40, cmd::S_EXTENDED, 0xC0)]);
    play_row(&mut p);
    assert!(!p.channels[0].frozen && p.channels[0].active);
}

#[test]
fn a_short_stretch_is_the_last() {
    let mut p = player_with_rows(&[note(0x40, 0, 0)]);
    let length = 64 * 6 * 882;
    assert_eq!(p.advance(length), length);
    assert_eq!(p.advance(1), 0);
    assert!(p.ended);
    let mut q = player_with_rows(&[note(0x40, 0, 0)]);
    assert_eq!(q.advance(length + 5), length);
    assert!(q.ended);
    let (row, tick) = (q.row, q.tick);
    for _ in 0..3 {
        assert_eq!(q.advance(1000), 0);
        assert_eq!((q.row, q.tick), (row, tick));
    }
}

#[test]
fn a_player_knows_whether_it_can_play() {
    let mut p = player_with_rows(&[]);
    assert!(p.can_play());
    p.advance(5000);
    assert!(p.can_play());
    p.pending_jump = Some(Jump { order: None, row: 64, within_pattern: false });
    assert!(!p.can_play());
    p.pending_jump = None;
    p.tick = p.speed;
    assert!(!p.can_play());
    p.tick = 0;
    p.tick_sample_cursor = 882;
    assert!(!p.can_play());
    p.tick_sample_cursor = 0;
    p.patterns[0].rows.pop();
    assert!(!p.can_play());
}
