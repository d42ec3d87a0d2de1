use wsg_play::sound_generator::{ramp_gain, PanPot, SoundGenerator, FULL_GAIN, GAIN_UP_TRANSITION};

const SILENT: [(usize, i32, i32); 8] = [(0, 0, 0); 8];

#[test]
fn new_generator_shape() {
    let g = SoundGenerator::new(48000);
    assert_eq!(g.sampling_freq(), 48000);
    assert_eq!(g.samples_per_frame(), 800);
    assert_eq!(g.mixed_buffer().len(), 1600);
    assert!(g.mixed_buffer().iter().all(|&x| x == 0));
    assert_eq!(g.master_gain, 7);
    assert_eq!(g.panpot, [PanPot::Center; 8]);
    assert_eq!(g.mute, [false; 8]);
}

#[test]
fn silent_registers_give_silence() {
    let mut g = SoundGenerator::new(48000);
    g.generate(&SILENT);
    assert!(g.mixed_buffer().iter().all(|&x| x == 0));
}

#[test]
fn first_output_sample_of_a_left_voice() {
    let mut g = SoundGenerator::new(48000);
    g.panpot[0] = PanPot::Left;
    let mut regs = SILENT;
    regs[0] = (0, 0x1_0000, 15);
    g.generate(&regs);
    // four internal samples of step 0 of waveform 0 (-28672), at gains
    // 0x10, 0x20, 0x30, 0x40: -119 - 238 - 358 - 477 = -1192, over 4 * 8
    assert_eq!(g.mixed_buffer()[0], -37);
    assert_eq!(g.mixed_buffer()[1], 0);
    assert!(g.mixed_buffer().iter().any(|&x| x != 0));
}

#[test]
fn a_tone_sounds_on_both_channels_when_centred() {
    let mut g = SoundGenerator::new(48000);
    let mut regs = SILENT;
    regs[3] = (4, 0x2_54A8, 12);
    g.generate(&regs);
    g.generate(&regs);
    let buf = g.mixed_buffer();
    assert!(buf.iter().any(|&x| x != 0));
    for k in 0..800 {
        assert_eq!(buf[2 * k], buf[2 * k + 1]);
    }
}

#[test]
fn master_gain_zero_and_mute_silence_the_output() {
    let mut regs = SILENT;
    regs[0] = (0, 0x1_0000, 15);
    let mut g = SoundGenerator::new(48000);
    g.master_gain = 0;
    g.generate(&regs);
    assert!(g.mixed_buffer().iter().all(|&x| x == 0));
    let mut g = SoundGenerator::new(48000);
    g.mute[0] = true;
    g.generate(&regs);
    assert!(g.mixed_buffer().iter().all(|&x| x == 0));
}

#[test]
fn master_gain_shifts_the_output() {
    let mut regs = SILENT;
    regs[0] = (0, 0x1_0000, 15);
    let mut loud = SoundGenerator::new(48000);
    loud.panpot[0] = PanPot::Left;
    loud.generate(&regs);
    let mut soft = SoundGenerator::new(48000);
    soft.panpot[0] = PanPot::Left;
    soft.master_gain = 1;
    soft.generate(&regs);
    for k in 0..1600 {
        assert_eq!(soft.mixed_buffer()[k], loud.mixed_buffer()[k] >> 6);
    }
}

#[test]
fn ramp_moves_one_step_without_overshoot() {
    assert_eq!(ramp_gain(0, FULL_GAIN), 0x10);
    assert_eq!(ramp_gain(0xf8, 0x100), 0x100);
    assert_eq!(ramp_gain(0x100, 0), 0xf0);
    assert_eq!(ramp_gain(5, 0), 0);
    assert_eq!(ramp_gain(0x300, 0x300), 0x300);
}

#[test]
fn gain_never_jumps_to_a_new_target() {
    let mut g = 0;
    let mut steps = 0;
    while g != FULL_GAIN {
        let next = ramp_gain(g, FULL_GAIN);
        assert!(next - g <= GAIN_UP_TRANSITION && next > g);
        g = next;
        steps += 1;
    }
    assert_eq!(steps, 240);
    let next = ramp_gain(g, 0);
    assert_eq!(g - next, 0x10);
}

#[test]
fn clear_resets_voices_and_settings() {
    let mut g = SoundGenerator::new(44100);
    assert_eq!(g.samples_per_frame(), 735);
    g.mute[2] = true;
    g.panpot[1] = PanPot::Right;
    let mut regs = SILENT;
    regs[1] = (2, 0x3_0000, 9);
    g.generate(&regs);
    g.clear();
    assert_eq!(g.mute, [false; 8]);
    assert_eq!(g.panpot, [PanPot::Center; 8]);
    assert!(g.mixed_buffer().iter().all(|&x| x == 0));
    g.generate(&SILENT);
    assert!(g.mixed_buffer().iter().all(|&x| x == 0));
}
