use wsg_play::audio::{Control, Sound};

#[test]
fn it_works() {
    assert_eq!(2 + 2, 4);
}

fn pattern(n: usize) -> Vec<i16> {
    (0..n).map(|i| ((i as i32 * 37 % 2000) - 1000 + 1) as i16).collect()
}

#[test]
fn new_buffer_is_silent_and_empty() {
    let mut s = Sound::new(16);
    assert_eq!(s.buf_size(), 16);
    assert_eq!(s.remain(), 0);
    assert_eq!(s.current(), 0);
    assert_eq!(s.called(), 0);
    assert_eq!(s.volume(), 0);
    assert!(!s.mute());
    assert_eq!(s.read_one(), 0);
    assert_eq!(s.current(), 0);
}

#[test]
fn fill_push_read_scenario() {
    let mut s = Sound::new(4096);
    s.set_volume(7);
    s.set_silent_data();
    assert_eq!(s.remain(), 4096);
    assert_eq!(s.current(), 0);
    let data = pattern(800);
    s.push_data(&data);
    let mut out = Vec::new();
    for _ in 0..800 {
        out.push(s.read_one());
    }
    assert_eq!(out, data);
    assert_eq!(s.read_one(), 0);
}

#[test]
fn push_after_drained_silence_reads_back() {
    let mut s = Sound::new(4096);
    s.set_volume(7);
    s.set_silent_data();
    for _ in 0..4096 {
        assert_eq!(s.read_one(), 0);
    }
    let data = pattern(800);
    s.push_data(&data);
    assert_eq!(s.remain(), 800);
    let out: Vec<i16> = (0..800).map(|_| s.read_one()).collect();
    assert_eq!(out, data);
    assert_eq!(s.remain(), 0);
    assert_eq!(s.read_one(), 0);
    assert_eq!(s.current(), 4096 + 800);
}

#[test]
fn round_trip_with_wraparound() {
    let mut s = Sound::new(10);
    s.set_volume(7);
    s.push_data(&[1, 2, 3, 4, 5, 6, 7]);
    for k in 1..=7 {
        assert_eq!(s.read_one(), k);
    }
    s.push_data(&[8, 9, 10, 11, 12, 13]);
    assert_eq!(s.remain(), 6);
    for k in 8..=13 {
        assert_eq!(s.read_one(), k);
    }
    assert_eq!(s.remain(), 0);
    assert_eq!(s.read_one(), 0);
}

#[test]
fn several_blocks_read_back_in_order() {
    let mut s = Sound::new(32);
    s.set_volume(7);
    s.push_data(&[1, 2, 3]);
    s.push_data(&[4, 5]);
    s.push_data(&[6, 7, 8, 9]);
    let got: Vec<i16> = (0..9).map(|_| s.read_one()).collect();
    assert_eq!(got, vec![1, 2, 3, 4, 5, 6, 7, 8, 9]);
}

#[test]
fn silence_reads_zero_and_remain_never_grows() {
    let mut s = Sound::new(8);
    s.set_volume(7);
    s.push_data(&[5, 5, 5, 5]);
    s.set_silent_data();
    let mut last = s.remain();
    assert_eq!(last, 8);
    for _ in 0..20 {
        assert_eq!(s.read_one(), 0);
        assert!(s.remain() <= last);
        last = s.remain();
    }
    assert_eq!(s.remain(), 0);
}

#[test]
fn volume_one_shifts_by_six() {
    let mut s = Sound::new(8);
    s.set_volume(1);
    s.push_data(&[i16::MAX, i16::MIN, 640]);
    assert_eq!(s.read_one(), i16::MAX >> 6);
    assert_eq!(s.read_one(), i16::MIN >> 6);
    assert_eq!(s.read_one(), 10);
}

#[test]
fn each_volume_level_attenuates_by_its_shift() {
    for v in 1u16..=6 {
        let mut s = Sound::new(4);
        s.set_volume(v);
        s.push_data(&[i16::MAX]);
        assert_eq!(s.read_one(), i16::MAX >> (7 - v));
    }
    let mut s = Sound::new(4);
    s.set_volume(7);
    s.push_data(&[i16::MAX]);
    assert_eq!(s.read_one(), i16::MAX);
    let mut s = Sound::new(4);
    s.set_volume(0);
    s.push_data(&[i16::MAX]);
    assert_eq!(s.read_one(), 0);
    assert_eq!(s.remain(), 0);
}

#[test]
fn mute_silences_every_read() {
    let mut s = Sound::new(8);
    s.set_volume(7);
    s.set_mute(true);
    s.push_data(&[100, -100, i16::MAX, 1]);
    for _ in 0..4 {
        assert_eq!(s.read_one(), 0);
    }
    assert_eq!(s.remain(), 0);
    assert_eq!(s.current(), 4);
    s.set_mute(false);
    s.push_data(&[42]);
    assert_eq!(s.read_one(), 42);
}

#[test]
fn set_data_writes_at_absolute_position_wrapping() {
    let mut s = Sound::new(4);
    s.set_volume(7);
    s.set_data(6, &[1, 2, 3]);
    assert_eq!(s.remain(), 3);
    // positions 2, 3, 0 hold 1, 2, 3; the reader starts at position 0
    assert_eq!(s.read_one(), 3);
    assert_eq!(s.read_one(), 0);
    assert_eq!(s.read_one(), 1);
}

#[test]
fn overrun_overwrites_older_samples() {
    let mut s = Sound::new(4);
    s.set_volume(7);
    s.push_data(&[1, 2, 3, 4, 5, 6]);
    assert_eq!(s.remain(), 6);
    let got: Vec<i16> = (0..6).map(|_| s.read_one()).collect();
    assert_eq!(got, vec![5, 6, 3, 4, 5, 6]);
}

#[test]
fn callback_fills_a_block_and_counts_it() {
    let mut s = Sound::new(8);
    s.set_volume(7);
    s.push_data(&[1, 2, 3]);
    let mut out = [9i16; 5];
    s.callback(&mut out);
    assert_eq!(out, [1, 2, 3, 0, 0]);
    assert_eq!(s.called(), 1);
    assert_eq!(s.remain(), 0);
    s.callback(&mut out);
    assert_eq!(s.called(), 2);
}
