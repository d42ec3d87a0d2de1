use wsg_play::sound_manager::sound_index::{SoundIdx, NUM_SOUND_IDX};
use wsg_play::sound_manager::{ScorePart, SoundManager};

const NOTE_0: i32 = 0x02_54A8;

fn part(code: &[u8]) -> ScorePart {
    ScorePart { code: code.to_vec(), scale: 0 }
}

fn table(entries: Vec<(SoundIdx, Vec<ScorePart>)>) -> Vec<Vec<ScorePart>> {
    let mut t: Vec<Vec<ScorePart>> = (0..NUM_SOUND_IDX).map(|_| Vec::new()).collect();
    for (idx, parts) in entries {
        t[idx.index()] = parts;
    }
    t
}

/// unit 1 tick, envelope 0 (full level), waveform 0, key 0 for `len` ticks
fn one_note(len: u8) -> Vec<u8> {
    vec![0xf2, 1, 0xf1, 0, 0xf0, 0x00, 0x00, len, 0xf3]
}

#[test]
fn floor_start_plays_to_its_end_mark() {
    let i = SoundIdx::FloorStart.index();
    let mut m = SoundManager::new(table(vec![(SoundIdx::FloorStart, vec![part(&one_note(2))])])).unwrap();
    m.play_request[i] = 1;
    m.run();
    assert!(m.play_progress(i));
    assert_eq!(m.get_ch_registers()[0], (0, NOTE_0, 15));
    m.run();
    assert!(m.play_progress(i));
    assert_eq!(m.get_ch_registers()[0], (0, NOTE_0, 15));
    m.run();
    assert!(!m.play_progress(i));
    assert_eq!(m.play_request[i], 0);
    assert_eq!(m.get_ch_registers()[0], (0, 0, 0));
}

#[test]
fn suppressing_the_last_silence_ends_one_tick_earlier() {
    let i = SoundIdx::FloorStart.index();
    let mut m = SoundManager::new(table(vec![(SoundIdx::FloorStart, vec![part(&one_note(2))])])).unwrap();
    m.suppress_last_silence = true;
    m.play_request[i] = 1;
    m.run();
    assert!(m.play_progress(i));
    m.run();
    assert!(!m.play_progress(i));
    assert_eq!(m.play_request[i], 0);
    assert_eq!(m.get_ch_registers()[0], (0, NOTE_0, 15));
}

#[test]
fn zero_length_note_sounds_for_one_tick() {
    let i = SoundIdx::Chime.index();
    let mut m = SoundManager::new(table(vec![(SoundIdx::Chime, vec![part(&one_note(0))])])).unwrap();
    m.play_request[i] = 1;
    m.run();
    assert!(m.play_progress(i));
    assert_eq!(m.get_ch_registers()[0], (0, NOTE_0, 15));
    m.run();
    assert!(!m.play_progress(i));
}

#[test]
fn notes_shift_octaves_select_waveforms_and_follow_envelopes() {
    let i = SoundIdx::Spell.index();
    // waveform 3, envelope 9 (0x0a, 0x08, ... 0x00, hold), key 2 an octave up
    let code = vec![0xf0, 0x30, 0xf1, 9, 0xf2, 1, 0x21, 4, 0xf3];
    let mut m = SoundManager::new(table(vec![(SoundIdx::Spell, vec![part(&code)])])).unwrap();
    m.play_request[i] = 1;
    let mut gains = Vec::new();
    for _ in 0..4 {
        m.run();
        let (w, f, g) = m.get_ch_registers()[4];
        assert_eq!(w, 3);
        assert_eq!(f, 0x02_9DB4 >> 1);
        gains.push(g);
    }
    assert_eq!(gains, vec![0x0a, 0x08, 0x06, 0x04]);
}

#[test]
fn one_shot_ignores_requests_while_playing() {
    let i = SoundIdx::FloorStart.index();
    let mk = || SoundManager::new(table(vec![(SoundIdx::FloorStart, vec![part(&one_note(5))])])).unwrap();
    let mut a = mk();
    let mut b = mk();
    a.play_request[i] = 1;
    b.play_request[i] = 1;
    let mut ticks = 0;
    loop {
        a.run();
        b.run();
        ticks += 1;
        assert_eq!(a.get_ch_registers(), b.get_ch_registers());
        assert_eq!(a.play_progress(i), b.play_progress(i));
        if !a.play_progress(i) {
            break;
        }
        b.play_request[i] = 3;
    }
    assert_eq!(ticks, 6);
    assert_eq!(a.play_request[i], 0);
    assert_eq!(b.play_request[i], 0);
}

#[test]
fn retrigger_restarts_from_the_beginning() {
    let i = SoundIdx::Fire.index();
    let mut m = SoundManager::new(table(vec![(SoundIdx::Fire, vec![part(&one_note(10))])])).unwrap();
    m.play_request[i] = 1;
    m.run();
    assert_eq!(m.play_request[i], 0);
    for _ in 0..4 {
        m.run();
    }
    assert!(m.play_progress(i));
    m.play_request[i] = 1;
    for _ in 0..10 {
        m.run();
        assert!(m.play_progress(i));
        assert_eq!(m.get_ch_registers()[4], (0, NOTE_0, 15));
    }
    assert_eq!(m.play_request[i], 0);
    m.run();
    assert!(!m.play_progress(i));
}

#[test]
fn credit_pre_roll_counts_down_then_starts_the_jingle() {
    let pre = SoundIdx::CreditUpPre.index();
    let post = SoundIdx::CreditUpPost.index();
    let mut m = SoundManager::new(table(vec![
        (SoundIdx::CreditUpPre, vec![part(&one_note(1))]),
        (SoundIdx::CreditUpPost, vec![part(&one_note(1))]),
    ]))
    .unwrap();
    m.play_request[pre] = 2;
    m.run();
    m.run();
    assert_eq!(m.play_request[pre], 1);
    assert_eq!(m.play_request[post], 0);
    m.run();
    m.run();
    assert_eq!(m.play_request[pre], 0);
    assert_eq!(m.play_request[post], 1);
    m.run();
    assert!(m.play_progress(post));
}

#[test]
fn table_that_does_not_fit_is_refused() {
    let nine: Vec<ScorePart> = (0..9).map(|_| part(&one_note(1))).collect();
    assert!(SoundManager::new(table(vec![(SoundIdx::FloorStart, nine)])).is_none());
    let short: Vec<Vec<ScorePart>> = (0..31).map(|_| Vec::new()).collect();
    assert!(SoundManager::new(short).is_none());
    // a cue on channel 7 has room for one part only
    let two: Vec<ScorePart> = (0..2).map(|_| part(&one_note(1))).collect();
    assert!(SoundManager::new(table(vec![(SoundIdx::GilWalk, two)])).is_none());
}

#[test]
fn clear_stops_everything() {
    let i = SoundIdx::FloorStart.index();
    let mut m = SoundManager::new(table(vec![(SoundIdx::FloorStart, vec![part(&one_note(8))])])).unwrap();
    m.play_request[i] = 1;
    m.run();
    m.clear();
    assert!(!m.play_progress(i));
    assert_eq!(m.play_request[i], 0);
    assert_eq!(m.get_ch_registers(), [(0, 0, 0); 8]);
    m.run();
    assert_eq!(m.get_ch_registers(), [(0, 0, 0); 8]);
}

#[test]
fn clear_ch_registers_silences_the_registers_only() {
    let i = SoundIdx::FloorStart.index();
    let mut m = SoundManager::new(table(vec![(SoundIdx::FloorStart, vec![part(&one_note(8))])])).unwrap();
    m.play_request[i] = 1;
    m.run();
    m.clear_ch_registers();
    assert_eq!(m.get_ch_registers(), [(0, 0, 0); 8]);
    assert!(m.play_progress(i));
}
