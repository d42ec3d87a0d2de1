//! The eight single-cycle waveforms that the voices play.
use vstd::prelude::*;

verus! {

pub const WAVE_DATA_LENGTH: usize = 32;
pub const NUM_OF_WAVE_FORMS: usize = 8;

/// The 4-bit levels of waveform `w`, one per step of its cycle.
pub open spec fn wave_levels(w: int) -> Seq<u8> {
    if w == 0 {
        seq![
            0x00, 0x0e, 0x0e, 0x0e, 0x0e, 0x0e, 0x0e, 0x0e,
            0x0e, 0x0e, 0x0e, 0x0e, 0x0e, 0x0e, 0x0e, 0x0e,
            0x00, 0x00, 0x00, 0x00, 0x00, 0x00, 0x00, 0x00,
            0x00, 0x00, 0x00, 0x00, 0x00, 0x00, 0x00, 0x00,
        ]
    } else if w == 1 {
        seq![
            0x0d, 0x06, 0x09, 0x01, 0x06, 0x05, 0x0f, 0x0c,
            0x0a, 0x0c, 0x04, 0x04, 0x02, 0x0b, 0x08, 0x0e,
            0x05, 0x08, 0x03, 0x0a, 0x06, 0x09, 0x02, 0x09,
            0x07, 0x00, 0x09, 0x05, 0x0a, 0x05, 0x08, 0x06,
        ]
    } else if w == 2 {
        seq![
            0x07, 0x0a, 0x0c, 0x0c, 0x0e, 0x0e, 0x0c, 0x0c,
            0x0e, 0x0e, 0x0c, 0x09, 0x07, 0x07, 0x05, 0x05,
            0x07, 0x09, 0x09, 0x07, 0x07, 0x05, 0x02, 0x00,
            0x00, 0x02, 0x02, 0x00, 0x00, 0x02, 0x02, 0x03,
        ]
    } else if w == 3 {
        seq![
            0x0a, 0x0c, 0x0e, 0x0e, 0x0c, 0x0b, 0x0a, 0x09,
            0x0a, 0x0b, 0x0b, 0x03, 0x03, 0x04, 0x05, 0x05,
            0x04, 0x02, 0x00, 0x00, 0x02, 0x03, 0x04, 0x05,
            0x04, 0x03, 0x03, 0x03, 0x03, 0x02, 0x01, 0x01,
        ]
    } else if w == 4 {
        seq![
            0x07, 0x0a, 0x0c, 0x0d, 0x0e, 0x0d, 0x0c, 0x0a,
            0x07, 0x04, 0x02, 0x01, 0x00, 0x01, 0x02, 0x04,
            0x07, 0x0b, 0x0d, 0x0e, 0x0d, 0x0b, 0x07, 0x03,
            0x01, 0x00, 0x01, 0x03, 0x07, 0x0e, 0x07, 0x00,
        ]
    } else if w == 5 {
        seq![
            0x0a, 0x0c, 0x0c, 0x0a, 0x07, 0x07, 0x08, 0x0b,
            0x0d, 0x0e, 0x0d, 0x0a, 0x06, 0x05, 0x05, 0x07,
            0x09, 0x09, 0x08, 0x04, 0x01, 0x00, 0x01, 0x03,
            0x06, 0x07, 0x07, 0x04, 0x02, 0x02, 0x04, 0x07,
        ]
    } else if w == 6 {
        seq![
            0x09, 0x0a, 0x0b, 0x0c, 0x0d, 0x0d, 0x0e, 0x0e,
            0x0e, 0x0d, 0x0d, 0x0c, 0x0b, 0x0a, 0x09, 0x07,
            0x05, 0x04, 0x03, 0x02, 0x01, 0x01, 0x00, 0x00,
            0x00, 0x01, 0x01, 0x02, 0x03, 0x04, 0x05, 0x07,
        ]
    } else {
        seq![
            0x0f, 0x0f, 0x0e, 0x00, 0x01, 0x01, 0x00, 0x00,
            0x0c, 0x0c, 0x0b, 0x00, 0x01, 0x01, 0x00, 0x00,
            0x0a, 0x0a, 0x09, 0x00, 0x01, 0x01, 0x00, 0x00,
            0x08, 0x08, 0x07, 0x00, 0x01, 0x01, 0x00, 0x00,
        ]
    }
}

/// A 4-bit level as a signed sample: level 15 is full scale, and every
/// other level `s` stands at `(s + 1) * 0x1000` above the bottom of the range.
pub open spec fn level_to_sample(s: u8) -> i16 {
    if s < 15 {
        ((s + 1) * 0x1000 - 0x8000) as i16
    } else {
        i16::MAX
    }
}

/// Step `pos` of waveform `w`; silence outside the table.
pub open spec fn wave_value(w: int, pos: int) -> i16 {
    if 0 <= w < NUM_OF_WAVE_FORMS && 0 <= pos < WAVE_DATA_LENGTH {
        level_to_sample(wave_levels(w)[pos])
    } else {
        0
    }
}

fn level_sample(s: u8) -> (r: i16)
    ensures
        r == level_to_sample(s),
        r > i16::MIN,
{
    if s < 15 {
        ((s as i32 + 1) * 0x1000 - 0x8000) as i16
    } else {
        i16::MAX
    }
}

/// Step `pos` of waveform `w`, as a signed sample.
pub fn wave_sample(w: usize, pos: usize) -> (r: i16)
    ensures
        r == wave_value(w as int, pos as int),
        r > i16::MIN,
{
    if pos >= WAVE_DATA_LENGTH {
        return 0;
    }
    let level = match w {
        0 => {
            let t: [u8; WAVE_DATA_LENGTH] = [
                0x00, 0x0e, 0x0e, 0x0e, 0x0e, 0x0e, 0x0e, 0x0e,
                0x0e, 0x0e, 0x0e, 0x0e, 0x0e, 0x0e, 0x0e, 0x0e,
                0x00, 0x00, 0x00, 0x00, 0x00, 0x00, 0x00, 0x00,
                0x00, 0x00, 0x00, 0x00, 0x00, 0x00, 0x00, 0x00,
            ];
            t[pos]
        },
        1 => {
            let t: [u8; WAVE_DATA_LENGTH] = [
                0x0d, 0x06, 0x09, 0x01, 0x06, 0x05, 0x0f, 0x0c,
                0x0a, 0x0c, 0x04, 0x04, 0x02, 0x0b, 0x08, 0x0e,
                0x05, 0x08, 0x03, 0x0a, 0x06, 0x09, 0x02, 0x09,
                0x07, 0x00, 0x09, 0x05, 0x0a, 0x05, 0x08, 0x06,
            ];
            t[pos]
        },
        2 => {
            let t: [u8; WAVE_DATA_LENGTH] = [
                0x07, 0x0a, 0x0c, 0x0c, 0x0e, 0x0e, 0x0c, 0x0c,
                0x0e, 0x0e, 0x0c, 0x09, 0x07, 0x07, 0x05, 0x05,
                0x07, 0x09, 0x09, 0x07, 0x07, 0x05, 0x02, 0x00,
                0x00, 0x02, 0x02, 0x00, 0x00, 0x02, 0x02, 0x03,
            ];
            t[pos]
        },
        3 => {
            let t: [u8; WAVE_DATA_LENGTH] = [
                0x0a, 0x0c, 0x0e, 0x0e, 0x0c, 0x0b, 0x0a, 0x09,
                0x0a, 0x0b, 0x0b, 0x03, 0x03, 0x04, 0x05, 0x05,
                0x04, 0x02, 0x00, 0x00, 0x02, 0x03, 0x04, 0x05,
                0x04, 0x03, 0x03, 0x03, 0x03, 0x02, 0x01, 0x01,
            ];
            t[pos]
        },
        4 => {
            let t: [u8; WAVE_DATA_LENGTH] = [
                0x07, 0x0a, 0x0c, 0x0d, 0x0e, 0x0d, 0x0c, 0x0a,
                0x07, 0x04, 0x02, 0x01, 0x00, 0x01, 0x02, 0x04,
                0x07, 0x0b, 0x0d, 0x0e, 0x0d, 0x0b, 0x07, 0x03,
                0x01, 0x00, 0x01, 0x03, 0x07, 0x0e, 0x07, 0x00,
            ];
            t[pos]
        },
        5 => {
            let t: [u8; WAVE_DATA_LENGTH] = [
                0x0a, 0x0c, 0x0c, 0x0a, 0x07, 0x07, 0x08, 0x0b,
                0x0d, 0x0e, 0x0d, 0x0a, 0x06, 0x05, 0x05, 0x07,
                0x09, 0x09, 0x08, 0x04, 0x01, 0x00, 0x01, 0x03,
                0x06, 0x07, 0x07, 0x04, 0x02, 0x02, 0x04, 0x07,
            ];
            t[pos]
        },
        6 => {
            let t: [u8; WAVE_DATA_LENGTH] = [
                0x09, 0x0a, 0x0b, 0x0c, 0x0d, 0x0d, 0x0e, 0x0e,
                0x0e, 0x0d, 0x0d, 0x0c, 0x0b, 0x0a, 0x09, 0x07,
                0x05, 0x04, 0x03, 0x02, 0x01, 0x01, 0x00, 0x00,
                0x00, 0x01, 0x01, 0x02, 0x03, 0x04, 0x05, 0x07,
            ];
            t[pos]
        },
        7 => {
            let t: [u8; WAVE_DATA_LENGTH] = [
                0x0f, 0x0f, 0x0e, 0x00, 0x01, 0x01, 0x00, 0x00,
                0x0c, 0x0c, 0x0b, 0x00, 0x01, 0x01, 0x00, 0x00,
                0x0a, 0x0a, 0x09, 0x00, 0x01, 0x01, 0x00, 0x00,
                0x08, 0x08, 0x07, 0x00, 0x01, 0x01, 0x00, 0x00,
            ];
            t[pos]
        },
        _ => {
            return 0;
        },
    };
    level_sample(level)
}

} // verus!
