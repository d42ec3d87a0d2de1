//! The scale tables: the frequency code of each key of an octave.
use vstd::prelude::*;

verus! {

/// Keys per scale table; the last key is silence.
pub const NUM_OF_KEYS: usize = 13;
pub const NUM_OF_SCALES: usize = 3;
/// Every frequency code of every scale table lies below this bound.
pub const SCALE_CODE_BOUND: i32 = 0x05_0000;

/// The frequency codes of scale table `s`.
pub open spec fn scale_table(s: int) -> Seq<i32> {
    if s == 0 {
        seq![
            0x02_54A8, 0x02_7828, 0x02_9DB4, 0x02_C578, 0x02_EFCB, 0x03_1C82,
            0x03_4BC8, 0x03_7DF6, 0x03_B335, 0x03_EB87, 0x04_2717, 0x04_6669,
            0x00_0000,
        ]
    } else if s == 1 {
        seq![
            0x02_58C0, 0x02_7C6C, 0x02_A24F, 0x02_CA6B, 0x02_F4EA, 0x03_21F8,
            0x03_5196, 0x03_841A, 0x03_B9B1, 0x03_F25B, 0x04_2E6E, 0x04_6E17,
            0x00_0000,
        ]
    } else {
        seq![
            0x02_5CD9, 0x02_80DC, 0x02_A6EB, 0x02_CF5E, 0x02_FA08, 0x03_276E,
            0x03_5763, 0x03_8A3F, 0x03_C02E, 0x03_F92E, 0x04_35C5, 0x04_75C5,
            0x00_0000,
        ]
    }
}

/// The frequency code of `key` in scale table `scale`; silence for a key or
/// a table that does not exist.
pub open spec fn scale_code(scale: int, key: int) -> i32 {
    if 0 <= scale < NUM_OF_SCALES && 0 <= key < NUM_OF_KEYS {
        scale_table(scale)[key]
    } else {
        0
    }
}

pub fn scale_value(scale: usize, key: usize) -> (r: i32)
    ensures
        r == scale_code(scale as int, key as int),
        0 <= r < SCALE_CODE_BOUND,
{
    if key >= NUM_OF_KEYS {
        return 0;
    }
    let t: [i32; NUM_OF_KEYS] = match scale {
        0 => [
            0x02_54A8, 0x02_7828, 0x02_9DB4, 0x02_C578, 0x02_EFCB, 0x03_1C82,
            0x03_4BC8, 0x03_7DF6, 0x03_B335, 0x03_EB87, 0x04_2717, 0x04_6669,
            0x00_0000,
        ],
        1 => [
            0x02_58C0, 0x02_7C6C, 0x02_A24F, 0x02_CA6B, 0x02_F4EA, 0x03_21F8,
            0x03_5196, 0x03_841A, 0x03_B9B1, 0x03_F25B, 0x04_2E6E, 0x04_6E17,
            0x00_0000,
        ],
        2 => [
            0x02_5CD9, 0x02_80DC, 0x02_A6EB, 0x02_CF5E, 0x02_FA08, 0x03_276E,
            0x03_5763, 0x03_8A3F, 0x03_C02E, 0x03_F92E, 0x04_35C5, 0x04_75C5,
            0x00_0000,
        ],
        _ => {
            return 0;
        },
    };
    t[key]
}

} // verus!
