//! The envelope programs: how the gain of a held note evolves, tick by tick.
//!
//! Each entry is an instruction: `0x00` to `0x0F` is a gain level (and
//! advances), `0x10` holds the previous level, `0x11` decays by one per tick
//! down to the floor in the next entry, `0x12` releases with the note's
//! remaining length, `0x13` restarts the program and `0x14` latches the
//! position across notes.
use vstd::prelude::*;

verus! {

pub const NUM_OF_ENVELOPES: usize = 27;
pub const ENV_HOLD: u8 = 0x10;
pub const ENV_DECAY: u8 = 0x11;
pub const ENV_RELEASE: u8 = 0x12;
pub const ENV_RESTART: u8 = 0x13;
pub const ENV_LATCH: u8 = 0x14;

/// The program of envelope `e`.
pub open spec fn envelope_table(e: int) -> Seq<u8> {
    if e == 0 {
        seq![0x0f, 0x10]
    } else if e == 1 {
        seq![0x0c, 0x10]
    } else if e == 2 {
        seq![0x0a, 0x10]
    } else if e == 3 {
        seq![0x07, 0x10]
    } else if e == 4 {
        seq![0x05, 0x10]
    } else if e == 5 {
        seq![0x03, 0x10]
    } else if e == 6 {
        seq![0x02, 0x10]
    } else if e == 7 {
        seq![0x09, 0x0b, 0x0d, 0x0f, 0x0c, 0x06, 0x04, 0x00, 0x10]
    } else if e == 8 {
        seq![0x0f, 0x0f, 0x0e, 0x0c, 0x0a, 0x08, 0x06, 0x04, 0x02, 0x00, 0x10]
    } else if e == 9 {
        seq![0x0a, 0x08, 0x06, 0x04, 0x02, 0x00, 0x10]
    } else if e == 10 {
        seq![0x0f, 0x12]
    } else if e == 11 {
        seq![0x0a, 0x12]
    } else if e == 12 {
        seq![0x0f, 0x11, 0x00, 0x10]
    } else if e == 13 {
        seq![0x0a, 0x11, 0x00, 0x10]
    } else if e == 14 {
        seq![0x08, 0x08, 0x11, 0x02, 0x10]
    } else if e == 15 {
        seq![0x0f, 0x0f, 0x0b, 0x0b, 0x13]
    } else if e == 16 {
        seq![0x06, 0x08, 0x0a, 0x0c, 0x0e, 0x0f, 0x0f, 0x0e, 0x0c, 0x0a, 0x08, 0x08, 0x03, 0x03, 0x06, 0x06, 0x02, 0x02, 0x00, 0x10]
    } else if e == 17 {
        seq![0x14, 0x0c, 0x0e, 0x0f, 0x0f, 0x0f, 0x0f, 0x0c, 0x06, 0x05, 0x04, 0x00, 0x10]
    } else if e == 18 {
        seq![0x14, 0x0f, 0x0e, 0x0c, 0x0a, 0x09, 0x08, 0x06, 0x04, 0x02, 0x00, 0x10]
    } else if e == 19 {
        seq![0x05, 0x11, 0x02, 0x10]
    } else if e == 20 {
        seq![0x07, 0x12]
    } else if e == 21 {
        seq![0x14, 0x0f, 0x0f, 0x0e, 0x0d, 0x0b, 0x0a, 0x09, 0x10]
    } else if e == 22 {
        seq![0x14, 0x06, 0x11, 0x00, 0x10]
    } else if e == 23 {
        seq![0x14, 0x0c, 0x0c, 0x0c, 0x0f, 0x0f, 0x0f, 0x0f, 0x11, 0x00, 0x10]
    } else if e == 24 {
        seq![0x08, 0x0a, 0x0c, 0x0e, 0x0f, 0x12]
    } else if e == 25 {
        seq![0x06, 0x07, 0x08, 0x12]
    } else {
        seq![0x00, 0x10]
    }
}

/// Entry `p` of envelope `e`; a read outside the programs holds the gain.
pub open spec fn env_byte(e: int, p: int) -> u8 {
    if 0 <= e < NUM_OF_ENVELOPES && 0 <= p < envelope_table(e).len() {
        envelope_table(e)[p]
    } else {
        ENV_HOLD
    }
}

pub fn envelope_byte(e: usize, p: usize) -> (r: u8)
    ensures
        r == env_byte(e as int, p as int),
{
    match e {
        0 => {
            let t: [u8; 2] = [0x0f, 0x10];
            if p < 2 {
                t[p]
            } else {
                ENV_HOLD
            }
        },
        1 => {
            let t: [u8; 2] = [0x0c, 0x10];
            if p < 2 {
                t[p]
            } else {
                ENV_HOLD
            }
        },
        2 => {
            let t: [u8; 2] = [0x0a, 0x10];
            if p < 2 {
                t[p]
            } else {
                ENV_HOLD
            }
        },
        3 => {
            let t: [u8; 2] = [0x07, 0x10];
            if p < 2 {
                t[p]
            } else {
                ENV_HOLD
            }
        },
        4 => {
            let t: [u8; 2] = [0x05, 0x10];
            if p < 2 {
                t[p]
            } else {
                ENV_HOLD
            }
        },
        5 => {
            let t: [u8; 2] = [0x03, 0x10];
            if p < 2 {
                t[p]
            } else {
                ENV_HOLD
            }
        },
        6 => {
            let t: [u8; 2] = [0x02, 0x10];
            if p < 2 {
                t[p]
            } else {
                ENV_HOLD
            }
        },
        7 => {
            let t: [u8; 9] = [0x09, 0x0b, 0x0d, 0x0f, 0x0c, 0x06, 0x04, 0x00, 0x10];
            if p < 9 {
                t[p]
            } else {
                ENV_HOLD
            }
        },
        8 => {
            let t: [u8; 11] = [0x0f, 0x0f, 0x0e, 0x0c, 0x0a, 0x08, 0x06, 0x04, 0x02, 0x00, 0x10];
            if p < 11 {
                t[p]
            } else {
                ENV_HOLD
            }
        },
        9 => {
            let t: [u8; 7] = [0x0a, 0x08, 0x06, 0x04, 0x02, 0x00, 0x10];
            if p < 7 {
                t[p]
            } else {
                ENV_HOLD
            }
        },
        10 => {
            let t: [u8; 2] = [0x0f, 0x12];
            if p < 2 {
                t[p]
            } else {
                ENV_HOLD
            }
        },
        11 => {
            let t: [u8; 2] = [0x0a, 0x12];
            if p < 2 {
                t[p]
            } else {
                ENV_HOLD
            }
        },
        12 => {
            let t: [u8; 4] = [0x0f, 0x11, 0x00, 0x10];
            if p < 4 {
                t[p]
            } else {
                ENV_HOLD
            }
        },
        13 => {
            let t: [u8; 4] = [0x0a, 0x11, 0x00, 0x10];
            if p < 4 {
                t[p]
            } else {
                ENV_HOLD
            }
        },
        14 => {
            let t: [u8; 5] = [0x08, 0x08, 0x11, 0x02, 0x10];
            if p < 5 {
                t[p]
            } else {
                ENV_HOLD
            }
        },
        15 => {
            let t: [u8; 5] = [0x0f, 0x0f, 0x0b, 0x0b, 0x13];
            if p < 5 {
                t[p]
            } else {
                ENV_HOLD
            }
        },
        16 => {
            let t: [u8; 20] = [0x06, 0x08, 0x0a, 0x0c, 0x0e, 0x0f, 0x0f, 0x0e, 0x0c, 0x0a, 0x08, 0x08, 0x03, 0x03, 0x06, 0x06, 0x02, 0x02, 0x00, 0x10];
            if p < 20 {
                t[p]
            } else {
                ENV_HOLD
            }
        },
        17 => {
            let t: [u8; 13] = [0x14, 0x0c, 0x0e, 0x0f, 0x0f, 0x0f, 0x0f, 0x0c, 0x06, 0x05, 0x04, 0x00, 0x10];
            if p < 13 {
                t[p]
            } else {
                ENV_HOLD
            }
        },
        18 => {
            let t: [u8; 12] = [0x14, 0x0f, 0x0e, 0x0c, 0x0a, 0x09, 0x08, 0x06, 0x04, 0x02, 0x00, 0x10];
            if p < 12 {
                t[p]
            } else {
                ENV_HOLD
            }
        },
        19 => {
            let t: [u8; 4] = [0x05, 0x11, 0x02, 0x10];
            if p < 4 {
                t[p]
            } else {
                ENV_HOLD
            }
        },
        20 => {
            let t: [u8; 2] = [0x07, 0x12];
            if p < 2 {
                t[p]
            } else {
                ENV_HOLD
            }
        },
        21 => {
            let t: [u8; 9] = [0x14, 0x0f, 0x0f, 0x0e, 0x0d, 0x0b, 0x0a, 0x09, 0x10];
            if p < 9 {
                t[p]
            } else {
                ENV_HOLD
            }
        },
        22 => {
            let t: [u8; 5] = [0x14, 0x06, 0x11, 0x00, 0x10];
            if p < 5 {
                t[p]
            } else {
                ENV_HOLD
            }
        },
        23 => {
            let t: [u8; 11] = [0x14, 0x0c, 0x0c, 0x0c, 0x0f, 0x0f, 0x0f, 0x0f, 0x11, 0x00, 0x10];
            if p < 11 {
                t[p]
            } else {
                ENV_HOLD
            }
        },
        24 => {
            let t: [u8; 6] = [0x08, 0x0a, 0x0c, 0x0e, 0x0f, 0x12];
            if p < 6 {
                t[p]
            } else {
                ENV_HOLD
            }
        },
        25 => {
            let t: [u8; 4] = [0x06, 0x07, 0x08, 0x12];
            if p < 4 {
                t[p]
            } else {
                ENV_HOLD
            }
        },
        26 => {
            let t: [u8; 2] = [0x00, 0x10];
            if p < 2 {
                t[p]
            } else {
                ENV_HOLD
            }
        },
        _ => ENV_HOLD,
    }
}

} // verus!
