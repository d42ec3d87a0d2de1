//! A software sound chip: a bytecode score interpreter, a wavetable
//! synthesizer and the circular sample buffer that an audio device drains.
use vstd::prelude::*;

pub mod audio;
pub mod direction;
pub mod input_role;
pub mod wave_data;
pub mod sound_generator;
pub mod sound_manager;
