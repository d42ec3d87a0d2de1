//! The wavetable synthesizer: eight voices that turn channel registers into
//! one frame of stereo samples.
use vstd::prelude::*;
use crate::wave_data::{wave_sample, wave_value};

verus! {

/// The rate at which the voices are computed, before conversion to the
/// output rate.
pub const INTERNAL_RATE: i32 = 192_000;
/// The tone that a register value of `REFERENCE_REG_VALUE` plays, in Hz.
pub const REFERENCE_TONE: i32 = 1500;
pub const REFERENCE_REG_VALUE: i32 = 0x1_0000;
/// Phase units per waveform step: `INTERNAL_RATE / (REFERENCE_TONE * 32)`
/// internal samples per step at the reference tone, times `REFERENCE_REG_VALUE`.
pub const INTERNAL_SAMPLE_LENGTH: i32 = 0x4_0000;
/// Phase units per waveform cycle: 32 steps.
pub const INTERNAL_WAVE_LENGTH: i32 = 0x80_0000;
pub const NUM_OF_GENERATORS: usize = 8;
/// The largest change of a voice's gain from one internal sample to the next.
pub const GAIN_UP_TRANSITION: i32 = 0x0_10;
pub const GAIN_DOWN_TRANSITION: i32 = 0x0_10;
/// The gain of a voice at full volume: register gain 15, scaled by 0x100.
pub const FULL_GAIN: i32 = 0xf_00;
/// Internal samples per frame: `INTERNAL_RATE / 60`.
pub const WORK_LENGTH: usize = 3200;
/// The largest magnitude of one voice's output.
pub const VOICE_PEAK: i32 = 32767;

/// One channel register: waveform, frequency code and gain (0 to 15).
pub type SoundRegister = (usize, i32, i32);

/// A register that the synthesizer can play: a frequency below one whole
/// cycle per internal sample and a gain of 0 to 15.
pub open spec fn register_ok(r: SoundRegister) -> bool {
    &&& 0 <= r.1 < INTERNAL_WAVE_LENGTH
    &&& 0 <= r.2 <= 15
}

/// `a / b` rounded toward zero, as Rust's integer division does.
pub open spec fn div_trunc(a: int, b: int) -> int {
    if a >= 0 {
        a / b
    } else {
        -((-a) / b)
    }
}

#[derive(PartialEq, Eq, Structural, PartialOrd, Ord, Clone, Copy, Debug)]
pub enum PanPot {
    Left,
    Center,
    Right,
}

/// The state of one voice.
#[derive(Clone, Copy, Debug)]
pub struct GeneratorUnit {
    /// Position in the current cycle, in phase units.
    pub phase_pos: i32,
    /// The waveform latched for the current cycle.
    pub current_wave_form: Option<usize>,
    /// The smoothed gain, 0 to `FULL_GAIN`.
    pub current_gain: i32,
    /// The frequency latched for the current cycle; 0 when none is.
    pub current_freq: i32,
}

pub open spec fn unit_ok(u: GeneratorUnit) -> bool {
    &&& 0 <= u.phase_pos < INTERNAL_WAVE_LENGTH
    &&& 0 <= u.current_gain <= FULL_GAIN
    &&& 0 <= u.current_freq < INTERNAL_WAVE_LENGTH
}

/// A voice at rest.
pub open spec fn idle_unit() -> GeneratorUnit {
    GeneratorUnit { phase_pos: 0, current_wave_form: None, current_gain: 0, current_freq: 0 }
}

/// `current` moved one step toward `target`, without passing it.
pub open spec fn ramp(current: int, target: int) -> int {
    if target > current {
        if current + GAIN_UP_TRANSITION > target {
            target
        } else {
            current + GAIN_UP_TRANSITION
        }
    } else if target < current {
        if current - GAIN_DOWN_TRANSITION < target {
            target
        } else {
            current - GAIN_DOWN_TRANSITION
        }
    } else {
        current
    }
}

/// The frequency that a voice plays with: the latched one, else the register's.
pub open spec fn latched_freq(u: GeneratorUnit, f: i32) -> i32 {
    if u.current_freq == 0 {
        f
    } else {
        u.current_freq
    }
}

/// The waveform that a voice plays: the latched one, else the register's.
pub open spec fn latched_wave(u: GeneratorUnit, w: usize) -> usize {
    match u.current_wave_form {
        Some(x) => x,
        None => w,
    }
}

/// A voice after one internal sample, playing waveform `w` at frequency `f`
/// toward gain `target`. At the end of a cycle the latches are released, so
/// that a new waveform or frequency takes effect only from a cycle's start.
pub open spec fn unit_step(u: GeneratorUnit, w: usize, f: i32, target: i32) -> GeneratorUnit {
    let freq = latched_freq(u, f);
    let phase = u.phase_pos + freq;
    if phase >= INTERNAL_WAVE_LENGTH {
        GeneratorUnit {
            phase_pos: (phase - INTERNAL_WAVE_LENGTH) as i32,
            current_wave_form: None,
            current_gain: ramp(u.current_gain as int, target as int) as i32,
            current_freq: 0,
        }
    } else {
        GeneratorUnit {
            phase_pos: phase as i32,
            current_wave_form: Some(latched_wave(u, w)),
            current_gain: ramp(u.current_gain as int, target as int) as i32,
            current_freq: freq,
        }
    }
}

/// What a voice outputs for one internal sample: the waveform step at its
/// phase, scaled by its gain after this sample's ramp step.
pub open spec fn unit_output(u: GeneratorUnit, w: usize, f: i32, target: i32) -> i32 {
    let s = wave_value(latched_wave(u, w) as int, (u.phase_pos / INTERNAL_SAMPLE_LENGTH) as int);
    div_trunc(s * ramp(u.current_gain as int, target as int), FULL_GAIN as int) as i32
}

/// A voice after `k` internal samples.
pub open spec fn unit_run(u: GeneratorUnit, w: usize, f: i32, target: i32, k: nat) -> GeneratorUnit
    decreases k,
{
    if k == 0 {
        u
    } else {
        unit_step(unit_run(u, w, f, target, (k - 1) as nat), w, f, target)
    }
}

/// One output placed on the left and right channels.
pub open spec fn pan_split(a: i32, p: PanPot) -> (i32, i32) {
    match p {
        PanPot::Left => (a, 0),
        PanPot::Right => (0, a),
        PanPot::Center => {
            let c = ((a * 3) as i32) >> 2i32;
            (c, c)
        },
    }
}

/// The gain that a voice moves toward: none when muted or without frequency,
/// else the register's gain scaled by 0x100.
pub open spec fn target_gain(r: SoundRegister, mute: bool) -> i32 {
    if mute || r.1 == 0 {
        0
    } else {
        (r.2 * 0x100) as i32
    }
}

/// Whether a voice stays silent for a whole frame: no gain asked for and none
/// left to fade out.
pub open spec fn voice_silent(u: GeneratorUnit, r: SoundRegister) -> bool {
    r.2 == 0 && u.current_gain == 0
}

/// A voice at the end of a frame.
pub open spec fn voice_after(u: GeneratorUnit, r: SoundRegister, mute: bool) -> GeneratorUnit {
    if voice_silent(u, r) {
        GeneratorUnit { phase_pos: 0, current_wave_form: None, current_freq: 0, ..u }
    } else {
        unit_run(u, r.0, r.1, target_gain(r, mute), WORK_LENGTH as nat)
    }
}

/// What a voice adds to internal sample `i` of a frame.
pub open spec fn voice_out(u: GeneratorUnit, r: SoundRegister, mute: bool, p: PanPot, i: int) -> (i32, i32) {
    if voice_silent(u, r) {
        (0, 0)
    } else {
        let t = target_gain(r, mute);
        pan_split(unit_output(unit_run(u, r.0, r.1, t, i as nat), r.0, r.1, t), p)
    }
}

/// One step of the gain ramp: toward `target` by at most one transition step,
/// never past it.
pub fn ramp_gain(current: i32, target: i32) -> (r: i32)
    requires
        0 <= current <= FULL_GAIN,
        0 <= target <= FULL_GAIN,
    ensures
        r == ramp(current as int, target as int),
        0 <= r <= FULL_GAIN,
        current <= target ==> current <= r <= target,
        target <= current ==> target <= r <= current,
        r - current <= GAIN_UP_TRANSITION,
        current - r <= GAIN_DOWN_TRANSITION,
{
    if target != current {
        if target > current {
            let up = current + GAIN_UP_TRANSITION;
            if up > target {
                target
            } else {
                up
            }
        } else {
            let down = current - GAIN_DOWN_TRANSITION;
            if down < target {
                target
            } else {
                down
            }
        }
    } else {
        current
    }
}

/// The output of a voice for one internal sample.
fn voice_sample(s: i16, gain: i32) -> (r: i32)
    requires
        -VOICE_PEAK <= s,
        0 <= gain <= FULL_GAIN,
    ensures
        r == div_trunc(s * gain, FULL_GAIN as int),
        -VOICE_PEAK <= r <= VOICE_PEAK,
{
    proof {
        lemma_scaled_sample(s as int, gain as int);
    }
    s as i32 * gain / FULL_GAIN
}

proof fn lemma_scaled_sample(s: int, g: int)
    requires
        -VOICE_PEAK <= s <= VOICE_PEAK,
        0 <= g <= FULL_GAIN,
    ensures
        -VOICE_PEAK <= div_trunc(s * g, FULL_GAIN as int) <= VOICE_PEAK,
        i32::MIN <= s * g <= i32::MAX,
{
    assert(-32767 * 3840 <= s * g <= 32767 * 3840) by (nonlinear_arith)
        requires
            -32767 <= s <= 32767,
            0 <= g <= 3840,
    ;
    if s * g >= 0 {
        assert((s * g) / 3840 <= 32767) by (nonlinear_arith)
            requires
                0 <= s * g <= 32767 * 3840,
        ;
    } else {
        assert((-(s * g)) / 3840 <= 32767) by (nonlinear_arith)
            requires
                0 <= -(s * g) <= 32767 * 3840,
        ;
    }
}

/// A voice's output placed on the two channels.
fn pan_out(a: i32, p: PanPot) -> (r: (i32, i32))
    requires
        -VOICE_PEAK <= a <= VOICE_PEAK,
    ensures
        r == pan_split(a, p),
        -VOICE_PEAK <= r.0 <= VOICE_PEAK,
        -VOICE_PEAK <= r.1 <= VOICE_PEAK,
{
    match p {
        PanPot::Left => (a, 0),
        PanPot::Right => (0, a),
        PanPot::Center => {
            let t = a * 3;
            let c = t >> 2;
            assert(-32767 <= c <= 32767) by (bit_vector)
                requires
                    -98301 <= t <= 98301,
                    c == t >> 2,
            ;
            (c, c)
        },
    }
}

impl GeneratorUnit {
    pub fn new() -> (r: Self)
        ensures
            r == idle_unit(),
    {
        GeneratorUnit { phase_pos: 0, current_wave_form: None, current_gain: 0x0_00, current_freq: 0 }
    }

    pub fn clear(&mut self)
        ensures
            *final(self) == idle_unit(),
    {
        self.phase_pos = 0;
        self.current_wave_form = None;
        self.current_gain = 0x0_00;
        self.current_freq = 0;
    }

    /// One internal sample of this voice: its output, and the step of its state.
    fn step(&mut self, w: usize, f: i32, target: i32) -> (r: i32)
        requires
            unit_ok(*old(self)),
            0 <= f < INTERNAL_WAVE_LENGTH,
            0 <= target <= FULL_GAIN,
        ensures
            unit_ok(*final(self)),
            *final(self) == unit_step(*old(self), w, f, target),
            r == unit_output(*old(self), w, f, target),
            -VOICE_PEAK <= r <= VOICE_PEAK,
    {
        if self.current_freq == 0 {
            self.current_freq = f;
        }
        let wave_form_no = match self.current_wave_form {
            Some(current_w) => current_w,
            None => w,
        };
        let pos = (self.phase_pos / INTERNAL_SAMPLE_LENGTH) as usize;
        let s = wave_sample(wave_form_no, pos);
        self.phase_pos = self.phase_pos + self.current_freq;
        if self.phase_pos >= INTERNAL_WAVE_LENGTH {
            self.phase_pos = self.phase_pos - INTERNAL_WAVE_LENGTH;
            self.current_wave_form = None;
            self.current_freq = 0;
        } else {
            self.current_wave_form = Some(wave_form_no);
        }
        self.current_gain = ramp_gain(self.current_gain, target);
        voice_sample(s, self.current_gain)
    }
}

/// The gain of a voice never jumps: from one internal sample to the next it
/// moves by at most one transition step, toward the gain asked for, and
/// never past it.
pub proof fn lemma_gain_never_jumps(u: GeneratorUnit, w: usize, f: i32, target: i32, k: nat)
    requires
        unit_ok(u),
        0 <= f < INTERNAL_WAVE_LENGTH,
        0 <= target <= FULL_GAIN,
    ensures
        unit_ok(unit_run(u, w, f, target, k)),
        ({
            let g0 = unit_run(u, w, f, target, k).current_gain;
            let g1 = unit_run(u, w, f, target, k + 1).current_gain;
            &&& g1 - g0 <= GAIN_UP_TRANSITION
            &&& g0 - g1 <= GAIN_DOWN_TRANSITION
            &&& (g0 <= target ==> g0 <= g1 <= target)
            &&& (target <= g0 ==> target <= g1 <= g0)
        }),
    decreases k,
{
    if k > 0 {
        lemma_gain_never_jumps(u, w, f, target, (k - 1) as nat);
    }
}

/// Both channels of internal sample `i`, summed over the first `n` voices.
pub open spec fn work_total(
    units: Seq<GeneratorUnit>,
    regs: Seq<SoundRegister>,
    mutes: Seq<bool>,
    pans: Seq<PanPot>,
    i: int,
    n: nat,
) -> (int, int)
    decreases n,
{
    if n == 0 {
        (0, 0)
    } else {
        let prev = work_total(units, regs, mutes, pans, i, (n - 1) as nat);
        let v = voice_out(units[n - 1], regs[n - 1], mutes[n - 1], pans[n - 1], i);
        (prev.0 + v.0, prev.1 + v.1)
    }
}

/// The right shift that a master gain of 1 to 6 asks for; none from 7 up.
pub open spec fn shift_of(master_gain: i32) -> i32 {
    if master_gain == 1 {
        6
    } else if master_gain == 2 {
        5
    } else if master_gain == 3 {
        4
    } else if master_gain == 4 {
        3
    } else if master_gain == 5 {
        2
    } else if master_gain == 6 {
        1
    } else {
        0
    }
}

/// The first internal sample that output sample `p` takes in, at output rate
/// `sf`: the first whose time is not before that of `p`.
pub open spec fn first_entry(p: int, sf: int) -> int {
    (p * INTERNAL_RATE + sf - 1) / sf
}

/// The sum of one channel (`right` or left) of internal samples `a` to `b - 1`.
pub open spec fn sum_range(work: Seq<(int, int)>, a: int, b: int, right: bool) -> int
    decreases b - a,
{
    if b <= a {
        0
    } else {
        sum_range(work, a, b - 1, right) + if right {
            work[b - 1].1
        } else {
            work[b - 1].0
        }
    }
}

/// One channel of output sample `p`: the mean of the internal samples it
/// takes in, divided again by the number of voices, then shifted down.
pub open spec fn mixed_sample(work: Seq<(int, int)>, sf: int, p: int, right: bool, shift: i32) -> i16 {
    let a = first_entry(p, sf);
    let b = first_entry(p + 1, sf);
    ((div_trunc(sum_range(work, a, b, right), (b - a) * NUM_OF_GENERATORS) as i32) >> shift) as i16
}

/// A frame of interleaved stereo output made from the internal samples.
pub open spec fn mix_down(work: Seq<(int, int)>, sf: int, spf: nat, master_gain: i32) -> Seq<i16> {
    Seq::new(
        spf * 2,
        |k: int|
            if master_gain <= 0 {
                0i16
            } else {
                mixed_sample(work, sf, k / 2, k % 2 == 1, shift_of(master_gain))
            },
    )
}

/// The internal samples of a frame, as integers.
pub open spec fn work_ints(work: Seq<(i32, i32)>) -> Seq<(int, int)> {
    work.map_values(|e: (i32, i32)| (e.0 as int, e.1 as int))
}

/// The internal samples of a frame made from the voices `units` playing the
/// registers `regs`.
pub open spec fn frame_work(
    units: Seq<GeneratorUnit>,
    regs: Seq<SoundRegister>,
    mutes: Seq<bool>,
    pans: Seq<PanPot>,
) -> Seq<(int, int)> {
    Seq::new(
        WORK_LENGTH as nat,
        |i: int| work_total(units, regs, mutes, pans, i, NUM_OF_GENERATORS as nat),
    )
}

/// The largest magnitude of one channel of an internal sample: every voice
/// at its peak.
pub open spec fn work_peak() -> int {
    NUM_OF_GENERATORS * VOICE_PEAK
}

/// Output sample `p` takes in internal samples from `first_entry(p, sf)`: the
/// first whose time, `i * sf`, is not before `p * INTERNAL_RATE`.
proof fn lemma_first_entry(x: int, sf: int, i: int)
    requires
        sf > 0,
        x >= 0,
        i * sf >= x,
        (i - 1) * sf < x,
    ensures
        i == (x + sf - 1) / sf,
{
    assert((i - 1) * sf == i * sf - sf) by (nonlinear_arith);
    let r = x + sf - 1 - i * sf;
    assert(0 <= r < sf);
    assert(x + sf - 1 == i * sf + r);
    vstd::arithmetic::div_mod::lemma_fundamental_div_mod_converse(x + sf - 1, sf, i, r);
}

/// While output sample `pos` of a frame is still being summed, the internal
/// sample read lies within the frame.
proof fn lemma_entry_in_frame(i: int, pos: int, sf: int, spf: int)
    requires
        0 < sf,
        0 <= i,
        0 <= pos < spf,
        spf == sf / 60,
        i * sf < (pos + 1) * INTERNAL_RATE,
    ensures
        i < WORK_LENGTH,
{
    assert(spf * 60 <= sf) by {
        vstd::arithmetic::div_mod::lemma_fundamental_div_mod(sf, 60);
    }
    assert((pos + 1) * 192000 <= spf * 192000) by (nonlinear_arith)
        requires
            pos + 1 <= spf,
    ;
    assert(spf * 192000 <= sf * 3200) by (nonlinear_arith)
        requires
            spf * 60 <= sf,
    ;
    assert(i < 3200) by (nonlinear_arith)
        requires
            i * sf < sf * 3200,
            sf > 0,
    ;
}

/// The mean that an output sample takes stays within one voice's range.
proof fn lemma_mean_bound(sum: int, n: int)
    requires
        n > 0,
        -(n * work_peak()) <= sum <= n * work_peak(),
    ensures
        -VOICE_PEAK <= div_trunc(sum, n * NUM_OF_GENERATORS) <= VOICE_PEAK,
{
    let d = n * 8;
    assert(n * (8 * 32767) == (n * 8) * 32767) by (nonlinear_arith);
    if sum >= 0 {
        assert(sum / d <= 32767) by (nonlinear_arith)
            requires
                0 <= sum <= d * 32767,
                d > 0,
        ;
        assert(sum / d >= 0) by (nonlinear_arith)
            requires
                0 <= sum,
                d > 0,
        ;
    } else {
        assert((-sum) / d <= 32767) by (nonlinear_arith)
            requires
                0 <= -sum <= d * 32767,
                d > 0,
        ;
        assert((-sum) / d >= 0) by (nonlinear_arith)
            requires
                0 <= -sum,
                d > 0,
        ;
    }
}

/// The synthesizer: eight voices, their mute and pan settings, a master
/// gain, and the last frame that was made.
pub struct SoundGenerator {
    sampling_freq: i32,
    samples_per_frame: usize,
    generators: [GeneratorUnit; NUM_OF_GENERATORS],
    pub mute: [bool; NUM_OF_GENERATORS],
    pub panpot: [PanPot; NUM_OF_GENERATORS],
    pub master_gain: i32,
    mixed_buffer: Vec<i16>,
    work: Vec<(i32, i32)>,
}

impl SoundGenerator {
    pub closed spec fn units(&self) -> Seq<GeneratorUnit> {
        self.generators@
    }

    pub closed spec fn mutes(&self) -> Seq<bool> {
        self.mute@
    }

    pub closed spec fn pans(&self) -> Seq<PanPot> {
        self.panpot@
    }

    pub closed spec fn gain(&self) -> i32 {
        self.master_gain
    }

    pub closed spec fn mixed(&self) -> Seq<i16> {
        self.mixed_buffer@
    }

    pub closed spec fn spec_sampling_freq(&self) -> i32 {
        self.sampling_freq
    }

    pub closed spec fn spec_samples_per_frame(&self) -> nat {
        self.samples_per_frame as nat
    }

    pub closed spec fn wf(&self) -> bool {
        &&& 0 < self.sampling_freq <= INTERNAL_RATE
        &&& self.samples_per_frame == self.sampling_freq / 60
        &&& self.mixed_buffer@.len() == self.samples_per_frame * 2
        &&& self.work@.len() == WORK_LENGTH
        &&& forall|ch: int| 0 <= ch < NUM_OF_GENERATORS ==> unit_ok(#[trigger] self.generators@[ch])
    }

    /// A synthesizer for output at `sampling_freq` samples per second, with
    /// every voice at rest, unmuted and centred, and master gain 7.
    pub fn new(sampling_freq: i32) -> (r: Self)
        requires
            0 < sampling_freq <= INTERNAL_RATE,
        ensures
            r.wf(),
            r.spec_sampling_freq() == sampling_freq,
            r.spec_samples_per_frame() == sampling_freq / 60,
            r.units() == Seq::new(NUM_OF_GENERATORS as nat, |i: int| idle_unit()),
            r.mutes() == Seq::new(NUM_OF_GENERATORS as nat, |i: int| false),
            r.pans() == Seq::new(NUM_OF_GENERATORS as nat, |i: int| PanPot::Center),
            r.gain() == 7,
            r.mixed() == Seq::new((sampling_freq / 60) as nat * 2, |i: int| 0i16),
    {
        let samples_per_frame = (sampling_freq / 60) as usize;
        let mut mixed_buffer: Vec<i16> = Vec::new();
        let mut i: usize = 0;
        while i < samples_per_frame * 2
            invariant
                samples_per_frame == sampling_freq / 60,
                0 < sampling_freq <= INTERNAL_RATE,
                i <= samples_per_frame * 2,
                mixed_buffer@ == Seq::new(i as nat, |j: int| 0i16),
            decreases samples_per_frame * 2 - i,
        {
            mixed_buffer.push(0);
            i += 1;
        }
        let mut work: Vec<(i32, i32)> = Vec::new();
        let mut j: usize = 0;
        while j < WORK_LENGTH
            invariant
                j <= WORK_LENGTH,
                work@.len() == j,
            decreases WORK_LENGTH - j,
        {
            work.push((0, 0));
            j += 1;
        }
        let r = SoundGenerator {
            sampling_freq,
            samples_per_frame,
            generators: [
                GeneratorUnit::new(),
                GeneratorUnit::new(),
                GeneratorUnit::new(),
                GeneratorUnit::new(),
                GeneratorUnit::new(),
                GeneratorUnit::new(),
                GeneratorUnit::new(),
                GeneratorUnit::new(),
            ],
            mute: [false; NUM_OF_GENERATORS],
            panpot: [PanPot::Center; NUM_OF_GENERATORS],
            master_gain: 7,
            mixed_buffer,
            work,
        };
        proof {
            assert(r.units() =~= Seq::new(NUM_OF_GENERATORS as nat, |i: int| idle_unit()));
            assert(r.mute@ =~= Seq::new(NUM_OF_GENERATORS as nat, |i: int| false));
            assert(r.panpot@ =~= Seq::new(NUM_OF_GENERATORS as nat, |i: int| PanPot::Center));
        }
        r
    }

    /// Puts every voice at rest, unmutes and centres them all, and silences
    /// the last frame; the master gain stays.
    pub fn clear(&mut self)
        requires
            old(self).wf(),
        ensures
            final(self).wf(),
            final(self).spec_sampling_freq() == old(self).spec_sampling_freq(),
            final(self).spec_samples_per_frame() == old(self).spec_samples_per_frame(),
            final(self).units() == Seq::new(NUM_OF_GENERATORS as nat, |i: int| idle_unit()),
            final(self).mutes() == Seq::new(NUM_OF_GENERATORS as nat, |i: int| false),
            final(self).pans() == Seq::new(NUM_OF_GENERATORS as nat, |i: int| PanPot::Center),
            final(self).gain() == old(self).gain(),
            final(self).mixed() == Seq::new(old(self).mixed().len(), |i: int| 0i16),
    {
        let mut ch: usize = 0;
        while ch < NUM_OF_GENERATORS
            invariant
                self.wf(),
                ch <= NUM_OF_GENERATORS,
                self.sampling_freq == old(self).sampling_freq,
                self.samples_per_frame == old(self).samples_per_frame,
                self.master_gain == old(self).master_gain,
                self.mixed_buffer@ == old(self).mixed_buffer@,
                forall|j: int| 0 <= j < ch ==> #[trigger] self.generators@[j] == idle_unit(),
                forall|j: int| 0 <= j < ch ==> #[trigger] self.mute@[j] == false,
                forall|j: int| 0 <= j < ch ==> #[trigger] self.panpot@[j] == PanPot::Center,
            decreases NUM_OF_GENERATORS - ch,
        {
            self.generators[ch].clear();
            self.mute[ch] = false;
            self.panpot[ch] = PanPot::Center;
            ch += 1;
        }
        let n = self.mixed_buffer.len();
        let mut i: usize = 0;
        while i < n
            invariant
                self.wf(),
                n == self.mixed_buffer@.len(),
                i <= n,
                self.sampling_freq == old(self).sampling_freq,
                self.samples_per_frame == old(self).samples_per_frame,
                self.master_gain == old(self).master_gain,
                forall|j: int| 0 <= j < NUM_OF_GENERATORS ==> #[trigger] self.generators@[j] == idle_unit(),
                forall|j: int| 0 <= j < NUM_OF_GENERATORS ==> #[trigger] self.mute@[j] == false,
                forall|j: int| 0 <= j < NUM_OF_GENERATORS ==> #[trigger] self.panpot@[j] == PanPot::Center,
                forall|j: int| 0 <= j < i ==> #[trigger] self.mixed_buffer@[j] == 0i16,
            decreases n - i,
        {
            self.mixed_buffer[i] = 0;
            i += 1;
        }
        proof {
            assert(self.units() =~= Seq::new(NUM_OF_GENERATORS as nat, |i: int| idle_unit()));
            assert(self.mute@ =~= Seq::new(NUM_OF_GENERATORS as nat, |i: int| false));
            assert(self.panpot@ =~= Seq::new(NUM_OF_GENERATORS as nat, |i: int| PanPot::Center));
            assert(self.mixed() =~= Seq::new(old(self).mixed().len(), |i: int| 0i16));
        }
    }

    pub fn sampling_freq(&self) -> (r: i32)
        ensures
            r == self.spec_sampling_freq(),
    {
        self.sampling_freq
    }

    pub fn samples_per_frame(&self) -> (r: usize)
        ensures
            r == self.spec_samples_per_frame(),
    {
        self.samples_per_frame
    }

    /// Runs every voice for one frame of internal samples, summing their
    /// outputs into the work buffer.
    fn run_voices(&mut self, sound_data: &[SoundRegister; NUM_OF_GENERATORS])
        requires
            old(self).wf(),
            forall|ch: int| 0 <= ch < NUM_OF_GENERATORS ==> register_ok(#[trigger] sound_data@[ch]),
        ensures
            final(self).wf(),
            final(self).sampling_freq == old(self).sampling_freq,
            final(self).samples_per_frame == old(self).samples_per_frame,
            final(self).mute == old(self).mute,
            final(self).panpot == old(self).panpot,
            final(self).master_gain == old(self).master_gain,
            final(self).mixed_buffer@ == old(self).mixed_buffer@,
            forall|ch: int|
                0 <= ch < NUM_OF_GENERATORS ==> #[trigger] final(self).generators@[ch] == voice_after(
                    old(self).generators@[ch],
                    sound_data@[ch],
                    old(self).mute@[ch],
                ),
            work_ints(final(self).work@) == frame_work(
                old(self).generators@,
                sound_data@,
                old(self).mute@,
                old(self).panpot@,
            ),
            forall|i: int|
                0 <= i < WORK_LENGTH ==> -work_peak() <= (#[trigger] final(self).work@[i]).0 <= work_peak()
                    && -work_peak() <= final(self).work@[i].1 <= work_peak(),
    {
        let ghost units = self.generators@;
        let ghost regs = sound_data@;
        let ghost mutes = self.mute@;
        let ghost pans = self.panpot@;
        let mut j: usize = 0;
        while j < WORK_LENGTH
            invariant
                self.wf(),
                j <= WORK_LENGTH,
                self.sampling_freq == old(self).sampling_freq,
                self.samples_per_frame == old(self).samples_per_frame,
                self.mute == old(self).mute,
                self.panpot == old(self).panpot,
                self.master_gain == old(self).master_gain,
                self.mixed_buffer@ == old(self).mixed_buffer@,
                self.generators@ == units,
                forall|k: int| 0 <= k < j ==> #[trigger] self.work@[k] == (0i32, 0i32),
            decreases WORK_LENGTH - j,
        {
            self.work[j] = (0, 0);
            j += 1;
        }
        let mut ch: usize = 0;
        while ch < NUM_OF_GENERATORS
            invariant
                self.wf(),
                ch <= NUM_OF_GENERATORS,
                self.sampling_freq == old(self).sampling_freq,
                self.samples_per_frame == old(self).samples_per_frame,
                self.mute == old(self).mute,
                self.panpot == old(self).panpot,
                self.master_gain == old(self).master_gain,
                self.mixed_buffer@ == old(self).mixed_buffer@,
                units == old(self).generators@,
                regs == sound_data@,
                mutes == self.mute@,
                pans == self.panpot@,
                forall|c: int| 0 <= c < NUM_OF_GENERATORS ==> register_ok(#[trigger] regs[c]),
                forall|c: int|
                    0 <= c < ch ==> #[trigger] self.generators@[c] == voice_after(units[c], regs[c], mutes[c]),
                forall|c: int| ch <= c < NUM_OF_GENERATORS ==> #[trigger] self.generators@[c] == units[c],
                forall|i: int|
                    0 <= i < WORK_LENGTH ==> (#[trigger] self.work@[i]).0 == work_total(units, regs, mutes, pans, i, ch as nat).0
                        && self.work@[i].1 == work_total(units, regs, mutes, pans, i, ch as nat).1,
                forall|i: int|
                    0 <= i < WORK_LENGTH ==> -(ch * VOICE_PEAK) <= (#[trigger] self.work@[i]).0 <= ch * VOICE_PEAK
                        && -(ch * VOICE_PEAK) <= self.work@[i].1 <= ch * VOICE_PEAK,
            decreases NUM_OF_GENERATORS - ch,
        {
            let (w, f, g) = sound_data[ch];
            let mut unit = self.generators[ch];
            let pan = self.panpot[ch];
            let ghost u0 = unit;
            let ghost before = self.work@;
            let ghost gens = self.generators@;
            if g == 0 && unit.current_gain == 0 {
                unit.phase_pos = 0;
                unit.current_wave_form = None;
                unit.current_freq = 0;
                proof {
                    assert forall|i: int| 0 <= i < WORK_LENGTH implies (#[trigger] self.work@[i]).0
                        == work_total(units, regs, mutes, pans, i, ch as nat + 1).0
                        && self.work@[i].1 == work_total(units, regs, mutes, pans, i, ch as nat + 1).1 by {
                        assert(voice_out(units[ch as int], regs[ch as int], mutes[ch as int], pans[ch as int], i) == (0i32, 0i32));
                    }
                }
            } else {
                let target = if self.mute[ch] || f == 0 {
                    0
                } else {
                    g * 0x100
                };
                let mut i: usize = 0;
                while i < WORK_LENGTH
                    invariant
                        self.wf(),
                        self.sampling_freq == old(self).sampling_freq,
                        self.samples_per_frame == old(self).samples_per_frame,
                        self.mute == old(self).mute,
                        self.panpot == old(self).panpot,
                        self.master_gain == old(self).master_gain,
                        self.mixed_buffer@ == old(self).mixed_buffer@,
                        self.generators@ == gens,
                        mutes == self.mute@,
                        i <= WORK_LENGTH,
                        self.work@.len() == WORK_LENGTH,
                        before.len() == WORK_LENGTH,
                        ch < NUM_OF_GENERATORS,
                        u0 == units[ch as int],
                        (w, f, g) == regs[ch as int],
                        register_ok(regs[ch as int]),
                        pan == pans[ch as int],
                        target == target_gain(regs[ch as int], mutes[ch as int]),
                        0 <= target <= FULL_GAIN,
                        !voice_silent(u0, regs[ch as int]),
                        unit_ok(unit),
                        unit == unit_run(u0, w, f, target, i as nat),
                        forall|k: int|
                            0 <= k < WORK_LENGTH ==> -(ch * VOICE_PEAK) <= (#[trigger] before[k]).0 <= ch * VOICE_PEAK
                                && -(ch * VOICE_PEAK) <= before[k].1 <= ch * VOICE_PEAK,
                        forall|k: int|
                            0 <= k < i ==> (#[trigger] self.work@[k]).0 == before[k].0 + voice_out(u0, regs[ch as int], mutes[ch as int], pan, k).0
                                && self.work@[k].1 == before[k].1 + voice_out(u0, regs[ch as int], mutes[ch as int], pan, k).1,
                        forall|k: int| i <= k < WORK_LENGTH ==> #[trigger] self.work@[k] == before[k],
                        forall|k: int|
                            0 <= k < i ==> -((ch + 1) * VOICE_PEAK) <= (#[trigger] self.work@[k]).0 <= (ch + 1) * VOICE_PEAK
                                && -((ch + 1) * VOICE_PEAK) <= self.work@[k].1 <= (ch + 1) * VOICE_PEAK,
                    decreases WORK_LENGTH - i,
                {
                    let a = unit.step(w, f, target);
                    let (l, r) = pan_out(a, pan);
                    let (x, y) = self.work[i];
                    self.work[i] = (x + l, y + r);
                    i += 1;
                }
                proof {
                    assert forall|k: int| 0 <= k < WORK_LENGTH implies (#[trigger] self.work@[k]).0
                        == work_total(units, regs, mutes, pans, k, ch as nat + 1).0
                        && self.work@[k].1 == work_total(units, regs, mutes, pans, k, ch as nat + 1).1 by {
                        assert(before[k].0 == work_total(units, regs, mutes, pans, k, ch as nat).0);
                    }
                }
            }
            self.generators[ch] = unit;
            ch += 1;
        }
        proof {
            assert(work_ints(self.work@) =~= frame_work(units, regs, mutes, pans));
        }
    }

    /// Converts the work buffer to the output rate and writes the frame.
    fn mix(&mut self)
        requires
            old(self).wf(),
            forall|i: int|
                0 <= i < WORK_LENGTH ==> -work_peak() <= (#[trigger] old(self).work@[i]).0 <= work_peak()
                    && -work_peak() <= old(self).work@[i].1 <= work_peak(),
        ensures
            final(self).wf(),
            final(self).sampling_freq == old(self).sampling_freq,
            final(self).samples_per_frame == old(self).samples_per_frame,
            final(self).mute == old(self).mute,
            final(self).panpot == old(self).panpot,
            final(self).master_gain == old(self).master_gain,
            final(self).generators == old(self).generators,
            final(self).work == old(self).work,
            final(self).mixed_buffer@ == mix_down(
                work_ints(old(self).work@),
                old(self).sampling_freq as int,
                old(self).samples_per_frame as nat,
                old(self).master_gain,
            ),
    {
        let ghost work = work_ints(self.work@);
        let ghost expected = mix_down(
            work,
            self.sampling_freq as int,
            self.samples_per_frame as nat,
            self.master_gain,
        );
        let n_out = self.mixed_buffer.len();
        if self.master_gain <= 0 {
            let mut k: usize = 0;
            while k < n_out
                invariant
                    self.wf(),
                    n_out == self.mixed_buffer@.len(),
                    k <= n_out,
                    self.master_gain <= 0,
                    self.sampling_freq == old(self).sampling_freq,
                    self.samples_per_frame == old(self).samples_per_frame,
                    self.mute == old(self).mute,
                    self.panpot == old(self).panpot,
                    self.master_gain == old(self).master_gain,
                    self.generators == old(self).generators,
                    self.work == old(self).work,
                    forall|j: int| 0 <= j < k ==> #[trigger] self.mixed_buffer@[j] == 0i16,
                decreases n_out - k,
            {
                self.mixed_buffer[k] = 0;
                k += 1;
            }
            proof {
                assert(self.mixed_buffer@ =~= expected);
            }
            return;
        }
        let shift: i32 = match self.master_gain {
            1 => 6,
            2 => 5,
            3 => 4,
            4 => 3,
            5 => 2,
            6 => 1,
            _ => 0,
        };
        let sf = self.sampling_freq;
        let spf = self.samples_per_frame;
        let mut cycle: i32 = 0;
        let mut i: usize = 0;
        let mut pos: usize = 0;
        proof {
            lemma_first_entry(0, sf as int, 0);
        }
        while pos < spf
            invariant
                self.wf(),
                self.master_gain > 0,
                shift == shift_of(self.master_gain),
                sf == self.sampling_freq,
                spf == self.samples_per_frame,
                n_out == spf * 2,
                self.sampling_freq == old(self).sampling_freq,
                self.samples_per_frame == old(self).samples_per_frame,
                self.mute == old(self).mute,
                self.panpot == old(self).panpot,
                self.master_gain == old(self).master_gain,
                self.generators == old(self).generators,
                self.work == old(self).work,
                work == work_ints(self.work@),
                expected == mix_down(work, sf as int, spf as nat, self.master_gain),
                forall|k: int|
                    0 <= k < WORK_LENGTH ==> -work_peak() <= (#[trigger] self.work@[k]).0 <= work_peak()
                        && -work_peak() <= self.work@[k].1 <= work_peak(),
                pos <= spf,
                0 <= cycle < sf,
                i * sf == pos * INTERNAL_RATE + cycle,
                i == first_entry(pos as int, sf as int),
                i <= WORK_LENGTH,
                forall|j: int| 0 <= j < pos * 2 ==> #[trigger] self.mixed_buffer@[j] == expected[j],
            decreases spf - pos,
        {
            let ghost a = i as int;
            proof {
                assert((i - 1) * sf == i * sf - sf) by (nonlinear_arith);
            }
            let mut left_sum: i64 = 0;
            let mut right_sum: i64 = 0;
            let mut n: i64 = 0;
            while cycle < INTERNAL_RATE
                invariant
                    self.wf(),
                    sf == self.sampling_freq,
                    spf == self.samples_per_frame,
                    self.work == old(self).work,
                    work == work_ints(self.work@),
                    forall|k: int|
                        0 <= k < WORK_LENGTH ==> -work_peak() <= (#[trigger] self.work@[k]).0 <= work_peak()
                            && -work_peak() <= self.work@[k].1 <= work_peak(),
                    pos < spf,
                    a == first_entry(pos as int, sf as int),
                    0 <= a <= i <= WORK_LENGTH,
                    n == i - a,
                    0 <= cycle < INTERNAL_RATE + sf,
                    cycle == i * sf - pos * INTERNAL_RATE,
                    (i - 1) * sf < (pos + 1) * INTERNAL_RATE,
                    left_sum == sum_range(work, a, i as int, false),
                    right_sum == sum_range(work, a, i as int, true),
                    -(n * 262136) <= left_sum <= n * 262136,
                    -(n * 262136) <= right_sum <= n * 262136,
                decreases WORK_LENGTH - i,
            {
                proof {
                    assert(work_peak() == 262136);
                    lemma_entry_in_frame(i as int, pos as int, sf as int, spf as int);
                    assert((i + 1) * sf == i * sf + sf) by (nonlinear_arith);
                }
                left_sum = left_sum + self.work[i].0 as i64;
                right_sum = right_sum + self.work[i].1 as i64;
                i += 1;
                n += 1;
                cycle += sf;
            }
            cycle -= INTERNAL_RATE;
            proof {
                assert((i - 1) * sf == i * sf - sf) by (nonlinear_arith);
                lemma_first_entry((pos + 1) * INTERNAL_RATE, sf as int, i as int);
                assert(i as int == first_entry(pos + 1, sf as int));
                assert(n > 0) by {
                    if n == 0 {
                        assert(i == a);
                    }
                }
                assert(work_peak() == 262136);
                lemma_mean_bound(left_sum as int, n as int);
                lemma_mean_bound(right_sum as int, n as int);
            }
            let left = ((left_sum / (n * 8)) as i32 >> shift) as i16;
            let right = ((right_sum / (n * 8)) as i32 >> shift) as i16;
            self.mixed_buffer[pos * 2] = left;
            self.mixed_buffer[pos * 2 + 1] = right;
            proof {
                assert(expected[pos * 2] == left);
                assert(expected[pos * 2 + 1] == right);
            }
            pos += 1;
        }
        proof {
            assert(self.mixed_buffer@ =~= expected);
        }
    }

    /// Makes one frame from the channel registers: each voice plays its
    /// register for `WORK_LENGTH` internal samples, and the sum of the voices
    /// is brought down to the output rate.
    pub fn generate(&mut self, sound_data: &[SoundRegister; NUM_OF_GENERATORS])
        requires
            old(self).wf(),
            forall|ch: int| 0 <= ch < NUM_OF_GENERATORS ==> register_ok(#[trigger] sound_data@[ch]),
        ensures
            final(self).wf(),
            final(self).spec_sampling_freq() == old(self).spec_sampling_freq(),
            final(self).spec_samples_per_frame() == old(self).spec_samples_per_frame(),
            final(self).mutes() == old(self).mutes(),
            final(self).pans() == old(self).pans(),
            final(self).gain() == old(self).gain(),
            forall|ch: int|
                0 <= ch < NUM_OF_GENERATORS ==> #[trigger] final(self).units()[ch] == voice_after(
                    old(self).units()[ch],
                    sound_data@[ch],
                    old(self).mutes()[ch],
                ),
            final(self).mixed() == mix_down(
                frame_work(old(self).units(), sound_data@, old(self).mutes(), old(self).pans()),
                old(self).spec_sampling_freq() as int,
                old(self).spec_samples_per_frame(),
                old(self).gain(),
            ),
    {
        self.run_voices(sound_data);
        self.mix();
    }

    /// The last frame made, as interleaved left and right samples.
    pub fn mixed_buffer(&self) -> (r: &[i16])
        ensures
            r@ == self.mixed(),
    {
        self.mixed_buffer.as_slice()
    }
}

} // verus!
