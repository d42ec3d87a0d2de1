//! The score interpreter: once per tick it advances every requested cue and
//! refreshes the channel registers.
//!
//! A score part is a byte stream. A byte below `0xF0` is a note: its high
//! nibble is a key of the part's scale table, its low nibble a right shift of
//! that key's frequency code, and the byte after it the note's length in
//! units. `0xF0 w` selects waveform `w >> 4`, `0xF1 e` selects envelope `e`,
//! `0xF2 u` sets the unit length in ticks and `0xF3` ends the stream. A read
//! past the end of a stream reads the end mark, and the bytes `0xF4` to
//! `0xFF` are skipped.
use vstd::prelude::*;

pub mod envelope_tbl;
pub mod scale_set;
pub mod sound_index;

use envelope_tbl::{envelope_byte, env_byte, ENV_HOLD, ENV_DECAY, ENV_RELEASE, ENV_RESTART, ENV_LATCH};
use scale_set::{scale_value, scale_code, SCALE_CODE_BOUND};
use sound_index::{
    sound_info, sound_info_of, group_size, group_len, SoundType, NUM_SOUND_IDX, NUM_OF_GROUPS,
    CREDIT_UP_PRE, CREDIT_UP_POST,
};

verus! {

pub const OP_WAVE_FORM: u8 = 0xf0;
pub const OP_ENVELOPE: u8 = 0xf1;
pub const OP_UNIT: u8 = 0xf2;
pub const END_MARK: u8 = 0xf3;
/// How many restart or latch entries an envelope may pass in one tick
/// before the gain is left as it was.
pub const ENV_FUEL: usize = 4;
pub const NUM_OF_CHANNELS: usize = 8;

/// One channel register as the sequencer writes it.
#[derive(Clone, Copy, Debug)]
pub struct ChRegisters {
    pub wave_form: usize,
    pub freq: i32,
    pub gain: i32,
}

pub open spec fn zero_regs() -> ChRegisters {
    ChRegisters { wave_form: 0, freq: 0, gain: 0 }
}

/// A register that the synthesizer can play: a scale frequency code and a
/// gain of 0 to 15.
pub open spec fn regs_ok(r: ChRegisters) -> bool {
    &&& 0 <= r.freq < SCALE_CODE_BOUND
    &&& 0 <= r.gain <= 15
}

impl ChRegisters {
    pub fn clear(&mut self)
        ensures
            *final(self) == zero_regs(),
    {
        self.wave_form = 0;
        self.freq = 0;
        self.gain = 0;
    }

    pub fn get_registers(&self) -> (r: (usize, i32, i32))
        ensures
            r == (self.wave_form, self.freq, self.gain),
    {
        (self.wave_form, self.freq, self.gain)
    }
}

/// The interpreter's cursor over one score part.
#[derive(Clone, Copy, Debug)]
pub struct ChPrepare {
    /// The register that this part will write at the end of the tick.
    pub pre_data: ChRegisters,
    /// The position of the next byte to read.
    pub read_adr: usize,
    /// Ticks left of the current note.
    pub remain_frames: usize,
    /// Ticks per unit of note length.
    pub unit_frames: usize,
    pub envelope: usize,
    pub envelope_read_pos: usize,
    /// Whether the envelope position is latched across notes (1) or not (0).
    pub work_c: usize,
}

/// A part cleared at the end of its stream: silent, with no note under way;
/// the stream position and the envelope selection stay.
pub open spec fn cleared(p: ChPrepare) -> ChPrepare {
    ChPrepare {
        pre_data: zero_regs(),
        remain_frames: 0,
        unit_frames: 0,
        envelope_read_pos: 0,
        work_c: 0,
        ..p
    }
}

/// A part at rest, at the start of its stream.
pub open spec fn idle_part() -> ChPrepare {
    ChPrepare {
        pre_data: zero_regs(),
        read_adr: 0,
        remain_frames: 0,
        unit_frames: 0,
        envelope: 0,
        envelope_read_pos: 0,
        work_c: 0,
    }
}

pub open spec fn part_ok(p: ChPrepare) -> bool {
    &&& regs_ok(p.pre_data)
    &&& p.unit_frames <= 255
}

impl ChPrepare {
    pub fn new() -> (r: Self)
        ensures
            r == idle_part(),
    {
        ChPrepare {
            pre_data: ChRegisters { wave_form: 0, freq: 0, gain: 0 },
            read_adr: 0,
            remain_frames: 0,
            unit_frames: 0,
            envelope: 0,
            envelope_read_pos: 0,
            work_c: 0,
        }
    }

    pub fn clear(&mut self)
        ensures
            *final(self) == cleared(*old(self)),
    {
        self.pre_data.clear();
        self.remain_frames = 0;
        self.unit_frames = 0;
        self.envelope_read_pos = 0;
        self.work_c = 0;
    }
}

/// Byte `p` of a stream; the end mark past its end.
pub open spec fn byte_at(code: Seq<u8>, p: int) -> u8 {
    if 0 <= p < code.len() {
        code[p]
    } else {
        END_MARK
    }
}

/// `p + k`, held at `usize::MAX`.
pub open spec fn sat_add(p: usize, k: usize) -> usize {
    if p + k <= usize::MAX {
        (p + k) as usize
    } else {
        usize::MAX
    }
}

/// The bytes of `code` from position `p` on.
pub open spec fn bytes_left(code: Seq<u8>, p: usize) -> nat {
    if p < code.len() {
        (code.len() - p) as nat
    } else {
        0
    }
}

/// A part after reading the selection bytes up to its next note or the end
/// of its stream, and whether it reached the end. (No stream reaches
/// position `usize::MAX`.)
pub open spec fn decode(part: ChPrepare, code: Seq<u8>) -> (ChPrepare, bool)
    decreases bytes_left(code, part.read_adr),
{
    let p = part.read_adr;
    if p >= code.len() || p == usize::MAX {
        (part, true)
    } else {
        let r0 = code[p as int];
        let r1 = byte_at(code, p + 1);
        if r0 == OP_WAVE_FORM {
            decode(
                ChPrepare {
                    pre_data: ChRegisters { wave_form: (r1 >> 4u8) as usize, ..part.pre_data },
                    read_adr: sat_add(p, 2),
                    ..part
                },
                code,
            )
        } else if r0 == OP_ENVELOPE {
            decode(
                ChPrepare { envelope: r1 as usize, work_c: 0, read_adr: sat_add(p, 2), ..part },
                code,
            )
        } else if r0 == OP_UNIT {
            decode(ChPrepare { unit_frames: r1 as usize, read_adr: sat_add(p, 2), ..part }, code)
        } else if r0 == END_MARK {
            (part, true)
        } else if r0 > END_MARK {
            decode(ChPrepare { read_adr: sat_add(p, 1), ..part }, code)
        } else {
            (part, false)
        }
    }
}

/// A part with gain `g`.
pub open spec fn with_gain(part: ChPrepare, g: i32) -> ChPrepare {
    ChPrepare { pre_data: ChRegisters { gain: g, ..part.pre_data }, ..part }
}

/// The level that a hold entry at `p` keeps: the level entry before it, else
/// the gain as it is.
pub open spec fn hold_level(e: int, p: int, gain: i32) -> i32 {
    if p > 0 && env_byte(e, p - 1) < ENV_HOLD {
        env_byte(e, p - 1) as i32
    } else {
        gain
    }
}

/// A part after one tick of its envelope, passing at most `fuel` restart or
/// latch entries.
pub open spec fn env_eval(part: ChPrepare, fuel: nat) -> ChPrepare
    decreases fuel,
{
    let e = part.envelope as int;
    let p = part.envelope_read_pos as int;
    let g = env_byte(e, p);
    let gain = part.pre_data.gain;
    if fuel == 0 {
        part
    } else if g < ENV_HOLD {
        with_gain(ChPrepare { envelope_read_pos: (p + 1) as usize, ..part }, g as i32)
    } else if g == ENV_HOLD {
        with_gain(part, hold_level(e, p, gain))
    } else if g == ENV_DECAY {
        if gain > 0 {
            let next = if gain - 1 <= env_byte(e, p + 1) {
                (p + 1) as usize
            } else {
                p as usize
            };
            with_gain(ChPrepare { envelope_read_pos: next, ..part }, (gain - 1) as i32)
        } else {
            with_gain(ChPrepare { envelope_read_pos: (p + 1) as usize, ..part }, 0)
        }
    } else if g == ENV_RELEASE {
        let remain = part.remain_frames;
        if remain > gain {
            part
        } else if remain > 0 {
            with_gain(part, (remain - 1) as i32)
        } else {
            with_gain(part, 0)
        }
    } else if g == ENV_RESTART {
        env_eval(ChPrepare { work_c: 0, envelope_read_pos: 0, ..part }, (fuel - 1) as nat)
    } else if g == ENV_LATCH {
        env_eval(
            ChPrepare { work_c: 1, envelope_read_pos: (p + 1) as usize, ..part },
            (fuel - 1) as nat,
        )
    } else {
        part
    }
}

/// A part after one tick of the note at its position: the note's frequency,
/// its length when it starts, and one tick of the envelope.
pub open spec fn play_note(part: ChPrepare, code: Seq<u8>, scale: usize) -> ChPrepare {
    let p = part.read_adr as int;
    let r0 = byte_at(code, p);
    let freq = scale_code(scale as int, (r0 >> 4u8) as int) >> (r0 & 0x0fu8);
    let part1 = ChPrepare { pre_data: ChRegisters { freq: freq, ..part.pre_data }, ..part };
    let part2 = if part.remain_frames == 0 {
        ChPrepare {
            remain_frames: (byte_at(code, p + 1) * part.unit_frames) as usize,
            envelope_read_pos: if part.work_c == 0 {
                0
            } else {
                part.envelope_read_pos
            },
            ..part1
        }
    } else {
        part1
    };
    env_eval(part2, ENV_FUEL as nat)
}

/// The byte at position `p` of `code`, or the end mark past its end.
fn fetch(code: &Vec<u8>, p: usize) -> (r: u8)
    ensures
        r == byte_at(code@, p as int),
{
    if p < code.len() {
        code[p]
    } else {
        END_MARK
    }
}

/// Reads selection bytes up to the next note or the end of the stream; true
/// at the end.
fn decode_part(part: &mut ChPrepare, code: &Vec<u8>) -> (ended: bool)
    requires
        part_ok(*old(part)),
    ensures
        (*final(part), ended) == decode(*old(part), code@),
        part_ok(*final(part)),
        !ended ==> final(part).read_adr < code@.len() && code@[final(part).read_adr as int] < OP_WAVE_FORM,
{
    loop
        invariant
            decode(*part, code@) == decode(*old(part), code@),
            part_ok(*part),
        decreases bytes_left(code@, part.read_adr),
    {
        let p = part.read_adr;
        if p >= code.len() {
            return true;
        }
        let r0 = code[p];
        let r1 = fetch(code, p.saturating_add(1));
        if r0 == OP_WAVE_FORM {
            part.pre_data.wave_form = (r1 >> 4) as usize;
            part.read_adr = p.saturating_add(2);
        } else if r0 == OP_ENVELOPE {
            part.envelope = r1 as usize;
            part.work_c = 0;
            part.read_adr = p.saturating_add(2);
        } else if r0 == OP_UNIT {
            part.unit_frames = r1 as usize;
            part.read_adr = p.saturating_add(2);
        } else if r0 == END_MARK {
            return true;
        } else if r0 > END_MARK {
            part.read_adr = p.saturating_add(1);
        } else {
            return false;
        }
    }
}

/// One tick of the envelope of a part.
fn envelope_tick(part: &mut ChPrepare)
    requires
        part_ok(*old(part)),
    ensures
        *final(part) == env_eval(*old(part), ENV_FUEL as nat),
        part_ok(*final(part)),
{
    let mut fuel: usize = ENV_FUEL;
    loop
        invariant
            fuel <= ENV_FUEL,
            env_eval(*part, fuel as nat) == env_eval(*old(part), ENV_FUEL as nat),
            part_ok(*part),
        decreases fuel,
    {
        if fuel == 0 {
            return;
        }
        let e = part.envelope;
        let p = part.envelope_read_pos;
        let g = envelope_byte(e, p);
        let gain = part.pre_data.gain;
        if g < ENV_HOLD {
            part.envelope_read_pos = p + 1;
            part.pre_data.gain = g as i32;
            return;
        } else if g == ENV_HOLD {
            if p > 0 {
                let prev = envelope_byte(e, p - 1);
                if prev < ENV_HOLD {
                    part.pre_data.gain = prev as i32;
                }
            }
            return;
        } else if g == ENV_DECAY {
            if gain > 0 {
                let floor = envelope_byte(e, p + 1);
                if gain - 1 <= floor as i32 {
                    part.envelope_read_pos = p + 1;
                }
                part.pre_data.gain = gain - 1;
            } else {
                part.envelope_read_pos = p + 1;
                part.pre_data.gain = 0;
            }
            return;
        } else if g == ENV_RELEASE {
            let remain = part.remain_frames;
            if remain > gain as usize {
            } else if remain > 0 {
                part.pre_data.gain = (remain - 1) as i32;
            } else {
                part.pre_data.gain = 0;
            }
            return;
        } else if g == ENV_RESTART {
            part.work_c = 0;
            part.envelope_read_pos = 0;
        } else if g == ENV_LATCH {
            part.work_c = 1;
            part.envelope_read_pos = p + 1;
        } else {
            return;
        }
        fuel -= 1;
    }
}

/// One tick of the note at the position of a part.
fn note_tick(part: &mut ChPrepare, code: &Vec<u8>, scale: usize)
    requires
        part_ok(*old(part)),
        old(part).read_adr < code@.len(),
    ensures
        *final(part) == play_note(*old(part), code@, scale),
        part_ok(*final(part)),
{
    let p = part.read_adr;
    let n = code.len();
    let r0 = code[p];
    let key = r0 >> 4;
    let oct = r0 & 0x0f;
    assert(oct <= 15) by (bit_vector)
        requires
            oct == r0 & 0x0f,
    ;
    let code_value = scale_value(scale, key as usize);
    let freq = code_value >> oct;
    assert(0 <= freq <= code_value) by (bit_vector)
        requires
            0 <= code_value,
            oct <= 15,
            freq == code_value >> oct,
    ;
    part.pre_data.freq = freq;
    if part.remain_frames == 0 {
        assert(p + 1 <= n);
        let b = fetch(code, p + 1) as usize;
        let unit = part.unit_frames;
        assert(b * unit <= 255 * 255) by (nonlinear_arith)
            requires
                b <= 255,
                unit <= 255,
        ;
        let len = b * unit;
        part.remain_frames = len;
        if part.work_c == 0 {
            part.envelope_read_pos = 0;
        }
    }
    envelope_tick(part);
}

/// One part of a cue's score: its byte stream and the scale table it plays in.
pub struct ScorePart {
    pub code: Vec<u8>,
    pub scale: usize,
}

pub type PartModel = (Seq<u8>, usize);

pub open spec fn part_model(p: ScorePart) -> PartModel {
    (p.code@, p.scale)
}

pub open spec fn score_model(score: Seq<ScorePart>) -> Seq<PartModel> {
    score.map_values(|p: ScorePart| part_model(p))
}

/// What the interpreter works on while it plays one cue: the request and
/// progress flags of all cues, the slots of the cue's group, the channel
/// registers, and whether the cue reached its end in this tick.
pub struct Pass {
    pub request: Seq<i32>,
    pub progress: Seq<bool>,
    pub group: Seq<ChPrepare>,
    pub registers: Seq<ChRegisters>,
    pub finished: bool,
}

/// The request flags after cue `idx` reaches its end mark: the flag goes to
/// zero, but the credit pre-roll counts down by one and, on reaching zero,
/// requests the credit jingle.
pub open spec fn end_request(req: Seq<i32>, idx: int) -> Seq<i32> {
    if idx == CREDIT_UP_PRE {
        let n = if req[idx] > i32::MIN {
            req[idx] - 1
        } else {
            req[idx] as int
        };
        let r = req.update(idx, n as i32);
        if n == 0 {
            r.update(CREDIT_UP_POST as int, 1)
        } else {
            r
        }
    } else {
        req.update(idx, 0)
    }
}

/// The request flags after cue `idx` ends early because its last note is
/// over and only the end mark follows: as at the end mark, but the credit
/// pre-roll counts down only from a positive count.
pub open spec fn trailing_end_request(req: Seq<i32>, idx: int) -> Seq<i32> {
    if idx == CREDIT_UP_PRE {
        if req[idx] > 0 {
            let r = req.update(idx, (req[idx] - 1) as i32);
            if req[idx] - 1 == 0 {
                r.update(CREDIT_UP_POST as int, 1)
            } else {
                r
            }
        } else {
            req
        }
    } else {
        req.update(idx, 0)
    }
}

/// The pass after evaluating part `k` of cue `idx`: once the cue has ended,
/// the part is cleared; else it reads up to its note and plays one tick of
/// it, or ends the cue at the end mark.
pub open spec fn eval_step(s: Pass, score: Seq<PartModel>, idx: int, k: int) -> Pass {
    if s.finished {
        Pass { group: s.group.update(k, cleared(s.group[k])), ..s }
    } else {
        let part0 = if !s.progress[idx] {
            ChPrepare { read_adr: 0, remain_frames: 0, ..s.group[k] }
        } else {
            s.group[k]
        };
        let d = decode(part0, score[k].0);
        if d.1 {
            Pass {
                request: end_request(s.request, idx),
                progress: s.progress.update(idx, false),
                group: s.group.update(k, cleared(d.0)),
                finished: true,
                ..s
            }
        } else {
            Pass { group: s.group.update(k, play_note(d.0, score[k].0, score[k].1)), ..s }
        }
    }
}

/// The pass after evaluating the first `k` parts.
pub open spec fn eval_parts(s: Pass, score: Seq<PartModel>, idx: int, k: nat) -> Pass
    decreases k,
{
    if k == 0 {
        s
    } else {
        eval_step(eval_parts(s, score, idx, (k - 1) as nat), score, idx, k - 1)
    }
}

/// The pass after committing part `k`: its register is written, and while
/// the cue plays, its note runs one tick shorter; when the note is over the
/// part moves past it, and with `suppress` set a cue whose next byte is the
/// end mark ends at once instead of sounding one more silent tick.
pub open spec fn commit_step(
    s: Pass,
    score: Seq<PartModel>,
    idx: int,
    start: int,
    suppress: bool,
    k: int,
) -> Pass {
    let part = s.group[k];
    let regs = s.registers.update(start + k, part.pre_data);
    if s.finished {
        Pass { registers: regs, ..s }
    } else if part.remain_frames > 1 {
        Pass {
            registers: regs,
            group: s.group.update(
                k,
                ChPrepare { remain_frames: (part.remain_frames - 1) as usize, ..part },
            ),
            ..s
        }
    } else {
        let adv = ChPrepare { remain_frames: 0, read_adr: sat_add(part.read_adr, 2), ..part };
        if suppress && byte_at(score[k].0, adv.read_adr as int) == END_MARK {
            Pass {
                request: trailing_end_request(s.request, idx),
                progress: s.progress.update(idx, false),
                group: s.group.update(k, cleared(adv)),
                registers: regs,
                finished: true,
            }
        } else {
            Pass { registers: regs, group: s.group.update(k, adv), ..s }
        }
    }
}

/// The pass after committing the first `k` parts.
pub open spec fn commit_parts(
    s: Pass,
    score: Seq<PartModel>,
    idx: int,
    start: int,
    suppress: bool,
    k: nat,
) -> Pass
    decreases k,
{
    if k == 0 {
        s
    } else {
        commit_step(
            commit_parts(s, score, idx, start, suppress, (k - 1) as nat),
            score,
            idx,
            start,
            suppress,
            k - 1,
        )
    }
}

/// One tick of cue `idx`: every part is evaluated, the cue is marked as in
/// progress unless it ended, and every part is committed.
pub open spec fn prepare_spec(s: Pass, score: Seq<PartModel>, idx: int, start: int, suppress: bool) -> Pass {
    let e = eval_parts(s, score, idx, score.len());
    let e2 = if !e.finished {
        Pass { progress: e.progress.update(idx, true), ..e }
    } else {
        e
    };
    commit_parts(e2, score, idx, start, suppress, score.len())
}

fn end_request_exec(request: &mut [i32; NUM_SOUND_IDX], idx: usize)
    requires
        idx < NUM_SOUND_IDX,
    ensures
        final(request)@ == end_request(old(request)@, idx as int),
{
    if idx == CREDIT_UP_PRE {
        if request[idx] > i32::MIN {
            request[idx] = request[idx] - 1;
        }
        if request[idx] == 0 {
            request[CREDIT_UP_POST] = 1;
        }
    } else {
        request[idx] = 0;
    }
}

fn trailing_end_request_exec(request: &mut [i32; NUM_SOUND_IDX], idx: usize)
    requires
        idx < NUM_SOUND_IDX,
    ensures
        final(request)@ == trailing_end_request(old(request)@, idx as int),
{
    if idx == CREDIT_UP_PRE {
        if request[idx] > 0 {
            request[idx] = request[idx] - 1;
            if request[idx] == 0 {
                request[CREDIT_UP_POST] = 1;
            }
        }
    } else {
        request[idx] = 0;
    }
}

pub open spec fn group_ok(g: Seq<ChPrepare>) -> bool {
    forall|k: int| 0 <= k < g.len() ==> part_ok(#[trigger] g[k])
}

pub open spec fn registers_ok(r: Seq<ChRegisters>) -> bool {
    forall|k: int| 0 <= k < r.len() ==> regs_ok(#[trigger] r[k])
}

/// One tick of cue `idx`, whose score is `score`, on the slots `group`,
/// writing channels from `start_ch` on.
fn prepare(
    idx: usize,
    request: &mut [i32; NUM_SOUND_IDX],
    progress: &mut [bool; NUM_SOUND_IDX],
    score: &Vec<ScorePart>,
    group: &mut Vec<ChPrepare>,
    registers: &mut [ChRegisters; NUM_OF_CHANNELS],
    start_ch: usize,
    suppress: bool,
)
    requires
        idx < NUM_SOUND_IDX,
        score@.len() <= old(group)@.len(),
        start_ch + score@.len() <= NUM_OF_CHANNELS,
        group_ok(old(group)@),
        registers_ok(old(registers)@),
    ensures
        group_ok(final(group)@),
        final(group)@.len() == old(group)@.len(),
        registers_ok(final(registers)@),
        ({
            let r = prepare_spec(
                Pass {
                    request: old(request)@,
                    progress: old(progress)@,
                    group: old(group)@,
                    registers: old(registers)@,
                    finished: false,
                },
                score_model(score@),
                idx as int,
                start_ch as int,
                suppress,
            );
            &&& final(request)@ == r.request
            &&& final(progress)@ == r.progress
            &&& final(group)@ == r.group
            &&& final(registers)@ == r.registers
        }),
{
    let ghost sm = score_model(score@);
    let ghost s0 = Pass {
        request: request@,
        progress: progress@,
        group: group@,
        registers: registers@,
        finished: false,
    };
    let n = score.len();
    let mut finished = false;
    let mut k: usize = 0;
    while k < n
        invariant
            idx < NUM_SOUND_IDX,
            n == score@.len(),
            n <= group@.len(),
            sm == score_model(score@),
            k <= n,
            group_ok(group@),
            registers_ok(registers@),
            s0.group.len() == group@.len(),
            group@.len() == old(group)@.len(),
            (Pass {
                request: request@,
                progress: progress@,
                group: group@,
                registers: registers@,
                finished,
            }) == eval_parts(s0, sm, idx as int, k as nat),
        decreases n - k,
    {
        let ghost before = Pass {
            request: request@,
            progress: progress@,
            group: group@,
            registers: registers@,
            finished,
        };
        if finished {
            group[k].clear();
        } else {
            let mut part = group[k];
            if !progress[idx] {
                part.read_adr = 0;
                part.remain_frames = 0;
            }
            let code = &score[k].code;
            proof {
                assert(sm[k as int] == part_model(score@[k as int]));
            }
            let ended = decode_part(&mut part, code);
            if ended {
                end_request_exec(request, idx);
                progress[idx] = false;
                finished = true;
                part.clear();
            } else {
                note_tick(&mut part, code, score[k].scale);
            }
            group[k] = part;
        }
        proof {
            assert(eval_step(before, sm, idx as int, k as int) == (Pass {
                request: request@,
                progress: progress@,
                group: group@,
                registers: registers@,
                finished,
            }));
        }
        k += 1;
    }
    if !finished {
        progress[idx] = true;
    }
    let ghost s1 = Pass {
        request: request@,
        progress: progress@,
        group: group@,
        registers: registers@,
        finished,
    };
    k = 0;
    while k < n
        invariant
            idx < NUM_SOUND_IDX,
            n == score@.len(),
            n <= group@.len(),
            start_ch + n <= NUM_OF_CHANNELS,
            sm == score_model(score@),
            k <= n,
            group_ok(group@),
            group@.len() == old(group)@.len(),
            registers_ok(registers@),
            (Pass {
                request: request@,
                progress: progress@,
                group: group@,
                registers: registers@,
                finished,
            }) == commit_parts(s1, sm, idx as int, start_ch as int, suppress, k as nat),
        decreases n - k,
    {
        let ghost before = Pass {
            request: request@,
            progress: progress@,
            group: group@,
            registers: registers@,
            finished,
        };
        let part = group[k];
        registers[start_ch + k] = part.pre_data;
        if !finished {
            if part.remain_frames > 1 {
                group[k].remain_frames = part.remain_frames - 1;
            } else {
                let mut adv = part;
                adv.remain_frames = 0;
                adv.read_adr = part.read_adr.saturating_add(2);
                proof {
                    assert(sm[k as int] == part_model(score@[k as int]));
                }
                if suppress && fetch(&score[k].code, adv.read_adr) == END_MARK {
                    trailing_end_request_exec(request, idx);
                    progress[idx] = false;
                    finished = true;
                    adv.clear();
                }
                group[k] = adv;
            }
        }
        proof {
            assert(commit_step(before, sm, idx as int, start_ch as int, suppress, k as int) == (Pass {
                request: request@,
                progress: progress@,
                group: group@,
                registers: registers@,
                finished,
            }));
        }
        k += 1;
    }
}

/// The state of the interpreter that a tick changes.
pub struct ManagerModel {
    pub request: Seq<i32>,
    pub progress: Seq<bool>,
    pub groups: Seq<Seq<ChPrepare>>,
    pub registers: Seq<ChRegisters>,
}

/// A score table that the slot groups can play: one score per cue, each with
/// no more parts than its group has slots or its channels allow.
pub open spec fn scores_fit(scores: Seq<Seq<PartModel>>) -> bool {
    &&& scores.len() == NUM_SOUND_IDX
    &&& forall|idx: int|
        0 <= idx < NUM_SOUND_IDX ==> {
            let (kind, g, start) = sound_info(idx);
            &&& #[trigger] scores[idx].len() <= group_size(g as int)
            &&& start + scores[idx].len() <= NUM_OF_CHANNELS
        }
}

/// The pass that a tick of cue `idx` starts from.
pub open spec fn pass_of(m: ManagerModel, g: int) -> Pass {
    Pass {
        request: m.request,
        progress: m.progress,
        group: m.groups[g],
        registers: m.registers,
        finished: false,
    }
}

/// The model after one tick of cue `idx`.
pub open spec fn with_prepare(m: ManagerModel, scores: Seq<Seq<PartModel>>, suppress: bool, idx: int) -> ManagerModel {
    let (kind, g, start) = sound_info(idx);
    let r = prepare_spec(pass_of(m, g as int), scores[idx], idx, start as int, suppress);
    ManagerModel {
        request: r.request,
        progress: r.progress,
        groups: m.groups.update(g as int, r.group),
        registers: r.registers,
    }
}

/// The first `n` slots of `group` put at rest.
pub open spec fn idle_parts(group: Seq<ChPrepare>, n: int) -> Seq<ChPrepare> {
    Seq::new(group.len(), |k: int| if k < n { idle_part() } else { group[k] })
}

/// The model after a restart of cue `idx` is asked for: the cue is no longer
/// in progress and its slots are at rest.
pub open spec fn retrigger_reset(m: ManagerModel, scores: Seq<Seq<PartModel>>, idx: int) -> ManagerModel {
    let (kind, g, start) = sound_info(idx);
    ManagerModel {
        progress: m.progress.update(idx, false),
        groups: m.groups.update(g as int, idle_parts(m.groups[g as int], scores[idx].len() as int)),
        ..m
    }
}

/// The model after the tick of cue `idx`. A one-shot cue plays while it is
/// requested; a retriggerable one starts over on each request, which it then
/// clears, and otherwise plays on while in progress.
pub open spec fn run_index_spec(m: ManagerModel, scores: Seq<Seq<PartModel>>, suppress: bool, idx: int) -> ManagerModel {
    let (kind, g, start) = sound_info(idx);
    match kind {
        SoundType::OneShot => {
            if m.request[idx] != 0 {
                with_prepare(m, scores, suppress, idx)
            } else {
                ManagerModel { progress: m.progress.update(idx, false), ..m }
            }
        },
        SoundType::Retriggerable => {
            if m.request[idx] != 0 {
                let m2 = with_prepare(retrigger_reset(m, scores, idx), scores, suppress, idx);
                ManagerModel { request: m2.request.update(idx, 0), ..m2 }
            } else if m.progress[idx] {
                with_prepare(m, scores, suppress, idx)
            } else {
                m
            }
        },
    }
}

/// The model after the ticks of cues `0` to `k - 1`, in order.
pub open spec fn run_upto(m: ManagerModel, scores: Seq<Seq<PartModel>>, suppress: bool, k: nat) -> ManagerModel
    decreases k,
{
    if k == 0 {
        m
    } else {
        run_index_spec(run_upto(m, scores, suppress, (k - 1) as nat), scores, suppress, k - 1)
    }
}

/// The model after one whole tick.
pub open spec fn run_spec(m: ManagerModel, scores: Seq<Seq<PartModel>>, suppress: bool) -> ManagerModel {
    run_upto(m, scores, suppress, NUM_SOUND_IDX as nat)
}

/// A model in which the slots and registers hold values that the
/// interpreter can produce.
pub open spec fn model_ok(m: ManagerModel) -> bool {
    &&& m.request.len() == NUM_SOUND_IDX
    &&& m.progress.len() == NUM_SOUND_IDX
    &&& m.registers.len() == NUM_OF_CHANNELS
    &&& registers_ok(m.registers)
    &&& m.groups.len() == NUM_OF_GROUPS
    &&& forall|g: int|
        0 <= g < NUM_OF_GROUPS ==> (#[trigger] m.groups[g]).len() == group_size(g) && group_ok(
            m.groups[g],
        )
}

/// The model of a new interpreter.
pub open spec fn initial_model() -> ManagerModel {
    ManagerModel {
        request: Seq::new(NUM_SOUND_IDX as nat, |i: int| 0i32),
        progress: Seq::new(NUM_SOUND_IDX as nat, |i: int| false),
        groups: Seq::new(NUM_OF_GROUPS as nat, |g: int| Seq::new(group_size(g), |k: int| idle_part())),
        registers: Seq::new(NUM_OF_CHANNELS as nat, |i: int| zero_regs()),
    }
}

/// The score interpreter.
pub struct SoundManager {
    /// The request flag of each cue: zero when not requested.
    pub play_request: [i32; NUM_SOUND_IDX],
    play_progress: [bool; NUM_SOUND_IDX],
    groups: Vec<Vec<ChPrepare>>,
    registers: [ChRegisters; NUM_OF_CHANNELS],
    /// Ends a cue as soon as only its end mark is left, without the silent
    /// tick that reading the end mark would take.
    pub suppress_last_silence: bool,
    scores: Vec<Vec<ScorePart>>,
}

impl SoundManager {
    pub closed spec fn model(&self) -> ManagerModel {
        ManagerModel {
            request: self.play_request@,
            progress: self.play_progress@,
            groups: self.groups@.map_values(|g: Vec<ChPrepare>| g@),
            registers: self.registers@,
        }
    }

    pub closed spec fn scores(&self) -> Seq<Seq<PartModel>> {
        self.scores@.map_values(|v: Vec<ScorePart>| score_model(v@))
    }

    pub closed spec fn suppress(&self) -> bool {
        self.suppress_last_silence
    }

    pub closed spec fn wf(&self) -> bool {
        &&& model_ok(self.model())
        &&& scores_fit(self.scores())
    }

    /// An interpreter for the score table `scores`, one score per cue, with
    /// nothing requested; `None` when a score has more parts than the slots
    /// or channels of its cue allow.
    pub fn new(scores: Vec<Vec<ScorePart>>) -> (r: Option<Self>)
        ensures
            r is Some <==> scores_fit(scores@.map_values(|v: Vec<ScorePart>| score_model(v@))),
            r matches Some(m) ==> {
                &&& m.wf()
                &&& m.model() == initial_model()
                &&& m.scores() == scores@.map_values(|v: Vec<ScorePart>| score_model(v@))
                &&& !m.suppress()
            },
    {
        let ghost sm = scores@.map_values(|v: Vec<ScorePart>| score_model(v@));
        if scores.len() != NUM_SOUND_IDX {
            return None;
        }
        let mut idx: usize = 0;
        while idx < NUM_SOUND_IDX
            invariant
                idx <= NUM_SOUND_IDX,
                scores@.len() == NUM_SOUND_IDX,
                sm == scores@.map_values(|v: Vec<ScorePart>| score_model(v@)),
                forall|j: int|
                    0 <= j < idx ==> {
                        let (kind, g, start) = sound_info(j);
                        &&& #[trigger] sm[j].len() <= group_size(g as int)
                        &&& start + sm[j].len() <= NUM_OF_CHANNELS
                    },
            decreases NUM_SOUND_IDX - idx,
        {
            let (_, g, start) = sound_info_of(idx);
            let n = scores[idx].len();
            proof {
                assert(sm[idx as int].len() == n);
            }
            if n > group_len(g) || start + n > NUM_OF_CHANNELS {
                return None;
            }
            idx += 1;
        }
        let mut groups: Vec<Vec<ChPrepare>> = Vec::new();
        let mut g: usize = 0;
        while g < NUM_OF_GROUPS
            invariant
                g <= NUM_OF_GROUPS,
                groups@.len() == g,
                forall|j: int|
                    0 <= j < g ==> (#[trigger] groups@[j])@ == Seq::new(group_size(j), |k: int| idle_part()),
            decreases NUM_OF_GROUPS - g,
        {
            let len = group_len(g);
            let mut group: Vec<ChPrepare> = Vec::new();
            let mut k: usize = 0;
            while k < len
                invariant
                    k <= len,
                    group@ == Seq::new(k as nat, |i: int| idle_part()),
                decreases len - k,
            {
                group.push(ChPrepare::new());
                k += 1;
                proof {
                    assert(group@ =~= Seq::new(k as nat, |i: int| idle_part()));
                }
            }
            groups.push(group);
            g += 1;
        }
        let z = ChRegisters { wave_form: 0, freq: 0, gain: 0 };
        let m = SoundManager {
            play_request: [0; NUM_SOUND_IDX],
            play_progress: [false; NUM_SOUND_IDX],
            groups,
            registers: [z, z, z, z, z, z, z, z],
            suppress_last_silence: false,
            scores,
        };
        proof {
            assert(m.model().request =~= initial_model().request);
            assert(m.model().progress =~= initial_model().progress);
            assert(m.model().groups =~= initial_model().groups);
            assert(m.model().registers =~= initial_model().registers);
            assert(m.scores() == sm);
        }
        Some(m)
    }

    /// One tick of cue `idx`.
    fn run_index(&mut self, idx: usize)
        requires
            old(self).wf(),
            idx < NUM_SOUND_IDX,
        ensures
            final(self).wf(),
            final(self).scores() == old(self).scores(),
            final(self).suppress() == old(self).suppress(),
            final(self).model() == run_index_spec(old(self).model(), old(self).scores(), old(self).suppress(), idx as int),
    {
        let (kind, g, start) = sound_info_of(idx);
        let ghost m0 = self.model();
        let ghost sm = self.scores();
        proof {
            assert(sm[idx as int] == score_model(self.scores@[idx as int]@));
            assert(self.model().groups[g as int] == self.groups@[g as int]@);
        }
        match kind {
            SoundType::OneShot => {
                if self.play_request[idx] != 0 {
                    self.prepare_index(idx, g, start);
                } else {
                    self.play_progress[idx] = false;
                    proof {
                        assert(self.model().groups =~= m0.groups);
                    }
                }
            },
            SoundType::Retriggerable => {
                if self.play_request[idx] != 0 {
                    self.play_progress[idx] = false;
                    let n = self.scores[idx].len();
                    proof {
                        assert(m0.groups[g as int].len() == group_size(g as int));
                    }
                    let mut k: usize = 0;
                    while k < n
                        invariant
                            k <= n,
                            n == sm[idx as int].len(),
                            sm == self.scores(),
                            g < NUM_OF_GROUPS,
                            n <= group_size(g as int),
                            m0.groups[g as int].len() == group_size(g as int),
                            self.groups@.len() == NUM_OF_GROUPS,
                            self.play_request == old(self).play_request,
                            self.play_progress@ == m0.progress.update(idx as int, false),
                            self.registers == old(self).registers,
                            self.suppress_last_silence == old(self).suppress_last_silence,
                            forall|j: int| 0 <= j < NUM_OF_GROUPS && j != g ==> #[trigger] self.groups@[j] == old(self).groups@[j],
                            self.groups@[g as int]@ == Seq::new(
                                m0.groups[g as int].len(),
                                |q: int| if q < k { idle_part() } else { m0.groups[g as int][q] },
                            ),
                        decreases n - k,
                    {
                        self.groups[g][k] = ChPrepare::new();
                        k += 1;
                        proof {
                            assert(self.groups@[g as int]@ =~= Seq::new(
                                m0.groups[g as int].len(),
                                |q: int| if q < k { idle_part() } else { m0.groups[g as int][q] },
                            ));
                        }
                    }
                    proof {
                        assert(self.model() == retrigger_reset(m0, sm, idx as int)) by {
                            assert(self.model().groups =~= retrigger_reset(m0, sm, idx as int).groups);
                            assert(self.groups@[g as int]@ =~= idle_parts(m0.groups[g as int], n as int));
                        }
                    }
                    self.prepare_index(idx, g, start);
                    self.play_request[idx] = 0;
                } else if self.play_progress[idx] {
                    self.prepare_index(idx, g, start);
                }
            },
        }
    }

    /// One tick of cue `idx` on slot group `g` from channel `start` on.
    fn prepare_index(&mut self, idx: usize, g: usize, start: usize)
        requires
            old(self).wf(),
            idx < NUM_SOUND_IDX,
            sound_info(idx as int) matches (_, gg, st) && gg == g && st == start,
        ensures
            final(self).wf(),
            final(self).scores() == old(self).scores(),
            final(self).suppress() == old(self).suppress(),
            final(self).model() == with_prepare(old(self).model(), old(self).scores(), old(self).suppress(), idx as int),
    {
        let ghost m0 = self.model();
        let ghost sm = self.scores();
        proof {
            assert(sm[idx as int] == score_model(self.scores@[idx as int]@));
            assert(m0.groups[g as int] == self.groups@[g as int]@);
            assert(self.groups@[g as int]@.len() == group_size(g as int));
        }
        let suppress = self.suppress_last_silence;
        prepare(
            idx,
            &mut self.play_request,
            &mut self.play_progress,
            &self.scores[idx],
            &mut self.groups[g],
            &mut self.registers,
            start,
            suppress,
        );
        proof {
            assert(self.model().groups =~= with_prepare(m0, sm, suppress, idx as int).groups);
            assert forall|j: int| 0 <= j < NUM_OF_GROUPS implies (#[trigger] self.model().groups[j]).len()
                == group_size(j) && group_ok(self.model().groups[j]) by {
                if j != g {
                    assert(self.model().groups[j] == m0.groups[j]);
                }
            }
        }
    }

    /// Cancels every request, ends every cue, clears every slot and register.
    pub fn clear(&mut self)
        requires
            old(self).wf(),
        ensures
            final(self).wf(),
            final(self).scores() == old(self).scores(),
            final(self).suppress() == old(self).suppress(),
            final(self).model() == (ManagerModel {
                request: Seq::new(NUM_SOUND_IDX as nat, |i: int| 0i32),
                progress: Seq::new(NUM_SOUND_IDX as nat, |i: int| false),
                groups: old(self).model().groups.map_values(
                    |g: Seq<ChPrepare>| g.map_values(|p: ChPrepare| cleared(p)),
                ),
                registers: Seq::new(NUM_OF_CHANNELS as nat, |i: int| zero_regs()),
            }),
    {
        let ghost m0 = self.model();
        let mut i: usize = 0;
        while i < NUM_SOUND_IDX
            invariant
                i <= NUM_SOUND_IDX,
                self.wf(),
                self.scores() == old(self).scores(),
                self.suppress() == old(self).suppress(),
                self.model().groups == m0.groups,
                self.model().registers == m0.registers,
                forall|j: int| 0 <= j < i ==> #[trigger] self.play_request@[j] == 0i32,
                forall|j: int| 0 <= j < i ==> #[trigger] self.play_progress@[j] == false,
            decreases NUM_SOUND_IDX - i,
        {
            self.play_request[i] = 0;
            self.play_progress[i] = false;
            i += 1;
        }
        let ghost target = m0.groups.map_values(
            |g: Seq<ChPrepare>| g.map_values(|p: ChPrepare| cleared(p)),
        );
        let mut g: usize = 0;
        while g < NUM_OF_GROUPS
            invariant
                g <= NUM_OF_GROUPS,
                model_ok(m0),
                self.groups@.len() == NUM_OF_GROUPS,
                self.scores() == old(self).scores(),
                self.suppress() == old(self).suppress(),
                self.registers == old(self).registers,
                scores_fit(self.scores()),
                target == m0.groups.map_values(|g: Seq<ChPrepare>| g.map_values(|p: ChPrepare| cleared(p))),
                forall|j: int| 0 <= j < NUM_SOUND_IDX ==> #[trigger] self.play_request@[j] == 0i32,
                forall|j: int| 0 <= j < NUM_SOUND_IDX ==> #[trigger] self.play_progress@[j] == false,
                forall|j: int| 0 <= j < g ==> (#[trigger] self.groups@[j])@ == target[j],
                forall|j: int| g <= j < NUM_OF_GROUPS ==> (#[trigger] self.groups@[j])@ == m0.groups[j],
            decreases NUM_OF_GROUPS - g,
        {
            let n = self.groups[g].len();
            proof {
                assert(self.groups@[g as int]@ == m0.groups[g as int]);
            }
            let mut k: usize = 0;
            while k < n
                invariant
                    k <= n,
                    g < NUM_OF_GROUPS,
                    self.groups@.len() == NUM_OF_GROUPS,
                    n == m0.groups[g as int].len(),
                    self.scores() == old(self).scores(),
                    self.suppress() == old(self).suppress(),
                    self.registers == old(self).registers,
                    forall|j: int| 0 <= j < NUM_SOUND_IDX ==> #[trigger] self.play_request@[j] == 0i32,
                    forall|j: int| 0 <= j < NUM_SOUND_IDX ==> #[trigger] self.play_progress@[j] == false,
                    forall|j: int| 0 <= j < g ==> (#[trigger] self.groups@[j])@ == target[j],
                    forall|j: int| g < j < NUM_OF_GROUPS ==> (#[trigger] self.groups@[j])@ == m0.groups[j],
                    self.groups@[g as int]@ == Seq::new(
                        n as nat,
                        |q: int| if q < k { cleared(m0.groups[g as int][q]) } else { m0.groups[g as int][q] },
                    ),
                decreases n - k,
            {
                self.groups[g][k].clear();
                k += 1;
                proof {
                    assert(self.groups@[g as int]@ =~= Seq::new(
                        n as nat,
                        |q: int| if q < k { cleared(m0.groups[g as int][q]) } else { m0.groups[g as int][q] },
                    ));
                }
            }
            proof {
                assert(self.groups@[g as int]@ =~= target[g as int]);
            }
            g += 1;
        }
        self.clear_ch_registers();
        proof {
            let m = self.model();
            assert(m.request =~= Seq::new(NUM_SOUND_IDX as nat, |i: int| 0i32));
            assert(m.progress =~= Seq::new(NUM_SOUND_IDX as nat, |i: int| false));
            assert(m.groups =~= target);
            assert forall|j: int| 0 <= j < NUM_OF_GROUPS implies (#[trigger] m.groups[j]).len()
                == group_size(j) && group_ok(m.groups[j]) by {
                assert(m.groups[j] == target[j]);
                assert(m0.groups[j].len() == group_size(j));
            }
        }
    }

    /// The eight channel registers, as (waveform, frequency code, gain).
    pub fn get_ch_registers(&self) -> (r: [(usize, i32, i32); NUM_OF_CHANNELS])
        requires
            self.wf(),
        ensures
            forall|k: int|
                0 <= k < NUM_OF_CHANNELS ==> #[trigger] r@[k] == (
                    self.model().registers[k].wave_form,
                    self.model().registers[k].freq,
                    self.model().registers[k].gain,
                ) && crate::sound_generator::register_ok(r@[k]),
    {
        let r = [
            self.registers[0].get_registers(),
            self.registers[1].get_registers(),
            self.registers[2].get_registers(),
            self.registers[3].get_registers(),
            self.registers[4].get_registers(),
            self.registers[5].get_registers(),
            self.registers[6].get_registers(),
            self.registers[7].get_registers(),
        ];
        proof {
            assert forall|k: int| 0 <= k < NUM_OF_CHANNELS implies #[trigger] r@[k] == (
                self.model().registers[k].wave_form,
                self.model().registers[k].freq,
                self.model().registers[k].gain,
            ) && crate::sound_generator::register_ok(r@[k]) by {
                assert(regs_ok(self.registers@[k]));
            }
        }
        r
    }

    /// Silences the eight channel registers.
    pub fn clear_ch_registers(&mut self)
        requires
            old(self).wf(),
        ensures
            final(self).wf(),
            final(self).scores() == old(self).scores(),
            final(self).suppress() == old(self).suppress(),
            final(self).model() == (ManagerModel {
                registers: Seq::new(NUM_OF_CHANNELS as nat, |i: int| zero_regs()),
                ..old(self).model()
            }),
    {
        let mut k: usize = 0;
        while k < NUM_OF_CHANNELS
            invariant
                k <= NUM_OF_CHANNELS,
                self.play_request == old(self).play_request,
                self.play_progress == old(self).play_progress,
                self.groups == old(self).groups,
                self.scores == old(self).scores,
                self.suppress_last_silence == old(self).suppress_last_silence,
                forall|j: int| 0 <= j < k ==> #[trigger] self.registers@[j] == zero_regs(),
            decreases NUM_OF_CHANNELS - k,
        {
            self.registers[k].clear();
            k += 1;
        }
        proof {
            assert(self.registers@ =~= Seq::new(NUM_OF_CHANNELS as nat, |i: int| zero_regs()));
        }
    }

    /// Sets the request flag of cue `idx`.
    pub fn set_play_request(&mut self, idx: usize, value: i32)
        requires
            old(self).wf(),
            idx < NUM_SOUND_IDX,
        ensures
            final(self).wf(),
            final(self).scores() == old(self).scores(),
            final(self).suppress() == old(self).suppress(),
            final(self).model() == (ManagerModel {
                request: old(self).model().request.update(idx as int, value),
                ..old(self).model()
            }),
    {
        self.play_request[idx] = value;
    }

    /// Whether cue `sound_index` is playing.
    pub fn play_progress(&self, sound_index: usize) -> (r: bool)
        requires
            self.wf(),
            sound_index < NUM_SOUND_IDX,
        ensures
            r == self.model().progress[sound_index as int],
    {
        self.play_progress[sound_index]
    }

    /// One tick: every cue in turn, in the order of the score table.
    pub fn run(&mut self)
        requires
            old(self).wf(),
        ensures
            final(self).wf(),
            final(self).scores() == old(self).scores(),
            final(self).suppress() == old(self).suppress(),
            final(self).model() == run_spec(old(self).model(), old(self).scores(), old(self).suppress()),
    {
        let mut idx: usize = 0;
        while idx < NUM_SOUND_IDX
            invariant
                idx <= NUM_SOUND_IDX,
                self.wf(),
                self.scores() == old(self).scores(),
                self.suppress() == old(self).suppress(),
                self.model() == run_upto(old(self).model(), old(self).scores(), old(self).suppress(), idx as nat),
            decreases NUM_SOUND_IDX - idx,
        {
            self.run_index(idx);
            idx += 1;
        }
    }
}

/// A restart of a retriggerable cue forgets where the cue was: from two
/// models that differ only in whether the cue is in progress and in the
/// state of the slots it plays on, a requested tick of the cue gives the same
/// model, namely the one it gives from those slots at rest, and it leaves the
/// cue's request cleared.
pub proof fn lemma_retrigger_forgets(
    m1: ManagerModel,
    m2: ManagerModel,
    scores: Seq<Seq<PartModel>>,
    suppress: bool,
    idx: int,
)
    requires
        0 <= idx < NUM_SOUND_IDX,
        sound_info(idx).0 == SoundType::Retriggerable,
        scores_fit(scores),
        model_ok(m1),
        model_ok(m2),
        m1.request[idx] != 0,
        m2.request == m1.request,
        m2.registers == m1.registers,
        m2.progress.update(idx, false) == m1.progress.update(idx, false),
        forall|j: int| 0 <= j < NUM_OF_GROUPS && j != sound_info(idx).1 ==> #[trigger] m2.groups[j] == m1.groups[j],
        forall|k: int|
            scores[idx].len() <= k < group_size(sound_info(idx).1 as int) ==> #[trigger] m2.groups[sound_info(idx).1 as int][k]
                == m1.groups[sound_info(idx).1 as int][k],
    ensures
        run_index_spec(m1, scores, suppress, idx) == run_index_spec(m2, scores, suppress, idx),
        run_index_spec(m1, scores, suppress, idx) == run_index_spec(
            retrigger_reset(m1, scores, idx),
            scores,
            suppress,
            idx,
        ),
        run_index_spec(m1, scores, suppress, idx).request[idx] == 0,
{
    let g = sound_info(idx).1 as int;
    let n = scores[idx].len() as int;
    let r1 = retrigger_reset(m1, scores, idx);
    let r2 = retrigger_reset(m2, scores, idx);
    assert(idle_parts(m1.groups[g], n) =~= idle_parts(m2.groups[g], n));
    assert(r1.groups =~= r2.groups) by {
        assert forall|j: int| 0 <= j < r1.groups.len() implies r1.groups[j] == r2.groups[j] by {
            if j != g {
                assert(m2.groups[j] == m1.groups[j]);
            }
        }
    }
    assert(r1 == r2);
    let r3 = retrigger_reset(r1, scores, idx);
    assert(idle_parts(r1.groups[g], n) =~= idle_parts(m1.groups[g], n));
    assert(r3.groups =~= r1.groups);
    assert(r3.progress =~= r1.progress);
    assert(r3 == r1);
    lemma_request_kept_or_cleared(pass_of(r1, g), scores[idx], idx, sound_info(idx).2 as int, suppress);
}

/// The request flags of `p` with the flag of cue `idx` reading `b` instead,
/// unless it is zero.
pub open spec fn swap_request(p: Pass, idx: int, b: i32) -> Pass {
    Pass {
        request: p.request.update(idx, if p.request[idx] == 0 {
            0
        } else {
            b
        }),
        ..p
    }
}

proof fn lemma_eval_ignores_request(p: Pass, score: Seq<PartModel>, idx: int, b: i32, k: nat)
    requires
        0 <= idx < p.request.len(),
        idx != CREDIT_UP_PRE,
        k <= score.len(),
    ensures
        eval_parts(swap_request(p, idx, b), score, idx, k) == swap_request(
            eval_parts(p, score, idx, k),
            idx,
            b,
        ),
        eval_parts(p, score, idx, k).request.len() == p.request.len(),
    decreases k,
{
    if k > 0 {
        lemma_eval_ignores_request(p, score, idx, b, (k - 1) as nat);
        let q = eval_parts(p, score, idx, (k - 1) as nat);
        let q2 = swap_request(q, idx, b);
        let e1 = eval_step(q, score, idx, k - 1);
        let e2 = eval_step(q2, score, idx, k - 1);
        assert(end_request(q2.request, idx) =~= end_request(q.request, idx));
        assert(swap_request(e1, idx, b).request =~= e2.request);
    }
}

proof fn lemma_commit_ignores_request(
    p: Pass,
    score: Seq<PartModel>,
    idx: int,
    start: int,
    suppress: bool,
    b: i32,
    k: nat,
)
    requires
        0 <= idx < p.request.len(),
        idx != CREDIT_UP_PRE,
        k <= score.len(),
    ensures
        commit_parts(swap_request(p, idx, b), score, idx, start, suppress, k) == swap_request(
            commit_parts(p, score, idx, start, suppress, k),
            idx,
            b,
        ),
        commit_parts(p, score, idx, start, suppress, k).request.len() == p.request.len(),
    decreases k,
{
    if k > 0 {
        lemma_commit_ignores_request(p, score, idx, start, suppress, b, (k - 1) as nat);
        let q = commit_parts(p, score, idx, start, suppress, (k - 1) as nat);
        let q2 = swap_request(q, idx, b);
        let e1 = commit_step(q, score, idx, start, suppress, k - 1);
        let e2 = commit_step(q2, score, idx, start, suppress, k - 1);
        assert(trailing_end_request(q2.request, idx) =~= trailing_end_request(q.request, idx));
        assert(swap_request(e1, idx, b).request =~= e2.request);
    }
}

/// A one-shot cue that is playing ignores further requests: from two models
/// that differ only in the (nonzero) request flag of the cue, a tick of the
/// cue gives the same model, but for that flag, which either keeps its own
/// value in both or is cleared in both. (The credit pre-roll, whose flag
/// counts requests, is left out.)
pub proof fn lemma_one_shot_ignores_requests(
    m: ManagerModel,
    scores: Seq<Seq<PartModel>>,
    suppress: bool,
    idx: int,
    b: i32,
)
    requires
        0 <= idx < NUM_SOUND_IDX,
        idx != CREDIT_UP_PRE,
        sound_info(idx).0 == SoundType::OneShot,
        scores_fit(scores),
        model_ok(m),
        m.progress[idx],
        m.request[idx] != 0,
        b != 0,
    ensures
        ({
            let r1 = run_index_spec(m, scores, suppress, idx);
            let r2 = run_index_spec(
                ManagerModel { request: m.request.update(idx, b), ..m },
                scores,
                suppress,
                idx,
            );
            &&& r2 == ManagerModel {
                request: r1.request.update(idx, if r1.request[idx] == 0 {
                    0
                } else {
                    b
                }),
                ..r1
            }
            &&& (r1.request[idx] == 0 || r1.request[idx] == m.request[idx])
        }),
{
    let (kind, g, start) = sound_info(idx);
    let m2 = ManagerModel { request: m.request.update(idx, b), ..m };
    let first = pass_of(m, g as int);
    let second = pass_of(m2, g as int);
    assert(second.request =~= swap_request(first, idx, b).request);
    assert(second == swap_request(first, idx, b));
    let score = scores[idx];
    lemma_eval_ignores_request(first, score, idx, b, score.len());
    let e = eval_parts(first, score, idx, score.len());
    let e2 = if !e.finished {
        Pass { progress: e.progress.update(idx, true), ..e }
    } else {
        e
    };
    assert(swap_request(e2, idx, b) == (if !swap_request(e, idx, b).finished {
        Pass { progress: swap_request(e, idx, b).progress.update(idx, true), ..swap_request(e, idx, b) }
    } else {
        swap_request(e, idx, b)
    }));
    lemma_commit_ignores_request(e2, score, idx, start as int, suppress, b, score.len());
    let r1 = run_index_spec(m, scores, suppress, idx);
    let r2 = run_index_spec(m2, scores, suppress, idx);
    assert(r2.request =~= r1.request.update(idx, if r1.request[idx] == 0 {
        0
    } else {
        b
    }));
    lemma_request_kept_or_cleared(first, score, idx, start as int, suppress);
}

/// A tick of a cue keeps the number of request flags, and, but for the
/// credit pre-roll, either keeps or clears the cue's own flag.
proof fn lemma_request_kept_or_cleared(p: Pass, score: Seq<PartModel>, idx: int, start: int, suppress: bool)
    requires
        0 <= idx < p.request.len(),
    ensures
        ({
            let r = prepare_spec(p, score, idx, start, suppress);
            &&& r.request.len() == p.request.len()
            &&& (idx != CREDIT_UP_PRE ==> r.request[idx] == 0 || r.request[idx] == p.request[idx])
        }),
{
    lemma_eval_request(p, score, idx, score.len());
    let e = eval_parts(p, score, idx, score.len());
    let e2 = if !e.finished {
        Pass { progress: e.progress.update(idx, true), ..e }
    } else {
        e
    };
    lemma_commit_request(e2, score, idx, start, suppress, score.len());
}

proof fn lemma_eval_request(p: Pass, score: Seq<PartModel>, idx: int, k: nat)
    requires
        0 <= idx < p.request.len(),
    ensures
        eval_parts(p, score, idx, k).request.len() == p.request.len(),
        idx != CREDIT_UP_PRE ==> eval_parts(p, score, idx, k).request[idx] == 0 || eval_parts(p, score, idx, k).request[idx]
            == p.request[idx],
    decreases k,
{
    if k > 0 {
        lemma_eval_request(p, score, idx, (k - 1) as nat);
    }
}

proof fn lemma_commit_request(p: Pass, score: Seq<PartModel>, idx: int, start: int, suppress: bool, k: nat)
    requires
        0 <= idx < p.request.len(),
    ensures
        commit_parts(p, score, idx, start, suppress, k).request.len() == p.request.len(),
        idx != CREDIT_UP_PRE ==> commit_parts(p, score, idx, start, suppress, k).request[idx] == 0 || commit_parts(
            p,
            score,
            idx,
            start,
            suppress,
            k,
        ).request[idx] == p.request[idx],
    decreases k,
{
    if k > 0 {
        lemma_commit_request(p, score, idx, start, suppress, (k - 1) as nat);
    }
}

} // verus!
