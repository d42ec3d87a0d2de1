//! A fixed-capacity circular buffer of 16-bit samples, shared between a
//! block-oriented producer and a sample-by-sample consumer.
use vstd::prelude::*;

verus! {

pub type SoundData16 = Vec<i16>;

/// The abstract state of a [`Sound`] buffer.
pub struct SoundModel {
    pub buffer: Seq<i16>,
    pub volume: u16,
    pub mute: bool,
    pub current: nat,
    pub called: nat,
    pub remain: nat,
}

/// What the consumer hears of a stored sample: silence when muted or at
/// volume 0, a right shift by `7 - volume` bits for volumes 1 to 6, and the
/// sample itself from volume 7 up.
pub open spec fn attenuate(sample: i16, volume: u16, mute: bool) -> i16 {
    if mute || volume == 0 {
        0
    } else if volume >= 7 {
        sample
    } else {
        sample >> ((7 - volume) as u16)
    }
}

/// `buf` after writing `s` at positions `start, start + 1, ...` taken modulo
/// the length of `buf`; a later sample wins over an earlier one on the same
/// position.
pub open spec fn write_at(buf: Seq<i16>, start: nat, s: Seq<i16>) -> Seq<i16>
    decreases s.len(),
{
    if s.len() == 0 || buf.len() == 0 {
        buf
    } else {
        write_at(buf, start, s.drop_last()).update(
            (start + s.len() - 1) % (buf.len() as int),
            s.last(),
        )
    }
}

/// The samples that the consumer has yet to read, oldest first.
pub open spec fn pending(m: SoundModel) -> Seq<i16> {
    Seq::new(m.remain, |k: int| m.buffer[(m.current + k) % (m.buffer.len() as int)])
}

/// The model after `set_data(offset, s)`.
pub open spec fn set_spec(m: SoundModel, offset: nat, s: Seq<i16>) -> SoundModel {
    SoundModel { buffer: write_at(m.buffer, offset, s), remain: m.remain + s.len(), ..m }
}

/// The model after `push_data(s)`: the samples go right after the unread ones.
pub open spec fn push_spec(m: SoundModel, s: Seq<i16>) -> SoundModel {
    set_spec(m, m.current + m.remain, s)
}

/// One read by the consumer: the new model and the sample handed out.
pub open spec fn read_spec(m: SoundModel) -> (SoundModel, i16) {
    if m.remain == 0 {
        (m, 0)
    } else {
        (
            SoundModel { current: m.current + 1, remain: (m.remain - 1) as nat, ..m },
            attenuate(m.buffer[(m.current % m.buffer.len()) as int], m.volume, m.mute),
        )
    }
}

/// `n` reads in a row: the model after them and the samples handed out.
pub open spec fn read_many(m: SoundModel, n: nat) -> (SoundModel, Seq<i16>)
    decreases n,
{
    if n == 0 {
        (m, Seq::empty())
    } else {
        let next = read_spec(m);
        let rest = read_many(next.0, (n - 1) as nat);
        (rest.0, seq![next.1] + rest.1)
    }
}

/// The model after `set_silent_data()`.
pub open spec fn silent_spec(m: SoundModel) -> SoundModel {
    SoundModel {
        buffer: Seq::new(m.buffer.len(), |i: int| 0i16),
        current: 0,
        remain: m.buffer.len(),
        ..m
    }
}

/// A model that a buffer can be in: a non-empty array, and counters whose
/// sum fits in `usize`.
pub open spec fn model_wf(m: SoundModel) -> bool {
    &&& m.buffer.len() > 0
    &&& m.current + m.remain <= usize::MAX
    &&& m.called <= usize::MAX
}

/// The sample buffer that the audio device drains.
pub struct Sound {
    buffer: SoundData16,
    buf_size: usize,
    volume: u16,
    mute: bool,
    current: usize,
    called: usize,
    remain: usize,
}

impl View for Sound {
    type V = SoundModel;

    closed spec fn view(&self) -> SoundModel {
        SoundModel {
            buffer: self.buffer@,
            volume: self.volume,
            mute: self.mute,
            current: self.current as nat,
            called: self.called as nat,
            remain: self.remain as nat,
        }
    }
}

/// The operations of the producer side of a sample buffer.
pub trait Control: View<V = SoundModel> + Sized {
    spec fn well_formed(&self) -> bool;

    fn set_mute(&mut self, specifier: bool)
        requires
            old(self).well_formed(),
        ensures
            final(self).well_formed(),
            final(self)@ == (SoundModel { mute: specifier, ..old(self)@ }),
    ;

    fn set_volume(&mut self, volume: u16)
        requires
            old(self).well_formed(),
        ensures
            final(self).well_formed(),
            final(self)@ == (SoundModel { volume: volume, ..old(self)@ }),
    ;

    /// Writes `sound` from position `offset` on, wrapping round the end.
    fn set_data(&mut self, offset: usize, sound: &[i16])
        requires
            old(self).well_formed(),
            old(self)@.current + old(self)@.remain + sound@.len() <= usize::MAX,
        ensures
            final(self).well_formed(),
            final(self)@ == set_spec(old(self)@, offset as nat, sound@),
    ;

    /// Writes `sound` right after the samples not yet read.
    fn push_data(&mut self, sound: &[i16])
        requires
            old(self).well_formed(),
            old(self)@.current + old(self)@.remain + sound@.len() <= usize::MAX,
        ensures
            final(self).well_formed(),
            final(self)@ == push_spec(old(self)@, sound@),
    ;

    /// Fills the whole buffer with silence, all of it unread.
    fn set_silent_data(&mut self)
        requires
            old(self).well_formed(),
        ensures
            final(self).well_formed(),
            final(self)@ == silent_spec(old(self)@),
    ;

    fn buf_size(&mut self) -> (r: usize)
        requires
            old(self).well_formed(),
        ensures
            *final(self) == *old(self),
            r == old(self)@.buffer.len(),
    ;

    fn mute(&mut self) -> (r: bool)
        ensures
            *final(self) == *old(self),
            r == old(self)@.mute,
    ;

    fn volume(&mut self) -> (r: u16)
        ensures
            *final(self) == *old(self),
            r == old(self)@.volume,
    ;

    fn current(&mut self) -> (r: usize)
        ensures
            *final(self) == *old(self),
            r == old(self)@.current,
    ;

    fn called(&mut self) -> (r: usize)
        ensures
            *final(self) == *old(self),
            r == old(self)@.called,
    ;

    fn remain(&mut self) -> (r: usize)
        ensures
            *final(self) == *old(self),
            r == old(self)@.remain,
    ;
}

/// The attenuated value of one stored sample.
fn attenuated(sample: i16, volume: u16, mute: bool) -> (r: i16)
    ensures
        r == attenuate(sample, volume, mute),
{
    if mute || volume == 0 {
        0
    } else if volume >= 7 {
        sample
    } else {
        sample >> ((7 - volume) as u16)
    }
}

impl Sound {
    pub closed spec fn wf(&self) -> bool {
        &&& self.buffer@.len() == self.buf_size
        &&& model_wf(self@)
    }

    /// A buffer of `len` silent samples, with every counter at zero.
    pub fn new(len: usize) -> (r: Sound)
        requires
            len > 0,
        ensures
            r.wf(),
            r@ == (SoundModel {
                buffer: Seq::new(len as nat, |i: int| 0i16),
                volume: 0,
                mute: false,
                current: 0,
                called: 0,
                remain: 0,
            }),
    {
        let mut buffer: Vec<i16> = Vec::new();
        let mut i: usize = 0;
        while i < len
            invariant
                i <= len,
                buffer@ == Seq::new(i as nat, |j: int| 0i16),
            decreases len - i,
        {
            buffer.push(0);
            i += 1;
        }
        Sound { buffer, buf_size: len, volume: 0, mute: false, current: 0, called: 0, remain: 0 }
    }

    /// Writes `sound` from position `pos` on, wrapping, without touching the
    /// counters.
    fn write_wrapping(&mut self, pos: usize, sound: &[i16])
        requires
            old(self).wf(),
        ensures
            final(self).wf(),
            final(self)@ == (SoundModel {
                buffer: write_at(old(self)@.buffer, pos as nat, sound@),
                ..old(self)@
            }),
    {
        let len = self.buf_size;
        let start = pos % len;
        let mut i: usize = 0;
        while i < sound.len()
            invariant
                self.wf(),
                len == self.buf_size,
                old(self)@.buffer.len() == len,
                start == pos % len,
                i <= sound@.len(),
                self@ == (SoundModel {
                    buffer: write_at(old(self)@.buffer, pos as nat, sound@.take(i as int)),
                    ..old(self)@
                }),
            decreases sound@.len() - i,
        {
            let p = ((start as u128 + i as u128) % len as u128) as usize;
            proof {
                let t = sound@.take(i as int + 1);
                assert(t.drop_last() =~= sound@.take(i as int));
                assert(t.last() == sound@[i as int]);
                lemma_mod_shift(pos as int, i as int, len as int);
                assert(p == (start + i) % (len as int));
                assert(start == pos % len);
                assert(p == (pos + i) % (len as int));
                assert(write_at(old(self)@.buffer, pos as nat, t) == write_at(
                    old(self)@.buffer,
                    pos as nat,
                    sound@.take(i as int),
                ).update(p as int, sound@[i as int]));
            }
            self.buffer.set(p, sound[i]);
            i += 1;
        }
        proof {
            assert(sound@.take(sound@.len() as int) =~= sound@);
        }
    }

    /// One read by the consumer: the next unread sample, attenuated, or
    /// silence when nothing is left to read.
    pub fn read_one(&mut self) -> (r: i16)
        requires
            old(self).wf(),
        ensures
            final(self).wf(),
            (final(self)@, r) == read_spec(old(self)@),
    {
        if self.remain == 0 {
            0
        } else {
            let pos = self.current % self.buf_size;
            let sample = self.buffer[pos];
            self.current += 1;
            self.remain -= 1;
            attenuated(sample, self.volume, self.mute)
        }
    }

    /// Fills `out` with as many reads and counts one more block.
    pub fn callback(&mut self, out: &mut [i16])
        requires
            old(self).wf(),
            old(self)@.called < usize::MAX,
        ensures
            final(self).wf(),
            final(out)@ == read_many(old(self)@, old(out)@.len()).1,
            final(self)@ == (SoundModel {
                called: old(self)@.called + 1,
                ..read_many(old(self)@, old(out)@.len()).0
            }),
    {
        let n = out.len();
        let mut i: usize = 0;
        while i < n
            invariant
                self.wf(),
                n == out@.len(),
                n == old(out)@.len(),
                i <= n,
                self@.called == old(self)@.called,
                (self@, out@.take(i as int)) == ({
                    let (m, s) = read_many(old(self)@, i as nat);
                    (m, s)
                }),
            decreases n - i,
        {
            proof {
                lemma_read_many_snoc(old(self)@, i as nat);
            }
            let x = self.read_one();
            out[i] = x;
            proof {
                assert(out@.take(i as int + 1) =~= out@.take(i as int).push(x));
            }
            i += 1;
        }
        proof {
            assert(out@.take(n as int) =~= out@);
        }
        self.called += 1;
    }
}

impl Control for Sound {
    open spec fn well_formed(&self) -> bool {
        self.wf()
    }

    fn set_mute(&mut self, specifier: bool) {
        self.mute = specifier;
    }

    fn set_volume(&mut self, volume: u16) {
        self.volume = volume;
    }

    fn set_data(&mut self, offset: usize, sound: &[i16]) {
        self.write_wrapping(offset, sound);
        self.remain += sound.len();
    }

    fn push_data(&mut self, sound: &[i16]) {
        let pos = self.current + self.remain;
        self.write_wrapping(pos, sound);
        self.remain += sound.len();
    }

    fn set_silent_data(&mut self) {
        let len = self.buf_size;
        let mut i: usize = 0;
        while i < len
            invariant
                self.wf(),
                len == self.buf_size,
                i <= len,
                self.current == old(self).current,
                self.remain == old(self).remain,
                self.volume == old(self).volume,
                self.mute == old(self).mute,
                self.called == old(self).called,
                forall|j: int| 0 <= j < i ==> self.buffer@[j] == 0i16,
            decreases len - i,
        {
            self.buffer.set(i, 0);
            i += 1;
        }
        self.current = 0;
        self.remain = len;
        proof {
            assert(self.buffer@ =~= Seq::new(len as nat, |j: int| 0i16));
        }
    }

    fn buf_size(&mut self) -> (r: usize) {
        self.buf_size
    }

    fn mute(&mut self) -> (r: bool) {
        self.mute
    }

    fn volume(&mut self) -> (r: u16) {
        self.volume
    }

    fn current(&mut self) -> (r: usize) {
        self.current
    }

    fn called(&mut self) -> (r: usize) {
        self.called
    }

    fn remain(&mut self) -> (r: usize) {
        self.remain
    }
}

/// `(pos % len + i) % len` is `(pos + i) % len`.
proof fn lemma_mod_shift(pos: int, i: int, len: int)
    requires
        len > 0,
    ensures
        ((pos % len) + i) % len == (pos + i) % len,
{
    vstd::arithmetic::div_mod::lemma_add_mod_noop_right(i, pos, len);
    assert(i + pos % len == pos % len + i);
    assert(i + pos == pos + i);
}

/// Reading one more sample appends it to what the earlier reads handed out.
proof fn lemma_read_many_snoc(m: SoundModel, n: nat)
    ensures
        read_many(m, n + 1).1 == read_many(m, n).1.push(read_spec(read_many(m, n).0).1),
        read_many(m, n + 1).0 == read_spec(read_many(m, n).0).0,
    decreases n,
{
    if n > 0 {
        let m1 = read_spec(m).0;
        lemma_read_many_snoc(m1, (n - 1) as nat);
        assert(read_many(m, n + 1).1 == seq![read_spec(m).1] + read_many(m1, n).1);
        assert(read_many(m, n).1 == seq![read_spec(m).1] + read_many(m1, (n - 1) as nat).1);
        assert(read_many(m, n + 1).0 == read_many(m1, n).0);
        assert(read_many(m, n).0 == read_many(m1, (n - 1) as nat).0);
        assert(read_many(m, n + 1).1 =~= read_many(m, n).1.push(
            read_spec(read_many(m, n).0).1,
        ));
    } else {
        assert(read_many(m, 0).0 == m);
        assert(read_many(m, 1).0 == read_many(read_spec(m).0, 0).0);
        assert(read_many(m, 1).1 =~= seq![read_spec(m).1]);
    }
}

/// The position of sample `j` of a write from `start` differs from that of
/// sample `k`, for `j < k` within one lap of the buffer.
proof fn lemma_mod_distinct(x: int, j: int, k: int, len: int)
    requires
        0 <= j < k < len,
    ensures
        (x + j) % len != (x + k) % len,
{
    vstd::arithmetic::div_mod::lemma_mod_equivalence(x + k, x + j, len);
    vstd::arithmetic::div_mod::lemma_small_mod((k - j) as nat, len as nat);
    assert((x + k) - (x + j) == k - j);
}

/// The position in a buffer of length `len` of sample `j` of a write that
/// starts at `start`.
spec fn slot(start: int, j: int, len: int) -> int {
    (start + j) % len
}

/// A write of at most one lap puts each sample where it belongs and leaves
/// every other position alone.
proof fn lemma_write_at(buf: Seq<i16>, start: nat, s: Seq<i16>)
    requires
        buf.len() > 0,
        s.len() <= buf.len(),
    ensures
        write_at(buf, start, s).len() == buf.len(),
        forall|j: int|
            0 <= j < s.len() ==> write_at(buf, start, s)[#[trigger] slot(
                start as int,
                j,
                buf.len() as int,
            )] == s[j],
        forall|p: int|
            0 <= p < buf.len() && (forall|j: int|
                0 <= j < s.len() ==> #[trigger] slot(start as int, j, buf.len() as int) != p)
                ==> #[trigger] write_at(buf, start, s)[p] == buf[p],
    decreases s.len(),
{
    if s.len() > 0 {
        let t = s.drop_last();
        let len = buf.len() as int;
        lemma_write_at(buf, start, t);
        assert forall|j: int| 0 <= j < s.len() implies write_at(buf, start, s)[#[trigger] slot(
            start as int,
            j,
            len,
        )] == s[j] by {
            if j < s.len() - 1 {
                lemma_mod_distinct(start as int, j, s.len() - 1, len);
                assert(t[j] == s[j]);
            }
        }
        assert forall|p: int|
            0 <= p < buf.len() && (forall|j: int|
                0 <= j < s.len() ==> #[trigger] slot(start as int, j, len) != p) implies #[trigger] write_at(
            buf,
            start,
            s,
        )[p] == buf[p] by {
            assert(slot(start as int, s.len() - 1, len) != p);
            assert forall|j: int| 0 <= j < t.len() implies #[trigger] slot(start as int, j, len) != p by {
                assert(0 <= j < s.len());
            }
        }
    }
}

/// What a push adds comes after what was pending, as long as it does not
/// run more than one lap ahead of the reader.
pub proof fn lemma_push_pending(m: SoundModel, s: Seq<i16>)
    requires
        model_wf(m),
        m.remain + s.len() <= m.buffer.len(),
    ensures
        pending(push_spec(m, s)) == pending(m) + s,
{
    let len = m.buffer.len() as int;
    let start = m.current + m.remain;
    let m2 = push_spec(m, s);
    lemma_write_at(m.buffer, start, s);
    assert forall|k: int| 0 <= k < m2.remain implies pending(m2)[k] == (pending(m) + s)[k] by {
        if k < m.remain {
            assert forall|j: int| 0 <= j < s.len() implies #[trigger] slot(start as int, j, len)
                != (m.current + k) % len by {
                lemma_mod_distinct(m.current as int, k, m.remain + j, len);
                assert(start + j == m.current + (m.remain + j));
            }
            vstd::arithmetic::div_mod::lemma_mod_bound(m.current + k, len);
        } else {
            let j = k - m.remain;
            assert(m.current + k == start + j);
            assert(slot(start as int, j, len) == (m.current + k) % len);
        }
    }
    assert(pending(m2) =~= pending(m) + s);
}

/// Reads hand out the pending samples in order, attenuated.
pub proof fn lemma_read_pending(m: SoundModel, n: nat)
    requires
        model_wf(m),
        n <= m.remain,
    ensures
        read_many(m, n).1 == pending(m).take(n as int).map_values(
            |x: i16| attenuate(x, m.volume, m.mute),
        ),
        read_many(m, n).0 == (SoundModel {
            current: m.current + n,
            remain: (m.remain - n) as nat,
            ..m
        }),
    decreases n,
{
    if n > 0 {
        let m1 = read_spec(m).0;
        lemma_read_pending(m1, (n - 1) as nat);
        assert(pending(m1) =~= pending(m).drop_first()) by {
            assert forall|k: int| 0 <= k < pending(m1).len() implies pending(m1)[k]
                == pending(m).drop_first()[k] by {
                assert(m1.current + k == m.current + (k + 1));
            }
        }
        vstd::arithmetic::div_mod::lemma_mod_bound(m.current as int, m.buffer.len() as int);
        assert(read_many(m, n).1 =~= pending(m).take(n as int).map_values(
            |x: i16| attenuate(x, m.volume, m.mute),
        ));
    } else {
        assert(read_many(m, 0).1 =~= pending(m).take(0).map_values(
            |x: i16| attenuate(x, m.volume, m.mute),
        ));
    }
}

/// Round trip: after a push that keeps within one lap of the reader, as many
/// reads as there are samples pending hand back what was pending before, then
/// the pushed samples, each attenuated by the volume and mute setting.
pub proof fn lemma_round_trip(m: SoundModel, s: Seq<i16>)
    requires
        model_wf(m),
        m.current + m.remain + s.len() <= usize::MAX,
        m.remain + s.len() <= m.buffer.len(),
    ensures
        read_many(push_spec(m, s), m.remain + s.len()).1 == (pending(m) + s).map_values(
            |x: i16| attenuate(x, m.volume, m.mute),
        ),
        read_many(push_spec(m, s), m.remain + s.len()).0.remain == 0,
{
    let m2 = push_spec(m, s);
    lemma_write_at(m.buffer, m.current + m.remain, s);
    lemma_push_pending(m, s);
    lemma_read_pending(m2, m.remain + s.len());
    assert(pending(m2).take(m2.remain as int) =~= pending(m2));
}

/// The model after pushing each block of `blocks` in turn.
pub open spec fn push_all(m: SoundModel, blocks: Seq<Seq<i16>>) -> SoundModel
    decreases blocks.len(),
{
    if blocks.len() == 0 {
        m
    } else {
        push_spec(push_all(m, blocks.drop_last()), blocks.last())
    }
}

/// The blocks of `blocks` joined end to end.
pub open spec fn joined(blocks: Seq<Seq<i16>>) -> Seq<i16>
    decreases blocks.len(),
{
    if blocks.len() == 0 {
        Seq::empty()
    } else {
        joined(blocks.drop_last()) + blocks.last()
    }
}

/// Round trip over a sequence of pushes that together keep within one lap of
/// the reader: the reads hand back what was pending, then every pushed
/// sample in the order of the pushes.
pub proof fn lemma_round_trip_blocks(m: SoundModel, blocks: Seq<Seq<i16>>)
    requires
        model_wf(m),
        m.current + m.remain + joined(blocks).len() <= usize::MAX,
        m.remain + joined(blocks).len() <= m.buffer.len(),
    ensures
        model_wf(push_all(m, blocks)),
        push_all(m, blocks).remain == m.remain + joined(blocks).len(),
        read_many(push_all(m, blocks), m.remain + joined(blocks).len()).1 == (pending(m)
            + joined(blocks)).map_values(|x: i16| attenuate(x, m.volume, m.mute)),
    decreases blocks.len(),
{
    if blocks.len() > 0 {
        let front = blocks.drop_last();
        lemma_round_trip_blocks(m, front);
        let mid = push_all(m, front);
        lemma_pending_blocks(m, front);
        lemma_push_pending(mid, blocks.last());
        lemma_write_at(mid.buffer, mid.current + mid.remain, blocks.last());
        lemma_pending_blocks(m, blocks);
        let end = push_all(m, blocks);
        lemma_read_pending(end, end.remain);
        assert(pending(end).take(end.remain as int) =~= pending(end));
    } else {
        lemma_read_pending(m, m.remain);
        assert(pending(m).take(m.remain as int) =~= pending(m));
        assert(pending(m) + joined(blocks) =~= pending(m));
    }
}

/// What is pending after a sequence of pushes within one lap.
proof fn lemma_pending_blocks(m: SoundModel, blocks: Seq<Seq<i16>>)
    requires
        model_wf(m),
        m.current + m.remain + joined(blocks).len() <= usize::MAX,
        m.remain + joined(blocks).len() <= m.buffer.len(),
    ensures
        model_wf(push_all(m, blocks)),
        push_all(m, blocks).current == m.current,
        push_all(m, blocks).volume == m.volume,
        push_all(m, blocks).mute == m.mute,
        push_all(m, blocks).buffer.len() == m.buffer.len(),
        push_all(m, blocks).remain == m.remain + joined(blocks).len(),
        pending(push_all(m, blocks)) == pending(m) + joined(blocks),
    decreases blocks.len(),
{
    if blocks.len() > 0 {
        let front = blocks.drop_last();
        lemma_pending_blocks(m, front);
        let mid = push_all(m, front);
        lemma_push_pending(mid, blocks.last());
        lemma_write_at(mid.buffer, mid.current + mid.remain, blocks.last());
        assert(pending(m) + joined(blocks) =~= pending(m) + joined(front) + blocks.last());
    } else {
        assert(pending(m) + joined(blocks) =~= pending(m));
    }
}

/// After `set_silent_data()`, every read hands out silence, and no read
/// raises the count of unread samples.
pub proof fn lemma_silence(m: SoundModel, n: nat)
    requires
        model_wf(m),
    ensures
        read_many(silent_spec(m), n).1 == Seq::new(n, |i: int| 0i16),
        read_many(silent_spec(m), n + 1).0.remain <= read_many(silent_spec(m), n).0.remain,
        read_many(silent_spec(m), n).0.remain <= silent_spec(m).remain,
{
    lemma_reads_of_zeros(silent_spec(m), n);
    lemma_read_many_snoc(silent_spec(m), n);
}

/// Reads from a buffer that holds only zeros hand out zeros, and the count
/// of unread samples never grows.
proof fn lemma_reads_of_zeros(m: SoundModel, n: nat)
    requires
        m.buffer.len() > 0,
        forall|i: int| 0 <= i < m.buffer.len() ==> m.buffer[i] == 0i16,
    ensures
        read_many(m, n).1 == Seq::new(n, |i: int| 0i16),
        read_many(m, n).0.remain <= m.remain,
        read_many(m, n).0.buffer == m.buffer,
    decreases n,
{
    if n > 0 {
        let m1 = read_spec(m).0;
        lemma_reads_of_zeros(m1, (n - 1) as nat);
        if m.remain > 0 {
            vstd::arithmetic::div_mod::lemma_mod_bound(m.current as int, m.buffer.len() as int);
            let k = (7 - m.volume) as u16;
            assert((0i16 >> k) == 0i16) by (bit_vector);
        }
        assert(read_many(m, n).1 =~= Seq::new(n, |i: int| 0i16));
    } else {
        assert(read_many(m, n).1 =~= Seq::new(n, |i: int| 0i16));
    }
}

} // verus!
