//! The ring of decoded audio samples between the decoder and the audio
//! device: a fixed-capacity FIFO that is emptied when a new seek generation
//! (serial) starts.
use vstd::arithmetic::div_mod::lemma_add_mod_noop_right;
use crate::float_bits::{le, less_eq, MINUS_ONE_BITS};
use vstd::prelude::*;

verus! {

broadcast use vstd::slice::group_slice_axioms;

/// Sample ring. `sample_rate` and `channels` describe the samples; the ring
/// itself counts samples, not frames.
pub struct AudioRingBuffer {
    buffer: Vec<i16>,
    write_index: usize,
    read_index: usize,
    size: usize,
    serial: u32,
    closed: bool,
    samples_read: usize,
    pts_bits: u64,
    seek_bits: u64,
    last_read: u64,
    skips: usize,
    pub sample_rate: u32,
    pub channels: u16,
}

/// A snapshot of the ring's fill level, serial and closed flag.
#[derive(Clone, Copy)]
pub struct AudioRingView {
    size: usize,
    serial: u32,
    closed: bool,
    capacity: usize,
}

proof fn lemma_small(x: int, m: int)
    requires
        0 <= x < m,
    ensures
        x % m == x,
{
    vstd::arithmetic::div_mod::lemma_small_mod(x as nat, m as nat);
}

proof fn lemma_mod_step(a: int, b: int, m: int)
    requires
        0 < m,
    ensures
        ((a % m) + b) % m == (a + b) % m,
{
    lemma_add_mod_noop_right(b, a, m);
}

impl AudioRingBuffer {
    /// Number of sample slots.
    pub closed spec fn capacity_spec(&self) -> nat {
        self.buffer@.len()
    }

    /// The queued samples, oldest first.
    pub closed spec fn contents(&self) -> Seq<i16> {
        Seq::new(
            self.size as nat,
            |k: int| self.buffer@[(self.read_index + k) % (self.buffer@.len() as int)],
        )
    }

    /// Current seek generation.
    pub closed spec fn serial_spec(&self) -> u32 {
        self.serial
    }

    /// Whether the ring was closed.
    pub closed spec fn closed_spec(&self) -> bool {
        self.closed
    }

    /// Samples handed out since the current serial began (wrapping).
    pub closed spec fn samples_read_spec(&self) -> usize {
        self.samples_read
    }

    /// The time (`f64` bits) of the first sample of the current serial,
    /// moved on past samples skipped for a seek.
    pub closed spec fn pts_spec(&self) -> u64 {
        self.pts_bits
    }

    /// The pending seek target (`f64` bits); none is pending below zero.
    pub closed spec fn seek_spec(&self) -> u64 {
        self.seek_bits
    }

    /// When samples were last handed out or the clock last moved.
    pub closed spec fn last_read_spec(&self) -> u64 {
        self.last_read
    }

    /// Writes skipped in a row for a pending seek.
    pub closed spec fn skips_spec(&self) -> usize {
        self.skips
    }

    /// Sample rate and channel count.
    pub closed spec fn format_spec(&self) -> (u32, u16) {
        (self.sample_rate, self.channels)
    }

    /// Internal consistency of the ring indices.
    pub closed spec fn wf(&self) -> bool {
        let cap = self.buffer@.len();
        &&& self.size <= cap
        &&& cap > 0 ==> self.read_index < cap && self.write_index == (self.read_index + self.size)
            % (cap as int)
        &&& cap == 0 ==> self.read_index == 0 && self.write_index == 0
    }

    /// An empty ring of `capacity` zeroed slots, serial 0, open.
    pub fn with_capacity(capacity: usize, sample_rate: u32, channels: u16) -> (r: AudioRingBuffer)
        ensures
            r.wf(),
            r.capacity_spec() == capacity,
            r.contents() == Seq::<i16>::empty(),
            r.serial_spec() == 0,
            !r.closed_spec(),
            r.samples_read_spec() == 0,
            r.pts_spec() == 0,
            r.seek_spec() == MINUS_ONE_BITS,
            r.last_read_spec() == 0,
            r.skips_spec() == 0,
            r.format_spec() == (sample_rate, channels),
    {
        let r = AudioRingBuffer {
            buffer: vec![0i16; capacity],
            write_index: 0,
            read_index: 0,
            size: 0,
            serial: 0,
            closed: false,
            samples_read: 0,
            pts_bits: 0,
            seek_bits: MINUS_ONE_BITS,
            last_read: 0,
            skips: 0,
            sample_rate,
            channels,
        };
        assert(r.contents() =~= Seq::<i16>::empty());
        proof {
            if capacity > 0 {
                lemma_small(0, capacity as int);
            }
        }
        r
    }

    /// Number of queued samples.
    pub fn available(&self) -> (n: usize)
        requires
            self.wf(),
        ensures
            n == self.contents().len(),
    {
        self.size
    }

    /// Number of free slots.
    pub fn remaining_space(&self) -> (n: usize)
        requires
            self.wf(),
        ensures
            n == self.capacity_spec() - self.contents().len(),
    {
        self.buffer.len() - self.size
    }

    /// Moves up to `dest.len()` of the oldest samples into the front of
    /// `dest`, counts them as handed out at time `now`; returns how many.
    pub fn read_to(&mut self, dest: &mut [i16], now: u64) -> (n: usize)
        requires
            old(self).wf(),
        ensures
            final(self).wf(),
            n == if old(dest)@.len() < old(self).contents().len() {
                old(dest)@.len()
            } else {
                old(self).contents().len()
            },
            final(dest)@.len() == old(dest)@.len(),
            final(dest)@.subrange(0, n as int) == old(self).contents().subrange(0, n as int),
            final(dest)@.subrange(n as int, old(dest)@.len() as int) == old(dest)@.subrange(
                n as int,
                old(dest)@.len() as int,
            ),
            final(self).contents() == old(self).contents().subrange(
                n as int,
                old(self).contents().len() as int,
            ),
            final(self).capacity_spec() == old(self).capacity_spec(),
            final(self).serial_spec() == old(self).serial_spec(),
            final(self).closed_spec() == old(self).closed_spec(),
            final(self).samples_read_spec() == old(self).samples_read_spec().wrapping_add(n),
            final(self).last_read_spec() == now,
            final(self).pts_spec() == old(self).pts_spec(),
            final(self).seek_spec() == old(self).seek_spec(),
            final(self).skips_spec() == old(self).skips_spec(),
    {
        self.last_read = now;
        let to_copy: usize = if dest.len() < self.size {
            dest.len()
        } else {
            self.size
        };
        self.samples_read = self.samples_read.wrapping_add(to_copy);
        let cap = self.buffer.len();
        let ghost r0 = self.read_index as int;
        let ghost q0 = old(self).contents();
        proof {
            if cap > 0 {
                lemma_small(r0, cap as int);
            }
        }
        let mut i: usize = 0;
        while i < to_copy
            invariant
                cap == self.buffer@.len(),
                self.buffer@ == old(self).buffer@,
                self.size == old(self).size,
                self.serial == old(self).serial,
                self.closed == old(self).closed,
                self.write_index == old(self).write_index,
                self.samples_read == old(self).samples_read.wrapping_add(to_copy),
                self.last_read == now,
                self.pts_bits == old(self).pts_bits,
                self.seek_bits == old(self).seek_bits,
                self.skips == old(self).skips,
                to_copy <= self.size,
                to_copy <= dest@.len(),
                dest@.len() == old(dest)@.len(),
                q0 == old(self).contents(),
                r0 == old(self).read_index,
                old(self).wf(),
                i <= to_copy,
                cap > 0 ==> self.read_index == (r0 + i) % (cap as int),
                cap == 0 ==> i == 0 && self.read_index == old(self).read_index
                    && self.write_index == old(self).write_index,
                forall|k: int| 0 <= k < i ==> dest@[k] == q0[k],
                forall|k: int| i <= k < dest@.len() ==> dest@[k] == old(dest)@[k],
            decreases to_copy - i,
        {
            proof {
                lemma_mod_step(r0 + i, 0, cap as int);
            }
            dest[i] = self.buffer[self.read_index];
            proof {
                lemma_mod_step(r0 + i, 1, cap as int);
            }
            self.read_index = (self.read_index + 1) % cap;
            i = i + 1;
        }
        self.size = self.size - to_copy;
        proof {
            assert(dest@.subrange(0, to_copy as int) =~= q0.subrange(0, to_copy as int));
            assert(dest@.subrange(to_copy as int, dest@.len() as int) =~= old(dest)@.subrange(
                to_copy as int,
                old(dest)@.len() as int,
            ));
            if cap > 0 {
                assert forall|k: int| 0 <= k < self.size implies #[trigger] self.contents()[k]
                    == q0[k + to_copy] by {
                    lemma_mod_step(r0 + to_copy, k, cap as int);
                }
                lemma_mod_step(r0 + to_copy, self.size as int, cap as int);
                vstd::arithmetic::div_mod::lemma_mod_bound(r0 + to_copy, cap as int);
            }
            assert(self.contents() =~= q0.subrange(to_copy as int, q0.len() as int));
        }
        to_copy
    }

    /// Starts serial `serial` if it is not the current one: the ring is
    /// emptied, its indices and read count reset. Returns whether it did.
    pub fn sync_serial(&mut self, serial: u32) -> (changed: bool)
        requires
            old(self).wf(),
        ensures
            final(self).wf(),
            changed == (old(self).serial_spec() != serial),
            final(self).serial_spec() == serial,
            final(self).capacity_spec() == old(self).capacity_spec(),
            final(self).closed_spec() == old(self).closed_spec(),
            changed ==> final(self).contents() == Seq::<i16>::empty()
                && final(self).samples_read_spec() == 0,
            !changed ==> final(self).contents() == old(self).contents()
                && final(self).samples_read_spec() == old(self).samples_read_spec(),
            final(self).pts_spec() == old(self).pts_spec(),
            final(self).seek_spec() == old(self).seek_spec(),
            final(self).last_read_spec() == old(self).last_read_spec(),
            final(self).skips_spec() == old(self).skips_spec(),
    {
        if self.serial != serial {
            self.serial = serial;
            self.samples_read = 0;
            self.size = 0;
            self.read_index = 0;
            self.write_index = 0;
            assert(self.contents() =~= Seq::<i16>::empty());
            proof {
                if self.buffer@.len() > 0 {
                    lemma_small(0, self.buffer@.len() as int);
                }
            }
            true
        } else {
            false
        }
    }

    /// Appends as many leading samples of `src` as there is space for;
    /// returns how many.
    pub fn append(&mut self, src: &[i16]) -> (n: usize)
        requires
            old(self).wf(),
        ensures
            final(self).wf(),
            n == if src@.len() < old(self).capacity_spec() - old(self).contents().len() {
                src@.len() as int
            } else {
                old(self).capacity_spec() - old(self).contents().len()
            },
            final(self).contents() == old(self).contents() + src@.subrange(0, n as int),
            final(self).capacity_spec() == old(self).capacity_spec(),
            final(self).serial_spec() == old(self).serial_spec(),
            final(self).closed_spec() == old(self).closed_spec(),
            final(self).samples_read_spec() == old(self).samples_read_spec(),
            final(self).pts_spec() == old(self).pts_spec(),
            final(self).seek_spec() == old(self).seek_spec(),
            final(self).last_read_spec() == old(self).last_read_spec(),
            final(self).skips_spec() == old(self).skips_spec(),
    {
        let cap = self.buffer.len();
        let space = cap - self.size;
        let to_copy: usize = if src.len() < space {
            src.len()
        } else {
            space
        };
        let ghost q0 = old(self).contents();
        let ghost w0 = self.write_index as int;
        let mut i: usize = 0;
        while i < to_copy
            invariant
                cap == self.buffer@.len(),
                old(self).wf(),
                self.read_index == old(self).read_index,
                self.serial == old(self).serial,
                self.closed == old(self).closed,
                self.samples_read == old(self).samples_read,
                self.pts_bits == old(self).pts_bits,
                self.seek_bits == old(self).seek_bits,
                self.last_read == old(self).last_read,
                self.skips == old(self).skips,
                self.size == old(self).size,
                q0 == old(self).contents(),
                w0 == old(self).write_index,
                to_copy <= cap - self.size,
                to_copy <= src@.len(),
                i <= to_copy,
                cap > 0 ==> self.read_index < cap,
                cap > 0 ==> self.write_index == (self.read_index + self.size + i) % (cap as int),
                cap == 0 ==> i == 0 && self.read_index == old(self).read_index
                    && self.write_index == old(self).write_index,
                forall|k: int| 0 <= k < self.size ==> #[trigger] self.buffer@[(self.read_index + k) % (cap as int)] == q0[k],
                forall|k: int| 0 <= k < i ==> #[trigger] self.buffer@[(self.read_index + self.size + k) % (cap as int)] == src@[k],
            decreases to_copy - i,
        {
            let ghost ri = self.read_index as int;
            let ghost sz = self.size as int;
            self.buffer.set(self.write_index, src[i]);
            proof {
                assert forall|k: int| 0 <= k < sz implies #[trigger] self.buffer@[(ri + k) % (cap as int)] == q0[k] by {
                    lemma_ring_distinct(ri, k, sz + i, cap as int);
                }
                assert forall|k: int| 0 <= k < i + 1 implies #[trigger] self.buffer@[(ri + sz + k) % (cap as int)] == src@[k] by {
                    if k < i {
                        lemma_ring_distinct(ri, sz + k, sz + i, cap as int);
                    }
                }
            }
            proof {
                lemma_mod_step(ri + sz + i, 1, cap as int);
            }
            self.write_index = (self.write_index + 1) % cap;
            i = i + 1;
        }
        let ghost sz0 = self.size as int;
        let ghost ri = self.read_index as int;
        self.size = self.size + to_copy;
        proof {
            let want = q0 + src@.subrange(0, to_copy as int);
            assert forall|k: int| 0 <= k < self.size implies #[trigger] self.contents()[k] == want[k] by {
                if k >= sz0 {
                    let j = k - sz0;
                    assert(self.buffer@[(ri + sz0 + j) % (cap as int)] == src@[j]);
                    assert(ri + sz0 + j == ri + k);
                }
            }
            assert(self.contents() =~= want);
        }
        to_copy
    }

    /// How many of `len` samples a write of serial `serial` takes: as many
    /// as fit, once a new serial has emptied the ring.
    pub fn copy_count(&self, len: usize, serial: u32) -> (n: usize)
        requires
            self.wf(),
        ensures
            n == write_count(self.capacity_spec(), self.contents().len(), self.serial_spec(), serial, len),
    {
        let space = if self.serial != serial {
            self.buffer.len()
        } else {
            self.buffer.len() - self.size
        };
        if len < space {
            len
        } else {
            space
        }
    }

    /// The pending seek target (`f64` bits).
    pub fn seek_bits(&self) -> (b: u64)
        ensures
            b == self.seek_spec(),
    {
        self.seek_bits
    }

    /// The time (`f64` bits) of the first sample of the current serial.
    pub fn pts_bits(&self) -> (b: u64)
        ensures
            b == self.pts_spec(),
    {
        self.pts_bits
    }

    /// Sets the seek target (`f64` bits; below zero, none).
    pub fn set_seek(&mut self, seek_bits: u64)
        requires
            old(self).wf(),
        ensures
            final(self).wf(),
            final(self).seek_spec() == seek_bits,
            final(self).contents() == old(self).contents(),
            final(self).capacity_spec() == old(self).capacity_spec(),
            final(self).serial_spec() == old(self).serial_spec(),
            final(self).closed_spec() == old(self).closed_spec(),
            final(self).samples_read_spec() == old(self).samples_read_spec(),
            final(self).pts_spec() == old(self).pts_spec(),
            final(self).last_read_spec() == old(self).last_read_spec(),
            final(self).skips_spec() == old(self).skips_spec(),
            final(self).format_spec() == old(self).format_spec(),
    {
        self.seek_bits = seek_bits;
    }

    /// Writes samples of serial `serial` whose first one is at time
    /// `pts_bits`, at time `now`. A new serial first empties the ring, and
    /// restarts its clock at `pts_bits` with nothing handed out. Of `src`
    /// as many samples are taken as fit (`copy_count`); their number is
    /// returned. With a seek pending, samples that start and end before the
    /// target (`ends_before_seek`) are dropped and the clock moves on to
    /// `end_bits`, their end; any others end the seek and are queued. The
    /// caller computes `ends_before_seek` and `end_bits` in floating point,
    /// from `pts_bits`, `seek_bits()` and the duration of `copy_count`
    /// samples.
    pub fn write_from(
        &mut self,
        src: &[i16],
        pts_bits: u64,
        serial: u32,
        now: u64,
        ends_before_seek: bool,
        end_bits: u64,
    ) -> (n: usize)
        requires
            old(self).wf(),
        ensures
            final(self).wf(),
            ({
                let o = old(self);
                let fresh = o.serial_spec() != serial;
                let q0 = if fresh {
                    Seq::<i16>::empty()
                } else {
                    o.contents()
                };
                let d = seek_decision(o.seek_spec(), ends_before_seek);
                &&& n == write_count(o.capacity_spec(), o.contents().len(), o.serial_spec(), serial, src@.len() as usize)
                &&& final(self).serial_spec() == serial
                &&& final(self).capacity_spec() == o.capacity_spec()
                &&& final(self).closed_spec() == o.closed_spec()
                &&& final(self).samples_read_spec() == if fresh {
                    0
                } else {
                    o.samples_read_spec()
                }
                &&& if d == SeekWrite::Skip {
                    &&& final(self).contents() == q0
                    &&& final(self).pts_spec() == end_bits
                    &&& final(self).last_read_spec() == now
                    &&& final(self).seek_spec() == o.seek_spec()
                    &&& final(self).skips_spec() == o.skips_spec().wrapping_add(1)
                } else {
                    &&& final(self).contents() == q0 + src@.subrange(0, n as int)
                    &&& final(self).pts_spec() == if fresh {
                        pts_bits
                    } else {
                        o.pts_spec()
                    }
                    &&& final(self).last_read_spec() == if fresh {
                        now
                    } else {
                        o.last_read_spec()
                    }
                    &&& final(self).seek_spec() == if d == SeekWrite::EndSeek {
                        MINUS_ONE_BITS
                    } else {
                        o.seek_spec()
                    }
                    &&& final(self).skips_spec() == if d == SeekWrite::EndSeek {
                        0
                    } else {
                        o.skips_spec()
                    }
                }
            }),
    {
        if self.sync_serial(serial) {
            self.pts_bits = pts_bits;
            self.last_read = now;
        }
        let to_copy = self.copy_count(src.len(), serial);
        match seek_write(self.seek_bits, ends_before_seek) {
            SeekWrite::Skip => {
                self.pts_bits = end_bits;
                self.last_read = now;
                self.skips = self.skips.wrapping_add(1);
                to_copy
            },
            SeekWrite::EndSeek => {
                self.seek_bits = MINUS_ONE_BITS;
                self.skips = 0;
                self.append(src)
            },
            SeekWrite::Write => self.append(src),
        }
    }

    /// The ring never holds more samples than it has slots.
    pub proof fn lemma_fill_bounded(&self)
        requires
            self.wf(),
        ensures
            self.contents().len() <= self.capacity_spec(),
    {
    }

    /// Leaves the ring as it is: the closed flag is read, not set.
    pub fn close(&mut self)
        ensures
            *final(self) == *old(self),
    {
    }

    /// A snapshot of fill level, serial, closed flag and capacity.
    pub fn view(&self) -> (v: AudioRingView)
        requires
            self.wf(),
        ensures
            v.size_spec() == self.contents().len(),
            v.serial_spec() == self.serial_spec(),
            v.closed_spec() == self.closed_spec(),
            v.capacity_spec() == self.capacity_spec(),
    {
        AudioRingView {
            size: self.size,
            serial: self.serial,
            closed: self.closed,
            capacity: self.buffer.len(),
        }
    }
}

/// What a write of samples does about a pending seek.
#[derive(PartialEq, Eq, Structural, Clone, Copy, Debug)]
pub enum SeekWrite {
    /// No seek pending: write.
    Write,
    /// The samples reach the seek target: the seek ends, then write.
    EndSeek,
    /// The samples end before the target: drop them (counted as taken).
    Skip,
}

/// What a write does about a seek target `seek_bits` (an `f64`; a seek is
/// pending when it is at least zero), for samples that do or do not start
/// and end before it.
pub open spec fn seek_decision(seek_bits: u64, ends_before_seek: bool) -> SeekWrite {
    if le(0, seek_bits) {
        if ends_before_seek {
            SeekWrite::Skip
        } else {
            SeekWrite::EndSeek
        }
    } else {
        SeekWrite::Write
    }
}

/// How many of `len` samples a write of serial `serial` takes from a ring of
/// `cap` slots holding `size` samples of serial `current`.
pub open spec fn write_count(cap: nat, size: nat, current: u32, serial: u32, len: usize) -> int {
    let space = if current != serial {
        cap as int
    } else {
        cap - size
    };
    if len < space {
        len as int
    } else {
        space
    }
}

/// The decision for samples written while the seek target is `seek_bits`
/// (an `f64`; a seek is pending when it is at least zero);
/// `ends_before_seek` says whether the samples start and end before it.
pub fn seek_write(seek_bits: u64, ends_before_seek: bool) -> (d: SeekWrite)
    ensures
        d == seek_decision(seek_bits, ends_before_seek),
{
    if less_eq(0, seek_bits) {
        if ends_before_seek {
            SeekWrite::Skip
        } else {
            SeekWrite::EndSeek
        }
    } else {
        SeekWrite::Write
    }
}

/// Distinct positions within less than a full turn of the ring fall in
/// distinct slots.
proof fn lemma_ring_distinct(r: int, a: int, b: int, m: int)
    requires
        0 <= r,
        0 <= a < b < m,
    ensures
        (r + a) % m != (r + b) % m,
{
    vstd::arithmetic::div_mod::lemma_fundamental_div_mod(r + a, m);
    vstd::arithmetic::div_mod::lemma_fundamental_div_mod(r + b, m);
    let d = (r + b) / m - (r + a) / m;
    if (r + a) % m == (r + b) % m {
        assert(m * d == b - a) by (nonlinear_arith)
            requires
                r + a == m * ((r + a) / m) + (r + a) % m,
                r + b == m * ((r + b) / m) + (r + b) % m,
                (r + a) % m == (r + b) % m,
                d == (r + b) / m - (r + a) / m,
        ;
        if d >= 1 {
            assert(m * d >= m) by (nonlinear_arith)
                requires
                    d >= 1,
                    m > 0,
            ;
        } else {
            assert(m * d <= 0) by (nonlinear_arith)
                requires
                    d <= 0,
                    m > 0,
            ;
        }
    }
}

impl AudioRingView {
    /// Queued samples at the time of the snapshot.
    pub closed spec fn size_spec(&self) -> nat {
        self.size as nat
    }

    pub closed spec fn serial_spec(&self) -> u32 {
        self.serial
    }

    pub closed spec fn closed_spec(&self) -> bool {
        self.closed
    }

    pub closed spec fn capacity_spec(&self) -> nat {
        self.capacity as nat
    }

    #[verifier::type_invariant]
    spec fn fill_within_capacity(&self) -> bool {
        self.size <= self.capacity
    }

    /// Queued samples.
    pub fn size(&self) -> (n: usize)
        ensures
            n == self.size_spec(),
    {
        self.size
    }

    /// Free slots.
    pub fn remaining(&self) -> (n: usize)
        ensures
            n == self.capacity_spec() - self.size_spec(),
    {
        proof {
            use_type_invariant(self);
        }
        self.capacity - self.size
    }

    /// Seek generation.
    pub fn serial(&self) -> (s: u32)
        ensures
            s == self.serial_spec(),
    {
        self.serial
    }

    /// Whether the ring was closed.
    pub fn closed(&self) -> (b: bool)
        ensures
            b == self.closed_spec(),
    {
        self.closed
    }

    /// Whether the audio output plays from the ring into a buffer of
    /// `wanted` samples: it is playing and the ring holds that many (else
    /// it plays silence).
    pub fn can_fill(&self, wanted: usize, playing: bool) -> (b: bool)
        ensures
            b == (self.size_spec() >= wanted && playing),
    {
        !(self.size < wanted || !playing)
    }
}

} // verus!
