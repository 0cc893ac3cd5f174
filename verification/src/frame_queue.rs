//! Bookkeeping of the queue of decoded video frames: which slot the decoder
//! writes next, which slot the renderer shows next, the seek generation
//! (serial) of the queued frames, and a pending seek target. The frames
//! themselves live in slots the caller owns, indexed as this queue says.
use crate::float_bits::{le, lt, less, less_eq, MINUS_ONE_BITS};
use vstd::prelude::*;

verus! {

/// Slot indices, fill level and seek state of a frame queue.
pub struct FrameQueue {
    capacity: usize,
    read_index: usize,
    write_index: usize,
    size: usize,
    serial: u32,
    closed: bool,
    seek_bits: u64,
    seek_avoid_serial: u32,
}

/// A snapshot of a frame queue's fill level, serial, closed flag and seek.
#[derive(Clone, Copy)]
pub struct FrameQueueView {
    size: usize,
    capacity: usize,
    serial: u32,
    closed: bool,
    seek_bits: u64,
}

/// Plain value of a `FrameQueue`.
pub struct FrameQueueState {
    pub capacity: nat,
    pub read_index: nat,
    pub write_index: nat,
    pub size: nat,
    pub serial: u32,
    pub closed: bool,
    pub seek_bits: u64,
    pub seek_avoid_serial: u32,
}

impl FrameQueue {
    /// The queue as a plain value.
    pub closed spec fn state(&self) -> FrameQueueState {
        FrameQueueState {
            capacity: self.capacity as nat,
            read_index: self.read_index as nat,
            write_index: self.write_index as nat,
            size: self.size as nat,
            serial: self.serial,
            closed: self.closed,
            seek_bits: self.seek_bits,
            seek_avoid_serial: self.seek_avoid_serial,
        }
    }
}

/// Consistency of a queue: indices are slots, the fill level at most the
/// capacity, and the write slot `size` slots after the read slot.
pub open spec fn queue_wf(q: FrameQueueState) -> bool {
    &&& q.capacity > 0
    &&& q.read_index < q.capacity
    &&& q.write_index < q.capacity
    &&& q.size <= q.capacity
    &&& q.write_index == (q.read_index + q.size) % q.capacity
}

/// Whether a seek is pending: the target is above zero.
pub open spec fn seek_pending(seek_bits: u64) -> bool {
    lt(0, seek_bits)
}

/// An operation on a frame queue, as the methods of `FrameQueue` do it.
pub enum FrameOp {
    /// `peek_write` for a frame of the serial.
    PeekWrite(u32),
    /// `push` of a frame (its serial, and whether it ends before the seek).
    Push(Option<u32>, bool),
    /// `pop`.
    Pop,
    /// `clear`.
    Clear,
    /// `close`.
    Close,
    /// `set_seek` to the target.
    SetSeek(u64),
    /// `check_seek_and_clear` for a frame.
    CheckSeek(Option<u32>, bool),
}

/// The state after adopting serial `s`: a new serial empties the queue.
pub open spec fn adopt_serial(q: FrameQueueState, s: u32) -> FrameQueueState {
    if q.serial != s {
        FrameQueueState { read_index: q.write_index, size: 0, serial: s, ..q }
    } else {
        q
    }
}

/// The state after committing a frame (see `FrameQueue::push`).
pub open spec fn pushed_state(q: FrameQueueState, frame_serial: Option<u32>, ends_before_seek: bool) -> FrameQueueState {
    if seek_pending(q.seek_bits) && (frame_serial == Some(q.seek_avoid_serial) || ends_before_seek) {
        FrameQueueState { read_index: 0, write_index: 0, size: 0, ..q }
    } else {
        let q1 = if seek_pending(q.seek_bits) {
            FrameQueueState { seek_bits: MINUS_ONE_BITS, seek_avoid_serial: 0, ..q }
        } else {
            q
        };
        let q2 = match frame_serial {
            Some(s) => adopt_serial(q1, s),
            None => q1,
        };
        FrameQueueState { write_index: ((q2.write_index + 1) % q2.capacity), size: q2.size + 1, ..q2 }
    }
}

/// The state after an operation. A push onto a full queue and a pop of an
/// empty one are not allowed (the methods require otherwise); here they
/// leave the state as it is.
pub open spec fn frame_step(q: FrameQueueState, op: FrameOp) -> FrameQueueState {
    match op {
        FrameOp::PeekWrite(s) => adopt_serial(q, s),
        FrameOp::Push(fs, eb) => if q.size < q.capacity {
            pushed_state(q, fs, eb)
        } else {
            q
        },
        FrameOp::Pop => if q.size > 0 {
            FrameQueueState {
                read_index: ((q.read_index + 1) % q.capacity),
                size: (q.size - 1) as nat,
                ..q
            }
        } else {
            q
        },
        FrameOp::Clear => FrameQueueState { read_index: 0, write_index: 0, size: 0, ..q },
        FrameOp::Close => FrameQueueState { closed: true, ..q },
        FrameOp::SetSeek(b) => FrameQueueState { seek_bits: b, seek_avoid_serial: q.serial, ..q },
        FrameOp::CheckSeek(fs, eb) => if le(q.seek_bits, 0) || fs == Some(q.seek_avoid_serial) || eb {
            q
        } else {
            FrameQueueState { seek_bits: MINUS_ONE_BITS, seek_avoid_serial: 0, ..q }
        },
    }
}

/// The state after each of `ops` in turn.
pub open spec fn frame_run(q: FrameQueueState, ops: Seq<FrameOp>) -> FrameQueueState
    decreases ops.len(),
{
    if ops.len() == 0 {
        q
    } else {
        frame_step(frame_run(q, ops.drop_last()), ops.last())
    }
}

/// The state of a new queue over `capacity` slots.
pub open spec fn new_frame_state(capacity: nat) -> FrameQueueState {
    FrameQueueState {
        capacity,
        read_index: 0,
        write_index: 0,
        size: 0,
        serial: 0,
        closed: false,
        seek_bits: MINUS_ONE_BITS,
        seek_avoid_serial: 0,
    }
}

/// Every operation keeps a queue consistent and its capacity.
pub proof fn lemma_step_keeps_wf(q: FrameQueueState, op: FrameOp)
    requires
        queue_wf(q),
    ensures
        queue_wf(frame_step(q, op)),
        frame_step(q, op).capacity == q.capacity,
{
    let c = q.capacity as int;
    lemma_small(q.write_index as int, c);
    lemma_small(0, c);
    match op {
        FrameOp::Push(fs, eb) => {
            if q.size < q.capacity && !(seek_pending(q.seek_bits) && (fs == Some(q.seek_avoid_serial)
                || eb)) {
                let q1 = if seek_pending(q.seek_bits) {
                    FrameQueueState { seek_bits: MINUS_ONE_BITS, seek_avoid_serial: 0, ..q }
                } else {
                    q
                };
                let q2 = match fs {
                    Some(s) => adopt_serial(q1, s),
                    None => q1,
                };
                lemma_mod_step(q2.read_index as int, q2.size as int, c);
                lemma_mod_step((q2.read_index + q2.size) as int, 1, c);
                vstd::arithmetic::div_mod::lemma_mod_bound((q2.write_index + 1) as int, c);
            }
        },
        FrameOp::Pop => {
            if q.size > 0 {
                lemma_mod_step((q.read_index + 1) as int, (q.size - 1) as int, c);
                vstd::arithmetic::div_mod::lemma_mod_bound((q.read_index + 1) as int, c);
            }
        },
        _ => {},
    }
}

/// Whatever operations a queue over `n` slots goes through, it keeps `n`
/// slots and never holds more frames than that: a view of it then reports
/// capacity `n`, at most `n` queued, and `n` minus the queued as room.
pub proof fn lemma_capacity_kept(n: nat, ops: Seq<FrameOp>)
    requires
        n > 0,
    ensures
        queue_wf(frame_run(new_frame_state(n), ops)),
        frame_run(new_frame_state(n), ops).capacity == n,
        frame_run(new_frame_state(n), ops).size <= n,
    decreases ops.len(),
{
    if ops.len() == 0 {
        lemma_small(0, n as int);
    } else {
        lemma_capacity_kept(n, ops.drop_last());
        lemma_step_keeps_wf(frame_run(new_frame_state(n), ops.drop_last()), ops.last());
    }
}

proof fn lemma_mod_step(a: int, b: int, m: int)
    requires
        0 < m,
    ensures
        ((a % m) + b) % m == (a + b) % m,
{
    vstd::arithmetic::div_mod::lemma_add_mod_noop_right(b, a, m);
}

proof fn lemma_small(x: int, m: int)
    requires
        0 <= x < m,
    ensures
        x % m == x,
{
    vstd::arithmetic::div_mod::lemma_small_mod(x as nat, m as nat);
}

impl FrameQueue {
    /// An empty queue over `capacity` slots: serial 0, open, no seek
    /// pending (the target is -1).
    pub fn new(capacity: usize) -> (q: FrameQueue)
        requires
            capacity > 0,
        ensures
            q.state() == new_frame_state(capacity as nat),
            queue_wf(q.state()),
            q.state() == (FrameQueueState {
                capacity: capacity as nat,
                read_index: 0,
                write_index: 0,
                size: 0,
                serial: 0,
                closed: false,
                seek_bits: MINUS_ONE_BITS,
                seek_avoid_serial: 0,
            }),
    {
        proof {
            lemma_small(0, capacity as int);
        }
        FrameQueue {
            capacity,
            read_index: 0,
            write_index: 0,
            size: 0,
            serial: 0,
            closed: false,
            seek_bits: MINUS_ONE_BITS,
            seek_avoid_serial: 0,
        }
    }

    /// Whether a slot is free.
    pub fn has_space(&self) -> (b: bool)
        ensures
            b == (self.state().size < self.state().capacity),
    {
        self.size < self.capacity
    }

    /// Number of queued frames.
    pub fn queued_num(&self) -> (n: usize)
        ensures
            n == self.state().size,
    {
        self.size
    }

    /// Serial of the queued frames.
    pub fn serial(&self) -> (s: u32)
        ensures
            s == self.state().serial,
    {
        self.serial
    }

    /// Number of slots.
    pub fn capacity(&self) -> (n: usize)
        ensures
            n == self.state().capacity,
    {
        self.capacity
    }

    /// Adopts `frame_serial` when it differs from the queue's: the queue
    /// empties (the read slot moves to the write slot).
    pub fn check_and_update_serial(&mut self, frame_serial: u32)
        requires
            queue_wf(old(self).state()),
        ensures
            queue_wf(final(self).state()),
            final(self).state() == (if old(self).state().serial != frame_serial {
                FrameQueueState {
                    read_index: old(self).state().write_index,
                    size: 0,
                    serial: frame_serial,
                    ..old(self).state()
                }
            } else {
                old(self).state()
            }),
    {
        if self.serial != frame_serial {
            self.read_index = self.write_index;
            self.size = 0;
            self.serial = frame_serial;
            proof {
                lemma_small(self.write_index as int, self.capacity as int);
            }
        }
    }

    /// The slot the decoder should write a frame of serial `frame_serial`
    /// into, after adopting that serial; `None` when the queue is full or
    /// closed.
    pub fn peek_write(&mut self, frame_serial: u32) -> (slot: Option<usize>)
        requires
            queue_wf(old(self).state()),
        ensures
            final(self).state() == frame_step(old(self).state(), FrameOp::PeekWrite(frame_serial)),
            queue_wf(final(self).state()),
            final(self).state() == (if old(self).state().serial != frame_serial {
                FrameQueueState {
                    read_index: old(self).state().write_index,
                    size: 0,
                    serial: frame_serial,
                    ..old(self).state()
                }
            } else {
                old(self).state()
            }),
            slot == (if final(self).state().size >= final(self).state().capacity || final(self).state().closed {
                None
            } else {
                Some(final(self).state().write_index as usize)
            }),
    {
        self.check_and_update_serial(frame_serial);
        if self.size >= self.capacity || self.closed {
            return None;
        }
        Some(self.write_index)
    }

    /// Empties the queue and moves both slots to the first one.
    pub fn clear(&mut self)
        requires
            queue_wf(old(self).state()),
        ensures
            final(self).state() == frame_step(old(self).state(), FrameOp::Clear),
            queue_wf(final(self).state()),
            final(self).state() == (FrameQueueState {
                read_index: 0,
                write_index: 0,
                size: 0,
                ..old(self).state()
            }),
    {
        self.size = 0;
        self.read_index = 0;
        self.write_index = 0;
        proof {
            lemma_small(0, self.capacity as int);
        }
    }

    /// Commits the frame just written into the write slot. `frame_serial` is
    /// that frame's serial; `ends_before_seek` says whether the frame ends
    /// (pts plus duration) before the pending seek target. With a seek
    /// pending, a frame of the serial the seek was set under, or one ending
    /// before the target, empties the queue instead; any other frame ends the
    /// seek. A committed frame of another serial first empties the queue.
    /// The producer commits only into the slot that `peek_write` handed out,
    /// so the queue is never full here; committing into a full queue would
    /// count more frames than there are slots.
    pub fn push(&mut self, frame_serial: Option<u32>, ends_before_seek: bool)
        requires
            queue_wf(old(self).state()),
            old(self).state().size < old(self).state().capacity,
        ensures
            final(self).state() == frame_step(old(self).state(), FrameOp::Push(frame_serial, ends_before_seek)),
            queue_wf(final(self).state()),
            ({
                let q = old(self).state();
                if seek_pending(q.seek_bits) && (frame_serial == Some(q.seek_avoid_serial)
                    || ends_before_seek) {
                    final(self).state() == FrameQueueState {
                        read_index: 0,
                        write_index: 0,
                        size: 0,
                        ..q
                    }
                } else {
                    let q1 = if seek_pending(q.seek_bits) {
                        FrameQueueState { seek_bits: MINUS_ONE_BITS, seek_avoid_serial: 0, ..q }
                    } else {
                        q
                    };
                    let q2 = match frame_serial {
                        Some(s) => if q1.serial != s {
                            FrameQueueState { read_index: q1.write_index, size: 0, serial: s, ..q1 }
                        } else {
                            q1
                        },
                        None => q1,
                    };
                    final(self).state() == FrameQueueState {
                        write_index: ((q2.write_index + 1) % q2.capacity),
                        size: q2.size + 1,
                        ..q2
                    }
                }
            }),
    {
        if less(0, self.seek_bits) {
            if frame_serial == Some(self.seek_avoid_serial) || ends_before_seek {
                self.clear();
                return ;
            } else {
                self.seek_avoid_serial = 0;
                self.seek_bits = MINUS_ONE_BITS;
            }
        }
        if let Some(s) = frame_serial {
            self.check_and_update_serial(s);
        }
        proof {
            lemma_mod_step(self.read_index as int, self.size as int, self.capacity as int);
            lemma_mod_step(self.read_index + self.size, 1, self.capacity as int);
            vstd::arithmetic::div_mod::lemma_mod_bound(self.write_index + 1, self.capacity as int);
        }
        self.write_index = (self.write_index + 1) % self.capacity;
        self.size = self.size + 1;
    }

    /// The slot of the frame to show next; `None` when empty or closed.
    pub fn peek_read(&self) -> (slot: Option<usize>)
        requires
            queue_wf(self.state()),
        ensures
            slot == (if self.state().size == 0 || self.state().closed {
                None
            } else {
                Some(self.state().read_index as usize)
            }),
    {
        if self.size == 0 || self.closed {
            return None;
        }
        Some(self.read_index)
    }

    /// Drops the frame in the read slot. The consumer pops only the frame
    /// that `peek_read` showed, so the queue is never empty here; popping an
    /// empty queue would wrap its count.
    pub fn pop(&mut self)
        requires
            queue_wf(old(self).state()),
            old(self).state().size > 0,
        ensures
            final(self).state() == frame_step(old(self).state(), FrameOp::Pop),
            queue_wf(final(self).state()),
            final(self).state() == (FrameQueueState {
                read_index: ((old(self).state().read_index + 1) % old(self).state().capacity),
                size: (old(self).state().size - 1) as nat,
                ..old(self).state()
            }),
    {
        proof {
            lemma_mod_step(self.read_index + 1, (self.size - 1) as int, self.capacity as int);
            vstd::arithmetic::div_mod::lemma_mod_bound(self.read_index + 1, self.capacity as int);
        }
        self.read_index = (self.read_index + 1) % self.capacity;
        self.size = self.size - 1;
    }

    /// Marks the queue closed.
    pub fn close(&mut self)
        ensures
            final(self).state() == frame_step(old(self).state(), FrameOp::Close),
            final(self).state() == (FrameQueueState { closed: true, ..old(self).state() }),
    {
        self.closed = true;
    }

    /// Sets a seek target (as `f64` bits); frames of the current serial will
    /// be dropped until the seek is reached.
    pub fn set_seek(&mut self, seek_bits: u64)
        ensures
            final(self).state() == frame_step(old(self).state(), FrameOp::SetSeek(seek_bits)),
            final(self).state() == (FrameQueueState {
                seek_bits,
                seek_avoid_serial: old(self).state().serial,
                ..old(self).state()
            }),
    {
        self.seek_bits = seek_bits;
        self.seek_avoid_serial = self.serial;
    }

    /// Whether a seek is pending.
    pub fn has_seek(&self) -> (b: bool)
        ensures
            b == seek_pending(self.state().seek_bits),
    {
        less(0, self.seek_bits)
    }

    /// Whether a decoded frame is to be dropped for the pending seek: with no
    /// target above zero, no; a frame of the serial the seek was set under,
    /// or one ending before the target, yes; any other frame ends the seek
    /// (target back to -1) and is kept.
    pub fn check_seek_and_clear(&mut self, frame_serial: Option<u32>, ends_before_seek: bool) -> (drop: bool)
        ensures
            final(self).state() == frame_step(old(self).state(), FrameOp::CheckSeek(frame_serial, ends_before_seek)),
            ({
                let q = old(self).state();
                if le(q.seek_bits, 0) {
                    !drop && final(self).state() == q
                } else if frame_serial == Some(q.seek_avoid_serial) || ends_before_seek {
                    drop && final(self).state() == q
                } else {
                    !drop && final(self).state() == FrameQueueState {
                        seek_bits: MINUS_ONE_BITS,
                        seek_avoid_serial: 0,
                        ..q
                    }
                }
            }),
    {
        if less_eq(self.seek_bits, 0) {
            return false;
        }
        if frame_serial == Some(self.seek_avoid_serial) {
            true
        } else if ends_before_seek {
            true
        } else {
            self.seek_bits = MINUS_ONE_BITS;
            self.seek_avoid_serial = 0;
            false
        }
    }

    /// A snapshot for other threads.
    pub fn view(&self) -> (v: FrameQueueView)
        requires
            queue_wf(self.state()),
        ensures
            v.size_spec() == self.state().size,
            v.capacity_spec() == self.state().capacity,
            v.serial_spec() == self.state().serial,
            v.closed_spec() == self.state().closed,
            v.seek_spec() == self.state().seek_bits,
    {
        FrameQueueView {
            size: self.size,
            capacity: self.capacity,
            serial: self.serial,
            closed: self.closed,
            seek_bits: self.seek_bits,
        }
    }
}

impl FrameQueueView {
    pub closed spec fn size_spec(&self) -> nat {
        self.size as nat
    }

    pub closed spec fn capacity_spec(&self) -> nat {
        self.capacity as nat
    }

    pub closed spec fn serial_spec(&self) -> u32 {
        self.serial
    }

    pub closed spec fn closed_spec(&self) -> bool {
        self.closed
    }

    pub closed spec fn seek_spec(&self) -> u64 {
        self.seek_bits
    }

    #[verifier::type_invariant]
    spec fn fill_within_capacity(&self) -> bool {
        self.size <= self.capacity
    }

    /// Queued frames.
    pub fn queued_num(&self) -> (n: usize)
        ensures
            n == self.size_spec(),
    {
        self.size
    }

    /// Number of slots.
    pub fn capacity(&self) -> (n: usize)
        ensures
            n == self.capacity_spec(),
    {
        self.capacity
    }

    /// Free slots.
    pub fn remaining_space(&self) -> (n: usize)
        ensures
            n == self.capacity_spec() - self.size_spec(),
    {
        proof {
            use_type_invariant(self);
        }
        self.capacity - self.size
    }

    /// Serial of the queued frames.
    pub fn serial(&self) -> (s: u32)
        ensures
            s == self.serial_spec(),
    {
        self.serial
    }

    /// Whether the queue was closed.
    pub fn closed(&self) -> (b: bool)
        ensures
            b == self.closed_spec(),
    {
        self.closed
    }

    /// Whether a seek is pending.
    pub fn has_seek(&self) -> (b: bool)
        ensures
            b == seek_pending(self.seek_spec()),
    {
        less(0, self.seek_bits)
    }
}

} // verus!
