//! Values shared between threads: an interrupt flag for blocking source
//! reads, an `f64` and an instant kept in atomics, and the handle of a task
//! whose result arrives over a channel. What another thread stores is not
//! known to this thread's proofs: the contracts speak of what the calls do
//! with what they are given and what they return.
use std::sync::atomic::{AtomicBool, AtomicU32, AtomicU64, AtomicUsize, Ordering};
use std::sync::mpsc::{Receiver, Sender};
use std::sync::Arc;
use vstd::prelude::*;

verus! {

/// `std::sync::mpsc::Sender`.
#[verifier::external_type_specification]
#[verifier::external_body]
#[verifier::reject_recursive_types(T)]
pub struct ExSender<T>(Sender<T>);

/// `std::sync::mpsc::Receiver`.
#[verifier::external_type_specification]
#[verifier::external_body]
#[verifier::reject_recursive_types(T)]
pub struct ExReceiver<T>(Receiver<T>);

/// A new channel (`std::sync::mpsc::channel`); nothing is claimed of it.
#[verifier::external_body]
fn open_channel<T>() -> (Sender<T>, Receiver<T>) {
    std::sync::mpsc::channel()
}

/// A value that arrived on the channel, if one is waiting
/// (`Receiver::try_recv`, errors mapped to `None`); what arrives depends on
/// other threads, so nothing is claimed of it.
#[verifier::external_body]
fn try_receive<T>(receiver: &Receiver<T>) -> Option<T> {
    receiver.try_recv().ok()
}

/// Another pointer to the value of `a` (`Arc::clone`): the same value.
#[verifier::external_body]
fn share<T>(a: &Arc<T>) -> (r: Arc<T>)
    ensures
        r == *a,
{
    a.clone()
}

/// Microseconds from `last` to `now`, zero when `last` is later.
pub fn elapsed_since(last: u64, now: u64) -> (d: u64)
    ensures
        d == (if last > now {
            0
        } else {
            now - last
        }),
{
    if last > now {
        0
    } else {
        now - last
    }
}

/// The flag that breaks off a blocking read of a source; a clone shares it.
#[derive(Clone)]
pub struct InterruptContext {
    interrupt: Arc<AtomicBool>,
}

impl InterruptContext {
    /// A context not interrupted.
    pub fn new() -> (c: Box<InterruptContext>) {
        Box::new(InterruptContext { interrupt: Arc::new(AtomicBool::new(false)) })
    }

    /// Asks the read in progress to stop.
    pub fn interrupt(&self) {
        self.interrupt.store(true, Ordering::SeqCst);
    }

    /// What the source asks while it blocks: 1 (stop) when an interrupt was
    /// asked for, which is then cleared; 0 otherwise.
    pub fn take_interrupt(&self) -> (r: i32)
        ensures
            r == 0 || r == 1,
    {
        if self.interrupt.load(Ordering::SeqCst) {
            self.interrupt.store(false, Ordering::SeqCst);
            1
        } else {
            0
        }
    }
}

/// An `f64` shared between threads, by its bits.
pub struct AtomicF64(AtomicU64);

impl AtomicF64 {
    /// A cell holding the value of bit pattern `bits`.
    pub fn new(bits: u64) -> (a: AtomicF64) {
        AtomicF64(AtomicU64::new(bits))
    }

    /// The bits of the value held.
    pub fn load(&self, ordering: Ordering) -> (bits: u64) {
        self.0.load(ordering)
    }

    /// Stores the value of bit pattern `bits`.
    pub fn store(&self, bits: u64, ordering: Ordering) {
        self.0.store(bits, ordering);
    }
}

/// An instant shared between threads, in microseconds of a monotonic clock.
pub struct AtomicInstant(AtomicU64);

impl AtomicInstant {
    /// The instant `now`.
    pub fn now(now: u64) -> (a: AtomicInstant) {
        AtomicInstant(AtomicU64::new(now))
    }

    /// Microseconds since the instant held, at time `now`; zero when the
    /// instant held is later.
    pub fn elapsed(&self, now: u64, ordering: Ordering) -> (d: u64)
        ensures
            d <= now,
    {
        let last_update = self.0.load(ordering);
        elapsed_since(last_update, now)
    }

    /// Sets the instant held to `now`.
    pub fn set_now(&self, now: u64, ordering: Ordering) {
        self.0.store(now, ordering);
    }
}

/// The audio clock: the shared state from which the time of the sample
/// being played follows (the time of the first sample of the serial plus
/// the samples handed to the output, plus the time since the last hand-over).
pub struct AudioRingClock {
    serial: Arc<AtomicU32>,
    pts: Arc<AtomicF64>,
    samples_read: Arc<AtomicUsize>,
    last_read: Arc<AtomicInstant>,
    closed: Arc<AtomicBool>,
    seek: Arc<AtomicF64>,
    sample_rate: u32,
    channels: u16,
}

impl AudioRingClock {
    pub closed spec fn format_spec(&self) -> (u32, u16) {
        (self.sample_rate, self.channels)
    }

    /// A clock over the given shared cells, for samples of `sample_rate`
    /// and `channels`.
    pub fn new(
        serial: Arc<AtomicU32>,
        pts: Arc<AtomicF64>,
        samples_read: Arc<AtomicUsize>,
        last_read: Arc<AtomicInstant>,
        closed: Arc<AtomicBool>,
        seek: Arc<AtomicF64>,
        sample_rate: u32,
        channels: u16,
    ) -> (c: AudioRingClock)
        ensures
            c.format_spec() == (sample_rate, channels),
    {
        AudioRingClock { serial, pts, samples_read, last_read, closed, seek, sample_rate, channels }
    }

    /// The serial of the samples being played.
    pub fn serial(&self) -> (s: u32) {
        self.serial.load(Ordering::SeqCst)
    }

    /// The time of the serial's first sample (`f64` bits) and the samples
    /// handed out since.
    pub fn pts_parts(&self) -> (r: (u64, usize)) {
        (self.pts.load(Ordering::SeqCst), self.samples_read.load(Ordering::SeqCst))
    }

    /// Microseconds from the last hand-over of samples to `now`.
    pub fn since_last_read(&self, now: u64) -> (d: u64)
        ensures
            d <= now,
    {
        self.last_read.elapsed(now, Ordering::SeqCst)
    }

    /// Sample rate and channel count.
    pub fn format(&self) -> (r: (u32, u16))
        ensures
            r == self.format_spec(),
    {
        (self.sample_rate, self.channels)
    }

    /// Whether the ring was closed.
    pub fn is_closed(&self) -> (b: bool) {
        self.closed.load(Ordering::SeqCst)
    }

    /// Sets the seek target (`f64` bits).
    pub fn set_seek_flag(&self, seek_bits: u64) {
        self.seek.store(seek_bits, Ordering::SeqCst);
    }

    /// Whether this clock follows an external source: it does not.
    pub fn is_ext(&self) -> (b: bool)
        ensures
            !b,
    {
        false
    }
}

/// The handle of a task running elsewhere: its result, once it arrived, and
/// the flag shared with the task.
#[verifier::reject_recursive_types(T)]
#[verifier::reject_recursive_types(E)]
pub struct TaskHandle<T, E> {
    value: Option<Result<T, E>>,
    receiver: Receiver<Result<T, E>>,
    cancel: Arc<AtomicBool>,
}

impl<T, E> TaskHandle<T, E> {
    /// The flag shared with the task.
    pub closed spec fn cancel_spec(&self) -> Arc<AtomicBool> {
        self.cancel
    }

    /// The result, once it arrived.
    pub closed spec fn value_spec(&self) -> Option<Result<T, E>> {
        self.value
    }

    /// A handle with no result yet, the flag the task shares, and the
    /// sender on which the task delivers its result.
    pub fn new() -> (r: (TaskHandle<T, E>, Arc<AtomicBool>, Sender<Result<T, E>>))
        ensures
            r.0.value_spec() is None,
            r.1 == r.0.cancel_spec(),
    {
        let (sender, receiver) = open_channel::<Result<T, E>>();
        let cancel = Arc::new(AtomicBool::new(false));
        let cancel_clone = share(&cancel);
        (TaskHandle { value: None, receiver, cancel }, cancel_clone, sender)
    }

    /// Whether the result is there: it was before, or it has just arrived
    /// (and is kept). A result held is never replaced.
    pub fn poll(&mut self) -> (done: bool)
        ensures
            done == final(self).value_spec() is Some,
            old(self).value_spec() is Some ==> final(self).value_spec() == old(self).value_spec(),
    {
        if self.value.is_some() {
            return true;
        }
        if let Some(value) = try_receive(&self.receiver) {
            self.value = Some(value);
            return true;
        }
        false
    }

    /// The result (after `poll` said it is there).
    pub fn take(self) -> (r: Result<T, E>)
        requires
            self.value_spec() is Some,
        ensures
            Some(r) == self.value_spec(),
    {
        self.value.unwrap()
    }
}

} // verus!
