//! The queue of packets between the input reader and a decoder. It works as
//! an ordinary FIFO, but also keeps the time span it holds (from the lowest
//! to the highest time of the timed packets queued) and the seek generation
//! (serial) of its packets: a packet of a new serial empties the queue.
//! Times are `f64` seconds held as their bit patterns.
use crate::float_bits::{total_less, total_rank};
use crate::packet::{Packet, PacketView, NO_PTS};
use std::collections::VecDeque;
use vstd::prelude::*;

verus! {

/// Plain value of a `PacketQueueView`.
pub struct QueueViewState {
    pub initialized: bool,
    pub closed: bool,
    pub begin: u64,
    pub end: u64,
    pub serial: u32,
}

/// What other threads see of a packet queue: whether a timed packet has
/// been seen, whether the queue was closed, the time span and the serial.
#[derive(Clone, Copy)]
pub struct PacketQueueView {
    initialized: bool,
    closed: bool,
    begin_bits: u64,
    end_bits: u64,
    serial: u32,
}

impl PacketQueueView {
    pub closed spec fn state(&self) -> QueueViewState {
        QueueViewState {
            initialized: self.initialized,
            closed: self.closed,
            begin: self.begin_bits,
            end: self.end_bits,
            serial: self.serial,
        }
    }

    /// Nothing seen yet, open, span and serial zero.
    pub fn new() -> (v: PacketQueueView)
        ensures
            v.state() == (QueueViewState {
                initialized: false,
                closed: false,
                begin: 0,
                end: 0,
                serial: 0,
            }),
    {
        PacketQueueView { initialized: false, closed: false, begin_bits: 0, end_bits: 0, serial: 0 }
    }

    /// Whether the queue was closed.
    pub fn closed(&self) -> (b: bool)
        ensures
            b == self.state().closed,
    {
        self.closed
    }

    /// The serial of the queued packets, once one was seen.
    pub fn serial(&self) -> (s: Option<u32>)
        ensures
            s == (if self.state().initialized {
                Some(self.state().serial)
            } else {
                None
            }),
    {
        if self.is_initialized() {
            Some(self.serial)
        } else {
            None
        }
    }

    /// Whether a timed packet has been seen.
    pub fn is_initialized(&self) -> (b: bool)
        ensures
            b == self.state().initialized,
    {
        self.initialized
    }

    /// The bounds of the queued time span (begin, end), once a timed packet
    /// was seen; the span queued is their difference.
    pub fn queued_bounds(&self) -> (r: Option<(u64, u64)>)
        ensures
            r == (if self.state().initialized {
                Some((self.state().begin, self.state().end))
            } else {
                None
            }),
    {
        if self.is_initialized() {
            Some((self.begin_bits, self.end_bits))
        } else {
            None
        }
    }

    /// Marks the view seen and sets what is given.
    fn update(&mut self, begin: Option<u64>, end: Option<u64>, serial: Option<u32>)
        ensures
            final(self).state() == (QueueViewState {
                initialized: true,
                begin: match begin {
                    Some(b) => b,
                    None => old(self).state().begin,
                },
                end: match end {
                    Some(e) => e,
                    None => old(self).state().end,
                },
                serial: match serial {
                    Some(s) => s,
                    None => old(self).state().serial,
                },
                ..old(self).state()
            }),
    {
        if !self.is_initialized() {
            self.initialized = true;
        }
        if let Some(b) = begin {
            self.begin_bits = b;
        }
        if let Some(e) = end {
            self.end_bits = e;
        }
        if let Some(s) = serial {
            self.serial = s;
        }
    }
}

/// A packet queue. Each packet is kept with its time (timestamp times its
/// stream's time base, as `f64` bits), given when it was pushed.
pub struct PacketQueue {
    queue: VecDeque<(Packet, u64)>,
    view: PacketQueueView,
}

/// The shared state of a queue nothing was pushed to.
pub open spec fn fresh_view() -> QueueViewState {
    QueueViewState { initialized: false, closed: false, begin: 0, end: 0, serial: 0 }
}

/// The least and the greatest time (in the order of `f64::total_cmp`) of
/// the timed entries, when there is one.
pub open spec fn timed_span(e: Seq<(PacketView, u64)>) -> Option<(u64, u64)>
    decreases e.len(),
{
    if e.len() == 0 {
        None
    } else {
        let rest = timed_span(e.drop_last());
        let (p, t) = e.last();
        if p.pts == NO_PTS {
            rest
        } else {
            match rest {
                None => Some((t, t)),
                Some((lo, hi)) => Some(
                    (
                        if total_rank(t) < total_rank(lo) {
                            t
                        } else {
                            lo
                        },
                        if total_rank(hi) < total_rank(t) {
                            t
                        } else {
                            hi
                        },
                    ),
                ),
            }
        }
    }
}

/// The shared state with its span set from the entries `e`: from the
/// lowest to the highest queued time; with no timed packet queued the span
/// is empty and sits at the former end.
pub open spec fn span_view(v: QueueViewState, e: Seq<(PacketView, u64)>) -> QueueViewState {
    match timed_span(e) {
        Some((lo, hi)) => QueueViewState { begin: lo, end: hi, ..v },
        None => QueueViewState { begin: v.end, end: v.end, ..v },
    }
}

/// The serial a pushed packet sets: its own, when none was seen or it
/// differs from the queue's.
pub open spec fn new_serial(v: QueueViewState, p: PacketView) -> Option<u32> {
    if !v.initialized || v.serial != p.serial {
        Some(p.serial)
    } else {
        None
    }
}

/// The entries after pushing `p` (time `t`): a packet of a serial other
/// than the queue's first empties the queue.
pub open spec fn pushed_entries(
    v: QueueViewState,
    e: Seq<(PacketView, u64)>,
    p: PacketView,
    t: u64,
) -> Seq<(PacketView, u64)> {
    if v.initialized && v.serial != p.serial {
        seq![(p, t)]
    } else {
        e.push((p, t))
    }
}

/// The shared state after pushing `p` (time `t`) onto entries `e`: a timed
/// packet marks the queue seen and sets the serial; the span is that of the
/// entries then queued.
pub open spec fn pushed_view(v: QueueViewState, e: Seq<(PacketView, u64)>, p: PacketView, t: u64) -> QueueViewState {
    let marked = if p.pts != NO_PTS {
        QueueViewState {
            initialized: true,
            serial: match new_serial(v, p) {
                Some(s) => s,
                None => v.serial,
            },
            ..v
        }
    } else {
        v
    };
    span_view(marked, pushed_entries(v, e, p, t))
}

/// What a pop gives from shared state `v` and entries `e`: the oldest
/// packet, and the state and entries left.
pub open spec fn popped(v: QueueViewState, e: Seq<(PacketView, u64)>) -> (
    Option<PacketView>,
    QueueViewState,
    Seq<(PacketView, u64)>,
) {
    if e.len() == 0 {
        (None, v, e)
    } else {
        (Some(e[0].0), span_view(v, e.drop_first()), e.drop_first())
    }
}

/// Entries and shared state after pushing each of `items` in turn.
pub open spec fn push_all(
    v: QueueViewState,
    e: Seq<(PacketView, u64)>,
    items: Seq<(PacketView, u64)>,
) -> (QueueViewState, Seq<(PacketView, u64)>)
    decreases items.len(),
{
    if items.len() == 0 {
        (v, e)
    } else {
        let (v1, e1) = push_all(v, e, items.drop_last());
        let (p, t) = items.last();
        (pushed_view(v1, e1, p, t), pushed_entries(v1, e1, p, t))
    }
}

/// The packets given by `n` pops in turn, with the state and entries left.
pub open spec fn pop_n(v: QueueViewState, e: Seq<(PacketView, u64)>, n: nat) -> (
    Seq<PacketView>,
    QueueViewState,
    Seq<(PacketView, u64)>,
)
    decreases n,
{
    if n == 0 {
        (Seq::empty(), v, e)
    } else {
        let (r, v1, e1) = popped(v, e);
        let (rs, v2, e2) = pop_n(v1, e1, (n - 1) as nat);
        (
            match r {
                Some(p) => seq![p] + rs,
                None => rs,
            },
            v2,
            e2,
        )
    }
}

/// The span is empty exactly when no timed packet is queued; otherwise its
/// ends are the times of queued timed packets, and every queued timed
/// packet lies between them: the span runs from the lowest to the highest
/// queued time.
pub proof fn lemma_span_bounds(e: Seq<(PacketView, u64)>)
    ensures
        timed_span(e) is None <==> forall|i: int| 0 <= i < e.len() ==> (#[trigger] e[i]).0.pts == NO_PTS,
        timed_span(e) matches Some((lo, hi)) ==> {
            &&& exists|i: int| 0 <= i < e.len() && (#[trigger] e[i]).0.pts != NO_PTS && e[i].1 == lo
            &&& exists|i: int| 0 <= i < e.len() && (#[trigger] e[i]).0.pts != NO_PTS && e[i].1 == hi
            &&& forall|i: int|
                0 <= i < e.len() && (#[trigger] e[i]).0.pts != NO_PTS ==> total_rank(lo) <= total_rank(
                    e[i].1,
                ) <= total_rank(hi)
        },
    decreases e.len(),
{
    if e.len() > 0 {
        let d = e.drop_last();
        lemma_span_bounds(d);
        assert forall|i: int| 0 <= i < d.len() implies #[trigger] d[i] == e[i] by {}
        let n = e.len() - 1;
        assert(e.last() == e[n]);
        if timed_span(d) is None && e[n].0.pts == NO_PTS {
            assert forall|i: int| 0 <= i < e.len() implies (#[trigger] e[i]).0.pts == NO_PTS by {
                if i < n {
                    assert(d[i] == e[i]);
                }
            }
        }
        if let Some((lo, hi)) = timed_span(d) {
            let wi = choose|i: int| 0 <= i < d.len() && (#[trigger] d[i]).0.pts != NO_PTS && d[i].1 == lo;
            let wj = choose|i: int| 0 <= i < d.len() && (#[trigger] d[i]).0.pts != NO_PTS && d[i].1 == hi;
            assert(e[wi] == d[wi]);
            assert(e[wj] == d[wj]);
            assert forall|i: int| 0 <= i < n && (#[trigger] e[i]).0.pts != NO_PTS implies total_rank(lo)
                <= total_rank(e[i].1) <= total_rank(hi) by {
                assert(d[i] == e[i]);
            }
        } else {
            assert forall|i: int| 0 <= i < n implies (#[trigger] e[i]).0.pts == NO_PTS by {
                assert(d[i] == e[i]);
            }
        }
    }
}

/// The queue is a FIFO: packets of the queue's serial pushed one after the
/// other are queued behind what was there, in the order pushed, and the
/// serial stays.
pub proof fn lemma_queue_keeps_order(
    v: QueueViewState,
    e: Seq<(PacketView, u64)>,
    items: Seq<(PacketView, u64)>,
)
    requires
        v.initialized,
        forall|i: int| 0 <= i < items.len() ==> (#[trigger] items[i]).0.serial == v.serial,
    ensures
        push_all(v, e, items).1 == e + items,
        push_all(v, e, items).0.initialized,
        push_all(v, e, items).0.serial == v.serial,
{
    lemma_pushes_of_one_serial(v, e, items, v.serial);
}

/// Pushing packets all of serial `s` onto a queue of that serial (or one
/// that saw no timed packet) appends them in order, and the queue's serial,
/// once seen, is `s`.
proof fn lemma_pushes_of_one_serial(
    v: QueueViewState,
    e: Seq<(PacketView, u64)>,
    items: Seq<(PacketView, u64)>,
    s: u32,
)
    requires
        v.initialized ==> v.serial == s,
        forall|i: int| 0 <= i < items.len() ==> (#[trigger] items[i]).0.serial == s,
    ensures
        push_all(v, e, items).1 == e + items,
        push_all(v, e, items).0.initialized ==> push_all(v, e, items).0.serial == s,
        v.initialized ==> push_all(v, e, items).0.initialized,
    decreases items.len(),
{
    if items.len() == 0 {
        assert(e + items =~= e);
    } else {
        let d = items.drop_last();
        assert forall|i: int| 0 <= i < d.len() implies (#[trigger] d[i]).0.serial == s by {
            assert(d[i] == items[i]);
        }
        lemma_pushes_of_one_serial(v, e, d, s);
        assert(items.last() == items[items.len() - 1]);
        assert((e + d).push(items.last()) =~= e + items);
    }
}

/// `n` pops of a queue holding `n` entries give their packets in order and
/// leave it empty.
proof fn lemma_pop_all(v: QueueViewState, e: Seq<(PacketView, u64)>)
    ensures
        pop_n(v, e, e.len()).0 == e.map_values(|x: (PacketView, u64)| x.0),
        pop_n(v, e, e.len()).2.len() == 0,
    decreases e.len(),
{
    if e.len() > 0 {
        let (r, v1, e1) = popped(v, e);
        lemma_pop_all(v1, e1);
        assert(e1.len() == e.len() - 1);
        assert(seq![e[0].0] + e1.map_values(|x: (PacketView, u64)| x.0) =~= e.map_values(
            |x: (PacketView, u64)| x.0,
        ));
    } else {
        assert(e.map_values(|x: (PacketView, u64)| x.0) =~= Seq::<PacketView>::empty());
    }
}

/// Packets of one serial pushed onto a new queue come out of as many pops
/// in the order pushed, and a further pop gives nothing.
pub proof fn lemma_pops_in_push_order(items: Seq<(PacketView, u64)>, s: u32)
    requires
        forall|i: int| 0 <= i < items.len() ==> (#[trigger] items[i]).0.serial == s,
    ensures
        ({
            let (v, e) = push_all(fresh_view(), Seq::empty(), items);
            let (out, v2, e2) = pop_n(v, e, items.len());
            &&& e == items
            &&& out == items.map_values(|x: (PacketView, u64)| x.0)
            &&& popped(v2, e2).0 is None
        }),
{
    lemma_pushes_of_one_serial(fresh_view(), Seq::empty(), items, s);
    let (v, e) = push_all(fresh_view(), Seq::empty(), items);
    assert(Seq::<(PacketView, u64)>::empty() + items =~= items);
    lemma_pop_all(v, e);
}

/// A packet of another serial than the queue's replaces everything queued,
/// and, if timed, starts the span and sets its serial.
pub proof fn lemma_new_serial_restarts(v: QueueViewState, e: Seq<(PacketView, u64)>, p: PacketView, t: u64)
    requires
        v.initialized,
        v.serial != p.serial,
    ensures
        pushed_entries(v, e, p, t) == seq![(p, t)],
        p.pts != NO_PTS ==> pushed_view(v, e, p, t).begin == t && pushed_view(v, e, p, t).end == t
            && pushed_view(v, e, p, t).serial == p.serial,
{
    let one = seq![(p, t)];
    assert(one.drop_last() =~= Seq::<(PacketView, u64)>::empty());
    assert(one.last() == (p, t));
    assert(timed_span(Seq::<(PacketView, u64)>::empty()) is None);
    assert(p.pts != NO_PTS ==> timed_span(one) == Some((t, t)));
}

/// The capacity of a deque (room without reallocating).
#[verifier::external_body]
fn deque_capacity<T>(q: &VecDeque<T>) -> (c: usize)
    ensures
        c >= q@.len(),
{
    q.capacity()
}

/// The span, from the entries of a deque of timed packets.
fn deque_span(queue: &VecDeque<(Packet, u64)>) -> (r: Option<(u64, u64)>)
    ensures
        r == timed_span(queue@.map_values(|e: (Packet, u64)| (e.0@, e.1))),
{
    let ghost es = queue@.map_values(|e: (Packet, u64)| (e.0@, e.1));
    let mut cur: Option<(u64, u64)> = None;
    let mut i: usize = 0;
    assert(es.take(0) =~= Seq::<(PacketView, u64)>::empty());
    while i < queue.len()
        invariant
            i <= queue@.len(),
            es == queue@.map_values(|e: (Packet, u64)| (e.0@, e.1)),
            cur == timed_span(es.take(i as int)),
        decreases queue@.len() - i,
    {
        assert(es.take(i + 1).drop_last() =~= es.take(i as int));
        assert(es.take(i + 1).last() == es[i as int]);
        let entry = &queue[i];
        if entry.0.pts != NO_PTS {
            let t = entry.1;
            cur = match cur {
                None => Some((t, t)),
                Some((lo, hi)) => Some(
                    (
                        if total_less(t, lo) {
                            t
                        } else {
                            lo
                        },
                        if total_less(hi, t) {
                            t
                        } else {
                            hi
                        },
                    ),
                ),
            };
        }
        i = i + 1;
    }
    assert(es.take(i as int) =~= es);
    cur
}

impl PacketQueue {
    /// The queued packets, oldest first, with their times.
    pub closed spec fn entries(&self) -> Seq<(PacketView, u64)> {
        self.queue@.map_values(|e: (Packet, u64)| (e.0@, e.1))
    }

    /// The shared state.
    pub closed spec fn view_state(&self) -> QueueViewState {
        self.view.state()
    }

    /// The span is that of the queued packets, and a queue that saw no
    /// timed packet holds none.
    pub open spec fn wf(&self) -> bool {
        &&& self.view_state() == span_view(self.view_state(), self.entries())
        &&& !self.view_state().initialized ==> timed_span(self.entries()) is None
    }

    /// An empty queue, nothing seen.
    pub fn new() -> (q: PacketQueue)
        ensures
            q.wf(),
            q.entries() == Seq::<(PacketView, u64)>::empty(),
            q.view_state() == fresh_view(),
    {
        let q = PacketQueue { queue: VecDeque::new(), view: PacketQueueView::new() };
        assert(q.entries() =~= Seq::<(PacketView, u64)>::empty());
        q
    }

    /// The serial of the queued packets, once one was seen.
    pub fn serial(&self) -> (s: Option<u32>)
        ensures
            s == (if self.view_state().initialized {
                Some(self.view_state().serial)
            } else {
                None
            }),
    {
        self.view.serial()
    }

    /// A copy of the shared state.
    pub fn view(&self) -> (v: PacketQueueView)
        ensures
            v.state() == self.view_state(),
    {
        self.view
    }

    /// Sets the span to that of the queued packets.
    fn settle_span(&mut self)
        ensures
            final(self).entries() == old(self).entries(),
            final(self).view_state() == span_view(old(self).view_state(), old(self).entries()),
    {
        match deque_span(&self.queue) {
            Some((lo, hi)) => {
                self.view.begin_bits = lo;
                self.view.end_bits = hi;
            },
            None => {
                self.view.begin_bits = self.view.end_bits;
            },
        }
    }

    /// Appends `packet` (time `time_bits`). A packet of a serial other than
    /// the queue's first empties the queue. A timed packet marks the queue
    /// seen and sets the serial. The span then runs from the lowest to the
    /// highest time queued.
    pub fn push(&mut self, packet: Packet, time_bits: u64)
        requires
            old(self).wf(),
        ensures
            final(self).wf(),
            final(self).entries() == pushed_entries(old(self).view_state(), old(self).entries(), packet@, time_bits),
            final(self).view_state() == pushed_view(old(self).view_state(), old(self).entries(), packet@, time_bits),
    {
        let ghost p = packet@;
        let ghost e0 = old(self).entries();
        let serial = self.view.serial();
        let set_serial = match serial {
            Some(s) => if s != packet.serial {
                self.queue.clear();
                Some(packet.serial)
            } else {
                None
            },
            None => Some(packet.serial),
        };
        if packet.pts != NO_PTS {
            self.view.update(None, None, set_serial);
        }
        let ghost before = self.queue@;
        self.queue.push_back((packet, time_bits));
        assert(self.entries() =~= before.map_values(|e: (Packet, u64)| (e.0@, e.1)).push(
            (p, time_bits),
        ));
        proof {
            if serial is Some && serial->0 != p.serial {
                assert(before.map_values(|e: (Packet, u64)| (e.0@, e.1)) =~= Seq::<
                    (PacketView, u64),
                >::empty());
                assert(self.entries() =~= seq![(p, time_bits)]);
            }
        }
        self.settle_span();
        proof {
            let e1 = self.entries();
            lemma_span_bounds(e0);
            lemma_span_bounds(e1);
            if !self.view_state().initialized {
                assert(!old(self).view_state().initialized);
                assert(p.pts == NO_PTS);
                assert(e1 == e0.push((p, time_bits)));
                assert forall|i: int| 0 <= i < e1.len() implies (#[trigger] e1[i]).0.pts == NO_PTS by {
                    if i < e0.len() {
                        assert(e1[i] == e0[i]);
                    }
                }
            }
        }
    }

    /// Takes the oldest packet; the span is then that of the packets left.
    pub fn pop(&mut self) -> (r: Option<Packet>)
        requires
            old(self).wf(),
        ensures
            final(self).wf(),
            ({
                let (o, v, e) = popped(old(self).view_state(), old(self).entries());
                &&& o == (match r {
                    Some(p) => Some(p@),
                    None => None::<PacketView>,
                })
                &&& final(self).view_state() == v
                &&& final(self).entries() == e
            }),
    {
        let ghost e0 = old(self).entries();
        match self.queue.pop_front() {
            Some((packet, time_bits)) => {
                assert(self.entries() =~= e0.drop_first());
                self.settle_span();
                proof {
                    lemma_span_bounds(e0);
                    lemma_span_bounds(e0.drop_first());
                    if !self.view_state().initialized {
                        assert forall|i: int| 0 <= i < e0.drop_first().len() implies
                            (#[trigger] e0.drop_first()[i]).0.pts == NO_PTS by {
                            assert(e0.drop_first()[i] == e0[i + 1]);
                        }
                    }
                }
                Some(packet)
            },
            None => None,
        }
    }

    /// The bounds of the queued time span, once a timed packet was seen.
    pub fn queued_bounds(&self) -> (r: Option<(u64, u64)>)
        ensures
            r == (if self.view_state().initialized {
                Some((self.view_state().begin, self.view_state().end))
            } else {
                None
            }),
    {
        self.view.queued_bounds()
    }

    /// Number of queued packets.
    pub fn len(&self) -> (n: usize)
        ensures
            n == self.entries().len(),
    {
        self.queue.len()
    }

    /// Room in the queue's storage, at least its length.
    pub fn capacity(&self) -> (n: usize)
        ensures
            n >= self.entries().len(),
    {
        deque_capacity(&self.queue)
    }

    /// Marks the queue closed.
    pub fn close(&mut self)
        requires
            old(self).wf(),
        ensures
            final(self).wf(),
            final(self).entries() == old(self).entries(),
            final(self).view_state() == (QueueViewState { closed: true, ..old(self).view_state() }),
    {
        self.view.closed = true;
    }
}

} // verus!
