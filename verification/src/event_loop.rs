//! Deterministic macrotask scheduler for the extension runtime.
//!
//! One `tick` ingests buffered completions and inbound events, fires the
//! timers whose deadline has passed, pops at most one macrotask, and drains
//! microtasks to a fixed point. Completions and events keep their arrival
//! order; timers fire ordered by deadline, then scheduling order, then timer
//! id; and everything ingested in a tick runs before the timers that same
//! tick fires.

use vstd::prelude::*;
use std::sync::Arc;
use core::sync::atomic::AtomicU64;
use core::sync::atomic::Ordering;

verus! {

/// A source of logical time in milliseconds.
pub trait Clock {
    /// The current time in milliseconds.
    fn now_ms(&self) -> u64;
}

/// Which clock a handle reads.
#[derive(Clone)]
enum ClockSource {
    /// A shared manual clock, moved by hand.
    Manual(Arc<ManualClock>),
    /// The wall clock.
    System,
}

/// A shareable clock for the event loop: either a manual clock that tests
/// move by hand, or the wall clock.
#[derive(Clone)]
pub struct ClockHandle {
    inner: ClockSource,
}

impl ClockHandle {
    /// Wrap a shared manual clock.
    pub fn new(clock: Arc<ManualClock>) -> Self {
        ClockHandle { inner: ClockSource::Manual(clock) }
    }

    /// A handle on the wall clock.
    pub fn system() -> Self {
        ClockHandle { inner: ClockSource::System }
    }
}

impl Clock for ClockHandle {
    fn now_ms(&self) -> u64 {
        match &self.inner {
            ClockSource::Manual(c) => c.now_ms(),
            ClockSource::System => wall_clock_ms(),
        }
    }
}

/// Relies on `chrono::Utc::now`: the milliseconds since the Unix epoch,
/// clamped to zero for times before it. Nothing further is assumed of the
/// value: wall-clock time is not a function of the program's state.
#[verifier::external_body]
fn wall_clock_ms() -> u64 {
    let ms = chrono::Utc::now().timestamp_millis();
    u64::try_from(ms).unwrap_or(0)
}

/// The wall clock.
pub struct SystemClock;

impl Clock for SystemClock {
    fn now_ms(&self) -> u64 {
        wall_clock_ms()
    }
}

/// A clock that tests move by hand; shared through an `Arc`, so the time
/// cell is atomic.
#[derive(Debug)]
pub struct ManualClock {
    now_ms: AtomicU64,
}

impl ManualClock {
    /// A manual clock starting at the given time.
    pub fn new(start_ms: u64) -> Self {
        ManualClock { now_ms: AtomicU64::new(start_ms) }
    }

    /// Set the clock.
    pub fn set(&self, ms: u64) {
        self.now_ms.store(ms, Ordering::SeqCst);
    }

    /// Move the clock forward.
    pub fn advance(&self, delta_ms: u64) {
        self.now_ms.fetch_add(delta_ms, Ordering::SeqCst);
    }
}

impl Clock for ManualClock {
    fn now_ms(&self) -> u64 {
        self.now_ms.load(Ordering::SeqCst)
    }
}

/// What kind of work one macrotask carries.
#[derive(Debug, Clone, PartialEq, Eq)]
pub enum MacrotaskKind {
    /// A timer whose deadline passed.
    TimerFired { timer_id: u64 },
    /// A host call whose outcome arrived.
    HostcallComplete { call_id: String },
    /// A lifecycle event from the host.
    InboundEvent { event_id: String },
}

/// One unit of work popped by a tick.
#[derive(Debug, Clone, PartialEq, Eq)]
pub struct Macrotask {
    /// Queue position; assigned in ingestion order.
    pub seq: u64,
    /// Correlates the task with the enqueue that produced it.
    pub trace_id: u64,
    pub kind: MacrotaskKind,
}

/// A queued macrotask.
#[derive(Debug, PartialEq, Eq)]
pub struct MacrotaskEntry {
    pub seq: u64,
    pub trace_id: u64,
    pub kind: MacrotaskKind,
}

/// A scheduled timer, keyed for firing by `(deadline_ms, order_seq,
/// timer_id)`.
#[derive(Debug, Clone, PartialEq, Eq)]
pub struct TimerEntry {
    pub deadline_ms: u64,
    pub order_seq: u64,
    pub timer_id: u64,
    pub trace_id: u64,
}

/// A macrotask buffered until the next tick ingests it.
#[derive(Debug, PartialEq, Eq)]
pub struct PendingMacrotask {
    pub trace_id: u64,
    pub kind: MacrotaskKind,
}

/// What one tick did.
#[derive(Debug, Clone, Copy, PartialEq, Eq)]
pub struct TickResult {
    /// Whether a macrotask was popped and handed to the callback.
    pub ran_macrotask: bool,
    /// How many rounds of microtask draining reported further work.
    pub microtasks_drained: usize,
}

/// The scheduler's abstract state.
#[verifier::ext_equal]
pub struct LoopModel {
    pub pending: Seq<PendingMacrotask>,
    pub queue: Seq<MacrotaskEntry>,
    pub timers: Seq<TimerEntry>,
    pub cancelled: Seq<u64>,
    pub seq: u64,
    pub next_timer_id: u64,
}

/// The successor of a sequence counter; the counter sticks at its maximum
/// rather than wrapping.
pub open spec fn seq_succ(s: u64) -> u64 {
    if s < u64::MAX {
        (s + 1) as u64
    } else {
        u64::MAX
    }
}

/// Strict lexicographic order on timer keys.
pub open spec fn timer_key_lt(a: TimerEntry, b: TimerEntry) -> bool {
    a.deadline_ms < b.deadline_ms || (a.deadline_ms == b.deadline_ms && (a.order_seq < b.order_seq
        || (a.order_seq == b.order_seq && a.timer_id < b.timer_id)))
}

/// The index of the first timer with the least key.
pub open spec fn spec_min_timer(ts: Seq<TimerEntry>) -> int
    decreases ts.len(),
{
    if ts.len() <= 1 {
        0
    } else {
        let m = spec_min_timer(ts.drop_last());
        if timer_key_lt(ts.last(), ts[m]) {
            ts.len() - 1
        } else {
            m
        }
    }
}

/// The first timer with the least key is in range, no timer has a smaller
/// key, and every earlier timer has a strictly greater key.
pub proof fn lemma_min_timer(ts: Seq<TimerEntry>)
    requires
        ts.len() > 0,
    ensures
        0 <= spec_min_timer(ts) < ts.len(),
        forall|j: int|
            0 <= j < ts.len() ==> !timer_key_lt(#[trigger] ts[j], ts[spec_min_timer(ts)]),
        forall|j: int| 0 <= j < spec_min_timer(ts) ==> timer_key_lt(ts[spec_min_timer(ts)], #[trigger] ts[j]),
    decreases ts.len(),
{
    if ts.len() > 1 {
        let d = ts.drop_last();
        let m = spec_min_timer(d);
        lemma_min_timer(d);
        assert forall|j: int| 0 <= j < ts.len() implies !timer_key_lt(
            #[trigger] ts[j],
            ts[spec_min_timer(ts)],
        ) by {
            if j < ts.len() - 1 {
                assert(d[j] == ts[j]);
                assert(d[m] == ts[m]);
            }
        }
        assert forall|j: int| 0 <= j < spec_min_timer(ts) implies timer_key_lt(
            ts[spec_min_timer(ts)],
            #[trigger] ts[j],
        ) by {
            if timer_key_lt(ts.last(), ts[m]) {
                assert(d[j] == ts[j]);
                assert(!timer_key_lt(d[j], d[m]));
            } else {
                assert(d[j] == ts[j]);
                assert(d[m] == ts[m]);
            }
        }
    }
}

/// Move the buffered macrotasks into the queue, in arrival order, assigning
/// queue positions as they go.
pub open spec fn spec_ingest(m: LoopModel) -> LoopModel
    decreases m.pending.len(),
{
    if m.pending.len() == 0 {
        m
    } else {
        let p = m.pending[0];
        spec_ingest(
            LoopModel {
                pending: m.pending.drop_first(),
                queue: m.queue.push(
                    MacrotaskEntry { seq: m.seq, trace_id: p.trace_id, kind: p.kind },
                ),
                seq: seq_succ(m.seq),
                ..m
            },
        )
    }
}

/// Keeps the ids that differ from `id`.
pub open spec fn ne_pred(id: u64) -> spec_fn(u64) -> bool {
    |x: u64| x != id
}

/// Remove every occurrence of a timer id from the cancellation list.
pub open spec fn spec_remove_id(c: Seq<u64>, id: u64) -> Seq<u64> {
    c.filter(ne_pred(id))
}

/// Removing an id that is not present leaves the list as it was.
pub proof fn lemma_remove_id_absent(c: Seq<u64>, id: u64)
    requires
        !c.contains(id),
    ensures
        spec_remove_id(c, id) == c,
    decreases c.len(),
{
    reveal(Seq::filter);
    if c.len() > 0 {
        assert(forall|k: int| 0 <= k < c.len() - 1 ==> c.drop_last()[k] == c[k]);
        assert(!c.drop_last().contains(id));
        lemma_remove_id_absent(c.drop_last(), id);
        assert(spec_remove_id(c, id) =~= c);
    } else {
        assert(spec_remove_id(c, id) =~= c);
    }
}

/// Fire the due timers: repeatedly take the timer with the least key while
/// its deadline has passed; a cancelled timer is discarded and its
/// cancellation mark consumed, any other becomes a macrotask.
pub open spec fn spec_fire(m: LoopModel, now: u64) -> LoopModel
    decreases m.timers.len(),
    via spec_fire_decreases
{
    if m.timers.len() == 0 {
        m
    } else {
        let i = spec_min_timer(m.timers);
        let t = m.timers[i];
        if t.deadline_ms > now {
            m
        } else {
            let rest = m.timers.remove(i);
            if m.cancelled.contains(t.timer_id) {
                spec_fire(
                    LoopModel {
                        timers: rest,
                        cancelled: spec_remove_id(m.cancelled, t.timer_id),
                        ..m
                    },
                    now,
                )
            } else {
                spec_fire(
                    LoopModel {
                        timers: rest,
                        queue: m.queue.push(
                            MacrotaskEntry {
                                seq: m.seq,
                                trace_id: t.trace_id,
                                kind: MacrotaskKind::TimerFired { timer_id: t.timer_id },
                            },
                        ),
                        seq: seq_succ(m.seq),
                        ..m
                    },
                    now,
                )
            }
        }
    }
}

#[via_fn]
proof fn spec_fire_decreases(m: LoopModel, now: u64) {
    if m.timers.len() > 0 {
        lemma_min_timer(m.timers);
    }
}

/// Firing timers only appends to the macrotask queue: whatever was queued
/// first still comes first.
pub proof fn lemma_fire_preserves_queue_prefix(m: LoopModel, now: u64)
    ensures
        spec_fire(m, now).queue.len() >= m.queue.len(),
        forall|k: int|
            0 <= k < m.queue.len() ==> #[trigger] spec_fire(m, now).queue[k] == m.queue[k],
    decreases m.timers.len(),
{
    if m.timers.len() > 0 {
        let i = spec_min_timer(m.timers);
        let t = m.timers[i];
        lemma_min_timer(m.timers);
        if t.deadline_ms <= now {
            let rest = m.timers.remove(i);
            if m.cancelled.contains(t.timer_id) {
                lemma_fire_preserves_queue_prefix(
                    LoopModel { timers: rest, cancelled: spec_remove_id(m.cancelled, t.timer_id), ..m },
                    now,
                );
            } else {
                lemma_fire_preserves_queue_prefix(
                    LoopModel {
                        timers: rest,
                        queue: m.queue.push(
                            MacrotaskEntry {
                                seq: m.seq,
                                trace_id: t.trace_id,
                                kind: MacrotaskKind::TimerFired { timer_id: t.timer_id },
                            },
                        ),
                        seq: seq_succ(m.seq),
                        ..m
                    },
                    now,
                );
            }
        }
    }
}

/// Ingestion appends the buffered tasks behind the queued ones, in arrival
/// order.
pub proof fn lemma_ingest_queue(m: LoopModel)
    ensures
        spec_ingest(m).queue.len() == m.queue.len() + m.pending.len(),
        forall|k: int|
            0 <= k < m.queue.len() ==> #[trigger] spec_ingest(m).queue[k] == m.queue[k],
        forall|k: int|
            0 <= k < m.pending.len() ==> #[trigger] spec_ingest(m).queue[m.queue.len() + k].kind
                == m.pending[k].kind,
        spec_ingest(m).pending.len() == 0,
        spec_ingest(m).timers == m.timers,
        spec_ingest(m).cancelled == m.cancelled,
    decreases m.pending.len(),
{
    if m.pending.len() > 0 {
        let p = m.pending[0];
        let next = LoopModel {
            pending: m.pending.drop_first(),
            queue: m.queue.push(MacrotaskEntry { seq: m.seq, trace_id: p.trace_id, kind: p.kind }),
            seq: seq_succ(m.seq),
            ..m
        };
        lemma_ingest_queue(next);
        assert forall|k: int|
            0 <= k < m.pending.len() implies #[trigger] spec_ingest(m).queue[m.queue.len()
            + k].kind == m.pending[k].kind by {
            if k == 0 {
                assert(spec_ingest(next).queue[m.queue.len() as int] == next.queue[m.queue.len() as int]);
                assert(next.queue[m.queue.len() as int].kind == p.kind);
            } else {
                assert(next.pending[k - 1] == m.pending[k]);
                assert(spec_ingest(next).queue[next.queue.len() + (k - 1)].kind == next.pending[
                    k - 1
                ].kind);
            }
        }
    }
}


/// The state after scheduling one timer against the clock reading
/// `now_ms`: a timer whose deadline is the reading plus the delay
/// (saturating), keyed by the pre-state's counters.
pub open spec fn timer_scheduled(
    pre: LoopModel,
    post: LoopModel,
    delay_ms: u64,
    now_ms: u64,
) -> bool {
    post =~= (LoopModel {
        timers: pre.timers.push(
            TimerEntry {
                deadline_ms: if now_ms + delay_ms <= u64::MAX {
                    (now_ms + delay_ms) as u64
                } else {
                    u64::MAX
                },
                order_seq: pre.seq,
                timer_id: pre.next_timer_id,
                trace_id: pre.seq,
            },
        ),
        seq: seq_succ(pre.seq),
        next_timer_id: seq_succ(pre.next_timer_id),
        ..pre
    })
}

/// The deterministic event loop: buffered macrotasks, a macrotask queue
/// ordered by ingestion, scheduled timers, and cancellation marks.
pub struct PiEventLoop {
    clock: ClockHandle,
    seq: u64,
    next_timer_id: u64,
    pending: Vec<PendingMacrotask>,
    macro_queue: Vec<MacrotaskEntry>,
    timers: Vec<TimerEntry>,
    cancelled_timers: Vec<u64>,
}

/// Executable comparison of timer keys.
fn timer_lt(a: &TimerEntry, b: &TimerEntry) -> (r: bool)
    ensures
        r == timer_key_lt(*a, *b),
{
    a.deadline_ms < b.deadline_ms || (a.deadline_ms == b.deadline_ms && (a.order_seq < b.order_seq
        || (a.order_seq == b.order_seq && a.timer_id < b.timer_id)))
}

impl PiEventLoop {
    /// The loop's abstract state.
    pub closed spec fn model(&self) -> LoopModel {
        LoopModel {
            pending: self.pending@,
            queue: self.macro_queue@,
            timers: self.timers@,
            cancelled: self.cancelled_timers@,
            seq: self.seq,
            next_timer_id: self.next_timer_id,
        }
    }

    /// An empty loop over the given clock.
    pub fn new(clock: ClockHandle) -> (r: Self)
        ensures
            r.model().pending.len() == 0,
            r.model().queue.len() == 0,
            r.model().timers.len() == 0,
            r.model().cancelled.len() == 0,
            r.model().seq == 0,
            r.model().next_timer_id == 1,
    {
        PiEventLoop {
            clock,
            seq: 0,
            next_timer_id: 1,
            pending: Vec::new(),
            macro_queue: Vec::new(),
            timers: Vec::new(),
            cancelled_timers: Vec::new(),
        }
    }

    /// Take the next sequence number; the counter sticks at its maximum.
    fn next_seq(&mut self) -> (r: u64)
        ensures
            r == old(self).model().seq,
            final(self).model() =~= (LoopModel { seq: seq_succ(old(self).model().seq), ..old(self).model() }),
    {
        let current = self.seq;
        if self.seq < u64::MAX {
            self.seq = self.seq + 1;
        }
        current
    }

    /// Buffer a host-call completion; the next tick ingests it ahead of any
    /// timers that tick fires.
    pub fn enqueue_hostcall_completion(&mut self, call_id: &str)
        ensures
            final(self).model() =~= (LoopModel {
                pending: old(self).model().pending.push(final(self).model().pending.last()),
                seq: seq_succ(old(self).model().seq),
                ..old(self).model()
            }),
            final(self).model().pending.last().trace_id == old(self).model().seq,
            final(self).model().pending.last().kind matches MacrotaskKind::HostcallComplete {
                call_id: c,
            } && c@ == call_id@,
    {
        let trace_id = self.next_seq();
        self.pending.push(
            PendingMacrotask {
                trace_id,
                kind: MacrotaskKind::HostcallComplete { call_id: call_id.to_owned() },
            },
        );
    }

    /// Buffer an inbound lifecycle event.
    pub fn enqueue_inbound_event(&mut self, event_id: &str)
        ensures
            final(self).model() =~= (LoopModel {
                pending: old(self).model().pending.push(final(self).model().pending.last()),
                seq: seq_succ(old(self).model().seq),
                ..old(self).model()
            }),
            final(self).model().pending.last().trace_id == old(self).model().seq,
            final(self).model().pending.last().kind matches MacrotaskKind::InboundEvent {
                event_id: e,
            } && e@ == event_id@,
    {
        let trace_id = self.next_seq();
        self.pending.push(
            PendingMacrotask {
                trace_id,
                kind: MacrotaskKind::InboundEvent { event_id: event_id.to_owned() },
            },
        );
    }

    /// Schedule a timer against an explicit clock reading: its deadline is
    /// the reading plus the delay (saturating), and its id is returned.
    pub fn set_timeout_at(&mut self, delay_ms: u64, now_ms: u64) -> (timer_id: u64)
        ensures
            timer_id == old(self).model().next_timer_id,
            final(self).model() =~= (LoopModel {
                timers: old(self).model().timers.push(
                    TimerEntry {
                        deadline_ms: if now_ms + delay_ms <= u64::MAX {
                            (now_ms + delay_ms) as u64
                        } else {
                            u64::MAX
                        },
                        order_seq: old(self).model().seq,
                        timer_id: old(self).model().next_timer_id,
                        trace_id: old(self).model().seq,
                    },
                ),
                seq: seq_succ(old(self).model().seq),
                next_timer_id: seq_succ(old(self).model().next_timer_id),
                ..old(self).model()
            }),
    {
        let timer_id = self.next_timer_id;
        if self.next_timer_id < u64::MAX {
            self.next_timer_id = self.next_timer_id + 1;
        }
        let order_seq = self.next_seq();
        let deadline_ms = if delay_ms > u64::MAX - now_ms {
            u64::MAX
        } else {
            now_ms + delay_ms
        };
        self.timers.push(TimerEntry { deadline_ms, order_seq, timer_id, trace_id: order_seq });
        timer_id
    }

    /// Schedule a timer `delay_ms` from now on the loop's clock.
    pub fn set_timeout(&mut self, delay_ms: u64) -> (timer_id: u64)
        ensures
            timer_id == old(self).model().next_timer_id,
            exists|now_ms: u64|
                #[trigger] timer_scheduled(old(self).model(), final(self).model(), delay_ms, now_ms),
    {
        let now_ms = self.clock.now_ms();
        let timer_id = self.set_timeout_at(delay_ms, now_ms);
        proof {
            assert(timer_scheduled(old(self).model(), self.model(), delay_ms, now_ms));
        }
        timer_id
    }

    /// Mark a timer cancelled; the mark is checked when the timer would
    /// fire.
    pub fn clear_timeout(&mut self, timer_id: u64)
        ensures
            final(self).model() =~= (LoopModel {
                cancelled: if old(self).model().cancelled.contains(timer_id) {
                    old(self).model().cancelled
                } else {
                    old(self).model().cancelled.push(timer_id)
                },
                ..old(self).model()
            }),
    {
        let n = self.cancelled_timers.len();
        let mut i: usize = 0;
        while i < n
            invariant
                n == self.cancelled_timers@.len(),
                i <= n,
                forall|k: int| 0 <= k < i ==> self.cancelled_timers@[k] != timer_id,
            decreases n - i,
        {
            if self.cancelled_timers[i] == timer_id {
                return ;
            }
            i = i + 1;
        }
        self.cancelled_timers.push(timer_id);
    }

    /// Move every buffered macrotask into the queue, in arrival order.
    fn ingest_pending(&mut self)
        ensures
            final(self).model() =~= spec_ingest(old(self).model()),
    {
        loop
            invariant
                spec_ingest(self.model()) == spec_ingest(old(self).model()),
            decreases self.pending@.len(),
        {
            if self.pending.len() == 0 {
                proof {
                    assert(spec_ingest(self.model()) =~= self.model());
                }
                return ;
            }
            let p = self.pending.remove(0);
            let ghost before = self.model();
            let seq = self.next_seq();
            self.macro_queue.push(MacrotaskEntry { seq, trace_id: p.trace_id, kind: p.kind });
            proof {
                assert(self.model().pending =~= before.pending);
            }
        }
    }

    /// Append one macrotask to the queue, giving it the next position.
    fn enqueue_macrotask(&mut self, trace_id: u64, kind: MacrotaskKind)
        ensures
            final(self).model() =~= (LoopModel {
                queue: old(self).model().queue.push(
                    MacrotaskEntry { seq: old(self).model().seq, trace_id, kind },
                ),
                seq: seq_succ(old(self).model().seq),
                ..old(self).model()
            }),
    {
        let seq = self.next_seq();
        self.macro_queue.push(MacrotaskEntry { seq, trace_id, kind });
    }

    /// The position of the timer that fires first.
    fn min_timer_idx(&self) -> (r: usize)
        requires
            self.model().timers.len() > 0,
        ensures
            r == spec_min_timer(self.model().timers),
    {
        let n = self.timers.len();
        let mut m: usize = 0;
        let mut j: usize = 1;
        proof {
            assert(self.timers@.subrange(0, 1) =~= seq![self.timers@[0]]);
        }
        while j < n
            invariant
                n == self.timers@.len(),
                1 <= j <= n,
                m < j,
                m == spec_min_timer(self.timers@.subrange(0, j as int)),
            decreases n - j,
        {
            proof {
                let pre = self.timers@.subrange(0, j as int);
                let post = self.timers@.subrange(0, j + 1);
                assert(post.drop_last() =~= pre);
                assert(post.last() == self.timers@[j as int]);
            }
            if timer_lt(&self.timers[j], &self.timers[m]) {
                m = j;
            }
            j = j + 1;
        }
        proof {
            assert(self.timers@.subrange(0, n as int) =~= self.timers@);
        }
        m
    }

    /// Drop every cancellation mark for this id; reports whether any was
    /// present.
    fn remove_cancelled(&mut self, timer_id: u64) -> (found: bool)
        ensures
            found == old(self).model().cancelled.contains(timer_id),
            final(self).model() =~= (LoopModel {
                cancelled: spec_remove_id(old(self).model().cancelled, timer_id),
                ..old(self).model()
            }),
    {
        let n = self.cancelled_timers.len();
        let mut kept: Vec<u64> = Vec::new();
        let mut found = false;
        let mut i: usize = 0;
        proof {
            reveal(Seq::filter);
            assert(self.cancelled_timers@.subrange(0, 0) =~= Seq::<u64>::empty());
        }
        while i < n
            invariant
                n == self.cancelled_timers@.len(),
                i <= n,
                kept@ == self.cancelled_timers@.subrange(0, i as int).filter(ne_pred(timer_id)),
                found == self.cancelled_timers@.subrange(0, i as int).contains(timer_id),
            decreases n - i,
        {
            let x = self.cancelled_timers[i];
            proof {
                let pre = self.cancelled_timers@.subrange(0, i as int);
                let post = self.cancelled_timers@.subrange(0, i + 1);
                assert(post.drop_last() =~= pre);
                assert(post.last() == self.cancelled_timers@[i as int]);
                reveal(Seq::filter);
                if pre.contains(timer_id) {
                    let w = choose|w: int| 0 <= w < pre.len() && pre[w] == timer_id;
                    assert(post[w] == timer_id);
                }
            }
            if x == timer_id {
                found = true;
            } else {
                kept.push(x);
            }
            i = i + 1;
        }
        proof {
            assert(self.cancelled_timers@.subrange(0, n as int) =~= self.cancelled_timers@);
        }
        self.cancelled_timers = kept;
        found
    }

    /// Fire every due timer, in `(deadline, scheduling order, id)` order;
    /// cancelled ones are discarded and their marks consumed.
    fn enqueue_due_timers(&mut self, now_ms: u64)
        ensures
            final(self).model() =~= spec_fire(old(self).model(), now_ms),
    {
        loop
            invariant
                spec_fire(self.model(), now_ms) == spec_fire(old(self).model(), now_ms),
            decreases self.timers@.len(),
        {
            if self.timers.len() == 0 {
                proof {
                    assert(spec_fire(self.model(), now_ms) =~= self.model());
                }
                return ;
            }
            let i = self.min_timer_idx();
            proof {
                lemma_min_timer(self.model().timers);
            }
            if self.timers[i].deadline_ms > now_ms {
                proof {
                    assert(spec_fire(self.model(), now_ms) =~= self.model());
                }
                return ;
            }
            let ghost m_pre = self.model();
            let t = self.timers.remove(i);
            let cancelled = self.remove_cancelled(t.timer_id);
            if !cancelled {
                self.enqueue_macrotask(
                    t.trace_id,
                    MacrotaskKind::TimerFired { timer_id: t.timer_id },
                );
                proof {
                    lemma_remove_id_absent(m_pre.cancelled, t.timer_id);
                    assert(self.model() =~= (LoopModel {
                        timers: m_pre.timers.remove(i as int),
                        queue: m_pre.queue.push(
                            MacrotaskEntry {
                                seq: m_pre.seq,
                                trace_id: t.trace_id,
                                kind: MacrotaskKind::TimerFired { timer_id: t.timer_id },
                            },
                        ),
                        seq: seq_succ(m_pre.seq),
                        ..m_pre
                    }));
                    assert(spec_fire(m_pre, now_ms) == spec_fire(self.model(), now_ms));
                }
            } else {
                proof {
                    assert(self.model() =~= (LoopModel {
                        timers: m_pre.timers.remove(i as int),
                        cancelled: spec_remove_id(m_pre.cancelled, t.timer_id),
                        ..m_pre
                    }));
                    assert(spec_fire(m_pre, now_ms) == spec_fire(self.model(), now_ms));
                }
            }
        }
    }

    /// Remove and return the macrotask at the head of the queue.
    fn pop_next_macrotask(&mut self) -> (r: Option<Macrotask>)
        ensures
            match r {
                None => old(self).model().queue.len() == 0 && final(self).model()
                    =~= old(self).model(),
                Some(t) => old(self).model().queue.len() > 0 && t.seq == old(
                    self,
                ).model().queue[0].seq && t.trace_id == old(self).model().queue[0].trace_id
                    && t.kind == old(self).model().queue[0].kind && final(self).model()
                    =~= (LoopModel { queue: old(self).model().queue.drop_first(), ..old(self).model() }),
            },
    {
        if self.macro_queue.len() == 0 {
            return None;
        }
        let e = self.macro_queue.remove(0);
        proof {
            assert(self.macro_queue@ =~= old(self).macro_queue@.drop_first());
        }
        Some(Macrotask { seq: e.seq, trace_id: e.trace_id, kind: e.kind })
    }

    /// The deterministic heart of a tick, against an explicit clock reading:
    /// ingest the buffered macrotasks, fire the due timers, and pop the head
    /// of the queue. Buffered completions and events always come ahead of
    /// the timers fired in the same call.
    pub fn tick_pop(&mut self, now_ms: u64) -> (r: Option<Macrotask>)
        ensures
            ({
                let m2 = spec_fire(spec_ingest(old(self).model()), now_ms);
                match r {
                    None => m2.queue.len() == 0 && final(self).model() =~= m2,
                    Some(t) => m2.queue.len() > 0 && t.seq == m2.queue[0].seq && t.trace_id
                        == m2.queue[0].trace_id && t.kind == m2.queue[0].kind && final(self).model()
                        =~= (LoopModel { queue: m2.queue.drop_first(), ..m2 }),
                }
            }),
    {
        self.ingest_pending();
        self.enqueue_due_timers(now_ms);
        self.pop_next_macrotask()
    }

    /// One cooperative step: ingest buffered macrotasks, fire due timers,
    /// pop at most one macrotask into `on_macrotask`, and, if one ran, call
    /// `drain_microtasks` until it reports no more work — so microtasks
    /// reach a fixed point before the next macrotask can be popped.
    pub fn tick<F: Fn(Macrotask), G: Fn() -> bool>(
        &mut self,
        on_macrotask: F,
        drain_microtasks: G,
    ) -> (r: TickResult)
        requires
            forall|t: Macrotask| call_requires(on_macrotask, (t,)),
            call_requires(drain_microtasks, ()),
        ensures
            exists|now_ms: u64|
                #[trigger] tick_delivers(
                    on_macrotask,
                    old(self).model(),
                    final(self).model(),
                    now_ms,
                    r.ran_macrotask,
                ),
            r.ran_macrotask ==> r.microtasks_drained == usize::MAX || call_ensures(
                drain_microtasks,
                (),
                false,
            ),
            !r.ran_macrotask ==> r.microtasks_drained == 0,
    {
        let now_ms = self.clock.now_ms();
        let popped = self.tick_pop(now_ms);
        let mut microtasks_drained: usize = 0;
        let mut ran_macrotask = false;
        match popped {
            None => {
                proof {
                    assert(tick_delivers(
                        on_macrotask,
                        old(self).model(),
                        self.model(),
                        now_ms,
                        false,
                    ));
                }
            },
            Some(task) => {
                ran_macrotask = true;
                let ghost gtask = task;
                on_macrotask(task);
                proof {
                    let m2 = spec_fire(spec_ingest(old(self).model()), now_ms);
                    assert(gtask == (Macrotask {
                        seq: m2.queue[0].seq,
                        trace_id: m2.queue[0].trace_id,
                        kind: m2.queue[0].kind,
                    }));
                    assert(tick_delivers(
                        on_macrotask,
                        old(self).model(),
                        self.model(),
                        now_ms,
                        true,
                    ));
                }
                #[verifier::loop_isolation(false)]
                loop
                    invariant
                        call_requires(drain_microtasks, ()),
                        microtasks_drained <= usize::MAX,
                    decreases usize::MAX - microtasks_drained,
                {
                    if microtasks_drained == usize::MAX {
                        break ;
                    }
                    if !drain_microtasks() {
                        break ;
                    }
                    microtasks_drained = microtasks_drained + 1;
                }
            },
        }
        let r = TickResult { ran_macrotask, microtasks_drained };
        proof {
            assert(tick_delivers(
                on_macrotask,
                old(self).model(),
                self.model(),
                now_ms,
                r.ran_macrotask,
            ));
            assert(exists|now: u64|
                #[trigger] tick_delivers(
                    on_macrotask,
                    old(self).model(),
                    self.model(),
                    now,
                    r.ran_macrotask,
                ));
        }
        r
    }
}

/// What one tick does against the clock reading `now_ms`: the buffered
/// macrotasks are ingested, the due timers fired, and — when the queue then
/// holds anything — its head is removed and delivered to the callback,
/// whose postcondition therefore holds of it.
pub open spec fn tick_delivers<F: Fn(Macrotask)>(
    on_macrotask: F,
    pre: LoopModel,
    post: LoopModel,
    now_ms: u64,
    ran: bool,
) -> bool {
    let m2 = spec_fire(spec_ingest(pre), now_ms);
    if m2.queue.len() == 0 {
        !ran && post =~= m2
    } else {
        ran && post =~= (LoopModel { queue: m2.queue.drop_first(), ..m2 }) && call_ensures(
            on_macrotask,
            (Macrotask {
                seq: m2.queue[0].seq,
                trace_id: m2.queue[0].trace_id,
                kind: m2.queue[0].kind,
            },),
            (),
        )
    }
}

/// In any tick where the queue starts empty, whatever was buffered before
/// the tick — a host-call completion, an inbound event — runs ahead of every
/// timer the tick fires: the first popped task is the first buffered one,
/// whatever timers are due.
pub proof fn lemma_completions_run_before_due_timers(m: LoopModel, now_ms: u64)
    requires
        m.queue.len() == 0,
        m.pending.len() > 0,
    ensures
        ({
            let m2 = spec_fire(spec_ingest(m), now_ms);
            m2.queue.len() > 0 && m2.queue[0].kind == m.pending[0].kind
        }),
{
    lemma_ingest_queue(m);
    lemma_fire_preserves_queue_prefix(spec_ingest(m), now_ms);
    let m2 = spec_fire(spec_ingest(m), now_ms);
    assert(spec_ingest(m).queue[m.queue.len() as int + 0].kind == m.pending[0].kind);
    assert(spec_ingest(m).queue[0].kind == m.pending[0].kind);
    assert(m2.queue[0] == spec_ingest(m).queue[0]);
}

} // verus!
