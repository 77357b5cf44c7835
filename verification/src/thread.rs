use vstd::prelude::*;

use crate::HxError;
use crate::dynamic::Dynamic;

verus! {

/// One scheduled repeating callback: its cancellation id, the next time it
/// is due (milliseconds), its interval (at least one millisecond), and the
/// token of the callback to run (the embedding program maps tokens to
/// actual code).
pub struct RegularEvent {
    pub id: u64,
    pub next_run: i64,
    pub interval: i64,
    pub callback: u64,
}

impl Clone for RegularEvent {
    fn clone(&self) -> (res: Self)
        ensures
            res == *self,
    {
        RegularEvent {
            id: self.id,
            next_run: self.next_run,
            interval: self.interval,
            callback: self.callback,
        }
    }
}

/// One thread's cooperative scheduler state: queued one-shot callbacks
/// (FIFO), the signed count of promised external completions, and the
/// repeating events, kept sorted by `next_run` (ties in insertion order).
pub struct EventLoopState {
    pub one_time: Vec<u64>,
    pub promised: i32,
    pub regular: Vec<RegularEvent>,
}

/// One registered thread: its message mailbox (FIFO) and its event loop.
pub struct ThreadRecord {
    pub mailbox: Vec<Dynamic>,
    pub events: EventLoopState,
}

/// The process-wide thread table: thread id `0` is the initial thread and
/// is registered from the start; ids are never reused.
pub struct Registry {
    threads: Vec<(i32, ThreadRecord)>,
    next_thread_id: i32,
    next_event_id: u64,
}

/// The repeating list is sorted by due time.
pub open spec fn events_sorted(s: Seq<RegularEvent>) -> bool {
    forall|i: int, j: int| 0 <= i < j < s.len() ==> (#[trigger] s[i]).next_run <= (#[trigger] s[j]).next_run
}

/// Every scheduled interval is at least one millisecond.
pub open spec fn intervals_positive(s: Seq<RegularEvent>) -> bool {
    forall|i: int| 0 <= i < s.len() ==> (#[trigger] s[i]).interval >= 1
}

impl EventLoopState {
    /// Well-formed scheduler state: the repeating list is sorted and every
    /// interval is positive.
    pub open spec fn wf(&self) -> bool {
        events_sorted(self.regular@) && intervals_positive(self.regular@)
    }

    pub fn new() -> (e: EventLoopState)
        ensures
            e.one_time@ == Seq::<u64>::empty(),
            e.promised == 0,
            e.regular@ == Seq::<RegularEvent>::empty(),
            e.wf(),
    {
        EventLoopState { one_time: Vec::new(), promised: 0, regular: Vec::new() }
    }
}

impl ThreadRecord {
    pub fn new() -> (t: ThreadRecord)
        ensures
            t.mailbox@ == Seq::<Dynamic>::empty(),
            t.events.one_time@ == Seq::<u64>::empty(),
            t.events.promised == 0,
            t.events.regular@ == Seq::<RegularEvent>::empty(),
            t.events.wf(),
    {
        ThreadRecord { mailbox: Vec::new(), events: EventLoopState::new() }
    }
}

/// First position at or after `from` whose entry is for thread `tid`, or
/// `-1`.
pub open spec fn tid_index(s: Seq<(i32, ThreadRecord)>, tid: i32, from: int) -> int
    decreases s.len() - from when 0 <= from <= s.len()
{
    if from >= s.len() {
        -1
    } else if s[from].0 == tid {
        from
    } else {
        tid_index(s, tid, from + 1)
    }
}

/// The record registered for `tid`, if any.
pub open spec fn registry_lookup(s: Seq<(i32, ThreadRecord)>, tid: i32) -> Option<ThreadRecord> {
    let i = tid_index(s, tid, 0);
    if i == -1 {
        None
    } else {
        Some(s[i].1)
    }
}

/// A thread search that finds something returns a position holding the id.
pub proof fn lemma_tid_index_props(s: Seq<(i32, ThreadRecord)>, tid: i32, from: int)
    requires
        0 <= from <= s.len(),
    ensures
        tid_index(s, tid, from) == -1 || (from <= tid_index(s, tid, from) < s.len() && s[tid_index(
            s,
            tid,
            from,
        )].0 == tid),
        tid_index(s, tid, from) == -1 ==> (forall|i: int|
            from <= i < s.len() ==> (#[trigger] s[i]).0 != tid),
    decreases s.len() - from,
{
    if from < s.len() && s[from].0 != tid {
        lemma_tid_index_props(s, tid, from + 1);
    }
}

impl View for Registry {
    type V = Seq<(i32, ThreadRecord)>;

    closed spec fn view(&self) -> Seq<(i32, ThreadRecord)> {
        Seq::new(self.threads@.len(), |i: int| (self.threads@[i].0, self.threads@[i].1))
    }
}

impl Registry {
    /// The next thread id to be handed out.
    pub closed spec fn next_tid_spec(&self) -> int {
        self.next_thread_id as int
    }

    /// The next repeating-event id to be handed out.
    pub closed spec fn next_event_id_spec(&self) -> int {
        self.next_event_id as int
    }

    /// Well-formed registry: thread ids are registered at most once, and
    /// every registered scheduler is well-formed.
    pub open spec fn wf(&self) -> bool {
        &&& forall|i: int, j: int|
            0 <= i < j < self@.len() ==> (#[trigger] self@[i]).0 != (#[trigger] self@[j]).0
        &&& forall|i: int| 0 <= i < self@.len() ==> (#[trigger] self@[i]).1.events.wf()
    }

    /// A fresh registry: only the initial thread (id `0`) is alive.
    pub fn new() -> (r: Registry)
        ensures
            r@.len() == 1,
            r@[0].0 == 0,
            r@[0].1.mailbox@ == Seq::<Dynamic>::empty(),
            r@[0].1.events.one_time@ == Seq::<u64>::empty(),
            r@[0].1.events.promised == 0,
            r@[0].1.events.regular@ == Seq::<RegularEvent>::empty(),
            r.next_tid_spec() == 1,
            r.next_event_id_spec() == 1,
            r.wf(),
    {
        let mut threads: Vec<(i32, ThreadRecord)> = Vec::new();
        threads.push((0, ThreadRecord::new()));
        let r = Registry { threads, next_thread_id: 1, next_event_id: 1 };
        r
    }

    /// The position of `tid`'s record.
    fn find(&self, tid: i32) -> (r: Option<usize>)
        ensures
            match r {
                Some(i) => tid_index(self@, tid, 0) == i as int && i < self@.len() && self@[
                    i as int
                ].0 == tid,
                None => tid_index(self@, tid, 0) == -1,
            },
    {
        let n = self.threads.len();
        let mut i: usize = 0;
        while i < n
            invariant
                n == self@.len(),
                n == self.threads@.len(),
                0 <= i <= n,
                tid_index(self@, tid, 0) == tid_index(self@, tid, i as int),
            decreases n - i,
        {
            if self.threads[i].0 == tid {
                proof {
                    assert(self@[i as int].0 == tid);
                    assert(tid_index(self@, tid, i as int) == i as int);
                }
                return Some(i);
            }
            proof {
                assert(self@[i as int].0 != tid);
            }
            i = i + 1;
        }
        None
    }

    /// Whether `tid` names a live thread.
    pub fn is_alive(&self, tid: i32) -> (r: bool)
        ensures
            r == (registry_lookup(self@, tid) is Some),
    {
        self.find(tid).is_some()
    }

    /// Register a record for a fresh thread id and return the id. The
    /// record exists before the new thread starts running, so messages sent
    /// immediately after spawning are never lost; running the job on an
    /// actual thread is the embedding program's part.
    pub fn thread_spawn(&mut self) -> (tid: i32)
        requires
            old(self).wf(),
            old(self).next_tid_spec() < i32::MAX,
            old(self)@.len() < usize::MAX,
            forall|i: int|
                0 <= i < old(self)@.len() ==> (#[trigger] old(self)@[i]).0 < old(self).next_tid_spec(),
        ensures
            final(self).wf(),
            tid as int == old(self).next_tid_spec(),
            final(self).next_tid_spec() == old(self).next_tid_spec() + 1,
            final(self).next_event_id_spec() == old(self).next_event_id_spec(),
            final(self)@ == old(self)@.push((tid, final(self)@.last().1)),
            final(self)@.last().1.mailbox@ == Seq::<Dynamic>::empty(),
            final(self)@.last().1.events.one_time@ == Seq::<u64>::empty(),
            final(self)@.last().1.events.promised == 0,
            final(self)@.last().1.events.regular@ == Seq::<RegularEvent>::empty(),
            forall|i: int|
                0 <= i < final(self)@.len() ==> (#[trigger] final(self)@[i]).0 < final(self).next_tid_spec(),
    {
        let tid = self.next_thread_id;
        self.next_thread_id = self.next_thread_id + 1;
        self.threads.push((tid, ThreadRecord::new()));
        proof {
            assert(self@ =~= old(self)@.push((tid, self@.last().1)));
        }
        tid
    }

    /// Deregister an exited thread; the initial thread (id `0`) is
    /// permanent, and deregistering an unknown id changes nothing.
    pub fn thread_exit(&mut self, tid: i32)
        requires
            old(self).wf(),
        ensures
            final(self).wf(),
            final(self).next_tid_spec() == old(self).next_tid_spec(),
            final(self).next_event_id_spec() == old(self).next_event_id_spec(),
            ({
                let j = tid_index(old(self)@, tid, 0);
                if tid == 0 || j == -1 {
                    final(self)@ == old(self)@
                } else {
                    final(self)@ == old(self)@.remove(j)
                }
            }),
    {
        if tid == 0 {
            proof {
                assert(self@ =~= old(self)@);
            }
            return ;
        }
        match self.find(tid) {
            None => {
                proof {
                    assert(self@ =~= old(self)@);
                }
            },
            Some(i) => {
                proof {
                    lemma_tid_index_props(self@, tid, 0);
                }
                self.threads.remove(i);
                proof {
                    assert(self@ =~= old(self)@.remove(tid_index(old(self)@, tid, 0)));
                }
            },
        }
    }

    /// Append `msg` to `tid`'s mailbox and wake one blocked receiver (the
    /// wakeup itself is the embedding program's); an unregistered or exited
    /// id fails with `ThreadNotAlive`.
    pub fn thread_send_message(&mut self, tid: i32, msg: Dynamic) -> (r: Result<(), HxError>)
        requires
            old(self).wf(),
        ensures
            final(self).wf(),
            final(self).next_tid_spec() == old(self).next_tid_spec(),
            final(self).next_event_id_spec() == old(self).next_event_id_spec(),
            ({
                let j = tid_index(old(self)@, tid, 0);
                if j == -1 {
                    &&& r matches Err(e) && e == HxError::ThreadNotAlive
                    &&& final(self)@ == old(self)@
                } else {
                    &&& r is Ok
                    &&& final(self)@ == old(self)@.update(
                        j,
                        (
                            tid,
                            ThreadRecord {
                                mailbox: final(self)@[j].1.mailbox,
                                events: old(self)@[j].1.events,
                            },
                        ),
                    )
                    &&& final(self)@[j].1.mailbox@ == old(self)@[j].1.mailbox@.push(msg)
                }
            }),
    {
        match self.find(tid) {
            None => Err(HxError::ThreadNotAlive),
            Some(i) => {
                proof {
                    lemma_tid_index_props(self@, tid, 0);
                }
                let entry = &mut self.threads[i];
                entry.1.mailbox.push(msg);
                proof {
                    let j = tid_index(old(self)@, tid, 0);
                    assert(self@ =~= old(self)@.update(
                        j,
                        (
                            tid,
                            ThreadRecord {
                                mailbox: self@[j].1.mailbox,
                                events: old(self)@[j].1.events,
                            },
                        ),
                    ));
                }
                Ok(())
            },
        }
    }

    /// Pop the first message of `tid`'s mailbox: the head when one is
    /// queued; `Empty` when the mailbox is empty and the caller does not
    /// block; `WouldBlock` when it does (the embedding program then waits
    /// for a send and retries). An unregistered id fails with
    /// `ThreadNotAlive`.
    pub fn thread_read_message(&mut self, tid: i32, block: bool) -> (r: Result<
        ReadOutcome,
        HxError,
    >)
        requires
            old(self).wf(),
        ensures
            final(self).wf(),
            final(self).next_tid_spec() == old(self).next_tid_spec(),
            final(self).next_event_id_spec() == old(self).next_event_id_spec(),
            ({
                let j = tid_index(old(self)@, tid, 0);
                if j == -1 {
                    &&& r matches Err(e) && e == HxError::ThreadNotAlive
                    &&& final(self)@ == old(self)@
                } else {
                    let mb = old(self)@[j].1.mailbox@;
                    if mb.len() > 0 {
                        &&& r matches Ok(o) && o matches ReadOutcome::Message(m) && m == mb[0]
                        &&& final(self)@ == old(self)@.update(
                            j,
                            (
                                tid,
                                ThreadRecord {
                                    mailbox: final(self)@[j].1.mailbox,
                                    events: old(self)@[j].1.events,
                                },
                            ),
                        )
                        &&& final(self)@[j].1.mailbox@ == mb.subrange(1, mb.len() as int)
                    } else if !block {
                        &&& r matches Ok(o) && o is Empty
                        &&& final(self)@ == old(self)@
                    } else {
                        &&& r matches Ok(o) && o is WouldBlock
                        &&& final(self)@ == old(self)@
                    }
                }
            }),
    {
        match self.find(tid) {
            None => Err(HxError::ThreadNotAlive),
            Some(i) => {
                proof {
                    lemma_tid_index_props(self@, tid, 0);
                }
                let has = self.threads[i].1.mailbox.len() > 0;
                if has {
                    let entry = &mut self.threads[i];
                    let m = entry.1.mailbox.remove(0);
                    proof {
                        let j = tid_index(old(self)@, tid, 0);
                        assert(old(self)@[j].1.mailbox@.remove(0) =~= old(self)@[j].1.mailbox@.subrange(1, old(self)@[j].1.mailbox@.len() as int));
                        assert(self@ =~= old(self)@.update(
                            j,
                            (
                                tid,
                                ThreadRecord {
                                    mailbox: self@[j].1.mailbox,
                                    events: old(self)@[j].1.events,
                                },
                            ),
                        ));
                    }
                    Ok(ReadOutcome::Message(m))
                } else if !block {
                    proof {
                        assert(self@ =~= old(self)@);
                    }
                    Ok(ReadOutcome::Empty)
                } else {
                    proof {
                        assert(self@ =~= old(self)@);
                    }
                    Ok(ReadOutcome::WouldBlock)
                }
            },
        }
    }
}

/// What reading a mailbox produced: its first message; nothing, for a
/// non-blocking read of an empty mailbox; or the need to block until a send
/// arrives.
#[derive(Debug)]
pub enum ReadOutcome {
    Message(Dynamic),
    Empty,
    WouldBlock,
}

/// What one round of `progress` reports: work ran just now; the next
/// repeating event is due at the given time; promised work may arrive at
/// any time; or nothing more is expected.
#[derive(Debug)]
pub enum Progress {
    Now,
    At(i64),
    AnyTime,
    Never,
}

/// The event re-armed after firing: its due time advanced by its interval
/// (saturating at the far end of time).
pub open spec fn advance_event(e: RegularEvent) -> RegularEvent {
    RegularEvent {
        id: e.id,
        next_run: if e.next_run > i64::MAX - e.interval { i64::MAX } else {
            (e.next_run + e.interval) as i64
        },
        interval: e.interval,
        callback: e.callback,
    }
}

/// The first position in `s` whose event is not yet due at `now`; events
/// before it fire in this round.
pub open spec fn due_from(s: Seq<RegularEvent>, now: int, i: int) -> int
    decreases s.len() - i when 0 <= i <= s.len()
{
    if i >= s.len() || s[i].next_run > now {
        i
    } else {
        due_from(s, now, i + 1)
    }
}

/// Where a re-armed event is re-inserted: before the first event strictly
/// later than it, so ties keep insertion order.
pub open spec fn insert_pos(s: Seq<RegularEvent>, t: int, i: int) -> int
    decreases s.len() - i when 0 <= i <= s.len()
{
    if i >= s.len() || t < s[i].next_run {
        i
    } else {
        insert_pos(s, t, i + 1)
    }
}

/// A sorted insertion of `e` into `s`.
pub open spec fn insert_sorted(s: Seq<RegularEvent>, e: RegularEvent) -> Seq<RegularEvent> {
    s.insert(insert_pos(s, e.next_run as int, 0), e)
}

/// The repeating list after one firing round: each due event, in order, is
/// re-armed and re-inserted among the rest.
pub open spec fn rearm_loop(due: Seq<RegularEvent>, rest: Seq<RegularEvent>) -> Seq<RegularEvent>
    decreases due.len(),
{
    if due.len() == 0 {
        rest
    } else {
        rearm_loop(due.drop_first(), insert_sorted(rest, advance_event(due.first())))
    }
}

/// An insertion position splits the list: everything before it is at most
/// `t`, everything from it on is strictly later.
proof fn lemma_insert_pos_props(s: Seq<RegularEvent>, t: int, from: int)
    requires
        0 <= from <= s.len(),
    ensures
        from <= insert_pos(s, t, from) <= s.len(),
        forall|i: int| from <= i < insert_pos(s, t, from) ==> (#[trigger] s[i]).next_run <= t,
        insert_pos(s, t, from) < s.len() ==> t < s[insert_pos(s, t, from)].next_run,
    decreases s.len() - from,
{
    if from < s.len() && s[from].next_run <= t {
        lemma_insert_pos_props(s, t, from + 1);
    }
}

/// Sorted insertion keeps the list sorted and its intervals positive.
proof fn lemma_insert_sorted_wf(s: Seq<RegularEvent>, e: RegularEvent)
    requires
        events_sorted(s),
        intervals_positive(s),
        e.interval >= 1,
    ensures
        events_sorted(insert_sorted(s, e)),
        intervals_positive(insert_sorted(s, e)),
        insert_sorted(s, e).len() == s.len() + 1,
{
    let t = e.next_run as int;
    let p = insert_pos(s, t, 0);
    lemma_insert_pos_props(s, t, 0);
    let s2 = insert_sorted(s, e);
    assert forall|i: int, j: int| 0 <= i < j < s2.len() implies (#[trigger] s2[i]).next_run <= (
    #[trigger] s2[j]).next_run by {
        if i < p && j < p {
        } else if i < p && j == p {
        } else if i < p && j > p {
        } else if i == p {
            if j > p {
                assert(s2[j] == s[j - 1]);
            }
        } else {
        }
    }
    assert forall|i: int| 0 <= i < s2.len() implies (#[trigger] s2[i]).interval >= 1 by {
        if i < p {
            assert(s2[i] == s[i]);
        } else if i > p {
            assert(s2[i] == s[i - 1]);
        }
    }
}

/// Re-arming a whole due list keeps the rest sorted and all intervals
/// positive.
proof fn lemma_rearm_loop_wf(due: Seq<RegularEvent>, rest: Seq<RegularEvent>)
    requires
        events_sorted(rest),
        intervals_positive(rest),
        intervals_positive(due),
    ensures
        events_sorted(rearm_loop(due, rest)),
        intervals_positive(rearm_loop(due, rest)),
        rearm_loop(due, rest).len() == due.len() + rest.len(),
    decreases due.len(),
{
    if due.len() > 0 {
        let e = advance_event(due.first());
        lemma_insert_sorted_wf(rest, e);
        assert(intervals_positive(due.drop_first())) by {
            assert(forall|i: int|
                0 <= i < due.drop_first().len() ==> (#[trigger] due.drop_first()[i]) == due[
                    i + 1
                ]);
        }
        lemma_rearm_loop_wf(due.drop_first(), insert_sorted(rest, e));
    }
}

impl EventLoopState {
    /// Record that external work will eventually enqueue a callback.
    pub fn promise(&mut self)
        requires
            old(self).promised < i32::MAX,
        ensures
            final(self).one_time@ == old(self).one_time@,
            final(self).regular@ == old(self).regular@,
            final(self).promised == old(self).promised + 1,
    {
        self.promised = self.promised + 1;
    }

    /// Take back one `promise` without enqueuing a callback.
    pub fn resolve_promise(&mut self)
        requires
            old(self).promised > i32::MIN,
        ensures
            final(self).one_time@ == old(self).one_time@,
            final(self).regular@ == old(self).regular@,
            final(self).promised == old(self).promised - 1,
    {
        self.promised = self.promised - 1;
    }

    /// Enqueue a one-shot callback and wake a waiter (the wakeup itself is
    /// the embedding program's).
    pub fn run_once(&mut self, callback: u64)
        ensures
            final(self).one_time@ == old(self).one_time@.push(callback),
            final(self).regular@ == old(self).regular@,
            final(self).promised == old(self).promised,
    {
        self.one_time.push(callback);
    }

    /// Enqueue the callback an earlier `promise` announced.
    pub fn run_promised(&mut self, callback: u64)
        requires
            old(self).promised > i32::MIN,
        ensures
            final(self).one_time@ == old(self).one_time@.push(callback),
            final(self).regular@ == old(self).regular@,
            final(self).promised == old(self).promised - 1,
    {
        self.one_time.push(callback);
        self.promised = self.promised - 1;
    }

    /// Schedule a repeating callback under the given event id: the interval
    /// clamps to at least one millisecond (a shorter one would keep the
    /// event perpetually due and make the progress loop spin), the first
    /// run is one interval from `now_ms`, and the event enters the sorted
    /// list after any event already due at the same time.
    pub fn repeat_with_id(&mut self, id: u64, callback: u64, interval_ms: i32, now_ms: i64)
        requires
            old(self).wf(),
            0 <= now_ms,
            now_ms + i32::MAX < i64::MAX,
        ensures
            final(self).wf(),
            final(self).one_time@ == old(self).one_time@,
            final(self).promised == old(self).promised,
            ({
                let iv = if interval_ms < 1 { 1int } else { interval_ms as int };
                let ev = RegularEvent {
                    id,
                    next_run: (now_ms + iv) as i64,
                    interval: iv as i64,
                    callback,
                };
                final(self).regular@ == insert_sorted(old(self).regular@, ev)
            }),
    {
        let iv: i64 = if interval_ms < 1 { 1 } else { interval_ms as i64 };
        let ev = RegularEvent { id, next_run: now_ms + iv, interval: iv, callback };
        let ghost evg = ev;
        let n = self.regular.len();
        let mut p: usize = 0;
        while p < n && self.regular[p].next_run <= ev.next_run
            invariant
                n == self.regular@.len(),
                0 <= p <= n,
                old(self) == self,
                evg == ev,
                insert_pos(self.regular@, ev.next_run as int, 0) == insert_pos(
                    self.regular@,
                    ev.next_run as int,
                    p as int,
                ),
            decreases n - p,
        {
            proof {
                assert(insert_pos(self.regular@, ev.next_run as int, p as int) == insert_pos(
                    self.regular@,
                    ev.next_run as int,
                    p as int + 1,
                ));
            }
            p = p + 1;
        }
        proof {
            lemma_insert_sorted_wf(self.regular@, ev);
        }
        self.regular.insert(p, ev);
    }

    /// Remove the repeating event with the given id, if present.
    pub fn cancel(&mut self, event_id: u64)
        requires
            old(self).wf(),
        ensures
            final(self).wf(),
            final(self).one_time@ == old(self).one_time@,
            final(self).promised == old(self).promised,
            final(self).regular@ == old(self).regular@.filter(
                |e: RegularEvent| e.id != event_id,
            ),
    {
        let ghost orig = self.regular@;
        let n = self.regular.len();
        let mut out: Vec<RegularEvent> = Vec::new();
        let mut i: usize = 0;
        proof {
            assert(orig.take(0).filter(|e: RegularEvent| e.id != event_id) =~= Seq::<
                RegularEvent,
            >::empty());
        }
        while i < n
            invariant
                n == orig.len(),
                orig == self.regular@,
                old(self) == self,
                old(self).wf(),
                0 <= i <= n,
                out@ == orig.take(i as int).filter(|e: RegularEvent| e.id != event_id),
                forall|a: int, b: int|
                    0 <= a < b < out@.len() ==> (#[trigger] out@[a]).next_run <= (
                    #[trigger] out@[b]).next_run,
                forall|a: int| 0 <= a < out@.len() ==> (#[trigger] out@[a]).interval >= 1,
                forall|a: int|
                    0 <= a < out@.len() ==> (exists|b: int|
                        0 <= b < i && (#[trigger] out@[a]) == orig[b]),
            decreases n - i,
        {
            let keep = self.regular[i].id != event_id;
            proof {
                assert(orig.take(i + 1 as int).drop_last() =~= orig.take(i as int));
                assert(orig.take(i + 1 as int).last() == orig[i as int]);
                reveal_with_fuel(Seq::filter, 2);
            }
            if keep {
                let e = self.regular[i].clone();
                out.push(e);
                proof {
                    assert forall|a: int| 0 <= a < out@.len() implies (exists|b: int|
                        0 <= b < i + 1 && (#[trigger] out@[a]) == orig[b]) by {
                        if a < out@.len() - 1 {
                            assert(exists|b: int| 0 <= b < i && out@[a] == orig[b]);
                        } else {
                            assert(out@[a] == orig[i as int]);
                        }
                    }
                }
            }
            i = i + 1;
        }
        proof {
            assert(orig.take(n as int) =~= orig);
        }
        self.regular = out;
    }

    /// One firing round at time `now_ms`: every event due at `now_ms` is
    /// removed in due order, its callback queued for the caller to run, and
    /// the event re-armed one interval later; then every queued one-shot
    /// callback is appended. The report says whether anything ran, and
    /// otherwise what to wait for.
    ///
    /// A round fires each due event once. An event still due after
    /// re-arming (one several intervals behind) is not re-examined within
    /// the same round; the round then reports that work ran, and the
    /// driving loop calls the next round immediately, so the event catches
    /// up one firing per round rather than all at once inside one call.
    pub fn progress(&mut self, now_ms: i64) -> (r: (Vec<u64>, Progress))
        requires
            old(self).wf(),
        ensures
            final(self).wf(),
            final(self).promised == old(self).promised,
            final(self).one_time@ == Seq::<u64>::empty(),
            ({
                let k = due_from(old(self).regular@, now_ms as int, 0);
                let due = old(self).regular@.take(k);
                let rest = old(self).regular@.skip(k);
                &&& final(self).regular@ == rearm_loop(due, rest)
                &&& r.0@ == Seq::new(k as nat, |i: int| old(self).regular@[i].callback) + old(self).one_time@
                &&& r.1 == (if r.0@.len() > 0 {
                    Progress::Now
                } else if final(self).regular@.len() > 0 {
                    Progress::At(final(self).regular@[0].next_run)
                } else if old(self).promised > 0 {
                    Progress::AnyTime
                } else {
                    Progress::Never
                })
            }),
    {
        let ghost orig = self.regular@;
        let ghost nowg = now_ms as int;
        let n = self.regular.len();
        let mut k: usize = 0;
        while k < n && self.regular[k].next_run <= now_ms
            invariant
                n == self.regular@.len(),
                orig == self.regular@,
                old(self) == self,
                0 <= k <= n,
                nowg == now_ms as int,
                due_from(orig, nowg, 0) == due_from(orig, nowg, k as int),
                forall|i: int| 0 <= i < k ==> (#[trigger] orig[i]).next_run <= nowg,
            decreases n - k,
        {
            proof {
                assert(orig[k as int].next_run <= nowg);
                assert(due_from(orig, nowg, k as int) == due_from(orig, nowg, k as int + 1));
            }
            k = k + 1;
        }
        proof {
            assert(due_from(orig, nowg, k as int) == k as int);
        }
        let ghost due = orig.take(k as int);
        let ghost rest = orig.skip(k as int);
        let mut to_run: Vec<u64> = Vec::new();
        let mut fired: Vec<RegularEvent> = Vec::new();
        let mut j: usize = 0;
        while j < k
            invariant
                0 <= j <= k <= n,
                n == orig.len(),
                old(self).one_time == self.one_time,
                old(self).promised == self.promised,
                due == orig.take(k as int),
                self.regular@ == orig.skip(j as int),
                fired@ == orig.take(j as int),
                to_run@ == Seq::new(j as nat, |i: int| orig[i].callback),
            decreases k - j,
        {
            let e = self.regular.remove(0);
            to_run.push(e.callback);
            fired.push(e);
            proof {
                assert(orig.skip(j as int).remove(0) =~= orig.skip(j + 1 as int));
                assert(fired@ =~= orig.take(j + 1 as int));
                assert(to_run@ =~= Seq::new((j + 1) as nat, |i: int| orig[i].callback));
            }
            j = j + 1;
        }
        proof {
            assert(self.regular@ == rest);
            assert(events_sorted(rest)) by {
                assert(forall|a: int, b: int|
                    0 <= a < b < rest.len() ==> rest[a] == orig[a + k] && rest[b] == orig[
                        b + k
                    ]);
            }
            assert(intervals_positive(rest)) by {
                assert(forall|a: int| 0 <= a < rest.len() ==> rest[a] == orig[a + k]);
            }
            assert(intervals_positive(due)) by {
                assert(forall|a: int| 0 <= a < due.len() ==> due[a] == orig[a]);
            }
            assert(due.skip(0) =~= due);
        }
        let mut m: usize = 0;
        while m < k
            invariant
                0 <= m <= k,
                due == orig.take(k as int),
                k as int <= orig.len(),
                old(self).one_time == self.one_time,
                old(self).promised == self.promised,
                events_sorted(self.regular@),
                intervals_positive(self.regular@),
                intervals_positive(due),
                due.len() == k,
                fired@ == due,
                rearm_loop(due.skip(m as int), self.regular@) == rearm_loop(due, rest),
            decreases k - m,
        {
            let e0 = &fired[m];
            proof {
                assert(due[m as int].interval >= 1);
            }
            let next2: i64 = if e0.next_run > i64::MAX - e0.interval {
                i64::MAX
            } else {
                e0.next_run + e0.interval
            };
            let e2 = RegularEvent {
                id: e0.id,
                next_run: next2,
                interval: e0.interval,
                callback: e0.callback,
            };
            proof {
                assert(due.skip(m as int).first() == due[m as int]);
                assert(e2 == advance_event(due.skip(m as int).first()));
            }
            let ghost before = self.regular@;
            let nr = self.regular.len();
            let mut p: usize = 0;
            while p < nr && self.regular[p].next_run <= e2.next_run
                invariant
                    nr == self.regular@.len(),
                    before == self.regular@,
                    0 <= p <= nr,
                    insert_pos(self.regular@, e2.next_run as int, 0) == insert_pos(
                        self.regular@,
                        e2.next_run as int,
                        p as int,
                    ),
                decreases nr - p,
            {
                proof {
                    assert(insert_pos(before, e2.next_run as int, p as int) == insert_pos(
                        before,
                        e2.next_run as int,
                        p as int + 1,
                    ));
                }
                p = p + 1;
            }
            proof {
                assert(insert_pos(before, e2.next_run as int, p as int) == p as int);
                lemma_insert_sorted_wf(self.regular@, e2);
            }
            self.regular.insert(p, e2);
            proof {
                assert(self.regular@ == insert_sorted(before, e2));
                assert(due.skip(m as int).drop_first() =~= due.skip(m + 1 as int));
            }
            m = m + 1;
        }
        proof {
            assert(due.skip(k as int) =~= Seq::<RegularEvent>::empty());
            assert(self.regular@ == rearm_loop(due, rest));
        }
        to_run.append(&mut self.one_time);
        let verdict = if to_run.len() > 0 {
            Progress::Now
        } else if self.regular.len() > 0 {
            Progress::At(self.regular[0].next_run)
        } else if self.promised > 0 {
            Progress::AnyTime
        } else {
            Progress::Never
        };
        proof {
            assert(to_run@ =~= Seq::new(k as nat, |i: int| orig[i].callback) + old(self).one_time@);
        }
        (to_run, verdict)
    }

    /// Whether a wait is worthwhile at `now_ms`: `false` when nothing is
    /// pending at all, `true` at once when something is already due, and
    /// otherwise the caller should block until woken or timed out.
    pub fn wait_state(&self, now_ms: i64) -> (r: WaitState)
        ensures
            ({
                let nothing = self.one_time@.len() == 0 && self.regular@.len() == 0
                    && self.promised <= 0;
                let ready = self.one_time@.len() > 0 || (self.regular@.len() > 0
                    && self.regular@[0].next_run <= now_ms);
                if nothing {
                    r is NoWork
                } else if ready {
                    r is ReadyNow
                } else {
                    r is ShouldBlock
                }
            }),
    {
        let has_one = self.one_time.len() > 0;
        let has_reg = self.regular.len() > 0;
        if !has_one && !has_reg && self.promised <= 0 {
            WaitState::NoWork
        } else if has_one || (has_reg && self.regular[0].next_run <= now_ms) {
            WaitState::ReadyNow
        } else {
            WaitState::ShouldBlock
        }
    }
}

/// What `wait` decides before any blocking: nothing is pending (report
/// failure), work is already available (report success), or the caller
/// should block until woken or timed out.
#[derive(Debug)]
pub enum WaitState {
    NoWork,
    ReadyNow,
    ShouldBlock,
}

impl Registry {
    /// What stays the same when one thread's scheduler steps: the entry at
    /// `j` keeps its id and mailbox, everything else is untouched.
    pub open spec fn events_step_at(&self, new: Registry, j: int, tid: i32) -> bool {
        &&& new@ == self@.update(
            j,
            (tid, ThreadRecord { mailbox: self@[j].1.mailbox, events: new@[j].1.events }),
        )
        &&& new.next_tid_spec() == self.next_tid_spec()
    }

    /// Record a promised completion on `tid`'s loop.
    pub fn event_loop_promise(&mut self, tid: i32) -> (r: Result<(), HxError>)
        requires
            old(self).wf(),
            registry_lookup(old(self)@, tid) matches Some(rec) ==> rec.events.promised
                < i32::MAX,
        ensures
            final(self).wf(),
            final(self).next_event_id_spec() == old(self).next_event_id_spec(),
            ({
                let j = tid_index(old(self)@, tid, 0);
                if j == -1 {
                    (r matches Err(e) && e == HxError::ThreadNotAlive) && final(self)@ == old(self)@ && final(self).next_tid_spec() == old(self).next_tid_spec()
                } else {
                    let ev0 = old(self)@[j].1.events;
                    let ev1 = final(self)@[j].1.events;
                    &&& r is Ok
                    &&& old(self).events_step_at(*final(self), j, tid)
                    &&& ev1.one_time@ == ev0.one_time@
                    &&& ev1.regular@ == ev0.regular@
                    &&& ev1.promised == ev0.promised + 1
                }
            }),
    {
        match self.find(tid) {
            None => Err(HxError::ThreadNotAlive),
            Some(i) => {
                proof {
                    lemma_tid_index_props(self@, tid, 0);
                    assert(registry_lookup(self@, tid) == Some(self@[i as int].1));
                }
                let entry = &mut self.threads[i];
                entry.1.events.promise();
                proof {
                    let j = tid_index(old(self)@, tid, 0);
                    assert(self@ =~= old(self)@.update(
                        j,
                        (
                            tid,
                            ThreadRecord {
                                mailbox: old(self)@[j].1.mailbox,
                                events: self@[j].1.events,
                            },
                        ),
                    ));
                }
                Ok(())
            },
        }
    }

    /// Enqueue a one-shot callback on `tid`'s loop and wake a waiter.
    pub fn event_loop_run(&mut self, tid: i32, callback: u64) -> (r: Result<(), HxError>)
        requires
            old(self).wf(),
        ensures
            final(self).wf(),
            final(self).next_event_id_spec() == old(self).next_event_id_spec(),
            ({
                let j = tid_index(old(self)@, tid, 0);
                if j == -1 {
                    (r matches Err(e) && e == HxError::ThreadNotAlive) && final(self)@ == old(self)@ && final(self).next_tid_spec() == old(self).next_tid_spec()
                } else {
                    let ev0 = old(self)@[j].1.events;
                    let ev1 = final(self)@[j].1.events;
                    &&& r is Ok
                    &&& old(self).events_step_at(*final(self), j, tid)
                    &&& ev1.one_time@ == ev0.one_time@.push(callback)
                    &&& ev1.regular@ == ev0.regular@
                    &&& ev1.promised == ev0.promised
                }
            }),
    {
        match self.find(tid) {
            None => Err(HxError::ThreadNotAlive),
            Some(i) => {
                let entry = &mut self.threads[i];
                entry.1.events.run_once(callback);
                proof {
                    let j = tid_index(old(self)@, tid, 0);
                    assert(self@ =~= old(self)@.update(
                        j,
                        (
                            tid,
                            ThreadRecord {
                                mailbox: old(self)@[j].1.mailbox,
                                events: self@[j].1.events,
                            },
                        ),
                    ));
                }
                Ok(())
            },
        }
    }

    /// Enqueue the callback an earlier `promise` announced.
    pub fn event_loop_run_promised(&mut self, tid: i32, callback: u64) -> (r: Result<
        (),
        HxError,
    >)
        requires
            old(self).wf(),
            registry_lookup(old(self)@, tid) matches Some(rec) ==> rec.events.promised
                > i32::MIN,
        ensures
            final(self).wf(),
            final(self).next_event_id_spec() == old(self).next_event_id_spec(),
            ({
                let j = tid_index(old(self)@, tid, 0);
                if j == -1 {
                    (r matches Err(e) && e == HxError::ThreadNotAlive) && final(self)@ == old(self)@ && final(self).next_tid_spec() == old(self).next_tid_spec()
                } else {
                    let ev0 = old(self)@[j].1.events;
                    let ev1 = final(self)@[j].1.events;
                    &&& r is Ok
                    &&& old(self).events_step_at(*final(self), j, tid)
                    &&& ev1.one_time@ == ev0.one_time@.push(callback)
                    &&& ev1.regular@ == ev0.regular@
                    &&& ev1.promised == ev0.promised - 1
                }
            }),
    {
        match self.find(tid) {
            None => Err(HxError::ThreadNotAlive),
            Some(i) => {
                proof {
                    lemma_tid_index_props(self@, tid, 0);
                    assert(registry_lookup(self@, tid) == Some(self@[i as int].1));
                }
                let entry = &mut self.threads[i];
                entry.1.events.run_promised(callback);
                proof {
                    let j = tid_index(old(self)@, tid, 0);
                    assert(self@ =~= old(self)@.update(
                        j,
                        (
                            tid,
                            ThreadRecord {
                                mailbox: old(self)@[j].1.mailbox,
                                events: self@[j].1.events,
                            },
                        ),
                    ));
                }
                Ok(())
            },
        }
    }

    /// Schedule a repeating callback on `tid`'s loop; returns the fresh
    /// event id for `event_loop_cancel`.
    pub fn event_loop_repeat(&mut self, tid: i32, callback: u64, interval_ms: i32, now_ms:
        i64) -> (r: Result<i32, HxError>)
        requires
            old(self).wf(),
            0 <= now_ms,
            now_ms + i32::MAX < i64::MAX,
            0 < old(self).next_event_id_spec() <= i32::MAX,
        ensures
            final(self).wf(),
            ({
                let j = tid_index(old(self)@, tid, 0);
                if j == -1 {
                    (r matches Err(e) && e == HxError::ThreadNotAlive) && final(self)@ == old(self)@ && final(self).next_tid_spec() == old(self).next_tid_spec() && final(self).next_event_id_spec() == old(self).next_event_id_spec()
                } else {
                    let ev0 = old(self)@[j].1.events;
                    let ev1 = final(self)@[j].1.events;
                    let iv = if interval_ms < 1 { 1int } else { interval_ms as int };
                    &&& r matches Ok(id) && id as int == old(self).next_event_id_spec()
                    &&& final(self).next_event_id_spec() == old(self).next_event_id_spec() + 1
                    &&& old(self).events_step_at(*final(self), j, tid)
                    &&& ev1.one_time@ == ev0.one_time@
                    &&& ev1.promised == ev0.promised
                    &&& ev1.regular@ == insert_sorted(
                        ev0.regular@,
                        RegularEvent {
                            id: old(self).next_event_id_spec() as u64,
                            next_run: (now_ms + iv) as i64,
                            interval: iv as i64,
                            callback,
                        },
                    )
                }
            }),
    {
        match self.find(tid) {
            None => Err(HxError::ThreadNotAlive),
            Some(i) => {
                proof {
                    lemma_tid_index_props(self@, tid, 0);
                }
                let id = self.next_event_id;
                self.next_event_id = self.next_event_id + 1;
                let entry = &mut self.threads[i];
                entry.1.events.repeat_with_id(id, callback, interval_ms, now_ms);
                proof {
                    let j = tid_index(old(self)@, tid, 0);
                    assert(self@ =~= old(self)@.update(
                        j,
                        (
                            tid,
                            ThreadRecord {
                                mailbox: old(self)@[j].1.mailbox,
                                events: self@[j].1.events,
                            },
                        ),
                    ));
                }
                Ok(#[verifier::truncate] (id as i32))
            },
        }
    }

    /// Remove a repeating event from `tid`'s loop, if present.
    pub fn event_loop_cancel(&mut self, tid: i32, event_id: i32) -> (r: Result<(), HxError>)
        requires
            old(self).wf(),
            event_id >= 0,
        ensures
            final(self).wf(),
            final(self).next_event_id_spec() == old(self).next_event_id_spec(),
            ({
                let j = tid_index(old(self)@, tid, 0);
                if j == -1 {
                    (r matches Err(e) && e == HxError::ThreadNotAlive) && final(self)@ == old(self)@ && final(self).next_tid_spec() == old(self).next_tid_spec()
                } else {
                    let ev0 = old(self)@[j].1.events;
                    let ev1 = final(self)@[j].1.events;
                    &&& r is Ok
                    &&& old(self).events_step_at(*final(self), j, tid)
                    &&& ev1.one_time@ == ev0.one_time@
                    &&& ev1.promised == ev0.promised
                    &&& ev1.regular@ == ev0.regular@.filter(
                        |e: RegularEvent| e.id != event_id as u64,
                    )
                }
            }),
    {
        match self.find(tid) {
            None => Err(HxError::ThreadNotAlive),
            Some(i) => {
                let entry = &mut self.threads[i];
                entry.1.events.cancel(event_id as u64);
                proof {
                    let j = tid_index(old(self)@, tid, 0);
                    assert(self@ =~= old(self)@.update(
                        j,
                        (
                            tid,
                            ThreadRecord {
                                mailbox: old(self)@[j].1.mailbox,
                                events: self@[j].1.events,
                            },
                        ),
                    ));
                }
                Ok(())
            },
        }
    }

    /// One firing round of `tid`'s loop at `now_ms`; see
    /// `EventLoopState::progress` (each due event fires once per round; a
    /// behind-schedule event catches up across consecutive rounds). The
    /// returned callbacks are run by the embedding program, in order.
    pub fn event_loop_progress(&mut self, tid: i32, now_ms: i64) -> (r: Result<
        (Vec<u64>, Progress),
        HxError,
    >)
        requires
            old(self).wf(),
        ensures
            final(self).wf(),
            final(self).next_event_id_spec() == old(self).next_event_id_spec(),
            ({
                let j = tid_index(old(self)@, tid, 0);
                if j == -1 {
                    (r matches Err(e) && e == HxError::ThreadNotAlive) && final(self)@ == old(self)@ && final(self).next_tid_spec() == old(self).next_tid_spec()
                } else {
                    let ev0 = old(self)@[j].1.events;
                    let ev1 = final(self)@[j].1.events;
                    let k = due_from(ev0.regular@, now_ms as int, 0);
                    &&& r matches Ok(out)
                    &&& old(self).events_step_at(*final(self), j, tid)
                    &&& ev1.promised == ev0.promised
                    &&& ev1.one_time@ == Seq::<u64>::empty()
                    &&& ev1.regular@ == rearm_loop(ev0.regular@.take(k), ev0.regular@.skip(k))
                    &&& (r matches Ok(out) ==> {
                        &&& out.0@ == Seq::new(k as nat, |i: int| ev0.regular@[i].callback)
                            + ev0.one_time@
                        &&& out.1 == (if out.0@.len() > 0 {
                            Progress::Now
                        } else if ev1.regular@.len() > 0 {
                            Progress::At(ev1.regular@[0].next_run)
                        } else if ev0.promised > 0 {
                            Progress::AnyTime
                        } else {
                            Progress::Never
                        })
                    })
                }
            }),
    {
        match self.find(tid) {
            None => Err(HxError::ThreadNotAlive),
            Some(i) => {
                proof {
                    lemma_tid_index_props(self@, tid, 0);
                }
                let entry = &mut self.threads[i];
                let out = entry.1.events.progress(now_ms);
                proof {
                    let j = tid_index(old(self)@, tid, 0);
                    assert(self@ =~= old(self)@.update(
                        j,
                        (
                            tid,
                            ThreadRecord {
                                mailbox: old(self)@[j].1.mailbox,
                                events: self@[j].1.events,
                            },
                        ),
                    ));
                }
                Ok(out)
            },
        }
    }

    /// Whether a wait on `tid`'s loop is worthwhile at `now_ms`; see
    /// `EventLoopState::wait_state`.
    pub fn event_loop_wait(&self, tid: i32, now_ms: i64) -> (r: Result<WaitState, HxError>)
        ensures
            ({
                let j = tid_index(self@, tid, 0);
                if j == -1 {
                    r matches Err(e) && e == HxError::ThreadNotAlive
                } else {
                    let ev = self@[j].1.events;
                    let nothing = ev.one_time@.len() == 0 && ev.regular@.len() == 0
                        && ev.promised <= 0;
                    let ready = ev.one_time@.len() > 0 || (ev.regular@.len() > 0
                        && ev.regular@[0].next_run <= now_ms);
                    r matches Ok(w) && (if nothing {
                        w is NoWork
                    } else if ready {
                        w is ReadyNow
                    } else {
                        w is ShouldBlock
                    })
                }
            }),
    {
        match self.find(tid) {
            None => Err(HxError::ThreadNotAlive),
            Some(i) => Ok(self.threads[i].1.events.wait_state(now_ms)),
        }
    }
}

/// Clamp law for repeating events: an interval of zero (or less) is
/// scheduled as one millisecond, so immediately after scheduling on an
/// otherwise idle loop nothing is due — a progress round at the same
/// instant runs nothing and reports the future time one millisecond ahead.
pub proof fn lemma_repeat_zero_interval_clamps(id: u64, callback: u64, now: int)
    requires
        0 <= now,
        now + 1 <= i64::MAX,
    ensures
        ({
            let ev = RegularEvent {
                id,
                next_run: (now + 1) as i64,
                interval: 1,
                callback,
            };
            let scheduled = insert_sorted(Seq::<RegularEvent>::empty(), ev);
            let k = due_from(scheduled, now, 0);
            &&& scheduled == seq![ev]
            &&& k == 0
            &&& scheduled.take(k) == Seq::<RegularEvent>::empty()
            &&& rearm_loop(scheduled.take(k), scheduled.skip(k)) == scheduled
            &&& scheduled[0].next_run > now
        }),
{
    let ev = RegularEvent { id, next_run: (now + 1) as i64, interval: 1, callback };
    let scheduled = insert_sorted(Seq::<RegularEvent>::empty(), ev);
    assert(scheduled =~= seq![ev]);
    assert(scheduled.take(0) =~= Seq::<RegularEvent>::empty());
    assert(scheduled.skip(0) =~= scheduled);
}

/// What the event-loop driver does after one `progress` round: run another
/// round at once, stop, block for at most the given milliseconds, or block
/// until woken.
#[derive(Debug)]
pub enum LoopAction {
    Continue,
    Stop,
    WaitFor(i64),
    WaitAny,
}

/// The drive policy of the event loop: progress again after work, stop when
/// nothing more is expected, sleep until the next due time, and wait for a
/// wakeup while only promised work remains.
pub fn loop_action(p: &Progress, now_ms: i64) -> (r: LoopAction)
    requires
        now_ms >= 0,
    ensures
        match *p {
            Progress::Now => r is Continue,
            Progress::Never => r is Stop,
            Progress::At(t) => (r matches LoopAction::WaitFor(d) && d as int == (if t > now_ms {
                t - now_ms
            } else {
                0int
            })),
            Progress::AnyTime => r is WaitAny,
        },
{
    match p {
        Progress::Now => LoopAction::Continue,
        Progress::Never => LoopAction::Stop,
        Progress::At(t) => LoopAction::WaitFor(if *t > now_ms { *t - now_ms } else { 0 }),
        Progress::AnyTime => LoopAction::WaitAny,
    }
}

} // verus!
