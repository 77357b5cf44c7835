use vstd::prelude::*;

use crate::HxError;

verus! {

/// What a bounded acquire attempt decided: the permit was taken, the attempt
/// failed immediately (no permit and a non-positive bound), or the caller
/// must block (for at most the bound, when there is one) and retry after a
/// wakeup.
#[derive(Debug)]
pub enum WaitOutcome {
    Ready,
    TimedOut,
    Block,
}

/// What an unbounded acquire attempt decided: taken, or the caller must
/// block and retry after a wakeup.
#[derive(Debug)]
pub enum AcquireOutcome {
    Acquired,
    WouldBlock,
}

/// Counting lock: `release` banks one permit, `wait` takes one. The count
/// starts at zero, so the lock starts taken.
pub struct LockHandle {
    count: i32,
}

/// The mathematical state of a lock: how many releases are banked.
pub struct LockModel {
    pub count: int,
}

impl View for LockHandle {
    type V = LockModel;

    closed spec fn view(&self) -> LockModel {
        LockModel { count: self.count as int }
    }
}

/// What one `wait` attempt does, given the optional timeout in
/// milliseconds: a banked permit is taken at once; with none, a non-positive
/// timeout fails immediately, and otherwise the caller must block.
pub open spec fn lock_wait_step(m: LockModel, timeout_ms: Option<int>) -> (LockModel, WaitOutcome) {
    if m.count > 0 {
        (LockModel { count: m.count - 1 }, WaitOutcome::Ready)
    } else {
        match timeout_ms {
            Some(t) => if t <= 0 {
                (m, WaitOutcome::TimedOut)
            } else {
                (m, WaitOutcome::Block)
            },
            None => (m, WaitOutcome::Block),
        }
    }
}

/// What `release` does: bank one permit.
pub open spec fn lock_release_step(m: LockModel) -> LockModel {
    LockModel { count: m.count + 1 }
}

impl LockHandle {
    /// A fresh lock, initially taken (no permit banked).
    pub fn new() -> (l: LockHandle)
        ensures
            l@.count == 0,
    {
        LockHandle { count: 0 }
    }

    /// One acquire attempt; on `Block` the caller waits for a release (or
    /// the timeout) and tries again.
    pub fn wait(&mut self, timeout_ms: Option<i64>) -> (r: WaitOutcome)
        ensures
            final(self)@ == lock_wait_step(
                old(self)@,
                match timeout_ms { Some(t) => Some(t as int), None => None },
            ).0,
            r == lock_wait_step(
                old(self)@,
                match timeout_ms { Some(t) => Some(t as int), None => None },
            ).1,
    {
        if self.count > 0 {
            self.count = self.count - 1;
            WaitOutcome::Ready
        } else {
            match timeout_ms {
                Some(t) => if t <= 0 {
                    WaitOutcome::TimedOut
                } else {
                    WaitOutcome::Block
                },
                None => WaitOutcome::Block,
            }
        }
    }

    /// Bank one permit and wake one blocked waiter (the wakeup itself is the
    /// embedding program's).
    pub fn release(&mut self)
        requires
            old(self)@.count < i32::MAX,
        ensures
            final(self)@ == lock_release_step(old(self)@),
    {
        self.count = self.count + 1;
    }
}

/// Reentrant mutex: owned by at most one thread, which may re-acquire;
/// the depth counts its acquisitions not yet released.
pub struct MutexHandle {
    owner: Option<i32>,
    depth: u32,
}

/// The mathematical state of a reentrant mutex.
pub struct MutexModel {
    pub owner: Option<i32>,
    pub depth: int,
}

impl View for MutexHandle {
    type V = MutexModel;

    closed spec fn view(&self) -> MutexModel {
        MutexModel { owner: self.owner, depth: self.depth as int }
    }
}

/// What one acquire attempt by `tid` does: an unowned mutex is taken with
/// depth one; the owner re-enters, deepening by one; another thread's
/// attempt changes nothing and fails.
pub open spec fn mutex_acquire_step(m: MutexModel, tid: i32) -> (MutexModel, bool) {
    match m.owner {
        None => (MutexModel { owner: Some(tid), depth: 1 }, true),
        Some(o) => if o == tid {
            (MutexModel { owner: m.owner, depth: m.depth + 1 }, true)
        } else {
            (m, false)
        },
    }
}

/// What a release by `tid` does: the owner comes up one level, reaching the
/// unowned state exactly when acquisitions and releases balance; any other
/// caller fails with `MutexOwnershipViolation` and changes nothing.
pub open spec fn mutex_release_step(m: MutexModel, tid: i32) -> (MutexModel, Option<HxError>) {
    match m.owner {
        Some(o) => if o == tid {
            if m.depth <= 1 {
                (MutexModel { owner: None, depth: 0 }, None)
            } else {
                (MutexModel { owner: m.owner, depth: m.depth - 1 }, None)
            }
        } else {
            (m, Some(HxError::MutexOwnershipViolation))
        },
        None => (m, Some(HxError::MutexOwnershipViolation)),
    }
}

impl MutexHandle {
    /// A fresh, unowned mutex.
    pub fn new() -> (m: MutexHandle)
        ensures
            m@.owner is None,
            m@.depth == 0,
    {
        MutexHandle { owner: None, depth: 0 }
    }

    /// Non-blocking acquire attempt by thread `tid`.
    pub fn try_acquire(&mut self, tid: i32) -> (r: bool)
        requires
            old(self)@.depth < u32::MAX,
        ensures
            final(self)@ == mutex_acquire_step(old(self)@, tid).0,
            r == mutex_acquire_step(old(self)@, tid).1,
    {
        match self.owner {
            None => {
                self.owner = Some(tid);
                self.depth = 1;
                true
            },
            Some(o) => {
                if o == tid {
                    self.depth = self.depth + 1;
                    true
                } else {
                    false
                }
            },
        }
    }

    /// One acquire attempt by thread `tid`; on `WouldBlock` the caller
    /// waits until a release wakes it and tries again.
    pub fn acquire(&mut self, tid: i32) -> (r: AcquireOutcome)
        requires
            old(self)@.depth < u32::MAX,
        ensures
            final(self)@ == mutex_acquire_step(old(self)@, tid).0,
            mutex_acquire_step(old(self)@, tid).1 ==> r is Acquired,
            !mutex_acquire_step(old(self)@, tid).1 ==> r is WouldBlock,
    {
        if self.try_acquire(tid) {
            AcquireOutcome::Acquired
        } else {
            AcquireOutcome::WouldBlock
        }
    }

    /// Release by thread `tid`; a caller that does not own the mutex fails
    /// with `MutexOwnershipViolation`.
    pub fn release(&mut self, tid: i32) -> (r: Result<(), HxError>)
        ensures
            final(self)@ == mutex_release_step(old(self)@, tid).0,
            match mutex_release_step(old(self)@, tid).1 {
                None => r is Ok,
                Some(e) => r matches Err(e2) && e2 == e,
            },
    {
        match self.owner {
            Some(o) => {
                if o == tid {
                    if self.depth <= 1 {
                        self.owner = None;
                        self.depth = 0;
                        Ok(())
                    } else {
                        self.depth = self.depth - 1;
                        Ok(())
                    }
                } else {
                    Err(HxError::MutexOwnershipViolation)
                }
            },
            None => Err(HxError::MutexOwnershipViolation),
        }
    }

    /// The owning thread, if any.
    pub fn owner(&self) -> (r: Option<i32>)
        ensures
            r == self@.owner,
    {
        self.owner
    }

    /// How many acquisitions the owner has not yet released.
    pub fn depth(&self) -> (r: u32)
        ensures
            r as int == self@.depth,
    {
        self.depth
    }
}

/// Balance law for the reentrant mutex: on an unowned mutex, acquiring
/// twice from one thread and releasing twice returns it to exactly the
/// unowned state, and a third release fails with
/// `MutexOwnershipViolation`.
pub proof fn lemma_mutex_reentrant_balance(m0: MutexModel, tid: i32)
    requires
        m0.owner is None,
    ensures
        ({
            let (m1, ok1) = mutex_acquire_step(m0, tid);
            let (m2, ok2) = mutex_acquire_step(m1, tid);
            let (m3, e3) = mutex_release_step(m2, tid);
            let (m4, e4) = mutex_release_step(m3, tid);
            let (m5, e5) = mutex_release_step(m4, tid);
            &&& ok1 && ok2
            &&& m2.depth == 2
            &&& e3 is None && e4 is None
            &&& m4.owner is None && m4.depth == 0
            &&& e5 == Some(HxError::MutexOwnershipViolation) && m5 == m4
        }),
{
}

/// The mutex depth returns to zero exactly when acquisitions and releases
/// by the owner balance: each owner release decrements the depth by one and
/// clears the owner precisely at depth one.
pub proof fn lemma_mutex_release_depth(m: MutexModel, tid: i32)
    requires
        m.owner == Some(tid),
        m.depth >= 1,
    ensures
        ({
            let (m2, e) = mutex_release_step(m, tid);
            &&& e is None
            &&& m2.depth == m.depth - 1
            &&& (m2.owner is None <==> m.depth == 1)
        }),
{
}

/// Condition variable: an internal non-reentrant mutex plus a generation
/// counter bumped by every signal or broadcast.
pub struct ConditionHandle {
    locked_by: Option<i32>,
    generation: u64,
}

/// The mathematical state of a condition variable.
pub struct ConditionModel {
    pub locked_by: Option<i32>,
    pub generation: int,
}

impl View for ConditionHandle {
    type V = ConditionModel;

    closed spec fn view(&self) -> ConditionModel {
        ConditionModel { locked_by: self.locked_by, generation: self.generation as int }
    }
}

impl ConditionHandle {
    /// A fresh condition: internal mutex free, generation zero.
    pub fn new() -> (c: ConditionHandle)
        ensures
            c@.locked_by is None,
            c@.generation == 0,
    {
        ConditionHandle { locked_by: None, generation: 0 }
    }

    /// One attempt to take the internal mutex; the holder re-taking it
    /// succeeds without nesting.
    pub fn try_acquire(&mut self, tid: i32) -> (r: bool)
        ensures
            final(self)@.generation == old(self)@.generation,
            r == (old(self)@.locked_by is None || old(self)@.locked_by == Some(tid)),
            r ==> final(self)@.locked_by == Some(tid),
            !r ==> final(self)@.locked_by == old(self)@.locked_by,
    {
        match self.locked_by {
            None => {
                self.locked_by = Some(tid);
                true
            },
            Some(o) => {
                if o == tid {
                    true
                } else {
                    false
                }
            },
        }
    }

    /// One acquire attempt; on `WouldBlock` the caller waits for a release
    /// and tries again.
    pub fn acquire(&mut self, tid: i32) -> (r: AcquireOutcome)
        ensures
            final(self)@.generation == old(self)@.generation,
            (old(self)@.locked_by is None || old(self)@.locked_by == Some(tid)) ==> (
            r is Acquired && final(self)@.locked_by == Some(tid)),
            !(old(self)@.locked_by is None || old(self)@.locked_by == Some(tid)) ==> (
            r is WouldBlock && final(self)@.locked_by == old(self)@.locked_by),
    {
        if self.try_acquire(tid) {
            AcquireOutcome::Acquired
        } else {
            AcquireOutcome::WouldBlock
        }
    }

    /// Release the internal mutex; a caller that does not hold it fails
    /// with `MutexOwnershipViolation`.
    pub fn release(&mut self, tid: i32) -> (r: Result<(), HxError>)
        ensures
            final(self)@.generation == old(self)@.generation,
            old(self)@.locked_by == Some(tid) ==> (r is Ok && final(self)@.locked_by is None),
            old(self)@.locked_by != Some(tid) ==> (r matches Err(e) && e
                == HxError::MutexOwnershipViolation && final(self)@ == old(self)@),
    {
        if match self.locked_by {
            Some(o) => o == tid,
            None => false,
        } {
            self.locked_by = None;
            Ok(())
        } else {
            Err(HxError::MutexOwnershipViolation)
        }
    }

    /// Start waiting: the caller must hold the internal mutex (else
    /// `MutexOwnershipViolation`); the mutex is released and the current
    /// generation recorded, to be compared by `wait_ready` after wakeups.
    pub fn wait_begin(&mut self, tid: i32) -> (r: Result<u64, HxError>)
        ensures
            final(self)@.generation == old(self)@.generation,
            old(self)@.locked_by == Some(tid) ==> (r matches Ok(g) && g as int == old(
                self,
            )@.generation && final(self)@.locked_by is None),
            old(self)@.locked_by != Some(tid) ==> (r matches Err(e) && e
                == HxError::MutexOwnershipViolation && final(self)@ == old(self)@),
    {
        if match self.locked_by {
            Some(o) => o == tid,
            None => false,
        } {
            self.locked_by = None;
            Ok(self.generation)
        } else {
            Err(HxError::MutexOwnershipViolation)
        }
    }

    /// Whether a waiter that recorded `recorded_generation` has been
    /// signalled since (it must then re-acquire the internal mutex before
    /// returning from its wait).
    pub fn wait_ready(&self, recorded_generation: u64) -> (r: bool)
        ensures
            r == (self@.generation != recorded_generation as int),
    {
        self.generation != recorded_generation
    }

    /// Wake one waiter: bump the generation.
    pub fn signal(&mut self)
        requires
            old(self)@.generation < u64::MAX,
        ensures
            final(self)@.locked_by == old(self)@.locked_by,
            final(self)@.generation == old(self)@.generation + 1,
    {
        self.generation = self.generation + 1;
    }

    /// Wake all waiters: bump the generation (waking everyone is the
    /// embedding program's).
    pub fn broadcast(&mut self)
        requires
            old(self)@.generation < u64::MAX,
        ensures
            final(self)@.locked_by == old(self)@.locked_by,
            final(self)@.generation == old(self)@.generation + 1,
    {
        self.generation = self.generation + 1;
    }
}

/// Counting semaphore, constructed with a non-negative number of permits.
pub struct SemaphoreHandle {
    permits: i32,
}

/// The mathematical state of a semaphore.
pub struct SemaphoreModel {
    pub permits: int,
}

impl View for SemaphoreHandle {
    type V = SemaphoreModel;

    closed spec fn view(&self) -> SemaphoreModel {
        SemaphoreModel { permits: self.permits as int }
    }
}

/// What one bounded acquire attempt does: a permit is taken at once; with
/// none, a missing or non-positive timeout fails immediately, and otherwise
/// the caller must block for at most the timeout.
pub open spec fn semaphore_try_step(m: SemaphoreModel, timeout_ms: Option<int>) -> (
    SemaphoreModel,
    WaitOutcome,
) {
    if m.permits > 0 {
        (SemaphoreModel { permits: m.permits - 1 }, WaitOutcome::Ready)
    } else {
        match timeout_ms {
            Some(t) => if t <= 0 {
                (m, WaitOutcome::TimedOut)
            } else {
                (m, WaitOutcome::Block)
            },
            None => (m, WaitOutcome::TimedOut),
        }
    }
}

/// What `release` does: bank one permit.
pub open spec fn semaphore_release_step(m: SemaphoreModel) -> SemaphoreModel {
    SemaphoreModel { permits: m.permits + 1 }
}

impl SemaphoreHandle {
    /// A fresh semaphore with `value` permits; a negative `value` clamps to
    /// zero.
    pub fn new(value: i32) -> (s: SemaphoreHandle)
        ensures
            s@.permits == (if value < 0 { 0int } else { value as int }),
    {
        SemaphoreHandle { permits: if value < 0 { 0 } else { value } }
    }

    /// One bounded acquire attempt; on `Block` the caller waits for a
    /// release (or the timeout) and tries again.
    pub fn try_acquire(&mut self, timeout_ms: Option<i64>) -> (r: WaitOutcome)
        ensures
            final(self)@ == semaphore_try_step(
                old(self)@,
                match timeout_ms { Some(t) => Some(t as int), None => None },
            ).0,
            r == semaphore_try_step(
                old(self)@,
                match timeout_ms { Some(t) => Some(t as int), None => None },
            ).1,
    {
        if self.permits > 0 {
            self.permits = self.permits - 1;
            WaitOutcome::Ready
        } else {
            match timeout_ms {
                Some(t) => if t <= 0 {
                    WaitOutcome::TimedOut
                } else {
                    WaitOutcome::Block
                },
                None => WaitOutcome::TimedOut,
            }
        }
    }

    /// One unbounded acquire attempt; on `WouldBlock` the caller waits for
    /// a release and tries again.
    pub fn acquire(&mut self) -> (r: AcquireOutcome)
        ensures
            old(self)@.permits > 0 ==> (r is Acquired && final(self)@.permits == old(
                self,
            )@.permits - 1),
            old(self)@.permits <= 0 ==> (r is WouldBlock && final(self)@ == old(self)@),
    {
        if self.permits > 0 {
            self.permits = self.permits - 1;
            AcquireOutcome::Acquired
        } else {
            AcquireOutcome::WouldBlock
        }
    }

    /// Bank one permit and wake one blocked waiter (the wakeup itself is
    /// the embedding program's).
    pub fn release(&mut self)
        requires
            old(self)@.permits < i32::MAX,
        ensures
            final(self)@ == semaphore_release_step(old(self)@),
    {
        self.permits = self.permits + 1;
    }
}

/// Immediate-failure law for bounded acquires: with no permit available and
/// a non-positive (or, for the semaphore, missing) timeout, the attempt
/// fails at once and changes nothing; and after one release the same
/// attempt takes the permit at once.
pub proof fn lemma_try_acquire_bounds(l: LockModel, s: SemaphoreModel, t: int)
    requires
        l.count == 0,
        s.permits == 0,
        t <= 0,
    ensures
        lock_wait_step(l, Some(t)) == (l, WaitOutcome::TimedOut),
        semaphore_try_step(s, Some(t)) == (s, WaitOutcome::TimedOut),
        semaphore_try_step(s, None) == (s, WaitOutcome::TimedOut),
        ({
            let l2 = lock_release_step(l);
            let s2 = semaphore_release_step(s);
            &&& lock_wait_step(l2, Some(t)).1 == WaitOutcome::Ready
            &&& lock_wait_step(l2, Some(t)).0.count == 0
            &&& semaphore_try_step(s2, Some(t)).1 == WaitOutcome::Ready
            &&& semaphore_try_step(s2, Some(t)).0.permits == 0
        }),
{
}

} // verus!
