use vstd::prelude::*;

use crate::dynamic::Dynamic;

verus! {

/// The marker a throw hands to the unwinding machinery: only this small id
/// travels with the unwind, never the payload (payloads are arbitrary values
/// and not guaranteed transferable between threads).
#[derive(Debug)]
pub struct Thrown {
    pub id: u64,
}

impl Clone for Thrown {
    fn clone(&self) -> (res: Self)
        ensures
            res == *self,
    {
        Thrown { id: self.id }
    }
}

/// One thread's exception state: the next throw id, the at-most-one active
/// `(id, payload)` pair, and how many catch frames are open (while any is
/// open, fault reporting for the active id is suppressed).
pub struct ExceptionSlot {
    next_id: u64,
    active: Option<(u64, Dynamic)>,
    depth: u32,
}

/// The mathematical state of an exception slot.
pub struct SlotModel {
    pub next: int,
    pub active: Option<(int, Dynamic)>,
    pub depth: int,
}

impl View for ExceptionSlot {
    type V = SlotModel;

    closed spec fn view(&self) -> SlotModel {
        SlotModel {
            next: self.next_id as int,
            active: match self.active {
                Some((id, ref v)) => Some((id as int, *v)),
                None => None,
            },
            depth: self.depth as int,
        }
    }
}

/// What a throw does: allocate the next id, make `(id, value)` the active
/// pair, and leave the catch depth alone. The result is the new state and
/// the id carried by the unwind.
pub open spec fn throw_step(s: SlotModel, value: Dynamic) -> (SlotModel, int) {
    (SlotModel { next: s.next + 1, active: Some((s.next, value)), depth: s.depth }, s.next)
}

/// What claiming a carried id does: when it matches the active pair, the
/// payload is taken out and the slot returns to idle; any other id leaves
/// the slot untouched and recovers nothing (the unwind must keep
/// propagating).
pub open spec fn resolve_step(s: SlotModel, id: int) -> (SlotModel, Option<Dynamic>) {
    match s.active {
        Some((aid, v)) => if aid == id {
            (SlotModel { next: s.next, active: None, depth: s.depth }, Some(v))
        } else {
            (s, None)
        },
        None => (s, None),
    }
}

/// What a protected region hands to `catch_end`: its result, or the marker
/// of a throw that unwound out of it.
pub enum Caught<R> {
    /// The region returned normally.
    Returned(R),
    /// The region threw and this frame recovered the payload.
    Recovered(Dynamic),
    /// The region threw something this frame does not own; the unwind must
    /// continue.
    Propagate(Thrown),
}

impl ExceptionSlot {
    /// A fresh slot: ids start at 1, nothing is active, no frame is open.
    pub fn new() -> (s: ExceptionSlot)
        ensures
            s@.next == 1,
            s@.active is None,
            s@.depth == 0,
    {
        ExceptionSlot { next_id: 1, active: None, depth: 0 }
    }

    /// Throw `value`: store it as the active pair under a fresh id and
    /// return the marker the unwind carries.
    pub fn throw(&mut self, value: Dynamic) -> (t: Thrown)
        requires
            old(self)@.next < u64::MAX,
        ensures
            final(self)@ == throw_step(old(self)@, value).0,
            t.id as int == throw_step(old(self)@, value).1,
    {
        let id = self.next_id;
        self.next_id = self.next_id + 1;
        self.active = Some((id, value));
        Thrown { id }
    }

    /// Re-throw a previously recovered payload under a fresh id, handing it
    /// to the next enclosing catch frame.
    pub fn rethrow(&mut self, value: Dynamic) -> (t: Thrown)
        requires
            old(self)@.next < u64::MAX,
        ensures
            final(self)@ == throw_step(old(self)@, value).0,
            t.id as int == throw_step(old(self)@, value).1,
    {
        self.throw(value)
    }

    /// Open a catch frame; while any frame is open, fault reporting for the
    /// active id is suppressed.
    pub fn catch_begin(&mut self)
        requires
            old(self)@.depth < u32::MAX,
        ensures
            final(self)@.next == old(self)@.next,
            final(self)@.active == old(self)@.active,
            final(self)@.depth == old(self)@.depth + 1,
    {
        self.depth = self.depth + 1;
    }

    /// Close a catch frame and settle the region's outcome: a normal result
    /// passes through; a carried id matching the active pair takes the
    /// payload out; any other id propagates untouched.
    pub fn catch_end<R>(&mut self, outcome: Result<R, Thrown>) -> (r: Caught<R>)
        requires
            old(self)@.depth > 0,
        ensures
            final(self)@.next == old(self)@.next,
            final(self)@.depth == old(self)@.depth - 1,
            match outcome {
                Ok(v) => (r matches Caught::Returned(w) && w == v && final(self)@.active
                    == old(self)@.active),
                Err(t) => {
                    let (s2, got) = resolve_step(old(self)@, t.id as int);
                    match got {
                        Some(payload) => (r matches Caught::Recovered(p) && p == payload
                            && final(self)@.active == s2.active),
                        None => (r matches Caught::Propagate(t2) && t2 == t
                            && final(self)@.active == old(self)@.active),
                    }
                },
            },
    {
        self.depth = self.depth - 1;
        match outcome {
            Ok(v) => Caught::Returned(v),
            Err(t) => {
                let matches_active = match &self.active {
                    Some((aid, _)) => *aid == t.id,
                    None => false,
                };
                if matches_active {
                    let payload = match &self.active {
                        Some((_, payload)) => payload.clone(),
                        None => Dynamic::null(),
                    };
                    self.active = None;
                    Caught::Recovered(payload)
                } else {
                    Caught::Propagate(t)
                }
            },
        }
    }

    /// Whether a fault carrying `t` should be reported: a caught domain
    /// exception (some frame open, id matching the active pair) is silent.
    pub fn should_report(&self, t: &Thrown) -> (r: bool)
        ensures
            r == !(self@.depth > 0 && (self@.active matches Some((id, _)) && id == t.id as int)),
    {
        let suppressed = self.depth > 0 && (match &self.active {
            Some((aid, _)) => *aid == t.id,
            None => false,
        });
        !suppressed
    }

    /// How many catch frames are open.
    pub fn open_frames(&self) -> (d: u32)
        ensures
            d as int == self@.depth,
    {
        self.depth
    }

    /// Whether a throw is in flight and not yet claimed.
    pub fn has_active(&self) -> (r: bool)
        ensures
            r == (self@.active is Some),
    {
        self.active.is_some()
    }
}

/// Round-trip law: a throw immediately claimed by the frame that saw its
/// marker recovers exactly the thrown payload, and the slot returns to
/// idle.
pub proof fn lemma_throw_catch_round_trip(s: SlotModel, v: Dynamic)
    ensures
        ({
            let (s1, id) = throw_step(s, v);
            let (s2, got) = resolve_step(s1, id);
            got == Some(v) && s2.active is None && s2.next == s.next + 1
        }),
{
}

/// Nested-catch law: a payload recovered by an inner frame and re-thrown is
/// recovered, unchanged, by the outer frame that sees the new marker.
pub proof fn lemma_rethrow_reaches_outer(s: SlotModel, v: Dynamic)
    ensures
        ({
            let (s1, id1) = throw_step(s, v);
            let (s2, got1) = resolve_step(s1, id1);
            let (s3, id2) = throw_step(s2, v);
            let (s4, got2) = resolve_step(s3, id2);
            got1 == Some(v) && got2 == Some(v) && s4.active is None
        }),
{
}

/// A marker whose id does not match the active pair recovers nothing and
/// leaves the slot exactly as it was: the unwind keeps propagating.
pub proof fn lemma_unrelated_marker_propagates(s: SlotModel, id: int)
    requires
        !(s.active matches Some((aid, _)) && aid == id),
    ensures
        resolve_step(s, id) == (s, None::<Dynamic>),
{
}

} // verus!
