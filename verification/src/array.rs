use vstd::prelude::*;

verus! {

use vstd::multiset::Multiset;
use vstd::std_specs::cmp::PartialEqSpec;

broadcast use {
    vstd::seq_lib::group_to_multiset_ensures,
    vstd::seq_lib::to_multiset_insert,
    vstd::multiset::group_multiset_axioms,
    vstd::multiset::lemma_multiset_empty_len,
};

/// `b` is an element-wise clone of `a`.
pub open spec fn cloned_seq<T: Clone>(a: Seq<T>, b: Seq<T>) -> bool {
    &&& b.len() == a.len()
    &&& forall|i: int| 0 <= i < a.len() ==> cloned(a[i], #[trigger] b[i])
}

/// Positional arguments wrap once when negative (by adding the length) and
/// are then clamped to `[0, len]`.
pub open spec fn wrap_clamp(pos: int, len: int) -> int {
    let p = if pos < 0 { pos + len } else { pos };
    if p < 0 { 0 } else if p > len { len } else { p }
}

/// The range `splice(pos, count)` removes from a sequence of length `len`:
/// `pos` wraps and clamps to `[0, len]`, `count` clamps to be non-negative,
/// and the end of the range clamps to `len`.
pub open spec fn splice_bounds(pos: int, count: int, len: int) -> (int, int) {
    let start = wrap_clamp(pos, len);
    let c = if count < 0 { 0 } else { count };
    let end = if start + c > len { len } else { start + c };
    (start, end)
}

/// The range `slice(pos, end)` copies out of a sequence of length `len`:
/// both bounds wrap and clamp to `[0, len]`, and an end before the start
/// yields the empty range.
pub open spec fn slice_bounds(pos: int, end: Option<int>, len: int) -> (int, int) {
    let start = wrap_clamp(pos, len);
    let e = wrap_clamp(match end { Some(x) => x, None => len }, len);
    if e < start { (start, start) } else { (start, e) }
}

/// Backing store for every shared sequence. Slot `i` holds the element list
/// of the handle with identity `i + 1`; identity `0` is reserved so that no
/// live sequence ever has the null identity.
///
/// Sharing works by construction: a handle is just an identity, so copying a
/// handle aliases the same slot, and a mutation through one handle is
/// observable through every handle with the same identity.
#[verifier::ext_equal]
pub struct ArrayStore<T> {
    slots: Vec<Vec<T>>,
}

/// Aliasing handle to one sequence in an `ArrayStore`. Cloning the handle
/// aliases the same storage; `copy` allocates an independent sequence.
#[derive(Debug)]
pub struct Array<T> {
    id: usize,
    phantom: core::marker::PhantomData<T>,
}

impl<T> View for ArrayStore<T> {
    type V = Seq<Seq<T>>;

    closed spec fn view(&self) -> Seq<Seq<T>> {
        self.slots@.map_values(|v: Vec<T>| v@)
    }
}

impl<T> Array<T> {
    /// Identity of the sequence this handle aliases.
    pub closed spec fn id_spec(&self) -> int {
        self.id as int
    }
}

impl<T> Clone for Array<T> {
    /// Cloning a handle aliases the same storage: the clone is the same
    /// handle.
    fn clone(&self) -> (res: Self)
        ensures
            res == *self,
    {
        Array { id: self.id, phantom: core::marker::PhantomData }
    }
}

impl<T> ArrayStore<T> {
    /// A handle is valid when its identity names a slot of this store.
    pub open spec fn valid(&self, a: Array<T>) -> bool {
        1 <= a.id_spec() <= self@.len()
    }

    /// The elements currently aliased by the handle `a`.
    pub open spec fn seq_of(&self, a: Array<T>) -> Seq<T>
        recommends
            self.valid(a),
    {
        self@[a.id_spec() - 1]
    }

    pub fn new() -> (st: ArrayStore<T>)
        ensures
            st@ == Seq::<Seq<T>>::empty(),
    {
        let st = ArrayStore { slots: Vec::new() };
        proof {
            assert(st@ =~= Seq::<Seq<T>>::empty());
        }
        st
    }
}

impl<T> Array<T> {
    /// Allocate a fresh, empty sequence; the returned handle is distinct from
    /// every handle that was valid before.
    pub fn new(st: &mut ArrayStore<T>) -> (a: Array<T>)
        requires
            old(st)@.len() < usize::MAX,
        ensures
            final(st)@ == old(st)@.push(Seq::<T>::empty()),
            a.id_spec() == old(st)@.len() + 1,
            final(st).valid(a),
            final(st).seq_of(a) == Seq::<T>::empty(),
    {
        Array::from_vec(st, Vec::new())
    }

    /// Allocate a fresh sequence holding the elements of `vec`.
    pub fn from_vec(st: &mut ArrayStore<T>, vec: Vec<T>) -> (a: Array<T>)
        requires
            old(st)@.len() < usize::MAX,
        ensures
            final(st)@ == old(st)@.push(vec@),
            a.id_spec() == old(st)@.len() + 1,
            final(st).valid(a),
            final(st).seq_of(a) == vec@,
    {
        let id = st.slots.len() + 1;
        st.slots.push(vec);
        let a = Array { id, phantom: core::marker::PhantomData };
        proof {
            assert(st@ =~= old(st)@.push(vec@));
        }
        a
    }

    /// Whether this handle names a live sequence of `st`.
    pub fn is_valid_in(&self, st: &ArrayStore<T>) -> (r: bool)
        ensures
            r == st.valid(*self),
    {
        self.id >= 1 && self.id <= st.slots.len()
    }

    /// The identity as the backing slot number plus one.
    pub(crate) fn id_usize(&self) -> (r: usize)
        ensures
            r as int == self.id_spec(),
    {
        self.id
    }

    /// Borrow all elements as one slice.
    pub fn read_slice<'a>(&self, st: &'a ArrayStore<T>) -> (r: &'a [T])
        requires
            st.valid(*self),
        ensures
            r@ == st.seq_of(*self),
    {
        st.slots[self.id - 1].as_slice()
    }

    /// Borrow the element at `index`.
    pub fn read_at<'a>(&self, st: &'a ArrayStore<T>, index: usize) -> (r: &'a T)
        requires
            st.valid(*self),
            index < st.seq_of(*self).len(),
        ensures
            *r == st.seq_of(*self)[index as int],
    {
        &st.slots[self.id - 1][index]
    }

    /// Two handles alias the same storage exactly when their identities are
    /// equal.
    pub fn ptr_eq(&self, other: &Array<T>) -> (r: bool)
        ensures
            r == (self.id_spec() == other.id_spec()),
    {
        self.id == other.id
    }

    pub fn len(&self, st: &ArrayStore<T>) -> (n: usize)
        requires
            st.valid(*self),
        ensures
            n == st.seq_of(*self).len(),
    {
        st.slots[self.id - 1].len()
    }

    pub fn is_empty(&self, st: &ArrayStore<T>) -> (r: bool)
        requires
            st.valid(*self),
        ensures
            r == (st.seq_of(*self).len() == 0),
    {
        self.len(st) == 0
    }

    /// Append `value`; returns the new length. Mutation is visible through
    /// every handle with the same identity.
    pub fn push(&self, st: &mut ArrayStore<T>, value: T) -> (n: i32)
        requires
            old(st).valid(*self),
            old(st).seq_of(*self).len() < i32::MAX,
        ensures
            final(st)@ == old(st)@.update(self.id_spec() - 1, old(st).seq_of(*self).push(value)),
            n == old(st).seq_of(*self).len() + 1,
    {
        let idx = self.id - 1;
        let slot = &mut st.slots[idx];
        slot.push(value);
        let n = st.slots[idx].len();
        proof {
            assert(st@ =~= old(st)@.update(self.id_spec() - 1, old(st).seq_of(*self).push(value)));
        }
        #[verifier::truncate] (n as i32)
    }

    /// Remove and return the last element, or `None` on an empty sequence.
    pub fn pop(&self, st: &mut ArrayStore<T>) -> (r: Option<T>)
        requires
            old(st).valid(*self),
        ensures
            old(st).seq_of(*self).len() == 0 ==> {
                &&& r is None
                &&& final(st)@ == old(st)@
            },
            old(st).seq_of(*self).len() > 0 ==> {
                &&& r == Some(old(st).seq_of(*self).last())
                &&& final(st)@ == old(st)@.update(
                    self.id_spec() - 1,
                    old(st).seq_of(*self).drop_last(),
                )
            },
    {
        let idx = self.id - 1;
        let slot = &mut st.slots[idx];
        if slot.len() == 0 {
            proof {
                assert(st@ =~= old(st)@);
            }
            None
        } else {
            let v = slot.pop();
            proof {
                assert(st@ =~= old(st)@.update(
                    self.id_spec() - 1,
                    old(st).seq_of(*self).drop_last(),
                ));
            }
            v
        }
    }

    /// Overwrite the element at `index`.
    pub fn set(&self, st: &mut ArrayStore<T>, index: usize, value: T)
        requires
            old(st).valid(*self),
            index < old(st).seq_of(*self).len(),
        ensures
            final(st)@ == old(st)@.update(
                self.id_spec() - 1,
                old(st).seq_of(*self).update(index as int, value),
            ),
    {
        let idx = self.id - 1;
        let slot = &mut st.slots[idx];
        let elem = &mut slot[index];
        *elem = value;
        proof {
            assert(st@ =~= old(st)@.update(
                self.id_spec() - 1,
                old(st).seq_of(*self).update(index as int, value),
            ));
        }
    }
}

impl<T: Clone> Array<T> {
    /// Clone of the element at `index`, or `None` when out of bounds.
    pub fn get(&self, st: &ArrayStore<T>, index: usize) -> (r: Option<T>)
        requires
            st.valid(*self),
        ensures
            index < st.seq_of(*self).len() ==> {
                &&& r is Some
                &&& cloned(st.seq_of(*self)[index as int], r->Some_0)
            },
            index >= st.seq_of(*self).len() ==> r is None,
    {
        let slot = &st.slots[self.id - 1];
        if index < slot.len() {
            Some(slot[index].clone())
        } else {
            None
        }
    }

    /// Clone of the element at `index`; the index must be in bounds.
    pub fn get_unchecked(&self, st: &ArrayStore<T>, index: usize) -> (r: T)
        requires
            st.valid(*self),
            index < st.seq_of(*self).len(),
        ensures
            cloned(st.seq_of(*self)[index as int], r),
    {
        st.slots[self.id - 1][index].clone()
    }

    /// Clones of all elements, in order.
    pub fn to_vec(&self, st: &ArrayStore<T>) -> (r: Vec<T>)
        requires
            st.valid(*self),
        ensures
            r@.len() == st.seq_of(*self).len(),
            forall|i: int| 0 <= i < r@.len() ==> cloned(st.seq_of(*self)[i], #[trigger] r@[i]),
    {
        let slot = &st.slots[self.id - 1];
        slot.clone()
    }

    /// A manual iterator over clones of the elements, as used for
    /// element-by-element loops.
    pub fn iter(&self, st: &ArrayStore<T>) -> (it: crate::iter::Iter<T>)
        requires
            st.valid(*self),
        ensures
            it.wf(),
            cloned_seq(st.seq_of(*self), it.remaining()),
    {
        crate::iter::Iter::from_vec(self.to_vec(st))
    }

    /// Fresh, independent sequence holding clones of this one's elements.
    /// Later mutations of the copy are not visible through `self`, nor the
    /// other way round, because the copy has a fresh identity.
    pub fn copy(&self, st: &mut ArrayStore<T>) -> (a: Array<T>)
        requires
            old(st).valid(*self),
            old(st)@.len() < usize::MAX,
        ensures
            final(st)@ == old(st)@.push(final(st).seq_of(a)),
            a.id_spec() == old(st)@.len() + 1,
            cloned_seq(old(st).seq_of(*self), final(st).seq_of(a)),
    {
        let v = self.to_vec(st);
        Array::from_vec(st, v)
    }

    /// Fresh sequence holding clones of this one's elements followed by
    /// clones of `other`'s.
    pub fn concat(&self, st: &mut ArrayStore<T>, other: Array<T>) -> (a: Array<T>)
        requires
            old(st).valid(*self),
            old(st).valid(other),
            old(st)@.len() < usize::MAX,
        ensures
            final(st)@ == old(st)@.push(final(st).seq_of(a)),
            a.id_spec() == old(st)@.len() + 1,
            final(st).seq_of(a).len() == old(st).seq_of(*self).len() + old(st).seq_of(
                other,
            ).len(),
            cloned_seq(
                old(st).seq_of(*self) + old(st).seq_of(other),
                final(st).seq_of(a),
            ),
    {
        let mut v = self.to_vec(st);
        let mut w = other.to_vec(st);
        v.append(&mut w);
        proof {
            assert(cloned_seq(st.seq_of(*self) + st.seq_of(other), v@));
        }
        Array::from_vec(st, v)
    }

    /// Fresh sequence holding clones of the elements selected by
    /// `slice_bounds`.
    pub fn slice(&self, st: &mut ArrayStore<T>, pos: i32, end: Option<i32>) -> (a: Array<T>)
        requires
            old(st).valid(*self),
            old(st).seq_of(*self).len() <= i32::MAX,
            old(st)@.len() < usize::MAX,
        ensures
            final(st)@ == old(st)@.push(final(st).seq_of(a)),
            a.id_spec() == old(st)@.len() + 1,
            ({
                let (lo, hi) = slice_bounds(
                    pos as int,
                    match end { Some(e) => Some(e as int), None => None },
                    old(st).seq_of(*self).len() as int,
                );
                cloned_seq(old(st).seq_of(*self).subrange(lo, hi), final(st).seq_of(a))
            }),
    {
        let len_i = self.len(st);
        let len: i32 = #[verifier::truncate] (len_i as i32);
        let start = wrap_clamp_exec(pos, len);
        let e = wrap_clamp_exec(match end { Some(x) => x, None => len }, len);
        let hi = if e < start { start } else { e };
        let slot = &st.slots[self.id - 1];
        let mut v: Vec<T> = Vec::new();
        let ghost lo_g = start as int;
        let mut i = start as usize;
        while i < hi as usize
            invariant
                lo_g <= i as int <= hi as int,
                0 <= lo_g,
                hi as int <= slot@.len(),
                cloned_seq(slot@.subrange(lo_g, i as int), v@),
            decreases hi as int - i as int,
        {
            v.push(slot[i].clone());
            proof {
                assert(slot@.subrange(lo_g, i + 1 as int) =~= slot@.subrange(lo_g, i as int).push(
                    slot@[i as int],
                ));
            }
            i = i + 1;
        }
        proof {
            assert(slot@.subrange(lo_g, hi as int) =~= slot@.subrange(lo_g, i as int));
        }
        Array::from_vec(st, v)
    }
}

/// Identity comparison for handle-like element types. The source language's
/// `==` on objects is reference equality, and element types without value
/// equality (handles to cells or sequences) are searched by identity through
/// this trait.
pub trait RcPtrEq {
    /// The identity this value carries.
    spec fn ref_id(&self) -> int;

    /// Two values compare equal exactly when they carry the same identity.
    fn rc_ptr_eq(&self, other: &Self) -> (r: bool)
        ensures
            r == (self.ref_id() == other.ref_id()),
    ;
}

impl<T> crate::hxref::HxRefLike for Array<T> {
    open spec fn ptr_spec(&self) -> int {
        self.id_spec()
    }

    fn ptr_usize(&self) -> (r: usize)
        ensures
            r as int == self.ptr_spec(),
    {
        self.id
    }
}

impl<T> RcPtrEq for Array<T> {
    open spec fn ref_id(&self) -> int {
        self.id_spec()
    }

    fn rc_ptr_eq(&self, other: &Self) -> (r: bool)
        ensures
            r == (self.ref_id() == other.ref_id()),
    {
        self.id == other.id
    }
}

/// First position `i >= from` where `s[i]` compares equal to `v` under the
/// element type's equality specification, or `-1`.
pub open spec fn index_of_from<T: PartialEq>(s: Seq<T>, v: T, from: int) -> int
    decreases s.len() - from when 0 <= from <= s.len()
{
    if from >= s.len() {
        -1
    } else if s[from].eq_spec(&v) {
        from
    } else {
        index_of_from(s, v, from + 1)
    }
}

/// Last position `i <= from` where `s[i]` compares equal to `v` under the
/// element type's equality specification, or `-1`.
pub open spec fn last_index_of_from<T: PartialEq>(s: Seq<T>, v: T, from: int) -> int
    decreases from + 1 when from < s.len()
{
    if from < 0 {
        -1
    } else if s[from].eq_spec(&v) {
        from
    } else {
        last_index_of_from(s, v, from - 1)
    }
}

/// First position `i >= from` where `s[i]` carries the identity of `v`, or
/// `-1`.
pub open spec fn index_of_ref_from<T: RcPtrEq>(s: Seq<T>, v: T, from: int) -> int
    decreases s.len() - from when 0 <= from <= s.len()
{
    if from >= s.len() {
        -1
    } else if s[from].ref_id() == v.ref_id() {
        from
    } else {
        index_of_ref_from(s, v, from + 1)
    }
}

/// Last position `i <= from` where `s[i]` carries the identity of `v`, or
/// `-1`.
pub open spec fn last_index_of_ref_from<T: RcPtrEq>(s: Seq<T>, v: T, from: int) -> int
    decreases from + 1 when from < s.len()
{
    if from < 0 {
        -1
    } else if s[from].ref_id() == v.ref_id() {
        from
    } else {
        last_index_of_ref_from(s, v, from - 1)
    }
}

/// Where a forward search starts: `from` (default `0`) wraps once when
/// negative and clamps to `[0, len]`.
pub open spec fn search_start(from: Option<int>, len: int) -> int {
    wrap_clamp(match from { Some(f) => f, None => 0 }, len)
}

/// Where a backward search starts: `from` (default `len - 1`) wraps once
/// when negative and clamps to `[0, len - 1]`.
pub open spec fn search_start_back(from: Option<int>, len: int) -> int {
    let f = match from { Some(f) => f, None => len - 1 };
    let p = if f < 0 { f + len } else { f };
    if p < 0 { 0 } else if p > len - 1 { len - 1 } else { p }
}

/// `pos` wrapped once when negative and clamped to `[0, len]`.
fn wrap_clamp_exec(pos: i32, len: i32) -> (r: i32)
    requires
        len >= 0,
    ensures
        r == wrap_clamp(pos as int, len as int),
        0 <= r <= len,
{
    let p: i32 = if pos < 0 { pos + len } else { pos };
    if p < 0 {
        0
    } else if p > len {
        len
    } else {
        p
    }
}

impl<T> Array<T> {
    /// Insert `value` at `pos` after wrapping and clamping.
    pub fn insert(&self, st: &mut ArrayStore<T>, pos: i32, value: T)
        requires
            old(st).valid(*self),
            old(st).seq_of(*self).len() < i32::MAX,
        ensures
            final(st)@ == old(st)@.update(
                self.id_spec() - 1,
                old(st).seq_of(*self).insert(
                    wrap_clamp(pos as int, old(st).seq_of(*self).len() as int),
                    value,
                ),
            ),
    {
        let idx = self.id - 1;
        let slot = &mut st.slots[idx];
        let len: i32 = slot.len() as i32;
        let p = wrap_clamp_exec(pos, len);
        slot.insert(p as usize, value);
        proof {
            assert(st@ =~= old(st)@.update(
                self.id_spec() - 1,
                old(st).seq_of(*self).insert(
                    wrap_clamp(pos as int, old(st).seq_of(*self).len() as int),
                    value,
                ),
            ));
        }
    }

    /// Remove and return the first element, or `None` on an empty sequence.
    pub fn shift(&self, st: &mut ArrayStore<T>) -> (r: Option<T>)
        requires
            old(st).valid(*self),
        ensures
            old(st).seq_of(*self).len() == 0 ==> {
                &&& r is None
                &&& final(st)@ == old(st)@
            },
            old(st).seq_of(*self).len() > 0 ==> {
                &&& r == Some(old(st).seq_of(*self)[0])
                &&& final(st)@ == old(st)@.update(
                    self.id_spec() - 1,
                    old(st).seq_of(*self).subrange(1, old(st).seq_of(*self).len() as int),
                )
            },
    {
        let idx = self.id - 1;
        let slot = &mut st.slots[idx];
        if slot.len() == 0 {
            proof {
                assert(st@ =~= old(st)@);
            }
            None
        } else {
            let v = slot.remove(0);
            proof {
                assert(old(st).seq_of(*self).remove(0) =~= old(st).seq_of(*self).subrange(
                    1,
                    old(st).seq_of(*self).len() as int,
                ));
                assert(st@ =~= old(st)@.update(
                    self.id_spec() - 1,
                    old(st).seq_of(*self).subrange(1, old(st).seq_of(*self).len() as int),
                ));
            }
            Some(v)
        }
    }

    /// Prepend `value`.
    pub fn unshift(&self, st: &mut ArrayStore<T>, value: T)
        requires
            old(st).valid(*self),
        ensures
            final(st)@ == old(st)@.update(
                self.id_spec() - 1,
                old(st).seq_of(*self).insert(0, value),
            ),
    {
        let idx = self.id - 1;
        let slot = &mut st.slots[idx];
        slot.insert(0, value);
        proof {
            assert(st@ =~= old(st)@.update(
                self.id_spec() - 1,
                old(st).seq_of(*self).insert(0, value),
            ));
        }
    }

    /// Reverse the sequence in place.
    pub fn reverse(&self, st: &mut ArrayStore<T>)
        requires
            old(st).valid(*self),
        ensures
            final(st)@ == old(st)@.update(
                self.id_spec() - 1,
                old(st).seq_of(*self).reverse(),
            ),
    {
        let idx = self.id - 1;
        let mut slot = st.slots.remove(idx);
        let ghost orig = slot@;
        let mut out: Vec<T> = Vec::new();
        loop
            invariant
                out@.len() + slot@.len() == orig.len(),
                slot@ =~= orig.subrange(0, slot@.len() as int),
                forall|i: int|
                    0 <= i < out@.len() ==> out@[i] == orig[orig.len() - 1 - i],
            ensures
                slot@.len() == 0,
                out@.len() == orig.len(),
                forall|i: int|
                    0 <= i < out@.len() ==> out@[i] == orig[orig.len() - 1 - i],
            decreases slot@.len(),
        {
            match slot.pop() {
                Some(x) => {
                    out.push(x);
                },
                None => {
                    break;
                },
            }
        }
        proof {
            assert(out@.len() == orig.len());
            if orig.len() > 0 {
                assert forall|i: int| 0 <= i < orig.len() implies out@[i] == orig.reverse()[i] by {
                    assert(orig.reverse()[i] == orig[orig.len() - 1 - i]);
                }
            }
            assert(out@ =~= orig.reverse());
        }
        st.slots.insert(idx, out);
        proof {
            assert(st@ =~= old(st)@.update(self.id_spec() - 1, old(st).seq_of(*self).reverse()));
        }
    }

    /// Remove and return the elements selected by `splice_bounds`, leaving
    /// the rest in place.
    pub fn splice(&self, st: &mut ArrayStore<T>, pos: i32, count: i32) -> (a: Array<T>)
        requires
            old(st).valid(*self),
            old(st).seq_of(*self).len() <= i32::MAX,
            old(st)@.len() < usize::MAX,
        ensures
            a.id_spec() == old(st)@.len() + 1,
            ({
                let s = old(st).seq_of(*self);
                let (lo, hi) = splice_bounds(pos as int, count as int, s.len() as int);
                final(st)@ == old(st)@.update(
                    self.id_spec() - 1,
                    s.subrange(0, lo) + s.subrange(hi, s.len() as int),
                ).push(s.subrange(lo, hi))
            }),
    {
        let idx = self.id - 1;
        let slot = &mut st.slots[idx];
        let total: i32 = slot.len() as i32;
        let start = wrap_clamp_exec(pos, total);
        let c: i32 = if count < 0 { 0 } else { count };
        let end: i32 = if c > total - start { total } else { start + c };
        let ghost s = slot@;
        let mut removed: Vec<T> = Vec::new();
        let mut k: usize = 0;
        let ghost n = (end - start) as int;
        while (k as i32) < end - start
            invariant
                0 <= start as int <= end as int <= s.len() <= i32::MAX,
                0 <= k as int <= n,
                n == end as int - start as int,
                slot@ =~= s.subrange(0, start as int) + s.subrange(
                    start as int + k as int,
                    s.len() as int,
                ),
                removed@ =~= s.subrange(start as int, start as int + k as int),
            decreases n - k as int,
        {
            let x = slot.remove(start as usize);
            removed.push(x);
            proof {
                assert(slot@ =~= s.subrange(0, start as int) + s.subrange(
                    start as int + k as int + 1,
                    s.len() as int,
                ));
                assert(removed@ =~= s.subrange(start as int, start as int + k as int + 1));
            }
            k = k + 1;
        }
        proof {
            let (lo, hi) = splice_bounds(pos as int, count as int, s.len() as int);
            assert(slot@ =~= s.subrange(0, lo) + s.subrange(hi, s.len() as int));
            assert(removed@ =~= s.subrange(lo, hi));
        }
        let a = Array::from_vec(st, removed);
        proof {
            let s2 = old(st).seq_of(*self);
            let (lo, hi) = splice_bounds(pos as int, count as int, s2.len() as int);
            assert(st@ =~= old(st)@.update(
                self.id_spec() - 1,
                s2.subrange(0, lo) + s2.subrange(hi, s2.len() as int),
            ).push(s2.subrange(lo, hi)));
        }
        a
    }
}

/// A search that finds nothing returns `-1`; one that finds something
/// returns a position at or after `from` holding a matching element.
proof fn lemma_index_of_from_props<T: PartialEq>(s: Seq<T>, v: T, from: int)
    requires
        0 <= from <= s.len(),
    ensures
        index_of_from(s, v, from) == -1 || (from <= index_of_from(s, v, from) < s.len()
            && s[index_of_from(s, v, from)].eq_spec(&v)),
    decreases s.len() - from,
{
    if from < s.len() && !s[from].eq_spec(&v) {
        lemma_index_of_from_props(s, v, from + 1);
    }
}

impl<T: PartialEq> Array<T> {
    /// First position at or after the (wrapped, clamped) `from_index` whose
    /// element equals `value`, or `-1`.
    pub fn index_of(&self, st: &ArrayStore<T>, value: T, from_index: Option<i32>) -> (r: i32)
        requires
            st.valid(*self),
            st.seq_of(*self).len() <= i32::MAX,
            T::obeys_eq_spec(),
        ensures
            r == index_of_from(
                st.seq_of(*self),
                value,
                search_start(
                    match from_index { Some(f) => Some(f as int), None => None },
                    st.seq_of(*self).len() as int,
                ),
            ),
    {
        let slot = &st.slots[self.id - 1];
        let len: i32 = #[verifier::truncate] (slot.len() as i32);
        let start = wrap_clamp_exec(match from_index { Some(f) => f, None => 0 }, len);
        let ghost s = st.seq_of(*self);
        let mut i: usize = start as usize;
        while (i as i32) < len
            invariant
                st.valid(*self),
                s == st.seq_of(*self),
                s =~= slot@,
                s.len() == len as int,
                0 <= len <= i32::MAX,
                start as int <= i as int <= len as int,
                start as int == search_start(
                    match from_index { Some(f) => Some(f as int), None => None },
                    s.len() as int,
                ),
                T::obeys_eq_spec(),
                index_of_from(s, value, start as int) == index_of_from(s, value, i as int),
            decreases len as int - i as int,
        {
            if slot[i] == value {
                return #[verifier::truncate] (i as i32);
            }
            i = i + 1;
        }
        -1
    }

    /// Same search under the source-language name.
    #[allow(non_snake_case)]
    pub fn indexOf(&self, st: &ArrayStore<T>, value: T, from_index: Option<i32>) -> (r: i32)
        requires
            st.valid(*self),
            st.seq_of(*self).len() <= i32::MAX,
            T::obeys_eq_spec(),
        ensures
            r == index_of_from(
                st.seq_of(*self),
                value,
                search_start(
                    match from_index { Some(f) => Some(f as int), None => None },
                    st.seq_of(*self).len() as int,
                ),
            ),
    {
        self.index_of(st, value, from_index)
    }

    /// Last position at or before the (wrapped, clamped) `from_index` whose
    /// element equals `value`, or `-1`.
    pub fn last_index_of(&self, st: &ArrayStore<T>, value: T, from_index: Option<i32>) -> (r: i32)
        requires
            st.valid(*self),
            st.seq_of(*self).len() <= i32::MAX,
            T::obeys_eq_spec(),
        ensures
            st.seq_of(*self).len() == 0 ==> r == -1,
            st.seq_of(*self).len() > 0 ==> r == last_index_of_from(
                st.seq_of(*self),
                value,
                search_start_back(
                    match from_index { Some(f) => Some(f as int), None => None },
                    st.seq_of(*self).len() as int,
                ),
            ),
    {
        let slot = &st.slots[self.id - 1];
        let len: i32 = #[verifier::truncate] (slot.len() as i32);
        if len == 0 {
            return -1;
        }
        let f: i32 = match from_index { Some(f) => f, None => len - 1 };
        let p: i32 = if f < 0 { f + len } else { f };
        let start: i32 = if p < 0 { 0 } else if p > len - 1 { len - 1 } else { p };
        let ghost s = st.seq_of(*self);
        let mut i: usize = start as usize;
        loop
            invariant
                st.valid(*self),
                s == st.seq_of(*self),
                s =~= slot@,
                s.len() == len as int,
                0 < len <= i32::MAX,
                0 <= i as int <= start as int,
                (start as int) < (len as int),
                start as int == search_start_back(
                    match from_index { Some(f) => Some(f as int), None => None },
                    s.len() as int,
                ),
                T::obeys_eq_spec(),
                last_index_of_from(s, value, start as int) == last_index_of_from(
                    s,
                    value,
                    i as int,
                ),
            ensures
                last_index_of_from(s, value, start as int) == -1,
            decreases i as int,
        {
            if slot[i] == value {
                proof {
                    assert(last_index_of_from(s, value, i as int) == i as int);
                }
                return #[verifier::truncate] (i as i32);
            }
            proof {
                assert(last_index_of_from(s, value, i as int) == last_index_of_from(
                    s,
                    value,
                    i as int - 1,
                ));
            }
            if i == 0 {
                break;
            }
            i = i - 1;
        }
        -1
    }

    /// Same search under the source-language name.
    #[allow(non_snake_case)]
    pub fn lastIndexOf(&self, st: &ArrayStore<T>, value: T, from_index: Option<i32>) -> (r: i32)
        requires
            st.valid(*self),
            st.seq_of(*self).len() <= i32::MAX,
            T::obeys_eq_spec(),
        ensures
            st.seq_of(*self).len() == 0 ==> r == -1,
            st.seq_of(*self).len() > 0 ==> r == last_index_of_from(
                st.seq_of(*self),
                value,
                search_start_back(
                    match from_index { Some(f) => Some(f as int), None => None },
                    st.seq_of(*self).len() as int,
                ),
            ),
    {
        self.last_index_of(st, value, from_index)
    }

    /// Whether some element equals `value`.
    pub fn contains(&self, st: &ArrayStore<T>, value: T) -> (r: bool)
        requires
            st.valid(*self),
            st.seq_of(*self).len() <= i32::MAX,
            T::obeys_eq_spec(),
        ensures
            r <==> (exists|i: int|
                0 <= i < st.seq_of(*self).len() && (#[trigger] st.seq_of(*self)[i]).eq_spec(
                    &value,
                )),
    {
        let r = self.index_of(st, value, None);
        proof {
            let s = st.seq_of(*self);
            lemma_index_of_from_props(s, value, 0);
            if r == -1 {
                lemma_index_of_from_none(s, value, 0);
            }
        }
        r != -1
    }

    /// Remove the first element equal to `value`; reports whether one was
    /// found.
    pub fn remove(&self, st: &mut ArrayStore<T>, value: T) -> (r: bool)
        requires
            old(st).valid(*self),
            old(st).seq_of(*self).len() <= i32::MAX,
            T::obeys_eq_spec(),
        ensures
            ({
                let s = old(st).seq_of(*self);
                let j = index_of_from(s, value, 0);
                if j == -1 {
                    r == false && final(st)@ == old(st)@
                } else {
                    r == true && final(st)@ == old(st)@.update(self.id_spec() - 1, s.remove(j))
                }
            }),
    {
        let j = self.index_of(st, value, None);
        proof {
            lemma_index_of_from_props(st.seq_of(*self), value, 0);
        }
        if j == -1 {
            proof {
                assert(st@ =~= old(st)@);
            }
            false
        } else {
            let idx = self.id - 1;
            let slot = &mut st.slots[idx];
            slot.remove(j as usize);
            proof {
                assert(st@ =~= old(st)@.update(
                    self.id_spec() - 1,
                    old(st).seq_of(*self).remove(j as int),
                ));
            }
            true
        }
    }
}

/// An identity search that finds nothing returns `-1`; one that finds
/// something returns a position at or after `from` holding the identity.
proof fn lemma_index_of_ref_from_props<T: RcPtrEq>(s: Seq<T>, v: T, from: int)
    requires
        0 <= from <= s.len(),
    ensures
        index_of_ref_from(s, v, from) == -1 || (from <= index_of_ref_from(s, v, from) < s.len()
            && s[index_of_ref_from(s, v, from)].ref_id() == v.ref_id()),
    decreases s.len() - from,
{
    if from < s.len() && s[from].ref_id() != v.ref_id() {
        lemma_index_of_ref_from_props(s, v, from + 1);
    }
}

impl<T: RcPtrEq> Array<T> {
    /// First position at or after the (wrapped, clamped) `from_index` whose
    /// element carries the identity of `value`, or `-1`.
    #[allow(non_snake_case)]
    pub fn indexOfRef(&self, st: &ArrayStore<T>, value: T, from_index: Option<i32>) -> (r: i32)
        requires
            st.valid(*self),
            st.seq_of(*self).len() <= i32::MAX,
        ensures
            r == index_of_ref_from(
                st.seq_of(*self),
                value,
                search_start(
                    match from_index { Some(f) => Some(f as int), None => None },
                    st.seq_of(*self).len() as int,
                ),
            ),
    {
        let slot = &st.slots[self.id - 1];
        let len: i32 = #[verifier::truncate] (slot.len() as i32);
        let start = wrap_clamp_exec(match from_index { Some(f) => f, None => 0 }, len);
        let ghost s = st.seq_of(*self);
        let mut i: usize = start as usize;
        while (i as i32) < len
            invariant
                st.valid(*self),
                s == st.seq_of(*self),
                s =~= slot@,
                s.len() == len as int,
                0 <= len <= i32::MAX,
                start as int <= i as int <= len as int,
                start as int == search_start(
                    match from_index { Some(f) => Some(f as int), None => None },
                    s.len() as int,
                ),
                index_of_ref_from(s, value, start as int) == index_of_ref_from(
                    s,
                    value,
                    i as int,
                ),
            decreases len as int - i as int,
        {
            if slot[i].rc_ptr_eq(&value) {
                return #[verifier::truncate] (i as i32);
            }
            i = i + 1;
        }
        -1
    }

    /// Last position at or before the (wrapped, clamped) `from_index` whose
    /// element carries the identity of `value`, or `-1`.
    #[allow(non_snake_case)]
    pub fn lastIndexOfRef(&self, st: &ArrayStore<T>, value: T, from_index: Option<i32>) -> (r:
        i32)
        requires
            st.valid(*self),
            st.seq_of(*self).len() <= i32::MAX,
        ensures
            st.seq_of(*self).len() == 0 ==> r == -1,
            st.seq_of(*self).len() > 0 ==> r == last_index_of_ref_from(
                st.seq_of(*self),
                value,
                search_start_back(
                    match from_index { Some(f) => Some(f as int), None => None },
                    st.seq_of(*self).len() as int,
                ),
            ),
    {
        let slot = &st.slots[self.id - 1];
        let len: i32 = #[verifier::truncate] (slot.len() as i32);
        if len == 0 {
            return -1;
        }
        let f: i32 = match from_index { Some(f) => f, None => len - 1 };
        let p: i32 = if f < 0 { f + len } else { f };
        let start: i32 = if p < 0 { 0 } else if p > len - 1 { len - 1 } else { p };
        let ghost s = st.seq_of(*self);
        let mut i: usize = start as usize;
        loop
            invariant
                st.valid(*self),
                s == st.seq_of(*self),
                s =~= slot@,
                s.len() == len as int,
                0 < len <= i32::MAX,
                0 <= i as int <= start as int,
                (start as int) < (len as int),
                start as int == search_start_back(
                    match from_index { Some(f) => Some(f as int), None => None },
                    s.len() as int,
                ),
                last_index_of_ref_from(s, value, start as int) == last_index_of_ref_from(
                    s,
                    value,
                    i as int,
                ),
            ensures
                last_index_of_ref_from(s, value, start as int) == -1,
            decreases i as int,
        {
            if slot[i].rc_ptr_eq(&value) {
                return #[verifier::truncate] (i as i32);
            }
            proof {
                assert(last_index_of_ref_from(s, value, i as int) == last_index_of_ref_from(
                    s,
                    value,
                    i as int - 1,
                ));
            }
            if i == 0 {
                break;
            }
            i = i - 1;
        }
        -1
    }

    /// Whether some element carries the identity of `value`.
    #[allow(non_snake_case)]
    pub fn containsRef(&self, st: &ArrayStore<T>, value: T) -> (r: bool)
        requires
            st.valid(*self),
            st.seq_of(*self).len() <= i32::MAX,
        ensures
            r <==> (exists|i: int|
                0 <= i < st.seq_of(*self).len() && (#[trigger] st.seq_of(*self)[i]).ref_id()
                    == value.ref_id()),
    {
        let r = self.indexOfRef(st, value, None);
        proof {
            let s = st.seq_of(*self);
            lemma_index_of_ref_from_props(s, value, 0);
            if r == -1 {
                lemma_index_of_ref_from_none(s, value, 0);
            }
        }
        r != -1
    }

    /// Remove the first element carrying the identity of `value`; reports
    /// whether one was found.
    #[allow(non_snake_case)]
    pub fn removeRef(&self, st: &mut ArrayStore<T>, value: T) -> (r: bool)
        requires
            old(st).valid(*self),
            old(st).seq_of(*self).len() <= i32::MAX,
        ensures
            ({
                let s = old(st).seq_of(*self);
                let j = index_of_ref_from(s, value, 0);
                if j == -1 {
                    r == false && final(st)@ == old(st)@
                } else {
                    r == true && final(st)@ == old(st)@.update(self.id_spec() - 1, s.remove(j))
                }
            }),
    {
        let j = self.indexOfRef(st, value, None);
        proof {
            lemma_index_of_ref_from_props(st.seq_of(*self), value, 0);
        }
        if j == -1 {
            proof {
                assert(st@ =~= old(st)@);
            }
            false
        } else {
            let idx = self.id - 1;
            let slot = &mut st.slots[idx];
            slot.remove(j as usize);
            proof {
                assert(st@ =~= old(st)@.update(
                    self.id_spec() - 1,
                    old(st).seq_of(*self).remove(j as int),
                ));
            }
            true
        }
    }
}

/// An identity search that returns `-1` found no matching element anywhere
/// at or after `from`.
proof fn lemma_index_of_ref_from_none<T: RcPtrEq>(s: Seq<T>, v: T, from: int)
    requires
        0 <= from <= s.len(),
        index_of_ref_from(s, v, from) == -1,
    ensures
        forall|i: int| from <= i < s.len() ==> (#[trigger] s[i]).ref_id() != v.ref_id(),
    decreases s.len() - from,
{
    if from < s.len() {
        lemma_index_of_ref_from_none(s, v, from + 1);
    }
}

/// A search that returns `-1` found no matching element anywhere at or after
/// `from`.
proof fn lemma_index_of_from_none<T: PartialEq>(s: Seq<T>, v: T, from: int)
    requires
        0 <= from <= s.len(),
        index_of_from(s, v, from) == -1,
    ensures
        forall|i: int| from <= i < s.len() ==> !(#[trigger] s[i]).eq_spec(&v),
    decreases s.len() - from,
{
    if from < s.len() {
        lemma_index_of_from_none(s, v, from + 1);
    }
}

/// Consecutive elements were seen in order by the callback `f`: some call
/// on the pair answered "not greater", or some call on the swapped pair
/// answered "greater".
pub open spec fn witnessed_le<T, F: Fn(&T, &T) -> i32>(f: F, a: T, b: T) -> bool {
    ||| (exists|r: i32| #[trigger] f.ensures((&a, &b), r) && r <= 0)
    ||| (exists|r: i32| #[trigger] f.ensures((&b, &a), r) && r > 0)
}

/// Every adjacent pair of `s` was seen in order by `f`.
pub open spec fn sorted_by_witness<T, F: Fn(&T, &T) -> i32>(f: F, s: Seq<T>) -> bool {
    forall|i: int| 0 <= i < s.len() - 1 ==> witnessed_le(f, #[trigger] s[i], s[i + 1])
}

impl<T> Array<T> {
    /// Reorder the elements in place using `compare` (negative, zero or
    /// positive, as the source language's comparison callbacks return). The
    /// sequence afterwards holds exactly the elements it held before, and
    /// every two consecutive elements were put in the order some call of
    /// `compare` answered, so a comparison callback that behaves as a total
    /// order leaves the sequence sorted by it. Elements are taken in their
    /// original order and each is inserted before the first already-placed
    /// element that compares greater, so under a consistent callback
    /// elements that compare equal keep their original relative order (a
    /// stable insertion sort); that tie order itself cannot be stated over
    /// an unspecified callback, whose calls need not agree with one
    /// another, so the contract pins the element multiset and the witnessed
    /// order of consecutive elements.
    pub fn sort<F: Fn(&T, &T) -> i32>(&self, st: &mut ArrayStore<T>, compare: F)
        requires
            old(st).valid(*self),
            forall|x: &T, y: &T| #[trigger] compare.requires((x, y)),
        ensures
            final(st)@ == old(st)@.update(self.id_spec() - 1, final(st).seq_of(*self)),
            final(st).seq_of(*self).to_multiset() == old(st).seq_of(*self).to_multiset(),
            sorted_by_witness(compare, final(st).seq_of(*self)),
    {
        let idx = self.id - 1;
        let mut work = st.slots.remove(idx);
        let ghost orig = work@;
        let mut out: Vec<T> = Vec::new();
        proof {
            assert(out@.to_multiset() =~= Multiset::<T>::empty());
            assert(out@.to_multiset().add(work@.to_multiset()) =~= orig.to_multiset());
        }
        loop
            invariant
                forall|x: &T, y: &T| #[trigger] compare.requires((x, y)),
                out@.to_multiset().add(work@.to_multiset()) == orig.to_multiset(),
                sorted_by_witness(compare, out@),
            ensures
                out@.to_multiset() == orig.to_multiset(),
                sorted_by_witness(compare, out@),
            decreases work@.len(),
        {
            let ghost w_before = work@;
            if work.len() == 0 {
                proof {
                    assert(work@.to_multiset().len() == 0);
                    assert(work@.to_multiset() =~= Multiset::<T>::empty());
                    assert(out@.to_multiset() =~= orig.to_multiset());
                }
                break;
            }
            let x = work.remove(0);
            let ghost out_before = out@;
            let mut p: usize = 0;
            loop
                invariant
                    forall|a: &T, b: &T| #[trigger] compare.requires((a, b)),
                    p <= out@.len(),
                    out@ == out_before,
                    forall|j: int| #![trigger out@[j]]
                        0 <= j < p ==> (exists|r: i32|
                            compare.ensures((&out@[j], &x), r) && r <= 0),
                ensures
                    out@ == out_before,
                    p <= out@.len(),
                    forall|j: int| #![trigger out@[j]]
                        0 <= j < p ==> (exists|r: i32|
                            compare.ensures((&out@[j], &x), r) && r <= 0),
                    p < out@.len() ==> (exists|r: i32|
                        #[trigger] compare.ensures((&out@[p as int], &x), r) && r > 0),
                decreases out@.len() - p,
            {
                if p >= out.len() {
                    break;
                }
                let c = compare(&out[p], &x);
                if c > 0 {
                    break;
                }
                p = p + 1;
            }
            out.insert(p, x);
            proof {
                assert(work@ == w_before.remove(0));
                assert(w_before.remove(0).to_multiset() =~= w_before.to_multiset().remove(x));
                assert(w_before.contains(x));
                assert(w_before.to_multiset().count(x) > 0);
                assert(work@.to_multiset().insert(x) =~= w_before.to_multiset());
                assert(out@ == out_before.insert(p as int, x));
                assert(out_before.insert(p as int, x).to_multiset() == out_before.to_multiset()
                    .insert(x));
                assert(out@.to_multiset().add(work@.to_multiset()) =~= orig.to_multiset());
                assert forall|i: int|
                    0 <= i < out@.len() - 1 implies witnessed_le(
                    compare,
                    #[trigger] out@[i],
                    out@[i + 1],
                ) by {
                    if i + 1 < p {
                        assert(out@[i] == out_before[i]);
                        assert(out@[i + 1] == out_before[i + 1]);
                        assert(witnessed_le(compare, out_before[i], out_before[i + 1]));
                    } else if i + 1 == p {
                        assert(out@[i] == out_before[i]);
                        assert(out@[i + 1] == x);
                    } else if i == p {
                        assert(out@[i] == x);
                        assert(out@[i + 1] == out_before[i]);
                    } else {
                        assert(out@[i] == out_before[i - 1]);
                        assert(out@[i + 1] == out_before[i]);
                        assert(witnessed_le(compare, out_before[i - 1], out_before[i]));
                    }
                }
            }
        }
        st.slots.insert(idx, out);
        proof {
            assert(st@ =~= old(st)@.update(self.id_spec() - 1, st.seq_of(*self)));
        }
    }
}

impl<T: crate::text::HaxeDisplay> Array<T> {
    /// The elements' display texts joined with `sep`.
    pub fn join(&self, st: &ArrayStore<T>, sep: &str) -> (s: String)
        requires
            st.valid(*self),
        ensures
            s@ == crate::text::joined(crate::text::displays_of(st.seq_of(*self)), sep@),
    {
        let ghost items = crate::text::displays_of(st.seq_of(*self));
        let n = self.len(st);
        let mut s = String::new();
        let mut i: usize = 0;
        while i < n
            invariant
                st.valid(*self),
                items == crate::text::displays_of(st.seq_of(*self)),
                n == st.seq_of(*self).len(),
                0 <= i <= n,
                s@ == crate::text::joined(items.subrange(0, i as int), sep@),
            decreases n - i,
        {
            if i > 0 {
                s.append(sep);
            }
            let piece = self.read_at(st, i).to_display();
            s.append(piece.as_str());
            proof {
                assert(items.subrange(0, i + 1 as int).drop_last() =~= items.subrange(
                    0,
                    i as int,
                ));
                assert(items.subrange(0, i + 1 as int).last() == items[i as int]);
                assert(s@ =~= crate::text::joined(items.subrange(0, i + 1 as int), sep@));
            }
            i = i + 1;
        }
        proof {
            assert(items.subrange(0, n as int) =~= items);
        }
        s
    }

    /// The whole sequence rendered as `[e1,e2,...]`, each element by its own
    /// display text.
    #[allow(non_snake_case)]
    pub fn toString(&self, st: &ArrayStore<T>) -> (s: String)
        requires
            st.valid(*self),
        ensures
            s@ == seq!['['] + crate::text::joined(
                crate::text::displays_of(st.seq_of(*self)),
                seq![','],
            ) + seq![']'],
    {
        proof {
            reveal_strlit("[");
            reveal_strlit("]");
            reveal_strlit(",");
        }
        let mut s = String::new();
        s.append("[");
        let body = self.join(st, ",");
        s.append(body.as_str());
        s.append("]");
        proof {
            assert(","@ =~= seq![',']);
            assert(s@ =~= seq!['['] + crate::text::joined(
                crate::text::displays_of(st.seq_of(*self)),
                seq![','],
            ) + seq![']']);
        }
        s
    }
}

impl<T: Default> Array<T> {
    /// Truncate to `count` elements, or grow with default values; a negative
    /// `count` clamps to zero.
    pub fn resize(&self, st: &mut ArrayStore<T>, count: i32)
        requires
            old(st).valid(*self),
        ensures
            ({
                let s = old(st).seq_of(*self);
                let n = if count < 0 { 0 } else { count as int };
                let t = final(st).seq_of(*self);
                &&& final(st)@ == old(st)@.update(self.id_spec() - 1, t)
                &&& t.len() == n
                &&& forall|i: int| 0 <= i < n && i < s.len() ==> t[i] == s[i]
                &&& forall|i: int|
                    s.len() <= i < n ==> call_ensures(T::default, (), #[trigger] t[i])
            }),
    {
        let idx = self.id - 1;
        let slot = &mut st.slots[idx];
        let n: usize = if count < 0 { 0 } else { count as usize };
        let ghost s = slot@;
        if n <= slot.len() {
            slot.truncate(n);
            proof {
                assert(slot@ =~= s.subrange(0, n as int));
            }
        } else {
            while slot.len() < n
                invariant
                    s.len() <= slot@.len() <= n,
                    slot@.subrange(0, s.len() as int) =~= s,
                    forall|i: int|
                        s.len() <= i < slot@.len() ==> call_ensures(
                            T::default,
                            (),
                            #[trigger] slot@[i],
                        ),
                decreases n - slot@.len(),
            {
                slot.push(T::default());
            }
        }
        proof {
            assert(st@ =~= old(st)@.update(self.id_spec() - 1, st.seq_of(*self)));
        }
    }
}

/// Run a read-only callback over the sequence's elements as one slice.
pub fn with_slice<T, R, F: Fn(&[T]) -> R>(st: &ArrayStore<T>, array: Array<T>, f: F) -> (r: R)
    requires
        st.valid(array),
        forall|s: &[T]| s@ == st.seq_of(array) ==> #[trigger] f.requires((s,)),
    ensures
        exists|s: &[T]| s@ == st.seq_of(array) && #[trigger] f.ensures((s,), r),
{
    let slot = array.read_slice(st);
    f(slot)
}

/// Run a mutating callback over the sequence's elements: the callback takes
/// the elements out, returns their replacement and a result, and the
/// replacement becomes the sequence's new contents (visible through every
/// aliasing handle).
pub fn with_mut_slice<T, R, F: FnOnce(Vec<T>) -> (Vec<T>, R)>(
    st: &mut ArrayStore<T>,
    array: Array<T>,
    f: F,
) -> (r: R)
    requires
        old(st).valid(array),
        forall|v: Vec<T>| v@ == old(st).seq_of(array) ==> #[trigger] f.requires((v,)),
    ensures
        exists|v: Vec<T>, out: (Vec<T>, R)|
            {
                &&& v@ == old(st).seq_of(array)
                &&& #[trigger] f.ensures((v,), out)
                &&& final(st)@ == old(st)@.update(array.id_spec() - 1, out.0@)
                &&& r == out.1
            },
{
    let idx = array.id_usize() - 1;
    let v = st.slots.remove(idx);
    let ghost gv = v;
    let (v2, r) = f(v);
    let ghost gout = (v2, r);
    st.slots.insert(idx, v2);
    proof {
        assert(st@ =~= old(st)@.update(array.id_spec() - 1, gout.0@));
        assert(f.ensures((gv,), gout));
    }
    r
}

/// Aliasing law: a handle clone is the same identity, so a mutation made
/// through one handle (here: the sequence update that `push` makes) is
/// observed through every handle with that identity.
pub proof fn lemma_alias_mutation_visible<T>(
    st0: ArrayStore<T>,
    st1: ArrayStore<T>,
    a: Array<T>,
    b: Array<T>,
    v: T,
)
    requires
        b.id_spec() == a.id_spec(),
        st0.valid(a),
        st1@ == st0@.update(a.id_spec() - 1, st0.seq_of(a).push(v)),
    ensures
        st1.valid(b),
        st1.seq_of(b) == st0.seq_of(a).push(v),
        st1.seq_of(b) == st1.seq_of(a),
{
}

/// Value-copy law: `copy` allocates under a fresh identity (the handles
/// differ), so a later mutation through the copy leaves what the original
/// handle sees untouched.
pub proof fn lemma_copy_independent<T>(
    st0: ArrayStore<T>,
    st1: ArrayStore<T>,
    st2: ArrayStore<T>,
    a: Array<T>,
    c: Array<T>,
    v: T,
)
    requires
        st0.valid(a),
        c.id_spec() == st0@.len() + 1,
        st1@ == st0@.push(st1.seq_of(c)),
        st2@ == st1@.update(c.id_spec() - 1, st1.seq_of(c).push(v)),
    ensures
        c.id_spec() != a.id_spec(),
        st2.seq_of(a) == st0.seq_of(a),
{
}

/// Restricted search law: a `from_index` of `-1` wraps to the last
/// position, so the search examines only the last element: it answers the
/// last index when that element matches, and `-1` otherwise.
pub proof fn lemma_index_of_minus_one_checks_last<T: PartialEq>(s: Seq<T>, v: T)
    requires
        s.len() >= 1,
    ensures
        search_start(Some(-1int), s.len() as int) == s.len() - 1,
        index_of_from(s, v, s.len() - 1) == (if s[s.len() - 1].eq_spec(&v) {
            s.len() - 1
        } else {
            -1int
        }),
{
    assert(index_of_from(s, v, s.len() - 1) == (if s[s.len() - 1].eq_spec(&v) {
        s.len() - 1
    } else {
        index_of_from(s, v, s.len() as int)
    }));
}

} // verus!

