use vstd::prelude::*;

use crate::HxError;

verus! {

/// One shared-ownership cell: its stored value, and whether it was allocated
/// through the canonical constructor `HxRef::new` (only such cells can mint
/// a fresh owning handle to themselves through `self_ref`).
#[verifier::ext_equal]
pub struct HxCell<T> {
    value: T,
    minted: bool,
}

/// Backing store for every shared cell. Slot `i` holds the cell of the
/// handle with identity `i + 1`; identity `0` is the null handle.
#[verifier::ext_equal]
pub struct CellStore<T> {
    slots: Vec<HxCell<T>>,
}

/// Nullable handle to one cell in a `CellStore`. The default value is null;
/// cloning a handle aliases the same cell; identity is the handle's non-zero
/// slot number (`0` for null).
#[derive(Debug)]
pub struct HxRef<T> {
    id: usize,
    phantom: core::marker::PhantomData<T>,
}

impl<T> View for CellStore<T> {
    type V = Seq<(T, bool)>;

    closed spec fn view(&self) -> Seq<(T, bool)> {
        Seq::new(
            self.slots@.len(),
            |i: int| (self.slots@[i].value, self.slots@[i].minted),
        )
    }
}

impl<T> HxRef<T> {
    /// Identity of the cell this handle aliases; `0` for null.
    pub closed spec fn id_spec(&self) -> int {
        self.id as int
    }

    pub open spec fn is_null_spec(&self) -> bool {
        self.id_spec() == 0
    }
}

impl<T> Clone for HxRef<T> {
    /// Cloning a handle aliases the same cell: the clone is the same handle.
    fn clone(&self) -> (res: Self)
        ensures
            res == *self,
    {
        HxRef { id: self.id, phantom: core::marker::PhantomData }
    }
}

impl<T> Default for HxRef<T> {
    /// Uninitialized references are null.
    fn default() -> (res: Self)
        ensures
            res.is_null_spec(),
    {
        HxRef::null()
    }
}

impl<T> CellStore<T> {
    /// A handle is valid when it is non-null and names a slot of this store.
    pub open spec fn valid(&self, r: HxRef<T>) -> bool {
        1 <= r.id_spec() <= self@.len()
    }

    /// The value currently stored in the cell `r` aliases.
    pub open spec fn value_of(&self, r: HxRef<T>) -> T
        recommends
            self.valid(r),
    {
        self@[r.id_spec() - 1].0
    }

    /// Whether the cell `r` aliases was allocated through `HxRef::new`.
    pub open spec fn minted(&self, r: HxRef<T>) -> bool
        recommends
            self.valid(r),
    {
        self@[r.id_spec() - 1].1
    }

    pub fn new() -> (st: CellStore<T>)
        ensures
            st@ == Seq::<(T, bool)>::empty(),
    {
        let st = CellStore { slots: Vec::new() };
        proof {
            assert(st@ =~= Seq::<(T, bool)>::empty());
        }
        st
    }
}

impl<T> HxRef<T> {
    /// Canonical constructor: allocate a cell holding `value` and return a
    /// fresh owning handle to it. The cell remembers that it was allocated
    /// here, so `self_ref` can later mint another handle to it.
    pub fn new(st: &mut CellStore<T>, value: T) -> (r: HxRef<T>)
        requires
            old(st)@.len() < usize::MAX,
        ensures
            final(st)@ == old(st)@.push((value, true)),
            r.id_spec() == old(st)@.len() + 1,
            final(st).valid(r),
            final(st).value_of(r) == value,
            final(st).minted(r),
    {
        let id = st.slots.len() + 1;
        st.slots.push(HxCell { value, minted: true });
        proof {
            assert(st@ =~= old(st)@.push((value, true)));
        }
        HxRef { id, phantom: core::marker::PhantomData }
    }

    /// Allocate a standalone cell, as used for locals and static storage
    /// that no owning handle was minted for; `self_ref` on it fails.
    pub fn new_detached(st: &mut CellStore<T>, value: T) -> (r: HxRef<T>)
        requires
            old(st)@.len() < usize::MAX,
        ensures
            final(st)@ == old(st)@.push((value, false)),
            r.id_spec() == old(st)@.len() + 1,
            final(st).valid(r),
            final(st).value_of(r) == value,
            !final(st).minted(r),
    {
        let id = st.slots.len() + 1;
        st.slots.push(HxCell { value, minted: false });
        proof {
            assert(st@ =~= old(st)@.push((value, false)));
        }
        HxRef { id, phantom: core::marker::PhantomData }
    }

    /// The null handle.
    pub fn null() -> (r: HxRef<T>)
        ensures
            r.is_null_spec(),
    {
        HxRef { id: 0, phantom: core::marker::PhantomData }
    }

    pub fn is_null(&self) -> (r: bool)
        ensures
            r == self.is_null_spec(),
    {
        self.id == 0
    }

    pub fn is_some(&self) -> (r: bool)
        ensures
            r == !self.is_null_spec(),
    {
        self.id != 0
    }

    /// Whether this handle names a live cell of `st`.
    pub fn is_valid_in(&self, st: &CellStore<T>) -> (r: bool)
        ensures
            r == st.valid(*self),
    {
        self.id >= 1 && self.id <= st.slots.len()
    }

    /// Identity equality: two null handles are equal; two non-null handles
    /// are equal exactly when they alias the same cell.
    pub fn ptr_eq(&self, other: &HxRef<T>) -> (r: bool)
        ensures
            r == (self.id_spec() == other.id_spec()),
    {
        self.id == other.id
    }

    /// Shared view of the stored value; fails with `NullAccess` on a null or
    /// foreign handle.
    pub fn borrow<'a>(&self, st: &'a CellStore<T>) -> (r: Result<&'a T, HxError>)
        ensures
            st.valid(*self) ==> (r matches Ok(v) && *v == st.value_of(*self)),
            !st.valid(*self) ==> (r matches Err(e) && e == HxError::NullAccess),
    {
        if self.id == 0 || self.id > st.slots.len() {
            Err(HxError::NullAccess)
        } else {
            Ok(&st.slots[self.id - 1].value)
        }
    }

    /// Crate-internal exclusive view of the stored value, for callers that
    /// have already checked the handle; the public checked mutators are
    /// `write` and the field operations built on this, all of which fail
    /// with `NullAccess` on a null or foreign handle.
    pub(crate) fn borrow_mut<'a>(&self, st: &'a mut CellStore<T>) -> (v: &'a mut T)
        requires
            old(st).valid(*self),
        ensures
            *v == old(st).value_of(*self),
            final(st)@ =~= old(st)@.update(
                self.id_spec() - 1,
                (*final(v), old(st).minted(*self)),
            ),
    {
        let idx = self.id - 1;
        let cell = &mut st.slots[idx];
        &mut cell.value
    }

    /// Replace the stored value; fails with `NullAccess` on a null or
    /// foreign handle.
    pub fn write(&self, st: &mut CellStore<T>, value: T) -> (r: Result<(), HxError>)
        ensures
            old(st).valid(*self) ==> (r is Ok && final(st)@ == old(st)@.update(
                self.id_spec() - 1,
                (value, old(st).minted(*self)),
            )),
            !old(st).valid(*self) ==> (r matches Err(e) && e == HxError::NullAccess && final(st)@
                == old(st)@),
    {
        if self.id == 0 || self.id > st.slots.len() {
            Err(HxError::NullAccess)
        } else {
            let idx = self.id - 1;
            let cell = &mut st.slots[idx];
            cell.value = value;
            proof {
                assert(st@ =~= old(st)@.update(
                    self.id_spec() - 1,
                    (value, old(st).minted(*self)),
                ));
            }
            Ok(())
        }
    }

    /// Mint a fresh owning handle to the cell this handle aliases. Valid
    /// only for cells allocated through `HxRef::new`; on a null handle or a
    /// standalone cell it fails with `NullAccess`.
    pub fn self_ref(&self, st: &CellStore<T>) -> (r: Result<HxRef<T>, HxError>)
        ensures
            st.valid(*self) && st.minted(*self) ==> (r matches Ok(h) && h.id_spec()
                == self.id_spec()),
            !(st.valid(*self) && st.minted(*self)) ==> (r matches Err(e) && e
                == HxError::NullAccess),
    {
        if self.id == 0 || self.id > st.slots.len() {
            Err(HxError::NullAccess)
        } else if st.slots[self.id - 1].minted {
            Ok(HxRef { id: self.id, phantom: core::marker::PhantomData })
        } else {
            Err(HxError::NullAccess)
        }
    }
}

impl<T> crate::hxref::HxRefLike for HxRef<T> {
    open spec fn ptr_spec(&self) -> int {
        self.id_spec()
    }

    fn ptr_usize(&self) -> (r: usize)
        ensures
            r as int == self.ptr_spec(),
    {
        self.id
    }
}

impl<T> crate::array::RcPtrEq for HxRef<T> {
    open spec fn ref_id(&self) -> int {
        self.id_spec()
    }

    fn rc_ptr_eq(&self, other: &Self) -> (r: bool)
        ensures
            r == (self.ref_id() == other.ref_id()),
    {
        self.id == other.id
    }
}

/// Aliasing law for cells: a handle clone is the same identity, so a value
/// written through one handle is read back through every handle with that
/// identity.
pub proof fn lemma_cell_alias_mutation_visible<T>(
    st0: CellStore<T>,
    st1: CellStore<T>,
    a: HxRef<T>,
    b: HxRef<T>,
    v: T,
)
    requires
        b.id_spec() == a.id_spec(),
        st0.valid(a),
        st1@ == st0@.update(a.id_spec() - 1, (v, st0.minted(a))),
    ensures
        st1.valid(b),
        st1.value_of(b) == v,
{
}

} // verus!
