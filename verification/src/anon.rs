use vstd::prelude::*;

use crate::HxError;
use crate::array::{Array, ArrayStore};
use crate::cell::{CellStore, HxRef};
use crate::dynamic::{AnyClone, Dynamic, FieldTable, key_index, table_lookup};
use crate::string::texts_of;

verus! {

/// Runtime representation of an anonymous object (a structural record): a
/// string-keyed mutable table of dynamic values, stored behind a cell so
/// that assignment aliases.
#[derive(Debug)]
pub struct Anon {
    pub fields: FieldTable,
}

impl Anon {
    pub fn new() -> (a: Anon)
        ensures
            a.fields.entries() == Seq::<(Seq<char>, Dynamic)>::empty(),
            a.fields.wf(),
    {
        Anon { fields: FieldTable::new() }
    }

    /// Store a typed value under `key`.
    pub fn set<T: AnyClone>(&mut self, key: &str, value: T)
        requires
            old(self).fields.wf(),
        ensures
            final(self).fields.wf(),
            ({
                let es = old(self).fields.entries();
                let j = key_index(es, key@, 0);
                let boxed = table_lookup(final(self).fields.entries(), key@);
                &&& boxed matches Some(d) && d.payload_spec() == Some(value.to_payload_spec())
                    && d.identity_spec() == 0 && d.type_id_spec() is None
                &&& (j == -1 ==> final(self).fields.entries().len() == es.len() + 1)
                &&& (j != -1 ==> final(self).fields.entries().len() == es.len())
            }),
    {
        proof {
            crate::dynamic::lemma_key_index_props(self.fields.entries(), key@, 0);
        }
        self.fields.set(key, Dynamic::from(value));
    }

    /// Recover the typed value stored under `key`: `NullAccess` when the
    /// field is missing, `TypeMismatch` when it holds a value of another
    /// kind.
    pub fn get<T: AnyClone>(&self, key: &str) -> (r: Result<T, HxError>)
        ensures
            ({
                match table_lookup(self.fields.entries(), key@) {
                    None => r matches Err(e) && e == HxError::NullAccess,
                    Some(d) => match d.payload_spec() {
                        None => r matches Err(e) && e == HxError::TypeMismatch,
                        Some(p) => match r {
                            Ok(v) => v.to_payload_spec() == p,
                            Err(e) => e == HxError::TypeMismatch && (forall|v: T|
                                (#[trigger] v.to_payload_spec()) != p),
                        },
                    },
                }
            }),
    {
        match self.fields.get_opt(key) {
            None => Err(HxError::NullAccess),
            Some(d) => match d.clone().downcast::<T>() {
                Ok(v) => Ok(v),
                Err(_) => Err(HxError::TypeMismatch),
            },
        }
    }

    /// The field's dynamic value, or null when missing.
    pub fn get_dyn(&self, key: &str) -> (r: Dynamic)
        ensures
            match table_lookup(self.fields.entries(), key@) {
                Some(d) => r == d,
                None => r.is_fresh_null(),
            },
    {
        match self.fields.get_opt(key) {
            Some(d) => d.clone(),
            None => Dynamic::null(),
        }
    }

    /// Store a dynamic value under `key`.
    pub fn set_dyn(&mut self, key: &str, value: Dynamic)
        requires
            old(self).fields.wf(),
        ensures
            final(self).fields.wf(),
            table_lookup(final(self).fields.entries(), key@) == Some(value),
            ({
                let es = old(self).fields.entries();
                let j = key_index(es, key@, 0);
                if j == -1 {
                    final(self).fields.entries() == es.push((key@, value))
                } else {
                    final(self).fields.entries() == es.update(j, (key@, value))
                }
            }),
    {
        self.fields.set(key, value);
    }

    /// Whether a field named `key` exists.
    pub fn has_key(&self, key: &str) -> (r: bool)
        ensures
            r == (table_lookup(self.fields.entries(), key@) is Some),
    {
        self.fields.has_key(key)
    }

    /// The field names, in insertion order, as a fresh shared sequence.
    pub fn keys(&self, st: &mut ArrayStore<String>) -> (a: Array<String>)
        requires
            old(st)@.len() < usize::MAX,
        ensures
            a.id_spec() == old(st)@.len() + 1,
            final(st)@ == old(st)@.push(final(st).seq_of(a)),
            ({
                let ks = texts_of(final(st).seq_of(a));
                &&& ks.len() == self.fields.entries().len()
                &&& forall|i: int|
                    0 <= i < ks.len() ==> #[trigger] ks[i] == self.fields.entries()[i].0
            }),
    {
        let v = self.fields.keys_vec();
        Array::from_vec(st, v)
    }
}

impl Clone for Anon {
    /// Cloning copies the fields as they stand; the copy is independent.
    fn clone(&self) -> (res: Self)
        ensures
            res.fields.entries() == self.fields.entries(),
            res.fields.wf() == self.fields.wf(),
    {
        Anon { fields: self.fields.clone() }
    }
}

/// The field of the anonymous object `obj` aliases, or null when missing;
/// fails with `NullAccess` on a null or foreign handle.
pub fn anon_get(obj: &HxRef<Anon>, st: &CellStore<Anon>, key: &str) -> (r: Result<
    Dynamic,
    HxError,
>)
    ensures
        !st.valid(*obj) ==> (r matches Err(e) && e == HxError::NullAccess),
        st.valid(*obj) ==> (r matches Ok(v) && ({
            match table_lookup(st.value_of(*obj).fields.entries(), key@) {
                Some(d) => v == d,
                None => v.is_fresh_null(),
            }
        })),
{
    match obj.borrow(st) {
        Err(e) => Err(e),
        Ok(a) => Ok(a.get_dyn(key)),
    }
}

/// Store `value` under `key` in the anonymous object `obj` aliases; fails
/// with `NullAccess` on a null or foreign handle.
pub fn anon_set(obj: &HxRef<Anon>, st: &mut CellStore<Anon>, key: &str, value: Dynamic) -> (r:
    Result<(), HxError>)
    requires
        old(st).valid(*obj) ==> old(st).value_of(*obj).fields.wf(),
    ensures
        !old(st).valid(*obj) ==> (r matches Err(e) && e == HxError::NullAccess && final(st)@
            == old(st)@),
        old(st).valid(*obj) ==> (r is Ok && {
            let t = final(st).value_of(*obj).fields;
            &&& final(st)@ == old(st)@.update(
                obj.id_spec() - 1,
                (final(st).value_of(*obj), old(st).minted(*obj)),
            )
            &&& t.wf()
            &&& table_lookup(t.entries(), key@) == Some(value)
            &&& ({
                let es = old(st).value_of(*obj).fields.entries();
                let j = key_index(es, key@, 0);
                if j == -1 {
                    t.entries() == es.push((key@, value))
                } else {
                    t.entries() == es.update(j, (key@, value))
                }
            })
        }),
{
    if obj.is_null() {
        return Err(HxError::NullAccess);
    }
    match obj.borrow(st) {
        Err(_) => Err(HxError::NullAccess),
        Ok(_) => {
            let a = obj.borrow_mut(st);
            a.fields.set(key, value);
            Ok(())
        },
    }
}

/// Whether the anonymous object `obj` aliases has a field named `key`;
/// fails with `NullAccess` on a null or foreign handle.
pub fn anon_has(obj: &HxRef<Anon>, st: &CellStore<Anon>, key: &str) -> (r: Result<bool, HxError>)
    ensures
        !st.valid(*obj) ==> (r matches Err(e) && e == HxError::NullAccess),
        st.valid(*obj) ==> r == Ok::<bool, HxError>(
            table_lookup(st.value_of(*obj).fields.entries(), key@) is Some,
        ),
{
    match obj.borrow(st) {
        Err(e) => Err(e),
        Ok(a) => Ok(a.has_key(key)),
    }
}

/// The field names of the anonymous object `obj` aliases, in insertion
/// order, as a fresh shared sequence; fails with `NullAccess` on a null or
/// foreign handle.
pub fn anon_keys(obj: &HxRef<Anon>, st: &CellStore<Anon>, strings: &mut ArrayStore<String>) -> (r:
    Result<Array<String>, HxError>)
    requires
        old(strings)@.len() < usize::MAX,
    ensures
        !st.valid(*obj) ==> (r matches Err(e) && e == HxError::NullAccess && final(strings)@
            == old(strings)@),
        st.valid(*obj) ==> (r matches Ok(a) && {
            let ks = texts_of(final(strings).seq_of(a));
            &&& a.id_spec() == old(strings)@.len() + 1
            &&& final(strings)@ == old(strings)@.push(final(strings).seq_of(a))
            &&& ks.len() == st.value_of(*obj).fields.entries().len()
            &&& forall|i: int|
                0 <= i < ks.len() ==> #[trigger] ks[i] == st.value_of(*obj).fields.entries()[i].0
        }),
{
    match obj.borrow(st) {
        Err(e) => Err(e),
        Ok(a) => Ok(a.keys(strings)),
    }
}

/// Clones of all fields of the anonymous object `obj` aliases, in insertion
/// order; fails with `NullAccess` on a null or foreign handle.
pub fn anon_entries(obj: &HxRef<Anon>, st: &CellStore<Anon>) -> (r: Result<
    Vec<(String, Dynamic)>,
    HxError,
>)
    ensures
        !st.valid(*obj) ==> (r matches Err(e) && e == HxError::NullAccess),
        st.valid(*obj) ==> (r matches Ok(v) && {
            let es = st.value_of(*obj).fields.entries();
            &&& v@.len() == es.len()
            &&& forall|i: int|
                0 <= i < v@.len() ==> ((#[trigger] v@[i]).0@ == es[i].0 && v@[i].1 == es[i].1)
        }),
{
    match obj.borrow(st) {
        Err(e) => Err(e),
        Ok(a) => Ok(a.fields.entries_vec()),
    }
}

} // verus!
