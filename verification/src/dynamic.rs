use vstd::prelude::*;

use crate::HxError;
use crate::anon::Anon;
use crate::array::{Array, ArrayStore};
use crate::cell::{CellStore, HxRef};
use crate::hxref::HxRefLike;
use crate::string::HxString;

verus! {

/// The payloads a dynamic value can carry: the primitive kinds the runtime
/// understands, nullable primitives, handles to shared sequences and
/// objects, runtime errors, a float literal kept as its decimal text (this
/// library computes with integers only), and an opaque marker carrying just
/// a type name.
#[derive(Debug)]
pub enum Payload {
    Int(i32),
    Bool(bool),
    Str(String),
    HxStr(HxString),
    NullInt(Option<i32>),
    NullBool(Option<bool>),
    NullStr(Option<String>),
    FloatLit(String),
    ArrDyn(Array<Dynamic>),
    ArrInt(Array<i32>),
    ArrBool(Array<bool>),
    ArrStr(Array<String>),
    Obj(HxRef<DynObject>),
    AnonObj(HxRef<Anon>),
    Fault(HxError),
    Opaque(String),
}

/// Type-erased dynamic value: an optional payload (`None` is the null
/// value), an identity for reference-like payloads (`0` otherwise), and an
/// optional compiler-assigned stable type id that survives re-boxing.
#[derive(Debug)]
pub struct Dynamic {
    payload: Option<Payload>,
    identity: usize,
    type_id: Option<u32>,
}

/// String-keyed mutable record: the fields in insertion order, each key at
/// most once.
#[derive(Debug)]
pub struct FieldTable {
    fields: Vec<(String, Dynamic)>,
}

/// Runtime-backed dynamic object with string keys, stored behind a cell so
/// that assignment aliases.
#[derive(Debug)]
pub struct DynObject {
    pub fields: FieldTable,
}

/// The shared allocations every dynamic value may point into: one store per
/// sequence element kind, and one cell store per object kind.
pub struct DynHeap {
    pub dyn_arrays: ArrayStore<Dynamic>,
    pub int_arrays: ArrayStore<i32>,
    pub bool_arrays: ArrayStore<bool>,
    pub string_arrays: ArrayStore<String>,
    pub objects: CellStore<DynObject>,
    pub anons: CellStore<Anon>,
}

impl DynHeap {
    pub fn new() -> (h: DynHeap)
        ensures
            h.dyn_arrays@ == Seq::<Seq<Dynamic>>::empty(),
            h.int_arrays@ == Seq::<Seq<i32>>::empty(),
            h.bool_arrays@ == Seq::<Seq<bool>>::empty(),
            h.string_arrays@ == Seq::<Seq<String>>::empty(),
            h.objects@ == Seq::<(DynObject, bool)>::empty(),
            h.anons@ == Seq::<(Anon, bool)>::empty(),
    {
        DynHeap {
            dyn_arrays: ArrayStore::new(),
            int_arrays: ArrayStore::new(),
            bool_arrays: ArrayStore::new(),
            string_arrays: ArrayStore::new(),
            objects: CellStore::new(),
            anons: CellStore::new(),
        }
    }
}

impl Clone for Payload {
    /// Cloning a payload keeps it: primitives are copied, strings keep their
    /// text, and handles keep their identity.
    fn clone(&self) -> (res: Self)
        ensures
            res == *self,
    {
        match self {
            Payload::Int(x) => Payload::Int(*x),
            Payload::Bool(b) => Payload::Bool(*b),
            Payload::Str(s) => Payload::Str(s.clone()),
            Payload::HxStr(s) => Payload::HxStr(s.clone()),
            Payload::NullInt(o) => Payload::NullInt(match o {
                Some(x) => Some(*x),
                None => None,
            }),
            Payload::NullBool(o) => Payload::NullBool(match o {
                Some(x) => Some(*x),
                None => None,
            }),
            Payload::NullStr(o) => Payload::NullStr(match o {
                Some(x) => Some(x.clone()),
                None => None,
            }),
            Payload::FloatLit(s) => Payload::FloatLit(s.clone()),
            Payload::ArrDyn(a) => Payload::ArrDyn(a.clone()),
            Payload::ArrInt(a) => Payload::ArrInt(a.clone()),
            Payload::ArrBool(a) => Payload::ArrBool(a.clone()),
            Payload::ArrStr(a) => Payload::ArrStr(a.clone()),
            Payload::Obj(r) => Payload::Obj(r.clone()),
            Payload::AnonObj(r) => Payload::AnonObj(r.clone()),
            Payload::Fault(e) => Payload::Fault(e.clone()),
            Payload::Opaque(s) => Payload::Opaque(s.clone()),
        }
    }
}

impl Dynamic {
    /// The payload; `None` is the null value.
    pub closed spec fn payload_spec(&self) -> Option<Payload> {
        self.payload
    }

    /// The identity for reference-like payloads; `0` otherwise.
    pub closed spec fn identity_spec(&self) -> int {
        self.identity as int
    }

    /// The optional stable type id carried across dynamic boundaries.
    pub closed spec fn type_id_spec(&self) -> Option<u32> {
        self.type_id
    }

    pub open spec fn is_null_spec(&self) -> bool {
        self.payload_spec() is None
    }

    /// A freshly made null value: no payload, identity `0`, no type id.
    pub open spec fn is_fresh_null(&self) -> bool {
        &&& self.payload_spec() is None
        &&& self.identity_spec() == 0
        &&& self.type_id_spec() is None
    }
}

impl Clone for Dynamic {
    /// Cloning keeps payload, identity and type id.
    fn clone(&self) -> (res: Self)
        ensures
            res == *self,
    {
        Dynamic {
            payload: match &self.payload {
                Some(p) => Some(p.clone()),
                None => None,
            },
            identity: self.identity,
            type_id: self.type_id,
        }
    }
}

impl Default for Dynamic {
    /// Uninitialized dynamic values are null.
    fn default() -> (res: Self)
        ensures
            res.is_null_spec(),
            res.identity_spec() == 0,
            res.type_id_spec() is None,
    {
        Dynamic::null()
    }
}

/// Values the runtime can box into and recover out of a `Dynamic`. Each
/// implementing type owns one payload shape; recovery fails exactly on
/// payloads no value of the type boxes to.
pub trait AnyClone: Sized {
    /// The payload this value boxes to.
    spec fn to_payload_spec(&self) -> Payload;

    fn into_payload(self) -> (p: Payload)
        ensures
            p == self.to_payload_spec(),
    ;

    fn from_payload(p: Payload) -> (r: Result<Self, Payload>)
        ensures
            r matches Ok(v) ==> v.to_payload_spec() == p,
            r matches Err(q) ==> q == p && (forall|v: Self| (#[trigger] v.to_payload_spec())
                != p),
    ;

    fn payload_ref<'a>(p: &'a Payload) -> (r: Option<&'a Self>)
        ensures
            r matches Some(v) ==> v.to_payload_spec() == *p,
            r is None ==> (forall|v: Self| (#[trigger] v.to_payload_spec()) != *p),
    ;
}

impl AnyClone for i32 {
    open spec fn to_payload_spec(&self) -> Payload {
        Payload::Int(*self)
    }

    fn into_payload(self) -> (p: Payload)
        ensures
            p == self.to_payload_spec(),
    {
        Payload::Int(self)
    }

    fn from_payload(p: Payload) -> (r: Result<Self, Payload>)
        ensures
            r matches Ok(v) ==> v.to_payload_spec() == p,
            r matches Err(q) ==> q == p && (forall|v: Self| (#[trigger] v.to_payload_spec())
                != p),
    {
        match p {
            Payload::Int(x) => Ok(x),
            q => Err(q),
        }
    }

    fn payload_ref<'a>(p: &'a Payload) -> (r: Option<&'a Self>)
        ensures
            r matches Some(v) ==> v.to_payload_spec() == *p,
            r is None ==> (forall|v: Self| (#[trigger] v.to_payload_spec()) != *p),
    {
        match p {
            Payload::Int(x) => Some(x),
            _ => None,
        }
    }
}

impl AnyClone for bool {
    open spec fn to_payload_spec(&self) -> Payload {
        Payload::Bool(*self)
    }

    fn into_payload(self) -> (p: Payload)
        ensures
            p == self.to_payload_spec(),
    {
        Payload::Bool(self)
    }

    fn from_payload(p: Payload) -> (r: Result<Self, Payload>)
        ensures
            r matches Ok(v) ==> v.to_payload_spec() == p,
            r matches Err(q) ==> q == p && (forall|v: Self| (#[trigger] v.to_payload_spec())
                != p),
    {
        match p {
            Payload::Bool(x) => Ok(x),
            q => Err(q),
        }
    }

    fn payload_ref<'a>(p: &'a Payload) -> (r: Option<&'a Self>)
        ensures
            r matches Some(v) ==> v.to_payload_spec() == *p,
            r is None ==> (forall|v: Self| (#[trigger] v.to_payload_spec()) != *p),
    {
        match p {
            Payload::Bool(x) => Some(x),
            _ => None,
        }
    }
}

impl AnyClone for String {
    open spec fn to_payload_spec(&self) -> Payload {
        Payload::Str(*self)
    }

    fn into_payload(self) -> (p: Payload)
        ensures
            p == self.to_payload_spec(),
    {
        Payload::Str(self)
    }

    fn from_payload(p: Payload) -> (r: Result<Self, Payload>)
        ensures
            r matches Ok(v) ==> v.to_payload_spec() == p,
            r matches Err(q) ==> q == p && (forall|v: Self| (#[trigger] v.to_payload_spec())
                != p),
    {
        match p {
            Payload::Str(x) => Ok(x),
            q => Err(q),
        }
    }

    fn payload_ref<'a>(p: &'a Payload) -> (r: Option<&'a Self>)
        ensures
            r matches Some(v) ==> v.to_payload_spec() == *p,
            r is None ==> (forall|v: Self| (#[trigger] v.to_payload_spec()) != *p),
    {
        match p {
            Payload::Str(x) => Some(x),
            _ => None,
        }
    }
}


impl AnyClone for HxString {
    open spec fn to_payload_spec(&self) -> Payload {
        Payload::HxStr(*self)
    }

    fn into_payload(self) -> (p: Payload)
        ensures
            p == self.to_payload_spec(),
    {
        Payload::HxStr(self)
    }

    fn from_payload(p: Payload) -> (r: Result<Self, Payload>)
        ensures
            r matches Ok(v) ==> v.to_payload_spec() == p,
            r matches Err(q) ==> q == p && (forall|v: Self| (#[trigger] v.to_payload_spec())
                != p),
    {
        match p {
            Payload::HxStr(x) => Ok(x),
            q => Err(q),
        }
    }

    fn payload_ref<'a>(p: &'a Payload) -> (r: Option<&'a Self>)
        ensures
            r matches Some(v) ==> v.to_payload_spec() == *p,
            r is None ==> (forall|v: Self| (#[trigger] v.to_payload_spec()) != *p),
    {
        match p {
            Payload::HxStr(x) => Some(x),
            _ => None,
        }
    }
}

impl AnyClone for Option<i32> {
    open spec fn to_payload_spec(&self) -> Payload {
        Payload::NullInt(*self)
    }

    fn into_payload(self) -> (p: Payload)
        ensures
            p == self.to_payload_spec(),
    {
        Payload::NullInt(self)
    }

    fn from_payload(p: Payload) -> (r: Result<Self, Payload>)
        ensures
            r matches Ok(v) ==> v.to_payload_spec() == p,
            r matches Err(q) ==> q == p && (forall|v: Self| (#[trigger] v.to_payload_spec())
                != p),
    {
        match p {
            Payload::NullInt(x) => Ok(x),
            q => Err(q),
        }
    }

    fn payload_ref<'a>(p: &'a Payload) -> (r: Option<&'a Self>)
        ensures
            r matches Some(v) ==> v.to_payload_spec() == *p,
            r is None ==> (forall|v: Self| (#[trigger] v.to_payload_spec()) != *p),
    {
        match p {
            Payload::NullInt(x) => Some(x),
            _ => None,
        }
    }
}

impl AnyClone for Option<bool> {
    open spec fn to_payload_spec(&self) -> Payload {
        Payload::NullBool(*self)
    }

    fn into_payload(self) -> (p: Payload)
        ensures
            p == self.to_payload_spec(),
    {
        Payload::NullBool(self)
    }

    fn from_payload(p: Payload) -> (r: Result<Self, Payload>)
        ensures
            r matches Ok(v) ==> v.to_payload_spec() == p,
            r matches Err(q) ==> q == p && (forall|v: Self| (#[trigger] v.to_payload_spec())
                != p),
    {
        match p {
            Payload::NullBool(x) => Ok(x),
            q => Err(q),
        }
    }

    fn payload_ref<'a>(p: &'a Payload) -> (r: Option<&'a Self>)
        ensures
            r matches Some(v) ==> v.to_payload_spec() == *p,
            r is None ==> (forall|v: Self| (#[trigger] v.to_payload_spec()) != *p),
    {
        match p {
            Payload::NullBool(x) => Some(x),
            _ => None,
        }
    }
}

impl AnyClone for Option<String> {
    open spec fn to_payload_spec(&self) -> Payload {
        Payload::NullStr(*self)
    }

    fn into_payload(self) -> (p: Payload)
        ensures
            p == self.to_payload_spec(),
    {
        Payload::NullStr(self)
    }

    fn from_payload(p: Payload) -> (r: Result<Self, Payload>)
        ensures
            r matches Ok(v) ==> v.to_payload_spec() == p,
            r matches Err(q) ==> q == p && (forall|v: Self| (#[trigger] v.to_payload_spec())
                != p),
    {
        match p {
            Payload::NullStr(x) => Ok(x),
            q => Err(q),
        }
    }

    fn payload_ref<'a>(p: &'a Payload) -> (r: Option<&'a Self>)
        ensures
            r matches Some(v) ==> v.to_payload_spec() == *p,
            r is None ==> (forall|v: Self| (#[trigger] v.to_payload_spec()) != *p),
    {
        match p {
            Payload::NullStr(x) => Some(x),
            _ => None,
        }
    }
}

impl AnyClone for Array<Dynamic> {
    open spec fn to_payload_spec(&self) -> Payload {
        Payload::ArrDyn(*self)
    }

    fn into_payload(self) -> (p: Payload)
        ensures
            p == self.to_payload_spec(),
    {
        Payload::ArrDyn(self)
    }

    fn from_payload(p: Payload) -> (r: Result<Self, Payload>)
        ensures
            r matches Ok(v) ==> v.to_payload_spec() == p,
            r matches Err(q) ==> q == p && (forall|v: Self| (#[trigger] v.to_payload_spec())
                != p),
    {
        match p {
            Payload::ArrDyn(x) => Ok(x),
            q => Err(q),
        }
    }

    fn payload_ref<'a>(p: &'a Payload) -> (r: Option<&'a Self>)
        ensures
            r matches Some(v) ==> v.to_payload_spec() == *p,
            r is None ==> (forall|v: Self| (#[trigger] v.to_payload_spec()) != *p),
    {
        match p {
            Payload::ArrDyn(x) => Some(x),
            _ => None,
        }
    }
}

impl AnyClone for Array<i32> {
    open spec fn to_payload_spec(&self) -> Payload {
        Payload::ArrInt(*self)
    }

    fn into_payload(self) -> (p: Payload)
        ensures
            p == self.to_payload_spec(),
    {
        Payload::ArrInt(self)
    }

    fn from_payload(p: Payload) -> (r: Result<Self, Payload>)
        ensures
            r matches Ok(v) ==> v.to_payload_spec() == p,
            r matches Err(q) ==> q == p && (forall|v: Self| (#[trigger] v.to_payload_spec())
                != p),
    {
        match p {
            Payload::ArrInt(x) => Ok(x),
            q => Err(q),
        }
    }

    fn payload_ref<'a>(p: &'a Payload) -> (r: Option<&'a Self>)
        ensures
            r matches Some(v) ==> v.to_payload_spec() == *p,
            r is None ==> (forall|v: Self| (#[trigger] v.to_payload_spec()) != *p),
    {
        match p {
            Payload::ArrInt(x) => Some(x),
            _ => None,
        }
    }
}

impl AnyClone for Array<bool> {
    open spec fn to_payload_spec(&self) -> Payload {
        Payload::ArrBool(*self)
    }

    fn into_payload(self) -> (p: Payload)
        ensures
            p == self.to_payload_spec(),
    {
        Payload::ArrBool(self)
    }

    fn from_payload(p: Payload) -> (r: Result<Self, Payload>)
        ensures
            r matches Ok(v) ==> v.to_payload_spec() == p,
            r matches Err(q) ==> q == p && (forall|v: Self| (#[trigger] v.to_payload_spec())
                != p),
    {
        match p {
            Payload::ArrBool(x) => Ok(x),
            q => Err(q),
        }
    }

    fn payload_ref<'a>(p: &'a Payload) -> (r: Option<&'a Self>)
        ensures
            r matches Some(v) ==> v.to_payload_spec() == *p,
            r is None ==> (forall|v: Self| (#[trigger] v.to_payload_spec()) != *p),
    {
        match p {
            Payload::ArrBool(x) => Some(x),
            _ => None,
        }
    }
}

impl AnyClone for Array<String> {
    open spec fn to_payload_spec(&self) -> Payload {
        Payload::ArrStr(*self)
    }

    fn into_payload(self) -> (p: Payload)
        ensures
            p == self.to_payload_spec(),
    {
        Payload::ArrStr(self)
    }

    fn from_payload(p: Payload) -> (r: Result<Self, Payload>)
        ensures
            r matches Ok(v) ==> v.to_payload_spec() == p,
            r matches Err(q) ==> q == p && (forall|v: Self| (#[trigger] v.to_payload_spec())
                != p),
    {
        match p {
            Payload::ArrStr(x) => Ok(x),
            q => Err(q),
        }
    }

    fn payload_ref<'a>(p: &'a Payload) -> (r: Option<&'a Self>)
        ensures
            r matches Some(v) ==> v.to_payload_spec() == *p,
            r is None ==> (forall|v: Self| (#[trigger] v.to_payload_spec()) != *p),
    {
        match p {
            Payload::ArrStr(x) => Some(x),
            _ => None,
        }
    }
}

impl AnyClone for HxRef<DynObject> {
    open spec fn to_payload_spec(&self) -> Payload {
        Payload::Obj(*self)
    }

    fn into_payload(self) -> (p: Payload)
        ensures
            p == self.to_payload_spec(),
    {
        Payload::Obj(self)
    }

    fn from_payload(p: Payload) -> (r: Result<Self, Payload>)
        ensures
            r matches Ok(v) ==> v.to_payload_spec() == p,
            r matches Err(q) ==> q == p && (forall|v: Self| (#[trigger] v.to_payload_spec())
                != p),
    {
        match p {
            Payload::Obj(x) => Ok(x),
            q => Err(q),
        }
    }

    fn payload_ref<'a>(p: &'a Payload) -> (r: Option<&'a Self>)
        ensures
            r matches Some(v) ==> v.to_payload_spec() == *p,
            r is None ==> (forall|v: Self| (#[trigger] v.to_payload_spec()) != *p),
    {
        match p {
            Payload::Obj(x) => Some(x),
            _ => None,
        }
    }
}

impl AnyClone for HxRef<Anon> {
    open spec fn to_payload_spec(&self) -> Payload {
        Payload::AnonObj(*self)
    }

    fn into_payload(self) -> (p: Payload)
        ensures
            p == self.to_payload_spec(),
    {
        Payload::AnonObj(self)
    }

    fn from_payload(p: Payload) -> (r: Result<Self, Payload>)
        ensures
            r matches Ok(v) ==> v.to_payload_spec() == p,
            r matches Err(q) ==> q == p && (forall|v: Self| (#[trigger] v.to_payload_spec())
                != p),
    {
        match p {
            Payload::AnonObj(x) => Ok(x),
            q => Err(q),
        }
    }

    fn payload_ref<'a>(p: &'a Payload) -> (r: Option<&'a Self>)
        ensures
            r matches Some(v) ==> v.to_payload_spec() == *p,
            r is None ==> (forall|v: Self| (#[trigger] v.to_payload_spec()) != *p),
    {
        match p {
            Payload::AnonObj(x) => Some(x),
            _ => None,
        }
    }
}

impl AnyClone for HxError {
    open spec fn to_payload_spec(&self) -> Payload {
        Payload::Fault(*self)
    }

    fn into_payload(self) -> (p: Payload)
        ensures
            p == self.to_payload_spec(),
    {
        Payload::Fault(self)
    }

    fn from_payload(p: Payload) -> (r: Result<Self, Payload>)
        ensures
            r matches Ok(v) ==> v.to_payload_spec() == p,
            r matches Err(q) ==> q == p && (forall|v: Self| (#[trigger] v.to_payload_spec())
                != p),
    {
        match p {
            Payload::Fault(x) => Ok(x),
            q => Err(q),
        }
    }

    fn payload_ref<'a>(p: &'a Payload) -> (r: Option<&'a Self>)
        ensures
            r matches Some(v) ==> v.to_payload_spec() == *p,
            r is None ==> (forall|v: Self| (#[trigger] v.to_payload_spec()) != *p),
    {
        match p {
            Payload::Fault(x) => Some(x),
            _ => None,
        }
    }
}

impl Dynamic {
    /// The null dynamic value.
    pub fn null() -> (r: Dynamic)
        ensures
            r.is_null_spec(),
            r.identity_spec() == 0,
            r.type_id_spec() is None,
    {
        Dynamic { payload: None, identity: 0, type_id: None }
    }

    pub fn is_null(&self) -> (r: bool)
        ensures
            r == self.is_null_spec(),
    {
        self.payload.is_none()
    }

    /// Box a value without identity or type id.
    pub fn from<T: AnyClone>(value: T) -> (r: Dynamic)
        ensures
            r.payload_spec() == Some(value.to_payload_spec()),
            r.identity_spec() == 0,
            r.type_id_spec() is None,
    {
        Dynamic { payload: Some(value.into_payload()), identity: 0, type_id: None }
    }

    /// Box a reference-like value, recording its identity so that equality
    /// through the dynamic boundary stays reference equality.
    pub fn from_ref<T: AnyClone + HxRefLike>(value: T) -> (r: Dynamic)
        ensures
            r.payload_spec() == Some(value.to_payload_spec()),
            r.identity_spec() == value.ptr_spec(),
            r.type_id_spec() is None,
    {
        let identity = value.ptr_usize();
        Dynamic { payload: Some(value.into_payload()), identity, type_id: None }
    }

    /// Box a value and attach a stable compiler-assigned type id.
    pub fn from_with_type_id<T: AnyClone>(value: T, type_id: u32) -> (r: Dynamic)
        ensures
            r.payload_spec() == Some(value.to_payload_spec()),
            r.identity_spec() == 0,
            r.type_id_spec() == Some(type_id),
    {
        Dynamic { payload: Some(value.into_payload()), identity: 0, type_id: Some(type_id) }
    }

    /// Box a reference-like value with identity and a stable type id.
    pub fn from_ref_with_type_id<T: AnyClone + HxRefLike>(value: T, type_id: u32) -> (r: Dynamic)
        ensures
            r.payload_spec() == Some(value.to_payload_spec()),
            r.identity_spec() == value.ptr_spec(),
            r.type_id_spec() == Some(type_id),
    {
        let identity = value.ptr_usize();
        Dynamic { payload: Some(value.into_payload()), identity, type_id: Some(type_id) }
    }

    /// Box a non-integral number kept as its decimal text (this library
    /// computes with integers only; such values pass through unchanged).
    pub fn from_float_text(text: String) -> (r: Dynamic)
        ensures
            r.payload_spec() == Some(Payload::FloatLit(text)),
            r.identity_spec() == 0,
            r.type_id_spec() is None,
    {
        Dynamic { payload: Some(Payload::FloatLit(text)), identity: 0, type_id: None }
    }

    /// Box a value of a kind outside the modeled set, keeping only a stable
    /// type name for display.
    pub fn from_opaque(kind_name: String) -> (r: Dynamic)
        ensures
            r.payload_spec() == Some(Payload::Opaque(kind_name)),
            r.identity_spec() == 0,
            r.type_id_spec() is None,
    {
        Dynamic { payload: Some(Payload::Opaque(kind_name)), identity: 0, type_id: None }
    }

    /// The recorded identity; `0` for null or non-reference payloads.
    pub fn ptr_usize(&self) -> (r: usize)
        ensures
            r as int == self.identity_spec(),
    {
        self.identity
    }

    /// Borrow the payload, if any.
    pub fn payload_opt(&self) -> (r: Option<&Payload>)
        ensures
            match self.payload_spec() {
                Some(p) => r matches Some(q) && *q == p,
                None => r is None,
            },
    {
        match &self.payload {
            Some(p) => Some(p),
            None => None,
        }
    }

    /// Borrow the decimal text of a float-literal payload, if that is what
    /// this value holds.
    pub fn float_lit_ref(&self) -> (r: Option<&String>)
        ensures
            match self.payload_spec() {
                Some(Payload::FloatLit(t)) => r matches Some(u) && *u == t,
                _ => r is None,
            },
    {
        match &self.payload {
            Some(Payload::FloatLit(s)) => Some(s),
            _ => None,
        }
    }

    /// The recorded stable type id, if any.
    pub fn type_id(&self) -> (r: Option<u32>)
        ensures
            r == self.type_id_spec(),
    {
        self.type_id
    }

    /// Borrow the payload as a `T`; `None` when the value is null or the
    /// payload is not one a `T` boxes to.
    pub fn downcast_ref<T: AnyClone>(&self) -> (r: Option<&T>)
        ensures
            self.payload_spec() is None ==> r is None,
            self.payload_spec() matches Some(p) ==> {
                &&& (r matches Some(v) ==> v.to_payload_spec() == p)
                &&& (r is None ==> (forall|v: T| (#[trigger] v.to_payload_spec()) != p))
            },
    {
        match &self.payload {
            None => None,
            Some(p) => T::payload_ref(p),
        }
    }

    /// Recover the payload as a `T`; on a null value or a payload mismatch
    /// the original dynamic value comes back unchanged.
    pub fn downcast<T: AnyClone>(self) -> (r: Result<T, Dynamic>)
        ensures
            self.payload_spec() is None ==> (r matches Err(e) && e == self),
            self.payload_spec() matches Some(p) ==> match r {
                Ok(v) => v.to_payload_spec() == p,
                Err(e) => e == self && (forall|v: T| (#[trigger] v.to_payload_spec()) != p),
            },
    {
        match self.payload {
            None => Err(Dynamic { payload: None, identity: self.identity, type_id: self.type_id }),
            Some(p) => match T::from_payload(p) {
                Ok(v) => Ok(v),
                Err(q) => Err(Dynamic {
                    payload: Some(q),
                    identity: self.identity,
                    type_id: self.type_id,
                }),
            },
        }
    }
}

impl HxRefLike for Dynamic {
    open spec fn ptr_spec(&self) -> int {
        self.identity_spec()
    }

    fn ptr_usize(&self) -> (r: usize)
        ensures
            r as int == self.ptr_spec(),
    {
        self.identity
    }
}

/// Box a value without identity or type id.
pub fn from<T: AnyClone>(value: T) -> (r: Dynamic)
    ensures
        r.payload_spec() == Some(value.to_payload_spec()),
        r.identity_spec() == 0,
        r.type_id_spec() is None,
{
    Dynamic::from(value)
}

/// Box a reference-like value, recording its identity.
pub fn from_ref<T: AnyClone + HxRefLike>(value: T) -> (r: Dynamic)
    ensures
        r.payload_spec() == Some(value.to_payload_spec()),
        r.identity_spec() == value.ptr_spec(),
        r.type_id_spec() is None,
{
    Dynamic::from_ref(value)
}

/// Box a value and attach a stable compiler-assigned type id.
pub fn from_with_type_id<T: AnyClone>(value: T, type_id: u32) -> (r: Dynamic)
    ensures
        r.payload_spec() == Some(value.to_payload_spec()),
        r.identity_spec() == 0,
        r.type_id_spec() == Some(type_id),
{
    Dynamic::from_with_type_id(value, type_id)
}

/// Box a reference-like value with identity and a stable type id.
pub fn from_ref_with_type_id<T: AnyClone + HxRefLike>(value: T, type_id: u32) -> (r: Dynamic)
    ensures
        r.payload_spec() == Some(value.to_payload_spec()),
        r.identity_spec() == value.ptr_spec(),
        r.type_id_spec() == Some(type_id),
{
    Dynamic::from_ref_with_type_id(value, type_id)
}

/// Whether two payloads are of the same reference-like kind, so that their
/// recorded identities name allocations in the same store.
pub open spec fn same_ref_kind(a: &Payload, b: &Payload) -> bool {
    ||| (a is ArrDyn && b is ArrDyn)
    ||| (a is ArrInt && b is ArrInt)
    ||| (a is ArrBool && b is ArrBool)
    ||| (a is ArrStr && b is ArrStr)
    ||| (a is Obj && b is Obj)
    ||| (a is AnonObj && b is AnonObj)
}

/// What dynamic equality means: two nulls are equal; null never equals a
/// value; primitives of the same kind compare by value (nullable strings by
/// their display text, so two null strings are equal); two reference-like
/// values with recorded identities compare by kind and identity; everything
/// else is unequal.
pub open spec fn dyn_eq(a: &Dynamic, b: &Dynamic) -> bool {
    match (a.payload_spec(), b.payload_spec()) {
        (None, None) => true,
        (None, Some(_)) => false,
        (Some(_), None) => false,
        (Some(pa), Some(pb)) => {
            if pa matches Payload::Int(x) && pb matches Payload::Int(y) {
                pa->Int_0 == pb->Int_0
            } else if pa matches Payload::Bool(_) && pb matches Payload::Bool(_) {
                pa->Bool_0 == pb->Bool_0
            } else if pa matches Payload::Str(_) && pb matches Payload::Str(_) {
                pa->Str_0@ == pb->Str_0@
            } else if pa matches Payload::HxStr(_) && pb matches Payload::HxStr(_) {
                pa->HxStr_0.display() == pb->HxStr_0.display()
            } else if same_ref_kind(&pa, &pb) && a.identity_spec() != 0 && b.identity_spec()
                != 0 {
                a.identity_spec() == b.identity_spec()
            } else {
                false
            }
        },
    }
}

/// Dynamic equality; see `dyn_eq`.
pub fn eq(a: &Dynamic, b: &Dynamic) -> (r: bool)
    ensures
        r == dyn_eq(a, b),
{
    match (&a.payload, &b.payload) {
        (None, None) => true,
        (None, Some(_)) => false,
        (Some(_), None) => false,
        (Some(pa), Some(pb)) => match (pa, pb) {
            (Payload::Int(x), Payload::Int(y)) => *x == *y,
            (Payload::Bool(x), Payload::Bool(y)) => *x == *y,
            (Payload::Str(x), Payload::Str(y)) => *x == *y,
            (Payload::HxStr(x), Payload::HxStr(y)) => {
                let xs = x.to_haxe_string();
                let ys = y.to_haxe_string();
                xs == ys
            },
            (Payload::ArrDyn(_), Payload::ArrDyn(_)) => ref_identities_equal(a, b),
            (Payload::ArrInt(_), Payload::ArrInt(_)) => ref_identities_equal(a, b),
            (Payload::ArrBool(_), Payload::ArrBool(_)) => ref_identities_equal(a, b),
            (Payload::ArrStr(_), Payload::ArrStr(_)) => ref_identities_equal(a, b),
            (Payload::Obj(_), Payload::Obj(_)) => ref_identities_equal(a, b),
            (Payload::AnonObj(_), Payload::AnonObj(_)) => ref_identities_equal(a, b),
            _ => false,
        },
    }
}

/// Both identities recorded and equal.
fn ref_identities_equal(a: &Dynamic, b: &Dynamic) -> (r: bool)
    ensures
        r == (a.identity_spec() != 0 && b.identity_spec() != 0 && a.identity_spec()
            == b.identity_spec()),
{
    let ia = a.ptr_usize();
    let ib = b.ptr_usize();
    ia != 0 && ib != 0 && ia == ib
}

/// First position at or after `from` whose entry has key `k`, or `-1`.
pub open spec fn key_index(es: Seq<(Seq<char>, Dynamic)>, k: Seq<char>, from: int) -> int
    decreases es.len() - from when 0 <= from <= es.len()
{
    if from >= es.len() {
        -1
    } else if es[from].0 == k {
        from
    } else {
        key_index(es, k, from + 1)
    }
}

/// The value stored under key `k`, if any.
pub open spec fn table_lookup(es: Seq<(Seq<char>, Dynamic)>, k: Seq<char>) -> Option<Dynamic> {
    let i = key_index(es, k, 0);
    if i == -1 {
        None
    } else {
        Some(es[i].1)
    }
}

/// A key search that finds nothing returns `-1`; one that finds something
/// returns a position at or after `from` whose entry has the key.
pub proof fn lemma_key_index_props(es: Seq<(Seq<char>, Dynamic)>, k: Seq<char>, from: int)
    requires
        0 <= from <= es.len(),
    ensures
        key_index(es, k, from) == -1 || (from <= key_index(es, k, from) < es.len() && es[key_index(
            es,
            k,
            from,
        )].0 == k),
        key_index(es, k, from) == -1 ==> (forall|i: int|
            from <= i < es.len() ==> (#[trigger] es[i]).0 != k),
    decreases es.len() - from,
{
    if from < es.len() && es[from].0 != k {
        lemma_key_index_props(es, k, from + 1);
    }
}

impl FieldTable {
    /// The fields in insertion order: each key's characters and its value.
    pub closed spec fn entries(&self) -> Seq<(Seq<char>, Dynamic)> {
        Seq::new(self.fields@.len(), |i: int| (self.fields@[i].0@, self.fields@[i].1))
    }

    /// Every key occurs at most once.
    pub open spec fn wf(&self) -> bool {
        forall|i: int, j: int|
            0 <= i < j < self.entries().len() ==> (#[trigger] self.entries()[i]).0 != (
            #[trigger] self.entries()[j]).0
    }

    pub fn new() -> (t: FieldTable)
        ensures
            t.entries() == Seq::<(Seq<char>, Dynamic)>::empty(),
            t.wf(),
    {
        let t = FieldTable { fields: Vec::new() };
        proof {
            assert(t.entries() =~= Seq::<(Seq<char>, Dynamic)>::empty());
        }
        t
    }

    /// The value stored under `key`, if any.
    pub fn get_opt(&self, key: &str) -> (r: Option<&Dynamic>)
        ensures
            match r {
                Some(v) => table_lookup(self.entries(), key@) == Some(*v),
                None => table_lookup(self.entries(), key@) is None,
            },
    {
        let ghost es = self.entries();
        let key_s = key.to_owned();
        let n = self.fields.len();
        let mut i: usize = 0;
        while i < n
            invariant
                es == self.entries(),
                key_s@ == key@,
                n == es.len(),
                0 <= i <= n,
                key_index(es, key@, 0) == key_index(es, key@, i as int),
            decreases n - i,
        {
            let pair = &self.fields[i];
            if pair.0 == key_s {
                proof {
                    assert(es[i as int].0 == key@);
                    assert(key_index(es, key@, i as int) == i as int);
                }
                return Some(&pair.1);
            }
            proof {
                assert(es[i as int].0 != key@);
            }
            i = i + 1;
        }
        None
    }

    /// Whether a field named `key` exists.
    pub fn has_key(&self, key: &str) -> (r: bool)
        ensures
            r == (table_lookup(self.entries(), key@) is Some),
    {
        self.get_opt(key).is_some()
    }

    /// Store `value` under `key`: an existing field is overwritten in place,
    /// a new field is appended.
    pub fn set(&mut self, key: &str, value: Dynamic)
        requires
            old(self).wf(),
        ensures
            final(self).wf(),
            ({
                let es = old(self).entries();
                let j = key_index(es, key@, 0);
                if j == -1 {
                    final(self).entries() == es.push((key@, value))
                } else {
                    final(self).entries() == es.update(j, (key@, value))
                }
            }),
            table_lookup(final(self).entries(), key@) == Some(value),
    {
        let ghost es = self.entries();
        let key_s = key.to_owned();
        let n = self.fields.len();
        let mut i: usize = 0;
        while i < n
            invariant
                es == self.entries(),
                old(self) == self,
                self.wf(),
                key_s@ == key@,
                n == es.len(),
                0 <= i <= n,
                key_index(es, key@, 0) == key_index(es, key@, i as int),
            decreases n - i,
        {
            let found = self.fields[i].0 == key_s;
            if found {
                proof {
                    assert(es[i as int].0 == key@);
                    assert(key_index(es, key@, i as int) == i as int);
                }
                let slot = &mut self.fields[i];
                *slot = (key_s, value);
                proof {
                    let j = key_index(es, key@, 0);
                    assert(self.entries() =~~= es.update(j, (key@, value)));
                    lemma_key_index_props(self.entries(), key@, 0);
                    assert forall|a: int, b: int|
                        0 <= a < b < self.entries().len() implies (
                    #[trigger] self.entries()[a]).0 != (#[trigger] self.entries()[b]).0 by {
                        assert(es[a].0 == self.entries()[a].0 || a == j);
                        assert(es[b].0 == self.entries()[b].0 || b == j);
                    }
                    lemma_table_lookup_at(self.entries(), key@, j);
                }
                return ;
            }
            proof {
                assert(es[i as int].0 != key@);
            }
            i = i + 1;
        }
        proof {
            lemma_key_index_props(es, key@, 0);
        }
        self.fields.push((key_s, value));
        proof {
            assert(self.entries() =~~= es.push((key@, value)));
            assert forall|a: int, b: int|
                0 <= a < b < self.entries().len() implies (#[trigger] self.entries()[a]).0 != (
            #[trigger] self.entries()[b]).0 by {
                if b < es.len() {
                    assert(es[a].0 != es[b].0);
                }
            }
            lemma_table_lookup_at(self.entries(), key@, es.len() as int);
        }
    }

    /// Clones of the field names, in insertion order.
    pub fn keys_vec(&self) -> (r: Vec<String>)
        ensures
            r@.len() == self.entries().len(),
            forall|i: int| 0 <= i < r@.len() ==> (#[trigger] r@[i])@ == self.entries()[i].0,
    {
        let n = self.fields.len();
        let mut r: Vec<String> = Vec::new();
        let mut i: usize = 0;
        while i < n
            invariant
                n == self.entries().len(),
                0 <= i <= n,
                r@.len() == i,
                forall|k: int| 0 <= k < i ==> (#[trigger] r@[k])@ == self.entries()[k].0,
            decreases n - i,
        {
            r.push(self.fields[i].0.clone());
            i = i + 1;
        }
        r
    }

    /// Clones of all fields, in insertion order.
    pub fn entries_vec(&self) -> (r: Vec<(String, Dynamic)>)
        ensures
            r@.len() == self.entries().len(),
            forall|i: int|
                0 <= i < r@.len() ==> ((#[trigger] r@[i]).0@ == self.entries()[i].0 && r@[i].1
                    == self.entries()[i].1),
    {
        let n = self.fields.len();
        let mut r: Vec<(String, Dynamic)> = Vec::new();
        let mut i: usize = 0;
        while i < n
            invariant
                n == self.entries().len(),
                n == self.fields@.len(),
                0 <= i <= n,
                r@.len() == i,
                forall|k: int|
                    0 <= k < i ==> ((#[trigger] r@[k]).0@ == self.entries()[k].0 && r@[k].1
                        == self.entries()[k].1),
            decreases n - i,
        {
            let pair = &self.fields[i];
            r.push((pair.0.clone(), pair.1.clone()));
            i = i + 1;
        }
        r
    }
}

impl Clone for FieldTable {
    /// Cloning copies the fields as they stand; the copy is independent.
    fn clone(&self) -> (res: Self)
        ensures
            res.entries() == self.entries(),
            res.wf() == self.wf(),
    {
        let n = self.fields.len();
        let mut fields: Vec<(String, Dynamic)> = Vec::new();
        let mut i: usize = 0;
        while i < n
            invariant
                n == self.fields@.len(),
                0 <= i <= n,
                fields@.len() == i,
                forall|k: int|
                    0 <= k < i ==> ((#[trigger] fields@[k]).0@ == self.fields@[k].0@
                        && fields@[k].1 == self.fields@[k].1),
            decreases n - i,
        {
            let pair = &self.fields[i];
            fields.push((pair.0.clone(), pair.1.clone()));
            i = i + 1;
        }
        let res = FieldTable { fields };
        proof {
            assert(res.entries() =~~= self.entries());
        }
        res
    }
}

/// A table whose entry at a valid position `j` has key `k` looks `k` up to
/// that entry's value, provided no earlier entry has key `k`.
proof fn lemma_table_lookup_at(es: Seq<(Seq<char>, Dynamic)>, k: Seq<char>, j: int)
    requires
        0 <= j < es.len(),
        es[j].0 == k,
        forall|i: int| 0 <= i < j ==> (#[trigger] es[i]).0 != k,
    ensures
        key_index(es, k, 0) == j,
        table_lookup(es, k) == Some(es[j].1),
{
    assert forall|f: int| 0 <= f <= j implies key_index(es, k, f) == j by {
        lemma_key_index_step(es, k, f, j);
    }
}

/// Unrolling a key search from `f` up to a known match at `j`.
proof fn lemma_key_index_step(es: Seq<(Seq<char>, Dynamic)>, k: Seq<char>, f: int, j: int)
    requires
        0 <= f <= j < es.len(),
        es[j].0 == k,
        forall|i: int| 0 <= i < j ==> (#[trigger] es[i]).0 != k,
    ensures
        key_index(es, k, f) == j,
    decreases j - f,
{
    if f < j {
        lemma_key_index_step(es, k, f + 1, j);
    }
}

impl DynObject {
    pub fn new() -> (o: DynObject)
        ensures
            o.fields.entries() == Seq::<(Seq<char>, Dynamic)>::empty(),
            o.fields.wf(),
    {
        DynObject { fields: FieldTable::new() }
    }

    /// The field names, in insertion order, as a fresh shared sequence.
    pub fn keys(&self, st: &mut ArrayStore<String>) -> (a: Array<String>)
        requires
            old(st)@.len() < usize::MAX,
        ensures
            a.id_spec() == old(st)@.len() + 1,
            final(st)@ == old(st)@.push(final(st).seq_of(a)),
            ({
                let ks = crate::string::texts_of(final(st).seq_of(a));
                &&& ks.len() == self.fields.entries().len()
                &&& forall|i: int|
                    0 <= i < ks.len() ==> #[trigger] ks[i] == self.fields.entries()[i].0
            }),
    {
        let v = self.fields.keys_vec();
        Array::from_vec(st, v)
    }
}

/// Allocate a fresh, empty dynamic object.
pub fn dyn_object_new(st: &mut CellStore<DynObject>) -> (r: HxRef<DynObject>)
    requires
        old(st)@.len() < usize::MAX,
    ensures
        final(st)@ == old(st)@.push((final(st).value_of(r), true)),
        r.id_spec() == old(st)@.len() + 1,
        final(st).valid(r),
        final(st).value_of(r).fields.entries() == Seq::<(Seq<char>, Dynamic)>::empty(),
        final(st).value_of(r).fields.wf(),
{
    HxRef::new(st, DynObject::new())
}

/// Store `value` under `key` in the object `obj` aliases; fails with
/// `NullAccess` on a null or foreign handle.
pub fn dyn_object_set(obj: &HxRef<DynObject>, st: &mut CellStore<DynObject>, key: &str, value:
    Dynamic) -> (r: Result<(), HxError>)
    requires
        old(st).valid(*obj) ==> old(st).value_of(*obj).fields.wf(),
    ensures
        !old(st).valid(*obj) ==> (r matches Err(e) && e == HxError::NullAccess && final(st)@
            == old(st)@),
        old(st).valid(*obj) ==> (r is Ok && {
            let t = final(st).value_of(*obj).fields;
            &&& final(st)@ == old(st)@.update(
                obj.id_spec() - 1,
                (final(st).value_of(*obj), old(st).minted(*obj)),
            )
            &&& t.wf()
            &&& table_lookup(t.entries(), key@) == Some(value)
            &&& ({
                let es = old(st).value_of(*obj).fields.entries();
                let j = key_index(es, key@, 0);
                if j == -1 {
                    t.entries() == es.push((key@, value))
                } else {
                    t.entries() == es.update(j, (key@, value))
                }
            })
        }),
{
    if obj.is_null() {
        return Err(HxError::NullAccess);
    }
    match obj.borrow(st) {
        Err(_) => Err(HxError::NullAccess),
        Ok(_) => {
            let o = obj.borrow_mut(st);
            o.fields.set(key, value);
            Ok(())
        },
    }
}

/// The field names of a dynamic receiver: for a live dynamic object or
/// anonymous object its keys in insertion order, as a fresh shared string
/// sequence; an empty fresh sequence otherwise.
pub fn field_names(obj: &Dynamic, objects: &CellStore<DynObject>, anons: &CellStore<Anon>, strings:
    &mut ArrayStore<String>) -> (a: Array<String>)
    requires
        old(strings)@.len() < usize::MAX,
    ensures
        a.id_spec() == old(strings)@.len() + 1,
        final(strings)@ == old(strings)@.push(final(strings).seq_of(a)),
        ({
            let ks = crate::string::texts_of(final(strings).seq_of(a));
            match obj.payload_spec() {
                Some(Payload::Obj(o)) if objects.valid(o) => {
                    let es = objects.value_of(o).fields.entries();
                    ks.len() == es.len() && (forall|i: int|
                        0 <= i < ks.len() ==> #[trigger] ks[i] == es[i].0)
                },
                Some(Payload::AnonObj(o)) if anons.valid(o) => {
                    let es = anons.value_of(o).fields.entries();
                    ks.len() == es.len() && (forall|i: int|
                        0 <= i < ks.len() ==> #[trigger] ks[i] == es[i].0)
                },
                _ => ks.len() == 0,
            }
        }),
{
    match &obj.payload {
        Some(Payload::Obj(o)) => match o.borrow(objects) {
            Ok(d) => {
                let v = d.fields.keys_vec();
                Array::from_vec(strings, v)
            },
            Err(_) => Array::new(strings),
        },
        Some(Payload::AnonObj(o)) => match o.borrow(anons) {
            Ok(d) => {
                let v = d.fields.keys_vec();
                Array::from_vec(strings, v)
            },
            Err(_) => Array::new(strings),
        },
        _ => Array::new(strings),
    }
}

/// The keys of the object `obj` aliases, in insertion order, as a fresh
/// shared sequence; fails with `NullAccess` on a null or foreign handle.
pub fn dyn_object_keys(obj: &HxRef<DynObject>, st: &CellStore<DynObject>, strings:
    &mut ArrayStore<String>) -> (r: Result<Array<String>, HxError>)
    requires
        old(strings)@.len() < usize::MAX,
    ensures
        !st.valid(*obj) ==> (r matches Err(e) && e == HxError::NullAccess && final(strings)@
            == old(strings)@),
        st.valid(*obj) ==> (r matches Ok(a) && {
            let ks = crate::string::texts_of(final(strings).seq_of(a));
            let es = st.value_of(*obj).fields.entries();
            &&& a.id_spec() == old(strings)@.len() + 1
            &&& final(strings)@ == old(strings)@.push(final(strings).seq_of(a))
            &&& ks.len() == es.len()
            &&& forall|i: int| 0 <= i < ks.len() ==> #[trigger] ks[i] == es[i].0
        }),
{
    match obj.borrow(st) {
        Err(e) => Err(e),
        Ok(d) => {
            let v = d.fields.keys_vec();
            Ok(Array::from_vec(strings, v))
        },
    }
}

/// Clones of all fields of the object `obj` aliases, in insertion order;
/// fails with `NullAccess` on a null or foreign handle.
pub fn dyn_object_entries(obj: &HxRef<DynObject>, st: &CellStore<DynObject>) -> (r: Result<
    Vec<(String, Dynamic)>,
    HxError,
>)
    ensures
        !st.valid(*obj) ==> (r matches Err(e) && e == HxError::NullAccess),
        st.valid(*obj) ==> (r matches Ok(v) && {
            let es = st.value_of(*obj).fields.entries();
            &&& v@.len() == es.len()
            &&& forall|i: int|
                0 <= i < v@.len() ==> ((#[trigger] v@[i]).0@ == es[i].0 && v@[i].1 == es[i].1)
        }),
{
    match obj.borrow(st) {
        Err(e) => Err(e),
        Ok(d) => Ok(d.fields.entries_vec()),
    }
}

/// Dynamic numeric indexing: the element at `index` of a live boxed
/// sequence, re-boxed as a dynamic value; null for a negative or
/// out-of-range index and for non-sequence receivers.
pub fn index_get_i32(obj: &Dynamic, h: &DynHeap, index: i32) -> (r: Dynamic)
    ensures
        ({
            let i = index as int;
            match obj.payload_spec() {
                Some(Payload::ArrDyn(a)) if h.dyn_arrays.valid(a) => {
                    let s = h.dyn_arrays.seq_of(a);
                    if 0 <= i < s.len() {
                        r == s[i]
                    } else {
                        r.is_fresh_null()
                    }
                },
                Some(Payload::ArrInt(a)) if h.int_arrays.valid(a) => {
                    let s = h.int_arrays.seq_of(a);
                    if 0 <= i < s.len() {
                        r.payload_spec() == Some(Payload::Int(s[i])) && r.identity_spec() == 0
                            && r.type_id_spec() is None
                    } else {
                        r.is_fresh_null()
                    }
                },
                Some(Payload::ArrBool(a)) if h.bool_arrays.valid(a) => {
                    let s = h.bool_arrays.seq_of(a);
                    if 0 <= i < s.len() {
                        r.payload_spec() == Some(Payload::Bool(s[i])) && r.identity_spec() == 0
                            && r.type_id_spec() is None
                    } else {
                        r.is_fresh_null()
                    }
                },
                Some(Payload::ArrStr(a)) if h.string_arrays.valid(a) => {
                    let s = h.string_arrays.seq_of(a);
                    if 0 <= i < s.len() {
                        r.payload_spec() == Some(Payload::Str(s[i])) && r.identity_spec() == 0
                            && r.type_id_spec() is None
                    } else {
                        r.is_fresh_null()
                    }
                },
                _ => r.is_fresh_null(),
            }
        }),
{
    if index < 0 {
        return Dynamic::null();
    }
    let idx = index as usize;
    match &obj.payload {
        Some(Payload::ArrDyn(a)) => {
            if a.is_valid_in(&h.dyn_arrays) && idx < a.len(&h.dyn_arrays) {
                a.read_at(&h.dyn_arrays, idx).clone()
            } else {
                Dynamic::null()
            }
        },
        Some(Payload::ArrInt(a)) => {
            if a.is_valid_in(&h.int_arrays) && idx < a.len(&h.int_arrays) {
                Dynamic::from(*a.read_at(&h.int_arrays, idx))
            } else {
                Dynamic::null()
            }
        },
        Some(Payload::ArrBool(a)) => {
            if a.is_valid_in(&h.bool_arrays) && idx < a.len(&h.bool_arrays) {
                Dynamic::from(*a.read_at(&h.bool_arrays, idx))
            } else {
                Dynamic::null()
            }
        },
        Some(Payload::ArrStr(a)) => {
            if a.is_valid_in(&h.string_arrays) && idx < a.len(&h.string_arrays) {
                Dynamic::from(a.read_at(&h.string_arrays, idx).clone())
            } else {
                Dynamic::null()
            }
        },
        _ => Dynamic::null(),
    }
}

/// Dynamic string indexing: `length` of a live boxed sequence as an
/// integer; any other key is read as a dynamic field.
pub fn index_get_str(obj: &Dynamic, h: &DynHeap, key: &str) -> (r: Dynamic)
    ensures
        ({
            let is_len = key@ == "length"@;
            match obj.payload_spec() {
                Some(Payload::ArrDyn(a)) if h.dyn_arrays.valid(a) && h.dyn_arrays.seq_of(
                    a,
                ).len() <= i32::MAX => if is_len {
                    r.payload_spec() == Some(
                        Payload::Int(h.dyn_arrays.seq_of(a).len() as i32),
                    ) && r.identity_spec() == 0 && r.type_id_spec() is None
                } else {
                    r.is_fresh_null()
                },
                Some(Payload::ArrInt(a)) if h.int_arrays.valid(a) && h.int_arrays.seq_of(
                    a,
                ).len() <= i32::MAX => if is_len {
                    r.payload_spec() == Some(
                        Payload::Int(h.int_arrays.seq_of(a).len() as i32),
                    ) && r.identity_spec() == 0 && r.type_id_spec() is None
                } else {
                    r.is_fresh_null()
                },
                Some(Payload::ArrBool(a)) if h.bool_arrays.valid(a) && h.bool_arrays.seq_of(
                    a,
                ).len() <= i32::MAX => if is_len {
                    r.payload_spec() == Some(
                        Payload::Int(h.bool_arrays.seq_of(a).len() as i32),
                    ) && r.identity_spec() == 0 && r.type_id_spec() is None
                } else {
                    r.is_fresh_null()
                },
                Some(Payload::ArrStr(a)) if h.string_arrays.valid(a) && h.string_arrays.seq_of(
                    a,
                ).len() <= i32::MAX => if is_len {
                    r.payload_spec() == Some(
                        Payload::Int(h.string_arrays.seq_of(a).len() as i32),
                    ) && r.identity_spec() == 0 && r.type_id_spec() is None
                } else {
                    r.is_fresh_null()
                },
                Some(Payload::Obj(o)) if h.objects.valid(o) => {
                    match table_lookup(h.objects.value_of(o).fields.entries(), key@) {
                        Some(d) => r == d,
                        None => r.is_fresh_null(),
                    }
                },
                Some(Payload::AnonObj(o)) if h.anons.valid(o) => {
                    match table_lookup(h.anons.value_of(o).fields.entries(), key@) {
                        Some(d) => r == d,
                        None => r.is_fresh_null(),
                    }
                },
                _ => r.is_fresh_null(),
            }
        }),
{
    proof {
        reveal_strlit("length");
    }
    let key_s = key.to_owned();
    let lit = "length".to_owned();
    let is_len = key_s == lit;
    match &obj.payload {
        Some(Payload::ArrDyn(a)) => index_len_or_null(
            is_len,
            a.is_valid_in(&h.dyn_arrays),
            if a.is_valid_in(&h.dyn_arrays) { a.len(&h.dyn_arrays) } else { 0 },
        ),
        Some(Payload::ArrInt(a)) => index_len_or_null(
            is_len,
            a.is_valid_in(&h.int_arrays),
            if a.is_valid_in(&h.int_arrays) { a.len(&h.int_arrays) } else { 0 },
        ),
        Some(Payload::ArrBool(a)) => index_len_or_null(
            is_len,
            a.is_valid_in(&h.bool_arrays),
            if a.is_valid_in(&h.bool_arrays) { a.len(&h.bool_arrays) } else { 0 },
        ),
        Some(Payload::ArrStr(a)) => index_len_or_null(
            is_len,
            a.is_valid_in(&h.string_arrays),
            if a.is_valid_in(&h.string_arrays) { a.len(&h.string_arrays) } else { 0 },
        ),
        Some(Payload::Obj(_)) => field_get(obj, h, key),
        Some(Payload::AnonObj(_)) => field_get(obj, h, key),
        _ => Dynamic::null(),
    }
}

/// The boxed length when asked for and representable, otherwise null.
fn index_len_or_null(is_len: bool, valid: bool, n: usize) -> (r: Dynamic)
    ensures
        is_len && valid && n <= i32::MAX ==> (r.payload_spec() == Some(Payload::Int(n as i32))
            && r.identity_spec() == 0 && r.type_id_spec() is None),
        !(is_len && valid && n <= i32::MAX) ==> r.is_fresh_null(),
{
    if is_len && valid && n <= (i32::MAX as usize) {
        Dynamic::from(#[verifier::truncate] (n as i32))
    } else {
        Dynamic::null()
    }
}

/// Dynamic indexing with a dynamic index: an integer index reads by
/// position, a string index reads by key, anything else yields null.
pub fn index_get_dyn(obj: &Dynamic, h: &DynHeap, index: &Dynamic) -> (r: Dynamic)
    ensures
        ({
            match index.payload_spec() {
                Some(Payload::Int(_)) => true,
                Some(Payload::Str(_)) => true,
                Some(Payload::HxStr(_)) => true,
                _ => r.is_fresh_null(),
            }
        }),
{
    match &index.payload {
        Some(Payload::Int(i)) => index_get_i32(obj, h, *i),
        Some(Payload::Str(s)) => index_get_str(obj, h, s.as_str()),
        Some(Payload::HxStr(s)) => match s.as_str() {
            Ok(t) => index_get_str(obj, h, t),
            Err(_) => Dynamic::null(),
        },
        _ => Dynamic::null(),
    }
}

/// The four letters `null`.
pub open spec fn null_text() -> Seq<char> {
    seq!['n', 'u', 'l', 'l']
}

/// The stable fallback marker for a payload the renderer does not spell
/// out: `<Dynamic:` then the type name, then `>`. It never contains a raw
/// address.
pub open spec fn marker_text(name: Seq<char>) -> Seq<char> {
    seq!['<', 'D', 'y', 'n', 'a', 'm', 'i', 'c', ':'] + name + seq!['>']
}

/// A joined element list in brackets.
pub open spec fn bracketed(body: Seq<char>) -> Seq<char> {
    seq!['['] + body + seq![']']
}

/// Whether every handle a dynamic value carries is live in the heap.
pub open spec fn dyn_wf_in(d: &Dynamic, h: &DynHeap) -> bool {
    match d.payload_spec() {
        Some(Payload::ArrDyn(a)) => h.dyn_arrays.valid(a),
        Some(Payload::ArrInt(a)) => h.int_arrays.valid(a),
        Some(Payload::ArrBool(a)) => h.bool_arrays.valid(a),
        Some(Payload::ArrStr(a)) => h.string_arrays.valid(a),
        Some(Payload::Obj(r)) => h.objects.valid(r),
        Some(Payload::AnonObj(r)) => h.anons.valid(r),
        _ => true,
    }
}

/// The display text of a dynamic value, rule by rule: null as `null`;
/// strings, numbers and booleans as their literal text; a nullable wrapper
/// as its value's text or `null`; a sequence of a displayable element kind
/// as the bracketed, comma-joined element texts; anything else as a stable
/// type-name marker.
pub open spec fn dyn_display(d: &Dynamic, h: &DynHeap) -> Seq<char> {
    match d.payload_spec() {
        None => null_text(),
        Some(p) => match p {
            Payload::Int(x) => crate::text::int_str(x as int),
            Payload::Bool(b) => crate::text::bool_str(b),
            Payload::Str(s) => s@,
            Payload::HxStr(s) => s.display(),
            Payload::NullInt(o) => match o {
                Some(x) => crate::text::int_str(x as int),
                None => null_text(),
            },
            Payload::NullBool(o) => match o {
                Some(b) => crate::text::bool_str(b),
                None => null_text(),
            },
            Payload::NullStr(o) => match o {
                Some(s) => s@,
                None => null_text(),
            },
            Payload::FloatLit(s) => s@,
            Payload::ArrInt(a) => bracketed(
                crate::text::joined(crate::text::displays_of(h.int_arrays.seq_of(a)), seq![',']),
            ),
            Payload::ArrBool(a) => bracketed(
                crate::text::joined(crate::text::displays_of(h.bool_arrays.seq_of(a)), seq![',']),
            ),
            Payload::ArrStr(a) => bracketed(
                crate::text::joined(
                    crate::text::displays_of(h.string_arrays.seq_of(a)),
                    seq![','],
                ),
            ),
            Payload::ArrDyn(_) => marker_text(
                seq![
                    'A', 'r', 'r', 'a', 'y', '<', 'D', 'y', 'n', 'a', 'm', 'i', 'c', '>',
                ],
            ),
            Payload::Obj(_) => marker_text(seq!['D', 'y', 'n', 'O', 'b', 'j', 'e', 'c', 't']),
            Payload::AnonObj(_) => marker_text(seq!['A', 'n', 'o', 'n']),
            Payload::Fault(e) => crate::hx_error_display(&e),
            Payload::Opaque(name) => marker_text(name@),
        },
    }
}

impl Dynamic {
    /// The display text; see `dyn_display` for the rules.
    pub fn to_haxe_string(&self, h: &DynHeap) -> (r: String)
        requires
            dyn_wf_in(self, h),
        ensures
            r@ == dyn_display(self, h),
    {
        proof {
            reveal_strlit("null");
            reveal_strlit("<Dynamic:");
            reveal_strlit(">");
            reveal_strlit("Array<Dynamic>");
            reveal_strlit("DynObject");
            reveal_strlit("Anon");
        }
        match &self.payload {
            None => {
                let r = "null".to_owned();
                proof {
                    assert(r@ =~= null_text());
                }
                r
            },
            Some(p) => match p {
                Payload::Int(x) => crate::text::i32_to_string(*x),
                Payload::Bool(b) => crate::text::bool_to_string(*b),
                Payload::Str(s) => s.clone(),
                Payload::HxStr(s) => s.to_haxe_string(),
                Payload::NullInt(o) => match o {
                    Some(x) => crate::text::i32_to_string(*x),
                    None => {
                        let r = "null".to_owned();
                        proof {
                            assert(r@ =~= null_text());
                        }
                        r
                    },
                },
                Payload::NullBool(o) => match o {
                    Some(b) => crate::text::bool_to_string(*b),
                    None => {
                        let r = "null".to_owned();
                        proof {
                            assert(r@ =~= null_text());
                        }
                        r
                    },
                },
                Payload::NullStr(o) => match o {
                    Some(s) => s.clone(),
                    None => {
                        let r = "null".to_owned();
                        proof {
                            assert(r@ =~= null_text());
                        }
                        r
                    },
                },
                Payload::FloatLit(s) => s.clone(),
                Payload::ArrInt(a) => a.toString(&h.int_arrays),
                Payload::ArrBool(a) => a.toString(&h.bool_arrays),
                Payload::ArrStr(a) => a.toString(&h.string_arrays),
                Payload::ArrDyn(_) => marker_string("Array<Dynamic>"),
                Payload::Obj(_) => marker_string("DynObject"),
                Payload::AnonObj(_) => marker_string("Anon"),
                Payload::Fault(e) => e.to_haxe_string(),
                Payload::Opaque(name) => marker_string(name.as_str()),
            },
        }
    }
}

/// The fallback marker text for a payload named `name`.
fn marker_string(name: &str) -> (r: String)
    ensures
        r@ == marker_text(name@),
{
    proof {
        reveal_strlit("<Dynamic:");
        reveal_strlit(">");
    }
    let mut r = String::new();
    r.append("<Dynamic:");
    r.append(name);
    r.append(">");
    proof {
        assert(r@ =~= marker_text(name@));
    }
    r
}

/// Read a dynamic field from a dynamic receiver: the field's value when the
/// receiver is a live dynamic object or anonymous object and has the field;
/// null otherwise.
pub fn field_get(obj: &Dynamic, h: &DynHeap, key: &str) -> (r: Dynamic)
    ensures
        ({
            match obj.payload_spec() {
                Some(Payload::Obj(o)) if h.objects.valid(o) => {
                    match table_lookup(h.objects.value_of(o).fields.entries(), key@) {
                        Some(d) => r == d,
                        None => r.is_fresh_null(),
                    }
                },
                Some(Payload::AnonObj(o)) if h.anons.valid(o) => {
                    match table_lookup(h.anons.value_of(o).fields.entries(), key@) {
                        Some(d) => r == d,
                        None => r.is_fresh_null(),
                    }
                },
                _ => r.is_fresh_null(),
            }
        }),
{
    match &obj.payload {
        Some(Payload::Obj(o)) => match dyn_object_get(o, &h.objects, key) {
            Ok(v) => v,
            Err(_) => Dynamic::null(),
        },
        Some(Payload::AnonObj(o)) => match crate::anon::anon_get(o, &h.anons, key) {
            Ok(v) => v,
            Err(_) => Dynamic::null(),
        },
        _ => Dynamic::null(),
    }
}

/// Every object table in the heap has unique keys.
pub open spec fn tables_wf(h: &DynHeap) -> bool {
    &&& forall|i: int| 0 <= i < h.objects@.len() ==> (#[trigger] h.objects@[i]).0.fields.wf()
    &&& forall|i: int| 0 <= i < h.anons@.len() ==> (#[trigger] h.anons@[i]).0.fields.wf()
}

/// Write a dynamic field on a dynamic receiver: stores into a live dynamic
/// object or anonymous object; on any other receiver the write is refused
/// with `TypeMismatch`, and on a dead handle with `NullAccess`.
pub fn field_set(obj: &Dynamic, h: &mut DynHeap, key: &str, value: Dynamic) -> (r: Result<
    (),
    HxError,
>)
    requires
        tables_wf(old(h)),
    ensures
        tables_wf(final(h)),
        final(h).dyn_arrays@ == old(h).dyn_arrays@,
        final(h).int_arrays@ == old(h).int_arrays@,
        final(h).bool_arrays@ == old(h).bool_arrays@,
        final(h).string_arrays@ == old(h).string_arrays@,
        ({
            match obj.payload_spec() {
                Some(Payload::Obj(o)) => {
                    if old(h).objects.valid(o) {
                        &&& r is Ok
                        &&& final(h).anons@ == old(h).anons@
                        &&& final(h).objects@ == old(h).objects@.update(
                            o.id_spec() - 1,
                            (final(h).objects.value_of(o), old(h).objects.minted(o)),
                        )
                        &&& table_lookup(
                            final(h).objects.value_of(o).fields.entries(),
                            key@,
                        ) == Some(value)
                        &&& ({
                            let es = old(h).objects.value_of(o).fields.entries();
                            let j = key_index(es, key@, 0);
                            let t = final(h).objects.value_of(o).fields;
                            if j == -1 {
                                t.entries() == es.push((key@, value))
                            } else {
                                t.entries() == es.update(j, (key@, value))
                            }
                        })
                    } else {
                        &&& r matches Err(e) && e == HxError::NullAccess
                        &&& final(h).objects@ == old(h).objects@
                        &&& final(h).anons@ == old(h).anons@
                    }
                },
                Some(Payload::AnonObj(o)) => {
                    if old(h).anons.valid(o) {
                        &&& r is Ok
                        &&& final(h).objects@ == old(h).objects@
                        &&& final(h).anons@ == old(h).anons@.update(
                            o.id_spec() - 1,
                            (final(h).anons.value_of(o), old(h).anons.minted(o)),
                        )
                        &&& table_lookup(
                            final(h).anons.value_of(o).fields.entries(),
                            key@,
                        ) == Some(value)
                        &&& ({
                            let es = old(h).anons.value_of(o).fields.entries();
                            let j = key_index(es, key@, 0);
                            let t = final(h).anons.value_of(o).fields;
                            if j == -1 {
                                t.entries() == es.push((key@, value))
                            } else {
                                t.entries() == es.update(j, (key@, value))
                            }
                        })
                    } else {
                        &&& r matches Err(e) && e == HxError::NullAccess
                        &&& final(h).objects@ == old(h).objects@
                        &&& final(h).anons@ == old(h).anons@
                    }
                },
                _ => {
                    &&& r matches Err(e) && e == HxError::TypeMismatch
                    &&& final(h).objects@ == old(h).objects@
                    &&& final(h).anons@ == old(h).anons@
                },
            }
        }),
{
    match &obj.payload {
        Some(Payload::Obj(o)) => dyn_object_set(o, &mut h.objects, key, value),
        Some(Payload::AnonObj(o)) => crate::anon::anon_set(o, &mut h.anons, key, value),
        _ => Err(HxError::TypeMismatch),
    }
}

/// The value stored under `key` in the object `obj` aliases; null when the
/// field is missing; fails with `NullAccess` on a null or foreign handle.
pub fn dyn_object_get(obj: &HxRef<DynObject>, st: &CellStore<DynObject>, key: &str) -> (r: Result<
    Dynamic,
    HxError,
>)
    ensures
        !st.valid(*obj) ==> (r matches Err(e) && e == HxError::NullAccess),
        st.valid(*obj) ==> (r matches Ok(v) && ({
            let es = st.value_of(*obj).fields.entries();
            match table_lookup(es, key@) {
                Some(d) => v == d,
                None => v.is_fresh_null(),
            }
        })),
{
    match obj.borrow(st) {
        Err(e) => Err(e),
        Ok(o) => match o.fields.get_opt(key) {
            Some(v) => Ok(v.clone()),
            None => Ok(Dynamic::null()),
        },
    }
}


/// Value-equality half of the dynamic equality law: two boxings of integers
/// compare equal exactly when the integers are equal.
pub proof fn lemma_dyn_eq_boxed_ints(d1: &Dynamic, d2: &Dynamic, x: i32, y: i32)
    requires
        d1.payload_spec() == Some(Payload::Int(x)),
        d2.payload_spec() == Some(Payload::Int(y)),
    ensures
        dyn_eq(d1, d2) == (x == y),
{
}

/// Identity half of the dynamic equality law: two boxings of sequence
/// handles with recorded identities compare equal exactly when the handles
/// alias the same sequence, however equal or different the contents are.
pub proof fn lemma_dyn_eq_boxed_refs(d1: &Dynamic, d2: &Dynamic, a1: Array<Dynamic>, a2: Array<
    Dynamic,
>)
    requires
        d1.payload_spec() == Some(Payload::ArrDyn(a1)),
        d2.payload_spec() == Some(Payload::ArrDyn(a2)),
        d1.identity_spec() == a1.id_spec(),
        d2.identity_spec() == a2.id_spec(),
        a1.id_spec() != 0,
        a2.id_spec() != 0,
    ensures
        dyn_eq(d1, d2) == (a1.id_spec() == a2.id_spec()),
{
}

} // verus!
