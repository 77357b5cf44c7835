use vstd::prelude::*;

use serde_json::Value;

use crate::HxError;
use crate::array::{Array, ArrayStore};
use crate::cell::CellStore;
use crate::dynamic::{DynHeap, DynObject, Dynamic, Payload, dyn_object_entries, dyn_object_keys, table_lookup};
use crate::string::HxString;

verus! {

/// A parsed JSON document: scalars, text, arrays and objects; a number that
/// is not a 64-bit integer is kept as its decimal text (this library
/// computes with integers only).
#[derive(Debug)]
pub enum JsonValue {
    Null,
    Bool(bool),
    NumI(i64),
    NumText(String),
    Str(String),
    Arr(Vec<JsonValue>),
    Obj(Vec<(String, JsonValue)>),
}

/// What parsing a JSON text yields: a function of the characters alone;
/// nothing for invalid documents.
pub uninterp spec fn json_parse_of(s: Seq<char>) -> Option<JsonValue>;

/// What rendering a JSON document yields: a function of the document alone.
pub uninterp spec fn json_text_of(v: JsonValue) -> Seq<char>;

/// What pretty-rendering a JSON document with an indent text yields: a
/// function of the document and the indent alone.
pub uninterp spec fn json_pretty_text_of(v: JsonValue, indent: Seq<char>) -> Seq<char>;

/// The stable kind tag of a null JSON value.
pub const VALUE_KIND_NULL: i32 = 0;

/// The stable kind tag of a boolean JSON value.
pub const VALUE_KIND_BOOL: i32 = 1;

/// The stable kind tag of an integral JSON number.
pub const VALUE_KIND_INT: i32 = 2;

/// The stable kind tag of a non-integral JSON number.
pub const VALUE_KIND_FLOAT: i32 = 3;

/// The stable kind tag of a JSON string.
pub const VALUE_KIND_STRING: i32 = 4;

/// The stable kind tag of a JSON array.
pub const VALUE_KIND_ARRAY: i32 = 5;

/// The stable kind tag of a JSON object.
pub const VALUE_KIND_OBJECT: i32 = 6;

/// The kind tag of a dynamic value at the JSON boundary, if it is one a
/// JSON document can hold.
pub open spec fn json_kind(d: &Dynamic) -> Option<i32> {
    match d.payload_spec() {
        None => Some(0),
        Some(Payload::Bool(_)) => Some(1),
        Some(Payload::Int(_)) => Some(2),
        Some(Payload::FloatLit(_)) => Some(3),
        Some(Payload::Str(_)) => Some(4),
        Some(Payload::HxStr(_)) => Some(4),
        Some(Payload::ArrDyn(_)) => Some(5),
        Some(Payload::Obj(_)) => Some(6),
        _ => None,
    }
}

/// The stable kind tag of a JSON-backed dynamic value; a payload no JSON
/// document can hold fails with `TypeMismatch`.
pub fn value_kind(value: &Dynamic) -> (r: Result<i32, HxError>)
    ensures
        match json_kind(value) {
            Some(k) => r == Ok::<i32, HxError>(k),
            None => r matches Err(e) && e == HxError::TypeMismatch,
        },
{
    match value.payload_opt() {
        None => Ok(VALUE_KIND_NULL),
        Some(Payload::Bool(_)) => Ok(VALUE_KIND_BOOL),
        Some(Payload::Int(_)) => Ok(VALUE_KIND_INT),
        Some(Payload::FloatLit(_)) => Ok(VALUE_KIND_FLOAT),
        Some(Payload::Str(_)) => Ok(VALUE_KIND_STRING),
        Some(Payload::HxStr(_)) => Ok(VALUE_KIND_STRING),
        Some(Payload::ArrDyn(_)) => Ok(VALUE_KIND_ARRAY),
        Some(Payload::Obj(_)) => Ok(VALUE_KIND_OBJECT),
        Some(_) => Err(HxError::TypeMismatch),
    }
}

/// The boolean a JSON-backed dynamic value holds, or `TypeMismatch`.
pub fn value_as_bool(value: &Dynamic) -> (r: Result<bool, HxError>)
    ensures
        match value.payload_spec() {
            Some(Payload::Bool(b)) => r == Ok::<bool, HxError>(b),
            _ => r matches Err(e) && e == HxError::TypeMismatch,
        },
{
    match value.payload_opt() {
        Some(Payload::Bool(b)) => Ok(*b),
        _ => Err(HxError::TypeMismatch),
    }
}

/// The integer a JSON-backed dynamic value holds, or `TypeMismatch`.
pub fn value_as_int(value: &Dynamic) -> (r: Result<i32, HxError>)
    ensures
        match value.payload_spec() {
            Some(Payload::Int(x)) => r == Ok::<i32, HxError>(x),
            _ => r matches Err(e) && e == HxError::TypeMismatch,
        },
{
    match value.payload_opt() {
        Some(Payload::Int(x)) => Ok(*x),
        _ => Err(HxError::TypeMismatch),
    }
}

/// The text a JSON-backed dynamic value holds (a null nullable string reads
/// as the empty text), or `TypeMismatch`.
pub fn value_as_string(value: &Dynamic) -> (r: Result<String, HxError>)
    ensures
        match value.payload_spec() {
            Some(Payload::Str(s)) => r matches Ok(t) && t@ == s@,
            Some(Payload::HxStr(s)) => r matches Ok(t) && t@ == (match s.text() {
                Some(u) => u,
                None => Seq::<char>::empty(),
            }),
            _ => r matches Err(e) && e == HxError::TypeMismatch,
        },
{
    match value.payload_opt() {
        Some(Payload::Str(s)) => Ok(s.clone()),
        Some(Payload::HxStr(s)) => match s.as_str() {
            Ok(t) => Ok(t.to_owned()),
            Err(_) => Ok(String::new()),
        },
        _ => Err(HxError::TypeMismatch),
    }
}

/// The length of the dynamic array a JSON-backed value holds, or
/// `TypeMismatch`.
pub fn value_array_length(value: &Dynamic, h: &DynHeap) -> (r: Result<i32, HxError>)
    requires
        forall|a: Array<Dynamic>|
            h.dyn_arrays.valid(a) ==> (#[trigger] h.dyn_arrays.seq_of(a)).len() <= i32::MAX,
    ensures
        match value.payload_spec() {
            Some(Payload::ArrDyn(a)) => if h.dyn_arrays.valid(a) {
                r == Ok::<i32, HxError>(h.dyn_arrays.seq_of(a).len() as i32)
            } else {
                r matches Err(e) && e == HxError::NullAccess
            },
            _ => r matches Err(e) && e == HxError::TypeMismatch,
        },
{
    match value.payload_opt() {
        Some(Payload::ArrDyn(a)) => {
            if a.is_valid_in(&h.dyn_arrays) {
                Ok(#[verifier::truncate] (a.len(&h.dyn_arrays) as i32))
            } else {
                Err(HxError::NullAccess)
            }
        },
        _ => Err(HxError::TypeMismatch),
    }
}

/// The element at `index` (clamped to be non-negative) of the dynamic array
/// a JSON-backed value holds; `OutsideBounds` past the end, `TypeMismatch`
/// on a non-array.
pub fn value_array_get(value: &Dynamic, h: &DynHeap, index: i32) -> (r: Result<Dynamic, HxError>)
    ensures
        match value.payload_spec() {
            Some(Payload::ArrDyn(a)) => if h.dyn_arrays.valid(a) {
                let i = if index < 0 { 0int } else { index as int };
                if i < h.dyn_arrays.seq_of(a).len() {
                    r matches Ok(v) && v == h.dyn_arrays.seq_of(a)[i]
                } else {
                    r matches Err(e) && e == HxError::OutsideBounds
                }
            } else {
                r matches Err(e) && e == HxError::NullAccess
            },
            _ => r matches Err(e) && e == HxError::TypeMismatch,
        },
{
    match value.payload_opt() {
        Some(Payload::ArrDyn(a)) => {
            if a.is_valid_in(&h.dyn_arrays) {
                let i: usize = if index < 0 { 0 } else { index as usize };
                if i < a.len(&h.dyn_arrays) {
                    Ok(a.read_at(&h.dyn_arrays, i).clone())
                } else {
                    Err(HxError::OutsideBounds)
                }
            } else {
                Err(HxError::NullAccess)
            }
        },
        _ => Err(HxError::TypeMismatch),
    }
}

/// The keys of the dynamic object a JSON-backed value holds, as a fresh
/// shared sequence; `TypeMismatch` on a non-object.
pub fn value_object_keys(value: &Dynamic, objects: &CellStore<DynObject>, strings:
    &mut ArrayStore<String>) -> (r: Result<Array<String>, HxError>)
    requires
        old(strings)@.len() < usize::MAX,
    ensures
        match value.payload_spec() {
            Some(Payload::Obj(o)) => if objects.valid(o) {
                r matches Ok(a) && {
                    let ks = crate::string::texts_of(final(strings).seq_of(a));
                    let es = objects.value_of(o).fields.entries();
                    &&& a.id_spec() == old(strings)@.len() + 1
                    &&& final(strings)@ == old(strings)@.push(final(strings).seq_of(a))
                    &&& ks.len() == es.len()
                    &&& forall|i: int| 0 <= i < ks.len() ==> #[trigger] ks[i] == es[i].0
                }
            } else {
                (r matches Err(e) && e == HxError::NullAccess) && final(strings)@ == old(
                    strings,
                )@
            },
            _ => (r matches Err(e) && e == HxError::TypeMismatch) && final(strings)@ == old(
                strings,
            )@,
        },
{
    match value.payload_opt() {
        Some(Payload::Obj(o)) => dyn_object_keys(o, objects, strings),
        _ => Err(HxError::TypeMismatch),
    }
}

/// The field of the dynamic object a JSON-backed value holds, or null when
/// the field is missing; `TypeMismatch` on a non-object.
pub fn value_object_field(value: &Dynamic, h: &DynHeap, key: &str) -> (r: Result<
    Dynamic,
    HxError,
>)
    ensures
        match value.payload_spec() {
            Some(Payload::Obj(o)) => if h.objects.valid(o) {
                r matches Ok(v) && (match table_lookup(
                    h.objects.value_of(o).fields.entries(),
                    key@,
                ) {
                    Some(d) => v == d,
                    None => v.is_fresh_null(),
                })
            } else {
                r matches Err(e) && e == HxError::NullAccess
            },
            _ => r matches Err(e) && e == HxError::TypeMismatch,
        },
{
    match value.payload_opt() {
        Some(Payload::Obj(o)) => crate::dynamic::dyn_object_get(o, &h.objects, key),
        _ => Err(HxError::TypeMismatch),
    }
}

/// The document type of serde_json, declared so that the conversion
/// helpers below can name it; this library never looks inside a value of
/// it.
#[verifier::external_type_specification]
#[verifier::external_body]
pub struct ExSerdeValue(serde_json::Value);

/// Relies on serde_json: build that library's document value from this
/// one's, variant by variant (a kept number text parses back into a number,
/// with null standing in for a text that is no number).
#[verifier::external_body]
fn to_serde_value(v: &JsonValue) -> serde_json::Value {
    match v {
        JsonValue::Null => Value::Null,
        JsonValue::Bool(b) => Value::Bool(*b),
        JsonValue::NumI(x) => Value::Number(serde_json::Number::from(*x)),
        JsonValue::NumText(s) => s.parse().map(Value::Number).unwrap_or(Value::Null),
        JsonValue::Str(s) => Value::String(s.clone()),
        JsonValue::Arr(items) => Value::Array(items.iter().map(to_serde_value).collect()),
        JsonValue::Obj(fs) => Value::Object(
            fs.iter().map(|(k, w)| (k.clone(), to_serde_value(w))).collect(),
        ),
    }
}

/// Relies on serde_json: read that library's document value into this
/// one's, variant by variant; an integral number becomes an integer, any
/// other number keeps its decimal text.
#[verifier::external_body]
fn from_serde_value(v: serde_json::Value) -> JsonValue {
    match v {
        Value::Null => JsonValue::Null,
        Value::Bool(b) => JsonValue::Bool(b),
        Value::Number(n) => n.as_i64().map(JsonValue::NumI).unwrap_or_else(
            || JsonValue::NumText(n.to_string()),
        ),
        Value::String(s) => JsonValue::Str(s),
        Value::Array(items) => JsonValue::Arr(items.into_iter().map(from_serde_value).collect()),
        Value::Object(map) => JsonValue::Obj(
            map.into_iter().map(|(k, w)| (k, from_serde_value(w))).collect(),
        ),
    }
}

/// Relies on serde_json::from_str: parsing succeeds exactly on valid JSON
/// text, and the document is a function of the characters alone.
#[verifier::external_body]
pub fn parse(text: &str) -> (r: Result<JsonValue, HxError>)
    ensures
        match json_parse_of(text@) {
            Some(v) => r == Ok::<JsonValue, HxError>(v),
            None => r matches Err(e) && e is DomainError,
        },
{
    match serde_json::from_str::<serde_json::Value>(text) {
        Ok(v) => Ok(from_serde_value(v)),
        Err(e) => Err(HxError::DomainError(e.to_string())),
    }
}

/// Relies on serde_json::to_string: the rendered text is a function of the
/// document alone.
#[verifier::external_body]
fn render_compact(value: &JsonValue) -> (r: String)
    ensures
        r@ == json_text_of(*value),
{
    match serde_json::to_string(&to_serde_value(value)) {
        Ok(s) => s,
        Err(_) => String::new(),
    }
}

/// Relies on serde_json's pretty formatter: the indented rendering is a
/// function of the document and the indent text alone.
#[verifier::external_body]
fn render_pretty(value: &JsonValue, indent: &str) -> (r: String)
    ensures
        r@ == json_pretty_text_of(*value, indent@),
{
    let v = to_serde_value(value);
    let mut buf: Vec<u8> = Vec::new();
    let formatter = serde_json::ser::PrettyFormatter::with_indent(indent.as_bytes());
    let mut ser = serde_json::ser::Serializer::with_formatter(&mut buf, formatter);
    match serde::Serialize::serialize(&v, &mut ser) {
        Ok(_) => String::from_utf8(buf).unwrap_or_default(),
        Err(_) => String::new(),
    }
}

/// Render a JSON document as text: compact, or pretty-printed with the
/// given indent text per nesting level.
pub fn stringify(value: &JsonValue, space: Option<&str>) -> (r: String)
    ensures
        match space {
            None => r@ == json_text_of(*value),
            Some(ind) => r@ == json_pretty_text_of(*value, ind@),
        },
{
    match space {
        None => render_compact(value),
        Some(ind) => render_pretty(value, ind),
    }
}

/// Soundness of a bridged document, at recursion budget `fuel`: what the
/// document must look like, payload kind by payload kind, for it to stand
/// for the dynamic value `d` in the heap `h`. Scalars bridge to scalars,
/// nullable wrappers to their value or null, typed sequences to arrays of
/// scalars, dynamic sequences and objects to arrays and objects of bridged
/// children (one budget level down), and every other payload to its display
/// text.
pub open spec fn represents(jv: JsonValue, d: Dynamic, h: &DynHeap, fuel: nat) -> bool
    decreases fuel, 0nat, 0nat,
{
    match d.payload_spec() {
        None => jv is Null,
        Some(p) => match p {
            Payload::Bool(b) => jv == JsonValue::Bool(b),
            Payload::Int(x) => jv == JsonValue::NumI(x as i64),
            Payload::FloatLit(t) => jv matches JsonValue::NumText(u) && u@ == t@,
            Payload::Str(t) => jv matches JsonValue::Str(u) && u@ == t@,
            Payload::HxStr(t) => match t.text() {
                Some(txt) => jv matches JsonValue::Str(u) && u@ == txt,
                None => jv is Null,
            },
            Payload::NullInt(o) => match o {
                Some(x) => jv == JsonValue::NumI(x as i64),
                None => jv is Null,
            },
            Payload::NullBool(o) => match o {
                Some(b) => jv == JsonValue::Bool(b),
                None => jv is Null,
            },
            Payload::NullStr(o) => match o {
                Some(t) => jv matches JsonValue::Str(u) && u@ == t@,
                None => jv is Null,
            },
            Payload::ArrInt(a) => h.int_arrays.valid(a) && (jv matches JsonValue::Arr(items) && {
                let s = h.int_arrays.seq_of(a);
                &&& items@.len() == s.len()
                &&& forall|i: int|
                    0 <= i < s.len() ==> #[trigger] items@[i] == JsonValue::NumI(s[i] as i64)
            }),
            Payload::ArrBool(a) => h.bool_arrays.valid(a) && (jv matches JsonValue::Arr(items)
                && {
                let s = h.bool_arrays.seq_of(a);
                &&& items@.len() == s.len()
                &&& forall|i: int|
                    0 <= i < s.len() ==> #[trigger] items@[i] == JsonValue::Bool(s[i])
            }),
            Payload::ArrStr(a) => h.string_arrays.valid(a) && (jv matches JsonValue::Arr(items)
                && {
                let s = h.string_arrays.seq_of(a);
                &&& items@.len() == s.len()
                &&& forall|i: int|
                    0 <= i < s.len() ==> ((#[trigger] items@[i]) matches JsonValue::Str(u) && u@
                        == s[i]@)
            }),
            Payload::ArrDyn(a) => h.dyn_arrays.valid(a) && fuel > 0 && (jv matches JsonValue::Arr(
                items,
            ) && represents_list(items@, h.dyn_arrays.seq_of(a), h, (fuel - 1) as nat, 0)),
            Payload::Obj(o) => h.objects.valid(o) && fuel > 0 && (jv matches JsonValue::Obj(
                fields,
            ) && represents_fields(
                fields@,
                h.objects.value_of(o).fields.entries(),
                h,
                (fuel - 1) as nat,
                0,
            )),
            Payload::AnonObj(o) => h.anons.valid(o) && fuel > 0 && (jv matches JsonValue::Obj(
                fields,
            ) && represents_fields(
                fields@,
                h.anons.value_of(o).fields.entries(),
                h,
                (fuel - 1) as nat,
                0,
            )),
            Payload::Fault(_) => jv matches JsonValue::Str(u) && u@ == crate::dynamic::dyn_display(
                &d,
                h,
            ),
            Payload::Opaque(_) => jv matches JsonValue::Str(u) && u@
                == crate::dynamic::dyn_display(&d, h),
        },
    }
}

/// Element-wise soundness of a bridged array, from position `i` on.
pub open spec fn represents_list(
    items: Seq<JsonValue>,
    s: Seq<Dynamic>,
    h: &DynHeap,
    fuel: nat,
    i: int,
) -> bool
    decreases fuel, 1nat, s.len() - i when 0 <= i <= s.len()
{
    &&& items.len() == s.len()
    &&& (i >= s.len() || (represents(items[i], s[i], h, fuel) && represents_list(
        items,
        s,
        h,
        fuel,
        i + 1,
    )))
}

/// Field-wise soundness of a bridged object, from position `i` on: keys
/// keep their text and order, values are bridged children.
pub open spec fn represents_fields(
    fields: Seq<(String, JsonValue)>,
    es: Seq<(Seq<char>, Dynamic)>,
    h: &DynHeap,
    fuel: nat,
    i: int,
) -> bool
    decreases fuel, 1nat, es.len() - i when 0 <= i <= es.len()
{
    &&& fields.len() == es.len()
    &&& (i >= es.len() || (fields[i].0@ == es[i].0 && represents(fields[i].1, es[i].1, h, fuel)
        && represents_fields(fields, es, h, fuel, i + 1)))
}

/// When the bridge succeeds: every handle on the walk is live and every
/// dynamic sequence or object lies within the recursion budget.
pub open spec fn json_depth_ok(d: Dynamic, h: &DynHeap, fuel: nat) -> bool
    decreases fuel, 0nat, 0nat,
{
    match d.payload_spec() {
        None => true,
        Some(p) => match p {
            Payload::ArrInt(a) => h.int_arrays.valid(a),
            Payload::ArrBool(a) => h.bool_arrays.valid(a),
            Payload::ArrStr(a) => h.string_arrays.valid(a),
            Payload::ArrDyn(a) => h.dyn_arrays.valid(a) && fuel > 0 && list_depth_ok(
                h.dyn_arrays.seq_of(a),
                h,
                (fuel - 1) as nat,
                0,
            ),
            Payload::Obj(o) => h.objects.valid(o) && fuel > 0 && fields_depth_ok(
                h.objects.value_of(o).fields.entries(),
                h,
                (fuel - 1) as nat,
                0,
            ),
            Payload::AnonObj(o) => h.anons.valid(o) && fuel > 0 && fields_depth_ok(
                h.anons.value_of(o).fields.entries(),
                h,
                (fuel - 1) as nat,
                0,
            ),
            _ => true,
        },
    }
}

/// Budget soundness of every element of a dynamic sequence, from `i` on.
pub open spec fn list_depth_ok(s: Seq<Dynamic>, h: &DynHeap, fuel: nat, i: int) -> bool
    decreases fuel, 1nat, s.len() - i when 0 <= i <= s.len()
{
    i >= s.len() || (json_depth_ok(s[i], h, fuel) && list_depth_ok(s, h, fuel, i + 1))
}

/// Budget soundness of every field value of an object, from `i` on.
pub open spec fn fields_depth_ok(es: Seq<(Seq<char>, Dynamic)>, h: &DynHeap, fuel: nat, i: int) -> bool
    decreases fuel, 1nat, es.len() - i when 0 <= i <= es.len()
{
    i >= es.len() || (json_depth_ok(es[i].1, h, fuel) && fields_depth_ok(es, h, fuel, i + 1))
}

/// A child-wise sound list is list-sound.
proof fn lemma_represents_list_intro(
    items: Seq<JsonValue>,
    s: Seq<Dynamic>,
    h: &DynHeap,
    fuel: nat,
    i: int,
)
    requires
        0 <= i <= s.len(),
        items.len() == s.len(),
        forall|k: int| i <= k < s.len() ==> represents(#[trigger] items[k], s[k], h, fuel),
    ensures
        represents_list(items, s, h, fuel, i),
    decreases s.len() - i,
{
    if i < s.len() {
        lemma_represents_list_intro(items, s, h, fuel, i + 1);
    }
}

/// A field-wise sound record is record-sound.
proof fn lemma_represents_fields_intro(
    fields: Seq<(String, JsonValue)>,
    es: Seq<(Seq<char>, Dynamic)>,
    h: &DynHeap,
    fuel: nat,
    i: int,
)
    requires
        0 <= i <= es.len(),
        fields.len() == es.len(),
        forall|k: int|
            i <= k < es.len() ==> ((#[trigger] fields[k]).0@ == es[k].0 && represents(
                fields[k].1,
                es[k].1,
                h,
                fuel,
            )),
    ensures
        represents_fields(fields, es, h, fuel, i),
    decreases es.len() - i,
{
    if i < es.len() {
        lemma_represents_fields_intro(fields, es, h, fuel, i + 1);
    }
}

/// An element-wise sound budget is list-sound.
proof fn lemma_list_depth_ok_intro(s: Seq<Dynamic>, h: &DynHeap, fuel: nat, i: int)
    requires
        0 <= i <= s.len(),
        forall|k: int| i <= k < s.len() ==> json_depth_ok(#[trigger] s[k], h, fuel),
    ensures
        list_depth_ok(s, h, fuel, i),
    decreases s.len() - i,
{
    if i < s.len() {
        lemma_list_depth_ok_intro(s, h, fuel, i + 1);
    }
}

/// A field-wise sound budget is record-sound.
proof fn lemma_fields_depth_ok_intro(es: Seq<(Seq<char>, Dynamic)>, h: &DynHeap, fuel: nat, i: int)
    requires
        0 <= i <= es.len(),
        forall|k: int| i <= k < es.len() ==> json_depth_ok((#[trigger] es[k]).1, h, fuel),
    ensures
        fields_depth_ok(es, h, fuel, i),
    decreases es.len() - i,
{
    if i < es.len() {
        lemma_fields_depth_ok_intro(es, h, fuel, i + 1);
    }
}

/// Bridge a dynamic value into a JSON document, walking the object graph to
/// at most `depth` nested dynamic sequences or objects (the graph may be
/// cyclic, so the walk carries this budget). Succeeds exactly when every
/// handle on the walk is live and the budget suffices; the result then
/// stands for the value, rule by rule, as `represents` states.
pub fn dynamic_to_json_value(d: &Dynamic, h: &DynHeap, depth: u32) -> (r: Result<
    JsonValue,
    HxError,
>)
    ensures
        r is Ok <==> json_depth_ok(*d, h, depth as nat),
        r matches Ok(jv) ==> represents(jv, *d, h, depth as nat),
        r matches Err(e) ==> (e is DomainError || e == HxError::NullAccess),
    decreases depth,
{
    match d.payload_opt() {
        None => Ok(JsonValue::Null),
        Some(p) => match p {
            Payload::Bool(b) => Ok(JsonValue::Bool(*b)),
            Payload::Int(x) => Ok(JsonValue::NumI(*x as i64)),
            Payload::FloatLit(t) => Ok(JsonValue::NumText(t.clone())),
            Payload::Str(t) => Ok(JsonValue::Str(t.clone())),
            Payload::HxStr(t) => match t.as_str() {
                Ok(u) => Ok(JsonValue::Str(u.to_owned())),
                Err(_) => Ok(JsonValue::Null),
            },
            Payload::NullInt(o) => match o {
                Some(x) => Ok(JsonValue::NumI(*x as i64)),
                None => Ok(JsonValue::Null),
            },
            Payload::NullBool(o) => match o {
                Some(b) => Ok(JsonValue::Bool(*b)),
                None => Ok(JsonValue::Null),
            },
            Payload::NullStr(o) => match o {
                Some(t) => Ok(JsonValue::Str(t.clone())),
                None => Ok(JsonValue::Null),
            },
            Payload::ArrInt(a) => {
                if !a.is_valid_in(&h.int_arrays) {
                    return Err(HxError::NullAccess);
                }
                let ghost s = h.int_arrays.seq_of(*a);
                let n = a.len(&h.int_arrays);
                let mut items: Vec<JsonValue> = Vec::new();
                let mut i: usize = 0;
                while i < n
                    invariant
                        h.int_arrays.valid(*a),
                        s == h.int_arrays.seq_of(*a),
                        n == s.len(),
                        0 <= i <= n,
                        items@.len() == i,
                        forall|k: int|
                            0 <= k < i ==> #[trigger] items@[k] == JsonValue::NumI(s[k] as i64),
                    decreases n - i,
                {
                    items.push(JsonValue::NumI(*a.read_at(&h.int_arrays, i) as i64));
                    i = i + 1;
                }
                Ok(JsonValue::Arr(items))
            },
            Payload::ArrBool(a) => {
                if !a.is_valid_in(&h.bool_arrays) {
                    return Err(HxError::NullAccess);
                }
                let ghost s = h.bool_arrays.seq_of(*a);
                let n = a.len(&h.bool_arrays);
                let mut items: Vec<JsonValue> = Vec::new();
                let mut i: usize = 0;
                while i < n
                    invariant
                        h.bool_arrays.valid(*a),
                        s == h.bool_arrays.seq_of(*a),
                        n == s.len(),
                        0 <= i <= n,
                        items@.len() == i,
                        forall|k: int|
                            0 <= k < i ==> #[trigger] items@[k] == JsonValue::Bool(s[k]),
                    decreases n - i,
                {
                    items.push(JsonValue::Bool(*a.read_at(&h.bool_arrays, i)));
                    i = i + 1;
                }
                Ok(JsonValue::Arr(items))
            },
            Payload::ArrStr(a) => {
                if !a.is_valid_in(&h.string_arrays) {
                    return Err(HxError::NullAccess);
                }
                let ghost s = h.string_arrays.seq_of(*a);
                let n = a.len(&h.string_arrays);
                let mut items: Vec<JsonValue> = Vec::new();
                let mut i: usize = 0;
                while i < n
                    invariant
                        h.string_arrays.valid(*a),
                        s == h.string_arrays.seq_of(*a),
                        n == s.len(),
                        0 <= i <= n,
                        items@.len() == i,
                        forall|k: int|
                            0 <= k < i ==> ((#[trigger] items@[k]) matches JsonValue::Str(u) && u@
                                == s[k]@),
                    decreases n - i,
                {
                    items.push(JsonValue::Str(a.read_at(&h.string_arrays, i).clone()));
                    i = i + 1;
                }
                Ok(JsonValue::Arr(items))
            },
            Payload::ArrDyn(a) => {
                if !a.is_valid_in(&h.dyn_arrays) {
                    return Err(HxError::NullAccess);
                }
                if depth == 0 {
                    return Err(HxError::DomainError("JSON nesting too deep".to_owned()));
                }
                let ghost s = h.dyn_arrays.seq_of(*a);
                let ghost f1 = (depth - 1) as nat;
                let n = a.len(&h.dyn_arrays);
                let mut items: Vec<JsonValue> = Vec::new();
                let mut i: usize = 0;
                while i < n
                    invariant
                        d.payload_spec() == Some(Payload::ArrDyn(*a)),
                        h.dyn_arrays.valid(*a),
                        s == h.dyn_arrays.seq_of(*a),
                        f1 == (depth - 1) as nat,
                        depth >= 1,
                        n == s.len(),
                        0 <= i <= n,
                        items@.len() == i,
                        forall|k: int|
                            0 <= k < i ==> (json_depth_ok(#[trigger] s[k], h, f1) && represents(
                                items@[k],
                                s[k],
                                h,
                                f1,
                            )),
                    decreases n - i,
                {
                    let elem = a.read_at(&h.dyn_arrays, i).clone();
                    match dynamic_to_json_value(&elem, h, depth - 1) {
                        Ok(jv) => {
                            items.push(jv);
                        },
                        Err(e) => {
                            proof {
                                assert(!json_depth_ok(s[i as int], h, f1));
                                assert(!list_depth_ok(s, h, f1, i as int));
                                lemma_list_depth_not_ok(s, h, f1, i as int);
                            }
                            return Err(e);
                        },
                    }
                    i = i + 1;
                }
                proof {
                    lemma_list_depth_ok_intro(s, h, f1, 0);
                    lemma_represents_list_intro(items@, s, h, f1, 0);
                }
                Ok(JsonValue::Arr(items))
            },
            Payload::Obj(o) => {
                if depth == 0 {
                    if !o.is_valid_in(&h.objects) {
                        return Err(HxError::NullAccess);
                    }
                    return Err(HxError::DomainError("JSON nesting too deep".to_owned()));
                }
                let entries = match dyn_object_entries(o, &h.objects) {
                    Ok(v) => v,
                    Err(e) => {
                        return Err(e);
                    },
                };
                let ghost es = h.objects.value_of(*o).fields.entries();
                let ghost f1 = (depth - 1) as nat;
                let n = entries.len();
                let mut fields: Vec<(String, JsonValue)> = Vec::new();
                let mut i: usize = 0;
                while i < n
                    invariant
                        d.payload_spec() == Some(Payload::Obj(*o)),
                        h.objects.valid(*o),
                        es == h.objects.value_of(*o).fields.entries(),
                        f1 == (depth - 1) as nat,
                        depth >= 1,
                        n == es.len(),
                        n == entries@.len(),
                        forall|k: int|
                            0 <= k < n ==> ((#[trigger] entries@[k]).0@ == es[k].0 && entries@[
                                k
                            ].1 == es[k].1),
                        0 <= i <= n,
                        fields@.len() == i,
                        forall|k: int|
                            0 <= k < i ==> (json_depth_ok((#[trigger] es[k]).1, h, f1)
                                && fields@[k].0@ == es[k].0 && represents(
                                fields@[k].1,
                                es[k].1,
                                h,
                                f1,
                            )),
                    decreases n - i,
                {
                    let pair = &entries[i];
                    match dynamic_to_json_value(&pair.1, h, depth - 1) {
                        Ok(jv) => {
                            fields.push((pair.0.clone(), jv));
                        },
                        Err(e) => {
                            proof {
                                lemma_fields_depth_not_ok(es, h, f1, i as int);
                            }
                            return Err(e);
                        },
                    }
                    i = i + 1;
                }
                proof {
                    lemma_fields_depth_ok_intro(es, h, f1, 0);
                    lemma_represents_fields_intro(fields@, es, h, f1, 0);
                }
                Ok(JsonValue::Obj(fields))
            },
            Payload::AnonObj(o) => {
                if depth == 0 {
                    if !o.is_valid_in(&h.anons) {
                        return Err(HxError::NullAccess);
                    }
                    return Err(HxError::DomainError("JSON nesting too deep".to_owned()));
                }
                let entries = match crate::anon::anon_entries(o, &h.anons) {
                    Ok(v) => v,
                    Err(e) => {
                        return Err(e);
                    },
                };
                let ghost es = h.anons.value_of(*o).fields.entries();
                let ghost f1 = (depth - 1) as nat;
                let n = entries.len();
                let mut fields: Vec<(String, JsonValue)> = Vec::new();
                let mut i: usize = 0;
                while i < n
                    invariant
                        d.payload_spec() == Some(Payload::AnonObj(*o)),
                        h.anons.valid(*o),
                        es == h.anons.value_of(*o).fields.entries(),
                        f1 == (depth - 1) as nat,
                        depth >= 1,
                        n == es.len(),
                        n == entries@.len(),
                        forall|k: int|
                            0 <= k < n ==> ((#[trigger] entries@[k]).0@ == es[k].0 && entries@[
                                k
                            ].1 == es[k].1),
                        0 <= i <= n,
                        fields@.len() == i,
                        forall|k: int|
                            0 <= k < i ==> (json_depth_ok((#[trigger] es[k]).1, h, f1)
                                && fields@[k].0@ == es[k].0 && represents(
                                fields@[k].1,
                                es[k].1,
                                h,
                                f1,
                            )),
                    decreases n - i,
                {
                    let pair = &entries[i];
                    match dynamic_to_json_value(&pair.1, h, depth - 1) {
                        Ok(jv) => {
                            fields.push((pair.0.clone(), jv));
                        },
                        Err(e) => {
                            proof {
                                lemma_fields_depth_not_ok(es, h, f1, i as int);
                            }
                            return Err(e);
                        },
                    }
                    i = i + 1;
                }
                proof {
                    lemma_fields_depth_ok_intro(es, h, f1, 0);
                    lemma_represents_fields_intro(fields@, es, h, f1, 0);
                }
                Ok(JsonValue::Obj(fields))
            },
            Payload::Fault(_) => Ok(JsonValue::Str(d.to_haxe_string(h))),
            Payload::Opaque(_) => Ok(JsonValue::Str(d.to_haxe_string(h))),
        },
    }
}

/// A budget failure at one element fails the whole list.
proof fn lemma_list_depth_not_ok(s: Seq<Dynamic>, h: &DynHeap, fuel: nat, i: int)
    requires
        0 <= i < s.len(),
        !json_depth_ok(s[i], h, fuel),
    ensures
        !list_depth_ok(s, h, fuel, 0),
    decreases i,
{
    if i > 0 {
        lemma_list_depth_not_ok_from(s, h, fuel, 0, i);
    }
}

/// A budget failure at one element fails the list from any earlier start.
proof fn lemma_list_depth_not_ok_from(s: Seq<Dynamic>, h: &DynHeap, fuel: nat, from: int, i: int)
    requires
        0 <= from <= i < s.len(),
        !json_depth_ok(s[i], h, fuel),
    ensures
        !list_depth_ok(s, h, fuel, from),
    decreases i - from,
{
    if from < i {
        lemma_list_depth_not_ok_from(s, h, fuel, from + 1, i);
    }
}

/// A budget failure at one field fails the whole record.
proof fn lemma_fields_depth_not_ok(es: Seq<(Seq<char>, Dynamic)>, h: &DynHeap, fuel: nat, i: int)
    requires
        0 <= i < es.len(),
        !json_depth_ok(es[i].1, h, fuel),
    ensures
        !fields_depth_ok(es, h, fuel, 0),
{
    lemma_fields_depth_not_ok_from(es, h, fuel, 0, i);
}

/// A budget failure at one field fails the record from any earlier start.
proof fn lemma_fields_depth_not_ok_from(
    es: Seq<(Seq<char>, Dynamic)>,
    h: &DynHeap,
    fuel: nat,
    from: int,
    i: int,
)
    requires
        0 <= from <= i < es.len(),
        !json_depth_ok(es[i].1, h, fuel),
    ensures
        !fields_depth_ok(es, h, fuel, from),
    decreases i - from,
{
    if from < i {
        lemma_fields_depth_not_ok_from(es, h, fuel, from + 1, i);
    }
}

} // verus!
