use hxrt::HxError;
use hxrt::anon::Anon;
use hxrt::array::ArrayStore;
use hxrt::bytes::Bytes;
use hxrt::cell::{CellStore, HxRef};
use hxrt::dynamic::{DynHeap, Dynamic};
use hxrt::json::JsonValue;
use hxrt::string::HxString;

#[test]
fn string_helpers_follow_source_semantics() {
    assert_eq!(hxrt::string::len("héllo"), 5);
    assert_eq!(hxrt::string::char_at("abc", 1), "b");
    assert_eq!(hxrt::string::char_at("abc", -1), "");
    assert_eq!(hxrt::string::char_at("abc", 5), "");
    assert_eq!(hxrt::string::char_code_at("abc", 0), Some(97));
    assert_eq!(hxrt::string::char_code_at("abc", 3), None);
    assert_eq!(hxrt::string::substr("haxe rust", 5, None), "rust");
    assert_eq!(hxrt::string::substr("haxe rust", -4, Some(2)), "ru");
    assert_eq!(hxrt::string::substr("haxe", 1, Some(0)), "");
    assert_eq!(hxrt::string::index_of("banana", "na", None), 2);
    assert_eq!(hxrt::string::index_of("banana", "na", Some(3)), 4);
    assert_eq!(hxrt::string::index_of("banana", "zz", None), -1);
    assert_eq!(hxrt::string::from_char_code(65), "A");
    assert_eq!(hxrt::string::from_char_code(-1), "");
    assert_eq!(hxrt::string::from_char_code(0xD800), "");
}

#[test]
fn string_split_matches_delimiter_rules() {
    let mut st: ArrayStore<String> = ArrayStore::new();
    let parts = hxrt::string::split("a,b,,c", ",", &mut st);
    assert_eq!(parts.to_vec(&st), vec!["a", "b", "", "c"]);
    let chars = hxrt::string::split("ab", "", &mut st);
    assert_eq!(chars.to_vec(&st), vec!["a", "b"]);
    let whole = hxrt::string::split("abc", "x", &mut st);
    assert_eq!(whole.to_vec(&st), vec!["abc"]);
    let edges = hxrt::string::split(",a,", ",", &mut st);
    assert_eq!(edges.to_vec(&st), vec!["", "a", ""]);
}

#[test]
fn lower_case_wrapper_changes_its_input() {
    assert_eq!(hxrt::string::to_lower_case("AbC"), "abc");
    assert_eq!(hxrt::string::to_lower_case(""), "");
}

#[test]
fn hx_string_is_nullable() {
    let s = HxString::new(String::from("v"));
    assert!(s.is_some());
    assert_eq!(s.as_str().unwrap(), "v");
    assert_eq!(s.to_haxe_string(), "v");
    let n = HxString::null();
    assert!(n.is_null());
    assert_eq!(n.as_str().unwrap_err(), HxError::NullAccess);
    assert_eq!(n.to_haxe_string(), "null");
}

#[test]
fn number_rendering_is_exact() {
    assert_eq!(hxrt::text::i32_to_string(0), "0");
    assert_eq!(hxrt::text::i32_to_string(-105), "-105");
    assert_eq!(hxrt::text::i32_to_string(i32::MIN), "-2147483648");
    assert_eq!(hxrt::text::u64_to_string(18446744073709551615), "18446744073709551615");
    assert_eq!(hxrt::text::i64_to_string(i64::MIN), "-9223372036854775808");
    assert_eq!(hxrt::text::u64_to_hex_string(0), "0");
    assert_eq!(hxrt::text::u64_to_hex_string(0xdead_beef), "deadbeef");
    assert_eq!(hxrt::text::bool_to_string(true), "true");
}

#[test]
fn ptr_id_is_hex_of_identity() {
    let mut st: CellStore<i32> = CellStore::new();
    let mut last = HxRef::new(&mut st, 0);
    for v in 1..31i32 {
        last = HxRef::new(&mut st, v);
    }
    // The 31st allocation has identity 31, rendered as hex.
    assert_eq!(hxrt::hxref::ptr_id(&last), "1f");
    let other = last.clone();
    assert!(hxrt::hxref::ptr_eq(&last, &other));
}

#[test]
fn bytes_ops_check_bounds() {
    let mut b = Bytes::zeroed(3);
    assert_eq!(b.length(), 3);
    assert_eq!(b.get(0), Ok(0));
    assert!(b.set(1, 0x41).is_ok());
    assert_eq!(b.get(1), Ok(0x41));
    assert_eq!(b.get(3), Err(HxError::OutsideBounds));
    assert_eq!(b.get(-1), Err(HxError::OutsideBounds));
    assert_eq!(b.set(9, 1), Err(HxError::OutsideBounds));

    let s = Bytes::of_string("abcd");
    assert_eq!(s.length(), 4);
    let sub = s.sub(1, 2).unwrap();
    assert_eq!(sub.as_slice(), b"bc");
    assert!(s.sub(3, 2).is_err());
    assert!(s.sub(-1, 1).is_err());
    assert_eq!(s.sub(4, 0).unwrap().length(), 0);
    assert_eq!(s.get_string(1, 3).unwrap(), "bcd");
    assert_eq!(s.to_string(), "abcd");
}

#[test]
fn bytes_blit_handles_overlap_through_cells() {
    let mut st: CellStore<Bytes> = CellStore::new();
    let dst = HxRef::new(&mut st, Bytes::of_string("....."));
    let src = HxRef::new(&mut st, Bytes::of_string("xy"));
    hxrt::bytes::blit(&mut st, &dst, 1, &src, 0, 2).unwrap();
    assert_eq!(dst.borrow(&st).unwrap().to_string(), ".xy..");
    // A buffer copied into itself reads before it writes.
    hxrt::bytes::blit(&mut st, &dst, 2, &dst, 1, 3).unwrap();
    assert_eq!(dst.borrow(&st).unwrap().to_string(), ".xxy.");
    assert_eq!(
        hxrt::bytes::blit(&mut st, &dst, 4, &src, 0, 2),
        Err(HxError::OutsideBounds)
    );
    hxrt::bytes::write_from_slice(&mut st, &dst, 0, b"zz").unwrap();
    assert_eq!(dst.borrow(&st).unwrap().to_string(), "zzxy.");
    // A zero-length copy moves nothing and succeeds whatever the positions.
    assert_eq!(hxrt::bytes::blit(&mut st, &dst, -1, &src, 0, 0), Ok(()));
    assert_eq!(hxrt::bytes::blit(&mut st, &dst, 99, &src, -7, 0), Ok(()));
    assert_eq!(dst.borrow(&st).unwrap().to_string(), "zzxy.");
}

#[test]
fn anon_fields_are_typed_and_ordered() {
    let mut a = Anon::new();
    a.set("n", 5i32);
    a.set("s", String::from("v"));
    a.set("n", 6i32);
    assert_eq!(a.get::<i32>("n"), Ok(6));
    assert_eq!(a.get::<i32>("missing"), Err(HxError::NullAccess));
    assert_eq!(a.get::<i32>("s"), Err(HxError::TypeMismatch));
    assert!(a.has_key("s"));
    let mut st: ArrayStore<String> = ArrayStore::new();
    let keys = a.keys(&mut st);
    assert_eq!(keys.to_vec(&st), vec!["n", "s"]);

    let mut cells: CellStore<Anon> = CellStore::new();
    let h = HxRef::new(&mut cells, a);
    hxrt::anon::anon_set(&h, &mut cells, "t", Dynamic::from(true)).unwrap();
    assert_eq!(hxrt::anon::anon_has(&h, &cells, "t"), Ok(true));
    let got = hxrt::anon::anon_get(&h, &cells, "t").unwrap();
    assert_eq!(got.downcast_ref::<bool>(), Some(&true));
    let entries = hxrt::anon::anon_entries(&h, &cells).unwrap();
    assert_eq!(entries.len(), 3);
    assert_eq!(entries[2].0, "t");
}

#[test]
fn date_utc_accessors_at_known_timestamps() {
    // 2001-09-09 01:46:40 UTC.
    let ms: i64 = 1_000_000_000_000;
    assert_eq!(hxrt::date::utc_full_year(ms), Ok(2001));
    assert_eq!(hxrt::date::utc_month0(ms), Ok(8));
    assert_eq!(hxrt::date::utc_date(ms), Ok(9));
    assert_eq!(hxrt::date::utc_day(ms), Ok(0));
    assert_eq!(hxrt::date::utc_hours(ms), Ok(1));
    assert_eq!(hxrt::date::utc_minutes(ms), Ok(46));
    assert_eq!(hxrt::date::utc_seconds(ms), Ok(40));
    // The epoch itself.
    assert_eq!(hxrt::date::utc_full_year(0), Ok(1970));
    assert_eq!(hxrt::date::utc_day(0), Ok(4));
    // Local accessors stay in their documented ranges wherever they run.
    let h = hxrt::date::local_hours(ms).unwrap();
    assert!((0..24).contains(&h));
    let off = hxrt::date::timezone_offset_minutes(ms).unwrap();
    assert!((-1440..=1440).contains(&off));
    // The formatter pads every field.
    assert_eq!(hxrt::date::format_ymd_hms(33, 0, 2, 3, 4, 5), "0033-01-02 03:04:05");
    let t = hxrt::date::format_local(ms).unwrap();
    assert_eq!(t.len(), 19);
}

#[test]
fn json_parse_and_stringify_round_trip() {
    let v = hxrt::json::parse("[1, null, \"x\", true, 2.5]").unwrap();
    match &v {
        JsonValue::Arr(items) => {
            assert_eq!(items.len(), 5);
            assert!(matches!(items[0], JsonValue::NumI(1)));
            assert!(matches!(items[1], JsonValue::Null));
            assert!(matches!(items[4], JsonValue::NumText(_)));
        },
        _ => panic!("expected an array"),
    }
    assert_eq!(hxrt::json::stringify(&v, None), "[1,null,\"x\",true,2.5]");
    assert!(hxrt::json::parse("{ not json").is_err());
    let obj = hxrt::json::parse("{\"a\": 1}").unwrap();
    assert_eq!(hxrt::json::stringify(&obj, None), "{\"a\":1}");
    assert_eq!(
        hxrt::json::stringify(&obj, Some("  ")),
        "{\n  \"a\": 1\n}"
    );
}

#[test]
fn json_value_helpers_inspect_dynamics() {
    let mut heap = DynHeap::new();
    assert_eq!(hxrt::json::value_kind(&Dynamic::null()), Ok(0));
    assert_eq!(hxrt::json::value_kind(&Dynamic::from(true)), Ok(1));
    assert_eq!(hxrt::json::value_kind(&Dynamic::from(3i32)), Ok(2));
    assert_eq!(hxrt::json::value_kind(&Dynamic::from(String::from("s"))), Ok(4));
    assert_eq!(
        hxrt::json::value_kind(&Dynamic::from(Some(1i32))),
        Err(HxError::TypeMismatch)
    );
    assert_eq!(hxrt::json::value_as_bool(&Dynamic::from(true)), Ok(true));
    assert_eq!(hxrt::json::value_as_int(&Dynamic::from(9i32)), Ok(9));
    assert_eq!(
        hxrt::json::value_as_int(&Dynamic::from(true)),
        Err(HxError::TypeMismatch)
    );
    assert_eq!(
        hxrt::json::value_as_string(&Dynamic::from(String::from("t"))),
        Ok(String::from("t"))
    );

    let arr = hxrt::array::Array::<Dynamic>::new(&mut heap.dyn_arrays);
    arr.push(&mut heap.dyn_arrays, Dynamic::from(7i32));
    let d = Dynamic::from(arr);
    assert_eq!(hxrt::json::value_kind(&d), Ok(5));
    assert_eq!(hxrt::json::value_array_length(&d, &heap), Ok(1));
    let elem = hxrt::json::value_array_get(&d, &heap, 0).unwrap();
    assert_eq!(elem.downcast_ref::<i32>(), Some(&7));
    assert_eq!(
        hxrt::json::value_array_get(&d, &heap, 5).unwrap_err(),
        HxError::OutsideBounds
    );

    let o = hxrt::dynamic::dyn_object_new(&mut heap.objects);
    hxrt::dynamic::dyn_object_set(&o, &mut heap.objects, "k", Dynamic::from(2i32)).unwrap();
    let dobj = Dynamic::from_ref(o);
    assert_eq!(hxrt::json::value_kind(&dobj), Ok(6));
    let field = hxrt::json::value_object_field(&dobj, &heap, "k").unwrap();
    assert_eq!(field.downcast_ref::<i32>(), Some(&2));
    let mut strings: ArrayStore<String> = ArrayStore::new();
    let keys = hxrt::json::value_object_keys(&dobj, &heap.objects, &mut strings).unwrap();
    assert_eq!(keys.to_vec(&strings), vec!["k"]);
}

#[test]
fn host_to_string_renders_dotted_quad() {
    assert_eq!(hxrt::net::host_to_string(0x7f000001), "127.0.0.1");
    assert_eq!(hxrt::net::host_to_string(-1), "255.255.255.255");
    assert_eq!(hxrt::net::host_to_string(0), "0.0.0.0");
}

#[test]
fn render_sql_value_quotes_and_escapes() {
    let heap = DynHeap::new();
    assert_eq!(hxrt::db::render_sql_value(&Dynamic::null(), &heap), "NULL");
    assert_eq!(hxrt::db::render_sql_value(&Dynamic::from(42i32), &heap), "42");
    assert_eq!(hxrt::db::render_sql_value(&Dynamic::from(true), &heap), "1");
    assert_eq!(hxrt::db::render_sql_value(&Dynamic::from(false), &heap), "0");
    assert_eq!(
        hxrt::db::render_sql_value(&Dynamic::from(String::from("it's")), &heap),
        "'it''s'"
    );
}

#[test]
fn io_error_display_names_variants() {
    let heap = DynHeap::new();
    assert_eq!(hxrt::io::Error::Blocked.to_haxe_string(&heap), "Blocked");
    assert_eq!(hxrt::io::Error::OutsideBounds.to_haxe_string(&heap), "OutsideBounds");
    assert_eq!(hxrt::io::Error::Overflow.to_haxe_string(&heap), "Overflow");
    let custom = hxrt::io::Error::Custom(Dynamic::from(5i32));
    assert_eq!(custom.to_haxe_string(&heap), "Custom(5)");
    assert_eq!(
        HxError::DomainError(String::from("boom")).to_haxe_string(),
        "boom"
    );
    assert_eq!(HxError::NullAccess.to_haxe_string(), "Null Access");
}

#[test]
fn iter_hands_out_elements_in_order() {
    let mut it = hxrt::iter::Iter::from_vec(vec![10, 20]);
    assert!(it.has_next());
    assert_eq!(*it.next(), 10);
    assert_eq!(*it.next(), 20);
    assert!(!it.has_next());
    let kv = hxrt::iter::KeyValue { key: String::from("k"), value: 1i32 };
    assert_eq!(kv.key, "k");
    assert_eq!(kv.value, 1);
}

#[test]
fn query_result_cursor_walks_rows() {
    let mut heap = DynHeap::new();
    let mut names_store: ArrayStore<String> = ArrayStore::new();
    let names = hxrt::array::Array::from_vec(
        &mut names_store,
        vec![String::from("id"), String::from("name")],
    );
    let mut rows_store: ArrayStore<hxrt::array::Array<Dynamic>> = ArrayStore::new();
    let row1 = hxrt::array::Array::from_vec(
        &mut heap.dyn_arrays,
        vec![Dynamic::from(1i32), Dynamic::from(String::from("a"))],
    );
    let row2 = hxrt::array::Array::from_vec(
        &mut heap.dyn_arrays,
        vec![Dynamic::from(2i32), Dynamic::from(String::from("b"))],
    );
    let rows = hxrt::array::Array::from_vec(&mut rows_store, vec![row1, row2.clone()]);
    let mut q = hxrt::db::QueryResult::new(names, rows);
    assert_eq!(q.nfields(&names_store), 2);
    assert_eq!(q.length(&rows_store), 2);
    assert!(q.advance(&rows_store));
    assert_eq!(q.length(&rows_store), 1);
    assert!(q.advance(&rows_store));
    assert!(q.current.as_ref().unwrap().ptr_eq(&row2));
    assert!(!q.advance(&rows_store));
    assert_eq!(q.length(&rows_store), 0);
}

#[test]
fn free_boxing_functions_match_methods() {
    let mut heap = DynHeap::new();
    assert!(hxrt::dynamic::eq(
        &hxrt::dynamic::from(4i32),
        &Dynamic::from(4i32)
    ));
    let d = hxrt::dynamic::from_with_type_id(4i32, 9);
    assert_eq!(d.type_id(), Some(9));
    let o = hxrt::dynamic::dyn_object_new(&mut heap.objects);
    let d2 = hxrt::dynamic::from_ref_with_type_id(o.clone(), 3);
    assert_eq!(d2.type_id(), Some(3));
    assert_eq!(
        hxrt::dynamic::from_ref(o).ptr_usize(),
        d2.ptr_usize()
    );
}

#[test]
fn nullable_string_payload_displays_value_or_null() {
    let heap = DynHeap::new();
    let some = Dynamic::from(Some(String::from("v")));
    assert_eq!(some.to_haxe_string(&heap), "v");
    assert_eq!(hxrt::json::value_as_string(&some), Err(HxError::TypeMismatch));
    let none = Dynamic::from(None::<String>);
    assert!(!none.is_null());
    assert_eq!(none.to_haxe_string(&heap), "null");
    assert_eq!(
        some.downcast::<Option<String>>().unwrap(),
        Some(String::from("v"))
    );
}

#[test]
fn parse_to_ms_recognises_the_three_shapes() {
    // Clock-only: milliseconds from the epoch itself, exactly.
    assert_eq!(hxrt::date::parse_to_ms("01:02:03"), Ok(((3600 + 120 + 3) * 1000) as i64));
    assert_eq!(hxrt::date::parse_to_ms("00:00:00"), Ok(0));
    assert!(hxrt::date::parse_to_ms("25:00:00").is_err());
    // Calendar shapes resolve in the machine time zone; shape errors fail.
    assert!(hxrt::date::parse_to_ms("2020-05-06").is_ok());
    assert!(hxrt::date::parse_to_ms("2020-05-06 07:08:09").is_ok());
    assert!(hxrt::date::parse_to_ms("2020-99-99").is_err());
    assert!(hxrt::date::parse_to_ms("not a date").is_err());
    assert!(hxrt::date::parse_to_ms("2020/05/06").is_err());
    let fields = hxrt::date::parse_date_fields("1999-12-31 23:59:58").unwrap();
    assert_eq!(fields, (1999, 12, 31, 23, 59, 58));
}

#[test]
fn dynamic_to_json_bridges_nested_values() {
    let mut heap = DynHeap::new();
    let inner = hxrt::array::Array::<Dynamic>::new(&mut heap.dyn_arrays);
    inner.push(&mut heap.dyn_arrays, Dynamic::from(1i32));
    inner.push(&mut heap.dyn_arrays, Dynamic::from(String::from("two")));
    let o = hxrt::dynamic::dyn_object_new(&mut heap.objects);
    hxrt::dynamic::dyn_object_set(&o, &mut heap.objects, "items", Dynamic::from_ref(inner))
        .unwrap();
    hxrt::dynamic::dyn_object_set(&o, &mut heap.objects, "ok", Dynamic::from(true)).unwrap();
    let d = Dynamic::from_ref(o);
    let doc = hxrt::json::dynamic_to_json_value(&d, &heap, 8).unwrap();
    assert_eq!(
        hxrt::json::stringify(&doc, None),
        "{\"items\":[1,\"two\"],\"ok\":true}"
    );
    // The nesting budget is honoured: zero depth refuses the object walk.
    assert!(hxrt::json::dynamic_to_json_value(&d, &heap, 0).is_err());
    // Scalars bridge at any budget; typed arrays bridge without recursion.
    assert!(hxrt::json::dynamic_to_json_value(&Dynamic::from(5i32), &heap, 0).is_ok());
    let ints = hxrt::array::Array::<i32>::new(&mut heap.int_arrays);
    ints.push(&mut heap.int_arrays, 9);
    let di = Dynamic::from_ref(ints);
    let idoc = hxrt::json::dynamic_to_json_value(&di, &heap, 0).unwrap();
    assert_eq!(hxrt::json::stringify(&idoc, None), "[9]");
}
