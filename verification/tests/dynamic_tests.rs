use hxrt::array::Array;
use hxrt::dynamic::{Dynamic, DynHeap, eq, index_get_i32, dyn_object_new};

#[test]
fn dynamic_downcast_and_to_haxe_string_work() {
    let heap = DynHeap::new();

    let d = Dynamic::from(String::from("hi"));
    assert_eq!(d.downcast_ref::<String>().unwrap().as_str(), "hi");
    assert_eq!(d.to_haxe_string(&heap), "hi");

    let d2 = Dynamic::from(123i32);
    assert_eq!(d2.to_haxe_string(&heap), "123");

    let dn = Dynamic::null();
    assert_eq!(dn.to_haxe_string(&heap), "null");
}

#[test]
fn dynamic_owned_downcast_works() {
    let d = Dynamic::from(String::from("boom"));
    assert!(
        d.downcast_ref::<String>().is_some(),
        "downcast_ref should see String"
    );
    let s = match d.downcast::<String>() {
        Ok(v) => v,
        Err(_) => panic!("downcast String should succeed"),
    };
    assert_eq!(s.as_str(), "boom");

    let d2 = Dynamic::from(123i32);
    assert!(
        d2.downcast::<String>().is_err(),
        "downcast wrong type should fail"
    );
}

#[test]
fn dynamic_owned_downcast_on_null_fails() {
    let dn = Dynamic::null();
    assert!(
        dn.downcast::<String>().is_err(),
        "downcast on null should fail"
    );
}

#[test]
fn dynamic_eq_primitives_work() {
    assert!(eq(&Dynamic::null(), &Dynamic::null()));
    assert!(!eq(&Dynamic::null(), &Dynamic::from(1i32)));
    assert!(eq(&Dynamic::from(1i32), &Dynamic::from(1i32)));
    assert!(!eq(&Dynamic::from(1i32), &Dynamic::from(2i32)));
    assert!(eq(
        &Dynamic::from(String::from("x")),
        &Dynamic::from(String::from("x"))
    ));
}

#[test]
fn dynamic_eq_array_identity_works() {
    let mut heap = DynHeap::new();
    let a = Array::<Dynamic>::new(&mut heap.dyn_arrays);
    a.push(&mut heap.dyn_arrays, Dynamic::from(1i32));
    let b = a.clone();
    assert!(eq(&Dynamic::from_ref(a), &Dynamic::from_ref(b)));
}

#[test]
fn dynamic_eq_hxref_identity_works_for_dyn_object() {
    let mut heap = DynHeap::new();
    let o = dyn_object_new(&mut heap.objects);
    let d1 = Dynamic::from_ref(o.clone());
    let d2 = Dynamic::from_ref(o);
    assert!(eq(&d1, &d2));
}

#[test]
fn dynamic_index_get_on_dynamic_array_works() {
    let mut heap = DynHeap::new();
    let a = Array::<Dynamic>::new(&mut heap.dyn_arrays);
    a.push(&mut heap.dyn_arrays, Dynamic::from(1i32));
    a.push(&mut heap.dyn_arrays, Dynamic::from(2i32));
    let d = Dynamic::from(a);
    assert_eq!(
        index_get_i32(&d, &heap, 0).downcast_ref::<i32>().unwrap().clone(),
        1
    );
    assert_eq!(
        index_get_i32(&d, &heap, 1).downcast_ref::<i32>().unwrap().clone(),
        2
    );
    assert!(index_get_i32(&d, &heap, 999).is_null());
    assert!(index_get_i32(&d, &heap, -1).is_null());
}

#[test]
fn dynamic_type_id_metadata_roundtrips() {
    let mut heap = DynHeap::new();

    let tagged = Dynamic::from_with_type_id(7i32, 0x1234_abcd);
    assert_eq!(tagged.type_id(), Some(0x1234_abcd));
    assert_eq!(tagged.clone().type_id(), Some(0x1234_abcd));

    let plain = Dynamic::from(7i32);
    assert_eq!(plain.type_id(), None);

    let obj = dyn_object_new(&mut heap.objects);
    let tagged_ref = Dynamic::from_ref_with_type_id(obj.clone(), 0xabcd_9876);
    assert_eq!(tagged_ref.type_id(), Some(0xabcd_9876));
    assert!(tagged_ref.ptr_usize() != 0);
    assert_eq!(tagged_ref.ptr_usize(), Dynamic::from_ref(obj).ptr_usize());
}

#[test]
fn dynamic_two_boxings_of_distinct_sequences_differ() {
    let mut heap = DynHeap::new();
    let a = Array::<Dynamic>::new(&mut heap.dyn_arrays);
    a.push(&mut heap.dyn_arrays, Dynamic::from(5i32));
    let b = Array::<Dynamic>::new(&mut heap.dyn_arrays);
    b.push(&mut heap.dyn_arrays, Dynamic::from(5i32));
    // Same contents, distinct allocations: not equal.
    assert!(!eq(&Dynamic::from_ref(a.clone()), &Dynamic::from_ref(b)));
    // Same allocation boxed twice: equal.
    assert!(eq(&Dynamic::from_ref(a.clone()), &Dynamic::from_ref(a)));
    // Two boxings of the integer five: equal.
    assert!(eq(&Dynamic::from(5i32), &Dynamic::from(5i32)));
}

#[test]
fn dynamic_field_get_set_roundtrip() {
    let mut heap = DynHeap::new();
    let o = dyn_object_new(&mut heap.objects);
    let d = Dynamic::from_ref(o);
    assert!(hxrt::dynamic::field_get(&d, &heap, "name").is_null());
    hxrt::dynamic::field_set(&d, &mut heap, "name", Dynamic::from(String::from("ada"))).unwrap();
    let got = hxrt::dynamic::field_get(&d, &heap, "name");
    assert_eq!(got.downcast_ref::<String>().unwrap().as_str(), "ada");
    // Writing a field on a non-object receiver is refused.
    let prim = Dynamic::from(3i32);
    assert!(hxrt::dynamic::field_set(&prim, &mut heap, "x", Dynamic::null()).is_err());
}

#[test]
fn dynamic_display_of_int_array_brackets_elements() {
    let mut heap = DynHeap::new();
    let a = Array::<i32>::new(&mut heap.int_arrays);
    a.push(&mut heap.int_arrays, 1);
    a.push(&mut heap.int_arrays, -2);
    a.push(&mut heap.int_arrays, 30);
    let d = Dynamic::from(a);
    assert_eq!(d.to_haxe_string(&heap), "[1,-2,30]");
    assert_eq!(Dynamic::from(true).to_haxe_string(&heap), "true");
    assert_eq!(Dynamic::from_opaque(String::from("Socket")).to_haxe_string(&heap), "<Dynamic:Socket>");
}

#[test]
fn downcast_and_to_haxe_string_work() {
    let heap = DynHeap::new();

    let d = Dynamic::from(String::from("hi"));
    assert_eq!(d.downcast_ref::<String>().unwrap().as_str(), "hi");
    assert_eq!(d.to_haxe_string(&heap), "hi");

    let d2 = Dynamic::from(123i32);
    assert_eq!(d2.to_haxe_string(&heap), "123");

    let dn = Dynamic::null();
    assert_eq!(dn.to_haxe_string(&heap), "null");
}

#[test]
fn owned_downcast_works() {
    let d = Dynamic::from(String::from("boom"));
    assert!(
        d.downcast_ref::<String>().is_some(),
        "downcast_ref should see String"
    );
    let s = match d.downcast::<String>() {
        Ok(v) => v,
        Err(_) => panic!("downcast String should succeed"),
    };
    assert_eq!(s.as_str(), "boom");

    let d2 = Dynamic::from(123i32);
    assert!(
        d2.downcast::<String>().is_err(),
        "downcast wrong type should fail"
    );
}

#[test]
fn owned_downcast_on_null_fails() {
    let dn = Dynamic::null();
    assert!(
        dn.downcast::<String>().is_err(),
        "downcast on null should fail"
    );
}
