use hxrt::array::{Array, ArrayStore};

#[test]
fn array_aliasing_mutation_is_visible_through_clone() {
    let mut st: ArrayStore<i32> = ArrayStore::new();
    let a = Array::new(&mut st);
    let b = a.clone();
    a.push(&mut st, 7);
    assert_eq!(b.len(&st), 1);
    assert_eq!(b.get_unchecked(&st, 0), 7);
    assert!(a.ptr_eq(&b));
}

#[test]
fn array_copy_is_independent() {
    let mut st: ArrayStore<i32> = ArrayStore::new();
    let a = Array::from_vec(&mut st, vec![1, 2, 3]);
    let c = a.copy(&mut st);
    c.push(&mut st, 4);
    c.set(&mut st, 0, 9);
    assert_eq!(a.to_vec(&st), vec![1, 2, 3]);
    assert_eq!(c.to_vec(&st), vec![9, 2, 3, 4]);
    assert!(!a.ptr_eq(&c));
}

#[test]
fn array_slice_with_negative_start() {
    let mut st: ArrayStore<i32> = ArrayStore::new();
    let a = Array::from_vec(&mut st, vec![1, 2, 3, 4, 5]);
    let s = a.slice(&mut st, -2, None);
    assert_eq!(s.to_vec(&st), vec![4, 5]);
    // The original is untouched.
    assert_eq!(a.to_vec(&st), vec![1, 2, 3, 4, 5]);
}

#[test]
fn array_splice_removes_and_returns_middle() {
    let mut st: ArrayStore<i32> = ArrayStore::new();
    let a = Array::from_vec(&mut st, vec![1, 2, 3, 4]);
    let removed = a.splice(&mut st, 1, 2);
    assert_eq!(removed.to_vec(&st), vec![2, 3]);
    assert_eq!(a.to_vec(&st), vec![1, 4]);
}

#[test]
fn array_index_of_minus_one_checks_only_last() {
    let mut st: ArrayStore<i32> = ArrayStore::new();
    let a = Array::from_vec(&mut st, vec![5, 6, 5]);
    assert_eq!(a.index_of(&st, 5, Some(-1)), 2);
    assert_eq!(a.index_of(&st, 6, Some(-1)), -1);
    assert_eq!(a.index_of(&st, 6, None), 1);
}

#[test]
fn array_shift_unshift_insert_pop() {
    let mut st: ArrayStore<i32> = ArrayStore::new();
    let a = Array::new(&mut st);
    a.push(&mut st, 2);
    a.unshift(&mut st, 1);
    a.insert(&mut st, -1, 9);
    assert_eq!(a.to_vec(&st), vec![1, 9, 2]);
    a.insert(&mut st, 100, 3);
    assert_eq!(a.to_vec(&st), vec![1, 9, 2, 3]);
    assert_eq!(a.shift(&mut st), Some(1));
    assert_eq!(a.pop(&mut st), Some(3));
    assert_eq!(a.to_vec(&st), vec![9, 2]);
}

#[test]
fn array_contains_remove_last_index_of() {
    let mut st: ArrayStore<i32> = ArrayStore::new();
    let a = Array::from_vec(&mut st, vec![1, 2, 1, 3]);
    assert!(a.contains(&st, 3));
    assert!(!a.contains(&st, 4));
    assert_eq!(a.last_index_of(&st, 1, None), 2);
    assert_eq!(a.last_index_of(&st, 1, Some(1)), 0);
    assert!(a.remove(&mut st, 1));
    assert_eq!(a.to_vec(&st), vec![2, 1, 3]);
    assert!(!a.remove(&mut st, 7));
}

#[test]
fn array_reverse_resize_concat_join() {
    let mut st: ArrayStore<i32> = ArrayStore::new();
    let a = Array::from_vec(&mut st, vec![1, 2, 3]);
    a.reverse(&mut st);
    assert_eq!(a.to_vec(&st), vec![3, 2, 1]);
    a.resize(&mut st, 5);
    assert_eq!(a.to_vec(&st), vec![3, 2, 1, 0, 0]);
    a.resize(&mut st, 2);
    assert_eq!(a.to_vec(&st), vec![3, 2]);
    a.resize(&mut st, -3);
    assert_eq!(a.to_vec(&st), Vec::<i32>::new());
    let b = Array::from_vec(&mut st, vec![8, 9]);
    let c = Array::from_vec(&mut st, vec![7]);
    let d = b.concat(&mut st, c);
    assert_eq!(d.to_vec(&st), vec![8, 9, 7]);
    assert_eq!(d.join(&st, "-"), "8-9-7");
    assert_eq!(d.toString(&st), "[8,9,7]");
}

#[test]
fn array_sort_keeps_elements() {
    let mut st: ArrayStore<i32> = ArrayStore::new();
    let a = Array::from_vec(&mut st, vec![3, 1, 2, 1]);
    a.sort(&mut st, |x: &i32, y: &i32| if *x < *y { -1 } else if *x > *y { 1 } else { 0 });
    assert_eq!(a.to_vec(&st), vec![1, 1, 2, 3]);
}

#[test]
fn array_ref_search_uses_identity() {
    let mut st: ArrayStore<i32> = ArrayStore::new();
    let x = Array::from_vec(&mut st, vec![1]);
    let y = Array::from_vec(&mut st, vec![1]);
    let mut outer: ArrayStore<Array<i32>> = ArrayStore::new();
    let list = Array::new(&mut outer);
    list.push(&mut outer, x.clone());
    assert!(list.containsRef(&outer, x.clone()));
    assert!(!list.containsRef(&outer, y.clone()));
    assert_eq!(list.indexOfRef(&outer, x.clone(), None), 0);
    assert_eq!(list.lastIndexOfRef(&outer, y.clone(), None), -1);
    assert!(list.removeRef(&mut outer, x));
    assert_eq!(list.len(&outer), 0);
}

#[test]
fn gcd_of_common_values() {
    assert_eq!(hxrt::gcd(12, 18), 6);
    assert_eq!(hxrt::gcd(-12, 18), 6);
    assert_eq!(hxrt::gcd(0, 5), 5);
    assert_eq!(hxrt::gcd(7, 0), 7);
}
