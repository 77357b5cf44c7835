use vstd::prelude::*;

use crate::text::{hex_digits, u64_to_hex_string};

verus! {

/// Values that carry a stable, address-like identity: handles to cells and
/// sequences, and dynamic boxes made from them. Identity `0` means null (or
/// a non-reference payload).
pub trait HxRefLike {
    /// The identity this value carries.
    spec fn ptr_spec(&self) -> int;

    /// The identity as a machine integer; never negative.
    fn ptr_usize(&self) -> (r: usize)
        ensures
            r as int == self.ptr_spec(),
    ;
}

/// Identity equality across any two identity-carrying values.
pub fn ptr_eq<A: HxRefLike, B: HxRefLike>(a: &A, b: &B) -> (r: bool)
    ensures
        r == (a.ptr_spec() == b.ptr_spec()),
{
    a.ptr_usize() == b.ptr_usize()
}

/// A stable identity-derived key: the identity in lower-case hexadecimal,
/// without a prefix.
pub fn ptr_id<K: HxRefLike>(key: &K) -> (s: String)
    ensures
        s@ == hex_digits(key.ptr_spec() as nat),
{
    u64_to_hex_string(key.ptr_usize() as u64)
}

} // verus!
