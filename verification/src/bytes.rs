use vstd::prelude::*;
use vstd::string::StrSliceExecFns;
use vstd::string::StringSliceAdditionalSpecFns;

use crate::HxError;
use crate::cell::{CellStore, HxRef};

verus! {

/// Mutable byte buffer with index- and range-checked access; out-of-range
/// positions fail with `OutsideBounds`.
pub struct Bytes {
    data: Vec<u8>,
}

impl View for Bytes {
    type V = Seq<u8>;

    closed spec fn view(&self) -> Seq<u8> {
        self.data@
    }
}

/// A position and length describe a range inside a buffer of `total` bytes:
/// the length not negative, the start inside the buffer, and the end at most
/// the total (an empty range at the very end is allowed).
pub open spec fn range_ok(pos: int, len: int, total: int) -> bool {
    &&& len >= 0
    &&& 0 <= pos <= total
    &&& pos + len <= total
}

impl Bytes {
    /// A zero-filled buffer of `size` bytes.
    pub fn zeroed(size: usize) -> (b: Bytes)
        ensures
            b@ == Seq::new(size as nat, |i: int| 0u8),
    {
        let data = vec![0u8; size];
        proof {
            assert(data@ =~= Seq::new(size as nat, |i: int| 0u8));
        }
        Bytes { data }
    }

    /// A buffer owning the given bytes.
    pub fn from_vec(data: Vec<u8>) -> (b: Bytes)
        ensures
            b@ == data@,
    {
        Bytes { data }
    }

    /// The text's bytes in its standard eight-bit encoding.
    pub fn of_string(s: &str) -> (b: Bytes)
        ensures
            b@ == s.spec_bytes(),
    {
        Bytes { data: s.as_bytes_vec() }
    }

    /// The length in bytes.
    pub fn length(&self) -> (n: i32)
        requires
            self@.len() <= i32::MAX,
        ensures
            n == self@.len(),
    {
        #[verifier::truncate] (self.data.len() as i32)
    }

    /// The byte at `pos` as a non-negative integer, or `OutsideBounds`.
    pub fn get(&self, pos: i32) -> (r: Result<i32, HxError>)
        ensures
            0 <= pos < self@.len() ==> (r matches Ok(v) && v == self@[pos as int]),
            !(0 <= pos < self@.len()) ==> (r matches Err(e) && e == HxError::OutsideBounds),
    {
        if pos < 0 || pos as usize >= self.data.len() {
            Err(HxError::OutsideBounds)
        } else {
            Ok(self.data[pos as usize] as i32)
        }
    }

    /// Store the low byte of `value` at `pos`, or fail with
    /// `OutsideBounds`.
    pub fn set(&mut self, pos: i32, value: i32) -> (r: Result<(), HxError>)
        ensures
            0 <= pos < old(self)@.len() ==> (r is Ok && final(self)@ == old(self)@.update(
                pos as int,
                value as u8,
            )),
            !(0 <= pos < old(self)@.len()) ==> (r matches Err(e) && e == HxError::OutsideBounds
                && final(self)@ == old(self)@),
    {
        if pos < 0 || pos as usize >= self.data.len() {
            Err(HxError::OutsideBounds)
        } else {
            let slot = &mut self.data[pos as usize];
            *slot = #[verifier::truncate] (value as u8);
            Ok(())
        }
    }

    /// A fresh buffer holding `len` bytes starting at `pos`, or
    /// `OutsideBounds` when the range does not fit.
    pub fn sub(&self, pos: i32, len: i32) -> (r: Result<Bytes, HxError>)
        requires
            self@.len() <= i32::MAX,
        ensures
            range_ok(pos as int, len as int, self@.len() as int) ==> (r matches Ok(b) && b@
                == self@.subrange(pos as int, pos + len)),
            !range_ok(pos as int, len as int, self@.len() as int) ==> (r matches Err(e) && e
                == HxError::OutsideBounds),
    {
        let total = self.length();
        if len < 0 || pos < 0 || pos > total || len > total - pos {
            Err(HxError::OutsideBounds)
        } else {
            let mut out: Vec<u8> = Vec::new();
            let start = pos as usize;
            let end = (pos + len) as usize;
            let mut i = start;
            while i < end
                invariant
                    start <= i <= end,
                    end <= self@.len(),
                    out@ =~= self@.subrange(start as int, i as int),
                decreases end - i,
            {
                out.push(self.data[i]);
                proof {
                    assert(out@ =~= self@.subrange(start as int, i + 1 as int));
                }
                i = i + 1;
            }
            Ok(Bytes { data: out })
        }
    }

    /// Borrow the contents.
    pub fn as_slice(&self) -> (r: &[u8])
        ensures
            r@ == self@,
    {
        self.data.as_slice()
    }

    /// The bytes starting at `pos` for `len` bytes, decoded as text with
    /// invalid sequences replaced, or `OutsideBounds` when the range does
    /// not fit.
    pub fn get_string(&self, pos: i32, len: i32) -> (r: Result<String, HxError>)
        requires
            self@.len() <= i32::MAX,
        ensures
            range_ok(pos as int, len as int, self@.len() as int) ==> (r matches Ok(s) && s@
                == utf8_lossy_of(self@.subrange(pos as int, pos + len))),
            !range_ok(pos as int, len as int, self@.len() as int) ==> (r matches Err(e) && e
                == HxError::OutsideBounds),
    {
        match self.sub(pos, len) {
            Err(e) => Err(e),
            Ok(b) => Ok(utf8_lossy(b.as_slice())),
        }
    }

    /// The whole buffer decoded as text with invalid sequences replaced.
    pub fn to_string(&self) -> (r: String)
        ensures
            r@ == utf8_lossy_of(self@),
    {
        utf8_lossy(self.as_slice())
    }
}

/// What `String::from_utf8_lossy` returns: a function of the bytes alone.
pub uninterp spec fn utf8_lossy_of(bytes: Seq<u8>) -> Seq<char>;

/// Relies on String::from_utf8_lossy: the decoded text, a function of the
/// bytes alone; bytes that are all ASCII decode to themselves, character by
/// character.
#[verifier::external_body]
fn utf8_lossy(bytes: &[u8]) -> (r: String)
    ensures
        r@ == utf8_lossy_of(bytes@),
        (forall|i: int| 0 <= i < bytes@.len() ==> bytes@[i] < 0x80) ==> r@ == bytes@.map_values(
            |b: u8| b as char,
        ),
{
    String::from_utf8_lossy(bytes).into_owned()
}

/// Copy `len` bytes of the buffer `src` aliases, starting at `srcpos`, into
/// the buffer `dst` aliases at `pos`. A zero-length copy moves nothing and
/// succeeds whatever the positions. The read happens before the write (a
/// buffer may be copied into itself); a non-empty range that does not fit
/// fails with `OutsideBounds` and changes nothing, and a dead handle fails
/// with `NullAccess`.
pub fn blit(st: &mut CellStore<Bytes>, dst: &HxRef<Bytes>, pos: i32, src: &HxRef<Bytes>, srcpos:
    i32, len: i32) -> (r: Result<(), HxError>)
    requires
        old(st).valid(*dst) ==> old(st).value_of(*dst)@.len() <= i32::MAX,
        old(st).valid(*src) ==> old(st).value_of(*src)@.len() <= i32::MAX,
    ensures
        len == 0 ==> (r is Ok && final(st)@ == old(st)@),
        len != 0 && !(old(st).valid(*dst) && old(st).valid(*src)) ==> (r matches Err(e) && e
            == HxError::NullAccess && final(st)@ == old(st)@),
        len != 0 && (old(st).valid(*dst) && old(st).valid(*src)) ==> ({
            let d = old(st).value_of(*dst)@;
            let s = old(st).value_of(*src)@;
            if range_ok(srcpos as int, len as int, s.len() as int) && range_ok(
                pos as int,
                len as int,
                d.len() as int,
            ) {
                &&& r is Ok
                &&& final(st)@ == old(st)@.update(
                    dst.id_spec() - 1,
                    (final(st).value_of(*dst), old(st).minted(*dst)),
                )
                &&& final(st).value_of(*dst)@ == d.subrange(0, pos as int) + s.subrange(
                    srcpos as int,
                    srcpos + len,
                ) + d.subrange(pos + len, d.len() as int)
            } else {
                r matches Err(e) && e == HxError::OutsideBounds && final(st)@ == old(st)@
            }
        }),
{
    if len == 0 {
        return Ok(());
    }
    if dst.is_null() || src.is_null() {
        return Err(HxError::NullAccess);
    }
    let tmp = match src.borrow(st) {
        Err(_) => {
            return Err(HxError::NullAccess);
        },
        Ok(b) => match b.sub(srcpos, len) {
            Err(e) => {
                let dst_ok = match dst.borrow(st) {
                    Ok(_) => true,
                    Err(_) => false,
                };
                if dst_ok {
                    return Err(HxError::OutsideBounds);
                }
                return Err(HxError::NullAccess);
            },
            Ok(t) => t,
        },
    };
    match dst.borrow(st) {
        Err(_) => Err(HxError::NullAccess),
        Ok(d0) => {
            let total = d0.length();
            if len < 0 || pos < 0 || pos > total || len > total - pos {
                return Err(HxError::OutsideBounds);
            }
            let d = dst.borrow_mut(st);
            let ghost dv = d@;
            let start = pos as usize;
            let n = len as usize;
            let mut i: usize = 0;
            while i < n
                invariant
                    n == tmp@.len(),
                    start + n <= i32::MAX,
                    start + n <= d@.len(),
                    0 <= i <= n,
                    d@.len() == dv.len(),
                    d@ =~= dv.subrange(0, start as int) + tmp@.subrange(0, i as int)
                        + dv.subrange(start + i, dv.len() as int),
                decreases n - i,
            {
                let byte = tmp.get_byte(i);
                d.set_byte(start + i, byte);
                proof {
                    assert(d@ =~= dv.subrange(0, start as int) + tmp@.subrange(0, i + 1 as int)
                        + dv.subrange(start + i + 1, dv.len() as int));
                }
                i = i + 1;
            }
            proof {
                assert(tmp@.subrange(0, n as int) =~= tmp@);
                assert(st@ =~= old(st)@.update(
                    dst.id_spec() - 1,
                    (st.value_of(*dst), old(st).minted(*dst)),
                ));
            }
            Ok(())
        },
    }
}

impl Bytes {
    /// The byte at a known-good position.
    fn get_byte(&self, i: usize) -> (r: u8)
        requires
            i < self@.len(),
        ensures
            r == self@[i as int],
    {
        self.data[i]
    }

    /// Overwrite the byte at a known-good position.
    fn set_byte(&mut self, i: usize, v: u8)
        requires
            i < old(self)@.len(),
        ensures
            final(self)@ == old(self)@.update(i as int, v),
    {
        let slot = &mut self.data[i];
        *slot = v;
    }
}

/// Copy all of `src` into the buffer `dst` aliases at `pos`; a range that
/// does not fit fails with `OutsideBounds` and changes nothing, a dead
/// handle with `NullAccess`.
pub fn write_from_slice(st: &mut CellStore<Bytes>, dst: &HxRef<Bytes>, pos: i32, src: &[u8]) -> (r:
    Result<(), HxError>)
    requires
        old(st).valid(*dst) ==> old(st).value_of(*dst)@.len() <= i32::MAX,
        src@.len() <= i32::MAX,
    ensures
        !old(st).valid(*dst) ==> (r matches Err(e) && e == HxError::NullAccess && final(st)@
            == old(st)@),
        old(st).valid(*dst) ==> ({
            let d = old(st).value_of(*dst)@;
            if range_ok(pos as int, src@.len() as int, d.len() as int) {
                &&& r is Ok
                &&& final(st)@ == old(st)@.update(
                    dst.id_spec() - 1,
                    (final(st).value_of(*dst), old(st).minted(*dst)),
                )
                &&& final(st).value_of(*dst)@ == d.subrange(0, pos as int) + src@ + d.subrange(
                    pos + src@.len(),
                    d.len() as int,
                )
            } else {
                r matches Err(e) && e == HxError::OutsideBounds && final(st)@ == old(st)@
            }
        }),
{
    match dst.borrow(st) {
        Err(_) => Err(HxError::NullAccess),
        Ok(d0) => {
            let total = d0.length();
            let n = src.len();
            let len: i32 = #[verifier::truncate] (n as i32);
            if pos < 0 || pos > total || len > total - pos {
                return Err(HxError::OutsideBounds);
            }
            let d = dst.borrow_mut(st);
            let ghost dv = d@;
            let start = pos as usize;
            let mut i: usize = 0;
            while i < n
                invariant
                    n == src@.len(),
                    start + n <= i32::MAX,
                    start + n <= d@.len(),
                    0 <= i <= n,
                    d@.len() == dv.len(),
                    d@ =~= dv.subrange(0, start as int) + src@.subrange(0, i as int)
                        + dv.subrange(start + i, dv.len() as int),
                decreases n - i,
            {
                let byte = src[i];
                d.set_byte(start + i, byte);
                proof {
                    assert(d@ =~= dv.subrange(0, start as int) + src@.subrange(0, i + 1 as int)
                        + dv.subrange(start + i + 1, dv.len() as int));
                }
                i = i + 1;
            }
            proof {
                assert(src@.subrange(0, n as int) =~= src@);
                assert(st@ =~= old(st)@.update(
                    dst.id_spec() - 1,
                    (st.value_of(*dst), old(st).minted(*dst)),
                ));
            }
            Ok(())
        },
    }
}

} // verus!
