use vstd::prelude::*;
use vstd::string::StrSliceExecFns;
use vstd::string::StringExecFns;

use crate::HxError;

verus! {

/// Nullable string: in the source language, strings are reference values and
/// may be null by default.
#[derive(Debug)]
pub struct HxString {
    s: Option<String>,
}

impl HxString {
    /// The wrapped text, `None` for the null string.
    pub closed spec fn text(&self) -> Option<Seq<char>> {
        match self.s {
            Some(ref s) => Some(s@),
            None => None,
        }
    }

    pub open spec fn is_null_spec(&self) -> bool {
        self.text() is None
    }

    /// What `to_haxe_string` returns: the text, with null rendered as the
    /// four letters `null`.
    pub open spec fn display(&self) -> Seq<char> {
        match self.text() {
            Some(t) => t,
            None => seq!['n', 'u', 'l', 'l'],
        }
    }

    pub fn new(s: String) -> (r: HxString)
        ensures
            r.text() == Some(s@),
    {
        HxString { s: Some(s) }
    }

    pub fn null() -> (r: HxString)
        ensures
            r.text() is None,
    {
        HxString { s: None }
    }

    pub fn is_null(&self) -> (r: bool)
        ensures
            r == self.is_null_spec(),
    {
        self.s.is_none()
    }

    pub fn is_some(&self) -> (r: bool)
        ensures
            r == !self.is_null_spec(),
    {
        self.s.is_some()
    }

    /// The wrapped text; dereferencing the null string fails with
    /// `NullAccess`.
    pub fn as_str(&self) -> (r: Result<&str, HxError>)
        ensures
            self.text() matches Some(t) ==> (r matches Ok(s) && s@ == t),
            self.text() is None ==> (r matches Err(e) && e == HxError::NullAccess),
    {
        match &self.s {
            Some(s) => Ok(s.as_str()),
            None => Err(HxError::NullAccess),
        }
    }

    /// The text, with null rendered as `"null"`.
    pub fn to_haxe_string(&self) -> (r: String)
        ensures
            r@ == self.display(),
    {
        match &self.s {
            Some(s) => s.clone(),
            None => {
                proof {
                    reveal_strlit("null");
                }
                let r = "null".to_owned();
                proof {
                    assert(r@ =~= seq!['n', 'u', 'l', 'l']);
                }
                r
            },
        }
    }
}

impl Clone for HxString {
    /// Cloning keeps the value.
    fn clone(&self) -> (res: Self)
        ensures
            res == *self,
    {
        match &self.s {
            Some(s) => HxString { s: Some(s.clone()) },
            None => HxString { s: None },
        }
    }
}

impl Default for HxString {
    /// Uninitialized strings are null.
    fn default() -> (res: Self)
        ensures
            res.is_null_spec(),
    {
        HxString::null()
    }
}

impl From<String> for HxString {
    fn from(value: String) -> (r: HxString) {
        HxString { s: Some(value) }
    }
}

impl vstd::std_specs::convert::FromSpecImpl<String> for HxString {
    closed spec fn obeys_from_spec() -> bool {
        true
    }

    closed spec fn from_spec(value: String) -> HxString {
        HxString { s: Some(value) }
    }
}

/// Number of characters (unicode scalar values) in `s`.
pub fn len(s: &str) -> (r: i32)
    requires
        s@.len() <= i32::MAX,
    ensures
        r == s@.len(),
{
    #[verifier::truncate] (s.unicode_len() as i32)
}

/// The one-character string at `index`, or the empty string when `index` is
/// out of range.
pub fn char_at(s: &str, index: i32) -> (r: String)
    requires
        s@.len() <= i32::MAX,
    ensures
        0 <= index < s@.len() ==> r@ == seq![s@[index as int]],
        !(0 <= index < s@.len()) ==> r@ == Seq::<char>::empty(),
{
    if index < 0 || index >= len(s) {
        let r = String::new();
        r
    } else {
        let i = index as usize;
        let sub = s.substring_char(i, i + 1);
        let r = sub.to_owned();
        proof {
            assert(r@ =~= seq![s@[index as int]]);
        }
        r
    }
}

/// The character code at `index`, or `None` when `index` is out of range.
pub fn char_code_at(s: &str, index: i32) -> (r: Option<i32>)
    requires
        s@.len() <= i32::MAX,
    ensures
        0 <= index < s@.len() ==> (r matches Some(c) && c == s@[index as int] as u32 as int),
        !(0 <= index < s@.len()) ==> r is None,
{
    if index < 0 || index >= len(s) {
        None
    } else {
        let c = s.get_char(index as usize);
        Some(#[verifier::truncate] (c as u32 as i32))
    }
}

/// The character range `substr(pos, count)` selects from a string of length
/// `len`: `pos` wraps once when negative and clamps to `[0, len]`; a missing
/// or non-positive `count` selects to the end or nothing respectively.
pub open spec fn substr_bounds(pos: int, count: Option<int>, len: int) -> (int, int) {
    let start0 = if pos < 0 { pos + len } else { pos };
    let start = if start0 < 0 { 0 } else if start0 > len { len } else { start0 };
    let end0 = match count {
        None => len,
        Some(l) => if l <= 0 { start } else if start + l > len { len } else { start + l },
    };
    let end = if end0 < start { start } else { end0 };
    (start, end)
}

/// The substring starting at character `pos` with `length` characters, under
/// the wrap-and-clamp rules of `substr_bounds`.
pub fn substr(s: &str, pos: i32, length: Option<i32>) -> (r: String)
    requires
        s@.len() <= i32::MAX,
    ensures
        ({
            let (lo, hi) = substr_bounds(
                pos as int,
                match length { Some(l) => Some(l as int), None => None },
                s@.len() as int,
            );
            r@ == s@.subrange(lo, hi)
        }),
{
    let total = len(s);
    let mut start: i32 = pos;
    if start < 0 {
        start = start + total;
    }
    if start < 0 {
        start = 0;
    }
    if start > total {
        start = total;
    }
    let mut end: i32 = match length {
        None => total,
        Some(l) => {
            if l <= 0 {
                start
            } else if l > total - start {
                total
            } else {
                start + l
            }
        },
    };
    if end < start {
        end = start;
    }
    let sub = s.substring_char(start as usize, end as usize);
    sub.to_owned()
}

/// Whether `sub` occurs in `s` starting at character position `at`.
pub open spec fn occurs_at(s: Seq<char>, sub: Seq<char>, at: int) -> bool {
    &&& 0 <= at
    &&& at + sub.len() <= s.len()
    &&& s.subrange(at, at + sub.len()) == sub
}

/// The least position at or after `from` where `sub` occurs in `s`, or `-1`.
pub open spec fn first_occurrence(s: Seq<char>, sub: Seq<char>, from: int) -> int
    decreases s.len() + 1 - from when 0 <= from <= s.len() + 1
{
    if from + sub.len() > s.len() {
        -1
    } else if occurs_at(s, sub, from) {
        from
    } else {
        first_occurrence(s, sub, from + 1)
    }
}

/// Compare `sub` against `s` at position `at`.
fn matches_at(s: &str, sub: &str, at: usize) -> (r: bool)
    requires
        at + sub@.len() <= s@.len(),
    ensures
        r == occurs_at(s@, sub@, at as int),
{
    let n = s.unicode_len();
    let m = sub.unicode_len();
    let mut j: usize = 0;
    while j < m
        invariant
            n == s@.len(),
            m == sub@.len(),
            at + m <= n,
            0 <= j <= m,
            forall|k: int| 0 <= k < j ==> s@[at + k] == sub@[k],
        decreases m - j,
    {
        let a = s.get_char(at + j);
        let b = sub.get_char(j);
        if a != b {
            proof {
                assert(s@.subrange(at as int, at + sub@.len())[j as int] != sub@[j as int]);
            }
            return false;
        }
        j = j + 1;
    }
    proof {
        assert(s@.subrange(at as int, at + sub@.len()) =~= sub@);
    }
    true
}

/// First character position at or after `from` where `sub` occurs, or none.
fn find_sub(s: &str, sub: &str, from: usize) -> (r: Option<usize>)
    requires
        s@.len() <= i32::MAX,
        from <= s@.len(),
    ensures
        ({
            let f = first_occurrence(s@, sub@, from as int);
            match r {
                Some(i) => f == i as int && i as int + sub@.len() <= s@.len(),
                None => f == -1,
            }
        }),
{
    let n = s.unicode_len();
    let m = sub.unicode_len();
    if m > n - from {
        proof {
            lemma_first_occurrence_props(s@, sub@, from as int);
        }
        return None;
    }
    let mut i: usize = from;
    while i <= n - m
        invariant
            n == s@.len(),
            n <= i32::MAX,
            m == sub@.len(),
            m <= n,
            from <= i <= n - m + 1,
            first_occurrence(s@, sub@, from as int) == first_occurrence(s@, sub@, i as int),
        decreases n - m - i + 1,
    {
        if matches_at(s, sub, i) {
            return Some(i);
        }
        i = i + 1;
    }
    None
}

/// First character position at or after `from_index` (negative values clamp
/// to `0`) where `sub` occurs in `s`, or `-1`; a `from_index` past the end
/// yields `-1`.
pub fn index_of(s: &str, sub: &str, from_index: Option<i32>) -> (r: i32)
    requires
        s@.len() <= i32::MAX,
    ensures
        ({
            let f0 = match from_index { Some(f) => f as int, None => 0 };
            let f = if f0 < 0 { 0 } else { f0 };
            if f > s@.len() {
                r == -1
            } else {
                r == first_occurrence(s@, sub@, f)
            }
        }),
{
    let total = len(s);
    let mut from: i32 = match from_index { Some(f) => f, None => 0 };
    if from < 0 {
        from = 0;
    }
    if from > total {
        return -1;
    }
    match find_sub(s, sub, from as usize) {
        Some(i) => #[verifier::truncate] (i as i32),
        None => -1,
    }
}

/// An occurrence search that finds something returns a position at or after
/// `from` where the needle fits and occurs.
proof fn lemma_first_occurrence_props(s: Seq<char>, sub: Seq<char>, from: int)
    requires
        0 <= from <= s.len() + 1,
    ensures
        first_occurrence(s, sub, from) == -1 || (from <= first_occurrence(s, sub, from)
            && first_occurrence(s, sub, from) + sub.len() <= s.len() && occurs_at(
            s,
            sub,
            first_occurrence(s, sub, from),
        )),
    decreases s.len() + 1 - from,
{
    if from + sub.len() <= s.len() && !occurs_at(s, sub, from) {
        lemma_first_occurrence_props(s, sub, from + 1);
    }
}

/// How `split` divides the tail of `s` that starts at `from`: the segments
/// between consecutive leftmost occurrences of the non-empty delimiter `d`.
pub open spec fn split_parts_from(s: Seq<char>, d: Seq<char>, from: int) -> Seq<Seq<char>>
    decreases s.len() - from when d.len() > 0 && 0 <= from <= s.len() via split_parts_from_dec
{
    let i = first_occurrence(s, d, from);
    if i == -1 {
        seq![s.subrange(from, s.len() as int)]
    } else {
        seq![s.subrange(from, i)] + split_parts_from(s, d, i + d.len())
    }
}

#[via_fn]
proof fn split_parts_from_dec(s: Seq<char>, d: Seq<char>, from: int) {
    lemma_first_occurrence_props(s, d, from);
}

/// The characters of each string in `ss`, in order.
pub open spec fn texts_of(ss: Seq<String>) -> Seq<Seq<char>> {
    Seq::new(ss.len(), |i: int| ss[i]@)
}

/// Split `s` on `delim` into a fresh sequence of strings: with an empty
/// delimiter, one string per character; otherwise the segments of
/// `split_parts_from`.
pub fn split(s: &str, delim: &str, st: &mut crate::array::ArrayStore<String>) -> (a:
    crate::array::Array<String>)
    requires
        s@.len() <= i32::MAX,
        old(st)@.len() < usize::MAX,
    ensures
        a.id_spec() == old(st)@.len() + 1,
        final(st)@ == old(st)@.push(final(st).seq_of(a)),
        delim@.len() == 0 ==> texts_of(final(st).seq_of(a)) == Seq::new(
            s@.len(),
            |i: int| seq![s@[i]],
        ),
        delim@.len() > 0 ==> texts_of(final(st).seq_of(a)) == split_parts_from(s@, delim@, 0),
{
    let parts = split_segments(s, delim);
    crate::array::Array::from_vec(st, parts)
}

/// The pieces `split` produces, as a plain vector.
pub fn split_segments(s: &str, delim: &str) -> (parts: Vec<String>)
    requires
        s@.len() <= i32::MAX,
    ensures
        delim@.len() == 0 ==> texts_of(parts@) == Seq::new(s@.len(), |i: int| seq![s@[i]]),
        delim@.len() > 0 ==> texts_of(parts@) == split_parts_from(s@, delim@, 0),
{
    let n = s.unicode_len();
    let mut parts: Vec<String> = Vec::new();
    if delim.unicode_len() == 0 {
        let mut i: usize = 0;
        while i < n
            invariant
                n == s@.len(),
                0 <= i <= n,
                texts_of(parts@) == Seq::new(i as nat, |k: int| seq![s@[k]]),
            decreases n - i,
        {
            let piece = s.substring_char(i, i + 1).to_owned();
            proof {
                assert(piece@ =~= seq![s@[i as int]]);
            }
            let ghost pp = parts@;
            parts.push(piece);
            proof {
                assert(parts@ == pp.push(piece));
                assert(texts_of(pp) == Seq::new(i as nat, |k: int| seq![s@[k]]));
                assert(texts_of(pp).len() == i as int);
                assert(pp.len() == i as int);
                let newt = texts_of(parts@);
                assert(newt.len() == i + 1);
                assert forall|k: int| 0 <= k < i implies newt[k] == seq![s@[k]] by {
                    assert(newt[k] == texts_of(pp)[k]);
                    assert(texts_of(pp)[k] == Seq::new(i as nat, |k2: int| seq![s@[k2]])[k]);
                }
                assert(newt[i as int] == piece@);
                assert(newt =~~= Seq::new((i + 1) as nat, |k: int| seq![s@[k]]));
            }
            i = i + 1;
        }
        proof {
            assert(texts_of(parts@) =~~= Seq::new(s@.len(), |k: int| seq![s@[k]]));
        }
        parts
    } else {
        let dlen = delim.unicode_len();
        let mut pos: usize = 0;
        loop
            invariant_except_break
                texts_of(parts@) + split_parts_from(s@, delim@, pos as int) == split_parts_from(
                    s@,
                    delim@,
                    0,
                ),
            invariant
                n == s@.len(),
                n <= i32::MAX,
                dlen == delim@.len(),
                dlen > 0,
                0 <= pos <= n,
            ensures
                texts_of(parts@) == split_parts_from(s@, delim@, 0),
            decreases n - pos,
        {
            proof {
                lemma_first_occurrence_props(s@, delim@, pos as int);
            }
            let ghost pp = parts@;
            match find_sub(s, delim, pos) {
                Some(i) => {
                    let piece = s.substring_char(pos, i).to_owned();
                    parts.push(piece);
                    proof {
                        assert(texts_of(parts@) =~~= texts_of(pp).push(
                            s@.subrange(pos as int, i as int),
                        ));
                        assert(split_parts_from(s@, delim@, pos as int) =~~= seq![
                            s@.subrange(pos as int, i as int),
                        ] + split_parts_from(s@, delim@, i + dlen));
                        assert(texts_of(parts@) + split_parts_from(s@, delim@, i + dlen)
                            =~~= split_parts_from(s@, delim@, 0));
                    }
                    pos = i + dlen;
                },
                None => {
                    let piece = s.substring_char(pos, n).to_owned();
                    parts.push(piece);
                    proof {
                        assert(texts_of(parts@) =~~= texts_of(pp).push(
                            s@.subrange(pos as int, n as int),
                        ));
                        assert(split_parts_from(s@, delim@, pos as int) =~~= seq![
                            s@.subrange(pos as int, n as int),
                        ]);
                        assert(texts_of(parts@) =~~= split_parts_from(s@, delim@, 0));
                    }
                    break;
                },
            }
        }
        parts
    }
}

/// What `str::to_lowercase` returns: a function of the characters alone.
pub uninterp spec fn lower_of(s: Seq<char>) -> Seq<char>;

/// Relies on str::to_lowercase: the lower-case mapping of the text, a
/// function of the characters alone; an empty string stays empty.
#[verifier::external_body]
pub fn to_lower_case(s: &str) -> (r: String)
    ensures
        r@ == lower_of(s@),
        s@.len() == 0 ==> r@.len() == 0,
{
    s.to_lowercase()
}

/// Relies on char::from_u32: `Some` exactly on unicode scalar values (at
/// most 0x10FFFF and not a surrogate), returning the character with that
/// code.
#[verifier::external_body]
fn char_from_u32(u: u32) -> (r: Option<char>)
    ensures
        (u <= 0x10FFFF && !(0xD800 <= u <= 0xDFFF)) <==> (r is Some),
        r matches Some(c) ==> c as u32 == u,
{
    char::from_u32(u)
}

/// Relies on String::from for char: the one-character string.
#[verifier::external_body]
fn char_to_string(c: char) -> (r: String)
    ensures
        r@ == seq![c],
{
    String::from(c)
}

/// The one-character string for a character code; the empty string for a
/// negative code or one that is no unicode scalar value.
pub fn from_char_code(code: i32) -> (r: String)
    ensures
        ({
            let u = code as int;
            if 0 <= u <= 0x10FFFF && !(0xD800 <= u <= 0xDFFF) {
                r@.len() == 1 && r@[0] as u32 as int == u
            } else {
                r@.len() == 0
            }
        }),
{
    if code < 0 {
        String::new()
    } else {
        match char_from_u32(code as u32) {
            Some(c) => {
                let r = char_to_string(c);
                proof {
                    assert(r@[0] == c);
                    assert(c as u32 as int == code as int);
                }
                r
            },
            None => String::new(),
        }
    }
}

} // verus!
