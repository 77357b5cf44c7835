use vstd::prelude::*;

verus! {

/// The decimal digit character for `d` (`0 <= d <= 9`).
pub open spec fn dec_digit(d: nat) -> char {
    if d == 0 { '0' } else if d == 1 { '1' } else if d == 2 { '2' } else if d == 3 { '3' }
    else if d == 4 { '4' } else if d == 5 { '5' } else if d == 6 { '6' } else if d == 7 { '7' }
    else if d == 8 { '8' } else { '9' }
}

/// The decimal digits of `n`, most significant first, without sign or
/// leading zeroes (`0` is rendered as `"0"`).
pub open spec fn dec_digits(n: nat) -> Seq<char>
    decreases n,
{
    if n < 10 {
        seq![dec_digit(n)]
    } else {
        dec_digits(n / 10).push(dec_digit(n % 10))
    }
}

/// The decimal rendering of a signed integer: a minus sign for negative
/// values, then the digits.
pub open spec fn int_str(n: int) -> Seq<char> {
    if n < 0 {
        seq!['-'] + dec_digits((-n) as nat)
    } else {
        dec_digits(n as nat)
    }
}

/// The text `true` or `false`.
pub open spec fn bool_str(b: bool) -> Seq<char> {
    if b {
        seq!['t', 'r', 'u', 'e']
    } else {
        seq!['f', 'a', 'l', 's', 'e']
    }
}

/// The lower-case hexadecimal digit character for `d` (`0 <= d <= 15`).
pub open spec fn hex_digit(d: nat) -> char {
    if d == 0 { '0' } else if d == 1 { '1' } else if d == 2 { '2' } else if d == 3 { '3' }
    else if d == 4 { '4' } else if d == 5 { '5' } else if d == 6 { '6' } else if d == 7 { '7' }
    else if d == 8 { '8' } else if d == 9 { '9' } else if d == 10 { 'a' } else if d == 11 { 'b' }
    else if d == 12 { 'c' } else if d == 13 { 'd' } else if d == 14 { 'e' } else { 'f' }
}

/// The lower-case hexadecimal digits of `n`, most significant first,
/// without leading zeroes (`0` is rendered as `"0"`).
pub open spec fn hex_digits(n: nat) -> Seq<char>
    decreases n,
{
    if n < 16 {
        seq![hex_digit(n)]
    } else {
        hex_digits(n / 16).push(hex_digit(n % 16))
    }
}

/// One digit as text.
fn dec_digit_string(d: u64) -> (s: String)
    requires
        d <= 9,
    ensures
        s@ == seq![dec_digit(d as nat)],
{
    let s = match d {
        0 => "0",
        1 => "1",
        2 => "2",
        3 => "3",
        4 => "4",
        5 => "5",
        6 => "6",
        7 => "7",
        8 => "8",
        _ => "9",
    };
    proof {
        reveal_strlit("0");
        reveal_strlit("1");
        reveal_strlit("2");
        reveal_strlit("3");
        reveal_strlit("4");
        reveal_strlit("5");
        reveal_strlit("6");
        reveal_strlit("7");
        reveal_strlit("8");
        reveal_strlit("9");
        assert(s@ =~= seq![dec_digit(d as nat)]);
    }
    s.to_owned()
}

/// Decimal rendering of an unsigned machine integer.
pub fn u64_to_string(n: u64) -> (s: String)
    ensures
        s@ == dec_digits(n as nat),
    decreases n,
{
    if n < 10 {
        dec_digit_string(n)
    } else {
        let mut s = u64_to_string(n / 10);
        let d = dec_digit_string(n % 10);
        s.append(d.as_str());
        proof {
            assert(s@ =~= dec_digits((n / 10) as nat).push(dec_digit((n % 10) as nat)));
        }
        s
    }
}

/// Decimal rendering of a signed machine integer, minus sign included.
pub fn i64_to_string(n: i64) -> (s: String)
    ensures
        s@ == int_str(n as int),
{
    if n >= 0 {
        u64_to_string(n as u64)
    } else {
        let m: u64 = ((-(n + 1)) as u64) + 1;
        proof {
            reveal_strlit("-");
        }
        let mut s = String::new();
        s.append("-");
        let d = u64_to_string(m);
        s.append(d.as_str());
        proof {
            assert(seq!['-'] =~= "-"@);
            assert(s@ =~= int_str(n as int));
        }
        s
    }
}

/// Decimal rendering of a 32-bit signed integer.
pub fn i32_to_string(n: i32) -> (s: String)
    ensures
        s@ == int_str(n as int),
{
    i64_to_string(n as i64)
}

/// The text `true` or `false`.
pub fn bool_to_string(b: bool) -> (s: String)
    ensures
        s@ == bool_str(b),
{
    proof {
        reveal_strlit("true");
        reveal_strlit("false");
    }
    let s = if b { "true" } else { "false" };
    proof {
        assert(s@ =~= bool_str(b));
    }
    s.to_owned()
}

/// One hexadecimal digit as text, lower case.
fn hex_digit_string(d: u64) -> (s: String)
    requires
        d <= 15,
    ensures
        s@ == seq![hex_digit(d as nat)],
{
    if d <= 9 {
        let s = dec_digit_string(d);
        proof {
            assert(s@ =~= seq![hex_digit(d as nat)]);
        }
        s
    } else {
        let s = match d {
            10 => "a",
            11 => "b",
            12 => "c",
            13 => "d",
            14 => "e",
            _ => "f",
        };
        proof {
            reveal_strlit("a");
            reveal_strlit("b");
            reveal_strlit("c");
            reveal_strlit("d");
            reveal_strlit("e");
            reveal_strlit("f");
            assert(s@ =~= seq![hex_digit(d as nat)]);
        }
        s.to_owned()
    }
}

/// Lower-case hexadecimal rendering of an unsigned machine integer, without
/// prefix or leading zeroes.
pub fn u64_to_hex_string(n: u64) -> (s: String)
    ensures
        s@ == hex_digits(n as nat),
    decreases n,
{
    if n < 16 {
        hex_digit_string(n)
    } else {
        let mut s = u64_to_hex_string(n / 16);
        let d = hex_digit_string(n % 16);
        s.append(d.as_str());
        proof {
            assert(s@ =~= hex_digits((n / 16) as nat).push(hex_digit((n % 16) as nat)));
        }
        s
    }
}

/// Values with a canonical display text, used by sequence joining and by
/// the dynamic value's own rendering.
pub trait HaxeDisplay {
    /// The display text.
    spec fn display_spec(&self) -> Seq<char>;

    fn to_display(&self) -> (s: String)
        ensures
            s@ == self.display_spec(),
    ;
}

impl HaxeDisplay for i32 {
    open spec fn display_spec(&self) -> Seq<char> {
        int_str(*self as int)
    }

    fn to_display(&self) -> (s: String)
        ensures
            s@ == self.display_spec(),
    {
        i32_to_string(*self)
    }
}

impl HaxeDisplay for bool {
    open spec fn display_spec(&self) -> Seq<char> {
        bool_str(*self)
    }

    fn to_display(&self) -> (s: String)
        ensures
            s@ == self.display_spec(),
    {
        bool_to_string(*self)
    }
}

impl HaxeDisplay for String {
    open spec fn display_spec(&self) -> Seq<char> {
        self@
    }

    fn to_display(&self) -> (s: String)
        ensures
            s@ == self.display_spec(),
    {
        self.clone()
    }
}

/// The display texts of the elements of `s`, in order.
pub open spec fn displays_of<T: HaxeDisplay>(s: Seq<T>) -> Seq<Seq<char>> {
    Seq::new(s.len(), |i: int| s[i].display_spec())
}

/// The text of `items` joined with `sep` between consecutive entries.
pub open spec fn joined(items: Seq<Seq<char>>, sep: Seq<char>) -> Seq<char>
    decreases items.len(),
{
    if items.len() == 0 {
        Seq::empty()
    } else if items.len() == 1 {
        items[0]
    } else {
        joined(items.drop_last(), sep) + sep + items.last()
    }
}

} // verus!
