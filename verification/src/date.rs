use vstd::prelude::*;

use chrono::Datelike;
use chrono::Local;
use chrono::Offset;
use chrono::TimeZone;
use chrono::Timelike;
use chrono::Utc;

use crate::HxError;
use crate::text::{dec_digits, int_str, u64_to_string};

verus! {

/// Timestamps a calendar library accepts: what `chrono`'s
/// millisecond-timestamp constructor maps to a single date.
pub uninterp spec fn utc_in_range(ms: int) -> bool;

/// The calendar year of a timestamp in universal time.
pub uninterp spec fn utc_year_of(ms: int) -> int;

/// The zero-based calendar month of a timestamp in universal time.
pub uninterp spec fn utc_month0_of(ms: int) -> int;

/// The day of month (starting at 1) of a timestamp in universal time.
pub uninterp spec fn utc_date_of(ms: int) -> int;

/// The day of week (0 = Sunday) of a timestamp in universal time.
pub uninterp spec fn utc_day_of(ms: int) -> int;

/// The hour of day of a timestamp in universal time.
pub uninterp spec fn utc_hours_of(ms: int) -> int;

/// The minute of hour of a timestamp in universal time.
pub uninterp spec fn utc_minutes_of(ms: int) -> int;

/// The second of minute of a timestamp in universal time.
pub uninterp spec fn utc_seconds_of(ms: int) -> int;

/// Relies on chrono: datetime fields are a function of the timestamp alone;
/// `year` has no further documented bound.
#[verifier::external_body]
pub fn utc_full_year(ms: i64) -> (r: Result<i32, HxError>)
    ensures
        r is Ok <==> utc_in_range(ms as int),
        0 <= ms <= 253402300799999 ==> r is Ok,
        r matches Ok(v) ==> v as int == utc_year_of(ms as int),
{
    match Utc.timestamp_millis_opt(ms).single() {
        Some(dt) => Ok(dt.year()),
        None => Err(HxError::DomainError(String::from("Date out of range"))),
    }
}

/// Relies on chrono: `month0` is a function of the timestamp alone and lies
/// in `0..12`.
#[verifier::external_body]
pub fn utc_month0(ms: i64) -> (r: Result<i32, HxError>)
    ensures
        r is Ok <==> utc_in_range(ms as int),
        0 <= ms <= 253402300799999 ==> r is Ok,
        r matches Ok(v) ==> v as int == utc_month0_of(ms as int) && 0 <= v < 12,
{
    match Utc.timestamp_millis_opt(ms).single() {
        Some(dt) => Ok(dt.month0() as i32),
        None => Err(HxError::DomainError(String::from("Date out of range"))),
    }
}

/// Relies on chrono: `day` is a function of the timestamp alone and lies in
/// `1..=31`.
#[verifier::external_body]
pub fn utc_date(ms: i64) -> (r: Result<i32, HxError>)
    ensures
        r is Ok <==> utc_in_range(ms as int),
        0 <= ms <= 253402300799999 ==> r is Ok,
        r matches Ok(v) ==> v as int == utc_date_of(ms as int) && 1 <= v <= 31,
{
    match Utc.timestamp_millis_opt(ms).single() {
        Some(dt) => Ok(dt.day() as i32),
        None => Err(HxError::DomainError(String::from("Date out of range"))),
    }
}

/// Relies on chrono: the weekday is a function of the timestamp alone;
/// counted from Sunday it lies in `0..7`.
#[verifier::external_body]
pub fn utc_day(ms: i64) -> (r: Result<i32, HxError>)
    ensures
        r is Ok <==> utc_in_range(ms as int),
        0 <= ms <= 253402300799999 ==> r is Ok,
        r matches Ok(v) ==> v as int == utc_day_of(ms as int) && 0 <= v < 7,
{
    match Utc.timestamp_millis_opt(ms).single() {
        Some(dt) => Ok(dt.weekday().num_days_from_sunday() as i32),
        None => Err(HxError::DomainError(String::from("Date out of range"))),
    }
}

/// Relies on chrono: `hour` is a function of the timestamp alone and lies
/// in `0..24`.
#[verifier::external_body]
pub fn utc_hours(ms: i64) -> (r: Result<i32, HxError>)
    ensures
        r is Ok <==> utc_in_range(ms as int),
        0 <= ms <= 253402300799999 ==> r is Ok,
        r matches Ok(v) ==> v as int == utc_hours_of(ms as int) && 0 <= v < 24,
{
    match Utc.timestamp_millis_opt(ms).single() {
        Some(dt) => Ok(dt.hour() as i32),
        None => Err(HxError::DomainError(String::from("Date out of range"))),
    }
}

/// Relies on chrono: `minute` is a function of the timestamp alone and lies
/// in `0..60`.
#[verifier::external_body]
pub fn utc_minutes(ms: i64) -> (r: Result<i32, HxError>)
    ensures
        r is Ok <==> utc_in_range(ms as int),
        0 <= ms <= 253402300799999 ==> r is Ok,
        r matches Ok(v) ==> v as int == utc_minutes_of(ms as int) && 0 <= v < 60,
{
    match Utc.timestamp_millis_opt(ms).single() {
        Some(dt) => Ok(dt.minute() as i32),
        None => Err(HxError::DomainError(String::from("Date out of range"))),
    }
}

/// Relies on chrono: `second` is a function of the timestamp alone and lies
/// in `0..60`.
#[verifier::external_body]
pub fn utc_seconds(ms: i64) -> (r: Result<i32, HxError>)
    ensures
        r is Ok <==> utc_in_range(ms as int),
        0 <= ms <= 253402300799999 ==> r is Ok,
        r matches Ok(v) ==> v as int == utc_seconds_of(ms as int) && 0 <= v < 60,
{
    match Utc.timestamp_millis_opt(ms).single() {
        Some(dt) => Ok(dt.second() as i32),
        None => Err(HxError::DomainError(String::from("Date out of range"))),
    }
}

/// Relies on chrono's Local time zone: the local calendar fields of a
/// timestamp depend on the machine's time zone, so only their documented
/// ranges are stated: month in `0..12`, day in `1..=31`, hour in `0..24`,
/// minute and second in `0..60`.
#[verifier::external_body]
pub fn local_components(ms: i64) -> (r: Result<(i32, i32, i32, i32, i32, i32), HxError>)
    ensures
        r matches Ok(c) ==> 0 <= c.1 < 12 && 1 <= c.2 <= 31 && 0 <= c.3 < 24 && 0 <= c.4 < 60
            && 0 <= c.5 < 60,
        r matches Err(e) ==> e is DomainError,
{
    match Utc.timestamp_millis_opt(ms).single() {
        Some(utc) => {
            let dt = utc.with_timezone(&Local);
            Ok((
                dt.year(),
                dt.month0() as i32,
                dt.day() as i32,
                dt.hour() as i32,
                dt.minute() as i32,
                dt.second() as i32,
            ))
        },
        None => Err(HxError::DomainError(String::from("Date out of range"))),
    }
}

/// Relies on chrono's Local time zone: the local weekday (0 = Sunday) of a
/// timestamp depends on the machine's time zone; it lies in `0..7`.
#[verifier::external_body]
pub fn local_day(ms: i64) -> (r: Result<i32, HxError>)
    ensures
        r matches Ok(v) ==> 0 <= v < 7,
        r matches Err(e) ==> e is DomainError,
{
    match Utc.timestamp_millis_opt(ms).single() {
        Some(utc) => Ok(utc.with_timezone(&Local).weekday().num_days_from_sunday() as i32),
        None => Err(HxError::DomainError(String::from("Date out of range"))),
    }
}

/// Relies on chrono's Local time zone: the difference to universal time in
/// minutes (positive west of it) depends on the machine's time zone; it is
/// at most one day in either direction.
#[verifier::external_body]
pub fn timezone_offset_minutes(ms: i64) -> (r: Result<i32, HxError>)
    ensures
        r matches Ok(v) ==> -1440 <= v <= 1440,
        r matches Err(e) ==> e is DomainError,
{
    match Utc.timestamp_millis_opt(ms).single() {
        Some(utc) => {
            let dt = utc.with_timezone(&Local);
            let local_minus_utc = dt.offset().fix().local_minus_utc() / 60;
            Ok(-(local_minus_utc as i32))
        },
        None => Err(HxError::DomainError(String::from("Date out of range"))),
    }
}

/// The local-time accessors, one calendar field each; every one depends on
/// the machine's time zone.
pub fn local_full_year(ms: i64) -> (r: Result<i32, HxError>)
    ensures
        r is Err ==> r->Err_0 is DomainError,
{
    match local_components(ms) {
        Ok(c) => Ok(c.0),
        Err(e) => Err(e),
    }
}

pub fn local_month0(ms: i64) -> (r: Result<i32, HxError>)
    ensures
        r matches Ok(v) ==> 0 <= v < 12,
        r is Err ==> r->Err_0 is DomainError,
{
    match local_components(ms) {
        Ok(c) => Ok(c.1),
        Err(e) => Err(e),
    }
}

pub fn local_date(ms: i64) -> (r: Result<i32, HxError>)
    ensures
        r matches Ok(v) ==> 1 <= v <= 31,
        r is Err ==> r->Err_0 is DomainError,
{
    match local_components(ms) {
        Ok(c) => Ok(c.2),
        Err(e) => Err(e),
    }
}

pub fn local_hours(ms: i64) -> (r: Result<i32, HxError>)
    ensures
        r matches Ok(v) ==> 0 <= v < 24,
        r is Err ==> r->Err_0 is DomainError,
{
    match local_components(ms) {
        Ok(c) => Ok(c.3),
        Err(e) => Err(e),
    }
}

pub fn local_minutes(ms: i64) -> (r: Result<i32, HxError>)
    ensures
        r matches Ok(v) ==> 0 <= v < 60,
        r is Err ==> r->Err_0 is DomainError,
{
    match local_components(ms) {
        Ok(c) => Ok(c.4),
        Err(e) => Err(e),
    }
}

pub fn local_seconds(ms: i64) -> (r: Result<i32, HxError>)
    ensures
        r matches Ok(v) ==> 0 <= v < 60,
        r is Err ==> r->Err_0 is DomainError,
{
    match local_components(ms) {
        Ok(c) => Ok(c.5),
        Err(e) => Err(e),
    }
}

/// `n` rendered in decimal and left-padded with zeroes to at least two
/// places.
pub open spec fn pad2(n: int) -> Seq<char> {
    if 0 <= n < 10 {
        seq!['0'] + dec_digits(n as nat)
    } else {
        int_str(n)
    }
}

/// The year field of the standard date text: four places for common years,
/// full decimal (with sign) otherwise.
pub open spec fn year_text(y: int) -> Seq<char> {
    if 0 <= y < 10 {
        seq!['0', '0', '0'] + dec_digits(y as nat)
    } else if 0 <= y < 100 {
        seq!['0', '0'] + dec_digits(y as nat)
    } else if 0 <= y < 1000 {
        seq!['0'] + dec_digits(y as nat)
    } else {
        int_str(y)
    }
}

/// The standard date-and-time text: `year-month-day hour:minute:second`,
/// fields zero-padded, month counted from one.
pub open spec fn ymd_hms_text(y: int, mo0: int, d: int, h: int, mi: int, s: int) -> Seq<char> {
    year_text(y) + seq!['-'] + pad2(mo0 + 1) + seq!['-'] + pad2(d) + seq![' '] + pad2(h) + seq![
        ':'
    ] + pad2(mi) + seq![':'] + pad2(s)
}

/// Two-digit rendering of a small field.
fn pad2_string(n: i32) -> (r: String)
    requires
        0 <= n < 100,
    ensures
        r@ == pad2(n as int),
{
    proof {
        reveal_strlit("0");
    }
    let mut s = String::new();
    if n < 10 {
        s.append("0");
    }
    let d = u64_to_string(n as u64);
    s.append(d.as_str());
    proof {
        assert("0"@ =~= seq!['0']);
        assert(s@ =~= pad2(n as int));
    }
    s
}

/// Render local calendar components as the standard date-and-time text.
pub fn format_ymd_hms(y: i32, mo0: i32, d: i32, h: i32, mi: i32, s: i32) -> (r: String)
    requires
        0 <= mo0 < 12,
        1 <= d <= 31,
        0 <= h < 24,
        0 <= mi < 60,
        0 <= s < 60,
    ensures
        r@ == ymd_hms_text(y as int, mo0 as int, d as int, h as int, mi as int, s as int),
{
    proof {
        reveal_strlit("0");
        reveal_strlit("00");
        reveal_strlit("000");
        reveal_strlit("-");
        reveal_strlit(" ");
        reveal_strlit(":");
    }
    let mut out = String::new();
    if 0 <= y && y < 10 {
        out.append("000");
        let t = u64_to_string(y as u64);
        out.append(t.as_str());
    } else if 0 <= y && y < 100 {
        out.append("00");
        let t = u64_to_string(y as u64);
        out.append(t.as_str());
    } else if 0 <= y && y < 1000 {
        out.append("0");
        let t = u64_to_string(y as u64);
        out.append(t.as_str());
    } else {
        let t = crate::text::i32_to_string(y);
        out.append(t.as_str());
    }
    proof {
        assert(out@ =~= year_text(y as int));
    }
    out.append("-");
    let t1 = pad2_string(mo0 + 1);
    out.append(t1.as_str());
    out.append("-");
    let t2 = pad2_string(d);
    out.append(t2.as_str());
    out.append(" ");
    let t3 = pad2_string(h);
    out.append(t3.as_str());
    out.append(":");
    let t4 = pad2_string(mi);
    out.append(t4.as_str());
    out.append(":");
    let t5 = pad2_string(s);
    out.append(t5.as_str());
    proof {
        assert("-"@ =~= seq!['-']);
        assert(" "@ =~= seq![' ']);
        assert(":"@ =~= seq![':']);
        assert(out@ =~= ymd_hms_text(
            y as int,
            mo0 as int,
            d as int,
            h as int,
            mi as int,
            s as int,
        ));
    }
    out
}

/// The timestamp rendered as the standard date-and-time text in the
/// machine's local time zone: which calendar fields appear depends on that
/// time zone, but the text is always the standard shape over in-range
/// fields.
pub fn format_local(ms: i64) -> (r: Result<String, HxError>)
    ensures
        r matches Ok(t) ==> (exists|y: int, mo: int, d: int, h: int, mi: int, sec: int|
            #![trigger ymd_hms_text(y, mo, d, h, mi, sec)]
            {
                &&& 0 <= mo < 12
                &&& 1 <= d <= 31
                &&& 0 <= h < 24
                &&& 0 <= mi < 60
                &&& 0 <= sec < 60
                &&& t@ == ymd_hms_text(y, mo, d, h, mi, sec)
            }),
        r is Err ==> r->Err_0 is DomainError,
    {
    match local_components(ms) {
        Err(e) => Err(e),
        Ok(c) => {
            let t = format_ymd_hms(c.0, c.1, c.2, c.3, c.4, c.5);
            proof {
                assert(t@ == ymd_hms_text(
                    c.0 as int,
                    c.1 as int,
                    c.2 as int,
                    c.3 as int,
                    c.4 as int,
                    c.5 as int,
                ));
            }
            Ok(t)
        },
    }
}

} // verus!

verus! {

/// A decimal digit character.
pub open spec fn is_digit(c: char) -> bool {
    48 <= c as int <= 57
}

/// The value of a decimal digit character.
pub open spec fn digit_val(c: char) -> int {
    c as int - 48
}

/// The value of the two digits at `i`.
pub open spec fn two_digits(s: Seq<char>, i: int) -> int {
    digit_val(s[i]) * 10 + digit_val(s[i + 1])
}

/// The value of the four digits at `i`.
pub open spec fn four_digits(s: Seq<char>, i: int) -> int {
    digit_val(s[i]) * 1000 + digit_val(s[i + 1]) * 100 + digit_val(s[i + 2]) * 10 + digit_val(
        s[i + 3],
    )
}

/// The calendar-and-clock shape `year-month-day hour:minute:second`, all
/// fields zero-padded to fixed width.
pub open spec fn is_ymd_hms_text(s: Seq<char>) -> bool {
    &&& s.len() == 19
    &&& is_digit(s[0]) && is_digit(s[1]) && is_digit(s[2]) && is_digit(s[3])
    &&& s[4] == '-'
    &&& is_digit(s[5]) && is_digit(s[6])
    &&& s[7] == '-'
    &&& is_digit(s[8]) && is_digit(s[9])
    &&& s[10] == ' '
    &&& is_digit(s[11]) && is_digit(s[12])
    &&& s[13] == ':'
    &&& is_digit(s[14]) && is_digit(s[15])
    &&& s[16] == ':'
    &&& is_digit(s[17]) && is_digit(s[18])
}

/// The calendar-only shape `year-month-day`.
pub open spec fn is_ymd_text(s: Seq<char>) -> bool {
    &&& s.len() == 10
    &&& is_digit(s[0]) && is_digit(s[1]) && is_digit(s[2]) && is_digit(s[3])
    &&& s[4] == '-'
    &&& is_digit(s[5]) && is_digit(s[6])
    &&& s[7] == '-'
    &&& is_digit(s[8]) && is_digit(s[9])
}

/// The clock-only shape `hour:minute:second`.
pub open spec fn is_hms_text(s: Seq<char>) -> bool {
    &&& s.len() == 8
    &&& is_digit(s[0]) && is_digit(s[1])
    &&& s[2] == ':'
    &&& is_digit(s[3]) && is_digit(s[4])
    &&& s[5] == ':'
    &&& is_digit(s[6]) && is_digit(s[7])
}

/// The digit at character position `i`, or nothing if `s` holds no digit
/// there.
fn read_digit(s: &str, i: usize) -> (r: Option<i32>)
    requires
        i < s@.len(),
    ensures
        is_digit(s@[i as int]) ==> (r matches Some(v) && v == digit_val(s@[i as int]) && 0 <= v
            <= 9),
        !is_digit(s@[i as int]) ==> r is None,
{
    let c = s.get_char(i);
    let u = c as u32;
    if 48 <= u && u <= 57 {
        Some((u - 48) as i32)
    } else {
        None
    }
}

/// The value of the two digits at `i`, or nothing on a non-digit.
fn read_two_digits(s: &str, i: usize) -> (r: Option<i32>)
    requires
        s@.len() <= i32::MAX,
        i + 1 < s@.len(),
    ensures
        is_digit(s@[i as int]) && is_digit(s@[i + 1]) ==> (r matches Some(v) && v == two_digits(
            s@,
            i as int,
        ) && 0 <= v <= 99),
        !(is_digit(s@[i as int]) && is_digit(s@[i + 1])) ==> r is None,
{
    match (read_digit(s, i), read_digit(s, i + 1)) {
        (Some(a), Some(b)) => Some(a * 10 + b),
        _ => None,
    }
}

/// Whether the character at `i` is exactly `want`.
fn char_is(s: &str, i: usize, want: char) -> (r: bool)
    requires
        i < s@.len(),
    ensures
        r == (s@[i as int] == want),
{
    s.get_char(i) == want
}

/// The six calendar-and-clock fields of a date text, as written: the
/// year-month-day and hour-minute-second digit values of the full shape, or
/// of the calendar-only shape with a midnight clock. A text of neither shape
/// fails with a domain error; field ranges are the calendar's to judge.
pub fn parse_date_fields(s: &str) -> (r: Result<(i32, i32, i32, i32, i32, i32), HxError>)
    requires
        s@.len() <= i32::MAX,
    ensures
        is_ymd_hms_text(s@) ==> (r matches Ok(f) && f.0 == four_digits(s@, 0) && f.1
            == two_digits(s@, 5) && f.2 == two_digits(s@, 8) && f.3 == two_digits(s@, 11) && f.4
            == two_digits(s@, 14) && f.5 == two_digits(s@, 17)),
        is_ymd_text(s@) ==> (r matches Ok(f) && f.0 == four_digits(s@, 0) && f.1 == two_digits(
            s@,
            5,
        ) && f.2 == two_digits(s@, 8) && f.3 == 0 && f.4 == 0 && f.5 == 0),
        !(is_ymd_hms_text(s@) || is_ymd_text(s@)) ==> (r matches Err(e) && e is DomainError),
{
    let n = s.unicode_len();
    if n != 19 && n != 10 {
        return Err(HxError::DomainError("Invalid date string".to_owned()));
    }
    let year = match (read_two_digits(s, 0), read_two_digits(s, 2)) {
        (Some(hi), Some(lo)) => hi * 100 + lo,
        _ => {
            return Err(HxError::DomainError("Invalid date string".to_owned()));
        },
    };
    let month = match read_two_digits(s, 5) {
        Some(v) => v,
        None => {
            return Err(HxError::DomainError("Invalid date string".to_owned()));
        },
    };
    let day = match read_two_digits(s, 8) {
        Some(v) => v,
        None => {
            return Err(HxError::DomainError("Invalid date string".to_owned()));
        },
    };
    if !(char_is(s, 4, '-') && char_is(s, 7, '-')) {
        return Err(HxError::DomainError("Invalid date string".to_owned()));
    }
    if n == 10 {
        return Ok((year, month, day, 0, 0, 0));
    }
    let hour = match read_two_digits(s, 11) {
        Some(v) => v,
        None => {
            return Err(HxError::DomainError("Invalid date string".to_owned()));
        },
    };
    let minute = match read_two_digits(s, 14) {
        Some(v) => v,
        None => {
            return Err(HxError::DomainError("Invalid date string".to_owned()));
        },
    };
    let second = match read_two_digits(s, 17) {
        Some(v) => v,
        None => {
            return Err(HxError::DomainError("Invalid date string".to_owned()));
        },
    };
    if !(char_is(s, 10, ' ') && char_is(s, 13, ':') && char_is(s, 16, ':')) {
        return Err(HxError::DomainError("Invalid date string".to_owned()));
    }
    Ok((year, month, day, hour, minute, second))
}

/// Relies on chrono's Local time zone: the timestamp of the given local
/// calendar fields (month counted from one) depends on the machine's time
/// zone; fields that name no local instant fail with a domain error, and an
/// ambiguous local time resolves to its earlier reading.
#[verifier::external_body]
pub fn local_to_ms(year: i32, month: i32, day: i32, hour: i32, minute: i32, second: i32) -> (r:
    Result<i64, HxError>)
    ensures
        r matches Err(e) ==> e is DomainError,
{
    if month < 1 || day < 1 || hour < 0 || minute < 0 || second < 0 {
        return Err(HxError::DomainError("Invalid local date".to_owned()));
    }
    match Local.with_ymd_and_hms(year, month as u32, day as u32, hour as u32, minute as u32,
        second as u32) {
        chrono::MappedLocalTime::Single(dt) => Ok(dt.with_timezone(&Utc).timestamp_millis()),
        chrono::MappedLocalTime::Ambiguous(dt, _) => Ok(
            dt.with_timezone(&Utc).timestamp_millis(),
        ),
        chrono::MappedLocalTime::None => Err(
            HxError::DomainError("Invalid local date".to_owned()),
        ),
    }
}

/// The timestamp a date text names: the calendar shapes are read in the
/// machine's local time zone; the clock-only shape counts from the epoch
/// itself, exactly `(hour * 3600 + minute * 60 + second) * 1000` for an
/// in-range clock. A text of no shape, or a clock out of range, fails with
/// a domain error.
pub fn parse_to_ms(s: &str) -> (r: Result<i64, HxError>)
    requires
        s@.len() <= i32::MAX,
    ensures
        is_hms_text(s@) ==> ({
            let h = two_digits(s@, 0);
            let m = two_digits(s@, 3);
            let sec = two_digits(s@, 6);
            if h < 24 && m < 60 && sec < 60 {
                r == Ok::<i64, HxError>(((h * 3600 + m * 60 + sec) * 1000) as i64)
            } else {
                r matches Err(e) && e is DomainError
            }
        }),
        !(is_ymd_hms_text(s@) || is_ymd_text(s@) || is_hms_text(s@)) ==> (r matches Err(e) && e
            is DomainError),
        r matches Err(e) ==> e is DomainError,
{
    let n = s.unicode_len();
    if n == 8 {
        let hour = match read_two_digits(s, 0) {
            Some(v) => v,
            None => {
                return Err(HxError::DomainError("Invalid date string".to_owned()));
            },
        };
        let minute = match read_two_digits(s, 3) {
            Some(v) => v,
            None => {
                return Err(HxError::DomainError("Invalid date string".to_owned()));
            },
        };
        let second = match read_two_digits(s, 6) {
            Some(v) => v,
            None => {
                return Err(HxError::DomainError("Invalid date string".to_owned()));
            },
        };
        if !(char_is(s, 2, ':') && char_is(s, 5, ':')) {
            return Err(HxError::DomainError("Invalid date string".to_owned()));
        }
        if hour >= 24 || minute >= 60 || second >= 60 {
            return Err(HxError::DomainError("Invalid date string".to_owned()));
        }
        let total: i32 = hour * 3600 + minute * 60 + second;
        return Ok((total as i64) * 1000);
    }
    match parse_date_fields(s) {
        Err(e) => Err(e),
        Ok(f) => local_to_ms(f.0, f.1, f.2, f.3, f.4, f.5),
    }
}

} // verus!
