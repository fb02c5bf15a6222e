//! Wall-clock time and its RFC 3339 text (through `chrono`), and fresh
//! session identifiers (through `uuid`).
//!
//! Times are microseconds since the Unix epoch, UTC.
use vstd::prelude::*;

verus! {

/// Microseconds from the epoch to the last instant `chrono`'s `DateTime<Utc>`
/// can represent (the end of year 262142).
pub open spec fn max_time_micros() -> int {
    8_210_266_876_799_999_999
}

/// Microseconds from the epoch to the first instant `chrono`'s
/// `DateTime<Utc>` can represent (the start of year -262143).
pub open spec fn min_time_micros() -> int {
    -8_334_601_315_200_000_000
}

/// Whether `t` is an instant `chrono` can represent.
pub open spec fn representable(t: int) -> bool {
    min_time_micros() <= t <= max_time_micros()
}

/// Microseconds in one hour.
pub open spec fn micros_per_hour() -> int {
    3_600_000_000
}

/// Microseconds in one day.
pub open spec fn micros_per_day() -> int {
    86_400_000_000
}

/// Reads the clock through `chrono::Utc::now()` and returns
/// `timestamp_micros()` of it. Nothing is claimed of which instant comes
/// back beyond its range: `Utc::now` measures the time since the epoch with
/// `SystemTime::duration_since(UNIX_EPOCH)`, which it unwraps (so the value is
/// never before the epoch), and builds a `DateTime<Utc>`, which cannot lie
/// past `max_time_micros()`. `Utc::now` panics when the system clock is set
/// before 1970; no argument can rule that out.
#[verifier::external_body]
pub(crate) fn now_micros() -> (t: i64)
    ensures
        0 <= t <= max_time_micros(),
{
    chrono::Utc::now().timestamp_micros()
}

/// RFC 3339 text of an instant, as `chrono` writes it.
pub uninterp spec fn rfc3339_text(t: int) -> Seq<char>;

/// Calls `chrono::DateTime::<Utc>::from_timestamp_micros(t)`, which returns
/// `Some` for every representable instant, and `to_rfc3339()` on the result;
/// an instant `chrono` cannot represent gives the empty text. The text is
/// claimed to be a function of `t` alone.
#[verifier::external_body]
pub(crate) fn rfc3339(t: i64) -> (s: String)
    ensures
        s@ == rfc3339_text(t as int),
{
    match chrono::DateTime::<chrono::Utc>::from_timestamp_micros(t) {
        Some(d) => d.to_rfc3339(),
        None => String::new(),
    }
}

/// A lowercase hexadecimal digit.
pub open spec fn is_lower_hex(c: char) -> bool {
    ||| 0x30 <= (c as u32) <= 0x39
    ||| 0x61 <= (c as u32) <= 0x66
}

/// The hyphenated lowercase text of a random (version 4, RFC 4122 variant)
/// UUID: 8-4-4-4-12 hexadecimal digits, the version digit `4`, the variant
/// digit one of `8`, `9`, `a`, `b`.
pub open spec fn is_v4_uuid_text(s: Seq<char>) -> bool {
    &&& s.len() == 36
    &&& forall|i: int|
        0 <= i < 36 ==> (if i == 8 || i == 13 || i == 18 || i == 23 {
            #[trigger] s[i] == '-'
        } else {
            is_lower_hex(s[i])
        })
    &&& s[14] == '4'
    &&& (s[19] == '8' || s[19] == '9' || s[19] == 'a' || s[19] == 'b')
}

/// Calls `uuid::Uuid::new_v4()` and renders it with `to_string()`. The value
/// is random; the contract claims the form that the crate's source gives
/// every such value: `new_v4` sets the version nibble to 4 and the variant
/// bits to `10`, and `Display` writes the hyphenated lowercase form.
#[verifier::external_body]
pub(crate) fn new_session_uuid() -> (s: String)
    ensures
        is_v4_uuid_text(s@),
{
    uuid::Uuid::new_v4().to_string()
}

/// The current instant, in microseconds since the epoch.
pub fn current_time_micros() -> (t: i64)
    ensures
        0 <= t <= max_time_micros(),
{
    now_micros()
}

/// The RFC 3339 text of instant `t` (microseconds since the epoch).
pub fn instant_text(t: i64) -> (s: String)
    ensures
        s@ == rfc3339_text(t as int),
{
    rfc3339(t)
}

/// Whether `days` days after `now` is still a representable instant.
pub fn days_after_fit(now: i64, days: u32) -> (b: bool)
    ensures
        b == (now + days * micros_per_day() <= i64::MAX),
{
    (now as i128) + (days as i128) * 86_400_000_000 <= i64::MAX as i128
}

/// Whether `days` days before `now` is still a representable instant.
pub fn days_before_fit(now: i64, days: u32) -> (b: bool)
    ensures
        b == (i64::MIN <= now - days * micros_per_day()),
{
    (now as i128) - (days as i128) * 86_400_000_000 >= i64::MIN as i128
}

} // verus!
