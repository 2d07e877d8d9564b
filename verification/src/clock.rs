use vstd::prelude::*;

verus! {

/// The text, in the form "%Y-%m-%d %H:%M:%S", of the UTC date and time that lie `secs`
/// seconds and `nsecs` nanoseconds after the UNIX epoch, as chrono writes it; `None` where
/// chrono refuses the timestamp.
pub uninterp spec fn utc_timestamp_text(secs: i64, nsecs: u32) -> Option<Seq<char>>;

/// The text of the UNIX epoch itself.
pub open spec fn epoch_text() -> Seq<char> {
    "1970-01-01 00:00:00"@
}

/// The characters that the date and time text is made of: digits, the sign of a year
/// outside 0..=9999, and the separators of "%Y-%m-%d %H:%M:%S".
pub open spec fn date_time_char(c: char) -> bool {
    ('0' <= c && c <= '9') || c == '-' || c == '+' || c == ' ' || c == ':'
}

/// Calls `chrono::DateTime::<Utc>::from_timestamp(secs, nsecs)` and writes the date and time
/// it gives with the format "%Y-%m-%d %H:%M:%S".
///
/// The contract claims that the result is the named text, that chrono refuses a nanosecond
/// part of two seconds or more, and one of a second or more outside the last second of a
/// minute (`NaiveTime::from_num_seconds_from_midnight_opt`), and that the epoch itself is
/// accepted and written "1970-01-01 00:00:00", and that the text holds only digits, signs and
/// the pattern's separators (chrono writes each numeric field in decimal, a year outside
/// 0..=9999 with a sign, in `format::formatting`). It does not say which years chrono accepts,
/// nor spell out the calendar arithmetic behind the text.
#[verifier::external_body]
pub(crate) fn format_utc_timestamp(secs: i64, nsecs: u32) -> (r: Option<String>)
    ensures
        r is Some <==> utc_timestamp_text(secs, nsecs) is Some,
        r matches Some(s) ==> utc_timestamp_text(secs, nsecs) == Some(s@),
        nsecs >= 2_000_000_000 ==> r is None,
        nsecs >= 1_000_000_000 && secs % 60 != 59 ==> r is None,
        secs == 0 && nsecs == 0 ==> r is Some,
        r matches Some(s) ==> (secs == 0 && nsecs == 0 ==> s@ == epoch_text()),
        r matches Some(s) ==> forall|i: int| 0 <= i < s@.len() ==> date_time_char(#[trigger] s@[i]),
{
    match chrono::DateTime::from_timestamp(secs, nsecs) {
        Some(dt) => Some(dt.format("%Y-%m-%d %H:%M:%S").to_string()),
        None => None,
    }
}

/// The text to show for a timestamp: what chrono wrote, or `fallback` where chrono refused
/// the timestamp.
pub fn text_or_fallback(formatted: Option<String>, fallback: String) -> (r: String)
    ensures
        r@ == match formatted {
            Some(t) => t@,
            None => fallback@,
        },
{
    match formatted {
        Some(text) => text,
        None => fallback,
    }
}

} // verus!
