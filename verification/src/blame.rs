//! What the blame view shows of a line: who last changed it, and when, as
//! a time relative to now and as a UTC date.

use vstd::prelude::*;
use crate::text::{append, push_char};

verus! {

broadcast use vstd::string::group_string_axioms;

/// The last change of a line.
#[derive(Debug, Clone)]
pub struct BlameLineInfo {
    pub line_number: usize,
    pub commit_id: String,
    pub author: String,
    /// Seconds since the Unix epoch.
    pub timestamp: i64,
    pub content: String,
}

/// The decimal digits of a number.
pub open spec fn decimal_text(n: nat) -> Seq<char>
    decreases n,
{
    let d = ((n % 10) + ('0' as u32)) as char;
    if n < 10 {
        seq![d]
    } else {
        decimal_text(n / 10).push(d)
    }
}

/// A number in decimal.
pub fn decimal(n: u64) -> (r: String)
    ensures
        r@ == decimal_text(n as nat),
    decreases n,
{
    let d = ((n % 10) as u32 + '0' as u32) as u8 as char;
    assert(d == ((n % 10) + ('0' as u32)) as char) by {
        assert((n % 10) as u32 + ('0' as u32) < 128);
    }
    if n < 10 {
        let mut s = String::new();
        push_char(&mut s, d);
        s
    } else {
        let mut s = decimal(n / 10);
        push_char(&mut s, d);
        s
    }
}

/// How long ago a moment `diff` seconds back was: "just now" under a
/// minute, then whole minutes, hours, days, months of 30 days, or years of
/// 365 days.
pub open spec fn relative_time_text(diff: int) -> Seq<char> {
    if diff < 60 {
        "just now"@
    } else if diff < 3600 {
        decimal_text((diff / 60) as nat) + " minutes ago"@
    } else if diff < 86400 {
        decimal_text((diff / 3600) as nat) + " hours ago"@
    } else if diff < 2592000 {
        decimal_text((diff / 86400) as nat) + " days ago"@
    } else if diff < 31536000 {
        decimal_text((diff / 2592000) as nat) + " months ago"@
    } else {
        decimal_text((diff / 31536000) as nat) + " years ago"@
    }
}


/// How long before `now` the moment `timestamp` was (both in seconds since
/// the Unix epoch).
pub fn format_relative_time(timestamp: i64, now: i64) -> (r: String)
    requires
        i64::MIN <= now - timestamp <= i64::MAX,
    ensures
        r@ == relative_time_text(now - timestamp),
{
    let diff = now - timestamp;
    if diff < 60 {
        "just now".to_string()
    } else if diff < 3600 {
        append(decimal((diff / 60) as u64), " minutes ago")
    } else if diff < 86400 {
        append(decimal((diff / 3600) as u64), " hours ago")
    } else if diff < 2592000 {
        append(decimal((diff / 86400) as u64), " days ago")
    } else if diff < 31536000 {
        append(decimal((diff / 2592000) as u64), " months ago")
    } else {
        append(decimal((diff / 31536000) as u64), " years ago")
    }
}

/// The last second chrono can represent: the end of year 262142.
pub const MAX_UTC_TIMESTAMP: i64 = 8_210_266_876_799;

/// The UTC date and time of a timestamp, written as
/// `YYYY-MM-DD HH:MM:SS UTC`.
pub uninterp spec fn utc_date_text(timestamp: i64) -> Seq<char>;

/// `chrono::DateTime::<Utc>::format` with `%Y-%m-%d %H:%M:%S UTC`, of the
/// moment `timestamp` seconds after the Unix epoch. The text is named, not
/// stated; it depends on the timestamp alone (the zone is UTC).
#[verifier::external_body]
fn format_utc(timestamp: i64) -> (r: String)
    requires
        0 <= timestamp <= MAX_UTC_TIMESTAMP,
    ensures
        r@ == utc_date_text(timestamp),
{
    let system_time = std::time::UNIX_EPOCH + std::time::Duration::from_secs(timestamp as u64);
    let datetime: chrono::DateTime<chrono::Utc> = system_time.into();
    datetime.format("%Y-%m-%d %H:%M:%S UTC").to_string()
}

/// The UTC date and time of a timestamp (seconds since the Unix epoch).
pub fn format_timestamp(timestamp: i64) -> (r: String)
    requires
        0 <= timestamp <= MAX_UTC_TIMESTAMP,
    ensures
        r@ == utc_date_text(timestamp),
{
    format_utc(timestamp)
}

} // verus!
