//! How the commit history shows a commit: its style, the first line of its
//! message, and its time.

use crate::blame::MAX_UTC_TIMESTAMP;
use crate::text::{chars_of, spec_lines, split_lines, string_from_chars};
use vstd::prelude::*;

verus! {

/// A commit: its hash (full and short), message, author, author's email,
/// time (seconds since the Unix epoch) and parents.
#[derive(Debug, Clone)]
pub struct CommitInfo {
    pub hash: String,
    pub short_hash: String,
    pub message: String,
    pub author: String,
    pub email: String,
    pub timestamp: i64,
    pub parents: Vec<String>,
}

/// The style class of a commit in the list.
pub fn commit_class(selected: bool) -> (r: &'static str)
    ensures
        selected ==> r@ == "berry-commit-item berry-commit-item-selected"@,
        !selected ==> r@ == "berry-commit-item"@,
{
    if selected {
        "berry-commit-item berry-commit-item-selected"
    } else {
        "berry-commit-item"
    }
}

/// The first line of a message, as `str::lines` gives it; empty for an
/// empty message.
pub fn first_line(message: &str) -> (r: String)
    ensures
        spec_lines(message@).len() > 0 ==> r@ == spec_lines(message@)[0],
        spec_lines(message@).len() == 0 ==> r@ == Seq::<char>::empty(),
{
    let cs = chars_of(message);
    let lines = split_lines(cs.as_slice());
    if lines.len() > 0 {
        string_from_chars(lines[0].as_slice())
    } else {
        String::new()
    }
}

/// The UTC date and time of a timestamp to the minute, written
/// `YYYY-MM-DD HH:MM`.
pub uninterp spec fn utc_minute_text(timestamp: i64) -> Seq<char>;

/// The first second chrono can represent: the start of year -262143.
pub const MIN_UTC_TIMESTAMP: i64 = -8_334_601_228_800;

/// `chrono::DateTime::from_timestamp(timestamp, 0)` formatted with
/// `%Y-%m-%d %H:%M`; `None` exactly where chrono has no date for the
/// timestamp, which it has from the start of year -262143 to the end of
/// year 262142. The text is named, not stated; it depends on the timestamp
/// alone (the zone is UTC).
#[verifier::external_body]
fn utc_minutes(timestamp: i64) -> (r: Option<String>)
    ensures
        r matches Some(t) ==> t@ == utc_minute_text(timestamp),
        r is Some <==> MIN_UTC_TIMESTAMP <= timestamp <= MAX_UTC_TIMESTAMP,
{
    match chrono::DateTime::from_timestamp(timestamp, 0) {
        Some(d) => Some(d.format("%Y-%m-%d %H:%M").to_string()),
        None => None,
    }
}

/// `chrono::Utc::now()` formatted with `%Y-%m-%d %H:%M`. What time it is is
/// not stated.
#[verifier::external_body]
fn now_utc_minutes() -> (r: String) {
    chrono::Utc::now().format("%Y-%m-%d %H:%M").to_string()
}

/// The time shown for a commit: its UTC date and time to the minute; the
/// present time for a timestamp chrono has no date for.
pub fn commit_time_text(timestamp: i64) -> (r: String)
    ensures
        MIN_UTC_TIMESTAMP <= timestamp <= MAX_UTC_TIMESTAMP ==> r@ == utc_minute_text(timestamp),
{
    match utc_minutes(timestamp) {
        Some(t) => t,
        None => now_utc_minutes(),
    }
}

} // verus!
