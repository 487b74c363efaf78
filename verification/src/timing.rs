//! Time spans between RFC 3339 timestamps, as `chrono` reads them.

use vstd::prelude::*;

use crate::model::Duration;

verus! {

pub open spec fn str_opt(o: Option<&str>) -> Option<Seq<char>> {
    match o {
        Some(s) => Some(s@),
        None => None,
    }
}

/// What `chrono` computes for two RFC 3339 timestamps: both are parsed with
/// `DateTime::parse_from_rfc3339`, and the whole seconds of their difference
/// (`end - start`, truncated toward zero) are taken; `None` where either
/// does not parse.
pub uninterp spec fn rfc3339_seconds_between(start: Seq<char>, end: Seq<char>) -> Option<int>;

/// Calls `chrono::DateTime::parse_from_rfc3339` on both timestamps and
/// `TimeDelta::num_seconds` on their difference. The contract claims only
/// that the result is the named function of the two strings.
#[verifier::external_body]
fn seconds_between(start: &str, end: &str) -> (res: Option<i64>)
    ensures
        res matches Some(x) ==> rfc3339_seconds_between(start@, end@) == Some(x as int),
        res is None ==> rfc3339_seconds_between(start@, end@) is None,
{
    let a = chrono::DateTime::parse_from_rfc3339(start).ok()?;
    let b = chrono::DateTime::parse_from_rfc3339(end).ok()?;
    Some((b - a).num_seconds())
}

/// How long something took from `start` to `end`: only when both are there,
/// both parse, and the end is not before the start.
pub open spec fn span_spec(start: Option<Seq<char>>, end: Option<Seq<char>>) -> Option<Duration> {
    match (start, end) {
        (Some(a), Some(b)) => match rfc3339_seconds_between(a, b) {
            Some(x) => if x >= 0 {
                Some(Duration::Seconds(x as u64))
            } else {
                None
            },
            None => None,
        },
        _ => None,
    }
}

/// Whole seconds from `start` to `end`; `None` when either is missing or
/// unreadable, or the end comes before the start.
pub fn secs_between(start: Option<&str>, end: Option<&str>) -> (res: Option<Duration>)
    ensures
        res == span_spec(str_opt(start), str_opt(end)),
{
    match (start, end) {
        (Some(a), Some(b)) => match seconds_between(a, b) {
            Some(x) => if x >= 0 {
                Some(Duration::Seconds(x as u64))
            } else {
                None
            },
            None => None,
        },
        _ => None,
    }
}

} // verus!
