//! Durations in seconds: the `HH:MM:SS` display, and the hour/minute split
//! and the check of a daily limit.

use vstd::prelude::*;
use crate::text::{clear_text, pad2, push_char, push_pad2};

verus! {

/// `total_seconds` as `HH:MM:SS`: hours, minutes and seconds each zero-padded
/// to two digits; hours are not wrapped, so they may take more digits.
pub open spec fn time_text(total_seconds: nat) -> Seq<char> {
    pad2(total_seconds / 3600) + seq![':'] + pad2((total_seconds % 3600) / 60) + seq![':']
        + pad2(total_seconds % 60)
}

/// Appends `total_seconds` as `HH:MM:SS` to `buffer`.
fn push_time(buffer: &mut String, total_seconds: u64)
    ensures
        final(buffer)@ == old(buffer)@ + time_text(total_seconds as nat),
{
    let hours = total_seconds / 3600;
    let minutes = (total_seconds % 3600) / 60;
    let seconds = total_seconds % 60;
    push_pad2(buffer, hours);
    push_char(buffer, ':');
    push_pad2(buffer, minutes);
    push_char(buffer, ':');
    push_pad2(buffer, seconds);
    assert(buffer@ =~= old(buffer)@ + time_text(total_seconds as nat));
}

/// Formats a number of seconds as `HH:MM:SS`.
pub fn format_time(total_seconds: u64) -> (res: String)
    ensures
        res@ == time_text(total_seconds as nat),
{
    let mut res = String::new();
    push_time(&mut res, total_seconds);
    assert(res@ =~= time_text(total_seconds as nat));
    res
}

/// Writes `total_seconds` as `HH:MM:SS` into `buffer`, replacing what it
/// held; the buffer is emptied and written in place, so its allocation is
/// reused.
pub fn format_time_into(total_seconds: u64, buffer: &mut String)
    ensures
        final(buffer)@ == time_text(total_seconds as nat),
{
    clear_text(buffer);
    push_time(buffer, total_seconds);
    assert(buffer@ =~= time_text(total_seconds as nat));
}

/// A limit of `hours` and `minutes`, in seconds.
pub open spec fn limit_seconds_of(hours: nat, minutes: nat) -> nat {
    hours * 3600 + minutes * 60
}

/// The limit in seconds for `hours` and `minutes`, as the settings window
/// composes it.
pub fn limit_from_parts(hours: u32, minutes: u32) -> (limit: u64)
    ensures
        limit == limit_seconds_of(hours as nat, minutes as nat),
        limit == hours as int * 3600 + minutes as int * 60,
{
    hours as u64 * 3600 + minutes as u64 * 60
}

/// The whole hours of a limit, as the settings window shows them (the
/// number of hours, kept to its low 32 bits).
pub fn limit_hours(limit_seconds: u64) -> (hours: u32)
    ensures
        hours == (limit_seconds / 3600) as u32,
{
    (limit_seconds / 3600) as u32
}

/// The minutes past the whole hours of a limit.
pub fn limit_minutes(limit_seconds: u64) -> (minutes: u32)
    ensures
        minutes == (limit_seconds % 3600) / 60,
        minutes < 60,
{
    ((limit_seconds % 3600) / 60) as u32
}

/// Whether a game with `limit_seconds` has been played past it: a limit of
/// 0 means no limit.
pub open spec fn over_limit(played: u64, limit_seconds: u64) -> bool {
    limit_seconds > 0 && played >= limit_seconds
}

/// Whether `played` seconds reach a nonzero limit.
pub fn is_over_limit(played: u64, limit_seconds: u64) -> (b: bool)
    ensures
        b == over_limit(played, limit_seconds),
        b == (limit_seconds > 0 && played >= limit_seconds),
{
    limit_seconds > 0 && played >= limit_seconds
}

} // verus!
