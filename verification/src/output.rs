//! What the printed table shows beside the numbers: the colour of a cell
//! and the mark of a system server.

use crate::net::IpAddress;
use crate::result::{RawResultEntry, TimeResult};
use vstd::prelude::*;
use vstd::string::StringExecFns;

verus! {

/// The colour of a cell of the table.
#[derive(Clone, Copy, Debug, PartialEq, Eq, Structural)]
pub enum Color {
    BrightGreen,
    BrightYellow,
    BrightRed,
    Red,
}

/// A duration of at most this many milliseconds is fast.
pub const FAST_MILLIS: u128 = 30;

/// A duration of at most this many milliseconds is moderate.
pub const MODERATE_MILLIS: u128 = 80;

/// The column of the table that shows the success rate.
pub const SUCCESS_RATE_COLUMN: usize = 3;

/// The column of the table that shows the shortest duration.
pub const MIN_DURATION_COLUMN: usize = 4;

/// The column of the table that shows the longest duration.
pub const MAX_DURATION_COLUMN: usize = 5;

/// The column of the table that shows the mean duration.
pub const AVG_DURATION_COLUMN: usize = 6;

/// The colour of a duration: green up to 30 whole milliseconds, yellow up
/// to 80, bright red above, and red for a failure.
pub open spec fn color_of_duration(time: TimeResult) -> Color {
    match time {
        TimeResult::Succeeded(d) => if d@ / 1_000_000 <= FAST_MILLIS {
            Color::BrightGreen
        } else if d@ / 1_000_000 <= MODERATE_MILLIS {
            Color::BrightYellow
        } else {
            Color::BrightRed
        },
        TimeResult::Failed(_) => Color::Red,
    }
}

/// Whether `successful` out of `total` is at least one in `share`.
pub open spec fn at_least_one_in(share: int, successful: int, total: int) -> bool {
    total > 0 && share * successful >= total
}

/// The colour of a success rate: green where every attempt succeeded,
/// yellow from one half on, bright red from one fifth on, and red below or
/// where no attempt was made.
pub open spec fn color_of_success_rate(successful: int, total: int) -> Color {
    if total > 0 && successful == total {
        Color::BrightGreen
    } else if at_least_one_in(2, successful, total) {
        Color::BrightYellow
    } else if at_least_one_in(5, successful, total) {
        Color::BrightRed
    } else {
        Color::Red
    }
}

/// The colours of the four coloured cells of a row.
#[derive(Clone, Copy, Debug, PartialEq, Eq, Structural)]
pub struct RowColors {
    pub successful_requests: Color,
    pub min_duration: Color,
    pub max_duration: Color,
    pub avg_duration: Color,
}

/// The colour of a duration.
pub fn duration_color(time: &TimeResult) -> (c: Color)
    ensures
        c == color_of_duration(*time),
{
    match time {
        TimeResult::Succeeded(duration) => {
            let millis = duration.as_millis();
            if millis <= FAST_MILLIS {
                Color::BrightGreen
            } else if millis <= MODERATE_MILLIS {
                Color::BrightYellow
            } else {
                Color::BrightRed
            }
        },
        TimeResult::Failed(_) => Color::Red,
    }
}

/// The colour of the success rate of `successful` attempts out of `total`.
pub fn success_rate_color(successful: usize, total: usize) -> (c: Color)
    ensures
        c == color_of_success_rate(successful as int, total as int),
{
    let s = successful as u128;
    let t = total as u128;
    if t != 0 && s == t {
        Color::BrightGreen
    } else if t > 0 && 2 * s >= t {
        Color::BrightYellow
    } else if t > 0 && 5 * s >= t {
        Color::BrightRed
    } else {
        Color::Red
    }
}

/// The colours of the four coloured cells of the row of `entry`.
pub fn row_colors(entry: &RawResultEntry) -> (colors: RowColors)
    ensures
        colors.successful_requests == color_of_success_rate(
            entry.successful_requests as int,
            entry.total_requests as int,
        ),
        colors.min_duration == color_of_duration(entry.min_duration),
        colors.max_duration == color_of_duration(entry.max_duration),
        colors.avg_duration == color_of_duration(entry.avg_duration),
{
    RowColors {
        successful_requests: success_rate_color(entry.successful_requests, entry.total_requests),
        min_duration: duration_color(&entry.min_duration),
        max_duration: duration_color(&entry.max_duration),
        avg_duration: duration_color(&entry.avg_duration),
    }
}

/// Whether `ip` is one of the system's servers.
pub fn is_system_dns(system_dns_ips: &Vec<IpAddress>, ip: &IpAddress) -> (b: bool)
    ensures
        b == system_dns_ips@.contains(*ip),
{
    let mut i: usize = 0;
    while i < system_dns_ips.len()
        invariant
            i <= system_dns_ips.len(),
            forall|k: int| 0 <= k < i ==> system_dns_ips@[k] != *ip,
        decreases system_dns_ips.len() - i,
    {
        if system_dns_ips[i] == *ip {
            return true;
        }
        i += 1;
    }
    false
}

/// The name a server is shown under: its own, with `> ` before it where
/// it is one of the system's servers.
pub open spec fn shown_name(name: Seq<char>, ip: IpAddress, system_dns_ips: Seq<IpAddress>) -> Seq<
    char,
> {
    if system_dns_ips.contains(ip) {
        "> "@ + name
    } else {
        name
    }
}

/// The name that the row of `entry` shows.
pub fn display_name(entry: &RawResultEntry, system_dns_ips: &Vec<IpAddress>) -> (name: String)
    ensures
        name@ == shown_name(entry.name@, entry.ip, system_dns_ips@),
{
    if is_system_dns(system_dns_ips, &entry.ip) {
        let mut name = String::new();
        name.append("> ");
        name.append(entry.name.as_str());
        assert(name@ =~= "> "@ + entry.name@);
        name
    } else {
        entry.name.clone()
    }
}

} // verus!
