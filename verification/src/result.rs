//! Attempt measurements and the record that summarises them.

use crate::duration::{duration_text, max_duration_nanos, Duration};
use crate::net::IpAddress;
use crate::text::{
    ascii_lowercase, contains, contains_chars, decimal, decimal_padded, push_decimal,
    push_decimal_padded, to_ascii_lowercase, to_chars,
};
use vstd::prelude::*;

verus! {

/// The outcome of one timed lookup: how long a successful lookup took, or
/// why it failed.
#[derive(Debug, Clone, PartialEq, Eq)]
pub enum TimeResult {
    Succeeded(Duration),
    Failed(String),
}

/// A `TimeResult` as a plain value: nanoseconds or the text of the error.
pub enum TimeResultView {
    Succeeded(nat),
    Failed(Seq<char>),
}

impl View for TimeResult {
    type V = TimeResultView;

    open spec fn view(&self) -> TimeResultView {
        match self {
            TimeResult::Succeeded(d) => TimeResultView::Succeeded(d@),
            TimeResult::Failed(e) => TimeResultView::Failed(e@),
        }
    }
}

/// One lookup attempt against one server.
#[derive(Debug, Clone, PartialEq, Eq)]
pub struct MeasureResult {
    pub name: String,
    pub ip: IpAddress,
    pub resolved_ip: IpAddress,
    pub time: TimeResult,
}

/// The summary of all attempts against one server.
#[derive(Debug, Clone, PartialEq, Eq)]
pub struct RawResultEntry {
    pub name: String,
    pub ip: IpAddress,
    pub last_resolved_ip: IpAddress,
    pub total_requests: usize,
    pub successful_requests: usize,
    pub min_duration: TimeResult,
    pub max_duration: TimeResult,
    pub avg_duration: TimeResult,
}

/// A `RawResultEntry` as a plain value.
pub struct RawResultEntryView {
    pub name: Seq<char>,
    pub ip: IpAddress,
    pub last_resolved_ip: IpAddress,
    pub total_requests: int,
    pub successful_requests: int,
    pub min_duration: TimeResultView,
    pub max_duration: TimeResultView,
    pub avg_duration: TimeResultView,
}

impl View for RawResultEntry {
    type V = RawResultEntryView;

    open spec fn view(&self) -> RawResultEntryView {
        RawResultEntryView {
            name: self.name@,
            ip: self.ip,
            last_resolved_ip: self.last_resolved_ip,
            total_requests: self.total_requests as int,
            successful_requests: self.successful_requests as int,
            min_duration: self.min_duration@,
            max_duration: self.max_duration@,
            avg_duration: self.avg_duration@,
        }
    }
}

/// The text that stands in place of a duration when no attempt succeeded.
pub open spec fn no_responses() -> Seq<char> {
    "No responses"@
}

/// Whether the text of an error speaks of a timeout: whether, letter case
/// aside, it holds `timeout` or `timed out`.
pub open spec fn is_timeout_text(error: Seq<char>) -> bool {
    contains(ascii_lowercase(error), "timeout"@) || contains(
        ascii_lowercase(error),
        "timed out"@,
    )
}

/// `nanos` nanoseconds in milliseconds, with six decimal places.
pub open spec fn millis_text(nanos: nat) -> Seq<char> {
    decimal(nanos / 1_000_000) + seq!['.'] + decimal_padded(nanos % 1_000_000, 6)
}

/// How many of the attempts `ms` succeeded.
pub open spec fn success_count(ms: Seq<MeasureResult>) -> nat
    decreases ms.len(),
{
    if ms.len() == 0 {
        0
    } else {
        success_count(ms.drop_last()) + if ms.last().time is Succeeded {
            1nat
        } else {
            0nat
        }
    }
}

/// The summed length, in nanoseconds, of the attempts of `ms` that succeeded.
pub open spec fn total_nanos(ms: Seq<MeasureResult>) -> nat
    decreases ms.len(),
{
    if ms.len() == 0 {
        0
    } else {
        total_nanos(ms.drop_last()) + match ms.last().time {
            TimeResult::Succeeded(d) => d@,
            TimeResult::Failed(_) => 0,
        }
    }
}

/// The shortest successful attempt of `ms`, if any succeeded.
pub open spec fn min_nanos(ms: Seq<MeasureResult>) -> Option<nat>
    decreases ms.len(),
{
    if ms.len() == 0 {
        None
    } else {
        let before = min_nanos(ms.drop_last());
        match ms.last().time {
            TimeResult::Succeeded(d) => match before {
                Some(m) => Some(if d@ < m { d@ } else { m }),
                None => Some(d@),
            },
            TimeResult::Failed(_) => before,
        }
    }
}

/// The longest successful attempt of `ms`, if any succeeded.
pub open spec fn max_nanos(ms: Seq<MeasureResult>) -> Option<nat>
    decreases ms.len(),
{
    if ms.len() == 0 {
        None
    } else {
        let before = max_nanos(ms.drop_last());
        match ms.last().time {
            TimeResult::Succeeded(d) => match before {
                Some(m) => Some(if d@ > m { d@ } else { m }),
                None => Some(d@),
            },
            TimeResult::Failed(_) => before,
        }
    }
}

/// The address resolved by the last successful attempt of `ms`, or
/// `0.0.0.0` if none succeeded.
pub open spec fn last_resolved_ip(ms: Seq<MeasureResult>) -> IpAddress
    decreases ms.len(),
{
    if ms.len() == 0 {
        IpAddress::unspecified_v4()
    } else if ms.last().time is Succeeded {
        ms.last().resolved_ip
    } else {
        last_resolved_ip(ms.drop_last())
    }
}

/// A duration of `nanos` nanoseconds if there is one, else the failure marker.
pub open spec fn duration_or_no_responses(nanos: Option<nat>) -> TimeResultView {
    match nanos {
        Some(n) => TimeResultView::Succeeded(n),
        None => TimeResultView::Failed(no_responses()),
    }
}

/// The mean of the successful attempts of `ms`, rounded down to a whole
/// nanosecond, if any succeeded.
pub open spec fn avg_nanos(ms: Seq<MeasureResult>) -> Option<nat> {
    if success_count(ms) == 0 {
        None
    } else {
        Some(total_nanos(ms) / success_count(ms))
    }
}

/// The record that summarises the attempts `ms` against one server. It
/// bears the name and the address of the server that the first attempt
/// went to; where no attempt was made, it bears no name and the address
/// `0.0.0.0`.
pub open spec fn aggregate(ms: Seq<MeasureResult>) -> RawResultEntryView {
    RawResultEntryView {
        name: if ms.len() > 0 {
            ms[0].name@
        } else {
            Seq::empty()
        },
        ip: if ms.len() > 0 {
            ms[0].ip
        } else {
            IpAddress::unspecified_v4()
        },
        last_resolved_ip: last_resolved_ip(ms),
        total_requests: ms.len() as int,
        successful_requests: success_count(ms) as int,
        min_duration: duration_or_no_responses(min_nanos(ms)),
        max_duration: duration_or_no_responses(max_nanos(ms)),
        avg_duration: duration_or_no_responses(avg_nanos(ms)),
    }
}

/// What one more attempt adds to each statistic of the attempts before it.
proof fn lemma_prefix_step(ms: Seq<MeasureResult>, i: int)
    requires
        0 <= i < ms.len(),
    ensures
        ms.take(i + 1).drop_last() == ms.take(i),
        ms.take(i + 1).last() == ms[i],
        ms.take(i + 1).len() == i + 1,
{
    assert(ms.take(i + 1).drop_last() =~= ms.take(i));
}

/// No more attempts succeed than were made, and their summed length is at
/// most that many longest durations.
pub proof fn lemma_success_bounds(ms: Seq<MeasureResult>, bound: nat)
    requires
        forall|i: int|
            0 <= i < ms.len() ==> (#[trigger] ms[i].time matches TimeResult::Succeeded(d) ==> d@
                <= bound),
    ensures
        success_count(ms) <= ms.len(),
        total_nanos(ms) <= success_count(ms) * bound,
    decreases ms.len(),
{
    if ms.len() > 0 {
        let before = ms.drop_last();
        assert forall|i: int| 0 <= i < before.len() implies (
        #[trigger] before[i].time matches TimeResult::Succeeded(d) ==> d@ <= bound) by {
            assert(before[i] == ms[i]);
        }
        lemma_success_bounds(before, bound);
        assert(ms.last() == ms[ms.len() - 1]);
        assert(total_nanos(ms) <= success_count(ms) * bound) by (nonlinear_arith)
            requires
                total_nanos(before) <= success_count(before) * bound,
                total_nanos(ms) - total_nanos(before) <= bound,
                success_count(ms) == success_count(before) + 1 || (success_count(ms)
                    == success_count(before) && total_nanos(ms) == total_nanos(before)),
        ;
    }
}

impl TimeResult {
    /// Whether the lookup succeeded.
    pub fn is_succeeded(&self) -> (b: bool)
        ensures
            b == (*self is Succeeded),
    {
        match self {
            TimeResult::Succeeded(_) => true,
            TimeResult::Failed(_) => false,
        }
    }

    /// Whether the lookup failed.
    pub fn is_failed(&self) -> (b: bool)
        ensures
            b == (*self is Failed),
    {
        match self {
            TimeResult::Succeeded(_) => false,
            TimeResult::Failed(_) => true,
        }
    }

    /// `"succeeded"` or `"failed"`.
    pub fn get_xml_type_str(&self) -> (s: &str)
        ensures
            s@ == (if *self is Succeeded {
                "succeeded"@
            } else {
                "failed"@
            }),
    {
        match self {
            TimeResult::Succeeded(_) => "succeeded",
            TimeResult::Failed(_) => "failed",
        }
    }

    /// The duration in milliseconds with six decimal places, if the lookup
    /// succeeded.
    pub fn get_duration_millis(&self) -> (text: Option<String>)
        ensures
            match *self {
                TimeResult::Succeeded(d) => text matches Some(s) && s@ == millis_text(d@),
                TimeResult::Failed(_) => text is None,
            },
    {
        match self {
            TimeResult::Succeeded(duration) => {
                let nanos = duration.as_nanos();
                let mut s = String::new();
                push_decimal(&mut s, nanos / 1_000_000);
                s.push('.');
                push_decimal_padded(&mut s, nanos % 1_000_000, 6);
                assert(s@ =~= millis_text(duration@));
                Some(s)
            },
            TimeResult::Failed(_) => None,
        }
    }

    /// Whether the lookup failed with an error whose text speaks of a
    /// timeout. Any other failure, and every success, is none.
    pub fn is_timeout(&self) -> (b: bool)
        ensures
            b == (*self matches TimeResult::Failed(error) && is_timeout_text(error@)),
    {
        match self {
            TimeResult::Succeeded(_) => false,
            TimeResult::Failed(error) => {
                let lower = to_ascii_lowercase(&to_chars(error.as_str()));
                contains_chars(&lower, &to_chars("timeout")) || contains_chars(
                    &lower,
                    &to_chars("timed out"),
                )
            },
        }
    }

    /// The duration in its largest fitting unit, or the text of the error.
    pub fn to_text(&self) -> (s: String)
        ensures
            s@ == match *self {
                TimeResult::Succeeded(d) => duration_text(d@),
                TimeResult::Failed(error) => error@,
            },
    {
        match self {
            TimeResult::Succeeded(duration) => duration.to_text(),
            TimeResult::Failed(error) => error.clone(),
        }
    }

    /// The text of the error, if the lookup failed.
    pub fn get_error_str(&self) -> (e: Option<&str>)
        ensures
            match *self {
                TimeResult::Succeeded(_) => e is None,
                TimeResult::Failed(error) => e matches Some(s) && s@ == error@,
            },
    {
        match self {
            TimeResult::Succeeded(_) => None,
            TimeResult::Failed(error) => Some(error.as_str()),
        }
    }

    /// A copy of this result.
    pub fn duplicate(&self) -> (r: TimeResult)
        ensures
            r == *self,
    {
        match self {
            TimeResult::Succeeded(d) => TimeResult::Succeeded(*d),
            TimeResult::Failed(e) => TimeResult::Failed(e.clone()),
        }
    }

    /// The failure that stands for "no attempt succeeded".
    pub fn no_responses() -> (r: TimeResult)
        ensures
            r@ == TimeResultView::Failed(no_responses()),
    {
        TimeResult::Failed("No responses".to_owned())
    }
}

/// The share of `successful` out of `total` as a fraction whose
/// denominator is not zero: zero over one where `total` is zero.
pub open spec fn success_ratio_of(successful: usize, total: usize) -> (usize, usize) {
    if total == 0 {
        (0usize, 1usize)
    } else {
        (successful, total)
    }
}

impl RawResultEntry {
    /// The share of the attempts that succeeded, as a fraction whose
    /// denominator is not zero; a hundred times the fraction is the
    /// success rate in percent. Where no attempt was made the share is
    /// zero.
    pub fn success_ratio(&self) -> (ratio: (usize, usize))
        ensures
            ratio == success_ratio_of(self.successful_requests, self.total_requests),
            ratio.1 > 0,
    {
        if self.total_requests == 0 {
            (0, 1)
        } else {
            (self.successful_requests, self.total_requests)
        }
    }

    /// Summarises the attempts made against one server: how many there
    /// were, how many succeeded, the shortest, longest and mean successful
    /// duration, and the address resolved last. Where no attempt was made,
    /// the counts are zero and the durations are marked as failed.
    pub fn from(value: Vec<MeasureResult>) -> (r: RawResultEntry)
        ensures
            r@ == aggregate(value@),
            r.total_requests == value.len(),
            r.successful_requests == success_count(value@),
            r.successful_requests <= r.total_requests,
            r.successful_requests == 0 ==> r.min_duration@ == TimeResultView::Failed(
                no_responses(),
            ) && r.max_duration@ == r.min_duration@ && r.avg_duration@ == r.min_duration@,
            r.successful_requests > 0 ==> r.avg_duration@ == TimeResultView::Succeeded(
                total_nanos(value@) / success_count(value@),
            ),
    {
        let mut successful_requests: usize = 0;
        // The sum of the successful durations, as whole seconds and as
        // what is left of each duration below one second.
        let mut total_secs: u128 = 0;
        let mut total_subsec: u128 = 0;
        let mut last_ip = IpAddress::V4(0, 0, 0, 0);
        let mut min_dur: Option<Duration> = None;
        let mut max_dur: Option<Duration> = None;

        let mut i: usize = 0;
        while i < value.len()
            invariant
                i <= value.len(),
                successful_requests == success_count(value@.take(i as int)),
                successful_requests <= i,
                total_secs * 1_000_000_000 + total_subsec == total_nanos(value@.take(i as int)),
                total_secs <= successful_requests * u64::MAX,
                total_subsec <= successful_requests * 999_999_999,
                total_nanos(value@.take(i as int)) <= successful_requests * max_duration_nanos(),
                last_ip == last_resolved_ip(value@.take(i as int)),
                min_nanos(value@.take(i as int)) == match min_dur {
                    Some(d) => Some(d@),
                    None => None,
                },
                max_nanos(value@.take(i as int)) == match max_dur {
                    Some(d) => Some(d@),
                    None => None,
                },
            decreases value.len() - i,
        {
            proof {
                lemma_prefix_step(value@, i as int);
            }
            match &value[i].time {
                TimeResult::Succeeded(duration) => {
                    let nanos = duration.as_nanos();
                    let secs = duration.as_secs();
                    let subsec = duration.subsec_nanos();
                    proof {
                        let before = total_nanos(value@.take(i as int));
                        assert(nanos == secs * 1_000_000_000 + subsec);
                        assert(before + nanos <= (successful_requests + 1) * max_duration_nanos())
                            by (nonlinear_arith)
                            requires
                                before <= successful_requests * max_duration_nanos(),
                                nanos <= max_duration_nanos(),
                        ;
                        assert(total_secs + secs <= (successful_requests + 1) * u64::MAX
                            <= u128::MAX) by (nonlinear_arith)
                            requires
                                total_secs <= successful_requests * u64::MAX,
                                secs <= u64::MAX,
                                0 <= successful_requests < u64::MAX,
                        ;
                        assert(total_subsec + subsec <= (successful_requests + 1) * 999_999_999
                            <= u128::MAX) by (nonlinear_arith)
                            requires
                                total_subsec <= successful_requests * 999_999_999,
                                subsec <= 999_999_999,
                                0 <= successful_requests < u64::MAX,
                        ;
                    }
                    successful_requests += 1;
                    total_secs += secs as u128;
                    total_subsec += subsec as u128;
                    last_ip = value[i].resolved_ip;
                    min_dur = Some(
                        match min_dur {
                            Some(current_min) => if nanos < current_min.as_nanos() {
                                *duration
                            } else {
                                current_min
                            },
                            None => *duration,
                        },
                    );
                    max_dur = Some(
                        match max_dur {
                            Some(current_max) => if nanos > current_max.as_nanos() {
                                *duration
                            } else {
                                current_max
                            },
                            None => *duration,
                        },
                    );
                },
                TimeResult::Failed(_) => {},
            }
            i += 1;
        }
        assert(value@.take(i as int) =~= value@);

        let avg_duration = if successful_requests > 0 {
            TimeResult::Succeeded(mean(total_secs, total_subsec, successful_requests))
        } else {
            TimeResult::no_responses()
        };
        let min_duration = match min_dur {
            Some(d) => TimeResult::Succeeded(d),
            None => TimeResult::no_responses(),
        };
        let max_duration = match max_dur {
            Some(d) => TimeResult::Succeeded(d),
            None => TimeResult::no_responses(),
        };
        proof {
            lemma_success_none_iff(value@);
        }
        let (name, ip) = if value.len() > 0 {
            (value[0].name.clone(), value[0].ip)
        } else {
            (String::new(), IpAddress::V4(0, 0, 0, 0))
        };
        RawResultEntry {
            name,
            ip,
            last_resolved_ip: last_ip,
            total_requests: value.len(),
            successful_requests,
            min_duration,
            max_duration,
            avg_duration,
        }
    }
}

/// The mean of `count` durations that add up to `total_secs` seconds and
/// `total_subsec` nanoseconds, rounded down to a whole nanosecond.
fn mean(total_secs: u128, total_subsec: u128, count: usize) -> (d: Duration)
    requires
        count > 0,
        total_secs <= count * u64::MAX,
        total_subsec <= count * 999_999_999,
        total_secs * 1_000_000_000 + total_subsec <= count * max_duration_nanos(),
    ensures
        d@ == (total_secs * 1_000_000_000 + total_subsec) / (count as int),
{
    let c = count as u128;
    let whole = total_secs / c;
    let left = total_secs % c;
    assert(left * 1_000_000_000 + total_subsec <= c * 1_999_999_999 <= u128::MAX)
        by (nonlinear_arith)
        requires
            left < c,
            total_subsec <= c * 999_999_999,
            c <= u64::MAX,
    ;
    let rest = left * 1_000_000_000 + total_subsec;
    proof {
        let total = total_secs * 1_000_000_000 + total_subsec;
        vstd::arithmetic::div_mod::lemma_fundamental_div_mod(total_secs as int, c as int);
        assert(total_secs == whole * c + left) by (nonlinear_arith)
            requires
                total_secs == c * whole + left,
        ;
        assert(total == rest + (whole * 1_000_000_000) * c) by (nonlinear_arith)
            requires
                total == total_secs * 1_000_000_000 + total_subsec,
                rest == left * 1_000_000_000 + total_subsec,
                total_secs == whole * c + left,
        ;
        vstd::arithmetic::div_mod::lemma_hoist_over_denominator(
            rest as int,
            (whole * 1_000_000_000) as int,
            c as nat,
        );
        assert(total / (c as int) <= max_duration_nanos()) by (nonlinear_arith)
            requires
                total <= c * max_duration_nanos(),
                c > 0,
        ;
        assert(rest / c >= 0);
    }
    Duration::from_nanos(whole * 1_000_000_000 + rest / c)
}

/// There is a shortest and a longest successful attempt exactly when some
/// attempt succeeded.
pub proof fn lemma_success_none_iff(ms: Seq<MeasureResult>)
    ensures
        min_nanos(ms) is None <==> success_count(ms) == 0,
        max_nanos(ms) is None <==> success_count(ms) == 0,
    decreases ms.len(),
{
    if ms.len() > 0 {
        lemma_success_none_iff(ms.drop_last());
    }
}

/// The shortest and the longest successful attempt are attempts that
/// were made, and no successful attempt is shorter than the one or longer
/// than the other.
pub proof fn lemma_min_max(ms: Seq<MeasureResult>)
    ensures
        forall|i: int|
            0 <= i < ms.len() ==> (#[trigger] ms[i].time matches TimeResult::Succeeded(d)
                ==> min_nanos(ms) is Some && max_nanos(ms) is Some && min_nanos(ms)->0 <= d@
                <= max_nanos(ms)->0),
        min_nanos(ms) matches Some(m) ==> exists|i: int|
            0 <= i < ms.len() && #[trigger] ms[i].time@ == TimeResultView::Succeeded(m),
        max_nanos(ms) matches Some(m) ==> exists|i: int|
            0 <= i < ms.len() && #[trigger] ms[i].time@ == TimeResultView::Succeeded(m),
    decreases ms.len(),
{
    lemma_success_none_iff(ms);
    if ms.len() > 0 {
        let before = ms.drop_last();
        lemma_min_max(before);
        lemma_success_none_iff(before);
        assert forall|i: int| 0 <= i < ms.len() implies (
        #[trigger] ms[i].time matches TimeResult::Succeeded(d) ==> min_nanos(ms) is Some
            && max_nanos(ms) is Some && min_nanos(ms)->0 <= d@ <= max_nanos(ms)->0) by {
            if i < ms.len() - 1 {
                assert(before[i].time == ms[i].time);
            } else {
                assert(ms[i] == ms.last());
            }
        }
        if min_nanos(ms) is Some {
            let m = min_nanos(ms)->0;
            if ms.last().time@ == TimeResultView::Succeeded(m) {
                assert(ms[ms.len() - 1].time@ == TimeResultView::Succeeded(m));
            } else {
                let i = choose|i: int|
                    0 <= i < before.len() && #[trigger] before[i].time@
                        == TimeResultView::Succeeded(m);
                assert(ms[i].time@ == TimeResultView::Succeeded(m));
            }
        }
        if max_nanos(ms) is Some {
            let m = max_nanos(ms)->0;
            if ms.last().time@ == TimeResultView::Succeeded(m) {
                assert(ms[ms.len() - 1].time@ == TimeResultView::Succeeded(m));
            } else {
                let i = choose|i: int|
                    0 <= i < before.len() && #[trigger] before[i].time@
                        == TimeResultView::Succeeded(m);
                assert(ms[i].time@ == TimeResultView::Succeeded(m));
            }
        }
    }
}

/// The mean lies between the shortest and the longest successful attempt.
pub proof fn lemma_avg_between(ms: Seq<MeasureResult>)
    requires
        success_count(ms) > 0,
    ensures
        min_nanos(ms) is Some,
        max_nanos(ms) is Some,
        min_nanos(ms)->0 <= avg_nanos(ms)->0 <= max_nanos(ms)->0,
{
    lemma_success_none_iff(ms);
    lemma_total_between(ms);
    let n = success_count(ms);
    let total = total_nanos(ms);
    let lo = min_nanos(ms)->0;
    let hi = max_nanos(ms)->0;
    assert(lo <= total / n <= hi) by (nonlinear_arith)
        requires
            n > 0,
            n * lo <= total <= n * hi,
    ;
}

/// The summed length lies between as many shortest and as many longest
/// attempts as succeeded.
proof fn lemma_total_between(ms: Seq<MeasureResult>)
    ensures
        success_count(ms) > 0 ==> success_count(ms) * min_nanos(ms)->0 <= total_nanos(ms)
            <= success_count(ms) * max_nanos(ms)->0,
        success_count(ms) == 0 ==> total_nanos(ms) == 0,
    decreases ms.len(),
{
    lemma_success_none_iff(ms);
    if ms.len() > 0 {
        let before = ms.drop_last();
        lemma_total_between(before);
        lemma_success_none_iff(before);
        if let TimeResult::Succeeded(d) = ms.last().time {
            let n = success_count(before);
            if n > 0 {
                let lo0 = min_nanos(before)->0;
                let hi0 = max_nanos(before)->0;
                let lo = min_nanos(ms)->0;
                let hi = max_nanos(ms)->0;
                assert((n + 1) * lo <= total_nanos(before) + d@ <= (n + 1) * hi)
                    by (nonlinear_arith)
                    requires
                        n * lo0 <= total_nanos(before) <= n * hi0,
                        lo <= lo0,
                        lo <= d@,
                        hi0 <= hi,
                        d@ <= hi,
                ;
            } else {
                assert(1 * d@ == d@);
            }
        }
    }
}

/// Summarising the same attempts twice gives the same record.
pub proof fn lemma_aggregate_is_a_function(
    ms: Seq<MeasureResult>,
    first: RawResultEntry,
    second: RawResultEntry,
)
    requires
        first@ == aggregate(ms),
        second@ == aggregate(ms),
    ensures
        first@ == second@,
{
}

} // verus!
