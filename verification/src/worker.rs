//! The attempts a worker makes against one server.

use crate::args::IpAddr;
use crate::duration::Duration;
use crate::net::IpAddress;
use crate::result::{aggregate, MeasureResult, RawResultEntry, TimeResult};
use crate::servers::DnsEntry;
use crate::timeout::{outcome_of, AdaptiveTimeout, AttemptOutcome};
use vstd::prelude::*;

verus! {

/// What one lookup came back with.
#[derive(Debug, Clone, PartialEq, Eq)]
pub enum LookupOutcome {
    /// The first address the server resolved the name to, and how long it took.
    Resolved { ip: IpAddress, elapsed: Duration },
    /// The description of the error.
    Failed { error: String },
}

/// The address that stands for "none" in the given IP version.
pub open spec fn unspecified(version: IpAddr) -> IpAddress {
    match version {
        IpAddr::V4 => IpAddress::unspecified_v4(),
        IpAddr::V6 => IpAddress::unspecified_v6(),
    }
}

/// The measurement that records `outcome` for a lookup sent to `entry`,
/// which asked for an address of version `lookup_ip`.
pub open spec fn measurement(
    entry: DnsEntry,
    lookup_ip: IpAddr,
    outcome: LookupOutcome,
) -> MeasureResult {
    match outcome {
        LookupOutcome::Resolved { ip, elapsed } => MeasureResult {
            name: entry.name,
            ip: entry.socket_addr.ip,
            resolved_ip: ip,
            time: TimeResult::Succeeded(elapsed),
        },
        LookupOutcome::Failed { error } => MeasureResult {
            name: entry.name,
            ip: entry.socket_addr.ip,
            resolved_ip: unspecified(lookup_ip),
            time: TimeResult::Failed(error),
        },
    }
}

/// The measurements that record `outcomes`, in order.
pub open spec fn measurements(
    entry: DnsEntry,
    lookup_ip: IpAddr,
    outcomes: Seq<LookupOutcome>,
) -> Seq<MeasureResult> {
    outcomes.map_values(|o: LookupOutcome| measurement(entry, lookup_ip, o))
}

/// What each of the measurements means to the timeout controller.
pub open spec fn outcomes_of(ms: Seq<MeasureResult>) -> Seq<AttemptOutcome> {
    ms.map_values(|m: MeasureResult| outcome_of(m.time))
}

/// The timeout controller of a target after the attempts `ms`, when the
/// configured timeout is `base_timeout_ms`.
pub open spec fn timeout_after(base_timeout_ms: u64, ms: Seq<MeasureResult>) -> AdaptiveTimeout {
    AdaptiveTimeout::initial(base_timeout_ms).after_all(outcomes_of(ms))
}

impl MeasureResult {
    /// The measurement that records `outcome` for a lookup sent to
    /// `entry`. A failed lookup resolves to the unspecified address of the
    /// IP version that was asked for.
    pub fn from_lookup(entry: &DnsEntry, lookup_ip: IpAddr, outcome: LookupOutcome) -> (m:
        MeasureResult)
        ensures
            m == measurement(*entry, lookup_ip, outcome),
    {
        match outcome {
            LookupOutcome::Resolved { ip, elapsed } => MeasureResult {
                name: entry.name.clone(),
                ip: entry.socket_addr.ip,
                resolved_ip: ip,
                time: TimeResult::Succeeded(elapsed),
            },
            LookupOutcome::Failed { error } => MeasureResult {
                name: entry.name.clone(),
                ip: entry.socket_addr.ip,
                resolved_ip: match lookup_ip {
                    IpAddr::V4 => IpAddress::V4(0, 0, 0, 0),
                    IpAddr::V6 => IpAddress::V6(0, 0, 0, 0, 0, 0, 0, 0),
                },
                time: TimeResult::Failed(error),
            },
        }
    }
}

/// The attempts against one server: which server, how many attempts are
/// to be made, the timeout controller, and the measurements so far.
pub struct TargetRun {
    entry: DnsEntry,
    lookup_ip: IpAddr,
    requests: u16,
    base_timeout_ms: u64,
    timeout: AdaptiveTimeout,
    measurements: Vec<MeasureResult>,
}

impl TargetRun {
    #[verifier::type_invariant]
    spec fn well_formed(self) -> bool {
        &&& self.measurements@.len() <= self.requests
        &&& self.timeout == timeout_after(self.base_timeout_ms, self.measurements@)
        &&& self.timeout.consecutive_timeout_failures <= self.measurements@.len()
        &&& forall|i: int|
            0 <= i < self.measurements@.len() ==> (#[trigger] self.measurements@[i]).name
                == self.entry.name && self.measurements@[i].ip == self.entry.socket_addr.ip
    }

    /// The server the attempts go to.
    pub closed spec fn entry(self) -> DnsEntry {
        self.entry
    }

    /// The IP version the lookups ask for.
    pub closed spec fn lookup_ip(self) -> IpAddr {
        self.lookup_ip
    }

    /// How many attempts are to be made.
    pub closed spec fn requests(self) -> u16 {
        self.requests
    }

    /// The configured timeout, in milliseconds.
    pub closed spec fn base_timeout_ms(self) -> u64 {
        self.base_timeout_ms
    }

    /// The measurements of the attempts made so far.
    pub closed spec fn measurements(self) -> Seq<MeasureResult> {
        self.measurements@
    }

    /// The state before the first attempt against `entry`.
    pub fn start(entry: DnsEntry, lookup_ip: IpAddr, requests: u16, base_timeout_ms: u64) -> (run:
        TargetRun)
        ensures
            run.entry() == entry,
            run.lookup_ip() == lookup_ip,
            run.requests() == requests,
            run.base_timeout_ms() == base_timeout_ms,
            run.measurements() == Seq::<MeasureResult>::empty(),
    {
        let run = TargetRun {
            entry,
            lookup_ip,
            requests,
            base_timeout_ms,
            timeout: AdaptiveTimeout::new(base_timeout_ms),
            measurements: Vec::new(),
        };
        assert(outcomes_of(run.measurements@) =~= Seq::<AttemptOutcome>::empty());
        run
    }

    /// The timeout for the next attempt, in milliseconds, or `None` when
    /// all attempts have been made.
    pub fn next_attempt(&self) -> (timeout_ms: Option<u64>)
        ensures
            self.measurements().len() <= self.requests(),
            timeout_ms == (if self.measurements().len() < self.requests() {
                Some(
                    timeout_after(self.base_timeout_ms(), self.measurements()).current_timeout_ms,
                )
            } else {
                None
            }),
    {
        proof {
            use_type_invariant(self);
        }
        if self.measurements.len() < self.requests as usize {
            Some(self.timeout.current_timeout_ms())
        } else {
            None
        }
    }

    /// The state after an attempt that came back with `outcome`: one more
    /// measurement, and the timeout controller has taken note of it.
    pub fn record(self, outcome: LookupOutcome) -> (next: TargetRun)
        requires
            self.measurements().len() < self.requests(),
        ensures
            next.measurements() == self.measurements().push(
                measurement(self.entry(), self.lookup_ip(), outcome),
            ),
            next.entry() == self.entry(),
            next.lookup_ip() == self.lookup_ip(),
            next.requests() == self.requests(),
            next.base_timeout_ms() == self.base_timeout_ms(),
    {
        proof {
            use_type_invariant(&self);
        }
        let TargetRun { entry, lookup_ip, requests, base_timeout_ms, timeout, measurements } = self;
        let mut timeout = timeout;
        let mut measurements = measurements;
        let m = MeasureResult::from_lookup(&entry, lookup_ip, outcome);
        timeout.observe(&m.time);
        proof {
            let before = measurements@;
            assert(outcomes_of(before.push(m)).drop_last() =~= outcomes_of(before));
        }
        measurements.push(m);
        TargetRun { entry, lookup_ip, requests, base_timeout_ms, timeout, measurements }
    }

    /// Whether all attempts have been made.
    pub fn is_complete(&self) -> (b: bool)
        ensures
            b == (self.measurements().len() == self.requests()),
            self.measurements().len() <= self.requests(),
    {
        proof {
            use_type_invariant(self);
        }
        self.measurements.len() == self.requests as usize
    }

    /// The record that summarises the attempts, once all have been made.
    pub fn finish(self) -> (r: RawResultEntry)
        requires
            self.requests() > 0,
            self.measurements().len() == self.requests(),
        ensures
            r@ == aggregate(self.measurements()),
            r.name@ == self.entry().name@,
            r.ip == self.entry().socket_addr.ip,
            r.total_requests == self.requests(),
    {
        proof {
            use_type_invariant(&self);
        }
        RawResultEntry::from(self.measurements)
    }
}

/// Whether `outcomes` are what `lookup` returned in `requests` attempts
/// against `entry`, each made with the timeout that the controller had
/// reached after the attempts before it.
pub open spec fn attempts_made<F: Fn(u64) -> LookupOutcome>(
    lookup: F,
    entry: DnsEntry,
    lookup_ip: IpAddr,
    requests: u16,
    base_timeout_ms: u64,
    outcomes: Seq<LookupOutcome>,
) -> bool {
    &&& outcomes.len() == requests
    &&& forall|i: int|
        0 <= i < outcomes.len() ==> call_ensures(
            lookup,
            (timeout_after(
                base_timeout_ms,
                measurements(entry, lookup_ip, outcomes.take(i)),
            ).current_timeout_ms,),
            #[trigger] outcomes[i],
        )
}

/// Makes `requests` attempts against `entry` and summarises them.
///
/// `lookup` performs one lookup with the timeout it is given, in
/// milliseconds. Every attempt is made, whatever the ones before it came
/// back with; a failure is recorded and shortens the timeout of the next
/// attempts as the controller decides.
pub fn run_target<F: Fn(u64) -> LookupOutcome>(
    entry: DnsEntry,
    lookup_ip: IpAddr,
    requests: u16,
    base_timeout_ms: u64,
    lookup: F,
) -> (r: RawResultEntry)
    requires
        requests > 0,
        forall|timeout_ms: u64| call_requires(lookup, (timeout_ms,)),
    ensures
        exists|outcomes: Seq<LookupOutcome>|
            #![trigger measurements(entry, lookup_ip, outcomes)]
            attempts_made(lookup, entry, lookup_ip, requests, base_timeout_ms, outcomes) && r@
                == aggregate(measurements(entry, lookup_ip, outcomes)),
        r.name@ == entry.name@,
        r.ip == entry.socket_addr.ip,
        r.total_requests == requests,
{
    let ghost mut outcomes: Seq<LookupOutcome> = Seq::empty();
    let mut run = TargetRun::start(entry, lookup_ip, requests, base_timeout_ms);
    assert(run.measurements() =~= measurements(entry, lookup_ip, outcomes));
    loop
        invariant
            forall|timeout_ms: u64| call_requires(lookup, (timeout_ms,)),
            run.entry() == entry,
            run.lookup_ip() == lookup_ip,
            run.requests() == requests,
            run.base_timeout_ms() == base_timeout_ms,
            run.measurements() == measurements(entry, lookup_ip, outcomes),
            outcomes.len() <= requests,
            forall|i: int|
                0 <= i < outcomes.len() ==> call_ensures(
                    lookup,
                    (timeout_after(
                        base_timeout_ms,
                        measurements(entry, lookup_ip, outcomes.take(i)),
                    ).current_timeout_ms,),
                    #[trigger] outcomes[i],
                ),
        ensures
            outcomes.len() == requests,
        decreases requests - outcomes.len(),
    {
        match run.next_attempt() {
            Some(timeout_ms) => {
                let outcome = lookup(timeout_ms);
                let ghost before = outcomes;
                proof {
                    outcomes = before.push(outcome);
                    assert(outcomes.take(before.len() as int) =~= before);
                    assert forall|i: int| 0 <= i < outcomes.len() implies call_ensures(
                        lookup,
                        (timeout_after(
                            base_timeout_ms,
                            measurements(entry, lookup_ip, outcomes.take(i)),
                        ).current_timeout_ms,),
                        #[trigger] outcomes[i],
                    ) by {
                        if i < before.len() {
                            assert(outcomes.take(i) =~= before.take(i));
                        }
                    }
                    assert(measurements(entry, lookup_ip, outcomes) =~= measurements(
                        entry,
                        lookup_ip,
                        before,
                    ).push(measurement(entry, lookup_ip, outcome)));
                }
                run = run.record(outcome);
            },
            None => {
                break ;
            },
        }
    }
    let r = run.finish();
    assert(attempts_made(lookup, entry, lookup_ip, requests, base_timeout_ms, outcomes));
    r
}

} // verus!
