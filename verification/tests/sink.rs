use dns_bench::duration::Duration;
use dns_bench::net::IpAddress;
use dns_bench::result::{RawResultEntry, TimeResult};
use dns_bench::sink::{precedes, sort_result_entries, ResultSink};

fn record(name: &str, avg: TimeResult) -> RawResultEntry {
    let succeeded = matches!(avg, TimeResult::Succeeded(_));
    RawResultEntry {
        name: String::from(name),
        ip: IpAddress::V4(1, 1, 1, 1),
        last_resolved_ip: IpAddress::V4(0, 0, 0, 0),
        total_requests: 1,
        successful_requests: if succeeded { 1 } else { 0 },
        min_duration: avg.clone(),
        max_duration: avg.clone(),
        avg_duration: avg,
    }
}

fn millis(ms: u32) -> TimeResult {
    TimeResult::Succeeded(Duration::new(0, ms * 1_000_000))
}

fn failed() -> TimeResult {
    TimeResult::Failed(String::from("No responses"))
}

fn names(entries: &[RawResultEntry]) -> Vec<&str> {
    entries.iter().map(|e| e.name.as_str()).collect()
}

#[test]
fn failed_records_sort_to_the_end() {
    let mut entries = vec![record("failed", failed()), record("50ms", millis(50)), record("10ms", millis(10))];
    sort_result_entries(&mut entries);
    assert_eq!(names(&entries), ["10ms", "50ms", "failed"]);
    assert_eq!(entries[0].avg_duration, millis(10));
    assert_eq!(entries[1].avg_duration, millis(50));
    assert_eq!(entries[2].avg_duration, failed());
}

#[test]
fn equal_records_keep_their_order() {
    let mut entries = vec![
        record("f1", failed()),
        record("b1", millis(20)),
        record("a1", millis(10)),
        record("f2", TimeResult::Failed(String::from("other"))),
        record("b2", millis(20)),
        record("a2", millis(10)),
        record("b3", millis(20)),
        record("max", TimeResult::Succeeded(Duration::new(u64::MAX, 999_999_999))),
        record("zero", TimeResult::Succeeded(Duration::new(0, 0))),
    ];
    sort_result_entries(&mut entries);
    assert_eq!(names(&entries), ["zero", "a1", "a2", "b1", "b2", "b3", "max", "f1", "f2"]);
}

#[test]
fn sorting_nothing_or_one_record() {
    let mut none: Vec<RawResultEntry> = vec![];
    sort_result_entries(&mut none);
    assert!(none.is_empty());
    let mut one = vec![record("only", failed())];
    sort_result_entries(&mut one);
    assert_eq!(names(&one), ["only"]);
}

#[test]
fn sorting_agrees_with_a_stable_sort_by_key() {
    let mut seed: u64 = 0x2545_f491_4f6c_dd1d;
    for round in 0..50 {
        let mut entries = Vec::new();
        for i in 0..(round % 17) {
            seed ^= seed << 13;
            seed ^= seed >> 7;
            seed ^= seed << 17;
            let avg = if seed % 4 == 0 { failed() } else { millis((seed % 5) as u32) };
            entries.push(record(&format!("{round}-{i}"), avg));
        }
        let mut expected = entries.clone();
        expected.sort_by_key(|e| match &e.avg_duration {
            TimeResult::Succeeded(d) => (0, d.as_nanos()),
            TimeResult::Failed(_) => (1, 0),
        });
        sort_result_entries(&mut entries);
        assert_eq!(entries, expected);
    }
}

#[test]
fn precedes_compares_the_means() {
    let fast = record("fast", millis(1));
    let slow = record("slow", millis(2));
    let dead = record("dead", failed());
    assert!(precedes(&fast, &slow));
    assert!(!precedes(&slow, &fast));
    assert!(precedes(&fast, &fast));
    assert!(precedes(&slow, &dead));
    assert!(!precedes(&dead, &slow));
    assert!(precedes(&dead, &dead));
}

#[test]
fn sink_collects_and_sorts() {
    let mut sink = ResultSink::new();
    assert_eq!(sink.len(), 0);
    sink.push(record("failed", failed()));
    sink.push(record("50ms", millis(50)));
    sink.push(record("10ms", millis(10)));
    assert_eq!(sink.len(), 3);
    let sorted = sink.into_sorted();
    assert_eq!(names(&sorted), ["10ms", "50ms", "failed"]);
}
